//! The annotation injector.
//!
//! Rewrites the markdown token stream so that recognized annotations are
//! replaced by handler-synthesized tokens, leaving everything else
//! untouched. An annotation is the exact triple paragraph-start, text
//! beginning with `@`, paragraph-end; it must be followed by the block
//! shape its tag expects, whose whole nested range is consumed and handed
//! to the tag's handler.
//!
//! The scan is mirrored by the spec function `spec_scan`, and the
//! executable scanner is proved to agree with it exactly.

use vstd::prelude::*;

use crate::error::CompileError;
use crate::quiz::parse_quiz;
use crate::quiz::quiz_matches;
use crate::quiz::quiz_ok;
use crate::registry::ExpectedTag;
use crate::registry::HandlerKind;
use crate::registry::Registry;
use crate::registry::RegistryEntry;
use crate::registry::spec_lookup;
use crate::state::Quiz;
use crate::text::contains_ws;
use crate::text::find_char;
use crate::text::has_ws_between;
use crate::text::substr;
use crate::tokens::BlockTag;
use crate::tokens::Token;
use crate::tokens::TokenPair;
use crate::tokens::kinds_of;

verus! {

/// The first position of `c` in `s` at or after `i`, or the length of `s`.
pub open spec fn char_pos(s: Seq<char>, c: char, i: int) -> int
    decreases s.len() - i when 0 <= i <= s.len()
{
    if i >= s.len() {
        i
    } else if s[i] == c {
        i
    } else {
        char_pos(s, c, i + 1)
    }
}

/// `char_pos` is the unique boundary of a `c`-free stretch.
proof fn lemma_char_pos_unique(s: Seq<char>, c: char, i: int, j: int)
    requires
        0 <= i <= j <= s.len(),
        forall|k: int| i <= k < j ==> s[k] != c,
        j == s.len() || s[j] == c,
    ensures
        char_pos(s, c, i) == j,
    decreases j - i,
{
    if i < j {
        lemma_char_pos_unique(s, c, i + 1, j);
    }
}

/// The annotation name in a text `@name` or `@name;data`.
pub open spec fn name_of(t: Seq<char>) -> Seq<char> {
    t.subrange(1, char_pos(t, ';', 1))
}

/// The annotation data in a text `@name;data`, empty when there is none.
pub open spec fn data_of(t: Seq<char>) -> Seq<char> {
    if char_pos(t, ';', 1) < t.len() {
        t.subrange(char_pos(t, ';', 1) + 1, t.len() as int)
    } else {
        Seq::empty()
    }
}

/// Whether the exact annotation triple stands at position `i`: a paragraph
/// opens, its only text begins with `@`, and it closes.
pub open spec fn is_annot_at(toks: Seq<Token>, i: int) -> bool {
    &&& 0 <= i
    &&& i + 2 < toks.len()
    &&& toks[i] == Token::Start(BlockTag::Paragraph)
    &&& toks[i + 1] is Text
    &&& toks[i + 1]->Text_0@.len() > 0
    &&& toks[i + 1]->Text_0@[0] == '@'
    &&& toks[i + 2] is End
}

/// No annotation triple stands anywhere in the stream.
pub open spec fn no_annot(toks: Seq<Token>) -> bool {
    forall|k: int| !is_annot_at(toks, k)
}

/// How one token changes the open-container depth.
pub open spec fn tok_delta(t: Token) -> int {
    match t {
        Token::Start(_) => 1,
        Token::End => -1,
        _ => 0,
    }
}

/// The position just past the tokens that bring the depth from `depth`
/// back to zero, scanning from `j`; `None` when the stream ends first.
pub open spec fn block_end(toks: Seq<Token>, j: int, depth: int) -> Option<int>
    decreases toks.len() - j when 0 <= j <= toks.len()
{
    if depth <= 0 {
        Some(j)
    } else if j >= toks.len() {
        None
    } else {
        block_end(toks, j + 1, depth + tok_delta(toks[j]))
    }
}

/// A found block end lies within `[j, toks.len()]`.
proof fn lemma_block_end_bounds(toks: Seq<Token>, j: int, depth: int)
    requires
        0 <= j <= toks.len(),
    ensures
        block_end(toks, j, depth) matches Some(e) ==> j <= e <= toks.len(),
    decreases toks.len() - j,
{
    if depth > 0 && j < toks.len() {
        lemma_block_end_bounds(toks, j + 1, depth + tok_delta(toks[j]));
    }
}

/// `block_end` looks only at the suffix it scans.
proof fn lemma_block_end_shift(t: Seq<Token>, off: int, j: int, depth: int)
    requires
        0 <= off <= t.len(),
        0 <= j <= t.len() - off,
    ensures
        match block_end(t.subrange(off, t.len() as int), j, depth) {
            Some(e) => block_end(t, off + j, depth) == Some(off + e),
            None => block_end(t, off + j, depth) is None,
        },
    decreases t.len() - off - j,
{
    let s = t.subrange(off, t.len() as int);
    if depth <= 0 {
    } else if j >= s.len() {
    } else {
        assert(s[j] == t[off + j]);
        lemma_block_end_shift(t, off, j + 1, depth + tok_delta(t[off + j]));
    }
}

/// A chunk of the scanned stream, at the specification level: either one
/// token passed through, or a recognized annotation with its name, data,
/// handler and the token range of its consumed block.
pub enum SpecChunk {
    /// One token, untouched.
    Plain(Token),
    /// A recognized annotation and its consumed block.
    Annot { name: Seq<char>, data: Seq<char>, handler: HandlerKind, block: Seq<Token> },
}

/// How a scan fails.
pub enum ScanErr {
    /// The name or the data contains whitespace.
    InvalidSyntax,
    /// The named tag has no registered handler.
    UnknownTag(Seq<char>),
    /// The token after the annotation is not the expected block start:
    /// the shape the tag expects, and the shape found (`None` when the
    /// token starts no block at all).
    BlockMismatch { expected: ExpectedTag, actual: Option<BlockTag> },
    /// The stream ends before the expected block does.
    Truncated,
}

/// The message of a block-mismatch error: the expected shape, then the
/// found one.
pub open spec fn mismatch_note(e: ExpectedTag, a: Option<BlockTag>) -> Seq<char> {
    ExpectedTag::spec_describe(e) + ", found "@ + (match a {
        Some(t) => crate::tokens::spec_shape_label(t),
        None => "an event that starts no block"@,
    })
}

/// Prepends already-scanned chunks to the outcome of scanning the rest.
pub open spec fn prepend_scan(pre: Seq<SpecChunk>, r: Result<Seq<SpecChunk>, ScanErr>) -> Result<
    Seq<SpecChunk>,
    ScanErr,
> {
    match r {
        Ok(rest) => Ok(pre + rest),
        Err(e) => Err(e),
    }
}

/// What scanning the stream from position `i` yields: the chunk sequence,
/// or the first failure. This is the specification the executable scanner
/// is held to.
pub open spec fn spec_scan(toks: Seq<Token>, reg: Seq<RegistryEntry>, i: int) -> Result<
    Seq<SpecChunk>,
    ScanErr,
>
    decreases toks.len() - i when 0 <= i <= toks.len() via spec_scan_dec
{
    if i >= toks.len() {
        Ok(Seq::empty())
    } else if is_annot_at(toks, i) {
        let t = toks[i + 1]->Text_0@;
        let name = name_of(t);
        let data = data_of(t);
        if has_ws_between(name, 0, name.len() as int) || has_ws_between(
            data,
            0,
            data.len() as int,
        ) {
            Err(ScanErr::InvalidSyntax)
        } else {
            match spec_lookup(reg, name) {
                None => Err(ScanErr::UnknownTag(name)),
                Some(entry) => {
                    if i + 3 >= toks.len() {
                        Err(ScanErr::Truncated)
                    } else {
                        match toks[i + 3] {
                            Token::Start(tag) => if entry.expected.spec_matches(tag) {
                                match block_end(toks, i + 4, 1) {
                                    None => Err(ScanErr::Truncated),
                                    Some(e) => prepend_scan(
                                        seq![
                                            SpecChunk::Annot {
                                                name,
                                                data,
                                                handler: entry.handler,
                                                block: toks.subrange(i + 3, e),
                                            },
                                        ],
                                        spec_scan(toks, reg, e),
                                    ),
                                }
                            } else {
                                Err(ScanErr::BlockMismatch { expected: entry.expected, actual: Some(tag) })
                            },
                            _ => Err(ScanErr::BlockMismatch { expected: entry.expected, actual: None }),
                        }
                    }
                },
            }
        }
    } else {
        prepend_scan(seq![SpecChunk::Plain(toks[i])], spec_scan(toks, reg, i + 1))
    }
}

#[via_fn]
proof fn spec_scan_dec(toks: Seq<Token>, reg: Seq<RegistryEntry>, i: int) {
    if 0 <= i && i + 3 < toks.len() {
        lemma_block_end_bounds(toks, i + 4, 1);
    }
}

/// A chunk of the scanned stream, carrying the events themselves.
pub enum Chunk {
    /// One event, untouched.
    Plain(TokenPair),
    /// A recognized annotation and its consumed block.
    Annot { name: String, data: String, handler: HandlerKind, block: Vec<TokenPair> },
}

/// The specification-level picture of one chunk.
pub open spec fn chunk_view(c: Chunk) -> SpecChunk {
    match c {
        Chunk::Plain(p) => SpecChunk::Plain(p.kind),
        Chunk::Annot { name, data, handler, block } => SpecChunk::Annot {
            name: name@,
            data: data@,
            handler,
            block: kinds_of(block@),
        },
    }
}

/// The specification-level picture of a chunk sequence.
pub open spec fn chunk_views(cs: Seq<Chunk>) -> Seq<SpecChunk> {
    cs.map(|k: int, c: Chunk| chunk_view(c))
}

/// Every event wrapped as its own plain chunk.
pub open spec fn plain_chunks_of(pairs: Seq<TokenPair>) -> Seq<Chunk> {
    pairs.map(|k: int, p: TokenPair| Chunk::Plain(p))
}

/// The events the injector emits from position `i` on, when the scan
/// succeeds: every token outside an annotation passes through, and a
/// recognized annotation contributes its handler's replacements — nothing,
/// for the quiz handler. On a stream the scan rejects it is meaningless.
pub open spec fn spec_inject(
    pairs: Seq<TokenPair>,
    reg: Seq<RegistryEntry>,
    i: int,
) -> Seq<TokenPair>
    decreases pairs.len() - i when 0 <= i <= pairs.len() via spec_inject_dec
{
    let toks = kinds_of(pairs);
    if i >= pairs.len() {
        Seq::empty()
    } else if is_annot_at(toks, i) {
        let t = toks[i + 1]->Text_0@;
        if !has_ws_between(name_of(t), 0, name_of(t).len() as int) && !has_ws_between(
            data_of(t),
            0,
            data_of(t).len() as int,
        ) && spec_lookup(reg, name_of(t)) is Some && i + 3 < pairs.len() && (toks[i
            + 3] matches Token::Start(tag)
            && spec_lookup(reg, name_of(t))->Some_0.expected.spec_matches(tag)) && block_end(
            toks,
            i + 4,
            1,
        ) is Some {
            spec_inject(pairs, reg, block_end(toks, i + 4, 1)->Some_0)
        } else {
            Seq::empty()
        }
    } else {
        seq![pairs[i]] + spec_inject(pairs, reg, i + 1)
    }
}

#[via_fn]
proof fn spec_inject_dec(pairs: Seq<TokenPair>, reg: Seq<RegistryEntry>, i: int) {
    if 0 <= i && i + 3 < pairs.len() {
        assert(kinds_of(pairs).len() == pairs.len());
        lemma_block_end_bounds(kinds_of(pairs), i + 4, 1);
    }
}

/// What one spec-level chunk contributes to the quiz work.
pub open spec fn spec_job_one(c: SpecChunk) -> Seq<(Seq<char>, Seq<char>)> {
    match c {
        SpecChunk::Annot { data, block, .. } => seq![(data, texts_of(block))],
        _ => Seq::empty(),
    }
}

/// The quiz work the scanned chunks demand: for each annotation chunk, in
/// order, its data string (the quiz id) and its block's text.
pub open spec fn quiz_jobs(cs: Seq<SpecChunk>) -> Seq<(Seq<char>, Seq<char>)>
    decreases cs.len(),
{
    if cs.len() == 0 {
        Seq::empty()
    } else {
        spec_job_one(cs[0]) + quiz_jobs(cs.drop_first())
    }
}

/// Whether injection succeeds on a token stream: the scan accepts it and
/// every annotation's block text is an acceptable quiz definition.
pub open spec fn inject_ok(toks: Seq<Token>, reg: Seq<RegistryEntry>) -> bool {
    &&& spec_scan(toks, reg, 0) is Ok
    &&& (forall|j: int|
        0 <= j < quiz_jobs(spec_scan(toks, reg, 0)->Ok_0).len() ==> quiz_ok(
            (#[trigger] quiz_jobs(spec_scan(toks, reg, 0)->Ok_0)[j]).1,
        ))
}

/// What one chunk passes through: its event if it is plain, nothing else.
pub open spec fn plain_one(c: Chunk) -> Seq<TokenPair> {
    match c {
        Chunk::Plain(p) => seq![p],
        _ => Seq::empty(),
    }
}

/// The events the chunks pass through, in order.
pub open spec fn plain_events(cs: Seq<Chunk>) -> Seq<TokenPair>
    decreases cs.len(),
{
    if cs.len() == 0 {
        Seq::empty()
    } else {
        plain_one(cs[0]) + plain_events(cs.drop_first())
    }
}

/// What one chunk contributes to the quiz work.
pub open spec fn job_one(c: Chunk) -> Seq<(Seq<char>, Seq<char>)> {
    match c {
        Chunk::Annot { data, block, .. } => seq![(data@, texts_of(kinds_of(block@)))],
        _ => Seq::empty(),
    }
}

/// The quiz work of the chunks themselves.
pub open spec fn chunk_jobs(cs: Seq<Chunk>) -> Seq<(Seq<char>, Seq<char>)>
    decreases cs.len(),
{
    if cs.len() == 0 {
        Seq::empty()
    } else {
        job_one(cs[0]) + chunk_jobs(cs.drop_first())
    }
}

/// Appending a chunk appends its passed-through events.
proof fn lemma_plain_events_push(cs: Seq<Chunk>, c: Chunk)
    ensures
        plain_events(cs.push(c)) == plain_events(cs) + plain_one(c),
    decreases cs.len(),
{
    if cs.len() == 0 {
        assert(cs.push(c)[0] == c);
        assert(cs.push(c).drop_first() =~= Seq::<Chunk>::empty());
        assert(plain_events(cs.push(c)) == plain_one(c) + plain_events(
            cs.push(c).drop_first(),
        ));
        assert(plain_events(Seq::<Chunk>::empty()) =~= Seq::<TokenPair>::empty());
        assert(plain_one(c) + Seq::<TokenPair>::empty() =~= plain_one(c));
        assert(plain_events(cs) + plain_one(c) =~= plain_one(c));
    } else {
        assert(cs.push(c)[0] == cs[0]);
        assert(cs.push(c).drop_first() =~= cs.drop_first().push(c));
        lemma_plain_events_push(cs.drop_first(), c);
        assert(plain_events(cs.push(c)) == plain_one(cs[0]) + plain_events(
            cs.push(c).drop_first(),
        ));
        assert(plain_one(cs[0]) + (plain_events(cs.drop_first()) + plain_one(c)) =~= (plain_one(
            cs[0],
        ) + plain_events(cs.drop_first())) + plain_one(c));
        assert(plain_events(cs) == plain_one(cs[0]) + plain_events(cs.drop_first()));
    }
}

/// Appending a chunk appends its quiz work.
proof fn lemma_chunk_jobs_push(cs: Seq<Chunk>, c: Chunk)
    ensures
        chunk_jobs(cs.push(c)) == chunk_jobs(cs) + job_one(c),
    decreases cs.len(),
{
    if cs.len() == 0 {
        assert(cs.push(c)[0] == c);
        assert(cs.push(c).drop_first() =~= Seq::<Chunk>::empty());
        assert(chunk_jobs(cs.push(c)) == job_one(c) + chunk_jobs(cs.push(c).drop_first()));
        assert(chunk_jobs(Seq::<Chunk>::empty()) =~= Seq::<(Seq<char>, Seq<char>)>::empty());
        assert(job_one(c) + Seq::<(Seq<char>, Seq<char>)>::empty() =~= job_one(c));
        assert(chunk_jobs(cs) + job_one(c) =~= job_one(c));
    } else {
        assert(cs.push(c)[0] == cs[0]);
        assert(cs.push(c).drop_first() =~= cs.drop_first().push(c));
        lemma_chunk_jobs_push(cs.drop_first(), c);
        assert(chunk_jobs(cs.push(c)) == job_one(cs[0]) + chunk_jobs(cs.push(c).drop_first()));
        assert(job_one(cs[0]) + (chunk_jobs(cs.drop_first()) + job_one(c)) =~= (job_one(cs[0])
            + chunk_jobs(cs.drop_first())) + job_one(c));
        assert(chunk_jobs(cs) == job_one(cs[0]) + chunk_jobs(cs.drop_first()));
    }
}

/// The chunks' quiz work is the spec-level picture's quiz work.
proof fn lemma_jobs_view(cs: Seq<Chunk>)
    ensures
        chunk_jobs(cs) == quiz_jobs(chunk_views(cs)),
    decreases cs.len(),
{
    if cs.len() == 0 {
        assert(chunk_views(cs).len() == 0);
    } else {
        lemma_jobs_view(cs.drop_first());
        assert(chunk_views(cs)[0] == chunk_view(cs[0]));
        assert(chunk_views(cs).drop_first() =~= chunk_views(cs.drop_first()));
        match cs[0] {
            Chunk::Plain(_) => {
                assert(job_one(cs[0]) =~= spec_job_one(chunk_view(cs[0])));
            },
            Chunk::Annot { name: _, data: _, handler: _, block: _ } => {
                assert(job_one(cs[0]) =~= spec_job_one(chunk_view(cs[0])));
            },
        }
        assert(chunk_jobs(cs) =~= quiz_jobs(chunk_views(cs)));
    }
}

/// Absorbing one freshly produced chunk into the scanned prefix.
proof fn lemma_prepend_step(
    pre: Seq<SpecChunk>,
    c: SpecChunk,
    r: Result<Seq<SpecChunk>, ScanErr>,
)
    ensures
        prepend_scan(pre, prepend_scan(seq![c], r)) == prepend_scan(pre.push(c), r),
{
    match r {
        Ok(rest) => {
            assert(pre + (seq![c] + rest) =~= pre.push(c) + rest);
        },
        Err(_) => {},
    }
}

/// Whether the annotation triple stands at the front of `rest`.
fn annot_at_front(rest: &Vec<TokenPair>) -> (r: bool)
    ensures
        r == is_annot_at(kinds_of(rest@), 0),
{
    proof {
        if rest@.len() > 2 {
            assert(kinds_of(rest@)[0] == rest@[0].kind);
            assert(kinds_of(rest@)[1] == rest@[1].kind);
            assert(kinds_of(rest@)[2] == rest@[2].kind);
        }
    }
    if rest.len() < 3 {
        return false;
    }
    if !(matches!(&rest[0].kind, Token::Start(BlockTag::Paragraph))) {
        return false;
    }
    if !(matches!(&rest[2].kind, Token::End)) {
        return false;
    }
    match &rest[1].kind {
        Token::Text(t) => {
            let n = t.as_str().unicode_len();
            if n == 0 {
                false
            } else {
                t.as_str().get_char(0) == '@'
            }
        },
        _ => false,
    }
}

/// Consumes the block at the front of `rest`: the tokens from its opening
/// start event until the matching close, nesting included. `None` when the
/// stream ends before the block closes; `rest` then keeps what was left.
fn take_block(rest: &mut Vec<TokenPair>) -> (r: Option<Vec<TokenPair>>)
    requires
        old(rest)@.len() >= 1,
        kinds_of(old(rest)@)[0] is Start,
    ensures
        match block_end(kinds_of(old(rest)@), 1, 1) {
            Some(e) => r matches Some(b) && b@ == old(rest)@.subrange(0, e) && final(rest)@ == old(rest)@.subrange(e, old(rest)@.len() as int),
            None => r is None,
        },
{
    let ghost orig = rest@;
    let ghost kinds = kinds_of(orig);
    let n0 = rest.len();
    let mut block: Vec<TokenPair> = Vec::new();
    let first = rest.remove(0);
    block.push(first);
    let mut depth: usize = 1;
    let ghost j: int = 1;
    proof {
        assert(block@ =~= orig.subrange(0, 1));
        assert(rest@ =~= orig.subrange(1, orig.len() as int));
    }
    loop
        invariant
            orig == old(rest)@,
            1 <= j <= orig.len(),
            orig.len() == n0,
            depth <= j,
            kinds == kinds_of(orig),
            block@ == orig.subrange(0, j),
            rest@ == orig.subrange(j, orig.len() as int),
            block_end(kinds, 1, 1) == block_end(kinds, j, depth as int),
        ensures
            depth == 0,
            1 <= j <= orig.len(),
            block@ == orig.subrange(0, j),
            rest@ == orig.subrange(j, orig.len() as int),
            block_end(kinds, 1, 1) == block_end(kinds, j, 0),
        decreases orig.len() - j,
    {
        if depth == 0 {
            break;
        }
        if rest.len() == 0 {
            proof {
                assert(j == orig.len());
                assert(block_end(kinds, j, depth as int) is None);
            }
            return None;
        }
        let p = rest.remove(0);
        proof {
            assert(orig.subrange(j, orig.len() as int)[0] == orig[j]);
            assert(kinds_of(orig)[j] == orig[j].kind);
        }
        let d: usize = match &p.kind {
            Token::Start(_) => depth + 1,
            Token::End => depth - 1,
            _ => depth,
        };
        block.push(p);
        proof {
            assert(block@ =~= orig.subrange(0, j + 1));
            assert(rest@ =~= orig.subrange(j + 1, orig.len() as int));
            assert(tok_delta(kinds[j]) == d - depth);
        }
        depth = d;
        proof {
            j = j + 1;
        }
    }
    proof {
        assert(block_end(kinds, j, 0) == Some(j));
    }
    Some(block)
}

/// Scans the token stream into chunks: every token outside an annotation
/// passes through as itself, and each recognized annotation is folded into
/// one chunk with its consumed block. Agrees exactly with `spec_scan`.
pub fn scan(input: Vec<TokenPair>, reg: &Registry) -> (r: Result<Vec<Chunk>, CompileError>)
    ensures
        match spec_scan(kinds_of(input@), reg.entries@, 0) {
            Ok(cs) => r is Ok && chunk_views(r->Ok_0@) == cs && plain_events(r->Ok_0@)
                == spec_inject(input@, reg.entries@, 0) && chunk_jobs(r->Ok_0@) == quiz_jobs(cs),
            Err(ScanErr::InvalidSyntax) => r is Err && r->Err_0 is InvalidAnnotationSyntax,
            Err(ScanErr::UnknownTag(n)) => r is Err && r->Err_0 is UnknownAnnotationTag && (r->Err_0->UnknownAnnotationTag_0)@ == n,
            Err(ScanErr::BlockMismatch { expected, actual }) => r is Err
                && r->Err_0 is AnnotationBlockMismatch && (r->Err_0->AnnotationBlockMismatch_0)@
                == mismatch_note(expected, actual),
            Err(ScanErr::Truncated) => r is Err && r->Err_0 is AnnotationBlockMismatch,
        },
        no_annot(kinds_of(input@)) ==> r is Ok && r->Ok_0@ == plain_chunks_of(input@),
{
    let ghost orig = input@;
    let ghost kinds = kinds_of(orig);
    let ghost regs = reg.entries@;
    let mut rest = input;
    let mut out: Vec<Chunk> = Vec::new();
    let ghost i: int = 0;
    proof {
        assert(rest@ =~= orig.subrange(0, orig.len() as int));
        assert(prepend_scan(chunk_views(out@), spec_scan(kinds, regs, 0)) == spec_scan(
            kinds,
            regs,
            0,
        )) by {
            match spec_scan(kinds, regs, 0) {
                Ok(cs) => {
                    assert(chunk_views(out@) + cs =~= cs);
                },
                Err(_) => {},
            }
        }
        assert(out@ =~= plain_chunks_of(orig.subrange(0, 0)));
        assert(plain_events(out@) + spec_inject(orig, regs, 0) =~= spec_inject(orig, regs, 0));
    }
    loop
        invariant
            orig == input@,
            0 <= i <= orig.len(),
            kinds == kinds_of(orig),
            kinds.len() == orig.len(),
            regs == reg.entries@,
            rest@ == orig.subrange(i, orig.len() as int),
            spec_scan(kinds, regs, 0) == prepend_scan(
                chunk_views(out@),
                spec_scan(kinds, regs, i),
            ),
            spec_inject(orig, regs, 0) == plain_events(out@) + spec_inject(orig, regs, i),
            no_annot(kinds) ==> out@ == plain_chunks_of(orig.subrange(0, i)),
        ensures
            i == orig.len(),
            orig == input@,
            kinds == kinds_of(orig),
            regs == reg.entries@,
            spec_scan(kinds, regs, 0) == prepend_scan(
                chunk_views(out@),
                spec_scan(kinds, regs, i),
            ),
            spec_inject(orig, regs, 0) == plain_events(out@) + spec_inject(orig, regs, i),
            no_annot(kinds) ==> out@ == plain_chunks_of(orig.subrange(0, i)),
        decreases orig.len() - i,
    {
        proof {
            assert(kinds_of(rest@) =~= kinds.subrange(i, orig.len() as int)) by {
                assert forall|k: int| 0 <= k < rest@.len() implies kinds_of(rest@)[k]
                    == kinds.subrange(i, orig.len() as int)[k] by {
                    assert(kinds_of(rest@)[k] == rest@[k].kind);
                    assert(kinds[i + k] == orig[i + k].kind);
                }
            }
        }
        if rest.len() == 0 {
            break;
        }
        let is_a = annot_at_front(&rest);
        proof {
            assert(is_a == is_annot_at(kinds, i)) by {
                let sub = kinds.subrange(i, orig.len() as int);
                if is_annot_at(sub, 0) {
                    assert(sub[0] == kinds[i]);
                    assert(sub[1] == kinds[i + 1]);
                    assert(sub[2] == kinds[i + 2]);
                    assert(is_annot_at(kinds, i));
                }
                if is_annot_at(kinds, i) {
                    assert(sub[0] == kinds[i]);
                    assert(sub[1] == kinds[i + 1]);
                    assert(sub[2] == kinds[i + 2]);
                    assert(is_annot_at(sub, 0));
                }
            }
        }
        if !is_a {
            let p = rest.remove(0);
            proof {
                assert(orig.subrange(i, orig.len() as int)[0] == orig[i]);
                assert(p == orig[i]);
                assert(chunk_views(out@.push(Chunk::Plain(p))) =~= chunk_views(out@).push(
                    SpecChunk::Plain(kinds[i]),
                )) by {
                    assert(kinds[i] == orig[i].kind);
                    assert forall|k: int| 0 <= k < out@.len() implies chunk_views(
                        out@.push(Chunk::Plain(p)),
                    )[k] == chunk_views(out@)[k] by {
                        assert(out@.push(Chunk::Plain(p))[k] == out@[k]);
                    }
                }
                assert(spec_scan(kinds, regs, i) == prepend_scan(
                    seq![SpecChunk::Plain(kinds[i])],
                    spec_scan(kinds, regs, i + 1),
                ));
                lemma_prepend_step(
                    chunk_views(out@),
                    SpecChunk::Plain(kinds[i]),
                    spec_scan(kinds, regs, i + 1),
                );
            }
            let ghost out0 = out@;
            out.push(Chunk::Plain(p));
            proof {
                assert(rest@ =~= orig.subrange(i + 1, orig.len() as int));
                lemma_plain_events_push(out0, Chunk::Plain(p));
                assert(spec_inject(orig, regs, i) == seq![orig[i]] + spec_inject(
                    orig,
                    regs,
                    i + 1,
                ));
                assert(plain_events(out0) + (seq![orig[i]] + spec_inject(orig, regs, i + 1)) =~= (
                plain_events(out0) + seq![orig[i]]) + spec_inject(orig, regs, i + 1));
                assert(plain_one(Chunk::Plain(p)) =~= seq![orig[i]]);
                if no_annot(kinds) {
                    assert(out@ =~= plain_chunks_of(orig.subrange(0, i + 1))) by {
                        assert forall|k: int| 0 <= k < out@.len() implies out@[k]
                            == plain_chunks_of(orig.subrange(0, i + 1))[k] by {
                            assert(orig.subrange(0, i + 1)[k] == orig[k]);
                            if k < out@.len() - 1 {
                                assert(out@[k] == plain_chunks_of(orig.subrange(0, i))[k]);
                                assert(orig.subrange(0, i)[k] == orig[k]);
                            }
                        }
                    }
                }
                i = i + 1;
            }
            continue;
        }
        // The annotation triple stands at `i`: take its text apart.
        let t: String = match &rest[1].kind {
            Token::Text(s) => s.clone(),
            _ => {
                proof {
                    assert(false);
                }
                String::new()
            },
        };
        proof {
            assert(kinds[i + 1] == orig[i + 1].kind);
            assert(rest@[1] == orig[i + 1]);
            assert(t@ == kinds[i + 1]->Text_0@);
        }
        let tn = t.as_str().unicode_len();
        let semi = match find_char(t.as_str(), ';', 1) {
            Some(p) => {
                proof {
                    lemma_char_pos_unique(t@, ';', 1, p as int);
                }
                p
            },
            None => {
                proof {
                    lemma_char_pos_unique(t@, ';', 1, t@.len() as int);
                }
                tn
            },
        };
        let name = substr(t.as_str(), 1, semi);
        let data = if semi < tn {
            substr(t.as_str(), semi + 1, tn)
        } else {
            String::new()
        };
        proof {
            assert(name@ == name_of(t@));
            assert(data@ == data_of(t@));
        }
        if contains_ws(name.as_str(), 0, name.as_str().unicode_len()) || contains_ws(
            data.as_str(),
            0,
            data.as_str().unicode_len(),
        ) {
            return Err(
                CompileError::InvalidAnnotationSyntax(
                    String::from_str("whitespace in annotation tag or data"),
                ),
            );
        }
        let entry: &RegistryEntry = match reg.lookup(name.as_str()) {
            Some(e) => e,
            None => {
                return Err(CompileError::UnknownAnnotationTag(name));
            },
        };
        proof {
            assert(spec_lookup(regs, name_of(t@)) == Some(*entry));
        }
        // Drop the three annotation tokens.
        let _ = rest.remove(0);
        let _ = rest.remove(0);
        let _ = rest.remove(0);
        proof {
            assert(rest@ =~= orig.subrange(i + 3, orig.len() as int));
        }
        if rest.len() == 0 {
            return Err(
                CompileError::AnnotationBlockMismatch(
                    String::from_str("stream ends where an annotation block was expected"),
                ),
            );
        }
        proof {
            assert(kinds_of(rest@) =~= kinds.subrange(i + 3, orig.len() as int)) by {
                assert forall|k: int| 0 <= k < rest@.len() implies kinds_of(rest@)[k]
                    == kinds.subrange(i + 3, orig.len() as int)[k] by {
                    assert(kinds_of(rest@)[k] == rest@[k].kind);
                    assert(kinds[i + 3 + k] == orig[i + 3 + k].kind);
                }
            }
            assert(kinds_of(rest@)[0] == kinds[i + 3]);
        }
        let shape_ok: bool = match &rest[0].kind {
            Token::Start(tag) => entry.expected.matches(tag),
            _ => false,
        };
        if !shape_ok {
            let actual_label: &'static str = match &rest[0].kind {
                Token::Start(tag) => crate::tokens::shape_label(tag),
                _ => "an event that starts no block",
            };
            let msg = entry.expected.describe().to_owned().concat(", found ").concat(actual_label);
            proof {
                let ghost actual: Option<BlockTag> = match kinds[i + 3] {
                    Token::Start(tag) => Some(tag),
                    _ => None,
                };
                assert(msg@ =~= mismatch_note(entry.expected, actual));
                assert(spec_scan(kinds, regs, i) == Err::<Seq<SpecChunk>, ScanErr>(
                    ScanErr::BlockMismatch { expected: entry.expected, actual },
                ));
            }
            return Err(CompileError::AnnotationBlockMismatch(msg));
        }
        let ghost rest_before = rest@;
        let block = match take_block(&mut rest) {
            Some(b) => b,
            None => {
                proof {
                    lemma_block_end_shift(kinds, i + 3, 1, 1);
                }
                return Err(
                    CompileError::AnnotationBlockMismatch(
                        String::from_str("stream ends inside an annotation block"),
                    ),
                );
            },
        };
        proof {
            lemma_block_end_shift(kinds, i + 3, 1, 1);
            lemma_block_end_bounds(kinds, i + 4, 1);
        }
        let ghost e_abs = block_end(kinds, i + 4, 1)->Some_0;
        proof {
            let rel = block_end(kinds_of(rest_before), 1, 1)->Some_0;
            assert(e_abs == i + 3 + rel);
            assert(block@ == rest_before.subrange(0, rel));
            assert(block@ =~= orig.subrange(i + 3, e_abs)) by {
                assert forall|k: int| 0 <= k < block@.len() implies block@[k] == orig.subrange(
                    i + 3,
                    e_abs,
                )[k] by {
                    assert(block@[k] == rest_before[k]);
                    assert(rest_before[k] == orig[i + 3 + k]);
                }
            }
            assert(rest@ =~= orig.subrange(e_abs, orig.len() as int)) by {
                assert forall|k: int| 0 <= k < rest@.len() implies rest@[k] == orig.subrange(
                    e_abs,
                    orig.len() as int,
                )[k] by {
                    assert(rest@[k] == rest_before[k + (e_abs - i - 3)]);
                    assert(rest_before[k + (e_abs - i - 3)] == orig[k + e_abs]);
                }
            }
        }
        let chunk = Chunk::Annot { name, data, handler: entry.handler, block };
        proof {
            let spec_c = SpecChunk::Annot {
                name: name_of(t@),
                data: data_of(t@),
                handler: entry.handler,
                block: kinds.subrange(i + 3, e_abs),
            };
            assert(chunk_view(chunk) == spec_c) by {
                assert(kinds_of(orig.subrange(i + 3, e_abs)) =~= kinds.subrange(i + 3, e_abs))
                    by {
                    assert forall|k: int| 0 <= k < e_abs - i - 3 implies #[trigger] kinds_of(
                        orig.subrange(i + 3, e_abs),
                    )[k] == kinds.subrange(i + 3, e_abs)[k] by {
                        assert(kinds_of(orig.subrange(i + 3, e_abs))[k] == orig.subrange(
                            i + 3,
                            e_abs,
                        )[k].kind);
                        assert(kinds[i + 3 + k] == orig[i + 3 + k].kind);
                    }
                }
            }
            assert(spec_scan(kinds, regs, i) == prepend_scan(
                seq![spec_c],
                spec_scan(kinds, regs, e_abs),
            ));
            assert(chunk_views(out@.push(chunk)) =~= chunk_views(out@).push(spec_c)) by {
                assert forall|k: int| 0 <= k < out@.len() implies chunk_views(out@.push(chunk))[k]
                    == chunk_views(out@)[k] by {
                    assert(out@.push(chunk)[k] == out@[k]);
                }
            }
            lemma_prepend_step(chunk_views(out@), spec_c, spec_scan(kinds, regs, e_abs));
            assert(!no_annot(kinds)) by {
                assert(is_annot_at(kinds, i));
            }
        }
        let ghost out0 = out@;
        out.push(chunk);
        proof {
            lemma_plain_events_push(out0, out@.last());
            assert(plain_one(out@.last()) =~= Seq::<TokenPair>::empty());
            assert(plain_events(out@) =~= plain_events(out0));
            assert(spec_inject(orig, regs, i) == spec_inject(orig, regs, e_abs));
            i = e_abs;
        }
    }
    proof {
        assert(i == orig.len());
        assert(spec_scan(kinds, regs, i) == Ok::<Seq<SpecChunk>, ScanErr>(Seq::empty()));
        match spec_scan(kinds, regs, 0) {
            Ok(cs) => {
                assert(chunk_views(out@) + Seq::empty() =~= chunk_views(out@));
            },
            Err(_) => {
                assert(false);
            },
        }
        assert(spec_inject(orig, regs, orig.len() as int) =~= Seq::<TokenPair>::empty());
        assert(plain_events(out@) + Seq::<TokenPair>::empty() =~= plain_events(out@));
        lemma_jobs_view(out@);
        if no_annot(kinds) {
            assert(orig.subrange(0, orig.len() as int) =~= orig);
        }
    }
    Ok(out)
}

/// The side data one article's annotations produce: quiz definitions,
/// keyed by the quiz id given as annotation data. The compiler inserts
/// them into the content index as one set, under the article's id.
#[derive(Debug)]
pub struct InjectData {
    /// The quizzes this article registered, in order of appearance.
    pub quizzes: Vec<(String, Quiz)>,
}

impl InjectData {
    /// No side data yet.
    pub fn new() -> (r: InjectData)
        ensures
            r.quizzes@.len() == 0,
    {
        InjectData { quizzes: Vec::new() }
    }
}

/// The concatenated characters of every text token in a stream.
pub open spec fn texts_of(kinds: Seq<Token>) -> Seq<char>
    decreases kinds.len(),
{
    if kinds.len() == 0 {
        Seq::empty()
    } else {
        (match kinds[0] {
            Token::Text(s) => s@,
            _ => Seq::empty(),
        }) + texts_of(kinds.drop_first())
    }
}

/// Collects the text inside a consumed block: the characters of its text
/// tokens, in order.
fn block_text(block: &Vec<TokenPair>) -> (r: String)
    ensures
        r@ == texts_of(kinds_of(block@)),
{
    let ghost ks = kinds_of(block@);
    let mut out = String::new();
    let n = block.len();
    let mut i: usize = 0;
    proof {
        assert(ks.subrange(0, n as int) =~= ks);
    }
    while i < n
        invariant
            i <= n,
            n == block@.len(),
            ks == kinds_of(block@),
            texts_of(ks) == out@ + texts_of(ks.subrange(i as int, n as int)),
        decreases n - i,
    {
        let ghost suffix = ks.subrange(i as int, n as int);
        proof {
            assert(suffix[0] == ks[i as int]);
            assert(ks[i as int] == block@[i as int].kind);
            assert(suffix.drop_first() =~= ks.subrange(i as int + 1, n as int));
        }
        match &block[i].kind {
            Token::Text(s) => {
                let ghost out0 = out@;
                out.append(s.as_str());
                proof {
                    assert(out0 + (s@ + texts_of(ks.subrange(i as int + 1, n as int))) =~= (out0
                        + s@) + texts_of(ks.subrange(i as int + 1, n as int)));
                }
            },
            _ => {
                proof {
                    assert(out@ + (Seq::<char>::empty() + texts_of(
                        ks.subrange(i as int + 1, n as int),
                    )) =~= out@ + texts_of(ks.subrange(i as int + 1, n as int)));
                }
            },
        }
        i = i + 1;
    }
    proof {
        assert(texts_of(ks.subrange(n as int, n as int)) == Seq::<char>::empty());
        assert(out@ + Seq::<char>::empty() =~= out@);
    }
    out
}

/// Runs the handler bound to an annotation on its consumed block. On
/// success the handler's replacement tokens come back (the quiz handler
/// replaces its block with nothing); on failure the side data is
/// untouched.
fn run_handler(
    handler: HandlerKind,
    block: &Vec<TokenPair>,
    data_str: &String,
    d: &mut InjectData,
) -> (r: Result<Vec<TokenPair>, CompileError>)
    ensures
        r is Ok <==> quiz_ok(texts_of(kinds_of(block@))),
        r is Err ==> r->Err_0 is ConfigDeserializationError && *final(d) == *old(d),
        r is Ok ==> r->Ok_0@.len() == 0 && exists|entry: (String, Quiz)|
            entry.0@ == data_str@ && quiz_matches(texts_of(kinds_of(block@)), entry.1) && final(d).quizzes@ == old(d).quizzes@.push(entry),
{
    match handler {
        HandlerKind::Quiz => {
            let text = block_text(block);
            match parse_quiz(text.as_str()) {
                Ok(q) => {
                    let entry = (data_str.clone(), q);
                    proof {
                        assert(entry.0@ == data_str@);
                    }
                    d.quizzes.push(entry);
                    Ok(Vec::new())
                },
                Err(e) => Err(e),
            }
        },
    }
}

/// Replays the scanned chunks: plain chunks pass their event through;
/// annotation chunks run their handler and contribute its replacement
/// events instead of the consumed block.
#[verifier::loop_isolation(false)]
fn apply_chunks(chunks: Vec<Chunk>, d: &mut InjectData) -> (r: Result<Vec<TokenPair>, CompileError>)
    ensures
        r is Err ==> r->Err_0 is ConfigDeserializationError,
        old(d).quizzes@.is_prefix_of(final(d).quizzes@),
        r is Ok <==> (forall|j: int|
            0 <= j < chunk_jobs(chunks@).len() ==> quiz_ok((#[trigger] chunk_jobs(chunks@)[j]).1)),
        r matches Ok(out) ==> out@ == plain_events(chunks@),
        r is Ok ==> final(d).quizzes@.len() == old(d).quizzes@.len() + chunk_jobs(chunks@).len()
            && (forall|j: int|
            0 <= j < chunk_jobs(chunks@).len() ==> ((#[trigger] final(d).quizzes@[old(d).quizzes@.len() + j]).0@ == chunk_jobs(chunks@)[j].0 && quiz_matches(
                chunk_jobs(chunks@)[j].1,
                final(d).quizzes@[old(d).quizzes@.len() + j].1,
            ))),
        (forall|k: int| 0 <= k < chunks@.len() ==> chunks@[k] is Plain) ==> r is Ok && *final(d)
            == *old(d) && r->Ok_0@ == chunks@.map(|k: int, c: Chunk| c->Plain_0),
{
    let ghost orig_c = chunks@;
    let mut rest = chunks;
    let mut out: Vec<TokenPair> = Vec::new();
    let ghost i: int = 0;
    let ghost mut jobs_done: Seq<(Seq<char>, Seq<char>)> = Seq::empty();
    proof {
        assert(rest@ =~= orig_c.subrange(0, orig_c.len() as int));
        assert(out@ =~= orig_c.subrange(0, 0).map(|k: int, c: Chunk| c->Plain_0));
        assert(out@ + plain_events(orig_c.subrange(0, orig_c.len() as int)) =~= plain_events(
            orig_c,
        ));
        assert(jobs_done + chunk_jobs(orig_c.subrange(0, orig_c.len() as int)) =~= chunk_jobs(
            orig_c,
        ));
    }
    while rest.len() > 0
        invariant
            0 <= i <= orig_c.len(),
            rest@ == orig_c.subrange(i, orig_c.len() as int),
            old(d).quizzes@.is_prefix_of(d.quizzes@),
            plain_events(orig_c) == out@ + plain_events(orig_c.subrange(i, orig_c.len() as int)),
            chunk_jobs(orig_c) == jobs_done + chunk_jobs(orig_c.subrange(i, orig_c.len() as int)),
            d.quizzes@.len() == old(d).quizzes@.len() + jobs_done.len(),
            forall|j: int|
                0 <= j < jobs_done.len() ==> (quiz_ok((#[trigger] jobs_done[j]).1) && d.quizzes@[
                    old(d).quizzes@.len() + j].0@ == jobs_done[j].0 && quiz_matches(
                    jobs_done[j].1,
                    d.quizzes@[old(d).quizzes@.len() + j].1,
                )),
            (forall|k: int| 0 <= k < orig_c.len() ==> orig_c[k] is Plain) ==> *d == *old(d)
                && out@ == orig_c.subrange(0, i).map(|k: int, c: Chunk| c->Plain_0),
        decreases orig_c.len() - i,
    {
        let c = rest.remove(0);
        let ghost suffix = orig_c.subrange(i, orig_c.len() as int);
        proof {
            assert(orig_c.subrange(i, orig_c.len() as int)[0] == orig_c[i]);
            assert(c == orig_c[i]);
            assert(rest@ =~= orig_c.subrange(i + 1, orig_c.len() as int));
            assert(suffix.drop_first() =~= orig_c.subrange(i + 1, orig_c.len() as int));
        }
        match c {
            Chunk::Plain(p) => {
                let ghost out0 = out@;
                out.push(p);
                proof {
                    assert(plain_one(orig_c[i]) =~= seq![p]);
                    assert(job_one(orig_c[i]) =~= Seq::<(Seq<char>, Seq<char>)>::empty());
                    assert(out0 + (seq![p] + plain_events(
                        orig_c.subrange(i + 1, orig_c.len() as int),
                    )) =~= out@ + plain_events(orig_c.subrange(i + 1, orig_c.len() as int)));
                    assert(jobs_done + (Seq::<(Seq<char>, Seq<char>)>::empty() + chunk_jobs(
                        orig_c.subrange(i + 1, orig_c.len() as int),
                    )) =~= jobs_done + chunk_jobs(orig_c.subrange(i + 1, orig_c.len() as int)));
                    if forall|k: int| 0 <= k < orig_c.len() ==> orig_c[k] is Plain {
                        assert(out@ =~= orig_c.subrange(0, i + 1).map(
                            |k: int, c2: Chunk| c2->Plain_0,
                        )) by {
                            let m0 = orig_c.subrange(0, i).map(|k: int, c2: Chunk| c2->Plain_0);
                            let m1 = orig_c.subrange(0, i + 1).map(
                                |k: int, c2: Chunk| c2->Plain_0,
                            );
                            assert forall|k: int| 0 <= k < out@.len() implies out@[k] == m1[k] by {
                                assert(orig_c.subrange(0, i + 1)[k] == orig_c[k]);
                                if k < i {
                                    assert(out@[k] == m0[k]);
                                    assert(orig_c.subrange(0, i)[k] == orig_c[k]);
                                }
                            }
                        }
                    }
                    i = i + 1;
                }
            },
            Chunk::Annot { name: _, data, handler, block } => {
                let ghost job = (data@, texts_of(kinds_of(block@)));
                proof {
                    assert(!(orig_c[i] is Plain));
                    assert(plain_one(orig_c[i]) =~= Seq::<TokenPair>::empty());
                    assert(job_one(orig_c[i]) =~= seq![job]);
                }
                let ghost quizzes0 = d.quizzes@;
                let mut reps = match run_handler(handler, &block, &data, d) {
                    Ok(v) => v,
                    Err(e) => {
                        proof {
                            // The failing job stands in the chunks' work,
                            // so acceptance fails as a whole.
                            assert(chunk_jobs(orig_c) =~= jobs_done + (seq![job] + chunk_jobs(
                                orig_c.subrange(i + 1, orig_c.len() as int),
                            )));
                            assert(chunk_jobs(orig_c)[jobs_done.len() as int] == job);
                            assert(!quiz_ok(job.1));
                        }
                        return Err(e);
                    },
                };
                let ghost out0 = out@;
                out.append(&mut reps);
                proof {
                    assert(out@ =~= out0);
                    assert(out0 + (Seq::<TokenPair>::empty() + plain_events(
                        orig_c.subrange(i + 1, orig_c.len() as int),
                    )) =~= out@ + plain_events(orig_c.subrange(i + 1, orig_c.len() as int)));
                    assert(jobs_done + (seq![job] + chunk_jobs(
                        orig_c.subrange(i + 1, orig_c.len() as int),
                    )) =~= jobs_done.push(job) + chunk_jobs(
                        orig_c.subrange(i + 1, orig_c.len() as int),
                    ));
                    assert(d.quizzes@ == quizzes0.push(
                        d.quizzes@[quizzes0.len() as int],
                    )) by {
                        assert(d.quizzes@.len() == quizzes0.len() + 1);
                        assert(d.quizzes@ =~= quizzes0.push(d.quizzes@[quizzes0.len() as int]));
                    }
                    jobs_done = jobs_done.push(job);
                    i = i + 1;
                }
            },
        }
    }
    proof {
        assert(orig_c.subrange(i, orig_c.len() as int).len() == 0);
        assert(plain_events(orig_c.subrange(i, orig_c.len() as int)) =~= Seq::<
            TokenPair,
        >::empty());
        assert(chunk_jobs(orig_c.subrange(i, orig_c.len() as int)) =~= Seq::<
            (Seq<char>, Seq<char>),
        >::empty());
        assert(out@ + Seq::<TokenPair>::empty() =~= out@);
        assert(jobs_done + Seq::<(Seq<char>, Seq<char>)>::empty() =~= jobs_done);
        assert(jobs_done == chunk_jobs(orig_c));
        if forall|k: int| 0 <= k < orig_c.len() ==> orig_c[k] is Plain {
            assert(orig_c.subrange(0, orig_c.len() as int) =~= orig_c);
        }
    }
    Ok(out)
}

/// The annotation injector.
///
/// Scans the event stream for annotation paragraphs, validates each
/// against the registry and the block that follows it, consumes that
/// block, and runs the tag's handler; every other event passes through
/// untouched, in order.
///
/// The contract carries the injector's laws. A stream with no annotation
/// paragraph comes back identical, with the side data untouched (so a
/// paragraph not beginning with `@` is never altered). When the scan
/// succeeds, injection succeeds exactly when every annotation's block
/// text is an acceptable quiz definition; the output is then exactly
/// `spec_inject` — the plain events in order, the consumed annotations
/// and blocks gone, nothing else — and the side data is extended by
/// exactly one entry per annotation, keyed by its data string, holding
/// exactly the quiz its block describes. The error variant is
/// `InvalidAnnotationSyntax`, `UnknownAnnotationTag` or
/// `AnnotationBlockMismatch` precisely when `spec_scan` says so; an
/// `UnknownAnnotationTag` error names the unregistered tag, and a
/// block-mismatch error names the expected shape and the found one.
pub fn inject(input: Vec<TokenPair>, reg: &Registry, d: &mut InjectData) -> (r: Result<
    Vec<TokenPair>,
    CompileError,
>)
    ensures
        old(d).quizzes@.is_prefix_of(final(d).quizzes@),
        no_annot(kinds_of(input@)) ==> r is Ok && r->Ok_0@ == input@ && *final(d) == *old(d),
        r is Ok <==> inject_ok(kinds_of(input@), reg.entries@),
        match spec_scan(kinds_of(input@), reg.entries@, 0) {
            Ok(cs) => {
                &&& (r matches Ok(out) ==> out@ == spec_inject(input@, reg.entries@, 0))
                &&& (r is Ok ==> final(d).quizzes@.len() == old(d).quizzes@.len() + quiz_jobs(
                    cs,
                ).len() && (forall|j: int|
                    0 <= j < quiz_jobs(cs).len() ==> ((#[trigger] final(d).quizzes@[old(d).quizzes@.len() + j]).0@ == quiz_jobs(cs)[j].0 && quiz_matches(
                        quiz_jobs(cs)[j].1,
                        final(d).quizzes@[old(d).quizzes@.len() + j].1,
                    ))))
                &&& (r is Err ==> r->Err_0 is ConfigDeserializationError)
            },
            Err(ScanErr::InvalidSyntax) => r is Err && r->Err_0 is InvalidAnnotationSyntax
                && *final(d) == *old(d),
            Err(ScanErr::UnknownTag(n)) => r is Err && r->Err_0 is UnknownAnnotationTag && (r->Err_0->UnknownAnnotationTag_0)@
                == n && *final(d) == *old(d),
            Err(ScanErr::BlockMismatch { expected, actual }) => r is Err
                && r->Err_0 is AnnotationBlockMismatch && (r->Err_0->AnnotationBlockMismatch_0)@
                == mismatch_note(expected, actual) && *final(d) == *old(d),
            Err(ScanErr::Truncated) => r is Err && r->Err_0 is AnnotationBlockMismatch && *final(d)
                == *old(d),
        },
{
    let ghost orig_pairs = input@;
    let ghost kinds = kinds_of(orig_pairs);
    let chunks = match scan(input, reg) {
        Ok(c) => c,
        Err(e) => {
            return Err(e);
        },
    };
    proof {
        if no_annot(kinds) {
            assert(chunks@ == plain_chunks_of(orig_pairs));
            assert forall|k: int| 0 <= k < chunks@.len() implies chunks@[k] is Plain by {
                assert(chunks@[k] == Chunk::Plain(orig_pairs[k]));
            }
        }
    }
    let r = apply_chunks(chunks, d);
    proof {
        if no_annot(kinds) {
            assert(chunks@.map(|k: int, c: Chunk| c->Plain_0) =~= orig_pairs) by {
                assert forall|k: int| 0 <= k < chunks@.len() implies chunks@.map(
                    |k2: int, c: Chunk| c->Plain_0,
                )[k] == orig_pairs[k] by {
                    assert(chunks@[k] == Chunk::Plain(orig_pairs[k]));
                }
            }
        }
    }
    r
}

} // verus!
