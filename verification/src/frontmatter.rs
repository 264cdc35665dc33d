//! The frontmatter splitter.
//!
//! A content file begins (after blank lines) with a line that is exactly
//! `---`, then a header block, then a line that is exactly `---`, then the
//! body. `split_frontmatter` separates header and body;
//! `lemma_frontmatter_round_trip` states that splitting a reassembled
//! document yields the same header and body back.

use vstd::prelude::*;

use crate::error::CompileError;
use crate::is_ws_char;
use crate::text::all_ws;
use crate::text::find_char;
use crate::text::substr;

verus! {

/// The index of the first `'\n'` at or after `i`, or the length of `s`.
pub open spec fn line_end(s: Seq<char>, i: int) -> int
    decreases s.len() - i when 0 <= i <= s.len()
{
    if i >= s.len() {
        i
    } else if s[i] == '\n' {
        i
    } else {
        line_end(s, i + 1)
    }
}

/// `line_end` stays within `[i, s.len()]`, passes no `'\n'`, and stops on one.
pub proof fn lemma_line_end_props(s: Seq<char>, i: int)
    requires
        0 <= i <= s.len(),
    ensures
        i <= line_end(s, i) <= s.len(),
        forall|k: int| i <= k < line_end(s, i) ==> s[k] != '\n',
        line_end(s, i) < s.len() ==> s[line_end(s, i)] == '\n',
    decreases s.len() - i,
{
    if i < s.len() && s[i] != '\n' {
        lemma_line_end_props(s, i + 1);
    }
}

/// `line_end` is the unique `'\n'`-free stretch boundary.
pub proof fn lemma_line_end_unique(s: Seq<char>, i: int, j: int)
    requires
        0 <= i <= j <= s.len(),
        forall|k: int| i <= k < j ==> s[k] != '\n',
        j == s.len() || s[j] == '\n',
    ensures
        line_end(s, i) == j,
    decreases j - i,
{
    if i < j {
        lemma_line_end_unique(s, i + 1, j);
    }
}

/// The start of the line after the one holding position `i`.
pub open spec fn next_line(s: Seq<char>, i: int) -> int {
    if line_end(s, i) < s.len() {
        line_end(s, i) + 1
    } else {
        s.len() as int
    }
}

/// The characters of the line holding position `i`, without its `'\n'`.
pub open spec fn line_at(s: Seq<char>, i: int) -> Seq<char> {
    s.subrange(i, line_end(s, i))
}

/// A line of nothing but whitespace.
pub open spec fn is_blank(l: Seq<char>) -> bool {
    forall|k: int| 0 <= k < l.len() ==> is_ws_char(l[k])
}

/// A line that is exactly the three characters `---`.
pub open spec fn is_marker(l: Seq<char>) -> bool {
    l.len() == 3 && l[0] == '-' && l[1] == '-' && l[2] == '-'
}

/// The start of the first non-blank line at or after `i`, or the length of
/// `s` when every remaining line is blank.
pub open spec fn first_content(s: Seq<char>, i: int) -> int
    decreases s.len() - i when 0 <= i <= s.len() via first_content_dec
{
    if i >= s.len() {
        i
    } else if is_blank(line_at(s, i)) {
        first_content(s, next_line(s, i))
    } else {
        i
    }
}

#[via_fn]
proof fn first_content_dec(s: Seq<char>, i: int) {
    if 0 <= i <= s.len() {
        lemma_line_end_props(s, i);
    }
}

/// The start of the first `---` line at or after `i`, if any.
pub open spec fn close_at(s: Seq<char>, i: int) -> Option<int>
    decreases s.len() - i when 0 <= i <= s.len() via close_at_dec
{
    if i >= s.len() {
        None
    } else if is_marker(line_at(s, i)) {
        Some(i)
    } else {
        close_at(s, next_line(s, i))
    }
}

#[via_fn]
proof fn close_at_dec(s: Seq<char>, i: int) {
    if 0 <= i <= s.len() {
        lemma_line_end_props(s, i);
    }
}

/// What splitting a document yields: the header block (every line between
/// the two marker lines, each with its `'\n'`) and the body (everything
/// after the closing marker line), or nothing when the opening marker is
/// missing or the header never closes.
pub open spec fn spec_split(s: Seq<char>) -> Option<(Seq<char>, Seq<char>)> {
    let a = first_content(s, 0);
    if a >= s.len() || !is_marker(line_at(s, a)) {
        None
    } else {
        let h0 = next_line(s, a);
        match close_at(s, h0) {
            None => None,
            Some(k) => Some(
                (s.subrange(h0, k), s.subrange(next_line(s, k), s.len() as int)),
            ),
        }
    }
}

/// Computes `line_end` executably.
fn line_end_exec(s: &str, i: usize) -> (e: usize)
    requires
        i <= s@.len(),
    ensures
        e == line_end(s@, i as int),
        i <= e <= s@.len(),
{
    let n = s.unicode_len();
    match find_char(s, '\n', i) {
        Some(e) => {
            proof {
                lemma_line_end_unique(s@, i as int, e as int);
            }
            e
        },
        None => {
            proof {
                lemma_line_end_unique(s@, i as int, s@.len() as int);
            }
            n
        },
    }
}

/// Whether the line starting at `i` is exactly `---`.
fn is_marker_exec(s: &str, i: usize, e: usize) -> (r: bool)
    requires
        i <= e <= s@.len(),
        e == line_end(s@, i as int),
    ensures
        r == is_marker(line_at(s@, i as int)),
{
    if e - i != 3 {
        return false;
    }
    let r = s.get_char(i) == '-' && s.get_char(i + 1) == '-' && s.get_char(i + 2) == '-';
    proof {
        assert(line_at(s@, i as int).len() == 3);
        assert(line_at(s@, i as int)[0] == s@[i as int]);
        assert(line_at(s@, i as int)[1] == s@[i as int + 1]);
        assert(line_at(s@, i as int)[2] == s@[i as int + 2]);
    }
    r
}

/// Splits a content file into its frontmatter header and its body.
///
/// The file must begin, after any blank lines, with a line that is exactly
/// `---`; the header runs to the next `---` line; the rest is the body.
/// A missing or unterminated header is a `FrontmatterFormatError`.
pub fn split_frontmatter(contents: &str) -> (r: Result<(String, String), CompileError>)
    ensures
        r is Ok <==> spec_split(contents@) is Some,
        r is Ok ==> spec_split(contents@) == Some(
            ((r->Ok_0.0)@, (r->Ok_0.1)@),
        ),
        r is Err ==> r->Err_0 is FrontmatterFormatError,
{
    let n = contents.unicode_len();
    // Skip blank lines to the first content line.
    let mut a: usize = 0;
    loop
        invariant
            a <= n,
            n == contents@.len(),
            first_content(contents@, 0) == first_content(contents@, a as int),
        ensures
            a <= n,
            n == contents@.len(),
            a as int == first_content(contents@, 0),
        decreases n - a,
    {
        if a >= n {
            break;
        }
        let e = line_end_exec(contents, a);
        if all_ws(contents, a, e) {
            proof {
                assert forall|k: int| 0 <= k < line_at(contents@, a as int).len() implies is_ws_char(
                    line_at(contents@, a as int)[k],
                ) by {
                    assert(line_at(contents@, a as int)[k] == contents@[a + k]);
                }
                assert(is_blank(line_at(contents@, a as int)));
            }
            a = if e < n {
                e + 1
            } else {
                n
            };
        } else {
            proof {
                assert(!is_blank(line_at(contents@, a as int))) by {
                    let bad = choose|k: int|
                        a <= k < line_end(contents@, a as int) && !is_ws_char(contents@[k]);
                    assert(line_at(contents@, a as int)[bad - a] == contents@[bad]);
                }
            }
            break;
        }
    }
    if a >= n {
        return Err(
            CompileError::FrontmatterFormatError(
                String::from_str("no frontmatter header: expected a `---` line"),
            ),
        );
    }
    let ae = line_end_exec(contents, a);
    if !is_marker_exec(contents, a, ae) {
        return Err(
            CompileError::FrontmatterFormatError(
                String::from_str("no frontmatter header: expected a `---` line"),
            ),
        );
    }
    let h0: usize = if ae < n {
        ae + 1
    } else {
        n
    };
    // Find the closing marker line.
    let mut k: usize = h0;
    loop
        invariant
            h0 <= k <= n,
            n == contents@.len(),
            a < n,
            a as int == first_content(contents@, 0),
            is_marker(line_at(contents@, a as int)),
            h0 == next_line(contents@, a as int),
            close_at(contents@, h0 as int) == close_at(contents@, k as int),
        ensures
            k < n,
            n == contents@.len(),
            close_at(contents@, h0 as int) == Some(k as int),
        decreases n - k,
    {
        if k >= n {
            return Err(
                CompileError::FrontmatterFormatError(
                    String::from_str("unterminated frontmatter header: no closing `---` line"),
                ),
            );
        }
        let e = line_end_exec(contents, k);
        if is_marker_exec(contents, k, e) {
            break;
        }
        k = if e < n {
            e + 1
        } else {
            n
        };
    }
    let ke = line_end_exec(contents, k);
    let b0: usize = if ke < n {
        ke + 1
    } else {
        n
    };
    let header = substr(contents, h0, k);
    let body = substr(contents, b0, n);
    Ok((header, body))
}

/// The four characters of a marker line, `---` and a newline.
pub open spec fn marker_line() -> Seq<char> {
    seq!['-', '-', '-', '\n']
}

/// Joins a header block and a body back into one document: a `---` line,
/// the header, a `---` line, the body.
pub fn reassemble(header: &str, body: &str) -> (r: String)
    ensures
        r@ == marker_line() + header@ + marker_line() + body@,
{
    proof {
        reveal_strlit("---\n");
        assert(("---\n")@ =~= marker_line());
    }
    let mut out = String::from_str("---\n");
    out.append(header);
    out.append("---\n");
    out.append(body);
    out
}

/// A well-formed header block: a sequence of `'\n'`-terminated lines, none
/// of which is a `---` line. This is exactly what `split_frontmatter`
/// produces as the header.
pub open spec fn header_wf(h: Seq<char>) -> bool
    decreases h.len() via header_wf_dec
{
    h.len() == 0 || {
        let e = line_end(h, 0);
        &&& e < h.len()
        &&& !is_marker(h.subrange(0, e))
        &&& header_wf(h.subrange(e + 1, h.len() as int))
    }
}

#[via_fn]
proof fn header_wf_dec(h: Seq<char>) {
    if h.len() > 0 {
        lemma_line_end_props(h, 0);
    }
}

/// The first content line lies between the scan start and the end.
proof fn lemma_first_content_props(s: Seq<char>, i: int)
    requires
        0 <= i <= s.len(),
    ensures
        i <= first_content(s, i) <= s.len(),
    decreases s.len() - i,
{
    if i < s.len() && is_blank(line_at(s, i)) {
        lemma_line_end_props(s, i);
        lemma_first_content_props(s, next_line(s, i));
    }
}

/// A found closing marker lies on a marker line at or after the scan start.
proof fn lemma_close_at_props(s: Seq<char>, i: int)
    requires
        0 <= i <= s.len(),
    ensures
        close_at(s, i) matches Some(k) ==> i <= k < s.len() && is_marker(line_at(s, k)),
    decreases s.len() - i,
{
    if i < s.len() && !is_marker(line_at(s, i)) {
        lemma_line_end_props(s, i);
        lemma_close_at_props(s, next_line(s, i));
    }
}

/// The block between a scan start and the closing marker it finds is a
/// well-formed header: newline-terminated lines, none of them a marker.
proof fn lemma_close_header_wf(s: Seq<char>, i: int, k: int)
    requires
        0 <= i <= s.len(),
        close_at(s, i) == Some(k),
    ensures
        header_wf(s.subrange(i, k)),
    decreases s.len() - i,
{
    lemma_close_at_props(s, i);
    if is_marker(line_at(s, i)) {
        assert(k == i);
        assert(s.subrange(i, k).len() == 0);
    } else {
        lemma_line_end_props(s, i);
        let e = line_end(s, i);
        assert(close_at(s, next_line(s, i)) == Some(k));
        lemma_close_at_props(s, next_line(s, i));
        assert(e < s.len()) by {
            if e == s.len() {
                assert(next_line(s, i) == s.len());
                assert(close_at(s, s.len() as int) is None);
            }
        }
        assert(next_line(s, i) == e + 1);
        assert(e + 1 <= k);
        let h = s.subrange(i, k);
        assert forall|k2: int| 0 <= k2 < h.len() implies h[k2] == s[i + k2] by {
            assert(s.subrange(i, k)[k2] == s[i + k2]);
        }
        lemma_line_end_unique(h, 0, e - i);
        assert(line_end(h, 0) == e - i);
        assert(e - i < h.len());
        assert(h.subrange(0, e - i) =~= line_at(s, i));
        assert(!is_marker(h.subrange(0, e - i)));
        lemma_close_header_wf(s, e + 1, k);
        assert(h.subrange(e - i + 1, h.len() as int) =~= s.subrange(e + 1, k));
        assert(header_wf(h));
    }
}

/// Law: whatever a document splits into reassembles to a document that
/// splits the same way — the header block and body, and with them every
/// header field value, survive the round trip.
pub proof fn lemma_split_then_reassemble(s: Seq<char>, h: Seq<char>, b: Seq<char>)
    requires
        spec_split(s) == Some((h, b)),
    ensures
        spec_split(marker_line() + h + marker_line() + b) == Some((h, b)),
{
    lemma_first_content_props(s, 0);
    let a = first_content(s, 0);
    let h0 = next_line(s, a);
    lemma_line_end_props(s, a);
    let k = close_at(s, h0)->Some_0;
    lemma_close_header_wf(s, h0, k);
    lemma_frontmatter_round_trip(h, b);
}

/// Scanning for a closing marker steps over a well-formed header block and
/// stops exactly on the marker line that follows it.
proof fn lemma_close_past_header(s: Seq<char>, p: int, h: Seq<char>)
    requires
        0 <= p,
        p + h.len() <= s.len(),
        s.subrange(p, p + h.len()) == h,
        header_wf(h),
        is_marker(line_at(s, p + h.len())),
    ensures
        close_at(s, p) == Some(p + h.len()),
    decreases h.len(),
{
    if h.len() == 0 {
        assert(close_at(s, p) == Some(p));
    } else {
        lemma_line_end_props(h, 0);
        let e = line_end(h, 0);
        assert forall|k2: int| p <= k2 < p + e implies s[k2] != '\n' by {
            assert(s[k2] == s.subrange(p, p + h.len())[k2 - p]);
            assert(h[k2 - p] != '\n');
        }
        assert(s[p + e] == s.subrange(p, p + h.len())[e]);
        assert(s[p + e] == '\n');
        lemma_line_end_unique(s, p, p + e);
        assert(line_at(s, p) =~= h.subrange(0, e)) by {
            assert forall|k: int| 0 <= k < e implies line_at(s, p)[k] == h.subrange(0, e)[k] by {
                assert(line_at(s, p)[k] == s[p + k]);
                assert(s[p + k] == s.subrange(p, p + h.len())[k]);
            }
        }
        assert(!is_marker(line_at(s, p)));
        assert(p < s.len());
        let h2 = h.subrange(e + 1, h.len() as int);
        assert(header_wf(h2));
        assert(s.subrange(p + e + 1, p + e + 1 + h2.len()) =~= h2) by {
            assert forall|k: int| 0 <= k < h2.len() implies s.subrange(
                p + e + 1,
                p + e + 1 + h2.len(),
            )[k] == h2[k] by {
                assert(s.subrange(p + e + 1, p + e + 1 + h2.len())[k] == s[p + e + 1 + k]);
                assert(s[p + e + 1 + k] == s.subrange(p, p + h.len())[e + 1 + k]);
                assert(h2[k] == h[e + 1 + k]);
            }
        }
        assert(p + e + 1 + h2.len() == p + h.len());
        assert(is_marker(line_at(s, p + e + 1 + h2.len())));
        lemma_close_past_header(s, p + e + 1, h2);
        assert(close_at(s, p + e + 1) == Some(p + h.len()));
        assert(next_line(s, p) == p + e + 1);
        assert(close_at(s, p) == close_at(s, p + e + 1));
    }
}

/// Law: for every well-formed header block and every body, splitting the
/// reassembled document yields exactly that header and that body back, so
/// the header's field values survive a split / reassemble round trip.
pub proof fn lemma_frontmatter_round_trip(h: Seq<char>, b: Seq<char>)
    requires
        header_wf(h),
    ensures
        spec_split(marker_line() + h + marker_line() + b) == Some((h, b)),
{
    let s = marker_line() + h + marker_line() + b;
    let hl = h.len() as int;
    assert(s.len() == 8 + hl + b.len());
    assert(s[0] == '-' && s[1] == '-' && s[2] == '-' && s[3] == '\n');
    lemma_line_end_unique(s, 0, 3);
    assert(line_at(s, 0) =~= seq!['-', '-', '-']);
    assert(is_marker(line_at(s, 0)));
    assert(!is_blank(line_at(s, 0))) by {
        assert(line_at(s, 0)[0] == '-');
        assert(!is_ws_char('-'));
    }
    assert(first_content(s, 0) == 0);
    assert(next_line(s, 0) == 4);
    // The closing marker line sits right after the header.
    assert(s[4 + hl] == '-' && s[4 + hl + 1] == '-' && s[4 + hl + 2] == '-' && s[4 + hl + 3]
        == '\n');
    lemma_line_end_unique(s, 4 + hl, 4 + hl + 3);
    assert(line_at(s, 4 + hl) =~= seq!['-', '-', '-']);
    assert(s.subrange(4, 4 + hl) =~= h);
    lemma_close_past_header(s, 4, h);
    assert(close_at(s, 4) == Some(4 + hl));
    assert(next_line(s, 4 + hl) == 4 + hl + 4);
    assert(s.subrange(4 + hl + 4, s.len() as int) =~= b);
    assert(spec_split(s) == Some((h, b)));
}

} // verus!
