//! The markdown token model.
//!
//! The markdown tokenizer is an outside capability, consumed and not built:
//! each of its events is carried through opaquely, paired with a small
//! classification that is all the injection logic ever reads.

use vstd::prelude::*;

use pulldown_cmark::CodeBlockKind;
use pulldown_cmark::Event;
use pulldown_cmark::Tag;

verus! {

/// The tag of a block-start event, as far as the injector reads it.
#[derive(Debug, Clone)]
pub enum BlockTag {
    /// A paragraph.
    Paragraph,
    /// A fenced code block and its (possibly empty) language string.
    FencedCode(String),
    /// An indented code block.
    IndentedCode,
    /// A block quote.
    Quote,
    /// Any other block or inline container.
    Other,
}

/// The classification of one markdown event.
#[derive(Debug, Clone)]
pub enum Token {
    /// A container opens.
    Start(BlockTag),
    /// A container closes.
    End,
    /// A text node and its characters.
    Text(String),
    /// Any event that neither opens nor closes a container and is not text.
    Other,
}

/// What `shape_label` says of each block tag.
pub open spec fn spec_shape_label(t: BlockTag) -> Seq<char> {
    match t {
        BlockTag::Paragraph => "a paragraph"@,
        BlockTag::FencedCode(_) => "a fenced code block with another language"@,
        BlockTag::IndentedCode => "an indented code block"@,
        BlockTag::Quote => "a block quote"@,
        BlockTag::Other => "another kind of block"@,
    }
}

/// A short description of a block-start tag, for error messages.
pub fn shape_label(t: &BlockTag) -> (r: &'static str)
    ensures
        r@ == spec_shape_label(*t),
{
    match t {
        BlockTag::Paragraph => "a paragraph",
        BlockTag::FencedCode(_) => "a fenced code block with another language",
        BlockTag::IndentedCode => "an indented code block",
        BlockTag::Quote => "a block quote",
        BlockTag::Other => "another kind of block",
    }
}

#[verifier::external_type_specification]
#[verifier::external_body]
pub struct ExEvent<'a>(pulldown_cmark::Event<'a>);

/// One markdown event: the classification the injection logic reads, and
/// the tokenizer's own event, carried through opaquely so that untouched
/// events render exactly as the tokenizer produced them.
pub struct TokenPair {
    /// What the injector reads of the event.
    pub kind: Token,
    /// The tokenizer's event itself.
    pub raw: pulldown_cmark::Event<'static>,
}

/// The classifications of a sequence of events.
pub open spec fn kinds_of(pairs: Seq<TokenPair>) -> Seq<Token> {
    pairs.map(|i: int, p: TokenPair| p.kind)
}

/// The event sequence that tokenizing a markdown text yields, named: it is
/// a function of the text alone.
pub uninterp spec fn md_events(s: Seq<char>) -> Seq<Token>;

/// The paired events themselves, named likewise: classification and raw
/// event are both functions of the text alone.
pub uninterp spec fn md_event_pairs(s: Seq<char>) -> Seq<TokenPair>;

/// The HTML that rendering an event sequence yields, named: it is a
/// function of the events alone.
pub uninterp spec fn html_of(events: Seq<TokenPair>) -> Seq<char>;

/// Classifies one event of the tokenizer. Relies on the shape of
/// `pulldown_cmark::Event`: `Start`/`End` are the only events that open and
/// close containers, `Text` carries a text node's characters, and a line
/// break stands between the lines it separates (it reads as a newline, so
/// a handler sees its block's text line by line).
#[verifier::external_body]
fn classify(ev: &Event<'static>) -> Token {
    match ev {
        Event::Start(Tag::Paragraph) => Token::Start(BlockTag::Paragraph),
        Event::Start(Tag::CodeBlock(CodeBlockKind::Fenced(l))) => Token::Start(
            BlockTag::FencedCode(l.to_string()),
        ),
        Event::Start(Tag::CodeBlock(CodeBlockKind::Indented)) => Token::Start(
            BlockTag::IndentedCode,
        ),
        Event::Start(Tag::BlockQuote(_)) => Token::Start(BlockTag::Quote),
        Event::Start(_) => Token::Start(BlockTag::Other),
        Event::End(_) => Token::End,
        Event::Text(t) => Token::Text(t.to_string()),
        Event::SoftBreak | Event::HardBreak => Token::Text(String::from("\n")),
        _ => Token::Other,
    }
}

/// Tokenizes a markdown text. Relies on `pulldown_cmark::Parser::new`: the
/// event sequence is a function of the input text alone.
#[verifier::external_body]
pub fn tokenize(s: &str) -> (r: Vec<TokenPair>)
    ensures
        r@ == md_event_pairs(s@),
        kinds_of(r@) == md_events(s@),
{
    pulldown_cmark::Parser::new(s)
        .map(
            |ev: pulldown_cmark::Event<'_>| {
                let raw = ev.into_static();
                let kind = classify(&raw);
                TokenPair { kind, raw }
            },
        )
        .collect()
}

/// Renders an event sequence to HTML. Relies on
/// `pulldown_cmark::html::push_html`: the output is a function of the
/// events alone.
#[verifier::external_body]
pub fn render_html(events: Vec<TokenPair>) -> (r: String)
    ensures
        r@ == html_of(events@),
{
    let mut out = String::new();
    pulldown_cmark::html::push_html(&mut out, events.into_iter().map(|p: TokenPair| p.raw));
    out
}

} // verus!
