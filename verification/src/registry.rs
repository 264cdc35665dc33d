//! The tag handler registry.
//!
//! An immutable mapping from annotation names to the block shape each tag
//! expects and the handler that consumes it. Built once before any parse
//! begins and never mutated during a compilation pass, so no process-wide
//! mutable state is needed.

use vstd::prelude::*;

use crate::text::str_eq;
use crate::tokens::BlockTag;

verus! {

/// The block shape an annotation tag expects to find right after itself.
#[derive(Debug, Clone)]
pub enum ExpectedTag {
    /// A fenced code block; `Some(lang)` demands that exact language string,
    /// `None` accepts any fenced code block.
    CodeBlock(Option<String>),
    /// A block quote.
    Quote,
}

impl ExpectedTag {
    /// Whether a block-start tag has this expected shape.
    pub open spec fn spec_matches(&self, tag: BlockTag) -> bool {
        match self {
            ExpectedTag::CodeBlock(Some(lang)) => tag matches BlockTag::FencedCode(l) && l@
                == lang@,
            ExpectedTag::CodeBlock(None) => tag is FencedCode,
            ExpectedTag::Quote => tag is Quote,
        }
    }

    /// Checks a block-start tag against this expected shape.
    pub fn matches(&self, tag: &BlockTag) -> (r: bool)
        ensures
            r == self.spec_matches(*tag),
    {
        match self {
            ExpectedTag::CodeBlock(Some(lang)) => match tag {
                BlockTag::FencedCode(l) => str_eq(l.as_str(), lang.as_str()),
                _ => false,
            },
            ExpectedTag::CodeBlock(None) => match tag {
                BlockTag::FencedCode(_) => true,
                _ => false,
            },
            ExpectedTag::Quote => match tag {
                BlockTag::Quote => true,
                _ => false,
            },
        }
    }

    /// What `describe` says of each shape.
    pub open spec fn spec_describe(e: ExpectedTag) -> Seq<char> {
        match e {
            ExpectedTag::CodeBlock(Some(_)) => "a fenced code block with the expected language"@,
            ExpectedTag::CodeBlock(None) => "a fenced code block"@,
            ExpectedTag::Quote => "a block quote"@,
        }
    }

    /// A short description of the shape, for error messages.
    pub fn describe(&self) -> (r: &'static str)
        ensures
            r@ == ExpectedTag::spec_describe(*self),
    {
        match self {
            ExpectedTag::CodeBlock(Some(_)) => "a fenced code block with the expected language",
            ExpectedTag::CodeBlock(None) => "a fenced code block",
            ExpectedTag::Quote => "a block quote",
        }
    }
}

/// The handler bound to an annotation name. Handlers are a closed set of
/// library capabilities, dispatched by this tag.
#[derive(Debug, Clone, Copy, PartialEq, Eq, Structural)]
pub enum HandlerKind {
    /// Parses the consumed code block as a quiz definition and records it in
    /// the content index under the current article id; replaces the block
    /// with nothing.
    Quiz,
}

/// One registry entry: an annotation name, the block shape it expects, and
/// the handler to run.
#[derive(Debug, Clone)]
pub struct RegistryEntry {
    /// The annotation name, without the leading `@`.
    pub name: String,
    /// The shape of the block that must follow the annotation.
    pub expected: ExpectedTag,
    /// The handler that consumes the block.
    pub handler: HandlerKind,
}

/// The first entry whose name matches, if any.
pub open spec fn spec_lookup(entries: Seq<RegistryEntry>, name: Seq<char>) -> Option<RegistryEntry>
    decreases entries.len(),
{
    if entries.len() == 0 {
        None
    } else if entries[0].name@ == name {
        Some(entries[0])
    } else {
        spec_lookup(entries.drop_first(), name)
    }
}

/// The tag handler registry: an immutable name-to-entry mapping.
#[derive(Debug, Clone)]
pub struct Registry {
    /// The entries, searched in order; the first name match wins.
    pub entries: Vec<RegistryEntry>,
}

impl Registry {
    /// An empty registry.
    pub fn new() -> (r: Registry)
        ensures
            r.entries@.len() == 0,
    {
        Registry { entries: Vec::new() }
    }

    /// Adds an entry. Registration happens once, at startup, before any
    /// parse begins.
    pub fn register(&mut self, name: String, expected: ExpectedTag, handler: HandlerKind)
        ensures
            final(self).entries@ == old(self).entries@.push(
                RegistryEntry { name, expected, handler },
            ),
    {
        self.entries.push(RegistryEntry { name, expected, handler });
    }

    /// Finds the entry registered under `name`, if any.
    pub fn lookup(&self, name: &str) -> (r: Option<&RegistryEntry>)
        ensures
            match r {
                Some(e) => spec_lookup(self.entries@, name@) == Some(*e),
                None => spec_lookup(self.entries@, name@) is None,
            },
    {
        let n = self.entries.len();
        proof {
            assert(self.entries@.subrange(0, n as int) =~= self.entries@);
        }
        let mut i: usize = 0;
        while i < n
            invariant
                i <= n,
                n == self.entries@.len(),
                spec_lookup(self.entries@, name@) == spec_lookup(
                    self.entries@.subrange(i as int, n as int),
                    name@,
                ),
            decreases n - i,
        {
            proof {
                assert(self.entries@.subrange(i as int, n as int)[0] == self.entries@[i as int]);
            }
            if str_eq(self.entries[i].name.as_str(), name) {
                return Some(&self.entries[i]);
            }
            proof {
                assert(self.entries@.subrange(i as int, n as int).drop_first() =~= self
                    .entries@.subrange(i as int + 1, n as int));
            }
            i = i + 1;
        }
        None
    }
}

/// The registry the compiler starts with: the `quiz` tag, expecting a
/// fenced code block tagged `toml`, handled by the quiz handler.
pub fn standard_registry() -> (r: Registry)
    ensures
        r.entries@.len() == 1,
        r.entries@[0].name@ == "quiz"@,
        r.entries@[0].expected matches ExpectedTag::CodeBlock(Some(l)) && l@ == "toml"@,
        r.entries@[0].handler == HandlerKind::Quiz,
{
    let mut reg = Registry::new();
    reg.register(
        String::from_str("quiz"),
        ExpectedTag::CodeBlock(Some(String::from_str("toml"))),
        HandlerKind::Quiz,
    );
    reg
}

} // verus!
