//! Compiles a directory tree of course content (articles, exercises, quizzes,
//! courses) into a typed, queryable content index plus rendered output.
//!
//! The pipeline: a directory-schema-driven item resolver, a frontmatter/body
//! splitter, and a markdown-event injection mechanism that recognizes inline
//! `@tag;data` annotations in the token stream, validates the following block
//! shape, and dispatches to a tag-specific handler.

pub mod article;
pub mod config;
pub mod error;
pub mod exercise;
pub mod frontmatter;
pub mod inject;
pub mod kvmap;
pub mod quiz;
pub mod registry;
pub mod resolver;
pub mod runner;
pub mod state;
pub mod text;
pub mod tokens;
pub mod tomlval;
pub mod watch;

use vstd::prelude::*;

verus! {

/// The whitespace characters this library recognizes when it rejects
/// whitespace or skips blank lines: space, tab, carriage return, newline.
pub open spec fn is_ws_char(c: char) -> bool {
    c == ' ' || c == '\t' || c == '\r' || c == '\n'
}

/// Executable twin of `is_ws_char`.
pub fn ws_char(c: char) -> (r: bool)
    ensures
        r == is_ws_char(c),
{
    c == ' ' || c == '\t' || c == '\r' || c == '\n'
}

/// Command-line options of the content compiler.
#[derive(Debug, Clone)]
pub struct Args {
    /// Watch the input directory for changes.
    pub watch: bool,
    /// The input directory to parse files from.
    pub input: String,
    /// The output directory for rendered files.
    pub output: String,
    /// The directory holding static assets and templates.
    pub web: String,
}

impl Default for Args {
    /// The defaults: no watching; `courses` in, `rendered` out, assets
    /// under `web`.
    fn default() -> (r: Self)
        ensures
            !r.watch,
            r.input@ == "courses"@,
            r.output@ == "rendered"@,
            r.web@ == "web"@,
    {
        Args {
            watch: false,
            input: String::from_str("courses"),
            output: String::from_str("rendered"),
            web: String::from_str("web"),
        }
    }
}

} // verus!
