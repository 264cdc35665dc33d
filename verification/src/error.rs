//! The error taxonomy of the content compiler.
//!
//! Every fallible operation in the library returns a typed error; nothing
//! panics. Item-level errors carry the offending id, path or name as context.

use vstd::prelude::*;

verus! {

/// One error of the compilation pipeline. The `String` payload names the
/// offending entry, id, tag or shape, so that a report can show it.
#[derive(Debug, Clone)]
pub enum CompileError {
    /// A required directory entry is missing, or an unexpected one is present.
    SchemaViolation(String),
    /// A content file has no frontmatter header, or the header never closes.
    FrontmatterFormatError(String),
    /// A structured header, quiz or exercise configuration does not parse.
    ConfigDeserializationError(String),
    /// An annotation tag or its data contains whitespace.
    InvalidAnnotationSyntax(String),
    /// An annotation names a tag with no registered handler.
    UnknownAnnotationTag(String),
    /// The block following an annotation has the wrong shape.
    AnnotationBlockMismatch(String),
    /// A source file extension maps to no supported language.
    UnsupportedLanguage(String),
    /// A declared function signature has an unknown input or output type.
    InvalidSignature(String),
    /// A requested id contains characters outside `[A-Za-z0-9_-]`.
    IdValidationError(String),
    /// A value that should be on disk is not in the index.
    IoError(String),
}

impl CompileError {
    /// What `label` says of each variant.
    pub open spec fn spec_label(e: &CompileError) -> Seq<char> {
        match e {
            CompileError::SchemaViolation(_) => "schema violation"@,
            CompileError::FrontmatterFormatError(_) => "frontmatter format error"@,
            CompileError::ConfigDeserializationError(_) => "config deserialization error"@,
            CompileError::InvalidAnnotationSyntax(_) => "invalid annotation syntax"@,
            CompileError::UnknownAnnotationTag(_) => "unknown annotation tag"@,
            CompileError::AnnotationBlockMismatch(_) => "annotation block mismatch"@,
            CompileError::UnsupportedLanguage(_) => "unsupported language"@,
            CompileError::InvalidSignature(_) => "invalid signature"@,
            CompileError::IdValidationError(_) => "id validation error"@,
            CompileError::IoError(_) => "io error"@,
        }
    }

    /// A short label naming the error's variant, for reports.
    pub fn label(&self) -> (r: &'static str)
        ensures
            r@ == CompileError::spec_label(self),
    {
        match self {
            CompileError::SchemaViolation(_) => "schema violation",
            CompileError::FrontmatterFormatError(_) => "frontmatter format error",
            CompileError::ConfigDeserializationError(_) => "config deserialization error",
            CompileError::InvalidAnnotationSyntax(_) => "invalid annotation syntax",
            CompileError::UnknownAnnotationTag(_) => "unknown annotation tag",
            CompileError::AnnotationBlockMismatch(_) => "annotation block mismatch",
            CompileError::UnsupportedLanguage(_) => "unsupported language",
            CompileError::InvalidSignature(_) => "invalid signature",
            CompileError::IdValidationError(_) => "id validation error",
            CompileError::IoError(_) => "io error",
        }
    }

    /// The context string carried by the error.
    pub fn context(&self) -> (r: &String)
        ensures
            r == self.spec_context(),
    {
        match self {
            CompileError::SchemaViolation(s) => s,
            CompileError::FrontmatterFormatError(s) => s,
            CompileError::ConfigDeserializationError(s) => s,
            CompileError::InvalidAnnotationSyntax(s) => s,
            CompileError::UnknownAnnotationTag(s) => s,
            CompileError::AnnotationBlockMismatch(s) => s,
            CompileError::UnsupportedLanguage(s) => s,
            CompileError::InvalidSignature(s) => s,
            CompileError::IdValidationError(s) => s,
            CompileError::IoError(s) => s,
        }
    }

    /// The context string, as a spec-level value.
    pub open spec fn spec_context(&self) -> String {
        match self {
            CompileError::SchemaViolation(s) => *s,
            CompileError::FrontmatterFormatError(s) => *s,
            CompileError::ConfigDeserializationError(s) => *s,
            CompileError::InvalidAnnotationSyntax(s) => *s,
            CompileError::UnknownAnnotationTag(s) => *s,
            CompileError::AnnotationBlockMismatch(s) => *s,
            CompileError::UnsupportedLanguage(s) => *s,
            CompileError::InvalidSignature(s) => *s,
            CompileError::IdValidationError(s) => *s,
            CompileError::IoError(s) => *s,
        }
    }
}

} // verus!
