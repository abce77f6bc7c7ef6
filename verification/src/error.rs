use vstd::prelude::*;

verus! {

/// Every way a generation run can fail.  Each failure is fatal for the run:
/// nothing is retried and nothing is downgraded to a warning.
#[derive(Clone, Copy, Debug, PartialEq, Eq, Structural)]
pub enum BlogError {
    /// A content item's identifier does not split into the four
    /// `-`-delimited tokens year, month, day and slug, with zero-padded
    /// date tokens.
    MalformedIdentifier,
    /// A content item does not start with `---` followed by a newline, or
    /// has no closing `---` after the opening delimiter.
    MissingFrontMatterDelimiter,
    /// A content item ends before the body can start, that is before the
    /// two newlines that follow the closing delimiter.
    TruncatedBody,
    /// The front-matter block is not a decodable mapping from strings to
    /// strings, or lacks the required `title` or `author` field.
    InvalidMetadata,
    /// A template source was rejected by the template engine at
    /// registration time.
    InvalidTemplate,
    /// Rendering named a template that is not registered.
    TemplateNotFound,
    /// A template referenced a context variable the supplied data does not
    /// hold; strict rendering makes this fatal instead of substituting an
    /// empty string.
    UndefinedTemplateVariable,
    /// The template engine failed for a reason beyond the two above.
    RenderFailed,
}

impl BlogError {
    /// The wording of each failure, for callers that report errors.
    pub open spec fn spec_message(self) -> Seq<char> {
        match self {
            BlogError::MalformedIdentifier => "malformed content item identifier"@,
            BlogError::MissingFrontMatterDelimiter => "missing front matter delimiter"@,
            BlogError::TruncatedBody => "content ends before the body starts"@,
            BlogError::InvalidMetadata => "invalid front matter metadata"@,
            BlogError::InvalidTemplate => "template was rejected at registration"@,
            BlogError::TemplateNotFound => "no template registered under that name"@,
            BlogError::UndefinedTemplateVariable => "template referenced an undefined variable"@,
            BlogError::RenderFailed => "template rendering failed"@,
        }
    }

    pub fn message(&self) -> (r: &'static str)
        ensures
            r@ == self.spec_message(),
    {
        match self {
            BlogError::MalformedIdentifier => "malformed content item identifier",
            BlogError::MissingFrontMatterDelimiter => "missing front matter delimiter",
            BlogError::TruncatedBody => "content ends before the body starts",
            BlogError::InvalidMetadata => "invalid front matter metadata",
            BlogError::InvalidTemplate => "template was rejected at registration",
            BlogError::TemplateNotFound => "no template registered under that name",
            BlogError::UndefinedTemplateVariable => "template referenced an undefined variable",
            BlogError::RenderFailed => "template rendering failed",
        }
    }
}

/// A load-stage failure together with the name of the offending item: the
/// identifier of the content entry, or the name of the template, that made
/// the run abort.
#[derive(Debug)]
pub struct LoadError {
    pub item: String,
    pub kind: BlogError,
}

} // verus!
