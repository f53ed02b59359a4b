//! The errors of a comparison run.

use vstd::prelude::*;
use vstd::string::StringExecFns;

verus! {

/// Why a comparison run failed.
#[derive(Debug, PartialEq, Eq)]
pub enum CompareError {
    /// A file could not be read or written; holds the cause.
    File(String),
    /// The comparison of two images failed; holds the cause.
    ImageDiff(String),
    /// The document report could not be rendered; holds the cause.
    TemplateRender(String),
    /// No relative path leads to a directory; holds the directory.
    PathResolution(String),
    /// Anything else.
    Unknown,
}

/// A `CompareError` with its texts as sequences of characters.
pub enum CompareErrorView {
    File(Seq<char>),
    ImageDiff(Seq<char>),
    TemplateRender(Seq<char>),
    PathResolution(Seq<char>),
    Unknown,
}

impl View for CompareError {
    type V = CompareErrorView;

    open spec fn view(&self) -> CompareErrorView {
        match self {
            CompareError::File(cause) => CompareErrorView::File(cause@),
            CompareError::ImageDiff(cause) => CompareErrorView::ImageDiff(cause@),
            CompareError::TemplateRender(cause) => CompareErrorView::TemplateRender(cause@),
            CompareError::PathResolution(dir) => CompareErrorView::PathResolution(dir@),
            CompareError::Unknown => CompareErrorView::Unknown,
        }
    }
}

/// The message of an error.
pub open spec fn spec_message(error: CompareErrorView) -> Seq<char> {
    match error {
        CompareErrorView::File(cause) => "file io error, "@ + cause,
        CompareErrorView::ImageDiff(cause) => "image diff error, "@ + cause,
        CompareErrorView::TemplateRender(cause) => "template render error, "@ + cause,
        CompareErrorView::PathResolution(dir) => "path resolution error, "@ + dir,
        CompareErrorView::Unknown => "unknown error"@,
    }
}

impl CompareError {
    /// The message of the error, as it is shown to the user.
    pub fn message(&self) -> (text: String)
        ensures
            text@ == spec_message(self@),
    {
        match self {
            CompareError::File(cause) => String::from_str("file io error, ").concat(
                cause.as_str(),
            ),
            CompareError::ImageDiff(cause) => String::from_str("image diff error, ").concat(
                cause.as_str(),
            ),
            CompareError::TemplateRender(cause) => String::from_str(
                "template render error, ",
            ).concat(cause.as_str()),
            CompareError::PathResolution(dir) => String::from_str(
                "path resolution error, ",
            ).concat(dir.as_str()),
            CompareError::Unknown => String::from_str("unknown error"),
        }
    }
}

impl Clone for CompareError {
    fn clone(&self) -> (copy: CompareError)
        ensures
            copy@ == self@,
    {
        match self {
            CompareError::File(cause) => CompareError::File(cause.clone()),
            CompareError::ImageDiff(cause) => CompareError::ImageDiff(cause.clone()),
            CompareError::TemplateRender(cause) => CompareError::TemplateRender(cause.clone()),
            CompareError::PathResolution(dir) => CompareError::PathResolution(dir.clone()),
            CompareError::Unknown => CompareError::Unknown,
        }
    }
}

} // verus!
