use vstd::prelude::*;

pub mod arena;
pub mod bytestr;
pub mod color;
pub mod config;
pub mod error;
pub mod format;
pub mod markdown;
pub mod page;
pub mod style;
pub mod tag;
pub mod walker;
pub mod state;

use crate::error::Mark2PdfError;
use crate::markdown::MarkdownProcessor;
use crate::markdown::document_head;
use crate::markdown::document_foot;
use crate::markdown::html_of;

verus! {

/// The conversion front end: turns markup text into the HTML document the
/// renderer walks.  Reading the input file and writing the output container
/// are its caller's business.
pub struct Mark2Pdf {
    markdown_processor: MarkdownProcessor,
}

impl Mark2Pdf {
    pub fn new() -> (r: Mark2Pdf) {
        Mark2Pdf { markdown_processor: MarkdownProcessor::new() }
    }

    /// The markup-to-HTML step of a conversion: never fails, and returns
    /// exactly the fixed document frame around the converted body.
    pub fn process_content(&self, content: &str) -> (r: Result<String, Mark2PdfError>)
        ensures
            r is Ok,
            (r matches Ok(h) ==> h@ == document_head() + html_of(content@) + document_foot()),
    {
        self.markdown_processor.process_content(content)
    }
}

} // verus!
