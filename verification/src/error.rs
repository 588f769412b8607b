use vstd::prelude::*;

verus! {

/// The error kinds a conversion can surface: input/output failure,
/// document-generation failure, configuration failure, markup-processing
/// failure, and image-decode failure.  Each carries a human-readable detail
/// message.
#[derive(Debug)]
pub enum Mark2PdfError {
    IoError(String),
    PdfError(String),
    ConfigError(String),
    MarkdownError(String),
    ImageError(String),
}

impl Mark2PdfError {
    /// A printable description of the error: a kind label followed by the
    /// detail message.
    pub fn message(&self) -> (r: String)
        ensures
            r@ == self.label()@ + self.detail()@,
    {
        match self {
            Mark2PdfError::IoError(m) => String::from_str("IO error: ").concat(m.as_str()),
            Mark2PdfError::PdfError(m) => String::from_str("PDF generation error: ").concat(
                m.as_str(),
            ),
            Mark2PdfError::ConfigError(m) => String::from_str("Configuration error: ").concat(
                m.as_str(),
            ),
            Mark2PdfError::MarkdownError(m) => String::from_str(
                "Markdown processing error: ",
            ).concat(m.as_str()),
            Mark2PdfError::ImageError(m) => String::from_str("Image error: ").concat(m.as_str()),
        }
    }

    /// The kind label that `message` prefixes to the detail.
    pub open spec fn label(&self) -> &'static str {
        match self {
            Mark2PdfError::IoError(_) => "IO error: ",
            Mark2PdfError::PdfError(_) => "PDF generation error: ",
            Mark2PdfError::ConfigError(_) => "Configuration error: ",
            Mark2PdfError::MarkdownError(_) => "Markdown processing error: ",
            Mark2PdfError::ImageError(_) => "Image error: ",
        }
    }

    /// The detail message the error was built with.
    pub open spec fn detail(&self) -> &String {
        match self {
            Mark2PdfError::IoError(m) => m,
            Mark2PdfError::PdfError(m) => m,
            Mark2PdfError::ConfigError(m) => m,
            Mark2PdfError::MarkdownError(m) => m,
            Mark2PdfError::ImageError(m) => m,
        }
    }
}

} // verus!
