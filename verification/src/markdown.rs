use vstd::prelude::*;
use crate::error::Mark2PdfError;

verus! {

/// What pulldown_cmark's HTML renderer produces for a markdown source with
/// this library's option set: a pure function of the source text alone.
pub uninterp spec fn html_of(source: Seq<char>) -> Seq<char>;

/// The fixed head of every produced document: the doctype, the character
/// set, and the stylesheet, up to and including the opening of the body.
pub open spec fn document_head() -> Seq<char> {
    "<!DOCTYPE html>\n<html>\n<head>\n<meta charset=\"utf-8\">\n<style>\n* { box-sizing: border-box; }\nbody { font-family: system-ui, -apple-system, 'Segoe UI', 'Roboto', 'Helvetica Neue', sans-serif; line-height: 1.6; font-size: 11pt; color: #111; margin: 0; padding: 1em; }\nh1, h2, h3, h4, h5, h6 { margin: 0; padding: 0.5em 0 0.25em; line-height: 1.2; }\nh1 { font-size: 2em; }\nh2 { font-size: 1.5em; }\nh3 { font-size: 1.17em; }\nh4 { font-size: 1em; }\nh5 { font-size: 0.83em; }\nh6 { font-size: 0.67em; }\np { margin: 0 0 0.75em; }\nblockquote { margin: 0.5em 0; padding-left: 1em; border-left: 4px solid #dcdcdc; color: #666; }\nul, ol { margin: 0 0 0.75em; padding-left: 2em; }\nli { margin: 0.25em 0; }\npre { margin: 0.75em 0; padding: 1em; background-color: #f8f8f8; border-radius: 4px; overflow-x: auto; }\ncode { background-color: #f8f8f8; padding: 0.2em 0.4em; border-radius: 3px; font-family: 'SFMono-Regular', Consolas, 'Liberation Mono', Menlo, monospace; font-size: 0.9em; }\npre code { padding: 0; background: none; }\nimg { max-width: 100%; height: auto; margin: 0.75em 0; }\ntable { border-spacing: 0; border-collapse: collapse; margin: 0.75em 0; width: 100%; }\ntable th, table td { padding: 0.5em; border: 1px solid #dcdcdc; }\ntable th { font-weight: 600; background-color: #f8f8f8; }\ntable tr:nth-child(2n) { background-color: #f8f8f8; }\nhr { margin: 1.5em 0; border: 0; border-top: 1px solid #dcdcdc; }\n.page-break { page-break-after: always; }\n</style>\n</head>\n<body>\n"@
}

/// The fixed tail of every produced document: the closing of the body.
pub open spec fn document_foot() -> Seq<char> {
    "\n</body>\n</html>"@
}

/// Turns lightweight markup into a full styled HTML document.
pub struct MarkdownProcessor;

/// Relies on pulldown_cmark's `Parser::new_ext` and `html::push_html`: with
/// a fixed option set, the HTML they emit depends on the source text alone.
#[verifier::external_body]
fn markdown_to_html(content: &str) -> (r: String)
    ensures
        r@ == html_of(content@),
{
    let mut options = pulldown_cmark::Options::empty();
    options.insert(pulldown_cmark::Options::ENABLE_STRIKETHROUGH);
    options.insert(pulldown_cmark::Options::ENABLE_TABLES);
    options.insert(pulldown_cmark::Options::ENABLE_FOOTNOTES);
    options.insert(pulldown_cmark::Options::ENABLE_TASKLISTS);
    options.insert(pulldown_cmark::Options::ENABLE_SMART_PUNCTUATION);
    options.insert(pulldown_cmark::Options::ENABLE_HEADING_ATTRIBUTES);
    let parser = pulldown_cmark::Parser::new_ext(content, options);
    let mut html_output = String::new();
    pulldown_cmark::html::push_html(&mut html_output, parser);
    html_output
}

impl MarkdownProcessor {
    pub fn new() -> (r: MarkdownProcessor) {
        MarkdownProcessor
    }

    /// Converts markup text to HTML and wraps it in the fixed document
    /// frame.  This never fails: every input yields `Ok`, and the result is
    /// exactly the head, the converted body, and the foot.
    pub fn process_content(&self, content: &str) -> (r: Result<String, Mark2PdfError>)
        ensures
            r is Ok,
            (r matches Ok(h) ==> h@ == document_head() + html_of(content@) + document_foot()),
    {
        let body = markdown_to_html(content);
        let out = String::from_str(
            "<!DOCTYPE html>\n<html>\n<head>\n<meta charset=\"utf-8\">\n<style>\n* { box-sizing: border-box; }\nbody { font-family: system-ui, -apple-system, 'Segoe UI', 'Roboto', 'Helvetica Neue', sans-serif; line-height: 1.6; font-size: 11pt; color: #111; margin: 0; padding: 1em; }\nh1, h2, h3, h4, h5, h6 { margin: 0; padding: 0.5em 0 0.25em; line-height: 1.2; }\nh1 { font-size: 2em; }\nh2 { font-size: 1.5em; }\nh3 { font-size: 1.17em; }\nh4 { font-size: 1em; }\nh5 { font-size: 0.83em; }\nh6 { font-size: 0.67em; }\np { margin: 0 0 0.75em; }\nblockquote { margin: 0.5em 0; padding-left: 1em; border-left: 4px solid #dcdcdc; color: #666; }\nul, ol { margin: 0 0 0.75em; padding-left: 2em; }\nli { margin: 0.25em 0; }\npre { margin: 0.75em 0; padding: 1em; background-color: #f8f8f8; border-radius: 4px; overflow-x: auto; }\ncode { background-color: #f8f8f8; padding: 0.2em 0.4em; border-radius: 3px; font-family: 'SFMono-Regular', Consolas, 'Liberation Mono', Menlo, monospace; font-size: 0.9em; }\npre code { padding: 0; background: none; }\nimg { max-width: 100%; height: auto; margin: 0.75em 0; }\ntable { border-spacing: 0; border-collapse: collapse; margin: 0.75em 0; width: 100%; }\ntable th, table td { padding: 0.5em; border: 1px solid #dcdcdc; }\ntable th { font-weight: 600; background-color: #f8f8f8; }\ntable tr:nth-child(2n) { background-color: #f8f8f8; }\nhr { margin: 1.5em 0; border: 0; border-top: 1px solid #dcdcdc; }\n.page-break { page-break-after: always; }\n</style>\n</head>\n<body>\n",
        );
        let out = out.concat(body.as_str());
        let out = out.concat("\n</body>\n</html>");
        Ok(out)
    }
}

} // verus!
