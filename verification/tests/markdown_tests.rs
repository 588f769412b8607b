use mark2pdf::config::Config;
use mark2pdf::error::Mark2PdfError;
use mark2pdf::markdown::MarkdownProcessor;
use mark2pdf::state::RenderState;
use mark2pdf::Mark2Pdf;

#[test]
fn test_basic_markdown_conversion() {
    let processor = MarkdownProcessor::new();
    let markdown = "# Hello World\n\nThis is a test.";
    let html = processor.process_content(markdown).unwrap();
    assert!(html.contains("<h1>Hello World</h1>"));
    assert!(html.contains("<p>This is a test.</p>"));
}

#[test]
fn process_content_wraps_body_in_document_frame() {
    let processor = MarkdownProcessor::new();
    let html = processor.process_content("plain").unwrap();
    assert!(html.starts_with("<!DOCTYPE html>"));
    assert!(html.ends_with("</html>"));
    assert!(html.contains("<style>"));
    assert!(html.contains(".page-break { page-break-after: always; }"));
    assert!(html.contains("<p>plain</p>"));
}

#[test]
fn converter_front_end_produces_same_frame() {
    let converter = Mark2Pdf::new();
    let html = converter.process_content("*em*").unwrap();
    assert!(html.contains("<em>em</em>"));
    assert!(html.starts_with("<!DOCTYPE html>"));
}

#[test]
fn default_config_is_a_series_page() {
    let cfg = Config::new();
    assert_eq!(cfg.page_width, 21000);
    assert_eq!(cfg.page_height, 29700);
    assert_eq!(cfg.margin, 2000);
    assert_eq!(cfg.font_size, 12);
    assert!(cfg.enable_gfm);
    assert!(cfg.enable_syntax_highlighting);
    assert!(!cfg.enable_math);
    assert!(cfg.input_file.is_none());
    assert!(cfg.output_file.is_none());
}

#[test]
fn config_builders_set_their_fields() {
    let cfg = Config::new()
        .with_input_file("in.md".to_string())
        .with_output_file("out.pdf".to_string())
        .with_page_size(10000, 20000)
        .with_margin(1500)
        .with_font_size(10)
        .with_gfm(false)
        .with_syntax_highlighting(false)
        .with_math(true);
    assert_eq!(cfg.input_file.as_deref(), Some("in.md"));
    assert_eq!(cfg.output_file.as_deref(), Some("out.pdf"));
    assert_eq!((cfg.page_width, cfg.page_height), (10000, 20000));
    assert_eq!(cfg.margin, 1500);
    assert_eq!(cfg.font_size, 10);
    assert!(!cfg.enable_gfm);
    assert!(!cfg.enable_syntax_highlighting);
    assert!(cfg.enable_math);
}

#[test]
fn valid_config_builds_a_state() {
    let cfg = Config::new().with_font_size(14);
    let state = RenderState::with_config(&cfg).unwrap();
    assert_eq!(state.page_width, 21000);
    assert_eq!(state.page_height, 29700);
    assert_eq!(state.margin, 2000);
    assert_eq!(state.cursor_y, 27700);
    assert_eq!(state.pages.len(), 1);
    assert_eq!(state.format_stack.len(), 1);
    assert_eq!(state.format_stack[0].font_size, 14);
}

#[test]
fn oversized_margin_is_a_config_error() {
    let cfg = Config::new().with_margin(11000);
    let err = RenderState::with_config(&cfg).unwrap_err();
    assert!(matches!(err, Mark2PdfError::ConfigError(_)));
}

#[test]
fn zero_margin_is_a_config_error() {
    let cfg = Config::new().with_margin(0);
    assert!(RenderState::with_config(&cfg).is_err());
}

#[test]
fn fresh_state_matches_reference_geometry() {
    let state = RenderState::new();
    assert_eq!(state.page_width, 21000);
    assert_eq!(state.page_height, 29700);
    assert_eq!(state.margin, 2000);
    assert_eq!(state.cursor_y, 27700);
    assert_eq!(state.format_stack[0].font_size, 11);
    assert!(!state.format_stack[0].is_bold);
}

#[test]
fn error_messages_carry_kind_and_detail() {
    assert_eq!(
        Mark2PdfError::IoError("gone".to_string()).message(),
        "IO error: gone"
    );
    assert_eq!(
        Mark2PdfError::PdfError("bad".to_string()).message(),
        "PDF generation error: bad"
    );
    assert_eq!(
        Mark2PdfError::ConfigError("geom".to_string()).message(),
        "Configuration error: geom"
    );
    assert_eq!(
        Mark2PdfError::MarkdownError("markup".to_string()).message(),
        "Markdown processing error: markup"
    );
    assert_eq!(
        Mark2PdfError::ImageError("px".to_string()).message(),
        "Image error: px"
    );
}
