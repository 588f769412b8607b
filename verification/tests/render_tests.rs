use mark2pdf::arena::{Arena, Attribute, ImageRef, NodeData};
use mark2pdf::color::Color;
use mark2pdf::error::Mark2PdfError;
use mark2pdf::page::Primitive;
use mark2pdf::state::RenderState;
use mark2pdf::walker::render;

fn element(arena: &mut Arena, parent: usize, tag: &str) -> usize {
    arena.add_child(
        parent,
        NodeData::Element { tag: tag.as_bytes().to_vec(), attrs: Vec::new(), image: None },
    )
}

fn element_with(
    arena: &mut Arena,
    parent: usize,
    tag: &str,
    attrs: Vec<(&str, &str)>,
    image: Option<ImageRef>,
) -> usize {
    let attrs = attrs
        .into_iter()
        .map(|(n, v)| Attribute { name: n.as_bytes().to_vec(), value: v.as_bytes().to_vec() })
        .collect();
    arena.add_child(parent, NodeData::Element { tag: tag.as_bytes().to_vec(), attrs, image })
}

fn text(arena: &mut Arena, parent: usize, s: &str) -> usize {
    arena.add_child(parent, NodeData::Text { content: s.as_bytes().to_vec() })
}

fn text_runs(state: &RenderState, page: usize) -> Vec<(i64, i64, Vec<u8>, i64, bool, bool)> {
    let mut out = Vec::new();
    for item in &state.pages[page].items {
        if let Primitive::TextRun { x, y, content, font_size, is_bold, is_italic, .. } = item {
            out.push((*x, *y, content.clone(), *font_size, *is_bold, *is_italic));
        }
    }
    out
}

#[test]
fn heading_and_paragraph_fit_one_page() {
    let mut arena = Arena::new();
    let h1 = element(&mut arena, 0, "h1");
    text(&mut arena, h1, "Title");
    let p = element(&mut arena, 0, "p");
    text(&mut arena, p, "Body text.");
    let mut state = RenderState::new();
    render(&arena, &mut state).unwrap();

    assert_eq!(state.pages.len(), 1);
    let runs = text_runs(&state, 0);
    assert_eq!(runs.len(), 2);
    let (_, y_title, ref title, fs_title, bold_title, _) = runs[0];
    let (_, y_body, ref body, fs_body, bold_body, _) = runs[1];
    assert_eq!(title, &b"Title".to_vec());
    assert_eq!(body, &b"Body text.".to_vec());
    assert!(bold_title);
    assert!(!bold_body);
    assert_eq!(fs_title, 24);
    assert_eq!(fs_body, 11);
    assert!(y_body < y_title);
}

#[test]
fn page_break_marker_forces_new_page() {
    let mut arena = Arena::new();
    let div = element_with(&mut arena, 0, "div", vec![("class", "page-break")], None);
    text(&mut arena, div, "A");
    let p = element(&mut arena, 0, "p");
    text(&mut arena, p, "B");
    let mut state = RenderState::new();
    render(&arena, &mut state).unwrap();

    assert_eq!(state.pages.len(), 2);
    // The marker short-circuits: its children are never rendered, so "A"
    // appears nowhere, and "B" lands on the page after the marker.
    assert!(text_runs(&state, 0).is_empty());
    let runs = text_runs(&state, 1);
    assert_eq!(runs.len(), 1);
    assert_eq!(runs[0].2, b"B".to_vec());
}

#[test]
fn page_break_ignores_remaining_space() {
    // Plenty of room is left on the first page; the break happens anyway,
    // exactly at the marker.
    let mut arena = Arena::new();
    let p1 = element(&mut arena, 0, "p");
    text(&mut arena, p1, "first");
    element_with(&mut arena, 0, "div", vec![("class", "page-break")], None);
    let p2 = element(&mut arena, 0, "p");
    text(&mut arena, p2, "second");
    let mut state = RenderState::new();
    render(&arena, &mut state).unwrap();

    assert_eq!(state.pages.len(), 2);
    assert_eq!(text_runs(&state, 0).len(), 1);
    assert_eq!(text_runs(&state, 1).len(), 1);
    assert_eq!(text_runs(&state, 1)[0].2, b"second".to_vec());
}

#[test]
fn tall_image_moves_whole_to_fresh_page() {
    let mut arena = Arena::new();
    text(&mut arena, 0, "hello");
    element_with(
        &mut arena,
        0,
        "img",
        vec![("src", "x.png")],
        Some(ImageRef { width_px: 100, height_px: 255, data_id: 0 }),
    );
    let mut state = RenderState::new();
    render(&arena, &mut state).unwrap();

    // 255 px scale to 25500 hundredths of a millimetre of height: more than
    // the space left under the text, but within one page's budget.
    assert_eq!(state.pages.len(), 2);
    assert_eq!(state.pages[1].items.len(), 1);
    match &state.pages[1].items[0] {
        Primitive::ImageBox { x, y, width, height, width_px, height_px, data_id } => {
            assert_eq!(*width, 10000);
            assert_eq!(*height, 25500);
            assert_eq!(*x, (21000 - 10000) / 2);
            // Top at the top margin, bottom still above the bottom margin:
            // the image sits entirely on the fresh page.
            assert_eq!(*y, 27700 - 25500);
            assert!(*y >= 2000);
            assert_eq!((*width_px, *height_px, *data_id), (100, 255, 0));
        }
        other => panic!("expected an image, found {:?}", other_kind(other)),
    }
}

fn other_kind(p: &Primitive) -> &'static str {
    match p {
        Primitive::TextRun { .. } => "a text run",
        Primitive::Rect { .. } => "a rectangle",
        Primitive::Segment { .. } => "a segment",
        Primitive::ImageBox { .. } => "an image",
    }
}

#[test]
fn wide_image_is_scaled_to_content_width() {
    let mut arena = Arena::new();
    element_with(
        &mut arena,
        0,
        "img",
        vec![("src", "x.png")],
        Some(ImageRef { width_px: 340, height_px: 100, data_id: 7 }),
    );
    let mut state = RenderState::new();
    render(&arena, &mut state).unwrap();

    // 340 px would be 34000 wide; the content width is 17000, so the image
    // halves: 10000 tall becomes 5000.
    assert_eq!(state.pages.len(), 1);
    match &state.pages[0].items[0] {
        Primitive::ImageBox { x, y, width, height, .. } => {
            assert_eq!(*width, 17000);
            assert_eq!(*height, 5000);
            assert_eq!(*x, 2000);
            assert_eq!(*y, 27700 - 5000);
        }
        other => panic!("expected an image, found {:?}", other_kind(other)),
    }
}

#[test]
fn long_document_overflows_to_more_pages() {
    let mut arena = Arena::new();
    for _ in 0..30 {
        let p = element(&mut arena, 0, "p");
        text(&mut arena, p, "hello");
    }
    let mut state = RenderState::new();
    render(&arena, &mut state).unwrap();
    assert!(state.pages.len() > 1);
}

#[test]
fn undecoded_image_aborts_with_image_error() {
    let mut arena = Arena::new();
    element_with(&mut arena, 0, "img", vec![("src", "missing.png")], None);
    let mut state = RenderState::new();
    let err = render(&arena, &mut state).unwrap_err();
    assert!(matches!(err, Mark2PdfError::ImageError(_)));
}

#[test]
fn image_without_source_recurses_children() {
    let mut arena = Arena::new();
    let img = element(&mut arena, 0, "img");
    text(&mut arena, img, "alt");
    let mut state = RenderState::new();
    render(&arena, &mut state).unwrap();
    assert_eq!(text_runs(&state, 0).len(), 1);
}

#[test]
fn horizontal_rules_bypass_pagination() {
    let mut arena = Arena::new();
    for _ in 0..30 {
        element(&mut arena, 0, "hr");
    }
    let mut state = RenderState::new();
    render(&arena, &mut state).unwrap();

    // Each rule drops the cursor 10mm with no overflow check: the cursor
    // sinks past the bottom margin and no page is ever allocated.
    assert_eq!(state.pages.len(), 1);
    assert_eq!(state.pages[0].items.len(), 30);
    assert_eq!(state.cursor_y, 27700 - 30 * 1000);
}

#[test]
fn list_item_draws_bullet_and_restores_margin() {
    let mut arena = Arena::new();
    let ul = element(&mut arena, 0, "ul");
    let li = element(&mut arena, ul, "li");
    text(&mut arena, li, "x");
    let mut state = RenderState::new();
    render(&arena, &mut state).unwrap();

    let runs = text_runs(&state, 0);
    assert_eq!(runs.len(), 2);
    let (x_bullet, _, ref bullet, _, _, _) = runs[0];
    let (x_item, _, ref item, _, _, _) = runs[1];
    assert_eq!(bullet, &"\u{2022}".as_bytes().to_vec());
    assert_eq!(x_bullet, 2000);
    assert_eq!(item, &b"x".to_vec());
    assert_eq!(x_item, 2500);
    assert_eq!(state.margin, 2000);
}

#[test]
fn blockquote_draws_border_and_restores_margin() {
    let mut arena = Arena::new();
    let bq = element(&mut arena, 0, "blockquote");
    text(&mut arena, bq, "quoted");
    let p = element(&mut arena, 0, "p");
    text(&mut arena, p, "after");
    let mut state = RenderState::new();
    render(&arena, &mut state).unwrap();

    let borders: Vec<_> = state.pages[0]
        .items
        .iter()
        .filter_map(|i| match i {
            Primitive::Segment { x1, x2, color, .. } if x1 == x2 => Some((*x1, *color)),
            _ => None,
        })
        .collect();
    assert_eq!(borders, vec![(2200, Color { r: 863, g: 863, b: 863 })]);

    let runs = text_runs(&state, 0);
    assert_eq!(runs.len(), 2);
    let (x_quote, _, _, _, _, italic_quote) = runs[0];
    let (x_after, _, _, _, _, italic_after) = runs[1];
    assert_eq!(x_quote, 3500);
    assert!(italic_quote);
    assert_eq!(x_after, 2000);
    assert!(!italic_after);
}

#[test]
fn span_style_sets_color_of_its_text() {
    let mut arena = Arena::new();
    let p = element(&mut arena, 0, "p");
    let span = element_with(&mut arena, p, "span", vec![("style", "color: #ff0000")], None);
    text(&mut arena, span, "warm");
    let mut state = RenderState::new();
    render(&arena, &mut state).unwrap();

    match &state.pages[0].items[0] {
        Primitive::TextRun { color, .. } => {
            assert_eq!(*color, Color { r: 1000, g: 0, b: 0 });
        }
        other => panic!("expected a text run, found {:?}", other_kind(other)),
    }
}

#[test]
fn div_style_centers_its_text() {
    let mut arena = Arena::new();
    let div = element_with(&mut arena, 0, "div", vec![("style", "text-align: center")], None);
    text(&mut arena, div, "ab");
    let mut state = RenderState::new();
    render(&arena, &mut state).unwrap();

    let runs = text_runs(&state, 0);
    assert_eq!(runs.len(), 1);
    // Estimated width: 2 characters of 11pt at the fixed factor.
    let width = 2 * 11 * 50;
    assert_eq!(runs[0].0, (21000 - width) / 2);
}

#[test]
fn code_text_gets_background_rectangle() {
    let mut arena = Arena::new();
    let code = element(&mut arena, 0, "code");
    text(&mut arena, code, "x+y");
    let mut state = RenderState::new();
    render(&arena, &mut state).unwrap();

    assert!(matches!(
        state.pages[0].items[0],
        Primitive::Rect { fill: Color { r: 973, g: 973, b: 973 }, .. }
    ));
    assert!(matches!(state.pages[0].items[1], Primitive::TextRun { .. }));
}

#[test]
fn underline_tag_draws_line_under_text() {
    let mut arena = Arena::new();
    let u = element(&mut arena, 0, "u");
    text(&mut arena, u, "under");
    let mut state = RenderState::new();
    render(&arena, &mut state).unwrap();

    let items = &state.pages[0].items;
    assert_eq!(items.len(), 2);
    match (&items[0], &items[1]) {
        (
            Primitive::TextRun { x, y, .. },
            Primitive::Segment { x1, y1, x2, y2, .. },
        ) => {
            assert_eq!(*x1, *x);
            assert_eq!(*x2, *x + 5 * 11 * 50);
            assert_eq!(*y1, *y - 100);
            assert_eq!(*y2, *y - 100);
        }
        _ => panic!("expected a text run and its underline"),
    }
}

#[test]
fn whitespace_only_text_draws_nothing() {
    let mut arena = Arena::new();
    text(&mut arena, 0, "  \n\t ");
    let mut state = RenderState::new();
    render(&arena, &mut state).unwrap();
    assert!(state.pages[0].items.is_empty());
    assert_eq!(state.cursor_y, 27700);
}

#[test]
fn unknown_tags_recurse_transparently() {
    let mut arena = Arena::new();
    let custom = element(&mut arena, 0, "article");
    text(&mut arena, custom, "inside");
    let mut state = RenderState::new();
    render(&arena, &mut state).unwrap();
    let runs = text_runs(&state, 0);
    assert_eq!(runs.len(), 1);
    assert_eq!(runs[0].2, b"inside".to_vec());
    assert!(!runs[0].4);
}

#[test]
fn format_stack_depth_survives_rendering() {
    let mut arena = Arena::new();
    let bq = element(&mut arena, 0, "blockquote");
    let em = element(&mut arena, bq, "em");
    let strong = element(&mut arena, em, "strong");
    text(&mut arena, strong, "deep");
    let mut state = RenderState::new();
    render(&arena, &mut state).unwrap();
    assert_eq!(state.format_stack.len(), 1);
    assert_eq!(state.margin, 2000);
}

#[test]
fn line_break_consumes_fixed_space() {
    let mut arena = Arena::new();
    element(&mut arena, 0, "br");
    let mut state = RenderState::new();
    render(&arena, &mut state).unwrap();
    assert_eq!(state.pages.len(), 1);
    assert!(state.pages[0].items.is_empty());
    assert_eq!(state.cursor_y, 27700 - 1000);
}

#[test]
fn empty_paragraph_consumes_pre_and_post_space() {
    let mut arena = Arena::new();
    element(&mut arena, 0, "p");
    let mut state = RenderState::new();
    render(&arena, &mut state).unwrap();
    assert!(state.pages[0].items.is_empty());
    assert_eq!(state.cursor_y, 27700 - 2000);
}

#[test]
fn table_row_spacing_matches_table() {
    let mut arena = Arena::new();
    let table = element(&mut arena, 0, "table");
    let tr = element(&mut arena, table, "tr");
    let th = element(&mut arena, tr, "th");
    text(&mut arena, th, "head");
    let mut state = RenderState::new();
    render(&arena, &mut state).unwrap();

    // table pre 10mm, row pre 5mm: the header text sits at 26200, over its
    // light background, in bold.
    let runs = text_runs(&state, 0);
    assert_eq!(runs.len(), 1);
    assert_eq!(runs[0].1, 27700 - 1500);
    assert!(runs[0].4);
    assert!(matches!(
        state.pages[0].items[0],
        Primitive::Rect { fill: Color { r: 973, g: 973, b: 973 }, .. }
    ));
}

#[test]
fn heading_levels_follow_the_tag_table() {
    let cases: [(&str, i64, i64); 6] = [
        ("h1", 24, 2000),
        ("h2", 20, 1500),
        ("h3", 16, 1000),
        ("h4", 14, 800),
        ("h5", 11, 600),
        ("h6", 10, 600),
    ];
    for (tag, font_size, pre_space) in cases {
        let mut arena = Arena::new();
        let h = element(&mut arena, 0, tag);
        text(&mut arena, h, "t");
        let mut state = RenderState::new();
        render(&arena, &mut state).unwrap();
        let runs = text_runs(&state, 0);
        assert_eq!(runs.len(), 1, "tag {}", tag);
        assert_eq!(runs[0].1, 27700 - pre_space, "tag {}", tag);
        assert_eq!(runs[0].3, font_size, "tag {}", tag);
        assert!(runs[0].4, "tag {}", tag);
    }
}

#[test]
fn sixth_heading_dims_its_color() {
    let mut arena = Arena::new();
    let h = element(&mut arena, 0, "h6");
    text(&mut arena, h, "t");
    let mut state = RenderState::new();
    render(&arena, &mut state).unwrap();
    match &state.pages[0].items[0] {
        Primitive::TextRun { color, .. } => assert_eq!(*color, Color { r: 400, g: 400, b: 400 }),
        _ => panic!("expected a text run"),
    }
}

#[test]
fn anchor_text_is_link_colored_and_underlined() {
    let mut arena = Arena::new();
    let a = element(&mut arena, 0, "a");
    text(&mut arena, a, "link");
    let mut state = RenderState::new();
    render(&arena, &mut state).unwrap();
    let items = &state.pages[0].items;
    assert_eq!(items.len(), 2);
    match (&items[0], &items[1]) {
        (Primitive::TextRun { color, .. }, Primitive::Segment { color: line_color, .. }) => {
            assert_eq!(*color, Color { r: 204, g: 596, b: 859 });
            assert_eq!(*line_color, *color);
        }
        _ => panic!("expected a text run and its underline"),
    }
}

#[test]
fn bold_and_italic_tag_aliases_agree() {
    for (tag, bold, italic) in [("strong", true, false), ("b", true, false), ("em", false, true), ("i", false, true)] {
        let mut arena = Arena::new();
        let e = element(&mut arena, 0, tag);
        text(&mut arena, e, "t");
        let mut state = RenderState::new();
        render(&arena, &mut state).unwrap();
        let runs = text_runs(&state, 0);
        assert_eq!((runs[0].4, runs[0].5), (bold, italic), "tag {}", tag);
    }
}

#[test]
fn preformatted_block_spaces_and_shades() {
    let mut arena = Arena::new();
    let pre = element(&mut arena, 0, "pre");
    text(&mut arena, pre, "let x = 1;");
    let mut state = RenderState::new();
    render(&arena, &mut state).unwrap();
    let runs = text_runs(&state, 0);
    assert_eq!(runs.len(), 1);
    assert_eq!(runs[0].1, 27700 - 1000);
    assert_eq!(runs[0].3, 11);
    assert!(matches!(
        state.pages[0].items[0],
        Primitive::Rect { fill: Color { r: 973, g: 973, b: 973 }, .. }
    ));
    // pre-space, the per-text advance, and the closing space.
    assert_eq!(state.cursor_y, 27700 - 1000 - 385 - 1000);
}
