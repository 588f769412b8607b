use mark2pdf::color::{parse_color, Color};
use mark2pdf::format::TextAlignment;
use mark2pdf::style::resolve_style;

fn color_of(s: &str) -> Option<Color> {
    parse_color(&s.as_bytes().to_vec())
}

#[test]
fn parses_full_hex_red() {
    assert_eq!(color_of("#ff0000"), Some(Color { r: 1000, g: 0, b: 0 }));
}

#[test]
fn parses_short_hex_red() {
    assert_eq!(color_of("#f00"), Some(Color { r: 1000, g: 0, b: 0 }));
}

#[test]
fn rejects_unknown_color_name() {
    assert_eq!(color_of("notacolor"), None);
}

#[test]
fn parses_gray_name_as_half_intensity() {
    assert_eq!(color_of("gray"), Some(Color { r: 500, g: 500, b: 500 }));
    assert_eq!(color_of("grey"), Some(Color { r: 500, g: 500, b: 500 }));
}

#[test]
fn parses_named_colors() {
    assert_eq!(color_of("black"), Some(Color { r: 0, g: 0, b: 0 }));
    assert_eq!(color_of("red"), Some(Color { r: 1000, g: 0, b: 0 }));
    assert_eq!(color_of("green"), Some(Color { r: 0, g: 1000, b: 0 }));
    assert_eq!(color_of("blue"), Some(Color { r: 0, g: 0, b: 1000 }));
    assert_eq!(color_of("white"), Some(Color { r: 1000, g: 1000, b: 1000 }));
    assert_eq!(color_of("gainsboro"), Some(Color { r: 863, g: 863, b: 863 }));
    assert_eq!(color_of("whitesmoke"), Some(Color { r: 961, g: 961, b: 961 }));
}

#[test]
fn hex_channels_round_to_thousandths() {
    assert_eq!(color_of("#f8f8f8"), Some(Color { r: 973, g: 973, b: 973 }));
    assert_eq!(color_of("#3498db"), Some(Color { r: 204, g: 596, b: 859 }));
    assert_eq!(color_of("#111111"), Some(Color { r: 67, g: 67, b: 67 }));
    assert_eq!(color_of("#dcdcdc"), Some(Color { r: 863, g: 863, b: 863 }));
}

#[test]
fn rejects_bad_hex_lengths_and_digits() {
    assert_eq!(color_of("#ff00"), None);
    assert_eq!(color_of("#gg0000"), None);
    assert_eq!(color_of("#"), None);
    assert_eq!(color_of(""), None);
}

#[test]
fn resolves_color_and_decoration() {
    let d = resolve_style(&b"color: red; text-decoration: underline".to_vec());
    assert_eq!(d.color, Some(Color { r: 1000, g: 0, b: 0 }));
    assert!(d.underline);
    assert_eq!(d.background_color, None);
    assert_eq!(d.alignment, None);
}

#[test]
fn resolves_background_color() {
    let d = resolve_style(&b"background-color: #f8f8f8".to_vec());
    assert_eq!(d.background_color, Some(Color { r: 973, g: 973, b: 973 }));
}

#[test]
fn resolves_alignment_values() {
    assert_eq!(
        resolve_style(&b"text-align: center".to_vec()).alignment,
        Some(TextAlignment::Center)
    );
    assert_eq!(
        resolve_style(&b"text-align: right".to_vec()).alignment,
        Some(TextAlignment::Right)
    );
    assert_eq!(
        resolve_style(&b"text-align: justify".to_vec()).alignment,
        Some(TextAlignment::Left)
    );
}

#[test]
fn ignores_malformed_declarations() {
    let d = resolve_style(&b"color red; weight: bold; : ; color: #zzz".to_vec());
    assert_eq!(d.color, None);
    assert_eq!(d.background_color, None);
    assert!(!d.underline);
    assert_eq!(d.alignment, None);
}

#[test]
fn later_declaration_wins() {
    let d = resolve_style(&b"color: red; color: blue".to_vec());
    assert_eq!(d.color, Some(Color { r: 0, g: 0, b: 1000 }));
}

#[test]
fn trims_declaration_whitespace() {
    let d = resolve_style(&b"  color :  green  ".to_vec());
    assert_eq!(d.color, Some(Color { r: 0, g: 1000, b: 0 }));
}
