use vstd::prelude::*;
use crate::color::Color;

verus! {

/// Horizontal placement of a text run within the content area.
#[derive(Clone, Copy, PartialEq, Eq, Structural, Debug)]
pub enum TextAlignment {
    Left,
    Center,
    Right,
}

/// The active text style: font size in points, text color, optional
/// background color, the three face flags, and the alignment.  Values are
/// immutable; entering a styled element derives a new format from the
/// current one.
#[derive(Clone, Copy, Debug)]
pub struct TextFormat {
    pub font_size: i64,
    pub color: Color,
    pub background_color: Option<Color>,
    pub is_bold: bool,
    pub is_italic: bool,
    pub is_underline: bool,
    pub alignment: TextAlignment,
}

/// The largest font size, in points, a well-formed format can carry.
pub const FONT_SIZE_CEIL: i64 = 1000;

impl TextFormat {
    /// The font size is positive and bounded, and the colors are in range.
    pub open spec fn wf(&self) -> bool {
        &&& 1 <= self.font_size <= FONT_SIZE_CEIL
        &&& self.color.wf()
        &&& (self.background_color matches Some(c) ==> c.wf())
    }
}

impl Default for TextFormat {
    /// A plain 12pt black left-aligned format with no decoration.
    fn default() -> (r: TextFormat)
        ensures
            r == (TextFormat {
                font_size: 12,
                color: Color { r: 0, g: 0, b: 0 },
                background_color: None,
                is_bold: false,
                is_italic: false,
                is_underline: false,
                alignment: TextAlignment::Left,
            }),
            r.wf(),
    {
        TextFormat {
            font_size: 12,
            color: Color { r: 0, g: 0, b: 0 },
            background_color: None,
            is_bold: false,
            is_italic: false,
            is_underline: false,
            alignment: TextAlignment::Left,
        }
    }
}

} // verus!
