use vstd::prelude::*;
use crate::color::Color;

verus! {

/// One drawn element of a page.  Coordinates and sizes are in hundredths of
/// a millimetre, measured from the page's lower-left corner as the output
/// container does; `y` of a text run is its baseline.
#[derive(Debug)]
pub enum Primitive {
    /// A run of text in one face, size and color.
    TextRun {
        x: i64,
        y: i64,
        content: Vec<u8>,
        font_size: i64,
        color: Color,
        is_bold: bool,
        is_italic: bool,
    },
    /// A filled axis-aligned rectangle (text background).
    Rect { x1: i64, y1: i64, x2: i64, y2: i64, fill: Color },
    /// A stroked segment (underline, horizontal rule, quote border).
    Segment { x1: i64, y1: i64, x2: i64, y2: i64, color: Color },
    /// A raster image scaled to `width` by `height`, anchored at its
    /// lower-left corner; `data_id` names the decoded pixel buffer the
    /// caller supplied.
    ImageBox {
        x: i64,
        y: i64,
        width: i64,
        height: i64,
        width_px: u32,
        height_px: u32,
        data_id: usize,
    },
}

/// The mathematical value of a `Primitive`: the same shape over `int` and
/// `Seq`.
pub ghost enum PrimModel {
    TextRun {
        x: int,
        y: int,
        content: Seq<u8>,
        font_size: int,
        color: Color,
        is_bold: bool,
        is_italic: bool,
    },
    Rect { x1: int, y1: int, x2: int, y2: int, fill: Color },
    Segment { x1: int, y1: int, x2: int, y2: int, color: Color },
    ImageBox { x: int, y: int, width: int, height: int, width_px: int, height_px: int, data_id: int },
}

impl View for Primitive {
    type V = PrimModel;

    open spec fn view(&self) -> PrimModel {
        match self {
            Primitive::TextRun { x, y, content, font_size, color, is_bold, is_italic } => (
            PrimModel::TextRun {
                x: *x as int,
                y: *y as int,
                content: content@,
                font_size: *font_size as int,
                color: *color,
                is_bold: *is_bold,
                is_italic: *is_italic,
            }),
            Primitive::Rect { x1, y1, x2, y2, fill } => (PrimModel::Rect {
                x1: *x1 as int,
                y1: *y1 as int,
                x2: *x2 as int,
                y2: *y2 as int,
                fill: *fill,
            }),
            Primitive::Segment { x1, y1, x2, y2, color } => (PrimModel::Segment {
                x1: *x1 as int,
                y1: *y1 as int,
                x2: *x2 as int,
                y2: *y2 as int,
                color: *color,
            }),
            Primitive::ImageBox { x, y, width, height, width_px, height_px, data_id } => (
            PrimModel::ImageBox {
                x: *x as int,
                y: *y as int,
                width: *width as int,
                height: *height as int,
                width_px: *width_px as int,
                height_px: *height_px as int,
                data_id: *data_id as int,
            }),
        }
    }
}

/// One output page: the sequence of primitives drawn on it, in drawing
/// order.  Pages are append-only; geometry is global to the document.
#[derive(Debug)]
pub struct Page {
    pub items: Vec<Primitive>,
}

/// A page's mathematical value: the sequence of its primitives' values.
pub open spec fn page_model(items: Seq<Primitive>) -> Seq<PrimModel> {
    items.map_values(|p: Primitive| p@)
}

impl View for Page {
    type V = Seq<PrimModel>;

    open spec fn view(&self) -> Seq<PrimModel> {
        page_model(self.items@)
    }
}

/// A document's mathematical value: its pages' values in order.
pub open spec fn pages_model(pages: Seq<Page>) -> Seq<Seq<PrimModel>> {
    pages.map_values(|pg: Page| pg@)
}

pub proof fn lemma_page_model_push(items: Seq<Primitive>, p: Primitive)
    ensures
        page_model(items.push(p)) =~= page_model(items).push(p@),
{
}

pub proof fn lemma_pages_model_push(pages: Seq<Page>, pg: Page)
    ensures
        pages_model(pages.push(pg)) =~= pages_model(pages).push(pg@),
{
}

pub proof fn lemma_pages_model_update(pages: Seq<Page>, i: int, pg: Page)
    requires
        0 <= i < pages.len(),
    ensures
        pages_model(pages.update(i, pg)) =~= pages_model(pages).update(i, pg@),
{
}

} // verus!
