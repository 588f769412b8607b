use vstd::prelude::*;
use crate::color::Color;
use crate::format::TextFormat;
use crate::format::TextAlignment;
use crate::format::FONT_SIZE_CEIL;
use crate::page::Page;
use crate::page::Primitive;
use crate::page::PrimModel;
use crate::page::page_model;
use crate::page::pages_model;
use crate::page::lemma_page_model_push;
use crate::page::lemma_pages_model_push;
use crate::page::lemma_pages_model_update;
use crate::bytestr::copy_bytes;
use crate::config::Config;
use crate::error::Mark2PdfError;

verus! {

/// The cursor never sinks below this; an unchecked drop (the horizontal
/// rule's) saturates here instead of overflowing.
pub const CURSOR_FLOOR: i64 = -1_000_000_000_000_000;

/// The current left margin never grows beyond this; a margin increase
/// saturates here.
pub const MARGIN_CEIL: i64 = 1_000_000_000;

/// Page sides are at most this (one hundred metres).
pub const PAGE_DIM_CEIL: i64 = 10_000_000;

/// One vertical-space step is at most this (one metre).
pub const SPACE_CEIL: i64 = 100_000;

/// A single text run holds at most this many bytes.
pub const TEXT_LEN_CEIL: usize = 1_000_000_000;

/// The mathematical value of a `RenderState`: page contents, cursor, margin,
/// geometry and the format stack, over `int` and `Seq`.
#[verifier::ext_equal]
pub ghost struct StateModel {
    pub pages: Seq<Seq<PrimModel>>,
    pub cursor: int,
    pub margin: int,
    pub page_width: int,
    pub page_height: int,
    pub stack: Seq<TextFormat>,
}

/// The single mutable context of a conversion: the accumulated pages, the
/// vertical cursor on the current (last) page, the current left margin, the
/// fixed page geometry, and the stack of active text formats.  All lengths
/// are hundredths of a millimetre; the cursor decreases as content flows
/// down the page.
#[derive(Debug)]
pub struct RenderState {
    pub pages: Vec<Page>,
    pub cursor_y: i64,
    pub margin: i64,
    pub page_width: i64,
    pub page_height: i64,
    pub format_stack: Vec<TextFormat>,
}

impl View for RenderState {
    type V = StateModel;

    open spec fn view(&self) -> StateModel {
        StateModel {
            pages: pages_model(self.pages@),
            cursor: self.cursor_y as int,
            margin: self.margin as int,
            page_width: self.page_width as int,
            page_height: self.page_height as int,
            stack: self.format_stack@,
        }
    }
}

/// Appending one primitive to the current (last) page.
pub open spec fn push_prim_m(s: StateModel, p: PrimModel) -> StateModel {
    StateModel { pages: s.pages.update(s.pages.len() - 1, s.pages.last().push(p)), ..s }
}

/// Allocating a fresh page and resetting the cursor to the top margin.
pub open spec fn fresh_page_m(s: StateModel) -> StateModel {
    StateModel { pages: s.pages.push(Seq::empty()), cursor: s.page_height - s.margin, ..s }
}

/// Consuming vertical space: the cursor drops, and crossing the bottom
/// margin allocates a fresh page.  This is the sole page-break trigger for
/// ordinary flow content.
pub open spec fn vspace_m(s: StateModel, amount: int) -> StateModel {
    if s.cursor - amount < s.margin {
        fresh_page_m(s)
    } else {
        StateModel { cursor: s.cursor - amount, ..s }
    }
}

/// The state after consuming each amount in turn.
pub open spec fn consume_all_m(s: StateModel, amounts: Seq<int>) -> StateModel
    decreases amounts.len(),
{
    if amounts.len() == 0 {
        s
    } else {
        consume_all_m(vspace_m(s, amounts[0]), amounts.skip(1))
    }
}

/// The total of a sequence of space amounts.
pub open spec fn sum_amounts(amounts: Seq<int>) -> int
    decreases amounts.len(),
{
    if amounts.len() == 0 {
        0
    } else {
        amounts[0] + sum_amounts(amounts.skip(1))
    }
}

pub proof fn lemma_sum_amounts_nonneg(amounts: Seq<int>)
    requires
        forall|i: int| 0 <= i < amounts.len() ==> 0 <= #[trigger] amounts[i],
    ensures
        0 <= sum_amounts(amounts),
    decreases amounts.len(),
{
    if amounts.len() > 0 {
        lemma_sum_amounts_nonneg(amounts.skip(1));
    }
}

/// Consuming space never discards a page.
pub proof fn lemma_consume_pages_monotone(s: StateModel, amounts: Seq<int>)
    ensures
        consume_all_m(s, amounts).pages.len() >= s.pages.len(),
    decreases amounts.len(),
{
    if amounts.len() > 0 {
        lemma_consume_pages_monotone(vspace_m(s, amounts[0]), amounts.skip(1));
    }
}

/// Content that fits the space above the bottom margin stays on the current
/// page: no consumption triggers a page break, the pages are untouched, and
/// the cursor ends exactly the total lower.
pub proof fn lemma_content_fits_current_page(s: StateModel, amounts: Seq<int>)
    requires
        forall|i: int| 0 <= i < amounts.len() ==> 0 <= #[trigger] amounts[i],
        sum_amounts(amounts) <= s.cursor - s.margin,
    ensures
        consume_all_m(s, amounts) == (StateModel {
            cursor: s.cursor - sum_amounts(amounts),
            ..s
        }),
    decreases amounts.len(),
{
    if amounts.len() == 0 {
        assert(consume_all_m(s, amounts) =~~= (StateModel {
            cursor: s.cursor - sum_amounts(amounts),
            ..s
        }));
    } else {
        lemma_sum_amounts_nonneg(amounts.skip(1));
        let s1 = vspace_m(s, amounts[0]);
        assert(s1 =~~= (StateModel { cursor: s.cursor - amounts[0], ..s }));
        lemma_content_fits_current_page(s1, amounts.skip(1));
        assert(consume_all_m(s, amounts) =~~= (StateModel {
            cursor: s.cursor - sum_amounts(amounts),
            ..s
        }));
    }
}

/// Content whose total exceeds the space above the bottom margin forces at
/// least one page break.
pub proof fn lemma_content_overflows_page(s: StateModel, amounts: Seq<int>)
    requires
        s.margin <= s.cursor,
        forall|i: int| 0 <= i < amounts.len() ==> 0 <= #[trigger] amounts[i],
        sum_amounts(amounts) > s.cursor - s.margin,
    ensures
        consume_all_m(s, amounts).pages.len() > s.pages.len(),
    decreases amounts.len(),
{
    lemma_sum_amounts_nonneg(amounts);
    let s1 = vspace_m(s, amounts[0]);
    if s.cursor - amounts[0] < s.margin {
        lemma_consume_pages_monotone(s1, amounts.skip(1));
    } else {
        lemma_content_overflows_page(s1, amounts.skip(1));
    }
}

/// On a fresh document, the one-page budget is `page_height - 2 * margin`:
/// flow content whose required vertical space stays within it produces
/// exactly one page.
pub proof fn lemma_single_page_within_budget(s: StateModel, amounts: Seq<int>)
    requires
        s.pages.len() == 1,
        s.cursor == s.page_height - s.margin,
        forall|i: int| 0 <= i < amounts.len() ==> 0 <= #[trigger] amounts[i],
        sum_amounts(amounts) <= s.page_height - 2 * s.margin,
    ensures
        consume_all_m(s, amounts).pages.len() == 1,
{
    lemma_content_fits_current_page(s, amounts);
}

/// On a fresh document, flow content whose required vertical space exceeds
/// the one-page budget produces more than one page.
pub proof fn lemma_more_pages_beyond_budget(s: StateModel, amounts: Seq<int>)
    requires
        s.pages.len() == 1,
        2 * s.margin <= s.page_height,
        s.cursor == s.page_height - s.margin,
        forall|i: int| 0 <= i < amounts.len() ==> 0 <= #[trigger] amounts[i],
        sum_amounts(amounts) > s.page_height - 2 * s.margin,
    ensures
        consume_all_m(s, amounts).pages.len() > 1,
{
    lemma_content_overflows_page(s, amounts);
}

/// Pages are append-only: `b` extends `a` when every already-finished page
/// of `a` is unchanged in `b`, and `a`'s current (last) page is a prefix of
/// the page `b` holds at that position.
pub open spec fn pages_extend(a: Seq<Seq<PrimModel>>, b: Seq<Seq<PrimModel>>) -> bool {
    &&& 1 <= a.len() <= b.len()
    &&& (forall|i: int| 0 <= i < a.len() - 1 ==> a[i] == #[trigger] b[i])
    &&& a.last().is_prefix_of(b[a.len() - 1])
}

pub proof fn lemma_extend_refl(a: Seq<Seq<PrimModel>>)
    requires
        a.len() >= 1,
    ensures
        pages_extend(a, a),
{
    assert(a.last().is_prefix_of(a[a.len() - 1]));
}

pub proof fn lemma_extend_trans(a: Seq<Seq<PrimModel>>, b: Seq<Seq<PrimModel>>, c: Seq<
    Seq<PrimModel>,
>)
    requires
        pages_extend(a, b),
        pages_extend(b, c),
    ensures
        pages_extend(a, c),
{
    assert forall|i: int| 0 <= i < a.len() - 1 implies a[i] == #[trigger] c[i] by {
        assert(a[i] == b[i]);
    }
    if a.len() == b.len() {
        assert(b[a.len() - 1] == b.last());
        assert(a.last().is_prefix_of(b.last()));
        assert(b.last().is_prefix_of(c[a.len() - 1]));
        assert(a.last() =~= b.last().subrange(0, a.last().len() as int));
        assert(b.last() =~= c[a.len() - 1].subrange(0, b.last().len() as int));
        assert(a.last() =~= c[a.len() - 1].subrange(0, a.last().len() as int));
    } else {
        assert(b[a.len() - 1] == c[a.len() - 1]);
    }
}

pub proof fn lemma_extend_push_prim(s: StateModel, p: PrimModel)
    requires
        s.pages.len() >= 1,
    ensures
        pages_extend(s.pages, push_prim_m(s, p).pages),
{
    let b = push_prim_m(s, p).pages;
    assert(s.pages.last().is_prefix_of(b[s.pages.len() - 1]));
}

pub proof fn lemma_extend_fresh(s: StateModel)
    requires
        s.pages.len() >= 1,
    ensures
        pages_extend(s.pages, fresh_page_m(s).pages),
{
    let b = fresh_page_m(s).pages;
    assert(s.pages.last().is_prefix_of(b[s.pages.len() - 1]));
}

pub proof fn lemma_extend_vspace(s: StateModel, amount: int)
    requires
        s.pages.len() >= 1,
    ensures
        pages_extend(s.pages, vspace_m(s, amount).pages),
        vspace_m(s, amount).pages.len() >= 1,
{
    if s.cursor - amount < s.margin {
        lemma_extend_fresh(s);
    } else {
        lemma_extend_refl(s.pages);
    }
}

pub proof fn lemma_extend_write_text(s: StateModel, content: Seq<u8>)
    requires
        s.pages.len() >= 1,
    ensures
        pages_extend(s.pages, write_text_m(s, content).pages),
        write_text_m(s, content).pages.len() >= 1,
{
    let fmt = s.stack.last();
    let width = text_width_m(content.len() as int, fmt.font_size as int);
    let x = text_x_m(s, width);
    let s1 = match fmt.background_color {
        Some(bg) => push_prim_m(
            s,
            PrimModel::Rect {
                x1: x - 200,
                y1: s.cursor + 400,
                x2: x + width + 200,
                y2: s.cursor - fmt.font_size as int * 35,
                fill: bg,
            },
        ),
        None => s,
    };
    match fmt.background_color {
        Some(bg) => {
            lemma_extend_push_prim(
                s,
                PrimModel::Rect {
                    x1: x - 200,
                    y1: s.cursor + 400,
                    x2: x + width + 200,
                    y2: s.cursor - fmt.font_size as int * 35,
                    fill: bg,
                },
            );
        },
        None => {
            lemma_extend_refl(s.pages);
        },
    }
    let run = PrimModel::TextRun {
        x,
        y: s.cursor,
        content,
        font_size: fmt.font_size as int,
        color: fmt.color,
        is_bold: fmt.is_bold,
        is_italic: fmt.is_italic,
    };
    let s2 = push_prim_m(s1, run);
    lemma_extend_push_prim(s1, run);
    lemma_extend_trans(s.pages, s1.pages, s2.pages);
    if fmt.is_underline {
        let line = PrimModel::Segment {
            x1: x,
            y1: s.cursor - 100,
            x2: x + width,
            y2: s.cursor - 100,
            color: fmt.color,
        };
        lemma_extend_push_prim(s2, line);
        lemma_extend_trans(s.pages, s2.pages, push_prim_m(s2, line).pages);
    }
}

pub proof fn lemma_extend_image(s: StateModel, wpx: int, hpx: int, data_id: int)
    requires
        s.pages.len() >= 1,
    ensures
        pages_extend(s.pages, image_m(s, wpx, hpx, data_id).pages),
        image_m(s, wpx, hpx, data_id).pages.len() >= 1,
{
    let w = scaled_width_m(s, wpx);
    let h = scaled_height_m(s, wpx, hpx);
    let s1 = if s.cursor - h < s.margin {
        fresh_page_m(s)
    } else {
        s
    };
    if s.cursor - h < s.margin {
        lemma_extend_fresh(s);
    } else {
        lemma_extend_refl(s.pages);
    }
    let x = half_gap(s.page_width, w);
    let p = PrimModel::ImageBox {
        x,
        y: s1.cursor - h,
        width: w,
        height: h,
        width_px: wpx,
        height_px: hpx,
        data_id,
    };
    lemma_extend_push_prim(s1, p);
    lemma_extend_trans(s.pages, s1.pages, push_prim_m(s1, p).pages);
}

pub proof fn lemma_extend_hrule(s: StateModel)
    requires
        s.pages.len() >= 1,
    ensures
        pages_extend(s.pages, hrule_m(s).pages),
        hrule_m(s).pages.len() >= 1,
{
    let line = PrimModel::Segment {
        x1: s.margin,
        y1: s.cursor,
        x2: s.page_width - s.margin,
        y2: s.cursor,
        color: Color { r: 0, g: 0, b: 0 },
    };
    lemma_extend_push_prim(s, line);
}

pub proof fn lemma_extend_list_marker(s: StateModel)
    requires
        s.pages.len() >= 1,
    ensures
        pages_extend(s.pages, list_marker_m(s).pages),
        list_marker_m(s).pages.len() >= 1,
{
    let fmt = s.stack.last();
    lemma_extend_push_prim(
        s,
        PrimModel::TextRun {
            x: s.margin,
            y: s.cursor,
            content: seq![226u8, 128u8, 162u8],
            font_size: fmt.font_size as int,
            color: fmt.color,
            is_bold: fmt.is_bold,
            is_italic: fmt.is_italic,
        },
    );
}

pub proof fn lemma_extend_quote_border(s: StateModel)
    requires
        s.pages.len() >= 1,
    ensures
        pages_extend(s.pages, quote_border_m(s).pages),
        quote_border_m(s).pages.len() >= 1,
{
    lemma_extend_push_prim(
        s,
        PrimModel::Segment {
            x1: s.margin + 200,
            y1: s.cursor + 200,
            x2: s.margin + 200,
            y2: s.cursor - 2000,
            color: Color { r: 863, g: 863, b: 863 },
        },
    );
}


/// The scaled height of an image is never negative.
pub proof fn lemma_scaled_height_nonneg(s: StateModel, wpx: int, hpx: int)
    requires
        0 <= wpx,
        0 <= hpx,
    ensures
        0 <= scaled_height_m(s, wpx, hpx),
{
    if wpx * 100 > avail_width_m(s) {
        assert(hpx * 100 * avail_width_m(s) / (wpx * 100) >= 0) by (nonlinear_arith)
            requires
                0 <= hpx,
                0 <= avail_width_m(s),
                0 < wpx * 100,
        ;
    }
}

/// Placing an image that stays on the current page leaves the cursor no
/// higher than it was.
pub proof fn lemma_image_cursor_descends(s: StateModel, wpx: int, hpx: int, data_id: int)
    requires
        0 <= wpx,
        0 <= hpx,
    ensures
        image_m(s, wpx, hpx, data_id).pages.len() == s.pages.len() ==> image_m(
            s,
            wpx,
            hpx,
            data_id,
        ).cursor <= s.cursor,
{
    lemma_scaled_height_nonneg(s, wpx, hpx);
}

/// An image whose scaled height does not fit above the bottom margin is
/// placed entirely on a fresh page, never split: the look-ahead allocates
/// the page first, and the image alone stands on it, its top at the top
/// margin; when its height is within the page budget its bottom stays above
/// the bottom margin too.
pub proof fn lemma_tall_image_on_fresh_page(s: StateModel, wpx: int, hpx: int, data_id: int)
    requires
        s.pages.len() >= 1,
        s.cursor - scaled_height_m(s, wpx, hpx) < s.margin,
    ensures
        ({
            let t = image_m(s, wpx, hpx, data_id);
            let w = scaled_width_m(s, wpx);
            let h = scaled_height_m(s, wpx, hpx);
            &&& t.pages.len() == s.pages.len() + 1
            &&& t.pages.last() == seq![
                PrimModel::ImageBox {
                    x: half_gap(s.page_width, w),
                    y: s.page_height - s.margin - h,
                    width: w,
                    height: h,
                    width_px: wpx,
                    height_px: hpx,
                    data_id,
                },
            ]
            &&& (h <= s.page_height - 2 * s.margin ==> s.page_height - s.margin - h >= s.margin)
        }),
{
    let t = image_m(s, wpx, hpx, data_id);
    let w = scaled_width_m(s, wpx);
    let h = scaled_height_m(s, wpx, hpx);
    let s1 = fresh_page_m(s);
    assert(t.pages.last() =~= seq![
        PrimModel::ImageBox {
            x: half_gap(s.page_width, w),
            y: s.page_height - s.margin - h,
            width: w,
            height: h,
            width_px: wpx,
            height_px: hpx,
            data_id,
        },
    ]);
}

/// A drop of the cursor that saturates at `CURSOR_FLOOR` instead of sinking
/// further.
pub open spec fn drop_saturated(y: int, d: int) -> int {
    if y - d < CURSOR_FLOOR as int {
        CURSOR_FLOOR as int
    } else {
        y - d
    }
}

/// The estimated width of a text run: character count times font size times
/// a fixed factor — an approximation, not a glyph measurement.
pub open spec fn text_width_m(len: int, font_size: int) -> int {
    len * font_size * 50
}

/// Half of `a - b`, rounded toward zero, as the centering computations use.
pub open spec fn half_gap(a: int, b: int) -> int {
    if b <= a {
        (a - b) / 2
    } else {
        -((b - a) / 2)
    }
}

/// The horizontal start of a text run of the given estimated width under
/// the current alignment.
pub open spec fn text_x_m(s: StateModel, width: int) -> int {
    match s.stack.last().alignment {
        TextAlignment::Left => s.margin,
        TextAlignment::Center => half_gap(s.page_width, width),
        TextAlignment::Right => s.page_width - s.margin - width,
    }
}

/// Writing one text run at the cursor in the current format: an optional
/// background rectangle around the estimated text box, the run itself, and
/// an optional underline just beneath the baseline.  The cursor does not
/// move; the walker spaces after text separately.
pub open spec fn write_text_m(s: StateModel, content: Seq<u8>) -> StateModel {
    let fmt = s.stack.last();
    let width = text_width_m(content.len() as int, fmt.font_size as int);
    let x = text_x_m(s, width);
    let s1 = match fmt.background_color {
        Some(bg) => push_prim_m(
            s,
            PrimModel::Rect {
                x1: x - 200,
                y1: s.cursor + 400,
                x2: x + width + 200,
                y2: s.cursor - fmt.font_size as int * 35,
                fill: bg,
            },
        ),
        None => s,
    };
    let s2 = push_prim_m(
        s1,
        PrimModel::TextRun {
            x,
            y: s.cursor,
            content,
            font_size: fmt.font_size as int,
            color: fmt.color,
            is_bold: fmt.is_bold,
            is_italic: fmt.is_italic,
        },
    );
    if fmt.is_underline {
        push_prim_m(
            s2,
            PrimModel::Segment {
                x1: x,
                y1: s.cursor - 100,
                x2: x + width,
                y2: s.cursor - 100,
                color: fmt.color,
            },
        )
    } else {
        s2
    }
}

/// The content width left between the margins, floored at zero.
pub open spec fn avail_width_m(s: StateModel) -> int {
    if s.page_width - 2 * s.margin > 0 {
        s.page_width - 2 * s.margin
    } else {
        0
    }
}

/// An image's placed width: one pixel maps to one millimetre, scaled down
/// uniformly when wider than the content width.
pub open spec fn scaled_width_m(s: StateModel, wpx: int) -> int {
    if wpx * 100 > avail_width_m(s) {
        avail_width_m(s)
    } else {
        wpx * 100
    }
}

/// An image's placed height under the same uniform scale.
pub open spec fn scaled_height_m(s: StateModel, wpx: int, hpx: int) -> int {
    if wpx * 100 > avail_width_m(s) {
        hpx * 100 * avail_width_m(s) / (wpx * 100)
    } else {
        hpx * 100
    }
}

/// Placing one image: scale to the content width, allocate a fresh page
/// first whenever the scaled height does not fit above the bottom margin
/// (the look-ahead that keeps an image on one page), center horizontally,
/// draw at the cursor minus the scaled height, then drop the cursor by the
/// scaled height plus a fixed 10mm gap.
pub open spec fn image_m(s: StateModel, wpx: int, hpx: int, data_id: int) -> StateModel {
    let w = scaled_width_m(s, wpx);
    let h = scaled_height_m(s, wpx, hpx);
    let s1 = if s.cursor - h < s.margin {
        fresh_page_m(s)
    } else {
        s
    };
    let x = half_gap(s.page_width, w);
    let s2 = push_prim_m(
        s1,
        PrimModel::ImageBox {
            x,
            y: s1.cursor - h,
            width: w,
            height: h,
            width_px: wpx,
            height_px: hpx,
            data_id,
        },
    );
    StateModel { cursor: s2.cursor - h - 1000, ..s2 }
}

/// The list-item marker: a bullet glyph drawn at the left margin in the
/// current format, without moving the cursor.
pub open spec fn list_marker_m(s: StateModel) -> StateModel {
    let fmt = s.stack.last();
    push_prim_m(
        s,
        PrimModel::TextRun {
            x: s.margin,
            y: s.cursor,
            content: seq![226u8, 128u8, 162u8],
            font_size: fmt.font_size as int,
            color: fmt.color,
            is_bold: fmt.is_bold,
            is_italic: fmt.is_italic,
        },
    )
}

/// The block quote's left border: a short vertical stroke just right of the
/// margin, in the light border color.
pub open spec fn quote_border_m(s: StateModel) -> StateModel {
    push_prim_m(
        s,
        PrimModel::Segment {
            x1: s.margin + 200,
            y1: s.cursor + 200,
            x2: s.margin + 200,
            y2: s.cursor - 2000,
            color: Color { r: 863, g: 863, b: 863 },
        },
    )
}

/// Widening the margin by `d`, saturating at `MARGIN_CEIL`.
pub open spec fn widen_margin_m(s: StateModel, d: int) -> StateModel {
    StateModel {
        margin: if s.margin + d > MARGIN_CEIL as int {
            MARGIN_CEIL as int
        } else {
            s.margin + d
        },
        ..s
    }
}

/// The horizontal rule: a stroked segment across the content width at the
/// cursor, then a fixed 10mm drop with no page-overflow check (the rule
/// deliberately bypasses pagination).
pub open spec fn hrule_m(s: StateModel) -> StateModel {
    let line = PrimModel::Segment {
        x1: s.margin,
        y1: s.cursor,
        x2: s.page_width - s.margin,
        y2: s.cursor,
        color: Color { r: 0, g: 0, b: 0 },
    };
    StateModel { cursor: drop_saturated(s.cursor, 1000), ..push_prim_m(s, line) }
}

impl RenderState {
    /// Pages and stack are non-empty, the geometry is positive and bounded,
    /// every stacked format is well-formed, and the cursor sits between the
    /// floor and the page top.
    pub open spec fn wf(&self) -> bool {
        &&& self.pages@.len() >= 1
        &&& self.format_stack@.len() >= 1
        &&& forall|i: int|
            0 <= i < self.format_stack@.len() ==> (#[trigger] self.format_stack@[i]).wf()
        &&& 0 < self.margin <= MARGIN_CEIL
        &&& 0 < self.page_width <= PAGE_DIM_CEIL
        &&& 0 < self.page_height <= PAGE_DIM_CEIL
        &&& CURSOR_FLOOR <= self.cursor_y <= PAGE_DIM_CEIL
    }

    /// The base style of a fresh document: 11pt near-black left-aligned
    /// text.
    pub open spec fn base_format() -> TextFormat {
        TextFormat {
            font_size: 11,
            color: Color { r: 67, g: 67, b: 67 },
            background_color: None,
            is_bold: false,
            is_italic: false,
            is_underline: false,
            alignment: TextAlignment::Left,
        }
    }

    /// The starting state: one empty standard page (210 by 297 mm), a 20mm
    /// margin, the cursor at the top margin, and the base format as the
    /// whole stack.
    pub open spec fn initial_model() -> StateModel {
        StateModel {
            pages: seq![Seq::<PrimModel>::empty()],
            cursor: 27700,
            margin: 2000,
            page_width: 21000,
            page_height: 29700,
            stack: seq![Self::base_format()],
        }
    }

    pub fn new() -> (r: RenderState)
        ensures
            r.wf(),
            r@ == Self::initial_model(),
    {
        let mut pages: Vec<Page> = Vec::new();
        pages.push(Page { items: Vec::new() });
        let mut format_stack: Vec<TextFormat> = Vec::new();
        format_stack.push(
            TextFormat {
                font_size: 11,
                color: Color { r: 67, g: 67, b: 67 },
                background_color: None,
                is_bold: false,
                is_italic: false,
                is_underline: false,
                alignment: TextAlignment::Left,
            },
        );
        let r = RenderState {
            pages,
            cursor_y: 27700,
            margin: 2000,
            page_width: 21000,
            page_height: 29700,
            format_stack,
        };
        proof {
            assert(r@.pages =~~= Self::initial_model().pages);
            assert(r@.stack =~= Self::initial_model().stack);
            assert(r@ =~~= Self::initial_model());
        }
        r
    }


    /// The state a configuration asks for: one empty page of the given
    /// geometry, the cursor at the top margin, and a base format carrying
    /// the configured font size.
    pub open spec fn config_model(cfg: &Config) -> StateModel {
        StateModel {
            pages: seq![Seq::<PrimModel>::empty()],
            cursor: cfg.page_height - cfg.margin,
            margin: cfg.margin as int,
            page_width: cfg.page_width as int,
            page_height: cfg.page_height as int,
            stack: seq![
                TextFormat {
                    font_size: cfg.font_size,
                    color: Color { r: 67, g: 67, b: 67 },
                    background_color: None,
                    is_bold: false,
                    is_italic: false,
                    is_underline: false,
                    alignment: TextAlignment::Left,
                },
            ],
        }
    }

    /// Whether a configuration's geometry can back a conversion: a positive
    /// margin leaving room between the margins of bounded page sides, and a
    /// usable font size.
    pub open spec fn config_geometry_ok(cfg: &Config) -> bool {
        &&& 0 < cfg.margin
        &&& 2 * cfg.margin < cfg.page_width <= PAGE_DIM_CEIL
        &&& 2 * cfg.margin < cfg.page_height <= PAGE_DIM_CEIL
        &&& 1 <= cfg.font_size <= FONT_SIZE_CEIL
    }

    /// A starting state from a configuration.  Exactly the configurations
    /// with workable geometry succeed; every other one is refused with a
    /// configuration error.
    pub fn with_config(cfg: &Config) -> (r: Result<RenderState, Mark2PdfError>)
        ensures
            (r matches Ok(s) ==> s.wf() && s@ == Self::config_model(cfg)),
            (r is Ok <==> Self::config_geometry_ok(cfg)),
            (r matches Err(e) ==> e is ConfigError),
    {
        if !(0 < cfg.margin && cfg.margin <= PAGE_DIM_CEIL && cfg.page_width <= PAGE_DIM_CEIL
            && cfg.page_height <= PAGE_DIM_CEIL && 2 * cfg.margin < cfg.page_width && 2
            * cfg.margin < cfg.page_height && 1 <= cfg.font_size && cfg.font_size
            <= FONT_SIZE_CEIL) {
            return Err(
                Mark2PdfError::ConfigError(String::from_str("invalid page geometry or font size")),
            );
        }
        let mut pages: Vec<Page> = Vec::new();
        pages.push(Page { items: Vec::new() });
        let mut format_stack: Vec<TextFormat> = Vec::new();
        format_stack.push(
            TextFormat {
                font_size: cfg.font_size,
                color: Color { r: 67, g: 67, b: 67 },
                background_color: None,
                is_bold: false,
                is_italic: false,
                is_underline: false,
                alignment: TextAlignment::Left,
            },
        );
        let r = RenderState {
            pages,
            cursor_y: cfg.page_height - cfg.margin,
            margin: cfg.margin,
            page_width: cfg.page_width,
            page_height: cfg.page_height,
            format_stack,
        };
        proof {
            assert(r@.pages =~~= Self::config_model(cfg).pages);
            assert(r@.stack =~= Self::config_model(cfg).stack);
            assert(r@ =~~= Self::config_model(cfg));
        }
        Ok(r)
    }

    /// The format currently in effect: the top of the stack.
    pub fn current_format(&self) -> (r: TextFormat)
        requires
            self.wf(),
        ensures
            r == self@.stack.last(),
            r.wf(),
    {
        self.format_stack[self.format_stack.len() - 1]
    }

    /// Enters a styled scope: pushes the derived format.
    pub fn push_format(&mut self, format: TextFormat)
        requires
            old(self).wf(),
            format.wf(),
        ensures
            final(self).wf(),
            final(self)@ == (StateModel { stack: old(self)@.stack.push(format), ..old(self)@ }),
    {
        self.format_stack.push(format);
        proof {
            assert(final(self)@ =~~= (StateModel {
                stack: old(self)@.stack.push(format),
                ..old(self)@
            }));
        }
    }

    /// Leaves a styled scope: pops the top format, but never the base entry.
    pub fn pop_format(&mut self)
        requires
            old(self).wf(),
        ensures
            final(self).wf(),
            final(self)@ == (if old(self)@.stack.len() > 1 {
                StateModel { stack: old(self)@.stack.drop_last(), ..old(self)@ }
            } else {
                old(self)@
            }),
    {
        if self.format_stack.len() > 1 {
            self.format_stack.pop();
            proof {
                assert(final(self)@ =~~= (StateModel {
                    stack: old(self)@.stack.drop_last(),
                    ..old(self)@
                }));
            }
        }
    }

    /// Appends one primitive to the current page.
    fn push_prim(&mut self, p: Primitive)
        requires
            old(self).wf(),
        ensures
            final(self).wf(),
            final(self)@ == push_prim_m(old(self)@, p@),
    {
        let ghost old_pages = self.pages@;
        let mut pg = self.pages.pop().unwrap();
        pg.items.push(p);
        self.pages.push(pg);
        proof {
            let n = old_pages.len() - 1;
            lemma_page_model_push(old_pages.last().items@, p);
            assert(self.pages@ =~= old_pages.update(n, pg));
            lemma_pages_model_update(old_pages, n, pg);
            assert(pages_model(old_pages)[n] == old_pages[n]@);
            assert(final(self)@ =~~= push_prim_m(old(self)@, p@));
        }
    }

    /// Starts a fresh page and resets the cursor to the top margin.
    pub fn start_new_page(&mut self)
        requires
            old(self).wf(),
        ensures
            final(self).wf(),
            final(self)@ == fresh_page_m(old(self)@),
    {
        self.pages.push(Page { items: Vec::new() });
        self.cursor_y = self.page_height - self.margin;
        proof {
            lemma_pages_model_push(old(self).pages@, self.pages@.last());
            assert(page_model(Seq::<Primitive>::empty()) =~= Seq::<PrimModel>::empty());
            assert(final(self)@ =~~= fresh_page_m(old(self)@));
        }
    }

    /// Consumes `amount` of vertical space, allocating a fresh page when the
    /// cursor crosses the bottom margin, exactly as `vspace_m` describes.
    pub fn add_vertical_space(&mut self, amount: i64)
        requires
            old(self).wf(),
            0 <= amount <= SPACE_CEIL,
        ensures
            final(self).wf(),
            final(self)@ == vspace_m(old(self)@, amount as int),
    {
        if self.cursor_y - amount < self.margin {
            self.start_new_page();
        } else {
            self.cursor_y = self.cursor_y - amount;
            proof {
                assert(final(self)@ =~~= vspace_m(old(self)@, amount as int));
            }
        }
    }

    /// Draws the horizontal rule and drops the cursor by 10mm without any
    /// page-overflow check, exactly as `hrule_m` describes.
    pub fn add_horizontal_rule(&mut self)
        requires
            old(self).wf(),
        ensures
            final(self).wf(),
            final(self)@ == hrule_m(old(self)@),
    {
        let p = Primitive::Segment {
            x1: self.margin,
            y1: self.cursor_y,
            x2: self.page_width - self.margin,
            y2: self.cursor_y,
            color: Color { r: 0, g: 0, b: 0 },
        };
        self.push_prim(p);
        if self.cursor_y - 1000 < CURSOR_FLOOR {
            self.cursor_y = CURSOR_FLOOR;
        } else {
            self.cursor_y = self.cursor_y - 1000;
        }
        proof {
            assert(final(self)@ =~~= hrule_m(old(self)@));
        }
    }

    /// Draws one text run at the cursor in the current format, with its
    /// optional background and underline, exactly as `write_text_m`
    /// describes.  The cursor does not move.
    pub fn write_text(&mut self, content: &Vec<u8>)
        requires
            old(self).wf(),
            content@.len() <= TEXT_LEN_CEIL,
        ensures
            final(self).wf(),
            final(self)@ == write_text_m(old(self)@, content@),
    {
        let fmt = self.current_format();
        proof {
            assert(0 <= content@.len() as int * (fmt.font_size as int)
                <= 1_000_000_000_000) by (nonlinear_arith)
                requires
                    0 <= content@.len() <= 1_000_000_000,
                    1 <= fmt.font_size <= 1000,
            ;
        }
        let width: i64 = (content.len() as i64) * fmt.font_size * 50;
        let x: i64 = match fmt.alignment {
            TextAlignment::Left => self.margin,
            TextAlignment::Center => {
                if width <= self.page_width {
                    (self.page_width - width) / 2
                } else {
                    -((width - self.page_width) / 2)
                }
            },
            TextAlignment::Right => self.page_width - self.margin - width,
        };
        if let Some(bg) = fmt.background_color {
            let rect = Primitive::Rect {
                x1: x - 200,
                y1: self.cursor_y + 400,
                x2: x + width + 200,
                y2: self.cursor_y - fmt.font_size * 35,
                fill: bg,
            };
            self.push_prim(rect);
        }
        let run = Primitive::TextRun {
            x,
            y: self.cursor_y,
            content: copy_bytes(content),
            font_size: fmt.font_size,
            color: fmt.color,
            is_bold: fmt.is_bold,
            is_italic: fmt.is_italic,
        };
        self.push_prim(run);
        if fmt.is_underline {
            let line = Primitive::Segment {
                x1: x,
                y1: self.cursor_y - 100,
                x2: x + width,
                y2: self.cursor_y - 100,
                color: fmt.color,
            };
            self.push_prim(line);
        }
        proof {
            assert(final(self)@ =~~= write_text_m(old(self)@, content@));
        }
    }

    /// Places one decoded image of the given pixel dimensions, exactly as
    /// `image_m` describes: scaled to the content width, kept whole on one
    /// page by the look-ahead, centered, and followed by a fixed gap.
    pub fn add_image(&mut self, width_px: u32, height_px: u32, data_id: usize)
        requires
            old(self).wf(),
        ensures
            final(self).wf(),
            final(self)@ == image_m(old(self)@, width_px as int, height_px as int, data_id as int),
    {
        let w_nat: i64 = (width_px as i64) * 100;
        let h_nat: i64 = (height_px as i64) * 100;
        let avail: i64 = if self.page_width - 2 * self.margin > 0 {
            self.page_width - 2 * self.margin
        } else {
            0
        };
        let w: i64;
        let h: i64;
        if w_nat > avail {
            proof {
                assert(0 <= h_nat as int * (avail as int)
                    <= 4_294_967_295_000_000_000) by (nonlinear_arith)
                    requires
                        0 <= h_nat as int <= 429_496_729_500,
                        0 <= avail as int <= 10_000_000,
                ;
            }
            w = avail;
            h = h_nat * avail / w_nat;
            proof {
                assert(h_nat as int * (avail as int) / (w_nat as int) <= h_nat as int) by (nonlinear_arith)
                    requires
                        0 <= h_nat,
                        0 <= avail < w_nat,
                ;
            }
        } else {
            w = w_nat;
            h = h_nat;
        }
        if self.cursor_y - h < self.margin {
            self.start_new_page();
        }
        let x: i64 = if w <= self.page_width {
            (self.page_width - w) / 2
        } else {
            -((w - self.page_width) / 2)
        };
        let p = Primitive::ImageBox { x, y: self.cursor_y - h, width: w, height: h, width_px, height_px, data_id };
        self.push_prim(p);
        self.cursor_y = self.cursor_y - h - 1000;
        proof {
            assert(final(self)@ =~~= image_m(
                old(self)@,
                width_px as int,
                height_px as int,
                data_id as int,
            ));
        }
    }

    /// Draws the list-item bullet at the left margin, exactly as
    /// `list_marker_m` describes.
    pub fn draw_list_marker(&mut self)
        requires
            old(self).wf(),
        ensures
            final(self).wf(),
            final(self)@ == list_marker_m(old(self)@),
    {
        let fmt = self.current_format();
        let bullet: Vec<u8> = vec![226u8, 128u8, 162u8];
        let run = Primitive::TextRun {
            x: self.margin,
            y: self.cursor_y,
            content: bullet,
            font_size: fmt.font_size,
            color: fmt.color,
            is_bold: fmt.is_bold,
            is_italic: fmt.is_italic,
        };
        self.push_prim(run);
        proof {
            assert(final(self)@ =~~= list_marker_m(old(self)@));
        }
    }

    /// Draws the block quote's left border stroke, exactly as
    /// `quote_border_m` describes.
    pub fn draw_quote_border(&mut self)
        requires
            old(self).wf(),
        ensures
            final(self).wf(),
            final(self)@ == quote_border_m(old(self)@),
    {
        let line = Primitive::Segment {
            x1: self.margin + 200,
            y1: self.cursor_y + 200,
            x2: self.margin + 200,
            y2: self.cursor_y - 2000,
            color: Color { r: 863, g: 863, b: 863 },
        };
        self.push_prim(line);
        proof {
            assert(final(self)@ =~~= quote_border_m(old(self)@));
        }
    }

    /// Widens the current left margin by `delta`, saturating at
    /// `MARGIN_CEIL`, exactly as `widen_margin_m` describes.
    pub fn widen_margin(&mut self, delta: i64)
        requires
            old(self).wf(),
            0 <= delta <= 100_000,
        ensures
            final(self).wf(),
            final(self)@ == widen_margin_m(old(self)@, delta as int),
    {
        if self.margin + delta > MARGIN_CEIL {
            self.margin = MARGIN_CEIL;
        } else {
            self.margin = self.margin + delta;
        }
        proof {
            assert(final(self)@ =~~= widen_margin_m(old(self)@, delta as int));
        }
    }

    /// Restores the left margin to an earlier value.
    pub fn set_margin(&mut self, margin: i64)
        requires
            old(self).wf(),
            0 < margin <= MARGIN_CEIL,
        ensures
            final(self).wf(),
            final(self)@ == (StateModel { margin: margin as int, ..old(self)@ }),
    {
        self.margin = margin;
        proof {
            assert(final(self)@ =~~= (StateModel { margin: margin as int, ..old(self)@ }));
        }
    }
}

} // verus!
