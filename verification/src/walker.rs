use vstd::prelude::*;
use crate::arena::Arena;
use crate::arena::Attribute;
use crate::arena::ImageRef;
use crate::arena::node_wf;
use crate::arena::NodeData;
use crate::bytestr::bytes_eq;
use crate::bytestr::trim_bytes;
use crate::bytestr::trim_m;
use crate::color::Color;
use crate::error::Mark2PdfError;
use crate::format::TextAlignment;
use crate::format::TextFormat;
use crate::style::resolve_style;
use crate::style::spec_resolve_style;
use crate::state::RenderState;
use crate::state::StateModel;
use crate::state::fresh_page_m;
use crate::state::hrule_m;
use crate::state::image_m;
use crate::state::lemma_extend_fresh;
use crate::state::lemma_extend_hrule;
use crate::state::lemma_extend_image;
use crate::state::lemma_extend_list_marker;
use crate::state::lemma_extend_quote_border;
use crate::state::lemma_extend_refl;
use crate::state::lemma_extend_trans;
use crate::state::lemma_extend_vspace;
use crate::state::lemma_extend_write_text;
use crate::state::lemma_image_cursor_descends;
use crate::state::list_marker_m;
use crate::state::quote_border_m;
use crate::state::widen_margin_m;
use crate::state::pages_extend;
use crate::state::vspace_m;
use crate::state::write_text_m;
use crate::tag::Tag;
use crate::tag::spec_tag_of;
use crate::tag::tag_of;

verus! {

/// The attribute name `style`.
pub open spec fn style_attr_name() -> Seq<u8> {
    seq![115u8, 116u8, 121u8, 108u8, 101u8]
}

/// The attribute name `class`.
pub open spec fn class_attr_name() -> Seq<u8> {
    seq![99u8, 108u8, 97u8, 115u8, 115u8]
}

/// The attribute name `src`.
pub open spec fn src_attr_name() -> Seq<u8> {
    seq![115u8, 114u8, 99u8]
}

/// The class value `page-break` that forces immediate pagination.
pub open spec fn page_break_value() -> Seq<u8> {
    seq![112u8, 97u8, 103u8, 101u8, 45u8, 98u8, 114u8, 101u8, 97u8, 107u8]
}

/// Whether some attribute carries the given name.
pub open spec fn has_attr(attrs: Seq<Attribute>, name: Seq<u8>) -> bool {
    exists|i: int| 0 <= i < attrs.len() && (#[trigger] attrs[i]).name@ == name
}

/// What a text node does to the state: nothing when its content trims to
/// empty, otherwise one text run in the current format followed by a
/// cursor advance of a fixed fraction (0.35) of the active font size.
pub open spec fn text_node_m(s: StateModel, content: Seq<u8>) -> StateModel {
    if trim_m(content).len() == 0 {
        s
    } else {
        vspace_m(write_text_m(s, content), s.stack.last().font_size as int * 35)
    }
}

/// Every image element under `idx` (itself included) that carries a `src`
/// attribute also carries decoded pixel dimensions.  Rendering such a
/// subtree cannot fail.
pub open spec fn images_decoded(arena: &Arena, idx: int) -> bool
    decreases arena.nodes@.len() - idx,
    when arena.wf() && 0 <= idx < arena.nodes@.len()
{
    let node = arena.nodes@[idx];
    &&& (node.data matches NodeData::Element { tag, attrs, image } ==> !(spec_tag_of(tag@)
        == Tag::Image && has_attr(attrs@, src_attr_name()) && image is None))
    &&& (forall|j: int|
        0 <= j < node.children@.len() ==> images_decoded(
            arena,
            #[trigger] node.children@[j] as int,
        ))
}

/// Whether some attribute is the forced-pagination marker, a `class` of
/// value `page-break`.
pub open spec fn has_page_break(attrs: Seq<Attribute>) -> bool {
    exists|i: int|
        0 <= i < attrs.len() && (#[trigger] attrs[i]).name@ == class_attr_name()
            && attrs[i].value@ == page_break_value()
}

/// A `div` element carrying the forced-pagination class.
pub open spec fn node_is_page_break_marker(d: NodeData) -> bool {
    d matches NodeData::Element { tag, attrs, .. } && spec_tag_of(tag@) == Tag::Division
        && has_page_break(attrs@)
}

/// An image element that names a source.
pub open spec fn node_is_sourced_image(d: NodeData) -> bool {
    d matches NodeData::Element { tag, attrs, .. } && spec_tag_of(tag@) == Tag::Image
        && has_attr(attrs@, src_attr_name())
}

/// The decoded-image field of an element node.
pub open spec fn node_image(d: NodeData) -> Option<ImageRef> {
    match d {
        NodeData::Element { image, .. } => image,
        _ => None,
    }
}

/// A `span`'s style attributes applied to the format in order: color,
/// background color and underline, each only when its declaration parsed.
pub open spec fn span_format_fold(fmt: TextFormat, attrs: Seq<Attribute>, i: int) -> TextFormat
    decreases attrs.len() - i,
{
    if i < 0 || i >= attrs.len() {
        fmt
    } else {
        let f1 = if attrs[i].name@ == style_attr_name() {
            let d = spec_resolve_style(attrs[i].value@);
            let fa = match d.color {
                Some(c) => TextFormat { color: c, ..fmt },
                None => fmt,
            };
            let fb = match d.background_color {
                Some(c) => TextFormat { background_color: Some(c), ..fa },
                None => fa,
            };
            if d.underline {
                TextFormat { is_underline: true, ..fb }
            } else {
                fb
            }
        } else {
            fmt
        };
        span_format_fold(f1, attrs, i + 1)
    }
}

/// A `div`'s style attributes applied to the format in order: alignment
/// and color.
pub open spec fn div_format_fold(fmt: TextFormat, attrs: Seq<Attribute>, i: int) -> TextFormat
    decreases attrs.len() - i,
{
    if i < 0 || i >= attrs.len() {
        fmt
    } else {
        let f1 = if attrs[i].name@ == style_attr_name() {
            let d = spec_resolve_style(attrs[i].value@);
            let fa = match d.alignment {
                Some(al) => TextFormat { alignment: al, ..fmt },
                None => fmt,
            };
            match d.color {
                Some(c) => TextFormat { color: c, ..fa },
                None => fa,
            }
        } else {
            fmt
        };
        div_format_fold(f1, attrs, i + 1)
    }
}

/// The format an element derives for its children: the per-tag table, with
/// `span` and `div` reading their inline styles on top of it.
pub open spec fn derived_format(t: Tag, fmt: TextFormat, attrs: Seq<Attribute>) -> TextFormat {
    if t is Span {
        span_format_fold(fmt, attrs, 0)
    } else if t is Division {
        div_format_fold(fmt, attrs, 0)
    } else {
        tag_child_format(t, fmt)
    }
}

/// The exact effect of visiting one node: the state it leaves behind, and
/// whether the walk of its subtree succeeds.
pub open spec fn node_m(arena: &Arena, idx: int, s: StateModel, root: bool) -> (StateModel, bool)
    decreases arena.nodes@.len() - idx, 2int, 0int,
    when arena.wf() && 0 <= idx < arena.nodes@.len()
{
    match arena.nodes@[idx].data {
        NodeData::Text { content } => (text_node_m(s, content@), true),
        NodeData::Element { .. } => element_m(arena, idx, s, root),
        NodeData::Container => children_m(arena, idx, 0, s),
    }
}

/// The exact effect of one element: the short-circuiting tags first — the
/// rule, the page-break marker, the sourced image — then the general
/// bracket of pre-spacing, decorations, margin widening, the children
/// under the derived format, restoration, and post-spacing.
pub open spec fn element_m(arena: &Arena, idx: int, s: StateModel, root: bool) -> (StateModel, bool)
    decreases arena.nodes@.len() - idx, 1int, 0int,
    when arena.wf() && 0 <= idx < arena.nodes@.len()
{
    match arena.nodes@[idx].data {
        NodeData::Element { tag, attrs, image } => {
            let t = spec_tag_of(tag@);
            if t is Rule {
                (hrule_m(s), true)
            } else if t is Division && has_page_break(attrs@) {
                (fresh_page_m(s), true)
            } else if t is Image && has_attr(attrs@, src_attr_name()) {
                match image {
                    Some(ir) => (
                        image_m(s, ir.width_px as int, ir.height_px as int, ir.data_id as int),
                        true,
                    ),
                    None => (s, false),
                }
            } else {
                let nf = derived_format(t, s.stack.last(), attrs@);
                let s1 = if tag_pre_space(t, root) > 0 {
                    vspace_m(s, tag_pre_space(t, root))
                } else {
                    s
                };
                let s2 = if t is BlockQuote {
                    quote_border_m(s1)
                } else {
                    s1
                };
                let s3 = if t is ListItem {
                    list_marker_m(s2)
                } else {
                    s2
                };
                let s4 = if tag_margin_widen(t) > 0 {
                    widen_margin_m(s3, tag_margin_widen(t))
                } else {
                    s3
                };
                let s5 = StateModel { stack: s4.stack.push(nf), ..s4 };
                let cr = children_m(arena, idx, 0, s5);
                let s6 = StateModel { stack: s.stack, margin: s.margin, ..cr.0 };
                if cr.1 {
                    if tag_post_space(t) > 0 {
                        (vspace_m(s6, tag_post_space(t)), true)
                    } else {
                        (s6, true)
                    }
                } else {
                    (s6, false)
                }
            }
        },
        _ => (s, true),
    }
}

/// The exact effect of visiting the children of node `idx` from position
/// `i` on, in document order, stopping at the first failing child.
pub open spec fn children_m(arena: &Arena, idx: int, i: int, s: StateModel) -> (StateModel, bool)
    decreases arena.nodes@.len() - idx, 0int, arena.nodes@[idx].children@.len() - i,
    when arena.wf() && 0 <= idx < arena.nodes@.len() && 0 <= i
    via children_m_decreases
{
    let kids = arena.nodes@[idx].children@;
    if i >= kids.len() {
        (s, true)
    } else {
        let r = node_m(arena, kids[i] as int, s, false);
        if r.1 {
            children_m(arena, idx, i + 1, r.0)
        } else {
            r
        }
    }
}

#[via_fn]
proof fn children_m_decreases(arena: &Arena, idx: int, i: int, s: StateModel) {
    assert(node_wf(&arena.nodes@[idx], idx, arena.nodes@.len() as int));
}

fn is_style_attr(a: &Attribute) -> (r: bool)
    ensures
        r == (a.name@ == style_attr_name()),
{
    let style_name: Vec<u8> = vec![115u8, 116u8, 121u8, 108u8, 101u8];
    bytes_eq(&a.name, &style_name)
}

fn is_class_page_break(a: &Attribute) -> (r: bool)
    ensures
        r == (a.name@ == class_attr_name() && a.value@ == page_break_value()),
{
    let class_name: Vec<u8> = vec![99u8, 108u8, 97u8, 115u8, 115u8];
    let page_break: Vec<u8> = vec![112u8, 97u8, 103u8, 101u8, 45u8, 98u8, 114u8, 101u8, 97u8, 107u8];
    bytes_eq(&a.name, &class_name) && bytes_eq(&a.value, &page_break)
}

fn is_src_attr(a: &Attribute) -> (r: bool)
    ensures
        r == (a.name@ == src_attr_name()),
{
    let src_name: Vec<u8> = vec![115u8, 114u8, 99u8];
    bytes_eq(&a.name, &src_name)
}

/// The format a tag derives for its children from the current one.  The
/// `span` and `div` tags additionally read their inline `style` attribute;
/// that delta is applied on top of this table.
pub open spec fn tag_child_format(t: Tag, fmt: TextFormat) -> TextFormat {
    match t {
        Tag::Heading1 => TextFormat { font_size: 24, is_bold: true, ..fmt },
        Tag::Heading2 => TextFormat { font_size: 20, is_bold: true, ..fmt },
        Tag::Heading3 => TextFormat { font_size: 16, is_bold: true, ..fmt },
        Tag::Heading4 => TextFormat { font_size: 14, is_bold: true, ..fmt },
        Tag::Heading5 => TextFormat { font_size: 11, is_bold: true, ..fmt },
        Tag::Heading6 => TextFormat {
            font_size: 10,
            is_bold: true,
            color: Color { r: 400, g: 400, b: 400 },
            ..fmt
        },
        Tag::Strong => TextFormat { is_bold: true, ..fmt },
        Tag::Emphasis => TextFormat { is_italic: true, ..fmt },
        Tag::Underlined => TextFormat { is_underline: true, ..fmt },
        Tag::Code => TextFormat {
            font_size: 11,
            background_color: Some(Color { r: 973, g: 973, b: 973 }),
            ..fmt
        },
        Tag::Preformatted => TextFormat {
            font_size: 11,
            background_color: Some(Color { r: 973, g: 973, b: 973 }),
            ..fmt
        },
        Tag::Anchor => TextFormat {
            color: Color { r: 204, g: 596, b: 859 },
            is_underline: true,
            ..fmt
        },
        Tag::BlockQuote => TextFormat {
            color: Color { r: 400, g: 400, b: 400 },
            is_italic: true,
            alignment: TextAlignment::Left,
            ..fmt
        },
        Tag::TableHeader => TextFormat {
            is_bold: true,
            background_color: Some(Color { r: 973, g: 973, b: 973 }),
            ..fmt
        },
        _ => fmt,
    }
}

/// The vertical space a tag consumes before its children, in hundredths of
/// a millimetre.  A paragraph or line break at the very root consumes none.
pub open spec fn tag_pre_space(t: Tag, root: bool) -> int {
    match t {
        Tag::Heading1 => 2000,
        Tag::Heading2 => 1500,
        Tag::Heading3 => 1000,
        Tag::Heading4 => 800,
        Tag::Heading5 => 600,
        Tag::Heading6 => 600,
        Tag::Paragraph | Tag::LineBreak => if root { 0 } else { 1000 },
        Tag::Preformatted => 1000,
        Tag::BlockQuote => 1000,
        Tag::UnorderedList | Tag::OrderedList => 100,
        Tag::ListItem => 300,
        Tag::Table => 1000,
        Tag::TableRow => 500,
        _ => 0,
    }
}

/// The vertical space a tag consumes after its children.
pub open spec fn tag_post_space(t: Tag) -> int {
    match t {
        Tag::Paragraph | Tag::Heading1 | Tag::Heading2 | Tag::Heading3 | Tag::Heading4
            | Tag::Heading5 | Tag::Heading6 | Tag::Division | Tag::BlockQuote | Tag::Table
            | Tag::TableRow | Tag::Preformatted => 1000,
        Tag::UnorderedList | Tag::OrderedList => 400,
        _ => 0,
    }
}

/// How far a tag widens the left margin for its children: the block
/// quote's text inset, and the cell and list-item padding.
pub open spec fn tag_margin_widen(t: Tag) -> int {
    match t {
        Tag::BlockQuote => 1500,
        Tag::ListItem | Tag::TableCell => 500,
        _ => 0,
    }
}

/// The per-tag format table, exactly as `tag_child_format` gives it.
fn derive_tag_format(t: Tag, fmt: TextFormat) -> (nf: TextFormat)
    requires
        fmt.wf(),
    ensures
        nf == tag_child_format(t, fmt),
        nf.wf(),
{
    let mut nf = fmt;
    match t {
        Tag::Heading1 => {
            nf.font_size = 24;
            nf.is_bold = true;
        },
        Tag::Heading2 => {
            nf.font_size = 20;
            nf.is_bold = true;
        },
        Tag::Heading3 => {
            nf.font_size = 16;
            nf.is_bold = true;
        },
        Tag::Heading4 => {
            nf.font_size = 14;
            nf.is_bold = true;
        },
        Tag::Heading5 => {
            nf.font_size = 11;
            nf.is_bold = true;
        },
        Tag::Heading6 => {
            nf.font_size = 10;
            nf.is_bold = true;
            nf.color = Color { r: 400, g: 400, b: 400 };
        },
        Tag::Strong => {
            nf.is_bold = true;
        },
        Tag::Emphasis => {
            nf.is_italic = true;
        },
        Tag::Underlined => {
            nf.is_underline = true;
        },
        Tag::Code => {
            nf.font_size = 11;
            nf.background_color = Some(Color { r: 973, g: 973, b: 973 });
        },
        Tag::Preformatted => {
            nf.font_size = 11;
            nf.background_color = Some(Color { r: 973, g: 973, b: 973 });
        },
        Tag::Anchor => {
            nf.color = Color { r: 204, g: 596, b: 859 };
            nf.is_underline = true;
        },
        Tag::BlockQuote => {
            nf.color = Color { r: 400, g: 400, b: 400 };
            nf.is_italic = true;
            nf.alignment = TextAlignment::Left;
        },
        Tag::TableHeader => {
            nf.is_bold = true;
            nf.background_color = Some(Color { r: 973, g: 973, b: 973 });
        },
        _ => {},
    }
    nf
}

fn pre_space_for(t: Tag, root: bool) -> (r: i64)
    ensures
        r == tag_pre_space(t, root),
        0 <= r <= 2000,
{
    match t {
        Tag::Heading1 => 2000,
        Tag::Heading2 => 1500,
        Tag::Heading3 => 1000,
        Tag::Heading4 => 800,
        Tag::Heading5 => 600,
        Tag::Heading6 => 600,
        Tag::Paragraph | Tag::LineBreak => if root { 0 } else { 1000 },
        Tag::Preformatted => 1000,
        Tag::BlockQuote => 1000,
        Tag::UnorderedList | Tag::OrderedList => 100,
        Tag::ListItem => 300,
        Tag::Table => 1000,
        Tag::TableRow => 500,
        _ => 0,
    }
}

fn post_space_for(t: Tag) -> (r: i64)
    ensures
        r == tag_post_space(t),
        0 <= r <= 1000,
{
    match t {
        Tag::Paragraph | Tag::Heading1 | Tag::Heading2 | Tag::Heading3 | Tag::Heading4
            | Tag::Heading5 | Tag::Heading6 | Tag::Division | Tag::BlockQuote | Tag::Table
            | Tag::TableRow | Tag::Preformatted => 1000,
        Tag::UnorderedList | Tag::OrderedList => 400,
        _ => 0,
    }
}

fn margin_widen_for(t: Tag) -> (r: i64)
    ensures
        r == tag_margin_widen(t),
        0 <= r <= 1500,
{
    match t {
        Tag::BlockQuote => 1500,
        Tag::ListItem | Tag::TableCell => 500,
        _ => 0,
    }
}

/// Visits the children of node `idx` in document order, stopping at the
/// first failing child.  The format stack and margin come back exactly as
/// they went in — every child restores them — and the pages only extend.
fn process_children(arena: &Arena, idx: usize, state: &mut RenderState) -> (r: Result<
    (),
    Mark2PdfError,
>)
    requires
        arena.wf(),
        idx < arena.nodes@.len(),
        old(state).wf(),
    ensures
        final(state).wf(),
        final(state)@.stack == old(state)@.stack,
        final(state)@.margin == old(state)@.margin,
        final(state)@.page_width == old(state)@.page_width,
        final(state)@.page_height == old(state)@.page_height,
        pages_extend(old(state)@.pages, final(state)@.pages),
        (final(state)@.pages.len() == old(state)@.pages.len() ==> final(state)@.cursor
            <= old(state)@.cursor),
        (r matches Err(e) ==> e is ImageError),
        ((forall|j: int|
            0 <= j < arena.nodes@[idx as int].children@.len() ==> images_decoded(
                arena,
                #[trigger] arena.nodes@[idx as int].children@[j] as int,
            )) ==> r is Ok),
        (arena.nodes@[idx as int].children@.len() == 0 ==> r is Ok && final(state)@ == old(
            state,
        )@),
        ({
            let cm = children_m(arena, idx as int, 0, old(state)@);
            &&& final(state)@ == cm.0
            &&& (r is Ok <==> cm.1)
        }),
    decreases arena.nodes@.len() - idx, 0int,
{
    proof {
        assert(node_wf(&arena.nodes@[idx as int], idx as int, arena.nodes@.len() as int));
        lemma_extend_refl(old(state)@.pages);
    }
    let n = arena.nodes[idx].children.len();
    let mut i: usize = 0;
    while i < n
        invariant
            arena.wf(),
            idx < arena.nodes@.len(),
            n == arena.nodes@[idx as int].children@.len(),
            i <= n,
            node_wf(&arena.nodes@[idx as int], idx as int, arena.nodes@.len() as int),
            state.wf(),
            state@.stack == old(state)@.stack,
            state@.margin == old(state)@.margin,
            state@.page_width == old(state)@.page_width,
            state@.page_height == old(state)@.page_height,
            pages_extend(old(state)@.pages, state@.pages),
            (state@.pages.len() == old(state)@.pages.len() ==> state@.cursor <= old(
                state,
            )@.cursor),
            (i == 0 ==> *state == *old(state)),
            children_m(arena, idx as int, 0, old(state)@) == children_m(
                arena,
                idx as int,
                i as int,
                state@,
            ),
        decreases n - i,
    {
        let c = arena.nodes[idx].children[i];
        let ghost before = state@;
        let res = process_node(arena, c, state, false);
        proof {
            lemma_extend_trans(old(state)@.pages, before.pages, state@.pages);
        }
        match res {
            Ok(()) => {},
            Err(e) => {
                proof {
                    assert(!images_decoded(arena, c as int));
                    assert(children_m(arena, idx as int, i as int, before) == (state@, false));
                }
                return Err(e);
            },
        }
        i += 1;
    }
    proof {
        assert(children_m(arena, idx as int, n as int, state@) == (state@, true));
    }
    Ok(())
}

/// Dispatches one element: derives the child format from the tag (and, for
/// `span` and `div`, from the inline `style` attribute), consumes the
/// tag's pre-spacing, draws its decorations, temporarily widens the margin
/// where the tag asks for it, visits the children under the derived format,
/// restores stack and margin — on every exit path, a failing child
/// included — and consumes the tag's post-spacing.  The short-circuiting
/// tags return without visiting children: the horizontal rule after
/// drawing, a sourced image after placing it, and the page-break marker
/// right after allocating the fresh page.
#[verifier::rlimit(60)]
#[verifier::loop_isolation(false)]
fn process_element(
    arena: &Arena,
    idx: usize,
    state: &mut RenderState,
    root: bool,
    tag: &Vec<u8>,
    attrs: &Vec<Attribute>,
    image: &Option<ImageRef>,
) -> (r: Result<(), Mark2PdfError>)
    requires
        arena.wf(),
        idx < arena.nodes@.len(),
        old(state).wf(),
        (arena.nodes@[idx as int].data matches NodeData::Element { tag: t2, attrs: a2, image: i2 }
            && t2 == *tag && a2 == *attrs && i2 == *image),
    ensures
        final(state).wf(),
        final(state)@.stack == old(state)@.stack,
        final(state)@.margin == old(state)@.margin,
        final(state)@.page_width == old(state)@.page_width,
        final(state)@.page_height == old(state)@.page_height,
        pages_extend(old(state)@.pages, final(state)@.pages),
        (final(state)@.pages.len() == old(state)@.pages.len() ==> final(state)@.cursor
            <= old(state)@.cursor),
        (r matches Err(e) ==> e is ImageError),
        (images_decoded(arena, idx as int) ==> r is Ok),
        (spec_tag_of(tag@) == Tag::Rule ==> r is Ok && final(state)@ == hrule_m(old(state)@)),
        (spec_tag_of(tag@) == Tag::Division && has_page_break(attrs@) ==> r is Ok && final(state)@
            == fresh_page_m(old(state)@)),
        (spec_tag_of(tag@) == Tag::Image && has_attr(attrs@, src_attr_name()) ==> (match image {
            Some(ir) => r is Ok && final(state)@ == image_m(
                old(state)@,
                ir.width_px as int,
                ir.height_px as int,
                ir.data_id as int,
            ),
            None => r is Err && final(state)@ == old(state)@,
        })),
        ({
            let em = element_m(arena, idx as int, old(state)@, root);
            &&& final(state)@ == em.0
            &&& (r is Ok <==> em.1)
        }),
    decreases arena.nodes@.len() - idx, 1int,
{
    proof {
        assert(node_wf(&arena.nodes@[idx as int], idx as int, arena.nodes@.len() as int));
        lemma_extend_refl(old(state)@.pages);
    }
    let t = tag_of(tag);
    let fmt = state.current_format();
    let mut nf = derive_tag_format(t, fmt);
    let old_margin = state.margin;
    match t {
        Tag::Span => {
            let mut ai: usize = 0;
            while ai < attrs.len()
                invariant
                    ai <= attrs@.len(),
                    nf.wf(),
                    state.wf(),
                    *state == *old(state),
                    span_format_fold(fmt, attrs@, 0) == span_format_fold(nf, attrs@, ai as int),
                decreases attrs@.len() - ai,
            {
                let a = &attrs[ai];
                if is_style_attr(a) {
                    let delta = resolve_style(&a.value);
                    if let Some(c) = delta.color {
                        nf.color = c;
                    }
                    if let Some(c) = delta.background_color {
                        nf.background_color = Some(c);
                    }
                    if delta.underline {
                        nf.is_underline = true;
                    }
                }
                ai += 1;
            }
        },
        Tag::Division => {
            let mut ai: usize = 0;
            while ai < attrs.len()
                invariant
                    ai <= attrs@.len(),
                    nf.wf(),
                    state.wf(),
                    *state == *old(state),
                    forall|k: int|
                        0 <= k < ai ==> !((#[trigger] attrs@[k]).name@ == class_attr_name()
                            && attrs@[k].value@ == page_break_value()),
                    div_format_fold(fmt, attrs@, 0) == div_format_fold(nf, attrs@, ai as int),
                decreases attrs@.len() - ai,
            {
                let a = &attrs[ai];
                if is_style_attr(a) {
                    let delta = resolve_style(&a.value);
                    if let Some(al) = delta.alignment {
                        nf.alignment = al;
                    }
                    if let Some(c) = delta.color {
                        nf.color = c;
                    }
                } else if is_class_page_break(a) {
                    state.start_new_page();
                    proof {
                        lemma_extend_fresh(old(state)@);
                    }
                    return Ok(());
                }
                ai += 1;
            }
        },
        Tag::Rule => {
            state.add_horizontal_rule();
            proof {
                lemma_extend_hrule(old(state)@);
            }
            return Ok(());
        },
        Tag::Image => {
            let mut ai: usize = 0;
            while ai < attrs.len()
                invariant
                    ai <= attrs@.len(),
                    state.wf(),
                    *state == *old(state),
                    forall|k: int| 0 <= k < ai ==> (#[trigger] attrs@[k]).name@ != src_attr_name(),
                decreases attrs@.len() - ai,
            {
                let a = &attrs[ai];
                if is_src_attr(a) {
                    match image {
                        Some(ir) => {
                            state.add_image(ir.width_px, ir.height_px, ir.data_id);
                            proof {
                                lemma_image_cursor_descends(
                                    old(state)@,
                                    ir.width_px as int,
                                    ir.height_px as int,
                                    ir.data_id as int,
                                );
                                lemma_extend_image(
                                    old(state)@,
                                    ir.width_px as int,
                                    ir.height_px as int,
                                    ir.data_id as int,
                                );
                            }
                            return Ok(());
                        },
                        None => {
                            proof {
                                assert(has_attr(attrs@, src_attr_name()));
                                assert(!images_decoded(arena, idx as int));
                            }
                            return Err(
                                Mark2PdfError::ImageError(
                                    String::from_str("image source was not decoded"),
                                ),
                            );
                        },
                    }
                }
                ai += 1;
            }
            proof {
                assert(!has_attr(attrs@, src_attr_name()));
            }
        },
        _ => {},
    }
    let pre_space = pre_space_for(t, root);
    if pre_space > 0 {
        let ghost before = state@;
        state.add_vertical_space(pre_space);
        proof {
            lemma_extend_vspace(before, pre_space as int);
            lemma_extend_trans(old(state)@.pages, before.pages, state@.pages);
        }
    }
    if matches!(t, Tag::BlockQuote) {
        let ghost before = state@;
        state.draw_quote_border();
        proof {
            lemma_extend_quote_border(before);
            lemma_extend_trans(old(state)@.pages, before.pages, state@.pages);
        }
    }
    if matches!(t, Tag::ListItem) {
        let ghost before = state@;
        state.draw_list_marker();
        proof {
            lemma_extend_list_marker(before);
            lemma_extend_trans(old(state)@.pages, before.pages, state@.pages);
        }
    }
    let widen = margin_widen_for(t);
    if widen > 0 {
        state.widen_margin(widen);
    }
    state.push_format(nf);
    let ghost before_children = state@;
    let res = process_children(arena, idx, state);
    proof {
        lemma_extend_trans(old(state)@.pages, before_children.pages, state@.pages);
    }
    state.pop_format();
    state.set_margin(old_margin);
    proof {
        assert(state@.stack =~= old(state)@.stack);
    }
    match res {
        Ok(()) => {},
        Err(e) => {
            proof {
                assert(!images_decoded(arena, idx as int));
                assert(state@ =~~= element_m(arena, idx as int, old(state)@, root).0);
            }
            return Err(e);
        },
    }
    let post_space = post_space_for(t);
    if post_space > 0 {
        let ghost before = state@;
        state.add_vertical_space(post_space);
        proof {
            lemma_extend_vspace(before, post_space as int);
            lemma_extend_trans(old(state)@.pages, before.pages, state@.pages);
        }
    }
    proof {
        assert(state@ =~~= element_m(arena, idx as int, old(state)@, root).0);
    }
    Ok(())
}

/// Visits one node and its subtree, dispatching on its kind and tag as the
/// per-tag table prescribes.  Its exact effect, and whether it succeeds,
/// is `node_m`.  Whatever the node, the format stack and the left margin
/// come back exactly as they went in — also on an error and on the
/// short-circuiting tags — the geometry is untouched, and pages are only
/// appended to.  An image element whose source was never decoded is the
/// one failure, an `ImageError`.  `root` marks the walk's entry call: a
/// paragraph or line break standing as the root consumes no pre-spacing.
pub fn process_node(arena: &Arena, idx: usize, state: &mut RenderState, root: bool) -> (r: Result<
    (),
    Mark2PdfError,
>)
    requires
        arena.wf(),
        idx < arena.nodes@.len(),
        old(state).wf(),
    ensures
        final(state).wf(),
        final(state)@.stack == old(state)@.stack,
        final(state)@.margin == old(state)@.margin,
        final(state)@.page_width == old(state)@.page_width,
        final(state)@.page_height == old(state)@.page_height,
        pages_extend(old(state)@.pages, final(state)@.pages),
        (final(state)@.pages.len() == old(state)@.pages.len() ==> final(state)@.cursor
            <= old(state)@.cursor),
        (r matches Err(e) ==> e is ImageError),
        (images_decoded(arena, idx as int) ==> r is Ok),
        (arena.nodes@[idx as int].data matches NodeData::Text { content } ==> r is Ok && final(state)@ == text_node_m(old(state)@, content@)),
        (arena.nodes@[idx as int].data matches NodeData::Element { tag, .. } && spec_tag_of(tag@)
            == Tag::Rule ==> r is Ok && final(state)@ == hrule_m(old(state)@)),
        (arena.nodes@[idx as int].data is Container && arena.nodes@[idx as int].children@.len()
            == 0 ==> r is Ok && final(state)@ == old(state)@),
        (node_is_page_break_marker(arena.nodes@[idx as int].data) ==> r is Ok && final(state)@
            == fresh_page_m(old(state)@)),
        (node_is_sourced_image(arena.nodes@[idx as int].data) ==> (match node_image(
            arena.nodes@[idx as int].data,
        ) {
            Some(ir) => r is Ok && final(state)@ == image_m(
                old(state)@,
                ir.width_px as int,
                ir.height_px as int,
                ir.data_id as int,
            ),
            None => r is Err && final(state)@ == old(state)@,
        })),
        ({
            let nm = node_m(arena, idx as int, old(state)@, root);
            &&& final(state)@ == nm.0
            &&& (r is Ok <==> nm.1)
        }),
    decreases arena.nodes@.len() - idx, 2int,
{
    proof {
        assert(node_wf(&arena.nodes@[idx as int], idx as int, arena.nodes@.len() as int));
        lemma_extend_refl(old(state)@.pages);
    }
    match &arena.nodes[idx].data {
        NodeData::Text { content } => {
            let trimmed = trim_bytes(content);
            if trimmed.len() > 0 {
                let ghost entry = state@;
                state.write_text(content);
                let fmt = state.current_format();
                let ghost mid = state@;
                state.add_vertical_space(fmt.font_size * 35);
                proof {
                    lemma_extend_write_text(entry, content@);
                    lemma_extend_vspace(mid, fmt.font_size as int * 35);
                    lemma_extend_trans(entry.pages, mid.pages, state@.pages);
                }
            }
            Ok(())
        },
        NodeData::Element { tag, attrs, image } => process_element(
            arena,
            idx,
            state,
            root,
            tag,
            attrs,
            image,
        ),
        NodeData::Container => {
            let res = process_children(arena, idx, state);
            proof {
                if res is Err {
                    assert(!images_decoded(arena, idx as int));
                }
            }
            res
        },
    }
}


/// Renders a whole markup tree into the state: visits the root node (index
/// zero) and its subtree.  The exact effect is `node_m` at the root.  The
/// format stack and margin come back as they went in, the geometry is
/// untouched, pages are only appended to, and the walk succeeds whenever
/// every sourced image in the tree carries decoded dimensions; the one
/// failure mode is an `ImageError`.
pub fn render(arena: &Arena, state: &mut RenderState) -> (r: Result<(), Mark2PdfError>)
    requires
        arena.wf(),
        arena.nodes@.len() >= 1,
        old(state).wf(),
    ensures
        final(state).wf(),
        final(state)@.stack == old(state)@.stack,
        final(state)@.margin == old(state)@.margin,
        final(state)@.page_width == old(state)@.page_width,
        final(state)@.page_height == old(state)@.page_height,
        pages_extend(old(state)@.pages, final(state)@.pages),
        (final(state)@.pages.len() == old(state)@.pages.len() ==> final(state)@.cursor
            <= old(state)@.cursor),
        (r matches Err(e) ==> e is ImageError),
        (images_decoded(arena, 0) ==> r is Ok),
        ({
            let nm = node_m(arena, 0, old(state)@, true);
            &&& final(state)@ == nm.0
            &&& (r is Ok <==> nm.1)
        }),
{
    process_node(arena, 0, state, true)
}

} // verus!
