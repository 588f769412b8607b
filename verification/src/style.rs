use vstd::prelude::*;
use crate::bytestr::bytes_eq;
use crate::bytestr::split_bytes;
use crate::bytestr::split_bytes_m;
use crate::bytestr::trim_bytes;
use crate::bytestr::trim_m;
use crate::bytestr::vecs_model;
use crate::color::Color;
use crate::color::parse_color;
use crate::color::spec_parse_color;
use crate::format::TextAlignment;

verus! {

/// What an inline style declaration list asks for: each recognized property
/// that appeared with a valid value, and nothing else.  Unrecognized
/// properties and malformed values leave the delta untouched — style errors
/// are dropped, never surfaced.
#[derive(Clone, Copy, Debug)]
pub struct StyleDelta {
    pub color: Option<Color>,
    pub background_color: Option<Color>,
    pub underline: bool,
    pub alignment: Option<TextAlignment>,
}

pub open spec fn empty_delta() -> StyleDelta {
    StyleDelta { color: None, background_color: None, underline: false, alignment: None }
}

pub open spec fn color_key() -> Seq<u8> {
    seq![99u8, 111u8, 108u8, 111u8, 114u8]
}

pub open spec fn background_color_key() -> Seq<u8> {
    seq![98u8, 97u8, 99u8, 107u8, 103u8, 114u8, 111u8, 117u8, 110u8, 100u8, 45u8, 99u8, 111u8, 108u8, 111u8, 114u8]
}

pub open spec fn text_decoration_key() -> Seq<u8> {
    seq![116u8, 101u8, 120u8, 116u8, 45u8, 100u8, 101u8, 99u8, 111u8, 114u8, 97u8, 116u8, 105u8, 111u8, 110u8]
}

pub open spec fn underline_value() -> Seq<u8> {
    seq![117u8, 110u8, 100u8, 101u8, 114u8, 108u8, 105u8, 110u8, 101u8]
}

pub open spec fn text_align_key() -> Seq<u8> {
    seq![116u8, 101u8, 120u8, 116u8, 45u8, 97u8, 108u8, 105u8, 103u8, 110u8]
}

pub open spec fn center_value() -> Seq<u8> {
    seq![99u8, 101u8, 110u8, 116u8, 101u8, 114u8]
}

pub open spec fn right_value() -> Seq<u8> {
    seq![114u8, 105u8, 103u8, 104u8, 116u8]
}

/// The alignment a `text-align` value names: `center` and `right` are
/// recognized, anything else means left.
pub open spec fn alignment_of_value(v: Seq<u8>) -> TextAlignment {
    if v == center_value() {
        TextAlignment::Center
    } else if v == right_value() {
        TextAlignment::Right
    } else {
        TextAlignment::Left
    }
}

/// One `property: value` declaration applied to a delta.  A declaration
/// without exactly one colon, an unrecognized property, or an unparsable
/// color is ignored.
pub open spec fn apply_declaration_m(d: StyleDelta, decl: Seq<u8>) -> StyleDelta {
    let kv = split_bytes_m(decl, 58);
    if kv.len() == 2 {
        let k = trim_m(kv[0]);
        let v = trim_m(kv[1]);
        if k == color_key() {
            match spec_parse_color(v) {
                Some(c) => StyleDelta { color: Some(c), ..d },
                None => d,
            }
        } else if k == background_color_key() {
            match spec_parse_color(v) {
                Some(c) => StyleDelta { background_color: Some(c), ..d },
                None => d,
            }
        } else if k == text_decoration_key() {
            if v == underline_value() {
                StyleDelta { underline: true, ..d }
            } else {
                d
            }
        } else if k == text_align_key() {
            StyleDelta { alignment: Some(alignment_of_value(v)), ..d }
        } else {
            d
        }
    } else {
        d
    }
}

/// The declarations from position `i` on, applied in order.
pub open spec fn apply_declarations_from_m(d: StyleDelta, decls: Seq<Seq<u8>>, i: int) -> StyleDelta
    decreases decls.len() - i,
{
    if i < 0 || i >= decls.len() {
        d
    } else {
        apply_declarations_from_m(apply_declaration_m(d, decls[i]), decls, i + 1)
    }
}

/// The delta a whole `style` attribute denotes: its semicolon-separated
/// declarations applied left to right to the empty delta.
pub open spec fn spec_resolve_style(s: Seq<u8>) -> StyleDelta {
    apply_declarations_from_m(empty_delta(), split_bytes_m(s, 59), 0)
}

/// Both optional colors of a delta are in range.
pub open spec fn delta_wf(d: StyleDelta) -> bool {
    &&& (d.color matches Some(c) ==> c.wf())
    &&& (d.background_color matches Some(c) ==> c.wf())
}

fn apply_declaration(d: StyleDelta, decl: &Vec<u8>) -> (r: StyleDelta)
    requires
        delta_wf(d),
    ensures
        r == apply_declaration_m(d, decl@),
        delta_wf(r),
{
    let kv = split_bytes(decl, 58);
    if kv.len() != 2 {
        return d;
    }
    let k = trim_bytes(&kv[0]);
    let v = trim_bytes(&kv[1]);
    proof {
        assert(vecs_model(kv@)[0] == kv@[0]@);
        assert(vecs_model(kv@)[1] == kv@[1]@);
    }
    let color_k: Vec<u8> = vec![99u8, 111u8, 108u8, 111u8, 114u8];
    let background_k: Vec<u8> = vec![
        98u8,
        97u8,
        99u8,
        107u8,
        103u8,
        114u8,
        111u8,
        117u8,
        110u8,
        100u8,
        45u8,
        99u8,
        111u8,
        108u8,
        111u8,
        114u8,
    ];
    let decoration_k: Vec<u8> = vec![
        116u8,
        101u8,
        120u8,
        116u8,
        45u8,
        100u8,
        101u8,
        99u8,
        111u8,
        114u8,
        97u8,
        116u8,
        105u8,
        111u8,
        110u8,
    ];
    let underline_v: Vec<u8> = vec![117u8, 110u8, 100u8, 101u8, 114u8, 108u8, 105u8, 110u8, 101u8];
    let align_k: Vec<u8> = vec![116u8, 101u8, 120u8, 116u8, 45u8, 97u8, 108u8, 105u8, 103u8, 110u8];
    let center_v: Vec<u8> = vec![99u8, 101u8, 110u8, 116u8, 101u8, 114u8];
    let right_v: Vec<u8> = vec![114u8, 105u8, 103u8, 104u8, 116u8];
    if bytes_eq(&k, &color_k) {
        match parse_color(&v) {
            Some(c) => StyleDelta { color: Some(c), ..d },
            None => d,
        }
    } else if bytes_eq(&k, &background_k) {
        match parse_color(&v) {
            Some(c) => StyleDelta { background_color: Some(c), ..d },
            None => d,
        }
    } else if bytes_eq(&k, &decoration_k) {
        if bytes_eq(&v, &underline_v) {
            StyleDelta { underline: true, ..d }
        } else {
            d
        }
    } else if bytes_eq(&k, &align_k) {
        let a = if bytes_eq(&v, &center_v) {
            TextAlignment::Center
        } else if bytes_eq(&v, &right_v) {
            TextAlignment::Right
        } else {
            TextAlignment::Left
        };
        StyleDelta { alignment: Some(a), ..d }
    } else {
        d
    }
}

/// Resolves a `style` attribute into the delta it denotes, exactly as
/// `spec_resolve_style` describes.  Malformed declarations are silently
/// ignored; this never fails.
pub fn resolve_style(value: &Vec<u8>) -> (r: StyleDelta)
    ensures
        r == spec_resolve_style(value@),
        delta_wf(r),
{
    let decls = split_bytes(value, 59);
    let ghost decls_m = split_bytes_m(value@, 59);
    let mut d = StyleDelta { color: None, background_color: None, underline: false, alignment: None };
    let mut i: usize = 0;
    while i < decls.len()
        invariant
            i <= decls.len(),
            vecs_model(decls@) == decls_m,
            spec_resolve_style(value@) == apply_declarations_from_m(d, decls_m, i as int),
            delta_wf(d),
        decreases decls.len() - i,
    {
        proof {
            assert(vecs_model(decls@)[i as int] == decls@[i as int]@);
        }
        d = apply_declaration(d, &decls[i]);
        i += 1;
    }
    d
}

} // verus!
