use vstd::prelude::*;
use crate::bytestr::bytes_eq;

verus! {

/// The closed set of element kinds the renderer dispatches on; every other
/// tag name is `Other` and is recursed through with no style change.
#[derive(Clone, Copy, PartialEq, Eq, Structural, Debug)]
pub enum Tag {
    Heading1,
    Heading2,
    Heading3,
    Heading4,
    Heading5,
    Heading6,
    Paragraph,
    LineBreak,
    Strong,
    Emphasis,
    Underlined,
    Code,
    Preformatted,
    Anchor,
    BlockQuote,
    UnorderedList,
    OrderedList,
    ListItem,
    Table,
    TableRow,
    TableHeader,
    TableCell,
    Span,
    Division,
    Rule,
    Image,
    Other,
}

/// The element kind a tag name denotes.  `strong` and `b` are one kind, as
/// are `em` and `i`.
pub open spec fn spec_tag_of(name: Seq<u8>) -> Tag {
    if name == seq![104u8, 49u8] {
        Tag::Heading1
    } else if name == seq![104u8, 50u8] {
        Tag::Heading2
    } else if name == seq![104u8, 51u8] {
        Tag::Heading3
    } else if name == seq![104u8, 52u8] {
        Tag::Heading4
    } else if name == seq![104u8, 53u8] {
        Tag::Heading5
    } else if name == seq![104u8, 54u8] {
        Tag::Heading6
    } else if name == seq![112u8] {
        Tag::Paragraph
    } else if name == seq![98u8, 114u8] {
        Tag::LineBreak
    } else if name == seq![115u8, 116u8, 114u8, 111u8, 110u8, 103u8] || name == seq![98u8] {
        Tag::Strong
    } else if name == seq![101u8, 109u8] || name == seq![105u8] {
        Tag::Emphasis
    } else if name == seq![117u8] {
        Tag::Underlined
    } else if name == seq![99u8, 111u8, 100u8, 101u8] {
        Tag::Code
    } else if name == seq![112u8, 114u8, 101u8] {
        Tag::Preformatted
    } else if name == seq![97u8] {
        Tag::Anchor
    } else if name == seq![98u8, 108u8, 111u8, 99u8, 107u8, 113u8, 117u8, 111u8, 116u8, 101u8] {
        Tag::BlockQuote
    } else if name == seq![117u8, 108u8] {
        Tag::UnorderedList
    } else if name == seq![111u8, 108u8] {
        Tag::OrderedList
    } else if name == seq![108u8, 105u8] {
        Tag::ListItem
    } else if name == seq![116u8, 97u8, 98u8, 108u8, 101u8] {
        Tag::Table
    } else if name == seq![116u8, 114u8] {
        Tag::TableRow
    } else if name == seq![116u8, 104u8] {
        Tag::TableHeader
    } else if name == seq![116u8, 100u8] {
        Tag::TableCell
    } else if name == seq![115u8, 112u8, 97u8, 110u8] {
        Tag::Span
    } else if name == seq![100u8, 105u8, 118u8] {
        Tag::Division
    } else if name == seq![104u8, 114u8] {
        Tag::Rule
    } else if name == seq![105u8, 109u8, 103u8] {
        Tag::Image
    } else {
        Tag::Other
    }
}

fn singleton(b: u8) -> (v: Vec<u8>)
    ensures
        v@ == seq![b],
{
    let mut v: Vec<u8> = Vec::new();
    v.push(b);
    proof {
        assert(v@ =~= seq![b]);
    }
    v
}

/// Classifies a tag name, exactly as `spec_tag_of` describes.
pub fn tag_of(name: &Vec<u8>) -> (t: Tag)
    ensures
        t == spec_tag_of(name@),
{
    let h1: Vec<u8> = vec![104u8, 49u8];
    let h2: Vec<u8> = vec![104u8, 50u8];
    let h3: Vec<u8> = vec![104u8, 51u8];
    let h4: Vec<u8> = vec![104u8, 52u8];
    let h5: Vec<u8> = vec![104u8, 53u8];
    let h6: Vec<u8> = vec![104u8, 54u8];
    let p: Vec<u8> = singleton(112u8);
    let br: Vec<u8> = vec![98u8, 114u8];
    let strong: Vec<u8> = vec![115u8, 116u8, 114u8, 111u8, 110u8, 103u8];
    let bold: Vec<u8> = singleton(98u8);
    let em: Vec<u8> = vec![101u8, 109u8];
    let italic: Vec<u8> = singleton(105u8);
    let u: Vec<u8> = singleton(117u8);
    let code: Vec<u8> = vec![99u8, 111u8, 100u8, 101u8];
    let pre: Vec<u8> = vec![112u8, 114u8, 101u8];
    let anchor: Vec<u8> = singleton(97u8);
    let blockquote: Vec<u8> = vec![
        98u8,
        108u8,
        111u8,
        99u8,
        107u8,
        113u8,
        117u8,
        111u8,
        116u8,
        101u8,
    ];
    let ul: Vec<u8> = vec![117u8, 108u8];
    let ol: Vec<u8> = vec![111u8, 108u8];
    let li: Vec<u8> = vec![108u8, 105u8];
    let table: Vec<u8> = vec![116u8, 97u8, 98u8, 108u8, 101u8];
    let tr: Vec<u8> = vec![116u8, 114u8];
    let th: Vec<u8> = vec![116u8, 104u8];
    let td: Vec<u8> = vec![116u8, 100u8];
    let span: Vec<u8> = vec![115u8, 112u8, 97u8, 110u8];
    let div: Vec<u8> = vec![100u8, 105u8, 118u8];
    let hr: Vec<u8> = vec![104u8, 114u8];
    let img: Vec<u8> = vec![105u8, 109u8, 103u8];
    if bytes_eq(name, &h1) {
        Tag::Heading1
    } else if bytes_eq(name, &h2) {
        Tag::Heading2
    } else if bytes_eq(name, &h3) {
        Tag::Heading3
    } else if bytes_eq(name, &h4) {
        Tag::Heading4
    } else if bytes_eq(name, &h5) {
        Tag::Heading5
    } else if bytes_eq(name, &h6) {
        Tag::Heading6
    } else if bytes_eq(name, &p) {
        Tag::Paragraph
    } else if bytes_eq(name, &br) {
        Tag::LineBreak
    } else if bytes_eq(name, &strong) || bytes_eq(name, &bold) {
        Tag::Strong
    } else if bytes_eq(name, &em) || bytes_eq(name, &italic) {
        Tag::Emphasis
    } else if bytes_eq(name, &u) {
        Tag::Underlined
    } else if bytes_eq(name, &code) {
        Tag::Code
    } else if bytes_eq(name, &pre) {
        Tag::Preformatted
    } else if bytes_eq(name, &anchor) {
        Tag::Anchor
    } else if bytes_eq(name, &blockquote) {
        Tag::BlockQuote
    } else if bytes_eq(name, &ul) {
        Tag::UnorderedList
    } else if bytes_eq(name, &ol) {
        Tag::OrderedList
    } else if bytes_eq(name, &li) {
        Tag::ListItem
    } else if bytes_eq(name, &table) {
        Tag::Table
    } else if bytes_eq(name, &tr) {
        Tag::TableRow
    } else if bytes_eq(name, &th) {
        Tag::TableHeader
    } else if bytes_eq(name, &td) {
        Tag::TableCell
    } else if bytes_eq(name, &span) {
        Tag::Span
    } else if bytes_eq(name, &div) {
        Tag::Division
    } else if bytes_eq(name, &hr) {
        Tag::Rule
    } else if bytes_eq(name, &img) {
        Tag::Image
    } else {
        Tag::Other
    }
}

} // verus!
