use vstd::prelude::*;
use crate::state::TEXT_LEN_CEIL;

verus! {

/// One attribute of an element node, as raw bytes.
pub struct Attribute {
    pub name: Vec<u8>,
    pub value: Vec<u8>,
}

/// The pixel dimensions of a decoded image together with the caller's
/// handle (`data_id`) for its pixel buffer.
#[derive(Clone, Copy, PartialEq, Eq, Structural, Debug)]
pub struct ImageRef {
    pub width_px: u32,
    pub height_px: u32,
    pub data_id: usize,
}

/// What one markup node is: a transparent container (the document root and
/// any non-element, non-text node), an element with its tag, attributes and
/// — for an image element whose source was decoded — the decoded pixel
/// dimensions, or a text run.
pub enum NodeData {
    Container,
    Element { tag: Vec<u8>, attrs: Vec<Attribute>, image: Option<ImageRef> },
    Text { content: Vec<u8> },
}

/// One node of the tree: its data and the indices of its children, in
/// document order.
pub struct Node {
    pub data: NodeData,
    pub children: Vec<usize>,
}

/// A node is well-formed within an arena of `len` nodes at position `idx`
/// when its children lie strictly after it — the arena is laid out in
/// preorder, which is what grounds the walker's termination — and any text
/// it holds is of bounded length.
pub open spec fn node_wf(n: &Node, idx: int, len: int) -> bool {
    &&& forall|j: int| 0 <= j < n.children@.len() ==> idx < #[trigger] n.children@[j] < len
    &&& (n.data matches NodeData::Text { content } ==> content@.len() <= TEXT_LEN_CEIL as int)
}

/// The markup tree, held as an arena: nodes addressed by index, the root at
/// index zero.  The walker only ever holds indices, so the external
/// parser's shared-mutable tree shape cannot leak in here.
pub struct Arena {
    pub nodes: Vec<Node>,
}

impl Arena {
    pub open spec fn wf(&self) -> bool {
        forall|i: int|
            0 <= i < self.nodes@.len() ==> node_wf(&self.nodes@[i], i, self.nodes@.len() as int)
    }

    /// A fresh tree holding only a container root.
    pub fn new() -> (r: Arena)
        ensures
            r.wf(),
            r.nodes@.len() == 1,
            r.nodes@[0].data is Container,
            r.nodes@[0].children@ == Seq::<usize>::empty(),
    {
        let mut nodes: Vec<Node> = Vec::new();
        nodes.push(Node { data: NodeData::Container, children: Vec::new() });
        Arena { nodes }
    }

    /// Appends a new childless node holding `data` as the last child of
    /// `parent`, and returns its index.  Appending keeps the preorder
    /// layout: the new index is larger than its parent's.
    pub fn add_child(&mut self, parent: usize, data: NodeData) -> (idx: usize)
        requires
            old(self).wf(),
            parent < old(self).nodes@.len(),
            old(self).nodes@.len() < usize::MAX,
            (data matches NodeData::Text { content } ==> content@.len() <= TEXT_LEN_CEIL as int),
        ensures
            final(self).wf(),
            idx == old(self).nodes@.len(),
            final(self).nodes@.len() == old(self).nodes@.len() + 1,
            forall|i: int|
                0 <= i < old(self).nodes@.len() && i != parent ==> final(self).nodes@[i] == old(
                    self,
                ).nodes@[i],
            final(self).nodes@[parent as int].data == old(self).nodes@[parent as int].data,
            final(self).nodes@[parent as int].children@ == old(
                self,
            ).nodes@[parent as int].children@.push(idx),
            final(self).nodes@[idx as int].data == data,
            final(self).nodes@[idx as int].children@ == Seq::<usize>::empty(),
    {
        let idx = self.nodes.len();
        self.nodes.push(Node { data, children: Vec::new() });
        let parent_node: &mut Node = &mut self.nodes[parent];
        parent_node.children.push(idx);
        idx
    }
}

} // verus!
