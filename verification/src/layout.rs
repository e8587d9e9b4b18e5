//! The tree of nodes and the data that layout keeps beside each of them.

use vstd::prelude::*;
use crate::dom::NodeKind;
use crate::styles::SpecifiedStyle;

verus! {

/// Names the box that the layout stage built for a node.
#[derive(Clone, Copy, Debug, PartialEq, Eq, Structural)]
pub struct BoxId(pub u64);

/// What layout keeps beside a node: its specified style and, once the layout
/// stage has run, its box. The styling pass never writes the box slot.
#[derive(Clone, Copy, Debug, PartialEq, Eq, Structural)]
pub struct LayoutData {
    pub specified_style: SpecifiedStyle,
    pub layout_box: Option<BoxId>,
}

/// A node of the document tree together with the subtree below it.
///
/// `aux` is the auxiliary data of the node. It is absent until the node is
/// initialized and stays in place from then on.
#[derive(Debug, PartialEq, Eq)]
pub struct Node {
    pub kind: NodeKind,
    pub aux: Option<LayoutData>,
    pub children: Vec<Node>,
}

/// The mathematical value of a node: its kind, its auxiliary data and the
/// values of its children, in order.
pub struct Subtree {
    pub kind: NodeKind,
    pub aux: Option<LayoutData>,
    pub children: Seq<Subtree>,
}

impl Subtree {
    /// The node reached from this one by descending, at each step, into the
    /// child with the next index of `path`; `None` if an index names no child.
    pub open spec fn node_at(self, path: Seq<int>) -> Option<Subtree>
        decreases path.len(),
    {
        if path.len() == 0 {
            Some(self)
        } else if 0 <= path[0] < self.children.len() {
            self.children[path[0]].node_at(path.drop_first())
        } else {
            None
        }
    }

    /// Every node of the subtree has its auxiliary data.
    pub open spec fn is_initialized(self) -> bool
        decreases self,
    {
        &&& self.aux is Some
        &&& forall|i: int|
            0 <= i < self.children.len() ==> (#[trigger] self.children[i]).is_initialized()
    }
}

impl Node {
    /// The value of the node and of everything below it.
    pub open spec fn subtree(&self) -> Subtree
        decreases self,
    {
        Subtree {
            kind: self.kind,
            aux: self.aux,
            children: Seq::new(
                self.children@.len(),
                |i: int|
                    if 0 <= i < self.children@.len() {
                        self.children@[i].subtree()
                    } else {
                        arbitrary()
                    },
            ),
        }
    }
}

impl View for Node {
    type V = Subtree;

    open spec fn view(&self) -> Subtree {
        self.subtree()
    }
}

impl Node {
    /// A node of the given kind, without auxiliary data and without children.
    pub fn new(kind: NodeKind) -> (node: Node)
        ensures
            node@ == (Subtree { kind, aux: None, children: Seq::empty() }),
    {
        let node = Node { kind, aux: None, children: Vec::new() };
        assert(node@.children =~= Seq::empty());
        node
    }

    /// Makes `child` the last child of the node.
    pub fn add_child(&mut self, child: Node)
        ensures
            final(self)@ == (Subtree { children: old(self)@.children.push(child@), ..old(self)@ }),
    {
        self.children.push(child);
        assert(self@.children =~= old(self)@.children.push(child@));
    }

    /// Whether auxiliary data is attached to the node.
    pub fn has_aux(&self) -> (present: bool)
        ensures
            present == (self.aux is Some),
    {
        self.aux.is_some()
    }

    /// Attaches auxiliary data to a node that has none.
    pub fn set_aux(&mut self, data: LayoutData)
        requires
            old(self).aux is None,
        ensures
            final(self).aux == Some(data),
            final(self).kind == old(self).kind,
            final(self).children == old(self).children,
    {
        self.aux = Some(data);
    }

    /// A copy of the auxiliary data of the node.
    pub fn aux(&self) -> (data: LayoutData)
        requires
            self.aux is Some,
        ensures
            Some(data) == self.aux,
    {
        self.aux.unwrap()
    }
}

impl Clone for Node {
    /// A copy of the node and of everything below it.
    fn clone(&self) -> (copy: Node)
        ensures
            copy@ == self@,
        decreases self,
    {
        let mut children: Vec<Node> = Vec::new();
        let count = self.children.len();
        let mut i: usize = 0;
        while i < count
            invariant
                i <= count,
                count == self.children@.len(),
                children@.len() == i,
                forall|j: int| 0 <= j < i ==> (#[trigger] children@[j])@ == self.children@[j]@,
            decreases count - i,
        {
            children.push(self.children[i].clone());
            i = i + 1;
        }
        let copy = Node { kind: self.kind, aux: self.aux, children };
        assert(copy@.children =~= self@.children);
        copy
    }
}

} // verus!
