//! A decoded XML document as a flat list of elements.
//!
//! The list is in walking order: an element is followed by the subtrees of
//! its children, the last child first. This is the order in which a
//! depth-first walk that keeps the elements still to visit on a stack meets
//! them. From the number of children that each element states, the
//! functions here find where a subtree ends and which elements are the
//! children of an element.

use vstd::prelude::*;
use crate::text::str_eq;

verus! {

/// One attribute of an element.
#[derive(Debug, Clone)]
pub struct XmlAttribute {
    pub name: String,
    pub value: String,
}

/// The mathematical value of an [`XmlAttribute`].
pub ghost struct XmlAttributeView {
    pub name: Seq<char>,
    pub value: Seq<char>,
}

impl View for XmlAttribute {
    type V = XmlAttributeView;

    open spec fn view(&self) -> XmlAttributeView {
        XmlAttributeView { name: self.name@, value: self.value@ }
    }
}

/// One element of a document: its type, its attributes and the number of
/// its children.
#[derive(Debug, Clone)]
pub struct XmlNodeData {
    pub element_type: String,
    pub attributes: Vec<XmlAttribute>,
    pub child_count: usize,
}

/// The mathematical value of an [`XmlNodeData`].
pub ghost struct XmlNodeView {
    pub element_type: Seq<char>,
    pub attributes: Seq<XmlAttributeView>,
    pub child_count: usize,
}

/// The views of a sequence of attributes.
pub open spec fn attribute_views(attributes: Seq<XmlAttribute>) -> Seq<XmlAttributeView> {
    attributes.map_values(|a: XmlAttribute| a@)
}

impl View for XmlNodeData {
    type V = XmlNodeView;

    open spec fn view(&self) -> XmlNodeView {
        XmlNodeView {
            element_type: self.element_type@,
            attributes: attribute_views(self.attributes@),
            child_count: self.child_count,
        }
    }
}

/// The views of a sequence of elements.
pub open spec fn node_views(nodes: Seq<XmlNodeData>) -> Seq<XmlNodeView> {
    nodes.map_values(|n: XmlNodeData| n@)
}

/// The value of the attribute `name`; of the last one, should several
/// attributes bear the name.
pub open spec fn attr_value(attributes: Seq<XmlAttributeView>, name: Seq<char>) -> Option<Seq<char>>
    decreases attributes.len(),
{
    if attributes.len() == 0 {
        None
    } else if attributes.last().name == name {
        Some(attributes.last().value)
    } else {
        attr_value(attributes.drop_last(), name)
    }
}

/// The value of the attribute `first`, or else of the attribute `second`.
pub open spec fn attr_either(
    attributes: Seq<XmlAttributeView>,
    first: Seq<char>,
    second: Seq<char>,
) -> Option<Seq<char>> {
    match attr_value(attributes, first) {
        Some(v) => Some(v),
        None => attr_value(attributes, second),
    }
}

/// Where the walk stands once `pending` more subtrees, starting at index
/// `j`, are behind it; the end of the list if it ends before that.
pub open spec fn subtree_end(nodes: Seq<XmlNodeView>, j: int, pending: nat) -> int
    decreases nodes.len() - j,
{
    if pending == 0 || j < 0 || j >= nodes.len() {
        j
    } else {
        subtree_end(nodes, j + 1, (pending - 1 + nodes[j].child_count) as nat)
    }
}

/// The walk cannot finish more subtrees than there are elements left: it
/// then ends at the end of the list.
pub proof fn lemma_subtree_overfull(nodes: Seq<XmlNodeView>, j: int, pending: nat)
    requires
        0 <= j <= nodes.len(),
        pending >= nodes.len() - j,
    ensures
        subtree_end(nodes, j, pending) == nodes.len() || (pending == 0 && j == nodes.len()),
        j <= subtree_end(nodes, j, pending) <= nodes.len(),
    decreases nodes.len() - j,
{
    if pending > 0 && j < nodes.len() {
        lemma_subtree_overfull(nodes, j + 1, (pending - 1 + nodes[j].child_count) as nat);
    }
}

/// The walk never goes back and never leaves the list.
pub proof fn lemma_subtree_end_bounds(nodes: Seq<XmlNodeView>, j: int, pending: nat)
    requires
        0 <= j <= nodes.len(),
    ensures
        j <= subtree_end(nodes, j, pending) <= nodes.len(),
        pending > 0 && j < nodes.len() ==> j < subtree_end(nodes, j, pending),
    decreases nodes.len() - j,
{
    if pending > 0 && j < nodes.len() {
        lemma_subtree_end_bounds(nodes, j + 1, (pending - 1 + nodes[j].child_count) as nat);
    }
}

/// The roots of the first `k` child subtrees of element `i`, in walking
/// order; fewer if the list ends before.
pub open spec fn child_roots(nodes: Seq<XmlNodeView>, i: int, k: nat) -> Seq<int>
    decreases k,
{
    if k == 0 {
        Seq::empty()
    } else {
        let before = child_roots(nodes, i, (k - 1) as nat);
        if before.len() < k - 1 {
            before
        } else {
            let root = if k == 1 {
                i + 1
            } else {
                subtree_end(nodes, before.last(), 1)
            };
            if root < nodes.len() {
                before.push(root)
            } else {
                before
            }
        }
    }
}

/// Once a child subtree is missing, no later one is found.
pub proof fn lemma_child_roots_stall(nodes: Seq<XmlNodeView>, i: int, k: nat, more: nat)
    requires
        k <= more,
        child_roots(nodes, i, k).len() < k,
    ensures
        child_roots(nodes, i, more) == child_roots(nodes, i, k),
    decreases more - k,
{
    if k < more {
        lemma_child_roots_stall(nodes, i, k, (more - 1) as nat);
    }
}

/// The indices of the children of element `i`, the first child first.
pub open spec fn children(nodes: Seq<XmlNodeView>, i: int) -> Seq<int> {
    child_roots(nodes, i, nodes[i].child_count as nat).reverse()
}

/// Indices as mathematical integers.
pub open spec fn as_ints(indices: Seq<usize>) -> Seq<int> {
    indices.map_values(|i: usize| i as int)
}

/// The value of the attribute `name` of an element.
pub fn get_attr(node: &XmlNodeData, name: &str) -> (value: Option<String>)
    ensures
        crate::apk::manifest::opt_view(value) == attr_value(node@.attributes, name@),
{
    let ghost all = node@.attributes;
    let mut i: usize = node.attributes.len();
    assert(all.take(i as int) =~= all);
    while i > 0
        invariant
            i <= node.attributes@.len(),
            all == node@.attributes,
            attr_value(all, name@) == attr_value(all.take(i as int), name@),
        decreases i,
    {
        proof {
            assert(all.take(i as int).last() == node.attributes@[i - 1]@);
            assert(all.take(i as int).drop_last() =~= all.take(i - 1));
        }
        if str_eq(node.attributes[i - 1].name.as_str(), name) {
            return Some(node.attributes[i - 1].value.clone());
        }
        i -= 1;
    }
    None
}

/// The value of the attribute `first` of an element, or else of its
/// attribute `second`.
pub fn get_attr_either(node: &XmlNodeData, first: &str, second: &str) -> (value: Option<String>)
    ensures
        crate::apk::manifest::opt_view(value) == attr_either(node@.attributes, first@, second@),
{
    match get_attr(node, first) {
        Some(v) => Some(v),
        None => get_attr(node, second),
    }
}

/// Index after the subtree whose root is element `start`.
pub fn subtree_end_of(nodes: &Vec<XmlNodeData>, start: usize) -> (end: usize)
    requires
        start < nodes@.len(),
    ensures
        end == subtree_end(node_views(nodes@), start as int, 1),
        start < end <= nodes@.len(),
{
    let ghost all = node_views(nodes@);
    let len = nodes.len();
    let mut j: usize = start;
    let mut pending: usize = 1;
    proof {
        lemma_subtree_end_bounds(all, start as int, 1);
    }
    while pending > 0 && j < len
        invariant
            start <= j <= len == nodes@.len(),
            all == node_views(nodes@),
            pending <= len - j,
            subtree_end(all, start as int, 1) == subtree_end(all, j as int, pending as nat),
        decreases len - j,
    {
        let count = nodes[j].child_count;
        assert(all[j as int].child_count == count);
        let rest = len - j - 1;
        let carried = pending - 1;
        if count > rest - carried {
            proof {
                lemma_subtree_overfull(all, j + 1, (carried + count) as nat);
            }
            return len;
        }
        pending = carried + count;
        j += 1;
    }
    j
}

/// The indices of the children of element `i`, the first child first.
pub fn children_of(nodes: &Vec<XmlNodeData>, i: usize) -> (kids: Vec<usize>)
    requires
        i < nodes@.len(),
    ensures
        as_ints(kids@) == children(node_views(nodes@), i as int),
        forall|k: int| 0 <= k < kids@.len() ==> i < #[trigger] kids@[k] < nodes@.len(),
{
    let ghost all = node_views(nodes@);
    let len = nodes.len();
    let count = nodes[i].child_count;
    assert(all[i as int].child_count == count);
    let mut roots: Vec<usize> = Vec::new();
    let mut root: usize = i + 1;
    let mut k: usize = 0;
    assert(as_ints(roots@) =~= child_roots(all, i as int, 0));
    while k < count && root < len
        invariant
            k <= count,
            i < root <= len == nodes@.len(),
            all == node_views(nodes@),
            roots@.len() == k,
            as_ints(roots@) == child_roots(all, i as int, k as nat),
            root == (if k == 0 {
                i + 1
            } else {
                subtree_end(all, roots@[k - 1] as int, 1)
            }),
            forall|m: int| 0 <= m < roots@.len() ==> i < #[trigger] roots@[m] < len,
        decreases count - k,
    {
        let ghost before = as_ints(roots@);
        roots.push(root);
        assert(as_ints(roots@) =~= before.push(root as int));
        k += 1;
        root = subtree_end_of(nodes, root);
    }
    proof {
        if k < count {
            assert(child_roots(all, i as int, (k + 1) as nat) == child_roots(all, i as int, k as nat));
            lemma_child_roots_stall(all, i as int, (k + 1) as nat, count as nat);
        }
    }
    let mut kids: Vec<usize> = Vec::new();
    let mut m: usize = roots.len();
    while m > 0
        invariant
            m <= roots@.len(),
            kids@.len() == roots@.len() - m,
            forall|n: int| 0 <= n < kids@.len() ==> #[trigger] kids@[n] == roots@[roots@.len() - 1 - n],
        decreases m,
    {
        m -= 1;
        kids.push(roots[m]);
    }
    assert(as_ints(kids@) =~= as_ints(roots@).reverse());
    kids
}

} // verus!
