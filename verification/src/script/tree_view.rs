//! Plain-value views of document trees.

use vstd::prelude::*;
use crate::html::{Element, Node, TextNode, attrs_view, attr_of, same_element, same_nodes, same_node, copy_element, copy_attrs};
use crate::strings::str_eq;

verus! {

/// A node as plain values.
pub enum NodeView {
    Element(ElementView),
    Text(Seq<char>),
    Comment(Seq<char>),
}

/// An element as plain values.
pub struct ElementView {
    pub tag: Seq<char>,
    pub attrs: Seq<(Seq<char>, Seq<char>)>,
    pub children: Seq<NodeView>,
}

/// The plain-value view of an element.
pub open spec fn element_view(e: Element) -> ElementView
    decreases e, 2nat,
{
    ElementView { tag: e.tag_name@, attrs: attrs_view(e.attributes@), children: nodes_view(e.children@) }
}

/// The plain-value views of a list of nodes.
pub open spec fn nodes_view(ns: Seq<Node>) -> Seq<NodeView>
    decreases ns, 1nat,
{
    if ns.len() == 0 {
        Seq::empty()
    } else {
        nodes_view(ns.subrange(0, ns.len() - 1)).push(node_view(ns[ns.len() - 1]))
    }
}

/// The plain-value view of a node.
pub open spec fn node_view(n: Node) -> NodeView
    decreases n, 0nat,
{
    match n {
        Node::Element(e) => NodeView::Element(element_view(e)),
        Node::Text(t) => NodeView::Text(t.data@),
        Node::Comment(c) => NodeView::Comment(c@),
    }
}


pub proof fn lemma_nodes_view(ns: Seq<Node>)
    ensures
        nodes_view(ns).len() == ns.len(),
        forall|j: int| 0 <= j < ns.len() ==> #[trigger] nodes_view(ns)[j] == node_view(ns[j]),
    decreases ns.len(),
{
    if ns.len() > 0 {
        let pre = ns.subrange(0, ns.len() - 1);
        lemma_nodes_view(pre);
        assert forall|j: int| 0 <= j < ns.len() implies #[trigger] nodes_view(ns)[j] == node_view(ns[j]) by {
            if j < ns.len() - 1 {
                assert(pre[j] == ns[j]);
            }
        }
    }
}

pub proof fn lemma_nodes_view_prefix(ns: Seq<Node>, k: int)
    requires
        0 <= k <= ns.len(),
    ensures
        nodes_view(ns.subrange(0, k)) == nodes_view(ns).subrange(0, k),
{
    lemma_nodes_view(ns);
    lemma_nodes_view(ns.subrange(0, k));
    assert(nodes_view(ns.subrange(0, k)) =~= nodes_view(ns).subrange(0, k));
}

pub proof fn lemma_same_element_view(a: Element, b: Element)
    requires
        same_element(a, b),
    ensures
        element_view(a) == element_view(b),
    decreases a, 2nat,
{
    lemma_same_nodes_view(a.children@, b.children@);
}

pub proof fn lemma_same_nodes_view(xs: Seq<Node>, ys: Seq<Node>)
    requires
        same_nodes(xs, ys),
    ensures
        nodes_view(xs) == nodes_view(ys),
    decreases xs, 1nat,
{
    if xs.len() > 0 {
        lemma_same_nodes_view(xs.subrange(0, xs.len() - 1), ys.subrange(0, ys.len() - 1));
        lemma_same_node_view(xs[xs.len() - 1], ys[ys.len() - 1]);
    }
}

pub proof fn lemma_same_node_view(a: Node, b: Node)
    requires
        same_node(a, b),
    ensures
        node_view(a) == node_view(b),
    decreases a, 0nat,
{
    match a {
        Node::Element(x) => match b {
            Node::Element(y) => lemma_same_element_view(x, y),
            _ => {},
        },
        _ => {},
    }
}

/// A copy of a node.
pub fn clone_node(n: &Node) -> (r: Node)
    ensures
        node_view(r) == node_view(*n),
{
    match n {
        Node::Element(x) => {
            let y = copy_element(x);
            proof { lemma_same_element_view(*x, y); }
            Node::Element(y)
        },
        Node::Text(t) => Node::Text(TextNode { data: t.data.clone() }),
        Node::Comment(c) => Node::Comment(c.clone()),
    }
}

/// The value of the first plain attribute called `name`, if any.
pub open spec fn view_attr(attrs: Seq<(Seq<char>, Seq<char>)>, name: Seq<char>) -> Option<Seq<char>>
    decreases attrs.len(),
{
    if attrs.len() == 0 {
        None
    } else if attrs[0].0 == name {
        Some(attrs[0].1)
    } else {
        view_attr(attrs.drop_first(), name)
    }
}

pub proof fn lemma_view_attr(a: Seq<(String, String)>, name: Seq<char>)
    ensures
        attr_of(a, name) == view_attr(attrs_view(a), name),
    decreases a.len(),
{
    if a.len() > 0 {
        assert(attrs_view(a).drop_first() =~= attrs_view(a.drop_first()));
        lemma_view_attr(a.drop_first(), name);
    }
}

/// The tree `e` with the children of its first element in document order
/// whose `id` is `id` replaced by the single text `t`, and whether there
/// was such an element.
pub open spec fn retext_element(e: ElementView, id: Seq<char>, t: Seq<char>) -> (ElementView, bool)
    decreases e, 1nat,
{
    if view_attr(e.attrs, "id"@) == Some(id) {
        (ElementView { tag: e.tag, attrs: e.attrs, children: seq![NodeView::Text(t)] }, true)
    } else {
        let r = retext_nodes(e.children, id, t);
        (ElementView { tag: e.tag, attrs: e.attrs, children: r.0 }, r.1)
    }
}

/// `retext_element` over a list of trees: the first tree that holds such
/// an element changes, and the trees after it stay.
pub open spec fn retext_nodes(ns: Seq<NodeView>, id: Seq<char>, t: Seq<char>) -> (Seq<NodeView>, bool)
    decreases ns, 0nat,
{
    if ns.len() == 0 {
        (ns, false)
    } else {
        let pre = retext_nodes(ns.subrange(0, ns.len() - 1), id, t);
        let last = ns[ns.len() - 1];
        if pre.1 {
            (pre.0.push(last), true)
        } else {
            match last {
                NodeView::Element(c) => {
                    let rc = retext_element(c, id, t);
                    (pre.0.push(NodeView::Element(rc.0)), rc.1)
                },
                _ => (pre.0.push(last), false),
            }
        }
    }
}

/// A copy of `e` with the children of its first element whose `id` is
/// `id` replaced by the text `t`, and whether there was such an element.
pub fn retexted(e: &Element, id: &str, t: &str) -> (r: (Element, bool))
    ensures
        element_view(r.0) == retext_element(element_view(*e), id@, t@).0,
        r.1 == retext_element(element_view(*e), id@, t@).1,
    decreases *e,
{
    let is_it = match e.attr("id") {
        Some(v) => str_eq(v, id),
        None => false,
    };
    proof { lemma_view_attr(e.attributes@, "id"@); }
    if is_it {
        let mut ch: Vec<Node> = Vec::new();
        let tn = TextNode::new(t);
        ch.push(Node::Text(tn));
        proof {
            lemma_nodes_view(ch@);
            assert(ch@[0] == Node::Text(tn));
            assert(node_view(ch@[0]) == NodeView::Text(t@));
            assert(nodes_view(ch@) =~= seq![NodeView::Text(t@)]);
        }
        (Element { tag_name: e.tag_name.clone(), attributes: copy_attrs(&e.attributes), children: ch }, true)
    } else {
        let mut out: Vec<Node> = Vec::new();
        let mut found = false;
        let mut i: usize = 0;
        proof {
            assert(e.children@.subrange(0, 0) =~= Seq::<Node>::empty());
            lemma_nodes_view(e.children@);
        }
        while i < e.children.len()
            invariant
                i <= e.children@.len(),
                nodes_view(out@) == retext_nodes(nodes_view(e.children@.subrange(0, i as int)), id@, t@).0,
                found == retext_nodes(nodes_view(e.children@.subrange(0, i as int)), id@, t@).1,
            decreases e.children@.len() - i,
        {
            let ghost xs = e.children@.subrange(0, i + 1);
            proof {
                lemma_nodes_view(xs);
                lemma_nodes_view_prefix(xs, i as int);
                assert(xs.subrange(0, i as int) =~= e.children@.subrange(0, i as int));
                assert(xs[i as int] == e.children@[i as int]);
            }
            let c = if found {
                clone_node(&e.children[i])
            } else {
                match &e.children[i] {
                    Node::Element(x) => {
                        proof {
                            assert(decreases_to!(*e => e.children));
                            assert(decreases_to!(e.children => e.children@));
                            assert(decreases_to!(e.children@ => e.children@[i as int]));
                            assert(decreases_to!(e.children@[i as int] => (e.children@[i as int])->Element_0));
                        }
                        let (y, f) = retexted(x, id, t);
                        found = f;
                        Node::Element(y)
                    },
                    other => clone_node(other),
                }
            };
            let ghost o0 = out@;
            out.push(c);
            proof {
                lemma_nodes_view(out@);
                lemma_nodes_view(o0);
                assert(out@.subrange(0, out@.len() - 1) =~= o0);
                assert(nodes_view(out@) =~= nodes_view(o0).push(node_view(c)));
            }
            i = i + 1;
        }
        assert(e.children@.subrange(0, e.children@.len() as int) =~= e.children@);
        (Element { tag_name: e.tag_name.clone(), attributes: copy_attrs(&e.attributes), children: out }, found)
    }
}

} // verus!
