//! The document tree that the form, table and script code reads: elements
//! with attributes and children, text nodes, and the document around them.

use vstd::prelude::*;
use crate::strings::{str_eq, chars_of};

verus! {

/// A text node.
#[derive(Debug, Clone, PartialEq)]
pub struct TextNode {
    pub data: String,
}

/// A node of the document tree.
#[derive(Debug, PartialEq)]
pub enum Node {
    Element(Element),
    Text(TextNode),
    Comment(String),
}

/// An element: its tag name, attributes in document order, and children.
#[derive(Debug, PartialEq)]
pub struct Element {
    pub tag_name: String,
    pub attributes: Vec<(String, String)>,
    pub children: Vec<Node>,
}

/// The value of the first attribute called `name`, if any.
pub open spec fn attr_of(attrs: Seq<(String, String)>, name: Seq<char>) -> Option<Seq<char>>
    decreases attrs.len(),
{
    if attrs.len() == 0 {
        None
    } else if attrs[0].0@ == name {
        Some(attrs[0].1@)
    } else {
        attr_of(attrs.drop_first(), name)
    }
}

/// The text of a node: the data of its text descendants in document order.
pub open spec fn node_text(n: Node) -> Seq<char>
    decreases n,
{
    match n {
        Node::Element(e) => children_text(e.children@),
        Node::Text(t) => t.data@,
        Node::Comment(_) => Seq::empty(),
    }
}

/// The text of a list of nodes, concatenated.
pub open spec fn children_text(ch: Seq<Node>) -> Seq<char>
    decreases ch,
{
    if ch.len() == 0 {
        Seq::empty()
    } else {
        children_text(ch.drop_last()) + node_text(ch.last())
    }
}

impl TextNode {
    /// A text node with the given data.
    pub fn new(text: &str) -> (t: TextNode)
        ensures
            t.data@ == text@,
    {
        TextNode { data: String::from_str(text) }
    }
}

impl Node {
    /// The element, if this node is one.
    pub fn as_element(&self) -> (r: Option<&Element>)
        ensures
            r matches Some(e) ==> *self == Node::Element(*e),
            r is None <==> !(self is Element),
    {
        match self {
            Node::Element(e) => Some(e),
            _ => None,
        }
    }
}

impl Element {
    /// An element without children.
    pub fn new(tag_name: &str, attributes: Vec<(String, String)>) -> (e: Element)
        ensures
            e.tag_name@ == tag_name@,
            e.attributes == attributes,
            e.children@.len() == 0,
    {
        Element { tag_name: String::from_str(tag_name), attributes, children: Vec::new() }
    }

    /// The tag name.
    pub fn tag_name(&self) -> (r: &str)
        ensures
            r@ == self.tag_name@,
    {
        self.tag_name.as_str()
    }

    /// The children.
    pub fn children(&self) -> (r: &Vec<Node>)
        ensures
            r == &self.children,
    {
        &self.children
    }

    /// The value of the attribute `name`, if present.
    pub fn attr(&self, name: &str) -> (r: Option<&str>)
        ensures
            match r {
                Some(v) => attr_of(self.attributes@, name@) == Some(v@),
                None => attr_of(self.attributes@, name@) is None,
            },
    {
        let mut i: usize = 0;
        assert(self.attributes@.skip(0) =~= self.attributes@);
        while i < self.attributes.len()
            invariant
                i <= self.attributes@.len(),
                attr_of(self.attributes@, name@) == attr_of(self.attributes@.skip(i as int), name@),
            decreases self.attributes@.len() - i,
        {
            assert(self.attributes@.skip(i as int).drop_first() =~= self.attributes@.skip(i + 1));
            if str_eq(self.attributes[i].0.as_str(), name) {
                return Some(self.attributes[i].1.as_str());
            }
            i = i + 1;
        }
        None
    }

    /// Whether the attribute `name` is present.
    pub fn has_attr(&self, name: &str) -> (r: bool)
        ensures
            r == attr_of(self.attributes@, name@) is Some,
    {
        self.attr(name).is_some()
    }

    /// Sets the attribute `name`: its first occurrence takes the new value,
    /// or the attribute is appended.
    pub fn set_attr(&mut self, name: &str, value: &str)
        ensures
            attr_of(final(self).attributes@, name@) == Some(value@),
            forall|n: Seq<char>| n != name@ ==> attr_of(final(self).attributes@, n) == attr_of(old(self).attributes@, n),
            final(self).tag_name == old(self).tag_name,
            final(self).children == old(self).children,
    {
        let ghost old_attrs = self.attributes@;
        let mut i: usize = 0;
        while i < self.attributes.len()
            invariant
                i <= self.attributes@.len(),
                self.attributes@ == old_attrs,
                self.tag_name == old(self).tag_name,
                self.children == old(self).children,
                old_attrs == old(self).attributes@,
                forall|j: int| 0 <= j < i ==> old_attrs[j].0@ != name@,
            decreases self.attributes@.len() - i,
        {
            if str_eq(self.attributes[i].0.as_str(), name) {
                let n = String::from_str(name);
                let v = String::from_str(value);
                self.attributes.set(i, (n, v));
                proof { lemma_attr_update(old_attrs, i as int, name@, self.attributes@[i as int]); }
                return;
            }
            i = i + 1;
        }
        let n = String::from_str(name);
        let v = String::from_str(value);
        self.attributes.push((n, v));
        proof { lemma_attr_push(old_attrs, name@, self.attributes@.last()); }
    }

    /// Appends a child.
    pub fn append_child(&mut self, child: Node)
        ensures
            final(self).children@ == old(self).children@.push(child),
            final(self).tag_name == old(self).tag_name,
            final(self).attributes == old(self).attributes,
    {
        self.children.push(child);
    }

    /// Removes all children.
    pub fn clear_children(&mut self)
        ensures
            final(self).children@.len() == 0,
            final(self).tag_name == old(self).tag_name,
            final(self).attributes == old(self).attributes,
    {
        self.children = Vec::new();
    }

    /// The text of the element's descendants, in document order.
    pub fn text_content(&self) -> (r: String)
        ensures
            r@ == children_text(self.children@),
        decreases self,
    {
        let mut r = String::new();
        let mut i: usize = 0;
        while i < self.children.len()
            invariant
                i <= self.children@.len(),
                r@ == children_text(self.children@.take(i as int)),
            decreases self.children@.len() - i,
        {
            proof {
                assert(self.children@.take(i + 1).drop_last() =~= self.children@.take(i as int));
            }
            let t = node_text_of(&self.children[i]);
            r.append(t.as_str());
            i = i + 1;
        }
        assert(self.children@.take(i as int) =~= self.children@);
        r
    }
}

/// The text of a node.
pub fn node_text_of(n: &Node) -> (r: String)
    ensures
        r@ == node_text(*n),
    decreases n,
{
    match n {
        Node::Element(e) => e.text_content(),
        Node::Text(t) => t.data.clone(),
        Node::Comment(_) => String::new(),
    }
}

proof fn lemma_attr_update(attrs: Seq<(String, String)>, i: int, name: Seq<char>, p: (String, String))
    requires
        0 <= i < attrs.len(),
        attrs[i].0@ == name,
        p.0@ == name,
        forall|j: int| 0 <= j < i ==> attrs[j].0@ != name,
    ensures
        attr_of(attrs.update(i, p), name) == Some(p.1@),
        forall|n: Seq<char>| n != name ==> attr_of(attrs.update(i, p), n) == attr_of(attrs, n),
    decreases i,
{
    let a2 = attrs.update(i, p);
    if i > 0 {
        assert(attrs.drop_first().update(i - 1, p) =~= a2.drop_first());
        lemma_attr_update(attrs.drop_first(), i - 1, name, p);
        assert forall|n: Seq<char>| n != name implies attr_of(a2, n) == attr_of(attrs, n) by {
            assert(a2[0] == attrs[0]);
            assert(attr_of(attrs.drop_first().update(i - 1, p), n) == attr_of(attrs.drop_first(), n));
        }
    } else {
        assert(attrs.drop_first() =~= a2.drop_first());
        assert forall|n: Seq<char>| n != name implies attr_of(a2, n) == attr_of(attrs, n) by {
            assert(a2[0] == p);
        }
    }
}

proof fn lemma_attr_push(attrs: Seq<(String, String)>, name: Seq<char>, p: (String, String))
    requires
        p.0@ == name,
        forall|j: int| 0 <= j < attrs.len() ==> attrs[j].0@ != name,
    ensures
        attr_of(attrs.push(p), name) == Some(p.1@),
        forall|n: Seq<char>| n != name ==> attr_of(attrs.push(p), n) == attr_of(attrs, n),
    decreases attrs.len(),
{
    let a2 = attrs.push(p);
    if attrs.len() > 0 {
        assert(attrs.drop_first().push(p) =~= a2.drop_first());
        lemma_attr_push(attrs.drop_first(), name, p);
        assert forall|n: Seq<char>| n != name implies attr_of(a2, n) == attr_of(attrs, n) by {
            assert(a2[0] == attrs[0]);
            assert(attr_of(attrs.drop_first().push(p), n) == attr_of(attrs.drop_first(), n));
        }
    } else {
        assert(a2.drop_first() =~= attrs);
        assert forall|n: Seq<char>| n != name implies attr_of(a2, n) == attr_of(attrs, n) by {
            assert(a2[0] == p);
            assert(attr_of(a2.drop_first(), n) is None);
        }
    }
}


/// What a search over elements looks for.
#[derive(Debug, Clone, Copy, PartialEq, Eq, Structural)]
pub enum ElementQuery {
    /// The tag name, compared without ASCII case.
    Tag,
    /// The `id` attribute.
    Id,
    /// A white-space separated word of the `class` attribute.
    Class,
}

/// Whether element `e` is what `q` looks for with `key`.
pub open spec fn element_matches(e: Element, q: ElementQuery, key: Seq<char>) -> bool {
    match q {
        ElementQuery::Tag => crate::strings::ascii_lower_seq(e.tag_name@) == crate::strings::ascii_lower_seq(key),
        ElementQuery::Id => attr_of(e.attributes@, "id"@) == Some(key),
        ElementQuery::Class => match attr_of(e.attributes@, "class"@) {
            Some(c) => crate::strings::words(c).contains(key),
            None => false,
        },
    }
}

/// The elements of the tree under `e`, `e` first, in document order.
pub open spec fn preorder(e: Element) -> Seq<Element>
    decreases e, 1nat,
{
    seq![e] + nodes_preorder(e.children@)
}

/// The elements of the trees of a list of nodes, in document order.
pub open spec fn nodes_preorder(ns: Seq<Node>) -> Seq<Element>
    decreases ns, 0nat,
{
    if ns.len() == 0 {
        Seq::empty()
    } else {
        nodes_preorder(ns.subrange(0, ns.len() - 1)) + match ns[ns.len() - 1] {
            Node::Element(c) => preorder(c),
            _ => Seq::empty(),
        }
    }
}

/// The elements among `es` that match, in order.
pub open spec fn matching(es: Seq<Element>, q: ElementQuery, key: Seq<char>) -> Seq<Element> {
    es.filter(|e: Element| element_matches(e, q, key))
}

/// The first element among `es` that matches, if any.
pub open spec fn first_matching(es: Seq<Element>, q: ElementQuery, key: Seq<char>) -> Option<Element> {
    if matching(es, q, key).len() > 0 { Some(matching(es, q, key)[0]) } else { None }
}

/// Whether `e` matches the query.
pub fn matches_query(e: &Element, q: ElementQuery, key: &str) -> (r: bool)
    ensures
        r == element_matches(*e, q, key@),
{
    match q {
        ElementQuery::Tag => {
            let a = crate::strings::lower_chars(e.tag_name.as_str());
            let b = crate::strings::lower_chars(key);
            crate::strings::seq_eq(&a, &b)
        },
        ElementQuery::Id => match e.attr("id") {
            Some(v) => str_eq(v, key),
            None => false,
        },
        ElementQuery::Class => match e.attr("class") {
            Some(c) => {
                let cs = chars_of(c);
                let ws = crate::strings::split_ws(&cs);
                let k = chars_of(key);
                let mut i: usize = 0;
                let mut found = false;
                while i < ws.len() && !found
                    invariant
                        i <= ws@.len(),
                        k@ == key@,
                        ws@.map_values(|w: Vec<char>| w@) == crate::strings::words(c@),
                        found ==> crate::strings::words(c@).contains(key@),
                        !found ==> forall|j: int| 0 <= j < i ==> crate::strings::words(c@)[j] != key@,
                    decreases ws@.len() - i,
                {
                    assert(ws@.map_values(|w: Vec<char>| w@)[i as int] == ws@[i as int]@);
                    if crate::strings::seq_eq(&ws[i], &k) {
                        found = true;
                        assert(crate::strings::words(c@)[i as int] == key@);
                    }
                    i = i + 1;
                }
                found
            },
            None => false,
        },
    }
}

proof fn lemma_filter_push(es: Seq<Element>, e: Element, q: ElementQuery, key: Seq<char>)
    ensures
        matching(es.push(e), q, key) == if element_matches(e, q, key) { matching(es, q, key).push(e) } else { matching(es, q, key) },
{
    reveal(Seq::filter);
    assert(es.push(e).drop_last() =~= es);
}

proof fn lemma_filter_concat(a: Seq<Element>, b: Seq<Element>, q: ElementQuery, key: Seq<char>)
    ensures
        matching(a + b, q, key) == matching(a, q, key) + matching(b, q, key),
{
    Seq::filter_distributes_over_add(a, b, |x: Element| element_matches(x, q, key));
}

/// Appends to `out` the elements of the tree under `e` that match, in
/// document order.
pub fn collect_matching<'a>(e: &'a Element, q: ElementQuery, key: &str, out: &mut Vec<&'a Element>)
    ensures
        final(out)@.map_values(|x: &Element| *x) == old(out)@.map_values(|x: &Element| *x) + matching(preorder(*e), q, key@),
    decreases *e,
{
    let ghost before = out@.map_values(|x: &Element| *x);
    if matches_query(e, q, key) {
        out.push(e);
    }
    proof {
        assert(out@.map_values(|x: &Element| *x) =~= before + matching(seq![*e], q, key@)) by {
            lemma_filter_push(Seq::empty(), *e, q, key@);
            assert(seq![*e] =~= Seq::<Element>::empty().push(*e));
            assert(matching(Seq::<Element>::empty(), q, key@) =~= Seq::<Element>::empty());
        }
    }
    let mut i: usize = 0;
    let ch = &e.children;
    assert(ch@.subrange(0, 0) =~= Seq::<Node>::empty());
    while i < ch.len()
        invariant
            i <= ch@.len(),
            ch == &e.children,
            out@.map_values(|x: &Element| *x) == before + matching(seq![*e], q, key@)
                + matching(nodes_preorder(ch@.subrange(0, i as int)), q, key@),
        decreases ch@.len() - i,
    {
        let ghost acc = out@.map_values(|x: &Element| *x);
        proof {
            assert(ch@.subrange(0, i + 1).subrange(0, i as int) =~= ch@.subrange(0, i as int));
            assert(ch@.subrange(0, i + 1)[i as int] == ch@[i as int]);
        }
        match &ch[i] {
            Node::Element(c) => {
                proof {
                    assert(decreases_to!(*e => e.children));
                    assert(decreases_to!(e.children => e.children@));
                    assert(decreases_to!(e.children@ => e.children@[i as int]));
                    assert(decreases_to!(e.children@[i as int] => (e.children@[i as int])->Element_0));
                }
                collect_matching(c, q, key, out);
                proof {
                    lemma_filter_concat(nodes_preorder(ch@.subrange(0, i as int)), preorder(*c), q, key@);
                }
            },
            _ => {
                proof {
                    assert(nodes_preorder(ch@.subrange(0, i + 1)) =~= nodes_preorder(ch@.subrange(0, i as int)));
                }
            },
        }
        i = i + 1;
    }
    proof {
        assert(ch@.subrange(0, ch@.len() as int) =~= ch@);
        lemma_filter_concat(seq![*e], nodes_preorder(e.children@), q, key@);
    }
}

/// Appends to `out` the descendants of `e` (not `e` itself) that match, in
/// document order.
pub fn collect_descendants<'a>(e: &'a Element, q: ElementQuery, key: &str, out: &mut Vec<&'a Element>)
    ensures
        final(out)@.map_values(|x: &Element| *x) == old(out)@.map_values(|x: &Element| *x)
            + matching(nodes_preorder(e.children@), q, key@),
{
    let ghost before = out@.map_values(|x: &Element| *x);
    let mut i: usize = 0;
    let ch = &e.children;
    assert(ch@.subrange(0, 0) =~= Seq::<Node>::empty());
    assert(matching(Seq::<Element>::empty(), q, key@) =~= Seq::<Element>::empty()) by {
        reveal(Seq::filter);
    }
    assert(before + Seq::<Element>::empty() =~= before);
    while i < ch.len()
        invariant
            i <= ch@.len(),
            ch == &e.children,
            out@.map_values(|x: &Element| *x) == before + matching(nodes_preorder(ch@.subrange(0, i as int)), q, key@),
        decreases ch@.len() - i,
    {
        proof {
            assert(ch@.subrange(0, i + 1).subrange(0, i as int) =~= ch@.subrange(0, i as int));
            assert(ch@.subrange(0, i + 1)[i as int] == ch@[i as int]);
        }
        match &ch[i] {
            Node::Element(c) => {
                collect_matching(c, q, key, out);
                proof {
                    lemma_filter_concat(nodes_preorder(ch@.subrange(0, i as int)), preorder(*c), q, key@);
                }
            },
            _ => {
                proof {
                    assert(nodes_preorder(ch@.subrange(0, i + 1)) =~= nodes_preorder(ch@.subrange(0, i as int)));
                }
            },
        }
        i = i + 1;
    }
    assert(ch@.subrange(0, ch@.len() as int) =~= ch@);
}

/// A document: its root element and its title.
pub struct Document {
    pub root: Element,
    pub title: Option<String>,
}

impl Document {
    /// A document with the given root and no title.
    pub fn new(root: Element) -> (r: Document)
        ensures
            r.root == root,
            r.title is None,
    {
        Document { root, title: None }
    }

    /// Sets the title.
    pub fn set_title(&mut self, title: &str)
        ensures
            final(self).title matches Some(t) && t@ == title@,
            final(self).root == old(self).root,
    {
        self.title = Some(String::from_str(title));
    }

    /// The elements of the document that match, in document order.
    pub fn find_all(&self, q: ElementQuery, key: &str) -> (r: Vec<&Element>)
        ensures
            r@.map_values(|x: &Element| *x) == matching(preorder(self.root), q, key@),
    {
        let mut out: Vec<&Element> = Vec::new();
        collect_matching(&self.root, q, key, &mut out);
        assert(Seq::<&Element>::empty().map_values(|x: &Element| *x) + matching(preorder(self.root), q, key@)
            =~= matching(preorder(self.root), q, key@));
        out
    }

    /// The first element of the document that matches, if any.
    pub fn find_first(&self, q: ElementQuery, key: &str) -> (r: Option<&Element>)
        ensures
            match r {
                Some(e) => first_matching(preorder(self.root), q, key@) == Some(*e),
                None => first_matching(preorder(self.root), q, key@) is None,
            },
    {
        let all = self.find_all(q, key);
        if all.len() > 0 {
            assert(all@.map_values(|x: &Element| *x)[0] == *all@[0]);
            Some(all[0])
        } else {
            None
        }
    }

    /// The first `body` element, if any.
    pub fn body_element(&self) -> (r: Option<&Element>)
        ensures
            match r {
                Some(e) => first_matching(preorder(self.root), ElementQuery::Tag, "body"@) == Some(*e),
                None => first_matching(preorder(self.root), ElementQuery::Tag, "body"@) is None,
            },
    {
        self.find_first(ElementQuery::Tag, "body")
    }

    /// The first `head` element, if any.
    pub fn head_element(&self) -> (r: Option<&Element>)
        ensures
            match r {
                Some(e) => first_matching(preorder(self.root), ElementQuery::Tag, "head"@) == Some(*e),
                None => first_matching(preorder(self.root), ElementQuery::Tag, "head"@) is None,
            },
    {
        self.find_first(ElementQuery::Tag, "head")
    }

    /// The first element with the given id, if any.
    pub fn get_element_by_id(&self, id: &str) -> (r: Option<&Element>)
        ensures
            match r {
                Some(e) => first_matching(preorder(self.root), ElementQuery::Id, id@) == Some(*e),
                None => first_matching(preorder(self.root), ElementQuery::Id, id@) is None,
            },
    {
        self.find_first(ElementQuery::Id, id)
    }

    /// The elements with the given class, in document order.
    pub fn get_elements_by_class_name(&self, class: &str) -> (r: Vec<&Element>)
        ensures
            r@.map_values(|x: &Element| *x) == matching(preorder(self.root), ElementQuery::Class, class@),
    {
        self.find_all(ElementQuery::Class, class)
    }

    /// The elements with the given tag name, in document order.
    pub fn get_elements_by_tag_name(&self, tag: &str) -> (r: Vec<&Element>)
        ensures
            r@.map_values(|x: &Element| *x) == matching(preorder(self.root), ElementQuery::Tag, tag@),
    {
        self.find_all(ElementQuery::Tag, tag)
    }
}


/// The attributes as plain values.
pub open spec fn attrs_view(a: Seq<(String, String)>) -> Seq<(Seq<char>, Seq<char>)> {
    Seq::new(a.len(), |i: int| (a[i].0@, a[i].1@))
}

/// Two elements hold the same tree: tag names, attributes, and children
/// node by node (text compared by content).
pub open spec fn same_element(a: Element, b: Element) -> bool
    decreases a, 2nat,
{
    &&& a.tag_name@ == b.tag_name@
    &&& attrs_view(a.attributes@) == attrs_view(b.attributes@)
    &&& same_nodes(a.children@, b.children@)
}

/// Two lists of nodes hold the same trees, in order.
pub open spec fn same_nodes(xs: Seq<Node>, ys: Seq<Node>) -> bool
    decreases xs, 1nat,
{
    xs.len() == ys.len() && (xs.len() == 0 || (
        same_nodes(xs.subrange(0, xs.len() - 1), ys.subrange(0, ys.len() - 1))
        && same_node(xs[xs.len() - 1], ys[ys.len() - 1])))
}

/// Two nodes hold the same tree.
pub open spec fn same_node(a: Node, b: Node) -> bool
    decreases a, 0nat,
{
    match a {
        Node::Element(x) => match b {
            Node::Element(y) => same_element(x, y),
            _ => false,
        },
        Node::Text(x) => match b {
            Node::Text(y) => x.data@ == y.data@,
            _ => false,
        },
        Node::Comment(x) => match b {
            Node::Comment(y) => x@ == y@,
            _ => false,
        },
    }
}

pub fn copy_attrs(a: &Vec<(String, String)>) -> (r: Vec<(String, String)>)
    ensures
        attrs_view(r@) == attrs_view(a@),
{
    let mut r: Vec<(String, String)> = Vec::new();
    let mut i: usize = 0;
    while i < a.len()
        invariant
            i <= a@.len(),
            r@.len() == i,
            forall|j: int| 0 <= j < i ==> (#[trigger] r@[j]).0@ == a@[j].0@ && r@[j].1@ == a@[j].1@,
        decreases a@.len() - i,
    {
        let k = a[i].0.clone();
        let v = a[i].1.clone();
        r.push((k, v));
        i = i + 1;
    }
    assert forall|j: int| 0 <= j < a@.len() implies #[trigger] attrs_view(r@)[j] == attrs_view(a@)[j] by {
        assert(r@[j].0@ == a@[j].0@ && r@[j].1@ == a@[j].1@);
    }
    assert(attrs_view(r@) =~= attrs_view(a@));
    r
}

/// A copy of an element's tree.
pub fn copy_element(e: &Element) -> (r: Element)
    ensures
        same_element(*e, r),
    decreases *e,
{
    let mut children: Vec<Node> = Vec::new();
    let mut i: usize = 0;
    assert(e.children@.subrange(0, 0) =~= Seq::<Node>::empty());
    while i < e.children.len()
        invariant
            i <= e.children@.len(),
            same_nodes(e.children@.subrange(0, i as int), children@),
        decreases e.children@.len() - i,
    {
        let c = match &e.children[i] {
            Node::Element(x) => {
                proof {
                    assert(decreases_to!(*e => e.children));
                    assert(decreases_to!(e.children => e.children@));
                    assert(decreases_to!(e.children@ => e.children@[i as int]));
                    assert(decreases_to!(e.children@[i as int] => (e.children@[i as int])->Element_0));
                }
                Node::Element(copy_element(x))
            },
            Node::Text(t) => Node::Text(TextNode { data: t.data.clone() }),
            Node::Comment(c) => Node::Comment(c.clone()),
        };
        let ghost c0 = children@;
        children.push(c);
        proof {
            let xs = e.children@.subrange(0, i + 1);
            assert(xs.subrange(0, xs.len() - 1) =~= e.children@.subrange(0, i as int));
            assert(children@.subrange(0, children@.len() - 1) =~= c0);
            assert(xs[xs.len() - 1] == e.children@[i as int]);
            assert(children@[children@.len() - 1] == c);
            assert(same_node(e.children@[i as int], c));
            assert(same_nodes(xs, children@));
        }
        i = i + 1;
    }
    assert(e.children@.subrange(0, e.children@.len() as int) =~= e.children@);
    Element { tag_name: e.tag_name.clone(), attributes: copy_attrs(&e.attributes), children }
}

} // verus!
