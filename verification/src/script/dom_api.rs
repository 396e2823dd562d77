//! DOM functions that scripts call: finding elements, reading and
//! replacing their content, attributes and inline styles.

use vstd::prelude::*;
use crate::html::{Document, Element, Node, TextNode, ElementQuery, attr_of, children_text, preorder, matching,
    first_matching};
use crate::strings::{chars_of, trim, trim_chars, words, split_ws, index_of_char, split_char, find_char,
    chars_range, string_of, push_char, lemma_index_of_char};

verus! {

/// Get element by ID
pub fn get_element_by_id<'a>(document: &'a Document, id: &str) -> (r: Option<&'a Element>)
    ensures
        match r {
            Some(e) => first_matching(preorder(document.root), ElementQuery::Id, id@) == Some(*e),
            None => first_matching(preorder(document.root), ElementQuery::Id, id@) is None,
        },
{
    document.get_element_by_id(id)
}

/// What a simple selector's first word looks for: `#id`, `.class`, else a
/// tag name.
pub open spec fn selector_query(w: Seq<char>) -> (ElementQuery, Seq<char>) {
    if w.len() > 0 && w[0] == '#' {
        (ElementQuery::Id, w.skip(1))
    } else if w.len() > 0 && w[0] == '.' {
        (ElementQuery::Class, w.skip(1))
    } else {
        (ElementQuery::Tag, w)
    }
}

/// The query of a selector's first word, or none for a blank selector.
fn first_query(selector: &str) -> (r: Option<(ElementQuery, String)>)
    ensures
        match r {
            Some((q, k)) => words(selector@).len() > 0 && selector_query(words(selector@)[0]) == (q, k@),
            None => words(selector@).len() == 0,
        },
{
    let cs = chars_of(selector);
    let parts = split_ws(&cs);
    if parts.len() == 0 {
        assert(parts@.map_values(|w: Vec<char>| w@).len() == 0);
        return None;
    }
    let first = &parts[0];
    assert(parts@.map_values(|w: Vec<char>| w@)[0] == first@);
    if first.len() > 0 && first[0] == '#' {
        let rest = crate::strings::chars_from(first, 1);
        Some((ElementQuery::Id, string_of(&rest)))
    } else if first.len() > 0 && first[0] == '.' {
        let rest = crate::strings::chars_from(first, 1);
        Some((ElementQuery::Class, string_of(&rest)))
    } else {
        Some((ElementQuery::Tag, string_of(first)))
    }
}

/// Query selector (simplified): the first element matching the first word
/// of the selector
pub fn query_selector<'a>(document: &'a Document, selector: &str) -> (r: Option<&'a Element>)
    ensures
        words(selector@).len() == 0 ==> r is None,
        words(selector@).len() > 0 ==> ({
            let (q, k) = selector_query(words(selector@)[0]);
            match r {
                Some(e) => first_matching(preorder(document.root), q, k) == Some(*e),
                None => first_matching(preorder(document.root), q, k) is None,
            }
        }),
{
    match first_query(selector) {
        Some((q, k)) => document.find_first(q, k.as_str()),
        None => None,
    }
}

/// Query selector all (simplified): the elements matching the first word
/// of the selector; for an id, the first such element only
pub fn query_selector_all<'a>(document: &'a Document, selector: &str) -> (r: Vec<&'a Element>)
    ensures
        words(selector@).len() == 0 ==> r@.len() == 0,
        words(selector@).len() > 0 ==> ({
            let (q, k) = selector_query(words(selector@)[0]);
            r@.map_values(|x: &Element| *x) == if q == ElementQuery::Id {
                match first_matching(preorder(document.root), q, k) {
                    Some(e) => seq![e],
                    None => Seq::<Element>::empty(),
                }
            } else {
                matching(preorder(document.root), q, k)
            }
        }),
{
    match first_query(selector) {
        Some((q, k)) => {
            if q == ElementQuery::Id {
                let mut r: Vec<&Element> = Vec::new();
                if let Some(e) = document.find_first(q, k.as_str()) {
                    r.push(e);
                    assert(r@.map_values(|x: &Element| *x) =~= seq![*e]);
                } else {
                    assert(r@.map_values(|x: &Element| *x) =~= Seq::<Element>::empty());
                }
                r
            } else {
                document.find_all(q, k.as_str())
            }
        },
        None => Vec::new(),
    }
}

/// Set element's innerHTML (simplified): the markup becomes the element's
/// only child, as text
pub fn set_inner_html(element: &mut Element, html: &str)
    ensures
        final(element).children@.len() == 1,
        final(element).children@[0] matches Node::Text(t) && t.data@ == html@,
        final(element).tag_name == old(element).tag_name,
        final(element).attributes == old(element).attributes,
{
    element.clear_children();
    element.append_child(Node::Text(TextNode::new(html)));
}

/// Get element's textContent
pub fn get_text_content(element: &Element) -> (r: String)
    ensures
        r@ == children_text(element.children@),
{
    element.text_content()
}

/// Set element's textContent: the text becomes the element's only child
pub fn set_text_content(element: &mut Element, text: &str)
    ensures
        final(element).children@.len() == 1,
        final(element).children@[0] matches Node::Text(t) && t.data@ == text@,
        final(element).tag_name == old(element).tag_name,
        final(element).attributes == old(element).attributes,
{
    element.clear_children();
    element.append_child(Node::Text(TextNode::new(text)));
}

/// Create a new element
pub fn create_element(tag_name: &str) -> (r: Element)
    ensures
        r.tag_name@ == tag_name@,
        r.attributes@.len() == 0,
        r.children@.len() == 0,
{
    Element::new(tag_name, Vec::new())
}

/// Append a child element
pub fn append_child(parent: &mut Element, child: Node)
    ensures
        final(parent).children@ == old(parent).children@.push(child),
        final(parent).tag_name == old(parent).tag_name,
        final(parent).attributes == old(parent).attributes,
{
    parent.append_child(child);
}

/// Set an attribute
pub fn set_attribute(element: &mut Element, name: &str, value: &str)
    ensures
        attr_of(final(element).attributes@, name@) == Some(value@),
        forall|n: Seq<char>| n != name@ ==> attr_of(final(element).attributes@, n) == attr_of(old(element).attributes@, n),
        final(element).tag_name == old(element).tag_name,
        final(element).children == old(element).children,
{
    element.set_attr(name, value);
}

/// Get an attribute
pub fn get_attribute(element: &Element, name: &str) -> (r: Option<String>)
    ensures
        match r {
            Some(v) => attr_of(element.attributes@, name@) == Some(v@),
            None => attr_of(element.attributes@, name@) is None,
        },
{
    match element.attr(name) {
        Some(v) => Some(String::from_str(v)),
        None => None,
    }
}


/// A piece of a style attribute split at its first `:` into a trimmed name
/// and value, if it has a `:`.
pub open spec fn decl_of(seg: Seq<char>) -> Option<(Seq<char>, Seq<char>)> {
    let k = index_of_char(seg, ':');
    if k < seg.len() { Some((trim(seg.take(k as int)), trim(seg.skip(k + 1int)))) } else { None }
}

/// The declarations among pieces of a style attribute, in order.
pub open spec fn decls_of(segs: Seq<Seq<char>>) -> Seq<(Seq<char>, Seq<char>)>
    decreases segs.len(),
{
    if segs.len() == 0 {
        Seq::empty()
    } else {
        let rest = decls_of(segs.drop_last());
        match decl_of(segs.last()) {
            Some(d) => rest.push(d),
            None => rest,
        }
    }
}

/// The declarations of a style attribute: its `;`-separated pieces that
/// hold a `:`.
pub open spec fn style_decls(style: Seq<char>) -> Seq<(Seq<char>, Seq<char>)> {
    decls_of(split_char(style, ';'))
}

/// The value of the first declaration of `prop`, if any.
pub open spec fn decl_value(ds: Seq<(Seq<char>, Seq<char>)>, prop: Seq<char>) -> Option<Seq<char>>
    decreases ds.len(),
{
    if ds.len() == 0 {
        None
    } else if ds[0].0 == prop {
        Some(ds[0].1)
    } else {
        decl_value(ds.drop_first(), prop)
    }
}

/// The declarations with the first one of `prop` given the value `val`, or
/// with `prop: val` added at the end.
pub open spec fn set_decl(ds: Seq<(Seq<char>, Seq<char>)>, prop: Seq<char>, val: Seq<char>) -> Seq<(Seq<char>, Seq<char>)>
    decreases ds.len(),
{
    if ds.len() == 0 {
        seq![(prop, val)]
    } else if ds[0].0 == prop {
        seq![(prop, val)] + ds.drop_first()
    } else {
        seq![ds[0]] + set_decl(ds.drop_first(), prop, val)
    }
}

/// Declarations written out: `name: value` pairs joined by `; `.
pub open spec fn style_text(ds: Seq<(Seq<char>, Seq<char>)>) -> Seq<char>
    decreases ds.len(),
{
    if ds.len() == 0 {
        Seq::empty()
    } else if ds.len() == 1 {
        ds[0].0 + ": "@ + ds[0].1
    } else {
        style_text(ds.drop_last()) + "; "@ + ds.last().0 + ": "@ + ds.last().1
    }
}

/// The declarations of a style attribute text.
fn parse_decls(style: &Vec<char>) -> (r: Vec<(Vec<char>, Vec<char>)>)
    ensures
        r@.len() == style_decls(style@).len(),
        forall|i: int| 0 <= i < r@.len() ==> (#[trigger] r@[i]).0@ == style_decls(style@)[i].0
            && r@[i].1@ == style_decls(style@)[i].1,
{
    let mut r: Vec<(Vec<char>, Vec<char>)> = Vec::new();
    let mut segs_done: Ghost<Seq<Seq<char>>> = Ghost(Seq::empty());
    let mut i: usize = 0;
    let mut done = false;
    assert(style@.skip(0) =~= style@);
    while !done
        invariant
            i <= style@.len(),
            done ==> segs_done@ == split_char(style@, ';'),
            !done ==> segs_done@ + split_char(style@.skip(i as int), ';') == split_char(style@, ';'),
            r@.len() == decls_of(segs_done@).len(),
            forall|k: int| 0 <= k < r@.len() ==> (#[trigger] r@[k]).0@ == decls_of(segs_done@)[k].0
                && r@[k].1@ == decls_of(segs_done@)[k].1,
        decreases style@.len() - i, if done { 0int } else { 1int },
    {
        let j = find_char(style, i, ';');
        let seg = chars_range(style, i, j);
        let ghost t = style@.skip(i as int);
        proof {
            lemma_index_of_char(t, ';');
            assert(t.take((j - i) as int) =~= seg@);
        }
        let k = find_char(&seg, 0, ':');
        proof {
            assert(seg@.skip(0) =~= seg@);
        }
        let ghost before = segs_done@;
        if k < seg.len() {
            let name_raw = chars_range(&seg, 0, k);
            let value_raw = chars_range(&seg, k + 1, seg.len());
            let name = trim_chars(&name_raw);
            let value = trim_chars(&value_raw);
            proof {
                assert(name_raw@ =~= seg@.take(k as int));
                assert(value_raw@ =~= seg@.skip(k + 1int));
            }
            r.push((name, value));
        }
        proof {
            segs_done@ = before.push(seg@);
            assert(segs_done@.drop_last() =~= before);
            assert(forall|kk: int| 0 <= kk < r@.len() ==> (#[trigger] r@[kk]).0@ == decls_of(segs_done@)[kk].0
                && r@[kk].1@ == decls_of(segs_done@)[kk].1);
        }
        if j == style.len() {
            proof {
                assert(split_char(t, ';') == seq![t]);
                assert(t =~= seg@);
                assert(before + seq![seg@] =~= segs_done@);
            }
            done = true;
        } else {
            proof {
                assert(t.skip((j - i) + 1) =~= style@.skip(j + 1));
                assert(split_char(t, ';') == seq![seg@] + split_char(style@.skip(j + 1), ';'));
                assert(before + (seq![seg@] + split_char(style@.skip(j + 1), ';'))
                    =~= segs_done@ + split_char(style@.skip(j + 1), ';'));
            }
            i = j + 1;
        }
    }
    r
}

/// Get element style property: the value of its first declaration in the
/// `style` attribute, if any
pub fn get_style(element: &Element, property: &str) -> (r: Option<String>)
    ensures
        match attr_of(element.attributes@, "style"@) {
            Some(s) => match r {
                Some(v) => decl_value(style_decls(s), property@) == Some(v@),
                None => decl_value(style_decls(s), property@) is None,
            },
            None => r is None,
        },
{
    let style = match element.attr("style") {
        Some(s) => s,
        None => return None,
    };
    let cs = chars_of(style);
    let ds = parse_decls(&cs);
    let p = chars_of(property);
    let mut i: usize = 0;
    let ghost sd = style_decls(cs@);
    assert(sd.skip(0) =~= sd);
    while i < ds.len()
        invariant
            i <= ds@.len(),
            p@ == property@,
            cs@ == style@,
            sd == style_decls(cs@),
            attr_of(element.attributes@, "style"@) == Some(style@),
            ds@.len() == sd.len(),
            forall|k: int| 0 <= k < ds@.len() ==> (#[trigger] ds@[k]).0@ == sd[k].0 && ds@[k].1@ == sd[k].1,
            decl_value(sd, property@) == decl_value(sd.skip(i as int), property@),
        decreases ds@.len() - i,
    {
        assert(sd.skip(i as int).drop_first() =~= sd.skip(i + 1));
        assert(ds@[i as int].0@ == sd[i as int].0);
        if crate::strings::seq_eq(&ds[i].0, &p) {
            assert(sd.skip(i as int)[0] == sd[i as int]);
            assert(decl_value(sd.skip(i as int), property@) == Some(sd[i as int].1));
            let out = string_of(&ds[i].1);
            assert(out@ == sd[i as int].1);
            assert(sd == style_decls(style@));
            assert(attr_of(element.attributes@, "style"@) == Some(style@));
            return Some(out);
        }
        i = i + 1;
    }
    assert(sd.skip(i as int) =~= Seq::<(Seq<char>, Seq<char>)>::empty());
    None
}

/// Set element style: the property takes the value (its first declaration
/// replaced, or a declaration appended), and the `style` attribute is
/// rewritten as `name: value` pairs joined by `; `
pub fn set_style(element: &mut Element, property: &str, value: &str)
    ensures
        attr_of(final(element).attributes@, "style"@) == Some(style_text(set_decl(
            style_decls(match attr_of(old(element).attributes@, "style"@) { Some(s) => s, None => ""@ }),
            property@, value@))),
        forall|n: Seq<char>| n != "style"@ ==> attr_of(final(element).attributes@, n) == attr_of(old(element).attributes@, n),
        final(element).tag_name == old(element).tag_name,
        final(element).children == old(element).children,
{
    let cs = match element.attr("style") {
        Some(s) => chars_of(s),
        None => chars_of(""),
    };
    let mut ds = parse_decls(&cs);
    let ghost sd = style_decls(cs@);
    let p = chars_of(property);
    let v = chars_of(value);
    let mut i: usize = 0;
    let mut found = false;
    assert(sd.skip(0) =~= sd);
    while !found && i < ds.len()
        invariant
            i <= ds@.len(),
            p@ == property@,
            ds@.len() == sd.len(),
            forall|k: int| 0 <= k < ds@.len() ==> (#[trigger] ds@[k]).0@ == sd[k].0 && ds@[k].1@ == sd[k].1,
            forall|k: int| 0 <= k < i ==> sd[k].0 != property@,
            found ==> i < sd.len() && sd[i as int].0 == property@,
        decreases ds@.len() - i, if found { 0int } else { 1int },
    {
        if crate::strings::seq_eq(&ds[i].0, &p) {
            found = true;
        } else {
            i = i + 1;
        }
    }
    let ghost target = set_decl(sd, property@, value@);
    proof { lemma_set_decl(sd, property@, value@, i as int); }
    if found {
        ds.set(i, (p, v));
    } else {
        ds.push((p, v));
    }
    proof {
        assert forall|k: int| 0 <= k < ds@.len() implies (#[trigger] ds@[k]).0@ == target[k].0 && ds@[k].1@ == target[k].1 by {
        }
    }
    let text = write_decls(&ds);
    assert(Seq::new(ds@.len(), |k: int| (ds@[k].0@, ds@[k].1@)) =~= target);
    element.set_attr("style", text.as_str());
}

proof fn lemma_set_decl(ds: Seq<(Seq<char>, Seq<char>)>, prop: Seq<char>, val: Seq<char>, i: int)
    requires
        0 <= i <= ds.len(),
        forall|k: int| 0 <= k < i ==> ds[k].0 != prop,
        i < ds.len() ==> ds[i].0 == prop,
    ensures
        i < ds.len() ==> set_decl(ds, prop, val) == ds.update(i, (prop, val)),
        i == ds.len() ==> set_decl(ds, prop, val) == ds.push((prop, val)),
    decreases i,
{
    if ds.len() == 0 {
        assert(seq![(prop, val)] =~= ds.push((prop, val)));
    } else if i == 0 {
        assert(seq![(prop, val)] + ds.drop_first() =~= ds.update(0, (prop, val)));
    } else {
        lemma_set_decl(ds.drop_first(), prop, val, i - 1);
        if i < ds.len() {
            assert(seq![ds[0]] + ds.drop_first().update(i - 1, (prop, val)) =~= ds.update(i, (prop, val)));
        } else {
            assert(seq![ds[0]] + ds.drop_first().push((prop, val)) =~= ds.push((prop, val)));
        }
    }
}

/// Declarations written out as `name: value` pairs joined by `; `.
fn write_decls(ds: &Vec<(Vec<char>, Vec<char>)>) -> (r: String)
    ensures
        r@ == style_text(Seq::new(ds@.len(), |k: int| (ds@[k].0@, ds@[k].1@))),
{
    let ghost dv = Seq::new(ds@.len(), |k: int| (ds@[k].0@, ds@[k].1@));
    let mut out = String::new();
    let mut i: usize = 0;
    while i < ds.len()
        invariant
            i <= ds@.len(),
            dv == Seq::new(ds@.len(), |k: int| (ds@[k].0@, ds@[k].1@)),
            out@ == style_text(dv.take(i as int)),
        decreases ds@.len() - i,
    {
        if i > 0 {
            out.append("; ");
        }
        let n = string_of(&ds[i].0);
        out.append(n.as_str());
        out.append(": ");
        let v = string_of(&ds[i].1);
        out.append(v.as_str());
        proof {
            let t = dv.take(i + 1);
            assert(t.drop_last() =~= dv.take(i as int));
            assert(t.last() == (ds@[i as int].0@, ds@[i as int].1@));
            if i == 0 {
                assert(t.len() == 1);
            }
        }
        i = i + 1;
    }
    assert(dv.take(ds@.len() as int) =~= dv);
    out
}

} // verus!
