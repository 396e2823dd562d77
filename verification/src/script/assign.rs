//! The simple DOM assignments that the script engine applies without a
//! JavaScript interpreter: `document.title = '...'` and
//! `document.getElementById('...').innerHTML = '...'` (or `.textContent`).

use vstd::prelude::*;
use crate::strings::{index_of_char, trim, find_char, chars_from, chars_range, trim_chars, chars_of,
    string_of, find_text, find_from, find_text_of, find_from_of, is_quote, lemma_find_from};
use crate::html::attrs_view;

verus! {

/// The text between a leading quote of `v` and the next same quote.
pub open spec fn quoted_prefix(v: Seq<char>) -> Option<Seq<char>> {
    if v.len() > 0 && is_quote(v[0]) {
        let k = index_of_char(v.drop_first(), v[0]);
        if k < v.len() - 1 { Some(v.drop_first().take(k as int)) } else { None }
    } else {
        None
    }
}

/// The quoted text after the first `=` of `v`, white space around it
/// trimmed.
pub open spec fn value_after_eq(v: Seq<char>) -> Option<Seq<char>> {
    let e = index_of_char(v, '=');
    if e < v.len() { quoted_prefix(trim(v.skip(e + 1int))) } else { None }
}

/// The title that `content` assigns with `document.title = '...'`: the
/// quoted text after the first `=` that follows its first mention.
pub open spec fn title_assignment(content: Seq<char>) -> Option<Seq<char>> {
    match find_text(content, "document.title"@) {
        None => None,
        Some(p) => value_after_eq(content.skip((p + "document.title"@.len()) as int)),
    }
}

/// After `document.getElementById(`, a quoted id, and, where `prop`
/// occurs later, the quoted value after the next `=`.
pub open spec fn id_assignment(after: Seq<char>, prop: Seq<char>) -> Option<(Seq<char>, Seq<char>)> {
    match quoted_prefix(after) {
        None => None,
        Some(id) => {
            let rest = after.skip(id.len() + 2int);
            if find_text(rest, prop) is Some {
                match value_after_eq(rest) {
                    Some(v) => Some((id, v)),
                    None => None,
                }
            } else {
                None
            }
        },
    }
}

/// The `(id, value)` assignments of `prop` at the occurrences of `pat` in
/// `c` from position `i` on, in order.
pub open spec fn assignments_from(c: Seq<char>, pat: Seq<char>, prop: Seq<char>, i: nat) -> Seq<(Seq<char>, Seq<char>)>
    decreases c.len() + 1 - i,
{
    if pat.len() == 0 {
        Seq::empty()
    } else {
        match find_from(c, pat, i) {
            None => Seq::empty(),
            Some(p) => {
                proof { lemma_find_from(c, pat, i); }
                (match id_assignment(c.skip((p + pat.len()) as int), prop) {
                    Some(a) => seq![a],
                    None => Seq::empty(),
                }) + assignments_from(c, pat, prop, p + pat.len())
            },
        }
    }
}

/// The `(id, value)` pairs that `content` assigns to `prop` with
/// `document.getElementById('id').prop = 'value'`, in order.
pub open spec fn id_assignments(content: Seq<char>, prop: Seq<char>) -> Seq<(Seq<char>, Seq<char>)> {
    assignments_from(content, "document.getElementById("@, prop, 0)
}

/// What `quoted_prefix` gives.
fn quoted_prefix_of(v: &Vec<char>) -> (r: Option<Vec<char>>)
    ensures
        r is None <==> quoted_prefix(v@) is None,
        r matches Some(x) ==> quoted_prefix(v@) == Some(x@),
{
    if v.len() > 0 && (v[0] == '"' || v[0] == '\'') {
        let k = find_char(v, 1, v[0]);
        assert(v@.skip(1) =~= v@.drop_first());
        if k < v.len() {
            assert(v@.drop_first().take(k - 1) =~= v@.subrange(1, k as int));
            Some(chars_range(v, 1, k))
        } else {
            None
        }
    } else {
        None
    }
}

/// What `value_after_eq` gives.
fn value_after_eq_of(v: &Vec<char>) -> (r: Option<Vec<char>>)
    ensures
        r is None <==> value_after_eq(v@) is None,
        r matches Some(x) ==> value_after_eq(v@) == Some(x@),
{
    let e = find_char(v, 0, '=');
    assert(v@.skip(0) =~= v@);
    if e < v.len() {
        let rest = chars_from(v, e + 1);
        let t = trim_chars(&rest);
        quoted_prefix_of(&t)
    } else {
        None
    }
}

/// What `id_assignment` gives.
fn id_assignment_of(after: &Vec<char>, prop: &Vec<char>) -> (r: Option<(Vec<char>, Vec<char>)>)
    ensures
        r is None <==> id_assignment(after@, prop@) is None,
        r matches Some((a, b)) ==> id_assignment(after@, prop@) == Some((a@, b@)),
{
    let n = after.len();
    match quoted_prefix_of(after) {
        None => None,
        Some(id) => {
            let rest = chars_from(after, id.len() + 2);
            if find_text_of(&rest, prop).is_some() {
                match value_after_eq_of(&rest) {
                    Some(v) => Some((id, v)),
                    None => None,
                }
            } else {
                None
            }
        },
    }
}

/// What `assignments_from(c, pat, prop, 0)` gives, as strings.
fn assignments_of(c: &Vec<char>, pat: &Vec<char>, prop: &Vec<char>) -> (r: Vec<(String, String)>)
    requires
        pat@.len() > 0,
    ensures
        attrs_view(r@) == assignments_from(c@, pat@, prop@, 0),
{
    let mut r: Vec<(String, String)> = Vec::new();
    let mut i: usize = 0;
    let n = c.len();
    loop
        invariant
            pat@.len() > 0,
            n == c@.len(),
            i <= c@.len(),
            attrs_view(r@) + assignments_from(c@, pat@, prop@, i as nat) == assignments_from(c@, pat@, prop@, 0),
        ensures
            attrs_view(r@) == assignments_from(c@, pat@, prop@, 0),
        decreases c@.len() - i,
    {
        match find_from_of(c, pat, i) {
            None => {
                assert(attrs_view(r@) + Seq::<(Seq<char>, Seq<char>)>::empty() =~= attrs_view(r@));
                break;
            },
            Some(p) => {
                proof { lemma_find_from(c@, pat@, i as nat); }
                let after = chars_from(c, p + pat.len());
                let ghost before = attrs_view(r@);
                match id_assignment_of(&after, prop) {
                    Some((a, b)) => {
                        r.push((string_of(&a), string_of(&b)));
                        assert(attrs_view(r@) =~= before + seq![(a@, b@)]);
                    },
                    None => {
                        assert(attrs_view(r@) =~= before + Seq::<(Seq<char>, Seq<char>)>::empty());
                    },
                }
                assert(attrs_view(r@) + assignments_from(c@, pat@, prop@, (p + pat@.len()) as nat)
                    =~= before + assignments_from(c@, pat@, prop@, i as nat));
                i = p + pat.len();
            },
        }
    }
    r
}

/// Extract document.title assignment
pub fn extract_document_title(content: &str) -> (r: Option<String>)
    ensures
        r is None <==> title_assignment(content@) is None,
        r matches Some(t) ==> title_assignment(content@) == Some(t@),
{
    let c = chars_of(content);
    let n = c.len();
    let pat = chars_of("document.title");
    match find_text_of(&c, &pat) {
        None => None,
        Some(p) => {
            proof { lemma_find_from(c@, pat@, 0); }
            let after = chars_from(&c, p + pat.len());
            match value_after_eq_of(&after) {
                Some(v) => Some(string_of(&v)),
                None => None,
            }
        },
    }
}

/// Extract document.getElementById('id').innerHTML = '...' patterns
pub fn extract_inner_html_assignments(content: &str) -> (r: Vec<(String, String)>)
    ensures
        attrs_view(r@) == id_assignments(content@, "innerHTML"@),
{
    let c = chars_of(content);
    let pat = chars_of("document.getElementById(");
    let prop = chars_of("innerHTML");
    proof { reveal_strlit("document.getElementById("); }
    assignments_of(&c, &pat, &prop)
}

/// Extract document.getElementById('id').textContent = '...' patterns
pub fn extract_text_content_assignments(content: &str) -> (r: Vec<(String, String)>)
    ensures
        attrs_view(r@) == id_assignments(content@, "textContent"@),
{
    let c = chars_of(content);
    let pat = chars_of("document.getElementById(");
    let prop = chars_of("textContent");
    proof { reveal_strlit("document.getElementById("); }
    assignments_of(&c, &pat, &prop)
}

} // verus!
