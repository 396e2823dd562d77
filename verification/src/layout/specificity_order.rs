//! The order in which author rules apply: by specificity, and rules of
//! equal specificity in the order they were written.

use vstd::prelude::*;
use crate::layout::cascade::{StyleRule, by_specificity, insert_position, rule_specificity, specificity_le};

verus! {

/// Every rule orders no later than each rule after it.
pub open spec fn sorted_by_specificity(s: Seq<StyleRule>) -> bool {
    forall|i: int, j: int| 0 <= i < j < s.len()
        ==> specificity_le(rule_specificity(#[trigger] s[i]), rule_specificity(#[trigger] s[j]))
}

/// Whether a rule has specificity `k`.
pub open spec fn has_specificity(k: (int, int, int)) -> spec_fn(StyleRule) -> bool {
    |r: StyleRule| rule_specificity(r) == k
}

proof fn lemma_insert_position_splits(s: Seq<StyleRule>, x: StyleRule)
    requires
        sorted_by_specificity(s),
    ensures
        0 <= insert_position(s, x) <= s.len(),
        forall|i: int| 0 <= i < insert_position(s, x)
            ==> specificity_le(rule_specificity(#[trigger] s[i]), rule_specificity(x)),
        forall|i: int| insert_position(s, x) <= i < s.len()
            ==> !specificity_le(rule_specificity(#[trigger] s[i]), rule_specificity(x)),
    decreases s.len(),
{
    if s.len() > 0 {
        let d = s.drop_last();
        assert(sorted_by_specificity(d)) by {
            assert forall|i: int, j: int| 0 <= i < j < d.len() implies
                specificity_le(rule_specificity(#[trigger] d[i]), rule_specificity(#[trigger] d[j])) by {
                assert(d[i] == s[i] && d[j] == s[j]);
            }
        }
        lemma_insert_position_splits(d, x);
        if specificity_le(rule_specificity(s.last()), rule_specificity(x)) {
            assert forall|i: int| 0 <= i < s.len() implies
                specificity_le(rule_specificity(#[trigger] s[i]), rule_specificity(x)) by {
                if i < s.len() - 1 {
                    assert(specificity_le(rule_specificity(s[i]), rule_specificity(s[s.len() - 1])));
                }
            }
        } else {
            assert forall|i: int| insert_position(s, x) <= i < s.len() implies
                !specificity_le(rule_specificity(#[trigger] s[i]), rule_specificity(x)) by {
                if i < s.len() - 1 {
                    assert(d[i] == s[i]);
                }
            }
            assert forall|i: int| 0 <= i < insert_position(s, x) implies
                specificity_le(rule_specificity(#[trigger] s[i]), rule_specificity(x)) by {
                assert(d[i] == s[i]);
            }
        }
    }
}

proof fn lemma_none_of_specificity(s: Seq<StyleRule>, k: (int, int, int))
    requires
        forall|i: int| 0 <= i < s.len() ==> rule_specificity(#[trigger] s[i]) != k,
    ensures
        s.filter(has_specificity(k)) == Seq::<StyleRule>::empty(),
    decreases s.len(),
{
    reveal(Seq::filter);
    if s.len() > 0 {
        let d = s.drop_last();
        assert forall|i: int| 0 <= i < d.len() implies rule_specificity(#[trigger] d[i]) != k by {
            assert(d[i] == s[i]);
        }
        lemma_none_of_specificity(d, k);
        assert(!has_specificity(k)(s.last()));
    }
}

/// Author rules are applied in order of specificity, and rules of equal
/// specificity in the order they were written: the ordering is sorted by
/// specificity, and for every specificity the rules that have it come in
/// the same order as in the source (so it is also a rearrangement of the
/// source, keeping its length).
pub proof fn lemma_by_specificity_sorted_and_stable(rs: Seq<StyleRule>)
    ensures
        sorted_by_specificity(by_specificity(rs)),
        by_specificity(rs).len() == rs.len(),
        forall|k: (int, int, int)| #[trigger] by_specificity(rs).filter(has_specificity(k))
            == rs.filter(has_specificity(k)),
    decreases rs.len(),
{
    if rs.len() > 0 {
        let d = rs.drop_last();
        let x = rs.last();
        lemma_by_specificity_sorted_and_stable(d);
        let s = by_specificity(d);
        lemma_insert_position_splits(s, x);
        let p = insert_position(s, x);
        let a = s.subrange(0, p);
        let b = s.subrange(p, s.len() as int);
        let out = by_specificity(rs);
        assert(out == s.insert(p, x));
        assert(out =~= a + seq![x] + b);
        assert(s =~= a + b);
        assert forall|i: int, j: int| 0 <= i < j < out.len() implies
            specificity_le(rule_specificity(#[trigger] out[i]), rule_specificity(#[trigger] out[j])) by {
            if j < p {
                assert(out[i] == s[i] && out[j] == s[j]);
            } else if j == p {
                assert(out[i] == s[i] && out[j] == x);
            } else if i < p {
                assert(out[i] == s[i] && out[j] == s[j - 1]);
            } else if i == p {
                assert(out[i] == x && out[j] == s[j - 1]);
                assert(!specificity_le(rule_specificity(s[j - 1]), rule_specificity(x)));
            } else {
                assert(out[i] == s[i - 1] && out[j] == s[j - 1]);
            }
        }
        assert forall|k: (int, int, int)| #[trigger] out.filter(has_specificity(k))
            == rs.filter(has_specificity(k)) by {
            let f = has_specificity(k);
            Seq::filter_distributes_over_add(a + seq![x], b, f);
            Seq::filter_distributes_over_add(a, seq![x], f);
            Seq::filter_distributes_over_add(a, b, f);
            assert(rs =~= d.push(x));
            assert(rs.drop_last() =~= d);
            assert(d.filter(f) == s.filter(f));
            assert(rs.filter(f) == if f(x) { d.filter(f).push(x) } else { d.filter(f) }) by {
                reveal(Seq::filter);
            }
            let e = Seq::<StyleRule>::empty();
            assert(e.filter(f) == e) by {
                reveal(Seq::filter);
            }
            assert(seq![x] =~= e.push(x));
            assert(e.push(x).drop_last() =~= e);
            assert(e.push(x).filter(f) == if f(x) { e.push(x) } else { e }) by {
                reveal(Seq::filter);
            }
            if f(x) {
                assert forall|i: int| 0 <= i < b.len() implies rule_specificity(#[trigger] b[i]) != k by {
                    assert(b[i] == s[p + i]);
                }
                lemma_none_of_specificity(b, k);
                assert(out.filter(f) =~= a.filter(f).push(x));
                assert(s.filter(f) =~= a.filter(f));
            } else {
                assert(out.filter(f) =~= a.filter(f) + b.filter(f));
            }
        }
    }
}

} // verus!
