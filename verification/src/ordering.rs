//! Sorting strings in the order of `String`.

use vstd::prelude::*;

use crate::text::{
    lemma_seq_less_asymmetric, lemma_seq_less_total,
    lemma_seq_less_transitive, same_str, seq_less, seq_less_eq, str_less,
};

verus! {

broadcast use vstd::seq_lib::group_to_multiset_ensures;

/// The characters of each string.
pub open spec fn texts(v: Seq<String>) -> Seq<Seq<char>> {
    v.map_values(|s: String| s@)
}

/// Each text is less than or equal to the next ones.
pub open spec fn sorted_texts(s: Seq<Seq<char>>) -> bool {
    forall|a: int, b: int| 0 <= a < b < s.len() ==> seq_less_eq(#[trigger] s[a], #[trigger] s[b])
}

/// Each text is less than the next ones: sorted, no text twice.
pub open spec fn strictly_sorted_texts(s: Seq<Seq<char>>) -> bool {
    forall|a: int, b: int| 0 <= a < b < s.len() ==> seq_less(#[trigger] s[a], #[trigger] s[b])
}

proof fn lemma_texts_insert(v: Seq<String>, pos: int, x: String)
    requires
        0 <= pos <= v.len(),
    ensures
        texts(v.insert(pos, x)) == texts(v).insert(pos, x@),
{
    assert(texts(v.insert(pos, x)) =~= texts(v).insert(pos, x@));
}

/// First index whose text is greater than `x`, and every text before it is at
/// most `x`.
fn insertion_point(r: &Vec<String>, x: &String) -> (pos: usize)
    requires
        sorted_texts(texts(r@)),
    ensures
        pos <= r.len(),
        forall|a: int| 0 <= a < pos ==> seq_less_eq(#[trigger] texts(r@)[a], x@),
        forall|b: int| pos <= b < r.len() ==> seq_less(x@, #[trigger] texts(r@)[b]),
{
    let ghost t = texts(r@);
    let mut pos: usize = 0;
    while pos < r.len() && !str_less(x.as_str(), r[pos].as_str())
        invariant
            pos <= r.len(),
            t == texts(r@),
            forall|a: int| 0 <= a < pos ==> seq_less_eq(#[trigger] t[a], x@),
        decreases r.len() - pos,
    {
        proof {
            lemma_seq_less_total(x@, t[pos as int]);
        }
        pos = pos + 1;
    }
    proof {
        if pos < r.len() {
            assert forall|b: int| pos <= b < r.len() implies seq_less(x@, #[trigger] t[b]) by {
                if b > pos {
                    if t[pos as int] != t[b] {
                        lemma_seq_less_transitive(x@, t[pos as int], t[b]);
                    }
                }
            }
        }
    }
    pos
}

/// `v` sorted in the order of `String` (as `slice::sort`): the same strings,
/// each at most the next.
pub fn sort_texts(v: Vec<String>) -> (r: Vec<String>)
    ensures
        sorted_texts(texts(r@)),
        texts(r@).to_multiset() == texts(v@).to_multiset(),
{
    let mut r: Vec<String> = Vec::new();
    let mut i: usize = 0;
    while i < v.len()
        invariant
            i <= v.len(),
            sorted_texts(texts(r@)),
            texts(r@).to_multiset() == texts(v@.take(i as int)).to_multiset(),
        decreases v.len() - i,
    {
        let x = v[i].clone();
        let pos = insertion_point(&r, &x);
        let ghost old_r = r@;
        r.insert(pos, x);
        proof {
            lemma_texts_insert(old_r, pos as int, x);
            let t = texts(r@);
            assert forall|a: int, b: int| 0 <= a < b < t.len() implies seq_less_eq(
                #[trigger] t[a],
                #[trigger] t[b],
            ) by {
                let ot = texts(old_r);
                if a < pos && b == pos {
                    assert(t[a] == ot[a]);
                } else if a == pos && b > pos {
                    assert(t[b] == ot[b - 1]);
                } else if a < pos && b > pos {
                    assert(t[a] == ot[a]);
                    assert(t[b] == ot[b - 1]);
                    assert(seq_less(x@, ot[b - 1]));
                    if ot[a] != x@ {
                        lemma_seq_less_transitive(ot[a], x@, ot[b - 1]);
                    }
                } else if b < pos {
                    assert(t[a] == ot[a] && t[b] == ot[b]);
                } else {
                    assert(t[a] == ot[a - 1] && t[b] == ot[b - 1]);
                }
            }
            vstd::seq_lib::to_multiset_insert(texts(old_r), pos as int, x@);
            assert(v@.take(i + 1) =~= v@.take(i as int).push(v@[i as int]));
            assert(texts(v@.take(i + 1)) =~= texts(v@.take(i as int)).push(v@[i as int]@));
        }
        i = i + 1;
    }
    assert(v@.take(v.len() as int) =~= v@);
    r
}

/// The distinct strings of `v`, in the order of `String`.
pub fn distinct_sorted_texts(v: &Vec<String>) -> (r: Vec<String>)
    ensures
        strictly_sorted_texts(texts(r@)),
        texts(r@).to_set() == texts(v@).to_set(),
{
    let mut r: Vec<String> = Vec::new();
    let mut i: usize = 0;
    while i < v.len()
        invariant
            i <= v.len(),
            strictly_sorted_texts(texts(r@)),
            texts(r@).to_set() == texts(v@.take(i as int)).to_set(),
        decreases v.len() - i,
    {
        let x = v[i].clone();
        let ghost old_r = r@;
        let ghost ot = texts(old_r);
        assert(sorted_texts(ot)) by {
            assert forall|a: int, b: int| 0 <= a < b < ot.len() implies seq_less_eq(
                #[trigger] ot[a],
                #[trigger] ot[b],
            ) by {}
        }
        let pos = insertion_point(&r, &x);
        let present = pos > 0 && same_str(r[pos - 1].as_str(), x.as_str());
        assert(texts(v@.take(i + 1)) =~= texts(v@.take(i as int)).push(x@)) by {
            assert(v@.take(i + 1) =~= v@.take(i as int).push(v@[i as int]));
        }
        if !present {
            r.insert(pos, x);
            proof {
                lemma_texts_insert(old_r, pos as int, x);
                let t = texts(r@);
                if pos > 0 {
                    assert(seq_less_eq(ot[pos - 1], x@));
                    assert(seq_less(ot[pos - 1], x@));
                }
                assert forall|a: int, b: int| 0 <= a < b < t.len() implies seq_less(
                    #[trigger] t[a],
                    #[trigger] t[b],
                ) by {
                    if a < pos && b == pos {
                        assert(t[a] == ot[a]);
                        if a < pos - 1 {
                            lemma_seq_less_transitive(ot[a], ot[pos - 1], x@);
                        }
                    } else if a == pos && b > pos {
                        assert(t[b] == ot[b - 1]);
                    } else if a < pos && b > pos {
                        assert(t[a] == ot[a]);
                        assert(t[b] == ot[b - 1]);
                        assert(seq_less(ot[a], ot[b - 1]));
                    } else if b < pos {
                        assert(t[a] == ot[a] && t[b] == ot[b]);
                    } else {
                        assert(t[a] == ot[a - 1] && t[b] == ot[b - 1]);
                    }
                }
                assert(t.to_set() =~= ot.to_set().insert(x@)) by {
                    assert forall|e: Seq<char>| t.to_set().contains(e) implies ot.to_set().insert(
                        x@,
                    ).contains(e) by {
                        let k = choose|k: int| 0 <= k < t.len() && t[k] == e;
                        if k < pos {
                            assert(ot[k] == e);
                        } else if k > pos {
                            assert(ot[k - 1] == e);
                        }
                    }
                    assert forall|e: Seq<char>| ot.to_set().insert(x@).contains(e) implies t.to_set().contains(e) by {
                        if e == x@ {
                            assert(t[pos as int] == e);
                        } else {
                            let k = choose|k: int| 0 <= k < ot.len() && ot[k] == e;
                            if k < pos {
                                assert(t[k] == e);
                            } else {
                                assert(t[k + 1] == e);
                            }
                        }
                    }
                }
                let p = texts(v@.take(i as int));
                assert(p.push(x@).to_set() =~= p.to_set().insert(x@)) by {
                    assert forall|e: Seq<char>| p.push(x@).to_set().contains(e) implies p.to_set().insert(x@).contains(e) by {
                        let k = choose|k: int| 0 <= k < p.len() + 1 && p.push(x@)[k] == e;
                        if k < p.len() {
                            assert(p[k] == e);
                        }
                    }
                    assert forall|e: Seq<char>| p.to_set().insert(x@).contains(e) implies p.push(x@).to_set().contains(e) by {
                        if e == x@ {
                            assert(p.push(x@)[p.len() as int] == e);
                        } else {
                            let k = choose|k: int| 0 <= k < p.len() && p[k] == e;
                            assert(p.push(x@)[k] == e);
                        }
                    }
                }
            }
        } else {
            proof {
                assert(ot[pos - 1] == x@);
                let p = texts(v@.take(i as int));
                assert(ot.to_set().contains(x@));
                assert(p.push(x@).to_set() =~= p.to_set()) by {
                    assert forall|e: Seq<char>| p.push(x@).to_set().contains(e) implies p.to_set().contains(e) by {
                        let k = choose|k: int| 0 <= k < p.len() + 1 && p.push(x@)[k] == e;
                        if k < p.len() {
                            assert(p[k] == e);
                        } else {
                            assert(p.to_set().contains(x@));
                        }
                    }
                    assert forall|e: Seq<char>| p.to_set().contains(e) implies p.push(x@).to_set().contains(e) by {
                        let k = choose|k: int| 0 <= k < p.len() && p[k] == e;
                        assert(p.push(x@)[k] == e);
                    }
                }
            }
        }
        i = i + 1;
    }
    assert(v@.take(v.len() as int) =~= v@);
    r
}

// ---------------------------------------------------------------------------
// Laws
// ---------------------------------------------------------------------------

/// A sorted arrangement of a collection of texts is unique: two sorted
/// sequences holding the same texts, each as often, are equal. So what
/// `sort_texts` returns is determined by the texts it is given, whatever
/// their order.
pub proof fn law_sorted_arrangement_unique(s: Seq<Seq<char>>, t: Seq<Seq<char>>)
    requires
        sorted_texts(s),
        sorted_texts(t),
        s.to_multiset() == t.to_multiset(),
    ensures
        s == t,
    decreases s.len(),
{
    vstd::seq_lib::to_multiset_len(s);
    vstd::seq_lib::to_multiset_len(t);
    if s.len() > 0 {
        let m = s.to_multiset();
        // the last elements are the greatest of the same multiset, hence equal
        vstd::seq_lib::to_multiset_contains(s, s.last());
        vstd::seq_lib::to_multiset_contains(t, t.last());
        assert(t.to_multiset().contains(s.last()));
        assert(s.to_multiset().contains(t.last()));
        let i = choose|i: int| 0 <= i < t.len() && t[i] == s.last();
        let j = choose|j: int| 0 <= j < s.len() && s[j] == t.last();
        assert(seq_less_eq(s.last(), t.last())) by {
            if i < t.len() - 1 {
                assert(seq_less_eq(t[i], t[t.len() - 1]));
            }
        }
        assert(seq_less_eq(t.last(), s.last())) by {
            if j < s.len() - 1 {
                assert(seq_less_eq(s[j], s[s.len() - 1]));
            }
        }
        if s.last() != t.last() {
            lemma_seq_less_asymmetric(s.last(), t.last());
        }
        let x = s.last();
        vstd::seq_lib::to_multiset_remove(s, s.len() - 1);
        vstd::seq_lib::to_multiset_remove(t, t.len() - 1);
        assert(s.remove(s.len() - 1) =~= s.drop_last());
        assert(t.remove(t.len() - 1) =~= t.drop_last());
        law_sorted_arrangement_unique(s.drop_last(), t.drop_last());
        assert(s =~= s.drop_last().push(x));
        assert(t =~= t.drop_last().push(x));
    }
}

} // verus!
