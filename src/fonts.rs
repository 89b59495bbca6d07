use vstd::prelude::*;
use crate::config::texts;
use crate::order::{lemma_lex_antisymmetric, lemma_lex_reflexive, lemma_lex_total, lemma_lex_transitive, lex_le, text_le};

verus! {

/// Texts in strictly increasing order.
pub open spec fn strictly_ascending(s: Seq<Seq<char>>) -> bool {
    forall|i: int, j: int| 0 <= i < j < s.len() ==> lex_le(#[trigger] s[i], #[trigger] s[j]) && s[i] != s[j]
}

/// The font family names to offer: each name once, in ascending order.
pub fn font_families(families: &Vec<String>) -> (r: Vec<String>)
    ensures
        strictly_ascending(texts(r@)),
        texts(r@).to_set() == texts(families@).to_set(),
{
    let mut out: Vec<String> = Vec::new();
    let mut i: usize = 0;
    while i < families.len()
        invariant
            i <= families@.len(),
            strictly_ascending(texts(out@)),
            forall|v: Seq<char>| texts(out@).contains(v) <==> texts(families@.subrange(0, i as int)).contains(v),
        decreases families.len() - i,
    {
        let x = families[i].clone();
        let ghost prefix = texts(families@.subrange(0, i as int));
        let ghost next = texts(families@.subrange(0, i + 1));
        assert(next =~= prefix.push(x@));
        let mut p: usize = 0;
        while p < out.len() && !text_le(x.as_str(), out[p].as_str())
            invariant
                p <= out@.len(),
                forall|k: int| 0 <= k < p ==> !lex_le(x@, #[trigger] texts(out@)[k]),
            decreases out.len() - p,
        {
            p = p + 1;
        }
        let ghost before = texts(out@);
        if p < out.len() && out[p] == x {
            assert(before[p as int] == x@);
            assert forall|v: Seq<char>| texts(out@).contains(v) <==> next.contains(v) by {
                if v == x@ {
                    assert(before.contains(v));
                }
                if prefix.contains(v) {
                    let j = choose|j: int| 0 <= j < prefix.len() && prefix[j] == v;
                    assert(next[j] == v);
                }
                if next.contains(v) && v != x@ {
                    let j = choose|j: int| 0 <= j < next.len() && next[j] == v;
                    assert(prefix[j] == v);
                }
            }
        } else {
            out.insert(p, x.clone());
            assert(texts(out@) =~= before.insert(p as int, x@));
            proof {
                lemma_lex_reflexive(x@);
                if p < before.len() {
                    assert(lex_le(x@, before[p as int]));
                    assert(before[p as int] != x@);
                }
                assert forall|a: int, b: int| 0 <= a < b < texts(out@).len() implies
                    lex_le(#[trigger] texts(out@)[a], #[trigger] texts(out@)[b]) && texts(out@)[a] != texts(out@)[b] by {
                    let s = texts(out@);
                    if b == p {
                        lemma_lex_total(x@, before[a]);
                    } else if a == p {
                        assert(s[b] == before[b - 1]);
                        if b - 1 > p {
                            assert(lex_le(before[p as int], before[b - 1]));
                            lemma_lex_transitive(x@, before[p as int], before[b - 1]);
                            if x@ == before[b - 1] {
                                lemma_lex_antisymmetric(x@, before[p as int]);
                            }
                        }
                    } else if a > p {
                        assert(s[a] == before[a - 1]);
                        assert(s[b] == before[b - 1]);
                    } else if b > p {
                        assert(s[b] == before[b - 1]);
                    }
                }
                assert forall|v: Seq<char>| texts(out@).contains(v) <==> next.contains(v) by {
                    let s = texts(out@);
                    if s.contains(v) && v != x@ {
                        let j = choose|j: int| 0 <= j < s.len() && s[j] == v;
                        if j < p {
                            assert(before[j] == v);
                        } else {
                            assert(before[j - 1] == v);
                        }
                        assert(before.contains(v));
                    }
                    if v == x@ {
                        assert(s[p as int] == v);
                        assert(next[next.len() - 1] == v);
                    }
                    if prefix.contains(v) {
                        let j = choose|j: int| 0 <= j < prefix.len() && prefix[j] == v;
                        assert(next[j] == v);
                        assert(before.contains(v));
                        let k = choose|k: int| 0 <= k < before.len() && before[k] == v;
                        if k < p {
                            assert(s[k] == v);
                        } else {
                            assert(s[k + 1] == v);
                        }
                    }
                    if next.contains(v) && v != x@ {
                        let j = choose|j: int| 0 <= j < next.len() && next[j] == v;
                        assert(prefix[j] == v);
                        assert(before.contains(v));
                        let k = choose|k: int| 0 <= k < before.len() && before[k] == v;
                        if k < p {
                            assert(s[k] == v);
                        } else {
                            assert(s[k + 1] == v);
                        }
                    }
                }
            }
        }
        i = i + 1;
    }
    assert(families@.subrange(0, i as int) =~= families@);
    assert(texts(out@).to_set() =~= texts(families@).to_set());
    out
}

} // verus!
