//! The distinct grapheme clusters of a string, in ascending order.

use crate::order::{
    lemma_precedes_irreflexive, lemma_precedes_total, lemma_precedes_transitive, precedes,
    string_less,
};
use crate::segment::{cuts, grapheme_clusters, segment, texts};
use vstd::prelude::*;
use vstd::string::StringExecFns;

verus! {

/// Each item comes before all that follow it, so none occurs twice.
pub open spec fn ascending(items: Seq<Seq<char>>) -> bool {
    forall|i: int, j: int| 0 <= i < j < items.len() ==> precedes(items[i], items[j])
}

/// `out` holds what `parts` holds, each item once and in ascending order.
pub open spec fn arranges(out: Seq<Seq<char>>, parts: Seq<Seq<char>>) -> bool {
    &&& ascending(out)
    &&& forall|g: Seq<char>| out.contains(g) <==> parts.contains(g)
}

/// The items of `parts` without repeats and in ascending order.
pub open spec fn sorted_distinct(parts: Seq<Seq<char>>) -> Seq<Seq<char>> {
    choose|out: Seq<Seq<char>>| arranges(out, parts)
}

/// The text that `unique_sorted_entities` makes of a text cut into `parts`.
pub open spec fn distinct_text(parts: Seq<Seq<char>>) -> Seq<char> {
    sorted_distinct(parts).flatten()
}

/// There is one way only to arrange the items of a sequence.
pub proof fn lemma_arranges_unique(a: Seq<Seq<char>>, b: Seq<Seq<char>>, parts: Seq<Seq<char>>)
    requires
        arranges(a, parts),
        arranges(b, parts),
    ensures
        a == b,
    decreases a.len(),
{
    if a.len() == 0 {
        if b.len() > 0 {
            assert(a.contains(b[0]));
        }
    } else {
        let x = a.last();
        assert(b.contains(x));
        let y = b.last();
        assert(a.contains(y));
        lemma_precedes_irreflexive(x);
        if x != y {
            lemma_precedes_transitive(x, y, x);
        }
        let a1 = a.drop_last();
        let b1 = b.drop_last();
        assert forall|g: Seq<char>| a1.contains(g) <==> b1.contains(g) by {
            lemma_precedes_irreflexive(g);
            if a1.contains(g) {
                assert(a.contains(g));
                let m = choose|m: int| 0 <= m < b.len() && b[m] == g;
                assert(b1[m] == g);
            }
            if b1.contains(g) {
                assert(b.contains(g));
                let m = choose|m: int| 0 <= m < a.len() && a[m] == g;
                assert(a1[m] == g);
            }
        }
        assert(ascending(a1)) by {
            assert forall|i: int, j: int| 0 <= i < j < a1.len() implies precedes(a1[i], a1[j]) by {}
        }
        assert(ascending(b1)) by {
            assert forall|i: int, j: int| 0 <= i < j < b1.len() implies precedes(b1[i], b1[j]) by {}
        }
        lemma_arranges_unique(a1, b1, a1);
        assert(b =~= b1.push(y));
    }
}

/// An ascending sequence with `x` put where it belongs, unless it is there.
proof fn place(out: Seq<Seq<char>>, x: Seq<char>) -> (placed: Seq<Seq<char>>)
    requires
        ascending(out),
    ensures
        ascending(placed),
        forall|g: Seq<char>| placed.contains(g) <==> out.contains(g) || g == x,
    decreases out.len(),
{
    if out.len() == 0 {
        let placed = seq![x];
        assert(placed[0] == x);
        placed
    } else if out.last() == x {
        assert(out.contains(x));
        out
    } else if precedes(out.last(), x) {
        let placed = out.push(x);
        assert forall|i: int, j: int| 0 <= i < j < placed.len() implies precedes(
            placed[i],
            placed[j],
        ) by {
            if j == out.len() && i < out.len() - 1 {
                assert(precedes(out[i], out.last()));
                lemma_precedes_transitive(out[i], out.last(), x);
            }
        }
        assert forall|g: Seq<char>| placed.contains(g) <==> out.contains(g) || g == x by {
            if out.contains(g) {
                let k = choose|k: int| 0 <= k < out.len() && out[k] == g;
                assert(placed[k] == g);
            }
            if g == x {
                assert(placed[out.len() as int] == g);
            }
        }
        placed
    } else {
        let top = out.last();
        let rest = out.drop_last();
        lemma_precedes_total(top, x);
        assert(ascending(rest)) by {
            assert forall|i: int, j: int| 0 <= i < j < rest.len() implies precedes(
                rest[i],
                rest[j],
            ) by {
                assert(precedes(out[i], out[j]));
            }
        }
        let below = place(rest, x);
        let placed = below.push(top);
        assert forall|i: int, j: int| 0 <= i < j < placed.len() implies precedes(
            placed[i],
            placed[j],
        ) by {
            if j == below.len() {
                assert(below.contains(below[i]));
                if below[i] != x {
                    let k = choose|k: int| 0 <= k < rest.len() && rest[k] == below[i];
                    assert(precedes(out[k], out[out.len() - 1]));
                }
            }
        }
        assert forall|g: Seq<char>| placed.contains(g) <==> out.contains(g) || g == x by {
            if placed.contains(g) {
                let k = choose|k: int| 0 <= k < placed.len() && placed[k] == g;
                if k < below.len() {
                    assert(below.contains(g));
                    if g != x {
                        let m = choose|m: int| 0 <= m < rest.len() && rest[m] == g;
                        assert(out[m] == g);
                    }
                } else {
                    assert(out[out.len() - 1] == g);
                }
            }
            if out.contains(g) {
                let k = choose|k: int| 0 <= k < out.len() && out[k] == g;
                if k < rest.len() {
                    assert(rest[k] == g);
                    assert(rest.contains(g));
                    assert(below.contains(g));
                    let m = choose|m: int| 0 <= m < below.len() && below[m] == g;
                    assert(placed[m] == g);
                } else {
                    assert(placed[below.len() as int] == g);
                }
            }
            if g == x {
                assert(below.contains(g));
                let m = choose|m: int| 0 <= m < below.len() && below[m] == g;
                assert(placed[m] == g);
            }
        }
        placed
    }
}

/// Every sequence can be arranged, so `sorted_distinct` arranges it.
pub proof fn lemma_sorted_distinct_arranges(parts: Seq<Seq<char>>)
    ensures
        arranges(sorted_distinct(parts), parts),
    decreases parts.len(),
{
    if parts.len() == 0 {
        let out = Seq::<Seq<char>>::empty();
        assert(arranges(out, parts));
    } else {
        let front = parts.drop_last();
        lemma_sorted_distinct_arranges(front);
        let out = place(sorted_distinct(front), parts.last());
        assert forall|g: Seq<char>| out.contains(g) <==> parts.contains(g) by {
            if parts.contains(g) {
                let k = choose|k: int| 0 <= k < parts.len() && parts[k] == g;
                if k < front.len() {
                    assert(front[k] == g);
                }
            }
        }
        assert(arranges(out, parts));
    }
}

/// Arranging what is arranged changes nothing.
pub proof fn lemma_sorted_distinct_idempotent(parts: Seq<Seq<char>>)
    ensures
        sorted_distinct(sorted_distinct(parts)) == sorted_distinct(parts),
{
    let once = sorted_distinct(parts);
    lemma_sorted_distinct_arranges(parts);
    lemma_sorted_distinct_arranges(once);
    lemma_arranges_unique(sorted_distinct(once), once, once);
}

/// The text made of a text is made of itself again, where it is cut into
/// clusters that ascend: `parts` are the clusters of the first text,
/// `again` those of the text made of it.
pub proof fn lemma_distinct_text_idempotent(parts: Seq<Seq<char>>, again: Seq<Seq<char>>)
    requires
        cuts(again, distinct_text(parts)),
        ascending(again),
    ensures
        distinct_text(again) == distinct_text(parts),
{
    lemma_sorted_distinct_arranges(again);
    lemma_arranges_unique(sorted_distinct(again), again, again);
}

/// The strings of `ents` without repeats and in ascending order.
pub fn sorted_unique(ents: &Vec<String>) -> (out: Vec<String>)
    ensures
        texts(out@) == sorted_distinct(texts(ents@)),
{
    let mut out: Vec<String> = Vec::new();
    let mut k: usize = 0;
    while k < ents.len()
        invariant
            k <= ents.len(),
            arranges(texts(out@), texts(ents@).take(k as int)),
        decreases ents.len() - k,
    {
        let ghost parts = texts(ents@);
        let ghost before = texts(out@);
        let e = &ents[k];
        let mut j: usize = 0;
        while j < out.len() && string_less(&out[j], e)
            invariant
                j <= out.len(),
                forall|i: int| 0 <= i < j ==> precedes(#[trigger] texts(out@)[i], e@),
            decreases out.len() - j,
        {
            j = j + 1;
        }
        let present: bool = j < out.len() && out[j] == *e;
        if !present {
            out.insert(j, e.clone());
        }
        proof {
            let after = texts(out@);
            if present {
                assert(before[j as int] == e@);
            } else {
                assert forall|a: int, b: int| 0 <= a < b < after.len() implies precedes(
                    after[a],
                    after[b],
                ) by {
                    if a == j {
                        lemma_precedes_total(before[j as int], e@);
                        if b > j + 1 {
                            lemma_precedes_transitive(e@, before[j as int], before[b - 1]);
                        }
                    } else if b == j {
                        assert(precedes(before[a], e@));
                    } else {
                        let a0 = if a < j { a } else { a - 1 };
                        let b0 = if b < j { b } else { b - 1 };
                        assert(precedes(before[a0], before[b0]));
                    }
                }
                assert forall|g: Seq<char>| after.contains(g) <==> before.contains(g) || g
                    == e@ by {
                    if after.contains(g) {
                        let m = choose|m: int| 0 <= m < after.len() && after[m] == g;
                        if m < j {
                            assert(before[m] == g);
                        } else if m > j {
                            assert(before[m - 1] == g);
                        }
                    }
                    if before.contains(g) {
                        let m = choose|m: int| 0 <= m < before.len() && before[m] == g;
                        if m < j {
                            assert(after[m] == g);
                        } else {
                            assert(after[m + 1] == g);
                        }
                    }
                    if g == e@ {
                        assert(after[j as int] == g);
                    }
                }
            }
            let next = parts.take(k + 1);
            assert forall|g: Seq<char>| after.contains(g) <==> next.contains(g) by {
                if g == e@ {
                    assert(next[k as int] == g);
                }
            }
        }
        k = k + 1;
    }
    proof {
        assert(texts(ents@).take(k as int) =~= texts(ents@));
        lemma_sorted_distinct_arranges(texts(ents@));
        lemma_arranges_unique(texts(out@), sorted_distinct(texts(ents@)), texts(ents@));
    }
    out
}

/// The strings of `ents` written one after the other.
pub fn join_entities(ents: &Vec<String>) -> (out: String)
    ensures
        out@ == texts(ents@).flatten(),
{
    let mut out = String::new();
    let mut k: usize = 0;
    while k < ents.len()
        invariant
            k <= ents.len(),
            out@ == texts(ents@).take(k as int).flatten(),
        decreases ents.len() - k,
    {
        proof {
            let parts = texts(ents@);
            assert(parts.take(k + 1) =~= parts.take(k as int).push(ents[k as int]@));
            parts.take(k as int).lemma_flatten_push(ents[k as int]@);
        }
        out.append(ents[k].as_str());
        k = k + 1;
    }
    assert(texts(ents@).take(k as int) =~= texts(ents@));
    out
}

/// The grapheme clusters of `word`, each once and in ascending order,
/// written one after the other. Any string will do.
pub fn unique_sorted_entities(word: &str) -> (out: String)
    ensures
        out@ == distinct_text(grapheme_clusters(word@)),
{
    let ents = segment(word);
    let distinct = sorted_unique(&ents);
    join_entities(&distinct)
}

} // verus!
