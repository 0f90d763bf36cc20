//! Merging the scores of several query variants into one ranking.

use vstd::prelude::*;
use crate::text::views_of;
use crate::word_store::{
    accumulate, acc_value, acc_wf, lemma_acc_index, lemma_acc_present, lemma_score_bound,
    score, unique_ids, word_set, OccurrenceView, WordStore, MAX_FIELD_WEIGHT,
};

verus! {

/// The most variants one ranking merges.
pub const MAX_VARIANTS: usize = 256;

/// The multiplier of variant `i` among `n`: earlier variants weigh more.
pub open spec fn multiplier(n: int, i: int) -> int {
    n - i
}

/// The score of `id` summed over the first `m` variants, each weighed by its
/// multiplier.
pub open spec fn total_upto(rows: Seq<OccurrenceView>, vs: Seq<Seq<Seq<char>>>, m: int, id: u32) -> nat
    decreases m,
{
    if m <= 0 {
        0
    } else {
        total_upto(rows, vs, m - 1, id) + (multiplier(vs.len() as int, m - 1) * score(
            rows,
            vs[m - 1].to_set(),
            id,
        )) as nat
    }
}

/// The words of each variant.
pub open spec fn variant_views(vs: Seq<Vec<String>>) -> Seq<Seq<Seq<char>>> {
    vs.map_values(|v: Vec<String>| views_of(v@))
}

/// The score of `id` over all variants.
pub open spec fn total_score(rows: Seq<OccurrenceView>, vs: Seq<Seq<Seq<char>>>, id: u32) -> nat {
    total_upto(rows, vs, vs.len() as int, id)
}

/// `r` ranks the entities of `rows` against the variants `vs`: each entity
/// with a positive total appears once, no other, in descending total order.
pub open spec fn is_ranking(r: Seq<u32>, rows: Seq<OccurrenceView>, vs: Seq<Seq<Seq<char>>>) -> bool {
    &&& r.no_duplicates()
    &&& forall|id: u32| r.contains(id) <==> total_score(rows, vs, id) > 0
    &&& forall|i: int, j: int|
        0 <= i < j < r.len() ==> total_score(rows, vs, r[i]) >= total_score(rows, vs, r[j])
}

proof fn lemma_total_bound(rows: Seq<OccurrenceView>, vs: Seq<Seq<Seq<char>>>, m: int, id: u32)
    requires
        0 <= m <= vs.len(),
    ensures
        total_upto(rows, vs, m, id) <= m * (vs.len() * MAX_FIELD_WEIGHT * rows.len()),
    decreases m,
{
    if m > 0 {
        lemma_total_bound(rows, vs, m - 1, id);
        let s = score(rows, vs[m - 1].to_set(), id);
        lemma_score_bound(rows, vs[m - 1].to_set(), id);
        let n = vs.len() as int;
        let k = n * MAX_FIELD_WEIGHT * rows.len();
        assert((n - (m - 1)) * s <= k) by (nonlinear_arith)
            requires
                s <= MAX_FIELD_WEIGHT * rows.len(),
                1 <= m <= n,
                k == n * MAX_FIELD_WEIGHT * rows.len(),
        ;
        assert((m - 1) * k + k == m * k) by (nonlinear_arith);
    }
}

/// Sums, for every entity, the scores of all variants, variant `i` of `n`
/// weighed by `n - i`.
fn merge_scores(store: &WordStore, variants: &Vec<Vec<String>>) -> (acc: Vec<(u32, u64)>)
    requires
        store.wf(),
        variants@.len() <= MAX_VARIANTS,
    ensures
        acc_wf(acc@),
        forall|x: u32| acc_value(#[trigger] acc@, x) == total_score(store@, variant_views(variants@), x),
{
    let n = variants.len();
    let rows = store.occurrences();
    let ghost rv = store@;
    let mut acc: Vec<(u32, u64)> = Vec::new();
    let mut i: usize = 0;
    while i < n
        invariant
            i <= n == variants@.len() <= MAX_VARIANTS,
            rv == store@,
            store.wf(),
            rv.len() <= crate::word_store::MAX_ROWS,
            crate::word_store::occurrence_views(rows@) == rv,
            acc_wf(acc@),
            forall|x: u32| acc_value(#[trigger] acc@, x) == total_upto(rv, variant_views(variants@), i as int, x),
        decreases n - i,
    {
        let mult = (n - i) as u64;
        proof {
            assert forall|x: u32|
                acc_value(acc@, x) + mult * MAX_FIELD_WEIGHT * rows@.len() <= u64::MAX by {
                lemma_total_bound(rv, variant_views(variants@), i as int, x);
                let k = n * MAX_FIELD_WEIGHT * rv.len();
                assert(i * k + mult * MAX_FIELD_WEIGHT * rv.len() <= 256 * 256 * 100 * 0xffff_ffff)
                    by (nonlinear_arith)
                    requires
                        k == n * MAX_FIELD_WEIGHT * rv.len(),
                        mult == n - i,
                        i < n <= 256,
                        rv.len() <= 0xffff_ffff,
                ;
            }
        }
        accumulate(&mut acc, rows, &variants[i], mult);
        proof {
            assert(variant_views(variants@)[i as int] == views_of(variants@[i as int]@));
        }
        i = i + 1;
    }
    acc
}

/// `x` is an element of `s`.
pub open spec fn found_in(x: (u32, u64), s: Seq<(u32, u64)>) -> bool {
    exists|k: int| 0 <= k < s.len() && s[k] == x
}

/// Every element of `a` is an element of `b`.
pub open spec fn each_found_in(a: Seq<(u32, u64)>, b: Seq<(u32, u64)>) -> bool {
    forall|m: int| 0 <= m < a.len() ==> #[trigger] found_in(a[m], b)
}

/// The positions of `inv` after an insertion at `p`, then `p` itself.
spec fn shifted(inv: Seq<int>, p: int) -> Seq<int> {
    inv.map_values(|x: int| if x >= p { x + 1 } else { x }).push(p)
}

/// Inserting `acc[i]` at `p` into the sorted prefix keeps it sorted, keeps the
/// identifiers unique, and moves the index maps along.
proof fn lemma_insert_step(
    acc: Seq<(u32, u64)>,
    prev: Seq<(u32, u64)>,
    out: Seq<(u32, u64)>,
    perm: Seq<int>,
    inv: Seq<int>,
    i: int,
    p: int,
)
    requires
        0 <= i < acc.len(),
        prev.len() == i,
        perm.len() == i,
        inv.len() == i,
        0 <= p <= prev.len(),
        out == prev.insert(p, acc[i]),
        unique_ids(acc),
        forall|a: int, b: int| 0 <= a < b < prev.len() ==> prev[a].1 >= prev[b].1,
        forall|a: int| 0 <= a < p ==> prev[a].1 >= acc[i].1,
        p < prev.len() ==> prev[p].1 < acc[i].1,
        forall|m: int| 0 <= m < i ==> 0 <= #[trigger] perm[m] < i && prev[m] == acc[perm[m]],
        forall|k: int| 0 <= k < i ==> 0 <= #[trigger] inv[k] < i && prev[inv[k]] == acc[k],
        forall|a: int, b: int| 0 <= a < b < i ==> perm[a] != perm[b],
    ensures
        out.len() == i + 1,
        forall|a: int, b: int| 0 <= a < b < i + 1 ==> perm.insert(p, i)[a] != perm.insert(p, i)[b],
        forall|a: int, b: int| 0 <= a < b < out.len() ==> out[a].1 >= out[b].1,
        forall|m: int|
            0 <= m < i + 1 ==> 0 <= #[trigger] perm.insert(p, i)[m] < i + 1 && out[m] == acc[perm.insert(p, i)[m]],
        forall|k: int|
            0 <= k < i + 1 ==> 0 <= #[trigger] shifted(inv, p)[k] < i + 1
                && out[shifted(inv, p)[k]] == acc[k],
{
    assert forall|a: int, b: int| 0 <= a < b < out.len() implies out[a].1 >= out[b].1 by {
        if b == p {
            assert(out[a] == prev[a]);
        } else if a == p {
            assert(out[b] == prev[b - 1]);
            assert(prev[p].1 >= prev[b - 1].1);
        } else if a < p && b < p {
            assert(out[a] == prev[a] && out[b] == prev[b]);
        } else if a < p {
            assert(out[a] == prev[a] && out[b] == prev[b - 1]);
        } else {
            assert(out[a] == prev[a - 1] && out[b] == prev[b - 1]);
        }
    }
    let perm2 = perm.insert(p, i);
    assert forall|m: int| 0 <= m < i + 1 implies 0 <= #[trigger] perm2[m] < i + 1 && out[m] == acc[perm2[m]] by {
        if m < p {
            assert(perm2[m] == perm[m]);
        } else if m > p {
            assert(perm2[m] == perm[m - 1]);
        }
    }
    assert forall|a: int, b: int| 0 <= a < b < i + 1 implies perm2[a] != perm2[b] by {
        if a < p && b < p {
        } else if a < p && b == p {
        } else if a < p {
            assert(perm2[b] == perm[b - 1]);
        } else if a == p {
            assert(perm2[b] == perm[b - 1]);
        } else {
            assert(perm2[a] == perm[a - 1] && perm2[b] == perm[b - 1]);
        }
    }
    let inv2 = shifted(inv, p);
    assert forall|k: int| 0 <= k < i + 1 implies 0 <= #[trigger] inv2[k] < i + 1 && out[inv2[k]] == acc[k] by {
        if k < i {
            assert(inv2[k] == if inv[k] >= p { inv[k] + 1 } else { inv[k] });
        }
    }
}

/// Orders the entries by descending value.
fn sort_by_value_desc(acc: &Vec<(u32, u64)>) -> (out: Vec<(u32, u64)>)
    requires
        unique_ids(acc@),
    ensures
        out@.len() == acc@.len(),
        unique_ids(out@),
        forall|a: int, b: int| 0 <= a < b < out@.len() ==> out@[a].1 >= out@[b].1,
        each_found_in(out@, acc@),
        each_found_in(acc@, out@),
{
    let mut out: Vec<(u32, u64)> = Vec::new();
    let ghost mut perm: Seq<int> = Seq::empty();
    let ghost mut inv: Seq<int> = Seq::empty();
    let mut i: usize = 0;
    while i < acc.len()
        invariant
            i <= acc@.len(),
            out@.len() == i,
            perm.len() == i,
            inv.len() == i,
            unique_ids(acc@),
            forall|a: int, b: int| 0 <= a < b < out@.len() ==> out@[a].1 >= out@[b].1,
            forall|m: int| 0 <= m < i ==> 0 <= #[trigger] perm[m] < i && out@[m] == acc@[perm[m]],
            forall|k: int| 0 <= k < i ==> 0 <= #[trigger] inv[k] < i && out@[inv[k]] == acc@[k],
            forall|a: int, b: int| 0 <= a < b < i ==> perm[a] != perm[b],
        decreases acc@.len() - i,
    {
        let e = acc[i];
        let mut p: usize = 0;
        while p < out.len() && out[p].1 >= e.1
            invariant
                p <= out@.len(),
                forall|a: int| 0 <= a < p ==> out@[a].1 >= e.1,
            decreases out@.len() - p,
        {
            p = p + 1;
        }
        let ghost prev = out@;
        out.insert(p, e);
        proof {
            lemma_insert_step(acc@, prev, out@, perm, inv, i as int, p as int);
            perm = perm.insert(p as int, i as int);
            inv = shifted(inv, p as int);
        }
        i = i + 1;
    }
    proof {
        assert forall|m: int| 0 <= m < out@.len() implies #[trigger] found_in(out@[m], acc@) by {
            let k = perm[m];
            assert(0 <= k < acc@.len() && out@[m] == acc@[k]);
        }
        assert forall|k: int| 0 <= k < acc@.len() implies #[trigger] found_in(acc@[k], out@) by {
            let m = inv[k];
            assert(0 <= m < out@.len() && out@[m] == acc@[k]);
        }
        assert forall|a: int, b: int| 0 <= a < b < out@.len() implies out@[a].0 != out@[b].0 by {
            assert(out@[a] == acc@[perm[a]] && out@[b] == acc@[perm[b]]);
            if perm[a] < perm[b] {
            } else {
            }
        }
    }
    out
}

/// Ranks the entities of the store against the query variants, variant `i`
/// of `n` weighed by `n - i`: every entity with a positive total appears once,
/// in descending order of total. Equal totals come in no promised order.
pub fn rank(store: &WordStore, variants: &Vec<Vec<String>>) -> (r: Vec<u32>)
    requires
        store.wf(),
        variants@.len() <= MAX_VARIANTS,
    ensures
        is_ranking(r@, store@, variant_views(variants@)),
{
    let acc = merge_scores(store, variants);
    let sorted = sort_by_value_desc(&acc);
    let mut r: Vec<u32> = Vec::new();
    let mut m: usize = 0;
    while m < sorted.len()
        invariant
            m <= sorted@.len(),
            r@.len() == m,
            forall|j: int| 0 <= j < m ==> r@[j] == sorted@[j].0,
        decreases sorted@.len() - m,
    {
        r.push(sorted[m].0);
        m = m + 1;
    }
    proof {
        let rows = store@;
        let vs = variant_views(variants@);
        assert forall|j: int| 0 <= j < r@.len() implies sorted@[j].1 == total_score(rows, vs, r@[j])
            && sorted@[j].1 > 0 by {
            assert(found_in(sorted@[j], acc@));
            let k = choose|k: int| 0 <= k < acc@.len() && acc@[k] == sorted@[j];
            lemma_acc_index(acc@, k);
        }
        assert forall|a: int, b: int| 0 <= a < b < r@.len() implies r@[a] != r@[b] by {}
        assert forall|id: u32| r@.contains(id) <==> total_score(rows, vs, id) > 0 by {
            lemma_acc_present(acc@, id);
            if total_score(rows, vs, id) > 0 {
                let k = choose|k: int| 0 <= k < acc@.len() && acc@[k].0 == id;
                assert(found_in(acc@[k], sorted@));
                let j = choose|j: int| 0 <= j < sorted@.len() && sorted@[j] == acc@[k];
                assert(r@[j] == id);
            }
            if r@.contains(id) {
                let j = choose|j: int| 0 <= j < r@.len() && r@[j] == id;
            }
        }
    }
    r
}


pub proof fn lemma_total_single(
    rows: Seq<OccurrenceView>,
    vs: Seq<Seq<Seq<char>>>,
    id: u32,
    i: int,
    s: nat,
    m: int,
)
    requires
        0 <= i < vs.len(),
        0 <= m <= vs.len(),
        forall|k: int| 0 <= k < vs.len() ==> score(rows, #[trigger] vs[k].to_set(), id) == if k == i {
            s
        } else {
            0
        },
    ensures
        total_upto(rows, vs, m, id) == if m > i {
            ((vs.len() - i) * s) as nat
        } else {
            0
        },
    decreases m,
{
    if m > 0 {
        lemma_total_single(rows, vs, id, i, s, m - 1);
        let k = m - 1;
        assert(score(rows, vs[k].to_set(), id) == if k == i { s } else { 0 });
        if k != i {
            assert(multiplier(vs.len() as int, k) * 0 == 0) by (nonlinear_arith);
        }
    }
}

/// Variant decay: an entity matched only by variant `i` outranks one matched
/// only by a later variant `j` with the same score, since variant `i` of `n`
/// weighs `n - i`.
pub proof fn lemma_variant_decay(
    rows: Seq<OccurrenceView>,
    vs: Seq<Seq<Seq<char>>>,
    a: u32,
    b: u32,
    i: int,
    j: int,
    s: nat,
)
    requires
        0 <= i < j < vs.len(),
        s > 0,
        forall|k: int| 0 <= k < vs.len() ==> score(rows, #[trigger] vs[k].to_set(), a) == if k == i {
            s
        } else {
            0
        },
        forall|k: int| 0 <= k < vs.len() ==> score(rows, #[trigger] vs[k].to_set(), b) == if k == j {
            s
        } else {
            0
        },
    ensures
        total_score(rows, vs, a) > total_score(rows, vs, b),
{
    lemma_total_single(rows, vs, a, i, s, vs.len() as int);
    lemma_total_single(rows, vs, b, j, s, vs.len() as int);
    assert((vs.len() - i) * s > (vs.len() - j) * s) by (nonlinear_arith)
        requires
            i < j,
            s > 0,
    ;
}

proof fn lemma_total_empty(vs: Seq<Seq<Seq<char>>>, m: int, id: u32)
    ensures
        total_upto(Seq::empty(), vs, m, id) == 0,
    decreases m,
{
    if m > 0 {
        lemma_total_empty(vs, m - 1, id);
        let k = m - 1;
        assert(score(Seq::<OccurrenceView>::empty(), vs[k].to_set(), id) == 0);
        assert(multiplier(vs.len() as int, k) * 0 == 0) by (nonlinear_arith);
    }
}

/// Against an empty store every ranking is empty.
pub proof fn lemma_empty_store_ranks_nothing(r: Seq<u32>, vs: Seq<Seq<Seq<char>>>)
    requires
        is_ranking(r, Seq::empty(), vs),
    ensures
        r.len() == 0,
{
    if r.len() > 0 {
        lemma_total_empty(vs, vs.len() as int, r[0]);
        assert(r.contains(r[0]));
    }
}


pub proof fn lemma_total_dominates(
    rows: Seq<OccurrenceView>,
    vs: Seq<Seq<Seq<char>>>,
    a: u32,
    b: u32,
    m: int,
)
    requires
        0 <= m <= vs.len(),
        forall|k: int|
            0 <= k < vs.len() ==> score(rows, #[trigger] vs[k].to_set(), a) >= score(rows, vs[k].to_set(), b),
    ensures
        total_upto(rows, vs, m, a) >= total_upto(rows, vs, m, b),
        (exists|k: int| 0 <= k < m && score(rows, #[trigger] vs[k].to_set(), a) > score(rows, vs[k].to_set(), b))
            ==> total_upto(rows, vs, m, a) > total_upto(rows, vs, m, b),
    decreases m,
{
    if m > 0 {
        lemma_total_dominates(rows, vs, a, b, m - 1);
        let k = m - 1;
        let sa = score(rows, vs[k].to_set(), a);
        let sb = score(rows, vs[k].to_set(), b);
        let w = multiplier(vs.len() as int, k);
        assert(w * sa >= w * sb) by (nonlinear_arith)
            requires
                sa >= sb,
                w >= 1,
        ;
        if sa > sb {
            assert(w * sa > w * sb) by (nonlinear_arith)
                requires
                    sa > sb,
                    w >= 1,
            ;
        }
        if exists|j: int| 0 <= j < m && score(rows, #[trigger] vs[j].to_set(), a) > score(rows, vs[j].to_set(), b) {
            let j = choose|j: int| 0 <= j < m && score(rows, #[trigger] vs[j].to_set(), a) > score(rows, vs[j].to_set(), b);
            if j < m - 1 {
                assert(exists|i: int| 0 <= i < m - 1 && score(rows, #[trigger] vs[i].to_set(), a) > score(rows, vs[i].to_set(), b));
            }
        }
    }
}

/// Weighted ranking: an entity that scores at least as much as another in
/// every variant, and more in one, has the higher total, so it comes first.
pub proof fn lemma_higher_scores_rank_first(
    r: Seq<u32>,
    rows: Seq<OccurrenceView>,
    vs: Seq<Seq<Seq<char>>>,
    a: u32,
    b: u32,
    k: int,
)
    requires
        is_ranking(r, rows, vs),
        0 <= k < vs.len(),
        score(rows, vs[k].to_set(), a) > score(rows, vs[k].to_set(), b),
        forall|j: int|
            0 <= j < vs.len() ==> score(rows, #[trigger] vs[j].to_set(), a) >= score(rows, vs[j].to_set(), b),
    ensures
        total_score(rows, vs, a) > total_score(rows, vs, b),
        r.contains(a),
        forall|i: int, j: int| 0 <= i < r.len() && 0 <= j < r.len() && r[i] == a && r[j] == b ==> i < j,
{
    lemma_total_dominates(rows, vs, a, b, vs.len() as int);
    assert(score(rows, vs[k].to_set(), a) > score(rows, vs[k].to_set(), b));
    assert forall|i: int, j: int| 0 <= i < r.len() && 0 <= j < r.len() && r[i] == a && r[j] == b implies i < j by {
        if j < i {
            assert(total_score(rows, vs, r[j]) >= total_score(rows, vs, r[i]));
        }
    }
}


/// A total is at least the weighed score of any one variant.
pub proof fn lemma_total_at_least(rows: Seq<OccurrenceView>, vs: Seq<Seq<Seq<char>>>, id: u32, k: int, m: int)
    requires
        0 <= k < m <= vs.len(),
    ensures
        total_upto(rows, vs, m, id) >= multiplier(vs.len() as int, k) * score(rows, vs[k].to_set(), id),
    decreases m,
{
    if m - 1 > k {
        lemma_total_at_least(rows, vs, id, k, m - 1);
    }
    if m - 1 == k {
        assert(total_upto(rows, vs, m - 1, id) >= 0);
    }
}

} // verus!
