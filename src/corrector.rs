//! The fuzzy corrector: the distinct words of the high-signal fields, held in
//! a BK-tree keyed by edit distance, and rebuilt from scratch on refresh.

use vstd::prelude::*;
use bk_tree::metrics::Levenshtein;
use bk_tree::BKTree;
use crate::text::views_of;
use crate::word_store::{vocabulary, Field, WordStore};

verus! {

#[verifier::external_type_specification]
#[verifier::external_body]
#[verifier::reject_recursive_types(K)]
#[verifier::reject_recursive_types(M)]
pub struct ExBKTree<K, M>(BKTree<K, M>);

#[verifier::external_type_specification]
#[verifier::external_body]
pub struct ExLevenshtein(Levenshtein);

/// The set of keys a BK-tree holds.
pub uninterp spec fn tree_words(t: BKTree<String, Levenshtein>) -> Set<Seq<char>>;

/// The edit distance that `bk_tree`'s Levenshtein metric gives two strings.
pub uninterp spec fn edit_distance(a: Seq<char>, b: Seq<char>) -> nat;

/// The longest word, in characters, the corrector holds or corrects; keeps the
/// tree's `u32` distance arithmetic in range (a character is at most 4 bytes).
pub const MAX_WORD_LEN: usize = 0x0fff_ffff;

/// Relies on `BKTree::new`: a tree with no keys.
#[verifier::external_body]
fn empty_tree() -> (t: BKTree<String, Levenshtein>)
    ensures
        tree_words(t) == Set::<Seq<char>>::empty(),
{
    BKTree::new(Levenshtein)
}

/// Relies on `BKTree::add`: adds the key unless an equal one is present (at
/// distance 0 it adds nothing). The length bound keeps the byte lengths that
/// the Levenshtein metric casts to `u32` in range (at most 4 bytes a
/// character).
#[verifier::external_body]
fn tree_add(t: &mut BKTree<String, Levenshtein>, w: String)
    requires
        w@.len() <= MAX_WORD_LEN,
        forall|v: Seq<char>| #[trigger] tree_words(*old(t)).contains(v) ==> v.len() <= MAX_WORD_LEN,
    ensures
        tree_words(*final(t)) == tree_words(*old(t)).insert(w@),
{
    t.add(w)
}

/// Relies on `BKTree::find`: each key within `tolerance` of `key`, once, with
/// its distance; the tree walk prunes by the triangle inequality only, so no
/// key within the tolerance is missed. The order is the walk's, not promised.
/// The bounds keep the walk's `max_child_distance + tolerance`, and the byte
/// lengths that the metric casts to `u32`, in range: a word of `MAX_WORD_LEN`
/// characters has at most `4 * MAX_WORD_LEN` bytes.
#[verifier::external_body]
fn tree_find(t: &BKTree<String, Levenshtein>, key: &str, tolerance: u32) -> (r: Vec<(u32, String)>)
    requires
        key@.len() <= MAX_WORD_LEN,
        tolerance <= 2 * MAX_WORD_LEN,
        forall|w: Seq<char>| #[trigger] tree_words(*t).contains(w) ==> w.len() <= MAX_WORD_LEN,
    ensures
        forall|i: int|
            0 <= i < r@.len() ==> {
                &&& tree_words(*t).contains(#[trigger] r@[i].1@)
                &&& r@[i].0 as nat == edit_distance(key@, r@[i].1@)
                &&& r@[i].0 <= tolerance
            },
        forall|w: Seq<char>|
            #[trigger] tree_words(*t).contains(w) && edit_distance(key@, w) <= tolerance ==> exists|
                i: int,
            |
                0 <= i < r@.len() && #[trigger] r@[i].1@ == w,
        forall|i: int, j: int| 0 <= i < j < r@.len() ==> r@[i].1@ != r@[j].1@,
{
    t.find(key, tolerance).map(|(d, w)| (d, w.clone())).collect()
}

/// The number of bytes that UTF-8 takes for a character (`char::len_utf8`).
pub open spec fn utf8_width(c: char) -> nat {
    if (c as u32) < 0x80 {
        1
    } else if (c as u32) < 0x800 {
        2
    } else if (c as u32) < 0x10000 {
        3
    } else {
        4
    }
}

/// The length in UTF-8 bytes of a text.
pub open spec fn utf8_len(s: Seq<char>) -> nat
    decreases s.len(),
{
    if s.len() == 0 {
        0
    } else {
        utf8_len(s.drop_last()) + utf8_width(s.last())
    }
}

/// The tolerance for a word of `n` UTF-8 bytes: `floor(n / 2)`.
pub open spec fn tolerance_for(n: nat) -> nat {
    n / 2
}

/// The UTF-8 length of a text: between its length and four times that.
fn utf8_len_of(cs: &Vec<char>) -> (r: usize)
    requires
        cs@.len() <= MAX_WORD_LEN,
    ensures
        r == utf8_len(cs@),
        r <= 4 * cs@.len(),
{
    let mut n: usize = 0;
    let mut i: usize = 0;
    while i < cs.len()
        invariant
            i <= cs@.len() <= MAX_WORD_LEN,
            n == utf8_len(cs@.take(i as int)),
            n <= 4 * i,
        decreases cs@.len() - i,
    {
        proof {
            assert(cs@.take(i as int + 1).drop_last() =~= cs@.take(i as int));
        }
        let c = cs[i];
        let w: usize = if (c as u32) < 0x80 {
            1
        } else if (c as u32) < 0x800 {
            2
        } else if (c as u32) < 0x10000 {
            3
        } else {
            4
        };
        n = n + w;
        i = i + 1;
    }
    proof {
        assert(cs@.take(i as int) =~= cs@);
    }
    n
}

/// `w` is within the tolerance of `q` among the words of `vocab`.
pub open spec fn is_candidate(vocab: Set<Seq<char>>, q: Seq<char>, w: Seq<char>) -> bool {
    vocab.contains(w) && edit_distance(q, w) <= tolerance_for(utf8_len(q))
}

/// Lexicographic order on words, by character code.
pub open spec fn word_lt(a: Seq<char>, b: Seq<char>) -> bool
    decreases a.len(),
{
    if a.len() == 0 {
        b.len() > 0
    } else if b.len() == 0 {
        false
    } else if a[0] != b[0] {
        a[0] < b[0]
    } else {
        word_lt(a.drop_first(), b.drop_first())
    }
}

/// The order of corrections: by distance, then by word.
pub open spec fn entry_lt(x: (u32, Seq<char>), y: (u32, Seq<char>)) -> bool {
    x.0 < y.0 || (x.0 == y.0 && word_lt(x.1, y.1))
}

/// Entries in strictly increasing order, so with distinct words.
pub open spec fn strictly_ordered(v: Seq<(u32, Seq<char>)>) -> bool {
    forall|i: int, j: int| #![trigger v[i], v[j]]
        0 <= i < j < v.len() ==> v[i].1 != v[j].1 && entry_lt(v[i], v[j])
}

/// No word precedes itself.
pub proof fn lemma_word_lt_irreflexive(a: Seq<char>)
    ensures
        !word_lt(a, a),
    decreases a.len(),
{
    if a.len() > 0 {
        lemma_word_lt_irreflexive(a.drop_first());
    }
}

/// The word order is transitive.
pub proof fn lemma_word_lt_transitive(a: Seq<char>, b: Seq<char>, c: Seq<char>)
    requires
        word_lt(a, b),
        word_lt(b, c),
    ensures
        word_lt(a, c),
    decreases a.len(),
{
    if a.len() > 0 && b.len() > 0 && c.len() > 0 && a[0] == b[0] && b[0] == c[0] {
        lemma_word_lt_transitive(a.drop_first(), b.drop_first(), c.drop_first());
    }
}

/// Of two different words, one precedes the other.
pub proof fn lemma_word_lt_total(a: Seq<char>, b: Seq<char>)
    requires
        a != b,
    ensures
        word_lt(a, b) || word_lt(b, a),
    decreases a.len(),
{
    if a.len() > 0 && b.len() > 0 && a[0] == b[0] {
        if a.drop_first() == b.drop_first() {
            assert(a =~= seq![a[0]] + a.drop_first());
            assert(b =~= seq![b[0]] + b.drop_first());
        }
        lemma_word_lt_total(a.drop_first(), b.drop_first());
    } else if a.len() == 0 && b.len() == 0 {
        assert(a =~= b);
    }
}

proof fn lemma_entry_lt_facts()
    ensures
        forall|x: (u32, Seq<char>)| !#[trigger] entry_lt(x, x),
        forall|x: (u32, Seq<char>), y: (u32, Seq<char>), z: (u32, Seq<char>)|
            #[trigger] entry_lt(x, y) && #[trigger] entry_lt(y, z) ==> entry_lt(x, z),
        forall|x: (u32, Seq<char>), y: (u32, Seq<char>)|
            x.1 != y.1 ==> #[trigger] entry_lt(x, y) || #[trigger] entry_lt(y, x),
{
    assert forall|x: (u32, Seq<char>)| !#[trigger] entry_lt(x, x) by {
        lemma_word_lt_irreflexive(x.1);
    }
    assert forall|x: (u32, Seq<char>), y: (u32, Seq<char>), z: (u32, Seq<char>)|
        #[trigger] entry_lt(x, y) && #[trigger] entry_lt(y, z) implies entry_lt(x, z) by {
        if x.0 == y.0 && y.0 == z.0 {
            lemma_word_lt_transitive(x.1, y.1, z.1);
        }
    }
    assert forall|x: (u32, Seq<char>), y: (u32, Seq<char>)|
        x.1 != y.1 implies #[trigger] entry_lt(x, y) || #[trigger] entry_lt(y, x) by {
        lemma_word_lt_total(x.1, y.1);
    }
}

/// Whether `a` precedes `b` in the word order.
fn word_less(a: &str, b: &str) -> (r: bool)
    ensures
        r == word_lt(a@, b@),
{
    let x = crate::text::chars_of(a);
    let y = crate::text::chars_of(b);
    let mut i: usize = 0;
    proof {
        assert(x@.skip(0) =~= x@);
        assert(y@.skip(0) =~= y@);
    }
    while i < x.len() && i < y.len() && x[i] == y[i]
        invariant
            i <= x@.len(),
            i <= y@.len(),
            x@ == a@,
            y@ == b@,
            word_lt(a@, b@) == word_lt(x@.skip(i as int), y@.skip(i as int)),
        decreases x@.len() - i,
    {
        proof {
            assert(x@.skip(i as int + 1) =~= x@.skip(i as int).drop_first());
            assert(y@.skip(i as int + 1) =~= y@.skip(i as int).drop_first());
        }
        i = i + 1;
    }
    if i < x.len() && i < y.len() {
        proof {
            assert(x@.skip(i as int)[0] == x@[i as int]);
            assert(y@.skip(i as int)[0] == y@[i as int]);
        }
        x[i] < y[i]
    } else {
        i == x.len() && i < y.len()
    }
}

/// `r` holds the best candidates for `q`, at most `limit` of them: each a
/// distinct candidate with its distance, ascending by distance and, at equal
/// distance, by word; every candidate left out comes after all those kept in
/// that order; fewer than `limit` only when none is left out. So `r` is the
/// first `limit` candidates in that order.
pub open spec fn is_best_corrections(
    r: Seq<(u32, Seq<char>)>,
    vocab: Set<Seq<char>>,
    q: Seq<char>,
    limit: nat,
) -> bool {
    &&& r.len() <= limit
    &&& forall|i: int|
        0 <= i < r.len() ==> is_candidate(vocab, q, #[trigger] r[i].1) && r[i].0 == edit_distance(
            q,
            r[i].1,
        )
    &&& strictly_ordered(r)
    &&& forall|w: Seq<char>|
        is_candidate(vocab, q, w) && !(exists|i: int| 0 <= i < r.len() && #[trigger] r[i].1 == w)
            ==> r.len() == limit && forall|i: int|
            0 <= i < r.len() ==> #[trigger] entry_lt(r[i], (edit_distance(q, w) as u32, w))
}

/// The words of a list of corrections.
pub open spec fn words_of(r: Seq<(u32, Seq<char>)>) -> Seq<Seq<char>> {
    r.map_values(|e: (u32, Seq<char>)| e.1)
}

proof fn lemma_words_distinct(r: Seq<(u32, Seq<char>)>)
    requires
        strictly_ordered(r),
    ensures
        words_of(r).no_duplicates(),
        words_of(r).to_set().len() == r.len(),
        words_of(r).to_set().finite(),
{
    assert forall|i: int, j: int| 0 <= i < words_of(r).len() && 0 <= j < words_of(r).len() && i != j
        implies words_of(r)[i] != words_of(r)[j] by {
        if i < j {
            assert(r[i].1 != r[j].1);
        } else {
            assert(r[j].1 != r[i].1);
        }
    }
    words_of(r).unique_seq_to_set();
    vstd::seq_lib::seq_to_set_is_finite(words_of(r));
}

proof fn lemma_best_covers(
    r1: Seq<(u32, Seq<char>)>,
    r2: Seq<(u32, Seq<char>)>,
    vocab: Set<Seq<char>>,
    q: Seq<char>,
    limit: nat,
)
    requires
        is_best_corrections(r1, vocab, q, limit),
        is_best_corrections(r2, vocab, q, limit),
    ensures
        forall|j: int| 0 <= j < r2.len() ==> #[trigger] word_listed(r2[j].1, r1),
{
    lemma_entry_lt_facts();
    assert forall|j: int| 0 <= j < r2.len() implies #[trigger] word_listed(r2[j].1, r1) by {
        let y = r2[j];
        assert(is_candidate(vocab, q, y.1));
        if !word_listed(y.1, r1) {
            assert(y == (edit_distance(q, y.1) as u32, y.1));
            // every word kept by r1 is kept by r2 too
            assert forall|i: int| 0 <= i < r1.len() implies #[trigger] word_listed(r1[i].1, r2) by {
                let x = r1[i];
                assert(is_candidate(vocab, q, x.1));
                assert(entry_lt(x, y));
                if !word_listed(x.1, r2) {
                    assert(x == (edit_distance(q, x.1) as u32, x.1));
                    assert(entry_lt(r2[j], x));
                    assert(entry_lt(y, y));
                }
            }
            lemma_words_distinct(r1);
            lemma_words_distinct(r2);
            let s1 = words_of(r1).to_set();
            let s2 = words_of(r2).to_set();
            assert(s1.insert(y.1).subset_of(s2)) by {
                assert forall|w: Seq<char>| s1.insert(y.1).contains(w) implies s2.contains(w) by {
                    if w == y.1 {
                        assert(words_of(r2)[j] == w);
                    } else {
                        let i = choose|i: int| 0 <= i < words_of(r1).len() && words_of(r1)[i] == w;
                        assert(r1[i].1 == w);
                        assert(word_listed(r1[i].1, r2));
                        let k = choose|k: int| 0 <= k < r2.len() && r2[k].1 == r1[i].1;
                        assert(words_of(r2)[k] == w);
                    }
                }
            }
            assert(!s1.contains(y.1)) by {
                if s1.contains(y.1) {
                    let i = choose|i: int| 0 <= i < words_of(r1).len() && words_of(r1)[i] == y.1;
                    assert(r1[i].1 == y.1);
                    assert(word_listed(y.1, r1));
                }
            }
            vstd::set_lib::lemma_len_subset(s1.insert(y.1), s2);
            assert(s1.insert(y.1).len() == s1.len() + 1);
        }
    }
}

/// The best corrections are unique: the list is a function of the
/// vocabulary, the word and the limit.
#[verifier::rlimit(50)]
pub proof fn lemma_best_corrections_unique(
    r1: Seq<(u32, Seq<char>)>,
    r2: Seq<(u32, Seq<char>)>,
    vocab: Set<Seq<char>>,
    q: Seq<char>,
    limit: nat,
)
    requires
        is_best_corrections(r1, vocab, q, limit),
        is_best_corrections(r2, vocab, q, limit),
    ensures
        r1 == r2,
{
    lemma_entry_lt_facts();
    lemma_best_covers(r1, r2, vocab, q, limit);
    lemma_best_covers(r2, r1, vocab, q, limit);
    lemma_words_distinct(r1);
    lemma_words_distinct(r2);
    let s1 = words_of(r1).to_set();
    let s2 = words_of(r2).to_set();
    assert(s1 =~= s2) by {
        assert forall|w: Seq<char>| s1.contains(w) implies s2.contains(w) by {
            let i = choose|i: int| 0 <= i < words_of(r1).len() && words_of(r1)[i] == w;
            assert(r1[i].1 == w);
            assert(word_listed(r1[i].1, r2));
            let k = choose|k: int| 0 <= k < r2.len() && r2[k].1 == r1[i].1;
            assert(words_of(r2)[k] == w);
        }
        assert forall|w: Seq<char>| s2.contains(w) implies s1.contains(w) by {
            let i = choose|i: int| 0 <= i < words_of(r2).len() && words_of(r2)[i] == w;
            assert(r2[i].1 == w);
            assert(word_listed(r2[i].1, r1));
            let k = choose|k: int| 0 <= k < r1.len() && r1[k].1 == r2[i].1;
            assert(words_of(r1)[k] == w);
        }
    }
    lemma_best_prefix_equal(r1, r2, vocab, q, limit, r1.len() as int);
    assert(r1 =~= r2);
}

#[verifier::rlimit(50)]
proof fn lemma_best_prefix_equal(
    r1: Seq<(u32, Seq<char>)>,
    r2: Seq<(u32, Seq<char>)>,
    vocab: Set<Seq<char>>,
    q: Seq<char>,
    limit: nat,
    m: int,
)
    requires
        is_best_corrections(r1, vocab, q, limit),
        is_best_corrections(r2, vocab, q, limit),
        r1.len() == r2.len(),
        0 <= m <= r1.len(),
        forall|j: int| 0 <= j < r2.len() ==> #[trigger] word_listed(r2[j].1, r1),
        forall|j: int| 0 <= j < r1.len() ==> #[trigger] word_listed(r1[j].1, r2),
        forall|x: (u32, Seq<char>)| !#[trigger] entry_lt(x, x),
        forall|x: (u32, Seq<char>), y: (u32, Seq<char>), z: (u32, Seq<char>)|
            #[trigger] entry_lt(x, y) && #[trigger] entry_lt(y, z) ==> entry_lt(x, z),
    ensures
        forall|i: int| 0 <= i < m ==> r1[i] == r2[i],
    decreases m,
{
    if m > 0 {
        lemma_best_prefix_equal(r1, r2, vocab, q, limit, m - 1);
        let i = m - 1;
        assert(word_listed(r1[i].1, r2));
        assert(word_listed(r2[i].1, r1));
        let j = choose|j: int| 0 <= j < r2.len() && r2[j].1 == r1[i].1;
        let k = choose|k: int| 0 <= k < r1.len() && r1[k].1 == r2[i].1;
        assert(r1[i].0 == edit_distance(q, r1[i].1));
        assert(r2[j].0 == edit_distance(q, r2[j].1));
        assert(r1[i] == r2[j]);
        assert(r2[i].0 == edit_distance(q, r2[i].1));
        assert(r1[k].0 == edit_distance(q, r1[k].1));
        assert(r2[i] == r1[k]);
        if j < i {
            assert(r1[j] == r2[j]);
            assert(r1[j].1 != r1[i].1);
        } else if j > i {
            if k < i {
                assert(r1[k] == r2[k]);
                assert(r2[k].1 != r2[i].1);
            } else if k > i {
                assert(entry_lt(r1[i], r1[k]));
                assert(entry_lt(r2[i], r2[j]));
                assert(entry_lt(r1[i], r1[i]));
            }
        }
    }
}

/// The views of candidate entries.
pub open spec fn candidate_views(v: Seq<(u32, String)>) -> Seq<(u32, Seq<char>)> {
    v.map_values(|e: (u32, String)| (e.0, e.1@))
}

/// `x` is an entry of `s`.
pub open spec fn listed(x: (u32, Seq<char>), s: Seq<(u32, Seq<char>)>) -> bool {
    exists|k: int| 0 <= k < s.len() && s[k] == x
}

/// `w` is the word of an entry of `s`.
pub open spec fn word_listed(w: Seq<char>, s: Seq<(u32, Seq<char>)>) -> bool {
    exists|k: int| 0 <= k < s.len() && s[k].1 == w
}

/// Picks, at most `limit` times, the first entry not picked yet in the order
/// of distance, then word.
fn select_closest(found: &Vec<(u32, String)>, limit: usize) -> (r: Vec<(u32, String)>)
    requires
        forall|i: int, j: int| 0 <= i < j < found@.len() ==> found@[i].1@ != found@[j].1@,
    ensures
        r@.len() <= limit,
        forall|i: int|
            0 <= i < r@.len() ==> #[trigger] listed(candidate_views(r@)[i], candidate_views(found@)),
        strictly_ordered(candidate_views(r@)),
        forall|j: int|
            0 <= j < found@.len() && !word_listed(#[trigger] found@[j].1@, candidate_views(r@))
                ==> r@.len() == limit && forall|i: int|
                0 <= i < r@.len() ==> #[trigger] entry_lt(candidate_views(r@)[i], candidate_views(found@)[j]),
{
    let ghost fv = candidate_views(found@);
    proof {
        lemma_entry_lt_facts();
        assert forall|i: int, j: int| 0 <= i < j < fv.len() implies fv[i].1 != fv[j].1 by {
            assert(fv[i].1 == found@[i].1@ && fv[j].1 == found@[j].1@);
        }
    }
    let mut out: Vec<(u32, String)> = Vec::new();
    let mut taken: Vec<bool> = Vec::new();
    let mut t: usize = 0;
    while t < found.len()
        invariant
            t <= found@.len(),
            taken@.len() == t,
            forall|j: int| 0 <= j < t ==> !taken@[j],
        decreases found@.len() - t,
    {
        taken.push(false);
        t = t + 1;
    }
    let mut exhausted = false;
    while out.len() < limit && !exhausted
        invariant
            fv == candidate_views(found@),
            taken@.len() == found@.len(),
            out@.len() <= limit,
            forall|i: int, j: int| 0 <= i < j < fv.len() ==> fv[i].1 != fv[j].1,
            forall|x: (u32, Seq<char>)| !#[trigger] entry_lt(x, x),
            forall|x: (u32, Seq<char>), y: (u32, Seq<char>), z: (u32, Seq<char>)|
                #[trigger] entry_lt(x, y) && #[trigger] entry_lt(y, z) ==> entry_lt(x, z),
            forall|x: (u32, Seq<char>), y: (u32, Seq<char>)|
                x.1 != y.1 ==> #[trigger] entry_lt(x, y) || #[trigger] entry_lt(y, x),
            forall|i: int| 0 <= i < out@.len() ==> #[trigger] listed(candidate_views(out@)[i], fv),
            strictly_ordered(candidate_views(out@)),
            forall|j: int|
                0 <= j < found@.len() ==> (#[trigger] taken@[j] <==> word_listed(
                    found@[j].1@,
                    candidate_views(out@),
                )),
            forall|j: int|
                0 <= j < found@.len() && !#[trigger] taken@[j] ==> forall|i: int|
                    0 <= i < out@.len() ==> #[trigger] entry_lt(candidate_views(out@)[i], fv[j]),
            exhausted ==> forall|j: int| 0 <= j < found@.len() ==> #[trigger] taken@[j],
        decreases limit - out@.len(), if exhausted { 0int } else { 1int },
    {
        let mut b: usize = 0;
        let mut picked: bool = false;
        let mut j: usize = 0;
        while j < found.len()
            invariant
                j <= found@.len(),
                fv == candidate_views(found@),
                taken@.len() == found@.len(),
                forall|i: int, k: int| 0 <= i < k < fv.len() ==> fv[i].1 != fv[k].1,
                forall|x: (u32, Seq<char>), y: (u32, Seq<char>), z: (u32, Seq<char>)|
                    #[trigger] entry_lt(x, y) && #[trigger] entry_lt(y, z) ==> entry_lt(x, z),
                forall|x: (u32, Seq<char>), y: (u32, Seq<char>)|
                    x.1 != y.1 ==> #[trigger] entry_lt(x, y) || #[trigger] entry_lt(y, x),
                picked ==> b < j && !taken@[b as int],
                picked ==> forall|k: int|
                    0 <= k < j && !#[trigger] taken@[k] && k != b ==> entry_lt(fv[b as int], fv[k]),
                !picked ==> forall|k: int| 0 <= k < j ==> #[trigger] taken@[k],
            decreases found@.len() - j,
        {
            if !taken[j] {
                let closer = !picked || found[j].0 < found[b].0 || (found[j].0 == found[b].0
                    && word_less(found[j].1.as_str(), found[b].1.as_str()));
                proof {
                    assert(fv[j as int] == (found@[j as int].0, found@[j as int].1@));
                    if picked {
                        assert(fv[b as int] == (found@[b as int].0, found@[b as int].1@));
                        assert(closer == entry_lt(fv[j as int], fv[b as int]));
                        assert(fv[j as int].1 != fv[b as int].1);
                    }
                }
                if closer {
                    b = j;
                    picked = true;
                }
            }
            j = j + 1;
        }
        if !picked {
            exhausted = true;
        } else {
            let ghost prev = out@;
            let ghost prev_taken = taken@;
            let e = (found[b].0, found[b].1.clone());
            out.push(e);
            taken.set(b, true);
            proof {
                let ov = candidate_views(out@);
                let pv = candidate_views(prev);
                assert(ov =~= pv.push(fv[b as int]));
                assert(!word_listed(found@[b as int].1@, pv));
                assert forall|i: int| 0 <= i < out@.len() implies #[trigger] listed(ov[i], fv) by {
                    if i < prev.len() {
                        assert(listed(pv[i], fv));
                        assert(ov[i] == pv[i]);
                    } else {
                        assert(fv[b as int] == ov[i]);
                    }
                }
                assert forall|x: int, y: int| #![trigger ov[x], ov[y]] 0 <= x < y < ov.len() implies ov[x].1
                    != ov[y].1 && entry_lt(ov[x], ov[y]) by {
                    assert(ov[x] == pv[x]);
                    if y == prev.len() {
                        assert(ov[y] == fv[b as int]);
                        if pv[x].1 == found@[b as int].1@ {
                            assert(word_listed(found@[b as int].1@, pv));
                        }
                        assert(!prev_taken[b as int]);
                        assert(entry_lt(pv[x], fv[b as int]));
                    } else {
                        assert(ov[y] == pv[y]);
                    }
                }
                assert forall|k: int| 0 <= k < found@.len() implies (#[trigger] taken@[k]
                    <==> word_listed(found@[k].1@, ov)) by {
                    if word_listed(found@[k].1@, ov) {
                        let m = choose|m: int| 0 <= m < ov.len() && ov[m].1 == found@[k].1@;
                        if m < prev.len() {
                            assert(pv[m] == ov[m]);
                        } else if k != b {
                            assert(fv[k].1 == found@[k].1@);
                            assert(found@[k].1@ == found@[b as int].1@);
                            if k < b {
                                assert(fv[k].1 != fv[b as int].1);
                            } else {
                                assert(fv[b as int].1 != fv[k].1);
                            }
                        }
                    }
                    if prev_taken[k] {
                        let m = choose|m: int| 0 <= m < pv.len() && pv[m].1 == found@[k].1@;
                        assert(ov[m] == pv[m]);
                    }
                    if k == b {
                        assert(ov[prev.len() as int].1 == found@[k].1@);
                    }
                }
                assert forall|k: int|
                    0 <= k < found@.len() && !#[trigger] taken@[k] implies forall|i: int|
                        0 <= i < out@.len() ==> #[trigger] entry_lt(ov[i], fv[k]) by {
                    assert(!prev_taken[k]);
                    assert(k != b);
                    assert forall|i: int| 0 <= i < out@.len() implies #[trigger] entry_lt(ov[i], fv[k]) by {
                        if i < prev.len() {
                            assert(ov[i] == pv[i]);
                        } else {
                            assert(ov[i] == fv[b as int]);
                        }
                    }
                }
            }
        }
    }
    proof {
        assert forall|j: int|
            0 <= j < found@.len() && !word_listed(#[trigger] found@[j].1@, candidate_views(out@))
                implies out@.len() == limit && forall|i: int|
                0 <= i < out@.len() ==> #[trigger] entry_lt(candidate_views(out@)[i], fv[j]) by {
            assert(!taken@[j]);
        }
    }
    out
}

/// The corrector: a BK-tree over a vocabulary of words.
pub struct Corrector {
    tree: BKTree<String, Levenshtein>,
}

impl Corrector {
    /// The words the corrector holds.
    pub closed spec fn words(&self) -> Set<Seq<char>> {
        tree_words(self.tree)
    }

    /// No word is longer than `MAX_WORD_LEN`.
    pub closed spec fn wf(&self) -> bool {
        forall|w: Seq<char>| #[trigger] tree_words(self.tree).contains(w) ==> w.len() <= MAX_WORD_LEN
    }

    /// A corrector with no words.
    pub fn new() -> (r: Corrector)
        ensures
            r.wf(),
            r.words() == Set::<Seq<char>>::empty(),
    {
        Corrector { tree: empty_tree() }
    }

    /// A corrector built from scratch over the given words, those longer than
    /// `MAX_WORD_LEN` left out.
    pub fn build(words: &Vec<String>) -> (r: Corrector)
        ensures
            r.wf(),
            r.words() == views_of(words@).to_set().filter(|w: Seq<char>| w.len() <= MAX_WORD_LEN),
    {
        let mut tree = empty_tree();
        let mut i: usize = 0;
        while i < words.len()
            invariant
                i <= words@.len(),
                tree_words(tree) == views_of(words@.take(i as int)).to_set().filter(
                    |w: Seq<char>| w.len() <= MAX_WORD_LEN,
                ),
            decreases words@.len() - i,
        {
            let w = &words[i];
            let n = w.as_str().unicode_len();
            let ghost before = tree_words(tree);
            proof {
                assert(views_of(words@.take(i as int + 1)) =~= views_of(words@.take(i as int)).push(
                    w@,
                ));
                views_of(words@.take(i as int)).lemma_push_to_set_commute(w@);
            }
            if n <= MAX_WORD_LEN {
                tree_add(&mut tree, w.clone());
                proof {
                    assert(tree_words(tree) =~= views_of(words@.take(i as int + 1)).to_set().filter(
                        |w: Seq<char>| w.len() <= MAX_WORD_LEN,
                    ));
                }
            } else {
                proof {
                    assert(tree_words(tree) =~= views_of(words@.take(i as int + 1)).to_set().filter(
                        |w: Seq<char>| w.len() <= MAX_WORD_LEN,
                    ));
                }
            }
            i = i + 1;
        }
        proof {
            assert(words@.take(i as int) =~= words@);
        }
        let r = Corrector { tree };
        r
    }

    /// Replaces the words with the vocabulary of the store's rows in `fields`,
    /// rebuilt from scratch: words gone from the store go, new ones come.
    pub fn refresh(&mut self, store: &WordStore, fields: &Vec<Field>)
        ensures
            final(self).wf(),
            final(self).words() == vocabulary(store@, fields@).filter(
                |w: Seq<char>| w.len() <= MAX_WORD_LEN,
            ),
    {
        let words = store.distinct_words(fields);
        let fresh = Corrector::build(&words);
        *self = fresh;
    }
}


impl Corrector {
    /// The best corrections of `word`, at most `limit` of them, ascending by
    /// distance, within a tolerance of half its UTF-8 byte length, rounded down. A word
    /// longer than `MAX_WORD_LEN` gets none.
    pub fn correct(&self, word: &String, limit: usize) -> (r: Vec<(u32, String)>)
        requires
            self.wf(),
        ensures
            word@.len() <= MAX_WORD_LEN ==> is_best_corrections(
                candidate_views(r@),
                self.words(),
                word@,
                limit as nat,
            ),
            word@.len() > MAX_WORD_LEN ==> r@.len() == 0,
    {
        let cs = crate::text::chars_of(word.as_str());
        if cs.len() > MAX_WORD_LEN {
            return Vec::new();
        }
        let bytes = utf8_len_of(&cs);
        let tolerance = (bytes / 2) as u32;
        let found = tree_find(&self.tree, word.as_str(), tolerance);
        let r = select_closest(&found, limit);
        proof {
            let rv = candidate_views(r@);
            let fv = candidate_views(found@);
            let vocab = self.words();
            assert forall|i: int| 0 <= i < rv.len() implies is_candidate(vocab, word@, #[trigger] rv[i].1)
                && rv[i].0 == edit_distance(word@, rv[i].1) by {
                assert(listed(rv[i], fv));
                let k = choose|k: int| 0 <= k < fv.len() && fv[k] == rv[i];
                assert(fv[k].1 == found@[k].1@);
            }
            assert forall|w: Seq<char>|
                is_candidate(vocab, word@, w) && !(exists|i: int| 0 <= i < rv.len() && #[trigger] rv[i].1 == w)
                    implies rv.len() == limit && forall|i: int|
                    0 <= i < rv.len() ==> #[trigger] entry_lt(rv[i], (edit_distance(word@, w) as u32, w)) by {
                assert(tree_words(self.tree).contains(w));
                let k = choose|k: int| 0 <= k < found@.len() && #[trigger] found@[k].1@ == w;
                if word_listed(found@[k].1@, rv) {
                    let m = choose|m: int| 0 <= m < rv.len() && rv[m].1 == found@[k].1@;
                }
                assert(fv[k] == (edit_distance(word@, w) as u32, w));
                assert forall|i: int| 0 <= i < rv.len() implies #[trigger] entry_lt(
                    rv[i],
                    (edit_distance(word@, w) as u32, w),
                ) by {
                    assert(entry_lt(rv[i], fv[k]));
                }
            }
        }
        r
    }
}

} // verus!
