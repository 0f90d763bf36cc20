//! The word store: an append-only table of word occurrences, and the weighted
//! aggregate that scores entities against a set of words.

use vstd::prelude::*;
use crate::error::SearchError;
use crate::text::views_of;

verus! {

/// The structured field a word occurred in.
#[derive(Debug, Clone, Copy, PartialEq, Eq, Structural)]
pub enum Field {
    PostTitle,
    PostShortDescription,
    PostDescription,
    PostTagName,
    PostPosterDisplayName,
}

/// The static weight of a field.
pub open spec fn field_weight(f: Field) -> nat {
    match f {
        Field::PostTitle => 100,
        Field::PostPosterDisplayName => 50,
        Field::PostShortDescription => 25,
        Field::PostTagName => 5,
        Field::PostDescription => 1,
    }
}

/// The largest field weight.
pub const MAX_FIELD_WEIGHT: u64 = 100;

/// The most rows a store holds; keeps every score within `u64`.
pub const MAX_ROWS: usize = 0xffff_ffff;

impl Field {
    /// The static weight of this field in a score.
    pub fn weight(&self) -> (r: u64)
        ensures
            r == field_weight(*self),
            1 <= r <= MAX_FIELD_WEIGHT,
    {
        match self {
            Field::PostTitle => 100,
            Field::PostPosterDisplayName => 50,
            Field::PostShortDescription => 25,
            Field::PostTagName => 5,
            Field::PostDescription => 1,
        }
    }
}

/// A word occurrence as a mathematical value.
pub struct OccurrenceView {
    pub word: Seq<char>,
    pub entity_type: Seq<char>,
    pub entity_id: u32,
    pub field: Field,
}

/// One occurrence of a word in a field of an entity.
#[derive(Debug, Clone)]
pub struct WordOccurrence {
    pub word: String,
    pub entity_type: String,
    pub entity_id: u32,
    pub field: Field,
}

impl View for WordOccurrence {
    type V = OccurrenceView;

    open spec fn view(&self) -> OccurrenceView {
        OccurrenceView {
            word: self.word@,
            entity_type: self.entity_type@,
            entity_id: self.entity_id,
            field: self.field,
        }
    }
}

/// The views of a sequence of occurrences.
pub open spec fn occurrence_views(v: Seq<WordOccurrence>) -> Seq<OccurrenceView> {
    v.map_values(|o: WordOccurrence| o@)
}

/// The set of words in a list of candidate words.
pub open spec fn word_set(words: Seq<String>) -> Set<Seq<char>> {
    views_of(words).to_set()
}

/// What one row adds to the score of entity `id` against `words`.
pub open spec fn row_score(r: OccurrenceView, words: Set<Seq<char>>, id: u32) -> nat {
    if r.entity_id == id && words.contains(r.word) {
        field_weight(r.field)
    } else {
        0
    }
}

/// The score of entity `id` against `words`: the weight of the field of every
/// matching row, summed. A word that occurs k times in a field counts k times.
pub open spec fn score(rows: Seq<OccurrenceView>, words: Set<Seq<char>>, id: u32) -> nat
    decreases rows.len(),
{
    if rows.len() == 0 {
        0
    } else {
        score(rows.drop_last(), words, id) + row_score(rows.last(), words, id)
    }
}

/// A score is at most the heaviest weight times the number of rows.
pub proof fn lemma_score_bound(rows: Seq<OccurrenceView>, words: Set<Seq<char>>, id: u32)
    ensures
        score(rows, words, id) <= MAX_FIELD_WEIGHT * rows.len(),
    decreases rows.len(),
{
    if rows.len() > 0 {
        lemma_score_bound(rows.drop_last(), words, id);
    }
}

/// An entity with a row of one of the words has a positive score.
pub proof fn lemma_score_positive(rows: Seq<OccurrenceView>, words: Set<Seq<char>>, id: u32, j: int)
    requires
        0 <= j < rows.len(),
        rows[j].entity_id == id,
        words.contains(rows[j].word),
    ensures
        score(rows, words, id) > 0,
    decreases rows.len(),
{
    if j < rows.len() - 1 {
        lemma_score_positive(rows.drop_last(), words, id, j);
    }
}

/// Scores add up over appended rows.
pub proof fn lemma_score_append(
    a: Seq<OccurrenceView>,
    b: Seq<OccurrenceView>,
    words: Set<Seq<char>>,
    id: u32,
)
    ensures
        score(a + b, words, id) == score(a, words, id) + score(b, words, id),
    decreases b.len(),
{
    if b.len() > 0 {
        assert((a + b).drop_last() =~= a + b.drop_last());
        lemma_score_append(a, b.drop_last(), words, id);
    } else {
        assert(a + b =~= a);
    }
}

/// The value an accumulator holds for `id`; 0 where it has no entry.
pub open spec fn acc_value(acc: Seq<(u32, u64)>, id: u32) -> nat
    decreases acc.len(),
{
    if acc.len() == 0 {
        0
    } else if acc.last().0 == id {
        acc.last().1 as nat
    } else {
        acc_value(acc.drop_last(), id)
    }
}

/// No identifier has two entries.
pub open spec fn unique_ids(acc: Seq<(u32, u64)>) -> bool {
    forall|i: int, j: int| 0 <= i < j < acc.len() ==> acc[i].0 != acc[j].0
}

/// Every entry holds a positive value.
pub open spec fn positive_values(acc: Seq<(u32, u64)>) -> bool {
    forall|i: int| 0 <= i < acc.len() ==> acc[i].1 > 0
}

/// A well-formed accumulator: one positive entry per identifier present.
pub open spec fn acc_wf(acc: Seq<(u32, u64)>) -> bool {
    unique_ids(acc) && positive_values(acc)
}

pub proof fn lemma_acc_index(acc: Seq<(u32, u64)>, k: int)
    requires
        unique_ids(acc),
        0 <= k < acc.len(),
    ensures
        acc_value(acc, acc[k].0) == acc[k].1,
    decreases acc.len(),
{
    if k < acc.len() - 1 {
        lemma_acc_index(acc.drop_last(), k);
    }
}

pub proof fn lemma_acc_absent(acc: Seq<(u32, u64)>, id: u32)
    requires
        forall|k: int| 0 <= k < acc.len() ==> acc[k].0 != id,
    ensures
        acc_value(acc, id) == 0,
    decreases acc.len(),
{
    if acc.len() > 0 {
        lemma_acc_absent(acc.drop_last(), id);
    }
}

/// An entry with a positive value is present, and an absent one is 0.
pub proof fn lemma_acc_present(acc: Seq<(u32, u64)>, id: u32)
    requires
        acc_wf(acc),
    ensures
        acc_value(acc, id) > 0 <==> exists|k: int| 0 <= k < acc.len() && acc[k].0 == id,
{
    if exists|k: int| 0 <= k < acc.len() && acc[k].0 == id {
        let k = choose|k: int| 0 <= k < acc.len() && acc[k].0 == id;
        lemma_acc_index(acc, k);
    } else {
        lemma_acc_absent(acc, id);
    }
}

proof fn lemma_acc_update(acc: Seq<(u32, u64)>, k: int, v: u64, x: u32)
    requires
        unique_ids(acc),
        0 <= k < acc.len(),
    ensures
        acc_value(acc.update(k, (acc[k].0, v)), x) == if x == acc[k].0 {
            v as nat
        } else {
            acc_value(acc, x)
        },
    decreases acc.len(),
{
    let upd = acc.update(k, (acc[k].0, v));
    if k == acc.len() - 1 {
        assert(upd.drop_last() =~= acc.drop_last());
    } else {
        assert(upd.drop_last() =~= acc.drop_last().update(k, (acc[k].0, v)));
        lemma_acc_update(acc.drop_last(), k, v, x);
        if x == acc[k].0 {
            assert(acc.last().0 != x);
        }
    }
}

/// Adds `amount` to the entry of `id`, creating it where there is none.
fn add_to(acc: &mut Vec<(u32, u64)>, id: u32, amount: u64)
    requires
        acc_wf(old(acc)@),
        amount > 0,
        acc_value(old(acc)@, id) + amount <= u64::MAX,
    ensures
        acc_wf(final(acc)@),
        forall|x: u32|
            acc_value(#[trigger] final(acc)@, x) == acc_value(old(acc)@, x) + if x == id {
                amount as nat
            } else {
                0
            },
{
    let mut k: usize = 0;
    while k < acc.len()
        invariant
            k <= acc@.len(),
            acc@ == old(acc)@,
            acc_wf(acc@),
            amount > 0,
            acc_value(acc@, id) + amount <= u64::MAX,
            forall|j: int| 0 <= j < k ==> acc@[j].0 != id,
        decreases acc@.len() - k,
    {
        if acc[k].0 == id {
            proof {
                lemma_acc_index(acc@, k as int);
            }
            let v = acc[k].1 + amount;
            let ghost prev = acc@;
            acc.set(k, (id, v));
            proof {
                assert forall|x: u32| acc_value(acc@, x) == acc_value(prev, x) + if x == id {
                    amount as nat
                } else {
                    0
                } by {
                    lemma_acc_update(prev, k as int, v, x);
                }
            }
            return;
        }
        k = k + 1;
    }
    proof {
        lemma_acc_absent(acc@, id);
    }
    let ghost prev = acc@;
    acc.push((id, amount));
    proof {
        assert(acc@.drop_last() =~= prev);
        assert forall|x: u32| acc_value(acc@, x) == acc_value(prev, x) + if x == id {
            amount as nat
        } else {
            0
        } by {
            if x == id {
                lemma_acc_absent(prev, id);
            }
        }
    }
}

/// Whether `w` is one of `words`.
fn contains_word(words: &Vec<String>, w: &String) -> (r: bool)
    ensures
        r == word_set(words@).contains(w@),
{
    let mut j: usize = 0;
    while j < words.len()
        invariant
            j <= words@.len(),
            forall|i: int| 0 <= i < j ==> words@[i]@ != w@,
        decreases words@.len() - j,
    {
        if words[j] == *w {
            proof {
                assert(views_of(words@)[j as int] == w@);
            }
            return true;
        }
        j = j + 1;
    }
    proof {
        if word_set(words@).contains(w@) {
            let i = choose|i: int| 0 <= i < views_of(words@).len() && views_of(words@)[i] == w@;
            assert(words@[i]@ == w@);
        }
    }
    false
}

/// Adds `mult` times the score of every entity against `words` to `acc`.
pub(crate) fn accumulate(
    acc: &mut Vec<(u32, u64)>,
    rows: &Vec<WordOccurrence>,
    words: &Vec<String>,
    mult: u64,
)
    requires
        acc_wf(old(acc)@),
        mult > 0,
        forall|x: u32|
            acc_value(old(acc)@, x) + mult * MAX_FIELD_WEIGHT * rows@.len() <= u64::MAX,
    ensures
        acc_wf(final(acc)@),
        forall|x: u32|
            acc_value(#[trigger] final(acc)@, x) == acc_value(old(acc)@, x) + mult * score(
                occurrence_views(rows@),
                word_set(words@),
                x,
            ),
{
    let ghost base = acc@;
    let ghost rv = occurrence_views(rows@);
    let ghost ws = word_set(words@);
    let mut r: usize = 0;
    proof {
        assert(rv.take(0) =~= Seq::<OccurrenceView>::empty());
        assert forall|x: u32|
            acc_value(#[trigger] acc@, x) == acc_value(base, x) + mult * score(rv.take(0), ws, x) by {
            assert(score(rv.take(0), ws, x) == 0);
            assert(mult * 0 == 0) by (nonlinear_arith);
        }
    }
    while r < rows.len()
        invariant
            r <= rows@.len(),
            rv == occurrence_views(rows@),
            ws == word_set(words@),
            mult > 0,
            acc_wf(acc@),
            forall|x: u32| acc_value(base, x) + mult * MAX_FIELD_WEIGHT * rows@.len() <= u64::MAX,
            forall|x: u32|
                acc_value(#[trigger] acc@, x) == acc_value(base, x) + mult * score(
                    rv.take(r as int),
                    ws,
                    x,
                ),
        decreases rows@.len() - r,
    {
        let row = &rows[r];
        proof {
            assert(rv.take(r as int + 1).drop_last() =~= rv.take(r as int));
            assert(rv.take(r as int + 1).last() == row@);
        }
        if contains_word(words, &row.word) {
            let id = row.entity_id;
            let w = row.field.weight();
            proof {
                lemma_score_bound(rv.take(r as int), ws, id);
                let s = score(rv.take(r as int), ws, id);
                assert(mult * s + mult * w <= mult * MAX_FIELD_WEIGHT * rows@.len()) by (
                nonlinear_arith)
                    requires
                        s <= MAX_FIELD_WEIGHT * r,
                        w <= MAX_FIELD_WEIGHT,
                        r + 1 <= rows@.len(),
                        mult > 0,
                ;
                assert(acc_value(base, id) + mult * MAX_FIELD_WEIGHT * rows@.len() <= u64::MAX);
                assert(mult * w <= u64::MAX);
                assert(mult * w > 0) by (nonlinear_arith)
                    requires
                        mult > 0,
                        w >= 1,
                ;
            }
            let amount = mult * w;
            let ghost prev = acc@;
            add_to(acc, id, amount);
            proof {
                assert forall|x: u32|
                    acc_value(#[trigger] acc@, x) == acc_value(base, x) + mult * score(
                        rv.take(r as int + 1),
                        ws,
                        x,
                    ) by {
                    let s = score(rv.take(r as int), ws, x);
                    let rs = row_score(row@, ws, x);
                    assert(mult * (s + rs) == mult * s + mult * rs) by (nonlinear_arith);
                }
            }
        } else {
            proof {
                assert forall|x: u32|
                    acc_value(#[trigger] acc@, x) == acc_value(base, x) + mult * score(
                        rv.take(r as int + 1),
                        ws,
                        x,
                    ) by {
                    assert(row_score(row@, ws, x) == 0);
                }
            }
        }
        r = r + 1;
    }
    proof {
        assert(rv.take(r as int) =~= rv);
    }
}

/// Whether `f` is one of `fields`.
fn contains_field(fields: &Vec<Field>, f: Field) -> (r: bool)
    ensures
        r == fields@.contains(f),
{
    let mut j: usize = 0;
    while j < fields.len()
        invariant
            j <= fields@.len(),
            forall|i: int| 0 <= i < j ==> fields@[i] != f,
        decreases fields@.len() - j,
    {
        if fields[j] == f {
            return true;
        }
        j = j + 1;
    }
    false
}

/// The words of the rows whose field is one of `fields`.
pub open spec fn vocabulary(rows: Seq<OccurrenceView>, fields: Seq<Field>) -> Set<Seq<char>> {
    Set::new(
        |w: Seq<char>|
            exists|i: int| 0 <= i < rows.len() && fields.contains(rows[i].field) && rows[i].word == w,
    )
}

/// No two strings of the sequence are equal.
pub open spec fn distinct_views(v: Seq<String>) -> bool {
    forall|i: int, j: int| 0 <= i < j < v.len() ==> v[i]@ != v[j]@
}

/// The append-only store of word occurrences.
pub struct WordStore {
    rows: Vec<WordOccurrence>,
}

impl View for WordStore {
    type V = Seq<OccurrenceView>;

    closed spec fn view(&self) -> Seq<OccurrenceView> {
        occurrence_views(self.rows@)
    }
}

impl WordStore {
    /// The store holds at most `MAX_ROWS` rows.
    pub closed spec fn wf(&self) -> bool {
        self.rows@.len() <= MAX_ROWS
    }

    /// A well-formed store holds at most `MAX_ROWS` rows.
    pub proof fn lemma_len_bounded(&self)
        requires
            self.wf(),
        ensures
            self@.len() <= MAX_ROWS,
    {
    }

    /// An empty store.
    pub fn new() -> (r: WordStore)
        ensures
            r.wf(),
            r@ == Seq::<OccurrenceView>::empty(),
    {
        let r = WordStore { rows: Vec::new() };
        proof {
            assert(r@ =~= Seq::<OccurrenceView>::empty());
        }
        r
    }

    /// The number of rows.
    pub fn len(&self) -> (r: usize)
        ensures
            r == self@.len(),
    {
        self.rows.len()
    }

    /// The rows, in the order they were appended.
    pub fn occurrences(&self) -> (r: &Vec<WordOccurrence>)
        ensures
            occurrence_views(r@) == self@,
            self.wf() ==> r@.len() <= MAX_ROWS,
    {
        &self.rows
    }

    /// Appends a batch of rows, all or none: the batch is refused, and the
    /// store left as it was, exactly when it would grow past `MAX_ROWS`.
    pub fn append(&mut self, batch: Vec<WordOccurrence>) -> (r: Result<(), SearchError>)
        requires
            old(self).wf(),
        ensures
            final(self).wf(),
            r is Ok <==> old(self)@.len() + batch@.len() <= MAX_ROWS,
            r is Ok ==> final(self)@ == old(self)@ + occurrence_views(batch@),
            r is Err ==> final(self)@ == old(self)@,
    {
        if batch.len() > MAX_ROWS - self.rows.len() {
            return Err(SearchError::InternalError);
        }
        let ghost before = self.rows@;
        let mut batch = batch;
        let ghost added = batch@;
        self.rows.append(&mut batch);
        proof {
            assert(occurrence_views(self.rows@) =~= occurrence_views(before) + occurrence_views(
                added,
            ));
        }
        Ok(())
    }

    /// The distinct words of the rows whose field is one of `fields`.
    pub fn distinct_words(&self, fields: &Vec<Field>) -> (r: Vec<String>)
        ensures
            distinct_views(r@),
            views_of(r@).to_set() == vocabulary(self@, fields@),
    {
        let ghost rv = self@;
        let mut out: Vec<String> = Vec::new();
        let mut i: usize = 0;
        while i < self.rows.len()
            invariant
                i <= self.rows@.len(),
                rv == occurrence_views(self.rows@),
                distinct_views(out@),
                views_of(out@).to_set() == vocabulary(rv.take(i as int), fields@),
            decreases self.rows@.len() - i,
        {
            let row = &self.rows[i];
            let ghost pre = rv.take(i as int);
            let ghost post = rv.take(i as int + 1);
            proof {
                assert(post[i as int] == row@);
                assert forall|k: int| 0 <= k < i implies post[k] == pre[k] by {}
            }
            if contains_field(fields, row.field) && !contains_word(&out, &row.word) {
                let ghost prev = out@;
                let w = row.word.clone();
                out.push(w);
                proof {
                    assert(views_of(out@) =~= views_of(prev).push(row.word@));
                    assert forall|k: int| 0 <= k < prev.len() implies prev[k]@ != row.word@ by {
                        assert(views_of(prev)[k] == prev[k]@);
                    }
                    assert(out@[prev.len() as int] == w);
                    assert forall|a: int, b: int| 0 <= a < b < out@.len() implies out@[a]@
                        != out@[b]@ by {
                        if b < prev.len() {
                            assert(out@[a] == prev[a] && out@[b] == prev[b]);
                        } else {
                            assert(out@[a] == prev[a]);
                        }
                    }
                    assert forall|x: Seq<char>|
                        vocabulary(post, fields@).contains(x) implies views_of(
                            out@,
                        ).to_set().contains(x) by {
                        let k = choose|k: int|
                            0 <= k < post.len() && fields@.contains(post[k].field)
                                && post[k].word == x;
                        if k < i {
                            assert(vocabulary(pre, fields@).contains(x));
                            assert(views_of(prev).to_set().contains(x));
                            let j = choose|j: int|
                                0 <= j < views_of(prev).len() && views_of(prev)[j] == x;
                            assert(views_of(out@)[j] == x);
                        } else {
                            assert(views_of(out@)[prev.len() as int] == x);
                        }
                    }
                    assert forall|x: Seq<char>|
                        views_of(out@).to_set().contains(x) implies vocabulary(
                            post,
                            fields@,
                        ).contains(x) by {
                        let j = choose|j: int| 0 <= j < views_of(out@).len() && views_of(out@)[j] == x;
                        if j < prev.len() {
                            assert(views_of(prev)[j] == x);
                            assert(views_of(prev).to_set().contains(x));
                            assert(vocabulary(pre, fields@).contains(x));
                            let k = choose|k: int|
                                0 <= k < pre.len() && fields@.contains(pre[k].field)
                                    && pre[k].word == x;
                            assert(post[k] == pre[k]);
                        } else {
                            assert(post[i as int].word == x);
                        }
                    }
                    assert(views_of(out@).to_set() =~= vocabulary(post, fields@));
                }
            } else {
                proof {
                    assert(views_of(out@).to_set() =~= vocabulary(post, fields@)) by {
                        assert forall|w: Seq<char>|
                            vocabulary(post, fields@).contains(w) implies views_of(
                                out@,
                            ).to_set().contains(w) by {
                            let k = choose|k: int|
                                0 <= k < post.len() && fields@.contains(post[k].field)
                                    && post[k].word == w;
                            if k < i {
                                assert(vocabulary(pre, fields@).contains(w));
                            }
                        }
                    }
                }
            }
            i = i + 1;
        }
        proof {
            assert(rv.take(i as int) =~= rv);
        }
        out
    }

    /// The score of every entity whose rows match one of `words`: each entity
    /// present once, with the weight of the field of each matching row summed.
    pub fn scored_aggregate(&self, words: &Vec<String>) -> (r: Vec<(u32, u64)>)
        requires
            self.wf(),
        ensures
            acc_wf(r@),
            forall|x: u32| acc_value(#[trigger] r@, x) == score(self@, word_set(words@), x),
    {
        let mut acc: Vec<(u32, u64)> = Vec::new();
        proof {
            assert forall|x: u32|
                acc_value(acc@, x) + 1 * MAX_FIELD_WEIGHT * self.rows@.len() <= u64::MAX by {}
        }
        accumulate(&mut acc, &self.rows, words, 1);
        acc
    }
}

} // verus!
