//! The search service: indexing posts into the word store, refreshing the
//! corrector, and answering queries through corrected variants.

use vstd::prelude::*;
use crate::account::{display_name, AccountTypeView, CompactAccount};
use crate::corrector::{candidate_views, is_best_corrections, word_listed, Corrector, MAX_WORD_LEN};
use crate::error::SearchError;
use crate::post::Post;
use crate::ranking::{is_ranking, rank, variant_views, MAX_VARIANTS};
use crate::tag::CompactTag;
use crate::text::{tokenize, tokens, views_of};
use crate::word_store::{
    lemma_score_append, occurrence_views, row_score, score, vocabulary, Field, OccurrenceView,
    WordOccurrence, WordStore, MAX_ROWS,
};

verus! {

/// How many corrections a query position contributes, by default.
pub const MAX_SUGGESTIONS: u8 = 3;

/// The entity type of indexed posts.
pub open spec fn post_type() -> Seq<char> {
    seq!['p', 'o', 's', 't']
}

/// The fields whose words make the corrector's vocabulary.
pub open spec fn high_signal_fields() -> Seq<Field> {
    seq![
        Field::PostTitle,
        Field::PostShortDescription,
        Field::PostTagName,
        Field::PostPosterDisplayName,
    ]
}

/// The fields whose words make the corrector's vocabulary.
pub fn high_signal_field_list() -> (r: Vec<Field>)
    ensures
        r@ == high_signal_fields(),
{
    let r = vec![
        Field::PostTitle,
        Field::PostShortDescription,
        Field::PostTagName,
        Field::PostPosterDisplayName,
    ];
    proof {
        assert(r@ =~= high_signal_fields());
    }
    r
}

/// One row per token of `text`, in order.
pub open spec fn field_occurrences(text: Seq<char>, field: Field, id: u32) -> Seq<OccurrenceView> {
    tokens(text).map_values(
        |w: Seq<char>| OccurrenceView { word: w, entity_type: post_type(), entity_id: id, field },
    )
}

/// The name of the first tag with identifier `id`.
pub open spec fn find_tag(tags: Seq<CompactTag>, id: u32) -> Option<Seq<char>>
    decreases tags.len(),
{
    if tags.len() == 0 {
        None
    } else if tags[0].id == id {
        Some(tags[0].name@)
    } else {
        find_tag(tags.drop_first(), id)
    }
}

/// The account type of the first poster with identifier `id`.
pub open spec fn find_poster(posters: Seq<CompactAccount>, id: u32) -> Option<AccountTypeView>
    decreases posters.len(),
{
    if posters.len() == 0 {
        None
    } else if posters[0].id == id {
        Some(posters[0].account_type@)
    } else {
        find_poster(posters.drop_first(), id)
    }
}

/// The rows of the tags `tag_ids` of post `id`.
pub open spec fn tag_occurrences(tag_ids: Seq<u32>, tags: Seq<CompactTag>, id: u32) -> Seq<OccurrenceView>
    decreases tag_ids.len(),
{
    if tag_ids.len() == 0 {
        Seq::empty()
    } else {
        tag_occurrences(tag_ids.drop_last(), tags, id) + field_occurrences(
            find_tag(tags, tag_ids.last())->0,
            Field::PostTagName,
            id,
        )
    }
}

/// Every tag of the post and its poster can be found.
pub open spec fn post_resolves(p: Post, tags: Seq<CompactTag>, posters: Seq<CompactAccount>) -> bool {
    &&& forall|k: int| 0 <= k < p.tag_ids@.len() ==> find_tag(tags, #[trigger] p.tag_ids@[k]) is Some
    &&& find_poster(posters, p.poster_id) is Some
}

/// The rows that indexing a post appends: one per token of its title, short
/// description, description, each tag's name and its poster's display name.
pub open spec fn post_occurrences(p: Post, tags: Seq<CompactTag>, posters: Seq<CompactAccount>) -> Seq<
    OccurrenceView,
> {
    field_occurrences(p.title@, Field::PostTitle, p.id) + field_occurrences(
        p.short_description@,
        Field::PostShortDescription,
        p.id,
    ) + field_occurrences(p.description@, Field::PostDescription, p.id) + tag_occurrences(
        p.tag_ids@,
        tags,
        p.id,
    ) + field_occurrences(
        display_name(find_poster(posters, p.poster_id)->0),
        Field::PostPosterDisplayName,
        p.id,
    )
}

/// Every post of the batch resolves.
pub open spec fn batch_resolves(posts: Seq<Post>, tags: Seq<CompactTag>, posters: Seq<CompactAccount>) -> bool {
    forall|i: int| 0 <= i < posts.len() ==> post_resolves(#[trigger] posts[i], tags, posters)
}

/// The rows of a batch of posts, post after post.
pub open spec fn batch_occurrences(
    posts: Seq<Post>,
    tags: Seq<CompactTag>,
    posters: Seq<CompactAccount>,
) -> Seq<OccurrenceView>
    decreases posts.len(),
{
    if posts.len() == 0 {
        Seq::empty()
    } else {
        batch_occurrences(posts.drop_last(), tags, posters) + post_occurrences(
            posts.last(),
            tags,
            posters,
        )
    }
}

/// The word at position `p` of variant `k`: the query token for variant 0, else
/// the `k`-th correction of that token, or the token where it has fewer.
pub open spec fn variant_word(
    toks: Seq<Seq<char>>,
    corrections: Seq<Seq<(u32, Seq<char>)>>,
    k: int,
    p: int,
) -> Seq<char> {
    if k >= 1 && k - 1 < corrections[p].len() {
        corrections[p][k - 1].1
    } else {
        toks[p]
    }
}

/// The `n + 1` query variants: the query itself, then one per correction rank.
pub open spec fn query_variants(
    toks: Seq<Seq<char>>,
    corrections: Seq<Seq<(u32, Seq<char>)>>,
    n: nat,
) -> Seq<Seq<Seq<char>>> {
    Seq::new(n + 1, |k: int| Seq::new(toks.len(), |p: int| variant_word(toks, corrections, k, p)))
}

/// The corrections of each token are the best ones the corrector offers.
pub open spec fn are_best_corrections(
    corrections: Seq<Seq<(u32, Seq<char>)>>,
    vocab: Set<Seq<char>>,
    toks: Seq<Seq<char>>,
    n: nat,
) -> bool {
    &&& corrections.len() == toks.len()
    &&& forall|p: int|
        0 <= p < toks.len() ==> if toks[p].len() <= MAX_WORD_LEN {
            is_best_corrections(#[trigger] corrections[p], vocab, toks[p], n)
        } else {
            corrections[p].len() == 0
        }
}

/// The views of each token's corrections.
pub open spec fn correction_views(c: Seq<Vec<(u32, String)>>) -> Seq<Seq<(u32, Seq<char>)>> {
    c.map_values(|v: Vec<(u32, String)>| candidate_views(v@))
}

/// Builds the `max_suggestions + 1` query variants from the tokens and each
/// token's ranked corrections.
pub fn build_query_variants(
    toks: &Vec<String>,
    corrections: &Vec<Vec<(u32, String)>>,
    max_suggestions: u8,
) -> (r: Vec<Vec<String>>)
    requires
        corrections@.len() == toks@.len(),
    ensures
        variant_views(r@) == query_variants(
            views_of(toks@),
            correction_views(corrections@),
            max_suggestions as nat,
        ),
{
    let ghost tv = views_of(toks@);
    let ghost cv = correction_views(corrections@);
    let ghost target = query_variants(tv, cv, max_suggestions as nat);
    let mut out: Vec<Vec<String>> = Vec::new();
    let mut k: usize = 0;
    while k <= max_suggestions as usize
        invariant
            k <= max_suggestions as usize + 1,
            corrections@.len() == toks@.len(),
            tv == views_of(toks@),
            cv == correction_views(corrections@),
            target == query_variants(tv, cv, max_suggestions as nat),
            out@.len() == k,
            forall|j: int| 0 <= j < k ==> views_of(#[trigger] out@[j]@) == target[j],
        decreases max_suggestions as usize + 1 - k,
    {
        let mut variant: Vec<String> = Vec::new();
        let mut p: usize = 0;
        while p < toks.len()
            invariant
                k <= max_suggestions as usize,
                p <= toks@.len(),
                corrections@.len() == toks@.len(),
                tv == views_of(toks@),
                cv == correction_views(corrections@),
                variant@.len() == p,
                forall|q: int| 0 <= q < p ==> #[trigger] variant@[q]@ == variant_word(tv, cv, k as int, q),
            decreases toks@.len() - p,
        {
            let cs = &corrections[p];
            proof {
                assert(cv[p as int] == candidate_views(cs@));
            }
            if k >= 1 && k - 1 < cs.len() {
                variant.push(cs[k - 1].1.clone());
            } else {
                variant.push(toks[p].clone());
            }
            p = p + 1;
        }
        proof {
            assert(views_of(variant@) =~= target[k as int]);
        }
        out.push(variant);
        k = k + 1;
    }
    proof {
        assert(variant_views(out@) =~= target);
    }
    out
}

/// The entity type of indexed posts.
fn post_type_string() -> (r: String)
    ensures
        r@ == post_type(),
{
    proof {
        reveal_strlit("post");
    }
    let r = "post".to_owned();
    proof {
        assert(r@ =~= post_type());
    }
    r
}

/// Appends one row per token of `text`.
fn push_field(batch: &mut Vec<WordOccurrence>, text: &String, field: Field, id: u32)
    ensures
        occurrence_views(final(batch)@) == occurrence_views(old(batch)@) + field_occurrences(
            text@,
            field,
            id,
        ),
{
    let toks = tokenize(text.as_str());
    let ghost base = occurrence_views(batch@);
    let ghost fo = field_occurrences(text@, field, id);
    let mut i: usize = 0;
    while i < toks.len()
        invariant
            i <= toks@.len(),
            views_of(toks@) == tokens(text@),
            fo == field_occurrences(text@, field, id),
            occurrence_views(batch@) == base + fo.take(i as int),
        decreases toks@.len() - i,
    {
        let ghost prev = batch@;
        let entity_type = post_type_string();
        batch.push(WordOccurrence { word: toks[i].clone(), entity_type, entity_id: id, field });
        proof {
            assert(views_of(toks@)[i as int] == toks@[i as int]@);
            assert(occurrence_views(batch@) =~= occurrence_views(prev).push(fo[i as int]));
            assert(fo.take(i as int + 1) =~= fo.take(i as int).push(fo[i as int]));
        }
        i = i + 1;
    }
    proof {
        assert(fo.take(i as int) =~= fo);
    }
}

/// The name of the first tag with identifier `id`.
fn lookup_tag(tags: &Vec<CompactTag>, id: u32) -> (r: Option<&String>)
    ensures
        r is Some <==> find_tag(tags@, id) is Some,
        r is Some ==> r->0@ == find_tag(tags@, id)->0,
{
    let mut i: usize = 0;
    proof {
        assert(tags@.skip(0) =~= tags@);
    }
    while i < tags.len()
        invariant
            i <= tags@.len(),
            find_tag(tags@, id) == find_tag(tags@.skip(i as int), id),
        decreases tags@.len() - i,
    {
        proof {
            assert(tags@.skip(i as int + 1) =~= tags@.skip(i as int).drop_first());
        }
        if tags[i].id == id {
            return Some(&tags[i].name);
        }
        i = i + 1;
    }
    None
}

/// The first poster with identifier `id`.
fn lookup_poster(posters: &Vec<CompactAccount>, id: u32) -> (r: Option<&CompactAccount>)
    ensures
        r is Some <==> find_poster(posters@, id) is Some,
        r is Some ==> r->0.account_type@ == find_poster(posters@, id)->0,
{
    let mut i: usize = 0;
    proof {
        assert(posters@.skip(0) =~= posters@);
    }
    while i < posters.len()
        invariant
            i <= posters@.len(),
            find_poster(posters@, id) == find_poster(posters@.skip(i as int), id),
        decreases posters@.len() - i,
    {
        proof {
            assert(posters@.skip(i as int + 1) =~= posters@.skip(i as int).drop_first());
        }
        if posters[i].id == id {
            return Some(&posters[i]);
        }
        i = i + 1;
    }
    None
}

/// Appends the rows of one post; fails, with `batch` in an unspecified state,
/// exactly when one of its tags or its poster cannot be found.
fn push_post(
    batch: &mut Vec<WordOccurrence>,
    post: &Post,
    tags: &Vec<CompactTag>,
    posters: &Vec<CompactAccount>,
) -> (r: Result<(), SearchError>)
    ensures
        r is Ok <==> post_resolves(*post, tags@, posters@),
        r is Ok ==> occurrence_views(final(batch)@) == occurrence_views(old(batch)@)
            + post_occurrences(*post, tags@, posters@),
{
    let id = post.id;
    let ghost base = occurrence_views(batch@);
    push_field(batch, &post.title, Field::PostTitle, id);
    push_field(batch, &post.short_description, Field::PostShortDescription, id);
    push_field(batch, &post.description, Field::PostDescription, id);
    let ghost before_tags = occurrence_views(batch@);
    let mut k: usize = 0;
    while k < post.tag_ids.len()
        invariant
            k <= post.tag_ids@.len(),
            forall|j: int| 0 <= j < k ==> find_tag(tags@, #[trigger] post.tag_ids@[j]) is Some,
            occurrence_views(batch@) == before_tags + tag_occurrences(
                post.tag_ids@.take(k as int),
                tags@,
                id,
            ),
        decreases post.tag_ids@.len() - k,
    {
        let tag_id = post.tag_ids[k];
        match lookup_tag(tags, tag_id) {
            None => {
                return Err(SearchError::InternalError);
            },
            Some(name) => {
                push_field(batch, name, Field::PostTagName, id);
                proof {
                    assert(post.tag_ids@.take(k as int + 1).drop_last() =~= post.tag_ids@.take(
                        k as int,
                    ));
                }
            },
        }
        k = k + 1;
    }
    proof {
        assert(post.tag_ids@.take(k as int) =~= post.tag_ids@);
    }
    match lookup_poster(posters, post.poster_id) {
        None => Err(SearchError::InternalError),
        Some(poster) => {
            let name = poster.account_type.display_name();
            push_field(batch, &name, Field::PostPosterDisplayName, id);
            proof {
                let p = *post;
                assert(occurrence_views(batch@) =~= base + post_occurrences(p, tags@, posters@));
            }
            Ok(())
        },
    }
}

/// An entity and its score, as a search result.
#[derive(Debug, Clone, Copy, PartialEq, Eq, Structural)]
pub struct SearchRecord {
    pub id: u32,
    pub score: u32,
}

/// The search engine: the word store and the corrector built from it.
pub struct SearchService {
    store: WordStore,
    corrector: Corrector,
}

impl SearchService {
    /// The rows of the word store.
    pub closed spec fn rows(&self) -> Seq<OccurrenceView> {
        self.store@
    }

    /// The words the corrector holds.
    pub closed spec fn corrector_words(&self) -> Set<Seq<char>> {
        self.corrector.words()
    }

    /// The store and the corrector are well formed.
    pub closed spec fn wf(&self) -> bool {
        self.store.wf() && self.corrector.wf()
    }

    /// A well-formed service holds at most `MAX_ROWS` rows.
    pub proof fn lemma_rows_bounded(&self)
        requires
            self.wf(),
        ensures
            self.rows().len() <= MAX_ROWS,
    {
        self.store.lemma_len_bounded();
    }

    /// An empty store and an empty corrector.
    pub fn new() -> (r: SearchService)
        ensures
            r.wf(),
            r.rows() == Seq::<OccurrenceView>::empty(),
            r.corrector_words() == Set::<Seq<char>>::empty(),
    {
        SearchService { store: WordStore::new(), corrector: Corrector::new() }
    }

    /// The word store.
    pub fn store(&self) -> (r: &WordStore)
        ensures
            r@ == self.rows(),
            self.wf() ==> r.wf(),
    {
        &self.store
    }

    /// The words a corrector rebuild starts from: the distinct words of the
    /// high-signal fields.
    pub fn corrector_vocabulary(&self) -> (r: Vec<String>)
        ensures
            crate::word_store::distinct_views(r@),
            views_of(r@).to_set() == vocabulary(self.rows(), high_signal_fields()),
    {
        let fields = high_signal_field_list();
        self.store.distinct_words(&fields)
    }

    /// Swaps in a corrector built elsewhere; the store is left as it is.
    pub fn install_corrector(&mut self, corrector: Corrector)
        requires
            old(self).wf(),
            corrector.wf(),
        ensures
            final(self).wf(),
            final(self).rows() == old(self).rows(),
            final(self).corrector_words() == corrector.words(),
    {
        self.corrector = corrector;
    }

    /// Rebuilds the corrector from scratch from the words of the high-signal
    /// fields, title, short description, tag name and poster name.
    pub fn refresh_bk_tree(&mut self) -> (r: Result<(), SearchError>)
        requires
            old(self).wf(),
        ensures
            final(self).wf(),
            r is Ok,
            final(self).rows() == old(self).rows(),
            final(self).corrector_words() == vocabulary(old(self).rows(), high_signal_fields()).filter(
                |w: Seq<char>| w.len() <= MAX_WORD_LEN,
            ),
    {
        let fields = high_signal_field_list();
        self.corrector.refresh(&self.store, &fields);
        Ok(())
    }

    /// Indexes a batch of posts: appends one row per token of each post's
    /// title, short description, description, tag names and poster name. All
    /// or nothing: it fails, leaving the store as it was, exactly when a tag
    /// or a poster of some post cannot be found or the store would outgrow
    /// `MAX_ROWS`. Indexing a post again appends its rows again. The corrector
    /// is not touched.
    pub fn index_posts(
        &mut self,
        posts: &Vec<Post>,
        tags: &Vec<CompactTag>,
        posters: &Vec<CompactAccount>,
    ) -> (r: Result<(), SearchError>)
        requires
            old(self).wf(),
        ensures
            final(self).wf(),
            final(self).corrector_words() == old(self).corrector_words(),
            r is Ok <==> batch_resolves(posts@, tags@, posters@) && old(self).rows().len()
                + batch_occurrences(posts@, tags@, posters@).len() <= MAX_ROWS,
            r is Ok ==> final(self).rows() == old(self).rows() + batch_occurrences(
                posts@,
                tags@,
                posters@,
            ),
            r is Err ==> final(self).rows() == old(self).rows(),
    {
        let mut batch: Vec<WordOccurrence> = Vec::new();
        let mut i: usize = 0;
        while i < posts.len()
            invariant
                i <= posts@.len(),
                *self == *old(self),
                self.wf(),
                self.rows() == old(self).rows(),
                self.corrector_words() == old(self).corrector_words(),
                batch_resolves(posts@.take(i as int), tags@, posters@),
                occurrence_views(batch@) == batch_occurrences(posts@.take(i as int), tags@, posters@),
            decreases posts@.len() - i,
        {
            let ghost prev = posts@.take(i as int);
            match push_post(&mut batch, &posts[i], tags, posters) {
                Err(e) => {
                    proof {
                        assert(!post_resolves(posts@[i as int], tags@, posters@));
                        assert(!batch_resolves(posts@, tags@, posters@));
                    }
                    return Err(e);
                },
                Ok(()) => {},
            }
            proof {
                let next = posts@.take(i as int + 1);
                assert(next.drop_last() =~= prev);
                assert forall|j: int| 0 <= j < next.len() implies post_resolves(
                    #[trigger] next[j],
                    tags@,
                    posters@,
                ) by {
                    if j < i {
                        assert(next[j] == prev[j]);
                    }
                }
            }
            i = i + 1;
        }
        proof {
            assert(posts@.take(i as int) =~= posts@);
        }
        let ghost added = batch@;
        let r = self.store.append(batch);
        r
    }

    /// The query variants of `query`: its tokens, then, for each rank up to
    /// `max_suggestions`, each token replaced by its correction of that rank.
    pub fn query_variants(&self, query: &String, max_suggestions: u8) -> (r: Vec<Vec<String>>)
        requires
            self.wf(),
        ensures
            exists|c: Seq<Seq<(u32, Seq<char>)>>|
                are_best_corrections(c, self.corrector_words(), tokens(query@), max_suggestions as nat)
                    && variant_views(r@) == query_variants(tokens(query@), c, max_suggestions as nat),
    {
        let toks = tokenize(query.as_str());
        let mut corrections: Vec<Vec<(u32, String)>> = Vec::new();
        let mut p: usize = 0;
        while p < toks.len()
            invariant
                self.wf(),
                p <= toks@.len(),
                views_of(toks@) == tokens(query@),
                corrections@.len() == p,
                forall|q: int|
                    0 <= q < p ==> if toks@[q]@.len() <= MAX_WORD_LEN {
                        is_best_corrections(
                            #[trigger] correction_views(corrections@)[q],
                            self.corrector_words(),
                            toks@[q]@,
                            max_suggestions as nat,
                        )
                    } else {
                        correction_views(corrections@)[q].len() == 0
                    },
            decreases toks@.len() - p,
        {
            let c = self.corrector.correct(&toks[p], max_suggestions as usize);
            let ghost prev = corrections@;
            corrections.push(c);
            proof {
                assert(correction_views(corrections@) =~= correction_views(prev).push(
                    candidate_views(c@),
                ));
            }
            p = p + 1;
        }
        let r = build_query_variants(&toks, &corrections, max_suggestions);
        proof {
            let cv = correction_views(corrections@);
            assert forall|q: int| 0 <= q < toks@.len() implies views_of(toks@)[q] == toks@[q]@ by {}
            assert(are_best_corrections(cv, self.corrector_words(), tokens(query@), max_suggestions as nat));
        }
        r
    }

    /// Ranks the indexed entities for `query`, with `max_suggestions`
    /// corrections per token: each variant's scores are weighed by its
    /// multiplier, summed per entity, and the entities with a positive total
    /// come in descending order of total.
    pub fn search(&self, query: &String, max_suggestions: u8) -> (r: Vec<u32>)
        requires
            self.wf(),
        ensures
            exists|c: Seq<Seq<(u32, Seq<char>)>>|
                are_best_corrections(c, self.corrector_words(), tokens(query@), max_suggestions as nat)
                    && is_ranking(
                    r@,
                    self.rows(),
                    query_variants(tokens(query@), c, max_suggestions as nat),
                ),
    {
        let variants = self.query_variants(query, max_suggestions);
        proof {
            assert(variants@.len() == variant_views(variants@).len());
        }
        rank(&self.store, &variants)
    }

    /// Ranks the indexed posts for `query` with `MAX_SUGGESTIONS` corrections
    /// per token; an empty store or a query without tokens gives an empty
    /// list, not an error.
    pub fn search_posts(&self, query: &String) -> (r: Result<Vec<u32>, SearchError>)
        requires
            self.wf(),
        ensures
            r is Ok,
            exists|c: Seq<Seq<(u32, Seq<char>)>>|
                are_best_corrections(c, self.corrector_words(), tokens(query@), MAX_SUGGESTIONS as nat)
                    && is_ranking(
                    r->Ok_0@,
                    self.rows(),
                    query_variants(tokens(query@), c, MAX_SUGGESTIONS as nat),
                ),
    {
        Ok(self.search(query, MAX_SUGGESTIONS))
    }
}


/// Indexing the same posts twice appends their rows twice: every entity's
/// score against any words grows by twice the score of the batch, and from an
/// empty store it is double that of indexing once.
pub proof fn lemma_reindex_doubles(
    rows: Seq<OccurrenceView>,
    posts: Seq<Post>,
    tags: Seq<CompactTag>,
    posters: Seq<CompactAccount>,
    words: Set<Seq<char>>,
    id: u32,
)
    ensures
        score(rows + batch_occurrences(posts, tags, posters) + batch_occurrences(posts, tags, posters), words, id)
            == score(rows, words, id) + 2 * score(batch_occurrences(posts, tags, posters), words, id),
        score(batch_occurrences(posts, tags, posters) + batch_occurrences(posts, tags, posters), words, id)
            == 2 * score(batch_occurrences(posts, tags, posters), words, id),
{
    let b = batch_occurrences(posts, tags, posters);
    lemma_score_append(rows + b, b, words, id);
    lemma_score_append(rows, b, words, id);
    lemma_score_append(b, b, words, id);
}

/// Staleness: a corrector rebuilt from the rows `snapshot` and then left as
/// indexing leaves it offers no word that the snapshot's high-signal fields
/// lacked, however many rows were appended since; the next rebuild from rows
/// holding such a word in a high-signal field offers it.
pub proof fn lemma_new_words_stale(
    snapshot: Seq<OccurrenceView>,
    refreshed: SearchService,
    indexed: SearchService,
    rebuilt: SearchService,
    w: Seq<char>,
    q: Seq<char>,
    n: nat,
    r: Seq<(u32, Seq<char>)>,
)
    requires
        refreshed.corrector_words() == vocabulary(snapshot, high_signal_fields()).filter(
            |x: Seq<char>| x.len() <= MAX_WORD_LEN,
        ),
        indexed.corrector_words() == refreshed.corrector_words(),
        rebuilt.corrector_words() == vocabulary(indexed.rows(), high_signal_fields()).filter(
            |x: Seq<char>| x.len() <= MAX_WORD_LEN,
        ),
        !vocabulary(snapshot, high_signal_fields()).contains(w),
        is_best_corrections(r, indexed.corrector_words(), q, n),
    ensures
        !indexed.corrector_words().contains(w),
        forall|i: int| 0 <= i < r.len() ==> #[trigger] r[i].1 != w,
        vocabulary(indexed.rows(), high_signal_fields()).contains(w) && w.len() <= MAX_WORD_LEN
            ==> rebuilt.corrector_words().contains(w),
{
    assert forall|i: int| 0 <= i < r.len() implies #[trigger] r[i].1 != w by {
        assert(crate::corrector::is_candidate(indexed.corrector_words(), q, r[i].1));
    }
}


/// Repeated queries: two searches whose queries have the same tokens (the
/// same query twice, say), with no write and no rebuild between them, use the
/// same corrections, hence the same variants, and return the same ids, each
/// with the same total.
pub proof fn lemma_same_tokens_same_results(
    vocab: Set<Seq<char>>,
    rows: Seq<OccurrenceView>,
    q1: Seq<char>,
    q2: Seq<char>,
    n: nat,
    c1: Seq<Seq<(u32, Seq<char>)>>,
    c2: Seq<Seq<(u32, Seq<char>)>>,
    r1: Seq<u32>,
    r2: Seq<u32>,
)
    requires
        tokens(q1) == tokens(q2),
        are_best_corrections(c1, vocab, tokens(q1), n),
        are_best_corrections(c2, vocab, tokens(q2), n),
        is_ranking(r1, rows, query_variants(tokens(q1), c1, n)),
        is_ranking(r2, rows, query_variants(tokens(q2), c2, n)),
    ensures
        c1 == c2,
        query_variants(tokens(q1), c1, n) == query_variants(tokens(q2), c2, n),
        r1.len() == r2.len(),
        forall|id: u32| r1.contains(id) == r2.contains(id),
{
    let toks = tokens(q1);
    assert forall|p: int| 0 <= p < toks.len() implies #[trigger] c1[p] == c2[p] by {
        if toks[p].len() <= MAX_WORD_LEN {
            crate::corrector::lemma_best_corrections_unique(c1[p], c2[p], vocab, toks[p], n);
        } else {
            assert(c1[p] =~= c2[p]);
        }
    }
    assert(c1 =~= c2);
    r1.unique_seq_to_set();
    r2.unique_seq_to_set();
    assert(r1.to_set() =~= r2.to_set());
}


/// Weighted ranking, end to end: when the store holds one title occurrence of
/// the query's only token for `a` and one long-description occurrence of it
/// for `b`, the search returns `a` then `b`, whatever the corrections.
pub proof fn lemma_title_outranks_description(
    w: Seq<char>,
    a: u32,
    b: u32,
    q: Seq<char>,
    c: Seq<Seq<(u32, Seq<char>)>>,
    n: nat,
    r: Seq<u32>,
)
    requires
        a != b,
        tokens(q) == seq![w],
        is_ranking(
            r,
            seq![
                OccurrenceView { word: w, entity_type: post_type(), entity_id: a, field: Field::PostTitle },
                OccurrenceView { word: w, entity_type: post_type(), entity_id: b, field: Field::PostDescription },
            ],
            query_variants(tokens(q), c, n),
        ),
    ensures
        r == seq![a, b],
{
    let rows = seq![
        OccurrenceView { word: w, entity_type: post_type(), entity_id: a, field: Field::PostTitle },
        OccurrenceView { word: w, entity_type: post_type(), entity_id: b, field: Field::PostDescription },
    ];
    let vs = query_variants(tokens(q), c, n);
    assert(rows.drop_last() =~= seq![rows[0]]);
    assert(seq![rows[0]].drop_last() =~= Seq::<OccurrenceView>::empty());
    assert forall|k: int, id: u32| 0 <= k < vs.len() implies #[trigger] score(rows, vs[k].to_set(), id) == if vs[k].to_set().contains(w) {
        if id == a { 100nat } else if id == b { 1nat } else { 0nat }
    } else {
        0nat
    } by {
        let one = seq![rows[0]];
        assert(one.drop_last() =~= Seq::<OccurrenceView>::empty());
        assert(one.last() == rows[0]);
        assert(score(Seq::<OccurrenceView>::empty(), vs[k].to_set(), id) == 0);
        assert(score(one, vs[k].to_set(), id) == row_score(rows[0], vs[k].to_set(), id));
        assert(rows.last() == rows[1]);
        assert(score(rows, vs[k].to_set(), id) == score(one, vs[k].to_set(), id) + row_score(
            rows[1],
            vs[k].to_set(),
            id,
        ));
    }
    assert(vs[0] =~= seq![w]);
    assert(vs[0].to_set().contains(w)) by {
        assert(vs[0][0] == w);
    }
    let z: u32 = if a != 0 && b != 0 { 0 } else if a != 1 && b != 1 { 1 } else { 2 };
    assert forall|k: int| 0 <= k < vs.len() implies score(rows, #[trigger] vs[k].to_set(), b) >= score(rows, vs[k].to_set(), z) by {
        assert(score(rows, vs[k].to_set(), b) == if vs[k].to_set().contains(w) { 1nat } else { 0nat });
        assert(score(rows, vs[k].to_set(), z) == 0);
    }
    assert(score(rows, vs[0].to_set(), b) > score(rows, vs[0].to_set(), z));
    crate::ranking::lemma_total_dominates(rows, vs, b, z, vs.len() as int);
    assert(r.contains(b));
    assert forall|k: int| 0 <= k < vs.len() implies score(rows, #[trigger] vs[k].to_set(), a) >= score(rows, vs[k].to_set(), b) by {
        assert(score(rows, vs[k].to_set(), a) == if vs[k].to_set().contains(w) { 100nat } else { 0nat });
        assert(score(rows, vs[k].to_set(), b) == if vs[k].to_set().contains(w) { 1nat } else { 0nat });
    }
    crate::ranking::lemma_higher_scores_rank_first(r, rows, vs, a, b, 0);
    assert forall|id: u32| id != a && id != b implies !r.contains(id) by {
        assert forall|k: int| 0 <= k < vs.len() implies score(rows, #[trigger] vs[k].to_set(), id) == if k == 0 {
            0nat
        } else {
            0nat
        } by {
            assert(score(rows, vs[k].to_set(), id) == 0);
        }
        crate::ranking::lemma_total_single(rows, vs, id, 0, 0, vs.len() as int);
    }
    assert(r.to_set() =~= set![a, b]);
    r.unique_seq_to_set();
    assert(set![a, b].len() == 2) by {
        assert(set![a, b] =~= set![a].insert(b));
    }
    let ia = choose|i: int| 0 <= i < r.len() && r[i] == a;
    let ib = choose|i: int| 0 <= i < r.len() && r[i] == b;
    assert(ia < ib);
    assert(r =~= seq![a, b]);
}


/// Typo tolerance, end to end: when the query's only token has no row of its
/// own but its nearest corrector word `w` (all other candidates farther) has
/// a row for `p`, the search returns `p`.
pub proof fn lemma_typo_finds_nearest_word(
    rows: Seq<OccurrenceView>,
    vocab: Set<Seq<char>>,
    q: Seq<char>,
    qw: Seq<char>,
    w: Seq<char>,
    p: u32,
    j: int,
    c: Seq<Seq<(u32, Seq<char>)>>,
    n: nat,
    r: Seq<u32>,
)
    requires
        tokens(q) == seq![qw],
        n >= 1,
        qw.len() <= MAX_WORD_LEN,
        crate::corrector::is_candidate(vocab, qw, w),
        forall|v: Seq<char>|
            crate::corrector::is_candidate(vocab, qw, v) && v != w ==> crate::corrector::edit_distance(qw, v)
                > crate::corrector::edit_distance(qw, w),
        0 <= j < rows.len(),
        rows[j].entity_id == p,
        rows[j].word == w,
        are_best_corrections(c, vocab, tokens(q), n),
        is_ranking(r, rows, query_variants(tokens(q), c, n)),
    ensures
        r.contains(p),
{
    let toks = tokens(q);
    assert(toks[0] == qw);
    let c0 = c[0];
    assert(is_best_corrections(c0, vocab, qw, n));
    if !word_listed(w, c0) {
        assert(!(exists|i: int| 0 <= i < c0.len() && #[trigger] c0[i].1 == w));
        assert(c0.len() == n);
        let first = c0[0];
        assert(crate::corrector::entry_lt(first, (crate::corrector::edit_distance(qw, w) as u32, w)));
        assert(crate::corrector::is_candidate(vocab, qw, first.1));
        assert(first.1 != w);
    }
    let i = choose|i: int| 0 <= i < c0.len() && c0[i].1 == w;
    let vs = query_variants(toks, c, n);
    let k = i + 1;
    assert(vs[k] =~= seq![w]) by {
        assert(vs[k][0] == variant_word(toks, c, k, 0));
    }
    assert(vs[k].to_set().contains(w)) by {
        assert(vs[k][0] == w);
    }
    crate::word_store::lemma_score_positive(rows, vs[k].to_set(), p, j);
    crate::ranking::lemma_total_at_least(rows, vs, p, k, vs.len() as int);
    let s = score(rows, vs[k].to_set(), p);
    let m = crate::ranking::multiplier(vs.len() as int, k);
    assert(m * s > 0) by (nonlinear_arith)
        requires
            m >= 1,
            s > 0,
    ;
}


/// Variant decay, end to end: when the query's only token has no rows and
/// exactly two candidates, `near` closer than `far`, an entity matched only
/// through `near` outranks one matched only through `far` with the same
/// score.
pub proof fn lemma_nearer_correction_ranks_first(
    rows: Seq<OccurrenceView>,
    vocab: Set<Seq<char>>,
    q: Seq<char>,
    qw: Seq<char>,
    near: Seq<char>,
    far: Seq<char>,
    a: u32,
    b: u32,
    c: Seq<Seq<(u32, Seq<char>)>>,
    n: nat,
    r: Seq<u32>,
)
    requires
        tokens(q) == seq![qw],
        n >= 2,
        qw.len() <= MAX_WORD_LEN,
        forall|v: Seq<char>| crate::corrector::is_candidate(vocab, qw, v) <==> v == near || v == far,
        near != far,
        crate::corrector::edit_distance(qw, near) < crate::corrector::edit_distance(qw, far),
        score(rows, seq![near].to_set(), a) == score(rows, seq![far].to_set(), b),
        score(rows, seq![near].to_set(), a) > 0,
        score(rows, seq![far].to_set(), a) == 0,
        score(rows, seq![qw].to_set(), a) == 0,
        score(rows, seq![near].to_set(), b) == 0,
        score(rows, seq![qw].to_set(), b) == 0,
        are_best_corrections(c, vocab, tokens(q), n),
        is_ranking(r, rows, query_variants(tokens(q), c, n)),
    ensures
        r.contains(a),
        r.contains(b),
        forall|i: int, j: int| 0 <= i < r.len() && 0 <= j < r.len() && r[i] == a && r[j] == b ==> i < j,
{
    let toks = tokens(q);
    assert(toks[0] == qw);
    let c0 = c[0];
    assert(is_best_corrections(c0, vocab, qw, n));
    assert(crate::corrector::is_candidate(vocab, qw, near));
    assert(crate::corrector::is_candidate(vocab, qw, far));
    assert forall|i: int| 0 <= i < c0.len() implies #[trigger] c0[i].1 == near || c0[i].1 == far by {
        assert(crate::corrector::is_candidate(vocab, qw, c0[i].1));
    }
    if c0.len() >= 3 {
        assert(c0[0].1 != c0[1].1 && c0[0].1 != c0[2].1 && c0[1].1 != c0[2].1);
    }
    if !word_listed(near, c0) {
        assert(!(exists|i: int| 0 <= i < c0.len() && #[trigger] c0[i].1 == near));
        assert(c0.len() == n);
        assert(c0[0].1 != c0[1].1);
        assert(c0[0].1 == far && c0[1].1 == far);
    }
    if !word_listed(far, c0) {
        assert(!(exists|i: int| 0 <= i < c0.len() && #[trigger] c0[i].1 == far));
        assert(c0.len() == n);
        assert(c0[0].1 != c0[1].1);
        assert(c0[0].1 == near && c0[1].1 == near);
    }
    let i1 = choose|i: int| 0 <= i < c0.len() && c0[i].1 == near;
    let i2 = choose|i: int| 0 <= i < c0.len() && c0[i].1 == far;
    assert(c0.len() == 2);
    if i2 < i1 {
        assert(crate::corrector::entry_lt(c0[i2], c0[i1]));
        assert(c0[i1].0 == crate::corrector::edit_distance(qw, near));
        assert(c0[i2].0 == crate::corrector::edit_distance(qw, far));
    }
    assert(i1 == 0 && i2 == 1);
    let vs = query_variants(toks, c, n);
    assert forall|k: int| 0 <= k < vs.len() implies #[trigger] vs[k] == if k == 1 {
        seq![near]
    } else if k == 2 {
        seq![far]
    } else {
        seq![qw]
    } by {
        assert(vs[k][0] == variant_word(toks, c, k, 0));
        assert(vs[k] =~= seq![vs[k][0]]);
    }
    let s = score(rows, seq![near].to_set(), a);
    assert forall|k: int| 0 <= k < vs.len() implies score(rows, #[trigger] vs[k].to_set(), a) == if k == 1 {
        s
    } else {
        0
    } by {}
    assert forall|k: int| 0 <= k < vs.len() implies score(rows, #[trigger] vs[k].to_set(), b) == if k == 2 {
        s
    } else {
        0
    } by {}
    crate::ranking::lemma_variant_decay(rows, vs, a, b, 1, 2, s);
    crate::ranking::lemma_total_single(rows, vs, b, 2, s, vs.len() as int);
    assert((vs.len() - 2) * s > 0) by (nonlinear_arith)
        requires
            vs.len() >= 3,
            s > 0,
    ;
    assert forall|i: int, j: int| 0 <= i < r.len() && 0 <= j < r.len() && r[i] == a && r[j] == b implies i < j by {
        if j <= i {
            if j < i {
                assert(crate::ranking::total_score(rows, vs, r[j]) >= crate::ranking::total_score(rows, vs, r[i]));
            }
        }
    }
}

} // verus!
