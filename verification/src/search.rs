//! Fuzzy search index for the picker. Scoring and highlight positions come
//! from `nucleo-matcher`; the searchable text of each prompt, the
//! rebuild-on-new-generation rule, the order of the hits and the limit are
//! this module's.

use crate::picker::{SearchHit, SearchHitView, hit_views};
use crate::prompt::Prompt;
use crate::text::{chars_of, push_str, string_of};
use nucleo_matcher::pattern::{CaseMatching, Normalization, Pattern};
use nucleo_matcher::{Config, Matcher, Utf32Str};
use vstd::prelude::*;

verus! {

#[verifier::external_type_specification]
#[verifier::external_body]
pub struct ExMatcher(nucleo_matcher::Matcher);

#[verifier::external_type_specification]
#[verifier::external_body]
pub struct ExPattern(nucleo_matcher::pattern::Pattern);

/// What `Pattern::parse(query, Smart, Smart).indices(haystack, ..)` gives
/// with a matcher built from `Config::DEFAULT`: the score and the matched
/// positions, or `None` when the haystack does not match.
pub uninterp spec fn fuzzy_indices_of(query: Seq<char>, haystack: Seq<char>) -> Option<
    (u32, Seq<u32>),
>;

/// A parsed query, remembering the text it was parsed from.
pub struct FuzzyPattern {
    pat: Pattern,
    source: Ghost<Seq<char>>,
}

impl FuzzyPattern {
    pub closed spec fn source(&self) -> Seq<char> {
        self.source@
    }
}

/// Calls `Pattern::parse` with smart case matching and smart normalization.
#[verifier::external_body]
fn fuzzy_pattern(query: &str) -> (r: FuzzyPattern)
    ensures
        r.source() == query@,
{
    FuzzyPattern {
        pat: Pattern::parse(query, CaseMatching::Smart, Normalization::Smart),
        source: Ghost(query@),
    }
}

/// Calls `Matcher::new(Config::DEFAULT)`.
#[verifier::external_body]
fn default_matcher() -> (r: Matcher) {
    Matcher::new(Config::DEFAULT)
}

/// Calls `Pattern::indices` on `haystack` with fresh index and grapheme
/// buffers; the score and indices are kept only on a match.
#[verifier::external_body]
fn fuzzy_indices(matcher: &mut Matcher, pattern: &FuzzyPattern, haystack: &str) -> (r: Option<
    (u32, Vec<u32>),
>)
    ensures
        match r {
            Some((s, idx)) => fuzzy_indices_of(pattern.source(), haystack@) == Some((s, idx@)),
            None => fuzzy_indices_of(pattern.source(), haystack@) is None,
        },
{
    let mut indices: Vec<u32> = Vec::new();
    let mut buf: Vec<char> = Vec::new();
    let utf32 = Utf32Str::new(haystack, &mut buf);
    pattern.pat.indices(utf32, matcher, &mut indices).map(|score| (score, indices))
}

/// Items each followed by a space.
pub open spec fn spaced(items: Seq<String>) -> Seq<char>
    decreases items.len(),
{
    if items.len() == 0 {
        Seq::empty()
    } else {
        spaced(items.drop_last()) + items.last()@.push(' ')
    }
}

/// The searchable surface of a prompt: name, description, every trigger and
/// every tag, each followed by a space, then the first 120 chars of the body.
pub open spec fn haystack_of(p: Prompt) -> Seq<char> {
    let body = p.body@;
    p.name@.push(' ') + p.description@.push(' ') + spaced(p.triggers@) + spaced(p.tags@)
        + body.take(if body.len() < 120 { body.len() as int } else { 120 })
}

fn push_spaced(out: &mut Vec<char>, items: &Vec<String>)
    ensures
        final(out)@ == old(out)@ + spaced(items@),
{
    let ghost start = out@;
    let mut i: usize = 0;
    while i < items.len()
        invariant
            i <= items@.len(),
            out@ == start + spaced(items@.take(i as int)),
        decreases items@.len() - i,
    {
        assert(items@.take(i + 1).drop_last() =~= items@.take(i as int));
        assert(items@.take(i + 1).last() == items@[i as int]);
        push_str(out, items[i].as_str());
        out.push(' ');
        i = i + 1;
        assert(out@ =~= start + spaced(items@.take(i as int)));
    }
    assert(items@.take(i as int) =~= items@);
}

/// The searchable text of one prompt.
pub fn haystack(p: &Prompt) -> (r: String)
    ensures
        r@ == haystack_of(*p),
{
    let mut h: Vec<char> = Vec::new();
    push_str(&mut h, p.name.as_str());
    h.push(' ');
    push_str(&mut h, p.description.as_str());
    h.push(' ');
    push_spaced(&mut h, &p.triggers);
    push_spaced(&mut h, &p.tags);
    let body = chars_of(p.body.as_str());
    let n = if body.len() < 120 {
        body.len()
    } else {
        120
    };
    let ghost before = h@;
    let mut k: usize = 0;
    while k < n
        invariant
            k <= n <= body@.len(),
            h@ == before + body@.take(k as int),
        decreases n - k,
    {
        h.push(body[k]);
        k = k + 1;
        assert(h@ =~= before + body@.take(k as int));
    }
    assert(h@ =~= haystack_of(*p));
    string_of(&h)
}

/// `sorted`, which is ordered by descending score, with `x` placed after
/// every hit that scores at least as high: the step of a stable sort.
pub open spec fn insert_by_score(sorted: Seq<SearchHitView>, x: SearchHitView) -> Seq<
    SearchHitView,
> {
    let k = first_lower(sorted, x.score);
    sorted.take(k).push(x) + sorted.skip(k)
}

/// Position of the first hit scoring below `score`, or the length.
pub open spec fn first_lower(s: Seq<SearchHitView>, score: u32) -> int
    decreases s.len(),
{
    if s.len() == 0 {
        0
    } else if s[0].score < score {
        0
    } else {
        1 + first_lower(s.drop_first(), score)
    }
}

/// Hits ordered by descending score; hits that tie keep their order.
pub open spec fn by_score_desc(s: Seq<SearchHitView>) -> Seq<SearchHitView>
    decreases s.len(),
{
    if s.len() == 0 {
        s
    } else {
        insert_by_score(by_score_desc(s.drop_last()), s.last())
    }
}

proof fn lemma_first_lower(s: Seq<SearchHitView>, score: u32)
    ensures
        0 <= first_lower(s, score) <= s.len(),
        forall|j: int| 0 <= j < first_lower(s, score) ==> s[j].score >= score,
        first_lower(s, score) < s.len() ==> s[first_lower(s, score)].score < score,
    decreases s.len(),
{
    if s.len() > 0 && s[0].score >= score {
        lemma_first_lower(s.drop_first(), score);
        assert forall|j: int| 0 < j < first_lower(s, score) implies s[j].score >= score by {
            assert(s[j] == s.drop_first()[j - 1]);
        }
    }
}


/// Scores never increase along `s`.
pub open spec fn score_desc(s: Seq<SearchHitView>) -> bool {
    forall|i: int, j: int| 0 <= i < j < s.len() ==> s[i].score >= s[j].score
}

proof fn lemma_insert_keeps_order(sorted: Seq<SearchHitView>, x: SearchHitView)
    requires
        score_desc(sorted),
    ensures
        score_desc(insert_by_score(sorted, x)),
        insert_by_score(sorted, x).len() == sorted.len() + 1,
{
    lemma_first_lower(sorted, x.score);
    let k = first_lower(sorted, x.score);
    let r = insert_by_score(sorted, x);
    assert(r.len() == sorted.len() + 1);
    assert forall|i: int, j: int| 0 <= i < j < r.len() implies r[i].score >= r[j].score by {
        if j < k {
            assert(r[i] == sorted[i] && r[j] == sorted[j]);
        } else if j == k {
            assert(r[i] == sorted[i]);
        } else if i < k {
            assert(r[i] == sorted[i] && r[j] == sorted[j - 1]);
            if j - 1 >= k {
                assert(sorted[k].score < x.score);
            }
        } else if i == k {
            assert(r[j] == sorted[j - 1]);
            assert(sorted[k].score < x.score);
            if j - 1 > k {
                assert(sorted[k].score >= sorted[j - 1].score);
            }
        } else {
            assert(r[i] == sorted[i - 1] && r[j] == sorted[j - 1]);
        }
    }
}

/// The hit order of a query is by descending score, and no hit is lost or
/// added by it.
pub proof fn lemma_by_score_desc_sorted(s: Seq<SearchHitView>)
    ensures
        score_desc(by_score_desc(s)),
        by_score_desc(s).len() == s.len(),
    decreases s.len(),
{
    if s.len() > 0 {
        lemma_by_score_desc_sorted(s.drop_last());
        lemma_insert_keeps_order(by_score_desc(s.drop_last()), s.last());
    }
}

/// Hits in `hay` order that match `query`.
pub open spec fn matching_hits(hay: Seq<(Seq<char>, Seq<char>)>, query: Seq<char>) -> Seq<
    SearchHitView,
>
    decreases hay.len(),
{
    if hay.len() == 0 {
        Seq::empty()
    } else {
        let prev = matching_hits(hay.drop_last(), query);
        match fuzzy_indices_of(query, hay.last().1) {
            Some((score, idx)) => prev.push(
                SearchHitView { prompt_id: hay.last().0, score, highlights: idx },
            ),
            None => prev,
        }
    }
}

/// The first `n` of `s`.
pub open spec fn first_n<A>(s: Seq<A>, n: nat) -> Seq<A> {
    if n < s.len() {
        s.take(n as int)
    } else {
        s
    }
}

pub struct SearchIndex {
    matcher: Matcher,
    /// `(prompt id, haystack)` in library order; rebuilt on reload.
    haystacks: Vec<(String, String)>,
    /// Library generation the index was last built from.
    last_built_generation: u64,
}

pub open spec fn pair_views(v: Seq<(String, String)>) -> Seq<(Seq<char>, Seq<char>)> {
    v.map_values(|p: (String, String)| (p.0@, p.1@))
}

impl SearchIndex {
    /// `(prompt id, haystack)` pairs, in library order.
    pub closed spec fn entries(&self) -> Seq<(Seq<char>, Seq<char>)> {
        pair_views(self.haystacks@)
    }

    pub closed spec fn generation(&self) -> u64 {
        self.last_built_generation
    }

    pub fn new() -> (r: Self)
        ensures
            r.entries() == Seq::<(Seq<char>, Seq<char>)>::empty(),
            r.generation() == 0,
    {
        let r = SearchIndex {
            matcher: default_matcher(),
            haystacks: Vec::new(),
            last_built_generation: 0,
        };
        assert(pair_views(r.haystacks@) =~= Seq::<(Seq<char>, Seq<char>)>::empty());
        r
    }

    /// Rebuild from `prompts`: one `(id, haystack)` per prompt, in order.
    pub fn rebuild(&mut self, prompts: &[Prompt])
        ensures
            final(self).entries() == prompts@.map_values(|p: Prompt| (p.id@, haystack_of(p))),
            final(self).generation() == old(self).generation(),
    {
        let mut hs: Vec<(String, String)> = Vec::new();
        let mut i: usize = 0;
        while i < prompts.len()
            invariant
                i <= prompts@.len(),
                pair_views(hs@) == prompts@.take(i as int).map_values(
                    |p: Prompt| (p.id@, haystack_of(p)),
                ),
            decreases prompts@.len() - i,
        {
            let ghost before = pair_views(hs@);
            hs.push((prompts[i].id.clone(), haystack(&prompts[i])));
            assert(pair_views(hs@) =~= before.push((prompts@[i as int].id@, haystack_of(prompts@[i as int]))));
            assert(prompts@.take(i + 1).map_values(|p: Prompt| (p.id@, haystack_of(p))) =~= prompts@.take(
                i as int,
            ).map_values(|p: Prompt| (p.id@, haystack_of(p))).push(
                (prompts@[i as int].id@, haystack_of(prompts@[i as int])),
            ));
            i = i + 1;
        }
        assert(prompts@.take(i as int) =~= prompts@);
        self.haystacks = hs;
    }

    /// Rebuild only when the generation changed. Generation 0 always
    /// rebuilds, so the first build needs no bookkeeping.
    pub fn rebuild_if_stale(&mut self, current_generation: u64, prompts: &[Prompt])
        ensures
            if current_generation != 0 && current_generation == old(self).generation() {
                final(self).entries() == old(self).entries()
            } else {
                final(self).entries() == prompts@.map_values(|p: Prompt| (p.id@, haystack_of(p)))
            },
            final(self).generation() == if current_generation != 0 && current_generation == old(
                self,
            ).generation() {
                old(self).generation()
            } else {
                current_generation
            },
    {
        if current_generation != 0 && current_generation == self.last_built_generation {
            return;
        }
        self.rebuild(prompts);
        self.last_built_generation = current_generation;
    }

    /// Hits for `q`, at most `limit`. An empty query lists the prompts in
    /// library order with no score or highlights; otherwise the matching
    /// prompts come by descending score, ties in library order.
    pub fn query(&mut self, q: &str, limit: usize) -> (r: Vec<SearchHit>)
        ensures
            final(self).entries() == old(self).entries(),
            final(self).generation() == old(self).generation(),
            q@.len() == 0 ==> hit_views(r@) == first_n(
                old(self).entries().map_values(
                    |e: (Seq<char>, Seq<char>)|
                        SearchHitView { prompt_id: e.0, score: 0, highlights: Seq::empty() },
                ),
                limit as nat,
            ),
            q@.len() > 0 ==> hit_views(r@) == first_n(
                by_score_desc(matching_hits(old(self).entries(), q@)),
                limit as nat,
            ),
    {
        let ghost entries = pair_views(self.haystacks@);
        if q.is_empty() {
            let ghost all = entries.map_values(
                |e: (Seq<char>, Seq<char>)|
                    SearchHitView { prompt_id: e.0, score: 0, highlights: Seq::empty() },
            );
            let n = if self.haystacks.len() < limit {
                self.haystacks.len()
            } else {
                limit
            };
            let mut out: Vec<SearchHit> = Vec::new();
            let mut i: usize = 0;
            while i < n
                invariant
                    i <= n <= self.haystacks@.len(),
                    entries == pair_views(self.haystacks@),
                    all == entries.map_values(
                        |e: (Seq<char>, Seq<char>)|
                            SearchHitView { prompt_id: e.0, score: 0, highlights: Seq::empty() },
                    ),
                    hit_views(out@) == all.take(i as int),
                decreases n - i,
            {
                let ghost before = hit_views(out@);
                out.push(
                    SearchHit {
                        prompt_id: self.haystacks[i].0.clone(),
                        score: 0,
                        highlights: Vec::new(),
                    },
                );
                assert(hit_views(out@) =~= before.push(all[i as int]));
                assert(all.take(i + 1) =~= all.take(i as int).push(all[i as int]));
                i = i + 1;
            }
            assert(all.take(i as int) =~= first_n(all, limit as nat));
            return out;
        }
        let pattern = fuzzy_pattern(q);
        let mut sorted: Vec<SearchHit> = Vec::new();
        let mut i: usize = 0;
        while i < self.haystacks.len()
            invariant
                i <= self.haystacks@.len(),
                entries == pair_views(self.haystacks@),
                entries == old(self).entries(),
                self.last_built_generation == old(self).generation(),
                pattern.source() == q@,
                hit_views(sorted@) == by_score_desc(matching_hits(entries.take(i as int), q@)),
            decreases self.haystacks@.len() - i,
        {
            let ghost prefix = entries.take(i + 1);
            assert(prefix.drop_last() =~= entries.take(i as int));
            assert(prefix.last() == (self.haystacks@[i as int].0@, self.haystacks@[i as int].1@));
            match fuzzy_indices(&mut self.matcher, &pattern, self.haystacks[i].1.as_str()) {
                Some((score, idx)) => {
                    let hit = SearchHit {
                        prompt_id: self.haystacks[i].0.clone(),
                        score,
                        highlights: idx,
                    };
                    let ghost hv = hit@;
                    let ghost before = hit_views(sorted@);
                    proof {
                        lemma_first_lower(before, score);
                    }
                    let mut k: usize = 0;
                    while k < sorted.len() && sorted[k].score >= score
                        invariant
                            k <= sorted@.len(),
                            hit_views(sorted@) == before,
                            forall|j: int| 0 <= j < k ==> before[j].score >= score,
                            0 <= first_lower(before, score) <= before.len(),
                            forall|j: int| 0 <= j < first_lower(before, score) ==> before[j].score >= score,
                            first_lower(before, score) < before.len() ==> before[first_lower(
                                before,
                                score,
                            )].score < score,
                        decreases sorted@.len() - k,
                    {
                        k = k + 1;
                    }
                    assert(k == first_lower(before, score)) by {
                        if k < first_lower(before, score) {
                            assert(before[k as int].score >= score);
                        }
                        if k > first_lower(before, score) {
                            assert(before[first_lower(before, score)].score >= score);
                        }
                    }
                    sorted.insert(k, hit);
                    assert(hit_views(sorted@) =~= insert_by_score(before, hv));
                    proof {
                        let prev = matching_hits(entries.take(i as int), q@);
                        assert(matching_hits(prefix, q@) == prev.push(hv));
                        assert(prev.push(hv).drop_last() =~= prev);
                    }
                },
                None => {
                    assert(matching_hits(prefix, q@) == matching_hits(entries.take(i as int), q@));
                },
            }
            i = i + 1;
        }
        assert(entries.take(i as int) =~= entries);
        sorted.truncate(limit);
        proof {
            let full = by_score_desc(matching_hits(entries, q@));
            if (limit as nat) < full.len() {
                assert(hit_views(sorted@) =~= full.take(limit as int));
            }
        }
        sorted
    }
}

} // verus!
