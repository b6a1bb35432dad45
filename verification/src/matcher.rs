//! Trigger matcher.
//!
//! - A trigger word is a contiguous run of non-whitespace chars immediately
//!   before the commit char.
//! - Matching is case-insensitive; the typed form is kept so the body can be
//!   rendered in the case the user typed (`propagate_case`).
//! - Multi-word triggers match greedily, longest first. A pause of more than
//!   two seconds between words breaks a multi-word match.
//! - A prompt may have several aliases; several prompts may share a trigger.
//! - No match: the commit char passes through.
//!
//! Times are milliseconds on a monotonic clock chosen by the caller.

use crate::text::{str_eq, spec_is_whitespace, is_whitespace, lowercase_of, to_lowercase, string_of, alphabetic, uppercase, lowercase, uppercase_of, char_uppercase_of, is_alphabetic, is_uppercase, is_lowercase, to_uppercase, char_to_uppercase};
use std::collections::VecDeque;
use vstd::prelude::*;

verus! {

/// Maximum trigger word count searched backward for.
pub const MAX_TRIGGER_WORDS: usize = 6;

/// A multi-word match resets if the user pauses longer than this between words.
pub const MULTI_WORD_RESET_MS: u64 = 2000;

/// Maximum age of the first char of a candidate trigger word. Anything older
/// is stale context (e.g. residue typed into another app).
pub const TRIGGER_FRESHNESS_MS: u64 = 2000;

/// Maximum age of the last char of a candidate trigger.
pub const LAST_CHAR_MAX_AGE_MS: u64 = 10000;

/// Capacity of the keystroke ring buffer.
pub const RING_CAPACITY: usize = 256;

/// Milliseconds from `earlier` to `later`, zero when `later` is not after it.
pub open spec fn elapsed(later: u64, earlier: u64) -> u64 {
    if later >= earlier {
        (later - earlier) as u64
    } else {
        0
    }
}

pub fn elapsed_ms(later: u64, earlier: u64) -> (r: u64)
    ensures
        r == elapsed(later, earlier),
{
    if later >= earlier {
        later - earlier
    } else {
        0
    }
}

/// One entry in the keystroke ring.
#[derive(Debug, Clone, Copy)]
pub struct KeyEntry {
    pub ch: char,
    pub at: u64,
}

/// The most recent keystrokes, oldest first, at most `RING_CAPACITY` of them.
#[derive(Debug)]
pub struct RingBuffer {
    entries: VecDeque<KeyEntry>,
}

impl View for RingBuffer {
    type V = Seq<KeyEntry>;

    closed spec fn view(&self) -> Seq<KeyEntry> {
        self.entries@
    }
}

impl Default for RingBuffer {
    fn default() -> (r: Self)
        ensures
            r@ == Seq::<KeyEntry>::empty(),
    {
        RingBuffer { entries: VecDeque::new() }
    }
}

/// The ring after `push`: full rings drop their oldest entry first.
pub open spec fn ring_after_push(old: Seq<KeyEntry>, e: KeyEntry) -> Seq<KeyEntry> {
    if old.len() == RING_CAPACITY {
        old.drop_first().push(e)
    } else {
        old.push(e)
    }
}

impl RingBuffer {
    pub fn new() -> (r: Self)
        ensures
            r@ == Seq::<KeyEntry>::empty(),
    {
        RingBuffer { entries: VecDeque::new() }
    }

    /// The ring holds no more than its capacity.
    pub open spec fn wf(&self) -> bool {
        self@.len() <= RING_CAPACITY
    }

    pub fn push(&mut self, ch: char, at: u64)
        ensures
            final(self)@ == ring_after_push(old(self)@, KeyEntry { ch, at }),
            old(self).wf() ==> final(self).wf(),
    {
        if self.entries.len() == RING_CAPACITY {
            self.entries.pop_front();
        }
        self.entries.push_back(KeyEntry { ch, at });
    }

    /// Drop the last `n` entries (all of them when there are fewer).
    pub fn pop_last(&mut self, n: usize)
        ensures
            final(self)@ == old(self)@.take(
                if n >= old(self)@.len() {
                    0
                } else {
                    old(self)@.len() - n
                },
            ),
    {
        let mut k: usize = 0;
        while k < n
            invariant
                k <= n,
                self@ == old(self)@.take(
                    if k >= old(self)@.len() {
                        0
                    } else {
                        old(self)@.len() - k
                    },
                ),
            decreases n - k,
        {
            self.entries.pop_back();
            k = k + 1;
        }
    }

    pub fn clear(&mut self)
        ensures
            final(self)@ == Seq::<KeyEntry>::empty(),
    {
        self.entries = VecDeque::new();
    }

    pub fn len(&self) -> (r: usize)
        ensures
            r == self@.len(),
    {
        self.entries.len()
    }

    pub fn is_empty(&self) -> (r: bool)
        ensures
            r == (self@.len() == 0),
    {
        self.entries.len() == 0
    }

    /// The entries, oldest first.
    pub fn iter(&self) -> (r: Vec<KeyEntry>)
        ensures
            r@ == self@,
    {
        let mut out: Vec<KeyEntry> = Vec::new();
        let mut i: usize = 0;
        while i < self.entries.len()
            invariant
                i <= self@.len(),
                out@ == self@.take(i as int),
            decreases self@.len() - i,
        {
            out.push(self.entries[i]);
            i = i + 1;
            assert(out@ =~= self@.take(i as int));
        }
        assert(self@.take(i as int) =~= self@);
        out
    }

    /// The most recent entry's char.
    pub fn last_char(&self) -> (r: Option<char>)
        ensures
            r == (if self@.len() == 0 {
                None::<char>
            } else {
                Some(self@.last().ch)
            }),
    {
        let n = self.entries.len();
        if n == 0 {
            None
        } else {
            Some(self.entries[n - 1].ch)
        }
    }
}

/// Identifier of a prompt.
pub type PromptId = String;

/// A registered trigger (canonical lowercase) and the prompt it points to.
#[derive(Debug, Clone)]
pub struct TriggerEntry {
    pub canonical: String,
    pub prompt_id: PromptId,
    pub word_count: usize,
    pub commit_char: char,
}

pub struct TriggerView {
    pub canonical: Seq<char>,
    pub prompt_id: Seq<char>,
    pub word_count: usize,
    pub commit_char: char,
}

impl View for TriggerEntry {
    type V = TriggerView;

    open spec fn view(&self) -> TriggerView {
        TriggerView {
            canonical: self.canonical@,
            prompt_id: self.prompt_id@,
            word_count: self.word_count,
            commit_char: self.commit_char,
        }
    }
}

impl TriggerEntry {
    /// A field-by-field copy.
    pub fn duplicate(&self) -> (r: Self)
        ensures
            r@ == self@,
    {
        TriggerEntry {
            canonical: self.canonical.clone(),
            prompt_id: self.prompt_id.clone(),
            word_count: self.word_count,
            commit_char: self.commit_char,
        }
    }
}

/// Index of triggers: every registration in one list, in insertion order.
/// A lookup filters it by trigger and commit char, so the entries for one
/// trigger come back in the order they were registered, and `insert` keeps
/// any registration from occurring twice.
#[derive(Debug)]
pub struct MatchIndex {
    entries: Vec<TriggerEntry>,
}

impl View for MatchIndex {
    type V = Seq<TriggerView>;

    closed spec fn view(&self) -> Seq<TriggerView> {
        self.entries@.map_values(|t: TriggerEntry| t@)
    }
}

/// Two entries are the same registration when trigger, commit char and
/// prompt all agree.
pub open spec fn same_registration(a: TriggerView, b: TriggerView) -> bool {
    a.canonical == b.canonical && a.commit_char == b.commit_char && a.prompt_id == b.prompt_id
}

/// No registration occurs twice.
pub open spec fn no_duplicate_registrations(s: Seq<TriggerView>) -> bool {
    forall|i: int, j: int|
        0 <= i < j < s.len() ==> !same_registration(#[trigger] s[i], #[trigger] s[j])
}

/// Whether `s` already holds the registration `e`.
pub open spec fn registered(s: Seq<TriggerView>, e: TriggerView) -> bool {
    exists|i: int| 0 <= i < s.len() && same_registration(#[trigger] s[i], e)
}

/// The entries for `canonical` and `commit`, in insertion order.
pub open spec fn lookup_spec(s: Seq<TriggerView>, canonical: Seq<char>, commit: char) -> Seq<
    TriggerView,
>
    decreases s.len(),
{
    if s.len() == 0 {
        Seq::empty()
    } else {
        let rest = lookup_spec(s.drop_last(), canonical, commit);
        if s.last().canonical == canonical && s.last().commit_char == commit {
            rest.push(s.last())
        } else {
            rest
        }
    }
}

/// A duplicate trigger registration.
#[derive(Debug)]
pub struct DuplicateError {
    pub canonical: String,
    pub commit_char: char,
}

impl Default for MatchIndex {
    fn default() -> (r: Self)
        ensures
            r@ == Seq::<TriggerView>::empty(),
    {
        MatchIndex { entries: Vec::new() }
    }
}

impl MatchIndex {
    pub fn new() -> (r: Self)
        ensures
            r@ == Seq::<TriggerView>::empty(),
    {
        let r = MatchIndex { entries: Vec::new() };
        assert(r@ =~= Seq::<TriggerView>::empty());
        r
    }

    /// Insert a trigger. Several prompts may share a trigger (they are told
    /// apart at fire time by scope); the same prompt registered twice for the
    /// same trigger and commit char is refused.
    pub fn insert(&mut self, entry: TriggerEntry) -> (r: Result<(), DuplicateError>)
        ensures
            match r {
                Ok(()) => {
                    &&& !registered(old(self)@, entry@)
                    &&& final(self)@ == old(self)@.push(entry@)
                },
                Err(e) => {
                    &&& registered(old(self)@, entry@)
                    &&& final(self)@ == old(self)@
                    &&& e.canonical@ == entry.canonical@
                    &&& e.commit_char == entry.commit_char
                },
            },
    {
        let mut i: usize = 0;
        while i < self.entries.len()
            invariant
                i <= self.entries@.len(),
                self@ == old(self)@,
                forall|k: int| 0 <= k < i ==> !same_registration(#[trigger] self@[k], entry@),
            decreases self.entries@.len() - i,
        {
            let e = &self.entries[i];
            if e.commit_char == entry.commit_char && e.prompt_id == entry.prompt_id
                && e.canonical == entry.canonical {
                assert(same_registration(self@[i as int], entry@));
                return Err(DuplicateError { canonical: entry.canonical, commit_char: entry.commit_char });
            }
            i = i + 1;
        }
        let ghost old_view = self@;
        let ghost v = entry@;
        self.entries.push(entry);
        assert(self@ =~= old_view.push(v));
        Ok(())
    }

    pub fn clear(&mut self)
        ensures
            final(self)@ == Seq::<TriggerView>::empty(),
    {
        self.entries = Vec::new();
        assert(self@ =~= Seq::<TriggerView>::empty());
    }

    /// Number of registered triggers.
    pub fn len(&self) -> (r: usize)
        ensures
            r == self@.len(),
    {
        self.entries.len()
    }

    /// Whether any trigger uses `c` as its commit char.
    pub fn is_commit_char(&self, c: char) -> (r: bool)
        ensures
            r == exists|i: int| 0 <= i < self@.len() && #[trigger] self@[i].commit_char == c,
    {
        let mut i: usize = 0;
        while i < self.entries.len()
            invariant
                i <= self@.len(),
                self@.len() == self.entries@.len(),
                forall|k: int| 0 <= k < i ==> #[trigger] self@[k].commit_char != c,
            decreases self@.len() - i,
        {
            if self.entries[i].commit_char == c {
                assert(self@[i as int].commit_char == c);
                return true;
            }
            i = i + 1;
        }
        false
    }

    /// Entries for `canonical` with commit char `commit`, in insertion order.
    pub fn lookup_all(&self, canonical: &str, commit: char) -> (r: Vec<TriggerEntry>)
        ensures
            r@.map_values(|t: TriggerEntry| t@) == lookup_spec(self@, canonical@, commit),
    {
        let mut out: Vec<TriggerEntry> = Vec::new();
        let mut i: usize = 0;
        while i < self.entries.len()
            invariant
                i <= self@.len(),
                self@.len() == self.entries@.len(),
                out@.map_values(|t: TriggerEntry| t@) == lookup_spec(
                    self@.take(i as int),
                    canonical@,
                    commit,
                ),
            decreases self@.len() - i,
        {
            let e = &self.entries[i];
            let ghost prev = out@.map_values(|t: TriggerEntry| t@);
            assert(self@.take(i + 1).drop_last() =~= self@.take(i as int));
            assert(self@.take(i + 1).last() == self@[i as int]);
            if e.commit_char == commit && str_eq(e.canonical.as_str(), canonical) {
                out.push(e.duplicate());
                assert(out@.map_values(|t: TriggerEntry| t@) =~= prev.push(self@[i as int]));
            }
            i = i + 1;
        }
        assert(self@.take(i as int) =~= self@);
        out
    }
}


/// A successful match.
#[derive(Debug, Clone)]
pub struct Match {
    pub prompt_id: PromptId,
    /// Chars in the buffer that belong to the trigger (commit char excluded).
    pub trigger_chars: usize,
    /// Words consumed.
    pub word_count: usize,
    /// The trigger exactly as the user typed it, words joined by one space.
    pub typed_form: String,
    /// Chars from the trigger's first char to the end of the buffer: what
    /// must be dropped so no trailing separator is left behind.
    pub pop_chars: usize,
}

pub struct MatchView {
    pub prompt_id: Seq<char>,
    pub trigger_chars: int,
    pub word_count: int,
    pub typed_form: Seq<char>,
    pub pop_chars: int,
}

impl View for Match {
    type V = MatchView;

    open spec fn view(&self) -> MatchView {
        MatchView {
            prompt_id: self.prompt_id@,
            trigger_chars: self.trigger_chars as int,
            word_count: self.word_count as int,
            typed_form: self.typed_form@,
            pop_chars: self.pop_chars as int,
        }
    }
}

pub open spec fn match_views(v: Seq<Match>) -> Seq<MatchView> {
    v.map_values(|m: Match| m@)
}

/// Older than the freshness window at `now`.
pub open spec fn stale(now: u64, e: KeyEntry) -> bool {
    elapsed(now, e.at) > TRIGGER_FRESHNESS_MS
}

/// Back over whitespace from position `i`.
pub open spec fn skip_ws_back(e: Seq<KeyEntry>, i: int) -> int
    decreases i,
{
    if 0 < i <= e.len() && spec_is_whitespace(e[i - 1].ch) {
        skip_ws_back(e, i - 1)
    } else {
        i
    }
}

/// Start of the word ending at `j`: back over non-whitespace chars that are
/// still fresh.
pub open spec fn word_start(e: Seq<KeyEntry>, now: u64, j: int) -> int
    decreases j,
{
    if 0 < j <= e.len() && !spec_is_whitespace(e[j - 1].ch) && !stale(now, e[j - 1]) {
        word_start(e, now, j - 1)
    } else {
        j
    }
}

pub proof fn lemma_skip_ws_back(e: Seq<KeyEntry>, i: int)
    requires
        0 <= i <= e.len(),
    ensures
        0 <= skip_ws_back(e, i) <= i,
        skip_ws_back(e, i) > 0 ==> !spec_is_whitespace(e[skip_ws_back(e, i) - 1].ch),
    decreases i,
{
    if 0 < i && spec_is_whitespace(e[i - 1].ch) {
        lemma_skip_ws_back(e, i - 1);
    }
}

pub proof fn lemma_word_start(e: Seq<KeyEntry>, now: u64, j: int)
    requires
        0 <= j <= e.len(),
    ensures
        0 <= word_start(e, now, j) <= j,
        forall|k: int|
            word_start(e, now, j) <= k < j ==> !spec_is_whitespace(#[trigger] e[k].ch) && !stale(
                now,
                e[k],
            ),
    decreases j,
{
    if 0 < j && !spec_is_whitespace(e[j - 1].ch) && !stale(now, e[j - 1]) {
        lemma_word_start(e, now, j - 1);
    }
}

/// Word ranges `[start, end)` walking back from `i`, newest first, at most
/// `left` of them. A stale char ends the walk.
pub open spec fn scan_words(e: Seq<KeyEntry>, now: u64, i: int, left: nat) -> Seq<(int, int)>
    decreases i,
{
    if i <= 0 || left == 0 || i > e.len() {
        Seq::empty()
    } else {
        let j = skip_ws_back(e, i);
        if j <= 0 || stale(now, e[j - 1]) {
            Seq::empty()
        } else {
            let s = word_start(e, now, j);
            proof {
                lemma_skip_ws_back(e, i);
                lemma_word_start(e, now, j);
                if 0 < j && !spec_is_whitespace(e[j - 1].ch) && !stale(now, e[j - 1]) {
                    lemma_word_start(e, now, j - 1);
                }
            }
            seq![(s, j)] + scan_words(e, now, s, (left - 1) as nat)
        }
    }
}

/// The chars of one word range.
pub open spec fn word_text(e: Seq<KeyEntry>, w: (int, int)) -> Seq<char> {
    e.subrange(w.0, w.1).map_values(|k: KeyEntry| k.ch)
}

/// Words `k-1` down to `m`, oldest first, joined by single spaces.
pub open spec fn joined(e: Seq<KeyEntry>, words: Seq<(int, int)>, k: int, m: int) -> Seq<char>
    decreases k - m,
{
    if m >= k - 1 {
        word_text(e, words[k - 1])
    } else {
        joined(e, words, k, m + 1) + seq![' '] + word_text(e, words[m])
    }
}

/// The typed form of a `k`-word candidate.
pub open spec fn typed_form_of(e: Seq<KeyEntry>, words: Seq<(int, int)>, k: int) -> Seq<char> {
    joined(e, words, k, 0)
}

/// Some pause between two of the `k` newest words is longer than the reset.
pub open spec fn gap_too_long(e: Seq<KeyEntry>, words: Seq<(int, int)>, k: int) -> bool {
    exists|w: int|
        0 <= w < k - 1 && #[trigger] elapsed(e[words[w].0].at, e[words[w + 1].1 - 1].at)
            > MULTI_WORD_RESET_MS
}

/// Triggers registered for the `k`-word candidate.
pub open spec fn candidates_of(
    index: Seq<TriggerView>,
    e: Seq<KeyEntry>,
    words: Seq<(int, int)>,
    k: int,
    commit: char,
) -> Seq<TriggerView> {
    lookup_spec(index, lowercase_of(typed_form_of(e, words, k)), commit)
}

/// The `k`-word candidate matches.
pub open spec fn accepted(
    index: Seq<TriggerView>,
    e: Seq<KeyEntry>,
    words: Seq<(int, int)>,
    k: int,
    commit: char,
    now: u64,
) -> bool {
    let first = words[k - 1].0;
    let last = words[0].1;
    &&& !gap_too_long(e, words, k)
    &&& candidates_of(index, e, words, k, commit).len() > 0
    &&& elapsed(now, e[last - 1].at) <= LAST_CHAR_MAX_AGE_MS
    &&& elapsed(now, e[first].at) <= TRIGGER_FRESHNESS_MS
}

/// One match per trigger registered for the lowercased candidate
/// `canonical` and `commit`, in registration order, each carrying the
/// candidate's typed form and sizes.
pub open spec fn candidate_matches(
    index: Seq<TriggerView>,
    canonical: Seq<char>,
    commit: char,
    typed: Seq<char>,
    trigger_chars: int,
    word_count: int,
    pop_chars: int,
) -> Seq<MatchView> {
    lookup_spec(index, canonical, commit).map_values(
        |t: TriggerView|
            MatchView {
                prompt_id: t.prompt_id,
                trigger_chars,
                word_count,
                typed_form: typed,
                pop_chars,
            },
    )
}

/// The matches reported for an accepted `k`-word candidate.
pub open spec fn matches_of(
    index: Seq<TriggerView>,
    e: Seq<KeyEntry>,
    words: Seq<(int, int)>,
    k: int,
    commit: char,
) -> Seq<MatchView> {
    let first = words[k - 1].0;
    let last = words[0].1;
    let typed = typed_form_of(e, words, k);
    candidate_matches(index, lowercase_of(typed), commit, typed, last - first, k, e.len() - first)
}

/// Longest accepted candidate at or below `k` words.
pub open spec fn search(
    index: Seq<TriggerView>,
    e: Seq<KeyEntry>,
    words: Seq<(int, int)>,
    k: int,
    commit: char,
    now: u64,
) -> Seq<MatchView>
    decreases k,
{
    if k <= 0 {
        Seq::empty()
    } else if accepted(index, e, words, k, commit, now) {
        matches_of(index, e, words, k, commit)
    } else {
        search(index, e, words, k - 1, commit, now)
    }
}

/// Word ranges of the buffer, newest first.
pub open spec fn buffer_words(e: Seq<KeyEntry>, now: u64) -> Seq<(int, int)> {
    scan_words(e, now, skip_ws_back(e, e.len() as int), MAX_TRIGGER_WORDS as nat)
}

/// All matches for the buffer `e` ending right before `commit`.
pub open spec fn spec_match_all(
    index: Seq<TriggerView>,
    e: Seq<KeyEntry>,
    commit: char,
    now: u64,
) -> Seq<MatchView> {
    let words = buffer_words(e, now);
    search(index, e, words, words.len() as int, commit, now)
}


/// Word ranges as integers.
pub open spec fn pairs_view(v: Seq<(usize, usize)>) -> Seq<(int, int)> {
    v.map_values(|p: (usize, usize)| (p.0 as int, p.1 as int))
}

/// Shape of a word scan: ranges are non-empty, inside `[0, i)`, and each one
/// lies before the previous (newer) one.
pub open spec fn words_wf(words: Seq<(int, int)>, i: int) -> bool {
    &&& forall|w: int| 0 <= w < words.len() ==> 0 <= (#[trigger] words[w]).0 < words[w].1 <= i
    &&& forall|w: int| 0 <= w < words.len() - 1 ==> (#[trigger] words[w + 1]).1 <= words[w].0
}

pub proof fn lemma_scan_words_wf(e: Seq<KeyEntry>, now: u64, i: int, left: nat)
    requires
        0 <= i <= e.len(),
    ensures
        scan_words(e, now, i, left).len() <= left,
        words_wf(scan_words(e, now, i, left), i),
    decreases i,
{
    if i <= 0 || left == 0 || i > e.len() {
    } else {
        let j = skip_ws_back(e, i);
        lemma_skip_ws_back(e, i);
        if j <= 0 || stale(now, e[j - 1]) {
        } else {
            let s = word_start(e, now, j);
            lemma_word_start(e, now, j);
            lemma_word_start(e, now, j - 1);
            let rest = scan_words(e, now, s, (left - 1) as nat);
            lemma_scan_words_wf(e, now, s, (left - 1) as nat);
            let all = seq![(s, j)] + rest;
            assert(all == scan_words(e, now, i, left));
            assert forall|w: int| 0 <= w < all.len() implies 0 <= (#[trigger] all[w]).0 < all[w].1
                <= i by {
                if w > 0 {
                    assert(all[w] == rest[w - 1]);
                }
            }
            assert forall|w: int| 0 <= w < all.len() - 1 implies (#[trigger] all[w + 1]).1
                <= all[w].0 by {
                assert(all[w + 1] == rest[w]);
                if w > 0 {
                    assert(all[w] == rest[w - 1]);
                    assert(rest[(w - 1) + 1] == rest[w]);
                } else {
                    assert(0 <= rest[0].0 < rest[0].1 <= s);
                }
            }
        }
    }
}

/// Word ranges of `entries` at `now`, newest first.
fn scan(entries: &Vec<KeyEntry>, now: u64) -> (words: Vec<(usize, usize)>)
    ensures
        pairs_view(words@) == buffer_words(entries@, now),
        words@.len() <= MAX_TRIGGER_WORDS,
        words_wf(pairs_view(words@), entries@.len() as int),
{
    let ghost e = entries@;
    let n = entries.len();
    let mut end = n;
    while end > 0 && is_whitespace(entries[end - 1].ch)
        invariant
            end <= n,
            n == e.len(),
            e == entries@,
            skip_ws_back(e, end as int) == skip_ws_back(e, n as int),
        decreases end,
    {
        end = end - 1;
    }
    assert(skip_ws_back(e, end as int) == end);
    let mut words: Vec<(usize, usize)> = Vec::new();
    let mut i = end;
    proof {
        assert(pairs_view(words@) =~= Seq::<(int, int)>::empty());
    }
    while i > 0 && words.len() < MAX_TRIGGER_WORDS
        invariant
            i <= n,
            n == e.len(),
            e == entries@,
            words@.len() <= MAX_TRIGGER_WORDS,
            pairs_view(words@) + scan_words(
                e,
                now,
                i as int,
                (MAX_TRIGGER_WORDS - words@.len()) as nat,
            ) == buffer_words(e, now),
        ensures
            pairs_view(words@) == buffer_words(e, now),
        decreases i,
    {
        let ghost left = (MAX_TRIGGER_WORDS - words@.len()) as nat;
        let mut j = i;
        while j > 0 && is_whitespace(entries[j - 1].ch)
            invariant
                j <= i,
                i <= n,
                n == e.len(),
                e == entries@,
                skip_ws_back(e, j as int) == skip_ws_back(e, i as int),
            decreases j,
        {
            j = j - 1;
        }
        assert(skip_ws_back(e, j as int) == j);
        if j == 0 {
            assert(scan_words(e, now, i as int, left) =~= Seq::<(int, int)>::empty());
            assert(pairs_view(words@) + Seq::<(int, int)>::empty() =~= pairs_view(words@));
            break;
        }
        if elapsed_ms(now, entries[j - 1].at) > TRIGGER_FRESHNESS_MS {
            assert(scan_words(e, now, i as int, left) =~= Seq::<(int, int)>::empty());
            assert(pairs_view(words@) + Seq::<(int, int)>::empty() =~= pairs_view(words@));
            break;
        }
        let word_end = j;
        while j > 0 && !is_whitespace(entries[j - 1].ch)
            invariant
                j <= word_end,
                word_end <= n,
                n == e.len(),
                e == entries@,
                word_start(e, now, j as int) == word_start(e, now, word_end as int),
            ensures
                j == word_start(e, now, word_end as int),
            decreases j,
        {
            if elapsed_ms(now, entries[j - 1].at) > TRIGGER_FRESHNESS_MS {
                break;
            }
            j = j - 1;
        }
        proof {
            lemma_word_start(e, now, word_end as int);
            lemma_word_start(e, now, (word_end - 1) as int);
            lemma_skip_ws_back(e, i as int);
        }
        let ghost before = pairs_view(words@);
        words.push((j, word_end));
        assert(pairs_view(words@) =~= before.push((j as int, word_end as int)));
        assert(scan_words(e, now, i as int, left) == seq![(j as int, word_end as int)]
            + scan_words(e, now, j as int, (left - 1) as nat));
        assert(before + scan_words(e, now, i as int, left) =~= before.push(
            (j as int, word_end as int),
        ) + scan_words(e, now, j as int, (left - 1) as nat));
        i = j;
    }
    proof {
        lemma_skip_ws_back(e, n as int);
        lemma_scan_words_wf(e, now, end as int, MAX_TRIGGER_WORDS as nat);
    }
    words
}


/// Append the chars of `entries[s..e]` to `out`.
fn push_word(out: &mut Vec<char>, entries: &Vec<KeyEntry>, s: usize, e: usize)
    requires
        s <= e <= entries@.len(),
    ensures
        final(out)@ == old(out)@ + word_text(entries@, (s as int, e as int)),
{
    let ghost start = old(out)@;
    let mut k = s;
    while k < e
        invariant
            s <= k <= e,
            e <= entries@.len(),
            out@ == start + entries@.subrange(s as int, k as int).map_values(
                |x: KeyEntry| x.ch,
            ),
        decreases e - k,
    {
        out.push(entries[k].ch);
        k = k + 1;
        assert(out@ =~= start + entries@.subrange(s as int, k as int).map_values(
            |x: KeyEntry| x.ch,
        ));
    }
}

/// The typed form of the `k`-word candidate: oldest word first.
fn typed_text(entries: &Vec<KeyEntry>, words: &Vec<(usize, usize)>, k: usize) -> (r: Vec<char>)
    requires
        1 <= k <= words@.len(),
        words_wf(pairs_view(words@), entries@.len() as int),
    ensures
        r@ == typed_form_of(entries@, pairs_view(words@), k as int),
{
    let ghost pw = pairs_view(words@);
    let ghost e = entries@;
    let mut out: Vec<char> = Vec::new();
    let (s0, e0) = words[k - 1];
    assert(pw[k - 1] == (s0 as int, e0 as int));
    push_word(&mut out, entries, s0, e0);
    assert(out@ =~= joined(e, pw, k as int, k - 1));
    let mut m = k - 1;
    while m > 0
        invariant
            m < k,
            k <= words@.len(),
            pw == pairs_view(words@),
            e == entries@,
            words_wf(pw, e.len() as int),
            out@ == joined(e, pw, k as int, m as int),
        decreases m,
    {
        m = m - 1;
        out.push(' ');
        let (ws, we) = words[m];
        assert(pw[m as int] == (ws as int, we as int));
        assert(0 <= pw[m as int].0 < pw[m as int].1 <= e.len());
        push_word(&mut out, entries, ws, we);
        assert(out@ =~= joined(e, pw, k as int, m as int));
    }
    out
}

/// Whether some pause between the `k` newest words exceeds the reset.
fn gap_check(entries: &Vec<KeyEntry>, words: &Vec<(usize, usize)>, k: usize) -> (r: bool)
    requires
        1 <= k <= words@.len(),
        words_wf(pairs_view(words@), entries@.len() as int),
    ensures
        r == gap_too_long(entries@, pairs_view(words@), k as int),
{
    let ghost pw = pairs_view(words@);
    let ghost e = entries@;
    let mut w: usize = 0;
    while w + 1 < k
        invariant
            w < k,
            k <= words@.len(),
            pw == pairs_view(words@),
            e == entries@,
            words_wf(pw, e.len() as int),
            forall|v: int|
                0 <= v < w ==> !(#[trigger] elapsed(e[pw[v].0].at, e[pw[v + 1].1 - 1].at)
                    > MULTI_WORD_RESET_MS),
        decreases k - w,
    {
        let (a, _) = words[w];
        let (_, b) = words[w + 1];
        assert(pw[w as int].0 == a);
        assert(pw[w + 1].1 == b);
        assert(0 <= pw[w + 1].0 < pw[w + 1].1);
        assert(0 <= pw[w as int].0 < pw[w as int].1 <= e.len());
        let gap = elapsed_ms(entries[a].at, entries[b - 1].at);
        if gap > MULTI_WORD_RESET_MS {
            return true;
        }
        w = w + 1;
    }
    false
}

/// The matches for one candidate trigger, given its lowercased text
/// `canonical` as the index keys it: one per registered trigger for
/// `canonical` and `commit_char`, in registration order, each carrying the
/// typed form and the candidate's sizes.
pub fn matches_for_candidate(
    index: &MatchIndex,
    canonical: &str,
    commit_char: char,
    typed_form: &String,
    trigger_chars: usize,
    word_count: usize,
    pop_chars: usize,
) -> (r: Vec<Match>)
    ensures
        match_views(r@) == candidate_matches(
            index@,
            canonical@,
            commit_char,
            typed_form@,
            trigger_chars as int,
            word_count as int,
            pop_chars as int,
        ),
{
    let candidates = index.lookup_all(canonical, commit_char);
    let ghost cands = candidates@.map_values(|t: TriggerEntry| t@);
    let ghost want = candidate_matches(
        index@,
        canonical@,
        commit_char,
        typed_form@,
        trigger_chars as int,
        word_count as int,
        pop_chars as int,
    );
    let mut out: Vec<Match> = Vec::new();
    let mut c: usize = 0;
    while c < candidates.len()
        invariant
            c <= candidates@.len(),
            cands == candidates@.map_values(|t: TriggerEntry| t@),
            cands == lookup_spec(index@, canonical@, commit_char),
            want == candidate_matches(
                index@,
                canonical@,
                commit_char,
                typed_form@,
                trigger_chars as int,
                word_count as int,
                pop_chars as int,
            ),
            match_views(out@) == want.take(c as int),
        decreases candidates@.len() - c,
    {
        let m = Match {
            prompt_id: candidates[c].prompt_id.clone(),
            trigger_chars,
            word_count,
            typed_form: typed_form.clone(),
            pop_chars,
        };
        let ghost prev = match_views(out@);
        out.push(m);
        assert(match_views(out@) =~= prev.push(m@));
        assert(want[c as int] == m@);
        assert(match_views(out@) =~= want.take(c + 1));
        c = c + 1;
    }
    assert(want.take(c as int) =~= want);
    out
}

/// Try to match the buffer ending right before `commit_char`. Returns the
/// first candidate of the longest matching trigger.
pub fn match_buffer(index: &MatchIndex, buffer: &RingBuffer, commit_char: char, now: u64) -> (r:
    Option<Match>)
    ensures
        match r {
            Some(m) => {
                &&& spec_match_all(index@, buffer@, commit_char, now).len() > 0
                &&& m@ == spec_match_all(index@, buffer@, commit_char, now)[0]
            },
            None => spec_match_all(index@, buffer@, commit_char, now).len() == 0,
        },
{
    let mut all = match_buffer_all(index, buffer, commit_char, now);
    if all.len() == 0 {
        None
    } else {
        let first = all.remove(0);
        Some(first)
    }
}

/// All candidate matches: every prompt that shares the longest matching
/// trigger, in registration order.
pub fn match_buffer_all(index: &MatchIndex, buffer: &RingBuffer, commit_char: char, now: u64) -> (r:
    Vec<Match>)
    ensures
        match_views(r@) == spec_match_all(index@, buffer@, commit_char, now),
{
    let entries = buffer.iter();
    let ghost e = entries@;
    let words = scan(&entries, now);
    let ghost pw = pairs_view(words@);
    let mut k = words.len();
    while k > 0
        invariant
            k <= words@.len(),
            e == entries@,
            e == buffer@,
            pw == pairs_view(words@),
            pw == buffer_words(e, now),
            words_wf(pw, e.len() as int),
            search(index@, e, pw, pw.len() as int, commit_char, now) == search(
                index@,
                e,
                pw,
                k as int,
                commit_char,
                now,
            ),
        decreases k,
    {
        if !gap_check(&entries, &words, k) {
            let typed = typed_text(&entries, &words, k);
            let typed_s = string_of(&typed);
            let canonical = to_lowercase(typed_s.as_str());
            let first_idx = words[k - 1].0;
            let last_idx = words[0].1;
            assert(pw[k - 1].0 == first_idx && pw[0].1 == last_idx);
            assert(0 <= pw[k - 1].0 < pw[k - 1].1 <= e.len());
            assert(0 <= pw[0].0 < pw[0].1 <= e.len());
            proof {
                lemma_words_ordered(pw, e.len() as int, k as int);
            }
            let trigger_chars = last_idx - first_idx;
            let last_age = elapsed_ms(now, entries[last_idx - 1].at);
            let first_age = elapsed_ms(now, entries[first_idx].at);
            if last_age <= LAST_CHAR_MAX_AGE_MS && first_age <= TRIGGER_FRESHNESS_MS {
                let pop = entries.len() - first_idx;
                let out = matches_for_candidate(
                    index,
                    canonical.as_str(),
                    commit_char,
                    &typed_s,
                    trigger_chars,
                    k,
                    pop,
                );
                assert(match_views(out@) == matches_of(index@, e, pw, k as int, commit_char));
                if out.len() > 0 {
                    return out;
                }
            }
        }
        k = k - 1;
    }
    let out: Vec<Match> = Vec::new();
    assert(match_views(out@) =~= Seq::<MatchView>::empty());
    out
}

/// In a well-formed scan the oldest of the `k` newest words starts no later
/// than the newest one ends.
pub proof fn lemma_words_ordered(words: Seq<(int, int)>, n: int, k: int)
    requires
        words_wf(words, n),
        1 <= k <= words.len(),
    ensures
        words[k - 1].0 < words[0].1,
    decreases k,
{
    assert(0 <= words[k - 1].0 < words[k - 1].1 <= n);
    if k > 1 {
        lemma_words_ordered(words, n, k - 1);
        assert(words[(k - 2) + 1].1 <= words[k - 2].0);
        assert(0 <= words[k - 2].0 < words[k - 2].1);
    }
}


/// Alphabetic chars of `s`, in order.
pub open spec fn alpha_of(s: Seq<char>) -> Seq<char>
    decreases s.len(),
{
    if s.len() == 0 {
        Seq::empty()
    } else if alphabetic(s.last()) {
        alpha_of(s.drop_last()).push(s.last())
    } else {
        alpha_of(s.drop_last())
    }
}

/// How the typed letters were cased.
#[derive(Debug, Clone, Copy, PartialEq, Eq, Structural)]
pub enum CaseStyle {
    /// No letters, or mixed case: the body stays as written.
    Unchanged,
    /// Every letter uppercase: the body goes all caps.
    AllCaps,
    /// First letter uppercase, the rest lowercase: the body's first char is
    /// capitalized.
    Title,
}

/// The case style of the typed letters, each given as (is uppercase, is
/// lowercase), in order.
pub open spec fn spec_case_style(flags: Seq<(bool, bool)>) -> CaseStyle {
    if flags.len() == 0 {
        CaseStyle::Unchanged
    } else if forall|i: int| 0 <= i < flags.len() ==> (#[trigger] flags[i]).0 {
        CaseStyle::AllCaps
    } else if flags[0].0 && forall|i: int| 1 <= i < flags.len() ==> (#[trigger] flags[i]).1 {
        CaseStyle::Title
    } else {
        CaseStyle::Unchanged
    }
}

/// The (uppercase, lowercase) flags of each letter.
pub open spec fn case_flags(alpha: Seq<char>) -> Seq<(bool, bool)> {
    alpha.map_values(|c: char| (uppercase(c), lowercase(c)))
}

/// `body` in case style `style`.
pub open spec fn spec_render_case(style: CaseStyle, body: Seq<char>) -> Seq<char> {
    match style {
        CaseStyle::Unchanged => body,
        CaseStyle::AllCaps => uppercase_of(body),
        CaseStyle::Title => if body.len() == 0 {
            body
        } else {
            char_uppercase_of(body[0]) + body.drop_first()
        },
    }
}

/// `body` rendered in the case style of `typed_form`: all caps when every
/// letter typed was uppercase, first char capitalized when the typed letters
/// were title case, untouched otherwise (or when nothing alphabetic was typed).
pub open spec fn spec_propagate_case(typed_form: Seq<char>, body: Seq<char>) -> Seq<char> {
    spec_render_case(spec_case_style(case_flags(alpha_of(typed_form))), body)
}

/// The case style of typed letters given as (is uppercase, is lowercase)
/// flags, in order: all caps when every letter is uppercase, title when the
/// first is uppercase and the rest lowercase, otherwise unchanged (and
/// unchanged when nothing alphabetic was typed).
pub fn case_style(flags: &[(bool, bool)]) -> (r: CaseStyle)
    ensures
        r == spec_case_style(flags@),
{
    if flags.len() == 0 {
        return CaseStyle::Unchanged;
    }
    let mut all_upper = true;
    let mut j: usize = 0;
    while j < flags.len()
        invariant
            j <= flags@.len(),
            all_upper == forall|m: int| 0 <= m < j ==> (#[trigger] flags@[m]).0,
        decreases flags@.len() - j,
    {
        all_upper = all_upper && flags[j].0;
        j = j + 1;
    }
    if all_upper {
        return CaseStyle::AllCaps;
    }
    let mut title = flags[0].0;
    let mut j: usize = 1;
    while j < flags.len()
        invariant
            1 <= j <= flags@.len(),
            title == (flags@[0].0 && forall|m: int| 1 <= m < j ==> (#[trigger] flags@[m]).1),
        decreases flags@.len() - j,
    {
        title = title && flags[j].1;
        j = j + 1;
    }
    if title {
        CaseStyle::Title
    } else {
        CaseStyle::Unchanged
    }
}

fn render_case(style: CaseStyle, body: &str) -> (r: String)
    ensures
        r@ == spec_render_case(style, body@),
{
    match style {
        CaseStyle::Unchanged => crate::text::owned(body),
        CaseStyle::AllCaps => to_uppercase(body),
        CaseStyle::Title => {
            let b = crate::text::chars_of(body);
            if b.len() == 0 {
                return crate::text::owned(body);
            }
            let first = char_to_uppercase(b[0]);
            let mut out = crate::text::chars_of(first.as_str());
            let mut k: usize = 1;
            let ghost head = out@;
            while k < b.len()
                invariant
                    1 <= k <= b@.len(),
                    out@ == head + b@.subrange(1, k as int),
                decreases b@.len() - k,
            {
                out.push(b[k]);
                k = k + 1;
                assert(out@ =~= head + b@.subrange(1, k as int));
            }
            assert(b@.subrange(1, k as int) =~= b@.drop_first());
            string_of(&out)
        },
    }
}

/// Render `body` with the case style the user typed for `typed_form`.
pub fn propagate_case(typed_form: &str, body: &str) -> (r: String)
    ensures
        r@ == spec_propagate_case(typed_form@, body@),
{
    let typed = crate::text::chars_of(typed_form);
    let mut flags: Vec<(bool, bool)> = Vec::new();
    let mut i: usize = 0;
    while i < typed.len()
        invariant
            i <= typed@.len(),
            typed@ == typed_form@,
            flags@ == case_flags(alpha_of(typed@.take(i as int))),
        decreases typed@.len() - i,
    {
        assert(typed@.take(i + 1).drop_last() =~= typed@.take(i as int));
        let c = typed[i];
        if is_alphabetic(c) {
            let ghost before = alpha_of(typed@.take(i as int));
            flags.push((is_uppercase(c), is_lowercase(c)));
            assert(flags@ =~= case_flags(before.push(c)));
        }
        i = i + 1;
    }
    assert(typed@.take(i as int) =~= typed@);
    let style = case_style(flags.as_slice());
    render_case(style, body)
}

proof fn lemma_alpha_of_concat(x: Seq<char>, y: Seq<char>)
    ensures
        alpha_of(x + y) == alpha_of(x) + alpha_of(y),
    decreases y.len(),
{
    if y.len() == 0 {
        assert(x + y =~= x);
        assert(alpha_of(x) + alpha_of(y) =~= alpha_of(x));
    } else {
        lemma_alpha_of_concat(x, y.drop_last());
        assert((x + y).drop_last() =~= x + y.drop_last());
        assert((x + y).last() == y.last());
        if alphabetic(y.last()) {
            assert(alpha_of(x) + alpha_of(y) =~= (alpha_of(x) + alpha_of(y.drop_last())).push(y.last()));
        } else {
            assert(alpha_of(x) + alpha_of(y) =~= alpha_of(x) + alpha_of(y.drop_last()));
        }
    }
}

proof fn lemma_alpha_of_letters(s: Seq<char>)
    ensures
        forall|k: int| 0 <= k < alpha_of(s).len() ==> exists|j: int| 0 <= j < s.len() && s[j] == #[trigger] alpha_of(s)[k]
            && alphabetic(s[j]),
        (exists|j: int| 0 <= j < s.len() && alphabetic(#[trigger] s[j])) ==> alpha_of(s).len() > 0,
    decreases s.len(),
{
    if s.len() > 0 {
        let p = s.drop_last();
        lemma_alpha_of_letters(p);
        let a = alpha_of(s);
        assert forall|k: int| 0 <= k < a.len() implies exists|j: int| 0 <= j < s.len() && s[j]
            == #[trigger] a[k] && alphabetic(s[j]) by {
            if k < alpha_of(p).len() {
                assert(a[k] == alpha_of(p)[k]);
                let j = choose|j: int| 0 <= j < p.len() && p[j] == alpha_of(p)[k] && alphabetic(p[j]);
                assert(s[j] == p[j]);
            } else {
                assert(s[s.len() - 1] == a[k]);
            }
        }
        if exists|j: int| 0 <= j < s.len() && alphabetic(#[trigger] s[j]) {
            let j = choose|j: int| 0 <= j < s.len() && alphabetic(#[trigger] s[j]);
            if j < s.len() - 1 {
                assert(p[j] == s[j]);
            }
        }
    }
}

/// Only the letters of the typed form decide the case of the body: putting
/// a non-alphabetic char (a space between words, a digit, punctuation)
/// anywhere into the typed form changes nothing.
pub proof fn lemma_non_letters_do_not_matter(a: Seq<char>, c: char, b: Seq<char>, body: Seq<char>)
    requires
        !alphabetic(c),
    ensures
        spec_propagate_case(a + seq![c] + b, body) == spec_propagate_case(a + b, body),
{
    lemma_alpha_of_concat(a + seq![c], b);
    lemma_alpha_of_concat(a, seq![c]);
    lemma_alpha_of_concat(a, b);
    assert(seq![c].drop_last() =~= Seq::<char>::empty());
    assert(seq![c].last() == c);
    assert(alpha_of(Seq::<char>::empty()) =~= Seq::<char>::empty());
    assert(alpha_of(seq![c]) =~= alpha_of(seq![c].drop_last()));
    assert(alpha_of(seq![c]) =~= Seq::<char>::empty());
    assert(alpha_of(a + seq![c]) =~= alpha_of(a));
}

/// A typed form whose letters are all uppercase (at least one letter,
/// whatever spaces, digits or punctuation it also holds) renders the body
/// in all caps.
pub proof fn lemma_all_caps_typed_gives_all_caps(typed: Seq<char>, body: Seq<char>)
    requires
        exists|j: int| 0 <= j < typed.len() && alphabetic(#[trigger] typed[j]),
        forall|j: int| 0 <= j < typed.len() && alphabetic(#[trigger] typed[j]) ==> uppercase(typed[j]),
    ensures
        spec_propagate_case(typed, body) == uppercase_of(body),
{
    lemma_alpha_of_letters(typed);
    let alpha = alpha_of(typed);
    let flags = case_flags(alpha);
    assert forall|i: int| 0 <= i < flags.len() implies (#[trigger] flags[i]).0 by {
        let j = choose|j: int| 0 <= j < typed.len() && typed[j] == #[trigger] alpha[i] && alphabetic(
            typed[j],
        );
        assert(uppercase(typed[j]));
    }
    assert(flags.len() > 0);
}

/// Index after registering `s` one by one, and whether every insert succeeded.
/// Registration stops at the first duplicate.
pub open spec fn build_index(s: Seq<TriggerView>) -> (Seq<TriggerView>, bool)
    decreases s.len(),
{
    if s.len() == 0 {
        (Seq::empty(), true)
    } else {
        let (acc, ok) = build_index(s.drop_last());
        if !ok {
            (acc, false)
        } else if registered(acc, s.last()) {
            (acc, false)
        } else {
            (acc.push(s.last()), true)
        }
    }
}

/// Matcher state for the running app: the trigger index and the keystroke
/// ring. Callers share it behind their own lock.
#[derive(Debug)]
pub struct MatcherState {
    pub index: MatchIndex,
    pub buffer: RingBuffer,
}

impl Default for MatcherState {
    fn default() -> (r: Self)
        ensures
            r.index@ == Seq::<TriggerView>::empty(),
            r.buffer@ == Seq::<KeyEntry>::empty(),
    {
        MatcherState { index: MatchIndex::new(), buffer: RingBuffer::new() }
    }
}

impl MatcherState {
    pub fn new() -> (r: Self)
        ensures
            r.index@ == Seq::<TriggerView>::empty(),
            r.buffer@ == Seq::<KeyEntry>::empty(),
    {
        MatcherState { index: MatchIndex::new(), buffer: RingBuffer::new() }
    }

    /// Replace the index with `entries`, stopping at the first duplicate.
    pub fn rebuild_index(&mut self, entries: Vec<TriggerEntry>) -> (r: Result<(), DuplicateError>)
        ensures
            final(self).index@ == build_index(entries@.map_values(|t: TriggerEntry| t@)).0,
            r is Ok == build_index(entries@.map_values(|t: TriggerEntry| t@)).1,
            final(self).buffer@ == old(self).buffer@,
    {
        let ghost views = entries@.map_values(|t: TriggerEntry| t@);
        self.index.clear();
        let mut i: usize = 0;
        let n = entries.len();
        assert(build_index(views.take(0)) == (Seq::<TriggerView>::empty(), true)) by {
            assert(views.take(0).len() == 0);
        }
        while i < n
            invariant
                i <= n,
                n == views.len(),
                n == entries@.len(),
                views == entries@.map_values(|t: TriggerEntry| t@),
                self.index@ == build_index(views.take(i as int)).0,
                build_index(views.take(i as int)).1,
                self.buffer@ == old(self).buffer@,
            decreases n - i,
        {
            let e = entries[i].duplicate();
            assert(e@ == views[i as int]);
            assert(views.take(i + 1).drop_last() =~= views.take(i as int));
            assert(views.take(i + 1).last() == views[i as int]);
            match self.index.insert(e) {
                Ok(()) => {},
                Err(err) => {
                    proof {
                        lemma_build_index_stops(views, i as int);
                    }
                    return Err(err);
                },
            }
            i = i + 1;
        }
        assert(views.take(i as int) =~= views);
        Ok(())
    }

    pub fn observe_char(&mut self, ch: char, at: u64)
        ensures
            final(self).buffer@ == ring_after_push(old(self).buffer@, KeyEntry { ch, at }),
            final(self).index@ == old(self).index@,
    {
        self.buffer.push(ch, at);
    }

    /// Return or Tab: no char, but a word boundary. Recorded as a newline so
    /// a trigger typed right after it starts a fresh word.
    pub fn observe_separator(&mut self, at: u64)
        ensures
            final(self).buffer@ == ring_after_push(old(self).buffer@, KeyEntry { ch: '\n', at }),
            final(self).index@ == old(self).index@,
    {
        self.buffer.push('\n', at);
    }

    /// The user pressed Backspace: drop the last char, as the focused app does.
    pub fn observe_backspace(&mut self, _at: u64)
        ensures
            final(self).buffer@ == old(self).buffer@.take(
                if old(self).buffer@.len() == 0 {
                    0
                } else {
                    old(self).buffer@.len() - 1
                },
            ),
            final(self).index@ == old(self).index@,
    {
        self.buffer.pop_last(1);
    }

    pub fn pop_last_chars(&mut self, n: usize)
        ensures
            final(self).buffer@ == old(self).buffer@.take(
                if n >= old(self).buffer@.len() {
                    0
                } else {
                    old(self).buffer@.len() - n
                },
            ),
            final(self).index@ == old(self).index@,
    {
        self.buffer.pop_last(n);
    }

    pub fn last_char(&self) -> (r: Option<char>)
        ensures
            r == (if self.buffer@.len() == 0 {
                None::<char>
            } else {
                Some(self.buffer@.last().ch)
            }),
    {
        self.buffer.last_char()
    }

    /// Whether `c` is the commit char of any registered trigger.
    pub fn is_commit_char(&self, c: char) -> (r: bool)
        ensures
            r == exists|i: int|
                0 <= i < self.index@.len() && #[trigger] self.index@[i].commit_char == c,
    {
        self.index.is_commit_char(c)
    }

    /// Try to match given the just-typed commit char.
    pub fn try_match(&self, commit_char: char, now: u64) -> (r: Option<Match>)
        ensures
            match r {
                Some(m) => {
                    &&& spec_match_all(self.index@, self.buffer@, commit_char, now).len() > 0
                    &&& m@ == spec_match_all(self.index@, self.buffer@, commit_char, now)[0]
                },
                None => spec_match_all(self.index@, self.buffer@, commit_char, now).len() == 0,
            },
    {
        match_buffer(&self.index, &self.buffer, commit_char, now)
    }

    /// Every candidate sharing the matched trigger.
    pub fn try_match_all(&self, commit_char: char, now: u64) -> (r: Vec<Match>)
        ensures
            match_views(r@) == spec_match_all(self.index@, self.buffer@, commit_char, now),
    {
        match_buffer_all(&self.index, &self.buffer, commit_char, now)
    }
}

/// Once an insert is refused, the rest of the rebuild is skipped.
pub proof fn lemma_build_index_stops(views: Seq<TriggerView>, i: int)
    requires
        0 <= i < views.len(),
        build_index(views.take(i)).1,
        registered(build_index(views.take(i)).0, views[i]),
    ensures
        !build_index(views).1,
        build_index(views).0 == build_index(views.take(i)).0,
    decreases views.len() - i,
{
    let t = views.take(i + 1);
    assert(t.drop_last() =~= views.take(i));
    assert(t.last() == views[i]);
    lemma_build_index_failed_prefix(views, i + 1);
}

/// A failed prefix fails the whole sequence, and the index stays put.
pub proof fn lemma_build_index_failed_prefix(views: Seq<TriggerView>, j: int)
    requires
        0 <= j <= views.len(),
        !build_index(views.take(j)).1,
    ensures
        !build_index(views).1,
        build_index(views).0 == build_index(views.take(j)).0,
    decreases views.len() - j,
{
    if j == views.len() {
        assert(views.take(j) =~= views);
    } else {
        let t = views.take(j + 1);
        assert(t.drop_last() =~= views.take(j));
        lemma_build_index_failed_prefix(views, j + 1);
    }
}

/// Inserting never creates a duplicate registration.
pub proof fn lemma_insert_keeps_registrations_unique(
    before: Seq<TriggerView>,
    entry: TriggerView,
)
    requires
        no_duplicate_registrations(before),
        !registered(before, entry),
    ensures
        no_duplicate_registrations(before.push(entry)),
{
    let after = before.push(entry);
    assert forall|i: int, j: int| 0 <= i < j < after.len() implies !same_registration(
        #[trigger] after[i],
        #[trigger] after[j],
    ) by {
        if j == before.len() {
            assert(after[i] == before[i]);
            if same_registration(after[i], after[j]) {
                assert(same_registration(before[i], entry));
            }
        } else {
            assert(after[i] == before[i] && after[j] == before[j]);
        }
    }
}

} // verus!
