//! The picker: search-session accounting, the recents tier, and the focus
//! snapshot it restores before delivering.

use crate::capture::{CandidateWindow, select_target};
use crate::text::clone_opt;
use vstd::prelude::*;

verus! {

/// How much the user typed to find a prompt, reported once on close. Only the
/// peak length is kept: the query text itself would be a content leak.
#[derive(Debug)]
pub struct SearchSession {
    peak: usize,
}

impl SearchSession {
    /// The longest query noted since the last `take`.
    pub closed spec fn peak(&self) -> nat {
        self.peak as nat
    }

    pub fn new() -> (r: Self)
        ensures
            r.peak() == 0,
    {
        SearchSession { peak: 0 }
    }

    /// Record the current query length; the peak only grows.
    pub fn note(&mut self, len: usize)
        ensures
            final(self).peak() == if len > old(self).peak() {
                len as nat
            } else {
                old(self).peak()
            },
    {
        if len > self.peak {
            self.peak = len;
        }
    }

    /// Peak length of the search that just ended, saturated at `u8::MAX`, or
    /// `None` if the user never typed. Resets, so each open/close pair
    /// reports at most once.
    pub fn take(&mut self) -> (r: Option<u8>)
        ensures
            final(self).peak() == 0,
            r == if old(self).peak() > 0 {
                Some(
                    if old(self).peak() > 255 {
                        255u8
                    } else {
                        old(self).peak() as u8
                    },
                )
            } else {
                None::<u8>
            },
    {
        let n = self.peak;
        self.peak = 0;
        if n > 0 {
            Some(
                if n > 255 {
                    255u8
                } else {
                    n as u8
                },
            )
        } else {
            None
        }
    }
}

impl Default for SearchSession {
    fn default() -> (r: Self)
        ensures
            r.peak() == 0,
    {
        SearchSession::new()
    }
}

/// One picker hit: the prompt, its fuzzy score, and the matched char offsets.
#[derive(Debug)]
pub struct SearchHit {
    pub prompt_id: String,
    pub score: u32,
    /// Char offsets (in the haystack) that matched the query.
    pub highlights: Vec<u32>,
}

pub ghost struct SearchHitView {
    pub prompt_id: Seq<char>,
    pub score: u32,
    pub highlights: Seq<u32>,
}

impl View for SearchHit {
    type V = SearchHitView;

    open spec fn view(&self) -> SearchHitView {
        SearchHitView {
            prompt_id: self.prompt_id@,
            score: self.score,
            highlights: self.highlights@,
        }
    }
}

impl SearchHit {
    /// An equal copy.
    pub fn duplicate(&self) -> (r: SearchHit)
        ensures
            r@ == self@,
    {
        let mut hl: Vec<u32> = Vec::new();
        let mut i: usize = 0;
        while i < self.highlights.len()
            invariant
                i <= self.highlights@.len(),
                hl@ == self.highlights@.take(i as int),
            decreases self.highlights@.len() - i,
        {
            hl.push(self.highlights[i]);
            i = i + 1;
            assert(hl@ =~= self.highlights@.take(i as int));
        }
        assert(self.highlights@.take(i as int) =~= self.highlights@);
        SearchHit { prompt_id: self.prompt_id.clone(), score: self.score, highlights: hl }
    }
}

/// The views of a vector of hits.
pub open spec fn hit_views(hits: Seq<SearchHit>) -> Seq<SearchHitView> {
    hits.map_values(|h: SearchHit| h@)
}

/// First position of `id` in `recents`.
pub open spec fn rank_of(id: Seq<char>, recents: Seq<Seq<char>>) -> Option<int>
    decreases recents.len(),
{
    if recents.len() == 0 {
        None
    } else if recents[0] == id {
        Some(0)
    } else {
        match rank_of(id, recents.drop_first()) {
            Some(k) => Some(k + 1),
            None => None,
        }
    }
}

/// Sort key of a hit: its rank among the recents; every other hit sorts
/// after all of them.
pub open spec fn hit_key(h: SearchHitView, recents: Seq<Seq<char>>) -> int {
    match rank_of(h.prompt_id, recents) {
        Some(k) => k,
        None => recents.len() as int,
    }
}

/// The hits whose key is `k`, in the order they come in `hits`.
pub open spec fn bucket(hits: Seq<SearchHitView>, recents: Seq<Seq<char>>, k: int) -> Seq<
    SearchHitView,
>
    decreases hits.len(),
{
    if hits.len() == 0 {
        Seq::empty()
    } else {
        let b = bucket(hits.drop_last(), recents, k);
        if hit_key(hits.last(), recents) == k {
            b.push(hits.last())
        } else {
            b
        }
    }
}

/// Buckets `0..n` concatenated.
pub open spec fn buckets_upto(hits: Seq<SearchHitView>, recents: Seq<Seq<char>>, n: nat) -> Seq<
    SearchHitView,
>
    decreases n,
{
    if n == 0 {
        Seq::empty()
    } else {
        buckets_upto(hits, recents, (n - 1) as nat) + bucket(hits, recents, n - 1)
    }
}

/// `hits` reordered so the ids in `recents` come first, in `recents` order,
/// every other hit after them in the order it came: a stable sort by
/// [`hit_key`].
pub open spec fn spec_promote_recents(hits: Seq<SearchHitView>, recents: Seq<Seq<char>>) -> Seq<
    SearchHitView,
> {
    if recents.len() == 0 || hits.len() == 0 {
        hits
    } else {
        buckets_upto(hits, recents, recents.len() + 1)
    }
}

proof fn lemma_rank_of_bounds(id: Seq<char>, recents: Seq<Seq<char>>)
    ensures
        match rank_of(id, recents) {
            Some(k) => 0 <= k < recents.len() && recents[k] == id && forall|j: int|
                0 <= j < k ==> recents[j] != id,
            None => forall|j: int| 0 <= j < recents.len() ==> recents[j] != id,
        },
    decreases recents.len(),
{
    if recents.len() > 0 && recents[0] != id {
        lemma_rank_of_bounds(id, recents.drop_first());
        assert forall|j: int| 0 < j < recents.len() implies recents[j] == recents.drop_first()[j
            - 1] by {}
    }
}

fn key_of(id: &String, recents: &[String]) -> (r: usize)
    ensures
        r as int == match rank_of(id@, recents@.map_values(|s: String| s@)) {
            Some(k) => k,
            None => recents@.len() as int,
        },
{
    let ghost rv = recents@.map_values(|s: String| s@);
    proof {
        lemma_rank_of_bounds(id@, rv);
    }
    let mut j: usize = 0;
    while j < recents.len()
        invariant
            j <= recents@.len(),
            rv == recents@.map_values(|s: String| s@),
            forall|k: int| 0 <= k < j ==> rv[k] != id@,
            match rank_of(id@, rv) {
                Some(k) => 0 <= k < rv.len() && rv[k] == id@ && forall|m: int|
                    0 <= m < k ==> rv[m] != id@,
                None => forall|m: int| 0 <= m < rv.len() ==> rv[m] != id@,
            },
        decreases recents@.len() - j,
    {
        if recents[j] == *id {
            assert(rv[j as int] == id@);
            return j;
        }
        j = j + 1;
    }
    j
}

/// Append, in order, copies of the hits whose key is `k`.
fn push_bucket(
    out: &mut Vec<SearchHit>,
    hits: &Vec<SearchHit>,
    keys: &Vec<usize>,
    k: usize,
    Ghost(rv): Ghost<Seq<Seq<char>>>,
)
    requires
        keys@.len() == hits@.len(),
        forall|m: int|
            0 <= m < hits@.len() ==> keys@[m] as int == hit_key(#[trigger] hit_views(hits@)[m], rv),
    ensures
        hit_views(final(out)@) == hit_views(old(out)@) + bucket(hit_views(hits@), rv, k as int),
{
    let ghost hv = hit_views(hits@);
    let ghost before = hit_views(out@);
    let mut i: usize = 0;
    while i < hits.len()
        invariant
            i <= hits@.len(),
            keys@.len() == hits@.len(),
            hv == hit_views(hits@),
            forall|m: int| 0 <= m < hits@.len() ==> keys@[m] as int == hit_key(#[trigger] hv[m], rv),
            hit_views(out@) == before + bucket(hv.take(i as int), rv, k as int),
        decreases hits@.len() - i,
    {
        assert(hv.take(i + 1).drop_last() =~= hv.take(i as int));
        assert(hv.take(i + 1).last() == hv[i as int]);
        if keys[i] == k {
            let ghost prev = hit_views(out@);
            out.push(hits[i].duplicate());
            assert(hit_views(out@) =~= prev.push(hv[i as int]));
        }
        i = i + 1;
    }
    assert(hv.take(i as int) =~= hv);
}

/// Reorder `hits` so the ids in `recents` come first, in `recents` order.
/// Everything else keeps its relative order below them; ids in `recents`
/// that match no hit are ignored.
pub fn promote_recents(hits: &mut Vec<SearchHit>, recents: &[String])
    ensures
        hit_views(final(hits)@) == spec_promote_recents(
            hit_views(old(hits)@),
            recents@.map_values(|s: String| s@),
        ),
{
    if recents.len() == 0 || hits.len() == 0 {
        return;
    }
    let ghost rv = recents@.map_values(|s: String| s@);
    let ghost hv = hit_views(hits@);
    let mut keys: Vec<usize> = Vec::new();
    let mut i: usize = 0;
    while i < hits.len()
        invariant
            i <= hits@.len(),
            keys@.len() == i,
            hv == hit_views(hits@),
            rv == recents@.map_values(|s: String| s@),
            forall|k: int| 0 <= k < i ==> keys@[k] as int == hit_key(#[trigger] hv[k], rv),
        decreases hits@.len() - i,
    {
        keys.push(key_of(&hits[i].prompt_id, recents));
        i = i + 1;
    }
    let mut out: Vec<SearchHit> = Vec::new();
    let mut k: usize = 0;
    while k < recents.len()
        invariant
            k <= recents@.len(),
            keys@.len() == hits@.len(),
            hv == hit_views(hits@),
            rv == recents@.map_values(|s: String| s@),
            forall|m: int| 0 <= m < hits@.len() ==> keys@[m] as int == hit_key(#[trigger] hv[m], rv),
            hit_views(out@) == buckets_upto(hv, rv, k as nat),
        decreases recents@.len() - k,
    {
        push_bucket(&mut out, hits, &keys, k, Ghost(rv));
        k = k + 1;
    }
    push_bucket(&mut out, hits, &keys, k, Ghost(rv));
    *hits = out;
}


proof fn lemma_bucket_keys(hits: Seq<SearchHitView>, recents: Seq<Seq<char>>, k: int)
    ensures
        forall|i: int|
            0 <= i < bucket(hits, recents, k).len() ==> hit_key(
                #[trigger] bucket(hits, recents, k)[i],
                recents,
            ) == k,
        bucket(hits, recents, k).len() == count_key(hits, recents, k),
    decreases hits.len(),
{
    if hits.len() > 0 {
        lemma_bucket_keys(hits.drop_last(), recents, k);
    }
}

/// How many hits have key `k`.
pub open spec fn count_key(hits: Seq<SearchHitView>, recents: Seq<Seq<char>>, k: int) -> nat
    decreases hits.len(),
{
    if hits.len() == 0 {
        0
    } else {
        count_key(hits.drop_last(), recents, k) + if hit_key(hits.last(), recents) == k {
            1nat
        } else {
            0nat
        }
    }
}

/// How many hits have a key below `n`.
pub open spec fn count_below(hits: Seq<SearchHitView>, recents: Seq<Seq<char>>, n: int) -> nat
    decreases hits.len(),
{
    if hits.len() == 0 {
        0
    } else {
        count_below(hits.drop_last(), recents, n) + if 0 <= hit_key(hits.last(), recents) < n {
            1nat
        } else {
            0nat
        }
    }
}

proof fn lemma_count_below_step(hits: Seq<SearchHitView>, recents: Seq<Seq<char>>, n: int)
    requires
        n >= 1,
    ensures
        count_below(hits, recents, n) == count_below(hits, recents, n - 1) + count_key(
            hits,
            recents,
            n - 1,
        ),
    decreases hits.len(),
{
    if hits.len() > 0 {
        lemma_count_below_step(hits.drop_last(), recents, n);
        lemma_key_nonneg(hits.last(), recents);
    }
}

proof fn lemma_key_nonneg(h: SearchHitView, recents: Seq<Seq<char>>)
    ensures
        0 <= hit_key(h, recents) <= recents.len(),
{
    lemma_rank_of_bounds(h.prompt_id, recents);
}

proof fn lemma_count_below_all(hits: Seq<SearchHitView>, recents: Seq<Seq<char>>)
    ensures
        count_below(hits, recents, recents.len() + 1int) == hits.len(),
    decreases hits.len(),
{
    if hits.len() > 0 {
        lemma_count_below_all(hits.drop_last(), recents);
        lemma_key_nonneg(hits.last(), recents);
    }
}

proof fn lemma_buckets_upto(hits: Seq<SearchHitView>, recents: Seq<Seq<char>>, n: nat)
    ensures
        buckets_upto(hits, recents, n).len() == count_below(hits, recents, n as int),
        forall|i: int|
            0 <= i < buckets_upto(hits, recents, n).len() ==> 0 <= hit_key(
                #[trigger] buckets_upto(hits, recents, n)[i],
                recents,
            ) < n,
        forall|i: int, j: int|
            0 <= i < j < buckets_upto(hits, recents, n).len() ==> hit_key(
                #[trigger] buckets_upto(hits, recents, n)[i],
                recents,
            ) <= hit_key(#[trigger] buckets_upto(hits, recents, n)[j], recents),
    decreases n,
{
    if n == 0 {
        assert(count_below(hits, recents, 0) == 0) by {
            lemma_count_below_zero(hits, recents);
        }
    } else {
        lemma_buckets_upto(hits, recents, (n - 1) as nat);
        lemma_bucket_keys(hits, recents, n - 1);
        lemma_count_below_step(hits, recents, n as int);
        let a = buckets_upto(hits, recents, (n - 1) as nat);
        let b = bucket(hits, recents, n - 1);
        let r = buckets_upto(hits, recents, n);
        assert(r == a + b);
        assert forall|i: int| 0 <= i < r.len() implies 0 <= hit_key(#[trigger] r[i], recents) < n by {
            if i < a.len() {
                assert(r[i] == a[i]);
            } else {
                assert(r[i] == b[i - a.len()]);
            }
        }
        assert forall|i: int, j: int| 0 <= i < j < r.len() implies hit_key(#[trigger] r[i], recents)
            <= hit_key(#[trigger] r[j], recents) by {
            if j < a.len() {
                assert(r[i] == a[i] && r[j] == a[j]);
            } else if i < a.len() {
                assert(r[i] == a[i] && r[j] == b[j - a.len()]);
            } else {
                assert(r[i] == b[i - a.len()] && r[j] == b[j - a.len()]);
            }
        }
    }
}

proof fn lemma_count_below_zero(hits: Seq<SearchHitView>, recents: Seq<Seq<char>>)
    ensures
        count_below(hits, recents, 0) == 0,
    decreases hits.len(),
{
    if hits.len() > 0 {
        lemma_count_below_zero(hits.drop_last(), recents);
    }
}

/// The recents tier comes first and in `recents` order (hits sort by their
/// rank in `recents`, every other hit after them), and no hit is lost or
/// added.
pub proof fn lemma_promote_recents_sorted(hits: Seq<SearchHitView>, recents: Seq<Seq<char>>)
    ensures
        spec_promote_recents(hits, recents).len() == hits.len(),
        forall|i: int, j: int|
            0 <= i < j < hits.len() ==> hit_key(
                #[trigger] spec_promote_recents(hits, recents)[i],
                recents,
            ) <= hit_key(#[trigger] spec_promote_recents(hits, recents)[j], recents),
{
    if recents.len() > 0 && hits.len() > 0 {
        lemma_buckets_upto(hits, recents, recents.len() + 1);
        lemma_count_below_all(hits, recents);
    } else if recents.len() == 0 {
        assert forall|i: int, j: int| 0 <= i < j < hits.len() implies hit_key(
            #[trigger] spec_promote_recents(hits, recents)[i],
            recents,
        ) <= hit_key(#[trigger] spec_promote_recents(hits, recents)[j], recents) by {
            lemma_key_nonneg(hits[i], recents);
            lemma_key_nonneg(hits[j], recents);
        }
    }
}

/// Snapshot of the foreground app taken when the picker opens.
#[derive(Debug, Clone)]
pub struct ForegroundSnapshot {
    pub bundle_id: Option<String>,
    pub executable: Option<String>,
    pub window_title: Option<String>,
    /// Milliseconds on the caller's monotonic clock when it was taken.
    pub captured_at_ms: Option<u64>,
    /// Opaque handle for restoration. Mac: `pid_t`. Win: `HWND` as u64.
    pub handle: Option<u64>,
}

impl Default for ForegroundSnapshot {
    fn default() -> (r: Self)
        ensures
            r.bundle_id is None,
            r.executable is None,
            r.window_title is None,
            r.captured_at_ms is None,
            r.handle is None,
    {
        ForegroundSnapshot {
            bundle_id: None,
            executable: None,
            window_title: None,
            captured_at_ms: None,
            handle: None,
        }
    }
}

/// The frontmost macOS app as the workspace reports it.
#[derive(Debug, Clone)]
pub struct FrontmostApp {
    pub bundle_id: Option<String>,
    pub executable_path: Option<String>,
    pub pid: Option<i32>,
}

impl Default for FrontmostApp {
    fn default() -> (r: Self)
        ensures
            r.bundle_id is None,
            r.executable_path is None,
            r.pid is None,
    {
        FrontmostApp { bundle_id: None, executable_path: None, pid: None }
    }
}

/// A macOS focus snapshot: the frontmost app, restored by pid; macOS gives
/// no window title here.
pub fn snapshot_of_frontmost(app: FrontmostApp, now_ms: u64) -> (r: ForegroundSnapshot)
    ensures
        r.bundle_id == app.bundle_id,
        r.executable == app.executable_path,
        r.window_title is None,
        r.captured_at_ms == Some(now_ms),
        r.handle == match app.pid {
            Some(p) => Some(p as u64),
            None => None::<u64>,
        },
{
    let handle = match app.pid {
        Some(p) => Some(p as u64),
        None => None,
    };
    ForegroundSnapshot {
        bundle_id: app.bundle_id,
        executable: app.executable_path,
        window_title: None,
        captured_at_ms: Some(now_ms),
        handle,
    }
}

/// The window a Windows focus snapshot restores to, and its title: the first
/// acceptable candidate in z-order, else the raw foreground window.
pub fn restore_target(
    foreground_raw: u64,
    foreground_title: Option<String>,
    candidates: &[CandidateWindow],
) -> (r: (u64, Option<String>))
    ensures
        match select_target_spec(candidates@) {
            Some(i) => r.0 == candidates@[i].hwnd_raw && r.1 == candidates@[i].title,
            None => r.0 == foreground_raw && r.1 == foreground_title,
        },
{
    match select_target(candidates) {
        Some(c) => {
            proof {
                let i = choose|i: int|
                    0 <= i < candidates@.len() && i < crate::capture::SELECT_CAP && *c
                        == candidates@[i] && c.spec_acceptable() && forall|j: int|
                        0 <= j < i ==> !#[trigger] candidates@[j].spec_acceptable();
                let k = select_target_spec(candidates@)->0;
                assert(candidates@[i].spec_acceptable());
                assert(k == i) by {
                    if k < i {
                        assert(!candidates@[k].spec_acceptable());
                    }
                    if i < k {
                        assert(!candidates@[i].spec_acceptable());
                    }
                }
            }
            (c.hwnd_raw, clone_opt(&c.title))
        },
        None => (foreground_raw, foreground_title),
    }
}

/// Index of the first acceptable candidate among the first ten.
pub open spec fn select_target_spec(cs: Seq<CandidateWindow>) -> Option<int> {
    if exists|i: int|
        0 <= i < cs.len() && i < crate::capture::SELECT_CAP && #[trigger] cs[i].spec_acceptable() {
        Some(
            choose|i: int|
                {
                    &&& 0 <= i < cs.len()
                    &&& i < crate::capture::SELECT_CAP
                    &&& cs[i].spec_acceptable()
                    &&& forall|j: int| 0 <= j < i ==> !#[trigger] cs[j].spec_acceptable()
                },
        )
    } else {
        None
    }
}

/// One tick of waiting for a restored window to become foreground.
#[derive(Debug, Clone, Copy, PartialEq, Eq, Structural)]
pub enum WaitStep {
    /// The transfer was observed.
    Arrived,
    /// The timeout passed first.
    TimedOut,
    /// Check again after a short sleep.
    Poll,
}

/// The foreground window is checked before the clock, so a transfer seen
/// at the deadline still counts.
pub fn wait_step(target_is_foreground: bool, elapsed_ms: u64, timeout_ms: u64) -> (r: WaitStep)
    ensures
        r == if target_is_foreground {
            WaitStep::Arrived
        } else if elapsed_ms >= timeout_ms {
            WaitStep::TimedOut
        } else {
            WaitStep::Poll
        },
{
    if target_is_foreground {
        WaitStep::Arrived
    } else if elapsed_ms >= timeout_ms {
        WaitStep::TimedOut
    } else {
        WaitStep::Poll
    }
}

/// Blind fallback delay before typing when the transfer could not be
/// confirmed, in milliseconds.
pub const RESTORATION_DELAY_MS: u64 = 150;

/// Upper bound for waiting on a focus transfer, in milliseconds.
pub const RESTORATION_TIMEOUT_MS: u64 = 400;

/// Whether `summon_picker` should snapshot the foreground app.
#[derive(Debug, Clone, Copy, PartialEq, Eq, Structural)]
pub enum FocusCapture {
    Take,
    /// The caller already captured (the Windows native menu does this
    /// before its helper window takes the foreground).
    AlreadyTaken,
}

/// A picker open snapshots the foreground only when the picker is not
/// already showing and the caller has not captured it already.
pub fn should_capture_focus(already_visible: bool, capture: FocusCapture) -> (r: bool)
    ensures
        r == (!already_visible && capture == FocusCapture::Take),
{
    !already_visible && capture == FocusCapture::Take
}

} // verus!
