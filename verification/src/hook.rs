//! The keyboard-hook decision: one key event in, the verdict (pass the key
//! on, or swallow it) and the side effects the host must carry out.
//!
//! Each platform hook translates its native event into a `KeyEvent` and calls
//! `process_event`, the single source of truth for the arming and Secure
//! Input gates, backspace-undo, the panic ring during playback, the `\>`
//! escape hatch and trigger matching.

use crate::matcher::{
    MatcherState, MatchView, RING_CAPACITY, PromptId, spec_match_all, ring_after_push, KeyEntry, match_views,
    TriggerView,
};
use vstd::prelude::*;

verus! {

/// One key press, as the platform layer saw it.
#[derive(Debug, Clone, Copy)]
pub struct KeyEvent {
    /// The char this keystroke produces, if any.
    pub typed: Option<char>,
    /// Backspace pressed.
    pub is_backspace: bool,
    /// A bare modifier press.
    pub is_pure_modifier: bool,
    /// Return / Tab: no char, but a word boundary.
    pub is_separator: bool,
    /// Escape pressed.
    pub is_escape: bool,
}

impl Default for KeyEvent {
    fn default() -> (r: Self)
        ensures
            r.typed is None,
            !r.is_backspace,
            !r.is_pure_modifier,
            !r.is_separator,
            !r.is_escape,
    {
        KeyEvent {
            typed: None,
            is_backspace: false,
            is_pure_modifier: false,
            is_separator: false,
            is_escape: false,
        }
    }
}

/// Pass the key to the focused app, or swallow it.
#[derive(Debug, Clone, Copy, PartialEq, Eq, Structural)]
pub enum HookDecision {
    Pass,
    Suppress,
}

/// What the hook needs to know about the app at this key press.
#[derive(Debug, Clone, Copy)]
pub struct HookInputs {
    pub armed: bool,
    /// macOS Secure Event Input is engaged (always false on Windows).
    pub secure_input_active: bool,
    /// A playback is typing right now.
    pub playing: bool,
    /// A backspace-undo is on offer.
    pub undo_recent: bool,
    /// The global commit char.
    pub commit_char: char,
}

/// Work the host does after the decision, in order.
#[derive(Debug, Clone)]
pub enum HookEffect {
    /// The Secure Input gate swallowed a commit char.
    BlockedCommit,
    /// Run the backspace-undo.
    Undo,
    /// A backspace during playback: count it toward the panic ring and cancel
    /// the playback when the ring trips.
    PanicBackspace,
    /// A keystroke during playback: count it toward the panic ring and cancel
    /// the playback, attributed to user keystrokes, when the ring trips.
    PanicKeystroke,
    /// Esc during playback: cancel now, attributed to Esc.
    CancelEsc,
    /// `\` then a commit char: type the commit char literally.
    LiteralCommit(char),
    /// A commit char was typed while armed, matched or not.
    CommitObserved { matched: bool, index_len: usize },
    /// A trigger matched: fire one of these prompts.
    Fire { prompt_ids: Vec<PromptId>, typed_form: String },
}

pub enum EffectView {
    BlockedCommit,
    Undo,
    PanicBackspace,
    PanicKeystroke,
    CancelEsc,
    LiteralCommit(char),
    CommitObserved { matched: bool, index_len: int },
    Fire { prompt_ids: Seq<Seq<char>>, typed_form: Seq<char> },
}

impl View for HookEffect {
    type V = EffectView;

    open spec fn view(&self) -> EffectView {
        match self {
            HookEffect::BlockedCommit => EffectView::BlockedCommit,
            HookEffect::Undo => EffectView::Undo,
            HookEffect::PanicBackspace => EffectView::PanicBackspace,
            HookEffect::PanicKeystroke => EffectView::PanicKeystroke,
            HookEffect::CancelEsc => EffectView::CancelEsc,
            HookEffect::LiteralCommit(c) => EffectView::LiteralCommit(*c),
            HookEffect::CommitObserved { matched, index_len } => EffectView::CommitObserved {
                matched: *matched,
                index_len: *index_len as int,
            },
            HookEffect::Fire { prompt_ids, typed_form } => EffectView::Fire {
                prompt_ids: prompt_ids@.map_values(|p: PromptId| p@),
                typed_form: typed_form@,
            },
        }
    }
}

/// The decision and its effects.
#[derive(Debug)]
pub struct HookOutcome {
    pub decision: HookDecision,
    pub effects: Vec<HookEffect>,
}

/// What `process_event` decides: verdict, effects, and the keystroke ring
/// afterwards.
pub struct HookSpec {
    pub decision: HookDecision,
    pub effects: Seq<EffectView>,
    pub buffer: Seq<KeyEntry>,
}

/// The ring after a backspace: the last entry goes, if there is one.
pub open spec fn ring_after_backspace(b: Seq<KeyEntry>) -> Seq<KeyEntry> {
    b.take(if b.len() == 0 { 0 } else { b.len() - 1 })
}

/// The ring after dropping its last `n` entries.
pub open spec fn ring_after_pop(b: Seq<KeyEntry>, n: int) -> Seq<KeyEntry> {
    b.take(if n >= b.len() { 0 } else { b.len() - n })
}

/// Whether `c` commits: the global commit char or any trigger's own.
pub open spec fn commits(index: Seq<TriggerView>, commit_char: char, c: char) -> bool {
    c == commit_char || exists|i: int| 0 <= i < index.len() && #[trigger] index[i].commit_char == c
}

/// The ids of a match list.
pub open spec fn prompt_ids_of(m: Seq<MatchView>) -> Seq<Seq<char>> {
    m.map_values(|x: MatchView| x.prompt_id)
}

/// A commit char typed while armed, outside playback and Secure Input.
pub open spec fn spec_commit(
    c: char,
    index: Seq<TriggerView>,
    buffer: Seq<KeyEntry>,
    now: u64,
) -> HookSpec {
    if buffer.len() > 0 && buffer.last().ch == '\\' {
        HookSpec {
            decision: HookDecision::Suppress,
            effects: seq![EffectView::LiteralCommit(c)],
            buffer: ring_after_push(ring_after_pop(buffer, 1), KeyEntry { ch: c, at: now }),
        }
    } else {
        let cands = spec_match_all(index, buffer, c, now);
        let observed = EffectView::CommitObserved {
            matched: cands.len() > 0,
            index_len: index.len() as int,
        };
        if cands.len() > 0 {
            HookSpec {
                decision: HookDecision::Suppress,
                effects: seq![
                    observed,
                    EffectView::Fire {
                        prompt_ids: prompt_ids_of(cands),
                        typed_form: cands[0].typed_form,
                    },
                ],
                buffer: ring_after_pop(buffer, cands[0].pop_chars),
            }
        } else {
            HookSpec {
                decision: HookDecision::Pass,
                effects: seq![observed],
                buffer: ring_after_push(buffer, KeyEntry { ch: c, at: now }),
            }
        }
    }
}

/// The hook's verdict for one event.
pub open spec fn spec_process_event(
    evt: KeyEvent,
    inputs: HookInputs,
    index: Seq<TriggerView>,
    buffer: Seq<KeyEntry>,
    now: u64,
) -> HookSpec {
    let pass = HookSpec { decision: HookDecision::Pass, effects: Seq::empty(), buffer };
    if !inputs.armed {
        pass
    } else if inputs.secure_input_active {
        match evt.typed {
            Some(c) => if commits(index, inputs.commit_char, c) {
                HookSpec {
                    decision: HookDecision::Pass,
                    effects: seq![EffectView::BlockedCommit],
                    buffer,
                }
            } else {
                pass
            },
            None => pass,
        }
    } else if evt.is_backspace {
        if !inputs.playing && inputs.undo_recent {
            HookSpec { decision: HookDecision::Suppress, effects: seq![EffectView::Undo], buffer }
        } else {
            HookSpec {
                decision: HookDecision::Pass,
                effects: if inputs.playing {
                    seq![EffectView::PanicBackspace]
                } else {
                    Seq::empty()
                },
                buffer: ring_after_backspace(buffer),
            }
        }
    } else if inputs.playing {
        if evt.is_escape {
            HookSpec {
                decision: HookDecision::Suppress,
                effects: seq![EffectView::CancelEsc],
                buffer,
            }
        } else {
            HookSpec {
                decision: HookDecision::Pass,
                effects: if !evt.is_pure_modifier {
                    seq![EffectView::PanicKeystroke]
                } else {
                    Seq::empty()
                },
                buffer: match evt.typed {
                    Some(c) => ring_after_push(buffer, KeyEntry { ch: c, at: now }),
                    None => if evt.is_separator {
                        ring_after_push(buffer, KeyEntry { ch: '\n', at: now })
                    } else {
                        buffer
                    },
                },
            }
        }
    } else if evt.is_separator {
        HookSpec {
            decision: HookDecision::Pass,
            effects: Seq::empty(),
            buffer: ring_after_push(buffer, KeyEntry { ch: '\n', at: now }),
        }
    } else {
        match evt.typed {
            None => pass,
            Some(c) => if commits(index, inputs.commit_char, c) {
                spec_commit(c, index, buffer, now)
            } else {
                HookSpec {
                    decision: HookDecision::Pass,
                    effects: Seq::empty(),
                    buffer: ring_after_push(buffer, KeyEntry { ch: c, at: now }),
                }
            },
        }
    }
}

pub open spec fn effect_views(v: Seq<HookEffect>) -> Seq<EffectView> {
    v.map_values(|e: HookEffect| e@)
}

/// Decide one key event. The matcher's ring is updated as the focused app
/// would see the keystroke; the index is never touched.
pub fn process_event(
    evt: &KeyEvent,
    inputs: &HookInputs,
    matcher: &mut MatcherState,
    now: u64,
) -> (r: HookOutcome)
    ensures
        ({
            let s = spec_process_event(*evt, *inputs, old(matcher).index@, old(matcher).buffer@, now);
            &&& r.decision == s.decision
            &&& effect_views(r.effects@) == s.effects
            &&& final(matcher).buffer@ == s.buffer
            &&& final(matcher).index@ == old(matcher).index@
        }),
{
    let mut effects: Vec<HookEffect> = Vec::new();
    if !inputs.armed {
        assert(effect_views(effects@) =~= Seq::<EffectView>::empty());
        return HookOutcome { decision: HookDecision::Pass, effects };
    }
    if inputs.secure_input_active {
        if let Some(c) = evt.typed {
            if c == inputs.commit_char || matcher.is_commit_char(c) {
                effects.push(HookEffect::BlockedCommit);
                assert(effect_views(effects@) =~= seq![EffectView::BlockedCommit]);
                return HookOutcome { decision: HookDecision::Pass, effects };
            }
        }
        assert(effect_views(effects@) =~= Seq::<EffectView>::empty());
        return HookOutcome { decision: HookDecision::Pass, effects };
    }
    if evt.is_backspace {
        if !inputs.playing && inputs.undo_recent {
            effects.push(HookEffect::Undo);
            assert(effect_views(effects@) =~= seq![EffectView::Undo]);
            return HookOutcome { decision: HookDecision::Suppress, effects };
        }
        matcher.observe_backspace(now);
        if inputs.playing {
            effects.push(HookEffect::PanicBackspace);
            assert(effect_views(effects@) =~= seq![EffectView::PanicBackspace]);
        } else {
            assert(effect_views(effects@) =~= Seq::<EffectView>::empty());
        }
        return HookOutcome { decision: HookDecision::Pass, effects };
    }
    if inputs.playing {
        if evt.is_escape {
            effects.push(HookEffect::CancelEsc);
            assert(effect_views(effects@) =~= seq![EffectView::CancelEsc]);
            return HookOutcome { decision: HookDecision::Suppress, effects };
        }
        if !evt.is_pure_modifier {
            effects.push(HookEffect::PanicKeystroke);
            assert(effect_views(effects@) =~= seq![EffectView::PanicKeystroke]);
        } else {
            assert(effect_views(effects@) =~= Seq::<EffectView>::empty());
        }
        if let Some(c) = evt.typed {
            matcher.observe_char(c, now);
        } else if evt.is_separator {
            matcher.observe_separator(now);
        }
        return HookOutcome { decision: HookDecision::Pass, effects };
    }
    if evt.is_separator {
        matcher.observe_separator(now);
        assert(effect_views(effects@) =~= Seq::<EffectView>::empty());
        return HookOutcome { decision: HookDecision::Pass, effects };
    }
    let c = match evt.typed {
        Some(c) => c,
        None => {
            assert(effect_views(effects@) =~= Seq::<EffectView>::empty());
            return HookOutcome { decision: HookDecision::Pass, effects };
        },
    };
    if c == inputs.commit_char || matcher.is_commit_char(c) {
        if matcher.last_char() == Some('\\') {
            matcher.pop_last_chars(1);
            matcher.observe_char(c, now);
            effects.push(HookEffect::LiteralCommit(c));
            assert(effect_views(effects@) =~= seq![EffectView::LiteralCommit(c)]);
            return HookOutcome { decision: HookDecision::Suppress, effects };
        }
        let candidates = matcher.try_match_all(c, now);
        let index_len = matcher.index.len();
        let matched = candidates.len() > 0;
        effects.push(HookEffect::CommitObserved { matched, index_len });
        if matched {
            let typed_form = candidates[0].typed_form.clone();
            let pop_chars = candidates[0].pop_chars;
            let mut ids: Vec<PromptId> = Vec::new();
            let mut i: usize = 0;
            let ghost mv = match_views(candidates@);
            while i < candidates.len()
                invariant
                    i <= candidates@.len(),
                    mv == match_views(candidates@),
                    ids@.map_values(|p: PromptId| p@) == prompt_ids_of(mv).take(i as int),
                decreases candidates@.len() - i,
            {
                let ghost prev = ids@.map_values(|p: PromptId| p@);
                ids.push(candidates[i].prompt_id.clone());
                assert(ids@.map_values(|p: PromptId| p@) =~= prev.push(mv[i as int].prompt_id));
                assert(ids@.map_values(|p: PromptId| p@) =~= prompt_ids_of(mv).take(i + 1));
                i = i + 1;
            }
            assert(prompt_ids_of(mv).take(i as int) =~= prompt_ids_of(mv));
            matcher.pop_last_chars(pop_chars);
            let ghost first = effects@[0]@;
            effects.push(HookEffect::Fire { prompt_ids: ids, typed_form });
            assert(effect_views(effects@) =~= seq![
                first,
                EffectView::Fire { prompt_ids: prompt_ids_of(mv), typed_form: mv[0].typed_form },
            ]);
            return HookOutcome { decision: HookDecision::Suppress, effects };
        }
        matcher.observe_char(c, now);
        assert(effect_views(effects@) =~= seq![
            EffectView::CommitObserved { matched: false, index_len: index_len as int },
        ]);
        return HookOutcome { decision: HookDecision::Pass, effects };
    }
    matcher.observe_char(c, now);
    assert(effect_views(effects@) =~= Seq::<EffectView>::empty());
    HookOutcome { decision: HookDecision::Pass, effects }
}


/// Disarmed, the hook is invisible: every key passes, nothing happens, and
/// the ring is left as it was.
pub proof fn lemma_disarmed_passes_everything(
    evt: KeyEvent,
    inputs: HookInputs,
    index: Seq<TriggerView>,
    buffer: Seq<KeyEntry>,
    now: u64,
)
    requires
        !inputs.armed,
    ensures
        spec_process_event(evt, inputs, index, buffer, now).decision == HookDecision::Pass,
        spec_process_event(evt, inputs, index, buffer, now).effects.len() == 0,
        spec_process_event(evt, inputs, index, buffer, now).buffer == buffer,
{
}

/// Near a password field (Secure Input engaged) nothing is swallowed and
/// nothing fires; at most a lost commit char is counted.
pub proof fn lemma_secure_input_never_suppresses(
    evt: KeyEvent,
    inputs: HookInputs,
    index: Seq<TriggerView>,
    buffer: Seq<KeyEntry>,
    now: u64,
)
    requires
        inputs.armed,
        inputs.secure_input_active,
    ensures
        ({
            let s = spec_process_event(evt, inputs, index, buffer, now);
            &&& s.decision == HookDecision::Pass
            &&& s.buffer == buffer
            &&& s.effects.len() <= 1
            &&& s.effects.len() == 1 ==> s.effects[0] == EffectView::BlockedCommit
        }),
{
}

/// A key is swallowed only for a reason the user asked for: a backspace
/// that undoes, an Esc that stops a playback, an escaped commit char typed
/// literally, or a commit char that fired a prompt.
pub proof fn lemma_suppress_has_a_reason(
    evt: KeyEvent,
    inputs: HookInputs,
    index: Seq<TriggerView>,
    buffer: Seq<KeyEntry>,
    now: u64,
)
    ensures
        ({
            let s = spec_process_event(evt, inputs, index, buffer, now);
            s.decision == HookDecision::Suppress ==> {
                ||| s.effects == seq![EffectView::Undo]
                ||| s.effects == seq![EffectView::CancelEsc]
                ||| (s.effects.len() == 1 && s.effects[0] is LiteralCommit)
                ||| (s.effects.len() == 2 && s.effects[1] is Fire)
            }
        }),
{
}

/// A failed match lets the commit char through: typed while armed and idle
/// outside Secure Input, with no escape pending, a char that completes no
/// trigger reaches the app untouched and is recorded like any other char.
pub proof fn lemma_unmatched_commit_passes(
    evt: KeyEvent,
    inputs: HookInputs,
    index: Seq<TriggerView>,
    buffer: Seq<KeyEntry>,
    now: u64,
    c: char,
)
    requires
        inputs.armed,
        !inputs.secure_input_active,
        !inputs.playing,
        !evt.is_backspace,
        !evt.is_separator,
        evt.typed == Some(c),
        !(buffer.len() > 0 && buffer.last().ch == '\\'),
        spec_match_all(index, buffer, c, now).len() == 0,
    ensures
        spec_process_event(evt, inputs, index, buffer, now).decision == HookDecision::Pass,
        spec_process_event(evt, inputs, index, buffer, now).buffer == ring_after_push(
            buffer,
            KeyEntry { ch: c, at: now },
        ),
{
}

/// A Backspace that is not an undo passes through and removes the newest
/// entry of the keystroke ring, as the focused app removes the last char:
/// the ring after it is the ring before it without its last entry.
pub proof fn lemma_backspace_drops_the_newest_entry(
    evt: KeyEvent,
    inputs: HookInputs,
    index: Seq<TriggerView>,
    buffer: Seq<KeyEntry>,
    now: u64,
)
    requires
        inputs.armed,
        !inputs.secure_input_active,
        evt.is_backspace,
        inputs.playing || !inputs.undo_recent,
    ensures
        ({
            let after = spec_process_event(evt, inputs, index, buffer, now).buffer;
            &&& spec_process_event(evt, inputs, index, buffer, now).decision == HookDecision::Pass
            &&& buffer.len() > 0 ==> after.len() + 1 == buffer.len() && forall|i: int|
                0 <= i < after.len() ==> after[i] == buffer[i]
            &&& buffer.len() == 0 ==> after.len() == 0
        }),
{
}

/// Typing a char that commits nothing and then deleting it with Backspace
/// leaves the keystroke ring as it was (while the ring has room).
pub proof fn lemma_type_then_backspace_restores_ring(
    typed: KeyEvent,
    backspace: KeyEvent,
    inputs: HookInputs,
    index: Seq<TriggerView>,
    buffer: Seq<KeyEntry>,
    t1: u64,
    t2: u64,
    c: char,
)
    requires
        inputs.armed,
        !inputs.secure_input_active,
        !inputs.playing,
        !inputs.undo_recent,
        typed.typed == Some(c),
        !typed.is_backspace,
        !typed.is_separator,
        !commits(index, inputs.commit_char, c),
        backspace.is_backspace,
        buffer.len() < RING_CAPACITY,
    ensures
        spec_process_event(
            backspace,
            inputs,
            index,
            spec_process_event(typed, inputs, index, buffer, t1).buffer,
            t2,
        ).buffer == buffer,
{
    let mid = spec_process_event(typed, inputs, index, buffer, t1).buffer;
    assert(mid == buffer.push(KeyEntry { ch: c, at: t1 }));
    assert(mid.take(mid.len() - 1) =~= buffer);
}

/// What the hook watcher does after one look at the hook.
#[derive(Debug, Clone, Copy, PartialEq, Eq, Structural)]
pub struct HookWatch {
    /// The state to compare the next look against.
    pub last_alive: bool,
    /// Report a change of state, in either direction: `Some(alive)`.
    pub report: Option<bool>,
    /// The hook is down although Accessibility is granted: spawn it again.
    pub respawn: bool,
}

/// One look of the hook watcher, as a value.
pub open spec fn spec_hook_watch(last_alive: bool, alive: bool, accessibility_trusted: bool) -> HookWatch {
    HookWatch {
        last_alive: alive,
        report: if alive != last_alive {
            Some(alive)
        } else {
            None
        },
        respawn: !alive && accessibility_trusted,
    }
}

/// One look of the macOS hook watcher: a change since the last look is
/// reported both ways (a repair is as worth knowing as a death), and a dead
/// hook is respawned once Accessibility has been granted.
pub fn hook_watch_step(last_alive: bool, alive: bool, accessibility_trusted: bool) -> (r: HookWatch)
    ensures
        r == spec_hook_watch(last_alive, alive, accessibility_trusted),
{
    let report = if alive != last_alive {
        Some(alive)
    } else {
        None
    };
    HookWatch { last_alive: alive, report, respawn: !alive && accessibility_trusted }
}

/// Each change is reported exactly once: the look that sees it reports the
/// new state, and a following look that sees the same state reports nothing.
pub proof fn lemma_watch_reports_each_change_once(
    last_alive: bool,
    alive: bool,
    trusted: bool,
    trusted_later: bool,
)
    requires
        alive != last_alive,
    ensures
        spec_hook_watch(last_alive, alive, trusted).report == Some(alive),
        spec_hook_watch(spec_hook_watch(last_alive, alive, trusted).last_alive, alive, trusted_later).report
            is None,
{
}

/// How long boot waits for the keyboard hook to come up before reporting.
pub const HOOK_SETTLE_MS: u64 = 750;

/// How often boot looks while it waits.
pub const HOOK_SETTLE_POLL_MS: u64 = 25;

/// The answer to one look while boot waits for the hook.
#[derive(Debug, Clone, Copy, PartialEq, Eq, Structural)]
pub enum SettleStep {
    /// Stop waiting; the hook's state is this.
    Done(bool),
    /// Sleep the poll interval and look again.
    Poll,
}

/// One look while boot waits for the asynchronous hook install: without
/// Accessibility there is nothing to wait for; within the settle window a
/// live hook ends the wait; after it, the state is what it is.
pub fn hook_settle_step(trusted: bool, alive: bool, elapsed_ms: u64) -> (r: SettleStep)
    ensures
        r == if !trusted || elapsed_ms >= HOOK_SETTLE_MS {
            SettleStep::Done(alive)
        } else if alive {
            SettleStep::Done(true)
        } else {
            SettleStep::Poll
        },
{
    if !trusted || elapsed_ms >= HOOK_SETTLE_MS {
        SettleStep::Done(alive)
    } else if alive {
        SettleStep::Done(true)
    } else {
        SettleStep::Poll
    }
}
} // verus!
