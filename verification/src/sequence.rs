//! The decisions of a multi-step playback: type each step, submit the ones
//! that have a follow-up, wait the author's interval between them, and stay
//! answerable to the kill switch, a focus change and the pause control while
//! parked. The host types, sleeps and samples the clock; this module says
//! what comes next.
use vstd::prelude::*;

verus! {

/// While parked between steps, the cancel, focus and pause checks run at
/// least this often.
pub const WAIT_SLICE_MS: u64 = 50;

/// One step of a sequence, as the playback needs it.
#[derive(Debug, Clone, Copy, PartialEq, Eq, Structural)]
pub struct SequenceStep {
    /// The step has a follow-up, so it must be sent with a final Enter or
    /// the wait before the follow-up means nothing.
    pub submit: bool,
    /// How long to wait after this step before typing the next, if at all.
    pub wait_after_ms: Option<u64>,
}

/// How a playback ended.
#[derive(Debug, Clone, Copy, PartialEq, Eq, Structural)]
pub struct PlayOutcome {
    pub completed: bool,
    /// Chars left visible on screen.
    pub visible_chars: usize,
    /// The playback stopped because focus moved to another window.
    pub focus_changed: bool,
}

/// Where a sequence stands.
#[derive(Debug, Clone, Copy, PartialEq, Eq, Structural)]
pub enum SequencePhase {
    NotStarted,
    /// Step `index` is being typed.
    Typing,
    /// Parked after step `index` until the clock reaches `deadline_ms`.
    Waiting { deadline_ms: u64 },
    Finished,
}

/// A running sequence: the current step, the chars typed so far, the phase.
#[derive(Debug, Clone, Copy, PartialEq, Eq, Structural)]
pub struct SequenceState {
    pub index: usize,
    pub visible_chars: usize,
    pub phase: SequencePhase,
}

/// What the host reports.
#[derive(Debug, Clone, Copy, PartialEq, Eq, Structural)]
pub enum SequenceEvent {
    Start,
    /// The step asked for finished typing at `now_ms`, with this outcome.
    StepPlayed { outcome: PlayOutcome, now_ms: u64 },
    /// A check while parked: the clock, and whether the playback was
    /// cancelled, focus was lost or the playback is paused.
    Tick { now_ms: u64, cancelled: bool, focus_lost: bool, paused: bool },
}

/// What the host does next.
#[derive(Debug, Clone, Copy, PartialEq, Eq, Structural)]
pub enum SequenceAction {
    /// Schedule and type step `index` with these overrides.
    PlayStep { index: usize, send_final_enter: bool, include_pre_typing_pause: bool },
    /// Report a `Tick` now.
    Check,
    /// Sleep this long, then report a `Tick`.
    Sleep(u64),
    /// Release every held modifier, then end with this outcome.
    Abort(PlayOutcome),
    /// End with this outcome.
    Finish(PlayOutcome),
    /// The event does not belong to this phase.
    Nothing,
}

impl SequenceState {
    /// A sequence that has not started.
    pub fn new() -> (r: Self)
        ensures
            r == (SequenceState { index: 0, visible_chars: 0, phase: SequencePhase::NotStarted }),
    {
        SequenceState { index: 0, visible_chars: 0, phase: SequencePhase::NotStarted }
    }
}

/// Typing step `index`: it is sent when it has a follow-up or the profile
/// sends anyway, and only the first step gets the pre-typing pause.
pub open spec fn play_step(
    steps: Seq<SequenceStep>,
    index: int,
    send_final_enter: bool,
    pre_typing_pause: bool,
) -> SequenceAction {
    SequenceAction::PlayStep {
        index: index as usize,
        send_final_enter: send_final_enter || steps[index].submit,
        include_pre_typing_pause: pre_typing_pause && index == 0,
    }
}

/// After step `s.index` is done and any wait is over: the next step, or the
/// end of a completed sequence.
pub open spec fn advance(
    steps: Seq<SequenceStep>,
    send_final_enter: bool,
    pre_typing_pause: bool,
    s: SequenceState,
) -> (SequenceState, SequenceAction) {
    if s.index + 1 < steps.len() {
        (
            SequenceState { index: (s.index + 1) as usize, phase: SequencePhase::Typing, ..s },
            play_step(steps, s.index + 1, send_final_enter, pre_typing_pause),
        )
    } else {
        (
            SequenceState { phase: SequencePhase::Finished, ..s },
            SequenceAction::Finish(
                PlayOutcome { completed: true, visible_chars: s.visible_chars, focus_changed: false },
            ),
        )
    }
}

/// The sequence's transitions.
pub open spec fn spec_sequence_next(
    steps: Seq<SequenceStep>,
    send_final_enter: bool,
    pre_typing_pause: bool,
    s: SequenceState,
    e: SequenceEvent,
) -> (SequenceState, SequenceAction) {
    match (s.phase, e) {
        (SequencePhase::NotStarted, SequenceEvent::Start) => if steps.len() == 0 {
            (
                SequenceState { phase: SequencePhase::Finished, ..s },
                SequenceAction::Finish(
                    PlayOutcome { completed: true, visible_chars: s.visible_chars, focus_changed: false },
                ),
            )
        } else {
            (
                SequenceState { index: 0, phase: SequencePhase::Typing, ..s },
                play_step(steps, 0, send_final_enter, pre_typing_pause),
            )
        },
        (SequencePhase::Typing, SequenceEvent::StepPlayed { outcome, now_ms }) => {
            let typed = (s.visible_chars + outcome.visible_chars) as usize;
            if !outcome.completed {
                (
                    SequenceState { visible_chars: typed, phase: SequencePhase::Finished, ..s },
                    SequenceAction::Finish(
                        PlayOutcome {
                            completed: false,
                            visible_chars: typed,
                            focus_changed: outcome.focus_changed,
                        },
                    ),
                )
            } else {
                match steps[s.index as int].wait_after_ms {
                    Some(w) => (
                        SequenceState {
                            visible_chars: typed,
                            phase: SequencePhase::Waiting { deadline_ms: (now_ms + w) as u64 },
                            ..s
                        },
                        SequenceAction::Check,
                    ),
                    None => advance(
                        steps,
                        send_final_enter,
                        pre_typing_pause,
                        SequenceState { visible_chars: typed, ..s },
                    ),
                }
            }
        },
        (
            SequencePhase::Waiting { deadline_ms },
            SequenceEvent::Tick { now_ms, cancelled, focus_lost, paused },
        ) => if now_ms >= deadline_ms {
            advance(steps, send_final_enter, pre_typing_pause, s)
        } else if cancelled {
            (
                SequenceState { phase: SequencePhase::Finished, ..s },
                SequenceAction::Abort(
                    PlayOutcome { completed: false, visible_chars: s.visible_chars, focus_changed: false },
                ),
            )
        } else if focus_lost {
            (
                SequenceState { phase: SequencePhase::Finished, ..s },
                SequenceAction::Abort(
                    PlayOutcome { completed: false, visible_chars: s.visible_chars, focus_changed: true },
                ),
            )
        } else if paused {
            (
                SequenceState {
                    phase: SequencePhase::Waiting { deadline_ms: (deadline_ms + WAIT_SLICE_MS) as u64 },
                    ..s
                },
                SequenceAction::Sleep(WAIT_SLICE_MS),
            )
        } else {
            (
                s,
                SequenceAction::Sleep(
                    if deadline_ms - now_ms < WAIT_SLICE_MS {
                        (deadline_ms - now_ms) as u64
                    } else {
                        WAIT_SLICE_MS
                    },
                ),
            )
        },
        _ => (s, SequenceAction::Nothing),
    }
}

/// The inputs on which a step stays within the machine's integers: the chars
/// typed so far plus a step's fit in `usize`, a wait's deadline and a
/// paused deadline fit in `u64`.
pub open spec fn sequence_step_fits(steps: Seq<SequenceStep>, s: SequenceState, e: SequenceEvent) -> bool {
    match (s.phase, e) {
        (SequencePhase::Typing, SequenceEvent::StepPlayed { outcome, now_ms }) => {
            &&& s.visible_chars + outcome.visible_chars <= usize::MAX
            &&& (s.index < steps.len() && outcome.completed) ==> match steps[s.index as int].wait_after_ms {
                Some(w) => now_ms + w <= u64::MAX,
                None => true,
            }
        },
        (SequencePhase::Waiting { deadline_ms }, SequenceEvent::Tick { paused, .. }) => paused
            ==> deadline_ms + WAIT_SLICE_MS <= u64::MAX,
        _ => true,
    }
}

/// Whether `s` is a state of a sequence over `steps`: a started, unfinished
/// sequence points at one of its steps.
pub open spec fn sequence_state_valid(steps: Seq<SequenceStep>, s: SequenceState) -> bool {
    (s.phase is Typing || s.phase is Waiting) ==> s.index < steps.len()
}

fn advance_exec(steps: &[SequenceStep], send_final_enter: bool, pre_typing_pause: bool, s: SequenceState)
    -> (r: (SequenceState, SequenceAction))
    requires
        s.index < steps@.len(),
    ensures
        r == advance(steps@, send_final_enter, pre_typing_pause, s),
{
    if s.index < steps.len() - 1 {
        let next = s.index + 1;
        (
            SequenceState { index: next, phase: SequencePhase::Typing, ..s },
            SequenceAction::PlayStep {
                index: next,
                send_final_enter: send_final_enter || steps[next].submit,
                include_pre_typing_pause: pre_typing_pause && next == 0,
            },
        )
    } else {
        (
            SequenceState { phase: SequencePhase::Finished, ..s },
            SequenceAction::Finish(
                PlayOutcome { completed: true, visible_chars: s.visible_chars, focus_changed: false },
            ),
        )
    }
}

/// One step of a multi-step playback over `steps`, where `send_final_enter`
/// is the profile's own submit setting and `pre_typing_pause` whether the
/// fire earned the pause before its first keystroke.
pub fn sequence_next(
    steps: &[SequenceStep],
    send_final_enter: bool,
    pre_typing_pause: bool,
    s: SequenceState,
    e: SequenceEvent,
) -> (r: (SequenceState, SequenceAction))
    requires
        sequence_state_valid(steps@, s),
        sequence_step_fits(steps@, s, e),
    ensures
        r == spec_sequence_next(steps@, send_final_enter, pre_typing_pause, s, e),
        sequence_state_valid(steps@, r.0),
{
    match (s.phase, e) {
        (SequencePhase::NotStarted, SequenceEvent::Start) => {
            if steps.len() == 0 {
                (
                    SequenceState { phase: SequencePhase::Finished, ..s },
                    SequenceAction::Finish(
                        PlayOutcome { completed: true, visible_chars: s.visible_chars, focus_changed: false },
                    ),
                )
            } else {
                (
                    SequenceState { index: 0, phase: SequencePhase::Typing, ..s },
                    SequenceAction::PlayStep {
                        index: 0,
                        send_final_enter: send_final_enter || steps[0].submit,
                        include_pre_typing_pause: pre_typing_pause,
                    },
                )
            }
        },
        (SequencePhase::Typing, SequenceEvent::StepPlayed { outcome, now_ms }) => {
            let typed = s.visible_chars + outcome.visible_chars;
            if !outcome.completed {
                (
                    SequenceState { visible_chars: typed, phase: SequencePhase::Finished, ..s },
                    SequenceAction::Finish(
                        PlayOutcome {
                            completed: false,
                            visible_chars: typed,
                            focus_changed: outcome.focus_changed,
                        },
                    ),
                )
            } else {
                match steps[s.index].wait_after_ms {
                    Some(w) => (
                        SequenceState {
                            visible_chars: typed,
                            phase: SequencePhase::Waiting { deadline_ms: now_ms + w },
                            ..s
                        },
                        SequenceAction::Check,
                    ),
                    None => advance_exec(
                        steps,
                        send_final_enter,
                        pre_typing_pause,
                        SequenceState { visible_chars: typed, ..s },
                    ),
                }
            }
        },
        (
            SequencePhase::Waiting { deadline_ms },
            SequenceEvent::Tick { now_ms, cancelled, focus_lost, paused },
        ) => {
            if now_ms >= deadline_ms {
                advance_exec(steps, send_final_enter, pre_typing_pause, s)
            } else if cancelled {
                (
                    SequenceState { phase: SequencePhase::Finished, ..s },
                    SequenceAction::Abort(
                        PlayOutcome { completed: false, visible_chars: s.visible_chars, focus_changed: false },
                    ),
                )
            } else if focus_lost {
                (
                    SequenceState { phase: SequencePhase::Finished, ..s },
                    SequenceAction::Abort(
                        PlayOutcome { completed: false, visible_chars: s.visible_chars, focus_changed: true },
                    ),
                )
            } else if paused {
                (
                    SequenceState {
                        phase: SequencePhase::Waiting { deadline_ms: deadline_ms + WAIT_SLICE_MS },
                        ..s
                    },
                    SequenceAction::Sleep(WAIT_SLICE_MS),
                )
            } else {
                let left = deadline_ms - now_ms;
                let nap = if left < WAIT_SLICE_MS {
                    left
                } else {
                    WAIT_SLICE_MS
                };
                (s, SequenceAction::Sleep(nap))
            }
        },
        _ => (s, SequenceAction::Nothing),
    }
}

/// A pause while parked holds everything: nothing is typed, and the deadline
/// moves out by exactly the slice that was slept, so the author's wait is not
/// consumed.
pub proof fn lemma_pause_extends_the_wait(
    steps: Seq<SequenceStep>,
    send_final_enter: bool,
    pre_typing_pause: bool,
    s: SequenceState,
    now_ms: u64,
    deadline_ms: u64,
)
    requires
        s.phase == (SequencePhase::Waiting { deadline_ms }),
        now_ms < deadline_ms,
        deadline_ms + WAIT_SLICE_MS <= u64::MAX,
    ensures
        ({
            let r = spec_sequence_next(
                steps,
                send_final_enter,
                pre_typing_pause,
                s,
                SequenceEvent::Tick { now_ms, cancelled: false, focus_lost: false, paused: true },
            );
            &&& r.1 == SequenceAction::Sleep(WAIT_SLICE_MS)
            &&& r.0.phase == (SequencePhase::Waiting { deadline_ms: (deadline_ms + WAIT_SLICE_MS) as u64 })
            &&& r.0.index == s.index
        }),
{
}

/// The kill switch reaches a parked sequence: before the wait is over a
/// cancel ends it at once, with modifiers released, nothing more typed and
/// the chars so far reported; a focus change does the same and says so.
pub proof fn lemma_parked_sequence_stops(
    steps: Seq<SequenceStep>,
    send_final_enter: bool,
    pre_typing_pause: bool,
    s: SequenceState,
    now_ms: u64,
    deadline_ms: u64,
    paused: bool,
)
    requires
        s.phase == (SequencePhase::Waiting { deadline_ms }),
        now_ms < deadline_ms,
    ensures
        spec_sequence_next(
            steps,
            send_final_enter,
            pre_typing_pause,
            s,
            SequenceEvent::Tick { now_ms, cancelled: true, focus_lost: false, paused },
        ).1 == SequenceAction::Abort(
            PlayOutcome { completed: false, visible_chars: s.visible_chars, focus_changed: false },
        ),
        spec_sequence_next(
            steps,
            send_final_enter,
            pre_typing_pause,
            s,
            SequenceEvent::Tick { now_ms, cancelled: false, focus_lost: true, paused },
        ).1 == SequenceAction::Abort(
            PlayOutcome { completed: false, visible_chars: s.visible_chars, focus_changed: true },
        ),
{
}

/// Only the first step gets the pre-typing pause, every step with a
/// follow-up is sent, and no step is played twice in a row.
pub proof fn lemma_step_overrides(
    steps: Seq<SequenceStep>,
    send_final_enter: bool,
    pre_typing_pause: bool,
    s: SequenceState,
    e: SequenceEvent,
)
    requires
        steps.len() <= usize::MAX,
        sequence_state_valid(steps, s),
    ensures
        ({
            let r = spec_sequence_next(steps, send_final_enter, pre_typing_pause, s, e);
            r.1 matches SequenceAction::PlayStep { index, send_final_enter: sent, include_pre_typing_pause: pause }
                ==> {
                &&& index < steps.len()
                &&& pause ==> index == 0
                &&& steps[index as int].submit ==> sent
                &&& (s.phase is Typing || s.phase is Waiting) ==> index == s.index + 1
            }
        }),
{
}

/// The chars typed so far never go down, and a step that did not complete
/// ends the sequence with its own focus verdict.
pub proof fn lemma_progress_is_kept(
    steps: Seq<SequenceStep>,
    send_final_enter: bool,
    pre_typing_pause: bool,
    s: SequenceState,
    e: SequenceEvent,
)
    requires
        sequence_state_valid(steps, s),
        sequence_step_fits(steps, s, e),
    ensures
        spec_sequence_next(steps, send_final_enter, pre_typing_pause, s, e).0.visible_chars
            >= s.visible_chars,
        e matches SequenceEvent::StepPlayed { outcome, .. } ==> ((s.phase is Typing && !outcome.completed)
            ==> spec_sequence_next(steps, send_final_enter, pre_typing_pause, s, e).1
            == SequenceAction::Finish(
            PlayOutcome {
                completed: false,
                visible_chars: (s.visible_chars + outcome.visible_chars) as usize,
                focus_changed: outcome.focus_changed,
            },
        )),
{
}

} // verus!
