use prompt_player::sequence::{
    sequence_next, PlayOutcome, SequenceAction, SequenceEvent, SequencePhase, SequenceState,
    SequenceStep, WAIT_SLICE_MS,
};

fn done(visible_chars: usize) -> PlayOutcome {
    PlayOutcome { completed: true, visible_chars, focus_changed: false }
}

fn tick(now_ms: u64) -> SequenceEvent {
    SequenceEvent::Tick { now_ms, cancelled: false, focus_lost: false, paused: false }
}

/// "first", a wait of `wait_ms`, then "second".
fn two_steps(wait_ms: u64) -> Vec<SequenceStep> {
    vec![
        SequenceStep { submit: true, wait_after_ms: Some(wait_ms) },
        SequenceStep { submit: false, wait_after_ms: None },
    ]
}

#[test]
fn a_sequence_types_every_step_and_submits_all_but_the_last() {
    let steps = two_steps(10);
    let mut played = Vec::new();
    let (s, a) = sequence_next(&steps, false, false, SequenceState::new(), SequenceEvent::Start);
    played.push(a);
    let (s, a) = sequence_next(&steps, false, false, s, SequenceEvent::StepPlayed { outcome: done(5), now_ms: 100 });
    assert_eq!(a, SequenceAction::Check);
    assert_eq!(s.phase, SequencePhase::Waiting { deadline_ms: 110 });
    let (s, a) = sequence_next(&steps, false, false, s, tick(105));
    assert_eq!(a, SequenceAction::Sleep(5));
    let (s, a) = sequence_next(&steps, false, false, s, tick(110));
    played.push(a);
    let (_, a) = sequence_next(&steps, false, false, s, SequenceEvent::StepPlayed { outcome: done(6), now_ms: 200 });
    assert_eq!(a, SequenceAction::Finish(done(11)));
    // Exactly one submitting Enter: after step one, not after step two.
    assert_eq!(
        played,
        vec![
            SequenceAction::PlayStep { index: 0, send_final_enter: true, include_pre_typing_pause: false },
            SequenceAction::PlayStep { index: 1, send_final_enter: false, include_pre_typing_pause: false },
        ]
    );
}

#[test]
fn cancelling_during_the_wait_stops_before_the_follow_up() {
    let steps = two_steps(30_000);
    let (s, _) = sequence_next(&steps, false, false, SequenceState::new(), SequenceEvent::Start);
    let (s, _) = sequence_next(&steps, false, false, s, SequenceEvent::StepPlayed { outcome: done(5), now_ms: 0 });
    let (s, a) = sequence_next(&steps, false, false, s, tick(50));
    assert_eq!(a, SequenceAction::Sleep(WAIT_SLICE_MS));
    let (s, a) = sequence_next(
        &steps,
        false,
        false,
        s,
        SequenceEvent::Tick { now_ms: 120, cancelled: true, focus_lost: false, paused: false },
    );
    // Abort: modifiers released, the follow-up never played, long before 30 s.
    assert_eq!(a, SequenceAction::Abort(PlayOutcome { completed: false, visible_chars: 5, focus_changed: false }));
    assert_eq!(s.phase, SequencePhase::Finished);
    assert_eq!(s.index, 0);
}

#[test]
fn losing_focus_during_the_wait_abandons_the_follow_up() {
    let steps = two_steps(30_000);
    let (s, _) = sequence_next(&steps, false, false, SequenceState::new(), SequenceEvent::Start);
    let (s, _) = sequence_next(&steps, false, false, s, SequenceEvent::StepPlayed { outcome: done(5), now_ms: 0 });
    let (s, a) = sequence_next(
        &steps,
        false,
        false,
        s,
        SequenceEvent::Tick { now_ms: 120, cancelled: false, focus_lost: true, paused: false },
    );
    assert_eq!(a, SequenceAction::Abort(PlayOutcome { completed: false, visible_chars: 5, focus_changed: true }));
    assert_eq!(s.index, 0);
}

#[test]
fn a_single_step_sequence_is_not_force_submitted() {
    let steps = vec![SequenceStep { submit: false, wait_after_ms: None }];
    let (s, a) = sequence_next(&steps, false, false, SequenceState::new(), SequenceEvent::Start);
    assert_eq!(a, SequenceAction::PlayStep { index: 0, send_final_enter: false, include_pre_typing_pause: false });
    let (_, a) = sequence_next(&steps, false, false, s, SequenceEvent::StepPlayed { outcome: done(8), now_ms: 0 });
    assert_eq!(a, SequenceAction::Finish(done(8)));
}

#[test]
fn a_pause_while_parked_pushes_the_deadline_out() {
    let steps = two_steps(100);
    let (s, _) = sequence_next(&steps, false, false, SequenceState::new(), SequenceEvent::Start);
    let (s, _) = sequence_next(&steps, false, false, s, SequenceEvent::StepPlayed { outcome: done(1), now_ms: 0 });
    let (s, a) = sequence_next(
        &steps,
        false,
        false,
        s,
        SequenceEvent::Tick { now_ms: 60, cancelled: false, focus_lost: false, paused: true },
    );
    assert_eq!(a, SequenceAction::Sleep(50));
    assert_eq!(s.phase, SequencePhase::Waiting { deadline_ms: 150 });
    // At the old deadline the follow-up still waits.
    let (_, a) = sequence_next(&steps, false, false, s, tick(100));
    assert_eq!(a, SequenceAction::Sleep(50));
}

#[test]
fn only_the_first_step_gets_the_thinking_beat() {
    let steps = vec![
        SequenceStep { submit: true, wait_after_ms: None },
        SequenceStep { submit: false, wait_after_ms: None },
    ];
    let (s, a) = sequence_next(&steps, false, true, SequenceState::new(), SequenceEvent::Start);
    assert_eq!(a, SequenceAction::PlayStep { index: 0, send_final_enter: true, include_pre_typing_pause: true });
    let (_, a) = sequence_next(&steps, true, true, s, SequenceEvent::StepPlayed { outcome: done(1), now_ms: 0 });
    // The profile's own submit setting still holds for the last step.
    assert_eq!(a, SequenceAction::PlayStep { index: 1, send_final_enter: true, include_pre_typing_pause: false });
}

#[test]
fn a_step_that_did_not_finish_ends_the_sequence() {
    let steps = two_steps(10);
    let (s, _) = sequence_next(&steps, false, false, SequenceState::new(), SequenceEvent::Start);
    let (s, a) = sequence_next(
        &steps,
        false,
        false,
        s,
        SequenceEvent::StepPlayed {
            outcome: PlayOutcome { completed: false, visible_chars: 3, focus_changed: true },
            now_ms: 0,
        },
    );
    assert_eq!(a, SequenceAction::Finish(PlayOutcome { completed: false, visible_chars: 3, focus_changed: true }));
    assert_eq!(s.phase, SequencePhase::Finished);
    let (_, a) = sequence_next(&steps, false, false, s, tick(5));
    assert_eq!(a, SequenceAction::Nothing);
}

#[test]
fn an_empty_sequence_completes_at_once() {
    let (s, a) = sequence_next(&[], false, false, SequenceState::new(), SequenceEvent::Start);
    assert_eq!(a, SequenceAction::Finish(done(0)));
    assert_eq!(s.phase, SequencePhase::Finished);
}
