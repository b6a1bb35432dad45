use prompt_player::hook::{process_event, HookDecision, HookEffect, HookInputs, KeyEvent};
use prompt_player::matcher::{MatcherState, TriggerEntry};

/// A host around `process_event`: it keeps the app flags and counts the
/// effects the way the real host reacts to them.
struct Harness {
    inputs: HookInputs,
    matcher: MatcherState,
    now: u64,
    fires: usize,
    commits: usize,
    literals: usize,
    undos: usize,
    blocked: usize,
    panic_keys: usize,
    esc_cancels: usize,
}

impl Harness {
    fn new() -> Self {
        Harness {
            inputs: HookInputs {
                armed: false,
                secure_input_active: false,
                playing: false,
                undo_recent: false,
                commit_char: '>',
            },
            matcher: MatcherState::new(),
            now: 1_000_000,
            fires: 0,
            commits: 0,
            literals: 0,
            undos: 0,
            blocked: 0,
            panic_keys: 0,
            esc_cancels: 0,
        }
    }

    fn armed() -> Self {
        let mut h = Harness::new();
        h.inputs.armed = true;
        h
    }

    fn send(&mut self, evt: &KeyEvent) -> HookDecision {
        self.now += 50;
        let out = process_event(evt, &self.inputs, &mut self.matcher, self.now);
        for e in &out.effects {
            match e {
                HookEffect::Fire { .. } => self.fires += 1,
                HookEffect::CommitObserved { .. } => self.commits += 1,
                HookEffect::LiteralCommit(_) => self.literals += 1,
                HookEffect::Undo => self.undos += 1,
                HookEffect::BlockedCommit => self.blocked += 1,
                HookEffect::PanicKeystroke | HookEffect::PanicBackspace => self.panic_keys += 1,
                HookEffect::CancelEsc => self.esc_cancels += 1,
            }
        }
        out.decision
    }

    fn type_str(&mut self, s: &str) {
        for ch in s.chars() {
            self.send(&ke(ch));
        }
    }
}

fn ke(c: char) -> KeyEvent {
    KeyEvent { typed: Some(c), ..Default::default() }
}

fn backspace() -> KeyEvent {
    KeyEvent { is_backspace: true, ..Default::default() }
}

fn esc() -> KeyEvent {
    KeyEvent { is_escape: true, ..Default::default() }
}

fn build_trigger() -> TriggerEntry {
    TriggerEntry {
        canonical: "build".into(),
        prompt_id: "p1".into(),
        word_count: 1,
        commit_char: '>',
    }
}

#[test]
fn disarmed_passes_everything_through() {
    let mut h = Harness::new();
    for ch in ['b', 'u', 'i', 'l', 'd', '>'] {
        assert!(matches!(h.send(&ke(ch)), HookDecision::Pass));
    }
    assert_eq!(h.fires, 0);
}

#[test]
fn armed_with_no_trigger_passes_commit_char() {
    let mut h = Harness::armed();
    h.type_str("xy>");
    assert_eq!(h.fires, 0);
    assert_eq!(h.commits, 1, "no-match commits still report");
}

#[test]
fn armed_with_matching_trigger_fires_and_suppresses_commit() {
    let mut h = Harness::armed();
    h.matcher.rebuild_index(vec![build_trigger()]).unwrap();
    for ch in ['B', 'u', 'i', 'l', 'd'] {
        assert!(matches!(h.send(&ke(ch)), HookDecision::Pass));
    }
    assert!(
        matches!(h.send(&ke('>')), HookDecision::Suppress),
        "commit char must be suppressed when trigger matches"
    );
    assert_eq!(h.fires, 1);
    assert_eq!(h.commits, 1);
}

#[test]
fn escape_hatch_for_commit_char() {
    let mut h = Harness::armed();
    h.send(&ke('\\'));
    assert!(matches!(h.send(&ke('>')), HookDecision::Suppress));
    assert_eq!(h.fires, 0);
    assert_eq!(h.literals, 1);
    assert_eq!(h.matcher.last_char(), Some('>'));
}

#[test]
fn backspace_during_undo_window_invokes_undo_callback() {
    let mut h = Harness::armed();
    h.inputs.undo_recent = true;
    assert!(matches!(h.send(&backspace()), HookDecision::Suppress));
    assert_eq!(h.undos, 1);
}

#[test]
fn pure_modifier_during_playback_does_not_count_toward_panic_ring() {
    let mut h = Harness::armed();
    h.inputs.playing = true;
    let modifier = KeyEvent { is_pure_modifier: true, ..Default::default() };
    for _ in 0..3 {
        h.send(&modifier);
    }
    assert_eq!(h.panic_keys, 0);
}

#[test]
fn escape_during_playback_cancels_immediately_and_is_swallowed() {
    let mut h = Harness::armed();
    h.inputs.playing = true;
    assert!(
        matches!(h.send(&esc()), HookDecision::Suppress),
        "Esc must not also reach the target app"
    );
    assert_eq!(h.esc_cancels, 1, "one Esc is enough");
}

#[test]
fn escape_outside_playback_passes_through() {
    let mut h = Harness::armed();
    assert!(matches!(h.send(&esc()), HookDecision::Pass));
    assert_eq!(h.esc_cancels, 0);
}

#[test]
fn escape_while_disarmed_passes_through() {
    let mut h = Harness::new();
    assert!(matches!(h.send(&esc()), HookDecision::Pass));
}

#[test]
fn panic_ring_still_reports_user_keystrokes() {
    let mut h = Harness::armed();
    h.inputs.playing = true;
    for ch in ['a', 's', 'd'] {
        h.send(&ke(ch));
    }
    assert_eq!(h.panic_keys, 3);
    assert_eq!(h.esc_cancels, 0);
}

#[test]
fn secure_input_passes_everything_and_never_suppresses() {
    let mut h = Harness::armed();
    h.inputs.secure_input_active = true;
    h.matcher.rebuild_index(vec![build_trigger()]).unwrap();
    for ch in ['b', 'u', 'i', 'l', 'd', '>'] {
        assert!(
            matches!(h.send(&ke(ch)), HookDecision::Pass),
            "nothing may be swallowed near a password field"
        );
    }
    assert_eq!(h.fires, 0);
    assert_eq!(h.commits, 0);
}

#[test]
fn secure_input_counts_the_commit_the_user_lost() {
    let mut h = Harness::armed();
    h.inputs.secure_input_active = true;
    h.type_str("build>");
    assert_eq!(h.blocked, 1);
}

#[test]
fn secure_input_does_not_count_ordinary_typing() {
    let mut h = Harness::armed();
    h.inputs.secure_input_active = true;
    h.type_str("hunter2");
    assert_eq!(h.blocked, 0);
}

#[test]
fn secure_input_counts_per_prompt_commit_chars_too() {
    let mut h = Harness::armed();
    h.matcher
        .rebuild_index(vec![TriggerEntry {
            canonical: "ship".into(),
            prompt_id: "p2".into(),
            word_count: 1,
            commit_char: '!',
        }])
        .unwrap();
    h.inputs.secure_input_active = true;
    h.type_str("ship!");
    assert_eq!(h.blocked, 1);
}

#[test]
fn secure_input_gate_is_skipped_when_disarmed() {
    let mut h = Harness::new();
    h.inputs.secure_input_active = true;
    h.type_str("build>");
    assert_eq!(h.blocked, 0);
}

#[test]
fn clearing_secure_input_restores_normal_matching() {
    let mut h = Harness::armed();
    h.matcher.rebuild_index(vec![build_trigger()]).unwrap();
    h.inputs.secure_input_active = true;
    h.type_str("build>");
    assert_eq!(h.fires, 0);

    h.inputs.secure_input_active = false;
    h.type_str("build");
    assert!(matches!(h.send(&ke('>')), HookDecision::Suppress));
    assert_eq!(h.fires, 1);
}

#[test]
fn a_fire_carries_the_typed_form_and_drops_the_trigger_from_the_ring() {
    let mut h = Harness::armed();
    h.matcher.rebuild_index(vec![build_trigger()]).unwrap();
    h.type_str("Build");
    h.now += 50;
    let out = process_event(&ke('>'), &h.inputs, &mut h.matcher, h.now);
    match &out.effects[1] {
        HookEffect::Fire { prompt_ids, typed_form } => {
            assert_eq!(prompt_ids, &vec!["p1".to_string()]);
            assert_eq!(typed_form, "Build");
        }
        other => panic!("expected a fire, got {other:?}"),
    }
    assert!(h.matcher.buffer.is_empty());
}
