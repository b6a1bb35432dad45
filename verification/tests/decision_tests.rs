use prompt_player::accessibility::{focused_field_mac, FieldKind};
use prompt_player::commands::settle_saved_config;
use prompt_player::config::AppConfig;
use prompt_player::error::AppError;
use prompt_player::fire::{
    classify_lowered, completion_record, field_guard, CompletionRecord, FieldGuard, TargetAppKind,
};
use prompt_player::matcher::{case_style, matches_for_candidate, propagate_case, CaseStyle, MatchIndex, TriggerEntry};

fn chars(s: &str) -> Vec<char> {
    s.chars().collect()
}

#[test]
fn the_field_guard_refuses_only_confident_negatives() {
    assert_eq!(field_guard(true, FieldKind::Secure, true), FieldGuard::Refuse { restore_commit: true });
    assert_eq!(field_guard(true, FieldKind::NotEditable, false), FieldGuard::Refuse { restore_commit: false });
    assert_eq!(field_guard(true, FieldKind::Unknown, true), FieldGuard::Proceed);
    assert_eq!(field_guard(true, FieldKind::Editable, true), FieldGuard::Proceed);
    assert_eq!(field_guard(false, FieldKind::Secure, true), FieldGuard::Proceed);
}

#[test]
fn only_a_completed_fire_is_recorded() {
    assert_eq!(
        completion_record(true, true, false, false),
        CompletionRecord { record_usage: true, record_undo: true }
    );
    assert_eq!(
        completion_record(false, true, false, false),
        CompletionRecord { record_usage: false, record_undo: false }
    );
    assert_eq!(
        completion_record(true, false, false, false),
        CompletionRecord { record_usage: true, record_undo: false }
    );
    assert_eq!(
        completion_record(true, true, true, false),
        CompletionRecord { record_usage: true, record_undo: false }
    );
    assert_eq!(
        completion_record(true, true, false, true),
        CompletionRecord { record_usage: true, record_undo: false }
    );
}

#[test]
fn a_mac_password_field_keeps_no_selection() {
    let f = focused_field_mac(
        Some("AXTextField".into()),
        Some("AXSecureTextField".into()),
        Some("secret".into()),
    );
    assert_eq!(f.kind, FieldKind::Secure);
    assert_eq!(f.selected_text, None);
    let f = focused_field_mac(Some("AXTextArea".into()), None, Some("picked".into()));
    assert_eq!(f.kind, FieldKind::Editable);
    assert_eq!(f.selected_text.as_deref(), Some("picked"));
    assert_eq!(f.role.as_deref(), Some("AXTextArea"));
    let f = focused_field_mac(None, None, None);
    assert_eq!(f.kind, FieldKind::Unknown);
}

#[test]
fn lowered_names_classify_the_app() {
    assert_eq!(classify_lowered(&chars("com.google.chrome"), &vec![]), TargetAppKind::Browser);
    assert_eq!(classify_lowered(&vec![], &chars("msedge.exe")), TargetAppKind::Browser);
    assert_eq!(classify_lowered(&chars("com.apple.terminal"), &vec![]), TargetAppKind::Native);
    assert_eq!(classify_lowered(&vec![], &vec![]), TargetAppKind::Unknown);
    // Names arrive lowercased here, so an uppercase id matches no browser.
    assert_eq!(classify_lowered(&chars("com.apple.Safari"), &vec![]), TargetAppKind::Native);
}

#[test]
fn a_candidate_matches_every_prompt_registered_for_it() {
    let mut idx = MatchIndex::new();
    for (p, t) in [("a", "sig"), ("b", "sig"), ("c", "other")] {
        idx.insert(TriggerEntry {
            canonical: t.into(),
            prompt_id: p.into(),
            commit_char: '>',
            word_count: 1,
        })
        .unwrap();
    }
    let m = matches_for_candidate(&idx, "sig", '>', &"SIG".to_string(), 3, 1, 3);
    assert_eq!(m.len(), 2);
    assert_eq!(m[0].prompt_id, "a");
    assert_eq!(m[1].prompt_id, "b");
    assert_eq!(m[0].typed_form, "SIG");
    assert_eq!((m[0].trigger_chars, m[0].word_count, m[0].pop_chars), (3, 1, 3));
    assert!(matches_for_candidate(&idx, "sig", ';', &"sig".to_string(), 3, 1, 3).is_empty());
    assert!(matches_for_candidate(&idx, "SIG", '>', &"SIG".to_string(), 3, 1, 3).is_empty());
}

#[test]
fn the_case_style_follows_the_typed_letters() {
    assert_eq!(case_style(&[]), CaseStyle::Unchanged);
    assert_eq!(case_style(&[(true, false), (true, false)]), CaseStyle::AllCaps);
    assert_eq!(case_style(&[(true, false), (false, true), (false, true)]), CaseStyle::Title);
    assert_eq!(case_style(&[(false, true), (true, false)]), CaseStyle::Unchanged);
    assert_eq!(case_style(&[(false, true)]), CaseStyle::Unchanged);
    assert_eq!(propagate_case("Sig", "hello there"), "Hello there");
    assert_eq!(propagate_case("SIG", "hello"), "HELLO");
}

#[test]
fn a_failed_save_rolls_the_config_back() {
    let previous = AppConfig::default();
    let proposed = AppConfig { hotkey_arm: Some("ctrl+alt+j".into()), ..AppConfig::default() };
    let (kept, answer) = settle_saved_config(previous.clone(), proposed.clone(), Ok("/tmp/pp.yaml".into()));
    assert_eq!(kept.hotkey_arm.as_deref(), Some("ctrl+alt+j"));
    let o = answer.unwrap();
    assert_eq!(o.path, "/tmp/pp.yaml");
    assert!(o.restart_required_for_hotkeys);
    let (kept, answer) = settle_saved_config(previous, proposed, Err("disk full".into()));
    assert_eq!(kept.hotkey_arm, None);
    match answer {
        Err(AppError::Internal(m)) => assert_eq!(m, "disk full"),
        other => panic!("unexpected {other:?}"),
    }
}
