use prompt_player::commands::{
    poll_actions, self_test_report, validate_external_url, PollResult, SelfTestInputs,
    SelfTestStage, UpdateReport,
};
use prompt_player::config::AppConfig;
use prompt_player::error::{AppError, IpcError};
use prompt_player::prompt::{count_words, trigger_entries, Prompt};
use prompt_player::shortcuts::{
    default_globals, prompt_hotkeys, resolve, resolve_globals, Binding, Platform,
};
use prompt_player::tray_menu::{
    build_tray_menu, keep_awake_label, menu_action, wstr, MenuAction, MenuItem, MenuState,
    ID_PINNED_BASE, ID_QUIT,
};

fn prompt(id: &str, name: &str, triggers: &[&str]) -> Prompt {
    Prompt {
        id: id.into(),
        name: name.into(),
        description: String::new(),
        triggers: triggers.iter().map(|t| t.to_string()).collect(),
        tags: Vec::new(),
        body: String::new(),
        commit_char: '>',
        hotkey: None,
        enabled: true,
        pinned: false,
    }
}

#[test]
fn allows_http_and_https_with_hosts() {
    assert!(validate_external_url("https://github.com/roalexandru/PromptPlayer").is_ok());
    assert!(validate_external_url("http://example.com/path?q=1").is_ok());
}

#[test]
fn rejects_non_web_or_hostless_urls() {
    assert!(validate_external_url("file:///etc/passwd").is_err());
    assert!(validate_external_url("javascript:alert(1)").is_err());
    assert!(validate_external_url("https://").is_err());
}

#[test]
fn url_errors_name_the_problem() {
    assert_eq!(
        validate_external_url("ftp://example.com").unwrap_err(),
        "unsupported URL scheme: ftp"
    );
    assert!(validate_external_url("not a url").unwrap_err().starts_with("invalid URL: "));
}

#[test]
fn kind_for_each_variant_is_kebab() {
    let cases = [
        AppError::PromptNotFound("x".into()),
        AppError::NoSourcePath { id: "x".into() },
        AppError::LibraryRootUnresolved,
        AppError::InvalidArg("x".into()),
        AppError::Tauri("x".into()),
        AppError::Enigo("x".into()),
        AppError::Internal("x".into()),
    ];
    for c in cases {
        let k = c.kind();
        assert!(k.chars().all(|ch| ch.is_ascii_lowercase() || ch == '-'));
    }
}

#[test]
fn invalid_arg_round_trips() {
    let e = AppError::InvalidArg("expected non-empty trigger".into());
    let v = IpcError::from_error(&e);
    assert_eq!(v.kind, "invalid-arg");
    assert!(v.message.contains("non-empty"));
    let e = AppError::PromptNotFound("xyz".into());
    assert_eq!(e.message(), "prompt xyz not found");
}

#[test]
fn self_test_stops_at_the_first_failure() {
    let ok = SelfTestInputs {
        accessibility_trusted: true,
        hook_alive: true,
        secure_input_active: false,
        injector_ok: true,
        triggers: 3,
    };
    let (report, stage) = self_test_report(ok);
    assert!(report.passed);
    assert_eq!(report.steps.len(), 5);
    assert_eq!(stage, SelfTestStage::Roundtrip);
    assert_eq!(report.probe, "prompt player ok");
    let (report, stage) = self_test_report(SelfTestInputs { hook_alive: false, triggers: 0, ..ok });
    assert!(!report.passed);
    assert_eq!(stage, SelfTestStage::Hook);
    assert_eq!(report.steps[1].detail, "Not installed — triggers will never fire");
}

#[test]
fn nothing_new_is_reported_at_most_daily() {
    let a = poll_actions(&PollResult::UpToDate, &None, 100_000, 0);
    assert_eq!(a.report, Some(UpdateReport::NothingNew));
    assert_eq!(a.record_no_update_at, Some(100_000));
    let b = poll_actions(&PollResult::UpToDate, &None, 100_000 + 3_600, 100_000);
    assert_eq!(b.report, None);
    let c = poll_actions(
        &PollResult::Available { version: "2.0.0".into(), notes: None },
        &Some("2.0.0".into()),
        0,
        0,
    );
    assert!(!c.announce);
    assert_eq!(c.report, Some(UpdateReport::Available));
}

#[test]
fn trigger_entries_skip_disabled_prompts() {
    let mut off = prompt("off", "Off", &["gone"]);
    off.enabled = false;
    let entries = trigger_entries(&[prompt("p", "P", &["Build Me", "ship"]), off]);
    assert_eq!(entries.len(), 2);
    assert_eq!(entries[0].canonical, "build me");
    assert_eq!(entries[0].word_count, 2);
    assert_eq!(entries[1].prompt_id, "p");
    assert_eq!(count_words("  a  b\tc "), 3);
}

#[test]
fn defaults_are_all_distinct() {
    for platform in [Platform::MacOs, Platform::Other] {
        let g = default_globals(platform);
        let all = [g.arm, g.picker, g.kill, g.panic, g.next_cue, g.pause, g.faster, g.slower];
        for (i, a) in all.iter().enumerate() {
            for b in all.iter().skip(i + 1) {
                assert_ne!(a, b, "two default chords collide: {a:?}");
            }
        }
    }
}

#[test]
fn an_empty_or_absent_config_entry_uses_the_default() {
    let d = default_globals(Platform::Other).arm;
    assert!(matches!(resolve(None, d), Binding::Default(c) if c == d));
    assert!(matches!(resolve(Some(&String::new()), d), Binding::Default(_)));
    assert!(matches!(resolve(Some(&"   ".to_string()), d), Binding::Default(_)));
}

#[test]
fn a_valid_config_entry_overrides_the_default() {
    let d = default_globals(Platform::Other).arm;
    match resolve(Some(&"ctrl+alt+j".to_string()), d) {
        Binding::Configured { normalized, fallback } => {
            assert_eq!(normalized, "Control+Alt+KeyJ");
            assert_eq!(fallback, d);
        }
        other => panic!("expected a configured chord, got {other:?}"),
    }
}

#[test]
fn config_can_rebind_every_global() {
    let cfg = AppConfig {
        hotkey_arm: Some("ctrl+alt+1".into()),
        hotkey_picker: Some("ctrl+alt+2".into()),
        hotkey_kill: Some("ctrl+alt+3".into()),
        hotkey_panic: Some("ctrl+alt+4".into()),
        hotkey_next_cue: Some("ctrl+alt+5".into()),
        hotkey_pause: Some("ctrl+alt+6".into()),
        hotkey_faster: Some("ctrl+alt+7".into()),
        hotkey_slower: Some("ctrl+alt+8".into()),
        ..Default::default()
    };
    let g = resolve_globals(&cfg, Platform::MacOs);
    let defaults = resolve_globals(&AppConfig::default(), Platform::MacOs);
    let rebound = [&g.arm, &g.picker, &g.kill, &g.panic, &g.next_cue, &g.pause, &g.faster, &g.slower];
    let built_in = [
        &defaults.arm,
        &defaults.picker,
        &defaults.kill,
        &defaults.panic,
        &defaults.next_cue,
        &defaults.pause,
        &defaults.faster,
        &defaults.slower,
    ];
    for (i, (b, d)) in rebound.iter().zip(built_in.iter()).enumerate() {
        match b {
            Binding::Configured { normalized, .. } => {
                assert_eq!(normalized, &format!("Control+Alt+Digit{}", i + 1));
            }
            other => panic!("expected a configured chord, got {other:?}"),
        }
        // Differs from the built-in binding, which is the default chord.
        assert!(matches!(d, Binding::Default(_)));
    }
}

#[test]
fn prompt_hotkeys_skip_disabled_and_blank_ones() {
    let mut a = prompt("a", "A", &[]);
    a.hotkey = Some("cmd+shift+1".into());
    let mut b = prompt("b", "B", &[]);
    b.hotkey = Some("  ".into());
    let mut c = prompt("c", "C", &[]);
    c.hotkey = Some("cmd+2".into());
    c.enabled = false;
    let hks = prompt_hotkeys(&[a, b, c]);
    assert_eq!(hks.len(), 1);
    assert_eq!(hks[0].normalized, "CmdOrCtrl+Shift+Digit1");
    assert_eq!(hks[0].prompt_id, "a");
}

fn state() -> MenuState {
    MenuState {
        hook_alive: true,
        armed: true,
        keep_awake: false,
        keep_awake_remaining_secs: None,
        playing: false,
        paused: false,
        setlist_len: 0,
        setlist_cursor: 0,
    }
}

fn labels(items: &[MenuItem]) -> Vec<String> {
    items
        .iter()
        .map(|m| match m {
            MenuItem::Entry { label, .. } => label.clone(),
            MenuItem::Separator => "-".to_string(),
        })
        .collect()
}

#[test]
fn the_tray_menu_shows_rows_for_the_state() {
    let mut pinned = prompt("intro", "Intro", &["intro"]);
    pinned.pinned = true;
    let mut s = state();
    s.hook_alive = false;
    s.playing = true;
    s.setlist_len = 3;
    s.setlist_cursor = 4;
    let menu = build_tray_menu(&s, &[prompt("x", "X", &[]), pinned]);
    let l = labels(&menu.items);
    assert_eq!(l[0], "⚠ Keyboard hook inactive — open Diagnostics");
    assert!(l.contains(&"Pause Typing\tCtrl+Shift+,".to_string()));
    assert!(l.contains(&"Next Cue (2 of 3)\tCtrl+Shift+.".to_string()));
    assert!(l.contains(&"Intro\tintro>".to_string()));
    assert_eq!(menu.pinned_ids, vec!["intro".to_string()]);
    assert_eq!(l.last().unwrap(), "Quit\tCtrl+Q");
    let quiet = labels(&build_tray_menu(&state(), &[]).items);
    assert_eq!(quiet[0], "Prompt Player");
    assert!(!quiet.iter().any(|x| x.starts_with("Next Cue")));
}

#[test]
fn menu_ids_map_to_actions() {
    let ids = vec!["intro".to_string()];
    assert_eq!(menu_action(ID_QUIT, &ids), MenuAction::Quit);
    assert_eq!(menu_action(ID_PINNED_BASE, &ids), MenuAction::FirePinned("intro".into()));
    assert_eq!(menu_action(ID_PINNED_BASE + 1, &ids), MenuAction::Nothing);
    assert_eq!(menu_action(0, &ids), MenuAction::Nothing);
}

#[test]
fn keep_awake_label_rounds_minutes_up() {
    assert_eq!(keep_awake_label(Some(61), true), "Keep Awake\t2m left");
    assert_eq!(keep_awake_label(Some(3_600 + 59), true), "Keep Awake\t1h 1m left");
    assert_eq!(keep_awake_label(None, true), "Keep Awake\tno limit");
    assert_eq!(keep_awake_label(None, false), "Keep Awake");
}

#[test]
fn wstr_is_utf16_with_a_nul() {
    assert_eq!(wstr("a😀"), vec![0x61, 0xD83D, 0xDE00, 0]);
    assert_eq!(wstr(""), vec![0]);
}
