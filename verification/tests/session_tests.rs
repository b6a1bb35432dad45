use prompt_player::accessibility::{
    classify_mac_role, focused_field_from, reads_selection, uia_role, window_title_from, FieldKind,
};
use prompt_player::commands::{
    capture_foreground_mac, foreground_info_from_mac, foreground_info_from_windows, next_cue,
    keep_awake_state, open_external_target, pending_after_dismiss, setlist_rows, shell_execute_outcome, should_announce,
    toggle_keep_awake_at,
};
use prompt_player::platform::{
    display_affinity, panel_ex_style_bits, sharing_type, window_event_reaction, with_ex_style,
    WindowEventKind, WindowReaction,
};
use prompt_player::error::AppError;
use prompt_player::fire::{chars_to_reobserve, selectable_prompt, trigger_candidates};
use prompt_player::prompt::Prompt;
use prompt_player::tray_menu::{tray_target, TrayTarget};
use prompt_player::config::{
    all_sources_failed, check_new_source, default_commit_char, default_true, remove_source_checked, AppConfig, SourceSpec,
};
use prompt_player::fire::{undo_step, UndoAction, UNDO_KEY_INTERVAL_MS};
use prompt_player::hook::{hook_settle_step, hook_watch_step, HookWatch, SettleStep};
use prompt_player::keys::{hook_should_process, needs_translation, VK_BACK, VK_LSHIFT, VK_RETURN};
use prompt_player::picker::{snapshot_of_frontmost, FrontmostApp};
use prompt_player::power::PowerManager;
use prompt_player::shortcuts::{shortcut_action, PressedGlobals, ShortcutAction};

fn app(bundle: Option<&str>, exe: Option<&str>) -> FrontmostApp {
    FrontmostApp {
        bundle_id: bundle.map(|s| s.to_string()),
        executable_path: exe.map(|s| s.to_string()),
        pid: Some(42),
    }
}

#[test]
fn the_mac_foreground_is_named_after_its_executable() {
    let info = capture_foreground_mac(app(
        Some("com.example.Editor"),
        Some("/Applications/Editor.app/Contents/MacOS/Editor"),
    ));
    assert_eq!(info.name.as_deref(), Some("Editor"));
    assert_eq!(info.bundle_id.as_deref(), Some("com.example.Editor"));
    assert_eq!(info.executable.as_deref(), Some("/Applications/Editor.app/Contents/MacOS/Editor"));
    assert_eq!(info.window_title, None);
}

#[test]
fn without_an_executable_the_bundle_id_names_the_app() {
    let info = capture_foreground_mac(app(Some("com.example.Editor"), None));
    assert_eq!(info.name.as_deref(), Some("com.example.Editor"));
    let info = foreground_info_from_mac(app(Some("com.example.Editor"), Some("/")), None);
    assert_eq!(info.name.as_deref(), Some("com.example.Editor"));
    let info = capture_foreground_mac(app(None, None));
    assert_eq!(info.name, None);
}

#[test]
fn the_windows_foreground_decodes_title_and_image_path() {
    let title: Vec<u16> = "Notes – draft".encode_utf16().collect();
    let exe: Vec<u16> = "C:\\Tools\\notes.exe".encode_utf16().collect();
    let info = foreground_info_from_windows(&title, Some(exe));
    assert_eq!(info.window_title.as_deref(), Some("Notes – draft"));
    assert_eq!(info.executable.as_deref(), Some("C:\\Tools\\notes.exe"));
    assert_eq!(info.bundle_id, None);
    assert_eq!(info.name, None);
    let info = foreground_info_from_windows(&[], None);
    assert_eq!(info.window_title, None);
    assert_eq!(info.executable, None);
    let info = foreground_info_from_windows(&[0x41, 0xDC00], None);
    assert_eq!(info.window_title.as_deref(), Some("A\u{FFFD}"));
}

#[test]
fn config_defaults_enable_sources_and_commit_with_the_chevron() {
    assert!(default_true());
    assert_eq!(default_commit_char(), ">");
    assert_eq!(AppConfig::default().commit_char_default, default_commit_char());
}

#[test]
fn an_undo_erases_one_char_per_step_and_then_reobserves() {
    assert_eq!(undo_step(3, false), (2, UndoAction::Backspace));
    assert_eq!(undo_step(1, false), (0, UndoAction::Backspace));
    assert_eq!(undo_step(0, false), (0, UndoAction::Reobserve));
    assert_eq!(undo_step(0, true), (0, UndoAction::Reobserve));
    assert_eq!(undo_step(2, true), (2, UndoAction::Abort));
    assert_eq!(UNDO_KEY_INTERVAL_MS, 15);
    let mut left = 4;
    let mut pressed = 0;
    loop {
        let (next, action) = undo_step(left, false);
        left = next;
        match action {
            UndoAction::Backspace => pressed += 1,
            UndoAction::Reobserve => break,
            UndoAction::Abort => unreachable!(),
        }
    }
    assert_eq!(pressed, 4);
}

#[test]
fn the_hook_only_sees_typed_key_downs() {
    assert!(hook_should_process(0, 0x0100, 0));
    assert!(hook_should_process(0, 0x0104, 0x20));
    assert!(!hook_should_process(0, 0x0101, 0));
    assert!(!hook_should_process(1, 0x0100, 0));
    assert!(!hook_should_process(0, 0x0100, 0x10));
    assert!(!hook_should_process(0, 0x0104, 0x30));
}

#[test]
fn the_watcher_reports_each_change_once_and_respawns_when_trusted() {
    let w = hook_watch_step(true, false, true);
    assert_eq!(w, HookWatch { last_alive: false, report: Some(false), respawn: true });
    let w = hook_watch_step(w.last_alive, false, false);
    assert_eq!(w, HookWatch { last_alive: false, report: None, respawn: false });
    let w = hook_watch_step(w.last_alive, true, true);
    assert_eq!(w, HookWatch { last_alive: true, report: Some(true), respawn: false });
}

#[test]
fn boot_waits_briefly_for_the_hook_to_settle() {
    assert_eq!(hook_settle_step(false, false, 0), SettleStep::Done(false));
    assert_eq!(hook_settle_step(true, false, 0), SettleStep::Poll);
    assert_eq!(hook_settle_step(true, true, 25), SettleStep::Done(true));
    assert_eq!(hook_settle_step(true, false, 749), SettleStep::Poll);
    assert_eq!(hook_settle_step(true, false, 750), SettleStep::Done(false));
}

#[test]
fn keep_awake_comes_back_only_when_opted_in_and_with_a_fresh_deadline() {
    let mut p = PowerManager::new();
    assert!(!p.restore_at(false, true, 30, 1_000));
    assert!(!p.is_enabled());
    assert!(!p.restore_at(true, false, 30, 1_000));
    assert!(!p.is_enabled());
    assert!(p.restore_at(true, true, 30, 1_000));
    assert!(p.is_enabled());
    assert_eq!(p.remaining_at(1_000), Some(30 * 60_000));
}

fn none_pressed() -> PressedGlobals {
    PressedGlobals {
        arm: false,
        picker: false,
        kill: false,
        panic: false,
        next_cue: false,
        pause: false,
        faster: false,
        slower: false,
    }
}

#[test]
fn a_global_press_dispatches_to_its_action() {
    let g = PressedGlobals { kill: true, ..none_pressed() };
    assert_eq!(shortcut_action(true, g, &[]), ShortcutAction::Kill);
    assert_eq!(shortcut_action(false, g, &[]), ShortcutAction::Ignore);
    let g = PressedGlobals { arm: true, panic: true, ..none_pressed() };
    assert_eq!(shortcut_action(true, g, &[true]), ShortcutAction::ToggleArm);
    let g = PressedGlobals { slower: true, ..none_pressed() };
    assert_eq!(shortcut_action(true, g, &[]), ShortcutAction::Slower);
    let g = PressedGlobals { faster: true, slower: true, ..none_pressed() };
    assert_eq!(shortcut_action(true, g, &[]), ShortcutAction::Faster);
}

#[test]
fn an_unbound_press_fires_the_first_matching_prompt_hotkey() {
    assert_eq!(shortcut_action(true, none_pressed(), &[false, true, true]), ShortcutAction::PromptHotkey(1));
    assert_eq!(shortcut_action(true, none_pressed(), &[false, false]), ShortcutAction::Ignore);
    assert_eq!(shortcut_action(true, none_pressed(), &[]), ShortcutAction::Ignore);
}

fn cue_prompt(id: &str, enabled: bool) -> Prompt {
    Prompt {
        id: id.into(),
        name: format!("{id} name"),
        description: String::new(),
        triggers: vec![id.to_string()],
        tags: Vec::new(),
        body: String::new(),
        commit_char: '>',
        hotkey: None,
        enabled,
        pinned: false,
    }
}

fn ids(v: &[&str]) -> Vec<String> {
    v.iter().map(|s| s.to_string()).collect()
}

#[test]
fn the_next_cue_skips_stale_entries_and_wraps() {
    let prompts = vec![cue_prompt("a", true), cue_prompt("c", true)];
    let setlist = ids(&["a", "gone", "c"]);
    assert_eq!(next_cue(&setlist, &prompts, 0).unwrap(), Some((0, 1)));
    assert_eq!(next_cue(&setlist, &prompts, 1).unwrap(), Some((2, 3)));
    assert_eq!(next_cue(&setlist, &prompts, 3).unwrap(), Some((0, 1)));
    assert_eq!(next_cue(&setlist, &prompts, 5).unwrap(), Some((2, 3)));
    assert_eq!(next_cue(&[], &prompts, 7).unwrap(), None);
}

#[test]
fn a_setlist_with_no_live_cue_is_an_error() {
    let setlist = ids(&["x", "y"]);
    match next_cue(&setlist, &[cue_prompt("a", true)], 0) {
        Err(AppError::InvalidArg(m)) => assert_eq!(m, "no setlist cue resolves to an existing prompt"),
        other => panic!("unexpected {other:?}"),
    }
}

#[test]
fn the_editor_marks_the_cue_that_fires() {
    let prompts = vec![cue_prompt("a", true), cue_prompt("b", true)];
    let setlist = ids(&["a", "b"]);
    let rows = setlist_rows(&setlist, &prompts, 3);
    assert_eq!(rows.iter().filter(|r| r.is_next).count(), 1);
    assert!(rows[1].is_next);
    assert_eq!(next_cue(&setlist, &prompts, 3).unwrap(), Some((1, 2)));
}

#[test]
fn toggling_keep_awake_remembers_the_length_used() {
    let mut p = PowerManager::new();
    assert_eq!(toggle_keep_awake_at(&mut p, Some(30), 60, 0), (true, 30));
    assert_eq!(p.remaining_at(0), Some(30 * 60_000));
    assert_eq!(toggle_keep_awake_at(&mut p, None, 30, 1_000), (false, 30));
    assert!(!p.is_enabled());
    assert_eq!(toggle_keep_awake_at(&mut p, None, 45, 2_000), (true, 45));
    assert_eq!(p.remaining_at(2_000), Some(45 * 60_000));
}

#[test]
fn a_new_duration_rearms_a_running_session_only() {
    let mut p = PowerManager::new();
    p.set_duration_at(30, 0);
    assert!(!p.is_enabled());
    p.set_for_at(true, 120, 0);
    p.set_duration_at(30, 10_000);
    assert!(p.is_enabled());
    assert_eq!(p.duration_mins(), 30);
    assert_eq!(p.remaining_at(10_000), Some(30 * 60_000));
}

#[test]
fn the_tray_opens_known_windows_and_refuses_others() {
    assert_eq!(tray_target("library").unwrap(), TrayTarget::Library);
    assert_eq!(tray_target("picker").unwrap(), TrayTarget::Picker);
    assert_eq!(tray_target("about").unwrap(), TrayTarget::About);
    match tray_target("settings") {
        Err(AppError::InvalidArg(m)) => assert_eq!(m, "unknown tray target: settings"),
        other => panic!("unexpected {other:?}"),
    }
}

#[test]
fn trigger_candidates_keep_match_order_and_drop_disabled_or_missing() {
    let prompts = vec![cue_prompt("a", true), cue_prompt("b", false), cue_prompt("c", true)];
    assert_eq!(trigger_candidates(&ids(&["c", "b", "zz", "a"]), &prompts), vec![2, 0]);
    assert!(trigger_candidates(&ids(&["b"]), &prompts).is_empty());
}

#[test]
fn only_an_enabled_prompt_can_be_selected() {
    let prompts = vec![cue_prompt("a", true), cue_prompt("b", false)];
    assert_eq!(selectable_prompt(&prompts, &"a".to_string()), Some(0));
    assert_eq!(selectable_prompt(&prompts, &"b".to_string()), None);
    assert_eq!(selectable_prompt(&prompts, &"c".to_string()), None);
}

#[test]
fn a_refused_fire_reobserves_the_trigger_and_its_commit_char() {
    assert_eq!(chars_to_reobserve("sig", '>'), vec!['s', 'i', 'g', '>']);
    assert_eq!(chars_to_reobserve("", '>'), vec!['>']);
}

#[test]
fn an_update_is_announced_once_per_version() {
    assert!(should_announce(&None, &"1.2.0".to_string()));
    assert!(!should_announce(&Some("1.2.0".into()), &"1.2.0".to_string()));
    assert!(should_announce(&Some("1.1.0".into()), &"1.2.0".to_string()));
}

#[test]
fn dismissing_a_version_drops_it_from_pending() {
    assert_eq!(pending_after_dismiss(Some("1.2.0".into()), &"1.2.0".to_string()), None);
    assert_eq!(pending_after_dismiss(Some("1.3.0".into()), &"1.2.0".to_string()), Some("1.3.0".to_string()));
    assert_eq!(pending_after_dismiss(None, &"1.2.0".to_string()), None);
}

fn source(repo: &str) -> SourceSpec {
    SourceSpec { repo: repo.into(), git_ref: None, subdir: None, enabled: true }
}

#[test]
fn a_repo_already_listed_is_refused() {
    let sources = vec![source("org/a")];
    assert!(check_new_source(&sources, &source("org/b")).is_ok());
    match check_new_source(&sources, &source("org/a")) {
        Err(AppError::InvalidArg(m)) => assert_eq!(m, "org/a is already a source"),
        other => panic!("unexpected {other:?}"),
    }
}

#[test]
fn removing_an_unknown_source_changes_nothing() {
    let mut c = AppConfig::default();
    c.sources.push(source("org/a"));
    c.enabled_remote = vec!["org-a/x".into()];
    match remove_source_checked(&mut c, "org-b") {
        Err(AppError::InvalidArg(m)) => assert_eq!(m, "no source with id org-b"),
        other => panic!("unexpected {other:?}"),
    }
    assert_eq!(c.sources.len(), 1);
    assert_eq!(c.enabled_remote.len(), 1);
    assert!(remove_source_checked(&mut c, "org-a").is_ok());
    assert!(c.sources.is_empty());
    assert!(c.enabled_remote.is_empty());
}

#[test]
fn open_external_passes_web_urls_and_prefixes_refusals() {
    assert_eq!(open_external_target("https://example.com/a").unwrap(), "https://example.com/a");
    match open_external_target("file:///etc/passwd") {
        Err(AppError::InvalidArg(m)) => assert_eq!(m, "open_external: unsupported URL scheme: file"),
        other => panic!("unexpected {other:?}"),
    }
}

#[test]
fn shell_open_codes_up_to_32_are_failures() {
    assert!(shell_execute_outcome(33).is_ok());
    assert_eq!(shell_execute_outcome(2).unwrap_err(), "ShellExecuteW failed with code 2");
    assert_eq!(shell_execute_outcome(32).unwrap_err(), "ShellExecuteW failed with code 32");
    assert_eq!(shell_execute_outcome(-5).unwrap_err(), "ShellExecuteW failed with code -5");
}

#[test]
fn closing_a_window_only_hides_it() {
    let close = WindowReaction { prevent_close: true, hide: true, emit_hidden: true, remove_click_monitor: false };
    assert_eq!(window_event_reaction("library", WindowEventKind::CloseRequested), close);
    assert_eq!(window_event_reaction("picker", WindowEventKind::CloseRequested), close);
}

#[test]
fn losing_focus_hides_the_popup_and_the_picker_only() {
    let r = window_event_reaction("tray-popup", WindowEventKind::FocusLost);
    assert!(r.hide && r.remove_click_monitor && !r.prevent_close && !r.emit_hidden);
    let r = window_event_reaction("picker", WindowEventKind::FocusLost);
    assert!(r.hide && !r.remove_click_monitor);
    let r = window_event_reaction("library", WindowEventKind::FocusLost);
    assert!(!r.hide && !r.remove_click_monitor);
    let r = window_event_reaction("picker", WindowEventKind::Other);
    assert!(!r.hide && !r.prevent_close);
}

#[test]
fn capture_exclusion_values() {
    assert_eq!(sharing_type(true), 0);
    assert_eq!(sharing_type(false), 1);
    assert_eq!(display_affinity(true), 0x11);
    assert_eq!(display_affinity(false), 0);
}

#[test]
fn only_character_keys_need_layout_translation() {
    assert!(needs_translation(0x41));
    assert!(!needs_translation(VK_BACK));
    assert!(!needs_translation(VK_RETURN));
    assert!(!needs_translation(VK_LSHIFT));
    assert!(!needs_translation(0x1B));
}

#[test]
fn a_mac_snapshot_restores_by_pid() {
    let snap = snapshot_of_frontmost(app(Some("com.example.Editor"), Some("/x/Editor")), 77);
    assert_eq!(snap.handle, Some(42));
    assert_eq!(snap.captured_at_ms, Some(77));
    assert_eq!(snap.window_title, None);
    assert_eq!(snap.bundle_id.as_deref(), Some("com.example.Editor"));
    let snap = snapshot_of_frontmost(FrontmostApp { bundle_id: None, executable_path: None, pid: None }, 1);
    assert_eq!(snap.handle, None);
}

#[test]
fn a_refresh_fails_only_when_every_source_failed() {
    assert!(all_sources_failed(2, 2));
    assert!(!all_sources_failed(2, 1));
    assert!(!all_sources_failed(0, 0));
}

#[test]
fn keep_awake_state_reports_whole_seconds_left() {
    let mut p = PowerManager::new();
    p.set_for_at(true, 30, 0);
    let s = keep_awake_state(&p, 1_500, 30, vec![15, 30, 60, 0], true);
    assert!(s.enabled);
    assert_eq!(s.duration_mins, 30);
    assert_eq!(s.remaining_secs, Some(30 * 60 - 2));
    assert_eq!(s.default_mins, 30);
    assert_eq!(s.choices, vec![15, 30, 60, 0]);
    assert!(s.restore);
    let off = keep_awake_state(&PowerManager::new(), 0, 60, vec![], false);
    assert!(!off.enabled);
    assert_eq!(off.remaining_secs, None);
}

#[test]
fn a_secure_field_never_carries_its_selection() {
    assert!(!reads_selection(FieldKind::Secure));
    assert!(reads_selection(FieldKind::Editable));
    assert!(reads_selection(FieldKind::Unknown));
    let kind = classify_mac_role(Some("AXTextField"), Some("AXSecureTextField"));
    let f = focused_field_from(kind, Some("AXTextField".into()), Some("hunter2".into()));
    assert_eq!(f.kind, FieldKind::Secure);
    assert_eq!(f.selected_text, None);
    assert_eq!(f.role.as_deref(), Some("AXTextField"));
    let f = focused_field_from(FieldKind::Editable, None, Some("hello".into()));
    assert_eq!(f.selected_text.as_deref(), Some("hello"));
}

#[test]
fn a_windows_element_is_named_by_class_or_control_type() {
    assert_eq!(uia_role(Some("Edit".into()), 50004).as_deref(), Some("Edit"));
    assert_eq!(uia_role(Some(String::new()), 50004).as_deref(), Some("uia:50004"));
    assert_eq!(uia_role(None, 0).as_deref(), Some("uia:0"));
    assert_eq!(uia_role(None, -7).as_deref(), Some("uia:-7"));
}

#[test]
fn an_empty_window_title_counts_as_none() {
    assert_eq!(window_title_from(Some("Inbox".into())).as_deref(), Some("Inbox"));
    assert_eq!(window_title_from(Some(String::new())), None);
    assert_eq!(window_title_from(None), None);
}

#[test]
fn panels_only_add_extended_style_bits() {
    assert_eq!(panel_ex_style_bits(true), 0x0800_0088);
    assert_eq!(panel_ex_style_bits(false), 0x8);
    assert_eq!(with_ex_style(0x0000_0100, panel_ex_style_bits(true)), 0x0800_0188);
    assert_eq!(with_ex_style(0x8, panel_ex_style_bits(false)), 0x8);
}
