use prompt_player::config::new_source_spec;
use prompt_player::config::{has_source_id, remove_source};
use prompt_player::config::set_remote_enabled;
use prompt_player::commands::{
    hotkeys_differ, library_counts, setlist_rows, truncate_version, update_info,
    SELF_TEST_PROBE,
};
use prompt_player::config::{AppConfig, NewlineMode, PickerDisplay, SourceSpec};
use prompt_player::prompt::Prompt;

fn prompt(id: &str, name: &str, triggers: &[&str], enabled: bool) -> Prompt {
    Prompt {
        id: id.into(),
        name: name.into(),
        description: String::new(),
        triggers: triggers.iter().map(|t| t.to_string()).collect(),
        tags: Vec::new(),
        body: String::new(),
        commit_char: '>',
        hotkey: None,
        enabled,
        pinned: false,
    }
}

#[test]
fn defaults_are_usable() {
    let c = AppConfig::default();
    assert_eq!(c.commit_char(), '>');
    assert_eq!(c.newline_mode, NewlineMode::ShiftEnter);
    assert!(c.text_field_guard, "guard is on by default");
    assert!(c.auto_disarm().is_none(), "0 minutes means never");
    assert!(c.sources.is_empty());
    assert_eq!(c.picker_display, PickerDisplay::Auto);
}

#[test]
fn commit_char_falls_back_when_string_is_empty() {
    let c = AppConfig { commit_char_default: String::new(), ..Default::default() };
    assert_eq!(c.commit_char(), '>');
}

#[test]
fn commit_char_takes_first_char_of_multichar_string() {
    let c = AppConfig { commit_char_default: ";;".into(), ..Default::default() };
    assert_eq!(c.commit_char(), ';');
}

#[test]
fn auto_disarm_converts_minutes() {
    let c = AppConfig { auto_disarm_minutes: 15, ..Default::default() };
    assert_eq!(c.auto_disarm(), Some(900));
}

#[test]
fn source_spec_id_is_filesystem_safe() {
    let s = SourceSpec {
        repo: "roalexandru/PromptPlayer".into(),
        git_ref: Some("main".into()),
        subdir: None,
        enabled: true,
    };
    assert_eq!(s.id(), "roalexandru-PromptPlayer@main");
    assert!(!s.id().contains('/'));
}

#[test]
fn source_spec_id_without_ref_omits_the_at() {
    let s = SourceSpec {
        repo: "org/team-prompts".into(),
        git_ref: None,
        subdir: None,
        enabled: true,
    };
    assert_eq!(s.id(), "org-team-prompts");
}

#[test]
fn source_spec_id_keeps_dots_only_in_the_ref() {
    let s = SourceSpec {
        repo: "org/v1.2".into(),
        git_ref: Some("v1.2/rc".into()),
        subdir: None,
        enabled: true,
    };
    assert_eq!(s.id(), "org-v1-2@v1.2-rc");
}

#[test]
fn hotkey_changes_are_detected() {
    let a = AppConfig::default();
    let mut b = a.clone();
    assert!(!hotkeys_differ(&a, &b));
    b.hotkey_picker = Some("ctrl+alt+p".into());
    assert!(hotkeys_differ(&a, &b));
}

#[test]
fn non_hotkey_changes_do_not_demand_a_restart() {
    let a = AppConfig::default();
    let mut b = a.clone();
    b.newline_mode = NewlineMode::BackslashEnter;
    b.text_field_guard = false;
    b.setlist = vec!["x".into()];
    b.auto_disarm_minutes = 10;
    assert!(!hotkeys_differ(&a, &b));
}

#[test]
fn probe_is_layout_safe_and_short() {
    assert!(SELF_TEST_PROBE.chars().all(|c| c.is_ascii_lowercase() || c == ' '));
    assert!(!SELF_TEST_PROBE.is_empty());
    assert!(SELF_TEST_PROBE.len() < 32);
}

#[test]
fn version_is_truncated_to_fit_the_payload_rule() {
    assert_eq!(truncate_version("0.1.9"), "0.1.9");
    let long = "9".repeat(64);
    assert_eq!(truncate_version(&long).len(), 24);
    assert!(truncate_version(&long).len() < 32);
}

#[test]
fn setlist_rows_mark_missing_cues_and_the_next_one() {
    let prompts = vec![prompt("intro", "Intro", &["intro"], true)];
    let setlist = vec!["intro".to_string(), "gone".to_string()];
    let rows = setlist_rows(&setlist, &prompts, 3);
    assert_eq!(rows.len(), 2);
    assert_eq!(rows[0].name, "Intro");
    assert!(!rows[0].missing);
    assert!(!rows[0].is_next);
    assert_eq!(rows[1].name, "gone");
    assert!(rows[1].missing);
    assert!(rows[1].is_next, "cursor 3 of 2 cues wraps to the second");
}

#[test]
fn library_counts_only_count_enabled_triggers() {
    let prompts = vec![
        prompt("a", "A", &["a", "aa"], true),
        prompt("b", "B", &["b"], false),
        prompt("c", "C", &["c"], true),
    ];
    assert_eq!(library_counts(&prompts), (3, 2, 3));
}

#[test]
fn a_dismissed_version_is_reported_as_dismissed() {
    let dismissed = Some("1.2.0".to_string());
    let info = update_info("1.1.0".into(), Some(("1.2.0".into(), None)), &dismissed);
    assert!(info.available);
    assert!(info.dismissed);
    let info = update_info("1.1.0".into(), Some(("1.3.0".into(), Some("notes".into()))), &dismissed);
    assert!(!info.dismissed);
    assert_eq!(info.notes.as_deref(), Some("notes"));
    let info = update_info("1.1.0".into(), None, &dismissed);
    assert!(!info.available && info.version.is_none() && !info.dismissed);
}

#[test]
fn a_new_source_drops_blank_settings() {
    let s = new_source_spec("org", "prompts", Some("  ".into()), Some("demos".into()));
    assert_eq!(s.repo, "org/prompts");
    assert_eq!(s.git_ref, None);
    assert_eq!(s.subdir.as_deref(), Some("demos"));
    assert!(s.enabled);
}

#[test]
fn removing_a_source_drops_its_enabled_prompts() {
    let mut c = AppConfig::default();
    c.sources.push(SourceSpec { repo: "org/a".into(), git_ref: None, subdir: None, enabled: true });
    c.sources.push(SourceSpec { repo: "org/b".into(), git_ref: None, subdir: None, enabled: true });
    c.enabled_remote = vec!["org-a/x".into(), "org-b/y".into(), "org-ab/z".into()];
    assert!(has_source_id(&c.sources, "org-a"));
    remove_source(&mut c, "org-a");
    assert_eq!(c.sources.len(), 1);
    assert_eq!(c.sources[0].repo, "org/b");
    assert!(!has_source_id(&c.sources, "org-a"));
    assert_eq!(c.enabled_remote, vec!["org-b/y".to_string(), "org-ab/z".to_string()]);
}

#[test]
fn enabling_a_remote_prompt_lists_it_once() {
    let mut list = vec!["a".to_string(), "b".to_string()];
    set_remote_enabled(&mut list, &"a".to_string(), true);
    assert_eq!(list, vec!["b".to_string(), "a".to_string()]);
    set_remote_enabled(&mut list, &"a".to_string(), false);
    assert_eq!(list, vec!["b".to_string()]);
}
