use prompt_player::fire::{
    classify_target_app, completed_pct, context_needs, offers_undo, plan_delivery,
    references_clipboard, PickMode, TargetAppKind,
};

#[test]
fn reads_only_when_the_body_actually_references_it() {
    for body in [
        "paste this: $CLIPBOARD",
        "wrapped ${CLIPBOARD} form",
        "expression ${{ clipboard.trim() }}",
        "${{ clipboard }}",
    ] {
        assert!(references_clipboard(body), "{body:?} must read");
    }
}

#[test]
fn prose_mentioning_the_clipboard_does_not_read_it() {
    for body in [
        "Copy the result to your clipboard when done.",
        "CLIPBOARD handling is out of scope for this review.",
        "Explain how the clipboard works in Wayland.",
        "${{ now.toISOString() }} — then paste from the clipboard",
    ] {
        assert!(!references_clipboard(body), "{body:?} must not read");
    }
}

#[test]
fn handles_an_unterminated_expression_block() {
    assert!(references_clipboard("${{ clipboard"));
    assert!(!references_clipboard("${{ now"));
}

fn kind(bundle: &str, exe: &str) -> TargetAppKind {
    let b = if bundle.is_empty() { None } else { Some(bundle) };
    let e = if exe.is_empty() { None } else { Some(exe) };
    classify_target_app(b, e, false)
}

#[test]
fn classifies_macos_browsers_by_bundle_id() {
    for b in [
        "com.apple.Safari",
        "com.google.Chrome",
        "com.google.Chrome.canary",
        "org.mozilla.firefox",
        "com.microsoft.edgemac",
        "com.brave.Browser",
        "company.thebrowser.Browser",
        "com.operasoftware.Opera",
        "com.vivaldi.Vivaldi",
        "app.zen-browser.zen",
        "com.duckduckgo.macos.browser",
    ] {
        assert_eq!(kind(b, ""), TargetAppKind::Browser, "bundle {b}");
    }
}

#[test]
fn classifies_windows_browsers_by_exe() {
    for e in [
        "C:\\Program Files\\Google\\Chrome\\Application\\chrome.exe",
        "C:\\Program Files\\Mozilla Firefox\\firefox.exe",
        "C:\\Program Files (x86)\\Microsoft\\Edge\\msedge.exe",
        "C:\\Users\\x\\AppData\\Local\\BraveSoftware\\brave.exe",
        "C:\\Program Files\\Vivaldi\\Application\\vivaldi.exe",
        "C:\\Users\\x\\AppData\\Local\\Programs\\Opera\\opera.exe",
    ] {
        assert_eq!(kind("", e), TargetAppKind::Browser, "exe {e}");
    }
}

#[test]
fn non_browsers_are_native() {
    for (b, e) in [
        ("com.tinyspeck.slackmacgap", ""),
        ("com.microsoft.VSCode", ""),
        ("com.apple.Terminal", ""),
        ("com.monarch.app", ""),
        ("com.example.frozen", ""),
        ("", "C:\\Program Files\\Slack\\slack.exe"),
        ("", "C:\\Windows\\System32\\notepad.exe"),
    ] {
        assert_eq!(kind(b, e), TargetAppKind::Native, "{b} {e}");
    }
}

#[test]
fn unknown_when_nothing_identifies_the_app() {
    assert_eq!(kind("", ""), TargetAppKind::Unknown);
}

#[test]
fn rdp_wins_over_everything() {
    assert_eq!(classify_target_app(Some("com.google.Chrome"), None, true), TargetAppKind::Rdp);
}

#[test]
fn exe_match_is_exact_not_substring() {
    assert_eq!(kind("", "C:\\tools\\notchrome.exe"), TargetAppKind::Native);
}

#[test]
fn unix_paths_use_the_last_segment() {
    assert_eq!(kind("", "/usr/bin/firefox.exe"), TargetAppKind::Browser);
}

#[test]
fn pick_modes_parse() {
    assert_eq!(PickMode::parse("fast"), PickMode::Fast);
    assert_eq!(PickMode::parse("paste"), PickMode::Paste);
    assert_eq!(PickMode::parse("run"), PickMode::Run);
    assert_eq!(PickMode::parse("anything"), PickMode::Human);
    assert!(PickMode::Paste.is_paste());
    assert!(!PickMode::Run.is_paste());
}

#[test]
fn paste_is_demoted_under_rdp_and_for_sequences() {
    assert!(plan_delivery(Some(PickMode::Paste), false, false, 1).paste);
    assert!(!plan_delivery(Some(PickMode::Paste), false, true, 1).paste);
    assert!(!plan_delivery(Some(PickMode::Paste), false, false, 2).paste);
    let trigger = plan_delivery(None, true, false, 1);
    assert!(trigger.include_pre_typing_pause && !trigger.paste);
    let run = plan_delivery(Some(PickMode::Run), false, false, 1);
    assert!(run.submit && !run.include_pre_typing_pause);
    assert!(plan_delivery(Some(PickMode::Fast), false, false, 1).fast);
}

#[test]
fn completed_share_is_capped_and_safe_on_empty_bodies() {
    assert_eq!(completed_pct(5, 0), 0);
    assert_eq!(completed_pct(5, 10), 50);
    assert_eq!(completed_pct(30, 10), 100);
}

#[test]
fn undo_is_offered_only_for_a_plain_trigger_fire() {
    assert!(offers_undo(true, false, false));
    assert!(!offers_undo(false, false, false));
    assert!(!offers_undo(true, true, false));
    assert!(!offers_undo(true, false, true));
}

#[test]
fn context_is_gathered_only_when_referenced() {
    let n = context_needs("On $GIT_BRANCH: review the SELECTION");
    assert!(n.repo && n.selection && !n.clipboard);
    let n = context_needs("plain prose");
    assert!(!n.repo && !n.selection && !n.clipboard);
}
