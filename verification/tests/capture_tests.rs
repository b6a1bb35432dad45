use prompt_player::capture::{
    is_known_share_helper, is_own_window_class, select_target, target_decisions,
    CandidateWindow, RejectReason, TargetDecision,
};

#[test]
fn share_helper_classes_recognised() {
    for c in [
        "ZPToolBarParentWnd",
        "ZPContentViewWndClass",
        "ZPFloatVideoWndClass",
        "Zoom_ShareControlBar",
        "ZPMeetingMainFrameClassForWindow",
        "ZPSharingFloatToolbarClass",
    ] {
        assert!(is_known_share_helper(c), "expected share-helper: {c}");
    }
}

#[test]
fn non_share_classes_pass_through() {
    for c in [
        "Chrome_WidgetWin_1",
        "Notepad",
        "CASCADIA_HOSTING_WINDOW_CLASS",
        "MozillaWindowClass",
        "",
        "tauri window",
        "zptoolbarparentwnd",
        "Chrome_RenderWidgetHostHWND",
    ] {
        assert!(!is_known_share_helper(c), "unexpected share-helper match: {c}");
    }
}

#[test]
fn own_classes_recognised() {
    assert!(is_own_window_class("PromptPlayerMenuOwner"));
}

#[test]
fn tauri_window_class_is_a_valid_restore_target() {
    assert!(!is_own_window_class("Tauri Window"));
}

#[test]
fn non_own_classes_pass_through() {
    for c in [
        "Chrome_WidgetWin_1",
        "Notepad",
        "Tauri Window",
        "promptplayermenuowner",
        "PromptPlayer",
        "ZPToolBarParentWnd",
        "",
    ] {
        assert!(!is_own_window_class(c), "unexpected own-class match: {c}");
    }
}

#[test]
fn share_and_own_are_disjoint() {
    let share = [
        "ZPToolBarParentWnd",
        "ZPContentViewWndClass",
        "ZPFloatVideoWndClass",
        "Zoom_ShareControlBar",
        "ZPMeetingMainFrameClassForWindow",
        "ZPSharingFloatToolbarClass",
    ];
    let own = ["PromptPlayerMenuOwner"];
    for s in share {
        assert!(!is_own_window_class(s), "share class also matched own: {s}");
    }
    for o in own {
        assert!(!is_known_share_helper(o), "own class also matched share: {o}");
    }
}

fn cand(class: &str) -> CandidateWindow {
    CandidateWindow {
        hwnd_raw: 0x1000,
        class: class.into(),
        title: Some(format!("{class} title")),
        visible: true,
        cloaked: false,
        iconic: false,
    }
}

#[test]
fn f1_share_helper_at_head_is_skipped() {
    let cs = vec![cand("ZPToolBarParentWnd"), cand("Chrome_WidgetWin_1")];
    let picked = select_target(&cs).expect("must pick the non-share-helper");
    assert_eq!(picked.class, "Chrome_WidgetWin_1");
}

#[test]
fn f2_own_class_at_head_is_skipped() {
    let cs = vec![cand("PromptPlayerMenuOwner"), cand("Notepad")];
    let picked = select_target(&cs).expect("must pick past our own window");
    assert_eq!(picked.class, "Notepad");
}

#[test]
fn f3_cloaked_iconic_invisible_are_skipped() {
    let mut cloaked = cand("Notepad");
    cloaked.cloaked = true;
    let mut iconic = cand("Slack");
    iconic.iconic = true;
    let mut hidden = cand("Edge");
    hidden.visible = false;
    let visible = cand("Code");
    let cs = vec![cloaked, iconic, hidden, visible];
    let picked = select_target(&cs).expect("must reach the first visible candidate");
    assert_eq!(picked.class, "Code");
}

#[test]
fn f4_no_acceptable_returns_none() {
    let cs = vec![
        cand("ZPToolBarParentWnd"),
        cand("ZPContentViewWndClass"),
        cand("PromptPlayerMenuOwner"),
        {
            let mut c = cand("Notepad");
            c.iconic = true;
            c
        },
    ];
    assert!(select_target(&cs).is_none(), "no acceptable candidate must return None");
}

#[test]
fn f5_normal_foreground_is_picked_unchanged() {
    for c in ["Chrome_WidgetWin_1", "Notepad", "MozillaWindowClass"] {
        let cs = vec![cand(c)];
        let picked = select_target(&cs).unwrap_or_else(|| panic!("must pick {c}"));
        assert_eq!(picked.class, c);
    }
}

#[test]
fn select_target_caps_at_10() {
    let mut cs: Vec<CandidateWindow> = (0..10).map(|_| cand("PromptPlayerMenuOwner")).collect();
    cs.push(cand("Notepad"));
    assert!(select_target(&cs).is_none(), "select_target must respect the 10-iteration cap");
}

#[test]
fn select_target_picks_at_cap_boundary() {
    let mut cs: Vec<CandidateWindow> = (0..9).map(|_| cand("PromptPlayerMenuOwner")).collect();
    cs.push(cand("Notepad"));
    let picked = select_target(&cs).expect("10th candidate is within the cap");
    assert_eq!(picked.class, "Notepad");
}

#[test]
fn select_target_logs_accepted_decision() {
    let cs = vec![cand("Notepad")];
    let _ = select_target(&cs);
    let log = target_decisions(&cs);
    assert!(
        matches!(log.last(), Some(TargetDecision::Accepted { index: 0 })),
        "expected an accepted decision"
    );
}

#[test]
fn select_target_logs_rejection_reason() {
    let cs = vec![cand("ZPToolBarParentWnd"), cand("Notepad")];
    let _ = select_target(&cs);
    let log = target_decisions(&cs);
    match log[0] {
        TargetDecision::Rejected { index: 0, reason } => {
            assert_eq!(reason, RejectReason::ShareHelper);
            assert_eq!(reason.label(), "share_helper");
        }
        other => panic!("expected a rejection, got {other:?}"),
    }
    assert!(matches!(log[1], TargetDecision::Accepted { index: 1 }));
}

#[test]
fn select_target_logs_cloaked_rejection() {
    let mut c = cand("Notepad");
    c.cloaked = true;
    let cs = vec![c];
    let _ = select_target(&cs);
    let log = target_decisions(&cs);
    match log[0] {
        TargetDecision::Rejected { reason, .. } => assert_eq!(reason.label(), "cloaked"),
        other => panic!("expected a rejection, got {other:?}"),
    }
}
