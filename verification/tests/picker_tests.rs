use prompt_player::capture::CandidateWindow;
use prompt_player::picker::{
    promote_recents, restore_target, should_capture_focus, FocusCapture, SearchHit,
    SearchSession,
};
use prompt_player::prompt::Prompt;
use prompt_player::search::{haystack, SearchIndex};

fn hit(id: &str) -> SearchHit {
    SearchHit { prompt_id: id.into(), score: 0, highlights: Vec::new() }
}

fn ids(hits: &[SearchHit]) -> Vec<&str> {
    hits.iter().map(|h| h.prompt_id.as_str()).collect()
}

fn p(id: &str, name: &str, body: &str) -> Prompt {
    Prompt {
        id: id.into(),
        name: name.into(),
        description: String::new(),
        triggers: vec![id.into()],
        tags: Vec::new(),
        body: body.into(),
        commit_char: '>',
        hotkey: None,
        enabled: true,
        pinned: false,
    }
}

#[test]
fn reports_the_peak_not_the_last_query() {
    let mut s = SearchSession::default();
    for len in [1, 2, 3, 4, 5, 2] {
        s.note(len);
    }
    assert_eq!(s.take(), Some(5));
}

#[test]
fn take_resets_so_each_session_reports_once() {
    let mut s = SearchSession::default();
    s.note(3);
    assert_eq!(s.take(), Some(3));
    assert_eq!(s.take(), None);
}

#[test]
fn a_picker_opened_and_closed_without_typing_reports_nothing() {
    assert_eq!(SearchSession::default().take(), None);
    let mut s = SearchSession::default();
    s.note(0);
    assert_eq!(s.take(), None);
}

#[test]
fn saturates_instead_of_wrapping() {
    let mut s = SearchSession::default();
    s.note(9999);
    assert_eq!(s.take(), Some(u8::MAX));
}

#[test]
fn promote_recents_puts_recents_first_in_their_own_order() {
    let mut hits = vec![hit("a"), hit("b"), hit("c"), hit("d")];
    promote_recents(&mut hits, &["c".into(), "a".into()]);
    assert_eq!(ids(&hits), vec!["c", "a", "b", "d"]);
}

#[test]
fn promote_recents_is_stable_for_non_recents() {
    let mut hits = vec![hit("a"), hit("b"), hit("c")];
    promote_recents(&mut hits, &["c".into()]);
    assert_eq!(ids(&hits), vec!["c", "a", "b"], "a before b, as they came in");
}

#[test]
fn promote_recents_ignores_unknown_ids() {
    let mut hits = vec![hit("a"), hit("b")];
    promote_recents(&mut hits, &["ghost".into(), "b".into()]);
    assert_eq!(ids(&hits), vec!["b", "a"]);
}

#[test]
fn promote_recents_handles_empty_inputs() {
    let mut hits = vec![hit("a")];
    promote_recents(&mut hits, &[]);
    assert_eq!(hits.len(), 1);
    let mut empty: Vec<SearchHit> = Vec::new();
    promote_recents(&mut empty, &["a".into()]);
    assert!(empty.is_empty());
}

#[test]
fn promote_recents_keeps_scores_and_highlights() {
    let mut hits = vec![
        SearchHit { prompt_id: "a".into(), score: 7, highlights: vec![1, 2] },
        SearchHit { prompt_id: "b".into(), score: 3, highlights: vec![0] },
    ];
    promote_recents(&mut hits, &["b".into()]);
    assert_eq!(hits[0].score, 3);
    assert_eq!(hits[0].highlights, vec![0]);
    assert_eq!(hits[1].highlights, vec![1, 2]);
}

#[test]
fn empty_query_returns_all() {
    let mut idx = SearchIndex::new();
    idx.rebuild(&[p("a", "Alpha", ""), p("b", "Bravo", "")]);
    let hits = idx.query("", 10);
    assert_eq!(hits.len(), 2);
}

#[test]
fn fuzzy_query_ranks_by_score() {
    let mut idx = SearchIndex::new();
    idx.rebuild(&[
        p("alpha", "Alpha thing", ""),
        p("bravo", "Bravo refactoring", ""),
        p("charlie", "Charlie introduction", ""),
    ]);
    let hits = idx.query("refac", 5);
    assert!(!hits.is_empty());
    assert_eq!(hits[0].prompt_id, "bravo");
}

#[test]
fn rebuild_if_stale_is_idempotent_for_same_generation() {
    let mut idx = SearchIndex::new();
    let prompts = vec![p("alpha", "Alpha thing", "")];
    idx.rebuild_if_stale(7, &prompts);
    let mutated = vec![p("zeta", "Zeta thing", "")];
    idx.rebuild_if_stale(7, &mutated);
    let hits = idx.query("zeta", 5);
    assert!(hits.is_empty(), "stale rebuild must not pick up new prompts");
}

#[test]
fn rebuild_if_stale_picks_up_new_generation() {
    let mut idx = SearchIndex::new();
    idx.rebuild_if_stale(1, &[p("alpha", "Alpha", "")]);
    idx.rebuild_if_stale(2, &[p("zeta", "Zeta", "")]);
    let hits = idx.query("zeta", 5);
    assert_eq!(hits.first().map(|h| h.prompt_id.as_str()), Some("zeta"));
}

#[test]
fn rebuild_if_stale_zero_always_rebuilds() {
    let mut idx = SearchIndex::new();
    idx.rebuild_if_stale(0, &[p("alpha", "Alpha", "")]);
    idx.rebuild_if_stale(0, &[p("zeta", "Zeta", "")]);
    let hits = idx.query("zeta", 5);
    assert_eq!(hits.first().map(|h| h.prompt_id.as_str()), Some("zeta"));
}

#[test]
fn query_respects_the_limit_and_orders_by_score() {
    let mut idx = SearchIndex::new();
    idx.rebuild(&[p("a", "Alpha", ""), p("b", "Bravo", ""), p("c", "Charlie", "")]);
    assert_eq!(idx.query("", 2).len(), 2);
    let hits = idx.query("a", 10);
    for w in hits.windows(2) {
        assert!(w[0].score >= w[1].score);
    }
}

#[test]
fn haystack_joins_fields_and_caps_the_body() {
    let mut pr = p("x", "Name", &"b".repeat(200));
    pr.description = "Desc".into();
    pr.tags = vec!["t1".into()];
    let h = haystack(&pr);
    assert!(h.starts_with("Name Desc x t1 "));
    assert_eq!(h.chars().count(), "Name Desc x t1 ".len() + 120);
}

#[test]
fn focus_is_captured_only_when_needed() {
    assert!(should_capture_focus(false, FocusCapture::Take));
    assert!(!should_capture_focus(true, FocusCapture::Take));
    assert!(!should_capture_focus(false, FocusCapture::AlreadyTaken));
}

#[test]
fn restore_target_falls_back_to_the_raw_foreground() {
    let share = CandidateWindow {
        hwnd_raw: 1,
        class: "ZPToolBarParentWnd".into(),
        title: None,
        visible: true,
        cloaked: false,
        iconic: false,
    };
    let real = CandidateWindow {
        hwnd_raw: 2,
        class: "Notepad".into(),
        title: Some("notes".into()),
        visible: true,
        cloaked: false,
        iconic: false,
    };
    assert_eq!(
        restore_target(9, Some("fg".into()), &[share.clone(), real]),
        (2, Some("notes".to_string()))
    );
    assert_eq!(restore_target(9, Some("fg".into()), &[share]), (9, Some("fg".to_string())));
}
