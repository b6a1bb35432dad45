use prompt_player::matcher::{
    match_buffer, match_buffer_all, propagate_case, MatchIndex, MatcherState, RingBuffer,
    TriggerEntry,
};

const T0: u64 = 1_000_000;

fn t(prompt: &str, trigger: &str, words: usize) -> TriggerEntry {
    TriggerEntry {
        canonical: trigger.to_lowercase(),
        prompt_id: prompt.to_string(),
        word_count: words,
        commit_char: '>',
    }
}

fn build(now: u64, text: &str) -> RingBuffer {
    let mut b = RingBuffer::default();
    for (i, c) in text.chars().enumerate() {
        b.push(c, now + i as u64 * 100);
    }
    b
}

#[test]
fn same_prompt_id_rejected() {
    let mut idx = MatchIndex::new();
    idx.insert(t("p1", "build", 1)).unwrap();
    let err = idx.insert(t("p1", "build", 1));
    assert!(err.is_err());
}

#[test]
fn different_prompts_can_share_trigger_for_scopes() {
    let mut idx = MatchIndex::new();
    idx.insert(t("cursor-intro", "intro", 1)).unwrap();
    idx.insert(t("slack-intro", "intro", 1)).unwrap();
    let buf = build(T0, "intro");
    let all = match_buffer_all(&idx, &buf, '>', T0 + 600);
    assert_eq!(all.len(), 2, "both candidates should match");
}

#[test]
fn single_word_match_case_insensitive() {
    let mut idx = MatchIndex::new();
    idx.insert(t("p1", "build", 1)).unwrap();
    let buf = build(T0, "Build");
    let m = match_buffer(&idx, &buf, '>', T0 + 600).unwrap();
    assert_eq!(m.prompt_id, "p1");
    assert_eq!(m.trigger_chars, 5);
    assert_eq!(m.typed_form, "Build");
}

#[test]
fn multi_word_greedy_longest_match() {
    let mut idx = MatchIndex::new();
    idx.insert(t("short", "build", 1)).unwrap();
    idx.insert(t("long", "build me", 2)).unwrap();
    let buf = build(T0, "Build me");
    let m = match_buffer(&idx, &buf, '>', T0 + 900).unwrap();
    assert_eq!(m.prompt_id, "long");
    assert_eq!(m.word_count, 2);
}

#[test]
fn multi_word_resets_when_stale_and_last_word_is_trigger() {
    let mut idx = MatchIndex::new();
    idx.insert(t("short", "build", 1)).unwrap();
    idx.insert(t("long", "build me", 2)).unwrap();
    let mut buf = RingBuffer::default();
    for c in "Build".chars() {
        buf.push(c, T0);
    }
    for c in " Build".chars() {
        buf.push(c, T0 + 5_000);
    }
    let m = match_buffer(&idx, &buf, '>', T0 + 6_000).unwrap();
    assert_eq!(m.prompt_id, "short");
}

#[test]
fn no_match_when_last_word_isnt_a_trigger_and_multi_is_stale() {
    let mut idx = MatchIndex::new();
    idx.insert(t("short", "build", 1)).unwrap();
    idx.insert(t("long", "build me", 2)).unwrap();
    let mut buf = RingBuffer::default();
    for c in "Build".chars() {
        buf.push(c, T0);
    }
    for c in " me".chars() {
        buf.push(c, T0 + 5_000);
    }
    assert!(match_buffer(&idx, &buf, '>', T0 + 6_000).is_none());
}

#[test]
fn no_match_passes_through() {
    let idx = MatchIndex::new();
    let buf = build(T0, "unknown");
    assert!(match_buffer(&idx, &buf, '>', T0 + 700).is_none());
}

#[test]
fn case_propagation_rules() {
    assert_eq!(propagate_case("Build", "me a thing"), "Me a thing");
    assert_eq!(propagate_case("BUILD", "me a thing"), "ME A THING");
    assert_eq!(propagate_case("build", "me a thing"), "me a thing");
    assert_eq!(propagate_case("buIld", "me a thing"), "me a thing");
}

#[test]
fn matcher_state_rebuild() {
    let mut s = MatcherState::new();
    s.rebuild_index(vec![t("p1", "build", 1)]).unwrap();
    s.observe_char('B', T0);
    s.observe_char('u', T0 + 100);
    s.observe_char('i', T0 + 200);
    s.observe_char('l', T0 + 300);
    s.observe_char('d', T0 + 400);
    let m = s.try_match('>', T0 + 450).unwrap();
    assert_eq!(m.prompt_id, "p1");
}

#[test]
fn ring_keeps_the_most_recent_chars_in_order() {
    let mut b = RingBuffer::new();
    b.push('a', T0);
    b.push('b', T0 + 1);
    assert_eq!(b.len(), 2);
    assert_eq!(b.last_char(), Some('b'));
    b.pop_last(1);
    assert_eq!(b.last_char(), Some('a'));
    b.clear();
    assert!(b.is_empty());
}

#[test]
fn rebuild_stops_at_the_first_duplicate() {
    let mut s = MatcherState::new();
    let r = s.rebuild_index(vec![t("p1", "build", 1), t("p1", "build", 1), t("p2", "ship", 1)]);
    assert!(r.is_err());
    assert_eq!(s.index.len(), 1);
}
