use prompt_player::filters::{apply_chain, strip_thinking_blocks};

fn specs(v: &[&str]) -> Vec<String> {
    v.iter().map(|s| s.to_string()).collect()
}

#[test]
fn lowercase_uppercase() {
    assert_eq!(apply_chain("Hello", &specs(&["lowercase"])), "hello");
    assert_eq!(apply_chain("Hello", &specs(&["uppercase"])), "HELLO");
}

#[test]
fn strip_thinking_removes_tags() {
    let s = strip_thinking_blocks("hello <thinking>internal</thinking> world");
    assert_eq!(s, "hello  world");
}

#[test]
fn chain_applies_in_order() {
    let s = apply_chain(
        "<think>x</think>  Hello  ",
        &specs(&["strip-thinking-blocks", "trim", "lowercase"]),
    );
    assert_eq!(s, "hello");
}

#[test]
fn regex_replace_with_global() {
    let s = apply_chain("foo bar foo", &specs(&["regex-replace: s/foo/baz/g"]));
    assert_eq!(s, "baz bar baz");
}

#[test]
fn regex_replace_first_only_without_g() {
    let s = apply_chain("foo bar foo", &specs(&["regex-replace: s/foo/baz/"]));
    assert_eq!(s, "baz bar foo");
}

#[test]
fn regex_replace_case_insensitive_flag() {
    let s = apply_chain("Foo FOO", &specs(&["regex-replace: s/foo/baz/gi"]));
    assert_eq!(s, "baz baz");
}

#[test]
fn regex_replace_invalid_pattern_is_passthrough() {
    let s = apply_chain("abc", &specs(&["regex-replace: s/[/X/g"]));
    assert_eq!(s, "abc");
}

#[test]
fn regex_replace_malformed_spec_is_passthrough() {
    let s = apply_chain("abc", &specs(&["regex-replace: not-an-s-spec"]));
    assert_eq!(s, "abc");
}

#[test]
fn capitalize_first_char_only() {
    assert_eq!(apply_chain("hello world", &specs(&["capitalize"])), "Hello world");
    assert_eq!(apply_chain("", &specs(&["capitalize"])), "");
}

#[test]
fn trim_strips_leading_trailing_whitespace() {
    assert_eq!(apply_chain("  hi  ", &specs(&["trim"])), "hi");
}

#[test]
fn strip_thinking_handles_self_closed_thinking_tag() {
    let s = strip_thinking_blocks("a<think>secret</think>b");
    assert_eq!(s, "ab");
}

#[test]
fn strip_thinking_preserves_normal_text() {
    let s = strip_thinking_blocks("plain text without tags");
    assert_eq!(s, "plain text without tags");
}

#[test]
fn markdown_to_plain_extracts_text() {
    let s = apply_chain(
        "# Heading\n\nSome **bold** text and `code`.",
        &specs(&["markdown-to-plain"]),
    );
    assert!(s.contains("Heading"));
    assert!(s.contains("bold"));
    assert!(s.contains("code"));
    assert!(!s.contains("**"));
    assert!(!s.contains('`'));
}

#[test]
fn unknown_filter_passes_through() {
    let s = apply_chain("untouched", &specs(&["this-filter-does-not-exist"]));
    assert_eq!(s, "untouched");
}

#[test]
fn empty_chain_is_identity() {
    let s = apply_chain("hello", &[]);
    assert_eq!(s, "hello");
}

#[test]
fn inject_typos_filter_is_currently_passthrough() {
    assert_eq!(apply_chain("hello", &specs(&["inject-typos"])), "hello");
}

#[test]
fn filter_with_inline_arg_uses_colon_separator() {
    let s = apply_chain("AAAA", &specs(&["regex-replace: s/A/b/g"]));
    assert_eq!(s, "bbbb");
}

#[test]
fn regex_replace_expands_capture_groups() {
    let s = apply_chain("John Smith", &specs(&["regex-replace: s/(\\w+) (\\w+)/$2 $1/"]));
    assert_eq!(s, "Smith John");
}

#[test]
fn markdown_paragraphs_are_separated_by_a_blank_line() {
    let s = apply_chain("one\n\ntwo", &specs(&["markdown-to-plain"]));
    assert_eq!(s, "one\n\ntwo");
}

#[test]
fn unicode_case_mapping_goes_through_std() {
    assert_eq!(apply_chain("ß", &specs(&["uppercase"])), "SS");
    assert_eq!(apply_chain("ǆemal", &specs(&["capitalize"])), "Ǆemal");
}
