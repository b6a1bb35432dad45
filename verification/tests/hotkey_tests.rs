use prompt_player::hotkey::{normalize, normalize_lowered};

#[test]
fn cmd_shift_letter() {
    assert_eq!(normalize("cmd+shift+P"), "CmdOrCtrl+Shift+KeyP");
}

#[test]
fn alt_cmd_backslash_palette_default() {
    assert_eq!(normalize("alt+cmd+\\"), "Alt+CmdOrCtrl+Backslash");
}

#[test]
fn unicode_modifier_glyphs_accepted() {
    assert_eq!(normalize("⌘+⇧+1"), "CmdOrCtrl+Shift+Digit1");
    assert_eq!(normalize("⌥+⌘+\\"), "Alt+CmdOrCtrl+Backslash");
    // Unseparated glyphs read as separate modifiers.
    assert_eq!(normalize("⌘⇧1"), "CmdOrCtrl+Shift+Digit1");
    assert_eq!(normalize("⌥⌘\\"), "Alt+CmdOrCtrl+Backslash");
    assert_eq!(normalize("⌃⌥⇧k"), "Control+Alt+Shift+KeyK");
    assert_eq!(normalize("⌘⇧+p"), "CmdOrCtrl+Shift+KeyP");
}

#[test]
fn lowered_pieces_split_their_glyphs() {
    assert_eq!(normalize_lowered(&["⌘⇧1".to_string()]), "CmdOrCtrl+Shift+Digit1");
    assert_eq!(normalize_lowered(&["⌘".to_string(), "a".to_string()]), "CmdOrCtrl+KeyA");
    assert_eq!(normalize_lowered(&["".to_string()]), "");
    assert_eq!(normalize_lowered(&["f1".to_string()]), "F1");
}

#[test]
fn case_insensitive_modifiers() {
    assert_eq!(normalize("CTRL+SHIFT+a"), "Control+Shift+KeyA");
    assert_eq!(normalize("cmd+shift+a"), normalize("CMD+SHIFT+A"));
}

#[test]
fn dash_separator_treated_like_plus() {
    assert_eq!(normalize("cmd-shift-1"), "CmdOrCtrl+Shift+Digit1");
}

#[test]
fn special_keys_are_recognized() {
    assert_eq!(normalize("esc"), "Escape");
    assert_eq!(normalize("space"), "Space");
    assert_eq!(normalize("enter"), "Enter");
    assert_eq!(normalize("tab"), "Tab");
    assert_eq!(normalize("backspace"), "Backspace");
    assert_eq!(normalize("up"), "ArrowUp");
    assert_eq!(normalize("cmd+right"), "CmdOrCtrl+ArrowRight");
}

#[test]
fn function_keys_passthrough_titlecased() {
    assert_eq!(normalize("cmd+f1"), "CmdOrCtrl+F1");
    assert_eq!(normalize("cmd+F12"), "CmdOrCtrl+F12");
}

#[test]
fn whitespace_around_parts_stripped() {
    assert_eq!(normalize(" cmd  +  shift +  1 "), "CmdOrCtrl+Shift+Digit1");
}

#[test]
fn alt_aliases_consistent() {
    let a = normalize("alt+cmd+a");
    let b = normalize("opt+cmd+a");
    let c = normalize("option+cmd+a");
    let d = normalize("⌥+cmd+a");
    assert_eq!(a, b);
    assert_eq!(b, c);
    assert_eq!(c, d);
}

#[test]
fn meta_super_alias_to_cmdorctrl() {
    assert_eq!(normalize("super+a"), "CmdOrCtrl+KeyA");
    assert_eq!(normalize("meta+a"), "CmdOrCtrl+KeyA");
    assert_eq!(normalize("win+a"), "CmdOrCtrl+KeyA");
}
