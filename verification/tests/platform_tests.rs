use prompt_player::platform::key_state_byte;
use prompt_player::platform::idle_ms;
use prompt_player::platform::{after_affinity_failure, AffinityFailure};
use prompt_player::platform::is_prompt_file_name;
use prompt_player::picker::{wait_step, WaitStep};
use prompt_player::keys::{
    decode_utf16_lossy, translated_char, win_key_event, VK_BACK, VK_ESCAPE, VK_LSHIFT, VK_RETURN,
};
use prompt_player::mac_tap::{tap_key_event, KCG_EVENT_KEY_DOWN};
use prompt_player::platform::{
    should_hide_popup, taskbar_edge_from, tint_red, tinted_red, RgbaImage, PanelOptions, PopupDismissal, TaskbarEdge,
    COLLECTION_CAN_JOIN_ALL_SPACES, COLLECTION_FULL_SCREEN_AUXILIARY,
    COLLECTION_MOVE_TO_ACTIVE_SPACE, STYLE_MASK_NONACTIVATING_PANEL,
};

#[test]
fn picker_preset_is_keyboard_panel() {
    let p = PanelOptions::picker();
    assert!(p.can_become_key);
    assert_eq!(p.level, 101);
    assert!(p.collection_behavior & COLLECTION_CAN_JOIN_ALL_SPACES != 0);
    assert!(p.collection_behavior & COLLECTION_FULL_SCREEN_AUXILIARY != 0);
}

#[test]
fn popover_preset_is_non_keyboard() {
    let p = PanelOptions::popover();
    assert!(!p.can_become_key);
    assert!(p.accepts_mouse_moved);
    assert!(p.collection_behavior & COLLECTION_MOVE_TO_ACTIVE_SPACE != 0);
}

#[test]
fn flags_distinct() {
    assert_ne!(COLLECTION_CAN_JOIN_ALL_SPACES, COLLECTION_MOVE_TO_ACTIVE_SPACE);
    assert_ne!(STYLE_MASK_NONACTIVATING_PANEL, COLLECTION_CAN_JOIN_ALL_SPACES);
}

#[test]
fn tint_recolors_opaque_pixels_and_keeps_alpha() {
    let out = tint_red(&vec![0, 200, 0, 255, 1, 2, 3, 0]);
    assert_eq!(&out[0..4], &[255, 59, 48, 255]);
    assert_eq!(&out[4..8], &[1, 2, 3, 0]);
}

#[test]
fn tint_preserves_dimensions() {
    let src = RgbaImage { rgba: vec![0; 4 * 6], width: 3, height: 2 };
    let out = tinted_red(&src);
    assert_eq!((out.width, out.height), (3, 2));
    assert_eq!(out.rgba.len(), 4 * 6);
}

#[test]
fn tint_preserves_partial_alpha_for_antialiased_edges() {
    let out = tint_red(&vec![10, 20, 30, 128]);
    assert_eq!(out[3], 128, "antialiasing must survive the tint");
}

#[test]
fn taskbar_edge_falls_back_to_bottom() {
    assert_eq!(taskbar_edge_from(false, 1), TaskbarEdge::Bottom);
    assert_eq!(taskbar_edge_from(true, 1), TaskbarEdge::Top);
    assert_eq!(taskbar_edge_from(true, 0), TaskbarEdge::Left);
    assert_eq!(taskbar_edge_from(true, 2), TaskbarEdge::Right);
    assert_eq!(taskbar_edge_from(true, 3), TaskbarEdge::Bottom);
    assert_eq!(taskbar_edge_from(true, 42), TaskbarEdge::Bottom);
}

#[test]
fn a_click_right_after_the_hide_is_the_dismissal() {
    let mut d = PopupDismissal::new();
    assert!(!d.recently_dismissed_at(10_000));
    d.mark_hidden_at(10_000);
    assert!(d.recently_dismissed_at(10_100));
    assert!(!d.recently_dismissed_at(10_250));
    assert!(should_hide_popup(Some(5), Some(7)));
    assert!(!should_hide_popup(Some(7), Some(7)));
    assert!(!should_hide_popup(None, Some(7)));
    assert!(should_hide_popup(Some(5), None));
}

#[test]
fn windows_keys_are_classified() {
    let e = win_key_event(VK_BACK, Some('x'));
    assert!(e.is_backspace && e.typed.is_none());
    let e = win_key_event(VK_RETURN, Some('\r'));
    assert!(e.is_separator && e.typed.is_none());
    let e = win_key_event(VK_LSHIFT, None);
    assert!(e.is_pure_modifier);
    let e = win_key_event(VK_ESCAPE, None);
    assert!(e.is_escape);
    let e = win_key_event(0x41, Some('a'));
    assert_eq!(e.typed, Some('a'));
}

#[test]
fn utf16_is_decoded_lossily() {
    let units: Vec<u16> = "a😀".encode_utf16().collect();
    assert_eq!(decode_utf16_lossy(&units), vec!['a', '😀']);
    assert_eq!(decode_utf16_lossy(&[0xD800, 0x61]), vec!['\u{FFFD}', 'a']);
    assert_eq!(translated_char(1, &[0x61, 0]), Some('a'));
    assert_eq!(translated_char(1, &[0x0D, 0]), None);
    assert_eq!(translated_char(-1, &[0x61]), None);
}

#[test]
fn the_tap_ignores_our_own_keystrokes() {
    assert!(tap_key_event(KCG_EVENT_KEY_DOWN, 42, 42, 0, &[0x61]).is_none());
    let e = tap_key_event(KCG_EVENT_KEY_DOWN, 0, 42, 51, &[0x08]).unwrap();
    assert!(e.is_backspace);
    assert_eq!(e.typed, None);
    let e = tap_key_event(KCG_EVENT_KEY_DOWN, 0, 42, 0, &[0x1B, 0x62]).unwrap();
    assert_eq!(e.typed, Some('b'));
}

#[test]
fn key_state_bytes_keep_down_and_toggle_bits() {
    assert_eq!(key_state_byte(0x8000), 0x80);
    assert_eq!(key_state_byte(0x0001), 0x01);
    assert_eq!(key_state_byte(0xFF81), 0x81);
    assert_eq!(key_state_byte(0x7F7E), 0x00);
}

#[test]
fn idle_time_survives_the_tick_rollover() {
    assert_eq!(idle_ms(1_000, 400), 600);
    assert_eq!(idle_ms(5, u32::MAX - 4), 10);
}

#[test]
fn only_the_win32k_bug_earns_the_monitor_fallback() {
    assert_eq!(after_affinity_failure(0x8007_0008, true), AffinityFailure::RetryWithMonitor);
    assert_eq!(after_affinity_failure(0x8007_0008, false), AffinityFailure::GiveUp);
    assert_eq!(after_affinity_failure(0x8000_4005, true), AffinityFailure::GiveUp);
}

#[test]
fn only_pp_md_files_are_examples() {
    assert!(is_prompt_file_name("intro.pp.md"));
    assert!(!is_prompt_file_name("intro.md"));
    assert!(!is_prompt_file_name(".pp.m"));
    assert!(is_prompt_file_name(".pp.md"));
}

#[test]
fn a_transfer_seen_at_the_deadline_still_counts() {
    assert_eq!(wait_step(true, 400, 400), WaitStep::Arrived);
    assert_eq!(wait_step(false, 400, 400), WaitStep::TimedOut);
    assert_eq!(wait_step(false, 10, 400), WaitStep::Poll);
}
