use prompt_player::inject::{
    clipboard_text, clipboard_units, ctrl_v_inputs, modifier_release_candidates, paste_next,
    release_user_modifiers, type_char_unicode, vk_input, KeyboardInput, PasteAction, PasteError,
    PasteEvent, PasteStage, KEYEVENTF_KEYUP, KEYEVENTF_UNICODE, PASTE_SETTLE_MS, VK_V,
};
use prompt_player::keys::{VK_CONTROL, VK_LMENU, VK_LSHIFT, VK_MENU, VK_RMENU, VK_RSHIFT, VK_SHIFT};

fn unicode(scan: u16, up: bool) -> KeyboardInput {
    KeyboardInput {
        vk: 0,
        scan,
        flags: if up { KEYEVENTF_UNICODE | KEYEVENTF_KEYUP } else { KEYEVENTF_UNICODE },
    }
}

#[test]
fn a_virtual_key_release_carries_the_keyup_flag() {
    assert_eq!(vk_input(VK_V, false), KeyboardInput { vk: 0x56, scan: 0, flags: 0 });
    assert_eq!(vk_input(VK_V, true), KeyboardInput { vk: 0x56, scan: 0, flags: 0x0002 });
}

#[test]
fn a_bmp_char_is_one_unicode_press_and_release() {
    assert_eq!(type_char_unicode('a'), vec![unicode(0x61, false), unicode(0x61, true)]);
    assert_eq!(type_char_unicode('é'), vec![unicode(0xE9, false), unicode(0xE9, true)]);
}

#[test]
fn an_astral_char_goes_as_its_surrogate_pair() {
    assert_eq!(
        type_char_unicode('😀'),
        vec![
            unicode(0xD83D, false),
            unicode(0xD83D, true),
            unicode(0xDE00, false),
            unicode(0xDE00, true),
        ]
    );
}

#[test]
fn the_paste_chord_is_ctrl_v_in_order() {
    assert_eq!(
        ctrl_v_inputs(),
        vec![
            vk_input(VK_CONTROL, false),
            vk_input(VK_V, false),
            vk_input(VK_V, true),
            vk_input(VK_CONTROL, true),
        ]
    );
}

#[test]
fn only_held_modifiers_are_released() {
    assert_eq!(
        modifier_release_candidates(),
        vec![VK_MENU, VK_LMENU, VK_RMENU, VK_SHIFT, VK_LSHIFT, VK_RSHIFT]
    );
    let states = [
        (VK_MENU, i16::MIN),
        (VK_LMENU, 0),
        (VK_RMENU, 1),
        (VK_SHIFT, 0x7FFF),
        (VK_LSHIFT, -1),
        (VK_RSHIFT, 0),
    ];
    assert_eq!(release_user_modifiers(&states), vec![vk_input(VK_MENU, true), vk_input(VK_LSHIFT, true)]);
    assert!(release_user_modifiers(&[(VK_SHIFT, 1), (VK_MENU, 0)]).is_empty());
}

#[test]
fn clipboard_text_is_utf16_with_a_nul() {
    assert_eq!(clipboard_units("hé"), vec![0x68, 0xE9, 0]);
    assert_eq!(clipboard_units("😀"), vec![0xD83D, 0xDE00, 0]);
    assert_eq!(clipboard_units(""), vec![0]);
}

#[test]
fn clipboard_text_stops_at_the_first_nul() {
    assert_eq!(clipboard_text(&[0x68, 0x69, 0, 0x41]), "hi");
    assert_eq!(clipboard_text(&[0x68, 0x69]), "hi");
    assert_eq!(clipboard_text(&[0, 0x41]), "");
    assert_eq!(clipboard_text(&[0xD83D, 0xDE00, 0]), "😀");
    assert_eq!(clipboard_text(&[0x41, 0xD800, 0x42, 0]), "A\u{FFFD}B");
}

#[test]
fn a_smooth_paste_saves_sets_sends_waits_and_restores() {
    let (s, a) = paste_next(PasteStage::Idle, PasteEvent::Begin);
    assert!(matches!(a, PasteAction::SaveClipboard));
    let (s, a) = paste_next(s, PasteEvent::Saved(Ok(())));
    assert!(matches!(a, PasteAction::SetText));
    let (s, a) = paste_next(s, PasteEvent::TextSet(Ok(())));
    assert!(matches!(a, PasteAction::SendPasteKeys));
    let (s, a) = paste_next(s, PasteEvent::Sent(Ok(())));
    assert!(matches!(a, PasteAction::Wait(ms) if ms == PASTE_SETTLE_MS));
    assert_eq!(PASTE_SETTLE_MS, 250);
    let (s, a) = paste_next(s, PasteEvent::Waited);
    assert!(matches!(a, PasteAction::RestoreClipboard));
    let (s, a) = paste_next(s, PasteEvent::Restored(true));
    assert!(matches!(a, PasteAction::Finish(Ok(()))));
    assert!(matches!(s, PasteStage::Done));
}

#[test]
fn an_unreadable_clipboard_fails_before_anything_is_touched() {
    let (s, _) = paste_next(PasteStage::Idle, PasteEvent::Begin);
    let (s, a) = paste_next(s, PasteEvent::Saved(Err("bitmap".into())));
    assert!(matches!(a, PasteAction::Finish(Err(PasteError::Clipboard(ref e))) if e == "bitmap"));
    assert!(matches!(s, PasteStage::Done));
}

#[test]
fn a_failed_write_restores_then_reports_a_clipboard_error() {
    let (s, a) = paste_next(PasteStage::Setting, PasteEvent::TextSet(Err("busy".into())));
    assert!(matches!(a, PasteAction::RestoreClipboard));
    let (_, a) = paste_next(s, PasteEvent::Restored(true));
    assert!(matches!(a, PasteAction::Finish(Err(PasteError::Clipboard(ref e))) if e == "busy"));
}

#[test]
fn a_failed_keystroke_restores_then_reports_an_injection_error() {
    let (s, a) = paste_next(PasteStage::Pasting, PasteEvent::Sent(Err("sent 2/4".into())));
    assert!(matches!(a, PasteAction::RestoreClipboard));
    let (_, a) = paste_next(s, PasteEvent::Restored(false));
    assert!(matches!(a, PasteAction::Finish(Err(PasteError::Injection(ref e))) if e == "sent 2/4"));
}

#[test]
fn a_failed_restore_leaves_the_paste_a_success() {
    let (_, a) = paste_next(PasteStage::Restoring(Ok(())), PasteEvent::Restored(false));
    assert!(matches!(a, PasteAction::Finish(Ok(()))));
}

#[test]
fn an_event_out_of_turn_does_nothing() {
    let (s, a) = paste_next(PasteStage::Settling, PasteEvent::Begin);
    assert!(matches!(a, PasteAction::Nothing));
    assert!(matches!(s, PasteStage::Settling));
    let (s, a) = paste_next(PasteStage::Done, PasteEvent::Waited);
    assert!(matches!(a, PasteAction::Nothing));
    assert!(matches!(s, PasteStage::Done));
}
