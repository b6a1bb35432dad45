//! The macOS keyboard event tap: which native events reach the hook, and
//! the key event it hands over for the ones that do.

use crate::keys::{decode_utf16_lossy, is_control, utf16_lossy};
use vstd::prelude::*;

verus! {

/// The first non-control char of a decoded macOS key string.
pub open spec fn first_non_control(s: Seq<u32>) -> Option<u32>
    decreases s.len(),
{
    if s.len() == 0 {
        None
    } else if !(s[0] <= 0x1F || (0x7F <= s[0] <= 0x9F)) {
        Some(s[0])
    } else {
        first_non_control(s.drop_first())
    }
}

pub const KCG_EVENT_KEY_DOWN: u32 = 10;
pub const KCG_EVENT_TAP_DISABLED_BY_TIMEOUT: u32 = 0xFFFF_FFFE;
pub const KCG_EVENT_TAP_DISABLED_BY_USER_INPUT: u32 = 0xFFFF_FFFD;
/// Backspace on a US layout.
pub const KEY_CODE_DELETE: u16 = 51;

/// A key event as the tap saw it.
#[derive(Debug, Clone, Copy)]
pub struct KeyEvent {
    pub keycode: u16,
    pub typed: Option<char>,
    pub is_backspace: bool,
}

/// What the macOS event tap does with a native event: `None` passes it on
/// untouched (the tap was disabled, it is not a key-down, or this process
/// posted it: our own injected keystrokes must not look like the user
/// typing); otherwise the key event to hand to the hook.
pub fn tap_key_event(
    event_type: u32,
    source_pid: u32,
    own_pid: u32,
    keycode: u16,
    units: &[u16],
) -> (r: Option<KeyEvent>)
    ensures
        (event_type != KCG_EVENT_KEY_DOWN || source_pid == own_pid) <==> r is None,
        r matches Some(e) ==> {
            &&& e.keycode == keycode
            &&& e.is_backspace == (keycode == KEY_CODE_DELETE)
            &&& match e.typed {
                Some(c) => first_non_control(utf16_lossy(units@)) == Some(c as u32),
                None => first_non_control(utf16_lossy(units@)) is None,
            }
        },
{
    if event_type == KCG_EVENT_TAP_DISABLED_BY_TIMEOUT || event_type
        == KCG_EVENT_TAP_DISABLED_BY_USER_INPUT {
        return None;
    }
    if event_type != KCG_EVENT_KEY_DOWN {
        return None;
    }
    if source_pid == own_pid {
        return None;
    }
    let cs = decode_utf16_lossy(units);
    let ghost sv = cs@.map_values(|c: char| c as u32);
    let mut typed: Option<char> = None;
    let mut i: usize = 0;
    assert(sv.skip(0) =~= sv);
    while i < cs.len() && typed.is_none()
        invariant
            i <= cs@.len(),
            sv == cs@.map_values(|c: char| c as u32),
            match typed {
                Some(c) => first_non_control(sv) == Some(c as u32),
                None => first_non_control(sv) == first_non_control(sv.skip(i as int)),
            },
        decreases cs@.len() - i,
    {
        assert(sv.skip(i as int)[0] == cs@[i as int] as u32);
        if !is_control(cs[i]) {
            typed = Some(cs[i]);
        } else {
            assert(sv.skip(i as int).drop_first() =~= sv.skip(i + 1));
        }
        i = i + 1;
    }
    proof {
        if typed is None {
            assert(sv.skip(i as int) =~= Seq::<u32>::empty());
        }
    }
    Some(KeyEvent { keycode, typed, is_backspace: keycode == KEY_CODE_DELETE })
}


} // verus!
