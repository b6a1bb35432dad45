//! From a native key event to a [`KeyEvent`]: which virtual keys are
//! backspace, separators, Escape or bare modifiers, and which char a key
//! typed, decoded from the UTF-16 the OS hands back.

use crate::hook::KeyEvent;
use crate::tray_menu::{utf16, utf16_of};
use vstd::prelude::*;

verus! {

pub const VK_BACK: u16 = 0x08;
pub const VK_TAB: u16 = 0x09;
pub const VK_RETURN: u16 = 0x0D;
pub const VK_SHIFT: u16 = 0x10;
pub const VK_CONTROL: u16 = 0x11;
pub const VK_MENU: u16 = 0x12;
pub const VK_CAPITAL: u16 = 0x14;
pub const VK_ESCAPE: u16 = 0x1B;
pub const VK_LWIN: u16 = 0x5B;
pub const VK_RWIN: u16 = 0x5C;
pub const VK_LSHIFT: u16 = 0xA0;
pub const VK_RSHIFT: u16 = 0xA1;
pub const VK_LCONTROL: u16 = 0xA2;
pub const VK_RCONTROL: u16 = 0xA3;
pub const VK_LMENU: u16 = 0xA4;
pub const VK_RMENU: u16 = 0xA5;

/// Shift, Ctrl, Alt and Win (either side), and Caps Lock: keys that type
/// nothing themselves.
pub open spec fn spec_is_pure_modifier(vk: u16) -> bool {
    ||| vk == VK_SHIFT
    ||| vk == VK_LSHIFT
    ||| vk == VK_RSHIFT
    ||| vk == VK_CONTROL
    ||| vk == VK_LCONTROL
    ||| vk == VK_RCONTROL
    ||| vk == VK_MENU
    ||| vk == VK_LMENU
    ||| vk == VK_RMENU
    ||| vk == VK_LWIN
    ||| vk == VK_RWIN
    ||| vk == VK_CAPITAL
}

pub fn is_pure_modifier(vk: u16) -> (r: bool)
    ensures
        r == spec_is_pure_modifier(vk),
{
    vk == VK_SHIFT || vk == VK_LSHIFT || vk == VK_RSHIFT || vk == VK_CONTROL || vk == VK_LCONTROL
        || vk == VK_RCONTROL || vk == VK_MENU || vk == VK_LMENU || vk == VK_RMENU || vk
        == VK_LWIN || vk == VK_RWIN || vk == VK_CAPITAL
}

/// Whether a virtual key needs its char translated: everything but
/// backspace, the bare modifiers, Return / Tab and Escape.
pub open spec fn spec_needs_translation(vk: u16) -> bool {
    !(vk == VK_BACK || spec_is_pure_modifier(vk) || vk == VK_RETURN || vk == VK_TAB || vk
        == VK_ESCAPE)
}

pub fn needs_translation(vk: u16) -> (r: bool)
    ensures
        r == spec_needs_translation(vk),
{
    !(vk == VK_BACK || is_pure_modifier(vk) || vk == VK_RETURN || vk == VK_TAB || vk == VK_ESCAPE)
}

/// The key event for a Windows virtual key; `typed` is the translated char,
/// used only when the key needs translation.
pub fn win_key_event(vk: u16, typed: Option<char>) -> (r: KeyEvent)
    ensures
        r.is_backspace == (vk == VK_BACK),
        r.is_separator == (vk == VK_RETURN || vk == VK_TAB),
        r.is_pure_modifier == spec_is_pure_modifier(vk),
        r.is_escape == (vk == VK_ESCAPE),
        r.typed == if spec_needs_translation(vk) {
            typed
        } else {
            None
        },
{
    let is_backspace = vk == VK_BACK;
    let is_separator = vk == VK_RETURN || vk == VK_TAB;
    let is_pure_modifier = is_pure_modifier(vk);
    let is_escape = vk == VK_ESCAPE;
    let typed = if is_backspace || is_pure_modifier || is_separator || is_escape {
        None
    } else {
        typed
    };
    KeyEvent { typed, is_backspace, is_pure_modifier, is_separator, is_escape }
}

/// `HC_ACTION`: the hook call carries a key event.
pub const HC_ACTION: i32 = 0;

/// `WM_KEYDOWN`.
pub const WM_KEYDOWN: u32 = 0x0100;

/// `WM_SYSKEYDOWN`: a key pressed with Alt held.
pub const WM_SYSKEYDOWN: u32 = 0x0104;

/// `LLKHF_INJECTED`: the event was synthesized, not typed.
pub const LLKHF_INJECTED: u32 = 0x10;

/// Whether the low-level keyboard hook looks at an event at all: a key-down
/// (plain or with Alt) delivered as an action and typed by a person. Any
/// injected event goes straight on, ours or another tool's, so synthesized
/// keys never feed the panic ring or fire a trigger.
pub fn hook_should_process(code: i32, message: u32, flags: u32) -> (r: bool)
    ensures
        r == (code == HC_ACTION && (message == WM_KEYDOWN || message == WM_SYSKEYDOWN) && flags
            & LLKHF_INJECTED == 0),
{
    code == HC_ACTION && (message == WM_KEYDOWN || message == WM_SYSKEYDOWN) && flags & LLKHF_INJECTED
        == 0
}

/// Unicode general category `Cc`, the set `char::is_control` tests.
pub open spec fn spec_is_control(c: char) -> bool {
    let u = c as u32;
    u <= 0x1F || (0x7F <= u <= 0x9F)
}

pub fn is_control(c: char) -> (r: bool)
    ensures
        r == spec_is_control(c),
{
    let u = c as u32;
    u <= 0x1F || (0x7F <= u && u <= 0x9F)
}

/// A Unicode scalar value: at most U+10FFFF and not a surrogate.
pub open spec fn is_scalar(x: u32) -> bool {
    x <= 0x10FFFF && !(0xD800 <= x <= 0xDFFF)
}

/// Calls `char::from_u32`: `Some` exactly for a scalar value, holding it.
#[verifier::external_body]
fn char_from_u32(x: u32) -> (r: Option<char>)
    ensures
        r is Some == is_scalar(x),
        r matches Some(c) ==> c as u32 == x,
{
    char::from_u32(x)
}

pub open spec fn is_high_surrogate(u: u16) -> bool {
    0xD800 <= u <= 0xDBFF
}

pub open spec fn is_low_surrogate(u: u16) -> bool {
    0xDC00 <= u <= 0xDFFF
}

/// How many code units the char at the front of `units` takes.
pub open spec fn unit_width(units: Seq<u16>) -> int {
    if units.len() >= 2 && is_high_surrogate(units[0]) && is_low_surrogate(units[1]) {
        2
    } else {
        1
    }
}

/// The scalar value of the char at the front of `units`, or U+FFFD for an
/// unpaired surrogate (lossy decoding).
pub open spec fn front_scalar(units: Seq<u16>) -> u32 {
    let u = units[0];
    if unit_width(units) == 2 {
        (0x10000 + (u - 0xD800) * 1024 + (units[1] - 0xDC00)) as u32
    } else if 0xD800 <= u <= 0xDFFF {
        0xFFFD
    } else {
        u as u32
    }
}

/// `String::from_utf16_lossy`, as scalar values.
pub open spec fn utf16_lossy(units: Seq<u16>) -> Seq<u32>
    decreases units.len(),
{
    if units.len() == 0 {
        Seq::empty()
    } else {
        seq![front_scalar(units)] + utf16_lossy(units.skip(unit_width(units)))
    }
}

proof fn lemma_front_scalar_valid(units: Seq<u16>)
    requires
        units.len() > 0,
    ensures
        is_scalar(front_scalar(units)),
{
}

/// Decode UTF-16, replacing each unpaired surrogate with U+FFFD.
pub fn decode_utf16_lossy(units: &[u16]) -> (r: Vec<char>)
    ensures
        r@.map_values(|c: char| c as u32) == utf16_lossy(units@),
{
    let mut out: Vec<char> = Vec::new();
    let mut i: usize = 0;
    assert(units@.skip(0) =~= units@);
    while i < units.len()
        invariant
            i <= units@.len(),
            out@.map_values(|c: char| c as u32) + utf16_lossy(units@.skip(i as int)) == utf16_lossy(
                units@,
            ),
        decreases units@.len() - i,
    {
        let rest = Ghost(units@.skip(i as int));
        let u = units[i];
        let paired = i + 1 < units.len() && 0xD800 <= u && u <= 0xDBFF && 0xDC00 <= units[i + 1]
            && units[i + 1] <= 0xDFFF;
        let scalar: u32 = if paired {
            0x10000 + (u as u32 - 0xD800) * 1024 + (units[i + 1] as u32 - 0xDC00)
        } else if 0xD800 <= u && u <= 0xDFFF {
            0xFFFD
        } else {
            u as u32
        };
        assert(rest@[0] == u);
        assert(paired ==> rest@[1] == units@[i + 1]);
        assert(scalar == front_scalar(rest@));
        proof {
            lemma_front_scalar_valid(rest@);
        }
        let c = match char_from_u32(scalar) {
            Some(c) => c,
            None => '\u{FFFD}',
        };
        let ghost before = out@.map_values(|c: char| c as u32);
        out.push(c);
        assert(out@.map_values(|c: char| c as u32) =~= before.push(scalar));
        let step: usize = if paired {
            2
        } else {
            1
        };
        assert(rest@.skip(unit_width(rest@)) =~= units@.skip(i + step));
        i = i + step;
    }
    assert(units@.skip(i as int) =~= Seq::<u16>::empty());
    out
}

/// The char a Windows key translation produced: the first decoded char of
/// the units, unless it is a control char. A count of zero or less (no char,
/// or a dead key) yields none.
pub open spec fn spec_translated_char(count: i32, units: Seq<u16>) -> Option<u32> {
    if count <= 0 || count as int > units.len() {
        None
    } else {
        let s = utf16_lossy(units.take(count as int));
        if s.len() > 0 && !(s[0] <= 0x1F || (0x7F <= s[0] <= 0x9F)) {
            Some(s[0])
        } else {
            None
        }
    }
}

/// The typed char of a Windows key translation that wrote `count` units
/// into `units`.
pub fn translated_char(count: i32, units: &[u16]) -> (r: Option<char>)
    ensures
        match r {
            Some(c) => spec_translated_char(count, units@) == Some(c as u32),
            None => spec_translated_char(count, units@) is None,
        },
{
    if count <= 0 || count as usize > units.len() {
        return None;
    }
    let mut head: Vec<u16> = Vec::new();
    let mut k: usize = 0;
    while k < count as usize
        invariant
            k <= count as usize <= units@.len(),
            head@ == units@.take(k as int),
        decreases count as usize - k,
    {
        head.push(units[k]);
        k = k + 1;
        assert(head@ =~= units@.take(k as int));
    }
    let cs = decode_utf16_lossy(head.as_slice());
    if cs.len() > 0 && !is_control(cs[0]) {
        Some(cs[0])
    } else {
        None
    }
}

proof fn lemma_utf16_front(s: Seq<char>)
    requires
        s.len() > 0,
    ensures
        utf16(s) == utf16_of(s[0]) + utf16(s.drop_first()),
    decreases s.len(),
{
    if s.len() == 1 {
        assert(s.drop_first() =~= Seq::<char>::empty());
        assert(s.drop_last() =~= Seq::<char>::empty());
        assert(utf16(s) =~= utf16_of(s[0]) + utf16(s.drop_first()));
    } else {
        lemma_utf16_front(s.drop_last());
        assert(s.drop_last().drop_first() =~= s.drop_first().drop_last());
        assert(s.drop_first().last() == s.last());
        assert(s.drop_last()[0] == s[0]);
        assert(utf16(s) =~= utf16_of(s[0]) + utf16(s.drop_first()));
    }
}

proof fn lemma_lossy_front(c: char, rest: Seq<u16>)
    ensures
        utf16_lossy(utf16_of(c) + rest) == seq![c as u32] + utf16_lossy(rest),
{
    let units = utf16_of(c) + rest;
    let u = c as u32;
    if u < 0x10000 {
        assert(units[0] == u as u16);
        assert(!is_high_surrogate(units[0]));
        assert(unit_width(units) == 1);
        assert(front_scalar(units) == u);
        assert(units.skip(1) =~= rest);
    } else {
        let v = u - 0x10000;
        assert(v < 0x100000);
        assert(v / 1024 < 1024);
        assert(v % 1024 < 1024);
        assert(units[0] == (0xD800 + v / 1024) as u16);
        assert(units[1] == (0xDC00 + v % 1024) as u16);
        assert(is_high_surrogate(units[0]));
        assert(is_low_surrogate(units[1]));
        assert(unit_width(units) == 2);
        assert(v == 1024 * (v / 1024) + v % 1024);
        assert(front_scalar(units) == u);
        assert(units.skip(2) =~= rest);
    }
    assert(utf16_lossy(units) =~= seq![u] + utf16_lossy(rest));
}

/// Decoding what [`crate::tray_menu::wstr`] encodes gives the text back:
/// UTF-16 encoding loses nothing, so the lossy decoder never has to
/// substitute on it.
pub proof fn lemma_utf16_round_trip(s: Seq<char>)
    ensures
        utf16_lossy(utf16(s)) == s.map_values(|c: char| c as u32),
    decreases s.len(),
{
    if s.len() == 0 {
        assert(utf16(s) =~= Seq::<u16>::empty());
        assert(s.map_values(|c: char| c as u32) =~= Seq::<u32>::empty());
    } else {
        lemma_utf16_front(s);
        lemma_lossy_front(s[0], utf16(s.drop_first()));
        lemma_utf16_round_trip(s.drop_first());
        assert(s.map_values(|c: char| c as u32) =~= seq![s[0] as u32] + s.drop_first().map_values(
            |c: char| c as u32,
        ));
    }
}
} // verus!
