//! Keystroke synthesis as data: the `SendInput` batches that type a char,
//! press Ctrl+V or release held modifiers, the clipboard's UTF-16 text form,
//! and the save / set / paste / settle / restore protocol of a clipboard
//! paste as a state machine whose steps the host performs.
use vstd::prelude::*;
use crate::keys::{utf16_lossy, VK_CONTROL, VK_LMENU, VK_LSHIFT, VK_MENU, VK_RMENU, VK_RSHIFT, VK_SHIFT};
use crate::tray_menu::{utf16, utf16_of};

verus! {

/// Why a clipboard paste did not go through. Either way the caller falls
/// back to typing the text.
#[derive(Debug)]
pub enum PasteError {
    /// The clipboard could not be saved or written.
    Clipboard(String),
    /// The paste keystroke could not be synthesized.
    Injection(String),
}

/// `KEYEVENTF_KEYUP`: the input releases the key.
pub const KEYEVENTF_KEYUP: u32 = 0x0002;

/// `KEYEVENTF_UNICODE`: the input carries a UTF-16 code unit in `scan`.
pub const KEYEVENTF_UNICODE: u32 = 0x0004;

/// Virtual-key code of the V key.
pub const VK_V: u16 = 0x56;

/// How long the target app gets to read the clipboard before it is put back.
pub const PASTE_SETTLE_MS: u64 = 250;

/// One keyboard `INPUT` for `SendInput`: virtual key, scan code or UTF-16
/// unit, and flags.
#[derive(Clone, Copy, Debug, PartialEq, Eq, Structural)]
pub struct KeyboardInput {
    pub vk: u16,
    pub scan: u16,
    pub flags: u32,
}

/// A virtual-key press or release.
pub open spec fn spec_vk_input(vk: u16, keyup: bool) -> KeyboardInput {
    KeyboardInput {
        vk,
        scan: 0,
        flags: if keyup {
            KEYEVENTF_KEYUP
        } else {
            0
        },
    }
}

/// The input that presses (or, with `keyup`, releases) virtual key `vk`.
pub fn vk_input(vk: u16, keyup: bool) -> (r: KeyboardInput)
    ensures
        r == spec_vk_input(vk, keyup),
{
    let flags: u32 = if keyup {
        KEYEVENTF_KEYUP
    } else {
        0
    };
    KeyboardInput { vk, scan: 0, flags }
}

/// Key-down then key-up of each code unit, as Unicode inputs.
pub open spec fn unit_inputs(units: Seq<u16>) -> Seq<KeyboardInput>
    decreases units.len(),
{
    if units.len() == 0 {
        Seq::empty()
    } else {
        unit_inputs(units.drop_last()) + seq![
            KeyboardInput { vk: 0, scan: units.last(), flags: KEYEVENTF_UNICODE },
            KeyboardInput { vk: 0, scan: units.last(), flags: KEYEVENTF_UNICODE | KEYEVENTF_KEYUP },
        ]
    }
}

fn push_unit(out: &mut Vec<KeyboardInput>, unit: u16)
    ensures
        final(out)@ == old(out)@ + seq![
            KeyboardInput { vk: 0, scan: unit, flags: KEYEVENTF_UNICODE },
            KeyboardInput { vk: 0, scan: unit, flags: KEYEVENTF_UNICODE | KEYEVENTF_KEYUP },
        ],
{
    out.push(KeyboardInput { vk: 0, scan: unit, flags: KEYEVENTF_UNICODE });
    out.push(KeyboardInput { vk: 0, scan: unit, flags: KEYEVENTF_UNICODE | KEYEVENTF_KEYUP });
}

/// The batch that types `c` into the focused window: a down and an up
/// Unicode input for each of its UTF-16 units, so a char outside the BMP
/// goes as its surrogate pair and the system joins them.
pub fn type_char_unicode(c: char) -> (r: Vec<KeyboardInput>)
    ensures
        r@ == unit_inputs(utf16_of(c)),
{
    let u = c as u32;
    let mut out: Vec<KeyboardInput> = Vec::new();
    if u < 0x10000 {
        push_unit(&mut out, u as u16);
        let ghost units = utf16_of(c);
        assert(units =~= seq![u as u16]);
        assert(units.drop_last() =~= Seq::<u16>::empty());
        assert(units.last() == u as u16);
        assert(unit_inputs(units) =~= unit_inputs(Seq::<u16>::empty()) + seq![
            KeyboardInput { vk: 0, scan: u as u16, flags: KEYEVENTF_UNICODE },
            KeyboardInput { vk: 0, scan: u as u16, flags: KEYEVENTF_UNICODE | KEYEVENTF_KEYUP },
        ]);
        assert(out@ =~= unit_inputs(utf16_of(c)));
    } else {
        let v = u - 0x10000;
        let hi = (0xD800 + v / 1024) as u16;
        let lo = (0xDC00 + v % 1024) as u16;
        push_unit(&mut out, hi);
        push_unit(&mut out, lo);
        assert(utf16_of(c) =~= seq![hi, lo]);
        assert(utf16_of(c).drop_last() =~= seq![hi]);
        assert(seq![hi].drop_last() =~= Seq::<u16>::empty());
        assert(unit_inputs(seq![hi]) =~= unit_inputs(Seq::<u16>::empty()) + seq![
            KeyboardInput { vk: 0, scan: hi, flags: KEYEVENTF_UNICODE },
            KeyboardInput { vk: 0, scan: hi, flags: KEYEVENTF_UNICODE | KEYEVENTF_KEYUP },
        ]);
        assert(out@ =~= unit_inputs(utf16_of(c)));
    }
    out
}

/// Ctrl down, V down, V up, Ctrl up.
pub open spec fn spec_ctrl_v_inputs() -> Seq<KeyboardInput> {
    seq![
        spec_vk_input(VK_CONTROL, false),
        spec_vk_input(VK_V, false),
        spec_vk_input(VK_V, true),
        spec_vk_input(VK_CONTROL, true),
    ]
}

/// The batch that pastes into the foreground window.
pub fn ctrl_v_inputs() -> (r: Vec<KeyboardInput>)
    ensures
        r@ == spec_ctrl_v_inputs(),
{
    let mut out: Vec<KeyboardInput> = Vec::new();
    out.push(vk_input(VK_CONTROL, false));
    out.push(vk_input(VK_V, false));
    out.push(vk_input(VK_V, true));
    out.push(vk_input(VK_CONTROL, true));
    assert(out@ =~= spec_ctrl_v_inputs());
    out
}

/// The modifiers that could turn the paste keystroke into another shortcut:
/// Alt, left and right Alt, Shift, left and right Shift.
pub open spec fn spec_release_candidates() -> Seq<u16> {
    seq![VK_MENU, VK_LMENU, VK_RMENU, VK_SHIFT, VK_LSHIFT, VK_RSHIFT]
}

/// The keys whose state is read before a paste, in the order they are read.
pub fn modifier_release_candidates() -> (r: Vec<u16>)
    ensures
        r@ == spec_release_candidates(),
{
    let r: Vec<u16> = vec![VK_MENU, VK_LMENU, VK_RMENU, VK_SHIFT, VK_LSHIFT, VK_RSHIFT];
    assert(r@ =~= spec_release_candidates());
    r
}

/// A `GetAsyncKeyState` result whose high bit is set: the key is down.
pub open spec fn key_is_down(state: i16) -> bool {
    (state as u16) & 0x8000u16 != 0
}

/// A key-up for each `(key, state)` pair whose key is down, in order.
pub open spec fn release_inputs(states: Seq<(u16, i16)>) -> Seq<KeyboardInput>
    decreases states.len(),
{
    if states.len() == 0 {
        Seq::empty()
    } else {
        let rest = release_inputs(states.drop_last());
        if key_is_down(states.last().1) {
            rest.push(spec_vk_input(states.last().0, true))
        } else {
            rest
        }
    }
}

/// The batch that releases every held modifier among `key_states`, pairs of
/// a virtual key and what `GetAsyncKeyState` said of it. An empty batch
/// means nothing needs sending.
pub fn release_user_modifiers(key_states: &[(u16, i16)]) -> (r: Vec<KeyboardInput>)
    ensures
        r@ == release_inputs(key_states@),
{
    let mut out: Vec<KeyboardInput> = Vec::new();
    let mut i: usize = 0;
    while i < key_states.len()
        invariant
            i <= key_states@.len(),
            out@ == release_inputs(key_states@.take(i as int)),
        decreases key_states@.len() - i,
    {
        let (vk, state) = key_states[i];
        assert(key_states@.take(i + 1).drop_last() =~= key_states@.take(i as int));
        assert(key_states@.take(i + 1).last() == key_states@[i as int]);
        if (state as u16) & 0x8000u16 != 0 {
            out.push(vk_input(vk, true));
        }
        i = i + 1;
    }
    assert(key_states@.take(i as int) =~= key_states@);
    out
}

/// The clipboard's Unicode text form of `text`: its UTF-16 units and a NUL.
pub fn clipboard_units(text: &str) -> (r: Vec<u16>)
    ensures
        r@ == utf16(text@).push(0u16),
{
    crate::tray_menu::wstr(text)
}

/// How many units come before the first NUL (all of them if none is NUL).
pub open spec fn nul_index(units: Seq<u16>) -> nat
    decreases units.len(),
{
    if units.len() == 0 || units[0] == 0 {
        0
    } else {
        1 + nul_index(units.skip(1))
    }
}

/// The text of a NUL-terminated clipboard buffer: the units before the first
/// NUL, decoded with each unpaired surrogate replaced by U+FFFD.
pub fn clipboard_text(units: &[u16]) -> (r: String)
    ensures
        r@.map_values(|c: char| c as u32) == utf16_lossy(units@.take(nul_index(units@) as int)),
{
    let mut prefix: Vec<u16> = Vec::new();
    let mut i: usize = 0;
    assert(units@.skip(0) =~= units@);
    while i < units.len() && units[i] != 0
        invariant
            i <= units@.len(),
            prefix@ == units@.take(i as int),
            nul_index(units@) == i + nul_index(units@.skip(i as int)),
        decreases units@.len() - i,
    {
        assert(units@.skip(i as int).skip(1) =~= units@.skip(i + 1));
        prefix.push(units[i]);
        i = i + 1;
        assert(prefix@ =~= units@.take(i as int));
    }
    assert(nul_index(units@.skip(i as int)) == 0);
    let decoded = crate::keys::decode_utf16_lossy(prefix.as_slice());
    crate::text::string_of(&decoded)
}

/// Where a clipboard paste stands.
#[derive(Debug)]
pub enum PasteStage {
    /// Nothing done yet.
    Idle,
    /// Waiting for the clipboard to be saved.
    Saving,
    /// Waiting for the text to be put on the clipboard.
    Setting,
    /// Waiting for the paste keystroke to be sent.
    Pasting,
    /// Waiting while the target app reads the clipboard.
    Settling,
    /// Waiting for the saved clipboard to be put back; then this outcome is
    /// reported.
    Restoring(Result<(), PasteError>),
    /// Finished.
    Done,
}

/// What the host reports after doing the last step.
#[derive(Debug)]
pub enum PasteEvent {
    /// Start a paste.
    Begin,
    /// The clipboard was saved, or could not be.
    Saved(Result<(), String>),
    /// The text was put on the clipboard, or could not be.
    TextSet(Result<(), String>),
    /// The paste keystroke went out (after releasing held modifiers, where
    /// the platform needs that), or could not.
    Sent(Result<(), String>),
    /// The settle time passed.
    Waited,
    /// The saved clipboard was put back (`true`) or could not be; either way
    /// the paste's outcome stands.
    Restored(bool),
}

/// What the host does next.
#[derive(Debug)]
pub enum PasteAction {
    SaveClipboard,
    SetText,
    SendPasteKeys,
    Wait(u64),
    RestoreClipboard,
    /// The paste is over, with this outcome.
    Finish(Result<(), PasteError>),
    /// The event does not belong to this stage: nothing to do.
    Nothing,
}

/// The paste protocol's transitions: save the clipboard, set the text, send
/// the keystroke, let it settle, put the clipboard back. Once the clipboard
/// has been overwritten, every way out goes through putting it back.
pub open spec fn spec_paste_next(stage: PasteStage, event: PasteEvent) -> (PasteStage, PasteAction) {
    match (stage, event) {
        (PasteStage::Idle, PasteEvent::Begin) => (PasteStage::Saving, PasteAction::SaveClipboard),
        (PasteStage::Saving, PasteEvent::Saved(Err(e))) => (
            PasteStage::Done,
            PasteAction::Finish(Err(PasteError::Clipboard(e))),
        ),
        (PasteStage::Saving, PasteEvent::Saved(Ok(()))) => (PasteStage::Setting, PasteAction::SetText),
        (PasteStage::Setting, PasteEvent::TextSet(Err(e))) => (
            PasteStage::Restoring(Err(PasteError::Clipboard(e))),
            PasteAction::RestoreClipboard,
        ),
        (PasteStage::Setting, PasteEvent::TextSet(Ok(()))) => (
            PasteStage::Pasting,
            PasteAction::SendPasteKeys,
        ),
        (PasteStage::Pasting, PasteEvent::Sent(Err(e))) => (
            PasteStage::Restoring(Err(PasteError::Injection(e))),
            PasteAction::RestoreClipboard,
        ),
        (PasteStage::Pasting, PasteEvent::Sent(Ok(()))) => (
            PasteStage::Settling,
            PasteAction::Wait(PASTE_SETTLE_MS),
        ),
        (PasteStage::Settling, PasteEvent::Waited) => (
            PasteStage::Restoring(Ok(())),
            PasteAction::RestoreClipboard,
        ),
        (PasteStage::Restoring(outcome), PasteEvent::Restored(_)) => (
            PasteStage::Done,
            PasteAction::Finish(outcome),
        ),
        (stage, _) => (stage, PasteAction::Nothing),
    }
}

/// One step of a clipboard paste: from where it stands and what the host
/// reports, the next stage and what to do.
pub fn paste_next(stage: PasteStage, event: PasteEvent) -> (r: (PasteStage, PasteAction))
    ensures
        r == spec_paste_next(stage, event),
{
    match (stage, event) {
        (PasteStage::Idle, PasteEvent::Begin) => (PasteStage::Saving, PasteAction::SaveClipboard),
        (PasteStage::Saving, PasteEvent::Saved(Err(e))) => (
            PasteStage::Done,
            PasteAction::Finish(Err(PasteError::Clipboard(e))),
        ),
        (PasteStage::Saving, PasteEvent::Saved(Ok(()))) => (PasteStage::Setting, PasteAction::SetText),
        (PasteStage::Setting, PasteEvent::TextSet(Err(e))) => (
            PasteStage::Restoring(Err(PasteError::Clipboard(e))),
            PasteAction::RestoreClipboard,
        ),
        (PasteStage::Setting, PasteEvent::TextSet(Ok(()))) => (
            PasteStage::Pasting,
            PasteAction::SendPasteKeys,
        ),
        (PasteStage::Pasting, PasteEvent::Sent(Err(e))) => (
            PasteStage::Restoring(Err(PasteError::Injection(e))),
            PasteAction::RestoreClipboard,
        ),
        (PasteStage::Pasting, PasteEvent::Sent(Ok(()))) => (
            PasteStage::Settling,
            PasteAction::Wait(PASTE_SETTLE_MS),
        ),
        (PasteStage::Settling, PasteEvent::Waited) => (
            PasteStage::Restoring(Ok(())),
            PasteAction::RestoreClipboard,
        ),
        (PasteStage::Restoring(outcome), PasteEvent::Restored(_)) => (
            PasteStage::Done,
            PasteAction::Finish(outcome),
        ),
        (stage, _) => (stage, PasteAction::Nothing),
    }
}

/// Once the text is on its way to the clipboard, no report finishes the
/// paste directly: every way out first puts the saved clipboard back.
pub proof fn lemma_no_finish_before_restore(stage: PasteStage, event: PasteEvent)
    requires
        stage is Setting || stage is Pasting || stage is Settling,
    ensures
        !(spec_paste_next(stage, event).1 is Finish),
        spec_paste_next(stage, event).1 is RestoreClipboard ==> spec_paste_next(stage, event).0 is Restoring,
{
}

/// Whether putting the clipboard back worked never changes what the paste
/// reports.
pub proof fn lemma_restore_keeps_outcome(outcome: Result<(), PasteError>, a: bool, b: bool)
    ensures
        spec_paste_next(PasteStage::Restoring(outcome), PasteEvent::Restored(a)) == spec_paste_next(
            PasteStage::Restoring(outcome),
            PasteEvent::Restored(b),
        ),
        spec_paste_next(PasteStage::Restoring(outcome), PasteEvent::Restored(a)).1 == PasteAction::Finish(
            outcome,
        ),
{
}

/// A paste in which every step works saves, sets, sends, waits the settle
/// time, restores, and reports success.
pub proof fn lemma_smooth_paste(restored: bool)
    ensures
        ({
            let s1 = spec_paste_next(PasteStage::Idle, PasteEvent::Begin);
            let s2 = spec_paste_next(s1.0, PasteEvent::Saved(Ok(())));
            let s3 = spec_paste_next(s2.0, PasteEvent::TextSet(Ok(())));
            let s4 = spec_paste_next(s3.0, PasteEvent::Sent(Ok(())));
            let s5 = spec_paste_next(s4.0, PasteEvent::Waited);
            let s6 = spec_paste_next(s5.0, PasteEvent::Restored(restored));
            &&& s1.1 == PasteAction::SaveClipboard
            &&& s2.1 == PasteAction::SetText
            &&& s3.1 == PasteAction::SendPasteKeys
            &&& s4.1 == PasteAction::Wait(PASTE_SETTLE_MS)
            &&& s5.1 == PasteAction::RestoreClipboard
            &&& s6.1 == PasteAction::Finish(Ok(()))
            &&& s6.0 == PasteStage::Done
        }),
{
}

} // verus!
