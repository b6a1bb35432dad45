//! Platform policy that needs no OS call to decide: panel presets, which
//! edge the taskbar reports, when the tray popup counts as dismissed, and
//! the red tint of the tray icon on a kill.

use vstd::prelude::*;

verus! {

pub const STYLE_MASK_NONACTIVATING_PANEL: u64 = 0x80;
pub const COLLECTION_CAN_JOIN_ALL_SPACES: u64 = 0x1;
pub const COLLECTION_MOVE_TO_ACTIVE_SPACE: u64 = 0x2;
pub const COLLECTION_FULL_SCREEN_AUXILIARY: u64 = 0x100;

/// Configuration of a borderless utility panel.
#[derive(Debug, Clone, Copy, PartialEq, Eq, Structural)]
pub struct PanelOptions {
    /// The panel may become key: required for a panel that takes typing.
    pub can_become_key: bool,
    /// Bit-OR of window collection-behavior flags.
    pub collection_behavior: u64,
    /// Window level; 101 is the pop-up menu level.
    pub level: i64,
    /// Deliver mouse-moved events, for hover state.
    pub accepts_mouse_moved: bool,
    /// Take key on show, so Esc reaches the page.
    pub becomes_key_on_show: bool,
}

impl PanelOptions {
    /// Picker preset: a keyboard panel on every Space (full screen included),
    /// at pop-up menu level.
    pub fn picker() -> (r: PanelOptions)
        ensures
            r == (PanelOptions {
                can_become_key: true,
                collection_behavior: COLLECTION_CAN_JOIN_ALL_SPACES | COLLECTION_FULL_SCREEN_AUXILIARY,
                level: 101,
                accepts_mouse_moved: false,
                becomes_key_on_show: true,
            }),
    {
        PanelOptions {
            can_become_key: true,
            collection_behavior: COLLECTION_CAN_JOIN_ALL_SPACES | COLLECTION_FULL_SCREEN_AUXILIARY,
            level: 101,
            accepts_mouse_moved: false,
            becomes_key_on_show: true,
        }
    }

    /// Tray-popover preset: anchored to the active Space, over full-screen
    /// apps, with hover events.
    pub fn popover() -> (r: PanelOptions)
        ensures
            r == (PanelOptions {
                can_become_key: false,
                collection_behavior: COLLECTION_MOVE_TO_ACTIVE_SPACE
                    | COLLECTION_FULL_SCREEN_AUXILIARY,
                level: 101,
                accepts_mouse_moved: true,
                becomes_key_on_show: true,
            }),
    {
        PanelOptions {
            can_become_key: false,
            collection_behavior: COLLECTION_MOVE_TO_ACTIVE_SPACE | COLLECTION_FULL_SCREEN_AUXILIARY,
            level: 101,
            accepts_mouse_moved: true,
            becomes_key_on_show: true,
        }
    }
}

/// The picker joins all Spaces and full-screen apps; the popover moves to
/// the active Space instead of joining all of them.
pub proof fn lemma_panel_presets()
    ensures
        (COLLECTION_CAN_JOIN_ALL_SPACES | COLLECTION_FULL_SCREEN_AUXILIARY)
            & COLLECTION_CAN_JOIN_ALL_SPACES != 0,
        (COLLECTION_CAN_JOIN_ALL_SPACES | COLLECTION_FULL_SCREEN_AUXILIARY)
            & COLLECTION_FULL_SCREEN_AUXILIARY != 0,
        (COLLECTION_MOVE_TO_ACTIVE_SPACE | COLLECTION_FULL_SCREEN_AUXILIARY)
            & COLLECTION_MOVE_TO_ACTIVE_SPACE != 0,
        (COLLECTION_MOVE_TO_ACTIVE_SPACE | COLLECTION_FULL_SCREEN_AUXILIARY)
            & COLLECTION_CAN_JOIN_ALL_SPACES == 0,
{
    assert((0x1u64 | 0x100u64) & 0x1u64 != 0) by (bit_vector);
    assert((0x1u64 | 0x100u64) & 0x100u64 != 0) by (bit_vector);
    assert((0x2u64 | 0x100u64) & 0x2u64 != 0) by (bit_vector);
    assert((0x2u64 | 0x100u64) & 0x1u64 == 0) by (bit_vector);
}

/// The screen edge the taskbar is anchored to.
#[derive(Debug, Clone, Copy, PartialEq, Eq, Structural)]
pub enum TaskbarEdge {
    Top,
    Bottom,
    Left,
    Right,
}

pub const ABE_LEFT: u32 = 0;
pub const ABE_TOP: u32 = 1;
pub const ABE_RIGHT: u32 = 2;
pub const ABE_BOTTOM: u32 = 3;

pub open spec fn spec_taskbar_edge(call_succeeded: bool, edge: u32) -> TaskbarEdge {
    if !call_succeeded {
        TaskbarEdge::Bottom
    } else if edge == ABE_TOP {
        TaskbarEdge::Top
    } else if edge == ABE_LEFT {
        TaskbarEdge::Left
    } else if edge == ABE_RIGHT {
        TaskbarEdge::Right
    } else {
        TaskbarEdge::Bottom
    }
}

/// The edge the shell reported, or `Bottom` (the default) when the query
/// failed or returned something unknown.
pub fn taskbar_edge_from(call_succeeded: bool, edge: u32) -> (r: TaskbarEdge)
    ensures
        r == spec_taskbar_edge(call_succeeded, edge),
{
    if !call_succeeded {
        return TaskbarEdge::Bottom;
    }
    if edge == ABE_TOP {
        TaskbarEdge::Top
    } else if edge == ABE_BOTTOM {
        TaskbarEdge::Bottom
    } else if edge == ABE_LEFT {
        TaskbarEdge::Left
    } else if edge == ABE_RIGHT {
        TaskbarEdge::Right
    } else {
        TaskbarEdge::Bottom
    }
}

/// A hide within this many milliseconds of a tray-icon click was that
/// click's dismissal, not a request to reopen.
pub const DISMISS_DEBOUNCE_MS: i64 = 250;

/// When the tray popup was last hidden by the outside-click poller.
#[derive(Debug, Clone, Copy)]
pub struct PopupDismissal {
    /// Wall-clock milliseconds of the last hide; 0 = never.
    pub last_hidden_ms: i64,
}

impl PopupDismissal {
    pub fn new() -> (r: Self)
        ensures
            r.last_hidden_ms == 0,
    {
        PopupDismissal { last_hidden_ms: 0 }
    }

    /// Record a hide at `now_ms`.
    pub fn mark_hidden_at(&mut self, now_ms: i64)
        ensures
            final(self).last_hidden_ms == now_ms,
    {
        self.last_hidden_ms = now_ms;
    }

    /// Whether the popup was hidden within the debounce window before
    /// `now_ms`; never when it was never hidden.
    pub fn recently_dismissed_at(&self, now_ms: i64) -> (r: bool)
        requires
            now_ms >= 0,
            self.last_hidden_ms >= 0,
        ensures
            r == (self.last_hidden_ms != 0 && now_ms - self.last_hidden_ms < DISMISS_DEBOUNCE_MS),
    {
        if self.last_hidden_ms == 0 {
            return false;
        }
        now_ms - self.last_hidden_ms < DISMISS_DEBOUNCE_MS
    }
}

/// The outside-click poller hides the popup when some window other than the
/// popup is foreground. An unknown foreground hides nothing.
pub fn should_hide_popup(foreground: Option<i64>, popup: Option<i64>) -> (r: bool)
    ensures
        r == match foreground {
            Some(fg) => !(popup == Some(fg)),
            None => false,
        },
{
    match foreground {
        Some(fg) => match popup {
            Some(p) => p != fg,
            None => true,
        },
        None => false,
    }
}

/// The kill-flash red (Apple's `systemRed`).
pub const RED_R: u8 = 255;
pub const RED_G: u8 = 59;
pub const RED_B: u8 = 48;

/// A pixel byte of an RGBA buffer after the tint: in every complete pixel
/// whose alpha is not zero the colour channels turn red; alpha, transparent
/// pixels and a trailing partial pixel are left alone.
pub open spec fn tinted_byte(rgba: Seq<u8>, i: int) -> u8 {
    let base = i - i % 4;
    if base + 4 <= rgba.len() && rgba[base + 3] != 0 && i % 4 < 3 {
        if i % 4 == 0 {
            RED_R
        } else if i % 4 == 1 {
            RED_G
        } else {
            RED_B
        }
    } else {
        rgba[i]
    }
}

/// Tint every non-transparent pixel red, preserving alpha so the glyph's
/// shape and antialiasing survive.
pub fn tint_red(rgba: &Vec<u8>) -> (r: Vec<u8>)
    ensures
        r@.len() == rgba@.len(),
        forall|i: int| 0 <= i < rgba@.len() ==> #[trigger] r@[i] == tinted_byte(rgba@, i),
{
    let mut out: Vec<u8> = Vec::new();
    let n = rgba.len();
    let whole = n - n % 4;
    let mut p: usize = 0;
    while p < whole
        invariant
            p % 4 == 0,
            p <= whole,
            whole == n - n % 4,
            n == rgba@.len(),
            out@.len() == p,
            forall|i: int| 0 <= i < p ==> #[trigger] out@[i] == tinted_byte(rgba@, i),
        decreases whole - p,
    {
        let opaque = rgba[p + 3] != 0;
        out.push(if opaque { RED_R } else { rgba[p] });
        out.push(if opaque { RED_G } else { rgba[p + 1] });
        out.push(if opaque { RED_B } else { rgba[p + 2] });
        out.push(rgba[p + 3]);
        assert forall|i: int| p <= i < p + 4 implies #[trigger] out@[i] == tinted_byte(rgba@, i) by {
            assert(i - i % 4 == p);
        }
        p = p + 4;
    }
    while p < n
        invariant
            whole <= p <= n,
            whole == n - n % 4,
            n == rgba@.len(),
            out@.len() == p,
            forall|i: int| 0 <= i < p ==> #[trigger] out@[i] == tinted_byte(rgba@, i),
        decreases n - p,
    {
        out.push(rgba[p]);
        assert(p - p % 4 + 4 > n);
        p = p + 1;
    }
    out
}

/// An RGBA image: four bytes per pixel, row by row.
#[derive(Debug, Clone)]
pub struct RgbaImage {
    pub rgba: Vec<u8>,
    pub width: u32,
    pub height: u32,
}

/// The tray icon tinted red for the kill flash: same size, every
/// non-transparent pixel red, alpha kept.
pub fn tinted_red(image: &RgbaImage) -> (r: RgbaImage)
    ensures
        r.width == image.width,
        r.height == image.height,
        r.rgba@.len() == image.rgba@.len(),
        forall|i: int| 0 <= i < image.rgba@.len() ==> #[trigger] r.rgba@[i] == tinted_byte(image.rgba@, i),
{
    RgbaImage { rgba: tint_red(&image.rgba), width: image.width, height: image.height }
}

/// What to do after `SetWindowDisplayAffinity` failed.
#[derive(Debug, Clone, Copy, PartialEq, Eq, Structural)]
pub enum AffinityFailure {
    /// Report the error.
    GiveUp,
    /// The win32k bug that rejects capture exclusion: fall back to the
    /// monitor-only affinity (the audience sees a black rectangle).
    RetryWithMonitor,
}

/// The `HRESULT` of the win32k bug (`ERROR_NOT_ENOUGH_MEMORY`).
pub const HRESULT_WIN32K_AFFINITY_BUG: u32 = 0x8007_0008;

/// Only the win32k bug, and only for a capture-exclusion request, earns the
/// fallback.
pub fn after_affinity_failure(hresult: u32, requested_exclusion: bool) -> (r: AffinityFailure)
    ensures
        r == if hresult == HRESULT_WIN32K_AFFINITY_BUG && requested_exclusion {
            AffinityFailure::RetryWithMonitor
        } else {
            AffinityFailure::GiveUp
        },
{
    if hresult == HRESULT_WIN32K_AFFINITY_BUG && requested_exclusion {
        AffinityFailure::RetryWithMonitor
    } else {
        AffinityFailure::GiveUp
    }
}

/// Milliseconds since the last input event, from two tick counts; wrapping
/// subtraction stays right across the tick counter's 49.7-day rollover.
pub fn idle_ms(now_tick: u32, last_input_tick: u32) -> (r: u32)
    ensures
        r == (if now_tick >= last_input_tick {
            now_tick - last_input_tick
        } else {
            now_tick + 0x1_0000_0000 - last_input_tick
        }),
{
    now_tick.wrapping_sub(last_input_tick)
}

/// One byte of the keyboard state the layout translation consults, from a
/// key's state word: the key-down bit (the word's high bit) as 0x80, the
/// toggle bit (the low bit) as 0x01.
pub fn key_state_byte(state: u16) -> (r: u8)
    ensures
        r == (if state & 0x8000 != 0 { 0x80u8 } else { 0u8 }) | (if state & 1 != 0 {
            1u8
        } else {
            0u8
        }),
{
    let hi: u8 = ((state >> 8) as u8) & 0x80;
    let lo: u8 = (state & 1) as u8;
    assert(((state >> 8) as u8) & 0x80 == (if state & 0x8000 != 0 { 0x80u8 } else { 0u8 })) by (bit_vector);
    assert((state & 1) as u8 == (if state & 1 != 0 { 1u8 } else { 0u8 })) by (bit_vector);
    hi | lo
}

/// Whether a file name is a prompt file (`*.pp.md`).
pub open spec fn spec_is_prompt_file(name: Seq<char>) -> bool {
    ".pp.md"@.is_suffix_of(name)
}

/// Whether a bundled example should be copied into the library: a prompt
/// file whose target does not exist yet.
pub fn is_prompt_file_name(name: &str) -> (r: bool)
    ensures
        r == spec_is_prompt_file(name@),
{
    let cs = crate::text::chars_of(name);
    let suffix = crate::text::chars_of(".pp.md");
    if suffix.len() > cs.len() {
        return false;
    }
    let off = cs.len() - suffix.len();
    let mut i: usize = 0;
    while i < suffix.len()
        invariant
            i <= suffix@.len(),
            off + suffix.len() == cs.len(),
            cs@ == name@,
            suffix@ == ".pp.md"@,
            forall|k: int| 0 <= k < i ==> suffix@[k] == cs@[off + k],
        decreases suffix@.len() - i,
    {
        if suffix[i] != cs[off + i] {
            assert(cs@.subrange(off as int, cs@.len() as int)[i as int] != suffix@[i as int]);
            return false;
        }
        i = i + 1;
    }
    assert(cs@.subrange(off as int, cs@.len() as int) =~= suffix@);
    true
}


/// The kinds of window event the app reacts to.
#[derive(Debug, Clone, Copy, PartialEq, Eq, Structural)]
pub enum WindowEventKind {
    CloseRequested,
    FocusLost,
    Other,
}

/// What the app does with a window event.
#[derive(Debug, Clone, Copy, PartialEq, Eq, Structural)]
pub struct WindowReaction {
    /// Keep the window alive instead of letting it close.
    pub prevent_close: bool,
    pub hide: bool,
    /// Tell the window's page that it was hidden.
    pub emit_hidden: bool,
    /// Drop the tray popup's outside-click monitor.
    pub remove_click_monitor: bool,
}

/// How a window reacts to an event: closing only ever hides (the app lives
/// in the tray, and a window is cheaper to show again than to rebuild) and
/// tells the page; losing focus hides the tray popup, dropping its
/// outside-click monitor, and hides the picker; anything else is left alone.
pub fn window_event_reaction(label: &str, event: WindowEventKind) -> (r: WindowReaction)
    ensures
        r == match event {
            WindowEventKind::CloseRequested => WindowReaction {
                prevent_close: true,
                hide: true,
                emit_hidden: true,
                remove_click_monitor: false,
            },
            WindowEventKind::FocusLost => WindowReaction {
                prevent_close: false,
                hide: label@ == "tray-popup"@ || label@ == "picker"@,
                emit_hidden: false,
                remove_click_monitor: label@ == "tray-popup"@,
            },
            WindowEventKind::Other => WindowReaction {
                prevent_close: false,
                hide: false,
                emit_hidden: false,
                remove_click_monitor: false,
            },
        },
{
    match event {
        WindowEventKind::CloseRequested => WindowReaction {
            prevent_close: true,
            hide: true,
            emit_hidden: true,
            remove_click_monitor: false,
        },
        WindowEventKind::FocusLost => {
            let popup = crate::text::str_eq(label, "tray-popup");
            let picker = crate::text::str_eq(label, "picker");
            WindowReaction {
                prevent_close: false,
                hide: popup || picker,
                emit_hidden: false,
                remove_click_monitor: popup,
            }
        },
        WindowEventKind::Other => WindowReaction {
            prevent_close: false,
            hide: false,
            emit_hidden: false,
            remove_click_monitor: false,
        },
    }
}

/// `NSWindowSharingNone`: the window is left out of screen captures.
pub const NS_WINDOW_SHARING_NONE: u64 = 0;

/// `NSWindowSharingReadOnly`: the default, captured like any window.
pub const NS_WINDOW_SHARING_READ_ONLY: u64 = 1;

/// `WDA_NONE`.
pub const WDA_NONE: u32 = 0;

/// `WDA_EXCLUDEFROMCAPTURE`: left out of captures entirely.
pub const WDA_EXCLUDEFROMCAPTURE: u32 = 0x11;

/// The macOS sharing type that hides a window from capture, or restores it.
pub fn sharing_type(hide: bool) -> (r: u64)
    ensures
        r == if hide {
            NS_WINDOW_SHARING_NONE
        } else {
            NS_WINDOW_SHARING_READ_ONLY
        },
{
    if hide {
        NS_WINDOW_SHARING_NONE
    } else {
        NS_WINDOW_SHARING_READ_ONLY
    }
}

/// The Windows display affinity that hides a window from capture, or
/// restores it.
pub fn display_affinity(hide: bool) -> (r: u32)
    ensures
        r == if hide {
            WDA_EXCLUDEFROMCAPTURE
        } else {
            WDA_NONE
        },
{
    if hide {
        WDA_EXCLUDEFROMCAPTURE
    } else {
        WDA_NONE
    }
}


/// `WS_EX_TOPMOST`.
pub const WS_EX_TOPMOST: i64 = 0x8;

/// `WS_EX_TOOLWINDOW`: no taskbar button, no Alt+Tab entry.
pub const WS_EX_TOOLWINDOW: i64 = 0x80;

/// `WS_EX_NOACTIVATE`: clicking the window does not take focus away.
pub const WS_EX_NOACTIVATE: i64 = 0x0800_0000;

/// The extended-style bits a Windows panel gets on top of its own: the tray
/// popup never takes focus, stays off the taskbar and floats on top; the
/// picker only floats on top (it has to take typing).
pub fn panel_ex_style_bits(popover: bool) -> (r: i64)
    ensures
        r == if popover {
            WS_EX_NOACTIVATE | WS_EX_TOOLWINDOW | WS_EX_TOPMOST
        } else {
            WS_EX_TOPMOST
        },
{
    if popover {
        WS_EX_NOACTIVATE | WS_EX_TOOLWINDOW | WS_EX_TOPMOST
    } else {
        WS_EX_TOPMOST
    }
}

/// A window's extended style with `extra` added: every bit it had stays
/// set, and every added bit is set.
pub fn with_ex_style(current: i64, extra: i64) -> (r: i64)
    ensures
        r == current | extra,
        r & current == current,
        r & extra == extra,
{
    let r = current | extra;
    assert((current | extra) & current == current) by (bit_vector);
    assert((current | extra) & extra == extra) by (bit_vector);
    r
}

} // verus!
