//! The tray menu: which rows it shows for the app's state, what each row's
//! command id does, and the UTF-16 text the native menu API takes.
//!
//! Static items use the 100-band of command ids; pinned prompts start at
//! `ID_PINNED_BASE`, indexed by their position among the pinned prompts.

use crate::prompt::Prompt;
use crate::text::{decimal, push_decimal, push_str, string_of};
use vstd::prelude::*;

verus! {

pub const ID_TOGGLE_ARMED: u32 = 100;
pub const ID_PROMPT_LIBRARY: u32 = 101;
pub const ID_COMMAND_PALETTE: u32 = 102;
pub const ID_ABOUT: u32 = 103;
pub const ID_QUIT: u32 = 104;
pub const ID_KEEP_AWAKE: u32 = 105;
pub const ID_DIAGNOSTICS: u32 = 106;
pub const ID_HOOK_WARNING: u32 = 107;
pub const ID_NEXT_CUE: u32 = 108;
pub const ID_PAUSE_PLAYBACK: u32 = 109;
pub const ID_RESET_SETLIST: u32 = 110;
pub const ID_PINNED_BASE: u32 = 1000;

/// Most pinned prompts a menu can number: their ids run from
/// `ID_PINNED_BASE` up to `u32::MAX`.
pub const MAX_PINNED: u64 = 4_294_966_296;

/// One row of the menu.
#[derive(Debug, Clone)]
pub enum MenuItem {
    Entry { id: u32, label: String, checked: bool },
    Separator,
}

pub ghost enum MenuItemView {
    Entry { id: u32, label: Seq<char>, checked: bool },
    Separator,
}

impl View for MenuItem {
    type V = MenuItemView;

    open spec fn view(&self) -> MenuItemView {
        match self {
            MenuItem::Entry { id, label, checked } => MenuItemView::Entry {
                id: *id,
                label: label@,
                checked: *checked,
            },
            MenuItem::Separator => MenuItemView::Separator,
        }
    }
}

pub open spec fn item_views(items: Seq<MenuItem>) -> Seq<MenuItemView> {
    items.map_values(|m: MenuItem| m@)
}

/// What the menu is built from, read once when it opens.
#[derive(Debug, Clone)]
pub struct MenuState {
    pub hook_alive: bool,
    pub armed: bool,
    pub keep_awake: bool,
    /// Seconds left in a bounded keep-awake session.
    pub keep_awake_remaining_secs: Option<u64>,
    pub playing: bool,
    pub paused: bool,
    pub setlist_len: usize,
    pub setlist_cursor: usize,
}

/// The built menu and the prompt ids its pinned rows stand for, in row
/// order.
#[derive(Debug, Clone)]
pub struct TrayMenu {
    pub items: Vec<MenuItem>,
    pub pinned_ids: Vec<String>,
}

/// "Keep Awake", plus the time left when a bounded session is running.
pub open spec fn spec_keep_awake_label(remaining_secs: Option<u64>, enabled: bool) -> Seq<char> {
    match remaining_secs {
        Some(secs) => {
            let mins = (secs + 59) / 60;
            if mins >= 60 {
                "Keep Awake\t"@ + decimal((mins / 60) as nat) + "h "@ + decimal((mins % 60) as nat)
                    + "m left"@
            } else {
                "Keep Awake\t"@ + decimal(mins as nat) + "m left"@
            }
        },
        None => if enabled {
            "Keep Awake\tno limit"@
        } else {
            "Keep Awake"@
        },
    }
}

/// The keep-awake row's label; minutes are rounded up.
pub fn keep_awake_label(remaining_secs: Option<u64>, enabled: bool) -> (r: String)
    requires
        remaining_secs matches Some(s) ==> s <= u64::MAX - 59,
    ensures
        r@ == spec_keep_awake_label(remaining_secs, enabled),
{
    let mut out: Vec<char> = Vec::new();
    match remaining_secs {
        Some(secs) => {
            let mins = (secs + 59) / 60;
            push_str(&mut out, "Keep Awake\t");
            if mins >= 60 {
                push_decimal(&mut out, mins / 60);
                push_str(&mut out, "h ");
                push_decimal(&mut out, mins % 60);
                push_str(&mut out, "m left");
            } else {
                push_decimal(&mut out, mins);
                push_str(&mut out, "m left");
            }
        },
        None => {
            if enabled {
                push_str(&mut out, "Keep Awake\tno limit");
            } else {
                push_str(&mut out, "Keep Awake");
            }
        },
    }
    string_of(&out)
}

pub open spec fn entry(id: u32, label: Seq<char>, checked: bool) -> MenuItemView {
    MenuItemView::Entry { id, label, checked }
}

/// The rows for the pinned prompts, numbered from `ID_PINNED_BASE`.
pub open spec fn pinned_rows(pinned: Seq<Prompt>) -> Seq<MenuItemView>
    decreases pinned.len(),
{
    if pinned.len() == 0 {
        Seq::empty()
    } else {
        let p = pinned.last();
        pinned_rows(pinned.drop_last()).push(
            entry(
                (ID_PINNED_BASE + pinned.len() - 1) as u32,
                pinned_label(p),
                false,
            ),
        )
    }
}

/// `name`, a tab, then the first trigger and the commit char.
pub open spec fn pinned_label(p: Prompt) -> Seq<char> {
    let trigger = if p.triggers@.len() > 0 {
        p.triggers@[0]@
    } else {
        Seq::empty()
    };
    (p.name@.push('\t') + trigger).push(p.commit_char)
}

/// The pinned prompts, in library order.
pub open spec fn pinned_of(prompts: Seq<Prompt>) -> Seq<Prompt>
    decreases prompts.len(),
{
    if prompts.len() == 0 {
        Seq::empty()
    } else {
        let prev = pinned_of(prompts.drop_last());
        if prompts.last().pinned {
            prev.push(prompts.last())
        } else {
            prev
        }
    }
}

/// The full menu, top to bottom: the hook warning (only while the keyboard
/// hook is down), the armed toggle, the transport rows (pause only while
/// playing, next cue and rewind only with a setlist), the pinned prompts,
/// the app actions with the keep-awake row, then diagnostics, about and quit.
pub open spec fn spec_tray_menu(s: MenuState, prompts: Seq<Prompt>) -> Seq<MenuItemView> {
    menu_head(s) + pinned_section(pinned_of(prompts)) + menu_tail(s)
}

/// Hook warning, armed toggle and transport rows.
pub open spec fn menu_head(s: MenuState) -> Seq<MenuItemView> {
    let hook = if !s.hook_alive {
        seq![
            entry(ID_HOOK_WARNING, "⚠ Keyboard hook inactive — open Diagnostics"@, false),
            MenuItemView::Separator,
        ]
    } else {
        Seq::empty()
    };
    let armed = seq![entry(ID_TOGGLE_ARMED, "Prompt Player"@, s.armed)];
    let transport_sep = if s.playing || s.setlist_len > 0 {
        seq![MenuItemView::Separator]
    } else {
        Seq::empty()
    };
    let pause = if s.playing {
        seq![
            entry(
                ID_PAUSE_PLAYBACK,
                if s.paused {
                    "Resume Typing\tCtrl+Shift+,"@
                } else {
                    "Pause Typing\tCtrl+Shift+,"@
                },
                false,
            ),
        ]
    } else {
        Seq::empty()
    };
    let cue = if s.setlist_len > 0 {
        seq![
            entry(
                ID_NEXT_CUE,
                "Next Cue ("@ + decimal((s.setlist_cursor % s.setlist_len + 1) as nat) + " of "@
                    + decimal(s.setlist_len as nat) + ")\tCtrl+Shift+."@,
                false,
            ),
            entry(ID_RESET_SETLIST, "Rewind Setlist"@, false),
        ]
    } else {
        Seq::empty()
    };
    hook + armed + transport_sep + pause + cue
}

/// A separator and one row per pinned prompt; nothing without pins.
pub open spec fn pinned_section(pinned: Seq<Prompt>) -> Seq<MenuItemView> {
    if pinned.len() > 0 {
        seq![MenuItemView::Separator] + pinned_rows(pinned)
    } else {
        Seq::empty()
    }
}

/// App actions with the keep-awake row, then diagnostics, about and quit.
pub open spec fn menu_tail(s: MenuState) -> Seq<MenuItemView> {
    seq![
        MenuItemView::Separator,
        entry(ID_PROMPT_LIBRARY, "Prompt Library"@, false),
        entry(ID_COMMAND_PALETTE, "Command Palette…\tCtrl+Alt+\\"@, false),
        entry(
            ID_KEEP_AWAKE,
            spec_keep_awake_label(s.keep_awake_remaining_secs, s.keep_awake),
            s.keep_awake,
        ),
        MenuItemView::Separator,
        entry(ID_DIAGNOSTICS, "Diagnostics…"@, false),
        entry(ID_ABOUT, "About Prompt Player"@, false),
        entry(ID_QUIT, "Quit\tCtrl+Q"@, false),
    ]
}

fn push_entry(items: &mut Vec<MenuItem>, id: u32, label: &str, checked: bool)
    ensures
        item_views(final(items)@) == item_views(old(items)@).push(entry(id, label@, checked)),
{
    let mut cs: Vec<char> = Vec::new();
    push_str(&mut cs, label);
    assert(cs@ =~= label@);
    let ghost before = item_views(items@);
    items.push(MenuItem::Entry { id, label: string_of(&cs), checked });
    assert(item_views(items@) =~= before.push(entry(id, label@, checked)));
}

fn push_separator(items: &mut Vec<MenuItem>)
    ensures
        item_views(final(items)@) == item_views(old(items)@).push(MenuItemView::Separator),
{
    let ghost before = item_views(items@);
    items.push(MenuItem::Separator);
    assert(item_views(items@) =~= before.push(MenuItemView::Separator));
}

fn push_label_entry(items: &mut Vec<MenuItem>, id: u32, label: Vec<char>, checked: bool)
    ensures
        item_views(final(items)@) == item_views(old(items)@).push(entry(id, label@, checked)),
{
    let ghost before = item_views(items@);
    items.push(MenuItem::Entry { id, label: string_of(&label), checked });
    assert(item_views(items@) =~= before.push(entry(id, label@, checked)));
}

fn push_head(items: &mut Vec<MenuItem>, state: &MenuState)
    ensures
        item_views(final(items)@) == item_views(old(items)@) + menu_head(*state),
{
    let ghost start = item_views(items@);
    if !state.hook_alive {
        push_entry(items, ID_HOOK_WARNING, "⚠ Keyboard hook inactive — open Diagnostics", false);
        push_separator(items);
    }
    push_entry(items, ID_TOGGLE_ARMED, "Prompt Player", state.armed);
    if state.playing || state.setlist_len > 0 {
        push_separator(items);
    }
    if state.playing {
        if state.paused {
            push_entry(items, ID_PAUSE_PLAYBACK, "Resume Typing\tCtrl+Shift+,", false);
        } else {
            push_entry(items, ID_PAUSE_PLAYBACK, "Pause Typing\tCtrl+Shift+,", false);
        }
    }
    if state.setlist_len > 0 {
        let cursor = state.setlist_cursor % state.setlist_len;
        let mut label: Vec<char> = Vec::new();
        push_str(&mut label, "Next Cue (");
        push_decimal(&mut label, cursor as u64 + 1);
        push_str(&mut label, " of ");
        push_decimal(&mut label, state.setlist_len as u64);
        push_str(&mut label, ")\tCtrl+Shift+.");
        push_label_entry(items, ID_NEXT_CUE, label, false);
        push_entry(items, ID_RESET_SETLIST, "Rewind Setlist", false);
    }
    assert(item_views(items@) =~= start + menu_head(*state));
}

fn push_tail(items: &mut Vec<MenuItem>, state: &MenuState)
    requires
        state.keep_awake_remaining_secs matches Some(s) ==> s <= u64::MAX - 59,
    ensures
        item_views(final(items)@) == item_views(old(items)@) + menu_tail(*state),
{
    let ghost start = item_views(items@);
    push_separator(items);
    push_entry(items, ID_PROMPT_LIBRARY, "Prompt Library", false);
    push_entry(items, ID_COMMAND_PALETTE, "Command Palette…\tCtrl+Alt+\\", false);
    let ka = keep_awake_label(state.keep_awake_remaining_secs, state.keep_awake);
    let mut ka_chars: Vec<char> = Vec::new();
    push_str(&mut ka_chars, ka.as_str());
    assert(ka_chars@ =~= ka@);
    push_label_entry(items, ID_KEEP_AWAKE, ka_chars, state.keep_awake);
    push_separator(items);
    push_entry(items, ID_DIAGNOSTICS, "Diagnostics…", false);
    push_entry(items, ID_ABOUT, "About Prompt Player", false);
    push_entry(items, ID_QUIT, "Quit\tCtrl+Q", false);
    assert(item_views(items@) =~= start + menu_tail(*state));
}

/// The pinned rows and the ids they stand for.
fn pinned_menu_rows(prompts: &[Prompt]) -> (r: (Vec<MenuItem>, Vec<String>))
    requires
        pinned_of(prompts@).len() <= MAX_PINNED,
    ensures
        item_views(r.0@) == pinned_rows(pinned_of(prompts@)),
        r.1@.map_values(|s: String| s@) == pinned_of(prompts@).map_values(|p: Prompt| p.id@),
{
    let mut pinned_ids: Vec<String> = Vec::new();
    let mut rows: Vec<MenuItem> = Vec::new();
    let mut i: usize = 0;
    while i < prompts.len()
        invariant
            i <= prompts@.len(),
            pinned_of(prompts@).len() <= MAX_PINNED,
            pinned_ids@.len() == pinned_of(prompts@.take(i as int)).len(),
            item_views(rows@) == pinned_rows(pinned_of(prompts@.take(i as int))),
            pinned_ids@.map_values(|s: String| s@) == pinned_of(prompts@.take(i as int)).map_values(
                |p: Prompt| p.id@,
            ),
        decreases prompts@.len() - i,
    {
        let p = &prompts[i];
        let ghost before = pinned_of(prompts@.take(i as int));
        assert(prompts@.take(i + 1).drop_last() =~= prompts@.take(i as int));
        assert(prompts@.take(i + 1).last() == prompts@[i as int]);
        if p.pinned {
            proof {
                lemma_pinned_of_prefix(prompts@, i + 1);
                assert(pinned_of(prompts@.take(i + 1)) == before.push(prompts@[i as int]));
            }
            let n = pinned_ids.len();
            let mut label: Vec<char> = Vec::new();
            push_str(&mut label, p.name.as_str());
            label.push('\t');
            if p.triggers.len() > 0 {
                push_str(&mut label, p.triggers[0].as_str());
            }
            label.push(p.commit_char);
            proof {
                let pp = prompts@[i as int];
                let trigger = if pp.triggers@.len() > 0 {
                    pp.triggers@[0]@
                } else {
                    Seq::<char>::empty()
                };
                assert(label@ =~= (pp.name@.push('\t') + trigger).push(pp.commit_char));
                assert(before.push(pp).drop_last() =~= before);
            }
            push_label_entry(&mut rows, ID_PINNED_BASE + n as u32, label, false);
            let ghost ids_before = pinned_ids@.map_values(|s: String| s@);
            pinned_ids.push(p.id.clone());
            assert(pinned_ids@.map_values(|s: String| s@) =~= ids_before.push(p.id@));
            assert(before.push(prompts@[i as int]).map_values(|p: Prompt| p.id@) =~= before.map_values(
                |p: Prompt| p.id@,
            ).push(p.id@));
        }
        i = i + 1;
    }
    assert(prompts@.take(i as int) =~= prompts@);
    (rows, pinned_ids)
}

/// Build the tray menu for `state` and the prompt library.
pub fn build_tray_menu(state: &MenuState, prompts: &[Prompt]) -> (r: TrayMenu)
    requires
        pinned_of(prompts@).len() <= MAX_PINNED,
        state.keep_awake_remaining_secs matches Some(s) ==> s <= u64::MAX - 59,
    ensures
        item_views(r.items@) == spec_tray_menu(*state, prompts@),
        r.pinned_ids@.map_values(|s: String| s@) == pinned_of(prompts@).map_values(
            |p: Prompt| p.id@,
        ),
{
    let mut items: Vec<MenuItem> = Vec::new();
    push_head(&mut items, state);
    let ghost head = item_views(items@);
    let (rows, pinned_ids) = pinned_menu_rows(prompts);
    if rows.len() > 0 {
        push_separator(&mut items);
        let ghost with_sep = item_views(items@);
        let mut k: usize = 0;
        while k < rows.len()
            invariant
                k <= rows@.len(),
                item_views(items@) == with_sep + item_views(rows@).take(k as int),
            decreases rows@.len() - k,
        {
            let row = match &rows[k] {
                MenuItem::Entry { id, label, checked } => MenuItem::Entry {
                    id: *id,
                    label: label.clone(),
                    checked: *checked,
                },
                MenuItem::Separator => MenuItem::Separator,
            };
            assert(row@ == rows@[k as int]@);
            let ghost prev = item_views(items@);
            items.push(row);
            assert(item_views(items@) =~= prev.push(rows@[k as int]@));
            assert(item_views(rows@).take(k + 1) =~= item_views(rows@).take(k as int).push(
                rows@[k as int]@,
            ));
            k = k + 1;
        }
        assert(item_views(rows@).take(k as int) =~= item_views(rows@));
    }
    proof {
        let pinned = pinned_of(prompts@);
        lemma_pinned_rows_len(pinned);
        assert(item_views(items@) =~= head + pinned_section(pinned));
    }
    push_tail(&mut items, state);
    assert(item_views(items@) =~= spec_tray_menu(*state, prompts@));
    TrayMenu { items, pinned_ids }
}

proof fn lemma_pinned_rows_len(pinned: Seq<Prompt>)
    ensures
        pinned_rows(pinned).len() == pinned.len(),
    decreases pinned.len(),
{
    if pinned.len() > 0 {
        lemma_pinned_rows_len(pinned.drop_last());
    }
}

/// What choosing a command id does.
#[derive(Debug, Clone, PartialEq, Eq)]
pub enum MenuAction {
    ToggleArmed,
    ShowLibrary,
    CommandPalette,
    ShowAbout,
    /// Diagnostics, also reached from the hook warning row.
    OpenDiagnostics,
    Quit,
    ToggleKeepAwake,
    TogglePause,
    NextCue,
    ResetSetlist,
    /// Fire this pinned prompt.
    FirePinned(String),
    /// An id no row carries, or a pinned index past the snapshot.
    Nothing,
}

pub ghost enum MenuActionView {
    ToggleArmed,
    ShowLibrary,
    CommandPalette,
    ShowAbout,
    OpenDiagnostics,
    Quit,
    ToggleKeepAwake,
    TogglePause,
    NextCue,
    ResetSetlist,
    FirePinned(Seq<char>),
    Nothing,
}

impl View for MenuAction {
    type V = MenuActionView;

    open spec fn view(&self) -> MenuActionView {
        match self {
            MenuAction::ToggleArmed => MenuActionView::ToggleArmed,
            MenuAction::ShowLibrary => MenuActionView::ShowLibrary,
            MenuAction::CommandPalette => MenuActionView::CommandPalette,
            MenuAction::ShowAbout => MenuActionView::ShowAbout,
            MenuAction::OpenDiagnostics => MenuActionView::OpenDiagnostics,
            MenuAction::Quit => MenuActionView::Quit,
            MenuAction::ToggleKeepAwake => MenuActionView::ToggleKeepAwake,
            MenuAction::TogglePause => MenuActionView::TogglePause,
            MenuAction::NextCue => MenuActionView::NextCue,
            MenuAction::ResetSetlist => MenuActionView::ResetSetlist,
            MenuAction::FirePinned(id) => MenuActionView::FirePinned(id@),
            MenuAction::Nothing => MenuActionView::Nothing,
        }
    }
}

pub open spec fn spec_menu_action(cmd_id: u32, pinned_ids: Seq<Seq<char>>) -> MenuActionView {
    if cmd_id == ID_TOGGLE_ARMED {
        MenuActionView::ToggleArmed
    } else if cmd_id == ID_PROMPT_LIBRARY {
        MenuActionView::ShowLibrary
    } else if cmd_id == ID_COMMAND_PALETTE {
        MenuActionView::CommandPalette
    } else if cmd_id == ID_ABOUT {
        MenuActionView::ShowAbout
    } else if cmd_id == ID_DIAGNOSTICS || cmd_id == ID_HOOK_WARNING {
        MenuActionView::OpenDiagnostics
    } else if cmd_id == ID_QUIT {
        MenuActionView::Quit
    } else if cmd_id == ID_KEEP_AWAKE {
        MenuActionView::ToggleKeepAwake
    } else if cmd_id == ID_PAUSE_PLAYBACK {
        MenuActionView::TogglePause
    } else if cmd_id == ID_NEXT_CUE {
        MenuActionView::NextCue
    } else if cmd_id == ID_RESET_SETLIST {
        MenuActionView::ResetSetlist
    } else if cmd_id >= ID_PINNED_BASE && cmd_id - ID_PINNED_BASE < pinned_ids.len() {
        MenuActionView::FirePinned(pinned_ids[cmd_id - ID_PINNED_BASE])
    } else {
        MenuActionView::Nothing
    }
}

/// The action for the id the native menu returned.
pub fn menu_action(cmd_id: u32, pinned_ids: &[String]) -> (r: MenuAction)
    ensures
        r@ == spec_menu_action(cmd_id, pinned_ids@.map_values(|s: String| s@)),
{
    if cmd_id == ID_TOGGLE_ARMED {
        MenuAction::ToggleArmed
    } else if cmd_id == ID_PROMPT_LIBRARY {
        MenuAction::ShowLibrary
    } else if cmd_id == ID_COMMAND_PALETTE {
        MenuAction::CommandPalette
    } else if cmd_id == ID_ABOUT {
        MenuAction::ShowAbout
    } else if cmd_id == ID_DIAGNOSTICS || cmd_id == ID_HOOK_WARNING {
        MenuAction::OpenDiagnostics
    } else if cmd_id == ID_QUIT {
        MenuAction::Quit
    } else if cmd_id == ID_KEEP_AWAKE {
        MenuAction::ToggleKeepAwake
    } else if cmd_id == ID_PAUSE_PLAYBACK {
        MenuAction::TogglePause
    } else if cmd_id == ID_NEXT_CUE {
        MenuAction::NextCue
    } else if cmd_id == ID_RESET_SETLIST {
        MenuAction::ResetSetlist
    } else if cmd_id >= ID_PINNED_BASE {
        let idx = (cmd_id - ID_PINNED_BASE) as usize;
        if idx < pinned_ids.len() {
            MenuAction::FirePinned(pinned_ids[idx].clone())
        } else {
            MenuAction::Nothing
        }
    } else {
        MenuAction::Nothing
    }
}


proof fn lemma_pinned_row(pinned: Seq<Prompt>, j: int)
    requires
        0 <= j < pinned.len(),
        pinned.len() <= MAX_PINNED,
    ensures
        pinned_rows(pinned).len() == pinned.len(),
        pinned_rows(pinned)[j] == entry((ID_PINNED_BASE + j) as u32, pinned_label(pinned[j]), false),
    decreases pinned.len(),
{
    lemma_pinned_rows_len(pinned);
    if j < pinned.len() - 1 {
        lemma_pinned_row(pinned.drop_last(), j);
    }
}

/// Every row the menu shows does something when chosen, and a pinned row
/// fires exactly the prompt it names.
pub proof fn lemma_every_row_dispatches(s: MenuState, prompts: Seq<Prompt>, k: int)
    requires
        pinned_of(prompts).len() <= MAX_PINNED,
        0 <= k < spec_tray_menu(s, prompts).len(),
        spec_tray_menu(s, prompts)[k] is Entry,
    ensures
        ({
            let id = spec_tray_menu(s, prompts)[k]->id;
            let ids = pinned_of(prompts).map_values(|p: Prompt| p.id@);
            &&& spec_menu_action(id, ids) != MenuActionView::Nothing
            &&& id >= ID_PINNED_BASE ==> spec_menu_action(id, ids) == MenuActionView::FirePinned(
                pinned_of(prompts)[id - ID_PINNED_BASE].id@,
            )
        }),
{
    let pinned = pinned_of(prompts);
    lemma_pinned_of_len(prompts);
    lemma_pinned_rows_len(pinned);
    let head = menu_head(s);
    let sec = pinned_section(pinned);
    let menu = spec_tray_menu(s, prompts);
    assert(menu == head + sec + menu_tail(s));
    if head.len() <= k < head.len() + sec.len() {
        let j = k - head.len() - 1;
        assert(sec[k - head.len()] == menu[k]);
        assert(0 <= j < pinned.len());
        lemma_pinned_row(pinned, j);
        assert(sec[j + 1] == pinned_rows(pinned)[j]);
    }
}

/// A prefix of the library has no more pinned prompts than the whole.
proof fn lemma_pinned_of_prefix(prompts: Seq<Prompt>, i: int)
    requires
        0 <= i <= prompts.len(),
    ensures
        pinned_of(prompts.take(i)).len() <= pinned_of(prompts).len(),
    decreases prompts.len(),
{
    if i < prompts.len() {
        assert(prompts.drop_last().take(i) =~= prompts.take(i));
        lemma_pinned_of_prefix(prompts.drop_last(), i);
    } else {
        assert(prompts.take(i) =~= prompts);
    }
}

proof fn lemma_pinned_of_len(prompts: Seq<Prompt>)
    ensures
        pinned_of(prompts).len() <= prompts.len(),
    decreases prompts.len(),
{
    if prompts.len() > 0 {
        lemma_pinned_of_len(prompts.drop_last());
    }
}

/// The UTF-16 code units of one char: itself below U+10000, else a
/// surrogate pair.
pub open spec fn utf16_of(c: char) -> Seq<u16> {
    let u = c as u32;
    if u < 0x10000 {
        seq![u as u16]
    } else {
        let v = u - 0x10000;
        seq![(0xD800 + v / 1024) as u16, (0xDC00 + v % 1024) as u16]
    }
}

/// UTF-16 encoding of a char sequence.
pub open spec fn utf16(s: Seq<char>) -> Seq<u16>
    decreases s.len(),
{
    if s.len() == 0 {
        Seq::empty()
    } else {
        utf16(s.drop_last()) + utf16_of(s.last())
    }
}

/// UTF-16 plus a terminating NUL, the form the native menu API copies.
pub fn wstr(s: &str) -> (r: Vec<u16>)
    ensures
        r@ == utf16(s@).push(0u16),
{
    let cs = crate::text::chars_of(s);
    let mut out: Vec<u16> = Vec::new();
    let mut i: usize = 0;
    while i < cs.len()
        invariant
            i <= cs@.len(),
            cs@ == s@,
            out@ == utf16(cs@.take(i as int)),
        decreases cs@.len() - i,
    {
        assert(cs@.take(i + 1).drop_last() =~= cs@.take(i as int));
        assert(cs@.take(i + 1).last() == cs@[i as int]);
        let u = cs[i] as u32;
        let ghost before = out@;
        if u < 0x10000 {
            out.push(u as u16);
        } else {
            let v = u - 0x10000;
            out.push((0xD800 + v / 1024) as u16);
            out.push((0xDC00 + v % 1024) as u16);
        }
        assert(out@ =~= before + utf16_of(cs@[i as int]));
        i = i + 1;
    }
    assert(cs@.take(i as int) =~= cs@);
    out.push(0u16);
    out
}


/// A window the tray can open.
#[derive(Debug, Clone, Copy, PartialEq, Eq, Structural)]
pub enum TrayTarget {
    Library,
    /// The command palette, summoned the same way as from its hotkey.
    Picker,
    About,
}

/// The window named by a tray request: `library`, `picker` or `about`;
/// anything else is refused as an invalid argument naming the target.
pub fn tray_target(target: &str) -> (r: Result<TrayTarget, crate::error::AppError>)
    ensures
        target@ == "library"@ ==> r == Ok::<TrayTarget, crate::error::AppError>(TrayTarget::Library),
        target@ == "picker"@ ==> r == Ok::<TrayTarget, crate::error::AppError>(TrayTarget::Picker),
        target@ == "about"@ ==> r == Ok::<TrayTarget, crate::error::AppError>(TrayTarget::About),
        (target@ != "library"@ && target@ != "picker"@ && target@ != "about"@) ==> (r matches Err(
            crate::error::AppError::InvalidArg(m),
        ) && m@ == "unknown tray target: "@ + target@),
{
    proof {
        reveal_strlit("library");
        reveal_strlit("picker");
        reveal_strlit("about");
        assert("library"@.len() == 7 && "picker"@.len() == 6 && "about"@.len() == 5);
    }
    if crate::text::str_eq(target, "library") {
        Ok(TrayTarget::Library)
    } else if crate::text::str_eq(target, "picker") {
        Ok(TrayTarget::Picker)
    } else if crate::text::str_eq(target, "about") {
        Ok(TrayTarget::About)
    } else {
        let mut msg: Vec<char> = Vec::new();
        push_str(&mut msg, "unknown tray target: ");
        push_str(&mut msg, target);
        Err(crate::error::AppError::InvalidArg(string_of(&msg)))
    }
}

} // verus!
