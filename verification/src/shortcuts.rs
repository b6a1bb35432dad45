//! Global shortcut bindings: the built-in chords, what a config entry
//! overrides, and which per-prompt hotkeys get registered.
//!
//! Defaults (all overridable from `promptplayer.yaml`): arm/disarm ⌘⇧P,
//! command palette ⌥⌘\, kill-switch ⌘⇧Esc (Ctrl+Alt+Shift+K off macOS, where
//! Ctrl+Shift+Esc is Task Manager), panic-reset ⌘⇧R (Ctrl+Alt+Shift+R),
//! next cue ⌘⇧., pause ⌘⇧,, faster ⌥⌘⇧. and slower ⌥⌘⇧,. The primary
//! modifier is Cmd on macOS and Ctrl elsewhere.

use crate::config::AppConfig;
use crate::hotkey::{normalize, spec_normalize, trim, trim_chars};
use crate::prompt::Prompt;
use crate::text::{chars_of, string_of};
use vstd::prelude::*;

verus! {

#[derive(Debug, Clone, Copy, PartialEq, Eq, Structural)]
pub enum Platform {
    MacOs,
    Other,
}

/// Modifier set of a chord.
#[derive(Debug, Clone, Copy, PartialEq, Eq, Structural)]
pub struct Modifiers {
    pub shift: bool,
    pub control: bool,
    pub alt: bool,
    pub super_key: bool,
}

/// The keys the built-in chords use.
#[derive(Debug, Clone, Copy, PartialEq, Eq, Structural)]
pub enum KeyCode {
    KeyP,
    KeyK,
    KeyR,
    Backslash,
    Escape,
    Period,
    Comma,
}

#[derive(Debug, Clone, Copy, PartialEq, Eq, Structural)]
pub struct Chord {
    pub modifiers: Modifiers,
    pub key: KeyCode,
}

/// The built-in chords, one per global action.
#[derive(Debug, Clone, Copy, PartialEq, Eq, Structural)]
pub struct GlobalChords {
    pub arm: Chord,
    pub picker: Chord,
    pub kill: Chord,
    pub panic: Chord,
    pub next_cue: Chord,
    pub pause: Chord,
    pub faster: Chord,
    pub slower: Chord,
}

/// `shift`, then Cmd on macOS or Ctrl elsewhere, plus `alt` and `control`
/// where asked.
pub open spec fn mods(platform: Platform, shift: bool, alt: bool, control: bool) -> Modifiers {
    Modifiers {
        shift,
        control: control || platform == Platform::Other,
        alt,
        super_key: platform == Platform::MacOs,
    }
}

/// Shift, Ctrl and Alt together, with no primary modifier.
pub open spec fn ctrl_alt_shift() -> Modifiers {
    Modifiers { shift: true, control: true, alt: true, super_key: false }
}

pub open spec fn spec_default_globals(platform: Platform) -> GlobalChords {
    GlobalChords {
        arm: Chord { modifiers: mods(platform, true, false, false), key: KeyCode::KeyP },
        picker: Chord { modifiers: mods(platform, false, true, false), key: KeyCode::Backslash },
        kill: if platform == Platform::MacOs {
            Chord { modifiers: mods(platform, true, false, false), key: KeyCode::Escape }
        } else {
            Chord { modifiers: ctrl_alt_shift(), key: KeyCode::KeyK }
        },
        panic: if platform == Platform::MacOs {
            Chord { modifiers: mods(platform, true, false, false), key: KeyCode::KeyR }
        } else {
            Chord { modifiers: ctrl_alt_shift(), key: KeyCode::KeyR }
        },
        next_cue: Chord { modifiers: mods(platform, true, false, false), key: KeyCode::Period },
        pause: Chord { modifiers: mods(platform, true, false, false), key: KeyCode::Comma },
        faster: Chord { modifiers: mods(platform, true, true, false), key: KeyCode::Period },
        slower: Chord { modifiers: mods(platform, true, true, false), key: KeyCode::Comma },
    }
}

fn primary_mods(platform: Platform, shift: bool, alt: bool) -> (r: Modifiers)
    ensures
        r == mods(platform, shift, alt, false),
{
    Modifiers {
        shift,
        control: match platform {
            Platform::Other => true,
            Platform::MacOs => false,
        },
        alt,
        super_key: match platform {
            Platform::MacOs => true,
            Platform::Other => false,
        },
    }
}

/// The built-in chords for `platform`.
pub fn default_globals(platform: Platform) -> (r: GlobalChords)
    ensures
        r == spec_default_globals(platform),
{
    let cas = Modifiers { shift: true, control: true, alt: true, super_key: false };
    let mac = match platform {
        Platform::MacOs => true,
        Platform::Other => false,
    };
    GlobalChords {
        arm: Chord { modifiers: primary_mods(platform, true, false), key: KeyCode::KeyP },
        picker: Chord { modifiers: primary_mods(platform, false, true), key: KeyCode::Backslash },
        kill: if mac {
            Chord { modifiers: primary_mods(platform, true, false), key: KeyCode::Escape }
        } else {
            Chord { modifiers: cas, key: KeyCode::KeyK }
        },
        panic: if mac {
            Chord { modifiers: primary_mods(platform, true, false), key: KeyCode::KeyR }
        } else {
            Chord { modifiers: cas, key: KeyCode::KeyR }
        },
        next_cue: Chord { modifiers: primary_mods(platform, true, false), key: KeyCode::Period },
        pause: Chord { modifiers: primary_mods(platform, true, false), key: KeyCode::Comma },
        faster: Chord { modifiers: primary_mods(platform, true, true), key: KeyCode::Period },
        slower: Chord { modifiers: primary_mods(platform, true, true), key: KeyCode::Comma },
    }
}

/// The eight default chords as a list, in action order.
pub open spec fn default_list(g: GlobalChords) -> Seq<Chord> {
    seq![g.arm, g.picker, g.kill, g.panic, g.next_cue, g.pause, g.faster, g.slower]
}

/// No two built-in chords collide, on either platform.
pub proof fn lemma_defaults_distinct(platform: Platform)
    ensures
        forall|i: int, j: int|
            0 <= i < j < 8 ==> #[trigger] default_list(spec_default_globals(platform))[i]
                != #[trigger] default_list(spec_default_globals(platform))[j],
{
}

/// A global's binding: the built-in chord, or a configured chord string
/// (normalized) that the shortcut parser gets first, with the built-in chord
/// to fall back on if it does not parse.
#[derive(Debug, Clone)]
pub enum Binding {
    Default(Chord),
    Configured { normalized: String, fallback: Chord },
}

/// A configured entry counts when it is non-empty after trimming.
pub open spec fn spec_resolve(configured: Option<Seq<char>>, default: Chord) -> Option<
    Seq<char>,
> {
    match configured {
        Some(raw) => if trim(raw).len() > 0 {
            Some(spec_normalize(trim(raw)))
        } else {
            None
        },
        None => None,
    }
}

/// Resolve one global: an absent or blank config entry keeps the built-in
/// chord; anything else is normalized for the parser.
pub fn resolve(configured: Option<&String>, default: Chord) -> (r: Binding)
    ensures
        match spec_resolve(
            match configured {
                Some(s) => Some(s@),
                None => None,
            },
            default,
        ) {
            Some(n) => r matches Binding::Configured { normalized, fallback } && normalized@ == n
                && fallback == default,
            None => r matches Binding::Default(c) && c == default,
        },
{
    match configured {
        Some(raw) => {
            let t = trim_chars(&chars_of(raw.as_str()));
            if t.len() > 0 {
                let ts = string_of(&t);
                Binding::Configured { normalized: normalize(ts.as_str()), fallback: default }
            } else {
                Binding::Default(default)
            }
        },
        None => Binding::Default(default),
    }
}

/// The bindings in effect for one session.
#[derive(Debug, Clone)]
pub struct Globals {
    pub arm: Binding,
    pub picker: Binding,
    pub kill: Binding,
    pub panic: Binding,
    pub next_cue: Binding,
    pub pause: Binding,
    pub faster: Binding,
    pub slower: Binding,
}

/// Resolve all eight globals from the config.
pub fn resolve_globals(cfg: &AppConfig, platform: Platform) -> (r: Globals)
    ensures
        ({
            let d = spec_default_globals(platform);
            &&& binding_of(r.arm, opt_ref_view(cfg.hotkey_arm), d.arm)
            &&& binding_of(r.picker, opt_ref_view(cfg.hotkey_picker), d.picker)
            &&& binding_of(r.kill, opt_ref_view(cfg.hotkey_kill), d.kill)
            &&& binding_of(r.panic, opt_ref_view(cfg.hotkey_panic), d.panic)
            &&& binding_of(r.next_cue, opt_ref_view(cfg.hotkey_next_cue), d.next_cue)
            &&& binding_of(r.pause, opt_ref_view(cfg.hotkey_pause), d.pause)
            &&& binding_of(r.faster, opt_ref_view(cfg.hotkey_faster), d.faster)
            &&& binding_of(r.slower, opt_ref_view(cfg.hotkey_slower), d.slower)
        }),
{
    let d = default_globals(platform);
    Globals {
        arm: resolve(cfg.hotkey_arm.as_ref(), d.arm),
        picker: resolve(cfg.hotkey_picker.as_ref(), d.picker),
        kill: resolve(cfg.hotkey_kill.as_ref(), d.kill),
        panic: resolve(cfg.hotkey_panic.as_ref(), d.panic),
        next_cue: resolve(cfg.hotkey_next_cue.as_ref(), d.next_cue),
        pause: resolve(cfg.hotkey_pause.as_ref(), d.pause),
        faster: resolve(cfg.hotkey_faster.as_ref(), d.faster),
        slower: resolve(cfg.hotkey_slower.as_ref(), d.slower),
    }
}

pub open spec fn opt_ref_view(o: Option<String>) -> Option<Seq<char>> {
    match o {
        Some(s) => Some(s@),
        None => None,
    }
}

/// `b` is what [`resolve`] gives for `configured` over `default`.
pub open spec fn binding_of(b: Binding, configured: Option<Seq<char>>, default: Chord) -> bool {
    match spec_resolve(configured, default) {
        Some(n) => b matches Binding::Configured { normalized, fallback } && normalized@ == n
            && fallback == default,
        None => b matches Binding::Default(c) && c == default,
    }
}

/// A per-prompt hotkey to register: the string as written, its normalized
/// form, and the prompt it fires.
#[derive(Debug, Clone)]
pub struct PromptHotkey {
    pub hotkey: String,
    pub normalized: String,
    pub prompt_id: String,
}

pub ghost struct PromptHotkeyView {
    pub hotkey: Seq<char>,
    pub normalized: Seq<char>,
    pub prompt_id: Seq<char>,
}

impl View for PromptHotkey {
    type V = PromptHotkeyView;

    open spec fn view(&self) -> PromptHotkeyView {
        PromptHotkeyView {
            hotkey: self.hotkey@,
            normalized: self.normalized@,
            prompt_id: self.prompt_id@,
        }
    }
}

/// The hotkeys of the enabled prompts that set a non-blank one, in library
/// order.
pub open spec fn spec_prompt_hotkeys(prompts: Seq<Prompt>) -> Seq<PromptHotkeyView>
    decreases prompts.len(),
{
    if prompts.len() == 0 {
        Seq::empty()
    } else {
        let prev = spec_prompt_hotkeys(prompts.drop_last());
        let p = prompts.last();
        match p.hotkey {
            Some(hk) => if p.enabled && trim(hk@).len() > 0 {
                prev.push(
                    PromptHotkeyView {
                        hotkey: hk@,
                        normalized: spec_normalize(hk@),
                        prompt_id: p.id@,
                    },
                )
            } else {
                prev
            },
            None => prev,
        }
    }
}

/// Which per-prompt hotkeys to register after a library reload.
pub fn prompt_hotkeys(prompts: &[Prompt]) -> (r: Vec<PromptHotkey>)
    ensures
        r@.map_values(|h: PromptHotkey| h@) == spec_prompt_hotkeys(prompts@),
{
    let mut out: Vec<PromptHotkey> = Vec::new();
    let mut i: usize = 0;
    while i < prompts.len()
        invariant
            i <= prompts@.len(),
            out@.map_values(|h: PromptHotkey| h@) == spec_prompt_hotkeys(prompts@.take(i as int)),
        decreases prompts@.len() - i,
    {
        let p = &prompts[i];
        assert(prompts@.take(i + 1).drop_last() =~= prompts@.take(i as int));
        assert(prompts@.take(i + 1).last() == prompts@[i as int]);
        match &p.hotkey {
            Some(hk) => {
                if p.enabled && trim_chars(&chars_of(hk.as_str())).len() > 0 {
                    let ghost before = out@.map_values(|h: PromptHotkey| h@);
                    out.push(
                        PromptHotkey {
                            hotkey: hk.clone(),
                            normalized: normalize(hk.as_str()),
                            prompt_id: p.id.clone(),
                        },
                    );
                    assert(out@.map_values(|h: PromptHotkey| h@) =~= before.push(
                        PromptHotkeyView {
                            hotkey: hk@,
                            normalized: spec_normalize(hk@),
                            prompt_id: p.id@,
                        },
                    ));
                }
            },
            None => {},
        }
        i = i + 1;
    }
    assert(prompts@.take(i as int) =~= prompts@);
    out
}


/// Which of the eight globals equal the shortcut that was pressed.
#[derive(Debug, Clone, Copy, PartialEq, Eq, Structural)]
pub struct PressedGlobals {
    pub arm: bool,
    pub picker: bool,
    pub kill: bool,
    pub panic: bool,
    pub next_cue: bool,
    pub pause: bool,
    pub faster: bool,
    pub slower: bool,
}

/// What a global-shortcut event asks for.
#[derive(Debug, Clone, Copy, PartialEq, Eq, Structural)]
pub enum ShortcutAction {
    /// Flip armed, refresh the tray.
    ToggleArm,
    /// Summon the command palette.
    SummonPicker,
    /// Cancel the running playback.
    Kill,
    /// Cancel the playback, disarm, release held modifiers, hide the picker
    /// and refresh the tray.
    PanicReset,
    /// Fire the setlist's next cue.
    NextCue,
    /// Pause or resume the running playback.
    TogglePause,
    /// Speed the running playback up.
    Faster,
    /// Slow the running playback down.
    Slower,
    /// Fire the prompt of the per-prompt hotkey at this position.
    PromptHotkey(usize),
    /// A key release, or a shortcut that nothing is bound to.
    Ignore,
}

/// The first per-prompt hotkey that matches, if any.
pub open spec fn first_match(matches: Seq<bool>) -> Option<nat>
    decreases matches.len(),
{
    if matches.len() == 0 {
        None
    } else if matches[0] {
        Some(0)
    } else {
        match first_match(matches.skip(1)) {
            Some(i) => Some(i + 1),
            None => None,
        }
    }
}

/// The action for a shortcut event: only presses count; the globals are
/// tried in a fixed order (arm, palette, kill, panic, next cue, pause,
/// faster, slower) and the first that matches wins; otherwise the first
/// per-prompt hotkey that matches fires its prompt.
pub open spec fn spec_shortcut_action(pressed: bool, g: PressedGlobals, prompt_matches: Seq<bool>)
    -> ShortcutAction {
    if !pressed {
        ShortcutAction::Ignore
    } else if g.arm {
        ShortcutAction::ToggleArm
    } else if g.picker {
        ShortcutAction::SummonPicker
    } else if g.kill {
        ShortcutAction::Kill
    } else if g.panic {
        ShortcutAction::PanicReset
    } else if g.next_cue {
        ShortcutAction::NextCue
    } else if g.pause {
        ShortcutAction::TogglePause
    } else if g.faster {
        ShortcutAction::Faster
    } else if g.slower {
        ShortcutAction::Slower
    } else {
        match first_match(prompt_matches) {
            Some(i) => ShortcutAction::PromptHotkey(i as usize),
            None => ShortcutAction::Ignore,
        }
    }
}

/// Dispatch one global-shortcut event. `pressed` is whether it is a key
/// press; `prompt_matches` says, for each per-prompt hotkey in turn, whether
/// its normalized chord equals the pressed shortcut.
pub fn shortcut_action(pressed: bool, g: PressedGlobals, prompt_matches: &[bool]) -> (r: ShortcutAction)
    ensures
        r == spec_shortcut_action(pressed, g, prompt_matches@),
{
    if !pressed {
        ShortcutAction::Ignore
    } else if g.arm {
        ShortcutAction::ToggleArm
    } else if g.picker {
        ShortcutAction::SummonPicker
    } else if g.kill {
        ShortcutAction::Kill
    } else if g.panic {
        ShortcutAction::PanicReset
    } else if g.next_cue {
        ShortcutAction::NextCue
    } else if g.pause {
        ShortcutAction::TogglePause
    } else if g.faster {
        ShortcutAction::Faster
    } else if g.slower {
        ShortcutAction::Slower
    } else {
        let mut i: usize = 0;
        assert(prompt_matches@.skip(0) =~= prompt_matches@);
        while i < prompt_matches.len()
            invariant
                pressed,
                !(g.arm || g.picker || g.kill || g.panic || g.next_cue || g.pause || g.faster || g.slower),
                i <= prompt_matches@.len(),
                first_match(prompt_matches@) == match first_match(prompt_matches@.skip(i as int)) {
                    Some(k) => Some((k + i) as nat),
                    None => None::<nat>,
                },
            decreases prompt_matches@.len() - i,
        {
            if prompt_matches[i] {
                assert(first_match(prompt_matches@.skip(i as int)) == Some(0nat));
                return ShortcutAction::PromptHotkey(i);
            }
            assert(prompt_matches@.skip(i as int).skip(1) =~= prompt_matches@.skip(i + 1));
            i = i + 1;
        }
        assert(prompt_matches@.skip(i as int) =~= Seq::<bool>::empty());
        ShortcutAction::Ignore
    }
}

} // verus!
