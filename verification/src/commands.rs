//! What the app's commands compute: the setlist editor rows, whether a saved
//! config needs a relaunch, the diagnostics self test, the update check
//! answer and its background poll, and the keep-awake state for the UI.

use crate::config::AppConfig;
use crate::error::AppError;
use crate::power::{PowerManager, spec_remaining};
use crate::prompt::Prompt;
use crate::text::{chars_of, string_of};
use crate::text::push_str;
use vstd::prelude::*;

verus! {

/// One row of the setlist editor.
#[derive(Debug, Clone)]
pub struct SetlistEntry {
    pub prompt_id: String,
    /// Prompt name, or the raw id when the prompt no longer exists.
    pub name: String,
    /// The id no longer resolves: surfaced rather than silently dropped so the
    /// user can see why a cue does nothing.
    pub missing: bool,
    /// This is the cue that fires next.
    pub is_next: bool,
}

/// Position of the first prompt with id `id`.
pub open spec fn find_prompt(prompts: Seq<Prompt>, id: Seq<char>) -> Option<int>
    decreases prompts.len(),
{
    if prompts.len() == 0 {
        None
    } else if prompts[0].id@ == id {
        Some(0)
    } else {
        match find_prompt(prompts.drop_first(), id) {
            Some(k) => Some(k + 1),
            None => None,
        }
    }
}

proof fn lemma_find_prompt(prompts: Seq<Prompt>, id: Seq<char>)
    ensures
        match find_prompt(prompts, id) {
            Some(k) => 0 <= k < prompts.len() && prompts[k].id@ == id && forall|j: int|
                0 <= j < k ==> prompts[j].id@ != id,
            None => forall|j: int| 0 <= j < prompts.len() ==> prompts[j].id@ != id,
        },
    decreases prompts.len(),
{
    if prompts.len() > 0 && prompts[0].id@ != id {
        lemma_find_prompt(prompts.drop_first(), id);
        assert forall|j: int| 0 < j < prompts.len() implies prompts[j] == prompts.drop_first()[j
            - 1] by {}
    }
}

pub(crate) fn find_index(prompts: &[Prompt], id: &String) -> (r: Option<usize>)
    ensures
        match r {
            Some(k) => k < prompts@.len() && find_prompt(prompts@, id@) == Some(k as int),
            None => find_prompt(prompts@, id@) is None,
        },
{
    proof {
        lemma_find_prompt(prompts@, id@);
    }
    let mut i: usize = 0;
    while i < prompts.len()
        invariant
            i <= prompts@.len(),
            forall|j: int| 0 <= j < i ==> prompts@[j].id@ != id@,
            match find_prompt(prompts@, id@) {
                Some(k) => 0 <= k < prompts@.len() && prompts@[k].id@ == id@ && forall|j: int|
                    0 <= j < k ==> prompts@[j].id@ != id@,
                None => forall|j: int| 0 <= j < prompts@.len() ==> prompts@[j].id@ != id@,
            },
        decreases prompts@.len() - i,
    {
        if prompts[i].id == *id {
            return Some(i);
        }
        i = i + 1;
    }
    None
}

pub ghost struct SetlistRowView {
    pub prompt_id: Seq<char>,
    pub name: Seq<char>,
    pub missing: bool,
    pub is_next: bool,
}

impl View for SetlistEntry {
    type V = SetlistRowView;

    open spec fn view(&self) -> SetlistRowView {
        SetlistRowView {
            prompt_id: self.prompt_id@,
            name: self.name@,
            missing: self.missing,
            is_next: self.is_next,
        }
    }
}

/// The editor row for setlist position `i`.
pub open spec fn spec_setlist_row(
    setlist: Seq<Seq<char>>,
    prompts: Seq<Prompt>,
    cursor: nat,
    i: int,
) -> SetlistRowView {
    let id = setlist[i];
    SetlistRowView {
        prompt_id: id,
        name: match find_prompt(prompts, id) {
            Some(k) => prompts[k].name@,
            None => id,
        },
        missing: find_prompt(prompts, id) is None,
        is_next: i == cursor % setlist.len(),
    }
}

/// The setlist editor rows: one per cue, in order, with its prompt's name,
/// whether it is missing, and which cue fires next.
pub fn setlist_rows(setlist: &[String], prompts: &[Prompt], cursor: usize) -> (r: Vec<SetlistEntry>)
    ensures
        r@.len() == setlist@.len(),
        forall|i: int|
            0 <= i < setlist@.len() ==> #[trigger] r@[i]@ == spec_setlist_row(
                setlist@.map_values(|s: String| s@),
                prompts@,
                cursor as nat,
                i,
            ),
{
    let ghost sv = setlist@.map_values(|s: String| s@);
    let mut out: Vec<SetlistEntry> = Vec::new();
    if setlist.len() == 0 {
        return out;
    }
    let next = cursor % setlist.len();
    let mut i: usize = 0;
    while i < setlist.len()
        invariant
            i <= setlist@.len(),
            setlist@.len() > 0,
            next == cursor % setlist.len(),
            sv == setlist@.map_values(|s: String| s@),
            out@.len() == i,
            forall|j: int|
                0 <= j < i ==> #[trigger] out@[j]@ == spec_setlist_row(
                    sv,
                    prompts@,
                    cursor as nat,
                    j,
                ),
        decreases setlist@.len() - i,
    {
        let id = &setlist[i];
        let row = match find_index(prompts, id) {
            Some(k) => SetlistEntry {
                prompt_id: id.clone(),
                name: prompts[k].name.clone(),
                missing: false,
                is_next: i == next,
            },
            None => SetlistEntry {
                prompt_id: id.clone(),
                name: id.clone(),
                missing: true,
                is_next: i == next,
            },
        };
        out.push(row);
        i = i + 1;
    }
    out
}

/// Whether setlist position `i` names a prompt that exists.
pub open spec fn cue_live(setlist: Seq<Seq<char>>, prompts: Seq<Prompt>, i: int) -> bool {
    find_prompt(prompts, setlist[i]) is Some
}

/// The first live cue at or after offset `k` of a walk that starts at the
/// cursor and goes once round the setlist.
pub open spec fn cue_walk(setlist: Seq<Seq<char>>, prompts: Seq<Prompt>, cursor: int, k: nat) -> Option<
    int,
>
    decreases setlist.len() - k,
{
    if k >= setlist.len() {
        None
    } else if cue_live(setlist, prompts, (cursor + k) % (setlist.len() as int)) {
        Some((cursor + k) % (setlist.len() as int))
    } else {
        cue_walk(setlist, prompts, cursor, k + 1)
    }
}

/// The setlist cue that fires next from `cursor`: walking forward from the
/// cursor's position, past any cue whose prompt no longer exists (so one
/// stale entry cannot wedge the setlist), at most once round. On success,
/// the position that fires and the cursor after it; `None` for an empty
/// setlist; an invalid-argument error when no cue resolves.
pub fn next_cue(setlist: &[String], prompts: &[Prompt], cursor: usize) -> (r: Result<
    Option<(usize, usize)>,
    AppError,
>)
    ensures
        setlist@.len() == 0 ==> r matches Ok(None),
        setlist@.len() > 0 ==> match cue_walk(setlist@.map_values(|s: String| s@), prompts@, cursor as int, 0) {
            Some(i) => r == Ok::<Option<(usize, usize)>, AppError>(Some((i as usize, (i + 1) as usize))),
            None => r matches Err(AppError::InvalidArg(_)),
        },
{
    let ghost sv = setlist@.map_values(|s: String| s@);
    let len = setlist.len();
    if len == 0 {
        return Ok(None);
    }
    let mut idx: usize = cursor % len;
    let mut k: usize = 0;
    assert((cursor + 0) % (len as int) == idx);
    while k < len
        invariant
            len == setlist@.len(),
            len > 0,
            sv == setlist@.map_values(|s: String| s@),
            k <= len,
            k < len ==> idx == (cursor + k) % (len as int),
            cue_walk(sv, prompts@, cursor as int, 0) == cue_walk(sv, prompts@, cursor as int, k as nat),
        decreases len - k,
    {
        assert(sv[idx as int] == setlist@[idx as int]@);
        if find_index(prompts, &setlist[idx]).is_some() {
            return Ok(Some((idx, idx + 1)));
        }
        let ghost a = cursor + k;
        idx = if idx + 1 == len {
            0
        } else {
            idx + 1
        };
        proof {
            let n = len as int;
            assert((a + 1) % n == (if (a % n) + 1 == n { 0 } else { (a % n) + 1 })) by (nonlinear_arith)
                requires
                    n > 0,
                    a >= 0,
            {
                vstd::arithmetic::div_mod::lemma_add_mod_noop(a, 1, n);
                if n == 1 {
                    assert(a % n == 0);
                    assert((a + 1) % n == 0);
                } else {
                    vstd::arithmetic::div_mod::lemma_small_mod(1, n as nat);
                    vstd::arithmetic::div_mod::lemma_mod_bound(a, n);
                    if (a % n) + 1 < n {
                        vstd::arithmetic::div_mod::lemma_small_mod(((a % n) + 1) as nat, n as nat);
                    } else {
                        vstd::arithmetic::div_mod::lemma_mod_self_0(n);
                    }
                }
            }
        }
        k = k + 1;
    }
    Err(AppError::InvalidArg(crate::text::owned("no setlist cue resolves to an existing prompt")))
}

/// A non-empty setlist marks exactly one cue as next, the one at the
/// cursor's position.
pub proof fn lemma_exactly_one_next_cue(setlist: Seq<Seq<char>>, prompts: Seq<Prompt>, cursor: nat)
    requires
        setlist.len() > 0,
    ensures
        spec_setlist_row(setlist, prompts, cursor, (cursor % setlist.len()) as int).is_next,
        forall|i: int|
            0 <= i < setlist.len() && #[trigger] spec_setlist_row(setlist, prompts, cursor, i).is_next
                ==> i == cursor % setlist.len(),
{
}

/// The cue the setlist editor marks as next is the one that fires, unless
/// its prompt is missing; then a later live cue fires instead, and never
/// the missing one.
pub proof fn lemma_marked_cue_fires(setlist: Seq<Seq<char>>, prompts: Seq<Prompt>, cursor: nat)
    requires
        setlist.len() > 0,
    ensures
        !spec_setlist_row(setlist, prompts, cursor, (cursor % setlist.len()) as int).missing ==> cue_walk(
            setlist,
            prompts,
            cursor as int,
            0,
        ) == Some((cursor % setlist.len()) as int),
        cue_walk(setlist, prompts, cursor as int, 0) matches Some(i) ==> 0 <= i < setlist.len()
            && !spec_setlist_row(setlist, prompts, cursor, i).missing,
{
    lemma_cue_walk_live(setlist, prompts, cursor as int, 0);
}

proof fn lemma_cue_walk_live(setlist: Seq<Seq<char>>, prompts: Seq<Prompt>, cursor: int, k: nat)
    requires
        setlist.len() > 0,
    ensures
        cue_walk(setlist, prompts, cursor, k) matches Some(i) ==> 0 <= i < setlist.len() && cue_live(
            setlist,
            prompts,
            i,
        ),
    decreases setlist.len() - k,
{
    if k < setlist.len() {
        lemma_cue_walk_live(setlist, prompts, cursor, k + 1);
    }
}

/// What saving the config reports back.
#[derive(Debug, Clone)]
pub struct SaveConfigOutcome {
    pub path: String,
    /// Global hotkeys are registered once at startup, so a changed chord
    /// needs a relaunch; everything else takes effect on the next use.
    pub restart_required_for_hotkeys: bool,
}

pub open spec fn opt_view(o: Option<String>) -> Option<Seq<char>> {
    match o {
        Some(s) => Some(s@),
        None => None,
    }
}

fn opt_eq(a: &Option<String>, b: &Option<String>) -> (r: bool)
    ensures
        r == (opt_view(*a) == opt_view(*b)),
{
    match (a, b) {
        (Some(x), Some(y)) => *x == *y,
        (None, None) => true,
        _ => false,
    }
}

pub open spec fn spec_hotkeys_differ(a: AppConfig, b: AppConfig) -> bool {
    ||| opt_view(a.hotkey_arm) != opt_view(b.hotkey_arm)
    ||| opt_view(a.hotkey_picker) != opt_view(b.hotkey_picker)
    ||| opt_view(a.hotkey_kill) != opt_view(b.hotkey_kill)
    ||| opt_view(a.hotkey_panic) != opt_view(b.hotkey_panic)
    ||| opt_view(a.hotkey_next_cue) != opt_view(b.hotkey_next_cue)
    ||| opt_view(a.hotkey_pause) != opt_view(b.hotkey_pause)
    ||| opt_view(a.hotkey_faster) != opt_view(b.hotkey_faster)
    ||| opt_view(a.hotkey_slower) != opt_view(b.hotkey_slower)
}

/// Whether any of the eight global hotkeys changed between two configs.
pub fn hotkeys_differ(a: &AppConfig, b: &AppConfig) -> (r: bool)
    ensures
        r == spec_hotkeys_differ(*a, *b),
{
    !opt_eq(&a.hotkey_arm, &b.hotkey_arm) || !opt_eq(&a.hotkey_picker, &b.hotkey_picker)
        || !opt_eq(&a.hotkey_kill, &b.hotkey_kill) || !opt_eq(&a.hotkey_panic, &b.hotkey_panic)
        || !opt_eq(&a.hotkey_next_cue, &b.hotkey_next_cue) || !opt_eq(
        &a.hotkey_pause,
        &b.hotkey_pause,
    ) || !opt_eq(&a.hotkey_faster, &b.hotkey_faster) || !opt_eq(
        &a.hotkey_slower,
        &b.hotkey_slower,
    )
}

/// Saving a config, after the file write: the config to keep in memory and
/// the answer. A written file adopts `proposed` and reports its path and
/// whether a global hotkey changed (those need a relaunch); a failed write
/// keeps `previous` in memory, so the app and the disk never disagree, and
/// reports an internal error with the write's message.
pub fn settle_saved_config(previous: AppConfig, proposed: AppConfig, written: Result<String, String>) -> (r: (
    AppConfig,
    Result<SaveConfigOutcome, AppError>,
))
    ensures
        match written {
            Ok(path) => {
                &&& r.0 == proposed
                &&& r.1 matches Ok(o) && o.path == path && o.restart_required_for_hotkeys
                    == spec_hotkeys_differ(previous, proposed)
            },
            Err(e) => {
                &&& r.0 == previous
                &&& r.1 matches Err(AppError::Internal(m)) && m == e
            },
        },
{
    let changed = hotkeys_differ(&previous, &proposed);
    match written {
        Ok(path) => (proposed, Ok(SaveConfigOutcome { path, restart_required_for_hotkeys: changed })),
        Err(e) => (previous, Err(AppError::Internal(e))),
    }
}

/// Everything the diagnostics window shows, in one round trip.
#[derive(Debug, Clone)]
pub struct Diagnostics {
    pub version: String,
    pub os: String,
    /// macOS Accessibility permission. Always true where it doesn't apply.
    pub accessibility_trusted: bool,
    /// The keyboard hook is installed and dispatching.
    pub hook_alive: bool,
    /// macOS Secure Input is engaged right now, so triggers are gated off.
    pub secure_input_active: bool,
    /// Capture exclusion is not fully in effect.
    pub capture_degraded: bool,
    pub armed: bool,
    pub keep_awake: bool,
    pub prompts: u32,
    pub enabled_prompts: u32,
    pub triggers: u32,
    pub hotkeys: u32,
    pub library_root: String,
    pub log_dir: String,
    /// The hook cannot work and the user must act.
    pub needs_attention: bool,
}

/// The user must act when the hook is down or the permission is missing.
pub fn needs_attention(hook_alive: bool, accessibility_trusted: bool) -> (r: bool)
    ensures
        r == (!hook_alive || !accessibility_trusted),
{
    !hook_alive || !accessibility_trusted
}

/// Number of enabled prompts and of their triggers.
pub open spec fn enabled_counts(prompts: Seq<Prompt>) -> (nat, nat)
    decreases prompts.len(),
{
    if prompts.len() == 0 {
        (0, 0)
    } else {
        let (e, t) = enabled_counts(prompts.drop_last());
        if prompts.last().enabled {
            (e + 1, t + prompts.last().triggers@.len())
        } else {
            (e, t)
        }
    }
}

proof fn lemma_counts_monotone(s: Seq<Prompt>, i: int)
    requires
        0 <= i <= s.len(),
    ensures
        enabled_counts(s.take(i)).0 <= enabled_counts(s).0,
        enabled_counts(s.take(i)).1 <= enabled_counts(s).1,
    decreases s.len(),
{
    if i < s.len() {
        assert(s.take(i) =~= s.drop_last().take(i));
        lemma_counts_monotone(s.drop_last(), i);
    } else {
        assert(s.take(i) =~= s);
    }
}

/// `(prompts, enabled prompts, triggers of enabled prompts)` for the
/// diagnostics counters, each wrapped to `u32` as the window shows it.
pub fn library_counts(prompts: &[Prompt]) -> (r: (u32, u32, u32))
    requires
        enabled_counts(prompts@).1 <= usize::MAX,
    ensures
        r.0 == prompts@.len() as u32,
        r.1 == enabled_counts(prompts@).0 as u32,
        r.2 == enabled_counts(prompts@).1 as u32,
{
    let mut enabled: usize = 0;
    let mut triggers: usize = 0;
    let mut i: usize = 0;
    while i < prompts.len()
        invariant
            i <= prompts@.len(),
            enabled_counts(prompts@).1 <= usize::MAX,
            enabled as nat == enabled_counts(prompts@.take(i as int)).0,
            triggers as nat == enabled_counts(prompts@.take(i as int)).1,
            enabled <= i,
        decreases prompts@.len() - i,
    {
        assert(prompts@.take(i + 1).drop_last() =~= prompts@.take(i as int));
        assert(prompts@.take(i + 1).last() == prompts@[i as int]);
        proof {
            lemma_counts_monotone(prompts@, i + 1);
        }
        if prompts[i].enabled {
            enabled = enabled + 1;
            triggers = triggers + prompts[i].triggers.len();
        }
        i = i + 1;
    }
    assert(prompts@.take(i as int) =~= prompts@);
    (prompts.len() as u32, enabled as u32, triggers as u32)
}

/// The string the self test types: lowercase ASCII and spaces only, so no
/// keyboard layout can mangle it.
pub const SELF_TEST_PROBE: &'static str = "prompt player ok";

/// The probe is non-empty, shorter than 32 chars, and lowercase ASCII or
/// spaces throughout.
pub proof fn lemma_probe_is_layout_safe()
    ensures
        0 < SELF_TEST_PROBE@.len() < 32,
        forall|i: int|
            0 <= i < SELF_TEST_PROBE@.len() ==> ('a' <= #[trigger] SELF_TEST_PROBE@[i] <= 'z'
                || SELF_TEST_PROBE@[i] == ' '),
{
    reveal_strlit("prompt player ok");
    assert(SELF_TEST_PROBE@ =~= seq![
        'p', 'r', 'o', 'm', 'p', 't', ' ', 'p', 'l', 'a', 'y', 'e', 'r', ' ', 'o', 'k',
    ]);
}

/// Which self-test step failed first; `Roundtrip` when none did.
#[derive(Debug, Clone, Copy, PartialEq, Eq, Structural)]
pub enum SelfTestStage {
    Accessibility,
    Hook,
    SecureInput,
    Injector,
    Library,
    Roundtrip,
}

/// One self-test step and whether it passed.
#[derive(Debug, Clone)]
pub struct SelfTestStep {
    pub name: String,
    pub passed: bool,
    pub detail: String,
}

/// Result of the pre-flight self test.
#[derive(Debug, Clone)]
pub struct SelfTestReport {
    pub passed: bool,
    pub steps: Vec<SelfTestStep>,
    /// The string the typing step will inject, for the UI to compare against.
    pub probe: String,
}

/// What the self test reads from the machine.
#[derive(Debug, Clone, Copy)]
pub struct SelfTestInputs {
    pub accessibility_trusted: bool,
    pub hook_alive: bool,
    pub secure_input_active: bool,
    pub injector_ok: bool,
    /// Triggers indexed from enabled prompts.
    pub triggers: u32,
}

pub ghost struct StepView {
    pub name: Seq<char>,
    pub passed: bool,
    pub detail: Seq<char>,
}

impl View for SelfTestStep {
    type V = StepView;

    open spec fn view(&self) -> StepView {
        StepView { name: self.name@, passed: self.passed, detail: self.detail@ }
    }
}

/// The five steps, in the order a keypress travels: permission, hook,
/// Secure Input, keystroke synthesis, prompt library.
pub open spec fn spec_self_test_steps(i: SelfTestInputs) -> Seq<StepView> {
    let library_ok = i.triggers > 0;
    seq![
        StepView {
            name: "Accessibility permission"@,
            passed: i.accessibility_trusted,
            detail: if i.accessibility_trusted {
                "Granted"@
            } else {
                "Not granted — the keyboard hook cannot install"@
            },
        },
        StepView {
            name: "Keyboard hook"@,
            passed: i.hook_alive,
            detail: if i.hook_alive {
                "Installed and listening"@
            } else {
                "Not installed — triggers will never fire"@
            },
        },
        StepView {
            name: "Secure Input"@,
            passed: !i.secure_input_active,
            detail: if i.secure_input_active {
                "Engaged right now — triggers are gated off"@
            } else {
                "Clear"@
            },
        },
        StepView {
            name: "Keystroke synthesis"@,
            passed: i.injector_ok,
            detail: if i.injector_ok {
                "Injector ready"@
            } else {
                "Could not create an injector — nothing can be typed"@
            },
        },
        StepView {
            name: "Prompt library"@,
            passed: library_ok,
            detail: if library_ok {
                "Triggers indexed"@
            } else {
                "No enabled triggers — nothing to match"@
            },
        },
    ]
}

/// The first failing step's stage, or `Roundtrip` when all passed.
pub open spec fn spec_first_failure(i: SelfTestInputs) -> SelfTestStage {
    if !i.accessibility_trusted {
        SelfTestStage::Accessibility
    } else if !i.hook_alive {
        SelfTestStage::Hook
    } else if i.secure_input_active {
        SelfTestStage::SecureInput
    } else if !i.injector_ok {
        SelfTestStage::Injector
    } else if i.triggers == 0 {
        SelfTestStage::Library
    } else {
        SelfTestStage::Roundtrip
    }
}

fn step(name: &str, passed: bool, detail: &str) -> (r: SelfTestStep)
    ensures
        r@ == (StepView { name: name@, passed, detail: detail@ }),
{
    SelfTestStep { name: crate::text::owned(name), passed, detail: crate::text::owned(detail) }
}

/// Check everything between a keypress and a typed character, in order.
/// The report passes only when every step does; the stage names the first
/// failure so the UI can point at one actionable thing.
pub fn self_test_report(i: SelfTestInputs) -> (r: (SelfTestReport, SelfTestStage))
    ensures
        r.0.steps@.map_values(|s: SelfTestStep| s@) == spec_self_test_steps(i),
        r.0.passed == (forall|k: int| 0 <= k < 5 ==> #[trigger] spec_self_test_steps(i)[k].passed),
        r.0.probe@ == SELF_TEST_PROBE@,
        r.1 == spec_first_failure(i),
{
    let mut steps: Vec<SelfTestStep> = Vec::new();
    steps.push(
        step(
            "Accessibility permission",
            i.accessibility_trusted,
            if i.accessibility_trusted {
                "Granted"
            } else {
                "Not granted — the keyboard hook cannot install"
            },
        ),
    );
    steps.push(
        step(
            "Keyboard hook",
            i.hook_alive,
            if i.hook_alive {
                "Installed and listening"
            } else {
                "Not installed — triggers will never fire"
            },
        ),
    );
    steps.push(
        step(
            "Secure Input",
            !i.secure_input_active,
            if i.secure_input_active {
                "Engaged right now — triggers are gated off"
            } else {
                "Clear"
            },
        ),
    );
    steps.push(
        step(
            "Keystroke synthesis",
            i.injector_ok,
            if i.injector_ok {
                "Injector ready"
            } else {
                "Could not create an injector — nothing can be typed"
            },
        ),
    );
    let library_ok = i.triggers > 0;
    steps.push(
        step(
            "Prompt library",
            library_ok,
            if library_ok {
                "Triggers indexed"
            } else {
                "No enabled triggers — nothing to match"
            },
        ),
    );
    assert(steps@.map_values(|s: SelfTestStep| s@) =~= spec_self_test_steps(i));
    let passed = i.accessibility_trusted && i.hook_alive && !i.secure_input_active && i.injector_ok
        && library_ok;
    let stage = if !i.accessibility_trusted {
        SelfTestStage::Accessibility
    } else if !i.hook_alive {
        SelfTestStage::Hook
    } else if i.secure_input_active {
        SelfTestStage::SecureInput
    } else if !i.injector_ok {
        SelfTestStage::Injector
    } else if !library_ok {
        SelfTestStage::Library
    } else {
        SelfTestStage::Roundtrip
    };
    proof {
        let v = spec_self_test_steps(i);
        if !passed {
            if !i.accessibility_trusted {
                assert(!v[0].passed);
            } else if !i.hook_alive {
                assert(!v[1].passed);
            } else if i.secure_input_active {
                assert(!v[2].passed);
            } else if !i.injector_ok {
                assert(!v[3].passed);
            } else {
                assert(!v[4].passed);
            }
        }
    }
    (SelfTestReport { passed, steps, probe: crate::text::owned(SELF_TEST_PROBE) }, stage)
}

/// Result of an update check.
#[derive(Debug, Clone)]
pub struct UpdateInfo {
    pub available: bool,
    pub current_version: String,
    /// Set only when an update is available.
    pub version: Option<String>,
    pub notes: Option<String>,
    /// The user has already dismissed this exact version.
    pub dismissed: bool,
}

/// What a check answers: for an available update its version and notes,
/// and whether that version was the one the user dismissed.
pub fn update_info(
    current_version: String,
    found: Option<(String, Option<String>)>,
    dismissed_update: &Option<String>,
) -> (r: UpdateInfo)
    ensures
        r.current_version@ == current_version@,
        r.available == found is Some,
        match found {
            Some((v, notes)) => {
                &&& opt_view(r.version) == Some(v@)
                &&& opt_view(r.notes) == opt_view(notes)
                &&& r.dismissed == (opt_view(*dismissed_update) == Some(v@))
            },
            None => r.version is None && r.notes is None && !r.dismissed,
        },
{
    match found {
        Some((version, notes)) => {
            let dismissed = match dismissed_update {
                Some(d) => *d == version,
                None => false,
            };
            UpdateInfo {
                available: true,
                current_version,
                version: Some(version),
                notes,
                dismissed,
            }
        },
        None => UpdateInfo {
            available: false,
            current_version,
            version: None,
            notes: None,
            dismissed: false,
        },
    }
}

/// Whether showing an "Install update" affordance for `version` is news:
/// once per version, so a long-ignored update is not counted on every poll.
pub fn should_announce(announced_update: &Option<String>, version: &String) -> (r: bool)
    ensures
        r == (opt_view(*announced_update) != Some(version@)),
{
    match announced_update {
        Some(a) => !(*a == *version),
        None => true,
    }
}

/// The update still waiting to be installed after the user dismissed
/// `version`: gone if it was that version, untouched otherwise.
pub fn pending_after_dismiss(pending: Option<String>, version: &String) -> (r: Option<String>)
    ensures
        opt_view(pending) == Some(version@) ==> r is None,
        opt_view(pending) != Some(version@) ==> r == pending,
{
    match pending {
        Some(p) => if p == *version {
            None
        } else {
            Some(p)
        },
        None => None,
    }
}

/// The version string kept inside the reporting payload budget: its first
/// 24 chars.
pub fn truncate_version(v: &str) -> (r: String)
    ensures
        r@ == v@.take(if v@.len() < 24 { v@.len() as int } else { 24 }),
{
    let cs = chars_of(v);
    let n = if cs.len() < 24 {
        cs.len()
    } else {
        24
    };
    let out = crate::text::slice_chars(&cs, 0, n);
    assert(out@ =~= v@.take(n as int));
    string_of(&out)
}

/// Seconds between two "nothing new" reports from the background poll.
pub const NO_UPDATE_REPORT_INTERVAL: u64 = 86_400;

/// What one background update poll found.
#[derive(Debug, Clone)]
pub enum PollResult {
    Available { version: String, notes: Option<String> },
    UpToDate,
    CheckFailed,
    Unavailable,
}

/// What a poll reports.
#[derive(Debug, Clone, Copy, PartialEq, Eq, Structural)]
pub enum UpdateReport {
    Available,
    NothingNew,
    CheckFailed,
    Unavailable,
}

/// What the poll loop does with one result.
#[derive(Debug, Clone, Copy, PartialEq, Eq, Structural)]
pub struct PollActions {
    /// Tell the tray popup and badge the icon.
    pub announce: bool,
    pub report: Option<UpdateReport>,
    /// New value for the last "nothing new" report time, when it changes.
    pub record_no_update_at: Option<u64>,
}

pub open spec fn spec_poll_actions(
    result: PollResult,
    dismissed_update: Option<Seq<char>>,
    now_unix: u64,
    last_no_update_report: u64,
) -> PollActions {
    match result {
        PollResult::Available { version, notes } => PollActions {
            announce: dismissed_update != Some(version@),
            report: Some(UpdateReport::Available),
            record_no_update_at: None,
        },
        PollResult::UpToDate => if now_unix >= last_no_update_report && now_unix
            - last_no_update_report >= NO_UPDATE_REPORT_INTERVAL {
            PollActions {
                announce: false,
                report: Some(UpdateReport::NothingNew),
                record_no_update_at: Some(now_unix),
            }
        } else {
            PollActions { announce: false, report: None, record_no_update_at: None }
        },
        PollResult::CheckFailed => PollActions {
            announce: false,
            report: Some(UpdateReport::CheckFailed),
            record_no_update_at: None,
        },
        PollResult::Unavailable => PollActions {
            announce: false,
            report: Some(UpdateReport::Unavailable),
            record_no_update_at: None,
        },
    }
}

/// Decide what one background poll does. An available update is announced
/// unless the user dismissed that version; "nothing new" is reported at most
/// once a day; failures always report.
pub fn poll_actions(
    result: &PollResult,
    dismissed_update: &Option<String>,
    now_unix: u64,
    last_no_update_report: u64,
) -> (r: PollActions)
    ensures
        r == spec_poll_actions(*result, opt_view(*dismissed_update), now_unix, last_no_update_report),
{
    match result {
        PollResult::Available { version, notes } => {
            let dismissed = match dismissed_update {
                Some(d) => *d == *version,
                None => false,
            };
            PollActions {
                announce: !dismissed,
                report: Some(UpdateReport::Available),
                record_no_update_at: None,
            }
        },
        PollResult::UpToDate => {
            let since = now_unix.saturating_sub(last_no_update_report);
            if since >= NO_UPDATE_REPORT_INTERVAL {
                PollActions {
                    announce: false,
                    report: Some(UpdateReport::NothingNew),
                    record_no_update_at: Some(now_unix),
                }
            } else {
                PollActions { announce: false, report: None, record_no_update_at: None }
            }
        },
        PollResult::CheckFailed => PollActions {
            announce: false,
            report: Some(UpdateReport::CheckFailed),
            record_no_update_at: None,
        },
        PollResult::Unavailable => PollActions {
            announce: false,
            report: Some(UpdateReport::Unavailable),
            record_no_update_at: None,
        },
    }
}

/// After a "nothing new" report at `t1`, no further one comes before a day
/// has passed.
pub proof fn lemma_nothing_new_at_most_daily(t1: u64, t2: u64, dismissed: Option<Seq<char>>)
    requires
        t1 <= t2 < t1 + NO_UPDATE_REPORT_INTERVAL,
    ensures
        spec_poll_actions(PollResult::UpToDate, dismissed, t2, t1).report is None,
{
}

/// Keep-awake state for the UI.
#[derive(Debug, Clone)]
pub struct KeepAwakeState {
    pub enabled: bool,
    /// Auto-off for the active session, in minutes. `0` = indefinite.
    pub duration_mins: u16,
    /// Seconds until auto-off, or `None` when off or indefinite.
    pub remaining_secs: Option<u32>,
    /// The user's default auto-off, applied to the next enable.
    pub default_mins: u16,
    /// Selectable durations.
    pub choices: Vec<u16>,
    /// Whether keep-awake is restored at launch.
    pub restore: bool,
}

/// The keep-awake state at `now_ms`; the remaining time is shown in whole
/// seconds.
pub fn keep_awake_state(
    power: &PowerManager,
    now_ms: u64,
    default_mins: u16,
    choices: Vec<u16>,
    restore: bool,
) -> (r: KeepAwakeState)
    ensures
        r.enabled == power@.enabled,
        r.duration_mins == power@.duration_mins,
        match spec_remaining(power@, now_ms as int) {
            Some(ms) => r.remaining_secs == Some((ms / 1000) as u32),
            None => r.remaining_secs is None,
        },
        r.default_mins == default_mins,
        r.choices@ == choices@,
        r.restore == restore,
{
    let remaining_secs = match power.remaining_at(now_ms) {
        Some(ms) => Some((ms / 1000) as u32),
        None => None,
    };
    KeepAwakeState {
        enabled: power.is_enabled(),
        duration_mins: power.duration_mins(),
        remaining_secs,
        default_mins,
        choices,
        restore,
    }
}

/// Flip keep-awake at `now_ms`. Turning on starts a bounded session of the
/// requested length, or the user's default when none is given. Returns
/// whether it is now on and the default to remember: the length just used
/// when turning on, the old default when turning off.
pub fn toggle_keep_awake_at(
    power: &mut PowerManager,
    requested_mins: Option<u16>,
    default_mins: u16,
    now_ms: u64,
) -> (r: (bool, u16))
    requires
        now_ms <= crate::power::MAX_START_MS,
    ensures
        ({
            let mins = match requested_mins {
                Some(m) => m,
                None => default_mins,
            };
            &&& r.0 == !old(power)@.enabled
            &&& final(power).wf()
            &&& final(power)@ == crate::power::spec_set_for(r.0, mins as nat, now_ms as int)
            &&& r.1 == if r.0 {
                mins
            } else {
                default_mins
            }
        }),
{
    let mins = match requested_mins {
        Some(m) => m,
        None => default_mins,
    };
    let enabled = power.toggle_for_at(mins, now_ms);
    let remembered = if enabled {
        mins
    } else {
        default_mins
    };
    (enabled, remembered)
}

/// Foreground-app identity. All optional: macOS gives bundle id and name,
/// Windows gives executable and window title.
#[derive(Debug, Clone)]
pub struct ForegroundAppInfo {
    pub bundle_id: Option<String>,
    pub name: Option<String>,
    pub executable: Option<String>,
    pub window_title: Option<String>,
}

/// An absolute path in the plain form whose last component every platform
/// reads the same way: it starts with a single `/`, holds no backslash, and its
/// text after the last `/` is non-empty and neither `.` nor `..`.
pub open spec fn plain_absolute_path(p: Seq<char>) -> bool {
    &&& p.len() >= 2
    &&& p[0] == '/'
    &&& p[1] != '/'
    &&& !p.contains('\\')
    &&& crate::fire::basename(p).len() > 0
    &&& crate::fire::basename(p) != seq!['.']
    &&& crate::fire::basename(p) != seq!['.', '.']
}

/// Calls `Path::new(path).file_name()` and keeps it where it is valid UTF-8
/// (always, for text that came from a `&str`). `Path::file_name` returns the
/// final component of the path; for a plain absolute path that is the text
/// after the last `/`. What it gives on other paths follows the platform's
/// path rules (a leading `//` or a backslash reads differently on Windows) and is
/// left unsaid; `foreground_info_from_mac` takes the result as an argument
/// and says what becomes of each value.
#[verifier::external_body]
fn path_file_name(path: &str) -> (r: Option<String>)
    ensures
        plain_absolute_path(path@) ==> opt_view(r) == Some(crate::fire::basename(path@)),
{
    std::path::Path::new(path).file_name().and_then(|s| s.to_str()).map(|s| s.to_string())
}

/// The identity of the frontmost app on macOS: its bundle id and executable
/// path as reported, a name taken from the executable's file name or, when
/// there is none, the bundle id, and no window title.
pub fn foreground_info_from_mac(app: crate::picker::FrontmostApp, file_name: Option<String>) -> (r:
    ForegroundAppInfo)
    ensures
        r.bundle_id == app.bundle_id,
        r.executable == app.executable_path,
        r.window_title is None,
        r.name == match file_name {
            Some(n) => Some(n),
            None => app.bundle_id,
        },
{
    let name = match file_name {
        Some(n) => Some(n),
        None => crate::text::clone_opt(&app.bundle_id),
    };
    ForegroundAppInfo {
        bundle_id: app.bundle_id,
        name,
        executable: app.executable_path,
        window_title: None,
    }
}

/// The macOS foreground identity of `app`, naming it after its executable's
/// file name (through `Path::file_name`) or else its bundle id.
pub fn capture_foreground_mac(app: crate::picker::FrontmostApp) -> (r: ForegroundAppInfo)
    ensures
        r.bundle_id == app.bundle_id,
        r.executable == app.executable_path,
        r.window_title is None,
        app.executable_path is None ==> r.name == app.bundle_id,
        app.bundle_id is Some ==> r.name is Some,
        match app.executable_path {
            Some(p) => plain_absolute_path(p@) ==> opt_view(r.name) == Some(crate::fire::basename(p@)),
            None => true,
        },
{
    let file_name = match &app.executable_path {
        Some(p) => path_file_name(p.as_str()),
        None => None,
    };
    foreground_info_from_mac(app, file_name)
}

/// The text of a UTF-16 buffer, each unpaired surrogate replaced by U+FFFD.
fn lossy_string(units: &[u16]) -> (r: String)
    ensures
        r@.map_values(|c: char| c as u32) == crate::keys::utf16_lossy(units@),
{
    let cs = crate::keys::decode_utf16_lossy(units);
    string_of(&cs)
}

/// Whether `s` holds the lossy decoding of `units`.
pub open spec fn decodes(s: Option<String>, units: Seq<u16>) -> bool {
    s is Some && s->0@.map_values(|c: char| c as u32) == crate::keys::utf16_lossy(units)
}

/// The identity of the foreground window on Windows, from the units of its
/// title (empty when it has none) and of its process's image path (none
/// when the process could not be queried): no bundle id or name.
pub fn foreground_info_from_windows(title: &[u16], executable: Option<Vec<u16>>) -> (r:
    ForegroundAppInfo)
    ensures
        r.bundle_id is None,
        r.name is None,
        title@.len() == 0 ==> r.window_title is None,
        title@.len() > 0 ==> decodes(r.window_title, title@),
        match executable {
            Some(u) => decodes(r.executable, u@),
            None => r.executable is None,
        },
{
    let window_title = if title.len() > 0 {
        Some(lossy_string(title))
    } else {
        None
    };
    let executable = match executable {
        Some(u) => Some(lossy_string(u.as_slice())),
        None => None,
    };
    ForegroundAppInfo { bundle_id: None, name: None, executable, window_title }
}

/// What `url::Url::parse(raw)` gives, as plain values: the scheme, whether
/// `host_str()` is `Some`, and the serialized URL; or the parse error's
/// message.
pub uninterp spec fn url_parse_of(raw: Seq<char>) -> Result<(Seq<char>, bool, Seq<char>), Seq<char>>;

/// A parsed URL, as plain values.
pub struct ParsedUrl {
    pub scheme: String,
    pub has_host: bool,
    pub serialized: String,
}

/// Calls `url::Url::parse`; on success hands back the scheme, whether there
/// is a host and the serialized URL, on failure the error's `Display` text.
#[verifier::external_body]
fn parse_url(raw: &str) -> (r: Result<ParsedUrl, String>)
    ensures
        match r {
            Ok(p) => url_parse_of(raw@) == Ok::<(Seq<char>, bool, Seq<char>), Seq<char>>(
                (p.scheme@, p.has_host, p.serialized@),
            ),
            Err(e) => url_parse_of(raw@) == Err::<(Seq<char>, bool, Seq<char>), Seq<char>>(e@),
        },
{
    match url::Url::parse(raw) {
        Ok(u) => Ok(
            ParsedUrl {
                scheme: u.scheme().to_string(),
                has_host: u.host_str().is_some(),
                serialized: u.as_str().to_string(),
            },
        ),
        Err(e) => Err(e.to_string()),
    }
}

pub open spec fn spec_validate_external_url(parsed: Result<(Seq<char>, bool, Seq<char>), Seq<char>>) -> Result<
    Seq<char>,
    Seq<char>,
> {
    match parsed {
        Err(e) => Err("invalid URL: "@ + e),
        Ok((scheme, has_host, serialized)) => if scheme == "http"@ || scheme == "https"@ {
            if has_host {
                Ok(serialized)
            } else {
                Err("http(s) URL must include a host"@)
            }
        } else {
            Err("unsupported URL scheme: "@ + scheme)
        },
    }
}

/// Accept only an `http`/`https` URL with a host, so opening a link cannot
/// double as a generic shell-execute. `Ok` holds the normalized URL.
pub fn validate_parsed_url(parsed: Result<ParsedUrl, String>) -> (r: Result<String, String>)
    ensures
        match r {
            Ok(u) => spec_validate_external_url(
                match parsed {
                    Ok(p) => Ok((p.scheme@, p.has_host, p.serialized@)),
                    Err(e) => Err(e@),
                },
            ) == Ok::<Seq<char>, Seq<char>>(u@),
            Err(e) => spec_validate_external_url(
                match parsed {
                    Ok(p) => Ok((p.scheme@, p.has_host, p.serialized@)),
                    Err(e) => Err(e@),
                },
            ) == Err::<Seq<char>, Seq<char>>(e@),
        },
{
    match parsed {
        Err(e) => {
            let mut out: Vec<char> = Vec::new();
            push_str(&mut out, "invalid URL: ");
            push_str(&mut out, e.as_str());
            Err(string_of(&out))
        },
        Ok(p) => {
            if crate::text::str_eq(p.scheme.as_str(), "http") || crate::text::str_eq(
                p.scheme.as_str(),
                "https",
            ) {
                if p.has_host {
                    Ok(p.serialized)
                } else {
                    Err(crate::text::owned("http(s) URL must include a host"))
                }
            } else {
                let mut out: Vec<char> = Vec::new();
                push_str(&mut out, "unsupported URL scheme: ");
                push_str(&mut out, p.scheme.as_str());
                Err(string_of(&out))
            }
        },
    }
}

/// Parse and check a URL the frontend asked to open.
pub fn validate_external_url(raw: &str) -> (r: Result<String, String>)
    ensures
        match r {
            Ok(u) => spec_validate_external_url(url_parse_of(raw@)) == Ok::<Seq<char>, Seq<char>>(u@),
            Err(e) => spec_validate_external_url(url_parse_of(raw@)) == Err::<Seq<char>, Seq<char>>(e@),
        },
{
    validate_parsed_url(parse_url(raw))
}


/// What the open-external command hands to the OS: the validated URL, or
/// an invalid-argument error whose message is the refusal prefixed with
/// `open_external: `.
pub fn open_external_target(raw: &str) -> (r: Result<String, AppError>)
    ensures
        match spec_validate_external_url(url_parse_of(raw@)) {
            Ok(u) => r matches Ok(s) && s@ == u,
            Err(e) => r matches Err(AppError::InvalidArg(m)) && m@ == "open_external: "@ + e,
        },
{
    match validate_external_url(raw) {
        Ok(u) => Ok(u),
        Err(e) => {
            let mut msg: Vec<char> = Vec::new();
            push_str(&mut msg, "open_external: ");
            push_str(&mut msg, e.as_str());
            Err(AppError::InvalidArg(string_of(&msg)))
        },
    }
}

/// How the shell's open call went, from the value `ShellExecuteW` returned:
/// anything up to 32 is a failure code, reported with its number.
pub fn shell_execute_outcome(code: i64) -> (r: Result<(), String>)
    ensures
        code > 32 ==> r is Ok,
        code <= 32 ==> (r matches Err(m) && m@ == "ShellExecuteW failed with code "@ + signed_decimal(
            code as int,
        )),
{
    if code > 32 {
        return Ok(());
    }
    let mut msg: Vec<char> = Vec::new();
    push_str(&mut msg, "ShellExecuteW failed with code ");
    if code < 0 {
        msg.push('-');
        let magnitude: u64 = if code == i64::MIN {
            0x8000_0000_0000_0000u64
        } else {
            (-code) as u64
        };
        crate::text::push_decimal(&mut msg, magnitude);
    } else {
        crate::text::push_decimal(&mut msg, code as u64);
    }
    Err(string_of(&msg))
}

/// A signed integer in decimal, with a leading `-` when negative.
pub open spec fn signed_decimal(n: int) -> Seq<char> {
    if n < 0 {
        seq!['-'] + crate::text::decimal((-n) as nat)
    } else {
        crate::text::decimal(n as nat)
    }
}

} // verus!
