//! The decisions of the fire pipeline, from prompt to typed output: which
//! context a body needs, how the body is delivered (typed, fast, pasted or
//! typed and submitted), what kind of app it lands in, and how much of it
//! landed when a playback stops early.

use crate::text::{
    slice_chars,
    chars_of, contains, find_from, first_occurrence_from, lemma_first_occurrence_none,
    lemma_first_occurrence_some, lowercase_of, occurs_at, spec_contains, str_eq, to_lowercase,
};
use vstd::prelude::*;

verus! {

/// Pickup mode used when firing from the picker (modifier-on-Enter).
#[derive(Debug, Clone, Copy, PartialEq, Eq, Structural)]
pub enum PickMode {
    Human,
    Fast,
    Paste,
    /// Type the body, then submit it.
    Run,
}

impl PickMode {
    pub open spec fn spec_parse(s: Seq<char>) -> PickMode {
        if s == "fast"@ {
            PickMode::Fast
        } else if s == "paste"@ {
            PickMode::Paste
        } else if s == "run"@ {
            PickMode::Run
        } else {
            PickMode::Human
        }
    }

    /// `fast`, `paste` or `run`; anything else is the human cadence.
    pub fn parse(s: &str) -> (r: Self)
        ensures
            r == Self::spec_parse(s@),
    {
        if str_eq(s, "fast") {
            PickMode::Fast
        } else if str_eq(s, "paste") {
            PickMode::Paste
        } else if str_eq(s, "run") {
            PickMode::Run
        } else {
            PickMode::Human
        }
    }

    pub fn is_paste(&self) -> (r: bool)
        ensures
            r == (*self == PickMode::Paste),
    {
        match self {
            PickMode::Paste => true,
            _ => false,
        }
    }
}

/// Whether some `${{ … }}` expression block in `rest` mentions `clipboard`.
/// An unterminated block runs to the end of the text.
pub open spec fn blocks_mention_clipboard(rest: Seq<char>) -> bool
    decreases rest.len(),
{
    match first_occurrence_from(rest, "${{"@, 0) {
        None => false,
        Some(open) => {
            if open < 0 || open + 3 > rest.len() {
                false
            } else {
                let after = rest.skip(open + 3);
                let end = match first_occurrence_from(after, "}}"@, 0) {
                    Some(e) => e,
                    None => after.len() as int,
                };
                if 0 <= end <= after.len() && spec_contains(after.take(end), "clipboard"@) {
                    true
                } else if end < 0 || end + 2 > after.len() {
                    false
                } else {
                    blocks_mention_clipboard(after.skip(end + 2))
                }
            }
        },
    }
}

/// Whether a body reads the clipboard: the `$CLIPBOARD` / `${CLIPBOARD}`
/// placeholder, or `clipboard` inside an expression block. Prose that merely
/// mentions the clipboard does not count.
pub open spec fn spec_references_clipboard(body: Seq<char>) -> bool {
    spec_contains(body, "$CLIPBOARD"@) || spec_contains(body, "${CLIPBOARD}"@)
        || blocks_mention_clipboard(body)
}


/// Does this body actually reference the clipboard, as opposed to mentioning
/// the word? Reading the clipboard is a privacy-relevant act.
pub fn references_clipboard(body: &str) -> (r: bool)
    ensures
        r == spec_references_clipboard(body@),
{
    let b = chars_of(body);
    if contains(&b, &chars_of("$CLIPBOARD")) || contains(&b, &chars_of("${CLIPBOARD}")) {
        return true;
    }
    let open_tok = chars_of("${{");
    let close_tok = chars_of("}}");
    let word = chars_of("clipboard");
    proof {
        reveal_strlit("${{");
        reveal_strlit("}}");
    }
    let mut rest = b;
    while rest.len() > 0
        invariant
            open_tok@ == "${{"@,
            close_tok@ == "}}"@,
            word@ == "clipboard"@,
            "${{"@.len() == 3,
            "}}"@.len() == 2,
            blocks_mention_clipboard(rest@) == blocks_mention_clipboard(body@),
            !spec_contains(body@, "$CLIPBOARD"@),
            !spec_contains(body@, "${CLIPBOARD}"@),
        decreases rest@.len(),
    {
        let open = match find_from(&rest, &open_tok, 0) {
            Some(o) => o,
            None => {
                return false;
            },
        };
        proof {
            lemma_first_occurrence_some(rest@, open_tok@, 0);
        }
        let after = slice_chars(&rest, open + 3, rest.len());
        assert(after@ =~= rest@.skip(open + 3));
        let end = match find_from(&after, &close_tok, 0) {
            Some(e) => {
                proof {
                    lemma_first_occurrence_some(after@, close_tok@, 0);
                }
                e
            },
            None => after.len(),
        };
        let inside = slice_chars(&after, 0, end);
        assert(inside@ =~= after@.take(end as int));
        if contains(&inside, &word) {
            return true;
        }
        if end + 2 > after.len() {
            return false;
        }
        let next = slice_chars(&after, end + 2, after.len());
        assert(next@ =~= after@.skip(end + 2));
        rest = next;
    }
    proof {
        assert(first_occurrence_from(rest@, "${{"@, 0) is None);
    }
    false
}

/// What a body needs gathered before it is expanded. Each costs something
/// real (a clipboard read, an accessibility round-trip, a filesystem walk),
/// so an unrelated prompt must not pay for it.
#[derive(Debug, Clone, Copy, PartialEq, Eq, Structural)]
pub struct ContextNeeds {
    pub clipboard: bool,
    pub selection: bool,
    pub repo: bool,
}

pub open spec fn spec_context_needs(body: Seq<char>) -> ContextNeeds {
    ContextNeeds {
        clipboard: spec_references_clipboard(body),
        selection: spec_contains(body, "SELECTION"@) || spec_contains(body, "selection"@),
        repo: spec_contains(body, "GIT_BRANCH"@) || spec_contains(body, "REPO_NAME"@)
            || spec_contains(body, "REPO_ROOT"@) || spec_contains(body, "CWD"@) || spec_contains(
            body,
            "repo."@,
        ),
    }
}

proof fn lemma_token_occurs(a: Seq<char>, tok: Seq<char>, b: Seq<char>)
    ensures
        spec_contains(a + tok + b, tok),
{
    let h = a + tok + b;
    assert(h.subrange(a.len() as int, (a.len() + tok.len()) as int) =~= tok);
}

/// A body that mentions any of `GIT_BRANCH`, `REPO_NAME`, `REPO_ROOT`,
/// `CWD` or `repo.` (a placeholder such as `$CWD`, or an expression such as
/// `repo.name`), wherever it stands, needs the repository context; one that
/// mentions `SELECTION` or `selection` needs the selection.
pub proof fn lemma_mentions_need_context(a: Seq<char>, b: Seq<char>)
    ensures
        spec_context_needs(a + "GIT_BRANCH"@ + b).repo,
        spec_context_needs(a + "REPO_NAME"@ + b).repo,
        spec_context_needs(a + "REPO_ROOT"@ + b).repo,
        spec_context_needs(a + "CWD"@ + b).repo,
        spec_context_needs(a + "repo."@ + b).repo,
        spec_context_needs(a + "SELECTION"@ + b).selection,
        spec_context_needs(a + "selection"@ + b).selection,
{
    lemma_token_occurs(a, "GIT_BRANCH"@, b);
    lemma_token_occurs(a, "REPO_NAME"@, b);
    lemma_token_occurs(a, "REPO_ROOT"@, b);
    lemma_token_occurs(a, "CWD"@, b);
    lemma_token_occurs(a, "repo."@, b);
    lemma_token_occurs(a, "SELECTION"@, b);
    lemma_token_occurs(a, "selection"@, b);
}

/// A body that mentions none of the repository names (no position holds
/// `GIT_BRANCH`, `REPO_NAME`, `REPO_ROOT`, `CWD` or `repo.`) does not pay for
/// resolving the repository.
pub proof fn lemma_no_mention_no_repo(body: Seq<char>)
    requires
        forall|i: int, tok: Seq<char>|
            (tok == "GIT_BRANCH"@ || tok == "REPO_NAME"@ || tok == "REPO_ROOT"@ || tok == "CWD"@ || tok
                == "repo."@) && 0 <= i && i + tok.len() <= body.len() ==> #[trigger] body.subrange(
                i,
                i + tok.len(),
            ) != tok,
    ensures
        !spec_context_needs(body).repo,
{
}

/// The context a body references.
pub fn context_needs(body: &str) -> (r: ContextNeeds)
    ensures
        r == spec_context_needs(body@),
{
    let b = chars_of(body);
    let clipboard = references_clipboard(body);
    let selection = contains(&b, &chars_of("SELECTION")) || contains(&b, &chars_of("selection"));
    let repo = contains(&b, &chars_of("GIT_BRANCH")) || contains(&b, &chars_of("REPO_NAME"))
        || contains(&b, &chars_of("REPO_ROOT")) || contains(&b, &chars_of("CWD")) || contains(
        &b,
        &chars_of("repo."),
    );
    ContextNeeds { clipboard, selection, repo }
}

/// The kind of app a prompt lands in, for reporting.
#[derive(Debug, Clone, Copy, PartialEq, Eq, Structural)]
pub enum TargetAppKind {
    Rdp,
    Browser,
    Native,
    Unknown,
}

/// Lowercased bundle-id substrings, so channel variants hit the same arm.
/// Each is distinctive enough not to collide; a bare `arc` would match
/// `monarch`.
pub open spec fn browser_bundle_list() -> Seq<Seq<char>> {
    seq![
        "safari"@,
        "chrome"@,
        "chromium"@,
        "firefox"@,
        "edgemac"@,
        "brave"@,
        "thebrowser"@,
        "operasoftware"@,
        "vivaldi"@,
        "zen-browser"@,
        "duckduckgo"@,
    ]
}

/// Windows executable names for browsers, lowercased with extension.
pub open spec fn browser_exe_list() -> Seq<Seq<char>> {
    seq![
        "chrome.exe"@,
        "chromium.exe"@,
        "firefox.exe"@,
        "msedge.exe"@,
        "brave.exe"@,
        "opera.exe"@,
        "opera_gx.exe"@,
        "vivaldi.exe"@,
        "arc.exe"@,
        "iexplore.exe"@,
        "zen.exe"@,
    ]
}

/// A browser: some bundle fragment occurs in the bundle id, or the exe name
/// is exactly one of the browser exes.
pub open spec fn spec_is_browser(bundle: Seq<char>, exe: Seq<char>) -> bool {
    (exists|i: int|
        0 <= i < browser_bundle_list().len() && spec_contains(
            bundle,
            #[trigger] browser_bundle_list()[i],
        )) || browser_exe_list().contains(exe)
}

fn literal_list(Ghost(lits): Ghost<Seq<Seq<char>>>, v: Vec<&'static str>) -> (r: Vec<Vec<char>>)
    requires
        v@.map_values(|s: &str| s@) == lits,
    ensures
        r@.map_values(|x: Vec<char>| x@) == lits,
{
    let mut out: Vec<Vec<char>> = Vec::new();
    let mut i: usize = 0;
    while i < v.len()
        invariant
            i <= v@.len(),
            v@.map_values(|s: &str| s@) == lits,
            out@.map_values(|x: Vec<char>| x@) == lits.take(i as int),
        decreases v@.len() - i,
    {
        let ghost prev = out@.map_values(|x: Vec<char>| x@);
        out.push(chars_of(v[i]));
        assert(out@.map_values(|x: Vec<char>| x@) =~= prev.push(v@[i as int]@));
        assert(lits.take(i + 1) =~= lits.take(i as int).push(lits[i as int]));
        i = i + 1;
    }
    assert(lits.take(i as int) =~= lits);
    out
}

fn push_lit(v: &mut Vec<&'static str>, s: &'static str)
    ensures
        final(v)@.map_values(|x: &str| x@) == old(v)@.map_values(|x: &str| x@).push(s@),
{
    v.push(s);
    assert(final(v)@.map_values(|x: &str| x@) =~= old(v)@.map_values(|x: &str| x@).push(s@));
}

fn browser_bundles() -> (r: Vec<Vec<char>>)
    ensures
        r@.map_values(|x: Vec<char>| x@) == browser_bundle_list(),
{
    let mut v: Vec<&'static str> = Vec::new();
    push_lit(&mut v, "safari");
    push_lit(&mut v, "chrome");
    push_lit(&mut v, "chromium");
    push_lit(&mut v, "firefox");
    push_lit(&mut v, "edgemac");
    push_lit(&mut v, "brave");
    push_lit(&mut v, "thebrowser");
    push_lit(&mut v, "operasoftware");
    push_lit(&mut v, "vivaldi");
    push_lit(&mut v, "zen-browser");
    push_lit(&mut v, "duckduckgo");
    assert(v@.map_values(|x: &str| x@) =~= browser_bundle_list());
    literal_list(Ghost(browser_bundle_list()), v)
}

fn browser_exes() -> (r: Vec<Vec<char>>)
    ensures
        r@.map_values(|x: Vec<char>| x@) == browser_exe_list(),
{
    let mut v: Vec<&'static str> = Vec::new();
    push_lit(&mut v, "chrome.exe");
    push_lit(&mut v, "chromium.exe");
    push_lit(&mut v, "firefox.exe");
    push_lit(&mut v, "msedge.exe");
    push_lit(&mut v, "brave.exe");
    push_lit(&mut v, "opera.exe");
    push_lit(&mut v, "opera_gx.exe");
    push_lit(&mut v, "vivaldi.exe");
    push_lit(&mut v, "arc.exe");
    push_lit(&mut v, "iexplore.exe");
    push_lit(&mut v, "zen.exe");
    assert(v@.map_values(|x: &str| x@) =~= browser_exe_list());
    literal_list(Ghost(browser_exe_list()), v)
}

fn seq_eq(a: &Vec<char>, b: &Vec<char>) -> (r: bool)
    ensures
        r == (a@ == b@),
{
    if a.len() != b.len() {
        return false;
    }
    let mut i: usize = 0;
    while i < a.len()
        invariant
            a@.len() == b@.len(),
            i <= a@.len(),
            forall|k: int| 0 <= k < i ==> a@[k] == b@[k],
        decreases a@.len() - i,
    {
        if a[i] != b[i] {
            return false;
        }
        i = i + 1;
    }
    assert(a@ =~= b@);
    true
}

/// Whether the lowercased bundle id and exe name identify a browser.
pub fn is_browser(bundle: &Vec<char>, exe: &Vec<char>) -> (r: bool)
    ensures
        r == spec_is_browser(bundle@, exe@),
{
    let bundles = browser_bundles();
    let ghost bl = bundles@.map_values(|x: Vec<char>| x@);
    let mut i: usize = 0;
    while i < bundles.len()
        invariant
            i <= bundles@.len(),
            bl == bundles@.map_values(|x: Vec<char>| x@),
            bl == browser_bundle_list(),
            forall|k: int| 0 <= k < i ==> !spec_contains(bundle@, #[trigger] bl[k]),
        decreases bundles@.len() - i,
    {
        if contains(bundle, &bundles[i]) {
            assert(spec_contains(bundle@, bl[i as int]));
            return true;
        }
        i = i + 1;
    }
    let exes = browser_exes();
    let ghost el = exes@.map_values(|x: Vec<char>| x@);
    let mut j: usize = 0;
    while j < exes.len()
        invariant
            j <= exes@.len(),
            el == exes@.map_values(|x: Vec<char>| x@),
            el == browser_exe_list(),
            forall|k: int| 0 <= k < i ==> !spec_contains(bundle@, #[trigger] bl[k]),
            i == bl.len(),
            bl == browser_bundle_list(),
            forall|k: int| 0 <= k < j ==> el[k] != exe@,
        decreases exes@.len() - j,
    {
        if seq_eq(&exes[j], exe) {
            assert(el[j as int] == exe@);
            return true;
        }
        j = j + 1;
    }
    false
}

/// The last `/`- or `\`-separated segment of a path.
pub open spec fn basename(s: Seq<char>) -> Seq<char>
    decreases s.len(),
{
    if s.len() == 0 {
        s
    } else if s.last() == '/' || s.last() == '\\' {
        Seq::empty()
    } else {
        basename(s.drop_last()).push(s.last())
    }
}

fn basename_of(s: &Vec<char>) -> (r: Vec<char>)
    ensures
        r@ == basename(s@),
{
    let mut start: usize = s.len();
    assert(s@.take(start as int) =~= s@);
    assert(basename(s@) =~= basename(s@.take(start as int)) + s@.skip(start as int));
    while start > 0 && s[start - 1] != '/' && s[start - 1] != '\\'
        invariant
            start <= s@.len(),
            basename(s@) == basename(s@.take(start as int)) + s@.skip(start as int),
        decreases start,
    {
        assert(s@.take(start as int).drop_last() =~= s@.take(start - 1));
        assert(s@.skip(start - 1) =~= seq![s@[start - 1]] + s@.skip(start as int));
        start = start - 1;
    }
    if start > 0 {
        assert(s@.take(start as int).last() == s@[start - 1]);
    }
    assert(basename(s@.take(start as int)) =~= Seq::<char>::empty());
    let out = slice_chars(s, start, s.len());
    assert(out@ =~= s@.skip(start as int));
    out
}

/// The kind of app, from its lowercased bundle id and lowercased exe file
/// name (each empty when unknown).
pub open spec fn spec_classify_lowered(bundle: Seq<char>, exe: Seq<char>) -> TargetAppKind {
    if spec_is_browser(bundle, exe) {
        TargetAppKind::Browser
    } else if bundle.len() > 0 || exe.len() > 0 {
        TargetAppKind::Native
    } else {
        TargetAppKind::Unknown
    }
}

pub open spec fn spec_classify_target_app(
    bundle_id: Option<Seq<char>>,
    executable: Option<Seq<char>>,
    rdp_host_side: bool,
) -> TargetAppKind {
    if rdp_host_side {
        TargetAppKind::Rdp
    } else {
        let bundle = match bundle_id {
            Some(b) => lowercase_of(b),
            None => Seq::empty(),
        };
        let exe = match executable {
            Some(e) => lowercase_of(basename(e)),
            None => Seq::empty(),
        };
        spec_classify_lowered(bundle, exe)
    }
}

/// Classify an app from its lowercased bundle id and lowercased exe file
/// name: a known browser, else native when anything identifies it, else
/// unknown.
pub fn classify_lowered(bundle: &Vec<char>, exe: &Vec<char>) -> (r: TargetAppKind)
    ensures
        r == spec_classify_lowered(bundle@, exe@),
{
    if is_browser(bundle, exe) {
        return TargetAppKind::Browser;
    }
    if bundle.len() > 0 || exe.len() > 0 {
        return TargetAppKind::Native;
    }
    TargetAppKind::Unknown
}

/// Classify the app a fire lands in. Host-side RDP wins over everything;
/// bundle ids and exe names compare lowercased.
pub fn classify_target_app(
    bundle_id: Option<&str>,
    executable: Option<&str>,
    rdp_host_side: bool,
) -> (r: TargetAppKind)
    ensures
        r == spec_classify_target_app(
            crate::accessibility::opt_view(bundle_id),
            crate::accessibility::opt_view(executable),
            rdp_host_side,
        ),
{
    if rdp_host_side {
        return TargetAppKind::Rdp;
    }
    let bundle: Vec<char> = match bundle_id {
        Some(b) => chars_of(to_lowercase(b).as_str()),
        None => Vec::new(),
    };
    let exe: Vec<char> = match executable {
        Some(e) => {
            let base = crate::text::string_of(&basename_of(&chars_of(e)));
            chars_of(to_lowercase(base.as_str()).as_str())
        },
        None => Vec::new(),
    };
    classify_lowered(&bundle, &exe)
}

/// How one fire is delivered.
#[derive(Debug, Clone, Copy, PartialEq, Eq, Structural)]
pub struct DeliveryPlan {
    /// One clipboard paste instead of typing.
    pub paste: bool,
    /// The "I'm thinking" beat before the first keystroke: only after a
    /// suppressed commit char, never for a picker selection.
    pub include_pre_typing_pause: bool,
    /// The picker's fast mode: typed, but now.
    pub fast: bool,
    /// Type at human cadence, then submit with a final Enter.
    pub submit: bool,
}

pub open spec fn spec_plan_delivery(
    pick_mode: Option<PickMode>,
    from_trigger: bool,
    rdp_host_side: bool,
    step_count: nat,
) -> DeliveryPlan {
    DeliveryPlan {
        paste: pick_mode == Some(PickMode::Paste) && !rdp_host_side && step_count <= 1,
        include_pre_typing_pause: from_trigger && pick_mode is None,
        fast: pick_mode == Some(PickMode::Fast),
        submit: pick_mode == Some(PickMode::Run),
    }
}

/// Decide the delivery of one fire. Paste is demoted to typing under
/// host-side RDP (clipboard sync is unreliable there) and for a multi-step
/// prompt (one clipboard blob cannot carry waits between messages).
pub fn plan_delivery(
    pick_mode: Option<PickMode>,
    from_trigger: bool,
    rdp_host_side: bool,
    step_count: usize,
) -> (r: DeliveryPlan)
    ensures
        r == spec_plan_delivery(pick_mode, from_trigger, rdp_host_side, step_count as nat),
        r.paste ==> !rdp_host_side && step_count <= 1,
{
    let mut plan = DeliveryPlan {
        paste: false,
        include_pre_typing_pause: from_trigger,
        fast: false,
        submit: false,
    };
    match pick_mode {
        Some(mode) => {
            plan.include_pre_typing_pause = false;
            match mode {
                PickMode::Fast => {
                    plan.fast = true;
                },
                PickMode::Paste => {
                    plan.paste = true;
                },
                PickMode::Run => {
                    plan.submit = true;
                },
                PickMode::Human => {},
            }
        },
        None => {},
    }
    if plan.paste && rdp_host_side {
        plan.paste = false;
    }
    if plan.paste && step_count > 1 {
        plan.paste = false;
    }
    plan
}

/// Share of the body that landed before a playback stopped, in percent,
/// capped at 100; an empty body counts as 0.
pub fn completed_pct(completed_chars: usize, body_chars: usize) -> (r: u8)
    requires
        completed_chars * 100 <= usize::MAX,
    ensures
        r == if body_chars == 0 {
            0
        } else if completed_chars * 100 / (body_chars as int) > 100 {
            100
        } else {
            completed_chars * 100 / (body_chars as int)
        },
{
    if body_chars == 0 {
        return 0;
    }
    let pct = completed_chars * 100 / body_chars;
    if pct > 100 {
        100
    } else {
        pct as u8
    }
}

/// Whether a completed trigger-path fire offers backspace-undo. A
/// multi-step sequence submitted its earlier steps and a final Enter
/// submitted the body: backspacing would hit whatever has focus now, so
/// neither is undoable.
pub fn offers_undo(from_trigger: bool, multi_step: bool, send_final_enter: bool) -> (r: bool)
    ensures
        r == (from_trigger && !multi_step && !send_final_enter),
{
    from_trigger && !multi_step && !send_final_enter
}


/// Pause between the backspaces of an undo.
pub const UNDO_KEY_INTERVAL_MS: u64 = 15;

/// The next thing an undo run does.
#[derive(Debug, Clone, Copy, PartialEq, Eq, Structural)]
pub enum UndoAction {
    /// Press Backspace, then wait the key interval.
    Backspace,
    /// The playback was cancelled: release held modifiers and stop.
    Abort,
    /// Every char is erased: re-observe the trigger, which is still on
    /// screen, so it can fire again at once.
    Reobserve,
}

/// One step of an undo run with `remaining` chars still to erase, given
/// whether the playback was cancelled: the chars left after it and what to
/// do.
pub fn undo_step(remaining: usize, cancelled: bool) -> (r: (usize, UndoAction))
    ensures
        r == if remaining == 0 {
            (0usize, UndoAction::Reobserve)
        } else if cancelled {
            (remaining, UndoAction::Abort)
        } else {
            ((remaining - 1) as usize, UndoAction::Backspace)
        },
{
    if remaining == 0 {
        (0, UndoAction::Reobserve)
    } else if cancelled {
        (remaining, UndoAction::Abort)
    } else {
        (remaining - 1, UndoAction::Backspace)
    }
}

/// Drive undo steps from `remaining` with the cancel flag read before each:
/// how many backspaces were pressed and how the run ended.
pub open spec fn undo_run(remaining: nat, cancels: Seq<bool>) -> (nat, UndoAction)
    decreases remaining,
{
    if remaining == 0 {
        (0, UndoAction::Reobserve)
    } else if cancels.len() == 0 || cancels[0] {
        (0, UndoAction::Abort)
    } else {
        let rest = undo_run((remaining - 1) as nat, cancels.skip(1));
        (rest.0 + 1, rest.1)
    }
}

/// An undo that is never cancelled erases exactly the chars the fire typed,
/// one backspace each, and then re-observes the trigger; a cancelled one
/// never presses more than that.
pub proof fn lemma_undo_erases_exactly_the_body(remaining: nat, cancels: Seq<bool>)
    ensures
        (cancels.len() >= remaining && forall|i: int| 0 <= i < remaining ==> !#[trigger] cancels[i])
            ==> undo_run(remaining, cancels) == (remaining, UndoAction::Reobserve),
        undo_run(remaining, cancels).0 <= remaining,
    decreases remaining,
{
    if remaining > 0 && cancels.len() > 0 && !cancels[0] {
        lemma_undo_erases_exactly_the_body((remaining - 1) as nat, cancels.skip(1));
        if cancels.len() >= remaining && forall|i: int| 0 <= i < remaining ==> !#[trigger] cancels[i] {
            assert forall|i: int| 0 <= i < remaining - 1 implies !#[trigger] cancels.skip(1)[i] by {
                assert(cancels.skip(1)[i] == cancels[i + 1]);
            }
        }
    }
}


/// The positions, in match order, of the prompts a trigger match can fire:
/// each matched id that names a prompt (its first) that is enabled.
pub open spec fn spec_trigger_candidates(ids: Seq<Seq<char>>, prompts: Seq<crate::prompt::Prompt>) -> Seq<
    int,
>
    decreases ids.len(),
{
    if ids.len() == 0 {
        Seq::empty()
    } else {
        let rest = spec_trigger_candidates(ids.drop_last(), prompts);
        match crate::commands::find_prompt(prompts, ids.last()) {
            Some(k) => if prompts[k].enabled {
                rest.push(k)
            } else {
                rest
            },
            None => rest,
        }
    }
}

/// Which prompts a trigger match may fire, as positions in `prompts`: the
/// matched ids' prompts, in match order, dropping ids that no longer name a
/// prompt and prompts that are disabled.
pub fn trigger_candidates(candidate_ids: &[String], prompts: &[crate::prompt::Prompt]) -> (r: Vec<usize>)
    ensures
        r@.map_values(|k: usize| k as int) == spec_trigger_candidates(
            candidate_ids@.map_values(|s: String| s@),
            prompts@,
        ),
{
    let ghost ids = candidate_ids@.map_values(|s: String| s@);
    let mut out: Vec<usize> = Vec::new();
    let mut i: usize = 0;
    while i < candidate_ids.len()
        invariant
            i <= candidate_ids@.len(),
            ids == candidate_ids@.map_values(|s: String| s@),
            out@.map_values(|k: usize| k as int) == spec_trigger_candidates(ids.take(i as int), prompts@),
        decreases candidate_ids@.len() - i,
    {
        assert(ids.take(i + 1).drop_last() =~= ids.take(i as int));
        assert(ids.take(i + 1).last() == candidate_ids@[i as int]@);
        let ghost before = out@.map_values(|k: usize| k as int);
        match crate::commands::find_index(prompts, &candidate_ids[i]) {
            Some(k) => {
                if prompts[k].enabled {
                    out.push(k);
                    assert(out@.map_values(|k: usize| k as int) =~= before.push(k as int));
                }
            },
            None => {},
        }
        i = i + 1;
    }
    assert(ids.take(i as int) =~= ids);
    out
}

/// The prompt a picker, tray or hotkey fire runs, as a position: the first
/// prompt with `id`, only when it is enabled. An unknown or disabled prompt
/// fires nothing.
pub fn selectable_prompt(prompts: &[crate::prompt::Prompt], id: &String) -> (r: Option<usize>)
    ensures
        match crate::commands::find_prompt(prompts@, id@) {
            Some(k) => if prompts@[k].enabled {
                r == Some(k as usize)
            } else {
                r is None
            },
            None => r is None,
        },
{
    match crate::commands::find_index(prompts, id) {
        Some(k) => if prompts[k].enabled {
            Some(k)
        } else {
            None
        },
        None => None,
    }
}

/// When a matched trigger does not fire after all (no scope fits, or the
/// focused field cannot take text), the commit char the hook swallowed is
/// typed back, and these chars are re-observed so the matcher's shadow of
/// the screen is right again: the typed trigger, then the commit char.
pub fn chars_to_reobserve(typed_form: &str, commit: char) -> (r: Vec<char>)
    ensures
        r@ == typed_form@.push(commit),
{
    let mut out = chars_of(typed_form);
    out.push(commit);
    out
}


/// What the focused-field guard decides before a fire types anything.
#[derive(Debug, Clone, Copy, PartialEq, Eq, Structural)]
pub enum FieldGuard {
    /// Type.
    Proceed,
    /// Refuse: nothing is typed. On the trigger path the commit char the
    /// hook swallowed is typed back and the trigger re-observed
    /// (`chars_to_reobserve`), so the screen and the matcher agree again.
    Refuse { restore_commit: bool },
}

/// The guard that keeps a prompt out of password boxes and surfaces that
/// take no text: with the guard on, a field that does not allow typing (a
/// secure or non-editable one; an unknown one proceeds) refuses the fire.
pub fn field_guard(guard_on: bool, kind: crate::accessibility::FieldKind, from_trigger: bool) -> (r:
    FieldGuard)
    ensures
        r == if guard_on && !kind.spec_allows_typing() {
            FieldGuard::Refuse { restore_commit: from_trigger }
        } else {
            FieldGuard::Proceed
        },
{
    if guard_on && !kind.allows_typing() {
        FieldGuard::Refuse { restore_commit: from_trigger }
    } else {
        FieldGuard::Proceed
    }
}

/// What a finished fire records.
#[derive(Debug, Clone, Copy, PartialEq, Eq, Structural)]
pub struct CompletionRecord {
    /// Count a use toward the picker's recents: only a completed fire is a
    /// use, a cancelled one is not.
    pub record_usage: bool,
    /// Offer backspace-undo for the typed body.
    pub record_undo: bool,
}

/// What a fire records when its playback ends: usage exactly when it
/// completed; undo exactly when it completed and is undoable (a trigger-path
/// fire that submitted nothing, see `offers_undo`).
pub fn completion_record(completed: bool, from_trigger: bool, multi_step: bool, send_final_enter: bool)
    -> (r: CompletionRecord)
    ensures
        r.record_usage == completed,
        r.record_undo == (completed && from_trigger && !multi_step && !send_final_enter),
{
    let undo = offers_undo(from_trigger, multi_step, send_final_enter);
    CompletionRecord { record_usage: completed, record_undo: completed && undo }
}

} // verus!
