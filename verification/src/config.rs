//! Library-level configuration (`promptplayer.yaml`).
//!
//! Everything here has a working default, so a missing or partially-broken
//! config file is never fatal. Reading and writing the file is the caller's
//! business; this module holds the model and the rules derived from it.

use crate::hotkey::{trim, trim_chars};
use crate::text::{chars_of, clone_opt, is_ascii_alnum, spec_is_ascii_alnum, string_of};
use vstd::prelude::*;

verus! {

/// How an embedded `\n` in a prompt body is delivered.
#[derive(Debug, Clone, Copy, PartialEq, Eq, Structural)]
pub enum NewlineMode {
    /// Shift+Enter — chat apps. Default.
    ShiftEnter,
    /// `\` then Enter — terminal agent prompts.
    BackslashEnter,
    /// A bare Enter. Only safe where Enter does not submit.
    Plain,
}

impl Default for NewlineMode {
    fn default() -> (r: Self)
        ensures
            r == NewlineMode::ShiftEnter,
    {
        NewlineMode::ShiftEnter
    }
}

/// Which display the picker opens on.
#[derive(Debug, Clone, Copy, PartialEq, Eq, Structural)]
pub enum PickerDisplay {
    /// Cursor's screen when mirrored, built-in screen when extended.
    Auto,
    /// Always the built-in / primary display.
    Builtin,
    /// Always the screen containing the cursor.
    Cursor,
}

impl Default for PickerDisplay {
    fn default() -> (r: Self)
        ensures
            r == PickerDisplay::Auto,
    {
        PickerDisplay::Auto
    }
}

/// One remote prompt source (a public GitHub repo).
#[derive(Debug, Clone)]
pub struct SourceSpec {
    /// `owner/repo`.
    pub repo: String,
    /// Branch, tag, or commit. `None` = the repo's default branch.
    pub git_ref: Option<String>,
    /// Only load `.pp.md` under this subdirectory of the repo.
    pub subdir: Option<String>,
    /// Skip this source without deleting the entry.
    pub enabled: bool,
}

/// A repo char kept as is in a source id; anything else becomes `-`.
pub open spec fn repo_char_kept(c: char) -> bool {
    spec_is_ascii_alnum(c) || c == '-' || c == '_'
}

/// A ref char kept as is in a source id; refs may also keep `.`.
pub open spec fn ref_char_kept(c: char) -> bool {
    repo_char_kept(c) || c == '.'
}

pub open spec fn fold_chars(s: Seq<char>, keep_dot: bool) -> Seq<char> {
    Seq::new(
        s.len(),
        |i: int|
            if repo_char_kept(s[i]) || (keep_dot && s[i] == '.') {
                s[i]
            } else {
                '-'
            },
    )
}

/// The id of a source: the repo with unsafe chars folded to `-`, then, when a
/// ref is set, `@` and the folded ref.
pub open spec fn spec_source_id(repo: Seq<char>, git_ref: Option<Seq<char>>) -> Seq<char> {
    match git_ref {
        Some(r) => fold_chars(repo, false).push('@') + fold_chars(r, true),
        None => fold_chars(repo, false),
    }
}

fn fold_into(out: &mut Vec<char>, s: &str, keep_dot: bool)
    ensures
        final(out)@ == old(out)@ + fold_chars(s@, keep_dot),
{
    let cs = chars_of(s);
    let ghost start = out@;
    let mut i: usize = 0;
    while i < cs.len()
        invariant
            i <= cs@.len(),
            cs@ == s@,
            out@ == start + fold_chars(s@, keep_dot).take(i as int),
        decreases cs@.len() - i,
    {
        let c = cs[i];
        let kept = is_ascii_alnum(c) || c == '-' || c == '_' || (keep_dot && c == '.');
        out.push(if kept { c } else { '-' });
        i = i + 1;
        assert(out@ =~= start + fold_chars(s@, keep_dot).take(i as int));
    }
    assert(fold_chars(s@, keep_dot).take(i as int) =~= fold_chars(s@, keep_dot));
}

impl SourceSpec {
    /// Stable identifier used for the on-disk cache directory. Slashes and
    /// refs are folded into a flat safe name: every char of the result is an
    /// ASCII letter or digit, `-`, `_`, `.` or `@`.
    pub fn id(&self) -> (r: String)
        ensures
            r@ == spec_source_id(
                self.repo@,
                match self.git_ref {
                    Some(g) => Some(g@),
                    None => None,
                },
            ),
            forall|i: int|
                0 <= i < r@.len() ==> ref_char_kept(#[trigger] r@[i]) || r@[i] == '@',
    {
        let mut out: Vec<char> = Vec::new();
        fold_into(&mut out, self.repo.as_str(), false);
        match &self.git_ref {
            Some(g) => {
                out.push('@');
                fold_into(&mut out, g.as_str(), true);
            },
            None => {},
        }
        string_of(&out)
    }
}

/// The parsed `promptplayer.yaml`. Every field is optional in the file.
#[derive(Debug, Clone)]
pub struct AppConfig {
    /// Global commit char. A prompt's own `commit-char:` still wins.
    pub commit_char_default: String,
    pub hotkey_arm: Option<String>,
    pub hotkey_picker: Option<String>,
    pub hotkey_kill: Option<String>,
    pub hotkey_panic: Option<String>,
    /// Fire the next setlist cue.
    pub hotkey_next_cue: Option<String>,
    /// Pause / resume the running playback.
    pub hotkey_pause: Option<String>,
    /// Speed the running playback up / slow it down.
    pub hotkey_faster: Option<String>,
    pub hotkey_slower: Option<String>,
    /// Disarm automatically after this many minutes of being armed. 0 = never.
    pub auto_disarm_minutes: u32,
    /// How embedded newlines are typed. Per-prompt `newline-mode:` overrides.
    pub newline_mode: NewlineMode,
    /// Refuse to type when the focused element is a password field or not
    /// editable at all.
    pub text_field_guard: bool,
    /// Allow git expressions in prompt bodies. Off by default.
    pub allow_git_expressions: bool,
    /// Which screen the picker opens on.
    pub picker_display: PickerDisplay,
    /// Extra RDP client identifiers, merged with the built-in list.
    pub rdp_clients: Vec<String>,
    /// Ordered prompt ids fired by the "next cue" hotkey.
    pub setlist: Vec<String>,
    /// Remote prompt sources.
    pub sources: Vec<SourceSpec>,
    /// Namespaced ids of remote prompts the user has reviewed and enabled.
    pub enabled_remote: Vec<String>,
    /// Directories scanned for repo context.
    pub repo_hints: Vec<String>,
}

impl AppConfig {
    /// What a config file that sets nothing yields.
    pub open spec fn is_default(self) -> bool {
        &&& self.commit_char_default@ == seq!['>']
        &&& self.hotkey_arm is None
        &&& self.hotkey_picker is None
        &&& self.hotkey_kill is None
        &&& self.hotkey_panic is None
        &&& self.hotkey_next_cue is None
        &&& self.hotkey_pause is None
        &&& self.hotkey_faster is None
        &&& self.hotkey_slower is None
        &&& self.auto_disarm_minutes == 0
        &&& self.newline_mode == NewlineMode::ShiftEnter
        &&& self.text_field_guard
        &&& !self.allow_git_expressions
        &&& self.picker_display == PickerDisplay::Auto
        &&& self.rdp_clients@.len() == 0
        &&& self.setlist@.len() == 0
        &&& self.sources@.len() == 0
        &&& self.enabled_remote@.len() == 0
        &&& self.repo_hints@.len() == 0
    }

    pub open spec fn spec_commit_char(self) -> char {
        if self.commit_char_default@.len() > 0 {
            self.commit_char_default@[0]
        } else {
            '>'
        }
    }

    /// First char of `commit-char-default`, or `>` when the string is empty.
    pub fn commit_char(&self) -> (r: char)
        ensures
            r == self.spec_commit_char(),
    {
        let cs = chars_of(self.commit_char_default.as_str());
        if cs.len() > 0 {
            cs[0]
        } else {
            '>'
        }
    }

    /// Auto-disarm duration in seconds, or `None` when disabled.
    pub fn auto_disarm(&self) -> (r: Option<u64>)
        ensures
            r == (if self.auto_disarm_minutes > 0 {
                Some((self.auto_disarm_minutes * 60) as u64)
            } else {
                None::<u64>
            }),
    {
        if self.auto_disarm_minutes > 0 {
            Some(self.auto_disarm_minutes as u64 * 60)
        } else {
            None
        }
    }
}

/// What a source's `enabled` field holds when the file leaves it out.
pub fn default_true() -> (r: bool)
    ensures
        r,
{
    true
}

/// What `commit-char-default` holds when the file leaves it out: `>`.
pub fn default_commit_char() -> (r: String)
    ensures
        r@ == seq!['>'],
{
    let mut commit = String::new();
    commit.push('>');
    commit
}

impl Default for AppConfig {
    fn default() -> (r: Self)
        ensures
            r.is_default(),
    {
        let commit = default_commit_char();
        AppConfig {
            commit_char_default: commit,
            hotkey_arm: None,
            hotkey_picker: None,
            hotkey_kill: None,
            hotkey_panic: None,
            hotkey_next_cue: None,
            hotkey_pause: None,
            hotkey_faster: None,
            hotkey_slower: None,
            auto_disarm_minutes: 0,
            newline_mode: NewlineMode::ShiftEnter,
            text_field_guard: true,
            allow_git_expressions: false,
            picker_display: PickerDisplay::Auto,
            rdp_clients: Vec::new(),
            setlist: Vec::new(),
            sources: Vec::new(),
            enabled_remote: Vec::new(),
            repo_hints: Vec::new(),
        }
    }
}

impl SourceSpec {
    /// An equal copy.
    pub fn duplicate(&self) -> (r: SourceSpec)
        ensures
            r == *self,
    {
        SourceSpec {
            repo: self.repo.clone(),
            git_ref: clone_opt(&self.git_ref),
            subdir: clone_opt(&self.subdir),
            enabled: self.enabled,
        }
    }

    pub open spec fn spec_id(self) -> Seq<char> {
        spec_source_id(
            self.repo@,
            match self.git_ref {
                Some(g) => Some(g@),
                None => None,
            },
        )
    }
}

/// An optional setting that is blank after trimming counts as unset.
pub open spec fn non_blank(o: Option<Seq<char>>) -> Option<Seq<char>> {
    match o {
        Some(v) => if trim(v).len() > 0 {
            Some(v)
        } else {
            None
        },
        None => None,
    }
}

fn keep_non_blank(o: Option<String>) -> (r: Option<String>)
    ensures
        match r {
            Some(v) => non_blank(crate::commands::opt_view(o)) == Some(v@),
            None => non_blank(crate::commands::opt_view(o)) is None,
        },
{
    match o {
        Some(v) => {
            if trim_chars(&chars_of(v.as_str())).len() > 0 {
                Some(v)
            } else {
                None
            }
        },
        None => None,
    }
}

/// A new, enabled source for `owner/name`; a blank ref or subdirectory is
/// left unset.
pub fn new_source_spec(owner: &str, name: &str, git_ref: Option<String>, subdir: Option<String>) -> (r:
    SourceSpec)
    ensures
        r.repo@ == owner@.push('/') + name@,
        crate::commands::opt_view(r.git_ref) == non_blank(crate::commands::opt_view(git_ref)),
        crate::commands::opt_view(r.subdir) == non_blank(crate::commands::opt_view(subdir)),
        r.enabled,
{
    let mut repo: Vec<char> = Vec::new();
    crate::text::push_str(&mut repo, owner);
    repo.push('/');
    crate::text::push_str(&mut repo, name);
    SourceSpec {
        repo: string_of(&repo),
        git_ref: keep_non_blank(git_ref),
        subdir: keep_non_blank(subdir),
        enabled: true,
    }
}

/// Whether some source already has the id `id`.
pub fn has_source_id(sources: &[SourceSpec], id: &str) -> (r: bool)
    ensures
        r == exists|i: int| 0 <= i < sources@.len() && #[trigger] sources@[i].spec_id() == id@,
{
    let mut i: usize = 0;
    while i < sources.len()
        invariant
            i <= sources@.len(),
            forall|j: int| 0 <= j < i ==> #[trigger] sources@[j].spec_id() != id@,
        decreases sources@.len() - i,
    {
        let sid = sources[i].id();
        if crate::text::str_eq(sid.as_str(), id) {
            assert(sources@[i as int].spec_id() == id@);
            return true;
        }
        i = i + 1;
    }
    false
}

/// The sources whose id is not `id`, in order.
pub open spec fn sources_without(s: Seq<SourceSpec>, id: Seq<char>) -> Seq<SourceSpec>
    decreases s.len(),
{
    if s.len() == 0 {
        s
    } else {
        let prev = sources_without(s.drop_last(), id);
        if s.last().spec_id() == id {
            prev
        } else {
            prev.push(s.last())
        }
    }
}

/// The entries of `list` that do not start with `prefix`, in order.
pub open spec fn without_prefix(list: Seq<Seq<char>>, prefix: Seq<char>) -> Seq<Seq<char>>
    decreases list.len(),
{
    if list.len() == 0 {
        list
    } else {
        let prev = without_prefix(list.drop_last(), prefix);
        if prefix.is_prefix_of(list.last()) {
            prev
        } else {
            prev.push(list.last())
        }
    }
}

fn starts_with(s: &str, prefix: &Vec<char>) -> (r: bool)
    ensures
        r == prefix@.is_prefix_of(s@),
{
    let cs = chars_of(s);
    if prefix.len() > cs.len() {
        return false;
    }
    let mut i: usize = 0;
    while i < prefix.len()
        invariant
            i <= prefix@.len() <= cs@.len(),
            cs@ == s@,
            forall|k: int| 0 <= k < i ==> prefix@[k] == cs@[k],
        decreases prefix@.len() - i,
    {
        if prefix[i] != cs[i] {
            return false;
        }
        i = i + 1;
    }
    assert(cs@.subrange(0, prefix@.len() as int) =~= prefix@);
    true
}

/// Forget source `source_id`: its entry goes, and so does every enabled
/// remote prompt under it (`source_id/…`), so re-adding the repo later
/// starts from "off until reviewed" again.
pub fn remove_source(cfg: &mut AppConfig, source_id: &str)
    ensures
        final(cfg).sources@ == sources_without(old(cfg).sources@, source_id@),
        final(cfg).enabled_remote@.map_values(|s: String| s@) == without_prefix(
            old(cfg).enabled_remote@.map_values(|s: String| s@),
            source_id@.push('/'),
        ),
        final(cfg).setlist@ == old(cfg).setlist@,
        final(cfg).hotkey_arm == old(cfg).hotkey_arm,
        final(cfg).commit_char_default == old(cfg).commit_char_default,
{
    let mut kept: Vec<SourceSpec> = Vec::new();
    let mut i: usize = 0;
    while i < cfg.sources.len()
        invariant
            i <= cfg.sources@.len(),
            cfg.sources@ == old(cfg).sources@,
            kept@ == sources_without(cfg.sources@.take(i as int), source_id@),
        decreases cfg.sources@.len() - i,
    {
        assert(cfg.sources@.take(i + 1).drop_last() =~= cfg.sources@.take(i as int));
        assert(cfg.sources@.take(i + 1).last() == cfg.sources@[i as int]);
        let sid = cfg.sources[i].id();
        if !crate::text::str_eq(sid.as_str(), source_id) {
            kept.push(cfg.sources[i].duplicate());
        }
        i = i + 1;
    }
    assert(cfg.sources@.take(i as int) =~= cfg.sources@);
    let mut prefix = chars_of(source_id);
    prefix.push('/');
    let ghost rv = cfg.enabled_remote@.map_values(|s: String| s@);
    let mut remote: Vec<String> = Vec::new();
    let mut j: usize = 0;
    while j < cfg.enabled_remote.len()
        invariant
            j <= cfg.enabled_remote@.len(),
            cfg.enabled_remote@ == old(cfg).enabled_remote@,
            rv == cfg.enabled_remote@.map_values(|s: String| s@),
            prefix@ == source_id@.push('/'),
            remote@.map_values(|s: String| s@) == without_prefix(rv.take(j as int), prefix@),
        decreases cfg.enabled_remote@.len() - j,
    {
        assert(rv.take(j + 1).drop_last() =~= rv.take(j as int));
        assert(rv.take(j + 1).last() == rv[j as int]);
        if !starts_with(cfg.enabled_remote[j].as_str(), &prefix) {
            let ghost before = remote@.map_values(|s: String| s@);
            remote.push(cfg.enabled_remote[j].clone());
            assert(remote@.map_values(|s: String| s@) =~= before.push(rv[j as int]));
        }
        j = j + 1;
    }
    assert(rv.take(j as int) =~= rv);
    cfg.sources = kept;
    cfg.enabled_remote = remote;
}

/// After removing a source, no source with its id is left.
pub proof fn lemma_removed_source_is_gone(sources: Seq<SourceSpec>, id: Seq<char>)
    ensures
        forall|i: int|
            0 <= i < sources_without(sources, id).len() ==> #[trigger] sources_without(
                sources,
                id,
            )[i].spec_id() != id,
    decreases sources.len(),
{
    if sources.len() > 0 {
        lemma_removed_source_is_gone(sources.drop_last(), id);
        let prev = sources_without(sources.drop_last(), id);
        let r = sources_without(sources, id);
        assert forall|i: int| 0 <= i < r.len() implies #[trigger] r[i].spec_id() != id by {
            if i < prev.len() {
                assert(r[i] == prev[i]);
            }
        }
    }
}

/// After removing a source, no enabled remote prompt under it is left.
pub proof fn lemma_removed_source_prompts_are_gone(remote: Seq<Seq<char>>, id: Seq<char>)
    ensures
        forall|i: int|
            0 <= i < without_prefix(remote, id.push('/')).len() ==> !id.push('/').is_prefix_of(
                #[trigger] without_prefix(remote, id.push('/'))[i],
            ),
    decreases remote.len(),
{
    if remote.len() > 0 {
        lemma_removed_source_prompts_are_gone(remote.drop_last(), id);
        let prev = without_prefix(remote.drop_last(), id.push('/'));
        let r = without_prefix(remote, id.push('/'));
        assert forall|i: int| 0 <= i < r.len() implies !id.push('/').is_prefix_of(#[trigger] r[i]) by {
            if i < prev.len() {
                assert(r[i] == prev[i]);
            }
        }
    }
}

/// Whether an allow-list entry is some other prompt than `id`.
pub open spec fn other_than(id: Seq<char>) -> spec_fn(Seq<char>) -> bool {
    |x: Seq<char>| x != id
}

/// The allow-list of reviewed remote prompts after enabling or disabling
/// one: every other entry stays in order, and the prompt is listed once, at
/// the end, exactly when enabled.
pub open spec fn spec_set_remote_enabled(list: Seq<Seq<char>>, id: Seq<char>, enabled: bool) -> Seq<
    Seq<char>,
> {
    let kept = list.filter(other_than(id));
    if enabled {
        kept.push(id)
    } else {
        kept
    }
}

/// Enable or disable one remote prompt in the allow-list.
pub fn set_remote_enabled(list: &mut Vec<String>, prompt_id: &String, enabled: bool)
    ensures
        final(list)@.map_values(|s: String| s@) == spec_set_remote_enabled(
            old(list)@.map_values(|s: String| s@),
            prompt_id@,
            enabled,
        ),
{
    let ghost lv = list@.map_values(|s: String| s@);
    let mut kept: Vec<String> = Vec::new();
    let mut i: usize = 0;
    while i < list.len()
        invariant
            i <= list@.len(),
            lv == list@.map_values(|s: String| s@),
            kept@.map_values(|s: String| s@) == lv.take(i as int).filter(other_than(prompt_id@)),
        decreases list@.len() - i,
    {
        assert(lv.take(i + 1).drop_last() =~= lv.take(i as int));
        assert(lv.take(i + 1).last() == lv[i as int]);
        reveal(Seq::filter);
        if list[i] != *prompt_id {
            let ghost before = kept@.map_values(|s: String| s@);
            kept.push(list[i].clone());
            assert(kept@.map_values(|s: String| s@) =~= before.push(lv[i as int]));
        }
        i = i + 1;
    }
    assert(lv.take(i as int) =~= lv);
    if enabled {
        let ghost before = kept@.map_values(|s: String| s@);
        kept.push(prompt_id.clone());
        assert(kept@.map_values(|s: String| s@) =~= before.push(prompt_id@));
    }
    *list = kept;
}

/// After the edit the prompt is on the allow-list exactly when enabled.
pub proof fn lemma_remote_enabled_membership(list: Seq<Seq<char>>, id: Seq<char>, enabled: bool)
    ensures
        spec_set_remote_enabled(list, id, enabled).contains(id) == enabled,
{
    let kept = list.filter(other_than(id));
    if kept.contains(id) {
        let k = choose|k: int| 0 <= k < kept.len() && kept[k] == id;
        list.lemma_filter_pred(other_than(id), k);
        assert(false);
    }
    if enabled {
        assert(kept.push(id)[kept.len() as int] == id);
    }
}

/// A refresh fails as a whole only when every source failed.
pub fn all_sources_failed(sources: usize, errors: usize) -> (r: bool)
    ensures
        r == (errors > 0 && sources == errors),
{
    errors > 0 && sources == errors
}


/// Refuse a source whose id is already taken: adding is a trust decision,
/// and a second entry for the same repo would only shadow the first. The
/// error names the repo.
pub fn check_new_source(sources: &[SourceSpec], spec: &SourceSpec) -> (r: Result<(), crate::error::AppError>)
    ensures
        (exists|i: int| 0 <= i < sources@.len() && #[trigger] sources@[i].spec_id() == spec.spec_id())
            <==> r is Err,
        r matches Err(e) ==> (e matches crate::error::AppError::InvalidArg(m) && m@ == spec.repo@
            + " is already a source"@),
{
    let id = spec.id();
    if has_source_id(sources, id.as_str()) {
        let mut msg: Vec<char> = chars_of(spec.repo.as_str());
        crate::text::push_str(&mut msg, " is already a source");
        Err(crate::error::AppError::InvalidArg(string_of(&msg)))
    } else {
        Ok(())
    }
}

/// Forget source `source_id` as the command does: an unknown id is refused
/// with an invalid-argument error naming it and the config is left as it
/// was; otherwise `remove_source` applies.
pub fn remove_source_checked(cfg: &mut AppConfig, source_id: &str) -> (r: Result<(), crate::error::AppError>)
    ensures
        (exists|i: int| 0 <= i < old(cfg).sources@.len() && #[trigger] old(cfg).sources@[i].spec_id()
            == source_id@) <==> r is Ok,
        r is Ok ==> final(cfg).sources@ == sources_without(old(cfg).sources@, source_id@)
            && final(cfg).enabled_remote@.map_values(|s: String| s@) == without_prefix(
            old(cfg).enabled_remote@.map_values(|s: String| s@),
            source_id@.push('/'),
        ),
        r matches Err(e) ==> (e matches crate::error::AppError::InvalidArg(m) && m@ == "no source with id "@
            + source_id@) && *final(cfg) == *old(cfg),
{
    if !has_source_id(cfg.sources.as_slice(), source_id) {
        let mut msg: Vec<char> = Vec::new();
        crate::text::push_str(&mut msg, "no source with id ");
        crate::text::push_str(&mut msg, source_id);
        return Err(crate::error::AppError::InvalidArg(string_of(&msg)));
    }
    remove_source(cfg, source_id);
    Ok(())
}

} // verus!
