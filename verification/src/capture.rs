//! Which window a focus snapshot should remember: classify the top-level
//! windows in z-order so Zoom's share helpers and our own tray-menu owner
//! are skipped and the real target below them is found.
//!
//! The window walk itself is the caller's; here the windows arrive as plain
//! snapshots.

use crate::text::str_eq;
use vstd::prelude::*;

verus! {

/// Zoom's transient share windows (Zoom 5.x–6.x), matched exactly and
/// case-sensitively as Win32 class names are.
pub open spec fn spec_is_share_helper(class: Seq<char>) -> bool {
    ||| class == "ZPToolBarParentWnd"@
    ||| class == "ZPContentViewWndClass"@
    ||| class == "ZPFloatVideoWndClass"@
    ||| class == "Zoom_ShareControlBar"@
    ||| class == "ZPMeetingMainFrameClassForWindow"@
    ||| class == "ZPSharingFloatToolbarClass"@
}

/// Our own windows that must never be a focus target: the tray-menu owner.
/// Tauri's shared class is absent on purpose; library windows are legitimate.
pub open spec fn spec_is_own_class(class: Seq<char>) -> bool {
    class == "PromptPlayerMenuOwner"@
}

/// Whether `class` is one of Zoom's share helper windows.
pub fn is_known_share_helper(class: &str) -> (r: bool)
    ensures
        r == spec_is_share_helper(class@),
{
    str_eq(class, "ZPToolBarParentWnd") || str_eq(class, "ZPContentViewWndClass") || str_eq(
        class,
        "ZPFloatVideoWndClass",
    ) || str_eq(class, "Zoom_ShareControlBar") || str_eq(class, "ZPMeetingMainFrameClassForWindow")
        || str_eq(class, "ZPSharingFloatToolbarClass")
}

/// Whether `class` is one of this app's own helper windows.
pub fn is_own_window_class(class: &str) -> (r: bool)
    ensures
        r == spec_is_own_class(class@),
{
    str_eq(class, "PromptPlayerMenuOwner")
}

/// No class is both a share helper and one of our own.
pub proof fn lemma_share_and_own_disjoint(class: Seq<char>)
    ensures
        !(spec_is_share_helper(class) && spec_is_own_class(class)),
{
    reveal_strlit("PromptPlayerMenuOwner");
    reveal_strlit("ZPToolBarParentWnd");
    reveal_strlit("ZPContentViewWndClass");
    reveal_strlit("ZPFloatVideoWndClass");
    reveal_strlit("Zoom_ShareControlBar");
    reveal_strlit("ZPMeetingMainFrameClassForWindow");
    reveal_strlit("ZPSharingFloatToolbarClass");
    assert("PromptPlayerMenuOwner"@.len() == 21);
    assert("ZPToolBarParentWnd"@.len() == 18);
    assert("ZPContentViewWndClass"@[0] == 'Z');
    assert("ZPFloatVideoWndClass"@.len() == 20);
    assert("Zoom_ShareControlBar"@.len() == 20);
    assert("ZPMeetingMainFrameClassForWindow"@.len() == 32);
    assert("ZPSharingFloatToolbarClass"@.len() == 26);
    assert("PromptPlayerMenuOwner"@[0] == 'P');
}

/// Snapshot of one top-level window's classification state.
#[derive(Debug, Clone)]
pub struct CandidateWindow {
    /// HWND as a u64, so test data carries no handles.
    pub hwnd_raw: u64,
    pub class: String,
    pub title: Option<String>,
    pub visible: bool,
    pub cloaked: bool,
    pub iconic: bool,
}

impl CandidateWindow {
    pub open spec fn spec_acceptable(&self) -> bool {
        &&& self.visible
        &&& !self.cloaked
        &&& !self.iconic
        &&& !spec_is_share_helper(self.class@)
        &&& !spec_is_own_class(self.class@)
    }

    /// True iff this window is a plausible focus-restore target.
    pub fn is_acceptable_target(&self) -> (r: bool)
        ensures
            r == self.spec_acceptable(),
    {
        self.visible && !self.cloaked && !self.iconic && !is_known_share_helper(
            self.class.as_str(),
        ) && !is_own_window_class(self.class.as_str())
    }
}

/// How many windows from the top of the z-order are inspected.
pub const SELECT_CAP: usize = 10;

/// Why a candidate was passed over: the first failing check, in this order.
#[derive(Debug, Clone, Copy, PartialEq, Eq, Structural)]
pub enum RejectReason {
    NotVisible,
    Cloaked,
    Iconic,
    ShareHelper,
    OwnClass,
}

impl RejectReason {
    pub open spec fn spec_label(self) -> Seq<char> {
        match self {
            RejectReason::NotVisible => "not_visible"@,
            RejectReason::Cloaked => "cloaked"@,
            RejectReason::Iconic => "iconic"@,
            RejectReason::ShareHelper => "share_helper"@,
            RejectReason::OwnClass => "own_class"@,
        }
    }

    /// The label written to the log for this reason.
    pub fn label(&self) -> (r: &'static str)
        ensures
            r@ == self.spec_label(),
    {
        match self {
            RejectReason::NotVisible => "not_visible",
            RejectReason::Cloaked => "cloaked",
            RejectReason::Iconic => "iconic",
            RejectReason::ShareHelper => "share_helper",
            RejectReason::OwnClass => "own_class",
        }
    }
}

/// The reason an unacceptable candidate is rejected.
pub open spec fn spec_reject_reason(c: CandidateWindow) -> RejectReason {
    if !c.visible {
        RejectReason::NotVisible
    } else if c.cloaked {
        RejectReason::Cloaked
    } else if c.iconic {
        RejectReason::Iconic
    } else if spec_is_share_helper(c.class@) {
        RejectReason::ShareHelper
    } else {
        RejectReason::OwnClass
    }
}

/// One decision of [`select_target`], in the order the candidates were seen.
#[derive(Debug, Clone, Copy, PartialEq, Eq, Structural)]
pub enum TargetDecision {
    Accepted { index: usize },
    Rejected { index: usize, reason: RejectReason },
}

/// Index of the first acceptable candidate, capped at `SELECT_CAP`. `None`
/// means the caller should fall back to the raw foreground window.
fn select_index(candidates: &[CandidateWindow]) -> (r: Option<usize>)
    ensures
        match r {
            Some(i) => {
                &&& i < candidates@.len()
                &&& i < SELECT_CAP
                &&& candidates@[i as int].spec_acceptable()
                &&& forall|j: int| 0 <= j < i ==> !#[trigger] candidates@[j].spec_acceptable()
            },
            None => forall|j: int|
                0 <= j < candidates@.len() && j < SELECT_CAP
                    ==> !#[trigger] candidates@[j].spec_acceptable(),
        },
{
    let mut i: usize = 0;
    while i < candidates.len() && i < SELECT_CAP
        invariant
            i <= candidates@.len(),
            i <= SELECT_CAP,
            forall|j: int| 0 <= j < i ==> !#[trigger] candidates@[j].spec_acceptable(),
        decreases candidates@.len() - i,
    {
        if candidates[i].is_acceptable_target() {
            return Some(i);
        }
        i = i + 1;
    }
    None
}

/// First acceptable candidate among the first ten, or `None`.
pub fn select_target(candidates: &[CandidateWindow]) -> (r: Option<&CandidateWindow>)
    ensures
        match r {
            Some(c) => exists|i: int|
                0 <= i < candidates@.len() && i < SELECT_CAP && *c == candidates@[i]
                    && c.spec_acceptable() && forall|j: int|
                    0 <= j < i ==> !#[trigger] candidates@[j].spec_acceptable(),
            None => forall|j: int|
                0 <= j < candidates@.len() && j < SELECT_CAP
                    ==> !#[trigger] candidates@[j].spec_acceptable(),
        },
{
    match select_index(candidates) {
        Some(i) => Some(&candidates[i]),
        None => None,
    }
}

/// The decisions [`select_target`] makes, one per candidate it inspects: a
/// rejection with its reason for each window passed over, then the
/// acceptance, if any.
pub fn target_decisions(candidates: &[CandidateWindow]) -> (r: Vec<TargetDecision>)
    ensures
        r@.len() <= SELECT_CAP,
        forall|k: int|
            0 <= k < r@.len() ==> match #[trigger] r@[k] {
                TargetDecision::Accepted { index } => index == k && k == r@.len() - 1
                    && candidates@[k].spec_acceptable(),
                TargetDecision::Rejected { index, reason } => index == k && k < candidates@.len()
                    && !candidates@[k].spec_acceptable() && reason == spec_reject_reason(
                    candidates@[k],
                ),
            },
        (r@.len() > 0 && r@.last() is Accepted) <==> select_index_spec_some(candidates@),
        !select_index_spec_some(candidates@) ==> r@.len() == if candidates@.len() < SELECT_CAP {
            candidates@.len()
        } else {
            SELECT_CAP as nat
        },
{
    let mut out: Vec<TargetDecision> = Vec::new();
    let mut i: usize = 0;
    while i < candidates.len() && i < SELECT_CAP
        invariant
            i <= candidates@.len(),
            i <= SELECT_CAP,
            out@.len() == i,
            forall|j: int| 0 <= j < i ==> !#[trigger] candidates@[j].spec_acceptable(),
            forall|k: int|
                0 <= k < out@.len() ==> match #[trigger] out@[k] {
                    TargetDecision::Accepted { index } => false,
                    TargetDecision::Rejected { index, reason } => index == k && k
                        < candidates@.len() && !candidates@[k].spec_acceptable() && reason
                        == spec_reject_reason(candidates@[k]),
                },
        decreases candidates@.len() - i,
    {
        let c = &candidates[i];
        if c.is_acceptable_target() {
            out.push(TargetDecision::Accepted { index: i });
            proof {
                assert(candidates@[i as int].spec_acceptable());
            }
            return out;
        }
        let reason = if !c.visible {
            RejectReason::NotVisible
        } else if c.cloaked {
            RejectReason::Cloaked
        } else if c.iconic {
            RejectReason::Iconic
        } else if is_known_share_helper(c.class.as_str()) {
            RejectReason::ShareHelper
        } else {
            RejectReason::OwnClass
        };
        out.push(TargetDecision::Rejected { index: i, reason });
        i = i + 1;
    }
    proof {
        if select_index_spec_some(candidates@) {
            let j = choose|j: int|
                0 <= j < candidates@.len() && j < SELECT_CAP
                    && #[trigger] candidates@[j].spec_acceptable();
            assert(!candidates@[j].spec_acceptable());
        }
    }
    out
}

/// Some candidate among the first `SELECT_CAP` is acceptable.
pub open spec fn select_index_spec_some(cs: Seq<CandidateWindow>) -> bool {
    exists|j: int| 0 <= j < cs.len() && j < SELECT_CAP && #[trigger] cs[j].spec_acceptable()
}

} // verus!
