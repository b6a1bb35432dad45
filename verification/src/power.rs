//! "Keep Awake": the session state behind the display-sleep inhibitor.
//!
//! Every enable carries a deadline unless indefinite was explicitly asked
//! for. Times are milliseconds on the caller's monotonic clock; holding or
//! releasing the OS assertion is the caller's, after each transition.

use vstd::prelude::*;

verus! {

/// How often the caller should drive [`PowerManager::expire_if_due_at`], in
/// milliseconds.
pub const EXPIRY_POLL_INTERVAL_MS: u64 = 15_000;

/// Milliseconds in a minute.
pub const MS_PER_MINUTE: u64 = 60_000;

/// Largest clock value at which a session of any length can still start.
pub const MAX_START_MS: u64 = 0xffff_ffff_0000_0000;

/// Keep-awake session state.
#[derive(Debug, Clone, Copy)]
pub struct PowerManager {
    enabled: bool,
    /// When the session auto-releases; `None` if disabled or indefinite.
    deadline_ms: Option<u64>,
    /// Minutes the session started with (`0` = indefinite or no session).
    duration_mins: u16,
}

/// The abstract state: on/off, the deadline, and the session length.
pub ghost struct PowerView {
    pub enabled: bool,
    pub deadline: Option<int>,
    pub duration_mins: nat,
}

impl View for PowerManager {
    type V = PowerView;

    closed spec fn view(&self) -> PowerView {
        PowerView {
            enabled: self.enabled,
            deadline: match self.deadline_ms {
                Some(d) => Some(d as int),
                None => None,
            },
            duration_mins: self.duration_mins as nat,
        }
    }
}

/// The state after `set_for(enabled, mins)` at `now`: a deadline only for an
/// enabled, bounded session.
pub open spec fn spec_set_for(enabled: bool, mins: nat, now: int) -> PowerView {
    PowerView {
        enabled,
        deadline: if enabled && mins > 0 {
            Some(now + mins * MS_PER_MINUTE)
        } else {
            None
        },
        duration_mins: if enabled {
            mins
        } else {
            0
        },
    }
}

/// Whether the session is due to end at `now`.
pub open spec fn spec_due(s: PowerView, now: int) -> bool {
    s.enabled && match s.deadline {
        Some(d) => now >= d,
        None => false,
    }
}

/// The state after an expiry check at `now`, and whether it expired.
pub open spec fn spec_expire(s: PowerView, now: int) -> (PowerView, bool) {
    if spec_due(s, now) {
        (spec_set_for(false, 0, now), true)
    } else {
        (s, false)
    }
}

/// Time left before auto-off, floored at zero; `None` without a deadline.
pub open spec fn spec_remaining(s: PowerView, now: int) -> Option<int> {
    match s.deadline {
        Some(d) => Some(if d > now { d - now } else { 0 }),
        None => None,
    }
}

impl PowerManager {
    /// Only an enabled, bounded session has a deadline.
    pub closed spec fn wf(&self) -> bool {
        &&& self.deadline_ms is Some ==> self.enabled && self.duration_mins > 0
        &&& !self.enabled ==> self.duration_mins == 0
    }

    /// Off, as every launch starts.
    pub fn new() -> (r: Self)
        ensures
            r.wf(),
            r@ == spec_set_for(false, 0, 0),
    {
        PowerManager { enabled: false, deadline_ms: None, duration_mins: 0 }
    }

    pub fn is_enabled(&self) -> (r: bool)
        ensures
            r == self@.enabled,
    {
        self.enabled
    }

    /// Minutes the session started with. `0` = indefinite or no session.
    pub fn duration_mins(&self) -> (r: u16)
        ensures
            r == self@.duration_mins,
    {
        self.duration_mins
    }

    /// Milliseconds left before auto-off at `now_ms`; `None` when disabled or
    /// indefinite. Past the deadline it floors at zero.
    pub fn remaining_at(&self, now_ms: u64) -> (r: Option<u64>)
        ensures
            match r {
                Some(x) => spec_remaining(self@, now_ms as int) == Some(x as int),
                None => spec_remaining(self@, now_ms as int) is None,
            },
    {
        match self.deadline_ms {
            Some(d) => Some(
                if d > now_ms {
                    d - now_ms
                } else {
                    0
                },
            ),
            None => None,
        }
    }

    /// Enable or disable with an auto-off in minutes; `0` is indefinite, but
    /// only when explicitly asked for. Returns the new state.
    pub fn set_for_at(&mut self, enabled: bool, duration_mins: u16, now_ms: u64) -> (r: bool)
        requires
            now_ms <= MAX_START_MS,
        ensures
            r == enabled,
            final(self).wf(),
            final(self)@ == spec_set_for(enabled, duration_mins as nat, now_ms as int),
    {
        self.enabled = enabled;
        self.duration_mins = if enabled {
            duration_mins
        } else {
            0
        };
        self.deadline_ms = if enabled && duration_mins > 0 {
            Some(now_ms + duration_mins as u64 * MS_PER_MINUTE)
        } else {
            None
        };
        enabled
    }

    /// Flip the current state, starting a `duration_mins` session when
    /// turning on. Returns the new value.
    pub fn toggle_for_at(&mut self, duration_mins: u16, now_ms: u64) -> (r: bool)
        requires
            now_ms <= MAX_START_MS,
        ensures
            r == !old(self)@.enabled,
            final(self).wf(),
            final(self)@ == spec_set_for(!old(self)@.enabled, duration_mins as nat, now_ms as int),
    {
        let next = !self.enabled;
        self.set_for_at(next, duration_mins, now_ms)
    }

    /// End the session if its deadline has passed. True only on the
    /// transition, so the caller reports one expiry.
    pub fn expire_if_due_at(&mut self, now_ms: u64) -> (r: bool)
        requires
            old(self).wf(),
        ensures
            final(self).wf(),
            (final(self)@, r) == spec_expire(old(self)@, now_ms as int),
    {
        if !self.enabled {
            return false;
        }
        let due = match self.deadline_ms {
            Some(d) => now_ms >= d,
            None => false,
        };
        if !due {
            return false;
        }
        self.enabled = false;
        self.duration_mins = 0;
        self.deadline_ms = None;
        true
    }

    /// At launch: bring back a session that was on when the app last ran,
    /// only when the user opted in, and always with a fresh deadline from
    /// `now_ms` so a persisted "on" cannot resurrect a long session. Returns
    /// whether it was brought back.
    pub fn restore_at(&mut self, restore_opt_in: bool, was_on: bool, duration_mins: u16, now_ms: u64)
        -> (r: bool)
        requires
            old(self).wf(),
            now_ms <= MAX_START_MS,
        ensures
            r == (restore_opt_in && was_on),
            final(self).wf(),
            r ==> final(self)@ == spec_set_for(true, duration_mins as nat, now_ms as int),
            !r ==> final(self)@ == old(self)@,
    {
        if restore_opt_in && was_on {
            self.set_for_at(true, duration_mins, now_ms)
        } else {
            false
        }
    }

    /// Change the auto-off without toggling: a running session is re-armed
    /// with the new length from `now_ms`, so picking a duration while on takes
    /// effect at once; an idle manager stays as it is.
    pub fn set_duration_at(&mut self, duration_mins: u16, now_ms: u64)
        requires
            old(self).wf(),
            now_ms <= MAX_START_MS,
        ensures
            final(self).wf(),
            old(self)@.enabled ==> final(self)@ == spec_set_for(true, duration_mins as nat, now_ms as int),
            !old(self)@.enabled ==> final(self)@ == old(self)@,
    {
        if self.enabled {
            self.set_for_at(true, duration_mins, now_ms);
        }
    }

    /// Set state with no deadline.
    pub fn set_at(&mut self, enabled: bool, now_ms: u64) -> (r: bool)
        requires
            now_ms <= MAX_START_MS,
        ensures
            r == enabled,
            final(self).wf(),
            final(self)@ == spec_set_for(enabled, 0, now_ms as int),
    {
        self.set_for_at(enabled, 0, now_ms)
    }

    /// Flip state, indefinite.
    pub fn toggle_at(&mut self, now_ms: u64) -> (r: bool)
        requires
            now_ms <= MAX_START_MS,
        ensures
            r == !old(self)@.enabled,
            final(self).wf(),
            final(self)@ == spec_set_for(!old(self)@.enabled, 0, now_ms as int),
    {
        let next = !self.enabled;
        self.set_at(next, now_ms)
    }
}

impl Default for PowerManager {
    fn default() -> (r: Self)
        ensures
            r.wf(),
            r@ == spec_set_for(false, 0, 0),
    {
        PowerManager::new()
    }
}

/// A bounded session stays on until its deadline, ends exactly at it, and
/// reports the ending once: a second check after the expiry changes nothing.
pub proof fn lemma_timed_session_expires_once(mins: nat, t0: int, t1: int, t2: int)
    requires
        mins > 0,
    ensures
        !spec_expire(spec_set_for(true, mins, t0), t1).1 <==> t1 < t0 + mins * MS_PER_MINUTE,
        t1 < t0 + mins * MS_PER_MINUTE ==> spec_expire(spec_set_for(true, mins, t0), t1).0
            == spec_set_for(true, mins, t0),
        t1 >= t0 + mins * MS_PER_MINUTE ==> {
            let after = spec_expire(spec_set_for(true, mins, t0), t1).0;
            &&& !after.enabled
            &&& spec_expire(after, t2) == (after, false)
        },
{
}

/// An indefinite session never expires, whatever the clock says.
pub proof fn lemma_indefinite_never_expires(t0: int, t: int)
    ensures
        spec_expire(spec_set_for(true, 0, t0), t) == (spec_set_for(true, 0, t0), false),
        spec_remaining(spec_set_for(true, 0, t0), t) is None,
{
}

/// Re-enabling mid-session measures the new deadline from the re-enable,
/// not from the first start.
pub proof fn lemma_reenable_restarts_clock(mins: nat, t0: int, t1: int, t: int)
    requires
        mins > 0,
        t0 <= t1,
    ensures
        spec_due(spec_set_for(true, mins, t1), t) <==> t >= t1 + mins * MS_PER_MINUTE,
{
}

/// The time left never exceeds the session length and floors at zero.
pub proof fn lemma_remaining_bounded(mins: nat, t0: int, t: int)
    requires
        mins > 0,
        t0 <= t,
    ensures
        spec_remaining(spec_set_for(true, mins, t0), t) matches Some(left) && 0 <= left <= mins
            * MS_PER_MINUTE,
{
}

/// Turning off clears the deadline, so nothing can expire afterwards.
pub proof fn lemma_off_clears_deadline(t0: int, t: int)
    ensures
        spec_remaining(spec_set_for(false, 0, t0), t) is None,
        spec_expire(spec_set_for(false, 0, t0), t).1 == false,
{
}

} // verus!
