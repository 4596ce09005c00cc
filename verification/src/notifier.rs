//! Percentage-only notification state machine.
//!
//! Decides when to fire the low-battery and fully-charged desktop
//! notifications from the reported battery percentage alone. The
//! charging/discharging status byte is deliberately ignored: the firmware's
//! status reporting is unreliable, and percentage alone is sufficient —
//! 100% can only be reached while charging, and recovery above the re-arm
//! thresholds implies a charge happened.
use vstd::prelude::*;

verus! {

/// Fire the low notification at or below this percentage.
pub const LOW_THRESHOLD: u8 = 10;

/// Re-arm the low notification once charge recovers above this percentage.
pub const LOW_REARM: u8 = 20;

/// Fire the full notification at this percentage.
pub const FULL_THRESHOLD: u8 = 100;

/// Re-arm the full notification once charge drops below this percentage,
/// with margin so 99↔100 jitter near the end of a charge can't re-fire it.
pub const FULL_REARM: u8 = 95;

/// Which notifications one reading asks to fire.
#[derive(Debug, Clone, Copy, PartialEq, Eq, Structural)]
pub struct Notifications {
    pub low: bool,
    pub full: bool,
}

/// The abstract state of a [`NotificationPolicy`]: whether each alert has
/// already fired in the current charge cycle.
pub struct PolicyView {
    pub low_notified: bool,
    pub full_notified: bool,
}

/// The state a fresh or reset policy is in: both alerts armed.
pub open spec fn armed() -> PolicyView {
    PolicyView { low_notified: false, full_notified: false }
}

/// The low alert fires on reading `p` from state `s`.
pub open spec fn fires_low(s: PolicyView, p: u8) -> bool {
    p <= LOW_THRESHOLD && !s.low_notified
}

/// The full alert fires on reading `p` from state `s`.
pub open spec fn fires_full(s: PolicyView, p: u8) -> bool {
    p >= FULL_THRESHOLD && !s.full_notified
}

/// What one reading asks to fire.
pub open spec fn notifications_for(s: PolicyView, p: u8) -> Notifications {
    Notifications { low: fires_low(s, p), full: fires_full(s, p) }
}

/// The state after reading `p` in state `s`.
pub open spec fn next_state(s: PolicyView, p: u8) -> PolicyView {
    PolicyView {
        low_notified: if fires_low(s, p) {
            true
        } else if p > LOW_REARM {
            false
        } else {
            s.low_notified
        },
        full_notified: if fires_full(s, p) {
            true
        } else if p < FULL_REARM {
            false
        } else {
            s.full_notified
        },
    }
}

/// The state after feeding every reading of `ps`, in order, from state `s`.
pub open spec fn state_after(s: PolicyView, ps: Seq<u8>) -> PolicyView
    decreases ps.len(),
{
    if ps.len() == 0 {
        s
    } else {
        next_state(state_after(s, ps.drop_last()), ps.last())
    }
}

/// The low alert fires on the `i`-th reading of `ps`, fed from state `s`.
pub open spec fn low_fired_at(s: PolicyView, ps: Seq<u8>, i: int) -> bool {
    fires_low(state_after(s, ps.take(i)), ps[i])
}

/// The full alert fires on the `i`-th reading of `ps`, fed from state `s`.
pub open spec fn full_fired_at(s: PolicyView, ps: Seq<u8>, i: int) -> bool {
    fires_full(state_after(s, ps.take(i)), ps[i])
}

/// Tracks which battery alerts have already been sent in the current charge cycle.
pub struct NotificationPolicy {
    low_notified: bool,
    full_notified: bool,
}

impl View for NotificationPolicy {
    type V = PolicyView;

    closed spec fn view(&self) -> PolicyView {
        PolicyView { low_notified: self.low_notified, full_notified: self.full_notified }
    }
}

impl NotificationPolicy {
    /// A policy with both alerts armed.
    pub fn new() -> (p: Self)
        ensures
            p@ == armed(),
    {
        NotificationPolicy { low_notified: false, full_notified: false }
    }

    /// Feed one battery reading; returns which notifications to fire now.
    pub fn update(&mut self, percentage: u8) -> (n: Notifications)
        ensures
            n == notifications_for(old(self)@, percentage),
            final(self)@ == next_state(old(self)@, percentage),
    {
        let low = percentage <= LOW_THRESHOLD && !self.low_notified;
        if low {
            self.low_notified = true;
        } else if percentage > LOW_REARM {
            self.low_notified = false;
        }
        let full = percentage >= FULL_THRESHOLD && !self.full_notified;
        if full {
            self.full_notified = true;
        } else if percentage < FULL_REARM {
            self.full_notified = false;
        }
        Notifications { low, full }
    }

    /// Forget notification state (device disconnected / query failures).
    pub fn reset(&mut self)
        ensures
            final(self)@ == armed(),
    {
        self.low_notified = false;
        self.full_notified = false;
    }
}

/// Feeding readings one at a time: the state after `ps.take(i + 1)` is one
/// step from the state after `ps.take(i)`.
proof fn lemma_state_after_step(s: PolicyView, ps: Seq<u8>, i: int)
    requires
        0 <= i < ps.len(),
    ensures
        state_after(s, ps.take(i + 1)) == next_state(state_after(s, ps.take(i)), ps[i]),
{
    assert(ps.take(i + 1).drop_last() =~= ps.take(i));
}

/// Once the low alert has fired, it stays spent for every later reading
/// until one of them rises above the re-arm threshold.
proof fn lemma_low_stays_spent(s: PolicyView, ps: Seq<u8>, i: int, m: int)
    requires
        0 <= i < m <= ps.len(),
        low_fired_at(s, ps, i),
        forall|k: int| i < k < m ==> ps[k] <= LOW_REARM,
    ensures
        state_after(s, ps.take(m)).low_notified,
    decreases m - i,
{
    if m == i + 1 {
        lemma_state_after_step(s, ps, i);
    } else {
        lemma_low_stays_spent(s, ps, i, m - 1);
        lemma_state_after_step(s, ps, m - 1);
    }
}

/// Once the full alert has fired, it stays spent for every later reading
/// until one of them drops below the re-arm threshold.
proof fn lemma_full_stays_spent(s: PolicyView, ps: Seq<u8>, i: int, m: int)
    requires
        0 <= i < m <= ps.len(),
        full_fired_at(s, ps, i),
        forall|k: int| i < k < m ==> ps[k] >= FULL_REARM,
    ensures
        state_after(s, ps.take(m)).full_notified,
    decreases m - i,
{
    if m == i + 1 {
        lemma_state_after_step(s, ps, i);
    } else {
        lemma_full_stays_spent(s, ps, i, m - 1);
        lemma_state_after_step(s, ps, m - 1);
    }
}

/// The low alert fires at most once per discharge cycle: between any two
/// readings on which it fires, some reading rose above the re-arm threshold.
pub proof fn lemma_low_fires_once_per_cycle(s: PolicyView, ps: Seq<u8>, i: int, j: int)
    requires
        0 <= i < j < ps.len(),
        low_fired_at(s, ps, i),
        low_fired_at(s, ps, j),
    ensures
        exists|k: int| i < k < j && ps[k] > LOW_REARM,
{
    if forall|k: int| i < k < j ==> ps[k] <= LOW_REARM {
        lemma_low_stays_spent(s, ps, i, j);
    }
}

/// The full alert fires at most once per charge cycle: between any two
/// readings on which it fires, some reading dropped below the re-arm threshold.
pub proof fn lemma_full_fires_once_per_cycle(s: PolicyView, ps: Seq<u8>, i: int, j: int)
    requires
        0 <= i < j < ps.len(),
        full_fired_at(s, ps, i),
        full_fired_at(s, ps, j),
    ensures
        exists|k: int| i < k < j && ps[k] < FULL_REARM,
{
    if forall|k: int| i < k < j ==> ps[k] >= FULL_REARM {
        lemma_full_stays_spent(s, ps, i, j);
    }
}

/// Within the hysteresis band the low alert does not re-arm: a reading at
/// most the re-arm threshold leaves a spent low alert spent.
pub proof fn lemma_low_band_keeps_spent(s: PolicyView, p: u8)
    requires
        s.low_notified,
        p <= LOW_REARM,
    ensures
        next_state(s, p).low_notified,
{
}

/// Near full the full alert does not re-arm: a reading at or above the
/// re-arm threshold leaves a spent full alert spent.
pub proof fn lemma_full_band_keeps_spent(s: PolicyView, p: u8)
    requires
        s.full_notified,
        p >= FULL_REARM,
    ensures
        next_state(s, p).full_notified,
{
}

/// Recovery above the low re-arm threshold re-arms the low alert: the next
/// reading at or below the low threshold fires it, whatever came before.
pub proof fn lemma_low_rearms(s: PolicyView, recovered: u8, p: u8)
    requires
        recovered > LOW_REARM,
        p <= LOW_THRESHOLD,
    ensures
        fires_low(next_state(s, recovered), p),
{
}

/// A drop below the full re-arm threshold re-arms the full alert: the next
/// reading at full fires it, whatever came before.
pub proof fn lemma_full_rearms(s: PolicyView, dropped: u8, p: u8)
    requires
        dropped < FULL_REARM,
        p >= FULL_THRESHOLD,
    ensures
        fires_full(next_state(s, dropped), p),
{
}

/// From the armed state (a new or reset policy) both alerts fire at their
/// thresholds.
pub proof fn lemma_armed_fires(p: u8)
    ensures
        p <= LOW_THRESHOLD ==> fires_low(armed(), p),
        p >= FULL_THRESHOLD ==> fires_full(armed(), p),
{
}

/// No reading fires both alerts at once.
pub proof fn lemma_never_both(s: PolicyView, p: u8)
    ensures
        !(fires_low(s, p) && fires_full(s, p)),
{
}

/// The thresholds of the policy, from any state: the low alert fires only
/// at or below 10% and always there when armed, and is re-armed only by a
/// reading above 20%; the full alert fires only at 100% or more and always
/// there when armed, and is re-armed only by a reading below 95%.
pub proof fn lemma_policy_thresholds(s: PolicyView, p: u8)
    ensures
        fires_low(s, p) <==> (p <= 10 && !s.low_notified),
        fires_full(s, p) <==> (p >= 100 && !s.full_notified),
        p > 20 ==> !next_state(s, p).low_notified,
        11 <= p <= 20 ==> next_state(s, p).low_notified == s.low_notified,
        p <= 10 ==> next_state(s, p).low_notified,
        p < 95 ==> !next_state(s, p).full_notified,
        95 <= p < 100 ==> next_state(s, p).full_notified == s.full_notified,
        p >= 100 ==> next_state(s, p).full_notified,
        notifications_for(s, p).low == fires_low(s, p),
        notifications_for(s, p).full == fires_full(s, p),
{
}

} // verus!
