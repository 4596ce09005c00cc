//! The decisions of one poll cycle: what a reading or a failed query does
//! to the published battery state, and which announcements, estimates and
//! notifications follow from it.
use vstd::prelude::*;

use crate::hid::{status_text, BatteryReading, BatteryStatus};
use crate::notifier::{
    armed, fires_full, fires_low, next_state, notifications_for, NotificationPolicy, Notifications,
    PolicyView, FULL_REARM, FULL_THRESHOLD, LOW_REARM, LOW_THRESHOLD,
};
use crate::predictor::{
    base_window, cable_charging, calibration_against, direction_changed, lemma_window_keeps_latest,
    pushed, voltage_fit, window_after, BatteryPredictor, PredictorView, PushOutcome, Sample,
    WEAK_CABLE_MV, WINDOW_CAPACITY,
};

verus! {

/// The device name published before the first successful reading.
pub open spec fn placeholder_name() -> Seq<char> {
    "Unknown"@
}

/// The device name published once a supported mouse has answered.
pub open spec fn mouse_name() -> Seq<char> {
    "TUF GAMING MINI WL MOUSE MIKU"@
}

/// The battery properties that are published for the device.
#[derive(Debug, Clone)]
pub struct BatteryState {
    pub device_name: String,
    pub percentage: u8,
    pub status: String,
    pub time_to_full: u32,
    pub time_to_empty: u32,
    pub voltage_mv: u32,
    pub is_present: bool,
}

impl Default for BatteryState {
    fn default() -> (s: Self)
        ensures
            s.device_name@ == Seq::<char>::empty(),
            s.percentage == 0,
            s.status@ == Seq::<char>::empty(),
            s.time_to_full == 0,
            s.time_to_empty == 0,
            s.voltage_mv == 0,
            !s.is_present,
    {
        BatteryState {
            device_name: String::new(),
            percentage: 0,
            status: String::new(),
            time_to_full: 0,
            time_to_empty: 0,
            voltage_mv: 0,
            is_present: false,
        }
    }
}

impl BatteryState {
    /// The state published at start-up: no device yet, name and status unknown.
    pub fn initial() -> (s: Self)
        ensures
            s.device_name@ == placeholder_name(),
            s.percentage == 0,
            s.status@ == status_text(BatteryStatus::Unknown),
            s.time_to_full == 0,
            s.time_to_empty == 0,
            s.voltage_mv == 0,
            !s.is_present,
    {
        BatteryState {
            device_name: "Unknown".to_owned(),
            percentage: 0,
            status: BatteryStatus::Unknown.as_str().to_owned(),
            time_to_full: 0,
            time_to_empty: 0,
            voltage_mv: 0,
            is_present: false,
        }
    }
}

/// Which time estimate a reading calls for.
#[derive(Debug, Clone, Copy, PartialEq, Eq, Structural)]
pub enum Estimate {
    /// Neither: the battery is neither charging nor discharging.
    Neither,
    /// Time to empty, while discharging.
    TimeToEmpty,
    /// Time to full, while charging.
    TimeToFull,
}

/// The estimate that the effective status calls for.
pub open spec fn estimate_for(status: BatteryStatus) -> Estimate {
    match status {
        BatteryStatus::Discharging => Estimate::TimeToEmpty,
        BatteryStatus::Charging => Estimate::TimeToFull,
        _ => Estimate::Neither,
    }
}

/// The status to publish for a reading: a connected cable with a voltage
/// that keeps falling is not charging, whatever the device says.
pub open spec fn effective_status(reading: BatteryReading, cable: Option<bool>) -> BatteryStatus {
    if reading.cable_connected && cable == Some(false) {
        BatteryStatus::Discharging
    } else {
        reading.status
    }
}

/// What follows from one successful reading.
#[derive(Debug, Clone, Copy, PartialEq, Eq, Structural)]
pub struct PollOutcome {
    /// The status that was published.
    pub status: BatteryStatus,
    /// The cable is connected but the voltage is falling: a weak or faulty cable.
    pub weak_cable: bool,
    /// What the reading told the voltage window.
    pub push: PushOutcome,
    /// The time estimate to compute and record.
    pub estimate: Estimate,
    /// The device just became present and is to be announced.
    pub device_added: bool,
    /// The notifications to send.
    pub notifications: Notifications,
}

/// The abstract state of a [`Monitor`].
pub struct MonitorView {
    pub predictor: PredictorView,
    pub policy: PolicyView,
    pub present: bool,
}

/// The state that the poll loop carries from one cycle to the next.
pub struct Monitor {
    predictor: BatteryPredictor,
    policy: NotificationPolicy,
    present: bool,
}

impl View for Monitor {
    type V = MonitorView;

    closed spec fn view(&self) -> MonitorView {
        MonitorView { predictor: self.predictor@, policy: self.policy@, present: self.present }
    }
}

impl Monitor {
    /// No device yet: an empty window and both notifications armed.
    pub fn new() -> (m: Self)
        ensures
            m@.predictor.window == Seq::<Sample>::empty(),
            m@.predictor.last_status is None,
            m@.policy == armed(),
            !m@.present,
    {
        Monitor { predictor: BatteryPredictor::new(), policy: NotificationPolicy::new(), present: false }
    }

    /// The voltage window, for the estimates computed from it.
    pub fn predictor(&self) -> (p: &BatteryPredictor)
        ensures
            p@ == self@.predictor,
    {
        &self.predictor
    }

    /// A query failed: a present device is marked absent (and its removal is
    /// to be announced, which the result says), and the notifications re-arm.
    pub fn on_query_failed(&mut self, state: &mut BatteryState) -> (removed: bool)
        ensures
            removed == old(self)@.present,
            !final(self)@.present,
            final(self)@.policy == armed(),
            final(self)@.predictor == old(self)@.predictor,
            removed ==> {
                &&& !final(state).is_present
                &&& final(state).status@ == status_text(BatteryStatus::Unknown)
                &&& final(state).time_to_empty == 0
                &&& final(state).time_to_full == 0
                &&& final(state).device_name == old(state).device_name
                &&& final(state).percentage == old(state).percentage
                &&& final(state).voltage_mv == old(state).voltage_mv
            },
            !removed ==> *final(state) == *old(state),
    {
        let removed = self.present;
        if removed {
            state.is_present = false;
            state.status = BatteryStatus::Unknown.as_str().to_owned();
            state.time_to_empty = 0;
            state.time_to_full = 0;
            self.present = false;
        }
        self.policy.reset();
        removed
    }

    /// A reading arrived at `time_us`: publish it and decide what follows.
    /// The voltage window is fed the status the device reported, so that
    /// overriding a weak cable to discharging does not restart it and the
    /// cable keeps being judged against the same history. Both time
    /// estimates are left at zero; the one that `estimate` names is recorded
    /// with [`record_estimate`].
    pub fn on_reading(&mut self, state: &mut BatteryState, reading: BatteryReading, time_us: u64) -> (out: PollOutcome)
        ensures
            out.status == effective_status(reading, cable_charging(old(self)@.predictor.window)),
            out.weak_cable == (reading.cable_connected && cable_charging(old(self)@.predictor.window)
                == Some(false)),
            out.push.window_reset == direction_changed(
                old(self)@.predictor.last_status,
                reading.status,
            ),
            out.push.calibration == calibration_against(
                base_window(old(self)@.predictor, reading.status),
                reading.percentage,
                reading.voltage_mv,
            ),
            final(self)@.predictor == pushed(
                old(self)@.predictor,
                reading.status,
                Sample { time_us, percentage: reading.percentage, voltage_mv: reading.voltage_mv },
            ),
            out.push.fit == voltage_fit(final(self)@.predictor.window),
            out.estimate == estimate_for(out.status),
            out.estimate == Estimate::TimeToFull <==> out.status == BatteryStatus::Charging,
            out.estimate == Estimate::TimeToEmpty <==> out.status == BatteryStatus::Discharging,
            out.device_added == !old(self)@.present,
            final(self)@.present,
            out.notifications == notifications_for(old(self)@.policy, reading.percentage),
            final(self)@.policy == next_state(old(self)@.policy, reading.percentage),
            final(state).percentage == reading.percentage,
            final(state).status@ == status_text(out.status),
            final(state).voltage_mv == reading.voltage_mv as u32,
            final(state).time_to_empty == 0,
            final(state).time_to_full == 0,
            final(state).is_present,
            !old(self)@.present && old(state).device_name@ == placeholder_name()
                ==> final(state).device_name@ == mouse_name(),
            !(!old(self)@.present && old(state).device_name@ == placeholder_name())
                ==> final(state).device_name == old(state).device_name,
    {
        let cable = self.predictor.cable_is_charging();
        let weak_cable = reading.cable_connected && match cable {
            Some(false) => true,
            _ => false,
        };
        let status = if weak_cable {
            BatteryStatus::Discharging
        } else {
            reading.status
        };
        let push = self.predictor.push(reading.percentage, reading.voltage_mv, reading.status, time_us);
        let estimate = match status {
            BatteryStatus::Discharging => Estimate::TimeToEmpty,
            BatteryStatus::Charging => Estimate::TimeToFull,
            _ => Estimate::Neither,
        };
        state.percentage = reading.percentage;
        state.status = status.as_str().to_owned();
        state.time_to_empty = 0;
        state.time_to_full = 0;
        state.voltage_mv = reading.voltage_mv as u32;
        state.is_present = true;
        let device_added = !self.present;
        if device_added {
            let unknown = "Unknown".to_owned();
            if state.device_name == unknown {
                state.device_name = "TUF GAMING MINI WL MOUSE MIKU".to_owned();
            }
            self.present = true;
        }
        let notifications = self.policy.update(reading.percentage);
        PollOutcome { status, weak_cable, push, estimate, device_added, notifications }
    }
}

/// Record the time estimate that a reading called for, in seconds; the
/// other estimate is zero.
pub fn record_estimate(state: &mut BatteryState, estimate: Estimate, seconds: u32)
    ensures
        final(state).time_to_empty == (if estimate == Estimate::TimeToEmpty {
            seconds
        } else {
            0
        }),
        final(state).time_to_full == (if estimate == Estimate::TimeToFull {
            seconds
        } else {
            0
        }),
        final(state).device_name == old(state).device_name,
        final(state).percentage == old(state).percentage,
        final(state).status == old(state).status,
        final(state).voltage_mv == old(state).voltage_mv,
        final(state).is_present == old(state).is_present,
{
    match estimate {
        Estimate::TimeToEmpty => {
            state.time_to_empty = seconds;
            state.time_to_full = 0;
        },
        Estimate::TimeToFull => {
            state.time_to_empty = 0;
            state.time_to_full = seconds;
        },
        Estimate::Neither => {
            state.time_to_empty = 0;
            state.time_to_full = 0;
        },
    }
}

// ---------------------------------------------------------------------------
// Laws over sequences of polls
// ---------------------------------------------------------------------------

/// The notification policy of a [`Monitor`] after a sequence of polls, from
/// start-up: `None` is a failed query (`on_query_failed` re-arms both
/// alerts), `Some(p)` a reading of `p` percent (`on_reading` steps the
/// policy).
pub open spec fn policy_after_polls(polls: Seq<Option<u8>>) -> PolicyView
    decreases polls.len(),
{
    if polls.len() == 0 {
        armed()
    } else {
        match polls.last() {
            None => armed(),
            Some(p) => next_state(policy_after_polls(polls.drop_last()), p),
        }
    }
}

/// The low alert is sent on poll `k`.
pub open spec fn low_sent_at(polls: Seq<Option<u8>>, k: int) -> bool {
    polls[k] matches Some(p) && fires_low(policy_after_polls(polls.take(k)), p)
}

/// The full alert is sent on poll `k`.
pub open spec fn full_sent_at(polls: Seq<Option<u8>>, k: int) -> bool {
    polls[k] matches Some(p) && fires_full(policy_after_polls(polls.take(k)), p)
}

/// Poll `k` re-arms the low alert: a failed query or a reading above 20%.
pub open spec fn rearms_low(poll: Option<u8>) -> bool {
    poll matches Some(p) ==> p > LOW_REARM
}

/// Poll `k` re-arms the full alert: a failed query or a reading below 95%.
pub open spec fn rearms_full(poll: Option<u8>) -> bool {
    poll matches Some(p) ==> p < FULL_REARM
}

/// The last poll before `k` that re-armed the low alert, or -1 for start-up.
pub open spec fn last_low_rearm(polls: Seq<Option<u8>>, k: int) -> int
    decreases k,
{
    if k <= 0 {
        -1
    } else if rearms_low(polls[k - 1]) {
        k - 1
    } else {
        last_low_rearm(polls, k - 1)
    }
}

/// The last poll before `k` that re-armed the full alert, or -1 for start-up.
pub open spec fn last_full_rearm(polls: Seq<Option<u8>>, k: int) -> int
    decreases k,
{
    if k <= 0 {
        -1
    } else if rearms_full(polls[k - 1]) {
        k - 1
    } else {
        last_full_rearm(polls, k - 1)
    }
}

proof fn lemma_last_rearm_before(polls: Seq<Option<u8>>, k: int)
    ensures
        k >= 0 ==> last_low_rearm(polls, k) < k && last_full_rearm(polls, k) < k,
    decreases k,
{
    if k > 0 {
        lemma_last_rearm_before(polls, k - 1);
    }
}

proof fn lemma_policy_after_polls_step(polls: Seq<Option<u8>>, k: int)
    requires
        0 <= k < polls.len(),
    ensures
        policy_after_polls(polls.take(k + 1)) == (match polls[k] {
            None => armed(),
            Some(p) => next_state(policy_after_polls(polls.take(k)), p),
        }),
{
    assert(polls.take(k + 1).drop_last() =~= polls.take(k));
    assert(polls.take(k + 1).last() == polls[k]);
}

proof fn lemma_low_spent_since_rearm(polls: Seq<Option<u8>>, k: int)
    requires
        0 <= k <= polls.len(),
    ensures
        policy_after_polls(polls.take(k)).low_notified <==> exists|j: int|
            last_low_rearm(polls, k) < j < k && #[trigger] low_sent_at(polls, j),
    decreases k,
{
    if k > 0 {
        lemma_low_spent_since_rearm(polls, k - 1);
        lemma_policy_after_polls_step(polls, k - 1);
        if !rearms_low(polls[k - 1]) {
            assert forall|j: int| last_low_rearm(polls, k) < j < k && #[trigger] low_sent_at(polls, j)
                implies j == k - 1 || (last_low_rearm(polls, k - 1) < j < k - 1 && low_sent_at(polls, j)) by {}
            if low_sent_at(polls, k - 1) {
                lemma_last_rearm_before(polls, k - 1);
                assert(last_low_rearm(polls, k) < k - 1 < k);
            }
        }
    } else {
        assert(polls.take(0) =~= Seq::<Option<u8>>::empty());
    }
}

proof fn lemma_full_spent_since_rearm(polls: Seq<Option<u8>>, k: int)
    requires
        0 <= k <= polls.len(),
    ensures
        policy_after_polls(polls.take(k)).full_notified <==> exists|j: int|
            last_full_rearm(polls, k) < j < k && #[trigger] full_sent_at(polls, j),
    decreases k,
{
    if k > 0 {
        lemma_full_spent_since_rearm(polls, k - 1);
        lemma_policy_after_polls_step(polls, k - 1);
        if !rearms_full(polls[k - 1]) {
            assert forall|j: int| last_full_rearm(polls, k) < j < k && #[trigger] full_sent_at(polls, j)
                implies j == k - 1 || (last_full_rearm(polls, k - 1) < j < k - 1 && full_sent_at(polls, j)) by {}
            if full_sent_at(polls, k - 1) {
                lemma_last_rearm_before(polls, k - 1);
                assert(last_full_rearm(polls, k) < k - 1 < k);
            }
        }
    } else {
        assert(polls.take(0) =~= Seq::<Option<u8>>::empty());
    }
}

/// Across polls, failures included, the low alert is sent on poll `k`
/// exactly when that poll is a reading of at most 10% and no low alert was
/// sent since the last of: start-up, a failed query, a reading above 20%.
/// The status the device reports plays no part.
pub proof fn lemma_low_alert_over_polls(polls: Seq<Option<u8>>, k: int)
    requires
        0 <= k < polls.len(),
    ensures
        low_sent_at(polls, k) <==> (polls[k] matches Some(p) && p <= LOW_THRESHOLD && !exists|j: int|
            last_low_rearm(polls, k) < j < k && #[trigger] low_sent_at(polls, j)),
{
    lemma_low_spent_since_rearm(polls, k);
}

/// Across polls, failures included, the full alert is sent on poll `k`
/// exactly when that poll is a reading of at least 100% and no full alert
/// was sent since the last of: start-up, a failed query, a reading below 95%.
/// The status the device reports plays no part.
pub proof fn lemma_full_alert_over_polls(polls: Seq<Option<u8>>, k: int)
    requires
        0 <= k < polls.len(),
    ensures
        full_sent_at(polls, k) <==> (polls[k] matches Some(p) && p >= FULL_THRESHOLD && !exists|j: int|
            last_full_rearm(polls, k) < j < k && #[trigger] full_sent_at(polls, j)),
{
    lemma_full_spent_since_rearm(polls, k);
}

/// The voltage window of a [`Monitor`] after readings `rs` taken at times
/// `ts`, fed from `v` by `on_reading` (which pushes each reading with the
/// status the device reported).
pub open spec fn predictor_after(v: PredictorView, rs: Seq<BatteryReading>, ts: Seq<u64>) -> PredictorView
    decreases rs.len(),
{
    if rs.len() == 0 || ts.len() != rs.len() {
        v
    } else {
        pushed(
            predictor_after(v, rs.drop_last(), ts.drop_last()),
            rs.last().status,
            Sample { time_us: ts.last(), percentage: rs.last().percentage, voltage_mv: rs.last().voltage_mv },
        )
    }
}

/// The samples that readings `rs` at times `ts` make.
pub open spec fn samples_of(rs: Seq<BatteryReading>, ts: Seq<u64>) -> Seq<Sample> {
    Seq::new(
        rs.len(),
        |i: int| Sample { time_us: ts[i], percentage: rs[i].percentage, voltage_mv: rs[i].voltage_mv },
    )
}

/// The window of a new monitor.
pub open spec fn empty_predictor() -> PredictorView {
    PredictorView { window: Seq::empty(), last_status: None }
}

proof fn lemma_same_status_window(rs: Seq<BatteryReading>, ts: Seq<u64>, n: int)
    requires
        rs.len() == ts.len(),
        0 <= n <= rs.len(),
        forall|i: int| 0 <= i < rs.len() ==> (#[trigger] rs[i]).status == rs[0].status,
    ensures
        predictor_after(empty_predictor(), rs.take(n), ts.take(n)).window == window_after(
            Seq::empty(),
            samples_of(rs.take(n), ts.take(n)),
        ),
        n > 0 ==> predictor_after(empty_predictor(), rs.take(n), ts.take(n)).last_status == Some(rs[0].status),
        n == 0 ==> predictor_after(empty_predictor(), rs.take(n), ts.take(n)).last_status is None,
    decreases n,
{
    if n > 0 {
        lemma_same_status_window(rs, ts, n - 1);
        assert(rs.take(n).drop_last() =~= rs.take(n - 1));
        assert(ts.take(n).drop_last() =~= ts.take(n - 1));
        assert(rs.take(n).last() == rs[n - 1]);
        assert(samples_of(rs.take(n), ts.take(n)).drop_last() =~= samples_of(rs.take(n - 1), ts.take(n - 1)));
    } else {
        assert(samples_of(rs.take(0), ts.take(0)) =~= Seq::<Sample>::empty());
    }
}

proof fn lemma_falling_voltage(rs: Seq<BatteryReading>, a: int, b: int)
    requires
        0 <= a < b < rs.len(),
        forall|i: int| 0 <= i < rs.len() - 1 ==> (#[trigger] rs[i + 1]).voltage_mv + WEAK_CABLE_MV < rs[i].voltage_mv,
    ensures
        rs[b].voltage_mv + WEAK_CABLE_MV < rs[a].voltage_mv,
    decreases b - a,
{
    if b > a + 1 {
        lemma_falling_voltage(rs, a, b - 1);
        assert(rs[(b - 1) + 1].voltage_mv + WEAK_CABLE_MV < rs[b - 1].voltage_mv);
    } else {
        assert(rs[a + 1].voltage_mv + WEAK_CABLE_MV < rs[a].voltage_mv);
    }
}

/// A weak cable stays reported as discharging: with the cable connected,
/// the device reporting one status throughout, and the voltage falling by
/// more than 30 mV from each reading to the next, every reading from the
/// third on is published as discharging.
pub proof fn lemma_weak_cable_stays_discharging(rs: Seq<BatteryReading>, ts: Seq<u64>, k: int)
    requires
        rs.len() == ts.len(),
        2 <= k < rs.len(),
        forall|i: int| 0 <= i < rs.len() ==> (#[trigger] rs[i]).cable_connected,
        forall|i: int| 0 <= i < rs.len() ==> (#[trigger] rs[i]).status == rs[0].status,
        forall|i: int| 0 <= i < rs.len() - 1 ==> (#[trigger] rs[i + 1]).voltage_mv + WEAK_CABLE_MV < rs[i].voltage_mv,
    ensures
        effective_status(
            rs[k],
            cable_charging(predictor_after(empty_predictor(), rs.take(k), ts.take(k)).window),
        ) == BatteryStatus::Discharging,
{
    lemma_same_status_window(rs, ts, k);
    let ss = samples_of(rs.take(k), ts.take(k));
    lemma_window_keeps_latest(ss);
    let off: int = if ss.len() > WINDOW_CAPACITY {
        ss.len() - WINDOW_CAPACITY
    } else {
        0
    };
    let w = ss.skip(off);
    assert(w.len() >= 2);
    assert(w[0] == ss[off]);
    assert(w.last() == ss[k - 1]);
    lemma_falling_voltage(rs, off, k - 1);
    assert(rs[k].cable_connected);
}

/// Whether the device is present after a sequence of polls from start-up:
/// `on_reading` leaves it present and `on_query_failed` absent.
pub open spec fn present_after_polls(polls: Seq<Option<u8>>) -> bool {
    polls.len() > 0 && polls.last() is Some
}

/// Poll `k` announces the device as added (`on_reading` with the device absent).
pub open spec fn added_at(polls: Seq<Option<u8>>, k: int) -> bool {
    polls[k] is Some && !present_after_polls(polls.take(k))
}

/// Poll `k` announces the device as removed (`on_query_failed` with the
/// device present).
pub open spec fn removed_at(polls: Seq<Option<u8>>, k: int) -> bool {
    polls[k] is None && present_after_polls(polls.take(k))
}

proof fn lemma_present_after_prefix(polls: Seq<Option<u8>>, k: int)
    requires
        0 <= k <= polls.len(),
    ensures
        present_after_polls(polls.take(k)) <==> (k > 0 && polls[k - 1] is Some),
{
    if k > 0 {
        assert(polls.take(k).last() == polls[k - 1]);
    }
}

/// Between a reading at `a` and a failure at `b` there is a first failure
/// right after a reading.
proof fn lemma_first_failure_after(polls: Seq<Option<u8>>, a: int, b: int) -> (m: int)
    requires
        0 <= a < b < polls.len(),
        polls[a] is Some,
        polls[b] is None,
    ensures
        a < m <= b,
        polls[m] is None,
        polls[m - 1] is Some,
    decreases b - a,
{
    if polls[a + 1] is None {
        a + 1
    } else {
        lemma_first_failure_after(polls, a + 1, b)
    }
}

/// Between a failure at `a` and a reading at `b` there is a first reading
/// right after a failure.
proof fn lemma_first_reading_after(polls: Seq<Option<u8>>, a: int, b: int) -> (m: int)
    requires
        0 <= a < b < polls.len(),
        polls[a] is None,
        polls[b] is Some,
    ensures
        a < m <= b,
        polls[m] is Some,
        polls[m - 1] is None,
    decreases b - a,
{
    if polls[a + 1] is Some {
        a + 1
    } else {
        lemma_first_reading_after(polls, a + 1, b)
    }
}

/// DeviceAdded and DeviceRemoved strictly alternate, starting with
/// DeviceAdded: between two additions there is a removal, between two
/// removals an addition, and every removal follows an addition.
pub proof fn lemma_presence_announcements_alternate(polls: Seq<Option<u8>>, i: int, j: int)
    requires
        0 <= i < j < polls.len(),
    ensures
        added_at(polls, i) && added_at(polls, j) ==> exists|m: int| i < m < j && #[trigger] removed_at(polls, m),
        removed_at(polls, i) && removed_at(polls, j) ==> exists|m: int| i < m < j && #[trigger] added_at(polls, m),
        removed_at(polls, j) ==> exists|m: int| 0 <= m < j && #[trigger] added_at(polls, m),
{
    lemma_present_after_prefix(polls, i);
    lemma_present_after_prefix(polls, j);
    if added_at(polls, i) && added_at(polls, j) {
        let m = lemma_first_failure_after(polls, i, j - 1);
        lemma_present_after_prefix(polls, m);
        assert(removed_at(polls, m));
    }
    if removed_at(polls, i) && removed_at(polls, j) {
        let m = lemma_first_reading_after(polls, i, j - 1);
        lemma_present_after_prefix(polls, m);
        assert(added_at(polls, m));
    }
    if removed_at(polls, j) {
        if polls[0] is Some {
            lemma_present_after_prefix(polls, 0);
            assert(added_at(polls, 0));
        } else {
            let m = lemma_first_reading_after(polls, 0, j - 1);
            lemma_present_after_prefix(polls, m);
            assert(added_at(polls, m));
        }
    }
}

/// Each estimate belongs to one direction: time to full exactly while
/// charging, time to empty exactly while discharging, and neither for a
/// fully-charged or unknown status.
pub proof fn lemma_estimate_follows_direction(status: BatteryStatus)
    ensures
        estimate_for(status) == Estimate::TimeToFull <==> status == BatteryStatus::Charging,
        estimate_for(status) == Estimate::TimeToEmpty <==> status == BatteryStatus::Discharging,
        estimate_for(status) == Estimate::Neither <==> (status == BatteryStatus::FullyCharged
            || status == BatteryStatus::Unknown),
{
}

/// A reading published as charging always has its time to full recorded,
/// and one published as discharging its time to empty: whatever the
/// monitor's state, `on_reading` asks for the estimate of the direction it
/// publishes, and `record_estimate` then leaves the other one at zero.
pub proof fn lemma_published_direction_gets_its_estimate(
    reading: BatteryReading,
    cable: Option<bool>,
)
    ensures
        effective_status(reading, cable) == BatteryStatus::Charging ==> estimate_for(
            effective_status(reading, cable),
        ) == Estimate::TimeToFull,
        effective_status(reading, cable) == BatteryStatus::Discharging ==> estimate_for(
            effective_status(reading, cable),
        ) == Estimate::TimeToEmpty,
        reading.status == BatteryStatus::Charging && !reading.cable_connected ==> estimate_for(
            effective_status(reading, cable),
        ) == Estimate::TimeToFull,
{
}

/// The published status is the device's own, except that a connected cable
/// whose voltage has fallen by more than 30 mV across the window is
/// published as discharging.
pub proof fn lemma_effective_status(reading: BatteryReading, w: Seq<Sample>)
    ensures
        !reading.cable_connected ==> effective_status(reading, cable_charging(w)) == reading.status,
        w.len() < 2 ==> effective_status(reading, cable_charging(w)) == reading.status,
        reading.cable_connected && w.len() >= 2 && w[w.len() - 1].voltage_mv + 30 < w[0].voltage_mv
            ==> effective_status(reading, cable_charging(w)) == BatteryStatus::Discharging,
        w.len() >= 2 && w[w.len() - 1].voltage_mv + 30 >= w[0].voltage_mv ==> effective_status(
            reading,
            cable_charging(w),
        ) == reading.status,
{
}

} // verus!
