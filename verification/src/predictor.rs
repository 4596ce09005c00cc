//! The sliding window of battery readings behind the time estimates and
//! the weak-cable check.
//!
//! The window keeps up to one hour of readings (720 at the default 5 s
//! poll) and restarts whenever the charge direction changes. Each push
//! reports what the smoothing that follows needs: whether the window was
//! restarted, a percentage tick to calibrate millivolts per percent against,
//! and the exact least-squares fit of voltage over time.
use vstd::prelude::*;

use crate::hid::BatteryStatus;

verus! {

/// The window holds at most this many readings (1 hour at 5 s/poll).
pub const WINDOW_CAPACITY: usize = 720;

/// Estimates need at least this much history, in microseconds (2 minutes).
pub const MIN_WINDOW_US: u64 = 120_000_000;

/// A voltage fit needs the window to span at least this long (1 second).
pub const MIN_FIT_SPAN_US: u64 = 1_000_000;

/// Readings further than this from the oldest one (about 285 years) are
/// not fitted.
pub const MAX_FIT_OFFSET_US: u64 = 9_007_199_254_740_992;

/// A fit whose denominator, in square microseconds, is below this is
/// degenerate (1e-9 square seconds).
pub const MIN_FIT_DENOMINATOR: i128 = 1_000;

/// A voltage drop across the window of more than this many millivolts
/// means a connected cable is not delivering charge.
pub const WEAK_CABLE_MV: i32 = 30;

/// One reading in the window.
#[derive(Debug, Clone, Copy, PartialEq, Eq, Structural)]
pub struct Sample {
    /// When the reading was taken, in microseconds on a monotonic clock.
    pub time_us: u64,
    pub percentage: u8,
    pub voltage_mv: u16,
}

/// A percentage tick that agrees in direction with the voltage change:
/// `delta_mv` millivolts over `delta_pct` percentage points.
#[derive(Debug, Clone, Copy, PartialEq, Eq, Structural)]
pub struct Calibration {
    pub delta_mv: u32,
    pub delta_pct: u16,
}

/// The least-squares slope of voltage over time across the window:
/// `numerator / denominator` millivolts per microsecond.
#[derive(Debug, Clone, Copy, PartialEq, Eq, Structural)]
pub struct VoltageFit {
    pub numerator: i128,
    pub denominator: i128,
}

/// What one push tells the smoothing that follows it.
#[derive(Debug, Clone, Copy, PartialEq, Eq, Structural)]
pub struct PushOutcome {
    /// The charge direction changed: the window restarted, and any smoothed
    /// rate belongs to the old direction.
    pub window_reset: bool,
    /// Measured against the oldest reading of the window.
    pub calibration: Option<Calibration>,
    /// The fit over the window after the push.
    pub fit: Option<VoltageFit>,
}

/// The abstract state of a [`BatteryPredictor`].
pub struct PredictorView {
    pub window: Seq<Sample>,
    pub last_status: Option<BatteryStatus>,
}

/// The charge direction flips between the previous push and this one:
/// charging after discharging, or discharging after charging. Any other
/// change of status (to or from unknown or fully charged, as around a sleep
/// and wake of the mouse) keeps the window.
pub open spec fn direction_changed(last: Option<BatteryStatus>, status: BatteryStatus) -> bool {
    ||| last == Some(BatteryStatus::Charging) && status == BatteryStatus::Discharging
    ||| last == Some(BatteryStatus::Discharging) && status == BatteryStatus::Charging
}

/// The window a push starts from: empty after a direction change.
pub open spec fn base_window(v: PredictorView, status: BatteryStatus) -> Seq<Sample> {
    if direction_changed(v.last_status, status) {
        Seq::empty()
    } else {
        v.window
    }
}

/// The state after pushing `sample` with status `status` in state `v`.
pub open spec fn pushed(v: PredictorView, status: BatteryStatus, sample: Sample) -> PredictorView {
    PredictorView { window: appended(base_window(v, status), sample), last_status: Some(status) }
}

/// `w` with `s` appended, the oldest reading dropped when `w` is full.
pub open spec fn appended(w: Seq<Sample>, s: Sample) -> Seq<Sample> {
    if w.len() >= WINDOW_CAPACITY {
        w.drop_first().push(s)
    } else {
        w.push(s)
    }
}

pub open spec fn sign(x: int) -> int {
    if x > 0 {
        1
    } else if x < 0 {
        -1
    } else {
        0
    }
}

pub open spec fn abs(x: int) -> int {
    if x < 0 {
        -x
    } else {
        x
    }
}

/// The calibration sample a reading yields against the oldest reading of
/// `w`: present when the percentage moved and the voltage moved the same way.
pub open spec fn calibration_against(w: Seq<Sample>, percentage: u8, voltage_mv: u16) -> Option<Calibration> {
    if w.len() == 0 {
        None
    } else {
        let dp: int = percentage - w[0].percentage;
        let dv: int = voltage_mv - w[0].voltage_mv;
        if dp != 0 && sign(dp) == sign(dv) {
            Some(Calibration { delta_mv: abs(dv) as u32, delta_pct: abs(dp) as u16 })
        } else {
            None
        }
    }
}

/// Time of `s` after `t0`, zero where it is earlier.
pub open spec fn offset(s: Sample, t0: u64) -> int {
    if s.time_us >= t0 {
        s.time_us - t0
    } else {
        0
    }
}

pub open spec fn sum_t(w: Seq<Sample>, t0: u64) -> int
    decreases w.len(),
{
    if w.len() == 0 {
        0
    } else {
        sum_t(w.drop_last(), t0) + offset(w.last(), t0)
    }
}

pub open spec fn sum_v(w: Seq<Sample>) -> int
    decreases w.len(),
{
    if w.len() == 0 {
        0
    } else {
        sum_v(w.drop_last()) + w.last().voltage_mv
    }
}

pub open spec fn sum_tt(w: Seq<Sample>, t0: u64) -> int
    decreases w.len(),
{
    if w.len() == 0 {
        0
    } else {
        sum_tt(w.drop_last(), t0) + offset(w.last(), t0) * offset(w.last(), t0)
    }
}

pub open spec fn sum_tv(w: Seq<Sample>, t0: u64) -> int
    decreases w.len(),
{
    if w.len() == 0 {
        0
    } else {
        sum_tv(w.drop_last(), t0) + offset(w.last(), t0) * w.last().voltage_mv
    }
}

/// Time from the oldest to the newest reading of `w`, zero where there is
/// none or it is negative.
pub open spec fn window_span(w: Seq<Sample>) -> int {
    if w.len() == 0 {
        0
    } else {
        offset(w.last(), w[0].time_us)
    }
}

/// Numerator of the least-squares slope: n·Σtv − Σt·Σv, with t measured
/// from the oldest reading.
pub open spec fn fit_numerator(w: Seq<Sample>) -> int {
    w.len() * sum_tv(w, w[0].time_us) - sum_t(w, w[0].time_us) * sum_v(w)
}

/// Denominator of the least-squares slope: n·Σt² − (Σt)².
pub open spec fn fit_denominator(w: Seq<Sample>) -> int {
    w.len() * sum_tt(w, w[0].time_us) - sum_t(w, w[0].time_us) * sum_t(w, w[0].time_us)
}

/// The least-squares fit of voltage over time across `w`: none with fewer
/// than two readings, a span under one second, a reading too far from the
/// oldest, or a degenerate denominator.
pub open spec fn voltage_fit(w: Seq<Sample>) -> Option<VoltageFit> {
    if w.len() < 2 || window_span(w) < MIN_FIT_SPAN_US || exists|k: int|
        0 <= k < w.len() && #[trigger] offset(w[k], w[0].time_us) > MAX_FIT_OFFSET_US {
        None
    } else if fit_denominator(w) < MIN_FIT_DENOMINATOR {
        None
    } else {
        Some(VoltageFit { numerator: fit_numerator(w) as i128, denominator: fit_denominator(w) as i128 })
    }
}

/// `w2` holds readings at the same times as `w`, each `c` millivolts higher.
pub open spec fn shifted_by(w: Seq<Sample>, w2: Seq<Sample>, c: int) -> bool {
    &&& w2.len() == w.len()
    &&& forall|i: int| 0 <= i < w.len() ==> (#[trigger] w2[i]).time_us == w[i].time_us
    &&& forall|i: int| 0 <= i < w.len() ==> (#[trigger] w2[i]).voltage_mv == w[i].voltage_mv + c
}

proof fn lemma_sums_shifted(w: Seq<Sample>, w2: Seq<Sample>, c: int, t0: u64)
    requires
        shifted_by(w, w2, c),
    ensures
        sum_t(w2, t0) == sum_t(w, t0),
        sum_tt(w2, t0) == sum_tt(w, t0),
        sum_v(w2) == sum_v(w) + c * w.len(),
        sum_tv(w2, t0) == sum_tv(w, t0) + c * sum_t(w, t0),
    decreases w.len(),
{
    if w.len() > 0 {
        let n = w.len() - 1;
        assert(shifted_by(w.drop_last(), w2.drop_last(), c)) by {
            assert forall|i: int| 0 <= i < n implies (#[trigger] w2.drop_last()[i]).time_us
                == w.drop_last()[i].time_us && w2.drop_last()[i].voltage_mv == w.drop_last()[i].voltage_mv
                + c by {
                assert(w2.drop_last()[i] == w2[i] && w.drop_last()[i] == w[i]);
            }
        }
        lemma_sums_shifted(w.drop_last(), w2.drop_last(), c, t0);
        let o = offset(w.last(), t0);
        assert(w2.last().time_us == w.last().time_us && w2.last().voltage_mv == w.last().voltage_mv + c) by {
            assert(w2.last() == w2[n] && w.last() == w[n]);
        }
        let vl: int = w.last().voltage_mv as int;
        let st = sum_t(w.drop_last(), t0);
        assert(o * (vl + c) == o * vl + c * o) by (nonlinear_arith);
        assert(c * n + c == c * w.len()) by (nonlinear_arith)
            requires
                n == w.len() - 1,
        ;
        assert(c * st + c * o == c * (st + o)) by (nonlinear_arith);
    }
}

/// The fit ignores a constant offset of the voltages: readings at the same
/// times, all `c` millivolts higher, give the same slope.
pub proof fn lemma_fit_shift_invariant(w: Seq<Sample>, w2: Seq<Sample>, c: int)
    requires
        w.len() > 0,
        shifted_by(w, w2, c),
    ensures
        fit_numerator(w2) == fit_numerator(w),
        fit_denominator(w2) == fit_denominator(w),
        voltage_fit(w2) == voltage_fit(w),
{
    assert(w2[0].time_us == w[0].time_us);
    let t0 = w[0].time_us;
    lemma_sums_shifted(w, w2, c, t0);
    let n: int = w.len() as int;
    let st = sum_t(w, t0);
    let sv = sum_v(w);
    let stv = sum_tv(w, t0);
    assert(n * (stv + c * st) - st * (sv + c * n) == n * stv - st * sv) by (nonlinear_arith);
    if w.len() >= 1 {
        let last = w.len() - 1;
        assert(w2.last() == w2[last] && w.last() == w[last]);
    }
    assert forall|k: int| 0 <= k < w.len() implies #[trigger] offset(w2[k], w2[0].time_us) == offset(
        w[k],
        w[0].time_us,
    ) by {}
    if exists|k: int| 0 <= k < w.len() && #[trigger] offset(w[k], w[0].time_us) > MAX_FIT_OFFSET_US {
        let k = choose|k: int| 0 <= k < w.len() && #[trigger] offset(w[k], w[0].time_us) > MAX_FIT_OFFSET_US;
        assert(offset(w2[k], w2[0].time_us) > MAX_FIT_OFFSET_US);
    }
    if exists|k: int| 0 <= k < w2.len() && #[trigger] offset(w2[k], w2[0].time_us) > MAX_FIT_OFFSET_US {
        let k = choose|k: int| 0 <= k < w2.len() && #[trigger] offset(w2[k], w2[0].time_us) > MAX_FIT_OFFSET_US;
        assert(offset(w[k], w[0].time_us) > MAX_FIT_OFFSET_US);
    }
}

proof fn lemma_sums_on_line(w: Seq<Sample>, t0: u64, q: int, a: int, b: int)
    requires
        forall|i: int| 0 <= i < w.len() ==> q * (#[trigger] w[i]).voltage_mv == a + b * offset(w[i], t0),
    ensures
        q * sum_v(w) == a * w.len() + b * sum_t(w, t0),
        q * sum_tv(w, t0) == a * sum_t(w, t0) + b * sum_tt(w, t0),
    decreases w.len(),
{
    if w.len() > 0 {
        let n = w.len() - 1;
        assert forall|i: int| 0 <= i < n implies q * (#[trigger] w.drop_last()[i]).voltage_mv == a + b
            * offset(w.drop_last()[i], t0) by {
            assert(w.drop_last()[i] == w[i]);
        }
        lemma_sums_on_line(w.drop_last(), t0, q, a, b);
        assert(w.last() == w[n]);
        let o = offset(w.last(), t0);
        let v: int = w.last().voltage_mv as int;
        let sv = sum_v(w.drop_last());
        let st = sum_t(w.drop_last(), t0);
        let stt = sum_tt(w.drop_last(), t0);
        let stv = sum_tv(w.drop_last(), t0);
        assert(sum_v(w) == sv + v);
        assert(sum_t(w, t0) == st + o);
        assert(sum_tt(w, t0) == stt + o * o);
        assert(sum_tv(w, t0) == stv + o * v);
        assert(q * (sv + v) == q * sv + q * v) by (nonlinear_arith);
        assert(a * (n + 1) + b * (st + o) == a * n + b * st + a + b * o) by (nonlinear_arith);
        assert(q * (stv + o * v) == q * stv + o * (q * v)) by (nonlinear_arith);
        assert(o * (a + b * o) == a * o + b * (o * o)) by (nonlinear_arith);
        assert(a * (st + o) + b * (stt + o * o) == a * st + b * stt + a * o + b * (o * o)) by (nonlinear_arith);
    }
}

/// The fit is exact on readings that lie on a line: where `q·v = a + b·t`
/// for every reading (`t` measured from the oldest), the slope
/// `numerator / denominator` is `b / q`.
pub proof fn lemma_fit_exact_on_line(w: Seq<Sample>, q: int, a: int, b: int)
    requires
        w.len() > 0,
        forall|i: int| 0 <= i < w.len() ==> q * (#[trigger] w[i]).voltage_mv == a + b * offset(w[i], w[0].time_us),
    ensures
        q * fit_numerator(w) == b * fit_denominator(w),
{
    let t0 = w[0].time_us;
    lemma_sums_on_line(w, t0, q, a, b);
    let n: int = w.len() as int;
    let st = sum_t(w, t0);
    let sv = sum_v(w);
    let stt = sum_tt(w, t0);
    let stv = sum_tv(w, t0);
    assert(q * (n * stv - st * sv) == n * (q * stv) - st * (q * sv)) by (nonlinear_arith);
    assert(n * (a * st + b * stt) == a * (n * st) + b * (n * stt)) by (nonlinear_arith);
    assert(st * (a * n + b * st) == a * (n * st) + b * (st * st)) by (nonlinear_arith);
    assert(b * (n * stt - st * st) == b * (n * stt) - b * (st * st)) by (nonlinear_arith);
}

/// Whether a connected cable delivers charge: the voltage has not fallen by
/// more than the weak-cable margin across the window. Undecided with fewer
/// than two readings.
pub open spec fn cable_charging(w: Seq<Sample>) -> Option<bool> {
    if w.len() < 2 {
        None
    } else {
        Some(w.last().voltage_mv - w[0].voltage_mv >= -WEAK_CABLE_MV)
    }
}

/// The window after appending the readings of `ss`, in order, to `w`.
pub open spec fn window_after(w: Seq<Sample>, ss: Seq<Sample>) -> Seq<Sample>
    decreases ss.len(),
{
    if ss.len() == 0 {
        w
    } else {
        appended(window_after(w, ss.drop_last()), ss.last())
    }
}

/// The window is a ring buffer of the latest readings: appending readings
/// one by one to an empty window leaves exactly the last 720 of them, in
/// order.
pub proof fn lemma_window_keeps_latest(ss: Seq<Sample>)
    ensures
        window_after(Seq::empty(), ss) == ss.skip(
            if ss.len() > WINDOW_CAPACITY {
                ss.len() - WINDOW_CAPACITY
            } else {
                0
            },
        ),
    decreases ss.len(),
{
    if ss.len() > 0 {
        let pre = ss.drop_last();
        lemma_window_keeps_latest(pre);
        let k: int = if pre.len() > WINDOW_CAPACITY {
            pre.len() - WINDOW_CAPACITY
        } else {
            0
        };
        let w = pre.skip(k);
        if w.len() >= WINDOW_CAPACITY {
            assert(w.drop_first().push(ss.last()) =~= ss.skip(k + 1));
        } else {
            assert(w.push(ss.last()) =~= ss.skip(0));
        }
    }
}

// ---------------------------------------------------------------------------
// Laws of a single push
// ---------------------------------------------------------------------------

/// A flip of the charge direction, either way, restarts the window: after
/// charging a discharging reading (a cable unplugged), or after discharging
/// a charging one (a cable plugged in), the window holds only the new
/// reading, the push reports a reset and takes no calibration sample.
pub proof fn lemma_flip_restarts_window(v: PredictorView, status: BatteryStatus, s: Sample)
    requires
        (v.last_status == Some(BatteryStatus::Charging) && status == BatteryStatus::Discharging)
            || (v.last_status == Some(BatteryStatus::Discharging) && status
            == BatteryStatus::Charging),
    ensures
        direction_changed(v.last_status, status),
        pushed(v, status, s).window == seq![s],
        pushed(v, status, s).last_status == Some(status),
        calibration_against(base_window(v, status), s.percentage, s.voltage_mv) is None,
{
    assert(Seq::<Sample>::empty().push(s) =~= seq![s]);
}

/// Any other push keeps the window: unless charging and discharging flip,
/// the new reading is appended to the old window (dropping the oldest one
/// only when the window is full), and no reset is reported.
pub proof fn lemma_same_direction_keeps_window(v: PredictorView, status: BatteryStatus, s: Sample)
    requires
        !(v.last_status == Some(BatteryStatus::Charging) && status == BatteryStatus::Discharging),
        !(v.last_status == Some(BatteryStatus::Discharging) && status == BatteryStatus::Charging),
    ensures
        !direction_changed(v.last_status, status),
        v.window.len() < WINDOW_CAPACITY ==> pushed(v, status, s).window == v.window.push(s),
        v.window.len() >= WINDOW_CAPACITY ==> pushed(v, status, s).window == v.window.drop_first().push(s),
{
}

/// The weak-cable check looks only at the oldest and the newest reading of
/// the window: two windows of at least two readings that agree on those
/// give the same answer, whatever lies between.
pub proof fn lemma_cable_check_uses_ends_only(w: Seq<Sample>, w2: Seq<Sample>)
    requires
        w.len() >= 2,
        w2.len() >= 2,
        w[0].voltage_mv == w2[0].voltage_mv,
        w.last().voltage_mv == w2.last().voltage_mv,
    ensures
        cable_charging(w) == cable_charging(w2),
{
}

/// What the weak-cable check answers: undecided with fewer than two readings;
/// otherwise charging exactly when the newest voltage is no more than
/// 30 mV below the oldest one.
pub proof fn lemma_cable_check_answer(w: Seq<Sample>)
    ensures
        w.len() < 2 <==> cable_charging(w) is None,
        w.len() >= 2 ==> (cable_charging(w) == Some(true) <==> w[w.len() - 1].voltage_mv + 30
            >= w[0].voltage_mv),
        w.len() >= 2 ==> (cable_charging(w) == Some(false) <==> w[w.len() - 1].voltage_mv + 30
            < w[0].voltage_mv),
{
}

/// Calibration samples come from percentage ticks in either direction: a
/// reading whose percentage and voltage both rose, or both fell, against
/// the oldest reading yields the sample of the voltage change over the
/// percentage change; a reading whose percentage did not move, or whose
/// voltage moved the other way or not at all, yields none, as does an
/// empty window.
pub proof fn lemma_calibration_samples(w: Seq<Sample>, percentage: u8, voltage_mv: u16)
    ensures
        w.len() == 0 ==> calibration_against(w, percentage, voltage_mv) is None,
        w.len() > 0 && percentage > w[0].percentage && voltage_mv > w[0].voltage_mv ==> calibration_against(
            w,
            percentage,
            voltage_mv,
        ) == Some(
            Calibration {
                delta_mv: (voltage_mv - w[0].voltage_mv) as u32,
                delta_pct: (percentage - w[0].percentage) as u16,
            },
        ),
        w.len() > 0 && percentage < w[0].percentage && voltage_mv < w[0].voltage_mv ==> calibration_against(
            w,
            percentage,
            voltage_mv,
        ) == Some(
            Calibration {
                delta_mv: (w[0].voltage_mv - voltage_mv) as u32,
                delta_pct: (w[0].percentage - percentage) as u16,
            },
        ),
        w.len() > 0 && percentage == w[0].percentage ==> calibration_against(w, percentage, voltage_mv) is None,
        w.len() > 0 && percentage > w[0].percentage && voltage_mv <= w[0].voltage_mv ==> calibration_against(
            w,
            percentage,
            voltage_mv,
        ) is None,
        w.len() > 0 && percentage < w[0].percentage && voltage_mv >= w[0].voltage_mv ==> calibration_against(
            w,
            percentage,
            voltage_mv,
        ) is None,
{
}

/// Sliding window of readings since the last change of charge direction.
pub struct BatteryPredictor {
    window: std::collections::VecDeque<Sample>,
    last_status: Option<BatteryStatus>,
}

impl View for BatteryPredictor {
    type V = PredictorView;

    closed spec fn view(&self) -> PredictorView {
        PredictorView { window: self.window@, last_status: self.last_status }
    }
}

impl BatteryPredictor {
    #[verifier::type_invariant]
    spec fn window_bounded(self) -> bool {
        &&& self.window@.len() <= WINDOW_CAPACITY
        &&& self.last_status is Some ==> self.window@.len() > 0
    }

    /// An empty window, with no status seen yet.
    pub fn new() -> (p: Self)
        ensures
            p@.window == Seq::<Sample>::empty(),
            p@.last_status is None,
    {
        BatteryPredictor { window: std::collections::VecDeque::new(), last_status: None }
    }

    /// Record one reading taken at `time_us` with the status `status`.
    pub fn push(&mut self, percentage: u8, voltage_mv: u16, status: BatteryStatus, time_us: u64) -> (out: PushOutcome)
        ensures
            out.window_reset == direction_changed(old(self)@.last_status, status),
            out.calibration == calibration_against(base_window(old(self)@, status), percentage, voltage_mv),
            final(self)@.window == appended(
                base_window(old(self)@, status),
                Sample { time_us, percentage, voltage_mv },
            ),
            final(self)@.last_status == Some(status),
            final(self)@ == pushed(old(self)@, status, Sample { time_us, percentage, voltage_mv }),
            final(self)@.window.len() <= WINDOW_CAPACITY,
            final(self)@.window.len() > 0,
            old(self)@.last_status is Some ==> old(self)@.window.len() > 0,
            old(self)@.last_status is Some ==> (final(self)@.window =~= seq![
                Sample { time_us, percentage, voltage_mv },
            ] <==> direction_changed(old(self)@.last_status, status)),
            out.fit == voltage_fit(final(self)@.window),
    {
        proof {
            use_type_invariant(&*self);
        }
        let direction_changed = match (self.last_status, status) {
            (Some(BatteryStatus::Charging), BatteryStatus::Discharging) => true,
            (Some(BatteryStatus::Discharging), BatteryStatus::Charging) => true,
            _ => false,
        };
        self.last_status = None;
        let mut window = std::collections::VecDeque::new();
        std::mem::swap(&mut window, &mut self.window);
        if direction_changed {
            window.clear();
        }
        let calibration = calibration_from(&window, percentage, voltage_mv);
        if window.len() >= WINDOW_CAPACITY {
            window.pop_front();
        }
        window.push_back(Sample { time_us, percentage, voltage_mv });
        let fit = fit_window(&window);
        self.window = window;
        self.last_status = Some(status);
        PushOutcome { window_reset: direction_changed, calibration, fit }
    }

    /// Whether a connected cable is confirmed delivering charge: `Some(true)`
    /// when the voltage has not fallen by more than 30 mV across the window,
    /// `Some(false)` when it has, `None` with fewer than two readings.
    pub fn cable_is_charging(&self) -> (r: Option<bool>)
        ensures
            r == cable_charging(self@.window),
    {
        let n: usize = self.window.len();
        if n < 2 {
            return None;
        }
        let oldest = self.window[0];
        let newest = self.window[n - 1];
        let delta_mv: i32 = (newest.voltage_mv as i32) - (oldest.voltage_mv as i32);
        Some(delta_mv >= -WEAK_CABLE_MV)
    }

    /// Whether the window spans the two minutes of history that estimates need.
    pub fn has_min_history(&self) -> (r: bool)
        ensures
            r == (window_span(self@.window) >= MIN_WINDOW_US),
    {
        let n: usize = self.window.len();
        if n == 0 {
            return false;
        }
        let first: u64 = self.window[0].time_us;
        let last: u64 = self.window[n - 1].time_us;
        last >= first && last - first >= MIN_WINDOW_US
    }

    /// The percentage of the newest reading, if any.
    pub fn latest_percentage(&self) -> (r: Option<u8>)
        ensures
            self@.window.len() == 0 ==> r is None,
            self@.window.len() > 0 ==> r == Some(self@.window.last().percentage),
    {
        let n: usize = self.window.len();
        if n == 0 {
            None
        } else {
            Some(self.window[n - 1].percentage)
        }
    }
}

fn calibration_from(w: &std::collections::VecDeque<Sample>, percentage: u8, voltage_mv: u16) -> (r: Option<Calibration>)
    ensures
        r == calibration_against(w@, percentage, voltage_mv),
{
    if w.len() == 0 {
        return None;
    }
    let oldest = w[0];
    let delta_p: i16 = (percentage as i16) - (oldest.percentage as i16);
    let delta_v: i32 = (voltage_mv as i32) - (oldest.voltage_mv as i32);
    let sign_p: i32 = if delta_p > 0 {
        1
    } else if delta_p < 0 {
        -1
    } else {
        0
    };
    let sign_v: i32 = if delta_v > 0 {
        1
    } else if delta_v < 0 {
        -1
    } else {
        0
    };
    if delta_p != 0 && sign_p == sign_v {
        let dv: u32 = if delta_v < 0 {
            (-delta_v) as u32
        } else {
            delta_v as u32
        };
        let dp: u16 = if delta_p < 0 {
            (-delta_p) as u16
        } else {
            delta_p as u16
        };
        Some(Calibration { delta_mv: dv, delta_pct: dp })
    } else {
        None
    }
}

fn fit_window(w: &std::collections::VecDeque<Sample>) -> (r: Option<VoltageFit>)
    requires
        w@.len() <= WINDOW_CAPACITY,
    ensures
        r == voltage_fit(w@),
{
    let n: usize = w.len();
    if n < 2 {
        return None;
    }
    let t0: u64 = w[0].time_us;
    let tn: u64 = w[n - 1].time_us;
    if tn < t0 || tn - t0 < MIN_FIT_SPAN_US {
        return None;
    }
    let ghost s = w@;
    let mut st: i128 = 0;
    let mut sv: i128 = 0;
    let mut stt: i128 = 0;
    let mut stv: i128 = 0;
    let mut i: usize = 0;
    while i < n
        invariant
            n == s.len(),
            2 <= n <= WINDOW_CAPACITY,
            s == w@,
            t0 == s[0].time_us,
            i <= n,
            forall|k: int| 0 <= k < i ==> offset(#[trigger] s[k], t0) <= MAX_FIT_OFFSET_US,
            st == sum_t(s.take(i as int), t0),
            sv == sum_v(s.take(i as int)),
            stt == sum_tt(s.take(i as int), t0),
            stv == sum_tv(s.take(i as int), t0),
            0 <= st <= i * MAX_FIT_OFFSET_US,
            0 <= sv <= i * 65535,
            0 <= stt <= i * (MAX_FIT_OFFSET_US * MAX_FIT_OFFSET_US),
            0 <= stv <= i * (MAX_FIT_OFFSET_US * 65535),
        decreases n - i,
    {
        let sample = w[i];
        let t: u64 = if sample.time_us >= t0 {
            sample.time_us - t0
        } else {
            0
        };
        if t > MAX_FIT_OFFSET_US {
            assert(offset(s[i as int], t0) > MAX_FIT_OFFSET_US);
            return None;
        }
        let v: i128 = sample.voltage_mv as i128;
        let ti: i128 = t as i128;
        assert(ti * ti <= MAX_FIT_OFFSET_US * MAX_FIT_OFFSET_US) by (nonlinear_arith)
            requires
                0 <= ti <= MAX_FIT_OFFSET_US,
        ;
        assert(ti * v <= MAX_FIT_OFFSET_US * 65535) by (nonlinear_arith)
            requires
                0 <= ti <= MAX_FIT_OFFSET_US,
                0 <= v <= 65535,
        ;
        assert(0 <= ti * ti && 0 <= ti * v) by (nonlinear_arith)
            requires
                0 <= ti,
                0 <= v,
        ;
        assert(s.take(i + 1).drop_last() =~= s.take(i as int));
        assert(stt + ti * ti <= (i + 1) * (MAX_FIT_OFFSET_US * MAX_FIT_OFFSET_US)
            <= 720 * (MAX_FIT_OFFSET_US * MAX_FIT_OFFSET_US)) by (nonlinear_arith)
            requires
                0 <= stt <= i * (MAX_FIT_OFFSET_US * MAX_FIT_OFFSET_US),
                ti * ti <= MAX_FIT_OFFSET_US * MAX_FIT_OFFSET_US,
                i + 1 <= 720,
        ;
        assert(stv + ti * v <= (i + 1) * (MAX_FIT_OFFSET_US * 65535) <= 720 * (MAX_FIT_OFFSET_US
            * 65535)) by (nonlinear_arith)
            requires
                0 <= stv <= i * (MAX_FIT_OFFSET_US * 65535),
                ti * v <= MAX_FIT_OFFSET_US * 65535,
                i + 1 <= 720,
        ;
        st = st + ti;
        sv = sv + v;
        stt = stt + ti * ti;
        stv = stv + ti * v;
        i = i + 1;
    }
    assert(s.take(n as int) =~= s);
    let nn: i128 = n as i128;
    assert(nn * stt <= 720 * (720 * (MAX_FIT_OFFSET_US * MAX_FIT_OFFSET_US))) by (nonlinear_arith)
        requires
            0 <= nn <= 720,
            0 <= stt <= nn * (MAX_FIT_OFFSET_US * MAX_FIT_OFFSET_US),
    ;
    assert(st * st <= 720 * (720 * (MAX_FIT_OFFSET_US * MAX_FIT_OFFSET_US))) by (nonlinear_arith)
        requires
            0 <= nn <= 720,
            0 <= st <= nn * MAX_FIT_OFFSET_US,
    ;
    assert(nn * stv <= 720 * (720 * (MAX_FIT_OFFSET_US * 65535))) by (nonlinear_arith)
        requires
            0 <= nn <= 720,
            0 <= stv <= nn * (MAX_FIT_OFFSET_US * 65535),
    ;
    assert(st * sv <= 720 * MAX_FIT_OFFSET_US * (720 * 65535)) by (nonlinear_arith)
        requires
            0 <= nn <= 720,
            0 <= st <= nn * MAX_FIT_OFFSET_US,
            0 <= sv <= nn * 65535,
    ;
    assert(0 <= nn * stt && 0 <= st * st && 0 <= nn * stv && 0 <= st * sv) by (nonlinear_arith)
        requires
            0 <= nn,
            0 <= stt,
            0 <= st,
            0 <= stv,
            0 <= sv,
    ;
    let denominator: i128 = nn * stt - st * st;
    if denominator < MIN_FIT_DENOMINATOR {
        return None;
    }
    assert(st * sv <= 0x1_0000_0000_0000_0000_0000_0000) by (nonlinear_arith)
        requires
            0 <= st <= 720 * MAX_FIT_OFFSET_US,
            0 <= sv <= 720 * 65535,
    ;
    let numerator: i128 = nn * stv - st * sv;
    Some(VoltageFit { numerator, denominator })
}

} // verus!
