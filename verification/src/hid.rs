//! Battery readings as a mouse reports them, and the device abstraction that
//! produces them.
use vstd::prelude::*;

verus! {

/// Charging state of the battery.
#[derive(Debug, Clone, Copy, PartialEq, Eq, Structural)]
pub enum BatteryStatus {
    Charging,
    FullyCharged,
    Discharging,
    Unknown,
}

/// The name under which a status is published.
pub open spec fn status_text(s: BatteryStatus) -> Seq<char> {
    match s {
        BatteryStatus::Charging => "charging"@,
        BatteryStatus::FullyCharged => "fully-charged"@,
        BatteryStatus::Discharging => "discharging"@,
        BatteryStatus::Unknown => "unknown"@,
    }
}

impl BatteryStatus {
    /// The name under which this status is published.
    pub fn as_str(&self) -> (s: &'static str)
        ensures
            s@ == status_text(*self),
    {
        match self {
            BatteryStatus::Charging => "charging",
            BatteryStatus::FullyCharged => "fully-charged",
            BatteryStatus::Discharging => "discharging",
            BatteryStatus::Unknown => "unknown",
        }
    }
}

/// One battery report decoded from the device.
#[derive(Debug, Clone, Copy, PartialEq, Eq, Structural)]
pub struct BatteryReading {
    pub percentage: u8,
    pub status: BatteryStatus,
    /// Battery voltage in millivolts, from response bytes [7–8] (little-endian).
    pub voltage_mv: u16,
    /// True when the USB cable is physically connected (response byte[9] != 0).
    /// Does not guarantee charge is flowing — use the voltage trend to confirm.
    pub cable_connected: bool,
}

/// Why a battery query failed.
#[derive(Debug)]
pub enum DeviceError {
    /// No device node matched a supported mouse.
    NoSupportedMouse,
    /// The command write transferred fewer bytes than the command holds.
    ShortWrite { expected: usize, written: usize },
    /// The response was shorter than the six bytes the protocol needs.
    ShortRead { got: usize },
    /// The response did not echo the command bytes (a dead dongle answers
    /// `0xFF 0xAA`).
    UnexpectedHeader { first: u8, second: u8 },
    /// The HID or filesystem layer reported an error, with its message.
    Io(String),
}

/// A mouse whose battery can be queried.
pub trait MouseDevice: Send + 'static {
    fn query_battery(&self) -> Result<BatteryReading, DeviceError>;
}

/// What to do after querying candidate `index` of `count`.
#[derive(Debug)]
pub enum ScanStep {
    /// Query the candidate at this index next.
    Next(usize),
    /// Stop with this result.
    Done(Result<BatteryReading, DeviceError>),
}

/// Decide after querying candidate `index` of `count`: a reading ends the
/// search with it; an error moves on to the next candidate, or ends the
/// search with that error when it came from the last one.
pub fn scan_step(index: usize, count: usize, result: Result<BatteryReading, DeviceError>) -> (step: ScanStep)
    requires
        index < count,
    ensures
        result is Ok ==> step == ScanStep::Done(result),
        result is Err && index + 1 == count ==> step == ScanStep::Done(result),
        result is Err && index + 1 < count ==> step == ScanStep::Next((index + 1) as usize),
{
    if result.is_ok() || index + 1 == count {
        ScanStep::Done(result)
    } else {
        ScanStep::Next(index + 1)
    }
}

/// Candidate `i` was queried and its query ended in an error.
pub open spec fn query_failed<D: MouseDevice>(candidates: Seq<D>, i: int) -> bool {
    exists|e: DeviceError| call_ensures(D::query_battery, (&candidates[i],), Err(e))
}

/// Query each candidate in order and return the first successful reading;
/// when every candidate fails, the last candidate's error.
pub fn first_reading<D: MouseDevice>(candidates: &Vec<D>) -> (r: Result<BatteryReading, DeviceError>)
    ensures
        candidates@.len() == 0 ==> r matches Err(DeviceError::NoSupportedMouse),
        candidates@.len() > 0 ==> exists|i: int|
            {
                &&& 0 <= i < candidates@.len()
                &&& call_ensures(D::query_battery, (&candidates@[i],), r)
                &&& forall|j: int| 0 <= j < i ==> query_failed(candidates@, j)
                &&& r is Err ==> i == candidates@.len() - 1
            },
{
    let n: usize = candidates.len();
    if n == 0 {
        return Err(DeviceError::NoSupportedMouse);
    }
    let query = D::query_battery;
    let mut i: usize = 0;
    loop
        invariant
            n == candidates@.len(),
            i < n,
            query == D::query_battery,
            forall|j: int| 0 <= j < i ==> query_failed(candidates@, j),
        decreases n - i,
    {
        let result = query(&candidates[i]);
        proof {
            if result is Err {
                let e = result->Err_0;
                assert(result == Err::<BatteryReading, DeviceError>(e));
                assert(call_ensures(D::query_battery, (&candidates@[i as int],), Err(e)));
            }
        }
        match scan_step(i, n, result) {
            ScanStep::Done(r) => {
                assert(call_ensures(D::query_battery, (&candidates@[i as int],), r));
                return r;
            },
            ScanStep::Next(next) => {
                i = next;
            },
        }
    }
}

} // verus!
