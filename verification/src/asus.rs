//! The ASUS battery query protocol: the command written to USB Interface 0
//! and the decoding of the 64-byte response.
use vstd::prelude::*;

use crate::hid::{BatteryReading, BatteryStatus, DeviceError};

verus! {

/// Vendor id of ASUS.
pub const ASUS_VENDOR_ID: u16 = 0x0B05;

/// TUF Gaming Mini WL Mouse MIKU, wireless via USB dongle.
pub const TUF_MINI_WIRELESS_PID: u16 = 0x1C57;

/// The same mouse connected via USB cable (wired/charging mode).
pub const TUF_MINI_WIRED_PID: u16 = 0x1C56;

/// Length of the command and of the response buffer.
pub const REPORT_LEN: usize = 64;

/// Command byte of the battery query; the device echoes it at response byte 0.
pub const QUERY_COMMAND: u8 = 0x12;

/// Sub-command byte of the battery query; echoed at response byte 1.
pub const QUERY_SUBCOMMAND: u8 = 0x07;

/// The smallest response that can be decoded.
pub const MIN_RESPONSE_LEN: usize = 6;

/// Percentages above this are reported as this.
pub const MAX_PERCENTAGE: u8 = 100;

/// All known ASUS wireless mouse (vendor_id, product_id) pairs.
pub open spec fn asus_known_ids_spec() -> Seq<(u16, u16)> {
    seq![(ASUS_VENDOR_ID, TUF_MINI_WIRELESS_PID), (ASUS_VENDOR_ID, TUF_MINI_WIRED_PID)]
}

/// All known ASUS wireless mouse (vendor_id, product_id) pairs: the
/// wireless dongle identity first, then the wired one.
pub fn asus_known_ids() -> (ids: Vec<(u16, u16)>)
    ensures
        ids@ == asus_known_ids_spec(),
{
    let mut ids: Vec<(u16, u16)> = Vec::new();
    ids.push((ASUS_VENDOR_ID, TUF_MINI_WIRELESS_PID));
    ids.push((ASUS_VENDOR_ID, TUF_MINI_WIRED_PID));
    assert(ids@ =~= asus_known_ids_spec());
    ids
}

/// The 64-byte battery query: report-ID prefix 0x00, command 0x12 0x07,
/// then zero bytes.
pub open spec fn query_command_spec() -> Seq<u8> {
    Seq::new(
        REPORT_LEN as nat,
        |i: int|
            if i == 1 {
                QUERY_COMMAND
            } else if i == 2 {
                QUERY_SUBCOMMAND
            } else {
                0u8
            },
    )
}

/// Build the 64-byte battery query command.
pub fn battery_query_command() -> (cmd: Vec<u8>)
    ensures
        cmd@ == query_command_spec(),
{
    let mut cmd: Vec<u8> = Vec::new();
    let mut i: usize = 0;
    while i < REPORT_LEN
        invariant
            i <= REPORT_LEN,
            cmd@ =~= query_command_spec().take(i as int),
        decreases REPORT_LEN - i,
    {
        let b: u8 = if i == 1 {
            QUERY_COMMAND
        } else if i == 2 {
            QUERY_SUBCOMMAND
        } else {
            0
        };
        cmd.push(b);
        i = i + 1;
    }
    assert(query_command_spec().take(REPORT_LEN as int) =~= query_command_spec());
    cmd
}

/// A write of `written` bytes of an `expected`-byte command is accepted
/// only when it was complete.
pub fn check_write(expected: usize, written: usize) -> (r: Result<(), DeviceError>)
    ensures
        written == expected ==> r is Ok,
        written != expected ==> (r matches Err(DeviceError::ShortWrite { expected: e, written: w })
            && e == expected && w == written),
{
    if written != expected {
        Err(DeviceError::ShortWrite { expected, written })
    } else {
        Ok(())
    }
}

/// Initial status from the raw bytes: a connected cable means charging;
/// otherwise the electrical status byte decides.
pub open spec fn status_from_bytes(cable_connected: bool, code: u8) -> BatteryStatus {
    if cable_connected {
        BatteryStatus::Charging
    } else if code == 1 {
        BatteryStatus::Charging
    } else if code == 2 {
        BatteryStatus::FullyCharged
    } else if code == 3 {
        BatteryStatus::Discharging
    } else {
        BatteryStatus::Unknown
    }
}

/// The reading that response bytes `buf` describe:
/// [4] percentage (capped at 100), [5] electrical status,
/// [7–8] little-endian voltage in mV, [9] cable flag.
pub open spec fn reading_from_response(buf: Seq<u8>) -> BatteryReading {
    BatteryReading {
        percentage: if buf[4] <= MAX_PERCENTAGE {
            buf[4]
        } else {
            MAX_PERCENTAGE
        },
        status: status_from_bytes(buf[9] != 0, buf[5]),
        voltage_mv: (buf[7] + 256 * buf[8]) as u16,
        cable_connected: buf[9] != 0,
    }
}

/// The response is long enough and echoes the command bytes.
pub open spec fn response_accepted(buf: Seq<u8>, read: usize) -> bool {
    read >= MIN_RESPONSE_LEN && buf[0] == QUERY_COMMAND && buf[1] == QUERY_SUBCOMMAND
}

/// Decode a battery response: `buf` is the response buffer (zero-filled
/// before the read) and `read` the number of bytes the read returned.
pub fn parse_battery_response(buf: &[u8], read: usize) -> (r: Result<BatteryReading, DeviceError>)
    requires
        buf@.len() == REPORT_LEN,
    ensures
        response_accepted(buf@, read) <==> r is Ok,
        r matches Ok(reading) ==> reading == reading_from_response(buf@),
        r matches Ok(reading) ==> reading.percentage <= MAX_PERCENTAGE,
        read < MIN_RESPONSE_LEN ==> (r matches Err(DeviceError::ShortRead { got }) && got == read),
        read >= MIN_RESPONSE_LEN && !response_accepted(buf@, read) ==> (r matches Err(
            DeviceError::UnexpectedHeader { first, second },
        ) && first == buf@[0] && second == buf@[1]),
{
    if read < MIN_RESPONSE_LEN {
        return Err(DeviceError::ShortRead { got: read });
    }
    if buf[0] != QUERY_COMMAND || buf[1] != QUERY_SUBCOMMAND {
        return Err(DeviceError::UnexpectedHeader { first: buf[0], second: buf[1] });
    }
    let percentage: u8 = if buf[4] <= MAX_PERCENTAGE {
        buf[4]
    } else {
        MAX_PERCENTAGE
    };
    let voltage_mv: u16 = (buf[7] as u16) + 256 * (buf[8] as u16);
    let cable_connected = buf[9] != 0;
    let status = if cable_connected {
        BatteryStatus::Charging
    } else {
        match buf[5] {
            1 => BatteryStatus::Charging,
            2 => BatteryStatus::FullyCharged,
            3 => BatteryStatus::Discharging,
            _ => BatteryStatus::Unknown,
        }
    };
    Ok(BatteryReading { percentage, status, voltage_mv, cable_connected })
}

/// How a response decodes, byte by byte: the percentage is byte [4],
/// capped at 100, whatever the other bytes say; the voltage is bytes
/// [7–8] little-endian; the cable flag is byte [9] being non-zero; a
/// connected cable means charging, otherwise byte [5] gives 1 charging,
/// 2 fully charged, 3 discharging, anything else unknown.
pub proof fn lemma_response_fields(buf: Seq<u8>)
    requires
        buf.len() == REPORT_LEN,
    ensures
        reading_from_response(buf).percentage <= 100,
        buf[4] <= 100 ==> reading_from_response(buf).percentage == buf[4],
        buf[4] > 100 ==> reading_from_response(buf).percentage == 100,
        reading_from_response(buf).voltage_mv == buf[7] + 256 * buf[8],
        reading_from_response(buf).cable_connected <==> buf[9] != 0,
        buf[9] != 0 ==> reading_from_response(buf).status == BatteryStatus::Charging,
        buf[9] == 0 && buf[5] == 1 ==> reading_from_response(buf).status == BatteryStatus::Charging,
        buf[9] == 0 && buf[5] == 2 ==> reading_from_response(buf).status == BatteryStatus::FullyCharged,
        buf[9] == 0 && buf[5] == 3 ==> reading_from_response(buf).status == BatteryStatus::Discharging,
        buf[9] == 0 && !(1 <= buf[5] <= 3) ==> reading_from_response(buf).status == BatteryStatus::Unknown,
{
}

/// A reading depends on bytes [4], [5], [7], [8] and [9] only: two
/// responses that agree on them decode to the same reading, and two that
/// agree on byte [4] report the same percentage, whatever the cable flag.
pub proof fn lemma_response_depends_on_fields(buf: Seq<u8>, buf2: Seq<u8>)
    requires
        buf.len() == REPORT_LEN,
        buf2.len() == REPORT_LEN,
        buf[4] == buf2[4],
    ensures
        reading_from_response(buf).percentage == reading_from_response(buf2).percentage,
        buf[5] == buf2[5] && buf[7] == buf2[7] && buf[8] == buf2[8] && buf[9] == buf2[9]
            ==> reading_from_response(buf) == reading_from_response(buf2),
{
}

/// The command is 64 bytes: 0x00, then 0x12 0x07, then zeros; a response is
/// accepted exactly when at least six bytes were read and it begins with
/// the echo 0x12 0x07.
pub proof fn lemma_command_and_echo(buf: Seq<u8>, read: usize)
    ensures
        query_command_spec().len() == 64,
        query_command_spec()[0] == 0,
        query_command_spec()[1] == 0x12,
        query_command_spec()[2] == 0x07,
        forall|i: int| 3 <= i < 64 ==> #[trigger] query_command_spec()[i] == 0,
        response_accepted(buf, read) <==> (read >= 6 && buf[0] == 0x12 && buf[1] == 0x07),
{
}

} // verus!
