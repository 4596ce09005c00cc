use mouse_battery::asus::{
    asus_known_ids, battery_query_command, check_write, parse_battery_response,
};
use mouse_battery::hid::{
    first_reading, scan_step, BatteryReading, BatteryStatus, DeviceError, MouseDevice, ScanStep,
};

fn response(bytes: &[(usize, u8)]) -> [u8; 64] {
    let mut buf = [0u8; 64];
    buf[0] = 0x12;
    buf[1] = 0x07;
    for &(i, b) in bytes {
        buf[i] = b;
    }
    buf
}

#[test]
fn status_names() {
    assert_eq!(BatteryStatus::Charging.as_str(), "charging");
    assert_eq!(BatteryStatus::FullyCharged.as_str(), "fully-charged");
    assert_eq!(BatteryStatus::Discharging.as_str(), "discharging");
    assert_eq!(BatteryStatus::Unknown.as_str(), "unknown");
}

#[test]
fn known_ids_are_the_tuf_mini() {
    assert_eq!(asus_known_ids(), vec![(0x0B05, 0x1C57), (0x0B05, 0x1C56)]);
}

#[test]
fn query_command_layout() {
    let cmd = battery_query_command();
    assert_eq!(cmd.len(), 64);
    assert_eq!(cmd[0], 0x00);
    assert_eq!(cmd[1], 0x12);
    assert_eq!(cmd[2], 0x07);
    assert!(cmd[3..].iter().all(|&b| b == 0));
}

#[test]
fn short_write_is_an_error() {
    assert!(check_write(64, 64).is_ok());
    assert!(matches!(
        check_write(64, 10),
        Err(DeviceError::ShortWrite { expected: 64, written: 10 })
    ));
}

#[test]
fn decodes_wireless_discharging_reading() {
    // 40 %, status 0x03, 0x0EC8 = 3784 mV, no cable
    let buf = response(&[(4, 40), (5, 0x03), (7, 0xC8), (8, 0x0E), (9, 0)]);
    let r = parse_battery_response(&buf, 64).unwrap();
    assert_eq!(
        r,
        BatteryReading {
            percentage: 40,
            status: BatteryStatus::Discharging,
            voltage_mv: 3784,
            cable_connected: false
        }
    );
}

#[test]
fn cable_flag_means_charging_whatever_the_status_byte() {
    // 65 %, firmware still says 0x03, cable flag set, 4148 mV
    let buf = response(&[(4, 65), (5, 0x03), (7, 0x34), (8, 0x10), (9, 1)]);
    let r = parse_battery_response(&buf, 64).unwrap();
    assert_eq!(r.status, BatteryStatus::Charging);
    assert_eq!(r.voltage_mv, 4148);
    assert!(r.cable_connected);
}

#[test]
fn status_byte_codes() {
    let charging = response(&[(5, 0x01)]);
    let full = response(&[(5, 0x02)]);
    let other = response(&[(5, 0x07)]);
    assert_eq!(parse_battery_response(&charging, 64).unwrap().status, BatteryStatus::Charging);
    assert_eq!(parse_battery_response(&full, 64).unwrap().status, BatteryStatus::FullyCharged);
    assert_eq!(parse_battery_response(&other, 64).unwrap().status, BatteryStatus::Unknown);
}

#[test]
fn percentage_is_capped_at_100() {
    let buf = response(&[(4, 180)]);
    assert_eq!(parse_battery_response(&buf, 64).unwrap().percentage, 100);
}

#[test]
fn short_read_is_an_error() {
    let buf = response(&[(4, 50)]);
    assert!(matches!(parse_battery_response(&buf, 5), Err(DeviceError::ShortRead { got: 5 })));
    assert!(parse_battery_response(&buf, 6).is_ok());
}

#[test]
fn dead_dongle_answer_is_rejected() {
    let mut buf = [0u8; 64];
    buf[0] = 0xFF;
    buf[1] = 0xAA;
    assert!(matches!(
        parse_battery_response(&buf, 64),
        Err(DeviceError::UnexpectedHeader { first: 0xFF, second: 0xAA })
    ));
}

struct Fake(Option<u8>);

impl MouseDevice for Fake {
    fn query_battery(&self) -> Result<BatteryReading, DeviceError> {
        match self.0 {
            Some(p) => Ok(BatteryReading {
                percentage: p,
                status: BatteryStatus::Discharging,
                voltage_mv: 3800,
                cable_connected: false,
            }),
            None => Err(DeviceError::UnexpectedHeader { first: 0xFF, second: 0xAA }),
        }
    }
}

#[test]
fn no_candidates_means_no_supported_mouse() {
    let none: Vec<Fake> = Vec::new();
    assert!(matches!(first_reading(&none), Err(DeviceError::NoSupportedMouse)));
}

#[test]
fn first_responding_candidate_wins() {
    let c = vec![Fake(None), Fake(Some(55)), Fake(Some(70))];
    assert_eq!(first_reading(&c).unwrap().percentage, 55);
}

#[test]
fn last_error_when_none_responds() {
    let c = vec![Fake(None), Fake(None)];
    assert!(matches!(first_reading(&c), Err(DeviceError::UnexpectedHeader { .. })));
}

#[test]
fn scan_step_decisions() {
    let ok = BatteryReading {
        percentage: 33,
        status: BatteryStatus::Discharging,
        voltage_mv: 3790,
        cable_connected: false,
    };
    assert!(matches!(scan_step(0, 3, Ok(ok)), ScanStep::Done(Ok(r)) if r == ok));
    assert!(matches!(scan_step(0, 3, Err(DeviceError::ShortRead { got: 2 })), ScanStep::Next(1)));
    assert!(matches!(
        scan_step(2, 3, Err(DeviceError::ShortRead { got: 2 })),
        ScanStep::Done(Err(DeviceError::ShortRead { got: 2 }))
    ));
}
