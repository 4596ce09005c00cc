use mouse_battery::discovery::{
    dev_node_path, hidraw_index, is_interface_zero, is_known_id, match_node, parse_hid_id,
    select_hidraw_nodes, HidrawNode,
};

const KNOWN: &[(u16, u16)] = &[(0x0B05, 0x1C57), (0x0B05, 0x1C56)];

fn uevent(hid_id: &str) -> Vec<u8> {
    format!("DRIVER=hid-generic\nHID_ID={hid_id}\nHID_NAME=ASUS TUF GAMING M4\n").into_bytes()
}

fn node(name: &str, hid_id: &str, link: &str) -> HidrawNode {
    HidrawNode {
        name: name.to_string(),
        uevent: Some(uevent(hid_id)),
        link_target: Some(link.as_bytes().to_vec()),
    }
}

const IFACE0: &str = "../../devices/pci0000:00/0000:00:14.0/usb3/3-1/3-1:1.0/0003:0B05:1C57.0001/hidraw/hidraw3";
const IFACE1: &str = "../../devices/pci0000:00/0000:00:14.0/usb3/3-1/3-1:1.1/0003:0B05:1C57.0002/hidraw/hidraw4";

#[test]
fn parses_hid_id_line() {
    assert_eq!(parse_hid_id(&uevent("0003:00000B05:00001C57")), Some((0x0B05, 0x1C57)));
}

#[test]
fn hex_is_case_insensitive_and_ids_must_fit_16_bits() {
    assert_eq!(parse_hid_id(b"HID_ID=0003:00000b05:00001c56"), Some((0x0B05, 0x1C56)));
    assert_eq!(parse_hid_id(b"HID_ID=0003:10000B05:00011C57"), None);
    assert_eq!(parse_hid_id(b"HID_ID=0003:00010B05:00001C57"), None);
    assert_eq!(parse_hid_id(b"HID_ID=0003:0000FFFF:0000FFFF"), Some((0xFFFF, 0xFFFF)));
    assert_eq!(parse_hid_id(b"HID_ID=0003:+B05:1C57"), Some((0x0B05, 0x1C57)));
}

#[test]
fn crlf_line_endings_are_accepted() {
    assert_eq!(parse_hid_id(b"A=1\r\nHID_ID=0003:00000B05:00001C57\r\nB=2\r\n"), Some((0x0B05, 0x1C57)));
}

#[test]
fn malformed_hid_id_is_rejected() {
    assert_eq!(parse_hid_id(b"HID_ID=0003:00000B05"), None);
    assert_eq!(parse_hid_id(b"HID_ID=0003:0B05:1C57:9"), None);
    assert_eq!(parse_hid_id(b"HID_ID=0003:0XB05:1C57"), None);
    assert_eq!(parse_hid_id(b"HID_ID=0003::1C57"), None);
    assert_eq!(parse_hid_id(b"HID_ID=0003:+:1C57"), None);
    assert_eq!(parse_hid_id(b"HID_ID=0003:100000000:1C57"), None);
    assert_eq!(parse_hid_id(b"DRIVER=hid\nHID_NAME=x\n"), None);
    assert_eq!(parse_hid_id(b""), None);
}

#[test]
fn only_the_first_hid_id_line_counts() {
    assert_eq!(parse_hid_id(b"HID_ID=bad\nHID_ID=0003:0B05:1C57\n"), None);
}

#[test]
fn repeated_key_is_trimmed() {
    assert_eq!(parse_hid_id(b"HID_ID=HID_ID=0003:0B05:1C57"), Some((0x0B05, 0x1C57)));
}

#[test]
fn known_id_lookup() {
    assert!(is_known_id(KNOWN, 0x0B05, 0x1C56));
    assert!(!is_known_id(KNOWN, 0x0B05, 0x1C58));
    assert!(!is_known_id(&[], 0x0B05, 0x1C56));
}

#[test]
fn interface_zero_marker() {
    assert!(is_interface_zero(IFACE0.as_bytes()));
    assert!(!is_interface_zero(IFACE1.as_bytes()));
    assert!(!is_interface_zero(b":1."));
}

#[test]
fn hidraw_index_orders_numerically() {
    assert_eq!(hidraw_index("hidraw0"), 0);
    assert_eq!(hidraw_index("hidraw12"), 12);
    assert_eq!(hidraw_index("hidraw"), u64::MAX);
    assert_eq!(hidraw_index("hidrawX"), u64::MAX);
    assert_eq!(hidraw_index("hidraw99999999999999999999999"), u64::MAX);
    assert_eq!(hidraw_index("event3"), u64::MAX);
}

#[test]
fn dev_node_path_prefixes_dev() {
    assert_eq!(dev_node_path("hidraw3"), "/dev/hidraw3");
}

#[test]
fn match_node_requires_everything() {
    let good = node("hidraw3", "0003:00000B05:00001C57", IFACE0);
    assert_eq!(match_node(&good, KNOWN).unwrap().dev_node, "/dev/hidraw3");
    let wrong_iface = node("hidraw4", "0003:00000B05:00001C57", IFACE1);
    assert!(match_node(&wrong_iface, KNOWN).is_none());
    let unknown = node("hidraw5", "0003:0000046D:0000C52B", IFACE0);
    assert!(match_node(&unknown, KNOWN).is_none());
    let unreadable = HidrawNode { name: "hidraw6".to_string(), uevent: None, link_target: Some(IFACE0.as_bytes().to_vec()) };
    assert!(match_node(&unreadable, KNOWN).is_none());
    let no_link = HidrawNode { name: "hidraw7".to_string(), uevent: Some(uevent("0003:0B05:1C57")), link_target: None };
    assert!(match_node(&no_link, KNOWN).is_none());
}

#[test]
fn candidates_come_sorted_by_hidraw_index() {
    let nodes = vec![
        node("hidraw10", "0003:00000B05:00001C56", IFACE0),
        node("hidraw4", "0003:00000B05:00001C57", IFACE1),
        node("hidraw9", "0003:00000B05:00001C57", IFACE0),
        node("hidraw0", "0003:0000046D:0000C52B", IFACE0),
        node("hidraw2", "0003:00000B05:00001C57", IFACE0),
    ];
    let found: Vec<String> = select_hidraw_nodes(&nodes, KNOWN).into_iter().map(|m| m.dev_node).collect();
    assert_eq!(found, vec!["/dev/hidraw2", "/dev/hidraw9", "/dev/hidraw10"]);
}

#[test]
fn no_nodes_no_candidates() {
    assert!(select_hidraw_nodes(&Vec::new(), KNOWN).is_empty());
}

#[test]
fn names_without_index_come_last_by_name() {
    let nodes = vec![
        node("zeta", "0003:00000B05:00001C57", IFACE0),
        node("alpha", "0003:00000B05:00001C57", IFACE0),
        node("hidraw1", "0003:00000B05:00001C56", IFACE0),
    ];
    let found: Vec<String> = select_hidraw_nodes(&nodes, KNOWN).into_iter().map(|m| m.dev_node).collect();
    assert_eq!(found, vec!["/dev/hidraw1", "/dev/alpha", "/dev/zeta"]);
}

#[test]
fn equal_indices_are_ordered_by_name() {
    let nodes = vec![
        node("hidraw1", "0003:00000B05:00001C57", IFACE0),
        node("hidraw01", "0003:00000B05:00001C56", IFACE0),
        node("hidraw0", "0003:00000B05:00001C56", IFACE0),
    ];
    let found: Vec<String> = select_hidraw_nodes(&nodes, KNOWN).into_iter().map(|m| m.dev_node).collect();
    assert_eq!(found, vec!["/dev/hidraw0", "/dev/hidraw01", "/dev/hidraw1"]);
}

#[test]
fn vendor_above_16_bits_is_not_a_known_vendor() {
    let nodes = vec![node("hidraw0", "0003:00010B05:00001C57", "../../devices/usb3/3-1/3-1:1.0/hidraw/hidraw0")];
    assert!(select_hidraw_nodes(&nodes, &[(0x0B05, 0x1C57)]).is_empty());
}
