use console_ghr::bt_addr::BtAddr;
use console_ghr::relay::{rewrite_device_info, ControllerStep, RelayState, SwitchStep, Vibration};

fn switch_report(rumble: u8) -> Vec<u8> {
    let mut r = vec![0u8; 128];
    r[0] = 0xa2;
    r[3] = rumble;
    r
}

#[test]
fn live_rumble_starts_toys_once() {
    let mut s = RelayState::new();
    assert_eq!(s.on_switch_read(&switch_report(5), 10), SwitchStep::Forward(Some(Vibration::Full)));
    assert!(s.vibrating);
    assert_eq!(s.on_switch_read(&switch_report(7), 10), SwitchStep::Forward(None));
    assert_eq!(s.on_switch_read(&switch_report(0), 10), SwitchStep::Forward(Some(Vibration::Stop)));
    assert!(!s.vibrating);
    assert_eq!(s.on_switch_read(&switch_report(0), 10), SwitchStep::Forward(None));
    assert_eq!(s.total_from_switch, 40);
    assert_eq!(s.last_switch_len, 10);
}

#[test]
fn empty_switch_read_closes() {
    let mut s = RelayState::new();
    assert_eq!(s.on_switch_read(&switch_report(9), 0), SwitchStep::Close);
    assert!(!s.vibrating);
    assert_eq!(s.last_switch_len, 0);
}

fn device_info_reply() -> Vec<u8> {
    let mut b = vec![0u8; 128];
    b[0] = 0xa1;
    b[1] = 0x21;
    b[15] = 0x02;
    for k in 0..6 {
        b[20 + k] = 0x10 + k as u8;
    }
    b
}

#[test]
fn device_info_reply_gets_adapter_address() {
    let mut buf = device_info_reply();
    let before = buf.clone();
    let adapter = BtAddr([0xaa, 0xbb, 0xcc, 0xdd, 0xee, 0xff]);
    let mut s = RelayState::new();
    let step = s.on_controller_read(&mut buf, 50, &adapter);
    assert_eq!(step, ControllerStep::Forward(Some(BtAddr([0x10, 0x11, 0x12, 0x13, 0x14, 0x15]))));
    assert_eq!(&buf[20..26], &[0xaa, 0xbb, 0xcc, 0xdd, 0xee, 0xff]);
    assert_eq!(&buf[..20], &before[..20]);
    assert_eq!(&buf[26..], &before[26..]);
    assert_eq!(s.total_from_controller, 50);
}

#[test]
fn other_controller_reports_pass_unchanged() {
    let mut buf = device_info_reply();
    let before = buf.clone();
    let adapter = BtAddr([1, 2, 3, 4, 5, 6]);
    let mut s = RelayState::new();
    assert_eq!(s.on_controller_read(&mut buf, 49, &adapter), ControllerStep::Forward(None));
    assert_eq!(buf, before);
    buf[15] = 0x03;
    assert_eq!(rewrite_device_info(&mut buf, 50, &adapter), None);
    assert_eq!(s.last_controller_len, 49);
}

#[test]
fn empty_controller_read_closes() {
    let mut buf = device_info_reply();
    let mut s = RelayState::new();
    assert_eq!(s.on_controller_read(&mut buf, 0, &BtAddr([0; 6])), ControllerStep::Close);
    assert_eq!(buf, device_info_reply());
}
