use console_ghr::controllers::{is_known_controller, select_controller, str_equal, ScannedDevice};
use console_ghr::haptics::{ClientEvent, HapticsRouter};
use console_ghr::smol_fd::{checked_len, libc_check_error, SmolFd};

fn dev(alias: &str, rssi_ok: bool) -> ScannedDevice {
    ScannedDevice { alias: alias.to_string(), rssi_ok }
}

#[test]
fn known_controller_names() {
    assert!(is_known_controller("Pro Controller"));
    assert!(is_known_controller("Joy-Con (L)"));
    assert!(is_known_controller("Joy-Con (R)"));
    assert!(!is_known_controller("Joy-Con"));
    assert!(!is_known_controller("pro controller"));
    assert!(!is_known_controller(""));
    assert!(str_equal("é", "é"));
}

#[test]
fn select_first_controller_in_range() {
    let devices = vec![
        dev("Speaker", true),
        dev("Joy-Con (L)", false),
        dev("Pro Controller", true),
        dev("Joy-Con (R)", true),
    ];
    assert_eq!(select_controller(&devices), Some(2));
    assert_eq!(select_controller(&devices[..2]), None);
}

#[test]
fn libc_check_error_passes_non_negative() {
    assert_eq!(libc_check_error(0i32).unwrap(), 0);
    assert_eq!(libc_check_error(17isize).unwrap(), 17);
    assert!(libc_check_error(-1i32).is_err());
    assert!(libc_check_error(-5i64).is_err());
    assert_eq!(libc_check_error(3i8).unwrap(), 3);
    assert!(libc_check_error(-1i16).is_err());
    assert_eq!(libc_check_error(1i128 << 100).unwrap(), 1i128 << 100);
}

#[test]
fn checked_len_converts_counts() {
    assert_eq!(checked_len(128).unwrap(), 128usize);
    assert!(checked_len(-1).is_err());
}

#[test]
fn smol_fd_keeps_descriptor() {
    let fd = SmolFd::new(7);
    assert_eq!(fd.as_raw_fd(), 7);
    assert_eq!(fd.raw, 7);
}

#[test]
fn router_collects_devices_until_disconnect() {
    let mut r: HapticsRouter<&str> = HapticsRouter::new();
    assert!(r.on_client_event(ClientEvent::DeviceAdded("a")));
    assert!(r.on_client_event(ClientEvent::Other));
    assert!(r.on_client_event(ClientEvent::DeviceAdded("b")));
    assert_eq!(r.devices(), &["a", "b"]);
    assert!(!r.on_client_event(ClientEvent::ServerDisconnect));
    assert_eq!(r.devices().len(), 2);
}
