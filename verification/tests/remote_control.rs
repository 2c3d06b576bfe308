//! Tests of path resolution and frontend extraction.

use rc_input::discovery::sys_path_from_candidates;
use rc_input::frontend::extract_frontend_from_paths;
use rc_input::paths::create_event_path_from_sys_path;
use rc_input::paths::get_rc_event_file_final_component;
use rc_input::FrontendId;

fn create_rc_event_file_name(base: &str) -> String {
    base.to_string() + get_rc_event_file_final_component(false)
}

#[test]
fn sys_path_from_lirc_path() {
    let candidates = vec![
        "/sys/class/rc/rc0/lirc0".to_string(),
        "/sys/class/rc/rc1/lirc1".to_string(),
    ];
    match sys_path_from_candidates(&candidates, "/dev/lirc0") {
        Ok(path) => assert_eq!(path, "/sys/class/rc/rc0".to_string()),
        Err(_) => assert!(false),
    }
    match sys_path_from_candidates(&candidates, "/dev/lirc1") {
        Ok(path) => assert_eq!(path, "/sys/class/rc/rc1".to_string()),
        Err(_) => assert!(false),
    }
}

#[test]
fn rc0_on_anglides_debian_linux() {
    assert_eq!(
        create_event_path_from_sys_path(
            "../../devices/pci0000:00/0000:00:1d.7/usb4/4-5/4-5.2/4-5.2.4/4-5.2.4.1/4-5.2.4.1.1/4-5.2.4.1.1:1.0/rc/rc0",
            false,
        ),
        create_rc_event_file_name("/dev/input/by-path/pci-0000:00:1d.7-usb-0:5.2.4.1.1:1.0")
    );
}

#[test]
fn rc0_on_lavaine_debian_linux() {
    assert_eq!(
        create_event_path_from_sys_path(
            "../../devices/pci0000:00/0000:00:14.0/usb2/2-1/2-1:1.0/rc/rc0",
            false,
        ),
        create_rc_event_file_name("/dev/input/by-path/pci-0000:00:14.0-usb-0:1:1.0")
    );
}

#[test]
fn rc1_on_lavaine_debian_linux() {
    assert_eq!(
        create_event_path_from_sys_path(
            "../../devices/pci0000:00/0000:00:14.0/usb2/2-2/2-2:1.0/rc/rc1",
            false,
        ),
        create_rc_event_file_name("/dev/input/by-path/pci-0000:00:14.0-usb-0:2:1.0")
    );
}

#[test]
fn rc0_on_lynet_debian_linux() {
    assert_eq!(
        create_event_path_from_sys_path(
            "../../devices/pci0000:00/0000:00:14.0/usb2/2-1/2-1:1.0/rc/rc0",
            false,
        ),
        create_rc_event_file_name("/dev/input/by-path/pci-0000:00:14.0-usb-0:1:1.0")
    );
}

#[test]
fn rc1_on_lynet_debian_linux() {
    assert_eq!(
        create_event_path_from_sys_path(
            "../../devices/pci0000:00/0000:00:14.0/usb2/2-3/2-3:1.0/rc/rc1",
            false,
        ),
        create_rc_event_file_name("/dev/input/by-path/pci-0000:00:14.0-usb-0:3:1.0")
    );
}

#[test]
fn extract_frontend_from_empty_vector() {
    assert_eq!(extract_frontend_from_paths(&vec![]).len(), 0);
}

#[test]
fn extract_frontend_from_one_item_vector() {
    let result = extract_frontend_from_paths(&vec![
        "/sys/class/rc/rc0/device/dvb/dvb0.frontend0".to_string(),
    ]);
    assert_eq!(result.len(), 1);
    assert_eq!(
        *result.get(0).unwrap(),
        FrontendId { adapter: 0, frontend: 0 }
    );
}

#[test]
fn extract_frontend_from_two_item_vector() {
    let result = extract_frontend_from_paths(&vec![
        "/sys/class/rc/rc0/device/dvb/dvb0.frontend0".to_string(),
        "/sys/class/rc/rc0/device/dvb/dvb1.frontend0".to_string(),
    ]);
    assert_eq!(result.len(), 2);
    assert_eq!(
        *result.get(0).unwrap(),
        FrontendId { adapter: 0, frontend: 0 }
    );
    assert_eq!(
        *result.get(1).unwrap(),
        FrontendId { adapter: 1, frontend: 0 }
    );
}
