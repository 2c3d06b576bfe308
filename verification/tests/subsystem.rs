//! Tests of the event-path formula's variants, the frontend-name parser,
//! the device registry, event decoding and hotplug classification.

use rc_input::discovery::find_frontends_for_remote_control;
use rc_input::discovery::get_sys_path_from_lirc_path;
use rc_input::discovery::sys_path_from_candidates;
use rc_input::errors::RcError;
use rc_input::events::build_wait_set;
use rc_input::events::process_events_for_device;
use rc_input::events::whole_records_in_read;
use rc_input::events::InputEventRecord;
use rc_input::frontend::parse_frontend_file_name;
use rc_input::frontend::try_extract_frontends;
use rc_input::hotplug::classify_watch_event;
use rc_input::hotplug::HotplugAction;
use rc_input::hotplug::WatchKind;
use rc_input::paths::create_event_path_from_sys_path;
use rc_input::paths::event_path_prefix;
use rc_input::paths::get_rc_event_file_final_component;
use rc_input::paths::sys_link_structure_ok;
use rc_input::registry::DeviceRegistry;
use rc_input::registry::RemoteControl;
use rc_input::text::final_component;
use rc_input::text::parent_component;
use rc_input::text::split_components;
use rc_input::text::suffix_after_first;
use rc_input::FrontendId;
use rc_input::TargettedKeystroke;

const LAVAINE_RC0: &str = "../../devices/pci0000:00/0000:00:14.0/usb2/2-1/2-1:1.0/rc/rc0";

fn handle(lirc: &str, fd: i32) -> RemoteControl {
    RemoteControl::new(
        vec![FrontendId { adapter: 0, frontend: 0 }],
        lirc.to_string(),
        "/sys/class/rc/rc0".to_string(),
        "/dev/input/by-path/pci-0000:00:14.0-usb-0:1:1.0-event".to_string(),
        fd,
    )
}

#[test]
fn event_path_both_name_variants() {
    assert_eq!(
        create_event_path_from_sys_path(LAVAINE_RC0, false),
        "/dev/input/by-path/pci-0000:00:14.0-usb-0:1:1.0-event".to_string()
    );
    assert_eq!(
        create_event_path_from_sys_path(LAVAINE_RC0, true),
        "/dev/input/by-path/pci-0000:00:14.0-usb-0:1:1.0-event-ir".to_string()
    );
    assert_eq!(get_rc_event_file_final_component(true), "-event-ir");
    assert_eq!(get_rc_event_file_final_component(false), "-event");
    assert_eq!(
        event_path_prefix(LAVAINE_RC0),
        "/dev/input/by-path/pci-0000:00:14.0-usb-0:1:1.0".to_string()
    );
}

#[test]
fn link_structure_checks() {
    assert!(sys_link_structure_ok(LAVAINE_RC0));
    assert!(!sys_link_structure_ok("/dev/input/event3"));
    assert!(!sys_link_structure_ok("../../devices/pci0000:00/0000:00:14.0/usb2/2-1/2-1:1.0/xx/rc0"));
    assert!(!sys_link_structure_ok(""));
}

#[test]
fn sys_path_requires_a_unique_match() {
    let none: Vec<String> = vec![];
    assert_eq!(
        sys_path_from_candidates(&none, "/dev/lirc0"),
        Err(RcError::PathResolutionAmbiguous)
    );
    let doubled = vec![
        "/sys/class/rc/rc0/lirc0".to_string(),
        "/sys/class/rc/rc1/lirc0".to_string(),
    ];
    assert_eq!(
        sys_path_from_candidates(&doubled, "/dev/lirc0"),
        Err(RcError::PathResolutionAmbiguous)
    );
}

#[test]
fn frontend_name_parsing() {
    assert_eq!(
        parse_frontend_file_name("dvb0.frontend0"),
        Some(FrontendId { adapter: 0, frontend: 0 })
    );
    assert_eq!(
        parse_frontend_file_name("dvb12.frontend3"),
        Some(FrontendId { adapter: 12, frontend: 3 })
    );
    assert_eq!(
        parse_frontend_file_name("dvb255.frontend255"),
        Some(FrontendId { adapter: 255, frontend: 255 })
    );
    assert_eq!(parse_frontend_file_name("dvbx.frontend0"), None);
    assert_eq!(parse_frontend_file_name("dvb0.frontend"), None);
    assert_eq!(parse_frontend_file_name("dvb256.frontend0"), None);
    assert_eq!(parse_frontend_file_name("frontend0.dvb0"), None);
    assert_eq!(
        try_extract_frontends(&vec!["/sys/class/rc/rc0/device/dvb/dvbx.frontend0".to_string()]),
        None
    );
}

#[test]
fn registry_keeps_one_handle_per_path() {
    let mut registry = DeviceRegistry::new();
    assert_eq!(registry.len(), 0);
    assert!(registry.add_remote(handle("/dev/lirc0", 3)));
    assert!(registry.add_remote(handle("/dev/lirc1", 4)));
    assert!(!registry.add_remote(handle("/dev/lirc0", 5)));
    assert_eq!(registry.len(), 2);
    assert!(registry.has_remote("/dev/lirc0"));
    registry.remove_disappeared_remote_control("/dev/lirc0");
    assert_eq!(registry.len(), 1);
    assert!(!registry.has_remote("/dev/lirc0"));
    assert!(registry.has_remote("/dev/lirc1"));
    registry.remove_disappeared_remote_control("/dev/lirc0");
    assert_eq!(registry.len(), 1);
}

#[test]
fn registry_add_remove_round_trip() {
    let mut registry = DeviceRegistry::new();
    assert!(registry.add_remote(handle("/dev/lirc7", 9)));
    let before: Vec<String> = registry
        .snapshot()
        .iter()
        .map(|r| r.lirc_path.clone())
        .collect();
    assert!(registry.add_remote(handle("/dev/lirc8", 10)));
    registry.remove_disappeared_remote_control("/dev/lirc8");
    let after: Vec<String> = registry
        .snapshot()
        .iter()
        .map(|r| r.lirc_path.clone())
        .collect();
    assert_eq!(before, after);
}

#[test]
fn decoder_forwards_only_key_events() {
    let records = vec![
        InputEventRecord { event_type: 1, code: 28, value: 1 },
        InputEventRecord { event_type: 0, code: 0, value: 0 },
        InputEventRecord { event_type: 2, code: 8, value: 5 },
        InputEventRecord { event_type: 1, code: 28, value: 0 },
    ];
    let f = FrontendId { adapter: 2, frontend: 1 };
    let sent = process_events_for_device(&records, f);
    assert_eq!(
        sent,
        vec![
            TargettedKeystroke { frontend_id: f, keystroke: 28, value: 1 },
            TargettedKeystroke { frontend_id: f, keystroke: 28, value: 0 },
        ]
    );
    let nothing = process_events_for_device(&vec![], f);
    assert_eq!(nothing.len(), 0);
}

#[test]
fn error_kinds_describe_themselves() {
    assert_eq!(
        RcError::PathResolutionAmbiguous.describe(),
        "no unique sysfs remote-control node matches the lirc device".to_string()
    );
    assert_eq!(
        RcError::PartialRecordRead.describe(),
        "a read returned a partial input-event record".to_string()
    );
    assert_eq!(
        RcError::GrabFailed.describe(),
        "the exclusive grab on the event device was refused".to_string()
    );
}

#[test]
fn partial_records_are_rejected() {
    assert_eq!(whole_records_in_read(48, 24), Ok(2));
    assert_eq!(whole_records_in_read(0, 24), Ok(0));
    assert_eq!(whole_records_in_read(25, 24), Err(RcError::PartialRecordRead));
}

#[test]
fn watch_events_are_classified_by_name_and_kind() {
    assert_eq!(
        classify_watch_event("/dev/lirc0", WatchKind::Created),
        HotplugAction::AddDevice
    );
    assert_eq!(
        classify_watch_event("/dev/lirc0", WatchKind::Removed),
        HotplugAction::RemoveDevice
    );
    assert_eq!(
        classify_watch_event("/dev/sda", WatchKind::Created),
        HotplugAction::Ignore
    );
    assert_eq!(
        classify_watch_event("/dev/lirc0", WatchKind::Other),
        HotplugAction::Ignore
    );
}

#[test]
fn wait_set_lists_descriptors_in_order() {
    let remotes = vec![handle("/dev/lirc0", 3), handle("/dev/lirc1", 4)];
    assert_eq!(build_wait_set(&remotes), vec![3, 4]);
    let empty: Vec<RemoteControl> = vec![];
    assert_eq!(build_wait_set(&empty).len(), 0);
}

#[test]
fn path_pieces() {
    assert_eq!(final_component("/dev/lirc0"), "lirc0".to_string());
    assert_eq!(parent_component("/sys/class/rc/rc0/lirc0"), "/sys/class/rc/rc0".to_string());
    assert_eq!(suffix_after_first("2-1:1.0", '-'), "1:1.0".to_string());
    assert_eq!(suffix_after_first("abc", '-'), "".to_string());
    assert_eq!(final_component("lirc0"), "lirc0".to_string());
    assert_eq!(
        split_components("../../devices/x"),
        vec!["..".to_string(), "..".to_string(), "devices".to_string(), "x".to_string()]
    );
}

#[test]
fn discovery_runs_against_the_filesystem() {
    match get_sys_path_from_lirc_path("/dev/lirc0") {
        Ok(path) => assert!(path.starts_with("/sys")),
        Err(e) => assert!(
            e == RcError::PathResolutionAmbiguous || e == RcError::GlobFailed
        ),
    }
    match find_frontends_for_remote_control("/tmp/no_such_rc_node") {
        Ok(frontends) => assert_eq!(frontends.len(), 0),
        Err(_) => assert!(false),
    }
    assert_eq!(
        find_frontends_for_remote_control("["),
        Err(RcError::GlobFailed)
    );
}
