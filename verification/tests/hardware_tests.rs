use tower_api::hardware::{
    all_off_commands, resolve_port, select_device_port, PortInfo, HW_BUZZER_BLINK, HW_BUZZER_OFF,
    HW_GREEN_ON, HW_RED_OFF, TOWER_PID, TOWER_VID,
};
use tower_api::state::PhysicalChannel;

#[test]
fn command_bytes_per_channel() {
    assert_eq!(PhysicalChannel::Red.hw_commands(), (0x11, 0x21, 0x41));
    assert_eq!(PhysicalChannel::Orange.hw_commands(), (0x12, 0x22, 0x42));
    assert_eq!(PhysicalChannel::Green.hw_commands(), (0x14, 0x24, 0x44));
    assert_eq!(PhysicalChannel::Buzzer.hw_commands(), (0x18, 0x28, 0x48));
    assert_eq!(HW_BUZZER_BLINK, 0x48);
}

#[test]
fn command_bytes_are_distinct() {
    let mut all = Vec::new();
    for ch in PhysicalChannel::all() {
        let (a, b, c) = ch.hw_commands();
        all.extend([a, b, c]);
    }
    for i in 0..all.len() {
        for j in 0..all.len() {
            if i != j {
                assert_ne!(all[i], all[j]);
            }
        }
    }
}

#[test]
fn all_off_sequence() {
    assert_eq!(all_off_commands(), vec![HW_RED_OFF, 0x22, 0x24, HW_BUZZER_OFF]);
}

fn port(name: &str, ids: Option<(u16, u16)>) -> PortInfo {
    PortInfo { name: name.to_string(), usb_ids: ids }
}

#[test]
fn select_first_matching_usb_port() {
    let ports = vec![
        port("/dev/ttyS0", None),
        port("/dev/ttyUSB0", Some((0x0403, 0x6001))),
        port("/dev/ttyUSB1", Some((TOWER_VID, TOWER_PID))),
        port("/dev/ttyUSB2", Some((TOWER_VID, TOWER_PID))),
    ];
    assert_eq!(select_device_port(&ports, TOWER_VID, TOWER_PID), Some("/dev/ttyUSB1".to_string()));
}

#[test]
fn select_none_when_no_match() {
    let ports = vec![port("/dev/ttyS0", None), port("/dev/ttyUSB0", Some((TOWER_VID, 0x0001)))];
    assert_eq!(select_device_port(&ports, TOWER_VID, TOWER_PID), None);
    assert_eq!(select_device_port(&Vec::new(), TOWER_VID, TOWER_PID), None);
}

#[test]
fn resolve_port_order() {
    let given = Some("/dev/ttyACM3".to_string());
    let found = Some("/dev/ttyUSB1".to_string());
    assert_eq!(resolve_port(&given, &found), "/dev/ttyACM3");
    assert_eq!(resolve_port(&None, &found), "/dev/ttyUSB1");
    assert_eq!(resolve_port(&None, &None), "/dev/tower-light");
}

#[test]
fn green_on_byte() {
    assert_eq!(HW_GREEN_ON, 0x14);
}
