use minix_bt::gatt::{CharProperties, GattCharacteristic, GattService};
use minix_bt::hidp::{
    build_cccd_disable, build_cccd_enable_indicate, build_cccd_enable_notify, find_hid_handles,
    hid_information_uuid, hid_service_uuid, parse_hid_report, protocol_mode_uuid,
    report_map_uuid, report_reference_uuid, report_uuid, GamepadAxis, GamepadButton,
    GamepadState, HatPosition, HidGamepadProfile, HidReportLayout,
};

#[test]
fn test_hid_service_uuids() {
    assert_eq!(hid_service_uuid().as_uuid16(), Some(0x1812));
    assert_eq!(report_uuid().as_uuid16(), Some(0x2A4D));
    assert_eq!(report_map_uuid().as_uuid16(), Some(0x2A4B));
    assert_eq!(report_reference_uuid().as_uuid16(), Some(0x2908));
    assert_eq!(protocol_mode_uuid().as_uuid16(), Some(0x2A4E));
}

#[test]
fn test_hat_position() {
    assert_eq!(HatPosition::from_hat_value(0x00), HatPosition::North);
    assert_eq!(HatPosition::from_hat_value(0x01), HatPosition::NorthEast);
    assert_eq!(HatPosition::from_hat_value(0x02), HatPosition::East);
    assert_eq!(HatPosition::from_hat_value(0x04), HatPosition::South);
    assert_eq!(HatPosition::from_hat_value(0x0F), HatPosition::Center);

    let (up, right, down, left) = HatPosition::NorthWest.to_dpad_bits();
    assert!(up);
    assert!(!right);
    assert!(!down);
    assert!(left);
}

#[test]
fn hat_uses_low_nibble_only() {
    assert_eq!(HatPosition::from_hat_value(0x73), HatPosition::SouthEast);
    assert_eq!(HatPosition::from_hat_value(0x08), HatPosition::Center);
    assert!(HatPosition::from_hat_value(0x09).is_center());
    assert!(!HatPosition::West.is_center());
    assert_eq!(HatPosition::Center.to_dpad_bits(), (false, false, false, false));
    assert_eq!(HatPosition::default(), HatPosition::Center);
}

#[test]
fn test_gamepad_state_default() {
    let state = GamepadState::default();
    assert!(!state.connected);
    assert_eq!(state.buttons, 0);
    assert_eq!(state.axes, [0i16; 12]);
    assert_eq!(state.hat, HatPosition::Center);
}

#[test]
fn test_gamepad_state_buttons() {
    let mut state = GamepadState::default();
    state.buttons = 1 << GamepadButton::A.bit();
    assert!(state.is_pressed(GamepadButton::A));
    assert!(!state.is_pressed(GamepadButton::B));
    assert!(!state.is_pressed(GamepadButton::Guide));
}

#[test]
fn ds4_report_buttons_sticks_and_triggers() {
    let mut report = [0u8; 48];
    report[0] = 0x01;
    report[1] = 0xFF;
    report[2] = 0xFF;
    report[3] = 0x13; // hat SouthEast, touchpad click
    report[4] = 0xFF;
    report[5] = 0x00;
    report[6] = 0x80;
    report[7] = 0x80;
    report[8] = 0xFF;
    report[9] = 0x40;
    let state = parse_hid_report(HidGamepadProfile::DualShock4, &report);
    assert!(state.connected);
    assert!(state.updated);
    assert!(state.is_pressed(GamepadButton::Select));
    assert!(state.is_pressed(GamepadButton::LeftStick));
    assert!(state.is_pressed(GamepadButton::DpadUp));
    assert!(state.is_pressed(GamepadButton::LeftBumper));
    assert!(state.is_pressed(GamepadButton::Guide));
    assert!(!state.is_pressed(GamepadButton::A));
    assert_eq!(state.hat, HatPosition::SouthEast);
    assert_eq!(state.axes[GamepadAxis::LeftStickX.index()], 32512);
    assert_eq!(state.axes[GamepadAxis::LeftStickY.index()], -32768);
    assert_eq!(state.axes[GamepadAxis::RightStickX.index()], 0);
    assert_eq!(state.axes[GamepadAxis::LeftTrigger.index()], 32640);
    assert_eq!(state.axes[GamepadAxis::RightTrigger.index()], 8192);
    // DualSense shares the layout
    let ds5 = parse_hid_report(HidGamepadProfile::DualSense, &report);
    assert_eq!(ds5.buttons, state.buttons);
}

#[test]
fn ds4_short_report_has_no_triggers() {
    // no report ID, 6 bytes: buttons, hat, sticks partly missing
    let report = [0x01u8 << 4, 0x00, 0x0F, 0x10, 0x20, 0x30];
    let state = parse_hid_report(HidGamepadProfile::DualShock4, &report);
    assert!(state.is_pressed(GamepadButton::DpadUp));
    assert_eq!(state.hat, HatPosition::Center);
    assert_eq!(state.axes[0], 0);
    assert_eq!(state.axes[4], 0);
}

#[test]
fn test_switch_pro_report_parsing() {
    let mut report = [0u8; 8];
    report[0] = 0x30;
    report[1] = 0x00;
    report[2] = 0x00;
    report[3] = 0x00;
    report[4] = 0b00000111;
    report[5] = 0x80;
    report[6] = 0x80;
    report[7] = 0x80;

    let state = parse_hid_report(HidGamepadProfile::SwitchPro, &report);
    assert!(state.is_pressed(GamepadButton::A));
    assert!(state.is_pressed(GamepadButton::B));
    assert!(state.is_pressed(GamepadButton::X));
    assert!(!state.is_pressed(GamepadButton::Y));
}

#[test]
fn switch_pro_bumpers_hat_and_short_reports() {
    let report = [0x30u8, 0, 0, 0x32, 0x90, 0xFF, 0x00, 0x81];
    let state = parse_hid_report(HidGamepadProfile::SwitchPro, &report);
    assert_eq!(state.hat, HatPosition::East);
    assert!(state.is_pressed(GamepadButton::LeftBumper));
    assert!(state.is_pressed(GamepadButton::RightBumper));
    assert!(state.is_pressed(GamepadButton::Select));
    assert!(state.is_pressed(GamepadButton::RightStick));
    assert_eq!(state.axes[2], 256);
    assert!(!parse_hid_report(HidGamepadProfile::SwitchPro, &[0x30, 0, 0, 0, 0, 0]).connected);
    assert!(!parse_hid_report(HidGamepadProfile::SwitchPro, &[0x30, 0]).connected);
}

#[test]
fn test_generic_report_parsing() {
    let mut report = [0u8; 8];
    report[0] = 0x01;
    report[1] = 0b00000011;
    report[2] = 0x80;
    report[3] = 0x80;
    report[4] = 0x80;
    report[5] = 0x80;

    let state = parse_hid_report(HidGamepadProfile::Generic, &report);
    assert!(state.is_pressed(GamepadButton::A));
    assert!(state.is_pressed(GamepadButton::B));
    assert!(!state.is_pressed(GamepadButton::X));
}

#[test]
fn generic_report_hat_and_triggers() {
    let report = [0x04u8, 0x64, 0x80, 0x80, 0x80, 0x80, 0x10, 0x20];
    let state = parse_hid_report(HidGamepadProfile::XboxBle, &report);
    assert_eq!(state.hat, HatPosition::West);
    assert!(state.is_pressed(GamepadButton::Guide));
    assert!(state.is_pressed(GamepadButton::X));
    assert!(!state.is_pressed(GamepadButton::A));
    assert_eq!(state.axes[4], 0x10 * 128);
    assert_eq!(state.axes[5], 0x20 * 128);
}

#[test]
fn test_profile_detection() {
    assert_eq!(HidGamepadProfile::detect("Wireless Controller", None), HidGamepadProfile::DualShock4);
    assert_eq!(HidGamepadProfile::detect("DualSense", None), HidGamepadProfile::DualSense);
    assert_eq!(HidGamepadProfile::detect("Pro Controller", None), HidGamepadProfile::SwitchPro);
    assert_eq!(HidGamepadProfile::detect("Xbox Wireless Controller", None), HidGamepadProfile::XboxBle);
    assert_eq!(HidGamepadProfile::detect("8BitDo SN30 Pro", None), HidGamepadProfile::Generic);
    assert_eq!(HidGamepadProfile::detect("Unknown Device", None), HidGamepadProfile::Unknown);
}

#[test]
fn profile_detection_other_names() {
    assert_eq!(HidGamepadProfile::detect("DS4 pad", Some(0x03C4)), HidGamepadProfile::DualShock4);
    assert_eq!(HidGamepadProfile::detect("PS5 Controller", None), HidGamepadProfile::DualSense);
    assert_eq!(HidGamepadProfile::detect("Joy-Con (L)", None), HidGamepadProfile::SwitchPro);
    assert_eq!(HidGamepadProfile::detect("", None), HidGamepadProfile::Unknown);
}

#[test]
fn test_hid_handles_discovery() {
    let services = vec![GattService {
        uuid: hid_service_uuid(),
        primary: true,
        start_handle: 0x0010,
        end_handle: 0x0020,
    }];

    let characteristics = vec![
        GattCharacteristic {
            uuid: hid_information_uuid(),
            properties: CharProperties::from_bits(CharProperties::READ),
            declaration_handle: 0x0011,
            value_handle: 0x0012,
            cccd_handle: None,
        },
        GattCharacteristic {
            uuid: report_uuid(),
            properties: CharProperties::from_bits(CharProperties::READ | CharProperties::NOTIFY),
            declaration_handle: 0x0013,
            value_handle: 0x0014,
            cccd_handle: Some(0x0015),
        },
    ];

    let handles = find_hid_handles(&services, &characteristics);
    assert_eq!(handles.service_start, 0x0010);
    assert_eq!(handles.hid_info_handle, Some(0x0012));
    assert_eq!(handles.input_report_handle, Some(0x0014));
    assert_eq!(handles.input_report_cccd, Some(0x0015));
}

#[test]
fn hid_handles_cccd_defaults_after_value() {
    let characteristics = vec![GattCharacteristic {
        uuid: report_uuid(),
        properties: CharProperties::from_bits(CharProperties::NOTIFY),
        declaration_handle: 0x0030,
        value_handle: 0x0031,
        cccd_handle: None,
    }];
    let services = vec![GattService {
        uuid: hid_service_uuid(),
        primary: true,
        start_handle: 0x0030,
        end_handle: 0x0040,
    }];
    let handles = find_hid_handles(&services, &characteristics);
    assert_eq!(handles.service_start, 0x0030);
    assert_eq!(handles.service_end, 0x0040);
    assert_eq!(handles.input_report_cccd, Some(0x0032));
    assert_eq!(handles.report_map_handle, None);
    let handles = find_hid_handles(&[], &characteristics);
    assert_eq!(handles.service_start, 0);
    assert_eq!(handles.input_report_handle, None);
    assert_eq!(handles.input_report_cccd, None);
}

#[test]
fn hid_handles_only_within_the_service() {
    let services = vec![GattService {
        uuid: hid_service_uuid(),
        primary: true,
        start_handle: 0x0010,
        end_handle: 0x0020,
    }];
    let characteristics = vec![GattCharacteristic {
        uuid: report_uuid(),
        properties: CharProperties::from_bits(CharProperties::NOTIFY),
        declaration_handle: 0x0040,
        value_handle: 0x0041,
        cccd_handle: Some(0x0042),
    }];
    let handles = find_hid_handles(&services, &characteristics);
    assert_eq!(handles.input_report_handle, None);
    assert_eq!(handles.input_report_cccd, None);
}

#[test]
fn test_cccd_values() {
    assert_eq!(build_cccd_enable_notify(), vec![0x01, 0x00]);
    assert_eq!(build_cccd_enable_indicate(), vec![0x02, 0x00]);
    assert_eq!(build_cccd_disable(), vec![0x00, 0x00]);
}

#[test]
fn test_disconnected_state() {
    let state = GamepadState::disconnected();
    assert!(!state.connected);
    assert!(!state.updated);
}

#[test]
fn test_mark_read() {
    let mut state = GamepadState { connected: true, updated: true, ..Default::default() };
    state.mark_read();
    assert!(!state.updated);
}

#[test]
fn test_input_report_size() {
    assert_eq!(HidGamepadProfile::DualShock4.input_report_size(), 48);
    assert_eq!(HidGamepadProfile::SwitchPro.input_report_size(), 8);
    assert_eq!(HidGamepadProfile::Generic.input_report_size(), 0);
}

#[test]
fn report_layout_default_is_empty() {
    let layout = HidReportLayout::default();
    assert_eq!(layout.input_report_size, 0);
    assert!(!layout.has_hat);
}

#[test]
fn test_parse_hid_report_empty() {
    let state = parse_hid_report(HidGamepadProfile::DualShock4, &[]);
    assert!(!state.connected);
}

#[test]
fn test_parse_hid_report_too_short() {
    let state = parse_hid_report(HidGamepadProfile::Generic, &[0x01, 0x00]);
    assert!(!state.connected);
}
