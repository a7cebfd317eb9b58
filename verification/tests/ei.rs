use schengen_server::coord::Coord;
use schengen_server::ei::{
    evdev_to_synergy_button, DeviceEvent, DeviceType, Discovery, EiContext, EiEvent, InputEvent,
    PendingDeviceInfo, Region, Reply, DISCOVERY_INTERVAL, DISCOVERY_TIMEOUT, UNIT_SCALE,
};

fn name(text: &str) -> DeviceEvent {
    DeviceEvent::Name { name: text.to_string() }
}

fn interface(text: &str) -> DeviceEvent {
    DeviceEvent::Interface { name: text.to_string() }
}

fn capability(context: &mut EiContext, interface: &str, mask: u64) {
    let event = EiEvent::Capability { mask, interface: interface.to_string() };
    assert_eq!(context.handle_event(event), Reply::Nothing);
}

fn add_device(context: &mut EiContext, device: u64, device_type: DeviceType, offered: &str) {
    context.handle_event(EiEvent::NewDevice { device });
    context.handle_device_event(device, name("device"));
    context.handle_device_event(device, DeviceEvent::DeviceType { device_type });
    context.handle_device_event(device, interface(offered));
    context.handle_device_event(device, DeviceEvent::Done);
}

#[test]
fn buttons_are_mapped() {
    assert_eq!(evdev_to_synergy_button(0x110), 1);
    assert_eq!(evdev_to_synergy_button(0x111), 3);
    assert_eq!(evdev_to_synergy_button(0x112), 2);
    assert_eq!(evdev_to_synergy_button(0x113), 4);
    assert_eq!(evdev_to_synergy_button(0x114), 5);
    assert_eq!(evdev_to_synergy_button(0x115), 6);
    assert_eq!(evdev_to_synergy_button(0x116), 7);
    assert_eq!(evdev_to_synergy_button(0x117), 8);
    assert_eq!(evdev_to_synergy_button(0x100), 1);
    assert_eq!(evdev_to_synergy_button(0x10F), 16);
    assert_eq!(evdev_to_synergy_button(0x118), 25);
    assert_eq!(evdev_to_synergy_button(0x11F), 32);
    assert_eq!(evdev_to_synergy_button(0x120), 0x120);
    assert_eq!(evdev_to_synergy_button(0xFF), 0xFF);
    assert_eq!(evdev_to_synergy_button(0), 0);
}

#[test]
fn unit_scale_is_one() {
    assert_eq!(UNIT_SCALE, 1.0f32.to_bits());
    assert_eq!(DISCOVERY_TIMEOUT, 5000);
    assert_eq!(DISCOVERY_INTERVAL, 50);
}

#[test]
fn seat_is_bound_with_the_capabilities_of_use() {
    let mut context = EiContext::new();
    capability(&mut context, "ei_keyboard", 0x1);
    capability(&mut context, "ei_pointer", 0x2);
    capability(&mut context, "ei_pointer_absolute", 0x4);
    capability(&mut context, "ei_button", 0x18);
    capability(&mut context, "ei_scroll", 0x20);
    capability(&mut context, "ei_touchscreen", 0x40);
    assert_eq!(context.handle_event(EiEvent::SeatDone), Reply::Bind { capabilities: 0x3F });
    capability(&mut context, "ei_keyboard", 0x100);
    assert_eq!(context.handle_event(EiEvent::SeatDone), Reply::Bind { capabilities: 0x13E });
}

#[test]
fn seat_without_use_is_not_bound() {
    let mut context = EiContext::new();
    assert_eq!(context.handle_event(EiEvent::SeatDone), Reply::NothingToBind);
    capability(&mut context, "ei_touchscreen", 0x40);
    capability(&mut context, "ei_button", 0);
    assert_eq!(context.handle_event(EiEvent::SeatDone), Reply::NothingToBind);
}

#[test]
fn pings_and_keymaps_are_answered() {
    let mut context = EiContext::new();
    assert_eq!(context.handle_event(EiEvent::Ping), Reply::Done);
    assert_eq!(context.handle_event(EiEvent::Keymap { is_xkb: true }), Reply::ReadKeymap);
    assert_eq!(context.handle_event(EiEvent::Keymap { is_xkb: false }), Reply::Nothing);
    assert_eq!(context.handle_event(EiEvent::Other), Reply::Nothing);
}

#[test]
fn device_is_configured_from_what_is_said() {
    let mut context = EiContext::new();
    let region = Region { x: 5, y: 6, width: 7, height: 8, scale: 2.0f32.to_bits() };
    assert_eq!(context.handle_event(EiEvent::NewDevice { device: 9 }), Reply::Nothing);
    for event in [
        name("mouse"),
        DeviceEvent::DeviceType { device_type: DeviceType::Virtual },
        DeviceEvent::Region { region },
        DeviceEvent::Dimensions { width: 100, height: 200 },
        interface("ei_pointer"),
        interface("ei_button"),
        DeviceEvent::Other,
    ] {
        assert_eq!(context.handle_event(EiEvent::Device { device: 9, event }), Reply::Nothing);
    }
    assert!(context.devices.is_empty());
    context.handle_event(EiEvent::Device { device: 9, event: DeviceEvent::Done });
    assert!(context.pending_devices.is_empty());
    assert_eq!(context.devices.len(), 1);
    let device = &context.devices[0];
    assert_eq!(device.name, "mouse");
    assert_eq!(device.device_type, DeviceType::Virtual);
    assert_eq!(device.regions, vec![region]);
    assert_eq!(device.interfaces, vec!["ei_pointer", "ei_button"]);
}

#[test]
fn dimensions_before_regions_are_a_region() {
    let mut pending = PendingDeviceInfo::new();
    pending.learn(DeviceEvent::Dimensions { width: 100, height: 200 });
    let whole = Region { x: 0, y: 0, width: 100, height: 200, scale: 1.0f32.to_bits() };
    assert_eq!(pending.regions, vec![whole]);
    pending.learn(DeviceEvent::Dimensions { width: 1, height: 2 });
    assert_eq!(pending.regions, vec![whole]);
    let region = Region { x: 1, y: 1, width: 1, height: 1, scale: 0 };
    pending.learn(DeviceEvent::Region { region });
    assert_eq!(pending.regions, vec![whole, region]);
}

#[test]
fn incomplete_devices_are_dropped() {
    let mut context = EiContext::new();
    context.handle_event(EiEvent::NewDevice { device: 1 });
    context.handle_device_event(1, name("nameless type"));
    context.handle_device_event(1, DeviceEvent::Done);
    context.handle_event(EiEvent::NewDevice { device: 2 });
    context.handle_device_event(2, DeviceEvent::DeviceType { device_type: DeviceType::Physical });
    context.handle_device_event(2, DeviceEvent::Done);
    assert!(context.devices.is_empty());
    assert!(context.pending_devices.is_empty());
}

#[test]
fn unknown_devices_are_ignored() {
    let mut context = EiContext::new();
    context.handle_device_event(3, name("ghost"));
    context.handle_device_event(3, DeviceEvent::Done);
    assert!(context.devices.is_empty());
    assert!(context.pending_devices.is_empty());
}

#[test]
fn device_announced_again_starts_anew() {
    let mut context = EiContext::new();
    context.handle_event(EiEvent::NewDevice { device: 1 });
    context.handle_device_event(1, name("old"));
    context.handle_event(EiEvent::NewDevice { device: 1 });
    assert!(context.pending_devices[&1].name.is_none());
}

#[test]
fn essential_devices_are_a_virtual_keyboard_and_pointer() {
    let mut context = EiContext::new();
    assert!(!context.has_essential_devices());
    add_device(&mut context, 1, DeviceType::Virtual, "ei_keyboard");
    assert!(!context.has_essential_devices());
    add_device(&mut context, 2, DeviceType::Physical, "ei_pointer");
    assert!(!context.has_essential_devices());
    add_device(&mut context, 3, DeviceType::Virtual, "ei_button");
    assert!(!context.has_essential_devices());
    add_device(&mut context, 4, DeviceType::Virtual, "ei_pointer_absolute");
    assert!(context.has_essential_devices());
    let mut context = EiContext::new();
    add_device(&mut context, 1, DeviceType::Virtual, "ei_pointer");
    assert!(!context.has_essential_devices());
    add_device(&mut context, 2, DeviceType::Virtual, "ei_keyboard");
    assert!(context.has_essential_devices());
}

#[test]
fn devices_are_waited_for_until_the_time_is_over() {
    let mut context = EiContext::new();
    assert_eq!(context.discovery_step(0), Discovery::Wait { milliseconds: 50 });
    assert_eq!(context.discovery_step(4999), Discovery::Wait { milliseconds: 50 });
    assert_eq!(context.discovery_step(5000), Discovery::TimedOut);
    assert_eq!(context.discovery_step(u64::MAX), Discovery::TimedOut);
    add_device(&mut context, 1, DeviceType::Virtual, "ei_keyboard");
    assert_eq!(context.discovery_step(5000), Discovery::TimedOut);
    add_device(&mut context, 2, DeviceType::Virtual, "ei_pointer");
    assert_eq!(context.discovery_step(0), Discovery::Found);
    assert_eq!(context.discovery_step(6000), Discovery::Found);
}

#[test]
fn input_events_are_queued_and_taken() {
    let mut context = EiContext::new();
    context.handle_event(EiEvent::MotionRelative { x: Coord::from_i32(1), y: Coord::from_i32(2) });
    context.handle_event(EiEvent::Button { button: 0x110, is_press: true });
    context.handle_event(EiEvent::Key { key: 1, is_press: true });
    let events = context.take_input_events();
    assert_eq!(events.len(), 3);
    match &events[0] {
        InputEvent::PointerRelative { dx, dy } => {
            assert!(*dx == Coord::from_i32(1));
            assert!(*dy == Coord::from_i32(2));
        }
        other => panic!("{:?}", other),
    }
    assert!(matches!(events[1], InputEvent::Button { button: 1, is_press: true }));
    assert!(matches!(
        events[2],
        InputEvent::Key { keysym: 1, is_press: true, mask: 0, button: 1 }
    ));
    assert!(context.take_input_events().is_empty());
}

#[test]
fn keymap_is_loaded_into_the_keyboard() {
    let keymap = "xkb_keymap { xkb_keycodes { <A> = 38; }; xkb_types { \
        type \"ONE_LEVEL\" { modifiers = none; }; }; xkb_compat { }; \
        xkb_symbols { key <A> { type = \"ONE_LEVEL\", [ b ] }; }; };";
    let mut context = EiContext::new();
    assert!(context.load_keymap(&b"nothing".to_vec()).is_err());
    context.handle_event(EiEvent::Key { key: 30, is_press: true });
    if let Err(error) = context.load_keymap(&keymap.as_bytes().to_vec()) {
        panic!("{}", error);
    }
    context.handle_event(EiEvent::Key { key: 30, is_press: true });
    let events = context.take_input_events();
    assert!(matches!(events[0], InputEvent::Key { keysym: 30, .. }));
    assert!(matches!(events[1], InputEvent::Key { keysym: 0x62, .. }));
}
