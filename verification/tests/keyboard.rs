use kbvm::state_machine::Event as Change;
use kbvm::{Components, ControlsMask, GroupDelta, GroupIndex, Keycode, ModifierMask};
use schengen_server::ei::InputEvent;
use schengen_server::keyboard::{
    apply_events, choose_keysym, make_key_event, xk_to_deskflow_key, xkb_to_synergy_modifiers,
    Keyboard,
};

const KEYMAP: &str = r#"
xkb_keymap {
    xkb_keycodes {
        <BKSP> = 22;
        <AC01> = 38;
        <LFSH> = 50;
        <NONE> = 60;
    };
    xkb_types {
        type "ONE_LEVEL" {
            modifiers = none;
        };
        type "ALPHABETIC" {
            modifiers = Shift + Lock;
            map[Shift] = 2;
            map[Lock] = 2;
        };
    };
    xkb_compat {
    };
    xkb_symbols {
        key <BKSP> { type = "ONE_LEVEL", [ BackSpace ] };
        key <AC01> { type = "ALPHABETIC", [ a, A ] };
        key <LFSH> { type = "ONE_LEVEL", [ Shift_L ], actions[1] = [ SetMods(modifiers = Shift) ] };
    };
};
"#;

fn key(event: &InputEvent) -> (u32, bool, u16, u16) {
    match event {
        InputEvent::Key { keysym, is_press, mask, button } => (*keysym, *is_press, *mask, *button),
        other => panic!("{:?}", other),
    }
}

#[test]
fn modifiers_are_mapped() {
    assert_eq!(xkb_to_synergy_modifiers(0), 0);
    assert_eq!(xkb_to_synergy_modifiers(0x01), 0x0001);
    assert_eq!(xkb_to_synergy_modifiers(0x04), 0x0002);
    assert_eq!(xkb_to_synergy_modifiers(0x08), 0x0004);
    assert_eq!(xkb_to_synergy_modifiers(0x40), 0x0010);
    assert_eq!(xkb_to_synergy_modifiers(0x80), 0x0020);
    assert_eq!(xkb_to_synergy_modifiers(0x02), 0x1000);
    assert_eq!(xkb_to_synergy_modifiers(0x10), 0x2000);
    assert_eq!(xkb_to_synergy_modifiers(0x20), 0);
    assert_eq!(xkb_to_synergy_modifiers(0xFFFF_FFFF), 0x3037);
    assert_eq!(xkb_to_synergy_modifiers(0x05), 0x0003);
}

#[test]
fn special_keys_are_moved() {
    assert_eq!(xk_to_deskflow_key(0xFF08), 0xEF08);
    assert_eq!(xk_to_deskflow_key(0xFF00), 0xEF00);
    assert_eq!(xk_to_deskflow_key(0xFFFF), 0xEFFF);
    assert_eq!(xk_to_deskflow_key(0xFEFF), 0xFEFF);
    assert_eq!(xk_to_deskflow_key(0x1_0000), 0x1_0000);
    assert_eq!(xk_to_deskflow_key(0x61), 0x61);
    assert_eq!(xk_to_deskflow_key(0x0100_20AC), 0x0100_20AC);
}

#[test]
fn first_keysym_is_chosen() {
    assert_eq!(choose_keysym(&vec![0x61, 0x62], 30), 0x61);
    assert_eq!(choose_keysym(&vec![], 30), 30);
}

#[test]
fn last_change_is_in_effect() {
    let mut components = Components::default();
    apply_events(
        &mut components,
        &vec![
            Change::ModsPressed(ModifierMask(0x05)),
            Change::ModsEffective(ModifierMask(0x01)),
            Change::ModsEffective(ModifierMask(0x05)),
            Change::GroupEffective(GroupIndex(2)),
            Change::ModsLatched(ModifierMask(0x10)),
            Change::ModsLocked(ModifierMask(0x02)),
            Change::GroupPressed(GroupDelta(3)),
            Change::GroupLatched(GroupDelta(4)),
            Change::GroupLocked(GroupIndex(5)),
            Change::Controls(ControlsMask(6)),
            Change::KeyDown(Keycode::from_x11(38)),
            Change::KeyUp(Keycode::from_x11(38)),
        ],
    );
    assert_eq!(components.mods.0, 0x05);
    assert_eq!(components.mods_pressed.0, 0x05);
    assert_eq!(components.mods_latched.0, 0x10);
    assert_eq!(components.mods_locked.0, 0x02);
    assert_eq!(components.group.0, 2);
    assert_eq!(components.group_pressed.0, 3);
    assert_eq!(components.group_latched.0, 4);
    assert_eq!(components.group_locked.0, 5);
    assert_eq!(components.controls.0, 6);
    apply_events(&mut components, &vec![]);
    assert_eq!(components.mods.0, 0x05);
}

#[test]
fn key_events_carry_all_of_it() {
    let event = make_key_event(0xFF0D, true, 0x41, 0x1_0024);
    assert_eq!(key(&event), (0xEF0D, true, 0x0011, 0x0024));
}

#[test]
fn keys_pass_without_a_keymap() {
    let mut keyboard = Keyboard::new();
    assert_eq!(key(&keyboard.handle_key(30, true)), (30, true, 0, 30));
    assert_eq!(key(&keyboard.handle_key(30, false)), (30, false, 0, 30));
    assert_eq!(key(&keyboard.handle_key(u32::MAX, true)), (u32::MAX, true, 0, 0xFFFF));
    assert_eq!(key(&keyboard.handle_key(0xFF08, true)), (0xEF08, true, 0, 0xFF08));
}

#[test]
fn keymap_gives_keysyms_and_modifiers() {
    let mut keyboard = Keyboard::new();
    if let Err(error) = keyboard.load_keymap(&KEYMAP.as_bytes().to_vec()) {
        panic!("{}", error);
    }
    assert_eq!(key(&keyboard.handle_key(30, true)), (0x61, true, 0, 30));
    assert_eq!(key(&keyboard.handle_key(30, false)), (0x61, false, 0, 30));
    assert_eq!(key(&keyboard.handle_key(14, true)), (0xEF08, true, 0, 14));
    // The shift key is looked up before it counts, and counts in its own mask.
    assert_eq!(key(&keyboard.handle_key(42, true)), (0xEFE1, true, 0x0001, 42));
    assert_eq!(key(&keyboard.handle_key(30, true)), (0x41, true, 0x0001, 30));
    assert_eq!(key(&keyboard.handle_key(42, false)), (0xEFE1, false, 0, 42));
    assert_eq!(key(&keyboard.handle_key(30, false)), (0x61, false, 0, 30));
    // A key without a symbol is sent by its code.
    assert_eq!(key(&keyboard.handle_key(52, true)), (52, true, 0, 52));
}

#[test]
fn outcome_of_parsing_decides_what_is_loaded() {
    let parse = |text: &str| {
        kbvm::xkb::Context::default().keymap_from_bytes(
            (kbvm::xkb::diagnostic::WriteToLog, kbvm::xkb::diagnostic::Severity::Error),
            None,
            text.as_bytes(),
        )
    };
    let mut keyboard = Keyboard::new();
    assert!(keyboard.use_parsed(parse("no keymap")).is_err());
    assert_eq!(key(&keyboard.handle_key(30, true)), (30, true, 0, 30));
    assert!(keyboard.use_parsed(parse(KEYMAP)).is_ok());
    assert_eq!(key(&keyboard.handle_key(30, true)), (0x61, true, 0, 30));
}

#[test]
fn new_keymap_keeps_the_modifiers() {
    let mut keyboard = Keyboard::new();
    assert!(keyboard.load_keymap(&KEYMAP.as_bytes().to_vec()).is_ok());
    keyboard.handle_key(42, true);
    assert!(keyboard.load_keymap(&KEYMAP.as_bytes().to_vec()).is_ok());
    assert_eq!(key(&keyboard.handle_key(30, true)), (0x41, true, 0x0001, 30));
}

#[test]
fn bad_keymap_leaves_the_keyboard_as_it_is() {
    let mut keyboard = Keyboard::new();
    assert!(keyboard.load_keymap(&KEYMAP.as_bytes().to_vec()).is_ok());
    assert!(keyboard.load_keymap(&b"no keymap".to_vec()).is_err());
    assert_eq!(key(&keyboard.handle_key(30, true)), (0x61, true, 0, 30));
}
