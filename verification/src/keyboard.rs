//! The keyboard: from physical keys to the key codes and modifier masks of the
//! Synergy protocol, through the XKB keymap of the compositor.

use crate::ei::InputEvent;
use kbvm::lookup::LookupTable;
use kbvm::state_machine::Direction;
use kbvm::state_machine::Event as MachineEvent;
use kbvm::state_machine::State as MachineState;
use kbvm::state_machine::StateMachine;
use kbvm::xkb::diagnostic::Diagnostic;
use kbvm::xkb::Keymap;
use kbvm::Components;
use vstd::prelude::*;

verus! {

/// An XKB keymap.
#[verifier::external_type_specification]
#[verifier::external_body]
pub struct ExKeymap(Keymap);

/// What is wrong with an XKB keymap.
#[verifier::external_type_specification]
#[verifier::external_body]
pub struct ExDiagnostic(Diagnostic);

/// A table from keys to keysyms.
#[verifier::external_type_specification]
#[verifier::external_body]
pub struct ExLookupTable(LookupTable);

/// A machine that tracks modifiers and groups.
#[verifier::external_type_specification]
#[verifier::external_body]
pub struct ExStateMachine(StateMachine);

/// The state of a machine that tracks modifiers and groups.
#[verifier::external_type_specification]
#[verifier::external_body]
pub struct ExMachineState(MachineState);

/// A key by its number.
#[verifier::external_type_specification]
#[verifier::external_body]
pub struct ExKeycode(kbvm::Keycode);

/// Whether a key goes up or down.
#[verifier::external_type_specification]
pub struct ExDirection(Direction);

/// What changes when a key goes up or down.
#[verifier::external_type_specification]
pub struct ExMachineEvent(MachineEvent);

/// A set of modifiers, as bits.
#[verifier::external_type_specification]
pub struct ExModifierMask(kbvm::ModifierMask);

/// A keyboard group.
#[verifier::external_type_specification]
pub struct ExGroupIndex(kbvm::GroupIndex);

/// A change of the keyboard group.
#[verifier::external_type_specification]
pub struct ExGroupDelta(kbvm::GroupDelta);

/// A set of keyboard controls, as bits.
#[verifier::external_type_specification]
pub struct ExControlsMask(kbvm::ControlsMask);

/// The modifiers, groups and controls of a keyboard.
#[verifier::external_type_specification]
pub struct ExComponents(Components);

/// The keysyms that a table gives for a key, with this group and these modifiers
/// in effect.
pub uninterp spec fn table_keysyms(
    table: LookupTable,
    group: u32,
    modifiers: u32,
    keycode: u32,
) -> Seq<u32>;

/// Whether parsing these bytes as an XKB keymap can come out like this, in some
/// environment and with some files on the system.
pub uninterp spec fn can_parse_as(bytes: Seq<u8>, parsed: Result<Keymap, Diagnostic>) -> bool;

/// The keysyms that a keymap gives for a key, with this group and these modifiers
/// in effect.
pub uninterp spec fn keymap_keysyms(
    keymap: Keymap,
    group: u32,
    modifiers: u32,
    keycode: u32,
) -> Seq<u32>;

/// Whether the machine is one that can be built for the keymap.
pub uninterp spec fn is_machine_of(machine: StateMachine, keymap: Keymap) -> bool;

/// The state in which a machine starts.
pub uninterp spec fn start_state(machine: StateMachine) -> MachineState;

/// The state of a machine after a key went up or down, and what changed.
pub uninterp spec fn key_step(
    machine: StateMachine,
    state: MachineState,
    keycode: u32,
    direction: Direction,
) -> (MachineState, Seq<MachineEvent>);

/// Whether the state is one that the machine was started in or has come to.
pub uninterp spec fn is_state_of(state: MachineState, machine: StateMachine) -> bool;

/// Whether the table gives the keysyms that the keymap gives, for every key, group
/// and set of modifiers.
pub open spec fn is_table_of(table: LookupTable, keymap: Keymap) -> bool {
    forall|group: u32, modifiers: u32, keycode: u32| #[trigger]
        table_keysyms(table, group, modifiers, keycode) == keymap_keysyms(
            keymap,
            group,
            modifiers,
            keycode,
        )
}

/// The number of the key with a Linux key code, in X.
pub open spec fn x_keycode(key: u32) -> u32 {
    if key + 8 > u32::MAX {
        u32::MAX
    } else {
        (key + 8) as u32
    }
}

/// The number of the key with a Linux key code, in X.
///
/// Calls `kbvm::Keycode::from_evdev`. Claimed is that it adds 8, and gives the
/// largest number where the sum would be larger.
#[verifier::external_body]
fn keycode_from_evdev(key: u32) -> (keycode: u32)
    ensures
        keycode == x_keycode(key),
{
    kbvm::Keycode::from_evdev(key).raw()
}

/// Look up the keysyms of a key.
///
/// Calls `kbvm::lookup::LookupTable::lookup`. Claimed is that the keysyms depend
/// on nothing but the table, the group, the modifiers and the key.
#[verifier::external_body]
fn lookup_keysyms(table: &LookupTable, group: u32, modifiers: u32, keycode: u32) -> (keysyms: Vec<
    u32,
>)
    ensures
        keysyms@ == table_keysyms(*table, group, modifiers, keycode),
{
    table.lookup(
        kbvm::GroupIndex(group),
        kbvm::ModifierMask(modifiers),
        kbvm::Keycode::from_x11(keycode),
    ).into_iter().map(|props| props.keysym().0).collect()
}

/// Parse an XKB keymap.
///
/// Calls `kbvm::xkb::Context::keymap_from_bytes`. Claimed is that the outcome is
/// one that these bytes can have. Which one it is, is left unsaid: the keymap may
/// refer to files of the system, whose places depend on the environment.
#[verifier::external_body]
fn parse_keymap(bytes: &Vec<u8>) -> (parsed: Result<Keymap, Diagnostic>)
    ensures
        can_parse_as(bytes@, parsed),
{
    kbvm::xkb::Context::default().keymap_from_bytes(
        (kbvm::xkb::diagnostic::WriteToLog, kbvm::xkb::diagnostic::Severity::Error),
        None,
        bytes,
    )
}

/// Build the table for a keymap.
///
/// Calls `kbvm::builder::Builder::build_lookup_table` on the builder that
/// `Keymap::to_builder` gives. Claimed is that the keysyms that the table gives
/// depend on nothing but the keymap, the group, the modifiers and the key. Two
/// tables for one keymap may differ in how they are laid out.
#[verifier::external_body]
fn build_lookup_table(keymap: &Keymap) -> (table: LookupTable)
    ensures
        forall|group: u32, modifiers: u32, keycode: u32| #[trigger]
            table_keysyms(table, group, modifiers, keycode) == keymap_keysyms(
                *keymap,
                group,
                modifiers,
                keycode,
            ),
{
    keymap.to_builder().build_lookup_table()
}

/// Build the machine for a keymap.
///
/// Calls `kbvm::builder::Builder::build_state_machine` on the builder that
/// `Keymap::to_builder` gives. Claimed is that the machine is one that can be
/// built for the keymap. Two machines for one keymap may differ in how they are
/// laid out.
#[verifier::external_body]
fn build_state_machine(keymap: &Keymap) -> (machine: StateMachine)
    ensures
        is_machine_of(machine, *keymap),
{
    keymap.to_builder().build_state_machine()
}

/// Create the state in which a machine starts.
///
/// Calls `kbvm::state_machine::StateMachine::create_state`. Claimed is that the
/// state depends on nothing but the machine, and can be used with it.
#[verifier::external_body]
fn create_state(machine: &StateMachine) -> (state: MachineState)
    ensures
        state == start_state(*machine),
        is_state_of(state, *machine),
{
    machine.create_state()
}

/// Let a key go up or down. Returned is what changed.
///
/// Calls `kbvm::state_machine::StateMachine::handle_key`, which may panic on a
/// state of another machine. Claimed is that the new state and the changes depend
/// on nothing but the machine, the state, the key and the direction, and that the
/// new state can be used with the machine as the old one could.
#[verifier::external_body]
fn step_machine(
    machine: &StateMachine,
    state: &mut MachineState,
    keycode: u32,
    direction: Direction,
) -> (events: Vec<MachineEvent>)
    requires
        is_state_of(*old(state), *machine),
    ensures
        *final(state) == key_step(*machine, *old(state), keycode, direction).0,
        events@ == key_step(*machine, *old(state), keycode, direction).1,
        is_state_of(*final(state), *machine),
{
    let mut events = Vec::new();
    machine.handle_key(state, &mut events, kbvm::Keycode::from_x11(keycode), direction);
    events
}

/// No modifiers, groups or controls.
///
/// Calls `kbvm::Components::default`. Claimed is that every component is 0.
#[verifier::external_body]
fn no_components() -> (components: Components)
    ensures
        components.mods_pressed.0 == 0,
        components.mods_latched.0 == 0,
        components.mods_locked.0 == 0,
        components.mods.0 == 0,
        components.group_pressed.0 == 0,
        components.group_latched.0 == 0,
        components.group_locked.0 == 0,
        components.group.0 == 0,
        components.controls.0 == 0,
{
    Components::default()
}

/// `Components::apply_event` takes over the value that an event of the state
/// machine carries: the component that the event names changes to it, and all
/// others stay as they are. An event about a key changes nothing. Returned is
/// whether anything changed.
pub assume_specification[ Components::apply_event ](
    components: &mut Components,
    event: MachineEvent,
) -> (changed: bool)
    ensures
        final(components).mods_pressed == match event {
            MachineEvent::ModsPressed(modifiers) => modifiers,
            _ => old(components).mods_pressed,
        },
        final(components).mods_latched == match event {
            MachineEvent::ModsLatched(modifiers) => modifiers,
            _ => old(components).mods_latched,
        },
        final(components).mods_locked == match event {
            MachineEvent::ModsLocked(modifiers) => modifiers,
            _ => old(components).mods_locked,
        },
        final(components).mods == match event {
            MachineEvent::ModsEffective(modifiers) => modifiers,
            _ => old(components).mods,
        },
        final(components).group_pressed == match event {
            MachineEvent::GroupPressed(group) => group,
            _ => old(components).group_pressed,
        },
        final(components).group_latched == match event {
            MachineEvent::GroupLatched(group) => group,
            _ => old(components).group_latched,
        },
        final(components).group_locked == match event {
            MachineEvent::GroupLocked(group) => group,
            _ => old(components).group_locked,
        },
        final(components).group == match event {
            MachineEvent::GroupEffective(group) => group,
            _ => old(components).group,
        },
        final(components).controls == match event {
            MachineEvent::Controls(controls) => controls,
            _ => old(components).controls,
        },
        changed == (*final(components) != *old(components)),
;

/// X11/XKB modifier bits.
pub const XKB_SHIFT: u32 = 0x01;

pub const XKB_LOCK: u32 = 0x02;

pub const XKB_CONTROL: u32 = 0x04;

/// Alt.
pub const XKB_MOD1: u32 = 0x08;

/// Num Lock.
pub const XKB_MOD2: u32 = 0x10;

/// Super or Windows.
pub const XKB_MOD4: u32 = 0x40;

/// AltGr, typically.
pub const XKB_MOD5: u32 = 0x80;

/// Synergy modifier bits.
pub const SYNERGY_SHIFT: u16 = 0x0001;

pub const SYNERGY_CONTROL: u16 = 0x0002;

pub const SYNERGY_ALT: u16 = 0x0004;

pub const SYNERGY_SUPER: u16 = 0x0010;

pub const SYNERGY_ALTGR: u16 = 0x0020;

pub const SYNERGY_CAPS_LOCK: u16 = 0x1000;

pub const SYNERGY_NUM_LOCK: u16 = 0x2000;

/// The Synergy bit for an XKB bit, where that is set.
pub open spec fn modifier_bit(xkb_mask: u32, from: u32, to: u16) -> u16 {
    if xkb_mask & from != 0 {
        to
    } else {
        0
    }
}

/// The Synergy modifiers for XKB modifiers.
pub open spec fn synergy_modifiers(xkb_mask: u32) -> u16 {
    modifier_bit(xkb_mask, XKB_SHIFT, SYNERGY_SHIFT) | modifier_bit(
        xkb_mask,
        XKB_CONTROL,
        SYNERGY_CONTROL,
    ) | modifier_bit(xkb_mask, XKB_MOD1, SYNERGY_ALT) | modifier_bit(
        xkb_mask,
        XKB_MOD4,
        SYNERGY_SUPER,
    ) | modifier_bit(xkb_mask, XKB_MOD5, SYNERGY_ALTGR) | modifier_bit(
        xkb_mask,
        XKB_LOCK,
        SYNERGY_CAPS_LOCK,
    ) | modifier_bit(xkb_mask, XKB_MOD2, SYNERGY_NUM_LOCK)
}

/// The Synergy bit for an XKB bit, where that is set.
fn map_modifier(xkb_mask: u32, from: u32, to: u16) -> (bit: u16)
    ensures
        bit == modifier_bit(xkb_mask, from, to),
{
    if xkb_mask & from != 0 {
        to
    } else {
        0
    }
}

/// Convert an XKB modifier mask to a Synergy modifier mask.
pub fn xkb_to_synergy_modifiers(xkb_mask: u32) -> (synergy_mask: u16)
    ensures
        synergy_mask == synergy_modifiers(xkb_mask),
{
    map_modifier(xkb_mask, XKB_SHIFT, SYNERGY_SHIFT) | map_modifier(
        xkb_mask,
        XKB_CONTROL,
        SYNERGY_CONTROL,
    ) | map_modifier(xkb_mask, XKB_MOD1, SYNERGY_ALT) | map_modifier(
        xkb_mask,
        XKB_MOD4,
        SYNERGY_SUPER,
    ) | map_modifier(xkb_mask, XKB_MOD5, SYNERGY_ALTGR) | map_modifier(
        xkb_mask,
        XKB_LOCK,
        SYNERGY_CAPS_LOCK,
    ) | map_modifier(xkb_mask, XKB_MOD2, SYNERGY_NUM_LOCK)
}

/// A Synergy modifier is set exactly when its XKB modifier is, and no others are
/// ever set.
pub proof fn law_modifiers_map_one_to_one(xkb_mask: u32)
    ensures
        synergy_modifiers(xkb_mask) & SYNERGY_SHIFT != 0 <==> xkb_mask & XKB_SHIFT != 0,
        synergy_modifiers(xkb_mask) & SYNERGY_CONTROL != 0 <==> xkb_mask & XKB_CONTROL != 0,
        synergy_modifiers(xkb_mask) & SYNERGY_ALT != 0 <==> xkb_mask & XKB_MOD1 != 0,
        synergy_modifiers(xkb_mask) & SYNERGY_SUPER != 0 <==> xkb_mask & XKB_MOD4 != 0,
        synergy_modifiers(xkb_mask) & SYNERGY_ALTGR != 0 <==> xkb_mask & XKB_MOD5 != 0,
        synergy_modifiers(xkb_mask) & SYNERGY_CAPS_LOCK != 0 <==> xkb_mask & XKB_LOCK != 0,
        synergy_modifiers(xkb_mask) & SYNERGY_NUM_LOCK != 0 <==> xkb_mask & XKB_MOD2 != 0,
        synergy_modifiers(xkb_mask) & 0xCFC8u16 == 0,
{
    assert(synergy_modifiers(xkb_mask) & SYNERGY_SHIFT != 0 <==> xkb_mask & XKB_SHIFT != 0)
        by (bit_vector);
    assert(synergy_modifiers(xkb_mask) & SYNERGY_CONTROL != 0 <==> xkb_mask & XKB_CONTROL != 0)
        by (bit_vector);
    assert(synergy_modifiers(xkb_mask) & SYNERGY_ALT != 0 <==> xkb_mask & XKB_MOD1 != 0)
        by (bit_vector);
    assert(synergy_modifiers(xkb_mask) & SYNERGY_SUPER != 0 <==> xkb_mask & XKB_MOD4 != 0)
        by (bit_vector);
    assert(synergy_modifiers(xkb_mask) & SYNERGY_ALTGR != 0 <==> xkb_mask & XKB_MOD5 != 0)
        by (bit_vector);
    assert(synergy_modifiers(xkb_mask) & SYNERGY_CAPS_LOCK != 0 <==> xkb_mask & XKB_LOCK != 0)
        by (bit_vector);
    assert(synergy_modifiers(xkb_mask) & SYNERGY_NUM_LOCK != 0 <==> xkb_mask & XKB_MOD2 != 0)
        by (bit_vector);
    assert(synergy_modifiers(xkb_mask) & 0xCFC8u16 == 0) by (bit_vector);
}

/// Modifiers are mapped one by one: those of a union are the union of those of
/// its parts.
pub proof fn law_modifiers_map_unions(a: u32, b: u32)
    ensures
        synergy_modifiers(a | b) == synergy_modifiers(a) | synergy_modifiers(b),
{
    assert(synergy_modifiers(a | b) == synergy_modifiers(a) | synergy_modifiers(b)) by (bit_vector);
}

/// The Deskflow key for an X11 keysym: special keys are 0xFFxx in X11, and 0xEFxx
/// in Deskflow. All others are the same.
pub open spec fn deskflow_key(xk_keysym: u32) -> u32 {
    if 0xFF00 <= xk_keysym <= 0xFFFF {
        (xk_keysym - 0x1000) as u32
    } else {
        xk_keysym
    }
}

/// Convert an X11 keysym to a Deskflow key.
pub fn xk_to_deskflow_key(xk_keysym: u32) -> (key: u32)
    ensures
        key == deskflow_key(xk_keysym),
{
    if 0xFF00 <= xk_keysym && xk_keysym <= 0xFFFF {
        let key: u32 = 0xEF00 | (xk_keysym & 0x00FF);
        assert(key == (xk_keysym - 0x1000) as u32) by (bit_vector)
            requires
                0xFF00 <= xk_keysym <= 0xFFFF,
                key == 0xEF00u32 | (xk_keysym & 0x00FFu32),
        ;
        key
    } else {
        xk_keysym
    }
}

/// A special key keeps its last byte and becomes 0xEFxx; no key is mapped to the
/// range that the special keys left, and keys stay apart within either range.
pub proof fn law_special_keys_are_moved(a: u32, b: u32)
    ensures
        0xFF00 <= a <= 0xFFFF ==> 0xEF00 <= deskflow_key(a) <= 0xEFFF && deskflow_key(a) % 0x100
            == a % 0x100,
        !(0xFF00 <= a <= 0xFFFF) ==> deskflow_key(a) == a,
        !(0xFF00 <= deskflow_key(a) <= 0xFFFF),
        (0xFF00 <= a <= 0xFFFF <==> 0xFF00 <= b <= 0xFFFF) && deskflow_key(a) == deskflow_key(b)
            ==> a == b,
{
}

/// What a keyboard needs from its keymap.
struct Layout {
    /// Converts key codes to keysyms.
    table: LookupTable,
    /// Tracks the modifiers.
    machine: StateMachine,
    /// The state of the machine.
    state: MachineState,
}

/// A keyboard, with the modifiers and the group in effect.
pub struct Keyboard {
    layout: Option<Layout>,
    components: Components,
}

/// What a keyboard has come to.
pub ghost struct KeyboardView {
    /// The table, the machine and its state, if a keymap is loaded.
    pub layout: Option<(LookupTable, StateMachine, MachineState)>,
    /// The modifiers, groups and controls.
    pub components: ComponentsView,
}

/// The numbers of all modifiers, groups and controls of a keyboard.
pub ghost struct ComponentsView {
    pub mods_pressed: u32,
    pub mods_latched: u32,
    pub mods_locked: u32,
    /// The modifiers in effect.
    pub mods: u32,
    pub group_pressed: u32,
    pub group_latched: u32,
    pub group_locked: u32,
    /// The group in effect.
    pub group: u32,
    pub controls: u32,
}

/// The numbers of all modifiers, groups and controls of a keyboard.
pub open spec fn components_view(components: Components) -> ComponentsView {
    ComponentsView {
        mods_pressed: components.mods_pressed.0,
        mods_latched: components.mods_latched.0,
        mods_locked: components.mods_locked.0,
        mods: components.mods.0,
        group_pressed: components.group_pressed.0,
        group_latched: components.group_latched.0,
        group_locked: components.group_locked.0,
        group: components.group.0,
        controls: components.controls.0,
    }
}

impl ComponentsView {
    /// No modifiers, groups or controls.
    pub open spec fn none() -> ComponentsView {
        ComponentsView {
            mods_pressed: 0,
            mods_latched: 0,
            mods_locked: 0,
            mods: 0,
            group_pressed: 0,
            group_latched: 0,
            group_locked: 0,
            group: 0,
            controls: 0,
        }
    }

    /// The components after one change: the one that it names has the new value.
    pub open spec fn after_event(self, event: MachineEvent) -> ComponentsView {
        match event {
            MachineEvent::ModsPressed(changed) => ComponentsView { mods_pressed: changed.0, ..self },
            MachineEvent::ModsLatched(changed) => ComponentsView { mods_latched: changed.0, ..self },
            MachineEvent::ModsLocked(changed) => ComponentsView { mods_locked: changed.0, ..self },
            MachineEvent::ModsEffective(changed) => ComponentsView { mods: changed.0, ..self },
            MachineEvent::GroupPressed(changed) => ComponentsView { group_pressed: changed.0, ..self },
            MachineEvent::GroupLatched(changed) => ComponentsView { group_latched: changed.0, ..self },
            MachineEvent::GroupLocked(changed) => ComponentsView { group_locked: changed.0, ..self },
            MachineEvent::GroupEffective(changed) => ComponentsView { group: changed.0, ..self },
            MachineEvent::Controls(changed) => ComponentsView { controls: changed.0, ..self },
            MachineEvent::KeyDown(_) => self,
            MachineEvent::KeyUp(_) => self,
        }
    }

    /// The components after some changes, one after the other.
    pub open spec fn after_events(self, events: Seq<MachineEvent>) -> ComponentsView
        decreases events.len(),
    {
        if events.len() == 0 {
            self
        } else {
            self.after_events(events.drop_last()).after_event(events.last())
        }
    }
}

/// The keysym of a key: the first that was found for it, or else the key code
/// itself.
pub open spec fn first_keysym(keysyms: Seq<u32>, key: u32) -> u32 {
    if keysyms.len() > 0 {
        keysyms[0]
    } else {
        key
    }
}

/// Choose the keysym of a key from those that were found for it.
pub fn choose_keysym(keysyms: &Vec<u32>, key: u32) -> (keysym: u32)
    ensures
        keysym == first_keysym(keysyms@, key),
{
    if keysyms.len() > 0 {
        keysyms[0]
    } else {
        key
    }
}

/// Apply changes, one after the other.
pub fn apply_events(components: &mut Components, events: &Vec<MachineEvent>)
    ensures
        components_view(*final(components)) == components_view(*old(components)).after_events(
            events@,
        ),
{
    let ghost before = components_view(*components);
    let mut i: usize = 0;
    while i < events.len()
        invariant
            i <= events@.len(),
            components_view(*components) == before.after_events(events@.take(i as int)),
        decreases events@.len() - i,
    {
        components.apply_event(events[i]);
        assert(events@.take(i + 1).drop_last() =~= events@.take(i as int));
        i = i + 1;
    }
    assert(events@.take(i as int) =~= events@);
}

/// The input event for a key, from its keysym, the modifiers in effect and its
/// Linux key code.
pub open spec fn key_input(keysym: u32, is_press: bool, modifiers: u32, key: u32) -> InputEvent {
    InputEvent::Key {
        keysym: deskflow_key(keysym),
        is_press,
        mask: synergy_modifiers(modifiers),
        button: (key & 0xFFFF) as u16,
    }
}

/// Make the input event for a key, from its keysym, the modifiers in effect and
/// its Linux key code.
pub fn make_key_event(keysym: u32, is_press: bool, modifiers: u32, key: u32) -> (event: InputEvent)
    ensures
        event == key_input(keysym, is_press, modifiers, key),
{
    InputEvent::Key {
        keysym: xk_to_deskflow_key(keysym),
        is_press,
        mask: xkb_to_synergy_modifiers(modifiers),
        button: (key & 0xFFFF) as u16,
    }
}

/// The direction in which a key goes.
pub open spec fn direction_of(is_press: bool) -> Direction {
    if is_press {
        Direction::Down
    } else {
        Direction::Up
    }
}

impl KeyboardView {
    /// The keysym of a key: the first that the table has for it with the modifiers
    /// and the group in effect, or else the key code itself.
    pub open spec fn keysym(self, key: u32) -> u32 {
        match self.layout {
            None => key,
            Some((table, _, _)) => first_keysym(
                table_keysyms(
                    table,
                    self.components.group,
                    self.components.mods,
                    x_keycode(key),
                ),
                key,
            ),
        }
    }

    /// The keyboard after a key went up or down.
    pub open spec fn after_key(self, key: u32, is_press: bool) -> KeyboardView {
        match self.layout {
            None => self,
            Some((table, machine, state)) => {
                let (next, events) = key_step(
                    machine,
                    state,
                    x_keycode(key),
                    direction_of(is_press),
                );
                KeyboardView {
                    layout: Some((table, machine, next)),
                    components: self.components.after_events(events),
                }
            },
        }
    }

    /// The input event for a key that went up or down: its keysym with the
    /// modifiers in effect before, and the modifiers in effect after.
    pub open spec fn key_event(self, key: u32, is_press: bool) -> InputEvent {
        key_input(
            self.keysym(key),
            is_press,
            self.after_key(key, is_press).components.mods,
            key,
        )
    }

    /// Whether `after` is the keyboard once a keymap is in use: with a table and a
    /// machine for the keymap, and the machine where it starts. The modifiers,
    /// groups and controls stay.
    pub open spec fn takes_keymap(self, keymap: Keymap, after: KeyboardView) -> bool {
        &&& after.layout matches Some((table, machine, state))
        &&& is_table_of(table, keymap)
        &&& is_machine_of(machine, keymap)
        &&& state == start_state(machine)
        &&& after.components == self.components
    }

    /// Whether `after` is the keyboard once the outcome of parsing a keymap was
    /// taken in. It stays as it is where there is no keymap.
    pub open spec fn takes_parsed(
        self,
        parsed: Result<Keymap, Diagnostic>,
        after: KeyboardView,
    ) -> bool {
        match parsed {
            Ok(keymap) => self.takes_keymap(keymap, after),
            Err(_) => after == self,
        }
    }
}

/// What is reported of the outcome of parsing a keymap.
pub open spec fn load_report(parsed: Result<Keymap, Diagnostic>) -> Result<(), Diagnostic> {
    match parsed {
        Ok(_) => Ok(()),
        Err(error) => Err(error),
    }
}

impl View for Keyboard {
    type V = KeyboardView;

    closed spec fn view(&self) -> KeyboardView {
        KeyboardView {
            layout: match self.layout {
                None => None,
                Some(layout) => Some((layout.table, layout.machine, layout.state)),
            },
            components: components_view(self.components),
        }
    }
}

impl Keyboard {
    /// The state of a keyboard's machine is one of that machine.
    #[verifier::type_invariant]
    pub open spec fn well_formed(self) -> bool {
        self@.layout matches Some((_, machine, state)) ==> is_state_of(state, machine)
    }

    /// A keyboard without a keymap and without modifiers.
    pub fn new() -> (keyboard: Keyboard)
        ensures
            keyboard@ == (KeyboardView { layout: None, components: ComponentsView::none() }),
    {
        Keyboard { layout: None, components: no_components() }
    }

    /// Use a keymap from now on.
    pub fn use_keymap(&mut self, keymap: &Keymap)
        ensures
            old(self)@.takes_keymap(*keymap, final(self)@),
    {
        let table = build_lookup_table(keymap);
        let machine = build_state_machine(keymap);
        let state = create_state(&machine);
        self.layout = Some(Layout { table, machine, state });
    }

    /// Use a keymap that was parsed from now on. If it could not be parsed, the
    /// keyboard stays as it is, and what is wrong with the keymap is returned.
    pub fn use_parsed(&mut self, parsed: Result<Keymap, Diagnostic>) -> (loaded: Result<
        (),
        Diagnostic,
    >)
        ensures
            loaded == load_report(parsed),
            old(self)@.takes_parsed(parsed, final(self)@),
    {
        match parsed {
            Ok(keymap) => {
                self.use_keymap(&keymap);
                Ok(())
            },
            Err(error) => Err(error),
        }
    }

    /// Parse an XKB keymap, and use it from now on. If it cannot be parsed, the
    /// keyboard stays as it is.
    pub fn load_keymap(&mut self, bytes: &Vec<u8>) -> (loaded: Result<(), Diagnostic>)
        ensures
            exists|parsed: Result<Keymap, Diagnostic>| #[trigger]
                can_parse_as(bytes@, parsed) && loaded == load_report(parsed)
                    && old(self)@.takes_parsed(parsed, final(self)@),
    {
        let parsed = parse_keymap(bytes);
        self.use_parsed(parsed)
    }

    /// The keysym of a key, with the modifiers and the group in effect.
    fn find_keysym(&self, key: u32) -> (keysym: u32)
        ensures
            keysym == self@.keysym(key),
    {
        match &self.layout {
            None => key,
            Some(layout) => {
                let keysyms = lookup_keysyms(
                    &layout.table,
                    self.components.group.0,
                    self.components.mods.0,
                    keycode_from_evdev(key),
                );
                choose_keysym(&keysyms, key)
            },
        }
    }

    /// Track the modifiers and the group through a key that goes up or down.
    fn track_key(&mut self, key: u32, is_press: bool)
        ensures
            final(self)@ == old(self)@.after_key(key, is_press),
    {
        proof {
            use_type_invariant(&*self);
        }
        let mut layout: Option<Layout> = None;
        core::mem::swap(&mut layout, &mut self.layout);
        match layout {
            None => {},
            Some(mut layout) => {
                let direction = if is_press {
                    Direction::Down
                } else {
                    Direction::Up
                };
                let events = step_machine(
                    &layout.machine,
                    &mut layout.state,
                    keycode_from_evdev(key),
                    direction,
                );
                let mut components = self.components;
                apply_events(&mut components, &events);
                self.components = components;
                self.layout = Some(layout);
            },
        }
    }

    /// Handle a key that goes up or down.
    ///
    /// The keysym is looked up before the modifiers are tracked through the key, so
    /// that a modifier key is looked up without its own modifier.
    pub fn handle_key(&mut self, key: u32, is_press: bool) -> (event: InputEvent)
        ensures
            event == old(self)@.key_event(key, is_press),
            final(self)@ == old(self)@.after_key(key, is_press),
    {
        let keysym: u32 = self.find_keysym(key);
        self.track_key(key, is_press);
        make_key_event(keysym, is_press, self.components.mods.0, key)
    }
}

/// Without a keymap, keys are sent by their code, and change no modifiers.
pub proof fn law_keys_pass_without_keymap(keyboard: KeyboardView, key: u32, is_press: bool)
    requires
        keyboard.layout is None,
    ensures
        keyboard.key_event(key, is_press) == key_input(
            key,
            is_press,
            keyboard.components.mods,
            key,
        ),
        keyboard.after_key(key, is_press) == keyboard,
{
}

/// Once a keymap is in use, the keysym of a key is the one that the keymap gives
/// for it, with the modifiers and the group that were in effect before.
pub proof fn law_keysyms_come_from_the_keymap(
    before: KeyboardView,
    keymap: Keymap,
    after: KeyboardView,
    key: u32,
)
    requires
        before.takes_keymap(keymap, after),
    ensures
        after.keysym(key) == first_keysym(
            keymap_keysyms(
                keymap,
                before.components.group,
                before.components.mods,
                x_keycode(key),
            ),
            key,
        ),
{
}

/// Keys leave the keymap in use: the table and the machine stay, so that the
/// keysyms still are those of the keymap.
pub proof fn law_keys_keep_the_keymap(
    keyboard: KeyboardView,
    table: LookupTable,
    machine: StateMachine,
    state: MachineState,
    key: u32,
    is_press: bool,
)
    requires
        keyboard.layout == Some((table, machine, state)),
    ensures
        keyboard.after_key(key, is_press).layout matches Some((table_after, machine_after, _))
            && table_after == table && machine_after == machine,
{
}

/// The physical key code of a key event is the Linux key code.
pub proof fn law_key_code_is_kept(keyboard: KeyboardView, key: u32, is_press: bool)
    requires
        key <= 0xFFFF,
    ensures
        keyboard.key_event(key, is_press) matches InputEvent::Key { button, .. } && button == key,
{
    assert((key & 0xFFFF) as u16 == key) by (bit_vector)
        requires
            key <= 0xFFFF,
    ;
}

/// The modifiers in effect after some changes are those of the last change of them;
/// changes of anything else leave them as they are.
pub proof fn law_last_change_of_modifiers_counts(
    components: ComponentsView,
    events: Seq<MachineEvent>,
    event: MachineEvent,
)
    ensures
        components.after_events(events.push(event)).mods == match event {
            MachineEvent::ModsEffective(changed) => changed.0,
            _ => components.after_events(events).mods,
        },
{
    assert(events.push(event).drop_last() =~= events);
}

/// The modifiers of XKB and of Synergy that stand for each other: Shift, Control,
/// Alt, Super, AltGr, Caps Lock and Num Lock. No other bit is ever set.
pub proof fn law_modifier_bits(xkb_mask: u32, synergy_mask: u16)
    requires
        call_ensures(xkb_to_synergy_modifiers, (xkb_mask,), synergy_mask),
    ensures
        synergy_mask & 0x0001u16 != 0 <==> xkb_mask & 0x01u32 != 0,
        synergy_mask & 0x0002u16 != 0 <==> xkb_mask & 0x04u32 != 0,
        synergy_mask & 0x0004u16 != 0 <==> xkb_mask & 0x08u32 != 0,
        synergy_mask & 0x0010u16 != 0 <==> xkb_mask & 0x40u32 != 0,
        synergy_mask & 0x0020u16 != 0 <==> xkb_mask & 0x80u32 != 0,
        synergy_mask & 0x1000u16 != 0 <==> xkb_mask & 0x02u32 != 0,
        synergy_mask & 0x2000u16 != 0 <==> xkb_mask & 0x10u32 != 0,
        synergy_mask & 0xCFC8u16 == 0,
{
    law_modifiers_map_one_to_one(xkb_mask);
}

/// The keys from 0xFF00 to 0xFFFF move down by 0x1000, and all others stay.
pub proof fn law_keys_move_down(xk_keysym: u32, key: u32)
    requires
        call_ensures(xk_to_deskflow_key, (xk_keysym,), key),
    ensures
        0xFF00 <= xk_keysym <= 0xFFFF ==> key == xk_keysym - 0x1000,
        xk_keysym < 0xFF00 || xk_keysym > 0xFFFF ==> key == xk_keysym,
{
}

/// Of the keysyms that were found the first is chosen; where there is none, the key
/// stands for itself.
pub proof fn law_first_keysym_is_chosen(keysyms: &Vec<u32>, key: u32, keysym: u32)
    requires
        call_ensures(choose_keysym, (keysyms, key), keysym),
    ensures
        keysyms@.len() >= 1 ==> keysym == keysyms@[0],
        keysyms@.len() == 0 ==> keysym == key,
{
}

/// The input event of a key says whether it was pressed or released, and carries
/// what its keysym and the modifiers are turned into, with the last 16 bits of the
/// key code.
pub proof fn law_key_events_carry_the_key(
    keysym: u32,
    is_press: bool,
    modifiers: u32,
    key: u32,
    event: InputEvent,
    sent_key: u32,
    sent_mask: u16,
)
    requires
        call_ensures(make_key_event, (keysym, is_press, modifiers, key), event),
        call_ensures(xk_to_deskflow_key, (keysym,), sent_key),
        call_ensures(xkb_to_synergy_modifiers, (modifiers,), sent_mask),
    ensures
        event matches InputEvent::Key { keysym: sent, is_press: pressed, mask, button } && {
            &&& sent == sent_key
            &&& pressed == is_press
            &&& mask == sent_mask
            &&& button == key % 0x1_0000
        },
{
    assert((key & 0xFFFF) as u16 == key % 0x1_0000) by (bit_vector);
}

/// A part of what a keyboard tracks.
pub ghost enum Part {
    PressedModifiers,
    LatchedModifiers,
    LockedModifiers,
    Modifiers,
    PressedGroup,
    LatchedGroup,
    LockedGroup,
    Group,
    Controls,
}

/// The number that a keyboard has for one of the parts.
pub open spec fn part_of(components: Components, part: Part) -> u32 {
    match part {
        Part::PressedModifiers => components.mods_pressed.0,
        Part::LatchedModifiers => components.mods_latched.0,
        Part::LockedModifiers => components.mods_locked.0,
        Part::Modifiers => components.mods.0,
        Part::PressedGroup => components.group_pressed.0,
        Part::LatchedGroup => components.group_latched.0,
        Part::LockedGroup => components.group_locked.0,
        Part::Group => components.group.0,
        Part::Controls => components.controls.0,
    }
}

/// Which part a change concerns, and the number that it has from then on; none,
/// where a key goes up or down.
pub open spec fn change_of(event: MachineEvent) -> Option<(Part, u32)> {
    match event {
        MachineEvent::ModsPressed(mask) => Some((Part::PressedModifiers, mask.0)),
        MachineEvent::ModsLatched(mask) => Some((Part::LatchedModifiers, mask.0)),
        MachineEvent::ModsLocked(mask) => Some((Part::LockedModifiers, mask.0)),
        MachineEvent::ModsEffective(mask) => Some((Part::Modifiers, mask.0)),
        MachineEvent::GroupPressed(delta) => Some((Part::PressedGroup, delta.0)),
        MachineEvent::GroupLatched(delta) => Some((Part::LatchedGroup, delta.0)),
        MachineEvent::GroupLocked(index) => Some((Part::LockedGroup, index.0)),
        MachineEvent::GroupEffective(index) => Some((Part::Group, index.0)),
        MachineEvent::Controls(mask) => Some((Part::Controls, mask.0)),
        MachineEvent::KeyDown(_) => None,
        MachineEvent::KeyUp(_) => None,
    }
}

/// Whether a change concerns that part.
pub open spec fn concerns(event: MachineEvent, part: Part) -> bool {
    change_of(event) matches Some((changed, _)) && changed == part
}

/// Of several changes, the last one of each part counts, and a part that none of
/// them concerns stays as it is.
pub proof fn law_last_change_counts(
    components: &mut Components,
    events: &Vec<MachineEvent>,
    part: Part,
    last: int,
    number: u32,
)
    requires
        call_ensures(apply_events, (components, events), ()),
    ensures
        0 <= last < events@.len() && change_of(events@[last]) == Some((part, number)) && (forall|
            i: int,
        |
            last < i < events@.len() ==> !concerns(#[trigger] events@[i], part)) ==> part_of(
            *final(components),
            part,
        ) == number,
        (forall|i: int| 0 <= i < events@.len() ==> !concerns(#[trigger] events@[i], part))
            ==> part_of(*final(components), part) == part_of(*old(components), part),
{
    lemma_last_change_counts(components_view(*old(components)), events@, part, last, number);
    lemma_parts_are_shown(*old(components), part);
    lemma_parts_are_shown(*final(components), part);
}

/// The number that is shown for one of the parts.
spec fn shown_part(components: ComponentsView, part: Part) -> u32 {
    match part {
        Part::PressedModifiers => components.mods_pressed,
        Part::LatchedModifiers => components.mods_latched,
        Part::LockedModifiers => components.mods_locked,
        Part::Modifiers => components.mods,
        Part::PressedGroup => components.group_pressed,
        Part::LatchedGroup => components.group_latched,
        Part::LockedGroup => components.group_locked,
        Part::Group => components.group,
        Part::Controls => components.controls,
    }
}

/// The numbers that are shown are those of the parts.
proof fn lemma_parts_are_shown(components: Components, part: Part)
    ensures
        shown_part(components_view(components), part) == part_of(components, part),
{
}

/// The last change of each part counts.
proof fn lemma_last_change_counts(
    components: ComponentsView,
    events: Seq<MachineEvent>,
    part: Part,
    last: int,
    number: u32,
)
    ensures
        0 <= last < events.len() && change_of(events[last]) == Some((part, number)) && (forall|
            i: int,
        |
            last < i < events.len() ==> !concerns(#[trigger] events[i], part)) ==> shown_part(
            components.after_events(events),
            part,
        ) == number,
        (forall|i: int| 0 <= i < events.len() ==> !concerns(#[trigger] events[i], part))
            ==> shown_part(components.after_events(events), part) == shown_part(components, part),
    decreases events.len(),
{
    if events.len() > 0 {
        let before = events.drop_last();
        lemma_last_change_counts(components, before, part, last, number);
        assert(events.last() == events[events.len() - 1]);
        assert(concerns(events.last(), part) || shown_part(components.after_events(events), part)
            == shown_part(components.after_events(before), part));
        if last < events.len() - 1 {
            assert(forall|i: int| 0 <= i < before.len() ==> before[i] == events[i]);
        }
    }
}

/// A new keyboard has no keymap, and every number of it is 0.
pub proof fn law_new_keyboards_are_empty(keyboard: Keyboard)
    requires
        call_ensures(Keyboard::new, (), keyboard),
    ensures
        keyboard@.layout is None,
        keyboard@.components.mods_pressed == 0,
        keyboard@.components.mods_latched == 0,
        keyboard@.components.mods_locked == 0,
        keyboard@.components.mods == 0,
        keyboard@.components.group_pressed == 0,
        keyboard@.components.group_latched == 0,
        keyboard@.components.group_locked == 0,
        keyboard@.components.group == 0,
        keyboard@.components.controls == 0,
{
}

/// A keyboard shows the modifiers, groups and controls that it tracks, and the
/// keymap that it uses.
proof fn law_keyboards_show_what_they_track(keyboard: Keyboard)
    ensures
        keyboard@.components.mods_pressed == keyboard.components.mods_pressed.0,
        keyboard@.components.mods_latched == keyboard.components.mods_latched.0,
        keyboard@.components.mods_locked == keyboard.components.mods_locked.0,
        keyboard@.components.mods == keyboard.components.mods.0,
        keyboard@.components.group_pressed == keyboard.components.group_pressed.0,
        keyboard@.components.group_latched == keyboard.components.group_latched.0,
        keyboard@.components.group_locked == keyboard.components.group_locked.0,
        keyboard@.components.group == keyboard.components.group.0,
        keyboard@.components.controls == keyboard.components.controls.0,
        keyboard.layout is None <==> keyboard@.layout is None,
        keyboard.layout matches Some(layout) ==> keyboard@.layout == Some(
            (layout.table, layout.machine, layout.state),
        ),
{
}

/// A key is looked up as the key of X, whose number is larger by 8, with the group
/// and the modifiers in effect before it. Its event carries the first keysym found,
/// or else the key code, and the modifiers in effect after it.
pub proof fn law_keys_are_looked_up_first(
    keyboard: &mut Keyboard,
    key: u32,
    is_press: bool,
    event: InputEvent,
    found: u32,
    sent_key: u32,
    sent_mask: u16,
)
    requires
        call_ensures(Keyboard::handle_key, (keyboard, key, is_press), event),
        ({
            let before = old(keyboard)@;
            let x_key = if key <= 0xFFFF_FFF7 {
                (key + 8) as u32
            } else {
                0xFFFF_FFFFu32
            };
            let keysyms = match before.layout {
                Some((table, _, _)) => table_keysyms(
                    table,
                    before.components.group,
                    before.components.mods,
                    x_key,
                ),
                None => Seq::empty(),
            };
            found == if keysyms.len() == 0 {
                key
            } else {
                keysyms[0]
            }
        }),
        call_ensures(xk_to_deskflow_key, (found,), sent_key),
        call_ensures(xkb_to_synergy_modifiers, (final(keyboard)@.components.mods,), sent_mask),
    ensures
        event matches InputEvent::Key { keysym, is_press: pressed, mask, button } && {
            &&& keysym == sent_key
            &&& pressed == is_press
            &&& mask == sent_mask
            &&& button == key % 0x1_0000
        },
{
    assert((key & 0xFFFF) as u16 == key % 0x1_0000) by (bit_vector);
}

/// Without a keymap a key changes nothing. With one, the machine takes the step of
/// the key of X, down when it is pressed and up when it is released; the changes of
/// that step are applied, and the table and the machine stay.
pub proof fn law_keys_step_the_machine(
    keyboard: &mut Keyboard,
    key: u32,
    is_press: bool,
    event: InputEvent,
    components: &mut Components,
    changes: &Vec<MachineEvent>,
)
    requires
        call_ensures(Keyboard::handle_key, (keyboard, key, is_press), event),
        call_ensures(apply_events, (components, changes), ()),
        old(keyboard)@.components == components_view(*old(components)),
    ensures
        old(keyboard)@.layout is None ==> final(keyboard)@ == old(keyboard)@,
        old(keyboard)@.layout matches Some((table, machine, state)) ==> {
            let x_key = if key <= 0xFFFF_FFF7 {
                (key + 8) as u32
            } else {
                0xFFFF_FFFFu32
            };
            let step = if is_press {
                key_step(machine, state, x_key, Direction::Down)
            } else {
                key_step(machine, state, x_key, Direction::Up)
            };
            &&& final(keyboard)@.layout == Some((table, machine, step.0))
            &&& changes@ == step.1 ==> final(keyboard)@.components == components_view(
                *final(components),
            )
        },
{
}

/// A keymap that is used gives the keysyms and the machine, which starts anew; the
/// modifiers, groups and controls stay. One that could not be parsed changes
/// nothing, and what is wrong with it is told.
pub proof fn law_keymaps_are_used(
    keyboard: &mut Keyboard,
    parsed: Result<Keymap, Diagnostic>,
    loaded: Result<(), Diagnostic>,
    group: u32,
    modifiers: u32,
    keycode: u32,
)
    requires
        call_ensures(Keyboard::use_parsed, (keyboard, parsed), loaded),
    ensures
        final(keyboard)@.components == old(keyboard)@.components,
        loaded is Ok <==> parsed is Ok,
        parsed matches Err(error) ==> loaded == Err::<(), Diagnostic>(error) && final(keyboard)@
            == old(keyboard)@,
        parsed matches Ok(keymap) ==> {
            &&& final(keyboard)@.layout matches Some((table, machine, state))
            &&& table_keysyms(table, group, modifiers, keycode) == keymap_keysyms(
                keymap,
                group,
                modifiers,
                keycode,
            )
            &&& is_machine_of(machine, keymap)
            &&& state == start_state(machine)
        },
{
}

/// Using a keymap is using one that was parsed.
pub proof fn law_keymaps_are_used_alike(
    keyboard: &mut Keyboard,
    keymap: &Keymap,
    group: u32,
    modifiers: u32,
    keycode: u32,
)
    requires
        call_ensures(Keyboard::use_keymap, (keyboard, keymap), ()),
    ensures
        final(keyboard)@.components == old(keyboard)@.components,
        final(keyboard)@.layout matches Some((table, machine, state)) && {
            &&& table_keysyms(table, group, modifiers, keycode) == keymap_keysyms(
                *keymap,
                group,
                modifiers,
                keycode,
            )
            &&& is_machine_of(machine, *keymap)
            &&& state == start_state(machine)
        },
{
}

/// Loading a keymap fails with an error that parsing its bytes can have, and then
/// changes nothing; or it succeeds, and a keymap that the bytes can be parsed as
/// gives the machine, which starts anew, and the keysyms. The modifiers, groups and
/// controls stay.
pub proof fn law_keymaps_are_loaded(
    keyboard: &mut Keyboard,
    bytes: &Vec<u8>,
    loaded: Result<(), Diagnostic>,
)
    requires
        call_ensures(Keyboard::load_keymap, (keyboard, bytes), loaded),
    ensures
        final(keyboard)@.components == old(keyboard)@.components,
        loaded matches Err(error) ==> {
            &&& final(keyboard)@ == old(keyboard)@
            &&& can_parse_as(bytes@, Err(error))
        },
        loaded is Ok ==> exists|keymap: Keymap| #[trigger]
            can_parse_as(bytes@, Ok(keymap)) && is_used(final(keyboard)@, keymap),
{
    let parsed = choose|parsed: Result<Keymap, Diagnostic>| #[trigger]
        can_parse_as(bytes@, parsed) && loaded == load_report(parsed) && old(keyboard)@.takes_parsed(parsed, final(keyboard)@);
    if let Ok(keymap) = parsed {
        assert(can_parse_as(bytes@, Ok(keymap)));
        assert(is_used(final(keyboard)@, keymap));
    }
}

/// Whether a keyboard has the keysyms and the machine of a keymap, and the machine is
/// where it starts.
pub open spec fn is_used(keyboard: KeyboardView, keymap: Keymap) -> bool {
    &&& keyboard.layout matches Some((table, machine, state))
    &&& is_machine_of(machine, keymap)
    &&& state == start_state(machine)
    &&& forall|group: u32, modifiers: u32, keycode: u32| #[trigger]
        table_keysyms(table, group, modifiers, keycode) == keymap_keysyms(
            keymap,
            group,
            modifiers,
            keycode,
        )
}

} // verus!
