//! The EI (emulated input) protocol: seats, devices and input events.

use crate::coord::Coord;
use crate::keyboard::{ComponentsView, Keyboard, KeyboardView, can_parse_as, load_report};
use kbvm::xkb::diagnostic::Diagnostic;
use std::collections::HashMap;
use vstd::hash_map::StringHashMap;
use vstd::prelude::*;

verus! {

broadcast use vstd::std_specs::hash::group_hash_axioms;

/// Input event from EI.
#[derive(Debug, Clone)]
pub enum InputEvent {
    /// Pointer absolute motion event.
    PointerAbsolute { x: Coord, y: Coord },
    /// Pointer relative motion event.
    PointerRelative { dx: Coord, dy: Coord },
    /// Button press or release event.
    Button { button: u32, is_press: bool },
    /// Keyboard key press or release event.
    /// - keysym: the key's code, from its X keysym
    /// - is_press: true for press, false for release
    /// - mask: modifier bitmask
    /// - button: physical key code (Linux evdev key code)
    Key { keysym: u32, is_press: bool, mask: u16, button: u16 },
    /// Scroll event.
    Scroll { x: Coord, y: Coord },
}

/// The scale 1, as the bit pattern of a single-precision number.
pub const UNIT_SCALE: u32 = 0x3F80_0000;

/// How long devices are waited for, in milliseconds.
pub const DISCOVERY_TIMEOUT: u64 = 5000;

/// How long to sleep between two looks at the devices, in milliseconds.
pub const DISCOVERY_INTERVAL: u64 = 50;

/// Region information for a device.
#[derive(Debug, Clone, Copy, PartialEq, Eq, Structural)]
pub struct Region {
    pub x: u32,
    pub y: u32,
    pub width: u32,
    pub height: u32,
    /// The scale, as the bit pattern of a single-precision number.
    pub scale: u32,
}

/// Whether a device stands for hardware.
#[derive(Debug, Clone, Copy, PartialEq, Eq, Structural)]
pub enum DeviceType {
    /// A device made in software.
    Virtual,
    /// A device that stands for hardware.
    Physical,
}

/// Information about a device being configured.
pub struct PendingDeviceInfo {
    pub name: Option<String>,
    pub device_type: Option<DeviceType>,
    pub regions: Vec<Region>,
    pub interfaces: Vec<String>,
}

/// Information about a configured device.
pub struct DeviceInfo {
    pub name: String,
    pub device_type: DeviceType,
    pub regions: Vec<Region>,
    pub interfaces: Vec<String>,
}

/// What is known of a device being configured.
pub ghost struct PendingView {
    pub name: Option<Seq<char>>,
    pub device_type: Option<DeviceType>,
    pub regions: Seq<Region>,
    pub interfaces: Seq<Seq<char>>,
}

/// What is known of a configured device.
pub ghost struct DeviceView {
    pub name: Seq<char>,
    pub device_type: DeviceType,
    pub regions: Seq<Region>,
    pub interfaces: Seq<Seq<char>>,
}

/// The contents of texts.
pub open spec fn texts(strings: Seq<String>) -> Seq<Seq<char>> {
    strings.map_values(|s: String| s@)
}

impl View for PendingDeviceInfo {
    type V = PendingView;

    open spec fn view(&self) -> PendingView {
        PendingView {
            name: match self.name {
                Some(name) => Some(name@),
                None => None,
            },
            device_type: self.device_type,
            regions: self.regions@,
            interfaces: texts(self.interfaces@),
        }
    }
}

impl View for DeviceInfo {
    type V = DeviceView;

    open spec fn view(&self) -> DeviceView {
        DeviceView {
            name: self.name@,
            device_type: self.device_type,
            regions: self.regions@,
            interfaces: texts(self.interfaces@),
        }
    }
}

impl PendingView {
    /// A device of which nothing is known yet.
    pub open spec fn unknown() -> PendingView {
        PendingView {
            name: None,
            device_type: None,
            regions: Seq::empty(),
            interfaces: Seq::empty(),
        }
    }

    /// The configured device, if its name and type are known.
    pub open spec fn configured(self) -> Option<DeviceView> {
        match (self.name, self.device_type) {
            (Some(name), Some(device_type)) => Some(
                DeviceView {
                    name,
                    device_type,
                    regions: self.regions,
                    interfaces: self.interfaces,
                },
            ),
            _ => None,
        }
    }
}

impl PendingDeviceInfo {
    /// A device of which nothing is known yet.
    pub fn new() -> (pending: PendingDeviceInfo)
        ensures
            pending@ == PendingView::unknown(),
    {
        let pending = PendingDeviceInfo {
            name: None,
            device_type: None,
            regions: Vec::new(),
            interfaces: Vec::new(),
        };
        assert(pending@.interfaces =~= Seq::empty());
        pending
    }

    /// The configured device, if its name and type are known.
    pub fn finish(self) -> (device: Option<DeviceInfo>)
        ensures
            match device {
                Some(device) => self@.configured() == Some(device@),
                None => self@.configured() is None,
            },
    {
        match (self.name, self.device_type) {
            (Some(name), Some(device_type)) => Some(
                DeviceInfo {
                    name,
                    device_type,
                    regions: self.regions,
                    interfaces: self.interfaces,
                },
            ),
            _ => None,
        }
    }
}

/// What is said about a device.
pub enum DeviceEvent {
    /// The device's name.
    Name { name: String },
    /// The device's type.
    DeviceType { device_type: DeviceType },
    /// The size of the device.
    Dimensions { width: u32, height: u32 },
    /// A region of the device.
    Region { region: Region },
    /// An interface of the device.
    Interface { name: String },
    /// Everything was said.
    Done,
    /// Anything else.
    Other,
}

impl PendingView {
    /// What is known of the device once more was said about it.
    pub open spec fn learn(self, event: DeviceEvent) -> PendingView {
        match event {
            DeviceEvent::Name { name } => PendingView { name: Some(name@), ..self },
            DeviceEvent::DeviceType { device_type } => PendingView {
                device_type: Some(device_type),
                ..self
            },
            DeviceEvent::Dimensions { width, height } => if self.regions.len() == 0 {
                PendingView {
                    regions: seq![Region { x: 0, y: 0, width, height, scale: UNIT_SCALE }],
                    ..self
                }
            } else {
                self
            },
            DeviceEvent::Region { region } => PendingView {
                regions: self.regions.push(region),
                ..self
            },
            DeviceEvent::Interface { name } => PendingView {
                interfaces: self.interfaces.push(name@),
                ..self
            },
            DeviceEvent::Done => self,
            DeviceEvent::Other => self,
        }
    }
}

impl PendingDeviceInfo {
    /// Take in what is said about the device. Where the dimensions come before any
    /// region, they are a region.
    pub fn learn(&mut self, event: DeviceEvent)
        ensures
            final(self)@ == old(self)@.learn(event),
    {
        let ghost before = self@;
        match event {
            DeviceEvent::Name { name } => {
                self.name = Some(name);
            },
            DeviceEvent::DeviceType { device_type } => {
                self.device_type = Some(device_type);
            },
            DeviceEvent::Dimensions { width, height } => {
                if self.regions.len() == 0 {
                    self.regions.push(Region { x: 0, y: 0, width, height, scale: UNIT_SCALE });
                }
            },
            DeviceEvent::Region { region } => {
                self.regions.push(region);
            },
            DeviceEvent::Interface { name } => {
                self.interfaces.push(name);
                assert(self@.interfaces =~= before.interfaces.push(name@));
            },
            DeviceEvent::Done => {},
            DeviceEvent::Other => {},
        }
        assert(self@.regions =~= before.learn(event).regions);
    }
}

/// The Synergy button for a Linux button code.
pub open spec fn synergy_button(evdev_button: u32) -> u32 {
    if evdev_button == 0x111 {
        3
    } else if evdev_button == 0x112 {
        2
    } else if 0x110 <= evdev_button <= 0x117 {
        (evdev_button - 0x110 + 1) as u32
    } else if 0x100 <= evdev_button < 0x120 {
        (evdev_button - 0x100 + 1) as u32
    } else {
        evdev_button
    }
}

/// Map a Linux button code to a Synergy button number.
///
/// The buttons from the left one (0x110) to the task one (0x117) are numbered
/// from 1, with the right and the middle one swapped. Other buttons of the range
/// from 0x100 to 0x11F are numbered from its start. Anything else stays.
pub fn evdev_to_synergy_button(evdev_button: u32) -> (button: u32)
    ensures
        button == synergy_button(evdev_button),
{
    match evdev_button {
        0x110 => 1,
        0x111 => 3,
        0x112 => 2,
        0x113 => 4,
        0x114 => 5,
        0x115 => 6,
        0x116 => 7,
        0x117 => 8,
        _ => if 0x100 <= evdev_button && evdev_button < 0x120 {
            evdev_button - 0x100 + 1
        } else {
            evdev_button
        },
    }
}

/// Buttons of the mouse range get numbers from 1 to 32, those from the left to
/// the task one different numbers from 1 to 8, and others stay as they are.
pub proof fn law_buttons_are_numbered(a: u32, b: u32)
    ensures
        0x100 <= a < 0x120 ==> 1 <= synergy_button(a) <= 32,
        0x110 <= a <= 0x117 ==> 1 <= synergy_button(a) <= 8,
        0x110 <= a <= 0x117 && 0x110 <= b <= 0x117 && synergy_button(a) == synergy_button(b)
            ==> a == b,
        !(0x100 <= a < 0x120) ==> synergy_button(a) == a,
{
}

/// An event of the EI connection.
pub enum EiEvent {
    /// The connection or an object on it asks for a sign of life.
    Ping,
    /// The seat offers an interface, with the bits that bind it.
    Capability { mask: u64, interface: String },
    /// Everything was said about the seat.
    SeatDone,
    /// The seat has a new device.
    NewDevice { device: u64 },
    /// Something is said about a device.
    Device { device: u64, event: DeviceEvent },
    /// The pointer moved to a place.
    MotionAbsolute { x: Coord, y: Coord },
    /// The pointer moved by a distance.
    MotionRelative { x: Coord, y: Coord },
    /// A key was pressed or released.
    Key { key: u32, is_press: bool },
    /// The keyboard has a keymap, in the format of XKB or not.
    Keymap { is_xkb: bool },
    /// A button was pressed or released.
    Button { button: u32, is_press: bool },
    /// The wheel was turned.
    Scroll { x: Coord, y: Coord },
    /// Anything else.
    Other,
}

/// What is to be done about an event of the EI connection.
#[derive(Debug, Clone, Copy, PartialEq, Eq, Structural)]
pub enum Reply {
    /// Give the sign of life.
    Done,
    /// Bind the seat with these capabilities.
    Bind { capabilities: u64 },
    /// Nothing: the seat has no capability of use.
    NothingToBind,
    /// Read the keymap and load it.
    ReadKeymap,
    /// Nothing.
    Nothing,
}

/// What to do next while waiting for the devices.
#[derive(Debug, Clone, Copy, PartialEq, Eq, Structural)]
pub enum Discovery {
    /// Go on: there is a virtual keyboard and a virtual pointer.
    Found,
    /// Sleep for that long, and look again.
    Wait { milliseconds: u64 },
    /// Give up with an error.
    TimedOut,
}

/// The devices, capabilities and input events of an EI connection.
pub struct EiContext {
    /// The bits that bind each interface that the seat offers.
    pub capabilities: StringHashMap<u64>,
    /// The devices being configured.
    pub pending_devices: HashMap<u64, PendingDeviceInfo>,
    /// The configured devices.
    pub devices: Vec<DeviceInfo>,
    /// Queue of input events.
    pub input_events: Vec<InputEvent>,
    /// The keyboard.
    pub keyboard: Keyboard,
}

/// What an EI connection has come to.
pub ghost struct EiView {
    pub capabilities: Map<Seq<char>, u64>,
    pub pending_devices: Map<u64, PendingView>,
    pub devices: Seq<DeviceView>,
    pub input_events: Seq<InputEvent>,
    pub keyboard: KeyboardView,
}

/// What is known of each device being configured.
pub open spec fn pending_views(pending: Map<u64, PendingDeviceInfo>) -> Map<u64, PendingView> {
    pending.map_values(|info: PendingDeviceInfo| info@)
}

/// What is known of each configured device.
pub open spec fn device_views(devices: Seq<DeviceInfo>) -> Seq<DeviceView> {
    devices.map_values(|info: DeviceInfo| info@)
}

impl View for EiContext {
    type V = EiView;

    open spec fn view(&self) -> EiView {
        EiView {
            capabilities: self.capabilities@,
            pending_devices: pending_views(self.pending_devices@),
            devices: device_views(self.devices@),
            input_events: self.input_events@,
            keyboard: self.keyboard@,
        }
    }
}

/// The bits that bind an interface; none, where the seat does not offer it.
pub open spec fn capability_bits(capabilities: Map<Seq<char>, u64>, interface: Seq<char>) -> u64 {
    if capabilities.contains_key(interface) {
        capabilities[interface]
    } else {
        0
    }
}

/// The bits that bind the keyboard and the pointer, with its buttons and its
/// wheel.
pub open spec fn binding(capabilities: Map<Seq<char>, u64>) -> u64 {
    capability_bits(capabilities, "ei_keyboard"@) | capability_bits(capabilities, "ei_pointer"@)
        | capability_bits(capabilities, "ei_pointer_absolute"@) | capability_bits(
        capabilities,
        "ei_button"@,
    ) | capability_bits(capabilities, "ei_scroll"@)
}

impl EiView {
    /// The state after something was said about a device.
    pub open spec fn after_device(self, device: u64, event: DeviceEvent) -> EiView {
        if !self.pending_devices.contains_key(device) {
            self
        } else if event is Done {
            EiView {
                pending_devices: self.pending_devices.remove(device),
                devices: match self.pending_devices[device].configured() {
                    Some(info) => self.devices.push(info),
                    None => self.devices,
                },
                ..self
            }
        } else {
            EiView {
                pending_devices: self.pending_devices.insert(
                    device,
                    self.pending_devices[device].learn(event),
                ),
                ..self
            }
        }
    }

    /// The state with one more input event.
    pub open spec fn with_input(self, event: InputEvent) -> EiView {
        EiView { input_events: self.input_events.push(event), ..self }
    }

    /// The state after an event.
    pub open spec fn after(self, event: EiEvent) -> EiView {
        match event {
            EiEvent::Capability { mask, interface } => EiView {
                capabilities: self.capabilities.insert(interface@, mask),
                ..self
            },
            EiEvent::NewDevice { device } => EiView {
                pending_devices: self.pending_devices.insert(device, PendingView::unknown()),
                ..self
            },
            EiEvent::Device { device, event } => self.after_device(device, event),
            EiEvent::MotionAbsolute { x, y } => self.with_input(
                InputEvent::PointerAbsolute { x, y },
            ),
            EiEvent::MotionRelative { x, y } => self.with_input(
                InputEvent::PointerRelative { dx: x, dy: y },
            ),
            EiEvent::Key { key, is_press } => EiView {
                keyboard: self.keyboard.after_key(key, is_press),
                ..self.with_input(self.keyboard.key_event(key, is_press))
            },
            EiEvent::Button { button, is_press } => self.with_input(
                InputEvent::Button { button: synergy_button(button), is_press },
            ),
            EiEvent::Scroll { x, y } => self.with_input(InputEvent::Scroll { x, y }),
            EiEvent::Ping => self,
            EiEvent::SeatDone => self,
            EiEvent::Keymap { .. } => self,
            EiEvent::Other => self,
        }
    }

    /// What is to be done about an event.
    pub open spec fn reply(self, event: EiEvent) -> Reply {
        match event {
            EiEvent::Ping => Reply::Done,
            EiEvent::SeatDone => if binding(self.capabilities) == 0 {
                Reply::NothingToBind
            } else {
                Reply::Bind { capabilities: binding(self.capabilities) }
            },
            EiEvent::Keymap { is_xkb } => if is_xkb {
                Reply::ReadKeymap
            } else {
                Reply::Nothing
            },
            _ => Reply::Nothing,
        }
    }

    /// Whether one of the virtual devices has one of two interfaces.
    pub open spec fn offers(self, first: Seq<char>, second: Seq<char>) -> bool {
        exists|i: int|
            0 <= i < self.devices.len() && (#[trigger] self.devices[i]).device_type
                == DeviceType::Virtual && (self.devices[i].interfaces.contains(first)
                || self.devices[i].interfaces.contains(second))
    }

    /// Whether there is a virtual keyboard and a virtual pointer.
    pub open spec fn essential(self) -> bool {
        &&& self.offers("ei_keyboard"@, "ei_keyboard"@)
        &&& self.offers("ei_pointer"@, "ei_pointer_absolute"@)
    }

    /// What to do next while waiting for the devices, after so many milliseconds.
    pub open spec fn discovery(self, elapsed: int) -> Discovery {
        if self.essential() {
            Discovery::Found
        } else if elapsed < DISCOVERY_TIMEOUT {
            Discovery::Wait { milliseconds: DISCOVERY_INTERVAL }
        } else {
            Discovery::TimedOut
        }
    }
}

impl EiContext {
    /// A connection of which nothing is known yet.
    pub fn new() -> (context: EiContext)
        ensures
            context@ == (EiView {
                capabilities: Map::empty(),
                pending_devices: Map::empty(),
                devices: Seq::empty(),
                input_events: Seq::empty(),
                keyboard: KeyboardView { layout: None, components: ComponentsView::none() },
            }),
    {
        let context = EiContext {
            capabilities: StringHashMap::new(),
            pending_devices: HashMap::new(),
            devices: Vec::new(),
            input_events: Vec::new(),
            keyboard: Keyboard::new(),
        };
        assert(context@.pending_devices =~= Map::empty());
        assert(context@.devices =~= Seq::empty());
        context
    }

    /// Take all pending input events.
    pub fn take_input_events(&mut self) -> (events: Vec<InputEvent>)
        ensures
            events@ == old(self)@.input_events,
            final(self)@ == (EiView { input_events: Seq::empty(), ..old(self)@ }),
    {
        let mut events: Vec<InputEvent> = Vec::new();
        core::mem::swap(&mut events, &mut self.input_events);
        events
    }

    /// The bits that bind an interface; none, where the seat does not offer it.
    fn capability(&self, interface: &str) -> (bits: u64)
        ensures
            bits == capability_bits(self@.capabilities, interface@),
    {
        match self.capabilities.get(interface) {
            Some(mask) => *mask,
            None => 0,
        }
    }

    /// Calculate the bits that bind the keyboard and the pointer.
    fn binding_mask(&self) -> (bits: u64)
        ensures
            bits == binding(self@.capabilities),
    {
        self.capability("ei_keyboard") | self.capability("ei_pointer") | self.capability(
            "ei_pointer_absolute",
        ) | self.capability("ei_button") | self.capability("ei_scroll")
    }

    /// Handle what is said about a device. Once everything was said, it is a
    /// configured device if its name and type are known, and is forgotten
    /// otherwise. What is said about any other device is ignored.
    pub fn handle_device_event(&mut self, device: u64, event: DeviceEvent)
        ensures
            final(self)@ == old(self)@.after_device(device, event),
    {
        let ghost before = self@;
        let removed = self.pending_devices.remove(&device);
        assert(self@.pending_devices =~= before.pending_devices.remove(device));
        match removed {
            None => {
                assert(self@.pending_devices =~= before.pending_devices);
            },
            Some(pending) => {
                let mut pending = pending;
                match event {
                    DeviceEvent::Done => {
                        match pending.finish() {
                            Some(info) => {
                                self.devices.push(info);
                                assert(self@.devices =~= before.devices.push(info@));
                            },
                            None => {},
                        }
                    },
                    event => {
                        pending.learn(event);
                        self.pending_devices.insert(device, pending);
                        assert(self@.pending_devices =~= before.pending_devices.insert(
                            device,
                            pending@,
                        ));
                    },
                }
            },
        }
    }

    /// Handle an event of the connection.
    pub fn handle_event(&mut self, event: EiEvent) -> (reply: Reply)
        ensures
            reply == old(self)@.reply(event),
            final(self)@ == old(self)@.after(event),
    {
        let ghost before = self@;
        match event {
            EiEvent::Ping => Reply::Done,
            EiEvent::Capability { mask, interface } => {
                self.capabilities.insert(interface, mask);
                Reply::Nothing
            },
            EiEvent::SeatDone => {
                let capabilities: u64 = self.binding_mask();
                if capabilities == 0 {
                    Reply::NothingToBind
                } else {
                    Reply::Bind { capabilities }
                }
            },
            EiEvent::NewDevice { device } => {
                self.pending_devices.insert(device, PendingDeviceInfo::new());
                assert(self@.pending_devices =~= before.after(event).pending_devices);
                Reply::Nothing
            },
            EiEvent::Device { device, event } => {
                self.handle_device_event(device, event);
                Reply::Nothing
            },
            EiEvent::MotionAbsolute { x, y } => {
                self.input_events.push(InputEvent::PointerAbsolute { x, y });
                Reply::Nothing
            },
            EiEvent::MotionRelative { x, y } => {
                self.input_events.push(InputEvent::PointerRelative { dx: x, dy: y });
                Reply::Nothing
            },
            EiEvent::Key { key, is_press } => {
                let input = self.keyboard.handle_key(key, is_press);
                self.input_events.push(input);
                Reply::Nothing
            },
            EiEvent::Keymap { is_xkb } => if is_xkb {
                Reply::ReadKeymap
            } else {
                Reply::Nothing
            },
            EiEvent::Button { button, is_press } => {
                self.input_events.push(
                    InputEvent::Button { button: evdev_to_synergy_button(button), is_press },
                );
                Reply::Nothing
            },
            EiEvent::Scroll { x, y } => {
                self.input_events.push(InputEvent::Scroll { x, y });
                Reply::Nothing
            },
            EiEvent::Other => Reply::Nothing,
        }
    }

    /// Load the keymap that was read. If it cannot be parsed, everything stays as
    /// it is.
    pub fn load_keymap(&mut self, bytes: &Vec<u8>) -> (loaded: Result<(), Diagnostic>)
        ensures
            exists|parsed: Result<kbvm::xkb::Keymap, Diagnostic>| #[trigger]
                can_parse_as(bytes@, parsed) && loaded == load_report(parsed)
                    && old(self)@.keyboard.takes_parsed(parsed, final(self)@.keyboard),
            final(self)@ == (EiView { keyboard: final(self)@.keyboard, ..old(self)@ }),
    {
        self.keyboard.load_keymap(bytes)
    }

    /// What to do next while waiting for the devices, after so many milliseconds.
    pub fn discovery_step(&self, elapsed: u64) -> (step: Discovery)
        ensures
            step == self@.discovery(elapsed as int),
    {
        if self.has_essential_devices() {
            Discovery::Found
        } else if elapsed < DISCOVERY_TIMEOUT {
            Discovery::Wait { milliseconds: DISCOVERY_INTERVAL }
        } else {
            Discovery::TimedOut
        }
    }

    /// Whether one of the virtual devices has one of two interfaces.
    fn has_device(&self, first: &str, second: &str) -> (found: bool)
        ensures
            found == self@.offers(first@, second@),
    {
        let mut i: usize = 0;
        while i < self.devices.len()
            invariant
                i <= self.devices@.len(),
                forall|j: int|
                    0 <= j < i ==> !((#[trigger] self@.devices[j]).device_type
                        == DeviceType::Virtual && (self@.devices[j].interfaces.contains(first@)
                        || self@.devices[j].interfaces.contains(second@))),
            decreases self.devices@.len() - i,
        {
            let device = &self.devices[i];
            assert(self@.devices[i as int] == device@);
            if device.device_type == DeviceType::Virtual && (has_text(&device.interfaces, first)
                || has_text(&device.interfaces, second)) {
                return true;
            }
            i = i + 1;
        }
        false
    }

    /// Whether there is a virtual keyboard and a virtual pointer.
    pub fn has_essential_devices(&self) -> (found: bool)
        ensures
            found == self@.essential(),
    {
        self.has_device("ei_keyboard", "ei_keyboard") && self.has_device(
            "ei_pointer",
            "ei_pointer_absolute",
        )
    }
}

/// Whether a text is among some strings.
fn has_text(strings: &Vec<String>, text: &str) -> (found: bool)
    ensures
        found == texts(strings@).contains(text@),
{
    let mut i: usize = 0;
    while i < strings.len()
        invariant
            i <= strings@.len(),
            forall|j: int| 0 <= j < i ==> #[trigger] texts(strings@)[j] != text@,
        decreases strings@.len() - i,
    {
        if crate::text::same_text(strings[i].as_str(), text) {
            assert(texts(strings@)[i as int] == text@);
            return true;
        }
        i = i + 1;
    }
    false
}

/// A seat is bound with all of the capabilities of use that it offers, and is not
/// bound exactly when it offers none.
pub proof fn law_binding_covers_all(capabilities: Map<Seq<char>, u64>)
    ensures
        ({
            let keyboard = capability_bits(capabilities, "ei_keyboard"@);
            let pointer = capability_bits(capabilities, "ei_pointer"@);
            let absolute = capability_bits(capabilities, "ei_pointer_absolute"@);
            let button = capability_bits(capabilities, "ei_button"@);
            let scroll = capability_bits(capabilities, "ei_scroll"@);
            let all = binding(capabilities);
            &&& all & keyboard == keyboard
            &&& all & pointer == pointer
            &&& all & absolute == absolute
            &&& all & button == button
            &&& all & scroll == scroll
            &&& all == 0 <==> keyboard == 0 && pointer == 0 && absolute == 0 && button == 0
                && scroll == 0
        }),
{
    let a = capability_bits(capabilities, "ei_keyboard"@);
    let b = capability_bits(capabilities, "ei_pointer"@);
    let c = capability_bits(capabilities, "ei_pointer_absolute"@);
    let d = capability_bits(capabilities, "ei_button"@);
    let e = capability_bits(capabilities, "ei_scroll"@);
    assert({
        let all = a | b | c | d | e;
        &&& all & a == a
        &&& all & b == b
        &&& all & c == c
        &&& all & d == d
        &&& all & e == e
        &&& all == 0 <==> a == 0 && b == 0 && c == 0 && d == 0 && e == 0
    }) by (bit_vector);
}

/// Input events are queued in the order in which they come, at most one for each
/// event of the connection, and none is lost.
pub proof fn law_input_is_queued_in_order(context: EiView, event: EiEvent)
    ensures
        ({
            let before = context.input_events;
            let after = context.after(event).input_events;
            &&& before.len() <= after.len() <= before.len() + 1
            &&& before =~= after.take(before.len() as int)
        }),
{
}

/// Devices are only added, and a device that is done is no longer pending.
pub proof fn law_devices_are_kept(context: EiView, device: u64, event: DeviceEvent)
    ensures
        ({
            let after = context.after_device(device, event);
            &&& context.devices =~= after.devices.take(context.devices.len() as int)
            &&& event is Done ==> !after.pending_devices.contains_key(device)
            &&& !(event is Done) ==> after.devices == context.devices
        }),
{
}

/// A device that is announced, named, typed and then done is a configured device
/// of that name and type.
pub proof fn law_announced_devices_are_configured(
    context: EiView,
    device: u64,
    name: String,
    device_type: DeviceType,
)
    ensures
        context.after(EiEvent::NewDevice { device }).after_device(
            device,
            DeviceEvent::Name { name },
        ).after_device(device, DeviceEvent::DeviceType { device_type }).after_device(
            device,
            DeviceEvent::Done,
        ).devices == context.devices.push(
            DeviceView {
                name: name@,
                device_type,
                regions: Seq::empty(),
                interfaces: Seq::empty(),
            },
        ),
{
}

/// A device whose name or type is not known when it is done is not configured.
pub proof fn law_incomplete_devices_are_dropped(context: EiView, device: u64)
    requires
        context.pending_devices.contains_key(device),
        context.pending_devices[device].name is None
            || context.pending_devices[device].device_type is None,
    ensures
        context.after_device(device, DeviceEvent::Done).devices == context.devices,
{
}

/// The dimensions of a device are a region only where there is none.
pub proof fn law_dimensions_stand_in_for_regions(device: PendingView, width: u32, height: u32)
    ensures
        ({
            let known = device.learn(DeviceEvent::Dimensions { width, height });
            &&& device.regions.len() > 0 ==> known == device
            &&& device.regions.len() == 0 ==> known.regions =~= seq![
                Region { x: 0, y: 0, width, height, scale: UNIT_SCALE },
            ]
        }),
{
}

/// Motion, buttons and scrolling each add exactly one input event to the end of the
/// queue: with the same two coordinates, or with the button's number and whether it
/// was pressed or released. Nothing else changes, and nothing is answered.
pub proof fn law_input_is_queued_as_it_came(context: &mut EiContext, event: EiEvent, reply: Reply)
    requires
        call_ensures(EiContext::handle_event, (context, event), reply),
        event is MotionAbsolute || event is MotionRelative || event is Button || event is Scroll,
    ensures
        ({
            let before = old(context).input_events@;
            let after = final(context).input_events@;
            &&& after.len() == before.len() + 1
            &&& forall|i: int| 0 <= i < before.len() ==> #[trigger] after[i] == before[i]
            &&& match event {
                EiEvent::MotionAbsolute { x, y } => after.last() == (InputEvent::PointerAbsolute {
                    x,
                    y,
                }),
                EiEvent::MotionRelative { x, y } => after.last() == (InputEvent::PointerRelative {
                    dx: x,
                    dy: y,
                }),
                EiEvent::Scroll { x, y } => after.last() == (InputEvent::Scroll { x, y }),
                EiEvent::Button { button, is_press } => {
                    &&& after.last() matches InputEvent::Button { button: number, is_press: pressed }
                    &&& pressed == is_press
                    &&& button == 0x110 ==> number == 1
                    &&& button == 0x111 ==> number == 3
                    &&& button == 0x112 ==> number == 2
                    &&& 0x113 <= button <= 0x117 ==> number == button - 0x113 + 4
                    &&& 0x100 <= button < 0x110 || 0x118 <= button < 0x120 ==> number == button
                        - 0x100 + 1
                    &&& button < 0x100 || button >= 0x120 ==> number == button
                },
                _ => false,
            }
        }),
        final(context)@.capabilities == old(context)@.capabilities,
        final(context)@.pending_devices == old(context)@.pending_devices,
        final(context)@.devices == old(context)@.devices,
        final(context)@.keyboard == old(context)@.keyboard,
        reply is Nothing,
{
}

/// A button has one number, whether it is pressed or released.
pub proof fn law_buttons_have_one_number(
    evdev_button: u32,
    number: u32,
    again: u32,
)
    requires
        call_ensures(evdev_to_synergy_button, (evdev_button,), number),
        call_ensures(evdev_to_synergy_button, (evdev_button,), again),
    ensures
        number == again,
        evdev_button == 0x110 ==> number == 1,
        evdev_button == 0x111 ==> number == 3,
        evdev_button == 0x112 ==> number == 2,
        0x113 <= evdev_button <= 0x117 ==> number == evdev_button - 0x113 + 4,
        0x100 <= evdev_button < 0x110 || 0x118 <= evdev_button < 0x120 ==> number == evdev_button
            - 0x100 + 1,
        evdev_button < 0x100 || evdev_button >= 0x120 ==> number == evdev_button,
{
}

/// A key adds exactly one input event to the end of the queue: a key event that says
/// whether it was pressed or released, with the Linux key code. Devices and
/// capabilities stay as they are.
pub proof fn law_keys_are_queued_as_they_came(
    context: &mut EiContext,
    key: u32,
    is_press: bool,
    reply: Reply,
)
    requires
        call_ensures(EiContext::handle_event, (context, EiEvent::Key { key, is_press }), reply),
    ensures
        ({
            let before = old(context).input_events@;
            let after = final(context).input_events@;
            let keyboard = old(context)@.keyboard;
            &&& after.len() == before.len() + 1
            &&& forall|i: int| 0 <= i < before.len() ==> #[trigger] after[i] == before[i]
            &&& after.last() == keyboard.key_event(key, is_press)
            &&& after.last() matches InputEvent::Key { is_press: pressed, button, .. }
            &&& pressed == is_press
            &&& key <= 0xFFFF ==> button == key
            &&& final(context)@.keyboard == keyboard.after_key(key, is_press)
        }),
        final(context)@.capabilities == old(context)@.capabilities,
        final(context)@.pending_devices == old(context)@.pending_devices,
        final(context)@.devices == old(context)@.devices,
        reply is Nothing,
{
    if key <= 0xFFFF {
        crate::keyboard::law_key_code_is_kept(old(context)@.keyboard, key, is_press);
    }
}

/// What is said about seats and devices queues no input and leaves the keyboard as
/// it is; so do pings, keymaps that are announced, and anything else.
pub proof fn law_other_events_queue_no_input(
    context: &mut EiContext,
    event: EiEvent,
    reply: Reply,
)
    requires
        call_ensures(EiContext::handle_event, (context, event), reply),
        !(event is MotionAbsolute),
        !(event is MotionRelative),
        !(event is Button),
        !(event is Scroll),
        !(event is Key),
    ensures
        final(context)@.input_events == old(context)@.input_events,
        final(context)@.keyboard == old(context)@.keyboard,
        !(event is Capability) ==> final(context)@.capabilities == old(context)@.capabilities,
        !(event is NewDevice) && !(event is Device) ==> final(context)@.pending_devices == old(context)@.pending_devices,
        !(event is Device) ==> final(context)@.devices == old(context)@.devices,
        event is Ping <==> reply is Done,
        (event matches EiEvent::Keymap { is_xkb } && is_xkb) <==> reply is ReadKeymap,
        event is SeatDone <==> reply is Bind || reply is NothingToBind,
{
}

/// The bits that bind an interface are kept under its name, and those of other
/// interfaces stay.
pub proof fn law_capabilities_are_kept(
    context: &mut EiContext,
    mask: u64,
    interface: String,
    other: Seq<char>,
    reply: Reply,
)
    requires
        call_ensures(
            EiContext::handle_event,
            (context, EiEvent::Capability { mask, interface }),
            reply,
        ),
        other != interface@,
    ensures
        final(context).capabilities@.contains_key(interface@),
        final(context).capabilities@[interface@] == mask,
        final(context).capabilities@.contains_key(other) <==> old(context).capabilities@.contains_key(other),
        old(context).capabilities@.contains_key(other) ==> final(context).capabilities@[other]
            == old(context).capabilities@[other],
{
}

/// A seat is bound with every bit that its keyboard, pointer, absolute pointer,
/// button and scroll interfaces need, and with no other bit; if they need none, it
/// is not bound.
pub proof fn law_seats_are_bound_with_what_is_needed(
    context: &mut EiContext,
    reply: Reply,
    bit: u64,
)
    requires
        call_ensures(EiContext::handle_event, (context, EiEvent::SeatDone), reply),
    ensures
        ({
            let offered = old(context).capabilities@;
            let bound = match reply {
                Reply::Bind { capabilities } => capabilities,
                _ => 0u64,
            };
            let needed = |interface: Seq<char>|
                offered.contains_key(interface) && offered[interface] & bit != 0;
            &&& bound & bit != 0 <==> needed("ei_keyboard"@) || needed("ei_pointer"@) || needed(
                "ei_pointer_absolute"@,
            ) || needed("ei_button"@) || needed("ei_scroll"@)
            &&& reply matches Reply::Bind { capabilities } ==> capabilities != 0
            &&& reply is Bind || reply is NothingToBind
        }),
{
    let offered = old(context)@.capabilities;
    let a = capability_bits(offered, "ei_keyboard"@);
    let b = capability_bits(offered, "ei_pointer"@);
    let c = capability_bits(offered, "ei_pointer_absolute"@);
    let d = capability_bits(offered, "ei_button"@);
    let e = capability_bits(offered, "ei_scroll"@);
    assert((a | b | c | d | e) & bit != 0 <==> a & bit != 0 || b & bit != 0 || c & bit != 0 || d
        & bit != 0 || e & bit != 0) by (bit_vector);
    assert(0u64 & bit == 0) by (bit_vector);
}

/// What is said about a device being configured is kept with it: a name or a type
/// replaces the one before, a region and an interface are added last, and the
/// dimensions are a region of scale 1 at the origin where there is none. Everything
/// else that is known of it stays, and so do all other devices.
pub proof fn law_devices_learn_what_is_said(
    context: &mut EiContext,
    device: u64,
    event: DeviceEvent,
    other: u64,
)
    requires
        call_ensures(EiContext::handle_device_event, (context, device, event), ()),
        !(event is Done),
        other != device,
    ensures
        final(context)@.devices == old(context)@.devices,
        final(context)@.input_events == old(context)@.input_events,
        final(context)@.capabilities == old(context)@.capabilities,
        final(context)@.keyboard == old(context)@.keyboard,
        final(context)@.pending_devices.contains_key(other) <==> old(context)@.pending_devices.contains_key(other),
        old(context)@.pending_devices.contains_key(other) ==> final(context)@.pending_devices[other] == old(context)@.pending_devices[other],
        final(context)@.pending_devices.contains_key(device) <==> old(context)@.pending_devices.contains_key(device),
        old(context)@.pending_devices.contains_key(device) ==> {
            let before = old(context)@.pending_devices[device];
            let after = final(context)@.pending_devices[device];
            &&& event matches DeviceEvent::Name { name } ==> after.name == Some(name@)
            &&& !(event is Name) ==> after.name == before.name
            &&& event matches DeviceEvent::DeviceType { device_type } ==> after.device_type
                == Some(device_type)
            &&& !(event is DeviceType) ==> after.device_type == before.device_type
            &&& event matches DeviceEvent::Interface { name } ==> after.interfaces
                == before.interfaces.push(name@)
            &&& !(event is Interface) ==> after.interfaces == before.interfaces
            &&& event matches DeviceEvent::Region { region } ==> after.regions
                == before.regions.push(region)
            &&& event matches DeviceEvent::Dimensions { width, height } ==> if before.regions.len()
                == 0 {
                &&& after.regions.len() == 1
                &&& after.regions[0].x == 0 && after.regions[0].y == 0
                &&& after.regions[0].width == width && after.regions[0].height == height
                &&& after.regions[0].scale == 0x3F80_0000u32
            } else {
                after.regions == before.regions
            }
            &&& !(event is Region) && !(event is Dimensions) ==> after.regions == before.regions
        },
{
}

/// A device that is done is no longer being configured. It is a configured device,
/// added last, exactly when its name and its type are known, and holds all that was
/// said about it. All other devices stay.
pub proof fn law_done_devices_are_configured(context: &mut EiContext, device: u64, other: u64)
    requires
        call_ensures(EiContext::handle_device_event, (context, device, DeviceEvent::Done), ()),
        other != device,
    ensures
        !final(context)@.pending_devices.contains_key(device),
        final(context)@.pending_devices.contains_key(other) <==> old(context)@.pending_devices.contains_key(other),
        old(context)@.pending_devices.contains_key(other) ==> final(context)@.pending_devices[other] == old(context)@.pending_devices[other],
        final(context)@.input_events == old(context)@.input_events,
        final(context)@.capabilities == old(context)@.capabilities,
        final(context)@.keyboard == old(context)@.keyboard,
        ({
            let before = old(context)@;
            let after = final(context)@.devices;
            let pending = before.pending_devices[device];
            if before.pending_devices.contains_key(device) && pending.name is Some
                && pending.device_type is Some {
                &&& after.len() == before.devices.len() + 1
                &&& before.devices =~= after.drop_last()
                &&& Some(after.last().name) == pending.name
                &&& Some(after.last().device_type) == pending.device_type
                &&& after.last().regions == pending.regions
                &&& after.last().interfaces == pending.interfaces
            } else {
                after == before.devices
            }
        }),
{
}

/// Events about devices are those that are handled for the device that they name,
/// and a new device is one of which nothing is known.
pub proof fn law_new_devices_are_unknown(context: &mut EiContext, device: u64, other: u64)
    requires
        call_ensures(
            EiContext::handle_event,
            (context, EiEvent::NewDevice { device }),
            Reply::Nothing,
        ),
        other != device,
    ensures
        ({
            let pending = final(context)@.pending_devices;
            &&& pending.contains_key(device)
            &&& pending[device].name is None
            &&& pending[device].device_type is None
            &&& pending[device].regions.len() == 0
            &&& pending[device].interfaces.len() == 0
            &&& pending.contains_key(other) <==> old(context)@.pending_devices.contains_key(other)
            &&& pending.contains_key(other) ==> pending[other] == old(context)@.pending_devices[other]
        }),
{
}

/// Telling the connection about a device tells that very device.
pub proof fn law_device_events_reach_their_device(
    first: &mut EiContext,
    second: &mut EiContext,
    device: u64,
    event: DeviceEvent,
    reply: Reply,
)
    requires
        call_ensures(EiContext::handle_event, (first, EiEvent::Device { device, event }), reply),
        call_ensures(EiContext::handle_device_event, (second, device, event), ()),
        old(first)@ == old(second)@,
    ensures
        final(first)@ == final(second)@,
        reply is Nothing,
{
}

/// What is known of a device, a name, a type, regions and interfaces, is what its
/// record holds.
pub proof fn law_records_hold_what_is_known(
    pending: PendingDeviceInfo,
    device: Option<DeviceInfo>,
)
    requires
        call_ensures(PendingDeviceInfo::finish, (pending,), device),
    ensures
        device is Some <==> pending.name is Some && pending.device_type is Some,
        device matches Some(info) ==> {
            &&& pending.name matches Some(name) && info.name@ == name@
            &&& pending.device_type == Some(info.device_type)
            &&& info.regions@ == pending.regions@
            &&& info.interfaces@.len() == pending.interfaces@.len()
            &&& forall|i: int|
                0 <= i < info.interfaces@.len() ==> (#[trigger] info.interfaces@[i])@
                    == pending.interfaces@[i]@
        },
{
    if let Some(info) = device {
        assert(texts(info.interfaces@) =~= texts(pending.interfaces@));
        assert(info.interfaces@.len() == texts(info.interfaces@).len());
        assert(pending.interfaces@.len() == texts(pending.interfaces@).len());
        assert forall|i: int| 0 <= i < info.interfaces@.len() implies (
        #[trigger] info.interfaces@[i])@ == pending.interfaces@[i]@ by {
            assert(texts(info.interfaces@)[i] == info.interfaces@[i]@);
            assert(texts(pending.interfaces@)[i] == pending.interfaces@[i]@);
        }
    }
}

/// The devices needed are a virtual one with the keyboard interface, and a virtual
/// one with an interface for a pointer, absolute or not. With both the wait is over;
/// without them it goes on in steps of 50 milliseconds, and fails after 5 seconds.
pub proof fn law_essential_devices_end_the_wait(
    context: &EiContext,
    found: bool,
    elapsed: u64,
    step: Discovery,
)
    requires
        call_ensures(EiContext::has_essential_devices, (context,), found),
        call_ensures(EiContext::discovery_step, (context, elapsed), step),
    ensures
        found <==> {
            &&& exists|i: int|
                0 <= i < context@.devices.len() && (#[trigger] context@.devices[i]).device_type
                    == DeviceType::Virtual && context@.devices[i].interfaces.contains(
                    "ei_keyboard"@,
                )
            &&& exists|i: int|
                0 <= i < context@.devices.len() && (#[trigger] context@.devices[i]).device_type
                    == DeviceType::Virtual && (context@.devices[i].interfaces.contains(
                    "ei_pointer"@,
                ) || context@.devices[i].interfaces.contains("ei_pointer_absolute"@))
        },
        step is Found <==> found,
        step is TimedOut <==> !found && elapsed >= 5000,
        step is Wait <==> !found && elapsed < 5000,
        step matches Discovery::Wait { milliseconds } ==> milliseconds == 50,
{
}

/// Taking the input events gives all of them in their order, and leaves none.
pub proof fn law_input_is_taken_once(context: &mut EiContext, events: Vec<InputEvent>)
    requires
        call_ensures(EiContext::take_input_events, (context,), events),
    ensures
        events@ == old(context).input_events@,
        final(context).input_events@.len() == 0,
        final(context)@.devices == old(context)@.devices,
        final(context)@.pending_devices == old(context)@.pending_devices,
        final(context)@.capabilities == old(context)@.capabilities,
        final(context)@.keyboard == old(context)@.keyboard,
{
}

/// Loading a keymap changes the keyboard alone, and not even that where it fails.
pub proof fn law_loading_concerns_the_keyboard(
    context: &mut EiContext,
    bytes: &Vec<u8>,
    loaded: Result<(), Diagnostic>,
)
    requires
        call_ensures(EiContext::load_keymap, (context, bytes), loaded),
    ensures
        final(context)@.input_events == old(context)@.input_events,
        final(context)@.devices == old(context)@.devices,
        final(context)@.pending_devices == old(context)@.pending_devices,
        final(context)@.capabilities == old(context)@.capabilities,
        final(context)@.keyboard.components == old(context)@.keyboard.components,
        loaded is Err ==> final(context)@.keyboard == old(context)@.keyboard,
        loaded is Ok ==> final(context)@.keyboard.layout is Some,
{
}

/// What is known of a connection is what it holds, device by device.
pub proof fn law_connections_show_what_they_hold(context: &EiContext, i: int, device: u64)
    ensures
        context@.capabilities == context.capabilities@,
        context@.input_events == context.input_events@,
        context@.keyboard == context.keyboard@,
        context@.devices.len() == context.devices@.len(),
        0 <= i < context.devices@.len() ==> {
            &&& context@.devices[i].name == context.devices@[i].name@
            &&& context@.devices[i].device_type == context.devices@[i].device_type
            &&& context@.devices[i].regions == context.devices@[i].regions@
            &&& context@.devices[i].interfaces =~= context.devices@[i].interfaces@.map_values(
                |text: String| text@,
            )
        },
        context@.pending_devices.contains_key(device) <==> context.pending_devices@.contains_key(
            device,
        ),
        context.pending_devices@.contains_key(device) ==> {
            let shown = context@.pending_devices[device];
            let held = context.pending_devices@[device];
            &&& shown.name is Some <==> held.name is Some
            &&& held.name matches Some(name) ==> shown.name == Some(name@)
            &&& shown.device_type == held.device_type
            &&& shown.regions == held.regions@
            &&& shown.interfaces =~= held.interfaces@.map_values(|text: String| text@)
        },
{
}

/// The key event that is queued is the one that the keyboard makes of the key, and
/// the keyboard tracks the key as it does on its own.
pub proof fn law_keys_go_through_the_keyboard(
    context: &mut EiContext,
    keyboard: &mut Keyboard,
    key: u32,
    is_press: bool,
    reply: Reply,
    event: InputEvent,
)
    requires
        call_ensures(EiContext::handle_event, (context, EiEvent::Key { key, is_press }), reply),
        call_ensures(Keyboard::handle_key, (keyboard, key, is_press), event),
        old(context)@.keyboard == old(keyboard)@,
    ensures
        final(context).input_events@ == old(context).input_events@.push(event),
        final(context)@.keyboard == final(keyboard)@,
{
}

/// Nothing is known of a new connection: it has no capabilities, devices, input
/// events or keymap.
pub proof fn law_new_connections_are_empty(context: EiContext, interface: Seq<char>, device: u64)
    requires
        call_ensures(EiContext::new, (), context),
    ensures
        !context.capabilities@.contains_key(interface),
        !context.pending_devices@.contains_key(device),
        context.devices@.len() == 0,
        context.input_events@.len() == 0,
        context.keyboard@.layout is None,
        context.keyboard@.components.mods == 0,
        context.keyboard@.components.group == 0,
{
    law_connections_show_what_they_hold(&context, 0, device);
    assert(!context@.pending_devices.contains_key(device));
}

/// A record takes in what is said about its device, and only that. Once everything
/// was said, or where anything else is, it stays.
pub proof fn law_records_take_in_what_is_said(pending: &mut PendingDeviceInfo, event: DeviceEvent)
    requires
        call_ensures(PendingDeviceInfo::learn, (pending, event), ()),
    ensures
        final(pending)@.name == match event {
            DeviceEvent::Name { name } => Some(name@),
            _ => old(pending)@.name,
        },
        final(pending)@.device_type == match event {
            DeviceEvent::DeviceType { device_type } => Some(device_type),
            _ => old(pending)@.device_type,
        },
        final(pending)@.interfaces == match event {
            DeviceEvent::Interface { name } => old(pending)@.interfaces + seq![name@],
            _ => old(pending)@.interfaces,
        },
        final(pending)@.regions == match event {
            DeviceEvent::Region { region } => old(pending)@.regions + seq![region],
            DeviceEvent::Dimensions { width, height } => if old(pending)@.regions.len() == 0 {
                seq![Region { x: 0, y: 0, width, height, scale: 0x3F80_0000 }]
            } else {
                old(pending)@.regions
            },
            _ => old(pending)@.regions,
        },
{
}

/// Nothing is known of a new record.
pub proof fn law_new_records_are_empty(pending: PendingDeviceInfo)
    requires
        call_ensures(PendingDeviceInfo::new, (), pending),
    ensures
        pending.name is None,
        pending.device_type is None,
        pending.regions@.len() == 0,
        pending.interfaces@.len() == 0,
{
    assert(texts(pending.interfaces@).len() == pending.interfaces@.len());
}

} // verus!
