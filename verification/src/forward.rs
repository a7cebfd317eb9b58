//! Which client the input goes to: entering a client's screen across a barrier,
//! moving the pointer there, sending buttons, keys and scrolling, and coming back.

use crate::config::Position;
use crate::coord::Coord;
use crate::portal::{DesktopBounds, Point, Size};
use crate::server::Event;
use vstd::prelude::*;

verus! {

/// A client that is connected, with the size of its screen.
pub struct ConnectedClient<I> {
    /// The client's ID.
    pub id: I,
    /// The client's name.
    pub name: String,
    /// The width of the client's screen.
    pub width: u16,
    /// The height of the client's screen.
    pub height: u16,
}

/// The client that receives input.
pub struct ActiveClient<I> {
    /// The client's ID.
    pub id: I,
    /// The client's name.
    pub name: String,
    /// The client's position relative to the server.
    pub position: Position,
    /// The size of the client's screen.
    pub size: Size,
    /// Where the client's screen begins, in desktop coordinates.
    pub coord_offset: Point,
    /// The last point of the client's screen, in desktop coordinates.
    pub far_corner: Point,
    /// The activation during which the client receives input.
    pub activation_id: u32,
}

/// Whether the ends of the client's screen are in order, where the pointer is held
/// between them: across the direction in which the client was entered.
pub open spec fn clampable(position: Position, near: Point, far: Point) -> bool {
    match position {
        Position::RightOf | Position::LeftOf => near.y.at_most(far.y),
        Position::TopOf | Position::BottomOf => near.x.at_most(far.x),
    }
}

/// The cursor, held on the client's screen except for the side on which it was
/// entered.
pub open spec fn clamped(cursor: Point, position: Position, near: Point, far: Point) -> Point {
    match position {
        Position::RightOf => Point {
            x: cursor.x.smaller(far.x),
            y: cursor.y.within(near.y, far.y),
        },
        Position::LeftOf => Point {
            x: cursor.x.larger(near.x),
            y: cursor.y.within(near.y, far.y),
        },
        Position::TopOf => Point {
            x: cursor.x.within(near.x, far.x),
            y: cursor.y.larger(near.y),
        },
        Position::BottomOf => Point {
            x: cursor.x.within(near.x, far.x),
            y: cursor.y.smaller(far.y),
        },
    }
}

/// Clamp the cursor to the bounds of a client's screen, based on the side on
/// which it was entered: there it may leave again.
pub fn clamp_cursor_to_client(
    cursor: Point,
    position: Position,
    coord_offset: Point,
    far_corner: Point,
) -> (held: Point)
    requires
        clampable(position, coord_offset, far_corner),
    ensures
        held == clamped(cursor, position, coord_offset, far_corner),
{
    match position {
        // Entered from the left: allow exit to the left.
        Position::RightOf => Point {
            x: cursor.x.min(far_corner.x),
            y: cursor.y.clamp(coord_offset.y, far_corner.y),
        },
        // Entered from the right: allow exit to the right.
        Position::LeftOf => Point {
            x: cursor.x.max(coord_offset.x),
            y: cursor.y.clamp(coord_offset.y, far_corner.y),
        },
        // Entered from the bottom: allow exit at the bottom.
        Position::TopOf => Point {
            x: cursor.x.clamp(coord_offset.x, far_corner.x),
            y: cursor.y.max(coord_offset.y),
        },
        // Entered from the top: allow exit at the top.
        Position::BottomOf => Point {
            x: cursor.x.clamp(coord_offset.x, far_corner.x),
            y: cursor.y.min(far_corner.y),
        },
    }
}

/// Whether one of the connected clients has that name.
pub open spec fn is_connected<I>(connected: Seq<ConnectedClient<I>>, name: Seq<char>) -> bool {
    exists|i: int| 0 <= i < connected.len() && (#[trigger] connected[i]).name@ == name
}

/// Whether the client at `i` is the first of that name.
pub open spec fn first_of_name<I>(
    connected: Seq<ConnectedClient<I>>,
    name: Seq<char>,
    i: int,
) -> bool {
    &&& 0 <= i < connected.len()
    &&& connected[i].name@ == name
    &&& forall|j: int| 0 <= j < i ==> (#[trigger] connected[j]).name@ != name
}

/// Where the first connected client of that name stands.
pub fn find_connected<I>(connected: &Vec<ConnectedClient<I>>, name: &str) -> (found: Option<usize>)
    ensures
        match found {
            Some(i) => first_of_name(connected@, name@, i as int),
            None => !is_connected(connected@, name@),
        },
{
    let mut i: usize = 0;
    while i < connected.len()
        invariant
            i <= connected@.len(),
            forall|j: int| 0 <= j < i ==> (#[trigger] connected@[j]).name@ != name@,
        decreases connected@.len() - i,
    {
        if crate::text::same_text(connected[i].name.as_str(), name) {
            return Some(i);
        }
        i = i + 1;
    }
    None
}

/// How a client's screen is entered: the pointer's place along the barrier,
/// `coordinate` of `desktop_extent`, is to be scaled to `client_extent`.
#[derive(Debug, Clone, Copy)]
pub struct Entry<I> {
    /// The client that is entered.
    pub client: I,
    /// The size of the client's screen.
    pub size: Size,
    /// Where the pointer is along the barrier.
    pub coordinate: Coord,
    /// How long the desktop is along the barrier.
    pub desktop_extent: i32,
    /// How long the client's screen is along the barrier.
    pub client_extent: u16,
}

/// Why no client is entered.
#[derive(Debug, Clone, Copy, PartialEq, Eq, Structural)]
pub enum NoEntry {
    /// The client is not connected.
    NotConnected,
    /// The desktop has no width or no height.
    InvalidDesktop { width: i32, height: i32 },
}

/// How the client's screen is entered from the desktop.
pub open spec fn entry_into<I>(
    client: ConnectedClient<I>,
    bounds: DesktopBounds,
    position: Position,
    cursor: Point,
) -> Entry<I> {
    let size = Size { width: client.width, height: client.height };
    match position {
        Position::RightOf | Position::LeftOf => Entry {
            client: client.id,
            size,
            coordinate: cursor.y,
            desktop_extent: (bounds.max_y - bounds.min_y) as i32,
            client_extent: client.height,
        },
        Position::TopOf | Position::BottomOf => Entry {
            client: client.id,
            size,
            coordinate: cursor.x,
            desktop_extent: (bounds.max_x - bounds.min_x) as i32,
            client_extent: client.width,
        },
    }
}

/// Find the client whose barrier was crossed, and how its screen is entered.
pub fn find_entry<I: Copy>(
    connected: &Vec<ConnectedClient<I>>,
    bounds: &DesktopBounds,
    client_name: &str,
    client_position: Position,
    cursor: Point,
) -> (entry: Result<Entry<I>, NoEntry>)
    requires
        is_connected(connected@, client_name@) ==> bounds.measurable(),
    ensures
        match entry {
            Err(NoEntry::NotConnected) => !is_connected(connected@, client_name@),
            Err(NoEntry::InvalidDesktop { width, height }) => {
                &&& is_connected(connected@, client_name@)
                &&& width == bounds.max_x - bounds.min_x
                &&& height == bounds.max_y - bounds.min_y
                &&& width <= 0 || height <= 0
            },
            Ok(entry) => {
                &&& bounds.min_x < bounds.max_x
                &&& bounds.min_y < bounds.max_y
                &&& exists|i: int| #[trigger]
                    first_of_name(connected@, client_name@, i) && entry == entry_into(
                        connected@[i],
                        *bounds,
                        client_position,
                        cursor,
                    )
            },
        },
{
    let found: usize = match find_connected(connected, client_name) {
        Some(i) => i,
        None => {
            return Err(NoEntry::NotConnected);
        },
    };
    let client = &connected[found];
    let width: i32 = bounds.width();
    let height: i32 = bounds.height();
    if width <= 0 || height <= 0 {
        return Err(NoEntry::InvalidDesktop { width, height });
    }
    let size = Size::new(client.width, client.height);
    let entry = match client_position {
        Position::RightOf | Position::LeftOf => Entry {
            client: client.id,
            size,
            coordinate: cursor.y,
            desktop_extent: height,
            client_extent: client.height,
        },
        Position::TopOf | Position::BottomOf => Entry {
            client: client.id,
            size,
            coordinate: cursor.x,
            desktop_extent: width,
            client_extent: client.width,
        },
    };
    assert(first_of_name(connected@, client_name@, found as int));
    Ok(entry)
}

/// A coordinate on a screen of that extent, as an integer.
pub open spec fn on_screen(c: Coord, extent: u16) -> int {
    c.within(Coord::of_int(0), Coord::of_int(extent - 1)).whole_i16()
}

/// Move a coordinate onto a screen of that extent, as an integer.
fn clamp_to_screen(c: Coord, extent: u16) -> (n: i16)
    requires
        extent >= 1,
    ensures
        n == on_screen(c, extent),
{
    let low = Coord::from_i32(0);
    let high = Coord::from_i32(extent as i32 - 1);
    proof {
        crate::coord::law_integers_keep_their_order(low, 0, high, extent - 1);
    }
    c.clamp(low, high).to_i16()
}

/// Whether the client's screen has the extents that entering it on that side
/// needs.
pub open spec fn enterable(position: Position, size: Size) -> bool {
    match position {
        Position::RightOf => size.height >= 1,
        Position::BottomOf => size.width >= 1,
        Position::LeftOf | Position::TopOf => size.width >= 1 && size.height >= 1,
    }
}

/// Whether the client's screen has the extents that entering it on that side
/// needs.
pub fn is_enterable(position: Position, size: Size) -> (can_enter: bool)
    ensures
        can_enter == enterable(position, size),
{
    match position {
        Position::RightOf => size.height >= 1,
        Position::BottomOf => size.width >= 1,
        Position::LeftOf | Position::TopOf => size.width >= 1 && size.height >= 1,
    }
}

/// Where a client's screen is entered: at the edge towards the desktop, at the
/// scaled place along it.
pub open spec fn entered_at(position: Position, size: Size, scaled: Coord) -> (int, int) {
    match position {
        Position::RightOf => (0, on_screen(scaled, size.height)),
        Position::LeftOf => ((size.width - 1) as i16 as int, on_screen(scaled, size.height)),
        Position::TopOf => (on_screen(scaled, size.width), (size.height - 1) as i16 as int),
        Position::BottomOf => (on_screen(scaled, size.width), 0),
    }
}

/// Map the scaled place along a barrier to the point at which the client's screen
/// is entered.
pub fn entry_point(position: Position, size: Size, scaled: Coord) -> (point: (i16, i16))
    requires
        enterable(position, size),
    ensures
        (point.0 as int, point.1 as int) == entered_at(position, size, scaled),
{
    match position {
        // The client is to the right: enter at its left edge.
        Position::RightOf => (0, clamp_to_screen(scaled, size.height)),
        // The client is to the left: enter at its right edge.
        Position::LeftOf => ((size.width - 1) as i16, clamp_to_screen(scaled, size.height)),
        // The client is above: enter at its bottom edge.
        Position::TopOf => (clamp_to_screen(scaled, size.width), (size.height - 1) as i16),
        // The client is below: enter at its top edge.
        Position::BottomOf => (clamp_to_screen(scaled, size.width), 0),
    }
}

/// Map a cursor, given from where the client's screen begins, to a point of the
/// screen.
pub fn client_point(size: Size, cursor: Point) -> (point: (i16, i16))
    requires
        size.width >= 1,
        size.height >= 1,
    ensures
        point.0 == on_screen(cursor.x, size.width),
        point.1 == on_screen(cursor.y, size.height),
{
    (clamp_to_screen(cursor.x, size.width), clamp_to_screen(cursor.y, size.height))
}

/// What one step of the wheel counts when scrolling is sent.
pub const WHEEL_STEP: i32 = 120;

/// A button or a key for a client.
#[derive(Debug, Clone, Copy, PartialEq, Eq)]
pub enum Message<I> {
    /// A mouse button was pressed.
    ButtonDown { client: I, button: u8 },
    /// A mouse button was released.
    ButtonUp { client: I, button: u8 },
    /// A key was pressed.
    KeyDown { client: I, keysym: u16, mask: u16, button: u16 },
    /// A key was released.
    KeyUp { client: I, keysym: u16, mask: u16, button: u16 },
}

/// What is to be done about an event.
pub enum Action<I> {
    /// Find out how the client's screen is entered, and enter it.
    Enter {
        client_name: String,
        client_position: Position,
        activation_id: u32,
        cursor: Point,
    },
    /// Tell the portal to release the capture.
    Release { request: Event },
    /// Point to a place on the desktop.
    PointTo { cursor: Point },
    /// Point to a place that is so far from the one before.
    Shift { from: Point, dx: Coord, dy: Coord },
    /// Send a button or a key.
    Send { message: Message<I> },
    /// Send scrolling, in units of [`WHEEL_STEP`] to a step of the wheel.
    Scroll { client: I, x: Coord, y: Coord },
    /// Nothing: no client receives input, or the event concerns another one.
    Discard,
    /// Nothing: the event is not one for the clients.
    Unexpected,
}

/// What is to be done about the pointer.
#[derive(Debug, Clone)]
pub enum Motion<I> {
    /// Tell the client that the cursor left, and the portal to release the capture.
    Leave { client: I, request: Event },
    /// Tell the client that the cursor moved: on the screen of that size, which
    /// begins at `coord_offset`.
    Move { client: I, size: Size, coord_offset: Point, cursor: Point },
    /// Nothing: no client receives input.
    Discard,
}

/// Which client receives input, and where the cursor is.
pub struct Forwarder<I> {
    /// The client that receives input.
    pub active_client: Option<ActiveClient<I>>,
    /// The cursor, in desktop coordinates.
    pub cursor: Point,
}

impl<I> Forwarder<I> {
    /// The state without a client that receives input, after one did.
    pub open spec fn idle() -> Forwarder<I> {
        Forwarder {
            active_client: None,
            cursor: Point { x: Coord::of_int(0), y: Coord::of_int(0) },
        }
    }

    /// The state once a client's screen was entered.
    pub open spec fn entered_by(
        entry: Entry<I>,
        client_name: String,
        client_position: Position,
        activation_id: u32,
        cursor: Point,
        coord_offset: Point,
        far_corner: Point,
    ) -> Forwarder<I> {
        Forwarder {
            active_client: Some(
                ActiveClient {
                    id: entry.client,
                    name: client_name,
                    position: client_position,
                    size: entry.size,
                    coord_offset,
                    far_corner,
                    activation_id,
                },
            ),
            cursor,
        }
    }

    /// The request to release the capture of the current activation.
    pub open spec fn release(self, cursor: Option<Point>) -> Event {
        Event::ReleaseCapture {
            activation_id: Some(self.active_client->Some_0.activation_id),
            cursor,
        }
    }

    /// Whether the client of that name receives input.
    pub open spec fn serves(self, name: Seq<char>) -> bool {
        self.active_client matches Some(client) && client.name@ == name
    }

    /// What is to be done about an event.
    pub open spec fn action(self, event: Event) -> Action<I> {
        match event {
            Event::Activated { client_name, client_position, activation_id, cursor } =>
                Action::Enter { client_name, client_position, activation_id, cursor },
            Event::ClientDisconnected { client_name } => if self.serves(client_name@) {
                Action::Release { request: self.release(None) }
            } else {
                Action::Discard
            },
            Event::PointerAbsolute { x, y } => Action::PointTo { cursor: Point { x, y } },
            Event::PointerRelative { dx, dy } => Action::Shift { from: self.cursor, dx, dy },
            Event::Button { button, is_press } => match self.active_client {
                None => Action::Discard,
                Some(client) => Action::Send {
                    message: if is_press {
                        Message::ButtonDown { client: client.id, button: button as u8 }
                    } else {
                        Message::ButtonUp { client: client.id, button: button as u8 }
                    },
                },
            },
            Event::Key { keysym, is_press, mask, button } => match self.active_client {
                None => Action::Discard,
                Some(client) => Action::Send {
                    message: if is_press {
                        Message::KeyDown { client: client.id, keysym: keysym as u16, mask, button }
                    } else {
                        Message::KeyUp { client: client.id, keysym: keysym as u16, mask, button }
                    },
                },
            },
            Event::Scroll { x, y } => match self.active_client {
                None => Action::Discard,
                Some(client) => Action::Scroll { client: client.id, x, y },
            },
            Event::EnableCapture => Action::Unexpected,
            Event::DisableCapture => Action::Unexpected,
            Event::ReleaseCapture { .. } => Action::Unexpected,
        }
    }

    /// The state after an event, before anything is done about it.
    pub open spec fn after(self, event: Event) -> Forwarder<I> {
        match event {
            Event::ClientDisconnected { client_name } => if self.serves(client_name@) {
                Forwarder::idle()
            } else {
                self
            },
            _ => self,
        }
    }

    /// Where the pointer is held when it points to a place on the desktop.
    pub open spec fn held(self, cursor: Point) -> Point {
        match self.active_client {
            None => cursor,
            Some(client) => clamped(
                cursor,
                client.position,
                client.coord_offset,
                client.far_corner,
            ),
        }
    }

    /// Whether the pointer can be held on the screen of the client.
    pub open spec fn can_hold(self) -> bool {
        self.active_client matches Some(client) ==> clampable(
            client.position,
            client.coord_offset,
            client.far_corner,
        )
    }

    /// What is to be done when the pointer points to a place on the desktop.
    pub open spec fn motion(self, cursor: Point, bounds: DesktopBounds) -> Motion<I> {
        match self.active_client {
            None => Motion::Discard,
            Some(client) => if bounds.holds(self.held(cursor)) {
                Motion::Leave {
                    client: client.id,
                    request: self.release(Some(self.held(cursor))),
                }
            } else {
                Motion::Move {
                    client: client.id,
                    size: client.size,
                    coord_offset: client.coord_offset,
                    cursor: self.held(cursor),
                }
            },
        }
    }

    /// The state after the pointer pointed to a place on the desktop.
    pub open spec fn after_motion(self, cursor: Point, bounds: DesktopBounds) -> Forwarder<I> {
        if self.active_client is Some && bounds.holds(self.held(cursor)) {
            Forwarder::idle()
        } else {
            Forwarder { active_client: self.active_client, cursor: self.held(cursor) }
        }
    }
}

impl<I: Copy> Forwarder<I> {
    /// No client receives input yet, and the cursor is in the middle of a desktop
    /// of 1920 by 1080.
    pub fn new() -> (forwarder: Forwarder<I>)
        ensures
            forwarder.active_client is None,
            forwarder.cursor.at(960, 540),
    {
        Forwarder { active_client: None, cursor: Point::from_i32(960, 540) }
    }

    /// No client receives input any more.
    fn stop(&mut self)
        ensures
            *final(self) == Forwarder::<I>::idle(),
    {
        self.active_client = None;
        self.cursor = Point::from_i32(0, 0);
    }

    /// What is to be done about an event. When the client that receives input is
    /// gone, none does.
    pub fn handle_event(&mut self, event: Event) -> (action: Action<I>)
        ensures
            action == old(self).action(event),
            *final(self) == old(self).after(event),
    {
        match event {
            Event::Activated { client_name, client_position, activation_id, cursor } =>
                Action::Enter { client_name, client_position, activation_id, cursor },
            Event::ClientDisconnected { client_name } => {
                let served = match &self.active_client {
                    Some(client) => client.name == client_name,
                    None => false,
                };
                if served {
                    match self.send_failed() {
                        Some(request) => Action::Release { request },
                        None => Action::Discard,
                    }
                } else {
                    Action::Discard
                }
            },
            Event::PointerAbsolute { x, y } => Action::PointTo { cursor: Point::new(x, y) },
            Event::PointerRelative { dx, dy } => Action::Shift { from: self.cursor, dx, dy },
            Event::Button { button, is_press } => match &self.active_client {
                None => Action::Discard,
                Some(client) => Action::Send {
                    message: if is_press {
                        Message::ButtonDown { client: client.id, button: button as u8 }
                    } else {
                        Message::ButtonUp { client: client.id, button: button as u8 }
                    },
                },
            },
            Event::Key { keysym, is_press, mask, button } => match &self.active_client {
                None => Action::Discard,
                Some(client) => Action::Send {
                    message: if is_press {
                        Message::KeyDown { client: client.id, keysym: keysym as u16, mask, button }
                    } else {
                        Message::KeyUp { client: client.id, keysym: keysym as u16, mask, button }
                    },
                },
            },
            Event::Scroll { x, y } => match &self.active_client {
                None => Action::Discard,
                Some(client) => Action::Scroll { client: client.id, x, y },
            },
            Event::EnableCapture => Action::Unexpected,
            Event::DisableCapture => Action::Unexpected,
            Event::ReleaseCapture { .. } => Action::Unexpected,
        }
    }

    /// The client was told that the cursor entered its screen: it receives input
    /// from now on. The screen begins at `coord_offset` and ends at `far_corner`.
    pub fn entered(
        &mut self,
        entry: Entry<I>,
        client_name: String,
        client_position: Position,
        activation_id: u32,
        cursor: Point,
        coord_offset: Point,
        far_corner: Point,
    )
        ensures
            *final(self) == Forwarder::entered_by(
                entry,
                client_name,
                client_position,
                activation_id,
                cursor,
                coord_offset,
                far_corner,
            ),
    {
        self.active_client = Some(
            ActiveClient {
                id: entry.client,
                name: client_name,
                position: client_position,
                size: entry.size,
                coord_offset,
                far_corner,
                activation_id,
            },
        );
        self.cursor = cursor;
    }

    /// Whether the pointer can be held on the screen of the client.
    pub fn holds_pointer(&self) -> (can_hold: bool)
        ensures
            can_hold == self.can_hold(),
    {
        match &self.active_client {
            None => true,
            Some(client) => match client.position {
                Position::RightOf | Position::LeftOf => client.coord_offset.y.is_at_most(
                    client.far_corner.y,
                ),
                Position::TopOf | Position::BottomOf => client.coord_offset.x.is_at_most(
                    client.far_corner.x,
                ),
            },
        }
    }

    /// The pointer points to a place on the desktop. While a client receives
    /// input, the cursor is held on its screen; if it is back on the desktop, the
    /// client receives no more input.
    pub fn point_to(&mut self, cursor: Point, bounds: &DesktopBounds) -> (motion: Motion<I>)
        requires
            old(self).can_hold(),
        ensures
            motion == old(self).motion(cursor, *bounds),
            *final(self) == old(self).after_motion(cursor, *bounds),
    {
        self.cursor = cursor;
        match &self.active_client {
            None => Motion::Discard,
            Some(client) => {
                let held = clamp_cursor_to_client(
                    cursor,
                    client.position,
                    client.coord_offset,
                    client.far_corner,
                );
                let id = client.id;
                if bounds.contains(held) {
                    let request = Event::ReleaseCapture {
                        activation_id: Some(client.activation_id),
                        cursor: Some(held),
                    };
                    self.stop();
                    Motion::Leave { client: id, request }
                } else {
                    let size = client.size;
                    let coord_offset = client.coord_offset;
                    self.cursor = held;
                    Motion::Move { client: id, size, coord_offset, cursor: held }
                }
            },
        }
    }

    /// Input could not be sent to the client: it receives no more. Returned is the
    /// request to release the capture.
    pub fn send_failed(&mut self) -> (request: Option<Event>)
        ensures
            request == match old(self).active_client {
                Some(_) => Some(old(self).release(None)),
                None => None,
            },
            *final(self) == Forwarder::<I>::idle(),
    {
        let request = match &self.active_client {
            Some(client) => Some(
                Event::ReleaseCapture {
                    activation_id: Some(client.activation_id),
                    cursor: None,
                },
            ),
            None => None,
        };
        self.stop();
        request
    }
}

/// While no client receives input, no event sends any, none releases the capture,
/// and the pointer moves freely.
pub proof fn law_no_input_without_a_client<I>(
    forwarder: Forwarder<I>,
    event: Event,
    cursor: Point,
    bounds: DesktopBounds,
)
    requires
        forwarder.active_client is None,
    ensures
        !(forwarder.action(event) is Send),
        !(forwarder.action(event) is Scroll),
        !(forwarder.action(event) is Release),
        forwarder.after(event) == forwarder,
        forwarder.motion(cursor, bounds) == Motion::<I>::Discard,
        forwarder.after_motion(cursor, bounds) == (Forwarder::<I> { active_client: None, cursor }),
{
}

/// Input is sent to no client but the one that receives it.
pub proof fn law_input_reaches_the_active_client<I>(
    forwarder: Forwarder<I>,
    client: ActiveClient<I>,
    event: Event,
    cursor: Point,
    bounds: DesktopBounds,
)
    requires
        forwarder.active_client == Some(client),
    ensures
        match forwarder.action(event) {
            Action::Send { message: Message::ButtonDown { client: id, .. } } => id == client.id,
            Action::Send { message: Message::ButtonUp { client: id, .. } } => id == client.id,
            Action::Send { message: Message::KeyDown { client: id, .. } } => id == client.id,
            Action::Send { message: Message::KeyUp { client: id, .. } } => id == client.id,
            Action::Scroll { client: id, .. } => id == client.id,
            _ => true,
        },
        match forwarder.motion(cursor, bounds) {
            Motion::Leave { client: id, .. } => id == client.id,
            Motion::Move { client: id, .. } => id == client.id,
            Motion::Discard => false,
        },
{
}

/// A client stops receiving input exactly when the capture is released, and the
/// release is that of its activation.
pub proof fn law_release_ends_the_activation<I>(
    forwarder: Forwarder<I>,
    client: ActiveClient<I>,
    event: Event,
    cursor: Point,
    bounds: DesktopBounds,
)
    requires
        forwarder.active_client == Some(client),
    ensures
        forwarder.after(event).active_client is None <==> forwarder.action(event) is Release,
        forwarder.action(event) matches Action::Release { request } ==> request
            == (Event::ReleaseCapture { activation_id: Some(client.activation_id), cursor: None }),
        forwarder.after_motion(cursor, bounds).active_client is None <==> forwarder.motion(
            cursor,
            bounds,
        ) is Leave,
        forwarder.motion(cursor, bounds) matches Motion::Leave { request, .. } ==> request
            == (Event::ReleaseCapture {
            activation_id: Some(client.activation_id),
            cursor: Some(forwarder.held(cursor)),
        }),
{
}

/// What happens while input is forwarded.
pub ghost enum Happening<I> {
    /// An event comes.
    Comes { event: Event },
    /// A client's screen is entered: its activation is accepted.
    Enters {
        entry: Entry<I>,
        client_name: String,
        client_position: Position,
        activation_id: u32,
        cursor: Point,
        coord_offset: Point,
        far_corner: Point,
    },
    /// The pointer points to a place on the desktop.
    Points { cursor: Point, bounds: DesktopBounds },
    /// Input cannot be sent to the client.
    Fails,
}

/// What is to be seen of it from the portal.
pub ghost enum Mark {
    /// An activation is accepted.
    Accepted { activation_id: u32 },
    /// The capture is to be released.
    Released { request: Event },
}

impl<I> Forwarder<I> {
    /// The state after something happened.
    pub open spec fn after_happening(self, happening: Happening<I>) -> Forwarder<I> {
        match happening {
            Happening::Comes { event } => self.after(event),
            Happening::Enters {
                entry,
                client_name,
                client_position,
                activation_id,
                cursor,
                coord_offset,
                far_corner,
            } => Forwarder::entered_by(
                entry,
                client_name,
                client_position,
                activation_id,
                cursor,
                coord_offset,
                far_corner,
            ),
            Happening::Points { cursor, bounds } => self.after_motion(cursor, bounds),
            Happening::Fails => Forwarder::idle(),
        }
    }

    /// What is to be seen from the portal of what happened.
    pub open spec fn mark(self, happening: Happening<I>) -> Option<Mark> {
        match happening {
            Happening::Comes { event } => match self.action(event) {
                Action::Release { request } => Some(Mark::Released { request }),
                _ => None,
            },
            Happening::Enters { activation_id, .. } => Some(Mark::Accepted { activation_id }),
            Happening::Points { cursor, bounds } => match self.motion(cursor, bounds) {
                Motion::Leave { request, .. } => Some(Mark::Released { request }),
                _ => None,
            },
            Happening::Fails => if self.active_client is Some {
                Some(Mark::Released { request: self.release(None) })
            } else {
                None
            },
        }
    }
}

/// The state after a run.
pub open spec fn forwarder_after<I>(start: Forwarder<I>, run: Seq<Happening<I>>) -> Forwarder<I>
    decreases run.len(),
{
    if run.len() == 0 {
        start
    } else {
        forwarder_after(start, run.drop_last()).after_happening(run.last())
    }
}

/// What is to be seen of a run from the portal, in the order of the run.
pub open spec fn marks_of_run<I>(start: Forwarder<I>, run: Seq<Happening<I>>) -> Seq<Mark>
    decreases run.len(),
{
    if run.len() == 0 {
        Seq::empty()
    } else {
        let before = marks_of_run(start, run.drop_last());
        match forwarder_after(start, run.drop_last()).mark(run.last()) {
            Some(mark) => before.push(mark),
            None => before,
        }
    }
}

/// How many of the marks are releases.
pub open spec fn release_count(marks: Seq<Mark>) -> nat
    decreases marks.len(),
{
    if marks.len() == 0 {
        0
    } else {
        release_count(marks.drop_last()) + if marks.last() is Released {
            1nat
        } else {
            0nat
        }
    }
}

/// How many of the marks are accepted activations.
pub open spec fn accepted_count(marks: Seq<Mark>) -> nat
    decreases marks.len(),
{
    if marks.len() == 0 {
        0
    } else {
        accepted_count(marks.drop_last()) + if marks.last() is Accepted {
            1nat
        } else {
            0nat
        }
    }
}

/// Over any run, each release follows directly on an accepted activation and
/// carries its ID: the one that was accepted last. So between two releases there
/// is an accepted activation, and none is released twice; nor are there ever more
/// releases than accepted activations.
pub proof fn law_no_activation_is_released_twice<I>(
    start: Forwarder<I>,
    run: Seq<Happening<I>>,
)
    requires
        start.active_client is None,
    ensures
        forall|k: int|
            0 <= k < marks_of_run(start, run).len() ==> ((#[trigger] marks_of_run(start, run)[k])
                matches Mark::Released { request } ==> {
                &&& k > 0
                &&& marks_of_run(start, run)[k - 1] matches Mark::Accepted { activation_id }
                &&& request matches Event::ReleaseCapture { activation_id: released, .. }
                &&& released == Some(activation_id)
            }),
        release_count(marks_of_run(start, run)) <= accepted_count(marks_of_run(start, run)),
{
    lemma_marks_of_run(start, run);
}

/// What holds of the marks of a run. A client receives input exactly when the last
/// mark is its accepted activation.
proof fn lemma_marks_of_run<I>(start: Forwarder<I>, run: Seq<Happening<I>>)
    requires
        start.active_client is None,
    ensures
        ({
            let marks = marks_of_run(start, run);
            let state = forwarder_after(start, run);
            let active = marks.len() > 0 && marks.last() is Accepted;
            &&& state.active_client is Some <==> active
            &&& active ==> marks.last() == (Mark::Accepted {
                activation_id: state.active_client->Some_0.activation_id,
            })
            &&& forall|k: int|
                0 <= k < marks.len() ==> ((#[trigger] marks[k]) matches Mark::Released {
                    request,
                } ==> {
                    &&& k > 0
                    &&& marks[k - 1] matches Mark::Accepted { activation_id }
                    &&& request matches Event::ReleaseCapture { activation_id: released, .. }
                    &&& released == Some(activation_id)
                })
            &&& release_count(marks) + (if active {
                1nat
            } else {
                0nat
            }) <= accepted_count(marks)
        }),
    decreases run.len(),
{
    if run.len() > 0 {
        let before = run.drop_last();
        lemma_marks_of_run(start, before);
        let state = forwarder_after(start, before);
        let marks = marks_of_run(start, before);
        if let Some(mark) = state.mark(run.last()) {
            assert(marks.push(mark).drop_last() =~= marks);
            assert(marks_of_run(start, run) == marks.push(mark));
            assert forall|k: int| 0 <= k < marks.push(mark).len() implies ((
            #[trigger] marks.push(mark)[k]) matches Mark::Released { request } ==> {
                &&& k > 0
                &&& marks.push(mark)[k - 1] matches Mark::Accepted { activation_id }
                &&& request matches Event::ReleaseCapture { activation_id: released, .. }
                &&& released == Some(activation_id)
            }) by {
                if k < marks.len() {
                    assert(marks.push(mark)[k] == marks[k]);
                }
            }
        }
    }
}

/// The pointer leaves a client's screen only on the side on which it was entered;
/// what is held there already stays as it is.
pub proof fn law_pointer_is_held(cursor: Point, position: Position, near: Point, far: Point)
    requires
        !cursor.x.nan(),
        !cursor.y.nan(),
        near.x.at_most(far.x),
        near.y.at_most(far.y),
    ensures
        ({
            let held = clamped(cursor, position, near, far);
            &&& position != Position::RightOf ==> near.x.at_most(held.x)
            &&& position != Position::LeftOf ==> held.x.at_most(far.x)
            &&& position != Position::BottomOf ==> near.y.at_most(held.y)
            &&& position != Position::TopOf ==> held.y.at_most(far.y)
            &&& clamped(held, position, near, far) == held
        }),
{
}

/// A place on a screen whose last pixel is an integer of 16 bits is one of its
/// pixels.
proof fn lemma_on_screen(c: Coord, extent: u16)
    requires
        1 <= extent <= 0x8000,
    ensures
        0 <= on_screen(c, extent) < extent,
{
    let low = Coord::of_int(0);
    let high = Coord::of_int(extent - 1);
    crate::coord::law_integers_have_coordinates(0);
    crate::coord::law_integers_have_coordinates(extent - 1);
    crate::coord::law_integers_keep_their_order(low, 0, high, extent - 1);
    let held = c.within(low, high);
    if !c.nan() {
        crate::coord::law_clamp_stays_in_range(c, low, high);
        crate::coord::law_whole_stays_in_range(held, extent - 1);
    }
}

/// A client's screen is entered at one of its pixels, on the edge towards the
/// desktop, and the cursor stays on its pixels, if they have numbers of 15 bits.
pub proof fn law_points_are_on_the_screen(
    position: Position,
    size: Size,
    scaled: Coord,
    cursor: Point,
)
    requires
        1 <= size.width <= 0x8000,
        1 <= size.height <= 0x8000,
    ensures
        ({
            let (x, y) = entered_at(position, size, scaled);
            &&& 0 <= x < size.width
            &&& 0 <= y < size.height
            &&& position == Position::RightOf ==> x == 0
            &&& position == Position::LeftOf ==> x == size.width - 1
            &&& position == Position::TopOf ==> y == size.height - 1
            &&& position == Position::BottomOf ==> y == 0
        }),
        0 <= on_screen(cursor.x, size.width) < size.width,
        0 <= on_screen(cursor.y, size.height) < size.height,
{
    lemma_on_screen(scaled, size.width);
    lemma_on_screen(scaled, size.height);
    lemma_on_screen(cursor.x, size.width);
    lemma_on_screen(cursor.y, size.height);
}

/// Holding the cursor on a client's screen bounds it on three sides: at the far
/// corner except on the left for a client on the right, and likewise for the other
/// positions. On the side towards the desktop it moves freely.
pub proof fn law_cursor_is_bounded_on_three_sides(
    cursor: Point,
    position: Position,
    near: Point,
    far: Point,
    held: Point,
)
    requires
        call_ensures(clamp_cursor_to_client, (cursor, position, near, far), held),
        position == Position::LeftOf || position == Position::RightOf ==> near.y.at_most(far.y),
        position == Position::TopOf || position == Position::BottomOf ==> near.x.at_most(far.x),
    ensures
        position == Position::LeftOf || position == Position::RightOf ==> {
            &&& cursor.y.below(near.y) ==> held.y == near.y
            &&& far.y.below(cursor.y) ==> held.y == far.y
            &&& !cursor.y.below(near.y) && !far.y.below(cursor.y) ==> held.y == cursor.y
        },
        position == Position::TopOf || position == Position::BottomOf ==> {
            &&& cursor.x.below(near.x) ==> held.x == near.x
            &&& far.x.below(cursor.x) ==> held.x == far.x
            &&& !cursor.x.below(near.x) && !far.x.below(cursor.x) ==> held.x == cursor.x
        },
        position == Position::RightOf ==> held.x == if cursor.x.nan() || far.x.below(cursor.x) {
            far.x
        } else {
            cursor.x
        },
        position == Position::LeftOf ==> held.x == if cursor.x.nan() || cursor.x.below(near.x) {
            near.x
        } else {
            cursor.x
        },
        position == Position::TopOf ==> held.y == if cursor.y.nan() || cursor.y.below(near.y) {
            near.y
        } else {
            cursor.y
        },
        position == Position::BottomOf ==> held.y == if cursor.y.nan() || far.y.below(cursor.y) {
            far.y
        } else {
            cursor.y
        },
{
}

/// Where a cursor is held along one axis of a screen from `near` to `far`: between
/// both ends, or between one of them and the open side.
pub open spec fn kept_between(place: int, low: Option<int>, high: Option<int>) -> int {
    if low matches Some(n) && place < n {
        low->Some_0
    } else if high matches Some(n) && place > n {
        high->Some_0
    } else {
        place
    }
}

/// On integer coordinates, the cursor is held at the nearest point of the client's
/// screen, with the side towards the desktop left open.
pub proof fn law_integer_cursor_is_held(
    cursor: Point,
    position: Position,
    near: Point,
    far: Point,
    held: Point,
    x: int,
    y: int,
    near_x: int,
    near_y: int,
    far_x: int,
    far_y: int,
)
    requires
        call_ensures(clamp_cursor_to_client, (cursor, position, near, far), held),
        cursor.at(x, y),
        near.at(near_x, near_y),
        far.at(far_x, far_y),
        position == Position::LeftOf || position == Position::RightOf ==> near_y <= far_y,
        position == Position::TopOf || position == Position::BottomOf ==> near_x <= far_x,
    ensures
        ({
            let (held_x, held_y) = match position {
                Position::RightOf => (
                    kept_between(x, None, Some(far_x)),
                    kept_between(y, Some(near_y), Some(far_y)),
                ),
                Position::LeftOf => (
                    kept_between(x, Some(near_x), None),
                    kept_between(y, Some(near_y), Some(far_y)),
                ),
                Position::TopOf => (
                    kept_between(x, Some(near_x), Some(far_x)),
                    kept_between(y, Some(near_y), None),
                ),
                Position::BottomOf => (
                    kept_between(x, Some(near_x), Some(far_x)),
                    kept_between(y, None, Some(far_y)),
                ),
            };
            held.at(held_x, held_y)
        }),
{
    lemma_integer_cursor_is_held(
        cursor,
        position,
        near,
        far,
        x,
        y,
        near_x,
        near_y,
        far_x,
        far_y,
    );
}

/// Where integer coordinates are held.
proof fn lemma_integer_cursor_is_held(
    cursor: Point,
    position: Position,
    near: Point,
    far: Point,
    x: int,
    y: int,
    near_x: int,
    near_y: int,
    far_x: int,
    far_y: int,
)
    requires
        cursor.at(x, y),
        near.at(near_x, near_y),
        far.at(far_x, far_y),
        position == Position::LeftOf || position == Position::RightOf ==> near_y <= far_y,
        position == Position::TopOf || position == Position::BottomOf ==> near_x <= far_x,
    ensures
        clampable(position, near, far),
        ({
            let (held_x, held_y) = match position {
                Position::RightOf => (
                    kept_between(x, None, Some(far_x)),
                    kept_between(y, Some(near_y), Some(far_y)),
                ),
                Position::LeftOf => (
                    kept_between(x, Some(near_x), None),
                    kept_between(y, Some(near_y), Some(far_y)),
                ),
                Position::TopOf => (
                    kept_between(x, Some(near_x), Some(far_x)),
                    kept_between(y, Some(near_y), None),
                ),
                Position::BottomOf => (
                    kept_between(x, Some(near_x), Some(far_x)),
                    kept_between(y, None, Some(far_y)),
                ),
            };
            clamped(cursor, position, near, far).at(held_x, held_y)
        }),
{
    crate::coord::law_integers_keep_their_order(near.x, near_x, far.x, far_x);
    crate::coord::law_integers_keep_their_order(near.y, near_y, far.y, far_y);
    crate::coord::law_integers_keep_their_order(cursor.x, x, near.x, near_x);
    crate::coord::law_integers_keep_their_order(cursor.y, y, near.y, near_y);
    crate::coord::law_integers_keep_their_order(far.x, far_x, cursor.x, x);
    crate::coord::law_integers_keep_their_order(far.y, far_y, cursor.y, y);
    crate::coord::law_integers_are_whole(cursor.x, x);
    crate::coord::law_integers_are_whole(cursor.y, y);
}

/// While a client receives input, the cursor that was held on its screen leaves it
/// exactly when it is within all four edges of the desktop. Then the client is told,
/// the capture is released at the held point, and no client receives input any
/// more. Outside any of the edges the client is told of the held point, on its own
/// screen, and goes on receiving input.
pub proof fn law_pointer_leaves_within_all_edges<I: Copy>(
    forwarder: &mut Forwarder<I>,
    client: ActiveClient<I>,
    cursor: Point,
    bounds: &DesktopBounds,
    motion: Motion<I>,
    x: int,
    y: int,
    near_x: int,
    near_y: int,
    far_x: int,
    far_y: int,
)
    requires
        call_ensures(Forwarder::<I>::point_to, (forwarder, cursor, bounds), motion),
        old(forwarder).active_client == Some(client),
        cursor.at(x, y),
        client.coord_offset.at(near_x, near_y),
        client.far_corner.at(far_x, far_y),
        client.position == Position::LeftOf || client.position == Position::RightOf ==> near_y
            <= far_y,
        client.position == Position::TopOf || client.position == Position::BottomOf ==> near_x
            <= far_x,
    ensures
        ({
            let held_x = kept_between(
                x,
                if client.position == Position::RightOf {
                    None
                } else {
                    Some(near_x)
                },
                if client.position == Position::LeftOf {
                    None
                } else {
                    Some(far_x)
                },
            );
            let held_y = kept_between(
                y,
                if client.position == Position::BottomOf {
                    None
                } else {
                    Some(near_y)
                },
                if client.position == Position::TopOf {
                    None
                } else {
                    Some(far_y)
                },
            );
            &&& motion is Leave <==> bounds.min_x <= held_x && held_x < bounds.max_x
                && bounds.min_y <= held_y && held_y < bounds.max_y
            &&& motion is Move <==> held_x < bounds.min_x || held_x >= bounds.max_x || held_y
                < bounds.min_y || held_y >= bounds.max_y
            &&& motion matches Motion::Leave { client: id, request } ==> {
                &&& id == client.id
                &&& request matches Event::ReleaseCapture { activation_id, cursor: Some(point) }
                &&& activation_id == Some(client.activation_id)
                &&& point.at(held_x, held_y)
                &&& final(forwarder).active_client is None
                &&& final(forwarder).cursor.at(0, 0)
            }
            &&& motion matches Motion::Move { client: id, size, coord_offset, cursor: point } ==> {
                &&& id == client.id
                &&& size == client.size
                &&& coord_offset == client.coord_offset
                &&& point.at(held_x, held_y)
                &&& final(forwarder).active_client == Some(client)
                &&& final(forwarder).cursor == point
            }
        }),
{
    lemma_integer_cursor_is_held(
        cursor,
        client.position,
        client.coord_offset,
        client.far_corner,
        x,
        y,
        near_x,
        near_y,
        far_x,
        far_y,
    );
    let held = clamped(cursor, client.position, client.coord_offset, client.far_corner);
    let (at_x, at_y) = match client.position {
        Position::RightOf => (
            kept_between(x, None, Some(far_x)),
            kept_between(y, Some(near_y), Some(far_y)),
        ),
        Position::LeftOf => (
            kept_between(x, Some(near_x), None),
            kept_between(y, Some(near_y), Some(far_y)),
        ),
        Position::TopOf => (
            kept_between(x, Some(near_x), Some(far_x)),
            kept_between(y, Some(near_y), None),
        ),
        Position::BottomOf => (
            kept_between(x, Some(near_x), Some(far_x)),
            kept_between(y, None, Some(far_y)),
        ),
    };
    crate::portal::law_bounds_hold_integer_points(*bounds, held, at_x, at_y);
    crate::coord::law_integers_have_coordinates(0);
}

/// Whatever the coordinates, the pointer leaves the client's screen exactly when the
/// point at which it is held is on the desktop; it is told and released as that very
/// point, and the client is told of that very point otherwise.
pub proof fn law_pointer_leaves_where_it_is_held<I: Copy>(
    forwarder: &mut Forwarder<I>,
    client: ActiveClient<I>,
    cursor: Point,
    bounds: &DesktopBounds,
    motion: Motion<I>,
    held: Point,
    inside: bool,
)
    requires
        call_ensures(Forwarder::<I>::point_to, (forwarder, cursor, bounds), motion),
        old(forwarder).active_client == Some(client),
        call_ensures(
            clamp_cursor_to_client,
            (cursor, client.position, client.coord_offset, client.far_corner),
            held,
        ),
        call_ensures(DesktopBounds::contains, (bounds, held), inside),
        client.position == Position::LeftOf || client.position == Position::RightOf
            ==> client.coord_offset.y.at_most(client.far_corner.y),
        client.position == Position::TopOf || client.position == Position::BottomOf
            ==> client.coord_offset.x.at_most(client.far_corner.x),
    ensures
        inside ==> motion == (Motion::Leave {
            client: client.id,
            request: Event::ReleaseCapture {
                activation_id: Some(client.activation_id),
                cursor: Some(held),
            },
        }),
        inside ==> final(forwarder).active_client is None && final(forwarder).cursor.x.bits == 0
            && final(forwarder).cursor.y.bits == 0,
        !inside ==> motion == (Motion::Move {
            client: client.id,
            size: client.size,
            coord_offset: client.coord_offset,
            cursor: held,
        }),
        !inside ==> final(forwarder).active_client == Some(client) && final(forwarder).cursor
            == held,
{
    crate::coord::law_integers_have_coordinates(0);
}

/// While no client receives input, the cursor goes where it points, and nothing is
/// sent.
pub proof fn law_pointer_is_free_without_a_client<I: Copy>(
    forwarder: &mut Forwarder<I>,
    cursor: Point,
    bounds: &DesktopBounds,
    motion: Motion<I>,
)
    requires
        call_ensures(Forwarder::<I>::point_to, (forwarder, cursor, bounds), motion),
        old(forwarder).active_client is None,
    ensures
        motion is Discard,
        final(forwarder).active_client is None,
        final(forwarder).cursor == cursor,
{
}

/// The pointer can be held exactly when the ends of the client's screen are in
/// order, from top to bottom for a client on the left or right, and from left to
/// right for one above or below.
pub proof fn law_ends_in_order_hold_the_pointer<I: Copy>(forwarder: &Forwarder<I>, can_hold: bool)
    requires
        call_ensures(Forwarder::<I>::holds_pointer, (forwarder,), can_hold),
    ensures
        can_hold == forwarder.can_hold(),
        can_hold <==> match forwarder.active_client {
            None => true,
            Some(client) => if client.position == Position::LeftOf || client.position
                == Position::RightOf {
                client.coord_offset.y.at_most(client.far_corner.y)
            } else {
                client.coord_offset.x.at_most(client.far_corner.x)
            },
        },
{
}

/// An entry that is found is into the first connected client of that name, with its
/// ID, its width and its height, whatever its position. Along a barrier on the left
/// or right the pointer's place is vertical, and is scaled from the desktop's height
/// to the client's; along one above or below it is horizontal, and is scaled from
/// width to width. There is an entry exactly when the desktop has an extent in both
/// directions.
pub proof fn law_entries_are_into_the_client<I: Copy>(
    connected: &Vec<ConnectedClient<I>>,
    bounds: &DesktopBounds,
    name: &str,
    position: Position,
    cursor: Point,
    entry: Result<Entry<I>, NoEntry>,
    i: int,
)
    requires
        call_ensures(find_entry::<I>, (connected, bounds, name, position, cursor), entry),
        -0x8000_0000 <= bounds.max_x - bounds.min_x <= 0x7FFF_FFFF,
        -0x8000_0000 <= bounds.max_y - bounds.min_y <= 0x7FFF_FFFF,
        0 <= i < connected@.len(),
        connected@[i].name@ == name@,
        forall|j: int| 0 <= j < i ==> (#[trigger] connected@[j]).name@ != name@,
    ensures
        entry is Ok <==> bounds.min_x < bounds.max_x && bounds.min_y < bounds.max_y,
        entry matches Ok(entry) ==> {
            &&& entry.client == connected@[i].id
            &&& entry.size.width == connected@[i].width
            &&& entry.size.height == connected@[i].height
            &&& position == Position::LeftOf || position == Position::RightOf ==> {
                &&& entry.coordinate == cursor.y
                &&& entry.desktop_extent == bounds.max_y - bounds.min_y
                &&& entry.client_extent == entry.size.height
            }
            &&& position == Position::TopOf || position == Position::BottomOf ==> {
                &&& entry.coordinate == cursor.x
                &&& entry.desktop_extent == bounds.max_x - bounds.min_x
                &&& entry.client_extent == entry.size.width
            }
        },
        entry matches Err(error) ==> error == (NoEntry::InvalidDesktop {
            width: (bounds.max_x - bounds.min_x) as i32,
            height: (bounds.max_y - bounds.min_y) as i32,
        }),
{
    assert(is_connected(connected@, name@));
    if let Ok(entry) = entry {
        let k = choose|k: int| #[trigger]
            first_of_name(connected@, name@, k) && entry == entry_into(
                connected@[k],
                *bounds,
                position,
                cursor,
            );
        if k < i {
            assert(connected@[k].name@ != name@);
        }
        if i < k {
            assert(connected@[i].name@ != name@);
        }
    }
}

/// No entry is found into a client that is not connected, and the first one of a
/// name is found where one is.
pub proof fn law_clients_are_found_by_name<I: Copy>(
    connected: &Vec<ConnectedClient<I>>,
    bounds: &DesktopBounds,
    name: &str,
    position: Position,
    cursor: Point,
    entry: Result<Entry<I>, NoEntry>,
    found: Option<usize>,
    i: int,
)
    requires
        call_ensures(find_entry::<I>, (connected, bounds, name, position, cursor), entry),
        call_ensures(find_connected::<I>, (connected, name), found),
        -0x8000_0000 <= bounds.max_x - bounds.min_x <= 0x7FFF_FFFF,
        -0x8000_0000 <= bounds.max_y - bounds.min_y <= 0x7FFF_FFFF,
    ensures
        entry == Err::<Entry<I>, NoEntry>(NoEntry::NotConnected) <==> found is None,
        found is None && 0 <= i < connected@.len() ==> connected@[i].name@ != name@,
        found matches Some(k) ==> {
            &&& k < connected@.len()
            &&& connected@[k as int].name@ == name@
            &&& 0 <= i < k ==> connected@[i].name@ != name@
        },
{
    if let Some(k) = found {
        assert(is_connected(connected@, name@));
    }
    if let Ok(entry) = entry {
        let k = choose|k: int| #[trigger]
            first_of_name(connected@, name@, k) && entry == entry_into(
                connected@[k],
                *bounds,
                position,
                cursor,
            );
        assert(is_connected(connected@, name@));
    }
}

/// A key goes to the client that receives input, down when it is pressed and up when
/// it is released, with the mask and the button of the event and its keysym, of
/// which the protocol has room for 16 bits.
pub proof fn law_keys_are_sent_as_they_are<I: Copy>(
    forwarder: &mut Forwarder<I>,
    keysym: u32,
    is_press: bool,
    mask: u16,
    button: u16,
    action: Action<I>,
)
    requires
        call_ensures(
            Forwarder::<I>::handle_event,
            (forwarder, Event::Key { keysym, is_press, mask, button }),
            action,
        ),
    ensures
        *final(forwarder) == *old(forwarder),
        old(forwarder).active_client is None ==> action is Discard,
        old(forwarder).active_client matches Some(client) ==> {
            &&& action matches Action::Send { message }
            &&& is_press ==> {
                &&& message matches Message::KeyDown {
                    client: id,
                    keysym: sent,
                    mask: sent_mask,
                    button: sent_button,
                }
                &&& id == client.id
                &&& sent == keysym % 0x1_0000
                &&& sent_mask == mask
                &&& sent_button == button
            }
            &&& !is_press ==> {
                &&& message matches Message::KeyUp {
                    client: id,
                    keysym: sent,
                    mask: sent_mask,
                    button: sent_button,
                }
                &&& id == client.id
                &&& sent == keysym % 0x1_0000
                &&& sent_mask == mask
                &&& sent_button == button
            }
        },
{
    assert(keysym as u16 == keysym % 0x1_0000) by (bit_vector);
}

/// A press and a release of the same key carry the same keysym, mask and button, and
/// a keysym of 16 bits is carried exactly.
pub proof fn law_keys_are_released_as_pressed<I: Copy>(
    presses: &mut Forwarder<I>,
    releases: &mut Forwarder<I>,
    keysym: u32,
    mask: u16,
    button: u16,
    down: Action<I>,
    up: Action<I>,
)
    requires
        call_ensures(
            Forwarder::<I>::handle_event,
            (presses, Event::Key { keysym, is_press: true, mask, button }),
            down,
        ),
        call_ensures(
            Forwarder::<I>::handle_event,
            (releases, Event::Key { keysym, is_press: false, mask, button }),
            up,
        ),
        old(presses).active_client is Some,
        old(releases).active_client == old(presses).active_client,
    ensures
        down matches Action::Send {
            message: Message::KeyDown { client, keysym: sent, mask: sent_mask, button: sent_button },
        } && {
            &&& up == (Action::Send {
                message: Message::KeyUp {
                    client,
                    keysym: sent,
                    mask: sent_mask,
                    button: sent_button,
                },
            })
            &&& keysym <= 0xFFFF ==> sent == keysym
            &&& sent_mask == mask
            &&& sent_button == button
        },
{
}

/// A button goes to the client that receives input, down when it is pressed and up
/// when it is released, with its number, of which the protocol has room for 8 bits.
pub proof fn law_buttons_are_sent_as_they_are<I: Copy>(
    forwarder: &mut Forwarder<I>,
    button: u32,
    is_press: bool,
    action: Action<I>,
)
    requires
        call_ensures(
            Forwarder::<I>::handle_event,
            (forwarder, Event::Button { button, is_press }),
            action,
        ),
    ensures
        *final(forwarder) == *old(forwarder),
        old(forwarder).active_client is None ==> action is Discard,
        old(forwarder).active_client matches Some(client) ==> {
            &&& action matches Action::Send { message }
            &&& is_press ==> {
                &&& message matches Message::ButtonDown { client: id, button: sent }
                &&& id == client.id
                &&& sent == button % 0x100
            }
            &&& !is_press ==> {
                &&& message matches Message::ButtonUp { client: id, button: sent }
                &&& id == client.id
                &&& sent == button % 0x100
            }
        },
{
    assert(button as u8 == button % 0x100) by (bit_vector);
}

/// Motion and scrolling keep their coordinates: a place that is pointed to, a
/// distance from where the cursor is, and steps of the wheel for the client that
/// receives input. They change nothing by themselves.
pub proof fn law_motion_keeps_its_coordinates<I: Copy>(
    forwarder: &mut Forwarder<I>,
    event: Event,
    action: Action<I>,
)
    requires
        call_ensures(Forwarder::<I>::handle_event, (forwarder, event), action),
        event is PointerAbsolute || event is PointerRelative || event is Scroll,
    ensures
        *final(forwarder) == *old(forwarder),
        event matches Event::PointerAbsolute { x, y } ==> {
            &&& action matches Action::PointTo { cursor }
            &&& cursor.x == x
            &&& cursor.y == y
        },
        event matches Event::PointerRelative { dx, dy } ==> {
            &&& action matches Action::Shift { from, dx: by_x, dy: by_y }
            &&& from == old(forwarder).cursor
            &&& by_x == dx
            &&& by_y == dy
        },
        event matches Event::Scroll { x, y } ==> match old(forwarder).active_client {
            None => action is Discard,
            Some(client) => {
                &&& action matches Action::Scroll { client: id, x: by_x, y: by_y }
                &&& id == client.id
                &&& by_x == x
                &&& by_y == y
            },
        },
{
}

/// A crossed barrier leads to entering the client that it names, with the position,
/// the activation and the cursor that it tells; the requests of the server are not
/// for the clients. Neither changes anything by itself.
pub proof fn law_activations_lead_to_entering<I: Copy>(
    forwarder: &mut Forwarder<I>,
    event: Event,
    action: Action<I>,
)
    requires
        call_ensures(Forwarder::<I>::handle_event, (forwarder, event), action),
        event is Activated || event is EnableCapture || event is DisableCapture
            || event is ReleaseCapture,
    ensures
        *final(forwarder) == *old(forwarder),
        !(event is Activated) ==> action is Unexpected,
        event matches Event::Activated {
            client_name,
            client_position,
            activation_id,
            cursor,
        } ==> {
            &&& action matches Action::Enter {
                client_name: name,
                client_position: position,
                activation_id: id,
                cursor: point,
            }
            &&& name@ == client_name@
            &&& position == client_position
            &&& id == activation_id
            &&& point == cursor
        },
{
}

/// When the client that receives input is gone, the capture of its activation is
/// released without a place for the cursor, and no client receives input any more.
/// When another client is gone, nothing happens.
pub proof fn law_gone_clients_are_released<I: Copy>(
    forwarder: &mut Forwarder<I>,
    name: String,
    action: Action<I>,
)
    requires
        call_ensures(
            Forwarder::<I>::handle_event,
            (forwarder, Event::ClientDisconnected { client_name: name }),
            action,
        ),
    ensures
        match old(forwarder).active_client {
            Some(client) => if client.name@ == name@ {
                &&& action == (Action::<I>::Release {
                    request: Event::ReleaseCapture {
                        activation_id: Some(client.activation_id),
                        cursor: None,
                    },
                })
                &&& final(forwarder).active_client is None
                &&& final(forwarder).cursor.at(0, 0)
            } else {
                action is Discard && *final(forwarder) == *old(forwarder)
            },
            None => action is Discard && *final(forwarder) == *old(forwarder),
        },
{
    crate::coord::law_integers_have_coordinates(0);
}

/// When input cannot be sent, the capture of the activation is released without a
/// place for the cursor, if a client received input, and none does any more.
pub proof fn law_failures_are_released<I: Copy>(
    forwarder: &mut Forwarder<I>,
    request: Option<Event>,
)
    requires
        call_ensures(Forwarder::<I>::send_failed, (forwarder,), request),
    ensures
        old(forwarder).active_client is None ==> request is None,
        old(forwarder).active_client matches Some(client) ==> request == Some(
            Event::ReleaseCapture { activation_id: Some(client.activation_id), cursor: None },
        ),
        final(forwarder).active_client is None,
        final(forwarder).cursor.at(0, 0),
{
    crate::coord::law_integers_have_coordinates(0);
}

/// A client that was entered receives input, with everything that was told of it:
/// the ID and the size of the entry, the name, the position, the activation and the
/// corners of its screen. The cursor is where the barrier was crossed.
pub proof fn law_entered_clients_receive_input<I: Copy>(
    forwarder: &mut Forwarder<I>,
    entry: Entry<I>,
    name: String,
    position: Position,
    activation_id: u32,
    cursor: Point,
    coord_offset: Point,
    far_corner: Point,
)
    requires
        call_ensures(
            Forwarder::<I>::entered,
            (
                forwarder,
                entry,
                name,
                position,
                activation_id,
                cursor,
                coord_offset,
                far_corner,
            ),
            (),
        ),
    ensures
        final(forwarder).cursor == cursor,
        final(forwarder).active_client matches Some(client) && {
            &&& client.id == entry.client
            &&& client.name@ == name@
            &&& client.position == position
            &&& client.size.width == entry.size.width
            &&& client.size.height == entry.size.height
            &&& client.coord_offset == coord_offset
            &&& client.far_corner == far_corner
            &&& client.activation_id == activation_id
        },
{
}

/// At first no client receives input, and the cursor is in the middle of the bounds
/// that are assumed for the desktop.
pub proof fn law_cursor_starts_in_the_middle<I: Copy>(
    forwarder: Forwarder<I>,
    bounds: DesktopBounds,
)
    requires
        call_ensures(Forwarder::<I>::new, (), forwarder),
        call_ensures(DesktopBounds::assumed, (), bounds),
    ensures
        forwarder.active_client is None,
        exists|x: int, y: int| #[trigger]
            forwarder.cursor.at(x, y) && 2 * x == bounds.min_x + bounds.max_x && 2 * y
                == bounds.min_y + bounds.max_y,
{
    assert(forwarder.cursor.at(960, 540));
}

/// Where a place falls on a screen: on the pixel that it is in, on the first one
/// where it is before the screen, and on the last one where it is behind. The
/// protocol has room for numbers up to 32767.
proof fn lemma_pixel_of_place(c: Coord, extent: u16, n: int)
    requires
        extent >= 1,
        0 <= n <= 0xFFFF,
    ensures
        Coord::of_int(n).at_most(c) && c.below(Coord::of_int(n + 1)) ==> on_screen(c, extent)
            == pixel(n, extent),
        c.at_most(Coord::of_int(0)) ==> on_screen(c, extent) == 0,
        Coord::of_int(extent - 1).at_most(c) ==> on_screen(c, extent) == pixel(0xFFFF, extent),
        c.nan() ==> on_screen(c, extent) == 0,
{
    let low = Coord::of_int(0);
    let high = Coord::of_int(extent - 1);
    let from = Coord::of_int(n);
    let to = Coord::of_int(n + 1);
    crate::coord::law_integers_have_coordinates(0);
    crate::coord::law_integers_have_coordinates(-1);
    crate::coord::law_integers_have_coordinates(1);
    crate::coord::law_integers_have_coordinates(extent - 1);
    crate::coord::law_integers_have_coordinates(extent as int);
    crate::coord::law_integers_have_coordinates(n);
    crate::coord::law_integers_have_coordinates(n + 1);
    crate::coord::law_integers_keep_their_order(low, 0, high, extent - 1);
    crate::coord::law_integers_keep_their_order(low, 0, from, n);
    crate::coord::law_integers_keep_their_order(to, n + 1, high, extent - 1);
    crate::coord::law_integers_keep_their_order(high, extent - 1, from, n);
    crate::coord::law_integers_keep_their_order(Coord::of_int(-1), -1, low, 0);
    crate::coord::law_integers_keep_their_order(low, 0, Coord::of_int(1), 1);
    crate::coord::law_integers_keep_their_order(
        high,
        extent - 1,
        Coord::of_int(extent as int),
        extent as int,
    );
    crate::coord::lemma_rounded_towards_zero(c, n);
    crate::coord::lemma_rounded_towards_zero(c, 0);
    crate::coord::lemma_rounded_towards_zero(low, 0);
    crate::coord::lemma_rounded_towards_zero(high, extent - 1);
    crate::coord::lemma_rounded_towards_zero(c, extent - 1);
}

/// The number that is sent for a pixel of a screen of that extent: its own, but not
/// beyond the last one, nor beyond what the protocol has room for.
pub open spec fn pixel(n: int, extent: u16) -> int {
    if n <= extent - 1 && n <= 32767 {
        n
    } else if extent - 1 <= 32767 {
        extent - 1
    } else {
        32767
    }
}

/// The cursor on a client's screen is on the pixel that it is in, horizontally and
/// vertically, and on the nearest one where it is beside the screen.
pub proof fn law_cursor_is_on_its_pixel(
    size: Size,
    cursor: Point,
    point: (i16, i16),
    x: int,
    y: int,
)
    requires
        call_ensures(client_point, (size, cursor), point),
        size.width >= 1,
        size.height >= 1,
        0 <= x <= 0xFFFF,
        0 <= y <= 0xFFFF,
    ensures
        Coord::of_int(x).at_most(cursor.x) && cursor.x.below(Coord::of_int(x + 1)) ==> point.0
            == pixel(x, size.width),
        Coord::of_int(y).at_most(cursor.y) && cursor.y.below(Coord::of_int(y + 1)) ==> point.1
            == pixel(y, size.height),
        cursor.x.at_most(Coord::of_int(0)) || cursor.x.nan() ==> point.0 == 0,
        cursor.y.at_most(Coord::of_int(0)) || cursor.y.nan() ==> point.1 == 0,
        Coord::of_int(size.width - 1).at_most(cursor.x) ==> point.0 == pixel(0xFFFF, size.width),
        Coord::of_int(size.height - 1).at_most(cursor.y) ==> point.1 == pixel(
            0xFFFF,
            size.height,
        ),
{
    lemma_pixel_of_place(cursor.x, size.width, x);
    lemma_pixel_of_place(cursor.y, size.height, y);
}

/// A client's screen is entered on the edge towards the desktop: the left one of a
/// client on the right, the right one of a client on the left, the lower one of a
/// client above and the upper one of a client below. Along that edge it is entered
/// on the pixel that the scaled place is in, or on the nearest one.
pub proof fn law_screens_are_entered_at_their_edge(
    position: Position,
    size: Size,
    scaled: Coord,
    point: (i16, i16),
    n: int,
)
    requires
        call_ensures(entry_point, (position, size, scaled), point),
        size.width >= 1,
        size.height >= 1,
        0 <= n <= 0xFFFF,
    ensures
        position == Position::RightOf ==> point.0 == 0,
        position == Position::LeftOf ==> point.0 == if size.width <= 0x8000 {
            size.width - 1
        } else {
            size.width - 1 - 0x1_0000
        },
        position == Position::TopOf ==> point.1 == if size.height <= 0x8000 {
            size.height - 1
        } else {
            size.height - 1 - 0x1_0000
        },
        position == Position::BottomOf ==> point.1 == 0,
        ({
            let (along, extent) = if position == Position::LeftOf || position
                == Position::RightOf {
                (point.1, size.height)
            } else {
                (point.0, size.width)
            };
            &&& Coord::of_int(n).at_most(scaled) && scaled.below(Coord::of_int(n + 1)) ==> along
                == pixel(n, extent)
            &&& scaled.at_most(Coord::of_int(0)) || scaled.nan() ==> along == 0
            &&& Coord::of_int(extent - 1).at_most(scaled) ==> along == pixel(0xFFFF, extent)
        }),
{
    lemma_pixel_of_place(scaled, size.width, n);
    lemma_pixel_of_place(scaled, size.height, n);
    let last_x = (size.width - 1) as u16;
    let last_y = (size.height - 1) as u16;
    assert(last_x < 0x8000 ==> last_x as i16 == last_x) by (bit_vector);
    assert(last_x >= 0x8000 ==> last_x as i16 == last_x - 0x1_0000) by (bit_vector);
    assert(last_y < 0x8000 ==> last_y as i16 == last_y) by (bit_vector);
    assert(last_y >= 0x8000 ==> last_y as i16 == last_y - 0x1_0000) by (bit_vector);
}

/// A screen can be entered exactly when it has a pixel along the edge, and where the
/// far edge is entered also one across it.
pub proof fn law_screens_with_pixels_can_be_entered(
    position: Position,
    size: Size,
    can_enter: bool,
)
    requires
        call_ensures(is_enterable, (position, size), can_enter),
    ensures
        can_enter == enterable(position, size),
        position == Position::RightOf ==> (can_enter <==> size.height > 0),
        position == Position::BottomOf ==> (can_enter <==> size.width > 0),
        position == Position::LeftOf || position == Position::TopOf ==> (can_enter <==> size.width
            > 0 && size.height > 0),
{
}

} // verus!
