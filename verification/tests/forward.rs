use schengen_server::config::Position;
use schengen_server::coord::Coord;
use schengen_server::forward::{
    clamp_cursor_to_client, client_point, entry_point, find_connected, find_entry, is_enterable,
    Action, ConnectedClient, Forwarder, Message, Motion, NoEntry, WHEEL_STEP,
};
use schengen_server::portal::{DesktopBounds, Point, Size};
use schengen_server::server::Event;

const DESKTOP: DesktopBounds = DesktopBounds { min_x: 0, min_y: 0, max_x: 1920, max_y: 1080 };

fn coord(x: f64) -> Coord {
    Coord { bits: x.to_bits() }
}

fn point(x: f64, y: f64) -> Point {
    Point::new(coord(x), coord(y))
}

fn connected() -> Vec<ConnectedClient<u64>> {
    vec![
        ConnectedClient { id: 1, name: "laptop".to_string(), width: 800, height: 600 },
        ConnectedClient { id: 2, name: "desktop".to_string(), width: 2560, height: 1440 },
        ConnectedClient { id: 3, name: "laptop".to_string(), width: 1, height: 1 },
    ]
}

/// Enter a laptop of 800 by 600 to the right at (1920, 540).
fn enter(forwarder: &mut Forwarder<u64>, activation_id: u32) {
    let cursor = point(1920.0, 540.0);
    let entry =
        find_entry(&connected(), &DESKTOP, "laptop", Position::RightOf, cursor).unwrap();
    forwarder.entered(
        entry,
        "laptop".to_string(),
        Position::RightOf,
        activation_id,
        cursor,
        point(1920.0, 240.0),
        point(2719.0, 839.0),
    );
}

fn active() -> Forwarder<u64> {
    let mut forwarder = Forwarder::new();
    enter(&mut forwarder, 77);
    forwarder
}

fn released(request: &Event) -> (Option<u32>, Option<Point>) {
    match request {
        Event::ReleaseCapture { activation_id, cursor } => (*activation_id, *cursor),
        other => panic!("{:?}", other),
    }
}

#[test]
fn first_client_of_a_name_is_found() {
    assert_eq!(find_connected(&connected(), "laptop"), Some(0));
    assert_eq!(find_connected(&connected(), "desktop"), Some(1));
    assert_eq!(find_connected(&connected(), "tablet"), None);
}

#[test]
fn entry_is_scaled_along_the_barrier() {
    for position in [Position::RightOf, Position::LeftOf] {
        let entry =
            find_entry(&connected(), &DESKTOP, "laptop", position, point(1920.0, 540.0)).unwrap();
        assert_eq!(entry.client, 1);
        assert_eq!(entry.size, Size::new(800, 600));
        assert!(entry.coordinate == coord(540.0));
        assert_eq!(entry.desktop_extent, 1080);
        assert_eq!(entry.client_extent, 600);
    }
    for position in [Position::TopOf, Position::BottomOf] {
        let entry =
            find_entry(&connected(), &DESKTOP, "desktop", position, point(300.0, 0.0)).unwrap();
        assert_eq!(entry.client, 2);
        assert!(entry.coordinate == coord(300.0));
        assert_eq!(entry.desktop_extent, 1920);
        assert_eq!(entry.client_extent, 2560);
    }
}

#[test]
fn no_client_is_entered_that_is_not_connected() {
    let entry =
        find_entry(&connected(), &DESKTOP, "tablet", Position::LeftOf, point(0.0, 0.0));
    assert_eq!(entry.unwrap_err(), NoEntry::NotConnected);
}

#[test]
fn no_client_is_entered_from_an_empty_desktop() {
    let flat = DesktopBounds { min_x: 0, min_y: 5, max_x: 10, max_y: 5 };
    let entry = find_entry(&connected(), &flat, "laptop", Position::LeftOf, point(0.0, 0.0));
    assert_eq!(entry.unwrap_err(), NoEntry::InvalidDesktop { width: 10, height: 0 });
    let inverted = DesktopBounds { min_x: 3, min_y: 0, max_x: 1, max_y: 5 };
    let entry = find_entry(&connected(), &inverted, "laptop", Position::LeftOf, point(0.0, 0.0));
    assert_eq!(entry.unwrap_err(), NoEntry::InvalidDesktop { width: -2, height: 5 });
}

#[test]
fn client_is_entered_at_the_edge_towards_the_desktop() {
    let size = Size::new(800, 600);
    assert_eq!(entry_point(Position::RightOf, size, coord(300.7)), (0, 300));
    assert_eq!(entry_point(Position::LeftOf, size, coord(300.7)), (799, 300));
    assert_eq!(entry_point(Position::TopOf, size, coord(300.7)), (300, 599));
    assert_eq!(entry_point(Position::BottomOf, size, coord(300.7)), (300, 0));
}

#[test]
fn entry_stays_on_the_screen() {
    let size = Size::new(800, 600);
    assert_eq!(entry_point(Position::RightOf, size, coord(-5.0)), (0, 0));
    assert_eq!(entry_point(Position::RightOf, size, coord(600.0)), (0, 599));
    assert_eq!(entry_point(Position::BottomOf, size, coord(1.0e9)), (799, 0));
    assert_eq!(entry_point(Position::BottomOf, size, coord(f64::NAN)), (0, 0));
    // A screen without a width can be entered from the left.
    assert_eq!(entry_point(Position::RightOf, Size::new(0, 600), coord(7.0)), (0, 7));
    // Beyond the integers of 16 bits the far edge wraps, and the place along it does not.
    assert_eq!(
        entry_point(Position::LeftOf, Size::new(40000, 40000), coord(39999.0)),
        (39999u16 as i16, i16::MAX)
    );
}

#[test]
fn screens_without_extent_cannot_be_entered() {
    assert!(is_enterable(Position::RightOf, Size::new(0, 1)));
    assert!(!is_enterable(Position::RightOf, Size::new(1, 0)));
    assert!(is_enterable(Position::BottomOf, Size::new(1, 0)));
    assert!(!is_enterable(Position::BottomOf, Size::new(0, 1)));
    for position in [Position::LeftOf, Position::TopOf] {
        assert!(is_enterable(position, Size::new(1, 1)));
        assert!(!is_enterable(position, Size::new(0, 1)));
        assert!(!is_enterable(position, Size::new(1, 0)));
    }
}

#[test]
fn cursor_is_a_point_of_the_screen() {
    let size = Size::new(800, 600);
    assert_eq!(client_point(size, point(10.9, 20.1)), (10, 20));
    assert_eq!(client_point(size, point(-3.0, 700.0)), (0, 599));
    assert_eq!(client_point(Size::new(1, 1), point(9.0, 9.0)), (0, 0));
}

#[test]
fn cursor_is_held_except_where_it_entered() {
    let near = point(0.0, 0.0);
    let far = point(799.0, 599.0);
    let held = |position: Position, x: f64, y: f64| {
        clamp_cursor_to_client(point(x, y), position, near, far)
    };
    assert!(held(Position::RightOf, -10.0, 700.0) == point(-10.0, 599.0));
    assert!(held(Position::RightOf, 900.0, -1.0) == point(799.0, 0.0));
    assert!(held(Position::LeftOf, -10.0, 700.0) == point(0.0, 599.0));
    assert!(held(Position::LeftOf, 900.0, -1.0) == point(900.0, 0.0));
    assert!(held(Position::TopOf, -10.0, 700.0) == point(0.0, 700.0));
    assert!(held(Position::TopOf, 900.0, -1.0) == point(799.0, 0.0));
    assert!(held(Position::BottomOf, -10.0, 700.0) == point(0.0, 599.0));
    assert!(held(Position::BottomOf, 900.0, -1.0) == point(799.0, -1.0));
    assert!(held(Position::TopOf, 5.0, 6.0) == point(5.0, 6.0));
    assert!(held(Position::RightOf, f64::NAN, 6.0) == point(799.0, 6.0));
}

#[test]
fn cursor_starts_in_the_middle() {
    let forwarder: Forwarder<u64> = Forwarder::new();
    assert!(forwarder.active_client.is_none());
    assert!(forwarder.cursor == point(960.0, 540.0));
}

#[test]
fn without_a_client_input_is_discarded() {
    let mut forwarder: Forwarder<u64> = Forwarder::new();
    assert!(matches!(
        forwarder.handle_event(Event::Button { button: 1, is_press: true }),
        Action::Discard
    ));
    assert!(matches!(
        forwarder.handle_event(Event::Key { keysym: 1, is_press: true, mask: 0, button: 9 }),
        Action::Discard
    ));
    assert!(matches!(
        forwarder.handle_event(Event::Scroll { x: coord(0.0), y: coord(1.0) }),
        Action::Discard
    ));
    assert!(matches!(
        forwarder.handle_event(Event::ClientDisconnected { client_name: "laptop".to_string() }),
        Action::Discard
    ));
    assert!(matches!(forwarder.point_to(point(5000.0, 6.0), &DESKTOP), Motion::Discard));
    assert!(forwarder.cursor == point(5000.0, 6.0));
    assert!(forwarder.send_failed().is_none());
}

#[test]
fn activation_asks_to_enter() {
    let mut forwarder: Forwarder<u64> = Forwarder::new();
    let action = forwarder.handle_event(Event::Activated {
        client_name: "laptop".to_string(),
        client_position: Position::RightOf,
        activation_id: 5,
        cursor: point(1920.0, 3.0),
    });
    match action {
        Action::Enter { client_name, client_position, activation_id, cursor } => {
            assert_eq!(client_name, "laptop");
            assert_eq!(client_position, Position::RightOf);
            assert_eq!(activation_id, 5);
            assert!(cursor == point(1920.0, 3.0));
        }
        _ => panic!("another action"),
    }
    assert!(forwarder.active_client.is_none());
}

#[test]
fn pointer_events_ask_to_point() {
    let mut forwarder = active();
    match forwarder.handle_event(Event::PointerAbsolute { x: coord(3.0), y: coord(4.0) }) {
        Action::PointTo { cursor } => assert!(cursor == point(3.0, 4.0)),
        _ => panic!("another action"),
    }
    match forwarder.handle_event(Event::PointerRelative { dx: coord(3.0), dy: coord(4.0) }) {
        Action::Shift { from, dx, dy } => {
            assert!(from == point(1920.0, 540.0));
            assert!(Point::new(dx, dy) == point(3.0, 4.0));
        }
        _ => panic!("another action"),
    }
}

#[test]
fn buttons_and_keys_go_to_the_client() {
    let mut forwarder = active();
    let mut sent = |event: Event| match forwarder.handle_event(event) {
        Action::Send { message } => message,
        _ => panic!("another action"),
    };
    assert_eq!(
        sent(Event::Button { button: 0x103, is_press: true }),
        Message::ButtonDown { client: 1, button: 3 }
    );
    assert_eq!(
        sent(Event::Button { button: 2, is_press: false }),
        Message::ButtonUp { client: 1, button: 2 }
    );
    assert_eq!(
        sent(Event::Key { keysym: 0x1_EF08, is_press: true, mask: 1, button: 22 }),
        Message::KeyDown { client: 1, keysym: 0xEF08, mask: 1, button: 22 }
    );
    assert_eq!(
        sent(Event::Key { keysym: 0x61, is_press: false, mask: 0, button: 38 }),
        Message::KeyUp { client: 1, keysym: 0x61, mask: 0, button: 38 }
    );
}

#[test]
fn scrolling_goes_to_the_client() {
    let mut forwarder = active();
    match forwarder.handle_event(Event::Scroll { x: coord(0.5), y: coord(-1.0) }) {
        Action::Scroll { client, x, y } => {
            assert_eq!(client, 1);
            assert!(Point::new(x, y) == point(0.5, -1.0));
        }
        _ => panic!("another action"),
    }
    assert_eq!(coord(-1.0 * WHEEL_STEP as f64).to_i16(), -120);
    assert_eq!(coord(300.0 * WHEEL_STEP as f64).to_i16(), i16::MAX);
}

#[test]
fn pointer_moves_on_the_client() {
    let mut forwarder = active();
    match forwarder.point_to(point(2000.0, 900.0), &DESKTOP) {
        Motion::Move { client, size, coord_offset, cursor } => {
            assert_eq!(client, 1);
            assert_eq!(size, Size::new(800, 600));
            assert!(coord_offset == point(1920.0, 240.0));
            assert!(cursor == point(2000.0, 839.0));
        }
        other => panic!("{:?}", other),
    }
    assert!(forwarder.active_client.is_some());
    assert!(forwarder.cursor == point(2000.0, 839.0));
}

#[test]
fn pointer_comes_back_to_the_desktop() {
    let mut forwarder = active();
    match forwarder.point_to(point(1919.5, 541.0), &DESKTOP) {
        Motion::Leave { client, request } => {
            assert_eq!(client, 1);
            let (activation_id, cursor) = released(&request);
            assert_eq!(activation_id, Some(77));
            assert!(cursor == Some(point(1919.5, 541.0)));
        }
        other => panic!("{:?}", other),
    }
    assert!(forwarder.active_client.is_none());
    assert!(forwarder.cursor == point(0.0, 0.0));
}

#[test]
fn failure_to_send_releases_the_capture() {
    let mut forwarder = active();
    let request = forwarder.send_failed().unwrap();
    let (activation_id, cursor) = released(&request);
    assert_eq!(activation_id, Some(77));
    assert!(cursor.is_none());
    assert!(forwarder.active_client.is_none());
    assert!(forwarder.cursor == point(0.0, 0.0));
}

#[test]
fn client_that_is_gone_releases_the_capture() {
    let mut forwarder = active();
    assert!(matches!(
        forwarder.handle_event(Event::ClientDisconnected { client_name: "desktop".to_string() }),
        Action::Discard
    ));
    assert!(forwarder.active_client.is_some());
    match forwarder.handle_event(Event::ClientDisconnected { client_name: "laptop".to_string() }) {
        Action::Release { request } => {
            let (activation_id, cursor) = released(&request);
            assert_eq!(activation_id, Some(77));
            assert!(cursor.is_none());
        }
        _ => panic!("another action"),
    }
    assert!(forwarder.active_client.is_none());
    assert!(forwarder.cursor == point(0.0, 0.0));
}

#[test]
fn entered_client_is_the_one_of_the_entry() {
    let forwarder = active();
    let client = forwarder.active_client.unwrap();
    assert_eq!(client.id, 1);
    assert_eq!(client.name, "laptop");
    assert_eq!(client.position, Position::RightOf);
    assert_eq!(client.size, Size::new(800, 600));
    assert_eq!(client.activation_id, 77);
    assert!(client.coord_offset == point(1920.0, 240.0));
    assert!(client.far_corner == point(2719.0, 839.0));
    assert!(forwarder.cursor == point(1920.0, 540.0));
}

#[test]
fn no_activation_is_released_twice() {
    let mut forwarder: Forwarder<u64> = Forwarder::new();
    assert!(forwarder.send_failed().is_none());
    enter(&mut forwarder, 5);
    enter(&mut forwarder, 6);
    assert_eq!(released(&forwarder.send_failed().unwrap()).0, Some(6));
    assert!(forwarder.send_failed().is_none());
    assert!(matches!(forwarder.point_to(point(3.0, 4.0), &DESKTOP), Motion::Discard));
    enter(&mut forwarder, 7);
    match forwarder.point_to(point(3.0, 540.0), &DESKTOP) {
        Motion::Leave { request, .. } => assert_eq!(released(&request).0, Some(7)),
        other => panic!("{:?}", other),
    }
    assert!(matches!(
        forwarder.handle_event(Event::ClientDisconnected { client_name: "laptop".to_string() }),
        Action::Discard
    ));
}

#[test]
fn requests_to_the_portal_are_unexpected_here() {
    let mut forwarder = active();
    for event in [
        Event::EnableCapture,
        Event::DisableCapture,
        Event::ReleaseCapture { activation_id: None, cursor: None },
    ] {
        assert!(matches!(forwarder.handle_event(event), Action::Unexpected));
    }
    assert!(forwarder.active_client.is_some());
}

#[test]
fn pointer_cannot_be_held_between_ends_out_of_order() {
    let mut forwarder = active();
    assert!(forwarder.holds_pointer());
    if let Some(client) = &mut forwarder.active_client {
        client.far_corner = point(2719.0, f64::NAN);
    }
    assert!(!forwarder.holds_pointer());
    if let Some(client) = &mut forwarder.active_client {
        client.position = Position::TopOf;
    }
    assert!(forwarder.holds_pointer());
    let idle: Forwarder<u64> = Forwarder::new();
    assert!(idle.holds_pointer());
}
