use schengen_server::config::{ClientConfig, Position};
use schengen_server::coord::Coord;
use schengen_server::ei::{EiContext, EiEvent};
use schengen_server::portal::{
    bounding_box, handle_activated_event, handle_ei_events, setup_barriers, ActivatedBarrier,
    Barrier, DesktopBounds, IgnoredActivation, Point, PortalCommand, PortalState, Size, Zone,
};
use schengen_server::server::Event;
use std::collections::HashMap;

fn point(x: f64, y: f64) -> Point {
    Point::new(Coord { bits: x.to_bits() }, Coord { bits: y.to_bits() })
}

fn zone(x: i32, y: i32, width: u32, height: u32) -> Zone {
    Zone { x, y, width, height }
}

fn config(name: &str, position: Position, reference: &str) -> ClientConfig {
    ClientConfig { name: name.to_string(), position, reference: reference.to_string() }
}

const FULL_HD: DesktopBounds = DesktopBounds { min_x: 0, min_y: 0, max_x: 1920, max_y: 1080 };

#[test]
fn points_are_compared_by_number() {
    assert!(point(1.0, 2.0) == point(1.0, 2.0));
    assert!(point(0.0, 2.0) == point(-0.0, 2.0));
    assert!(point(1.0, 2.0) != point(1.0, 2.5));
    assert!(point(f64::NAN, 2.0) != point(f64::NAN, 2.0));
    assert!(Point::from_i32(-3, 4) == point(-3.0, 4.0));
}

#[test]
fn sizes_hold_what_they_are_given() {
    let size = Size::new(1366, 768);
    assert_eq!(size.width, 1366);
    assert_eq!(size.height, 768);
}

#[test]
fn bounds_hold_their_lower_but_not_their_upper_edge() {
    assert_eq!(DesktopBounds::assumed(), FULL_HD);
    assert!(FULL_HD.contains(point(0.0, 0.0)));
    assert!(FULL_HD.contains(point(-0.0, 0.0)));
    assert!(FULL_HD.contains(point(1919.999, 1079.999)));
    assert!(!FULL_HD.contains(point(1920.0, 5.0)));
    assert!(!FULL_HD.contains(point(5.0, 1080.0)));
    assert!(!FULL_HD.contains(point(-0.001, 5.0)));
    assert!(!FULL_HD.contains(point(5.0, -1.0)));
    assert!(!FULL_HD.contains(point(f64::NAN, 5.0)));
    let moved = DesktopBounds { min_x: -100, min_y: -50, max_x: -10, max_y: -5 };
    assert!(moved.contains(point(-100.0, -50.0)));
    assert!(!moved.contains(point(-10.0, -50.0)));
}

#[test]
fn bounds_have_a_width_and_a_height() {
    assert!(FULL_HD.is_measurable());
    assert_eq!(FULL_HD.width(), 1920);
    assert_eq!(FULL_HD.height(), 1080);
    let far = DesktopBounds { min_x: i32::MIN, min_y: 0, max_x: 1, max_y: 1 };
    assert!(!far.is_measurable());
    let inverted = DesktopBounds { min_x: 5, min_y: 7, max_x: 3, max_y: 3 };
    assert_eq!(inverted.width(), -2);
    assert_eq!(inverted.height(), -4);
}

#[test]
fn bounding_box_covers_all_zones() {
    let zones = vec![zone(0, 0, 1920, 1080), zone(1920, -200, 1280, 1024), zone(-640, 100, 640, 480)];
    assert_eq!(
        bounding_box(&zones),
        DesktopBounds { min_x: -640, min_y: -200, max_x: 3200, max_y: 1080 }
    );
}

#[test]
fn bounding_box_of_no_zones_is_inside_out() {
    assert_eq!(
        bounding_box(&vec![]),
        DesktopBounds { min_x: i32::MAX, min_y: i32::MAX, max_x: i32::MIN, max_y: i32::MIN }
    );
}

#[test]
fn zones_beyond_the_integers_are_told() {
    assert!(zone(0, 0, 1920, 1080).is_bounded());
    assert!(zone(i32::MAX - 10, 0, 10, 1).is_bounded());
    assert!(!zone(i32::MAX - 10, 0, 11, 1).is_bounded());
    assert!(!zone(0, 1, 1, i32::MAX as u32).is_bounded());
    assert!(!zone(0, 0, u32::MAX, 1).is_bounded());
    // A wide zone that begins far to the left ends where it should.
    let wide = zone(i32::MIN, 0, u32::MAX, 1);
    assert!(wide.is_bounded());
    assert_eq!(wide.zone_bounds().max_x, i32::MAX);
    assert_eq!(bounding_box(&vec![wide]).max_x, i32::MAX);
}

#[test]
fn every_zone_has_a_barrier_for_every_adjacent_client() {
    let configs = vec![
        config("right", Position::RightOf, "self"),
        config("beyond", Position::RightOf, "right"),
        config("top", Position::TopOf, "self"),
    ];
    let zones = vec![zone(0, 0, 1920, 1080), zone(1920, 100, 1280, 800)];
    let setup = setup_barriers(&zones, &configs);
    assert_eq!(setup.bounds, DesktopBounds { min_x: 0, min_y: 0, max_x: 3200, max_y: 1080 });
    assert_eq!(
        setup.barriers,
        vec![
            Barrier { id: 1, x1: 1920, y1: 0, x2: 1920, y2: 1080 },
            Barrier { id: 2, x1: 3200, y1: 100, x2: 3200, y2: 900 },
            Barrier { id: 3, x1: 0, y1: 0, x2: 1920, y2: 0 },
            Barrier { id: 4, x1: 1920, y1: 100, x2: 3200, y2: 100 },
        ]
    );
    assert_eq!(setup.clients.len(), 4);
    for id in [1, 2] {
        assert_eq!(setup.clients[&id], ("right".to_string(), Position::RightOf));
    }
    for id in [3, 4] {
        assert_eq!(setup.clients[&id], ("top".to_string(), Position::TopOf));
    }
}

#[test]
fn no_zones_have_no_barriers() {
    let setup = setup_barriers(&vec![], &vec![config("left", Position::LeftOf, "self")]);
    assert!(setup.barriers.is_empty());
    assert!(setup.clients.is_empty());
}

#[test]
fn barriers_are_set_on_the_edges_for_adjacent_clients() {
    let configs = vec![
        config("left", Position::LeftOf, "self"),
        config("beyond", Position::LeftOf, "left"),
        config("right", Position::RightOf, "self"),
        config("top", Position::TopOf, "self"),
        config("bottom", Position::BottomOf, "self"),
    ];
    let setup = setup_barriers(&vec![zone(10, 20, 100, 50)], &configs);
    assert_eq!(setup.bounds, DesktopBounds { min_x: 10, min_y: 20, max_x: 110, max_y: 70 });
    assert_eq!(
        setup.barriers,
        vec![
            Barrier { id: 1, x1: 10, y1: 20, x2: 10, y2: 70 },
            Barrier { id: 2, x1: 110, y1: 20, x2: 110, y2: 70 },
            Barrier { id: 3, x1: 10, y1: 20, x2: 110, y2: 20 },
            Barrier { id: 4, x1: 10, y1: 70, x2: 110, y2: 70 },
        ]
    );
    assert_eq!(setup.clients.len(), 4);
    assert_eq!(setup.clients[&1], ("left".to_string(), Position::LeftOf));
    assert_eq!(setup.clients[&2], ("right".to_string(), Position::RightOf));
    assert_eq!(setup.clients[&3], ("top".to_string(), Position::TopOf));
    assert_eq!(setup.clients[&4], ("bottom".to_string(), Position::BottomOf));
}

#[test]
fn no_adjacent_clients_need_no_barriers() {
    let setup = setup_barriers(&vec![zone(0, 0, 1, 1)], &vec![config("a", Position::LeftOf, "b")]);
    assert!(setup.barriers.is_empty());
    assert!(setup.clients.is_empty());
}

fn one_client() -> HashMap<u32, (String, Position)> {
    let mut clients = HashMap::new();
    clients.insert(7, ("laptop".to_string(), Position::TopOf));
    clients
}

#[test]
fn activation_names_the_client_behind_the_barrier() {
    let handled = handle_activated_event(
        Some(42),
        Some(ActivatedBarrier::Barrier(7)),
        Some(point(12.5, 0.0)),
        &one_client(),
    );
    match handled {
        Ok(Event::Activated { client_name, client_position, activation_id, cursor }) => {
            assert_eq!(client_name, "laptop");
            assert_eq!(client_position, Position::TopOf);
            assert_eq!(activation_id, 42);
            assert!(cursor == point(12.5, 0.0));
        }
        other => panic!("{:?}", other),
    }
}

#[test]
fn activation_without_cursor_is_at_the_origin() {
    let handled =
        handle_activated_event(Some(1), Some(ActivatedBarrier::Barrier(7)), None, &one_client());
    match handled {
        Ok(Event::Activated { cursor, .. }) => assert!(cursor == point(0.0, 0.0)),
        other => panic!("{:?}", other),
    }
}

#[test]
fn incomplete_activations_are_ignored() {
    let barrier = Some(ActivatedBarrier::Barrier(7));
    let reason = |id: Option<u32>, barrier: Option<ActivatedBarrier>| {
        handle_activated_event(id, barrier, None, &one_client()).unwrap_err()
    };
    assert_eq!(reason(None, barrier), IgnoredActivation::NoActivationId);
    assert_eq!(reason(None, None), IgnoredActivation::NoActivationId);
    assert_eq!(reason(Some(1), None), IgnoredActivation::NoBarrier);
    assert_eq!(
        reason(Some(1), Some(ActivatedBarrier::UnknownBarrier)),
        IgnoredActivation::UnknownBarrier
    );
    assert_eq!(
        reason(Some(1), Some(ActivatedBarrier::Barrier(8))),
        IgnoredActivation::NoClient { barrier_id: 8 }
    );
}

fn state(is_enabled: bool, poll_eis: bool) -> PortalState {
    PortalState { is_enabled, poll_eis }
}

#[test]
fn input_is_read_from_a_forwarded_activation_until_it_ends() {
    let mut portal = PortalState::new();
    assert_eq!(portal, state(false, false));
    portal.activated(false);
    assert_eq!(portal, state(false, false));
    portal.activated(true);
    assert_eq!(portal, state(false, true));
    portal.activated(false);
    assert_eq!(portal, state(false, true));
    portal.deactivated();
    assert_eq!(portal, state(false, false));
    let mut portal = state(true, true);
    portal.disabled();
    assert_eq!(portal, state(false, false));
    let mut portal = state(true, true);
    portal.deactivated();
    assert_eq!(portal, state(true, false));
}

#[test]
fn requests_to_enable_and_disable_are_met_once() {
    let mut portal = PortalState::new();
    assert!(matches!(portal.handle_server_event(&Event::DisableCapture), PortalCommand::Redundant));
    let command = portal.handle_server_event(&Event::EnableCapture);
    assert!(matches!(command, PortalCommand::Enable));
    portal.command_done(command, false);
    assert_eq!(portal, state(false, false));
    portal.command_done(command, true);
    assert_eq!(portal, state(true, false));
    let command = portal.handle_server_event(&Event::EnableCapture);
    assert!(matches!(command, PortalCommand::Redundant));
    portal.command_done(command, true);
    assert_eq!(portal, state(true, false));
    let command = portal.handle_server_event(&Event::DisableCapture);
    assert!(matches!(command, PortalCommand::Disable));
    portal.command_done(command, false);
    assert_eq!(portal, state(true, false));
    portal.command_done(command, true);
    assert_eq!(portal, state(false, false));
}

#[test]
fn release_ends_reading_whether_it_succeeds_or_not() {
    for succeeded in [true, false] {
        let mut portal = state(true, true);
        let request =
            Event::ReleaseCapture { activation_id: Some(3), cursor: Some(point(1.0, 2.0)) };
        let command = portal.handle_server_event(&request);
        match command {
            PortalCommand::Release { activation_id, cursor } => {
                assert_eq!(activation_id, Some(3));
                assert!(cursor == Some(point(1.0, 2.0)));
            }
            other => panic!("{:?}", other),
        }
        portal.command_done(command, succeeded);
        assert_eq!(portal, state(true, false));
    }
}

#[test]
fn other_events_are_unexpected_at_the_portal() {
    let mut portal = state(true, true);
    let command =
        portal.handle_server_event(&Event::ClientDisconnected { client_name: "a".to_string() });
    assert!(matches!(command, PortalCommand::Unexpected));
    portal.command_done(command, true);
    assert_eq!(portal, state(true, true));
}

#[test]
fn input_events_are_drained_in_order() {
    let mut context = EiContext::new();
    context.handle_event(EiEvent::MotionAbsolute { x: Coord::from_i32(1), y: Coord::from_i32(2) });
    context.handle_event(EiEvent::MotionRelative { x: Coord::from_i32(3), y: Coord::from_i32(4) });
    context.handle_event(EiEvent::Button { button: 0x111, is_press: true });
    context.handle_event(EiEvent::Key { key: 30, is_press: false });
    context.handle_event(EiEvent::Scroll { x: Coord::from_i32(0), y: Coord::from_i32(-1) });
    let events = handle_ei_events(&mut context);
    assert_eq!(events.len(), 5);
    match &events[0] {
        Event::PointerAbsolute { x, y } => {
            assert!(Point::new(*x, *y) == point(1.0, 2.0));
        }
        other => panic!("{:?}", other),
    }
    match &events[1] {
        Event::PointerRelative { dx, dy } => {
            assert!(Point::new(*dx, *dy) == point(3.0, 4.0));
        }
        other => panic!("{:?}", other),
    }
    assert!(matches!(events[2], Event::Button { button: 3, is_press: true }));
    assert!(matches!(
        events[3],
        Event::Key { keysym: 30, is_press: false, mask: 0, button: 30 }
    ));
    match &events[4] {
        Event::Scroll { x, y } => {
            assert!(Point::new(*x, *y) == point(0.0, -1.0));
        }
        other => panic!("{:?}", other),
    }
    assert!(handle_ei_events(&mut context).is_empty());
}
