use schengen::server::{Builder, ClientBuilder, Position as Side, ServerError};
use schengen_server::config::{ClientConfig, ClientMap, Position};
use schengen_server::layout::{arrange_clients, LayoutError};

fn clients(entries: &[(&str, Position, &str)]) -> ClientMap {
    let mut map = ClientMap::new();
    for (name, position, reference) in entries {
        let config = ClientConfig {
            name: name.to_string(),
            position: *position,
            reference: reference.to_string(),
        };
        assert!(map.add(config));
    }
    map
}

fn arranged(entries: &[(&str, Position, &str)]) -> Builder {
    match arrange_clients(24801, &clients(entries)) {
        Ok(builder) => builder,
        Err(error) => panic!("{}", error.message()),
    }
}

fn refused(entries: &[(&str, Position, &str)]) -> LayoutError {
    match arrange_clients(24801, &clients(entries)) {
        Ok(_) => panic!("the clients were arranged"),
        Err(error) => error,
    }
}

#[test]
fn no_clients_can_be_arranged() {
    arranged(&[]);
}

#[test]
fn client_is_on_its_side_of_the_server() {
    let builder = arranged(&[("laptop", Position::TopOf, "self")]);
    let other = ClientBuilder::new("other").position(Side::Above).build();
    match builder.add_client(other) {
        Err(ServerError::ServerPositionOccupied { position, existing_client }) => {
            assert_eq!(position, Side::Above);
            assert_eq!(existing_client, "laptop");
        }
        _ => panic!("the side above was free"),
    }
    let builder = arranged(&[("laptop", Position::TopOf, "self")]);
    assert!(builder.add_client(ClientBuilder::new("other").position(Side::Below).build()).is_ok());
}

#[test]
fn clients_are_chained_in_any_order() {
    let builder = arranged(&[
        ("far", Position::LeftOf, "middle"),
        ("middle", Position::LeftOf, "near"),
        ("near", Position::LeftOf, "self"),
        ("up", Position::TopOf, "far"),
    ]);
    let far = ClientBuilder::new("far").position(Side::Left).build();
    let other = ClientBuilder::new("other").position(Side::Above).relative_to(&far).build();
    match builder.add_client(other) {
        Err(ServerError::RelativePositionOccupied { position, relative_to, existing_client }) => {
            assert_eq!(position, Side::Above);
            assert_eq!(relative_to, "far");
            assert_eq!(existing_client, "up");
        }
        _ => panic!("the side above was free"),
    }
}

#[test]
fn circles_are_refused() {
    let error = refused(&[
        ("a", Position::LeftOf, "b"),
        ("b", Position::LeftOf, "a"),
        ("c", Position::LeftOf, "self"),
    ]);
    assert!(matches!(error, LayoutError::CircularReference));
    assert_eq!(
        error.message(),
        "Circular client reference detected or missing reference client"
    );
}

#[test]
fn client_beside_itself_is_refused() {
    assert!(matches!(
        refused(&[("a", Position::LeftOf, "a")]),
        LayoutError::CircularReference
    ));
}

#[test]
fn missing_references_are_refused() {
    assert!(matches!(
        refused(&[("a", Position::LeftOf, "nobody"), ("b", Position::TopOf, "self")]),
        LayoutError::CircularReference
    ));
}

#[test]
fn side_of_the_server_is_taken_once() {
    let error = refused(&[("a", Position::LeftOf, "self"), ("b", Position::LeftOf, "self")]);
    assert_eq!(error.message(), "Failed to add client 'b'");
    match error {
        LayoutError::AddClient {
            name,
            error: ServerError::ServerPositionOccupied { position, existing_client },
        } => {
            assert_eq!(name, "b");
            assert_eq!(position, Side::Left);
            assert_eq!(existing_client, "a");
        }
        _ => panic!("another error"),
    }
}

#[test]
fn side_of_a_client_is_taken_once() {
    match refused(&[
        ("a", Position::LeftOf, "self"),
        ("b", Position::BottomOf, "a"),
        ("c", Position::BottomOf, "a"),
    ]) {
        LayoutError::AddClient {
            name,
            error:
                ServerError::RelativePositionOccupied { position, relative_to, existing_client },
        } => {
            assert_eq!(name, "c");
            assert_eq!(position, Side::Below);
            assert_eq!(relative_to, "a");
            assert_eq!(existing_client, "b");
        }
        _ => panic!("another error"),
    }
}

#[test]
fn collision_is_found_before_a_circle() {
    assert!(matches!(
        refused(&[
            ("a", Position::LeftOf, "self"),
            ("b", Position::LeftOf, "self"),
            ("c", Position::LeftOf, "c"),
        ]),
        LayoutError::AddClient { .. }
    ));
}

#[test]
fn clients_that_are_cut_off_do_not_collide() {
    assert!(matches!(
        refused(&[("a", Position::LeftOf, "nobody"), ("b", Position::LeftOf, "nobody")]),
        LayoutError::CircularReference
    ));
}
