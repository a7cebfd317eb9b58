use schengen_server::config::{ClientConfig, ClientMap, ConfigError, Position};

fn config(name: &str, position: Position, reference: &str) -> ClientConfig {
    ClientConfig { name: name.to_string(), position, reference: reference.to_string() }
}

#[test]
fn test_position_from_str_valid() {
    assert_eq!(Position::from_str("leftof").unwrap(), Position::LeftOf);
    assert_eq!(Position::from_str("rightof").unwrap(), Position::RightOf);
    assert_eq!(Position::from_str("topof").unwrap(), Position::TopOf);
    assert_eq!(Position::from_str("bottomof").unwrap(), Position::BottomOf);
}

#[test]
fn test_position_from_str_case_insensitive() {
    assert_eq!(Position::from_str("LeftOf").unwrap(), Position::LeftOf);
    assert_eq!(Position::from_str("RIGHTOF").unwrap(), Position::RightOf);
    assert_eq!(Position::from_str("TopOf").unwrap(), Position::TopOf);
    assert_eq!(Position::from_str("BOTTOMOF").unwrap(), Position::BottomOf);
}

#[test]
fn test_position_from_str_invalid() {
    assert!(Position::from_str("invalid").is_err());
    assert!(Position::from_str("left").is_err());
    assert!(Position::from_str("").is_err());
}

#[test]
fn test_position_to_schengen() {
    assert_eq!(Position::LeftOf.to_schengen(), schengen::server::Position::Left);
    assert_eq!(Position::RightOf.to_schengen(), schengen::server::Position::Right);
    assert_eq!(Position::TopOf.to_schengen(), schengen::server::Position::Above);
    assert_eq!(Position::BottomOf.to_schengen(), schengen::server::Position::Below);
}

#[test]
fn invalid_position_keeps_the_text_as_given() {
    assert_eq!(Position::from_str("LeFt").unwrap_err().text, "LeFt");
}

#[test]
fn positions_are_lowercased_beyond_ascii() {
    // The Kelvin sign is lowercased to a plain k, which no position has.
    assert!(Position::from_str("\u{212A}").is_err());
    // A capital I with a dot is lowercased to two characters.
    assert!(Position::from_str("R\u{130}GHTOF").is_err());
}

#[test]
fn words_are_matched_exactly() {
    assert_eq!(Position::from_word("topof"), Some(Position::TopOf));
    assert_eq!(Position::from_word("TopOf"), None);
    assert_eq!(Position::from_word("topof "), None);
}

#[test]
fn map_holds_one_config_for_each_name() {
    let mut map = ClientMap::new();
    assert!(map.is_empty());
    assert!(map.add(config("laptop", Position::LeftOf, "self")));
    assert!(!map.add(config("laptop", Position::RightOf, "self")));
    assert!(map.add(config("desktop", Position::TopOf, "laptop")));
    assert_eq!(map.len(), 2);
    assert!(!map.is_empty());
    assert!(map.contains_key("desktop"));
    assert!(!map.contains_key("tablet"));
    assert_eq!(map.get("laptop"), Some(&config("laptop", Position::LeftOf, "self")));
    assert_eq!(map.get("tablet"), None);
    assert_eq!(
        map.values(),
        &vec![
            config("laptop", Position::LeftOf, "self"),
            config("desktop", Position::TopOf, "laptop"),
        ]
    );
}

#[test]
fn only_self_is_beside_the_server() {
    assert!(config("laptop", Position::LeftOf, "self").is_beside_server());
    assert!(!config("laptop", Position::LeftOf, "Self").is_beside_server());
    assert!(!config("laptop", Position::LeftOf, "desktop").is_beside_server());
}

#[test]
fn messages_name_what_is_wrong() {
    assert_eq!(
        ConfigError::InvalidFormat { entry: "laptop".to_string() }.message(),
        "Invalid --accept format 'laptop'. Expected format: name:position:reference"
    );
    assert_eq!(
        ConfigError::InvalidPosition { text: "left".to_string() }.message(),
        "Invalid position 'left'. Must be one of: leftof, rightof, topof, bottomof"
    );
    assert_eq!(
        ConfigError::ReservedName.message(),
        "Client name 'self' is reserved for the server"
    );
    assert_eq!(
        ConfigError::DuplicateName { name: "laptop".to_string() }.message(),
        "Duplicate client name: laptop"
    );
    assert_eq!(
        ConfigError::UnknownReference {
            name: "laptop".to_string(),
            reference: "desktop".to_string(),
        }
        .message(),
        "Client 'laptop' references non-existent client 'desktop'"
    );
    assert_eq!(
        ConfigError::PositionConflict {
            first: "laptop".to_string(),
            second: "desktop".to_string(),
            position: Position::LeftOf,
            reference: "self".to_string(),
        }
        .message(),
        "Position conflict: Both 'laptop' and 'desktop' claim to be LeftOf of 'self'"
    );
}

#[test]
fn conflict_messages_name_every_position() {
    let message = |position: Position| {
        ConfigError::PositionConflict {
            first: "a".to_string(),
            second: "b".to_string(),
            position,
            reference: "c".to_string(),
        }
        .message()
    };
    assert!(message(Position::RightOf).contains("RightOf of 'c'"));
    assert!(message(Position::TopOf).contains("TopOf of 'c'"));
    assert!(message(Position::BottomOf).contains("BottomOf of 'c'"));
}
