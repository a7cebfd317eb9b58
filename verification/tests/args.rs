use schengen_server::args::{validate_positions, validate_references, Args};
use schengen_server::config::{ClientConfig, ClientMap, ConfigError, Position};
use schengen_server::text::split_at_colons;

fn accepting(entries: &[&str]) -> Args {
    Args {
        accept: entries.iter().map(|entry| entry.to_string()).collect(),
        port: 24801,
        verbose: 0,
    }
}

fn config(name: &str, position: Position, reference: &str) -> ClientConfig {
    ClientConfig { name: name.to_string(), position, reference: reference.to_string() }
}

fn error(entries: &[&str]) -> ConfigError {
    match accepting(entries).parse_client_config() {
        Ok(_) => panic!("the entries were accepted"),
        Err(error) => error,
    }
}

#[test]
fn test_log_level_mapping() {
    let args = Args { accept: vec![], port: 24801, verbose: 0 };
    assert_eq!(args.get_log_level(), log::LevelFilter::Warn);

    let args = Args { accept: vec![], port: 24801, verbose: 1 };
    assert_eq!(args.get_log_level(), log::LevelFilter::Info);

    let args = Args { accept: vec![], port: 24801, verbose: 2 };
    assert_eq!(args.get_log_level(), log::LevelFilter::Debug);

    let args = Args { accept: vec![], port: 24801, verbose: 3 };
    assert_eq!(args.get_log_level(), log::LevelFilter::Trace);
}

#[test]
fn test_parse_valid_client_config() {
    let args = Args {
        accept: vec!["laptop:leftof:self".to_string(), "desktop:topof:laptop".to_string()],
        port: 24801,
        verbose: 0,
    };

    let config = args.parse_client_config().unwrap();
    assert_eq!(config.len(), 2);
    assert!(config.contains_key("laptop"));
    assert!(config.contains_key("desktop"));

    let laptop = config.get("laptop").unwrap();
    assert_eq!(laptop.name, "laptop");
    assert_eq!(laptop.position, Position::LeftOf);
    assert_eq!(laptop.reference, "self");

    let desktop = config.get("desktop").unwrap();
    assert_eq!(desktop.name, "desktop");
    assert_eq!(desktop.position, Position::TopOf);
    assert_eq!(desktop.reference, "laptop");
}

#[test]
fn test_parse_invalid_format() {
    let args =
        Args { accept: vec!["laptop:leftof".to_string()], port: 24801, verbose: 0 };

    assert!(args.parse_client_config().is_err());
}

#[test]
fn test_parse_invalid_position() {
    let args =
        Args { accept: vec!["laptop:invalid:self".to_string()], port: 24801, verbose: 0 };

    assert!(args.parse_client_config().is_err());
}

#[test]
fn test_parse_reserved_name() {
    let args =
        Args { accept: vec!["self:leftof:laptop".to_string()], port: 24801, verbose: 0 };

    assert!(args.parse_client_config().is_err());
}

#[test]
fn test_parse_duplicate_name() {
    let args = Args {
        accept: vec!["laptop:leftof:self".to_string(), "laptop:rightof:self".to_string()],
        port: 24801,
        verbose: 0,
    };

    assert!(args.parse_client_config().is_err());
}

#[test]
fn test_parse_nonexistent_reference() {
    let args =
        Args { accept: vec!["laptop:leftof:nonexistent".to_string()], port: 24801, verbose: 0 };

    assert!(args.parse_client_config().is_err());
}

#[test]
fn test_parse_position_conflict() {
    let args = Args {
        accept: vec!["laptop:leftof:self".to_string(), "desktop:leftof:self".to_string()],
        port: 24801,
        verbose: 0,
    };

    assert!(args.parse_client_config().is_err());
}

#[test]
fn test_parse_no_conflict_different_reference() {
    let args = Args {
        accept: vec![
            "laptop:leftof:self".to_string(),
            "desktop:rightof:self".to_string(),
            "tablet:leftof:desktop".to_string(),
        ],
        port: 24801,
        verbose: 0,
    };

    let config = args.parse_client_config().unwrap();
    assert_eq!(config.len(), 3);
}

#[test]
fn any_higher_verbosity_is_trace() {
    let args = Args { accept: vec![], port: 24801, verbose: 255 };
    assert_eq!(args.get_log_level(), log::LevelFilter::Trace);
}

#[test]
fn no_entries_are_no_clients() {
    assert!(accepting(&[]).parse_client_config().unwrap().is_empty());
}

#[test]
fn fields_are_split_at_every_colon() {
    assert_eq!(split_at_colons("a:b:c"), vec!["a", "b", "c"]);
    assert_eq!(split_at_colons(""), vec![""]);
    assert_eq!(split_at_colons(":"), vec!["", ""]);
    assert_eq!(split_at_colons("a::b:"), vec!["a", "", "b", ""]);
    assert_eq!(split_at_colons("\u{e9}:\u{4e16}"), vec!["\u{e9}", "\u{4e16}"]);
    assert_eq!(split_at_colons("a::b:").join(":"), "a::b:");
}

#[test]
fn errors_tell_what_is_wrong_with_the_entry() {
    assert_eq!(error(&["laptop"]), ConfigError::InvalidFormat { entry: "laptop".to_string() });
    assert_eq!(
        error(&["laptop:leftof:self:more"]),
        ConfigError::InvalidFormat { entry: "laptop:leftof:self:more".to_string() }
    );
    assert_eq!(
        error(&["laptop:Inside:self"]),
        ConfigError::InvalidPosition { text: "Inside".to_string() }
    );
    // The position is looked at before the name.
    assert_eq!(
        error(&["self:inside:laptop"]),
        ConfigError::InvalidPosition { text: "inside".to_string() }
    );
    assert_eq!(error(&["self:leftof:laptop"]), ConfigError::ReservedName);
    assert_eq!(
        error(&["laptop:leftof:self", "laptop:rightof:self"]),
        ConfigError::DuplicateName { name: "laptop".to_string() }
    );
}

#[test]
fn first_bad_entry_is_reported() {
    assert_eq!(
        error(&["a:leftof:nowhere", "b:up:self", "c"]),
        ConfigError::InvalidPosition { text: "up".to_string() }
    );
}

#[test]
fn references_are_checked_before_places() {
    assert_eq!(
        error(&["a:leftof:self", "b:leftof:self", "c:topof:nowhere"]),
        ConfigError::UnknownReference {
            name: "c".to_string(),
            reference: "nowhere".to_string(),
        }
    );
    assert_eq!(
        error(&["a:leftof:self", "b:leftof:self"]),
        ConfigError::PositionConflict {
            first: "a".to_string(),
            second: "b".to_string(),
            position: Position::LeftOf,
            reference: "self".to_string(),
        }
    );
}

#[test]
fn clients_can_refer_to_later_ones_and_to_themselves() {
    let map = accepting(&["a:leftof:b", "b:rightof:self", "c:topof:c"])
        .parse_client_config()
        .unwrap();
    assert_eq!(map.len(), 3);
}

#[test]
fn positions_are_parsed_in_any_case() {
    let map = accepting(&["laptop:BottomOf:self"]).parse_client_config().unwrap();
    assert_eq!(map.get("laptop").unwrap().position, Position::BottomOf);
}

#[test]
fn maps_are_validated_on_their_own() {
    let mut map = ClientMap::new();
    assert_eq!(validate_references(&map), Ok(()));
    assert_eq!(validate_positions(&map), Ok(()));
    assert!(map.add(config("a", Position::LeftOf, "self")));
    assert!(map.add(config("b", Position::LeftOf, "c")));
    assert!(map.add(config("d", Position::LeftOf, "c")));
    assert_eq!(
        validate_references(&map),
        Err(ConfigError::UnknownReference {
            name: "b".to_string(),
            reference: "c".to_string(),
        })
    );
    assert_eq!(
        validate_positions(&map),
        Err(ConfigError::PositionConflict {
            first: "b".to_string(),
            second: "d".to_string(),
            position: Position::LeftOf,
            reference: "c".to_string(),
        })
    );
}
