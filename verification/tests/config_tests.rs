use opening_repertoire::color::Color;
use opening_repertoire::config::{Config, ConfigError, OutputType};
use opening_repertoire::san::starting_moves_from_str;

fn full(
    path: Option<&str>,
    moves: Option<&str>,
    color: Option<&str>,
    max_moves: Option<&str>,
    depth: Option<&str>,
    output: Option<&str>,
) -> Result<Config, ConfigError> {
    Config::new(path, moves, color, max_moves, depth, output, false)
}

#[test]
fn config_accepts_complete_valid_input() {
    let c = full(
        Some("games.pgn"),
        Some("e4,c5"),
        Some("white"),
        Some("10"),
        Some("8"),
        Some("pgn"),
    )
    .unwrap();
    assert_eq!(c.pgn_path, "games.pgn");
    assert_eq!(c.starting_moves, vec!["e4", "c5"]);
    assert_eq!(c.color, Color::White);
    assert_eq!(c.max_moves, 10);
    assert_eq!(c.inode_max_depth, 8);
    assert!(matches!(c.output_type, OutputType::Pgn));
    assert!(c.prune);
}

#[test]
fn config_without_starting_moves_gets_an_empty_filter() {
    let c = full(Some("x.pgn"), None, Some("black"), Some("3"), Some("2"), Some("tree")).unwrap();
    assert!(c.starting_moves.is_empty());
    assert_eq!(c.color, Color::Black);
    assert!(matches!(c.output_type, OutputType::Tree));
}

#[test]
fn disable_pruning_turns_prune_off() {
    let c = Config::new(
        Some("x.pgn"),
        None,
        Some("white"),
        Some("1"),
        Some("1"),
        Some("json"),
        true,
    )
    .unwrap();
    assert!(!c.prune);
    assert!(matches!(c.output_type, OutputType::Json));
}

#[test]
fn config_rejects_each_invalid_input_in_order() {
    assert!(matches!(
        full(None, None, Some("white"), Some("1"), Some("1"), Some("pgn")),
        Err(ConfigError::InvalidPath)
    ));
    assert!(matches!(
        full(Some("x"), Some("e4,zz99"), Some("white"), Some("1"), Some("1"), Some("pgn")),
        Err(ConfigError::InvalidStartingMoves)
    ));
    assert!(matches!(
        full(Some("x"), None, Some("green"), Some("1"), Some("1"), Some("pgn")),
        Err(ConfigError::InvalidColor)
    ));
    assert!(matches!(
        full(Some("x"), None, None, Some("1"), Some("1"), Some("pgn")),
        Err(ConfigError::InvalidColor)
    ));
    assert!(matches!(
        full(Some("x"), None, Some("white"), Some("ten"), Some("1"), Some("pgn")),
        Err(ConfigError::InvalidMaxMoves)
    ));
    assert!(matches!(
        full(Some("x"), None, Some("white"), Some("1"), Some("-1"), Some("pgn")),
        Err(ConfigError::InvalidInodeMaxDepth)
    ));
    assert!(matches!(
        full(Some("x"), None, Some("white"), Some("1"), Some("1"), Some("yaml")),
        Err(ConfigError::InvalidOutputType)
    ));
    assert!(matches!(
        full(Some("x"), None, Some("white"), Some("1"), Some("1"), None),
        Err(ConfigError::InvalidOutputType)
    ));
}

#[test]
fn config_rejects_numbers_a_usize_cannot_hold() {
    assert!(matches!(
        full( Some("x"), None, Some("white"), Some("99999999999999999999999999"), Some("1"), Some("pgn"), ),
        Err(ConfigError::InvalidMaxMoves)
    ));
    assert!(matches!(
        full(Some("x"), None, Some("white"), Some(""), Some("1"), Some("pgn")),
        Err(ConfigError::InvalidMaxMoves)
    ));
    // A leading plus sign is accepted, the way std parses unsigned numbers.
    let c = full(Some("x"), None, Some("white"), Some("+7"), Some("1"), Some("pgn")).unwrap();
    assert_eq!(c.max_moves, 7);
}

#[test]
fn starting_moves_split_on_commas_and_validate_san() {
    let moves = starting_moves_from_str("e4,c5,Nf3").unwrap();
    assert_eq!(moves, vec!["e4", "c5", "Nf3"]);
    // An invalid token anywhere rejects the list: were the parser skipped,
    // the raw text would simply come back.
    assert!(starting_moves_from_str("e4,not a move").is_none());
    assert!(starting_moves_from_str("").is_none());
    assert!(starting_moves_from_str("e4,,c5").is_none());
}
