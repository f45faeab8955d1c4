//! The configuration surface of the pipeline, built from plain option
//! values and validated here; argument extraction itself stays outside the
//! library.

use vstd::prelude::*;

use vstd::string::StringExecFns;

use crate::color::Color;
use crate::san::{all_pieces_parse, spec_parsed_moves, starting_moves_from_str};
use crate::text::{dec_digits_part, dec_val, parse_usize, str_eq, valid_usize_str};

verus! {

/// Which of the three encodings (with the JSON one in two variants) the
/// pipeline emits.
pub enum OutputType {
    Pgn,
    Json,
    JsonPretty,
    Tree,
}

/// Everything the pipeline needs: where the games come from, an optional
/// opening filter, the repertoire side, the ply budget, the depth budget
/// for internal-node path endpoints, the encoding, and whether to prune.
pub struct Config {
    pub pgn_path: String,
    pub starting_moves: Vec<String>,
    pub color: Color,
    pub max_moves: usize,
    pub inode_max_depth: usize,
    pub output_type: OutputType,
    pub prune: bool,
}

/// Why a configuration was rejected; each value mirrors the first input,
/// in validation order, that was missing or malformed.
#[derive(Clone, Copy, PartialEq, Eq, Structural, Debug)]
pub enum ConfigError {
    InvalidPath,
    InvalidStartingMoves,
    InvalidColor,
    InvalidMaxMoves,
    InvalidInodeMaxDepth,
    InvalidOutputType,
}

/// The repertoire side named by a configuration string.
pub open spec fn spec_parse_color(s: Seq<char>) -> Option<Color> {
    if s == "white"@ {
        Some(Color::White)
    } else if s == "black"@ {
        Some(Color::Black)
    } else {
        None
    }
}

/// The output encoding named by a configuration string.
pub open spec fn spec_parse_output_type(s: Seq<char>) -> Option<OutputType> {
    if s == "pgn"@ {
        Some(OutputType::Pgn)
    } else if s == "json"@ {
        Some(OutputType::Json)
    } else if s == "json-pretty"@ {
        Some(OutputType::JsonPretty)
    } else if s == "tree"@ {
        Some(OutputType::Tree)
    } else {
        None
    }
}

/// Whether the starting-moves option is acceptable: absent, or a
/// comma-separated list of valid SAN tokens.
pub open spec fn spec_moves_ok(starting_moves: Option<&str>) -> bool {
    match starting_moves {
        None => true,
        Some(s) => all_pieces_parse(s@),
    }
}

/// Whether an optional string holds a value accepted by `parse`.
pub open spec fn spec_color_ok(color: Option<&str>) -> bool {
    match color {
        None => false,
        Some(s) => spec_parse_color(s@) is Some,
    }
}

/// Whether an optional string holds a decimal number a `usize` can hold.
pub open spec fn spec_num_ok(v: Option<&str>) -> bool {
    match v {
        None => false,
        Some(s) => valid_usize_str(s@),
    }
}

/// Whether an optional string names an output encoding.
pub open spec fn spec_output_ok(v: Option<&str>) -> bool {
    match v {
        None => false,
        Some(s) => spec_parse_output_type(s@) is Some,
    }
}

impl Config {
    /// Validates the raw option values in the same order the original
    /// command line was checked: path, starting moves, color, move
    /// budget, depth budget, output type. The first failure names the
    /// offending input; on success every field holds the parsed value,
    /// and pruning is on unless explicitly disabled.
    pub fn new(
        path: Option<&str>,
        starting_moves: Option<&str>,
        color: Option<&str>,
        max_moves: Option<&str>,
        inode_max_depth: Option<&str>,
        output_type: Option<&str>,
        disable_pruning: bool,
    ) -> (r: Result<Config, ConfigError>)
        ensures
            path is None ==> r == Err::<Config, ConfigError>(ConfigError::InvalidPath),
            path is Some && !spec_moves_ok(starting_moves) ==> r == Err::<Config, ConfigError>(
                ConfigError::InvalidStartingMoves,
            ),
            path is Some && spec_moves_ok(starting_moves) && !spec_color_ok(color) ==> r == Err::<
                Config,
                ConfigError,
            >(ConfigError::InvalidColor),
            path is Some && spec_moves_ok(starting_moves) && spec_color_ok(color) && !spec_num_ok(
                max_moves,
            ) ==> r == Err::<Config, ConfigError>(ConfigError::InvalidMaxMoves),
            path is Some && spec_moves_ok(starting_moves) && spec_color_ok(color) && spec_num_ok(
                max_moves,
            ) && !spec_num_ok(inode_max_depth) ==> r == Err::<Config, ConfigError>(
                ConfigError::InvalidInodeMaxDepth,
            ),
            path is Some && spec_moves_ok(starting_moves) && spec_color_ok(color) && spec_num_ok(
                max_moves,
            ) && spec_num_ok(inode_max_depth) && !spec_output_ok(output_type) ==> r == Err::<
                Config,
                ConfigError,
            >(ConfigError::InvalidOutputType),
            r is Ok <==> (path is Some && spec_moves_ok(starting_moves) && spec_color_ok(color)
                && spec_num_ok(max_moves) && spec_num_ok(inode_max_depth) && spec_output_ok(
                output_type,
            )),
            r is Ok ==> {
                let c = r.unwrap();
                &&& c.pgn_path@ == path.unwrap()@
                &&& c.starting_moves.deep_view() == (match starting_moves {
                    Some(s) => spec_parsed_moves(s@),
                    None => Seq::<Seq<char>>::empty(),
                })
                &&& c.color == spec_parse_color(color.unwrap()@).unwrap()
                &&& c.max_moves == dec_val(dec_digits_part(max_moves.unwrap()@))
                &&& c.inode_max_depth == dec_val(dec_digits_part(inode_max_depth.unwrap()@))
                &&& c.output_type == spec_parse_output_type(output_type.unwrap()@).unwrap()
                &&& c.prune == !disable_pruning
            },
    {
        let pgn_path = match path {
            Some(p) => String::from_str(p),
            None => {
                return Err(ConfigError::InvalidPath);
            },
        };
        let moves: Vec<String> = match starting_moves {
            Some(s) => match starting_moves_from_str(s) {
                Some(v) => v,
                None => {
                    return Err(ConfigError::InvalidStartingMoves);
                },
            },
            None => {
                let v: Vec<String> = Vec::new();
                proof {
                    assert(v.deep_view() =~= Seq::<Seq<char>>::empty());
                }
                v
            },
        };
        let parsed_color = match color {
            Some(s) => {
                if str_eq(s, "white") {
                    Color::White
                } else if str_eq(s, "black") {
                    Color::Black
                } else {
                    return Err(ConfigError::InvalidColor);
                }
            },
            None => {
                return Err(ConfigError::InvalidColor);
            },
        };
        let parsed_max_moves = match max_moves {
            Some(s) => match parse_usize(s) {
                Some(v) => v,
                None => {
                    return Err(ConfigError::InvalidMaxMoves);
                },
            },
            None => {
                return Err(ConfigError::InvalidMaxMoves);
            },
        };
        let parsed_depth = match inode_max_depth {
            Some(s) => match parse_usize(s) {
                Some(v) => v,
                None => {
                    return Err(ConfigError::InvalidInodeMaxDepth);
                },
            },
            None => {
                return Err(ConfigError::InvalidInodeMaxDepth);
            },
        };
        let parsed_output = match output_type {
            Some(s) => {
                if str_eq(s, "pgn") {
                    OutputType::Pgn
                } else if str_eq(s, "json") {
                    OutputType::Json
                } else if str_eq(s, "json-pretty") {
                    OutputType::JsonPretty
                } else if str_eq(s, "tree") {
                    OutputType::Tree
                } else {
                    return Err(ConfigError::InvalidOutputType);
                }
            },
            None => {
                return Err(ConfigError::InvalidOutputType);
            },
        };
        Ok(
            Config {
                pgn_path,
                starting_moves: moves,
                color: parsed_color,
                max_moves: parsed_max_moves,
                inode_max_depth: parsed_depth,
                output_type: parsed_output,
                prune: !disable_pruning,
            },
        )
    }
}

} // verus!
