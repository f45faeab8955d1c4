//! A chess opening repertoire builder: ingests games as streams of move
//! tokens, merges them into a deduplicated frequency-counted move tree,
//! prunes opponent branching down to the single best-supported reply, and
//! renders the result as an outline, as numbered-move text, or as a
//! structured JSON document.

pub mod chess_move;
pub mod color;
pub mod config;
pub mod ingest;
pub mod json;
pub mod laws;
pub mod outline;
pub mod paths;
pub mod san;
pub mod text;
pub mod tree;

use vstd::prelude::*;

use crate::config::{Config, OutputType};
use crate::paths::spec_pgn_doc;
use crate::tree::Tree;

verus! {

/// What the pipeline emits for a (possibly pruned) tree under a
/// configuration: the PGN document, one of the two JSON variants, or the
/// outline text.
pub open spec fn spec_output(t: Tree, c: Config) -> Seq<char> {
    match c.output_type {
        OutputType::Pgn => spec_pgn_doc(
            t.spec_paths(c.color, c.inode_max_depth as int),
            c.color,
            c.inode_max_depth as int,
        ),
        OutputType::Json => t.spec_json(),
        OutputType::JsonPretty => t.spec_json_pretty(),
        OutputType::Tree => t.spec_outline(),
    }
}

/// The compute half of a run, after ingestion: prunes the tree for the
/// repertoire side (unless pruning is disabled) and renders it in the
/// configured encoding.
pub fn render_output(tree: &mut Tree, config: &Config) -> (r: String)
    requires
        old(tree).wf(),
    ensures
        final(tree).wf(),
        config.prune ==> final(tree).pruned_from(*old(tree), config.color),
        !config.prune ==> *final(tree) == *old(tree),
        r@ == spec_output(*final(tree), *config),
{
    if config.prune {
        tree.prune(config.color);
    }
    match config.output_type {
        OutputType::Pgn => tree.pgn(config.color, config.inode_max_depth),
        OutputType::Json => tree.to_json(),
        OutputType::JsonPretty => tree.to_json_pretty(),
        OutputType::Tree => tree.outline(),
    }
}

} // verus!
