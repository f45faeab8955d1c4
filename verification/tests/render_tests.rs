use opening_repertoire::chess_move::Move;
use opening_repertoire::color::Color;
use opening_repertoire::paths::{pgn_from_path, title_from_path};
use opening_repertoire::tree::Tree;

fn mv(color: Color, san: &str) -> Move {
    Move::new(color, String::from(san))
}

/// Ingests one game given as (side, token) plies, counting every node.
fn ingest(tree: &mut Tree, plies: &[(Color, &str)]) {
    let mut cursor: Option<usize> = None;
    for (color, san) in plies {
        let idx = match cursor {
            Some(c) => tree.get_child_or_insert(mv(*color, san), c),
            None => tree.get_root_or_insert(mv(*color, san)),
        };
        tree.inc_frequency(idx);
        cursor = Some(idx);
    }
}

fn two_game_tree() -> Tree {
    let mut tree = Tree::new();
    ingest(
        &mut tree,
        &[(Color::White, "e4"), (Color::Black, "e5"), (Color::White, "Nf3")],
    );
    ingest(
        &mut tree,
        &[(Color::White, "e4"), (Color::Black, "e5"), (Color::White, "Bc4")],
    );
    tree
}

#[test]
fn empty_tree_renders_as_defined_empty_forms() {
    let tree = Tree::new();
    assert_eq!(tree.outline(), "");
    assert_eq!(tree.to_json(), "null");
    assert_eq!(tree.to_json_pretty(), "null");
    assert_eq!(tree.pgn(Color::White, 8), "");
    assert!(tree.paths(Color::White, 8).is_empty());
}

#[test]
fn round_trip_two_games_prune_and_render_pgn() {
    let mut tree = two_game_tree();
    tree.prune(Color::White);
    assert_eq!(tree.pgn(Color::White, 8), "[Event \"1...e5\"]\n1. e4 e5 2. Nf3\n");
}

#[test]
fn paths_emit_leaves_always_and_internal_nodes_only_below_budget() {
    let mut tree = Tree::new();
    ingest(
        &mut tree,
        &[
            (Color::White, "e4"),
            (Color::Black, "e5"),
            (Color::White, "Nf3"),
            (Color::Black, "Nc6"),
            (Color::White, "Bb5"),
        ],
    );
    // With a generous budget the internal White node (Nf3, depth 2) ends a
    // path of its own, besides the leaf path.
    let wide = tree.paths(Color::White, 8);
    assert_eq!(wide.len(), 2);
    assert_eq!(wide[0].len(), 3);
    assert_eq!(wide[0][2].san_plus, "Nf3");
    assert_eq!(wide[1].len(), 5);
    assert_eq!(wide[1][4].san_plus, "Bb5");
    // With the budget at 1, depth 2 >= 1 silences the internal node; the
    // leaf is still emitted, whatever its depth.
    let narrow = tree.paths(Color::White, 1);
    assert_eq!(narrow.len(), 1);
    assert_eq!(narrow[0].len(), 5);
    assert_eq!(narrow[0][4].san_plus, "Bb5");
}

#[test]
fn title_names_last_opponent_move_in_window() {
    let path = vec![
        mv(Color::White, "e4"),
        mv(Color::Black, "e5"),
        mv(Color::White, "Nf3"),
        mv(Color::Black, "Nc6"),
        mv(Color::White, "Bb5"),
    ];
    // Window of the first four plies: the last Black move is Nc6, ply 4,
    // move 2.
    assert_eq!(title_from_path(&path, Color::White, 5), "2...Nc6");
    // Window of the first two plies only.
    assert_eq!(title_from_path(&path, Color::White, 3), "1...e5");
    // For a Black repertoire the opponent moves are White's, dots become
    // a single period.
    assert_eq!(title_from_path(&path, Color::Black, 5), "2.Nf3");
}

#[test]
fn title_falls_back_when_no_opponent_move_in_window() {
    let path = vec![mv(Color::White, "e4")];
    assert_eq!(title_from_path(&path, Color::White, 8), "Variation");
    // A depth budget of zero scans nothing at all.
    let longer = vec![mv(Color::White, "e4"), mv(Color::Black, "e5")];
    assert_eq!(title_from_path(&longer, Color::White, 0), "Variation");
}

#[test]
fn numbered_move_text_pairs_plies_and_handles_odd_tails() {
    let path = vec![
        mv(Color::White, "e4"),
        mv(Color::Black, "e5"),
        mv(Color::White, "Nf3"),
    ];
    assert_eq!(pgn_from_path(&path), "1. e4 e5 2. Nf3");
    let even = vec![mv(Color::White, "e4"), mv(Color::Black, "e5")];
    assert_eq!(pgn_from_path(&even), "1. e4 e5");
    let one = vec![mv(Color::White, "e4")];
    assert_eq!(pgn_from_path(&one), "1. e4");
    let empty: Vec<Move> = vec![];
    assert_eq!(pgn_from_path(&empty), "");
}

#[test]
fn pgn_document_joins_sections_with_blank_lines() {
    let mut tree = two_game_tree();
    // Unpruned, both White third moves end their own leaf paths.
    let text = tree.pgn(Color::White, 8);
    assert_eq!(
        text,
        "[Event \"1...e5\"]\n1. e4 e5 2. Nf3\n\n[Event \"1...e5\"]\n1. e4 e5 2. Bc4\n"
    );
    tree.prune(Color::White);
    assert_eq!(tree.pgn(Color::White, 8), "[Event \"1...e5\"]\n1. e4 e5 2. Nf3\n");
}

#[test]
fn outline_shows_markers_frequencies_and_guides() {
    let mut tree = two_game_tree();
    assert_eq!(
        tree.outline(),
        "+- e4 (2)\n  +- e5 (2)\n    +- Nf3 (1)\n    +- Bc4 (1)\n"
    );
    // A non-last child continues the guide below itself.
    ingest(
        &mut tree,
        &[
            (Color::White, "e4"),
            (Color::Black, "e5"),
            (Color::White, "Nf3"),
            (Color::Black, "Nc6"),
        ],
    );
    assert_eq!(
        tree.outline(),
        "+- e4 (3)\n  +- e5 (3)\n    +- Nf3 (2)\n    |  +- Nc6 (1)\n    +- Bc4 (1)\n"
    );
}

#[test]
fn compact_json_nests_moves_and_children() {
    let mut tree = two_game_tree();
    tree.prune(Color::White);
    assert_eq!(
        tree.to_json(),
        "{\"move\":{\"san_plus\":\"e4\",\"frequency\":2},\"children\":[{\"move\":{\"san_plus\":\"e5\",\"frequency\":2},\"children\":[{\"move\":{\"san_plus\":\"Nf3\",\"frequency\":1},\"children\":[]}]}]}"
    );
}

#[test]
fn compact_json_escapes_string_content() {
    let mut tree = Tree::new();
    let r = tree.get_root_or_insert(mv(Color::White, "a\"b\\c"));
    tree.inc_frequency(r);
    assert_eq!(
        tree.to_json(),
        "{\"move\":{\"san_plus\":\"a\\\"b\\\\c\",\"frequency\":1},\"children\":[]}"
    );
}

#[test]
fn pretty_json_indents_two_spaces_per_level() {
    let mut tree = Tree::new();
    let r = tree.get_root_or_insert(mv(Color::White, "e4"));
    tree.inc_frequency(r);
    assert_eq!(
        tree.to_json_pretty(),
        "{\n  \"move\": {\n    \"san_plus\": \"e4\",\n    \"frequency\": 1\n  },\n  \"children\": []\n}"
    );
    let a = tree.get_child_or_insert(mv(Color::Black, "e5"), r);
    tree.inc_frequency(a);
    assert_eq!(
        tree.to_json_pretty(),
        "{\n  \"move\": {\n    \"san_plus\": \"e4\",\n    \"frequency\": 1\n  },\n  \"children\": [\n    {\n      \"move\": {\n        \"san_plus\": \"e5\",\n        \"frequency\": 1\n      },\n      \"children\": []\n    }\n  ]\n}"
    );
}

#[test]
fn move_display_shows_token_and_frequency() {
    let mut m = mv(Color::White, "e4");
    m.inc_frequency();
    m.inc_frequency();
    assert_eq!(m.display(), "e4 (2)");
    assert_eq!(m.dots(), ".");
    assert_eq!(mv(Color::Black, "e5").dots(), "...");
}
