use opening_repertoire::chess_move::Move;
use opening_repertoire::color::Color;
use opening_repertoire::config::Config;
use opening_repertoire::tree::Node;
use opening_repertoire::ingest::GameVisitor;
use opening_repertoire::render_output;
use opening_repertoire::tree::Tree;

fn play(visitor: &mut GameVisitor, tree: &mut Tree, plies: &[&str]) {
    visitor.begin_game();
    for ply in plies {
        visitor.san(tree, String::from(*ply));
    }
}

#[test]
fn frequency_counts_every_traversal_of_the_same_line() {
    let mut tree = Tree::new();
    let mut v = GameVisitor::new(vec![], Color::White, 10);
    play(&mut v, &mut tree, &["e4", "e5", "Nf3"]);
    play(&mut v, &mut tree, &["e4", "e5", "Bc4"]);
    play(&mut v, &mut tree, &["e4", "e5", "Nf3"]);
    assert_eq!(tree.arena.len(), 4);
    assert_eq!(tree.arena[0].val.frequency(), 3);
    assert_eq!(tree.arena[1].val.frequency(), 3);
    assert_eq!(tree.arena[2].val.frequency(), 2);
    assert_eq!(tree.arena[3].val.frequency(), 1);
}

#[test]
fn turn_alternates_from_white_for_every_game() {
    let mut tree = Tree::new();
    let mut v = GameVisitor::new(vec![], Color::White, 10);
    play(&mut v, &mut tree, &["e4", "e5"]);
    play(&mut v, &mut tree, &["d4", "d5"]);
    // The second game reuses the root (first game wins its identity) but
    // adds its own Black reply under it.
    assert_eq!(tree.arena[0].val.san_plus, "e4");
    assert_eq!(tree.arena[0].val.color, Color::White);
    for node in &tree.arena {
        if let Some(p) = node.parent {
            assert_eq!(node.val.color, tree.arena[p].val.color.other());
        } else {
            assert_eq!(node.val.color, Color::White);
        }
    }
}

#[test]
fn starting_move_filter_skips_the_rest_of_a_mismatched_game() {
    let mut tree = Tree::new();
    let mut v = GameVisitor::new(vec![String::from("e4")], Color::White, 10);
    play(&mut v, &mut tree, &["d4", "d5", "c4"]);
    assert_eq!(tree.arena.len(), 0);
    play(&mut v, &mut tree, &["e4", "c5"]);
    assert_eq!(tree.arena.len(), 2);
    assert_eq!(tree.arena[1].val.san_plus, "c5");
}

#[test]
fn ply_budget_cuts_games_off() {
    let mut tree = Tree::new();
    // For a White repertoire one move means a single ply.
    let mut v = GameVisitor::new(vec![], Color::White, 1);
    play(&mut v, &mut tree, &["e4", "e5", "Nf3"]);
    assert_eq!(tree.arena.len(), 1);
    assert_eq!(tree.arena[0].val.san_plus, "e4");

    let mut tree_b = Tree::new();
    // For Black the reply to the first move still fits the budget.
    let mut vb = GameVisitor::new(vec![], Color::Black, 1);
    play(&mut vb, &mut tree_b, &["e4", "e5", "Nf3"]);
    assert_eq!(tree_b.arena.len(), 2);
}

#[test]
fn skip_latches_until_the_next_game() {
    let mut tree = Tree::new();
    let mut v = GameVisitor::new(vec![String::from("e4")], Color::White, 10);
    v.begin_game();
    v.san(&mut tree, String::from("d4"));
    v.san(&mut tree, String::from("e4"));
    assert_eq!(tree.arena.len(), 0);
    v.begin_game();
    v.san(&mut tree, String::from("e4"));
    assert_eq!(tree.arena.len(), 1);
}

#[test]
fn san_reports_a_saturated_frequency_counter() {
    let mut tree = Tree {
        arena: vec![Node {
            idx: 0,
            val: Move {
                color: Color::White,
                san_plus: String::from("e4"),
                frequency: u64::MAX,
            },
            parent: None,
            children: vec![],
        }],
    };
    let mut v = GameVisitor::new(vec![], Color::White, 10);
    v.begin_game();
    assert!(!v.san(&mut tree, String::from("e4")));
    assert_eq!(tree.arena[0].val.frequency(), u64::MAX);
}

#[test]
fn render_output_dispatches_on_output_type_and_prunes_once() {
    let mut v = GameVisitor::new(vec![], Color::White, 10);
    let configs = [
        ("pgn", "[Event \"1...e5\"]\n1. e4 e5 2. Nf3\n"),
        ("tree", "+- e4 (2)\n  +- e5 (2)\n    +- Nf3 (1)\n"),
        (
            "json",
            "{\"move\":{\"san_plus\":\"e4\",\"frequency\":2},\"children\":[{\"move\":{\"san_plus\":\"e5\",\"frequency\":2},\"children\":[{\"move\":{\"san_plus\":\"Nf3\",\"frequency\":1},\"children\":[]}]}]}",
        ),
    ];
    for (output_type, expected) in configs {
        let mut tree = Tree::new();
        play(&mut v, &mut tree, &["e4", "e5", "Nf3"]);
        play(&mut v, &mut tree, &["e4", "e5", "Bc4"]);
        let config = Config::new(
            Some("games.pgn"),
            None,
            Some("white"),
            Some("10"),
            Some("8"),
            Some(output_type),
            false,
        )
        .unwrap();
        assert_eq!(render_output(&mut tree, &config), expected);
    }
}

#[test]
fn render_output_without_pruning_keeps_all_branches() {
    let mut v = GameVisitor::new(vec![], Color::White, 10);
    let mut tree = Tree::new();
    play(&mut v, &mut tree, &["e4", "e5", "Nf3"]);
    play(&mut v, &mut tree, &["e4", "e5", "Bc4"]);
    let config = Config::new(
        Some("games.pgn"),
        None,
        Some("white"),
        Some("10"),
        Some("8"),
        Some("pgn"),
        true,
    )
    .unwrap();
    assert_eq!(
        render_output(&mut tree, &config),
        "[Event \"1...e5\"]\n1. e4 e5 2. Nf3\n\n[Event \"1...e5\"]\n1. e4 e5 2. Bc4\n"
    );
}

#[test]
fn empty_ingestion_renders_empty_everywhere() {
    for (output_type, expected) in [("pgn", ""), ("tree", ""), ("json", "null"), ("json-pretty", "null")] {
        let mut tree = Tree::new();
        let config = Config::new(
            Some("games.pgn"),
            None,
            Some("white"),
            Some("10"),
            Some("8"),
            Some(output_type),
            false,
        )
        .unwrap();
        assert_eq!(render_output(&mut tree, &config), expected);
    }
}
