use opening_repertoire::chess_move::Move;
use opening_repertoire::color::Color;
use opening_repertoire::tree::{Node, Tree};

fn mv(color: Color, san: &str) -> Move {
    Move::new(color, String::from(san))
}

#[test]
fn dedup_same_sequence_inserted_twice_reuses_handles() {
    let mut tree = Tree::new();
    let r1 = tree.get_root_or_insert(mv(Color::White, "e4"));
    let c1 = tree.get_child_or_insert(mv(Color::Black, "e5"), r1);
    let g1 = tree.get_child_or_insert(mv(Color::White, "Nf3"), c1);
    let count_after_first = tree.arena.len();

    let r2 = tree.get_root_or_insert(mv(Color::White, "e4"));
    let c2 = tree.get_child_or_insert(mv(Color::Black, "e5"), r2);
    let g2 = tree.get_child_or_insert(mv(Color::White, "Nf3"), c2);

    assert_eq!(r1, r2);
    assert_eq!(c1, c2);
    assert_eq!(g1, g2);
    assert_eq!(tree.arena.len(), count_after_first);
}

#[test]
fn root_insertion_is_idempotent_and_first_game_wins() {
    let mut tree = Tree::new();
    let r1 = tree.get_root_or_insert(mv(Color::White, "e4"));
    let r2 = tree.get_root_or_insert(mv(Color::White, "d4"));
    assert_eq!(r1, 0);
    assert_eq!(r2, 0);
    assert_eq!(tree.arena.len(), 1);
    assert_eq!(tree.arena[0].val.san_plus, "e4");
}

#[test]
fn depth_is_zero_at_root_and_parent_plus_one_below() {
    let mut tree = Tree::new();
    let r = tree.get_root_or_insert(mv(Color::White, "e4"));
    let a = tree.get_child_or_insert(mv(Color::Black, "e5"), r);
    let b = tree.get_child_or_insert(mv(Color::White, "Nf3"), a);
    assert_eq!(tree.depth(r), 0);
    assert_eq!(tree.depth(a), 1);
    assert_eq!(tree.depth(b), 2);
    assert!(tree.is_root(r));
    assert!(!tree.is_root(a));
    assert!(tree.is_leaf(b));
    assert!(tree.is_internal(a));
    assert!(!tree.is_internal(r));
    assert!(!tree.is_internal(b));
}

#[test]
fn sides_alternate_from_white_along_any_path() {
    let mut tree = Tree::new();
    let r = tree.get_root_or_insert(mv(Color::White, "e4"));
    let a = tree.get_child_or_insert(mv(Color::Black, "e5"), r);
    let b = tree.get_child_or_insert(mv(Color::White, "Nf3"), a);
    let c = tree.get_child_or_insert(mv(Color::Black, "Nc6"), b);
    let mut cur = c;
    let mut expected = Color::Black;
    loop {
        assert_eq!(tree.arena[cur].val.color, expected);
        expected = expected.other();
        match tree.arena[cur].parent {
            Some(p) => cur = p,
            None => break,
        }
    }
    assert_eq!(cur, r);
}

#[test]
fn frequency_increments_are_decoupled_and_saturate() {
    let mut tree = Tree::new();
    let r = tree.get_root_or_insert(mv(Color::White, "e4"));
    assert_eq!(tree.arena[r].val.frequency(), 0);
    assert!(tree.inc_frequency(r));
    assert!(tree.inc_frequency(r));
    assert_eq!(tree.arena[r].val.frequency(), 2);

    let saturated = Tree {
        arena: vec![Node {
            idx: 0,
            val: Move {
                color: Color::White,
                san_plus: String::from("e4"),
                frequency: u64::MAX,
            },
            parent: None,
            children: vec![],
        }],
    };
    let mut saturated = saturated;
    assert!(!saturated.inc_frequency(0));
    assert_eq!(saturated.arena[0].val.frequency(), u64::MAX);
}

#[test]
fn prune_keeps_repertoire_children_and_collapses_opponent_children() {
    // Two games: 1.e4 e5 2.Nf3 and 1.e4 e5 2.Bc4.
    let mut tree = Tree::new();
    for second_white in ["Nf3", "Bc4"] {
        let r = tree.get_root_or_insert(mv(Color::White, "e4"));
        tree.inc_frequency(r);
        let a = tree.get_child_or_insert(mv(Color::Black, "e5"), r);
        tree.inc_frequency(a);
        let b = tree.get_child_or_insert(mv(Color::White, second_white), a);
        tree.inc_frequency(b);
    }
    assert_eq!(tree.arena.len(), 4);
    assert_eq!(tree.arena[0].val.frequency(), 2);
    assert_eq!(tree.arena[1].val.frequency(), 2);
    assert_eq!(tree.arena[2].val.frequency(), 1);
    assert_eq!(tree.arena[3].val.frequency(), 1);

    tree.prune(Color::White);

    // The White root keeps its children; Black's node keeps exactly one,
    // and on the frequency tie it is the first-inserted child (Nf3).
    assert_eq!(tree.arena[0].children, vec![1]);
    assert_eq!(tree.arena[1].children, vec![2]);
    assert_eq!(tree.arena[2].val.san_plus, "Nf3");
    // Pruning removed edges, not nodes.
    assert_eq!(tree.arena.len(), 4);
    assert_eq!(tree.arena[3].val.san_plus, "Bc4");
}

#[test]
fn prune_tie_break_follows_insertion_order_not_token() {
    // Same two games, inserted in the opposite order: now Bc4 is first.
    let mut tree = Tree::new();
    for second_white in ["Bc4", "Nf3"] {
        let r = tree.get_root_or_insert(mv(Color::White, "e4"));
        tree.inc_frequency(r);
        let a = tree.get_child_or_insert(mv(Color::Black, "e5"), r);
        tree.inc_frequency(a);
        let b = tree.get_child_or_insert(mv(Color::White, second_white), a);
        tree.inc_frequency(b);
    }
    tree.prune(Color::White);
    assert_eq!(tree.arena[1].children.len(), 1);
    assert_eq!(tree.arena[tree.arena[1].children[0]].val.san_plus, "Bc4");
}

#[test]
fn prune_prefers_strictly_higher_frequency_over_order() {
    let mut tree = Tree::new();
    let r = tree.get_root_or_insert(mv(Color::White, "e4"));
    let a = tree.get_child_or_insert(mv(Color::Black, "e5"), r);
    let b1 = tree.get_child_or_insert(mv(Color::White, "Nf3"), a);
    let b2 = tree.get_child_or_insert(mv(Color::White, "Bc4"), a);
    tree.inc_frequency(b1);
    tree.inc_frequency(b2);
    tree.inc_frequency(b2);
    tree.prune(Color::White);
    assert_eq!(tree.arena[a].children, vec![b2]);
}

#[test]
fn prune_leaves_childless_opponent_nodes_childless() {
    let mut tree = Tree::new();
    let r = tree.get_root_or_insert(mv(Color::White, "e4"));
    let a = tree.get_child_or_insert(mv(Color::Black, "e5"), r);
    tree.prune(Color::White);
    assert!(tree.arena[a].children.is_empty());
    assert_eq!(tree.arena[r].children, vec![a]);
}
