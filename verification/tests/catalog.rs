use tetris::block::{
    is_orientation_of, random_kind, rotate, same_shape, shape_of, BlockKind, Turn,
};

const KINDS: [BlockKind; 7] = [
    BlockKind::I,
    BlockKind::O,
    BlockKind::S,
    BlockKind::Z,
    BlockKind::J,
    BlockKind::L,
    BlockKind::T,
];

#[test]
fn shapes_are_the_catalog() {
    assert_eq!(
        shape_of(BlockKind::I),
        [[0, 0, 0, 0], [0, 0, 0, 0], [2, 2, 2, 2], [0, 0, 0, 0]]
    );
    assert_eq!(
        shape_of(BlockKind::O),
        [[0, 0, 0, 0], [0, 3, 3, 0], [0, 3, 3, 0], [0, 0, 0, 0]]
    );
    assert_eq!(
        shape_of(BlockKind::S),
        [[0, 0, 0, 0], [0, 4, 4, 0], [4, 4, 0, 0], [0, 0, 0, 0]]
    );
    assert_eq!(
        shape_of(BlockKind::Z),
        [[0, 0, 0, 0], [5, 5, 0, 0], [0, 5, 5, 0], [0, 0, 0, 0]]
    );
    assert_eq!(
        shape_of(BlockKind::J),
        [[0, 0, 0, 0], [6, 0, 0, 0], [6, 6, 6, 0], [0, 0, 0, 0]]
    );
    assert_eq!(
        shape_of(BlockKind::L),
        [[0, 0, 0, 0], [0, 0, 7, 0], [7, 7, 7, 0], [0, 0, 0, 0]]
    );
    assert_eq!(
        shape_of(BlockKind::T),
        [[0, 0, 0, 0], [0, 8, 0, 0], [8, 8, 8, 0], [0, 0, 0, 0]]
    );
}

#[test]
fn colors_follow_the_catalog_order() {
    for (i, kind) in KINDS.iter().enumerate() {
        assert_eq!(kind.index(), i);
        assert_eq!(kind.color(), i + 2);
        assert_eq!(BlockKind::from_index(i), *kind);
    }
    assert_eq!(BlockKind::from_index(7), BlockKind::T);
    assert_eq!(BlockKind::from_index(usize::MAX), BlockKind::T);
}

#[test]
fn right_turn_is_clockwise() {
    let j = shape_of(BlockKind::J);
    assert_eq!(
        rotate(&j, Turn::Right),
        [[0, 6, 6, 0], [0, 6, 0, 0], [0, 6, 0, 0], [0, 0, 0, 0]]
    );
    let i = shape_of(BlockKind::I);
    assert_eq!(
        rotate(&i, Turn::Right),
        [[0, 2, 0, 0], [0, 2, 0, 0], [0, 2, 0, 0], [0, 2, 0, 0]]
    );
}

#[test]
fn left_turn_is_counter_clockwise() {
    let j = shape_of(BlockKind::J);
    assert_eq!(
        rotate(&j, Turn::Left),
        [[0, 0, 0, 0], [0, 0, 6, 0], [0, 0, 6, 0], [0, 6, 6, 0]]
    );
    let i = shape_of(BlockKind::I);
    assert_eq!(
        rotate(&i, Turn::Left),
        [[0, 0, 2, 0], [0, 0, 2, 0], [0, 0, 2, 0], [0, 0, 2, 0]]
    );
}

#[test]
fn turns_undo_each_other() {
    for kind in KINDS {
        let shape = shape_of(kind);
        assert_eq!(rotate(&rotate(&shape, Turn::Right), Turn::Left), shape);
        assert_eq!(rotate(&rotate(&shape, Turn::Left), Turn::Right), shape);
    }
}

#[test]
fn four_turns_give_the_shape_back() {
    for kind in KINDS {
        let shape = shape_of(kind);
        for turn in [Turn::Left, Turn::Right] {
            let mut turned = shape;
            for _ in 0..4 {
                turned = rotate(&turned, turn);
            }
            assert_eq!(turned, shape);
        }
    }
}

#[test]
fn the_square_turns_into_itself() {
    let o = shape_of(BlockKind::O);
    assert_eq!(rotate(&o, Turn::Right), o);
    assert_eq!(rotate(&o, Turn::Left), o);
}

#[test]
fn random_kinds_are_of_the_catalog() {
    let mut seen = [false; 7];
    for _ in 0..2000 {
        let kind = random_kind();
        assert!(kind.index() <= 6);
        seen[kind.index()] = true;
    }
    assert!(seen.iter().all(|s| *s));
}

#[test]
fn shapes_are_compared_cell_by_cell() {
    let t = shape_of(BlockKind::T);
    assert!(same_shape(&t, &t));
    for r in 0..4 {
        for c in 0..4 {
            let mut other = t;
            other[r][c] = 9;
            assert!(!same_shape(&t, &other));
            assert!(!same_shape(&other, &t));
        }
    }
}

#[test]
fn every_turn_of_a_shape_is_of_its_kind() {
    for kind in KINDS {
        let mut shape = shape_of(kind);
        for _ in 0..4 {
            assert!(is_orientation_of(&shape, kind));
            shape = rotate(&shape, Turn::Left);
        }
    }
}

#[test]
fn a_shape_is_of_no_other_kind() {
    for kind in KINDS {
        for other in KINDS {
            let mut shape = shape_of(other);
            for _ in 0..4 {
                assert_eq!(is_orientation_of(&shape, kind), kind == other);
                shape = rotate(&shape, Turn::Right);
            }
        }
    }
}

#[test]
fn a_shape_in_the_wrong_color_is_of_no_kind() {
    let mut shape = shape_of(BlockKind::O);
    shape[1][1] = 4;
    for kind in KINDS {
        assert!(!is_orientation_of(&shape, kind));
    }
    for kind in KINDS {
        assert!(!is_orientation_of(&[[0; 4]; 4], kind));
    }
}
