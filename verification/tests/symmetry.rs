use veoluz::symmetry::{all_wall_copies, extra_wall_copies, visible_wall_copies, Transform, WallCopy};

fn copy(source: usize, reflected: bool, turn: u8) -> WallCopy {
    WallCopy { source, reflected, turn }
}

#[test]
fn no_symmetry_adds_nothing() {
    let t = Transform { rotational_symmetry: 1, reflection: false };
    assert!(extra_wall_copies(3, &t).is_empty());
    assert_eq!(all_wall_copies(2, &t), vec![copy(0, false, 0), copy(1, false, 0)]);
}

#[test]
fn zero_symmetry_counts_as_one() {
    let t = Transform { rotational_symmetry: 0, reflection: true };
    assert_eq!(extra_wall_copies(1, &t), vec![copy(0, true, 0)]);
}

#[test]
fn reflection_then_rotation_order() {
    let t = Transform { rotational_symmetry: 3, reflection: true };
    assert_eq!(
        extra_wall_copies(1, &t),
        vec![
            copy(0, true, 0),
            copy(0, false, 1),
            copy(0, true, 1),
            copy(0, false, 2),
            copy(0, true, 2),
        ]
    );
}

#[test]
fn all_copies_count_is_base_times_symmetry() {
    for rot in 0..6u8 {
        for reflection in [false, true] {
            let t = Transform { rotational_symmetry: rot, reflection };
            let n = 4;
            let base = if reflection { 2 * n } else { n };
            let r = if rot == 0 { 1 } else { rot as usize };
            assert_eq!(all_wall_copies(n, &t).len(), base * r);
        }
    }
}

#[test]
fn hidden_walls_are_left_out() {
    let t = Transform { rotational_symmetry: 2, reflection: false };
    assert_eq!(
        visible_wall_copies(&t, &[false, true]),
        vec![copy(0, false, 0), copy(0, false, 1)]
    );
}
