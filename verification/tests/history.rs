use veoluz::history::{copy_scene, History, HISTORY_LIMIT};

fn scene(n: u8) -> Vec<u8> {
    vec![n, n.wrapping_mul(3)]
}

fn saved(h: &History) -> bool {
    h.config() == h.current()
}

fn save(h: &mut History) {
    let s = saved(h);
    h.maybe_save_history(s);
}

fn undo(h: &mut History) {
    let s = saved(h);
    h.undo(s);
}

#[test]
fn new_history_has_one_snapshot() {
    let h = History::new(scene(1));
    assert_eq!(h.len(), 1);
    assert_eq!(h.history_index(), 0);
    assert_eq!(h.config(), &scene(1));
}

#[test]
fn save_then_undo_then_redo() {
    let mut h = History::new(scene(1));
    h.set_config(scene(2));
    save(&mut h);
    assert_eq!(h.len(), 2);
    undo(&mut h);
    assert_eq!(h.config(), &scene(1));
    assert_eq!(h.history_index(), 1);
    assert!(h.redo());
    assert_eq!(h.config(), &scene(2));
    assert_eq!(h.history_index(), 0);
}

#[test]
fn redo_at_newest_does_nothing() {
    let mut h = History::new(scene(1));
    h.set_config(scene(5));
    assert!(!h.redo());
    assert_eq!(h.config(), &scene(5));
    assert_eq!(h.len(), 1);
}

#[test]
fn undo_saves_unsaved_scene_first() {
    let mut h = History::new(scene(1));
    h.set_config(scene(2));
    undo(&mut h);
    assert_eq!(h.len(), 2);
    assert_eq!(h.config(), &scene(1));
    assert!(h.redo());
    assert_eq!(h.config(), &scene(2));
}

#[test]
fn undo_stops_at_oldest() {
    let mut h = History::new(scene(1));
    undo(&mut h);
    assert_eq!(h.history_index(), 0);
    assert_eq!(h.config(), &scene(1));
}

#[test]
fn save_of_same_scene_records_nothing() {
    let mut h = History::new(scene(1));
    save(&mut h);
    assert_eq!(h.len(), 1);
}

#[test]
fn save_after_undo_drops_undone_snapshots() {
    let mut h = History::new(scene(1));
    for n in 2..5 {
        h.set_config(scene(n));
        save(&mut h);
    }
    assert_eq!(h.len(), 4);
    undo(&mut h);
    undo(&mut h);
    assert_eq!(h.config(), &scene(2));
    h.set_config(scene(9));
    save(&mut h);
    assert_eq!(h.len(), 3);
    assert_eq!(h.history_index(), 0);
    undo(&mut h);
    assert_eq!(h.config(), &scene(2));
}

#[test]
fn save_keeps_at_most_the_limit() {
    let mut h = History::new(vec![0, 0]);
    for n in 1..=(HISTORY_LIMIT + 20) {
        h.set_config(vec![(n % 256) as u8, (n / 256) as u8]);
        save(&mut h);
    }
    assert_eq!(h.len(), HISTORY_LIMIT);
    let newest = HISTORY_LIMIT + 20;
    assert_eq!(h.config(), &vec![(newest % 256) as u8, (newest / 256) as u8]);
}

#[test]
fn undo_reverts_redo() {
    let mut h = History::new(scene(1));
    for n in 2..4 {
        h.set_config(scene(n));
        save(&mut h);
    }
    undo(&mut h);
    undo(&mut h);
    assert!(h.redo());
    assert_eq!(h.config(), &scene(2));
    undo(&mut h);
    assert_eq!(h.config(), &scene(1));
    assert_eq!(h.history_index(), 2);
}

#[test]
fn undo_when_caller_finds_scene_saved_adds_nothing() {
    // A scene compared as equal to the newest snapshot (say 0.0 against -0.0) is not added.
    let mut h = History::new(scene(1));
    h.set_config(scene(2));
    save(&mut h);
    h.set_config(scene(7));
    h.undo(true);
    assert_eq!(h.len(), 2);
    assert_eq!(h.config(), &scene(1));
}

#[test]
fn save_when_caller_finds_scene_unsaved_records_it() {
    // A scene compared as unequal to itself (it holds NaN) is recorded again.
    let mut h = History::new(scene(1));
    h.maybe_save_history(false);
    assert_eq!(h.len(), 2);
    assert_eq!(h.current(), &scene(1));
}

#[test]
fn scene_copy() {
    assert_eq!(copy_scene(&vec![4, 5, 6]), vec![4, 5, 6]);
}
