use veoluz::selection::{cursor_for, press, release, selected_wall, AddKind, Cursor, Grab, Selected};

#[test]
fn cursor_precedence() {
    assert_eq!(cursor_for(Some(Grab::Move), &Some(Selected::Adding(AddKind::Line))), Cursor::Crosshair);
    assert_eq!(cursor_for(None, &Some(Selected::Wall(0, Some(Grab::Move)))), Cursor::Grab);
    assert_eq!(cursor_for(Some(Grab::Move), &None), Cursor::Grab);
    assert_eq!(cursor_for(Some(Grab::Handle(1)), &Some(Selected::Pan)), Cursor::Pointer);
    assert_eq!(cursor_for(None, &Some(Selected::Wall(2, Some(Grab::Handle(0))))), Cursor::Pointer);
    assert_eq!(cursor_for(None, &Some(Selected::Multiple(vec![1, 2], true))), Cursor::Grab);
    assert_eq!(cursor_for(None, &Some(Selected::Multiple(vec![1, 2], false))), Cursor::Default);
    assert_eq!(cursor_for(None, &Some(Selected::Pan)), Cursor::AllScroll);
    assert_eq!(cursor_for(None, &Some(Selected::Wall(3, None))), Cursor::Default);
    assert_eq!(cursor_for(None, &None).css_name(), "default");
    assert_eq!(Cursor::AllScroll.css_name(), "all-scroll");
}

#[test]
fn press_while_adding_places_a_wall() {
    let p = press(&Some(Selected::Adding(AddKind::Circle)), 4, None, false);
    assert_eq!(p.add, Some(AddKind::Circle));
    assert!(matches!(p.selection, Some(Selected::Wall(4, Some(Grab::Handle(0))))));
    assert!(!p.clear_hover);
}

#[test]
fn press_on_nothing_pans() {
    let p = press(&Some(Selected::Wall(1, None)), 4, None, false);
    assert!(matches!(p.selection, Some(Selected::Pan)));
    assert!(p.clear_hover);
    assert_eq!(p.add, None);
}

#[test]
fn press_selects_and_grabs_a_wall() {
    let p = press(&None, 4, Some((2, Grab::Handle(1))), false);
    assert!(matches!(p.selection, Some(Selected::Wall(2, Some(Grab::Handle(1))))));
    assert!(p.clear_hover);
}

#[test]
fn shift_press_adds_to_selection() {
    let p = press(&Some(Selected::Wall(1, None)), 4, Some((3, Grab::Move)), true);
    match p.selection {
        Some(Selected::Multiple(walls, true)) => assert_eq!(walls, vec![1, 3]),
        other => panic!("unexpected {:?}", other),
    }
    assert!(!p.clear_hover);
    let p = press(&Some(Selected::Multiple(vec![0, 2], false)), 4, Some((3, Grab::Move)), true);
    match p.selection {
        Some(Selected::Multiple(walls, true)) => assert_eq!(walls, vec![0, 2, 3]),
        other => panic!("unexpected {:?}", other),
    }
}

#[test]
fn press_inside_multiple_drags_all() {
    let p = press(&Some(Selected::Multiple(vec![0, 2], false)), 4, Some((2, Grab::Move)), false);
    match p.selection {
        Some(Selected::Multiple(walls, true)) => assert_eq!(walls, vec![0, 2, 2]),
        other => panic!("unexpected {:?}", other),
    }
    let p = press(&Some(Selected::Multiple(vec![0, 2], false)), 4, Some((1, Grab::Move)), false);
    assert!(matches!(p.selection, Some(Selected::Wall(1, Some(Grab::Move)))));
    assert!(p.clear_hover);
}

#[test]
fn release_cases() {
    let r = release(Some(Selected::Wall(2, Some(Grab::Move))));
    assert!(matches!(r.selection, Some(Selected::Wall(2, None))));
    assert_eq!(r.hover_wall, Some(2));
    assert!(r.rerender);
    let r = release(Some(Selected::Pan));
    assert!(r.selection.is_none());
    assert!(r.rerender);
    let r = release(Some(Selected::Multiple(vec![1, 2], true)));
    match r.selection {
        Some(Selected::Multiple(walls, false)) => assert_eq!(walls, vec![1, 2]),
        other => panic!("unexpected {:?}", other),
    }
    let r = release(Some(Selected::Light(0, true)));
    assert!(matches!(r.selection, Some(Selected::Light(0, true))));
    assert!(!r.rerender);
    assert_eq!(selected_wall(&Some(Selected::Wall(5, None))), Some(5));
    assert_eq!(selected_wall(&Some(Selected::Pan)), None);
}
