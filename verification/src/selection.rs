//! What is selected on the drawing canvas, how mouse presses and releases change it, and
//! the cursor it shows.
use vstd::prelude::*;

verus! {

/// What part of a wall the pointer is on or is dragging.
#[derive(Clone, Copy, Debug, PartialEq, Eq, Structural)]
pub enum Grab {
    /// The control point with this index.
    Handle(usize),
    /// The wall itself, to move it.
    Move,
}

/// What a press on the canvas places.
#[derive(Clone, Copy, Debug, PartialEq, Eq, Structural)]
pub enum AddKind {
    Light,
    Circle,
    Line,
    Parabola,
}

/// The selection on the canvas, without the pointer positions that the drag handlers keep.
#[derive(Debug)]
pub enum Selected {
    /// One wall, with what of it is being dragged if anything.
    Wall(usize, Option<Grab>),
    /// One light, and whether it is being dragged.
    Light(usize, bool),
    /// The next press places something new.
    Adding(AddKind),
    /// The view is being panned.
    Pan,
    /// Several walls, and whether they are being dragged.
    Multiple(Vec<usize>, bool),
}

/// The cursors the canvas shows.
#[derive(Clone, Copy, Debug, PartialEq, Eq, Structural)]
pub enum Cursor {
    Crosshair,
    Grab,
    Pointer,
    AllScroll,
    Default,
}

/// The cursor for what the pointer hovers and what is selected, in order of precedence:
/// placing something, moving a wall, a handle, dragging several walls, panning.
pub open spec fn spec_cursor(hovered: Option<Grab>, selection: Option<Selected>) -> Cursor {
    if selection matches Some(Selected::Adding(_)) {
        Cursor::Crosshair
    } else if (selection matches Some(Selected::Wall(_, Some(Grab::Move)))) || hovered == Some(Grab::Move) {
        Cursor::Grab
    } else if (selection matches Some(Selected::Wall(_, Some(_)))) || hovered is Some {
        Cursor::Pointer
    } else if selection matches Some(Selected::Multiple(_, true)) {
        Cursor::Grab
    } else if selection matches Some(Selected::Pan) {
        Cursor::AllScroll
    } else {
        Cursor::Default
    }
}

/// The cursor for what the pointer hovers and what is selected (see `spec_cursor`).
pub fn cursor_for(hovered: Option<Grab>, selection: &Option<Selected>) -> (c: Cursor)
    ensures
        c == spec_cursor(hovered, *selection),
{
    match (hovered, selection) {
        (_, Some(Selected::Adding(_))) => Cursor::Crosshair,
        (_, Some(Selected::Wall(_, Some(Grab::Move)))) | (Some(Grab::Move), _) => Cursor::Grab,
        (_, Some(Selected::Wall(_, Some(_)))) | (Some(_), _) => Cursor::Pointer,
        (_, Some(Selected::Multiple(_, true))) => Cursor::Grab,
        (_, Some(Selected::Pan)) => Cursor::AllScroll,
        _ => Cursor::Default,
    }
}

impl Cursor {
    /// The CSS name of the cursor.
    pub fn css_name(&self) -> (name: &'static str)
        ensures
            name@ == match *self {
                Cursor::Crosshair => "crosshair"@,
                Cursor::Grab => "grab"@,
                Cursor::Pointer => "pointer"@,
                Cursor::AllScroll => "all-scroll"@,
                Cursor::Default => "default"@,
            },
    {
        match self {
            Cursor::Crosshair => "crosshair",
            Cursor::Grab => "grab",
            Cursor::Pointer => "pointer",
            Cursor::AllScroll => "all-scroll",
            Cursor::Default => "default",
        }
    }
}

/// The wall that is selected on its own, if one is.
pub fn selected_wall(selection: &Option<Selected>) -> (wall: Option<usize>)
    ensures
        wall == match *selection {
            Some(Selected::Wall(w, _)) => Some(w),
            _ => None,
        },
{
    match selection {
        Some(Selected::Wall(w, _)) => Some(*w),
        _ => None,
    }
}

/// A copy of a list of wall indices.
fn copy_indices(v: &Vec<usize>) -> (copy: Vec<usize>)
    ensures
        copy@ == v@,
{
    let mut copy: Vec<usize> = Vec::new();
    let n = v.len();
    let mut i: usize = 0;
    while i < n
        invariant
            n == v@.len(),
            i <= n,
            copy@ == v@.take(i as int),
        decreases n - i,
    {
        copy.push(v[i]);
        assert(v@.take(i + 1) =~= v@.take(i as int).push(v@[i as int]));
        i = i + 1;
    }
    assert(v@.take(n as int) =~= v@);
    copy
}

/// Whether `wall` is in `walls`.
fn has_wall(walls: &Vec<usize>, wall: usize) -> (found: bool)
    ensures
        found == walls@.contains(wall),
{
    let n = walls.len();
    let mut i: usize = 0;
    while i < n
        invariant
            n == walls@.len(),
            i <= n,
            forall|k: int| 0 <= k < i ==> walls@[k] != wall,
        decreases n - i,
    {
        if walls[i] == wall {
            assert(walls@[i as int] == wall);
            return true;
        }
        i = i + 1;
    }
    false
}

/// The walls of a selection of several walls; none for any other selection.
pub open spec fn selected_walls(selection: Option<Selected>) -> Seq<usize> {
    match selection {
        Some(Selected::Multiple(walls, _)) => walls@,
        _ => Seq::empty(),
    }
}

/// What a mouse press on the canvas does.
#[derive(Debug)]
pub struct Press {
    /// The new selection.
    pub selection: Option<Selected>,
    /// Whether the hovered wall is forgotten.
    pub clear_hover: bool,
    /// What kind of wall is added to the scene (as its last wall) before anything else.
    pub add: Option<AddKind>,
}

/// How the selection changes on a mouse press, given the scene's `wall_count` walls and
/// the wall and grab under the pointer (`hit`, as found with the selected wall's handles
/// taking part): a pending placement adds a wall and grabs its first handle; a press on
/// nothing pans; a shift-press adds the wall to the walls selected so far; a press on one of
/// several selected walls drags them all (listing that wall once more); any other press
/// selects and grabs the wall pressed.
pub fn press(selection: &Option<Selected>, wall_count: usize, hit: Option<(usize, Grab)>, shift: bool) -> (p: Press)
    requires
        !(*selection matches Some(Selected::Adding(AddKind::Light))),
    ensures
        match *selection {
            Some(Selected::Adding(kind)) => {
                &&& p.add == Some(kind)
                &&& p.selection matches Some(Selected::Wall(w, Some(Grab::Handle(h)))) && w == wall_count && h == 0
                &&& !p.clear_hover
            },
            _ => p.add is None && match hit {
                None => (p.selection matches Some(Selected::Pan)) && p.clear_hover,
                Some((wid, grab)) => if shift {
                    let before = match *selection {
                        Some(Selected::Multiple(walls, _)) => walls@,
                        Some(Selected::Wall(w, _)) => seq![w],
                        _ => Seq::<usize>::empty(),
                    };
                    &&& p.selection matches Some(Selected::Multiple(walls, true)) && walls@ == before.push(wid)
                    &&& !p.clear_hover
                } else if selected_walls(*selection).contains(wid) {
                    &&& p.selection matches Some(Selected::Multiple(now, true))
                        && now@ == selected_walls(*selection).push(wid)
                    &&& !p.clear_hover
                } else {
                    &&& p.selection matches Some(Selected::Wall(w, Some(g))) && w == wid && g == grab
                    &&& p.clear_hover
                },
            },
        },
{
    if let Some(Selected::Adding(kind)) = selection {
        return Press {
            selection: Some(Selected::Wall(wall_count, Some(Grab::Handle(0)))),
            clear_hover: false,
            add: Some(*kind),
        };
    }
    match hit {
        None => Press { selection: Some(Selected::Pan), clear_hover: true, add: None },
        Some((wid, grab)) => {
            if shift {
                let mut walls: Vec<usize> = match selection {
                    Some(Selected::Multiple(walls, _)) => copy_indices(walls),
                    Some(Selected::Wall(w, _)) => {
                        let mut one: Vec<usize> = Vec::new();
                        one.push(*w);
                        assert(one@ =~= seq![*w]);
                        one
                    },
                    _ => {
                        let none: Vec<usize> = Vec::new();
                        assert(none@ =~= Seq::<usize>::empty());
                        none
                    },
                };
                walls.push(wid);
                Press { selection: Some(Selected::Multiple(walls, true)), clear_hover: false, add: None }
            } else {
                match selection {
                    Some(Selected::Multiple(walls, _)) => {
                        if has_wall(walls, wid) {
                            let mut now = copy_indices(walls);
                            now.push(wid);
                            Press { selection: Some(Selected::Multiple(now, true)), clear_hover: false, add: None }
                        } else {
                            Press { selection: Some(Selected::Wall(wid, Some(grab))), clear_hover: true, add: None }
                        }
                    },
                    _ => Press { selection: Some(Selected::Wall(wid, Some(grab))), clear_hover: true, add: None },
                }
            }
        },
    }
}

/// What a mouse release on the canvas does.
#[derive(Debug)]
pub struct Release {
    /// The new selection.
    pub selection: Option<Selected>,
    /// The wall that becomes hovered (to be moved), if any.
    pub hover_wall: Option<usize>,
    /// Whether the scene is rendered again.
    pub rerender: bool,
}

/// How the selection changes on a mouse release: a dragged wall stays selected and
/// hovered, a pan ends, dragged walls stay selected; anything else is left as it is.
pub fn release(selection: Option<Selected>) -> (r: Release)
    ensures
        match selection {
            Some(Selected::Wall(w, Some(_))) => {
                &&& r.selection matches Some(Selected::Wall(v, None)) && v == w
                &&& r.hover_wall == Some(w)
                &&& r.rerender
            },
            Some(Selected::Pan) => r.selection is None && r.hover_wall is None && r.rerender,
            Some(Selected::Multiple(walls, _)) => {
                &&& r.selection matches Some(Selected::Multiple(now, false)) && now@ == walls@
                &&& r.hover_wall is None
                &&& r.rerender
            },
            _ => r.selection == selection && r.hover_wall is None && !r.rerender,
        },
{
    match selection {
        Some(Selected::Wall(w, Some(_))) => Release {
            selection: Some(Selected::Wall(w, None)),
            hover_wall: Some(w),
            rerender: true,
        },
        Some(Selected::Pan) => Release { selection: None, hover_wall: None, rerender: true },
        Some(Selected::Multiple(walls, _)) => Release {
            selection: Some(Selected::Multiple(walls, false)),
            hover_wall: None,
            rerender: true,
        },
        other => Release { selection: other, hover_wall: None, rerender: false },
    }
}

} // verus!
