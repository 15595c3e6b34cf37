//! Which copies of the scene's walls the kaleidoscope symmetry adds.
use vstd::prelude::*;

verus! {

/// The symmetry of a scene: how many rotated copies it has around the origin, and whether
/// it is also mirrored across the vertical axis.
#[derive(Clone, Copy, Debug, PartialEq, Eq, Structural)]
pub struct Transform {
    pub rotational_symmetry: u8,
    pub reflection: bool,
}

/// A wall as it appears in the rendered scene: the wall of the scene it copies, whether it
/// is mirrored across the vertical axis (first), and by how many steps of a full turn
/// divided by the rotational symmetry it is then rotated around the origin.
#[derive(Clone, Copy, Debug, PartialEq, Eq, Structural)]
pub struct WallCopy {
    pub source: usize,
    pub reflected: bool,
    pub turn: u8,
}

/// The scene's own walls, unchanged.
pub open spec fn scene_walls(n: nat) -> Seq<WallCopy> {
    Seq::new(n, |j: int| WallCopy { source: j as usize, reflected: false, turn: 0 })
}

/// The mirror images of the scene's walls.
pub open spec fn mirrored(n: nat) -> Seq<WallCopy> {
    Seq::new(n, |j: int| WallCopy { source: j as usize, reflected: true, turn: 0 })
}

/// The mirror images when the transform mirrors, else nothing.
pub open spec fn mirror_part(n: nat, t: Transform) -> Seq<WallCopy> {
    if t.reflection {
        mirrored(n)
    } else {
        Seq::empty()
    }
}

/// The walls that the rotations copy: the scene's walls and, when mirrored, their images.
pub open spec fn symmetric_base(n: nat, t: Transform) -> Seq<WallCopy> {
    scene_walls(n) + mirror_part(n, t)
}

/// `base` rotated by `turn` steps.
pub open spec fn turned(base: Seq<WallCopy>, turn: u8) -> Seq<WallCopy> {
    base.map_values(|c: WallCopy| WallCopy { source: c.source, reflected: c.reflected, turn })
}

/// `base` rotated by each of the steps `from`, ..., `to - 1`, in that order.
pub open spec fn turns(base: Seq<WallCopy>, from: int, to: int) -> Seq<WallCopy>
    decreases to - from,
{
    if to <= from {
        Seq::empty()
    } else {
        turns(base, from, to - 1) + turned(base, (to - 1) as u8)
    }
}

/// The walls that the symmetry adds to a scene of `n` walls: the mirror images first, then
/// for each rotation step from 1 the rotated scene walls and mirror images.
pub open spec fn extra_copies(n: nat, t: Transform) -> Seq<WallCopy> {
    mirror_part(n, t) + turns(symmetric_base(n, t), 1, t.rotational_symmetry as int)
}

/// Every wall of the rendered scene: the scene's own walls, then the extra copies.
pub open spec fn all_copies(n: nat, t: Transform) -> Seq<WallCopy> {
    scene_walls(n) + extra_copies(n, t)
}

/// `turns` over `[a, c)` is `turns` over `[a, b)` followed by `turns` over `[b, c)`.
pub proof fn lemma_turns_split(base: Seq<WallCopy>, a: int, b: int, c: int)
    requires
        a <= b <= c,
    ensures
        turns(base, a, c) == turns(base, a, b) + turns(base, b, c),
    decreases c - b,
{
    if b < c {
        lemma_turns_split(base, a, b, c - 1);
        assert(turns(base, a, c) =~= turns(base, a, b) + turns(base, b, c));
    } else {
        assert(turns(base, b, c) =~= Seq::<WallCopy>::empty());
        assert(turns(base, a, c) =~= turns(base, a, b) + turns(base, b, c));
    }
}

/// `turns` over `[a, b)` has `b - a` copies of `base`.
pub proof fn lemma_turns_len(base: Seq<WallCopy>, a: int, b: int)
    requires
        a <= b,
    ensures
        turns(base, a, b).len() == (b - a) * base.len(),
    decreases b - a,
{
    if a < b {
        lemma_turns_len(base, a, b - 1);
        assert((b - 1 - a) * base.len() + base.len() == (b - a) * base.len()) by (nonlinear_arith);
    } else {
        assert((b - a) * base.len() == 0) by (nonlinear_arith)
            requires
                b - a == 0,
        ;
    }
}

/// The rendered scene is the symmetric base (the scene's walls and, when mirrored, their
/// images) rotated by each step of the rotational symmetry, counting a symmetry of 0 as 1;
/// so it has that many times as many walls as the base.
pub proof fn lemma_all_copies_are_rotations(n: nat, t: Transform)
    ensures
        all_copies(n, t) == turns(
            symmetric_base(n, t),
            0,
            if t.rotational_symmetry == 0 { 1 } else { t.rotational_symmetry as int },
        ),
        all_copies(n, t).len() == symmetric_base(n, t).len() * (if t.rotational_symmetry == 0 { 1 } else { t.rotational_symmetry as int }),
        symmetric_base(n, t).len() == if t.reflection { 2 * n as int } else { n as int },
{
    let base = symmetric_base(n, t);
    let r = if t.rotational_symmetry == 0 { 1 } else { t.rotational_symmetry as int };
    assert(turned(base, 0) =~= base);
    assert(turns(base, 0, 1) =~= base) by {
        assert(turns(base, 0, 0) =~= Seq::<WallCopy>::empty());
    }
    if t.rotational_symmetry == 0 {
        assert(turns(base, 1, 0) =~= Seq::<WallCopy>::empty());
    } else {
        lemma_turns_split(base, 0, 1, r);
    }
    assert(all_copies(n, t) =~= turns(base, 0, r));
    lemma_turns_len(base, 0, r);
    assert((r - 0) * base.len() == base.len() * r) by (nonlinear_arith);
}

/// The scene's walls come first, each once and in order, and with reflection on the extra
/// copies start with the mirror image of each scene wall, once and in order.
pub proof fn lemma_copies_start_with_scene_and_mirrors(n: nat, t: Transform)
    ensures
        all_copies(n, t).len() >= n,
        forall|j: int| 0 <= j < n ==> #[trigger] all_copies(n, t)[j] == (WallCopy { source: j as usize, reflected: false, turn: 0 }),
        t.reflection ==> extra_copies(n, t).len() >= n,
        t.reflection ==> forall|j: int| 0 <= j < n
            ==> #[trigger] extra_copies(n, t)[j] == (WallCopy { source: j as usize, reflected: true, turn: 0 }),
        t.reflection ==> forall|j: int| 0 <= j < n
            ==> #[trigger] all_copies(n, t)[n + j] == (WallCopy { source: j as usize, reflected: true, turn: 0 }),
{
    let base = symmetric_base(n, t);
    let r = t.rotational_symmetry as int;
    if r >= 1 {
        lemma_turns_len(base, 1, r);
    } else {
        assert(turns(base, 1, r) =~= Seq::<WallCopy>::empty());
    }
    assert(all_copies(n, t) =~= scene_walls(n) + extra_copies(n, t));
    assert forall|j: int| 0 <= j < n implies #[trigger] all_copies(n, t)[j] == (WallCopy { source: j as usize, reflected: false, turn: 0 }) by {
        assert(all_copies(n, t)[j] == scene_walls(n)[j]);
    }
    if t.reflection {
        assert forall|j: int| 0 <= j < n
            implies #[trigger] extra_copies(n, t)[j] == (WallCopy { source: j as usize, reflected: true, turn: 0 }) by {
            assert(extra_copies(n, t)[j] == mirrored(n)[j]);
        }
        assert forall|j: int| 0 <= j < n
            implies #[trigger] all_copies(n, t)[n + j] == (WallCopy { source: j as usize, reflected: true, turn: 0 }) by {
            assert(all_copies(n, t)[n + j] == extra_copies(n, t)[j]);
            assert(extra_copies(n, t)[j] == mirrored(n)[j]);
        }
    }
}

/// Copy `i * base.len() + j` of `turns(base, a, b)` is base wall `j` rotated by `a + i` steps.
pub proof fn lemma_turns_index(base: Seq<WallCopy>, a: int, b: int, i: int, j: int)
    requires
        0 <= a <= b <= 256,
        0 <= i < b - a,
        0 <= j < base.len(),
    ensures
        turns(base, a, b).len() == (b - a) * base.len(),
        i * base.len() + j < turns(base, a, b).len(),
        turns(base, a, b)[i * base.len() + j]
            == (WallCopy { source: base[j].source, reflected: base[j].reflected, turn: (a + i) as u8 }),
    decreases b - a,
{
    lemma_turns_len(base, a, b);
    lemma_turns_len(base, a, b - 1);
    let m = base.len() as int;
    let prev = turns(base, a, b - 1);
    if i < b - 1 - a {
        lemma_turns_index(base, a, b - 1, i, j);
        assert(i * m + j < prev.len());
        assert(turns(base, a, b)[i * m + j] == prev[i * m + j]);
    } else {
        assert(i == b - 1 - a);
        assert(prev.len() == i * m) by (nonlinear_arith)
            requires prev.len() == (b - 1 - a) * m, i == b - 1 - a;
        assert(turns(base, a, b)[i * m + j] == turned(base, (b - 1) as u8)[j]);
    }
    assert(i * m + j < (b - a) * m) by (nonlinear_arith)
        requires 0 <= i < b - a, 0 <= j < m;
}

/// Every wall of the rendered scene, by position: with `m` walls in the symmetric base (the
/// scene's `n` walls, then their mirror images when reflection is on) and `r` rotation steps
/// (a symmetry of 0 counting as 1), copy `i * m + j` is scene wall `j` (for `j < n`) or the
/// mirror image of scene wall `j - n`, rotated by `i` steps.
pub proof fn lemma_all_copies_by_position(n: nat, t: Transform, i: int, j: int)
    requires
        0 <= i < (if t.rotational_symmetry == 0 { 1 } else { t.rotational_symmetry as int }),
        0 <= j < (if t.reflection { 2 * n as int } else { n as int }),
    ensures
        ({
            let m = if t.reflection { 2 * n as int } else { n as int };
            &&& i * m + j < all_copies(n, t).len()
            &&& all_copies(n, t)[i * m + j] == (if j < n {
                WallCopy { source: j as usize, reflected: false, turn: i as u8 }
            } else {
                WallCopy { source: (j - n) as usize, reflected: true, turn: i as u8 }
            })
        }),
{
    let base = symmetric_base(n, t);
    let r = if t.rotational_symmetry == 0 { 1 } else { t.rotational_symmetry as int };
    lemma_all_copies_are_rotations(n, t);
    lemma_turns_index(base, 0, r, i, j);
    if j < n {
        assert(base[j] == scene_walls(n)[j]);
    } else {
        assert(base[j] == mirrored(n)[j - n]);
    }
}

/// The copies named in `all_copies` refer to walls of the scene.
pub proof fn lemma_copies_name_scene_walls(n: nat, t: Transform)
    ensures
        forall|k: int| 0 <= k < all_copies(n, t).len() ==> (#[trigger] all_copies(n, t)[k]).source < n,
{
    let base = symmetric_base(n, t);
    let r = if t.rotational_symmetry == 0 { 1 } else { t.rotational_symmetry as int };
    lemma_all_copies_are_rotations(n, t);
    lemma_turns_name_base(base, 0, r, n);
}

/// Rotated copies name the same walls as the base they copy.
pub proof fn lemma_turns_name_base(base: Seq<WallCopy>, a: int, b: int, n: nat)
    requires
        forall|k: int| 0 <= k < base.len() ==> (#[trigger] base[k]).source < n,
    ensures
        forall|k: int| 0 <= k < turns(base, a, b).len() ==> (#[trigger] turns(base, a, b)[k]).source < n,
    decreases b - a,
{
    if a < b {
        lemma_turns_name_base(base, a, b - 1, n);
        let prev = turns(base, a, b - 1);
        let last = turned(base, (b - 1) as u8);
        assert forall|k: int| 0 <= k < turns(base, a, b).len() implies (#[trigger] turns(base, a, b)[k]).source < n by {
            if k < prev.len() {
                assert(turns(base, a, b)[k] == prev[k]);
            } else {
                assert(turns(base, a, b)[k] == last[k - prev.len()]);
                assert(last[k - prev.len()].source == base[k - prev.len()].source);
            }
        }
    }
}

/// Appends `base` rotated by `turn` steps to `out`.
fn push_turned(out: &mut Vec<WallCopy>, base: &Vec<WallCopy>, turn: u8)
    ensures
        final(out)@ == old(out)@ + turned(base@, turn),
{
    let ghost start = out@;
    let n = base.len();
    let mut k: usize = 0;
    while k < n
        invariant
            n == base@.len(),
            k <= n,
            out@ == start + turned(base@, turn).take(k as int),
        decreases n - k,
    {
        let c = base[k];
        out.push(WallCopy { source: c.source, reflected: c.reflected, turn });
        assert(turned(base@, turn).take(k + 1) =~= turned(base@, turn).take(k as int).push(
            WallCopy { source: c.source, reflected: c.reflected, turn },
        ));
        k = k + 1;
    }
    assert(turned(base@, turn).take(n as int) =~= turned(base@, turn));
}

/// Appends the scene's `n` walls, mirrored or not, to `out`.
fn push_walls(out: &mut Vec<WallCopy>, n: usize, reflected: bool)
    ensures
        final(out)@ == old(out)@ + if reflected { mirrored(n as nat) } else { scene_walls(n as nat) },
{
    let ghost start = out@;
    let ghost part = if reflected { mirrored(n as nat) } else { scene_walls(n as nat) };
    let mut j: usize = 0;
    while j < n
        invariant
            j <= n,
            part == if reflected { mirrored(n as nat) } else { scene_walls(n as nat) },
            out@ == start + part.take(j as int),
        decreases n - j,
    {
        out.push(WallCopy { source: j, reflected, turn: 0 });
        assert(part.take(j + 1) =~= part.take(j as int).push(WallCopy { source: j, reflected, turn: 0 }));
        j = j + 1;
    }
    assert(part.take(n as int) =~= part);
}

/// The walls that the symmetry of `transform` adds to a scene of `wall_count` walls (see
/// `extra_copies`).
pub fn extra_wall_copies(wall_count: usize, transform: &Transform) -> (copies: Vec<WallCopy>)
    ensures
        copies@ == extra_copies(wall_count as nat, *transform),
{
    let mut out: Vec<WallCopy> = Vec::new();
    let mut base: Vec<WallCopy> = Vec::new();
    push_walls(&mut base, wall_count, false);
    if transform.reflection {
        push_walls(&mut out, wall_count, true);
        push_walls(&mut base, wall_count, true);
    }
    assert(out@ =~= mirror_part(wall_count as nat, *transform));
    assert(base@ =~= symmetric_base(wall_count as nat, *transform));
    let rot = transform.rotational_symmetry;
    let mut i: u8 = 1;
    if rot <= 1 {
        assert(turns(base@, 1, rot as int) =~= Seq::<WallCopy>::empty());
        assert(out@ =~= extra_copies(wall_count as nat, *transform));
        return out;
    }
    assert(turns(base@, 1, 1) =~= Seq::<WallCopy>::empty());
    while i < rot
        invariant
            1 <= i <= rot,
            rot == transform.rotational_symmetry,
            base@ == symmetric_base(wall_count as nat, *transform),
            out@ == mirror_part(wall_count as nat, *transform) + turns(base@, 1, i as int),
        decreases rot - i,
    {
        push_turned(&mut out, &base, i);
        assert(turns(base@, 1, i + 1) == turns(base@, 1, i as int) + turned(base@, i));
        assert(out@ =~= mirror_part(wall_count as nat, *transform) + turns(base@, 1, i + 1));
        i = i + 1;
    }
    out
}

/// Every wall of the rendered scene for a scene of `wall_count` walls (see `all_copies`).
pub fn all_wall_copies(wall_count: usize, transform: &Transform) -> (copies: Vec<WallCopy>)
    ensures
        copies@ == all_copies(wall_count as nat, *transform),
{
    let mut out: Vec<WallCopy> = Vec::new();
    push_walls(&mut out, wall_count, false);
    let extras = extra_wall_copies(wall_count, transform);
    let ghost before = out@;
    let n = extras.len();
    let mut k: usize = 0;
    while k < n
        invariant
            n == extras@.len(),
            k <= n,
            out@ == before + extras@.take(k as int),
        decreases n - k,
    {
        out.push(extras[k]);
        assert(extras@.take(k + 1) =~= extras@.take(k as int).push(extras@[k as int]));
        k = k + 1;
    }
    assert(extras@.take(n as int) =~= extras@);
    assert(out@ =~= all_copies(wall_count as nat, *transform));
    out
}

/// The copies of `all_copies` whose scene wall is not hidden, in order: the walls that
/// light interacts with.
pub open spec fn visible_copies(copies: Seq<WallCopy>, hidden: Seq<bool>) -> Seq<WallCopy>
    decreases copies.len(),
{
    if copies.len() == 0 {
        Seq::empty()
    } else {
        let rest = visible_copies(copies.drop_last(), hidden);
        if hidden[copies.last().source as int] {
            rest
        } else {
            rest.push(copies.last())
        }
    }
}

/// The visible copies are exactly the copies whose scene wall is not hidden, whatever their
/// mirroring and rotation: each visible copy is one of `copies` with its wall not hidden, each
/// copy with its wall not hidden is visible, and there are never more visible copies than
/// copies.
pub proof fn lemma_visible_copies_are_unhidden(copies: Seq<WallCopy>, hidden: Seq<bool>)
    requires
        forall|k: int| 0 <= k < copies.len() ==> (#[trigger] copies[k]).source < hidden.len(),
    ensures
        visible_copies(copies, hidden).len() <= copies.len(),
        forall|k: int| 0 <= k < visible_copies(copies, hidden).len() ==> {
            &&& !hidden[(#[trigger] visible_copies(copies, hidden)[k]).source as int]
            &&& copies.contains(visible_copies(copies, hidden)[k])
        },
        forall|k: int| 0 <= k < copies.len() && !hidden[(#[trigger] copies[k]).source as int]
            ==> visible_copies(copies, hidden).contains(copies[k]),
    decreases copies.len(),
{
    if copies.len() > 0 {
        let rest = copies.drop_last();
        assert forall|k: int| 0 <= k < rest.len() implies (#[trigger] rest[k]).source < hidden.len() by {
            assert(rest[k] == copies[k]);
        }
        lemma_visible_copies_are_unhidden(rest, hidden);
        let vr = visible_copies(rest, hidden);
        let v = visible_copies(copies, hidden);
        let last = copies.last();
        assert(last == copies[copies.len() - 1]);
        assert forall|k: int| 0 <= k < v.len() implies {
            &&& !hidden[(#[trigger] v[k]).source as int]
            &&& copies.contains(v[k])
        } by {
            if k < vr.len() {
                assert(v[k] == vr[k]);
                let i = choose|i: int| 0 <= i < rest.len() && rest[i] == vr[k];
                assert(copies[i] == rest[i]);
            } else {
                assert(v[k] == last);
            }
        }
        assert forall|k: int| 0 <= k < copies.len() && !hidden[(#[trigger] copies[k]).source as int]
            implies v.contains(copies[k]) by {
            if k < copies.len() - 1 {
                assert(rest[k] == copies[k]);
                assert(vr.contains(rest[k]));
                let i = choose|i: int| 0 <= i < vr.len() && vr[i] == rest[k];
                assert(v[i] == vr[i]);
            } else {
                assert(v[vr.len() as int] == last);
            }
        }
    }
}

/// The walls of the rendered scene that light interacts with: every copy whose scene wall
/// is not hidden (`hidden[i]` tells whether wall `i` of the scene is).
pub fn visible_wall_copies(transform: &Transform, hidden: &[bool]) -> (copies: Vec<WallCopy>)
    ensures
        copies@ == visible_copies(all_copies(hidden@.len(), *transform), hidden@),
{
    let all = all_wall_copies(hidden.len(), transform);
    proof {
        lemma_copies_name_scene_walls(hidden@.len(), *transform);
    }
    let n = all.len();
    let mut out: Vec<WallCopy> = Vec::new();
    let mut k: usize = 0;
    while k < n
        invariant
            n == all@.len(),
            forall|j: int| 0 <= j < n ==> (#[trigger] all@[j]).source < hidden@.len(),
            k <= n,
            out@ == visible_copies(all@.take(k as int), hidden@),
        decreases n - k,
    {
        let c = all[k];
        assert(all@.take(k + 1).drop_last() =~= all@.take(k as int));
        assert(c.source < hidden@.len());
        if !hidden[c.source] {
            out.push(c);
        }
        k = k + 1;
    }
    assert(all@.take(n as int) =~= all@);
    out
}

} // verus!
