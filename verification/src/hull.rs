//! The layout of a buildable side: a row of doorway slots, each a gap sealed by a
//! removable panel, with solid wall segments filling the rest of the side; and which
//! sides of a walkable room are buildable.
//!
//! Lengths are in world units along the side, measured from its middle. A side of
//! `size` slots is `size` grid units long, every slot centered in its unit.
use vstd::prelude::*;

use crate::build_mode::Facing;
use crate::build_mode::spec_rotated_cw;
use crate::modules::{Footprint, ModuleArchetype, ModuleDef};

verus! {

/// Length of one grid unit.
pub const UNIT_LEN: i64 = 50;

/// Width of a doorway gap.
pub const DOOR_LEN: i64 = 40;

/// Center of slot `i` on a side of `size` slots: evenly spaced one unit apart and
/// centered on the side's middle, `(i + 1/2 - size/2)` units.
pub open spec fn slot_center(size: int, i: int) -> int {
    (2 * i + 1 - size) * (UNIT_LEN / 2)
}

/// Wall segment `k` of a side of `size` slots (`0 <= k <= size`): from the side's start
/// (or the end of gap `k - 1`) to the start of gap `k` (or the side's end).
pub open spec fn wall_span(size: int, k: int) -> (int, int) {
    let start = if k == 0 { -size * (UNIT_LEN / 2) } else { slot_center(size, k - 1) + DOOR_LEN / 2 };
    let end = if k == size { size * (UNIT_LEN / 2) } else { slot_center(size, k) - DOOR_LEN / 2 };
    (start, end)
}

/// Lay out one buildable side of `size` slots: the slot centers in order along the side,
/// and the wall segments between the doorway gaps, in order. A side with no slots has no
/// length and no walls; otherwise there is one wall before each gap and one after the last.
pub fn side_layout(size: u32) -> (r: (Vec<i64>, Vec<(i64, i64)>))
    ensures
        r.0@.len() == size,
        forall|i: int| 0 <= i < size ==> r.0@[i] == slot_center(size as int, i),
        size == 0 ==> r.1@.len() == 0,
        size > 0 ==> r.1@.len() == size + 1,
        size > 0 ==> forall|k: int| 0 <= k <= size ==> (#[trigger] r.1@[k]).0 == wall_span(size as int, k).0
            && r.1@[k].1 == wall_span(size as int, k).1,
{
    let n: i64 = size as i64;
    let half: i64 = UNIT_LEN / 2;
    let mut slots: Vec<i64> = Vec::new();
    let mut walls: Vec<(i64, i64)> = Vec::new();
    if size == 0 {
        return (slots, walls);
    }
    let mut i: u32 = 0;
    while i < size
        invariant
            i <= size,
            n == size as int,
            half == 25,
            slots@.len() == i,
            walls@.len() == i,
            forall|j: int| 0 <= j < i ==> slots@[j] == slot_center(size as int, j),
            forall|k: int| 0 <= k < i ==> (#[trigger] walls@[k]).0 == wall_span(size as int, k).0
                && walls@[k].1 == wall_span(size as int, k).1,
        decreases size - i,
    {
        let ii: i64 = i as i64;
        let center: i64 = (2 * ii + 1 - n) * half;
        let start: i64 = if i == 0 { -n * half } else { (2 * ii - 1 - n) * half + DOOR_LEN / 2 };
        walls.push((start, center - DOOR_LEN / 2));
        slots.push(center);
        i += 1;
    }
    walls.push(((2 * n - 1 - n) * half + DOOR_LEN / 2, n * half));
    (slots, walls)
}

/// The wall segments and doorway gaps of a side tile it end to end: the first wall
/// starts at the side's start, each gap runs from one wall's end to the next wall's
/// start and is one door wide around its slot center, the last wall ends at the side's
/// end, and every wall has positive length.
pub proof fn law_side_tiles(size: int, k: int)
    requires
        size > 0,
        0 <= k <= size,
    ensures
        wall_span(size, 0).0 == -size * (UNIT_LEN / 2),
        wall_span(size, size).1 == size * (UNIT_LEN / 2),
        wall_span(size, k).0 < wall_span(size, k).1,
        k < size ==> wall_span(size, k + 1).0 - wall_span(size, k).1 == DOOR_LEN,
        k < size ==> wall_span(size, k).1 + DOOR_LEN / 2 == slot_center(size, k),
{
}

/// Thickness of a hull wall and of a door panel.
pub const WALL_LEN: i64 = 5;

/// Largest half extent of a body whose sides are laid out (keeps every coordinate far
/// inside `i64`).
pub const MAX_HALF: i64 = 0x1_0000_0000_0000;

/// An axis-aligned rectangle in a body's frame: `x0..x1` by `y0..y1`.
#[derive(PartialEq, Eq, Structural, Clone, Copy, Debug)]
pub struct Rect {
    pub x0: i64,
    pub x1: i64,
    pub y0: i64,
    pub y1: i64,
}

/// One slot of a buildable side: its attach point, on the body's edge, and the door
/// panel that seals its doorway.
#[derive(PartialEq, Eq, Structural, Clone, Copy, Debug)]
pub struct SideSlot {
    pub x: i64,
    pub y: i64,
    pub panel: Rect,
}

/// Everything a buildable side is made of: its slots in order along the side, and the
/// wall segments between the doorways, in order.
#[derive(Debug)]
pub struct SideGeometry {
    pub slots: Vec<SideSlot>,
    pub walls: Vec<Rect>,
}

/// Whether a side facing `f` runs along the x axis (its outward normal is vertical).
pub open spec fn runs_along_x(f: Facing) -> bool {
    f == Facing::PosY || f == Facing::NegY
}

/// `1` for a side facing +x or +y, `-1` for one facing -x or -y.
pub open spec fn outward_sign(f: Facing) -> int {
    if f == Facing::PosY || f == Facing::PosX { 1 } else { -1 }
}

/// The half extent of the body along the side facing `f`, and across it.
pub open spec fn half_along(f: Facing, half_x: int, half_y: int) -> int {
    if runs_along_x(f) { half_x } else { half_y }
}

pub open spec fn half_across(f: Facing, half_x: int, half_y: int) -> int {
    if runs_along_x(f) { half_y } else { half_x }
}

/// The strip a side's panels and walls occupy across it: the wall thickness just inside
/// the body's edge.
pub open spec fn across_strip(f: Facing, ha: int) -> (int, int) {
    if outward_sign(f) == 1 { (ha - WALL_LEN, ha) } else { (-ha, -ha + WALL_LEN) }
}

/// Whether `r` covers `lo..hi` along the side facing `f` and the side's strip across it.
pub open spec fn rect_on_side(r: Rect, f: Facing, ha: int, lo: int, hi: int) -> bool {
    let (a0, a1) = across_strip(f, ha);
    if runs_along_x(f) {
        r.x0 == lo && r.x1 == hi && r.y0 == a0 && r.y1 == a1
    } else {
        r.y0 == lo && r.y1 == hi && r.x0 == a0 && r.x1 == a1
    }
}

/// Slot `i` of a side of `size` slots facing `f` on a body of half extents
/// `(half_x, half_y)`: the attach point sits on the edge (`outward_sign * half across`)
/// at the slot's center along the side, and its panel spans the doorway (one door wide
/// around the center) within the wall strip.
pub open spec fn slot_placed(s: SideSlot, size: int, f: Facing, half_x: int, half_y: int, i: int) -> bool {
    let c = slot_center(size, i);
    let edge = outward_sign(f) * half_across(f, half_x, half_y);
    &&& (if runs_along_x(f) { s.x == c && s.y == edge } else { s.x == edge && s.y == c })
    &&& rect_on_side(s.panel, f, half_across(f, half_x, half_y), c - DOOR_LEN / 2, c + DOOR_LEN / 2)
}

/// The wall runs along a side of `size` slots and half length `l`, over the first `k`
/// doorways: starting at the side's start, each run ends where the next doorway begins
/// (runs of no length are left out), and the cursor then jumps past that doorway.
/// Returns the runs and where the cursor stands.
pub open spec fn wall_runs(size: int, l: int, k: nat) -> (Seq<(int, int)>, int)
    decreases k,
{
    if k == 0 {
        (Seq::empty(), -l)
    } else {
        let (w, cur) = wall_runs(size, l, (k - 1) as nat);
        let gs = slot_center(size, k - 1) - DOOR_LEN / 2;
        let w2 = if gs - cur > 0 { w.push((cur, gs)) } else { w };
        (w2, slot_center(size, k - 1) + DOOR_LEN / 2)
    }
}

/// The wall runs of a whole side: those before each doorway, then the run from the last
/// doorway to the side's end (when it has length).
pub open spec fn side_walls(size: nat, l: int) -> Seq<(int, int)> {
    let (w, cur) = wall_runs(size as int, l, size);
    if l - cur > 0 { w.push((cur, l)) } else { w }
}

/// The runs before the first `k` doorways of a side exactly one unit per slot long.
proof fn lemma_regular_wall_runs(size: int, k: nat)
    requires
        size > 0,
        k <= size,
    ensures
        wall_runs(size, size * (UNIT_LEN / 2), k).0.len() == k,
        forall|j: int| 0 <= j < k ==> #[trigger] wall_runs(size, size * (UNIT_LEN / 2), k).0[j] == wall_span(size, j),
        wall_runs(size, size * (UNIT_LEN / 2), k).1 == if k == 0 {
            -size * (UNIT_LEN / 2)
        } else {
            slot_center(size, k - 1) + DOOR_LEN / 2
        },
    decreases k,
{
    if k > 0 {
        lemma_regular_wall_runs(size, (k - 1) as nat);
    }
}

/// On a body whose side is exactly one unit per slot long (every hull and room), the
/// walls are the ones [`side_layout`] lists: one before each doorway and one after the
/// last, as [`wall_span`] gives them.
pub proof fn law_regular_side_walls(size: nat)
    requires
        size > 0,
    ensures
        side_walls(size, size * (UNIT_LEN / 2)).len() == size + 1,
        forall|k: int| 0 <= k <= size ==> #[trigger] side_walls(size, size * (UNIT_LEN / 2))[k] == wall_span(size as int, k),
{
    lemma_regular_wall_runs(size as int, size);
}

/// Build one buildable side of `size` slots facing `facing` on a body whose half extents
/// are `(half_x, half_y)`: each slot's attach point and door panel, and the solid wall
/// segments filling everything that is not a doorway, all in the body's frame.
pub fn side_geometry(size: u32, half_x: i64, half_y: i64, facing: Facing) -> (r: SideGeometry)
    requires
        0 <= half_x <= MAX_HALF,
        0 <= half_y <= MAX_HALF,
    ensures
        r.slots@.len() == size,
        forall|i: int| 0 <= i < size ==> slot_placed(#[trigger] r.slots@[i], size as int, facing, half_x as int, half_y as int, i),
        r.walls@.len() == side_walls(size as nat, half_along(facing, half_x as int, half_y as int)).len(),
        forall|k: int| 0 <= k < r.walls@.len() ==> rect_on_side(
            #[trigger] r.walls@[k],
            facing,
            half_across(facing, half_x as int, half_y as int),
            side_walls(size as nat, half_along(facing, half_x as int, half_y as int))[k].0,
            side_walls(size as nat, half_along(facing, half_x as int, half_y as int))[k].1,
        ),
{
    let along_x = match facing {
        Facing::PosY | Facing::NegY => true,
        _ => false,
    };
    let positive = match facing {
        Facing::PosY | Facing::PosX => true,
        _ => false,
    };
    let l: i64 = if along_x { half_x } else { half_y };
    let ha: i64 = if along_x { half_y } else { half_x };
    let edge: i64 = if positive { ha } else { -ha };
    let a0: i64 = if positive { ha - WALL_LEN } else { -ha };
    let a1: i64 = if positive { ha } else { -ha + WALL_LEN };
    let ghost gl = half_along(facing, half_x as int, half_y as int);
    let ghost gha = half_across(facing, half_x as int, half_y as int);
    assert(l == gl && ha == gha);
    assert((a0 as int, a1 as int) == across_strip(facing, gha));
    let n: i64 = size as i64;
    let mut slots: Vec<SideSlot> = Vec::new();
    let mut walls: Vec<Rect> = Vec::new();
    let mut cur: i64 = -l;
    let mut i: u32 = 0;
    while i < size
        invariant
            i <= size,
            n == size as int,
            l == gl,
            ha == gha,
            gl == half_along(facing, half_x as int, half_y as int),
            gha == half_across(facing, half_x as int, half_y as int),
            0 <= l <= MAX_HALF,
            0 <= ha <= MAX_HALF,
            along_x == runs_along_x(facing),
            edge == outward_sign(facing) * gha,
            (a0 as int, a1 as int) == across_strip(facing, gha),
            slots@.len() == i,
            forall|j: int| 0 <= j < i ==> slot_placed(#[trigger] slots@[j], size as int, facing, half_x as int, half_y as int, j),
            cur as int == wall_runs(size as int, gl, i as nat).1,
            walls@.len() == wall_runs(size as int, gl, i as nat).0.len(),
            forall|k: int| 0 <= k < walls@.len() ==> rect_on_side(
                #[trigger] walls@[k],
                facing,
                gha,
                wall_runs(size as int, gl, i as nat).0[k].0,
                wall_runs(size as int, gl, i as nat).0[k].1,
            ),
            -MAX_HALF <= cur <= 25 * n + 20,
        decreases size - i,
    {
        let ii: i64 = i as i64;
        let c: i64 = (2 * ii + 1 - n) * (UNIT_LEN / 2);
        let lo: i64 = c - DOOR_LEN / 2;
        let hi: i64 = c + DOOR_LEN / 2;
        let panel = if along_x {
            Rect { x0: lo, x1: hi, y0: a0, y1: a1 }
        } else {
            Rect { x0: a0, x1: a1, y0: lo, y1: hi }
        };
        let slot = if along_x {
            SideSlot { x: c, y: edge, panel }
        } else {
            SideSlot { x: edge, y: c, panel }
        };
        let ghost before = walls@;
        if lo - cur > 0 {
            let wall = if along_x {
                Rect { x0: cur, x1: lo, y0: a0, y1: a1 }
            } else {
                Rect { x0: a0, x1: a1, y0: cur, y1: lo }
            };
            walls.push(wall);
            assert forall|k: int| 0 <= k < walls@.len() implies rect_on_side(
                #[trigger] walls@[k],
                facing,
                gha,
                wall_runs(size as int, gl, (i + 1) as nat).0[k].0,
                wall_runs(size as int, gl, (i + 1) as nat).0[k].1,
            ) by {
                if k < before.len() {
                    assert(walls@[k] == before[k]);
                }
            }
        } else {
            assert forall|k: int| 0 <= k < walls@.len() implies rect_on_side(
                #[trigger] walls@[k],
                facing,
                gha,
                wall_runs(size as int, gl, (i + 1) as nat).0[k].0,
                wall_runs(size as int, gl, (i + 1) as nat).0[k].1,
            ) by {}
        }
        cur = hi;
        slots.push(slot);
        i += 1;
    }
    let ghost before = walls@;
    if l - cur > 0 {
        let wall = if along_x {
            Rect { x0: cur, x1: l, y0: a0, y1: a1 }
        } else {
            Rect { x0: a0, x1: a1, y0: cur, y1: l }
        };
        walls.push(wall);
        assert forall|k: int| 0 <= k < walls@.len() implies rect_on_side(
            #[trigger] walls@[k],
            facing,
            gha,
            side_walls(size as nat, gl)[k].0,
            side_walls(size as nat, gl)[k].1,
        ) by {
            if k < before.len() {
                assert(walls@[k] == before[k]);
            }
        }
    }
    SideGeometry { slots, walls }
}

/// What one side of a walkable room is.
#[derive(PartialEq, Eq, Structural, Clone, Copy, Debug)]
pub enum RoomSide {
    /// The side facing the parent body: open, it is the doorway the room is entered by.
    Open,
    /// A buildable side exposing this many slots.
    Buildable(u32),
    /// A plain solid wall.
    Solid,
}

/// The facing opposite `f`.
pub open spec fn opposite(f: Facing) -> Facing {
    match f {
        Facing::PosY => Facing::NegY,
        Facing::NegY => Facing::PosY,
        Facing::PosX => Facing::NegX,
        Facing::NegX => Facing::PosX,
    }
}

/// The side `normal` of a room mounted outward along `direction`: the side back toward
/// the parent is open; the outward end is buildable with `width` slots; the long sides
/// are buildable with `depth` slots when the room is square and solid walls otherwise.
pub fn room_side(footprint: Footprint, direction: Facing, normal: Facing) -> (r: RoomSide)
    ensures
        r == (if normal == opposite(direction) {
            RoomSide::Open
        } else if normal == direction {
            RoomSide::Buildable(footprint.width)
        } else if footprint.width == footprint.depth {
            RoomSide::Buildable(footprint.depth)
        } else {
            RoomSide::Solid
        }),
{
    let back = match direction {
        Facing::PosY => Facing::NegY,
        Facing::NegY => Facing::PosY,
        Facing::PosX => Facing::NegX,
        Facing::NegX => Facing::PosX,
    };
    if normal == back {
        RoomSide::Open
    } else if normal == direction {
        RoomSide::Buildable(footprint.width)
    } else if footprint.is_square() {
        RoomSide::Buildable(footprint.depth)
    } else {
        RoomSide::Solid
    }
}

/// The size of a module's footprint in world units, as `(x, y)`, when it extends along
/// `outward`: depth runs along `outward` and width across it.
pub fn footprint_extent(footprint: Footprint, outward: Facing) -> (r: (i64, i64))
    ensures
        outward == Facing::PosX || outward == Facing::NegX ==> r.0 == footprint.depth * UNIT_LEN
            && r.1 == footprint.width * UNIT_LEN,
        outward == Facing::PosY || outward == Facing::NegY ==> r.0 == footprint.width * UNIT_LEN
            && r.1 == footprint.depth * UNIT_LEN,
{
    let w: i64 = footprint.width as i64 * UNIT_LEN;
    let d: i64 = footprint.depth as i64 * UNIT_LEN;
    match outward {
        Facing::PosX | Facing::NegX => (d, w),
        _ => (w, d),
    }
}

/// The attach points shown on a module's placement preview, in the module's frame with
/// +y outward: one per width unit along the connecting edge (`y = -depth/2`), and, for a
/// walkable module, one per width unit along the outward end (`y = +depth/2`).
pub fn preview_points(def: &ModuleDef) -> (r: Vec<(i64, i64)>)
    ensures
        ({
            let w = def.footprint.width as int;
            let hy = def.footprint.depth * (UNIT_LEN / 2);
            &&& r@.len() == if def.archetype is Room { 2 * w } else { w }
            &&& forall|i: int| 0 <= i < w ==> #[trigger] r@[i] == (slot_center(w, i) as i64, -hy as i64)
            &&& def.archetype is Room ==> forall|i: int| 0 <= i < w ==> #[trigger] r@[w + i] == (
                slot_center(w, i) as i64,
                hy as i64,
            )
        }),
{
    let w: i64 = def.footprint.width as i64;
    let hy: i64 = def.footprint.depth as i64 * (UNIT_LEN / 2);
    let half: i64 = UNIT_LEN / 2;
    let mut r: Vec<(i64, i64)> = Vec::new();
    let mut i: u32 = 0;
    while i < def.footprint.width
        invariant
            i <= def.footprint.width,
            w == def.footprint.width,
            hy == def.footprint.depth * 25,
            half == 25,
            r@.len() == i,
            forall|j: int| 0 <= j < i ==> #[trigger] r@[j] == (slot_center(w as int, j) as i64, -hy as i64),
        decreases def.footprint.width - i,
    {
        let ii: i64 = i as i64;
        r.push(((2 * ii + 1 - w) * half, -hy));
        i += 1;
    }
    if def.walkable() {
        let mut k: u32 = 0;
        while k < def.footprint.width
            invariant
                k <= def.footprint.width,
                w == def.footprint.width,
                hy == def.footprint.depth * 25,
                half == 25,
                r@.len() == w + k,
                forall|j: int| 0 <= j < w ==> #[trigger] r@[j] == (slot_center(w as int, j) as i64, -hy as i64),
                forall|j: int| 0 <= j < k ==> #[trigger] r@[w + j] == (slot_center(w as int, j) as i64, hy as i64),
            decreases def.footprint.width - k,
        {
            let kk: i64 = k as i64;
            r.push(((2 * kk + 1 - w) * half, hy));
            k += 1;
        }
    }
    r
}

/// The directions a thruster module mounted facing `outward` pushes its ship: inward
/// (against its exhaust) and, for a maneuvering cluster, both laterals, the clockwise
/// quarter turn of `outward` first. `None` when the module has no thrust.
pub open spec fn spec_thrust_directions(def: ModuleDef, outward: Facing) -> Option<Seq<Facing>> {
    match def.thrust {
        None => None,
        Some(t) => if t.lateral {
            Some(seq![opposite(outward), spec_rotated_cw(outward), opposite(spec_rotated_cw(outward))])
        } else {
            Some(seq![opposite(outward)])
        },
    }
}

/// The push directions of a thruster module (see [`spec_thrust_directions`]).
pub fn thrust_directions(def: &ModuleDef, outward: Facing) -> (r: Option<Vec<Facing>>)
    ensures
        match spec_thrust_directions(*def, outward) {
            None => r is None,
            Some(dirs) => r matches Some(v) && v@ == dirs,
        },
{
    let inward = match outward {
        Facing::PosY => Facing::NegY,
        Facing::NegY => Facing::PosY,
        Facing::PosX => Facing::NegX,
        Facing::NegX => Facing::PosX,
    };
    match def.thrust {
        None => None,
        Some(t) => {
            let mut dirs: Vec<Facing> = Vec::new();
            dirs.push(inward);
            if t.lateral {
                let side = outward.rotated_cw();
                let other = match side {
                    Facing::PosY => Facing::NegY,
                    Facing::NegY => Facing::PosY,
                    Facing::PosX => Facing::NegX,
                    Facing::NegX => Facing::PosX,
                };
                dirs.push(side);
                dirs.push(other);
            }
            Some(dirs)
        },
    }
}

/// A thruster never pushes its ship outward (into its own exhaust), and its push
/// directions are distinct.
pub proof fn law_thrust_directions(def: ModuleDef, outward: Facing)
    requires
        def.thrust is Some,
    ensures
        spec_thrust_directions(def, outward) is Some,
        !spec_thrust_directions(def, outward).unwrap().contains(outward),
        spec_thrust_directions(def, outward).unwrap().no_duplicates(),
{
    let dirs = spec_thrust_directions(def, outward).unwrap();
    if dirs.contains(outward) {
        let i = choose|i: int| 0 <= i < dirs.len() && dirs[i] == outward;
        assert(dirs[i] == outward);
    }
}

} // verus!
