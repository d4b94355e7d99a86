//! The space station's layout, built from standard modules: docking arms at the ends of
//! a hub side with two-wide cargo holds between, an equipment bank on another side, and
//! corridors of hallways capped by a dock.
use vstd::prelude::*;

use crate::build_mode::Facing;
use crate::modules::ModuleKind;
use crate::turret::TurretKind;

verus! {

/// The station's central hub is this many cells on a side.
pub const HUB_SIZE: u32 = 10;

/// Length (in hallway segments) of each docking arm reaching out from the hub.
pub const ARM_SEGMENTS: u32 = 5;

/// The slots of a berthing side of `n` slots that get a docking arm: the first and, if
/// there is more than one slot, the last.
pub open spec fn spec_dock_slots(n: usize) -> Seq<usize> {
    if n == 0 {
        Seq::empty()
    } else if n == 1 {
        seq![0usize]
    } else {
        seq![0usize, (n - 1) as usize]
    }
}

/// The first slots of the two-wide cargo holds of a berthing side of `n` slots: 1, 3,
/// 5, ... while below `n - 2` (or 0 when `n < 2`).
pub open spec fn cargo_start(q: int) -> int {
    2 * q + 1
}

/// The layout of one berthing side of `n` slots: the slots that get a docking arm, and
/// the first slot of each cargo hold (which also takes the slot after it).
pub fn berth_layout(n: usize) -> (r: (Vec<usize>, Vec<usize>))
    ensures
        r.0@ == spec_dock_slots(n),
        forall|q: int| 0 <= q < r.1@.len() ==> (#[trigger] r.1@[q]) == cargo_start(q) && cargo_start(q) + 2 < n,
        cargo_start(r.1@.len() as int) + 2 >= n,
{
    let mut docks: Vec<usize> = Vec::new();
    if n > 0 {
        docks.push(0);
        if n > 1 {
            docks.push(n - 1);
        }
    }
    assert(docks@ =~= spec_dock_slots(n));
    let mut holds: Vec<usize> = Vec::new();
    let limit: usize = if n >= 2 { n - 2 } else { 0 };
    let mut i: usize = 1;
    while i < limit
        invariant
            limit == (if n >= 2 { n - 2 } else { 0 }),
            i <= limit + 1,
            i == cargo_start(holds@.len() as int),
            forall|q: int| 0 <= q < holds@.len() ==> holds@[q] == cargo_start(q) && cargo_start(q) + 2 < n,
        decreases limit + 1 - i,
    {
        holds.push(i);
        i += 2;
    }
    (docks, holds)
}

/// A berthing side never uses a slot twice and stays on the side: the docks, and the two
/// slots of each cargo hold, are distinct slots below `n`.
#[verifier::spinoff_prover]
pub proof fn law_berth_slots_disjoint(n: usize, holds: Seq<usize>)
    requires
        forall|q: int| 0 <= q < holds.len() ==> (#[trigger] holds[q]) == cargo_start(q) && cargo_start(q) + 2 < n,
    ensures
        forall|d: int| 0 <= d < spec_dock_slots(n).len() ==> spec_dock_slots(n)[d] < n,
        forall|q: int, d: int| 0 <= q < holds.len() && 0 <= d < spec_dock_slots(n).len() ==> holds[q] != spec_dock_slots(n)[d]
            && holds[q] + 1 != spec_dock_slots(n)[d],
        forall|p: int, q: int| 0 <= p < q < holds.len() ==> holds[p] + 1 < holds[q],
        forall|q: int| 0 <= q < holds.len() ==> holds[q] + 1 < n,
{
    let d = spec_dock_slots(n);
    assert forall|q: int, e: int| 0 <= q < holds.len() && 0 <= e < d.len() implies holds[q] != d[e] && holds[q] + 1 != d[e] by {
        let h = holds[q];
        assert(h == 2 * q + 1);
        assert(2 * q + 3 < n);
        if n >= 2 {
            assert(d =~= seq![0usize, (n - 1) as usize]);
        } else {
            assert(d =~= seq![0usize]);
        }
    }
}

/// The module of an equipment bank's slot `i`: engine, turret, sensor, repeating.
pub fn equipment_kind(i: usize) -> (k: ModuleKind)
    ensures
        k == equipment_kind_of(i),
{
    match i % 3 {
        0 => ModuleKind::Engine,
        1 => ModuleKind::Turret,
        _ => ModuleKind::Sensor,
    }
}

/// The modules of a docking arm of `segments` hallways, in mounting order: the hallways,
/// then the dock that caps it.
pub fn corridor_modules(segments: u32) -> (r: Vec<ModuleKind>)
    requires
        segments >= 1,
    ensures
        r@.len() == segments + 1,
        forall|q: int| 0 <= q < segments ==> r@[q] == ModuleKind::Hallway,
        r@[segments as int] == ModuleKind::Dock,
{
    let mut r: Vec<ModuleKind> = Vec::new();
    let mut s: u32 = 0;
    while s < segments
        invariant
            s <= segments,
            r@.len() == s,
            forall|q: int| 0 <= q < s ==> r@[q] == ModuleKind::Hallway,
        decreases segments - s,
    {
        r.push(ModuleKind::Hallway);
        s += 1;
    }
    r.push(ModuleKind::Dock);
    r
}

/// How many of a far side's slots a module of `width` takes when chained on: its
/// leading `width` slots, or all of them if there are fewer.
pub fn far_slot_count(side_len: usize, width: u32) -> (r: usize)
    ensures
        r == if (width as int) < side_len { width as int } else { side_len as int },
{
    if (width as usize) < side_len {
        width as usize
    } else {
        side_len
    }
}

/// What a side of the station hub is fitted with.
#[derive(PartialEq, Eq, Structural, Clone, Copy, Debug)]
pub enum HubSide {
    /// Berths ships: a docking arm at each end with cargo holds between
    /// ([`berth_layout`]).
    Berth,
    /// The equipment bank: engines, turret mounts and sensors in turn
    /// ([`equipment_kind`]).
    Equipment,
}

/// The fit-out of each hub side: the east side (+x) is the equipment bank, and the
/// other three berth ships.
pub fn hub_side(side: Facing) -> (r: HubSide)
    ensures
        r == (if side == Facing::PosX { HubSide::Equipment } else { HubSide::Berth }),
{
    match side {
        Facing::PosX => HubSide::Equipment,
        _ => HubSide::Berth,
    }
}

/// The weapon on equipment-bank slot `i`: every turret mount of the bank carries a
/// cannon; the other slots carry none.
pub fn equipment_weapon(i: usize) -> (r: Option<TurretKind>)
    ensures
        r == (if i % 3 == 1 { Some(TurretKind::Cannon) } else { None::<TurretKind> }),
        r is Some <==> equipment_kind_of(i) == ModuleKind::Turret,
{
    if i % 3 == 1 {
        Some(TurretKind::Cannon)
    } else {
        None
    }
}

/// The module of equipment-bank slot `i` (see [`equipment_kind`]).
pub open spec fn equipment_kind_of(i: usize) -> ModuleKind {
    if i % 3 == 0 {
        ModuleKind::Engine
    } else if i % 3 == 1 {
        ModuleKind::Turret
    } else {
        ModuleKind::Sensor
    }
}

} // verus!
