//! Turret kinds, their fire arcs, and the automatic target choice.
use vstd::prelude::*;

use crate::faction::Faction;
use crate::registry::{lookup, Registry, RegistryKey};

verus! {

/// A turret's role; the stable id of a turret weapon.
#[derive(PartialEq, Eq, Structural, Clone, Copy, Debug, Hash)]
pub enum TurretKind {
    /// A regular gun: auto-tracks and shoots enemy ships.
    Cannon,
    /// Point-defense: fires at incoming enemy projectiles, not ships.
    PointDefense,
    /// A player-aimed gun; never auto-targeted.
    PlayerCannon,
}

impl RegistryKey for TurretKind {
    fn same_key(&self, other: &Self) -> (r: bool) {
        *self == *other
    }
}

impl TurretKind {
    /// The weapon's display name.
    pub fn name(self) -> (r: &'static str)
        ensures
            r == spec_turret_name(self),
    {
        match self {
            TurretKind::Cannon => "Cannon",
            TurretKind::PointDefense => "Point-defense",
            TurretKind::PlayerCannon => "Player cannon",
        }
    }
}

/// The display name of each turret kind.
pub open spec fn spec_turret_name(kind: TurretKind) -> &'static str {
    match kind {
        TurretKind::Cannon => "Cannon",
        TurretKind::PointDefense => "Point-defense",
        TurretKind::PlayerCannon => "Player cannon",
    }
}

/// Whether a turret can fire over its own ship.
#[derive(PartialEq, Eq, Structural, Clone, Copy, Debug)]
pub enum FireArc {
    /// Mounted high / on a free arc: fires from any angle, even across its own hull.
    OverShip,
    /// Mounted on the hull: a shot is suppressed when its line would cross its own ship.
    Hull,
}

impl FireArc {
    /// The arc's display name.
    pub fn name(self) -> (r: &'static str)
        ensures
            r == spec_arc_name(self),
    {
        match self {
            FireArc::OverShip => "Over-ship",
            FireArc::Hull => "Hull",
        }
    }
}

/// The display name of each fire arc.
pub open spec fn spec_arc_name(arc: FireArc) -> &'static str {
    match arc {
        FireArc::OverShip => "Over-ship",
        FireArc::Hull => "Hull",
    }
}

/// The target an untargeted turret locks onto: only auto cannons lock ship targets, and
/// a cannon takes the first candidate (in `candidates` order) of another faction.
/// `None` when the turret is not a cannon or no candidate is hostile.
pub fn select_target(kind: TurretKind, faction: Faction, candidates: &Vec<Faction>) -> (r: Option<usize>)
    ensures
        kind != TurretKind::Cannon ==> r is None,
        kind == TurretKind::Cannon ==> match r {
            Some(t) => t < candidates@.len() && candidates@[t as int] != faction
                && forall|s: int| 0 <= s < t ==> candidates@[s] == faction,
            None => forall|s: int| 0 <= s < candidates@.len() ==> candidates@[s] == faction,
        },
{
    if !(kind == TurretKind::Cannon) {
        return None;
    }
    let mut t: usize = 0;
    while t < candidates.len()
        invariant
            t <= candidates@.len(),
            kind == TurretKind::Cannon,
            forall|s: int| 0 <= s < t ==> candidates@[s] == faction,
        decreases candidates@.len() - t,
    {
        if candidates[t] != faction {
            return Some(t);
        }
        t += 1;
    }
    None
}

/// Which barrel mesh a turret uses.
#[derive(PartialEq, Eq, Structural, Clone, Copy, Debug)]
pub enum TurretMesh {
    /// Round base with one long barrel.
    Cannon,
    /// Small round base with twin short barrels.
    TwinBarrel,
}

/// The static, per-kind definition of a turret weapon: its id, name, fire arc and
/// mesh. (Its ballistics and tint are tuning numbers kept beside the renderer.)
#[derive(Clone, Copy, Debug)]
pub struct TurretDef {
    pub kind: TurretKind,
    pub name: &'static str,
    pub arc: FireArc,
    pub mesh: TurretMesh,
}

/// The authored definition of each turret kind: the cannon and point-defense fire over
/// the ship, the player cannon is hull-mounted (always checked against its own ship);
/// point-defense has twin barrels.
pub open spec fn turret_def_of(kind: TurretKind) -> TurretDef {
    match kind {
        TurretKind::Cannon => TurretDef { kind, name: "Cannon", arc: FireArc::OverShip, mesh: TurretMesh::Cannon },
        TurretKind::PointDefense => TurretDef {
            kind,
            name: "Point-defense",
            arc: FireArc::OverShip,
            mesh: TurretMesh::TwinBarrel,
        },
        TurretKind::PlayerCannon => TurretDef { kind, name: "Player cannon", arc: FireArc::Hull, mesh: TurretMesh::Cannon },
    }
}

/// The authored turret kinds, in table order.
pub open spec fn authored_turrets() -> Seq<TurretKind> {
    seq![TurretKind::Cannon, TurretKind::PointDefense, TurretKind::PlayerCannon]
}

/// The authored definition of `kind`.
pub fn turret_def(kind: TurretKind) -> (r: TurretDef)
    ensures
        r == turret_def_of(kind),
{
    match kind {
        TurretKind::Cannon => TurretDef { kind, name: "Cannon", arc: FireArc::OverShip, mesh: TurretMesh::Cannon },
        TurretKind::PointDefense => TurretDef {
            kind,
            name: "Point-defense",
            arc: FireArc::OverShip,
            mesh: TurretMesh::TwinBarrel,
        },
        TurretKind::PlayerCannon => TurretDef { kind, name: "Player cannon", arc: FireArc::Hull, mesh: TurretMesh::Cannon },
    }
}

/// The authored turret definitions, one per kind, in table order.
pub fn turret_defs() -> (defs: Vec<TurretDef>)
    ensures
        defs@.len() == authored_turrets().len(),
        forall|i: int| 0 <= i < defs@.len() ==> #[trigger] defs@[i] == turret_def_of(authored_turrets()[i]),
{
    let mut defs: Vec<TurretDef> = Vec::new();
    defs.push(turret_def(TurretKind::Cannon));
    defs.push(turret_def(TurretKind::PointDefense));
    defs.push(turret_def(TurretKind::PlayerCannon));
    defs
}

/// The turret content registry: every turret definition keyed by its kind.
pub type TurretRegistry = Registry<TurretKind, TurretDef>;

/// The turret registry built from the authored definitions; every kind has its def.
pub fn turret_registry() -> (r: TurretRegistry)
    ensures
        forall|k: TurretKind| #[trigger] r.spec_get(k) == Some(turret_def_of(k)),
{
    let defs = turret_defs();
    let mut entries: Vec<(TurretKind, TurretDef)> = Vec::new();
    let mut i: usize = 0;
    while i < defs.len()
        invariant
            i <= defs@.len(),
            defs@.len() == authored_turrets().len(),
            forall|j: int| 0 <= j < defs@.len() ==> #[trigger] defs@[j] == turret_def_of(authored_turrets()[j]),
            entries@.len() == i,
            forall|j: int| 0 <= j < i ==> #[trigger] entries@[j] == (authored_turrets()[j], turret_def_of(authored_turrets()[j])),
        decreases defs@.len() - i,
    {
        let d = defs[i];
        entries.push((d.kind, d));
        i += 1;
    }
    let r = Registry::new(entries);
    assert forall|k: TurretKind| #[trigger] r.spec_get(k) == Some(turret_def_of(k)) by {
        let e = entries@;
        assert(e.drop_last().drop_last().drop_last().len() == 0);
        reveal_with_fuel(lookup, 4);
        assert(e[0] == (TurretKind::Cannon, turret_def_of(TurretKind::Cannon)));
        assert(e[1] == (TurretKind::PointDefense, turret_def_of(TurretKind::PointDefense)));
        assert(e[2] == (TurretKind::PlayerCannon, turret_def_of(TurretKind::PlayerCannon)));
        assert(e.drop_last().last() == e[1]);
        assert(e.drop_last().drop_last().last() == e[0]);
    }
    r
}

/// An installed turret weapon: which def it is, and (for twin barrels) which barrel
/// fires next.
#[derive(PartialEq, Eq, Structural, Clone, Copy, Debug)]
pub struct Turret {
    kind: TurretKind,
    next_barrel: bool,
}

impl Turret {
    /// A freshly installed turret of `kind`; the left barrel fires first.
    pub fn new(kind: TurretKind) -> (r: Turret)
        ensures
            r.spec_kind() == kind,
            !r.next_barrel_is_right(),
    {
        Turret { kind, next_barrel: false }
    }

    /// The installed weapon's kind.
    pub closed spec fn spec_kind(&self) -> TurretKind {
        self.kind
    }

    /// Whether the right-hand barrel fires next.
    pub closed spec fn next_barrel_is_right(&self) -> bool {
        self.next_barrel
    }

    /// The installed weapon's kind.
    pub fn kind(&self) -> (r: TurretKind)
        ensures
            r == self.spec_kind(),
    {
        self.kind
    }

    /// Fire the barrel that is up next and hand the next shot to the other one: returns
    /// the side the round leaves from, `1` for the right barrel and `-1` for the left.
    pub fn fire_barrel(&mut self) -> (side: i8)
        ensures
            side == (if old(self).next_barrel_is_right() { 1i8 } else { -1i8 }),
            final(self).next_barrel_is_right() == !old(self).next_barrel_is_right(),
            final(self).spec_kind() == old(self).spec_kind(),
    {
        let side: i8 = if self.next_barrel { 1 } else { -1 };
        self.next_barrel = !self.next_barrel;
        side
    }
}

} // verus!
