//! The authored fit-out of the player's starting ship: which module sits on which slot
//! of which hull side, and which weapon each turret mount carries.
use vstd::prelude::*;

use crate::build_mode::Facing;
use crate::hull::spec_thrust_directions;
use crate::modules::{module_def_of, ModuleKind};
use crate::turret::{FireArc, TurretKind};

verus! {

/// Slots per side of the player's hull.
pub const SHIP_SIDE_SLOTS: usize = 3;

/// The weapon a turret mount carries: its kind and fire arc.
#[derive(PartialEq, Eq, Structural, Clone, Copy, Debug)]
pub struct Weapon {
    pub kind: TurretKind,
    pub arc: FireArc,
}

/// One module mounted on a hull slot, with its weapon when it is a turret mount.
#[derive(PartialEq, Eq, Structural, Clone, Copy, Debug)]
pub struct Placement {
    pub side: Facing,
    pub slot: usize,
    pub kind: ModuleKind,
    pub turret: Option<Weapon>,
}

/// The starting ship, side by side: below, the main engine in the middle and a cannon to
/// its left; above, the player's own gun in the middle between two maneuvering
/// thrusters; to the right, the cockpit; to the left, the docking port with a
/// point-defense turret beside it.
pub open spec fn player_ship_placements() -> Seq<Placement> {
    seq![
        Placement { side: Facing::NegY, slot: 1, kind: ModuleKind::Engine, turret: None },
        Placement {
            side: Facing::NegY,
            slot: 0,
            kind: ModuleKind::Turret,
            turret: Some(Weapon { kind: TurretKind::Cannon, arc: FireArc::OverShip }),
        },
        Placement {
            side: Facing::PosY,
            slot: 1,
            kind: ModuleKind::Turret,
            turret: Some(Weapon { kind: TurretKind::PlayerCannon, arc: FireArc::Hull }),
        },
        Placement { side: Facing::PosY, slot: 0, kind: ModuleKind::Thruster, turret: None },
        Placement { side: Facing::PosY, slot: 2, kind: ModuleKind::Thruster, turret: None },
        Placement { side: Facing::PosX, slot: 1, kind: ModuleKind::Cockpit, turret: None },
        Placement { side: Facing::NegX, slot: 1, kind: ModuleKind::Dock, turret: None },
        Placement {
            side: Facing::NegX,
            slot: 0,
            kind: ModuleKind::Turret,
            turret: Some(Weapon { kind: TurretKind::PointDefense, arc: FireArc::OverShip }),
        },
    ]
}

/// The starting ship's placements, in mounting order.
pub fn player_ship_layout() -> (r: Vec<Placement>)
    ensures
        r@ == player_ship_placements(),
{
    let mut r: Vec<Placement> = Vec::new();
    r.push(Placement { side: Facing::NegY, slot: 1, kind: ModuleKind::Engine, turret: None });
    r.push(
        Placement {
            side: Facing::NegY,
            slot: 0,
            kind: ModuleKind::Turret,
            turret: Some(Weapon { kind: TurretKind::Cannon, arc: FireArc::OverShip }),
        },
    );
    r.push(
        Placement {
            side: Facing::PosY,
            slot: 1,
            kind: ModuleKind::Turret,
            turret: Some(Weapon { kind: TurretKind::PlayerCannon, arc: FireArc::Hull }),
        },
    );
    r.push(Placement { side: Facing::PosY, slot: 0, kind: ModuleKind::Thruster, turret: None });
    r.push(Placement { side: Facing::PosY, slot: 2, kind: ModuleKind::Thruster, turret: None });
    r.push(Placement { side: Facing::PosX, slot: 1, kind: ModuleKind::Cockpit, turret: None });
    r.push(Placement { side: Facing::NegX, slot: 1, kind: ModuleKind::Dock, turret: None });
    r.push(
        Placement {
            side: Facing::NegX,
            slot: 0,
            kind: ModuleKind::Turret,
            turret: Some(Weapon { kind: TurretKind::PointDefense, arc: FireArc::OverShip }),
        },
    );
    assert(r@ =~= player_ship_placements());
    r
}

/// The starting ship is a valid fit-out: every module is on a slot of its side, no two
/// modules share a slot, exactly the turret mounts carry a weapon, and the ship has a
/// cockpit to fly it from and a docking port.
pub proof fn law_player_ship_fits()
    ensures
        forall|i: int| 0 <= i < player_ship_placements().len() ==> (#[trigger] player_ship_placements()[i]).slot < SHIP_SIDE_SLOTS,
        forall|i: int, j: int|
            0 <= i < j < player_ship_placements().len() ==> !(#[trigger] player_ship_placements()[i].side
                == #[trigger] player_ship_placements()[j].side && player_ship_placements()[i].slot
                == player_ship_placements()[j].slot),
        forall|i: int| 0 <= i < player_ship_placements().len() ==> ((#[trigger] player_ship_placements()[i]).turret is Some
            <==> player_ship_placements()[i].kind == ModuleKind::Turret),
        exists|i: int| 0 <= i < player_ship_placements().len() && #[trigger] player_ship_placements()[i].kind == ModuleKind::Cockpit,
        exists|i: int| 0 <= i < player_ship_placements().len() && #[trigger] player_ship_placements()[i].kind == ModuleKind::Dock,
{
    let p = player_ship_placements();
    assert(p[5].kind == ModuleKind::Cockpit);
    assert(p[6].kind == ModuleKind::Dock);
}

/// Whether some module of the starting ship pushes it toward `dir`.
pub open spec fn ship_can_push(dir: Facing) -> bool {
    exists|i: int|
        0 <= i < player_ship_placements().len() && (#[trigger] spec_thrust_directions(
            module_def_of(player_ship_placements()[i].kind),
            player_ship_placements()[i].side,
        ) matches Some(dirs) && dirs.contains(dir))
}

/// The starting ship's propulsion: its one main engine sits in the middle of the rear
/// (below), its two maneuvering thrusters on the front corners, and no other module
/// pushes; so it can accelerate forward, brake back, and strafe either way.
pub proof fn law_player_ship_propulsion()
    ensures
        forall|i: int| 0 <= i < player_ship_placements().len() ==> ((#[trigger] player_ship_placements()[i]).kind
            == ModuleKind::Engine <==> (player_ship_placements()[i].side == Facing::NegY && player_ship_placements()[i].slot == 1)),
        forall|i: int| 0 <= i < player_ship_placements().len() ==> ((#[trigger] player_ship_placements()[i]).kind
            == ModuleKind::Thruster <==> (player_ship_placements()[i].side == Facing::PosY && (player_ship_placements()[i].slot == 0
            || player_ship_placements()[i].slot == 2))),
        exists|i: int| 0 <= i < player_ship_placements().len() && #[trigger] player_ship_placements()[i].kind == ModuleKind::Engine,
        exists|i: int| 0 <= i < player_ship_placements().len() && (#[trigger] player_ship_placements()[i]).kind == ModuleKind::Thruster
            && player_ship_placements()[i].slot == 0,
        exists|i: int| 0 <= i < player_ship_placements().len() && (#[trigger] player_ship_placements()[i]).kind == ModuleKind::Thruster
            && player_ship_placements()[i].slot == 2,
        ship_can_push(Facing::PosY),
        ship_can_push(Facing::NegY),
        ship_can_push(Facing::PosX),
        ship_can_push(Facing::NegX),
{
    let p = player_ship_placements();
    assert(p[0].kind == ModuleKind::Engine);
    assert(p[3].kind == ModuleKind::Thruster && p[3].slot == 0);
    assert(p[4].kind == ModuleKind::Thruster && p[4].slot == 2);
    let engine = spec_thrust_directions(module_def_of(p[0].kind), p[0].side);
    assert(engine == Some(seq![Facing::PosY]));
    assert(engine.unwrap()[0] == Facing::PosY);
    let lateral = spec_thrust_directions(module_def_of(p[3].kind), p[3].side);
    assert(lateral == Some(seq![Facing::NegY, Facing::PosX, Facing::NegX]));
    assert(lateral.unwrap()[0] == Facing::NegY);
    assert(lateral.unwrap()[1] == Facing::PosX);
    assert(lateral.unwrap()[2] == Facing::NegX);
}

} // verus!
