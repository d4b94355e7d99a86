//! Buildable module kinds and their authored definitions (the module registry).
//!
//! A placed module is the *instance*; a [`ModuleDef`] is its *definition*: its name,
//! footprint and behavioral category. The physical tuning numbers of a module (color,
//! durability, thrust strength) are floating-point data and live with the renderer and
//! the physics, keyed by the same [`ModuleKind`].
use vstd::prelude::*;

use crate::registry::{lookup, Registry, RegistryKey};

verus! {

/// The kinds of module that can be built onto a structure: the stable id of a module
/// type, whose data lives in its [`ModuleDef`].
#[derive(PartialEq, Eq, Structural, Clone, Copy, Debug, Hash)]
pub enum ModuleKind {
    Cargo,
    Engine,
    Sensor,
    Turret,
    Dock,
    Hallway,
    Cockpit,
    /// Maneuvering thruster: pushes in three directions (inward + both laterals),
    /// weaker than the main engine.
    Thruster,
}

impl RegistryKey for ModuleKind {
    fn same_key(&self, other: &Self) -> (r: bool) {
        *self == *other
    }
}

/// A module's footprint in size units: `width` runs along the edge it attaches to,
/// `depth` is how far it extends outward.
#[derive(PartialEq, Eq, Structural, Clone, Copy, Debug)]
pub struct Footprint {
    pub width: u32,
    pub depth: u32,
}

impl Footprint {
    /// A square module has `width == depth`.
    pub fn is_square(&self) -> (r: bool)
        ensures
            r == (self.width == self.depth),
    {
        self.width == self.depth
    }
}

/// Behavioral category of a module: which spawn routine builds it and how it connects
/// to the hull.
#[derive(PartialEq, Eq, Structural, Clone, Copy, Debug)]
pub enum ModuleArchetype {
    /// A walkable room: opens the covered hull doorways, exposes buildable sides, and
    /// (if `seat`) holds a pilot seat.
    Room { seat: bool },
    /// A docking airlock: opens the doorway and carries a docking-port collar.
    Dock,
    /// A sealed solid block; the hull stays closed.
    Solid,
}

/// How a thruster module pushes: whether it also pushes along both laterals (a
/// maneuvering cluster) rather than only inward.
#[derive(PartialEq, Eq, Structural, Clone, Copy, Debug)]
pub struct ThrustDef {
    pub lateral: bool,
}

/// The definition of a buildable module.
#[derive(Clone, Copy, Debug)]
pub struct ModuleDef {
    pub kind: ModuleKind,
    pub name: &'static str,
    pub footprint: Footprint,
    pub archetype: ModuleArchetype,
    /// Thrust capability, if this is an engine / maneuvering thruster.
    pub thrust: Option<ThrustDef>,
    /// Whether the module is a mount for a weapon turret.
    pub mounts_turret: bool,
}

impl ModuleDef {
    /// Walkable rooms are enterable bodies that open the hull doorways.
    pub fn walkable(&self) -> (r: bool)
        ensures
            r == (self.archetype is Room),
    {
        match self.archetype {
            ModuleArchetype::Room { .. } => true,
            _ => false,
        }
    }

    /// Whether a pilot seat is placed in the module (the cockpit).
    pub fn has_seat(&self) -> (r: bool)
        ensures
            r == (self.archetype == (ModuleArchetype::Room { seat: true })),
    {
        match self.archetype {
            ModuleArchetype::Room { seat } => seat,
            _ => false,
        }
    }

    /// Whether this is a docking port.
    pub fn is_dock(&self) -> (r: bool)
        ensures
            r == (self.archetype is Dock),
    {
        match self.archetype {
            ModuleArchetype::Dock => true,
            _ => false,
        }
    }

    /// Whether placing this opens the covered hull doorways (walkable rooms and docks).
    pub fn opens_doorway(&self) -> (r: bool)
        ensures
            r == (self.archetype is Room || self.archetype is Dock),
    {
        match self.archetype {
            ModuleArchetype::Room { .. } | ModuleArchetype::Dock => true,
            ModuleArchetype::Solid => false,
        }
    }
}

/// The authored definition of each module kind.
pub open spec fn module_def_of(kind: ModuleKind) -> ModuleDef {
    match kind {
        ModuleKind::Cargo => ModuleDef {
            kind,
            name: "Cargo",
            footprint: Footprint { width: 2, depth: 2 },
            archetype: ModuleArchetype::Room { seat: false },
            thrust: None,
            mounts_turret: false,
        },
        ModuleKind::Engine => ModuleDef {
            kind,
            name: "Engine",
            footprint: Footprint { width: 1, depth: 1 },
            archetype: ModuleArchetype::Solid,
            thrust: Some(ThrustDef { lateral: false }),
            mounts_turret: false,
        },
        ModuleKind::Sensor => ModuleDef {
            kind,
            name: "Sensor",
            footprint: Footprint { width: 1, depth: 1 },
            archetype: ModuleArchetype::Solid,
            thrust: None,
            mounts_turret: false,
        },
        ModuleKind::Turret => ModuleDef {
            kind,
            name: "Turret",
            footprint: Footprint { width: 1, depth: 1 },
            archetype: ModuleArchetype::Solid,
            thrust: None,
            mounts_turret: true,
        },
        ModuleKind::Dock => ModuleDef {
            kind,
            name: "Dock",
            footprint: Footprint { width: 1, depth: 1 },
            archetype: ModuleArchetype::Dock,
            thrust: None,
            mounts_turret: false,
        },
        ModuleKind::Hallway => ModuleDef {
            kind,
            name: "Hallway",
            footprint: Footprint { width: 1, depth: 2 },
            archetype: ModuleArchetype::Room { seat: false },
            thrust: None,
            mounts_turret: false,
        },
        ModuleKind::Cockpit => ModuleDef {
            kind,
            name: "Cockpit",
            footprint: Footprint { width: 1, depth: 1 },
            archetype: ModuleArchetype::Room { seat: true },
            thrust: None,
            mounts_turret: false,
        },
        ModuleKind::Thruster => ModuleDef {
            kind,
            name: "Thruster",
            footprint: Footprint { width: 1, depth: 1 },
            archetype: ModuleArchetype::Solid,
            thrust: Some(ThrustDef { lateral: true }),
            mounts_turret: false,
        },
    }
}

/// The definition of one module kind, as authored.
pub fn module_def(kind: ModuleKind) -> (d: ModuleDef)
    ensures
        d == module_def_of(kind),
{
    match kind {
        ModuleKind::Cargo => ModuleDef {
            kind,
            name: "Cargo",
            footprint: Footprint { width: 2, depth: 2 },
            archetype: ModuleArchetype::Room { seat: false },
            thrust: None,
            mounts_turret: false,
        },
        ModuleKind::Engine => ModuleDef {
            kind,
            name: "Engine",
            footprint: Footprint { width: 1, depth: 1 },
            archetype: ModuleArchetype::Solid,
            thrust: Some(ThrustDef { lateral: false }),
            mounts_turret: false,
        },
        ModuleKind::Sensor => ModuleDef {
            kind,
            name: "Sensor",
            footprint: Footprint { width: 1, depth: 1 },
            archetype: ModuleArchetype::Solid,
            thrust: None,
            mounts_turret: false,
        },
        ModuleKind::Turret => ModuleDef {
            kind,
            name: "Turret",
            footprint: Footprint { width: 1, depth: 1 },
            archetype: ModuleArchetype::Solid,
            thrust: None,
            mounts_turret: true,
        },
        ModuleKind::Dock => ModuleDef {
            kind,
            name: "Dock",
            footprint: Footprint { width: 1, depth: 1 },
            archetype: ModuleArchetype::Dock,
            thrust: None,
            mounts_turret: false,
        },
        ModuleKind::Hallway => ModuleDef {
            kind,
            name: "Hallway",
            footprint: Footprint { width: 1, depth: 2 },
            archetype: ModuleArchetype::Room { seat: false },
            thrust: None,
            mounts_turret: false,
        },
        ModuleKind::Cockpit => ModuleDef {
            kind,
            name: "Cockpit",
            footprint: Footprint { width: 1, depth: 1 },
            archetype: ModuleArchetype::Room { seat: true },
            thrust: None,
            mounts_turret: false,
        },
        ModuleKind::Thruster => ModuleDef {
            kind,
            name: "Thruster",
            footprint: Footprint { width: 1, depth: 1 },
            archetype: ModuleArchetype::Solid,
            thrust: Some(ThrustDef { lateral: true }),
            mounts_turret: false,
        },
    }
}

/// The kinds in authored order.
pub open spec fn authored_kinds() -> Seq<ModuleKind> {
    seq![
        ModuleKind::Cargo,
        ModuleKind::Engine,
        ModuleKind::Sensor,
        ModuleKind::Turret,
        ModuleKind::Dock,
        ModuleKind::Hallway,
        ModuleKind::Cockpit,
        ModuleKind::Thruster,
    ]
}

/// The authored module definitions, one per kind, in authored order.
pub fn module_defs() -> (defs: Vec<ModuleDef>)
    ensures
        defs@.len() == authored_kinds().len(),
        forall|i: int| 0 <= i < defs@.len() ==> #[trigger] defs@[i] == module_def_of(authored_kinds()[i]),
{
    let mut defs: Vec<ModuleDef> = Vec::new();
    defs.push(module_def(ModuleKind::Cargo));
    defs.push(module_def(ModuleKind::Engine));
    defs.push(module_def(ModuleKind::Sensor));
    defs.push(module_def(ModuleKind::Turret));
    defs.push(module_def(ModuleKind::Dock));
    defs.push(module_def(ModuleKind::Hallway));
    defs.push(module_def(ModuleKind::Cockpit));
    defs.push(module_def(ModuleKind::Thruster));
    defs
}

/// The module content registry: every [`ModuleDef`] keyed by [`ModuleKind`].
pub type ModuleRegistry = Registry<ModuleKind, ModuleDef>;

/// Every entry maps its kind to that kind's authored definition.
pub open spec fn entries_authored(entries: Seq<(ModuleKind, ModuleDef)>) -> bool {
    forall|i: int| 0 <= i < entries.len() ==> #[trigger] entries[i].1 == module_def_of(entries[i].0)
}

/// Looking up an id present among authored entries finds its authored definition.
proof fn lemma_lookup_authored(entries: Seq<(ModuleKind, ModuleDef)>, kind: ModuleKind)
    requires
        entries_authored(entries),
        exists|i: int| 0 <= i < entries.len() && entries[i].0 == kind,
    ensures
        lookup(entries, kind) == Some(module_def_of(kind)),
    decreases entries.len(),
{
    let n = entries.len();
    if entries.last().0 != kind {
        let w = choose|i: int| 0 <= i < entries.len() && entries[i].0 == kind;
        assert(w < n - 1);
        let rest = entries.drop_last();
        assert(rest[w].0 == kind);
        assert forall|i: int| 0 <= i < rest.len() implies #[trigger] rest[i].1 == module_def_of(rest[i].0) by {
            assert(rest[i] == entries[i]);
        }
        lemma_lookup_authored(rest, kind);
    } else {
        assert(entries[n - 1].1 == module_def_of(entries[n - 1].0));
    }
}

/// The module registry built from the authored definitions.
pub fn module_registry() -> (r: ModuleRegistry)
    ensures
        forall|k: ModuleKind| #[trigger] r.spec_get(k) == Some(module_def_of(k)),
{
    let defs = module_defs();
    let mut entries: Vec<(ModuleKind, ModuleDef)> = Vec::new();
    let mut i: usize = 0;
    while i < defs.len()
        invariant
            i <= defs@.len(),
            defs@.len() == authored_kinds().len(),
            forall|j: int| 0 <= j < defs@.len() ==> #[trigger] defs@[j] == module_def_of(authored_kinds()[j]),
            entries@.len() == i,
            forall|j: int| 0 <= j < i ==> #[trigger] entries@[j] == (authored_kinds()[j], module_def_of(authored_kinds()[j])),
        decreases defs@.len() - i,
    {
        let d = defs[i];
        entries.push((d.kind, d));
        i += 1;
    }
    let r = Registry::new(entries);
    assert forall|k: ModuleKind| #[trigger] r.spec_get(k) == Some(module_def_of(k)) by {
        let ks = authored_kinds();
        let w: int = match k {
            ModuleKind::Cargo => 0,
            ModuleKind::Engine => 1,
            ModuleKind::Sensor => 2,
            ModuleKind::Turret => 3,
            ModuleKind::Dock => 4,
            ModuleKind::Hallway => 5,
            ModuleKind::Cockpit => 6,
            ModuleKind::Thruster => 7,
        };
        assert(entries@[w].0 == k);
        assert forall|j: int| 0 <= j < entries@.len() implies #[trigger] entries@[j].1 == module_def_of(entries@[j].0) by {
            assert(entries@[j] == (ks[j], module_def_of(ks[j])));
        }
        lemma_lookup_authored(entries@, k);
    }
    r
}

/// Short role label for a module definition: docking port, cockpit, room, or solid.
pub fn module_role(def: &ModuleDef) -> (r: &'static str)
    ensures
        r == spec_module_role(*def),
{
    if def.is_dock() {
        "Docking port"
    } else if def.has_seat() {
        "Cockpit"
    } else if def.walkable() {
        "Room"
    } else {
        "Solid"
    }
}

/// The role label a definition is shown with.
pub open spec fn spec_module_role(def: ModuleDef) -> &'static str {
    if def.archetype is Dock {
        "Docking port"
    } else if def.archetype == (ModuleArchetype::Room { seat: true }) {
        "Cockpit"
    } else if def.archetype is Room {
        "Room"
    } else {
        "Solid"
    }
}

/// The module selected by a number key in build mode: `1`..`8` pick Cargo, Engine,
/// Sensor, Turret, Dock, Hallway, Cockpit, Thruster; any other digit picks nothing.
pub fn module_for_digit(digit: u8) -> (r: Option<ModuleKind>)
    ensures
        1 <= digit <= 8 ==> r == Some(authored_kinds()[digit - 1]),
        !(1 <= digit <= 8) ==> r is None,
{
    match digit {
        1 => Some(ModuleKind::Cargo),
        2 => Some(ModuleKind::Engine),
        3 => Some(ModuleKind::Sensor),
        4 => Some(ModuleKind::Turret),
        5 => Some(ModuleKind::Dock),
        6 => Some(ModuleKind::Hallway),
        7 => Some(ModuleKind::Cockpit),
        8 => Some(ModuleKind::Thruster),
        _ => None,
    }
}

} // verus!
