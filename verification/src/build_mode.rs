//! Build mode: which structure is being edited, the module selected for placement and
//! its facing, the engineering-console toggle, and the discrete parts of placement
//! (runs of free attach points, and what a placed module claims).
use vstd::prelude::*;

use crate::modules::{Footprint, ModuleDef, ModuleKind, ModuleRegistry};

verus! {

/// An axis-aligned outward direction in a body's frame.
#[derive(PartialEq, Eq, Structural, Clone, Copy, Debug)]
pub enum Facing {
    PosY,
    PosX,
    NegY,
    NegX,
}

impl Facing {
    /// A quarter turn clockwise: `(x, y) -> (y, -x)`.
    pub fn rotated_cw(self) -> (r: Facing)
        ensures
            r == spec_rotated_cw(self),
    {
        match self {
            Facing::PosY => Facing::PosX,
            Facing::PosX => Facing::NegY,
            Facing::NegY => Facing::NegX,
            Facing::NegX => Facing::PosY,
        }
    }

    /// The unit vector of this facing, as `(x, y)`.
    pub fn unit(self) -> (r: (i8, i8))
        ensures
            r == spec_unit(self),
    {
        match self {
            Facing::PosY => (0, 1),
            Facing::PosX => (1, 0),
            Facing::NegY => (0, -1),
            Facing::NegX => (-1, 0),
        }
    }
}

/// A quarter turn clockwise.
pub open spec fn spec_rotated_cw(f: Facing) -> Facing {
    match f {
        Facing::PosY => Facing::PosX,
        Facing::PosX => Facing::NegY,
        Facing::NegY => Facing::NegX,
        Facing::NegX => Facing::PosY,
    }
}

/// The unit vector of a facing.
pub open spec fn spec_unit(f: Facing) -> (i8, i8) {
    match f {
        Facing::PosY => (0i8, 1i8),
        Facing::PosX => (1i8, 0i8),
        Facing::NegY => (0i8, -1i8),
        Facing::NegX => (-1i8, 0i8),
    }
}

/// Rotating a facing is the clockwise quarter turn of its vector, and four quarter turns
/// bring it back.
pub proof fn law_rotation(f: Facing)
    ensures
        spec_unit(spec_rotated_cw(f)) == (spec_unit(f).1, (-spec_unit(f).0) as i8),
        spec_rotated_cw(spec_rotated_cw(spec_rotated_cw(spec_rotated_cw(f)))) == f,
{
}

/// Whether the player is at an engineering console building.
#[derive(PartialEq, Eq, Structural, Clone, Copy, Debug, Hash)]
pub enum BuildState {
    Idle,
    Building,
}

/// The build-mode state.
#[derive(PartialEq, Eq, Structural, Clone, Copy, Debug)]
pub struct BuildMode {
    /// The structure being edited, set when entering through its console.
    pub structure: Option<u64>,
    /// The module selected for placement.
    pub selected: Option<ModuleKind>,
    /// Facing of the free-floating ghost.
    pub facing: Facing,
    /// The ghost preview following the cursor, if a module is selected.
    pub preview: Option<u64>,
}

impl Default for BuildMode {
    fn default() -> (r: Self)
        ensures
            r == (BuildMode { structure: None, selected: None, facing: Facing::PosY, preview: None }),
    {
        BuildMode { structure: None, selected: None, facing: Facing::PosY, preview: None }
    }
}

impl BuildMode {
    /// The structure being edited, if in build mode.
    pub fn structure(&self) -> (r: Option<u64>)
        ensures
            r == self.structure,
    {
        self.structure
    }

    /// Whether a module is selected for placement.
    pub fn is_placing(&self) -> (r: bool)
        ensures
            r == (self.selected is Some),
    {
        self.selected.is_some()
    }

    /// The footprint of the selected module, if any.
    pub fn footprint(&self, registry: &ModuleRegistry) -> (r: Option<Footprint>)
        requires
            forall|k: ModuleKind| (#[trigger] registry.spec_get(k)) is Some,
        ensures
            match self.selected {
                Some(k) => r == Some(registry.spec_get(k).unwrap().footprint),
                None => r is None,
            },
    {
        match self.selected {
            Some(k) => {
                assert(registry.spec_get(k) is Some);
                Some(registry.get(k).footprint)
            },
            None => None,
        }
    }

    /// Drop the selection: no module selected, the facing reset; returns the ghost to
    /// remove, if there was one.
    pub fn clear_selection(&mut self) -> (preview: Option<u64>)
        ensures
            preview == old(self).preview,
            *final(self) == (BuildMode { selected: None, facing: Facing::PosY, preview: None, ..*old(self) }),
    {
        let preview = self.preview;
        self.preview = None;
        self.selected = None;
        self.facing = Facing::PosY;
        preview
    }

    /// Select `kind` for placement with its new ghost `preview`, facing +Y; returns the
    /// previous ghost to remove.
    pub fn begin_module_drag(&mut self, kind: ModuleKind, preview: u64) -> (previous: Option<u64>)
        ensures
            previous == old(self).preview,
            *final(self) == (BuildMode { selected: Some(kind), facing: Facing::PosY, preview: Some(preview), ..*old(self) }),
    {
        let previous = self.clear_selection();
        self.selected = Some(kind);
        self.facing = Facing::PosY;
        self.preview = Some(preview);
        previous
    }

    /// Rotate the selected module's facing a quarter turn clockwise; nothing happens when
    /// no module is selected.
    pub fn rotate_module(&mut self)
        ensures
            old(self).selected is Some ==> *final(self) == (BuildMode { facing: spec_rotated_cw(old(self).facing), ..*old(self) }),
            old(self).selected is None ==> *final(self) == *old(self),
    {
        if self.selected.is_some() {
            self.facing = self.facing.rotated_cw();
        }
    }

    /// Interacting with the console of `console_structure`: leaves build mode when
    /// already building that structure, otherwise starts building it. Returns the next
    /// build state.
    pub fn toggle_console(&mut self, state: BuildState, console_structure: u64) -> (next: BuildState)
        ensures
            state == BuildState::Building && old(self).structure == Some(console_structure) ==> next
                == BuildState::Idle && *final(self) == *old(self),
            !(state == BuildState::Building && old(self).structure == Some(console_structure)) ==> next
                == BuildState::Building && *final(self) == (BuildMode { structure: Some(console_structure), ..*old(self) }),
    {
        if state == BuildState::Building && self.structure == Some(console_structure) {
            BuildState::Idle
        } else {
            self.structure = Some(console_structure);
            BuildState::Building
        }
    }

    /// Leaving build mode: forget the edited structure and drop the selection; returns
    /// the ghost to remove.
    pub fn exit(&mut self) -> (preview: Option<u64>)
        ensures
            preview == old(self).preview,
            *final(self) == (BuildMode { structure: None, selected: None, facing: Facing::PosY, preview: None }),
    {
        self.structure = None;
        self.clear_selection()
    }

    /// A click removes the module under the cursor only with no module selected, and not
    /// when it landed on the UI.
    pub fn deconstructs(&self, over_ui: bool, clicked: bool) -> (r: bool)
        ensures
            r == (!over_ui && self.selected is None && clicked),
    {
        !over_ui && self.selected.is_none() && clicked
    }
}

/// The build-mode hint text.
pub open spec fn spec_build_hint(selected: Option<ModuleKind>, registry: &ModuleRegistry) -> Seq<char> {
    match selected {
        None => "BUILD MODE - select: [1] Cargo  [2] Engine  [3] Sensor  [4] Turret  [5] Dock  [6] Hallway  [7] Cockpit  [8] Thruster   |  click a module to remove, or drag a turret onto a turret mount   ([B]/[Esc] exit)"@,
        Some(k) => "BUILD MODE - placing "@ + registry.spec_get(k).unwrap().name@
            + " - click a highlighted attach point   ([R] rotate, [B]/[Esc] exit)"@,
    }
}

/// The hint shown while building: the key list, or what is being placed.
pub fn build_hint(mode: &BuildMode, registry: &ModuleRegistry) -> (r: String)
    requires
        forall|k: ModuleKind| (#[trigger] registry.spec_get(k)) is Some,
    ensures
        r@ == spec_build_hint(mode.selected, registry),
{
    match mode.selected {
        None => String::from_str(
            "BUILD MODE - select: [1] Cargo  [2] Engine  [3] Sensor  [4] Turret  [5] Dock  [6] Hallway  [7] Cockpit  [8] Thruster   |  click a module to remove, or drag a turret onto a turret mount   ([B]/[Esc] exit)",
        ),
        Some(k) => {
            assert(registry.spec_get(k) is Some);
            let name = registry.get(k).name;
            String::from_str("BUILD MODE - placing ").concat(name).concat(
                " - click a highlighted attach point   ([R] rotate, [B]/[Esc] exit)",
            )
        },
    }
}

/// An attach point a new module can use: free and not blocked by a neighbour.
pub fn point_available(occupied: bool, blocked: bool) -> (r: bool)
    ensures
        r == (!occupied && !blocked),
{
    !occupied && !blocked
}

/// Every point of `available` from `start` for `n` points is free.
pub open spec fn run_free(available: Seq<bool>, start: int, n: int) -> bool {
    forall|k: int| start <= k < start + n ==> #[trigger] available[k]
}

/// The starts of every run of `n` consecutive free points along a side (points ordered
/// along it), in order. A side shorter than `n` has none.
pub fn free_run_starts(available: &Vec<bool>, n: usize) -> (r: Vec<usize>)
    ensures
        forall|q: int| 0 <= q < r@.len() ==> r@[q] + n <= available@.len() && run_free(available@, r@[q] as int, n as int),
        forall|i: int| 0 <= i && i + n <= available@.len() && run_free(available@, i, n as int) ==> r@.contains(i as usize),
        forall|p: int, q: int| 0 <= p < q < r@.len() ==> r@[p] < r@[q],
{
    let mut r: Vec<usize> = Vec::new();
    let len = available.len();
    if len < n {
        return r;
    }
    let last = len - n;
    let mut i: usize = 0;
    loop
        invariant_except_break
            len == available@.len(),
            n <= len,
            last == len - n,
            i <= last,
            forall|q: int| 0 <= q < r@.len() ==> r@[q] < i && r@[q] + n <= len && run_free(available@, r@[q] as int, n as int),
            forall|s: int| 0 <= s < i && run_free(available@, s, n as int) ==> r@.contains(s as usize),
            forall|p: int, q: int| 0 <= p < q < r@.len() ==> r@[p] < r@[q],
        ensures
            forall|q: int| 0 <= q < r@.len() ==> r@[q] + n <= len && run_free(available@, r@[q] as int, n as int),
            forall|s: int| 0 <= s <= last && run_free(available@, s, n as int) ==> r@.contains(s as usize),
            forall|p: int, q: int| 0 <= p < q < r@.len() ==> r@[p] < r@[q],
        decreases last - i,
    {
        let mut k: usize = 0;
        let mut free = true;
        while k < n
            invariant
                len == available@.len(),
                i + n <= len,
                k <= n,
                free == forall|j: int| i <= j < i + k ==> #[trigger] available@[j],
            decreases n - k,
        {
            if !available[i + k] {
                free = false;
            }
            k += 1;
        }
        let ghost before = r@;
        if free {
            r.push(i);
            assert forall|s: int| 0 <= s < i + 1 && run_free(available@, s, n as int) implies r@.contains(s as usize) by {
                if s < i {
                    let w = choose|w: int| 0 <= w < before.len() && before[w] == s as usize;
                    assert(r@[w] == s as usize);
                } else {
                    assert(r@[before.len() as int] == i);
                }
            }
        }
        if i == last {
            break;
        }
        i += 1;
    }
    r
}

/// What a placed module claims: the attach points it occupies and the door panels it
/// opens — on the near body, and on the far body when it bridges to one.
pub open spec fn spec_claims(
    opens_doorway: bool,
    near_points: Seq<u64>,
    near_panels: Seq<u64>,
    far: Option<(Seq<u64>, Seq<u64>)>,
) -> (Seq<u64>, Seq<u64>) {
    let opened = if opens_doorway { near_panels } else { Seq::empty() };
    match far {
        Some((far_points, far_panels)) => (near_points + far_points, opened + far_panels),
        None => (near_points, opened),
    }
}

/// The points a placed module occupies and the panels it opens: rooms and docks open the
/// covered doorways; a bridging corridor also opens and claims the far body's run.
pub fn placement_claims(
    def: &ModuleDef,
    near_points: &Vec<u64>,
    near_panels: &Vec<u64>,
    far: Option<(&Vec<u64>, &Vec<u64>)>,
) -> (r: (Vec<u64>, Vec<u64>))
    ensures
        (r.0@, r.1@) == spec_claims(
            def.archetype is Room || def.archetype is Dock,
            near_points@,
            near_panels@,
            match far {
                Some((p, q)) => Some((p@, q@)),
                None => None,
            },
        ),
{
    let mut occupied = near_points.clone();
    let mut opened: Vec<u64> = Vec::new();
    if def.opens_doorway() {
        opened = near_panels.clone();
    }
    match far {
        Some((far_points, far_panels)) => {
            let mut fp = far_points.clone();
            let mut fq = far_panels.clone();
            occupied.append(&mut fp);
            opened.append(&mut fq);
        },
        None => {},
    }
    (occupied, opened)
}

/// Whether a built module can take a dragged turret: a turret mount on the structure
/// being edited with no weapon installed yet.
pub fn accepts_turret(kind: ModuleKind, structure: u64, edited: Option<u64>, armed: bool) -> (r: bool)
    ensures
        r == (kind == ModuleKind::Turret && edited == Some(structure) && !armed),
{
    kind == ModuleKind::Turret && edited == Some(structure) && !armed
}

/// An attach point as placement sees it: its entity, the panel sealing its doorway, and
/// whether a module already occupies it.
#[derive(PartialEq, Eq, Structural, Clone, Copy, Debug)]
pub struct PointState {
    pub entity: u64,
    pub panel: u64,
    pub occupied: bool,
}

/// A run of consecutive attach points along a side: positions `start .. start + len` of a
/// point list.
#[derive(PartialEq, Eq, Structural, Clone, Copy, Debug)]
pub struct Run {
    pub start: usize,
    pub len: usize,
}

/// What placing a module claimed: the attach points it occupies and the door panels it
/// opened, to be given back when it is deconstructed.
#[derive(Debug)]
pub struct Placement {
    pub occupied: Vec<u64>,
    pub opened: Vec<u64>,
}

/// Position `i` lies in run `r`.
pub open spec fn in_run(r: Run, i: int) -> bool {
    r.start <= i < r.start + r.len
}

/// Run `r` lies within `points`.
pub open spec fn run_fits(points: Seq<PointState>, r: Run) -> bool {
    r.start + r.len <= points.len()
}

/// The entities of a run's points, in order.
pub open spec fn run_entities(points: Seq<PointState>, r: Run) -> Seq<u64> {
    points.subrange(r.start as int, r.start + r.len).map_values(|p: PointState| p.entity)
}

/// The panels of a run's points, in order.
pub open spec fn run_panels(points: Seq<PointState>, r: Run) -> Seq<u64> {
    points.subrange(r.start as int, r.start + r.len).map_values(|p: PointState| p.panel)
}

/// Position `i` is claimed by placing over `near` and, when bridging, `far`.
pub open spec fn claimed_by(near: Run, far: Option<Run>, i: int) -> bool {
    in_run(near, i) || (far matches Some(f) && in_run(f, i))
}

/// Mark the points of run `r` occupied, recording their entities and panels.
fn claim_run(points: &mut Vec<PointState>, r: Run, occupied: &mut Vec<u64>, panels: &mut Vec<u64>)
    requires
        run_fits(old(points)@, r),
    ensures
        final(points)@.len() == old(points)@.len(),
        forall|i: int| 0 <= i < final(points)@.len() ==> #[trigger] final(points)@[i] == if in_run(r, i) {
            PointState { occupied: true, ..old(points)@[i] }
        } else {
            old(points)@[i]
        },
        final(occupied)@ == old(occupied)@ + run_entities(old(points)@, r),
        final(panels)@ == old(panels)@ + run_panels(old(points)@, r),
{
    let ghost p0 = points@;
    let ghost o0 = occupied@;
    let ghost q0 = panels@;
    let mut k: usize = 0;
    while k < r.len
        invariant
            k <= r.len,
            r.start + r.len <= p0.len(),
            points@.len() == p0.len(),
            forall|i: int| 0 <= i < points@.len() ==> #[trigger] points@[i] == if r.start <= i < r.start + k {
                PointState { occupied: true, ..p0[i] }
            } else {
                p0[i]
            },
            occupied@ == o0 + p0.subrange(r.start as int, r.start + k).map_values(|p: PointState| p.entity),
            panels@ == q0 + p0.subrange(r.start as int, r.start + k).map_values(|p: PointState| p.panel),
        decreases r.len - k,
    {
        let n = points.len();
        assert(r.start + k < n);
        let at = r.start + k;
        let p = points[at];
        points.set(at, PointState { occupied: true, ..p });
        occupied.push(p.entity);
        panels.push(p.panel);
        assert(p0.subrange(r.start as int, r.start + k + 1).map_values(|p: PointState| p.entity)
            =~= p0.subrange(r.start as int, r.start + k).map_values(|p: PointState| p.entity).push(p.entity));
        assert(p0.subrange(r.start as int, r.start + k + 1).map_values(|p: PointState| p.panel)
            =~= p0.subrange(r.start as int, r.start + k).map_values(|p: PointState| p.panel).push(p.panel));
        k += 1;
    }
}

/// Place a module over the run `near` of free attach points and, when it bridges to
/// another body, over the run `far` there: exactly those points become occupied, and
/// the placement records them (near run first) with the panels opened: the near run's
/// panels when the module opens doorways, and the far run's panels when bridging (see
/// [`spec_claims`]).
pub fn place_module(def: &ModuleDef, near: Run, far: Option<Run>, points: &mut Vec<PointState>) -> (r: Placement)
    requires
        run_fits(old(points)@, near),
        far matches Some(f) ==> run_fits(old(points)@, f),
    ensures
        final(points)@.len() == old(points)@.len(),
        forall|i: int| 0 <= i < final(points)@.len() ==> #[trigger] final(points)@[i] == if claimed_by(near, far, i) {
            PointState { occupied: true, ..old(points)@[i] }
        } else {
            old(points)@[i]
        },
        (r.occupied@, r.opened@) == spec_claims(
            def.archetype is Room || def.archetype is Dock,
            run_entities(old(points)@, near),
            run_panels(old(points)@, near),
            match far {
                Some(f) => Some((run_entities(old(points)@, f), run_panels(old(points)@, f))),
                None => None,
            },
        ),
{
    let ghost p0 = points@;
    let mut occupied: Vec<u64> = Vec::new();
    let mut near_panels: Vec<u64> = Vec::new();
    claim_run(points, near, &mut occupied, &mut near_panels);
    assert(occupied@ =~= run_entities(p0, near));
    assert(near_panels@ =~= run_panels(p0, near));
    let mut opened: Vec<u64> = if def.opens_doorway() { near_panels } else { Vec::new() };
    let ghost p1 = points@;
    match far {
        Some(f) => {
            assert forall|i: int| 0 <= i < p1.len() implies (#[trigger] p1[i]).entity == p0[i].entity
                && p1[i].panel == p0[i].panel by {}
            assert(run_entities(p1, f) =~= run_entities(p0, f));
            assert(run_panels(p1, f) =~= run_panels(p0, f));
            claim_run(points, f, &mut occupied, &mut opened);
        },
        None => {},
    }
    Placement { occupied, opened }
}

/// Give back the attach points a deconstructed module occupied: every point whose
/// entity is listed in `claimed` becomes free; every other point is left as it was.
pub fn release_points(points: &mut Vec<PointState>, claimed: &Vec<u64>)
    ensures
        final(points)@.len() == old(points)@.len(),
        forall|i: int| 0 <= i < final(points)@.len() ==> #[trigger] final(points)@[i] == (PointState {
            occupied: old(points)@[i].occupied && !claimed@.contains(old(points)@[i].entity),
            ..old(points)@[i]
        }),
{
    let ghost p0 = points@;
    let mut i: usize = 0;
    while i < points.len()
        invariant
            i <= points@.len(),
            points@.len() == p0.len(),
            forall|j: int| 0 <= j < points@.len() ==> #[trigger] points@[j] == if j < i {
                PointState { occupied: p0[j].occupied && !claimed@.contains(p0[j].entity), ..p0[j] }
            } else {
                p0[j]
            },
        decreases points@.len() - i,
    {
        let p = points[i];
        let mut listed = false;
        let mut k: usize = 0;
        while k < claimed.len()
            invariant
                k <= claimed@.len(),
                listed == exists|m: int| 0 <= m < k && claimed@[m] == p.entity,
            decreases claimed@.len() - k,
        {
            if claimed[k] == p.entity {
                listed = true;
            }
            k += 1;
        }
        assert(listed == claimed@.contains(p.entity));
        points.set(i, PointState { occupied: p.occupied && !listed, ..p });
        i += 1;
    }
}

/// Deconstructing undoes placing: placing a module over free points and then giving back
/// the points it recorded leaves every attach point as it was (point entities being
/// distinct).
pub proof fn law_release_undoes_place(
    before: Seq<PointState>,
    near: Run,
    far: Option<Run>,
    placed: Seq<PointState>,
    claimed: Seq<u64>,
    after: Seq<PointState>,
)
    requires
        forall|i: int, j: int| 0 <= i < j < before.len() ==> before[i].entity != before[j].entity,
        run_fits(before, near),
        far matches Some(f) ==> run_fits(before, f),
        forall|i: int| 0 <= i < before.len() && claimed_by(near, far, i) ==> !before[i].occupied,
        placed.len() == before.len(),
        forall|i: int| 0 <= i < placed.len() ==> #[trigger] placed[i] == if claimed_by(near, far, i) {
            PointState { occupied: true, ..before[i] }
        } else {
            before[i]
        },
        claimed == run_entities(before, near) + (match far {
            Some(f) => run_entities(before, f),
            None => Seq::<u64>::empty(),
        }),
        after.len() == placed.len(),
        forall|i: int| 0 <= i < after.len() ==> #[trigger] after[i] == (PointState {
            occupied: placed[i].occupied && !claimed.contains(placed[i].entity),
            ..placed[i]
        }),
    ensures
        after == before,
{
    let ne = run_entities(before, near);
    assert forall|i: int| 0 <= i < after.len() implies after[i] == before[i] by {
        if claimed_by(near, far, i) {
            if in_run(near, i) {
                assert(ne[i - near.start] == before[i].entity);
                assert(claimed[i - near.start] == before[i].entity);
            } else {
                let f = far.unwrap();
                let fe = run_entities(before, f);
                assert(fe[i - f.start] == before[i].entity);
                assert(claimed[ne.len() + i - f.start] == before[i].entity);
            }
        } else {
            if claimed.contains(before[i].entity) {
                let m = choose|m: int| 0 <= m < claimed.len() && claimed[m] == before[i].entity;
                if m < ne.len() {
                    assert(ne[m] == before[near.start + m].entity);
                } else {
                    let f = far.unwrap();
                    assert(run_entities(before, f)[m - ne.len()] == before[f.start + m - ne.len()].entity);
                }
            }
        }
    }
    assert(after =~= before);
}

} // verus!
