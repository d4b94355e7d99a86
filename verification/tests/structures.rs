use shipcraft::background::Rng;
use shipcraft::blueprint::{
    console_offset, match_slots, plan_module_order, replay_parent, restores_motion, root_kind, root_size, turret_of, ModuleLink,
    RootKind,
};
use shipcraft::build_mode::{
    accepts_turret, build_hint, free_run_starts, place_module, release_points, PointState, Run, placement_claims, point_available, BuildMode, BuildState, Facing,
};
use shipcraft::camera::{camera_focus, is_pulled_back, CameraFocus};
use shipcraft::docking::{airlock_door, dock_candidates, latch, release_ship, DoorAction, PortState};
use shipcraft::faction::{hostile, Faction};
use shipcraft::hit::{resolve_hit, HitNode, HitOutcome};
use shipcraft::bubble::{bubble_step, BubbleRange, BubbleState};
use shipcraft::hull::{
    footprint_extent, preview_points, room_side, side_geometry, side_layout, thrust_directions, Rect, RoomSide, SideSlot,
};
use shipcraft::input::{axis, walk_input};
use shipcraft::layout::{player_ship_layout, Weapon, SHIP_SIDE_SLOTS};
use shipcraft::modules::{module_def, module_for_digit, module_registry, module_role, Footprint, ModuleKind};
use shipcraft::station::{
    berth_layout, corridor_modules, equipment_kind, equipment_weapon, far_slot_count, hub_side, HubSide, ARM_SEGMENTS,
    HUB_SIZE,
};
use shipcraft::turret::{select_target, turret_registry, FireArc, Turret, TurretKind, TurretMesh};

fn link(entity: u64, structure: u64, parent: u64, order_key: u32) -> ModuleLink {
    ModuleLink { entity, structure, parent, order_key }
}

#[test]
fn blueprint_orders_parents_before_children() {
    // Root 100 with a chain 1 -> 2 -> 3 listed deepest-first, plus a module of another
    // structure that must be left out.
    let links = vec![
        link(3, 100, 2, 3),
        link(2, 100, 1, 2),
        link(9, 200, 200, 0),
        link(1, 100, 100, 1),
    ];
    let (order, parents) = plan_module_order(&links, 100);
    assert_eq!(order, vec![3, 1, 0]);
    assert_eq!(parents, vec![0, 1, 2]);
}

#[test]
fn blueprint_breaks_depth_ties_by_key() {
    let links = vec![link(5, 7, 7, 9), link(6, 7, 7, 4), link(8, 7, 6, 1)];
    let (order, parents) = plan_module_order(&links, 7);
    assert_eq!(order, vec![1, 0, 2]);
    assert_eq!(parents, vec![0, 0, 1]);
}

#[test]
fn blueprint_of_bare_root_is_empty() {
    let links = vec![link(9, 200, 200, 0)];
    let (order, parents) = plan_module_order(&links, 100);
    assert!(order.is_empty());
    assert!(parents.is_empty());
}

#[test]
fn root_kinds_and_hulls() {
    assert_eq!(root_kind(true, true), RootKind::PlayerShip);
    assert_eq!(root_kind(false, true), RootKind::Station);
    assert_eq!(root_kind(false, false), RootKind::EnemyShip);
    assert_eq!(root_size(RootKind::Station), 10);
    assert_eq!(root_size(RootKind::PlayerShip), 3);
    assert_eq!(root_size(RootKind::EnemyShip), 3);
    assert_eq!(console_offset(RootKind::PlayerShip), Some(-30));
    assert_eq!(console_offset(RootKind::Station), Some(-40));
    assert_eq!(console_offset(RootKind::EnemyShip), None);
    assert!(restores_motion(RootKind::EnemyShip));
    assert!(!restores_motion(RootKind::Station));
}

#[test]
fn replay_skips_missing_parents_and_unmatched_slots() {
    assert_eq!(replay_parent(3, 2, true), Some(2));
    assert_eq!(replay_parent(3, 3, true), None);
    assert_eq!(replay_parent(3, 0, false), None);
}

#[test]
fn turret_lookup_finds_the_first_child() {
    let parents = vec![4, 7, 7];
    assert_eq!(turret_of(&parents, 7), Some(1));
    assert_eq!(turret_of(&parents, 5), None);
}

#[test]
fn side_of_three_slots() {
    let (slots, walls) = side_layout(3);
    assert_eq!(slots, vec![-50, 0, 50]);
    assert_eq!(walls, vec![(-75, -70), (-30, -20), (20, 30), (70, 75)]);
    let (none, no_walls) = side_layout(0);
    assert!(none.is_empty());
    assert!(no_walls.is_empty());
    let (one, one_walls) = side_layout(1);
    assert_eq!(one, vec![0]);
    assert_eq!(one_walls, vec![(-25, -20), (20, 25)]);
}

#[test]
fn room_sides() {
    let square = Footprint { width: 2, depth: 2 };
    let long = Footprint { width: 1, depth: 2 };
    assert_eq!(room_side(square, Facing::PosY, Facing::NegY), RoomSide::Open);
    assert_eq!(room_side(square, Facing::PosY, Facing::PosY), RoomSide::Buildable(2));
    assert_eq!(room_side(square, Facing::PosY, Facing::PosX), RoomSide::Buildable(2));
    assert_eq!(room_side(long, Facing::NegX, Facing::NegX), RoomSide::Buildable(1));
    assert_eq!(room_side(long, Facing::NegX, Facing::PosY), RoomSide::Solid);
    assert_eq!(room_side(long, Facing::NegX, Facing::PosX), RoomSide::Open);
}

#[test]
fn berths_of_the_station_hub() {
    let (docks, holds) = berth_layout(HUB_SIZE as usize);
    assert_eq!(docks, vec![0, 9]);
    assert_eq!(holds, vec![1, 3, 5, 7]);
    let (d1, h1) = berth_layout(1);
    assert_eq!(d1, vec![0]);
    assert!(h1.is_empty());
    let (d0, h0) = berth_layout(0);
    assert!(d0.is_empty());
    assert!(h0.is_empty());
}

#[test]
fn station_equipment_and_corridors() {
    assert_eq!(equipment_kind(0), ModuleKind::Engine);
    assert_eq!(equipment_kind(4), ModuleKind::Turret);
    assert_eq!(equipment_kind(8), ModuleKind::Sensor);
    let arm = corridor_modules(ARM_SEGMENTS);
    assert_eq!(arm.len(), 6);
    assert!(arm[..5].iter().all(|k| *k == ModuleKind::Hallway));
    assert_eq!(arm[5], ModuleKind::Dock);
    assert_eq!(far_slot_count(3, 2), 2);
    assert_eq!(far_slot_count(1, 2), 1);
}

#[test]
fn undocking_frees_both_ends() {
    let mut ports = vec![
        PortState { entity: 1, structure: 10, docked_to: Some(3) },
        PortState { entity: 2, structure: 10, docked_to: None },
        PortState { entity: 3, structure: 20, docked_to: Some(1) },
        PortState { entity: 4, structure: 20, docked_to: None },
    ];
    assert!(release_ship(&mut ports, 10));
    assert!(ports.iter().all(|p| p.docked_to.is_none()));
    assert!(!release_ship(&mut ports, 10));
}

#[test]
fn docking_candidates_and_latch() {
    let mut ports = vec![
        PortState { entity: 1, structure: 10, docked_to: None },
        PortState { entity: 3, structure: 20, docked_to: None },
        PortState { entity: 4, structure: 30, docked_to: Some(5) },
        PortState { entity: 5, structure: 40, docked_to: Some(4) },
    ];
    let pairs = dock_candidates(&ports, 10);
    assert_eq!(pairs, vec![(0, 1)]);
    latch(&mut ports, 0, 1);
    assert_eq!(ports[0].docked_to, Some(3));
    assert_eq!(ports[1].docked_to, Some(1));
    assert_eq!(airlock_door(true, false), DoorAction::Open);
    assert_eq!(airlock_door(false, true), DoorAction::Close);
    assert_eq!(airlock_door(true, true), DoorAction::Keep);
}

#[test]
fn build_mode_console_selection_and_rotation() {
    let mut mode = BuildMode::default();
    assert_eq!(mode.toggle_console(BuildState::Idle, 42), BuildState::Building);
    assert_eq!(mode.structure(), Some(42));
    assert_eq!(mode.begin_module_drag(ModuleKind::Cargo, 7), None);
    assert!(mode.is_placing());
    mode.rotate_module();
    assert_eq!(mode.facing, Facing::PosX);
    let registry = module_registry();
    assert_eq!(mode.footprint(&registry), Some(Footprint { width: 2, depth: 2 }));
    assert_eq!(
        build_hint(&mode, &registry),
        "BUILD MODE - placing Cargo - click a highlighted attach point   ([R] rotate, [B]/[Esc] exit)"
    );
    assert!(!mode.deconstructs(false, true));
    assert_eq!(mode.clear_selection(), Some(7));
    assert!(mode.deconstructs(false, true));
    assert_eq!(mode.toggle_console(BuildState::Building, 42), BuildState::Idle);
    assert_eq!(mode.exit(), None);
    assert_eq!(mode, BuildMode::default());
}

#[test]
fn facings_rotate_clockwise() {
    let mut f = Facing::PosY;
    let mut seen = vec![];
    for _ in 0..4 {
        seen.push(f.unit());
        f = f.rotated_cw();
    }
    assert_eq!(f, Facing::PosY);
    assert_eq!(seen, vec![(0, 1), (1, 0), (0, -1), (-1, 0)]);
}

#[test]
fn free_runs_of_attach_points() {
    assert!(point_available(false, false));
    assert!(!point_available(true, false));
    let free = vec![true, true, false, true, true, true];
    assert_eq!(free_run_starts(&free, 2), vec![0, 3, 4]);
    assert_eq!(free_run_starts(&free, 3), vec![3]);
    assert!(free_run_starts(&free, 7).is_empty());
}

#[test]
fn placed_modules_claim_points_and_panels() {
    let cargo = module_def(ModuleKind::Cargo);
    let engine = module_def(ModuleKind::Engine);
    let points = vec![1, 2];
    let panels = vec![11, 12];
    let far_points = vec![3];
    let far_panels = vec![13];
    assert_eq!(placement_claims(&cargo, &points, &panels, None), (vec![1, 2], vec![11, 12]));
    assert_eq!(placement_claims(&engine, &points, &panels, None), (vec![1, 2], vec![]));
    assert_eq!(
        placement_claims(&cargo, &points, &panels, Some((&far_points, &far_panels))),
        (vec![1, 2, 3], vec![11, 12, 13])
    );
}

#[test]
fn module_table() {
    let registry = module_registry();
    let hallway = registry.get(ModuleKind::Hallway);
    assert_eq!(hallway.name, "Hallway");
    assert_eq!(hallway.footprint, Footprint { width: 1, depth: 2 });
    assert!(hallway.walkable());
    assert_eq!(module_role(registry.get(ModuleKind::Dock)), "Docking port");
    assert_eq!(module_role(registry.get(ModuleKind::Cockpit)), "Cockpit");
    assert_eq!(module_role(registry.get(ModuleKind::Cargo)), "Room");
    assert_eq!(module_role(registry.get(ModuleKind::Thruster)), "Solid");
    assert!(registry.get(ModuleKind::Turret).mounts_turret);
    assert!(registry.get(ModuleKind::Thruster).thrust.unwrap().lateral);
    assert_eq!(module_for_digit(8), Some(ModuleKind::Thruster));
    assert_eq!(module_for_digit(1), Some(ModuleKind::Cargo));
    assert_eq!(module_for_digit(0), None);
    assert_eq!(module_for_digit(9), None);
}

#[test]
fn turret_table_and_targeting() {
    let registry = turret_registry();
    let pd = registry.get(TurretKind::PointDefense);
    assert_eq!(pd.name, "Point-defense");
    assert_eq!(pd.mesh, TurretMesh::TwinBarrel);
    assert_eq!(registry.get(TurretKind::PlayerCannon).arc, FireArc::Hull);
    assert_eq!(TurretKind::Cannon.name(), "Cannon");
    assert_eq!(FireArc::OverShip.name(), "Over-ship");
    let candidates = vec![Faction::Enemy, Faction::Player, Faction::Player];
    assert_eq!(select_target(TurretKind::Cannon, Faction::Enemy, &candidates), Some(1));
    assert_eq!(select_target(TurretKind::PointDefense, Faction::Enemy, &candidates), None);
    assert_eq!(select_target(TurretKind::Cannon, Faction::Player, &vec![Faction::Player]), None);
    assert!(hostile(Faction::Player, Faction::Enemy));
    assert!(!hostile(Faction::Enemy, Faction::Enemy));
}

#[test]
fn twin_barrels_alternate() {
    let mut t = Turret::new(TurretKind::PointDefense);
    assert_eq!(t.fire_barrel(), -1);
    assert_eq!(t.fire_barrel(), 1);
    assert_eq!(t.fire_barrel(), -1);
    assert_eq!(t.kind(), TurretKind::PointDefense);
}

fn node(entity: u64, has_module_health: bool, faction: Option<Faction>) -> HitNode {
    HitNode { entity, has_module_health, faction }
}

#[test]
fn hits_on_ships() {
    // collider 1 -> module 2 -> root 3 (enemy ship)
    let chain = vec![node(1, false, None), node(2, true, None), node(3, true, Some(Faction::Enemy))];
    assert_eq!(
        resolve_hit(&chain, true, false, false, Faction::Player, false),
        HitOutcome::DamageModule { module: 2, root: 3 }
    );
    assert_eq!(resolve_hit(&chain, true, false, false, Faction::Enemy, false), HitOutcome::Ignore);
    assert_eq!(resolve_hit(&chain, true, true, false, Faction::Enemy, true), HitOutcome::Ignore);
    let own = vec![node(5, true, Some(Faction::Player))];
    assert_eq!(resolve_hit(&own, true, true, false, Faction::Enemy, true), HitOutcome::Soak);
    let hull = vec![node(6, false, None), node(7, false, Some(Faction::Enemy))];
    assert_eq!(resolve_hit(&hull, true, false, false, Faction::Player, false), HitOutcome::Ignore);
}

#[test]
fn hits_off_ships() {
    let target = vec![node(8, false, None)];
    assert_eq!(resolve_hit(&target, false, false, true, Faction::Enemy, false), HitOutcome::DamageTarget { target: 8 });
    assert_eq!(resolve_hit(&target, false, false, false, Faction::Enemy, false), HitOutcome::Ignore);
}

#[test]
fn camera_framing() {
    assert_eq!(camera_focus(Some(4), true, true), CameraFocus::Structure(4));
    assert_eq!(camera_focus(Some(4), false, true), CameraFocus::Ship);
    assert_eq!(camera_focus(None, false, false), CameraFocus::Player);
    assert!(is_pulled_back(CameraFocus::Ship));
    assert!(!is_pulled_back(CameraFocus::Player));
}

#[test]
fn keyboard_axes() {
    assert_eq!(axis(true, false), 1);
    assert_eq!(axis(true, true), 0);
    assert_eq!(axis(false, true), -1);
    assert_eq!(walk_input(false, false, true, false, true, false), (-1, 1));
    assert_eq!(walk_input(true, false, true, false, true, false), (0, 0));
    assert_eq!(walk_input(false, true, true, false, false, true), (0, 0));
}

#[test]
fn starfield_generator_is_xorshift64_star() {
    let mut rng = Rng(1);
    assert_eq!(rng.next_u32(), 3136999266);
    assert_eq!(rng.0, 1082269761);
    assert_eq!(rng.next_u32(), 47868049);
    assert_eq!(rng.0, 1152992998833853505);
}

#[test]
fn footprints_in_world_units() {
    let hallway = Footprint { width: 1, depth: 2 };
    assert_eq!(footprint_extent(hallway, Facing::PosY), (50, 100));
    assert_eq!(footprint_extent(hallway, Facing::NegX), (100, 50));
}

#[test]
fn preview_attach_points() {
    let cargo = module_def(ModuleKind::Cargo);
    assert_eq!(preview_points(&cargo), vec![(-25, -50), (25, -50), (-25, 50), (25, 50)]);
    let engine = module_def(ModuleKind::Engine);
    assert_eq!(preview_points(&engine), vec![(0, -25)]);
    let hallway = module_def(ModuleKind::Hallway);
    assert_eq!(preview_points(&hallway), vec![(0, -50), (0, 50)]);
}

#[test]
fn thruster_push_directions() {
    let engine = module_def(ModuleKind::Engine);
    let thruster = module_def(ModuleKind::Thruster);
    let cargo = module_def(ModuleKind::Cargo);
    assert_eq!(thrust_directions(&engine, Facing::NegY), Some(vec![Facing::PosY]));
    assert_eq!(
        thrust_directions(&thruster, Facing::PosY),
        Some(vec![Facing::NegY, Facing::PosX, Facing::NegX])
    );
    assert_eq!(
        thrust_directions(&thruster, Facing::PosX),
        Some(vec![Facing::NegX, Facing::NegY, Facing::PosY])
    );
    assert_eq!(thrust_directions(&cargo, Facing::PosY), None);
}

#[test]
fn simulation_bubble() {
    assert_eq!(bubble_step(BubbleState::Active, false, BubbleRange::Beyond), BubbleState::Simulated);
    assert_eq!(bubble_step(BubbleState::Active, true, BubbleRange::Beyond), BubbleState::Active);
    assert_eq!(bubble_step(BubbleState::Active, false, BubbleRange::Between), BubbleState::Active);
    assert_eq!(bubble_step(BubbleState::Simulated, false, BubbleRange::Between), BubbleState::Simulated);
    assert_eq!(bubble_step(BubbleState::Simulated, false, BubbleRange::Within), BubbleState::Active);
    let slept = bubble_step(BubbleState::Active, false, BubbleRange::Beyond);
    assert_eq!(bubble_step(slept, false, BubbleRange::Beyond), BubbleState::Simulated);
}

#[test]
fn turret_mounts_accepting_a_weapon() {
    assert!(accepts_turret(ModuleKind::Turret, 5, Some(5), false));
    assert!(!accepts_turret(ModuleKind::Turret, 5, Some(5), true));
    assert!(!accepts_turret(ModuleKind::Turret, 5, Some(6), false));
    assert!(!accepts_turret(ModuleKind::Turret, 5, None, false));
    assert!(!accepts_turret(ModuleKind::Engine, 5, Some(5), false));
}

#[test]
fn starting_ship_fit_out() {
    let layout = player_ship_layout();
    assert_eq!(layout.len(), 8);
    assert_eq!(layout[0].kind, ModuleKind::Engine);
    assert_eq!((layout[0].side, layout[0].slot), (Facing::NegY, 1));
    assert_eq!(layout[2].turret, Some(Weapon { kind: TurretKind::PlayerCannon, arc: FireArc::Hull }));
    assert_eq!(layout[7].turret, Some(Weapon { kind: TurretKind::PointDefense, arc: FireArc::OverShip }));
    assert!(layout.iter().all(|p| p.slot < SHIP_SIDE_SLOTS));
    for (i, a) in layout.iter().enumerate() {
        for b in &layout[i + 1..] {
            assert!(!(a.side == b.side && a.slot == b.slot));
        }
    }
}

#[test]
fn station_hub_sides() {
    assert_eq!(hub_side(Facing::PosX), HubSide::Equipment);
    assert_eq!(hub_side(Facing::PosY), HubSide::Berth);
    assert_eq!(hub_side(Facing::NegY), HubSide::Berth);
    assert_eq!(hub_side(Facing::NegX), HubSide::Berth);
    assert_eq!(equipment_weapon(1), Some(TurretKind::Cannon));
    assert_eq!(equipment_weapon(4), Some(TurretKind::Cannon));
    assert_eq!(equipment_weapon(0), None);
    assert_eq!(equipment_weapon(5), None);
}

#[test]
fn recorded_slots_match_back() {
    let side = vec![(-50, 75), (0, 75), (50, 75)];
    assert_eq!(match_slots(&side, &vec![(0, 75), (50, 75)]), Some(vec![1, 2]));
    assert_eq!(match_slots(&side, &vec![]), Some(vec![]));
    assert_eq!(match_slots(&side, &vec![(0, 75), (25, 75)]), None);
}

#[test]
fn docking_round_trip_keeps_latches_symmetric() {
    let mut ports = vec![
        PortState { entity: 1, structure: 10, docked_to: None },
        PortState { entity: 2, structure: 20, docked_to: Some(3) },
        PortState { entity: 3, structure: 30, docked_to: Some(2) },
        PortState { entity: 4, structure: 40, docked_to: None },
    ];
    let symmetric = |ps: &Vec<PortState>| {
        ps.iter().all(|a| ps.iter().all(|b| (a.docked_to == Some(b.entity)) == (b.docked_to == Some(a.entity))))
    };
    assert!(!release_ship(&mut ports, 10));
    let pairs = dock_candidates(&ports, 10);
    assert_eq!(pairs, vec![(0, 3)]);
    latch(&mut ports, 0, 3);
    assert!(symmetric(&ports));
    assert!(release_ship(&mut ports, 10));
    assert!(symmetric(&ports));
    assert_eq!(ports[1].docked_to, Some(3));
    assert_eq!(ports[0].docked_to, None);
    assert_eq!(ports[3].docked_to, None);
}

#[test]
fn side_geometry_in_the_body_frame() {
    // The left side of a three-unit hull: points on x = -75, panels and walls in the
    // wall strip -75..-70.
    let g = side_geometry(3, 75, 75, Facing::NegX);
    assert_eq!(
        g.slots,
        vec![
            SideSlot { x: -75, y: -50, panel: Rect { x0: -75, x1: -70, y0: -70, y1: -30 } },
            SideSlot { x: -75, y: 0, panel: Rect { x0: -75, x1: -70, y0: -20, y1: 20 } },
            SideSlot { x: -75, y: 50, panel: Rect { x0: -75, x1: -70, y0: 30, y1: 70 } },
        ]
    );
    assert_eq!(
        g.walls,
        vec![
            Rect { x0: -75, x1: -70, y0: -75, y1: -70 },
            Rect { x0: -75, x1: -70, y0: -30, y1: -20 },
            Rect { x0: -75, x1: -70, y0: 20, y1: 30 },
            Rect { x0: -75, x1: -70, y0: 70, y1: 75 },
        ]
    );
    // The top side of a room one unit wide and two deep.
    let top = side_geometry(1, 25, 50, Facing::PosY);
    assert_eq!(top.slots, vec![SideSlot { x: 0, y: 50, panel: Rect { x0: -20, x1: 20, y0: 45, y1: 50 } }]);
    assert_eq!(top.walls, vec![Rect { x0: -25, x1: -20, y0: 45, y1: 50 }, Rect { x0: 20, x1: 25, y0: 45, y1: 50 }]);
    // A side longer than its slots gets longer end walls.
    let wide = side_geometry(1, 40, 40, Facing::PosX);
    assert_eq!(wide.walls, vec![Rect { x0: 35, x1: 40, y0: -40, y1: -20 }, Rect { x0: 35, x1: 40, y0: 20, y1: 40 }]);
}

fn point(entity: u64, occupied: bool) -> PointState {
    PointState { entity, panel: entity + 100, occupied }
}

#[test]
fn placing_and_deconstructing_modules() {
    let cargo = module_def(ModuleKind::Cargo);
    let engine = module_def(ModuleKind::Engine);
    let start = vec![point(1, false), point(2, false), point(3, true), point(4, false), point(5, false)];
    let mut points = start.clone();
    let placed = place_module(&cargo, Run { start: 0, len: 2 }, Some(Run { start: 3, len: 2 }), &mut points);
    assert_eq!(placed.occupied, vec![1, 2, 4, 5]);
    assert_eq!(placed.opened, vec![101, 102, 104, 105]);
    assert!(points.iter().all(|p| p.occupied));
    release_points(&mut points, &placed.occupied);
    assert_eq!(points, start);

    let solid = place_module(&engine, Run { start: 1, len: 1 }, None, &mut points);
    assert_eq!(solid.occupied, vec![2]);
    assert!(solid.opened.is_empty());
    assert!(points[1].occupied);
}
