use shipcraft::inventory::{
    add_item, apply_pending_inventories, consume_one, copy_items, drag_start, dragging_turret, drop_action,
    item_stats, module_stats, refund_deconstructed, same_item, seed_player_inventory, sync_window_to_build,
    turret_item_name, visible_slots, DragStart, DropAction, Inventory, InventorySlot, ItemKind, ItemStack,
    PendingInventories, Stat, StatFocus, StatValue,
};
use shipcraft::inventory::{inspects_world, toggle_window, WindowVisibility};
use shipcraft::modules::{module_registry, ModuleKind};
use shipcraft::text::decimal_string;
use shipcraft::turret::{FireArc, TurretKind};

fn stack(kind: ItemKind, name: &str, count: u32) -> ItemStack {
    ItemStack { kind, name: name.to_string(), count }
}

fn summary(inv: &Inventory) -> Vec<(ItemKind, String, u32)> {
    inv.items.iter().map(|s| (s.kind, s.name.clone(), s.count)).collect()
}

fn text(stat: &Stat) -> (&'static str, String) {
    match &stat.value {
        StatValue::Text(t) => (stat.label, t.clone()),
        StatValue::DefHull => (stat.label, "<def hull>".to_string()),
        StatValue::DefArmor => (stat.label, "<def armor>".to_string()),
        StatValue::DefThrust => (stat.label, "<def thrust>".to_string()),
        StatValue::LiveHull => (stat.label, "<live hull>".to_string()),
        StatValue::LiveArmor => (stat.label, "<live armor>".to_string()),
    }
}

fn lines(stats: &[Stat]) -> Vec<(&'static str, String)> {
    stats.iter().map(text).collect()
}

fn pair(label: &'static str, value: &str) -> (&'static str, String) {
    (label, value.to_string())
}

#[test]
fn adding_stacks_onto_an_identical_stack() {
    let mut inv = Inventory::new();
    let cannon = ItemKind::Turret(TurretKind::Cannon, FireArc::OverShip);
    add_item(&mut inv, cannon, "Cannon Turret".to_string());
    add_item(&mut inv, ItemKind::Component, "Circuitry".to_string());
    add_item(&mut inv, cannon, "Cannon Turret".to_string());
    // Same kind, another arc: a separate stack.
    add_item(&mut inv, ItemKind::Turret(TurretKind::Cannon, FireArc::Hull), "Cannon Turret".to_string());
    assert_eq!(
        summary(&inv),
        vec![
            (cannon, "Cannon Turret".to_string(), 2),
            (ItemKind::Component, "Circuitry".to_string(), 1),
            (ItemKind::Turret(TurretKind::Cannon, FireArc::Hull), "Cannon Turret".to_string(), 1),
        ]
    );
}

#[test]
fn consuming_undoes_adding() {
    let mut inv = Inventory::new();
    inv.items.push(stack(ItemKind::Trade, "Iron Ore", 40));
    add_item(&mut inv, ItemKind::Component, "Power Cell".to_string());
    consume_one(&mut inv, 1);
    assert_eq!(summary(&inv), vec![(ItemKind::Trade, "Iron Ore".to_string(), 40)]);
    add_item(&mut inv, ItemKind::Trade, "Iron Ore".to_string());
    consume_one(&mut inv, 0);
    assert_eq!(summary(&inv), vec![(ItemKind::Trade, "Iron Ore".to_string(), 40)]);
}

#[test]
fn consuming_the_last_item_removes_the_stack() {
    let mut inv = Inventory::new();
    inv.items.push(stack(ItemKind::Component, "A", 1));
    inv.items.push(stack(ItemKind::Component, "B", 2));
    consume_one(&mut inv, 0);
    assert_eq!(summary(&inv), vec![(ItemKind::Component, "B".to_string(), 2)]);
    consume_one(&mut inv, 5);
    assert_eq!(summary(&inv), vec![(ItemKind::Component, "B".to_string(), 2)]);
}

#[test]
fn item_kinds() {
    assert!(same_item(ItemKind::Module(ModuleKind::Dock), ItemKind::Module(ModuleKind::Dock)));
    assert!(!same_item(ItemKind::Module(ModuleKind::Dock), ItemKind::Module(ModuleKind::Cargo)));
    assert!(!same_item(ItemKind::Component, ItemKind::Trade));
    assert!(ItemKind::Component.build_relevant());
    assert!(!ItemKind::Trade.build_relevant());
    assert_eq!(turret_item_name(TurretKind::Cannon), "Cannon Turret");
    assert_eq!(turret_item_name(TurretKind::PointDefense), "Point-defense Turret");
}

#[test]
fn starter_inventory() {
    let registry = module_registry();
    let mut inv = Inventory::new();
    seed_player_inventory(&mut inv, &registry);
    assert_eq!(
        summary(&inv),
        vec![
            (ItemKind::Module(ModuleKind::Cargo), "Cargo".to_string(), 3),
            (ItemKind::Module(ModuleKind::Hallway), "Hallway".to_string(), 4),
            (ItemKind::Module(ModuleKind::Thruster), "Thruster".to_string(), 2),
            (ItemKind::Module(ModuleKind::Turret), "Turret".to_string(), 1),
            (ItemKind::Module(ModuleKind::Engine), "Engine".to_string(), 2),
            (ItemKind::Component, "Steel Plate".to_string(), 12),
            (ItemKind::Component, "Power Cell".to_string(), 5),
            (ItemKind::Component, "Circuitry".to_string(), 8),
            (ItemKind::Turret(TurretKind::Cannon, FireArc::OverShip), "Cannon Turret".to_string(), 2),
            (ItemKind::Turret(TurretKind::PointDefense, FireArc::OverShip), "Point-defense Turret".to_string(), 1),
            (ItemKind::Trade, "Iron Ore".to_string(), 40),
            (ItemKind::Trade, "Med Supplies".to_string(), 6),
        ]
    );
    // Building hides the trade goods.
    let shown = visible_slots(&inv.items, true);
    assert_eq!(shown, (0..10).collect::<Vec<usize>>());
    assert_eq!(visible_slots(&inv.items, false).len(), 12);
}

#[test]
fn refunds_module_and_turret() {
    let registry = module_registry();
    let mut inv = Inventory::new();
    inv.items.push(stack(ItemKind::Module(ModuleKind::Turret), "Turret", 1));
    refund_deconstructed(
        &mut inv,
        ModuleKind::Turret,
        Some((TurretKind::PointDefense, FireArc::OverShip)),
        &registry,
    );
    refund_deconstructed(&mut inv, ModuleKind::Sensor, None, &registry);
    assert_eq!(
        summary(&inv),
        vec![
            (ItemKind::Module(ModuleKind::Turret), "Turret".to_string(), 2),
            (ItemKind::Turret(TurretKind::PointDefense, FireArc::OverShip), "Point-defense Turret".to_string(), 1),
            (ItemKind::Module(ModuleKind::Sensor), "Sensor".to_string(), 1),
        ]
    );
}

#[test]
fn pending_inventories_wait_for_their_structure() {
    let mut pending = PendingInventories(vec![
        (7, vec![stack(ItemKind::Trade, "Old", 1)]),
        (9, vec![stack(ItemKind::Trade, "Later", 2)]),
        (7, vec![stack(ItemKind::Component, "New", 3)]),
    ]);
    let mut start = Inventory::new();
    start.items.push(stack(ItemKind::Trade, "Kept", 5));
    let mut structures = vec![(7, Inventory::new()), (8, start)];
    apply_pending_inventories(&mut pending, &mut structures);
    assert_eq!(summary(&structures[0].1), vec![(ItemKind::Component, "New".to_string(), 3)]);
    assert_eq!(summary(&structures[1].1), vec![(ItemKind::Trade, "Kept".to_string(), 5)]);
    assert_eq!(pending.0.len(), 1);
    assert_eq!(pending.0[0].0, 9);
    assert_eq!(pending.0[0].1[0].name, "Later");
}

#[test]
fn copies_are_equal() {
    let items = vec![stack(ItemKind::Trade, "Ore", 3), stack(ItemKind::Component, "Cell", 1)];
    let copy = copy_items(&items);
    assert_eq!(copy.len(), 2);
    assert_eq!(copy[0].name, "Ore");
    assert_eq!(copy[1].count, 1);
    let d = items[0].duplicate();
    assert_eq!((d.kind, d.name, d.count), (ItemKind::Trade, "Ore".to_string(), 3));
}

#[test]
fn stats_of_a_module_item() {
    let registry = module_registry();
    let stats = item_stats(&stack(ItemKind::Module(ModuleKind::Cargo), "Cargo", 12), &registry);
    assert_eq!(
        lines(&stats),
        vec![
            pair("Type", "Module - Room"),
            pair("Size", "2x2"),
            pair("Hull", "<def hull>"),
            pair("Armor", "<def armor>"),
            pair("Count", "12"),
        ]
    );
    let thruster = item_stats(&stack(ItemKind::Module(ModuleKind::Thruster), "Thruster", 2), &registry);
    assert_eq!(lines(&thruster)[0], pair("Type", "Module - Solid"));
    assert_eq!(lines(&thruster)[4], pair("Thrust", "<def thrust>"));
    let mount = item_stats(&stack(ItemKind::Module(ModuleKind::Turret), "Turret", 1), &registry);
    assert_eq!(lines(&mount)[4], pair("Mount", "Turret"));
    let hall = item_stats(&stack(ItemKind::Module(ModuleKind::Hallway), "Hallway", 1), &registry);
    assert_eq!(lines(&hall)[1], pair("Size", "1x2"));
}

#[test]
fn stats_of_other_items() {
    let registry = module_registry();
    let turret = item_stats(&stack(ItemKind::Turret(TurretKind::Cannon, FireArc::Hull), "Cannon Turret", 2), &registry);
    assert_eq!(
        lines(&turret),
        vec![pair("Type", "Turret - Cannon"), pair("Arc", "Hull"), pair("Count", "2")]
    );
    let ore = item_stats(&stack(ItemKind::Trade, "Iron Ore", 40), &registry);
    assert_eq!(lines(&ore), vec![pair("Type", "Trade good"), pair("Count", "40")]);
    let plate = item_stats(&stack(ItemKind::Component, "Steel Plate", 0), &registry);
    assert_eq!(lines(&plate), vec![pair("Type", "Component"), pair("Count", "0")]);
}

#[test]
fn stats_of_a_placed_module() {
    let registry = module_registry();
    let mount = module_stats(ModuleKind::Turret, true, false, true, &registry);
    assert_eq!(
        lines(&mount),
        vec![
            pair("Type", "Module - Solid"),
            pair("Size", "1x1"),
            pair("Hull", "<live hull>"),
            pair("Armor", "<live armor>"),
            pair("Mount", "Turret (armed)"),
            pair("Status", "Operational"),
        ]
    );
    let dock = module_stats(ModuleKind::Dock, false, true, false, &registry);
    assert_eq!(
        lines(&dock),
        vec![
            pair("Type", "Module - Docking port"),
            pair("Size", "1x1"),
            pair("Hull", "<def hull>"),
            pair("Armor", "<def armor>"),
            pair("Status", "Disabled"),
        ]
    );
    let empty = module_stats(ModuleKind::Turret, true, false, false, &registry);
    assert_eq!(lines(&empty)[4], pair("Mount", "Turret (empty)"));
}

#[test]
fn decimal_counts() {
    assert_eq!(decimal_string(0), "0");
    assert_eq!(decimal_string(7), "7");
    assert_eq!(decimal_string(40), "40");
    assert_eq!(decimal_string(4294967295), "4294967295");
}

#[test]
fn stat_focus_prefers_the_drag() {
    let a = InventorySlot { container: 1, index: 0 };
    let b = InventorySlot { container: 1, index: 3 };
    let mut focus = StatFocus::new();
    assert_eq!(focus.target(), None);
    focus.hover_start(a);
    assert_eq!(focus.target(), Some(a));
    focus.dragged = Some(b);
    assert_eq!(focus.target(), Some(b));
    focus.hover_end(b);
    assert_eq!(focus.hovered, Some(a));
    focus.hover_end(a);
    assert_eq!(focus.hovered, None);
}

#[test]
fn drags_and_drops() {
    let cannon = ItemKind::Turret(TurretKind::Cannon, FireArc::OverShip);
    assert_eq!(drag_start(true, Some((ItemKind::Module(ModuleKind::Dock), 2))), DragStart::Module(ModuleKind::Dock));
    assert_eq!(drag_start(true, Some((cannon, 1))), DragStart::Turret);
    assert_eq!(drag_start(true, Some((cannon, 0))), DragStart::Ignore);
    assert_eq!(drag_start(false, Some((cannon, 1))), DragStart::Ignore);
    assert_eq!(drag_start(true, Some((ItemKind::Component, 4))), DragStart::Ignore);
    assert_eq!(drag_start(true, None), DragStart::Ignore);
    assert_eq!(drop_action(true, Some(ItemKind::Module(ModuleKind::Cargo))), DropAction::PlaceModule);
    assert_eq!(
        drop_action(true, Some(cannon)),
        DropAction::InstallTurret(TurretKind::Cannon, FireArc::OverShip)
    );
    assert_eq!(drop_action(false, Some(cannon)), DropAction::Ignore);
    assert_eq!(drop_action(true, Some(ItemKind::Trade)), DropAction::Ignore);
    assert!(dragging_turret(true, Some(cannon)));
    assert!(!dragging_turret(false, Some(cannon)));
    assert!(!dragging_turret(true, Some(ItemKind::Component)));
}

#[test]
fn window_follows_build_mode_edges() {
    let mut seen = false;
    assert_eq!(sync_window_to_build(false, &mut seen), None);
    assert_eq!(sync_window_to_build(true, &mut seen), Some(true));
    assert!(seen);
    assert_eq!(sync_window_to_build(true, &mut seen), None);
    assert_eq!(sync_window_to_build(false, &mut seen), Some(false));
    assert!(!seen);
}

#[test]
fn hovering_built_modules() {
    let mut focus = StatFocus::new();
    assert!(inspects_world(true, false, &focus, false));
    assert!(!inspects_world(true, true, &focus, false));
    assert!(!inspects_world(false, false, &focus, false));
    assert!(!inspects_world(true, false, &focus, true));
    assert!(focus.hover_module(true, Some(12)));
    assert_eq!(focus.module, Some(12));
    assert!(!focus.hover_module(true, Some(12)));
    assert!(focus.hover_module(false, Some(12)));
    assert_eq!(focus.module, None);
    focus.dragged = Some(InventorySlot { container: 1, index: 0 });
    assert!(!inspects_world(true, false, &focus, false));
}

#[test]
fn window_toggle() {
    assert_eq!(toggle_window(WindowVisibility::Hidden), WindowVisibility::Visible);
    assert_eq!(toggle_window(WindowVisibility::Visible), WindowVisibility::Hidden);
    assert_eq!(toggle_window(WindowVisibility::Inherited), WindowVisibility::Hidden);
}
