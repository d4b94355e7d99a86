//! The inventory data model: stacks of identical items owned per structure, how items
//! stack, are consumed and refunded, the starter set, saved inventories waiting for
//! their structure, and the stat lines the stat window shows for an item.
use vstd::prelude::*;

use crate::modules::{module_role, spec_module_role, ModuleKind, ModuleRegistry};
use crate::text::{decimal, decimal_string};
use crate::turret::{spec_arc_name, spec_turret_name, FireArc, TurretKind};

verus! {

/// What an inventory item is.
#[derive(PartialEq, Eq, Structural, Clone, Copy, Debug)]
pub enum ItemKind {
    /// A buildable ship module, identified by its [`ModuleKind`]. Build-relevant.
    Module(ModuleKind),
    /// A weapon turret, installed by dragging it onto a turret mount. Build-relevant.
    Turret(TurretKind, FireArc),
    /// A build material / part. Build-relevant.
    Component,
    /// A general trade good / cargo. Not used in build mode.
    Trade,
}

impl ItemKind {
    /// Whether this item belongs in build mode: a module, a turret or a build material.
    pub fn build_relevant(&self) -> (r: bool)
        ensures
            r == !(*self is Trade),
    {
        match self {
            ItemKind::Module(_) | ItemKind::Turret(..) | ItemKind::Component => true,
            ItemKind::Trade => false,
        }
    }
}

/// Whether two item kinds are the same for stacking: the same module, the same turret
/// with the same arc, or both components, or both trade goods.
pub fn same_item(a: ItemKind, b: ItemKind) -> (r: bool)
    ensures
        r == (a == b),
{
    match (a, b) {
        (ItemKind::Module(x), ItemKind::Module(y)) => x == y,
        (ItemKind::Turret(k1, a1), ItemKind::Turret(k2, a2)) => k1 == k2 && a1 == a2,
        (ItemKind::Component, ItemKind::Component) => true,
        (ItemKind::Trade, ItemKind::Trade) => true,
        _ => false,
    }
}

/// One stack of identical items.
#[derive(Debug)]
pub struct ItemStack {
    pub kind: ItemKind,
    pub name: String,
    pub count: u32,
}

/// A stack as a value: kind, name text and count.
pub struct StackView {
    pub kind: ItemKind,
    pub name: Seq<char>,
    pub count: u32,
}

impl View for ItemStack {
    type V = StackView;

    open spec fn view(&self) -> StackView {
        StackView { kind: self.kind, name: self.name@, count: self.count }
    }
}

impl ItemStack {
    /// A stack with the same kind, name and count.
    pub fn duplicate(&self) -> (r: ItemStack)
        ensures
            r@ == self@,
    {
        ItemStack { kind: self.kind, name: self.name.clone(), count: self.count }
    }
}

/// The values of a list of stacks.
pub open spec fn stacks_view(items: Seq<ItemStack>) -> Seq<StackView> {
    items.map_values(|s: ItemStack| s@)
}

/// A copy of every stack.
pub fn copy_items(items: &Vec<ItemStack>) -> (r: Vec<ItemStack>)
    ensures
        stacks_view(r@) == stacks_view(items@),
{
    let mut r: Vec<ItemStack> = Vec::new();
    let mut i: usize = 0;
    while i < items.len()
        invariant
            i <= items@.len(),
            stacks_view(r@) == stacks_view(items@.take(i as int)),
        decreases items@.len() - i,
    {
        let s = items[i].duplicate();
        let ghost before = r@;
        r.push(s);
        assert(items@.take(i + 1) == items@.take(i as int).push(items@[i as int]));
        assert(stacks_view(r@) =~= stacks_view(before).push(s@));
        assert(stacks_view(items@.take(i + 1)) =~= stacks_view(items@.take(i as int)).push(items@[i as int]@));
        i += 1;
    }
    assert(items@.take(items@.len() as int) == items@);
    r
}

/// An inventory, owned per structure: an unbounded list of stacks.
#[derive(Debug)]
pub struct Inventory {
    pub items: Vec<ItemStack>,
}

impl View for Inventory {
    type V = Seq<StackView>;

    open spec fn view(&self) -> Seq<StackView> {
        stacks_view(self.items@)
    }
}

impl Inventory {
    /// An empty inventory.
    pub fn new() -> (r: Inventory)
        ensures
            r@ == Seq::<StackView>::empty(),
    {
        let r = Inventory { items: Vec::new() };
        assert(r@ =~= Seq::<StackView>::empty());
        r
    }
}

/// The first stack of `kind` named `name`, searching from position `from`.
pub open spec fn first_match_from(items: Seq<StackView>, kind: ItemKind, name: Seq<char>, from: int) -> Option<int>
    decreases items.len() - from,
{
    if from < 0 || from >= items.len() {
        None
    } else if items[from].kind == kind && items[from].name == name {
        Some(from)
    } else {
        first_match_from(items, kind, name, from + 1)
    }
}

/// The first stack of `kind` named `name`.
pub open spec fn first_match(items: Seq<StackView>, kind: ItemKind, name: Seq<char>) -> Option<int> {
    first_match_from(items, kind, name, 0)
}

/// The stacks after adding one item of `kind` named `name`: the first identical stack
/// grows by one, or a new stack of one is appended.
pub open spec fn spec_add_item(items: Seq<StackView>, kind: ItemKind, name: Seq<char>) -> Seq<StackView> {
    match first_match(items, kind, name) {
        Some(i) => items.update(i, StackView { count: (items[i].count + 1) as u32, ..items[i] }),
        None => items.push(StackView { kind, name, count: 1 }),
    }
}

/// The position of the stack that adding one item of `kind` named `name` touches.
pub open spec fn add_position(items: Seq<StackView>, kind: ItemKind, name: Seq<char>) -> int {
    match first_match(items, kind, name) {
        Some(i) => i,
        None => items.len() as int,
    }
}

/// Adding is possible without overflow: the stack it would grow is not full.
pub open spec fn can_add(items: Seq<StackView>, kind: ItemKind, name: Seq<char>) -> bool {
    match first_match(items, kind, name) {
        Some(i) => items[i].count < u32::MAX,
        None => true,
    }
}

/// What a first match found from `from` satisfies.
proof fn lemma_first_match_from(items: Seq<StackView>, kind: ItemKind, name: Seq<char>, from: int)
    requires
        0 <= from,
    ensures
        match first_match_from(items, kind, name, from) {
            Some(i) => from <= i < items.len() && items[i].kind == kind && items[i].name == name
                && forall|j: int| from <= j < i ==> !(items[j].kind == kind && items[j].name == name),
            None => forall|j: int| from <= j < items.len() ==> !(items[j].kind == kind && items[j].name == name),
        },
    decreases items.len() - from,
{
    if from < items.len() && !(items[from].kind == kind && items[from].name == name) {
        lemma_first_match_from(items, kind, name, from + 1);
    }
}

/// Find the first stack of `kind` named `name`.
fn find_stack(items: &Vec<ItemStack>, kind: ItemKind, name: &String) -> (r: Option<usize>)
    ensures
        r matches Some(i) ==> first_match(stacks_view(items@), kind, name@) == Some(i as int),
        r is None ==> first_match(stacks_view(items@), kind, name@) is None,
{
    proof {
        lemma_first_match_from(stacks_view(items@), kind, name@, 0);
    }
    let mut i: usize = 0;
    while i < items.len()
        invariant
            i <= items@.len(),
            first_match(stacks_view(items@), kind, name@) == first_match_from(stacks_view(items@), kind, name@, i as int),
        decreases items@.len() - i,
    {
        if same_item(items[i].kind, kind) && items[i].name == *name {
            return Some(i);
        }
        i += 1;
    }
    None
}

/// Add one of an item to `inventory`, stacking onto the first identical existing stack
/// (same kind and name) or pushing a new stack of one.
pub fn add_item(inventory: &mut Inventory, kind: ItemKind, name: String)
    requires
        can_add(old(inventory)@, kind, name@),
    ensures
        final(inventory)@ == spec_add_item(old(inventory)@, kind, name@),
{
    proof {
        lemma_first_match_from(inventory@, kind, name@, 0);
    }
    let found = find_stack(&inventory.items, kind, &name);
    match found {
        Some(i) => {
            let ghost before = inventory.items@;
            let old_stack = inventory.items.remove(i);
            assert(old_stack.count == stacks_view(before)[i as int].count);
            assert(first_match(stacks_view(before), kind, name@) == Some(i as int));
            assert(stacks_view(before)[i as int].count < u32::MAX);
            let stack = ItemStack { kind: old_stack.kind, name: old_stack.name, count: old_stack.count + 1 };
            inventory.items.insert(i, stack);
            assert(stacks_view(inventory.items@) =~= stacks_view(before).update(
                i as int,
                StackView { count: (stacks_view(before)[i as int].count + 1) as u32, ..stacks_view(before)[i as int] },
            ));
        },
        None => {
            let ghost before = inventory.items@;
            inventory.items.push(ItemStack { kind, name, count: 1 });
            assert(stacks_view(inventory.items@) =~= stacks_view(before).push(StackView { kind, name: name@, count: 1 }));
        },
    }
}

/// The stacks after consuming one item from the stack at `index`: its count drops by one
/// (never below zero) and a stack left empty is removed. An index past the end changes
/// nothing.
pub open spec fn spec_consume_one(items: Seq<StackView>, index: int) -> Seq<StackView> {
    if 0 <= index < items.len() {
        if items[index].count <= 1 {
            items.remove(index)
        } else {
            items.update(index, StackView { count: (items[index].count - 1) as u32, ..items[index] })
        }
    } else {
        items
    }
}

/// Consume one item from the stack at `index` (the installed item after a successful
/// drag into the build).
pub fn consume_one(inventory: &mut Inventory, index: usize)
    ensures
        final(inventory)@ == spec_consume_one(old(inventory)@, index as int),
{
    if index < inventory.items.len() {
        let ghost before = inventory.items@;
        let old_stack = inventory.items.remove(index);
        let count = if old_stack.count > 0 { old_stack.count - 1 } else { 0 };
        if count == 0 {
            assert(stacks_view(inventory.items@) =~= stacks_view(before).remove(index as int));
        } else {
            inventory.items.insert(index, ItemStack { kind: old_stack.kind, name: old_stack.name, count });
            assert(stacks_view(inventory.items@) =~= stacks_view(before).update(
                index as int,
                StackView { count: (stacks_view(before)[index as int].count - 1) as u32, ..stacks_view(before)[index as int] },
            ));
        }
    }
}

/// No two stacks hold the same item (same kind and name).
pub open spec fn stacks_distinct(items: Seq<StackView>) -> bool {
    forall|i: int, j: int|
        0 <= i < items.len() && 0 <= j < items.len() && i != j ==> !(items[i].kind == items[j].kind
            && items[i].name == items[j].name)
}

/// Every stack holds at least one item.
pub open spec fn stacks_nonempty(items: Seq<StackView>) -> bool {
    forall|i: int| 0 <= i < items.len() ==> items[i].count >= 1
}

/// Stacking keeps identical items together: adding an item to an inventory whose stacks
/// are all distinct leaves them distinct.
pub proof fn law_add_keeps_stacks_distinct(items: Seq<StackView>, kind: ItemKind, name: Seq<char>)
    requires
        stacks_distinct(items),
    ensures
        stacks_distinct(spec_add_item(items, kind, name)),
{
    lemma_first_match_from(items, kind, name, 0);
    let r = spec_add_item(items, kind, name);
    match first_match(items, kind, name) {
        Some(k) => {
            assert forall|i: int, j: int| 0 <= i < r.len() && 0 <= j < r.len() && i != j implies !(r[i].kind == r[j].kind && r[i].name == r[j].name) by {
                assert(r[i].kind == items[i].kind && r[i].name == items[i].name);
                assert(r[j].kind == items[j].kind && r[j].name == items[j].name);
            }
        },
        None => {
            assert forall|i: int, j: int| 0 <= i < r.len() && 0 <= j < r.len() && i != j implies !(r[i].kind == r[j].kind && r[i].name == r[j].name) by {
                if i < items.len() && j < items.len() {
                    assert(r[i] == items[i] && r[j] == items[j]);
                }
            }
        },
    }
}

/// A consumption undoes an addition: consuming one item from the stack an addition
/// touched gives back the inventory as it was, when every stack held at least one item.
pub proof fn law_consume_undoes_add(items: Seq<StackView>, kind: ItemKind, name: Seq<char>)
    requires
        stacks_nonempty(items),
        can_add(items, kind, name),
    ensures
        spec_consume_one(spec_add_item(items, kind, name), add_position(items, kind, name)) == items,
{
    lemma_first_match_from(items, kind, name, 0);
    let r = spec_add_item(items, kind, name);
    let p = add_position(items, kind, name);
    match first_match(items, kind, name) {
        Some(k) => {
            assert(r[k].count == items[k].count + 1);
            assert(spec_consume_one(r, p) =~= items);
        },
        None => {
            assert(r.remove(p) =~= items);
        },
    }
}

/// The number of items across all stacks.
pub open spec fn total_count(items: Seq<StackView>) -> int
    decreases items.len(),
{
    if items.len() == 0 {
        0
    } else {
        total_count(items.drop_last()) + items.last().count
    }
}

/// Replacing one stack changes the total by the change of that stack's count.
proof fn lemma_total_update(items: Seq<StackView>, i: int, v: StackView)
    requires
        0 <= i < items.len(),
    ensures
        total_count(items.update(i, v)) == total_count(items) - items[i].count + v.count,
    decreases items.len(),
{
    let u = items.update(i, v);
    if i == items.len() - 1 {
        assert(u.drop_last() =~= items.drop_last());
    } else {
        assert(u.drop_last() =~= items.drop_last().update(i, v));
        lemma_total_update(items.drop_last(), i, v);
    }
}

/// Removing one stack takes its count off the total.
proof fn lemma_total_remove(items: Seq<StackView>, i: int)
    requires
        0 <= i < items.len(),
    ensures
        total_count(items.remove(i)) == total_count(items) - items[i].count,
    decreases items.len(),
{
    let r = items.remove(i);
    if i == items.len() - 1 {
        assert(r =~= items.drop_last());
    } else {
        assert(r.drop_last() =~= items.drop_last().remove(i));
        assert(r.last() == items.last());
        lemma_total_remove(items.drop_last(), i);
    }
}

/// Items are neither lost nor duplicated: adding one item raises the total count by
/// exactly one, and taking one from an existing stack lowers it by exactly one.
pub proof fn law_item_count_conserved(items: Seq<StackView>, kind: ItemKind, name: Seq<char>, index: int)
    requires
        can_add(items, kind, name),
    ensures
        total_count(spec_add_item(items, kind, name)) == total_count(items) + 1,
        0 <= index < items.len() && items[index].count >= 1 ==> total_count(spec_consume_one(items, index))
            == total_count(items) - 1,
{
    lemma_first_match_from(items, kind, name, 0);
    match first_match(items, kind, name) {
        Some(i) => {
            lemma_total_update(items, i, StackView { count: (items[i].count + 1) as u32, ..items[i] });
        },
        None => {
            let p = items.push(StackView { kind, name, count: 1 });
            assert(p.drop_last() =~= items);
        },
    }
    if 0 <= index < items.len() && items[index].count >= 1 {
        if items[index].count <= 1 {
            lemma_total_remove(items, index);
        } else {
            lemma_total_update(items, index, StackView { count: (items[index].count - 1) as u32, ..items[index] });
        }
    }
}

/// The registry has a definition for every module kind.
pub open spec fn registry_complete(registry: &ModuleRegistry) -> bool {
    forall|k: ModuleKind| (#[trigger] registry.spec_get(k)) is Some
}

/// The name of the module item of `kind`: its registry definition's name.
pub open spec fn module_item_name(registry: &ModuleRegistry, kind: ModuleKind) -> Seq<char> {
    registry.spec_get(kind).unwrap().name@
}

/// The name of the turret item of `kind`: the weapon's name followed by " Turret".
pub open spec fn spec_turret_item_name(kind: TurretKind) -> Seq<char> {
    spec_turret_name(kind)@ + " Turret"@
}

/// Display name for a turret item of `kind`, derived in one place so every stack of the
/// same turret gets the same name and stacks merge.
pub fn turret_item_name(kind: TurretKind) -> (r: String)
    ensures
        r@ == spec_turret_item_name(kind),
{
    String::from_str(kind.name()).concat(" Turret")
}

/// The name of the module item of `kind`, from the registry.
pub fn module_item_name_exec(registry: &ModuleRegistry, kind: ModuleKind) -> (r: String)
    requires
        registry_complete(registry),
    ensures
        r@ == module_item_name(registry, kind),
{
    assert(registry.spec_get(kind) is Some);
    String::from_str(registry.get(kind).name)
}

/// Refund a deconstructed module, and its turret weapon if it was an armed mount, to
/// `inventory`: one module item (named from the registry), then one turret item.
pub fn refund_deconstructed(
    inventory: &mut Inventory,
    kind: ModuleKind,
    turret: Option<(TurretKind, FireArc)>,
    registry: &ModuleRegistry,
)
    requires
        registry_complete(registry),
        can_add(old(inventory)@, ItemKind::Module(kind), module_item_name(registry, kind)),
        turret matches Some((tk, arc)) ==> can_add(
            spec_add_item(old(inventory)@, ItemKind::Module(kind), module_item_name(registry, kind)),
            ItemKind::Turret(tk, arc),
            spec_turret_item_name(tk),
        ),
    ensures
        ({
            let after_module = spec_add_item(old(inventory)@, ItemKind::Module(kind), module_item_name(registry, kind));
            match turret {
                Some((tk, arc)) => final(inventory)@ == spec_add_item(after_module, ItemKind::Turret(tk, arc), spec_turret_item_name(tk)),
                None => final(inventory)@ == after_module,
            }
        }),
{
    let name = module_item_name_exec(registry, kind);
    add_item(inventory, ItemKind::Module(kind), name);
    if let Some((tk, arc)) = turret {
        add_item(inventory, ItemKind::Turret(tk, arc), turret_item_name(tk));
    }
}

/// A stack as a value.
pub open spec fn stack_view(kind: ItemKind, name: Seq<char>, count: u32) -> StackView {
    StackView { kind, name, count }
}

/// The starter set a new player ship is seeded with: modules (named from the registry),
/// build components, turrets, and some trade cargo.
pub open spec fn starter_items(registry: &ModuleRegistry) -> Seq<StackView> {
    seq![
        stack_view(ItemKind::Module(ModuleKind::Cargo), module_item_name(registry, ModuleKind::Cargo), 3),
        stack_view(ItemKind::Module(ModuleKind::Hallway), module_item_name(registry, ModuleKind::Hallway), 4),
        stack_view(ItemKind::Module(ModuleKind::Thruster), module_item_name(registry, ModuleKind::Thruster), 2),
        stack_view(ItemKind::Module(ModuleKind::Turret), module_item_name(registry, ModuleKind::Turret), 1),
        stack_view(ItemKind::Module(ModuleKind::Engine), module_item_name(registry, ModuleKind::Engine), 2),
        stack_view(ItemKind::Component, "Steel Plate"@, 12),
        stack_view(ItemKind::Component, "Power Cell"@, 5),
        stack_view(ItemKind::Component, "Circuitry"@, 8),
        stack_view(ItemKind::Turret(TurretKind::Cannon, FireArc::OverShip), spec_turret_item_name(TurretKind::Cannon), 2),
        stack_view(ItemKind::Turret(TurretKind::PointDefense, FireArc::OverShip), spec_turret_item_name(TurretKind::PointDefense), 1),
        stack_view(ItemKind::Trade, "Iron Ore"@, 40),
        stack_view(ItemKind::Trade, "Med Supplies"@, 6),
    ]
}

/// Push one stack.
fn push_stack(inventory: &mut Inventory, kind: ItemKind, name: String, count: u32)
    ensures
        final(inventory)@ == old(inventory)@.push(stack_view(kind, name@, count)),
{
    let ghost before = inventory.items@;
    inventory.items.push(ItemStack { kind, name, count });
    assert(stacks_view(inventory.items@) =~= stacks_view(before).push(stack_view(kind, name@, count)));
}

/// Fill the player ship's inventory with the starter set (appended after whatever it
/// holds).
pub fn seed_player_inventory(inventory: &mut Inventory, registry: &ModuleRegistry)
    requires
        registry_complete(registry),
    ensures
        final(inventory)@ == old(inventory)@ + starter_items(registry),
{
    let ghost before = inventory@;
    push_stack(inventory, ItemKind::Module(ModuleKind::Cargo), module_item_name_exec(registry, ModuleKind::Cargo), 3);
    push_stack(inventory, ItemKind::Module(ModuleKind::Hallway), module_item_name_exec(registry, ModuleKind::Hallway), 4);
    push_stack(inventory, ItemKind::Module(ModuleKind::Thruster), module_item_name_exec(registry, ModuleKind::Thruster), 2);
    push_stack(inventory, ItemKind::Module(ModuleKind::Turret), module_item_name_exec(registry, ModuleKind::Turret), 1);
    push_stack(inventory, ItemKind::Module(ModuleKind::Engine), module_item_name_exec(registry, ModuleKind::Engine), 2);
    push_stack(inventory, ItemKind::Component, String::from_str("Steel Plate"), 12);
    push_stack(inventory, ItemKind::Component, String::from_str("Power Cell"), 5);
    push_stack(inventory, ItemKind::Component, String::from_str("Circuitry"), 8);
    push_stack(inventory, ItemKind::Turret(TurretKind::Cannon, FireArc::OverShip), turret_item_name(TurretKind::Cannon), 2);
    push_stack(inventory, ItemKind::Turret(TurretKind::PointDefense, FireArc::OverShip), turret_item_name(TurretKind::PointDefense), 1);
    push_stack(inventory, ItemKind::Trade, String::from_str("Iron Ore"), 40);
    push_stack(inventory, ItemKind::Trade, String::from_str("Med Supplies"), 6);
    assert(inventory@ =~= before + starter_items(registry));
}

// ---------------------------------------------------------------------------
// Saved inventories waiting for their structure
// ---------------------------------------------------------------------------

/// Saved inventories waiting to be applied: `(instance id, items)` entries, retried until
/// a structure with that id exists.
#[derive(Debug)]
pub struct PendingInventories(pub Vec<(u64, Vec<ItemStack>)>);

/// The values of pending entries.
pub open spec fn pending_view(p: Seq<(u64, Vec<ItemStack>)>) -> Seq<(u64, Seq<StackView>)> {
    p.map_values(|e: (u64, Vec<ItemStack>)| (e.0, stacks_view(e.1@)))
}

/// The values of structures' inventories, by instance id.
pub open spec fn structures_view(s: Seq<(u64, Inventory)>) -> Seq<(u64, Seq<StackView>)> {
    s.map_values(|e: (u64, Inventory)| (e.0, e.1@))
}

/// The items of the last pending entry for `id`, if any.
pub open spec fn last_pending(p: Seq<(u64, Seq<StackView>)>, id: u64) -> Option<Seq<StackView>>
    decreases p.len(),
{
    if p.len() == 0 {
        None
    } else if p.last().0 == id {
        Some(p.last().1)
    } else {
        last_pending(p.drop_last(), id)
    }
}

/// The pending entries whose id no structure has, in order.
pub open spec fn unmatched(p: Seq<(u64, Seq<StackView>)>, ids: Seq<u64>) -> Seq<(u64, Seq<StackView>)>
    decreases p.len(),
{
    if p.len() == 0 {
        Seq::empty()
    } else if ids.contains(p.last().0) {
        unmatched(p.drop_last(), ids)
    } else {
        unmatched(p.drop_last(), ids).push(p.last())
    }
}

/// The first structure (in order) with instance id `id`, from position `from`.
pub open spec fn first_id_from(ids: Seq<u64>, id: u64, from: int) -> Option<int>
    decreases ids.len() - from,
{
    if from < 0 || from >= ids.len() {
        None
    } else if ids[from] == id {
        Some(from)
    } else {
        first_id_from(ids, id, from + 1)
    }
}

proof fn lemma_first_id_from(ids: Seq<u64>, id: u64, from: int)
    requires
        0 <= from,
    ensures
        match first_id_from(ids, id, from) {
            Some(i) => from <= i < ids.len() && ids[i] == id && forall|j: int| from <= j < i ==> ids[j] != id,
            None => forall|j: int| from <= j < ids.len() ==> ids[j] != id,
        },
    decreases ids.len() - from,
{
    if from < ids.len() && ids[from] != id {
        lemma_first_id_from(ids, id, from + 1);
    }
}

/// The instance ids of the structures, in order.
pub open spec fn structure_ids(s: Seq<(u64, Inventory)>) -> Seq<u64> {
    s.map_values(|e: (u64, Inventory)| e.0)
}

/// The items structure `j` ends with after the pending entries `p` are applied: the
/// first structure with an id takes the last pending entry for that id; every other
/// structure keeps its items.
pub open spec fn applied_items(p: Seq<(u64, Seq<StackView>)>, s: Seq<(u64, Seq<StackView>)>, ids: Seq<u64>, j: int) -> Seq<StackView> {
    if first_id_from(ids, ids[j], 0) == Some(j) && last_pending(p, ids[j]) is Some {
        last_pending(p, ids[j]).unwrap()
    } else {
        s[j].1
    }
}

/// Find the first structure with instance id `id`.
fn find_structure(structures: &Vec<(u64, Inventory)>, id: u64) -> (r: Option<usize>)
    ensures
        r matches Some(j) ==> first_id_from(structure_ids(structures@), id, 0) == Some(j as int),
        r is None ==> first_id_from(structure_ids(structures@), id, 0) is None,
{
    proof {
        lemma_first_id_from(structure_ids(structures@), id, 0);
    }
    let mut j: usize = 0;
    while j < structures.len()
        invariant
            j <= structures@.len(),
            first_id_from(structure_ids(structures@), id, 0) == first_id_from(structure_ids(structures@), id, j as int),
        decreases structures@.len() - j,
    {
        if structures[j].0 == id {
            return Some(j);
        }
        j += 1;
    }
    None
}

/// The last pending entry for `id` is the one at `k` when no later entry has that id.
proof fn lemma_last_pending_at(p: Seq<(u64, Seq<StackView>)>, id: u64, k: int)
    requires
        0 <= k < p.len(),
        p[k].0 == id,
        forall|m: int| k < m < p.len() ==> p[m].0 != id,
    ensures
        last_pending(p, id) == Some(p[k].1),
    decreases p.len(),
{
    if k < p.len() - 1 {
        let q = p.drop_last();
        assert forall|m: int| k < m < q.len() implies q[m].0 != id by {
            assert(q[m] == p[m]);
        }
        assert(q[k] == p[k]);
        lemma_last_pending_at(q, id, k);
    }
}

/// With no pending entry for `id` there is nothing to apply.
proof fn lemma_last_pending_none(p: Seq<(u64, Seq<StackView>)>, id: u64)
    requires
        forall|m: int| 0 <= m < p.len() ==> p[m].0 != id,
    ensures
        last_pending(p, id) is None,
    decreases p.len(),
{
    if p.len() > 0 {
        let q = p.drop_last();
        assert forall|m: int| 0 <= m < q.len() implies q[m].0 != id by {
            assert(q[m] == p[m]);
        }
        lemma_last_pending_none(q, id);
    }
}

/// The first structure with id `ids[j]` is `j` when no earlier structure has that id.
proof fn lemma_first_id_at(ids: Seq<u64>, from: int, j: int)
    requires
        0 <= from <= j < ids.len(),
        forall|i: int| from <= i < j ==> ids[i] != ids[j],
    ensures
        first_id_from(ids, ids[j], from) == Some(j),
    decreases j - from,
{
    if from < j {
        lemma_first_id_from_step(ids, ids[j], from);
        lemma_first_id_at(ids, from + 1, j);
    }
}

proof fn lemma_first_id_from_step(ids: Seq<u64>, id: u64, from: int)
    requires
        0 <= from < ids.len(),
        ids[from] != id,
    ensures
        first_id_from(ids, id, from) == first_id_from(ids, id, from + 1),
{
}

/// A saved inventory replaces the structure's items outright: the first structure with
/// an instance id that has pending entries ends with exactly the items of the last such
/// entry, whatever they are (an empty list included), regardless of what it held.
pub proof fn law_saved_inventory_overwrites(
    p: Seq<(u64, Seq<StackView>)>,
    s: Seq<(u64, Seq<StackView>)>,
    ids: Seq<u64>,
    j: int,
    k: int,
)
    requires
        0 <= j < ids.len(),
        forall|i: int| 0 <= i < j ==> ids[i] != ids[j],
        0 <= k < p.len(),
        p[k].0 == ids[j],
        forall|m: int| k < m < p.len() ==> p[m].0 != ids[j],
    ensures
        applied_items(p, s, ids, j) == p[k].1,
{
    lemma_first_id_at(ids, 0, j);
    lemma_last_pending_at(p, ids[j], k);
}

/// A structure keeps its own items when nothing pending names its id, or when an earlier
/// structure has the same id (only the first with an id is loaded into).
pub proof fn law_unnamed_structures_keep_items(
    p: Seq<(u64, Seq<StackView>)>,
    s: Seq<(u64, Seq<StackView>)>,
    ids: Seq<u64>,
    j: int,
)
    requires
        0 <= j < ids.len(),
        (forall|m: int| 0 <= m < p.len() ==> p[m].0 != ids[j]) || (exists|i: int| 0 <= i < j && ids[i] == ids[j]),
    ensures
        applied_items(p, s, ids, j) == s[j].1,
{
    lemma_first_id_from(ids, ids[j], 0);
    if forall|m: int| 0 <= m < p.len() ==> p[m].0 != ids[j] {
        lemma_last_pending_none(p, ids[j]);
    } else {
        let i = choose|i: int| 0 <= i < j && ids[i] == ids[j];
        assert(first_id_from(ids, ids[j], 0) != Some(j));
    }
}

/// Entries stay pending exactly when no structure has their id, in their order: what
/// remains is the pending list filtered to the ids no structure carries.
pub proof fn law_unmatched_entries_stay(p: Seq<(u64, Seq<StackView>)>, ids: Seq<u64>)
    ensures
        unmatched(p, ids) == p.filter(|e: (u64, Seq<StackView>)| !ids.contains(e.0)),
    decreases p.len(),
{
    reveal(Seq::filter);
    if p.len() > 0 {
        law_unmatched_entries_stay(p.drop_last(), ids);
    }
}

/// Apply pending saved inventories to the structures that now exist, matched by instance
/// id: the first structure with an entry's id takes a copy of its items (a later entry
/// for the same id overwrites an earlier one), and the entry is dropped. Entries whose
/// structure does not exist yet stay pending, in order, to retry later.
pub fn apply_pending_inventories(pending: &mut PendingInventories, structures: &mut Vec<(u64, Inventory)>)
    ensures
        pending_view(final(pending).0@) == unmatched(pending_view(old(pending).0@), structure_ids(old(structures)@)),
        final(structures)@.len() == old(structures)@.len(),
        structure_ids(final(structures)@) == structure_ids(old(structures)@),
        forall|j: int| 0 <= j < final(structures)@.len() ==> #[trigger] final(structures)@[j].1@ == applied_items(
            pending_view(old(pending).0@),
            structures_view(old(structures)@),
            structure_ids(old(structures)@),
            j,
        ),
{
    let ghost p = pending_view(pending.0@);
    let ghost s0 = structures_view(structures@);
    let ghost ids = structure_ids(structures@);
    if pending.0.len() == 0 {
        assert(unmatched(p, ids) =~= p);
        assert forall|j: int| 0 <= j < structures@.len() implies #[trigger] structures@[j].1@ == applied_items(p, s0, ids, j) by {
            assert(last_pending(p, ids[j]) is None);
        }
        return;
    }
    let mut kept: Vec<(u64, Vec<ItemStack>)> = Vec::new();
    let mut i: usize = 0;
    while i < pending.0.len()
        invariant
            i <= pending.0@.len(),
            p == pending_view(pending.0@),
            structures@.len() == s0.len(),
            structure_ids(structures@) == ids,
            ids.len() == s0.len(),
            forall|j: int| 0 <= j < ids.len() ==> #[trigger] ids[j] == s0[j].0,
            pending_view(kept@) == unmatched(p.take(i as int), ids),
            forall|j: int| 0 <= j < structures@.len() ==> #[trigger] structures@[j].1@ == applied_items(p.take(i as int), s0, ids, j),
        decreases pending.0@.len() - i,
    {
        let want = pending.0[i].0;
        let ghost pi = p.take(i as int);
        let ghost pn = p.take(i + 1);
        assert(pn.drop_last() == pi);
        assert(pn.last() == p[i as int]);
        assert(p[i as int] == (want, stacks_view(pending.0@[i as int].1@)));
        let found = find_structure(structures, want);
        proof {
            lemma_first_id_from(ids, want, 0);
        }
        match found {
            Some(j0) => {
                let items = copy_items(&pending.0[i].1);
                let ghost before = structures@;
                let entry = (want, Inventory { items });
                structures.set(j0, entry);
                assert(ids.contains(want));
                assert(unmatched(pn, ids) == unmatched(pi, ids));
                assert(structure_ids(structures@) =~= ids) by {
                    assert forall|j: int| 0 <= j < ids.len() implies structure_ids(structures@)[j] == ids[j] by {
                        if j == j0 as int {
                            assert(structures@[j].0 == want);
                        } else {
                            assert(structures@[j] == before[j]);
                        }
                    }
                }
                assert forall|j: int| 0 <= j < structures@.len() implies #[trigger] structures@[j].1@ == applied_items(pn, s0, ids, j) by {
                    if j == j0 as int {
                        assert(last_pending(pn, want) == Some(stacks_view(pending.0@[i as int].1@)));
                    } else {
                        assert(structures@[j] == before[j]);
                        if ids[j] != want {
                            assert(last_pending(pn, ids[j]) == last_pending(pi, ids[j]));
                        } else {
                            assert(first_id_from(ids, ids[j], 0) != Some(j));
                        }
                    }
                }
            },
            None => {
                let items = copy_items(&pending.0[i].1);
                let ghost before = kept@;
                kept.push((want, items));
                assert(!ids.contains(want)) by {
                    if ids.contains(want) {
                        let w = choose|w: int| 0 <= w < ids.len() && ids[w] == want;
                        assert(ids[w] != want);
                    }
                }
                assert(unmatched(pn, ids) == unmatched(pi, ids).push(p[i as int]));
                assert(pending_view(kept@) =~= pending_view(before).push(p[i as int]));
                assert forall|j: int| 0 <= j < structures@.len() implies #[trigger] structures@[j].1@ == applied_items(pn, s0, ids, j) by {
                    assert(ids[j] != want);
                    assert(last_pending(pn, ids[j]) == last_pending(pi, ids[j]));
                }
            },
        }
        i += 1;
    }
    assert(p.take(pending.0@.len() as int) == p);
    pending.0 = kept;
}

// ---------------------------------------------------------------------------
// Stat lines
// ---------------------------------------------------------------------------

/// The value of one stat line. Text values are final; the numeric ones name the
/// durability/thrust figure the renderer formats from the module's physical data.
#[derive(Debug)]
pub enum StatValue {
    Text(String),
    /// The definition's maximum health.
    DefHull,
    /// The definition's armor.
    DefArmor,
    /// The definition's thrust strength.
    DefThrust,
    /// A placed module's live `current / max` health.
    LiveHull,
    /// A placed module's live armor.
    LiveArmor,
}

/// A stat value as a value.
pub enum StatValueView {
    Text(Seq<char>),
    DefHull,
    DefArmor,
    DefThrust,
    LiveHull,
    LiveArmor,
}

impl View for StatValue {
    type V = StatValueView;

    open spec fn view(&self) -> StatValueView {
        match self {
            StatValue::Text(s) => StatValueView::Text(s@),
            StatValue::DefHull => StatValueView::DefHull,
            StatValue::DefArmor => StatValueView::DefArmor,
            StatValue::DefThrust => StatValueView::DefThrust,
            StatValue::LiveHull => StatValueView::LiveHull,
            StatValue::LiveArmor => StatValueView::LiveArmor,
        }
    }
}

/// One displayed stat line: a label and its value.
#[derive(Debug)]
pub struct Stat {
    pub label: &'static str,
    pub value: StatValue,
}

/// A stat line as a value.
pub struct StatView {
    pub label: &'static str,
    pub value: StatValueView,
}

impl View for Stat {
    type V = StatView;

    open spec fn view(&self) -> StatView {
        StatView { label: self.label, value: self.value@ }
    }
}

/// The values of a list of stat lines.
pub open spec fn stats_view(v: Seq<Stat>) -> Seq<StatView> {
    v.map_values(|s: Stat| s@)
}

/// A stat line with a text value.
pub open spec fn text_line(label: &'static str, text: Seq<char>) -> StatView {
    StatView { label, value: StatValueView::Text(text) }
}

/// A stat line with a figure the renderer fills in.
pub open spec fn figure_line(label: &'static str, value: StatValueView) -> StatView {
    StatView { label, value }
}

/// "Module - <role>".
pub open spec fn module_type_text(registry: &ModuleRegistry, kind: ModuleKind) -> Seq<char> {
    "Module - "@ + spec_module_role(registry.spec_get(kind).unwrap())@
}

/// "<width>x<depth>" of the module's footprint.
pub open spec fn module_size_text(registry: &ModuleRegistry, kind: ModuleKind) -> Seq<char> {
    let f = registry.spec_get(kind).unwrap().footprint;
    decimal(f.width as nat) + "x"@ + decimal(f.depth as nat)
}

/// The optional thrust and mount lines of a module definition.
pub open spec fn module_extra_lines(registry: &ModuleRegistry, kind: ModuleKind) -> Seq<StatView> {
    let def = registry.spec_get(kind).unwrap();
    (if def.thrust is Some { seq![figure_line("Thrust", StatValueView::DefThrust)] } else { Seq::empty() })
        + (if def.mounts_turret { seq![text_line("Mount", "Turret"@)] } else { Seq::empty() })
}

/// The stat lines of an inventory stack of `kind` with `count` items.
pub open spec fn spec_item_stats(registry: &ModuleRegistry, kind: ItemKind, count: u32) -> Seq<StatView> {
    let lines = match kind {
        ItemKind::Module(k) => seq![
            text_line("Type", module_type_text(registry, k)),
            text_line("Size", module_size_text(registry, k)),
            figure_line("Hull", StatValueView::DefHull),
            figure_line("Armor", StatValueView::DefArmor),
        ] + module_extra_lines(registry, k),
        ItemKind::Turret(k, arc) => seq![
            text_line("Type", "Turret - "@ + spec_turret_name(k)@),
            text_line("Arc", spec_arc_name(arc)@),
        ],
        ItemKind::Component => seq![text_line("Type", "Component"@)],
        ItemKind::Trade => seq![text_line("Type", "Trade good"@)],
    };
    lines.push(text_line("Count", decimal(count as nat)))
}

/// Append a stat line.
fn push_stat(stats: &mut Vec<Stat>, label: &'static str, value: StatValue)
    ensures
        stats_view(final(stats)@) == stats_view(old(stats)@).push(StatView { label, value: value@ }),
{
    let ghost before = stats@;
    let ghost v = value@;
    stats.push(Stat { label, value });
    assert(stats_view(stats@) =~= stats_view(before).push(StatView { label, value: v }));
}

/// Append the "Type" and "Size" lines of a module definition.
fn push_module_head(stats: &mut Vec<Stat>, registry: &ModuleRegistry, kind: ModuleKind)
    requires
        registry_complete(registry),
    ensures
        stats_view(final(stats)@) == stats_view(old(stats)@) + seq![
            text_line("Type", module_type_text(registry, kind)),
            text_line("Size", module_size_text(registry, kind)),
        ],
{
    assert(registry.spec_get(kind) is Some);
    let def = registry.get(kind);
    let ghost before = stats_view(stats@);
    let type_text = String::from_str("Module - ").concat(module_role(def));
    push_stat(stats, "Type", StatValue::Text(type_text));
    let size = decimal_string(def.footprint.width).concat("x");
    let size = size.concat(decimal_string(def.footprint.depth).as_str());
    push_stat(stats, "Size", StatValue::Text(size));
    assert(stats_view(stats@) =~= before + seq![
        text_line("Type", module_type_text(registry, kind)),
        text_line("Size", module_size_text(registry, kind)),
    ]);
}

/// The stats shown for an inventory stack: the module's role, size, hull, armor and
/// optional thrust/mount lines; a turret's role and arc; or the good's type; then the
/// count. The single, extensible place to add item stats.
pub fn item_stats(stack: &ItemStack, registry: &ModuleRegistry) -> (r: Vec<Stat>)
    requires
        registry_complete(registry),
    ensures
        stats_view(r@) == spec_item_stats(registry, stack.kind, stack.count),
{
    let mut stats: Vec<Stat> = Vec::new();
    let ghost start = stats_view(stats@);
    assert(start =~= Seq::<StatView>::empty());
    match stack.kind {
        ItemKind::Module(kind) => {
            push_module_head(&mut stats, registry, kind);
            push_stat(&mut stats, "Hull", StatValue::DefHull);
            push_stat(&mut stats, "Armor", StatValue::DefArmor);
            let ghost head = stats_view(stats@);
            assert(registry.spec_get(kind) is Some);
            let def = registry.get(kind);
            if def.thrust.is_some() {
                push_stat(&mut stats, "Thrust", StatValue::DefThrust);
            }
            let ghost mid = stats_view(stats@);
            if def.mounts_turret {
                push_stat(&mut stats, "Mount", StatValue::Text(String::from_str("Turret")));
            }
            assert(stats_view(stats@) =~= head + module_extra_lines(registry, kind));
        },
        ItemKind::Turret(kind, arc) => {
            push_stat(&mut stats, "Type", StatValue::Text(String::from_str("Turret - ").concat(kind.name())));
            push_stat(&mut stats, "Arc", StatValue::Text(String::from_str(arc.name())));
        },
        ItemKind::Component => {
            push_stat(&mut stats, "Type", StatValue::Text(String::from_str("Component")));
        },
        ItemKind::Trade => {
            push_stat(&mut stats, "Type", StatValue::Text(String::from_str("Trade good")));
        },
    }
    let ghost lines = stats_view(stats@);
    push_stat(&mut stats, "Count", StatValue::Text(decimal_string(stack.count)));
    assert(lines =~= match stack.kind {
        ItemKind::Module(k) => seq![
            text_line("Type", module_type_text(registry, k)),
            text_line("Size", module_size_text(registry, k)),
            figure_line("Hull", StatValueView::DefHull),
            figure_line("Armor", StatValueView::DefArmor),
        ] + module_extra_lines(registry, k),
        ItemKind::Turret(k, arc) => seq![
            text_line("Type", "Turret - "@ + spec_turret_name(k)@),
            text_line("Arc", spec_arc_name(arc)@),
        ],
        ItemKind::Component => seq![text_line("Type", "Component"@)],
        ItemKind::Trade => seq![text_line("Type", "Trade good"@)],
    });
    stats
}

/// The stat lines of a placed module hovered in build mode.
pub open spec fn spec_module_stats(
    registry: &ModuleRegistry,
    kind: ModuleKind,
    has_health: bool,
    disabled: bool,
    has_turret: bool,
) -> Seq<StatView> {
    let def = registry.spec_get(kind).unwrap();
    seq![
        text_line("Type", module_type_text(registry, kind)),
        text_line("Size", module_size_text(registry, kind)),
        figure_line("Hull", if has_health { StatValueView::LiveHull } else { StatValueView::DefHull }),
        figure_line("Armor", if has_health { StatValueView::LiveArmor } else { StatValueView::DefArmor }),
    ] + (if def.thrust is Some { seq![figure_line("Thrust", StatValueView::DefThrust)] } else { Seq::empty() })
        + (if def.mounts_turret {
        seq![text_line("Mount", if has_turret { "Turret (armed)"@ } else { "Turret (empty)"@ })]
    } else {
        Seq::empty()
    }) + seq![text_line("Status", if disabled { "Disabled"@ } else { "Operational"@ })]
}

/// Stats for a placed module: like the item stats, but the hull and armor are the live
/// figures when the module has health, the mount says whether it is armed, and a status
/// line says whether it is disabled.
pub fn module_stats(
    kind: ModuleKind,
    has_health: bool,
    disabled: bool,
    has_turret: bool,
    registry: &ModuleRegistry,
) -> (r: Vec<Stat>)
    requires
        registry_complete(registry),
    ensures
        stats_view(r@) == spec_module_stats(registry, kind, has_health, disabled, has_turret),
{
    let mut stats: Vec<Stat> = Vec::new();
    assert(stats_view(stats@) =~= Seq::<StatView>::empty());
    push_module_head(&mut stats, registry, kind);
    if has_health {
        push_stat(&mut stats, "Hull", StatValue::LiveHull);
        push_stat(&mut stats, "Armor", StatValue::LiveArmor);
    } else {
        push_stat(&mut stats, "Hull", StatValue::DefHull);
        push_stat(&mut stats, "Armor", StatValue::DefArmor);
    }
    let ghost head = stats_view(stats@);
    assert(registry.spec_get(kind) is Some);
    let def = registry.get(kind);
    if def.thrust.is_some() {
        push_stat(&mut stats, "Thrust", StatValue::DefThrust);
    }
    let ghost with_thrust = stats_view(stats@);
    if def.mounts_turret {
        let text = if has_turret { String::from_str("Turret (armed)") } else { String::from_str("Turret (empty)") };
        push_stat(&mut stats, "Mount", StatValue::Text(text));
    }
    let ghost with_mount = stats_view(stats@);
    let status = if disabled { String::from_str("Disabled") } else { String::from_str("Operational") };
    push_stat(&mut stats, "Status", StatValue::Text(status));
    assert(stats_view(stats@) =~= spec_module_stats(registry, kind, has_health, disabled, has_turret));
    stats
}

// ---------------------------------------------------------------------------
// The window's view over the model: visible slots, focus, drag decisions
// ---------------------------------------------------------------------------

/// The stack positions the inventory window shows: every stack, or while building only
/// the build-relevant ones, in order.
pub fn visible_slots(items: &Vec<ItemStack>, building: bool) -> (r: Vec<usize>)
    ensures
        forall|q: int| 0 <= q < r@.len() ==> r@[q] < items@.len(),
        forall|p: int, q: int| 0 <= p < q < r@.len() ==> r@[p] < r@[q],
        forall|i: int| 0 <= i < items@.len() ==> (r@.contains(i as usize) <==> (!building || !(items@[i].kind is Trade))),
{
    let mut r: Vec<usize> = Vec::new();
    let mut i: usize = 0;
    while i < items.len()
        invariant
            i <= items@.len(),
            forall|q: int| 0 <= q < r@.len() ==> r@[q] < i,
            forall|p: int, q: int| 0 <= p < q < r@.len() ==> r@[p] < r@[q],
            forall|j: int| 0 <= j < i ==> (r@.contains(j as usize) <==> (!building || !(items@[j].kind is Trade))),
        decreases items@.len() - i,
    {
        let ghost before = r@;
        if !building || items[i].kind.build_relevant() {
            r.push(i);
            assert forall|j: int| 0 <= j < i + 1 implies (r@.contains(j as usize) <==> (!building || !(items@[j].kind is Trade))) by {
                if j < i {
                    if before.contains(j as usize) {
                        let q = choose|q: int| 0 <= q < before.len() && before[q] == j as usize;
                        assert(r@[q] == j as usize);
                    }
                    if r@.contains(j as usize) {
                        let q = choose|q: int| 0 <= q < r@.len() && r@[q] == j as usize;
                        assert(q < before.len());
                        assert(before[q] == j as usize);
                    }
                } else {
                    assert(r@[before.len() as int] == i);
                }
            }
        } else {
            assert(!r@.contains(i));
        }
        i += 1;
    }
    r
}

/// A single item slot: the container (the structure whose inventory the window shows)
/// plus the position of the stack it displays.
#[derive(PartialEq, Eq, Structural, Clone, Copy, Debug)]
pub struct InventorySlot {
    pub container: u64,
    pub index: usize,
}

/// What the stat window shows: the hovered and the dragged slot, and a built module
/// hovered in the world.
#[derive(PartialEq, Eq, Structural, Clone, Copy, Debug)]
pub struct StatFocus {
    pub hovered: Option<InventorySlot>,
    pub dragged: Option<InventorySlot>,
    pub module: Option<u64>,
}

impl StatFocus {
    /// Nothing focused.
    pub fn new() -> (r: StatFocus)
        ensures
            r.hovered is None && r.dragged is None && r.module is None,
    {
        StatFocus { hovered: None, dragged: None, module: None }
    }

    /// The inventory slot the stat window describes: the dragged one if any, else the
    /// hovered one.
    pub fn target(&self) -> (r: Option<InventorySlot>)
        ensures
            r == (if self.dragged is Some { self.dragged } else { self.hovered }),
    {
        match self.dragged {
            Some(d) => Some(d),
            None => self.hovered,
        }
    }

    /// The pointer entered `slot`: it becomes the hovered slot.
    pub fn hover_start(&mut self, slot: InventorySlot)
        ensures
            *final(self) == (StatFocus { hovered: Some(slot), ..*old(self) }),
    {
        if self.hovered != Some(slot) {
            self.hovered = Some(slot);
        }
    }

    /// Hover over the built module `hit` in the world; the hover is dropped unless the
    /// world is being inspected. Returns whether the hovered module changed (so its
    /// highlight is redrawn).
    pub fn hover_module(&mut self, inspecting: bool, hit: Option<u64>) -> (changed: bool)
        ensures
            final(self).module == (if inspecting { hit } else { None::<u64> }),
            final(self).hovered == old(self).hovered,
            final(self).dragged == old(self).dragged,
            changed == (final(self).module != old(self).module),
    {
        let target = if inspecting { hit } else { None };
        if target == self.module {
            return false;
        }
        self.module = target;
        true
    }

    /// The pointer left `slot`: the hover clears if it was on that slot; a drag keeps
    /// its own focus.
    pub fn hover_end(&mut self, slot: InventorySlot)
        ensures
            old(self).hovered == Some(slot) ==> *final(self) == (StatFocus { hovered: None, ..*old(self) }),
            old(self).hovered != Some(slot) ==> *final(self) == *old(self),
    {
        if self.hovered == Some(slot) {
            self.hovered = None;
        }
    }
}

/// What starting to drag an inventory slot does.
#[derive(PartialEq, Eq, Structural, Clone, Copy, Debug)]
pub enum DragStart {
    /// Nothing (not building, no such stack, an empty stack, or an item not placeable).
    Ignore,
    /// Select this module for placement (its ghost follows the cursor).
    Module(ModuleKind),
    /// A turret: no ghost, it is dropped onto an existing mount.
    Turret,
}

/// Decide what dragging a slot does: only while building, and only a non-empty module
/// or turret stack starts a drag (which also focuses the slot's stats).
pub fn drag_start(building: bool, stack: Option<(ItemKind, u32)>) -> (r: DragStart)
    ensures
        r == (match stack {
            Some((kind, count)) if building && count > 0 => match kind {
                ItemKind::Module(k) => DragStart::Module(k),
                ItemKind::Turret(..) => DragStart::Turret,
                _ => DragStart::Ignore,
            },
            _ => DragStart::Ignore,
        }),
{
    if !building {
        return DragStart::Ignore;
    }
    match stack {
        None => DragStart::Ignore,
        Some((kind, count)) => {
            if count == 0 {
                DragStart::Ignore
            } else {
                match kind {
                    ItemKind::Module(k) => DragStart::Module(k),
                    ItemKind::Turret(..) => DragStart::Turret,
                    ItemKind::Component | ItemKind::Trade => DragStart::Ignore,
                }
            }
        },
    }
}

/// What releasing a dragged slot does.
#[derive(PartialEq, Eq, Structural, Clone, Copy, Debug)]
pub enum DropAction {
    /// Nothing is placed.
    Ignore,
    /// Place the selected module at the cursor.
    PlaceModule,
    /// Install this turret into the empty mount under the cursor.
    InstallTurret(TurretKind, FireArc),
}

/// Decide what releasing a dragged slot of `kind` does: nothing unless building; a
/// module is placed, a turret installed, anything else ignored. When the placement
/// succeeds the caller consumes one item from the slot ([`consume_one`]).
pub fn drop_action(building: bool, kind: Option<ItemKind>) -> (r: DropAction)
    ensures
        r == (match kind {
            Some(ItemKind::Module(_)) if building => DropAction::PlaceModule,
            Some(ItemKind::Turret(k, arc)) if building => DropAction::InstallTurret(k, arc),
            _ => DropAction::Ignore,
        }),
{
    if !building {
        return DropAction::Ignore;
    }
    match kind {
        Some(ItemKind::Module(_)) => DropAction::PlaceModule,
        Some(ItemKind::Turret(k, arc)) => DropAction::InstallTurret(k, arc),
        _ => DropAction::Ignore,
    }
}

/// Whether a turret item is being dragged in build mode (so empty turret mounts light up).
pub fn dragging_turret(building: bool, dragged: Option<ItemKind>) -> (r: bool)
    ensures
        r == (building && dragged matches Some(ItemKind::Turret(..))),
{
    building && match dragged {
        Some(ItemKind::Turret(..)) => true,
        _ => false,
    }
}

/// Keep the inventory window in step with build mode. When building started or stopped
/// since `seen` was last updated, remember the new state and return the window's new
/// visibility (shown while building); otherwise return `None` and leave it alone.
pub fn sync_window_to_build(building: bool, seen: &mut bool) -> (r: Option<bool>)
    ensures
        *final(seen) == building,
        r == (if building == *old(seen) { None::<bool> } else { Some(building) }),
{
    if building == *seen {
        return None;
    }
    *seen = building;
    Some(building)
}

/// Whether built modules in the world are inspected on hover: only while building, with
/// no module being placed, no slot being dragged, and the pointer not over the UI.
pub fn inspects_world(building: bool, placing: bool, focus: &StatFocus, over_ui: bool) -> (r: bool)
    ensures
        r == (building && !placing && focus.dragged is None && !over_ui),
{
    building && !placing && focus.dragged.is_none() && !over_ui
}

/// A window's visibility.
#[derive(PartialEq, Eq, Structural, Clone, Copy, Debug)]
pub enum WindowVisibility {
    /// Follows its parent (shown when the parent is).
    Inherited,
    Hidden,
    Visible,
}

/// Flip a window between shown and hidden: a hidden window is shown, any other is hidden.
pub fn toggle_window(v: WindowVisibility) -> (r: WindowVisibility)
    ensures
        r == (if v == WindowVisibility::Hidden { WindowVisibility::Visible } else { WindowVisibility::Hidden }),
{
    match v {
        WindowVisibility::Hidden => WindowVisibility::Visible,
        _ => WindowVisibility::Hidden,
    }
}

} // verus!
