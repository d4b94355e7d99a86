//! Structures-as-data: the ordering that turns a live structure's module tree into a
//! blueprint whose modules can be replayed in order (every parent before its children).
//!
//! Entities are carried as their `u64` bits; a module link records the module, the
//! structure root it belongs to, its transform parent (the root or another module) and
//! the tie-break key used between modules at the same depth.
use vstd::prelude::*;

verus! {

/// Which kind of root body a structure has.
#[derive(PartialEq, Eq, Structural, Clone, Copy, Debug)]
pub enum RootKind {
    PlayerShip,
    EnemyShip,
    Station,
}

/// Pick the root kind of a structure from what its root carries: a player ship first,
/// then a station, and everything else is an enemy ship.
pub fn root_kind(is_player_ship: bool, is_station: bool) -> (k: RootKind)
    ensures
        is_player_ship ==> k == RootKind::PlayerShip,
        !is_player_ship && is_station ==> k == RootKind::Station,
        !is_player_ship && !is_station ==> k == RootKind::EnemyShip,
{
    if is_player_ship {
        RootKind::PlayerShip
    } else if is_station {
        RootKind::Station
    } else {
        RootKind::EnemyShip
    }
}

/// Side length of a structure's root hull, in grid units: a station's hub is ten units
/// across, a ship's hull three.
pub fn root_size(kind: RootKind) -> (r: u32)
    ensures
        r == (if kind == RootKind::Station { 10u32 } else { 3u32 }),
{
    match kind {
        RootKind::Station => 10,
        _ => 3,
    }
}

/// Where the engineering console sits on the root hull (local y): ships at -30, the
/// station at -40; an enemy ship has none.
pub fn console_offset(kind: RootKind) -> (r: Option<i32>)
    ensures
        r == (match kind {
            RootKind::PlayerShip => Some(-30i32),
            RootKind::Station => Some(-40i32),
            RootKind::EnemyShip => None::<i32>,
        }),
{
    match kind {
        RootKind::PlayerShip => Some(-30),
        RootKind::Station => Some(-40),
        RootKind::EnemyShip => None,
    }
}

/// Whether a rebuilt root gets its saved motion and ship health back: ships only, the
/// station is static.
pub fn restores_motion(kind: RootKind) -> (r: bool)
    ensures
        r == (kind != RootKind::Station),
{
    match kind {
        RootKind::Station => false,
        _ => true,
    }
}

/// One step of replaying a blueprint: `spawned` bodies exist so far (the root and the
/// modules placed), and the next module names body `parent`. The module is mounted on
/// that body when it exists and all its recorded slots were found on the parent's side;
/// otherwise it is skipped. Returns the parent body to mount on, or `None` to skip.
pub fn replay_parent(spawned: usize, parent: usize, slots_matched: bool) -> (r: Option<usize>)
    ensures
        r == (if parent < spawned && slots_matched { Some(parent) } else { None::<usize> }),
{
    if parent < spawned && slots_matched {
        Some(parent)
    } else {
        None
    }
}

/// One built module of the world, as the blueprint extraction reads it.
#[derive(Clone, Copy, Debug)]
pub struct ModuleLink {
    /// The module entity.
    pub entity: u64,
    /// The structure root it belongs to.
    pub structure: u64,
    /// Its transform parent: the structure root or another module.
    pub parent: u64,
    /// Tie-break between modules at the same depth (the entity's index).
    pub order_key: u32,
}

/// Whether link `i` is a module of structure `root`.
pub open spec fn is_member(links: Seq<ModuleLink>, root: u64, i: int) -> bool {
    0 <= i < links.len() && links[i].structure == root
}

/// No two links name the same entity (entities are unique in the world).
pub open spec fn distinct_entities(links: Seq<ModuleLink>) -> bool {
    forall|i: int, j: int|
        0 <= i < links.len() && 0 <= j < links.len() && i != j ==> links[i].entity
            != links[j].entity
}

/// The member link whose entity is `e`, if any.
pub open spec fn find_member(links: Seq<ModuleLink>, root: u64, e: u64) -> Option<int> {
    if exists|i: int| is_member(links, root, i) && links[i].entity == e {
        Some(choose|i: int| is_member(links, root, i) && links[i].entity == e)
    } else {
        None
    }
}

/// Hops from `e` up the parent chain to `root` (the root is at depth 0), using at most
/// `fuel` hops. A parent that is neither the root nor a module of the structure counts as
/// one hop away. `None` when the chain needs more than `fuel` hops.
pub open spec fn depth_fuel(links: Seq<ModuleLink>, root: u64, e: u64, fuel: nat) -> Option<nat>
    decreases fuel,
{
    if e == root {
        Some(0)
    } else if fuel == 0 {
        None
    } else {
        match find_member(links, root, e) {
            None => Some(1),
            Some(i) => match depth_fuel(links, root, links[i].parent, (fuel - 1) as nat) {
                Some(d) => Some(d + 1),
                None => None,
            },
        }
    }
}

/// The depth of `e` below `root`. Every chain that ends is at most as long as there are
/// links, so this is `None` exactly on a parent cycle.
pub open spec fn module_depth(links: Seq<ModuleLink>, root: u64, e: u64) -> Option<nat> {
    depth_fuel(links, root, e, links.len())
}

/// Every module of `root` is a body other than the root itself, with a finite parent
/// chain (no cycles).
pub open spec fn chains_end(links: Seq<ModuleLink>, root: u64) -> bool {
    forall|i: int| is_member(links, root, i) ==> links[i].entity != root
        && (#[trigger] module_depth(links, root, links[i].entity)) is Some
}

/// The sort key of link `i`: its depth, then its tie-break key.
pub open spec fn depth_of(links: Seq<ModuleLink>, root: u64, i: int) -> nat {
    module_depth(links, root, links[i].entity).unwrap()
}

/// `a` sorts no later than `b`: smaller depth first, then smaller tie-break key.
pub open spec fn key_le(links: Seq<ModuleLink>, root: u64, a: int, b: int) -> bool {
    depth_of(links, root, a) < depth_of(links, root, b) || (depth_of(links, root, a)
        == depth_of(links, root, b) && links[a].order_key <= links[b].order_key)
}

/// Same depth and same tie-break key.
pub open spec fn key_eq(links: Seq<ModuleLink>, root: u64, a: int, b: int) -> bool {
    depth_of(links, root, a) == depth_of(links, root, b) && links[a].order_key
        == links[b].order_key
}

/// `order` lists every module of `root` exactly once, sorted by depth then tie-break
/// key, equal keys keeping their input order (a stable sort of the members).
pub open spec fn is_module_order(links: Seq<ModuleLink>, root: u64, order: Seq<usize>) -> bool {
    &&& order.no_duplicates()
    &&& forall|q: int| 0 <= q < order.len() ==> is_member(links, root, #[trigger] order[q] as int)
    &&& forall|i: int| is_member(links, root, i) ==> order.contains(i as usize)
    &&& forall|p: int, q: int|
        0 <= p < q < order.len() ==> key_le(links, root, order[p] as int, order[q] as int)
    &&& forall|p: int, q: int|
        0 <= p < q < order.len() && key_eq(links, root, order[p] as int, order[q] as int)
            ==> order[p] < order[q]
}

/// The body index of entity `e` in a blueprint whose modules come in `order`: module at
/// position `q` is body `q + 1`; anything else (the root, a foreign body) is body 0.
pub open spec fn body_index(links: Seq<ModuleLink>, order: Seq<usize>, e: u64) -> nat {
    if exists|q: int| 0 <= q < order.len() && links[order[q] as int].entity == e {
        ((choose|q: int| 0 <= q < order.len() && links[order[q] as int].entity == e) + 1) as nat
    } else {
        0
    }
}

/// More fuel never changes a depth that was already found.
pub proof fn lemma_depth_fuel_mono(links: Seq<ModuleLink>, root: u64, e: u64, f: nat, g: nat)
    requires
        depth_fuel(links, root, e, f) is Some,
        f <= g,
    ensures
        depth_fuel(links, root, e, g) == depth_fuel(links, root, e, f),
    decreases f,
{
    if e != root && f > 0 {
        match find_member(links, root, e) {
            None => {},
            Some(i) => {
                lemma_depth_fuel_mono(links, root, links[i].parent, (f - 1) as nat, (g - 1) as nat);
            },
        }
    }
}

/// A module's depth is one more than its parent's, when the parent is itself a module.
proof fn lemma_child_deeper(links: Seq<ModuleLink>, root: u64, c: int, p: int)
    requires
        distinct_entities(links),
        is_member(links, root, c),
        is_member(links, root, p),
        links[p].entity == links[c].parent,
        links[c].entity != root,
        module_depth(links, root, links[c].entity) is Some,
    ensures
        module_depth(links, root, links[p].entity) is Some,
        depth_of(links, root, c) == depth_of(links, root, p) + 1,
{
    let e = links[c].entity;
    let n = links.len();
    assert(is_member(links, root, c) && links[c].entity == e);
    let i = find_member(links, root, e).unwrap();
    assert(i == c);
    assert(n > 0);
    let dp = depth_fuel(links, root, links[c].parent, (n - 1) as nat);
    assert(dp is Some);
    lemma_depth_fuel_mono(links, root, links[c].parent, (n - 1) as nat, n);
}

/// The module depth of `e` with at most `fuel` hops, computed as the spec says.
fn depth_rec(links: &Vec<ModuleLink>, root: u64, e: u64, fuel: usize) -> (r: Option<usize>)
    requires
        distinct_entities(links@),
    ensures
        r is Some <==> depth_fuel(links@, root, e, fuel as nat) is Some,
        r matches Some(d) ==> depth_fuel(links@, root, e, fuel as nat) == Some(d as nat) && d <= fuel,
    decreases fuel,
{
    if e == root {
        return Some(0);
    }
    if fuel == 0 {
        return None;
    }
    let found = find_member_exec(links, root, e);
    match found {
        None => Some(1),
        Some(i) => {
            let sub = depth_rec(links, root, links[i].parent, fuel - 1);
            match sub {
                Some(d) => Some(d + 1),
                None => None,
            }
        },
    }
}

/// The position of the module of `root` whose entity is `e`.
fn find_member_exec(links: &Vec<ModuleLink>, root: u64, e: u64) -> (r: Option<usize>)
    requires
        distinct_entities(links@),
    ensures
        r matches Some(i) ==> find_member(links@, root, e) == Some(i as int),
        r is None ==> find_member(links@, root, e) is None,
{
    let mut i: usize = 0;
    while i < links.len()
        invariant
            i <= links.len(),
            distinct_entities(links@),
            forall|j: int| 0 <= j < i ==> !(is_member(links@, root, j) && links@[j].entity == e),
        decreases links.len() - i,
    {
        if links[i].structure == root && links[i].entity == e {
            assert(is_member(links@, root, i as int) && links@[i as int].entity == e);
            proof {
                assert(exists|j: int| is_member(links@, root, j) && links@[j].entity == e);
                let j = choose|j: int| is_member(links@, root, j) && links@[j].entity == e;
                assert(is_member(links@, root, j));
                assert(j == i as int) by {
                    if j != i as int {
                        assert(links@[j].entity != links@[i as int].entity);
                    }
                }
            }
            return Some(i);
        }
        i += 1;
    }
    None
}

/// The sort invariant over the first `k` links: `order` holds every member below `k`
/// once, sorted by key, equal keys in input order.
pub open spec fn sorted_prefix(links: Seq<ModuleLink>, root: u64, order: Seq<usize>, k: int) -> bool {
    &&& order.no_duplicates()
    &&& forall|q: int| 0 <= q < order.len() ==> is_member(links, root, #[trigger] order[q] as int) && order[q] < k
    &&& forall|i: int| is_member(links, root, i) && i < k ==> order.contains(i as usize)
    &&& forall|p: int, q: int|
        0 <= p < q < order.len() ==> key_le(links, root, order[p] as int, order[q] as int)
    &&& forall|p: int, q: int|
        0 <= p < q < order.len() && key_eq(links, root, order[p] as int, order[q] as int)
            ==> order[p] < order[q]
}

/// Insert member `k` after every entry that sorts no later than it.
#[verifier::rlimit(60)]
fn insert_sorted(order: &mut Vec<usize>, depths: &Vec<usize>, links: &Vec<ModuleLink>, root: u64, k: usize)
    requires
        k < links@.len(),
        is_member(links@, root, k as int),
        depths@.len() == links@.len(),
        forall|j: int| #![trigger depths@[j]]
            is_member(links@, root, j) ==> depths@[j] == depth_of(links@, root, j),
        sorted_prefix(links@, root, old(order)@, k as int),
    ensures
        sorted_prefix(links@, root, final(order)@, k + 1),
{
    let ghost kk = k as int;
    let dk = depths[k];
    let ok = links[k].order_key;
    let mut pos: usize = 0;
    while pos < order.len()
        invariant
            pos <= order@.len(),
            depths@.len() == links@.len(),
            k < links@.len(),
            dk == depth_of(links@, root, kk),
            ok == links@[kk].order_key,
            forall|j: int| #![trigger depths@[j]]
                is_member(links@, root, j) ==> depths@[j] == depth_of(links@, root, j),
            sorted_prefix(links@, root, order@, kk),
            forall|q: int| 0 <= q < pos ==> key_le(links@, root, #[trigger] order@[q] as int, kk),
        ensures
            pos <= order@.len(),
            forall|q: int| 0 <= q < pos ==> key_le(links@, root, #[trigger] order@[q] as int, kk),
            pos < order@.len() ==> !key_le(links@, root, order@[pos as int] as int, kk),
        decreases order@.len() - pos,
    {
        let j = order[pos];
        assert(is_member(links@, root, j as int));
        let dj = depths[j];
        if dj < dk || (dj == dk && links[j].order_key <= ok) {
            pos += 1;
        } else {
            break;
        }
    }
    // Everything from `pos` on sorts strictly after `k`.
    assert forall|q: int| pos <= q < order@.len() implies !key_le(links@, root, #[trigger] order@[q] as int, kk) by {
        let j = order@[pos as int];
        if q > pos {
            assert(key_le(links@, root, j as int, order@[q] as int));
        }
    }
    let ghost old_order = order@;
    order.insert(pos, k);
    assert(order@ == old_order.insert(pos as int, k));
    assert forall|q: int| 0 <= q < order@.len() implies is_member(links@, root, #[trigger] order@[q] as int) && order@[q] < k + 1 by {
        if q < pos {
            assert(order@[q] == old_order[q]);
        } else if q > pos {
            assert(order@[q] == old_order[q - 1]);
        }
    }
    assert forall|i: int| is_member(links@, root, i) && i < k + 1 implies order@.contains(i as usize) by {
        if i < k {
            assert(old_order.contains(i as usize));
            let q = choose|q: int| 0 <= q < old_order.len() && old_order[q] == i as usize;
            if q < pos {
                assert(order@[q] == i as usize);
            } else {
                assert(order@[q + 1] == i as usize);
            }
        } else {
            assert(order@[pos as int] == k);
        }
    }
    assert(order@.no_duplicates()) by {
        assert forall|p: int, q: int| 0 <= p < order@.len() && 0 <= q < order@.len() && p != q implies order@[p] != order@[q] by {
            if p != pos as int && q != pos as int {
                let pp = if p < pos { p } else { p - 1 };
                let qq = if q < pos { q } else { q - 1 };
                assert(order@[p] == old_order[pp]);
                assert(order@[q] == old_order[qq]);
            } else if p == pos as int {
                let qq = if q < pos { q } else { q - 1 };
                assert(order@[q] == old_order[qq]);
            } else {
                let pp = if p < pos { p } else { p - 1 };
                assert(order@[p] == old_order[pp]);
            }
        }
    }
    assert forall|p: int, q: int| 0 <= p < q < order@.len() implies key_le(links@, root, order@[p] as int, order@[q] as int) by {
        if q < pos {
            assert(order@[p] == old_order[p]);
            assert(order@[q] == old_order[q]);
        } else if q == pos {
            assert(order@[p] == old_order[p]);
        } else if p < pos {
            assert(order@[p] == old_order[p]);
            assert(order@[q] == old_order[q - 1]);
        } else if p == pos {
            assert(order@[q] == old_order[q - 1]);
            assert(!key_le(links@, root, old_order[q - 1] as int, kk));
        } else {
            assert(order@[p] == old_order[p - 1]);
            assert(order@[q] == old_order[q - 1]);
        }
    }
    assert forall|p: int, q: int| 0 <= p < q < order@.len() && key_eq(links@, root, order@[p] as int, order@[q] as int) implies order@[p] < order@[q] by {
        if q < pos {
            assert(order@[p] == old_order[p]);
            assert(order@[q] == old_order[q]);
        } else if q == pos {
            assert(order@[p] == old_order[p]);
        } else if p < pos {
            assert(order@[p] == old_order[p]);
            assert(order@[q] == old_order[q - 1]);
        } else if p == pos {
            assert(order@[q] == old_order[q - 1]);
            assert(!key_le(links@, root, old_order[q - 1] as int, kk));
        } else {
            assert(order@[p] == old_order[p - 1]);
            assert(order@[q] == old_order[q - 1]);
        }
    }
}

/// The first position in `order` whose module entity is `e`.
fn position_of(links: &Vec<ModuleLink>, order: &Vec<usize>, e: u64) -> (r: Option<usize>)
    requires
        forall|q: int| 0 <= q < order@.len() ==> (#[trigger] order@[q]) < links@.len(),
    ensures
        match r {
            Some(t) => t < order@.len() && links@[order@[t as int] as int].entity == e,
            None => forall|t: int| 0 <= t < order@.len() ==> links@[order@[t] as int].entity != e,
        },
{
    let mut s: usize = 0;
    while s < order.len()
        invariant
            s <= order@.len(),
            forall|q: int| 0 <= q < order@.len() ==> (#[trigger] order@[q]) < links@.len(),
            forall|t: int| 0 <= t < s ==> links@[order@[t] as int].entity != e,
        decreases order@.len() - s,
    {
        if links[order[s]].entity == e {
            return Some(s);
        }
        s += 1;
    }
    None
}

/// Order the modules of structure `root` so that every parent comes before its
/// children (by depth from the root, ties by the tie-break key in input order), and
/// give each the body index of its parent (root = 0, the module at position `q` =
/// `q + 1`; a parent that is not part of the structure maps to 0).
///
/// The result `(order, parents)` lists link positions in replay order; `parents[q]` is
/// the parent body of `order[q]`, and it always precedes the module's own body `q + 1`.
pub fn plan_module_order(links: &Vec<ModuleLink>, root: u64) -> (res: (Vec<usize>, Vec<usize>))
    requires
        distinct_entities(links@),
        chains_end(links@, root),
    ensures
        is_module_order(links@, root, res.0@),
        res.1@.len() == res.0@.len(),
        forall|q: int|
            0 <= q < res.0@.len() ==> res.1@[q] == body_index(
                links@,
                res.0@,
                links@[res.0@[q] as int].parent,
            ),
        forall|q: int| 0 <= q < res.1@.len() ==> #[trigger] res.1@[q] <= q,
{
    let n = links.len();
    // Depth of every member (0 for links of other structures).
    let mut depths: Vec<usize> = Vec::new();
    let mut k: usize = 0;
    while k < n
        invariant
            n == links.len(),
            k <= n,
            depths@.len() == k,
            distinct_entities(links@),
            chains_end(links@, root),
            forall|j: int| #![trigger depths@[j]]
                is_member(links@, root, j) && j < k ==> depths@[j] == depth_of(links@, root, j),
        decreases n - k,
    {
        if links[k].structure == root {
            assert(is_member(links@, root, k as int));
            assert(module_depth(links@, root, links@[k as int].entity) is Some);
            let d = depth_rec(links, root, links[k].entity, n);
            depths.push(d.unwrap());
        } else {
            depths.push(0);
        }
        k += 1;
    }

    // Stable insertion sort of the members by (depth, tie-break key).
    let mut order: Vec<usize> = Vec::new();
    let mut k: usize = 0;
    while k < n
        invariant
            n == links.len(),
            k <= n,
            depths@.len() == n,
            forall|j: int| #![trigger depths@[j]]
                is_member(links@, root, j) ==> depths@[j] == depth_of(links@, root, j),
            sorted_prefix(links@, root, order@, k as int),
        decreases n - k,
    {
        if links[k].structure == root {
            insert_sorted(&mut order, &depths, links, root, k);
        }
        k += 1;
    }

    // Parent body index of every module in replay order.
    let mut parents: Vec<usize> = Vec::new();
    let mut q: usize = 0;
    while q < order.len()
        invariant
            q <= order@.len(),
            parents@.len() == q,
            n == links.len(),
            distinct_entities(links@),
            chains_end(links@, root),
            is_module_order(links@, root, order@),
            forall|r: int| 0 <= r < q ==> parents@[r] == body_index(links@, order@, links@[order@[r] as int].parent),
            forall|r: int| 0 <= r < q ==> #[trigger] parents@[r] <= r,
        decreases order@.len() - q,
    {
        let c = order[q];
        let p = links[c].parent;
        proof {
            assert forall|q: int| 0 <= q < order@.len() implies (#[trigger] order@[q]) < n by {
                assert(is_member(links@, root, order@[q] as int));
            }
        }
        let found = position_of(links, &order, p);
        let b = match found {
            Some(t) => t + 1,
            None => 0,
        };
        proof {
            if let Some(t) = found {
                let t = t as int;
                let ch = choose|t: int| 0 <= t < order@.len() && links@[order@[t] as int].entity == p;
                // Entities are distinct and the order has no duplicates, so the match is unique.
                assert(is_member(links@, root, order@[t] as int));
                assert(is_member(links@, root, order@[ch] as int));
                assert(order@[t] == order@[ch]);
                assert(t == ch);
                // The parent module is one level shallower, so it sorts earlier.
                assert(is_member(links@, root, c as int));
                assert(module_depth(links@, root, links@[c as int].entity) is Some);
                lemma_child_deeper(links@, root, c as int, order@[t] as int);
                if t >= q {
                    if t == q as int {
                        assert(depth_of(links@, root, c as int) == depth_of(links@, root, c as int) + 1);
                    } else {
                        assert(key_le(links@, root, order@[q as int] as int, order@[t] as int));
                    }
                }
                assert(b == t + 1);
            }
        }
        parents.push(b);
        q += 1;
    }
    (order, parents)
}

/// The first turret installed on `module`: `turret_parents[t]` is the module turret `t`
/// sits on; returns the first `t` on `module`.
pub fn turret_of(turret_parents: &Vec<u64>, module: u64) -> (r: Option<usize>)
    ensures
        match r {
            Some(t) => t < turret_parents@.len() && turret_parents@[t as int] == module
                && forall|s: int| 0 <= s < t ==> turret_parents@[s] != module,
            None => forall|s: int| 0 <= s < turret_parents@.len() ==> turret_parents@[s] != module,
        },
{
    let mut t: usize = 0;
    while t < turret_parents.len()
        invariant
            t <= turret_parents@.len(),
            forall|s: int| 0 <= s < t ==> turret_parents@[s] != module,
        decreases turret_parents@.len() - t,
    {
        if turret_parents[t] == module {
            return Some(t);
        }
        t += 1;
    }
    None
}

/// The first slot of `side` at position `p`, searching from slot `from`.
pub open spec fn slot_at(side: Seq<(i64, i64)>, p: (i64, i64), from: int) -> Option<int>
    decreases side.len() - from,
{
    if from < 0 || from >= side.len() {
        None
    } else if side[from] == p {
        Some(from)
    } else {
        slot_at(side, p, from + 1)
    }
}

/// The slots a recorded module took, matched back to the parent side's slots on
/// rebuild: for each recorded position (in order) the first slot of `side` there.
/// `None` when some recorded position has no slot, and the module is skipped.
pub open spec fn spec_match_slots(side: Seq<(i64, i64)>, wanted: Seq<(i64, i64)>) -> Option<Seq<usize>> {
    if forall|k: int| 0 <= k < wanted.len() ==> #[trigger] slot_at(side, wanted[k], 0) is Some {
        Some(Seq::new(wanted.len(), |k: int| slot_at(side, wanted[k], 0).unwrap() as usize))
    } else {
        None
    }
}

/// What a found slot satisfies: it is at `p` and no earlier slot is.
proof fn lemma_slot_at(side: Seq<(i64, i64)>, p: (i64, i64), from: int)
    requires
        0 <= from,
    ensures
        match slot_at(side, p, from) {
            Some(i) => from <= i < side.len() && side[i] == p && forall|j: int| from <= j < i ==> side[j] != p,
            None => forall|j: int| from <= j < side.len() ==> side[j] != p,
        },
    decreases side.len() - from,
{
    if from < side.len() && side[from] != p {
        lemma_slot_at(side, p, from + 1);
    }
}

/// Find the first slot of `side` at `p`.
fn find_slot(side: &Vec<(i64, i64)>, p: (i64, i64)) -> (r: Option<usize>)
    ensures
        r matches Some(i) ==> slot_at(side@, p, 0) == Some(i as int),
        r is None ==> slot_at(side@, p, 0) is None,
{
    proof {
        lemma_slot_at(side@, p, 0);
    }
    let mut i: usize = 0;
    while i < side.len()
        invariant
            i <= side@.len(),
            slot_at(side@, p, 0) == slot_at(side@, p, i as int),
        decreases side@.len() - i,
    {
        if side[i].0 == p.0 && side[i].1 == p.1 {
            return Some(i);
        }
        i += 1;
    }
    None
}

/// Match a recorded module's slot positions back to its parent side's slots (see
/// [`spec_match_slots`]).
pub fn match_slots(side: &Vec<(i64, i64)>, wanted: &Vec<(i64, i64)>) -> (r: Option<Vec<usize>>)
    ensures
        match spec_match_slots(side@, wanted@) {
            Some(s) => r matches Some(v) && v@ == s,
            None => r is None,
        },
{
    let mut picked: Vec<usize> = Vec::new();
    let mut k: usize = 0;
    while k < wanted.len()
        invariant
            k <= wanted@.len(),
            picked@.len() == k,
            forall|j: int| 0 <= j < k ==> #[trigger] slot_at(side@, wanted@[j], 0) is Some
                && picked@[j] == slot_at(side@, wanted@[j], 0).unwrap() as usize,
        decreases wanted@.len() - k,
    {
        match find_slot(side, wanted[k]) {
            Some(i) => {
                picked.push(i);
            },
            None => {
                assert(!(slot_at(side@, wanted@[k as int], 0) is Some));
                return None;
            },
        }
        k += 1;
    }
    assert(picked@ =~= Seq::new(wanted@.len(), |j: int| slot_at(side@, wanted@[j], 0).unwrap() as usize));
    Some(picked)
}

} // verus!
