//! Docking-port latches. Two ports dock by pointing at each other; a piloted ship
//! releases every latched port at once, or latches one of its free ports to a free port
//! of another structure. The geometric line-up test (range and facing) is done by the
//! caller over the candidate pairs this module lists.
use vstd::prelude::*;

verus! {

/// A docking port: its entity, the structure root it belongs to, and the port it is
/// docked to, if any.
#[derive(PartialEq, Eq, Structural, Clone, Copy, Debug)]
pub struct PortState {
    pub entity: u64,
    pub structure: u64,
    pub docked_to: Option<u64>,
}

/// No two ports are the same entity.
pub open spec fn distinct_ports(ports: Seq<PortState>) -> bool {
    forall|i: int, j: int| 0 <= i < ports.len() && 0 <= j < ports.len() && i != j ==> ports[i].entity != ports[j].entity
}

/// Every latch is mutual: a port docked to `e` has a port `e` docked back to it.
pub open spec fn latches_mutual(ports: Seq<PortState>) -> bool {
    forall|i: int| #![trigger ports[i].docked_to]
        0 <= i < ports.len() && ports[i].docked_to is Some ==> exists|j: int|
            0 <= j < ports.len() && ports[j].entity == ports[i].docked_to.unwrap() && ports[j].docked_to
                == Some(ports[i].entity)
}

/// Latches are symmetric between the listed ports: port `a` is docked to port `b`
/// exactly when `b` is docked to `a`.
pub open spec fn latches_symmetric(ports: Seq<PortState>) -> bool {
    forall|a: int, b: int|
        0 <= a < ports.len() && 0 <= b < ports.len() ==> (#[trigger] ports[a].docked_to == Some(
            #[trigger] ports[b].entity,
        ) <==> ports[b].docked_to == Some(ports[a].entity))
}

/// Port `i` belongs to `ship` and is latched.
pub open spec fn ship_latched(ports: Seq<PortState>, ship: u64, i: int) -> bool {
    0 <= i < ports.len() && ports[i].structure == ship && ports[i].docked_to is Some
}

/// Releasing `ship` frees port entity `e`: it is one of the ship's latched ports or the
/// port one of them is docked to.
pub open spec fn released_by(ports: Seq<PortState>, ship: u64, e: u64) -> bool {
    exists|i: int| ship_latched(ports, ship, i) && (ports[i].entity == e || ports[i].docked_to == Some(e))
}

/// Whether `list` holds `e`.
fn holds(list: &Vec<u64>, e: u64) -> (r: bool)
    ensures
        r == list@.contains(e),
{
    let mut i: usize = 0;
    while i < list.len()
        invariant
            i <= list@.len(),
            forall|j: int| 0 <= j < i ==> list@[j] != e,
        decreases list@.len() - i,
    {
        if list[i] == e {
            assert(list@[i as int] == e);
            return true;
        }
        i += 1;
    }
    false
}

/// Undock `ship`: if any of its ports is latched, free each latched port and the port it
/// is docked to, and report `true`; otherwise nothing changes and the result is `false`.
pub fn release_ship(ports: &mut Vec<PortState>, ship: u64) -> (released: bool)
    ensures
        released == exists|i: int| ship_latched(old(ports)@, ship, i),
        final(ports)@.len() == old(ports)@.len(),
        forall|j: int| 0 <= j < final(ports)@.len() ==> #[trigger] final(ports)@[j] == if released_by(old(ports)@, ship, old(ports)@[j].entity) {
            PortState { docked_to: None, ..old(ports)@[j] }
        } else {
            old(ports)@[j]
        },
{
    let ghost p0 = ports@;
    // Snapshot the latched pairs before changing anything.
    let mut clear: Vec<u64> = Vec::new();
    let mut any = false;
    let mut i: usize = 0;
    while i < ports.len()
        invariant
            i <= ports@.len(),
            ports@ == p0,
            any == exists|k: int| 0 <= k < i && ship_latched(p0, ship, k),
            forall|e: u64| clear@.contains(e) <==> exists|k: int| 0 <= k < i && ship_latched(p0, ship, k)
                && (p0[k].entity == e || p0[k].docked_to == Some(e)),
        decreases ports@.len() - i,
    {
        let ghost before = clear@;
        if ports[i].structure == ship {
            if let Some(other) = ports[i].docked_to {
                clear.push(ports[i].entity);
                clear.push(other);
                any = true;
                assert forall|e: u64| clear@.contains(e) <==> exists|k: int| 0 <= k < i + 1 && ship_latched(p0, ship, k)
                    && (p0[k].entity == e || p0[k].docked_to == Some(e)) by {
                    if clear@.contains(e) {
                        let w = choose|w: int| 0 <= w < clear@.len() && clear@[w] == e;
                        if w < before.len() {
                            assert(before.contains(e));
                        } else {
                            assert(ship_latched(p0, ship, i as int));
                        }
                    }
                    if exists|k: int| 0 <= k < i + 1 && ship_latched(p0, ship, k) && (p0[k].entity == e || p0[k].docked_to == Some(e)) {
                        let k = choose|k: int| 0 <= k < i + 1 && ship_latched(p0, ship, k) && (p0[k].entity == e || p0[k].docked_to == Some(e));
                        if k < i {
                            assert(before.contains(e));
                            let w = choose|w: int| 0 <= w < before.len() && before[w] == e;
                            assert(clear@[w] == e);
                        } else if p0[k].entity == e {
                            assert(clear@[before.len() as int] == e);
                        } else {
                            assert(clear@[before.len() as int + 1] == e);
                        }
                    }
                }
                assert(ship_latched(p0, ship, i as int));
            }
        }
        i += 1;
    }
    if !any {
        assert forall|j: int| 0 <= j < ports@.len() implies !released_by(p0, ship, #[trigger] p0[j].entity) by {}
        return false;
    }
    let mut j: usize = 0;
    while j < ports.len()
        invariant
            j <= ports@.len(),
            ports@.len() == p0.len(),
            forall|e: u64| clear@.contains(e) <==> released_by(p0, ship, e),
            forall|k: int| j <= k < ports@.len() ==> ports@[k] == p0[k],
            forall|k: int| 0 <= k < j ==> #[trigger] ports@[k] == if released_by(p0, ship, p0[k].entity) {
                PortState { docked_to: None, ..p0[k] }
            } else {
                p0[k]
            },
        decreases ports@.len() - j,
    {
        let port = ports[j];
        if holds(&clear, port.entity) {
            ports.set(j, PortState { docked_to: None, ..port });
        }
        j += 1;
    }
    true
}

/// Releasing keeps every remaining latch mutual, and leaves none of the ship's ports
/// latched.
pub proof fn law_release_keeps_latches_mutual(before: Seq<PortState>, after: Seq<PortState>, ship: u64)
    requires
        distinct_ports(before),
        latches_mutual(before),
        after.len() == before.len(),
        forall|j: int| 0 <= j < after.len() ==> #[trigger] after[j] == if released_by(before, ship, before[j].entity) {
            PortState { docked_to: None, ..before[j] }
        } else {
            before[j]
        },
    ensures
        latches_mutual(after),
        forall|j: int| 0 <= j < after.len() && after[j].structure == ship ==> after[j].docked_to is None,
{
    assert forall|k: int| #![trigger after[k].docked_to] 0 <= k < after.len() && after[k].docked_to is Some implies exists|j: int|
        0 <= j < after.len() && after[j].entity == after[k].docked_to.unwrap() && after[j].docked_to == Some(after[k].entity) by {
        assert(after[k] == before[k]);
        assert(!released_by(before, ship, before[k].entity));
        assert(before[k].docked_to is Some);
        let j = choose|j: int| 0 <= j < before.len() && before[j].entity == before[k].docked_to.unwrap() && before[j].docked_to == Some(before[k].entity);
        if released_by(before, ship, before[j].entity) {
            let i = choose|i: int| ship_latched(before, ship, i) && (before[i].entity == before[j].entity || before[i].docked_to == Some(before[j].entity));
            if before[i].entity == before[j].entity {
                // j is a latched ship port; k is its partner, so k was released too.
                assert(i == j);
                assert(ship_latched(before, ship, j) && before[j].docked_to == Some(before[k].entity));
                assert(released_by(before, ship, before[k].entity));
            } else {
                // i is a ship port docked to j; j is docked back to i, so k is i.
                let m = choose|m: int| 0 <= m < before.len() && before[m].entity == before[i].docked_to.unwrap() && before[m].docked_to == Some(before[i].entity);
                assert(m == j);
                assert(before[k].entity == before[i].entity);
                assert(k == i);
                assert(released_by(before, ship, before[k].entity));
            }
        }
        assert(after[j] == before[j]);
    }
    assert forall|j: int| 0 <= j < after.len() && after[j].structure == ship implies after[j].docked_to is None by {
        if before[j].docked_to is Some {
            assert(ship_latched(before, ship, j));
            assert(released_by(before, ship, before[j].entity));
        }
    }
}

/// The pairs a piloted `ship` may try to dock: each of its ports (in order) with each
/// free port of another structure (in order). The caller keeps the nearest pair that is
/// lined up.
pub fn dock_candidates(ports: &Vec<PortState>, ship: u64) -> (pairs: Vec<(usize, usize)>)
    ensures
        forall|q: int| 0 <= q < pairs@.len() ==> {
            let (a, b) = #[trigger] pairs@[q];
            &&& a < ports@.len() && b < ports@.len()
            &&& ports@[a as int].structure == ship
            &&& ports@[b as int].structure != ship && ports@[b as int].docked_to is None
        },
        forall|a: int, b: int|
            0 <= a < ports@.len() && 0 <= b < ports@.len() && ports@[a].structure == ship && ports@[b].structure
                != ship && ports@[b].docked_to is None ==> pairs@.contains((a as usize, b as usize)),
        forall|p: int, q: int| 0 <= p < q < pairs@.len() ==> (pairs@[p].0 < pairs@[q].0 || (pairs@[p].0 == pairs@[q].0 && pairs@[p].1 < pairs@[q].1)),
{
    let mut pairs: Vec<(usize, usize)> = Vec::new();
    let n = ports.len();
    let mut a: usize = 0;
    while a < n
        invariant
            n == ports@.len(),
            a <= n,
            forall|q: int| 0 <= q < pairs@.len() ==> {
                let (x, y) = #[trigger] pairs@[q];
                &&& x < a && y < n
                &&& ports@[x as int].structure == ship
                &&& ports@[y as int].structure != ship && ports@[y as int].docked_to is None
            },
            forall|x: int, y: int|
                0 <= x < a && 0 <= y < n && ports@[x].structure == ship && ports@[y].structure != ship
                    && ports@[y].docked_to is None ==> pairs@.contains((x as usize, y as usize)),
            forall|p: int, q: int| 0 <= p < q < pairs@.len() ==> (pairs@[p].0 < pairs@[q].0 || (pairs@[p].0 == pairs@[q].0 && pairs@[p].1 < pairs@[q].1)),
        decreases n - a,
    {
        if ports[a].structure == ship {
            let mut b: usize = 0;
            let ghost start = pairs@.len();
            while b < n
                invariant
                    n == ports@.len(),
                    a < n,
                    b <= n,
                    start <= pairs@.len(),
                    ports@[a as int].structure == ship,
                    forall|q: int| 0 <= q < start ==> (#[trigger] pairs@[q]).0 < a,
                    forall|q: int| start <= q < pairs@.len() ==> (#[trigger] pairs@[q]).0 == a && pairs@[q].1 < b,
                    forall|q: int| 0 <= q < pairs@.len() ==> {
                        let (x, y) = #[trigger] pairs@[q];
                        &&& x <= a && y < n
                        &&& ports@[x as int].structure == ship
                        &&& ports@[y as int].structure != ship && ports@[y as int].docked_to is None
                    },
                    forall|x: int, y: int|
                        0 <= x < a && 0 <= y < n && ports@[x].structure == ship && ports@[y].structure != ship
                            && ports@[y].docked_to is None ==> pairs@.contains((x as usize, y as usize)),
                    forall|y: int|
                        0 <= y < b && ports@[y].structure != ship && ports@[y].docked_to is None ==> pairs@.contains((a, y as usize)),
                    forall|p: int, q: int| 0 <= p < q < pairs@.len() ==> (pairs@[p].0 < pairs@[q].0 || (pairs@[p].0 == pairs@[q].0 && pairs@[p].1 < pairs@[q].1)),
                decreases n - b,
            {
                let ghost before = pairs@;
                if ports[b].structure != ship && ports[b].docked_to.is_none() {
                    pairs.push((a, b));
                    assert forall|x: int, y: int|
                        0 <= x < a && 0 <= y < n && ports@[x].structure == ship && ports@[y].structure != ship
                            && ports@[y].docked_to is None implies pairs@.contains((x as usize, y as usize)) by {
                        let w = choose|w: int| 0 <= w < before.len() && before[w] == (x as usize, y as usize);
                        assert(pairs@[w] == (x as usize, y as usize));
                    }
                    assert forall|y: int|
                        0 <= y < b + 1 && ports@[y].structure != ship && ports@[y].docked_to is None implies pairs@.contains((a, y as usize)) by {
                        if y < b {
                            let w = choose|w: int| 0 <= w < before.len() && before[w] == (a, y as usize);
                            assert(pairs@[w] == (a, y as usize));
                        } else {
                            assert(pairs@[before.len() as int] == (a, y as usize));
                        }
                    }
                }
                b += 1;
            }
        }
        a += 1;
    }
    pairs
}

/// Latch ship port `ours` to port `theirs`: each now points at the other.
pub fn latch(ports: &mut Vec<PortState>, ours: usize, theirs: usize)
    requires
        ours < old(ports)@.len(),
        theirs < old(ports)@.len(),
        ours != theirs,
    ensures
        final(ports)@ == old(ports)@.update(
            ours as int,
            PortState { docked_to: Some(old(ports)@[theirs as int].entity), ..old(ports)@[ours as int] },
        ).update(
            theirs as int,
            PortState { docked_to: Some(old(ports)@[ours as int].entity), ..old(ports)@[theirs as int] },
        ),
{
    let a = ports[ours];
    let b = ports[theirs];
    ports.set(ours, PortState { docked_to: Some(b.entity), ..a });
    ports.set(theirs, PortState { docked_to: Some(a.entity), ..b });
}

/// Latching two free ports keeps every latch mutual.
pub proof fn law_latch_keeps_latches_mutual(before: Seq<PortState>, ours: int, theirs: int)
    requires
        distinct_ports(before),
        latches_mutual(before),
        0 <= ours < before.len(),
        0 <= theirs < before.len(),
        ours != theirs,
        before[ours].docked_to is None,
        before[theirs].docked_to is None,
    ensures
        latches_mutual(before.update(
            ours,
            PortState { docked_to: Some(before[theirs].entity), ..before[ours] },
        ).update(
            theirs,
            PortState { docked_to: Some(before[ours].entity), ..before[theirs] },
        )),
{
    let after = before.update(
        ours,
        PortState { docked_to: Some(before[theirs].entity), ..before[ours] },
    ).update(
        theirs,
        PortState { docked_to: Some(before[ours].entity), ..before[theirs] },
    );
    assert forall|k: int| #![trigger after[k].docked_to] 0 <= k < after.len() && after[k].docked_to is Some implies exists|j: int|
        0 <= j < after.len() && after[j].entity == after[k].docked_to.unwrap() && after[j].docked_to == Some(after[k].entity) by {
        if k == ours {
            assert(after[theirs].entity == after[k].docked_to.unwrap() && after[theirs].docked_to == Some(after[k].entity));
        } else if k == theirs {
            assert(after[ours].entity == after[k].docked_to.unwrap() && after[ours].docked_to == Some(after[k].entity));
        } else {
            assert(after[k] == before[k]);
            let j = choose|j: int| 0 <= j < before.len() && before[j].entity == before[k].docked_to.unwrap() && before[j].docked_to == Some(before[k].entity);
            assert(j != ours && j != theirs);
            assert(after[j] == before[j]);
        }
    }
}

/// What to do with an airlock barrier.
#[derive(PartialEq, Eq, Structural, Clone, Copy, Debug)]
pub enum DoorAction {
    /// Disable it (its port docked).
    Open,
    /// Re-enable it (its port undocked).
    Close,
    /// Leave it as it is.
    Keep,
}

/// An airlock barrier opens when its port docks and closes when it undocks.
pub fn airlock_door(docked: bool, disabled: bool) -> (r: DoorAction)
    ensures
        r == (if docked && !disabled {
            DoorAction::Open
        } else if !docked && disabled {
            DoorAction::Close
        } else {
            DoorAction::Keep
        }),
{
    if docked && !disabled {
        DoorAction::Open
    } else if !docked && disabled {
        DoorAction::Close
    } else {
        DoorAction::Keep
    }
}

/// Undocking keeps latches symmetric: for every two ports, one is docked to the other
/// exactly when the other is docked back, before and after `ship` releases its ports;
/// and afterwards none of the ship's ports is latched.
pub proof fn law_release_keeps_latches_symmetric(before: Seq<PortState>, after: Seq<PortState>, ship: u64)
    requires
        distinct_ports(before),
        latches_symmetric(before),
        after.len() == before.len(),
        forall|j: int| 0 <= j < after.len() ==> #[trigger] after[j] == if released_by(before, ship, before[j].entity) {
            PortState { docked_to: None, ..before[j] }
        } else {
            before[j]
        },
    ensures
        latches_symmetric(after),
        forall|j: int| 0 <= j < after.len() && after[j].structure == ship ==> after[j].docked_to is None,
{
    // A released port's partner (a port docked to it) is released too.
    assert forall|a: int, b: int|
        0 <= a < before.len() && 0 <= b < before.len() && before[b].docked_to == Some(before[a].entity)
            && released_by(before, ship, before[a].entity) implies released_by(before, ship, before[b].entity) by {
        assert(before[a].docked_to == Some(before[b].entity));
        let i = choose|i: int| ship_latched(before, ship, i) && (before[i].entity == before[a].entity || before[i].docked_to == Some(before[a].entity));
        if before[i].entity == before[a].entity {
            assert(i == a);
        } else {
            assert(before[a].docked_to == Some(before[i].entity));
            assert(before[i].entity == before[b].entity);
            assert(i == b);
        }
    }
    assert forall|a: int, b: int|
        0 <= a < after.len() && 0 <= b < after.len() implies (#[trigger] after[a].docked_to == Some(
            #[trigger] after[b].entity,
        ) <==> after[b].docked_to == Some(after[a].entity)) by {
        assert(after[a].entity == before[a].entity && after[b].entity == before[b].entity);
        let ra = released_by(before, ship, before[a].entity);
        let rb = released_by(before, ship, before[b].entity);
        if before[b].docked_to == Some(before[a].entity) {
            assert(before[a].docked_to == Some(before[b].entity));
        }
        if before[a].docked_to == Some(before[b].entity) {
            assert(before[b].docked_to == Some(before[a].entity));
        }
        if ra && !rb {
            assert(before[b].docked_to != Some(before[a].entity));
        }
        if rb && !ra {
            assert(before[a].docked_to != Some(before[b].entity));
        }
    }
    assert forall|j: int| 0 <= j < after.len() && after[j].structure == ship implies after[j].docked_to is None by {
        if before[j].docked_to is Some {
            assert(ship_latched(before, ship, j));
            assert(released_by(before, ship, before[j].entity));
        }
    }
}

/// Docking keeps latches symmetric: latching two free ports points each at the other,
/// and every other pair of ports is as it was.
pub proof fn law_latch_keeps_latches_symmetric(before: Seq<PortState>, ours: int, theirs: int)
    requires
        distinct_ports(before),
        latches_symmetric(before),
        0 <= ours < before.len(),
        0 <= theirs < before.len(),
        ours != theirs,
        before[ours].docked_to is None,
        before[theirs].docked_to is None,
    ensures
        latches_symmetric(before.update(
            ours,
            PortState { docked_to: Some(before[theirs].entity), ..before[ours] },
        ).update(
            theirs,
            PortState { docked_to: Some(before[ours].entity), ..before[theirs] },
        )),
{
    let after = before.update(
        ours,
        PortState { docked_to: Some(before[theirs].entity), ..before[ours] },
    ).update(
        theirs,
        PortState { docked_to: Some(before[ours].entity), ..before[theirs] },
    );
    assert forall|a: int, b: int|
        0 <= a < after.len() && 0 <= b < after.len() implies (#[trigger] after[a].docked_to == Some(
            #[trigger] after[b].entity,
        ) <==> after[b].docked_to == Some(after[a].entity)) by {
        assert(after[a].entity == before[a].entity && after[b].entity == before[b].entity);
        if a != ours && a != theirs && b != ours && b != theirs {
            assert(after[a] == before[a] && after[b] == before[b]);
            if before[b].docked_to == Some(before[a].entity) {
                assert(before[a].docked_to == Some(before[b].entity));
            }
        } else if a != ours && a != theirs {
            // b is one of the two latched ports; a was not docked to it (it was free).
            assert(after[a] == before[a]);
            if before[a].docked_to == Some(before[b].entity) {
                assert(before[b].docked_to == Some(before[a].entity));
            }
        } else if b != ours && b != theirs {
            assert(after[b] == before[b]);
            if before[b].docked_to == Some(before[a].entity) {
                assert(before[a].docked_to == Some(before[b].entity));
            }
        }
    }
}

} // verus!
