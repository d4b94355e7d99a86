//! What a projectile hit does, decided from the chain of bodies above the struck
//! collider (collider, its parents, ..., the structure root).
use vstd::prelude::*;

use crate::faction::Faction;

verus! {

/// One body on the chain from the struck collider up to its root.
#[derive(PartialEq, Eq, Structural, Clone, Copy, Debug)]
pub struct HitNode {
    pub entity: u64,
    /// The body is a module with its own health.
    pub has_module_health: bool,
    /// The faction set on the body, if any.
    pub faction: Option<Faction>,
}

/// The first module with health on the chain (nearest the struck collider).
pub open spec fn first_module(chain: Seq<HitNode>, from: int) -> Option<int>
    decreases chain.len() - from,
{
    if from < 0 || from >= chain.len() {
        None
    } else if chain[from].has_module_health {
        Some(from)
    } else {
        first_module(chain, from + 1)
    }
}

/// The nearest faction on the chain.
pub open spec fn first_faction(chain: Seq<HitNode>, from: int) -> Option<Faction>
    decreases chain.len() - from,
{
    if from < 0 || from >= chain.len() {
        None
    } else if chain[from].faction is Some {
        chain[from].faction
    } else {
        first_faction(chain, from + 1)
    }
}

/// What a hit does.
#[derive(PartialEq, Eq, Structural, Clone, Copy, Debug)]
pub enum HitOutcome {
    /// Nothing: friendly fire passes through, a hull with no module takes nothing, or the
    /// body has no health at all. The projectile flies on.
    Ignore,
    /// The invincible player ship soaks the hit: the projectile is spent, no damage.
    Soak,
    /// Damage the module (and its ship's pool); the projectile is spent.
    DamageModule { module: u64, root: u64 },
    /// A plain health target (a character) takes the projectile's damage; it is spent.
    DamageTarget { target: u64 },
}

/// The outcome a hit has (see [`resolve_hit`]).
pub open spec fn spec_hit(
    chain: Seq<HitNode>,
    root_is_ship: bool,
    root_is_player_ship: bool,
    struck_has_health: bool,
    bullet_faction: Faction,
    invincible: bool,
) -> HitOutcome {
    if root_is_ship {
        if first_faction(chain, 0) == Some(bullet_faction) {
            HitOutcome::Ignore
        } else if invincible && root_is_player_ship {
            HitOutcome::Soak
        } else {
            match first_module(chain, 0) {
                Some(m) => HitOutcome::DamageModule { module: chain[m].entity, root: chain.last().entity },
                None => HitOutcome::Ignore,
            }
        }
    } else if struck_has_health {
        HitOutcome::DamageTarget { target: chain[0].entity }
    } else {
        HitOutcome::Ignore
    }
}

/// Decide what a projectile of `bullet_faction` striking the first body of `chain` does.
/// On a ship (the chain's root carries ship health): friendly fire passes through; the
/// invincible player ship soaks it; otherwise the nearest module on the chain is damaged.
/// Off a ship, a struck body with plain health takes the damage.
pub fn resolve_hit(
    chain: &Vec<HitNode>,
    root_is_ship: bool,
    root_is_player_ship: bool,
    struck_has_health: bool,
    bullet_faction: Faction,
    invincible: bool,
) -> (r: HitOutcome)
    requires
        chain@.len() > 0,
    ensures
        r == spec_hit(chain@, root_is_ship, root_is_player_ship, struck_has_health, bullet_faction, invincible),
{
    let mut module: Option<usize> = None;
    let mut faction: Option<Faction> = None;
    let mut i: usize = 0;
    while i < chain.len()
        invariant
            i <= chain@.len(),
            module is None ==> first_module(chain@, 0) == first_module(chain@, i as int),
            module matches Some(m) ==> first_module(chain@, 0) == Some(m as int) && m < chain@.len(),
            faction is None ==> first_faction(chain@, 0) == first_faction(chain@, i as int),
            faction is Some ==> first_faction(chain@, 0) == faction,
        decreases chain@.len() - i,
    {
        if module.is_none() && chain[i].has_module_health {
            module = Some(i);
        }
        if faction.is_none() {
            if let Some(f) = chain[i].faction {
                faction = Some(f);
            }
        }
        i += 1;
    }
    let root = chain[chain.len() - 1].entity;
    if root_is_ship {
        if faction == Some(bullet_faction) {
            return HitOutcome::Ignore;
        }
        if invincible && root_is_player_ship {
            return HitOutcome::Soak;
        }
        match module {
            Some(m) => HitOutcome::DamageModule { module: chain[m].entity, root },
            None => HitOutcome::Ignore,
        }
    } else if struck_has_health {
        HitOutcome::DamageTarget { target: chain[0].entity }
    } else {
        HitOutcome::Ignore
    }
}

/// The first module with health from `from` is the one at `m` when no body between
/// has module health.
proof fn lemma_first_module_at(chain: Seq<HitNode>, from: int, m: int)
    requires
        0 <= from <= m < chain.len(),
        chain[m].has_module_health,
        forall|i: int| from <= i < m ==> !chain[i].has_module_health,
    ensures
        first_module(chain, from) == Some(m),
    decreases m - from,
{
    if from < m {
        lemma_first_module_at(chain, from + 1, m);
    }
}

/// The nearest faction from `from` is that of the body at `f` when no body between has
/// one.
proof fn lemma_first_faction_at(chain: Seq<HitNode>, from: int, f: int)
    requires
        0 <= from <= f < chain.len(),
        chain[f].faction is Some,
        forall|i: int| from <= i < f ==> chain[i].faction is None,
    ensures
        first_faction(chain, from) == chain[f].faction,
    decreases f - from,
{
    if from < f {
        lemma_first_faction_at(chain, from + 1, f);
    }
}

/// The nearest faction from `from` is never one that no body from `from` on carries.
proof fn lemma_first_faction_carried(chain: Seq<HitNode>, from: int, g: Faction)
    requires
        0 <= from,
        first_faction(chain, from) == Some(g),
    ensures
        exists|f: int| from <= f < chain.len() && chain[f].faction == Some(g)
            && forall|i: int| from <= i < f ==> chain[i].faction is None,
    decreases chain.len() - from,
{
    if chain[from].faction is None {
        lemma_first_faction_carried(chain, from + 1, g);
        let f = choose|f: int| from + 1 <= f < chain.len() && chain[f].faction == Some(g)
            && forall|i: int| from + 1 <= i < f ==> chain[i].faction is None;
        assert(from <= f < chain.len() && chain[f].faction == Some(g) && forall|i: int| from <= i < f ==> chain[i].faction is None);
    } else {
        assert(forall|i: int| from <= i < from ==> chain[i].faction is None);
    }
}

/// Soaking is the invincible player ship's privilege: a hit is soaked only when
/// invincibility is on and the struck structure is the player's ship.
pub proof fn law_soak_only_when_invincible(
    chain: Seq<HitNode>,
    root_is_ship: bool,
    root_is_player_ship: bool,
    struck_has_health: bool,
    bullet_faction: Faction,
    invincible: bool,
)
    ensures
        spec_hit(chain, root_is_ship, root_is_player_ship, struck_has_health, bullet_faction, invincible)
            == HitOutcome::Soak ==> invincible && root_is_ship && root_is_player_ship,
{
}

/// A hostile hit on a ship damages the module with health nearest the struck collider,
/// and charges the ship at the chain's root, whether or not the ship is the player's,
/// unless the invincible player ship soaks it. Hostile means the nearest body with a
/// faction (if any) is not of the projectile's faction.
pub proof fn law_hostile_hit_damages_nearest_module(
    chain: Seq<HitNode>,
    root_is_player_ship: bool,
    struck_has_health: bool,
    bullet_faction: Faction,
    invincible: bool,
    m: int,
)
    requires
        0 <= m < chain.len(),
        chain[m].has_module_health,
        forall|i: int| 0 <= i < m ==> !chain[i].has_module_health,
        forall|f: int|
            0 <= f < chain.len() && chain[f].faction is Some && (forall|i: int| 0 <= i < f ==> chain[i].faction is None)
                ==> chain[f].faction != Some(bullet_faction),
        !(invincible && root_is_player_ship),
    ensures
        spec_hit(chain, true, root_is_player_ship, struck_has_health, bullet_faction, invincible)
            == (HitOutcome::DamageModule { module: chain[m].entity, root: chain.last().entity }),
{
    lemma_first_module_at(chain, 0, m);
    if first_faction(chain, 0) == Some(bullet_faction) {
        lemma_first_faction_carried(chain, 0, bullet_faction);
    }
}

/// Friendly fire passes through: when the nearest body with a faction is of the
/// projectile's faction, a hit on a ship does nothing.
pub proof fn law_friendly_fire_passes(
    chain: Seq<HitNode>,
    root_is_player_ship: bool,
    struck_has_health: bool,
    bullet_faction: Faction,
    invincible: bool,
    f: int,
)
    requires
        0 <= f < chain.len(),
        chain[f].faction == Some(bullet_faction),
        forall|i: int| 0 <= i < f ==> chain[i].faction is None,
    ensures
        spec_hit(chain, true, root_is_player_ship, struck_has_health, bullet_faction, invincible) == HitOutcome::Ignore,
{
    lemma_first_faction_at(chain, 0, f);
}

/// Off a ship, only the struck body itself matters: a body with plain health takes the
/// projectile, anything else lets it fly on.
pub proof fn law_off_ship_hits(
    chain: Seq<HitNode>,
    root_is_player_ship: bool,
    struck_has_health: bool,
    bullet_faction: Faction,
    invincible: bool,
)
    requires
        chain.len() > 0,
    ensures
        struck_has_health ==> spec_hit(chain, false, root_is_player_ship, struck_has_health, bullet_faction, invincible)
            == (HitOutcome::DamageTarget { target: chain[0].entity }),
        !struck_has_health ==> spec_hit(chain, false, root_is_player_ship, struck_has_health, bullet_faction, invincible)
            == HitOutcome::Ignore,
{
}

} // verus!
