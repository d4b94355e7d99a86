use vstd::prelude::*;

verus! {

/// Which side an entity fights for.
#[derive(PartialEq, Eq, Structural, Clone, Copy, Debug)]
pub enum Faction {
    Player,
    Enemy,
}

/// Whether two factions are hostile to each other (different sides).
pub fn hostile(a: Faction, b: Faction) -> (r: bool)
    ensures
        r == (a != b),
{
    a != b
}

} // verus!
