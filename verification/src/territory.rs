use vstd::prelude::*;

use crate::points::MapRegion;

verus! {

/// A territory claim on the map. Agents or rooms can claim regions.
#[derive(Debug, PartialEq)]
pub struct TerritoryMark<C> {
    pub name: String,
    pub region: MapRegion<C>,
    pub owner: String,
    pub priority: u32,
}

/// The name of the claim that wins a conflict between `a` and `b`: the one
/// with the higher priority, or none when the priorities are equal.
pub open spec fn conflict_winner<C>(a: TerritoryMark<C>, b: TerritoryMark<C>) -> Option<Seq<char>> {
    if a.priority > b.priority {
        Some(a.name@)
    } else if b.priority > a.priority {
        Some(b.name@)
    } else {
        None
    }
}

impl<C> TerritoryMark<C> {
    pub fn new(name: &str, region: MapRegion<C>, owner: &str, priority: u32) -> (r: Self)
        ensures
            r.name@ == name@,
            r.region == region,
            r.owner@ == owner@,
            r.priority == priority,
    {
        TerritoryMark { name: name.to_owned(), region, owner: owner.to_owned(), priority }
    }

    /// Resolve overlap: higher priority wins. Returns the winner's name, or None if equal.
    pub fn resolve_conflict(&self, other: &TerritoryMark<C>) -> (r: Option<String>)
        ensures
            r is Some <==> conflict_winner(*self, *other) is Some,
            r matches Some(w) ==> conflict_winner(*self, *other) == Some(w@),
    {
        if self.priority > other.priority {
            Some(self.name.clone())
        } else if other.priority > self.priority {
            Some(other.name.clone())
        } else {
            None
        }
    }
}

impl<C: Copy> Clone for TerritoryMark<C> {
    fn clone(&self) -> (r: Self)
        ensures
            r == *self,
    {
        TerritoryMark {
            name: self.name.clone(),
            region: self.region,
            owner: self.owner.clone(),
            priority: self.priority,
        }
    }
}

/// Conflict resolution does not depend on which claim asks: both claims
/// agree on the winner, there is none exactly when the priorities are
/// equal, and a winner always has the strictly higher priority.
pub proof fn lemma_conflict_agreement<C>(a: TerritoryMark<C>, b: TerritoryMark<C>)
    ensures
        conflict_winner(a, b) == conflict_winner(b, a),
        conflict_winner(a, b) is None <==> a.priority == b.priority,
        a.priority > b.priority ==> conflict_winner(a, b) == Some(a.name@),
        b.priority > a.priority ==> conflict_winner(a, b) == Some(b.name@),
{
}

} // verus!
