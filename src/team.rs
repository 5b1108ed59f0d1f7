//! Teams, their conclusions and the relations between them.
use vstd::prelude::*;

verus! {

/// All possible kinds of relation between teams.
#[derive(Clone, Copy, Debug, PartialEq, Eq, Structural)]
pub enum Relation {
    /// An alliance.
    Ally,
    /// Enmity.
    Enemy,
    /// Reserved for entities in the same team.
    Kin,
}

/// Whether a team reached its objectives or failed them.
#[derive(Clone, Copy, Debug, PartialEq, Eq, Structural)]
pub enum Conclusion {
    /// The team achieved its objectives.
    Victory,
    /// The team failed to achieve its objectives.
    Defeat,
}

/// The ways in which an entity can join a team.
#[derive(Clone, Copy, Debug, PartialEq, Eq, Structural)]
pub enum EntityAddition {
    /// A new creature is spawned.
    CreatureSpawn,
    /// The creature with this id leaves another team.
    CreatureConversion(u64),
}

/// A team: the unit of control of a player.
#[derive(Clone, Debug)]
pub struct Team {
    pub id: u64,
    pub creatures: Vec<u64>,
    pub conclusion: Option<Conclusion>,
    pub objectives: u64,
}

/// What a team holds, as plain values.
pub struct TeamView {
    pub id: u64,
    pub creatures: Seq<u64>,
    pub conclusion: Option<Conclusion>,
    pub objectives: u64,
}

impl View for Team {
    type V = TeamView;

    open spec fn view(&self) -> TeamView {
        TeamView {
            id: self.id,
            creatures: self.creatures@,
            conclusion: self.conclusion,
            objectives: self.objectives,
        }
    }
}

impl Team {
    /// Returns the team's id.
    pub fn id(&self) -> (r: u64)
        ensures
            r == self@.id,
    {
        self.id
    }

    /// Returns the ids of the team's creatures, in the order in which they joined.
    pub fn creatures(&self) -> (r: &Vec<u64>)
        ensures
            r@ == self@.creatures,
    {
        &self.creatures
    }

    /// Returns the conclusion reached by this team, if any.
    pub fn conclusion(&self) -> (r: Option<Conclusion>)
        ensures
            r == self@.conclusion,
    {
        self.conclusion
    }

    /// Returns the team's objectives.
    pub fn objectives(&self) -> (r: u64)
        ensures
            r == self@.objectives,
    {
        self.objectives
    }
}

/// The key under which the relation of two distinct teams is stored: the same
/// for both orders of the pair.
pub open spec fn pair_key(first: u64, second: u64) -> (u64, u64) {
    if first <= second {
        (first, second)
    } else {
        (second, first)
    }
}

/// Returns the order-independent key of a pair of teams.
pub fn relationship_key(first: u64, second: u64) -> (r: (u64, u64))
    ensures
        r == pair_key(first, second),
{
    if first <= second {
        (first, second)
    } else {
        (second, first)
    }
}

} // verus!
