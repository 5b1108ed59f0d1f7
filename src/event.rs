//! Events: every change to a battle, as a value.
use crate::entity::{EntityId, Property};
use crate::team::{Conclusion, Relation};
use vstd::prelude::*;

verus! {

/// Event to create a new team.
#[derive(Clone, Debug, PartialEq, Eq)]
pub struct CreateTeam {
    pub id: u64,
    /// Relations between the new team and existing teams; the other existing teams
    /// become enemies.
    pub relations: Option<Vec<(u64, Relation)>>,
    pub objectives_seed: Option<u64>,
}

/// Event to set the relations of pairs of teams. Relations are symmetric.
#[derive(Clone, Debug, PartialEq, Eq)]
pub struct SetRelations {
    pub relations: Vec<(u64, u64, Relation)>,
}

/// Event to set the conclusion of a team.
#[derive(Clone, Copy, Debug, PartialEq, Eq)]
pub struct ConcludeObjectives {
    pub id: u64,
    pub conclusion: Conclusion,
}

/// Event to regenerate the objectives of a team, which also clears its conclusion.
#[derive(Clone, Copy, Debug, PartialEq, Eq)]
pub struct ResetObjectives {
    pub id: u64,
    pub seed: Option<u64>,
}

/// Event to remove an empty team.
#[derive(Clone, Copy, Debug, PartialEq, Eq)]
pub struct RemoveTeam {
    pub id: u64,
}

/// Event to spawn a creature in a team.
#[derive(Clone, Debug, PartialEq, Eq)]
pub struct CreateCreature {
    pub id: u64,
    pub team_id: u64,
    pub statistics_seed: Option<Vec<Property>>,
    pub abilities_seed: Option<Vec<Property>>,
}

/// Event to remove a creature.
#[derive(Clone, Copy, Debug, PartialEq, Eq)]
pub struct RemoveCreature {
    pub id: u64,
}

/// Event to regenerate the statistics of a character.
#[derive(Clone, Debug, PartialEq, Eq)]
pub struct RegenerateStatistics {
    pub id: EntityId,
    pub seed: Option<Vec<Property>>,
}

/// Event to regenerate the abilities of an actor.
///
/// Abilities that the actor already knows are left as they are, abilities new to
/// it are added, and abilities missing from the new set are removed.
#[derive(Clone, Debug, PartialEq, Eq)]
pub struct RegenerateAbilities {
    pub id: EntityId,
    pub seed: Option<Vec<Property>>,
}

/// Event to alter the statistics of a character.
#[derive(Clone, Copy, Debug, PartialEq, Eq)]
pub struct AlterStatistics {
    pub id: EntityId,
    pub alteration: u64,
}

/// Event to alter the abilities of an actor.
#[derive(Clone, Copy, Debug, PartialEq, Eq)]
pub struct AlterAbilities {
    pub id: EntityId,
    pub alteration: u64,
}

/// Event to start a round for an actor.
#[derive(Clone, Copy, Debug, PartialEq, Eq)]
pub struct StartRound {
    pub id: EntityId,
}

/// Event to apply an impact on the game world.
#[derive(Clone, Copy, Debug, PartialEq, Eq)]
pub struct ApplyImpact {
    pub impact: u64,
}

/// All events, as one closed set.
#[derive(Clone, Debug, PartialEq, Eq)]
pub enum Event {
    DummyEvent,
    CreateTeam(CreateTeam),
    SetRelations(SetRelations),
    ConcludeObjectives(ConcludeObjectives),
    ResetObjectives(ResetObjectives),
    RemoveTeam(RemoveTeam),
    CreateCreature(CreateCreature),
    RemoveCreature(RemoveCreature),
    RegenerateStatistics(RegenerateStatistics),
    RegenerateAbilities(RegenerateAbilities),
    AlterStatistics(AlterStatistics),
    AlterAbilities(AlterAbilities),
    StartRound(StartRound),
    EndRound,
    ApplyImpact(ApplyImpact),
}

/// The kind of an event.
#[derive(Clone, Copy, Debug, PartialEq, Eq, Structural)]
pub enum EventKind {
    DummyEvent,
    CreateTeam,
    SetRelations,
    ConcludeObjectives,
    ResetObjectives,
    RemoveTeam,
    CreateCreature,
    RemoveCreature,
    RegenerateStatistics,
    RegenerateAbilities,
    AlterStatistics,
    AlterAbilities,
    StartRound,
    EndRound,
    ApplyImpact,
}

/// Events that only the server may fire.
pub open spec fn spec_server_only(e: Event) -> bool {
    match e {
        Event::CreateTeam(_) | Event::SetRelations(_) | Event::ConcludeObjectives(_)
        | Event::ResetObjectives(_) | Event::RemoveTeam(_) | Event::CreateCreature(_)
        | Event::RemoveCreature(_) => true,
        _ => false,
    }
}

impl Event {
    /// Returns the kind of this event.
    pub fn kind(&self) -> (r: EventKind)
        ensures
            r == match *self {
                Event::DummyEvent => EventKind::DummyEvent,
                Event::CreateTeam(_) => EventKind::CreateTeam,
                Event::SetRelations(_) => EventKind::SetRelations,
                Event::ConcludeObjectives(_) => EventKind::ConcludeObjectives,
                Event::ResetObjectives(_) => EventKind::ResetObjectives,
                Event::RemoveTeam(_) => EventKind::RemoveTeam,
                Event::CreateCreature(_) => EventKind::CreateCreature,
                Event::RemoveCreature(_) => EventKind::RemoveCreature,
                Event::RegenerateStatistics(_) => EventKind::RegenerateStatistics,
                Event::RegenerateAbilities(_) => EventKind::RegenerateAbilities,
                Event::AlterStatistics(_) => EventKind::AlterStatistics,
                Event::AlterAbilities(_) => EventKind::AlterAbilities,
                Event::StartRound(_) => EventKind::StartRound,
                Event::EndRound => EventKind::EndRound,
                Event::ApplyImpact(_) => EventKind::ApplyImpact,
            },
    {
        match self {
            Event::DummyEvent => EventKind::DummyEvent,
            Event::CreateTeam(_) => EventKind::CreateTeam,
            Event::SetRelations(_) => EventKind::SetRelations,
            Event::ConcludeObjectives(_) => EventKind::ConcludeObjectives,
            Event::ResetObjectives(_) => EventKind::ResetObjectives,
            Event::RemoveTeam(_) => EventKind::RemoveTeam,
            Event::CreateCreature(_) => EventKind::CreateCreature,
            Event::RemoveCreature(_) => EventKind::RemoveCreature,
            Event::RegenerateStatistics(_) => EventKind::RegenerateStatistics,
            Event::RegenerateAbilities(_) => EventKind::RegenerateAbilities,
            Event::AlterStatistics(_) => EventKind::AlterStatistics,
            Event::AlterAbilities(_) => EventKind::AlterAbilities,
            Event::StartRound(_) => EventKind::StartRound,
            Event::EndRound => EventKind::EndRound,
            Event::ApplyImpact(_) => EventKind::ApplyImpact,
        }
    }

    /// Returns true when only the server may fire this event.
    pub fn server_only(&self) -> (r: bool)
        ensures
            r == spec_server_only(*self),
    {
        match self {
            Event::CreateTeam(_) | Event::SetRelations(_) | Event::ConcludeObjectives(_)
            | Event::ResetObjectives(_) | Event::RemoveTeam(_) | Event::CreateCreature(_)
            | Event::RemoveCreature(_) => true,
            _ => false,
        }
    }
}

/// An applied event as it travels from the server to its clients.
#[derive(Clone, Debug, PartialEq, Eq)]
pub struct VersionedEventWrapper {
    /// The event's position in the server's history.
    pub id: u64,
    /// The rules version of the server.
    pub version: u32,
    pub event: Event,
}

/// An event that a client asks the server to fire.
#[derive(Clone, Debug, PartialEq, Eq)]
pub struct ClientEventPrototype {
    pub event: Event,
    /// The rules version of the client.
    pub version: u32,
    /// The player on whose behalf the client acts, if any.
    pub player: Option<u64>,
}

/// Anything that accepts events: a server fires them, a client sends them upstream.
pub trait EventProcessor {
    /// The processor's own invariant.
    spec fn processor_wf(&self) -> bool;

    /// What submitting `event` did: `self` before, `after` after, `r` the result.
    spec fn spec_processed(&self, after: &Self, event: Event, r: Result<(), crate::error::WeaselError>) -> bool;

    /// Submits an event.
    fn process(&mut self, event: Event) -> (r: Result<(), crate::error::WeaselError>)
        requires
            old(self).processor_wf(),
        ensures
            final(self).processor_wf(),
            old(self).spec_processed(&*final(self), event, r),
    ;
}

} // verus!
