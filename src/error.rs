//! Errors of the battle engine.
use crate::entity::EntityId;
use vstd::prelude::*;

verus! {

/// Every error that the engine reports. All of them leave the caller free to go on.
#[derive(Clone, Debug, PartialEq, Eq)]
pub enum WeaselError {
    /// A team with this id already exists.
    DuplicatedTeam(u64),
    /// A creature with this id already exists.
    DuplicatedCreature(u64),
    /// No team has this id.
    TeamNotFound(u64),
    /// No creature has this id.
    CreatureNotFound(u64),
    /// No entity has this id.
    EntityNotFound(EntityId),
    /// The entity cannot act.
    NotAnActor(EntityId),
    /// A team cannot have a relation with itself.
    SelfRelation,
    /// The kin relation cannot be set explicitly.
    KinshipRelation,
    /// The team still has members.
    TeamNotEmpty(u64),
    /// The team rules refused a new creature in this team.
    NewCreatureUnaccepted(u64),
    /// A round is already in progress.
    RoundInProgress,
    /// No round is in progress.
    NoRoundInProgress,
    /// The two peers run different rule versions: the receiver's, then the sender's.
    IncompatibleVersions(u32, u32),
    /// An event arrived with an unexpected id: the id received, then the id expected.
    NonContiguousEventId(u64, u64),
    /// A sink failed to deliver an event.
    EventSinkError(String),
    /// No sink is attached under this id.
    EventSinkNotFound(u64),
    /// A sink is already attached under this id.
    DuplicatedEventSink(u64),
    /// The range `start..end` does not lie within a history of `len` events.
    InvalidEventRange(u64, u64, u64),
    /// Only the server may fire this event.
    ServerOnlyEvent,
    /// The server requires a player id, and the event carried none.
    MissingAuthentication,
    /// The player has no rights over the team.
    AuthenticationError(Option<u64>, u64),
    /// The follow-up events of one firing exceeded the engine's bound.
    CascadeTooLong,
}

} // verus!
