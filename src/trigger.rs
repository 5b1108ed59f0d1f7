//! Triggers: builders that collect an event's fields and fire it on a processor.
use crate::entity::{EntityId, Property};
use crate::error::WeaselError;
use crate::event::{
    AlterAbilities, AlterStatistics, ApplyImpact, ConcludeObjectives, CreateCreature, CreateTeam,
    Event, EventProcessor, RegenerateAbilities, RegenerateStatistics, RemoveCreature, RemoveTeam,
    ResetObjectives, SetRelations, StartRound,
};
use crate::battle::{explicit_of, seed_view};
use crate::team::{Conclusion, Relation};
use vstd::prelude::*;

verus! {

fn copy_seed(s: &Option<Vec<Property>>) -> (r: Option<Vec<Property>>)
    ensures
        seed_view(r) == seed_view(*s),
{
    match s {
        None => None,
        Some(v) => {
            let mut out: Vec<Property> = Vec::new();
            let mut i: usize = 0;
            while i < v.len()
                invariant
                    i <= v.len(),
                    out@ == v@.take(i as int),
                decreases v.len() - i,
            {
                out.push(v[i]);
                i += 1;
                assert(out@ =~= v@.take(i as int));
            }
            assert(v@.take(v.len() as int) == v@);
            Some(out)
        },
    }
}

fn copy_relations(s: &Option<Vec<(u64, Relation)>>) -> (r: Option<Vec<(u64, Relation)>>)
    ensures
        r is Some <==> s is Some,
        explicit_of(r) == explicit_of(*s),
{
    match s {
        None => None,
        Some(v) => {
            let mut out: Vec<(u64, Relation)> = Vec::new();
            let mut i: usize = 0;
            while i < v.len()
                invariant
                    i <= v.len(),
                    out@ == v@.take(i as int),
                decreases v.len() - i,
            {
                out.push(v[i]);
                i += 1;
                assert(out@ =~= v@.take(i as int));
            }
            assert(v@.take(v.len() as int) == v@);
            Some(out)
        },
    }
}

fn copy_triples(v: &Vec<(u64, u64, Relation)>) -> (r: Vec<(u64, u64, Relation)>)
    ensures
        r@ == v@,
{
    let mut out: Vec<(u64, u64, Relation)> = Vec::new();
    let mut i: usize = 0;
    while i < v.len()
        invariant
            i <= v.len(),
            out@ == v@.take(i as int),
        decreases v.len() - i,
    {
        out.push(v[i]);
        i += 1;
        assert(out@ =~= v@.take(i as int));
    }
    assert(v@.take(v.len() as int) == v@);
    out
}

/// `e` regenerates the abilities of `id` from a seed with the view `seed`.
pub open spec fn is_regenerate_abilities(e: Event, id: EntityId, seed: Option<Seq<Property>>) -> bool {
    e matches Event::RegenerateAbilities(r) && r.id == id && seed_view(r.seed) == seed
}

/// `e` regenerates the statistics of `id` from a seed with the view `seed`.
pub open spec fn is_regenerate_statistics(e: Event, id: EntityId, seed: Option<Seq<Property>>) -> bool {
    e matches Event::RegenerateStatistics(r) && r.id == id && seed_view(r.seed) == seed
}

/// `e` creates team `id` with explicit relations of the view `relations` (if given)
/// and objectives seed `seed`.
pub open spec fn is_create_team(
    e: Event,
    id: u64,
    relations: Option<Vec<(u64, Relation)>>,
    seed: Option<u64>,
) -> bool {
    e matches Event::CreateTeam(c) && c.id == id && (c.relations is Some <==> relations is Some)
        && explicit_of(c.relations) == explicit_of(relations) && c.objectives_seed == seed
}

/// `e` sets the relations listed in `relations`.
pub open spec fn is_set_relations(e: Event, relations: Seq<(u64, u64, Relation)>) -> bool {
    e matches Event::SetRelations(c) && c.relations@ == relations
}

/// `e` creates creature `id` in `team` from seeds with the views given.
pub open spec fn is_create_creature(
    e: Event,
    id: u64,
    team: u64,
    statistics: Option<Seq<Property>>,
    abilities: Option<Seq<Property>>,
) -> bool {
    e matches Event::CreateCreature(c) && c.id == id && c.team_id == team && seed_view(
        c.statistics_seed,
    ) == statistics && seed_view(c.abilities_seed) == abilities
}

/// Trigger to build and fire an `AlterAbilities` event.
pub struct AlterAbilitiesTrigger<'a, P: EventProcessor> {
    pub processor: &'a mut P,
    pub id: EntityId,
    pub alteration: u64,
}

impl AlterAbilities {
    /// Returns a trigger for this event.
    pub fn trigger<'a, P: EventProcessor>(processor: &'a mut P, id: EntityId, alteration: u64) -> (r:
        AlterAbilitiesTrigger<'a, P>)
        ensures
            r.id == id,
            r.alteration == alteration,
    {
        AlterAbilitiesTrigger { processor, id, alteration }
    }

    /// Returns the actor's entity id.
    pub fn id(&self) -> (r: &EntityId)
        ensures
            *r == self.id,
    {
        &self.id
    }

    /// Returns the definition of the changes to the actor's abilities.
    pub fn alteration(&self) -> (r: u64)
        ensures
            r == self.alteration,
    {
        self.alteration
    }
}

impl<'a, P: EventProcessor> AlterAbilitiesTrigger<'a, P> {
    /// Returns the event that this trigger builds.
    pub fn event(&self) -> (r: Event)
        ensures
            r == Event::AlterAbilities(AlterAbilities { id: self.id, alteration: self.alteration }),
    {
        Event::AlterAbilities(AlterAbilities { id: self.id, alteration: self.alteration })
    }

    /// Fires the event on the processor.
    pub fn fire(&mut self) -> (r: Result<(), WeaselError>)
        requires
            old(self).processor.processor_wf(),
        ensures
            old(self).processor.spec_processed(&*final(self).processor, Event::AlterAbilities(AlterAbilities { id: old(self).id, alteration: old(self).alteration }), r),
    {
        let e = self.event();
        self.processor.process(e)
    }
}

/// Trigger to build and fire a `RegenerateAbilities` event.
pub struct RegenerateAbilitiesTrigger<'a, P: EventProcessor> {
    pub processor: &'a mut P,
    pub id: EntityId,
    pub seed: Option<Vec<Property>>,
}

impl RegenerateAbilities {
    /// Returns a trigger for this event, with no seed.
    pub fn trigger<'a, P: EventProcessor>(processor: &'a mut P, id: EntityId) -> (r:
        RegenerateAbilitiesTrigger<'a, P>)
        ensures
            r.id == id,
            r.seed is None,
    {
        RegenerateAbilitiesTrigger { processor, id, seed: None }
    }

    /// Returns the actor's entity id.
    pub fn id(&self) -> (r: &EntityId)
        ensures
            *r == self.id,
    {
        &self.id
    }

    /// Returns the seed that drives the regeneration.
    pub fn seed(&self) -> (r: &Option<Vec<Property>>)
        ensures
            *r == self.seed,
    {
        &self.seed
    }
}

impl<'a, P: EventProcessor> RegenerateAbilitiesTrigger<'a, P> {
    /// Adds a seed to drive the regeneration of the actor's abilities.
    pub fn seed(&mut self, seed: Vec<Property>) -> (r: &mut RegenerateAbilitiesTrigger<'a, P>)
        ensures
            r.id == old(self).id,
            r.seed == Some(seed),
    {
        self.seed = Some(seed);
        self
    }

    /// Returns the event that this trigger builds.
    pub fn event(&self) -> (r: Event)
        ensures
            is_regenerate_abilities(r, self.id, seed_view(self.seed)),
    {
        Event::RegenerateAbilities(RegenerateAbilities { id: self.id, seed: copy_seed(&self.seed) })
    }

    /// Fires the event on the processor.
    pub fn fire(&mut self) -> (r: Result<(), WeaselError>)
        requires
            old(self).processor.processor_wf(),
        ensures
            exists|e: Event| #[trigger] is_regenerate_abilities(e, old(self).id, seed_view(old(self).seed)) && old(self).processor.spec_processed(&*final(self).processor, e, r),
    {
        let e = self.event();
        proof {
            assert(is_regenerate_abilities(e, self.id, seed_view(self.seed)));
        }
        self.processor.process(e)
    }
}

/// Trigger to build and fire a `DummyEvent`, an event that changes nothing.
pub struct DummyEventTrigger<'a, P: EventProcessor> {
    pub processor: &'a mut P,
}

/// Returns a trigger for a `DummyEvent`.
pub fn dummy_event<'a, P: EventProcessor>(processor: &'a mut P) -> DummyEventTrigger<'a, P> {
    DummyEventTrigger { processor }
}

impl<'a, P: EventProcessor> DummyEventTrigger<'a, P> {
    /// Fires the event on the processor.
    pub fn fire(&mut self) -> (r: Result<(), WeaselError>)
        requires
            old(self).processor.processor_wf(),
        ensures
            old(self).processor.spec_processed(&*final(self).processor, Event::DummyEvent, r),
    {
        self.processor.process(Event::DummyEvent)
    }
}

/// Trigger to build and fire an `EndRound` event.
pub struct EndRoundTrigger<'a, P: EventProcessor> {
    pub processor: &'a mut P,
}

/// Returns a trigger for an `EndRound` event.
pub fn end_round<'a, P: EventProcessor>(processor: &'a mut P) -> EndRoundTrigger<'a, P> {
    EndRoundTrigger { processor }
}

impl<'a, P: EventProcessor> EndRoundTrigger<'a, P> {
    /// Fires the event on the processor.
    pub fn fire(&mut self) -> (r: Result<(), WeaselError>)
        requires
            old(self).processor.processor_wf(),
        ensures
            old(self).processor.spec_processed(&*final(self).processor, Event::EndRound, r),
    {
        self.processor.process(Event::EndRound)
    }
}

/// Trigger to build and fire a `CreateTeam` event.
pub struct CreateTeamTrigger<'a, P: EventProcessor> {
    pub processor: &'a mut P,
    pub id: u64,
    pub relations: Option<Vec<(u64, Relation)>>,
    pub objectives_seed: Option<u64>,
}

impl CreateTeam {
    /// Returns a trigger for this event, with no explicit relations and no seed.
    pub fn trigger<'a, P: EventProcessor>(processor: &'a mut P, id: u64) -> (r: CreateTeamTrigger<'a, P>)
        ensures
            r.id == id,
            r.relations is None,
            r.objectives_seed is None,
    {
        CreateTeamTrigger { processor, id, relations: None, objectives_seed: None }
    }

    /// Returns the team id.
    pub fn id(&self) -> (r: u64)
        ensures
            r == self.id,
    {
        self.id
    }

    /// Returns the explicit relations of the new team.
    pub fn relations(&self) -> (r: &Option<Vec<(u64, Relation)>>)
        ensures
            *r == self.relations,
    {
        &self.relations
    }

    /// Returns the seed of the team's objectives.
    pub fn objectives_seed(&self) -> (r: Option<u64>)
        ensures
            r == self.objectives_seed,
    {
        self.objectives_seed
    }
}

impl<'a, P: EventProcessor> CreateTeamTrigger<'a, P> {
    /// Sets the relations between the new team and existing teams.
    pub fn relations(&mut self, relations: &[(u64, Relation)]) -> (r: &mut CreateTeamTrigger<'a, P>)
        ensures
            r.id == old(self).id,
            r.objectives_seed == old(self).objectives_seed,
            r.relations matches Some(v) && v@ == relations@,
    {
        self.relations = Some(vstd::slice::slice_to_vec(relations));
        self
    }

    /// Adds a seed to drive the generation of the team's objectives.
    pub fn objectives_seed(&mut self, seed: u64) -> (r: &mut CreateTeamTrigger<'a, P>)
        ensures
            r.id == old(self).id,
            r.relations == old(self).relations,
            r.objectives_seed == Some(seed),
    {
        self.objectives_seed = Some(seed);
        self
    }

    /// Returns the event that this trigger builds.
    pub fn event(&self) -> (r: Event)
        ensures
            is_create_team(r, self.id, self.relations, self.objectives_seed),
    {
        Event::CreateTeam(
            CreateTeam {
                id: self.id,
                relations: copy_relations(&self.relations),
                objectives_seed: self.objectives_seed,
            },
        )
    }

    /// Fires the event on the processor.
    pub fn fire(&mut self) -> (r: Result<(), WeaselError>)
        requires
            old(self).processor.processor_wf(),
        ensures
            exists|e: Event| #[trigger] is_create_team(e, old(self).id, old(self).relations, old(self).objectives_seed) && old(self).processor.spec_processed(&*final(self).processor, e, r),
    {
        let e = self.event();
        proof {
            assert(is_create_team(e, self.id, self.relations, self.objectives_seed));
        }
        self.processor.process(e)
    }
}

/// Trigger to build and fire a `SetRelations` event.
pub struct SetRelationsTrigger<'a, P: EventProcessor> {
    pub processor: &'a mut P,
    pub relations: Vec<(u64, u64, Relation)>,
}

impl SetRelations {
    /// Returns a trigger for this event.
    pub fn trigger<'a, P: EventProcessor>(processor: &'a mut P, relations: &[(u64, u64, Relation)]) -> (r:
        SetRelationsTrigger<'a, P>)
        ensures
            r.relations@ == relations@,
    {
        SetRelationsTrigger { processor, relations: vstd::slice::slice_to_vec(relations) }
    }

    /// Returns all relation changes.
    pub fn relations(&self) -> (r: &Vec<(u64, u64, Relation)>)
        ensures
            *r == self.relations,
    {
        &self.relations
    }
}

impl<'a, P: EventProcessor> SetRelationsTrigger<'a, P> {
    /// Fires the event on the processor.
    pub fn fire(&mut self) -> (r: Result<(), WeaselError>)
        requires
            old(self).processor.processor_wf(),
        ensures
            exists|e: Event| #[trigger] is_set_relations(e, old(self).relations@) && old(self).processor.spec_processed(&*final(self).processor, e, r),
    {
        let e = Event::SetRelations(SetRelations { relations: copy_triples(&self.relations) });
        proof {
            assert(is_set_relations(e, self.relations@));
        }
        self.processor.process(e)
    }
}

/// Trigger to build and fire a `ConcludeObjectives` event.
pub struct ConcludeMissionTrigger<'a, P: EventProcessor> {
    pub processor: &'a mut P,
    pub id: u64,
    pub conclusion: Conclusion,
}

impl ConcludeObjectives {
    /// Returns a trigger for this event.
    pub fn trigger<'a, P: EventProcessor>(processor: &'a mut P, id: u64, conclusion: Conclusion) -> (r:
        ConcludeMissionTrigger<'a, P>)
        ensures
            r.id == id,
            r.conclusion == conclusion,
    {
        ConcludeMissionTrigger { processor, id, conclusion }
    }
}

impl<'a, P: EventProcessor> ConcludeMissionTrigger<'a, P> {
    /// Fires the event on the processor.
    pub fn fire(&mut self) -> (r: Result<(), WeaselError>)
        requires
            old(self).processor.processor_wf(),
        ensures
            old(self).processor.spec_processed(&*final(self).processor, Event::ConcludeObjectives(ConcludeObjectives { id: old(self).id, conclusion: old(self).conclusion }), r),
    {
        let e = Event::ConcludeObjectives(ConcludeObjectives { id: self.id, conclusion: self.conclusion });
        self.processor.process(e)
    }
}

/// Trigger to build and fire a `ResetObjectives` event.
pub struct ResetObjectivesTrigger<'a, P: EventProcessor> {
    pub processor: &'a mut P,
    pub id: u64,
    pub seed: Option<u64>,
}

impl ResetObjectives {
    /// Returns a trigger for this event, with no seed.
    pub fn trigger<'a, P: EventProcessor>(processor: &'a mut P, id: u64) -> (r: ResetObjectivesTrigger<'a, P>)
        ensures
            r.id == id,
            r.seed is None,
    {
        ResetObjectivesTrigger { processor, id, seed: None }
    }

    /// Returns the team id.
    pub fn id(&self) -> (r: u64)
        ensures
            r == self.id,
    {
        self.id
    }

    /// Returns the new seed.
    pub fn seed(&self) -> (r: Option<u64>)
        ensures
            r == self.seed,
    {
        self.seed
    }
}

impl<'a, P: EventProcessor> ResetObjectivesTrigger<'a, P> {
    /// Adds a seed to drive the generation of the new objectives.
    pub fn seed(&mut self, seed: u64) -> (r: &mut ResetObjectivesTrigger<'a, P>)
        ensures
            r.id == old(self).id,
            r.seed == Some(seed),
    {
        self.seed = Some(seed);
        self
    }

    /// Fires the event on the processor.
    pub fn fire(&mut self) -> (r: Result<(), WeaselError>)
        requires
            old(self).processor.processor_wf(),
        ensures
            old(self).processor.spec_processed(&*final(self).processor, Event::ResetObjectives(ResetObjectives { id: old(self).id, seed: old(self).seed }), r),
    {
        let e = Event::ResetObjectives(ResetObjectives { id: self.id, seed: self.seed });
        self.processor.process(e)
    }
}

/// Trigger to build and fire a `RemoveTeam` event.
pub struct RemoveTeamTrigger<'a, P: EventProcessor> {
    pub processor: &'a mut P,
    pub id: u64,
}

impl RemoveTeam {
    /// Returns a trigger for this event.
    pub fn trigger<'a, P: EventProcessor>(processor: &'a mut P, id: u64) -> (r: RemoveTeamTrigger<'a, P>)
        ensures
            r.id == id,
    {
        RemoveTeamTrigger { processor, id }
    }

    /// Returns the id of the team to be removed.
    pub fn id(&self) -> (r: u64)
        ensures
            r == self.id,
    {
        self.id
    }
}

impl<'a, P: EventProcessor> RemoveTeamTrigger<'a, P> {
    /// Fires the event on the processor.
    pub fn fire(&mut self) -> (r: Result<(), WeaselError>)
        requires
            old(self).processor.processor_wf(),
        ensures
            old(self).processor.spec_processed(&*final(self).processor, Event::RemoveTeam(RemoveTeam { id: old(self).id }), r),
    {
        self.processor.process(Event::RemoveTeam(RemoveTeam { id: self.id }))
    }
}

/// Trigger to build and fire a `CreateCreature` event.
pub struct CreateCreatureTrigger<'a, P: EventProcessor> {
    pub processor: &'a mut P,
    pub id: u64,
    pub team_id: u64,
    pub statistics_seed: Option<Vec<Property>>,
    pub abilities_seed: Option<Vec<Property>>,
}

impl CreateCreature {
    /// Returns a trigger for this event, with no seeds.
    pub fn trigger<'a, P: EventProcessor>(processor: &'a mut P, id: u64, team_id: u64) -> (r:
        CreateCreatureTrigger<'a, P>)
        ensures
            r.id == id,
            r.team_id == team_id,
            r.statistics_seed is None,
            r.abilities_seed is None,
    {
        CreateCreatureTrigger { processor, id, team_id, statistics_seed: None, abilities_seed: None }
    }
}

impl<'a, P: EventProcessor> CreateCreatureTrigger<'a, P> {
    /// Adds a seed to drive the generation of the creature's statistics.
    pub fn statistics_seed(&mut self, seed: Vec<Property>) -> (r: &mut CreateCreatureTrigger<'a, P>)
        ensures
            r.id == old(self).id,
            r.team_id == old(self).team_id,
            r.statistics_seed == Some(seed),
            r.abilities_seed == old(self).abilities_seed,
    {
        self.statistics_seed = Some(seed);
        self
    }

    /// Adds a seed to drive the generation of the creature's abilities.
    pub fn abilities_seed(&mut self, seed: Vec<Property>) -> (r: &mut CreateCreatureTrigger<'a, P>)
        ensures
            r.id == old(self).id,
            r.team_id == old(self).team_id,
            r.statistics_seed == old(self).statistics_seed,
            r.abilities_seed == Some(seed),
    {
        self.abilities_seed = Some(seed);
        self
    }

    /// Fires the event on the processor.
    pub fn fire(&mut self) -> (r: Result<(), WeaselError>)
        requires
            old(self).processor.processor_wf(),
        ensures
            exists|e: Event| #[trigger] is_create_creature(e, old(self).id, old(self).team_id, seed_view(old(self).statistics_seed), seed_view(old(self).abilities_seed)) && old(self).processor.spec_processed(&*final(self).processor, e, r),
    {
        let e = Event::CreateCreature(
            CreateCreature {
                id: self.id,
                team_id: self.team_id,
                statistics_seed: copy_seed(&self.statistics_seed),
                abilities_seed: copy_seed(&self.abilities_seed),
            },
        );
        proof {
            assert(is_create_creature(e, self.id, self.team_id, seed_view(self.statistics_seed), seed_view(self.abilities_seed)));
        }
        self.processor.process(e)
    }
}

/// Trigger to build and fire a `RemoveCreature` event.
pub struct RemoveCreatureTrigger<'a, P: EventProcessor> {
    pub processor: &'a mut P,
    pub id: u64,
}

impl RemoveCreature {
    /// Returns a trigger for this event.
    pub fn trigger<'a, P: EventProcessor>(processor: &'a mut P, id: u64) -> (r: RemoveCreatureTrigger<'a, P>)
        ensures
            r.id == id,
    {
        RemoveCreatureTrigger { processor, id }
    }
}

impl<'a, P: EventProcessor> RemoveCreatureTrigger<'a, P> {
    /// Fires the event on the processor.
    pub fn fire(&mut self) -> (r: Result<(), WeaselError>)
        requires
            old(self).processor.processor_wf(),
        ensures
            old(self).processor.spec_processed(&*final(self).processor, Event::RemoveCreature(RemoveCreature { id: old(self).id }), r),
    {
        self.processor.process(Event::RemoveCreature(RemoveCreature { id: self.id }))
    }
}

/// Trigger to build and fire a `RegenerateStatistics` event.
pub struct RegenerateStatisticsTrigger<'a, P: EventProcessor> {
    pub processor: &'a mut P,
    pub id: EntityId,
    pub seed: Option<Vec<Property>>,
}

impl RegenerateStatistics {
    /// Returns a trigger for this event, with no seed.
    pub fn trigger<'a, P: EventProcessor>(processor: &'a mut P, id: EntityId) -> (r:
        RegenerateStatisticsTrigger<'a, P>)
        ensures
            r.id == id,
            r.seed is None,
    {
        RegenerateStatisticsTrigger { processor, id, seed: None }
    }
}

impl<'a, P: EventProcessor> RegenerateStatisticsTrigger<'a, P> {
    /// Adds a seed to drive the regeneration of the character's statistics.
    pub fn seed(&mut self, seed: Vec<Property>) -> (r: &mut RegenerateStatisticsTrigger<'a, P>)
        ensures
            r.id == old(self).id,
            r.seed == Some(seed),
    {
        self.seed = Some(seed);
        self
    }

    /// Fires the event on the processor.
    pub fn fire(&mut self) -> (r: Result<(), WeaselError>)
        requires
            old(self).processor.processor_wf(),
        ensures
            exists|e: Event| #[trigger] is_regenerate_statistics(e, old(self).id, seed_view(old(self).seed)) && old(self).processor.spec_processed(&*final(self).processor, e, r),
    {
        let e = Event::RegenerateStatistics(RegenerateStatistics { id: self.id, seed: copy_seed(&self.seed) });
        proof {
            assert(is_regenerate_statistics(e, self.id, seed_view(self.seed)));
        }
        self.processor.process(e)
    }
}

/// Trigger to build and fire an `AlterStatistics` event.
pub struct AlterStatisticsTrigger<'a, P: EventProcessor> {
    pub processor: &'a mut P,
    pub id: EntityId,
    pub alteration: u64,
}

impl AlterStatistics {
    /// Returns a trigger for this event.
    pub fn trigger<'a, P: EventProcessor>(processor: &'a mut P, id: EntityId, alteration: u64) -> (r:
        AlterStatisticsTrigger<'a, P>)
        ensures
            r.id == id,
            r.alteration == alteration,
    {
        AlterStatisticsTrigger { processor, id, alteration }
    }
}

impl<'a, P: EventProcessor> AlterStatisticsTrigger<'a, P> {
    /// Fires the event on the processor.
    pub fn fire(&mut self) -> (r: Result<(), WeaselError>)
        requires
            old(self).processor.processor_wf(),
        ensures
            old(self).processor.spec_processed(&*final(self).processor, Event::AlterStatistics(AlterStatistics { id: old(self).id, alteration: old(self).alteration }), r),
    {
        let e = Event::AlterStatistics(AlterStatistics { id: self.id, alteration: self.alteration });
        self.processor.process(e)
    }
}

/// Trigger to build and fire a `StartRound` event.
pub struct StartRoundTrigger<'a, P: EventProcessor> {
    pub processor: &'a mut P,
    pub id: EntityId,
}

impl StartRound {
    /// Returns a trigger for this event.
    pub fn trigger<'a, P: EventProcessor>(processor: &'a mut P, id: EntityId) -> (r: StartRoundTrigger<'a, P>)
        ensures
            r.id == id,
    {
        StartRoundTrigger { processor, id }
    }
}

impl<'a, P: EventProcessor> StartRoundTrigger<'a, P> {
    /// Fires the event on the processor.
    pub fn fire(&mut self) -> (r: Result<(), WeaselError>)
        requires
            old(self).processor.processor_wf(),
        ensures
            old(self).processor.spec_processed(&*final(self).processor, Event::StartRound(StartRound { id: old(self).id }), r),
    {
        self.processor.process(Event::StartRound(StartRound { id: self.id }))
    }
}

/// Trigger to build and fire an `ApplyImpact` event.
pub struct ApplyImpactTrigger<'a, P: EventProcessor> {
    pub processor: &'a mut P,
    pub impact: u64,
}

impl ApplyImpact {
    /// Returns a trigger for this event.
    pub fn trigger<'a, P: EventProcessor>(processor: &'a mut P, impact: u64) -> (r: ApplyImpactTrigger<'a, P>)
        ensures
            r.impact == impact,
    {
        ApplyImpactTrigger { processor, impact }
    }

    /// Returns the impact inside this event.
    pub fn impact(&self) -> (r: u64)
        ensures
            r == self.impact,
    {
        self.impact
    }
}

impl<'a, P: EventProcessor> ApplyImpactTrigger<'a, P> {
    /// Fires the event on the processor.
    pub fn fire(&mut self) -> (r: Result<(), WeaselError>)
        requires
            old(self).processor.processor_wf(),
        ensures
            old(self).processor.spec_processed(&*final(self).processor, Event::ApplyImpact(ApplyImpact { impact: old(self).impact }), r),
    {
        self.processor.process(Event::ApplyImpact(ApplyImpact { impact: self.impact }))
    }
}

} // verus!
