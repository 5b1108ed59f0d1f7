//! The event kernel: verifies events, applies them, drains their follow-ups and
//! records everything applied in a history with contiguous ids.
use crate::entities::{
    lemma_add_creature_wf, lemma_add_team_wf, lemma_remove_creature_wf, lemma_remove_team_wf,
    lemma_same_shape_wf, Entities, EntitiesView,
};
use crate::entity::{
    lemma_regenerated, regenerate, regenerated, unique_ids, Creature, CreatureView, EntityId,
    Property, Transmutation,
};
use crate::error::WeaselError;
use crate::event::{Event, RemoveCreature, VersionedEventWrapper};
use crate::metric::{bumped, Metrics, MetricsView, CREATURES_CREATED, TEAMS_CREATED};
use crate::rules::BattleRules;
use crate::assoc::{assoc_get, lemma_assoc_set};
use crate::team::{pair_key, EntityAddition, Relation, TeamView};
use vstd::prelude::*;

verus! {

/// The most events that one firing may apply, follow-ups included.
pub const MAX_CASCADE: usize = 1000000;

/// Whether an actor is taking its round.
#[derive(Clone, Copy, Debug, PartialEq, Eq, Structural)]
pub enum RoundState {
    /// No round is in progress.
    Ready,
    /// The actor is taking its round.
    Started(EntityId),
}

/// The part of a battle that events build: entities, round and counters.
pub struct BattleState {
    pub entities: EntitiesView,
    pub round: RoundState,
    pub metrics: MetricsView,
    /// The entropy word that rule hooks draw on; it moves on after every event.
    pub entropy: u64,
}

impl BattleState {
    pub open spec fn initial() -> BattleState {
        BattleState {
            entities: EntitiesView::empty(),
            round: RoundState::Ready,
            metrics: MetricsView::empty(),
            entropy: 0,
        }
    }

    pub open spec fn wf(self) -> bool {
        self.entities.wf() && self.metrics.wf()
    }
}

/// A whole battle as plain values.
pub struct BattleView {
    pub state: BattleState,
    /// Pairs of a player and a team that the player may act for.
    pub rights: Seq<(u64, u64)>,
    pub history: Seq<VersionedEventWrapper>,
}

pub open spec fn seed_view(s: Option<Vec<Property>>) -> Option<Seq<Property>> {
    match s {
        Some(v) => Some(v@),
        None => None,
    }
}

/// The first fault of the relations given at the creation of team `id`.
pub open spec fn team_relations_error(
    ents: EntitiesView,
    id: u64,
    list: Seq<(u64, Relation)>,
) -> Option<WeaselError>
    decreases list.len(),
{
    if list.len() == 0 {
        None
    } else if list[0].0 == id {
        Some(WeaselError::SelfRelation)
    } else if list[0].1 == Relation::Kin {
        Some(WeaselError::KinshipRelation)
    } else if !ents.has_team(list[0].0) {
        Some(WeaselError::TeamNotFound(list[0].0))
    } else {
        team_relations_error(ents, id, list.drop_first())
    }
}

/// The first fault of a list of relations to set.
pub open spec fn relations_error(ents: EntitiesView, list: Seq<(u64, u64, Relation)>) -> Option<
    WeaselError,
>
    decreases list.len(),
{
    if list.len() == 0 {
        None
    } else if list[0].0 == list[0].1 {
        Some(WeaselError::SelfRelation)
    } else if list[0].2 == Relation::Kin {
        Some(WeaselError::KinshipRelation)
    } else if !ents.has_team(list[0].0) {
        Some(WeaselError::TeamNotFound(list[0].0))
    } else if !ents.has_team(list[0].1) {
        Some(WeaselError::TeamNotFound(list[0].1))
    } else {
        relations_error(ents, list.drop_first())
    }
}

/// The fault, if any, of naming `id` as an acting entity.
pub open spec fn actor_error(ents: EntitiesView, id: EntityId) -> Option<WeaselError> {
    if !id.spec_is_actor() {
        Some(WeaselError::NotAnActor(id))
    } else if !ents.has_entity(id) {
        Some(WeaselError::EntityNotFound(id))
    } else {
        None
    }
}

/// The fault, if any, of naming `id` as a character.
pub open spec fn character_error(ents: EntitiesView, id: EntityId) -> Option<WeaselError> {
    if !ents.has_entity(id) {
        Some(WeaselError::EntityNotFound(id))
    } else {
        None
    }
}

/// Why `e` cannot be applied to `st`, or `None` when it can.
#[verifier::opaque]
pub open spec fn spec_verify<R: BattleRules>(rules: R, st: BattleState, e: Event) -> Option<
    WeaselError,
> {
    let ents = st.entities;
    match e {
        Event::DummyEvent => None,
        Event::CreateTeam(c) => if ents.has_team(c.id) {
            Some(WeaselError::DuplicatedTeam(c.id))
        } else {
            match c.relations {
                Some(v) => team_relations_error(ents, c.id, v@),
                None => None,
            }
        },
        Event::SetRelations(s) => relations_error(ents, s.relations@),
        Event::ConcludeObjectives(c) => if !ents.has_team(c.id) {
            Some(WeaselError::TeamNotFound(c.id))
        } else {
            None
        },
        Event::ResetObjectives(r) => if !ents.has_team(r.id) {
            Some(WeaselError::TeamNotFound(r.id))
        } else {
            None
        },
        Event::RemoveTeam(r) => if !ents.has_team(r.id) {
            Some(WeaselError::TeamNotFound(r.id))
        } else if ents.teams[ents.team_idx(r.id)].creatures.len() > 0 {
            Some(WeaselError::TeamNotEmpty(r.id))
        } else {
            None
        },
        Event::CreateCreature(c) => if ents.has_creature(c.id) {
            Some(WeaselError::DuplicatedCreature(c.id))
        } else if !ents.has_team(c.team_id) {
            Some(WeaselError::TeamNotFound(c.team_id))
        } else if !rules.spec_allow_new_entity(ents, c.team_id, EntityAddition::CreatureSpawn) {
            Some(WeaselError::NewCreatureUnaccepted(c.team_id))
        } else {
            None
        },
        Event::RemoveCreature(r) => if !ents.has_creature(r.id) {
            Some(WeaselError::CreatureNotFound(r.id))
        } else {
            None
        },
        Event::RegenerateStatistics(r) => character_error(ents, r.id),
        Event::RegenerateAbilities(r) => actor_error(ents, r.id),
        Event::AlterStatistics(a) => character_error(ents, a.id),
        Event::AlterAbilities(a) => actor_error(ents, a.id),
        Event::StartRound(s) => if st.round is Started {
            Some(WeaselError::RoundInProgress)
        } else {
            actor_error(ents, s.id)
        },
        Event::EndRound => if st.round is Ready {
            Some(WeaselError::NoRoundInProgress)
        } else {
            None
        },
        Event::ApplyImpact(_) => None,
    }
}

/// The explicit relations of a team creation, empty where none were given.
pub open spec fn explicit_of(relations: Option<Vec<(u64, Relation)>>) -> Seq<(u64, Relation)> {
    match relations {
        Some(v) => v@,
        None => Seq::empty(),
    }
}

/// The explicit list names team `t`.
pub open spec fn listed(explicit: Seq<(u64, Relation)>, t: u64) -> bool {
    exists|i: int| 0 <= i < explicit.len() && #[trigger] explicit[i].0 == t
}

/// The relations written at the creation of team `id` for the explicit list.
pub open spec fn explicit_pairs(id: u64, explicit: Seq<(u64, Relation)>) -> Seq<
    (u64, u64, Relation),
> {
    explicit.map_values(|p: (u64, Relation)| (id, p.0, p.1))
}

/// Enmity between team `id` and every team of `teams` that the explicit list
/// leaves out.
pub open spec fn enemy_defaults(teams: Seq<TeamView>, id: u64, explicit: Seq<(u64, Relation)>) -> Seq<
    (u64, u64, Relation),
>
    decreases teams.len(),
{
    if teams.len() == 0 {
        Seq::empty()
    } else {
        let rest = enemy_defaults(teams.drop_last(), id, explicit);
        if listed(explicit, teams.last().id) {
            rest
        } else {
            rest.push((id, teams.last().id, Relation::Enemy))
        }
    }
}

/// The properties kept after the rules produced `s`: the first of each id.
pub open spec fn normalized(s: Seq<Property>) -> Seq<Property> {
    regenerated(Seq::empty(), s)
}

/// The next entropy word: one step of a 64-bit linear congruential generator.
pub open spec fn next_entropy(x: u64) -> u64 {
    vstd::wrapping::u64_specs::wrapping_add(
        vstd::wrapping::u64_specs::wrapping_mul(x, 6364136223846793005),
        1442695040888963407,
    )
}

/// Returns the entropy word that follows `x`.
pub fn step_entropy(x: u64) -> (r: u64)
    ensures
        r == next_entropy(x),
{
    x.wrapping_mul(6364136223846793005).wrapping_add(1442695040888963407)
}

/// The counters after adding each increment of `incs`, in order.
pub open spec fn bump_all(s: Seq<(u64, u64)>, incs: Seq<(u64, u64)>) -> Seq<(u64, u64)>
    decreases incs.len(),
{
    if incs.len() == 0 {
        s
    } else {
        bumped(bump_all(s, incs.drop_last()), incs.last().0, incs.last().1)
    }
}

proof fn lemma_bump_all_wf(s: Seq<(u64, u64)>, incs: Seq<(u64, u64)>)
    requires
        crate::assoc::assoc_unique(s),
    ensures
        crate::assoc::assoc_unique(bump_all(s, incs)),
    decreases incs.len(),
{
    if incs.len() > 0 {
        lemma_bump_all_wf(s, incs.drop_last());
        crate::metric::lemma_bumped_wf(bump_all(s, incs.drop_last()), incs.last().0, incs.last().1);
    }
}

/// The state after applying `e`, and the follow-up events that it asks for: the
/// event's own effect, then the user counters that the rules raise for it, and
/// the entropy word moves on.
pub open spec fn spec_apply<R: BattleRules>(rules: R, st: BattleState, e: Event) -> (
    BattleState,
    Seq<Event>,
) {
    let (core, follow) = apply_core(rules, st, e);
    (
        BattleState {
            metrics: MetricsView {
                user: bump_all(core.metrics.user, rules.spec_user_metrics(st.entities, e)),
                ..core.metrics
            },
            entropy: next_entropy(st.entropy),
            ..core
        },
        follow,
    )
}

/// The effect of `e` itself, and the follow-up events that it asks for.
#[verifier::opaque]
pub open spec fn apply_core<R: BattleRules>(rules: R, st: BattleState, e: Event) -> (
    BattleState,
    Seq<Event>,
) {
    let ents = st.entities;
    match e {
        Event::DummyEvent => (st, Seq::empty()),
        Event::CreateTeam(c) => {
            let explicit = explicit_of(c.relations);
            let pairs = explicit_pairs(c.id, explicit) + enemy_defaults(ents.teams, c.id, explicit);
            (
                BattleState {
                    entities: ents.add_team(c.id, rules.spec_objectives(ents, st.entropy, c.objectives_seed)).update_relations(pairs),
                    metrics: MetricsView {
                        system: bumped(st.metrics.system, TEAMS_CREATED, 1),
                        ..st.metrics
                    },
                    ..st
                },
                Seq::empty(),
            )
        },
        Event::SetRelations(s) => (
            BattleState { entities: ents.update_relations(s.relations@), ..st },
            Seq::empty(),
        ),
        Event::ConcludeObjectives(c) => (
            BattleState { entities: ents.set_conclusion(c.id, Some(c.conclusion)), ..st },
            Seq::empty(),
        ),
        Event::ResetObjectives(r) => (
            BattleState { entities: ents.set_objectives(r.id, rules.spec_objectives(ents, st.entropy, r.seed)), ..st },
            Seq::empty(),
        ),
        Event::RemoveTeam(r) => (BattleState { entities: ents.remove_team(r.id), ..st }, Seq::empty()),
        Event::CreateCreature(c) => (
            BattleState {
                entities: ents.add_creature(
                    CreatureView {
                        id: c.id,
                        team_id: c.team_id,
                        statistics: normalized(rules.spec_statistics(ents, st.entropy, seed_view(c.statistics_seed))),
                        abilities: normalized(rules.spec_abilities(ents, st.entropy, seed_view(c.abilities_seed))),
                    },
                ),
                metrics: MetricsView {
                    system: bumped(st.metrics.system, CREATURES_CREATED, 1),
                    ..st.metrics
                },
                ..st
            },
            Seq::empty(),
        ),
        Event::RemoveCreature(r) => (
            BattleState { entities: ents.remove_creature(r.id), ..st },
            if st.round == RoundState::Started(EntityId::Creature(r.id)) {
                seq![Event::EndRound]
            } else {
                Seq::empty()
            },
        ),
        Event::RegenerateStatistics(r) => match r.id {
            EntityId::Creature(c) => (
                BattleState {
                    entities: ents.set_statistics(
                        c,
                        regenerated(
                            ents.creatures[ents.creature_idx(c)].statistics,
                            rules.spec_statistics(ents, st.entropy, seed_view(r.seed)),
                        ),
                    ),
                    ..st
                },
                Seq::empty(),
            ),
            EntityId::Object(_) => (st, Seq::empty()),
        },
        Event::RegenerateAbilities(r) => match r.id {
            EntityId::Creature(c) => (
                BattleState {
                    entities: ents.set_abilities(
                        c,
                        regenerated(
                            ents.creatures[ents.creature_idx(c)].abilities,
                            rules.spec_abilities(ents, st.entropy, seed_view(r.seed)),
                        ),
                    ),
                    ..st
                },
                Seq::empty(),
            ),
            EntityId::Object(_) => (st, Seq::empty()),
        },
        Event::AlterStatistics(a) => match a.id {
            EntityId::Creature(c) => {
                let altered = rules.spec_alter_statistics(
                    ents,
                    st.entropy,
                    ents.creatures[ents.creature_idx(c)].statistics,
                    a.alteration,
                );
                (
                    BattleState { entities: ents.set_statistics(c, normalized(altered.0)), ..st },
                    if altered.1 == Some(Transmutation::Removal) {
                        seq![Event::RemoveCreature(RemoveCreature { id: c })]
                    } else {
                        Seq::empty()
                    },
                )
            },
            EntityId::Object(_) => (st, Seq::empty()),
        },
        Event::AlterAbilities(a) => match a.id {
            EntityId::Creature(c) => (
                BattleState {
                    entities: ents.set_abilities(
                        c,
                        normalized(
                            rules.spec_alter_abilities(
                                ents,
                                st.entropy,
                                ents.creatures[ents.creature_idx(c)].abilities,
                                a.alteration,
                            ),
                        ),
                    ),
                    ..st
                },
                Seq::empty(),
            ),
            EntityId::Object(_) => (st, Seq::empty()),
        },
        Event::StartRound(s) => (
            BattleState { round: RoundState::Started(s.id), ..st },
            rules.spec_round_start(ents, st.entropy, s.id),
        ),
        Event::EndRound => match st.round {
            RoundState::Started(actor) => (
                BattleState { round: RoundState::Ready, ..st },
                rules.spec_round_end(ents, st.entropy, actor),
            ),
            RoundState::Ready => (st, Seq::empty()),
        },
        Event::ApplyImpact(i) => (st, rules.spec_impact(ents, st.entropy, i.impact)),
    }
}

/// The rights without those over team `team`.
pub open spec fn rights_without_team(rights: Seq<(u64, u64)>, team: u64) -> Seq<(u64, u64)>
    decreases rights.len(),
{
    if rights.len() == 0 {
        Seq::empty()
    } else if rights.last().1 == team {
        rights_without_team(rights.drop_last(), team)
    } else {
        rights_without_team(rights.drop_last(), team).push(rights.last())
    }
}

/// The rights without the right of `player` over `team`.
pub open spec fn rights_without_pair(rights: Seq<(u64, u64)>, player: u64, team: u64) -> Seq<(u64, u64)>
    decreases rights.len(),
{
    if rights.len() == 0 {
        Seq::empty()
    } else if rights.last() == (player, team) {
        rights_without_pair(rights.drop_last(), player, team)
    } else {
        rights_without_pair(rights.drop_last(), player, team).push(rights.last())
    }
}

/// Removing a team also removes every right over it.
pub open spec fn rights_after(rights: Seq<(u64, u64)>, e: Event) -> Seq<(u64, u64)> {
    match e {
        Event::RemoveTeam(r) => rights_without_team(rights, r.id),
        _ => rights,
    }
}

/// The battle after applying `e` and appending it to the history, and the
/// follow-ups that `e` asks for.
pub open spec fn step<R: BattleRules>(rules: R, b: BattleView, e: Event) -> (BattleView, Seq<Event>) {
    let (st, follow) = spec_apply(rules, b.state, e);
    (
        BattleView {
            state: st,
            rights: rights_after(b.rights, e),
            history: b.history.push(
                VersionedEventWrapper {
                    id: b.history.len() as u64,
                    version: rules.spec_version(),
                    event: e,
                },
            ),
        },
        follow,
    )
}

/// Works through the pending events: each one is verified and applied, and its
/// follow-ups go before the events that were already pending. Stops at the first
/// event that fails verification, or when `fuel` runs out.
pub open spec fn cascade<R: BattleRules>(rules: R, b: BattleView, work: Seq<Event>, fuel: nat) -> (
    BattleView,
    Option<WeaselError>,
)
    decreases fuel,
{
    if work.len() == 0 {
        (b, None)
    } else if fuel == 0 {
        (b, Some(WeaselError::CascadeTooLong))
    } else {
        match spec_verify(rules, b.state, work[0]) {
            Some(err) => (b, Some(err)),
            None => {
                let (next, follow) = step(rules, b, work[0]);
                cascade(rules, next, follow + work.drop_first(), (fuel - 1) as nat)
            },
        }
    }
}

/// The state that a history builds from an empty battle.
pub open spec fn replay<R: BattleRules>(rules: R, h: Seq<VersionedEventWrapper>) -> BattleState
    decreases h.len(),
{
    if h.len() == 0 {
        BattleState::initial()
    } else {
        spec_apply(rules, replay(rules, h.drop_last()), h.last().event).0
    }
}

/// Every event of the history carries its position and the rules' version, and
/// passed verification on the state that the events before it built.
pub open spec fn valid_history<R: BattleRules>(rules: R, h: Seq<VersionedEventWrapper>) -> bool {
    forall|i: int|
        #![trigger h[i]]
        0 <= i < h.len() ==> h[i].id == i && h[i].version == rules.spec_version() && spec_verify(
            rules,
            replay(rules, h.take(i)),
            h[i].event,
        ) is None
}

proof fn lemma_set_properties_wf(ents: EntitiesView, c: u64, stats: bool, s: Seq<Property>)
    requires
        ents.wf(),
        ents.has_creature(c),
        unique_ids(s),
    ensures
        stats ==> ents.set_statistics(c, s).wf(),
        !stats ==> ents.set_abilities(c, s).wf(),
{
    let ci = ents.creature_idx(c);
    if stats {
        let w = ents.set_statistics(c, s);
        assert forall|x: int| 0 <= x < ents.creatures.len() implies #[trigger] w.creatures[x].id
            == ents.creatures[x].id && w.creatures[x].team_id == ents.creatures[x].team_id
            && unique_ids(w.creatures[x].statistics) && unique_ids(w.creatures[x].abilities) by {
            if x != ci {
                assert(w.creatures[x] == ents.creatures[x]);
            }
        }
        lemma_same_shape_wf(ents, w);
    } else {
        let w = ents.set_abilities(c, s);
        assert forall|x: int| 0 <= x < ents.creatures.len() implies #[trigger] w.creatures[x].id
            == ents.creatures[x].id && w.creatures[x].team_id == ents.creatures[x].team_id
            && unique_ids(w.creatures[x].statistics) && unique_ids(w.creatures[x].abilities) by {
            if x != ci {
                assert(w.creatures[x] == ents.creatures[x]);
            }
        }
        lemma_same_shape_wf(ents, w);
    }
}

proof fn lemma_team_fields_wf(ents: EntitiesView, id: u64, w: EntitiesView)
    requires
        ents.wf(),
        ents.has_team(id),
        w == ents.set_conclusion(id, w.teams[ents.team_idx(id)].conclusion) || w == ents.set_objectives(
            id,
            w.teams[ents.team_idx(id)].objectives,
        ),
    ensures
        w.wf(),
{
    let ti = ents.team_idx(id);
    assert forall|i: int| 0 <= i < ents.teams.len() implies #[trigger] w.teams[i].id == ents.teams[i].id
        && w.teams[i].creatures == ents.teams[i].creatures by {
        if i != ti {
            assert(w.teams[i] == ents.teams[i]);
        }
    }
    assert forall|x: int| 0 <= x < ents.creatures.len() implies #[trigger] w.creatures[x].id
        == ents.creatures[x].id && w.creatures[x].team_id == ents.creatures[x].team_id
        && unique_ids(w.creatures[x].statistics) && unique_ids(w.creatures[x].abilities) by {
        assert(w.creatures[x] == ents.creatures[x]);
    }
    lemma_same_shape_wf(ents, w);
}

/// A verified event keeps the state well-formed.
pub proof fn lemma_apply_wf<R: BattleRules>(rules: R, st: BattleState, e: Event)
    requires
        st.wf(),
        spec_verify(rules, st, e) is None,
    ensures
        spec_apply(rules, st, e).0.wf(),
{
    lemma_apply_core_wf(rules, st, e);
    let core = apply_core(rules, st, e).0;
    lemma_bump_all_wf(core.metrics.user, rules.spec_user_metrics(st.entities, e));
}

proof fn lemma_apply_core_wf<R: BattleRules>(rules: R, st: BattleState, e: Event)
    requires
        st.wf(),
        spec_verify(rules, st, e) is None,
    ensures
        apply_core(rules, st, e).0.wf(),
        apply_core(rules, st, e).0.entropy == st.entropy,
{
    reveal(spec_verify);
    reveal(apply_core);
    let ents = st.entities;
    match e {
        Event::CreateTeam(c) => {
            let explicit = explicit_of(c.relations);
            let obj = rules.spec_objectives(ents, st.entropy, c.objectives_seed);
            lemma_add_team_wf(ents, c.id, obj);
            let pairs = explicit_pairs(c.id, explicit) + enemy_defaults(ents.teams, c.id, explicit);
            crate::entities::lemma_update_relations_wf(ents.add_team(c.id, obj), pairs);
            crate::metric::lemma_bumped_wf(st.metrics.system, TEAMS_CREATED, 1);
        },
        Event::SetRelations(s) => {
            crate::entities::lemma_update_relations_wf(ents, s.relations@);
        },
        Event::ConcludeObjectives(c) => {
            lemma_team_fields_wf(ents, c.id, ents.set_conclusion(c.id, Some(c.conclusion)));
        },
        Event::ResetObjectives(r) => {
            lemma_team_fields_wf(ents, r.id, ents.set_objectives(r.id, rules.spec_objectives(ents, st.entropy, r.seed)));
        },
        Event::RemoveTeam(r) => {
            lemma_remove_team_wf(ents, r.id);
        },
        Event::CreateCreature(c) => {
            let s = rules.spec_statistics(ents, st.entropy, seed_view(c.statistics_seed));
            let a = rules.spec_abilities(ents, st.entropy, seed_view(c.abilities_seed));
            lemma_regenerated(Seq::empty(), s);
            lemma_regenerated(Seq::empty(), a);
            lemma_add_creature_wf(
                ents,
                CreatureView { id: c.id, team_id: c.team_id, statistics: normalized(s), abilities: normalized(a) },
            );
            crate::metric::lemma_bumped_wf(st.metrics.system, CREATURES_CREATED, 1);
        },
        Event::RemoveCreature(r) => {
            lemma_remove_creature_wf(ents, r.id);
        },
        Event::RegenerateStatistics(r) => {
            if let EntityId::Creature(c) = r.id {
                let cur = ents.creatures[ents.creature_idx(c)].statistics;
                let g = rules.spec_statistics(ents, st.entropy, seed_view(r.seed));
                lemma_regenerated(cur, g);
                lemma_set_properties_wf(ents, c, true, regenerated(cur, g));
            }
        },
        Event::RegenerateAbilities(r) => {
            if let EntityId::Creature(c) = r.id {
                let cur = ents.creatures[ents.creature_idx(c)].abilities;
                let g = rules.spec_abilities(ents, st.entropy, seed_view(r.seed));
                lemma_regenerated(cur, g);
                lemma_set_properties_wf(ents, c, false, regenerated(cur, g));
            }
        },
        Event::AlterStatistics(a) => {
            if let EntityId::Creature(c) = a.id {
                let altered = rules.spec_alter_statistics(ents, st.entropy, ents.creatures[ents.creature_idx(c)].statistics, a.alteration);
                lemma_regenerated(Seq::empty(), altered.0);
                lemma_set_properties_wf(ents, c, true, normalized(altered.0));
            }
        },
        Event::AlterAbilities(a) => {
            if let EntityId::Creature(c) = a.id {
                let altered = rules.spec_alter_abilities(ents, st.entropy, ents.creatures[ents.creature_idx(c)].abilities, a.alteration);
                lemma_regenerated(Seq::empty(), altered);
                lemma_set_properties_wf(ents, c, false, normalized(altered));
            }
        },
        _ => {},
    }
}

proof fn lemma_history_push<R: BattleRules>(rules: R, h: Seq<VersionedEventWrapper>, e: Event)
    requires
        h.len() <= u64::MAX,
        valid_history(rules, h),
        spec_verify(rules, replay(rules, h), e) is None,
    ensures
        ({
            let h2 = h.push(
                VersionedEventWrapper { id: h.len() as u64, version: rules.spec_version(), event: e },
            );
            &&& valid_history(rules, h2)
            &&& replay(rules, h2) == spec_apply(rules, replay(rules, h), e).0
        }),
{
    let h2 = h.push(
        VersionedEventWrapper { id: h.len() as u64, version: rules.spec_version(), event: e },
    );
    assert(h2.drop_last() == h);
    assert forall|i: int| #![trigger h2[i]] 0 <= i < h2.len() implies h2[i].id == i && h2[i].version
        == rules.spec_version() && spec_verify(rules, replay(rules, h2.take(i)), h2[i].event) is None by {
        if i < h.len() {
            assert(h2.take(i) == h.take(i));
            assert(h2[i] == h[i]);
        } else {
            assert(h2.take(i) == h);
        }
    }
}

/// How a client takes an event from its server: the versions must match, the id
/// must be the next one, and the event must pass verification; then it is applied
/// (its follow-ups come from the server as events of their own) and appended.
pub open spec fn spec_receive<R: BattleRules>(rules: R, b: BattleView, w: VersionedEventWrapper) -> (
    BattleView,
    Option<WeaselError>,
) {
    if w.version != rules.spec_version() {
        (b, Some(WeaselError::IncompatibleVersions(rules.spec_version(), w.version)))
    } else if w.id != b.history.len() {
        (b, Some(WeaselError::NonContiguousEventId(w.id, b.history.len() as u64)))
    } else {
        match spec_verify(rules, b.state, w.event) {
            Some(err) => (b, Some(err)),
            None => (step(rules, b, w.event).0, None),
        }
    }
}

pub open spec fn as_result(e: Option<WeaselError>) -> Result<(), WeaselError> {
    match e {
        Some(err) => Err(err),
        None => Ok(()),
    }
}

impl BattleView {
    /// A battle with nothing in it.
    pub open spec fn fresh() -> BattleView {
        BattleView { state: BattleState::initial(), rights: Seq::empty(), history: Seq::empty() }
    }
}

/// What a client reaches by receiving `ws` in order from `b`: it stops at the
/// first event that it refuses.
pub open spec fn receive_all<R: BattleRules>(rules: R, b: BattleView, ws: Seq<VersionedEventWrapper>) -> (
    BattleView,
    Option<WeaselError>,
)
    decreases ws.len(),
{
    if ws.len() == 0 {
        (b, None)
    } else {
        let (before, err) = receive_all(rules, b, ws.drop_last());
        if err is Some {
            (before, err)
        } else {
            spec_receive(rules, before, ws.last())
        }
    }
}

/// Determinism: histories that hold the same events, in the same order, build the
/// same state.
pub proof fn lemma_determinism<R: BattleRules>(
    rules: R,
    h1: Seq<VersionedEventWrapper>,
    h2: Seq<VersionedEventWrapper>,
)
    requires
        h1.len() == h2.len(),
        forall|i: int| 0 <= i < h1.len() ==> #[trigger] h1[i].event == h2[i].event,
    ensures
        replay(rules, h1) == replay(rules, h2),
    decreases h1.len(),
{
    if h1.len() > 0 {
        assert forall|i: int| 0 <= i < h1.drop_last().len() implies #[trigger] h1.drop_last()[i].event
            == h2.drop_last()[i].event by {
            assert(h1.drop_last()[i] == h1[i] && h2.drop_last()[i] == h2[i]);
        }
        lemma_determinism(rules, h1.drop_last(), h2.drop_last());
    }
}

/// History contiguity: in a battle, every event's id is its position in the history.
pub proof fn lemma_history_contiguous<R: BattleRules>(b: &Battle<R>)
    requires
        b.wf(),
    ensures
        forall|i: int| 0 <= i < b@.history.len() ==> (#[trigger] b@.history[i]).id == i,
{
    assert forall|i: int| 0 <= i < b@.history.len() implies (#[trigger] b@.history[i]).id == i by {}
}

proof fn lemma_receive_prefix<R: BattleRules>(rules: R, h: Seq<VersionedEventWrapper>, n: int)
    requires
        valid_history(rules, h),
        0 <= n <= h.len(),
    ensures
        receive_all(rules, BattleView::fresh(), h.take(n)) == (
            BattleView { state: replay(rules, h.take(n)), rights: Seq::empty(), history: h.take(n) },
            None::<WeaselError>,
        ),
    decreases n,
{
    if n == 0 {
        assert(h.take(0) =~= Seq::<VersionedEventWrapper>::empty());
    } else {
        lemma_receive_prefix(rules, h, n - 1);
        let prefix = h.take(n);
        assert(prefix.drop_last() == h.take(n - 1));
        assert(prefix.last() == h[n - 1]);
        let before = BattleView {
            state: replay(rules, h.take(n - 1)),
            rights: Seq::empty(),
            history: h.take(n - 1),
        };
        let w = h[n - 1];
        assert(w.id == n - 1 && w.version == rules.spec_version());
        assert(spec_verify(rules, replay(rules, h.take(n - 1)), w.event) is None);
        let after = step(rules, before, w.event).0;
        assert(after.history == prefix) by {
            assert(after.history =~= prefix);
        }
        assert(rights_after(Seq::empty(), w.event) =~= Seq::empty());
        assert(after.state == replay(rules, prefix));
    }
}

/// Replay: a fresh client that receives a battle's whole history, in order, accepts
/// every event and ends with the battle's state and history.
pub proof fn lemma_replay_mirrors<R: BattleRules>(b: &Battle<R>)
    requires
        b.wf(),
    ensures
        receive_all(b.spec_rules(), BattleView::fresh(), b@.history) == (
            BattleView { state: b@.state, rights: Seq::empty(), history: b@.history },
            None::<WeaselError>,
        ),
{
    lemma_receive_prefix(b.spec_rules(), b@.history, b@.history.len() as int);
    assert(b@.history.take(b@.history.len() as int) == b@.history);
}

/// Regeneration: after regenerating a creature's statistics, their ids are exactly
/// those that the rules generate from the seed, and every statistic that the
/// creature held before under such an id is unchanged.
pub proof fn lemma_regeneration_statistics<R: BattleRules>(rules: R, st: BattleState, c: u64, seed: Option<Vec<Property>>)
    requires
        st.wf(),
        st.entities.has_creature(c),
    ensures
        ({
            let e = Event::RegenerateStatistics(crate::event::RegenerateStatistics { id: EntityId::Creature(c), seed });
            let after = spec_apply(rules, st, e).0.entities;
            let before = st.entities.creatures[st.entities.creature_idx(c)].statistics;
            let generated = rules.spec_statistics(st.entities, st.entropy, seed_view(seed));
            let now = after.creatures[after.creature_idx(c)].statistics;
            &&& spec_verify(rules, st, e) is None
            &&& after.has_creature(c)
            &&& forall|x: u64| #[trigger] crate::entity::has_id(now, x) <==> crate::entity::has_id(generated, x)
            &&& forall|p: Property| #[trigger] now.contains(p) && crate::entity::has_id(before, p.id) ==> before.contains(p)
        }),
{
    reveal(spec_verify);
    reveal(apply_core);
    let e = Event::RegenerateStatistics(crate::event::RegenerateStatistics { id: EntityId::Creature(c), seed });
    lemma_apply_wf(rules, st, e);
    let ents = st.entities;
    let ci = ents.creature_idx(c);
    let before = ents.creatures[ci].statistics;
    let generated = rules.spec_statistics(st.entities, st.entropy, seed_view(seed));
    lemma_regenerated(before, generated);
    let after = spec_apply(rules, st, e).0.entities;
    assert(after.creatures[ci].id == c);
    assert(after.has_creature(c));
    let ai = after.creature_idx(c);
    assert(ai == ci);
}

/// Regeneration: after regenerating a creature's abilities, their ids are exactly
/// those that the rules generate from the seed, and every ability that the
/// creature held before under such an id is unchanged.
pub proof fn lemma_regeneration_abilities<R: BattleRules>(rules: R, st: BattleState, c: u64, seed: Option<Vec<Property>>)
    requires
        st.wf(),
        st.entities.has_creature(c),
    ensures
        ({
            let e = Event::RegenerateAbilities(crate::event::RegenerateAbilities { id: EntityId::Creature(c), seed });
            let after = spec_apply(rules, st, e).0.entities;
            let before = st.entities.creatures[st.entities.creature_idx(c)].abilities;
            let generated = rules.spec_abilities(st.entities, st.entropy, seed_view(seed));
            let now = after.creatures[after.creature_idx(c)].abilities;
            &&& spec_verify(rules, st, e) is None
            &&& after.has_creature(c)
            &&& forall|x: u64| #[trigger] crate::entity::has_id(now, x) <==> crate::entity::has_id(generated, x)
            &&& forall|p: Property| #[trigger] now.contains(p) && crate::entity::has_id(before, p.id) ==> before.contains(p)
        }),
{
    reveal(spec_verify);
    reveal(apply_core);
    let e = Event::RegenerateAbilities(crate::event::RegenerateAbilities { id: EntityId::Creature(c), seed });
    lemma_apply_wf(rules, st, e);
    let ents = st.entities;
    let ci = ents.creature_idx(c);
    let before = ents.creatures[ci].abilities;
    let generated = rules.spec_abilities(st.entities, st.entropy, seed_view(seed));
    lemma_regenerated(before, generated);
    let after = spec_apply(rules, st, e).0.entities;
    assert(after.creatures[ci].id == c);
    assert(after.has_creature(c));
    let ai = after.creature_idx(c);
    assert(ai == ci);
}

/// Round coupling: removing the creature whose round is in progress ends the round,
/// where the rules ask for nothing at the end of its round.
pub proof fn lemma_round_coupling<R: BattleRules>(rules: R, b: BattleView, c: u64)
    requires
        b.state.wf(),
        b.state.entities.has_creature(c),
        b.state.round == RoundState::Started(EntityId::Creature(c)),
        forall|s: EntitiesView, x: u64| #[trigger] rules.spec_round_end(s, x, EntityId::Creature(c)).len() == 0,
    ensures
        ({
            let (after, err) = cascade(rules, b, seq![Event::RemoveCreature(RemoveCreature { id: c })], MAX_CASCADE as nat);
            &&& err is None
            &&& after.state.round == RoundState::Ready
            &&& !after.state.entities.has_creature(c)
        }),
{
    reveal(spec_verify);
    reveal(apply_core);
    let rc = Event::RemoveCreature(RemoveCreature { id: c });
    let work = seq![rc];
    assert(work[0] == rc);
    let (b1, f1) = step(rules, b, rc);
    assert(f1 == seq![Event::EndRound]);
    assert(f1 + work.drop_first() =~= seq![Event::EndRound]);
    let (b2, f2) = step(rules, b1, Event::EndRound);
    assert(b2.state.round == RoundState::Ready);
    assert(f2 + seq![Event::EndRound].drop_first() =~= Seq::<Event>::empty());
    assert(spec_verify(rules, b.state, rc) is None);
    assert(b1.state.round == RoundState::Started(EntityId::Creature(c)));
    assert(spec_verify(rules, b1.state, Event::EndRound) is None);
    assert(cascade(rules, b2, Seq::empty(), (MAX_CASCADE - 2) as nat) == (b2, None::<WeaselError>));
    assert(cascade(rules, b1, seq![Event::EndRound], (MAX_CASCADE - 1) as nat) == cascade(
        rules,
        b2,
        Seq::empty(),
        (MAX_CASCADE - 2) as nat,
    ));
    assert(cascade(rules, b, work, MAX_CASCADE as nat) == cascade(
        rules,
        b1,
        seq![Event::EndRound],
        (MAX_CASCADE - 1) as nat,
    ));
    lemma_remove_creature_wf(b.state.entities, c);
    let v = b.state.entities;
    let w = b1.state.entities;
    assert(w == v.remove_creature(c));
    assert(!w.has_creature(c)) by {
        if w.has_creature(c) {
            let k = choose|k: int| 0 <= k < w.creatures.len() && w.creatures[k].id == c;
            let ci = v.creature_idx(c);
            let k2 = if k < ci { k } else { k + 1 };
            assert(w.creatures[k] == v.creatures[k2]);
        }
    }
    assert(b2.state.entities == w);
}

proof fn lemma_enemy_defaults(teams: Seq<TeamView>, id: u64, explicit: Seq<(u64, Relation)>)
    ensures
        forall|i: int|
            0 <= i < enemy_defaults(teams, id, explicit).len() ==> (#[trigger] enemy_defaults(
                teams,
                id,
                explicit,
            )[i]).2 == Relation::Enemy,
        forall|j: int|
            0 <= j < teams.len() && !listed(explicit, teams[j].id) ==> enemy_defaults(
                teams,
                id,
                explicit,
            ).contains((id, #[trigger] teams[j].id, Relation::Enemy)),
    decreases teams.len(),
{
    if teams.len() > 0 {
        let d = teams.drop_last();
        lemma_enemy_defaults(d, id, explicit);
        let rest = enemy_defaults(d, id, explicit);
        let all = enemy_defaults(teams, id, explicit);
        assert forall|j: int|
            0 <= j < teams.len() && !listed(explicit, teams[j].id) implies all.contains(
            (id, #[trigger] teams[j].id, Relation::Enemy),
        ) by {
            if j < teams.len() - 1 {
                assert(d[j] == teams[j]);
                assert(rest.contains((id, d[j].id, Relation::Enemy)));
                let k = choose|k: int| 0 <= k < rest.len() && rest[k] == (id, d[j].id, Relation::Enemy);
                assert(all[k] == rest[k]);
            } else {
                assert(all[all.len() - 1] == (id, teams[j].id, Relation::Enemy));
            }
        }
        assert forall|i: int| 0 <= i < all.len() implies (#[trigger] all[i]).2 == Relation::Enemy by {
            if i < rest.len() {
                assert(all[i] == rest[i]);
            }
        }
    }
}

proof fn lemma_update_relations_get(
    v: EntitiesView,
    pairs: Seq<(u64, u64, Relation)>,
    k: (u64, u64),
    r: Relation,
)
    requires
        v.wf(),
        forall|i: int| 0 <= i < pairs.len() ==> (#[trigger] pairs[i]).2 == r,
        exists|i: int| 0 <= i < pairs.len() && pair_key(pairs[i].0, pairs[i].1) == k,
    ensures
        assoc_get(v.update_relations(pairs).relations, k) == Some(r),
    decreases pairs.len(),
{
    let d = pairs.drop_last();
    crate::entities::lemma_update_relations_wf(v, d);
    let before = v.update_relations(d);
    let (a, b, rel) = pairs.last();
    lemma_assoc_set(before.relations, pair_key(a, b), rel);
    if pair_key(a, b) != k {
        let i = choose|i: int| 0 <= i < pairs.len() && pair_key(pairs[i].0, pairs[i].1) == k;
        assert(i < pairs.len() - 1);
        assert(d[i] == pairs[i]);
        assert forall|j: int| 0 <= j < d.len() implies (#[trigger] d[j]).2 == r by {
            assert(d[j] == pairs[j]);
        }
        lemma_update_relations_get(v, d, k, r);
    }
}

/// A team created with no explicit relations is an enemy of every team that
/// existed before it.
pub proof fn lemma_default_enmity<R: BattleRules>(rules: R, st: BattleState, c: crate::event::CreateTeam)
    requires
        st.wf(),
        !st.entities.has_team(c.id),
        explicit_of(c.relations).len() == 0,
    ensures
        spec_verify(rules, st, Event::CreateTeam(c)) is None,
        forall|t: int|
            0 <= t < st.entities.teams.len() ==> spec_apply(rules, st, Event::CreateTeam(c)).0.entities.relation(
                c.id,
                #[trigger] st.entities.teams[t].id,
            ) == Some(Relation::Enemy),
{
    reveal(spec_verify);
    reveal(apply_core);
    let ents = st.entities;
    let explicit = explicit_of(c.relations);
    if let Some(v) = c.relations {
        assert(team_relations_error(ents, c.id, v@) is None);
    }
    let obj = rules.spec_objectives(ents, st.entropy, c.objectives_seed);
    let pairs = explicit_pairs(c.id, explicit) + enemy_defaults(ents.teams, c.id, explicit);
    assert(explicit_pairs(c.id, explicit) =~= Seq::empty());
    assert(pairs == enemy_defaults(ents.teams, c.id, explicit));
    lemma_enemy_defaults(ents.teams, c.id, explicit);
    lemma_add_team_wf(ents, c.id, obj);
    assert forall|t: int|
        0 <= t < ents.teams.len() implies spec_apply(rules, st, Event::CreateTeam(c)).0.entities.relation(
        c.id,
        #[trigger] ents.teams[t].id,
    ) == Some(Relation::Enemy) by {
        let tid = ents.teams[t].id;
        assert(tid != c.id);
        assert(!listed(explicit, tid));
        assert(pairs.contains((c.id, tid, Relation::Enemy)));
        let i = choose|i: int| 0 <= i < pairs.len() && pairs[i] == (c.id, tid, Relation::Enemy);
        assert(pair_key(pairs[i].0, pairs[i].1) == pair_key(c.id, tid));
        lemma_update_relations_get(ents.add_team(c.id, obj), pairs, pair_key(c.id, tid), Relation::Enemy);
    }
}

/// A cascade only appends to the history.
pub proof fn lemma_cascade_grows<R: BattleRules>(rules: R, b: BattleView, work: Seq<Event>, fuel: nat)
    ensures
        cascade(rules, b, work, fuel).0.history.len() >= b.history.len(),
    decreases fuel,
{
    if work.len() > 0 && fuel > 0 && spec_verify(rules, b.state, work[0]) is None {
        let (next, follow) = step(rules, b, work[0]);
        lemma_cascade_grows(rules, next, follow + work.drop_first(), (fuel - 1) as nat);
    }
}

/// A battle: the rules, the state that events build, the players' rights, and the
/// history of applied events.
pub struct Battle<R: BattleRules> {
    rules: R,
    entities: Entities,
    round: RoundState,
    metrics: Metrics,
    entropy: u64,
    rights: Vec<(u64, u64)>,
    history: Vec<VersionedEventWrapper>,
}

impl<R: BattleRules> View for Battle<R> {
    type V = BattleView;

    closed spec fn view(&self) -> BattleView {
        BattleView {
            state: BattleState {
                entities: self.entities@,
                round: self.round,
                metrics: self.metrics@,
                entropy: self.entropy,
            },
            rights: self.rights@,
            history: self.history@,
        }
    }
}

fn team_relations_check(ents: &Entities, id: u64, list: &Vec<(u64, Relation)>) -> (r: Option<
    WeaselError,
>)
    requires
        ents@.wf(),
    ensures
        r == team_relations_error(ents@, id, list@),
{
    let mut i: usize = 0;
    assert(list@.skip(0) == list@);
    while i < list.len()
        invariant
            i <= list.len(),
            ents@.wf(),
            team_relations_error(ents@, id, list@) == team_relations_error(
                ents@,
                id,
                list@.skip(i as int),
            ),
        decreases list.len() - i,
    {
        assert(list@.skip(i as int)[0] == list@[i as int]);
        assert(list@.skip(i as int).drop_first() == list@.skip(i + 1));
        let (t, rel) = list[i];
        if t == id {
            return Some(WeaselError::SelfRelation);
        }
        if rel == Relation::Kin {
            return Some(WeaselError::KinshipRelation);
        }
        if ents.find_team(t).is_none() {
            return Some(WeaselError::TeamNotFound(t));
        }
        i += 1;
    }
    None
}

fn relations_check(ents: &Entities, list: &Vec<(u64, u64, Relation)>) -> (r: Option<WeaselError>)
    requires
        ents@.wf(),
    ensures
        r == relations_error(ents@, list@),
{
    let mut i: usize = 0;
    assert(list@.skip(0) == list@);
    while i < list.len()
        invariant
            i <= list.len(),
            ents@.wf(),
            relations_error(ents@, list@) == relations_error(ents@, list@.skip(i as int)),
        decreases list.len() - i,
    {
        assert(list@.skip(i as int)[0] == list@[i as int]);
        assert(list@.skip(i as int).drop_first() == list@.skip(i + 1));
        let (a, b, rel) = list[i];
        if a == b {
            return Some(WeaselError::SelfRelation);
        }
        if rel == Relation::Kin {
            return Some(WeaselError::KinshipRelation);
        }
        if ents.find_team(a).is_none() {
            return Some(WeaselError::TeamNotFound(a));
        }
        if ents.find_team(b).is_none() {
            return Some(WeaselError::TeamNotFound(b));
        }
        i += 1;
    }
    None
}

fn entity_exists(ents: &Entities, id: EntityId) -> (r: bool)
    requires
        ents@.wf(),
    ensures
        r == ents@.has_entity(id),
{
    match id {
        EntityId::Creature(c) => ents.find_creature(c).is_some(),
        EntityId::Object(_) => false,
    }
}

/// Checks that an entity exists and is an actor.
pub fn verify_is_actor(ents: &Entities, id: &EntityId) -> (r: Result<(), WeaselError>)
    requires
        ents@.wf(),
    ensures
        r == as_result(actor_error(ents@, *id)),
{
    if !id.is_actor() {
        return Err(WeaselError::NotAnActor(*id));
    }
    if !entity_exists(ents, *id) {
        return Err(WeaselError::EntityNotFound(*id));
    }
    Ok(())
}

fn lists_team(list: &Option<Vec<(u64, Relation)>>, t: u64) -> (r: bool)
    ensures
        r == listed(explicit_of(*list), t),
{
    match list {
        None => false,
        Some(v) => {
            let mut i: usize = 0;
            while i < v.len()
                invariant
                    i <= v.len(),
                    explicit_of(*list) == v@,
                    forall|j: int| 0 <= j < i ==> v@[j].0 != t,
                decreases v.len() - i,
            {
                if v[i].0 == t {
                    assert(v@[i as int].0 == t);
                    return true;
                }
                i += 1;
            }
            false
        },
    }
}

fn rights_without(rights: &Vec<(u64, u64)>, team: u64) -> (r: Vec<(u64, u64)>)
    ensures
        r@ == rights_without_team(rights@, team),
{
    let mut out: Vec<(u64, u64)> = Vec::new();
    let mut i: usize = 0;
    while i < rights.len()
        invariant
            i <= rights.len(),
            out@ == rights_without_team(rights@.take(i as int), team),
        decreases rights.len() - i,
    {
        assert(rights@.take(i + 1).drop_last() == rights@.take(i as int));
        if rights[i].1 != team {
            out.push(rights[i]);
        }
        i += 1;
    }
    assert(rights@.take(rights.len() as int) == rights@);
    out
}

fn has_right(rights: &Vec<(u64, u64)>, player: u64, team: u64) -> (r: bool)
    ensures
        r == rights@.contains((player, team)),
{
    let mut i: usize = 0;
    while i < rights.len()
        invariant
            i <= rights.len(),
            forall|j: int| 0 <= j < i ==> rights@[j] != (player, team),
        decreases rights.len() - i,
    {
        if rights[i].0 == player && rights[i].1 == team {
            assert(rights@[i as int] == (player, team));
            return true;
        }
        i += 1;
    }
    false
}

impl<R: BattleRules> Battle<R> {
    /// The rules of this battle.
    pub closed spec fn spec_rules(&self) -> R {
        self.rules
    }

    /// The battle's invariant: the state is well-formed and is exactly what its
    /// history builds, and the history is valid.
    pub open spec fn wf(&self) -> bool {
        &&& self@.state.wf()
        &&& self@.state == replay(self.spec_rules(), self@.history)
        &&& valid_history(self.spec_rules(), self@.history)
    }

    /// Creates an empty battle.
    pub fn new(rules: R) -> (r: Battle<R>)
        ensures
            r.wf(),
            r@ == BattleView::fresh(),
            r.spec_rules() == rules,
    {
        let b = Battle {
            rules,
            entities: Entities::new(),
            round: RoundState::Ready,
            metrics: Metrics::new(),
            entropy: 0,
            rights: Vec::new(),
            history: Vec::new(),
        };
        assert(b@.history =~= Seq::empty());
        assert(b@.rights =~= Seq::empty());
        b
    }

    /// Returns the rules of this battle.
    pub fn rules(&self) -> (r: &R)
        ensures
            *r == self.spec_rules(),
    {
        &self.rules
    }

    /// Returns the version of this battle's rules.
    pub fn version(&self) -> (r: u32)
        ensures
            r == self.spec_rules().spec_version(),
    {
        self.rules.version()
    }

    /// Returns the entity store.
    pub fn entities(&self) -> (r: &Entities)
        ensures
            r@ == self@.state.entities,
    {
        &self.entities
    }

    /// Returns the round state.
    pub fn round(&self) -> (r: RoundState)
        ensures
            r == self@.state.round,
    {
        self.round
    }

    /// Returns the entropy word that rule hooks draw on.
    pub fn entropy(&self) -> (r: u64)
        ensures
            r == self@.state.entropy,
    {
        self.entropy
    }

    /// Returns the counters.
    pub fn metrics(&self) -> (r: &Metrics)
        ensures
            r@ == self@.state.metrics,
    {
        &self.metrics
    }

    /// Returns the applied events, in order.
    pub fn history(&self) -> (r: &Vec<VersionedEventWrapper>)
        ensures
            r@ == self@.history,
    {
        &self.history
    }

    /// Returns the pairs of a player and a team that the player may act for.
    pub fn rights(&self) -> (r: &Vec<(u64, u64)>)
        ensures
            r@ == self@.rights,
    {
        &self.rights
    }

    /// Checks whether `e` can be applied now.
    pub fn verify(&self, e: &Event) -> (r: Result<(), WeaselError>)
        requires
            self.wf(),
        ensures
            r == as_result(spec_verify(self.spec_rules(), self@.state, *e)),
    {
        match self.verify_event(e) {
            Some(err) => Err(err),
            None => Ok(()),
        }
    }

    fn verify_event(&self, e: &Event) -> (r: Option<WeaselError>)
        requires
            self@.state.wf(),
        ensures
            r == spec_verify(self.rules, self@.state, *e),
    {
        reveal(spec_verify);
        let ents = &self.entities;
        match e {
            Event::DummyEvent => None,
            Event::CreateTeam(c) => {
                if ents.find_team(c.id).is_some() {
                    return Some(WeaselError::DuplicatedTeam(c.id));
                }
                match &c.relations {
                    Some(v) => team_relations_check(ents, c.id, v),
                    None => None,
                }
            },
            Event::SetRelations(s) => relations_check(ents, &s.relations),
            Event::ConcludeObjectives(c) => if ents.find_team(c.id).is_none() {
                Some(WeaselError::TeamNotFound(c.id))
            } else {
                None
            },
            Event::ResetObjectives(r) => if ents.find_team(r.id).is_none() {
                Some(WeaselError::TeamNotFound(r.id))
            } else {
                None
            },
            Event::RemoveTeam(r) => match ents.team(r.id) {
                None => Some(WeaselError::TeamNotFound(r.id)),
                Some(t) => if t.creatures.len() > 0 {
                    Some(WeaselError::TeamNotEmpty(r.id))
                } else {
                    None
                },
            },
            Event::CreateCreature(c) => {
                if ents.find_creature(c.id).is_some() {
                    Some(WeaselError::DuplicatedCreature(c.id))
                } else if ents.find_team(c.team_id).is_none() {
                    Some(WeaselError::TeamNotFound(c.team_id))
                } else if !self.rules.allow_new_entity(&self.entities, c.team_id, EntityAddition::CreatureSpawn) {
                    Some(WeaselError::NewCreatureUnaccepted(c.team_id))
                } else {
                    None
                }
            },
            Event::RemoveCreature(r) => if ents.find_creature(r.id).is_none() {
                Some(WeaselError::CreatureNotFound(r.id))
            } else {
                None
            },
            Event::RegenerateStatistics(r) => if !entity_exists(ents, r.id) {
                Some(WeaselError::EntityNotFound(r.id))
            } else {
                None
            },
            Event::RegenerateAbilities(r) => match verify_is_actor(ents, &r.id) {
                Err(err) => Some(err),
                Ok(()) => None,
            },
            Event::AlterStatistics(a) => if !entity_exists(ents, a.id) {
                Some(WeaselError::EntityNotFound(a.id))
            } else {
                None
            },
            Event::AlterAbilities(a) => match verify_is_actor(ents, &a.id) {
                Err(err) => Some(err),
                Ok(()) => None,
            },
            Event::StartRound(s) => match self.round {
                RoundState::Started(_) => Some(WeaselError::RoundInProgress),
                RoundState::Ready => match verify_is_actor(ents, &s.id) {
                    Err(err) => Some(err),
                    Ok(()) => None,
                },
            },
            Event::EndRound => match self.round {
                RoundState::Ready => Some(WeaselError::NoRoundInProgress),
                RoundState::Started(_) => None,
            },
            Event::ApplyImpact(_) => None,
        }
    }

    fn team_pairs(&self, c: &crate::event::CreateTeam) -> (r: Vec<(u64, u64, Relation)>)
        requires
            self@.state.wf(),
        ensures
            r@ == explicit_pairs(c.id, explicit_of(c.relations)) + enemy_defaults(
                self@.state.entities.teams,
                c.id,
                explicit_of(c.relations),
            ),
    {
        let ghost explicit = explicit_of(c.relations);
        let mut pairs: Vec<(u64, u64, Relation)> = Vec::new();
        if let Some(v) = &c.relations {
            let mut i: usize = 0;
            while i < v.len()
                invariant
                    i <= v.len(),
                    explicit == v@,
                    pairs@ == explicit_pairs(c.id, explicit.take(i as int)),
                decreases v.len() - i,
            {
                pairs.push((c.id, v[i].0, v[i].1));
                i += 1;
                assert(pairs@ =~= explicit_pairs(c.id, explicit.take(i as int)));
            }
            assert(explicit.take(v.len() as int) == explicit);
        } else {
            assert(pairs@ =~= explicit_pairs(c.id, explicit));
        }
        let ghost head = pairs@;
        let teams = self.entities.teams();
        let ghost tv = self@.state.entities.teams;
        let mut j: usize = 0;
        while j < teams.len()
            invariant
                j <= teams.len(),
                teams@.map_values(|t: crate::team::Team| t@) == tv,
                explicit == explicit_of(c.relations),
                pairs@ == head + enemy_defaults(tv.take(j as int), c.id, explicit),
            decreases teams.len() - j,
        {
            assert(tv.take(j + 1).drop_last() == tv.take(j as int));
            assert(tv.take(j + 1).last() == tv[j as int]);
            let t = teams[j].id;
            if !lists_team(&c.relations, t) {
                pairs.push((c.id, t, Relation::Enemy));
            }
            j += 1;
            assert(pairs@ =~= head + enemy_defaults(tv.take(j as int), c.id, explicit));
        }
        assert(tv.take(teams.len() as int) == tv);
        pairs
    }

    fn apply_event(&mut self, e: &Event) -> (follow: Vec<Event>)
        requires
            old(self)@.state.wf(),
            spec_verify(old(self).rules, old(self)@.state, *e) is None,
        ensures
            final(self).rules == old(self).rules,
            final(self).spec_rules() == old(self).spec_rules(),
            final(self)@.state == spec_apply(old(self).rules, old(self)@.state, *e).0,
            follow@ == spec_apply(old(self).rules, old(self)@.state, *e).1,
            final(self)@.rights == rights_after(old(self)@.rights, *e),
            final(self)@.history == old(self)@.history,
    {
        let ghost st = self@.state;
        let increments = self.rules.user_metrics(&self.entities, e);
        proof {
            lemma_apply_core_wf(self.rules, st, *e);
        }
        let follow = self.apply_core_event(e);
        let ghost core = self@.state;
        let mut i: usize = 0;
        while i < increments.len()
            invariant
                i <= increments.len(),
                self.rules == old(self).rules,
                self@.rights == rights_after(old(self)@.rights, *e),
                self@.history == old(self)@.history,
                self.metrics@.wf(),
                self@.state == (BattleState {
                    metrics: MetricsView {
                        user: bump_all(core.metrics.user, increments@.take(i as int)),
                        ..core.metrics
                    },
                    ..core
                }),
            decreases increments.len() - i,
        {
            assert(increments@.take(i + 1).drop_last() == increments@.take(i as int));
            self.metrics.add_user_u64(increments[i].0, increments[i].1);
            i += 1;
        }
        assert(increments@.take(increments.len() as int) == increments@);
        self.entropy = step_entropy(self.entropy);
        assert(self@.state == spec_apply(self.rules, st, *e).0);
        follow
    }

    fn apply_core_event(&mut self, e: &Event) -> (follow: Vec<Event>)
        requires
            old(self)@.state.wf(),
            spec_verify(old(self).rules, old(self)@.state, *e) is None,
        ensures
            final(self).rules == old(self).rules,
            final(self).spec_rules() == old(self).spec_rules(),
            final(self)@.state == apply_core(old(self).rules, old(self)@.state, *e).0,
            final(self)@.state.wf(),
            follow@ == apply_core(old(self).rules, old(self)@.state, *e).1,
            final(self)@.rights == rights_after(old(self)@.rights, *e),
            final(self)@.history == old(self)@.history,
    {
        proof {
            lemma_apply_core_wf(self.rules, self@.state, *e);
            reveal(spec_verify);
            reveal(apply_core);
        }
        let ghost st = self@.state;
        match e {
            Event::DummyEvent => Vec::new(),
            Event::CreateTeam(c) => {
                let pairs = self.team_pairs(c);
                let objectives = self.rules.generate_objectives(&self.entities, self.entropy, c.objectives_seed);
                let _ = self.entities.add_team(c.id, objectives);
                self.entities.update_relations(&pairs);
                self.metrics.add_system_u64(TEAMS_CREATED, 1);
                Vec::new()
            },
            Event::SetRelations(s) => {
                self.entities.update_relations(&s.relations);
                Vec::new()
            },
            Event::ConcludeObjectives(c) => {
                self.entities.set_conclusion(c.id, Some(c.conclusion));
                Vec::new()
            },
            Event::ResetObjectives(r) => {
                let objectives = self.rules.generate_objectives(&self.entities, self.entropy, r.seed);
                self.entities.set_objectives(r.id, objectives);
                Vec::new()
            },
            Event::RemoveTeam(r) => {
                let _ = self.entities.remove_team(r.id);
                self.rights = rights_without(&self.rights, r.id);
                Vec::new()
            },
            Event::CreateCreature(c) => {
                let none: Vec<Property> = Vec::new();
                let statistics = regenerate(&none, &self.rules.generate_statistics(&self.entities, self.entropy, &c.statistics_seed));
                let abilities = regenerate(&none, &self.rules.generate_abilities(&self.entities, self.entropy, &c.abilities_seed));
                proof {
                    lemma_regenerated(Seq::empty(), statistics@);
                }
                let creature = Creature { id: c.id, team_id: c.team_id, statistics, abilities };
                proof {
                    lemma_regenerated(Seq::empty(), self.rules.spec_statistics(st.entities, st.entropy, seed_view(c.statistics_seed)));
                    lemma_regenerated(Seq::empty(), self.rules.spec_abilities(st.entities, st.entropy, seed_view(c.abilities_seed)));
                }
                let _ = self.entities.add_creature(creature);
                self.metrics.add_system_u64(CREATURES_CREATED, 1);
                Vec::new()
            },
            Event::RemoveCreature(r) => {
                let _ = self.entities.remove_creature(r.id);
                if self.round == RoundState::Started(EntityId::Creature(r.id)) {
                    let v = vec![Event::EndRound];
                    assert(v@ =~= seq![Event::EndRound]);
                    v
                } else {
                    Vec::new()
                }
            },
            Event::RegenerateStatistics(r) => {
                if let EntityId::Creature(c) = r.id {
                    let generated = self.rules.generate_statistics(&self.entities, self.entropy, &r.seed);
                    let next = match self.entities.creature(c) {
                        Some(cr) => regenerate(&cr.statistics, &generated),
                        None => {
                            assert(false);
                            Vec::new()
                        },
                    };
                    proof {
                        lemma_regenerated(
                            st.entities.creatures[st.entities.creature_idx(c)].statistics,
                            generated@,
                        );
                    }
                    self.entities.set_statistics(c, next);
                }
                Vec::new()
            },
            Event::RegenerateAbilities(r) => {
                if let EntityId::Creature(c) = r.id {
                    let generated = self.rules.generate_abilities(&self.entities, self.entropy, &r.seed);
                    let next = match self.entities.creature(c) {
                        Some(cr) => regenerate(&cr.abilities, &generated),
                        None => {
                            assert(false);
                            Vec::new()
                        },
                    };
                    proof {
                        lemma_regenerated(
                            st.entities.creatures[st.entities.creature_idx(c)].abilities,
                            generated@,
                        );
                    }
                    self.entities.set_abilities(c, next);
                }
                Vec::new()
            },
            Event::AlterStatistics(a) => {
                if let EntityId::Creature(c) = a.id {
                    let res = match self.entities.creature(c) {
                        Some(cr) => self.rules.alter_statistics(&self.entities, self.entropy, &cr.statistics, a.alteration),
                        None => {
                            assert(false);
                            (Vec::new(), None)
                        },
                    };
                    assert((res.0@, res.1) == self.rules.spec_alter_statistics(
                        st.entities,
                        st.entropy,
                        st.entities.creatures[st.entities.creature_idx(c)].statistics,
                        a.alteration,
                    ));
                    let (altered, transmutation) = res;
                    let none: Vec<Property> = Vec::new();
                    let next = regenerate(&none, &altered);
                    proof {
                        lemma_regenerated(Seq::empty(), altered@);
                    }
                    self.entities.set_statistics(c, next);
                    match transmutation {
                        Some(Transmutation::Removal) => {
                            let v = vec![Event::RemoveCreature(RemoveCreature { id: c })];
                            assert(v@ =~= seq![Event::RemoveCreature(RemoveCreature { id: c })]);
                            assert(res.1 == Some(Transmutation::Removal));

                            v
                        },
                        None => Vec::new(),
                    }
                } else {
                    Vec::new()
                }
            },
            Event::AlterAbilities(a) => {
                if let EntityId::Creature(c) = a.id {
                    let altered = match self.entities.creature(c) {
                        Some(cr) => self.rules.alter_abilities(&self.entities, self.entropy, &cr.abilities, a.alteration),
                        None => {
                            assert(false);
                            Vec::new()
                        },
                    };
                    let none: Vec<Property> = Vec::new();
                    let next = regenerate(&none, &altered);
                    proof {
                        lemma_regenerated(Seq::empty(), altered@);
                    }
                    self.entities.set_abilities(c, next);
                }
                Vec::new()
            },
            Event::StartRound(s) => {
                self.round = RoundState::Started(s.id);
                self.rules.on_round_start(&self.entities, self.entropy, s.id)
            },
            Event::EndRound => match self.round {
                RoundState::Started(actor) => {
                    self.round = RoundState::Ready;
                    self.rules.on_round_end(&self.entities, self.entropy, actor)
                },
                RoundState::Ready => Vec::new(),
            },
            Event::ApplyImpact(i) => self.rules.apply_impact(&self.entities, self.entropy, i.impact),
        }
    }


    proof fn lemma_step_wf(&self, e: Event)
        requires
            self.wf(),
            self@.history.len() <= u64::MAX,
            spec_verify(self.spec_rules(), self@.state, e) is None,
        ensures
            ({
                let next = step(self.spec_rules(), self@, e).0;
                &&& next.state.wf()
                &&& next.state == replay(self.spec_rules(), next.history)
                &&& valid_history(self.spec_rules(), next.history)
            }),
    {
        let rules = self.spec_rules();
        lemma_apply_wf(rules, self@.state, e);
        lemma_history_push(rules, self@.history, e);
    }

    /// Fires an event on behalf of the authority: verifies and applies it, then
    /// works through the follow-ups that it and they ask for, each receiving the
    /// next id. An error leaves what was applied before it in place; an error of
    /// the event itself leaves the battle unchanged.
    pub fn process(&mut self, event: Event) -> (r: Result<(), WeaselError>)
        requires
            old(self).wf(),
        ensures
            final(self).wf(),
            final(self).spec_rules() == old(self).spec_rules(),
            final(self)@ == cascade(old(self).spec_rules(), old(self)@, seq![event], MAX_CASCADE as nat).0,
            r == as_result(cascade(old(self).spec_rules(), old(self)@, seq![event], MAX_CASCADE as nat).1),
    {
        let ghost start = self@;
        let ghost rules = self.spec_rules();
        let mut work: Vec<Event> = vec![event];
        let mut fuel: usize = MAX_CASCADE;
        loop
            invariant
                self.wf(),
                self.spec_rules() == rules,
                rules == old(self).spec_rules(),
                start == old(self)@,
                cascade(rules, self@, work@, fuel as nat) == cascade(
                    rules,
                    start,
                    seq![event],
                    MAX_CASCADE as nat,
                ),
            decreases fuel,
        {
            if work.len() == 0 {
                return Ok(());
            }
            if fuel == 0 {
                return Err(WeaselError::CascadeTooLong);
            }
            let e = work.remove(0);
            if let Some(err) = self.verify_event(&e) {
                return Err(err);
            }
            let id = self.history.len() as u64;
            proof {
                self.lemma_step_wf(e);
            }
            let ghost before = self@;
            let mut follow = self.apply_event(&e);
            let version = self.rules.version();
            self.history.push(VersionedEventWrapper { id, version, event: e });
            follow.append(&mut work);
            work = follow;
            fuel -= 1;
            assert(self@ == step(rules, before, e).0);
        }
    }

    /// Takes an event that the server applied: the versions must match and the id
    /// must be the next one; the event is verified and applied, but its follow-ups
    /// are left to the server, which sends them as events of their own.
    pub fn receive(&mut self, event: VersionedEventWrapper) -> (r: Result<(), WeaselError>)
        requires
            old(self).wf(),
        ensures
            final(self).wf(),
            final(self).spec_rules() == old(self).spec_rules(),
            final(self)@ == spec_receive(old(self).spec_rules(), old(self)@, event).0,
            r == as_result(spec_receive(old(self).spec_rules(), old(self)@, event).1),
    {
        let version = self.rules.version();
        if event.version != version {
            return Err(WeaselError::IncompatibleVersions(version, event.version));
        }
        let expected = self.history.len() as u64;
        if event.id != expected {
            return Err(WeaselError::NonContiguousEventId(event.id, expected));
        }
        if let Some(err) = self.verify_event(&event.event) {
            return Err(err);
        }
        assert(self@.history.len() <= u64::MAX);
        proof {
            self.lemma_step_wf(event.event);
        }
        let _ = self.apply_event(&event.event);
        self.history.push(event);
        Ok(())
    }

    /// Grants `player` the right to act for `team`, which must exist.
    pub fn add_right(&mut self, player: u64, team: u64) -> (r: Result<(), WeaselError>)
        requires
            old(self).wf(),
        ensures
            final(self).wf(),
            final(self).spec_rules() == old(self).spec_rules(),
            r is Err <==> !old(self)@.state.entities.has_team(team),
            r matches Err(e) ==> e == WeaselError::TeamNotFound(team) && final(self)@ == old(self)@,
            r is Ok ==> final(self)@ == (BattleView {
                rights: if old(self)@.rights.contains((player, team)) {
                    old(self)@.rights
                } else {
                    old(self)@.rights.push((player, team))
                },
                ..old(self)@
            }),
    {
        if self.entities.find_team(team).is_none() {
            return Err(WeaselError::TeamNotFound(team));
        }
        if !has_right(&self.rights, player, team) {
            self.rights.push((player, team));
        }
        Ok(())
    }

    /// Withdraws the right of `player` to act for `team`.
    pub fn remove_right(&mut self, player: u64, team: u64)
        requires
            old(self).wf(),
        ensures
            final(self).wf(),
            final(self).spec_rules() == old(self).spec_rules(),
            final(self)@ == (BattleView {
                rights: rights_without_pair(old(self)@.rights, player, team),
                ..old(self)@
            }),
    {
        let mut out: Vec<(u64, u64)> = Vec::new();
        let mut i: usize = 0;
        while i < self.rights.len()
            invariant
                i <= self.rights.len(),
                out@ == rights_without_pair(self.rights@.take(i as int), player, team),
            decreases self.rights.len() - i,
        {
            assert(self.rights@.take(i + 1).drop_last() == self.rights@.take(i as int));
            let (p, t) = self.rights[i];
            if !(p == player && t == team) {
                out.push((p, t));
            }
            i += 1;
        }
        assert(self.rights@.take(self.rights.len() as int) == self.rights@);
        self.rights = out;
    }

    /// Withdraws every right over `team`.
    pub fn remove_team_rights(&mut self, team: u64)
        requires
            old(self).wf(),
        ensures
            final(self).wf(),
            final(self).spec_rules() == old(self).spec_rules(),
            final(self)@ == (BattleView {
                rights: rights_without_team(old(self)@.rights, team),
                ..old(self)@
            }),
    {
        self.rights = rights_without(&self.rights, team);
    }

    /// Returns true when `player` may act for `team`.
    pub fn has_right(&self, player: u64, team: u64) -> (r: bool)
        ensures
            r == self@.rights.contains((player, team)),
    {
        has_right(&self.rights, player, team)
    }

}

} // verus!
