//! The game's rules: the hooks through which a game gives meaning to seeds,
//! alterations and impacts.
use crate::entities::{Entities, EntitiesView};
use crate::entity::{Ability, EntityId, Property, Statistic, Transmutation};
use crate::event::{AlterStatistics, Event};
use crate::team::EntityAddition;
use vstd::prelude::*;

verus! {

/// The rules of a game. Each hook is a function of its arguments, named by a spec
/// function, so that two engines with equal rules evolve alike. Hooks read the
/// entity store as it stands before the event and the battle's entropy word, which
/// moves on after every applied event. Hooks never change the battle themselves:
/// they return values, follow-up events and counter increments.
pub trait BattleRules {
    /// The version of these rules; peers with different versions do not talk.
    spec fn spec_version(&self) -> u32;

    fn version(&self) -> (r: u32)
        ensures
            r == self.spec_version(),
    ;

    spec fn spec_statistics(&self, state: EntitiesView, entropy: u64, seed: Option<Seq<Property>>) -> Seq<Statistic>;

    /// Generates the statistics of a character.
    fn generate_statistics(&self, state: &Entities, entropy: u64, seed: &Option<Vec<Property>>) -> (r: Vec<Statistic>)
        requires
            state@.wf(),
        ensures
            r@ == self.spec_statistics(
                state@,
                entropy,
                match seed {
                    Some(s) => Some(s@),
                    None => None,
                },
            ),
    ;

    spec fn spec_abilities(&self, state: EntitiesView, entropy: u64, seed: Option<Seq<Property>>) -> Seq<Ability>;

    /// Generates the abilities of an actor.
    fn generate_abilities(&self, state: &Entities, entropy: u64, seed: &Option<Vec<Property>>) -> (r: Vec<Ability>)
        requires
            state@.wf(),
        ensures
            r@ == self.spec_abilities(
                state@,
                entropy,
                match seed {
                    Some(s) => Some(s@),
                    None => None,
                },
            ),
    ;

    spec fn spec_objectives(&self, state: EntitiesView, entropy: u64, seed: Option<u64>) -> u64;

    /// Generates the objectives of a team.
    fn generate_objectives(&self, state: &Entities, entropy: u64, seed: Option<u64>) -> (r: u64)
        requires
            state@.wf(),
        ensures
            r == self.spec_objectives(state@, entropy, seed),
    ;

    spec fn spec_allow_new_entity(&self, state: EntitiesView, team: u64, addition: EntityAddition) -> bool;

    /// Decides whether an entity may join the team.
    fn allow_new_entity(&self, state: &Entities, team: u64, addition: EntityAddition) -> (r: bool)
        requires
            state@.wf(),
        ensures
            r == self.spec_allow_new_entity(state@, team, addition),
    ;

    spec fn spec_alter_statistics(&self, state: EntitiesView, entropy: u64, statistics: Seq<Statistic>, alteration: u64) -> (
        Seq<Statistic>,
        Option<Transmutation>,
    );

    /// Alters a character's statistics; may ask for a structural change.
    fn alter_statistics(&self, state: &Entities, entropy: u64, statistics: &Vec<Statistic>, alteration: u64) -> (r: (
        Vec<Statistic>,
        Option<Transmutation>,
    ))
        requires
            state@.wf(),
        ensures
            (r.0@, r.1) == self.spec_alter_statistics(state@, entropy, statistics@, alteration),
    ;

    spec fn spec_alter_abilities(&self, state: EntitiesView, entropy: u64, abilities: Seq<Ability>, alteration: u64) -> Seq<Ability>;

    /// Alters an actor's abilities.
    fn alter_abilities(&self, state: &Entities, entropy: u64, abilities: &Vec<Ability>, alteration: u64) -> (r: Vec<Ability>)
        requires
            state@.wf(),
        ensures
            r@ == self.spec_alter_abilities(state@, entropy, abilities@, alteration),
    ;

    spec fn spec_round_start(&self, state: EntitiesView, entropy: u64, actor: EntityId) -> Seq<Event>;

    /// The events that follow the start of an actor's round.
    fn on_round_start(&self, state: &Entities, entropy: u64, actor: EntityId) -> (r: Vec<Event>)
        requires
            state@.wf(),
        ensures
            r@ == self.spec_round_start(state@, entropy, actor),
    ;

    spec fn spec_round_end(&self, state: EntitiesView, entropy: u64, actor: EntityId) -> Seq<Event>;

    /// The events that follow the end of an actor's round.
    fn on_round_end(&self, state: &Entities, entropy: u64, actor: EntityId) -> (r: Vec<Event>)
        requires
            state@.wf(),
        ensures
            r@ == self.spec_round_end(state@, entropy, actor),
    ;

    spec fn spec_impact(&self, state: EntitiesView, entropy: u64, impact: u64) -> Seq<Event>;

    /// The events through which an impact changes the world.
    fn apply_impact(&self, state: &Entities, entropy: u64, impact: u64) -> (r: Vec<Event>)
        requires
            state@.wf(),
        ensures
            r@ == self.spec_impact(state@, entropy, impact),
    ;

    spec fn spec_user_metrics(&self, state: EntitiesView, event: Event) -> Seq<(u64, u64)>;

    /// The user counters that an event raises: pairs of a counter id and an amount,
    /// added in order once the event is applied.
    fn user_metrics(&self, state: &Entities, event: &Event) -> (r: Vec<(u64, u64)>)
        requires
            state@.wf(),
        ensures
            r@ == self.spec_user_metrics(state@, *event),
    ;
}

/// Rules configured by data: a seed lists the properties it generates, objectives
/// are the seed itself (or zero), every new entity is accepted, abilities and
/// rounds change nothing, one alteration value is lethal, an impact on an existing
/// creature `n` alters its statistics with a configured alteration, and a
/// configured user counter adds up the statistics of created creatures.
#[derive(Clone, Copy, Debug, PartialEq, Eq, Structural)]
pub struct SimpleRules {
    pub version: u32,
    /// The alteration that removes the altered creature.
    pub lethal_alteration: Option<u64>,
    /// The alteration that an impact applies to its target creature.
    pub impact_alteration: Option<u64>,
    /// The user counter that adds up the non-negative statistic values of every
    /// creature created.
    pub statistics_counter: Option<u64>,
}

/// One increment of `counter` for each non-negative value among `seed`, in order.
pub open spec fn value_increments(seed: Seq<Property>, counter: u64) -> Seq<(u64, u64)>
    decreases seed.len(),
{
    if seed.len() == 0 {
        Seq::empty()
    } else if seed.last().value >= 0 {
        value_increments(seed.drop_last(), counter).push((counter, seed.last().value as u64))
    } else {
        value_increments(seed.drop_last(), counter)
    }
}

impl SimpleRules {
    /// Rules of the given version with no lethal alteration and inert impacts.
    pub fn new(version: u32) -> (r: SimpleRules)
        ensures
            r == (SimpleRules {
                version,
                lethal_alteration: None,
                impact_alteration: None,
                statistics_counter: None,
            }),
    {
        SimpleRules { version, lethal_alteration: None, impact_alteration: None, statistics_counter: None }
    }
}

fn copy_properties(s: &Option<Vec<Property>>) -> (r: Vec<Property>)
    ensures
        r@ == match s {
            Some(v) => v@,
            None => Seq::<Property>::empty(),
        },
{
    let mut out: Vec<Property> = Vec::new();
    if let Some(v) = s {
        let mut i: usize = 0;
        while i < v.len()
            invariant
                i <= v.len(),
                out@ == v@.take(i as int),
            decreases v.len() - i,
        {
            out.push(v[i]);
            i += 1;
            assert(out@ == v@.take(i as int));
        }
        assert(v@.take(v.len() as int) == v@);
    }
    out
}

fn copy_vec(s: &Vec<Property>) -> (r: Vec<Property>)
    ensures
        r@ == s@,
{
    let mut out: Vec<Property> = Vec::new();
    let mut i: usize = 0;
    while i < s.len()
        invariant
            i <= s.len(),
            out@ == s@.take(i as int),
        decreases s.len() - i,
    {
        out.push(s[i]);
        i += 1;
        assert(out@ == s@.take(i as int));
    }
    assert(s@.take(s.len() as int) == s@);
    out
}

impl BattleRules for SimpleRules {
    open spec fn spec_version(&self) -> u32 {
        self.version
    }

    fn version(&self) -> (r: u32) {
        self.version
    }

    open spec fn spec_statistics(&self, state: EntitiesView, entropy: u64, seed: Option<Seq<Property>>) -> Seq<Statistic> {
        match seed {
            Some(s) => s,
            None => Seq::empty(),
        }
    }

    fn generate_statistics(&self, state: &Entities, entropy: u64, seed: &Option<Vec<Property>>) -> (r: Vec<Statistic>) {
        copy_properties(seed)
    }

    open spec fn spec_abilities(&self, state: EntitiesView, entropy: u64, seed: Option<Seq<Property>>) -> Seq<Ability> {
        match seed {
            Some(s) => s,
            None => Seq::empty(),
        }
    }

    fn generate_abilities(&self, state: &Entities, entropy: u64, seed: &Option<Vec<Property>>) -> (r: Vec<Ability>) {
        copy_properties(seed)
    }

    open spec fn spec_objectives(&self, state: EntitiesView, entropy: u64, seed: Option<u64>) -> u64 {
        match seed {
            Some(s) => s,
            None => 0,
        }
    }

    fn generate_objectives(&self, state: &Entities, entropy: u64, seed: Option<u64>) -> (r: u64) {
        match seed {
            Some(s) => s,
            None => 0,
        }
    }

    open spec fn spec_allow_new_entity(&self, state: EntitiesView, team: u64, addition: EntityAddition) -> bool {
        true
    }

    fn allow_new_entity(&self, state: &Entities, team: u64, addition: EntityAddition) -> (r: bool) {
        true
    }

    open spec fn spec_alter_statistics(&self, state: EntitiesView, entropy: u64, statistics: Seq<Statistic>, alteration: u64) -> (
        Seq<Statistic>,
        Option<Transmutation>,
    ) {
        if self.lethal_alteration == Some(alteration) {
            (statistics, Some(Transmutation::Removal))
        } else {
            (statistics, None)
        }
    }

    fn alter_statistics(&self, state: &Entities, entropy: u64, statistics: &Vec<Statistic>, alteration: u64) -> (r: (
        Vec<Statistic>,
        Option<Transmutation>,
    )) {
        let kept = copy_vec(statistics);
        match self.lethal_alteration {
            Some(a) if a == alteration => (kept, Some(Transmutation::Removal)),
            _ => (kept, None),
        }
    }

    open spec fn spec_alter_abilities(&self, state: EntitiesView, entropy: u64, abilities: Seq<Ability>, alteration: u64) -> Seq<
        Ability,
    > {
        abilities
    }

    fn alter_abilities(&self, state: &Entities, entropy: u64, abilities: &Vec<Ability>, alteration: u64) -> (r: Vec<Ability>) {
        copy_vec(abilities)
    }

    open spec fn spec_round_start(&self, state: EntitiesView, entropy: u64, actor: EntityId) -> Seq<Event> {
        Seq::empty()
    }

    fn on_round_start(&self, state: &Entities, entropy: u64, actor: EntityId) -> (r: Vec<Event>) {
        Vec::new()
    }

    open spec fn spec_round_end(&self, state: EntitiesView, entropy: u64, actor: EntityId) -> Seq<Event> {
        Seq::empty()
    }

    fn on_round_end(&self, state: &Entities, entropy: u64, actor: EntityId) -> (r: Vec<Event>) {
        Vec::new()
    }

    open spec fn spec_impact(&self, state: EntitiesView, entropy: u64, impact: u64) -> Seq<Event> {
        match self.impact_alteration {
            Some(a) => if state.has_creature(impact) {
                seq![
                    Event::AlterStatistics(
                        AlterStatistics { id: EntityId::Creature(impact), alteration: a },
                    ),
                ]
            } else {
                Seq::empty()
            },
            None => Seq::empty(),
        }
    }

    fn apply_impact(&self, state: &Entities, entropy: u64, impact: u64) -> (r: Vec<Event>) {
        match self.impact_alteration {
            Some(a) if state.find_creature(impact).is_some() => {
                let v = vec![
                    Event::AlterStatistics(
                        AlterStatistics { id: EntityId::Creature(impact), alteration: a },
                    ),
                ];
                assert(v@ =~= self.spec_impact(state@, entropy, impact));
                v
            },
            _ => {
                let v: Vec<Event> = Vec::new();
                assert(v@ =~= self.spec_impact(state@, entropy, impact));
                v
            },
        }
    }

    open spec fn spec_user_metrics(&self, state: EntitiesView, event: Event) -> Seq<(u64, u64)> {
        match (self.statistics_counter, event) {
            (Some(counter), Event::CreateCreature(c)) => match c.statistics_seed {
                Some(seed) => value_increments(seed@, counter),
                None => Seq::empty(),
            },
            _ => Seq::empty(),
        }
    }

    fn user_metrics(&self, state: &Entities, event: &Event) -> (r: Vec<(u64, u64)>) {
        let mut out: Vec<(u64, u64)> = Vec::new();
        if let Some(counter) = self.statistics_counter {
            if let Event::CreateCreature(c) = event {
                if let Some(seed) = &c.statistics_seed {
                    let mut i: usize = 0;
                    while i < seed.len()
                        invariant
                            i <= seed.len(),
                            out@ == value_increments(seed@.take(i as int), counter),
                        decreases seed.len() - i,
                    {
                        assert(seed@.take(i + 1).drop_last() == seed@.take(i as int));
                        if seed[i].value >= 0 {
                            out.push((counter, seed[i].value as u64));
                        }
                        i += 1;
                    }
                    assert(seed@.take(seed.len() as int) == seed@);
                }
            }
        }
        out
    }
}

} // verus!
