use weasel::battle::{Battle, RoundState};
use weasel::entity::{EntityId, Property};
use weasel::error::WeaselError;
use weasel::event::{
    AlterAbilities, AlterStatistics, ApplyImpact, CreateCreature, CreateTeam, EventKind, RegenerateAbilities,
    RegenerateStatistics, RemoveCreature, StartRound, VersionedEventWrapper,
};
use weasel::metric::CREATURES_CREATED;
use weasel::rules::SimpleRules;
use weasel::server::Server;
use weasel::sink::ClientSink;
use weasel::trigger::end_round;

const TEAM_1_ID: u64 = 1;
const TEAM_5_ID: u64 = 5;
const CREATURE_1_ID: u64 = 1;
const CREATURE_5_ID: u64 = 5;
const CREATURE_ERR_ID: u64 = 99;

/// A sink that accepts everything.
struct NullSink;

impl ClientSink for NullSink {
    fn spec_id(&self) -> u64 {
        0
    }

    fn id(&self) -> u64 {
        0
    }

    fn send(&mut self, _event: &VersionedEventWrapper) -> Result<(), WeaselError> {
        Ok(())
    }

    fn on_disconnect(&mut self) {}
}

type TestServer = Server<SimpleRules, NullSink>;

fn server_with(rules: SimpleRules) -> TestServer {
    TestServer::builder(Battle::new(rules)).build()
}

fn server() -> TestServer {
    server_with(SimpleRules::new(0))
}

fn team(server: &mut TestServer, id: u64) {
    assert_eq!(CreateTeam::trigger(server, id).fire().err(), None);
}

fn creature(server: &mut TestServer, id: u64, team: u64) {
    assert_eq!(CreateCreature::trigger(server, id, team).fire().err(), None);
}

fn prop(id: u64, value: i64) -> Property {
    Property { id, value }
}

#[test]
fn new_creature() {
    let mut server = server();
    team(&mut server, TEAM_1_ID);
    for i in 0..2 {
        creature(&mut server, i, TEAM_1_ID);
        assert!(server.battle().entities().creature(i).is_some());
    }
    assert_eq!(server.battle().metrics().system_u64(CREATURES_CREATED), Some(2));
    // The team must exist.
    assert_eq!(
        CreateCreature::trigger(&mut server, CREATURE_5_ID, TEAM_5_ID).fire().err(),
        Some(WeaselError::TeamNotFound(TEAM_5_ID))
    );
    assert!(server.battle().entities().creature(CREATURE_5_ID).is_none());
    // Ids are unique.
    team(&mut server, TEAM_5_ID);
    assert_eq!(
        CreateCreature::trigger(&mut server, 0, TEAM_5_ID).fire().err(),
        Some(WeaselError::DuplicatedCreature(0))
    );
    assert!(server.battle().entities().creature(0).is_some());
}

#[test]
fn statistics_generated() {
    const SEED: u64 = 5;
    let mut server = server();
    team(&mut server, TEAM_1_ID);
    let mut trigger = CreateCreature::trigger(&mut server, CREATURE_5_ID, TEAM_1_ID);
    let result = trigger.statistics_seed(vec![prop(SEED, 0)]).fire();
    assert_eq!(result.err(), None);
    let creature = server.battle().entities().creature(CREATURE_5_ID).unwrap();
    assert_eq!(creature.statistics(), &vec![prop(SEED, 0)]);
}

#[test]
fn regenerate_statistics() {
    const STAT_1_ID: u64 = 1;
    const STAT_2_ID: u64 = 2;
    const STAT_3_ID: u64 = 3;
    const STAT_VALUE: i64 = 10;
    const STAT_ERR_VALUE: i64 = 0;
    const ENTITY_1_ID: EntityId = EntityId::Creature(CREATURE_1_ID);
    const ENTITY_ERR_ID: EntityId = EntityId::Creature(CREATURE_ERR_ID);
    let mut server = server();
    team(&mut server, TEAM_1_ID);
    assert_eq!(
        CreateCreature::trigger(&mut server, CREATURE_1_ID, TEAM_1_ID)
            .statistics_seed(vec![prop(STAT_1_ID, STAT_VALUE), prop(STAT_2_ID, STAT_VALUE)])
            .fire()
            .err(),
        None
    );
    assert_eq!(server.battle().entities().creature(CREATURE_1_ID).unwrap().statistics().len(), 2);
    // Missing entities are refused.
    assert_eq!(
        RegenerateStatistics::trigger(&mut server, ENTITY_ERR_ID).fire().err(),
        Some(WeaselError::EntityNotFound(ENTITY_ERR_ID))
    );
    assert_eq!(
        RegenerateStatistics::trigger(&mut server, ENTITY_1_ID)
            .seed(vec![prop(STAT_1_ID, STAT_ERR_VALUE), prop(STAT_3_ID, STAT_VALUE)])
            .fire()
            .err(),
        None
    );
    let stats = server.battle().entities().creature(CREATURE_1_ID).unwrap().statistics();
    assert_eq!(stats.len(), 2);
    // One kept as it was, one removed, one added.
    assert!(stats.contains(&prop(STAT_1_ID, STAT_VALUE)));
    assert!(!stats.iter().any(|s| s.id == STAT_2_ID));
    assert!(stats.contains(&prop(STAT_3_ID, STAT_VALUE)));
}

#[test]
fn abilities_generated() {
    const SEED: u64 = 5;
    let mut server = server();
    team(&mut server, TEAM_1_ID);
    let mut trigger = CreateCreature::trigger(&mut server, CREATURE_5_ID, TEAM_1_ID);
    let result = trigger.abilities_seed(vec![prop(SEED, 0)]).fire();
    assert_eq!(result.err(), None);
    let creature = server.battle().entities().creature(CREATURE_5_ID).unwrap();
    assert_eq!(creature.abilities(), &vec![prop(SEED, 0)]);
}

#[test]
fn regenerate_abilities() {
    const ABILITY_1_ID: u64 = 1;
    const ABILITY_2_ID: u64 = 2;
    const ABILITY_3_ID: u64 = 3;
    const ABILITY_VALUE: i64 = 10;
    const ABILITY_ERR_VALUE: i64 = 0;
    const ENTITY_1_ID: EntityId = EntityId::Creature(CREATURE_1_ID);
    const ENTITY_ERR_ID: EntityId = EntityId::Creature(CREATURE_ERR_ID);
    let mut server = server();
    team(&mut server, TEAM_1_ID);
    assert_eq!(
        CreateCreature::trigger(&mut server, CREATURE_1_ID, TEAM_1_ID)
            .abilities_seed(vec![prop(ABILITY_1_ID, ABILITY_VALUE), prop(ABILITY_2_ID, ABILITY_VALUE)])
            .fire()
            .err(),
        None
    );
    assert_eq!(server.battle().entities().creature(CREATURE_1_ID).unwrap().abilities().len(), 2);
    assert_eq!(
        RegenerateAbilities::trigger(&mut server, ENTITY_ERR_ID).fire().err(),
        Some(WeaselError::EntityNotFound(ENTITY_ERR_ID))
    );
    assert_eq!(
        RegenerateAbilities::trigger(&mut server, ENTITY_1_ID)
            .seed(vec![prop(ABILITY_1_ID, ABILITY_ERR_VALUE), prop(ABILITY_3_ID, ABILITY_VALUE)])
            .fire()
            .err(),
        None
    );
    let abilities = server.battle().entities().creature(CREATURE_1_ID).unwrap().abilities();
    assert_eq!(abilities.len(), 2);
    assert!(abilities.contains(&prop(ABILITY_1_ID, ABILITY_VALUE)));
    assert!(!abilities.iter().any(|a| a.id == ABILITY_2_ID));
    assert!(abilities.contains(&prop(ABILITY_3_ID, ABILITY_VALUE)));
}

#[test]
fn remove_creature() {
    const ENTITY_1_ID: EntityId = EntityId::Creature(CREATURE_1_ID);
    let mut server = server();
    team(&mut server, TEAM_1_ID);
    creature(&mut server, CREATURE_1_ID, TEAM_1_ID);
    assert_eq!(
        RemoveCreature::trigger(&mut server, CREATURE_5_ID).fire().err(),
        Some(WeaselError::CreatureNotFound(CREATURE_5_ID))
    );
    assert_eq!(RemoveCreature::trigger(&mut server, CREATURE_1_ID).fire().err(), None);
    let entities = server.battle().entities();
    assert!(entities.creature(CREATURE_1_ID).is_none());
    assert!(!entities.team(TEAM_1_ID).unwrap().creatures().contains(&CREATURE_1_ID));
    // Remove the creature whose round is in progress.
    creature(&mut server, CREATURE_1_ID, TEAM_1_ID);
    assert_eq!(StartRound::trigger(&mut server, ENTITY_1_ID).fire().err(), None);
    assert_eq!(RemoveCreature::trigger(&mut server, CREATURE_1_ID).fire().err(), None);
    let entities = server.battle().entities();
    assert!(entities.creature(CREATURE_1_ID).is_none());
    assert!(!entities.team(TEAM_1_ID).unwrap().creatures().contains(&CREATURE_1_ID));
    assert_eq!(server.battle().round(), RoundState::Ready);
}

#[test]
fn remove_creature_on_alter() {
    const ENTITY_1_ID: EntityId = EntityId::Creature(CREATURE_1_ID);
    let rules = SimpleRules { version: 0, lethal_alteration: Some(0), impact_alteration: None, statistics_counter: None };
    let mut server = server_with(rules);
    team(&mut server, TEAM_1_ID);
    creature(&mut server, CREATURE_1_ID, TEAM_1_ID);
    assert_eq!(AlterStatistics::trigger(&mut server, ENTITY_1_ID, 0).fire().err(), None);
    assert!(server.battle().entities().creature(CREATURE_1_ID).is_none());
}

#[test]
fn remove_creature_on_alter_ends_round() {
    const ENTITY_1_ID: EntityId = EntityId::Creature(CREATURE_1_ID);
    let rules = SimpleRules { version: 0, lethal_alteration: Some(0), impact_alteration: None, statistics_counter: None };
    let mut server = server_with(rules);
    team(&mut server, TEAM_1_ID);
    creature(&mut server, CREATURE_1_ID, TEAM_1_ID);
    assert_eq!(StartRound::trigger(&mut server, ENTITY_1_ID).fire().err(), None);
    assert_eq!(AlterStatistics::trigger(&mut server, ENTITY_1_ID, 0).fire().err(), None);
    assert!(server.battle().entities().creature(CREATURE_1_ID).is_none());
    assert_eq!(server.battle().round(), RoundState::Ready);
    // The follow-ups come after their cause, each with the next id.
    let kinds: Vec<_> = server.battle().history().iter().map(|e| e.event.kind()).collect();
    assert_eq!(kinds, vec![
        EventKind::CreateTeam,
        EventKind::CreateCreature,
        EventKind::StartRound,
        EventKind::AlterStatistics,
        EventKind::RemoveCreature,
        EventKind::EndRound,
    ]);
    let ids: Vec<u64> = server.battle().history().iter().map(|e| e.id).collect();
    assert_eq!(ids, vec![0, 1, 2, 3, 4, 5]);
}

#[test]
fn impact_cascades_into_follow_ups() {
    let rules = SimpleRules { version: 0, lethal_alteration: Some(7), impact_alteration: Some(7), statistics_counter: None };
    let mut server = server_with(rules);
    team(&mut server, TEAM_1_ID);
    creature(&mut server, CREATURE_1_ID, TEAM_1_ID);
    assert_eq!(ApplyImpact::trigger(&mut server, CREATURE_1_ID).fire().err(), None);
    assert!(server.battle().entities().creature(CREATURE_1_ID).is_none());
    let kinds: Vec<_> = server.battle().history().iter().map(|e| e.event.kind()).collect();
    assert_eq!(kinds, vec![
        EventKind::CreateTeam,
        EventKind::CreateCreature,
        EventKind::ApplyImpact,
        EventKind::AlterStatistics,
        EventKind::RemoveCreature,
    ]);
    // The rules read the state: an impact on a missing creature asks for nothing.
    assert_eq!(ApplyImpact::trigger(&mut server, CREATURE_ERR_ID).fire().err(), None);
    assert_eq!(server.battle().history().len(), 6);
}

#[test]
fn actors_and_rounds() {
    let mut server = server();
    team(&mut server, TEAM_1_ID);
    creature(&mut server, CREATURE_1_ID, TEAM_1_ID);
    let object = EntityId::Object(CREATURE_1_ID);
    assert_eq!(
        AlterAbilities::trigger(&mut server, object, 0).fire().err(),
        Some(WeaselError::NotAnActor(object))
    );
    assert_eq!(
        RegenerateAbilities::trigger(&mut server, object).fire().err(),
        Some(WeaselError::NotAnActor(object))
    );
    assert_eq!(end_round(&mut server).fire().err(), Some(WeaselError::NoRoundInProgress));
    let actor = EntityId::Creature(CREATURE_1_ID);
    assert_eq!(StartRound::trigger(&mut server, actor).fire().err(), None);
    assert_eq!(server.battle().round(), RoundState::Started(actor));
    assert_eq!(
        StartRound::trigger(&mut server, actor).fire().err(),
        Some(WeaselError::RoundInProgress)
    );
    assert_eq!(end_round(&mut server).fire().err(), None);
    assert_eq!(server.battle().round(), RoundState::Ready);
    assert_eq!(AlterAbilities::trigger(&mut server, actor, 3).fire().err(), None);
}

#[test]
fn regenerate_merges_properties() {
    let cur = vec![prop(1, 10), prop(2, 10)];
    let next = vec![prop(1, 0), prop(3, 10), prop(3, 20)];
    let out = weasel::entity::regenerate(&cur, &next);
    assert_eq!(out, vec![prop(1, 10), prop(3, 10)]);
    assert!(weasel::entity::find_id(&out, 3));
    assert!(!weasel::entity::find_id(&out, 2));
    let fresh = weasel::entity::regenerate(&vec![], &next);
    assert_eq!(fresh, vec![prop(1, 0), prop(3, 10)]);
}

#[test]
fn equal_engines_stay_equal() {
    let mut a = server();
    let mut b = server();
    for s in [&mut a, &mut b] {
        team(s, TEAM_1_ID);
        team(s, TEAM_5_ID);
        creature(s, CREATURE_1_ID, TEAM_1_ID);
        assert_eq!(StartRound::trigger(s, EntityId::Creature(CREATURE_1_ID)).fire().err(), None);
    }
    assert_eq!(a.battle().history(), b.battle().history());
    assert_eq!(a.battle().entities().teams().len(), b.battle().entities().teams().len());
    assert_eq!(a.battle().entities().creatures().len(), 1);
    assert_eq!(
        a.battle().entities().relation(TEAM_1_ID, TEAM_5_ID),
        b.battle().entities().relation(TEAM_1_ID, TEAM_5_ID)
    );
    assert_eq!(a.battle().round(), b.battle().round());
}

#[test]
fn user_metrics() {
    const SEED: i64 = 5;
    const TOTAL_STAT_VALUE: u64 = 5 * 2;
    let rules = SimpleRules {
        version: 0,
        lethal_alteration: None,
        impact_alteration: None,
        statistics_counter: Some(0),
    };
    let mut server = server_with(rules);
    team(&mut server, TEAM_1_ID);
    // Two creatures, each with one statistic of value 5.
    let mut trigger = CreateCreature::trigger(&mut server, CREATURE_5_ID, TEAM_1_ID);
    assert_eq!(trigger.statistics_seed(vec![prop(0, SEED)]).fire().err(), None);
    let mut trigger = CreateCreature::trigger(&mut server, CREATURE_1_ID, TEAM_1_ID);
    assert_eq!(trigger.statistics_seed(vec![prop(0, SEED)]).fire().err(), None);
    assert_eq!(server.battle().metrics().user_u64(0), Some(TOTAL_STAT_VALUE));
}

#[test]
fn entropy_moves_on_with_every_event() {
    let mut server = server();
    assert_eq!(server.battle().entropy(), 0);
    team(&mut server, TEAM_1_ID);
    let first = server.battle().entropy();
    assert_eq!(first, 1442695040888963407);
    assert_eq!(weasel::battle::step_entropy(0), first);
    team(&mut server, TEAM_5_ID);
    assert_eq!(server.battle().entropy(), weasel::battle::step_entropy(first));
    // A refused event leaves it as it was.
    assert_eq!(
        CreateTeam::trigger(&mut server, TEAM_5_ID).fire().err(),
        Some(WeaselError::DuplicatedTeam(TEAM_5_ID))
    );
    assert_eq!(server.battle().entropy(), weasel::battle::step_entropy(first));
}
