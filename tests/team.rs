use weasel::battle::Battle;
use weasel::entities::Entities;
use weasel::error::WeaselError;
use weasel::event::{ConcludeObjectives, CreateCreature, CreateTeam, RemoveTeam, ResetObjectives, SetRelations, VersionedEventWrapper};
use weasel::metric::{Metrics, TEAMS_CREATED};
use weasel::rules::SimpleRules;
use weasel::server::Server;
use weasel::sink::ClientSink;
use weasel::team::{relationship_key, Conclusion, Relation};

struct NullSink;

impl ClientSink for NullSink {
    fn spec_id(&self) -> u64 {
        0
    }

    fn id(&self) -> u64 {
        0
    }

    fn send(&mut self, _event: &VersionedEventWrapper) -> Result<(), WeaselError> {
        Ok(())
    }

    fn on_disconnect(&mut self) {}
}

type TestServer = Server<SimpleRules, NullSink>;

fn server() -> TestServer {
    TestServer::builder(Battle::new(SimpleRules::new(0))).build()
}

#[test]
fn relationship_hash_eq() {
    let r11 = relationship_key(1, 1);
    let r12 = relationship_key(1, 2);
    let r21 = relationship_key(2, 1);
    assert_eq!(r11, r11);
    assert_eq!(r12, r21);
    assert_ne!(r11, r12);
}

#[test]
fn relations_default_to_enemy() {
    let mut server = server();
    assert_eq!(CreateTeam::trigger(&mut server, 1).fire().err(), None);
    assert_eq!(CreateTeam::trigger(&mut server, 2).fire().err(), None);
    assert_eq!(CreateTeam::trigger(&mut server, 3).relations(&[]).fire().err(), None);
    let entities = server.battle().entities();
    assert_eq!(entities.relation(1, 2), Some(Relation::Enemy));
    assert_eq!(entities.relation(3, 1), Some(Relation::Enemy));
    assert_eq!(entities.relation(2, 3), Some(Relation::Enemy));
    assert_eq!(entities.relation(2, 2), Some(Relation::Kin));
    assert_eq!(server.battle().metrics().system_u64(TEAMS_CREATED), Some(3));
}

#[test]
fn explicit_relations_and_their_errors() {
    let mut server = server();
    assert_eq!(CreateTeam::trigger(&mut server, 1).fire().err(), None);
    assert_eq!(CreateTeam::trigger(&mut server, 2).fire().err(), None);
    assert_eq!(
        CreateTeam::trigger(&mut server, 1).fire().err(),
        Some(WeaselError::DuplicatedTeam(1))
    );
    assert_eq!(
        CreateTeam::trigger(&mut server, 3).relations(&[(3, Relation::Ally)]).fire().err(),
        Some(WeaselError::SelfRelation)
    );
    assert_eq!(
        CreateTeam::trigger(&mut server, 3).relations(&[(1, Relation::Kin)]).fire().err(),
        Some(WeaselError::KinshipRelation)
    );
    assert_eq!(
        CreateTeam::trigger(&mut server, 3).relations(&[(9, Relation::Ally)]).fire().err(),
        Some(WeaselError::TeamNotFound(9))
    );
    assert_eq!(
        CreateTeam::trigger(&mut server, 3).relations(&[(1, Relation::Ally)]).fire().err(),
        None
    );
    let entities = server.battle().entities();
    assert_eq!(entities.relation(1, 3), Some(Relation::Ally));
    assert_eq!(entities.relation(3, 2), Some(Relation::Enemy));
    // Later changes, in either order of the pair.
    assert_eq!(SetRelations::trigger(&mut server, &[(2, 3, Relation::Ally)]).fire().err(), None);
    assert_eq!(server.battle().entities().relation(3, 2), Some(Relation::Ally));
    assert_eq!(
        SetRelations::trigger(&mut server, &[(2, 2, Relation::Ally)]).fire().err(),
        Some(WeaselError::SelfRelation)
    );
    assert_eq!(
        SetRelations::trigger(&mut server, &[(1, 2, Relation::Kin)]).fire().err(),
        Some(WeaselError::KinshipRelation)
    );
    assert_eq!(
        SetRelations::trigger(&mut server, &[(1, 8, Relation::Ally)]).fire().err(),
        Some(WeaselError::TeamNotFound(8))
    );
}

#[test]
fn objectives_and_removal() {
    let mut server = server();
    assert_eq!(CreateTeam::trigger(&mut server, 1).objectives_seed(4).fire().err(), None);
    assert_eq!(server.battle().entities().team(1).unwrap().objectives(), 4);
    assert_eq!(
        ConcludeObjectives::trigger(&mut server, 1, Conclusion::Victory).fire().err(),
        None
    );
    assert_eq!(server.battle().entities().team(1).unwrap().conclusion(), Some(Conclusion::Victory));
    assert_eq!(
        ConcludeObjectives::trigger(&mut server, 2, Conclusion::Defeat).fire().err(),
        Some(WeaselError::TeamNotFound(2))
    );
    assert_eq!(ResetObjectives::trigger(&mut server, 1).seed(9).fire().err(), None);
    let team = server.battle().entities().team(1).unwrap();
    assert_eq!(team.objectives(), 9);
    assert_eq!(team.conclusion(), None);
    // A team with members cannot be removed.
    assert_eq!(CreateCreature::trigger(&mut server, 1, 1).fire().err(), None);
    assert_eq!(RemoveTeam::trigger(&mut server, 1).fire().err(), Some(WeaselError::TeamNotEmpty(1)));
    assert_eq!(RemoveTeam::trigger(&mut server, 7).fire().err(), Some(WeaselError::TeamNotFound(7)));
    // Removing a team removes the rights over it.
    assert_eq!(CreateTeam::trigger(&mut server, 2).fire().err(), None);
    assert_eq!(server.add_right(5, 2).err(), None);
    assert!(server.battle().has_right(5, 2));
    assert_eq!(RemoveTeam::trigger(&mut server, 2).fire().err(), None);
    assert!(server.battle().entities().team(2).is_none());
    assert!(!server.battle().has_right(5, 2));
}

#[test]
fn store_operations() {
    let mut entities = Entities::new();
    assert_eq!(entities.add_team(1, 0).err(), None);
    assert_eq!(entities.add_team(1, 0).err(), Some(WeaselError::DuplicatedTeam(1)));
    assert_eq!(entities.remove_creature(4).err(), Some(WeaselError::CreatureNotFound(4)));
    assert_eq!(entities.remove_team(3).err(), Some(WeaselError::TeamNotFound(3)));
    assert_eq!(entities.relation(1, 1), Some(Relation::Kin));
    assert_eq!(entities.relation(1, 2), None);
    entities.update_relations(&vec![(1, 2, Relation::Ally), (2, 1, Relation::Enemy)]);
    assert_eq!(entities.relation(1, 2), Some(Relation::Enemy));
    assert_eq!(entities.relation(2, 1), Some(Relation::Enemy));
    assert_eq!(entities.remove_team(1).err(), None);
    assert!(entities.team(1).is_none());
}

#[test]
fn counters_saturate() {
    let mut metrics = Metrics::new();
    assert_eq!(metrics.user_u64(3), None);
    metrics.add_user_u64(3, 5);
    metrics.add_user_u64(3, 5);
    assert_eq!(metrics.user_u64(3), Some(10));
    metrics.add_system_u64(0, u64::MAX);
    metrics.add_system_u64(0, 1);
    assert_eq!(metrics.system_u64(0), Some(u64::MAX));
    assert_eq!(metrics.user_u64(0), None);
}

#[test]
fn rights_management() {
    let mut server = server();
    assert_eq!(server.add_right(1, 1).err(), Some(WeaselError::TeamNotFound(1)));
    assert_eq!(CreateTeam::trigger(&mut server, 1).fire().err(), None);
    assert_eq!(server.add_right(1, 1).err(), None);
    assert_eq!(server.add_right(1, 1).err(), None);
    assert_eq!(server.battle().rights(), &vec![(1, 1)]);
    server.remove_right(1, 1);
    assert!(!server.battle().has_right(1, 1));
    assert_eq!(server.add_right(2, 1).err(), None);
    server.remove_team_rights(1);
    assert!(server.battle().rights().is_empty());
}

#[test]
fn members_listed_once_by_their_team() {
    let mut server = server();
    assert_eq!(CreateTeam::trigger(&mut server, 1).fire().err(), None);
    assert_eq!(CreateTeam::trigger(&mut server, 2).fire().err(), None);
    assert_eq!(CreateCreature::trigger(&mut server, 10, 1).fire().err(), None);
    assert_eq!(CreateCreature::trigger(&mut server, 11, 2).fire().err(), None);
    assert_eq!(CreateCreature::trigger(&mut server, 12, 1).fire().err(), None);
    let entities = server.battle().entities();
    assert_eq!(entities.team(1).unwrap().creatures(), &vec![10, 12]);
    assert_eq!(entities.team(2).unwrap().creatures(), &vec![11]);
    for creature in entities.creatures() {
        let members = entities.team(creature.team_id()).unwrap().creatures();
        assert_eq!(members.iter().filter(|m| **m == creature.id()).count(), 1);
    }
    assert_eq!(entities.relation(1, 2), entities.relation(2, 1));
}
