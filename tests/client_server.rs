use std::cell::RefCell;
use std::rc::Rc;
use weasel::battle::Battle;
use weasel::client::Client;
use weasel::entity::EntityId;
use weasel::error::WeaselError;
use weasel::event::{
    ClientEventPrototype, CreateCreature, CreateTeam, Event, EventKind, RemoveCreature, StartRound,
    VersionedEventWrapper,
};
use weasel::rules::SimpleRules;
use weasel::server::Server;
use weasel::sink::{ClientSink, ServerSink};
use weasel::trigger::{dummy_event, end_round};

const TEAM_1_ID: u64 = 1;
const CREATURE_1_ID: u64 = 1;
const ENTITY_1_ID: EntityId = EntityId::Creature(CREATURE_1_ID);
const SERVER_1_ID: u64 = 1;
const CLIENT_1_ID: u64 = 1;
const CLIENT_2_ID: u64 = 2;
const CLIENT_ERR_ID: u64 = 99;
const PLAYER_1_ID: u64 = 1;
const PLAYER_2_ID: u64 = 2;

type TestServer = Server<SimpleRules, TestClientSink>;
type TestClient = Client<SimpleRules, TestServerSink>;

struct SinkImpl {
    id: u64,
    disconnections: u32,
    broken: bool,
}

impl SinkImpl {
    fn new(id: u64) -> SinkImpl {
        SinkImpl { id, disconnections: 0, broken: false }
    }
}

/// Sends prototypes straight to a local server.
#[derive(Clone)]
struct TestServerSink {
    sink: Rc<RefCell<SinkImpl>>,
    server: Rc<RefCell<TestServer>>,
}

impl TestServerSink {
    fn new(id: u64, server: Rc<RefCell<TestServer>>) -> TestServerSink {
        TestServerSink { sink: Rc::new(RefCell::new(SinkImpl::new(id))), server }
    }
}

impl ServerSink for TestServerSink {
    fn id(&self) -> u64 {
        self.sink.borrow().id
    }

    fn send(&mut self, event: &ClientEventPrototype) -> Result<(), WeaselError> {
        if self.sink.borrow().broken {
            Err(WeaselError::EventSinkError("broken".to_string()))
        } else {
            self.server.borrow_mut().process_client(event.clone())
        }
    }

    fn on_disconnect(&mut self) {
        self.sink.borrow_mut().disconnections += 1;
    }
}

/// Buffers the server's events; `receive` hands them to the local client.
#[derive(Clone)]
struct TestClientSink {
    sink: Rc<RefCell<SinkImpl>>,
    client: Rc<RefCell<TestClient>>,
    buffer: Rc<RefCell<Vec<VersionedEventWrapper>>>,
}

impl TestClientSink {
    fn new(id: u64, client: Rc<RefCell<TestClient>>) -> TestClientSink {
        TestClientSink {
            sink: Rc::new(RefCell::new(SinkImpl::new(id))),
            client,
            buffer: Rc::new(RefCell::new(Vec::new())),
        }
    }

    fn receive(&mut self) -> Result<(), WeaselError> {
        let events: Vec<_> = self.buffer.borrow_mut().drain(..).collect();
        for event in events.into_iter() {
            self.client.borrow_mut().receive(event)?;
        }
        Ok(())
    }
}

impl ClientSink for TestClientSink {
    fn spec_id(&self) -> u64 {
        self.sink.borrow().id
    }

    fn id(&self) -> u64 {
        self.sink.borrow().id
    }

    fn send(&mut self, event: &VersionedEventWrapper) -> Result<(), WeaselError> {
        if self.sink.borrow().broken {
            Err(WeaselError::EventSinkError("broken".to_string()))
        } else {
            self.buffer.borrow_mut().push(event.clone());
            Ok(())
        }
    }

    fn on_disconnect(&mut self) {
        self.sink.borrow_mut().disconnections += 1;
    }
}

fn server_with(rules: SimpleRules) -> Rc<RefCell<TestServer>> {
    Rc::new(RefCell::new(TestServer::builder(Battle::new(rules)).build()))
}

fn server() -> Rc<RefCell<TestServer>> {
    server_with(SimpleRules::new(0))
}

fn client_with(rules: SimpleRules, sink: TestServerSink) -> Rc<RefCell<TestClient>> {
    Rc::new(RefCell::new(Client::builder(Battle::new(rules), sink).build()))
}

fn client(sink: TestServerSink) -> Rc<RefCell<TestClient>> {
    client_with(SimpleRules::new(0), sink)
}

fn kinds<R: weasel::rules::BattleRules>(battle: &Battle<R>) -> Vec<EventKind> {
    battle.history().iter().map(|e| e.event.kind()).collect()
}

fn server_events(server: &Rc<RefCell<TestServer>>) -> usize {
    server.borrow().battle().history().len()
}

fn client_events(client: &Rc<RefCell<TestClient>>) -> usize {
    client.borrow().battle().history().len()
}

fn team(server: &Rc<RefCell<TestServer>>, id: u64) {
    assert_eq!(CreateTeam::trigger(&mut *server.borrow_mut(), id).fire().err(), None);
}

fn creature(server: &Rc<RefCell<TestServer>>, id: u64, team: u64) {
    assert_eq!(CreateCreature::trigger(&mut *server.borrow_mut(), id, team).fire().err(), None);
}

fn add_sink(server: &Rc<RefCell<TestServer>>, sink: &TestClientSink) {
    assert_eq!(server.borrow_mut().add_sink(sink.clone()).err(), None);
}

fn add_sink_from(server: &Rc<RefCell<TestServer>>, sink: &TestClientSink, start: u64) {
    assert_eq!(server.borrow_mut().add_sink_from(sink.clone(), start).err(), None);
}

#[test]
fn send_events() {
    let server = server();
    let server_sink = TestServerSink::new(SERVER_1_ID, server.clone());
    let client = client(server_sink.clone());
    let mut client_sink = TestClientSink::new(CLIENT_1_ID, client.clone());
    add_sink(&server, &client_sink);
    // One event from the server, one from the client.
    team(&server, TEAM_1_ID);
    assert_eq!(client_sink.receive().err(), None);
    assert_eq!(dummy_event(&mut *client.borrow_mut()).fire().err(), None);
    assert_eq!(client_sink.receive().err(), None);
    // Both battles hold the same history.
    assert_eq!(kinds(server.borrow().battle()), vec![EventKind::CreateTeam, EventKind::DummyEvent]);
    assert_eq!(kinds(client.borrow().battle()), vec![EventKind::CreateTeam, EventKind::DummyEvent]);
    let ids: Vec<u64> = client.borrow().battle().history().iter().map(|e| e.id).collect();
    assert_eq!(ids, vec![0, 1]);
    let ids: Vec<u64> = server.borrow().battle().history().iter().map(|e| e.id).collect();
    assert_eq!(ids, vec![0, 1]);
}

#[test]
fn send_errors() {
    let server = server();
    let server_sink = TestServerSink::new(SERVER_1_ID, server.clone());
    let client_1 = client(server_sink.clone());
    let client_2 = client(server_sink.clone());
    let mut client_sink_1 = TestClientSink::new(CLIENT_1_ID, client_1.clone());
    add_sink(&server, &client_sink_1);
    let mut client_sink_2 = TestClientSink::new(CLIENT_2_ID, client_2.clone());
    add_sink(&server, &client_sink_2);
    // One client sink is faulty.
    client_sink_2.sink.borrow_mut().broken = true;
    assert_eq!(dummy_event(&mut *client_1.borrow_mut()).fire().err(), None);
    assert_eq!(client_sink_1.receive().err(), None);
    assert_eq!(client_sink_2.receive().err(), None);
    assert_eq!(server_events(&server), 1);
    assert_eq!(client_events(&client_1), 1);
    assert_eq!(client_events(&client_2), 0);
    // The faulty sink was detached, once.
    assert_eq!(client_sink_2.sink.borrow().disconnections, 1);
    assert_eq!(server.borrow().client_sinks().len(), 1);
    // A faulty server sink adds nothing to the server.
    server_sink.sink.borrow_mut().broken = true;
    assert_eq!(
        dummy_event(&mut *client_1.borrow_mut()).fire().err(),
        Some(WeaselError::EventSinkError("broken".to_string()))
    );
    assert_eq!(server_events(&server), 1);
    // The detached sink is not told again.
    assert_eq!(dummy_event(&mut *server.borrow_mut()).fire().err(), None);
    assert_eq!(client_sink_2.sink.borrow().disconnections, 1);
}

#[test]
fn integrity_checks() {
    let server = server();
    let server_sink = TestServerSink::new(SERVER_1_ID, server.clone());
    let client = client(server_sink.clone());
    assert_eq!(dummy_event(&mut *server.borrow_mut()).fire().err(), None);
    // Attach the client from the next event on.
    let mut client_sink = TestClientSink::new(CLIENT_1_ID, client.clone());
    add_sink(&server, &client_sink);
    assert_eq!(dummy_event(&mut *server.borrow_mut()).fire().err(), None);
    assert_eq!(client_sink.receive().err(), Some(WeaselError::NonContiguousEventId(1, 0)));
    // Reattach from the start of the history.
    server.borrow_mut().remove_sink(CLIENT_1_ID);
    add_sink_from(&server, &client_sink, 0);
    assert_eq!(client_sink.receive().err(), None);
    assert_eq!(server_events(&server), 2);
    assert_eq!(client_events(&client), 2);
    // The client follows the next events.
    team(&server, TEAM_1_ID);
    creature(&server, CREATURE_1_ID, TEAM_1_ID);
    assert_eq!(client_sink.receive().err(), None);
    assert_eq!(server_events(&server), 4);
    assert_eq!(client_events(&client), 4);
    assert_eq!(dummy_event(&mut *client.borrow_mut()).fire().err(), None);
    assert_eq!(client_sink.receive().err(), None);
    assert_eq!(server_events(&server), 5);
    assert_eq!(client_events(&client), 5);
    // Change server.
    assert_eq!(server_sink.sink.borrow().disconnections, 0);
    let server = self::server();
    let new_server_sink = TestServerSink::new(SERVER_1_ID, server.clone());
    client.borrow_mut().set_server_sink(new_server_sink.clone());
    assert_eq!(server_sink.sink.borrow().disconnections, 1);
    assert_eq!(
        StartRound::trigger(&mut *client.borrow_mut(), ENTITY_1_ID).fire().err(),
        Some(WeaselError::EntityNotFound(ENTITY_1_ID))
    );
    assert_eq!(server_events(&server), 0);
    assert_eq!(client_events(&client), 5);
}

#[test]
fn check_version() {
    const VERSION_NEW: u32 = 4;
    const VERSION_OLD: u32 = 2;
    let server = server_with(SimpleRules::new(VERSION_NEW));
    let server_sink = TestServerSink::new(SERVER_1_ID, server.clone());
    let client = client_with(SimpleRules::new(VERSION_OLD), server_sink.clone());
    let mut client_sink = TestClientSink::new(CLIENT_1_ID, client.clone());
    add_sink_from(&server, &client_sink, 0);
    // Events from the server are refused.
    assert_eq!(dummy_event(&mut *server.borrow_mut()).fire().err(), None);
    assert_eq!(
        client_sink.receive().err(),
        Some(WeaselError::IncompatibleVersions(VERSION_OLD, VERSION_NEW))
    );
    // Events from the client are refused.
    assert_eq!(
        dummy_event(&mut *client.borrow_mut()).fire().err(),
        Some(WeaselError::IncompatibleVersions(VERSION_OLD, VERSION_NEW))
    );
}

#[test]
fn add_client_sink() {
    let server = server();
    let server_sink = TestServerSink::new(SERVER_1_ID, server.clone());
    for _ in 0..4 {
        assert_eq!(dummy_event(&mut *server.borrow_mut()).fire().err(), None);
    }
    assert_eq!(server_events(&server), 4);
    let client = client(server_sink.clone());
    let mut client_sink = TestClientSink::new(CLIENT_1_ID, client.clone());
    // Ranges outside the history are refused.
    assert_eq!(
        server.borrow_mut().add_sink_range(client_sink.clone(), 5, 7).err(),
        Some(WeaselError::InvalidEventRange(5, 7, 4))
    );
    assert_eq!(
        server.borrow_mut().add_sink_range(client_sink.clone(), 0, 7).err(),
        Some(WeaselError::InvalidEventRange(0, 7, 4))
    );
    assert_eq!(server.borrow().client_sinks().len(), 0);
    // Attach and send the first two events.
    assert_eq!(server.borrow_mut().add_sink_range(client_sink.clone(), 0, 2).err(), None);
    assert_eq!(client_sink.receive().err(), None);
    assert_eq!(client_events(&client), 2);
    // Unknown sinks are refused.
    assert_eq!(
        server.borrow_mut().send_range(CLIENT_ERR_ID, 0, 2).err(),
        Some(WeaselError::EventSinkNotFound(CLIENT_ERR_ID))
    );
    // Send the other two events.
    assert_eq!(server.borrow_mut().send_range(CLIENT_1_ID, 2, 4).err(), None);
    assert_eq!(client_sink.receive().err(), None);
    assert_eq!(client_events(&client), 4);
}

#[test]
fn rights() {
    let server: TestServer = TestServer::builder(Battle::new(SimpleRules::new(0)))
        .enforce_authentication()
        .build();
    let server = Rc::new(RefCell::new(server));
    let server_sink = TestServerSink::new(SERVER_1_ID, server.clone());
    let client: TestClient = Client::builder(Battle::new(SimpleRules::new(0)), server_sink)
        .enable_authentication(PLAYER_1_ID)
        .build();
    let client = Rc::new(RefCell::new(client));
    assert_eq!(client.borrow().authentication(), true);
    let mut client_sink = TestClientSink::new(CLIENT_1_ID, client.clone());
    add_sink(&server, &client_sink);
    // Rights over a missing team are refused.
    assert_eq!(
        server.borrow_mut().add_right(PLAYER_1_ID, TEAM_1_ID).err(),
        Some(WeaselError::TeamNotFound(TEAM_1_ID))
    );
    team(&server, TEAM_1_ID);
    creature(&server, CREATURE_1_ID, TEAM_1_ID);
    assert_eq!(client_sink.receive().err(), None);
    assert_eq!(server.borrow_mut().add_right(PLAYER_2_ID, TEAM_1_ID).err(), None);
    // The wrong player is refused.
    assert_eq!(
        StartRound::trigger(&mut *client.borrow_mut(), ENTITY_1_ID).fire().err(),
        Some(WeaselError::AuthenticationError(Some(PLAYER_1_ID), TEAM_1_ID))
    );
    // A client without a player is refused.
    server.borrow_mut().remove_sink(CLIENT_1_ID);
    let server_sink = TestServerSink::new(SERVER_1_ID, server.clone());
    let client = self::client(server_sink.clone());
    let mut client_sink = TestClientSink::new(CLIENT_1_ID, client.clone());
    add_sink_from(&server, &client_sink, 0);
    assert_eq!(client_sink.receive().err(), None);
    assert_eq!(
        StartRound::trigger(&mut *client.borrow_mut(), ENTITY_1_ID).fire().err(),
        Some(WeaselError::MissingAuthentication)
    );
    // The player with rights is accepted.
    let server_sink = TestServerSink::new(SERVER_1_ID, server.clone());
    let client: TestClient = Client::builder(Battle::new(SimpleRules::new(0)), server_sink)
        .enable_authentication(PLAYER_2_ID)
        .build();
    let client = Rc::new(RefCell::new(client));
    let mut client_sink = TestClientSink::new(CLIENT_2_ID, client.clone());
    add_sink_from(&server, &client_sink, 0);
    assert_eq!(client_sink.receive().err(), None);
    assert_eq!(StartRound::trigger(&mut *client.borrow_mut(), ENTITY_1_ID).fire().err(), None);
}

#[test]
fn server_only_events() {
    let server = server();
    let mut server_sink = TestServerSink::new(SERVER_1_ID, server.clone());
    let client = client(server_sink.clone());
    let client_sink = TestClientSink::new(CLIENT_1_ID, client.clone());
    add_sink(&server, &client_sink);
    // The client refuses server-only events.
    assert_eq!(
        CreateTeam::trigger(&mut *client.borrow_mut(), TEAM_1_ID).fire().err(),
        Some(WeaselError::ServerOnlyEvent)
    );
    // So does the server.
    let event = ClientEventPrototype {
        event: CreateTeam::trigger(&mut *client.borrow_mut(), TEAM_1_ID).event(),
        version: 0,
        player: None,
    };
    assert_eq!(server_sink.send(&event).err(), Some(WeaselError::ServerOnlyEvent));
}

#[test]
fn client_server_serde() {
    let server = server();
    let server_sink = TestServerSink::new(SERVER_1_ID, server.clone());
    let client = client(server_sink.clone());
    let mut client_sink = TestClientSink::new(CLIENT_1_ID, client.clone());
    add_sink(&server, &client_sink);
    team(&server, TEAM_1_ID);
    creature(&server, CREATURE_1_ID, TEAM_1_ID);
    assert_eq!(client_sink.receive().err(), None);
    assert_eq!(StartRound::trigger(&mut *client.borrow_mut(), ENTITY_1_ID).fire().err(), None);
    assert_eq!(client_sink.receive().err(), None);
    let expected = vec![EventKind::CreateTeam, EventKind::CreateCreature, EventKind::StartRound];
    assert_eq!(kinds(server.borrow().battle()), expected);
    assert_eq!(kinds(client.borrow().battle()), expected);
    // Start a new server from the history.
    let history: Vec<VersionedEventWrapper> = server.borrow().battle().history().clone();
    let mut battle = Battle::new(SimpleRules::new(0));
    for event in history.into_iter() {
        assert_eq!(battle.receive(event).err(), None);
    }
    let server = Rc::new(RefCell::new(TestServer::builder(battle).build()));
    let server_sink = TestServerSink::new(SERVER_1_ID, server.clone());
    // Start a new client from the same history.
    let history: Vec<VersionedEventWrapper> = server.borrow().battle().history().clone();
    let client = self::client(server_sink.clone());
    let mut client_sink = TestClientSink::new(CLIENT_1_ID, client.clone());
    for event in history.into_iter() {
        assert_eq!(client.borrow_mut().receive(event).err(), None);
    }
    add_sink(&server, &client_sink);
    // Fire new events.
    assert_eq!(end_round(&mut *client.borrow_mut()).fire().err(), None);
    assert_eq!(RemoveCreature::trigger(&mut *server.borrow_mut(), CREATURE_1_ID).fire().err(), None);
    assert_eq!(client_sink.receive().err(), None);
    let expected = vec![
        EventKind::CreateTeam,
        EventKind::CreateCreature,
        EventKind::StartRound,
        EventKind::EndRound,
        EventKind::RemoveCreature,
    ];
    assert_eq!(kinds(server.borrow().battle()), expected);
    assert_eq!(kinds(client.borrow().battle()), expected);
}

#[test]
fn mirror_from_start_matches_server() {
    let server = server();
    team(&server, TEAM_1_ID);
    team(&server, 2);
    creature(&server, CREATURE_1_ID, TEAM_1_ID);
    assert_eq!(StartRound::trigger(&mut *server.borrow_mut(), ENTITY_1_ID).fire().err(), None);
    let server_sink = TestServerSink::new(SERVER_1_ID, server.clone());
    let client = client(server_sink);
    let mut client_sink = TestClientSink::new(CLIENT_1_ID, client.clone());
    add_sink_from(&server, &client_sink, 0);
    assert_eq!(client_sink.receive().err(), None);
    assert_eq!(server.borrow().battle().history(), client.borrow().battle().history());
    assert_eq!(server.borrow().battle().round(), client.borrow().battle().round());
    assert_eq!(
        server.borrow().battle().entities().relation(1, 2),
        client.borrow().battle().entities().relation(2, 1)
    );
}

#[test]
fn empty_range_attaches_without_sending() {
    let server = server();
    assert_eq!(dummy_event(&mut *server.borrow_mut()).fire().err(), None);
    let server_sink = TestServerSink::new(SERVER_1_ID, server.clone());
    let client = client(server_sink);
    let mut client_sink = TestClientSink::new(CLIENT_1_ID, client.clone());
    assert_eq!(server.borrow_mut().add_sink_range(client_sink.clone(), 1, 1).err(), None);
    assert_eq!(client_sink.buffer.borrow().len(), 0);
    assert_eq!(server.borrow().client_sinks(), vec![CLIENT_1_ID]);
    // A second sink under the same id is refused.
    assert_eq!(
        server.borrow_mut().add_sink(client_sink.clone()).err(),
        Some(WeaselError::DuplicatedEventSink(CLIENT_1_ID))
    );
    assert_eq!(client_sink.receive().err(), None);
}

#[test]
fn events_round_trip_through_kinds() {
    let event = Event::DummyEvent;
    assert_eq!(event.kind(), EventKind::DummyEvent);
    assert!(!event.server_only());
    assert!(Event::RemoveCreature(weasel::event::RemoveCreature { id: 3 }).server_only());
}

#[test]
fn client_prototype_carries_version_and_player() {
    let server = server_with(SimpleRules::new(3));
    let server_sink = TestServerSink::new(SERVER_1_ID, server.clone());
    let client: TestClient = Client::builder(Battle::new(SimpleRules::new(3)), server_sink)
        .enable_authentication(PLAYER_2_ID)
        .build();
    let prototype = client.prototype(Event::EndRound);
    assert_eq!(prototype.event, Event::EndRound);
    assert_eq!(prototype.version, 3);
    assert_eq!(prototype.player, Some(PLAYER_2_ID));
    assert_eq!(client.server_sink().id(), SERVER_1_ID);
}

#[test]
fn attached_sinks_receive_each_new_event_once() {
    let server = server();
    let server_sink = TestServerSink::new(SERVER_1_ID, server.clone());
    let client_1 = client(server_sink.clone());
    let client_2 = client(server_sink.clone());
    let sink_1 = TestClientSink::new(CLIENT_1_ID, client_1.clone());
    let sink_2 = TestClientSink::new(CLIENT_2_ID, client_2.clone());
    add_sink(&server, &sink_1);
    assert_eq!(dummy_event(&mut *server.borrow_mut()).fire().err(), None);
    add_sink(&server, &sink_2);
    team(&server, TEAM_1_ID);
    let ids_1: Vec<u64> = sink_1.buffer.borrow().iter().map(|e| e.id).collect();
    let ids_2: Vec<u64> = sink_2.buffer.borrow().iter().map(|e| e.id).collect();
    assert_eq!(ids_1, vec![0, 1]);
    assert_eq!(ids_2, vec![1]);
    assert_eq!(sink_1.buffer.borrow()[1], server.borrow().battle().history()[1]);
}
