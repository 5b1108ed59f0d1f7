//! The client: a mirror of the server's battle that sends its events upstream.
use crate::battle::{as_result, spec_receive, Battle};
use crate::error::WeaselError;
use crate::event::{spec_server_only, ClientEventPrototype, Event, EventProcessor, VersionedEventWrapper};
use crate::rules::BattleRules;
use crate::sink::ServerSink;
use vstd::prelude::*;

verus! {

/// Builds a client.
pub struct ClientBuilder<R: BattleRules, S: ServerSink> {
    battle: Battle<R>,
    server_sink: S,
    player: Option<u64>,
}

impl<R: BattleRules, S: ServerSink> ClientBuilder<R, S> {
    pub closed spec fn spec_battle(&self) -> Battle<R> {
        self.battle
    }

    pub closed spec fn spec_player(&self) -> Option<u64> {
        self.player
    }

    /// Attaches the player on whose behalf the client acts to every event it fires.
    pub fn enable_authentication(self, player: u64) -> (r: ClientBuilder<R, S>)
        ensures
            r.spec_battle() == self.spec_battle(),
            r.spec_player() == Some(player),
    {
        ClientBuilder { battle: self.battle, server_sink: self.server_sink, player: Some(player) }
    }

    /// Builds the client.
    pub fn build(self) -> (r: Client<R, S>)
        requires
            self.spec_battle().wf(),
        ensures
            r.wf(),
            r.spec_battle() == self.spec_battle(),
            r.spec_player() == self.spec_player(),
    {
        Client { battle: self.battle, server_sink: self.server_sink, player: self.player }
    }
}

/// A peer that mirrors the server's battle: it applies only what the server sends,
/// in order, and sends the events it fires to the server.
pub struct Client<R: BattleRules, S: ServerSink> {
    battle: Battle<R>,
    server_sink: S,
    player: Option<u64>,
}

impl<R: BattleRules, S: ServerSink> Client<R, S> {
    pub closed spec fn spec_battle(&self) -> Battle<R> {
        self.battle
    }

    pub closed spec fn spec_player(&self) -> Option<u64> {
        self.player
    }

    /// The sink that leads to the server.
    pub closed spec fn spec_server_sink(&self) -> S {
        self.server_sink
    }

    pub open spec fn wf(&self) -> bool {
        self.spec_battle().wf()
    }

    /// The prototype that this client sends for `event`.
    pub open spec fn spec_prototype(&self, event: Event) -> ClientEventPrototype {
        ClientEventPrototype {
            event,
            version: self.spec_battle().spec_rules().spec_version(),
            player: self.spec_player(),
        }
    }

    /// Starts building a client around a battle and the sink that leads to its server.
    pub fn builder(battle: Battle<R>, server_sink: S) -> (r: ClientBuilder<R, S>)
        ensures
            r.spec_battle() == battle,
            r.spec_player() is None,
    {
        ClientBuilder { battle, server_sink, player: None }
    }

    /// Returns the battle.
    pub fn battle(&self) -> (r: &Battle<R>)
        ensures
            *r == self.spec_battle(),
    {
        &self.battle
    }

    /// Returns the player on whose behalf the client acts.
    pub fn player(&self) -> (r: Option<u64>)
        ensures
            r == self.spec_player(),
    {
        self.player
    }

    /// Returns true when the client acts on behalf of a player.
    pub fn authentication(&self) -> (r: bool)
        ensures
            r == self.spec_player() is Some,
    {
        self.player.is_some()
    }

    /// Returns the sink that leads to the server.
    pub fn server_sink(&self) -> (r: &S)
        ensures
            *r == self.spec_server_sink(),
    {
        &self.server_sink
    }

    /// Replaces the sink that leads to the server; the old one is told that it was
    /// detached.
    pub fn set_server_sink(&mut self, sink: S)
        requires
            old(self).wf(),
        ensures
            final(self).wf(),
            final(self).spec_battle() == old(self).spec_battle(),
            final(self).spec_player() == old(self).spec_player(),
            final(self).spec_server_sink() == sink,
    {
        let mut sink = sink;
        std::mem::swap(&mut self.server_sink, &mut sink);
        sink.on_disconnect();
    }

    /// Takes an event that the server applied.
    pub fn receive(&mut self, event: VersionedEventWrapper) -> (r: Result<(), WeaselError>)
        requires
            old(self).wf(),
        ensures
            final(self).wf(),
            final(self).spec_player() == old(self).spec_player(),
            final(self).spec_battle().spec_rules() == old(self).spec_battle().spec_rules(),
            final(self).spec_battle()@ == spec_receive(
                old(self).spec_battle().spec_rules(),
                old(self).spec_battle()@,
                event,
            ).0,
            r == as_result(
                spec_receive(old(self).spec_battle().spec_rules(), old(self).spec_battle()@, event).1,
            ),
    {
        self.battle.receive(event)
    }

    /// Builds the prototype of `event`: stamped with this client's rules version and
    /// player.
    pub fn prototype(&self, event: Event) -> (r: ClientEventPrototype)
        ensures
            r == self.spec_prototype(event),
    {
        ClientEventPrototype { event, version: self.battle.version(), player: self.player }
    }

    /// Sends an event to the server as a prototype stamped with this client's rules
    /// version and player, and returns what the sink returned. Events reserved to
    /// the server are refused here. The battle changes only when the server sends
    /// the event back.
    pub fn fire(&mut self, event: Event) -> (r: Result<(), WeaselError>)
        requires
            old(self).wf(),
        ensures
            fired(*old(self), *final(self), event, r),
    {
        if event.server_only() {
            return Err(WeaselError::ServerOnlyEvent);
        }
        let prototype = self.prototype(event);
        self.server_sink.send(&prototype)
    }
}

/// What firing `event` does to a client: the battle and player stay; an event
/// reserved to the server is refused and sends nothing; any other is sent as the
/// client's prototype, recorded by the sink where the sink succeeds.
pub open spec fn fired<R: BattleRules, S: ServerSink>(
    before: Client<R, S>,
    after: Client<R, S>,
    event: Event,
    r: Result<(), WeaselError>,
) -> bool {
    &&& after.wf()
    &&& after.spec_battle() == before.spec_battle()
    &&& after.spec_player() == before.spec_player()
    &&& after.spec_server_sink().spec_disconnections() == before.spec_server_sink().spec_disconnections()
    &&& spec_server_only(event) ==> r == Err::<(), WeaselError>(WeaselError::ServerOnlyEvent)
        && after.spec_server_sink() == before.spec_server_sink()
    &&& (!spec_server_only(event) && r is Ok) ==> after.spec_server_sink().spec_sent()
        == before.spec_server_sink().spec_sent().push(before.spec_prototype(event))
    &&& (!spec_server_only(event) && r is Err) ==> after.spec_server_sink().spec_sent()
        == before.spec_server_sink().spec_sent()
}

impl<R: BattleRules, S: ServerSink> EventProcessor for Client<R, S> {
    open spec fn processor_wf(&self) -> bool {
        self.wf()
    }

    open spec fn spec_processed(&self, after: &Self, event: Event, r: Result<(), WeaselError>) -> bool {
        fired(*self, *after, event, r)
    }

    /// Sends the event to the server.
    fn process(&mut self, event: Event) -> (r: Result<(), WeaselError>) {
        self.fire(event)
    }
}

} // verus!
