//! The server: the authority that fires events and fans them out to client sinks.
use crate::battle::{as_result, cascade, lemma_replay_mirrors, receive_all, Battle, BattleState, BattleView, RoundState, MAX_CASCADE};
use crate::entities::Entities;
use crate::entity::EntityId;
use crate::error::WeaselError;
use crate::event::{spec_server_only, ClientEventPrototype, Event, EventProcessor, VersionedEventWrapper};
use crate::rules::BattleRules;
use crate::sink::ClientSink;
use vstd::prelude::*;

verus! {

/// The team on whose behalf an event acts, where there is one.
pub open spec fn target_team(st: BattleState, e: Event) -> Option<u64> {
    let ents = st.entities;
    match e {
        Event::CreateTeam(c) => Some(c.id),
        Event::ConcludeObjectives(c) => Some(c.id),
        Event::ResetObjectives(r) => Some(r.id),
        Event::RemoveTeam(r) => Some(r.id),
        Event::CreateCreature(c) => Some(c.team_id),
        Event::RemoveCreature(r) => ents.entity_team(EntityId::Creature(r.id)),
        Event::RegenerateStatistics(r) => ents.entity_team(r.id),
        Event::RegenerateAbilities(r) => ents.entity_team(r.id),
        Event::AlterStatistics(a) => ents.entity_team(a.id),
        Event::AlterAbilities(a) => ents.entity_team(a.id),
        Event::StartRound(s) => ents.entity_team(s.id),
        Event::EndRound => match st.round {
            RoundState::Started(actor) => ents.entity_team(actor),
            RoundState::Ready => None,
        },
        _ => None,
    }
}

/// Why the server refuses an event from a client before verifying it, if it does.
pub open spec fn client_error(
    version: u32,
    authentication: bool,
    b: BattleView,
    proto: ClientEventPrototype,
) -> Option<WeaselError> {
    if proto.version != version {
        Some(WeaselError::IncompatibleVersions(proto.version, version))
    } else if spec_server_only(proto.event) {
        Some(WeaselError::ServerOnlyEvent)
    } else if authentication && proto.player is None {
        Some(WeaselError::MissingAuthentication)
    } else if authentication && target_team(b.state, proto.event) is Some && !b.rights.contains(
        (proto.player->0, target_team(b.state, proto.event)->0),
    ) {
        Some(WeaselError::AuthenticationError(proto.player, target_team(b.state, proto.event)->0))
    } else {
        None
    }
}

fn entity_team(ents: &Entities, id: EntityId) -> (r: Option<u64>)
    requires
        ents@.wf(),
    ensures
        r == ents@.entity_team(id),
{
    match id {
        EntityId::Creature(c) => match ents.creature(c) {
            Some(cr) => Some(cr.team_id),
            None => None,
        },
        EntityId::Object(_) => None,
    }
}

/// The ids of attached sinks, in the order of attachment.
pub open spec fn ids_of<S>(sinks: Seq<(u64, S)>) -> Seq<u64> {
    sinks.map_values(|p: (u64, S)| p.0)
}

/// `after` is the sink `before` having received `events` on top of what it had,
/// under the same id and with as many disconnections.
pub open spec fn fed<S: ClientSink>(before: S, after: S, events: Seq<VersionedEventWrapper>) -> bool {
    &&& after.spec_id() == before.spec_id()
    &&& after.spec_disconnections() == before.spec_disconnections()
    &&& after.spec_received() == before.spec_received() + events
}

/// Every sink of `after` was attached in `before` under the same id, and has since
/// received `events`.
pub open spec fn all_fed<S: ClientSink>(
    before: Seq<(u64, S)>,
    after: Seq<(u64, S)>,
    events: Seq<VersionedEventWrapper>,
) -> bool {
    forall|k: int|
        #![trigger after[k]]
        0 <= k < after.len() ==> exists|j: int|
            #![trigger before[j]]
            0 <= j < before.len() && before[j].0 == after[k].0 && fed(before[j].1, after[k].1, events)
}

/// `after` is `before` with `sink` attached last, under its id, having received `events`.
pub open spec fn attached<S: ClientSink>(
    before: Seq<(u64, S)>,
    after: Seq<(u64, S)>,
    sink: S,
    events: Seq<VersionedEventWrapper>,
) -> bool {
    &&& after.len() == before.len() + 1
    &&& after.drop_last() == before
    &&& after.last().0 == sink.spec_id()
    &&& fed(sink, after.last().1, events)
}

/// The position of the sink `id`; meaningful where it is attached.
pub open spec fn sink_index<S>(sinks: Seq<(u64, S)>, id: u64) -> int {
    choose|k: int| 0 <= k < sinks.len() && sinks[k].0 == id
}

proof fn lemma_sink_index<S>(sinks: Seq<(u64, S)>, k: int)
    requires
        0 <= k < sinks.len(),
        ids_of(sinks).no_duplicates(),
    ensures
        sink_index(sinks, sinks[k].0) == k,
{
    let i = sink_index(sinks, sinks[k].0);
    assert(ids_of(sinks)[i] == ids_of(sinks)[k]);
}

/// What firing `event` as the authority does to a server: the battle runs the event
/// and its follow-ups, and every sink still attached received the new events.
pub open spec fn served<R: BattleRules, S: ClientSink>(
    before: Server<R, S>,
    after: Server<R, S>,
    event: Event,
    r: Result<(), WeaselError>,
) -> bool {
    let rules = before.spec_battle().spec_rules();
    let (b, err) = cascade(rules, before.spec_battle()@, seq![event], MAX_CASCADE as nat);
    &&& after.wf()
    &&& after.spec_authentication() == before.spec_authentication()
    &&& after.spec_battle().spec_rules() == rules
    &&& after.spec_battle()@ == b
    &&& r == as_result(err)
    &&& all_fed(
        before.spec_sinks(),
        after.spec_sinks(),
        b.history.subrange(before.spec_battle()@.history.len() as int, b.history.len() as int),
    )
}

/// Attaching from the start: a sink that had received nothing, attached with the
/// whole history, holds that history in id order; and a fresh client with the same
/// rules that receives what the sink holds accepts every event and ends with the
/// server's state and history.
pub proof fn lemma_attach_from_start_mirrors<R: BattleRules, S: ClientSink>(
    before: Server<R, S>,
    after: Server<R, S>,
    sink: S,
)
    requires
        before.wf(),
        sink.spec_received() == Seq::<VersionedEventWrapper>::empty(),
        attached(
            before.spec_sinks(),
            after.spec_sinks(),
            sink,
            before.spec_battle()@.history.subrange(0, before.spec_battle()@.history.len() as int),
        ),
    ensures
        after.spec_sinks().last().1.spec_received() == before.spec_battle()@.history,
        receive_all(
            before.spec_battle().spec_rules(),
            BattleView::fresh(),
            after.spec_sinks().last().1.spec_received(),
        ) == (
            BattleView {
                state: before.spec_battle()@.state,
                rights: Seq::empty(),
                history: before.spec_battle()@.history,
            },
            None::<WeaselError>,
        ),
{
    let h = before.spec_battle()@.history;
    assert(Seq::<VersionedEventWrapper>::empty() + h.subrange(0, h.len() as int) =~= h);
    lemma_replay_mirrors(&before.spec_battle());
}

/// Builds a server.
pub struct ServerBuilder<R: BattleRules> {
    battle: Battle<R>,
    authentication: bool,
}

impl<R: BattleRules> ServerBuilder<R> {
    /// Requires every client event to carry a player with rights over its team.
    pub fn enforce_authentication(self) -> (r: ServerBuilder<R>)
        ensures
            r.spec_battle() == self.spec_battle(),
            r.spec_authentication(),
    {
        ServerBuilder { battle: self.battle, authentication: true }
    }

    pub closed spec fn spec_battle(&self) -> Battle<R> {
        self.battle
    }

    pub closed spec fn spec_authentication(&self) -> bool {
        self.authentication
    }

    /// Builds the server, with no sinks attached.
    pub fn build<S: ClientSink>(self) -> (r: Server<R, S>)
        requires
            self.spec_battle().wf(),
        ensures
            r.wf(),
            r.spec_battle() == self.spec_battle(),
            r.spec_authentication() == self.spec_authentication(),
            r.sink_ids() == Seq::<u64>::empty(),
    {
        let s = Server { battle: self.battle, sinks: Vec::new(), authentication: self.authentication };
        assert(s.sink_ids() =~= Seq::<u64>::empty());
        s
    }
}

/// The authority of a battle: verifies and applies events, enforces players'
/// rights and delivers every applied event to the attached client sinks.
pub struct Server<R: BattleRules, S: ClientSink> {
    battle: Battle<R>,
    sinks: Vec<(u64, S)>,
    authentication: bool,
}

impl<R: BattleRules, S: ClientSink> Server<R, S> {
    pub closed spec fn spec_battle(&self) -> Battle<R> {
        self.battle
    }

    pub closed spec fn spec_authentication(&self) -> bool {
        self.authentication
    }

    /// The attached sinks with their ids, in the order of attachment.
    pub closed spec fn spec_sinks(&self) -> Seq<(u64, S)> {
        self.sinks@
    }

    /// The ids of the attached sinks, in the order of attachment.
    pub open spec fn sink_ids(&self) -> Seq<u64> {
        ids_of(self.spec_sinks())
    }

    pub open spec fn wf(&self) -> bool {
        self.spec_battle().wf() && self.sink_ids().no_duplicates()
    }

    /// Starts building a server around a battle.
    pub fn builder(battle: Battle<R>) -> (r: ServerBuilder<R>)
        ensures
            r.spec_battle() == battle,
            !r.spec_authentication(),
    {
        ServerBuilder { battle, authentication: false }
    }

    /// Returns the battle.
    pub fn battle(&self) -> (r: &Battle<R>)
        ensures
            *r == self.spec_battle(),
    {
        &self.battle
    }

    /// Returns the ids of the attached sinks.
    pub fn client_sinks(&self) -> (r: Vec<u64>)
        ensures
            r@ == self.sink_ids(),
    {
        let mut out: Vec<u64> = Vec::new();
        let mut i: usize = 0;
        while i < self.sinks.len()
            invariant
                i <= self.sinks.len(),
                out@ == ids_of(self.sinks@.take(i as int)),
            decreases self.sinks.len() - i,
        {
            out.push(self.sinks[i].0);
            i += 1;
            assert(out@ =~= ids_of(self.sinks@.take(i as int)));
        }
        assert(self.sinks@.take(self.sinks.len() as int) == self.sinks@);
        out
    }

    /// Returns true when authentication is enforced.
    pub fn authentication(&self) -> (r: bool)
        ensures
            r == self.spec_authentication(),
    {
        self.authentication
    }

    /// Grants `player` the right to act for `team`, which must exist.
    pub fn add_right(&mut self, player: u64, team: u64) -> (r: Result<(), WeaselError>)
        requires
            old(self).wf(),
        ensures
            final(self).wf(),
            final(self).sink_ids() == old(self).sink_ids(),
            final(self).spec_authentication() == old(self).spec_authentication(),
            final(self).spec_battle().spec_rules() == old(self).spec_battle().spec_rules(),
            r is Err <==> !old(self).spec_battle()@.state.entities.has_team(team),
            r matches Err(e) ==> e == WeaselError::TeamNotFound(team) && final(self).spec_battle()@
                == old(self).spec_battle()@,
            r is Ok ==> final(self).spec_battle()@ == (BattleView {
                rights: if old(self).spec_battle()@.rights.contains((player, team)) {
                    old(self).spec_battle()@.rights
                } else {
                    old(self).spec_battle()@.rights.push((player, team))
                },
                ..old(self).spec_battle()@
            }),
    {
        self.battle.add_right(player, team)
    }

    /// Withdraws the right of `player` to act for `team`.
    pub fn remove_right(&mut self, player: u64, team: u64)
        requires
            old(self).wf(),
        ensures
            final(self).wf(),
            final(self).sink_ids() == old(self).sink_ids(),
            final(self).spec_authentication() == old(self).spec_authentication(),
            final(self).spec_battle().spec_rules() == old(self).spec_battle().spec_rules(),
            final(self).spec_battle()@ == (BattleView {
                rights: crate::battle::rights_without_pair(old(self).spec_battle()@.rights, player, team),
                ..old(self).spec_battle()@
            }),
    {
        self.battle.remove_right(player, team);
    }

    /// Withdraws every right over `team`.
    pub fn remove_team_rights(&mut self, team: u64)
        requires
            old(self).wf(),
        ensures
            final(self).wf(),
            final(self).sink_ids() == old(self).sink_ids(),
            final(self).spec_authentication() == old(self).spec_authentication(),
            final(self).spec_battle().spec_rules() == old(self).spec_battle().spec_rules(),
            final(self).spec_battle()@ == (BattleView {
                rights: crate::battle::rights_without_team(old(self).spec_battle()@.rights, team),
                ..old(self).spec_battle()@
            }),
    {
        self.battle.remove_team_rights(team);
    }

    fn find_sink(&self, id: u64) -> (r: Option<usize>)
        ensures
            r is None <==> !self.sink_ids().contains(id),
            r matches Some(k) ==> k < self.sink_ids().len() && self.sink_ids()[k as int] == id,
    {
        let mut k: usize = 0;
        while k < self.sinks.len()
            invariant
                k <= self.sinks.len(),
                forall|j: int| 0 <= j < k ==> self.sinks@[j].0 != id,
            decreases self.sinks.len() - k,
        {
            if self.sinks[k].0 == id {
                assert(self.sink_ids()[k as int] == id);
                return Some(k);
            }
            k += 1;
        }
        assert forall|j: int| 0 <= j < self.sink_ids().len() implies self.sink_ids()[j] != id by {
            assert(self.sink_ids()[j] == self.sinks@[j].0);
        }
        None
    }

    /// Sends the events `start..end` of the history to `sink`, in order; stops at the
    /// first failure and returns it.
    fn send_events(battle: &Battle<R>, sink: &mut S, start: usize, end: usize) -> (r: Result<
        (),
        WeaselError,
    >)
        requires
            start <= end <= battle@.history.len(),
        ensures
            start == end ==> r is Ok,
            final(sink).spec_id() == old(sink).spec_id(),
            final(sink).spec_disconnections() == old(sink).spec_disconnections(),
            r is Ok ==> final(sink).spec_received() == old(sink).spec_received()
                + battle@.history.subrange(start as int, end as int),
    {
        let history = battle.history();
        let ghost before = *sink;
        let mut i: usize = start;
        while i < end
            invariant
                start <= i <= end,
                end <= history@.len(),
                history@ == battle@.history,
                before == *old(sink),
                sink.spec_id() == before.spec_id(),
                sink.spec_disconnections() == before.spec_disconnections(),
                sink.spec_received() == before.spec_received() + history@.subrange(start as int, i as int),
            decreases end - i,
        {
            if let Err(e) = sink.send(&history[i]) {
                return Err(e);
            }
            assert(history@.subrange(start as int, i + 1) == history@.subrange(start as int, i as int).push(
                history@[i as int],
            ));
            i += 1;
        }
        assert(history@.subrange(start as int, start as int) =~= Seq::<VersionedEventWrapper>::empty());
        Ok(())
    }

    /// Delivers the events from `from` on to every attached sink; a sink whose send
    /// fails is detached and told so.
    fn broadcast(&mut self, from: usize)
        requires
            old(self).wf(),
            from <= old(self).spec_battle()@.history.len(),
        ensures
            final(self).wf(),
            final(self).spec_battle() == old(self).spec_battle(),
            final(self).spec_authentication() == old(self).spec_authentication(),
            all_fed(
                old(self).spec_sinks(),
                final(self).spec_sinks(),
                old(self).spec_battle()@.history.subrange(
                    from as int,
                    old(self).spec_battle()@.history.len() as int,
                ),
            ),
    {
        let ghost orig = self.sinks@;
        let ghost events = self.battle@.history.subrange(from as int, self.battle@.history.len() as int);
        let end = self.battle.history().len();
        let mut remaining: Vec<(u64, S)> = Vec::new();
        std::mem::swap(&mut self.sinks, &mut remaining);
        let ghost mut i: int = 0;
        assert(ids_of(self.sinks@) + ids_of(remaining@) =~= ids_of(orig));
        assert(remaining@ =~= orig.subrange(0, orig.len() as int));
        while remaining.len() > 0
            invariant
                self.battle == old(self).spec_battle(),
                self.authentication == old(self).spec_authentication(),
                from <= end == self.battle@.history.len(),
                events == self.battle@.history.subrange(from as int, end as int),
                0 <= i <= orig.len(),
                remaining@ == orig.subrange(i, orig.len() as int),
                (ids_of(self.sinks@) + ids_of(remaining@)).no_duplicates(),
                all_fed(orig, self.sinks@, events),
            decreases remaining.len(),
        {
            let ghost both = ids_of(self.sinks@) + ids_of(remaining@);
            let ghost n = self.sinks@.len();
            let ghost kept = self.sinks@;
            assert(remaining@[0] == orig[i]);
            let (id, mut sink) = remaining.remove(0);
            let ghost sink_before = sink;
            match Self::send_events(&self.battle, &mut sink, from, end) {
                Ok(()) => {
                    self.sinks.push((id, sink));
                    assert(ids_of(self.sinks@) + ids_of(remaining@) =~= both);
                    assert forall|k: int| #![trigger self.sinks@[k]] 0 <= k < self.sinks@.len() implies exists|j: int|
                        #![trigger orig[j]]
                        0 <= j < orig.len() && orig[j].0 == self.sinks@[k].0 && fed(
                            orig[j].1,
                            self.sinks@[k].1,
                            events,
                        ) by {
                        if k == n {
                            assert(orig[i].0 == self.sinks@[k].0);
                        } else {
                            assert(self.sinks@[k] == kept[k]);
                        }
                    }
                },
                Err(_) => {
                    sink.on_disconnect();
                    let ghost now = ids_of(self.sinks@) + ids_of(remaining@);
                    assert(now =~= both.remove(n as int));
                    assert forall|a: int, b: int| 0 <= a < now.len() && 0 <= b < now.len() && a != b implies now[a] != now[b] by {
                        let a2 = if a < n { a } else { a + 1 };
                        let b2 = if b < n { b } else { b + 1 };
                        assert(now[a] == both[a2] && now[b] == both[b2]);
                    }
                },
            }
            proof {
                i = i + 1;
            }
            assert(remaining@ =~= orig.subrange(i, orig.len() as int));
        }
        assert(ids_of(self.sinks@) + ids_of(remaining@) =~= ids_of(self.sinks@));
    }

    /// Attaches `sink` and sends it the events `start..end` of the history. The range
    /// must lie within the history and the sink's id must be free. A sink whose send
    /// fails is detached again and told so, and its error is returned; an empty range
    /// sends nothing and always succeeds.
    pub fn add_sink_range(&mut self, sink: S, start: u64, end: u64) -> (r: Result<(), WeaselError>)
        requires
            old(self).wf(),
        ensures
            final(self).wf(),
            final(self).spec_battle() == old(self).spec_battle(),
            final(self).spec_authentication() == old(self).spec_authentication(),
            ({
                let len = old(self).spec_battle()@.history.len();
                let invalid = end > len || start > end;
                let taken = old(self).sink_ids().contains(sink.spec_id());
                &&& invalid ==> r == Err::<(), WeaselError>(
                    WeaselError::InvalidEventRange(start, end, len as u64),
                ) && final(self).spec_sinks() == old(self).spec_sinks()
                &&& (!invalid && taken) ==> r == Err::<(), WeaselError>(
                    WeaselError::DuplicatedEventSink(sink.spec_id()),
                ) && final(self).spec_sinks() == old(self).spec_sinks()
                &&& (!invalid && !taken) ==> ((r is Ok && attached(
                    old(self).spec_sinks(),
                    final(self).spec_sinks(),
                    sink,
                    old(self).spec_battle()@.history.subrange(start as int, end as int),
                )) || (r is Err && final(self).spec_sinks() == old(self).spec_sinks()))
                &&& (!invalid && !taken && start == end) ==> r is Ok
            }),
    {
        let len = self.battle.history().len();
        if end > len as u64 || start > end {
            return Err(WeaselError::InvalidEventRange(start, end, len as u64));
        }
        let mut sink = sink;
        let ghost sink0 = sink;
        let id = sink.id();
        if self.find_sink(id).is_some() {
            return Err(WeaselError::DuplicatedEventSink(id));
        }
        if let Err(e) = Self::send_events(&self.battle, &mut sink, start as usize, end as usize) {
            sink.on_disconnect();
            return Err(e);
        }
        let ghost before = self.sinks@;
        self.sinks.push((id, sink));
        assert(self.sink_ids() =~= old(self).sink_ids().push(id));
        assert(self.sinks@.drop_last() == before);
        Ok(())
    }

    /// Attaches `sink` and sends it the history from `start` on.
    pub fn add_sink_from(&mut self, sink: S, start: u64) -> (r: Result<(), WeaselError>)
        requires
            old(self).wf(),
        ensures
            final(self).wf(),
            final(self).spec_battle() == old(self).spec_battle(),
            final(self).spec_authentication() == old(self).spec_authentication(),
            ({
                let len = old(self).spec_battle()@.history.len();
                let taken = old(self).sink_ids().contains(sink.spec_id());
                &&& start > len ==> r == Err::<(), WeaselError>(
                    WeaselError::InvalidEventRange(start, len as u64, len as u64),
                ) && final(self).spec_sinks() == old(self).spec_sinks()
                &&& (start <= len && taken) ==> r == Err::<(), WeaselError>(
                    WeaselError::DuplicatedEventSink(sink.spec_id()),
                ) && final(self).spec_sinks() == old(self).spec_sinks()
                &&& (start <= len && !taken) ==> ((r is Ok && attached(
                    old(self).spec_sinks(),
                    final(self).spec_sinks(),
                    sink,
                    old(self).spec_battle()@.history.subrange(start as int, len as int),
                )) || (r is Err && final(self).spec_sinks() == old(self).spec_sinks()))
                &&& (start == len && !taken) ==> r is Ok
            }),
    {
        let len = self.battle.history().len() as u64;
        self.add_sink_range(sink, start, len)
    }

    /// Attaches `sink` from the next event on, sending it nothing now.
    pub fn add_sink(&mut self, sink: S) -> (r: Result<(), WeaselError>)
        requires
            old(self).wf(),
        ensures
            final(self).wf(),
            final(self).spec_battle() == old(self).spec_battle(),
            final(self).spec_authentication() == old(self).spec_authentication(),
            old(self).sink_ids().contains(sink.spec_id()) ==> r == Err::<(), WeaselError>(
                WeaselError::DuplicatedEventSink(sink.spec_id()),
            ) && final(self).spec_sinks() == old(self).spec_sinks(),
            !old(self).sink_ids().contains(sink.spec_id()) ==> r is Ok && attached(
                old(self).spec_sinks(),
                final(self).spec_sinks(),
                sink,
                Seq::empty(),
            ),
    {
        let len = self.battle.history().len() as u64;
        let r = self.add_sink_range(sink, len, len);
        assert(self.spec_battle()@.history.subrange(len as int, len as int) =~= Seq::<VersionedEventWrapper>::empty());
        r
    }

    /// Sends the events `start..end` of the history again to the attached sink `id`.
    /// A sink whose send fails is detached and told so, and its error is returned;
    /// an empty range sends nothing and always succeeds.
    pub fn send_range(&mut self, id: u64, start: u64, end: u64) -> (r: Result<(), WeaselError>)
        requires
            old(self).wf(),
        ensures
            final(self).wf(),
            final(self).spec_battle() == old(self).spec_battle(),
            final(self).spec_authentication() == old(self).spec_authentication(),
            ({
                let len = old(self).spec_battle()@.history.len();
                let invalid = end > len || start > end;
                let found = old(self).sink_ids().contains(id);
                let k = sink_index(old(self).spec_sinks(), id);
                let sinks = old(self).spec_sinks();
                &&& !found ==> r == Err::<(), WeaselError>(WeaselError::EventSinkNotFound(id))
                    && final(self).spec_sinks() == sinks
                &&& (found && invalid) ==> r == Err::<(), WeaselError>(
                    WeaselError::InvalidEventRange(start, end, len as u64),
                ) && final(self).spec_sinks() == sinks
                &&& (found && !invalid) ==> ((r is Ok && final(self).spec_sinks().len() == sinks.len()
                    && final(self).spec_sinks()[k].0 == id && fed(
                    sinks[k].1,
                    final(self).spec_sinks()[k].1,
                    old(self).spec_battle()@.history.subrange(start as int, end as int),
                ) && forall|j: int|
                    0 <= j < sinks.len() && j != k ==> #[trigger] final(self).spec_sinks()[j]
                        == sinks[j]) || (r is Err && final(self).spec_sinks() == sinks.remove(k)))
                &&& (found && start == end && end <= len) ==> r is Ok
            }),
    {
        let k = match self.find_sink(id) {
            None => {
                return Err(WeaselError::EventSinkNotFound(id));
            },
            Some(k) => k,
        };
        let len = self.battle.history().len();
        if end > len as u64 || start > end {
            return Err(WeaselError::InvalidEventRange(start, end, len as u64));
        }
        let ghost ids = self.sink_ids();
        let ghost sinks = self.sinks@;
        proof {
            assert(ids[k as int] == sinks[k as int].0);
            lemma_sink_index(sinks, k as int);
        }
        let (sid, mut sink) = self.sinks.remove(k);
        assert(self.sink_ids() =~= ids.remove(k as int));
        match Self::send_events(&self.battle, &mut sink, start as usize, end as usize) {
            Ok(()) => {
                self.sinks.insert(k, (sid, sink));
                assert(self.sink_ids() =~= ids);
                assert forall|j: int| 0 <= j < sinks.len() && j != k implies #[trigger] self.sinks@[j] == sinks[j] by {}
                Ok(())
            },
            Err(e) => {
                sink.on_disconnect();
                let ghost now = self.sink_ids();
                assert forall|i: int, j: int| 0 <= i < now.len() && 0 <= j < now.len() && i != j implies now[i] != now[j] by {
                    let i2 = if i < k { i } else { i + 1 };
                    let j2 = if j < k { j } else { j + 1 };
                    assert(now[i] == ids[i2] && now[j] == ids[j2]);
                }
                Err(e)
            },
        }
    }


    /// Detaches the sink `id`, if it is attached, and tells it so.
    pub fn remove_sink(&mut self, id: u64)
        requires
            old(self).wf(),
        ensures
            final(self).wf(),
            final(self).spec_battle() == old(self).spec_battle(),
            final(self).spec_authentication() == old(self).spec_authentication(),
            !final(self).sink_ids().contains(id),
            forall|x: u64| x != id ==> (#[trigger] final(self).sink_ids().contains(x) <==> old(self).sink_ids().contains(x)),
    {
        if let Some(k) = self.find_sink(id) {
            let ghost ids = self.sink_ids();
            let (_, mut sink) = self.sinks.remove(k);
            sink.on_disconnect();
            let ghost now = self.sink_ids();
            assert(now =~= ids.remove(k as int));
            assert forall|i: int, j: int| 0 <= i < now.len() && 0 <= j < now.len() && i != j implies now[i] != now[j] by {
                let i2 = if i < k { i } else { i + 1 };
                let j2 = if j < k { j } else { j + 1 };
                assert(now[i] == ids[i2] && now[j] == ids[j2]);
            }
            assert forall|x: u64| x != id implies (#[trigger] now.contains(x) <==> ids.contains(x)) by {
                if ids.contains(x) {
                    let i = choose|i: int| 0 <= i < ids.len() && ids[i] == x;
                    assert(i != k);
                    let i2 = if i < k { i } else { i - 1 };
                    assert(now[i2] == ids[i]);
                }
                if now.contains(x) {
                    let i = choose|i: int| 0 <= i < now.len() && now[i] == x;
                    let i2 = if i < k { i } else { i + 1 };
                    assert(now[i] == ids[i2]);
                }
            }
            assert(!now.contains(id)) by {
                if now.contains(id) {
                    let i = choose|i: int| 0 <= i < now.len() && now[i] == id;
                    let i2 = if i < k { i } else { i + 1 };
                    assert(now[i] == ids[i2]);
                }
            }
        }
    }


    /// Fires an event as the authority: the battle processes it with its follow-ups,
    /// and every event applied is then delivered to the attached sinks.
    pub fn process_server(&mut self, event: Event) -> (r: Result<(), WeaselError>)
        requires
            old(self).wf(),
        ensures
            final(self).wf(),
            final(self).spec_authentication() == old(self).spec_authentication(),
            final(self).spec_battle().spec_rules() == old(self).spec_battle().spec_rules(),
            final(self).spec_battle()@ == cascade(
                old(self).spec_battle().spec_rules(),
                old(self).spec_battle()@,
                seq![event],
                MAX_CASCADE as nat,
            ).0,
            r == as_result(
                cascade(
                    old(self).spec_battle().spec_rules(),
                    old(self).spec_battle()@,
                    seq![event],
                    MAX_CASCADE as nat,
                ).1,
            ),
            all_fed(
                old(self).spec_sinks(),
                final(self).spec_sinks(),
                final(self).spec_battle()@.history.subrange(
                    old(self).spec_battle()@.history.len() as int,
                    final(self).spec_battle()@.history.len() as int,
                ),
            ),
    {
        let from = self.battle.history().len();
        let r = self.battle.process(event);
        proof {
            crate::battle::lemma_cascade_grows(
                old(self).spec_battle().spec_rules(),
                old(self).spec_battle()@,
                seq![event],
                MAX_CASCADE as nat,
            );
        }
        self.broadcast(from);
        r
    }

    /// Takes an event that a client fired: the versions must match, the event must
    /// not be reserved to the server and, where authentication is enforced, the
    /// client's player must hold rights over the event's team. Then the server fires
    /// it as its own.
    pub fn process_client(&mut self, event: ClientEventPrototype) -> (r: Result<(), WeaselError>)
        requires
            old(self).wf(),
        ensures
            final(self).wf(),
            final(self).spec_authentication() == old(self).spec_authentication(),
            final(self).spec_battle().spec_rules() == old(self).spec_battle().spec_rules(),
            ({
                let rules = old(self).spec_battle().spec_rules();
                let b = old(self).spec_battle()@;
                match client_error(rules.spec_version(), old(self).spec_authentication(), b, event) {
                    Some(err) => r == Err::<(), WeaselError>(err) && final(self).spec_battle()@ == b
                        && final(self).spec_sinks() == old(self).spec_sinks(),
                    None => final(self).spec_battle()@ == cascade(
                        rules,
                        b,
                        seq![event.event],
                        MAX_CASCADE as nat,
                    ).0 && r == as_result(cascade(rules, b, seq![event.event], MAX_CASCADE as nat).1)
                        && all_fed(
                        old(self).spec_sinks(),
                        final(self).spec_sinks(),
                        final(self).spec_battle()@.history.subrange(
                            b.history.len() as int,
                            final(self).spec_battle()@.history.len() as int,
                        ),
                    ),
                }
            }),
    {
        let version = self.battle.version();
        if event.version != version {
            return Err(WeaselError::IncompatibleVersions(event.version, version));
        }
        if event.event.server_only() {
            return Err(WeaselError::ServerOnlyEvent);
        }
        if self.authentication {
            let player = match event.player {
                None => {
                    return Err(WeaselError::MissingAuthentication);
                },
                Some(p) => p,
            };
            if let Some(team) = self.target_team(&event.event) {
                if !self.battle.has_right(player, team) {
                    return Err(WeaselError::AuthenticationError(Some(player), team));
                }
            }
        }
        self.process_server(event.event)
    }

    fn target_team(&self, e: &Event) -> (r: Option<u64>)
        requires
            self.wf(),
        ensures
            r == target_team(self.spec_battle()@.state, *e),
    {
        let ents = self.battle.entities();
        match e {
            Event::CreateTeam(c) => Some(c.id),
            Event::ConcludeObjectives(c) => Some(c.id),
            Event::ResetObjectives(r) => Some(r.id),
            Event::RemoveTeam(r) => Some(r.id),
            Event::CreateCreature(c) => Some(c.team_id),
            Event::RemoveCreature(r) => entity_team(ents, EntityId::Creature(r.id)),
            Event::RegenerateStatistics(r) => entity_team(ents, r.id),
            Event::RegenerateAbilities(r) => entity_team(ents, r.id),
            Event::AlterStatistics(a) => entity_team(ents, a.id),
            Event::AlterAbilities(a) => entity_team(ents, a.id),
            Event::StartRound(s) => entity_team(ents, s.id),
            Event::EndRound => match self.battle.round() {
                RoundState::Started(actor) => entity_team(ents, actor),
                RoundState::Ready => None,
            },
            _ => None,
        }
    }

}

impl<R: BattleRules, S: ClientSink> EventProcessor for Server<R, S> {
    open spec fn processor_wf(&self) -> bool {
        self.wf()
    }

    open spec fn spec_processed(&self, after: &Self, event: Event, r: Result<(), WeaselError>) -> bool {
        served(*self, *after, event, r)
    }

    /// Fires the event as the authority.
    fn process(&mut self, event: Event) -> (r: Result<(), WeaselError>) {
        self.process_server(event)
    }
}

} // verus!
