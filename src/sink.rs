//! Sinks: one-way channels that deliver events to a downstream or upstream peer.
use crate::error::WeaselError;
use crate::event::{ClientEventPrototype, VersionedEventWrapper};
use vstd::prelude::*;

verus! {

/// A channel through which a server delivers applied events to a client. Games
/// implement it over their own transport; a failed send marks the sink as broken.
///
/// The spec functions model the sink: what it delivered and how often it was told
/// that it was detached. A verified implementation defines them.
pub trait ClientSink {
    spec fn spec_id(&self) -> u64;

    /// The events delivered so far, in order.
    open spec fn spec_received(&self) -> Seq<VersionedEventWrapper> {
        Seq::empty()
    }

    /// How many times the sink was told that it was detached.
    open spec fn spec_disconnections(&self) -> nat {
        0
    }

    /// The id under which the sink is attached.
    fn id(&self) -> (r: u64)
        ensures
            r == self.spec_id(),
    ;

    /// Delivers an applied event; a failure delivers nothing.
    fn send(&mut self, event: &VersionedEventWrapper) -> (r: Result<(), WeaselError>)
        ensures
            final(self).spec_id() == old(self).spec_id(),
            final(self).spec_disconnections() == old(self).spec_disconnections(),
            r is Ok ==> final(self).spec_received() == old(self).spec_received().push(*event),
            r is Err ==> final(self).spec_received() == old(self).spec_received(),
    ;

    /// Called once, when the sink is detached.
    fn on_disconnect(&mut self)
        ensures
            final(self).spec_id() == old(self).spec_id(),
            final(self).spec_received() == old(self).spec_received(),
            final(self).spec_disconnections() == old(self).spec_disconnections() + 1,
    ;
}

/// A channel through which a client sends the events it fires to its server.
///
/// The spec functions model the sink: what it delivered and how often it was told
/// that it was replaced. A verified implementation defines them.
pub trait ServerSink {
    /// The prototypes delivered so far, in order.
    open spec fn spec_sent(&self) -> Seq<ClientEventPrototype> {
        Seq::empty()
    }

    /// How many times the sink was told that it was replaced.
    open spec fn spec_disconnections(&self) -> nat {
        0
    }

    /// The id of the sink.
    fn id(&self) -> u64;

    /// Delivers an event prototype; a failure delivers nothing.
    fn send(&mut self, event: &ClientEventPrototype) -> (r: Result<(), WeaselError>)
        ensures
            final(self).spec_disconnections() == old(self).spec_disconnections(),
            r is Ok ==> final(self).spec_sent() == old(self).spec_sent().push(*event),
            r is Err ==> final(self).spec_sent() == old(self).spec_sent(),
    ;

    /// Called once, when the sink is replaced.
    fn on_disconnect(&mut self)
        ensures
            final(self).spec_sent() == old(self).spec_sent(),
            final(self).spec_disconnections() == old(self).spec_disconnections() + 1,
    ;
}

} // verus!
