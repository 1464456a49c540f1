//! The endpoint: the set of services that it accepts, and whether it is
//! still open.
//!
//! The endpoint decides what becomes of each arrival at the listener and
//! whether a dial may still be made. Waiting for arrivals and running the
//! handlers is the caller's part.

use crate::dispatch::{
    distinct_tags, lemma_exactly_one_match, lookup, matching, registered, standard_table,
    Dispatcher, Route, RouteView, Service,
};
use crate::error::Failure;
use crate::identity::PeerIdentity;
use crate::probe::{Probe, ProbeView, REPLY_LIMIT};
use crate::tag::{ping_tag_bytes, ProtocolTag};
use vstd::prelude::*;

verus! {

/// What the listener met while it waited for the next connection.
#[derive(Clone, Debug, PartialEq, Eq)]
pub enum Arrival {
    /// A peer connected and requested `tag`.
    Incoming { tag: Vec<u8> },
    /// A peer tried to connect and the handshake failed.
    HandshakeFailed,
    /// The transport is shutting down: nothing more will arrive.
    Shutdown,
}

/// An [`Arrival`] as a mathematical value.
pub enum ArrivalView {
    Incoming { tag: Seq<u8> },
    HandshakeFailed,
    Shutdown,
}

impl View for Arrival {
    type V = ArrivalView;

    open spec fn view(&self) -> ArrivalView {
        match self {
            Arrival::Incoming { tag } => ArrivalView::Incoming { tag: tag@ },
            Arrival::HandshakeFailed => ArrivalView::HandshakeFailed,
            Arrival::Shutdown => ArrivalView::Shutdown,
        }
    }
}

/// What the listener does about an arrival.
#[derive(Clone, Copy, Debug, PartialEq, Eq, Structural)]
pub enum Decision {
    /// Run the handler of `service` on the connection, and go on
    /// accepting.
    Serve { service: Service },
    /// Drop the connection without opening a stream, and go on accepting.
    Reject { failure: Failure },
    /// There is no connection to handle; go on accepting.
    Skip,
    /// Stop accepting.
    Stop,
}

/// An [`Endpoint`] as a mathematical value.
pub struct EndpointView {
    pub table: Seq<RouteView>,
    pub open: bool,
}

impl EndpointView {
    /// What holds of every endpoint: no tag is served twice.
    pub open spec fn wf(self) -> bool {
        distinct_tags(self.table)
    }

    /// The endpoint after it was closed.
    pub open spec fn closed(self) -> EndpointView {
        EndpointView { open: false, ..self }
    }

    /// The endpoint's answer to `arrival`: its next state and what the
    /// listener does.
    ///
    /// A closed endpoint stops whatever arrives. An open one serves a
    /// connection whose tag is registered with the service registered for
    /// it, rejects any other connection as a protocol mismatch, passes
    /// over a failed handshake, and closes when the transport shuts
    /// down.
    pub open spec fn decide(self, arrival: ArrivalView) -> (EndpointView, Decision) {
        if !self.open {
            (self, Decision::Stop)
        } else {
            match arrival {
                ArrivalView::Incoming { tag } => match lookup(self.table, tag) {
                    Some(service) => (self, Decision::Serve { service }),
                    None => (self, Decision::Reject { failure: Failure::ProtocolMismatch }),
                },
                ArrivalView::HandshakeFailed => (self, Decision::Skip),
                ArrivalView::Shutdown => (self.closed(), Decision::Stop),
            }
        }
    }

    /// The state after deciding all of `arrivals` in order.
    pub open spec fn after(self, arrivals: Seq<ArrivalView>) -> EndpointView
        decreases arrivals.len(),
    {
        if arrivals.len() == 0 {
            self
        } else {
            self.after(arrivals.drop_last()).decide(arrivals.last()).0
        }
    }
}

/// The local end of the transport, as far as decisions go.
#[derive(Debug)]
pub struct Endpoint {
    table: Dispatcher,
    open: bool,
}

impl View for Endpoint {
    type V = EndpointView;

    closed spec fn view(&self) -> EndpointView {
        EndpointView { table: self.table@, open: self.open }
    }
}

impl Endpoint {
    #[verifier::type_invariant]
    spec fn table_is_sound(self) -> bool {
        self.table.wf()
    }

    /// An open endpoint that accepts the tags of `routes`.
    ///
    /// Fails with [`Failure::BindError`] exactly when two routes name the
    /// same tag.
    pub fn bind(routes: Vec<Route>) -> (bound: Result<Endpoint, Failure>)
        ensures
            distinct_tags(routes.deep_view()) ==> bound is Ok,
            !distinct_tags(routes.deep_view()) ==> bound == Err::<Endpoint, Failure>(
                Failure::BindError,
            ),
            bound matches Ok(endpoint) ==> endpoint@ == (EndpointView {
                table: routes.deep_view(),
                open: true,
            }) && endpoint@.wf(),
    {
        match Dispatcher::bind(routes) {
            Ok(table) => Ok(Endpoint { table, open: true }),
            Err(failure) => Err(failure),
        }
    }

    /// An open endpoint that accepts echo and ping under their standard
    /// tags.
    pub fn standard() -> (endpoint: Endpoint)
        ensures
            endpoint@ == (EndpointView { table: standard_table(), open: true }),
            endpoint@.wf(),
    {
        Endpoint { table: Dispatcher::standard(), open: true }
    }

    /// The tags to announce to the transport, in the order of the routes.
    pub fn accepted_tags(&self) -> (tags: Vec<Vec<u8>>)
        ensures
            tags@.len() == self@.table.len(),
            forall|i: int| 0 <= i < tags@.len() ==> #[trigger] tags@[i]@ == self@.table[i].tag,
    {
        self.table.accepted_tags()
    }

    /// Whether the endpoint still accepts and dials.
    pub fn is_open(&self) -> (open: bool)
        ensures
            open == self@.open,
    {
        self.open
    }

    /// Decides what becomes of `arrival`.
    ///
    /// A connection is served only by the one handler registered for its
    /// tag; for an unregistered tag no handler runs.
    pub fn accept(&mut self, arrival: Arrival) -> (decision: Decision)
        ensures
            (final(self)@, decision) == old(self)@.decide(arrival@),
            final(self)@.wf(),
            decision matches Decision::Serve { service } ==> {
                &&& arrival@ matches ArrivalView::Incoming { tag }
                &&& matching(old(self)@.table, tag).len() == 1
                &&& lookup(old(self)@.table, tag) == Some(service)
            },
    {
        proof {
            use_type_invariant(&*self);
        }
        if !self.open {
            return Decision::Stop;
        }
        match arrival {
            Arrival::Incoming { tag } => match self.table.route(tag.as_slice()) {
                Some(service) => Decision::Serve { service },
                None => Decision::Reject { failure: Failure::ProtocolMismatch },
            },
            Arrival::HandshakeFailed => Decision::Skip,
            Arrival::Shutdown => {
                self.open = false;
                Decision::Stop
            },
        }
    }

    /// Closes the endpoint. Nothing is accepted or dialed afterwards.
    pub fn close(&mut self)
        ensures
            final(self)@ == old(self)@.closed(),
            final(self)@.wf(),
    {
        proof {
            use_type_invariant(&*self);
        }
        self.open = false;
    }

    /// Prepares a dial: the probe that sends `payload` to `peer` under
    /// `tag` and accepts at most `limit` bytes in reply.
    ///
    /// Fails with [`Failure::Closed`] exactly when the endpoint is closed.
    pub fn connect(
        &self,
        peer: PeerIdentity,
        tag: ProtocolTag,
        payload: Vec<u8>,
        limit: usize,
    ) -> (dial: Result<Probe, Failure>)
        ensures
            !self@.open ==> dial == Err::<Probe, Failure>(Failure::Closed),
            self@.open ==> (dial matches Ok(probe) && probe@ == ProbeView::fresh(
                peer@,
                tag@,
                payload@,
                limit,
            )),
    {
        if self.open {
            Ok(Probe::new(peer, tag, payload, limit))
        } else {
            Err(Failure::Closed)
        }
    }

    /// Prepares a ping of `peer` with `nonce`.
    ///
    /// Fails with [`Failure::Closed`] exactly when the endpoint is closed.
    pub fn ping(&self, peer: PeerIdentity, nonce: [u8; 8]) -> (dial: Result<Probe, Failure>)
        ensures
            !self@.open ==> dial == Err::<Probe, Failure>(Failure::Closed),
            self@.open ==> (dial matches Ok(probe) && probe@ == ProbeView::fresh(
                peer@,
                ping_tag_bytes(),
                nonce@,
                REPLY_LIMIT,
            )),
    {
        if self.open {
            Ok(Probe::ping(peer, nonce))
        } else {
            Err(Failure::Closed)
        }
    }
}

/// Routing at the listener is exact. An open endpoint serves a connection
/// whose tag is registered through the one route that matches it, and
/// rejects a connection whose tag is not registered as a protocol
/// mismatch: no handler runs for it. Either way the endpoint stays open.
pub proof fn lemma_accept_routes_exactly(v: EndpointView, tag: Seq<u8>)
    requires
        v.wf(),
        v.open,
    ensures
        v.decide(ArrivalView::Incoming { tag }).0 == v,
        registered(v.table, tag) ==> {
            &&& matching(v.table, tag).len() == 1
            &&& v.decide(ArrivalView::Incoming { tag }).1 == (Decision::Serve {
                service: v.table[matching(v.table, tag).choose()].service,
            })
        },
        !registered(v.table, tag) ==> {
            &&& matching(v.table, tag).len() == 0
            &&& v.decide(ArrivalView::Incoming { tag }).1 == (Decision::Reject {
                failure: Failure::ProtocolMismatch,
            })
        },
{
    lemma_exactly_one_match(v.table, tag);
}

/// A closed endpoint accepts nothing further: whatever arrives afterwards,
/// and however much of it, the endpoint stays closed and the answer to
/// the next arrival is to stop.
pub proof fn lemma_closed_endpoint_stops(
    v: EndpointView,
    arrivals: Seq<ArrivalView>,
    next: ArrivalView,
)
    requires
        !v.open,
    ensures
        v.after(arrivals) == v,
        v.after(arrivals).decide(next).1 == Decision::Stop,
    decreases arrivals.len(),
{
    if arrivals.len() > 0 {
        lemma_closed_endpoint_stops(v, arrivals.drop_last(), arrivals.last());
    }
}

/// Nothing that arrives changes the set of accepted tags, and only a
/// shutdown closes an open endpoint.
pub proof fn lemma_table_is_fixed(v: EndpointView, arrival: ArrivalView)
    ensures
        v.decide(arrival).0.table == v.table,
        v.open && !(arrival is Shutdown) ==> v.decide(arrival).0.open,
{
}

} // verus!
