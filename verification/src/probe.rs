//! The dialing side of a stream: send a payload, read the reply, and say
//! whether the peer returned the payload intact.
//!
//! A ping is a probe whose payload is a short random nonce.

use crate::error::Failure;
use crate::identity::PeerIdentity;
use crate::responder::{lemma_completed_run_echoes, offered, ResponderView, NONCE_LEN};
use crate::tag::{bytes_equal, ping_tag_bytes, ProtocolTag};
use crate::transport::{
    failure_of, Event, EventView, Outcome, Phase, Request, RequestView, Step, StepView,
};
use vstd::prelude::*;
use vstd::slice::slice_to_vec;
use vstd::string::StringSliceAdditionalSpecFns;

verus! {

/// Most bytes that a probe accepts as the reply to a ping.
pub const REPLY_LIMIT: usize = 1000;

/// The code with which a probe closes its connection.
pub const CLOSE_CODE: u32 = 0;

/// The reason that a probe gives when it closes its connection.
pub open spec fn close_reason() -> Seq<u8> {
    "bye!".spec_bytes()
}

/// The verdict on a reply: verified when the peer returned exactly what
/// was sent, a verification failure for any other reply, be it altered,
/// cut short or too long.
pub open spec fn verdict(sent: Seq<u8>, received: Seq<u8>) -> Outcome {
    if received == sent {
        Outcome::Verified
    } else {
        Outcome::Failed { failure: Failure::VerificationFailure }
    }
}

/// Judges a reply against what was sent.
pub fn check_reply(sent: &[u8], received: &[u8]) -> (outcome: Outcome)
    ensures
        outcome == verdict(sent@, received@),
        outcome == Outcome::Verified <==> received@ == sent@,
{
    if bytes_equal(received, sent) {
        Outcome::Verified
    } else {
        Outcome::Failed { failure: Failure::VerificationFailure }
    }
}

/// Where a probe stands in its run.
#[derive(Clone, Copy, Debug, PartialEq, Eq, Structural)]
pub enum ProbeStage {
    /// Not started.
    Idle,
    /// Waiting for the connection to the peer.
    Connecting,
    /// Waiting for the stream to open.
    Opening,
    /// Waiting for the payload to be written.
    Sending,
    /// Waiting for the send side to be half-closed.
    Finishing,
    /// Waiting for the peer's reply.
    Receiving,
    /// The reply is judged; waiting for the connection to close.
    Closing { verdict: Outcome },
    /// Over.
    Done { outcome: Outcome },
}

/// A [`Probe`] as a mathematical value.
pub struct ProbeView {
    pub stage: ProbeStage,
    pub peer: Seq<u8>,
    pub tag: Seq<u8>,
    pub payload: Seq<u8>,
    /// Most bytes accepted as a reply.
    pub limit: usize,
}

impl ProbeView {
    /// A fresh probe.
    pub open spec fn fresh(
        peer: Seq<u8>,
        tag: Seq<u8>,
        payload: Seq<u8>,
        limit: usize,
    ) -> ProbeView {
        ProbeView { stage: ProbeStage::Idle, peer, tag, payload, limit }
    }

    /// The same probe at another stage.
    pub open spec fn at(self, stage: ProbeStage) -> ProbeView {
        ProbeView { stage, ..self }
    }

    /// The lifecycle phase.
    pub open spec fn phase(self) -> Phase {
        match self.stage {
            ProbeStage::Idle => Phase::Idle,
            ProbeStage::Done { .. } => Phase::Done,
            _ => Phase::Active,
        }
    }

    /// Moving to `stage` and asking `request` of the transport.
    pub open spec fn ask(self, stage: ProbeStage, request: RequestView) -> (ProbeView, StepView) {
        (self.at(stage), StepView::Ask { request })
    }

    /// Ending the run with `outcome`.
    pub open spec fn end(self, outcome: Outcome) -> (ProbeView, StepView) {
        (self.at(ProbeStage::Done { outcome }), StepView::Done { outcome })
    }

    /// Aborting the run on a failed or unexpected event.
    pub open spec fn abort(self, event: EventView) -> (ProbeView, StepView) {
        self.end(Outcome::Failed { failure: event.failure() })
    }

    /// Hanging up once the reply is judged.
    pub open spec fn hang_up(self, verdict: Outcome) -> (ProbeView, StepView) {
        self.ask(
            ProbeStage::Closing { verdict },
            RequestView::Close { code: CLOSE_CODE as nat, reason: close_reason() },
        )
    }

    /// The probe's answer to `event`: its next state and what it asks of
    /// the transport.
    pub open spec fn next(self, event: EventView) -> (ProbeView, StepView) {
        match self.stage {
            ProbeStage::Idle => match event {
                EventView::Start => self.ask(
                    ProbeStage::Connecting,
                    RequestView::Connect { peer: self.peer, tag: self.tag },
                ),
                _ => self.abort(event),
            },
            ProbeStage::Connecting => match event {
                EventView::Ready => self.ask(ProbeStage::Opening, RequestView::OpenStream),
                EventView::Failed => self.end(Outcome::Failed { failure: Failure::DialError }),
                _ => self.abort(event),
            },
            ProbeStage::Opening => match event {
                EventView::Ready => self.ask(
                    ProbeStage::Sending,
                    RequestView::Write { bytes: self.payload },
                ),
                _ => self.abort(event),
            },
            ProbeStage::Sending => match event {
                EventView::Ready => self.ask(ProbeStage::Finishing, RequestView::Finish),
                _ => self.abort(event),
            },
            ProbeStage::Finishing => match event {
                EventView::Ready => self.ask(
                    ProbeStage::Receiving,
                    RequestView::ReadToEnd { limit: self.limit as nat },
                ),
                _ => self.abort(event),
            },
            ProbeStage::Receiving => match event {
                EventView::Data { bytes } => self.hang_up(verdict(self.payload, bytes)),
                EventView::TooLong => self.hang_up(
                    Outcome::Failed { failure: Failure::VerificationFailure },
                ),
                _ => self.abort(event),
            },
            ProbeStage::Closing { verdict } => match event {
                EventView::Ready => self.end(verdict),
                _ => self.abort(event),
            },
            ProbeStage::Done { outcome } => (self, StepView::Done { outcome }),
        }
    }

    /// The state after answering all of `events` in order.
    pub open spec fn after(self, events: Seq<EventView>) -> ProbeView
        decreases events.len(),
    {
        if events.len() == 0 {
            self
        } else {
            self.after(events.drop_last()).next(events.last()).0
        }
    }

    /// All bytes handed to the transport for writing while answering
    /// `events`, in order.
    pub open spec fn written(self, events: Seq<EventView>) -> Seq<u8>
        decreases events.len(),
    {
        if events.len() == 0 {
            Seq::empty()
        } else {
            self.written(events.drop_last()) + self.after(events.drop_last()).next(
                events.last(),
            ).1.written()
        }
    }
}

/// What a transport reports when every request of a probe succeeds and
/// the peer replies with `reply`.
pub open spec fn answered_with(reply: Seq<u8>) -> Seq<EventView> {
    seq![
        EventView::Start,
        EventView::Ready,
        EventView::Ready,
        EventView::Ready,
        EventView::Ready,
        EventView::Data { bytes: reply },
        EventView::Ready,
    ]
}

/// The dialing side of one exchange.
#[derive(Debug)]
pub struct Probe {
    stage: ProbeStage,
    peer: PeerIdentity,
    tag: ProtocolTag,
    payload: Vec<u8>,
    limit: usize,
}

impl View for Probe {
    type V = ProbeView;

    closed spec fn view(&self) -> ProbeView {
        ProbeView {
            stage: self.stage,
            peer: self.peer@,
            tag: self.tag@,
            payload: self.payload@,
            limit: self.limit,
        }
    }
}

impl Probe {
    /// A probe that sends `payload` to `peer` under `tag` and accepts at
    /// most `limit` bytes in reply.
    pub fn new(peer: PeerIdentity, tag: ProtocolTag, payload: Vec<u8>, limit: usize) -> (p: Probe)
        ensures
            p@ == ProbeView::fresh(peer@, tag@, payload@, limit),
    {
        Probe { stage: ProbeStage::Idle, peer, tag, payload, limit }
    }

    /// A ping: the probe that sends `nonce` under the ping tag and accepts
    /// at most [`REPLY_LIMIT`] bytes in reply.
    pub fn ping(peer: PeerIdentity, nonce: [u8; 8]) -> (p: Probe)
        ensures
            p@ == ProbeView::fresh(peer@, ping_tag_bytes(), nonce@, REPLY_LIMIT),
            p@.payload.len() == NONCE_LEN,
    {
        let payload = slice_to_vec(nonce.as_slice());
        let tag = ProtocolTag::ping();
        Probe { stage: ProbeStage::Idle, peer, tag, payload, limit: REPLY_LIMIT }
    }

    fn ask(&mut self, stage: ProbeStage, request: Request) -> (step: Step)
        ensures
            (final(self)@, step@) == old(self)@.ask(stage, request@),
    {
        self.stage = stage;
        Step::Ask { request }
    }

    fn end(&mut self, outcome: Outcome) -> (step: Step)
        ensures
            (final(self)@, step@) == old(self)@.end(outcome),
    {
        self.stage = ProbeStage::Done { outcome };
        Step::Done { outcome }
    }

    fn hang_up(&mut self, verdict: Outcome) -> (step: Step)
        ensures
            (final(self)@, step@) == old(self)@.hang_up(verdict),
    {
        let reason = slice_to_vec("bye!".as_bytes());
        self.ask(ProbeStage::Closing { verdict }, Request::Close { code: CLOSE_CODE, reason })
    }

    /// Answers `event`: moves to the next state and says what to ask of
    /// the transport, or how the run ended.
    ///
    /// The payload is written once, after the stream has opened. A reply
    /// equal to the payload is [`Outcome::Verified`]; any other reply is a
    /// [`Failure::VerificationFailure`], never a transport failure. A
    /// connection that cannot be made is a [`Failure::DialError`], the
    /// closing of the endpoint is [`Failure::Closed`], and any other
    /// failed or unexpected event is a [`Failure::StreamError`]. Once the
    /// run is over the probe repeats its outcome whatever arrives.
    pub fn step(&mut self, event: Event) -> (step: Step)
        ensures
            (final(self)@, step@) == old(self)@.next(event@),
    {
        let abort = Outcome::Failed { failure: failure_of(&event) };
        match self.stage {
            ProbeStage::Idle => match event {
                Event::Start => {
                    let tag = ProtocolTag::new(self.tag.to_vec());
                    let peer = self.peer;
                    self.ask(ProbeStage::Connecting, Request::Connect { peer, tag })
                },
                _ => self.end(abort),
            },
            ProbeStage::Connecting => match event {
                Event::Ready => self.ask(ProbeStage::Opening, Request::OpenStream),
                Event::Failed => self.end(Outcome::Failed { failure: Failure::DialError }),
                _ => self.end(abort),
            },
            ProbeStage::Opening => match event {
                Event::Ready => {
                    let bytes = slice_to_vec(self.payload.as_slice());
                    self.ask(ProbeStage::Sending, Request::Write { bytes })
                },
                _ => self.end(abort),
            },
            ProbeStage::Sending => match event {
                Event::Ready => self.ask(ProbeStage::Finishing, Request::Finish),
                _ => self.end(abort),
            },
            ProbeStage::Finishing => match event {
                Event::Ready => {
                    let limit = self.limit;
                    self.ask(ProbeStage::Receiving, Request::ReadToEnd { limit })
                },
                _ => self.end(abort),
            },
            ProbeStage::Receiving => match event {
                Event::Data { bytes } => {
                    let verdict = check_reply(self.payload.as_slice(), bytes.as_slice());
                    self.hang_up(verdict)
                },
                Event::TooLong => self.hang_up(
                    Outcome::Failed { failure: Failure::VerificationFailure },
                ),
                _ => self.end(abort),
            },
            ProbeStage::Closing { verdict } => match event {
                Event::Ready => self.end(verdict),
                _ => self.end(abort),
            },
            ProbeStage::Done { outcome } => Step::Done { outcome },
        }
    }

    /// The lifecycle phase.
    pub fn phase(&self) -> (phase: Phase)
        ensures
            phase == self@.phase(),
    {
        match self.stage {
            ProbeStage::Idle => Phase::Idle,
            ProbeStage::Done { .. } => Phase::Done,
            _ => Phase::Active,
        }
    }

    /// How the run ended, once it has.
    pub fn outcome(&self) -> (outcome: Option<Outcome>)
        ensures
            outcome == (match self@.stage {
                ProbeStage::Done { outcome } => Some(outcome),
                _ => None,
            }),
    {
        match self.stage {
            ProbeStage::Done { outcome } => Some(outcome),
            _ => None,
        }
    }
}

/// A reply is verified exactly when it equals what was sent; every other
/// reply is a verification failure, which is no transport failure.
pub proof fn lemma_verdict_exact(sent: Seq<u8>, received: Seq<u8>)
    ensures
        received == sent <==> verdict(sent, received) == Outcome::Verified,
        received != sent <==> verdict(sent, received) == (Outcome::Failed {
            failure: Failure::VerificationFailure,
        }),
        !Failure::VerificationFailure.spec_is_transport(),
{
}

/// Answering one more event: the state and the bytes written each grow
/// by that event's share.
pub proof fn lemma_one_more_probe_event(v: ProbeView, events: Seq<EventView>, event: EventView)
    ensures
        v.after(events.push(event)) == v.after(events).next(event).0,
        v.written(events.push(event)) == v.written(events) + v.after(events).next(
            event,
        ).1.written(),
{
    assert(events.push(event).drop_last() =~= events);
    assert(events.push(event).last() == event);
}

/// A probe whose requests all succeed writes its payload, once and
/// unchanged, and ends with the verdict on the reply: verified when the
/// reply equals the payload, a verification failure when it does not.
pub proof fn lemma_probe_reports_verdict(v: ProbeView, reply: Seq<u8>)
    requires
        v.stage == ProbeStage::Idle,
    ensures
        v.written(answered_with(reply)) == v.payload,
        v.after(answered_with(reply)).stage == (ProbeStage::Done {
            outcome: verdict(v.payload, reply),
        }),
{
    let e0 = Seq::<EventView>::empty();
    let e1 = e0.push(EventView::Start);
    let e2 = e1.push(EventView::Ready);
    let e3 = e2.push(EventView::Ready);
    let e4 = e3.push(EventView::Ready);
    let e5 = e4.push(EventView::Ready);
    let e6 = e5.push(EventView::Data { bytes: reply });
    let e7 = e6.push(EventView::Ready);
    lemma_one_more_probe_event(v, e0, EventView::Start);
    lemma_one_more_probe_event(v, e1, EventView::Ready);
    lemma_one_more_probe_event(v, e2, EventView::Ready);
    lemma_one_more_probe_event(v, e3, EventView::Ready);
    lemma_one_more_probe_event(v, e4, EventView::Ready);
    lemma_one_more_probe_event(v, e5, EventView::Data { bytes: reply });
    lemma_one_more_probe_event(v, e6, EventView::Ready);
    assert(answered_with(reply) =~= e7);
    assert(v.written(e0) =~= Seq::<u8>::empty());
    assert(v.written(e7) =~= v.payload);
}

/// A dial that the transport refuses ends with a dial error, and not a
/// byte of the payload has been handed over for writing.
pub proof fn lemma_refused_dial_sends_nothing(v: ProbeView)
    requires
        v.stage == ProbeStage::Idle,
    ensures
        v.after(seq![EventView::Start, EventView::Failed]).stage == (ProbeStage::Done {
            outcome: Outcome::Failed { failure: Failure::DialError },
        }),
        v.written(seq![EventView::Start, EventView::Failed]) == Seq::<u8>::empty(),
{
    let e0 = Seq::<EventView>::empty();
    let e1 = e0.push(EventView::Start);
    let e2 = e1.push(EventView::Failed);
    lemma_one_more_probe_event(v, e0, EventView::Start);
    lemma_one_more_probe_event(v, e1, EventView::Failed);
    assert(seq![EventView::Start, EventView::Failed] =~= e2);
    assert(v.written(e0) =~= Seq::<u8>::empty());
    assert(v.written(e2) =~= Seq::<u8>::empty());
}

/// The ping round trip. Let the ping responder be offered a nonce, in
/// whatever chunks, and complete its run. Then what it wrote back is the
/// nonce, and the probe that sent the nonce judges that reply verified.
pub proof fn lemma_ping_round_trip(nonce: Seq<u8>, events: Seq<EventView>)
    requires
        nonce.len() == NONCE_LEN,
        ResponderView::fresh(NONCE_LEN, NONCE_LEN).completes(events),
        offered(events) == nonce,
    ensures
        ResponderView::fresh(NONCE_LEN, NONCE_LEN).written(events) == nonce,
        verdict(nonce, ResponderView::fresh(NONCE_LEN, NONCE_LEN).written(events))
            == Outcome::Verified,
{
    lemma_completed_run_echoes(ResponderView::fresh(NONCE_LEN, NONCE_LEN), events);
}

/// A probe reports once: when its run is over, the state no longer
/// changes, the outcome is repeated, and nothing more is written or
/// retried.
pub proof fn lemma_probe_done_is_final(v: ProbeView, event: EventView)
    requires
        v.stage is Done,
    ensures
        v.next(event).0 == v,
        v.next(event).1 == (StepView::Done { outcome: v.stage->outcome }),
{
}

/// When the endpoint closes, a probe that is at work ends at once with
/// [`Failure::Closed`].
pub proof fn lemma_closing_ends_probe(v: ProbeView)
    requires
        !(v.stage is Done),
    ensures
        v.next(EventView::Closed) == v.end(Outcome::Failed { failure: Failure::Closed }),
        v.next(EventView::Closed).0.phase() == Phase::Done,
{
}

impl ProbeView {
    /// Whether the payload has not been handed over for writing yet.
    pub open spec fn before_sending(self) -> bool {
        self.stage is Idle || self.stage is Connecting || self.stage is Opening
    }
}

/// The payload is sent at most once, and nothing else is: whatever the
/// transport reports, the bytes that a probe has handed over for writing
/// are none at all or exactly its payload, and none as long as the stream
/// has not opened.
pub proof fn lemma_probe_sends_payload_once(v: ProbeView, events: Seq<EventView>)
    requires
        v.stage == ProbeStage::Idle,
    ensures
        v.after(events).payload == v.payload,
        v.written(events) == Seq::<u8>::empty() || v.written(events) == v.payload,
        v.after(events).before_sending() ==> v.written(events) == Seq::<u8>::empty(),
        !v.after(events).before_sending() && !(v.after(events).stage is Done) ==> v.written(
            events,
        ) == v.payload,
    decreases events.len(),
{
    if events.len() > 0 {
        lemma_probe_sends_payload_once(v, events.drop_last());
        let before = v.after(events.drop_last());
        let step = before.next(events.last()).1;
        if before.stage is Opening && events.last() is Ready {
            assert(v.written(events) =~= v.payload);
        } else {
            assert(step.written() =~= Seq::<u8>::empty());
            assert(v.written(events) =~= v.written(events.drop_last()));
        }
    }
}

} // verus!
