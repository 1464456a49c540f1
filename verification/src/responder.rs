//! The serving side of a stream: read what the peer sends and write the
//! same bytes back.
//!
//! The echo service and the ping service are the same responder with
//! different bounds. Echo copies chunk by chunk without an overall limit;
//! ping copies at most one nonce.

use crate::dispatch::Service;
use crate::error::Failure;
use crate::transport::{
    failure_of, Event, EventView, Outcome, Phase, Request, RequestView, Step, StepView,
};
use vstd::prelude::*;

verus! {

/// Largest chunk that the echo service reads and writes at once.
pub const ECHO_CHUNK: usize = 10000;

/// Number of bytes in a ping nonce.
pub const NONCE_LEN: usize = 8;

/// Where a responder stands in its run.
#[derive(Clone, Copy, Debug, PartialEq, Eq, Structural)]
pub enum ResponderStage {
    /// Not started.
    Idle,
    /// Waiting for the peer to open the stream.
    Opening,
    /// Waiting for the next chunk from the peer.
    Reading,
    /// Waiting for a chunk to be written back.
    Writing,
    /// Waiting for the send side to be half-closed.
    Finishing,
    /// Waiting for the peer to close the connection.
    Draining,
    /// Over.
    Done { outcome: Outcome },
}

/// A [`Responder`] as a mathematical value.
pub struct ResponderView {
    pub stage: ResponderStage,
    /// Most bytes asked for in one read.
    pub chunk: usize,
    /// Most bytes copied in the whole run.
    pub limit: usize,
    /// Bytes accepted from the peer so far.
    pub copied: usize,
}

impl ResponderView {
    /// What holds of every responder: reads are not empty-handed and the
    /// count never passes the limit.
    pub open spec fn wf(self) -> bool {
        0 < self.chunk && self.copied <= self.limit
    }

    /// A fresh responder with the given bounds.
    pub open spec fn fresh(chunk: usize, limit: usize) -> ResponderView {
        ResponderView { stage: ResponderStage::Idle, chunk, limit, copied: 0 }
    }

    /// The same responder at another stage.
    pub open spec fn at(self, stage: ResponderStage) -> ResponderView {
        ResponderView { stage, ..self }
    }

    /// The lifecycle phase.
    pub open spec fn phase(self) -> Phase {
        match self.stage {
            ResponderStage::Idle => Phase::Idle,
            ResponderStage::Done { .. } => Phase::Done,
            _ => Phase::Active,
        }
    }

    /// How much the next read may return: a chunk, or what is left under
    /// the limit if that is less.
    pub open spec fn read_size(self) -> int {
        if self.limit - self.copied < self.chunk {
            self.limit - self.copied
        } else {
            self.chunk as int
        }
    }

    /// Ending the run with `outcome`.
    pub open spec fn end(self, outcome: Outcome) -> (ResponderView, StepView) {
        (self.at(ResponderStage::Done { outcome }), StepView::Done { outcome })
    }

    /// Aborting the run on a failed or unexpected event.
    pub open spec fn abort(self, event: EventView) -> (ResponderView, StepView) {
        self.end(Outcome::Failed { failure: event.failure() })
    }

    /// Going on after the stream was opened or a chunk was written: read
    /// again while the limit allows, else half-close.
    pub open spec fn resume(self) -> (ResponderView, StepView) {
        if self.copied < self.limit {
            (
                self.at(ResponderStage::Reading),
                StepView::Ask { request: RequestView::Read { max: self.read_size() as nat } },
            )
        } else {
            (self.at(ResponderStage::Finishing), StepView::Ask { request: RequestView::Finish })
        }
    }

    /// Taking in a chunk: it is handed back for writing as it came, unless
    /// it is larger than was asked for.
    pub open spec fn take(self, bytes: Seq<u8>) -> (ResponderView, StepView) {
        if bytes.len() <= self.read_size() {
            (
                ResponderView {
                    stage: ResponderStage::Writing,
                    copied: (self.copied + bytes.len()) as usize,
                    ..self
                },
                StepView::Ask { request: RequestView::Write { bytes } },
            )
        } else {
            self.abort(EventView::Data { bytes })
        }
    }

    /// The responder's answer to `event`: its next state and what it asks
    /// of the transport.
    pub open spec fn next(self, event: EventView) -> (ResponderView, StepView) {
        match self.stage {
            ResponderStage::Idle => match event {
                EventView::Start => (
                    self.at(ResponderStage::Opening),
                    StepView::Ask { request: RequestView::AcceptStream },
                ),
                _ => self.abort(event),
            },
            ResponderStage::Opening => match event {
                EventView::Ready => self.resume(),
                _ => self.abort(event),
            },
            ResponderStage::Reading => match event {
                EventView::Data { bytes } => self.take(bytes),
                EventView::End => (
                    self.at(ResponderStage::Finishing),
                    StepView::Ask { request: RequestView::Finish },
                ),
                _ => self.abort(event),
            },
            ResponderStage::Writing => match event {
                EventView::Ready => self.resume(),
                _ => self.abort(event),
            },
            ResponderStage::Finishing => match event {
                EventView::Ready => (
                    self.at(ResponderStage::Draining),
                    StepView::Ask { request: RequestView::AwaitClosed },
                ),
                _ => self.abort(event),
            },
            ResponderStage::Draining => match event {
                EventView::Ready => self.end(Outcome::Served { copied: self.copied }),
                _ => self.abort(event),
            },
            ResponderStage::Done { outcome } => (self, StepView::Done { outcome }),
        }
    }

    /// The state after answering all of `events` in order.
    pub open spec fn after(self, events: Seq<EventView>) -> ResponderView
        decreases events.len(),
    {
        if events.len() == 0 {
            self
        } else {
            self.after(events.drop_last()).next(events.last()).0
        }
    }

    /// All bytes handed to the transport for writing while answering
    /// `events`, in order.
    pub open spec fn written(self, events: Seq<EventView>) -> Seq<u8>
        decreases events.len(),
    {
        if events.len() == 0 {
            Seq::empty()
        } else {
            self.written(events.drop_last()) + self.after(events.drop_last()).next(
                events.last(),
            ).1.written()
        }
    }

    /// Whether the run is over after `events`.
    pub open spec fn done_after(self, events: Seq<EventView>) -> bool {
        self.after(events).stage is Done
    }

    /// Whether `events` is a run that completes: the responder is still
    /// at work before the last event, and the last event ends it with
    /// [`Outcome::Served`].
    pub open spec fn completes(self, events: Seq<EventView>) -> bool {
        &&& events.len() > 0
        &&& !self.done_after(events.drop_last())
        &&& self.after(events).stage matches ResponderStage::Done { outcome }
        &&& outcome is Served
    }
}

/// All bytes that `events` hand to a handler, in order.
pub open spec fn offered(events: Seq<EventView>) -> Seq<u8>
    decreases events.len(),
{
    if events.len() == 0 {
        Seq::empty()
    } else {
        offered(events.drop_last()) + events.last().offered()
    }
}

/// The serving side of one stream.
#[derive(Debug)]
pub struct Responder {
    stage: ResponderStage,
    chunk: usize,
    limit: usize,
    copied: usize,
}

impl View for Responder {
    type V = ResponderView;

    closed spec fn view(&self) -> ResponderView {
        ResponderView {
            stage: self.stage,
            chunk: self.chunk,
            limit: self.limit,
            copied: self.copied,
        }
    }
}

impl Responder {
    #[verifier::type_invariant]
    spec fn bounds_hold(self) -> bool {
        0 < self.chunk && self.copied <= self.limit
    }

    /// A responder that reads at most `chunk` bytes at a time and copies
    /// at most `limit` bytes in all. There is none for an empty chunk.
    pub fn new(chunk: usize, limit: usize) -> (made: Option<Responder>)
        ensures
            chunk == 0 ==> made is None,
            chunk > 0 ==> (made matches Some(r) && r@ == ResponderView::fresh(chunk, limit)),
    {
        if chunk == 0 {
            None
        } else {
            Some(Responder { stage: ResponderStage::Idle, chunk, limit, copied: 0 })
        }
    }

    /// The echo service: chunks of at most [`ECHO_CHUNK`] bytes, no limit
    /// short of what can be counted.
    pub fn echo() -> (r: Responder)
        ensures
            r@ == ResponderView::fresh(ECHO_CHUNK, usize::MAX),
    {
        Responder { stage: ResponderStage::Idle, chunk: ECHO_CHUNK, limit: usize::MAX, copied: 0 }
    }

    /// The serving side of ping: at most one nonce is read and returned.
    pub fn pong() -> (r: Responder)
        ensures
            r@ == ResponderView::fresh(NONCE_LEN, NONCE_LEN),
    {
        Responder { stage: ResponderStage::Idle, chunk: NONCE_LEN, limit: NONCE_LEN, copied: 0 }
    }

    /// The responder that provides `service`.
    pub fn serving(service: Service) -> (r: Responder)
        ensures
            r@ == (match service {
                Service::Echo => ResponderView::fresh(ECHO_CHUNK, usize::MAX),
                Service::Ping => ResponderView::fresh(NONCE_LEN, NONCE_LEN),
            }),
    {
        match service {
            Service::Echo => Responder::echo(),
            Service::Ping => Responder::pong(),
        }
    }

    fn end(&mut self, outcome: Outcome) -> (step: Step)
        ensures
            (final(self)@, step@) == old(self)@.end(outcome),
    {
        proof {
            use_type_invariant(&*self);
        }
        self.stage = ResponderStage::Done { outcome };
        Step::Done { outcome }
    }

    fn ask(&mut self, stage: ResponderStage, request: Request) -> (step: Step)
        ensures
            final(self)@ == old(self)@.at(stage),
            step@ == (StepView::Ask { request: request@ }),
    {
        proof {
            use_type_invariant(&*self);
        }
        self.stage = stage;
        Step::Ask { request }
    }

    fn resume(&mut self) -> (step: Step)
        ensures
            (final(self)@, step@) == old(self)@.resume(),
    {
        proof {
            use_type_invariant(&*self);
        }
        if self.copied < self.limit {
            let left = self.limit - self.copied;
            let max = if left < self.chunk { left } else { self.chunk };
            self.ask(ResponderStage::Reading, Request::Read { max })
        } else {
            self.ask(ResponderStage::Finishing, Request::Finish)
        }
    }

    fn take(&mut self, bytes: Vec<u8>) -> (step: Step)
        ensures
            (final(self)@, step@) == old(self)@.take(bytes@),
    {
        proof {
            use_type_invariant(&*self);
        }
        let left = self.limit - self.copied;
        let max = if left < self.chunk { left } else { self.chunk };
        if bytes.len() <= max {
            self.copied = self.copied + bytes.len();
            self.stage = ResponderStage::Writing;
            Step::Ask { request: Request::Write { bytes } }
        } else {
            self.end(Outcome::Failed { failure: Failure::StreamError })
        }
    }

    /// Answers `event`: moves to the next state and says what to ask of
    /// the transport, or how the run ended.
    ///
    /// Every chunk that arrives while one is awaited, and is no larger
    /// than was asked for, is handed back for writing unchanged. The
    /// closing of the endpoint ends the run with [`Failure::Closed`], any
    /// other failed or unexpected event with [`Failure::StreamError`].
    /// Once the run is over the responder repeats its outcome whatever
    /// arrives.
    pub fn step(&mut self, event: Event) -> (step: Step)
        ensures
            (final(self)@, step@) == old(self)@.next(event@),
            final(self)@.wf(),
    {
        proof {
            use_type_invariant(&*self);
        }
        let abort = Outcome::Failed { failure: failure_of(&event) };
        match self.stage {
            ResponderStage::Idle => match event {
                Event::Start => self.ask(ResponderStage::Opening, Request::AcceptStream),
                _ => self.end(abort),
            },
            ResponderStage::Opening => match event {
                Event::Ready => self.resume(),
                _ => self.end(abort),
            },
            ResponderStage::Reading => match event {
                Event::Data { bytes } => self.take(bytes),
                Event::End => self.ask(ResponderStage::Finishing, Request::Finish),
                _ => self.end(abort),
            },
            ResponderStage::Writing => match event {
                Event::Ready => self.resume(),
                _ => self.end(abort),
            },
            ResponderStage::Finishing => match event {
                Event::Ready => self.ask(ResponderStage::Draining, Request::AwaitClosed),
                _ => self.end(abort),
            },
            ResponderStage::Draining => match event {
                Event::Ready => {
                    let copied = self.copied;
                    self.end(Outcome::Served { copied })
                },
                _ => self.end(abort),
            },
            ResponderStage::Done { outcome } => Step::Done { outcome },
        }
    }

    /// The lifecycle phase.
    pub fn phase(&self) -> (phase: Phase)
        ensures
            phase == self@.phase(),
    {
        match self.stage {
            ResponderStage::Idle => Phase::Idle,
            ResponderStage::Done { .. } => Phase::Done,
            _ => Phase::Active,
        }
    }

    /// Bytes accepted from the peer so far.
    pub fn copied(&self) -> (n: usize)
        ensures
            n == self@.copied,
            n <= self@.limit,
    {
        proof {
            use_type_invariant(self);
        }
        self.copied
    }

    /// How the run ended, once it has.
    pub fn outcome(&self) -> (outcome: Option<Outcome>)
        ensures
            outcome == (match self@.stage {
                ResponderStage::Done { outcome } => Some(outcome),
                _ => None,
            }),
    {
        match self.stage {
            ResponderStage::Done { outcome } => Some(outcome),
            _ => None,
        }
    }
}

/// One step keeps a responder well formed and leaves its bounds alone.
pub proof fn lemma_step_keeps_bounds(v: ResponderView, event: EventView)
    requires
        v.wf(),
    ensures
        v.next(event).0.wf(),
        v.next(event).0.chunk == v.chunk,
        v.next(event).0.limit == v.limit,
        v.copied <= v.next(event).0.copied,
        v.next(event).0.copied == v.copied + v.next(event).1.written().len(),
{
}

/// No write is larger than a chunk: the responder never holds more than
/// one chunk of the peer's data.
pub proof fn lemma_writes_fit_chunk(v: ResponderView, event: EventView)
    requires
        v.wf(),
    ensures
        v.next(event).1.written().len() <= v.chunk,
{
}

/// A run that is over stays over: the state no longer changes, the
/// outcome is repeated, and nothing more is written.
pub proof fn lemma_done_is_final(v: ResponderView, event: EventView)
    requires
        v.stage is Done,
    ensures
        v.next(event).0 == v,
        v.next(event).1 == (StepView::Done { outcome: v.stage->outcome }),
        v.next(event).1.written() == Seq::<u8>::empty(),
{
}

/// While the responder is at work, every chunk offered to it so far has
/// been handed back for writing: the bytes written are the bytes offered,
/// in the same order, and the count is their number.
pub proof fn lemma_working_run_copies_all(v: ResponderView, events: Seq<EventView>)
    requires
        v.wf(),
        !v.done_after(events),
    ensures
        v.written(events) == offered(events),
        v.after(events).wf(),
        v.after(events).chunk == v.chunk,
        v.after(events).limit == v.limit,
        v.after(events).copied == v.copied + offered(events).len(),
    decreases events.len(),
{
    if events.len() > 0 {
        let before = v.after(events.drop_last());
        if before.stage is Done {
            lemma_done_is_final(before, events.last());
        }
        lemma_working_run_copies_all(v, events.drop_last());
        lemma_step_keeps_bounds(before, events.last());
    }
}

/// Whatever the transport reports, and in whatever order, a responder
/// stays well formed, within its limit, and writes only what was offered:
/// the bytes written are always a prefix of the bytes offered.
pub proof fn lemma_written_is_prefix(v: ResponderView, events: Seq<EventView>)
    requires
        v.wf(),
    ensures
        v.written(events).is_prefix_of(offered(events)),
        v.after(events).wf(),
        v.after(events).limit == v.limit,
        v.written(events).len() <= v.limit - v.copied,
    decreases events.len(),
{
    if events.len() > 0 {
        let rest = events.drop_last();
        let before = v.after(rest);
        lemma_written_is_prefix(v, rest);
        lemma_step_keeps_bounds(before, events.last());
        if before.stage is Done {
            lemma_done_is_final(before, events.last());
            assert(v.written(events) =~= v.written(rest));
        } else {
            lemma_working_run_copies_all(v, rest);
        }
        lemma_written_within_count(v, events);
    }
}

/// The bytes written during a run are as many as the count grew.
pub proof fn lemma_written_within_count(v: ResponderView, events: Seq<EventView>)
    requires
        v.wf(),
    ensures
        v.after(events).wf(),
        v.after(events).limit == v.limit,
        v.after(events).copied == v.copied + v.written(events).len(),
    decreases events.len(),
{
    if events.len() > 0 {
        lemma_written_within_count(v, events.drop_last());
        lemma_step_keeps_bounds(v.after(events.drop_last()), events.last());
    }
}

/// A completed run echoes. If the responder was at work until the last
/// event and that event ended the run with [`Outcome::Served`], then the
/// bytes written back are exactly the bytes that the peer's stream
/// offered, in the same order, and the outcome counts them.
pub proof fn lemma_completed_run_echoes(v: ResponderView, events: Seq<EventView>)
    requires
        v.wf(),
        v.completes(events),
    ensures
        v.written(events) == offered(events),
        v.after(events).stage == (ResponderStage::Done {
            outcome: Outcome::Served { copied: (v.copied + offered(events).len()) as usize },
        }),
        v.copied + offered(events).len() <= v.limit,
{
    let before = v.after(events.drop_last());
    lemma_working_run_copies_all(v, events.drop_last());
    lemma_step_keeps_bounds(before, events.last());
    assert(before.stage == ResponderStage::Draining && events.last() == EventView::Ready);
    assert(offered(events) =~= offered(events.drop_last()));
    assert(v.written(events) =~= v.written(events.drop_last()));
}

/// The chunks of `chunks` laid end to end.
pub open spec fn joined(chunks: Seq<Seq<u8>>) -> Seq<u8>
    decreases chunks.len(),
{
    if chunks.len() == 0 {
        Seq::empty()
    } else {
        joined(chunks.drop_last()) + chunks.last()
    }
}

/// Whether a transport can deliver `chunks` to a responder with these
/// bounds: no chunk is larger than one read, all of them together fit the
/// limit, and none is left over once the limit is reached.
pub open spec fn deliverable(chunks: Seq<Seq<u8>>, chunk: usize, limit: usize) -> bool {
    &&& forall|i: int| 0 <= i < chunks.len() ==> (#[trigger] chunks[i]).len() <= chunk
    &&& joined(chunks).len() <= limit
    &&& chunks.len() > 0 ==> joined(chunks.drop_last()).len() < limit
}

/// What a transport reports when it serves a responder as asked up to the
/// end of the peer's data: the responder is started, the stream opens,
/// and each chunk arrives and is then written.
pub open spec fn faithful_reads(chunks: Seq<Seq<u8>>) -> Seq<EventView>
    decreases chunks.len(),
{
    if chunks.len() == 0 {
        seq![EventView::Start, EventView::Ready]
    } else {
        faithful_reads(chunks.drop_last()).push(EventView::Data { bytes: chunks.last() }).push(
            EventView::Ready,
        )
    }
}

/// A whole session served as asked: the reads of [`faithful_reads`]; then
/// the peer half-closes, unless the chunks have filled the limit and the
/// responder reads no further; then the send side is closed and the peer
/// hangs up.
pub open spec fn faithful_session(chunks: Seq<Seq<u8>>, limit: usize) -> Seq<EventView> {
    if joined(chunks).len() < limit {
        faithful_reads(chunks).push(EventView::End).push(EventView::Ready).push(EventView::Ready)
    } else {
        faithful_reads(chunks).push(EventView::Ready).push(EventView::Ready)
    }
}

/// Answering one more event: the state, the bytes written and the bytes
/// offered each grow by that event's share.
pub proof fn lemma_one_more_event(v: ResponderView, events: Seq<EventView>, event: EventView)
    ensures
        v.after(events.push(event)) == v.after(events).next(event).0,
        v.written(events.push(event)) == v.written(events) + v.after(events).next(
            event,
        ).1.written(),
        offered(events.push(event)) == offered(events) + event.offered(),
{
    assert(events.push(event).drop_last() =~= events);
    assert(events.push(event).last() == event);
}

/// Dropping the last chunk does not make the whole longer.
proof fn lemma_joined_grows(chunks: Seq<Seq<u8>>)
    requires
        chunks.len() > 0,
    ensures
        joined(chunks).len() == joined(chunks.drop_last()).len() + chunks.last().len(),
{
}

proof fn lemma_faithful_reads(v: ResponderView, chunks: Seq<Seq<u8>>)
    requires
        v.wf(),
        v.stage == ResponderStage::Idle,
        v.copied == 0,
        deliverable(chunks, v.chunk, v.limit),
    ensures
        v.after(faithful_reads(chunks)) == (ResponderView {
            stage: if joined(chunks).len() < v.limit {
                ResponderStage::Reading
            } else {
                ResponderStage::Finishing
            },
            copied: joined(chunks).len() as usize,
            ..v
        }),
        v.written(faithful_reads(chunks)) == joined(chunks),
        offered(faithful_reads(chunks)) == joined(chunks),
    decreases chunks.len(),
{
    let none = Seq::<EventView>::empty();
    if chunks.len() == 0 {
        lemma_one_more_event(v, none, EventView::Start);
        lemma_one_more_event(v, none.push(EventView::Start), EventView::Ready);
        assert(faithful_reads(chunks) =~= none.push(EventView::Start).push(EventView::Ready));
        assert(v.written(none) =~= Seq::<u8>::empty());
        assert(offered(none) =~= Seq::<u8>::empty());
        assert(v.written(faithful_reads(chunks)) =~= joined(chunks));
        assert(offered(faithful_reads(chunks)) =~= joined(chunks));
    } else {
        let earlier = chunks.drop_last();
        let reads = faithful_reads(earlier);
        let data = EventView::Data { bytes: chunks.last() };
        assert forall|i: int| 0 <= i < earlier.len() implies (#[trigger] earlier[i]).len()
            <= v.chunk by {
            assert(earlier[i] == chunks[i]);
        }
        if earlier.len() > 0 {
            lemma_joined_grows(earlier);
        }
        lemma_joined_grows(chunks);
        assert(chunks.last() == chunks[chunks.len() - 1]);
        lemma_faithful_reads(v, earlier);
        lemma_one_more_event(v, reads, data);
        lemma_one_more_event(v, reads.push(data), EventView::Ready);
        assert(v.written(faithful_reads(chunks)) =~= joined(chunks));
        assert(offered(faithful_reads(chunks)) =~= joined(chunks));
    }
}

/// Echo holds of every input that the bounds admit. Take any bytes, cut
/// into chunks in any way that a transport can deliver. Served as asked,
/// a fresh responder completes, and what it writes back is those bytes,
/// in order, all of them and nothing else.
pub proof fn lemma_echo_copies_every_input(chunk: usize, limit: usize, chunks: Seq<Seq<u8>>)
    requires
        0 < chunk,
        deliverable(chunks, chunk, limit),
    ensures
        ResponderView::fresh(chunk, limit).completes(faithful_session(chunks, limit)),
        offered(faithful_session(chunks, limit)) == joined(chunks),
        ResponderView::fresh(chunk, limit).written(faithful_session(chunks, limit)) == joined(
            chunks,
        ),
        ResponderView::fresh(chunk, limit).after(faithful_session(chunks, limit)).stage == (
        ResponderStage::Done {
            outcome: Outcome::Served { copied: joined(chunks).len() as usize },
        }),
{
    let v = ResponderView::fresh(chunk, limit);
    let reads = faithful_reads(chunks);
    lemma_faithful_reads(v, chunks);
    if joined(chunks).len() < limit {
        let ended = reads.push(EventView::End);
        let finished = ended.push(EventView::Ready);
        lemma_one_more_event(v, reads, EventView::End);
        lemma_one_more_event(v, ended, EventView::Ready);
        lemma_one_more_event(v, finished, EventView::Ready);
        assert(faithful_session(chunks, limit).drop_last() =~= finished);
    } else {
        let finished = reads.push(EventView::Ready);
        lemma_one_more_event(v, reads, EventView::Ready);
        lemma_one_more_event(v, finished, EventView::Ready);
        assert(faithful_session(chunks, limit).drop_last() =~= finished);
    }
    assert(v.written(faithful_session(chunks, limit)) =~= joined(chunks));
    assert(offered(faithful_session(chunks, limit)) =~= joined(chunks));
}

/// The ping responder returns a nonce. However the transport cuts the
/// nonce into chunks, the responder, served as asked, completes, and what
/// it writes back is the nonce.
pub proof fn lemma_pong_returns_nonce(nonce: Seq<u8>, chunks: Seq<Seq<u8>>)
    requires
        nonce.len() == NONCE_LEN,
        joined(chunks) == nonce,
        chunks.len() > 0 ==> joined(chunks.drop_last()).len() < NONCE_LEN,
    ensures
        ResponderView::fresh(NONCE_LEN, NONCE_LEN).completes(faithful_session(chunks, NONCE_LEN)),
        offered(faithful_session(chunks, NONCE_LEN)) == nonce,
        ResponderView::fresh(NONCE_LEN, NONCE_LEN).written(faithful_session(chunks, NONCE_LEN))
            == nonce,
{
    assert forall|i: int| 0 <= i < chunks.len() implies (#[trigger] chunks[i]).len()
        <= NONCE_LEN by {
        lemma_chunk_within_whole(chunks, i);
    }
    lemma_echo_copies_every_input(NONCE_LEN, NONCE_LEN, chunks);
}

/// No chunk is longer than all chunks laid end to end.
pub proof fn lemma_chunk_within_whole(chunks: Seq<Seq<u8>>, i: int)
    requires
        0 <= i < chunks.len(),
    ensures
        chunks[i].len() <= joined(chunks).len(),
    decreases chunks.len(),
{
    if i < chunks.len() - 1 {
        lemma_chunk_within_whole(chunks.drop_last(), i);
    }
}

/// When the endpoint closes, a responder that is at work ends at once
/// with [`Failure::Closed`]: no responder holds up a shutdown.
pub proof fn lemma_closing_ends_responder(v: ResponderView)
    requires
        !(v.stage is Done),
    ensures
        v.next(EventView::Closed) == v.end(Outcome::Failed { failure: Failure::Closed }),
        v.next(EventView::Closed).0.phase() == Phase::Done,
{
}

impl ResponderView {
    /// Whether the send side has been half-closed, or is about to be: the
    /// responder has asked to finish, or its run is over.
    pub open spec fn past_writing(self) -> bool {
        self.stage is Finishing || self.stage is Draining || self.stage is Done
    }
}

/// The send side is not used once it is finished: from the moment a
/// responder asks to half-close, it hands over nothing more for writing,
/// whatever arrives.
pub proof fn lemma_no_write_after_finish(v: ResponderView, events: Seq<EventView>)
    requires
        v.past_writing(),
    ensures
        v.after(events).past_writing(),
        v.written(events) == Seq::<u8>::empty(),
    decreases events.len(),
{
    if events.len() > 0 {
        lemma_no_write_after_finish(v, events.drop_last());
    }
}

} // verus!
