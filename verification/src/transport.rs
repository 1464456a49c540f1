//! The boundary to the peer transport.
//!
//! The library never touches the network. A handler says what it asks of
//! the transport next (a [`Request`]), the caller performs it and reports
//! what happened (an [`Event`]).

use crate::error::Failure;
use crate::identity::PeerIdentity;
use crate::tag::ProtocolTag;
use vstd::prelude::*;

verus! {

/// What a handler asks of the transport.
#[derive(Clone, Debug, PartialEq, Eq)]
pub enum Request {
    /// Establish a connection to `peer`, requesting `tag`.
    Connect { peer: PeerIdentity, tag: ProtocolTag },
    /// Open a bidirectional stream on the connection.
    OpenStream,
    /// Wait for the peer to open a bidirectional stream.
    AcceptStream,
    /// Read the next chunk of at most `max` bytes.
    Read { max: usize },
    /// Read until the peer half-closes, accepting at most `limit` bytes.
    ReadToEnd { limit: usize },
    /// Write all of `bytes`.
    Write { bytes: Vec<u8> },
    /// Half-close the send side of the stream.
    Finish,
    /// Close the connection, giving the peer `code` and `reason`.
    Close { code: u32, reason: Vec<u8> },
    /// Wait until the peer has closed the connection.
    AwaitClosed,
}

/// A [`Request`] as a mathematical value.
pub enum RequestView {
    Connect { peer: Seq<u8>, tag: Seq<u8> },
    OpenStream,
    AcceptStream,
    Read { max: nat },
    ReadToEnd { limit: nat },
    Write { bytes: Seq<u8> },
    Finish,
    Close { code: nat, reason: Seq<u8> },
    AwaitClosed,
}

impl View for Request {
    type V = RequestView;

    open spec fn view(&self) -> RequestView {
        match self {
            Request::Connect { peer, tag } => RequestView::Connect { peer: peer@, tag: tag@ },
            Request::OpenStream => RequestView::OpenStream,
            Request::AcceptStream => RequestView::AcceptStream,
            Request::Read { max } => RequestView::Read { max: *max as nat },
            Request::ReadToEnd { limit } => RequestView::ReadToEnd { limit: *limit as nat },
            Request::Write { bytes } => RequestView::Write { bytes: bytes@ },
            Request::Finish => RequestView::Finish,
            Request::Close { code, reason } => RequestView::Close {
                code: *code as nat,
                reason: reason@,
            },
            Request::AwaitClosed => RequestView::AwaitClosed,
        }
    }
}

/// What the transport reports back to a handler.
#[derive(Clone, Debug, PartialEq, Eq)]
pub enum Event {
    /// The handler is given its connection and may begin.
    Start,
    /// The pending request succeeded and carries no data.
    Ready,
    /// The pending read returned these bytes.
    Data { bytes: Vec<u8> },
    /// The pending read found the stream half-closed by the peer.
    End,
    /// The pending read met more bytes than its limit allows.
    TooLong,
    /// The pending request failed.
    Failed,
    /// The pending request was cancelled because the endpoint is closing.
    Closed,
}

/// An [`Event`] as a mathematical value.
pub enum EventView {
    Start,
    Ready,
    Data { bytes: Seq<u8> },
    End,
    TooLong,
    Failed,
    Closed,
}

impl View for Event {
    type V = EventView;

    open spec fn view(&self) -> EventView {
        match self {
            Event::Start => EventView::Start,
            Event::Ready => EventView::Ready,
            Event::Data { bytes } => EventView::Data { bytes: bytes@ },
            Event::End => EventView::End,
            Event::TooLong => EventView::TooLong,
            Event::Failed => EventView::Failed,
            Event::Closed => EventView::Closed,
        }
    }
}

/// How a handler's run ended.
#[derive(Clone, Copy, Debug, PartialEq, Eq, Structural)]
pub enum Outcome {
    /// A responder copied this many bytes back to its peer and both sides
    /// are done.
    Served { copied: usize },
    /// A probe received exactly the bytes that it had sent.
    Verified,
    /// The run was cut short.
    Failed { failure: Failure },
}

/// The lifecycle of a handler.
#[derive(Clone, Copy, Debug, PartialEq, Eq, Structural)]
pub enum Phase {
    /// Not yet started.
    Idle,
    /// Started, with a request to the transport outstanding.
    Active,
    /// Ended, successfully or not. A handler never leaves this phase.
    Done,
}

/// What a handler does in answer to an event.
#[derive(Clone, Debug, PartialEq, Eq)]
pub enum Step {
    /// Perform this request and report the resulting event.
    Ask { request: Request },
    /// The run is over.
    Done { outcome: Outcome },
}

/// A [`Step`] as a mathematical value.
pub enum StepView {
    Ask { request: RequestView },
    Done { outcome: Outcome },
}

impl View for Step {
    type V = StepView;

    open spec fn view(&self) -> StepView {
        match self {
            Step::Ask { request } => StepView::Ask { request: request@ },
            Step::Done { outcome } => StepView::Done { outcome: *outcome },
        }
    }
}

impl StepView {
    /// The bytes that this step hands to the transport for writing.
    pub open spec fn written(self) -> Seq<u8> {
        match self {
            StepView::Ask { request: RequestView::Write { bytes } } => bytes,
            _ => Seq::empty(),
        }
    }
}

impl EventView {
    /// The failure that this event stands for when it is not the answer
    /// that a handler waited for: the endpoint is closing, or else the
    /// stream has failed.
    pub open spec fn failure(self) -> Failure {
        if self is Closed {
            Failure::Closed
        } else {
            Failure::StreamError
        }
    }

    /// The bytes that this event hands to the handler.
    pub open spec fn offered(self) -> Seq<u8> {
        match self {
            EventView::Data { bytes } => bytes,
            _ => Seq::empty(),
        }
    }
}

/// The failure that an event stands for when it is not the answer that a
/// handler waited for.
pub fn failure_of(event: &Event) -> (failure: Failure)
    ensures
        failure == event@.failure(),
{
    match event {
        Event::Closed => Failure::Closed,
        _ => Failure::StreamError,
    }
}

} // verus!
