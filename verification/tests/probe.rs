use peer_echo::error::Failure;
use peer_echo::identity::PeerIdentity;
use peer_echo::probe::{check_reply, Probe, CLOSE_CODE, REPLY_LIMIT};
use peer_echo::tag::ProtocolTag;
use peer_echo::transport::{Event, Outcome, Phase, Request, Step};

const NONCE: [u8; 8] = [0xde, 0xad, 0xbe, 0xef, 0, 1, 2, 3];

fn peer() -> PeerIdentity {
    PeerIdentity::from_bytes([7u8; 32])
}

fn ask(request: Request) -> Step {
    Step::Ask { request }
}

fn done(outcome: Outcome) -> Step {
    Step::Done { outcome }
}

fn failed(failure: Failure) -> Step {
    done(Outcome::Failed { failure })
}

fn close() -> Step {
    ask(Request::Close { code: 0, reason: b"bye!".to_vec() })
}

/// A ping that has sent its nonce and waits for the reply.
fn receiving() -> Probe {
    let mut p = Probe::ping(peer(), NONCE);
    for event in [Event::Start, Event::Ready, Event::Ready, Event::Ready, Event::Ready] {
        p.step(event);
    }
    p
}

#[test]
fn ping_walks_through_its_stages() {
    let mut p = Probe::ping(peer(), NONCE);
    assert_eq!(p.phase(), Phase::Idle);
    assert_eq!(
        p.step(Event::Start),
        ask(Request::Connect { peer: peer(), tag: ProtocolTag::from_text("test/ping/0") })
    );
    assert_eq!(p.phase(), Phase::Active);
    assert_eq!(p.step(Event::Ready), ask(Request::OpenStream));
    assert_eq!(p.step(Event::Ready), ask(Request::Write { bytes: NONCE.to_vec() }));
    assert_eq!(p.step(Event::Ready), ask(Request::Finish));
    assert_eq!(p.step(Event::Ready), ask(Request::ReadToEnd { limit: 1000 }));
    assert_eq!(p.step(Event::Data { bytes: NONCE.to_vec() }), close());
    assert_eq!(p.outcome(), None);
    assert_eq!(p.step(Event::Ready), done(Outcome::Verified));
    assert_eq!(p.phase(), Phase::Done);
    assert_eq!(p.outcome(), Some(Outcome::Verified));
}

#[test]
fn constants_are_as_documented() {
    assert_eq!(REPLY_LIMIT, 1000);
    assert_eq!(CLOSE_CODE, 0);
}

#[test]
fn an_altered_reply_is_a_verification_failure() {
    let mut reply = NONCE.to_vec();
    reply[7] ^= 1;
    let mut p = receiving();
    assert_eq!(p.step(Event::Data { bytes: reply }), close());
    assert_eq!(p.step(Event::Ready), failed(Failure::VerificationFailure));
}

#[test]
fn a_truncated_reply_is_a_verification_failure() {
    let mut p = receiving();
    assert_eq!(p.step(Event::Data { bytes: NONCE[..7].to_vec() }), close());
    assert_eq!(p.step(Event::Ready), failed(Failure::VerificationFailure));
}

#[test]
fn an_empty_reply_is_a_verification_failure() {
    let mut p = receiving();
    assert_eq!(p.step(Event::Data { bytes: Vec::new() }), close());
    assert_eq!(p.step(Event::Ready), failed(Failure::VerificationFailure));
}

#[test]
fn a_longer_reply_is_a_verification_failure() {
    let mut reply = NONCE.to_vec();
    reply.push(0);
    let mut p = receiving();
    assert_eq!(p.step(Event::Data { bytes: reply }), close());
    assert_eq!(p.step(Event::Ready), failed(Failure::VerificationFailure));
}

#[test]
fn a_reply_over_the_limit_is_a_verification_failure() {
    let mut p = receiving();
    assert_eq!(p.step(Event::TooLong), close());
    assert_eq!(p.step(Event::Ready), failed(Failure::VerificationFailure));
}

#[test]
fn a_refused_dial_is_a_dial_error() {
    let mut p = Probe::ping(peer(), NONCE);
    p.step(Event::Start);
    assert_eq!(p.step(Event::Failed), failed(Failure::DialError));
    assert_eq!(p.outcome(), Some(Outcome::Failed { failure: Failure::DialError }));
}

#[test]
fn a_failure_after_the_dial_is_a_stream_error() {
    for ready in 1..6 {
        let mut p = Probe::ping(peer(), NONCE);
        p.step(Event::Start);
        for _ in 0..ready {
            p.step(Event::Ready);
        }
        if ready == 5 {
            p.step(Event::Data { bytes: NONCE.to_vec() });
        }
        assert_eq!(p.step(Event::Failed), failed(Failure::StreamError));
    }
}

#[test]
fn closing_the_endpoint_ends_a_probe_at_every_stage() {
    for ready in 0..5 {
        let mut p = Probe::ping(peer(), NONCE);
        p.step(Event::Start);
        for _ in 0..ready {
            p.step(Event::Ready);
        }
        assert_eq!(p.step(Event::Closed), failed(Failure::Closed));
        assert_eq!(p.phase(), Phase::Done);
    }
    let mut idle = Probe::ping(peer(), NONCE);
    assert_eq!(idle.step(Event::Closed), failed(Failure::Closed));
}

#[test]
fn an_unexpected_event_aborts_a_probe() {
    let mut p = Probe::ping(peer(), NONCE);
    assert_eq!(p.step(Event::Ready), failed(Failure::StreamError));

    let mut p = Probe::ping(peer(), NONCE);
    p.step(Event::Start);
    assert_eq!(p.step(Event::Data { bytes: NONCE.to_vec() }), failed(Failure::StreamError));

    let mut p = receiving();
    assert_eq!(p.step(Event::End), failed(Failure::StreamError));

    let mut p = receiving();
    assert_eq!(p.step(Event::Ready), failed(Failure::StreamError));
}

#[test]
fn a_probe_reports_once() {
    let mut p = receiving();
    p.step(Event::Data { bytes: vec![1] });
    assert_eq!(p.step(Event::Ready), failed(Failure::VerificationFailure));
    let later = [Event::Start, Event::Ready, Event::Data { bytes: NONCE.to_vec() }, Event::Failed];
    for event in later {
        assert_eq!(p.step(event), failed(Failure::VerificationFailure));
    }
}

#[test]
fn a_general_probe_sends_its_payload_under_its_tag() {
    let tag = ProtocolTag::echo();
    let mut p = Probe::new(peer(), tag.clone(), b"Hello, world!".to_vec(), 1000);
    assert_eq!(p.step(Event::Start), ask(Request::Connect { peer: peer(), tag }));
    assert_eq!(p.step(Event::Ready), ask(Request::OpenStream));
    assert_eq!(p.step(Event::Ready), ask(Request::Write { bytes: b"Hello, world!".to_vec() }));
    assert_eq!(p.step(Event::Ready), ask(Request::Finish));
    assert_eq!(p.step(Event::Ready), ask(Request::ReadToEnd { limit: 1000 }));
    assert_eq!(p.step(Event::Data { bytes: b"Hello, world!".to_vec() }), close());
    assert_eq!(p.step(Event::Ready), done(Outcome::Verified));
}

#[test]
fn an_empty_payload_is_verified_by_an_empty_reply() {
    let mut p = Probe::new(peer(), ProtocolTag::echo(), Vec::new(), 0);
    for event in [Event::Start, Event::Ready, Event::Ready, Event::Ready] {
        p.step(event);
    }
    assert_eq!(p.step(Event::Ready), ask(Request::ReadToEnd { limit: 0 }));
    assert_eq!(p.step(Event::Data { bytes: Vec::new() }), close());
    assert_eq!(p.step(Event::Ready), done(Outcome::Verified));
}

#[test]
fn check_reply_is_exact() {
    assert_eq!(check_reply(&NONCE, &NONCE), Outcome::Verified);
    assert_eq!(check_reply(b"", b""), Outcome::Verified);
    let wrong = Outcome::Failed { failure: Failure::VerificationFailure };
    assert_eq!(check_reply(&NONCE, &NONCE[1..]), wrong);
    assert_eq!(check_reply(&NONCE, &NONCE[..7]), wrong);
    assert_eq!(check_reply(&NONCE, b""), wrong);
    assert_eq!(check_reply(b"", &NONCE), wrong);
    assert_eq!(check_reply(&[1, 2, 3], &[1, 2, 4]), wrong);
    assert_eq!(check_reply(&[1, 2, 3], &[3, 2, 1]), wrong);
}

#[test]
fn every_nonce_that_returns_intact_is_verified() {
    for seed in 0..=255u8 {
        let mut nonce = [0u8; 8];
        for (i, byte) in nonce.iter_mut().enumerate() {
            *byte = seed.wrapping_mul(31).wrapping_add(i as u8 * 17);
        }
        let mut p = Probe::ping(peer(), nonce);
        for event in [Event::Start, Event::Ready, Event::Ready, Event::Ready, Event::Ready] {
            p.step(event);
        }
        p.step(Event::Data { bytes: nonce.to_vec() });
        assert_eq!(p.step(Event::Ready), done(Outcome::Verified));

        let mut flipped = nonce;
        flipped[(seed % 8) as usize] ^= 0x80;
        assert_eq!(
            check_reply(&nonce, &flipped),
            Outcome::Failed { failure: Failure::VerificationFailure }
        );
    }
}
