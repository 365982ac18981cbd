use metrics::frame_messages::{ClientMessage, ClientPayload, FilterAck, SuccessFrame};
use metrics::internal_messages::InternalMessage;
use metrics::listener::{MessageOutcome, Phase, Session, SourceRegistry};

const NOW: &str = "2018-03-30T07:03:08Z";

fn message(seq: u64, timestamp: u64, payload: ClientPayload) -> ClientMessage {
    ClientMessage { timestamp, seq_number: seq, payload }
}

fn named(name: &str) -> ClientPayload {
    let mut p = ClientPayload::default();
    p.name = name.to_owned();
    p
}

fn ready(live: &mut SourceRegistry, source: &str) -> Session {
    let mut s = Session::new();
    assert!(s.handshake(Some(source.to_owned()), live));
    s
}

#[test]
fn second_handshake_with_a_live_source_is_refused() {
    let mut live = SourceRegistry::new();
    let first = ready(&mut live, "test_source");
    assert_eq!(first.phase_now(), Phase::Ready);

    let mut second = Session::new();
    assert!(!second.handshake(Some("test_source".to_owned()), &mut live));
    assert_eq!(second.phase_now(), Phase::Closed);
    second.close(&mut live);
    assert!(live.contains("test_source"));

    let third = ready(&mut live, "test_source_2");
    assert_eq!(third.phase_now(), Phase::Ready);
}

#[test]
fn source_is_free_again_after_close() {
    let mut live = SourceRegistry::new();
    let mut first = ready(&mut live, "test_source");
    first.close(&mut live);
    assert!(!live.contains("test_source"));
    let again = ready(&mut live, "test_source");
    assert_eq!(again.phase_now(), Phase::Ready);
}

#[test]
fn unreadable_handshake_closes() {
    let mut live = SourceRegistry::new();
    let mut s = Session::new();
    assert!(!s.handshake(None, &mut live));
    assert_eq!(s.phase_now(), Phase::Closed);
}

#[test]
fn monotonic_sequence_with_errors() {
    let mut live = SourceRegistry::new();
    let mut s = ready(&mut live, "test_source");

    let out = s.process_messages(
        vec![message(1, 9999997, named("NE9")), message(2, 9999999, named("NE8"))],
        NOW,
    );
    assert_eq!(out.len(), 2);
    for (i, o) in out.iter().enumerate() {
        match o {
            MessageOutcome::Accepted(p, ack) => {
                assert_eq!(*ack, SuccessFrame { success: true, seq_number: i as u64 + 1 });
                assert_eq!(p.DT.as_deref(), Some(NOW));
            }
            _ => panic!("expected an accepted message"),
        }
    }

    let out = s.process_messages(vec![message(3, 9999999, ClientPayload::default())], NOW);
    match &out[..] {
        [MessageOutcome::Rejected(f)] => {
            assert_eq!(f.success, false);
            assert_eq!(f.seq_number, 3);
            assert_eq!(f.error, "EmptyName");
        }
        _ => panic!("expected one rejected message"),
    }
    assert_eq!(s.phase_now(), Phase::Ready);

    let out = s.process_messages(vec![message(4, 9999999, ClientPayload::bad_ri6())], NOW);
    match &out[..] {
        [MessageOutcome::Rejected(f)] => {
            assert_eq!(f.success, false);
            assert_eq!(f.seq_number, 4);
            assert_eq!(f.error, "InvalidRI6");
        }
        _ => panic!("expected one rejected message"),
    }

    let out = s.process_messages(vec![message(5, 9999999, ClientPayload::test_ri12())], NOW);
    assert!(matches!(&out[..], [MessageOutcome::Accepted(_, SuccessFrame { success: true, seq_number: 5 })]));
    assert_eq!(s.phase_now(), Phase::Ready);
}

#[test]
fn backwards_sequence_closes_and_drops_the_rest() {
    let mut live = SourceRegistry::new();
    let mut s = ready(&mut live, "src");
    let out = s.process_messages(
        vec![message(5, 0, named("a")), message(5, 0, named("b")), message(6, 0, named("c"))],
        NOW,
    );
    assert_eq!(out.len(), 2);
    assert!(matches!(out[0], MessageOutcome::Accepted(..)));
    assert!(matches!(out[1], MessageOutcome::OutOfOrder(5)));
    assert_eq!(s.phase_now(), Phase::Closed);
    s.close(&mut live);
    assert!(!live.contains("src"));
}

#[test]
fn sequence_may_restart_at_one() {
    let mut live = SourceRegistry::new();
    let mut s = ready(&mut live, "src");
    let out = s.process_messages(
        vec![message(7, 0, named("a")), message(1, 0, named("b")), message(2, 0, named("c"))],
        NOW,
    );
    assert_eq!(out.len(), 3);
    assert!(out.iter().all(|o| matches!(o, MessageOutcome::Accepted(..))));
    assert_eq!(s.phase_now(), Phase::Ready);
}

#[test]
fn invalid_payload_still_moves_the_sequence() {
    let mut live = SourceRegistry::new();
    let mut s = ready(&mut live, "src");
    let out = s.process_messages(vec![message(3, 0, ClientPayload::default()), message(3, 0, named("a"))], NOW);
    assert!(matches!(out[0], MessageOutcome::Rejected(_)));
    assert!(matches!(out[1], MessageOutcome::OutOfOrder(3)));
}

#[test]
fn receive_fills_dt_from_the_clock() {
    let mut live = SourceRegistry::new();
    let mut s = ready(&mut live, "src");
    let out = s.receive(vec![message(1, 0, named("NE9"))]);
    match &out[..] {
        [MessageOutcome::Accepted(p, _)] => assert_eq!(p.DT.as_ref().unwrap().len(), 20),
        _ => panic!("expected an accepted message"),
    }
}

#[test]
fn filter_acks_are_forwarded_by_kind() {
    let mut live = SourceRegistry::new();
    let s = ready(&mut live, "src");
    let ack = FilterAck { kind: "FilterAck".to_owned(), success: true, reason: None };
    match s.forward_filter_ack::<u32>(ack) {
        Some(InternalMessage::FilterAck(a)) => assert!(a.success),
        _ => panic!("expected the ack to be forwarded"),
    }
    let other = FilterAck { kind: "Something".to_owned(), success: true, reason: None };
    assert!(s.forward_filter_ack::<u32>(other).is_none());
}
