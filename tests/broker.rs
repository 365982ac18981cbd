use metrics::message_broker::{BrokerError, MessageBroker};
use std::sync::mpsc::channel;

#[derive(Clone, Debug)]
#[allow(dead_code)]
enum Message {
    Unknown,
    Shutdown,
}

#[test]
fn test_broker() {
    let broker = MessageBroker::new_shared();

    // Create the receiver and sender for two channels.
    let (tx1, rx1) = channel::<Message>();
    let (tx2, rx2) = channel::<Message>();

    {
        let mut guard = broker.lock().unwrap();
        guard.add_actor("actor1", tx1.clone()).unwrap();
        assert!(guard.add_actor("actor1", tx1.clone()).is_err());

        guard.add_actor("actor2", tx2.clone()).unwrap();
    }

    // Check that we can send a message.
    {
        let mut guard = broker.lock().unwrap();
        guard.send_message("actor1", Message::Shutdown).unwrap();
        drop(guard);
        match rx1.recv().unwrap() {
            Message::Shutdown => {}
            _ => panic!("Didn't get a Shutdown message"),
        }
    }

    // Check that we can broadcast a message.
    {
        let mut guard = broker.lock().unwrap();
        let failed = guard.broadcast_message(Message::Shutdown);
        assert!(failed.is_empty());
        drop(guard);
        match rx1.recv().unwrap() {
            Message::Shutdown => {}
            _ => panic!("Didn't get a Shutdown message"),
        }
        match rx2.recv().unwrap() {
            Message::Shutdown => {}
            _ => panic!("Didn't get a Shutdown message"),
        }
    }

    // Remove the actors.
    {
        let mut guard = broker.lock().unwrap();
        guard.remove_actor("actor1").unwrap();
        guard.remove_actor("actor2").unwrap();
        assert!(guard.remove_actor("actor1").is_err());
    }
}

#[test]
fn duplicate_target_is_refused() {
    let mut broker = MessageBroker::<u32>::new();
    let (tx, _rx) = channel::<u32>();
    assert_eq!(broker.add_actor("x", tx.clone()), Ok(()));
    assert_eq!(broker.add_actor("x", tx.clone()), Err(BrokerError::DuplicateTarget));
    assert_eq!(broker.remove_actor("x"), Ok(()));
    assert_eq!(broker.add_actor("x", tx), Ok(()));
}

#[test]
fn unknown_and_dropped_targets() {
    let mut broker = MessageBroker::<u32>::new();
    assert_eq!(broker.send_message("queue", 1), Err(BrokerError::NoSuchTarget));
    assert_eq!(broker.remove_actor("queue"), Err(BrokerError::NoSuchTarget));
    let (tx, rx) = channel::<u32>();
    broker.add_actor("queue", tx).unwrap();
    drop(rx);
    assert_eq!(broker.send_message("queue", 1), Err(BrokerError::SendingError));
}

#[test]
fn broadcast_goes_on_past_a_dropped_mailbox() {
    let mut broker = MessageBroker::<u32>::new();
    let (tx1, rx1) = channel::<u32>();
    let (tx2, rx2) = channel::<u32>();
    let (tx3, rx3) = channel::<u32>();
    broker.add_actor("a", tx1).unwrap();
    broker.add_actor("b", tx2).unwrap();
    broker.add_actor("c", tx3).unwrap();
    drop(rx2);
    let failed = broker.broadcast_message(7);
    assert_eq!(failed, vec!["b".to_owned()]);
    assert_eq!(rx1.recv().unwrap(), 7);
    assert_eq!(rx3.recv().unwrap(), 7);
    broker.remove_actor("a").unwrap();
    broker.remove_actor("b").unwrap();
    broker.remove_actor("c").unwrap();
}
