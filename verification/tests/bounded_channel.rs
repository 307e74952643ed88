use hooch::reactor::{Poll, Reactor, Token};
use hooch::sync::mpsc::bounded_channel::{bounded_channel, Offer, RecvError, SendOutcome, TryRecvError};

#[test]
fn test_bounded_channels() {
    let mut reactor: Reactor<&str> = Reactor::new();
    let (mytx, myrx, mut channel) = bounded_channel::<i32, &str>(1, &mut reactor);

    assert!(matches!(myrx.poll_recv(&mut channel, &mut reactor, "task"), Poll::Pending));
    assert!(matches!(mytx.send(42, &mut channel, &mut reactor), SendOutcome::Sent));
    assert_eq!(reactor.handle_event(Token(0)), vec!["task"]);

    let result = match myrx.poll_recv(&mut channel, &mut reactor, "task") {
        Poll::Ready(rx_res) => rx_res.unwrap(),
        Poll::Pending => 0,
    };
    assert_eq!(result, 42);
}

#[test]
fn messages_are_received_in_order() {
    let mut reactor: Reactor<u8> = Reactor::new();
    let (tx, rx, mut channel) = bounded_channel::<u32, u8>(3, &mut reactor);
    for n in [5, 6, 7] {
        assert!(matches!(tx.send(n, &mut channel, &mut reactor), SendOutcome::Sent));
    }
    assert_eq!(channel.len(), 3);
    assert_eq!(rx.try_recv(&mut channel), Ok(5));
    assert!(matches!(
        rx.poll_recv(&mut channel, &mut reactor, 0),
        Poll::Ready(Ok(6))
    ));
    assert_eq!(rx.try_recv(&mut channel), Ok(7));
    assert_eq!(channel.len(), 0);
    assert_eq!(reactor.pending_tags(), 3);
}

#[test]
fn full_channel_hands_the_message_back() {
    let mut reactor: Reactor<u8> = Reactor::new();
    let (tx, rx, mut channel) = bounded_channel::<u32, u8>(1, &mut reactor);
    assert!(channel.accepts());
    assert!(matches!(tx.send(1, &mut channel, &mut reactor), SendOutcome::Sent));
    assert!(!channel.accepts());
    assert!(matches!(tx.send(2, &mut channel, &mut reactor), SendOutcome::Full(2)));
    assert_eq!(reactor.pending_tags(), 1);
    assert_eq!(rx.try_recv(&mut channel), Ok(1));
    assert!(matches!(tx.send(2, &mut channel, &mut reactor), SendOutcome::Sent));
}

#[test]
fn empty_channel_tells_open_from_closed() {
    let mut reactor: Reactor<u8> = Reactor::new();
    let (tx, rx, mut channel) = bounded_channel::<u32, u8>(2, &mut reactor);
    assert_eq!(rx.try_recv(&mut channel), Err(TryRecvError::Empty));
    tx.send(1, &mut channel, &mut reactor);
    assert_eq!(tx.drop(&mut channel, &mut reactor), None);
    assert_eq!(rx.try_recv(&mut channel), Ok(1));
    assert_eq!(rx.try_recv(&mut channel), Err(TryRecvError::Disconnected));
    assert!(matches!(
        rx.poll_recv(&mut channel, &mut reactor, 0),
        Poll::Ready(Err(RecvError))
    ));
}

#[test]
fn receiving_at_once_keeps_the_count() {
    let mut reactor: Reactor<u8> = Reactor::new();
    let (tx, rx, mut channel) = bounded_channel::<u32, u8>(2, &mut reactor);
    tx.send(1, &mut channel, &mut reactor);
    assert_eq!(rx.try_recv(&mut channel), Ok(1));
    assert!(matches!(rx.poll_recv(&mut channel, &mut reactor, 0), Poll::Pending));
}

#[test]
fn last_sender_wakes_the_waiting_task() {
    let mut reactor: Reactor<u8> = Reactor::new();
    let (tx, rx, mut channel) = bounded_channel::<u32, u8>(1, &mut reactor);
    let other = tx.clone(&mut channel);
    assert_eq!(channel.senders(), 2);
    assert!(matches!(rx.poll_recv(&mut channel, &mut reactor, 9), Poll::Pending));
    assert_eq!(tx.drop(&mut channel, &mut reactor), None);
    assert!(matches!(rx.poll_recv(&mut channel, &mut reactor, 9), Poll::Pending));
    assert_eq!(other.drop(&mut channel, &mut reactor), Some(9));
    assert!(matches!(
        rx.poll_recv(&mut channel, &mut reactor, 9),
        Poll::Ready(Err(RecvError))
    ));
    assert!(reactor.remove_tag(rx.reactor_tag).is_none());
}

#[test]
fn channel_without_receiver_refuses() {
    let mut reactor: Reactor<u8> = Reactor::new();
    let (tx, rx, mut channel) = bounded_channel::<u32, u8>(2, &mut reactor);
    tx.send(1, &mut channel, &mut reactor);
    rx.drop(&mut channel);
    assert_eq!(channel.len(), 0);
    assert!(matches!(tx.send(2, &mut channel, &mut reactor), SendOutcome::Disconnected(2)));
}

#[test]
fn rendezvous_waits_for_the_receiver() {
    let mut reactor: Reactor<u8> = Reactor::new();
    let (tx, rx, mut channel) = bounded_channel::<u32, u8>(0, &mut reactor);
    let ticket = match tx.send(1, &mut channel, &mut reactor) {
        SendOutcome::Offered(ticket) => ticket,
        _ => panic!("the message is offered"),
    };
    assert!(matches!(channel.settle(ticket), Offer::Waiting));
    assert!(matches!(tx.send(2, &mut channel, &mut reactor), SendOutcome::Full(2)));
    assert_eq!(rx.try_recv(&mut channel), Ok(1));
    assert!(matches!(channel.settle(ticket), Offer::Taken));
    let ticket = match tx.send(3, &mut channel, &mut reactor) {
        SendOutcome::Offered(ticket) => ticket,
        _ => panic!("the message is offered"),
    };
    rx.drop(&mut channel);
    assert!(matches!(channel.settle(ticket), Offer::Refused(3)));
}

#[test]
fn open_offer_keeps_its_message() {
    let mut reactor: Reactor<u32> = Reactor::new();
    let (tx, rx, mut channel) = bounded_channel::<char, u32>(0, &mut reactor);
    let ticket = match tx.send('a', &mut channel, &mut reactor) {
        SendOutcome::Offered(ticket) => ticket,
        _ => panic!("the message is offered"),
    };
    assert!(matches!(tx.send('b', &mut channel, &mut reactor), SendOutcome::Full('b')));
    let other = tx.clone(&mut channel);
    other.drop(&mut channel, &mut reactor);
    assert!(channel.can_settle(ticket));
    assert!(matches!(channel.settle(ticket), Offer::Waiting));
    rx.drop(&mut channel);
    assert!(channel.can_settle(ticket));
    assert!(matches!(channel.settle(ticket), Offer::Refused('a')));
    assert!(!channel.can_settle(ticket));
}
