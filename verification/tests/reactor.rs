use hooch::executor::Status;
use hooch::reactor::{Poll, Reactor, ReactorTag, TagType, Token};

fn pending<T>(poll: Poll<T>) -> bool {
    matches!(poll, Poll::Pending)
}

#[test]
fn tokens_and_tags_count_up() {
    let mut reactor: Reactor<u32> = Reactor::new();
    assert_eq!(reactor.unique_token(), Token(1));
    assert_eq!(reactor.unique_token(), Token(2));
    assert_eq!(reactor.generate_reactor_tag(), ReactorTag(0));
    assert_eq!(reactor.generate_reactor_tag(), ReactorTag(1));
    assert_eq!(Reactor::<u32>::waker_token(), Token(0));
}

#[test]
fn event_is_reported_once() {
    let mut reactor: Reactor<u32> = Reactor::new();
    let token = reactor.unique_token();
    assert!(!reactor.has_token_progressed(token));
    assert!(pending(reactor.poll(token, 7, |_| false)));
    assert!(!reactor.has_token_progressed(token));
    assert_eq!(reactor.handle_event(token), vec![7]);
    assert!(reactor.has_token_progressed(token));
    assert!(!pending(reactor.poll(token, 7, |_| false)));
    assert!(!reactor.has_token_progressed(token));
    assert!(pending(reactor.poll(token, 8, |_| false)));
}

#[test]
fn event_before_the_poll_wakes_nobody() {
    let mut reactor: Reactor<u32> = Reactor::new();
    let token = reactor.unique_token();
    assert_eq!(reactor.handle_event(token), vec![]);
    assert_eq!(reactor.handle_event(token), vec![]);
    assert!(!pending(reactor.poll(token, 7, |_| true)));
}

#[test]
fn later_waker_replaces_an_earlier_one_that_wakes_another_task() {
    let mut reactor: Reactor<u32> = Reactor::new();
    let token = reactor.unique_token();
    reactor.status_store(token, 1);
    assert!(pending(reactor.poll(token, 2, |stored| *stored == 1)));
    assert_eq!(reactor.handle_event(token), vec![1]);
    reactor.status_store(token, 1);
    assert!(pending(reactor.poll(token, 2, |stored| *stored == 2)));
    assert_eq!(reactor.handle_event(token), vec![2]);
}

#[test]
fn waker_event_serves_all_pending_tags() {
    let mut reactor: Reactor<u32> = Reactor::new();
    let a = reactor.generate_reactor_tag();
    let b = reactor.generate_reactor_tag();
    let c = reactor.generate_reactor_tag();
    reactor.store_waker_channel(a, 10);
    reactor.store_waker_channel(b, 20);
    reactor.register_reactor_tag(b);
    reactor.register_reactor_tag(c);
    reactor.register_reactor_tag(a);
    reactor.register_reactor_tag(b);
    assert_eq!(reactor.pending_tags(), 4);
    assert_eq!(reactor.handle_event(Token(0)), vec![20, 10, 20]);
    assert_eq!(reactor.pending_tags(), 0);
    assert_eq!(reactor.handle_event(Token(0)), vec![]);
    reactor.register_reactor_tag(a);
    assert_eq!(reactor.handle_event(Token(0)), vec![10]);
}

#[test]
fn removed_tag_wakes_nobody() {
    let mut reactor: Reactor<u32> = Reactor::new();
    let a = reactor.generate_reactor_tag();
    reactor.store_waker_channel(a, 10);
    reactor.register_reactor_tag(a);
    assert!(matches!(reactor.remove_tag(a), Some(TagType::Channel(10))));
    assert!(reactor.remove_tag(a).is_none());
    assert_eq!(reactor.handle_event(Token(0)), vec![]);
}

#[test]
fn batch_of_events_is_handled_in_turn() {
    let mut reactor: Reactor<u32> = Reactor::new();
    let first = reactor.unique_token();
    let second = reactor.unique_token();
    let tag = reactor.generate_reactor_tag();
    reactor.store_waker_channel(tag, 30);
    reactor.register_reactor_tag(tag);
    reactor.status_store(first, 1);
    reactor.status_store(second, 2);
    let woken = reactor.run(&vec![second, Token(0), first, second]);
    assert_eq!(woken, vec![2, 30, 1]);
    assert!(reactor.has_token_progressed(first));
    assert!(reactor.has_token_progressed(second));
    assert_eq!(reactor.run(&vec![]), vec![]);
}

#[test]
fn status_tells_awaited_from_happened() {
    assert!(matches!(Status::Awaited(3), Status::Awaited(3)));
    assert!(matches!(Status::<u8>::Happened, Status::Happened));
}
