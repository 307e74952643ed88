use hooch::net::tcp::listener::{AcceptStep, HoochTcpListener};
use hooch::net::tcp::socket::{Attempt, IoStep, Operation, Registration, SocketPoll};
use hooch::net::tcp::stream::HoochTcpStream;
use hooch::reactor::{Reactor, Token};

#[test]
fn stream_is_connected_and_registered() {
    let mut reactor: Reactor<u32> = Reactor::new();
    let mut connecting = HoochTcpStream::<char>::connect::<_, String, u32>("localhost:80", &mut reactor);
    assert_eq!(reactor.pending_tags(), 1);
    assert!(matches!(connecting.poll(4), SocketPoll::Start("localhost:80")));
    assert!(matches!(connecting.poll(5), SocketPoll::Pending));
    assert_eq!(connecting.complete(Ok('s')), Some(4));
    let made = match connecting.poll(4) {
        SocketPoll::Ready(made) => made,
        _ => panic!("the connection is made"),
    };
    assert!(matches!(connecting.poll(4), SocketPoll::Pending));
    let (stream, chosen) = HoochTcpStream::connected(made, &mut reactor).unwrap();
    assert_eq!(stream, 's');
    assert_eq!(chosen, Registration { token: Token(1), readable: true, writable: true });
    let done = HoochTcpStream::registered::<String>(stream, chosen, Ok(())).unwrap();
    assert_eq!(done.token, Token(1));
    assert_eq!(done.stream, 's');
}

#[test]
fn failed_connection_gives_the_error() {
    let mut reactor: Reactor<u32> = Reactor::new();
    let next = HoochTcpStream::<char>::connected::<_, u32>(Err("refused"), &mut reactor);
    assert_eq!(next.err(), Some("refused"));
    assert_eq!(reactor.unique_token(), Token(1));
    let chosen = Registration { token: Token(9), readable: true, writable: true };
    assert_eq!(HoochTcpStream::registered('s', chosen, Err("full")).err(), Some("full"));
}

#[test]
fn reading_waits_for_the_stream() {
    let mut reactor: Reactor<u32> = Reactor::new();
    let token = reactor.unique_token();
    let stream = HoochTcpStream { stream: (), token };
    let mut operation = Operation::new();
    assert!(operation.is_due());
    assert!(matches!(
        stream.read::<String, u32, _>(&mut operation, Attempt::WouldBlock, &mut reactor, 6, |_| false),
        IoStep::Suspend
    ));
    assert!(!operation.is_due());
    assert_eq!(reactor.handle_event(token), vec![6]);
    assert!(matches!(
        stream.read::<String, u32, _>(&mut operation, Attempt::WouldBlock, &mut reactor, 6, |_| false),
        IoStep::Retry
    ));
    assert!(operation.is_due());
    assert!(matches!(
        stream.read::<String, u32, _>(&mut operation, Attempt::Done(1), &mut reactor, 6, |_| false),
        IoStep::Return(Ok(1))
    ));
}

#[test]
fn writing_reports_errors() {
    let mut reactor: Reactor<u32> = Reactor::new();
    let token = reactor.unique_token();
    let stream = HoochTcpStream { stream: (), token };
    let mut operation = Operation::new();
    assert!(operation.is_due());
    assert!(matches!(
        stream.write(&mut operation, Attempt::Failed("broken"), &mut reactor, 6, |_| false),
        IoStep::Return(Err("broken"))
    ));
    assert!(matches!(
        stream.write::<&str, u32, _>(&mut operation, Attempt::Done(3), &mut reactor, 6, |_| false),
        IoStep::Return(Ok(3))
    ));
    assert_eq!(reactor.handle_event(token), vec![]);
}

#[test]
fn listener_accepts_and_registers() {
    let mut reactor: Reactor<u32> = Reactor::new();
    let mut binding = HoochTcpListener::<char>::bind::<_, String, u32>(8080u16, &mut reactor);
    assert!(matches!(binding.poll(4), SocketPoll::Start(8080)));
    binding.complete(Ok('l'));
    let made = match binding.poll(4) {
        SocketPoll::Ready(made) => made,
        _ => panic!("the listener is bound"),
    };
    let (socket, chosen) = HoochTcpListener::bound(made, &mut reactor).unwrap();
    let listener = HoochTcpListener::registered::<String>(socket, chosen, Ok(())).unwrap();
    assert_eq!(listener.token, Token(1));

    let mut operation = Operation::new();
    type Step = AcceptStep<u8, &'static str, String>;
    let step: Step = listener.accept(&mut operation, Attempt::WouldBlock, &mut reactor, 6, |_| false);
    assert!(matches!(step, AcceptStep::Suspend));
    assert!(!operation.is_due());
    assert_eq!(reactor.handle_event(listener.token), vec![6]);
    let step: Step = listener.accept(&mut operation, Attempt::WouldBlock, &mut reactor, 6, |_| false);
    assert!(matches!(step, AcceptStep::Retry));
    assert!(operation.is_due());
    let step: Step = listener.accept(&mut operation, Attempt::Done((8, "peer")), &mut reactor, 6, |_| false);
    match step {
        AcceptStep::Register(stream, addr, chosen) => {
            assert_eq!(chosen.token, Token(2));
            let (stream, addr) =
                HoochTcpListener::<char>::accepted::<_, _, String>(stream, addr, chosen, Ok(()))
                    .unwrap();
            assert_eq!((stream.stream, stream.token, addr), (8, Token(2), "peer"));
        }
        _ => panic!("the connection is accepted"),
    }
    let step: Step = listener.accept(&mut operation, Attempt::Failed("gone".to_string()), &mut reactor, 6, |_| false);
    match step {
        AcceptStep::Failed(error) => assert_eq!(error, "gone"),
        _ => panic!("the error is returned"),
    }
}

#[test]
fn failed_bind_gives_the_error() {
    let mut reactor: Reactor<u32> = Reactor::new();
    let next = HoochTcpListener::<char>::bound::<_, u32>(Err("in use"), &mut reactor);
    assert_eq!(next.err(), Some("in use"));
    let chosen = Registration { token: Token(9), readable: true, writable: true };
    assert_eq!(HoochTcpListener::registered('l', chosen, Err("full")).err(), Some("full"));
    assert_eq!(
        HoochTcpListener::<char>::accepted('s', 1, chosen, Err("full")).err(),
        Some("full")
    );
}
