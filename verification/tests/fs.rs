use hooch::fs::file::{AsyncHoochFile, FileOperation, FilePoll, HoochFile};
use hooch::reactor::{Reactor, Token};

type Opening = AsyncHoochFile<&'static str, u32, u8, String>;

const FILE_READ_NAME: &str = "./tests/resources/my_file.txt";

#[test]
fn test_hooch_open_file_ok() {
    let mut reactor: Reactor<&str> = Reactor::new();
    let mut opening: Opening = HoochFile::open(FILE_READ_NAME, &mut reactor);
    assert_eq!(reactor.handle_event(Token(0)), Vec::<&str>::new());
    match opening.poll(&mut reactor, "task") {
        FilePoll::Start(FileOperation::Open, path) => assert_eq!(path, FILE_READ_NAME),
        _ => panic!("the operation is started"),
    }
    assert_eq!(reactor.handle_event(Token(0)), vec!["task"]);
    assert!(matches!(opening.poll(&mut reactor, "task"), FilePoll::Pending));
    opening.complete(Ok(3), &mut reactor);
    assert_eq!(reactor.handle_event(Token(0)), vec!["task"]);
    let acutal = match opening.poll(&mut reactor, "task") {
        FilePoll::Ready(result) => result,
        _ => panic!("the result is there"),
    };
    assert!(acutal.is_ok());
    assert_eq!(acutal.unwrap().handle, 3);
    assert!(matches!(opening.poll(&mut reactor, "task"), FilePoll::Pending));
}

#[test]
fn failed_creation_gives_the_error() {
    let mut reactor: Reactor<u8> = Reactor::new();
    let mut opening: Opening = HoochFile::create("here", &mut reactor);
    assert!(matches!(
        opening.poll(&mut reactor, 1),
        FilePoll::Start(FileOperation::Create, "here")
    ));
    opening.complete(Err("denied".to_string()), &mut reactor);
    match opening.poll(&mut reactor, 1) {
        FilePoll::Ready(Err(error)) => assert_eq!(error, "denied"),
        _ => panic!("the error is there"),
    }
}

#[test]
fn options_are_handed_to_the_operation() {
    let mut reactor: Reactor<u8> = Reactor::new();
    let mut opening: Opening = AsyncHoochFile::open_path(0o644, "there", &mut reactor);
    assert!(matches!(
        opening.poll(&mut reactor, 1),
        FilePoll::Start(FileOperation::Option(0o644), "there")
    ));
    assert!(matches!(opening.poll(&mut reactor, 1), FilePoll::Pending));
}
