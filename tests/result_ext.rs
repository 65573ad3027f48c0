use lobby_relay::{ErrorKind, Errors, ResultExt};

#[test]
fn unknown_with_pass() {
    let res: Result<u8, ()> = Ok(10);
    assert_eq!(res.unknown_with("test"), Ok(10));
}

#[test]
fn unknown_pass() {
    let res: Result<u8, ()> = Ok(10);
    assert_eq!(res.unknown(), Ok(10));
}

#[test]
fn unknown_with_fail() {
    let res: Result<u8, ()> = Err(());
    assert_eq!(
        res.unknown_with("test"),
        Err(Errors::Unknown("test".into()))
    );
}

#[test]
fn unknown_fail() {
    let x = "hello world";
    let res: Result<u8, _> = Err(x);
    assert_eq!(res.unknown(), Err(Errors::Unknown(format!("{x:?}"))));
}

#[test]
fn error_kinds_and_status_codes() {
    let cases = vec![
        (Errors::NotFound("a".into()), ErrorKind::NotFound, 404),
        (Errors::NotAllowed("b".into()), ErrorKind::NotAllowed, 403),
        (Errors::AlreadyConnected("c".into()), ErrorKind::AlreadyConnected, 409),
        (Errors::LobbyAlreadyExists("d".into()), ErrorKind::LobbyAlreadyExists, 409),
        (Errors::Unknown("e".into()), ErrorKind::Unknown, 500),
    ];
    for (e, kind, code) in cases {
        assert_eq!(e.kind(), kind);
        assert_eq!(e.status_code(), code);
    }
    assert_eq!(Errors::NotAllowed("Wrong key!".into()).message(), "Wrong key!");
}
