use lobby_relay::{default_catcher, index, GenericError};

#[test]
fn index_says_online() {
    assert_eq!(index(), "I am online!");
}

#[test]
fn catcher_gives_known_reason() {
    assert_eq!(
        default_catcher(404),
        GenericError { status: 404, reason: Some("Not Found".to_owned()) }
    );
    assert_eq!(default_catcher(500).reason.as_deref(), Some("Internal Server Error"));
}

#[test]
fn catcher_without_reason_for_unknown_code() {
    assert_eq!(default_catcher(599), GenericError { status: 599, reason: None });
}
