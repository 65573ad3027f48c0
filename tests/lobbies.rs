use lobby_relay::{
    ErrorKind, Flow, Frame, FrameKind, Lobbies, LobbySummary, Polled, SocketEvent,
    BROADCAST_CAPACITY, QUEUE_CAPACITY,
};

fn text(s: &str) -> Frame {
    Frame { kind: FrameKind::Text, payload: s.as_bytes().to_vec() }
}

fn sized(n: usize) -> Frame {
    Frame { kind: FrameKind::Binary, payload: vec![7u8; n] }
}

#[test]
fn create() {
    let mut lobbies = Lobbies::new();
    let key = lobbies.new_lobby("viv").unwrap();
    assert_eq!(key.len(), 36);
}

#[test]
fn duplicate() {
    let mut lobbies = Lobbies::new();
    let _ = lobbies.new_lobby("viv");
    let err = lobbies.new_lobby("viv").unwrap_err();
    assert_eq!(err.status_code(), 409);
    assert_eq!(err.kind(), ErrorKind::LobbyAlreadyExists);
}

#[test]
fn second_create_keeps_first_key() {
    let mut lobbies = Lobbies::new();
    let key = lobbies.new_lobby("viv").unwrap();
    assert!(lobbies.new_lobby("viv").is_err());
    assert!(lobbies.connect_streamer("viv", &key).is_ok());
}

#[test]
fn keys_are_fresh_per_lobby() {
    let mut lobbies = Lobbies::new();
    let a = lobbies.new_lobby("a").unwrap();
    let b = lobbies.new_lobby("b").unwrap();
    assert_ne!(a, b);
    assert_eq!(a.matches('-').count(), 4);
}

#[test]
fn lookup_reports_owner_and_connection() {
    let mut lobbies = Lobbies::new();
    assert_eq!(lobbies.lookup("viv"), None);
    let key = lobbies.new_lobby_with_key("viv", "k1".to_owned()).unwrap();
    assert_eq!(key, "k1");
    assert_eq!(
        lobbies.lookup("viv"),
        Some(LobbySummary { owner: "viv".to_owned(), connected: false })
    );
    lobbies.connect_streamer("viv", "k1").unwrap();
    assert_eq!(
        lobbies.lookup("viv"),
        Some(LobbySummary { owner: "viv".to_owned(), connected: true })
    );
}

#[test]
fn remove_is_idempotent() {
    let mut lobbies = Lobbies::new();
    lobbies.new_lobby_with_key("viv", "k".to_owned()).unwrap();
    lobbies.remove("viv");
    assert_eq!(lobbies.lookup("viv"), None);
    lobbies.remove("viv");
    assert_eq!(lobbies.lookup("viv"), None);
}

#[test]
fn streamer_handshake_errors() {
    let mut lobbies = Lobbies::new();
    assert_eq!(lobbies.connect_streamer("viv", "k").unwrap_err().kind(), ErrorKind::NotFound);
    lobbies.new_lobby_with_key("viv", "Key".to_owned()).unwrap();
    assert_eq!(lobbies.connect_streamer("viv", "key").unwrap_err().kind(), ErrorKind::NotAllowed);
    assert_eq!(lobbies.connect_streamer("viv", "").unwrap_err().status_code(), 403);
    let h = lobbies.connect_streamer("viv", "Key").unwrap();
    assert_eq!(h.user, "viv");
    let second = lobbies.connect_streamer("viv", "Key").unwrap_err();
    assert_eq!(second.kind(), ErrorKind::AlreadyConnected);
    assert_eq!(second.status_code(), 409);
}

#[test]
fn wrong_key_with_real_key() {
    let mut lobbies = Lobbies::new();
    let key = lobbies.new_lobby("viv").unwrap();
    let wrong = key.to_uppercase();
    assert_ne!(wrong, key);
    assert_eq!(lobbies.connect_streamer("viv", &wrong).unwrap_err().kind(), ErrorKind::NotAllowed);
}

#[test]
fn one_of_two_streamers_wins() {
    let mut lobbies = Lobbies::new();
    lobbies.new_lobby_with_key("viv", "k".to_owned()).unwrap();
    let first = lobbies.connect_streamer("viv", "k");
    let second = lobbies.connect_streamer("viv", "k");
    assert!(first.is_ok());
    assert_eq!(second.unwrap_err().kind(), ErrorKind::AlreadyConnected);
    let v = lobbies.connect_user("viv").unwrap();
    assert_eq!(v.relay, first.unwrap().relay);
}

#[test]
fn viewer_needs_a_streamer() {
    let mut lobbies = Lobbies::new();
    assert_eq!(lobbies.connect_user("viv").unwrap_err().kind(), ErrorKind::NotFound);
    lobbies.new_lobby_with_key("viv", "k".to_owned()).unwrap();
    assert_eq!(lobbies.connect_user("viv").unwrap_err().status_code(), 404);
    let s = lobbies.connect_streamer("viv", "k").unwrap();
    let v = lobbies.connect_user("viv").unwrap();
    assert_eq!(v.relay, s.relay);
    assert_eq!(v.cursor, 0);
}

#[test]
fn broadcast_reaches_every_viewer_in_order() {
    let mut lobbies = Lobbies::new();
    lobbies.new_lobby_with_key("viv", "k".to_owned()).unwrap();
    let s = lobbies.connect_streamer("viv", "k").unwrap();
    let mut viewers = vec![
        lobbies.connect_user("viv").unwrap(),
        lobbies.connect_user("viv").unwrap(),
        lobbies.connect_user("viv").unwrap(),
    ];
    for m in ["one", "two", "three"] {
        assert_eq!(lobbies.streamer_on_socket(&s, SocketEvent::Received(text(m))), Flow::Continue);
    }
    for v in viewers.iter_mut() {
        assert_eq!(lobbies.viewer_poll(v), Polled::Deliver(text("one")));
        assert_eq!(lobbies.viewer_poll(v), Polled::Deliver(text("two")));
        assert_eq!(lobbies.viewer_poll(v), Polled::Deliver(text("three")));
        assert_eq!(lobbies.viewer_poll(v), Polled::Wait);
    }
}

#[test]
fn late_viewer_sees_no_backlog() {
    let mut lobbies = Lobbies::new();
    lobbies.new_lobby_with_key("viv", "k".to_owned()).unwrap();
    let s = lobbies.connect_streamer("viv", "k").unwrap();
    lobbies.streamer_on_socket(&s, SocketEvent::Received(text("early")));
    let mut v = lobbies.connect_user("viv").unwrap();
    assert_eq!(v.cursor, 1);
    assert_eq!(lobbies.viewer_poll(&mut v), Polled::Wait);
    lobbies.streamer_on_socket(&s, SocketEvent::Received(text("late")));
    assert_eq!(lobbies.viewer_poll(&mut v), Polled::Deliver(text("late")));
}

#[test]
fn close_frames_are_not_broadcast() {
    let mut lobbies = Lobbies::new();
    lobbies.new_lobby_with_key("viv", "k".to_owned()).unwrap();
    let s = lobbies.connect_streamer("viv", "k").unwrap();
    let mut v = lobbies.connect_user("viv").unwrap();
    let close = Frame { kind: FrameKind::Close, payload: Vec::new() };
    assert_eq!(lobbies.streamer_on_socket(&s, SocketEvent::Received(close)), Flow::Continue);
    assert_eq!(lobbies.viewer_poll(&mut v), Polled::Wait);
}

#[test]
fn lagging_viewer_skips_and_resumes() {
    let mut lobbies = Lobbies::new();
    lobbies.new_lobby_with_key("viv", "k".to_owned()).unwrap();
    let s = lobbies.connect_streamer("viv", "k").unwrap();
    let mut v = lobbies.connect_user("viv").unwrap();
    let total = BROADCAST_CAPACITY + 5;
    for i in 0..total {
        lobbies.streamer_on_socket(&s, SocketEvent::Received(text(&i.to_string())));
    }
    assert_eq!(lobbies.viewer_poll(&mut v), Polled::Deliver(text("5")));
    assert_eq!(v.cursor, 6);
    assert_eq!(lobbies.viewer_poll(&mut v), Polled::Deliver(text("6")));
    for _ in 7..total {
        assert!(matches!(lobbies.viewer_poll(&mut v), Polled::Deliver(_)));
    }
    assert_eq!(lobbies.viewer_poll(&mut v), Polled::Wait);
    lobbies.streamer_on_socket(&s, SocketEvent::Received(text("next")));
    assert_eq!(lobbies.viewer_poll(&mut v), Polled::Deliver(text("next")));
}

#[test]
fn viewer_frame_size_limit() {
    let mut lobbies = Lobbies::new();
    lobbies.new_lobby_with_key("viv", "k".to_owned()).unwrap();
    let s = lobbies.connect_streamer("viv", "k").unwrap();
    let v = lobbies.connect_user("viv").unwrap();
    let exact = sized(1000);
    assert_eq!(lobbies.viewer_on_socket(&v, &SocketEvent::Received(sized(1001))), Flow::Continue);
    assert_eq!(lobbies.streamer_next(&s), None);
    assert_eq!(lobbies.viewer_on_socket(&v, &SocketEvent::Received(sized(1000))), Flow::Continue);
    assert_eq!(lobbies.streamer_next(&s), Some(exact));
    assert_eq!(lobbies.streamer_next(&s), None);
}

#[test]
fn viewer_frames_reach_streamer_in_order() {
    let mut lobbies = Lobbies::new();
    lobbies.new_lobby_with_key("viv", "k".to_owned()).unwrap();
    let s = lobbies.connect_streamer("viv", "k").unwrap();
    let a = lobbies.connect_user("viv").unwrap();
    let b = lobbies.connect_user("viv").unwrap();
    lobbies.viewer_on_socket(&a, &SocketEvent::Received(text("a1")));
    lobbies.viewer_on_socket(&b, &SocketEvent::Received(text("b1")));
    lobbies.viewer_on_socket(&a, &SocketEvent::Received(text("a2")));
    assert_eq!(lobbies.streamer_next(&s), Some(text("a1")));
    assert_eq!(lobbies.streamer_next(&s), Some(text("b1")));
    assert_eq!(lobbies.streamer_next(&s), Some(text("a2")));
}

#[test]
fn full_queue_holds_viewers_back() {
    let mut lobbies = Lobbies::new();
    lobbies.new_lobby_with_key("viv", "k".to_owned()).unwrap();
    let s = lobbies.connect_streamer("viv", "k").unwrap();
    let v = lobbies.connect_user("viv").unwrap();
    for _ in 0..QUEUE_CAPACITY {
        assert_eq!(lobbies.viewer_on_socket(&v, &SocketEvent::Received(text("x"))), Flow::Continue);
    }
    let extra = SocketEvent::Received(text("y"));
    assert_eq!(lobbies.viewer_on_socket(&v, &extra), Flow::Wait);
    assert_eq!(lobbies.streamer_next(&s), Some(text("x")));
    assert_eq!(lobbies.viewer_on_socket(&v, &extra), Flow::Continue);
}

#[test]
fn viewer_socket_end_leaves_lobby() {
    let mut lobbies = Lobbies::new();
    lobbies.new_lobby_with_key("viv", "k".to_owned()).unwrap();
    lobbies.connect_streamer("viv", "k").unwrap();
    let v = lobbies.connect_user("viv").unwrap();
    assert_eq!(lobbies.viewer_on_socket(&v, &SocketEvent::Ended), Flow::End);
    assert_eq!(lobbies.lookup("viv").map(|l| l.connected), Some(true));
}

#[test]
fn streamer_end_tears_lobby_down() {
    let mut lobbies = Lobbies::new();
    lobbies.new_lobby_with_key("viv", "k".to_owned()).unwrap();
    let s = lobbies.connect_streamer("viv", "k").unwrap();
    let mut v1 = lobbies.connect_user("viv").unwrap();
    let mut v2 = lobbies.connect_user("viv").unwrap();
    assert_eq!(lobbies.streamer_on_socket(&s, SocketEvent::Ended), Flow::End);
    assert_eq!(lobbies.lookup("viv"), None);
    assert_eq!(lobbies.viewer_poll(&mut v1), Polled::End);
    assert_eq!(lobbies.viewer_poll(&mut v2), Polled::End);
    assert_eq!(lobbies.viewer_on_socket(&v1, &SocketEvent::Received(text("hi"))), Flow::End);
    assert_eq!(lobbies.connect_user("viv").unwrap_err().kind(), ErrorKind::NotFound);
    assert!(lobbies.new_lobby("viv").is_ok());
}

#[test]
fn old_viewer_stays_out_of_a_new_lobby() {
    let mut lobbies = Lobbies::new();
    lobbies.new_lobby_with_key("viv", "k".to_owned()).unwrap();
    let s = lobbies.connect_streamer("viv", "k").unwrap();
    let mut old = lobbies.connect_user("viv").unwrap();
    lobbies.streamer_on_socket(&s, SocketEvent::Ended);
    lobbies.new_lobby_with_key("viv", "k2".to_owned()).unwrap();
    let s2 = lobbies.connect_streamer("viv", "k2").unwrap();
    assert_ne!(s2.relay, s.relay);
    lobbies.streamer_on_socket(&s2, SocketEvent::Received(text("new")));
    assert_eq!(lobbies.viewer_poll(&mut old), Polled::End);
    assert_eq!(lobbies.streamer_on_socket(&s, SocketEvent::Ended), Flow::End);
    assert_eq!(lobbies.lookup("viv").map(|l| l.connected), Some(true));
}

#[test]
fn full_session_scenario() {
    let mut lobbies = Lobbies::new();
    let key = lobbies.new_lobby("viv").unwrap();
    let s = lobbies.connect_streamer("viv", &key).unwrap();
    let mut v = lobbies.connect_user("viv").unwrap();
    let state = text("{\"data\":{\"units\":[]}}");
    assert_eq!(lobbies.streamer_on_socket(&s, SocketEvent::Received(text("{\"data\":{\"units\":[]}}"))), Flow::Continue);
    assert_eq!(lobbies.viewer_poll(&mut v), Polled::Deliver(state));
    let click = text("{\"x\":0.5,\"y\":0.25,\"userId\":\"1\",\"bubbleColor\":\"red\",\"bubbleSize\":1.0}");
    assert_eq!(lobbies.viewer_on_socket(&v, &SocketEvent::Received(text("{\"x\":0.5,\"y\":0.25,\"userId\":\"1\",\"bubbleColor\":\"red\",\"bubbleSize\":1.0}"))), Flow::Continue);
    assert_eq!(lobbies.streamer_next(&s), Some(click));
    assert_eq!(lobbies.streamer_on_socket(&s, SocketEvent::Ended), Flow::End);
    assert_eq!(lobbies.viewer_poll(&mut v), Polled::End);
    let again = lobbies.new_lobby("viv").unwrap();
    assert_ne!(again, key);
}
