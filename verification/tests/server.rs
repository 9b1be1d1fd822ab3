use room_rtc::sdp::session_description::SessionDescriptionProtocol;
use room_rtc::server::central_server::{get_server_ip, load_users_from_text, server_ip_of, InterfaceAddress};
use room_rtc::server::error::ServerError;
use room_rtc::server::operating_server::{get_user_data, validate_string, OperatingServer};
use room_rtc::server::protocol::{ClientMessage, ServerAction, ServerMessage, ServerResponse};
use room_rtc::server::user::{UserData, UserStatus};
use room_rtc::server::user_handler::{ConnectionCounter, UserHandler};

fn setup() -> OperatingServer {
    OperatingServer::new(Vec::new(), "127.0.0.1:8080".to_string())
}

fn setup_with_users(map: Vec<(&str, &str, UserStatus)>) -> OperatingServer {
    let mut users = Vec::new();
    for (name, passwd, status) in map {
        users.push(UserData::new(name.to_string(), passwd.to_string(), status));
    }
    OperatingServer::new(users, "127.0.0.1:8080".to_string())
}

fn user<'a>(op_s: &'a OperatingServer, name: &str) -> Option<&'a UserData> {
    op_s.users.iter().find(|u| u.username == name)
}

fn user_mut<'a>(op_s: &'a mut OperatingServer, name: &str) -> Option<&'a mut UserData> {
    op_s.users.iter_mut().find(|u| u.username == name)
}

fn sdp() -> SessionDescriptionProtocol {
    SessionDescriptionProtocol::default()
}

#[test]
fn test_signup_ok() {
    let mut op_s = setup();
    let event = op_s.signup_user("alice".into(), "1234".into());
    assert!(matches!(event, ServerResponse::SignupOk));

    let alice = user(&op_s, "alice").expect("alice should exist");
    assert_eq!(alice.password, "1234");
}

#[test]
fn test_signup_sets_status_offline_by_default() {
    let mut op_s = setup();
    let _ = op_s.signup_user("alice".into(), "1234".into());

    assert!(matches!(user(&op_s, "alice").expect("Alice should exist").status, UserStatus::Offline));
}

#[test]
fn test_signup_existing_user() {
    let mut op_s = setup();
    op_s.signup_user("bob".into(), "pass".into());

    let event = op_s.signup_user("bob".into(), "other".into());
    match event {
        ServerResponse::SignupError(msg) => assert!(msg.contains("already exists")),
        other => unreachable!("Expected SignupError, got {:?}", other),
    }
}

#[test]
fn test_login_ok() {
    let mut op_s = setup();
    op_s.signup_user("maria".into(), "abcd".into());

    let event = op_s.login_user("maria".into(), "abcd".into());
    assert!(matches!(event, ServerResponse::LoginOk(_, _, _)));
}

#[test]
fn test_login_changes_status_to_available() {
    let mut op_s = setup();
    op_s.signup_user("maria".into(), "abcd".into());

    let _ = op_s.login_user("maria".into(), "abcd".into());
    assert!(matches!(user(&op_s, "maria").expect("Maria should exist").status, UserStatus::Available));
}

#[test]
fn test_cannot_login_twice_with_same_user() {
    let mut op_s = setup();
    op_s.signup_user("alice".into(), "abcd".into());

    let event = op_s.login_user("alice".into(), "abcd".into());
    assert!(matches!(event, ServerResponse::LoginOk(_, _, _)));
    let event = op_s.login_user("alice".into(), "abcd".into());
    assert!(matches!(event, ServerResponse::LoginError(_)));
}

#[test]
fn test_login_wrong_password() {
    let mut op_s = setup();
    op_s.signup_user("carl".into(), "mypw".into());

    let event = op_s.login_user("carl".into(), "WRONG".into());

    match event {
        ServerResponse::LoginError(msg) => assert!(msg.contains("Wrong password")),
        other => unreachable!("Expected LoginError, got {:?}", other),
    }
}

#[test]
fn test_login_user_not_found() {
    let mut op_s = setup();

    let event = op_s.login_user("ghost".into(), "nopw".into());

    match event {
        ServerResponse::LoginError(msg) => assert!(msg.contains("not found")),
        other => unreachable!("Expected LoginError, got {:?}", other),
    }
}

#[test]
fn logout_user_success() {
    let mut op_s = setup_with_users(vec![("alice", "1233", UserStatus::Available)]);

    let _result = op_s.logout_user("alice".to_string());

    let alice = user(&op_s, "alice").expect("Alice should exist");
    assert!(matches!(alice.status, UserStatus::Offline));
}

#[test]
fn logout_user_not_found() {
    let mut op_s = setup();

    let result = op_s.logout_user("ghost".to_string());

    assert!(matches!(result, ServerResponse::LogoutError(msg) if msg.contains("ghost")));
}

#[test]
fn logout_user_does_not_affect_others() {
    let mut op_s = setup_with_users(vec![
        ("bob", "xxx", UserStatus::Available),
        ("eve", "yyy", UserStatus::Occupied("someone".to_string())),
    ]);

    let _ = op_s.logout_user("bob".to_string());

    assert!(matches!(user(&op_s, "bob").unwrap().status, UserStatus::Offline));
    assert!(matches!(user(&op_s, "eve").unwrap().status, UserStatus::Occupied(_)));
}

#[test]
fn test_get_user_data_ok() {
    let op_s = setup_with_users(vec![("alice", "1234", UserStatus::Available)]);

    let res = get_user_data(&"alice".to_string(), &op_s.users);
    assert!(res.is_ok());
    assert_eq!(res.expect("Should succeed").username, "alice");
}

#[test]
fn test_get_user_data_not_found() {
    let op_s = setup();
    let res = get_user_data(&"ghost".to_string(), &op_s.users);
    assert!(res.is_err());
}

#[test]
fn test_call_hangup_ok() {
    let mut op_s = setup_with_users(vec![("alice", "xxx", UserStatus::Occupied("bob".into()))]);

    let result = op_s.call_hangup("alice".to_string());
    assert!(matches!(result, ServerResponse::CallHangUpOk));

    assert!(matches!(user(&op_s, "alice").unwrap().status, UserStatus::Available));
}

#[test]
fn test_call_hangup_unexpected_status() {
    let mut op_s = setup_with_users(vec![("alice", "xxx", UserStatus::Available)]);

    let result = op_s.call_hangup("alice".into());

    assert!(matches!(result, ServerResponse::CallHangUpError(msg) if msg.contains("Unexpected")));
}

#[test]
fn test_call_accept_success() {
    let mut op_s = setup_with_users(vec![
        ("bob", "123", UserStatus::Available),
        ("alice", "abc", UserStatus::Available),
    ]);

    let res = op_s.call_request("alice".into(), "bob".into(), sdp());

    let alice = user(&op_s, "alice").expect("Alice should exist");
    let bob = user(&op_s, "bob").expect("Bob should exist");

    match res {
        ServerResponse::CallRequestOk => {
            match &alice.status {
                UserStatus::Occupied(who) => assert_eq!(who, "bob"),
                other => unreachable!("Alice should be occupied by Bob, got {:?}", other),
            }

            match &bob.status {
                UserStatus::Occupied(who) => assert_eq!(who, "alice"),
                other => unreachable!("Bob should be occupied by Alice, got {:?}", other),
            }
        }
        ServerResponse::CallRequestError(_) => {
            assert_eq!(alice.status, UserStatus::Available);
            assert_eq!(bob.status, UserStatus::Available);
        }
        other => panic!("Unexpected response from call_request: {:?}", other),
    }
}

#[test]
fn test_call_accept_from_user_not_available() {
    let mut op_s = setup_with_users(vec![
        ("alice", "123", UserStatus::Occupied("x".into())),
        ("bob", "abc", UserStatus::Available),
    ]);

    let resp = op_s.call_accept("alice".into(), "bob".into(), sdp());

    match resp {
        ServerResponse::CallAcceptError(msg) => {
            assert!(msg.contains("user not available") || msg.contains("user does not exist"));
        }
        other => unreachable!("Expected CallAcceptError(UserNotAvailable), got {:?}", other),
    }
}

#[test]
fn test_call_accept_to_user_not_available() {
    let mut op_s = setup_with_users(vec![
        ("bob", "123", UserStatus::Occupied("x".into())),
        ("alice", "abc", UserStatus::Available),
    ]);

    let resp = op_s.call_accept("alice".into(), "bob".into(), sdp());

    match resp {
        ServerResponse::CallAcceptError(msg) => {
            assert!(msg.contains("user not available") || msg.contains("user does not exist"));
        }
        other => unreachable!("Expected CallAcceptError(UserNotAvailable), got {:?}", other),
    }
}

#[test]
fn test_call_accept_from_user_not_found() {
    let mut op_s = setup_with_users(vec![("bob", "123", UserStatus::Available)]);

    let resp = op_s.call_accept("alice".into(), "bob".into(), sdp());

    match resp {
        ServerResponse::CallAcceptError(msg) => {
            assert!(msg.contains("not found") || msg.contains("user does not exist"));
        }
        other => unreachable!("Expected CallAcceptError(UserNotFound), got {:?}", other),
    }
}

#[test]
fn test_call_accept_to_user_not_found() {
    let mut op_s = setup_with_users(vec![("bob", "123", UserStatus::Available)]);

    let resp = op_s.call_accept("alice".into(), "bob".into(), sdp());

    match resp {
        ServerResponse::CallAcceptError(msg) => {
            assert!(msg.contains("not found") || msg.contains("user does not exist"));
        }
        other => unreachable!("Expected CallAcceptError(UserNotFound), got {:?}", other),
    }
}

#[test]
fn test_call_reject_ok() {
    let mut op_s = setup_with_users(vec![
        ("bob", "abc", UserStatus::Available),
        ("alice", "123", UserStatus::Available),
    ]);

    user_mut(&mut op_s, "alice").expect("Alice should exist").update_status(UserStatus::Available);
    user_mut(&mut op_s, "bob").expect("Bob should exist").update_status(UserStatus::Available);

    let _ = op_s.call_reject("alice".into(), "bob".into());

    let alice = user(&op_s, "alice").expect("Alice should exist");
    let bob = user(&op_s, "bob").expect("Bob should exist");
    assert_eq!(alice.status, UserStatus::Available);
    assert_eq!(bob.status, UserStatus::Available);
}

#[test]
fn test_call_reject_user_not_available() {
    let mut op_s = setup_with_users(vec![
        ("bob", "abc", UserStatus::Available),
        ("alice", "123", UserStatus::Available),
    ]);

    user_mut(&mut op_s, "alice").expect("Alice should exist").update_status(UserStatus::Occupied("bob".into()));
    user_mut(&mut op_s, "bob").expect("Bob should exist").update_status(UserStatus::Available);

    let resp = op_s.call_reject("alice".into(), "bob".into());

    match resp {
        ServerResponse::CallRejectError(msg) => {
            assert!(msg.contains("user not available") || msg.contains("user does not exist"));
        }
        other => unreachable!("Expected CallRejectError because alice is not available, got {:?}", other),
    }
}

fn setup_handler() -> UserHandler {
    UserHandler::new(OperatingServer::new(Vec::new(), "127.0.0.1:8080".to_string()))
}

#[test]
fn test_dispatch_login() {
    let mut handler = setup_handler();

    handler.op_server.signup_user("tester".into(), "pass".into());

    let msg = ClientMessage::LogIn { username: "tester".into(), password: "pass".into() };

    let response = handler.handle_client_message(msg);

    match response {
        ServerResponse::LoginOk(u, _, _) => assert_eq!(u, "tester"),
        _ => unreachable!("LogIn did not answer LoginOk"),
    }
}

#[test]
fn test_dispatch_signup() {
    let mut handler = setup_handler();

    let msg = ClientMessage::SignUp { username: "newuser".into(), password: "123".into() };

    let response = handler.handle_client_message(msg);
    assert!(matches!(response, ServerResponse::SignupOk));
}

#[test]
fn test_dispatch_logout() {
    let mut handler = setup_handler();

    handler.op_server.signup_user("leaver".into(), "pass".into());
    handler.op_server.login_user("leaver".into(), "pass".into());

    let msg = ClientMessage::LogOut { token: "leaver".into() };
    let response = handler.handle_client_message(msg);

    assert!(matches!(response, ServerResponse::Error(_)));

    if let Some(u) = user(&handler.op_server, "leaver") {
        assert_eq!(u.status, UserStatus::Offline);
    }
}

#[test]
fn test_dispatch_call_hangup() {
    let mut handler = setup_handler();

    handler.op_server.signup_user("busy".into(), "pass".into());

    if let Some(data) = user_mut(&mut handler.op_server, "busy") {
        data.status = UserStatus::Occupied("other".into());
    }

    let msg = ClientMessage::CallHangup { token: "busy".into() };
    let response = handler.handle_client_message(msg);

    assert!(matches!(response, ServerResponse::CallHangUpOk));
}

#[test]
fn test_dispatch_call_request_validation() {
    let mut handler = setup_handler();

    let msg = ClientMessage::CallRequest {
        token: "origin".into(),
        to: "dest".into(),
        offer_sdp: SessionDescriptionProtocol::default(),
    };

    let response = handler.handle_client_message(msg);

    assert!(matches!(response, ServerResponse::Error(_)));
}

#[test]
fn test_load_users_valid_entries() {
    let content = "alice:1234\nbob:secret\ncharlie:pass";

    let users = load_users_from_text(content);
    assert_eq!(users.len(), 3);

    let alice = users.iter().find(|u| u.username == "alice").expect("alice is missing");
    assert_eq!(alice.password, "1234");
    assert_eq!(alice.status, UserStatus::Offline);

    let bob = users.iter().find(|u| u.username == "bob").expect("bob is missing");
    assert_eq!(bob.password, "secret");
}

#[test]
fn test_load_users_ignores_malformed_lines() {
    let content = "valid:pass\nmalformed\n\ncomplex:pass:word";

    let users = load_users_from_text(content);
    assert_eq!(users.len(), 2);
    assert!(users.iter().any(|u| u.username == "valid"));

    if let Some(u) = users.iter().find(|u| u.username == "complex") {
        assert_eq!(u.password, "pass:word");
    }
}

#[test]
fn load_users_later_line_wins_and_crlf_is_stripped() {
    let users = load_users_from_text("ann:one\r\nbob:two\r\nann:three\r\n");
    assert_eq!(users.len(), 2);
    assert_eq!(users[0].username, "ann");
    assert_eq!(users[0].password, "three");
    assert_eq!(users[1].password, "two");
}

#[test]
fn server_ip_of_picks_first_usable_interface() {
    let interfaces = vec![
        InterfaceAddress { is_loopback: true, ipv4: Some([127, 0, 0, 1]) },
        InterfaceAddress { is_loopback: false, ipv4: None },
        InterfaceAddress { is_loopback: false, ipv4: Some([192, 168, 10, 7]) },
        InterfaceAddress { is_loopback: false, ipv4: Some([10, 0, 0, 1]) },
    ];
    assert_eq!(server_ip_of(&interfaces).unwrap(), "192.168.10.7");

    let none = vec![InterfaceAddress { is_loopback: true, ipv4: Some([127, 0, 0, 1]) }];
    assert!(matches!(server_ip_of(&none), Err(ServerError::IPNotFound(s)) if s.is_empty()));
}

#[test]
fn validate_string_refuses_separators() {
    assert!(validate_string("  alice  ".into()).is_ok());
    for bad in ["", "   ", "a b", "a:b", "a|b", "a\nb"] {
        assert!(matches!(validate_string(bad.into()), Err(ServerError::InvalidFormat)), "{bad:?}");
    }
}

#[test]
fn signup_refuses_invalid_credentials() {
    let mut op_s = setup();
    assert!(matches!(op_s.signup_user("bad name".into(), "pw".into()), ServerResponse::SignupError(m) if m == "Invalid username"));
    assert!(matches!(op_s.signup_user("name".into(), "p:w".into()), ServerResponse::SignupError(m) if m == "Invalid password"));
    assert!(op_s.users.is_empty());
}

#[test]
fn signup_queues_credentials_and_status_updates() {
    let mut op_s = setup();
    op_s.signup_user("watcher".into(), "pw".into());
    assert!(op_s.map_stream_to_user(&"watcher".to_string()));
    let _ = op_s.take_actions();

    op_s.signup_user("newbie".into(), "secret".into());
    let actions = op_s.take_actions();
    assert_eq!(actions.len(), 2);
    match &actions[0] {
        ServerAction::Deliver { to, message: ServerMessage::UserStatusUpdate(name, UserStatus::Offline) } => {
            assert_eq!(to, "watcher");
            assert_eq!(name, "newbie");
        }
        _ => panic!("expected a status update for the watcher"),
    }
    assert!(matches!(&actions[1], ServerAction::PersistUser { username, password } if username == "newbie" && password == "secret"));
    assert!(op_s.take_actions().is_empty());
}

#[test]
fn call_request_with_streams_pairs_users_and_rings_callee() {
    let mut op_s = setup_with_users(vec![
        ("alice", "a", UserStatus::Available),
        ("bob", "b", UserStatus::Available),
    ]);
    assert!(op_s.map_stream_to_user(&"bob".to_string()));
    assert!(!op_s.map_stream_to_user(&"nobody".to_string()));

    let res = op_s.call_request("alice".into(), "bob".into(), sdp());
    assert!(matches!(res, ServerResponse::CallRequestOk));
    assert_eq!(user(&op_s, "alice").unwrap().status, UserStatus::Occupied("bob".into()));
    assert_eq!(user(&op_s, "bob").unwrap().status, UserStatus::Occupied("alice".into()));

    let actions = op_s.take_actions();
    assert!(matches!(actions.last(), Some(ServerAction::Deliver { to, message: ServerMessage::CallIncoming { from_usr, .. } }) if to == "bob" && from_usr == "alice"));

    let res = op_s.call_accept("bob".into(), "bob".into(), sdp());
    assert!(matches!(res, ServerResponse::CallAcceptError(_)));

    let res = op_s.call_reject("alice".into(), "bob".into());
    assert!(matches!(res, ServerResponse::CallRejectError(m) if m == "Error: user not available: alice"));
    assert_eq!(user(&op_s, "alice").unwrap().status, UserStatus::Occupied("bob".into()));
    assert_eq!(user(&op_s, "bob").unwrap().status, UserStatus::Occupied("alice".into()));
}

#[test]
fn accepting_a_call_between_available_users_pairs_them() {
    let mut op_s = setup_with_users(vec![
        ("alice", "a", UserStatus::Available),
        ("bob", "b", UserStatus::Available),
    ]);
    op_s.map_stream_to_user(&"bob".to_string());
    let res = op_s.call_accept("alice".into(), "bob".into(), sdp());
    assert!(matches!(res, ServerResponse::CallAcceptOk));
    assert_eq!(user(&op_s, "alice").unwrap().status, UserStatus::Occupied("bob".into()));
    assert_eq!(user(&op_s, "bob").unwrap().status, UserStatus::Occupied("alice".into()));
    let actions = op_s.take_actions();
    assert!(matches!(actions.last(), Some(ServerAction::Deliver { to, message: ServerMessage::CallAccepted { from_usr, .. } }) if to == "bob" && from_usr == "alice"));
}

#[test]
fn rejecting_a_call_between_available_users_changes_no_status() {
    let mut op_s = setup_with_users(vec![
        ("alice", "a", UserStatus::Available),
        ("bob", "b", UserStatus::Available),
    ]);
    op_s.map_stream_to_user(&"bob".to_string());
    let res = op_s.call_reject("alice".into(), "bob".into());
    assert!(matches!(res, ServerResponse::CallRejectOk));
    assert_eq!(user(&op_s, "alice").unwrap().status, UserStatus::Available);
    assert_eq!(user(&op_s, "bob").unwrap().status, UserStatus::Available);
    let actions = op_s.take_actions();
    assert!(matches!(actions.last(), Some(ServerAction::Deliver { to, message: ServerMessage::CallRejected }) if to == "bob"));
}

#[test]
fn call_request_to_a_missing_callee_is_a_call_request_error() {
    let mut op_s = setup_with_users(vec![("alice", "a", UserStatus::Available)]);
    let res = op_s.call_request("alice".into(), "carol".into(), sdp());
    assert!(matches!(res, ServerResponse::CallRequestError(m) if m == "Error: user does not exist: carol"));
}

#[test]
fn call_request_errors_name_the_user() {
    let mut op_s = setup_with_users(vec![
        ("alice", "a", UserStatus::Offline),
        ("bob", "b", UserStatus::Available),
    ]);
    op_s.map_stream_to_user(&"bob".to_string());
    let res = op_s.call_request("alice".into(), "bob".into(), sdp());
    assert!(matches!(res, ServerResponse::Error(m) if m == "Error: user not available: alice"));
    let res = op_s.call_request("bob".into(), "alice".into(), sdp());
    assert!(matches!(res, ServerResponse::CallRequestError(m) if m == "Error: user does not exist: alice"));
}

#[test]
fn logout_with_stream_closes_it_and_disconnect_goes_offline() {
    let mut op_s = setup_with_users(vec![("alice", "a", UserStatus::Offline)]);
    op_s.map_stream_to_user(&"alice".to_string());
    assert!(matches!(op_s.login_user("alice".into(), "a".into()), ServerResponse::LoginOk(_, addr, _) if addr == "127.0.0.1:8080"));
    assert_eq!(op_s.username.as_deref(), Some("alice"));
    assert!(matches!(op_s.logout_user("alice".into()), ServerResponse::LogoutOk));
    assert!(op_s.username.is_none());
    assert!(op_s.take_actions().iter().any(|a| matches!(a, ServerAction::CloseStream(u) if u == "alice")));

    op_s.login_user("alice".into(), "a".into());
    assert!(op_s.make_user_offline().is_ok());
    assert_eq!(user(&op_s, "alice").unwrap().status, UserStatus::Offline);
    assert!(op_s.make_user_offline().is_ok());
}

#[test]
fn login_lists_other_users() {
    let mut op_s = setup_with_users(vec![
        ("alice", "a", UserStatus::Offline),
        ("bob", "b", UserStatus::Available),
        ("carol", "c", UserStatus::Occupied("dave".into())),
    ]);
    match op_s.login_user("alice".into(), "a".into()) {
        ServerResponse::LoginOk(name, _, clients) => {
            assert_eq!(name, "alice");
            assert_eq!(
                clients,
                vec![
                    ("bob".to_string(), UserStatus::Available),
                    ("carol".to_string(), UserStatus::Occupied("dave".into())),
                ]
            );
        }
        other => panic!("unexpected {other:?}"),
    }
}

#[test]
fn connection_counter_limits_sessions() {
    let mut counter = ConnectionCounter::new(1);
    assert!(counter.accept_connection());
    assert!(!counter.accept_connection());
    let (reply, result) = counter.client_server_handshake(&Some(ClientMessage::Hello));
    assert!(matches!(reply, Some(ServerResponse::ServerFull)));
    assert!(matches!(result, Err(ServerError::ServerFull)));
    counter.release(&Ok(()));
    assert_eq!(counter.connected, 0);
    let (reply, result) = counter.client_server_handshake(&Some(ClientMessage::Hello));
    assert!(matches!(reply, Some(ServerResponse::Welcome)));
    assert!(result.is_ok());
    let (reply, result) = counter.client_server_handshake(&None);
    assert!(reply.is_none());
    assert!(matches!(result, Err(ServerError::ConnectionError)));
    counter.release(&Err(ServerError::ServerOff));
    assert_eq!(counter.connected, 1);
    counter.release(&Err(ServerError::ConnectionError));
    counter.release(&Err(ServerError::ConnectionError));
    assert_eq!(counter.connected, 0);
}

#[test]
fn server_error_messages() {
    assert_eq!(ServerError::UserDoesNotExist("x".into()).to_string(), "Error: user does not exist: x");
    assert_eq!(ServerError::UserNotAvailable("y".into()).to_string(), "Error: user not available: y");
    assert_eq!(ServerError::IPNotFound("z".into()).to_string(), "Error: IP not found: z");
    assert_eq!(ServerError::ServerFull.to_string(), "Error: server full");
    assert_eq!(ServerError::MapError("boom".into()).to_string(), "Error: boom");
}

#[test]
fn test_get_server_ip_returns_valid_result() {
    let result = get_server_ip();

    match result {
        Ok(ip) => {
            assert!(!ip.is_empty());
            assert!(ip.contains('.'));
        }
        Err(ServerError::IPNotFound(_)) => {
            assert!(true);
        }
        Err(e) => assert!(false, "Error obtaining the IP: {}", e.to_string()),
    }
}

#[test]
fn handshake_above_the_maximum_answers_server_full() {
    let mut counter = ConnectionCounter { connected: 5, max: 3 };
    let (reply, outcome) = counter.client_server_handshake(&Some(ClientMessage::Hello));
    assert!(matches!(reply, Some(ServerResponse::ServerFull)));
    assert!(matches!(outcome, Err(ServerError::ServerFull)));
    assert_eq!(counter.connected, 5);
    assert!(counter.accept_connection());
    assert_eq!(counter.connected, 6);
    let mut full = ConnectionCounter { connected: usize::MAX, max: 0 };
    assert!(full.accept_connection());
    assert_eq!(full.connected, 0);
}
