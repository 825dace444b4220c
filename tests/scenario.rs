use rpass::client::confirmation_reply;
use rpass::framing::{make_request, read_response};
use rpass::key::Key;
use rpass::request_dispatcher::build_request_dispatcher;
use rpass::server::{greeting, handle_request};
use rpass::session::Session;
use rpass::storage::Storage;

fn exchange(
    d: &rpass::request_dispatcher::RequestDispatcher,
    storage: &mut Storage,
    session: &mut Session,
    request: &str,
) -> String {
    let bytes = make_request(request.to_owned()).unwrap();
    read_response(&handle_request(d, storage, session, &bytes)).unwrap()
}

#[test]
fn end_to_end_scenario() {
    let (server_pub, server_sec) = Key::generate_pair();
    let mut storage = Storage::new(server_pub, server_sec);
    let d = build_request_dispatcher();
    let mut session = Session::new();

    assert_eq!(read_response(&greeting(&storage)).unwrap(), "269:221");
    assert_eq!(exchange(&d, &mut storage, &mut session, "register alice 11:22"), "Ok");
    let challenge = exchange(&d, &mut storage, &mut session, "login alice");
    assert!(!challenge.starts_with("Error: "));
    let user_sec = Key::from_str("11:22").unwrap();
    let server_key = Key::from_str(&read_response(&greeting(&storage)).unwrap()).unwrap();
    let reply = confirmation_reply(&challenge, &user_sec, &server_key);
    assert_eq!(exchange(&d, &mut storage, &mut session, &format!("confirm_login {reply}")), "Ok");
    assert!(session.is_authorized());
    assert_eq!(exchange(&d, &mut storage, &mut session, "new_record example.com \"secret\nnote\""), "Ok");
    assert_eq!(exchange(&d, &mut storage, &mut session, "show_record example.com"), "secret\nnote");
    assert_eq!(exchange(&d, &mut storage, &mut session, "list_records"), "example.com");
    assert_eq!(exchange(&d, &mut storage, &mut session, "delete_record example.com"), "Ok");
    assert_eq!(exchange(&d, &mut storage, &mut session, "list_records"), "");
    assert_eq!(exchange(&d, &mut storage, &mut session, "quit"), "Ok");
    assert!(session.is_ended());
    assert!(exchange(&d, &mut storage, &mut session, "quit").starts_with("Error: "));
}

#[test]
fn handshake_success_then_refused() {
    let (server_pub, server_sec) = Key::generate_pair();
    let mut storage = Storage::new(server_pub, server_sec);
    let d = build_request_dispatcher();
    let mut session = Session::new();
    exchange(&d, &mut storage, &mut session, "register bob 1:2");
    let challenge = exchange(&d, &mut storage, &mut session, "login bob");
    assert_eq!(exchange(&d, &mut storage, &mut session, &format!("confirm_login {challenge}")), "Ok");
    assert_eq!(
        exchange(&d, &mut storage, &mut session, &format!("confirm_login {challenge}")),
        "Error: unacceptable request at this state"
    );
    assert!(session.is_authorized());
}

#[test]
fn handshake_failure_keeps_unauthorized() {
    let (server_pub, server_sec) = Key::generate_pair();
    let mut storage = Storage::new(server_pub, server_sec);
    let d = build_request_dispatcher();
    let mut session = Session::new();
    exchange(&d, &mut storage, &mut session, "register bob 1:2");
    exchange(&d, &mut storage, &mut session, "login bob");
    assert_eq!(
        exchange(&d, &mut storage, &mut session, "confirm_login wrong"),
        "Error: invalid confirmation string"
    );
    assert!(session.is_unauthorized());
    assert_eq!(
        exchange(&d, &mut storage, &mut session, "confirm_login wrong"),
        "Error: unacceptable request at this state"
    );
}

#[test]
fn self_delete_when_alone() {
    let (server_pub, server_sec) = Key::generate_pair();
    let mut storage = Storage::new(server_pub, server_sec);
    let d = build_request_dispatcher();
    let mut session = Session::new();
    exchange(&d, &mut storage, &mut session, "register carol 1:2");
    let challenge = exchange(&d, &mut storage, &mut session, "login carol");
    exchange(&d, &mut storage, &mut session, &format!("confirm_login {challenge}"));
    assert_eq!(exchange(&d, &mut storage, &mut session, "delete_me"), "Ok");
    assert!(session.is_unauthorized());
    assert!(storage.get_user_pub_key("carol").is_err());
}

#[test]
fn invalid_utf8_request() {
    let (server_pub, server_sec) = Key::generate_pair();
    let mut storage = Storage::new(server_pub, server_sec);
    let d = build_request_dispatcher();
    let mut session = Session::new();
    let reply = handle_request(&d, &mut storage, &mut session, &[0xff, 0xfe, 0x04]);
    assert_eq!(read_response(&reply).unwrap(), "Error: request should be in UTF-8 format");
    assert_eq!(*reply.last().unwrap(), 0x04);
}
