use rpass::callbacks;
use rpass::key::Key;
use rpass::request_dispatcher::{build_request_dispatcher, Command, DispatchingError, RequestDispatcher};
use rpass::session::Session;
use rpass::storage::Storage;

fn new_storage() -> Storage {
    let (pub_key, sec_key) = Key::generate_pair();
    Storage::new(pub_key, sec_key)
}

#[test]
fn dispatch_no_command() {
    let d = build_request_dispatcher();
    let mut storage = new_storage();
    let mut session = Session::new();
    assert!(matches!(d.dispatch(&mut storage, &mut session, "   "), Err(DispatchingError::NoCommandProvided)));
}

#[test]
fn dispatch_undefined_command() {
    let d = build_request_dispatcher();
    let mut storage = new_storage();
    let mut session = Session::new();
    let res = d.dispatch(&mut storage, &mut session, "fly away");
    assert!(matches!(res, Err(DispatchingError::UndefinedCommand(n)) if n == "fly"));
}

#[test]
fn state_gating_on_fresh_session() {
    let d = build_request_dispatcher();
    let mut storage = new_storage();
    for request in ["new_record a.com \"x\ny\"", "show_record a.com", "list_records", "delete_record a.com", "delete_me"] {
        let mut session = Session::new();
        let res = d.dispatch(&mut storage, &mut session, request);
        assert!(
            matches!(res, Err(DispatchingError::Callback(callbacks::Error::UnacceptableRequestAtThisState))),
            "{request}"
        );
        assert!(session.is_unauthorized());
    }
}

#[test]
fn add_callback_replaces() {
    let mut d = RequestDispatcher::new();
    d.add_callback("bye".to_owned(), Command::Login);
    d.add_callback("bye".to_owned(), Command::Quit);
    let mut storage = new_storage();
    let mut session = Session::new();
    assert_eq!(d.dispatch(&mut storage, &mut session, "bye").unwrap(), "Ok");
    assert!(session.is_ended());
}

#[test]
fn dispatch_error_messages() {
    assert_eq!(DispatchingError::NoCommandProvided.message(), "command wasn't provided");
    assert_eq!(DispatchingError::UndefinedCommand("x".to_owned()).message(), "undefined command `x`");
    assert_eq!(
        DispatchingError::Callback(callbacks::Error::EmptyKey).message(),
        "empty key"
    );
}
