use rpass::callbacks::{
    confirm_login, delete_me, delete_record, list_records, login, login_with_nonce, new_record, quit,
    register, show_record, Error,
};
use rpass::key::{Key, ParseError};
use rpass::record::ParseRecordError;
use rpass::session::{Session, Unauthorized};
use rpass::storage::{self, Storage};

const TEST_USER: &str = "test_user";

fn args(values: &[&str]) -> Vec<String> {
    values.iter().map(|s| s.to_string()).collect()
}

fn new_storage() -> Storage {
    let (pub_key, sec_key) = Key::generate_pair();
    Storage::new(pub_key, sec_key)
}

fn storage_with_user() -> Storage {
    let mut storage = new_storage();
    storage.add_new_user(TEST_USER, &Key::from_str("11:11").unwrap()).unwrap();
    storage
}

fn pending(username: &str, confirmation: &str) -> Session {
    Session::Unauthorized(Unauthorized {
        username: Some(username.to_owned()),
        login_confirmation: Some(confirmation.to_owned()),
    })
}

fn authorized(storage: &mut Storage) -> Session {
    let mut session = pending(TEST_USER, "confirmation");
    confirm_login(storage, &mut session, &args(&["confirmation"])).unwrap();
    assert!(session.is_authorized());
    session
}

#[test]
fn register_test_ok() {
    let mut storage = new_storage();
    let res = register(&mut storage, &Session::new(), &args(&["test_user", "11:11"]));
    assert_eq!(res.unwrap(), "Ok");
    let key = storage.get_user_pub_key(TEST_USER).unwrap();
    assert_eq!(key.to_string(), "11:11");
}

#[test]
fn register_test_empty_username() {
    let mut storage = new_storage();
    let res = register(&mut storage, &Session::new(), &args(&[]));
    assert!(matches!(res, Err(Error::EmptyUsername)));
}

#[test]
fn register_test_invalid_username() {
    let mut storage = new_storage();
    let res = register(&mut storage, &Session::new(), &args(&["_invalid_username_"]));
    assert!(matches!(res, Err(Error::InvalidUsername(username)) if username == "_invalid_username_"));
}

#[test]
fn test_empty_key() {
    let mut storage = new_storage();
    let res = register(&mut storage, &Session::new(), &args(&["test_user"]));
    assert!(matches!(res, Err(Error::EmptyKey)));
}

#[test]
fn test_invalid_key() {
    let mut storage = new_storage();
    let res = register(&mut storage, &Session::new(), &args(&["test_user", "key"]));
    assert!(matches!(res, Err(Error::InvalidKey(_))));
    let res = register(&mut storage, &Session::new(), &args(&["test_user", "a:1"]));
    assert!(matches!(res, Err(Error::InvalidKey(ParseError::ParseBigInt))));
}

#[test]
fn test_user_already_exists() {
    let mut storage = storage_with_user();
    let res = register(&mut storage, &Session::new(), &args(&["test_user", "11:11"]));
    assert!(matches!(res, Err(Error::Storage(storage::Error::UserAlreadyExists(n))) if n == "test_user"));
}

#[test]
fn register_refused_when_authorized() {
    let mut storage = storage_with_user();
    let session = authorized(&mut storage);
    let res = register(&mut storage, &session, &args(&["other", "1:2"]));
    assert!(matches!(res, Err(Error::UnacceptableRequestAtThisState)));
}

#[test]
fn login_test_ok() {
    let storage = storage_with_user();
    let mut session = Session::new();
    let res = login(&storage, &mut session, &args(&[TEST_USER]));
    let challenge = res.unwrap();
    assert_eq!(challenge.len(), 30);
    assert!(challenge.chars().all(|c| c.is_ascii_alphanumeric()));
    assert!(session.is_unauthorized());
    match &session {
        Session::Unauthorized(u) => {
            assert_eq!(u.username.as_deref(), Some(TEST_USER));
            assert_eq!(u.login_confirmation.as_deref(), Some(challenge.as_str()));
        }
        _ => unreachable!(),
    }
}

#[test]
fn login_nonce_becomes_challenge() {
    let storage = storage_with_user();
    let mut session = Session::new();
    let res = login_with_nonce(&storage, &mut session, &args(&[TEST_USER]), "abc123");
    assert_eq!(res.unwrap(), "abc123");
}

#[test]
fn login_test_empty_username() {
    let storage = new_storage();
    let mut session = Session::new();
    let res = login(&storage, &mut session, &args(&[]));
    assert!(matches!(res, Err(Error::EmptyUsername)));
}

#[test]
fn login_test_invalid_username() {
    let storage = new_storage();
    let mut session = Session::new();
    let res = login(&storage, &mut session, &args(&["/etc/passwd"]));
    assert!(matches!(res, Err(Error::InvalidUsername(_))));
}

#[test]
fn login_test_no_such_user() {
    let storage = new_storage();
    let mut session = Session::new();
    let res = login(&storage, &mut session, &args(&[TEST_USER]));
    assert!(matches!(res, Err(Error::Storage(_))));
}

#[test]
fn confirm_login_test_ok() {
    let mut storage = storage_with_user();
    let mut session = pending(TEST_USER, "confirmation");
    let (pub_key, _sec_key) = Key::generate_pair();
    let encrypted_confirmation = pub_key.encrypt("confirmation");
    let res = confirm_login(&mut storage, &mut session, &args(&[&encrypted_confirmation]));
    assert_eq!(res.unwrap(), "Ok");
    assert!(session.is_authorized());
}

#[test]
fn test_session_is_authorized() {
    let mut storage = storage_with_user();
    let mut session = authorized(&mut storage);
    let res = confirm_login(&mut storage, &mut session, &args(&[""]));
    assert!(matches!(res, Err(Error::UnacceptableRequestAtThisState)));
    assert!(session.is_authorized());
}

#[test]
fn test_session_is_ended() {
    let mut storage = new_storage();
    let mut session = Session::Ended;
    let res = confirm_login(&mut storage, &mut session, &args(&[""]));
    assert!(matches!(res, Err(Error::UnacceptableRequestAtThisState)));
    assert!(session.is_ended());
}

#[test]
fn test_empty_confirmation_string() {
    let mut storage = new_storage();
    let mut session = pending(TEST_USER, "confirmation");
    let res = confirm_login(&mut storage, &mut session, &args(&[]));
    assert!(matches!(res, Err(Error::EmptyConfirmationString)));
    assert!(session.is_unauthorized());
}

#[test]
fn test_invalid_confirmation_string() {
    let mut storage = storage_with_user();
    let mut session = pending("", "confirmation");
    let (pub_key, _sec_key) = Key::generate_pair();
    let encrypted_confirmation = pub_key.encrypt("wrong_confirmation");
    let res = confirm_login(&mut storage, &mut session, &args(&[&encrypted_confirmation]));
    assert!(matches!(res, Err(Error::InvalidConfirmationString)));
    assert!(session.is_unauthorized());
    match &session {
        Session::Unauthorized(u) => assert!(u.login_confirmation.is_none()),
        _ => unreachable!(),
    }
}

#[test]
fn confirm_login_test_storage_error() {
    let mut storage = new_storage();
    let mut session = pending(TEST_USER, "confirmation");
    let res = confirm_login(&mut storage, &mut session, &args(&["confirmation"]));
    assert!(matches!(res, Err(Error::Storage(_))));
    assert!(session.is_unauthorized());
}

#[test]
fn confirm_login_without_pending_challenge() {
    let mut storage = storage_with_user();
    let mut session = Session::new();
    let res = confirm_login(&mut storage, &mut session, &args(&["x"]));
    assert!(matches!(res, Err(Error::UnacceptableRequestAtThisState)));
}

#[test]
fn delete_me_test_ok() {
    let mut storage = storage_with_user();
    let mut session = authorized(&mut storage);
    let res = delete_me(&mut storage, &mut session);
    assert_eq!(res.unwrap(), "Ok");
    assert!(matches!(session, Session::Unauthorized(_)));
    match &session {
        Session::Unauthorized(u) => assert!(u.username.is_none()),
        _ => unreachable!(),
    }
    assert!(storage.get_user_pub_key(TEST_USER).is_err());
}

#[test]
fn delete_me_test_non_authorized() {
    let mut storage = new_storage();
    let mut session = Session::new();
    assert!(matches!(
        delete_me(&mut storage, &mut session),
        Err(Error::UnacceptableRequestAtThisState)
    ));
}

#[test]
fn delete_me_test_multi_session() {
    let mut storage = storage_with_user();
    let mut session = authorized(&mut storage);
    let other = authorized(&mut storage);
    assert!(delete_me(&mut storage, &mut session).is_err());
    assert!(matches!(session, Session::Authorized(_)));
    assert!(other.is_authorized());
    assert!(storage.get_user_pub_key(TEST_USER).is_ok());
}

#[test]
fn quit_test_ok() {
    let mut storage = storage_with_user();
    let mut session = authorized(&mut storage);
    assert_eq!(quit(&mut storage, &mut session).unwrap(), "Ok".to_owned());
    assert!(!session.is_authorized());
    assert!(session.is_ended());
    let mut lone = authorized(&mut storage);
    assert_eq!(delete_me(&mut storage, &mut lone).unwrap(), "Ok");
}

#[test]
fn quit_test_already_ended() {
    let mut storage = new_storage();
    let mut session = Session::Ended;
    assert!(matches!(quit(&mut storage, &mut session), Err(Error::UnacceptableRequestAtThisState)));
}

#[test]
fn new_record_test_ok() {
    let mut storage = storage_with_user();
    let session = authorized(&mut storage);
    let notes = "first notes\n\"second notes\"\n\"";
    let content = String::from("secret") + "\n" + notes;
    let res = new_record(&mut storage, &session, &args(&["example.com", &content]));
    assert_eq!(res.unwrap(), "Ok".to_owned());
    let shown = show_record(&storage, &session, &args(&["example.com"])).unwrap();
    assert_eq!(shown, content);
}

#[test]
fn new_record_test_non_authorized() {
    let mut storage = new_storage();
    let res = new_record(&mut storage, &Session::new(), &args(&["example.com", "secret\nnotes"]));
    assert!(matches!(res, Err(Error::UnacceptableRequestAtThisState)));
}

#[test]
fn new_record_test_empty_resource() {
    let mut storage = storage_with_user();
    let session = authorized(&mut storage);
    let res = new_record(&mut storage, &session, &args(&[]));
    assert!(matches!(res, Err(Error::EmptyResourceName)));
}

#[test]
fn new_record_test_invalid_resource() {
    let mut storage = storage_with_user();
    let session = authorized(&mut storage);
    let res = new_record(&mut storage, &session, &args(&["../illegal/resource/name"]));
    assert!(matches!(res, Err(Error::InvalidResourceName)));
}

#[test]
fn test_empty_record_content() {
    let mut storage = storage_with_user();
    let session = authorized(&mut storage);
    let res = new_record(&mut storage, &session, &args(&["example.com"]));
    assert!(matches!(res, Err(Error::EmptyRecordContent)));
}

#[test]
fn test_invalid_record_format() {
    let mut storage = storage_with_user();
    let session = authorized(&mut storage);
    let res = new_record(&mut storage, &session, &args(&["example.com", "secret"]));
    assert!(matches!(res, Err(Error::InvalidRecordFormat(ParseRecordError::EmptyString))));
}

#[test]
fn new_record_replaces_same_resource() {
    let mut storage = storage_with_user();
    let session = authorized(&mut storage);
    new_record(&mut storage, &session, &args(&["a.com", "one\nx"])).unwrap();
    new_record(&mut storage, &session, &args(&["b.com", "two\ny"])).unwrap();
    new_record(&mut storage, &session, &args(&["a.com", "three\nz"])).unwrap();
    assert_eq!(list_records(&storage, &session).unwrap(), "a.com\nb.com");
    assert_eq!(show_record(&storage, &session, &args(&["a.com"])).unwrap(), "three\nz");
}

#[test]
fn show_record_test_ok() {
    let mut storage = storage_with_user();
    let session = authorized(&mut storage);
    new_record(&mut storage, &session, &args(&["example.com", "\n"])).unwrap();
    assert!(show_record(&storage, &session, &args(&["example.com"])).is_ok());
}

#[test]
fn show_record_test_non_authorized() {
    let storage = new_storage();
    let res = show_record(&storage, &Session::new(), &args(&["example.com"]));
    assert!(matches!(res, Err(Error::UnacceptableRequestAtThisState)));
}

#[test]
fn show_record_test_empty_resource() {
    let mut storage = storage_with_user();
    let session = authorized(&mut storage);
    assert!(matches!(show_record(&storage, &session, &args(&[])), Err(Error::EmptyResourceName)));
}

#[test]
fn show_record_test_invalid_resource() {
    let mut storage = storage_with_user();
    let session = authorized(&mut storage);
    let res = show_record(&storage, &session, &args(&["./../resource.com"]));
    assert!(matches!(res, Err(Error::InvalidResourceName)));
}

#[test]
fn show_record_test_storage_error() {
    let mut storage = storage_with_user();
    let session = authorized(&mut storage);
    let res = show_record(&storage, &session, &args(&["example.com"]));
    assert!(matches!(res, Err(Error::Storage(_))));
}

#[test]
fn list_records_test_ok() {
    let mut storage = storage_with_user();
    let session = authorized(&mut storage);
    new_record(&mut storage, &session, &args(&["first", "a\nb"])).unwrap();
    new_record(&mut storage, &session, &args(&["second", "c\nd"])).unwrap();
    assert_eq!(list_records(&storage, &session).unwrap(), "first\nsecond");
}

#[test]
fn list_records_sorted_whatever_the_write_order() {
    let mut storage = storage_with_user();
    let session = authorized(&mut storage);
    new_record(&mut storage, &session, &args(&["second", "c\nd"])).unwrap();
    new_record(&mut storage, &session, &args(&["first", "a\nb"])).unwrap();
    assert_eq!(list_records(&storage, &session).unwrap(), "first\nsecond");
}

#[test]
fn list_records_test_empty_list() {
    let mut storage = storage_with_user();
    let session = authorized(&mut storage);
    assert_eq!(list_records(&storage, &session).unwrap(), "");
}

#[test]
fn list_records_test_non_authorized() {
    let storage = new_storage();
    assert!(matches!(
        list_records(&storage, &Session::new()),
        Err(Error::UnacceptableRequestAtThisState)
    ));
}

#[test]
fn delete_record_test_ok() {
    let mut storage = storage_with_user();
    let session = authorized(&mut storage);
    new_record(&mut storage, &session, &args(&["example.com", "a\nb"])).unwrap();
    assert!(delete_record(&mut storage, &session, &args(&["example.com"])).is_ok());
    assert_eq!(list_records(&storage, &session).unwrap(), "");
}

#[test]
fn delete_record_test_non_authorized() {
    let mut storage = new_storage();
    let res = delete_record(&mut storage, &Session::new(), &args(&["example.com"]));
    assert!(matches!(res, Err(Error::UnacceptableRequestAtThisState)));
}

#[test]
fn delete_record_test_empty_resource() {
    let mut storage = storage_with_user();
    let session = authorized(&mut storage);
    let res = delete_record(&mut storage, &session, &args(&[]));
    assert!(matches!(res, Err(Error::EmptyResourceName)));
}

#[test]
fn delete_record_test_invalid_resource() {
    let mut storage = storage_with_user();
    let session = authorized(&mut storage);
    let res = delete_record(&mut storage, &session, &args(&["/etc/passwd"]));
    assert!(matches!(res, Err(Error::InvalidResourceName)));
}

#[test]
fn delete_record_test_storage_error() {
    let mut storage = storage_with_user();
    let session = authorized(&mut storage);
    let res = delete_record(&mut storage, &session, &args(&["example.com"]));
    assert!(matches!(res, Err(Error::Storage(_))));
}

#[test]
fn callback_error_messages() {
    assert_eq!(Error::EmptyUsername.message(), "empty username");
    assert_eq!(Error::InvalidUsername("x".to_owned()).message(), "invalid username: x");
    assert_eq!(Error::InvalidKey(ParseError::InvalidFormat).message(), "invalid key: `invalid format`");
    assert_eq!(
        Error::Storage(storage::Error::UserDoesNotExist("bob".to_owned())).message(),
        "storage error: user bob doesn't exist"
    );
    assert_eq!(Error::UnacceptableRequestAtThisState.message(), "unacceptable request at this state");
}
