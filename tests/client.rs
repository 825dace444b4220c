use rpass::client::{
    add_record_request, check_resource, confirm_login_request, confirmation_reply, delete_record_request,
    login_request, parse_record, parse_records_list, read_good_response, read_ok_response,
    register_request, show_record_request,
};
use rpass::commands::{Add, Delete, DeleteAccount, Get, Ls, Register};
use rpass::error::Error;
use rpass::key::Key;
use rpass::record::Record;

#[test]
fn utils_test_ok() {
    assert_eq!(read_good_response(String::from("Good job")).unwrap(), "Good job");
    read_ok_response(String::from("Ok")).unwrap();
}

#[test]
fn test_response_with_error() {
    assert!(matches!(
        read_good_response(String::from("Error: test error")),
        Err(Error::Server { mes }) if mes == "test error"
    ));
}

#[test]
fn utils_test_unexpected_response() {
    assert!(matches!(
        read_ok_response(String::from("Good")),
        Err(Error::UnexpectedResponse { response }) if response == "Good"
    ));
}

#[test]
fn client_error_prefix_must_be_whole() {
    assert_eq!(read_good_response("Error:x".to_owned()).unwrap(), "Error:x");
    assert!(matches!(read_ok_response("Error: no".to_owned()), Err(Error::Server { mes }) if mes == "no"));
}

#[test]
fn client_requests() {
    let key = Key::from_str("11:22").unwrap();
    assert_eq!(register_request("alice", &key), "register alice 11:22");
    assert_eq!(login_request("alice"), "login alice");
    assert_eq!(confirm_login_request("abc"), "confirm_login abc");
    assert_eq!(delete_record_request("a.com").unwrap(), "delete_record a.com");
    assert_eq!(show_record_request("a.com").unwrap(), "show_record a.com");
    assert!(matches!(show_record_request(""), Err(Error::InvalidResource { .. })));
    assert!(matches!(check_resource(""), Err(Error::InvalidResource { .. })));
    let record = Record {
        resource: "example.com".to_owned(),
        password: "secret".to_owned(),
        notes: "note".to_owned(),
    };
    assert_eq!(add_record_request(&record).unwrap(), "new_record example.com \"secret\nnote\"");
    assert!(matches!(add_record_request(&Record::new()), Err(Error::InvalidResource { .. })));
}

#[test]
fn client_confirmation_reply() {
    let (server_pub, _) = Key::generate_pair();
    let (_, sec) = Key::generate_pair();
    assert_eq!(confirmation_reply("challenge123", &sec, &server_pub), "challenge123");
}

#[test]
fn client_parses_replies() {
    assert!(parse_records_list(String::new()).unwrap().is_empty());
    assert_eq!(parse_records_list("first\nsecond".to_owned()).unwrap(), vec!["first", "second"]);
    assert!(matches!(parse_records_list("Error: bad".to_owned()), Err(Error::Server { .. })));
    let record = parse_record("a.com".to_owned(), "pw\nnotes".to_owned()).unwrap();
    assert_eq!(record.resource, "a.com");
    assert_eq!(record.password, "pw");
    assert_eq!(record.notes, "notes");
    assert!(parse_record("a.com".to_owned(), "no break".to_owned()).is_err());
}

#[test]
fn cli_commands_build_requests() {
    let key = Key::from_str("5:7").unwrap();
    assert_eq!(Register.request("bob", &key), "register bob 5:7");
    let add = Add { record: Record { resource: "r.com".to_owned(), password: "p".to_owned(), notes: "n".to_owned() } };
    assert_eq!(add.request().unwrap(), "new_record r.com \"p\nn\"");
    assert_eq!(Delete { record_name: "r.com".to_owned() }.request().unwrap(), "delete_record r.com");
    assert!(Delete { record_name: String::new() }.request().is_err());
    assert_eq!(DeleteAccount.request(), "delete_me");
    assert_eq!(Get { record_name: "r.com".to_owned() }.request().unwrap(), "show_record r.com");
    assert_eq!(Ls.request(), "list_records");
}

const TEST_USER: &str = "test_user";
const CONFIRMATION: &str = "confirmation";

fn test_record() -> Record {
    Record {
        resource: String::from("test_resource"),
        password: String::from("secret"),
        notes: String::from("notes"),
    }
}

#[test]
fn authorized_test_ok() {
    let request = add_record_request(&test_record()).unwrap();
    assert_eq!(request, "new_record test_resource \"secret\nnotes\"");
    read_ok_response(String::from("Ok")).unwrap();
    assert_eq!(delete_record_request("test_resource").unwrap(), "delete_record test_resource");
    let record = parse_record("test_resource".to_owned(), "secret\nnotes".to_owned()).unwrap();
    assert_eq!(record.password, "secret");
    assert_eq!(record.notes, "notes");
}

#[test]
fn authorized_test_invalid_resource() {
    let record = Record { resource: String::default(), ..test_record() };
    assert!(matches!(add_record_request(&record), Err(Error::InvalidResource { .. })));
    assert!(matches!(delete_record_request(""), Err(Error::InvalidResource { .. })));
    assert!(matches!(show_record_request(""), Err(Error::InvalidResource { .. })));
}

#[test]
fn authorized_test_unexpected_response() {
    for response in ["Record successfully added", "Record successfully deleted", "You were successfully deleted"] {
        assert!(matches!(
            read_ok_response(String::from(response)),
            Err(Error::UnexpectedResponse { response: r }) if r == response
        ));
    }
}

#[test]
fn test_error_from_server() {
    assert_eq!(show_record_request("test_resource").unwrap(), "show_record test_resource");
    assert!(matches!(
        parse_record(String::from("test_resource"), String::from("Error: no such record")),
        Err(Error::Server { mes }) if mes == "no such record"
    ));
}

#[test]
fn mod_test_ok() {
    let (server_pub_key, _) = Key::generate_pair();
    let (pub_key, sec_key) = Key::generate_pair();
    assert_eq!(login_request(TEST_USER), "login test_user");
    let challenge = read_good_response(pub_key.encrypt(CONFIRMATION)).unwrap();
    let reply = confirmation_reply(&challenge, &sec_key, &server_pub_key);
    assert_eq!(confirm_login_request(&reply), "confirm_login confirmation");
    read_ok_response(String::from("Ok")).unwrap();
}

#[test]
fn mod_test_error_in_login_response() {
    assert!(matches!(
        read_good_response(String::from("Error: invalid username")),
        Err(Error::Server { .. })
    ));
}

#[test]
fn mod_test_error_in_confirm_login_response() {
    assert!(matches!(
        read_ok_response(String::from("Error: invalid confirmation string")),
        Err(Error::Server { .. })
    ));
}

#[test]
fn unauthorized_test_ok() {
    let key = Key::from_str("11:11").unwrap();
    assert_eq!(register_request(TEST_USER, &key), "register test_user 11:11");
    read_ok_response(String::from("Ok")).unwrap();
}

#[test]
fn unauthorized_test_error_in_login_response() {
    assert!(matches!(
        read_good_response(String::from("Error: invalid username")),
        Err(Error::Server { mes }) if mes == "invalid username"
    ));
}

#[test]
fn unauthorized_test_error_in_confirm_login_response() {
    assert!(matches!(
        read_ok_response(String::from("Error: invalid confirmation string")),
        Err(Error::Server { mes }) if mes == "invalid confirmation string"
    ));
}
