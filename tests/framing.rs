use rpass::error::Error;
use rpass::framing::{make_request, read_response, EOT};

#[test]
fn test_read_response_basic() {
    assert_eq!(read_response(b"response").unwrap(), "response");
}

#[test]
fn test_read_response_empty() {
    assert_eq!(read_response(b"").unwrap(), "");
}

#[test]
fn test_read_response_with_eot_at_the_end() {
    let mut response = String::from("response").into_bytes();
    response.push(EOT);
    assert_eq!(read_response(&response).unwrap(), "response");
}

#[test]
fn test_read_response_carriage_return() {
    assert_eq!(read_response(b"response\r\n").unwrap(), "response");
}

#[test]
fn test_read_response_invalid_response() {
    assert!(matches!(
        read_response(&[0, 1, 128, EOT]),
        Err(Error::InvalidResponseEncoding)
    ));
}

#[test]
fn test_make_request_with_eot_at_the_end() {
    let mut bytes = "login".as_bytes().to_vec();
    bytes.push(EOT);
    bytes.extend_from_slice("user".as_bytes());
    let request = String::from_utf8(bytes).unwrap();
    assert!(matches!(make_request(request), Err(Error::InvalidRequest { .. })));
}

#[test]
fn test_make_request_carriage_return() {
    let request = String::from("login user");
    let mut expected = (request.clone() + "\r\n").into_bytes();
    expected.push(EOT);
    assert_eq!(&make_request(request).unwrap(), &expected);
}

#[test]
fn make_request_keeps_existing_crlf() {
    let mut expected = b"quit\r\n".to_vec();
    expected.push(EOT);
    assert_eq!(make_request("quit\r\n".to_owned()).unwrap(), expected);
}

#[test]
fn framing_round_trip() {
    for text in ["", "login alice", "multi\nline", "already\r\n", "héllo wörld"] {
        let bytes = make_request(text.to_owned()).unwrap();
        let back = read_response(&bytes).unwrap();
        assert_eq!(back, text.strip_suffix("\r\n").unwrap_or(text));
    }
}

#[test]
fn terminator_rejected_anywhere() {
    assert!(make_request("\u{4}".to_owned()).is_err());
    assert!(make_request("a\u{4}".to_owned()).is_err());
    assert!(make_request("\u{4}a".to_owned()).is_err());
    assert!(make_request("a\u{3}\u{5}".to_owned()).is_ok());
}

#[test]
fn read_response_strips_one_crlf_only() {
    assert_eq!(read_response(b"a\r\n\r\n\x04").unwrap(), "a\r\n");
    assert_eq!(read_response(b"a\n\x04").unwrap(), "a\n");
}

#[test]
fn read_response_decodes_multibyte_text() {
    assert_eq!(read_response("Борщ\r\n\u{4}".as_bytes()).unwrap(), "Борщ");
}
