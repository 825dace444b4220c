use vstd::prelude::*;
use vstd::string::StrSliceExecFns;
use vstd::utf8::encode_utf8;
use crate::callbacks::NONCE_LEN;
use crate::framing::{frame_bytes, frame_text, read_response, EOT};
use crate::key::key_text;
use crate::messages::dispatching_message;
use crate::request_dispatcher::{DispatchingError, RequestDispatcher};
use crate::session::Session;
use crate::storage::Storage;
use crate::text::{ensure_crlf, with_crlf};
use crate::validation::is_alnum;

verus! {

/// The text sent back for a request: the command's response, or `"Error: "` and the
/// failure's text.
pub open spec fn reply_text(r: Result<String, DispatchingError>) -> Seq<char> {
    match r {
        Ok(t) => t@,
        Err(e) => "Error: "@ + dispatching_message(e),
    }
}

/// `reply` is the text sent back for `request`, which moved the storage from `s0` to `s1`
/// and the session from `session0` to `session1`, with some fresh random text for a login.
pub open spec fn answers(
    dispatcher: &RequestDispatcher,
    s0: Storage,
    session0: Session,
    request: Seq<char>,
    reply: Seq<char>,
    s1: Storage,
    session1: Session,
) -> bool {
    exists|nonce: Seq<char>, d: Result<String, DispatchingError>|
        {
            &&& nonce.len() == NONCE_LEN
            &&& forall|i: int| 0 <= i < nonce.len() ==> is_alnum(#[trigger] nonce[i])
            &&& #[trigger] dispatcher.dispatches(s0, session0, request, nonce, d, s1, session1)
            &&& reply == with_crlf(reply_text(d))
        }
}

/// The reply to a request that is not UTF-8 text.
pub open spec fn encoding_error_text() -> Seq<char> {
    "Error: request should be in UTF-8 format"@
}

/// Converts `response` to bytes with the terminator at the end
pub fn response_to_bytes(response: String) -> (r: Vec<u8>)
    ensures
        r@ == encode_utf8(response@).push(EOT),
{
    let mut bytes = response.as_str().as_bytes_vec();
    bytes.push(EOT);
    bytes
}

/// The first message of a connection: the server's public key, framed.
pub fn greeting(storage: &Storage) -> (r: Vec<u8>)
    ensures
        r@ == frame_bytes(key_text(storage.pub_key)),
{
    let key = storage.pub_key().to_string();
    response_to_bytes(ensure_crlf(key.as_str()))
}

/// Dispatches `request` with `session` and returns the reply text, ending in `"\r\n"`.
pub fn dispatch_request(
    dispatcher: &RequestDispatcher,
    storage: &mut Storage,
    session: &mut Session,
    request: &str,
) -> (r: String)
    requires
        old(storage).wf(),
        old(session).wf(),
    ensures
        final(storage).wf(),
        final(session).wf(),
        answers(dispatcher, *old(storage), *old(session), request@, r@, *final(storage), *final(session)),
{
    let d = dispatcher.dispatch(storage, session, request);
    let ghost dg = d;
    let text = match d {
        Ok(response) => response,
        Err(err) => {
            let mut t = String::from_str("Error: ");
            let m = err.message();
            t.append(m.as_str());
            t
        },
    };
    assert(text@ == reply_text(dg));
    ensure_crlf(text.as_str())
}

/// Handles the bytes of one request, up to and including its terminator, and returns the
/// framed reply.
pub fn handle_request(
    dispatcher: &RequestDispatcher,
    storage: &mut Storage,
    session: &mut Session,
    bytes: &[u8],
) -> (r: Vec<u8>)
    requires
        old(storage).wf(),
        old(session).wf(),
    ensures
        final(storage).wf(),
        final(session).wf(),
        frame_text(bytes@) is None ==> r@ == frame_bytes(encoding_error_text()) && *final(storage)
            == *old(storage) && *final(session) == *old(session),
        frame_text(bytes@) matches Some(text) ==> exists|reply: Seq<char>|
            #[trigger] answers(dispatcher, *old(storage), *old(session), text, reply, *final(storage), *final(session))
                && r@ == encode_utf8(reply).push(EOT),
{
    match read_response(bytes) {
        Err(_) => {
            let t = String::from_str("Error: request should be in UTF-8 format");
            response_to_bytes(ensure_crlf(t.as_str()))
        },
        Ok(request) => {
            let ghost s0 = *storage;
            let ghost session0 = *session;
            let reply = dispatch_request(dispatcher, storage, session, request.as_str());
            let ghost sent = reply@;
            let r = response_to_bytes(reply);
            assert(answers(dispatcher, s0, session0, frame_text(bytes@)->Some_0, sent, *storage, *session));
            r
        },
    }
}

} // verus!
