use vstd::prelude::*;
use vstd::utf8::*;
use vstd::string::StrSliceExecFns;
use crate::error::Error;
use crate::text::{chars_of, ends_with_crlf, has_crlf_suffix, string_of_range, strip_crlf, with_crlf};

verus! {

/// End-of-transmission byte that closes every frame.
pub const EOT: u8 = 0x04;

/// The character whose encoding is the end-of-transmission byte.
pub open spec fn eot_char() -> char {
    '\u{4}'
}

/// Whether the text `t` holds the end-of-transmission character.
pub open spec fn has_eot(t: Seq<char>) -> bool {
    exists|i: int| 0 <= i < t.len() && #[trigger] t[i] == eot_char()
}

/// The frame that carries `t`: its UTF-8 bytes, ending in `"\r\n"`, then the terminator.
pub open spec fn frame_bytes(t: Seq<char>) -> Seq<u8> {
    encode_utf8(with_crlf(t)).push(EOT)
}

/// The payload of the bytes read for one frame: a trailing terminator, if any, removed.
pub open spec fn frame_payload(b: Seq<u8>) -> Seq<u8> {
    if b.len() > 0 && b[b.len() - 1] == EOT {
        b.drop_last()
    } else {
        b
    }
}

/// The text carried by the bytes read for one frame, or `None` when the payload is not UTF-8.
pub open spec fn frame_text(b: Seq<u8>) -> Option<Seq<char>> {
    if valid_utf8(frame_payload(b)) {
        Some(strip_crlf(decode_utf8(frame_payload(b))))
    } else {
        None
    }
}

/// Relies on `String::from_utf8`: it succeeds exactly on well-formed UTF-8, and the
/// string then holds the decoded characters.
#[verifier::external_body]
fn utf8_string(bytes: Vec<u8>) -> (r: Option<String>)
    ensures
        r is Some <==> valid_utf8(bytes@),
        r matches Some(s) ==> s@ == decode_utf8(bytes@),
{
    String::from_utf8(bytes).ok()
}

/// Takes a raw `request`, adds `"\r\n"` at the end if needed, converts it to bytes and
/// closes the frame with the terminator.
///
/// # Errors
///
/// * `InvalidRequest` - if `request` contains the terminator
pub fn make_request(request: String) -> (r: Result<Vec<u8>, Error>)
    ensures
        r is Err <==> has_eot(request@),
        r matches Err(e) ==> e is InvalidRequest,
        r matches Ok(b) ==> b@ == frame_bytes(request@),
{
    let v = chars_of(request.as_str());
    let mut i: usize = 0;
    while i < v.len()
        invariant
            v@ == request@,
            i <= v@.len(),
            forall|k: int| 0 <= k < i ==> #[trigger] v@[k] != eot_char(),
        decreases v.len() - i,
    {
        if v[i] == '\u{4}' {
            return Err(Error::InvalidRequest { mes: String::from_str("request should not contain EOT byte") });
        }
        i = i + 1;
    }
    let mut text = request;
    if !has_crlf_suffix(&v) {
        text.append("\r\n");
        proof {
            reveal_strlit("\r\n");
        }
    }
    assert(text@ =~= with_crlf(request@));
    let mut bytes = text.as_str().as_bytes_vec();
    bytes.push(EOT);
    Ok(bytes)
}

/// Reads the text of one frame from the bytes received up to and including its terminator.
///
/// Returns the text without the terminator and without a trailing `"\r\n"`. No bytes at all
/// (the peer closed the connection) give an empty text.
///
/// # Errors
///
/// * `InvalidResponseEncoding` - if the payload isn't UTF-8 encoded
pub fn read_response(bytes: &[u8]) -> (r: Result<String, Error>)
    ensures
        r is Err <==> frame_text(bytes@) is None,
        r matches Err(e) ==> e is InvalidResponseEncoding,
        r matches Ok(s) ==> frame_text(bytes@) == Some(s@),
{
    let n = bytes.len();
    let end: usize = if n > 0 && bytes[n - 1] == EOT { n - 1 } else { n };
    let mut payload: Vec<u8> = Vec::new();
    let mut i: usize = 0;
    while i < end
        invariant
            end <= n == bytes@.len(),
            i <= end,
            payload@ == bytes@.subrange(0, i as int),
        decreases end - i,
    {
        payload.push(bytes[i]);
        i = i + 1;
    }
    assert(payload@ =~= frame_payload(bytes@));
    match utf8_string(payload) {
        None => Err(Error::InvalidResponseEncoding),
        Some(s) => {
            let v = chars_of(s.as_str());
            if has_crlf_suffix(&v) {
                Ok(string_of_range(&v, 0, v.len() - 2))
            } else {
                Ok(s)
            }
        },
    }
}

/// Framing round trip: the text framed for sending is read back unchanged, but for a
/// trailing `"\r\n"`, which reading removes.
pub proof fn lemma_frame_round_trip(t: Seq<char>)
    requires
        !has_eot(t),
    ensures
        frame_text(frame_bytes(t)) == Some(strip_crlf(t)),
{
    broadcast use encode_utf8_valid_utf8, encode_utf8_decode_utf8;

    let w = with_crlf(t);
    assert(frame_payload(frame_bytes(t)) =~= encode_utf8(w));
    if !ends_with_crlf(t) {
        assert(ends_with_crlf(w));
        assert(strip_crlf(w) =~= t);
    }
}

} // verus!
