use vstd::prelude::*;
use crate::error::Error;
use crate::key::{decrypted, encrypted, key_text, Key};
use crate::record::{record_parts, record_text, Record};
use crate::text::{chars_of, find_char_from, index_from, lemma_index_from, string_of_range};
use crate::tokenizer::views;

verus! {

/// The prefix of every error reply of the server.
pub open spec fn error_prefix() -> Seq<char> {
    "Error: "@
}

/// What a client makes of a reply: the reply itself, or the server's error message.
pub open spec fn good_response(response: Seq<char>) -> Result<Seq<char>, Seq<char>> {
    let p = error_prefix();
    if response.len() >= p.len() && response.subrange(0, p.len() as int) == p {
        Err(response.subrange(p.len() as int, response.len() as int))
    } else {
        Ok(response)
    }
}

/// The lines of `s` from position `i` on, split at each line break.
pub open spec fn lines_from(s: Seq<char>, i: int) -> Seq<Seq<char>>
    decreases s.len() - i,
    via lines_from_decreases
{
    if i < 0 || i > s.len() {
        seq![]
    } else {
        let j = index_from(s, '\n', i);
        if j < s.len() {
            seq![s.subrange(i, j)] + lines_from(s, j + 1)
        } else {
            seq![s.subrange(i, s.len() as int)]
        }
    }
}

#[via_fn]
proof fn lines_from_decreases(s: Seq<char>, i: int) {
    if 0 <= i <= s.len() {
        lemma_index_from(s, '\n', i);
    }
}

/// The names in a reply to `list_records`: none for an empty reply, else its lines.
pub open spec fn record_names(response: Seq<char>) -> Seq<Seq<char>> {
    if response.len() == 0 {
        seq![]
    } else {
        lines_from(response, 0)
    }
}

fn starts_with_error_prefix(v: &Vec<char>) -> (r: bool)
    ensures
        r == (v@.len() >= error_prefix().len() && v@.subrange(0, error_prefix().len() as int)
            == error_prefix()),
{
    proof {
        reveal_strlit("Error: ");
    }
    let r = v.len() >= 7 && v[0] == 'E' && v[1] == 'r' && v[2] == 'r' && v[3] == 'o' && v[4] == 'r'
        && v[5] == ':' && v[6] == ' ';
    proof {
        if v@.len() >= 7 {
            if r {
                assert(v@.subrange(0, 7) =~= error_prefix());
            } else {
                let k = choose|k: int| 0 <= k < 7 && v@[k] != error_prefix()[k];
                assert(v@.subrange(0, 7)[k] != error_prefix()[k]);
            }
        }
    }
    r
}

/// Returns the server's reply unless it holds an error message.
///
/// # Errors
///
/// * `Server` - if the reply starts with `"Error: "`; it holds the rest of the reply
pub fn read_good_response(response: String) -> (r: Result<String, Error>)
    ensures
        good_response(response@) matches Ok(t) ==> r matches Ok(s) && s@ == t,
        good_response(response@) matches Err(m) ==> r matches Err(Error::Server { mes }) && mes@ == m,
{
    let v = chars_of(response.as_str());
    if starts_with_error_prefix(&v) {
        proof {
            reveal_strlit("Error: ");
        }
        let mes = string_of_range(&v, 7, v.len());
        return Err(Error::Server { mes });
    }
    Ok(response)
}

/// Checks that the server's reply is `"Ok"`.
///
/// # Errors
///
/// * `Server` - if the reply holds an error message
/// * `UnexpectedResponse` - if the reply is anything else
pub fn read_ok_response(response: String) -> (r: Result<(), Error>)
    ensures
        good_response(response@) matches Err(m) ==> r matches Err(Error::Server { mes }) && mes@ == m,
        good_response(response@) is Ok && response@ == "Ok"@ ==> r is Ok,
        good_response(response@) is Ok && response@ != "Ok"@ ==> (r matches Err(
            Error::UnexpectedResponse { response: t },
        ) && t@ == response@),
{
    let good = read_good_response(response);
    match good {
        Err(e) => Err(e),
        Ok(t) => {
            let ok = String::from_str("Ok");
            if t == ok {
                Ok(())
            } else {
                Err(Error::UnexpectedResponse { response: t })
            }
        },
    }
}

/// Checks that a record's resource name is not empty
///
/// # Errors
///
/// * `InvalidResource` - if `resource` is empty
pub fn check_resource(resource: &str) -> (r: Result<(), Error>)
    ensures
        r is Ok <==> resource@.len() > 0,
        r matches Err(e) ==> e is InvalidResource,
{
    if resource.is_empty() {
        return Err(Error::InvalidResource { mes: String::from_str("record's resource can't be empty") });
    }
    Ok(())
}

fn command_line(command: &str, argument: &str) -> (r: String)
    ensures
        r@ == command@ + seq![' '] + argument@,
{
    let mut r = String::from_str(command);
    r.append(" ");
    r.append(argument);
    proof {
        reveal_strlit(" ");
    }
    r
}

/// The request that registers `username` with `pub_key`.
pub fn register_request(username: &str, pub_key: &Key) -> (r: String)
    ensures
        r@ == "register"@ + seq![' '] + username@ + seq![' '] + key_text(*pub_key),
{
    let with_name = command_line("register", username);
    let key = pub_key.to_string();
    command_line(with_name.as_str(), key.as_str())
}

/// The request that starts a login for `username`.
pub fn login_request(username: &str) -> (r: String)
    ensures
        r@ == "login"@ + seq![' '] + username@,
{
    command_line("login", username)
}

/// The answer to a login challenge: the challenge decrypted with the user's secret key,
/// then encrypted with the server's public key.
pub fn confirmation_reply(challenge: &str, sec_key: &Key, server_pub_key: &Key) -> (r: String)
    ensures
        r@ == encrypted(*server_pub_key, decrypted(*sec_key, challenge@)),
{
    let confirmation = sec_key.decrypt(challenge);
    server_pub_key.encrypt(confirmation.as_str())
}

/// The request that answers a login challenge with `reply`.
pub fn confirm_login_request(reply: &str) -> (r: String)
    ensures
        r@ == "confirm_login"@ + seq![' '] + reply@,
{
    command_line("confirm_login", reply)
}

/// The request that adds `record`: its resource, then its text in quotes.
///
/// # Errors
///
/// * `InvalidResource` - if the record's resource is empty
pub fn add_record_request(record: &Record) -> (r: Result<String, Error>)
    ensures
        r is Ok <==> record.resource@.len() > 0,
        r matches Ok(t) ==> t@ == "new_record"@ + seq![' '] + record.resource@ + seq![' ', '"']
            + record_text(record.password@, record.notes@) + seq!['"'],
        r matches Err(e) ==> e is InvalidResource,
{
    check_resource(record.resource.as_str())?;
    let text = record.to_string();
    let mut quoted = String::from_str("\"");
    quoted.append(text.as_str());
    quoted.append("\"");
    proof {
        reveal_strlit("\"");
    }
    Ok(command_line(command_line("new_record", record.resource.as_str()).as_str(), quoted.as_str()))
}

/// The request that deletes the record for `resource`.
///
/// # Errors
///
/// * `InvalidResource` - if `resource` is empty
pub fn delete_record_request(resource: &str) -> (r: Result<String, Error>)
    ensures
        r is Ok <==> resource@.len() > 0,
        r matches Ok(t) ==> t@ == "delete_record"@ + seq![' '] + resource@,
{
    check_resource(resource)?;
    Ok(command_line("delete_record", resource))
}

/// The request that shows the record for `resource`.
///
/// # Errors
///
/// * `InvalidResource` - if `resource` is empty
pub fn show_record_request(resource: &str) -> (r: Result<String, Error>)
    ensures
        r is Ok <==> resource@.len() > 0,
        r matches Ok(t) ==> t@ == "show_record"@ + seq![' '] + resource@,
{
    check_resource(resource)?;
    Ok(command_line("show_record", resource))
}

/// The record for `resource` in the server's reply to `show_record`.
///
/// # Errors
///
/// * `Server` - if the reply holds an error message
/// * `UnexpectedResponse` - if the reply holds no line break
pub fn parse_record(resource: String, response: String) -> (r: Result<Record, Error>)
    ensures
        good_response(response@) matches Err(m) ==> r matches Err(Error::Server { mes }) && mes@ == m,
        good_response(response@) is Ok && record_parts(response@) is None ==> r is Err,
        good_response(response@) is Ok && record_parts(response@) is Some ==> (r matches Ok(rec)
            && rec@ == (resource@, record_parts(response@)->Some_0.0, record_parts(response@)->Some_0.1)),
{
    let text = read_good_response(response)?;
    match Record::from_str(text.as_str()) {
        Ok(parsed) => Ok(Record { resource, password: parsed.password, notes: parsed.notes }),
        Err(_) => Err(Error::UnexpectedResponse { response: text }),
    }
}

/// The record names in the server's reply to `list_records`.
///
/// # Errors
///
/// * `Server` - if the reply holds an error message
pub fn parse_records_list(response: String) -> (r: Result<Vec<String>, Error>)
    ensures
        good_response(response@) matches Err(m) ==> r matches Err(Error::Server { mes }) && mes@ == m,
        good_response(response@) is Ok ==> (r matches Ok(v) && views(v@) == record_names(response@)),
{
    let ghost resp = response@;
    let text = read_good_response(response)?;
    let v = chars_of(text.as_str());
    let mut names: Vec<String> = Vec::new();
    if v.len() == 0 {
        assert(views(names@) =~= seq![]);
        return Ok(names);
    }
    let mut i: usize = 0;
    loop
        invariant
            v@ == text@,
            text@ == resp,
            resp == response@,
            good_response(resp) is Ok,
            v@.len() > 0,
            i <= v@.len(),
            views(names@) + lines_from(v@, i as int) == lines_from(v@, 0),
        decreases v@.len() - i,
    {
        proof {
            lemma_index_from(v@, '\n', i as int);
        }
        let ghost prev = names@;
        let j = find_char_from(&v, '\n', i);
        let line = string_of_range(&v, i, j);
        names.push(line);
        assert(views(names@) =~= views(prev) + seq![line@]);
        if j == v.len() {
            assert(lines_from(v@, i as int) == seq![line@]);
            assert(views(names@) == lines_from(v@, 0));
            assert(record_names(resp) == lines_from(v@, 0));
            return Ok(names);
        }
        assert(lines_from(v@, i as int) == seq![line@] + lines_from(v@, j + 1));
        i = j + 1;
    }
}

} // verus!
