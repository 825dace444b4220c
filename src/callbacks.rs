use vstd::prelude::*;
use crate::key::{canonical_decimal_of, number_of, decrypted, encrypted, first_part, key_error, second_part, Key, ParseError};
use crate::record::{record_parts, record_text, ParseRecordError, Record};
use crate::session::{is_fresh, Authorized, Session, Unauthorized};
use crate::storage::{
    delete_record_post, delete_user_post, get_user_storage_post, release_post, resources,
    sorted_names, write_record_post, Storage, UserStorage,
};
use crate::storage;
use crate::text::string_of;
use crate::tokenizer::views;
use crate::validation::{is_alnum, is_safe_for_filename, safe_for_filename};

verus! {

/// Why a command was refused.
#[derive(Debug)]
pub enum Error {
    UnacceptableRequestAtThisState,
    EmptyUsername,
    InvalidUsername(String),
    EmptyKey,
    InvalidKey(ParseError),
    EmptyConfirmationString,
    InvalidConfirmationString,
    EmptyResourceName,
    InvalidResourceName,
    EmptyRecordContent,
    InvalidRecordFormat(ParseRecordError),
    Storage(storage::Error),
}

/// Length of the random text behind a login challenge.
pub const NONCE_LEN: usize = 30;

/// The reply to a command that succeeded with nothing to tell.
pub open spec fn is_ok_reply(r: Result<String, Error>) -> bool {
    r matches Ok(t) && t@ == "Ok"@
}

/// The command was refused in the session's state.
pub open spec fn is_refused(r: Result<String, Error>) -> bool {
    r matches Err(Error::UnacceptableRequestAtThisState)
}

/// The texts `v` joined by `d`.
pub open spec fn joined(v: Seq<Seq<char>>, d: Seq<char>) -> Seq<char>
    decreases v.len(),
{
    if v.len() == 0 {
        seq![]
    } else if v.len() == 1 {
        v[0]
    } else {
        joined(v.drop_last(), d) + d + v.last()
    }
}

/// What `register` does: with `args` = username, key.
pub open spec fn handles_register(
    s0: Storage,
    session: Session,
    args: Seq<String>,
    r: Result<String, Error>,
    s1: Storage,
) -> bool {
    if !(session is Unauthorized) {
        is_refused(r) && s1 == s0
    } else if args.len() == 0 {
        (r matches Err(Error::EmptyUsername)) && s1 == s0
    } else if !safe_for_filename(args[0]@) {
        (r matches Err(Error::InvalidUsername(n)) && n@ == args[0]@) && s1 == s0
    } else if args.len() < 2 {
        (r matches Err(Error::EmptyKey)) && s1 == s0
    } else if key_error(args[1]@) is Some {
        (r matches Err(Error::InvalidKey(e)) && key_error(args[1]@) == Some(e)) && s1 == s0
    } else if s0.has_user(args[0]@) {
        (r matches Err(Error::Storage(storage::Error::UserAlreadyExists(n))) && n@ == args[0]@) && s1
            == s0
    } else {
        &&& is_ok_reply(r)
        &&& s1.has_user(args[0]@)
        &&& canonical_decimal_of(s1.user(args[0]@).pub_key.0@, number_of(first_part(args[1]@)))
        &&& canonical_decimal_of(s1.user(args[0]@).pub_key.1@, number_of(second_part(args[1]@)))
        &&& s1.records(args[0]@).len() == 0
        &&& s1.holders(args[0]@) == 0
        &&& s1.same_except(&s0, args[0]@)
    }
}

/// What `login` does with `args` = username, when `nonce` is the random text drawn.
pub open spec fn handles_login(
    s: Storage,
    session0: Session,
    args: Seq<String>,
    nonce: Seq<char>,
    r: Result<String, Error>,
    session1: Session,
) -> bool {
    if !(session0 is Unauthorized) {
        is_refused(r) && session1 == session0
    } else if args.len() == 0 {
        (r matches Err(Error::EmptyUsername)) && session1 == session0
    } else if !safe_for_filename(args[0]@) {
        (r matches Err(Error::InvalidUsername(n)) && n@ == args[0]@) && session1 == session0
    } else if !s.has_user(args[0]@) {
        (r matches Err(Error::Storage(storage::Error::UserDoesNotExist(n))) && n@ == args[0]@)
            && session1 == session0
    } else {
        &&& r matches Ok(c) && c@ == encrypted(s.user(args[0]@).pub_key, nonce)
        &&& session1 matches Session::Unauthorized(u) && (u.username matches Some(n) && n@ == args[0]@)
            && (u.login_confirmation matches Some(c) && c@ == encrypted(s.user(args[0]@).pub_key, nonce))
    }
}

/// A session waiting for the answer to a login challenge.
pub open spec fn is_pending(s: Session) -> bool {
    s matches Session::Unauthorized(u) && u.username is Some && u.login_confirmation is Some
}

/// What `confirm_login` does with `args` = the answer to the challenge.
pub open spec fn handles_confirm_login(
    s0: Storage,
    session0: Session,
    args: Seq<String>,
    r: Result<String, Error>,
    s1: Storage,
    session1: Session,
) -> bool {
    if !is_pending(session0) {
        is_refused(r) && s1 == s0 && session1 == session0
    } else if args.len() == 0 || args[0]@.len() == 0 {
        (r matches Err(Error::EmptyConfirmationString)) && s1 == s0 && session1 == session0
    } else {
        let u = session0->Unauthorized_0;
        let name = u.username->Some_0;
        if decrypted(s0.sec_key, args[0]@) != u.login_confirmation->Some_0@ {
            &&& r matches Err(Error::InvalidConfirmationString)
            &&& s1 == s0
            &&& session1 matches Session::Unauthorized(u1) && u1.username == u.username
                && u1.login_confirmation is None
        } else {
            ||| (r matches Err(Error::Storage(e)) && get_user_storage_post(
                s0,
                name@,
                Err(e),
                s1,
            ) && session1 == session0)
            ||| (is_ok_reply(r) && (session1 matches Session::Authorized(a) && a.username == name
                && get_user_storage_post(s0, name@, Ok(a.user_storage), s1)))
        }
    }
}

/// What `delete_me` does.
pub open spec fn handles_delete_me(
    s0: Storage,
    session0: Session,
    r: Result<String, Error>,
    s3: Storage,
    session1: Session,
) -> bool {
    if !(session0 is Authorized) {
        is_refused(r) && s3 == s0 && session1 == session0
    } else {
        let name = session0->Authorized_0.username;
        exists|s1: Storage, d: Result<(), storage::Error>, s2: Storage|
            {
                &&& release_post(s0, name@, s1)
                &&& #[trigger] delete_user_post(s1, name@, d, s2)
                &&& d is Ok ==> is_ok_reply(r) && s3 == s2 && is_fresh(session1)
                &&& d matches Err(e) ==> (r matches Err(Error::Storage(e1)) && e1 == e)
                    && deleted_or_restored(s2, name, s3, session1)
            }
    }
}

/// After a refused deletion: the session holds a fresh handle on its user again, or, when
/// none can be had, is left fresh.
pub open spec fn deleted_or_restored(s2: Storage, name: String, s3: Storage, session1: Session) -> bool {
    exists|g: Result<UserStorage, storage::Error>|
        {
            &&& #[trigger] get_user_storage_post(s2, name@, g, s3)
            &&& g matches Ok(h) ==> session1 matches Session::Authorized(a) && a.username == name
                && a.user_storage == h
            &&& g is Err ==> is_fresh(session1)
        }
}

/// What `quit` does.
pub open spec fn handles_quit(
    s0: Storage,
    session0: Session,
    r: Result<String, Error>,
    s1: Storage,
    session1: Session,
) -> bool {
    if session0 is Ended {
        is_refused(r) && s1 == s0 && session1 == session0
    } else {
        &&& is_ok_reply(r)
        &&& session1 is Ended
        &&& session0 matches Session::Authorized(a) ==> release_post(s0, a.username@, s1)
        &&& session0 is Unauthorized ==> s1 == s0
    }
}

/// The checks on the resource name in `args[0]` that the record commands share.
pub open spec fn resource_refusal(session: Session, args: Seq<String>, r: Result<String, Error>) -> Option<bool> {
    if !(session is Authorized) {
        Some(is_refused(r))
    } else if args.len() == 0 {
        Some(r matches Err(Error::EmptyResourceName))
    } else if !safe_for_filename(args[0]@) {
        Some(r matches Err(Error::InvalidResourceName))
    } else {
        None
    }
}

/// What `new_record` does with `args` = resource, then password and notes on separate lines.
pub open spec fn handles_new_record(
    s0: Storage,
    session: Session,
    args: Seq<String>,
    r: Result<String, Error>,
    s1: Storage,
) -> bool {
    match resource_refusal(session, args, r) {
        Some(holds) => holds && s1 == s0,
        None => if args.len() < 2 {
            (r matches Err(Error::EmptyRecordContent)) && s1 == s0
        } else if record_parts(args[1]@) is None {
            (r matches Err(Error::InvalidRecordFormat(ParseRecordError::EmptyString))) && s1 == s0
        } else {
            let parts = record_parts(args[1]@)->Some_0;
            exists|rec: Record, w: Result<(), storage::Error>|
                {
                    &&& rec@ == (args[0]@, parts.0, parts.1)
                    &&& #[trigger] write_record_post(
                        s0,
                        session->Authorized_0.username@,
                        rec,
                        w,
                        s1,
                    )
                    &&& w is Ok ==> is_ok_reply(r)
                    &&& w matches Err(e) ==> r matches Err(Error::Storage(e1)) && e1 == e
                }
        },
    }
}

/// What `show_record` does with `args` = resource.
pub open spec fn handles_show_record(
    s: Storage,
    session: Session,
    args: Seq<String>,
    r: Result<String, Error>,
) -> bool {
    match resource_refusal(session, args, r) {
        Some(holds) => holds,
        None => {
            let name = session->Authorized_0.username@;
            if !s.has_user(name) {
                r matches Err(Error::Storage(storage::Error::UserDoesNotExist(n))) && n@ == name
            } else if !s.has_record(name, args[0]@) {
                r matches Err(Error::Storage(storage::Error::RecordDoesNotExist(n))) && n@ == args[0]@
            } else {
                r matches Ok(t) && t@ == record_text(
                    s.record(name, args[0]@).password@,
                    s.record(name, args[0]@).notes@,
                )
            }
        },
    }
}

/// What `list_records` does: the names of the user's records, sorted ascending, one per line.
pub open spec fn handles_list_records(s: Storage, session: Session, r: Result<String, Error>) -> bool {
    if !(session is Authorized) {
        is_refused(r)
    } else {
        let name = session->Authorized_0.username@;
        if !s.has_user(name) {
            r matches Err(Error::Storage(storage::Error::UserDoesNotExist(n))) && n@ == name
        } else {
            &&& r matches Ok(t) && t@ == joined(resources(s.records(name)), seq!['\n'])
            &&& sorted_names(resources(s.records(name)))
        }
    }
}

/// What `delete_record` does with `args` = resource.
pub open spec fn handles_delete_record(
    s0: Storage,
    session: Session,
    args: Seq<String>,
    r: Result<String, Error>,
    s1: Storage,
) -> bool {
    match resource_refusal(session, args, r) {
        Some(holds) => holds && s1 == s0,
        None => exists|d: Result<(), storage::Error>|
            {
                &&& #[trigger] delete_record_post(
                    s0,
                    session->Authorized_0.username@,
                    args[0]@,
                    d,
                    s1,
                )
                &&& d is Ok ==> is_ok_reply(r)
                &&& d matches Err(e) ==> r matches Err(Error::Storage(e1)) && e1 == e
            },
    }
}

fn ok_reply() -> (r: String)
    ensures
        r@ == "Ok"@,
{
    String::from_str("Ok")
}

/// Catenates strings from `values` delimiting them with `delimiter`
pub fn to_string_with_delimiter(values: &Vec<String>, delimiter: &str) -> (r: String)
    ensures
        r@ == joined(views(values@), delimiter@),
{
    if values.len() == 0 {
        return String::new();
    }
    let ghost v = views(values@);
    let mut acc = values[0].clone();
    assert(v.subrange(0, 1) =~= seq![v[0]]);
    let mut i: usize = 1;
    while i < values.len()
        invariant
            v == views(values@),
            1 <= i <= values@.len(),
            acc@ == joined(v.subrange(0, i as int), delimiter@),
        decreases values.len() - i,
    {
        acc.append(delimiter);
        acc.append(values[i].as_str());
        assert(v.subrange(0, i + 1).drop_last() =~= v.subrange(0, i as int));
        i = i + 1;
    }
    assert(v.subrange(0, i as int) =~= v);
    acc
}

/// Relies on rand's `thread_rng` sampled with `Alphanumeric`, which yields one of the
/// 62 ASCII letters and digits.
#[verifier::external_body]
fn random_alphanumeric() -> (c: char)
    ensures
        is_alnum(c),
{
    char::from(rand::Rng::sample(&mut rand::thread_rng(), rand::distributions::Alphanumeric))
}

/// A fresh random text of `len` ASCII letters and digits.
pub fn fresh_nonce(len: usize) -> (r: String)
    ensures
        r@.len() == len,
        forall|i: int| 0 <= i < len ==> is_alnum(#[trigger] r@[i]),
{
    let mut v: Vec<char> = Vec::new();
    let mut i: usize = 0;
    while i < len
        invariant
            i <= len,
            v@.len() == i,
            forall|k: int| 0 <= k < i ==> is_alnum(#[trigger] v@[k]),
        decreases len - i,
    {
        v.push(random_alphanumeric());
        i = i + 1;
    }
    string_of(v.as_slice())
}

/// Registers a new user with the username and the key in `args`.
///
/// # Errors
///
/// * `UnacceptableRequestAtThisState` - if the session is not unauthorized
/// * `EmptyUsername` - if no username was provided
/// * `InvalidUsername` - if the username is not safe as a storage key
/// * `EmptyKey` - if no key was provided
/// * `InvalidKey` - if the key can't be parsed
/// * `Storage` - if the user exists already
pub fn register(storage: &mut Storage, session: &Session, args: &Vec<String>) -> (r: Result<String, Error>)
    requires
        old(storage).wf(),
    ensures
        final(storage).wf(),
        handles_register(*old(storage), *session, args@, r, *final(storage)),
{
    if !session.is_unauthorized() {
        return Err(Error::UnacceptableRequestAtThisState);
    }
    if args.len() == 0 {
        return Err(Error::EmptyUsername);
    }
    if !is_safe_for_filename(args[0].as_str()) {
        return Err(Error::InvalidUsername(args[0].clone()));
    }
    if args.len() < 2 {
        return Err(Error::EmptyKey);
    }
    let key = match Key::from_str(args[1].as_str()) {
        Ok(k) => k,
        Err(e) => return Err(Error::InvalidKey(e)),
    };
    match storage.add_new_user(args[0].as_str(), &key) {
        Ok(()) => Ok(ok_reply()),
        Err(e) => Err(Error::Storage(e)),
    }
}

/// First part of a login, with `nonce` as the random text behind the challenge.
///
/// Reads the username from `args`, encrypts `nonce` with the user's public key into the
/// challenge, keeps it in the session and returns it.
///
/// # Errors
///
/// * `UnacceptableRequestAtThisState` - if the session is not unauthorized
/// * `EmptyUsername` - if no username was provided
/// * `InvalidUsername` - if the username is not safe as a storage key
/// * `Storage` - if there is no such user
pub fn login_with_nonce(storage: &Storage, session: &mut Session, args: &Vec<String>, nonce: &str) -> (r:
    Result<String, Error>)
    ensures
        old(session).wf() ==> final(session).wf(),
        handles_login(*storage, *old(session), args@, nonce@, r, *final(session)),
{
    if !session.is_unauthorized() {
        return Err(Error::UnacceptableRequestAtThisState);
    }
    if args.len() == 0 {
        return Err(Error::EmptyUsername);
    }
    if !is_safe_for_filename(args[0].as_str()) {
        return Err(Error::InvalidUsername(args[0].clone()));
    }
    let key = match storage.get_user_pub_key(args[0].as_str()) {
        Ok(k) => k,
        Err(e) => return Err(Error::Storage(e)),
    };
    let challenge = key.encrypt(nonce);
    *session = Session::Unauthorized(
        Unauthorized { username: Some(args[0].clone()), login_confirmation: Some(challenge.clone()) },
    );
    Ok(challenge)
}

/// First part of a login: draws a fresh random text of [`NONCE_LEN`] letters and digits
/// and goes on as [`login_with_nonce`].
pub fn login(storage: &Storage, session: &mut Session, args: &Vec<String>) -> (r: Result<String, Error>)
    ensures
        old(session).wf() ==> final(session).wf(),
        exists|nonce: Seq<char>|
            nonce.len() == NONCE_LEN && (forall|i: int| 0 <= i < nonce.len() ==> is_alnum(#[trigger] nonce[i]))
                && #[trigger] handles_login(*storage, *old(session), args@, nonce, r, *final(session)),
{
    let nonce = fresh_nonce(NONCE_LEN);
    login_with_nonce(storage, session, args, nonce.as_str())
}

/// Second part of a login: checks the answer in `args` against the pending challenge and,
/// when it matches, takes a handle on the user's store and authorizes the session.
///
/// # Errors
///
/// * `UnacceptableRequestAtThisState` - if no login is pending
/// * `EmptyConfirmationString` - if no answer was provided
/// * `InvalidConfirmationString` - if the answer is wrong; the pending challenge is dropped
/// * `Storage` - if no handle on the user's store can be had
pub fn confirm_login(storage: &mut Storage, session: &mut Session, args: &Vec<String>) -> (r: Result<
    String,
    Error,
>)
    requires
        old(storage).wf(),
    ensures
        final(storage).wf(),
        old(session).wf() ==> final(session).wf(),
        handles_confirm_login(*old(storage), *old(session), args@, r, *final(storage), *final(session)),
{
    let (name, challenge) = match session {
        Session::Unauthorized(u) => match (&u.username, &u.login_confirmation) {
            (Some(n), Some(c)) => (n.clone(), c.clone()),
            _ => return Err(Error::UnacceptableRequestAtThisState),
        },
        _ => return Err(Error::UnacceptableRequestAtThisState),
    };
    if args.len() == 0 || args[0].as_str().is_empty() {
        return Err(Error::EmptyConfirmationString);
    }
    let confirmation = storage.sec_key().decrypt(args[0].as_str());
    if confirmation != challenge {
        *session = Session::Unauthorized(Unauthorized { username: Some(name), login_confirmation: None });
        return Err(Error::InvalidConfirmationString);
    }
    match storage.get_user_storage(name.as_str()) {
        Ok(h) => {
            *session = Session::Authorized(Authorized { username: name, user_storage: h });
            Ok(ok_reply())
        },
        Err(e) => Err(Error::Storage(e)),
    }
}


/// Deletes the session's user. The session gives back its own handle first, so that a lone
/// session can delete its account; when other sessions still hold the store, the deletion
/// is refused and the session takes a fresh handle again.
///
/// # Errors
///
/// * `UnacceptableRequestAtThisState` - if the session is not authorized
/// * `Storage` - if the user can't be deleted
pub fn delete_me(storage: &mut Storage, session: &mut Session) -> (r: Result<String, Error>)
    requires
        old(storage).wf(),
        old(session).wf(),
    ensures
        final(storage).wf(),
        final(session).wf(),
        handles_delete_me(*old(storage), *old(session), r, *final(storage), *final(session)),
{
    if !session.is_authorized() {
        return Err(Error::UnacceptableRequestAtThisState);
    }
    let mut taken = Session::Unauthorized(Unauthorized::new());
    std::mem::swap(session, &mut taken);
    let a = match taken {
        Session::Authorized(a) => a,
        other => {
            *session = other;
            return Err(Error::UnacceptableRequestAtThisState);
        },
    };
    let Authorized { username, user_storage } = a;
    storage.release(user_storage);
    let ghost s1 = *storage;
    let d = storage.delete_user(username.as_str());
    let ghost s2 = *storage;
    let ghost dg = d;
    match d {
        Ok(()) => {
            assert(delete_user_post(s1, username@, dg, s2));
            Ok(ok_reply())
        },
        Err(e) => {
            let g = storage.get_user_storage(username.as_str());
            let ghost gg = g;
            match g {
                Ok(h) => {
                    *session = Session::Authorized(Authorized { username, user_storage: h });
                },
                Err(_) => {},
            }
            assert(get_user_storage_post(s2, username@, gg, *storage));
            assert(delete_user_post(s1, username@, dg, s2));
            Err(Error::Storage(e))
        },
    }
}

/// Ends the session, giving back its handle if it holds one.
///
/// # Errors
///
/// * `UnacceptableRequestAtThisState` - if the session is already ended
pub fn quit(storage: &mut Storage, session: &mut Session) -> (r: Result<String, Error>)
    requires
        old(storage).wf(),
        old(session).wf(),
    ensures
        final(storage).wf(),
        final(session).wf(),
        handles_quit(*old(storage), *old(session), r, *final(storage), *final(session)),
{
    if session.is_ended() {
        return Err(Error::UnacceptableRequestAtThisState);
    }
    let mut taken = Session::Ended;
    std::mem::swap(session, &mut taken);
    match taken {
        Session::Authorized(a) => {
            let Authorized { username, user_storage } = a;
            storage.release(user_storage);
        },
        _ => {},
    }
    Ok(ok_reply())
}


/// Adds a record for the session's user: `args` holds the resource, then the password and
/// the notes on separate lines.
///
/// # Errors
///
/// * `UnacceptableRequestAtThisState` - if the session is not authorized
/// * `EmptyResourceName` - if no resource name was provided
/// * `InvalidResourceName` - if the resource name is not safe as a storage key
/// * `EmptyRecordContent` - if no record was provided
/// * `InvalidRecordFormat` - if the record can't be parsed
/// * `Storage` - if the record can't be written
pub fn new_record(storage: &mut Storage, session: &Session, args: &Vec<String>) -> (r: Result<String, Error>)
    requires
        old(storage).wf(),
        session.wf(),
    ensures
        final(storage).wf(),
        handles_new_record(*old(storage), *session, args@, r, *final(storage)),
{
    let a = match session {
        Session::Authorized(a) => a,
        _ => return Err(Error::UnacceptableRequestAtThisState),
    };
    if args.len() == 0 {
        return Err(Error::EmptyResourceName);
    }
    if !is_safe_for_filename(args[0].as_str()) {
        return Err(Error::InvalidResourceName);
    }
    if args.len() < 2 {
        return Err(Error::EmptyRecordContent);
    }
    let parsed = match Record::from_str(args[1].as_str()) {
        Ok(p) => p,
        Err(e) => return Err(Error::InvalidRecordFormat(e)),
    };
    let record = Record { resource: args[0].clone(), password: parsed.password, notes: parsed.notes };
    let ghost rec = record;
    let ghost s0 = *storage;
    let w = storage.write_record(&a.user_storage, record);
    let ghost wg = w;
    proof {
        assert(rec@ == (args@[0]@, record_parts(args@[1]@)->Some_0.0, record_parts(args@[1]@)->Some_0.1));
        assert(write_record_post(s0, a.username@, rec, wg, *storage));
    }
    match w {
        Ok(()) => Ok(ok_reply()),
        Err(e) => Err(Error::Storage(e)),
    }
}

/// Shows the session's user's record for the resource in `args`: the password, then the
/// notes on the next lines.
///
/// # Errors
///
/// * `UnacceptableRequestAtThisState` - if the session is not authorized
/// * `EmptyResourceName` - if no resource name was provided
/// * `InvalidResourceName` - if the resource name is not safe as a storage key
/// * `Storage` - if there is no such record
pub fn show_record(storage: &Storage, session: &Session, args: &Vec<String>) -> (r: Result<String, Error>)
    requires
        storage.wf(),
        session.wf(),
    ensures
        handles_show_record(*storage, *session, args@, r),
{
    let a = match session {
        Session::Authorized(a) => a,
        _ => return Err(Error::UnacceptableRequestAtThisState),
    };
    if args.len() == 0 {
        return Err(Error::EmptyResourceName);
    }
    if !is_safe_for_filename(args[0].as_str()) {
        return Err(Error::InvalidResourceName);
    }
    match storage.get_record(&a.user_storage, args[0].as_str()) {
        Ok(record) => Ok(record.to_string()),
        Err(e) => Err(Error::Storage(e)),
    }
}

/// Lists the names of the session's user's records, one per line.
///
/// # Errors
///
/// * `UnacceptableRequestAtThisState` - if the session is not authorized
/// * `Storage` - if the records can't be listed
pub fn list_records(storage: &Storage, session: &Session) -> (r: Result<String, Error>)
    requires
        storage.wf(),
        session.wf(),
    ensures
        handles_list_records(*storage, *session, r),
{
    let a = match session {
        Session::Authorized(a) => a,
        _ => return Err(Error::UnacceptableRequestAtThisState),
    };
    match storage.list_records(&a.user_storage) {
        Ok(names) => {
            let r = to_string_with_delimiter(&names, "\n");
            proof {
                reveal_strlit("\n");
                assert("\n"@ =~= seq!['\n']);
            }
            Ok(r)
        },
        Err(e) => Err(Error::Storage(e)),
    }
}

/// Deletes the session's user's record for the resource in `args`.
///
/// # Errors
///
/// * `UnacceptableRequestAtThisState` - if the session is not authorized
/// * `EmptyResourceName` - if no resource name was provided
/// * `InvalidResourceName` - if the resource name is not safe as a storage key
/// * `Storage` - if there is no such record
pub fn delete_record(storage: &mut Storage, session: &Session, args: &Vec<String>) -> (r: Result<String, Error>)
    requires
        old(storage).wf(),
        session.wf(),
    ensures
        final(storage).wf(),
        handles_delete_record(*old(storage), *session, args@, r, *final(storage)),
{
    let a = match session {
        Session::Authorized(a) => a,
        _ => return Err(Error::UnacceptableRequestAtThisState),
    };
    if args.len() == 0 {
        return Err(Error::EmptyResourceName);
    }
    if !is_safe_for_filename(args[0].as_str()) {
        return Err(Error::InvalidResourceName);
    }
    let ghost s0 = *storage;
    let d = storage.delete_record(&a.user_storage, args[0].as_str());
    let ghost dg = d;
    proof {
        assert(delete_record_post(s0, a.username@, args@[0]@, dg, *storage));
    }
    match d {
        Ok(()) => Ok(ok_reply()),
        Err(e) => Err(Error::Storage(e)),
    }
}


/// Handshake success: for a registered user, a login followed by the answer that the
/// user's secret key computes from the challenge (decrypted with it, then encrypted with the
/// server's public key) authorizes the session with a handle on the
/// user's store, and a further answer on the authorized session is refused and changes nothing.
pub proof fn lemma_handshake_success(
    s0: Storage,
    session0: Session,
    args1: Seq<String>,
    nonce: Seq<char>,
    r1: Result<String, Error>,
    session1: Session,
    args2: Seq<String>,
    r2: Result<String, Error>,
    s2: Storage,
    session2: Session,
    args3: Seq<String>,
    r3: Result<String, Error>,
    s3: Storage,
    session3: Session,
    user_sec_key: Key,
)
    requires
        s0.wf(),
        session0 is Unauthorized,
        args1.len() > 0,
        safe_for_filename(args1[0]@),
        s0.has_user(args1[0]@),
        s0.holders(args1[0]@) < u64::MAX,
        nonce.len() > 0,
        handles_login(s0, session0, args1, nonce, r1, session1),
        args2.len() > 0,
        r1 is Ok ==> args2[0]@ == encrypted(s0.pub_key, decrypted(user_sec_key, r1->Ok_0@)),
        handles_confirm_login(s0, session1, args2, r2, s2, session2),
        handles_confirm_login(s2, session2, args3, r3, s3, session3),
    ensures
        r1 is Ok,
        is_ok_reply(r2),
        session2 matches Session::Authorized(a) && a.username@ == args1[0]@,
        s2.holders(args1[0]@) == s0.holders(args1[0]@) + 1,
        is_refused(r3),
        session3 == session2,
        s3 == s2,
{
}

/// Handshake failure: a wrong answer to a pending challenge is refused, drops the
/// challenge, leaves the session unauthorized and takes no handle.
pub proof fn lemma_handshake_failure(
    s0: Storage,
    session0: Session,
    args: Seq<String>,
    r: Result<String, Error>,
    s1: Storage,
    session1: Session,
)
    requires
        is_pending(session0),
        args.len() > 0,
        args[0]@.len() > 0,
        decrypted(s0.sec_key, args[0]@) != session0->Unauthorized_0.login_confirmation->Some_0@,
        handles_confirm_login(s0, session0, args, r, s1, session1),
    ensures
        r matches Err(Error::InvalidConfirmationString),
        session1 matches Session::Unauthorized(u) && u.login_confirmation is None,
        s1 == s0,
{
}

/// Self-delete: a session that alone holds its user's store deletes the account.
pub proof fn lemma_self_delete_alone(
    s0: Storage,
    session0: Session,
    r: Result<String, Error>,
    s1: Storage,
    session1: Session,
)
    requires
        s0.wf(),
        session0.wf(),
        session0 is Authorized,
        s0.holders(session0->Authorized_0.username@) == 1,
        handles_delete_me(s0, session0, r, s1, session1),
    ensures
        is_ok_reply(r),
        !s1.has_user(session0->Authorized_0.username@),
        is_fresh(session1),
{
    let name = session0->Authorized_0.username;
    let (sa, d, sb) = choose|sa: Storage, d: Result<(), storage::Error>, sb: Storage|
        {
            &&& release_post(s0, name@, sa)
            &&& #[trigger] delete_user_post(sa, name@, d, sb)
            &&& d is Ok ==> is_ok_reply(r) && s1 == sb && is_fresh(session1)
            &&& d matches Err(e) ==> (r matches Err(Error::Storage(e1)) && e1 == e)
                && deleted_or_restored(sb, name, s1, session1)
        };
    assert(sa.holders(name@) == 0);
}

} // verus!
