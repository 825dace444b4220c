use vstd::prelude::*;
use crate::storage::UserStorage;

verus! {

/// State of a session before the user is known.
pub struct Unauthorized {
    /// The user that asked to log in, if any.
    pub username: Option<String>,
    /// The challenge that the user must answer, if a login is pending.
    pub login_confirmation: Option<String>,
}

/// State of a session once the user has proved who they are.
pub struct Authorized {
    pub username: String,
    /// Handle on the user's store.
    pub user_storage: UserStorage,
}

/// Enum representing user session
pub enum Session {
    /// Initial state of every session
    Unauthorized(Unauthorized),
    /// Authorized session
    Authorized(Authorized),
    /// Session, that still exists, but has been ended
    Ended,
}

/// An unauthorized session with no login pending.
pub open spec fn is_fresh(s: Session) -> bool {
    s matches Session::Unauthorized(u) && u.username is None && u.login_confirmation is None
}

impl Unauthorized {
    /// Creates new `Unauthorized` with no user and no pending login
    pub fn new() -> (r: Unauthorized)
        ensures
            r.username is None,
            r.login_confirmation is None,
    {
        Unauthorized { username: None, login_confirmation: None }
    }
}

impl Session {
    /// An authorized session's handle is on its own user.
    pub open spec fn wf(&self) -> bool {
        match self {
            Session::Authorized(a) => a.user_storage@ == a.username@,
            _ => true,
        }
    }

    /// Creates new `Session` initialized with the `Unauthorized` variant
    pub fn new() -> (r: Session)
        ensures
            is_fresh(r),
            r.wf(),
    {
        Session::Unauthorized(Unauthorized::new())
    }

    /// Checks if session is unauthorized
    pub fn is_unauthorized(&self) -> (r: bool)
        ensures
            r == self is Unauthorized,
    {
        match self {
            Session::Unauthorized(_) => true,
            _ => false,
        }
    }

    /// Checks if session is authorized
    pub fn is_authorized(&self) -> (r: bool)
        ensures
            r == self is Authorized,
    {
        match self {
            Session::Authorized(_) => true,
            _ => false,
        }
    }

    /// Checks if session is ended
    pub fn is_ended(&self) -> (r: bool)
        ensures
            r == self is Ended,
    {
        match self {
            Session::Ended => true,
            _ => false,
        }
    }
}

} // verus!
