use vstd::prelude::*;
use crate::callbacks::{
    self, fresh_nonce, handles_confirm_login, handles_delete_me, handles_delete_record,
    handles_list_records, handles_login, handles_new_record, handles_quit, handles_register,
    handles_show_record, NONCE_LEN,
};
use crate::session::{is_fresh, Session};
use crate::storage::Storage;
use crate::tokenizer::{tokenize, tokens, views};
use crate::validation::is_alnum;

verus! {

/// The commands the server knows.
#[derive(Debug, Clone, Copy, PartialEq, Eq, Structural)]
pub enum Command {
    Register,
    Login,
    ConfirmLogin,
    DeleteMe,
    Quit,
    NewRecord,
    ShowRecord,
    ListRecords,
    DeleteRecord,
}

/// Why a request was not handed to a command.
#[derive(Debug)]
pub enum DispatchingError {
    /// The request holds no token.
    NoCommandProvided,
    /// No command is registered under the request's first token.
    UndefinedCommand(String),
    /// The command refused the request.
    Callback(callbacks::Error),
}

/// Dispatches requests to registered commands and returns their responses
pub struct RequestDispatcher {
    /// Command names and commands; an earlier entry hides a later one of the same name.
    command_to_callback: Vec<(String, Command)>,
}

/// The command registered under `name` in `t` from position `i` on: the first entry with that name.
pub open spec fn lookup_from(t: Seq<(String, Command)>, name: Seq<char>, i: int) -> Option<Command>
    decreases t.len() - i,
{
    if i < 0 || i >= t.len() {
        None
    } else if t[i].0@ == name {
        Some(t[i].1)
    } else {
        lookup_from(t, name, i + 1)
    }
}

proof fn lemma_lookup_shift(t: Seq<(String, Command)>, e: (String, Command), name: Seq<char>, i: int)
    requires
        0 <= i <= t.len(),
    ensures
        lookup_from(seq![e] + t, name, i + 1) == lookup_from(t, name, i),
    decreases t.len() - i,
{
    let u = seq![e] + t;
    if i < t.len() {
        assert(u[i + 1] == t[i]);
        lemma_lookup_shift(t, e, name, i + 1);
    }
}

/// What `cmd` does, run with `args` on the session and the storage, when `nonce` is the
/// random text that a login draws.
pub open spec fn handles_command(
    cmd: Command,
    s0: Storage,
    session0: Session,
    args: Seq<String>,
    nonce: Seq<char>,
    r: Result<String, callbacks::Error>,
    s1: Storage,
    session1: Session,
) -> bool {
    match cmd {
        Command::Register => handles_register(s0, session0, args, r, s1) && session1 == session0,
        Command::Login => handles_login(s0, session0, args, nonce, r, session1) && s1 == s0,
        Command::ConfirmLogin => handles_confirm_login(s0, session0, args, r, s1, session1),
        Command::DeleteMe => handles_delete_me(s0, session0, r, s1, session1),
        Command::Quit => handles_quit(s0, session0, r, s1, session1),
        Command::NewRecord => handles_new_record(s0, session0, args, r, s1) && session1 == session0,
        Command::ShowRecord => handles_show_record(s0, session0, args, r) && s1 == s0 && session1
            == session0,
        Command::ListRecords => handles_list_records(s0, session0, r) && s1 == s0 && session1
            == session0,
        Command::DeleteRecord => handles_delete_record(s0, session0, args, r, s1) && session1
            == session0,
    }
}

/// A command's result as the dispatcher passes it on.
pub open spec fn passed_on(rc: Result<String, callbacks::Error>, r: Result<String, DispatchingError>) -> bool {
    match rc {
        Ok(t) => r matches Ok(t1) && t1 == t,
        Err(e) => r matches Err(DispatchingError::Callback(e1)) && e1 == e,
    }
}

impl RequestDispatcher {
    /// The command registered under `name`.
    pub closed spec fn lookup(&self, name: Seq<char>) -> Option<Command> {
        lookup_from(self.command_to_callback@, name, 0)
    }

    /// What [`RequestDispatcher::dispatch_with_nonce`] does with `request`.
    pub open spec fn dispatches(
        &self,
        s0: Storage,
        session0: Session,
        request: Seq<char>,
        nonce: Seq<char>,
        r: Result<String, DispatchingError>,
        s1: Storage,
        session1: Session,
    ) -> bool {
        let t = tokens(request);
        if t.len() == 0 {
            (r matches Err(DispatchingError::NoCommandProvided)) && s1 == s0 && session1 == session0
        } else if self.lookup(t[0]) is None {
            (r matches Err(DispatchingError::UndefinedCommand(n)) && n@ == t[0]) && s1 == s0
                && session1 == session0
        } else {
            exists|args: Seq<String>, rc: Result<String, callbacks::Error>|
                {
                    &&& views(args) == t.drop_first()
                    &&& #[trigger] handles_command(
                        self.lookup(t[0])->Some_0,
                        s0,
                        session0,
                        args,
                        nonce,
                        rc,
                        s1,
                        session1,
                    )
                    &&& passed_on(rc, r)
                }
        }
    }

    /// Creates new `RequestDispatcher` with no command
    pub fn new() -> (r: RequestDispatcher)
        ensures
            forall|name: Seq<char>| #[trigger] r.lookup(name) is None,
    {
        RequestDispatcher { command_to_callback: Vec::new() }
    }

    /// Registers `callback` under `command`, in place of what was registered under it.
    pub fn add_callback(&mut self, command: String, callback: Command)
        ensures
            final(self).lookup(command@) == Some(callback),
            forall|name: Seq<char>| name != command@ ==> #[trigger] final(self).lookup(name) == old(self).lookup(name),
    {
        let ghost old_t = self.command_to_callback@;
        let ghost e = (command, callback);
        self.command_to_callback.insert(0, (command, callback));
        proof {
            assert(self.command_to_callback@ =~= seq![e] + old_t);
            assert forall|name: Seq<char>| name != command@ implies #[trigger] self.lookup(name) == lookup_from(old_t, name, 0) by {
                lemma_lookup_shift(old_t, e, name, 0);
            }
        }
    }

    fn find(&self, name: &String) -> (r: Option<Command>)
        ensures
            r == self.lookup(name@),
    {
        let mut i: usize = 0;
        while i < self.command_to_callback.len()
            invariant
                i <= self.command_to_callback@.len(),
                self.lookup(name@) == lookup_from(self.command_to_callback@, name@, i as int),
            decreases self.command_to_callback.len() - i,
        {
            if self.command_to_callback[i].0 == *name {
                return Some(self.command_to_callback[i].1);
            }
            i = i + 1;
        }
        None
    }

    /// Dispatches `request` to the command registered under its first token, with the
    /// other tokens as arguments, when `nonce` is the random text for a login.
    ///
    /// # Errors
    ///
    /// * `NoCommandProvided` - if `request` holds no token
    /// * `UndefinedCommand` - if no command is registered under the first token
    /// * `Callback` - if the command refused the request
    pub fn dispatch_with_nonce(
        &self,
        storage: &mut Storage,
        session: &mut Session,
        request: &str,
        nonce: &str,
    ) -> (r: Result<String, DispatchingError>)
        requires
            old(storage).wf(),
            old(session).wf(),
        ensures
            final(storage).wf(),
            final(session).wf(),
            self.dispatches(*old(storage), *old(session), request@, nonce@, r, *final(storage), *final(session)),
    {
        let t = tokenize(request);
        if t.len() == 0 {
            return Err(DispatchingError::NoCommandProvided);
        }
        let cmd = match self.find(&t[0]) {
            Some(c) => c,
            None => return Err(DispatchingError::UndefinedCommand(t[0].clone())),
        };
        let mut args: Vec<String> = Vec::new();
        let mut i: usize = 1;
        while i < t.len()
            invariant
                1 <= i <= t@.len(),
                views(args@) == views(t@).subrange(1, i as int),
            decreases t.len() - i,
        {
            let ghost prev = args@;
            args.push(t[i].clone());
            assert(views(args@) =~= views(t@).subrange(1, i + 1)) by {
                assert(views(prev).len() == prev.len());
                assert forall|k: int| 0 <= k < prev.len() implies #[trigger] args@[k] == prev[k] by {}
            }
            i = i + 1;
        }
        assert(views(t@).subrange(1, i as int) =~= views(t@).drop_first());
        let ghost s0 = *storage;
        let ghost session0 = *session;
        let rc = match cmd {
            Command::Register => callbacks::register(storage, session, &args),
            Command::Login => callbacks::login_with_nonce(storage, session, &args, nonce),
            Command::ConfirmLogin => callbacks::confirm_login(storage, session, &args),
            Command::DeleteMe => callbacks::delete_me(storage, session),
            Command::Quit => callbacks::quit(storage, session),
            Command::NewRecord => callbacks::new_record(storage, session, &args),
            Command::ShowRecord => callbacks::show_record(storage, session, &args),
            Command::ListRecords => callbacks::list_records(storage, session),
            Command::DeleteRecord => callbacks::delete_record(storage, session, &args),
        };
        let ghost rcg = rc;
        assert(handles_command(cmd, s0, session0, args@, nonce@, rcg, *storage, *session));
        match rc {
            Ok(text) => Ok(text),
            Err(e) => Err(DispatchingError::Callback(e)),
        }
    }

    /// Dispatches `request` as [`RequestDispatcher::dispatch_with_nonce`] does, with a
    /// fresh random text of [`NONCE_LEN`] letters and digits for a login.
    pub fn dispatch(&self, storage: &mut Storage, session: &mut Session, request: &str) -> (r: Result<
        String,
        DispatchingError,
    >)
        requires
            old(storage).wf(),
            old(session).wf(),
        ensures
            final(storage).wf(),
            final(session).wf(),
            exists|nonce: Seq<char>|
                nonce.len() == NONCE_LEN && (forall|i: int| 0 <= i < nonce.len() ==> is_alnum(#[trigger] nonce[i]))
                    && #[trigger] self.dispatches(*old(storage), *old(session), request@, nonce, r, *final(storage), *final(session)),
    {
        let nonce = fresh_nonce(NONCE_LEN);
        self.dispatch_with_nonce(storage, session, request, nonce.as_str())
    }
}

/// Builds the dispatcher of the server, with every command under its name.
pub fn build_request_dispatcher() -> (r: RequestDispatcher)
    ensures
        r.lookup("register"@) == Some(Command::Register),
        r.lookup("login"@) == Some(Command::Login),
        r.lookup("confirm_login"@) == Some(Command::ConfirmLogin),
        r.lookup("delete_me"@) == Some(Command::DeleteMe),
        r.lookup("quit"@) == Some(Command::Quit),
        r.lookup("new_record"@) == Some(Command::NewRecord),
        r.lookup("show_record"@) == Some(Command::ShowRecord),
        r.lookup("list_records"@) == Some(Command::ListRecords),
        r.lookup("delete_record"@) == Some(Command::DeleteRecord),
{
    let mut d = RequestDispatcher::new();
    proof {
        reveal_strlit("register");
        reveal_strlit("login");
        reveal_strlit("confirm_login");
        reveal_strlit("delete_me");
        reveal_strlit("quit");
        reveal_strlit("new_record");
        reveal_strlit("show_record");
        reveal_strlit("list_records");
        reveal_strlit("delete_record");
        assert("register"@.len() == 8);
        assert("login"@.len() == 5);
        assert("confirm_login"@.len() == 13);
        assert("delete_me"@.len() == 9);
        assert("quit"@.len() == 4);
        assert("new_record"@.len() == 10);
        assert("show_record"@.len() == 11);
        assert("list_records"@.len() == 12);
        assert("delete_record"@.len() == 13);
        assert("confirm_login"@[0] != "delete_record"@[0]);
    }
    d.add_callback(String::from_str("register"), Command::Register);
    d.add_callback(String::from_str("login"), Command::Login);
    d.add_callback(String::from_str("confirm_login"), Command::ConfirmLogin);
    d.add_callback(String::from_str("delete_me"), Command::DeleteMe);
    d.add_callback(String::from_str("quit"), Command::Quit);
    d.add_callback(String::from_str("new_record"), Command::NewRecord);
    d.add_callback(String::from_str("show_record"), Command::ShowRecord);
    d.add_callback(String::from_str("list_records"), Command::ListRecords);
    d.add_callback(String::from_str("delete_record"), Command::DeleteRecord);
    d
}


/// The commands that only an authorized session may run.
pub open spec fn needs_authorization(cmd: Command) -> bool {
    ||| cmd is NewRecord
    ||| cmd is ShowRecord
    ||| cmd is ListRecords
    ||| cmd is DeleteRecord
    ||| cmd is DeleteMe
}

/// State gating: a command that needs authorization, sent on a fresh session, is refused
/// and leaves the session and the storage as they were.
pub proof fn lemma_state_gating(
    d: RequestDispatcher,
    s0: Storage,
    session0: Session,
    request: Seq<char>,
    nonce: Seq<char>,
    r: Result<String, DispatchingError>,
    s1: Storage,
    session1: Session,
)
    requires
        is_fresh(session0),
        tokens(request).len() > 0,
        d.lookup(tokens(request)[0]) matches Some(cmd) && needs_authorization(cmd),
        d.dispatches(s0, session0, request, nonce, r, s1, session1),
    ensures
        r matches Err(DispatchingError::Callback(callbacks::Error::UnacceptableRequestAtThisState)),
        session1 == session0,
        s1 == s0,
{
}

} // verus!
