use vstd::prelude::*;
use crate::key::Key;
use crate::record::Record;
use crate::tokenizer::views;

verus! {

/// Failures of the storage.
#[derive(Debug)]
pub enum Error {
    /// An account with this name exists already.
    UserAlreadyExists(String),
    /// No account has this name.
    UserDoesNotExist(String),
    /// The user has no record for this resource.
    RecordDoesNotExist(String),
    /// Other sessions hold the user's store.
    UnsupportedActionForMultiSession,
    /// The user's store has as many holders as can be counted.
    TooManySessions,
}

/// One user's account: the backing data and the count of handles that hold its store.
pub struct Account {
    pub username: String,
    pub pub_key: Key,
    /// Records, at most one per resource, in ascending order of resource.
    pub records: Vec<Record>,
    /// How many [`UserStorage`] handles hold the store; none when zero.
    pub holders: u64,
}

/// Strong handle on one user's store, handed out by [`Storage::get_user_storage`] and given
/// back with [`Storage::release`].
pub struct UserStorage {
    username: String,
}

impl View for UserStorage {
    type V = Seq<char>;

    /// The user whose store the handle holds.
    closed spec fn view(&self) -> Seq<char> {
        self.username@
    }
}

/// Record storage of all users, and the cache of their stores.
pub struct Storage {
    pub pub_key: Key,
    pub sec_key: Key,
    pub accounts: Vec<Account>,
}

/// The first index at or after `i` of an account named `name`, or the length of `s`.
pub open spec fn find_user_from(s: Seq<Account>, name: Seq<char>, i: int) -> int
    decreases s.len() - i,
{
    if i < 0 || i >= s.len() {
        s.len() as int
    } else if s[i].username@ == name {
        i
    } else {
        find_user_from(s, name, i + 1)
    }
}

/// The first index at or after `i` of a record for `resource`, or the length of `s`.
pub open spec fn find_record_from(s: Seq<Record>, resource: Seq<char>, i: int) -> int
    decreases s.len() - i,
{
    if i < 0 || i >= s.len() {
        s.len() as int
    } else if s[i].resource@ == resource {
        i
    } else {
        find_record_from(s, resource, i + 1)
    }
}

pub proof fn lemma_find_user(s: Seq<Account>, name: Seq<char>, i: int)
    requires
        0 <= i <= s.len(),
    ensures
        i <= find_user_from(s, name, i) <= s.len(),
        find_user_from(s, name, i) < s.len() ==> s[find_user_from(s, name, i)].username@ == name,
        forall|j: int| i <= j < find_user_from(s, name, i) ==> #[trigger] s[j].username@ != name,
    decreases s.len() - i,
{
    if i < s.len() && s[i].username@ != name {
        lemma_find_user(s, name, i + 1);
    }
}

pub proof fn lemma_find_record(s: Seq<Record>, resource: Seq<char>, i: int)
    requires
        0 <= i <= s.len(),
    ensures
        i <= find_record_from(s, resource, i) <= s.len(),
        find_record_from(s, resource, i) < s.len() ==> s[find_record_from(
            s,
            resource,
            i,
        )].resource@ == resource,
        forall|j: int| i <= j < find_record_from(s, resource, i) ==> #[trigger] s[j].resource@ != resource,
    decreases s.len() - i,
{
    if i < s.len() && s[i].resource@ != resource {
        lemma_find_record(s, resource, i + 1);
    }
}

/// No two accounts share a name.
pub open spec fn unique_users(s: Seq<Account>) -> bool {
    forall|i: int, j: int|
        0 <= i < s.len() && 0 <= j < s.len() && i != j ==> #[trigger] s[i].username@ != #[trigger] s[j].username@
}

/// No two records share a resource.
pub open spec fn unique_records(s: Seq<Record>) -> bool {
    forall|i: int, j: int|
        0 <= i < s.len() && 0 <= j < s.len() && i != j ==> #[trigger] s[i].resource@ != #[trigger] s[j].resource@
}

/// In a sequence of accounts with distinct names, the account named `name` is found where it stands.
pub proof fn lemma_user_at(s: Seq<Account>, name: Seq<char>, k: int)
    requires
        unique_users(s),
        0 <= k < s.len(),
        s[k].username@ == name,
    ensures
        find_user_from(s, name, 0) == k,
{
    lemma_find_user(s, name, 0);
    let f = find_user_from(s, name, 0);
    if f < k {
        assert(s[f].username@ == s[k].username@);
    }
}

/// In a sequence of records with distinct resources, the record for `resource` is found where it stands.
pub proof fn lemma_record_at(s: Seq<Record>, resource: Seq<char>, k: int)
    requires
        unique_records(s),
        0 <= k < s.len(),
        s[k].resource@ == resource,
    ensures
        find_record_from(s, resource, 0) == k,
{
    lemma_find_record(s, resource, 0);
    let f = find_record_from(s, resource, 0);
    if f < k {
        assert(s[f].resource@ == s[k].resource@);
    }
}

/// Whether `a` comes before `b`: compared character by character by code point, a proper
/// prefix first. This is the order of `String`s.
pub open spec fn lex_lt(a: Seq<char>, b: Seq<char>) -> bool
    decreases a.len(),
{
    if a.len() == 0 {
        b.len() > 0
    } else if b.len() == 0 {
        false
    } else if a[0] != b[0] {
        (a[0] as u32) < (b[0] as u32)
    } else {
        lex_lt(a.drop_first(), b.drop_first())
    }
}

pub proof fn lemma_lex_irreflexive(a: Seq<char>)
    ensures
        !lex_lt(a, a),
    decreases a.len(),
{
    if a.len() > 0 {
        lemma_lex_irreflexive(a.drop_first());
    }
}

pub proof fn lemma_lex_transitive(a: Seq<char>, b: Seq<char>, c: Seq<char>)
    requires
        lex_lt(a, b),
        lex_lt(b, c),
    ensures
        lex_lt(a, c),
    decreases a.len(),
{
    if a.len() > 0 && a[0] == b[0] && b[0] == c[0] {
        lemma_lex_transitive(a.drop_first(), b.drop_first(), c.drop_first());
    }
}

pub proof fn lemma_lex_total(a: Seq<char>, b: Seq<char>)
    requires
        a != b,
    ensures
        lex_lt(a, b) || lex_lt(b, a),
    decreases a.len(),
{
    if a.len() > 0 && b.len() > 0 {
        if a[0] == b[0] {
            assert(a =~= seq![a[0]] + a.drop_first());
            assert(b =~= seq![b[0]] + b.drop_first());
            lemma_lex_total(a.drop_first(), b.drop_first());
        } else {
            vstd::utf8::char_u32_cast(a[0], a[0] as u32);
            vstd::utf8::char_u32_cast(b[0], b[0] as u32);
        }
    } else if a.len() == 0 && b.len() == 0 {
        assert(a =~= b);
    }
}

/// The records stand in ascending order of their resources.
pub open spec fn sorted_records(s: Seq<Record>) -> bool {
    forall|i: int, j: int| 0 <= i < j < s.len() ==> lex_lt(#[trigger] s[i].resource@, #[trigger] s[j].resource@)
}

/// The names stand in ascending order, each once.
pub open spec fn sorted_names(s: Seq<Seq<char>>) -> bool {
    forall|i: int, j: int| 0 <= i < j < s.len() ==> lex_lt(#[trigger] s[i], #[trigger] s[j])
}

/// The first index at or after `i` of a record whose resource does not come before
/// `resource`, or the length of `s`: where a record for `resource` belongs.
pub open spec fn insert_index_from(s: Seq<Record>, resource: Seq<char>, i: int) -> int
    decreases s.len() - i,
{
    if i < 0 || i >= s.len() {
        s.len() as int
    } else if !lex_lt(s[i].resource@, resource) {
        i
    } else {
        insert_index_from(s, resource, i + 1)
    }
}

pub proof fn lemma_insert_index(s: Seq<Record>, resource: Seq<char>, i: int)
    requires
        0 <= i <= s.len(),
    ensures
        i <= insert_index_from(s, resource, i) <= s.len(),
        insert_index_from(s, resource, i) < s.len() ==> !lex_lt(
            s[insert_index_from(s, resource, i)].resource@,
            resource,
        ),
        forall|j: int| i <= j < insert_index_from(s, resource, i) ==> lex_lt(#[trigger] s[j].resource@, resource),
    decreases s.len() - i,
{
    if i < s.len() && lex_lt(s[i].resource@, resource) {
        lemma_insert_index(s, resource, i + 1);
    }
}

proof fn lemma_sorted_unique(s: Seq<Record>)
    requires
        sorted_records(s),
    ensures
        unique_records(s),
{
    assert forall|i: int, j: int|
        0 <= i < s.len() && 0 <= j < s.len() && i != j implies #[trigger] s[i].resource@
        != #[trigger] s[j].resource@ by {
        lemma_lex_irreflexive(s[i].resource@);
        if i < j {
            assert(lex_lt(s[i].resource@, s[j].resource@));
        } else {
            assert(lex_lt(s[j].resource@, s[i].resource@));
        }
    }
}

/// The resources of records in ascending order are names in ascending order.
pub proof fn lemma_sorted_resources(s: Seq<Record>)
    requires
        sorted_records(s),
    ensures
        sorted_names(resources(s)),
{
    assert forall|i: int, j: int| 0 <= i < j < resources(s).len() implies lex_lt(
        #[trigger] resources(s)[i],
        #[trigger] resources(s)[j],
    ) by {
        assert(resources(s)[i] == s[i].resource@);
        assert(resources(s)[j] == s[j].resource@);
    }
}

/// Whether `a` comes before `b` (see [`lex_lt`]).
pub fn str_lt(a: &String, b: &String) -> (r: bool)
    ensures
        r == lex_lt(a@, b@),
{
    let x = crate::text::chars_of(a.as_str());
    let y = crate::text::chars_of(b.as_str());
    let mut i: usize = 0;
    assert(x@.subrange(0, x@.len() as int) =~= x@);
    assert(y@.subrange(0, y@.len() as int) =~= y@);
    while i < x.len() && i < y.len()
        invariant
            i <= x@.len(),
            i <= y@.len(),
            x@ == a@,
            y@ == b@,
            lex_lt(a@, b@) == lex_lt(x@.subrange(i as int, x@.len() as int), y@.subrange(i as int, y@.len() as int)),
        decreases x.len() - i,
    {
        let ghost xs = x@.subrange(i as int, x@.len() as int);
        let ghost ys = y@.subrange(i as int, y@.len() as int);
        assert(xs[0] == x@[i as int] && ys[0] == y@[i as int]);
        if x[i] != y[i] {
            return (x[i] as u32) < (y[i] as u32);
        }
        assert(xs.drop_first() =~= x@.subrange(i + 1, x@.len() as int));
        assert(ys.drop_first() =~= y@.subrange(i + 1, y@.len() as int));
        i = i + 1;
    }
    i == x.len() && i < y.len()
}

/// The resource names of `s`, in order.
pub open spec fn resources(s: Seq<Record>) -> Seq<Seq<char>> {
    s.map_values(|r: Record| r.resource@)
}

impl Storage {
    /// Accounts have distinct names, and each account's records distinct resources, in
    /// ascending order.
    pub open spec fn wf(&self) -> bool {
        &&& unique_users(self.accounts@)
        &&& forall|i: int| 0 <= i < self.accounts@.len() ==> unique_records(#[trigger] self.accounts@[i].records@)
        &&& forall|i: int| 0 <= i < self.accounts@.len() ==> sorted_records(#[trigger] self.accounts@[i].records@)
    }

    pub open spec fn user_index(&self, name: Seq<char>) -> int {
        find_user_from(self.accounts@, name, 0)
    }

    /// Whether an account named `name` exists.
    pub open spec fn has_user(&self, name: Seq<char>) -> bool {
        self.user_index(name) < self.accounts@.len()
    }

    /// The account named `name` (meaningful when it exists).
    pub open spec fn user(&self, name: Seq<char>) -> Account {
        self.accounts@[self.user_index(name)]
    }

    /// How many handles hold the store of `name`.
    pub open spec fn holders(&self, name: Seq<char>) -> nat {
        if self.has_user(name) {
            self.user(name).holders as nat
        } else {
            0
        }
    }

    /// The records of `name`.
    pub open spec fn records(&self, name: Seq<char>) -> Seq<Record> {
        self.user(name).records@
    }

    /// Whether `name` has a record for `resource`.
    pub open spec fn has_record(&self, name: Seq<char>, resource: Seq<char>) -> bool {
        find_record_from(self.records(name), resource, 0) < self.records(name).len()
    }

    /// The record of `name` for `resource` (meaningful when it exists).
    pub open spec fn record(&self, name: Seq<char>, resource: Seq<char>) -> Record {
        self.records(name)[find_record_from(self.records(name), resource, 0)]
    }

    /// `self` and `other` hold the same keys, and the same accounts under every name but `name`.
    pub open spec fn same_except(&self, other: &Storage, name: Seq<char>) -> bool {
        &&& self.pub_key == other.pub_key
        &&& self.sec_key == other.sec_key
        &&& forall|n: Seq<char>|
            n != name ==> #[trigger] self.has_user(n) == other.has_user(n) && (self.has_user(n)
                ==> self.user(n) == other.user(n))
    }
}


/// Lookups by name agree on two sequences of accounts whose names agree position by position.
proof fn lemma_find_user_same_names(s1: Seq<Account>, s2: Seq<Account>, name: Seq<char>, i: int)
    requires
        s1.len() == s2.len(),
        forall|j: int| 0 <= j < s1.len() ==> #[trigger] s1[j].username@ == s2[j].username@,
        0 <= i <= s1.len(),
    ensures
        find_user_from(s1, name, i) == find_user_from(s2, name, i),
    decreases s1.len() - i,
{
    if i < s1.len() {
        lemma_find_user_same_names(s1, s2, name, i + 1);
    }
}

/// No account named `name` exists exactly when none of the accounts carries that name.
proof fn lemma_user_absent(s: Seq<Account>, name: Seq<char>)
    ensures
        (find_user_from(s, name, 0) == s.len()) <==> (forall|j: int|
            0 <= j < s.len() ==> #[trigger] s[j].username@ != name),
{
    lemma_find_user(s, name, 0);
}

/// Replacing the account at `k` by one of the same name keeps the storage well formed and
/// leaves every other name's account as it was.
proof fn lemma_update_account(s1: Storage, s2: Storage, k: int, a: Account)
    requires
        s1.wf(),
        0 <= k < s1.accounts@.len(),
        s2.accounts@ == s1.accounts@.update(k, a),
        s2.pub_key == s1.pub_key,
        s2.sec_key == s1.sec_key,
        a.username@ == s1.accounts@[k].username@,
        unique_records(a.records@),
        sorted_records(a.records@),
    ensures
        s2.wf(),
        s2.same_except(&s1, a.username@),
        s2.has_user(a.username@),
        s2.user(a.username@) == a,
{
    let old_s = s1.accounts@;
    let new_s = s2.accounts@;
    assert forall|j: int| 0 <= j < new_s.len() implies #[trigger] new_s[j].username@
        == old_s[j].username@ by {}
    assert(unique_users(new_s)) by {
        assert forall|i: int, j: int|
            0 <= i < new_s.len() && 0 <= j < new_s.len() && i != j implies #[trigger] new_s[i].username@
            != #[trigger] new_s[j].username@ by {
            assert(new_s[i].username@ == old_s[i].username@);
            assert(new_s[j].username@ == old_s[j].username@);
        }
    }
    assert forall|i: int| 0 <= i < new_s.len() implies unique_records(#[trigger] new_s[i].records@) by {
        if i != k {
            assert(new_s[i] == old_s[i]);
        }
    }
    assert forall|i: int| 0 <= i < new_s.len() implies sorted_records(#[trigger] new_s[i].records@) by {
        if i != k {
            assert(new_s[i] == old_s[i]);
        }
    }
    lemma_user_at(new_s, a.username@, k);
    assert forall|n: Seq<char>| n != a.username@ implies #[trigger] s2.has_user(n) == s1.has_user(n)
        && (s2.has_user(n) ==> s2.user(n) == s1.user(n)) by {
        lemma_find_user_same_names(new_s, old_s, n, 0);
        lemma_find_user(old_s, n, 0);
    }
}

impl Storage {
    /// Creates an empty storage with the server's key pair.
    pub fn new(pub_key: Key, sec_key: Key) -> (r: Storage)
        ensures
            r.wf(),
            r.pub_key == pub_key,
            r.sec_key == sec_key,
            forall|n: Seq<char>| !#[trigger] r.has_user(n),
    {
        let r = Storage { pub_key, sec_key, accounts: Vec::new() };
        assert forall|n: Seq<char>| !#[trigger] r.has_user(n) by {
            lemma_find_user(r.accounts@, n, 0);
        }
        r
    }

    /// Gets storage public key
    pub fn pub_key(&self) -> (r: &Key)
        ensures
            *r == self.pub_key,
    {
        &self.pub_key
    }

    /// Gets storage secret key
    pub fn sec_key(&self) -> (r: &Key)
        ensures
            *r == self.sec_key,
    {
        &self.sec_key
    }

    fn find_user(&self, username: &String) -> (r: usize)
        ensures
            r as int == self.user_index(username@),
            r <= self.accounts@.len(),
    {
        proof {
            lemma_find_user(self.accounts@, username@, 0);
        }
        let mut i: usize = 0;
        while i < self.accounts.len()
            invariant
                i <= self.accounts@.len(),
                find_user_from(self.accounts@, username@, 0) == find_user_from(
                    self.accounts@,
                    username@,
                    i as int,
                ),
            decreases self.accounts.len() - i,
        {
            if self.accounts[i].username == *username {
                return i;
            }
            i = i + 1;
        }
        i
    }

    /// Adds new user to the storage, with no records and with `pub_key`.
    /// Makes no `username` validation
    ///
    /// # Errors
    ///
    /// * `UserAlreadyExists` - if an account named `username` exists
    pub fn add_new_user(&mut self, username: &str, pub_key: &Key) -> (r: Result<(), Error>)
        requires
            old(self).wf(),
        ensures
            final(self).wf(),
            old(self).has_user(username@) ==> (r matches Err(Error::UserAlreadyExists(n))
                && n@ == username@) && *final(self) == *old(self),
            !old(self).has_user(username@) ==> {
                &&& r is Ok
                &&& final(self).has_user(username@)
                &&& final(self).user(username@).pub_key.0@ == pub_key.0@
                &&& final(self).user(username@).pub_key.1@ == pub_key.1@
                &&& final(self).records(username@).len() == 0
                &&& final(self).holders(username@) == 0
                &&& final(self).same_except(old(self), username@)
            },
    {
        let name = username.to_owned();
        let k = self.find_user(&name);
        if k < self.accounts.len() {
            return Err(Error::UserAlreadyExists(name));
        }
        let a = Account { username: name, pub_key: pub_key.duplicate(), records: Vec::new(), holders: 0 };
        let ghost old_s = self.accounts@;
        proof {
            lemma_user_absent(old_s, username@);
        }
        self.accounts.push(a);
        let ghost new_s = self.accounts@;
        assert(unique_users(new_s)) by {
            assert forall|i: int, j: int|
                0 <= i < new_s.len() && 0 <= j < new_s.len() && i != j implies #[trigger] new_s[i].username@
                != #[trigger] new_s[j].username@ by {
                if i < old_s.len() && j < old_s.len() {
                    assert(new_s[i] == old_s[i] && new_s[j] == old_s[j]);
                } else if i < old_s.len() {
                    assert(new_s[i] == old_s[i]);
                } else {
                    assert(new_s[j] == old_s[j]);
                }
            }
        }
        assert(forall|i: int| 0 <= i < old_s.len() ==> new_s[i] == old_s[i]);
        proof {
            lemma_user_at(new_s, username@, old_s.len() as int);
            assert forall|n: Seq<char>| n != username@ implies #[trigger] self.has_user(n)
                == old(self).has_user(n) && (self.has_user(n) ==> self.user(n) == old(self).user(
                n)) by {
                lemma_find_user(old_s, n, 0);
                lemma_user_absent(old_s, n);
                lemma_user_absent(new_s, n);
                if old(self).has_user(n) {
                    lemma_user_at(new_s, n, old(self).user_index(n));
                }
            }
        }
        Ok(())
    }

    /// Deletes the user's account and data. No handle may hold its store.
    ///
    /// # Errors
    ///
    /// * `UnsupportedActionForMultiSession` - if handles hold the user's store
    /// * `UserDoesNotExist` - if no account is named `username`
    pub fn delete_user(&mut self, username: &str) -> (r: Result<(), Error>)
        requires
            old(self).wf(),
        ensures
            delete_user_post(*old(self), username@, r, *final(self)),
    {
        let name = username.to_owned();
        let k = self.find_user(&name);
        if k == self.accounts.len() {
            return Err(Error::UserDoesNotExist(name));
        }
        if self.accounts[k].holders > 0 {
            return Err(Error::UnsupportedActionForMultiSession);
        }
        let ghost old_s = self.accounts@;
        proof {
            lemma_find_user(old_s, username@, 0);
        }
        let _ = self.accounts.remove(k);
        let ghost new_s = self.accounts@;
        assert(new_s =~= old_s.remove(k as int));
        assert(forall|j: int| 0 <= j < k ==> new_s[j] == old_s[j]);
        assert(forall|j: int| k <= j < new_s.len() ==> new_s[j] == old_s[j + 1]);
        assert(unique_users(new_s)) by {
            assert forall|i: int, j: int|
                0 <= i < new_s.len() && 0 <= j < new_s.len() && i != j implies #[trigger] new_s[i].username@
                != #[trigger] new_s[j].username@ by {
                let oi = if i < k { i } else { i + 1 };
                let oj = if j < k { j } else { j + 1 };
                assert(new_s[i] == old_s[oi] && new_s[j] == old_s[oj]);
            }
        }
        proof {
            assert forall|j: int| 0 <= j < new_s.len() implies #[trigger] new_s[j].username@ != username@ by {
                let oj = if j < k { j } else { j + 1 };
                assert(new_s[j] == old_s[oj]);
            }
            lemma_user_absent(new_s, username@);
            assert forall|n: Seq<char>| n != username@ implies #[trigger] self.has_user(n)
                == old(self).has_user(n) && (self.has_user(n) ==> self.user(n) == old(self).user(
                n)) by {
                lemma_find_user(old_s, n, 0);
                lemma_user_absent(old_s, n);
                lemma_user_absent(new_s, n);
                if old(self).has_user(n) {
                    let f = old(self).user_index(n);
                    let nf = if f < k { f } else { f - 1 };
                    assert(new_s[nf] == old_s[f]);
                    lemma_user_at(new_s, n, nf);
                } else {
                    assert forall|j: int| 0 <= j < new_s.len() implies #[trigger] new_s[j].username@ != n by {
                        let oj = if j < k { j } else { j + 1 };
                        assert(new_s[j] == old_s[oj]);
                    }
                }
            }
        }
        Ok(())
    }
}



/// What [`Storage::get_user_storage`] does: `s1` and `r` follow from `s0` and `name`.
pub open spec fn get_user_storage_post(
    s0: Storage,
    name: Seq<char>,
    r: Result<UserStorage, Error>,
    s1: Storage,
) -> bool {
    &&& s1.wf()
    &&& !s0.has_user(name) ==> (r matches Err(Error::UserDoesNotExist(n)) && n@ == name) && s1 == s0
    &&& s0.has_user(name) && s0.holders(name) == u64::MAX ==> (r matches Err(
        Error::TooManySessions,
    )) && s1 == s0
    &&& s0.has_user(name) && s0.holders(name) < u64::MAX ==> {
        &&& r matches Ok(h) && h@ == name
        &&& s1.has_user(name)
        &&& s1.holders(name) == s0.holders(name) + 1
        &&& s1.records(name) == s0.records(name)
        &&& s1.user(name).pub_key == s0.user(name).pub_key
        &&& s1.same_except(&s0, name)
    }
}

/// What [`Storage::release`] does with a handle on `name`.
pub open spec fn release_post(s0: Storage, name: Seq<char>, s1: Storage) -> bool {
    &&& s1.wf()
    &&& s0.holders(name) > 0 ==> {
        &&& s1.has_user(name)
        &&& s1.holders(name) == s0.holders(name) - 1
        &&& s1.records(name) == s0.records(name)
        &&& s1.user(name).pub_key == s0.user(name).pub_key
        &&& s1.same_except(&s0, name)
    }
    &&& s0.holders(name) == 0 ==> s1 == s0
}

/// What [`Storage::delete_user`] does.
pub open spec fn delete_user_post(s0: Storage, name: Seq<char>, r: Result<(), Error>, s1: Storage) -> bool {
    &&& s1.wf()
    &&& s0.holders(name) > 0 ==> (r matches Err(Error::UnsupportedActionForMultiSession)) && s1 == s0
    &&& !s0.has_user(name) ==> (r matches Err(Error::UserDoesNotExist(n)) && n@ == name) && s1 == s0
    &&& s0.has_user(name) && s0.holders(name) == 0 ==> {
        &&& r is Ok
        &&& !s1.has_user(name)
        &&& s1.same_except(&s0, name)
    }
}

/// What [`Storage::write_record`] does through a handle on `name`.
pub open spec fn write_record_post(
    s0: Storage,
    name: Seq<char>,
    record: Record,
    r: Result<(), Error>,
    s1: Storage,
) -> bool {
    &&& s1.wf()
    &&& !s0.has_user(name) ==> (r matches Err(Error::UserDoesNotExist(n)) && n@ == name) && s1 == s0
    &&& s0.has_user(name) ==> {
        &&& r is Ok
        &&& s1.has_user(name)
        &&& s0.has_record(name, record.resource@) ==> s1.records(name) == s0.records(name).update(
            find_record_from(s0.records(name), record.resource@, 0),
            record,
        )
        &&& !s0.has_record(name, record.resource@) ==> s1.records(name) == s0.records(name).insert(
            insert_index_from(s0.records(name), record.resource@, 0),
            record,
        )
        &&& s1.holders(name) == s0.holders(name)
        &&& s1.user(name).pub_key == s0.user(name).pub_key
        &&& s1.same_except(&s0, name)
    }
}

/// What [`Storage::delete_record`] does through a handle on `name`.
pub open spec fn delete_record_post(
    s0: Storage,
    name: Seq<char>,
    resource: Seq<char>,
    r: Result<(), Error>,
    s1: Storage,
) -> bool {
    &&& s1.wf()
    &&& !s0.has_user(name) ==> (r matches Err(Error::UserDoesNotExist(n)) && n@ == name) && s1 == s0
    &&& s0.has_user(name) && !s0.has_record(name, resource) ==> (r matches Err(
        Error::RecordDoesNotExist(n),
    ) && n@ == resource) && s1 == s0
    &&& s0.has_user(name) && s0.has_record(name, resource) ==> {
        &&& r is Ok
        &&& s1.has_user(name)
        &&& s1.records(name) == s0.records(name).remove(find_record_from(s0.records(name), resource, 0))
        &&& s1.holders(name) == s0.holders(name)
        &&& s1.user(name).pub_key == s0.user(name).pub_key
        &&& s1.same_except(&s0, name)
    }
}

fn find_insert_index(records: &Vec<Record>, resource: &String) -> (r: usize)
    ensures
        r as int == insert_index_from(records@, resource@, 0),
{
    let mut i: usize = 0;
    while i < records.len()
        invariant
            i <= records@.len(),
            insert_index_from(records@, resource@, 0) == insert_index_from(records@, resource@, i as int),
        decreases records.len() - i,
    {
        if !str_lt(&records[i].resource, resource) {
            return i;
        }
        i = i + 1;
    }
    i
}

fn find_record(records: &Vec<Record>, resource: &String) -> (r: usize)
    ensures
        r as int == find_record_from(records@, resource@, 0),
        r <= records@.len(),
{
    proof {
        lemma_find_record(records@, resource@, 0);
    }
    let mut i: usize = 0;
    while i < records.len()
        invariant
            i <= records@.len(),
            find_record_from(records@, resource@, 0) == find_record_from(records@, resource@, i as int),
        decreases records.len() - i,
    {
        if records[i].resource == *resource {
            return i;
        }
        i = i + 1;
    }
    i
}

impl Storage {
    /// Gets a handle on the store of `username`, which every handle on that user shares.
    ///
    /// # Errors
    ///
    /// * `UserDoesNotExist` - if no account is named `username`
    /// * `TooManySessions` - if the holders can be counted no further
    pub fn get_user_storage(&mut self, username: &str) -> (r: Result<UserStorage, Error>)
        requires
            old(self).wf(),
        ensures
            get_user_storage_post(*old(self), username@, r, *final(self)),
    {
        let name = username.to_owned();
        let k = self.find_user(&name);
        if k == self.accounts.len() {
            return Err(Error::UserDoesNotExist(name));
        }
        proof {
            lemma_find_user(self.accounts@, username@, 0);
        }
        let holders = self.accounts[k].holders;
        if holders == u64::MAX {
            return Err(Error::TooManySessions);
        }
        let ghost s1 = *self;
        let a = self.accounts.remove(k);
        let a = Account { holders: holders + 1, ..a };
        self.accounts.insert(k, a);
        proof {
            assert(self.accounts@ =~= s1.accounts@.update(k as int, a));
            lemma_update_account(s1, *self, k as int, a);
        }
        Ok(UserStorage { username: name })
    }

    /// Gives back a handle on a user's store.
    pub fn release(&mut self, handle: UserStorage)
        requires
            old(self).wf(),
        ensures
            release_post(*old(self), handle@, *final(self)),
    {
        let k = self.find_user(&handle.username);
        if k == self.accounts.len() {
            return;
        }
        proof {
            lemma_find_user(self.accounts@, handle@, 0);
        }
        let holders = self.accounts[k].holders;
        if holders == 0 {
            return;
        }
        let ghost s1 = *self;
        let a = self.accounts.remove(k);
        let a = Account { holders: holders - 1, ..a };
        self.accounts.insert(k, a);
        proof {
            assert(self.accounts@ =~= s1.accounts@.update(k as int, a));
            lemma_update_account(s1, *self, k as int, a);
        }
    }

    /// Gets the public key of `username`.
    ///
    /// # Errors
    ///
    /// * `UserDoesNotExist` - if no account is named `username`
    pub fn get_user_pub_key(&self, username: &str) -> (r: Result<Key, Error>)
        ensures
            !self.has_user(username@) ==> (r matches Err(Error::UserDoesNotExist(n)) && n@ == username@),
            self.has_user(username@) ==> (r matches Ok(k) && k.0@ == self.user(username@).pub_key.0@
                && k.1@ == self.user(username@).pub_key.1@),
    {
        let name = username.to_owned();
        let k = self.find_user(&name);
        if k == self.accounts.len() {
            return Err(Error::UserDoesNotExist(name));
        }
        Ok(self.accounts[k].pub_key.duplicate())
    }

    /// Writes `record` into the user's store, in place of the record for the same resource.
    ///
    /// # Errors
    ///
    /// * `UserDoesNotExist` - if the user's account is gone
    pub fn write_record(&mut self, user: &UserStorage, record: Record) -> (r: Result<(), Error>)
        requires
            old(self).wf(),
        ensures
            write_record_post(*old(self), user@, record, r, *final(self)),
    {
        let k = self.find_user(&user.username);
        if k == self.accounts.len() {
            return Err(Error::UserDoesNotExist(user.username.clone()));
        }
        proof {
            lemma_find_user(self.accounts@, user@, 0);
        }
        let ghost s1 = *self;
        let ghost recs = s1.accounts@[k as int].records@;
        let a = self.accounts.remove(k);
        let Account { username, pub_key, mut records, holders } = a;
        let i = find_record(&records, &record.resource);
        proof {
            lemma_find_record(recs, record.resource@, 0);
        }
        if i < records.len() {
            let _ = records.remove(i);
            records.insert(i, record);
            proof {
                assert(records@ =~= recs.update(i as int, record));
                assert(forall|x: int| 0 <= x < records@.len() ==> #[trigger] records@[x].resource@ == recs[x].resource@);
                assert forall|x: int, y: int|
                    0 <= x < records@.len() && 0 <= y < records@.len() && x != y implies #[trigger] records@[x].resource@
                    != #[trigger] records@[y].resource@ by {
                    assert(records@[x].resource@ == recs[x].resource@);
                    assert(records@[y].resource@ == recs[y].resource@);
                }
            }
        } else {
            proof {
                lemma_insert_index(recs, record.resource@, 0);
            }
            let p = find_insert_index(&records, &record.resource);
            let ghost new_res = record.resource@;
            records.insert(p, record);
            proof {
                let n = records@;
                assert(n == recs.insert(p as int, record));
                assert(forall|x: int| 0 <= x < p ==> n[x] == recs[x]);
                assert(forall|x: int| p < x < n.len() ==> n[x] == recs[x - 1]);
                assert(n[p as int].resource@ == new_res);
                if p < recs.len() {
                    lemma_lex_total(recs[p as int].resource@, new_res);
                    assert(lex_lt(new_res, recs[p as int].resource@));
                }
                assert(sorted_records(n)) by {
                    assert forall|x: int, y: int| 0 <= x < y < n.len() implies lex_lt(
                        #[trigger] n[x].resource@,
                        #[trigger] n[y].resource@,
                    ) by {
                        if y < p {
                        } else if y == p {
                            assert(lex_lt(recs[x].resource@, new_res));
                        } else if x < p {
                            assert(lex_lt(recs[x].resource@, new_res));
                            assert(lex_lt(new_res, recs[p as int].resource@));
                            if y - 1 > p {
                                assert(lex_lt(recs[p as int].resource@, recs[y - 1].resource@));
                                lemma_lex_transitive(new_res, recs[p as int].resource@, recs[y - 1].resource@);
                            }
                            lemma_lex_transitive(recs[x].resource@, new_res, recs[y - 1].resource@);
                        } else if x == p {
                            if y - 1 > p {
                                assert(lex_lt(recs[p as int].resource@, recs[y - 1].resource@));
                                lemma_lex_transitive(new_res, recs[p as int].resource@, recs[y - 1].resource@);
                            }
                        } else {
                            assert(lex_lt(recs[x - 1].resource@, recs[y - 1].resource@));
                        }
                    }
                }
                lemma_sorted_unique(n);
            }
        }
        let a = Account { username, pub_key, records, holders };
        self.accounts.insert(k, a);
        proof {
            assert(self.accounts@ =~= s1.accounts@.update(k as int, a));
            lemma_update_account(s1, *self, k as int, a);
        }
        Ok(())
    }

    /// Gets the user's record for `resource`.
    ///
    /// # Errors
    ///
    /// * `UserDoesNotExist` - if the user's account is gone
    /// * `RecordDoesNotExist` - if the user has no record for `resource`
    pub fn get_record(&self, user: &UserStorage, resource: &str) -> (r: Result<Record, Error>)
        requires
            self.wf(),
        ensures
            !self.has_user(user@) ==> (r matches Err(Error::UserDoesNotExist(n)) && n@ == user@),
            self.has_user(user@) && !self.has_record(user@, resource@) ==> (r matches Err(
                Error::RecordDoesNotExist(n),
            ) && n@ == resource@),
            self.has_user(user@) && self.has_record(user@, resource@) ==> (r matches Ok(rec) && rec@
                == self.record(user@, resource@)@),
    {
        let k = self.find_user(&user.username);
        if k == self.accounts.len() {
            return Err(Error::UserDoesNotExist(user.username.clone()));
        }
        let res = resource.to_owned();
        let i = find_record(&self.accounts[k].records, &res);
        if i == self.accounts[k].records.len() {
            return Err(Error::RecordDoesNotExist(res));
        }
        Ok(self.accounts[k].records[i].duplicate())
    }

    /// Gets the names of all the user's records, sorted ascending.
    ///
    /// # Errors
    ///
    /// * `UserDoesNotExist` - if the user's account is gone
    pub fn list_records(&self, user: &UserStorage) -> (r: Result<Vec<String>, Error>)
        requires
            self.wf(),
        ensures
            !self.has_user(user@) ==> (r matches Err(Error::UserDoesNotExist(n)) && n@ == user@),
            self.has_user(user@) ==> (r matches Ok(v) && views(v@) == resources(
                self.records(user@),
            ) && sorted_names(views(v@))),
    {
        let k = self.find_user(&user.username);
        if k == self.accounts.len() {
            return Err(Error::UserDoesNotExist(user.username.clone()));
        }
        let records = &self.accounts[k].records;
        let mut names: Vec<String> = Vec::new();
        let mut i: usize = 0;
        while i < records.len()
            invariant
                i <= records@.len(),
                views(names@) == resources(records@).subrange(0, i as int),
            decreases records.len() - i,
        {
            let name = records[i].resource.clone();
            assert(name@ == records@[i as int].resource@);
            let ghost prev = names@;
            assert(views(prev).len() == prev.len());
            assert(prev.len() == i);
            names.push(name);
            assert forall|x: int| 0 <= x < i + 1 implies #[trigger] views(names@)[x]
                == resources(records@).subrange(0, i + 1)[x] by {
                if x < i {
                    assert(names@[x] == prev[x]);
                    assert(views(prev)[x] == resources(records@).subrange(0, i as int)[x]);
                }
            }
            assert(views(names@) =~= resources(records@).subrange(0, i + 1));
            i = i + 1;
        }
        assert(resources(records@).subrange(0, i as int) =~= resources(records@));
        proof {
            lemma_find_user(self.accounts@, user@, 0);
            lemma_sorted_resources(records@);
        }
        Ok(names)
    }

    /// Deletes the user's record for `resource`.
    ///
    /// # Errors
    ///
    /// * `UserDoesNotExist` - if the user's account is gone
    /// * `RecordDoesNotExist` - if the user has no record for `resource`
    pub fn delete_record(&mut self, user: &UserStorage, resource: &str) -> (r: Result<(), Error>)
        requires
            old(self).wf(),
        ensures
            delete_record_post(*old(self), user@, resource@, r, *final(self)),
    {
        let k = self.find_user(&user.username);
        if k == self.accounts.len() {
            return Err(Error::UserDoesNotExist(user.username.clone()));
        }
        proof {
            lemma_find_user(self.accounts@, user@, 0);
        }
        let res = resource.to_owned();
        let i = find_record(&self.accounts[k].records, &res);
        if i == self.accounts[k].records.len() {
            return Err(Error::RecordDoesNotExist(res));
        }
        let ghost s1 = *self;
        let ghost recs = s1.accounts@[k as int].records@;
        let a = self.accounts.remove(k);
        let Account { username, pub_key, mut records, holders } = a;
        let _ = records.remove(i);
        proof {
            assert(records@ =~= recs.remove(i as int));
            assert forall|x: int, y: int|
                0 <= x < records@.len() && 0 <= y < records@.len() && x != y implies #[trigger] records@[x].resource@
                != #[trigger] records@[y].resource@ by {
                let ox = if x < i { x } else { x + 1 };
                let oy = if y < i { y } else { y + 1 };
                assert(records@[x] == recs[ox]);
                assert(records@[y] == recs[oy]);
            }
        }
        let a = Account { username, pub_key, records, holders };
        self.accounts.insert(k, a);
        proof {
            assert(self.accounts@ =~= s1.accounts@.update(k as int, a));
            lemma_update_account(s1, *self, k as int, a);
        }
        Ok(())
    }
}


/// Cache sharing: while a first handle on a registered user is alive, a second one is had
/// too; both hold the same store, both count as holders, the user's data is not reloaded,
/// and a record written through the first is read through the second. (The holder count
/// must stay below the largest `u64`, past which `TooManySessions` is returned.)
pub proof fn lemma_cache_sharing(
    s0: Storage,
    name: Seq<char>,
    r1: Result<UserStorage, Error>,
    s1: Storage,
    r2: Result<UserStorage, Error>,
    s2: Storage,
    record: Record,
    w: Result<(), Error>,
    s3: Storage,
)
    requires
        s0.wf(),
        s0.has_user(name),
        s0.holders(name) + 1 < u64::MAX,
        get_user_storage_post(s0, name, r1, s1),
        get_user_storage_post(s1, name, r2, s2),
        r1 is Ok ==> write_record_post(s2, r1->Ok_0@, record, w, s3),
    ensures
        r1 is Ok,
        r2 is Ok,
        r1->Ok_0@ == r2->Ok_0@,
        s2.holders(name) == s0.holders(name) + 2,
        s2.records(name) == s0.records(name),
        w is Ok,
        s3.has_record(r2->Ok_0@, record.resource@),
        s3.record(r2->Ok_0@, record.resource@) == record,
{
    lemma_write_seen_by_all_handles(s2, r1->Ok_0, r2->Ok_0, record, w, s3);
}

/// A record written through one handle is read through every handle on the same user.
pub proof fn lemma_write_seen_by_all_handles(
    s0: Storage,
    h1: UserStorage,
    h2: UserStorage,
    record: Record,
    r: Result<(), Error>,
    s1: Storage,
)
    requires
        s0.wf(),
        h1@ == h2@,
        write_record_post(s0, h1@, record, r, s1),
        r is Ok,
    ensures
        s1.has_record(h2@, record.resource@),
        s1.record(h2@, record.resource@) == record,
{
    let name = h1@;
    let res = record.resource@;
    let recs0 = s0.records(name);
    let recs1 = s1.records(name);
    assert(unique_records(recs1)) by {
        lemma_find_user(s1.accounts@, name, 0);
    }
    lemma_find_record(recs0, res, 0);
    if s0.has_record(name, res) {
        let f = find_record_from(recs0, res, 0);
        assert(recs1[f] == record);
        lemma_record_at(recs1, res, f);
    } else {
        let p = insert_index_from(recs0, res, 0);
        lemma_insert_index(recs0, res, 0);
        assert(recs1[p] == record);
        lemma_record_at(recs1, res, p);
    }
}

/// Delete safety: while two handles hold a user's store, deleting the user fails and changes
/// nothing; once both are given back, deleting succeeds and no handle can be taken again.
pub proof fn lemma_delete_safety(
    s0: Storage,
    name: Seq<char>,
    r1: Result<UserStorage, Error>,
    s1: Storage,
    r2: Result<UserStorage, Error>,
    s2: Storage,
    d1: Result<(), Error>,
    s3: Storage,
    s4: Storage,
    s5: Storage,
    d2: Result<(), Error>,
    s6: Storage,
    r3: Result<UserStorage, Error>,
    s7: Storage,
)
    requires
        s0.wf(),
        s0.holders(name) == 0,
        get_user_storage_post(s0, name, r1, s1),
        r1 is Ok,
        get_user_storage_post(s1, name, r2, s2),
        r2 is Ok,
        delete_user_post(s2, name, d1, s3),
        release_post(s3, name, s4),
        release_post(s4, name, s5),
        delete_user_post(s5, name, d2, s6),
        get_user_storage_post(s6, name, r3, s7),
    ensures
        d1 matches Err(Error::UnsupportedActionForMultiSession),
        s3 == s2,
        s3.has_user(name) && s3.holders(name) == 2,
        d2 is Ok,
        r3 matches Err(Error::UserDoesNotExist(_)),
{
}

} // verus!
