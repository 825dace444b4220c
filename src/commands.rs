use vstd::prelude::*;
use crate::client::{add_record_request, delete_record_request, register_request, show_record_request};
use crate::error::Error;
use crate::key::{key_text, Key};
use crate::record::{record_text, Record};

verus! {

/// Register new user
pub struct Register;

/// Add record to database
pub struct Add {
    /// The record to add
    pub record: Record,
}

/// Delete record from database
pub struct Delete {
    /// Name of the record to delete
    pub record_name: String,
}

/// Delete user from database
pub struct DeleteAccount;

/// Get record info
pub struct Get {
    /// Name of the record to get
    pub record_name: String,
}

/// List all user records
pub struct Ls;

impl Register {
    /// The request that registers `username` with `key`.
    pub fn request(&self, username: &str, key: &Key) -> (r: String)
        ensures
            r@ == "register"@ + seq![' '] + username@ + seq![' '] + key_text(*key),
    {
        register_request(username, key)
    }
}

impl Add {
    /// The request that adds the record.
    ///
    /// # Errors
    ///
    /// * `InvalidResource` - if the record's resource is empty
    pub fn request(&self) -> (r: Result<String, Error>)
        ensures
            r is Ok <==> self.record.resource@.len() > 0,
            r matches Ok(t) ==> t@ == "new_record"@ + seq![' '] + self.record.resource@ + seq![' ', '"']
                + record_text(self.record.password@, self.record.notes@) + seq!['"'],
    {
        add_record_request(&self.record)
    }
}

impl Delete {
    /// The request that deletes the record.
    ///
    /// # Errors
    ///
    /// * `InvalidResource` - if the record name is empty
    pub fn request(&self) -> (r: Result<String, Error>)
        ensures
            r is Ok <==> self.record_name@.len() > 0,
            r matches Ok(t) ==> t@ == "delete_record"@ + seq![' '] + self.record_name@,
    {
        delete_record_request(self.record_name.as_str())
    }
}

impl DeleteAccount {
    /// The request that deletes the logged-in user.
    pub fn request(&self) -> (r: String)
        ensures
            r@ == "delete_me"@,
    {
        String::from_str("delete_me")
    }
}

impl Get {
    /// The request that shows the record.
    ///
    /// # Errors
    ///
    /// * `InvalidResource` - if the record name is empty
    pub fn request(&self) -> (r: Result<String, Error>)
        ensures
            r is Ok <==> self.record_name@.len() > 0,
            r matches Ok(t) ==> t@ == "show_record"@ + seq![' '] + self.record_name@,
    {
        show_record_request(self.record_name.as_str())
    }
}

impl Ls {
    /// The request that lists the names of the logged-in user's records.
    pub fn request(&self) -> (r: String)
        ensures
            r@ == "list_records"@,
    {
        String::from_str("list_records")
    }
}

} // verus!
