use vstd::prelude::*;
use crate::text::{chars_of, find_char_from, index_from, lemma_index_from, string_of_range};

verus! {

/// User record with password
pub struct Record {
    /// Resource the password belongs to
    pub resource: String,
    /// Password, encrypted with the user's public key
    pub password: String,
    /// Additional notes, encrypted with the user's public key
    pub notes: String,
}

/// Why a record could not be parsed.
#[derive(Debug, PartialEq, Eq, Structural)]
pub enum ParseRecordError {
    /// The text holds no line break between password and notes.
    EmptyString,
}

/// The password and the notes of a record's text: the text before and after its first
/// line break, or `None` when it holds none.
pub open spec fn record_parts(s: Seq<char>) -> Option<(Seq<char>, Seq<char>)> {
    let i = index_from(s, '\n', 0);
    if i < s.len() {
        Some((s.subrange(0, i), s.subrange(i + 1, s.len() as int)))
    } else {
        None
    }
}

/// The text form of a record: the password, a line break, then the notes.
pub open spec fn record_text(password: Seq<char>, notes: Seq<char>) -> Seq<char> {
    password + seq!['\n'] + notes
}

impl View for Record {
    type V = (Seq<char>, Seq<char>, Seq<char>);

    /// Resource, password and notes.
    open spec fn view(&self) -> (Seq<char>, Seq<char>, Seq<char>) {
        (self.resource@, self.password@, self.notes@)
    }
}

impl Record {
    /// A record holding the same texts.
    pub fn duplicate(&self) -> (r: Record)
        ensures
            r@ == self@,
    {
        Record {
            resource: self.resource.clone(),
            password: self.password.clone(),
            notes: self.notes.clone(),
        }
    }

    /// Creates new `Record` with all fields empty
    pub fn new() -> (r: Record)
        ensures
            r.resource@.len() == 0,
            r.password@.len() == 0,
            r.notes@.len() == 0,
    {
        Record { resource: String::new(), password: String::new(), notes: String::new() }
    }

    /// Constructs a record from text holding the password and the notes,
    /// split at the first line break. The resource is left empty.
    ///
    /// # Errors
    ///
    /// * `EmptyString` - if the text holds no line break
    pub fn from_str(s: &str) -> (r: Result<Record, ParseRecordError>)
        ensures
            r is Err <==> record_parts(s@) is None,
            r matches Ok(rec) ==> rec.resource@.len() == 0 && record_parts(s@) == Some(
                (rec.password@, rec.notes@),
            ),
    {
        let v = chars_of(s);
        proof {
            lemma_index_from(v@, '\n', 0);
        }
        let i = find_char_from(&v, '\n', 0);
        if i == v.len() {
            return Err(ParseRecordError::EmptyString);
        }
        let password = string_of_range(&v, 0, i);
        let notes = string_of_range(&v, i + 1, v.len());
        Ok(Record { resource: String::new(), password, notes })
    }

    /// Converts the record to text **without** the resource: the password on
    /// the first line, the notes after it.
    pub fn to_string(&self) -> (r: String)
        ensures
            r@ == record_text(self.password@, self.notes@),
    {
        let mut r = self.password.clone();
        r.append("\n");
        r.append(self.notes.as_str());
        proof {
            reveal_strlit("\n");
        }
        r
    }
}

} // verus!
