use vstd::prelude::*;

use crate::record::{stored_record, stored_text, Credentials, Data};

verus! {

/// Failures of the credential store.
#[derive(PartialEq, Eq, Structural, Clone, Copy, Debug)]
pub enum ConfigError {
    /// No record is stored: nobody has logged in.
    NotAuthenticated,
    /// The record's file could not be read or written, or does not hold a record.
    StorageError,
}

/// What reading the record's file gave.
pub enum Stored {
    /// There is no such file.
    Absent,
    /// The file's text.
    Text(String),
    /// The file exists but could not be read.
    Unreadable,
}

pub enum StoredView {
    Absent,
    Text(Seq<char>),
    Unreadable,
}

impl View for Stored {
    type V = StoredView;

    open spec fn view(&self) -> StoredView {
        match self {
            Stored::Absent => StoredView::Absent,
            Stored::Text(t) => StoredView::Text(t@),
            Stored::Unreadable => StoredView::Unreadable,
        }
    }
}

/// What removing the record's file gave.
#[derive(PartialEq, Eq, Structural, Clone, Copy, Debug)]
pub enum Removal {
    Removed,
    /// There was no file to remove.
    Missing,
    Failed,
}

/// What the program does on start.
pub enum Startup {
    /// A record is stored: go on with it.
    Ready(Data),
    /// No record is stored: ask for one.
    Login,
}

/// The record that a read gives, or why there is none.
pub open spec fn read_record(s: StoredView) -> Result<Credentials, ConfigError> {
    match s {
        StoredView::Absent => Err(ConfigError::NotAuthenticated),
        StoredView::Unreadable => Err(ConfigError::StorageError),
        StoredView::Text(t) => match stored_record(t) {
            Some(c) => Ok(c),
            None => Err(ConfigError::StorageError),
        },
    }
}

/// What a reset reports for a given removal.
pub open spec fn reset_result(r: Removal) -> Result<(), ConfigError> {
    match r {
        Removal::Failed => Err(ConfigError::StorageError),
        _ => Ok(()),
    }
}

/// The stored record: `NotAuthenticated` where none is stored, `StorageError`
/// where the file cannot be read or does not hold a record.
pub fn get(stored: &Stored) -> (r: Result<Data, ConfigError>)
    ensures
        match r {
            Ok(d) => read_record(stored@) == Ok::<Credentials, ConfigError>(d@),
            Err(e) => read_record(stored@) == Err::<Credentials, ConfigError>(e),
        },
{
    match stored {
        Stored::Absent => Err(ConfigError::NotAuthenticated),
        Stored::Unreadable => Err(ConfigError::StorageError),
        Stored::Text(t) => match Data::from_text(t.as_str()) {
            Some(d) => Ok(d),
            None => Err(ConfigError::StorageError),
        },
    }
}

/// The start of every run: a stored record is used as it is, and only a missing
/// one asks for a login.
pub fn initialize(stored: &Stored) -> (r: Result<Startup, ConfigError>)
    ensures
        match r {
            Ok(Startup::Ready(d)) => read_record(stored@) == Ok::<Credentials, ConfigError>(d@),
            Ok(Startup::Login) => stored@ is Absent,
            Err(e) => e == ConfigError::StorageError && !(stored@ is Absent)
                && read_record(stored@) is Err,
        },
{
    match get(stored) {
        Ok(d) => Ok(Startup::Ready(d)),
        Err(ConfigError::NotAuthenticated) => Ok(Startup::Login),
        Err(e) => Err(e),
    }
}

/// Logging in: the values are taken as given, and their record's text is what is
/// to be stored, in place of any earlier one.
pub fn login(api: String, user_id: String, password: String) -> (r: String)
    ensures
        r@ == stored_text(Credentials { api: api@, user_id: user_id@, password: password@ }),
{
    Data::new(api, user_id, password).to_text()
}

/// A reset succeeds whether or not a record was there to remove.
pub fn reset(removal: Removal) -> (r: Result<(), ConfigError>)
    ensures
        r == reset_result(removal),
{
    match removal {
        Removal::Failed => Err(ConfigError::StorageError),
        _ => Ok(()),
    }
}

/// What logging in stores reads back as the values that were entered, whatever
/// they hold.
pub proof fn lemma_login_then_get(c: Credentials)
    ensures
        read_record(StoredView::Text(stored_text(c))) == Ok::<Credentials, ConfigError>(c),
{
    crate::record::lemma_stored_round_trip(c);
}

/// A reset that finds no record to remove succeeds, so a second reset right after
/// a first, whatever the first found, succeeds and changes nothing.
pub proof fn lemma_reset_twice(first: Removal)
    ensures
        reset_result(Removal::Missing) == Ok::<(), ConfigError>(()),
        reset_result(first) is Ok ==> reset_result(first) == reset_result(Removal::Missing),
{
}

} // verus!
