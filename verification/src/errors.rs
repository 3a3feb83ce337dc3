//! What an operation of this library fails with.

use vstd::prelude::*;

verus! {

/// The kind of a failure that the database reported for a statement.
#[derive(Clone, Copy, Debug, PartialEq, Eq, Structural)]
pub enum DatabaseErrorKind {
    /// A row with the same key, or the same value in a unique column, is there already.
    UniqueViolation,
    /// A column that must hold a value was given none.
    NotNullViolation,
    /// Any other failure of a statement.
    Unknown,
}

/// What the database said of a failed statement.
#[derive(Debug)]
pub struct DatabaseErrorInformation {
    pub message: String,
    pub details: Option<String>,
}

/// A failure of the store.
#[derive(Debug)]
pub enum DBError {
    /// A statement failed.
    DatabaseError(DatabaseErrorKind, DatabaseErrorInformation),
    /// A query for one row found none.
    NotFound,
    /// A statement could not be built: an update that changes nothing.
    QueryBuilderError,
    /// The transaction was rolled back.
    RollbackTransaction,
    /// The store could not be reached, or answered what could not be read.
    Other,
}

/// Where a duplicate came from.
#[derive(Debug)]
pub struct DuplicateErrorInfo {
    pub origin: String,
    pub info: String,
}

/// Why a caller was turned away, in words for a person.
#[derive(Debug)]
pub struct UnauthorizedInfo {
    pub data: String,
}

/// A rule that one field of an input breaks.
#[derive(Debug)]
pub struct FieldViolation {
    /// The field's name.
    pub field: String,
    /// The rule's name.
    pub code: String,
    /// What to tell the sender, where the rule has words for it.
    pub message: Option<String>,
}

/// What a broken rule holds.
pub struct ViolationView {
    pub field: Seq<char>,
    pub code: Seq<char>,
    pub message: Option<Seq<char>>,
}

impl View for FieldViolation {
    type V = ViolationView;

    open spec fn view(&self) -> ViolationView {
        ViolationView {
            field: self.field@,
            code: self.code@,
            message: match self.message {
                Some(text) => Some(text@),
                None => None,
            },
        }
    }
}

/// What a list of broken rules holds.
pub open spec fn violation_views(list: Seq<FieldViolation>) -> Seq<ViolationView> {
    Seq::new(list.len(), |i: int| list[i]@)
}

/// The failures that reach a caller.
#[derive(Debug)]
pub enum SrvError {
    InternalServerError,
    NotFound,
    Unauthorized(UnauthorizedInfo),
    Duplicate(DuplicateErrorInfo),
    ValidationError(Vec<FieldViolation>),
    Unavailable,
}

/// The text that stands for details the database did not give.
pub const NO_INFO: &'static str = "No Info";

/// The failure a caller sees for a failure of the store.
pub open spec fn srv_error_of(error: DBError, r: SrvError) -> bool {
    match error {
        DBError::DatabaseError(DatabaseErrorKind::UniqueViolation, info) => r matches SrvError::Duplicate(d)
            && d.origin@ == info.message@ && d.info@ == match info.details {
            Some(text) => text@,
            None => NO_INFO@,
        },
        DBError::DatabaseError(_, _) => r is InternalServerError,
        DBError::NotFound => r is NotFound,
        DBError::QueryBuilderError => r is InternalServerError,
        DBError::RollbackTransaction => r is InternalServerError,
        DBError::Other => r is InternalServerError,
    }
}

impl SrvError {
    /// The failure with which a caller is turned away, with `reason` as its words.
    pub fn unauthorized(reason: &str) -> (r: SrvError)
        ensures
            r.is_unauthorized(reason@),
    {
        SrvError::Unauthorized(UnauthorizedInfo { data: reason.to_owned() })
    }

    /// This failure turns a caller away with the words `reason`.
    pub open spec fn is_unauthorized(&self, reason: Seq<char>) -> bool {
        self matches SrvError::Unauthorized(info) && info.data@ == reason
    }

    /// Maps a failure of the store to what the caller sees: a violated uniqueness
    /// becomes a duplicate that carries the database's message and details, a missing
    /// row stays a missing row, and all else is an internal failure.
    pub fn from_db(error: DBError) -> (r: SrvError)
        ensures
            srv_error_of(error, r),
    {
        match error {
            DBError::DatabaseError(kind, info) => {
                match kind {
                    DatabaseErrorKind::UniqueViolation => {
                        let details = match info.details {
                            Some(text) => text,
                            None => NO_INFO.to_owned(),
                        };
                        SrvError::Duplicate(DuplicateErrorInfo { origin: info.message, info: details })
                    },
                    _ => SrvError::InternalServerError,
                }
            },
            DBError::NotFound => SrvError::NotFound,
            _ => SrvError::InternalServerError,
        }
    }
}

impl From<DBError> for SrvError {
    fn from(error: DBError) -> (r: SrvError)
        ensures
            srv_error_of(error, r),
    {
        SrvError::from_db(error)
    }
}

impl vstd::std_specs::convert::FromSpecImpl<DBError> for SrvError {
    open spec fn obeys_from_spec() -> bool {
        false
    }

    open spec fn from_spec(error: DBError) -> SrvError {
        arbitrary()
    }
}

pub const INTERNAL_TITLE: &'static str = "InternalServerError";

pub const UNAUTHORIZED_TITLE: &'static str = "Unauthorized";

pub const NOT_FOUND_TITLE: &'static str = "NotFound";

pub const DUPLICATE_TITLE: &'static str = "DUPLICATE";

pub const VALIDATION_TITLE: &'static str = "VALIDATION";

pub const UNAVAILABLE_TITLE: &'static str = "Unavailable";

/// What a caller is told with every input that breaks its rules.
pub const VALIDATION_INFO: &'static str = "Verify the Input data";

impl SrvError {
    /// The title under which a failure is shown to the caller.
    pub open spec fn title_text(&self) -> Seq<char> {
        match self {
            SrvError::InternalServerError => INTERNAL_TITLE@,
            SrvError::Unauthorized(_) => UNAUTHORIZED_TITLE@,
            SrvError::NotFound => NOT_FOUND_TITLE@,
            SrvError::Duplicate(_) => DUPLICATE_TITLE@,
            SrvError::ValidationError(_) => VALIDATION_TITLE@,
            SrvError::Unavailable => UNAVAILABLE_TITLE@,
        }
    }

    /// What is shown to the caller besides the title: the words with which it was
    /// turned away, where a duplicate came from, a hint for an input that breaks its
    /// rules, and nothing else.
    pub open spec fn info_text(&self) -> Option<Seq<char>> {
        match self {
            SrvError::Unauthorized(info) => Some(info.data@),
            SrvError::Duplicate(info) => Some(info.origin@),
            SrvError::ValidationError(_) => Some(VALIDATION_INFO@),
            _ => None,
        }
    }

    /// The title under which the failure is shown to the caller.
    pub fn title(&self) -> (r: &'static str)
        ensures
            r@ == self.title_text(),
    {
        match self {
            SrvError::InternalServerError => INTERNAL_TITLE,
            SrvError::Unauthorized(_) => UNAUTHORIZED_TITLE,
            SrvError::NotFound => NOT_FOUND_TITLE,
            SrvError::Duplicate(_) => DUPLICATE_TITLE,
            SrvError::ValidationError(_) => VALIDATION_TITLE,
            SrvError::Unavailable => UNAVAILABLE_TITLE,
        }
    }

    /// What is shown to the caller besides the title.
    pub fn info(&self) -> (r: Option<String>)
        ensures
            match r {
                Some(text) => self.info_text() == Some(text@),
                None => self.info_text() is None,
            },
    {
        match self {
            SrvError::Unauthorized(info) => Some(info.data.clone()),
            SrvError::Duplicate(info) => Some(info.origin.clone()),
            SrvError::ValidationError(_) => Some(VALIDATION_INFO.to_owned()),
            _ => None,
        }
    }
}

} // verus!
