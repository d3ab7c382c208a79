//! The errors shared by the domains: what the database answered, how the
//! repositories classify it, and the messages each error shows.

use crate::domains::family::{CreateFamilyError, GetFamiliesError};
use crate::text::texts;
use vstd::prelude::*;

verus! {

/// Joins two texts.
pub fn joined(prefix: &str, rest: &str) -> (r: String)
    ensures
        r@ == prefix@ + rest@,
{
    let mut s = String::from_str(prefix);
    s.append(rest);
    s
}

/// A failure reported by the database driver, as far as the library reads it.
#[derive(Debug)]
pub enum DbError {
    /// A query that expected a row returned none.
    RowNotFound,
    /// A unique constraint was violated; the constraint's name when the
    /// database gave it.
    UniqueViolation { constraint: Option<String>, message: String },
    /// Any other failure: the driver's message, then the messages of the
    /// errors that caused it, outermost first.
    Other { message: String, sources: Vec<String> },
}

/// A copy of a list of texts.
fn copy_texts(v: &Vec<String>) -> (r: Vec<String>)
    ensures
        texts(r@) == texts(v@),
{
    let mut r: Vec<String> = Vec::new();
    let mut i: usize = 0;
    while i < v.len()
        invariant
            i <= v@.len(),
            texts(r@) == texts(v@).take(i as int),
        decreases v.len() - i,
    {
        let t = v[i].clone();
        let ghost before = texts(r@);
        r.push(t);
        proof {
            assert(texts(r@) =~= before.push(v@[i as int]@));
            assert(texts(v@).take(i + 1) =~= texts(v@).take(i as int).push(v@[i as int]@));
        }
        i = i + 1;
    }
    proof {
        assert(texts(v@).take(v@.len() as int) =~= texts(v@));
    }
    r
}

/// The message the driver shows for a missing row.
pub open spec fn row_not_found_text() -> Seq<char> {
    "no rows returned by a query that expected to return at least one row"@
}

impl DbError {
    /// The message of the error.
    pub open spec fn message_spec(&self) -> Seq<char> {
        match self {
            DbError::RowNotFound => row_not_found_text(),
            DbError::UniqueViolation { message, .. } => message@,
            DbError::Other { message, .. } => message@,
        }
    }

    /// The messages of the errors that caused this one, outermost first.
    pub open spec fn sources_spec(&self) -> Seq<Seq<char>> {
        match self {
            DbError::Other { sources, .. } => texts(sources@),
            _ => seq![],
        }
    }

    /// The message of the error, as the driver displays it.
    pub fn message(&self) -> (r: String)
        ensures
            r@ == self.message_spec(),
    {
        match self {
            DbError::RowNotFound => String::from_str(
                "no rows returned by a query that expected to return at least one row",
            ),
            DbError::UniqueViolation { message, .. } => message.clone(),
            DbError::Other { message, .. } => message.clone(),
        }
    }

    /// The error is a missing row.
    pub fn is_row_not_found(&self) -> (r: bool)
        ensures
            r == (*self is RowNotFound),
    {
        match self {
            DbError::RowNotFound => true,
            _ => false,
        }
    }
}

/// How a repository reports a failure.
#[derive(Debug)]
pub enum RepositoryError {
    /// The entity does not exist.
    NotFound,
    /// A unique constraint was violated (the constraint's name).
    Conflict(String),
    /// Any other failure: the message of the error that caused it, then the
    /// messages of that error's own sources, outermost first.
    Technical { message: String, sources: Vec<String> },
}

/// The name given to a violated constraint the database did not name.
pub open spec fn unknown_constraint_text() -> Seq<char> {
    "unknown"@
}

impl RepositoryError {
    /// A technical error caused by an error with the given message and
    /// sources.
    pub fn technical(message: String, sources: Vec<String>) -> (r: RepositoryError)
        ensures
            r == (RepositoryError::Technical { message, sources }),
    {
        RepositoryError::Technical { message, sources }
    }

    /// `self` is how a repository reports the database error `e`: a missing
    /// row is `NotFound`, a unique violation is a `Conflict` on the violated
    /// constraint (`"unknown"` when unnamed), anything else is `Technical` with
    /// the driver's message and the messages of its sources.
    pub open spec fn classifies(&self, e: DbError) -> bool {
        match e {
            DbError::RowNotFound => *self is NotFound,
            DbError::UniqueViolation { constraint, .. } => *self matches RepositoryError::Conflict(c)
                && c@ == match constraint {
                Some(n) => n@,
                None => unknown_constraint_text(),
            },
            DbError::Other { message, sources } => *self == (RepositoryError::Technical { message, sources }),
        }
    }

    /// Classifies a database error (see `classifies`).
    pub fn from_db_error(e: DbError) -> (r: RepositoryError)
        ensures
            r.classifies(e),
    {
        match e {
            DbError::RowNotFound => RepositoryError::NotFound,
            DbError::UniqueViolation { constraint, .. } => match constraint {
                Some(c) => RepositoryError::Conflict(c),
                None => RepositoryError::Conflict(String::from_str("unknown")),
            },
            DbError::Other { message, sources } => RepositoryError::Technical { message, sources },
        }
    }

    /// The message of the error.
    pub open spec fn message_spec(&self) -> Seq<char> {
        match self {
            RepositoryError::NotFound => "entity not found"@,
            RepositoryError::Conflict(c) => "conflict on "@ + c@,
            RepositoryError::Technical { .. } => "technical error in repository"@,
        }
    }

    /// The message of the error.
    pub fn message(&self) -> (r: String)
        ensures
            r@ == self.message_spec(),
    {
        match self {
            RepositoryError::NotFound => String::from_str("entity not found"),
            RepositoryError::Conflict(c) => joined("conflict on ", c.as_str()),
            RepositoryError::Technical { .. } => String::from_str("technical error in repository"),
        }
    }

    /// The messages of the errors that caused this one, outermost first.
    pub open spec fn sources_spec(&self) -> Seq<Seq<char>> {
        match self {
            RepositoryError::Technical { message, sources } => seq![message@] + texts(sources@),
            _ => seq![],
        }
    }

    /// The messages of the errors that caused this one, outermost first.
    pub fn sources(&self) -> (r: Vec<String>)
        ensures
            r@.map_values(|s: String| s@) == self.sources_spec(),
    {
        match self {
            RepositoryError::Technical { message, sources } => {
                let mut v: Vec<String> = Vec::new();
                v.push(message.clone());
                let mut rest = copy_texts(sources);
                v.append(&mut rest);
                proof {
                    assert(v@.map_values(|s: String| s@) =~= self.sources_spec());
                }
                v
            },
            _ => {
                let v: Vec<String> = Vec::new();
                proof {
                    assert(v@.map_values(|s: String| s@) =~= self.sources_spec());
                }
                v
            },
        }
    }

    /// The error is `NotFound`.
    pub fn is_not_found(&self) -> (r: bool)
        ensures
            r == (*self is NotFound),
    {
        match self {
            RepositoryError::NotFound => true,
            _ => false,
        }
    }
}

/// A request came without a connected user.
#[derive(Debug, Clone, Copy, PartialEq, Eq, Structural)]
pub struct MissingUsernameError;

impl MissingUsernameError {
    /// The message of the error.
    pub fn message(&self) -> (r: String)
        ensures
            r@ == "No username_or_email specified"@,
    {
        String::from_str("No username_or_email specified")
    }
}

/// An error the application layer reports to the HTTP layer.
pub trait ApplicationError {
    /// The message shown for the error.
    fn get_message(&self) -> String;

    /// The HTTP status of the error: an internal server error unless the
    /// error says otherwise.
    fn status_code(&self) -> (r: u16)
        default_ensures
            r == 500,
    {
        500
    }
}

impl ApplicationError for DbError {
    fn get_message(&self) -> (r: String)
        ensures
            r@ == self.message_spec(),
    {
        self.message()
    }
}

impl ApplicationError for RepositoryError {
    fn get_message(&self) -> (r: String)
        ensures
            r@ == self.message_spec(),
    {
        self.message()
    }
}

impl ApplicationError for MissingUsernameError {
    fn get_message(&self) -> (r: String)
        ensures
            r@ == "No username_or_email specified"@,
    {
        self.message()
    }
}

/// The errors the HTTP layer turns into responses.
#[derive(Debug)]
pub enum MiddlewareError {
    MissingUsername,
    InvalidDateFormat,
    CreateFamily(CreateFamilyError),
    GetFamilies(GetFamiliesError),
}

/// The HTTP status a middleware error is answered with.
pub open spec fn status_of(e: &MiddlewareError) -> u16 {
    match e {
        MiddlewareError::MissingUsername => 401,
        MiddlewareError::InvalidDateFormat => 400,
        MiddlewareError::CreateFamily(CreateFamilyError::AlreadyExists { .. }) => 409,
        _ => 500,
    }
}

/// The body of an answer to a server error.
pub open spec fn internal_error_text() -> Seq<char> {
    "internal server error"@
}

impl MiddlewareError {
    /// The message of the error; the wrapped domain errors show their own.
    pub open spec fn message_spec(&self) -> Seq<char> {
        match self {
            MiddlewareError::MissingUsername => "no username_or_email specified"@,
            MiddlewareError::InvalidDateFormat => "invalid due_date format, expected YYYY-MM-DD"@,
            MiddlewareError::CreateFamily(e) => e.message_spec(),
            MiddlewareError::GetFamilies(e) => e.message_spec(),
        }
    }

    /// The messages of the errors that caused this one, outermost first; the
    /// wrapped domain errors show their own sources.
    pub open spec fn sources_spec(&self) -> Seq<Seq<char>> {
        match self {
            MiddlewareError::CreateFamily(e) => e.sources_spec(),
            MiddlewareError::GetFamilies(e) => e.sources_spec(),
            _ => seq![],
        }
    }

    /// The message of the error.
    pub fn message(&self) -> (r: String)
        ensures
            r@ == self.message_spec(),
    {
        match self {
            MiddlewareError::MissingUsername => String::from_str("no username_or_email specified"),
            MiddlewareError::InvalidDateFormat => String::from_str(
                "invalid due_date format, expected YYYY-MM-DD",
            ),
            MiddlewareError::CreateFamily(e) => e.message(),
            MiddlewareError::GetFamilies(e) => e.message(),
        }
    }

    /// The HTTP status the error is answered with: 401 without a user, 400 for
    /// a malformed date, 409 when the family exists, 500 otherwise.
    pub fn status_code(&self) -> (r: u16)
        ensures
            r == status_of(self),
    {
        match self {
            MiddlewareError::MissingUsername => 401,
            MiddlewareError::InvalidDateFormat => 400,
            MiddlewareError::CreateFamily(CreateFamilyError::AlreadyExists { .. }) => 409,
            _ => 500,
        }
    }

    /// The messages logged for a failed request: the error's, then those of
    /// its sources, outermost first.
    pub fn error_chain(&self) -> (r: Vec<String>)
        ensures
            r@.map_values(|s: String| s@) == seq![self.message_spec()] + self.sources_spec(),
    {
        let mut chain: Vec<String> = Vec::new();
        chain.push(self.message());
        let mut rest: Vec<String> = match self {
            MiddlewareError::CreateFamily(e) => e.sources(),
            MiddlewareError::GetFamilies(e) => e.sources(),
            _ => Vec::new(),
        };
        proof {
            assert(rest@.map_values(|s: String| s@) =~= self.sources_spec());
        }
        chain.append(&mut rest);
        proof {
            assert(chain@.map_values(|s: String| s@) =~= seq![self.message_spec()] + self.sources_spec());
        }
        chain
    }

    /// The body of the answer: the message, unless the status is a server
    /// error, which hides it.
    pub fn response_body(&self) -> (r: String)
        ensures
            r@ == if 500 <= status_of(self) <= 599 {
                internal_error_text()
            } else {
                self.message_spec()
            },
    {
        let status = self.status_code();
        if 500 <= status && status <= 599 {
            String::from_str("internal server error")
        } else {
            self.message()
        }
    }
}

impl From<MissingUsernameError> for MiddlewareError {
    fn from(e: MissingUsernameError) -> (r: MiddlewareError) {
        MiddlewareError::MissingUsername
    }
}

impl vstd::std_specs::convert::FromSpecImpl<MissingUsernameError> for MiddlewareError {
    open spec fn obeys_from_spec() -> bool {
        true
    }

    open spec fn from_spec(e: MissingUsernameError) -> MiddlewareError {
        MiddlewareError::MissingUsername
    }
}

impl From<CreateFamilyError> for MiddlewareError {
    fn from(e: CreateFamilyError) -> (r: MiddlewareError) {
        MiddlewareError::CreateFamily(e)
    }
}

impl vstd::std_specs::convert::FromSpecImpl<CreateFamilyError> for MiddlewareError {
    open spec fn obeys_from_spec() -> bool {
        true
    }

    open spec fn from_spec(e: CreateFamilyError) -> MiddlewareError {
        MiddlewareError::CreateFamily(e)
    }
}

impl From<GetFamiliesError> for MiddlewareError {
    fn from(e: GetFamiliesError) -> (r: MiddlewareError) {
        MiddlewareError::GetFamilies(e)
    }
}

impl vstd::std_specs::convert::FromSpecImpl<GetFamiliesError> for MiddlewareError {
    open spec fn obeys_from_spec() -> bool {
        true
    }

    open spec fn from_spec(e: GetFamiliesError) -> MiddlewareError {
        MiddlewareError::GetFamilies(e)
    }
}

} // verus!
