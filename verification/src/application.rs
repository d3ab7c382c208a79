//! The first generation of the application layer: its errors, the dashboard
//! it serves, the user it requires, and the decisions of its family creation.

use crate::domain::{empty, is_empty_dashboard, Dashboard, Family};
use crate::domains::common::errors::{joined, DbError};
use vstd::prelude::*;

verus! {

/// The failures of the application layer.
#[derive(Debug)]
pub enum ApplicationErrors {
    FamilyAlreadyExists,
    MissingUsername,
    Database(DbError),
}

impl ApplicationErrors {
    /// The message of the error.
    pub open spec fn message_spec(&self) -> Seq<char> {
        match self {
            ApplicationErrors::FamilyAlreadyExists => "Family already exists"@,
            ApplicationErrors::MissingUsername => "No username provided"@,
            ApplicationErrors::Database(e) => "Database error: "@ + e.message_spec(),
        }
    }

    /// The message of the error, as it is displayed.
    pub fn to_string(&self) -> (r: String)
        ensures
            r@ == self.message_spec(),
    {
        match self {
            ApplicationErrors::FamilyAlreadyExists => String::from_str("Family already exists"),
            ApplicationErrors::MissingUsername => String::from_str("No username provided"),
            ApplicationErrors::Database(e) => {
                let m = e.message();
                joined("Database error: ", m.as_str())
            },
        }
    }

    /// The message of the error that caused this one, if any: the database's.
    pub fn source(&self) -> (r: Option<String>)
        ensures
            match self {
                ApplicationErrors::Database(e) => r matches Some(m) && m@ == e.message_spec(),
                _ => r is None,
            },
    {
        match self {
            ApplicationErrors::Database(e) => Some(e.message()),
            _ => None,
        }
    }
}

/// The dashboard of a family: empty for now, for every user and family.
pub fn get_dashboard(username: String, family_id: String) -> (r: Result<Dashboard, ApplicationErrors>)
    ensures
        r matches Ok(d) && is_empty_dashboard(d),
{
    Ok(empty())
}

/// The connected user's name, required before anything is read.
pub fn require_username(username: Option<String>) -> (r: Result<String, ApplicationErrors>)
    ensures
        match username {
            Some(u) => r == Ok::<String, ApplicationErrors>(u),
            None => r matches Err(e) && e is MissingUsername,
        },
{
    match username {
        Some(u) => Ok(u),
        None => Err(ApplicationErrors::MissingUsername),
    }
}

/// Where the creation of a family stands.
#[derive(Debug)]
pub enum CreateFamilyStep {
    AwaitingTransaction,
    AwaitingLookup,
    AwaitingCreation,
    AwaitingCommit,
    AwaitingRollback { error: ApplicationErrors },
    Finished,
}

/// The creation of the family named `name` for a user.
#[derive(Debug)]
pub struct CreateFamilyFlow {
    pub name: String,
    pub step: CreateFamilyStep,
}

/// What came back from an action.
#[derive(Debug)]
pub enum CreateFamilyEvent {
    TransactionBegun(Result<(), DbError>),
    /// The user has a family of that name (`Ok`), or the lookup failed.
    LookupAnswered(Result<(), DbError>),
    CreationAnswered(Result<(), DbError>),
    CommitAnswered(Result<(), DbError>),
    RollbackAnswered(Result<(), DbError>),
}

/// What to do next.
#[derive(Debug)]
pub enum CreateFamilyAction {
    BeginTransaction,
    LookUpFamily,
    CreateFamily,
    Commit,
    Rollback,
    Finish(Result<Family, ApplicationErrors>),
}

/// The event answers the action the flow waits on.
pub open spec fn expects(step: CreateFamilyStep, event: CreateFamilyEvent) -> bool {
    match (step, event) {
        (CreateFamilyStep::AwaitingTransaction, CreateFamilyEvent::TransactionBegun(_)) => true,
        (CreateFamilyStep::AwaitingLookup, CreateFamilyEvent::LookupAnswered(_)) => true,
        (CreateFamilyStep::AwaitingCreation, CreateFamilyEvent::CreationAnswered(_)) => true,
        (CreateFamilyStep::AwaitingCommit, CreateFamilyEvent::CommitAnswered(_)) => true,
        (CreateFamilyStep::AwaitingRollback { .. }, CreateFamilyEvent::RollbackAnswered(_)) => true,
        _ => false,
    }
}

/// The step and action that follow an event (see `CreateFamilyFlow::step`).
pub open spec fn next_spec(step: CreateFamilyStep, event: CreateFamilyEvent) -> (
    CreateFamilyStep,
    Option<CreateFamilyAction>,
) {
    match (step, event) {
        (CreateFamilyStep::AwaitingTransaction, CreateFamilyEvent::TransactionBegun(Ok(_))) => (
            CreateFamilyStep::AwaitingLookup,
            Some(CreateFamilyAction::LookUpFamily),
        ),
        (CreateFamilyStep::AwaitingTransaction, CreateFamilyEvent::TransactionBegun(Err(e))) => (
            CreateFamilyStep::Finished,
            Some(CreateFamilyAction::Finish(Err(ApplicationErrors::Database(e)))),
        ),
        (CreateFamilyStep::AwaitingLookup, CreateFamilyEvent::LookupAnswered(Ok(_))) => (
            CreateFamilyStep::AwaitingRollback { error: ApplicationErrors::FamilyAlreadyExists },
            Some(CreateFamilyAction::Rollback),
        ),
        (CreateFamilyStep::AwaitingLookup, CreateFamilyEvent::LookupAnswered(Err(e))) => if e is RowNotFound {
            (CreateFamilyStep::AwaitingCreation, Some(CreateFamilyAction::CreateFamily))
        } else {
            (
                CreateFamilyStep::AwaitingRollback { error: ApplicationErrors::Database(e) },
                Some(CreateFamilyAction::Rollback),
            )
        },
        (CreateFamilyStep::AwaitingCreation, CreateFamilyEvent::CreationAnswered(Ok(_))) => (
            CreateFamilyStep::AwaitingCommit,
            Some(CreateFamilyAction::Commit),
        ),
        (CreateFamilyStep::AwaitingCreation, CreateFamilyEvent::CreationAnswered(Err(e))) => (
            CreateFamilyStep::AwaitingRollback { error: ApplicationErrors::Database(e) },
            Some(CreateFamilyAction::Rollback),
        ),
        (CreateFamilyStep::AwaitingCommit, CreateFamilyEvent::CommitAnswered(Ok(_))) => (
            CreateFamilyStep::Finished,
            None,
        ),
        (CreateFamilyStep::AwaitingCommit, CreateFamilyEvent::CommitAnswered(Err(e))) => (
            CreateFamilyStep::Finished,
            Some(CreateFamilyAction::Finish(Err(ApplicationErrors::Database(e)))),
        ),
        (CreateFamilyStep::AwaitingRollback { error }, CreateFamilyEvent::RollbackAnswered(Ok(_))) => (
            CreateFamilyStep::Finished,
            Some(CreateFamilyAction::Finish(Err(error))),
        ),
        (CreateFamilyStep::AwaitingRollback { .. }, CreateFamilyEvent::RollbackAnswered(Err(e))) => (
            CreateFamilyStep::Finished,
            Some(CreateFamilyAction::Finish(Err(ApplicationErrors::Database(e)))),
        ),
        _ => (CreateFamilyStep::Finished, None),
    }
}

/// The protocol of family creation, step by step: a family is created only
/// after the lookup found no row; a commit comes only after the creation
/// succeeded; the family is returned only after its commit succeeded; and
/// while the lookup or the creation is pending the flow never answers
/// without first rolling back.
pub proof fn lemma_create_family_protocol(step: CreateFamilyStep, event: CreateFamilyEvent)
    requires
        expects(step, event),
    ensures
        next_spec(step, event).1 matches Some(CreateFamilyAction::CreateFamily) ==> (
        event matches CreateFamilyEvent::LookupAnswered(Err(e)) && e is RowNotFound),
        next_spec(step, event).1 matches Some(CreateFamilyAction::Commit) ==> (
        event matches CreateFamilyEvent::CreationAnswered(Ok(_))),
        next_spec(step, event).1 is None ==> (step is AwaitingCommit
            && event matches CreateFamilyEvent::CommitAnswered(Ok(_))),
        (step is AwaitingLookup || step is AwaitingCreation) ==> (next_spec(step, event).1 matches Some(
            a,
        ) && !(a is Finish)),
{
}

impl CreateFamilyFlow {
    /// Starts the creation of the family named `name`: first open a
    /// transaction.
    pub fn start(name: String) -> (r: (CreateFamilyFlow, CreateFamilyAction))
        ensures
            r.0.name == name,
            r.0.step is AwaitingTransaction,
            r.1 is BeginTransaction,
    {
        (CreateFamilyFlow { name, step: CreateFamilyStep::AwaitingTransaction }, CreateFamilyAction::BeginTransaction)
    }

    /// Takes the outcome of the action the flow asked for and decides what
    /// comes next (see `next_spec`): a family found under the name is refused
    /// as `FamilyAlreadyExists`, a lookup that found no row leads to the
    /// creation, a created family is committed and answered by its name, every
    /// failure rolls the transaction back, and a failed start, commit or
    /// rollback is answered with its database error.
    pub fn step(self, event: CreateFamilyEvent) -> (r: (CreateFamilyFlow, CreateFamilyAction))
        requires
            expects(self.step, event),
        ensures
            r.0.name == self.name,
            r.0.step == next_spec(self.step, event).0,
            match next_spec(self.step, event).1 {
                Some(a) => r.1 == a,
                None => r.1 matches CreateFamilyAction::Finish(Ok(f)) && f.name == self.name,
            },
    {
        let name = self.name;
        match (self.step, event) {
            (CreateFamilyStep::AwaitingTransaction, CreateFamilyEvent::TransactionBegun(Ok(_))) => (
                CreateFamilyFlow { name, step: CreateFamilyStep::AwaitingLookup },
                CreateFamilyAction::LookUpFamily,
            ),
            (CreateFamilyStep::AwaitingTransaction, CreateFamilyEvent::TransactionBegun(Err(e))) => (
                CreateFamilyFlow { name, step: CreateFamilyStep::Finished },
                CreateFamilyAction::Finish(Err(ApplicationErrors::Database(e))),
            ),
            (CreateFamilyStep::AwaitingLookup, CreateFamilyEvent::LookupAnswered(Ok(_))) => (
                CreateFamilyFlow {
                    name,
                    step: CreateFamilyStep::AwaitingRollback {
                        error: ApplicationErrors::FamilyAlreadyExists,
                    },
                },
                CreateFamilyAction::Rollback,
            ),
            (CreateFamilyStep::AwaitingLookup, CreateFamilyEvent::LookupAnswered(Err(e))) => {
                if e.is_row_not_found() {
                    (
                        CreateFamilyFlow { name, step: CreateFamilyStep::AwaitingCreation },
                        CreateFamilyAction::CreateFamily,
                    )
                } else {
                    (
                        CreateFamilyFlow {
                            name,
                            step: CreateFamilyStep::AwaitingRollback {
                                error: ApplicationErrors::Database(e),
                            },
                        },
                        CreateFamilyAction::Rollback,
                    )
                }
            },
            (CreateFamilyStep::AwaitingCreation, CreateFamilyEvent::CreationAnswered(Ok(_))) => (
                CreateFamilyFlow { name, step: CreateFamilyStep::AwaitingCommit },
                CreateFamilyAction::Commit,
            ),
            (CreateFamilyStep::AwaitingCreation, CreateFamilyEvent::CreationAnswered(Err(e))) => (
                CreateFamilyFlow {
                    name,
                    step: CreateFamilyStep::AwaitingRollback { error: ApplicationErrors::Database(e) },
                },
                CreateFamilyAction::Rollback,
            ),
            (CreateFamilyStep::AwaitingCommit, CreateFamilyEvent::CommitAnswered(Ok(_))) => {
                let family = Family { name: name.clone() };
                (
                    CreateFamilyFlow { name, step: CreateFamilyStep::Finished },
                    CreateFamilyAction::Finish(Ok(family)),
                )
            },
            (CreateFamilyStep::AwaitingCommit, CreateFamilyEvent::CommitAnswered(Err(e))) => (
                CreateFamilyFlow { name, step: CreateFamilyStep::Finished },
                CreateFamilyAction::Finish(Err(ApplicationErrors::Database(e))),
            ),
            (CreateFamilyStep::AwaitingRollback { error }, CreateFamilyEvent::RollbackAnswered(Ok(_))) => (
                CreateFamilyFlow { name, step: CreateFamilyStep::Finished },
                CreateFamilyAction::Finish(Err(error)),
            ),
            (CreateFamilyStep::AwaitingRollback { .. }, CreateFamilyEvent::RollbackAnswered(Err(e))) => (
                CreateFamilyFlow { name, step: CreateFamilyStep::Finished },
                CreateFamilyAction::Finish(Err(ApplicationErrors::Database(e))),
            ),
            _ => (CreateFamilyFlow { name, step: CreateFamilyStep::Finished }, CreateFamilyAction::BeginTransaction),
        }
    }
}

} // verus!
