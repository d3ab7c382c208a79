//! The decisions of the family creation use case, as a state machine: the
//! caller performs each action (open a transaction, look the family up, create
//! it, commit, roll back) and hands the outcome back as an event.

use crate::domains::common::errors::{DbError, RepositoryError};
use crate::domains::family::{CreateFamilyError, Family};
use vstd::prelude::*;

verus! {

/// Where the creation of a family stands.
#[derive(Debug)]
pub enum CreateFamilyStep {
    /// The transaction was asked for.
    AwaitingTransaction,
    /// The user's families were searched for the name.
    AwaitingLookup,
    /// The family was asked to be created.
    AwaitingCreation,
    /// The created family waits for the commit.
    AwaitingCommit { family: Family },
    /// The failure waits for the rollback.
    AwaitingRollback { error: CreateFamilyError },
    /// The answer was given.
    Finished,
}

/// The creation of the family named `name`.
#[derive(Debug)]
pub struct CreateFamilyFlow {
    pub name: String,
    pub step: CreateFamilyStep,
}

/// What came back from an action.
#[derive(Debug)]
pub enum CreateFamilyEvent {
    /// The transaction opened, or failed to.
    TransactionBegun(Result<(), DbError>),
    /// The lookup found a family of that name (`Ok`), or failed.
    LookupAnswered(Result<(), RepositoryError>),
    /// The creation returned the family, or failed.
    CreationAnswered(Result<Family, RepositoryError>),
    /// The commit succeeded, or failed.
    CommitAnswered(Result<(), DbError>),
    /// The rollback succeeded, or failed.
    RollbackAnswered(Result<(), DbError>),
}

/// What to do next.
#[derive(Debug)]
pub enum CreateFamilyAction {
    BeginTransaction,
    LookUpFamily,
    CreateFamily,
    Commit,
    Rollback,
    /// Answer the request.
    Finish(Result<Family, CreateFamilyError>),
}

/// The event answers the action the flow waits on.
pub open spec fn expects(step: CreateFamilyStep, event: CreateFamilyEvent) -> bool {
    match (step, event) {
        (CreateFamilyStep::AwaitingTransaction, CreateFamilyEvent::TransactionBegun(_)) => true,
        (CreateFamilyStep::AwaitingLookup, CreateFamilyEvent::LookupAnswered(_)) => true,
        (CreateFamilyStep::AwaitingCreation, CreateFamilyEvent::CreationAnswered(_)) => true,
        (CreateFamilyStep::AwaitingCommit { .. }, CreateFamilyEvent::CommitAnswered(_)) => true,
        (CreateFamilyStep::AwaitingRollback { .. }, CreateFamilyEvent::RollbackAnswered(_)) => true,
        _ => false,
    }
}

/// `e` is the repository failure, under the family's name, that the database
/// error `db` becomes.
pub open spec fn is_repository_failure(e: CreateFamilyError, name: String, db: DbError) -> bool {
    e matches CreateFamilyError::Repository { name: n, source } && n == name && source.classifies(db)
}

/// The flow moved on to `step` and asks for `action`.
pub open spec fn moves_to(
    r: (CreateFamilyFlow, CreateFamilyAction),
    name: String,
    step: CreateFamilyStep,
    action: CreateFamilyAction,
) -> bool {
    r.0.name == name && r.0.step == step && r.1 == action
}

/// The flow finished with a repository failure for the database error `db`.
pub open spec fn finishes_with_db_failure(
    r: (CreateFamilyFlow, CreateFamilyAction),
    name: String,
    db: DbError,
) -> bool {
    &&& r.0.name == name
    &&& r.0.step is Finished
    &&& r.1 matches CreateFamilyAction::Finish(Err(e)) && is_repository_failure(e, name, db)
}

/// One step of the flow, as the use case decides it.
pub open spec fn step_spec(
    old: CreateFamilyFlow,
    event: CreateFamilyEvent,
    r: (CreateFamilyFlow, CreateFamilyAction),
) -> bool {
    let name = old.name;
    match (old.step, event) {
        (CreateFamilyStep::AwaitingTransaction, CreateFamilyEvent::TransactionBegun(Ok(_))) => moves_to(
            r,
            name,
            CreateFamilyStep::AwaitingLookup,
            CreateFamilyAction::LookUpFamily,
        ),
        (
            CreateFamilyStep::AwaitingTransaction,
            CreateFamilyEvent::TransactionBegun(Err(e)),
        ) => finishes_with_db_failure(r, name, e),
        (CreateFamilyStep::AwaitingLookup, CreateFamilyEvent::LookupAnswered(Ok(_))) => moves_to(
            r,
            name,
            CreateFamilyStep::AwaitingRollback {
                error: CreateFamilyError::AlreadyExists { name },
            },
            CreateFamilyAction::Rollback,
        ),
        (CreateFamilyStep::AwaitingLookup, CreateFamilyEvent::LookupAnswered(Err(source))) => if source is NotFound {
            moves_to(r, name, CreateFamilyStep::AwaitingCreation, CreateFamilyAction::CreateFamily)
        } else {
            moves_to(
                r,
                name,
                CreateFamilyStep::AwaitingRollback {
                    error: CreateFamilyError::Repository { name, source },
                },
                CreateFamilyAction::Rollback,
            )
        },
        (CreateFamilyStep::AwaitingCreation, CreateFamilyEvent::CreationAnswered(Ok(family))) => moves_to(
            r,
            name,
            CreateFamilyStep::AwaitingCommit { family },
            CreateFamilyAction::Commit,
        ),
        (
            CreateFamilyStep::AwaitingCreation,
            CreateFamilyEvent::CreationAnswered(Err(source)),
        ) => moves_to(
            r,
            name,
            CreateFamilyStep::AwaitingRollback {
                error: CreateFamilyError::Repository { name, source },
            },
            CreateFamilyAction::Rollback,
        ),
        (CreateFamilyStep::AwaitingCommit { family }, CreateFamilyEvent::CommitAnswered(Ok(_))) => moves_to(
            r,
            name,
            CreateFamilyStep::Finished,
            CreateFamilyAction::Finish(Ok(family)),
        ),
        (CreateFamilyStep::AwaitingCommit { .. }, CreateFamilyEvent::CommitAnswered(Err(e))) => finishes_with_db_failure(
            r,
            name,
            e,
        ),
        (CreateFamilyStep::AwaitingRollback { error }, CreateFamilyEvent::RollbackAnswered(Ok(_))) => moves_to(
            r,
            name,
            CreateFamilyStep::Finished,
            CreateFamilyAction::Finish(Err(error)),
        ),
        (
            CreateFamilyStep::AwaitingRollback { .. },
            CreateFamilyEvent::RollbackAnswered(Err(e)),
        ) => finishes_with_db_failure(r, name, e),
        _ => false,
    }
}

/// The protocol of family creation, step by step: a family is created only
/// after the lookup found none under its name; a commit comes only after the
/// creation succeeded; the family is returned only after its commit succeeded;
/// and while the transaction is open (lookup or creation pending) the flow
/// never answers without first committing or rolling back.
pub proof fn lemma_create_family_protocol(
    old: CreateFamilyFlow,
    event: CreateFamilyEvent,
    r: (CreateFamilyFlow, CreateFamilyAction),
)
    requires
        step_spec(old, event, r),
    ensures
        r.1 is CreateFamily ==> (event matches CreateFamilyEvent::LookupAnswered(Err(s))
            && s is NotFound),
        r.1 is Commit ==> (event matches CreateFamilyEvent::CreationAnswered(Ok(f))
            && r.0.step == CreateFamilyStep::AwaitingCommit { family: f }),
        r.1 matches CreateFamilyAction::Finish(Ok(f)) ==> (old.step == CreateFamilyStep::AwaitingCommit {
            family: f,
        } && event matches CreateFamilyEvent::CommitAnswered(Ok(_))),
        (old.step is AwaitingLookup || old.step is AwaitingCreation) ==> !(r.1 is Finish),
        r.0.name == old.name,
{
}

impl CreateFamilyFlow {
    /// Starts the creation of the family named `name`: first open a
    /// transaction.
    pub fn start(name: String) -> (r: (CreateFamilyFlow, CreateFamilyAction))
        ensures
            moves_to(r, name, CreateFamilyStep::AwaitingTransaction, CreateFamilyAction::BeginTransaction),
    {
        (CreateFamilyFlow { name, step: CreateFamilyStep::AwaitingTransaction }, CreateFamilyAction::BeginTransaction)
    }

    fn db_failure(name: &String, e: DbError) -> (r: (CreateFamilyFlow, CreateFamilyAction))
        ensures
            finishes_with_db_failure(r, *name, e),
    {
        let source = RepositoryError::from_db_error(e);
        (
            CreateFamilyFlow { name: name.clone(), step: CreateFamilyStep::Finished },
            CreateFamilyAction::Finish(Err(CreateFamilyError::Repository { name: name.clone(), source })),
        )
    }

    /// Takes the outcome of the action the flow asked for and decides what
    /// comes next (see `step_spec`):
    /// - a failed transaction start is answered as a repository failure;
    /// - a family found under the name is refused as `AlreadyExists`, after a
    ///   rollback; a lookup that found nothing leads to the creation; any other
    ///   lookup failure is a repository failure, after a rollback;
    /// - a created family is committed and then returned; a failed creation is
    ///   a repository failure, after a rollback;
    /// - a failed commit or rollback is answered as a repository failure.
    pub fn step(self, event: CreateFamilyEvent) -> (r: (CreateFamilyFlow, CreateFamilyAction))
        requires
            expects(self.step, event),
        ensures
            step_spec(self, event, r),
    {
        let name = self.name;
        match (self.step, event) {
            (CreateFamilyStep::AwaitingTransaction, CreateFamilyEvent::TransactionBegun(Ok(_))) => (
                CreateFamilyFlow { name, step: CreateFamilyStep::AwaitingLookup },
                CreateFamilyAction::LookUpFamily,
            ),
            (CreateFamilyStep::AwaitingTransaction, CreateFamilyEvent::TransactionBegun(Err(e))) => {
                Self::db_failure(&name, e)
            },
            (CreateFamilyStep::AwaitingLookup, CreateFamilyEvent::LookupAnswered(Ok(_))) => {
                let error = CreateFamilyError::AlreadyExists { name: name.clone() };
                (
                    CreateFamilyFlow { name, step: CreateFamilyStep::AwaitingRollback { error } },
                    CreateFamilyAction::Rollback,
                )
            },
            (CreateFamilyStep::AwaitingLookup, CreateFamilyEvent::LookupAnswered(Err(source))) => {
                if source.is_not_found() {
                    (
                        CreateFamilyFlow { name, step: CreateFamilyStep::AwaitingCreation },
                        CreateFamilyAction::CreateFamily,
                    )
                } else {
                    let error = CreateFamilyError::Repository { name: name.clone(), source };
                    (
                        CreateFamilyFlow { name, step: CreateFamilyStep::AwaitingRollback { error } },
                        CreateFamilyAction::Rollback,
                    )
                }
            },
            (CreateFamilyStep::AwaitingCreation, CreateFamilyEvent::CreationAnswered(Ok(family))) => (
                CreateFamilyFlow { name, step: CreateFamilyStep::AwaitingCommit { family } },
                CreateFamilyAction::Commit,
            ),
            (CreateFamilyStep::AwaitingCreation, CreateFamilyEvent::CreationAnswered(Err(source))) => {
                let error = CreateFamilyError::Repository { name: name.clone(), source };
                (
                    CreateFamilyFlow { name, step: CreateFamilyStep::AwaitingRollback { error } },
                    CreateFamilyAction::Rollback,
                )
            },
            (CreateFamilyStep::AwaitingCommit { family }, CreateFamilyEvent::CommitAnswered(Ok(_))) => (
                CreateFamilyFlow { name, step: CreateFamilyStep::Finished },
                CreateFamilyAction::Finish(Ok(family)),
            ),
            (CreateFamilyStep::AwaitingCommit { .. }, CreateFamilyEvent::CommitAnswered(Err(e))) => {
                Self::db_failure(&name, e)
            },
            (CreateFamilyStep::AwaitingRollback { error }, CreateFamilyEvent::RollbackAnswered(Ok(_))) => (
                CreateFamilyFlow { name, step: CreateFamilyStep::Finished },
                CreateFamilyAction::Finish(Err(error)),
            ),
            (CreateFamilyStep::AwaitingRollback { .. }, CreateFamilyEvent::RollbackAnswered(Err(e))) => {
                Self::db_failure(&name, e)
            },
            _ => (CreateFamilyFlow { name, step: CreateFamilyStep::Finished }, CreateFamilyAction::BeginTransaction),
        }
    }
}

} // verus!
