use navigator::application::{
    get_dashboard, require_username, ApplicationErrors, CreateFamilyAction as LegacyAction,
    CreateFamilyEvent as LegacyEvent, CreateFamilyFlow as LegacyFlow,
};
use navigator::domain::{empty, CreateFamilyCommand as LegacyCommand, FamilyRole};
use navigator::domains::common::errors::{
    ApplicationError, DbError, MiddlewareError, MissingUsernameError, RepositoryError,
};
use navigator::domains::family::{
    create_family_command, from_str, member_inputs, family_views, CreateFamilyCommand, CreateFamilyError,
    CreateFamilyMemberCommand, CreateFamilyMemberInput, CreateFamilyMemberRequest, Family, FamilyEntity,
    FamilyRelation, GetFamiliesError, MemberUser, SqlxFamilyRepository, UserRecord,
};
use navigator::domains::family_flow::{CreateFamilyAction, CreateFamilyEvent, CreateFamilyFlow};

fn entity(id: i32, name: &str, creator_id: i32, user_id: i32, username: &str, relation: &str) -> FamilyEntity {
    FamilyEntity {
        id,
        name: name.to_string(),
        creator_id,
        active: true,
        user_id,
        username: username.to_string(),
        relation: relation.to_string(),
        is_admin: creator_id == user_id,
    }
}

fn family(id: i32, name: &str) -> Family {
    Family { id, name: name.to_string(), creator_username: "johndoe".to_string(), members: vec![], active: true }
}

// --- relations -------------------------------------------------------------

#[test]
fn relations_round_trip_through_their_text() {
    let all = [
        FamilyRelation::Parent,
        FamilyRelation::GrandParent,
        FamilyRelation::Child,
        FamilyRelation::Uncle,
        FamilyRelation::Aunt,
        FamilyRelation::Sister,
        FamilyRelation::Brother,
        FamilyRelation::Other,
    ];
    for r in all {
        assert_eq!(from_str(&r.as_str().to_string()), r);
        assert_eq!(FamilyRelation::from_str(&r.as_str().to_string()), r);
    }
    assert_eq!(FamilyRelation::GrandParent.as_str(), "GRAND_PARENT");
    assert_eq!(FamilyRelation::Uncle.as_str(), "UNDLE");
}

#[test]
fn unknown_relations_are_other() {
    assert_eq!(from_str(&"UNCLE".to_string()), FamilyRelation::Other);
    assert_eq!(from_str(&"parent".to_string()), FamilyRelation::Other);
    assert_eq!(from_str(&"".to_string()), FamilyRelation::Other);
}

#[test]
fn owner_role_text() {
    assert_eq!(FamilyRole::Owner.as_str(), "OWNER");
    let command = LegacyCommand { name: "Doe family".to_string(), role: FamilyRole::Owner };
    assert_eq!(command.role.as_str(), "OWNER");
}

// --- rows to families ------------------------------------------------------

#[test]
fn to_family_reads_creator_and_members() {
    let repo = SqlxFamilyRepository;
    let rows = vec![
        entity(3, "The Alices", 1, 2, "bob", "CHILD"),
        entity(3, "The Alices", 1, 1, "alice", "PARENT"),
    ];
    let f = repo.to_family(rows);
    assert_eq!(f.id, 3);
    assert_eq!(f.name, "The Alices");
    assert_eq!(f.creator_username, "alice");
    assert_eq!(f.members.len(), 2);
    assert_eq!(f.members[0].username, "bob");
    assert_eq!(f.members[0].relation, FamilyRelation::Child);
    assert_eq!(f.members[1].relation, FamilyRelation::Parent);
    assert!(f.members[1].is_admin);
    assert!(f.active);
}

#[test]
fn families_are_grouped_by_id_in_first_row_order() {
    let repo = SqlxFamilyRepository;
    let rows = vec![
        entity(2, "Family B", 5, 5, "johnsmith", "PARENT"),
        entity(1, "Family A", 4, 4, "johndoe", "PARENT"),
        entity(2, "Family B", 5, 6, "kid", "CHILD"),
    ];
    let families = repo.families_from_entities(&rows).expect("families");
    assert_eq!(families.len(), 2);
    assert_eq!(families[0].name, "Family B");
    assert_eq!(families[0].members.len(), 2);
    assert_eq!(families[1].name, "Family A");
    assert_eq!(families[1].creator_username, "johndoe");
}

#[test]
fn families_without_creator_row_are_refused() {
    let repo = SqlxFamilyRepository;
    let rows = vec![entity(1, "Family A", 4, 5, "kid", "CHILD")];
    assert!(repo.families_from_entities(&rows).is_none());
    assert!(!repo.has_creator_row(&rows));
    assert!(repo.families_from_entities(&vec![]).expect("no family").is_empty());
}

#[test]
fn family_by_name_needs_a_row() {
    let repo = SqlxFamilyRepository;
    assert!(matches!(repo.family_from_entities(vec![]), Err(DbError::RowNotFound)));
    let found = repo.family_from_entities(vec![entity(9, "Alice Club", 1, 1, "alice", "OTHER")]).unwrap();
    assert_eq!(found.name, "Alice Club");
}

#[test]
fn creator_is_found_without_regard_to_case() {
    let repo = SqlxFamilyRepository;
    let users = vec![
        UserRecord { id: 1, username: Some("bob".to_string()), email: Some("bob@example.com".to_string()) },
        UserRecord { id: 2, username: Some("Alice".to_string()), email: None },
    ];
    assert_eq!(repo.get_creator_id("ALICE", &users).unwrap(), 2);
    assert_eq!(repo.get_creator_id("Bob@Example.com", &users).unwrap(), 1);
    assert!(matches!(repo.get_creator_id("carol", &users), Err(DbError::RowNotFound)));
}

#[test]
fn members_are_planned_as_known_or_new_users() {
    let repo = SqlxFamilyRepository;
    let users = vec![UserRecord { id: 1, username: Some("alice".to_string()), email: Some("alice@example.com".to_string()) }];
    let command = CreateFamilyCommand {
        name: "The Alices".to_string(),
        creator_relation: FamilyRelation::Parent,
        members: vec![
            CreateFamilyMemberCommand {
                username_or_email: "bob@example.com".to_string(),
                relation: FamilyRelation::Child,
                is_admin: false,
            },
            CreateFamilyMemberCommand {
                username_or_email: "ALICE@example.com".to_string(),
                relation: FamilyRelation::Aunt,
                is_admin: true,
            },
        ],
    };
    let plans = repo.plan_family_members(&command, &users);
    assert_eq!(plans.len(), 2);
    assert!(matches!(&plans[0].user, MemberUser::New(n) if n == "bob@example.com"));
    assert_eq!(plans[0].relation, "CHILD");
    assert!(!plans[0].is_admin);
    assert!(matches!(plans[1].user, MemberUser::Existing(1)));
    assert_eq!(plans[1].relation, "AUNT");
    let names = repo.lookup_usernames(&command, "alice");
    assert_eq!(names, vec!["bob@example.com".to_string(), "ALICE@example.com".to_string(), "alice".to_string()]);
}

// --- requests --------------------------------------------------------------

#[test]
fn request_members_become_command_members() {
    let inputs = member_inputs(vec![
        CreateFamilyMemberRequest { username_or_email: "toto@mafamille.com".to_string(), relation: "CHILD".to_string(), is_admin: false },
        CreateFamilyMemberRequest { username_or_email: "maman@mafamille.com".to_string(), relation: "PARENT".to_string(), is_admin: true },
    ]);
    assert_eq!(inputs.len(), 2);
    assert_eq!(inputs[0].username_or_email, "toto@mafamille.com");
    assert_eq!(inputs[1].relation, "PARENT");
    assert!(inputs[1].is_admin);
    let command = create_family_command("Ma famille".to_string(), &"PARENT".to_string(), inputs);
    assert_eq!(command.name, "Ma famille");
    assert_eq!(command.creator_relation, FamilyRelation::Parent);
    assert_eq!(command.members[0].relation, FamilyRelation::Child);
    assert_eq!(command.members[1].username_or_email, "maman@mafamille.com");
    let none: Vec<CreateFamilyMemberInput> = vec![];
    assert!(create_family_command("x".to_string(), &"?".to_string(), none).members.is_empty());
}

#[test]
fn family_views_keep_the_names() {
    let views = family_views(&vec![family(1, "Family A"), family(2, "Family B")]);
    assert_eq!(views.len(), 2);
    assert_eq!(views[0].name, "Family A");
    assert_eq!(views[1].name, "Family B");
}

// --- the creation use case --------------------------------------------------

fn run(name: &str, events: Vec<CreateFamilyEvent>) -> (Vec<String>, Option<Result<Family, CreateFamilyError>>) {
    let (mut flow, mut action) = CreateFamilyFlow::start(name.to_string());
    let mut actions = vec![];
    let mut events = events.into_iter();
    loop {
        match action {
            CreateFamilyAction::Finish(result) => return (actions, Some(result)),
            other => {
                actions.push(format!("{:?}", other));
                match events.next() {
                    Some(event) => {
                        let (next_flow, next_action) = flow.step(event);
                        flow = next_flow;
                        action = next_action;
                    }
                    None => return (actions, None),
                }
            }
        }
    }
}

#[test]
fn create_family_use_case_should_create_family_when_not_exists() {
    let (actions, result) = run(
        "Family C",
        vec![
            CreateFamilyEvent::TransactionBegun(Ok(())),
            CreateFamilyEvent::LookupAnswered(Err(RepositoryError::NotFound)),
            CreateFamilyEvent::CreationAnswered(Ok(family(3, "Family C"))),
            CreateFamilyEvent::CommitAnswered(Ok(())),
        ],
    );
    let family = result.unwrap().expect("family");
    assert_eq!(family.name, "Family C");
    assert_eq!(actions, vec!["BeginTransaction", "LookUpFamily", "CreateFamily", "Commit"]);
}

#[test]
fn create_family_use_case_should_error_when_family_already_exists() {
    let (actions, result) = run(
        "Family A",
        vec![
            CreateFamilyEvent::TransactionBegun(Ok(())),
            CreateFamilyEvent::LookupAnswered(Ok(())),
            CreateFamilyEvent::RollbackAnswered(Ok(())),
        ],
    );
    let err = result.unwrap().unwrap_err();
    assert!(matches!(err, CreateFamilyError::AlreadyExists { ref name } if name == "Family A"));
    assert_eq!(actions, vec!["BeginTransaction", "LookUpFamily", "Rollback"]);
}

#[test]
fn create_family_use_case_should_error_when_create_family_fails() {
    let (_, result) = run(
        "Family C",
        vec![
            CreateFamilyEvent::TransactionBegun(Ok(())),
            CreateFamilyEvent::LookupAnswered(Err(RepositoryError::NotFound)),
            CreateFamilyEvent::CreationAnswered(Err(RepositoryError::NotFound)),
            CreateFamilyEvent::RollbackAnswered(Ok(())),
        ],
    );
    assert!(matches!(result, Some(Err(CreateFamilyError::Repository { .. }))));
}

#[test]
fn create_family_use_case_should_error_on_db_connection_failure() {
    let (actions, result) = run("Family C", vec![CreateFamilyEvent::TransactionBegun(Err(DbError::RowNotFound))]);
    assert!(matches!(
        result,
        Some(Err(CreateFamilyError::Repository { ref name, source: RepositoryError::NotFound })) if name == "Family C"
    ));
    assert_eq!(actions, vec!["BeginTransaction"]);
}

#[test]
fn failed_lookup_and_failed_commit_are_repository_failures() {
    let (actions, result) = run(
        "Family D",
        vec![
            CreateFamilyEvent::TransactionBegun(Ok(())),
            CreateFamilyEvent::LookupAnswered(Err(RepositoryError::Technical { message: "boom".to_string(), sources: vec![] })),
            CreateFamilyEvent::RollbackAnswered(Ok(())),
        ],
    );
    assert!(matches!(result, Some(Err(CreateFamilyError::Repository { source: RepositoryError::Technical { ref message, .. }, .. })) if message == "boom"));
    assert_eq!(actions, vec!["BeginTransaction", "LookUpFamily", "Rollback"]);
    let (_, committed) = run(
        "Family E",
        vec![
            CreateFamilyEvent::TransactionBegun(Ok(())),
            CreateFamilyEvent::LookupAnswered(Err(RepositoryError::NotFound)),
            CreateFamilyEvent::CreationAnswered(Ok(family(3, "Family E"))),
            CreateFamilyEvent::CommitAnswered(Err(DbError::UniqueViolation { constraint: None, message: "dup".to_string() })),
        ],
    );
    assert!(matches!(committed, Some(Err(CreateFamilyError::Repository { source: RepositoryError::Conflict(ref c), .. })) if c == "unknown"));
}

// --- the first-generation application layer ---------------------------------

fn run_legacy(name: &str, events: Vec<LegacyEvent>) -> Option<Result<navigator::domain::Family, ApplicationErrors>> {
    let (mut flow, mut action) = LegacyFlow::start(name.to_string());
    let mut events = events.into_iter();
    loop {
        match action {
            LegacyAction::Finish(result) => return Some(result),
            _ => match events.next() {
                Some(event) => {
                    let (next_flow, next_action) = flow.step(event);
                    flow = next_flow;
                    action = next_action;
                }
                None => return None,
            },
        }
    }
}

#[test]
fn family_should_create_family_when_not_exists() {
    let result = run_legacy(
        "Family C",
        vec![
            LegacyEvent::TransactionBegun(Ok(())),
            LegacyEvent::LookupAnswered(Err(DbError::RowNotFound)),
            LegacyEvent::CreationAnswered(Ok(())),
            LegacyEvent::CommitAnswered(Ok(())),
        ],
    );
    let family = result.unwrap().expect("family");
    assert_eq!(family.name, "Family C");
}

#[test]
fn family_should_error_when_family_already_exists() {
    let result = run_legacy(
        "Family A",
        vec![
            LegacyEvent::TransactionBegun(Ok(())),
            LegacyEvent::LookupAnswered(Ok(())),
            LegacyEvent::RollbackAnswered(Ok(())),
        ],
    );
    assert!(matches!(result, Some(Err(ApplicationErrors::FamilyAlreadyExists))));
}

#[test]
fn family_should_error_when_create_family_fails() {
    let result = run_legacy(
        "Family C",
        vec![
            LegacyEvent::TransactionBegun(Ok(())),
            LegacyEvent::LookupAnswered(Err(DbError::RowNotFound)),
            LegacyEvent::CreationAnswered(Err(DbError::RowNotFound)),
            LegacyEvent::RollbackAnswered(Ok(())),
        ],
    );
    assert!(matches!(result, Some(Err(ApplicationErrors::Database(DbError::RowNotFound)))));
}

#[test]
fn legacy_flow_reports_a_failed_rollback() {
    let result = run_legacy(
        "Family A",
        vec![
            LegacyEvent::TransactionBegun(Ok(())),
            LegacyEvent::LookupAnswered(Ok(())),
            LegacyEvent::RollbackAnswered(Err(DbError::Other { message: "gone".to_string(), sources: vec![] })),
        ],
    );
    let err = result.unwrap().unwrap_err();
    assert_eq!(err.to_string(), "Database error: gone");
    assert_eq!(err.source(), Some("gone".to_string()));
}

#[test]
fn should_error_when_username_missing() {
    assert!(matches!(require_username(None), Err(ApplicationErrors::MissingUsername)));
    assert_eq!(require_username(Some("carol".to_string())).unwrap(), "carol");
}

#[test]
fn dashboard_should_return_dashboard() {
    let dashboard = get_dashboard("john.doe".to_string(), "Doe family".to_string()).expect("error fetching dashboard");
    assert_eq!(dashboard, empty());
}

#[test]
fn application_error_messages() {
    assert_eq!(ApplicationErrors::FamilyAlreadyExists.to_string(), "Family already exists");
    assert_eq!(ApplicationErrors::MissingUsername.to_string(), "No username provided");
    assert_eq!(
        ApplicationErrors::Database(DbError::RowNotFound).to_string(),
        "Database error: no rows returned by a query that expected to return at least one row"
    );
    assert_eq!(ApplicationErrors::MissingUsername.source(), None);
}

// --- errors ----------------------------------------------------------------

#[test]
fn database_errors_are_classified() {
    assert!(matches!(RepositoryError::from_db_error(DbError::RowNotFound), RepositoryError::NotFound));
    assert!(matches!(
        RepositoryError::from_db_error(DbError::UniqueViolation { constraint: Some("families_name_key".to_string()), message: "dup".to_string() }),
        RepositoryError::Conflict(ref c) if c == "families_name_key"
    ));
    assert!(matches!(
        RepositoryError::from_db_error(DbError::Other {
            message: "pool timed out".to_string(),
            sources: vec!["connection reset".to_string()],
        }),
        RepositoryError::Technical { ref message, ref sources }
            if message == "pool timed out" && sources == &vec!["connection reset".to_string()]
    ));
    assert!(matches!(
        RepositoryError::technical("io".to_string(), vec![]),
        RepositoryError::Technical { ref message, ref sources } if message == "io" && sources.is_empty()
    ));
}

#[test]
fn middleware_errors_choose_their_status() {
    assert_eq!(MiddlewareError::MissingUsername.status_code(), 401);
    assert_eq!(MiddlewareError::InvalidDateFormat.status_code(), 400);
    let exists = MiddlewareError::from(CreateFamilyError::AlreadyExists { name: "Family A".to_string() });
    assert_eq!(exists.status_code(), 409);
    assert_eq!(exists.response_body(), "family already exists: Family A");
    let failed = MiddlewareError::from(GetFamiliesError::Repository {
        username: "john".to_string(),
        source: RepositoryError::Technical { message: "no rows returned".to_string(), sources: vec![] },
    });
    assert_eq!(failed.status_code(), 500);
    assert_eq!(failed.response_body(), "internal server error");
    assert_eq!(
        failed.error_chain(),
        vec![
            "repository failure while fetching families (username=john)".to_string(),
            "technical error in repository".to_string(),
            "no rows returned".to_string(),
        ]
    );
    let missing = MiddlewareError::from(MissingUsernameError);
    assert_eq!(missing.response_body(), "no username_or_email specified");
    assert_eq!(missing.error_chain(), vec!["no username_or_email specified".to_string()]);
}

#[test]
fn domain_error_messages() {
    let err = CreateFamilyError::Repository { name: "Family C".to_string(), source: RepositoryError::Conflict("pk".to_string()) };
    assert_eq!(err.message(), "repository failure while creating family (name=Family C)");
    assert_eq!(err.sources(), vec!["conflict on pk".to_string()]);
    assert_eq!(RepositoryError::NotFound.message(), "entity not found");
    assert_eq!(MissingUsernameError.message(), "No username_or_email specified");
}

#[test]
fn application_errors_are_internal_server_errors_by_default() {
    let repo = RepositoryError::Technical { message: "down".to_string(), sources: vec![] };
    assert_eq!(ApplicationError::status_code(&repo), 500);
    assert_eq!(repo.get_message(), "technical error in repository");
    assert_eq!(ApplicationError::status_code(&MissingUsernameError), 500);
    assert_eq!(MissingUsernameError.get_message(), "No username_or_email specified");
}

#[test]
fn grouped_families_have_distinct_ids_in_first_row_order() {
    let repo = SqlxFamilyRepository;
    let rows = vec![
        entity(3, "Family C", 7, 8, "kid", "CHILD"),
        entity(1, "Family A", 4, 4, "johndoe", "PARENT"),
        entity(3, "Family C", 7, 7, "carol", "PARENT"),
        entity(1, "Family A", 4, 9, "kid2", "CHILD"),
        entity(2, "Family B", 5, 5, "bob", "PARENT"),
    ];
    let groups = repo.group_entities(&rows);
    let ids: Vec<i32> = groups.iter().map(|g| g[0].id).collect();
    assert_eq!(ids, vec![3, 1, 2]);
    assert_eq!(groups[0].len(), 2);
    assert_eq!(groups[0][1].username, "carol");
    assert_eq!(groups[1].len(), 2);
    assert_eq!(groups[2].len(), 1);
}

#[test]
fn the_error_chain_keeps_the_driver_error_sources() {
    let err = MiddlewareError::from(GetFamiliesError::Repository {
        username: "john".to_string(),
        source: RepositoryError::from_db_error(DbError::Other {
            message: "error communicating with database: reset".to_string(),
            sources: vec!["reset".to_string(), "os error 104".to_string()],
        }),
    });
    assert_eq!(
        err.error_chain(),
        vec![
            "repository failure while fetching families (username=john)".to_string(),
            "technical error in repository".to_string(),
            "error communicating with database: reset".to_string(),
            "reset".to_string(),
            "os error 104".to_string(),
        ]
    );
}

#[test]
fn a_database_error_shows_the_driver_message() {
    assert_eq!(
        DbError::RowNotFound.get_message(),
        "no rows returned by a query that expected to return at least one row"
    );
    assert_eq!(DbError::Other { message: "gone".to_string(), sources: vec![] }.get_message(), "gone");
}
