//! Families: relations between members, the family model, its errors, the
//! requests that create one, and how the rows read from the database become
//! families.

use crate::domains::common::errors::{joined, ApplicationError, DbError, RepositoryError};
use crate::text::{lowercase_text, lowercased, same_text};
use vstd::prelude::*;

verus! {

// ---------------------------------------------------------------------------
// Relations
// ---------------------------------------------------------------------------

/// How a member relates to the family.
#[derive(Clone, Copy, Debug, PartialEq, Eq, Structural)]
pub enum FamilyRelation {
    Parent,
    GrandParent,
    Child,
    Uncle,
    Aunt,
    Sister,
    Brother,
    Other,
}

/// The stored text of a relation.
pub open spec fn relation_text(r: FamilyRelation) -> Seq<char> {
    match r {
        FamilyRelation::Parent => "PARENT"@,
        FamilyRelation::GrandParent => "GRAND_PARENT"@,
        FamilyRelation::Child => "CHILD"@,
        FamilyRelation::Uncle => "UNDLE"@,
        FamilyRelation::Aunt => "AUNT"@,
        FamilyRelation::Sister => "SISTER"@,
        FamilyRelation::Brother => "BROTHER"@,
        FamilyRelation::Other => "OTHER"@,
    }
}

/// The relation a stored text names; any unknown text is `Other`.
pub open spec fn relation_of(s: Seq<char>) -> FamilyRelation {
    if s == "PARENT"@ {
        FamilyRelation::Parent
    } else if s == "GRAND_PARENT"@ {
        FamilyRelation::GrandParent
    } else if s == "CHILD"@ {
        FamilyRelation::Child
    } else if s == "UNDLE"@ {
        FamilyRelation::Uncle
    } else if s == "AUNT"@ {
        FamilyRelation::Aunt
    } else if s == "SISTER"@ {
        FamilyRelation::Sister
    } else if s == "BROTHER"@ {
        FamilyRelation::Brother
    } else {
        FamilyRelation::Other
    }
}

impl FamilyRelation {
    /// The stored text of the relation.
    pub fn as_str(&self) -> (r: &'static str)
        ensures
            r@ == relation_text(*self),
    {
        match self {
            FamilyRelation::Parent => "PARENT",
            FamilyRelation::GrandParent => "GRAND_PARENT",
            FamilyRelation::Child => "CHILD",
            FamilyRelation::Uncle => "UNDLE",
            FamilyRelation::Aunt => "AUNT",
            FamilyRelation::Sister => "SISTER",
            FamilyRelation::Brother => "BROTHER",
            FamilyRelation::Other => "OTHER",
        }
    }

    /// Reads a stored relation; see `from_str`.
    pub fn from_str(relation: &String) -> (r: FamilyRelation)
        ensures
            r == relation_of(relation@),
    {
        from_str(relation)
    }
}

/// Reads a stored relation; any unknown text is `Other`.
pub fn from_str(relation: &String) -> (r: FamilyRelation)
    ensures
        r == relation_of(relation@),
{
    let s = relation.as_str();
    if same_text(s, "PARENT") {
        FamilyRelation::Parent
    } else if same_text(s, "GRAND_PARENT") {
        FamilyRelation::GrandParent
    } else if same_text(s, "CHILD") {
        FamilyRelation::Child
    } else if same_text(s, "UNDLE") {
        FamilyRelation::Uncle
    } else if same_text(s, "AUNT") {
        FamilyRelation::Aunt
    } else if same_text(s, "SISTER") {
        FamilyRelation::Sister
    } else if same_text(s, "BROTHER") {
        FamilyRelation::Brother
    } else {
        FamilyRelation::Other
    }
}

/// Reading back the stored text of a relation gives the relation.
pub proof fn lemma_relation_round_trip(r: FamilyRelation)
    ensures
        relation_of(relation_text(r)) == r,
{
    reveal_strlit("PARENT");
    reveal_strlit("GRAND_PARENT");
    reveal_strlit("CHILD");
    reveal_strlit("UNDLE");
    reveal_strlit("AUNT");
    reveal_strlit("SISTER");
    reveal_strlit("BROTHER");
    reveal_strlit("OTHER");
    assert("PARENT"@[0] == 'P');
    assert("GRAND_PARENT"@[0] == 'G');
    assert("CHILD"@[0] == 'C');
    assert("UNDLE"@[0] == 'U');
    assert("AUNT"@[0] == 'A');
    assert("SISTER"@[0] == 'S');
    assert("BROTHER"@[0] == 'B');
    assert("OTHER"@[0] == 'O');
}

/// Each relation is read from exactly its own upper-case name, and written as
/// it: `PARENT`, `GRAND_PARENT`, `CHILD`, `UNDLE` (the stored name of an
/// uncle), `AUNT`, `SISTER` and `BROTHER`; every other text reads as `Other`,
/// which is written `OTHER`.
pub proof fn lemma_relation_names(s: Seq<char>, r: FamilyRelation)
    ensures
        (relation_of(s) == FamilyRelation::Parent) <==> s == "PARENT"@,
        (relation_of(s) == FamilyRelation::GrandParent) <==> s == "GRAND_PARENT"@,
        (relation_of(s) == FamilyRelation::Child) <==> s == "CHILD"@,
        (relation_of(s) == FamilyRelation::Uncle) <==> s == "UNDLE"@,
        (relation_of(s) == FamilyRelation::Aunt) <==> s == "AUNT"@,
        (relation_of(s) == FamilyRelation::Sister) <==> s == "SISTER"@,
        (relation_of(s) == FamilyRelation::Brother) <==> s == "BROTHER"@,
        (relation_of(s) == FamilyRelation::Other) <==> (s != "PARENT"@ && s != "GRAND_PARENT"@
            && s != "CHILD"@ && s != "UNDLE"@ && s != "AUNT"@ && s != "SISTER"@ && s != "BROTHER"@),
        (relation_text(r) == "PARENT"@) <==> r == FamilyRelation::Parent,
        (relation_text(r) == "GRAND_PARENT"@) <==> r == FamilyRelation::GrandParent,
        (relation_text(r) == "CHILD"@) <==> r == FamilyRelation::Child,
        (relation_text(r) == "UNDLE"@) <==> r == FamilyRelation::Uncle,
        (relation_text(r) == "AUNT"@) <==> r == FamilyRelation::Aunt,
        (relation_text(r) == "SISTER"@) <==> r == FamilyRelation::Sister,
        (relation_text(r) == "BROTHER"@) <==> r == FamilyRelation::Brother,
        (relation_text(r) == "OTHER"@) <==> r == FamilyRelation::Other,
{
    reveal_strlit("PARENT");
    reveal_strlit("GRAND_PARENT");
    reveal_strlit("CHILD");
    reveal_strlit("UNDLE");
    reveal_strlit("AUNT");
    reveal_strlit("SISTER");
    reveal_strlit("BROTHER");
    reveal_strlit("OTHER");
    assert("PARENT"@[0] == 'P');
    assert("GRAND_PARENT"@[0] == 'G');
    assert("CHILD"@[0] == 'C');
    assert("UNDLE"@[0] == 'U');
    assert("AUNT"@[0] == 'A');
    assert("SISTER"@[0] == 'S');
    assert("BROTHER"@[0] == 'B');
    assert("OTHER"@[0] == 'O');
}

// ---------------------------------------------------------------------------
// The family model
// ---------------------------------------------------------------------------

/// A member of a family.
#[derive(Debug, Clone)]
pub struct FamilyMember {
    pub username: String,
    pub relation: FamilyRelation,
    pub is_admin: bool,
}

/// A family with its members.
#[derive(Debug, Clone)]
pub struct Family {
    pub id: i32,
    pub name: String,
    pub creator_username: String,
    pub members: Vec<FamilyMember>,
    pub active: bool,
}

/// The mathematical value of a family.
pub struct FamilyValue {
    pub id: i32,
    pub name: String,
    pub creator_username: String,
    pub members: Seq<FamilyMember>,
    pub active: bool,
}

impl View for Family {
    type V = FamilyValue;

    open spec fn view(&self) -> FamilyValue {
        FamilyValue {
            id: self.id,
            name: self.name,
            creator_username: self.creator_username,
            members: self.members@,
            active: self.active,
        }
    }
}

/// The values of a list of families.
pub open spec fn family_values(v: Seq<Family>) -> Seq<FamilyValue> {
    v.map_values(|f: Family| f@)
}

/// A member to add when creating a family.
pub struct CreateFamilyMemberCommand {
    pub username_or_email: String,
    pub relation: FamilyRelation,
    pub is_admin: bool,
}

/// What is needed to create a family.
pub struct CreateFamilyCommand {
    pub name: String,
    pub creator_relation: FamilyRelation,
    pub members: Vec<CreateFamilyMemberCommand>,
}

// ---------------------------------------------------------------------------
// Errors
// ---------------------------------------------------------------------------

/// Why a family could not be created.
#[derive(Debug)]
pub enum CreateFamilyError {
    /// The user already has a family of that name.
    AlreadyExists { name: String },
    /// The repository failed.
    Repository { name: String, source: RepositoryError },
}

/// Why the families of a user could not be read.
#[derive(Debug)]
pub enum GetFamiliesError {
    Repository { username: String, source: RepositoryError },
}

impl CreateFamilyError {
    /// The message of the error.
    pub open spec fn message_spec(&self) -> Seq<char> {
        match self {
            CreateFamilyError::AlreadyExists { name } => "family already exists: "@ + name@,
            CreateFamilyError::Repository { name, .. } => "repository failure while creating family (name="@
                + name@ + ")"@,
        }
    }

    /// The message of the error.
    pub fn message(&self) -> (r: String)
        ensures
            r@ == self.message_spec(),
    {
        match self {
            CreateFamilyError::AlreadyExists { name } => joined("family already exists: ", name.as_str()),
            CreateFamilyError::Repository { name, .. } => {
                let mut s = joined("repository failure while creating family (name=", name.as_str());
                s.append(")");
                s
            },
        }
    }

    /// The messages of the errors that caused this one, outermost first.
    pub open spec fn sources_spec(&self) -> Seq<Seq<char>> {
        match self {
            CreateFamilyError::AlreadyExists { .. } => seq![],
            CreateFamilyError::Repository { source, .. } => seq![source.message_spec()]
                + source.sources_spec(),
        }
    }

    /// The messages of the errors that caused this one, outermost first.
    pub fn sources(&self) -> (r: Vec<String>)
        ensures
            r@.map_values(|s: String| s@) == self.sources_spec(),
    {
        match self {
            CreateFamilyError::AlreadyExists { .. } => {
                let v: Vec<String> = Vec::new();
                proof {
                    assert(v@.map_values(|s: String| s@) =~= self.sources_spec());
                }
                v
            },
            CreateFamilyError::Repository { source, .. } => chain_of(source),
        }
    }

    /// The error is `AlreadyExists`.
    pub fn is_already_exists(&self) -> (r: bool)
        ensures
            r == (*self is AlreadyExists),
    {
        match self {
            CreateFamilyError::AlreadyExists { .. } => true,
            _ => false,
        }
    }
}

/// The message of a repository error followed by those of its sources.
pub fn chain_of(source: &RepositoryError) -> (r: Vec<String>)
    ensures
        r@.map_values(|s: String| s@) == seq![source.message_spec()] + source.sources_spec(),
{
    let mut v: Vec<String> = Vec::new();
    v.push(source.message());
    let mut rest = source.sources();
    v.append(&mut rest);
    proof {
        assert(v@.map_values(|s: String| s@) =~= seq![source.message_spec()] + source.sources_spec());
    }
    v
}

impl GetFamiliesError {
    /// The message of the error.
    pub open spec fn message_spec(&self) -> Seq<char> {
        match self {
            GetFamiliesError::Repository { username, .. } => "repository failure while fetching families (username="@
                + username@ + ")"@,
        }
    }

    /// The message of the error.
    pub fn message(&self) -> (r: String)
        ensures
            r@ == self.message_spec(),
    {
        match self {
            GetFamiliesError::Repository { username, .. } => {
                let mut s = joined(
                    "repository failure while fetching families (username=",
                    username.as_str(),
                );
                s.append(")");
                s
            },
        }
    }

    /// The messages of the errors that caused this one, outermost first.
    pub open spec fn sources_spec(&self) -> Seq<Seq<char>> {
        match self {
            GetFamiliesError::Repository { source, .. } => seq![source.message_spec()]
                + source.sources_spec(),
        }
    }

    /// The messages of the errors that caused this one, outermost first.
    pub fn sources(&self) -> (r: Vec<String>)
        ensures
            r@.map_values(|s: String| s@) == self.sources_spec(),
    {
        match self {
            GetFamiliesError::Repository { source, .. } => chain_of(source),
        }
    }
}

impl ApplicationError for CreateFamilyError {
    fn get_message(&self) -> (r: String)
        ensures
            r@ == self.message_spec(),
    {
        self.message()
    }
}

impl ApplicationError for GetFamiliesError {
    fn get_message(&self) -> (r: String)
        ensures
            r@ == self.message_spec(),
    {
        self.message()
    }
}

// ---------------------------------------------------------------------------
// Requests and inputs
// ---------------------------------------------------------------------------

/// A member of a family creation request.
pub struct CreateFamilyMemberRequest {
    pub username_or_email: String,
    pub relation: String,
    pub is_admin: bool,
}

/// A family creation request.
pub struct CreateFamilyRequest {
    pub name: String,
    pub creator_relation: String,
    pub members: Vec<CreateFamilyMemberRequest>,
}

/// A member as the creation use case receives it.
pub struct CreateFamilyMemberInput {
    pub username_or_email: String,
    pub relation: String,
    pub is_admin: bool,
}

/// The input a request member becomes.
pub open spec fn input_of_request(m: CreateFamilyMemberRequest) -> CreateFamilyMemberInput {
    CreateFamilyMemberInput {
        username_or_email: m.username_or_email,
        relation: m.relation,
        is_admin: m.is_admin,
    }
}

/// The members of a request, as the creation use case receives them, in order.
pub fn member_inputs(members: Vec<CreateFamilyMemberRequest>) -> (r: Vec<CreateFamilyMemberInput>)
    ensures
        r@ == members@.map_values(|m: CreateFamilyMemberRequest| input_of_request(m)),
{
    let mut members = members;
    let ghost all = members@;
    let mut rev: Vec<CreateFamilyMemberInput> = Vec::new();
    while members.len() > 0
        invariant
            all.len() == members@.len() + rev@.len(),
            members@ == all.take(members@.len() as int),
            forall|j: int|
                0 <= j < rev@.len() ==> rev@[j] == input_of_request(all[all.len() - 1 - j]),
        decreases members.len(),
    {
        let m = members.pop().unwrap();
        proof {
            assert(m == all[members@.len() as int]);
            assert(members@ =~= all.take(members@.len() as int));
        }
        rev.push(
            CreateFamilyMemberInput {
                username_or_email: m.username_or_email,
                relation: m.relation,
                is_admin: m.is_admin,
            },
        );
    }
    let mut r: Vec<CreateFamilyMemberInput> = Vec::new();
    while rev.len() > 0
        invariant
            all.len() == r@.len() + rev@.len(),
            forall|j: int| 0 <= j < r@.len() ==> r@[j] == input_of_request(all[j]),
            forall|j: int|
                0 <= j < rev@.len() ==> rev@[j] == input_of_request(all[all.len() - 1 - j]),
        decreases rev.len(),
    {
        let x = rev.pop().unwrap();
        r.push(x);
    }
    proof {
        assert(r@ =~= all.map_values(|m: CreateFamilyMemberRequest| input_of_request(m)));
    }
    r
}

/// The command member an input becomes.
pub open spec fn command_member_of(m: CreateFamilyMemberInput) -> CreateFamilyMemberCommand {
    CreateFamilyMemberCommand {
        username_or_email: m.username_or_email,
        relation: relation_of(m.relation@),
        is_admin: m.is_admin,
    }
}

/// The command that creates a family: the relations are read with `from_str`,
/// the members kept in order.
pub fn create_family_command(name: String, creator_relation: &String, members: Vec<CreateFamilyMemberInput>) -> (r:
    CreateFamilyCommand)
    ensures
        r.name == name,
        r.creator_relation == relation_of(creator_relation@),
        r.members@ == members@.map_values(|m: CreateFamilyMemberInput| command_member_of(m)),
{
    let mut members = members;
    let ghost all = members@;
    let mut rev: Vec<CreateFamilyMemberCommand> = Vec::new();
    while members.len() > 0
        invariant
            all.len() == members@.len() + rev@.len(),
            members@ == all.take(members@.len() as int),
            forall|j: int|
                0 <= j < rev@.len() ==> rev@[j] == command_member_of(all[all.len() - 1 - j]),
        decreases members.len(),
    {
        let m = members.pop().unwrap();
        proof {
            assert(m == all[members@.len() as int]);
            assert(members@ =~= all.take(members@.len() as int));
        }
        let relation = from_str(&m.relation);
        rev.push(
            CreateFamilyMemberCommand {
                username_or_email: m.username_or_email,
                relation,
                is_admin: m.is_admin,
            },
        );
    }
    let mut out: Vec<CreateFamilyMemberCommand> = Vec::new();
    while rev.len() > 0
        invariant
            all.len() == out@.len() + rev@.len(),
            forall|j: int| 0 <= j < out@.len() ==> out@[j] == command_member_of(all[j]),
            forall|j: int|
                0 <= j < rev@.len() ==> rev@[j] == command_member_of(all[all.len() - 1 - j]),
        decreases rev.len(),
    {
        let x = rev.pop().unwrap();
        out.push(x);
    }
    proof {
        assert(out@ =~= all.map_values(|m: CreateFamilyMemberInput| command_member_of(m)));
    }
    CreateFamilyCommand { name, creator_relation: from_str(creator_relation), members: out }
}

/// What the families endpoint shows of a family.
pub struct FamilyView {
    pub name: String,
}

/// The views of a list of families: their names, in order.
pub fn family_views(families: &Vec<Family>) -> (r: Vec<FamilyView>)
    ensures
        r@.len() == families@.len(),
        forall|i: int| 0 <= i < r@.len() ==> r@[i].name == families@[i].name,
{
    let mut r: Vec<FamilyView> = Vec::new();
    let mut i: usize = 0;
    while i < families.len()
        invariant
            i <= families.len(),
            r@.len() == i,
            forall|j: int| 0 <= j < i ==> r@[j].name == families@[j].name,
        decreases families.len() - i,
    {
        r.push(FamilyView { name: families[i].name.clone() });
        i = i + 1;
    }
    r
}

// ---------------------------------------------------------------------------
// Rows read from the database
// ---------------------------------------------------------------------------

/// One row of the families query: a family and one of its members.
#[derive(Debug)]
pub struct FamilyEntity {
    pub id: i32,
    pub name: String,
    pub creator_id: i32,
    pub active: bool,
    pub user_id: i32,
    pub username: String,
    pub relation: String,
    pub is_admin: bool,
}

/// One row of the family members table.
#[derive(Debug)]
pub struct FamilyMemberEntity {
    pub id: i32,
    pub family_id: i32,
    pub user_id: i32,
    pub role: Option<String>,
}

/// A user as the user lookup returns it.
#[derive(Debug)]
pub struct UserRecord {
    pub id: i32,
    pub username: Option<String>,
    pub email: Option<String>,
}

fn copy_entity(e: &FamilyEntity) -> (r: FamilyEntity)
    ensures
        r == *e,
{
    FamilyEntity {
        id: e.id,
        name: e.name.clone(),
        creator_id: e.creator_id,
        active: e.active,
        user_id: e.user_id,
        username: e.username.clone(),
        relation: e.relation.clone(),
        is_admin: e.is_admin,
    }
}

/// The row's member is the family's creator.
pub open spec fn is_creator_row(e: FamilyEntity) -> bool {
    e.creator_id == e.user_id
}

/// The position of the first creator row, or -1.
pub open spec fn first_creator(es: Seq<FamilyEntity>) -> int
    decreases es.len(),
{
    if es.len() == 0 {
        -1
    } else if is_creator_row(es[0]) {
        0
    } else {
        let r = first_creator(es.drop_first());
        if r < 0 {
            -1
        } else {
            r + 1
        }
    }
}

proof fn lemma_first_creator(es: Seq<FamilyEntity>)
    ensures
        -1 <= first_creator(es) < es.len(),
        first_creator(es) >= 0 ==> is_creator_row(es[first_creator(es)]),
        first_creator(es) < 0 <==> forall|j: int| 0 <= j < es.len() ==> !is_creator_row(es[j]),
        forall|j: int| 0 <= j < first_creator(es) ==> !is_creator_row(es[j]),
    decreases es.len(),
{
    if es.len() > 0 {
        lemma_first_creator(es.drop_first());
        assert forall|j: int| 1 <= j < es.len() implies es[j] == es.drop_first()[j - 1] by {}
    }
}

/// The member a row describes.
pub open spec fn member_of(e: FamilyEntity) -> FamilyMember {
    FamilyMember { username: e.username, relation: relation_of(e.relation@), is_admin: e.is_admin }
}

/// The rows of one family hold at least one row and a creator row.
pub open spec fn describes_family(es: Seq<FamilyEntity>) -> bool {
    es.len() > 0 && first_creator(es) >= 0
}

/// The family the rows of one family describe: its id, name and activity from
/// the first row, its creator from the first creator row, one member per row.
pub open spec fn family_of(es: Seq<FamilyEntity>) -> FamilyValue {
    FamilyValue {
        id: es[0].id,
        name: es[0].name,
        creator_username: es[first_creator(es)].username,
        members: es.map_values(|e: FamilyEntity| member_of(e)),
        active: es[0].active,
    }
}

/// A family built from its rows has one member per row, in the rows' order,
/// each with the row's username, stored admin flag and relation read from the
/// row's text; the creator is the member of a row whose user created the
/// family.
pub proof fn lemma_family_members(es: Seq<FamilyEntity>)
    requires
        describes_family(es),
    ensures
        family_of(es).members.len() == es.len(),
        forall|i: int|
            0 <= i < es.len() ==> (#[trigger] family_of(es).members[i]).is_admin == es[i].is_admin
                && family_of(es).members[i].username == es[i].username
                && family_of(es).members[i].relation == relation_of(es[i].relation@),
        exists|j: int|
            0 <= j < es.len() && (#[trigger] es[j]).creator_id == es[j].user_id
                && family_of(es).creator_username == es[j].username,
{
    lemma_first_creator(es);
    let j = first_creator(es);
    assert(es[j].creator_id == es[j].user_id);
}

/// The ids of groups of rows, by their first rows.
pub open spec fn group_ids(groups: Seq<Seq<FamilyEntity>>) -> Seq<i32> {
    groups.map_values(|g: Seq<FamilyEntity>| g[0].id)
}

/// The rows grouped by family id, in the order in which the families first
/// appear, each group keeping the order of its rows.
pub open spec fn group_by_family(rows: Seq<FamilyEntity>) -> Seq<Seq<FamilyEntity>>
    decreases rows.len(),
{
    if rows.len() == 0 {
        Seq::empty()
    } else {
        let groups = group_by_family(rows.drop_last());
        let k = crate::domains::bank_account::first_position(group_ids(groups), rows.last().id);
        if k < 0 {
            groups.push(seq![rows.last()])
        } else {
            groups.update(k, groups[k].push(rows.last()))
        }
    }
}

/// Each group of `group_by_family` holds at least one row, and every row of
/// a group has the group's id.
pub proof fn lemma_group_by_family(rows: Seq<FamilyEntity>)
    ensures
        forall|g: int|
            0 <= g < group_by_family(rows).len() ==> #[trigger] group_by_family(rows)[g].len() > 0,
        forall|g: int, j: int|
            0 <= g < group_by_family(rows).len() && 0 <= j < group_by_family(rows)[g].len()
                ==> #[trigger] group_by_family(rows)[g][j].id == group_by_family(rows)[g][0].id,
    decreases rows.len(),
{
    if rows.len() > 0 {
        lemma_group_by_family(rows.drop_last());
        let groups = group_by_family(rows.drop_last());
        let ids = group_ids(groups);
        crate::domains::bank_account::lemma_first_position(ids, rows.last().id);
        let k = crate::domains::bank_account::first_position(ids, rows.last().id);
        if k >= 0 {
            assert(ids[k] == groups[k][0].id);
        }
    }
}

/// The family ids of the rows.
pub open spec fn row_family_ids(rows: Seq<FamilyEntity>) -> Seq<i32> {
    rows.map_values(|e: FamilyEntity| e.id)
}

/// Grouping gives one group per family id, in the order in which the ids
/// first appear among the rows, so that no two groups share an id.
pub proof fn lemma_group_ids(rows: Seq<FamilyEntity>)
    ensures
        group_ids(group_by_family(rows)) == crate::domains::bank_account::distinct_in_order(
            row_family_ids(rows),
        ),
        group_ids(group_by_family(rows)).no_duplicates(),
    decreases rows.len(),
{
    if rows.len() > 0 {
        let prev = rows.drop_last();
        let last = rows.last();
        lemma_group_ids(prev);
        lemma_group_by_family(prev);
        let groups = group_by_family(prev);
        let ids = group_ids(groups);
        crate::domains::bank_account::lemma_first_position(ids, last.id);
        crate::domains::bank_account::lemma_distinct_in_order(row_family_ids(prev));
        assert(row_family_ids(rows).drop_last() =~= row_family_ids(prev));
        assert(row_family_ids(rows).last() == last.id);
        let k = crate::domains::bank_account::first_position(ids, last.id);
        if k < 0 {
            assert(group_ids(groups.push(seq![last])) =~= ids.push(last.id));
        } else {
            assert(groups[k].len() > 0);
            assert(group_ids(groups.update(k, groups[k].push(last))) =~= ids);
        }
    }
    crate::domains::bank_account::lemma_distinct_in_order(row_family_ids(rows));
}

/// The position of the first group whose first row has the id, if any.
fn find_group(groups: &Vec<Vec<FamilyEntity>>, id: i32) -> (r: Option<usize>)
    requires
        forall|g: int| 0 <= g < groups@.len() ==> #[trigger] groups@[g]@.len() > 0,
    ensures
        match r {
            Some(k) => k < groups@.len() && k as int == crate::domains::bank_account::first_position(
                group_ids(groups@.map_values(|g: Vec<FamilyEntity>| g@)),
                id,
            ),
            None => crate::domains::bank_account::first_position(
                group_ids(groups@.map_values(|g: Vec<FamilyEntity>| g@)),
                id,
            ) < 0,
        },
{
    let ghost ids = group_ids(groups@.map_values(|g: Vec<FamilyEntity>| g@));
    proof {
        crate::domains::bank_account::lemma_first_position(ids, id);
    }
    let mut i: usize = 0;
    while i < groups.len()
        invariant
            i <= groups.len(),
            ids == group_ids(groups@.map_values(|g: Vec<FamilyEntity>| g@)),
            ids.len() == groups@.len(),
            forall|g: int| 0 <= g < groups@.len() ==> #[trigger] groups@[g]@.len() > 0,
            forall|j: int| 0 <= j < i ==> ids[j] != id,
            -1 <= crate::domains::bank_account::first_position(ids, id) < ids.len(),
            crate::domains::bank_account::first_position(ids, id) >= 0 ==> ids[crate::domains::bank_account::first_position(ids, id)] == id,
            forall|j: int| 0 <= j < crate::domains::bank_account::first_position(ids, id) ==> ids[j] != id,
            crate::domains::bank_account::first_position(ids, id) < 0 <==> !ids.contains(id),
        decreases groups.len() - i,
    {
        proof {
            assert(groups@[i as int]@.len() > 0);
            assert(ids[i as int] == groups@[i as int]@[0].id);
        }
        if groups[i][0].id == id {
            proof {
                let f = crate::domains::bank_account::first_position(ids, id);
                assert(ids.contains(id) ==> f >= 0);
                assert(ids[i as int] == id);
                if f > i as int {
                    assert(ids[i as int] != id);
                }
                if 0 <= f < i as int {
                    assert(ids[f] != id);
                }
            }
            return Some(i);
        }
        i = i + 1;
    }
    proof {
        if ids.contains(id) {
            let j = choose|j: int| 0 <= j < ids.len() && ids[j] == id;
            assert(ids[j] != id);
        }
    }
    None
}

/// Reads the families of a user and creates families.
pub struct SqlxFamilyRepository;

impl SqlxFamilyRepository {
    /// Some row of the family's rows is its creator's.
    pub fn has_creator_row(&self, families: &Vec<FamilyEntity>) -> (r: bool)
        ensures
            r == (first_creator(families@) >= 0),
    {
        proof {
            lemma_first_creator(families@);
        }
        let mut i: usize = 0;
        while i < families.len()
            invariant
                i <= families.len(),
                forall|j: int| 0 <= j < i ==> !is_creator_row(families@[j]),
            decreases families.len() - i,
        {
            if families[i].creator_id == families[i].user_id {
                proof {
                    lemma_first_creator(families@);
                    assert(is_creator_row(families@[i as int]));
                }
                return true;
            }
            i = i + 1;
        }
        false
    }

    /// The family the rows of one family describe (see `family_of`).
    pub fn to_family(&self, families: Vec<FamilyEntity>) -> (r: Family)
        requires
            describes_family(families@),
        ensures
            r@ == family_of(families@),
            r@.members.len() == families@.len(),
            forall|i: int|
                0 <= i < families@.len() ==> (#[trigger] r@.members[i]).is_admin == families@[i].is_admin
                    && r@.members[i].username == families@[i].username,
            r@.id == families@[0].id,
            r@.name == families@[0].name,
    {
        proof {
            lemma_first_creator(families@);
            lemma_family_members(families@);
        }
        let mut creator: usize = 0;
        while families[creator].creator_id != families[creator].user_id
            invariant
                creator <= first_creator(families@),
                describes_family(families@),
                first_creator(families@) < families@.len(),
                is_creator_row(families@[first_creator(families@)]),
                forall|j: int| 0 <= j < first_creator(families@) ==> !is_creator_row(families@[j]),
            decreases first_creator(families@) - creator,
        {
            proof {
                if creator as int == first_creator(families@) {
                    assert(is_creator_row(families@[creator as int]));
                }
            }
            creator = creator + 1;
        }
        let creator_username = families[creator].username.clone();
        let mut members: Vec<FamilyMember> = Vec::new();
        let mut i: usize = 0;
        while i < families.len()
            invariant
                i <= families.len(),
                members@ == families@.take(i as int).map_values(|e: FamilyEntity| member_of(e)),
            decreases families.len() - i,
        {
            let f = &families[i];
            let m = FamilyMember {
                username: f.username.clone(),
                relation: from_str(&f.relation),
                is_admin: f.is_admin,
            };
            members.push(m);
            proof {
                assert(families@.take(i + 1) =~= families@.take(i as int).push(families@[i as int]));
                assert(members@ =~= families@.take(i + 1).map_values(|e: FamilyEntity| member_of(e)));
            }
            i = i + 1;
        }
        proof {
            assert(families@.take(families@.len() as int) =~= families@);
        }
        Family {
            id: families[0].id,
            name: families[0].name.clone(),
            creator_username,
            members,
            active: families[0].active,
        }
    }

    /// Groups the rows of the families query by family, in the order in which
    /// the families first appear (see `group_by_family`).
    pub fn group_entities(&self, entities: &Vec<FamilyEntity>) -> (r: Vec<Vec<FamilyEntity>>)
        ensures
            r@.map_values(|g: Vec<FamilyEntity>| g@) == group_by_family(entities@),
    {
        let mut groups: Vec<Vec<FamilyEntity>> = Vec::new();
        let mut i: usize = 0;
        proof {
            assert(entities@.take(0) =~= Seq::<FamilyEntity>::empty());
            assert(groups@.map_values(|g: Vec<FamilyEntity>| g@) =~= Seq::<Seq<FamilyEntity>>::empty());
        }
        while i < entities.len()
            invariant
                i <= entities.len(),
                groups@.map_values(|g: Vec<FamilyEntity>| g@) == group_by_family(entities@.take(i as int)),
            decreases entities.len() - i,
        {
            let e = copy_entity(&entities[i]);
            let ghost before = groups@.map_values(|g: Vec<FamilyEntity>| g@);
            let ghost ids = group_ids(before);
            proof {
                assert(entities@.take(i + 1).drop_last() =~= entities@.take(i as int));
                assert(entities@.take(i + 1).last() == e);
                lemma_group_by_family(entities@.take(i as int));
                assert forall|g: int| 0 <= g < groups@.len() implies #[trigger] groups@[g]@.len() > 0 by {
                    assert(before[g] == groups@[g]@);
                }
            }
            let found_at = find_group(&groups, e.id);
            if let Some(k) = found_at {
                groups[k].push(e);
                proof {
                    assert(groups@.map_values(|g: Vec<FamilyEntity>| g@) =~= before.update(
                        k as int,
                        before[k as int].push(e),
                    ));
                }
            } else {
                let mut g: Vec<FamilyEntity> = Vec::new();
                g.push(e);
                groups.push(g);
                proof {
                    assert(g@ =~= seq![e]);
                    assert(groups@.map_values(|g: Vec<FamilyEntity>| g@) =~= before.push(seq![e]));
                }
            }
            i = i + 1;
        }
        proof {
            assert(entities@.take(entities@.len() as int) =~= entities@);
        }
        groups
    }

    /// The families the rows of the families query describe, one per family
    /// id in the order of their first rows; `None` when a family has no
    /// creator row.
    pub fn families_from_entities(&self, entities: &Vec<FamilyEntity>) -> (r: Option<Vec<Family>>)
        ensures
            r is Some <==> forall|g: int|
                0 <= g < group_by_family(entities@).len() ==> describes_family(
                    #[trigger] group_by_family(entities@)[g],
                ),
            r matches Some(fs) ==> family_values(fs@) == group_by_family(entities@).map_values(
                |g: Seq<FamilyEntity>| family_of(g),
            ),
    {
        let mut groups = self.group_entities(entities);
        let ghost gs = group_by_family(entities@);
        proof {
            lemma_group_by_family(entities@);
        }
        let mut families: Vec<Family> = Vec::new();
        let mut i: usize = 0;
        let n = groups.len();
        let mut rest: Vec<Vec<FamilyEntity>> = Vec::new();
        // Take the groups out in reverse, to hand each one over by value.
        while groups.len() > 0
            invariant
                groups@.len() + rest@.len() == n,
                n == gs.len(),
                forall|j: int| 0 <= j < groups@.len() ==> groups@[j]@ == gs[j],
                forall|j: int| 0 <= j < rest@.len() ==> rest@[j]@ == gs[n - 1 - j],
            decreases groups.len(),
        {
            let g = groups.pop().unwrap();
            rest.push(g);
        }
        while rest.len() > 0
            invariant
                i == families@.len(),
                i + rest@.len() == n,
                n == gs.len(),
                gs == group_by_family(entities@),
                forall|j: int| 0 <= j < rest@.len() ==> rest@[j]@ == gs[n - 1 - j],
                forall|j: int| 0 <= j < i ==> describes_family(#[trigger] gs[j]),
                forall|j: int| 0 <= j < i ==> #[trigger] families@[j]@ == family_of(gs[j]),
                forall|g: int| 0 <= g < gs.len() ==> #[trigger] gs[g].len() > 0,
            decreases rest.len(),
        {
            let g = rest.pop().unwrap();
            proof {
                assert(g@ == gs[i as int]);
            }
            if !self.has_creator_row(&g) {
                proof {
                    assert(!describes_family(group_by_family(entities@)[i as int]));
                }
                return None;
            }
            let f = self.to_family(g);
            families.push(f);
            i = i + 1;
        }
        proof {
            assert(family_values(families@) =~= gs.map_values(|g: Seq<FamilyEntity>| family_of(g)));
        }
        Some(families)
    }

    /// The family found by name: a missing row when the query returned none.
    pub fn family_from_entities(&self, entities: Vec<FamilyEntity>) -> (r: Result<Family, DbError>)
        requires
            entities@.len() == 0 || first_creator(entities@) >= 0,
        ensures
            entities@.len() == 0 ==> (r matches Err(e) && e is RowNotFound),
            entities@.len() > 0 ==> (r matches Ok(f) && f@ == family_of(entities@)),
    {
        if entities.len() == 0 {
            return Err(DbError::RowNotFound);
        }
        Ok(self.to_family(entities))
    }

    /// The names to look users up by when creating a family: each member's
    /// username or email, in order, then the creator's username.
    pub fn lookup_usernames(&self, command: &CreateFamilyCommand, username: &str) -> (r: Vec<String>)
        ensures
            r@.len() == command.members@.len() + 1,
            forall|i: int|
                0 <= i < command.members@.len() ==> r@[i] == command.members@[i].username_or_email,
            r@[command.members@.len() as int]@ == username@,
    {
        let mut names: Vec<String> = Vec::new();
        let mut i: usize = 0;
        while i < command.members.len()
            invariant
                i <= command.members.len(),
                names@.len() == i,
                forall|j: int| 0 <= j < i ==> names@[j] == command.members@[j].username_or_email,
            decreases command.members.len() - i,
        {
            names.push(command.members[i].username_or_email.clone());
            i = i + 1;
        }
        names.push(String::from_str(username));
        names
    }

    /// The position of the first user whose username or email matches `name`
    /// without regard to case, or -1.
    pub open spec fn first_matching_user(users: Seq<UserRecord>, name: Seq<char>) -> int
        decreases users.len(),
    {
        if users.len() == 0 {
            -1
        } else if Self::user_matches(users[0], name) {
            0
        } else {
            let r = Self::first_matching_user(users.drop_first(), name);
            if r < 0 {
                -1
            } else {
                r + 1
            }
        }
    }

    /// The user's username or email equals `name` once both are lowercased.
    pub open spec fn user_matches(u: UserRecord, name: Seq<char>) -> bool {
        ||| u.username is Some && lowercased(u.username->0@) == lowercased(name)
        ||| u.email is Some && lowercased(u.email->0@) == lowercased(name)
    }

    proof fn lemma_first_matching_user(users: Seq<UserRecord>, name: Seq<char>)
        ensures
            -1 <= Self::first_matching_user(users, name) < users.len(),
            Self::first_matching_user(users, name) >= 0 ==> Self::user_matches(
                users[Self::first_matching_user(users, name)],
                name,
            ),
            Self::first_matching_user(users, name) < 0 ==> forall|j: int|
                0 <= j < users.len() ==> !Self::user_matches(users[j], name),
            forall|j: int|
                0 <= j < Self::first_matching_user(users, name) ==> !Self::user_matches(
                    users[j],
                    name,
                ),
        decreases users.len(),
    {
        if users.len() > 0 {
            Self::lemma_first_matching_user(users.drop_first(), name);
            assert forall|j: int| 1 <= j < users.len() implies users[j] == users.drop_first()[j
                - 1] by {}
        }
    }

    /// The position of the first user matching `name`, if any.
    fn find_user(users: &Vec<UserRecord>, name: &str) -> (r: Option<usize>)
        ensures
            match r {
                Some(k) => k < users@.len() && k as int == Self::first_matching_user(users@, name@),
                None => Self::first_matching_user(users@, name@) < 0,
            },
    {
        proof {
            Self::lemma_first_matching_user(users@, name@);
        }
        let wanted = lowercase_text(name);
        let mut i: usize = 0;
        while i < users.len()
            invariant
                i <= users.len(),
                wanted@ == lowercased(name@),
                forall|j: int| 0 <= j < i ==> !Self::user_matches(users@[j], name@),
                -1 <= Self::first_matching_user(users@, name@) < users@.len(),
                Self::first_matching_user(users@, name@) >= 0 ==> Self::user_matches(
                    users@[Self::first_matching_user(users@, name@)],
                    name@,
                ),
                Self::first_matching_user(users@, name@) < 0 ==> forall|j: int|
                    0 <= j < users@.len() ==> !Self::user_matches(users@[j], name@),
                forall|j: int|
                    0 <= j < Self::first_matching_user(users@, name@) ==> !Self::user_matches(
                        users@[j],
                        name@,
                    ),
            decreases users.len() - i,
        {
            let u = &users[i];
            let by_name = match &u.username {
                Some(n) => {
                    let l = lowercase_text(n.as_str());
                    l == wanted
                },
                None => false,
            };
            let by_email = match &u.email {
                Some(m) => {
                    let l = lowercase_text(m.as_str());
                    l == wanted
                },
                None => false,
            };
            proof {
                assert(by_name == (u.username is Some && lowercased(u.username->0@) == lowercased(name@)));
                assert(by_email == (u.email is Some && lowercased(u.email->0@) == lowercased(name@)));
            }
            if by_name || by_email {
                proof {
                    let f = Self::first_matching_user(users@, name@);
                    assert(Self::user_matches(users@[i as int], name@));
                    if f < 0 {
                        assert(!Self::user_matches(users@[i as int], name@));
                    }
                    if f > i {
                        assert(!Self::user_matches(users@[i as int], name@));
                    }
                    if f < i {
                        assert(!Self::user_matches(users@[f], name@));
                    }
                }
                return Some(i);
            }
            proof {
                assert(!Self::user_matches(users@[i as int], name@));
            }
            i = i + 1;
        }
        proof {
            let f = Self::first_matching_user(users@, name@);
            if f >= 0 {
                assert(!Self::user_matches(users@[f], name@));
            }
        }
        None
    }

    /// The id of the creator among the users found: the first whose username
    /// or email matches the creator's username without regard to case; a
    /// missing row when none does.
    pub fn get_creator_id(&self, username: &str, users: &Vec<UserRecord>) -> (r: Result<i32, DbError>)
        ensures
            Self::first_matching_user(users@, username@) < 0 ==> (r matches Err(e) && e is RowNotFound),
            Self::first_matching_user(users@, username@) >= 0 ==> r == Ok::<i32, DbError>(
                users@[Self::first_matching_user(users@, username@)].id,
            ),
    {
        match Self::find_user(users, username) {
            Some(k) => Ok(users[k].id),
            None => Err(DbError::RowNotFound),
        }
    }

    /// How each member of a new family is added: the first known user that
    /// matches the member without regard to case, or a new user to create
    /// under the member's username or email; with the member's relation text
    /// and admin flag, in the members' order.
    pub fn plan_family_members(&self, command: &CreateFamilyCommand, users: &Vec<UserRecord>) -> (r: Vec<
        MemberPlan,
    >)
        ensures
            r@.len() == command.members@.len(),
            forall|i: int|
                0 <= i < r@.len() ==> Self::plan_matches(
                    #[trigger] r@[i],
                    command.members@[i],
                    users@,
                ),
            forall|i: int|
                0 <= i < r@.len() ==> (#[trigger] r@[i]).is_admin == command.members@[i].is_admin,
            forall|i: int|
                0 <= i < r@.len() ==> ((#[trigger] r@[i]).user matches MemberUser::New(n) ==> n
                    == command.members@[i].username_or_email),
    {
        let mut plans: Vec<MemberPlan> = Vec::new();
        let mut i: usize = 0;
        while i < command.members.len()
            invariant
                i <= command.members.len(),
                plans@.len() == i,
                forall|j: int| 0 <= j < i ==> (#[trigger] plans@[j]).is_admin == command.members@[j].is_admin,
                forall|j: int|
                    0 <= j < i ==> ((#[trigger] plans@[j]).user matches MemberUser::New(n) ==> n
                        == command.members@[j].username_or_email),
                forall|j: int|
                    0 <= j < i ==> Self::plan_matches(
                        #[trigger] plans@[j],
                        command.members@[j],
                        users@,
                    ),
            decreases command.members.len() - i,
        {
            let member = &command.members[i];
            let user = match Self::find_user(users, member.username_or_email.as_str()) {
                Some(k) => MemberUser::Existing(users[k].id),
                None => MemberUser::New(member.username_or_email.clone()),
            };
            plans.push(
                MemberPlan {
                    user,
                    relation: String::from_str(member.relation.as_str()),
                    is_admin: member.is_admin,
                },
            );
            i = i + 1;
        }
        plans
    }

    /// A planned member keeps the admin flag requested for it, and a member
    /// added as a new user is named by its username or email.
    pub proof fn lemma_plan_keeps_request(p: MemberPlan, m: CreateFamilyMemberCommand, users: Seq<UserRecord>)
        requires
            Self::plan_matches(p, m, users),
        ensures
            p.is_admin == m.is_admin,
            p.user matches MemberUser::New(n) ==> n == m.username_or_email,
    {
        let k = Self::first_matching_user(users, m.username_or_email@);
        if k >= 0 {
            assert(p.user == MemberUser::Existing(users[k].id));
        }
    }

    /// The plan adds the member as its first matching user, or as a new user
    /// named by its username or email.
    pub open spec fn plan_matches(p: MemberPlan, m: CreateFamilyMemberCommand, users: Seq<UserRecord>) -> bool {
        let k = Self::first_matching_user(users, m.username_or_email@);
        &&& p.relation@ == relation_text(m.relation)
        &&& p.is_admin == m.is_admin
        &&& if k >= 0 {
            p.user == MemberUser::Existing(users[k].id)
        } else {
            p.user == MemberUser::New(m.username_or_email)
        }
    }
}

/// Who a new family member is.
#[derive(Debug)]
pub enum MemberUser {
    /// A user that already exists, by id.
    Existing(i32),
    /// A user to create, by username or email.
    New(String),
}

/// How one member of a new family is added.
#[derive(Debug)]
pub struct MemberPlan {
    pub user: MemberUser,
    pub relation: String,
    pub is_admin: bool,
}

} // verus!
