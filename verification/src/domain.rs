//! The first generation of the domain model: the dashboard and the family
//! owned by its creator.

use vstd::prelude::*;

verus! {

/// What the dashboard of a family shows.
#[allow(non_snake_case)]
#[derive(Debug, PartialEq)]
pub struct Dashboard {
    pub agenda: Vec<String>,
    pub todos: Vec<String>,
    pub weeklyMenu: String,
    pub recipes: Vec<String>,
    pub shopping: String,
}

/// The dashboard holds nothing: no agenda, todo, recipe, menu nor shopping.
pub open spec fn is_empty_dashboard(d: Dashboard) -> bool {
    &&& d.agenda@.len() == 0
    &&& d.todos@.len() == 0
    &&& d.weeklyMenu@.len() == 0
    &&& d.recipes@.len() == 0
    &&& d.shopping@.len() == 0
}

/// A dashboard with nothing on it.
pub fn empty() -> (r: Dashboard)
    ensures
        is_empty_dashboard(r),
{
    Dashboard {
        agenda: Vec::new(),
        todos: Vec::new(),
        weeklyMenu: String::new(),
        recipes: Vec::new(),
        shopping: String::new(),
    }
}

/// A family, by name.
#[derive(Debug)]
pub struct Family {
    pub name: String,
}

/// The role of a user in a family.
#[derive(Clone, Copy, Debug, PartialEq, Eq, Structural)]
pub enum FamilyRole {
    Owner,
}

impl FamilyRole {
    /// The stored text of the role.
    pub fn as_str(&self) -> (r: &'static str)
        ensures
            r@ == "OWNER"@,
    {
        match self {
            FamilyRole::Owner => "OWNER",
        }
    }
}

/// What is needed to create a family.
#[derive(Debug)]
pub struct CreateFamilyCommand {
    pub name: String,
    pub role: FamilyRole,
}

} // verus!
