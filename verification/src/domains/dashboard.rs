//! What the dashboard endpoint answers.

use crate::domain::Dashboard;
use vstd::prelude::*;

verus! {

/// The dashboard as the endpoint shows it.
#[derive(Debug)]
pub struct DashboardView {
    pub agenda: Vec<String>,
    pub todos: Vec<String>,
    pub weekly_menu: String,
    pub recipes: Vec<String>,
    pub shopping: String,
}

impl DashboardView {
    /// The view of a dashboard: the same lists and texts.
    pub fn from_dashboard(d: Dashboard) -> (r: DashboardView)
        ensures
            r.agenda == d.agenda,
            r.todos == d.todos,
            r.weekly_menu == d.weeklyMenu,
            r.recipes == d.recipes,
            r.shopping == d.shopping,
    {
        DashboardView {
            agenda: d.agenda,
            todos: d.todos,
            weekly_menu: d.weeklyMenu,
            recipes: d.recipes,
            shopping: d.shopping,
        }
    }
}

/// How the dashboard request is answered.
#[derive(Debug)]
pub enum DashboardAnswer {
    /// 200, with the dashboard.
    Shown(DashboardView),
    /// 500, with the message of the use case's error.
    Failed(String),
    /// 500, with no body: no user is connected.
    NoUser,
}

impl DashboardAnswer {
    /// The HTTP status of the answer.
    pub open spec fn status_spec(&self) -> u16 {
        match self {
            DashboardAnswer::Shown(_) => 200,
            _ => 500,
        }
    }

    /// The HTTP status of the answer.
    pub fn status(&self) -> (r: u16)
        ensures
            r == self.status_spec(),
    {
        match self {
            DashboardAnswer::Shown(_) => 200,
            _ => 500,
        }
    }
}

/// Decides the answer to a dashboard request: `None` when no user is
/// connected (the use case is then not asked), else what the use case returned
/// (its error given by its message).
pub fn dashboard_answer(outcome: Option<Result<Dashboard, String>>) -> (r: DashboardAnswer)
    ensures
        match outcome {
            None => r is NoUser,
            Some(Err(m)) => r == DashboardAnswer::Failed(m),
            Some(Ok(d)) => r matches DashboardAnswer::Shown(v) && v.agenda == d.agenda && v.todos
                == d.todos && v.weekly_menu == d.weeklyMenu && v.recipes == d.recipes && v.shopping
                == d.shopping,
        },
{
    match outcome {
        None => DashboardAnswer::NoUser,
        Some(Err(m)) => DashboardAnswer::Failed(m),
        Some(Ok(d)) => DashboardAnswer::Shown(DashboardView::from_dashboard(d)),
    }
}

} // verus!
