//! Navigator: the family organiser's domain logic (families, bank accounts,
//! dashboards, configuration and error handling), with its contracts proved.

pub mod application;
pub mod config;
pub mod domain;
pub mod domains;
pub mod text;

use vstd::prelude::*;

verus! {

} // verus!
