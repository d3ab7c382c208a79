//! The business domains: bank accounts, families, dashboards and calendars,
//! with what they share.

pub mod bank_account;
pub mod calendars;
pub mod common;
pub mod dashboard;
pub mod family;
pub mod family_flow;
