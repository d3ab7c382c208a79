//! What the domains share: calendar dates, visibility, periodicity, rounding
//! modes and the error types.

pub mod dates;
pub mod errors;
pub mod visibility;
