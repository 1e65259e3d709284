//! Course marketplace and certification logic: course registration and
//! approval, paid enrollment with a platform fee split, completion,
//! certificates, refunds and two-admin governance.

pub mod table;
pub mod types;
pub mod model;
pub mod persist;
pub mod fees;
pub mod contract;
pub mod calls;
pub mod laws;
