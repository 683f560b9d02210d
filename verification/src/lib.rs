//! A small reservation backend modelled as a verified library.
//!
//! Six kinds of record (users, roles, properties, machines, reservations,
//! items) share one generic table with the usual five operations: list,
//! create, fetch by id, update, delete.  The reservations listing can be
//! restricted to a single calendar day, ordered by starting time and capped
//! at ten rows.  Every operation's effect on the table, and the status code
//! and message of the reply it produces, is stated in its contract.

pub mod calendar;
mod clock;
pub mod envelope;
mod ids;
pub mod models;
pub mod schedule;
pub mod service;
pub mod table;

pub use envelope::ErrorResponse;
pub use envelope::SuccessResponse;
pub use table::Row;
pub use table::Table;
