//! A verified model of a minimal CRUD service over a single `User` entity.
//!
//! The library holds the service's logic: the record type and its row
//! mapping, a model of the users table (create, list, update, delete, with
//! the semantics the storage layer guarantees), the SQL statement texts, and
//! the error taxonomy. The HTTP routing and the database round trips live
//! outside the library and exchange plain values with it.

pub mod error;
pub mod laws;
pub mod sql;
pub mod table;
pub mod user;

pub use error::ServiceError;
pub use table::UserTable;
pub use user::{user_from_row, users_from_rows, User};
