//! The SQL statements the service issues: one parameterized statement per
//! operation, plus the idempotent schema statement run once at startup.

use vstd::prelude::*;

verus! {

/// The startup statement: creates the users table if it is absent, with a
/// generated integer id and two required text columns.
pub fn create_table_statement() -> (s: &'static str)
    ensures
        s@ == "CREATE TABLE IF NOT EXISTS users (id SERIAL PRIMARY KEY, name VARCHAR NOT NULL, email VARCHAR NOT NULL)"@,
{
    "CREATE TABLE IF NOT EXISTS users (id SERIAL PRIMARY KEY, name VARCHAR NOT NULL, email VARCHAR NOT NULL)"
}

/// The create statement: inserts one row from the two text parameters and
/// returns the persisted record, generated id included.
pub fn insert_user_statement() -> (s: &'static str)
    ensures
        s@ == "INSERT INTO users (name, email) VALUES ($1, $2) RETURNING id, name, email"@,
{
    "INSERT INTO users (name, email) VALUES ($1, $2) RETURNING id, name, email"
}

/// The list statement: reads every row, all three columns.
pub fn select_users_statement() -> (s: &'static str)
    ensures
        s@ == "SELECT id, name, email FROM users"@,
{
    "SELECT id, name, email FROM users"
}

/// The update statement: overwrites the two text columns of the row whose
/// id matches the third parameter and returns the updated record; matches
/// no row when the id is absent.
pub fn update_user_statement() -> (s: &'static str)
    ensures
        s@ == "UPDATE users SET name = $1, email = $2 WHERE id = $3 RETURNING id, name, email"@,
{
    "UPDATE users SET name = $1, email = $2 WHERE id = $3 RETURNING id, name, email"
}

/// The delete statement: removes the row whose id matches the parameter;
/// removing nothing is not an error.
pub fn delete_user_statement() -> (s: &'static str)
    ensures
        s@ == "DELETE FROM users WHERE id = $1"@,
{
    "DELETE FROM users WHERE id = $1"
}

} // verus!
