//! The `User` record and its row mapping.

use vstd::prelude::*;

verus! {

/// The mathematical value of a [`User`]: an optional identifier and the two
/// text fields as character sequences.
#[verifier::ext_equal]
pub ghost struct UserModel {
    pub id: Option<int>,
    pub name: Seq<char>,
    pub email: Seq<char>,
}

/// A user record as it travels through the service. `id` is absent on
/// creation requests and always present on records read back from storage;
/// `name` and `email` carry no constraint beyond being present.
#[derive(Debug, PartialEq, Eq)]
pub struct User {
    pub id: Option<i32>,
    pub name: String,
    pub email: String,
}

impl View for User {
    type V = UserModel;

    open spec fn view(&self) -> UserModel {
        UserModel {
            id: match self.id {
                Some(n) => Some(n as int),
                None => None,
            },
            name: self.name@,
            email: self.email@,
        }
    }
}

/// Maps one result row of the users table — its `id`, `name` and `email`
/// columns — into the record shape the service answers with.
pub fn user_from_row(id: i32, name: String, email: String) -> (u: User)
    ensures
        u@.id == Some(id as int),
        u@.name == name@,
        u@.email == email@,
{
    User { id: Some(id), name, email }
}

/// Maps a whole result set, row by row and in order, into records.
pub fn users_from_rows(rows: Vec<(i32, String, String)>) -> (users: Vec<User>)
    ensures
        users@.len() == rows@.len(),
        forall|i: int|
            0 <= i < rows@.len() ==> {
                &&& (#[trigger] users@[i])@.id == Some(rows@[i].0 as int)
                &&& users@[i]@.name == rows@[i].1@
                &&& users@[i]@.email == rows@[i].2@
            },
{
    let mut users: Vec<User> = Vec::new();
    let mut i: usize = 0;
    while i < rows.len()
        invariant
            i <= rows@.len(),
            users@.len() == i,
            forall|j: int|
                0 <= j < i ==> {
                    &&& (#[trigger] users@[j])@.id == Some(rows@[j].0 as int)
                    &&& users@[j]@.name == rows@[j].1@
                    &&& users@[j]@.email == rows@[j].2@
                },
        decreases rows@.len() - i,
    {
        let row = &rows[i];
        users.push(user_from_row(row.0, row.1.clone(), row.2.clone()));
        i += 1;
    }
    users
}

/// Copies a record field by field, keeping its mathematical value.
pub fn clone_user(u: &User) -> (r: User)
    ensures
        r@ == u@,
{
    User { id: u.id, name: u.name.clone(), email: u.email.clone() }
}

} // verus!
