//! A verified model of the users table and the four operations the service
//! performs on it.
//!
//! The storage layer guarantees exactly this much: ids are handed out by an
//! increasing counter starting at 1, never change, and no two rows share
//! one; rows are listed in storage order. [`TableModel`] captures that, and
//! each operation's contract pins down what it does to the model.

use vstd::prelude::*;

use crate::error::ServiceError;
use crate::user::{clone_user, User, UserModel};

verus! {

/// The record that storage keeps for a row: a present id and the two text
/// fields.
pub open spec fn record(id: int, name: Seq<char>, email: Seq<char>) -> UserModel {
    UserModel { id: Some(id), name, email }
}

/// The mathematical value of a [`UserTable`]: the rows in storage order and
/// the next id the counter will hand out.
#[verifier::ext_equal]
pub ghost struct TableModel {
    pub rows: Seq<UserModel>,
    pub next_id: int,
}

impl TableModel {
    /// Row `i` carries an id that the counter has already handed out.
    pub open spec fn row_ok(self, i: int) -> bool {
        &&& self.rows[i].id is Some
        &&& 1 <= self.rows[i].id->0 < self.next_id
    }

    /// What the schema guarantees: the counter starts at 1 and fits the id
    /// column, every row's id is below the counter, and no two rows share an
    /// id.
    pub open spec fn wf(self) -> bool {
        &&& 1 <= self.next_id <= i32::MAX
        &&& forall|i: int| 0 <= i < self.rows.len() ==> #[trigger] self.row_ok(i)
        &&& forall|i: int, j: int|
            0 <= i < self.rows.len() && 0 <= j < self.rows.len() && i != j ==> (
            #[trigger] self.rows[i]).id != (#[trigger] self.rows[j]).id
    }

    /// Some row carries `id`.
    pub open spec fn has_id(self, id: int) -> bool {
        exists|i: int| 0 <= i < self.rows.len() && (#[trigger] self.rows[i]).id == Some(id)
    }

    /// The position of the row carrying `id`; meaningful only when
    /// `has_id(id)` holds.
    pub open spec fn idx_of(self, id: int) -> int {
        choose|i: int| 0 <= i < self.rows.len() && (#[trigger] self.rows[i]).id == Some(id)
    }

    /// The record a create request with these fields persists: the counter's
    /// current value becomes its id.
    pub open spec fn created_user(self, name: Seq<char>, email: Seq<char>) -> UserModel {
        record(self.next_id, name, email)
    }

    /// The table after a create: the new record appended, the counter
    /// advanced.
    pub open spec fn after_create(self, name: Seq<char>, email: Seq<char>) -> TableModel {
        TableModel { rows: self.rows.push(self.created_user(name, email)), next_id: self.next_id + 1 }
    }

    /// The table after a successful update of the row carrying `id`: that
    /// row's fields overwritten in place, everything else unchanged.
    pub open spec fn after_update(self, id: int, name: Seq<char>, email: Seq<char>) -> TableModel {
        TableModel { rows: self.rows.update(self.idx_of(id), record(id, name, email)), next_id: self.next_id }
    }

    /// The table after a delete of `id`: the matching row removed if one
    /// exists, the same table otherwise. The counter never moves back.
    pub open spec fn after_delete(self, id: int) -> TableModel {
        if self.has_id(id) {
            TableModel { rows: self.rows.remove(self.idx_of(id)), next_id: self.next_id }
        } else {
            self
        }
    }
}

/// With ids unique, a row seen to carry `id` is the one `idx_of` names.
pub proof fn lemma_idx_of(m: TableModel, id: int, i: int)
    requires
        m.wf(),
        0 <= i < m.rows.len(),
        m.rows[i].id == Some(id),
    ensures
        m.has_id(id),
        m.idx_of(id) == i,
{
    assert(m.has_id(id));
    let j = m.idx_of(id);
    assert(0 <= j < m.rows.len() && m.rows[j].id == Some(id));
    if i != j {
        assert(m.rows[i].id != m.rows[j].id);
        assert(false);
    }
}

/// A create keeps the table well formed: the new id is fresh because every
/// earlier id lies below the counter.
pub proof fn lemma_after_create_wf(m: TableModel, name: Seq<char>, email: Seq<char>)
    requires
        m.wf(),
        m.next_id < i32::MAX,
    ensures
        m.after_create(name, email).wf(),
{
    let m2 = m.after_create(name, email);
    assert forall|i: int| 0 <= i < m2.rows.len() implies #[trigger] m2.row_ok(i) by {
        if i < m.rows.len() {
            assert(m.row_ok(i));
        }
    }
    assert forall|i: int, j: int|
        0 <= i < m2.rows.len() && 0 <= j < m2.rows.len() && i != j implies (
    #[trigger] m2.rows[i]).id != (#[trigger] m2.rows[j]).id by {
        if i < m.rows.len() && j < m.rows.len() {
            assert(m.rows[i].id != m.rows[j].id);
        } else if i < m.rows.len() {
            assert(m.row_ok(i));
        } else {
            assert(m.row_ok(j));
        }
    }
}

/// A successful update keeps the table well formed: the matched row keeps
/// its id, so uniqueness and the id bounds carry over row by row.
pub proof fn lemma_after_update_wf(m: TableModel, id: int, name: Seq<char>, email: Seq<char>)
    requires
        m.wf(),
        m.has_id(id),
    ensures
        m.after_update(id, name, email).wf(),
        m.after_update(id, name, email).rows.len() == m.rows.len(),
{
    let k = m.idx_of(id);
    assert(0 <= k < m.rows.len() && m.rows[k].id == Some(id));
    let m2 = m.after_update(id, name, email);
    assert forall|i: int| 0 <= i < m2.rows.len() implies #[trigger] m2.row_ok(i) by {
        assert(m.row_ok(i));
        assert(m2.rows[i].id == m.rows[i].id);
    }
    assert forall|i: int, j: int|
        0 <= i < m2.rows.len() && 0 <= j < m2.rows.len() && i != j implies (
    #[trigger] m2.rows[i]).id != (#[trigger] m2.rows[j]).id by {
        assert(m2.rows[i].id == m.rows[i].id);
        assert(m2.rows[j].id == m.rows[j].id);
        assert(m.rows[i].id != m.rows[j].id);
    }
}

/// A delete keeps the table well formed, and afterwards no row carries the
/// deleted id.
pub proof fn lemma_after_delete_wf(m: TableModel, id: int)
    requires
        m.wf(),
    ensures
        m.after_delete(id).wf(),
        !m.after_delete(id).has_id(id),
{
    let m2 = m.after_delete(id);
    if m.has_id(id) {
        let k = m.idx_of(id);
        assert(0 <= k < m.rows.len() && m.rows[k].id == Some(id));
        assert forall|i: int| 0 <= i < m2.rows.len() implies #[trigger] m2.row_ok(i) by {
            if i < k {
                assert(m2.rows[i] == m.rows[i]);
                assert(m.row_ok(i));
            } else {
                assert(m2.rows[i] == m.rows[i + 1]);
                assert(m.row_ok(i + 1));
            }
        }
        assert forall|i: int, j: int|
            0 <= i < m2.rows.len() && 0 <= j < m2.rows.len() && i != j implies (
        #[trigger] m2.rows[i]).id != (#[trigger] m2.rows[j]).id by {
            let i0 = if i < k { i } else { i + 1 };
            let j0 = if j < k { j } else { j + 1 };
            assert(m2.rows[i] == m.rows[i0]);
            assert(m2.rows[j] == m.rows[j0]);
            assert(m.rows[i0].id != m.rows[j0].id);
        }
        assert(!m2.has_id(id)) by {
            if m2.has_id(id) {
                let j = choose|j: int|
                    0 <= j < m2.rows.len() && (#[trigger] m2.rows[j]).id == Some(id);
                let j0 = if j < k { j } else { j + 1 };
                assert(m2.rows[j] == m.rows[j0]);
                assert(j0 != k);
                assert(m.rows[j0].id != m.rows[k].id);
                assert(false);
            }
        }
    } else {
        assert(!m2.has_id(id));
    }
}

/// The users table as the service sees it. The fields stay private: every
/// way to reach them is one of the four operations, so a well-formed table
/// stays well formed.
pub struct UserTable {
    rows: Vec<User>,
    next_id: i32,
}

impl View for UserTable {
    type V = TableModel;

    closed spec fn view(&self) -> TableModel {
        TableModel { rows: self.rows@.map_values(|u: User| u@), next_id: self.next_id as int }
    }
}

impl UserTable {
    /// An empty table whose counter starts at 1, as the schema statement
    /// creates it.
    pub fn new() -> (table: UserTable)
        ensures
            table@.wf(),
            table@.rows == Seq::<UserModel>::empty(),
            table@.next_id == 1,
    {
        let table = UserTable { rows: Vec::new(), next_id: 1 };
        proof {
            assert(table@.rows =~= Seq::<UserModel>::empty());
        }
        table
    }

    /// The position of the row carrying `id`, if any.
    fn find_index(&self, id: i32) -> (found: Option<usize>)
        requires
            self@.wf(),
        ensures
            match found {
                Some(i) => {
                    &&& i < self@.rows.len()
                    &&& self@.has_id(id as int)
                    &&& self@.idx_of(id as int) == i
                },
                None => !self@.has_id(id as int),
            },
    {
        let n = self.rows.len();
        let mut i: usize = 0;
        while i < n
            invariant
                n == self.rows@.len(),
                self@.rows.len() == n,
                i <= n,
                forall|j: int| 0 <= j < i ==> (#[trigger] self@.rows[j]).id != Some(id as int),
                self@.wf(),
            decreases n - i,
        {
            let matched = match self.rows[i].id {
                Some(v) => v == id,
                None => false,
            };
            proof {
                assert(self@.rows[i as int] == self.rows@[i as int]@);
            }
            if matched {
                proof {
                    lemma_idx_of(self@, id as int, i as int);
                }
                return Some(i);
            }
            i += 1;
        }
        proof {
            assert(!self@.has_id(id as int)) by {
                if self@.has_id(id as int) {
                    let j = choose|j: int|
                        0 <= j < self@.rows.len() && (#[trigger] self@.rows[j]).id == Some(
                        id as int);
                    assert(self@.rows[j].id != Some(id as int));
                }
            }
        }
        None
    }

    /// Creates a user: persists a new row carrying the supplied `name` and
    /// `email` under a freshly assigned id — any id on the request is
    /// ignored — and answers with the full persisted record.
    pub fn add_user(&mut self, user: User) -> (created: User)
        requires
            old(self)@.wf(),
            old(self)@.next_id < i32::MAX,
        ensures
            final(self)@.wf(),
            final(self)@ == old(self)@.after_create(user@.name, user@.email),
            created@ == old(self)@.created_user(user@.name, user@.email),
    {
        let ghost uname = user.name@;
        let ghost uemail = user.email@;
        let id = self.next_id;
        let row = User { id: Some(id), name: user.name, email: user.email };
        let created = clone_user(&row);
        proof {
            assert(row@ == record(id as int, uname, uemail));
        }
        self.rows.push(row);
        self.next_id = id + 1;
        proof {
            assert(self@.rows =~= old(self)@.rows.push(record(id as int, uname, uemail)));
            assert(self@ =~= old(self)@.after_create(uname, uemail));
            lemma_after_create_wf(old(self)@, uname, uemail);
        }
        created
    }

    /// Lists every row, in storage order, as full records.
    pub fn get_users(&self) -> (users: Vec<User>)
        ensures
            users@.len() == self@.rows.len(),
            forall|i: int| 0 <= i < self@.rows.len() ==> (#[trigger] users@[i])@ == self@.rows[i],
    {
        let n = self.rows.len();
        let mut users: Vec<User> = Vec::new();
        let mut i: usize = 0;
        while i < n
            invariant
                n == self.rows@.len(),
                self@.rows.len() == n,
                i <= n,
                users@.len() == i,
                forall|j: int| 0 <= j < i ==> (#[trigger] users@[j])@ == self@.rows[j],
            decreases n - i,
        {
            users.push(clone_user(&self.rows[i]));
            i += 1;
        }
        users
    }

    /// Updates the row carrying `id`: overwrites its `name` and `email`
    /// with the request's fields — the id itself never changes — and
    /// answers with the updated record. When no row carries `id`, answers
    /// `NotFound` and leaves the table untouched.
    pub fn update_user(&mut self, id: i32, user: User) -> (result: Result<User, ServiceError>)
        requires
            old(self)@.wf(),
        ensures
            final(self)@.wf(),
            old(self)@.has_id(id as int) ==> {
                &&& final(self)@ == old(self)@.after_update(id as int, user@.name, user@.email)
                &&& result matches Ok(u) && u@ == record(id as int, user@.name, user@.email)
            },
            !old(self)@.has_id(id as int) ==> {
                &&& final(self)@ == old(self)@
                &&& result == Err::<User, ServiceError>(ServiceError::NotFound)
            },
    {
        let ghost uname = user.name@;
        let ghost uemail = user.email@;
        match self.find_index(id) {
            Some(i) => {
                let new_row = User { id: Some(id), name: user.name, email: user.email };
                let updated = clone_user(&new_row);
                proof {
                    assert(new_row@ == record(id as int, uname, uemail));
                }
                self.rows.remove(i);
                self.rows.insert(i, new_row);
                proof {
                    assert(self@.rows =~= old(self)@.rows.update(i as int, record(id as int, uname, uemail)));
                    assert(self@ =~= old(self)@.after_update(id as int, uname, uemail));
                    lemma_after_update_wf(old(self)@, id as int, uname, uemail);
                }
                Ok(updated)
            },
            None => Err(ServiceError::NotFound),
        }
    }

    /// Deletes the row carrying `id` if one exists and answers success —
    /// status 204, no body — whether or not a row matched, so deleting an
    /// absent id is a no-op that still succeeds.
    pub fn delete_user(&mut self, id: i32) -> (status: u16)
        requires
            old(self)@.wf(),
        ensures
            final(self)@.wf(),
            final(self)@ == old(self)@.after_delete(id as int),
            status == 204,
    {
        match self.find_index(id) {
            Some(i) => {
                self.rows.remove(i);
                proof {
                    assert(self@.rows =~= old(self)@.rows.remove(i as int));
                    assert(self@ =~= old(self)@.after_delete(id as int));
                    lemma_after_delete_wf(old(self)@, id as int);
                }
            },
            None => {
                proof {
                    assert(self@ =~= old(self)@.after_delete(id as int));
                }
            },
        }
        204
    }
}

} // verus!
