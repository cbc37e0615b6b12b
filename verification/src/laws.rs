//! What holds across several operations on the table, proved once and for
//! all over [`TableModel`].

use vstd::prelude::*;

use crate::table::{
    lemma_after_create_wf, lemma_after_delete_wf, lemma_after_update_wf, record, TableModel,
};

verus! {

/// A created record comes back unchanged from a subsequent listing: the new
/// listing is the old one with exactly the persisted record — the request's
/// name and email under the freshly assigned id — appended at the end.
pub proof fn lemma_create_round_trip(m: TableModel, name: Seq<char>, email: Seq<char>)
    requires
        m.wf(),
        m.next_id < i32::MAX,
    ensures
        m.after_create(name, email).wf(),
        m.after_create(name, email).rows == m.rows.push(m.created_user(name, email)),
        m.after_create(name, email).rows.last() == m.created_user(name, email),
        m.created_user(name, email).id == Some(m.next_id),
        m.created_user(name, email).name == name,
        m.created_user(name, email).email == email,
{
    lemma_after_create_wf(m, name, email);
}

/// One creation per request pair, oldest first.
pub open spec fn create_all(m: TableModel, requests: Seq<(Seq<char>, Seq<char>)>) -> TableModel
    decreases requests.len(),
{
    if requests.len() == 0 {
        m
    } else {
        create_all(m.after_create(requests[0].0, requests[0].1), requests.drop_first())
    }
}

/// Listing after a run of creations returns exactly one record per prior
/// creation beyond the rows already present: those stay in place and in
/// order, and the k-th new record carries the k-th request's name and email
/// under the k-th freshly assigned id.
pub proof fn lemma_list_after_creates(m: TableModel, requests: Seq<(Seq<char>, Seq<char>)>)
    requires
        m.wf(),
        m.next_id + requests.len() <= i32::MAX,
    ensures
        create_all(m, requests).wf(),
        create_all(m, requests).rows.len() == m.rows.len() + requests.len(),
        forall|k: int|
            0 <= k < m.rows.len() ==> #[trigger] create_all(m, requests).rows[k] == m.rows[k],
        forall|k: int|
            0 <= k < requests.len() ==> #[trigger] create_all(m, requests).rows[m.rows.len() + k]
                == record(m.next_id + k, requests[k].0, requests[k].1),
    decreases requests.len(),
{
    if requests.len() > 0 {
        let m1 = m.after_create(requests[0].0, requests[0].1);
        let rest = requests.drop_first();
        lemma_after_create_wf(m, requests[0].0, requests[0].1);
        lemma_list_after_creates(m1, rest);
        let end = create_all(m, requests);
        assert(end == create_all(m1, rest));
        assert forall|k: int| 0 <= k < m.rows.len() implies #[trigger] end.rows[k] == m.rows[k] by {
            assert(end.rows[k] == m1.rows[k]);
            assert(m1.rows[k] == m.rows[k]);
        }
        assert forall|k: int| 0 <= k < requests.len() implies #[trigger] end.rows[m.rows.len() + k]
            == record(m.next_id + k, requests[k].0, requests[k].1) by {
            if k == 0 {
                assert(end.rows[m.rows.len() as int] == m1.rows[m.rows.len() as int]);
                assert(m1.rows[m.rows.len() as int] == m.created_user(requests[0].0, requests[0].1));
            } else {
                assert(rest[k - 1] == requests[k]);
                assert(end.rows[m1.rows.len() + (k - 1)] == record(
                    m1.next_id + (k - 1),
                    rest[k - 1].0,
                    rest[k - 1].1,
                ));
                assert(m1.rows.len() + (k - 1) == m.rows.len() + k);
            }
        }
    }
}

/// A successful update is reflected by the next listing: the matched row
/// carries the new name and email under its unchanged id, every other row
/// is untouched, and the listing's length and the id counter do not change.
pub proof fn lemma_update_reflected(m: TableModel, id: int, name: Seq<char>, email: Seq<char>)
    requires
        m.wf(),
        m.has_id(id),
    ensures
        m.after_update(id, name, email).wf(),
        m.after_update(id, name, email).rows.len() == m.rows.len(),
        m.after_update(id, name, email).rows[m.idx_of(id)] == record(id, name, email),
        forall|j: int|
            0 <= j < m.rows.len() && j != m.idx_of(id) ==> #[trigger] m.after_update(
                id,
                name,
                email,
            ).rows[j] == m.rows[j],
        m.after_update(id, name, email).has_id(id),
        m.after_update(id, name, email).idx_of(id) == m.idx_of(id),
        m.after_update(id, name, email).next_id == m.next_id,
{
    lemma_after_update_wf(m, id, name, email);
    let k = m.idx_of(id);
    assert(0 <= k < m.rows.len() && m.rows[k].id == Some(id));
    let m2 = m.after_update(id, name, email);
    assert(0 <= k < m2.rows.len() && m2.rows[k].id == Some(id));
    assert(m2.has_id(id));
    crate::table::lemma_idx_of(m2, id, k);
}

/// Deleting removes the matched row from every later listing and leaves the
/// remaining rows in order; deleting an id that no row carries changes
/// nothing — the operation is idempotent, and it answers success either
/// way.
pub proof fn lemma_delete_removes(m: TableModel, id: int)
    requires
        m.wf(),
    ensures
        m.after_delete(id).wf(),
        !m.after_delete(id).has_id(id),
        m.has_id(id) ==> m.after_delete(id).rows == m.rows.remove(m.idx_of(id)),
        m.has_id(id) ==> m.after_delete(id).rows.len() == m.rows.len() - 1,
        !m.has_id(id) ==> m.after_delete(id) == m,
        m.after_delete(id).after_delete(id) == m.after_delete(id),
{
    lemma_after_delete_wf(m, id);
}

} // verus!
