//! From the tables before and after an operation to what is to be done to the rows of
//! a database that holds the tables before, so that it holds the tables after.

use crate::argon::same_bytes;
use crate::db::{token_rows, user_rows, Database, Tables};
use crate::models::auth::AuthAssignmentModel;
use crate::models::external_user_provider::{copy_provider, ExternalUserProviderModel};
use crate::models::user::{copy_user, UserModel, UserRow};
use crate::models::user_token::{copy_token, TokenRow, UserTokenModel};
use vstd::prelude::*;

verus! {

/// What is to be done to the rows, in the order of the fields: the sessions of these
/// ids are deleted first, then the rows are stored and changed.
#[derive(Debug)]
pub struct RowChanges {
    /// The ids of the sessions to delete.
    pub deleted_tokens: Vec<String>,
    /// The users to store.
    pub inserted_users: Vec<UserModel>,
    /// The users whose e-mail address, hash and salt are to be set, each found by its id.
    pub updated_users: Vec<UserModel>,
    /// The assignments to store.
    pub inserted_assignments: Vec<AuthAssignmentModel>,
    /// The sessions to store.
    pub inserted_tokens: Vec<UserTokenModel>,
    /// The accounts at other providers to store.
    pub inserted_providers: Vec<ExternalUserProviderModel>,
}

/// What a list of texts holds.
pub open spec fn texts(list: Seq<String>) -> Seq<Seq<char>> {
    Seq::new(list.len(), |i: int| list[i]@)
}

/// The ids of the sessions, in their order.
pub open spec fn ids_of(rows: Seq<TokenRow>) -> Seq<Seq<char>> {
    Seq::new(rows.len(), |i: int| rows[i].id)
}

/// The sessions that `before` holds and `after` does not, in the order of `before`.
pub open spec fn gone_tokens(before: Tables, after: Tables) -> Seq<TokenRow> {
    before.user_tokens.filter(|row: TokenRow| !after.user_tokens.contains(row))
}

/// The sessions that `after` holds and `before` does not, in the order of `after`.
pub open spec fn new_tokens(before: Tables, after: Tables) -> Seq<TokenRow> {
    after.user_tokens.filter(|row: TokenRow| !before.user_tokens.contains(row))
}

/// The users of `after` whose id no user of `before` has, in the order of `after`.
pub open spec fn new_users(before: Tables, after: Tables) -> Seq<UserRow> {
    after.users.filter(|row: UserRow| !before.has_user(row.id))
}

/// The users of `after` whose id a user of `before` has, but whom `before` does not
/// hold as they are, in the order of `after`.
pub open spec fn changed_users(before: Tables, after: Tables) -> Seq<UserRow> {
    after.users.filter(|row: UserRow| before.has_user(row.id) && !before.users.contains(row))
}

/// The assignments of `after` that no user has in `before`, in the order of `after`.
pub open spec fn new_assignments(before: Tables, after: Tables) -> Seq<AuthAssignmentModel> {
    after.auth_assignments.filter(|row: AuthAssignmentModel| !before.has_assignment(row.item_name@, row.user_id@))
}

/// The accounts of `after` whose id no account of `before` has, in the order of
/// `after`.
pub open spec fn new_providers(before: Tables, after: Tables) -> Seq<ExternalUserProviderModel> {
    after.external_user_providers.filter(|row: ExternalUserProviderModel| !before.has_provider_id(row.id@))
}

/// `changes` is what turns the rows of `before` into those of `after`.
pub open spec fn is_changes(changes: RowChanges, before: Tables, after: Tables) -> bool {
    &&& texts(changes.deleted_tokens@) == ids_of(gone_tokens(before, after))
    &&& user_rows(changes.inserted_users@) == new_users(before, after)
    &&& user_rows(changes.updated_users@) == changed_users(before, after)
    &&& changes.inserted_assignments@ == new_assignments(before, after)
    &&& token_rows(changes.inserted_tokens@) == new_tokens(before, after)
    &&& changes.inserted_providers@ == new_providers(before, after)
}

/// What a filter keeps is what the list holds and the filter lets pass.
pub proof fn lemma_filter_members<T>(list: Seq<T>, keep: spec_fn(T) -> bool)
    ensures
        forall|x: T| #[trigger] list.filter(keep).contains(x) <==> list.contains(x) && keep(x),
    decreases list.len(),
{
    reveal(Seq::filter);
    if list.len() > 0 {
        let shorter = list.drop_last();
        lemma_filter_members(shorter, keep);
        let out = list.filter(keep);
        let sub = shorter.filter(keep);
        assert forall|x: T| #[trigger] out.contains(x) <==> list.contains(x) && keep(x) by {
            if out.contains(x) {
                let i = choose|i: int| 0 <= i < out.len() && out[i] == x;
                if i < sub.len() {
                    assert(sub[i] == x);
                    assert(sub.contains(x));
                    let j = choose|j: int| 0 <= j < shorter.len() && shorter[j] == x;
                    assert(list[j] == x);
                } else {
                    assert(list[list.len() - 1] == x);
                }
            }
            if list.contains(x) && keep(x) {
                let j = choose|j: int| 0 <= j < list.len() && list[j] == x;
                if j < shorter.len() {
                    assert(shorter[j] == x);
                    assert(sub.contains(x));
                    let i = choose|i: int| 0 <= i < sub.len() && sub[i] == x;
                    assert(out[i] == x);
                } else {
                    assert(out[out.len() - 1] == x);
                }
            }
        }
    }
}

/// Whether two sessions hold the same.
pub fn same_token(a: &UserTokenModel, b: &UserTokenModel) -> (r: bool)
    ensures
        r == (a@ == b@),
{
    a.id == b.id && a.token == b.token && a.refresh_token == b.refresh_token && a.user_id == b.user_id
        && a.refresh_expire_at == b.refresh_expire_at && a.created_at == b.created_at && a.updated_at
        == b.updated_at
}

/// Whether two users hold the same.
pub fn same_user(a: &UserModel, b: &UserModel) -> (r: bool)
    ensures
        r == (a@ == b@),
{
    a.id == b.id && same_bytes(&a.hash, &b.hash) && a.salt == b.salt && a.email == b.email && a.created_at
        == b.created_at && a.updated_at == b.updated_at && a.deleted == b.deleted
}

/// Whether the list holds a session that holds the same as `row`.
pub fn holds_token(rows: &Vec<UserTokenModel>, row: &UserTokenModel) -> (r: bool)
    ensures
        r == token_rows(rows@).contains(row@),
{
    let mut i: usize = 0;
    while i < rows.len()
        invariant
            0 <= i <= rows@.len(),
            forall|k: int| 0 <= k < i ==> #[trigger] token_rows(rows@)[k] != row@,
        decreases rows@.len() - i,
    {
        if same_token(&rows[i], row) {
            assert(token_rows(rows@)[i as int] == row@);
            return true;
        }
        i += 1;
    }
    false
}

/// Whether the list holds a user that holds the same as `row`.
pub fn holds_user(rows: &Vec<UserModel>, row: &UserModel) -> (r: bool)
    ensures
        r == user_rows(rows@).contains(row@),
{
    let mut i: usize = 0;
    while i < rows.len()
        invariant
            0 <= i <= rows@.len(),
            forall|k: int| 0 <= k < i ==> #[trigger] user_rows(rows@)[k] != row@,
        decreases rows@.len() - i,
    {
        if same_user(&rows[i], row) {
            assert(user_rows(rows@)[i as int] == row@);
            return true;
        }
        i += 1;
    }
    false
}

fn deleted_tokens(before: &Database, after: &Database) -> (r: Vec<String>)
    ensures
        texts(r@) == ids_of(gone_tokens(before@, after@)),
{
    let ghost rows = before@.user_tokens;
    let ghost keep = |row: TokenRow| !after@.user_tokens.contains(row);
    let mut out: Vec<String> = Vec::new();
    let mut i: usize = 0;
    proof {
        reveal(Seq::filter);
        assert(texts(out@) =~= ids_of(rows.take(0).filter(keep)));
    }
    while i < before.user_tokens.len()
        invariant
            0 <= i <= before.user_tokens@.len(),
            rows == before@.user_tokens,
            keep == |row: TokenRow| !after@.user_tokens.contains(row),
            texts(out@) == ids_of(rows.take(i as int).filter(keep)),
        decreases before.user_tokens@.len() - i,
    {
        let row = &before.user_tokens[i];
        proof {
            assert(rows.take(i + 1).drop_last() =~= rows.take(i as int));
            assert(rows.take(i + 1).last() == row@);
            reveal(Seq::filter);
        }
        if !holds_token(&after.user_tokens, row) {
            let ghost kept = rows.take(i as int).filter(keep);
            let ghost out_before = out@;
            out.push(row.id.clone());
            proof {
                let longer = kept.push(row@);
                assert(texts(out_before).len() == kept.len());
                assert forall|k: int| 0 <= k < longer.len() implies texts(out@)[k] == ids_of(longer)[k] by {
                    if k < kept.len() {
                        assert(texts(out_before)[k] == ids_of(kept)[k]);
                        assert(out@[k] == out_before[k]);
                    }
                }
                assert(texts(out@) =~= ids_of(longer));
            }
        }
        i += 1;
    }
    proof {
        assert(rows.take(rows.len() as int) =~= rows);
    }
    out
}

fn inserted_tokens(before: &Database, after: &Database) -> (r: Vec<UserTokenModel>)
    ensures
        token_rows(r@) == new_tokens(before@, after@),
{
    let ghost rows = after@.user_tokens;
    let ghost keep = |row: TokenRow| !before@.user_tokens.contains(row);
    let mut out: Vec<UserTokenModel> = Vec::new();
    let mut i: usize = 0;
    proof {
        reveal(Seq::filter);
        assert(token_rows(out@) =~= rows.take(0).filter(keep));
    }
    while i < after.user_tokens.len()
        invariant
            0 <= i <= after.user_tokens@.len(),
            rows == after@.user_tokens,
            keep == |row: TokenRow| !before@.user_tokens.contains(row),
            token_rows(out@) == rows.take(i as int).filter(keep),
        decreases after.user_tokens@.len() - i,
    {
        let row = &after.user_tokens[i];
        proof {
            assert(rows.take(i + 1).drop_last() =~= rows.take(i as int));
            assert(rows.take(i + 1).last() == row@);
            reveal(Seq::filter);
        }
        if !holds_token(&before.user_tokens, row) {
            let ghost kept = rows.take(i as int).filter(keep);
            out.push(copy_token(row));
            proof {
                assert(token_rows(out@) =~= kept.push(row@));
            }
        }
        i += 1;
    }
    proof {
        assert(rows.take(rows.len() as int) =~= rows);
    }
    out
}

fn inserted_users(before: &Database, after: &Database) -> (r: Vec<UserModel>)
    ensures
        user_rows(r@) == new_users(before@, after@),
{
    let ghost rows = after@.users;
    let ghost keep = |row: UserRow| !before@.has_user(row.id);
    let mut out: Vec<UserModel> = Vec::new();
    let mut i: usize = 0;
    proof {
        reveal(Seq::filter);
        assert(user_rows(out@) =~= rows.take(0).filter(keep));
    }
    while i < after.users.len()
        invariant
            0 <= i <= after.users@.len(),
            rows == after@.users,
            keep == |row: UserRow| !before@.has_user(row.id),
            user_rows(out@) == rows.take(i as int).filter(keep),
        decreases after.users@.len() - i,
    {
        let row = &after.users[i];
        proof {
            assert(rows.take(i + 1).drop_last() =~= rows.take(i as int));
            assert(rows.take(i + 1).last() == row@);
            reveal(Seq::filter);
        }
        if before.user_index_by_id(row.id.as_str()).is_none() {
            let ghost kept = rows.take(i as int).filter(keep);
            out.push(copy_user(row));
            proof {
                assert(user_rows(out@) =~= kept.push(row@));
            }
        }
        i += 1;
    }
    proof {
        assert(rows.take(rows.len() as int) =~= rows);
    }
    out
}

fn updated_users(before: &Database, after: &Database) -> (r: Vec<UserModel>)
    ensures
        user_rows(r@) == changed_users(before@, after@),
{
    let ghost rows = after@.users;
    let ghost keep = |row: UserRow| before@.has_user(row.id) && !before@.users.contains(row);
    let mut out: Vec<UserModel> = Vec::new();
    let mut i: usize = 0;
    proof {
        reveal(Seq::filter);
        assert(user_rows(out@) =~= rows.take(0).filter(keep));
    }
    while i < after.users.len()
        invariant
            0 <= i <= after.users@.len(),
            rows == after@.users,
            keep == |row: UserRow| before@.has_user(row.id) && !before@.users.contains(row),
            user_rows(out@) == rows.take(i as int).filter(keep),
        decreases after.users@.len() - i,
    {
        let row = &after.users[i];
        proof {
            assert(rows.take(i + 1).drop_last() =~= rows.take(i as int));
            assert(rows.take(i + 1).last() == row@);
            reveal(Seq::filter);
        }
        if before.user_index_by_id(row.id.as_str()).is_some() && !holds_user(&before.users, row) {
            let ghost kept = rows.take(i as int).filter(keep);
            out.push(copy_user(row));
            proof {
                assert(user_rows(out@) =~= kept.push(row@));
            }
        }
        i += 1;
    }
    proof {
        assert(rows.take(rows.len() as int) =~= rows);
    }
    out
}

fn inserted_assignments(before: &Database, after: &Database) -> (r: Vec<AuthAssignmentModel>)
    ensures
        r@ == new_assignments(before@, after@),
{
    let ghost rows = after@.auth_assignments;
    let ghost keep = |row: AuthAssignmentModel| !before@.has_assignment(row.item_name@, row.user_id@);
    let mut out: Vec<AuthAssignmentModel> = Vec::new();
    let mut i: usize = 0;
    proof {
        reveal(Seq::filter);
        assert(out@ =~= rows.take(0).filter(keep));
    }
    while i < after.auth_assignments.len()
        invariant
            0 <= i <= after.auth_assignments@.len(),
            rows == after@.auth_assignments,
            keep == |row: AuthAssignmentModel| !before@.has_assignment(row.item_name@, row.user_id@),
            out@ == rows.take(i as int).filter(keep),
        decreases after.auth_assignments@.len() - i,
    {
        let row = &after.auth_assignments[i];
        proof {
            assert(rows.take(i + 1).drop_last() =~= rows.take(i as int));
            assert(rows.take(i + 1).last() == *row);
            reveal(Seq::filter);
        }
        if !before.assignment_exists(row.item_name.as_str(), row.user_id.as_str()) {
            out.push(
                AuthAssignmentModel {
                    item_name: row.item_name.clone(),
                    user_id: row.user_id.clone(),
                    created_at: row.created_at,
                },
            );
        }
        i += 1;
    }
    proof {
        assert(rows.take(rows.len() as int) =~= rows);
    }
    out
}

fn inserted_providers(before: &Database, after: &Database) -> (r: Vec<ExternalUserProviderModel>)
    ensures
        r@ == new_providers(before@, after@),
{
    let ghost rows = after@.external_user_providers;
    let ghost keep = |row: ExternalUserProviderModel| !before@.has_provider_id(row.id@);
    let mut out: Vec<ExternalUserProviderModel> = Vec::new();
    let mut i: usize = 0;
    proof {
        reveal(Seq::filter);
        assert(out@ =~= rows.take(0).filter(keep));
    }
    while i < after.external_user_providers.len()
        invariant
            0 <= i <= after.external_user_providers@.len(),
            rows == after@.external_user_providers,
            keep == |row: ExternalUserProviderModel| !before@.has_provider_id(row.id@),
            out@ == rows.take(i as int).filter(keep),
        decreases after.external_user_providers@.len() - i,
    {
        let row = &after.external_user_providers[i];
        proof {
            assert(rows.take(i + 1).drop_last() =~= rows.take(i as int));
            assert(rows.take(i + 1).last() == *row);
            reveal(Seq::filter);
        }
        if !before.provider_id_taken(row.id.as_str()) {
            out.push(copy_provider(row));
        }
        i += 1;
    }
    proof {
        assert(rows.take(rows.len() as int) =~= rows);
    }
    out
}

/// What is to be done to the rows of a database that holds `before` so that it holds
/// `after`: the sessions to delete, and the users, assignments, sessions and accounts
/// to store or to change. Nodes and edges are not written.
pub fn row_changes(before: &Database, after: &Database) -> (r: RowChanges)
    ensures
        is_changes(r, before@, after@),
{
    RowChanges {
        deleted_tokens: deleted_tokens(before, after),
        inserted_users: inserted_users(before, after),
        updated_users: updated_users(before, after),
        inserted_assignments: inserted_assignments(before, after),
        inserted_tokens: inserted_tokens(before, after),
        inserted_providers: inserted_providers(before, after),
    }
}

/// The changes to the sessions account for every difference: a session is held
/// afterwards exactly where it was held before and is not deleted, or is stored. Where
/// no two sessions before share an id, to delete by id is to delete the sessions that
/// are gone, and no other.
pub proof fn law_changes_rebuild_the_sessions(before: Tables, after: Tables)
    requires
        before.wf(),
    ensures
        forall|row: TokenRow| #[trigger]
            after.user_tokens.contains(row) <==> (before.user_tokens.contains(row) && !gone_tokens(
                before,
                after,
            ).contains(row)) || new_tokens(before, after).contains(row),
        forall|i: int|
            0 <= i < before.user_tokens.len() ==> (ids_of(gone_tokens(before, after)).contains(
                (#[trigger] before.user_tokens[i]).id,
            ) <==> gone_tokens(before, after).contains(before.user_tokens[i])),
{
    let gone = gone_tokens(before, after);
    lemma_filter_members(before.user_tokens, |row: TokenRow| !after.user_tokens.contains(row));
    lemma_filter_members(after.user_tokens, |row: TokenRow| !before.user_tokens.contains(row));
    assert forall|i: int| 0 <= i < before.user_tokens.len() implies (ids_of(gone).contains(
        (#[trigger] before.user_tokens[i]).id,
    ) <==> gone.contains(before.user_tokens[i])) by {
        let row = before.user_tokens[i];
        if ids_of(gone).contains(row.id) {
            let g = choose|g: int| 0 <= g < ids_of(gone).len() && ids_of(gone)[g] == row.id;
            assert(gone.contains(gone[g]));
            assert(before.user_tokens.contains(gone[g]));
            let k = choose|k: int| 0 <= k < before.user_tokens.len() && before.user_tokens[k] == gone[g];
            if k < i {
                assert(before.user_tokens[k].id != before.user_tokens[i].id);
            } else if i < k {
                assert(before.user_tokens[i].id != before.user_tokens[k].id);
            }
        }
        if gone.contains(row) {
            let g = choose|g: int| 0 <= g < gone.len() && gone[g] == row;
            assert(ids_of(gone)[g] == row.id);
        }
    }
}

} // verus!
