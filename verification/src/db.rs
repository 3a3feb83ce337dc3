//! The store: the tables that this library reads and writes, held in memory. A caller
//! that keeps them elsewhere loads the rows an operation needs, runs it, and writes
//! back what changed, all in one transaction.

use crate::errors::{DBError, DatabaseErrorInformation, DatabaseErrorKind};
use crate::models::auth::{AuthAssignmentModel, AuthItemChildModel, AuthItemModel};
use crate::models::external_user_provider::ExternalUserProviderModel;
use crate::models::user::{UserModel, UserRow};
use crate::models::user_token::{copy_token, TokenRow, UserTokenModel};
use crate::text::same_text;
use vstd::prelude::*;

verus! {

/// The tables.
#[derive(Debug)]
pub struct Database {
    pub users: Vec<UserModel>,
    pub user_tokens: Vec<UserTokenModel>,
    pub auth_items: Vec<AuthItemModel>,
    pub auth_item_children: Vec<AuthItemChildModel>,
    pub auth_assignments: Vec<AuthAssignmentModel>,
    pub external_user_providers: Vec<ExternalUserProviderModel>,
}

/// What the tables hold, each in its order.
pub struct Tables {
    pub users: Seq<UserRow>,
    pub user_tokens: Seq<TokenRow>,
    pub auth_items: Seq<AuthItemModel>,
    pub auth_item_children: Seq<AuthItemChildModel>,
    pub auth_assignments: Seq<AuthAssignmentModel>,
    pub external_user_providers: Seq<ExternalUserProviderModel>,
}

/// What the rows of the users hold, in the table's order.
pub open spec fn user_rows(users: Seq<UserModel>) -> Seq<UserRow> {
    Seq::new(users.len(), |i: int| users[i]@)
}

/// What the rows of the sessions hold, in the table's order.
pub open spec fn token_rows(tokens: Seq<UserTokenModel>) -> Seq<TokenRow> {
    Seq::new(tokens.len(), |i: int| tokens[i]@)
}

impl View for Database {
    type V = Tables;

    open spec fn view(&self) -> Tables {
        Tables {
            users: user_rows(self.users@),
            user_tokens: token_rows(self.user_tokens@),
            auth_items: self.auth_items@,
            auth_item_children: self.auth_item_children@,
            auth_assignments: self.auth_assignments@,
            external_user_providers: self.external_user_providers@,
        }
    }
}

/// A column of the sessions' table that holds a text.
#[derive(Clone, Copy, Debug, PartialEq, Eq, Structural)]
pub enum TokenColumn {
    Id,
    Token,
    RefreshToken,
    UserId,
}

/// What a session's row holds in a column.
pub open spec fn column_of(row: TokenRow, column: TokenColumn) -> Seq<char> {
    match column {
        TokenColumn::Id => row.id,
        TokenColumn::Token => row.token,
        TokenColumn::RefreshToken => row.refresh_token,
        TokenColumn::UserId => row.user_id,
    }
}

/// The rows that stay when those that hold `value` in `column` are deleted.
pub open spec fn rows_without(rows: Seq<TokenRow>, column: TokenColumn, value: Seq<char>) -> Seq<TokenRow> {
    rows.filter(|row: TokenRow| column_of(row, column) != value)
}

/// The assignments of one user, in the table's order.
pub open spec fn assignments_for(rows: Seq<AuthAssignmentModel>, user_id: Seq<char>) -> Seq<AuthAssignmentModel> {
    rows.filter(|row: AuthAssignmentModel| row.user_id@ == user_id)
}

/// What a user's row holds once the values that are given have taken the place of the
/// old ones.
pub open spec fn changed_user(
    row: UserRow,
    email: Option<Seq<char>>,
    hash: Option<Seq<u8>>,
    salt: Option<Seq<char>>,
) -> UserRow {
    UserRow {
        email: match email {
            Some(e) => e,
            None => row.email,
        },
        hash: match hash {
            Some(h) => h,
            None => row.hash,
        },
        salt: match salt {
            Some(s) => s,
            None => row.salt,
        },
        ..row
    }
}

impl Tables {
    /// The keys and the unique columns hold no value twice: no two users share an id or
    /// an e-mail address, no two sessions an id or a refresh token, and no user has an assignment
    /// twice, and no two accounts at other providers share an id.
    pub open spec fn wf(&self) -> bool {
        &&& forall|i: int, j: int|
            0 <= i < j < self.external_user_providers.len() ==> (#[trigger] self.external_user_providers[i]).id@
                != (#[trigger] self.external_user_providers[j]).id@
        &&& forall|i: int, j: int|
            0 <= i < j < self.users.len() ==> (#[trigger] self.users[i]).id != (#[trigger] self.users[j]).id
        &&& forall|i: int, j: int|
            0 <= i < j < self.users.len() ==> (#[trigger] self.users[i]).email != (#[trigger] self.users[j]).email
        &&& forall|i: int, j: int|
            0 <= i < j < self.user_tokens.len() ==> (#[trigger] self.user_tokens[i]).id != (
            #[trigger] self.user_tokens[j]).id
        &&& forall|i: int, j: int|
            0 <= i < j < self.user_tokens.len() ==> (#[trigger] self.user_tokens[i]).refresh_token != (
            #[trigger] self.user_tokens[j]).refresh_token
        &&& forall|i: int, j: int|
            0 <= i < j < self.auth_assignments.len() ==> !((#[trigger] self.auth_assignments[i]).item_name@ == (
            #[trigger] self.auth_assignments[j]).item_name@ && self.auth_assignments[i].user_id@
                == self.auth_assignments[j].user_id@)
    }

    /// A user has this id.
    pub open spec fn has_user(&self, id: Seq<char>) -> bool {
        exists|i: int| 0 <= i < self.users.len() && (#[trigger] self.users[i]).id == id
    }

    /// A user has this e-mail address.
    pub open spec fn has_email(&self, email: Seq<char>) -> bool {
        exists|i: int| 0 <= i < self.users.len() && (#[trigger] self.users[i]).email == email
    }

    /// Another user than the one at `but` has this e-mail address.
    pub open spec fn email_of_another(&self, email: Seq<char>, but: int) -> bool {
        exists|i: int| 0 <= i < self.users.len() && i != but && (#[trigger] self.users[i]).email == email
    }

    /// A session has this id.
    pub open spec fn has_token_id(&self, id: Seq<char>) -> bool {
        exists|i: int| 0 <= i < self.user_tokens.len() && (#[trigger] self.user_tokens[i]).id == id
    }

    /// A session has this refresh token, whether it can still be used or not.
    pub open spec fn has_refresh_token(&self, value: Seq<char>) -> bool {
        exists|i: int| 0 <= i < self.user_tokens.len() && (#[trigger] self.user_tokens[i]).refresh_token == value
    }

    /// The session at `i` has this refresh token and can use it at `now`.
    pub open spec fn live_refresh_at(&self, i: int, value: Seq<char>, now: i64) -> bool {
        &&& 0 <= i < self.user_tokens.len()
        &&& self.user_tokens[i].refresh_token == value
        &&& self.user_tokens[i].refresh_expire_at >= now
    }

    /// A session has this refresh token and can use it at `now`.
    pub open spec fn has_live_refresh_token(&self, value: Seq<char>, now: i64) -> bool {
        exists|i: int| #[trigger] self.live_refresh_at(i, value, now)
    }

    /// A session has this access token.
    pub open spec fn has_access_token(&self, value: Seq<char>) -> bool {
        exists|i: int| 0 <= i < self.user_tokens.len() && (#[trigger] self.user_tokens[i]).token == value
    }

    /// A session of this user has this access token.
    pub open spec fn has_session(&self, user_id: Seq<char>, token: Seq<char>) -> bool {
        exists|i: int|
            0 <= i < self.user_tokens.len() && (#[trigger] self.user_tokens[i]).user_id == user_id
                && self.user_tokens[i].token == token
    }

    /// A user has a session.
    pub open spec fn has_session_of(&self, user_id: Seq<char>) -> bool {
        exists|i: int| 0 <= i < self.user_tokens.len() && (#[trigger] self.user_tokens[i]).user_id == user_id
    }

    /// The user has this assignment.
    pub open spec fn has_assignment(&self, item_name: Seq<char>, user_id: Seq<char>) -> bool {
        exists|i: int|
            0 <= i < self.auth_assignments.len() && (#[trigger] self.auth_assignments[i]).item_name@ == item_name
                && self.auth_assignments[i].user_id@ == user_id
    }

    /// Where the user of this e-mail address stands.
    pub open spec fn index_of_email(&self, email: Seq<char>) -> int {
        choose|i: int| 0 <= i < self.users.len() && (#[trigger] self.users[i]).email == email
    }

    /// The user of this e-mail address.
    pub open spec fn user_with_email(&self, email: Seq<char>) -> UserRow {
        self.users[self.index_of_email(email)]
    }

    /// Where the user of this id stands.
    pub open spec fn index_of_user(&self, id: Seq<char>) -> int {
        choose|i: int| 0 <= i < self.users.len() && (#[trigger] self.users[i]).id == id
    }

    /// The user of this id.
    pub open spec fn user_with_id(&self, id: Seq<char>) -> UserRow {
        self.users[self.index_of_user(id)]
    }

    /// The session that has this refresh token and can use it at `now`.
    pub open spec fn live_refresh_row(&self, value: Seq<char>, now: i64) -> TokenRow {
        self.user_tokens[choose|i: int| #[trigger] self.live_refresh_at(i, value, now)]
    }

    /// An account at another provider has this id.
    pub open spec fn has_provider_id(&self, id: Seq<char>) -> bool {
        exists|i: int|
            0 <= i < self.external_user_providers.len() && (#[trigger] self.external_user_providers[i]).id@ == id
    }

    /// These tables with other accounts at other providers.
    pub open spec fn with_providers(&self, external_user_providers: Seq<ExternalUserProviderModel>) -> Tables {
        Tables { external_user_providers, ..*self }
    }

    /// These tables with other sessions.
    pub open spec fn with_tokens(&self, user_tokens: Seq<TokenRow>) -> Tables {
        Tables { user_tokens, ..*self }
    }

    /// These tables with other users.
    pub open spec fn with_users(&self, users: Seq<UserRow>) -> Tables {
        Tables { users, ..*self }
    }

    /// These tables with other assignments.
    pub open spec fn with_assignments(&self, auth_assignments: Seq<AuthAssignmentModel>) -> Tables {
        Tables { auth_assignments, ..*self }
    }
}

impl Tables {
    /// Of an e-mail address there is one user, of an id one user, and of a refresh
    /// token one session.
    pub proof fn lemma_unique_rows(&self)
        requires
            self.wf(),
        ensures
            forall|i: int|
                0 <= i < self.users.len() ==> self.index_of_email((#[trigger] self.users[i]).email) == i,
            forall|i: int| 0 <= i < self.users.len() ==> self.index_of_user((#[trigger] self.users[i]).id) == i,
            forall|i: int, value: Seq<char>, now: i64| #[trigger]
                self.live_refresh_at(i, value, now) ==> self.live_refresh_row(value, now) == self.user_tokens[i],
    {
        assert forall|i: int| 0 <= i < self.users.len() implies self.index_of_email(
            (#[trigger] self.users[i]).email,
        ) == i by {
            let c = self.index_of_email(self.users[i].email);
            if c < i {
                assert(self.users[c].email != self.users[i].email);
            } else if i < c {
                assert(self.users[i].email != self.users[c].email);
            }
        }
        assert forall|i: int| 0 <= i < self.users.len() implies self.index_of_user((#[trigger] self.users[i]).id)
            == i by {
            let c = self.index_of_user(self.users[i].id);
            if c < i {
                assert(self.users[c].id != self.users[i].id);
            } else if i < c {
                assert(self.users[i].id != self.users[c].id);
            }
        }
        assert forall|i: int, value: Seq<char>, now: i64| #[trigger]
            self.live_refresh_at(i, value, now) implies self.live_refresh_row(value, now) == self.user_tokens[i] by {
            let c = choose|c: int| #[trigger] self.live_refresh_at(c, value, now);
            if c < i {
                assert(self.user_tokens[c].refresh_token != self.user_tokens[i].refresh_token);
            } else if i < c {
                assert(self.user_tokens[i].refresh_token != self.user_tokens[c].refresh_token);
            }
        }
    }

    /// A session whose id and refresh token no session has can be added.
    pub proof fn lemma_wf_push_token(&self, row: TokenRow)
        requires
            self.wf(),
            !self.has_token_id(row.id),
            !self.has_refresh_token(row.refresh_token),
        ensures
            self.with_tokens(self.user_tokens.push(row)).wf(),
    {
        let after = self.with_tokens(self.user_tokens.push(row));
        assert forall|i: int, j: int| 0 <= i < j < after.user_tokens.len() implies (
        #[trigger] after.user_tokens[i]).id != (#[trigger] after.user_tokens[j]).id by {
            assert(after.user_tokens[i] == self.user_tokens[i]);
        }
        assert forall|i: int, j: int| 0 <= i < j < after.user_tokens.len() implies (
        #[trigger] after.user_tokens[i]).refresh_token != (#[trigger] after.user_tokens[j]).refresh_token by {
            assert(after.user_tokens[i] == self.user_tokens[i]);
        }
    }

    /// A user whose id and e-mail address no user has can be added.
    pub proof fn lemma_wf_push_user(&self, row: UserRow)
        requires
            self.wf(),
            !self.has_user(row.id),
            !self.has_email(row.email),
        ensures
            self.with_users(self.users.push(row)).wf(),
    {
        let after = self.with_users(self.users.push(row));
        assert forall|i: int, j: int| 0 <= i < j < after.users.len() implies (#[trigger] after.users[i]).id != (
        #[trigger] after.users[j]).id by {
            assert(after.users[i] == self.users[i]);
        }
        assert forall|i: int, j: int| 0 <= i < j < after.users.len() implies (#[trigger] after.users[i]).email != (
        #[trigger] after.users[j]).email by {
            assert(after.users[i] == self.users[i]);
        }
    }

    /// A user can be changed where it keeps its id and takes no other user's e-mail
    /// address.
    pub proof fn lemma_wf_update_user(&self, at: int, row: UserRow)
        requires
            self.wf(),
            0 <= at < self.users.len(),
            row.id == self.users[at].id,
            !self.email_of_another(row.email, at),
        ensures
            self.with_users(self.users.update(at, row)).wf(),
    {
        let after = self.with_users(self.users.update(at, row));
        assert forall|i: int, j: int| 0 <= i < j < after.users.len() implies (#[trigger] after.users[i]).id != (
        #[trigger] after.users[j]).id by {
            assert(self.users[i].id != self.users[j].id);
        }
        assert forall|i: int, j: int| 0 <= i < j < after.users.len() implies (#[trigger] after.users[i]).email != (
        #[trigger] after.users[j]).email by {
            assert(self.users[i].email != self.users[j].email);
            if i == at {
                assert(after.users[j] == self.users[j]);
            } else if j == at {
                assert(after.users[i] == self.users[i]);
            }
        }
    }

    /// An assignment that the user has not can be added.
    pub proof fn lemma_wf_push_assignment(&self, row: AuthAssignmentModel)
        requires
            self.wf(),
            !self.has_assignment(row.item_name@, row.user_id@),
        ensures
            self.with_assignments(self.auth_assignments.push(row)).wf(),
    {
        let after = self.with_assignments(self.auth_assignments.push(row));
        assert forall|i: int, j: int| 0 <= i < j < after.auth_assignments.len() implies !((
        #[trigger] after.auth_assignments[i]).item_name@ == (#[trigger] after.auth_assignments[j]).item_name@
            && after.auth_assignments[i].user_id@ == after.auth_assignments[j].user_id@) by {
            assert(after.auth_assignments[i] == self.auth_assignments[i]);
        }
    }
}

/// No row of `rows_without` holds the value, every row of it is one of the rows, and
/// every row that does not hold the value stays.
pub proof fn lemma_rows_without(rows: Seq<TokenRow>, column: TokenColumn, value: Seq<char>)
    ensures
        forall|i: int|
            0 <= i < rows_without(rows, column, value).len() ==> column_of(
                #[trigger] rows_without(rows, column, value)[i],
                column,
            ) != value && rows.contains(rows_without(rows, column, value)[i]),
        forall|i: int|
            0 <= i < rows.len() && column_of(#[trigger] rows[i], column) != value ==> rows_without(
                rows,
                column,
                value,
            ).contains(rows[i]),
        rows_without(rows, column, value).len() <= rows.len(),
    decreases rows.len(),
{
    reveal(Seq::filter);
    if rows.len() > 0 {
        let shorter = rows.drop_last();
        lemma_rows_without(shorter, column, value);
        let out = rows_without(rows, column, value);
        let sub = rows_without(shorter, column, value);
        assert forall|i: int| 0 <= i < out.len() implies column_of(#[trigger] out[i], column) != value
            && rows.contains(out[i]) by {
            if i < sub.len() {
                assert(out[i] == sub[i]);
                assert(shorter.contains(sub[i]));
                let j = choose|j: int| 0 <= j < shorter.len() && shorter[j] == sub[i];
                assert(rows[j] == out[i]);
            } else {
                assert(out[i] == rows[rows.len() - 1]);
            }
        }
        assert forall|i: int| 0 <= i < rows.len() && column_of(#[trigger] rows[i], column) != value implies out.contains(
            rows[i],
        ) by {
            if i == rows.len() - 1 {
                assert(out[out.len() - 1] == rows[i]);
            } else {
                assert(shorter[i] == rows[i]);
                assert(sub.contains(shorter[i]));
                let j = choose|j: int| 0 <= j < sub.len() && sub[j] == shorter[i];
                assert(out[j] == rows[i]);
            }
        }
    }
}

/// All rows stay exactly where none holds the value.
pub proof fn lemma_rows_without_len(rows: Seq<TokenRow>, column: TokenColumn, value: Seq<char>)
    ensures
        rows_without(rows, column, value).len() == rows.len() <==> forall|i: int|
            0 <= i < rows.len() ==> column_of(#[trigger] rows[i], column) != value,
    decreases rows.len(),
{
    reveal(Seq::filter);
    if rows.len() > 0 {
        let shorter = rows.drop_last();
        lemma_rows_without_len(shorter, column, value);
        lemma_rows_without(shorter, column, value);
        if column_of(rows.last(), column) != value {
            if forall|i: int| 0 <= i < shorter.len() ==> column_of(#[trigger] shorter[i], column) != value {
                assert forall|i: int| 0 <= i < rows.len() implies column_of(#[trigger] rows[i], column) != value by {
                    if i < shorter.len() {
                        assert(shorter[i] == rows[i]);
                    }
                }
            } else {
                let i = choose|i: int| 0 <= i < shorter.len() && column_of(#[trigger] shorter[i], column) == value;
                assert(rows[i] == shorter[i]);
            }
        } else {
            assert(column_of(rows[rows.len() - 1], column) == value);
        }
    }
}

/// The message of the store where a key is taken.
pub const DUPLICATE_KEY: &'static str = "Duplicate entry for the primary key";

/// The message of the store where an e-mail address is taken.
pub const DUPLICATE_EMAIL: &'static str = "Duplicate entry for the e-mail address";

/// The message of the store where a refresh token is taken.
pub const DUPLICATE_REFRESH_TOKEN: &'static str = "Duplicate entry for the refresh token";

/// The message of the store where a column that must hold a value was given none.
pub const MISSING_VALUE: &'static str = "A column that cannot be null was given no value";

/// The error is the failure of a statement, of this kind and with this message, and
/// without details.
pub open spec fn is_statement_failure(error: DBError, kind: DatabaseErrorKind, message: Seq<char>) -> bool {
    error matches DBError::DatabaseError(k, info) && k == kind && info.message@ == message && info.details is None
}

/// The failure of a statement, of this kind and with this message.
pub fn statement_failed(kind: DatabaseErrorKind, message: &str) -> (r: DBError)
    ensures
        is_statement_failure(r, kind, message@),
{
    DBError::DatabaseError(kind, DatabaseErrorInformation { message: message.to_owned(), details: None })
}

impl Database {
    /// The store holds no value twice where it must not: see `Tables::wf`.
    pub open spec fn wf(&self) -> bool {
        self@.wf()
    }

    /// A store without rows.
    pub fn new() -> (r: Database)
        ensures
            r.wf(),
            r@.users.len() == 0,
            r@.user_tokens.len() == 0,
            r@.auth_items.len() == 0,
            r@.auth_item_children.len() == 0,
            r@.auth_assignments.len() == 0,
            r@.external_user_providers.len() == 0,
    {
        Database {
            users: Vec::new(),
            user_tokens: Vec::new(),
            auth_items: Vec::new(),
            auth_item_children: Vec::new(),
            auth_assignments: Vec::new(),
            external_user_providers: Vec::new(),
        }
    }

    /// Where the user of this id stands.
    pub fn user_index_by_id(&self, id: &str) -> (r: Option<usize>)
        ensures
            match r {
                Some(i) => 0 <= i < self@.users.len() && self@.users[i as int].id == id@,
                None => !self@.has_user(id@),
            },
    {
        let mut i: usize = 0;
        while i < self.users.len()
            invariant
                0 <= i <= self.users@.len(),
                forall|k: int| 0 <= k < i ==> (#[trigger] self@.users[k]).id != id@,
            decreases self.users@.len() - i,
        {
            if same_text(self.users[i].id.as_str(), id) {
                return Some(i);
            }
            i += 1;
        }
        None
    }

    /// Where the user of this e-mail address stands.
    pub fn user_index_by_email(&self, email: &str) -> (r: Option<usize>)
        ensures
            match r {
                Some(i) => 0 <= i < self@.users.len() && self@.users[i as int].email == email@,
                None => !self@.has_email(email@),
            },
    {
        let mut i: usize = 0;
        while i < self.users.len()
            invariant
                0 <= i <= self.users@.len(),
                forall|k: int| 0 <= k < i ==> (#[trigger] self@.users[k]).email != email@,
            decreases self.users@.len() - i,
        {
            if same_text(self.users[i].email.as_str(), email) {
                return Some(i);
            }
            i += 1;
        }
        None
    }

    /// Whether another user than the one at `but` has this e-mail address.
    pub fn email_taken_by_another(&self, email: &str, but: usize) -> (r: bool)
        ensures
            r == self@.email_of_another(email@, but as int),
    {
        let mut i: usize = 0;
        while i < self.users.len()
            invariant
                0 <= i <= self.users@.len(),
                forall|k: int| 0 <= k < i && k != but ==> (#[trigger] self@.users[k]).email != email@,
            decreases self.users@.len() - i,
        {
            if i != but && same_text(self.users[i].email.as_str(), email) {
                assert(self@.users[i as int].email == email@);
                return true;
            }
            i += 1;
        }
        false
    }

    /// Whether a session has this id.
    pub fn token_id_taken(&self, id: &str) -> (r: bool)
        ensures
            r == self@.has_token_id(id@),
    {
        let mut i: usize = 0;
        while i < self.user_tokens.len()
            invariant
                0 <= i <= self.user_tokens@.len(),
                forall|k: int| 0 <= k < i ==> (#[trigger] self@.user_tokens[k]).id != id@,
            decreases self.user_tokens@.len() - i,
        {
            if same_text(self.user_tokens[i].id.as_str(), id) {
                assert(self@.user_tokens[i as int].id == id@);
                return true;
            }
            i += 1;
        }
        false
    }

    /// Whether a session has this refresh token.
    pub fn refresh_token_taken(&self, value: &str) -> (r: bool)
        ensures
            r == self@.has_refresh_token(value@),
    {
        let mut i: usize = 0;
        while i < self.user_tokens.len()
            invariant
                0 <= i <= self.user_tokens@.len(),
                forall|k: int| 0 <= k < i ==> (#[trigger] self@.user_tokens[k]).refresh_token != value@,
            decreases self.user_tokens@.len() - i,
        {
            if same_text(self.user_tokens[i].refresh_token.as_str(), value) {
                assert(self@.user_tokens[i as int].refresh_token == value@);
                return true;
            }
            i += 1;
        }
        false
    }

    /// Where the first session stands that has this refresh token and can use it at
    /// `now`.
    pub fn live_refresh_index(&self, value: &str, now: i64) -> (r: Option<usize>)
        ensures
            match r {
                Some(i) => self@.live_refresh_at(i as int, value@, now) && forall|k: int|
                    0 <= k < i ==> !#[trigger] self@.live_refresh_at(k, value@, now),
                None => !self@.has_live_refresh_token(value@, now),
            },
    {
        let mut i: usize = 0;
        while i < self.user_tokens.len()
            invariant
                0 <= i <= self.user_tokens@.len(),
                forall|k: int| 0 <= k < i ==> !#[trigger] self@.live_refresh_at(k, value@, now),
            decreases self.user_tokens@.len() - i,
        {
            if same_text(self.user_tokens[i].refresh_token.as_str(), value) && self.user_tokens[i].refresh_expire_at
                >= now {
                return Some(i);
            }
            i += 1;
        }
        None
    }

    /// Whether a session of this user has this access token.
    pub fn session_exists(&self, user_id: &str, token: &str) -> (r: bool)
        ensures
            r == self@.has_session(user_id@, token@),
    {
        let mut i: usize = 0;
        while i < self.user_tokens.len()
            invariant
                0 <= i <= self.user_tokens@.len(),
                forall|k: int|
                    0 <= k < i ==> !((#[trigger] self@.user_tokens[k]).user_id == user_id@
                        && self@.user_tokens[k].token == token@),
            decreases self.user_tokens@.len() - i,
        {
            if same_text(self.user_tokens[i].user_id.as_str(), user_id) && same_text(
                self.user_tokens[i].token.as_str(),
                token,
            ) {
                assert(self@.user_tokens[i as int].user_id == user_id@);
                return true;
            }
            i += 1;
        }
        false
    }

    /// Stores a session. The store refuses a row whose id or whose refresh token a
    /// session has already, the id first, and then stays as it was.
    pub fn insert_token(&mut self, row: UserTokenModel) -> (r: Result<(), DBError>)
        requires
            old(self).wf(),
        ensures
            final(self).wf(),
            if old(self)@.has_token_id(row.id@) {
                &&& final(self)@ == old(self)@
                &&& r matches Err(error)
                &&& is_statement_failure(error, DatabaseErrorKind::UniqueViolation, DUPLICATE_KEY@)
            } else if old(self)@.has_refresh_token(row.refresh_token@) {
                &&& final(self)@ == old(self)@
                &&& r matches Err(error)
                &&& is_statement_failure(error, DatabaseErrorKind::UniqueViolation, DUPLICATE_REFRESH_TOKEN@)
            } else {
                &&& r is Ok
                &&& final(self)@ == old(self)@.with_tokens(old(self)@.user_tokens.push(row@))
            },
    {
        if self.token_id_taken(row.id.as_str()) {
            return Err(statement_failed(DatabaseErrorKind::UniqueViolation, DUPLICATE_KEY));
        }
        if self.refresh_token_taken(row.refresh_token.as_str()) {
            return Err(statement_failed(DatabaseErrorKind::UniqueViolation, DUPLICATE_REFRESH_TOKEN));
        }
        self.user_tokens.push(row);
        proof {
            assert(self@.user_tokens =~= old(self)@.user_tokens.push(row@));
            old(self)@.lemma_wf_push_token(row@);
        }
        Ok(())
    }

    /// Deletes the sessions that hold `value` in `column`, and says how many they were.
    pub fn delete_tokens(&mut self, column: TokenColumn, value: &str) -> (r: usize)
        requires
            old(self).wf(),
        ensures
            final(self).wf(),
            final(self)@ == old(self)@.with_tokens(rows_without(old(self)@.user_tokens, column, value@)),
            r == old(self)@.user_tokens.len() - final(self)@.user_tokens.len(),
    {
        let ghost rows = self@.user_tokens;
        let ghost keep = |row: TokenRow| column_of(row, column) != value@;
        let mut kept: Vec<UserTokenModel> = Vec::new();
        let mut i: usize = 0;
        while i < self.user_tokens.len()
            invariant
                0 <= i <= self.user_tokens@.len(),
                *self == *old(self),
                rows == self@.user_tokens,
                self.wf(),
                keep == |row: TokenRow| column_of(row, column) != value@,
                token_rows(kept@) == rows.take(i as int).filter(keep),
                kept@.len() <= i,
                forall|k: int|
                    0 <= k < kept@.len() ==> exists|m: int| 0 <= m < i && (#[trigger] kept@[k])@ == rows[m],
                forall|a: int, b: int|
                    0 <= a < b < kept@.len() ==> (#[trigger] kept@[a]).id@ != (#[trigger] kept@[b]).id@,
                forall|a: int, b: int|
                    0 <= a < b < kept@.len() ==> (#[trigger] kept@[a]).refresh_token@ != (
                    #[trigger] kept@[b]).refresh_token@,
            decreases self.user_tokens@.len() - i,
        {
            let row = &self.user_tokens[i];
            let held = match column {
                TokenColumn::Id => &row.id,
                TokenColumn::Token => &row.token,
                TokenColumn::RefreshToken => &row.refresh_token,
                TokenColumn::UserId => &row.user_id,
            };
            proof {
                assert(rows.take(i + 1).drop_last() =~= rows.take(i as int));
                assert(rows.take(i + 1).last() == row@);
                reveal(Seq::filter);
                assert(held@ == column_of(row@, column));
            }
            if !same_text(held.as_str(), value) {
                let ghost kept_before = kept@;
                let copy = copy_token(row);
                kept.push(copy);
                proof {
                    assert(token_rows(kept@) =~= token_rows(kept_before).push(row@));
                    assert forall|k: int| 0 <= k < kept@.len() implies exists|m: int|
                        0 <= m < i + 1 && (#[trigger] kept@[k])@ == rows[m] by {
                        if k < kept_before.len() {
                            let m = choose|m: int| 0 <= m < i && kept_before[k]@ == rows[m];
                            assert(kept@[k]@ == rows[m]);
                        } else {
                            assert(kept@[k]@ == rows[i as int]);
                        }
                    }
                    assert forall|a: int, b: int| 0 <= a < b < kept@.len() implies (#[trigger] kept@[a]).id@ != (
                    #[trigger] kept@[b]).id@ by {
                        if b == kept_before.len() {
                            let m = choose|m: int| 0 <= m < i && kept_before[a]@ == rows[m];
                            assert(rows[m].id != rows[i as int].id);
                        }
                    }
                    assert forall|a: int, b: int| 0 <= a < b < kept@.len() implies (
                    #[trigger] kept@[a]).refresh_token@ != (#[trigger] kept@[b]).refresh_token@ by {
                        if b == kept_before.len() {
                            let m = choose|m: int| 0 <= m < i && kept_before[a]@ == rows[m];
                            assert(rows[m].refresh_token != rows[i as int].refresh_token);
                        }
                    }
                }
            }
            i += 1;
        }
        proof {
            assert(rows.take(rows.len() as int) =~= rows);
        }
        let removed = self.user_tokens.len() - kept.len();
        let ghost kept_rows = kept@;
        self.user_tokens = kept;
        proof {
            let after = self@.user_tokens;
            assert(self.user_tokens@ == kept_rows);
            assert(after.len() == kept_rows.len());
            assert forall|a: int, b: int| 0 <= a < b < after.len() implies (#[trigger] after[a]).id != (
            #[trigger] after[b]).id by {
                assert(kept_rows[a].id@ != kept_rows[b].id@);
            }
            assert forall|a: int, b: int| 0 <= a < b < after.len() implies (#[trigger] after[a]).refresh_token != (
            #[trigger] after[b]).refresh_token by {
                assert(kept_rows[a].refresh_token@ != kept_rows[b].refresh_token@);
            }
            assert(self@.users == old(self)@.users);
            assert(self@.auth_assignments == old(self)@.auth_assignments);
            assert(old(self)@.wf());
        }
        removed
    }

    /// Stores a user. The store refuses a row whose id or whose e-mail address a user
    /// has already, the id first, and then stays as it was.
    pub fn insert_user(&mut self, row: UserModel) -> (r: Result<(), DBError>)
        requires
            old(self).wf(),
        ensures
            final(self).wf(),
            if old(self)@.has_user(row.id@) {
                &&& final(self)@ == old(self)@
                &&& r matches Err(error)
                &&& is_statement_failure(error, DatabaseErrorKind::UniqueViolation, DUPLICATE_KEY@)
            } else if old(self)@.has_email(row.email@) {
                &&& final(self)@ == old(self)@
                &&& r matches Err(error)
                &&& is_statement_failure(error, DatabaseErrorKind::UniqueViolation, DUPLICATE_EMAIL@)
            } else {
                &&& r is Ok
                &&& final(self)@ == old(self)@.with_users(old(self)@.users.push(row@))
            },
    {
        if self.user_index_by_id(row.id.as_str()).is_some() {
            return Err(statement_failed(DatabaseErrorKind::UniqueViolation, DUPLICATE_KEY));
        }
        if self.user_index_by_email(row.email.as_str()).is_some() {
            return Err(statement_failed(DatabaseErrorKind::UniqueViolation, DUPLICATE_EMAIL));
        }
        self.users.push(row);
        proof {
            assert(self@.users =~= old(self)@.users.push(row@));
            old(self)@.lemma_wf_push_user(row@);
        }
        Ok(())
    }

    /// Changes the user at `i`: each value that is given takes the place of the old
    /// one. The store refuses a change that changes nothing, and an e-mail address that
    /// another user has, and then stays as it was.
    pub fn update_user_at(&mut self, i: usize, email: Option<String>, hash: Option<Vec<u8>>, salt: Option<String>) -> (r:
        Result<(), DBError>)
        requires
            old(self).wf(),
            i < old(self)@.users.len(),
        ensures
            final(self).wf(),
            if email is None && hash is None && salt is None {
                r matches Err(error) && error is QueryBuilderError && final(self)@ == old(self)@
            } else if email is Some && old(self)@.email_of_another(email->0@, i as int) {
                &&& final(self)@ == old(self)@
                &&& r matches Err(error)
                &&& is_statement_failure(error, DatabaseErrorKind::UniqueViolation, DUPLICATE_EMAIL@)
            } else {
                &&& r is Ok
                &&& final(self)@ == old(self)@.with_users(
                    old(self)@.users.update(
                        i as int,
                        changed_user(
                            old(self)@.users[i as int],
                            crate::jwt::text_of(email),
                            match hash {
                                Some(h) => Some(h@),
                                None => None,
                            },
                            crate::jwt::text_of(salt),
                        ),
                    ),
                )
            },
    {
        if email.is_none() && hash.is_none() && salt.is_none() {
            return Err(DBError::QueryBuilderError);
        }
        if let Some(address) = &email {
            if self.email_taken_by_another(address.as_str(), i) {
                return Err(statement_failed(DatabaseErrorKind::UniqueViolation, DUPLICATE_EMAIL));
            }
        }
        let ghost before = self@.users;
        let ghost email_text = crate::jwt::text_of(email);
        let mut row = self.users.remove(i);
        if let Some(address) = email {
            row.email = address;
        }
        if let Some(digest) = hash {
            row.hash = digest;
        }
        if let Some(text) = salt {
            row.salt = text;
        }
        self.users.insert(i, row);
        proof {
            assert(self@.users =~= before.update(i as int, row@));
            if email_text is Some {
                assert(!old(self)@.email_of_another(row@.email, i as int));
            } else {
                assert(row@.email == before[i as int].email);
                if old(self)@.email_of_another(row@.email, i as int) {
                    let k = choose|k: int|
                        0 <= k < before.len() && k != i && (#[trigger] before[k]).email == row@.email;
                    if k < i {
                        assert(before[k].email != before[i as int].email);
                    } else {
                        assert(before[i as int].email != before[k].email);
                    }
                }
            }
            old(self)@.lemma_wf_update_user(i as int, row@);
        }
        Ok(())
    }

    /// Stores an assignment. The store refuses one that the user has already, and then
    /// stays as it was.
    pub fn insert_assignment(&mut self, row: AuthAssignmentModel) -> (r: Result<(), DBError>)
        requires
            old(self).wf(),
        ensures
            final(self).wf(),
            if old(self)@.has_assignment(row.item_name@, row.user_id@) {
                &&& final(self)@ == old(self)@
                &&& r matches Err(error)
                &&& is_statement_failure(error, DatabaseErrorKind::UniqueViolation, DUPLICATE_KEY@)
            } else {
                &&& r is Ok
                &&& final(self)@ == old(self)@.with_assignments(old(self)@.auth_assignments.push(row))
            },
    {
        let mut i: usize = 0;
        while i < self.auth_assignments.len()
            invariant
                0 <= i <= self.auth_assignments@.len(),
                *self == *old(self),
                self.wf(),
                forall|k: int|
                    0 <= k < i ==> !((#[trigger] self@.auth_assignments[k]).item_name@ == row.item_name@
                        && self@.auth_assignments[k].user_id@ == row.user_id@),
            decreases self.auth_assignments@.len() - i,
        {
            if self.auth_assignments[i].item_name == row.item_name && self.auth_assignments[i].user_id
                == row.user_id {
                assert(self@.auth_assignments[i as int].item_name@ == row.item_name@);
                return Err(statement_failed(DatabaseErrorKind::UniqueViolation, DUPLICATE_KEY));
            }
            i += 1;
        }
        self.auth_assignments.push(row);
        proof {
            old(self)@.lemma_wf_push_assignment(row);
        }
        Ok(())
    }

    /// The assignments of a user, in the table's order.
    pub fn assignments_of(&self, user_id: &str) -> (r: Vec<AuthAssignmentModel>)
        ensures
            r@ == assignments_for(self@.auth_assignments, user_id@),
    {
        let ghost rows = self.auth_assignments@;
        let ghost mine = |row: AuthAssignmentModel| row.user_id@ == user_id@;
        let mut out: Vec<AuthAssignmentModel> = Vec::new();
        let mut i: usize = 0;
        while i < self.auth_assignments.len()
            invariant
                0 <= i <= self.auth_assignments@.len(),
                rows == self.auth_assignments@,
                mine == |row: AuthAssignmentModel| row.user_id@ == user_id@,
                out@ == rows.take(i as int).filter(mine),
            decreases self.auth_assignments@.len() - i,
        {
            let row = &self.auth_assignments[i];
            proof {
                assert(rows.take(i + 1).drop_last() =~= rows.take(i as int));
                assert(rows.take(i + 1).last() == *row);
                reveal(Seq::filter);
            }
            if same_text(row.user_id.as_str(), user_id) {
                out.push(
                    AuthAssignmentModel {
                        item_name: row.item_name.clone(),
                        user_id: row.user_id.clone(),
                        created_at: row.created_at,
                    },
                );
            }
            i += 1;
        }
        proof {
            assert(rows.take(rows.len() as int) =~= rows);
        }
        out
    }
}

impl Database {
    /// Stores an account at another provider. The store refuses a row whose id an
    /// account has already, and then stays as it was.
    pub fn insert_provider(&mut self, row: ExternalUserProviderModel) -> (r: Result<(), DBError>)
        requires
            old(self).wf(),
        ensures
            final(self).wf(),
            if old(self)@.has_provider_id(row.id@) {
                &&& final(self)@ == old(self)@
                &&& r matches Err(error)
                &&& is_statement_failure(error, DatabaseErrorKind::UniqueViolation, DUPLICATE_KEY@)
            } else {
                &&& r is Ok
                &&& final(self)@ == old(self)@.with_providers(old(self)@.external_user_providers.push(row))
            },
    {
        let mut i: usize = 0;
        while i < self.external_user_providers.len()
            invariant
                0 <= i <= self.external_user_providers@.len(),
                *self == *old(self),
                self.wf(),
                forall|k: int| 0 <= k < i ==> (#[trigger] self@.external_user_providers[k]).id@ != row.id@,
            decreases self.external_user_providers@.len() - i,
        {
            if self.external_user_providers[i].id == row.id {
                assert(self@.external_user_providers[i as int].id@ == row.id@);
                return Err(statement_failed(DatabaseErrorKind::UniqueViolation, DUPLICATE_KEY));
            }
            i += 1;
        }
        let ghost before = self@;
        self.external_user_providers.push(row);
        proof {
            let after = self@;
            assert(after.external_user_providers =~= before.external_user_providers.push(row));
            assert forall|a: int, b: int| 0 <= a < b < after.external_user_providers.len() implies (
            #[trigger] after.external_user_providers[a]).id@ != (#[trigger] after.external_user_providers[b]).id@ by {
                assert(after.external_user_providers[a] == before.external_user_providers[a]);
                if b < before.external_user_providers.len() {
                    assert(after.external_user_providers[b] == before.external_user_providers[b]);
                } else {
                    assert(before.external_user_providers[a].id@ != row.id@);
                }
            }
            assert(before.wf());
            assert(after.users == before.users);
            assert(after.user_tokens == before.user_tokens);
            assert(after.auth_assignments == before.auth_assignments);
            assert forall|a: int, b: int| 0 <= a < b < after.auth_assignments.len() implies !((
            #[trigger] after.auth_assignments[a]).item_name@ == (#[trigger] after.auth_assignments[b]).item_name@
                && after.auth_assignments[a].user_id@ == after.auth_assignments[b].user_id@) by {
                assert(!(before.auth_assignments[a].item_name@ == before.auth_assignments[b].item_name@
                    && before.auth_assignments[a].user_id@ == before.auth_assignments[b].user_id@));
            }
        }
        Ok(())
    }
}

/// No two of the texts are the same.
pub open spec fn all_distinct(texts: Seq<String>) -> bool {
    forall|i: int, j: int| 0 <= i < j < texts.len() ==> (#[trigger] texts[i])@ != (#[trigger] texts[j])@
}

/// Whether no two of the texts are the same.
pub fn distinct(texts: &Vec<String>) -> (r: bool)
    ensures
        r == all_distinct(texts@),
{
    let mut j: usize = 0;
    while j < texts.len()
        invariant
            0 <= j <= texts@.len(),
            forall|a: int, b: int| 0 <= a < b < j ==> (#[trigger] texts@[a])@ != (#[trigger] texts@[b])@,
        decreases texts@.len() - j,
    {
        let mut i: usize = 0;
        while i < j
            invariant
                0 <= i <= j < texts@.len(),
                forall|a: int| 0 <= a < i ==> (#[trigger] texts@[a])@ != texts@[j as int]@,
            decreases j - i,
        {
            if texts[i] == texts[j] {
                return false;
            }
            i += 1;
        }
        j += 1;
    }
    true
}

impl Database {
    /// Whether the store holds no value twice where it must not.
    pub fn is_well_formed(&self) -> (r: bool)
        ensures
            r == self.wf(),
    {
        let mut user_ids: Vec<String> = Vec::new();
        let mut emails: Vec<String> = Vec::new();
        let mut i: usize = 0;
        while i < self.users.len()
            invariant
                0 <= i <= self.users@.len(),
                user_ids@.len() == i,
                emails@.len() == i,
                forall|k: int| 0 <= k < i ==> (#[trigger] user_ids@[k])@ == self@.users[k].id,
                forall|k: int| 0 <= k < i ==> (#[trigger] emails@[k])@ == self@.users[k].email,
            decreases self.users@.len() - i,
        {
            user_ids.push(self.users[i].id.clone());
            emails.push(self.users[i].email.clone());
            i += 1;
        }
        let mut token_ids: Vec<String> = Vec::new();
        let mut refresh_tokens: Vec<String> = Vec::new();
        let mut i: usize = 0;
        while i < self.user_tokens.len()
            invariant
                0 <= i <= self.user_tokens@.len(),
                token_ids@.len() == i,
                refresh_tokens@.len() == i,
                forall|k: int| 0 <= k < i ==> (#[trigger] token_ids@[k])@ == self@.user_tokens[k].id,
                forall|k: int| 0 <= k < i ==> (#[trigger] refresh_tokens@[k])@ == self@.user_tokens[k].refresh_token,
            decreases self.user_tokens@.len() - i,
        {
            token_ids.push(self.user_tokens[i].id.clone());
            refresh_tokens.push(self.user_tokens[i].refresh_token.clone());
            i += 1;
        }
        let mut provider_ids: Vec<String> = Vec::new();
        let mut i: usize = 0;
        while i < self.external_user_providers.len()
            invariant
                0 <= i <= self.external_user_providers@.len(),
                provider_ids@.len() == i,
                forall|k: int| 0 <= k < i ==> (#[trigger] provider_ids@[k])@ == self@.external_user_providers[k].id@,
            decreases self.external_user_providers@.len() - i,
        {
            provider_ids.push(self.external_user_providers[i].id.clone());
            i += 1;
        }
        let assignments_distinct = self.assignments_distinct();
        let keys_distinct = distinct(&user_ids) && distinct(&emails) && distinct(&token_ids) && distinct(
            &refresh_tokens,
        ) && distinct(&provider_ids);
        proof {
            let t = self@;
            if all_distinct(user_ids@) {
                assert forall|a: int, b: int| 0 <= a < b < t.users.len() implies (#[trigger] t.users[a]).id != (
                #[trigger] t.users[b]).id by {
                    assert(user_ids@[a]@ != user_ids@[b]@);
                }
            } else {
                let (a, b) = choose|a: int, b: int|
                    0 <= a < b < user_ids@.len() && (#[trigger] user_ids@[a])@ == (#[trigger] user_ids@[b])@;
                assert(t.users[a].id == t.users[b].id);
            }
            if all_distinct(emails@) {
                assert forall|a: int, b: int| 0 <= a < b < t.users.len() implies (#[trigger] t.users[a]).email != (
                #[trigger] t.users[b]).email by {
                    assert(emails@[a]@ != emails@[b]@);
                }
            } else {
                let (a, b) = choose|a: int, b: int|
                    0 <= a < b < emails@.len() && (#[trigger] emails@[a])@ == (#[trigger] emails@[b])@;
                assert(t.users[a].email == t.users[b].email);
            }
            if all_distinct(token_ids@) {
                assert forall|a: int, b: int| 0 <= a < b < t.user_tokens.len() implies (#[trigger] t.user_tokens[a]).id
                    != (#[trigger] t.user_tokens[b]).id by {
                    assert(token_ids@[a]@ != token_ids@[b]@);
                }
            } else {
                let (a, b) = choose|a: int, b: int|
                    0 <= a < b < token_ids@.len() && (#[trigger] token_ids@[a])@ == (#[trigger] token_ids@[b])@;
                assert(t.user_tokens[a].id == t.user_tokens[b].id);
            }
            if all_distinct(refresh_tokens@) {
                assert forall|a: int, b: int| 0 <= a < b < t.user_tokens.len() implies (
                #[trigger] t.user_tokens[a]).refresh_token != (#[trigger] t.user_tokens[b]).refresh_token by {
                    assert(refresh_tokens@[a]@ != refresh_tokens@[b]@);
                }
            } else {
                let (a, b) = choose|a: int, b: int|
                    0 <= a < b < refresh_tokens@.len() && (#[trigger] refresh_tokens@[a])@ == (
                    #[trigger] refresh_tokens@[b])@;
                assert(t.user_tokens[a].refresh_token == t.user_tokens[b].refresh_token);
            }
            if all_distinct(provider_ids@) {
                assert forall|a: int, b: int| 0 <= a < b < t.external_user_providers.len() implies (
                #[trigger] t.external_user_providers[a]).id@ != (#[trigger] t.external_user_providers[b]).id@ by {
                    assert(provider_ids@[a]@ != provider_ids@[b]@);
                }
            } else {
                let (a, b) = choose|a: int, b: int|
                    0 <= a < b < provider_ids@.len() && (#[trigger] provider_ids@[a])@ == (
                    #[trigger] provider_ids@[b])@;
                assert(t.external_user_providers[a].id@ == t.external_user_providers[b].id@);
            }
        }
        keys_distinct && assignments_distinct
    }

    /// Whether no user has an assignment twice.
    fn assignments_distinct(&self) -> (r: bool)
        ensures
            r == forall|i: int, j: int|
                0 <= i < j < self@.auth_assignments.len() ==> !((#[trigger] self@.auth_assignments[i]).item_name@ == (
                #[trigger] self@.auth_assignments[j]).item_name@ && self@.auth_assignments[i].user_id@
                    == self@.auth_assignments[j].user_id@),
    {
        let rows = &self.auth_assignments;
        let mut j: usize = 0;
        while j < rows.len()
            invariant
                0 <= j <= rows@.len(),
                rows@ == self@.auth_assignments,
                forall|a: int, b: int|
                    0 <= a < b < j ==> !((#[trigger] rows@[a]).item_name@ == (#[trigger] rows@[b]).item_name@
                        && rows@[a].user_id@ == rows@[b].user_id@),
            decreases rows@.len() - j,
        {
            let mut i: usize = 0;
            while i < j
                invariant
                    0 <= i <= j < rows@.len(),
                    rows@ == self@.auth_assignments,
                    forall|a: int|
                        0 <= a < i ==> !((#[trigger] rows@[a]).item_name@ == rows@[j as int].item_name@
                            && rows@[a].user_id@ == rows@[j as int].user_id@),
                decreases j - i,
            {
                if rows[i].item_name == rows[j].item_name && rows[i].user_id == rows[j].user_id {
                    return false;
                }
                i += 1;
            }
            j += 1;
        }
        true
    }
}


impl Database {
    /// Whether the user has this assignment.
    pub fn assignment_exists(&self, item_name: &str, user_id: &str) -> (r: bool)
        ensures
            r == self@.has_assignment(item_name@, user_id@),
    {
        let mut i: usize = 0;
        while i < self.auth_assignments.len()
            invariant
                0 <= i <= self.auth_assignments@.len(),
                forall|k: int|
                    0 <= k < i ==> !((#[trigger] self@.auth_assignments[k]).item_name@ == item_name@
                        && self@.auth_assignments[k].user_id@ == user_id@),
            decreases self.auth_assignments@.len() - i,
        {
            if same_text(self.auth_assignments[i].item_name.as_str(), item_name) && same_text(
                self.auth_assignments[i].user_id.as_str(),
                user_id,
            ) {
                assert(self@.auth_assignments[i as int].item_name@ == item_name@);
                return true;
            }
            i += 1;
        }
        false
    }

    /// Whether an account at another provider has this id.
    pub fn provider_id_taken(&self, id: &str) -> (r: bool)
        ensures
            r == self@.has_provider_id(id@),
    {
        let mut i: usize = 0;
        while i < self.external_user_providers.len()
            invariant
                0 <= i <= self.external_user_providers@.len(),
                forall|k: int| 0 <= k < i ==> (#[trigger] self@.external_user_providers[k]).id@ != id@,
            decreases self.external_user_providers@.len() - i,
        {
            if same_text(self.external_user_providers[i].id.as_str(), id) {
                assert(self@.external_user_providers[i as int].id@ == id@);
                return true;
            }
            i += 1;
        }
        false
    }
}

} // verus!
