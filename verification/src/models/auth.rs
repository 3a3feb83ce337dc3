//! Rows of the three permission tables.

use crate::authorization::copy_item;
use crate::clock::unix_now;
use crate::db::{is_statement_failure, Database, Tables, DUPLICATE_KEY};
use crate::errors::{DBError, DatabaseErrorKind};
use crate::text::same_text;
use vstd::prelude::*;

verus! {

/// A permission node: a role that can be assigned, or an action that can be asked for.
#[derive(Clone, Debug)]
pub struct AuthItemModel {
    /// The node's name: its key.
    pub name: String,
    /// The node's kind, as the table numbers it.
    pub item_type: i16,
    pub description: Option<String>,
    /// Seconds since the epoch.
    pub created_at: i64,
    /// Seconds since the epoch.
    pub updated_at: i64,
}

/// An inheritance edge: who holds `parent` holds what `child` stands for.
#[derive(Clone, Debug)]
pub struct AuthItemChildModel {
    pub parent: String,
    pub child: String,
}

/// The grant of one permission node to one principal.
#[derive(Clone, Debug)]
pub struct AuthAssignmentModel {
    pub item_name: String,
    pub user_id: String,
    /// Seconds since the epoch.
    pub created_at: i64,
}

/// The names that a list of assignments grants, in the list's order.
pub open spec fn assigned_names(assignments: Seq<AuthAssignmentModel>) -> Seq<Seq<char>> {
    Seq::new(assignments.len(), |i: int| assignments[i].item_name@)
}

/// The values of an assignment that is yet to be stored.
#[derive(Debug)]
pub struct NewAuthAssignmentModel<'a> {
    pub item_name: &'a str,
    pub user_id: &'a str,
}

impl<'a> NewAuthAssignmentModel<'a> {
    /// The assignment of the node to the user.
    pub fn new(item_name: &'a str, user_id: &'a str) -> (r: NewAuthAssignmentModel<'a>)
        ensures
            r.item_name@ == item_name@,
            r.user_id@ == user_id@,
    {
        NewAuthAssignmentModel { item_name, user_id }
    }

    /// What storing the assignment at `now` does to the store, and what it returns.
    ///
    /// An assignment that the user has already is a duplicate key, and the store stays
    /// as it was. Otherwise the row is added behind the others, and returned.
    pub open spec fn saved(&self, before: Tables, after: Tables, now: i64, r: Result<AuthAssignmentModel, DBError>) -> bool {
        if before.has_assignment(self.item_name@, self.user_id@) {
            &&& after == before
            &&& r matches Err(error)
            &&& is_statement_failure(error, DatabaseErrorKind::UniqueViolation, DUPLICATE_KEY@)
        } else {
            &&& r matches Ok(stored)
            &&& stored.item_name@ == self.item_name@
            &&& stored.user_id@ == self.user_id@
            &&& stored.created_at == now
            &&& after == before.with_assignments(before.auth_assignments.push(stored))
        }
    }

    /// Stores the assignment at `now`.
    pub fn save_at(&self, db: &mut Database, now: i64) -> (r: Result<AuthAssignmentModel, DBError>)
        requires
            old(db).wf(),
        ensures
            final(db).wf(),
            self.saved(old(db)@, final(db)@, now, r),
    {
        let row = AuthAssignmentModel {
            item_name: self.item_name.to_owned(),
            user_id: self.user_id.to_owned(),
            created_at: now,
        };
        let stored = AuthAssignmentModel {
            item_name: row.item_name.clone(),
            user_id: row.user_id.clone(),
            created_at: now,
        };
        match db.insert_assignment(row) {
            Ok(_) => Ok(stored),
            Err(error) => Err(error),
        }
    }

    /// Stores the assignment now.
    pub fn save(&self, db: &mut Database) -> (r: Result<AuthAssignmentModel, DBError>)
        requires
            old(db).wf(),
        ensures
            final(db).wf(),
            exists|now: i64| #[trigger] self.saved(old(db)@, final(db)@, now, r),
    {
        let now = unix_now();
        self.save_at(db, now)
    }
}

/// The nodes of the store that are children of the node `name`: for each edge from
/// `name`, in the order of the edges, the nodes that bear the name the edge leads to, in
/// the order of the nodes.
pub open spec fn joined_children(items: Seq<AuthItemModel>, edges: Seq<AuthItemChildModel>, name: Seq<char>) -> Seq<
    AuthItemModel,
>
    decreases edges.len(),
{
    if edges.len() == 0 {
        Seq::empty()
    } else {
        let before = joined_children(items, edges.drop_last(), name);
        if edges.last().parent@ == name {
            before + items.filter(|item: AuthItemModel| item.name@ == edges.last().child@)
        } else {
            before
        }
    }
}

impl AuthItemModel {
    /// The nodes that are children of this one.
    pub fn children(&self, db: &Database) -> (r: Result<Vec<AuthItemModel>, DBError>)
        ensures
            r matches Ok(list) && list@ == joined_children(db@.auth_items, db@.auth_item_children, self.name@),
    {
        let mut list: Vec<AuthItemModel> = Vec::new();
        let ghost edges = db@.auth_item_children;
        let ghost items = db@.auth_items;
        let mut c: usize = 0;
        while c < db.auth_item_children.len()
            invariant
                0 <= c <= db.auth_item_children@.len(),
                edges == db@.auth_item_children,
                items == db@.auth_items,
                list@ == joined_children(items, edges.take(c as int), self.name@),
            decreases db.auth_item_children@.len() - c,
        {
            let edge = &db.auth_item_children[c];
            proof {
                assert(edges.take(c + 1).drop_last() =~= edges.take(c as int));
                assert(edges.take(c + 1).last() == edges[c as int]);
            }
            if edge.parent == self.name {
                let ghost before = list@;
                let ghost named = |item: AuthItemModel| item.name@ == edge.child@;
                let mut i: usize = 0;
                proof {
                    reveal(Seq::filter);
                    assert(items.take(0).filter(named) =~= Seq::<AuthItemModel>::empty());
                    assert(list@ =~= before + items.take(0).filter(named));
                }
                while i < db.auth_items.len()
                    invariant
                        0 <= i <= db.auth_items@.len(),
                        items == db@.auth_items,
                        named == |item: AuthItemModel| item.name@ == edge.child@,
                        list@ == before + items.take(i as int).filter(named),
                    decreases db.auth_items@.len() - i,
                {
                    proof {
                        assert(items.take(i + 1).drop_last() =~= items.take(i as int));
                        assert(items.take(i + 1).last() == items[i as int]);
                        reveal(Seq::filter);
                    }
                    if db.auth_items[i].name == edge.child {
                        let copy = copy_item(&db.auth_items[i]);
                        list.push(copy);
                        proof {
                            assert(list@ =~= before + items.take(i + 1).filter(named));
                        }
                    }
                    i += 1;
                }
                proof {
                    assert(items.take(items.len() as int) =~= items);
                }
            }
            c += 1;
        }
        proof {
            assert(edges.take(edges.len() as int) =~= edges);
        }
        Ok(list)
    }
}

} // verus!
