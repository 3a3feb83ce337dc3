//! The authorization graph: permission nodes, inheritance edges between them, and the
//! question whether a principal's assignments permit an action.

use crate::db::Database;
use crate::models::auth::{assigned_names, AuthAssignmentModel, AuthItemChildModel, AuthItemModel};
use crate::models::user::UserModel;
use crate::errors::SrvError;
use crate::text::same_text;
use vstd::prelude::*;

verus! {

/// The name of the role that every registered principal holds.
pub const USER_ITEM_NAME: &'static str = "user";

/// The name of the role that administrators hold.
pub const ADMIN_ITEM_NAME: &'static str = "admin";

/// The children recorded for one parent, in the order in which they were loaded.
#[derive(Clone, Debug)]
pub struct AuthRelation {
    pub parent: String,
    pub children: Vec<String>,
}

/// The permission graph as it is held in memory: the known nodes, and for each parent
/// the list of its children.
#[derive(Clone, Debug)]
pub struct AuthorizationService {
    pub auth_items: Vec<AuthItemModel>,
    pub auth_relations: Vec<AuthRelation>,
}

/// The names in a list of children.
pub open spec fn child_names(children: Seq<String>) -> Seq<Seq<char>> {
    Seq::new(children.len(), |j: int| children[j]@)
}

/// The children that `given` lists for `parent`, in the order of `given`.
pub open spec fn listed_children(given: Seq<AuthItemChildModel>, parent: Seq<char>) -> Seq<Seq<char>>
    decreases given.len(),
{
    if given.len() == 0 {
        Seq::empty()
    } else {
        let before = listed_children(given.drop_last(), parent);
        if given.last().parent@ == parent {
            before.push(given.last().child@)
        } else {
            before
        }
    }
}

/// How many entries of `marks` are still `false`.
spec fn unmarked(marks: Seq<bool>) -> nat
    decreases marks.len(),
{
    if marks.len() == 0 {
        0
    } else {
        unmarked(marks.drop_last()) + if marks.last() { 0nat } else { 1nat }
    }
}

proof fn lemma_unmarked_set(marks: Seq<bool>, i: int)
    requires
        0 <= i < marks.len(),
        !marks[i],
    ensures
        unmarked(marks.update(i, true)) + 1 == unmarked(marks),
    decreases marks.len(),
{
    let after = marks.update(i, true);
    if i == marks.len() - 1 {
        assert(after.drop_last() =~= marks.drop_last());
    } else {
        lemma_unmarked_set(marks.drop_last(), i);
        assert(after.drop_last() =~= marks.drop_last().update(i, true));
    }
}

impl AuthorizationService {
    /// `name` is the name of a loaded permission node.
    pub open spec fn knows(&self, name: Seq<char>) -> bool {
        exists|i: int| 0 <= i < self.auth_items@.len() && (#[trigger] self.auth_items@[i]).name@ == name
    }

    /// `child` stands in the list of entry `i`, and that entry belongs to `parent`.
    pub open spec fn edge_at(&self, i: int, j: int, parent: Seq<char>, child: Seq<char>) -> bool {
        &&& 0 <= i < self.auth_relations@.len()
        &&& self.auth_relations@[i].parent@ == parent
        &&& 0 <= j < self.auth_relations@[i].children@.len()
        &&& self.auth_relations@[i].children@[j]@ == child
    }

    /// The graph holds the edge from `parent` to `child`.
    pub open spec fn has_edge(&self, parent: Seq<char>, child: Seq<char>) -> bool {
        exists|i: int, j: int| #[trigger] self.edge_at(i, j, parent, child)
    }

    /// `p` names at least two nodes, each joined to the next by an edge.
    pub open spec fn is_path(&self, p: Seq<Seq<char>>) -> bool {
        &&& p.len() >= 2
        &&& forall|k: int| 0 <= k < p.len() - 1 ==> self.has_edge(#[trigger] p[k], p[k + 1])
    }

    /// `to` can be reached from `from` by following one edge or more.
    pub open spec fn reaches(&self, from: Seq<char>, to: Seq<char>) -> bool {
        exists|p: Seq<Seq<char>>| #[trigger] self.is_path(p) && p[0] == from && p[p.len() - 1] == to
    }

    /// What holding the single node `role` permits: nothing where the node is unknown,
    /// every action that is no known node, and of the known nodes those that `role`
    /// reaches.
    pub open spec fn role_authorizes(&self, role: Seq<char>, action: Seq<char>) -> bool {
        self.knows(role) && (self.knows(action) ==> self.reaches(role, action))
    }

    /// Some one of the assigned nodes permits `action`.
    pub open spec fn authorizes(&self, assigned: Seq<Seq<char>>, action: Seq<char>) -> bool {
        exists|i: int| 0 <= i < assigned.len() && self.role_authorizes(#[trigger] assigned[i], action)
    }

    /// An entry belongs to `parent`.
    pub open spec fn has_entry(&self, parent: Seq<char>) -> bool {
        exists|i: int| 0 <= i < self.auth_relations@.len() && (#[trigger] self.auth_relations@[i]).parent@ == parent
    }

    /// Where the entry of `parent` stands.
    pub open spec fn entry_of(&self, parent: Seq<char>) -> int {
        choose|i: int| 0 <= i < self.auth_relations@.len() && (#[trigger] self.auth_relations@[i]).parent@ == parent
    }

    /// The names of the children of `parent`, in their order; none where `parent` has
    /// no entry.
    pub open spec fn children_of(&self, parent: Seq<char>) -> Seq<Seq<char>> {
        if self.has_entry(parent) {
            child_names(self.auth_relations@[self.entry_of(parent)].children@)
        } else {
            Seq::empty()
        }
    }

    /// No node is held twice, no parent has two entries, and every entry holds one
    /// child at least.
    pub open spec fn wf(&self) -> bool {
        &&& forall|i: int, j: int|
            0 <= i < j < self.auth_items@.len() ==> (#[trigger] self.auth_items@[i]).name@ != (
            #[trigger] self.auth_items@[j]).name@
        &&& forall|i: int, j: int|
            0 <= i < j < self.auth_relations@.len() ==> (#[trigger] self.auth_relations@[i]).parent@
                != (#[trigger] self.auth_relations@[j]).parent@
        &&& forall|i: int|
            0 <= i < self.auth_relations@.len() ==> (#[trigger] self.auth_relations@[i]).children@.len() > 0
    }

    /// Every entry that belongs to `name` is marked.
    spec fn all_marked(&self, name: Seq<char>, marks: Seq<bool>) -> bool {
        forall|m: int|
            0 <= m < self.auth_relations@.len() && (#[trigger] self.auth_relations@[m]).parent@ == name
                ==> marks[m]
    }

    /// Entry `i` is done with: none of its children is `action`, and the entries of each
    /// of its children are marked.
    spec fn closed_entry(&self, i: int, marks: Seq<bool>, action: Seq<char>) -> bool {
        forall|j: int|
            0 <= j < self.auth_relations@[i].children@.len() ==> {
                &&& (#[trigger] self.auth_relations@[i].children@[j])@ != action
                &&& self.all_marked(self.auth_relations@[i].children@[j]@, marks)
            }
    }

    /// A parent's entry is the one that bears its name.
    proof fn lemma_entry_of(&self, i: int)
        requires
            self.wf(),
            0 <= i < self.auth_relations@.len(),
        ensures
            self.has_entry(self.auth_relations@[i].parent@),
            self.entry_of(self.auth_relations@[i].parent@) == i,
    {
        let p = self.auth_relations@[i].parent@;
        assert(self.auth_relations@[i].parent@ == p);
        let c = self.entry_of(p);
        if c < i {
            assert(self.auth_relations@[c].parent@ != self.auth_relations@[i].parent@);
        } else if i < c {
            assert(self.auth_relations@[i].parent@ != self.auth_relations@[c].parent@);
        }
    }

    /// An edge is a path.
    pub proof fn lemma_edge_reaches(&self, a: Seq<char>, b: Seq<char>)
        requires
            self.has_edge(a, b),
        ensures
            self.reaches(a, b),
    {
        let p = seq![a, b];
        assert(self.is_path(p));
        assert(p[0] == a && p[p.len() - 1] == b);
    }

    /// A path goes on by an edge.
    pub proof fn lemma_reaches_step(&self, a: Seq<char>, b: Seq<char>, c: Seq<char>)
        requires
            self.reaches(a, b),
            self.has_edge(b, c),
        ensures
            self.reaches(a, c),
    {
        let p = choose|p: Seq<Seq<char>>| #[trigger] self.is_path(p) && p[0] == a && p[p.len() - 1] == b;
        let q = p.push(c);
        assert forall|k: int| 0 <= k < q.len() - 1 implies self.has_edge(#[trigger] q[k], q[k + 1]) by {
            if k < p.len() - 1 {
                assert(self.has_edge(p[k], p[k + 1]));
            }
        }
        assert(self.is_path(q));
        assert(q[0] == a && q[q.len() - 1] == c);
    }

    /// Along a path that starts at a name whose entries are marked, where every marked
    /// entry is closed, every node but the last has its entries marked, and the node
    /// after it is not `action`.
    proof fn lemma_closed_path(&self, marks: Seq<bool>, action: Seq<char>, p: Seq<Seq<char>>, k: int)
        requires
            self.is_path(p),
            marks.len() == self.auth_relations@.len(),
            self.all_marked(p[0], marks),
            forall|i: int| 0 <= i < marks.len() && marks[i] ==> self.closed_entry(i, marks, action),
            0 <= k < p.len() - 1,
        ensures
            self.all_marked(p[k], marks),
            p[k + 1] != action,
        decreases k,
    {
        if k > 0 {
            self.lemma_closed_path(marks, action, p, k - 1);
            assert(self.has_edge(p[k - 1], p[k - 1 + 1]));
            let (a, b) = (p[k - 1], p[k]);
            let (i, j) = choose|i: int, j: int| #[trigger] self.edge_at(i, j, a, b);
            assert(self.auth_relations@[i].parent@ == p[k - 1]);
            assert(marks[i]);
            assert(self.closed_entry(i, marks, action));
            assert(self.auth_relations@[i].children@[j]@ == p[k]);
        }
        assert(self.has_edge(p[k], p[k + 1]));
        let (a, b) = (p[k], p[k + 1]);
        let (i, j) = choose|i: int, j: int| #[trigger] self.edge_at(i, j, a, b);
        assert(self.auth_relations@[i].parent@ == p[k]);
        assert(marks[i]);
        assert(self.closed_entry(i, marks, action));
        assert(self.auth_relations@[i].children@[j]@ == p[k + 1]);
    }
}

impl AuthorizationService {
    /// Marks every entry of `name` that is not marked yet, and puts it on the stack.
    fn schedule(&self, name: &String, marks: &mut Vec<bool>, stack: &mut Vec<usize>)
        requires
            old(marks)@.len() == self.auth_relations@.len(),
        ensures
            final(marks)@.len() == old(marks)@.len(),
            forall|i: int|
                0 <= i < old(marks)@.len() ==> (#[trigger] final(marks)@[i] <==> old(marks)@[i]
                    || self.auth_relations@[i].parent@ == name@),
            old(stack)@.len() <= final(stack)@.len(),
            forall|k: int| 0 <= k < old(stack)@.len() ==> #[trigger] final(stack)@[k] == old(stack)@[k],
            forall|k: int|
                old(stack)@.len() <= k < final(stack)@.len() ==> {
                    &&& 0 <= #[trigger] final(stack)@[k] < old(marks)@.len()
                    &&& !old(marks)@[final(stack)@[k] as int]
                    &&& self.auth_relations@[final(stack)@[k] as int].parent@ == name@
                },
            forall|i: int|
                0 <= i < old(marks)@.len() && !old(marks)@[i] && #[trigger] final(marks)@[i] ==> final(stack)@.contains(
                    i as usize,
                ),
            unmarked(final(marks)@) + (final(stack)@.len() - old(stack)@.len()) == unmarked(old(marks)@),
    {
        let n = self.auth_relations.len();
        let mut m: usize = 0;
        while m < n
            invariant
                n == self.auth_relations@.len(),
                marks@.len() == n,
                0 <= m <= n,
                forall|i: int|
                    0 <= i < m ==> (#[trigger] marks@[i] <==> old(marks)@[i]
                        || self.auth_relations@[i].parent@ == name@),
                forall|i: int| m <= i < n ==> #[trigger] marks@[i] == old(marks)@[i],
                old(stack)@.len() <= stack@.len(),
                forall|k: int| 0 <= k < old(stack)@.len() ==> #[trigger] stack@[k] == old(stack)@[k],
                forall|k: int|
                    old(stack)@.len() <= k < stack@.len() ==> {
                        &&& 0 <= #[trigger] stack@[k] < n
                        &&& !old(marks)@[stack@[k] as int]
                        &&& self.auth_relations@[stack@[k] as int].parent@ == name@
                    },
                forall|i: int|
                    0 <= i < m && !old(marks)@[i] && #[trigger] marks@[i] ==> stack@.contains(i as usize),
                unmarked(marks@) + (stack@.len() - old(stack)@.len()) == unmarked(old(marks)@),
            decreases n - m,
        {
            if !marks[m] && self.auth_relations[m].parent == *name {
                let ghost stack_mid = stack@;
                proof {
                    lemma_unmarked_set(marks@, m as int);
                }
                marks[m] = true;
                stack.push(m);
                proof {
                    assert(stack@[stack_mid.len() as int] == m);
                    assert forall|i: int|
                        0 <= i < m + 1 && !old(marks)@[i] && #[trigger] marks@[i] implies stack@.contains(
                        i as usize,
                    ) by {
                        if i < m {
                            let k = choose|k: int| 0 <= k < stack_mid.len() && stack_mid[k] == i as usize;
                            assert(stack@[k] == i as usize);
                        }
                    }
                }
            }
            m += 1;
        }
    }

    /// Whether `action` can be reached from `auth_item` by following one edge or more.
    ///
    /// The search keeps a mark for each entry of the graph and a stack of the entries it
    /// has still to look into. An entry is marked when it is put on the stack, and never
    /// twice, so the search ends however the edges run: into themselves, in circles, or
    /// by two ways to one node.
    pub fn verify_in_relations(&self, auth_item: &String, action: &String) -> (found: bool)
        ensures
            found == self.reaches(auth_item@, action@),
    {
        let n = self.auth_relations.len();
        let mut marks: Vec<bool> = Vec::new();
        while marks.len() < n
            invariant
                marks@.len() <= n,
                forall|i: int| 0 <= i < marks@.len() ==> !#[trigger] marks@[i],
            decreases n - marks@.len(),
        {
            marks.push(false);
        }
        let mut stack: Vec<usize> = Vec::new();
        self.schedule(auth_item, &mut marks, &mut stack);
        while stack.len() > 0
            invariant
                n == self.auth_relations@.len(),
                marks@.len() == n,
                forall|k: int| 0 <= k < stack@.len() ==> 0 <= #[trigger] stack@[k] < n && marks@[stack@[k] as int],
                forall|i: int|
                    0 <= i < n && #[trigger] marks@[i] ==> self.auth_relations@[i].parent@ == auth_item@
                        || self.reaches(auth_item@, self.auth_relations@[i].parent@),
                self.all_marked(auth_item@, marks@),
                forall|i: int|
                    0 <= i < n && #[trigger] marks@[i] && !stack@.contains(i as usize)
                        ==> self.closed_entry(i, marks@, action@),
            decreases unmarked(marks@), stack@.len(),
        {
            let ghost stack_before = stack@;
            let ghost marks_before = marks@;
            let top = stack.pop().unwrap();
            let ghost rest = stack@;
            let parent = &self.auth_relations[top].parent;
            let children = &self.auth_relations[top].children;
            let mut j: usize = 0;
            while j < children.len()
                invariant
                    0 <= j <= children@.len(),
                    0 <= top < self.auth_relations@.len(),
                    children == &self.auth_relations@[top as int].children,
                    parent == &self.auth_relations@[top as int].parent,
                    parent@ == auth_item@ || self.reaches(auth_item@, parent@),
                    forall|k: int| 0 <= k < j ==> (#[trigger] children@[k])@ != action@,
                decreases children@.len() - j,
            {
                if children[j] == *action {
                    proof {
                        assert(self.edge_at(top as int, j as int, parent@, action@));
                        assert(self.has_edge(parent@, action@));
                        if parent@ == auth_item@ {
                            self.lemma_edge_reaches(auth_item@, action@);
                        } else {
                            self.lemma_reaches_step(auth_item@, parent@, action@);
                        }
                    }
                    return true;
                }
                j += 1;
            }
            let mut j: usize = 0;
            while j < children.len()
                invariant
                    0 <= j <= children@.len(),
                    0 <= top < n,
                    n == self.auth_relations@.len(),
                    marks@.len() == n,
                    children == &self.auth_relations@[top as int].children,
                    parent == &self.auth_relations@[top as int].parent,
                    parent@ == auth_item@ || self.reaches(auth_item@, parent@),
                    marks_before.len() == n,
                    forall|i: int| 0 <= i < n && marks_before[i] ==> #[trigger] marks@[i],
                    rest.len() <= stack@.len(),
                    forall|k: int| 0 <= k < rest.len() ==> #[trigger] stack@[k] == rest[k],
                    forall|k: int| 0 <= k < stack@.len() ==> 0 <= #[trigger] stack@[k] < n && marks@[stack@[k] as int],
                    forall|i: int|
                        0 <= i < n && #[trigger] marks@[i] ==> self.auth_relations@[i].parent@ == auth_item@
                            || self.reaches(auth_item@, self.auth_relations@[i].parent@),
                    forall|i: int|
                        0 <= i < n && #[trigger] marks@[i] && !marks_before[i] ==> stack@.contains(i as usize),
                    forall|k: int| 0 <= k < j ==> self.all_marked((#[trigger] children@[k])@, marks@),
                    unmarked(marks@) + (stack@.len() - rest.len()) == unmarked(marks_before),
                decreases children@.len() - j,
            {
                let ghost marks_mid = marks@;
                let ghost stack_mid = stack@;
                self.schedule(&children[j], &mut marks, &mut stack);
                proof {
                    let child = children@[j as int]@;
                    assert(self.edge_at(top as int, j as int, parent@, child));
                    assert(self.has_edge(parent@, child));
                    if parent@ == auth_item@ {
                        self.lemma_edge_reaches(auth_item@, child);
                    } else {
                        self.lemma_reaches_step(auth_item@, parent@, child);
                    }
                    assert forall|i: int| 0 <= i < n && #[trigger] marks@[i] && !marks_before[i] implies stack@.contains(
                        i as usize,
                    ) by {
                        if marks_mid[i] {
                            let k = choose|k: int| 0 <= k < stack_mid.len() && stack_mid[k] == i as usize;
                            assert(stack@[k] == i as usize);
                        } else {
                            assert(self.auth_relations@[i].parent@ == child);
                        }
                    }
                    assert forall|k: int| 0 <= k < j + 1 implies self.all_marked((#[trigger] children@[k])@, marks@) by {
                        if k < j {
                            assert(self.all_marked(children@[k]@, marks_mid));
                        }
                    }
                }
                j += 1;
            }
            proof {
                assert(stack_before =~= rest.push(top));
                assert forall|i: int|
                    0 <= i < n && #[trigger] marks@[i] && !stack@.contains(i as usize) implies self.closed_entry(
                    i,
                    marks@,
                    action@,
                ) by {
                    if i == top as int {
                    } else {
                        assert(marks_before[i]);
                        if stack_before.contains(i as usize) {
                            let k = choose|k: int| 0 <= k < stack_before.len() && stack_before[k] == i as usize;
                            assert(k < rest.len());
                            assert(stack@[k] == i as usize);
                        }
                        assert(self.closed_entry(i, marks_before, action@));
                    }
                }
            }
        }
        proof {
            if self.reaches(auth_item@, action@) {
                let p = choose|p: Seq<Seq<char>>| #[trigger]
                    self.is_path(p) && p[0] == auth_item@ && p[p.len() - 1] == action@;
                self.lemma_closed_path(marks@, action@, p, p.len() - 2);
            }
        }
        false
    }
}

/// `given` holds `item`, and no later place of `given` holds its name.
pub open spec fn is_last_of_name(given: Seq<AuthItemModel>, item: AuthItemModel) -> bool {
    exists|k: int|
        0 <= k < given.len() && #[trigger] given[k] == item && forall|l: int|
            k < l < given.len() ==> (#[trigger] given[l]).name@ != item.name@
}

/// `given` holds the pair of `parent` and `child`.
pub open spec fn lists_edge(given: Seq<AuthItemChildModel>, parent: Seq<char>, child: Seq<char>) -> bool {
    exists|k: int| 0 <= k < given.len() && (#[trigger] given[k]).parent@ == parent && given[k].child@ == child
}

/// `given` holds a node of this name.
pub open spec fn lists_name(given: Seq<AuthItemModel>, name: Seq<char>) -> bool {
    exists|k: int| 0 <= k < given.len() && (#[trigger] given[k]).name@ == name
}

/// A copy of a node.
pub fn copy_item(item: &AuthItemModel) -> (r: AuthItemModel)
    ensures
        r == *item,
{
    let description = match &item.description {
        Some(text) => Some(text.clone()),
        None => None,
    };
    AuthItemModel {
        name: item.name.clone(),
        item_type: item.item_type,
        description,
        created_at: item.created_at,
        updated_at: item.updated_at,
    }
}

impl AuthorizationService {
    /// A service that knows no node and holds no edge.
    pub fn new() -> (r: AuthorizationService)
        ensures
            r.auth_items@.len() == 0,
            r.auth_relations@.len() == 0,
            r.wf(),
    {
        AuthorizationService { auth_items: Vec::new(), auth_relations: Vec::new() }
    }

    /// Where the node of this name is held.
    fn item_index(&self, name: &String) -> (r: Option<usize>)
        ensures
            match r {
                Some(i) => 0 <= i < self.auth_items@.len() && self.auth_items@[i as int].name@ == name@,
                None => !self.knows(name@),
            },
    {
        let mut i: usize = 0;
        while i < self.auth_items.len()
            invariant
                0 <= i <= self.auth_items@.len(),
                forall|k: int| 0 <= k < i ==> (#[trigger] self.auth_items@[k]).name@ != name@,
            decreases self.auth_items@.len() - i,
        {
            if self.auth_items[i].name == *name {
                return Some(i);
            }
            i += 1;
        }
        None
    }

    /// Where the entry of this parent is held.
    fn relation_index(&self, parent: &String) -> (r: Option<usize>)
        ensures
            match r {
                Some(i) => 0 <= i < self.auth_relations@.len() && self.auth_relations@[i as int].parent@
                    == parent@,
                None => forall|k: int|
                    0 <= k < self.auth_relations@.len() ==> (#[trigger] self.auth_relations@[k]).parent@
                        != parent@,
            },
    {
        let mut i: usize = 0;
        while i < self.auth_relations.len()
            invariant
                0 <= i <= self.auth_relations@.len(),
                forall|k: int| 0 <= k < i ==> (#[trigger] self.auth_relations@[k]).parent@ != parent@,
            decreases self.auth_relations@.len() - i,
        {
            if self.auth_relations[i].parent == *parent {
                return Some(i);
            }
            i += 1;
        }
        None
    }

    /// Holds `item` under its name, in place of the node held under that name so far.
    fn insert_item(&mut self, item: AuthItemModel)
        requires
            old(self).wf(),
        ensures
            final(self).wf(),
            final(self).auth_relations == old(self).auth_relations,
            forall|i: int|
                0 <= i < final(self).auth_items@.len() ==> #[trigger] final(self).auth_items@[i] == item || (
                exists|k: int|
                    0 <= k < old(self).auth_items@.len()
                        && #[trigger] old(self).auth_items@[k] == final(self).auth_items@[i]
                        && old(self).auth_items@[k].name@ != item.name@),
            forall|k: int|
                0 <= k < old(self).auth_items@.len() && (#[trigger] old(self).auth_items@[k]).name@
                    != item.name@ ==> final(self).auth_items@.contains(old(self).auth_items@[k]),
            final(self).auth_items@.contains(item),
    {
        match self.item_index(&item.name) {
            Some(i) => {
                let ghost before = self.auth_items@;
                self.auth_items[i] = item;
                proof {
                    assert(self.auth_items@[i as int] == item);
                    assert forall|k: int|
                        0 <= k < before.len() && (#[trigger] before[k]).name@ != item.name@ implies self.auth_items@.contains(
                        before[k],
                    ) by {
                        assert(self.auth_items@[k] == before[k]);
                    }
                }
            },
            None => {
                let ghost before = self.auth_items@;
                self.auth_items.push(item);
                proof {
                    assert(self.auth_items@[before.len() as int] == item);
                    assert forall|k: int|
                        0 <= k < before.len() && (#[trigger] before[k]).name@ != item.name@ implies self.auth_items@.contains(
                        before[k],
                    ) by {
                        assert(self.auth_items@[k] == before[k]);
                    }
                }
            },
        }
    }

    /// Records the edge from `parent` to `child`, after the children that `parent` has so far.
    fn insert_relation(&mut self, parent: String, child: String)
        requires
            old(self).wf(),
        ensures
            final(self).wf(),
            final(self).auth_items == old(self).auth_items,
            forall|a: Seq<char>, b: Seq<char>|
                final(self).has_edge(a, b) <==> old(self).has_edge(a, b) || (a == parent@ && b == child@),
            forall|p: Seq<char>|
                #[trigger] final(self).children_of(p) == if p == parent@ {
                    old(self).children_of(p).push(child@)
                } else {
                    old(self).children_of(p)
                },
    {
        let ghost before = *self;
        match self.relation_index(&parent) {
            Some(i) => {
                let mut entry = self.auth_relations.remove(i);
                let ghost entry_before = entry;
                entry.children.push(child);
                self.auth_relations.insert(i, entry);
                proof {
                    let after = *self;
                    assert(after.auth_relations@.len() == before.auth_relations@.len());
                    assert forall|a: Seq<char>, b: Seq<char>|
                        after.has_edge(a, b) <==> before.has_edge(a, b) || (a == parent@ && b == child@) by {
                        if after.has_edge(a, b) {
                            let (x, y) = choose|x: int, y: int| #[trigger] after.edge_at(x, y, a, b);
                            if x == i as int && y == entry_before.children@.len() {
                            } else {
                                assert(before.edge_at(x, y, a, b));
                            }
                        }
                        if before.has_edge(a, b) {
                            let (x, y) = choose|x: int, y: int| #[trigger] before.edge_at(x, y, a, b);
                            assert(after.edge_at(x, y, a, b));
                        }
                        if a == parent@ && b == child@ {
                            assert(after.edge_at(i as int, entry_before.children@.len() as int, a, b));
                        }
                    }
                    assert forall|k: int| 0 <= k < after.auth_relations@.len() implies (
                    #[trigger] after.auth_relations@[k]).parent@ == before.auth_relations@[k].parent@ by {}
                    assert forall|p: Seq<char>| #[trigger]
                        after.children_of(p) == if p == parent@ {
                            before.children_of(p).push(child@)
                        } else {
                            before.children_of(p)
                        } by {
                        if before.has_entry(p) {
                            let c = before.entry_of(p);
                            before.lemma_entry_of(c);
                            assert(after.auth_relations@[c].parent@ == p);
                            after.lemma_entry_of(c);
                            if c == i as int {
                                assert(child_names(after.auth_relations@[c].children@) =~= child_names(
                                    before.auth_relations@[c].children@,
                                ).push(child@));
                            } else {
                                assert(after.auth_relations@[c] == before.auth_relations@[c]);
                            }
                        } else {
                            if after.has_entry(p) {
                                let c = after.entry_of(p);
                                assert(before.auth_relations@[c].parent@ == p);
                            }
                        }
                    }
                }
            },
            None => {
                let mut children: Vec<String> = Vec::new();
                let ghost parent_text = parent@;
                children.push(child);
                self.auth_relations.push(AuthRelation { parent, children });
                proof {
                    let after = *self;
                    let last = before.auth_relations@.len() as int;
                    assert forall|a: Seq<char>, b: Seq<char>|
                        after.has_edge(a, b) <==> before.has_edge(a, b) || (a == parent_text && b == child@) by {
                        if after.has_edge(a, b) {
                            let (x, y) = choose|x: int, y: int| #[trigger] after.edge_at(x, y, a, b);
                            if x == last {
                            } else {
                                assert(before.edge_at(x, y, a, b));
                            }
                        }
                        if before.has_edge(a, b) {
                            let (x, y) = choose|x: int, y: int| #[trigger] before.edge_at(x, y, a, b);
                            assert(after.edge_at(x, y, a, b));
                        }
                        if a == parent_text && b == child@ {
                            assert(after.edge_at(last, 0, a, b));
                        }
                    }
                    assert forall|k: int| 0 <= k < last implies #[trigger] after.auth_relations@[k]
                        == before.auth_relations@[k] by {}
                    assert forall|p: Seq<char>| #[trigger]
                        after.children_of(p) == if p == parent_text {
                            before.children_of(p).push(child@)
                        } else {
                            before.children_of(p)
                        } by {
                        if p == parent_text {
                            assert(after.auth_relations@[last].parent@ == p);
                            after.lemma_entry_of(last);
                            assert(child_names(after.auth_relations@[last].children@) =~= Seq::<Seq<char>>::empty().push(
                                child@,
                            ));
                        } else if before.has_entry(p) {
                            let c = before.entry_of(p);
                            assert(after.auth_relations@[c].parent@ == p);
                            after.lemma_entry_of(c);
                        } else {
                            if after.has_entry(p) {
                                let c = after.entry_of(p);
                                assert(before.auth_relations@[c].parent@ == p);
                            }
                        }
                    }
                }
            },
        }
    }
}

impl AuthorizationService {
    /// Loads the graph anew from the rows of the two tables: what it held before is
    /// dropped. Of two nodes of one name the later one is held. A parent's children
    /// stand in the order of their rows, and only a parent that has a child has an
    /// entry.
    pub fn init(&mut self, items: Vec<AuthItemModel>, item_children: Vec<AuthItemChildModel>)
        ensures
            final(self).wf(),
            forall|name: Seq<char>| final(self).knows(name) <==> lists_name(items@, name),
            forall|i: int|
                0 <= i < final(self).auth_items@.len() ==> is_last_of_name(
                    items@,
                    #[trigger] final(self).auth_items@[i],
                ),
            forall|a: Seq<char>, b: Seq<char>| final(self).has_edge(a, b) <==> lists_edge(item_children@, a, b),
            forall|p: Seq<char>| #[trigger] final(self).children_of(p) == listed_children(item_children@, p),
            forall|i: int|
                0 <= i < final(self).auth_relations@.len() ==> (#[trigger] final(self).auth_relations@[i]).children@.len()
                    > 0,
    {
        self.auth_items = Vec::new();
        self.auth_relations = Vec::new();
        let mut i: usize = 0;
        while i < items.len()
            invariant
                0 <= i <= items@.len(),
                self.wf(),
                self.auth_relations@.len() == 0,
                forall|h: int|
                    0 <= h < self.auth_items@.len() ==> is_last_of_name(
                        items@.take(i as int),
                        #[trigger] self.auth_items@[h],
                    ),
                forall|k: int| 0 <= k < i ==> self.knows((#[trigger] items@[k]).name@),
            decreases items@.len() - i,
        {
            let ghost before = *self;
            let item = copy_item(&items[i]);
            self.insert_item(item);
            proof {
                let shorter = items@.take(i as int);
                let longer = items@.take(i + 1);
                assert(longer[i as int] == item);
                assert forall|h: int| 0 <= h < self.auth_items@.len() implies is_last_of_name(
                    longer,
                    #[trigger] self.auth_items@[h],
                ) by {
                    let held = self.auth_items@[h];
                    if held == item {
                        assert(longer[i as int] == held);
                    } else {
                        let o = choose|o: int|
                            0 <= o < before.auth_items@.len() && #[trigger] before.auth_items@[o] == held
                                && before.auth_items@[o].name@ != item.name@;
                        assert(is_last_of_name(shorter, before.auth_items@[o]));
                        let k = choose|k: int|
                            0 <= k < shorter.len() && #[trigger] shorter[k] == held && forall|l: int|
                                k < l < shorter.len() ==> (#[trigger] shorter[l]).name@ != held.name@;
                        assert(longer[k] == held);
                        assert forall|l: int| k < l < longer.len() implies (#[trigger] longer[l]).name@
                            != held.name@ by {
                            if l < i {
                                assert(shorter[l] == longer[l]);
                            }
                        }
                    }
                }
                assert forall|k: int| 0 <= k < i + 1 implies self.knows((#[trigger] items@[k]).name@) by {
                    if k < i {
                        assert(before.knows(items@[k].name@));
                        let o = choose|o: int|
                            0 <= o < before.auth_items@.len() && (#[trigger] before.auth_items@[o]).name@
                                == items@[k].name@;
                        if before.auth_items@[o].name@ != item.name@ {
                            assert(self.auth_items@.contains(before.auth_items@[o]));
                            let w = choose|w: int|
                                0 <= w < self.auth_items@.len() && self.auth_items@[w] == before.auth_items@[o];
                            assert(self.auth_items@[w].name@ == items@[k].name@);
                        } else {
                            let w = choose|w: int| 0 <= w < self.auth_items@.len() && self.auth_items@[w] == item;
                            assert(self.auth_items@[w].name@ == items@[k].name@);
                        }
                    } else {
                        let w = choose|w: int| 0 <= w < self.auth_items@.len() && self.auth_items@[w] == item;
                        assert(self.auth_items@[w].name@ == items@[k].name@);
                    }
                }
            }
            i += 1;
        }
        proof {
            assert(items@.take(items@.len() as int) =~= items@);
            assert forall|name: Seq<char>| self.knows(name) <==> lists_name(items@, name) by {
                if self.knows(name) {
                    let h = choose|h: int|
                        0 <= h < self.auth_items@.len() && (#[trigger] self.auth_items@[h]).name@ == name;
                    assert(is_last_of_name(items@, self.auth_items@[h]));
                    let k = choose|k: int| 0 <= k < items@.len() && #[trigger] items@[k] == self.auth_items@[h];
                    assert(items@[k].name@ == name);
                }
                if lists_name(items@, name) {
                    let k = choose|k: int| 0 <= k < items@.len() && (#[trigger] items@[k]).name@ == name;
                    assert(self.knows(items@[k].name@));
                }
            }
        }
        let ghost loaded = self.auth_items;
        let mut i: usize = 0;
        while i < item_children.len()
            invariant
                0 <= i <= item_children@.len(),
                self.wf(),
                self.auth_items == loaded,
                forall|a: Seq<char>, b: Seq<char>|
                    self.has_edge(a, b) <==> lists_edge(item_children@.take(i as int), a, b),
                forall|p: Seq<char>|
                    #[trigger] self.children_of(p) == listed_children(item_children@.take(i as int), p),
            decreases item_children@.len() - i,
        {
            let ghost before = *self;
            let parent = item_children[i].parent.clone();
            let child = item_children[i].child.clone();
            self.insert_relation(parent, child);
            proof {
                let shorter = item_children@.take(i as int);
                let longer = item_children@.take(i + 1);
                assert(longer.drop_last() =~= shorter);
                assert(longer.last() == item_children@[i as int]);
                assert forall|p: Seq<char>| #[trigger] self.children_of(p) == listed_children(longer, p) by {
                    assert(before.children_of(p) == listed_children(shorter, p));
                }
                assert forall|a: Seq<char>, b: Seq<char>| self.has_edge(a, b) <==> lists_edge(longer, a, b) by {
                    if lists_edge(longer, a, b) {
                        let k = choose|k: int|
                            0 <= k < longer.len() && (#[trigger] longer[k]).parent@ == a && longer[k].child@ == b;
                        if k < i {
                            assert(shorter[k].parent@ == a && shorter[k].child@ == b);
                            assert(lists_edge(shorter, a, b));
                        }
                    }
                    if before.has_edge(a, b) {
                        assert(lists_edge(shorter, a, b));
                        let k = choose|k: int|
                            0 <= k < shorter.len() && (#[trigger] shorter[k]).parent@ == a && shorter[k].child@
                                == b;
                        assert(longer[k].parent@ == a && longer[k].child@ == b);
                    }
                    if a == parent@ && b == child@ {
                        assert(longer[i as int].parent@ == a && longer[i as int].child@ == b);
                    }
                }
            }
            i += 1;
        }
        proof {
            assert(item_children@.take(item_children@.len() as int) =~= item_children@);
        }
    }

    /// Whether `role` itself is among the assigned nodes. The graph is not asked.
    pub fn is_role(&self, assignments: &Option<Vec<AuthAssignmentModel>>, role: &str) -> (r: bool)
        ensures
            r == match assignments {
                Some(list) => assigned_names(list@).contains(role@),
                None => false,
            },
    {
        match assignments {
            Some(list) => {
                let mut i: usize = 0;
                while i < list.len()
                    invariant
                        0 <= i <= list@.len(),
                        *assignments == Some(*list),
                        forall|k: int| 0 <= k < i ==> #[trigger] assigned_names(list@)[k] != role@,
                    decreases list@.len() - i,
                {
                    if same_text(list[i].item_name.as_str(), role) {
                        proof {
                            let names = assigned_names(list@);
                            assert(names.len() == list@.len());
                            assert(names[i as int] == role@);
                        }
                        return true;
                    }
                    i += 1;
                }
                false
            },
            None => false,
        }
    }

    /// Whether the node named `admin` is among the assigned nodes.
    pub fn is_admin(&self, assignments: &Option<Vec<AuthAssignmentModel>>) -> (r: bool)
        ensures
            r == match assignments {
                Some(list) => assigned_names(list@).contains(ADMIN_ITEM_NAME@),
                None => false,
            },
    {
        self.is_role(assignments, ADMIN_ITEM_NAME)
    }

    /// Whether the node named `user` is among the assigned nodes.
    pub fn is_user(&self, assignments: &Option<Vec<AuthAssignmentModel>>) -> (r: bool)
        ensures
            r == match assignments {
                Some(list) => assigned_names(list@).contains(USER_ITEM_NAME@),
                None => false,
            },
    {
        self.is_role(assignments, USER_ITEM_NAME)
    }

    /// Whether the assignments permit `action`: one of the assigned nodes must do so by
    /// itself. Without assignments nothing is permitted.
    pub fn is_authorized(&self, assignments: &Option<Vec<AuthAssignmentModel>>, action: String) -> (r: bool)
        ensures
            r == match assignments {
                Some(list) => self.authorizes(assigned_names(list@), action@),
                None => false,
            },
    {
        match assignments {
            Some(list) => {
                let mut i: usize = 0;
                while i < list.len()
                    invariant
                        0 <= i <= list@.len(),
                        *assignments == Some(*list),
                        forall|k: int|
                            0 <= k < i ==> !self.role_authorizes(#[trigger] assigned_names(list@)[k], action@),
                    decreases list@.len() - i,
                {
                    if self._is_authorized(&list[i].item_name, &action) {
                        proof {
                            let names = assigned_names(list@);
                            assert(names.len() == list@.len());
                            assert(self.role_authorizes(names[i as int], action@));
                        }
                        return true;
                    }
                    i += 1;
                }
                false
            },
            None => false,
        }
    }

    /// Whether holding the one node `role` permits `action`.
    pub fn _is_authorized(&self, role: &String, action: &String) -> (r: bool)
        ensures
            r == self.role_authorizes(role@, action@),
    {
        match self.item_index(role) {
            Some(i) => {
                assert(self.knows(role@));
                match self.item_index(action) {
                    Some(j) => {
                        assert(self.knows(action@));
                        self.verify_in_relations(&self.auth_items[i].name, action)
                    },
                    None => true,
                }
            },
            None => false,
        }
    }
}

impl AuthorizationService {
    /// A known role permits itself as an action where an edge, or a chain of edges,
    /// leads from the role back to it. A known role that no chain leads back to does not
    /// permit itself: it is a known node, so it must be reached like any other.
    pub proof fn law_role_permits_itself_on_a_cycle(&self, role: Seq<char>)
        requires
            self.knows(role),
            self.reaches(role, role),
        ensures
            self.authorizes(seq![role], role),
    {
        let assigned = seq![role];
        assert(self.role_authorizes(assigned[0], role));
    }

    /// Permission grows with the assignments: what some of a principal's nodes permit,
    /// the principal is still permitted when it holds more nodes.
    pub proof fn law_more_assignments_permit_more(
        &self,
        fewer: Seq<Seq<char>>,
        more: Seq<Seq<char>>,
        action: Seq<char>,
    )
        requires
            forall|i: int| 0 <= i < fewer.len() ==> more.contains(#[trigger] fewer[i]),
            self.authorizes(fewer, action),
        ensures
            self.authorizes(more, action),
    {
        let i = choose|i: int| 0 <= i < fewer.len() && self.role_authorizes(#[trigger] fewer[i], action);
        assert(more.contains(fewer[i]));
        let j = choose|j: int| 0 <= j < more.len() && more[j] == fewer[i];
        assert(self.role_authorizes(more[j], action));
    }

    /// An action that is no known node is permitted to whoever holds a known role.
    pub proof fn law_unknown_action_is_permitted(&self, role: Seq<char>, action: Seq<char>)
        requires
            self.knows(role),
            !self.knows(action),
        ensures
            self.authorizes(seq![role], action),
    {
        let assigned = seq![role];
        assert(self.role_authorizes(assigned[0], action));
    }

    /// Who holds nothing is permitted nothing, and a role that is no known node permits
    /// nothing.
    pub proof fn law_nothing_without_a_known_role(&self, assigned: Seq<Seq<char>>, action: Seq<char>)
        requires
            forall|i: int| 0 <= i < assigned.len() ==> !self.knows(#[trigger] assigned[i]),
        ensures
            !self.authorizes(assigned, action),
    {
    }
}

/// The words with which a request without a principal is turned away.
pub const NOT_AUTHENTICATED: &'static str = "not authenticated";

/// The words with which a principal is turned away that lacks a permission.
pub const INSUFFICIENT_PERMISSION: &'static str = "insufficient permission";

impl AuthorizationService {
    /// The nodes as the store holds them.
    pub fn auth_items_from_db(db: &Database) -> (r: Vec<AuthItemModel>)
        ensures
            r@ == db@.auth_items,
    {
        let mut out: Vec<AuthItemModel> = Vec::new();
        let mut i: usize = 0;
        while i < db.auth_items.len()
            invariant
                0 <= i <= db.auth_items@.len(),
                out@ == db.auth_items@.take(i as int),
            decreases db.auth_items@.len() - i,
        {
            out.push(copy_item(&db.auth_items[i]));
            proof {
                assert(db.auth_items@.take(i + 1) =~= db.auth_items@.take(i as int).push(db.auth_items@[i as int]));
            }
            i += 1;
        }
        proof {
            assert(db.auth_items@.take(db.auth_items@.len() as int) =~= db.auth_items@);
        }
        out
    }

    /// The edges as the store holds them.
    pub fn auth_children_from_db(db: &Database) -> (r: Vec<AuthItemChildModel>)
        ensures
            r@ == db@.auth_item_children,
    {
        let mut out: Vec<AuthItemChildModel> = Vec::new();
        let mut i: usize = 0;
        while i < db.auth_item_children.len()
            invariant
                0 <= i <= db.auth_item_children@.len(),
                out@ == db.auth_item_children@.take(i as int),
            decreases db.auth_item_children@.len() - i,
        {
            let row = &db.auth_item_children[i];
            out.push(AuthItemChildModel { parent: row.parent.clone(), child: row.child.clone() });
            proof {
                assert(db.auth_item_children@.take(i + 1) =~= db.auth_item_children@.take(i as int).push(
                    db.auth_item_children@[i as int],
                ));
            }
            i += 1;
        }
        proof {
            assert(db.auth_item_children@.take(db.auth_item_children@.len() as int) =~= db.auth_item_children@);
        }
        out
    }

    /// This service holds the graph that the rows of the two tables describe.
    pub open spec fn holds_graph(&self, items: Seq<AuthItemModel>, item_children: Seq<AuthItemChildModel>) -> bool {
        &&& self.wf()
        &&& forall|name: Seq<char>| self.knows(name) <==> lists_name(items, name)
        &&& forall|i: int|
            0 <= i < self.auth_items@.len() ==> is_last_of_name(items, #[trigger] self.auth_items@[i])
        &&& forall|a: Seq<char>, b: Seq<char>| self.has_edge(a, b) <==> lists_edge(item_children, a, b)
        &&& forall|p: Seq<char>| #[trigger] self.children_of(p) == listed_children(item_children, p)
    }

    /// Loads the graph anew from the store.
    pub fn init_from(&mut self, db: &Database)
        ensures
            final(self).holds_graph(db@.auth_items, db@.auth_item_children),
    {
        let items = Self::auth_items_from_db(db);
        let item_children = Self::auth_children_from_db(db);
        self.init(items, item_children);
    }
}

/// The principal of a request, or the failure that turns away a request without one.
pub fn assert_user(user: &Option<UserModel>) -> (r: Result<&UserModel, SrvError>)
    ensures
        match user {
            Some(principal) => r matches Ok(same) && same == principal,
            None => r matches Err(error) && error.is_unauthorized(NOT_AUTHENTICATED@),
        },
{
    match user {
        Some(principal) => Ok(principal),
        None => Err(SrvError::unauthorized(NOT_AUTHENTICATED)),
    }
}

/// Lets a request pass that has a principal.
pub fn require_authenticated(user: &Option<UserModel>) -> (r: Result<(), SrvError>)
    ensures
        match user {
            Some(_) => r is Ok,
            None => r matches Err(error) && error.is_unauthorized(NOT_AUTHENTICATED@),
        },
{
    match user {
        Some(_) => Ok(()),
        None => Err(SrvError::unauthorized(NOT_AUTHENTICATED)),
    }
}

/// Lets a request pass whose assignments permit `role_name` as an action of the graph.
pub fn require_role(
    service: &AuthorizationService,
    assignments: &Option<Vec<AuthAssignmentModel>>,
    role_name: &str,
) -> (r: Result<(), SrvError>)
    ensures
        match assignments {
            Some(list) if service.authorizes(assigned_names(list@), role_name@) => r is Ok,
            _ => r matches Err(error) && error.is_unauthorized(INSUFFICIENT_PERMISSION@),
        },
{
    if service.is_authorized(assignments, role_name.to_owned()) {
        Ok(())
    } else {
        Err(SrvError::unauthorized(INSUFFICIENT_PERMISSION))
    }
}

} // verus!
