//! Loading the accounts at other providers for many users at once.

use crate::db::Database;
use crate::models::external_user_provider::{copy_provider, ExternalUserProviderModel};
use vstd::prelude::*;

verus! {

/// The accounts that one user has at other providers.
#[derive(Debug)]
pub struct UserProviders {
    pub user_id: String,
    pub providers: Vec<ExternalUserProviderModel>,
}

/// The accounts of one user among `data`, in the order of `data`.
pub open spec fn providers_for(data: Seq<ExternalUserProviderModel>, user_id: Seq<char>) -> Seq<
    ExternalUserProviderModel,
> {
    data.filter(|row: ExternalUserProviderModel| row.user_id@ == user_id)
}

/// The users that `keys` names, each once, in the order in which `keys` names them
/// first.
pub open spec fn distinct_keys(keys: Seq<String>) -> Seq<Seq<char>>
    decreases keys.len(),
{
    if keys.len() == 0 {
        Seq::empty()
    } else {
        let before = distinct_keys(keys.drop_last());
        if before.contains(keys.last()@) {
            before
        } else {
            before.push(keys.last()@)
        }
    }
}

/// The users of the groups, in the order of the groups.
pub open spec fn group_ids(groups: Seq<UserProviders>) -> Seq<Seq<char>> {
    Seq::new(groups.len(), |g: int| groups[g].user_id@)
}

/// `groups` sorts `data` by the users of `keys`: each user that `keys` names has one
/// group, in the order in which `keys` names the users first, and a user's group holds
/// the user's accounts in the order of `data`.
pub open spec fn is_grouping(groups: Seq<UserProviders>, keys: Seq<String>, data: Seq<ExternalUserProviderModel>) -> bool {
    &&& group_ids(groups) == distinct_keys(keys)
    &&& forall|g: int|
        0 <= g < groups.len() ==> (#[trigger] groups[g]).providers@ == providers_for(data, groups[g].user_id@)
}

fn group_exists(groups: &Vec<UserProviders>, user_id: &String) -> (r: bool)
    ensures
        r == group_ids(groups@).contains(user_id@),
{
    let mut g: usize = 0;
    while g < groups.len()
        invariant
            0 <= g <= groups@.len(),
            forall|x: int| 0 <= x < g ==> #[trigger] group_ids(groups@)[x] != user_id@,
        decreases groups@.len() - g,
    {
        if groups[g].user_id == *user_id {
            assert(group_ids(groups@)[g as int] == user_id@);
            return true;
        }
        g += 1;
    }
    false
}

fn providers_of(data: &Vec<ExternalUserProviderModel>, user_id: &String) -> (r: Vec<ExternalUserProviderModel>)
    ensures
        r@ == providers_for(data@, user_id@),
{
    let ghost mine = |row: ExternalUserProviderModel| row.user_id@ == user_id@;
    let mut out: Vec<ExternalUserProviderModel> = Vec::new();
    let mut i: usize = 0;
    while i < data.len()
        invariant
            0 <= i <= data@.len(),
            mine == |row: ExternalUserProviderModel| row.user_id@ == user_id@,
            out@ == data@.take(i as int).filter(mine),
        decreases data@.len() - i,
    {
        proof {
            assert(data@.take(i + 1).drop_last() =~= data@.take(i as int));
            assert(data@.take(i + 1).last() == data@[i as int]);
            reveal(Seq::filter);
        }
        if data[i].user_id == *user_id {
            out.push(copy_provider(&data[i]));
        }
        i += 1;
    }
    proof {
        assert(data@.take(data@.len() as int) =~= data@);
    }
    out
}

/// Sorts the accounts by the users that `keys` names, in the order in which `keys`
/// names them first. Accounts of other users are left out.
pub fn group_by_user(keys: &Vec<String>, data: &Vec<ExternalUserProviderModel>) -> (r: Vec<UserProviders>)
    ensures
        is_grouping(r@, keys@, data@),
{
    let mut groups: Vec<UserProviders> = Vec::new();
    let mut k: usize = 0;
    proof {
        assert(group_ids(groups@) =~= distinct_keys(keys@.take(0)));
    }
    while k < keys.len()
        invariant
            0 <= k <= keys@.len(),
            is_grouping(groups@, keys@.take(k as int), data@),
        decreases keys@.len() - k,
    {
        let ghost before = groups@;
        proof {
            assert(keys@.take(k + 1).drop_last() =~= keys@.take(k as int));
            assert(keys@.take(k + 1).last() == keys@[k as int]);
        }
        if !group_exists(&groups, &keys[k]) {
            let providers = providers_of(data, &keys[k]);
            groups.push(UserProviders { user_id: keys[k].clone(), providers });
            proof {
                assert(group_ids(groups@) =~= group_ids(before).push(keys@[k as int]@));
                assert forall|g: int| 0 <= g < before.len() implies groups@[g] == before[g] by {}
            }
        }
        k += 1;
    }
    proof {
        assert(keys@.take(keys@.len() as int) =~= keys@);
    }
    groups
}

/// Loads the accounts at other providers by user.
#[derive(Debug)]
pub struct EupByUserIdLoaderFn {}

impl EupByUserIdLoaderFn {
    pub fn new() -> Self {
        EupByUserIdLoaderFn {  }
    }

    /// The accounts that the store holds for the users that `keys` names, sorted by
    /// user. A user without accounts has an empty group.
    pub fn load(&self, db: &Database, keys: &Vec<String>) -> (r: Vec<UserProviders>)
        ensures
            is_grouping(r@, keys@, db@.external_user_providers),
    {
        group_by_user(keys, &db.external_user_providers)
    }
}

/// The loaders of a request.
#[derive(Debug)]
pub struct DataLoaders {
    pub e_user_by_user_id: EupByUserIdLoaderFn,
}

impl DataLoaders {
    pub fn new() -> Self {
        DataLoaders { e_user_by_user_id: EupByUserIdLoaderFn::new() }
    }
}

} // verus!
