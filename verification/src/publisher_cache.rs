//! What the registry told about who published which version of a package,
//! kept between runs.

use vstd::prelude::*;
use vstd::std_specs::btree::group_btree_axioms;
use std::collections::BTreeMap;
use crate::date::Timestamp;
use crate::model::Duplicate;
use crate::table::{Table, TableView};
use crate::version::{Version, VersionView};

verus! {

/// One published version of a package.
#[derive(Clone, Debug, PartialEq, Eq)]
pub struct PublisherCacheVersion {
    pub num: Version,
    pub created_at: Timestamp,
    /// The id of the user who published the version, where it is known.
    pub published_by: Option<u64>,
}

pub struct PublisherCacheVersionView {
    pub num: VersionView,
    pub created_at: Timestamp,
    pub published_by: Option<u64>,
}

impl DeepView for PublisherCacheVersion {
    type V = PublisherCacheVersionView;

    open spec fn deep_view(&self) -> PublisherCacheVersionView {
        PublisherCacheVersionView {
            num: self.num.deep_view(),
            created_at: self.created_at,
            published_by: self.published_by,
        }
    }
}

impl Duplicate for PublisherCacheVersion {
    fn duplicate(&self) -> (r: Self) {
        PublisherCacheVersion {
            num: self.num.duplicate(),
            created_at: self.created_at,
            published_by: self.published_by,
        }
    }
}

/// The versions of a package, as they were last fetched.
#[derive(Clone, Debug, PartialEq, Eq)]
pub struct PublisherCacheEntry {
    pub last_fetched: Timestamp,
    pub versions: Vec<PublisherCacheVersion>,
}

pub struct PublisherCacheEntryView {
    pub last_fetched: Timestamp,
    pub versions: Seq<PublisherCacheVersionView>,
}

impl DeepView for PublisherCacheEntry {
    type V = PublisherCacheEntryView;

    open spec fn deep_view(&self) -> PublisherCacheEntryView {
        PublisherCacheEntryView {
            last_fetched: self.last_fetched,
            versions: self.versions.deep_view(),
        }
    }
}

impl Duplicate for PublisherCacheEntry {
    fn duplicate(&self) -> (r: Self) {
        PublisherCacheEntry {
            last_fetched: self.last_fetched,
            versions: self.versions.duplicate(),
        }
    }
}

/// A user of the registry.
#[derive(Clone, Debug, PartialEq, Eq)]
pub struct PublisherCacheUser {
    pub id: u64,
    pub login: String,
    pub name: Option<String>,
}

pub struct PublisherCacheUserView {
    pub id: u64,
    pub login: Seq<char>,
    pub name: Option<Seq<char>>,
}

impl DeepView for PublisherCacheUser {
    type V = PublisherCacheUserView;

    open spec fn deep_view(&self) -> PublisherCacheUserView {
        PublisherCacheUserView { id: self.id, login: self.login@, name: self.name.deep_view() }
    }
}

impl Duplicate for PublisherCacheUser {
    fn duplicate(&self) -> (r: Self) {
        PublisherCacheUser {
            id: self.id,
            login: self.login.clone(),
            name: self.name.duplicate(),
        }
    }
}

/// `publisher-cache.json`: the versions of each package, and the users that
/// were seen, by their ids.
#[derive(Clone, Debug, PartialEq, Eq)]
pub struct PublisherCache {
    pub crates: Table<PublisherCacheEntry>,
    pub users: BTreeMap<u64, PublisherCacheUser>,
}

pub struct PublisherCacheView {
    pub crates: TableView<PublisherCacheEntryView>,
    pub users: Map<u64, PublisherCacheUserView>,
}

/// What the records of the users hold, by the id of the user.
pub open spec fn users_view(users: BTreeMap<u64, PublisherCacheUser>) -> Map<
    u64,
    PublisherCacheUserView,
> {
    Map::new(|id: u64| users@.contains_key(id), |id: u64| users@[id].deep_view())
}

impl DeepView for PublisherCache {
    type V = PublisherCacheView;

    open spec fn deep_view(&self) -> PublisherCacheView {
        PublisherCacheView { crates: self.crates.deep_view(), users: users_view(self.users) }
    }
}

impl Duplicate for PublisherCache {
    fn duplicate(&self) -> (r: Self) {
        PublisherCache { crates: self.crates.duplicate(), users: self.users.clone() }
    }
}

/// The record of the user with the given id.
pub open spec fn user_of(users: Map<u64, PublisherCacheUserView>, id: u64) -> Option<
    PublisherCacheUserView,
> {
    if users.contains_key(id) {
        Some(users[id])
    } else {
        None
    }
}

/// The users with `user` recorded under its id, in the place of the record
/// that was there.
pub open spec fn with_user(
    users: Map<u64, PublisherCacheUserView>,
    user: PublisherCacheUserView,
) -> Map<u64, PublisherCacheUserView> {
    users.insert(user.id, user)
}

/// A recorded user is found, and the other users are found as before.
pub proof fn law_recorded_user_is_found(
    users: Map<u64, PublisherCacheUserView>,
    user: PublisherCacheUserView,
    id: u64,
)
    ensures
        user_of(with_user(users, user), id) == if id == user.id {
            Some(user)
        } else {
            user_of(users, id)
        },
{
}

impl PublisherCache {
    /// The packages are in order, and each user is recorded under its id.
    pub open spec fn wf(&self) -> bool {
        &&& self.crates.wf()
        &&& forall|id: u64| #[trigger]
            self.users@.contains_key(id) ==> self.users@[id].id == id
    }

    /// A cache that holds nothing.
    pub fn new() -> (r: PublisherCache)
        ensures
            r.wf(),
            r.deep_view() == (PublisherCacheView { crates: TableView::empty(), users: Map::empty() }),
    {
        let r = PublisherCache { crates: Table::new(), users: BTreeMap::new() };
        assert(users_view(r.users) =~= Map::empty());
        r
    }

    /// What is known of the user with the given id.
    pub fn get_crates_user_info(&self, user_id: u64) -> (r: Option<PublisherCacheUser>)
        ensures
            r.deep_view() == user_of(self.deep_view().users, user_id),
    {
        broadcast use group_btree_axioms;

        match self.users.get(&user_id) {
            Some(user) => Some(user.duplicate()),
            None => None,
        }
    }

    /// Records a user under its id, in the place of the record that was
    /// there.
    pub fn record_user(&mut self, user: PublisherCacheUser)
        requires
            old(self).wf(),
        ensures
            final(self).wf(),
            final(self).deep_view().crates == old(self).deep_view().crates,
            final(self).deep_view().users == with_user(old(self).deep_view().users, user.deep_view()),
    {
        broadcast use group_btree_axioms;

        let ghost made = user.deep_view();
        let ghost before = users_view(self.users);
        self.users.insert(user.id, user);
        assert(users_view(self.users) =~= before.insert(made.id, made));
    }
}

} // verus!
