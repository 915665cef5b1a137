//! The repository capability, and two implementations that differ in the
//! order in which they list their users.

use vstd::prelude::*;
use super::user::User;
use crate::listing::{
    ascending, by_arrival, by_key, keyed_insert, lemma_keyed_insert_absent,
    lemma_keyed_insert_present,
};
use crate::name_order::{lemma_trichotomy, precedes};
use crate::roster::{
    borrow_all, find_by_name, find_first, names_of, names_of_borrowed, store_by_name,
};

verus! {

/// A store of users that can be added to, searched by name and listed.
///
/// An implementation is described by the names it lists, in its order
/// (`listing`), and by where it puts a new name (`placement`); an
/// application knows no more of it than that. The three descriptions have
/// defaults, those of a list that starts empty, so that an implementation
/// that is not verified gives the three operations alone.
pub trait UserRepository {
    /// What the implementation needs to hold of its own state.
    open spec fn wf(&self) -> bool {
        true
    }

    /// The names of the stored users, in the order in which they are listed.
    open spec fn listing(&self) -> Seq<Seq<char>> {
        Seq::empty()
    }

    /// The listing that results from a listing and a name added to it.
    open spec fn placement(&self) -> spec_fn(Seq<Seq<char>>, Seq<char>) -> Seq<Seq<char>> {
        by_arrival()
    }

    /// Adds `user`, where the implementation places it.
    fn add_user(&mut self, user: User)
        requires
            old(self).wf(),
        ensures
            final(self).wf(),
            final(self).placement() == old(self).placement(),
            final(self).listing() == (old(self).placement())(old(self).listing(), user@),
    ;

    /// The user called `name`, if one is stored.
    fn get_user(&self, name: &str) -> (found: Option<&User>)
        requires
            self.wf(),
        ensures
            match found {
                Some(user) => user@ == name@ && self.listing().contains(name@),
                None => !self.listing().contains(name@),
            },
    ;

    /// All stored users, in the order of the listing.
    fn get_all_users(&self) -> (users: Vec<&User>)
        requires
            self.wf(),
        ensures
            names_of_borrowed(users@) == self.listing(),
    ;
}

/// A repository keyed by name: it lists its users in ascending order of
/// their names, and holds one user of each name.
pub struct BTreeMapRepository {
    users: Vec<User>,
}

impl BTreeMapRepository {
    /// A well-formed repository keyed by name lists its names in ascending
    /// order, so none of them twice.
    pub proof fn lemma_listing_is_ascending(&self)
        requires
            self.wf(),
        ensures
            ascending(self.listing()),
            self.listing().no_duplicates(),
    {
        let l = self.listing();
        assert forall|i: int, j: int| 0 <= i < l.len() && 0 <= j < l.len() && i != j implies l[i]
            != l[j] by {
            lemma_trichotomy(l[i], l[j]);
            if i < j {
                assert(precedes(l[i], l[j]));
            } else {
                assert(precedes(l[j], l[i]));
            }
        }
    }
}

impl Default for BTreeMapRepository {
    /// The empty repository.
    fn default() -> (repository: Self)
        ensures
            repository.wf(),
            repository.listing() == Seq::<Seq<char>>::empty(),
    {
        let repository = BTreeMapRepository { users: Vec::new() };
        assert(repository.listing() =~= Seq::<Seq<char>>::empty());
        repository
    }
}

impl UserRepository for BTreeMapRepository {
    closed spec fn wf(&self) -> bool {
        ascending(names_of(self.users@))
    }

    closed spec fn listing(&self) -> Seq<Seq<char>> {
        names_of(self.users@)
    }

    open spec fn placement(&self) -> spec_fn(Seq<Seq<char>>, Seq<char>) -> Seq<Seq<char>> {
        by_key()
    }

    /// Adds `user` at the place of its name. Where a user of that name is
    /// stored already, it is replaced, and the listing stays as it is.
    fn add_user(&mut self, user: User)
        ensures
            final(self).listing() == keyed_insert(old(self).listing(), user@),
            old(self).listing().contains(user@) ==> final(self).listing() == old(self).listing(),
            !old(self).listing().contains(user@) ==> final(self).listing().len() == old(
                self,
            ).listing().len() + 1,
    {
        proof {
            if self.listing().contains(user@) {
                lemma_keyed_insert_present(self.listing(), user@);
            } else {
                lemma_keyed_insert_absent(self.listing(), user@);
            }
        }
        store_by_name(&mut self.users, user);
    }

    fn get_user(&self, name: &str) -> (found: Option<&User>) {
        find_by_name(&self.users, name)
    }

    fn get_all_users(&self) -> (users: Vec<&User>)
        ensures
            ascending(names_of_borrowed(users@)),
    {
        borrow_all(&self.users)
    }
}

/// A repository that is a list: it lists its users in the order in which
/// they were added, and holds a name as often as it was added.
pub struct VecRepository {
    users: Vec<User>,
}

impl Default for VecRepository {
    /// The empty repository.
    fn default() -> (repository: Self)
        ensures
            repository.wf(),
            repository.listing() == Seq::<Seq<char>>::empty(),
    {
        let repository = VecRepository { users: Vec::new() };
        assert(repository.listing() =~= Seq::<Seq<char>>::empty());
        repository
    }
}

impl UserRepository for VecRepository {
    open spec fn wf(&self) -> bool {
        true
    }

    closed spec fn listing(&self) -> Seq<Seq<char>> {
        names_of(self.users@)
    }

    open spec fn placement(&self) -> spec_fn(Seq<Seq<char>>, Seq<char>) -> Seq<Seq<char>> {
        by_arrival()
    }

    fn add_user(&mut self, user: User) {
        self.users.push(user);
        assert(names_of(self.users@) =~= names_of(old(self).users@).push(user@));
    }

    fn get_user(&self, name: &str) -> (found: Option<&User>) {
        find_first(&self.users, name)
    }

    fn get_all_users(&self) -> (users: Vec<&User>) {
        borrow_all(&self.users)
    }
}

} // verus!
