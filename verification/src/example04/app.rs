//! The application: it adds three users to its repository and reports what
//! the repository then lists.

use vstd::prelude::*;
use super::user::User;
use super::user_repository::{BTreeMapRepository, UserRepository};
use crate::listing::{by_key, is_place, keyed_insert, lemma_keyed_insert_at};
use crate::name_order::precedes;
use crate::report::{listing_text, render};

verus! {

/// The names that a run adds, in the order in which it adds them.
pub open spec fn added_names() -> Seq<Seq<char>> {
    seq!["Alice"@, "Bob"@, "Charlie"@]
}

/// Stored by key into an empty repository, the three names are listed in the
/// order in which a run adds them.
pub proof fn lemma_added_names_by_key()
    ensures
        keyed_insert(
            keyed_insert(keyed_insert(Seq::<Seq<char>>::empty(), "Alice"@), "Bob"@),
            "Charlie"@,
        ) == added_names(),
{
    reveal_strlit("Alice");
    reveal_strlit("Bob");
    reveal_strlit("Charlie");
    let none = Seq::<Seq<char>>::empty();
    let one = seq!["Alice"@];
    let two = seq!["Alice"@, "Bob"@];
    assert(precedes("Alice"@, "Bob"@));
    assert(precedes("Alice"@, "Charlie"@));
    assert(precedes("Bob"@, "Charlie"@));
    assert(is_place(none, "Alice"@, 0, 0));
    lemma_keyed_insert_at(none, "Alice"@, 0, 0);
    assert(keyed_insert(none, "Alice"@) =~= one);
    assert(is_place(one, "Bob"@, 1, 1));
    lemma_keyed_insert_at(one, "Bob"@, 1, 1);
    assert(keyed_insert(one, "Bob"@) =~= two);
    assert(is_place(two, "Charlie"@, 2, 2));
    lemma_keyed_insert_at(two, "Charlie"@, 2, 2);
    assert(keyed_insert(two, "Charlie"@) =~= added_names());
}

/// Runs the application over an empty repository keyed by name.
#[must_use]
pub fn run() -> (output: String)
    ensures
        output@ == listing_text(added_names()),
{
    let mut app = app_factory();
    proof {
        lemma_added_names_by_key();
    }
    app.run()
}

/// The application as it is built for use: over an empty repository keyed
/// by name.
pub fn app_factory() -> (app: App<BTreeMapRepository>)
    ensures
        app.wf(),
        app.listing() == Seq::<Seq<char>>::empty(),
        app.placement() == by_key(),
{
    App::new(BTreeMapRepository::default())
}

/// An application bound to the repository type `T`.
pub struct App<T: UserRepository> {
    user_repository: T,
}

impl<T: UserRepository> App<T> {
    /// The repository is well-formed.
    pub closed spec fn wf(&self) -> bool {
        self.user_repository.wf()
    }

    /// The names that the repository lists, in its order.
    pub closed spec fn listing(&self) -> Seq<Seq<char>> {
        self.user_repository.listing()
    }

    /// Where the repository puts a new name.
    pub closed spec fn placement(&self) -> spec_fn(Seq<Seq<char>>, Seq<char>) -> Seq<Seq<char>> {
        self.user_repository.placement()
    }

    /// The listing once a run has added its three names.
    pub open spec fn listing_after_run(&self) -> Seq<Seq<char>> {
        let place = self.placement();
        place(place(place(self.listing(), "Alice"@), "Bob"@), "Charlie"@)
    }

    /// The text that a run returns.
    pub open spec fn output_of_run(&self) -> Seq<char> {
        listing_text(self.listing_after_run())
    }

    /// An application over `user_repository`.
    #[must_use]
    pub fn new(user_repository: T) -> (app: Self)
        ensures
            app.wf() == user_repository.wf(),
            app.listing() == user_repository.listing(),
            app.placement() == user_repository.placement(),
    {
        Self { user_repository }
    }

    /// Adds Alice, Bob and Charlie, in this order, and returns one line for
    /// each user that the repository then lists.
    pub fn run(&mut self) -> (output: String)
        requires
            old(self).wf(),
        ensures
            final(self).wf(),
            final(self).placement() == old(self).placement(),
            final(self).listing() == old(self).listing_after_run(),
            output@ == old(self).output_of_run(),
    {
        self.user_repository.add_user(User::new("Alice"));
        self.user_repository.add_user(User::new("Bob"));
        self.user_repository.add_user(User::new("Charlie"));
        let users = self.user_repository.get_all_users();
        render(&users)
    }
}

} // verus!
