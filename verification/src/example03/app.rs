//! The application: it adds three users to its repository and reports what
//! the repository then lists.

use vstd::prelude::*;
use super::user::User;
use super::user_repository::{BTreeMapRepository, UserRepository};
use crate::example04::app::{added_names, lemma_added_names_by_key};
use crate::listing::by_key;
use crate::report::{listing_text, render};

verus! {

/// Runs the application over an empty repository keyed by name.
#[must_use]
pub fn run() -> (output: String)
    ensures
        output@ == listing_text(added_names()),
{
    let mut app = app_factory();
    proof {
        lemma_added_names_by_key();
    }
    app.run()
}

/// The application as it is built for use: over an empty repository keyed
/// by name.
pub fn app_factory() -> (app: App)
    ensures
        app.wf(),
        app.listing() == Seq::<Seq<char>>::empty(),
        app.placement() == by_key(),
{
    App::new(Box::new(BTreeMapRepository::default()))
}

/// An application over a repository of any type.
pub struct App {
    // Held in a tuple of one, so that the box moves in as it was given.
    user_repository: (Box<dyn UserRepository>,),
}

impl App {
    /// The repository is well-formed.
    pub closed spec fn wf(&self) -> bool {
        self.user_repository.0.wf()
    }

    /// The names that the repository lists, in its order.
    pub closed spec fn listing(&self) -> Seq<Seq<char>> {
        self.user_repository.0.listing()
    }

    /// Where the repository puts a new name.
    pub closed spec fn placement(&self) -> spec_fn(Seq<Seq<char>>, Seq<char>) -> Seq<Seq<char>> {
        self.user_repository.0.placement()
    }

    /// The listing once a run has added its three names.
    pub open spec fn listing_after_run(&self) -> Seq<Seq<char>> {
        let place = self.placement();
        place(place(place(self.listing(), "Alice"@), "Bob"@), "Charlie"@)
    }

    /// The text that a run returns.
    pub open spec fn output_of_run(&self) -> Seq<char> {
        listing_text(self.listing_after_run())
    }

    /// An application over `user_repository`.
    #[must_use]
    pub fn new(user_repository: Box<dyn UserRepository>) -> (app: Self)
        ensures
            app.wf() == user_repository.wf(),
            app.listing() == user_repository.listing(),
            app.placement() == user_repository.placement(),
    {
        let held = (user_repository,);
        Self { user_repository: held }
    }

    /// Adds Alice, Bob and Charlie, in this order, and returns one line for
    /// each user that the repository then lists.
    pub fn run(&mut self) -> (output: String)
        requires
            old(self).wf(),
        ensures
            final(self).wf(),
            final(self).placement() == old(self).placement(),
            final(self).listing() == old(self).listing_after_run(),
            output@ == old(self).output_of_run(),
    {
        self.user_repository.0.add_user(User::new("Alice"));
        self.user_repository.0.add_user(User::new("Bob"));
        self.user_repository.0.add_user(User::new("Charlie"));
        let users = self.user_repository.0.get_all_users();
        render(&users)
    }
}

} // verus!
