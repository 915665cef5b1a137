//! The record that the repositories hold.

use vstd::prelude::*;

verus! {

/// A user. Two users of the same name are the same user.
#[derive(Debug, Clone)]
pub struct User {
    pub name: String,
}

impl View for User {
    type V = Seq<char>;

    /// A user is known by its name.
    open spec fn view(&self) -> Seq<char> {
        self.name@
    }
}

impl User {
    /// The user called `name`.
    #[must_use]
    pub fn new(name: &str) -> (user: Self)
        ensures
            user@ == name@,
    {
        User { name: name.to_owned() }
    }
}

} // verus!
