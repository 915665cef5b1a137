//! How an application reaches its repository does not show in what it does.

use vstd::prelude::*;
use crate::example03;
use crate::example04;

verus! {

/// An application bound to its repository at build time and one that
/// resolves it at run time, over repositories that list the same names and
/// place a new name alike, leave the same listing behind when run and return
/// the same text.
pub proof fn lemma_dispatch_is_not_observable<T: example04::user_repository::UserRepository>(
    fixed: example04::app::App<T>,
    erased: example03::app::App,
)
    requires
        fixed.listing() == erased.listing(),
        fixed.placement() == erased.placement(),
    ensures
        fixed.listing_after_run() == erased.listing_after_run(),
        fixed.output_of_run() == erased.output_of_run(),
{
}

/// The repositories keyed by name of the two applications place a new name
/// alike.
pub proof fn lemma_keyed_repositories_place_alike(
    fixed: example04::user_repository::BTreeMapRepository,
    erased: example03::user_repository::BTreeMapRepository,
)
    ensures
        example04::user_repository::UserRepository::placement(&fixed)
            == example03::user_repository::UserRepository::placement(&erased),
{
}

} // verus!
