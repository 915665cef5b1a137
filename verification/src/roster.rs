//! Users kept in a vector: in ascending order of their names for a
//! repository keyed by name, in order of arrival for one that is a list.

use vstd::prelude::*;
use crate::example04::user::User;
use crate::listing::{
    ascending, is_place, keyed_insert, lemma_keyed_insert_ascending, lemma_keyed_insert_at,
};
use crate::name_order::{
    lemma_trichotomy, lemma_precedes_is_transitive, lemma_relation_mirrors,
    lemma_same_is_equality, order_of, precedes, NameOrder,
};

verus! {

/// The names of `users`, in the order in which they stand.
pub open spec fn names_of(users: Seq<User>) -> Seq<Seq<char>> {
    users.map_values(|u: User| u@)
}

/// The names of borrowed users, in the order in which they stand.
pub open spec fn names_of_borrowed(users: Seq<&User>) -> Seq<Seq<char>> {
    users.map_values(|u: &User| u@)
}

/// The first position at which `names` holds `name`, or the length of
/// `names` where it holds it nowhere.
pub open spec fn first_position(names: Seq<Seq<char>>, name: Seq<char>) -> int
    decreases names.len(),
{
    if names.len() == 0 {
        0
    } else if names[0] == name {
        0
    } else {
        1 + first_position(names.drop_first(), name)
    }
}

/// `first_position` is within the listing exactly when the name occurs, and
/// then it is the first occurrence.
pub proof fn lemma_first_position(names: Seq<Seq<char>>, name: Seq<char>)
    ensures
        0 <= first_position(names, name) <= names.len(),
        first_position(names, name) < names.len() <==> names.contains(name),
        first_position(names, name) < names.len() ==> names[first_position(names, name)] == name,
        forall|i: int| 0 <= i < first_position(names, name) ==> #[trigger] names[i] != name,
    decreases names.len(),
{
    if names.len() > 0 && names[0] != name {
        let rest = names.drop_first();
        lemma_first_position(rest, name);
        let p = first_position(rest, name);
        if names.contains(name) {
            let i = choose|i: int| 0 <= i < names.len() && names[i] == name;
            assert(rest[i - 1] == name);
        }
        if p < rest.len() {
            assert(names[p + 1] == rest[p]);
        }
        assert forall|i: int| 0 <= i < p + 1 implies #[trigger] names[i] != name by {
            if i > 0 {
                assert(names[i] == rest[i - 1]);
            }
        }
    } else if names.len() > 0 {
        assert(names[0] == name);
    }
}

/// Finds the place of `name` among users kept in ascending order, by
/// bisection.
pub fn place_of(users: &Vec<User>, name: &str) -> (place: (usize, usize))
    requires
        ascending(names_of(users@)),
    ensures
        is_place(names_of(users@), name@, place.0 as int, place.1 as int),
{
    let ghost names = names_of(users@);
    let mut low: usize = 0;
    let mut high: usize = users.len();
    while low < high
        invariant
            names == names_of(users@),
            ascending(names),
            low <= high <= users.len(),
            forall|i: int| 0 <= i < low ==> precedes(#[trigger] names[i], name@),
            forall|i: int| high <= i < names.len() ==> precedes(name@, #[trigger] names[i]),
        decreases high - low,
    {
        let mid: usize = low + (high - low) / 2;
        let standing = order_of(users[mid].name.as_str(), name);
        assert(names[mid as int] == users@[mid as int]@);
        proof {
            lemma_same_is_equality(names[mid as int], name@);
            lemma_relation_mirrors(names[mid as int], name@);
        }
        match standing {
            NameOrder::Before => {
                assert forall|i: int| 0 <= i < mid + 1 implies precedes(
                    #[trigger] names[i],
                    name@,
                ) by {
                    if i < mid {
                        lemma_precedes_is_transitive(names[i], names[mid as int], name@);
                    }
                }
                low = mid + 1;
            },
            NameOrder::Same => {
                return (mid, mid + 1);
            },
            NameOrder::After => {
                assert forall|i: int| mid <= i < names.len() implies precedes(
                    name@,
                    #[trigger] names[i],
                ) by {
                    if i > mid {
                        lemma_precedes_is_transitive(name@, names[mid as int], names[i]);
                    }
                }
                high = mid;
            },
        }
    }
    (low, low)
}

/// Stores `user` among users kept in ascending order: at its place, instead
/// of the user of that name where there is one.
pub fn store_by_name(users: &mut Vec<User>, user: User)
    requires
        ascending(names_of(old(users)@)),
    ensures
        names_of(final(users)@) == keyed_insert(names_of(old(users)@), user@),
        ascending(names_of(final(users)@)),
{
    let ghost before = names_of(users@);
    let (k, j) = place_of(users, user.name.as_str());
    proof {
        lemma_keyed_insert_at(before, user@, k as int, j as int);
        lemma_keyed_insert_ascending(before, user@);
    }
    if k < j {
        users[k] = user;
    } else {
        users.insert(k, user);
    }
    assert(names_of(users@) =~= keyed_insert(before, user@));
}

/// Looks `name` up among users kept in ascending order.
pub fn find_by_name<'a>(users: &'a Vec<User>, name: &str) -> (found: Option<&'a User>)
    requires
        ascending(names_of(users@)),
    ensures
        match found {
            Some(user) => {
                &&& names_of(users@).contains(name@)
                &&& *user == users@[first_position(names_of(users@), name@)]
                &&& user@ == name@
            },
            None => !names_of(users@).contains(name@),
        },
{
    let ghost names = names_of(users@);
    let (k, j) = place_of(users, name);
    proof {
        lemma_first_position(names, name@);
        let p = first_position(names, name@);
        if p < names.len() {
            lemma_trichotomy(names[p], name@);
            assert(k <= p < j);
        }
        if k < j {
            assert(names[k as int] == name@);
            lemma_trichotomy(names[k as int], name@);
            assert(p <= k) by {
                if p > k {
                    assert(names[k as int] != name@);
                }
            }
        }
    }
    if k < j {
        Some(&users[k])
    } else {
        None
    }
}

/// Looks `name` up among users kept in order of arrival: the first user of
/// that name is the one found.
pub fn find_first<'a>(users: &'a Vec<User>, name: &str) -> (found: Option<&'a User>)
    ensures
        match found {
            Some(user) => {
                &&& names_of(users@).contains(name@)
                &&& *user == users@[first_position(names_of(users@), name@)]
                &&& user@ == name@
            },
            None => !names_of(users@).contains(name@),
        },
{
    let ghost names = names_of(users@);
    let mut i: usize = 0;
    while i < users.len()
        invariant
            names == names_of(users@),
            i <= users.len(),
            forall|p: int| 0 <= p < i ==> #[trigger] names[p] != name@,
        decreases users.len() - i,
    {
        let standing = order_of(users[i].name.as_str(), name);
        assert(names[i as int] == users@[i as int]@);
        proof {
            lemma_same_is_equality(names[i as int], name@);
        }
        if standing == NameOrder::Same {
            assert(first_position(names, name@) == i) by {
                lemma_first_position(names, name@);
                let p = first_position(names, name@);
                if p > i {
                    assert(names[i as int] != name@);
                }
                if p < i {
                    assert(names[p] != name@);
                }
            }
            return Some(&users[i]);
        }
        i = i + 1;
    }
    assert(!names.contains(name@));
    None
}

/// Every user of `users`, borrowed, in the order in which they stand.
pub fn borrow_all<'a>(users: &'a Vec<User>) -> (all: Vec<&'a User>)
    ensures
        all@.len() == users@.len(),
        forall|i: int| 0 <= i < all@.len() ==> *(#[trigger] all@[i]) == users@[i],
        names_of_borrowed(all@) == names_of(users@),
{
    let mut all: Vec<&User> = Vec::new();
    let mut i: usize = 0;
    while i < users.len()
        invariant
            i <= users.len(),
            all@.len() == i,
            forall|p: int| 0 <= p < i ==> *(#[trigger] all@[p]) == users@[p],
        decreases users.len() - i,
    {
        all.push(&users[i]);
        i = i + 1;
    }
    assert(names_of_borrowed(all@) =~= names_of(users@));
    all
}

} // verus!
