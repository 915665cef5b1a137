use std::collections::BTreeMap;

use testing_in_rust::example03;
use testing_in_rust::example04::user::User;
use testing_in_rust::example04::user_repository::{
    BTreeMapRepository, UserRepository, VecRepository,
};

fn listed<R: UserRepository>(repository: &R) -> Vec<String> {
    repository
        .get_all_users()
        .iter()
        .map(|user| user.name.clone())
        .collect()
}

#[test]
fn a_new_user_has_the_name_it_was_given() {
    assert_eq!(User::new("Alice").name, "Alice");
    assert_eq!(User::new("").name, "");
}

#[test]
fn the_keyed_repository_lists_by_name_whatever_the_order_of_arrival() {
    let orders = [
        ["Alice", "Bob", "Charlie"],
        ["Alice", "Charlie", "Bob"],
        ["Bob", "Alice", "Charlie"],
        ["Bob", "Charlie", "Alice"],
        ["Charlie", "Alice", "Bob"],
        ["Charlie", "Bob", "Alice"],
    ];
    for order in orders {
        let mut repository = BTreeMapRepository::default();
        for name in order {
            repository.add_user(User::new(name));
        }
        assert_eq!(listed(&repository), vec!["Alice", "Bob", "Charlie"]);
    }
}

#[test]
fn the_list_lists_in_order_of_arrival() {
    let mut repository = VecRepository::default();
    repository.add_user(User::new("Alice"));
    repository.add_user(User::new("Bob"));
    repository.add_user(User::new("Charlie"));

    assert_eq!(listed(&repository), vec!["Alice", "Bob", "Charlie"]);

    let mut backwards = VecRepository::default();
    backwards.add_user(User::new("Charlie"));
    backwards.add_user(User::new("Bob"));
    backwards.add_user(User::new("Alice"));

    assert_eq!(listed(&backwards), vec!["Charlie", "Bob", "Alice"]);
}

#[test]
fn adding_a_name_again_to_the_keyed_repository_keeps_its_size() {
    let mut repository = BTreeMapRepository::default();
    repository.add_user(User::new("Alice"));
    repository.add_user(User::new("Bob"));
    assert_eq!(repository.get_all_users().len(), 2);

    repository.add_user(User::new("Bob"));
    repository.add_user(User::new("Alice"));

    assert_eq!(listed(&repository), vec!["Alice", "Bob"]);
}

#[test]
fn adding_a_name_again_to_the_list_lists_it_twice() {
    let mut repository = VecRepository::default();
    repository.add_user(User::new("Alice"));
    repository.add_user(User::new("Bob"));
    repository.add_user(User::new("Alice"));

    assert_eq!(listed(&repository), vec!["Alice", "Bob", "Alice"]);
}

#[test]
fn a_user_that_is_stored_is_found_by_name() {
    let mut keyed = BTreeMapRepository::default();
    let mut list = VecRepository::default();
    for name in ["Alice", "Bob", "Charlie"] {
        keyed.add_user(User::new(name));
        list.add_user(User::new(name));
    }

    assert_eq!(keyed.get_user("Bob").unwrap().name, "Bob");
    assert_eq!(list.get_user("Bob").unwrap().name, "Bob");
}

#[test]
fn a_user_that_is_not_stored_is_not_found() {
    let mut keyed = BTreeMapRepository::default();
    let mut list = VecRepository::default();
    assert!(keyed.get_user("Bob").is_none());
    assert!(list.get_user("Bob").is_none());

    for name in ["Alice", "Charlie"] {
        keyed.add_user(User::new(name));
        list.add_user(User::new(name));
    }

    assert!(keyed.get_user("Bob").is_none());
    assert!(list.get_user("Bob").is_none());
    assert!(keyed.get_user("alice").is_none());
    assert!(list.get_user("Alic").is_none());
}

#[test]
fn an_empty_repository_lists_nothing() {
    assert!(BTreeMapRepository::default().get_all_users().is_empty());
    assert!(VecRepository::default().get_all_users().is_empty());
    let erased = example03::user_repository::BTreeMapRepository::default();
    assert!(example03::user_repository::UserRepository::get_all_users(&erased).is_empty());
}

#[test]
fn the_keyed_repository_lists_as_a_sorted_map_does() {
    let arrivals = [
        "Mallory", "bob", "Alice", "", "Zoë", "Bob", "alice", "Al", "木", "Alice", "Zoe", "é",
        "Bob", "Carol", "a b", "a-b", "😀", "Dave",
    ];
    let mut repository = BTreeMapRepository::default();
    let mut erased = example03::user_repository::BTreeMapRepository::default();
    let mut map: BTreeMap<String, User> = BTreeMap::new();
    for name in arrivals {
        repository.add_user(User::new(name));
        example03::user_repository::UserRepository::add_user(&mut erased, User::new(name));
        map.insert(name.to_string(), User::new(name));

        let expected: Vec<String> = map.values().map(|user| user.name.clone()).collect();
        assert_eq!(listed(&repository), expected);
        let through_the_other: Vec<String> =
            example03::user_repository::UserRepository::get_all_users(&erased)
                .iter()
                .map(|user| user.name.clone())
                .collect();
        assert_eq!(through_the_other, expected);
    }
    for name in arrivals {
        assert_eq!(repository.get_user(name).unwrap().name, map[name].name);
    }
    assert!(repository.get_user("Nobody").is_none());
}

#[test]
fn the_repository_chosen_at_run_time_finds_its_users() {
    let mut repository: Box<dyn example03::user_repository::UserRepository> =
        Box::new(example03::user_repository::BTreeMapRepository::default());
    example03::user_repository::UserRepository::add_user(&mut *repository, User::new("Charlie"));
    example03::user_repository::UserRepository::add_user(&mut *repository, User::new("Alice"));

    let found = example03::user_repository::UserRepository::get_user(&*repository, "Alice");
    assert_eq!(found.unwrap().name, "Alice");
    assert!(example03::user_repository::UserRepository::get_user(&*repository, "Bob").is_none());
    let names: Vec<&str> = example03::user_repository::UserRepository::get_all_users(&*repository)
        .iter()
        .map(|user| user.name.as_str())
        .collect();
    assert_eq!(names, vec!["Alice", "Charlie"]);
}
