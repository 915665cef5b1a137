use testing_in_rust::example03::app::{app_factory, run, App};
use testing_in_rust::example03::user::User;
use testing_in_rust::example03::user_repository::{BTreeMapRepository, UserRepository};

/// A repository that is a list, handed to the application in place of the
/// one it is built with.
#[derive(Default)]
pub struct VecRepository {
    users: Vec<User>,
}

impl UserRepository for VecRepository {
    fn add_user(&mut self, user: User) {
        self.users.push(user);
    }

    fn get_user(&self, name: &str) -> Option<&User> {
        self.users.iter().find(|u| u.name == name)
    }

    fn get_all_users(&self) -> Vec<&User> {
        self.users.iter().collect()
    }
}

#[test]
fn test_using_the_real_repository() {
    let mut app = app_factory();

    let output = app.run();

    assert_eq!(output, "User 0: User { name: \"Alice\" }\nUser 1: User { name: \"Bob\" }\nUser 2: User { name: \"Charlie\" }\n");
}

#[test]
fn test_using_the_repository_mock() {
    let mut app = App::new(Box::new(VecRepository::default()));

    let output = app.run();

    assert_eq!(output, "User 0: User { name: \"Alice\" }\nUser 1: User { name: \"Bob\" }\nUser 2: User { name: \"Charlie\" }\n");
}

#[test]
fn running_the_built_application_lists_three_users() {
    assert_eq!(
        run(),
        "User 0: User { name: \"Alice\" }\nUser 1: User { name: \"Bob\" }\nUser 2: User { name: \"Charlie\" }\n"
    );
}

#[test]
fn a_second_run_over_a_keyed_repository_adds_nothing() {
    let mut app = App::new(Box::new(BTreeMapRepository::default()));

    let first = app.run();
    let second = app.run();

    assert_eq!(first, second);
}

#[test]
fn a_second_run_over_a_list_lists_every_name_twice() {
    let mut app = App::new(Box::new(VecRepository::default()));

    app.run();
    let second = app.run();

    assert_eq!(
        second,
        "User 0: User { name: \"Alice\" }\nUser 1: User { name: \"Bob\" }\nUser 2: User { name: \"Charlie\" }\nUser 3: User { name: \"Alice\" }\nUser 4: User { name: \"Bob\" }\nUser 5: User { name: \"Charlie\" }\n"
    );
}

#[test]
fn the_keyed_repository_sorts_what_the_application_finds_in_it() {
    let mut repository = BTreeMapRepository::default();
    repository.add_user(User::new("Zoe"));
    repository.add_user(User::new("Bert"));
    let mut app = App::new(Box::new(repository));

    let output = app.run();

    assert_eq!(
        output,
        "User 0: User { name: \"Alice\" }\nUser 1: User { name: \"Bert\" }\nUser 2: User { name: \"Bob\" }\nUser 3: User { name: \"Charlie\" }\nUser 4: User { name: \"Zoe\" }\n"
    );
}
