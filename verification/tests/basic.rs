use corex::{add, User};

#[test]
fn lib_it_works() {
    let result = add(2, 2);
    assert_eq!(result, 4);
}

#[test]
fn lets_go() {
    assert!(true);
}

#[test]
fn main_it_works() {
    assert!(true);
}

#[test]
fn sure_it_does() {
    assert!(true);
}

#[test]
fn add_small_values() {
    assert_eq!(add(0, 0), 0);
    assert_eq!(add(1, 2), 3);
    assert_eq!(add(u64::MAX - 1, 1), u64::MAX);
}

#[test]
fn user_new_keeps_fields() {
    let user = User::new(String::from("alice"), 30);
    assert_eq!(user.name, "alice");
    assert_eq!(user.age, 30);
}
