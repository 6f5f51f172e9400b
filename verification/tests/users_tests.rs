use chat_relay::users::UserStore;

#[test]
fn ids_start_at_one_and_increase() {
    let mut store = UserStore::new();
    let a = store.add_user("Ada", "Lovelace");
    let b = store.add_user("Alan", "Turing");
    assert_eq!(a.id, 1);
    assert_eq!(b.id, 2);
}

#[test]
fn get_user_by_id_finds_exactly_the_stored_user() {
    let mut store = UserStore::new();
    let a = store.add_user("Ada", "Lovelace");
    let found = store.get_user_by_id(a.id).expect("user 1 exists");
    assert_eq!(found.first_name, "Ada");
    assert_eq!(found.last_name, "Lovelace");
    assert!(store.get_user_by_id(99).is_none());
}

#[test]
fn get_all_users_lists_by_registration_order() {
    let mut store = UserStore::new();
    store.add_user("Ada", "Lovelace");
    store.add_user("Alan", "Turing");
    store.add_user("Grace", "Hopper");
    let all = store.get_all_users();
    assert_eq!(all.len(), 3);
    assert_eq!(all[0].first_name, "Ada");
    assert_eq!(all[1].first_name, "Alan");
    assert_eq!(all[2].first_name, "Grace");
}

#[test]
fn login_matches_both_names_exactly() {
    let mut store = UserStore::new();
    store.add_user("Ada", "Lovelace");
    store.add_user("Alan", "Turing");
    let u = store.login_user("Alan", "Turing").expect("registered user logs in");
    assert_eq!(u.id, 2);
    assert!(store.login_user("Alan", "Lovelace").is_none());
    assert!(store.login_user("", "").is_none());
}

#[test]
fn login_prefers_earliest_registration_on_duplicates() {
    let mut store = UserStore::new();
    let first = store.add_user("Sam", "Smith");
    let _second = store.add_user("Sam", "Smith");
    let u = store.login_user("Sam", "Smith").unwrap();
    assert_eq!(u.id, first.id);
}
