use user_store::service::UserService;
use user_store::types::{CreateUserRequest, UpdateUserRequest, DatabaseError};

fn req(name: &str, email: &str, age: u8) -> CreateUserRequest {
    CreateUserRequest { name: name.to_string(), email: email.to_string(), age }
}

#[test]
fn create_then_read_matches() {
    let mut svc = UserService::new();
    let u = svc.create_user(req("John Doe", "John@Example.COM", 30)).unwrap();
    assert_eq!(u.id.len(), 36);
    assert_eq!(u.created_at, u.updated_at);
    let got = svc.get_user(&u.id).unwrap();
    assert_eq!(got.name, "John Doe");
    assert_eq!(got.email, "john@example.com");
    assert_eq!(got.age, 30);
    assert_eq!(got.created_at, u.created_at);
    assert_eq!(got.updated_at, u.updated_at);
}

#[test]
fn update_with_all_fields_absent_changes_only_updated_at() {
    let mut svc = UserService::new();
    let u = svc.create_user(req("Ann", "ann@x.com", 40)).unwrap();
    let upd = UpdateUserRequest { name: None, email: None, age: None };
    let v = svc.update_user(&u.id, upd).unwrap();
    assert_eq!(v.id, u.id);
    assert_eq!(v.name, u.name);
    assert_eq!(v.email, u.email);
    assert_eq!(v.age, u.age);
    assert_eq!(v.created_at, u.created_at);
    assert!(v.updated_at >= u.updated_at);
}

#[test]
fn email_normalization_is_idempotent() {
    let mut svc = UserService::new();
    let u = svc.create_user(req("Bob", "BOB@Mail.Org", 25)).unwrap();
    assert_eq!(u.email, "bob@mail.org");
    let upd = UpdateUserRequest { name: None, email: Some("BoB@MAIL.org".to_string()), age: None };
    svc.update_user(&u.id, upd).unwrap();
    let got = svc.get_user(&u.id).unwrap();
    assert_eq!(got.email, "bob@mail.org");
}

#[test]
fn delete_then_read_fails_not_found() {
    let mut svc = UserService::new();
    let u = svc.create_user(req("Gone", "gone@x.com", 50)).unwrap();
    let removed = svc.delete_user(&u.id).unwrap();
    assert_eq!(removed.id, u.id);
    match svc.get_user(&u.id) {
        Err(DatabaseError::UserNotFound) => {},
        other => panic!("expected UserNotFound, got {:?}", other),
    }
    match svc.delete_user(&u.id) {
        Err(DatabaseError::UserNotFound) => {},
        other => panic!("expected UserNotFound, got {:?}", other),
    }
}

#[test]
fn distinct_creates_have_distinct_ids() {
    let mut svc = UserService::new();
    let mut ids = Vec::new();
    for i in 0..10u8 {
        let u = svc.create_user(req(&format!("U{}", i), &format!("u{}@x.com", i), 20 + i)).unwrap();
        ids.push(u.id);
    }
    for a in 0..ids.len() {
        for b in (a + 1)..ids.len() {
            assert_ne!(ids[a], ids[b]);
        }
        let got = svc.get_user(&ids[a]).unwrap();
        assert_eq!(got.id, ids[a]);
    }
    assert_eq!(svc.list_users().unwrap().len(), 10);
}

#[test]
fn validation_rules_in_order_with_exact_messages() {
    let mut svc = UserService::new();
    match svc.create_user(req("", "nope", 5)) {
        Err(DatabaseError::ValidationError(m)) => assert_eq!(m, "Name cannot be empty"),
        other => panic!("unexpected {:?}", other),
    }
    match svc.create_user(req("A", "no-at-sign", 30)) {
        Err(DatabaseError::ValidationError(m)) => assert_eq!(m, "Invalid email format"),
        other => panic!("unexpected {:?}", other),
    }
    match svc.create_user(req("A", "a@b.c", 12)) {
        Err(DatabaseError::ValidationError(m)) => assert_eq!(m, "Age must be between 13 and 120"),
        other => panic!("unexpected {:?}", other),
    }
    match svc.create_user(req("A", "a@b.c", 121)) {
        Err(DatabaseError::ValidationError(m)) => assert_eq!(m, "Age must be between 13 and 120"),
        other => panic!("unexpected {:?}", other),
    }
    assert!(svc.create_user(req("A", "a@b.c", 13)).is_ok());
    assert!(svc.create_user(req("B", "b@b.c", 120)).is_ok());
    // failed validations leave no trace in the stats
    assert_eq!(svc.get_stats().create_count, 2);
}

#[test]
fn create_with_colliding_id_is_rejected() {
    let mut svc = UserService::new();
    let r1 = svc.create_user_with_id("fixed-id".to_string(), req("A", "a@b.c", 30));
    assert!(r1.is_ok());
    match svc.create_user_with_id("fixed-id".to_string(), req("B", "b@b.c", 31)) {
        Err(DatabaseError::UserAlreadyExists) => {},
        other => panic!("unexpected {:?}", other),
    }
    let err = DatabaseError::UserAlreadyExists;
    assert_eq!(err.message(), "User already exists");
    assert_eq!(DatabaseError::UserNotFound.message(), "User not found");
}

#[test]
fn search_is_case_insensitive_over_name_and_email() {
    let mut svc = UserService::new();
    svc.create_user(req("Alice Wonder", "ALICE@EX.COM", 30)).unwrap();
    svc.create_user(req("Bob Stone", "bob@ex.com", 31)).unwrap();
    svc.create_user(req("Carol", "carol@other.org", 32)).unwrap();
    let by_name = svc.search_users_parallel("alice").unwrap();
    assert_eq!(by_name.len(), 1);
    assert_eq!(by_name[0].name, "Alice Wonder");
    let by_email = svc.search_users_parallel("EX.COM").unwrap();
    assert_eq!(by_email.len(), 2);
    let none = svc.search_users_parallel("zebra").unwrap();
    assert_eq!(none.len(), 0);
}

#[test]
fn complex_operation_prefixes_name_and_fails_fast_on_missing() {
    let mut svc = UserService::new();
    let u = svc.create_user(req("Core", "core@x.com", 33)).unwrap();
    let done = svc.complex_user_operation(&u.id).unwrap();
    assert_eq!(done.name, "Processed: Core");
    assert_eq!(done.email, "core@x.com");
    match svc.complex_user_operation("missing-id") {
        Err(DatabaseError::UserNotFound) => {},
        other => panic!("unexpected {:?}", other),
    }
    let stats = svc.get_stats();
    // one create, one read inside the composite, one update
    assert_eq!(stats.create_count, 1);
    assert_eq!(stats.read_count, 1);
    assert_eq!(stats.update_count, 1);
    assert_eq!(stats.total_operations, 3);
}

#[test]
fn stats_ledger_counts_each_category() {
    let mut svc = UserService::new();
    let a = svc.create_user(req("A", "a@x.com", 20)).unwrap();
    let b = svc.create_user(req("B", "b@x.com", 21)).unwrap();
    svc.get_user(&a.id).unwrap();
    svc.get_user(&b.id).unwrap();
    svc.get_user(&a.id).unwrap();
    svc.update_user(&b.id, UpdateUserRequest { name: Some("B2".to_string()), email: None, age: None }).unwrap();
    svc.delete_user(&a.id).unwrap();
    let s = svc.get_stats();
    assert_eq!(s.create_count, 2);
    assert_eq!(s.read_count, 3);
    assert_eq!(s.update_count, 1);
    assert_eq!(s.delete_count, 1);
    assert_eq!(s.parallel_operations, 0);
    assert_eq!(s.total_operations, 7);
}

#[test]
fn update_applies_only_present_fields() {
    let mut svc = UserService::new();
    let u = svc.create_user(req("Old Name", "old@x.com", 60)).unwrap();
    let v = svc
        .update_user(
            &u.id,
            UpdateUserRequest { name: Some("New Name".to_string()), email: None, age: Some(61) },
        )
        .unwrap();
    assert_eq!(v.name, "New Name");
    assert_eq!(v.email, "old@x.com");
    assert_eq!(v.age, 61);
    assert_eq!(v.created_at, u.created_at);
    match svc.update_user("no-such", UpdateUserRequest { name: None, email: None, age: None }) {
        Err(DatabaseError::UserNotFound) => {},
        other => panic!("unexpected {:?}", other),
    }
}
