use user_store::service::UserService;
use user_store::types::{CreateUserRequest, DatabaseError};

fn req(name: &str, email: &str, age: u8) -> CreateUserRequest {
    CreateUserRequest { name: name.to_string(), email: email.to_string(), age }
}

#[test]
fn bulk_pipeline_returns_one_result_per_request() {
    let mut svc = UserService::new();
    let requests = vec![
        req("alice", "alice@x.com", 30),
        req("", "bad@x.com", 30),
        req("bob", "bob@x.com", 31),
        req("carol", "no-at-sign", 32),
        req("dave", "dave@x.com", 33),
        req("erin", "erin@x.com", 34),
        req("frank", "frank@x.com", 35),
    ];
    let results = svc.bulk_create_users(requests);
    assert_eq!(results.len(), 7);
    let ok: Vec<_> = results.iter().filter(|r| r.is_ok()).collect();
    assert_eq!(ok.len(), 5);
    // the transform stage uppercased the names before insertion
    let first = results[0].as_ref().unwrap();
    assert_eq!(first.name, "ALICE");
    match &results[1] {
        Err(DatabaseError::ValidationError(m)) => assert_eq!(m, "Name cannot be empty"),
        other => panic!("unexpected {:?}", other),
    }
    match &results[3] {
        Err(DatabaseError::ValidationError(m)) => assert_eq!(m, "Invalid email format"),
        other => panic!("unexpected {:?}", other),
    }
    let stats = svc.get_stats();
    assert_eq!(stats.create_count, 5);
    assert_eq!(stats.parallel_operations, 1);
    assert_eq!(stats.total_operations, 6);
    assert_eq!(svc.list_users().unwrap().len(), 5);
}

#[test]
fn bulk_pipeline_on_empty_input_only_ticks_parallel_counter() {
    let mut svc = UserService::new();
    let results = svc.bulk_create_users(Vec::new());
    assert_eq!(results.len(), 0);
    let stats = svc.get_stats();
    assert_eq!(stats.parallel_operations, 1);
    assert_eq!(stats.total_operations, 1);
    assert_eq!(stats.create_count, 0);
    assert_eq!(stats.read_count, 0);
    assert_eq!(svc.list_users().unwrap().len(), 0);
}

#[test]
fn fast_concurrent_operations_creates_five_records() {
    let mut svc = UserService::new();
    svc.fast_concurrent_operations().unwrap();
    let users = svc.list_users().unwrap();
    assert_eq!(users.len(), 5);
    assert!(users.iter().any(|u| u.name == "Fast User 0"));
    assert!(users.iter().any(|u| u.name == "Fast User 4"));
    assert!(users.iter().any(|u| u.email == "fast3@demo.com"));
    assert_eq!(svc.get_stats().create_count, 5);
}

#[test]
fn bulk_insert_concurrent_uppercases_generated_names() {
    let mut svc = UserService::new();
    svc.bulk_insert_concurrent(12).unwrap();
    let users = svc.list_users().unwrap();
    assert_eq!(users.len(), 12);
    assert!(users.iter().any(|u| u.name == "BULKCONCURRENT 0"));
    assert!(users.iter().any(|u| u.name == "BULKCONCURRENT 11"));
    assert!(users.iter().all(|u| u.email.contains("@demo.com")));
    assert_eq!(svc.get_stats().create_count, 12);
}

#[test]
fn export_then_import_round_trip_recreates_records() {
    let mut svc = UserService::new();
    svc.create_user(req("Ann", "ann@x.com", 20)).unwrap();
    svc.create_user(req("Ben", "ben@y.org", 30)).unwrap();
    svc.create_user(req("Cyn", "cyn@z.net", 40)).unwrap();
    let bytes = svc.bulk_save_to_csv().unwrap();
    let mut other = UserService::new();
    let n = other.bulk_load_from_csv(&bytes).unwrap();
    assert_eq!(n, 3);
    let users = other.list_users().unwrap();
    assert_eq!(users.len(), 3);
    for (name, email, age) in [("Ann", "ann@x.com", 20), ("Ben", "ben@y.org", 30), ("Cyn", "cyn@z.net", 40)] {
        let found = users.iter().find(|u| u.name == name).unwrap();
        assert_eq!(found.email, email);
        assert_eq!(found.age, age);
    }
}

#[test]
fn export_quotes_delimiters_and_survives_round_trip() {
    let mut svc = UserService::new();
    svc.create_user(req("Smith, \"Bob\"", "bob@x.com", 44)).unwrap();
    svc.create_user(req("Line\nBreak", "lb@x.com", 45)).unwrap();
    let bytes = svc.bulk_save_to_csv().unwrap();
    let mut other = UserService::new();
    assert_eq!(other.bulk_load_from_csv(&bytes).unwrap(), 2);
    let users = other.list_users().unwrap();
    assert!(users.iter().any(|u| u.name == "Smith, \"Bob\""));
    assert!(users.iter().any(|u| u.name == "Line\nBreak"));
}

#[test]
fn import_reads_columns_by_header_name() {
    let mut svc = UserService::new();
    let data = b"age,name,email\n23,Zoe,zoe@q.io\n24,Yan,yan@q.io\n";
    let n = svc.bulk_load_from_csv(data).unwrap();
    assert_eq!(n, 2);
    let zoe = svc.search_users_parallel("zoe").unwrap();
    assert_eq!(zoe.len(), 1);
    assert_eq!(zoe[0].age, 23);
}

#[test]
fn import_fails_whole_file_on_malformed_rows() {
    let mut svc = UserService::new();
    // a non-numeric age cell
    match svc.bulk_load_from_csv(b"name,email,age\nBob,bob@x.com,abc\n") {
        Err(DatabaseError::ImportParseError(_)) => {},
        other => panic!("unexpected {:?}", other),
    }
    // a missing required column
    match svc.bulk_load_from_csv(b"name,age\nBob,30\n") {
        Err(DatabaseError::ImportParseError(_)) => {},
        other => panic!("unexpected {:?}", other),
    }
    // a ragged row
    match svc.bulk_load_from_csv(b"name,email,age\nBob,bob@x.com\n") {
        Err(DatabaseError::ImportParseError(_)) => {},
        other => panic!("unexpected {:?}", other),
    }
    // nothing was created by the failed imports
    assert_eq!(svc.list_users().unwrap().len(), 0);
    assert_eq!(svc.get_stats().create_count, 0);
}

#[test]
fn import_swallows_individual_invalid_requests() {
    let mut svc = UserService::new();
    // well-formed rows, but the second fails validation (age 10 < 13)
    let n = svc.bulk_load_from_csv(b"name,email,age\nOk,ok@x.com,30\nKid,kid@x.com,10\n").unwrap();
    assert_eq!(n, 1);
    assert_eq!(svc.list_users().unwrap().len(), 1);
}

#[test]
fn import_of_empty_input_creates_nothing() {
    let mut svc = UserService::new();
    assert_eq!(svc.bulk_load_from_csv(b"").unwrap(), 0);
    assert_eq!(svc.list_users().unwrap().len(), 0);
}

#[test]
fn export_round_trips_a_name_starting_with_a_byte_order_mark() {
    // the table's first cell is always the "id" header, so a byte-order
    // mark at the start of a data cell is mid-buffer and survives the trip
    let mut svc = UserService::new();
    svc.create_user(req("\u{feff}Lead", "lead@x.com", 33)).unwrap();
    let bytes = svc.bulk_save_to_csv().unwrap();
    let mut other = UserService::new();
    assert_eq!(other.bulk_load_from_csv(&bytes).unwrap(), 1);
    let users = other.list_users().unwrap();
    assert_eq!(users.len(), 1);
    assert_eq!(users[0].name, "\u{feff}Lead");
    assert_eq!(users[0].age, 33);
}
