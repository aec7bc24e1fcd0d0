use user_service::api;
use user_service::store::UserStore;
use user_service::user::{Body, Response, User, UserError};

fn new_user(name: &str, location: &str, title: &str) -> User {
    User {
        id: None,
        name: name.to_owned(),
        location: location.to_owned(),
        title: title.to_owned(),
    }
}

fn body_user(r: &Response) -> &User {
    match &r.body {
        Body::UserData(u) => u,
        other => panic!("expected a user body, got {:?}", other),
    }
}

fn body_text(r: &Response) -> &str {
    match &r.body {
        Body::Text(t) => t,
        other => panic!("expected a text body, got {:?}", other),
    }
}

fn body_list(r: &Response) -> &Vec<User> {
    match &r.body {
        Body::UserList(us) => us,
        other => panic!("expected a list body, got {:?}", other),
    }
}

fn created_id_hex(r: &Response) -> String {
    body_user(r)
        .id
        .as_ref()
        .expect("a created user carries an identifier")
        .to_hex()
}

#[test]
fn test_create_user() {
    let mut store = UserStore::new();
    let resp = api::create_user(
        &mut store,
        new_user("Test User", "Test Location", "Test Title"),
    );
    assert_eq!(resp.status, 200);
    let u = body_user(&resp);
    assert_eq!(u.name, "Test User");
    assert_eq!(u.location, "Test Location");
    assert_eq!(u.title, "Test Title");
    assert!(u.id.is_some());
}

#[test]
fn test_create_then_get_returns_equal_fields() {
    let mut store = UserStore::new();
    let created = api::create_user(&mut store, new_user("A", "B", "C"));
    let id = created_id_hex(&created);
    assert_eq!(id.len(), 24);

    let got = api::get_user(&store, &id);
    assert_eq!(got.status, 200);
    let u = body_user(&got);
    assert_eq!(u.name, "A");
    assert_eq!(u.location, "B");
    assert_eq!(u.title, "C");
    assert_eq!(u.id.as_ref().unwrap().to_hex(), id);
}

#[test]
fn test_missing_id_reports_not_found() {
    let mut store = UserStore::new();
    api::create_user(&mut store, new_user("A", "B", "C"));
    let absent = "ffffffffffffffffffffffff";

    let got = api::get_user(&store, absent);
    assert_eq!(got.status, 404);

    let updated = api::update_user(&mut store, absent, new_user("X", "Y", "Z"));
    assert_eq!(updated.status, 404);
    assert_eq!(body_text(&updated), "No user found with specified ID");

    let deleted = api::delete_user(&mut store, absent);
    assert_eq!(deleted.status, 404);

    let listed = api::get_all_users(&store);
    assert_eq!(body_list(&listed).len(), 1);
}

#[test]
fn test_malformed_id_gets_bad_request_on_every_route() {
    let mut store = UserStore::new();
    api::create_user(&mut store, new_user("A", "B", "C"));
    let malformed = [
        "",
        "xyz",
        "zzzzzzzzzzzzzzzzzzzzzzzz",
        "aabbccddeeff00112233445566",
        "AABBCCDDEEFF0011223344G5",
    ];
    for id in malformed {
        let got = api::get_user(&store, id);
        assert_eq!(got.status, 400, "get of {:?}", id);
        assert_eq!(body_text(&got), "invalid ID");

        let updated = api::update_user(&mut store, id, new_user("X", "Y", "Z"));
        assert_eq!(updated.status, 400, "update of {:?}", id);

        let deleted = api::delete_user(&mut store, id);
        assert_eq!(deleted.status, 400, "delete of {:?}", id);
    }
    assert_eq!(body_list(&api::get_all_users(&store)).len(), 1);
}

#[test]
fn test_update_user() {
    let mut store = UserStore::new();
    let created = api::create_user(&mut store, new_user("A", "B", "C"));
    let id = created_id_hex(&created);

    let updated = api::update_user(
        &mut store,
        &id,
        new_user("Updated Name", "Updated Location", "Updated Title"),
    );
    assert_eq!(updated.status, 200);
    let u = body_user(&updated);
    assert_eq!(u.name, "Updated Name");
    assert_eq!(u.location, "Updated Location");
    assert_eq!(u.title, "Updated Title");
    assert_eq!(u.id.as_ref().unwrap().to_hex(), id);

    let got = api::get_user(&store, &id);
    assert_eq!(got.status, 200);
    let v = body_user(&got);
    assert_eq!(v.name, "Updated Name");
    assert_eq!(v.location, "Updated Location");
    assert_eq!(v.title, "Updated Title");
    assert_eq!(v.id.as_ref().unwrap().to_hex(), id, "the identifier is unchanged");
}

#[test]
fn test_delete_then_get_reports_not_found() {
    let mut store = UserStore::new();
    let created = api::create_user(&mut store, new_user("A", "B", "C"));
    let id = created_id_hex(&created);

    let deleted = api::delete_user(&mut store, &id);
    assert_eq!(deleted.status, 200);
    assert_eq!(body_text(&deleted), "User successfully deleted!");

    let got = api::get_user(&store, &id);
    assert_eq!(got.status, 404);
    assert_eq!(body_text(&got), "User with specified ID not found!");

    // Not idempotent at the response level: the second delete is a 404 …
    let again = api::delete_user(&mut store, &id);
    assert_eq!(again.status, 404);
    // … but idempotent at the data level: the store did not change.
    assert_eq!(body_list(&api::get_all_users(&store)).len(), 0);
}

#[test]
fn test_list_counts_after_creates_and_delete() {
    let mut store = UserStore::new();
    let mut ids = Vec::new();
    for i in 0..3 {
        let name = format!("user {}", i);
        let resp = api::create_user(&mut store, new_user(&name, "loc", "title"));
        ids.push(created_id_hex(&resp));
    }
    let listed = api::get_all_users(&store);
    assert_eq!(listed.status, 200);
    assert_eq!(body_list(&listed).len(), 3);

    let deleted = api::delete_user(&mut store, &ids[1]);
    assert_eq!(deleted.status, 200);

    let listed = api::get_all_users(&store);
    let remaining = body_list(&listed);
    assert_eq!(remaining.len(), 2);
    let remaining_ids: Vec<String> = remaining
        .iter()
        .map(|u| u.id.as_ref().unwrap().to_hex())
        .collect();
    assert!(!remaining_ids.contains(&ids[1]), "the deleted identifier is absent");
    assert!(remaining_ids.contains(&ids[0]));
    assert!(remaining_ids.contains(&ids[2]));
}

#[test]
fn test_list_keeps_insertion_order() {
    let mut store = UserStore::new();
    api::create_user(&mut store, new_user("first", "l", "t"));
    api::create_user(&mut store, new_user("second", "l", "t"));
    api::create_user(&mut store, new_user("third", "l", "t"));
    let listed = api::get_all_users(&store);
    let names: Vec<&str> = body_list(&listed).iter().map(|u| u.name.as_str()).collect();
    assert_eq!(names, vec!["first", "second", "third"]);
}

#[test]
fn test_crud_scenario() {
    let mut store = UserStore::new();

    let created = api::create_user(&mut store, new_user("A", "B", "C"));
    assert_eq!(created.status, 200);
    let id = created_id_hex(&created);
    assert!(!id.is_empty());

    let got = api::get_user(&store, &id);
    assert_eq!(got.status, 200);
    let u = body_user(&got);
    assert_eq!((u.name.as_str(), u.location.as_str(), u.title.as_str()), ("A", "B", "C"));

    let updated = api::update_user(&mut store, &id, new_user("A2", "B", "C"));
    assert_eq!(updated.status, 200);
    assert_eq!(body_user(&updated).name, "A2");

    let deleted = api::delete_user(&mut store, &id);
    assert_eq!(deleted.status, 200);

    let got = api::get_user(&store, &id);
    assert_eq!(got.status, 404);
}

#[test]
fn test_status_of_each_error_kind() {
    assert_eq!(user_service::user::status_of(&UserError::InvalidInput), 400);
    assert_eq!(user_service::user::status_of(&UserError::NotFound), 404);
    assert_eq!(
        user_service::user::status_of(&UserError::StoreError("down".to_owned())),
        500
    );
}

#[test]
fn test_error_responses_by_kind() {
    let invalid = api::respond_user(Err(UserError::InvalidInput));
    assert_eq!(invalid.status, 400);
    assert_eq!(body_text(&invalid), "invalid ID");

    let missing = api::respond_user(Err(UserError::NotFound));
    assert_eq!(missing.status, 404);
    assert_eq!(body_text(&missing), "User with specified ID not found!");

    let broken = api::respond_user(Err(UserError::StoreError("connection reset".to_owned())));
    assert_eq!(broken.status, 500);
    assert_eq!(body_text(&broken), "connection reset");

    let broken = api::store_error_response("write not acknowledged".to_owned());
    assert_eq!(broken.status, 500);
    assert_eq!(body_text(&broken), "write not acknowledged");
}

#[test]
fn test_repository_outcome_counts() {
    let mut store = UserStore::new();
    let outcome = store.create_user(new_user("A", "B", "C"));
    let id = outcome.inserted_id.to_hex();

    let matched = store.update_user(&id, new_user("X", "Y", "Z")).unwrap();
    assert_eq!(matched.matched_count, 1);
    let unmatched = store
        .update_user("ffffffffffffffffffffffff", new_user("X", "Y", "Z"))
        .unwrap();
    assert_eq!(unmatched.matched_count, 0);
    assert_eq!(
        store.update_user("nope", new_user("X", "Y", "Z")),
        Err(UserError::InvalidInput)
    );

    let removed = store.delete_user(&id).unwrap();
    assert_eq!(removed.deleted_count, 1);
    let missing = store.delete_user(&id).unwrap();
    assert_eq!(missing.deleted_count, 0);

    assert_eq!(store.get_user(&id), Err(UserError::NotFound));
}

#[test]
fn test_create_ignores_supplied_identifier() {
    let mut store = UserStore::new();
    let supplied = user_service::oid::parse_object_id("aabbccddeeff001122334455").unwrap();
    let user = User {
        id: Some(supplied),
        name: "A".to_owned(),
        location: "B".to_owned(),
        title: "C".to_owned(),
    };
    let resp = api::create_user(&mut store, user);
    let assigned = created_id_hex(&resp);
    assert_ne!(assigned, "aabbccddeeff001122334455");
    let got = api::get_user(&store, "aabbccddeeff001122334455");
    assert_eq!(got.status, 404);
}
