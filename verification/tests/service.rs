use user_service::handlers::{conclude, handle_request};
use user_service::store::{MemStore, StoreCommand, StoreReply};

const OK: &str = "HTTP/1.1 200 OK\r\nContent-Type: application/json\r\n\r\n";
const NOT_FOUND: &str = "HTTP/1.1 404 NOT FOUND\r\n\r\n";
const INTERNAL_ERROR: &str = "HTTP/1.1 500 INTERNAL SERVER ERROR\r\n\r\n";

fn run(store: &mut MemStore, request: &str) -> (String, String) {
    handle_request(store, request)
}

#[test]
fn health_always_ok() {
    let mut store = MemStore::new();
    let (status, body) = run(&mut store, "GET /health HTTP/1.1\r\n\r\n");
    assert_eq!(status, OK);
    assert_eq!(
        body,
        "\u{C11C}\u{BC84}\u{AC00} \u{C815}\u{C0C1}\u{C801}\u{C73C}\u{B85C} \u{C791}\u{B3D9} \u{C911}\u{C785}\u{B2C8}\u{B2E4}."
    );
}

#[test]
fn unmatched_route_is_not_found() {
    let mut store = MemStore::new();
    let (status, body) = run(&mut store, "PATCH /users/1 HTTP/1.1\r\n\r\n");
    assert_eq!(status, NOT_FOUND);
    assert_eq!(body, "404 Not Found");
}

#[test]
fn fetch_one_bad_id_is_internal_error() {
    let mut store = MemStore::new();
    let (status, body) = run(&mut store, "GET /users/abc HTTP/1.1\r\n\r\n");
    assert_eq!(status, INTERNAL_ERROR);
    assert_eq!(body, "Error");
}

#[test]
fn fetch_one_missing_is_not_found() {
    let mut store = MemStore::new();
    let (status, body) = run(&mut store, "GET /users/1 HTTP/1.1\r\n\r\n");
    assert_eq!(status, NOT_FOUND);
    assert_eq!(body, "User not found");
}

#[test]
fn create_bad_body_is_internal_error() {
    let mut store = MemStore::new();
    let (status, body) = run(&mut store, "POST /users HTTP/1.1\r\n\r\nnot json");
    assert_eq!(status, INTERNAL_ERROR);
    assert_eq!(body, "Error");
    let (status, _) = run(&mut store, "POST /users HTTP/1.1\r\n\r\n{\"name\":\"Ada\"}");
    assert_eq!(status, INTERNAL_ERROR);
}

#[test]
fn create_without_body_is_internal_error() {
    let mut store = MemStore::new();
    let (status, body) = run(&mut store, "POST /users HTTP/1.1");
    assert_eq!(status, INTERNAL_ERROR);
    assert_eq!(body, "Error");
}

#[test]
fn create_then_fetch_all_lists_user() {
    let mut store = MemStore::new();
    let (status, body) = run(
        &mut store,
        "POST /users HTTP/1.1\r\n\r\n{\"name\":\"Grace\",\"email\":\"grace@x.com\"}",
    );
    assert_eq!(status, OK);
    assert_eq!(body, "User created");
    let (status, body) = run(&mut store, "GET /users HTTP/1.1\r\n\r\n");
    assert_eq!(status, OK);
    assert_eq!(body, "[{\"id\":1,\"name\":\"Grace\",\"email\":\"grace@x.com\"}]");
}

#[test]
fn fetch_all_on_empty_store_is_ok() {
    let mut store = MemStore::new();
    let (status, body) = run(&mut store, "GET /users HTTP/1.1\r\n\r\n");
    assert_eq!(status, OK);
    assert_eq!(body, "[]");
}

#[test]
fn delete_existing_then_again() {
    let mut store = MemStore::new();
    run(
        &mut store,
        "POST /users HTTP/1.1\r\n\r\n{\"name\":\"Ada\",\"email\":\"ada@x.com\"}",
    );
    let (status, body) = run(&mut store, "DELETE /users/1 HTTP/1.1\r\n\r\n");
    assert_eq!(status, OK);
    assert_eq!(body, "User deleted");
    let (status, body) = run(&mut store, "DELETE /users/1 HTTP/1.1\r\n\r\n");
    assert_eq!(status, NOT_FOUND);
    assert_eq!(body, "User not found");
}

#[test]
fn update_existing_then_fetch_one() {
    let mut store = MemStore::new();
    run(
        &mut store,
        "POST /users HTTP/1.1\r\n\r\n{\"name\":\"Ada\",\"email\":\"ada@x.com\"}",
    );
    let (status, body) = run(
        &mut store,
        "PUT /users/1 HTTP/1.1\r\n\r\n{\"name\":\"Grace\",\"email\":\"grace@y.org\"}",
    );
    assert_eq!(status, OK);
    assert_eq!(body, "User updated");
    let (status, body) = run(&mut store, "GET /users/1 HTTP/1.1\r\n\r\n");
    assert_eq!(status, OK);
    assert_eq!(body, "{\"id\":1,\"name\":\"Grace\",\"email\":\"grace@y.org\"}");
}

#[test]
fn update_missing_id_is_not_distinguished_from_success() {
    let mut store = MemStore::new();
    let (status, body) = run(
        &mut store,
        "PUT /users/9 HTTP/1.1\r\n\r\n{\"name\":\"N\",\"email\":\"n@x\"}",
    );
    assert_eq!(status, OK);
    assert_eq!(body, "User updated");
}

#[test]
fn full_scenario_create_list_delete_fetch() {
    let mut store = MemStore::new();
    let (status, body) = run(
        &mut store,
        "POST /users HTTP/1.1\r\n\r\n{\"name\":\"Ada\",\"email\":\"ada@x.com\"}",
    );
    assert_eq!(status, OK);
    assert_eq!(body, "User created");

    let (status, body) = run(&mut store, "GET /users HTTP/1.1\r\n\r\n");
    assert_eq!(status, OK);
    assert_eq!(body, "[{\"id\":1,\"name\":\"Ada\",\"email\":\"ada@x.com\"}]");

    let (status, body) = run(&mut store, "DELETE /users/1 HTTP/1.1\r\n\r\n");
    assert_eq!(status, OK);
    assert_eq!(body, "User deleted");

    let (status, body) = run(&mut store, "GET /users/1 HTTP/1.1\r\n\r\n");
    assert_eq!(status, NOT_FOUND);
    assert_eq!(body, "User not found");
}

#[test]
fn store_assigns_serial_ids() {
    let mut store = MemStore::new();
    run(
        &mut store,
        "POST /users HTTP/1.1\r\n\r\n{\"name\":\"A\",\"email\":\"a@x\"}",
    );
    run(
        &mut store,
        "POST /users HTTP/1.1\r\n\r\n{\"name\":\"B\",\"email\":\"b@x\"}",
    );
    let (_, body) = run(&mut store, "GET /users HTTP/1.1\r\n\r\n");
    assert_eq!(
        body,
        "[{\"id\":1,\"name\":\"A\",\"email\":\"a@x\"},{\"id\":2,\"name\":\"B\",\"email\":\"b@x\"}]"
    );
}

#[test]
fn conclude_maps_store_failure_to_internal_error() {
    let cmd = StoreCommand::FetchOne { id: 1 };
    let (status, body) = conclude(&cmd, StoreReply::Failed);
    assert_eq!(status, INTERNAL_ERROR);
    assert_eq!(body, "Error");
    let cmd = StoreCommand::Insert {
        name: String::from("A"),
        email: String::from("a@x"),
    };
    let (status, _) = conclude(&cmd, StoreReply::Failed);
    assert_eq!(status, INTERNAL_ERROR);
}
