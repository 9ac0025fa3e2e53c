use user_service::json::{user_to_json, users_to_json};
use user_service::User;

#[test]
fn user_json_is_exact() {
    let u = User {
        id: 1,
        name: String::from("Ada"),
        email: String::from("ada@x.com"),
    };
    assert_eq!(user_to_json(&u), "{\"id\":1,\"name\":\"Ada\",\"email\":\"ada@x.com\"}");
}

#[test]
fn user_json_negative_id() {
    let u = User {
        id: -12,
        name: String::from("n"),
        email: String::from("e"),
    };
    assert_eq!(user_to_json(&u), "{\"id\":-12,\"name\":\"n\",\"email\":\"e\"}");
}

#[test]
fn user_json_escapes_quotes_and_backslashes() {
    let u = User {
        id: 3,
        name: String::from("A\"B\\C"),
        email: String::from("tab\there"),
    };
    assert_eq!(
        user_to_json(&u),
        "{\"id\":3,\"name\":\"A\\\"B\\\\C\",\"email\":\"tab\\there\"}"
    );
}

#[test]
fn user_json_escapes_control_characters() {
    let u = User {
        id: 4,
        name: String::from("a\u{8}b\u{c}c"),
        email: String::from("x\u{1}y\u{1f}z"),
    };
    assert_eq!(
        user_to_json(&u),
        "{\"id\":4,\"name\":\"a\\bb\\fc\",\"email\":\"x\\u0001y\\u001fz\"}"
    );
}

#[test]
fn users_json_empty_and_many() {
    assert_eq!(users_to_json(&Vec::new()), "[]");
    let us = vec![
        User {
            id: 1,
            name: String::from("A"),
            email: String::from("a@x"),
        },
        User {
            id: 2,
            name: String::from("B"),
            email: String::from("b@x"),
        },
    ];
    assert_eq!(
        users_to_json(&us),
        "[{\"id\":1,\"name\":\"A\",\"email\":\"a@x\"},{\"id\":2,\"name\":\"B\",\"email\":\"b@x\"}]"
    );
}

#[test]
fn encoded_user_is_valid_json_for_serde() {
    let u = User {
        id: 7,
        name: String::from("A\"B\\C\n\u{1}\u{8}"),
        email: String::from("x@y.z"),
    };
    let text = user_to_json(&u);
    let v: serde_json::Value = serde_json::from_str(&text).unwrap();
    assert_eq!(v["id"].as_i64().unwrap(), 7);
    assert_eq!(v["name"].as_str().unwrap(), "A\"B\\C\n\u{1}\u{8}");
    assert_eq!(v["email"].as_str().unwrap(), "x@y.z");
}

#[test]
fn encoded_array_is_valid_json_for_serde() {
    let us = vec![
        User {
            id: 1,
            name: String::from("A"),
            email: String::from("a@x"),
        },
        User {
            id: 2,
            name: String::from("B"),
            email: String::from("b@x"),
        },
    ];
    let text = users_to_json(&us);
    let v: serde_json::Value = serde_json::from_str(&text).unwrap();
    let items = v.as_array().unwrap();
    assert_eq!(items.len(), 2);
    assert_eq!(items[0]["id"].as_i64().unwrap(), 1);
    assert_eq!(items[1]["name"].as_str().unwrap(), "B");
}
