use kvstore::router::forward_response;
use kvstore::router::relay_url;
use kvstore::router::Body;
use kvstore::router::Method;
use kvstore::router::Node;
use kvstore::router::RelayOutcome;
use kvstore::router::RelayRequest;
use kvstore::router::Response;
use kvstore::router::Step;
use kvstore::router::MAX_KEY_LEN;
use kvstore::router::STATUS_BAD_REQUEST;
use kvstore::router::STATUS_CREATED;
use kvstore::router::STATUS_INTERNAL_ERROR;
use kvstore::router::STATUS_NOT_FOUND;
use kvstore::router::STATUS_OK;
use kvstore::router::STATUS_UNAVAILABLE;

fn done(status: u16, body: Body) -> Step {
    Step::Done(Response { status, body })
}

#[test]
fn standalone_scenario() {
    let mut node = Node::new(None);
    assert_eq!(
        node.handle_put("foo".to_string(), Some("42".to_string())),
        done(STATUS_CREATED, Body::Created)
    );
    let found = node.handle_get("foo".to_string());
    assert_eq!(found, done(STATUS_OK, Body::Found("42".to_string())));
    match found {
        Step::Done(response) => {
            assert_eq!(response.body.to_json(), "{\"result\":\"found\",\"value\":42}")
        }
        Step::Forward(_) => panic!("expected a local response"),
    }
    assert_eq!(
        node.handle_put("foo".to_string(), Some("\"bar\"".to_string())),
        done(STATUS_OK, Body::Replaced)
    );
    assert_eq!(
        node.handle_delete("foo".to_string()),
        done(STATUS_OK, Body::Deleted)
    );
    assert_eq!(
        node.handle_get("foo".to_string()),
        done(STATUS_NOT_FOUND, Body::KeyNotFound)
    );
}

#[test]
fn put_with_51_char_key_rejected_regardless_of_value() {
    let mut node = Node::new(None);
    let key = "k".repeat(MAX_KEY_LEN + 1);
    assert_eq!(key.chars().count(), 51);
    assert_eq!(
        node.handle_put(key.clone(), Some("1".to_string())),
        done(STATUS_BAD_REQUEST, Body::KeyTooLong)
    );
    assert_eq!(
        node.handle_put(key.clone(), Some("{\"big\":[1,2,3]}".to_string())),
        done(STATUS_BAD_REQUEST, Body::KeyTooLong)
    );
    // The rejected puts left no binding behind.
    assert_eq!(node.handle_get(key), done(STATUS_NOT_FOUND, Body::KeyNotFound));
}

#[test]
fn put_with_50_char_key_accepted() {
    let mut node = Node::new(None);
    let key = "k".repeat(MAX_KEY_LEN);
    assert_eq!(key.chars().count(), 50);
    assert_eq!(
        node.handle_put(key.clone(), Some("1".to_string())),
        done(STATUS_CREATED, Body::Created)
    );
    assert_eq!(node.handle_get(key), done(STATUS_OK, Body::Found("1".to_string())));
}

#[test]
fn put_without_value_rejected_locally() {
    let mut node = Node::new(None);
    assert_eq!(
        node.handle_put("foo".to_string(), None),
        done(STATUS_BAD_REQUEST, Body::MissingValue)
    );
}

#[test]
fn forwarding_put_without_value_rejected_without_relay() {
    let mut node = Node::new(Some("upstream:8090".to_string()));
    assert_eq!(
        node.handle_put("foo".to_string(), None),
        done(STATUS_BAD_REQUEST, Body::MissingValue)
    );
}

#[test]
fn forwarding_relays_each_operation_verbatim() {
    let mut node = Node::new(Some("upstream:8090".to_string()));
    assert_eq!(
        node.handle_put("foo".to_string(), Some("42".to_string())),
        Step::Forward(RelayRequest {
            method: Method::Put,
            target: "upstream:8090".to_string(),
            key: "foo".to_string(),
            body: Some("42".to_string()),
        })
    );
    assert_eq!(
        node.handle_get("foo".to_string()),
        Step::Forward(RelayRequest {
            method: Method::Get,
            target: "upstream:8090".to_string(),
            key: "foo".to_string(),
            body: None,
        })
    );
    assert_eq!(
        node.handle_delete("foo".to_string()),
        Step::Forward(RelayRequest {
            method: Method::Delete,
            target: "upstream:8090".to_string(),
            key: "foo".to_string(),
            body: None,
        })
    );
}

#[test]
fn forwarding_skips_local_key_length_validation() {
    let mut node = Node::new(Some("upstream:8090".to_string()));
    let key = "k".repeat(MAX_KEY_LEN + 1);
    match node.handle_put(key.clone(), Some("1".to_string())) {
        Step::Forward(request) => assert_eq!(request.key, key),
        Step::Done(response) => panic!("expected a relay, got status {}", response.status),
    }
}

#[test]
fn forwarding_leaves_own_store_untouched() {
    let mut node = Node::new(Some("upstream:8090".to_string()));
    match node.handle_put("foo".to_string(), Some("42".to_string())) {
        Step::Forward(_) => {}
        Step::Done(response) => panic!("expected a relay, got status {}", response.status),
    }
    // Switch the same node to local mode: nothing was written through it.
    node.forwarding_address = None;
    assert_eq!(
        node.handle_get("foo".to_string()),
        done(STATUS_NOT_FOUND, Body::KeyNotFound)
    );
}

#[test]
fn relay_url_names_target_and_key() {
    let request = RelayRequest {
        method: Method::Get,
        target: "10.0.0.7:8090".to_string(),
        key: "foo".to_string(),
        body: None,
    };
    assert_eq!(relay_url(&request), "http://10.0.0.7:8090/kvs/foo");
}

#[test]
fn delivered_relay_passes_status_and_body_through_unchanged() {
    let upstream_body = "{\"result\":\"found\",\"value\":{\"deep\":[1,2]}}".to_string();
    let response = forward_response(RelayOutcome::Delivered {
        status: 200,
        body: upstream_body.clone(),
    });
    assert_eq!(response.status, 200);
    assert_eq!(response.body, Body::Passthrough(upstream_body.clone()));
    // Byte-identical pass-through, whatever the status.
    assert_eq!(response.body.to_json(), upstream_body);
    let error_response = forward_response(RelayOutcome::Delivered {
        status: 404,
        body: "{\"error\":\"Key does not exist\"}".to_string(),
    });
    assert_eq!(error_response.status, 404);
    assert_eq!(
        error_response.body.to_json(),
        "{\"error\":\"Key does not exist\"}"
    );
}

#[test]
fn unreachable_relay_yields_503_with_error_payload() {
    let response = forward_response(RelayOutcome::Unreachable);
    assert_eq!(response.status, STATUS_UNAVAILABLE);
    assert_eq!(response.status, 503);
    assert_eq!(
        response.body.to_json(),
        "{\"error\":\"Cannot forward request\"}"
    );
}

#[test]
fn malformed_upstream_reply_yields_500_with_detail() {
    let response = forward_response(RelayOutcome::Malformed(
        "expected value at line 1 column 1".to_string(),
    ));
    assert_eq!(response.status, STATUS_INTERNAL_ERROR);
    assert_eq!(response.status, 500);
    assert_eq!(
        response.body.to_json(),
        "{\"error\":\"Failed to parse JSON response: expected value at line 1 column 1\"}"
    );
}

#[test]
fn body_json_texts_are_exact() {
    assert_eq!(Body::Created.to_json(), "{\"result\":\"created\"}");
    assert_eq!(Body::Replaced.to_json(), "{\"result\":\"replaced\"}");
    assert_eq!(Body::Deleted.to_json(), "{\"result\":\"deleted\"}");
    assert_eq!(
        Body::Found("42".to_string()).to_json(),
        "{\"result\":\"found\",\"value\":42}"
    );
    assert_eq!(Body::KeyTooLong.to_json(), "{\"error\":\"Key is too long\"}");
    assert_eq!(
        Body::MissingValue.to_json(),
        "{\"error\":\"PUT request does not specify a value\"}"
    );
    assert_eq!(Body::KeyNotFound.to_json(), "{\"error\":\"Key does not exist\"}");
}
