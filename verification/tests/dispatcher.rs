use redis_proxy::config::standard_gateway;
use redis_proxy::dispatch::{after_mutation, after_publish, notice_for, Command, Effect, Followup, Gateway};
use redis_proxy::key::KeyGrammar;
use redis_proxy::protocol::{encode_response, Action, Request, Response, Status};
use redis_proxy::schema::{SchemaEntry, SchemaRegistry};

fn request(action: &str, key: &str, value: Option<&str>) -> Option<Request> {
    Some(Request { action: action.to_string(), key: key.to_string(), value: value.map(|v| v.to_string()) })
}

fn reply(effect: Effect) -> Response {
    match effect {
        Effect::Reply(response) => response,
        Effect::Mutate(_) => panic!("the request reached the store"),
    }
}

fn command(effect: Effect) -> Command {
    match effect {
        Effect::Mutate(command) => command,
        Effect::Reply(response) => panic!("refused: {}", response.message),
    }
}

fn lenient_gateway() -> Gateway {
    let entries = vec![SchemaEntry {
        base_key: "cs:DiskUsage:object1".to_string(),
        schema: "{\"type\":\"object\",\"properties\":{\"disk\":{\"type\":\"string\"},\"usage\":{\"type\":\"number\"}},\"required\":[\"disk\",\"usage\"]}".to_string(),
    }];
    Gateway {
        grammar: KeyGrammar::new(vec!["DiskUsage".to_string()], vec!["object1".to_string()]),
        schemas: SchemaRegistry::new(entries).unwrap(),
    }
}

#[test]
fn valid_set_is_stored_and_announced() {
    let gateway = lenient_gateway();
    let value = "{\"disk\":\"/dev/sda1\",\"usage\":42}";
    let cmd = command(gateway.handle_request(request("set", "cs:DiskUsage:object1", Some(value))));
    assert_eq!(cmd.action, Action::Put);
    assert_eq!(cmd.key, "cs:DiskUsage:object1");
    assert_eq!(cmd.value.as_deref(), Some(value));
    let notice = match after_mutation(&cmd, Ok(())) {
        Followup::Publish(notice) => notice,
        Followup::Reply(_) => panic!("no notification"),
    };
    assert_eq!(notice.channel, "cs:DiskUsage:object1");
    assert_eq!(notice.message, format!("set: {}", value));
    let response = after_publish(Ok(()));
    assert_eq!(response.status, Status::Success);
    assert_eq!(encode_response(&response), "{\"status\":\"ok\",\"message\":\"Action completed successfully\"}");
}

#[test]
fn unknown_producer_is_refused() {
    let gateway = standard_gateway().unwrap();
    let response = reply(gateway.handle_request(request("set", "cs:UnknownProducer:object1", Some("1"))));
    assert_eq!(encode_response(&response), "{\"status\":\"error\",\"message\":\"Invalid key format\"}");
}

#[test]
fn missing_required_field_is_refused() {
    let gateway = standard_gateway().unwrap();
    let response = reply(gateway.handle_request(request("set", "cs:ModemWatcher:object2", Some("{\"status\":\"up\"}"))));
    assert_eq!(response.status, Status::Failure);
    assert!(response.message.contains("signal_strength"));
    assert!(response.message.contains("version"));
}

#[test]
fn unknown_verb_is_refused() {
    let gateway = standard_gateway().unwrap();
    let response = reply(gateway.handle_request(request("frobnicate", "cs:DiskUsage:object1", None)));
    assert_eq!(encode_response(&response), "{\"status\":\"error\",\"message\":\"Invalid action\"}");
}

#[test]
fn undecodable_request_is_refused() {
    let gateway = standard_gateway().unwrap();
    let response = reply(gateway.handle_request(None));
    assert_eq!(encode_response(&response), "{\"status\":\"error\",\"message\":\"Invalid request format\"}");
}

#[test]
fn key_is_checked_before_the_verb_and_the_value() {
    let gateway = standard_gateway().unwrap();
    let response = reply(gateway.handle_request(request("frobnicate", "bad key", Some("{}"))));
    assert_eq!(response.message, "Invalid key format");
    let response = reply(gateway.handle_request(request("frobnicate", "cs:DiskUsage:object1", Some("{}"))));
    assert!(response.message.contains("is a required property"));
}

#[test]
fn missing_value_is_stored_as_null() {
    let gateway = standard_gateway().unwrap();
    let cmd = command(gateway.handle_request(request("sadd", "cs:Psmon:object1:3", None)));
    assert_eq!(cmd.action, Action::SetAdd);
    assert_eq!(cmd.value.as_deref(), Some("null"));
    assert_eq!(notice_for(&cmd).message, "sadd: null");
    let cmd = command(gateway.handle_request(request("srem", "cs:Psmon:object1:3", Some("[1,2]"))));
    assert_eq!(cmd.action, Action::SetRemove);
    assert_eq!(notice_for(&cmd).message, "srem: [1,2]");
    assert_eq!(notice_for(&cmd).channel, "cs:Psmon:object1:3");
}

#[test]
fn deletion_carries_no_value_and_is_announced() {
    let gateway = standard_gateway().unwrap();
    let cmd = command(gateway.handle_request(request("del", "cs:Psmon:object2", None)));
    assert_eq!(cmd.action, Action::Delete);
    assert_eq!(cmd.value, None);
    assert_eq!(notice_for(&cmd).message, "del");
}

#[test]
fn repeated_deletion_is_answered_alike() {
    let gateway = standard_gateway().unwrap();
    for _ in 0..3 {
        let cmd = command(gateway.handle_request(request("del", "cs:Psmon:object2", None)));
        assert!(matches!(after_mutation(&cmd, Ok(())), Followup::Publish(_)));
        let response = after_publish(Ok(()));
        assert_eq!(response.status, Status::Success);
        assert_eq!(response.message, "Action completed successfully");
    }
}

#[test]
fn failed_mutation_is_not_announced() {
    let cmd = Command { action: Action::Put, key: "cs:Psmon:object1".to_string(), value: Some("1".to_string()) };
    match after_mutation(&cmd, Err("connection refused".to_string())) {
        Followup::Reply(response) => {
            assert_eq!(response.status, Status::Failure);
            assert_eq!(response.message, "connection refused");
        }
        Followup::Publish(_) => panic!("announced a failed mutation"),
    }
}

#[test]
fn failed_notification_is_the_error_of_the_operation() {
    let response = after_publish(Err("broken pipe".to_string()));
    assert_eq!(response.status, Status::Failure);
    assert_eq!(response.message, "broken pipe");
}
