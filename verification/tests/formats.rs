//! The wire formats: JSON codec, encodings, device updates, push decisions
//! and the schema statement lists.

use fxa_client::errors::Error;
use fxa_client::http_client::{
    device_update_to_json, invoke_command_body, remote_error_from_json, DeviceUpdateRequestBuilder,
};
use fxa_client::json::{json_parse, json_to_string, u64_to_string, JsonValue};
use fxa_client::places::schema;
use fxa_client::push::communications::{
    channel_lists_match, check_authorized, register_response_from_json, subscribe_url,
    subscription_url, validate_push_config, PushConfiguration,
};
use fxa_client::push::error::ErrorKind;
use fxa_client::push::storage::{now_u64, Storage, Store};
use fxa_client::strmap::StringMap;

fn parse(s: &str) -> JsonValue {
    json_parse(s).expect("valid json")
}

#[test]
fn json_round_trips_a_nested_document() {
    let text = "{\"a\":[1,true,null,\"x\"],\"b\":{\"c\":\"\\\"quoted\\\\\"},\"d\":18446744073709551615}";
    let v = parse(text);
    assert_eq!(json_to_string(&v), text);
}

#[test]
fn json_parser_handles_whitespace_and_rejects_malformed_text() {
    let v = json_parse("{ \"a\" : [ 1 ,\t2 ] ,\n\"b\" : null }").expect("whitespace is insignificant");
    assert_eq!(json_to_string(&v), "{\"a\":[1,2],\"b\":null}");
    assert_eq!(json_to_string(&json_parse(" 7 ").expect("padded scalar")), "7");
    assert!(json_parse("{}x").is_none());
    assert!(json_parse("[1,2,]").is_none());
    assert!(json_parse("01").is_none());
    assert!(json_parse("18446744073709551616").is_none(), "too big for u64");
}

#[test]
fn json_escapes_control_characters() {
    let v = JsonValue::Str(String::from("a\tb\"c\\d"));
    let text = json_to_string(&v);
    assert_eq!(text, "\"a\\u0009b\\\"c\\\\d\"");
    let back = json_parse(&text).expect("parses back");
    match back.as_str() {
        Some(s) => assert_eq!(s, "a\tb\"c\\d"),
        None => panic!("a string"),
    }
}

#[test]
fn json_reads_unicode_escapes_and_surrogate_pairs() {
    let v = json_parse("\"\\ue000\\ud83d\\ude00\"").expect("escapes parse");
    match v.as_str() {
        Some(s) => assert_eq!(s, "\u{e000}\u{1f600}"),
        None => panic!("a string"),
    }
    assert!(json_parse("\"\\ud83d\"").is_none(), "a lone high surrogate is refused");
    assert!(json_parse("\"\\ude00\"").is_none(), "a lone low surrogate is refused");
}

#[test]
fn u64_text_is_decimal() {
    assert_eq!(u64_to_string(0), "0");
    assert_eq!(u64_to_string(90210), "90210");
}

#[test]
fn token_server_endpoint_sits_under_the_content_server() {
    let config = fxa_client::config::Config::new(
        "https://stable.dev.lcip.org",
        "12345678",
        "https://foo.bar",
    );
    assert_eq!(
        config.token_server_endpoint_url().unwrap(),
        "https://stable.dev.lcip.org/token/1.0/sync/1.5"
    );
}

#[test]
fn device_update_uses_tri_state_fields() {
    let update = DeviceUpdateRequestBuilder::new().display_name("Foo").build();
    assert_eq!(json_to_string(&device_update_to_json(&update)), "{\"name\":\"Foo\"}");

    let update = DeviceUpdateRequestBuilder::new().clear_display_name().build();
    assert_eq!(json_to_string(&device_update_to_json(&update)), "{\"name\":null}");

    let update = DeviceUpdateRequestBuilder::new().build();
    assert_eq!(json_to_string(&device_update_to_json(&update)), "{}", "absent means no change");

    let mut commands = StringMap::new();
    commands.insert(String::from("cmd"), String::from("data"));
    let update = DeviceUpdateRequestBuilder::new().available_commands(commands).build();
    assert_eq!(
        json_to_string(&device_update_to_json(&update)),
        "{\"availableCommands\":{\"cmd\":\"data\"}}"
    );

    let update = DeviceUpdateRequestBuilder::new().clear_available_commands().build();
    assert_eq!(
        json_to_string(&device_update_to_json(&update)),
        "{\"availableCommands\":null}"
    );
}

#[test]
fn invoke_body_carries_command_target_and_payload() {
    let body = invoke_command_body("cmd-name", "device-1", &JsonValue::Bool(true));
    assert_eq!(
        json_to_string(&body),
        "{\"command\":\"cmd-name\",\"target\":\"device-1\",\"payload\":true}"
    );
}

#[test]
fn remote_errors_read_what_the_body_offers() {
    let v = parse("{\"code\":400,\"errno\":107,\"error\":\"x\",\"message\":\"y\"}");
    match remote_error_from_json(&v) {
        Error::RemoteError { code, errno, error, message, info } => {
            assert_eq!(code, 400);
            assert_eq!(errno, 107);
            assert_eq!(error, "x");
            assert_eq!(message, "y");
            assert_eq!(info, "");
        },
        other => panic!("got {:?}", other),
    }
}

#[test]
fn string_map_replaces_and_keeps_order() {
    let mut m: StringMap<String> = StringMap::new();
    m.insert(String::from("a"), String::from("1"));
    m.insert(String::from("b"), String::from("2"));
    m.insert(String::from("a"), String::from("3"));
    assert_eq!(m.len(), 2);
    assert_eq!(m.get("a"), Some(&String::from("3")));
    assert_eq!(m.get("b"), Some(&String::from("2")));
    assert_eq!(m.get("c"), None);
    assert!(m.contains_key("a"));
    assert!(m.wf_exec());
}

#[test]
fn push_config_validation() {
    let mut config = PushConfiguration {
        server_host: String::from("localhost:8082"),
        http_protocol: Some(String::from("http")),
        socket_protocol: None,
        bridge_type: Some(String::from("gcm")),
        application_id: Some(String::from("308358850242")),
        sender_id: String::from("308358850242"),
        request_timeout: 16,
    };
    assert!(validate_push_config(&config).is_ok());
    assert_eq!(
        subscribe_url(&config).unwrap(),
        "http://localhost:8082/v1/gcm/308358850242/registration"
    );
    assert_eq!(
        subscription_url(&config, "uaid-1", "chan-2").unwrap(),
        "http://localhost:8082/v1/gcm/308358850242/registration/uaid-1/subscription/chan-2"
    );
    config.socket_protocol = Some(String::from("wss"));
    assert!(matches!(
        validate_push_config(&config).unwrap_err(),
        ErrorKind::CommunicationError(_)
    ));
    config.http_protocol = None;
    assert!(matches!(validate_push_config(&config).unwrap_err(), ErrorKind::GeneralError(_)));
    config.socket_protocol = None;
    assert!(matches!(subscribe_url(&config).unwrap_err(), ErrorKind::CommunicationError(_)));
}

#[test]
fn push_authorization_and_channel_lists() {
    assert!(check_authorized(&Some(String::from("s")), &Some(String::from("u"))).is_ok());
    assert!(check_authorized(&None, &Some(String::from("u"))).is_err());
    assert!(check_authorized(&Some(String::from("s")), &None).is_err());
    let remote = vec![String::from("a"), String::from("b")];
    let stored = vec![String::from("a"), String::from("b")];
    assert!(channel_lists_match(&remote, Some(&stored)));
    assert!(!channel_lists_match(&remote, Some(&vec![String::from("a")])));
    assert!(!channel_lists_match(&remote, None));
    assert!(channel_lists_match(&vec![], None));
}

#[test]
fn push_register_response_reads_required_fields() {
    let v = parse("{\"uaid\":\"u1\",\"channelID\":\"c1\",\"endpoint\":\"https://push\",\"secret\":\"s\"}");
    let r = register_response_from_json(&v).unwrap();
    assert_eq!(r.uaid, "u1");
    assert_eq!(r.channelID, "c1");
    assert_eq!(r.endpoint, "https://push");
    assert_eq!(r.secret, Some(String::from("s")));
    assert_eq!(r.senderid, None);
    let bad = parse("{\"uaid\":\"u1\"}");
    assert!(register_response_from_json(&bad).is_err());
}

#[test]
fn store_creates_records_and_stubs_the_rest() {
    let record = Store::create_record(
        "uaid",
        "chan",
        StringMap::new(),
        "https://endpoint",
        "auth",
        &vec![1, 2, 3],
        true,
    );
    assert_eq!(record.endpoint, "https://endpoint");
    assert_eq!(record.designator, "chan");
    assert_eq!(record.key, vec![1, 2, 3]);
    assert_eq!(record.push_count, 0);
    assert!(!record.system_record, "the shipped store never marks system records");
    let mut store = Store;
    assert!(store.get_record("u", "c").is_none());
    assert_eq!(store.put_record("u", "c", &record).unwrap(), false);
    assert_eq!(store.purge("u", None).unwrap(), false);
    assert_eq!(store.generate_channel_id(), "deadbeef00000000decafbad00000000");
    assert!(matches!(store.update_record("u", "c", "e").unwrap_err(), ErrorKind::StorageError(_)));
    assert_eq!(store.get_channel_list("u"), Some(vec![]));
    assert!(now_u64() > 0);
}

#[test]
fn schema_statement_lists() {
    let fresh = schema::init(0);
    let existing = schema::init(2);
    let create = schema::create();
    assert_eq!(fresh.len(), create.len() + existing.len());
    assert!(create[0].contains("CREATE TABLE IF NOT EXISTS moz_places"));
    assert_eq!(create.last().unwrap(), "PRAGMA user_version = 2");
    assert_eq!(existing.len(), 11);
    assert!(existing[0].contains("moz_historyvisits_afterinsert_trigger"));
    let minus = schema::update_origin_frecency_stats("-");
    assert!(minus.contains("- CAST (frecency > 0 AS INT)"));
    assert!(minus.contains("origin_frecency_sum_of_squares"));
    let plus = schema::update_origin_frecency_stats("+");
    assert!(plus.contains("+ MAX(frecency, 0)"));
    assert!(schema::upgrade(2).is_ok());
}
