use genesis_agent::bridge::{
    access_token_step, master_key_step, monitor_batch_sample, monitor_reply_action, token_from_response,
    AccessTokenAction, AccessTokenEvent, MasterKeyAction, MasterKeyEvent, MonitorReplyAction, TokenError,
};
use genesis_agent::collector::{bridge_response_for_payload, scan_order, BridgeResponseAction, ScanKind};
use genesis_agent::json::{parse_json, Json, JsonNumber};

fn members(j: &Json) -> Vec<(String, String)> {
    match j {
        Json::Obj(e) => e
            .iter()
            .map(|(k, v)| {
                let shown = match v {
                    Json::Str(s) => s.clone(),
                    Json::Bool(b) => b.to_string(),
                    _ => "?".to_string(),
                };
                (k.clone(), shown)
            })
            .collect(),
        _ => panic!("expected an object"),
    }
}

fn pairs(v: &[(&str, &str)]) -> Vec<(String, String)> {
    v.iter().map(|(a, b)| (a.to_string(), b.to_string())).collect()
}

// 2021-01-01 00:00:00 UTC
const NOW: i64 = 1_609_459_200;

#[test]
fn parse_json_builds_model() {
    let j = parse_json(r#"{"b": [1, -2, 1.5, "x", null, true], "a": {"k": "v"}}"#).unwrap();
    match &j {
        Json::Obj(e) => {
            assert_eq!(e.len(), 2);
            assert_eq!(e[0].0, "a");
            assert_eq!(e[1].0, "b");
        }
        _ => panic!("expected an object"),
    }
    match j.get("b") {
        Some(Json::Arr(items)) => {
            assert_eq!(items.len(), 6);
            assert!(matches!(items[0], Json::Num(JsonNumber::PosInt(1))));
            assert!(matches!(items[1], Json::Num(JsonNumber::NegInt(-2))));
            assert!(matches!(&items[2], Json::Num(JsonNumber::Float(t)) if t == "1.5"));
            assert!(matches!(&items[3], Json::Str(t) if t == "x"));
            assert!(matches!(items[4], Json::Null));
            assert!(matches!(items[5], Json::Bool(true)));
        }
        _ => panic!("expected an array"),
    }
    assert!(parse_json("not json").is_none());
    assert!(parse_json("").is_none());
}

#[test]
fn bridge_response_payloads() {
    assert_eq!(bridge_response_for_payload(false, r#"{"status":"ok","token":"t"}"#), BridgeResponseAction::SendAgentData);
    assert_eq!(
        bridge_response_for_payload(false, r#"{"message":"Token is already exists"}"#),
        BridgeResponseAction::SendAgentData
    );
    assert_eq!(bridge_response_for_payload(false, r#"{"status":"error"}"#), BridgeResponseAction::Ignore);
    assert_eq!(bridge_response_for_payload(false, "garbage"), BridgeResponseAction::ReportInvalid);
    assert_eq!(bridge_response_for_payload(true, "garbage"), BridgeResponseAction::SendRescan);
}

#[test]
fn scan_order_from_payload() {
    let o = scan_order(r#"{"action":"partition","uuid":"u-1"}"#).unwrap();
    assert_eq!((o.action.as_str(), o.uuid.as_str(), o.kind), ("partition", "u-1", ScanKind::Disk));
    let o = scan_order(r#"{"action":"nic"}"#).unwrap();
    assert_eq!((o.action.as_str(), o.uuid.as_str(), o.kind), ("nic", "", ScanKind::Nic));
    let o = scan_order(r#"{"action":"gpu","uuid":"g"}"#).unwrap();
    assert_eq!(o.kind, ScanKind::Unknown);
    assert!(scan_order(r#"{"uuid":"u"}"#).is_none());
    assert!(scan_order("{").is_none());
}

#[test]
fn token_reply_is_read_with_expiry() {
    let (t, e) = token_from_response(r#"{"access_token":"abc","expires_in":3600}"#, NOW).unwrap();
    assert_eq!(t, "abc");
    assert_eq!(e.as_deref(), Some("2021-01-01 01:00:00"));
    let (t, e) = token_from_response(r#"{}"#, NOW).unwrap();
    assert_eq!(t, "");
    assert_eq!(e.as_deref(), Some("2021-01-01 00:00:00"));
    assert_eq!(token_from_response("<html>", NOW).err(), Some(TokenError::InvalidJson));
}

#[test]
fn access_token_steps() {
    assert!(matches!(access_token_step(AccessTokenEvent::Stored(Some("tok")), NOW), AccessTokenAction::Use(t) if t == "tok"));
    assert!(matches!(access_token_step(AccessTokenEvent::Stored(None), NOW), AccessTokenAction::Fetch));
    assert!(matches!(access_token_step(AccessTokenEvent::Fetched(None), NOW), AccessTokenAction::Use(t) if t.is_empty()));
    match access_token_step(AccessTokenEvent::Fetched(Some(r#"{"access_token":"n","expires_in":60}"#)), NOW) {
        AccessTokenAction::Save { access_token, expiration } => {
            assert_eq!(access_token, "n");
            assert_eq!(expiration.as_deref(), Some("2021-01-01 00:01:00"));
        }
        _ => panic!("expected a save"),
    }
    assert!(matches!(access_token_step(AccessTokenEvent::Fetched(Some("oops")), NOW), AccessTokenAction::Fail));
    assert!(matches!(access_token_step(AccessTokenEvent::Reread(Some("n")), NOW), AccessTokenAction::Use(t) if t == "n"));
    assert!(matches!(access_token_step(AccessTokenEvent::Reread(None), NOW), AccessTokenAction::Use(t) if t.is_empty()));
}

#[test]
fn master_key_steps() {
    assert!(matches!(master_key_step(MasterKeyEvent::KeyReceived, NOW), MasterKeyAction::ForwardKey));
    match master_key_step(MasterKeyEvent::KeyForwarded { token_stored: true }, NOW) {
        MasterKeyAction::Reply(m) => assert_eq!(members(&m), pairs(&[("message", "Token is already exists")])),
        _ => panic!("expected a reply"),
    }
    assert!(matches!(master_key_step(MasterKeyEvent::KeyForwarded { token_stored: false }, NOW), MasterKeyAction::FetchToken));
    assert!(matches!(master_key_step(MasterKeyEvent::TokenFetched(None), NOW), MasterKeyAction::Done));
    assert!(matches!(master_key_step(MasterKeyEvent::TokenFetched(Some("x")), NOW), MasterKeyAction::Fail));
    let reply = r#"{"access_token":"k","expires_in":-60}"#;
    match master_key_step(MasterKeyEvent::TokenFetched(Some(reply)), NOW) {
        MasterKeyAction::SaveAndReply { access_token, expiration, reply: m } => {
            assert_eq!(access_token, "k");
            assert_eq!(expiration.as_deref(), Some("2020-12-31 23:59:00"));
            assert_eq!(members(&m), pairs(&[("status", "ok"), ("token", reply)]));
        }
        _ => panic!("expected save and reply"),
    }
}

const BATCH: &str = r#"[{"n":0},{"n":1},{"n":2},{"n":3},
  {"device_uuid":"d1","disk_monitoring":[{"disk_uuid":"s1"},{"disk_uuid":"s2"}],"nic_monitoring":[{"nic_uuid":"n1"}]}]"#;

#[test]
fn batch_sample_is_fifth_item() {
    let s = monitor_batch_sample(BATCH).unwrap();
    assert_eq!(s.get_str("device_uuid"), Some("d1"));
    assert!(monitor_batch_sample(r#"[1,2,3,4]"#).is_none());
    assert!(monitor_batch_sample(r#"{"a":1}"#).is_none());
    assert!(monitor_batch_sample("nope").is_none());
}

#[test]
fn monitor_replies_are_routed() {
    match monitor_reply_action(BATCH, r#"{"action":"verify_disk_existence","disk_uuid":"s2","device_uuid":"d1"}"#) {
        MonitorReplyAction::SendVerification(v) => assert_eq!(
            members(&v),
            pairs(&[("action", "verify_disk_existence"), ("disk_uuid", "s2"), ("device_uuid", "d1"), ("exists", "true")])
        ),
        _ => panic!("expected a disk check"),
    }
    match monitor_reply_action(BATCH, r#"{"action":"verify_nic_existence","nic_uuid":"n9","device_uuid":"d1"}"#) {
        MonitorReplyAction::SendVerification(v) => assert_eq!(
            members(&v),
            pairs(&[("action", "verify_nic_existence"), ("nic_uuid", "n9"), ("device_uuid", "d1"), ("exists", "false")])
        ),
        _ => panic!("expected a nic check"),
    }
    match monitor_reply_action(BATCH, r#"{"action":"partition","uuid":"p"}"#) {
        MonitorReplyAction::Forward(subject, m) => {
            assert_eq!(subject, "scan.partition");
            assert_eq!(m.get_str("uuid"), Some("p"));
        }
        _ => panic!("expected a forward"),
    }
    assert!(matches!(monitor_reply_action(BATCH, r#"{"status":"ok"}"#), MonitorReplyAction::Ignore));
    assert!(matches!(monitor_reply_action(BATCH, "not json"), MonitorReplyAction::Ignore));
    assert!(matches!(monitor_reply_action("[]", r#"{"action":"partition"}"#), MonitorReplyAction::NoSample));
}
