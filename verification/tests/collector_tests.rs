use genesis_agent::collector::{
    agent_response_starts_monitoring, bridge_response_action, rescan_response_starts_monitoring,
    scan_request, send_scan_response, BridgeResponseAction, MonitorBatch, ScanKind,
};
use genesis_agent::json::Json;

fn text(s: &str) -> Json {
    Json::Str(s.to_string())
}

fn obj(members: Vec<(&str, Json)>) -> Json {
    Json::Obj(members.into_iter().map(|(k, v)| (k.to_string(), v)).collect())
}

#[test]
fn bridge_response_decisions() {
    let ok = obj(vec![("status", text("ok"))]);
    let exists = obj(vec![("message", text("Token is already exists"))]);
    let other = obj(vec![("status", text("error"))]);
    assert_eq!(bridge_response_action(true, None), BridgeResponseAction::SendRescan);
    assert_eq!(bridge_response_action(false, Some(&ok)), BridgeResponseAction::SendAgentData);
    assert_eq!(bridge_response_action(false, Some(&exists)), BridgeResponseAction::SendAgentData);
    assert_eq!(bridge_response_action(false, Some(&other)), BridgeResponseAction::Ignore);
    assert_eq!(bridge_response_action(false, None), BridgeResponseAction::ReportInvalid);
}

#[test]
fn monitoring_starts_on_known_replies() {
    assert!(agent_response_starts_monitoring("{\"message\":\"Device created successfully\"}"));
    assert!(agent_response_starts_monitoring("Reinstallation detected - returned previous device data"));
    assert!(!agent_response_starts_monitoring("Device updated successfully"));
    assert!(rescan_response_starts_monitoring("ok: Device updated successfully"));
    assert!(!rescan_response_starts_monitoring("failed"));
}

#[test]
fn scan_requests() {
    let r = obj(vec![("action", text("partition")), ("uuid", text("u1"))]);
    let q = scan_request(&r).unwrap();
    assert_eq!((q.action, q.uuid, q.kind), ("partition", "u1", ScanKind::Disk));
    let r = obj(vec![("action", text("nic"))]);
    let q = scan_request(&r).unwrap();
    assert_eq!((q.action, q.uuid, q.kind), ("nic", "", ScanKind::Nic));
    let r = obj(vec![("action", text("gpu"))]);
    assert_eq!(scan_request(&r).unwrap().kind, ScanKind::Unknown);
    assert!(scan_request(&obj(vec![("uuid", text("x"))])).is_none());
}

#[test]
fn scan_response_message() {
    let r = send_scan_response("disk", "u7", Json::Arr(vec![]));
    assert_eq!(r.subject, "send.scan.disk");
    match r.message {
        Json::Obj(e) => {
            assert_eq!(e.len(), 3);
            assert_eq!(e[0].0, "action");
            assert!(matches!(&e[0].1, Json::Str(s) if s == "disk"));
            assert_eq!(e[2].0, "uuid");
            assert!(matches!(&e[2].1, Json::Str(s) if s == "u7"));
        }
        _ => panic!("expected an object"),
    }
}

#[test]
fn batches_are_sent_when_full() {
    let mut b = MonitorBatch::new(3);
    assert_eq!(b.push_sample("{\"a\":1}".to_string()), None);
    assert_eq!(b.push_sample("{\"a\":2}".to_string()), None);
    assert_eq!(b.push_sample("{\"a\":3}".to_string()), Some("[{\"a\":1},{\"a\":2},{\"a\":3}]".to_string()));
    b.publish_succeeded();
    assert_eq!(b.len(), 0);
    assert_eq!(b.push_sample("x".to_string()), None);
}

#[test]
fn failed_publication_keeps_queue_growing() {
    let mut b = MonitorBatch::new(2);
    assert_eq!(b.push_sample("1".to_string()), None);
    assert_eq!(b.push_sample("2".to_string()), Some("[1,2]".to_string()));
    assert_eq!(b.push_sample("3".to_string()), None);
    assert_eq!(b.len(), 3);
}
