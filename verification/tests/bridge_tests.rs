use genesis_agent::bridge::{
    handle_verification, monitor_response_route, scan_forward, token_exists_response, token_expiration,
    token_grant, token_saved_response, verification_sample, MonitorRoute,
};
use genesis_agent::json::{Json, JsonNumber};

fn text(s: &str) -> Json {
    Json::Str(s.to_string())
}

fn obj(members: Vec<(&str, Json)>) -> Json {
    Json::Obj(members.into_iter().map(|(k, v)| (k.to_string(), v)).collect())
}

fn members(j: &Json) -> Vec<(String, String)> {
    match j {
        Json::Obj(e) => e
            .iter()
            .map(|(k, v)| {
                let shown = match v {
                    Json::Str(s) => s.clone(),
                    Json::Bool(b) => b.to_string(),
                    _ => "?".to_string(),
                };
                (k.clone(), shown)
            })
            .collect(),
        _ => panic!("expected an object"),
    }
}

#[test]
fn token_grant_defaults() {
    let g = token_grant(&obj(vec![("access_token", text("abc")), ("expires_in", Json::Num(JsonNumber::PosInt(3600)))]));
    assert_eq!(g.access_token, "abc");
    assert_eq!(g.expires_in, 3600);
    let g = token_grant(&obj(vec![("expires_in", text("3600"))]));
    assert_eq!(g.access_token, "");
    assert_eq!(g.expires_in, 0);
}

#[test]
fn token_expiration_times() {
    assert_eq!(token_expiration(0, 86400), Some("1970-01-02 00:00:00".to_string()));
    assert_eq!(token_expiration(1_700_000_000, 3600), Some("2023-11-14 23:13:20".to_string()));
    assert_eq!(token_expiration(0, i64::MAX), None);
    assert_eq!(token_expiration(i64::MAX, 1), None);
    assert_eq!(token_expiration(0, 9_223_372_036_854_775), None);
}

#[test]
fn token_responses() {
    assert_eq!(
        members(&token_saved_response("{\"access_token\":\"t\"}")),
        vec![("status".to_string(), "ok".to_string()), ("token".to_string(), "{\"access_token\":\"t\"}".to_string())]
    );
    assert_eq!(
        members(&token_exists_response()),
        vec![("message".to_string(), "Token is already exists".to_string())]
    );
}

#[test]
fn monitor_routes() {
    assert!(matches!(monitor_response_route(&obj(vec![("action", text("verify_disk_existence"))])), MonitorRoute::VerifyDisk));
    assert!(matches!(monitor_response_route(&obj(vec![("action", text("verify_nic_existence"))])), MonitorRoute::VerifyNic));
    match monitor_response_route(&obj(vec![("action", text("partition"))])) {
        MonitorRoute::Publish(s) => assert_eq!(s, "scan.partition"),
        _ => panic!("expected a publication"),
    }
    assert!(matches!(monitor_response_route(&obj(vec![])), MonitorRoute::Ignore));
}

#[test]
fn verification_sample_is_fifth() {
    let batch: Vec<Json> = (0..5).map(|i| text(&i.to_string())).collect();
    assert!(matches!(verification_sample(&batch), Some(Json::Str(s)) if s == "4"));
    let short: Vec<Json> = (0..4).map(|i| text(&i.to_string())).collect();
    assert!(verification_sample(&short).is_none());
}

#[test]
fn verification_passes_and_fails() {
    let sample = obj(vec![
        ("device_uuid", text("d1")),
        ("disk_monitoring", Json::Arr(vec![obj(vec![("disk_uuid", text("x"))]), obj(vec![("disk_uuid", text("y"))])])),
    ]);
    let reply = obj(vec![("device_uuid", text("d1")), ("disk_uuid", text("y"))]);
    assert_eq!(
        members(&handle_verification("disk_monitoring", "disk_uuid", &sample, &reply)),
        vec![
            ("action".to_string(), "verify_disk_existence".to_string()),
            ("disk_uuid".to_string(), "y".to_string()),
            ("device_uuid".to_string(), "d1".to_string()),
            ("exists".to_string(), "true".to_string()),
        ]
    );
    let reply = obj(vec![("device_uuid", text("d2")), ("disk_uuid", text("y"))]);
    assert_eq!(members(&handle_verification("disk_monitoring", "disk_uuid", &sample, &reply))[3].1, "false");
    let reply = obj(vec![("device_uuid", text("d1"))]);
    let m = members(&handle_verification("disk_monitoring", "disk_uuid", &sample, &reply));
    assert_eq!(m[1].1, "unknown");
    assert_eq!(m[3].1, "false");
    let m = members(&handle_verification("nic_monitoring", "nic_uuid", &obj(vec![]), &obj(vec![])));
    assert_eq!(m[0].1, "verify_nic_existence");
    assert_eq!(m[2].1, "unknown");
    assert_eq!(m[3].1, "false");
}

#[test]
fn scan_forward_needs_all_members() {
    let j = obj(vec![("action", text("disk")), ("uuid", text("u")), ("result", Json::Null)]);
    let f = scan_forward(&j).unwrap();
    assert_eq!((f.action, f.uuid), ("disk", "u"));
    assert!(matches!(f.result, Json::Null));
    assert!(scan_forward(&obj(vec![("action", text("disk")), ("uuid", text("u"))])).is_none());
}
