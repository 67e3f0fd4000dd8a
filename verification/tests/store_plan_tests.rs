use genesis_agent::json::Json;
use genesis_agent::store_plan::{insert_or_update, store_json_data, StoreError, Table, WriteMode};

fn text(s: &str) -> Json {
    Json::Str(s.to_string())
}

fn obj(members: Vec<(&str, Json)>) -> Json {
    Json::Obj(members.into_iter().map(|(k, v)| (k.to_string(), v)).collect())
}

fn rec(uuid: &str) -> Json {
    obj(vec![("uuid", text(uuid))])
}

fn summary(steps: &[genesis_agent::store_plan::StoreStep]) -> Vec<(Table, String, Option<String>, WriteMode)> {
    steps
        .iter()
        .map(|s| (s.table, s.uuid.to_string(), s.parent_uuid.map(|p| p.to_string()), s.mode))
        .collect()
}

#[test]
fn full_report_writes_parents_before_children() {
    let report = obj(vec![
        ("agent", rec("a1")),
        (
            "device",
            obj(vec![
                ("uuid", text("d1")),
                ("cpu", Json::Arr(vec![rec("c1"), rec("c2")])),
                ("memory", Json::Arr(vec![rec("m1")])),
                (
                    "storage",
                    Json::Arr(vec![obj(vec![
                        ("uuid", text("s1")),
                        ("partition", Json::Arr(vec![rec("p1"), rec("p2")])),
                    ])]),
                ),
                (
                    "nic",
                    Json::Arr(vec![obj(vec![
                        ("uuid", text("n1")),
                        (
                            "port",
                            Json::Arr(vec![obj(vec![
                                ("uuid", text("o1")),
                                ("ip", Json::Arr(vec![rec("i1")])),
                            ])]),
                        ),
                    ])]),
                ),
                ("gpu", Json::Arr(vec![rec("g1")])),
            ]),
        ),
    ]);
    let steps = store_json_data(&report).unwrap();
    let u = WriteMode::Upsert;
    let some = |s: &str| Some(s.to_string());
    assert_eq!(
        summary(&steps),
        vec![
            (Table::Agent, "a1".to_string(), None, u),
            (Table::Device, "d1".to_string(), None, u),
            (Table::Cpu, "c1".to_string(), some("d1"), u),
            (Table::Cpu, "c2".to_string(), some("d1"), u),
            (Table::Memory, "m1".to_string(), some("d1"), u),
            (Table::Storage, "s1".to_string(), some("d1"), u),
            (Table::Partition, "p1".to_string(), some("s1"), u),
            (Table::Partition, "p2".to_string(), some("s1"), u),
            (Table::Nic, "n1".to_string(), some("d1"), u),
            (Table::Port, "o1".to_string(), some("n1"), u),
            (Table::IpAddress, "i1".to_string(), some("o1"), u),
            (Table::Gpu, "g1".to_string(), some("d1"), u),
        ]
    );
}

#[test]
fn empty_report_writes_nothing() {
    let empty = obj(vec![]);
    let steps = store_json_data(&empty).unwrap();
    assert!(steps.is_empty());
    let device_only = obj(vec![("device", rec("d")), ("cpu", Json::Null)]);
    let steps = store_json_data(&device_only).unwrap();
    assert_eq!(steps.len(), 1);
}

#[test]
fn record_without_uuid_rolls_back() {
    let report = obj(vec![
        ("agent", rec("a1")),
        ("device", obj(vec![("uuid", text("d1")), ("cpu", Json::Arr(vec![rec("c1"), obj(vec![])]))])),
    ]);
    assert_eq!(store_json_data(&report).err(), Some(StoreError::MissingUuid(Table::Cpu)));
    let report = obj(vec![("agent", obj(vec![("uuid", Json::Null)]))]);
    assert_eq!(store_json_data(&report).err(), Some(StoreError::MissingUuid(Table::Agent)));
}

#[test]
fn change_report_inserts_addresses_and_links_devices() {
    let devices = vec![obj(vec![
        ("device_uuid", text("d9")),
        ("storage", obj(vec![("uuid", text("s9")), ("partition", Json::Arr(vec![rec("p9")]))])),
        (
            "nic",
            obj(vec![
                ("uuid", text("n9")),
                ("port", Json::Arr(vec![obj(vec![("uuid", text("o9")), ("ip", Json::Arr(vec![rec("i9")]))])])),
            ]),
        ),
    ])];
    let steps = insert_or_update(&devices).unwrap();
    let some = |s: &str| Some(s.to_string());
    assert_eq!(
        summary(&steps),
        vec![
            (Table::Storage, "s9".to_string(), some("d9"), WriteMode::Upsert),
            (Table::Partition, "p9".to_string(), some("s9"), WriteMode::Upsert),
            (Table::Nic, "n9".to_string(), some("d9"), WriteMode::Upsert),
            (Table::Port, "o9".to_string(), some("n9"), WriteMode::Upsert),
            (Table::IpAddress, "i9".to_string(), some("o9"), WriteMode::Insert),
        ]
    );
}

#[test]
fn empty_partition_list_skips_rest_of_device() {
    let devices = vec![
        obj(vec![
            ("storage", obj(vec![("uuid", text("s1")), ("partition", Json::Arr(vec![]))])),
            ("nic", rec("n1")),
        ]),
        obj(vec![("device_uuid", text("d2")), ("nic", rec("n2"))]),
    ];
    let steps = insert_or_update(&devices).unwrap();
    let some = |s: &str| Some(s.to_string());
    assert_eq!(
        summary(&steps),
        vec![
            (Table::Storage, "s1".to_string(), some(""), WriteMode::Upsert),
            (Table::Nic, "n2".to_string(), some("d2"), WriteMode::Upsert),
        ]
    );
}

#[test]
fn change_report_error_rolls_back() {
    let devices = vec![obj(vec![("nic", obj(vec![("uuid", Json::Bool(true))]))])];
    assert_eq!(insert_or_update(&devices).err(), Some(StoreError::MissingUuid(Table::Nic)));
}
