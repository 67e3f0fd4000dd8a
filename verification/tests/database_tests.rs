use genesis_agent::database::{
    db_command, delete_action, delete_table, encrypted_connection_statements, generate_diesel_toml,
    get_arg, DbCommand, DeleteError, DeleteTable,
};
use genesis_agent::json::Json;

fn text(s: &str) -> Json {
    Json::Str(s.to_string())
}

fn obj(members: Vec<(&str, Json)>) -> Json {
    Json::Obj(members.into_iter().map(|(k, v)| (k.to_string(), v)).collect())
}

fn args(v: &[&str]) -> Vec<String> {
    v.iter().map(|s| s.to_string()).collect()
}

#[test]
fn delete_with_uuid_list_keeps_strings_only() {
    let req = obj(vec![
        ("action", text("deleted_partition")),
        ("uuid", Json::Arr(vec![text("p1"), Json::Null, text("p2")])),
    ]);
    let plan = delete_action(&req).unwrap();
    assert_eq!(plan.table, DeleteTable::Partition);
    assert_eq!(plan.uuids, vec!["p1".to_string(), "p2".to_string()]);
}

#[test]
fn delete_with_single_uuid() {
    let req = obj(vec![("action", text("deleted_disk")), ("uuid", text("s1"))]);
    let plan = delete_action(&req).unwrap();
    assert_eq!(plan.table, DeleteTable::Disk);
    assert_eq!(plan.uuids, vec!["s1".to_string()]);
}

#[test]
fn delete_errors_in_order() {
    assert_eq!(delete_action(&obj(vec![])).err(), Some(DeleteError::MissingAction));
    assert_eq!(
        delete_action(&obj(vec![("action", text("updated_port")), ("uuid", text("x"))])).err(),
        Some(DeleteError::NotDeleteAction)
    );
    assert_eq!(
        delete_action(&obj(vec![("action", text("deleted_gpu"))])).err(),
        Some(DeleteError::InvalidUuid)
    );
    assert_eq!(
        delete_action(&obj(vec![("action", text("deleted_gpu")), ("uuid", text("x"))])).err(),
        Some(DeleteError::UnsupportedTable)
    );
}

#[test]
fn delete_table_names() {
    assert_eq!(delete_table("nic"), Some(DeleteTable::Nic));
    assert_eq!(delete_table("port"), Some(DeleteTable::Port));
    assert_eq!(delete_table("storage"), None);
}

#[test]
fn command_selection() {
    assert_eq!(db_command(&args(&["tool", "--init-db"])), DbCommand::InitDb);
    assert_eq!(db_command(&args(&["tool", "store-secret", "--key", "k"])), DbCommand::StoreSecret);
    assert_eq!(db_command(&args(&["tool"])), DbCommand::Initialize);
    assert_eq!(db_command(&args(&["tool", "other"])), DbCommand::Initialize);
}

#[test]
fn argument_values() {
    let a = args(&["tool", "store-secret", "--key", "nats.bridge.jwt", "--file", "/tmp/f", "--key", "second"]);
    assert_eq!(get_arg(&a, "--key"), Some("nats.bridge.jwt".to_string()));
    assert_eq!(get_arg(&a, "--file"), Some("/tmp/f".to_string()));
    assert_eq!(get_arg(&a, "--missing"), None);
    assert_eq!(get_arg(&args(&["tool", "--key"]), "--key"), None);
}

#[test]
fn connection_statements_carry_the_key() {
    let s = encrypted_connection_statements("s3cret");
    assert_eq!(
        s,
        vec![
            "PRAGMA cipher_compatibility = 4;".to_string(),
            "PRAGMA key = 's3cret';".to_string(),
            "SELECT count(*) FROM sqlite_master;".to_string(),
        ]
    );
}

#[test]
fn diesel_toml_points_at_migrations() {
    let t = generate_diesel_toml("/opt/app", "/opt/app/models_database.sqlite");
    assert_eq!(t.path, "/opt/app/models_database/diesel.toml");
    let expected = format!(
        r#"# For documentation on how to configure this file,
# see https://diesel.rs/guides/configuring-diesel-cli
 
[print_schema]
file = "src/schema.rs"
custom_type_derives = ["diesel::query_builder::QueryId", "Clone"]
 
[migrations_directory]
dir = "{migrations_dir}"
"#,
        migrations_dir = "/opt/app/migrations"
    );
    assert_eq!(t.content, expected);
}
