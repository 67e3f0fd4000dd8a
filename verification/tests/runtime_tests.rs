use genesis_agent::runtime::{generate_nats_config, runtime_secrets, write_secret, RuntimeError};
use genesis_agent::secret_store::SecretStore;

#[test]
fn secret_store_reads_back_writes() {
    let mut s = SecretStore::new();
    assert!(s.get("a").is_none());
    s.insert("a".to_string(), vec![1, 2]);
    s.insert("b".to_string(), vec![3]);
    assert_eq!(s.get("a"), Some(&vec![1, 2]));
    s.insert("a".to_string(), vec![9]);
    assert_eq!(s.get("a"), Some(&vec![9]));
    assert_eq!(s.get("b"), Some(&vec![3]));
}

#[test]
fn write_secret_targets_secrets_dir() {
    let mut s = SecretStore::new();
    s.insert("cert.ca.pem".to_string(), b"PEM".to_vec());
    let f = write_secret(&s, "cert.ca.pem", "ca-cert.pem", "/run/genesis_agent/secrets").unwrap();
    assert_eq!(f.path, "/run/genesis_agent/secrets/ca-cert.pem");
    assert_eq!(f.data, b"PEM".to_vec());
    match write_secret(&s, "nats.bridge.nk", "bridge.nk", "/run/x") {
        Err(RuntimeError::MissingSecret(k)) => assert_eq!(k, "nats.bridge.nk"),
        _ => panic!("expected a missing secret"),
    }
}

#[test]
fn runtime_secret_list_in_order() {
    let list = runtime_secrets();
    assert_eq!(list.len(), 14);
    assert_eq!(list[0], ("cert.ca.pem", "ca-cert.pem"));
    assert_eq!(list[12], ("nats.account.jwt", "BridgeAccount.jwt"));
    assert_eq!(list[13], ("nats.system_account.pub", "system_account.pub"));
}

#[test]
fn nats_config_template_rendering() {
    let template = "server_name: {{HOSTNAME}}\noperator: {{OPERATOR_JWT_PATH}}\nresolver: {{JWT_STORE_PATH}}\njs: {{JETSTREAM_PATH}}\ncert: {{CERT_PATH}}/a {{CERT_PATH}}/b";
    let out = generate_nats_config(template, "host1", "/run/s", "/var/js", "  ABCDEF \n");
    assert_eq!(
        out,
        "server_name: host1\noperator: /run/s/operator.jwt\nresolver: /run/s\njs: /var/js\ncert: /run/s/a /run/s/b\nsystem_account: ABCDEF\n"
    );
}

#[test]
fn template_without_placeholders_only_gains_account_line() {
    let out = generate_nats_config("listen: 4222\n", "h", "/s", "/j", "SYS\n");
    assert_eq!(out, "listen: 4222\n\nsystem_account: SYS\n");
}
