use genesis_agent::nats_setup::{
    generate_nats_server_config, generate_operator_jwt, generate_tls_certificates, generate_user_jwt,
    initialize_nats_credentials, nats_credential_paths, CredentialAction, CredentialPresence,
};

#[test]
fn server_config_uses_app_dir_and_bridge_certificates() {
    let text = generate_nats_server_config("/srv", "/s/ca.pem", "/s/b.pem", "/s/b.key");
    let expected = format!(
        r#"
listen: "0.0.0.0:4222"

operator: "{app_dir}/nats/nsc_creds/NATSOperator.jwt"

resolver {{
  type: full
  dir: "{app_dir}/nats/nsc_creds/jwt_store"
  interval: "30s"
}}

system_account: "AD7OQRBMKJSXWTMMZSDPTGNCV3ZAJPHWS33TRBTM273AHRW6S67UDLW3"

jetstream {{
  store_dir: "{app_dir}/nats/nats_config/jetstream"
  max_mem: 1G
  max_file: 10G
}}

tls {{
  cert_file: "{bridge_cert_path}"
  key_file: "{bridge_key_path}"
  ca_file: "{ca_cert_path}"
  verify: true
  timeout: 2
}}

authorization {{
  timeout: 20
}}
"#,
        app_dir = "/srv",
        ca_cert_path = "/s/ca.pem",
        bridge_cert_path = "/s/b.pem",
        bridge_key_path = "/s/b.key",
    );
    assert_eq!(text, expected);
}

#[test]
fn jwt_contents() {
    let op = generate_operator_jwt();
    assert!(op.starts_with("-----BEGIN NATS OPERATOR JWT-----\n"));
    assert!(op.ends_with("\n-----END NATS OPERATOR JWT-----"));
    let user = generate_user_jwt("BridgeUser");
    assert!(user.starts_with("-----BEGIN NATS USER JWT-----\n"));
    assert!(user.contains("bmFtZSI6IiBridgeUser\",InN1Yi"));
    assert!(user.ends_with(".aGVsbG8K\n-----END NATS USER JWT-----"));
}

#[test]
fn credential_paths_under_app_dir() {
    let p = nats_credential_paths("/a");
    assert_eq!(
        p.dirs,
        vec![
            "/a/nats/nsc_creds".to_string(),
            "/a/nats/nsc_creds/jwt_store".to_string(),
            "/a/nats/nats_config/certificate".to_string(),
            "/a/nats/jwt_keys".to_string(),
        ]
    );
    assert_eq!(p.operator_jwt, "/a/nats/nsc_creds/NATSOperator.jwt");
    assert_eq!(p.bridge_jwt, "/a/nats/nsc_creds/BridgeUser.jwt");
    assert_eq!(p.collector_jwt, "/a/nats/nsc_creds/CollectorUser.jwt");
    assert_eq!(p.ca_cert, "/a/nats/nats_config/certificate/ca-cert.pem");
}

#[test]
fn missing_credentials_are_created_existing_kept() {
    let none = CredentialPresence { operator_jwt: false, bridge_jwt: false, collector_jwt: false, ca_cert: false };
    let steps = initialize_nats_credentials("/a", &none);
    assert_eq!(steps.len(), 4);
    match &steps[1] {
        CredentialAction::WriteFile { path, content } => {
            assert_eq!(path, "/a/nats/nsc_creds/BridgeUser.jwt");
            assert_eq!(content, &generate_user_jwt("BridgeUser"));
        }
        _ => panic!("expected a file"),
    }
    match &steps[3] {
        CredentialAction::GenerateTls { cert_dir } => assert_eq!(cert_dir, "/a/nats/nats_config/certificate"),
        _ => panic!("expected certificates"),
    }
    let all = CredentialPresence { operator_jwt: true, bridge_jwt: true, collector_jwt: true, ca_cert: true };
    assert!(initialize_nats_credentials("/a", &all).is_empty());
    let some = CredentialPresence { operator_jwt: true, bridge_jwt: false, collector_jwt: true, ca_cert: true };
    let steps = initialize_nats_credentials("/a", &some);
    assert_eq!(steps.len(), 1);
}

#[test]
fn openssl_commands_in_order() {
    let cmds = generate_tls_certificates("/c");
    assert_eq!(cmds.len(), 5);
    assert_eq!(
        cmds[0],
        [
            "req", "-x509", "-newkey", "rsa:4096", "-nodes", "-keyout", "/c/ca-key.pem", "-out",
            "/c/ca-cert.pem", "-days", "3650", "-subj", "/CN=RustFull-CA",
        ]
        .iter()
        .map(|s| s.to_string())
        .collect::<Vec<_>>()
    );
    assert_eq!(cmds[4][3], "/c/collector.csr");
    assert_eq!(cmds[4][10], "/c/collector-cert.pem");
    assert_eq!(cmds[2][3], "/c/bridge.csr");
}
