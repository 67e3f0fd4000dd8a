use genesis_agent::config::{Config, EnvOverrides};

fn no_overrides() -> EnvOverrides {
    EnvOverrides {
        app_dir: None,
        secrets_dir: None,
        db_path: None,
        db_key: None,
        python_venv_dir: None,
        monitor_interval_secs: None,
        monitor_interval: None,
        nats_url: None,
        central_server_url: None,
        web_socket_url: None,
    }
}

#[test]
fn defaults_without_environment() {
    let c = Config::new(no_overrides());
    assert_eq!(c.app_dir, "/var/lib/genesis_agent");
    assert_eq!(c.secrets_dir, "/run/genesis_agent/secrets");
    assert_eq!(c.db_path, "/var/lib/genesis_agent/monitoring.db");
    assert_eq!(c.db_key, "/etc/genesis_agent/config.env");
    assert_eq!(c.python_venv_dir, "/opt/genesis_agent/venv");
    assert_eq!(c.monitor_interval_secs, 2);
    assert_eq!(c.monitor_interval, 5);
    assert_eq!(c.master_key_enc, "/var/lib/genesis_agent/master_key.enc");
    assert_eq!(c.jetstream_dir, "/var/lib/genesis_agent/jetstream");
    assert_eq!(c.nats_template, "/opt/genesis_agent/nats.conf.template");
    assert_eq!(c.nats_runtime_config, "/run/genesis_agent/nats-server.conf");
    assert_eq!(c.b_jwt_path, "/run/genesis_agent/secrets/bridge.jwt");
    assert_eq!(c.b_nkey_path, "/run/genesis_agent/secrets/bridge.nk");
    assert_eq!(c.bridge_cert_path, "/run/genesis_agent/secrets/bridge-cert.pem");
    assert_eq!(c.bridge_key_path, "/run/genesis_agent/secrets/bridge-key.pem");
    assert_eq!(c.c_jwt_path, "/run/genesis_agent/secrets/collector.jwt");
    assert_eq!(c.c_nkey_path, "/run/genesis_agent/secrets/collector.nk");
    assert_eq!(c.client_cert_path, "/run/genesis_agent/secrets/collector-cert.pem");
    assert_eq!(c.client_key_path, "/run/genesis_agent/secrets/collector-key.pem");
    assert_eq!(c.ca_cert_path, "/run/genesis_agent/secrets/ca-cert.pem");
    assert_eq!(c.nats_url, "tls://127.0.0.1:4222");
    assert_eq!(c.central_server_url, "https://192.168.100.13");
    assert_eq!(c.web_socket_url, "wss://192.168.100.13");
}

#[test]
fn environment_overrides_defaults() {
    let mut env = no_overrides();
    env.app_dir = Some("/srv/agent".to_string());
    env.secrets_dir = Some("/tmp/s".to_string());
    env.monitor_interval_secs = Some("10".to_string());
    env.monitor_interval = Some("+3".to_string());
    env.nats_url = Some("tls://10.0.0.1:4222".to_string());
    let c = Config::new(env);
    assert_eq!(c.app_dir, "/srv/agent");
    assert_eq!(c.db_path, "/srv/agent/monitoring.db");
    assert_eq!(c.master_key_enc, "/srv/agent/master_key.enc");
    assert_eq!(c.jetstream_dir, "/srv/agent/jetstream");
    assert_eq!(c.ca_cert_path, "/tmp/s/ca-cert.pem");
    assert_eq!(c.monitor_interval_secs, 10);
    assert_eq!(c.monitor_interval, 3);
    assert_eq!(c.nats_url, "tls://10.0.0.1:4222");
}

#[test]
fn explicit_db_path_wins_and_bad_numbers_fall_back() {
    let mut env = no_overrides();
    env.db_path = Some("/data/db.sqlite".to_string());
    env.monitor_interval_secs = Some("ten".to_string());
    env.monitor_interval = Some("-5".to_string());
    let c = Config::new(env);
    assert_eq!(c.db_path, "/data/db.sqlite");
    assert_eq!(c.monitor_interval_secs, 2);
    assert_eq!(c.monitor_interval, 5);
}
