//! The agent's configuration: where its files live and how it reaches its
//! peers, with defaults for whatever the environment does not set.
use vstd::prelude::*;
use crate::text::{concat2, copy_str, parse_u64, parsed_u64};

verus! {

/// The values of the agent's environment variables, each `None` when the
/// variable is unset or not valid Unicode.
pub struct EnvOverrides {
    /// `GENESIS_AGENT_APP_DIR`
    pub app_dir: Option<String>,
    /// `GENESIS_AGENT_SECRETS_DIR`
    pub secrets_dir: Option<String>,
    /// `GENESIS_AGENT_DB_PATH`
    pub db_path: Option<String>,
    /// `GENESIS_AGENT_DB_KEY`
    pub db_key: Option<String>,
    /// `GENESIS_AGENT_PYTHON_VENV`
    pub python_venv_dir: Option<String>,
    /// `GENESIS_AGENT_MONITOR_INTERVAL_SEC`
    pub monitor_interval_secs: Option<String>,
    /// `GENESIS_AGENT_MONITOR_INTERVAL`
    pub monitor_interval: Option<String>,
    /// `GENESIS_AGENT_NATS_URL`
    pub nats_url: Option<String>,
    /// `GENESIS_AGENT_CENTRAL_SERVER_URL`
    pub central_server_url: Option<String>,
    /// `GENESIS_AGENT_WEB_SOCKET_URL`
    pub web_socket_url: Option<String>,
}

/// The agent's configuration.
pub struct Config {
    pub app_dir: String,
    pub b_jwt_path: String,
    pub b_nkey_path: String,
    pub c_jwt_path: String,
    pub c_nkey_path: String,
    pub ca_cert_path: String,
    pub bridge_cert_path: String,
    pub bridge_key_path: String,
    pub client_cert_path: String,
    pub client_key_path: String,
    pub nats_url: String,
    pub central_server_url: String,
    pub web_socket_url: String,
    pub secrets_dir: String,
    pub db_path: String,
    pub db_key: String,
    pub monitor_interval_secs: u64,
    pub monitor_interval: u64,
    pub python_venv_dir: String,
    pub master_key_enc: String,
    pub jetstream_dir: String,
    pub nats_template: String,
    pub nats_runtime_config: String,
}

/// The value of a text setting: the variable's value when it is set, else `d`.
pub open spec fn text_setting(v: Option<String>, d: Seq<char>) -> Seq<char> {
    match v {
        Some(s) => s@,
        None => d,
    }
}

/// The value of a number setting: the variable's value when it parses as a
/// `u64`, else `d`.
pub open spec fn number_setting(v: Option<String>, d: u64) -> u64 {
    match v {
        Some(s) => match parsed_u64(s@) {
            Some(n) => n,
            None => d,
        },
        None => d,
    }
}

fn text_or(v: Option<String>, d: &str) -> (r: String)
    ensures
        r@ == text_setting(v, d@),
{
    match v {
        Some(s) => s,
        None => copy_str(d),
    }
}

fn number_or(v: &Option<String>, d: u64) -> (r: u64)
    ensures
        r == number_setting(*v, d),
{
    match v {
        Some(s) => match parse_u64(s.as_str()) {
            Some(n) => n,
            None => d,
        },
        None => d,
    }
}

impl Config {
    /// The configuration for the given environment.
    pub fn new(env: EnvOverrides) -> (c: Config)
        ensures
            c.app_dir@ == text_setting(env.app_dir, "/var/lib/genesis_agent"@),
            c.secrets_dir@ == text_setting(env.secrets_dir, "/run/genesis_agent/secrets"@),
            c.db_path@ == text_setting(env.db_path, c.app_dir@ + "/monitoring.db"@),
            c.db_key@ == text_setting(env.db_key, "/etc/genesis_agent/config.env"@),
            c.python_venv_dir@ == text_setting(env.python_venv_dir, "/opt/genesis_agent/venv"@),
            c.monitor_interval_secs == number_setting(env.monitor_interval_secs, 2),
            c.monitor_interval == number_setting(env.monitor_interval, 5),
            c.master_key_enc@ == c.app_dir@ + "/master_key.enc"@,
            c.jetstream_dir@ == c.app_dir@ + "/jetstream"@,
            c.nats_template@ == "/opt/genesis_agent/nats.conf.template"@,
            c.nats_runtime_config@ == "/run/genesis_agent/nats-server.conf"@,
            c.b_jwt_path@ == c.secrets_dir@ + "/bridge.jwt"@,
            c.b_nkey_path@ == c.secrets_dir@ + "/bridge.nk"@,
            c.bridge_cert_path@ == c.secrets_dir@ + "/bridge-cert.pem"@,
            c.bridge_key_path@ == c.secrets_dir@ + "/bridge-key.pem"@,
            c.c_jwt_path@ == c.secrets_dir@ + "/collector.jwt"@,
            c.c_nkey_path@ == c.secrets_dir@ + "/collector.nk"@,
            c.client_cert_path@ == c.secrets_dir@ + "/collector-cert.pem"@,
            c.client_key_path@ == c.secrets_dir@ + "/collector-key.pem"@,
            c.ca_cert_path@ == c.secrets_dir@ + "/ca-cert.pem"@,
            c.nats_url@ == text_setting(env.nats_url, "tls://127.0.0.1:4222"@),
            c.central_server_url@ == text_setting(
                env.central_server_url,
                "https://192.168.100.13"@,
            ),
            c.web_socket_url@ == text_setting(env.web_socket_url, "wss://192.168.100.13"@),
    {
        let monitor_interval_secs = number_or(&env.monitor_interval_secs, 2);
        let monitor_interval = number_or(&env.monitor_interval, 5);
        let app_dir = text_or(env.app_dir, "/var/lib/genesis_agent");
        let secrets_dir = text_or(env.secrets_dir, "/run/genesis_agent/secrets");
        let db_path = match env.db_path {
            Some(p) => p,
            None => concat2(app_dir.as_str(), "/monitoring.db"),
        };
        let db_key = text_or(env.db_key, "/etc/genesis_agent/config.env");
        let python_venv_dir = text_or(env.python_venv_dir, "/opt/genesis_agent/venv");
        Config {
            master_key_enc: concat2(app_dir.as_str(), "/master_key.enc"),
            jetstream_dir: concat2(app_dir.as_str(), "/jetstream"),
            nats_template: copy_str("/opt/genesis_agent/nats.conf.template"),
            nats_runtime_config: copy_str("/run/genesis_agent/nats-server.conf"),
            b_jwt_path: concat2(secrets_dir.as_str(), "/bridge.jwt"),
            b_nkey_path: concat2(secrets_dir.as_str(), "/bridge.nk"),
            bridge_cert_path: concat2(secrets_dir.as_str(), "/bridge-cert.pem"),
            bridge_key_path: concat2(secrets_dir.as_str(), "/bridge-key.pem"),
            c_jwt_path: concat2(secrets_dir.as_str(), "/collector.jwt"),
            c_nkey_path: concat2(secrets_dir.as_str(), "/collector.nk"),
            client_cert_path: concat2(secrets_dir.as_str(), "/collector-cert.pem"),
            client_key_path: concat2(secrets_dir.as_str(), "/collector-key.pem"),
            ca_cert_path: concat2(secrets_dir.as_str(), "/ca-cert.pem"),
            nats_url: text_or(env.nats_url, "tls://127.0.0.1:4222"),
            central_server_url: text_or(env.central_server_url, "https://192.168.100.13"),
            web_socket_url: text_or(env.web_socket_url, "wss://192.168.100.13"),
            app_dir,
            db_path,
            monitor_interval_secs,
            monitor_interval,
            python_venv_dir,
            secrets_dir,
            db_key,
        }
    }
}

} // verus!
