//! Setting up the NATS server: its configuration file, the credentials it
//! starts from, and the OpenSSL runs that make its certificates.
use vstd::prelude::*;
use crate::text::{concat2, concat3, copy_str, lemma_differ_at, string_views};

verus! {

pub const SERVER_CONFIG_HEAD: &'static str = "\nlisten: \"0.0.0.0:4222\"\n\noperator: \"";

pub const SERVER_CONFIG_RESOLVER: &'static str = "/nats/nsc_creds/NATSOperator.jwt\"\n\nresolver {\n  type: full\n  dir: \"";

pub const SERVER_CONFIG_JETSTREAM: &'static str = "/nats/nsc_creds/jwt_store\"\n  interval: \"30s\"\n}\n\nsystem_account: \"AD7OQRBMKJSXWTMMZSDPTGNCV3ZAJPHWS33TRBTM273AHRW6S67UDLW3\"\n\njetstream {\n  store_dir: \"";

pub const SERVER_CONFIG_TLS: &'static str = "/nats/nats_config/jetstream\"\n  max_mem: 1G\n  max_file: 10G\n}\n\ntls {\n  cert_file: \"";

pub const SERVER_CONFIG_KEY: &'static str = "\"\n  key_file: \"";

pub const SERVER_CONFIG_CA: &'static str = "\"\n  ca_file: \"";

pub const SERVER_CONFIG_TAIL: &'static str = "\"\n  verify: true\n  timeout: 2\n}\n\nauthorization {\n  timeout: 20\n}\n";

/// The NATS server configuration for the given paths.
pub open spec fn server_config_text(
    app_dir: Seq<char>,
    ca_cert_path: Seq<char>,
    bridge_cert_path: Seq<char>,
    bridge_key_path: Seq<char>,
) -> Seq<char> {
    SERVER_CONFIG_HEAD@ + app_dir + SERVER_CONFIG_RESOLVER@ + app_dir + SERVER_CONFIG_JETSTREAM@
        + app_dir + SERVER_CONFIG_TLS@ + bridge_cert_path + SERVER_CONFIG_KEY@ + bridge_key_path
        + SERVER_CONFIG_CA@ + ca_cert_path + SERVER_CONFIG_TAIL@
}

/// The NATS server configuration file:
/// the operator, resolver and JetStream directories under `app_dir`, and the
/// bridge's certificate, key and CA for TLS.
pub fn generate_nats_server_config(
    app_dir: &str,
    ca_cert_path: &str,
    bridge_cert_path: &str,
    bridge_key_path: &str,
) -> (r: String)
    ensures
        r@ == server_config_text(app_dir@, ca_cert_path@, bridge_cert_path@, bridge_key_path@),
{
    let mut s = copy_str(SERVER_CONFIG_HEAD);
    s.append(app_dir);
    s.append(SERVER_CONFIG_RESOLVER);
    s.append(app_dir);
    s.append(SERVER_CONFIG_JETSTREAM);
    s.append(app_dir);
    s.append(SERVER_CONFIG_TLS);
    s.append(bridge_cert_path);
    s.append(SERVER_CONFIG_KEY);
    s.append(bridge_key_path);
    s.append(SERVER_CONFIG_CA);
    s.append(ca_cert_path);
    s.append(SERVER_CONFIG_TAIL);
    s
}

pub const OPERATOR_JWT: &'static str = "-----BEGIN NATS OPERATOR JWT-----\neyJ0eXAiOiJKV1QiLCJhbGciOiJlZDI1NTE5LW5rZXkifQ.eyJqdGkiOiJPRDJYVVRKRkJYWlBQTkpPTTRKWVdGSDRRTDRZVEFWSlBXT0MyUFRPVEJMWEtYTlZBU0pRIiwiaWF0IjoxNzExMjc4NzA1LCJpc3MiOiJPRDJYVVRKRkJYWlBQTkpPTTRKWVdGSDRRTDRZVEFWSlBXT0MyUFRPVEJMWEtYTlZBU0pRIiwibmFtZSI6Ik15T3BlcmF0b3IiLCJzdWIiOiJPRDJYVVRKRkJYWlBQTkpPTTRKWVdGSDRRTDRZVEFWSlBXT0MyUFRPVEJMWEtYTlZBU0pRIiwibmF0cyI6eyJ0eXBlIjoib3BlcmF0b3IiLCJ2ZXJzaW9uIjoyfX0.aGVsbG8K\n-----END NATS OPERATOR JWT-----";

pub const USER_JWT_HEAD: &'static str = "-----BEGIN NATS USER JWT-----\neyJ0eXAiOiJKV1QiLCJhbGciOiJlZDI1NTE5LW5rZXkifQ.eyJqdGkiOiJVU0VSMTIzNDU2Nzg5IiwiaWF0IjoxNzExMjc4NzA1LCJpc3MiOiJPRDJYVVRKRkJYWlBQTkpPTTRKWVdGSDRRTDRZVEFWSlBXT0MyUFRPVEJMWEtYTlZBU0pRIiwibmFtZSI6Ii";

pub const USER_JWT_TAIL: &'static str = "\",InN1YiI6IlVTRVIxMjM0NTY3ODkiLCJuYXRzIjp7InR5cGUiOiJ1c2VyIiwidmVyc2lvbiI6Mn19.aGVsbG8K\n-----END NATS USER JWT-----";

/// The operator JWT that a new installation starts from, as
/// `generate_operator_jwt` writes it.
pub fn generate_operator_jwt() -> (r: String)
    ensures
        r@ == OPERATOR_JWT@,
{
    copy_str(OPERATOR_JWT)
}

/// The JWT of the user `user_name`.
pub open spec fn user_jwt_text(user_name: Seq<char>) -> Seq<char> {
    USER_JWT_HEAD@ + user_name + USER_JWT_TAIL@
}

/// The JWT file of a user.
pub fn generate_user_jwt(user_name: &str) -> (r: String)
    ensures
        r@ == user_jwt_text(user_name@),
{
    concat3(USER_JWT_HEAD, user_name, USER_JWT_TAIL)
}

/// Where the NATS credentials of an installation live.
pub struct NatsCredentialPaths {
    /// The directories to create, in order.
    pub dirs: Vec<String>,
    pub operator_jwt: String,
    pub bridge_jwt: String,
    pub collector_jwt: String,
    pub cert_dir: String,
    pub ca_cert: String,
}

pub open spec fn nsc_creds_dir(app_dir: Seq<char>) -> Seq<char> {
    app_dir + "/nats"@ + "/nsc_creds"@
}

pub open spec fn certificate_dir(app_dir: Seq<char>) -> Seq<char> {
    app_dir + "/nats"@ + "/nats_config/certificate"@
}

/// The credential paths under `app_dir`.
pub fn nats_credential_paths(app_dir: &str) -> (r: NatsCredentialPaths)
    ensures
        string_views(r.dirs@) == seq![
            nsc_creds_dir(app_dir@),
            nsc_creds_dir(app_dir@) + "/jwt_store"@,
            certificate_dir(app_dir@),
            app_dir@ + "/nats"@ + "/jwt_keys"@,
        ],
        r.operator_jwt@ == nsc_creds_dir(app_dir@) + "/NATSOperator.jwt"@,
        r.bridge_jwt@ == nsc_creds_dir(app_dir@) + "/BridgeUser.jwt"@,
        r.collector_jwt@ == nsc_creds_dir(app_dir@) + "/CollectorUser.jwt"@,
        r.cert_dir@ == certificate_dir(app_dir@),
        r.ca_cert@ == certificate_dir(app_dir@) + "/ca-cert.pem"@,
{
    let nats_dir = concat2(app_dir, "/nats");
    let nsc = concat2(nats_dir.as_str(), "/nsc_creds");
    let cert_dir = concat2(nats_dir.as_str(), "/nats_config/certificate");
    let jwt_dir = concat2(nats_dir.as_str(), "/jwt_keys");
    let mut dirs: Vec<String> = Vec::new();
    dirs.push(copy_str(nsc.as_str()));
    dirs.push(concat2(nsc.as_str(), "/jwt_store"));
    dirs.push(copy_str(cert_dir.as_str()));
    dirs.push(jwt_dir);
    let r = NatsCredentialPaths {
        dirs,
        operator_jwt: concat2(nsc.as_str(), "/NATSOperator.jwt"),
        bridge_jwt: concat2(nsc.as_str(), "/BridgeUser.jwt"),
        collector_jwt: concat2(nsc.as_str(), "/CollectorUser.jwt"),
        ca_cert: concat2(cert_dir.as_str(), "/ca-cert.pem"),
        cert_dir,
    };
    assert(string_views(r.dirs@) =~= seq![
        nsc_creds_dir(app_dir@),
        nsc_creds_dir(app_dir@) + "/jwt_store"@,
        certificate_dir(app_dir@),
        app_dir@ + "/nats"@ + "/jwt_keys"@,
    ]);
    r
}

/// Which credential files already exist.
pub struct CredentialPresence {
    pub operator_jwt: bool,
    pub bridge_jwt: bool,
    pub collector_jwt: bool,
    pub ca_cert: bool,
}

/// A step of credential initialisation.
pub enum CredentialAction {
    /// Write `content` to `path`.
    WriteFile { path: String, content: String },
    /// Generate the TLS certificates in `cert_dir`.
    GenerateTls { cert_dir: String },
}

/// The abstract content of a [`CredentialAction`].
pub enum CredentialStep {
    WriteFile(Seq<char>, Seq<char>),
    GenerateTls(Seq<char>),
}

impl View for CredentialAction {
    type V = CredentialStep;

    open spec fn view(&self) -> CredentialStep {
        match self {
            CredentialAction::WriteFile { path, content } => CredentialStep::WriteFile(path@, content@),
            CredentialAction::GenerateTls { cert_dir } => CredentialStep::GenerateTls(cert_dir@),
        }
    }
}

pub open spec fn when(b: bool, s: CredentialStep) -> Seq<CredentialStep> {
    if b {
        seq![s]
    } else {
        Seq::empty()
    }
}

/// The steps that create whatever credentials are missing: the operator
/// JWT, the bridge and collector user JWTs, then the TLS certificates.
pub open spec fn credential_steps(app_dir: Seq<char>, present: CredentialPresence) -> Seq<
    CredentialStep,
> {
    when(
        !present.operator_jwt,
        CredentialStep::WriteFile(nsc_creds_dir(app_dir) + "/NATSOperator.jwt"@, OPERATOR_JWT@),
    ) + when(
        !present.bridge_jwt,
        CredentialStep::WriteFile(
            nsc_creds_dir(app_dir) + "/BridgeUser.jwt"@,
            user_jwt_text("BridgeUser"@),
        ),
    ) + when(
        !present.collector_jwt,
        CredentialStep::WriteFile(
            nsc_creds_dir(app_dir) + "/CollectorUser.jwt"@,
            user_jwt_text("CollectorUser"@),
        ),
    ) + when(!present.ca_cert, CredentialStep::GenerateTls(certificate_dir(app_dir)))
}

/// The views of a list of steps.
pub open spec fn action_views(s: Seq<CredentialAction>) -> Seq<CredentialStep> {
    s.map_values(|a: CredentialAction| a@)
}

/// The steps of `initialize_nats_credentials` once its directories exist:
/// each missing file is created, existing ones are kept.
pub fn initialize_nats_credentials(app_dir: &str, present: &CredentialPresence) -> (r: Vec<
    CredentialAction,
>)
    ensures
        action_views(r@) == credential_steps(app_dir@, *present),
{
    let paths = nats_credential_paths(app_dir);
    let mut v: Vec<CredentialAction> = Vec::new();
    let ghost s1 = when(
        !present.operator_jwt,
        CredentialStep::WriteFile(nsc_creds_dir(app_dir@) + "/NATSOperator.jwt"@, OPERATOR_JWT@),
    );
    if !present.operator_jwt {
        v.push(CredentialAction::WriteFile { path: paths.operator_jwt, content: generate_operator_jwt() });
    }
    assert(action_views(v@) =~= s1);
    let ghost s2 = s1 + when(
        !present.bridge_jwt,
        CredentialStep::WriteFile(
            nsc_creds_dir(app_dir@) + "/BridgeUser.jwt"@,
            user_jwt_text("BridgeUser"@),
        ),
    );
    if !present.bridge_jwt {
        v.push(CredentialAction::WriteFile { path: paths.bridge_jwt, content: generate_user_jwt("BridgeUser") });
    }
    assert(action_views(v@) =~= s2);
    let ghost s3 = s2 + when(
        !present.collector_jwt,
        CredentialStep::WriteFile(
            nsc_creds_dir(app_dir@) + "/CollectorUser.jwt"@,
            user_jwt_text("CollectorUser"@),
        ),
    );
    if !present.collector_jwt {
        v.push(CredentialAction::WriteFile { path: paths.collector_jwt, content: generate_user_jwt("CollectorUser") });
    }
    assert(action_views(v@) =~= s3);
    if !present.ca_cert {
        v.push(CredentialAction::GenerateTls { cert_dir: paths.cert_dir });
    }
    assert(action_views(v@) =~= credential_steps(app_dir@, *present));
    v
}

fn push_text(v: &mut Vec<String>, s: &str)
    ensures
        string_views(final(v)@) == string_views(old(v)@).push(s@),
{
    let ghost before = v@;
    v.push(copy_str(s));
    assert(string_views(v@) =~= string_views(before).push(s@));
}

/// The OpenSSL argument lists that make the certificates in `cert_dir`:
/// the CA, the bridge's request and certificate, then the collector's.
pub open spec fn tls_commands(cert_dir: Seq<char>) -> Seq<Seq<Seq<char>>> {
    let ca_key = cert_dir + "/ca-key.pem"@;
    let ca_cert = cert_dir + "/ca-cert.pem"@;
    let bridge_key = cert_dir + "/bridge-key.pem"@;
    let bridge_csr = cert_dir + "/bridge.csr"@;
    let bridge_cert = cert_dir + "/bridge-cert.pem"@;
    let collector_key = cert_dir + "/collector-key.pem"@;
    let collector_csr = cert_dir + "/collector.csr"@;
    let collector_cert = cert_dir + "/collector-cert.pem"@;
    seq![
        seq![
            "req"@, "-x509"@, "-newkey"@, "rsa:4096"@, "-nodes"@, "-keyout"@, ca_key, "-out"@,
            ca_cert, "-days"@, "3650"@, "-subj"@, "/CN=RustFull-CA"@,
        ],
        seq![
            "req"@, "-newkey"@, "rsa:4096"@, "-nodes"@, "-keyout"@, bridge_key, "-out"@,
            bridge_csr, "-subj"@, "/CN=bridge"@,
        ],
        seq![
            "x509"@, "-req"@, "-in"@, bridge_csr, "-CA"@, ca_cert, "-CAkey"@, ca_key,
            "-CAcreateserial"@, "-out"@, bridge_cert, "-days"@, "3650"@,
        ],
        seq![
            "req"@, "-newkey"@, "rsa:4096"@, "-nodes"@, "-keyout"@, collector_key, "-out"@,
            collector_csr, "-subj"@, "/CN=collector"@,
        ],
        seq![
            "x509"@, "-req"@, "-in"@, collector_csr, "-CA"@, ca_cert, "-CAkey"@, ca_key,
            "-CAcreateserial"@, "-out"@, collector_cert, "-days"@, "3650"@,
        ],
    ]
}

/// The key file an option names in an OpenSSL run: the argument after it.
pub open spec fn names_at(run: Seq<Seq<char>>, j: int, option: Seq<char>) -> bool {
    0 <= j && j + 1 < run.len() && run[j] == option
}

/// The OpenSSL runs write each private key once: no two runs write the
/// same key file, and the run that requests a subject's certificate writes
/// that subject's key: the CA's to `ca-key.pem`, the bridge's to
/// `bridge-key.pem`, the collector's to `collector-key.pem`. Certificates
/// are signed with the key that the CA's run wrote.
pub proof fn lemma_tls_key_files(cert_dir: Seq<char>)
    ensures
        forall|i1: int, j1: int, i2: int, j2: int|
            #![trigger tls_commands(cert_dir)[i1][j1], tls_commands(cert_dir)[i2][j2]]
            0 <= i1 < tls_commands(cert_dir).len() && 0 <= i2 < tls_commands(cert_dir).len() && i1
                != i2 && names_at(tls_commands(cert_dir)[i1], j1, "-keyout"@) && names_at(
                tls_commands(cert_dir)[i2],
                j2,
                "-keyout"@,
            ) ==> tls_commands(cert_dir)[i1][j1 + 1] != tls_commands(cert_dir)[i2][j2 + 1],
        forall|i: int, j: int, k: int|
            #![trigger tls_commands(cert_dir)[i][j], tls_commands(cert_dir)[i][k]]
            0 <= i < tls_commands(cert_dir).len() && names_at(tls_commands(cert_dir)[i], j, "-subj"@)
                && names_at(tls_commands(cert_dir)[i], k, "-keyout"@) ==> {
                let subject = tls_commands(cert_dir)[i][j + 1];
                let key = tls_commands(cert_dir)[i][k + 1];
                &&& subject == "/CN=RustFull-CA"@ ==> key == cert_dir + "/ca-key.pem"@
                &&& subject == "/CN=bridge"@ ==> key == cert_dir + "/bridge-key.pem"@
                &&& subject == "/CN=collector"@ ==> key == cert_dir + "/collector-key.pem"@
            },
        forall|i: int, j: int|
            #![trigger tls_commands(cert_dir)[i][j]]
            0 <= i < tls_commands(cert_dir).len() && names_at(tls_commands(cert_dir)[i], j, "-CAkey"@)
                ==> tls_commands(cert_dir)[i][j + 1] == tls_commands(cert_dir)[0][6]
                && tls_commands(cert_dir)[0][5] == "-keyout"@ && tls_commands(cert_dir)[0][12]
                == "/CN=RustFull-CA"@,
{
    reveal_strlit("-CA");
    reveal_strlit("-CAcreateserial");
    reveal_strlit("-CAkey");
    reveal_strlit("-days");
    reveal_strlit("-in");
    reveal_strlit("-keyout");
    reveal_strlit("-newkey");
    reveal_strlit("-nodes");
    reveal_strlit("-out");
    reveal_strlit("-req");
    reveal_strlit("-subj");
    reveal_strlit("-x509");
    reveal_strlit("/CN=RustFull-CA");
    reveal_strlit("/CN=bridge");
    reveal_strlit("/CN=collector");
    reveal_strlit("/bridge-cert.pem");
    reveal_strlit("/bridge-key.pem");
    reveal_strlit("/bridge.csr");
    reveal_strlit("/ca-cert.pem");
    reveal_strlit("/ca-key.pem");
    reveal_strlit("/collector-cert.pem");
    reveal_strlit("/collector-key.pem");
    reveal_strlit("/collector.csr");
    reveal_strlit("3650");
    reveal_strlit("req");
    reveal_strlit("rsa:4096");
    reveal_strlit("x509");
    assert("-CA"@.len() == 3);
    assert("-CAcreateserial"@.len() == 15);
    assert("-CAkey"@.len() == 6);
    assert("-days"@.len() == 5);
    assert("-in"@.len() == 3);
    assert("-keyout"@.len() == 7);
    assert("-newkey"@.len() == 7);
    assert("-nodes"@.len() == 6);
    assert("-out"@.len() == 4);
    assert("-req"@.len() == 4);
    assert("-subj"@.len() == 5);
    assert("-x509"@.len() == 5);
    assert("/CN=RustFull-CA"@.len() == 15);
    assert("/CN=bridge"@.len() == 10);
    assert("/CN=collector"@.len() == 13);
    assert("/bridge-cert.pem"@.len() == 16);
    assert("/bridge-key.pem"@.len() == 15);
    assert("/bridge.csr"@.len() == 11);
    assert("/ca-cert.pem"@.len() == 12);
    assert("/ca-key.pem"@.len() == 11);
    assert("/collector-cert.pem"@.len() == 19);
    assert("/collector-key.pem"@.len() == 18);
    assert("/collector.csr"@.len() == 14);
    assert("3650"@.len() == 4);
    assert("req"@.len() == 3);
    assert("rsa:4096"@.len() == 8);
    assert("x509"@.len() == 4);
    assert((cert_dir + "/ca-key.pem"@).len() == cert_dir.len() + 11);
    assert((cert_dir + "/bridge-key.pem"@).len() == cert_dir.len() + 15);
    assert((cert_dir + "/collector-key.pem"@).len() == cert_dir.len() + 18);
    let c = tls_commands(cert_dir);
    assert(c[0].len() == 13);
    assert(c[0][0] == "req"@);
    assert(c[0][1] == "-x509"@);
    assert(c[0][2] == "-newkey"@);
    assert(c[0][3] == "rsa:4096"@);
    assert(c[0][4] == "-nodes"@);
    assert(c[0][5] == "-keyout"@);
    assert(c[0][6] == cert_dir + "/ca-key.pem"@);
    assert(c[0][7] == "-out"@);
    assert(c[0][8] == cert_dir + "/ca-cert.pem"@);
    assert(c[0][9] == "-days"@);
    assert(c[0][10] == "3650"@);
    assert(c[0][11] == "-subj"@);
    assert(c[0][12] == "/CN=RustFull-CA"@);
    assert(c[1].len() == 10);
    assert(c[1][0] == "req"@);
    assert(c[1][1] == "-newkey"@);
    assert(c[1][2] == "rsa:4096"@);
    assert(c[1][3] == "-nodes"@);
    assert(c[1][4] == "-keyout"@);
    assert(c[1][5] == cert_dir + "/bridge-key.pem"@);
    assert(c[1][6] == "-out"@);
    assert(c[1][7] == cert_dir + "/bridge.csr"@);
    assert(c[1][8] == "-subj"@);
    assert(c[1][9] == "/CN=bridge"@);
    assert(c[2].len() == 13);
    assert(c[2][0] == "x509"@);
    assert(c[2][1] == "-req"@);
    assert(c[2][2] == "-in"@);
    assert(c[2][3] == cert_dir + "/bridge.csr"@);
    assert(c[2][4] == "-CA"@);
    assert(c[2][5] == cert_dir + "/ca-cert.pem"@);
    assert(c[2][6] == "-CAkey"@);
    assert(c[2][7] == cert_dir + "/ca-key.pem"@);
    assert(c[2][8] == "-CAcreateserial"@);
    assert(c[2][9] == "-out"@);
    assert(c[2][10] == cert_dir + "/bridge-cert.pem"@);
    assert(c[2][11] == "-days"@);
    assert(c[2][12] == "3650"@);
    assert(c[3].len() == 10);
    assert(c[3][0] == "req"@);
    assert(c[3][1] == "-newkey"@);
    assert(c[3][2] == "rsa:4096"@);
    assert(c[3][3] == "-nodes"@);
    assert(c[3][4] == "-keyout"@);
    assert(c[3][5] == cert_dir + "/collector-key.pem"@);
    assert(c[3][6] == "-out"@);
    assert(c[3][7] == cert_dir + "/collector.csr"@);
    assert(c[3][8] == "-subj"@);
    assert(c[3][9] == "/CN=collector"@);
    assert(c[4].len() == 13);
    assert(c[4][0] == "x509"@);
    assert(c[4][1] == "-req"@);
    assert(c[4][2] == "-in"@);
    assert(c[4][3] == cert_dir + "/collector.csr"@);
    assert(c[4][4] == "-CA"@);
    assert(c[4][5] == cert_dir + "/ca-cert.pem"@);
    assert(c[4][6] == "-CAkey"@);
    assert(c[4][7] == cert_dir + "/ca-key.pem"@);
    assert(c[4][8] == "-CAcreateserial"@);
    assert(c[4][9] == "-out"@);
    assert(c[4][10] == cert_dir + "/collector-cert.pem"@);
    assert(c[4][11] == "-days"@);
    assert(c[4][12] == "3650"@);
    lemma_differ_at("-newkey"@, "-keyout"@, 1);
    lemma_differ_at("-newkey"@, "-keyout"@, 1);
    lemma_differ_at("-newkey"@, "-keyout"@, 1);
    lemma_differ_at("-x509"@, "-subj"@, 1);
    lemma_differ_at("-days"@, "-subj"@, 1);
    lemma_differ_at("-days"@, "-subj"@, 1);
    lemma_differ_at("-days"@, "-subj"@, 1);
    reveal_strlit("-CAkey");
    lemma_differ_at("-nodes"@, "-CAkey"@, 1);
    lemma_differ_at("-nodes"@, "-CAkey"@, 1);
    lemma_differ_at("-nodes"@, "-CAkey"@, 1);
    assert forall|i: int, j: int| 0 <= i < 5 && names_at(c[i], j, "-keyout"@) implies (i == 0 && j == 5) || (i == 1 && j == 4) || (i == 3 && j == 4) by {
        if i == 0 {
            assert(j == 0 || j == 1 || j == 2 || j == 3 || j == 4 || j == 5 || j == 6 || j == 7 || j == 8 || j == 9 || j == 10 || j == 11);
        } else if i == 1 {
            assert(j == 0 || j == 1 || j == 2 || j == 3 || j == 4 || j == 5 || j == 6 || j == 7 || j == 8);
        } else if i == 2 {
            assert(j == 0 || j == 1 || j == 2 || j == 3 || j == 4 || j == 5 || j == 6 || j == 7 || j == 8 || j == 9 || j == 10 || j == 11);
        } else if i == 3 {
            assert(j == 0 || j == 1 || j == 2 || j == 3 || j == 4 || j == 5 || j == 6 || j == 7 || j == 8);
        } else if i == 4 {
            assert(j == 0 || j == 1 || j == 2 || j == 3 || j == 4 || j == 5 || j == 6 || j == 7 || j == 8 || j == 9 || j == 10 || j == 11);
        }
    }
    assert forall|i: int, j: int| 0 <= i < 5 && names_at(c[i], j, "-subj"@) implies (i == 0 && j == 11) || (i == 1 && j == 8) || (i == 3 && j == 8) by {
        if i == 0 {
            assert(j == 0 || j == 1 || j == 2 || j == 3 || j == 4 || j == 5 || j == 6 || j == 7 || j == 8 || j == 9 || j == 10 || j == 11);
        } else if i == 1 {
            assert(j == 0 || j == 1 || j == 2 || j == 3 || j == 4 || j == 5 || j == 6 || j == 7 || j == 8);
        } else if i == 2 {
            assert(j == 0 || j == 1 || j == 2 || j == 3 || j == 4 || j == 5 || j == 6 || j == 7 || j == 8 || j == 9 || j == 10 || j == 11);
        } else if i == 3 {
            assert(j == 0 || j == 1 || j == 2 || j == 3 || j == 4 || j == 5 || j == 6 || j == 7 || j == 8);
        } else if i == 4 {
            assert(j == 0 || j == 1 || j == 2 || j == 3 || j == 4 || j == 5 || j == 6 || j == 7 || j == 8 || j == 9 || j == 10 || j == 11);
        }
    }
    assert forall|i: int, j: int| 0 <= i < 5 && names_at(c[i], j, "-CAkey"@) implies (i == 2 && j == 6) || (i == 4 && j == 6) by {
        if i == 0 {
            assert(j == 0 || j == 1 || j == 2 || j == 3 || j == 4 || j == 5 || j == 6 || j == 7 || j == 8 || j == 9 || j == 10 || j == 11);
        } else if i == 1 {
            assert(j == 0 || j == 1 || j == 2 || j == 3 || j == 4 || j == 5 || j == 6 || j == 7 || j == 8);
        } else if i == 2 {
            assert(j == 0 || j == 1 || j == 2 || j == 3 || j == 4 || j == 5 || j == 6 || j == 7 || j == 8 || j == 9 || j == 10 || j == 11);
        } else if i == 3 {
            assert(j == 0 || j == 1 || j == 2 || j == 3 || j == 4 || j == 5 || j == 6 || j == 7 || j == 8);
        } else if i == 4 {
            assert(j == 0 || j == 1 || j == 2 || j == 3 || j == 4 || j == 5 || j == 6 || j == 7 || j == 8 || j == 9 || j == 10 || j == 11);
        }
    }
}

/// The views of a list of argument lists.
pub open spec fn command_views(v: Seq<Vec<String>>) -> Seq<Seq<Seq<char>>> {
    v.map_values(|c: Vec<String>| string_views(c@))
}

/// The OpenSSL runs of `generate_tls_certificates`, in order; each must
/// succeed before the next is run.
pub fn generate_tls_certificates(cert_dir: &str) -> (r: Vec<Vec<String>>)
    ensures
        command_views(r@) == tls_commands(cert_dir@),
{
    let ca_key = concat2(cert_dir, "/ca-key.pem");
    let ca_cert = concat2(cert_dir, "/ca-cert.pem");
    let bridge_key = concat2(cert_dir, "/bridge-key.pem");
    let bridge_csr = concat2(cert_dir, "/bridge.csr");
    let bridge_cert = concat2(cert_dir, "/bridge-cert.pem");
    let collector_key = concat2(cert_dir, "/collector-key.pem");
    let collector_csr = concat2(cert_dir, "/collector.csr");
    let collector_cert = concat2(cert_dir, "/collector-cert.pem");
    let mut c1: Vec<String> = Vec::new();
    push_text(&mut c1, "req");
    push_text(&mut c1, "-x509");
    push_text(&mut c1, "-newkey");
    push_text(&mut c1, "rsa:4096");
    push_text(&mut c1, "-nodes");
    push_text(&mut c1, "-keyout");
    push_text(&mut c1, ca_key.as_str());
    push_text(&mut c1, "-out");
    push_text(&mut c1, ca_cert.as_str());
    push_text(&mut c1, "-days");
    push_text(&mut c1, "3650");
    push_text(&mut c1, "-subj");
    push_text(&mut c1, "/CN=RustFull-CA");
    assert(string_views(c1@) =~= seq!["req"@, "-x509"@, "-newkey"@, "rsa:4096"@, "-nodes"@, "-keyout"@, ca_key@, "-out"@, ca_cert@, "-days"@, "3650"@, "-subj"@, "/CN=RustFull-CA"@]);
    let mut c2: Vec<String> = Vec::new();
    push_text(&mut c2, "req");
    push_text(&mut c2, "-newkey");
    push_text(&mut c2, "rsa:4096");
    push_text(&mut c2, "-nodes");
    push_text(&mut c2, "-keyout");
    push_text(&mut c2, bridge_key.as_str());
    push_text(&mut c2, "-out");
    push_text(&mut c2, bridge_csr.as_str());
    push_text(&mut c2, "-subj");
    push_text(&mut c2, "/CN=bridge");
    assert(string_views(c2@) =~= seq!["req"@, "-newkey"@, "rsa:4096"@, "-nodes"@, "-keyout"@, bridge_key@, "-out"@, bridge_csr@, "-subj"@, "/CN=bridge"@]);
    let mut c3: Vec<String> = Vec::new();
    push_text(&mut c3, "x509");
    push_text(&mut c3, "-req");
    push_text(&mut c3, "-in");
    push_text(&mut c3, bridge_csr.as_str());
    push_text(&mut c3, "-CA");
    push_text(&mut c3, ca_cert.as_str());
    push_text(&mut c3, "-CAkey");
    push_text(&mut c3, ca_key.as_str());
    push_text(&mut c3, "-CAcreateserial");
    push_text(&mut c3, "-out");
    push_text(&mut c3, bridge_cert.as_str());
    push_text(&mut c3, "-days");
    push_text(&mut c3, "3650");
    assert(string_views(c3@) =~= seq!["x509"@, "-req"@, "-in"@, bridge_csr@, "-CA"@, ca_cert@, "-CAkey"@, ca_key@, "-CAcreateserial"@, "-out"@, bridge_cert@, "-days"@, "3650"@]);
    let mut c4: Vec<String> = Vec::new();
    push_text(&mut c4, "req");
    push_text(&mut c4, "-newkey");
    push_text(&mut c4, "rsa:4096");
    push_text(&mut c4, "-nodes");
    push_text(&mut c4, "-keyout");
    push_text(&mut c4, collector_key.as_str());
    push_text(&mut c4, "-out");
    push_text(&mut c4, collector_csr.as_str());
    push_text(&mut c4, "-subj");
    push_text(&mut c4, "/CN=collector");
    assert(string_views(c4@) =~= seq!["req"@, "-newkey"@, "rsa:4096"@, "-nodes"@, "-keyout"@, collector_key@, "-out"@, collector_csr@, "-subj"@, "/CN=collector"@]);
    let mut c5: Vec<String> = Vec::new();
    push_text(&mut c5, "x509");
    push_text(&mut c5, "-req");
    push_text(&mut c5, "-in");
    push_text(&mut c5, collector_csr.as_str());
    push_text(&mut c5, "-CA");
    push_text(&mut c5, ca_cert.as_str());
    push_text(&mut c5, "-CAkey");
    push_text(&mut c5, ca_key.as_str());
    push_text(&mut c5, "-CAcreateserial");
    push_text(&mut c5, "-out");
    push_text(&mut c5, collector_cert.as_str());
    push_text(&mut c5, "-days");
    push_text(&mut c5, "3650");
    assert(string_views(c5@) =~= seq!["x509"@, "-req"@, "-in"@, collector_csr@, "-CA"@, ca_cert@, "-CAkey"@, ca_key@, "-CAcreateserial"@, "-out"@, collector_cert@, "-days"@, "3650"@]);
    let mut v: Vec<Vec<String>> = Vec::new();
    v.push(c1);
    v.push(c2);
    v.push(c3);
    v.push(c4);
    v.push(c5);
    assert(command_views(v@) =~= tls_commands(cert_dir@));
    v
}

/// Initialising credentials that all exist does nothing: running the
/// initialisation again after it completed leaves every file as it is.
pub proof fn lemma_existing_credentials_are_kept(app_dir: Seq<char>, present: CredentialPresence)
    requires
        present.operator_jwt,
        present.bridge_jwt,
        present.collector_jwt,
        present.ca_cert,
    ensures
        credential_steps(app_dir, present) == Seq::<CredentialStep>::empty(),
{
    assert(credential_steps(app_dir, present) =~= Seq::<CredentialStep>::empty());
}

/// Each missing credential file is created exactly once: the steps write
/// one file per missing JWT and generate certificates only when the CA
/// certificate is missing.
pub proof fn lemma_missing_credentials_are_created(app_dir: Seq<char>, present: CredentialPresence)
    ensures
        credential_steps(app_dir, present).len() == (if present.operator_jwt { 0int } else { 1int })
            + (if present.bridge_jwt { 0int } else { 1int }) + (if present.collector_jwt {
            0int
        } else {
            1int
        }) + (if present.ca_cert { 0int } else { 1int }),
        !present.ca_cert ==> credential_steps(app_dir, present).last() == CredentialStep::GenerateTls(
            certificate_dir(app_dir),
        ),
{
}

} // verus!
