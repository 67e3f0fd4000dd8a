//! The TLS client configuration that the agent's NATS clients use: trusted
//! roots from the CA file and the client's certificate chain and key.
use vstd::prelude::*;
use std::sync::Arc;

verus! {

#[verifier::external_type_specification]
#[verifier::external_body]
pub struct ExClientConfig(rustls::ClientConfig);

#[verifier::external_type_specification]
#[verifier::external_body]
pub struct ExRootCertStore(rustls::RootCertStore);

#[verifier::external_type_specification]
#[verifier::external_body]
pub struct ExTlsError(rustls::Error);

/// The trust anchor that rustls takes from a DER certificate (webpki's
/// `TrustAnchor::try_from_cert_der`: its subject, public key and name
/// constraints), given by an encoding of those fields; `None` when the
/// certificate is refused. Two certificates may give one anchor.
pub uninterp spec fn trust_anchor_of(der: Seq<u8>) -> Option<Seq<u8>>;

/// The trust anchors that a root store holds, in the order they were added.
pub uninterp spec fn root_store_anchors(store: rustls::RootCertStore) -> Seq<Seq<u8>>;

/// The trust anchors that a client configuration checks servers against.
pub uninterp spec fn client_config_anchors(config: rustls::ClientConfig) -> Seq<Seq<u8>>;

/// The DER certificates that a client configuration presents as its chain.
pub uninterp spec fn client_config_chain(config: rustls::ClientConfig) -> Seq<Seq<u8>>;

/// The signing key that a client configuration authenticates with, given
/// as `tls_signing_key` gives it.
pub uninterp spec fn client_config_signing_key(config: rustls::ClientConfig) -> Seq<u8>;

/// The signing key that rustls makes of a DER private key
/// (`sign::any_supported_type`: RSA, ECDSA or Ed25519), given by an
/// encoding of the key; `None` when no supported key type parses.
pub uninterp spec fn tls_signing_key(der: Seq<u8>) -> Option<Seq<u8>>;

/// The certificates of a PEM text, or `None` when it is malformed.
pub uninterp spec fn pem_certificate_blocks(pem: Seq<u8>) -> Option<Seq<Seq<u8>>>;

/// The PKCS#8 private keys of a PEM text, or `None` when it is malformed.
pub uninterp spec fn pem_pkcs8_key_blocks(pem: Seq<u8>) -> Option<Seq<Seq<u8>>>;

/// The views of a list of byte strings.
pub open spec fn byte_views(v: Seq<Vec<u8>>) -> Seq<Seq<u8>> {
    v.map_values(|b: Vec<u8>| b@)
}

/// `rustls::RootCertStore::empty`: a store without anchors.
#[verifier::external_body]
fn empty_root_store() -> (r: rustls::RootCertStore)
    ensures
        root_store_anchors(r) == Seq::<Seq<u8>>::empty(),
{
    rustls::RootCertStore::empty()
}

/// `rustls::RootCertStore::add`: appends the certificate's trust anchor
/// when it has one and leaves the store unchanged otherwise.
#[verifier::external_body]
fn add_root_certificate(store: &mut rustls::RootCertStore, der: &[u8]) -> (r: Result<
    (),
    rustls::Error,
>)
    ensures
        (r is Ok) == (trust_anchor_of(der@) is Some),
        r is Ok ==> root_store_anchors(*final(store)) == root_store_anchors(*old(store)).push(
            trust_anchor_of(der@)->0,
        ),
        r is Err ==> root_store_anchors(*final(store)) == root_store_anchors(*old(store)),
{
    store.add(&rustls::Certificate(der.to_vec()))
}

/// `rustls_pemfile::certs` over the bytes of a PEM file; its I/O error,
/// which reading bytes only raises for malformed PEM, becomes `None`.
#[verifier::external_body]
fn pem_certificates(pem: &[u8]) -> (r: Option<Vec<Vec<u8>>>)
    ensures
        r matches Some(v) ==> pem_certificate_blocks(pem@) == Some(byte_views(v@)),
        r is None ==> pem_certificate_blocks(pem@) is None,
{
    let mut reader: &[u8] = pem;
    rustls_pemfile::certs(&mut reader).ok()
}

/// `rustls_pemfile::pkcs8_private_keys` over the bytes of a PEM file; its
/// I/O error becomes `None`.
#[verifier::external_body]
fn pem_pkcs8_keys(pem: &[u8]) -> (r: Option<Vec<Vec<u8>>>)
    ensures
        r matches Some(v) ==> pem_pkcs8_key_blocks(pem@) == Some(byte_views(v@)),
        r is None ==> pem_pkcs8_key_blocks(pem@) is None,
{
    let mut reader: &[u8] = pem;
    rustls_pemfile::pkcs8_private_keys(&mut reader).ok()
}

/// `ClientConfig::builder().with_safe_defaults().with_root_certificates(..)
/// .with_client_auth_cert(..)` of rustls: it fails only when no signing key
/// parses from the DER key; the configuration it builds checks servers
/// against the store's anchors and presents the chain with that key.
#[verifier::external_body]
fn build_client_config(roots: rustls::RootCertStore, chain: Vec<Vec<u8>>, key: Vec<u8>) -> (r: Result<
    rustls::ClientConfig,
    rustls::Error,
>)
    ensures
        (r is Ok) == (tls_signing_key(key@) is Some),
        r matches Ok(c) ==> client_config_anchors(c) == root_store_anchors(roots),
        r matches Ok(c) ==> client_config_chain(c) == byte_views(chain@),
        r matches Ok(c) ==> client_config_signing_key(c) == tls_signing_key(key@)->0,
{
    let chain: Vec<rustls::Certificate> = chain.into_iter().map(rustls::Certificate).collect();
    rustls::ClientConfig::builder()
        .with_safe_defaults()
        .with_root_certificates(roots)
        .with_client_auth_cert(chain, rustls::PrivateKey(key))
}

/// Why the TLS configuration cannot be built.
#[derive(Clone, Copy, PartialEq, Eq, Structural, Debug)]
pub enum TlsSetupError {
    /// The CA file is not valid PEM.
    CaPem,
    /// A CA certificate yields no trust anchor.
    InvalidRootCertificate,
    /// The client certificate file is not valid PEM.
    ClientCertPem,
    /// The client key file is not valid PEM.
    ClientKeyPem,
    /// The client key file holds no PKCS#8 key.
    NoPrivateKey,
    /// The first client key cannot sign.
    ClientAuth,
}

/// Whether every certificate yields a trust anchor.
pub open spec fn all_anchors(certs: Seq<Seq<u8>>) -> bool {
    forall|i: int| 0 <= i < certs.len() ==> (#[trigger] trust_anchor_of(certs[i])) is Some
}

/// The trust anchors of certificates that all yield one.
pub open spec fn anchors_of(certs: Seq<Seq<u8>>) -> Seq<Seq<u8>> {
    certs.map_values(|d: Seq<u8>| trust_anchor_of(d)->0)
}

/// The outcome of building the TLS configuration from the three files, the
/// checks made in order.
pub open spec fn tls_setup_outcome(ca_pem: Seq<u8>, cert_pem: Seq<u8>, key_pem: Seq<u8>) -> Result<
    (),
    TlsSetupError,
> {
    match pem_certificate_blocks(ca_pem) {
        None => Err(TlsSetupError::CaPem),
        Some(cas) => if !all_anchors(cas) {
            Err(TlsSetupError::InvalidRootCertificate)
        } else {
            match pem_certificate_blocks(cert_pem) {
                None => Err(TlsSetupError::ClientCertPem),
                Some(_) => match pem_pkcs8_key_blocks(key_pem) {
                    None => Err(TlsSetupError::ClientKeyPem),
                    Some(keys) => if keys.len() == 0 {
                        Err(TlsSetupError::NoPrivateKey)
                    } else if tls_signing_key(keys[0]) is None {
                        Err(TlsSetupError::ClientAuth)
                    } else {
                        Ok(())
                    },
                },
            }
        },
    }
}

/// Builds the client configuration from the contents of the CA file, the
/// client certificate file and the client key file, as
/// `load_tls_certificates` does: the configuration trusts exactly the CA
/// file's certificates and presents the client's chain with its first
/// PKCS#8 key.
pub fn load_tls_certificates(ca_pem: &[u8], client_cert_pem: &[u8], client_key_pem: &[u8]) -> (r: Result<
    Arc<rustls::ClientConfig>,
    TlsSetupError,
>)
    ensures
        match tls_setup_outcome(ca_pem@, client_cert_pem@, client_key_pem@) {
            Ok(()) => r is Ok,
            Err(e) => r matches Err(f) && f == e,
        },
        r matches Ok(c) ==> client_config_anchors(*c) == anchors_of(
            pem_certificate_blocks(ca_pem@)->0,
        ),
        r matches Ok(c) ==> client_config_chain(*c) == pem_certificate_blocks(client_cert_pem@)->0,
        r matches Ok(c) ==> client_config_signing_key(*c) == tls_signing_key(
            pem_pkcs8_key_blocks(client_key_pem@)->0[0],
        )->0,
{
    let cas = match pem_certificates(ca_pem) {
        Some(c) => c,
        None => {
            return Err(TlsSetupError::CaPem);
        },
    };
    let ghost certs = byte_views(cas@);
    let mut store = empty_root_store();
    let mut i: usize = 0;
    while i < cas.len()
        invariant
            pem_certificate_blocks(ca_pem@) == Some(certs),
            certs == byte_views(cas@),
            i <= cas@.len(),
            forall|j: int| 0 <= j < i ==> (#[trigger] trust_anchor_of(certs[j])) is Some,
            root_store_anchors(store) == anchors_of(certs.take(i as int)),
        decreases cas@.len() - i,
    {
        assert(certs[i as int] == cas@[i as int]@);
        let added = add_root_certificate(&mut store, cas[i].as_slice());
        if added.is_err() {
            return Err(TlsSetupError::InvalidRootCertificate);
        }
        assert(certs.take(i + 1) == certs.take(i as int).push(certs[i as int]));
        assert(anchors_of(certs.take(i + 1)) == anchors_of(certs.take(i as int)).push(
            trust_anchor_of(certs[i as int])->0,
        ));
        i = i + 1;
    }
    assert(certs.take(i as int) == certs);
    assert(all_anchors(certs));
    let chain = match pem_certificates(client_cert_pem) {
        Some(c) => c,
        None => {
            return Err(TlsSetupError::ClientCertPem);
        },
    };
    let mut keys = match pem_pkcs8_keys(client_key_pem) {
        Some(k) => k,
        None => {
            return Err(TlsSetupError::ClientKeyPem);
        },
    };
    if keys.len() == 0 {
        return Err(TlsSetupError::NoPrivateKey);
    }
    assert(byte_views(keys@)[0] == keys@[0]@);
    let key = keys.swap_remove(0);
    match build_client_config(store, chain, key) {
        Ok(config) => Ok(Arc::new(config)),
        Err(_) => Err(TlsSetupError::ClientAuth),
    }
}

} // verus!
