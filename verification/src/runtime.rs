//! Preparing the runtime directory at boot: the master key decrypted from
//! its machine-bound file, the secrets written out of the database, and the
//! NATS server configuration rendered from its template.
use vstd::prelude::*;
use crate::crypto::{
    aes256cbc_decrypt, aes256cbc_pkcs7_open, aes256cbc_pkcs7_seal, sha256, sha256_digest,
};
use crate::master_key::{join_path, path_joined};
use crate::secret_store::SecretStore;
use crate::text::{
    concat2, concat3, contains_seq, copy_str, has_prefix, has_suffix, lemma_differ_at, lemma_replace_absent,
    replace_all, replaced,
    strip_newline, trim, trimmed, without_newline,
};

verus! {

/// Why preparing the runtime directory failed.
#[derive(PartialEq, Eq, Debug)]
pub enum RuntimeError {
    /// The encrypted master key holds no more than an IV.
    EncryptedKeyTooSmall,
    /// The encrypted master key does not decrypt under this machine's key.
    DecryptFailed,
    /// The database holds no secret under this key.
    MissingSecret(String),
}

/// The key that protects the boot-time master key: the SHA-256 digest of the
/// machine id's bytes without a trailing line feed.
pub open spec fn boot_key(machine_id: Seq<u8>) -> Seq<u8> {
    sha256_digest(without_newline(machine_id))
}

/// What decrypting the boot-time master key file gives: its first 16 bytes
/// are the IV and the rest is AES-256-CBC ciphertext.
pub open spec fn decrypted_master_key(machine_id: Seq<u8>, encrypted: Seq<u8>) -> Result<
    Seq<u8>,
    RuntimeError,
> {
    if encrypted.len() <= 16 {
        Err(RuntimeError::EncryptedKeyTooSmall)
    } else {
        match aes256cbc_pkcs7_open(
            boot_key(machine_id),
            encrypted.subrange(0, 16),
            encrypted.subrange(16, encrypted.len() as int),
        ) {
            Some(p) => Ok(p),
            None => Err(RuntimeError::DecryptFailed),
        }
    }
}

/// Decrypts the boot-time master key file with the machine's key; the
/// plaintext is what `master_key.bin` receives. A file made of an IV and the
/// encryption of a key under this machine's key and that IV gives the key
/// back.
pub fn decrypt_master_key(machine_id: &[u8], encrypted: &[u8]) -> (r: Result<Vec<u8>, RuntimeError>)
    ensures
        match decrypted_master_key(machine_id@, encrypted@) {
            Ok(p) => r matches Ok(v) && v@ == p,
            Err(e) => r == Err::<Vec<u8>, RuntimeError>(e),
        },
        forall|iv: Seq<u8>, p: Seq<u8>|
            #![trigger aes256cbc_pkcs7_seal(boot_key(machine_id@), iv, p)]
            iv.len() == 16 && encrypted@.len() > 16 && encrypted@ == iv + aes256cbc_pkcs7_seal(
                boot_key(machine_id@),
                iv,
                p,
            ) ==> (r matches Ok(v) && v@ == p),
{
    let id = strip_newline(machine_id);
    let key = sha256(id);
    if encrypted.len() <= 16 {
        return Err(RuntimeError::EncryptedKeyTooSmall);
    }
    let (iv, ciphertext) = encrypted.split_at(16);
    assert(iv@ =~= encrypted@.subrange(0, 16));
    assert(ciphertext@ =~= encrypted@.subrange(16, encrypted@.len() as int));
    let opened = aes256cbc_decrypt(key.as_slice(), iv, ciphertext);
    assert forall|v: Seq<u8>, p: Seq<u8>|
        #![trigger aes256cbc_pkcs7_seal(boot_key(machine_id@), v, p)]
        v.len() == 16 && encrypted@ == v + aes256cbc_pkcs7_seal(boot_key(machine_id@), v, p) implies (
        opened matches Some(q) && q@ == p) by {
        assert(encrypted@.subrange(0, 16) =~= v);
        assert(encrypted@.subrange(16, encrypted@.len() as int) =~= aes256cbc_pkcs7_seal(
            boot_key(machine_id@),
            v,
            p,
        ));
        assert(ciphertext@ == aes256cbc_pkcs7_seal(key@, iv@, p));
    }
    match opened {
        Some(p) => Ok(p),
        None => Err(RuntimeError::DecryptFailed),
    }
}

/// The secrets that the runtime directory receives, as pairs of the
/// secret's key in the database and the file's name.
pub open spec fn runtime_secret_list() -> Seq<(Seq<char>, Seq<char>)> {
    seq![
        ("cert.ca.pem"@, "ca-cert.pem"@),
        ("cert.bridge.pem"@, "bridge-cert.pem"@),
        ("cert.bridge.key"@, "bridge-key.pem"@),
        ("nats.bridge.creds"@, "bridge.creds"@),
        ("nats.bridge.nk"@, "bridge.nk"@),
        ("nats.bridge.jwt"@, "bridge.jwt"@),
        ("cert.collector.pem"@, "collector-cert.pem"@),
        ("cert.collector.key"@, "collector-key.pem"@),
        ("nats.collector.creds"@, "collector.creds"@),
        ("nats.collector.nk"@, "collector.nk"@),
        ("nats.collector.jwt"@, "collector.jwt"@),
        ("nats.operator.jwt"@, "operator.jwt"@),
        ("nats.account.jwt"@, "BridgeAccount.jwt"@),
        ("nats.system_account.pub"@, "system_account.pub"@),
    ]
}

/// The secrets that the runtime directory receives, in the order they are
/// written.
pub fn runtime_secrets() -> (r: Vec<(&'static str, &'static str)>)
    ensures
        r@.len() == runtime_secret_list().len(),
        forall|i: int|
            0 <= i < r@.len() ==> (#[trigger] r@[i]).0@ == runtime_secret_list()[i].0 && r@[i].1@
                == runtime_secret_list()[i].1,
{
    let mut v: Vec<(&'static str, &'static str)> = Vec::new();
    v.push(("cert.ca.pem", "ca-cert.pem"));
    v.push(("cert.bridge.pem", "bridge-cert.pem"));
    v.push(("cert.bridge.key", "bridge-key.pem"));
    v.push(("nats.bridge.creds", "bridge.creds"));
    v.push(("nats.bridge.nk", "bridge.nk"));
    v.push(("nats.bridge.jwt", "bridge.jwt"));
    v.push(("cert.collector.pem", "collector-cert.pem"));
    v.push(("cert.collector.key", "collector-key.pem"));
    v.push(("nats.collector.creds", "collector.creds"));
    v.push(("nats.collector.nk", "collector.nk"));
    v.push(("nats.collector.jwt", "collector.jwt"));
    v.push(("nats.operator.jwt", "operator.jwt"));
    v.push(("nats.account.jwt", "BridgeAccount.jwt"));
    v.push(("nats.system_account.pub", "system_account.pub"));
    v
}

/// A runtime file receives the secret of its kind and of its owner: a
/// `.jwt`, `.nk`, `.creds` or `.pub` file a secret whose key ends so, a
/// `-key.pem` file a private key (`.key`), and a file of the CA, the bridge
/// or the collector a secret of the same.
pub open spec fn secret_fits_file(key: Seq<char>, file: Seq<char>) -> bool {
    &&& (has_suffix(file, ".jwt"@) <==> has_suffix(key, ".jwt"@))
    &&& (has_suffix(file, ".nk"@) <==> has_suffix(key, ".nk"@))
    &&& (has_suffix(file, ".creds"@) <==> has_suffix(key, ".creds"@))
    &&& (has_suffix(file, ".pub"@) <==> has_suffix(key, ".pub"@))
    &&& (has_suffix(file, "-key.pem"@) <==> has_suffix(key, ".key"@))
    &&& (has_prefix(file, "ca-"@) <==> has_prefix(key, "cert.ca."@))
    &&& (has_prefix(file, "bridge"@) <==> (has_prefix(key, "cert.bridge."@) || has_prefix(
        key,
        "nats.bridge."@,
    )))
    &&& (has_prefix(file, "collector"@) <==> (has_prefix(key, "cert.collector."@) || has_prefix(
        key,
        "nats.collector."@,
    )))
}

/// The runtime secrets pair database keys and files one to one: no key is
/// written to two files, no file is written twice, and every file receives
/// the secret of its kind and owner.
pub proof fn lemma_runtime_secrets_match()
    ensures
        forall|i: int, j: int|
            0 <= i < j < runtime_secret_list().len() ==> (#[trigger] runtime_secret_list()[i]).0
                != (#[trigger] runtime_secret_list()[j]).0 && runtime_secret_list()[i].1
                != runtime_secret_list()[j].1,
        forall|i: int|
            0 <= i < runtime_secret_list().len() ==> secret_fits_file(
                (#[trigger] runtime_secret_list()[i]).0,
                runtime_secret_list()[i].1,
            ),
{
    reveal_strlit("cert.ca.pem");
    reveal_strlit("ca-cert.pem");
    reveal_strlit("cert.bridge.pem");
    reveal_strlit("bridge-cert.pem");
    reveal_strlit("cert.bridge.key");
    reveal_strlit("bridge-key.pem");
    reveal_strlit("nats.bridge.creds");
    reveal_strlit("bridge.creds");
    reveal_strlit("nats.bridge.nk");
    reveal_strlit("bridge.nk");
    reveal_strlit("nats.bridge.jwt");
    reveal_strlit("bridge.jwt");
    reveal_strlit("cert.collector.pem");
    reveal_strlit("collector-cert.pem");
    reveal_strlit("cert.collector.key");
    reveal_strlit("collector-key.pem");
    reveal_strlit("nats.collector.creds");
    reveal_strlit("collector.creds");
    reveal_strlit("nats.collector.nk");
    reveal_strlit("collector.nk");
    reveal_strlit("nats.collector.jwt");
    reveal_strlit("collector.jwt");
    reveal_strlit("nats.operator.jwt");
    reveal_strlit("operator.jwt");
    reveal_strlit("nats.account.jwt");
    reveal_strlit("BridgeAccount.jwt");
    reveal_strlit("nats.system_account.pub");
    reveal_strlit("system_account.pub");
    reveal_strlit(".jwt");
    reveal_strlit(".nk");
    reveal_strlit(".creds");
    reveal_strlit(".pub");
    reveal_strlit("-key.pem");
    reveal_strlit(".key");
    reveal_strlit("bridge");
    reveal_strlit("cert.bridge.");
    reveal_strlit("nats.bridge.");
    reveal_strlit("collector");
    reveal_strlit("cert.collector.");
    reveal_strlit("nats.collector.");
    reveal_strlit("ca-");
    reveal_strlit("cert.ca.");
    let l = runtime_secret_list();
    assert(l.len() == 14);
    assert(l[0] == ("cert.ca.pem"@, "ca-cert.pem"@));
    assert(l[1] == ("cert.bridge.pem"@, "bridge-cert.pem"@));
    assert(l[2] == ("cert.bridge.key"@, "bridge-key.pem"@));
    assert(l[3] == ("nats.bridge.creds"@, "bridge.creds"@));
    assert(l[4] == ("nats.bridge.nk"@, "bridge.nk"@));
    assert(l[5] == ("nats.bridge.jwt"@, "bridge.jwt"@));
    assert(l[6] == ("cert.collector.pem"@, "collector-cert.pem"@));
    assert(l[7] == ("cert.collector.key"@, "collector-key.pem"@));
    assert(l[8] == ("nats.collector.creds"@, "collector.creds"@));
    assert(l[9] == ("nats.collector.nk"@, "collector.nk"@));
    assert(l[10] == ("nats.collector.jwt"@, "collector.jwt"@));
    assert(l[11] == ("nats.operator.jwt"@, "operator.jwt"@));
    assert(l[12] == ("nats.account.jwt"@, "BridgeAccount.jwt"@));
    assert(l[13] == ("nats.system_account.pub"@, "system_account.pub"@));
    assert(secret_fits_file(l[0].0, l[0].1)) by {
        assert("ca-cert.pem"@.subrange(0, 3) =~= "ca-"@);
        assert("cert.ca.pem"@.subrange(0, 8) =~= "cert.ca."@);
        lemma_differ_at("ca-cert.pem"@.subrange(7, 11), ".jwt"@, 1);
        lemma_differ_at("cert.ca.pem"@.subrange(7, 11), ".jwt"@, 1);
        lemma_differ_at("ca-cert.pem"@.subrange(8, 11), ".nk"@, 0);
        lemma_differ_at("cert.ca.pem"@.subrange(8, 11), ".nk"@, 0);
        lemma_differ_at("ca-cert.pem"@.subrange(5, 11), ".creds"@, 0);
        lemma_differ_at("cert.ca.pem"@.subrange(5, 11), ".creds"@, 0);
        lemma_differ_at("ca-cert.pem"@.subrange(7, 11), ".pub"@, 2);
        lemma_differ_at("cert.ca.pem"@.subrange(7, 11), ".pub"@, 2);
        lemma_differ_at("ca-cert.pem"@.subrange(3, 11), "-key.pem"@, 0);
        lemma_differ_at("cert.ca.pem"@.subrange(7, 11), ".key"@, 1);
        lemma_differ_at("ca-cert.pem"@.subrange(0, 6), "bridge"@, 0);
        lemma_differ_at("ca-cert.pem"@.subrange(0, 9), "collector"@, 1);
    }
    assert(secret_fits_file(l[1].0, l[1].1)) by {
        assert("bridge-cert.pem"@.subrange(0, 6) =~= "bridge"@);
        assert("cert.bridge.pem"@.subrange(0, 12) =~= "cert.bridge."@);
        lemma_differ_at("bridge-cert.pem"@.subrange(11, 15), ".jwt"@, 1);
        lemma_differ_at("cert.bridge.pem"@.subrange(11, 15), ".jwt"@, 1);
        lemma_differ_at("bridge-cert.pem"@.subrange(12, 15), ".nk"@, 0);
        lemma_differ_at("cert.bridge.pem"@.subrange(12, 15), ".nk"@, 0);
        lemma_differ_at("bridge-cert.pem"@.subrange(9, 15), ".creds"@, 0);
        lemma_differ_at("cert.bridge.pem"@.subrange(9, 15), ".creds"@, 0);
        lemma_differ_at("bridge-cert.pem"@.subrange(11, 15), ".pub"@, 2);
        lemma_differ_at("cert.bridge.pem"@.subrange(11, 15), ".pub"@, 2);
        lemma_differ_at("bridge-cert.pem"@.subrange(7, 15), "-key.pem"@, 0);
        lemma_differ_at("cert.bridge.pem"@.subrange(11, 15), ".key"@, 1);
        lemma_differ_at("bridge-cert.pem"@.subrange(0, 3), "ca-"@, 0);
        lemma_differ_at("cert.bridge.pem"@.subrange(0, 8), "cert.ca."@, 5);
        lemma_differ_at("bridge-cert.pem"@.subrange(0, 9), "collector"@, 0);
        lemma_differ_at("cert.bridge.pem"@.subrange(0, 12), "nats.bridge."@, 0);
        lemma_differ_at("cert.bridge.pem"@.subrange(0, 15), "cert.collector."@, 5);
        lemma_differ_at("cert.bridge.pem"@.subrange(0, 15), "nats.collector."@, 0);
    }
    assert(secret_fits_file(l[2].0, l[2].1)) by {
        assert("bridge-key.pem"@.subrange(6, 14) =~= "-key.pem"@);
        assert("bridge-key.pem"@.subrange(0, 6) =~= "bridge"@);
        assert("cert.bridge.key"@.subrange(11, 15) =~= ".key"@);
        assert("cert.bridge.key"@.subrange(0, 12) =~= "cert.bridge."@);
        lemma_differ_at("bridge-key.pem"@.subrange(10, 14), ".jwt"@, 1);
        lemma_differ_at("cert.bridge.key"@.subrange(11, 15), ".jwt"@, 1);
        lemma_differ_at("bridge-key.pem"@.subrange(11, 14), ".nk"@, 0);
        lemma_differ_at("cert.bridge.key"@.subrange(12, 15), ".nk"@, 0);
        lemma_differ_at("bridge-key.pem"@.subrange(8, 14), ".creds"@, 0);
        lemma_differ_at("cert.bridge.key"@.subrange(9, 15), ".creds"@, 0);
        lemma_differ_at("bridge-key.pem"@.subrange(10, 14), ".pub"@, 2);
        lemma_differ_at("cert.bridge.key"@.subrange(11, 15), ".pub"@, 1);
        lemma_differ_at("bridge-key.pem"@.subrange(0, 3), "ca-"@, 0);
        lemma_differ_at("cert.bridge.key"@.subrange(0, 8), "cert.ca."@, 5);
        lemma_differ_at("bridge-key.pem"@.subrange(0, 9), "collector"@, 0);
        lemma_differ_at("cert.bridge.key"@.subrange(0, 12), "nats.bridge."@, 0);
        lemma_differ_at("cert.bridge.key"@.subrange(0, 15), "cert.collector."@, 5);
        lemma_differ_at("cert.bridge.key"@.subrange(0, 15), "nats.collector."@, 0);
    }
    assert(secret_fits_file(l[3].0, l[3].1)) by {
        assert("bridge.creds"@.subrange(6, 12) =~= ".creds"@);
        assert("bridge.creds"@.subrange(0, 6) =~= "bridge"@);
        assert("nats.bridge.creds"@.subrange(11, 17) =~= ".creds"@);
        assert("nats.bridge.creds"@.subrange(0, 12) =~= "nats.bridge."@);
        lemma_differ_at("bridge.creds"@.subrange(8, 12), ".jwt"@, 0);
        lemma_differ_at("nats.bridge.creds"@.subrange(13, 17), ".jwt"@, 0);
        lemma_differ_at("bridge.creds"@.subrange(9, 12), ".nk"@, 0);
        lemma_differ_at("nats.bridge.creds"@.subrange(14, 17), ".nk"@, 0);
        lemma_differ_at("bridge.creds"@.subrange(8, 12), ".pub"@, 0);
        lemma_differ_at("nats.bridge.creds"@.subrange(13, 17), ".pub"@, 0);
        lemma_differ_at("bridge.creds"@.subrange(4, 12), "-key.pem"@, 0);
        lemma_differ_at("nats.bridge.creds"@.subrange(13, 17), ".key"@, 0);
        lemma_differ_at("bridge.creds"@.subrange(0, 3), "ca-"@, 0);
        lemma_differ_at("nats.bridge.creds"@.subrange(0, 8), "cert.ca."@, 0);
        lemma_differ_at("bridge.creds"@.subrange(0, 9), "collector"@, 0);
        lemma_differ_at("nats.bridge.creds"@.subrange(0, 12), "cert.bridge."@, 0);
        lemma_differ_at("nats.bridge.creds"@.subrange(0, 15), "cert.collector."@, 0);
        lemma_differ_at("nats.bridge.creds"@.subrange(0, 15), "nats.collector."@, 5);
    }
    assert(secret_fits_file(l[4].0, l[4].1)) by {
        assert("bridge.nk"@.subrange(6, 9) =~= ".nk"@);
        assert("bridge.nk"@.subrange(0, 6) =~= "bridge"@);
        assert("nats.bridge.nk"@.subrange(11, 14) =~= ".nk"@);
        assert("nats.bridge.nk"@.subrange(0, 12) =~= "nats.bridge."@);
        lemma_differ_at("bridge.nk"@.subrange(5, 9), ".jwt"@, 0);
        lemma_differ_at("nats.bridge.nk"@.subrange(10, 14), ".jwt"@, 0);
        lemma_differ_at("bridge.nk"@.subrange(3, 9), ".creds"@, 0);
        lemma_differ_at("nats.bridge.nk"@.subrange(8, 14), ".creds"@, 0);
        lemma_differ_at("bridge.nk"@.subrange(5, 9), ".pub"@, 0);
        lemma_differ_at("nats.bridge.nk"@.subrange(10, 14), ".pub"@, 0);
        lemma_differ_at("bridge.nk"@.subrange(1, 9), "-key.pem"@, 0);
        lemma_differ_at("nats.bridge.nk"@.subrange(10, 14), ".key"@, 0);
        lemma_differ_at("bridge.nk"@.subrange(0, 3), "ca-"@, 0);
        lemma_differ_at("nats.bridge.nk"@.subrange(0, 8), "cert.ca."@, 0);
        lemma_differ_at("bridge.nk"@.subrange(0, 9), "collector"@, 0);
        lemma_differ_at("nats.bridge.nk"@.subrange(0, 12), "cert.bridge."@, 0);
    }
    assert(secret_fits_file(l[5].0, l[5].1)) by {
        assert("bridge.jwt"@.subrange(6, 10) =~= ".jwt"@);
        assert("bridge.jwt"@.subrange(0, 6) =~= "bridge"@);
        assert("nats.bridge.jwt"@.subrange(11, 15) =~= ".jwt"@);
        assert("nats.bridge.jwt"@.subrange(0, 12) =~= "nats.bridge."@);
        lemma_differ_at("bridge.jwt"@.subrange(7, 10), ".nk"@, 0);
        lemma_differ_at("nats.bridge.jwt"@.subrange(12, 15), ".nk"@, 0);
        lemma_differ_at("bridge.jwt"@.subrange(4, 10), ".creds"@, 0);
        lemma_differ_at("nats.bridge.jwt"@.subrange(9, 15), ".creds"@, 0);
        lemma_differ_at("bridge.jwt"@.subrange(6, 10), ".pub"@, 1);
        lemma_differ_at("nats.bridge.jwt"@.subrange(11, 15), ".pub"@, 1);
        lemma_differ_at("bridge.jwt"@.subrange(2, 10), "-key.pem"@, 0);
        lemma_differ_at("nats.bridge.jwt"@.subrange(11, 15), ".key"@, 1);
        lemma_differ_at("bridge.jwt"@.subrange(0, 3), "ca-"@, 0);
        lemma_differ_at("nats.bridge.jwt"@.subrange(0, 8), "cert.ca."@, 0);
        lemma_differ_at("bridge.jwt"@.subrange(0, 9), "collector"@, 0);
        lemma_differ_at("nats.bridge.jwt"@.subrange(0, 12), "cert.bridge."@, 0);
        lemma_differ_at("nats.bridge.jwt"@.subrange(0, 15), "cert.collector."@, 0);
        lemma_differ_at("nats.bridge.jwt"@.subrange(0, 15), "nats.collector."@, 5);
    }
    assert(secret_fits_file(l[6].0, l[6].1)) by {
        assert("collector-cert.pem"@.subrange(0, 9) =~= "collector"@);
        assert("cert.collector.pem"@.subrange(0, 15) =~= "cert.collector."@);
        lemma_differ_at("collector-cert.pem"@.subrange(14, 18), ".jwt"@, 1);
        lemma_differ_at("cert.collector.pem"@.subrange(14, 18), ".jwt"@, 1);
        lemma_differ_at("collector-cert.pem"@.subrange(15, 18), ".nk"@, 0);
        lemma_differ_at("cert.collector.pem"@.subrange(15, 18), ".nk"@, 0);
        lemma_differ_at("collector-cert.pem"@.subrange(12, 18), ".creds"@, 0);
        lemma_differ_at("cert.collector.pem"@.subrange(12, 18), ".creds"@, 0);
        lemma_differ_at("collector-cert.pem"@.subrange(14, 18), ".pub"@, 2);
        lemma_differ_at("cert.collector.pem"@.subrange(14, 18), ".pub"@, 2);
        lemma_differ_at("collector-cert.pem"@.subrange(10, 18), "-key.pem"@, 0);
        lemma_differ_at("cert.collector.pem"@.subrange(14, 18), ".key"@, 1);
        lemma_differ_at("collector-cert.pem"@.subrange(0, 3), "ca-"@, 1);
        lemma_differ_at("cert.collector.pem"@.subrange(0, 8), "cert.ca."@, 6);
        lemma_differ_at("collector-cert.pem"@.subrange(0, 6), "bridge"@, 0);
        lemma_differ_at("cert.collector.pem"@.subrange(0, 12), "cert.bridge."@, 5);
        lemma_differ_at("cert.collector.pem"@.subrange(0, 12), "nats.bridge."@, 0);
        lemma_differ_at("cert.collector.pem"@.subrange(0, 15), "nats.collector."@, 0);
    }
    assert(secret_fits_file(l[7].0, l[7].1)) by {
        assert("collector-key.pem"@.subrange(9, 17) =~= "-key.pem"@);
        assert("collector-key.pem"@.subrange(0, 9) =~= "collector"@);
        assert("cert.collector.key"@.subrange(14, 18) =~= ".key"@);
        assert("cert.collector.key"@.subrange(0, 15) =~= "cert.collector."@);
        lemma_differ_at("collector-key.pem"@.subrange(13, 17), ".jwt"@, 1);
        lemma_differ_at("cert.collector.key"@.subrange(14, 18), ".jwt"@, 1);
        lemma_differ_at("collector-key.pem"@.subrange(14, 17), ".nk"@, 0);
        lemma_differ_at("cert.collector.key"@.subrange(15, 18), ".nk"@, 0);
        lemma_differ_at("collector-key.pem"@.subrange(11, 17), ".creds"@, 0);
        lemma_differ_at("cert.collector.key"@.subrange(12, 18), ".creds"@, 0);
        lemma_differ_at("collector-key.pem"@.subrange(13, 17), ".pub"@, 2);
        lemma_differ_at("cert.collector.key"@.subrange(14, 18), ".pub"@, 1);
        lemma_differ_at("collector-key.pem"@.subrange(0, 3), "ca-"@, 1);
        lemma_differ_at("cert.collector.key"@.subrange(0, 8), "cert.ca."@, 6);
        lemma_differ_at("collector-key.pem"@.subrange(0, 6), "bridge"@, 0);
        lemma_differ_at("cert.collector.key"@.subrange(0, 12), "cert.bridge."@, 5);
        lemma_differ_at("cert.collector.key"@.subrange(0, 12), "nats.bridge."@, 0);
        lemma_differ_at("cert.collector.key"@.subrange(0, 15), "nats.collector."@, 0);
    }
    assert(secret_fits_file(l[8].0, l[8].1)) by {
        assert("collector.creds"@.subrange(9, 15) =~= ".creds"@);
        assert("collector.creds"@.subrange(0, 9) =~= "collector"@);
        assert("nats.collector.creds"@.subrange(14, 20) =~= ".creds"@);
        assert("nats.collector.creds"@.subrange(0, 15) =~= "nats.collector."@);
        lemma_differ_at("collector.creds"@.subrange(11, 15), ".jwt"@, 0);
        lemma_differ_at("nats.collector.creds"@.subrange(16, 20), ".jwt"@, 0);
        lemma_differ_at("collector.creds"@.subrange(12, 15), ".nk"@, 0);
        lemma_differ_at("nats.collector.creds"@.subrange(17, 20), ".nk"@, 0);
        lemma_differ_at("collector.creds"@.subrange(11, 15), ".pub"@, 0);
        lemma_differ_at("nats.collector.creds"@.subrange(16, 20), ".pub"@, 0);
        lemma_differ_at("collector.creds"@.subrange(7, 15), "-key.pem"@, 0);
        lemma_differ_at("nats.collector.creds"@.subrange(16, 20), ".key"@, 0);
        lemma_differ_at("collector.creds"@.subrange(0, 3), "ca-"@, 1);
        lemma_differ_at("nats.collector.creds"@.subrange(0, 8), "cert.ca."@, 0);
        lemma_differ_at("collector.creds"@.subrange(0, 6), "bridge"@, 0);
        lemma_differ_at("nats.collector.creds"@.subrange(0, 12), "cert.bridge."@, 0);
        lemma_differ_at("nats.collector.creds"@.subrange(0, 12), "nats.bridge."@, 5);
        lemma_differ_at("nats.collector.creds"@.subrange(0, 15), "cert.collector."@, 0);
    }
    assert(secret_fits_file(l[9].0, l[9].1)) by {
        assert("collector.nk"@.subrange(9, 12) =~= ".nk"@);
        assert("collector.nk"@.subrange(0, 9) =~= "collector"@);
        assert("nats.collector.nk"@.subrange(14, 17) =~= ".nk"@);
        assert("nats.collector.nk"@.subrange(0, 15) =~= "nats.collector."@);
        lemma_differ_at("collector.nk"@.subrange(8, 12), ".jwt"@, 0);
        lemma_differ_at("nats.collector.nk"@.subrange(13, 17), ".jwt"@, 0);
        lemma_differ_at("collector.nk"@.subrange(6, 12), ".creds"@, 0);
        lemma_differ_at("nats.collector.nk"@.subrange(11, 17), ".creds"@, 0);
        lemma_differ_at("collector.nk"@.subrange(8, 12), ".pub"@, 0);
        lemma_differ_at("nats.collector.nk"@.subrange(13, 17), ".pub"@, 0);
        lemma_differ_at("collector.nk"@.subrange(4, 12), "-key.pem"@, 0);
        lemma_differ_at("nats.collector.nk"@.subrange(13, 17), ".key"@, 0);
        lemma_differ_at("collector.nk"@.subrange(0, 3), "ca-"@, 1);
        lemma_differ_at("nats.collector.nk"@.subrange(0, 8), "cert.ca."@, 0);
        lemma_differ_at("collector.nk"@.subrange(0, 6), "bridge"@, 0);
        lemma_differ_at("nats.collector.nk"@.subrange(0, 12), "cert.bridge."@, 0);
        lemma_differ_at("nats.collector.nk"@.subrange(0, 12), "nats.bridge."@, 5);
        lemma_differ_at("nats.collector.nk"@.subrange(0, 15), "cert.collector."@, 0);
    }
    assert(secret_fits_file(l[10].0, l[10].1)) by {
        assert("collector.jwt"@.subrange(9, 13) =~= ".jwt"@);
        assert("collector.jwt"@.subrange(0, 9) =~= "collector"@);
        assert("nats.collector.jwt"@.subrange(14, 18) =~= ".jwt"@);
        assert("nats.collector.jwt"@.subrange(0, 15) =~= "nats.collector."@);
        lemma_differ_at("collector.jwt"@.subrange(10, 13), ".nk"@, 0);
        lemma_differ_at("nats.collector.jwt"@.subrange(15, 18), ".nk"@, 0);
        lemma_differ_at("collector.jwt"@.subrange(7, 13), ".creds"@, 0);
        lemma_differ_at("nats.collector.jwt"@.subrange(12, 18), ".creds"@, 0);
        lemma_differ_at("collector.jwt"@.subrange(9, 13), ".pub"@, 1);
        lemma_differ_at("nats.collector.jwt"@.subrange(14, 18), ".pub"@, 1);
        lemma_differ_at("collector.jwt"@.subrange(5, 13), "-key.pem"@, 0);
        lemma_differ_at("nats.collector.jwt"@.subrange(14, 18), ".key"@, 1);
        lemma_differ_at("collector.jwt"@.subrange(0, 3), "ca-"@, 1);
        lemma_differ_at("nats.collector.jwt"@.subrange(0, 8), "cert.ca."@, 0);
        lemma_differ_at("collector.jwt"@.subrange(0, 6), "bridge"@, 0);
        lemma_differ_at("nats.collector.jwt"@.subrange(0, 12), "cert.bridge."@, 0);
        lemma_differ_at("nats.collector.jwt"@.subrange(0, 12), "nats.bridge."@, 5);
        lemma_differ_at("nats.collector.jwt"@.subrange(0, 15), "cert.collector."@, 0);
    }
    assert(secret_fits_file(l[11].0, l[11].1)) by {
        assert("operator.jwt"@.subrange(8, 12) =~= ".jwt"@);
        assert("nats.operator.jwt"@.subrange(13, 17) =~= ".jwt"@);
        lemma_differ_at("operator.jwt"@.subrange(9, 12), ".nk"@, 0);
        lemma_differ_at("nats.operator.jwt"@.subrange(14, 17), ".nk"@, 0);
        lemma_differ_at("operator.jwt"@.subrange(6, 12), ".creds"@, 0);
        lemma_differ_at("nats.operator.jwt"@.subrange(11, 17), ".creds"@, 0);
        lemma_differ_at("operator.jwt"@.subrange(8, 12), ".pub"@, 1);
        lemma_differ_at("nats.operator.jwt"@.subrange(13, 17), ".pub"@, 1);
        lemma_differ_at("operator.jwt"@.subrange(4, 12), "-key.pem"@, 0);
        lemma_differ_at("nats.operator.jwt"@.subrange(13, 17), ".key"@, 1);
        lemma_differ_at("operator.jwt"@.subrange(0, 3), "ca-"@, 0);
        lemma_differ_at("nats.operator.jwt"@.subrange(0, 8), "cert.ca."@, 0);
        lemma_differ_at("operator.jwt"@.subrange(0, 6), "bridge"@, 0);
        lemma_differ_at("operator.jwt"@.subrange(0, 9), "collector"@, 0);
        lemma_differ_at("nats.operator.jwt"@.subrange(0, 12), "cert.bridge."@, 0);
        lemma_differ_at("nats.operator.jwt"@.subrange(0, 12), "nats.bridge."@, 5);
        lemma_differ_at("nats.operator.jwt"@.subrange(0, 15), "cert.collector."@, 0);
        lemma_differ_at("nats.operator.jwt"@.subrange(0, 15), "nats.collector."@, 5);
    }
    assert(secret_fits_file(l[12].0, l[12].1)) by {
        assert("BridgeAccount.jwt"@.subrange(13, 17) =~= ".jwt"@);
        assert("nats.account.jwt"@.subrange(12, 16) =~= ".jwt"@);
        lemma_differ_at("BridgeAccount.jwt"@.subrange(14, 17), ".nk"@, 0);
        lemma_differ_at("nats.account.jwt"@.subrange(13, 16), ".nk"@, 0);
        lemma_differ_at("BridgeAccount.jwt"@.subrange(11, 17), ".creds"@, 0);
        lemma_differ_at("nats.account.jwt"@.subrange(10, 16), ".creds"@, 0);
        lemma_differ_at("BridgeAccount.jwt"@.subrange(13, 17), ".pub"@, 1);
        lemma_differ_at("nats.account.jwt"@.subrange(12, 16), ".pub"@, 1);
        lemma_differ_at("BridgeAccount.jwt"@.subrange(9, 17), "-key.pem"@, 0);
        lemma_differ_at("nats.account.jwt"@.subrange(12, 16), ".key"@, 1);
        lemma_differ_at("BridgeAccount.jwt"@.subrange(0, 3), "ca-"@, 0);
        lemma_differ_at("nats.account.jwt"@.subrange(0, 8), "cert.ca."@, 0);
        lemma_differ_at("BridgeAccount.jwt"@.subrange(0, 6), "bridge"@, 0);
        lemma_differ_at("BridgeAccount.jwt"@.subrange(0, 9), "collector"@, 0);
        lemma_differ_at("nats.account.jwt"@.subrange(0, 12), "cert.bridge."@, 0);
        lemma_differ_at("nats.account.jwt"@.subrange(0, 12), "nats.bridge."@, 5);
        lemma_differ_at("nats.account.jwt"@.subrange(0, 15), "cert.collector."@, 0);
        lemma_differ_at("nats.account.jwt"@.subrange(0, 15), "nats.collector."@, 5);
    }
    assert(secret_fits_file(l[13].0, l[13].1)) by {
        assert("system_account.pub"@.subrange(14, 18) =~= ".pub"@);
        assert("nats.system_account.pub"@.subrange(19, 23) =~= ".pub"@);
        lemma_differ_at("system_account.pub"@.subrange(14, 18), ".jwt"@, 1);
        lemma_differ_at("nats.system_account.pub"@.subrange(19, 23), ".jwt"@, 1);
        lemma_differ_at("system_account.pub"@.subrange(15, 18), ".nk"@, 0);
        lemma_differ_at("nats.system_account.pub"@.subrange(20, 23), ".nk"@, 0);
        lemma_differ_at("system_account.pub"@.subrange(12, 18), ".creds"@, 0);
        lemma_differ_at("nats.system_account.pub"@.subrange(17, 23), ".creds"@, 0);
        lemma_differ_at("system_account.pub"@.subrange(10, 18), "-key.pem"@, 0);
        lemma_differ_at("nats.system_account.pub"@.subrange(19, 23), ".key"@, 1);
        lemma_differ_at("system_account.pub"@.subrange(0, 3), "ca-"@, 0);
        lemma_differ_at("nats.system_account.pub"@.subrange(0, 8), "cert.ca."@, 0);
        lemma_differ_at("system_account.pub"@.subrange(0, 6), "bridge"@, 0);
        lemma_differ_at("system_account.pub"@.subrange(0, 9), "collector"@, 0);
        lemma_differ_at("nats.system_account.pub"@.subrange(0, 12), "cert.bridge."@, 0);
        lemma_differ_at("nats.system_account.pub"@.subrange(0, 12), "nats.bridge."@, 5);
        lemma_differ_at("nats.system_account.pub"@.subrange(0, 15), "cert.collector."@, 0);
        lemma_differ_at("nats.system_account.pub"@.subrange(0, 15), "nats.collector."@, 5);
    }
    lemma_differ_at("cert.bridge.pem"@, "cert.bridge.key"@, 12);
    lemma_differ_at("cert.bridge.pem"@, "nats.bridge.jwt"@, 0);
    lemma_differ_at("bridge-cert.pem"@, "collector.creds"@, 0);
    lemma_differ_at("cert.bridge.key"@, "nats.bridge.jwt"@, 0);
    lemma_differ_at("nats.bridge.creds"@, "nats.collector.nk"@, 5);
    lemma_differ_at("bridge.creds"@, "collector.nk"@, 0);
    lemma_differ_at("nats.bridge.creds"@, "nats.operator.jwt"@, 5);
    lemma_differ_at("bridge.creds"@, "operator.jwt"@, 0);
    lemma_differ_at("cert.collector.pem"@, "cert.collector.key"@, 15);
    lemma_differ_at("cert.collector.pem"@, "nats.collector.jwt"@, 0);
    lemma_differ_at("collector-cert.pem"@, "system_account.pub"@, 0);
    lemma_differ_at("cert.collector.key"@, "nats.collector.jwt"@, 0);
    lemma_differ_at("collector-key.pem"@, "BridgeAccount.jwt"@, 0);
    lemma_differ_at("nats.collector.nk"@, "nats.operator.jwt"@, 5);
    lemma_differ_at("collector.nk"@, "operator.jwt"@, 0);
}

/// A file to write into the runtime directory.
pub struct SecretFile {
    pub path: String,
    pub data: Vec<u8>,
}

/// The file for the secret `key`, named `filename` in `secrets_dir`, as
/// `write_secret` writes it; an error naming the key when it is missing.
pub fn write_secret(secrets: &SecretStore, key: &str, filename: &str, secrets_dir: &str) -> (r: Result<
    SecretFile,
    RuntimeError,
>)
    ensures
        secrets@.contains_key(key@) ==> (r matches Ok(f) && f.path@ == path_joined(
            secrets_dir@,
            filename@,
        ) && f.data@ == secrets@[key@]),
        !secrets@.contains_key(key@) ==> (r matches Err(RuntimeError::MissingSecret(k)) && k@
            == key@),
{
    match secrets.get(key) {
        Some(data) => {
            let mut copy: Vec<u8> = Vec::new();
            let mut i: usize = 0;
            while i < data.len()
                invariant
                    i <= data.len(),
                    copy@ == data@.subrange(0, i as int),
                decreases data.len() - i,
            {
                copy.push(data[i]);
                i = i + 1;
                assert(copy@ =~= data@.subrange(0, i as int));
            }
            assert(copy@ =~= data@);
            Ok(SecretFile { path: join_path(secrets_dir, filename), data: copy })
        },
        None => Err(RuntimeError::MissingSecret(copy_str(key))),
    }
}

/// The NATS server configuration that the template gives: its placeholders
/// filled in, then the system account line.
pub open spec fn rendered_nats_config(
    template: Seq<char>,
    hostname: Seq<char>,
    secrets_dir: Seq<char>,
    jetstream_dir: Seq<char>,
    system_account: Seq<char>,
) -> Seq<char> {
    let t1 = replaced(template, "{{HOSTNAME}}"@, hostname);
    let t2 = replaced(t1, "{{OPERATOR_JWT_PATH}}"@, secrets_dir + "/operator.jwt"@);
    let t3 = replaced(t2, "{{JWT_STORE_PATH}}"@, secrets_dir);
    let t4 = replaced(t3, "{{JETSTREAM_PATH}}"@, jetstream_dir);
    let t5 = replaced(t4, "{{CERT_PATH}}"@, secrets_dir);
    t5 + "\nsystem_account: "@ + trimmed(system_account) + "\n"@
}

/// Renders the NATS server configuration from its template.
pub fn generate_nats_config(
    template: &str,
    hostname: &str,
    secrets_dir: &str,
    jetstream_dir: &str,
    system_account: &str,
) -> (r: String)
    ensures
        r@ == rendered_nats_config(template@, hostname@, secrets_dir@, jetstream_dir@, system_account@),
{
    proof {
        reveal_strlit("{{HOSTNAME}}");
        reveal_strlit("{{OPERATOR_JWT_PATH}}");
        reveal_strlit("{{JWT_STORE_PATH}}");
        reveal_strlit("{{JETSTREAM_PATH}}");
        reveal_strlit("{{CERT_PATH}}");
    }
    let t1 = replace_all(template, "{{HOSTNAME}}", hostname);
    let operator_path = concat2(secrets_dir, "/operator.jwt");
    let t2 = replace_all(t1.as_str(), "{{OPERATOR_JWT_PATH}}", operator_path.as_str());
    let t3 = replace_all(t2.as_str(), "{{JWT_STORE_PATH}}", secrets_dir);
    let t4 = replace_all(t3.as_str(), "{{JETSTREAM_PATH}}", jetstream_dir);
    let mut t5 = replace_all(t4.as_str(), "{{CERT_PATH}}", secrets_dir);
    let line = concat3("\nsystem_account: ", trim(system_account), "\n");
    t5.append(line.as_str());
    assert(t5@ =~= rendered_nats_config(template@, hostname@, secrets_dir@, jetstream_dir@, system_account@));
    t5
}

/// A template without placeholders is kept as it is; only the system
/// account line is added.
pub proof fn lemma_plain_template_kept(
    template: Seq<char>,
    hostname: Seq<char>,
    secrets_dir: Seq<char>,
    jetstream_dir: Seq<char>,
    system_account: Seq<char>,
)
    requires
        !contains_seq(template, "{{HOSTNAME}}"@),
        !contains_seq(template, "{{OPERATOR_JWT_PATH}}"@),
        !contains_seq(template, "{{JWT_STORE_PATH}}"@),
        !contains_seq(template, "{{JETSTREAM_PATH}}"@),
        !contains_seq(template, "{{CERT_PATH}}"@),
    ensures
        rendered_nats_config(template, hostname, secrets_dir, jetstream_dir, system_account)
            == template + "\nsystem_account: "@ + trimmed(system_account) + "\n"@,
{
    lemma_replace_absent(template, "{{HOSTNAME}}"@, hostname);
    lemma_replace_absent(template, "{{OPERATOR_JWT_PATH}}"@, secrets_dir + "/operator.jwt"@);
    lemma_replace_absent(template, "{{JWT_STORE_PATH}}"@, secrets_dir);
    lemma_replace_absent(template, "{{JETSTREAM_PATH}}"@, jetstream_dir);
    lemma_replace_absent(template, "{{CERT_PATH}}"@, secrets_dir);
}

} // verus!
