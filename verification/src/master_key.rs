//! The collector's master key: a random 32-byte key kept on disk encrypted
//! under a key derived from the machine's identity, as nonce followed by
//! AES-256-GCM ciphertext.
use vstd::prelude::*;
use crate::crypto::{
    aes256gcm_decrypt, aes256gcm_encrypt, aes256gcm_open, aes256gcm_seal, random_bytes, sha256,
    sha256_digest, GCM_MAX_PLAINTEXT,
};
use crate::text::concat3;
use vstd::utf8::encode_utf8;

verus! {

/// The name of the master key file in the user's data directory.
pub open spec fn master_key_file_name() -> Seq<char> {
    "master_key_secure.dat"@
}

/// `dir` joined with the relative name `name`, as `PathBuf::push` does: a
/// separator is added unless `dir` is empty or already ends with one.
pub open spec fn path_joined(dir: Seq<char>, name: Seq<char>) -> Seq<char> {
    if dir.len() == 0 || dir.last() == '/' {
        dir + name
    } else {
        dir + "/"@ + name
    }
}

/// `dir` joined with the relative name `name`, as `Path::join` does.
pub fn join_path(dir: &str, name: &str) -> (r: String)
    ensures
        r@ == path_joined(dir@, name@),
{
    let n = dir.unicode_len();
    if n == 0 || dir.get_char(n - 1) == '/' {
        crate::text::concat2(dir, name)
    } else {
        concat3(dir, "/", name)
    }
}

/// The text the key derivation starts from: the machine id, or `fallback`
/// when it cannot be read.
pub open spec fn machine_id_or_fallback(machine_id: Option<Seq<char>>) -> Seq<char> {
    match machine_id {
        Some(m) => m,
        None => "fallback"@,
    }
}

/// The key that protects the master key on this machine: the SHA-256 digest
/// of the machine id's UTF-8 bytes.
pub open spec fn device_key(machine_id: Option<Seq<char>>) -> Seq<u8> {
    sha256_digest(encode_utf8(machine_id_or_fallback(machine_id)))
}

/// The stored form of `key`: the nonce, then the key sealed under the
/// device key and that nonce.
pub open spec fn sealed_key_file(machine_id: Option<Seq<char>>, key: Seq<u8>, nonce: Seq<u8>) -> Seq<
    u8,
> {
    nonce + aes256gcm_seal(device_key(machine_id), nonce, key)
}

/// The key that a stored file holds: its first 12 bytes are the nonce and
/// the rest is opened under the device key. A file shorter than a nonce
/// holds none.
pub open spec fn opened_key_file(machine_id: Option<Seq<char>>, data: Seq<u8>) -> Option<Seq<u8>> {
    if data.len() < 12 {
        None
    } else {
        aes256gcm_open(device_key(machine_id), data.subrange(0, 12), data.subrange(12, data.len() as int))
    }
}

pub open spec fn opt_text(o: Option<&str>) -> Option<Seq<char>> {
    match o {
        Some(s) => Some(s@),
        None => None,
    }
}

/// A newly generated master key and the bytes of its file.
pub struct GeneratedKey {
    pub master_key: Vec<u8>,
    pub file: Vec<u8>,
}

/// What loading the master key gives: the key, and the file to write when
/// it was generated because none was stored.
pub struct LoadedKey {
    pub master_key: Vec<u8>,
    pub new_file: Option<Vec<u8>>,
}

/// The collector's master key operations.
pub struct KeyManager;

impl KeyManager {
    /// Where the master key is kept: `master_key_secure.dat` in the user's
    /// data directory.
    pub fn get_master_key_path(data_dir: &str) -> (r: String)
        ensures
            r@ == path_joined(data_dir@, master_key_file_name()),
    {
        join_path(data_dir, "master_key_secure.dat")
    }

    /// The device key for the given machine id.
    pub fn device_key(machine_id: Option<&str>) -> (r: Vec<u8>)
        ensures
            r@ == device_key(opt_text(machine_id)),
            r@.len() == 32,
    {
        match machine_id {
            Some(m) => sha256(m.as_bytes()),
            None => sha256("fallback".as_bytes()),
        }
    }

    /// The file that stores `master_key` under `nonce`.
    pub fn seal_master_key(machine_id: Option<&str>, master_key: &[u8], nonce: &[u8]) -> (r: Vec<u8>)
        requires
            nonce@.len() == 12,
            master_key@.len() <= GCM_MAX_PLAINTEXT,
        ensures
            r@ == sealed_key_file(opt_text(machine_id), master_key@, nonce@),
            r@.len() == nonce@.len() + master_key@.len() + 16,
    {
        let key = Self::device_key(machine_id);
        let sealed = match aes256gcm_encrypt(key.as_slice(), nonce, master_key) {
            Some(c) => c,
            None => {
                assert(false);
                Vec::new()
            },
        };
        let mut out = vstd::slice::slice_to_vec(nonce);
        let ghost start = out@;
        let mut tail = sealed;
        out.append(&mut tail);
        assert(out@ =~= nonce@ + aes256gcm_seal(device_key(opt_text(machine_id)), nonce@, master_key@));
        out
    }

    /// The key that a stored file holds, or `None` when the file is shorter
    /// than a nonce or does not authenticate under this machine's key.
    /// A file that `seal_master_key` wrote on this machine gives back its key.
    pub fn open_master_key(machine_id: Option<&str>, data: &[u8]) -> (r: Option<Vec<u8>>)
        ensures
            r matches Some(k) ==> opened_key_file(opt_text(machine_id), data@) == Some(k@),
            r is None ==> opened_key_file(opt_text(machine_id), data@) is None,
            forall|k: Seq<u8>, n: Seq<u8>|
                #![trigger sealed_key_file(opt_text(machine_id), k, n)]
                n.len() == 12 && k.len() <= GCM_MAX_PLAINTEXT && data@ == sealed_key_file(
                    opt_text(machine_id),
                    k,
                    n,
                ) ==> (r matches Some(v) && v@ == k),
    {
        if data.len() < 12 {
            return None;
        }
        let (nonce, sealed) = data.split_at(12);
        let key = Self::device_key(machine_id);
        let r = aes256gcm_decrypt(key.as_slice(), nonce, sealed);
        assert(nonce@ =~= data@.subrange(0, 12));
        assert(sealed@ =~= data@.subrange(12, data@.len() as int));
        assert forall|k: Seq<u8>, n: Seq<u8>|
            #![trigger sealed_key_file(opt_text(machine_id), k, n)]
            n.len() == 12 && k.len() <= GCM_MAX_PLAINTEXT && data@ == sealed_key_file(
                opt_text(machine_id),
                k,
                n,
            ) implies (r matches Some(v) && v@ == k) by {
            let dk = device_key(opt_text(machine_id));
            assert(data@.subrange(0, 12) =~= n);
            assert(data@.subrange(12, data@.len() as int) =~= aes256gcm_seal(dk, n, k));
            assert(sealed@ == aes256gcm_seal(key@, nonce@, k));
        }
        r
    }

    /// Generates a master key and the file that stores it; `None` when the
    /// operating system's random generator fails.
    pub fn generate_master_key(machine_id: Option<&str>) -> (r: Option<GeneratedKey>)
        ensures
            r matches Some(g) ==> (g.master_key@.len() == 32 && g.file@.len() == 60 && exists|
                n: Seq<u8>,
            |
                n.len() == 12 && g.file@ == #[trigger] sealed_key_file(
                    opt_text(machine_id),
                    g.master_key@,
                    n,
                )),
    {
        let master_key = random_bytes(32)?;
        let nonce = random_bytes(12)?;
        let file = Self::seal_master_key(machine_id, master_key.as_slice(), nonce.as_slice());
        Some(GeneratedKey { master_key, file })
    }

    /// Loads the master key from its stored file, or generates one when no
    /// file is stored; `None` only when the random generator fails. A stored
    /// file must hold a key for this machine.
    pub fn load_master_key(machine_id: Option<&str>, stored: Option<&[u8]>) -> (r: Option<LoadedKey>)
        requires
            stored matches Some(data) ==> opened_key_file(opt_text(machine_id), data@) is Some,
        ensures
            match stored {
                Some(data) => r matches Some(l) && opened_key_file(opt_text(machine_id), data@)
                    == Some(l.master_key@) && l.new_file is None,
                None => r matches Some(l) ==> (l.master_key@.len() == 32 && (l.new_file matches Some(
                    f,
                ) && f@.len() == 60 && exists|n: Seq<u8>|
                    n.len() == 12 && f@ == #[trigger] sealed_key_file(
                        opt_text(machine_id),
                        l.master_key@,
                        n,
                    ))),
            },
            forall|k: Seq<u8>, n: Seq<u8>|
                #![trigger sealed_key_file(opt_text(machine_id), k, n)]
                (stored matches Some(data) && n.len() == 12 && k.len() <= GCM_MAX_PLAINTEXT && data@
                    == sealed_key_file(opt_text(machine_id), k, n)) ==> (r matches Some(l)
                    && l.master_key@ == k),
    {
        match stored {
            Some(data) => {
                let key = match Self::open_master_key(machine_id, data) {
                    Some(k) => k,
                    None => {
                        assert(false);
                        Vec::new()
                    },
                };
                Some(LoadedKey { master_key: key, new_file: None })
            },
            None => {
                let g = Self::generate_master_key(machine_id)?;
                Some(LoadedKey { master_key: g.master_key, new_file: Some(g.file) })
            },
        }
    }

    /// Loads the master key as `load_master_key` does, first checking that a
    /// stored file holds a key for this machine: `None` when it does not, or
    /// when the random generator fails.
    pub fn try_load_master_key(machine_id: Option<&str>, stored: Option<&[u8]>) -> (r: Option<LoadedKey>)
        ensures
            match stored {
                Some(data) => match opened_key_file(opt_text(machine_id), data@) {
                    Some(k) => r matches Some(l) && l.master_key@ == k && l.new_file is None,
                    None => r is None,
                },
                None => r matches Some(l) ==> (l.master_key@.len() == 32 && (l.new_file matches Some(
                    f,
                ) && f@.len() == 60 && exists|n: Seq<u8>|
                    n.len() == 12 && f@ == #[trigger] sealed_key_file(
                        opt_text(machine_id),
                        l.master_key@,
                        n,
                    ))),
            },
            forall|k: Seq<u8>, n: Seq<u8>|
                #![trigger sealed_key_file(opt_text(machine_id), k, n)]
                (stored matches Some(data) && n.len() == 12 && k.len() <= GCM_MAX_PLAINTEXT && data@
                    == sealed_key_file(opt_text(machine_id), k, n)) ==> (r matches Some(l)
                    && l.master_key@ == k),
    {
        if let Some(data) = stored {
            if Self::open_master_key(machine_id, data).is_none() {
                return None;
            }
        }
        Self::load_master_key(machine_id, stored)
    }
}

} // verus!
