//! The cryptographic primitives the agent relies on. Each is computed by an
//! outside crate; what is stated of it here is believed, not proved.
use vstd::prelude::*;
use aes_gcm::aead::Aead;
use aes_gcm::aead::rand_core::RngCore;
use aes_gcm::KeyInit;
use cipher::BlockDecryptMut;
use cipher::KeyIvInit;
use sha2::Digest;

verus! {

/// The largest plaintext that AES-GCM encrypts: 2^36 bytes.
pub const GCM_MAX_PLAINTEXT: u64 = 0x10_0000_0000u64;

/// The SHA-256 digest of `data`.
pub uninterp spec fn sha256_digest(data: Seq<u8>) -> Seq<u8>;

/// AES-256-GCM encryption of `plaintext` under `key` and `nonce`, with no
/// associated data: the ciphertext followed by the 16-byte tag.
pub uninterp spec fn aes256gcm_seal(key: Seq<u8>, nonce: Seq<u8>, plaintext: Seq<u8>) -> Seq<u8>;

/// AES-256-GCM decryption of `sealed` under `key` and `nonce`: the plaintext,
/// or `None` when the tag does not authenticate it.
pub uninterp spec fn aes256gcm_open(key: Seq<u8>, nonce: Seq<u8>, sealed: Seq<u8>) -> Option<
    Seq<u8>,
>;

/// AES-256-CBC decryption of `ciphertext` under `key` and `iv`, with PKCS#7
/// padding removed, or `None` when the input or its padding is malformed.
pub uninterp spec fn aes256cbc_pkcs7_open(key: Seq<u8>, iv: Seq<u8>, ciphertext: Seq<u8>) -> Option<
    Seq<u8>,
>;

/// AES-256-CBC encryption of `plaintext` under `key` and `iv`, padded with
/// PKCS#7.
pub uninterp spec fn aes256cbc_pkcs7_seal(key: Seq<u8>, iv: Seq<u8>, plaintext: Seq<u8>) -> Seq<u8>;

/// `sha2::Sha256::digest`: a 32-byte digest, named `sha256_digest`.
#[verifier::external_body]
pub(crate) fn sha256(data: &[u8]) -> (r: Vec<u8>)
    ensures
        r@ == sha256_digest(data@),
        r@.len() == 32,
{
    sha2::Sha256::digest(data).to_vec()
}

/// `Aes256Gcm::new_from_slice` and `Aead::encrypt` of aes-gcm: the key and
/// nonce lengths are the ones the cipher accepts, so the only failure is a
/// plaintext longer than 2^36 bytes; the ciphertext carries a 16-byte tag.
#[verifier::external_body]
pub(crate) fn aes256gcm_encrypt(key: &[u8], nonce: &[u8], plaintext: &[u8]) -> (r: Option<Vec<u8>>)
    requires
        key@.len() == 32,
        nonce@.len() == 12,
    ensures
        (r is Some) == (plaintext@.len() <= GCM_MAX_PLAINTEXT),
        r matches Some(c) ==> c@ == aes256gcm_seal(key@, nonce@, plaintext@) && c@.len()
            == plaintext@.len() + 16,
{
    let cipher = aes_gcm::Aes256Gcm::new_from_slice(key).ok()?;
    cipher.encrypt(aes_gcm::Nonce::from_slice(nonce), plaintext).ok()
}

/// `Aes256Gcm::new_from_slice` and `Aead::decrypt` of aes-gcm. A sealed
/// message shorter than its 16-byte tag is refused; what decrypts is 16 bytes
/// shorter than its input; and what `aes256gcm_seal` produced under the same
/// key and nonce decrypts to its plaintext.
#[verifier::external_body]
pub(crate) fn aes256gcm_decrypt(key: &[u8], nonce: &[u8], sealed: &[u8]) -> (r: Option<Vec<u8>>)
    requires
        key@.len() == 32,
        nonce@.len() == 12,
    ensures
        r matches Some(p) ==> aes256gcm_open(key@, nonce@, sealed@) == Some(p@),
        r is None ==> aes256gcm_open(key@, nonce@, sealed@) is None,
        sealed@.len() < 16 ==> r is None,
        r matches Some(p) ==> p@.len() + 16 == sealed@.len(),
        forall|p: Seq<u8>|
            #![trigger aes256gcm_seal(key@, nonce@, p)]
            (r matches Some(q) && q@ == p) || !(p.len() <= GCM_MAX_PLAINTEXT && sealed@
                == aes256gcm_seal(key@, nonce@, p)),
{
    let cipher = aes_gcm::Aes256Gcm::new_from_slice(key).ok()?;
    cipher.decrypt(aes_gcm::Nonce::from_slice(nonce), sealed).ok()
}

/// `OsRng::try_fill_bytes` of rand_core, as re-exported by aes-gcm: `n`
/// bytes from the operating system's generator, or `None` when it fails.
/// Nothing is stated of the bytes but their number.
#[verifier::external_body]
pub(crate) fn random_bytes(n: usize) -> (r: Option<Vec<u8>>)
    ensures
        r matches Some(v) ==> v@.len() == n,
{
    let mut v = vec![0u8; n];
    aes_gcm::aead::OsRng.try_fill_bytes(&mut v).ok()?;
    Some(v)
}

/// `cbc::Decryptor::<Aes256>::new_from_slices` and
/// `decrypt_padded_mut::<Pkcs7>`: the key and IV lengths are the ones the
/// cipher accepts; input that is empty or not made of whole 16-byte blocks is
/// refused, what decrypts is shorter than its input by 1 to 16 bytes, and
/// what `aes256cbc_pkcs7_seal` produced under the same key and IV decrypts
/// to its plaintext.
#[verifier::external_body]
pub(crate) fn aes256cbc_decrypt(key: &[u8], iv: &[u8], ciphertext: &[u8]) -> (r: Option<Vec<u8>>)
    requires
        key@.len() == 32,
        iv@.len() == 16,
    ensures
        r matches Some(p) ==> aes256cbc_pkcs7_open(key@, iv@, ciphertext@) == Some(p@),
        r is None ==> aes256cbc_pkcs7_open(key@, iv@, ciphertext@) is None,
        ciphertext@.len() == 0 || ciphertext@.len() % 16 != 0 ==> r is None,
        r matches Some(p) ==> p@.len() < ciphertext@.len() && ciphertext@.len() <= p@.len() + 16,
        forall|p: Seq<u8>|
            #![trigger aes256cbc_pkcs7_seal(key@, iv@, p)]
            (r matches Some(q) && q@ == p) || ciphertext@ != aes256cbc_pkcs7_seal(key@, iv@, p),
{
    let mut buf = ciphertext.to_vec();
    let decryptor = cbc::Decryptor::<aes::Aes256>::new_from_slices(key, iv).ok()?;
    match decryptor.decrypt_padded_mut::<cipher::block_padding::Pkcs7>(&mut buf) {
        Ok(plain) => Some(plain.to_vec()),
        Err(_) => None,
    }
}

} // verus!
