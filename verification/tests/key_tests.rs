use cipher::{block_padding::Pkcs7, BlockEncryptMut, KeyIvInit};
use genesis_agent::master_key::{join_path, KeyManager};
use genesis_agent::runtime::{decrypt_master_key, RuntimeError};
use sha2::Digest;

#[test]
fn sha256_known_vector() {
    let d = KeyManager::device_key(Some("abc"));
    let hex: String = d.iter().map(|b| format!("{b:02x}")).collect();
    assert_eq!(hex, "ba7816bf8f01cfea414140de5dae2223b00361a396177a9cb410ff61f20015ad");
}

#[test]
fn device_key_hashes_machine_id_or_fallback() {
    assert_eq!(KeyManager::device_key(Some("abc")), sha2::Sha256::digest(b"abc").to_vec());
    assert_eq!(KeyManager::device_key(None), sha2::Sha256::digest(b"fallback").to_vec());
}

#[test]
fn master_key_path_joins_data_dir() {
    assert_eq!(KeyManager::get_master_key_path("/home/u/.local/share"), "/home/u/.local/share/master_key_secure.dat");
    assert_eq!(KeyManager::get_master_key_path("/data/"), "/data/master_key_secure.dat");
    assert_eq!(KeyManager::get_master_key_path(""), "master_key_secure.dat");
    assert_eq!(join_path("/run/s", "ca-cert.pem"), "/run/s/ca-cert.pem");
}

#[test]
fn sealed_key_file_opens_to_same_key() {
    let key: Vec<u8> = (0u8..32).collect();
    let nonce = [7u8; 12];
    let file = KeyManager::seal_master_key(Some("machine-1"), &key, &nonce);
    assert_eq!(&file[..12], &nonce);
    assert_eq!(file.len(), 12 + 32 + 16);
    assert_eq!(KeyManager::open_master_key(Some("machine-1"), &file), Some(key.clone()));
    assert_eq!(KeyManager::open_master_key(Some("machine-2"), &file), None);
    assert_eq!(KeyManager::open_master_key(None, &file), None);
}

#[test]
fn tampered_or_short_key_file_is_refused() {
    let key = [1u8; 32];
    let mut file = KeyManager::seal_master_key(None, &key, &[0u8; 12]);
    assert_eq!(KeyManager::open_master_key(None, &file), Some(key.to_vec()));
    let last = file.len() - 1;
    file[last] ^= 1;
    assert_eq!(KeyManager::open_master_key(None, &file), None);
    assert_eq!(KeyManager::open_master_key(None, &[0u8; 11]), None);
    assert_eq!(KeyManager::open_master_key(None, &[0u8; 20]), None);
}

#[test]
fn generated_key_loads_back() {
    let g = KeyManager::generate_master_key(Some("m")).unwrap();
    assert_eq!(g.master_key.len(), 32);
    assert_eq!(g.file.len(), 60);
    let loaded = KeyManager::load_master_key(Some("m"), Some(&g.file)).unwrap();
    assert_eq!(loaded.master_key, g.master_key);
    assert!(loaded.new_file.is_none());
    let fresh = KeyManager::load_master_key(Some("m"), None).unwrap();
    let file = fresh.new_file.unwrap();
    assert_eq!(KeyManager::open_master_key(Some("m"), &file), Some(fresh.master_key));
    assert!(KeyManager::try_load_master_key(Some("other"), Some(&g.file)).is_none());
    let again = KeyManager::try_load_master_key(Some("m"), Some(&g.file)).unwrap();
    assert_eq!(again.master_key, g.master_key);
    assert!(KeyManager::try_load_master_key(Some("m"), Some(&g.file[..11])).is_none());
    let made = KeyManager::try_load_master_key(None, None).unwrap();
    assert_eq!(made.new_file.map(|f| f.len()), Some(60));
}

fn cbc_encrypt(machine_id: &[u8], iv: &[u8; 16], plain: &[u8]) -> Vec<u8> {
    let key = sha2::Sha256::digest(machine_id);
    let mut buf = vec![0u8; plain.len() + 16];
    buf[..plain.len()].copy_from_slice(plain);
    let ct = cbc::Encryptor::<aes::Aes256>::new_from_slices(&key, iv)
        .unwrap()
        .encrypt_padded_mut::<Pkcs7>(&mut buf, plain.len())
        .unwrap()
        .to_vec();
    let mut out = iv.to_vec();
    out.extend_from_slice(&ct);
    out
}

#[test]
fn boot_master_key_decrypts_with_machine_id() {
    let secret = b"0123456789abcdef0123456789abcdef";
    let enc = cbc_encrypt(b"abc123", &[9u8; 16], secret);
    assert_eq!(decrypt_master_key(b"abc123\n", &enc), Ok(secret.to_vec()));
    assert_eq!(decrypt_master_key(b"abc123", &enc), Ok(secret.to_vec()));
    assert_eq!(decrypt_master_key(b"other\n", &enc), Err(RuntimeError::DecryptFailed));
}

#[test]
fn boot_master_key_file_too_small() {
    assert_eq!(decrypt_master_key(b"id", &[0u8; 16]), Err(RuntimeError::EncryptedKeyTooSmall));
    assert_eq!(decrypt_master_key(b"id", &[]), Err(RuntimeError::EncryptedKeyTooSmall));
    assert_eq!(decrypt_master_key(b"id", &[0u8; 20]), Err(RuntimeError::DecryptFailed));
}
