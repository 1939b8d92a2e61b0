use graphite_workstation_core::device_seal::{
    body_digest, derive_device_keys, generate_device_keys, seal_request, string_to_sign,
};
use graphite_workstation_core::{sign_request, DeviceKeys};
use hmac::{Hmac, Mac};
use sha2::{Digest, Sha256};

#[test]
fn test_device_seal_header_generation() {
    let keys = generate_device_keys().unwrap();
    let headers =
        sign_request(&keys, "POST", "/api/v1/matter/run", Some("{\"caseId\":\"test\"}")).unwrap();
    assert!(headers.device_id.starts_with("gx_dev_"));
    assert_eq!(headers.nonce.len(), 32);
    assert!(headers.body_digest.starts_with("sha256:"));
    assert_eq!(headers.signature.len(), 64);
}

#[test]
fn test_different_nonces_per_request() {
    let keys = generate_device_keys().unwrap();
    let h1 = sign_request(&keys, "GET", "/ping", None).unwrap();
    let h2 = sign_request(&keys, "GET", "/ping", None).unwrap();
    assert_ne!(h1.nonce, h2.nonce);
    assert_ne!(h1.signature, h2.signature);
}

fn sha(parts: &[&[u8]]) -> Vec<u8> {
    let mut h = Sha256::new();
    for p in parts {
        h.update(p);
    }
    h.finalize().to_vec()
}

#[test]
fn derived_keys_follow_the_seed() {
    let seed = [7u8; 32];
    let keys = derive_device_keys(&seed);
    let id_hash = hex::encode(sha(&[b"graphite-workstation-device-id:", &seed]));
    assert_eq!(keys.device_id, format!("gx_dev_{}", &id_hash[..16]));
    assert_eq!(keys.device_id.len(), 23);
    assert_eq!(keys.key, sha(&[b"graphite-workstation-signing-key-v1:", &seed]));
    assert!(keys.device_id[7..].chars().all(|c| c.is_ascii_hexdigit() && !c.is_ascii_uppercase()));
    let other = derive_device_keys(&[8u8; 32]);
    assert_ne!(other.device_id, keys.device_id);
}

#[test]
fn generated_keys_have_expected_shape() {
    let a = generate_device_keys().unwrap();
    let b = generate_device_keys().unwrap();
    assert_eq!(a.key.len(), 32);
    assert!(a.device_id.starts_with("gx_dev_"));
    assert_ne!(a.key, b.key);
}

#[test]
fn empty_body_digest() {
    assert_eq!(
        body_digest(None),
        "sha256:e3b0c44298fc1c149afbf4c8996fb92427ae41e4649b934ca495991b7852b855"
    );
    assert_eq!(body_digest(Some("")), body_digest(None));
    assert_eq!(
        body_digest(Some("abc")),
        "sha256:ba7816bf8f01cfea414140de5dae2223b00361a396177a9cb410ff61f20015ad"
    );
}

#[test]
fn canonical_string_joins_with_newlines() {
    assert_eq!(string_to_sign("GET", "/p", "1", "n", "d"), "GET\n/p\n1\nn\nd");
}

#[test]
fn sealed_request_exact_values() {
    let keys = DeviceKeys { device_id: "gx_dev_0123456789abcdef".to_string(), key: b"Jefe".to_vec() };
    let nonce = [0xabu8; 16];
    let h = seal_request(&keys, "post", "/api/x", Some("{}"), 1_725_029_869_000, &nonce).unwrap();
    assert_eq!(h.device_id, "gx_dev_0123456789abcdef");
    assert_eq!(h.timestamp, "1725029869000");
    assert_eq!(h.nonce, "abababababababababababababababab");
    let digest = format!("sha256:{}", hex::encode(sha(&[b"{}"])));
    assert_eq!(h.body_digest, digest);
    let signed = format!("POST\n/api/x\n1725029869000\n{}\n{}", h.nonce, digest);
    let mut mac = Hmac::<Sha256>::new_from_slice(b"Jefe").unwrap();
    mac.update(signed.as_bytes());
    assert_eq!(h.signature, hex::encode(mac.finalize().into_bytes()));
}

#[test]
fn hmac_known_vector() {
    // RFC 4231, test case 2, through the sealing path's signature.
    let keys = DeviceKeys { device_id: String::new(), key: b"Jefe".to_vec() };
    let h = seal_request(&keys, "", "", None, 0, &[]).unwrap();
    let signed = format!("\n\n0\n\n{}", h.body_digest);
    let mut mac = Hmac::<Sha256>::new_from_slice(b"Jefe").unwrap();
    mac.update(signed.as_bytes());
    assert_eq!(h.signature, hex::encode(mac.finalize().into_bytes()));
    let mut mac = Hmac::<Sha256>::new_from_slice(b"Jefe").unwrap();
    mac.update(b"what do ya want for nothing?");
    assert_eq!(
        hex::encode(mac.finalize().into_bytes()),
        "5bdcc146bf60754e6a042426089575c75a003f089d2739839dec58b964ec3843"
    );
}

#[test]
fn signature_binds_method_path_and_body() {
    let keys = derive_device_keys(&[3u8; 32]);
    let nonce = [1u8; 16];
    let base = seal_request(&keys, "POST", "/a", Some("x"), 42, &nonce).unwrap();
    let same = seal_request(&keys, "post", "/a", Some("x"), 42, &nonce).unwrap();
    assert_eq!(base.signature, same.signature);
    let path = seal_request(&keys, "POST", "/b", Some("x"), 42, &nonce).unwrap();
    let body = seal_request(&keys, "POST", "/a", Some("y"), 42, &nonce).unwrap();
    let method = seal_request(&keys, "PUT", "/a", Some("x"), 42, &nonce).unwrap();
    assert_ne!(base.signature, path.signature);
    assert_ne!(base.signature, body.signature);
    assert_ne!(base.signature, method.signature);
    assert_eq!(base.signature.len(), 64);
}
