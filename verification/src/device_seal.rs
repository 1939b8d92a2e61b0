//! Hardware-bound request sealing.
//!
//! Every outbound mutation request carries headers signed with a key derived
//! from a per-device secret seed, so that a stolen bearer token is useless
//! without the workstation's signing key.

use vstd::prelude::*;
use vstd::slice::slice_to_vec;
use vstd::utf8::{encode_utf8, encode_utf8_decode_utf8};

use crate::clock::unix_time_millis;
use crate::digest::{
    digest_label, hex_encode, hmac_sha256, hmac_sha256_of, is_hex_digit, lemma_lower_hex_digits,
    lemma_lower_hex_injective, lemma_lower_hex_len, lemma_sha256_label_injective, lower_hex, sha256,
    sha256_label, sha256_of,
};
use crate::entropy::{fill_random, wipe};
use crate::text::{concat_str, decimal, to_uppercase, u128_to_decimal, uppercase_of};

verus! {

/// The workstation's identity: a public device id and the secret signing key.
pub struct DeviceKeys {
    pub device_id: String,
    pub key: Vec<u8>,
}

/// Device keys as plain values.
pub struct DeviceKeysView {
    pub device_id: Seq<char>,
    pub key: Seq<u8>,
}

impl View for DeviceKeys {
    type V = DeviceKeysView;

    open spec fn view(&self) -> DeviceKeysView {
        DeviceKeysView { device_id: self.device_id@, key: self.key@ }
    }
}

/// The headers attached to a sealed request: `X-Graphite-Device-Id`,
/// `X-Graphite-Timestamp`, `X-Graphite-Nonce`, `X-Graphite-Digest` and
/// `X-Graphite-Signature`.
#[derive(Debug, Clone)]
pub struct DeviceSealHeaders {
    pub device_id: String,
    pub timestamp: String,
    pub nonce: String,
    pub body_digest: String,
    pub signature: String,
}

/// Seal headers as plain values.
pub struct HeadersView {
    pub device_id: Seq<char>,
    pub timestamp: Seq<char>,
    pub nonce: Seq<char>,
    pub body_digest: Seq<char>,
    pub signature: Seq<char>,
}

impl View for DeviceSealHeaders {
    type V = HeadersView;

    open spec fn view(&self) -> HeadersView {
        HeadersView {
            device_id: self.device_id@,
            timestamp: self.timestamp@,
            nonce: self.nonce@,
            body_digest: self.body_digest@,
            signature: self.signature@,
        }
    }
}

/// The device id derived from a seed: "gx_dev_" and the first 16 hex
/// characters of SHA-256("graphite-workstation-device-id:" ++ seed).
pub open spec fn device_id_of(seed: Seq<u8>) -> Seq<char> {
    "gx_dev_"@ + lower_hex(sha256_of(encode_utf8("graphite-workstation-device-id:"@) + seed)).subrange(
        0,
        16,
    )
}

/// The signing key derived from a seed:
/// SHA-256("graphite-workstation-signing-key-v1:" ++ seed).
pub open spec fn signing_key_of(seed: Seq<u8>) -> Seq<u8> {
    sha256_of(encode_utf8("graphite-workstation-signing-key-v1:"@) + seed)
}

/// The bytes of an optional request body (none for a request without one).
pub open spec fn body_bytes(body: Option<&str>) -> Seq<u8> {
    match body {
        Some(b) => encode_utf8(b@),
        None => Seq::empty(),
    }
}

/// The canonical string that a request's signature covers:
/// METHOD, PATH, TIMESTAMP, NONCE and BODY_DIGEST, joined by newlines.
pub open spec fn canonical_request(
    method: Seq<char>,
    path: Seq<char>,
    timestamp: Seq<char>,
    nonce: Seq<char>,
    body_digest: Seq<char>,
) -> Seq<char> {
    method + seq!['\n'] + path + seq!['\n'] + timestamp + seq!['\n'] + nonce + seq!['\n']
        + body_digest
}

/// The headers that seal a request with `keys`, at `timestamp_ms`
/// (milliseconds since the Unix epoch), with the nonce bytes `nonce_bytes`.
pub open spec fn seal_of(
    keys: DeviceKeysView,
    method: Seq<char>,
    path: Seq<char>,
    body: Option<&str>,
    timestamp_ms: nat,
    nonce_bytes: Seq<u8>,
) -> HeadersView {
    let timestamp = decimal(timestamp_ms);
    let nonce = lower_hex(nonce_bytes);
    let body_digest = sha256_label(sha256_of(body_bytes(body)));
    HeadersView {
        device_id: keys.device_id,
        timestamp,
        nonce,
        body_digest,
        signature: lower_hex(
            hmac_sha256_of(
                keys.key,
                encode_utf8(signed_string(method, path, body, timestamp_ms, nonce_bytes)),
            ),
        ),
    }
}

/// The canonical string a sealed request's signature covers.
pub open spec fn signed_string(
    method: Seq<char>,
    path: Seq<char>,
    body: Option<&str>,
    timestamp_ms: nat,
    nonce_bytes: Seq<u8>,
) -> Seq<char> {
    canonical_request(
        uppercase_of(method),
        path,
        decimal(timestamp_ms),
        lower_hex(nonce_bytes),
        sha256_label(sha256_of(body_bytes(body))),
    )
}

/// A device id in its shape: "gx_dev_" and sixteen lowercase hex digits.
pub open spec fn well_shaped_device_id(id: Seq<char>) -> bool {
    &&& id.len() == 23
    &&& id.subrange(0, 7) == "gx_dev_"@
    &&& forall|i: int| 7 <= i < 23 ==> is_hex_digit(#[trigger] id[i])
}

/// Two strings split at a first newline are equal only when both parts are.
proof fn lemma_newline_split(a: Seq<char>, ra: Seq<char>, b: Seq<char>, rb: Seq<char>)
    requires
        !a.contains('\n'),
        !b.contains('\n'),
        a + (seq!['\n'] + ra) == b + (seq!['\n'] + rb),
    ensures
        a == b,
        ra == rb,
{
    let s = a + (seq!['\n'] + ra);
    if a.len() < b.len() {
        assert(s[a.len() as int] == '\n');
        assert(s[a.len() as int] == b[a.len() as int]);
        assert(b.contains('\n'));
    } else if b.len() < a.len() {
        assert(s[b.len() as int] == '\n');
        assert(s[b.len() as int] == a[b.len() as int]);
        assert(a.contains('\n'));
    }
    assert(a =~= s.subrange(0, a.len() as int));
    assert(b =~= s.subrange(0, b.len() as int));
    assert(ra =~= s.subrange((a.len() + 1) as int, s.len() as int));
    assert(rb =~= s.subrange((b.len() + 1) as int, s.len() as int));
}

/// The canonical string determines method, path and body digest, given the
/// same timestamp and nonce and no newline inside method or path.
proof fn lemma_canonical_request_split(
    m1: Seq<char>,
    p1: Seq<char>,
    d1: Seq<char>,
    m2: Seq<char>,
    p2: Seq<char>,
    d2: Seq<char>,
    t: Seq<char>,
    n: Seq<char>,
)
    requires
        !m1.contains('\n'),
        !m2.contains('\n'),
        !p1.contains('\n'),
        !p2.contains('\n'),
        canonical_request(m1, p1, t, n, d1) == canonical_request(m2, p2, t, n, d2),
    ensures
        m1 == m2,
        p1 == p2,
        d1 == d2,
{
    let nl = seq!['\n'];
    let rest1 = t + nl + n + nl + d1;
    let rest2 = t + nl + n + nl + d2;
    assert(canonical_request(m1, p1, t, n, d1) =~= m1 + (nl + (p1 + (nl + rest1))));
    assert(canonical_request(m2, p2, t, n, d2) =~= m2 + (nl + (p2 + (nl + rest2))));
    lemma_newline_split(m1, p1 + (nl + rest1), m2, p2 + (nl + rest2));
    lemma_newline_split(p1, rest1, p2, rest2);
    let k = (t.len() + 1 + n.len() + 1) as int;
    assert(d1 =~= rest1.subrange(k, rest1.len() as int));
    assert(d2 =~= rest2.subrange(k, rest2.len() as int));
}

/// The seal binds the request: sealed with the same key, time and nonce, two
/// requests that differ in method (as uppercased), path or body bytes get
/// different signatures, provided neither method nor path holds a newline and
/// neither SHA-256 (on the bodies) nor HMAC-SHA256 (on the signed strings)
/// collides. The newline condition is taken on the uppercased methods; for a
/// method without a newline, `seal_request` and `sign_request` ensure that its
/// uppercase form has none either.
pub proof fn law_signature_binds_request(
    keys: DeviceKeysView,
    method1: Seq<char>,
    path1: Seq<char>,
    body1: Option<&str>,
    method2: Seq<char>,
    path2: Seq<char>,
    body2: Option<&str>,
    timestamp_ms: nat,
    nonce_bytes: Seq<u8>,
)
    requires
        !uppercase_of(method1).contains('\n'),
        !uppercase_of(method2).contains('\n'),
        !path1.contains('\n'),
        !path2.contains('\n'),
        (uppercase_of(method1), path1, body_bytes(body1)) != (uppercase_of(method2), path2, body_bytes(
            body2,
        )),
        sha256_of(body_bytes(body1)) == sha256_of(body_bytes(body2)) ==> body_bytes(body1)
            == body_bytes(body2),
        hmac_sha256_of(
            keys.key,
            encode_utf8(signed_string(method1, path1, body1, timestamp_ms, nonce_bytes)),
        ) == hmac_sha256_of(
            keys.key,
            encode_utf8(signed_string(method2, path2, body2, timestamp_ms, nonce_bytes)),
        ) ==> encode_utf8(signed_string(method1, path1, body1, timestamp_ms, nonce_bytes))
            == encode_utf8(signed_string(method2, path2, body2, timestamp_ms, nonce_bytes)),
    ensures
        seal_of(keys, method1, path1, body1, timestamp_ms, nonce_bytes).signature != seal_of(
            keys,
            method2,
            path2,
            body2,
            timestamp_ms,
            nonce_bytes,
        ).signature,
{
    let s1 = signed_string(method1, path1, body1, timestamp_ms, nonce_bytes);
    let s2 = signed_string(method2, path2, body2, timestamp_ms, nonce_bytes);
    if seal_of(keys, method1, path1, body1, timestamp_ms, nonce_bytes).signature == seal_of(
        keys,
        method2,
        path2,
        body2,
        timestamp_ms,
        nonce_bytes,
    ).signature {
        lemma_lower_hex_injective(
            hmac_sha256_of(keys.key, encode_utf8(s1)),
            hmac_sha256_of(keys.key, encode_utf8(s2)),
        );
        encode_utf8_decode_utf8(s1);
        encode_utf8_decode_utf8(s2);
        lemma_canonical_request_split(
            uppercase_of(method1),
            path1,
            sha256_label(sha256_of(body_bytes(body1))),
            uppercase_of(method2),
            path2,
            sha256_label(sha256_of(body_bytes(body2))),
            decimal(timestamp_ms),
            lower_hex(nonce_bytes),
        );
        lemma_sha256_label_injective(sha256_of(body_bytes(body1)), sha256_of(body_bytes(body2)));
    }
}

/// Derives the device id and signing key from a secret seed.
pub fn derive_device_keys(seed: &[u8]) -> (r: DeviceKeys)
    ensures
        r@.device_id == device_id_of(seed@),
        r@.key == signing_key_of(seed@),
        well_shaped_device_id(r@.device_id),
        r@.key.len() == 32,
{
    let mut id_input = slice_to_vec("graphite-workstation-device-id:".as_bytes());
    let mut seed_copy = slice_to_vec(seed);
    id_input.append(&mut seed_copy);
    let id_hash = hex_encode(sha256(id_input.as_slice()).as_slice());
    proof {
        lemma_lower_hex_len(sha256_of(id_input@));
        reveal_strlit("gx_dev_");
    }
    let device_id = concat_str("gx_dev_", id_hash.as_str().substring_char(0, 16));
    proof {
        lemma_lower_hex_digits(sha256_of(id_input@));
        assert(device_id@.subrange(0, 7) =~= "gx_dev_"@);
        assert forall|i: int| 7 <= i < 23 implies is_hex_digit(#[trigger] device_id@[i]) by {
            assert(device_id@[i] == id_hash@[i - 7]);
        }
    }

    let mut key_input = slice_to_vec("graphite-workstation-signing-key-v1:".as_bytes());
    let mut seed_copy = slice_to_vec(seed);
    key_input.append(&mut seed_copy);
    let key = sha256(key_input.as_slice());
    DeviceKeys { device_id, key }
}

/// Generates the device's keys from 32 bytes of fresh operating-system
/// randomness; the seed is wiped once the keys are derived.
pub fn generate_device_keys() -> (r: Result<DeviceKeys, String>)
    ensures
        r matches Ok(keys) ==> exists|seed: Seq<u8>|
            seed.len() == 32 && keys@.device_id == device_id_of(seed) && keys@.key
                == #[trigger] signing_key_of(seed),
        r matches Ok(keys) ==> well_shaped_device_id(keys@.device_id) && keys@.key.len() == 32,
        r matches Err(msg) ==> exists|e: Seq<char>| msg@ == "Random generator error: "@ + e,
{
    let mut seed: Vec<u8> = vec![0u8; 32];
    match fill_random(&mut seed) {
        Ok(()) => {},
        Err(e) => {
            return Err(concat_str("Random generator error: ", e.as_str()));
        },
    }
    let keys = derive_device_keys(seed.as_slice());
    let ghost used = seed@;
    wipe(&mut seed);
    assert(signing_key_of(used) == keys@.key);
    Ok(keys)
}

/// The labelled SHA-256 digest of a request body ("sha256:" and hex); a
/// request without a body is digested as the empty byte string.
pub fn body_digest(body: Option<&str>) -> (r: String)
    ensures
        r@ == sha256_label(sha256_of(body_bytes(body))),
{
    let bytes: Vec<u8> = match body {
        Some(payload) => slice_to_vec(payload.as_bytes()),
        None => Vec::new(),
    };
    assert(bytes@ =~= body_bytes(body));
    digest_label(sha256(bytes.as_slice()).as_slice())
}

/// Joins the parts of a request into the canonical string that is signed.
pub fn string_to_sign(method: &str, path: &str, timestamp: &str, nonce: &str, body_digest: &str) -> (r:
    String)
    ensures
        r@ == canonical_request(method@, path@, timestamp@, nonce@, body_digest@),
{
    proof {
        reveal_strlit("\n");
    }
    let mut r = concat_str(method, "\n");
    r.append(path);
    r.append("\n");
    r.append(timestamp);
    r.append("\n");
    r.append(nonce);
    r.append("\n");
    r.append(body_digest);
    r
}

/// Seals a request with `keys` at `timestamp_ms` (milliseconds since the Unix
/// epoch), using `nonce_bytes` as the replay nonce.
pub fn seal_request(
    keys: &DeviceKeys,
    method: &str,
    path: &str,
    body: Option<&str>,
    timestamp_ms: u128,
    nonce_bytes: &[u8],
) -> (r: Result<DeviceSealHeaders, String>)
    ensures
        r matches Ok(h) && h@ == seal_of(
            keys@,
            method@,
            path@,
            body,
            timestamp_ms as nat,
            nonce_bytes@,
        ),
        r matches Ok(h) ==> h@.signature.len() == 64,
        r matches Ok(h) ==> (!method@.contains('\n') ==> !uppercase_of(method@).contains('\n')),
{
    let timestamp = u128_to_decimal(timestamp_ms);
    let nonce = hex_encode(nonce_bytes);
    let digest = body_digest(body);
    let method_upper = to_uppercase(method);
    let signed = string_to_sign(
        method_upper.as_str(),
        path,
        timestamp.as_str(),
        nonce.as_str(),
        digest.as_str(),
    );
    let tag = match hmac_sha256(keys.key.as_slice(), signed.as_str().as_bytes()) {
        Ok(tag) => tag,
        Err(e) => {
            return Err(concat_str("HMAC initialization failed: ", e.as_str()));
        },
    };
    let signature = hex_encode(tag.as_slice());
    proof {
        lemma_lower_hex_len(tag@);
    }
    Ok(
        DeviceSealHeaders {
            device_id: keys.device_id.clone(),
            timestamp,
            nonce,
            body_digest: digest,
            signature,
        },
    )
}

/// Signs an outbound HTTP mutation request with the workstation's device seal,
/// stamped with the current time and a fresh 16-byte random nonce.
///
/// The headers returned must be attached to the request. The call fails when
/// the clock stands before the Unix epoch or the operating system's random
/// generator fails.
pub fn sign_request(keys: &DeviceKeys, method: &str, path: &str, body: Option<&str>) -> (r: Result<
    DeviceSealHeaders,
    String,
>)
    ensures
        r matches Ok(h) ==> exists|timestamp_ms: u128, nonce_bytes: Seq<u8>|
            nonce_bytes.len() == 16 && h@ == #[trigger] seal_of(
                keys@,
                method@,
                path@,
                body,
                timestamp_ms as nat,
                nonce_bytes,
            ),
        r matches Ok(h) ==> h@.device_id == keys@.device_id && h@.nonce.len() == 32
            && h@.signature.len() == 64,
        r matches Ok(h) ==> (!method@.contains('\n') ==> !uppercase_of(method@).contains('\n')),
        r matches Err(msg) ==> (exists|e: Seq<char>| msg@ == "System time error: "@ + e) || (exists|
            e: Seq<char>,
        | msg@ == "Random generator error: "@ + e),
{
    let timestamp_ms = match unix_time_millis() {
        Ok(ms) => ms,
        Err(e) => {
            return Err(concat_str("System time error: ", e.as_str()));
        },
    };
    let mut nonce_bytes: Vec<u8> = vec![0u8; 16];
    match fill_random(&mut nonce_bytes) {
        Ok(()) => {},
        Err(e) => {
            return Err(concat_str("Random generator error: ", e.as_str()));
        },
    }
    let r = seal_request(keys, method, path, body, timestamp_ms, nonce_bytes.as_slice());
    proof {
        lemma_lower_hex_len(nonce_bytes@);
    }
    r
}

} // verus!
