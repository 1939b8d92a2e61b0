//! Hashing, message authentication and hexadecimal encoding.

use vstd::prelude::*;

use hmac::{Hmac, Mac};
use sha2::{Digest, Sha256};

use crate::text::concat_str;

verus! {

/// The sixteen lowercase hexadecimal digits, in order of value.
pub open spec fn hex_digits() -> Seq<char> {
    seq!['0', '1', '2', '3', '4', '5', '6', '7', '8', '9', 'a', 'b', 'c', 'd', 'e', 'f']
}

/// The lowercase hexadecimal digit for a value 0 through 15.
pub open spec fn hex_char(n: int) -> char {
    hex_digits()[n]
}

/// Whether a character is a lowercase hexadecimal digit.
pub open spec fn is_hex_digit(c: char) -> bool {
    hex_digits().contains(c)
}

/// Lowercase hexadecimal encoding: each byte becomes two characters, the high
/// nibble first.
pub open spec fn lower_hex(bytes: Seq<u8>) -> Seq<char>
    decreases bytes.len(),
{
    if bytes.len() == 0 {
        Seq::empty()
    } else {
        lower_hex(bytes.drop_last()) + seq![
            hex_char((bytes.last() / 16) as int),
            hex_char((bytes.last() % 16) as int),
        ]
    }
}

/// The hex encoding is twice as long as its input.
pub proof fn lemma_lower_hex_len(bytes: Seq<u8>)
    ensures
        lower_hex(bytes).len() == 2 * bytes.len(),
    decreases bytes.len(),
{
    if bytes.len() > 0 {
        lemma_lower_hex_len(bytes.drop_last());
    }
}

/// Every character of a hex encoding is a lowercase hexadecimal digit.
pub proof fn lemma_lower_hex_digits(bytes: Seq<u8>)
    ensures
        forall|i: int| 0 <= i < lower_hex(bytes).len() ==> is_hex_digit(#[trigger] lower_hex(bytes)[i]),
    decreases bytes.len(),
{
    if bytes.len() > 0 {
        let init = bytes.drop_last();
        lemma_lower_hex_digits(init);
        let hi = (bytes.last() / 16) as int;
        let lo = (bytes.last() % 16) as int;
        assert(hex_digits()[hi] == hex_char(hi));
        assert(hex_digits()[lo] == hex_char(lo));
        assert forall|i: int| 0 <= i < lower_hex(bytes).len() implies is_hex_digit(
            #[trigger] lower_hex(bytes)[i],
        ) by {
            if i < lower_hex(init).len() {
                assert(lower_hex(bytes)[i] == lower_hex(init)[i]);
            } else if i == lower_hex(init).len() {
                assert(lower_hex(bytes)[i] == hex_char(hi));
            } else {
                assert(lower_hex(bytes)[i] == hex_char(lo));
            }
        }
    }
}

/// Distinct values 0 through 15 have distinct hex digits.
proof fn lemma_hex_char_injective(x: int, y: int)
    requires
        0 <= x < 16,
        0 <= y < 16,
        hex_char(x) == hex_char(y),
    ensures
        x == y,
{
}

/// The hex encoding is injective: different byte strings encode differently.
pub proof fn lemma_lower_hex_injective(a: Seq<u8>, b: Seq<u8>)
    requires
        lower_hex(a) == lower_hex(b),
    ensures
        a == b,
    decreases a.len(),
{
    lemma_lower_hex_len(a);
    lemma_lower_hex_len(b);
    if a.len() > 0 {
        let ha = lower_hex(a);
        let n = lower_hex(a.drop_last()).len();
        lemma_lower_hex_len(a.drop_last());
        lemma_lower_hex_len(b.drop_last());
        assert(lower_hex(a.drop_last()) =~= ha.subrange(0, n as int));
        assert(lower_hex(b.drop_last()) =~= ha.subrange(0, n as int));
        lemma_lower_hex_injective(a.drop_last(), b.drop_last());
        assert(ha[n as int] == hex_char((a.last() / 16) as int));
        assert(ha[n as int] == hex_char((b.last() / 16) as int));
        assert(ha[(n + 1) as int] == hex_char((a.last() % 16) as int));
        assert(ha[(n + 1) as int] == hex_char((b.last() % 16) as int));
        lemma_hex_char_injective((a.last() / 16) as int, (b.last() / 16) as int);
        lemma_hex_char_injective((a.last() % 16) as int, (b.last() % 16) as int);
        assert(a.last() == b.last());
        assert(a =~= a.drop_last().push(a.last()));
        assert(b =~= b.drop_last().push(b.last()));
    }
}

/// The labelled form is injective: different digests label differently.
pub proof fn lemma_sha256_label_injective(a: Seq<u8>, b: Seq<u8>)
    requires
        sha256_label(a) == sha256_label(b),
    ensures
        a == b,
{
    let p = "sha256:"@;
    assert(lower_hex(a) =~= sha256_label(a).subrange(p.len() as int, sha256_label(a).len() as int));
    assert(lower_hex(b) =~= sha256_label(b).subrange(p.len() as int, sha256_label(b).len() as int));
    lemma_lower_hex_injective(a, b);
}

/// The SHA-256 digest of a byte string.
pub uninterp spec fn sha256_of(data: Seq<u8>) -> Seq<u8>;

/// The HMAC-SHA256 tag of `msg` under `key`.
pub uninterp spec fn hmac_sha256_of(key: Seq<u8>, msg: Seq<u8>) -> Seq<u8>;

/// Calls `sha2::Sha256::digest`. Trusted: the result is the SHA-256 digest of
/// `data` (a function of the input alone) and, as SHA-256 fixes, 32 bytes long.
#[verifier::external_body]
pub(crate) fn sha256(data: &[u8]) -> (r: Vec<u8>)
    ensures
        r@ == sha256_of(data@),
        r@.len() == 32,
{
    Sha256::digest(data).to_vec()
}

/// Calls `Hmac::<Sha256>::new_from_slice`, `update` and `finalize`. Trusted:
/// key setup never fails in `hmac` 0.12 (keys of any length are accepted, long
/// ones are hashed first), and the tag is the HMAC-SHA256 of `msg` under `key`,
/// 32 bytes long. The error, were there one, is carried as its message.
#[verifier::external_body]
pub(crate) fn hmac_sha256(key: &[u8], msg: &[u8]) -> (r: Result<Vec<u8>, String>)
    ensures
        r is Ok,
        r matches Ok(tag) ==> tag@ == hmac_sha256_of(key@, msg@) && tag@.len() == 32,
{
    match Hmac::<Sha256>::new_from_slice(key) {
        Ok(mut mac) => {
            mac.update(msg);
            Ok(mac.finalize().into_bytes().to_vec())
        },
        Err(e) => Err(e.to_string()),
    }
}

/// Calls `hex::encode`. Trusted: the result is the lowercase hexadecimal
/// encoding of `data`, high nibble first, as `hex`'s lowercase table gives.
#[verifier::external_body]
pub(crate) fn hex_encode(data: &[u8]) -> (r: String)
    ensures
        r@ == lower_hex(data@),
{
    hex::encode(data)
}

/// The labelled form of a SHA-256 digest: "sha256:" followed by its hex encoding.
pub open spec fn sha256_label(digest: Seq<u8>) -> Seq<char> {
    "sha256:"@ + lower_hex(digest)
}

/// Renders a digest in its labelled form, "sha256:" and lowercase hex.
pub fn digest_label(digest: &[u8]) -> (r: String)
    ensures
        r@ == sha256_label(digest@),
        r@.len() == 7 + 2 * digest@.len(),
{
    let h = hex_encode(digest);
    proof {
        reveal_strlit("sha256:");
        lemma_lower_hex_len(digest@);
    }
    concat_str("sha256:", h.as_str())
}

/// The `n` low-order bytes of `x`, least significant first.
pub open spec fn le_bytes(x: nat, n: nat) -> Seq<u8>
    decreases n,
{
    if n == 0 {
        Seq::empty()
    } else {
        seq![(x % 256) as u8] + le_bytes(x / 256, (n - 1) as nat)
    }
}

/// 256 to the power `n`.
pub open spec fn pow256(n: nat) -> nat
    decreases n,
{
    if n == 0 {
        1
    } else {
        256 * pow256((n - 1) as nat)
    }
}

/// Below `256^n`, the `n`-byte little-endian encoding is injective.
pub proof fn lemma_le_bytes_injective(x: nat, y: nat, n: nat)
    requires
        x < pow256(n),
        y < pow256(n),
        le_bytes(x, n) == le_bytes(y, n),
    ensures
        x == y,
    decreases n,
{
    if n > 0 {
        let p = pow256((n - 1) as nat);
        assert(le_bytes(x, n)[0] == (x % 256) as u8);
        assert(le_bytes(y, n)[0] == (y % 256) as u8);
        assert(le_bytes(x / 256, (n - 1) as nat) =~= le_bytes(x, n).subrange(1, n as int)) by {
            lemma_le_bytes_len(x / 256, (n - 1) as nat);
        }
        assert(le_bytes(y / 256, (n - 1) as nat) =~= le_bytes(y, n).subrange(1, n as int)) by {
            lemma_le_bytes_len(y / 256, (n - 1) as nat);
        }
        assert(x / 256 < p) by (nonlinear_arith)
            requires
                x < 256 * p,
        ;
        assert(y / 256 < p) by (nonlinear_arith)
            requires
                y < 256 * p,
        ;
        lemma_le_bytes_injective(x / 256, y / 256, (n - 1) as nat);
    }
}

/// The `n`-byte encoding has `n` bytes.
pub proof fn lemma_le_bytes_len(x: nat, n: nat)
    ensures
        le_bytes(x, n).len() == n,
    decreases n,
{
    if n > 0 {
        lemma_le_bytes_len(x / 256, (n - 1) as nat);
    }
}

/// `256^8` is `2^64`.
pub proof fn lemma_pow256_8()
    ensures
        pow256(8) == 0x1_0000_0000_0000_0000,
{
    reveal_with_fuel(pow256, 9);
}

/// The eight-byte little-endian encoding of an unsigned 64-bit integer, as
/// `u64::to_le_bytes` gives it.
pub open spec fn u64_le_bytes(x: u64) -> Seq<u8> {
    le_bytes(x as nat, 8)
}

/// The eight-byte little-endian encoding of a signed 64-bit integer (two's
/// complement), as `i64::to_le_bytes` gives it.
pub open spec fn i64_le_bytes(x: i64) -> Seq<u8> {
    u64_le_bytes(x as u64)
}

/// The encoding of signed integers is injective.
pub proof fn lemma_i64_le_bytes_injective(x: i64, y: i64)
    requires
        i64_le_bytes(x) == i64_le_bytes(y),
    ensures
        x == y,
{
    lemma_pow256_8();
    lemma_le_bytes_injective((x as u64) as nat, (y as u64) as nat, 8);
    assert((x as u64) == (y as u64) ==> x == y) by (bit_vector);
}

/// Encodes an unsigned 64-bit integer as eight little-endian bytes.
pub fn u64_to_le_bytes(x: u64) -> (r: Vec<u8>)
    ensures
        r@ == u64_le_bytes(x),
        r@.len() == 8,
{
    let mut v: u64 = x;
    let mut out: Vec<u8> = Vec::new();
    let mut i: usize = 0;
    while i < 8
        invariant
            i <= 8,
            out@ + le_bytes(v as nat, (8 - i) as nat) == u64_le_bytes(x),
            out@.len() == i,
        decreases 8 - i,
    {
        let b: u8 = (v % 256) as u8;
        proof {
            assert(le_bytes(v as nat, (8 - i) as nat) == seq![b] + le_bytes(
                (v / 256) as nat,
                (8 - i - 1) as nat,
            ));
            assert(out@.push(b) + le_bytes((v / 256) as nat, (8 - i - 1) as nat) =~= out@ + (
            seq![b] + le_bytes((v / 256) as nat, (8 - i - 1) as nat)));
        }
        out.push(b);
        v = v / 256;
        i = i + 1;
    }
    proof {
        assert(le_bytes(v as nat, 0) =~= Seq::<u8>::empty());
        assert(out@ + Seq::<u8>::empty() =~= out@);
    }
    out
}

/// Encodes a signed 64-bit integer as eight little-endian bytes.
pub fn i64_to_le_bytes(x: i64) -> (r: Vec<u8>)
    ensures
        r@ == i64_le_bytes(x),
        r@.len() == 8,
{
    u64_to_le_bytes(x as u64)
}

} // verus!
