//! Password hashing, constant-time comparison of digests, and the random
//! material (passwords, reset codes, signing keys) the plugin generates.

use sha2::Digest;
use vstd::prelude::*;
use crate::hex::{hex_encode, nibble_char};

verus! {

broadcast use vstd::string::group_string_axioms;

/// The SHA-256 digest of a byte string.
pub uninterp spec fn spec_sha256(data: Seq<u8>) -> Seq<u8>;

/// Hashes `data` with SHA-256 (the `sha2` crate's `Sha256`); the digest is
/// the named function `spec_sha256` of the input, 32 bytes long.
#[verifier::external_body]
pub(crate) fn sha256(data: &[u8]) -> (res: [u8; 32])
    ensures
        res@ == spec_sha256(data@),
{
    let mut hasher = sha2::Sha256::new();
    hasher.update(data);
    hasher.finalize().into()
}

/// Compares two digests without stopping at the first difference: every
/// byte pair is XOR-ed into an accumulator that is zero only if all pairs
/// were equal.
pub fn constant_time_eq(a: &[u8; 32], b: &[u8; 32]) -> (res: bool)
    ensures
        res == (a@ == b@),
{
    let mut result: u8 = 0;
    let mut i: usize = 0;
    while i < 32
        invariant
            a@.len() == 32,
            b@.len() == 32,
            i <= 32,
            (result == 0) <==> (forall|j: int| 0 <= j < i ==> a@[j] == b@[j]),
        decreases 32 - i,
    {
        let x = a[i];
        let y = b[i];
        let acc = result;
        assert((acc | (x ^ y)) == 0 <==> (acc == 0 && x == y)) by (bit_vector);
        result = result | (x ^ y);
        i = i + 1;
    }
    proof {
        if result == 0 {
            assert(a@ =~= b@);
        }
    }
    result == 0
}

/// The 16 bytes of a fresh random (version 4) UUID. Nothing is stated of
/// the bytes but the version and variant bits that `Uuid::new_v4` fixes.
#[verifier::external_body]
fn uuid_v4_bytes() -> (res: [u8; 16])
    ensures
        res@[6] / 16 == 4,
        res@[8] / 64 == 2,
{
    *uuid::Uuid::new_v4().as_bytes()
}

/// The `simple` text form of the UUID with bytes `bytes`
/// (`Uuid::from_bytes(..).simple().to_string()`): its 16 bytes in lower-case
/// hex, two digits per byte, high nibble first.
#[verifier::external_body]
fn uuid_simple_text(bytes: &[u8; 16]) -> (res: String)
    ensures
        res@ == hex_encode(bytes@),
{
    uuid::Uuid::from_bytes(*bytes).simple().to_string()
}

/// A lower-case hex digit.
pub open spec fn is_lower_hex_char(c: char) -> bool {
    ('0' <= c <= '9') || ('a' <= c <= 'f')
}

proof fn lemma_hex_encode_lower(b: Seq<u8>)
    ensures
        forall|k: int| 0 <= k < 2 * b.len() ==> #[trigger] is_lower_hex_char(hex_encode(b)[k]),
        hex_encode(b).len() == 2 * b.len(),
        vstd::utf8::is_ascii_chars(hex_encode(b)),
{
    assert forall|k: int| 0 <= k < 2 * b.len() implies #[trigger] is_lower_hex_char(hex_encode(b)[k]) by {
        let x = b[k / 2];
        lemma_nibble_lower((x / 16) as int);
        lemma_nibble_lower((x % 16) as int);
    }
    assert forall|k: int| 0 <= k < hex_encode(b).len() implies '\0' <= #[trigger] hex_encode(b)[k] <= '\u{7f}' by {
        let x = b[k / 2];
        lemma_nibble_lower((x / 16) as int);
        lemma_nibble_lower((x % 16) as int);
    }
}

proof fn lemma_nibble_lower(v: int)
    requires
        0 <= v < 16,
    ensures
        is_lower_hex_char(nibble_char(v)),
{
}

/// A random password of `len` lower-case hex digits, cut from the text of
/// as many random UUIDs as it takes.
pub fn generate_password(len: usize) -> (res: String)
    requires
        len <= usize::MAX - 32,
    ensures
        res@.len() == len,
        forall|k: int| 0 <= k < len ==> #[trigger] is_lower_hex_char(res@[k]),
{
    let mut hex = String::new();
    while hex.as_str().len() < len
        invariant
            len <= usize::MAX - 32,
            hex@.len() < len + 32,
            vstd::utf8::is_ascii_chars(hex@),
            forall|k: int| 0 <= k < hex@.len() ==> #[trigger] is_lower_hex_char(hex@[k]),
        decreases len + 32 - hex@.len(),
    {
        proof {
            vstd::utf8::is_ascii_chars_encode_utf8(hex@);
        }
        let bytes = uuid_v4_bytes();
        let part = uuid_simple_text(&bytes);
        proof {
            lemma_hex_encode_lower(bytes@);
        }
        let ghost before = hex@;
        hex.append(part.as_str());
        proof {
            assert forall|k: int| 0 <= k < hex@.len() implies #[trigger] is_lower_hex_char(hex@[k]) by {
                if k >= before.len() {
                    assert(hex@[k] == part@[k - before.len()]);
                } else {
                    assert(hex@[k] == before[k]);
                }
            }
            assert forall|k: int| 0 <= k < hex@.len() implies '\0' <= #[trigger] hex@[k] <= '\u{7f}' by {
                if k >= before.len() {
                    assert(hex@[k] == part@[k - before.len()]);
                } else {
                    assert(hex@[k] == before[k]);
                }
            }
        }
    }
    proof {
        vstd::utf8::is_ascii_chars_encode_utf8(hex@);
    }
    let res = hex.as_str().substring_ascii(0, len).to_string();
    res
}

/// `len` random bytes, taken from as many random UUIDs as it takes.
pub fn generate_random_bytes(len: usize) -> (res: Vec<u8>)
    requires
        len <= usize::MAX - 16,
    ensures
        res@.len() == len,
{
    let mut bytes: Vec<u8> = Vec::new();
    while bytes.len() < len
        invariant
            len <= usize::MAX - 16,
            bytes@.len() < len + 16,
        decreases len + 16 - bytes@.len(),
    {
        let uuid = uuid_v4_bytes();
        let ghost start = bytes@.len();
        let mut i: usize = 0;
        while i < 16
            invariant
                i <= 16,
                bytes@.len() == start + i,
                start < len,
                len <= usize::MAX - 16,
            decreases 16 - i,
        {
            bytes.push(uuid[i]);
            i = i + 1;
        }
    }
    bytes.truncate(len);
    bytes
}

} // verus!
