//! Lower-case hex encoding of byte strings and decoding of the 64-digit
//! hex strings that hold the stored 32-byte secrets.

use vstd::prelude::*;
use vstd::string::StringSliceAdditionalSpecFns;
use vstd::utf8::*;

verus! {

broadcast use vstd::string::group_string_axioms;

/// The sixteen digits used by the encoder, in order of value.
pub open spec fn nibble_char(v: int) -> char {
    if v < 10 {
        (v + 48) as char
    } else {
        (v + 87) as char
    }
}

/// Lower-case hex text of `bytes`: two digits per byte, high nibble first.
pub open spec fn hex_encode(bytes: Seq<u8>) -> Seq<char> {
    Seq::new(
        2 * bytes.len(),
        |k: int|
            if k % 2 == 0 {
                nibble_char((bytes[k / 2] / 16) as int)
            } else {
                nibble_char((bytes[k / 2] % 16) as int)
            },
    )
}

/// The digit table used by the encoder lists `nibble_char` in order.
proof fn lemma_digit_table()
    ensures
        "0123456789abcdef"@.len() == 16,
        forall|v: int| 0 <= v < 16 ==> #[trigger] "0123456789abcdef"@[v] == nibble_char(v),
{
    reveal_strlit("0123456789abcdef");
    assert(nibble_char(0) == '0');
    assert(nibble_char(1) == '1');
    assert(nibble_char(2) == '2');
    assert(nibble_char(3) == '3');
    assert(nibble_char(4) == '4');
    assert(nibble_char(5) == '5');
    assert(nibble_char(6) == '6');
    assert(nibble_char(7) == '7');
    assert(nibble_char(8) == '8');
    assert(nibble_char(9) == '9');
    assert(nibble_char(10) == 'a');
    assert(nibble_char(11) == 'b');
    assert(nibble_char(12) == 'c');
    assert(nibble_char(13) == 'd');
    assert(nibble_char(14) == 'e');
    assert(nibble_char(15) == 'f');
}

/// Encodes `bytes` as lower-case hex, two digits per byte.
pub fn bytes_to_hex(bytes: &[u8]) -> (res: String)
    requires
        2 * bytes@.len() <= usize::MAX,
    ensures
        res@ == hex_encode(bytes@),
{
    let digits = "0123456789abcdef";
    proof {
        reveal_strlit("0123456789abcdef");
        lemma_digit_table();
    }
    let mut res = String::new();
    let n = bytes.len();
    let mut i: usize = 0;
    while i < n
        invariant
            n == bytes@.len(),
            i <= n,
            digits@ == "0123456789abcdef"@,
            digits.is_ascii(),
            digits@.len() == 16,
            forall|v: int| 0 <= v < 16 ==> #[trigger] digits@[v] == nibble_char(v),
            res@ == hex_encode(bytes@.subrange(0, i as int)),
        decreases n - i,
    {
        let b = bytes[i];
        let hi: usize = (b / 16) as usize;
        let lo: usize = (b % 16) as usize;
        let ghost before = res@;
        res.append(digits.substring_ascii(hi, hi + 1));
        res.append(digits.substring_ascii(lo, lo + 1));
        proof {
            assert(digits@[hi as int] == nibble_char(hi as int));
            assert(digits@[lo as int] == nibble_char(lo as int));
            let next = bytes@.subrange(0, i + 1);
            assert(res@ =~= hex_encode(next));
        }
        i = i + 1;
    }
    proof {
        assert(bytes@.subrange(0, n as int) =~= bytes@);
    }
    res
}

/// Why a stored hex secret could not be decoded.
#[derive(Debug, Clone, Copy, PartialEq, Eq)]
pub enum HexError {
    /// The text is not 64 bytes long; `got` is its length in bytes.
    WrongLength { got: usize },
    /// The two bytes that should encode byte `at` are not a hex number.
    InvalidDigit { at: usize },
}

/// A byte that reads as a digit of base 16 (either letter case).
pub open spec fn is_hex_digit(b: u8) -> bool {
    (48 <= b <= 57) || (97 <= b <= 102) || (65 <= b <= 70)
}

/// The value of a hex digit byte.
pub open spec fn hex_digit_value(b: u8) -> int {
    if b <= 57 {
        b - 48
    } else if b >= 97 {
        b - 87
    } else {
        b - 55
    }
}

/// Two bytes that are both hex digits.
pub open spec fn hex_pair_ok(b0: u8, b1: u8) -> bool {
    is_hex_digit(b0) && is_hex_digit(b1)
}

/// The number that two hex digits denote, high digit first.
pub open spec fn hex_pair_value(b0: u8, b1: u8) -> int {
    16 * hex_digit_value(b0) + hex_digit_value(b1)
}

/// The byte pairs of the first `n` output bytes are all hex digits. (A
/// hex digit is an ASCII byte, so no byte of a multi-byte character is one.)
pub open spec fn hex_prefix_ok(s: Seq<char>, n: int) -> bool {
    forall|j: int|
        0 <= j < n ==> #[trigger] hex_pair_ok(encode_utf8(s)[2 * j], encode_utf8(s)[2 * j + 1])
}

/// The 32 bytes that a 64-digit hex text denotes.
pub open spec fn hex_decoded(s: Seq<char>) -> Seq<u8> {
    Seq::new(
        32,
        |i: int| hex_pair_value(encode_utf8(s)[2 * i], encode_utf8(s)[2 * i + 1]) as u8,
    )
}

fn hex_digit(b: u8) -> (r: Option<u8>)
    ensures
        r is Some <==> is_hex_digit(b),
        r matches Some(v) ==> v == hex_digit_value(b) && v < 16,
{
    if 48 <= b && b <= 57 {
        Some(b - 48)
    } else if 97 <= b && b <= 102 {
        Some(b - 87)
    } else if 65 <= b && b <= 70 {
        Some(b - 55)
    } else {
        None
    }
}

fn hex_pair(b0: u8, b1: u8) -> (r: Option<u8>)
    ensures
        r is Some <==> hex_pair_ok(b0, b1),
        r matches Some(v) ==> v == hex_pair_value(b0, b1),
{
    let hi = match hex_digit(b0) {
        Some(v) => v,
        None => return None,
    };
    match hex_digit(b1) {
        Some(lo) => Some(hi * 16 + lo),
        None => None,
    }
}

/// Decodes the hex text of a 32-byte secret: exactly 64 hex digits (either
/// letter case), two per byte, high digit first. Text of another length in
/// bytes is refused with that length; otherwise the first byte whose two
/// digits are not both hex digits is reported.
pub fn hex_to_bytes(hex: &str) -> (res: Result<[u8; 32], HexError>)
    ensures
        (encode_utf8(hex@).len() != 64) <==> res == Err::<[u8; 32], HexError>(
            HexError::WrongLength { got: encode_utf8(hex@).len() as usize },
        ),
        res is Ok <==> encode_utf8(hex@).len() == 64 && hex_prefix_ok(hex@, 32),
        res matches Err(HexError::WrongLength { got }) ==> encode_utf8(hex@).len() != 64 && got
            == encode_utf8(hex@).len(),
        res matches Ok(a) ==> a@ == hex_decoded(hex@),
        res matches Err(HexError::InvalidDigit { at }) ==> {
            &&& encode_utf8(hex@).len() == 64
            &&& at < 32
            &&& hex_prefix_ok(hex@, at as int)
            &&& !hex_pair_ok(encode_utf8(hex@)[2 * at], encode_utf8(hex@)[2 * at + 1])
        },
{
    let bytes = hex.as_bytes();
    if bytes.len() != 64 {
        return Err(HexError::WrongLength { got: bytes.len() });
    }
    let mut arr = [0u8; 32];
    let mut i: usize = 0;
    while i < 32
        invariant
            bytes@ == encode_utf8(hex@),
            bytes@.len() == 64,
            i <= 32,
            hex_prefix_ok(hex@, i as int),
            forall|j: int| 0 <= j < i ==> #[trigger] arr@[j] == hex_decoded(hex@)[j],
        decreases 32 - i,
    {
        match hex_pair(bytes[2 * i], bytes[2 * i + 1]) {
            Some(v) => {
                arr[i] = v;
            },
            None => {
                proof {
                    if hex_prefix_ok(hex@, 32) {
                        assert(hex_pair_ok(encode_utf8(hex@)[2 * i], encode_utf8(hex@)[2 * i + 1]));
                    }
                }
                return Err(HexError::InvalidDigit { at: i });
            },
        }
        proof {
            assert forall|j: int| 0 <= j < i + 1 implies #[trigger] hex_pair_ok(
                encode_utf8(hex@)[2 * j],
                encode_utf8(hex@)[2 * j + 1],
            ) by {
                if j < i {
                    assert(hex_pair_ok(encode_utf8(hex@)[2 * j], encode_utf8(hex@)[2 * j + 1]));
                }
            }
        }
        i = i + 1;
    }
    assert(arr@ =~= hex_decoded(hex@));
    Ok(arr)
}

/// Decoding gives back what encoding wrote: the hex text of any 32 bytes is
/// 64 hex digits, and the decoded bytes are the bytes that were encoded.
pub proof fn lemma_hex_round_trip(s: Seq<char>, b: Seq<u8>)
    requires
        b.len() == 32,
        s == hex_encode(b),
    ensures
        hex_prefix_ok(s, 32),
        hex_decoded(s) == b,
        encode_utf8(s).len() == 64,
{
    let chars = s;
    assert(is_ascii_chars(chars)) by {
        assert forall|k: int| 0 <= k < chars.len() implies '\0' <= #[trigger] chars[k] <= '\u{7f}' by {
            lemma_nibble_char_ascii(k, b);
        }
    }
    is_ascii_chars_encode_utf8(chars);
    let bytes = encode_utf8(s);
    assert(bytes.len() == 64);
    assert forall|j: int| 0 <= j < 32 implies {
        &&& #[trigger] hex_pair_ok(encode_utf8(s)[2 * j], encode_utf8(s)[2 * j + 1])
        &&& hex_pair_value(encode_utf8(s)[2 * j], encode_utf8(s)[2 * j + 1]) == b[j]
    } by {
        lemma_nibble_char_ascii(2 * j, b);
        lemma_nibble_char_ascii(2 * j + 1, b);
        assert(bytes[2 * j] == chars[2 * j] as u8);
        assert(bytes[2 * j + 1] == chars[2 * j + 1] as u8);
        assert((2 * j) / 2 == j);
        assert((2 * j + 1) / 2 == j);
        assert((2 * j) % 2 == 0);
        assert((2 * j + 1) % 2 == 1);
        lemma_nibble_char_digit((b[j] / 16) as int);
        lemma_nibble_char_digit((b[j] % 16) as int);
    }
    assert(hex_decoded(s) =~= b);
}

proof fn lemma_nibble_char_ascii(k: int, b: Seq<u8>)
    requires
        0 <= k < 2 * b.len(),
    ensures
        hex_encode(b)[k] as u32 <= 0x7f,
        ('\0' <= hex_encode(b)[k] <= '\u{7f}'),
{
    let x = b[k / 2];
    lemma_nibble_char_digit((x / 16) as int);
    lemma_nibble_char_digit((x % 16) as int);
}

proof fn lemma_nibble_char_digit(v: int)
    requires
        0 <= v < 16,
    ensures
        is_hex_digit(nibble_char(v) as u8),
        hex_digit_value(nibble_char(v) as u8) == v,
        (nibble_char(v) as u32) < 0x80,
        ('\0' <= nibble_char(v) <= '\u{7f}'),
{
}

} // verus!
