//! Text utilities with the meaning of the standard library's: string
//! equality, Unicode white space, splitting at white space, signed decimal
//! parsing and printing.

use vstd::prelude::*;
use vstd::utf8::{encode_utf8, encode_utf8_decode_utf8};

verus! {

broadcast use vstd::string::group_string_axioms;

/// Whether two strings hold the same characters (compared byte by byte).
pub fn str_eq(a: &str, b: &str) -> (r: bool)
    ensures
        r == (a@ == b@),
{
    let x = a.as_bytes();
    let y = b.as_bytes();
    proof {
        encode_utf8_decode_utf8(a@);
        encode_utf8_decode_utf8(b@);
    }
    if x.len() != y.len() {
        return false;
    }
    let mut i: usize = 0;
    while i < x.len()
        invariant
            x@.len() == y@.len(),
            x@ == encode_utf8(a@),
            y@ == encode_utf8(b@),
            i <= x@.len(),
            forall|j: int| 0 <= j < i ==> x@[j] == y@[j],
        decreases x@.len() - i,
    {
        if x[i] != y[i] {
            return false;
        }
        i = i + 1;
    }
    assert(x@ =~= y@);
    true
}

/// The characters with the Unicode `White_Space` property (the meaning of
/// `char::is_whitespace`).
pub open spec fn is_white_space(c: char) -> bool {
    let u = c as u32;
    ||| (0x09 <= u <= 0x0d)
    ||| u == 0x20
    ||| u == 0x85
    ||| u == 0xa0
    ||| u == 0x1680
    ||| (0x2000 <= u <= 0x200a)
    ||| u == 0x2028
    ||| u == 0x2029
    ||| u == 0x202f
    ||| u == 0x205f
    ||| u == 0x3000
}

/// Whether `c` is white space.
pub fn is_whitespace(c: char) -> (r: bool)
    ensures
        r == is_white_space(c),
{
    let u = c as u32;
    (0x09 <= u && u <= 0x0d) || u == 0x20 || u == 0x85 || u == 0xa0 || u == 0x1680 || (0x2000 <= u
        && u <= 0x200a) || u == 0x2028 || u == 0x2029 || u == 0x202f || u == 0x205f || u == 0x3000
}

/// The words of the first `n` characters of `s`, and the word still being
/// read after them: a word is a maximal run of characters that are not
/// white space.
pub open spec fn words_scan(s: Seq<char>, n: nat) -> (Seq<Seq<char>>, Seq<char>)
    decreases n,
{
    if n == 0 {
        (Seq::empty(), Seq::empty())
    } else {
        let (done, cur) = words_scan(s, (n - 1) as nat);
        let c = s[n - 1];
        if is_white_space(c) {
            if cur.len() > 0 {
                (done.push(cur), Seq::empty())
            } else {
                (done, cur)
            }
        } else {
            (done, cur.push(c))
        }
    }
}

/// The white-space separated words of `s`, in order (the meaning of
/// `str::split_whitespace`).
pub open spec fn words(s: Seq<char>) -> Seq<Seq<char>> {
    let (done, cur) = words_scan(s, s.len());
    if cur.len() > 0 {
        done.push(cur)
    } else {
        done
    }
}

/// Splits `s` into its white-space separated words.
pub fn split_whitespace(s: &str) -> (r: Vec<String>)
    ensures
        r@.map_values(|w: String| w@) == words(s@),
{
    let n = s.unicode_len();
    let mut done: Vec<String> = Vec::new();
    let mut cur = String::new();
    let mut start: usize = 0;
    let mut i: usize = 0;
    while i < n
        invariant
            n == s@.len(),
            i <= n,
            start <= i,
            cur@ == s@.subrange(start as int, i as int),
            done@.map_values(|w: String| w@) == words_scan(s@, i as nat).0,
            cur@ == words_scan(s@, i as nat).1,
        decreases n - i,
    {
        let c = s.get_char(i);
        let ghost d0 = done@;
        if is_whitespace(c) {
            if start < i {
                let word = s.substring_char(start, i);
                let w = word.to_string();
                done.push(w);
                proof {
                    assert(done@.map_values(|w: String| w@) =~= d0.map_values(|w: String| w@).push(cur@));
                }
            }
            cur = String::new();
            start = i + 1;
        } else {
            let one = s.substring_char(i, i + 1);
            cur.append(one);
            proof {
                assert(s@.subrange(start as int, i + 1) =~= s@.subrange(start as int, i as int).push(c));
            }
        }
        proof {
            assert(cur@ == s@.subrange(start as int, i + 1));
        }
        i = i + 1;
    }
    if start < n {
        let word = s.substring_char(start, n);
        let ghost d0 = done@;
        done.push(word.to_string());
        proof {
            assert(done@.map_values(|w: String| w@) =~= d0.map_values(|w: String| w@).push(cur@));
        }
    }
    done
}

/// A decimal digit character.
pub open spec fn is_digit_char(c: char) -> bool {
    '0' <= c <= '9'
}

/// The number that a string of decimal digits denotes.
pub open spec fn digits_value(d: Seq<char>) -> int
    decreases d.len(),
{
    if d.len() == 0 {
        0
    } else {
        digits_value(d.drop_last()) * 10 + (d.last() as int - 48)
    }
}

/// The length of the sign (`+` or `-`) at the start of `s`: 1 or 0.
pub open spec fn sign_len(s: Seq<char>) -> int {
    if s.len() > 0 && (s[0] == '+' || s[0] == '-') {
        1
    } else {
        0
    }
}

/// Every character of `d` is a decimal digit.
pub open spec fn all_digits(d: Seq<char>) -> bool {
    forall|i: int| 0 <= i < d.len() ==> #[trigger] is_digit_char(d[i])
}

/// The value of a signed decimal integer text, as `str::parse::<i64>`
/// reads it: an optional `+` or `-` sign, then one or more ASCII digits,
/// the value fitting in 64 bits; `None` for anything else.
pub open spec fn parse_i64_spec(s: Seq<char>) -> Option<i64> {
    let d = s.subrange(sign_len(s), s.len() as int);
    if d.len() == 0 || !all_digits(d) {
        None
    } else {
        let v = if s[0] == '-' {
            -digits_value(d)
        } else {
            digits_value(d)
        };
        if i64::MIN <= v <= i64::MAX {
            Some(v as i64)
        } else {
            None
        }
    }
}

proof fn lemma_digits_value_nonneg(d: Seq<char>)
    requires
        all_digits(d),
    ensures
        digits_value(d) >= 0,
    decreases d.len(),
{
    if d.len() > 0 {
        let e = d.drop_last();
        assert forall|i: int| 0 <= i < e.len() implies #[trigger] is_digit_char(e[i]) by {
            assert(e[i] == d[i]);
        }
        lemma_digits_value_nonneg(e);
        assert(is_digit_char(d[d.len() - 1]));
    }
}

pub proof fn lemma_digits_value_monotone(d: Seq<char>, k: int)
    requires
        all_digits(d),
        0 <= k <= d.len(),
    ensures
        digits_value(d.take(k)) <= digits_value(d),
    decreases d.len(),
{
    if k < d.len() {
        let e = d.drop_last();
        assert forall|i: int| 0 <= i < e.len() implies #[trigger] is_digit_char(e[i]) by {
            assert(e[i] == d[i]);
        }
        lemma_digits_value_monotone(e, k);
        assert(e.take(k) =~= d.take(k));
        lemma_digits_value_nonneg(e);
        assert(is_digit_char(d[d.len() - 1]));
        assert(d.last() as int - 48 >= 0);
    } else {
        assert(d.take(k) =~= d);
    }
}

/// Reads a signed decimal integer as `str::parse::<i64>` does.
pub fn parse_i64(s: &str) -> (r: Option<i64>)
    ensures
        r == parse_i64_spec(s@),
{
    let n = s.unicode_len();
    if n == 0 {
        return None;
    }
    let first = s.get_char(0);
    let neg = first == '-';
    let start: usize = if first == '+' || first == '-' { 1 } else { 0 };
    assert(start == sign_len(s@));
    let ghost d = s@.subrange(start as int, n as int);
    if start == n {
        return None;
    }
    let mut acc: i128 = 0;
    let mut i: usize = start;
    while i < n
        invariant
            n == s@.len(),
            start <= i <= n,
            start == sign_len(s@),
            start < n,
            d == s@.subrange(start as int, n as int),
            neg == (s@[0] == '-'),
            forall|j: int| 0 <= j < i - start ==> #[trigger] is_digit_char(d[j]),
            acc == digits_value(d.take(i - start)),
            0 <= acc <= 9_223_372_036_854_775_808,
        decreases n - i,
    {
        let c = s.get_char(i);
        assert(c == d[i - start]);
        if !('0' <= c && c <= '9') {
            assert(!is_digit_char(d[i - start]));
            assert(!all_digits(d));
            return None;
        }
        let v = (c as u32 - 48) as i128;
        proof {
            assert(d.take(i - start + 1).drop_last() =~= d.take(i - start));
        }
        acc = acc * 10 + v;
        assert(acc == digits_value(d.take(i - start + 1)));
        if acc > 9_223_372_036_854_775_808 {
            proof {
                if all_digits(d) {
                    lemma_digits_value_monotone(d, i - start + 1);
                }
            }
            return None;
        }
        i = i + 1;
    }
    assert(d.take(n - start) =~= d);
    assert(all_digits(d));
    if neg {
        Some((-acc) as i64)
    } else if acc <= 9_223_372_036_854_775_807 {
        Some(acc as i64)
    } else {
        None
    }
}

/// The decimal digits of a natural number, most significant first.
pub open spec fn nat_digits(n: nat) -> Seq<char>
    decreases n,
{
    if n < 10 {
        seq![(n + 48) as char]
    } else {
        nat_digits(n / 10).push(((n % 10) + 48) as char)
    }
}

/// The decimal text of an integer, with a `-` before negative ones (the
/// meaning of `to_string` on integers).
pub open spec fn int_text(n: int) -> Seq<char> {
    if n < 0 {
        seq!['-'] + nat_digits((-n) as nat)
    } else {
        nat_digits(n as nat)
    }
}

proof fn lemma_digit_table()
    ensures
        "0123456789"@.len() == 10,
        forall|v: int| 0 <= v < 10 ==> #[trigger] "0123456789"@[v] == (v + 48) as char,
{
    reveal_strlit("0123456789");
}

/// The decimal text of a natural number.
pub fn u64_to_string(n: u64) -> (r: String)
    ensures
        r@ == nat_digits(n as nat),
    decreases n,
{
    let digits = "0123456789";
    proof {
        reveal_strlit("0123456789");
        lemma_digit_table();
    }
    if n < 10 {
        let d = n as usize;
        let mut r = String::new();
        r.append(digits.substring_ascii(d, d + 1));
        assert(r@ =~= seq![(n + 48) as char]);
        r
    } else {
        let mut r = u64_to_string(n / 10);
        let d = (n % 10) as usize;
        r.append(digits.substring_ascii(d, d + 1));
        assert(r@ =~= nat_digits((n / 10) as nat).push(((n % 10) + 48) as char));
        r
    }
}

/// The decimal text of a signed integer.
pub fn i64_to_string(n: i64) -> (r: String)
    ensures
        r@ == int_text(n as int),
{
    if n < 0 {
        let m: u64 = if n == i64::MIN { 9_223_372_036_854_775_808u64 } else { (-n) as u64 };
        let mut r = String::new();
        let minus = "-";
        proof {
            reveal_strlit("-");
        }
        r.append(minus);
        r.append(u64_to_string(m).as_str());
        r
    } else {
        u64_to_string(n as u64)
    }
}

} // verus!
