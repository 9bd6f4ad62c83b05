//! Decisions of the web server around the API: which paths need a token,
//! which embedded file a path asks for and its content type, and the
//! listening port.

use vstd::prelude::*;
use crate::text::{all_digits, digits_value, is_digit_char, str_eq};

verus! {

broadcast use vstd::string::group_string_axioms;

/// The port the web interface listens on when none is configured.
pub const DEFAULT_PORT: u16 = 5800;

/// Paths that are served without a session token.
pub open spec fn is_public_path(path: Seq<char>) -> bool {
    path == "/api/login"@ || path == "/api/reset-password"@
}

/// Whether a request for `path` must carry a valid session token.
pub fn requires_token(path: &str) -> (r: bool)
    ensures
        r == !is_public_path(path@),
{
    !(str_eq(path, "/api/login") || str_eq(path, "/api/reset-password"))
}

/// The number of `/` characters at the start of `s`.
pub open spec fn leading_slashes(s: Seq<char>) -> int
    decreases s.len(),
{
    if s.len() > 0 && s[0] == '/' {
        1 + leading_slashes(s.drop_first())
    } else {
        0
    }
}

/// The embedded file a request path asks for: the path without its leading
/// slashes, or `index.html` when nothing is left.
pub open spec fn asset_path(path: Seq<char>) -> Seq<char> {
    let rest = path.subrange(leading_slashes(path), path.len() as int);
    if rest.len() == 0 {
        "index.html"@
    } else {
        rest
    }
}

proof fn lemma_leading_slashes(s: Seq<char>, i: int)
    requires
        0 <= i <= s.len(),
        forall|j: int| 0 <= j < i ==> s[j] == '/',
    ensures
        leading_slashes(s) == i + leading_slashes(s.subrange(i, s.len() as int)),
    decreases i,
{
    if i > 0 {
        assert(s.drop_first().subrange(i - 1, s.drop_first().len() as int) =~= s.subrange(i, s.len() as int));
        lemma_leading_slashes(s.drop_first(), i - 1);
    } else {
        assert(s.subrange(0, s.len() as int) =~= s);
    }
}

/// The embedded file that a request for `path` is answered with.
pub fn static_asset_path(path: &str) -> (r: String)
    ensures
        r@ == asset_path(path@),
{
    let n = path.unicode_len();
    let mut i: usize = 0;
    while i < n && path.get_char(i) == '/'
        invariant
            n == path@.len(),
            i <= n,
            forall|j: int| 0 <= j < i ==> path@[j] == '/',
        decreases n - i,
    {
        i = i + 1;
    }
    proof {
        lemma_leading_slashes(path@, i as int);
        let rest = path@.subrange(i as int, n as int);
        if rest.len() > 0 {
            assert(rest[0] == path@[i as int]);
        }
        assert(leading_slashes(rest) == 0);
    }
    if i == n {
        "index.html".to_string()
    } else {
        path.substring_char(i, n).to_string()
    }
}

/// The value of a port number text, as `str::parse::<u16>` reads it: an
/// optional `+`, then one or more ASCII digits, the value at most 65535.
pub open spec fn parse_u16_spec(s: Seq<char>) -> Option<u16> {
    let d = if s.len() > 0 && s[0] == '+' { s.drop_first() } else { s };
    if d.len() == 0 || !all_digits(d) || digits_value(d) > 65535 {
        None
    } else {
        Some(digits_value(d) as u16)
    }
}

/// The port the web interface listens on: the configured one when it reads
/// as a port number, else 5800.
pub open spec fn port_of(configured: Option<Seq<char>>) -> u16 {
    match configured {
        Some(s) => match parse_u16_spec(s) {
            Some(p) => p,
            None => DEFAULT_PORT,
        },
        None => DEFAULT_PORT,
    }
}

/// Reads a port number as `str::parse::<u16>` does.
pub fn parse_u16(s: &str) -> (r: Option<u16>)
    ensures
        r == parse_u16_spec(s@),
{
    let n = s.unicode_len();
    let start: usize = if n > 0 && s.get_char(0) == '+' { 1 } else { 0 };
    let ghost d = s@.subrange(start as int, n as int);
    assert(d =~= (if s@.len() > 0 && s@[0] == '+' { s@.drop_first() } else { s@ }));
    if start == n {
        return None;
    }
    let mut acc: u32 = 0;
    let mut i: usize = start;
    while i < n
        invariant
            n == s@.len(),
            start <= i <= n,
            start < n,
            d == s@.subrange(start as int, n as int),
            d == (if s@.len() > 0 && s@[0] == '+' { s@.drop_first() } else { s@ }),
            forall|j: int| 0 <= j < i - start ==> #[trigger] is_digit_char(d[j]),
            acc == digits_value(d.take(i - start)),
            acc <= 65535,
        decreases n - i,
    {
        let c = s.get_char(i);
        assert(c == d[i - start]);
        if !('0' <= c && c <= '9') {
            assert(!is_digit_char(d[i - start]));
            assert(!all_digits(d));
            return None;
        }
        proof {
            assert(d.take(i - start + 1).drop_last() =~= d.take(i - start));
        }
        acc = acc * 10 + (c as u32 - 48);
        if acc > 65535 {
            proof {
                if all_digits(d) {
                    crate::text::lemma_digits_value_monotone(d, i - start + 1);
                }
            }
            return None;
        }
        i = i + 1;
    }
    assert(d.take(n - start) =~= d);
    Some(acc as u16)
}

/// The port to listen on, from the configured text if there is one.
pub fn listen_port(configured: Option<&str>) -> (r: u16)
    ensures
        r == port_of(match configured {
            Some(s) => Some(s@),
            None => None,
        }),
{
    match configured {
        Some(s) => match parse_u16(s) {
            Some(p) => p,
            None => DEFAULT_PORT,
        },
        None => DEFAULT_PORT,
    }
}


/// The MIME type that `mime_guess` gives a path by its extension.
pub uninterp spec fn spec_mime_of(path: Seq<char>) -> Seq<char>;

/// The first MIME type that `mime_guess::from_path` guesses for `path` from
/// its extension, or `application/octet-stream` when there is none
/// (`MimeGuess::first_or_octet_stream`); a path without a dot has no
/// extension.
#[verifier::external_body]
fn mime_of(path: &str) -> (r: String)
    ensures
        r@ == spec_mime_of(path@),
        !path@.contains('.') ==> r@ == "application/octet-stream"@,
{
    mime_guess::from_path(path).first_or_octet_stream().as_ref().to_string()
}

/// The content type an embedded file is served with, guessed from the
/// extension of its path.
pub fn content_type_of(path: &str) -> (r: String)
    ensures
        r@ == spec_mime_of(path@),
        !path@.contains('.') ==> r@ == "application/octet-stream"@,
{
    mime_of(path)
}

} // verus!
