//! Extraction of the real client IP from forwarding headers.
//!
//! Headers are consulted in priority order: `cf-connecting-ip`,
//! `x-forwarded-for` (a comma-separated list, first acceptable entry
//! wins), `x-real-ip`, then `x-client-ip`.  A candidate is accepted when,
//! after trimming ASCII whitespace, it is a valid address that is neither
//! an internal-prefix address nor loopback, private, link-local (IPv4) nor
//! loopback or unspecified (IPv6).  Header names are matched exactly, in
//! their lower-case form.

use crate::ip::{parse_ipv4, parse_ipv6, spec_parse_ipv4, spec_parse_ipv6};
use crate::types::str_eq;
use vstd::prelude::*;
use vstd::string::{StrSliceExecFns, StringExecFns};

verus! {

/// `p` opens `s`.
pub open spec fn starts_with(s: Seq<char>, p: Seq<char>) -> bool {
    p.len() <= s.len() && s.subrange(0, p.len() as int) == p
}

/// True when `s` opens with `p`.
fn starts_with_exec(s: &str, p: &str) -> (r: bool)
    ensures
        r <==> starts_with(s@, p@),
{
    let sn = s.unicode_len();
    let pn = p.unicode_len();
    if pn > sn {
        return false;
    }
    let mut i: usize = 0;
    while i < pn
        invariant
            0 <= i <= pn,
            pn == p@.len(),
            sn == s@.len(),
            pn <= sn,
            forall|j: int| 0 <= j < i ==> s@[j] == p@[j],
        decreases pn - i,
    {
        if s.get_char(i) != p.get_char(i) {
            return false;
        }
        i = i + 1;
    }
    proof {
        assert(s@.subrange(0, pn as int) =~= p@);
    }
    true
}

/// An address text with a known internal or proxy prefix: loopback and
/// private IPv4 nets (all of `172.` is treated as internal, which covers
/// the `172.16/12` private range), link-local, the IPv6 loopback and
/// local-use prefixes, and the literal `localhost`.
pub open spec fn spec_is_internal(s: Seq<char>) -> bool {
    ||| starts_with(s, "127."@)
    ||| starts_with(s, "10."@)
    ||| starts_with(s, "172."@)
    ||| starts_with(s, "192.168."@)
    ||| starts_with(s, "169.254."@)
    ||| starts_with(s, "::1"@)
    ||| starts_with(s, "fc00:"@)
    ||| starts_with(s, "fd00:"@)
    ||| starts_with(s, "fe80:"@)
    ||| starts_with(s, "localhost"@)
}

/// Decides [`spec_is_internal`].
pub fn is_internal_ip(ip_str: &str) -> (r: bool)
    ensures
        r <==> spec_is_internal(ip_str@),
{
    starts_with_exec(ip_str, "127.") || starts_with_exec(ip_str, "10.") || starts_with_exec(
        ip_str,
        "172.",
    ) || starts_with_exec(ip_str, "192.168.") || starts_with_exec(ip_str, "169.254.")
        || starts_with_exec(ip_str, "::1") || starts_with_exec(ip_str, "fc00:")
        || starts_with_exec(ip_str, "fd00:") || starts_with_exec(ip_str, "fe80:")
        || starts_with_exec(ip_str, "localhost")
}

/// ASCII whitespace, as trimmed from header values.
pub open spec fn is_space(c: char) -> bool {
    c == ' ' || c == '\t' || c == '\n' || c == '\r'
}

/// The first index at or after `i` holding a non-space character.
pub open spec fn trim_start_idx(s: Seq<char>, i: int) -> int
    decreases s.len() - i,
{
    if 0 <= i < s.len() && is_space(s[i]) {
        trim_start_idx(s, i + 1)
    } else {
        i
    }
}

/// The index just after the last non-space character before `i`.
pub open spec fn trim_end_idx(s: Seq<char>, i: int) -> int
    decreases i,
{
    if 0 < i <= s.len() && is_space(s[i - 1]) {
        trim_end_idx(s, i - 1)
    } else {
        i
    }
}

/// `s` with leading and trailing ASCII whitespace removed.
pub open spec fn spec_trim(s: Seq<char>) -> Seq<char> {
    let a = trim_start_idx(s, 0);
    let b = trim_end_idx(s, s.len() as int);
    if a <= b {
        s.subrange(a, b)
    } else {
        Seq::<char>::empty()
    }
}

/// Decides [`is_space`].
fn is_space_char(c: char) -> (r: bool)
    ensures
        r <==> is_space(c),
{
    c == ' ' || c == '\t' || c == '\n' || c == '\r'
}

/// Trims ASCII whitespace from both ends.
fn trim_exec(s: &str) -> (r: &str)
    ensures
        r@ == spec_trim(s@),
{
    let n = s.unicode_len();
    let mut a: usize = 0;
    while a < n && is_space_char(s.get_char(a))
        invariant
            0 <= a <= n,
            n == s@.len(),
            trim_start_idx(s@, 0) == trim_start_idx(s@, a as int),
        decreases n - a,
    {
        a = a + 1;
    }
    let mut b: usize = n;
    while b > 0 && is_space_char(s.get_char(b - 1))
        invariant
            0 <= b <= n,
            n == s@.len(),
            trim_end_idx(s@, n as int) == trim_end_idx(s@, b as int),
        decreases b,
    {
        b = b - 1;
    }
    proof {
        assert(trim_start_idx(s@, a as int) == a);
        assert(trim_end_idx(s@, b as int) == b);
    }
    if a <= b {
        s.substring_char(a, b)
    } else {
        proof {
            assert(spec_trim(s@) =~= Seq::<char>::empty());
        }
        s.substring_char(0, 0)
    }
}

/// The accepted form of one candidate: the trimmed text when it is a
/// valid, non-internal, public address; nothing otherwise.
pub open spec fn spec_validate(s: Seq<char>) -> Option<Seq<char>> {
    let t = spec_trim(s);
    if spec_is_internal(t) {
        None
    } else {
        match spec_parse_ipv4(t) {
            Some(o) => if o.0 == 127 || o.0 == 10 || (o.0 == 172 && 16 <= o.1 <= 31) || (o.0 == 192
                && o.1 == 168) || (o.0 == 169 && o.1 == 254) {
                None
            } else {
                Some(t)
            },
            None => match spec_parse_ipv6(t) {
                Some(g) => if g == seq![0u16, 0u16, 0u16, 0u16, 0u16, 0u16, 0u16, 1u16] || g
                    == seq![0u16, 0u16, 0u16, 0u16, 0u16, 0u16, 0u16, 0u16] {
                    None
                } else {
                    Some(t)
                },
                None => None,
            },
        }
    }
}

/// Validates one candidate address per [`spec_validate`].
pub fn validate_and_clean_ip(ip_str: &str) -> (r: Option<String>)
    ensures
        r is Some <==> spec_validate(ip_str@) is Some,
        r matches Some(v) ==> spec_validate(ip_str@) == Some(v@),
{
    let t = trim_exec(ip_str);
    if is_internal_ip(t) {
        return None;
    }
    match parse_ipv4(t) {
        Some(o) => {
            if o.0 == 127 || o.0 == 10 || (o.0 == 172 && 16 <= o.1 && o.1 <= 31) || (o.0 == 192
                && o.1 == 168) || (o.0 == 169 && o.1 == 254) {
                None
            } else {
                Some(String::from_str(t))
            }
        },
        None => {
            match parse_ipv6(t) {
                Some(g) => {
                    if is_loopback_or_unspecified(&g) {
                        None
                    } else {
                        Some(String::from_str(t))
                    }
                },
                None => None,
            }
        },
    }
}

/// True when the eight groups are the IPv6 loopback or the unspecified
/// address.
fn is_loopback_or_unspecified(g: &Vec<u16>) -> (r: bool)
    requires
        g@.len() == 8,
    ensures
        r <==> (g@ == seq![0u16, 0u16, 0u16, 0u16, 0u16, 0u16, 0u16, 1u16] || g@ == seq![
            0u16,
            0u16,
            0u16,
            0u16,
            0u16,
            0u16,
            0u16,
            0u16,
        ]),
{
    let head_zero = g[0] == 0 && g[1] == 0 && g[2] == 0 && g[3] == 0 && g[4] == 0 && g[5] == 0
        && g[6] == 0;
    let r = head_zero && (g[7] == 0 || g[7] == 1);
    proof {
        if r {
            if g@[7] == 1u16 {
                assert(g@ =~= seq![0u16, 0u16, 0u16, 0u16, 0u16, 0u16, 0u16, 1u16]);
            } else {
                assert(g@ =~= seq![0u16, 0u16, 0u16, 0u16, 0u16, 0u16, 0u16, 0u16]);
            }
        }
    }
    r
}

/// The first accepted entry of a comma-separated list, scanning from
/// `pos`.
pub open spec fn spec_first_valid(s: Seq<char>, pos: int) -> Option<Seq<char>>
    decreases s.len() - pos,
{
    if pos < 0 || pos > s.len() {
        None
    } else {
        let e = comma_or_end(s, pos);
        match spec_validate(s.subrange(pos, e)) {
            Some(v) => Some(v),
            None => if pos <= e && e < s.len() {
                spec_first_valid(s, e + 1)
            } else {
                None
            },
        }
    }
}

/// The position of the next comma at or after `pos`, or the end.
pub open spec fn comma_or_end(s: Seq<char>, pos: int) -> int
    decreases s.len() - pos,
{
    if 0 <= pos < s.len() {
        if s[pos] == ',' {
            pos
        } else {
            comma_or_end(s, pos + 1)
        }
    } else {
        s.len() as int
    }
}

/// Finds the next comma at or after `pos`, or the end.
fn comma_or_end_exec(s: &str, pos: usize) -> (r: usize)
    requires
        pos <= s@.len(),
    ensures
        r == comma_or_end(s@, pos as int),
        pos <= r <= s@.len(),
    decreases s@.len() - pos,
{
    let n = s.unicode_len();
    if pos < n {
        if s.get_char(pos) == ',' {
            pos
        } else {
            comma_or_end_exec(s, pos + 1)
        }
    } else {
        n
    }
}

/// Scans a comma-separated header value for its first accepted entry.
fn first_valid_exec(s: &str, pos: usize) -> (r: Option<String>)
    requires
        pos <= s@.len(),
    ensures
        r is Some <==> spec_first_valid(s@, pos as int) is Some,
        r matches Some(v) ==> spec_first_valid(s@, pos as int) == Some(v@),
    decreases s@.len() - pos,
{
    let n = s.unicode_len();
    let e = comma_or_end_exec(s, pos);
    let piece = s.substring_char(pos, e);
    match validate_and_clean_ip(piece) {
        Some(v) => Some(v),
        None => {
            if e < n {
                first_valid_exec(s, e + 1)
            } else {
                None
            }
        },
    }
}

/// The first value under `name` in the header list, if any.
pub open spec fn spec_header_lookup(h: Seq<(String, String)>, name: Seq<char>) -> Option<
    Seq<char>,
>
    decreases h.len(),
{
    if h.len() == 0 {
        None
    } else if h[0].0@ == name {
        Some(h[0].1@)
    } else {
        spec_header_lookup(h.drop_first(), name)
    }
}

/// Looks a header up by its exact (lower-case) name.
fn header_lookup<'a>(headers: &'a Vec<(String, String)>, name: &str) -> (r: Option<&'a String>)
    ensures
        r is Some <==> spec_header_lookup(headers@, name@) is Some,
        r matches Some(v) ==> spec_header_lookup(headers@, name@) == Some(v@),
{
    let n = headers.len();
    let mut i: usize = 0;
    proof {
        assert(headers@.subrange(0, n as int) =~= headers@);
    }
    while i < n
        invariant
            0 <= i <= n,
            n == headers@.len(),
            spec_header_lookup(headers@, name@) == spec_header_lookup(
                headers@.subrange(i as int, n as int),
                name@,
            ),
        decreases n - i,
    {
        proof {
            assert(headers@.subrange(i as int, n as int)[0] == headers@[i as int]);
            assert(headers@.subrange(i as int, n as int).drop_first() =~= headers@.subrange(
                i + 1,
                n as int,
            ));
        }
        if str_eq(headers[i].0.as_str(), name) {
            return Some(&headers[i].1);
        }
        i = i + 1;
    }
    proof {
        assert(headers@.subrange(n as int, n as int) =~= Seq::<(String, String)>::empty());
    }
    None
}

/// The extracted client IP for a header list: the first accepted
/// candidate in priority order, or empty text when there is none.
pub open spec fn spec_extract(h: Seq<(String, String)>) -> Seq<char> {
    let cf = match spec_header_lookup(h, "cf-connecting-ip"@) {
        Some(v) => spec_validate(v),
        None => None,
    };
    let xff = match spec_header_lookup(h, "x-forwarded-for"@) {
        Some(v) => spec_first_valid(v, 0),
        None => None,
    };
    let xri = match spec_header_lookup(h, "x-real-ip"@) {
        Some(v) => spec_validate(v),
        None => None,
    };
    let xci = match spec_header_lookup(h, "x-client-ip"@) {
        Some(v) => spec_validate(v),
        None => None,
    };
    match cf {
        Some(v) => v,
        None => match xff {
            Some(v) => v,
            None => match xri {
                Some(v) => v,
                None => match xci {
                    Some(v) => v,
                    None => Seq::<char>::empty(),
                },
            },
        },
    }
}

/// Extracts the real client IP from the request headers, trying
/// `cf-connecting-ip`, then the `x-forwarded-for` list, then `x-real-ip`,
/// then `x-client-ip`, and returning empty text when none yields a
/// public address.
pub fn extract_client_ip(headers: &Vec<(String, String)>) -> (r: String)
    ensures
        r@ == spec_extract(headers@),
{
    match header_lookup(headers, "cf-connecting-ip") {
        Some(v) => {
            match validate_and_clean_ip(v.as_str()) {
                Some(ip) => {
                    return ip;
                },
                None => {
                },
            }
        },
        None => {
        },
    }
    match header_lookup(headers, "x-forwarded-for") {
        Some(v) => {
            match first_valid_exec(v.as_str(), 0) {
                Some(ip) => {
                    return ip;
                },
                None => {
                },
            }
        },
        None => {
        },
    }
    match header_lookup(headers, "x-real-ip") {
        Some(v) => {
            match validate_and_clean_ip(v.as_str()) {
                Some(ip) => {
                    return ip;
                },
                None => {
                },
            }
        },
        None => {
        },
    }
    match header_lookup(headers, "x-client-ip") {
        Some(v) => {
            match validate_and_clean_ip(v.as_str()) {
                Some(ip) => {
                    return ip;
                },
                None => {
                },
            }
        },
        None => {
        },
    }
    String::new()
}

} // verus!
