//! Textual IP address validation for the client-IP extractor.
//!
//! The grammar is fixed here once, as spec functions, and the parsers are
//! proved to decide it.  Four-part dotted decimals form an IPv4 address
//! (one to three digits per octet, no leading zeros, each at most 255).
//! An IPv6 address is eight colon-separated groups of one to four hex
//! digits, or fewer groups with one `::` compression.  IPv4-mapped IPv6
//! forms are not recognized and count as invalid.

use vstd::prelude::*;
use vstd::string::StrSliceExecFns;

verus! {

/// An ASCII decimal digit.
pub open spec fn is_digit(c: char) -> bool {
    48 <= c as u32 <= 57
}

/// The value of a hex digit, or none.
pub open spec fn hex_val(c: char) -> Option<u32> {
    if 48 <= c as u32 <= 57 {
        Some((c as u32 - 48) as u32)
    } else if 97 <= c as u32 <= 102 {
        Some((c as u32 - 87) as u32)
    } else if 65 <= c as u32 <= 70 {
        Some((c as u32 - 55) as u32)
    } else {
        None
    }
}

/// Where the decimal octet starting at `pos` ends: one digit for a
/// leading zero, otherwise up to three digits.  `pos` itself when no
/// digit starts there.
pub open spec fn octet_end(s: Seq<char>, pos: int) -> int {
    if 0 <= pos < s.len() && is_digit(s[pos]) {
        if s[pos] == '0' {
            pos + 1
        } else if pos + 1 < s.len() && is_digit(s[pos + 1]) {
            if pos + 2 < s.len() && is_digit(s[pos + 2]) {
                pos + 3
            } else {
                pos + 2
            }
        } else {
            pos + 1
        }
    } else {
        pos
    }
}

/// The value of the digits in `s[pos..end]` (at most three digits).
pub open spec fn octet_val(s: Seq<char>, pos: int, end: int) -> int {
    if end == pos + 1 {
        s[pos] as u32 - 48
    } else if end == pos + 2 {
        (s[pos] as u32 - 48) * 10 + (s[pos + 1] as u32 - 48)
    } else {
        (s[pos] as u32 - 48) * 100 + (s[pos + 1] as u32 - 48) * 10 + (s[pos + 2] as u32 - 48)
    }
}

/// The IPv4 address spelled by `s`, or none.
pub open spec fn spec_parse_ipv4(s: Seq<char>) -> Option<(u8, u8, u8, u8)> {
    let e1 = octet_end(s, 0);
    let p2 = e1 + 1;
    let e2 = octet_end(s, p2);
    let p3 = e2 + 1;
    let e3 = octet_end(s, p3);
    let p4 = e3 + 1;
    let e4 = octet_end(s, p4);
    if e1 > 0 && octet_val(s, 0, e1) <= 255 && e1 < s.len() && s[e1] == '.' && e2 > p2
        && octet_val(s, p2, e2) <= 255 && e2 < s.len() && s[e2] == '.' && e3 > p3 && octet_val(
        s,
        p3,
        e3,
    ) <= 255 && e3 < s.len() && s[e3] == '.' && e4 > p4 && octet_val(s, p4, e4) <= 255 && e4
        == s.len() {
        Some(
            (
                octet_val(s, 0, e1) as u8,
                octet_val(s, p2, e2) as u8,
                octet_val(s, p3, e3) as u8,
                octet_val(s, p4, e4) as u8,
            ),
        )
    } else {
        None
    }
}

/// Finds the end of the octet starting at `pos`.
fn octet_end_exec(s: &str, pos: usize) -> (r: usize)
    requires
        pos <= s@.len(),
    ensures
        r == octet_end(s@, pos as int),
        pos <= r <= s@.len(),
{
    let n = s.unicode_len();
    if pos < n && {
        let c = s.get_char(pos) as u32;
        48 <= c && c <= 57
    } {
        if s.get_char(pos) == '0' {
            pos + 1
        } else if pos + 1 < n && {
            let c = s.get_char(pos + 1) as u32;
            48 <= c && c <= 57
        } {
            if pos + 2 < n && {
                let c = s.get_char(pos + 2) as u32;
                48 <= c && c <= 57
            } {
                pos + 3
            } else {
                pos + 2
            }
        } else {
            pos + 1
        }
    } else {
        pos
    }
}

/// The value of the octet in `s[pos..end]`.
fn octet_val_exec(s: &str, pos: usize, end: usize) -> (r: u32)
    requires
        pos < end <= s@.len(),
        end - pos <= 3,
        forall|i: int| pos <= i < end ==> is_digit(s@[i]),
    ensures
        r == octet_val(s@, pos as int, end as int),
        r <= 999,
{
    if end == pos + 1 {
        s.get_char(pos) as u32 - 48
    } else if end == pos + 2 {
        (s.get_char(pos) as u32 - 48) * 10 + (s.get_char(pos + 1) as u32 - 48)
    } else {
        (s.get_char(pos) as u32 - 48) * 100 + (s.get_char(pos + 1) as u32 - 48) * 10 + (s.get_char(
            pos + 2,
        ) as u32 - 48)
    }
}

/// Parses `s` as an IPv4 address.
pub fn parse_ipv4(s: &str) -> (r: Option<(u8, u8, u8, u8)>)
    ensures
        r == spec_parse_ipv4(s@),
{
    let n = s.unicode_len();
    let e1 = octet_end_exec(s, 0);
    if e1 == 0 || !(e1 < n) || s.get_char(e1) != '.' {
        return None;
    }
    let v1 = octet_val_exec(s, 0, e1);
    if v1 > 255 {
        return None;
    }
    let p2 = e1 + 1;
    let e2 = octet_end_exec(s, p2);
    if e2 == p2 || !(e2 < n) || s.get_char(e2) != '.' {
        return None;
    }
    let v2 = octet_val_exec(s, p2, e2);
    if v2 > 255 {
        return None;
    }
    let p3 = e2 + 1;
    let e3 = octet_end_exec(s, p3);
    if e3 == p3 || !(e3 < n) || s.get_char(e3) != '.' {
        return None;
    }
    let v3 = octet_val_exec(s, p3, e3);
    if v3 > 255 {
        return None;
    }
    let p4 = e3 + 1;
    let e4 = octet_end_exec(s, p4);
    if e4 == p4 || e4 != n {
        return None;
    }
    let v4 = octet_val_exec(s, p4, e4);
    if v4 > 255 {
        return None;
    }
    Some((v1 as u8, v2 as u8, v3 as u8, v4 as u8))
}

/// Where the hex group starting at `pos` ends: up to four hex digits.
pub open spec fn group_end(s: Seq<char>, pos: int) -> int {
    if 0 <= pos < s.len() && hex_val(s[pos]) is Some {
        if pos + 1 < s.len() && hex_val(s[pos + 1]) is Some {
            if pos + 2 < s.len() && hex_val(s[pos + 2]) is Some {
                if pos + 3 < s.len() && hex_val(s[pos + 3]) is Some {
                    pos + 4
                } else {
                    pos + 3
                }
            } else {
                pos + 2
            }
        } else {
            pos + 1
        }
    } else {
        pos
    }
}

/// The value of the hex digits in `s[pos..end]` (at most four).
pub open spec fn group_val(s: Seq<char>, pos: int, end: int) -> int
    decreases end - pos,
{
    if end <= pos {
        0
    } else {
        group_val(s, pos, end - 1) * 16 + (match hex_val(s[end - 1]) {
            Some(v) => v as int,
            None => 0,
        })
    }
}

/// The groups after a `::` compression: possibly none, separated by
/// single colons, running to the end of the text.
pub open spec fn spec_groups_after(s: Seq<char>, pos: int) -> Option<Seq<u16>>
    decreases s.len() - pos,
{
    if pos == s.len() {
        Some(Seq::<u16>::empty())
    } else if pos > s.len() || pos < 0 {
        None
    } else {
        let e = group_end(s, pos);
        if e == pos {
            None
        } else if e == s.len() {
            Some(seq![group_val(s, pos, e) as u16])
        } else if s[e] == ':' && e + 1 < s.len() && s[e + 1] != ':' {
            match spec_groups_after(s, e + 1) {
                Some(rest) => Some(seq![group_val(s, pos, e) as u16] + rest),
                None => None,
            }
        } else {
            None
        }
    }
}

/// The groups before any compression, and the groups after one if it
/// occurs: `None` in the second slot means the address is uncompressed.
pub open spec fn spec_groups_before(s: Seq<char>, pos: int) -> Option<(Seq<u16>, Option<Seq<u16>>)>
    decreases s.len() - pos,
{
    if pos < 0 || pos >= s.len() {
        None
    } else {
        let e = group_end(s, pos);
        if e == pos {
            None
        } else if e == s.len() {
            Some((seq![group_val(s, pos, e) as u16], Option::<Seq<u16>>::None))
        } else if s[e] == ':' {
            if e + 1 < s.len() && s[e + 1] == ':' {
                match spec_groups_after(s, e + 2) {
                    Some(right) => Some((seq![group_val(s, pos, e) as u16], Some(right))),
                    None => None,
                }
            } else if e + 1 >= s.len() {
                None
            } else {
                match spec_groups_before(s, e + 1) {
                    Some(pair) => Some(
                        (seq![group_val(s, pos, e) as u16] + pair.0, pair.1),
                    ),
                    None => None,
                }
            }
        } else {
            None
        }
    }
}

/// A run of zero groups.
pub open spec fn zero_groups(n: int) -> Seq<u16> {
    Seq::new(n as nat, |i: int| 0u16)
}

/// The eight groups of the IPv6 address spelled by `s`, or none.
pub open spec fn spec_parse_ipv6(s: Seq<char>) -> Option<Seq<u16>> {
    if s.len() >= 2 && s[0] == ':' && s[1] == ':' {
        match spec_groups_after(s, 2) {
            Some(right) => if right.len() <= 7 {
                Some(zero_groups(8 - right.len()) + right)
            } else {
                None
            },
            None => None,
        }
    } else {
        match spec_groups_before(s, 0) {
            Some(pair) => match pair.1 {
                None => if pair.0.len() == 8 {
                    Some(pair.0)
                } else {
                    None
                },
                Some(right) => if pair.0.len() + right.len() <= 7 {
                    Some(pair.0 + zero_groups(8 - pair.0.len() - right.len()) + right)
                } else {
                    None
                },
            },
            None => None,
        }
    }
}

/// The value of one hex digit character.
fn hex_val_exec(c: char) -> (r: Option<u32>)
    ensures
        r == hex_val(c),
{
    let u = c as u32;
    if 48 <= u && u <= 57 {
        Some(u - 48)
    } else if 97 <= u && u <= 102 {
        Some(u - 87)
    } else if 65 <= u && u <= 70 {
        Some(u - 55)
    } else {
        None
    }
}

/// Finds the end of the hex group starting at `pos`.
fn group_end_exec(s: &str, pos: usize) -> (r: usize)
    requires
        pos <= s@.len(),
    ensures
        r == group_end(s@, pos as int),
        pos <= r <= s@.len(),
        r - pos <= 4,
{
    let n = s.unicode_len();
    if pos < n && hex_val_exec(s.get_char(pos)).is_some() {
        if pos + 1 < n && hex_val_exec(s.get_char(pos + 1)).is_some() {
            if pos + 2 < n && hex_val_exec(s.get_char(pos + 2)).is_some() {
                if pos + 3 < n && hex_val_exec(s.get_char(pos + 3)).is_some() {
                    pos + 4
                } else {
                    pos + 3
                }
            } else {
                pos + 2
            }
        } else {
            pos + 1
        }
    } else {
        pos
    }
}

/// The value of the hex group in `s[pos..end]`.
fn group_val_exec(s: &str, pos: usize, end: usize) -> (r: u32)
    requires
        pos < end <= s@.len(),
        end - pos <= 4,
        forall|i: int| pos <= i < end ==> hex_val(s@[i]) is Some,
    ensures
        r == group_val(s@, pos as int, end as int),
        r <= 0xffff,
{
    proof {
        reveal_with_fuel(group_val, 6);
    }
    let mut v: u32 = 0;
    let mut i = pos;
    while i < end
        invariant
            pos <= i <= end,
            end <= s@.len(),
            end - pos <= 4,
            forall|j: int| pos <= j < end ==> hex_val(s@[j]) is Some,
            v == group_val(s@, pos as int, i as int),
            v < 0x1000 || i == end,
            v <= 0xffff,
        decreases end - i,
    {
        let h = match hex_val_exec(s.get_char(i)) {
            Some(h) => h,
            None => 0,
        };
        proof {
            reveal_with_fuel(group_val, 6);
            assert(hex_val(s@[i as int]) is Some);
            assert(h <= 15);
        }
        v = v * 16 + h;
        i = i + 1;
        proof {
            reveal_with_fuel(group_val, 6);
            assert(i < end ==> i - pos <= 3);
            assert(i - pos <= 3 ==> v < 0x1000) by {
                reveal_with_fuel(group_val, 6);
                lemma_group_val_bound(s@, pos as int, i as int);
            }
        }
    }
    v
}

/// A hex group of `k` digits is below `16^k`.
proof fn lemma_group_val_bound(s: Seq<char>, pos: int, end: int)
    requires
        pos <= end,
        end - pos <= 4,
    ensures
        end - pos <= 0 ==> group_val(s, pos, end) < 1,
        end - pos <= 1 ==> group_val(s, pos, end) < 0x10,
        end - pos <= 2 ==> group_val(s, pos, end) < 0x100,
        end - pos <= 3 ==> group_val(s, pos, end) < 0x1000,
        group_val(s, pos, end) < 0x10000,
    decreases end - pos,
{
    if end > pos {
        lemma_group_val_bound(s, pos, end - 1);
    }
}

/// Parses the groups after a `::` compression.
fn groups_after_exec(s: &str, pos: usize) -> (r: Option<(Vec<u16>, ())>)
    requires
        pos <= s@.len(),
    ensures
        r is None <==> spec_groups_after(s@, pos as int) is None,
        r matches Some(p) ==> spec_groups_after(s@, pos as int) == Some(p.0@),
    decreases s@.len() - pos,
{
    let n = s.unicode_len();
    if pos == n {
        let empty_vec: Vec<u16> = Vec::new();
        proof {
            assert(empty_vec@ =~= Seq::<u16>::empty());
        }
        return Some((empty_vec, ()));
    }
    let e = group_end_exec(s, pos);
    if e == pos {
        return None;
    }
    let g = group_val_exec(s, pos, e) as u16;
    if e == n {
        let mut v: Vec<u16> = Vec::new();
        v.push(g);
        proof {
            assert(v@ =~= seq![group_val(s@, pos as int, e as int) as u16]);
        }
        return Some((v, ()));
    }
    if s.get_char(e) == ':' && e + 1 < n && s.get_char(e + 1) != ':' {
        match groups_after_exec(s, e + 1) {
            Some((mut rest, ())) => {
                let mut v: Vec<u16> = Vec::new();
                v.push(g);
                let ghost grest = rest@;
                v.append(&mut rest);
                proof {
                    assert(v@ =~= seq![group_val(s@, pos as int, e as int) as u16] + grest);
                }
                Some((v, ()))
            },
            None => None,
        }
    } else {
        None
    }
}

/// Parses the groups before any compression.
fn groups_before_exec(s: &str, pos: usize) -> (r: Option<(Vec<u16>, bool, Vec<u16>)>)
    requires
        pos <= s@.len(),
    ensures
        r is None <==> spec_groups_before(s@, pos as int) is None,
        r matches Some(p) ==> (spec_groups_before(s@, pos as int) matches Some(q) && q.0 == p.0@
            && (p.1 <==> q.1 is Some) && (q.1 matches Some(right) ==> right == p.2@)),
    decreases s@.len() - pos,
{
    let n = s.unicode_len();
    if pos >= n {
        return None;
    }
    let e = group_end_exec(s, pos);
    if e == pos {
        return None;
    }
    let g = group_val_exec(s, pos, e) as u16;
    if e == n {
        let mut v: Vec<u16> = Vec::new();
        v.push(g);
        proof {
            assert(v@ =~= seq![group_val(s@, pos as int, e as int) as u16]);
        }
        return Some((v, false, Vec::new()));
    }
    if s.get_char(e) != ':' {
        return None;
    }
    if e + 1 < n && s.get_char(e + 1) == ':' {
        match groups_after_exec(s, e + 2) {
            Some((right, ())) => {
                let mut v: Vec<u16> = Vec::new();
                v.push(g);
                proof {
                    assert(v@ =~= seq![group_val(s@, pos as int, e as int) as u16]);
                }
                Some((v, true, right))
            },
            None => None,
        }
    } else if e + 1 >= n {
        None
    } else {
        match groups_before_exec(s, e + 1) {
            Some((mut left, compressed, right)) => {
                let mut v: Vec<u16> = Vec::new();
                v.push(g);
                let ghost gleft = left@;
                v.append(&mut left);
                proof {
                    assert(v@ =~= seq![group_val(s@, pos as int, e as int) as u16] + gleft);
                }
                Some((v, compressed, right))
            },
            None => None,
        }
    }
}

/// Parses `s` as an IPv6 address, returning its eight groups.
pub fn parse_ipv6(s: &str) -> (r: Option<Vec<u16>>)
    ensures
        r is None <==> spec_parse_ipv6(s@) is None,
        r matches Some(v) ==> spec_parse_ipv6(s@) == Some(v@),
{
    let n = s.unicode_len();
    if n >= 2 && s.get_char(0) == ':' && s.get_char(1) == ':' {
        match groups_after_exec(s, 2) {
            Some((right, ())) => {
                if right.len() <= 7 {
                    let mut v: Vec<u16> = zero_vec(8 - right.len());
                    let ghost gz = v@;
                    let mut right_m = right;
                    let ghost gr = right_m@;
                    v.append(&mut right_m);
                    proof {
                        assert(v@ =~= gz + gr);
                    }
                    Some(v)
                } else {
                    None
                }
            },
            None => None,
        }
    } else {
        match groups_before_exec(s, 0) {
            Some((left, compressed, right)) => {
                if !compressed {
                    if left.len() == 8 {
                        Some(left)
                    } else {
                        None
                    }
                } else {
                    if left.len() <= 7 && right.len() <= 7 - left.len() {
                        let mut v = left;
                        let ghost gl = v@;
                        let mut z = zero_vec(8 - v.len() - right.len());
                        let ghost gz = z@;
                        v.append(&mut z);
                        let mut right_m = right;
                        let ghost gr = right_m@;
                        v.append(&mut right_m);
                        proof {
                            assert(v@ =~= gl + gz + gr);
                        }
                        Some(v)
                    } else {
                        None
                    }
                }
            },
            None => None,
        }
    }
}

/// A vector of `n` zero groups.
fn zero_vec(n: usize) -> (r: Vec<u16>)
    ensures
        r@ == zero_groups(n as int),
{
    let mut v: Vec<u16> = Vec::new();
    let mut i: usize = 0;
    while i < n
        invariant
            0 <= i <= n,
            v@.len() == i,
            forall|j: int| 0 <= j < i ==> v@[j] == 0u16,
        decreases n - i,
    {
        v.push(0);
        i = i + 1;
    }
    proof {
        assert(v@ =~= zero_groups(n as int));
    }
    v
}

} // verus!
