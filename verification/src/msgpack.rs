//! The wire primitives of the envelope codec: a compact, length-prefixed,
//! schema-less binary format (msgpack-compatible).  The envelope uses three
//! families: strings (`fixstr`, `str8`, `str16`, `str32`), raw binary
//! (`bin8`, `bin16`, `bin32`) and maps (`fixmap`, `map16`, `map32`).
//!
//! Each encoding is defined once as a spec function; the executable writers
//! are proved to append exactly those bytes, and the executable readers are
//! proved to accept every encoded item and return the value it encodes.

use vstd::prelude::*;
use vstd::slice::slice_to_vec;
use vstd::utf8::encode_utf8;

verus! {

/// Lengths a 32-bit size prefix can carry; longer items cannot be encoded.
pub open spec fn fits_u32(n: nat) -> bool {
    n < 0x1_0000_0000
}

/// Big-endian bytes of a 16-bit length.
pub open spec fn be16(n: nat) -> Seq<u8>
    recommends
        n <= 0xffff,
{
    seq![(n / 0x100) as u8, (n % 0x100) as u8]
}

/// Big-endian bytes of a 32-bit length.
pub open spec fn be32(n: nat) -> Seq<u8>
    recommends
        fits_u32(n),
{
    seq![
        (n / 0x1000000) as u8,
        ((n / 0x10000) % 0x100) as u8,
        ((n / 0x100) % 0x100) as u8,
        (n % 0x100) as u8,
    ]
}

/// Header bytes announcing a string of `n` bytes.
pub open spec fn str_header(n: nat) -> Seq<u8>
    recommends
        fits_u32(n),
{
    if n <= 31 {
        seq![(0xa0 + n) as u8]
    } else if n <= 0xff {
        seq![0xd9u8, n as u8]
    } else if n <= 0xffff {
        seq![0xdau8] + be16(n)
    } else {
        seq![0xdbu8] + be32(n)
    }
}

/// Header bytes announcing a raw-binary item of `n` bytes.
pub open spec fn bin_header(n: nat) -> Seq<u8>
    recommends
        fits_u32(n),
{
    if n <= 0xff {
        seq![0xc4u8, n as u8]
    } else if n <= 0xffff {
        seq![0xc5u8] + be16(n)
    } else {
        seq![0xc6u8] + be32(n)
    }
}

/// Header bytes announcing a map of `n` key-value pairs.
pub open spec fn map_header(n: nat) -> Seq<u8>
    recommends
        fits_u32(n),
{
    if n <= 15 {
        seq![(0x80 + n) as u8]
    } else if n <= 0xffff {
        seq![0xdeu8] + be16(n)
    } else {
        seq![0xdfu8] + be32(n)
    }
}

/// A string item whose UTF-8 bytes are `b`.
pub open spec fn enc_str_raw(b: Seq<u8>) -> Seq<u8> {
    str_header(b.len()) + b
}

/// A string item carrying the characters `s`.
pub open spec fn enc_str(s: Seq<char>) -> Seq<u8> {
    enc_str_raw(encode_utf8(s))
}

/// A raw-binary item carrying the bytes `b`.
pub open spec fn enc_bin(b: Seq<u8>) -> Seq<u8> {
    bin_header(b.len()) + b
}

/// `enc` occupies `buf[pos .. pos + enc.len()]`.
pub open spec fn starts_at(enc: Seq<u8>, buf: Seq<u8>, pos: int) -> bool {
    &&& 0 <= pos
    &&& pos + enc.len() <= buf.len()
    &&& buf.subrange(pos, pos + enc.len()) == enc
}

/// Appends the big-endian bytes of a 16-bit length.
fn write_be16(out: &mut Vec<u8>, n: u16)
    ensures
        final(out)@ == old(out)@ + be16(n as nat),
{
    out.push((n / 0x100) as u8);
    out.push((n % 0x100) as u8);
    proof {
        assert(final(out)@ =~= old(out)@ + be16(n as nat));
    }
}

/// Appends the big-endian bytes of a 32-bit length.
fn write_be32(out: &mut Vec<u8>, n: u32)
    ensures
        final(out)@ == old(out)@ + be32(n as nat),
{
    out.push((n / 0x1000000) as u8);
    out.push(((n / 0x10000) % 0x100) as u8);
    out.push(((n / 0x100) % 0x100) as u8);
    out.push((n % 0x100) as u8);
    proof {
        assert(final(out)@ =~= old(out)@ + be32(n as nat));
    }
}

/// Appends a string item for the UTF-8 bytes `b`.  Fails, leaving the
/// buffer unchanged, exactly when `b` is too long for a 32-bit prefix.
pub fn write_str_bytes(out: &mut Vec<u8>, b: &[u8]) -> (ok: bool)
    ensures
        ok <==> fits_u32(b@.len()),
        ok ==> final(out)@ == old(out)@ + enc_str_raw(b@),
        !ok ==> final(out)@ == old(out)@,
{
    let n = b.len();
    if n as u64 >= 0x1_0000_0000u64 {
        return false;
    }
    if n <= 31 {
        out.push(0xa0 + n as u8);
    } else if n <= 0xff {
        out.push(0xd9);
        out.push(n as u8);
    } else if n <= 0xffff {
        out.push(0xda);
        write_be16(out, n as u16);
    } else {
        out.push(0xdb);
        write_be32(out, n as u32);
    }
    out.extend_from_slice(b);
    proof {
        assert(final(out)@ =~= old(out)@ + enc_str_raw(b@));
    }
    true
}

/// Appends a string item for the characters of `s`.  Fails, leaving the
/// buffer unchanged, exactly when the UTF-8 form of `s` is too long.
pub fn write_str(out: &mut Vec<u8>, s: &str) -> (ok: bool)
    ensures
        ok <==> fits_u32(encode_utf8(s@).len()),
        ok ==> final(out)@ == old(out)@ + enc_str(s@),
        !ok ==> final(out)@ == old(out)@,
{
    write_str_bytes(out, s.as_bytes())
}

/// Appends a raw-binary item for `b`.  Fails, leaving the buffer
/// unchanged, exactly when `b` is too long for a 32-bit prefix.
pub fn write_bin(out: &mut Vec<u8>, b: &[u8]) -> (ok: bool)
    ensures
        ok <==> fits_u32(b@.len()),
        ok ==> final(out)@ == old(out)@ + enc_bin(b@),
        !ok ==> final(out)@ == old(out)@,
{
    let n = b.len();
    if n as u64 >= 0x1_0000_0000u64 {
        return false;
    }
    if n <= 0xff {
        out.push(0xc4);
        out.push(n as u8);
    } else if n <= 0xffff {
        out.push(0xc5);
        write_be16(out, n as u16);
    } else {
        out.push(0xc6);
        write_be32(out, n as u32);
    }
    out.extend_from_slice(b);
    proof {
        assert(final(out)@ =~= old(out)@ + enc_bin(b@));
    }
    true
}

/// Appends a map header for `n` key-value pairs.  Fails, leaving the
/// buffer unchanged, exactly when `n` exceeds a 32-bit prefix.
pub fn write_map_header(out: &mut Vec<u8>, n: usize) -> (ok: bool)
    ensures
        ok <==> fits_u32(n as nat),
        ok ==> final(out)@ == old(out)@ + map_header(n as nat),
        !ok ==> final(out)@ == old(out)@,
{
    if n as u64 >= 0x1_0000_0000u64 {
        return false;
    }
    if n <= 15 {
        out.push(0x80 + n as u8);
    } else if n <= 0xffff {
        out.push(0xde);
        write_be16(out, n as u16);
    } else {
        out.push(0xdf);
        write_be32(out, n as u32);
    }
    proof {
        assert(final(out)@ =~= old(out)@ + map_header(n as nat));
    }
    true
}

/// Byte-for-byte equality of two slices.
pub fn bytes_eq(a: &[u8], b: &[u8]) -> (r: bool)
    ensures
        r <==> a@ == b@,
{
    let n = a.len();
    if n != b.len() {
        proof {
            assert(a@.len() != b@.len());
        }
        return false;
    }
    let mut i: usize = 0;
    while i < n
        invariant
            0 <= i <= n,
            n == a@.len(),
            n == b@.len(),
            forall|j: int| 0 <= j < i ==> a@[j] == b@[j],
        decreases n - i,
    {
        if a[i] != b[i] {
            return false;
        }
        i = i + 1;
    }
    proof {
        assert(a@ =~= b@);
    }
    true
}

/// Reconstructing a 32-bit length from its big-endian bytes.
proof fn lemma_be32_inverse(n: nat)
    by (nonlinear_arith)
    requires
        n < 0x1_0000_0000,
    ensures
        n == (n / 0x1000000) * 0x1000000 + ((n / 0x10000) % 0x100) * 0x10000 + ((n / 0x100)
            % 0x100) * 0x100 + n % 0x100,
{
}

/// The first byte of a string header determines the length class, and the
/// header lays out the length bytes as shown.
proof fn lemma_str_header_class(n: nat)
    requires
        fits_u32(n),
    ensures
        n <= 31 ==> str_header(n) == seq![(0xa0 + n) as u8] && 0xa0 <= str_header(n)[0] <= 0xbf,
        32 <= n <= 0xff ==> str_header(n) == seq![0xd9u8, n as u8],
        0x100 <= n <= 0xffff ==> str_header(n) == seq![
            0xdau8,
            (n / 0x100) as u8,
            (n % 0x100) as u8,
        ],
        0x10000 <= n ==> str_header(n) == seq![
            0xdbu8,
            (n / 0x1000000) as u8,
            ((n / 0x10000) % 0x100) as u8,
            ((n / 0x100) % 0x100) as u8,
            (n % 0x100) as u8,
        ],
{
    if n <= 31 {
    } else if n <= 0xff {
    } else if n <= 0xffff {
        assert(str_header(n) =~= seq![0xdau8, (n / 0x100) as u8, (n % 0x100) as u8]);
    } else {
        assert(str_header(n) =~= seq![
            0xdbu8,
            (n / 0x1000000) as u8,
            ((n / 0x10000) % 0x100) as u8,
            ((n / 0x100) % 0x100) as u8,
            (n % 0x100) as u8,
        ]);
    }
}

/// Splitting an occupied range: each half occupies its own subrange.
pub proof fn lemma_starts_at_concat(a: Seq<u8>, b: Seq<u8>, buf: Seq<u8>, pos: int)
    requires
        starts_at(a + b, buf, pos),
    ensures
        starts_at(a, buf, pos),
        starts_at(b, buf, pos + a.len()),
{
    let whole = a + b;
    assert forall|i: int| 0 <= i < whole.len() implies buf[pos + i] == whole[i] by {
        assert(buf.subrange(pos, pos + whole.len())[i] == buf[pos + i]);
    }
    assert forall|j: int| 0 <= j < b.len() implies buf[pos + a.len() + j] == b[j] by {
        assert(buf[pos + (a.len() + j)] == whole[a.len() + j]);
        assert(whole[a.len() + j] == b[j]);
    }
    assert(buf.subrange(pos, pos + a.len()) =~= a);
    assert(buf.subrange(pos + a.len(), pos + a.len() + b.len()) =~= b);
}

/// When a header-plus-payload item occupies `buf[pos..]`, the header bytes
/// stand at `pos` and the payload equals the corresponding subrange.
proof fn lemma_payload_extract(header: Seq<u8>, b: Seq<u8>, buf: Seq<u8>, pos: int)
    requires
        starts_at(header + b, buf, pos),
    ensures
        forall|i: int| 0 <= i < header.len() ==> buf[pos + i] == header[i],
        b =~= buf.subrange(pos + header.len(), pos + header.len() + b.len()),
{
    let enc = header + b;
    assert forall|i: int| 0 <= i < header.len() implies buf[pos + i] == header[i] by {
        assert(buf.subrange(pos, pos + enc.len())[i] == buf[pos + i]);
        assert(enc[i] == header[i]);
    }
    assert forall|i: int| 0 <= i < b.len() implies buf[pos + header.len() + i] == b[i] by {
        assert(buf.subrange(pos, pos + enc.len())[header.len() + i] == buf[pos + header.len()
            + i]);
        assert(enc[header.len() + i] == b[i]);
    }
}

/// Reads the payload of an item whose header occupies `hdr` bytes and
/// announces `n` payload bytes.  Succeeds exactly when the buffer is long
/// enough.
fn read_payload(buf: &[u8], pos: usize, hdr: usize, n: usize) -> (r: Option<(Vec<u8>, usize)>)
    requires
        pos <= buf@.len(),
    ensures
        r is Some <==> pos + hdr + n <= buf@.len(),
        r matches Some(p) ==> p.1 == pos + hdr + n && p.0@ == buf@.subrange(
            pos + hdr,
            pos + hdr + n,
        ),
{
    if hdr > buf.len() - pos {
        return None;
    }
    if n > buf.len() - pos - hdr {
        return None;
    }
    let start = pos + hdr;
    let end = start + n;
    let v = slice_to_vec(&buf[start..end]);
    Some((v, end))
}

/// Reads one string item.  Every encoded string whose bytes occupy
/// `buf[pos..]` is accepted and returned exactly.
pub fn read_str_raw(buf: &[u8], pos: usize) -> (r: Option<(Vec<u8>, usize)>)
    requires
        pos <= buf@.len(),
    ensures
        r matches Some(p) ==> pos <= p.1 <= buf@.len(),
        forall|b: Seq<u8>|
            #![trigger enc_str_raw(b)]
            fits_u32(b.len()) && starts_at(enc_str_raw(b), buf@, pos as int) ==> (
            r matches Some(p) && p.0@ == b && p.1 == pos + enc_str_raw(b).len()),
{
    if pos >= buf.len() {
        return None;
    }
    let h = buf[pos];
    if 0xa0 <= h && h <= 0xbf {
        let n = (h - 0xa0) as usize;
        let ret = read_payload(buf, pos, 1, n);
        proof {
            assert forall|b: Seq<u8>|
                #![trigger enc_str_raw(b)]
                fits_u32(b.len()) && starts_at(enc_str_raw(b), buf@, pos as int)
                implies (ret matches Some(p) && p.0@ == b && p.1 == pos + enc_str_raw(
                b,
            ).len()) by {
                lemma_str_header_class(b.len());
                lemma_payload_extract(str_header(b.len()), b, buf@, pos as int);
                assert(b.len() <= 31 && h == 0xa0 + b.len());
                assert(b =~= buf@.subrange(pos + 1, pos + 1 + n));
            }
        }
        return ret;
    }
    if h == 0xd9 {
        if buf.len() - pos < 2 {
            proof {
                assert forall|b: Seq<u8>|
                    #![trigger enc_str_raw(b)]
                    fits_u32(b.len()) && starts_at(enc_str_raw(b), buf@, pos as int)
                    implies false by {
                    lemma_str_header_class(b.len());
                lemma_payload_extract(str_header(b.len()), b, buf@, pos as int);
                    assert(32 <= b.len() <= 0xff);
                    assert(buf@.len() >= pos + 2 + b.len());
                }
            }
            return None;
        }
        let n = buf[pos + 1] as usize;
        let ret = read_payload(buf, pos, 2, n);
        proof {
            assert forall|b: Seq<u8>|
                #![trigger enc_str_raw(b)]
                fits_u32(b.len()) && starts_at(enc_str_raw(b), buf@, pos as int)
                implies (ret matches Some(p) && p.0@ == b && p.1 == pos + enc_str_raw(
                b,
            ).len()) by {
                lemma_str_header_class(b.len());
                lemma_payload_extract(str_header(b.len()), b, buf@, pos as int);
                assert(32 <= b.len() <= 0xff);
                assert(n == b.len());
                assert(b =~= buf@.subrange(pos + 2, pos + 2 + n));
            }
        }
        return ret;
    }
    if h == 0xda {
        if buf.len() - pos < 3 {
            proof {
                assert forall|b: Seq<u8>|
                    #![trigger enc_str_raw(b)]
                    fits_u32(b.len()) && starts_at(enc_str_raw(b), buf@, pos as int)
                    implies false by {
                    lemma_str_header_class(b.len());
                lemma_payload_extract(str_header(b.len()), b, buf@, pos as int);
                    assert(0x100 <= b.len() <= 0xffff);
                    assert(buf@.len() >= pos + 3 + b.len());
                }
            }
            return None;
        }
        let n = (buf[pos + 1] as usize) * 0x100 + (buf[pos + 2] as usize);
        let ret = read_payload(buf, pos, 3, n);
        proof {
            assert forall|b: Seq<u8>|
                #![trigger enc_str_raw(b)]
                fits_u32(b.len()) && starts_at(enc_str_raw(b), buf@, pos as int)
                implies (ret matches Some(p) && p.0@ == b && p.1 == pos + enc_str_raw(
                b,
            ).len()) by {
                lemma_str_header_class(b.len());
                lemma_payload_extract(str_header(b.len()), b, buf@, pos as int);
                assert(0x100 <= b.len() <= 0xffff);
                assert(n == (b.len() / 0x100) * 0x100 + b.len() % 0x100);
                assert(b =~= buf@.subrange(pos + 3, pos + 3 + n));
            }
        }
        return ret;
    }
    if h == 0xdb {
        if buf.len() - pos < 5 {
            proof {
                assert forall|b: Seq<u8>|
                    #![trigger enc_str_raw(b)]
                    fits_u32(b.len()) && starts_at(enc_str_raw(b), buf@, pos as int)
                    implies false by {
                    lemma_str_header_class(b.len());
                lemma_payload_extract(str_header(b.len()), b, buf@, pos as int);
                    assert(0x10000 <= b.len() < 0x1_0000_0000);
                    assert(buf@.len() >= pos + 5 + b.len());
                }
            }
            return None;
        }
        let n64 = (buf[pos + 1] as u64) * 0x1000000 + (buf[pos + 2] as u64) * 0x10000 + (buf[pos
            + 3] as u64) * 0x100 + (buf[pos + 4] as u64);
        if n64 > buf.len() as u64 {
            proof {
                assert forall|b: Seq<u8>|
                    #![trigger enc_str_raw(b)]
                    fits_u32(b.len()) && starts_at(enc_str_raw(b), buf@, pos as int)
                    implies false by {
                    lemma_str_header_class(b.len());
                lemma_payload_extract(str_header(b.len()), b, buf@, pos as int);
                    assert(0x10000 <= b.len() < 0x1_0000_0000);
                    lemma_be32_inverse(b.len());
                    assert(n64 == b.len());
                    assert(buf@.len() >= pos + 5 + b.len());
                }
            }
            return None;
        }
        let n = n64 as usize;
        let ret = read_payload(buf, pos, 5, n);
        proof {
            assert forall|b: Seq<u8>|
                #![trigger enc_str_raw(b)]
                fits_u32(b.len()) && starts_at(enc_str_raw(b), buf@, pos as int)
                implies (ret matches Some(p) && p.0@ == b && p.1 == pos + enc_str_raw(
                b,
            ).len()) by {
                lemma_str_header_class(b.len());
                lemma_payload_extract(str_header(b.len()), b, buf@, pos as int);
                assert(0x10000 <= b.len() < 0x1_0000_0000);
                lemma_be32_inverse(b.len());
                assert(n == b.len());
                assert(b =~= buf@.subrange(pos + 5, pos + 5 + n));
            }
        }
        return ret;
    }
    proof {
        assert forall|b: Seq<u8>|
            #![trigger enc_str_raw(b)]
            fits_u32(b.len()) && starts_at(enc_str_raw(b), buf@, pos as int)
            implies false by {
            lemma_str_header_class(b.len());
                lemma_payload_extract(str_header(b.len()), b, buf@, pos as int);
        }
    }
    None
}

/// The first byte of a binary header determines the length class, and the
/// header lays out the length bytes as shown.
proof fn lemma_bin_header_class(n: nat)
    requires
        fits_u32(n),
    ensures
        n <= 0xff ==> bin_header(n) == seq![0xc4u8, n as u8],
        0x100 <= n <= 0xffff ==> bin_header(n) == seq![
            0xc5u8,
            (n / 0x100) as u8,
            (n % 0x100) as u8,
        ],
        0x10000 <= n ==> bin_header(n) == seq![
            0xc6u8,
            (n / 0x1000000) as u8,
            ((n / 0x10000) % 0x100) as u8,
            ((n / 0x100) % 0x100) as u8,
            (n % 0x100) as u8,
        ],
{
    if n <= 0xff {
    } else if n <= 0xffff {
        assert(bin_header(n) =~= seq![0xc5u8, (n / 0x100) as u8, (n % 0x100) as u8]);
    } else {
        assert(bin_header(n) =~= seq![
            0xc6u8,
            (n / 0x1000000) as u8,
            ((n / 0x10000) % 0x100) as u8,
            ((n / 0x100) % 0x100) as u8,
            (n % 0x100) as u8,
        ]);
    }
}

/// Reads one raw-binary item.  Every encoded binary item whose bytes occupy
/// `buf[pos..]` is accepted and returned exactly.
pub fn read_bin(buf: &[u8], pos: usize) -> (r: Option<(Vec<u8>, usize)>)
    requires
        pos <= buf@.len(),
    ensures
        r matches Some(p) ==> pos <= p.1 <= buf@.len(),
        forall|b: Seq<u8>|
            #![trigger enc_bin(b)]
            fits_u32(b.len()) && starts_at(enc_bin(b), buf@, pos as int) ==> (
            r matches Some(p) && p.0@ == b && p.1 == pos + enc_bin(b).len()),
{
    if pos >= buf.len() {
        return None;
    }
    let h = buf[pos];
    if h == 0xc4 {
        if buf.len() - pos < 2 {
            proof {
                assert forall|b: Seq<u8>|
                    #![trigger enc_bin(b)]
                    fits_u32(b.len()) && starts_at(enc_bin(b), buf@, pos as int)
                    implies false by {
                    lemma_bin_header_class(b.len());
                    lemma_payload_extract(bin_header(b.len()), b, buf@, pos as int);
                    assert(b.len() <= 0xff);
                    assert(buf@.len() >= pos + 2 + b.len());
                }
            }
            return None;
        }
        let n = buf[pos + 1] as usize;
        let ret = read_payload(buf, pos, 2, n);
        proof {
            assert forall|b: Seq<u8>|
                #![trigger enc_bin(b)]
                fits_u32(b.len()) && starts_at(enc_bin(b), buf@, pos as int)
                implies (ret matches Some(p) && p.0@ == b && p.1 == pos + enc_bin(b).len()) by {
                lemma_bin_header_class(b.len());
                lemma_payload_extract(bin_header(b.len()), b, buf@, pos as int);
                assert(b.len() <= 0xff);
                assert(n == b.len());
                assert(b =~= buf@.subrange(pos + 2, pos + 2 + n));
            }
        }
        return ret;
    }
    if h == 0xc5 {
        if buf.len() - pos < 3 {
            proof {
                assert forall|b: Seq<u8>|
                    #![trigger enc_bin(b)]
                    fits_u32(b.len()) && starts_at(enc_bin(b), buf@, pos as int)
                    implies false by {
                    lemma_bin_header_class(b.len());
                    lemma_payload_extract(bin_header(b.len()), b, buf@, pos as int);
                    assert(0x100 <= b.len() <= 0xffff);
                    assert(buf@.len() >= pos + 3 + b.len());
                }
            }
            return None;
        }
        let n = (buf[pos + 1] as usize) * 0x100 + (buf[pos + 2] as usize);
        let ret = read_payload(buf, pos, 3, n);
        proof {
            assert forall|b: Seq<u8>|
                #![trigger enc_bin(b)]
                fits_u32(b.len()) && starts_at(enc_bin(b), buf@, pos as int)
                implies (ret matches Some(p) && p.0@ == b && p.1 == pos + enc_bin(b).len()) by {
                lemma_bin_header_class(b.len());
                lemma_payload_extract(bin_header(b.len()), b, buf@, pos as int);
                assert(0x100 <= b.len() <= 0xffff);
                assert(n == (b.len() / 0x100) * 0x100 + b.len() % 0x100);
                assert(b =~= buf@.subrange(pos + 3, pos + 3 + n));
            }
        }
        return ret;
    }
    if h == 0xc6 {
        if buf.len() - pos < 5 {
            proof {
                assert forall|b: Seq<u8>|
                    #![trigger enc_bin(b)]
                    fits_u32(b.len()) && starts_at(enc_bin(b), buf@, pos as int)
                    implies false by {
                    lemma_bin_header_class(b.len());
                    lemma_payload_extract(bin_header(b.len()), b, buf@, pos as int);
                    assert(0x10000 <= b.len());
                    assert(buf@.len() >= pos + 5 + b.len());
                }
            }
            return None;
        }
        let n64 = (buf[pos + 1] as u64) * 0x1000000 + (buf[pos + 2] as u64) * 0x10000 + (buf[pos
            + 3] as u64) * 0x100 + (buf[pos + 4] as u64);
        if n64 > buf.len() as u64 {
            proof {
                assert forall|b: Seq<u8>|
                    #![trigger enc_bin(b)]
                    fits_u32(b.len()) && starts_at(enc_bin(b), buf@, pos as int)
                    implies false by {
                    lemma_bin_header_class(b.len());
                    lemma_payload_extract(bin_header(b.len()), b, buf@, pos as int);
                    assert(0x10000 <= b.len());
                    lemma_be32_inverse(b.len());
                    assert(n64 == b.len());
                    assert(buf@.len() >= pos + 5 + b.len());
                }
            }
            return None;
        }
        let n = n64 as usize;
        let ret = read_payload(buf, pos, 5, n);
        proof {
            assert forall|b: Seq<u8>|
                #![trigger enc_bin(b)]
                fits_u32(b.len()) && starts_at(enc_bin(b), buf@, pos as int)
                implies (ret matches Some(p) && p.0@ == b && p.1 == pos + enc_bin(b).len()) by {
                lemma_bin_header_class(b.len());
                lemma_payload_extract(bin_header(b.len()), b, buf@, pos as int);
                assert(0x10000 <= b.len());
                lemma_be32_inverse(b.len());
                assert(n == b.len());
                assert(b =~= buf@.subrange(pos + 5, pos + 5 + n));
            }
        }
        return ret;
    }
    proof {
        assert forall|b: Seq<u8>|
            #![trigger enc_bin(b)]
            fits_u32(b.len()) && starts_at(enc_bin(b), buf@, pos as int)
            implies false by {
            lemma_bin_header_class(b.len());
            lemma_payload_extract(bin_header(b.len()), b, buf@, pos as int);
        }
    }
    None
}

/// The first byte of a map header determines the length class, and the
/// header lays out the count bytes as shown.
proof fn lemma_map_header_class(n: nat)
    requires
        fits_u32(n),
    ensures
        n <= 15 ==> map_header(n) == seq![(0x80 + n) as u8] && 0x80 <= map_header(n)[0] <= 0x8f,
        16 <= n <= 0xffff ==> map_header(n) == seq![
            0xdeu8,
            (n / 0x100) as u8,
            (n % 0x100) as u8,
        ],
        0x10000 <= n ==> map_header(n) == seq![
            0xdfu8,
            (n / 0x1000000) as u8,
            ((n / 0x10000) % 0x100) as u8,
            ((n / 0x100) % 0x100) as u8,
            (n % 0x100) as u8,
        ],
{
    if n <= 15 {
    } else if n <= 0xffff {
        assert(map_header(n) =~= seq![0xdeu8, (n / 0x100) as u8, (n % 0x100) as u8]);
    } else {
        assert(map_header(n) =~= seq![
            0xdfu8,
            (n / 0x1000000) as u8,
            ((n / 0x10000) % 0x100) as u8,
            ((n / 0x100) % 0x100) as u8,
            (n % 0x100) as u8,
        ]);
    }
}

/// Reads one map header, returning the announced pair count.  Every encoded
/// map header whose bytes occupy `buf[pos..]` is accepted exactly.
pub fn read_map_header(buf: &[u8], pos: usize) -> (r: Option<(u64, usize)>)
    requires
        pos <= buf@.len(),
    ensures
        r matches Some(p) ==> pos < p.1 <= buf@.len(),
        forall|n: nat|
            #![trigger map_header(n)]
            fits_u32(n) && starts_at(map_header(n), buf@, pos as int) ==> (
            r matches Some(p) && p.0 == n && p.1 == pos + map_header(n).len()),
{
    if pos >= buf.len() {
        return None;
    }
    let h = buf[pos];
    if 0x80 <= h && h <= 0x8f {
        let ret = Some((((h - 0x80) as u64), pos + 1));
        proof {
            assert forall|n: nat|
                #![trigger map_header(n)]
                fits_u32(n) && starts_at(map_header(n), buf@, pos as int)
                implies (ret matches Some(p) && p.0 == n && p.1 == pos + map_header(n).len()) by {
                lemma_map_header_class(n);
                lemma_payload_extract(map_header(n), Seq::<u8>::empty(), buf@, pos as int);
                assert(map_header(n) + Seq::<u8>::empty() =~= map_header(n));
                assert(n <= 15 && h == 0x80 + n);
            }
        }
        return ret;
    }
    if h == 0xde {
        if buf.len() - pos < 3 {
            proof {
                assert forall|n: nat|
                    #![trigger map_header(n)]
                    fits_u32(n) && starts_at(map_header(n), buf@, pos as int)
                    implies false by {
                    lemma_map_header_class(n);
                    lemma_payload_extract(map_header(n), Seq::<u8>::empty(), buf@, pos as int);
                    assert(map_header(n) + Seq::<u8>::empty() =~= map_header(n));
                    assert(16 <= n <= 0xffff);
                }
            }
            return None;
        }
        let n = (buf[pos + 1] as u64) * 0x100 + (buf[pos + 2] as u64);
        let ret = Some((n, pos + 3));
        proof {
            assert forall|m: nat|
                #![trigger map_header(m)]
                fits_u32(m) && starts_at(map_header(m), buf@, pos as int)
                implies (ret matches Some(p) && p.0 == m && p.1 == pos + map_header(m).len()) by {
                lemma_map_header_class(m);
                lemma_payload_extract(map_header(m), Seq::<u8>::empty(), buf@, pos as int);
                assert(map_header(m) + Seq::<u8>::empty() =~= map_header(m));
                assert(16 <= m <= 0xffff);
                assert(n == (m / 0x100) * 0x100 + m % 0x100);
            }
        }
        return ret;
    }
    if h == 0xdf {
        if buf.len() - pos < 5 {
            proof {
                assert forall|n: nat|
                    #![trigger map_header(n)]
                    fits_u32(n) && starts_at(map_header(n), buf@, pos as int)
                    implies false by {
                    lemma_map_header_class(n);
                    lemma_payload_extract(map_header(n), Seq::<u8>::empty(), buf@, pos as int);
                    assert(map_header(n) + Seq::<u8>::empty() =~= map_header(n));
                    assert(0x10000 <= n);
                }
            }
            return None;
        }
        let n = (buf[pos + 1] as u64) * 0x1000000 + (buf[pos + 2] as u64) * 0x10000 + (buf[pos
            + 3] as u64) * 0x100 + (buf[pos + 4] as u64);
        let ret = Some((n, pos + 5));
        proof {
            assert forall|m: nat|
                #![trigger map_header(m)]
                fits_u32(m) && starts_at(map_header(m), buf@, pos as int)
                implies (ret matches Some(p) && p.0 == m && p.1 == pos + map_header(m).len()) by {
                lemma_map_header_class(m);
                lemma_payload_extract(map_header(m), Seq::<u8>::empty(), buf@, pos as int);
                assert(map_header(m) + Seq::<u8>::empty() =~= map_header(m));
                assert(0x10000 <= m);
                lemma_be32_inverse(m);
                assert(n == m);
            }
        }
        return ret;
    }
    proof {
        assert forall|n: nat|
            #![trigger map_header(n)]
            fits_u32(n) && starts_at(map_header(n), buf@, pos as int)
            implies false by {
            lemma_map_header_class(n);
            lemma_payload_extract(map_header(n), Seq::<u8>::empty(), buf@, pos as int);
            assert(map_header(n) + Seq::<u8>::empty() =~= map_header(n));
        }
    }
    None
}

} // verus!
