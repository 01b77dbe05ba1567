//! The envelope codec: serializes a request envelope into the
//! length-prefixed map form that backend workers parse by field name.
//!
//! [`spec_encode`] defines the wire bytes of an envelope once and for all,
//! as the concatenation of its segments; [`encode_envelope`] is proved to
//! produce exactly those bytes, and the reference decoder
//! [`decode_envelope`] is proved to accept every encoded envelope and
//! return the original field values.

use crate::events::{HttpReq, Uri};
use crate::msgpack::{
    enc_bin, enc_str, enc_str_raw, fits_u32, lemma_starts_at_concat, map_header, starts_at,
    write_bin, write_map_header, write_str,
};
use crate::types::method_chars;
use vstd::prelude::*;
use vstd::string::StrSliceExecFns;
use vstd::utf8::{encode_utf8, is_ascii_chars, is_ascii_chars_encode_utf8};

verus! {

/// Envelope serialization failed: some field or map is too long for a
/// 32-bit length prefix.
#[derive(Clone, Copy, Debug, PartialEq, Eq, Structural)]
pub struct EncodeError;

/// The string-keyed, string-valued entries of `user_values` on the wire.
pub open spec fn str_pairs_wire(s: Seq<(String, String)>) -> Seq<(Seq<u8>, Seq<u8>)> {
    Seq::new(s.len(), |i: int| (encode_utf8(s[i].0@), encode_utf8(s[i].1@)))
}

/// The string-keyed, binary-valued entries of `args` on the wire.
pub open spec fn bin_pairs_wire(s: Seq<(String, Vec<u8>)>) -> Seq<(Seq<u8>, Seq<u8>)> {
    Seq::new(s.len(), |i: int| (encode_utf8(s[i].0@), s[i].1@))
}

/// The byte-level view of decoded key-value pairs.
pub open spec fn pairs_view(s: Seq<(Vec<u8>, Vec<u8>)>) -> Seq<(Seq<u8>, Seq<u8>)> {
    Seq::new(s.len(), |i: int| (s[i].0@, s[i].1@))
}

/// The wire-level content of one envelope: every field reduced to the
/// bytes it contributes.  String-typed fields hold their UTF-8 form.
pub ghost struct WireEnvelope {
    pub req_type: Seq<u8>,
    pub access_token: Seq<u8>,
    pub method: Seq<u8>,
    pub user_values: Seq<(Seq<u8>, Seq<u8>)>,
    pub path_original: Seq<u8>,
    pub scheme: Seq<u8>,
    pub path: Seq<u8>,
    pub query_string: Seq<u8>,
    pub hash: Seq<u8>,
    pub host: Seq<u8>,
    pub args: Seq<(Seq<u8>, Seq<u8>)>,
    pub body: Seq<u8>,
    pub client_ip: Seq<u8>,
}

/// The wire-level view of an envelope value.
pub open spec fn wire_view(e: &HttpReq) -> WireEnvelope {
    WireEnvelope {
        req_type: encode_utf8(e.req_type@),
        access_token: encode_utf8(e.access_token@),
        method: encode_utf8(method_chars(e.method)),
        user_values: str_pairs_wire(e.user_values@),
        path_original: e.uri.path_original@,
        scheme: e.uri.scheme@,
        path: e.uri.path@,
        query_string: e.uri.query_string@,
        hash: e.uri.hash@,
        host: e.uri.host@,
        args: bin_pairs_wire(e.uri.args.val@),
        body: e.body@,
        client_ip: encode_utf8(e.client_ip@),
    }
}

/// Map entries with string keys and string values, in order.
pub open spec fn enc_entries_str(s: Seq<(Seq<u8>, Seq<u8>)>) -> Seq<u8>
    decreases s.len(),
{
    if s.len() == 0 {
        Seq::<u8>::empty()
    } else {
        enc_str_raw(s[0].0) + enc_str_raw(s[0].1) + enc_entries_str(s.drop_first())
    }
}

/// Map entries with string keys and raw-binary values, in order.
pub open spec fn enc_entries_bin(s: Seq<(Seq<u8>, Seq<u8>)>) -> Seq<u8>
    decreases s.len(),
{
    if s.len() == 0 {
        Seq::<u8>::empty()
    } else {
        enc_str_raw(s[0].0) + enc_bin(s[0].1) + enc_entries_bin(s.drop_first())
    }
}

/// A whole map with string values.
pub open spec fn enc_map_str(s: Seq<(Seq<u8>, Seq<u8>)>) -> Seq<u8> {
    map_header(s.len()) + enc_entries_str(s)
}

/// A whole map with raw-binary values.
pub open spec fn enc_map_bin(s: Seq<(Seq<u8>, Seq<u8>)>) -> Seq<u8> {
    map_header(s.len()) + enc_entries_bin(s)
}

/// Every key and value short enough for its length prefix, and the map
/// itself short enough for its pair count.
pub open spec fn wf_entries(s: Seq<(Seq<u8>, Seq<u8>)>) -> bool {
    &&& fits_u32(s.len())
    &&& forall|i: int|
        0 <= i < s.len() ==> fits_u32((#[trigger] s[i]).0.len()) && fits_u32(s[i].1.len())
}

/// Every field of the envelope short enough to encode.
pub open spec fn wf_wire(w: WireEnvelope) -> bool {
    &&& fits_u32(w.req_type.len())
    &&& fits_u32(w.access_token.len())
    &&& fits_u32(w.method.len())
    &&& wf_entries(w.user_values)
    &&& fits_u32(w.path_original.len())
    &&& fits_u32(w.scheme.len())
    &&& fits_u32(w.path.len())
    &&& fits_u32(w.query_string.len())
    &&& fits_u32(w.hash.len())
    &&& fits_u32(w.host.len())
    &&& wf_entries(w.args)
    &&& fits_u32(w.body.len())
    &&& fits_u32(w.client_ip.len())
}

/// All the segments of a byte string, concatenated in order.
pub open spec fn concat_all(ss: Seq<Seq<u8>>) -> Seq<u8>
    decreases ss.len(),
{
    if ss.len() == 0 {
        Seq::<u8>::empty()
    } else {
        ss[0] + concat_all(ss.drop_first())
    }
}

/// The byte offset at which segment `k` starts.
pub open spec fn seg_off(ss: Seq<Seq<u8>>, k: int) -> int
    decreases k,
{
    if k <= 0 {
        0
    } else {
        seg_off(ss, k - 1) + ss[k - 1].len()
    }
}

/// The segments of the `uri` field's value: a seven-entry map whose
/// `args` entry nests the single-field `val` map.
pub open spec fn uri_segs(
    path_original: Seq<u8>,
    scheme: Seq<u8>,
    path: Seq<u8>,
    query_string: Seq<u8>,
    hash: Seq<u8>,
    host: Seq<u8>,
    args: Seq<(Seq<u8>, Seq<u8>)>,
) -> Seq<Seq<u8>> {
    seq![
        map_header(7),
        enc_str("path_original"@),
        enc_bin(path_original),
        enc_str("scheme"@),
        enc_bin(scheme),
        enc_str("path"@),
        enc_bin(path),
        enc_str("query_string"@),
        enc_bin(query_string),
        enc_str("hash"@),
        enc_bin(hash),
        enc_str("host"@),
        enc_bin(host),
        enc_str("args"@),
        map_header(1),
        enc_str("val"@),
        enc_map_bin(args),
    ]
}

/// The wire bytes of the `uri` field's value.
pub open spec fn spec_encode_uri(w: WireEnvelope) -> Seq<u8> {
    concat_all(
        uri_segs(w.path_original, w.scheme, w.path, w.query_string, w.hash, w.host, w.args),
    )
}

/// The segments of a whole envelope: a seven-entry map in fixed field
/// order, keyed by the stable field names.
pub open spec fn env_segs(w: WireEnvelope) -> Seq<Seq<u8>> {
    seq![
        map_header(7),
        enc_str("type"@),
        enc_str_raw(w.req_type),
        enc_str("access_token"@),
        enc_str_raw(w.access_token),
        enc_str("method"@),
        enc_str_raw(w.method),
        enc_str("user_values"@),
        enc_map_str(w.user_values),
        enc_str("uri"@),
        spec_encode_uri(w),
        enc_str("body"@),
        enc_bin(w.body),
        enc_str("client_ip"@),
        enc_str_raw(w.client_ip),
    ]
}

/// The wire bytes of a whole envelope.
pub open spec fn spec_encode(w: WireEnvelope) -> Seq<u8> {
    concat_all(env_segs(w))
}

/// ASCII text encodes to one byte per character.
proof fn lemma_ascii_len(s: Seq<char>)
    requires
        is_ascii_chars(s),
    ensures
        encode_utf8(s).len() == s.len(),
{
    is_ascii_chars_encode_utf8(s);
}

/// The short ASCII field names always fit their length prefixes.
pub(crate) proof fn lemma_key_fits(s: Seq<char>)
    requires
        is_ascii_chars(s),
        s.len() <= 31,
    ensures
        fits_u32(encode_utf8(s).len()),
{
    lemma_ascii_len(s);
}

/// Every method name fits a string length prefix.
proof fn lemma_method_fits(m: crate::types::HttpMethod)
    ensures
        fits_u32(encode_utf8(method_chars(m)).len()),
{
    reveal_strlit("GET");
    reveal_strlit("POST");
    reveal_strlit("PUT");
    reveal_strlit("DELETE");
    reveal_strlit("PATCH");
    reveal_strlit("HEAD");
    reveal_strlit("OPTIONS");
    match m {
        crate::types::HttpMethod::Get => lemma_key_fits("GET"@),
        crate::types::HttpMethod::Post => lemma_key_fits("POST"@),
        crate::types::HttpMethod::Put => lemma_key_fits("PUT"@),
        crate::types::HttpMethod::Delete => lemma_key_fits("DELETE"@),
        crate::types::HttpMethod::Patch => lemma_key_fits("PATCH"@),
        crate::types::HttpMethod::Head => lemma_key_fits("HEAD"@),
        crate::types::HttpMethod::Options => lemma_key_fits("OPTIONS"@),
    }
}

/// Appending one entry to a string-valued map appends its encoding.
proof fn lemma_enc_entries_str_push(s: Seq<(Seq<u8>, Seq<u8>)>, x: (Seq<u8>, Seq<u8>))
    ensures
        enc_entries_str(s.push(x)) == enc_entries_str(s) + enc_str_raw(x.0) + enc_str_raw(x.1),
    decreases s.len(),
{
    if s.len() == 0 {
        assert(s.push(x)[0] == x);
        assert(s.push(x).drop_first() =~= s);
        assert(enc_entries_str(s.push(x)) =~= enc_entries_str(s) + enc_str_raw(x.0) + enc_str_raw(
            x.1,
        ));
    } else {
        lemma_enc_entries_str_push(s.drop_first(), x);
        assert(s.push(x)[0] == s[0]);
        assert(s.push(x).drop_first() =~= s.drop_first().push(x));
        assert(enc_entries_str(s.push(x)) =~= enc_entries_str(s) + enc_str_raw(x.0) + enc_str_raw(
            x.1,
        ));
    }
}

/// Appending one entry to a binary-valued map appends its encoding.
proof fn lemma_enc_entries_bin_push(s: Seq<(Seq<u8>, Seq<u8>)>, x: (Seq<u8>, Seq<u8>))
    ensures
        enc_entries_bin(s.push(x)) == enc_entries_bin(s) + enc_str_raw(x.0) + enc_bin(x.1),
    decreases s.len(),
{
    if s.len() == 0 {
        assert(s.push(x)[0] == x);
        assert(s.push(x).drop_first() =~= s);
        assert(enc_entries_bin(s.push(x)) =~= enc_entries_bin(s) + enc_str_raw(x.0) + enc_bin(
            x.1,
        ));
    } else {
        lemma_enc_entries_bin_push(s.drop_first(), x);
        assert(s.push(x)[0] == s[0]);
        assert(s.push(x).drop_first() =~= s.drop_first().push(x));
        assert(enc_entries_bin(s.push(x)) =~= enc_entries_bin(s) + enc_str_raw(x.0) + enc_bin(
            x.1,
        ));
    }
}

/// Appending one segment extends the concatenation by that segment.
proof fn lemma_concat_all_push(ss: Seq<Seq<u8>>, x: Seq<u8>)
    ensures
        concat_all(ss.push(x)) == concat_all(ss) + x,
    decreases ss.len(),
{
    if ss.len() == 0 {
        assert(ss.push(x)[0] == x);
        assert(ss.push(x).drop_first() =~= ss);
        assert(concat_all(ss.push(x)) =~= concat_all(ss) + x);
    } else {
        lemma_concat_all_push(ss.drop_first(), x);
        assert(ss.push(x)[0] == ss[0]);
        assert(ss.push(x).drop_first() =~= ss.drop_first().push(x));
        assert(concat_all(ss.push(x)) =~= concat_all(ss) + x);
    }
}

/// One step of building a concatenation segment by segment.
proof fn lemma_concat_all_step(ss: Seq<Seq<u8>>, k: int)
    requires
        0 <= k < ss.len(),
    ensures
        concat_all(ss.take(k + 1)) == concat_all(ss.take(k)) + ss[k],
{
    assert(ss.take(k + 1) =~= ss.take(k).push(ss[k]));
    lemma_concat_all_push(ss.take(k), ss[k]);
}

/// A byte string built by appending fifteen segments in order is their
/// concatenation.
proof fn lemma_concat_15(ss: Seq<Seq<u8>>, b: Seq<u8>)
    requires
        ss.len() == 15,
        b == Seq::<u8>::empty() + ss[0] + ss[1] + ss[2] + ss[3] + ss[4] + ss[5] + ss[6] + ss[7]
            + ss[8] + ss[9] + ss[10] + ss[11] + ss[12] + ss[13] + ss[14],
    ensures
        b == concat_all(ss),
{
    assert(ss.take(0) =~= Seq::<Seq<u8>>::empty());
    lemma_concat_all_step(ss, 0);
    lemma_concat_all_step(ss, 1);
    lemma_concat_all_step(ss, 2);
    lemma_concat_all_step(ss, 3);
    lemma_concat_all_step(ss, 4);
    lemma_concat_all_step(ss, 5);
    lemma_concat_all_step(ss, 6);
    lemma_concat_all_step(ss, 7);
    lemma_concat_all_step(ss, 8);
    lemma_concat_all_step(ss, 9);
    lemma_concat_all_step(ss, 10);
    lemma_concat_all_step(ss, 11);
    lemma_concat_all_step(ss, 12);
    lemma_concat_all_step(ss, 13);
    lemma_concat_all_step(ss, 14);
    assert(ss.take(15) =~= ss);
    assert(b =~= concat_all(ss));
}

/// A byte string built by appending seventeen segments in order is their
/// concatenation.
proof fn lemma_concat_17(ss: Seq<Seq<u8>>, b: Seq<u8>)
    requires
        ss.len() == 17,
        b == Seq::<u8>::empty() + ss[0] + ss[1] + ss[2] + ss[3] + ss[4] + ss[5] + ss[6] + ss[7]
            + ss[8] + ss[9] + ss[10] + ss[11] + ss[12] + ss[13] + ss[14] + ss[15] + ss[16],
    ensures
        b == concat_all(ss),
{
    assert(ss.take(0) =~= Seq::<Seq<u8>>::empty());
    lemma_concat_all_step(ss, 0);
    lemma_concat_all_step(ss, 1);
    lemma_concat_all_step(ss, 2);
    lemma_concat_all_step(ss, 3);
    lemma_concat_all_step(ss, 4);
    lemma_concat_all_step(ss, 5);
    lemma_concat_all_step(ss, 6);
    lemma_concat_all_step(ss, 7);
    lemma_concat_all_step(ss, 8);
    lemma_concat_all_step(ss, 9);
    lemma_concat_all_step(ss, 10);
    lemma_concat_all_step(ss, 11);
    lemma_concat_all_step(ss, 12);
    lemma_concat_all_step(ss, 13);
    lemma_concat_all_step(ss, 14);
    lemma_concat_all_step(ss, 15);
    lemma_concat_all_step(ss, 16);
    assert(ss.take(17) =~= ss);
    assert(b =~= concat_all(ss));
}

/// The head segments of an envelope: the map header and the first four
/// fields, through `user_values`.
pub open spec fn env_head_segs(w: WireEnvelope) -> Seq<Seq<u8>> {
    seq![
        map_header(7),
        enc_str("type"@),
        enc_str_raw(w.req_type),
        enc_str("access_token"@),
        enc_str_raw(w.access_token),
        enc_str("method"@),
        enc_str_raw(w.method),
        enc_str("user_values"@),
        enc_map_str(w.user_values),
    ]
}

/// Concatenating two segment lists concatenates their byte strings.
proof fn lemma_concat_all_append(ss: Seq<Seq<u8>>, ts: Seq<Seq<u8>>)
    ensures
        concat_all(ss + ts) == concat_all(ss) + concat_all(ts),
    decreases ss.len(),
{
    if ss.len() == 0 {
        assert(ss + ts =~= ts);
        assert(concat_all(ss) + concat_all(ts) =~= concat_all(ts));
    } else {
        assert((ss + ts)[0] == ss[0]);
        assert((ss + ts).drop_first() =~= ss.drop_first() + ts);
        lemma_concat_all_append(ss.drop_first(), ts);
        assert(concat_all(ss + ts) =~= concat_all(ss) + concat_all(ts));
    }
}

/// A byte string built by appending nine segments in order is their
/// concatenation.
proof fn lemma_concat_9(ss: Seq<Seq<u8>>, b: Seq<u8>)
    requires
        ss.len() == 9,
        b == Seq::<u8>::empty() + ss[0] + ss[1] + ss[2] + ss[3] + ss[4] + ss[5] + ss[6] + ss[7]
            + ss[8],
    ensures
        b == concat_all(ss),
{
    assert(ss.take(0) =~= Seq::<Seq<u8>>::empty());
    lemma_concat_all_step(ss, 0);
    lemma_concat_all_step(ss, 1);
    lemma_concat_all_step(ss, 2);
    lemma_concat_all_step(ss, 3);
    lemma_concat_all_step(ss, 4);
    lemma_concat_all_step(ss, 5);
    lemma_concat_all_step(ss, 6);
    lemma_concat_all_step(ss, 7);
    lemma_concat_all_step(ss, 8);
    assert(ss.take(9) =~= ss);
    assert(b =~= concat_all(ss));
}

/// The concatenation of six segments, written out.
proof fn lemma_concat_6(ss: Seq<Seq<u8>>)
    requires
        ss.len() == 6,
    ensures
        concat_all(ss) == Seq::<u8>::empty() + ss[0] + ss[1] + ss[2] + ss[3] + ss[4] + ss[5],
{
    assert(ss.take(0) =~= Seq::<Seq<u8>>::empty());
    lemma_concat_all_step(ss, 0);
    lemma_concat_all_step(ss, 1);
    lemma_concat_all_step(ss, 2);
    lemma_concat_all_step(ss, 3);
    lemma_concat_all_step(ss, 4);
    lemma_concat_all_step(ss, 5);
    assert(ss.take(6) =~= ss);
    assert(concat_all(ss) =~= Seq::<u8>::empty() + ss[0] + ss[1] + ss[2] + ss[3] + ss[4] + ss[5]);
}

/// Dropping the first segment shifts every offset down by its length.
proof fn lemma_seg_off_drop(ss: Seq<Seq<u8>>, k: int)
    requires
        1 <= k <= ss.len(),
    ensures
        seg_off(ss, k) == ss[0].len() + seg_off(ss.drop_first(), k - 1),
    decreases k,
{
    reveal_with_fuel(seg_off, 3);
    if k == 1 {
    } else {
        lemma_seg_off_drop(ss, k - 1);
        assert(ss.drop_first()[k - 2] == ss[k - 1]);
    }
}

/// When a concatenation of segments occupies `buf[pos..]`, each segment
/// occupies its own subrange, at its cumulative offset.
pub(crate) proof fn lemma_concat_all_segments(ss: Seq<Seq<u8>>, buf: Seq<u8>, pos: int)
    requires
        starts_at(concat_all(ss), buf, pos),
    ensures
        forall|k: int| 0 <= k < ss.len() ==> starts_at(ss[k], buf, pos + seg_off(ss, k)),
        concat_all(ss).len() == seg_off(ss, ss.len() as int),
    decreases ss.len(),
{
    if ss.len() == 0 {
    } else {
        lemma_starts_at_concat(ss[0], concat_all(ss.drop_first()), buf, pos);
        lemma_concat_all_segments(ss.drop_first(), buf, pos + ss[0].len());
        assert forall|k: int| 0 <= k < ss.len() implies starts_at(
            ss[k],
            buf,
            pos + seg_off(ss, k),
        ) by {
            if k > 0 {
                lemma_seg_off_drop(ss, k);
                assert(ss.drop_first()[k - 1] == ss[k]);
                assert(starts_at(
                    ss.drop_first()[k - 1],
                    buf,
                    pos + ss[0].len() + seg_off(ss.drop_first(), k - 1),
                ));
            }
        }
        lemma_seg_off_drop(ss, ss.len() as int);
    }
}

/// Writes a map whose keys and values are strings.  Fails exactly when the
/// count or some entry exceeds a 32-bit prefix.
fn encode_str_map(entries: &Vec<(String, String)>) -> (r: Option<Vec<u8>>)
    ensures
        r is Some <==> wf_entries(str_pairs_wire(entries@)),
        r matches Some(v) ==> v@ == enc_map_str(str_pairs_wire(entries@)),
{
    let mut out: Vec<u8> = Vec::new();
    let ghost wire = str_pairs_wire(entries@);
    let n = entries.len();
    if !write_map_header(&mut out, n) {
        return None;
    }
    proof {
        assert(out@ =~= map_header(n as nat));
    }
    let mut i: usize = 0;
    while i < n
        invariant
            0 <= i <= n,
            n == entries@.len(),
            wire == str_pairs_wire(entries@),
            fits_u32(n as nat),
            out@ == map_header(n as nat) + enc_entries_str(wire.take(i as int)),
            forall|j: int|
                0 <= j < i ==> fits_u32((#[trigger] wire[j]).0.len()) && fits_u32(wire[j].1.len()),
        decreases n - i,
    {
        if !write_str(&mut out, entries[i].0.as_str()) {
            proof {
                assert(!fits_u32(wire[i as int].0.len()));
            }
            return None;
        }
        if !write_str(&mut out, entries[i].1.as_str()) {
            proof {
                assert(!fits_u32(wire[i as int].1.len()));
            }
            return None;
        }
        proof {
            lemma_enc_entries_str_push(wire.take(i as int), wire[i as int]);
            assert(wire.take(i + 1) =~= wire.take(i as int).push(wire[i as int]));
            assert(out@ =~= map_header(n as nat) + enc_entries_str(wire.take(i + 1)));
        }
        i = i + 1;
    }
    proof {
        assert(wire.take(n as int) =~= wire);
    }
    Some(out)
}

/// Writes a map whose keys are strings and whose values are raw binary.
/// Fails exactly when the count or some entry exceeds a 32-bit prefix.
fn encode_bin_map(entries: &Vec<(String, Vec<u8>)>) -> (r: Option<Vec<u8>>)
    ensures
        r is Some <==> wf_entries(bin_pairs_wire(entries@)),
        r matches Some(v) ==> v@ == enc_map_bin(bin_pairs_wire(entries@)),
{
    let mut out: Vec<u8> = Vec::new();
    let ghost wire = bin_pairs_wire(entries@);
    let n = entries.len();
    if !write_map_header(&mut out, n) {
        return None;
    }
    proof {
        assert(out@ =~= map_header(n as nat));
    }
    let mut i: usize = 0;
    while i < n
        invariant
            0 <= i <= n,
            n == entries@.len(),
            wire == bin_pairs_wire(entries@),
            fits_u32(n as nat),
            out@ == map_header(n as nat) + enc_entries_bin(wire.take(i as int)),
            forall|j: int|
                0 <= j < i ==> fits_u32((#[trigger] wire[j]).0.len()) && fits_u32(wire[j].1.len()),
        decreases n - i,
    {
        if !write_str(&mut out, entries[i].0.as_str()) {
            proof {
                assert(!fits_u32(wire[i as int].0.len()));
            }
            return None;
        }
        if !write_bin(&mut out, entries[i].1.as_slice()) {
            proof {
                assert(!fits_u32(wire[i as int].1.len()));
            }
            return None;
        }
        proof {
            lemma_enc_entries_bin_push(wire.take(i as int), wire[i as int]);
            assert(wire.take(i + 1) =~= wire.take(i as int).push(wire[i as int]));
            assert(out@ =~= map_header(n as nat) + enc_entries_bin(wire.take(i + 1)));
        }
        i = i + 1;
    }
    proof {
        assert(wire.take(n as int) =~= wire);
    }
    Some(out)
}

/// Writes the `uri` field's value.  Fails exactly when some component or
/// the `args` map exceeds a 32-bit prefix.
#[verifier::rlimit(100)]
fn encode_uri(uri: &Uri) -> (r: Option<Vec<u8>>)
    ensures
        r is Some <==> fits_u32(uri.path_original@.len()) && fits_u32(uri.scheme@.len())
            && fits_u32(uri.path@.len()) && fits_u32(uri.query_string@.len()) && fits_u32(
            uri.hash@.len(),
        ) && fits_u32(uri.host@.len()) && wf_entries(bin_pairs_wire(uri.args.val@)),
        r matches Some(v) ==> v@ == concat_all(
            uri_segs(
                uri.path_original@,
                uri.scheme@,
                uri.path@,
                uri.query_string@,
                uri.hash@,
                uri.host@,
                bin_pairs_wire(uri.args.val@),
            ),
        ),
{
    let mut out: Vec<u8> = Vec::new();
    proof {
        reveal_strlit("path_original");
        reveal_strlit("scheme");
        reveal_strlit("path");
        reveal_strlit("query_string");
        reveal_strlit("hash");
        reveal_strlit("host");
        reveal_strlit("args");
        reveal_strlit("val");
        lemma_key_fits("path_original"@);
        lemma_key_fits("scheme"@);
        lemma_key_fits("path"@);
        lemma_key_fits("query_string"@);
        lemma_key_fits("hash"@);
        lemma_key_fits("host"@);
        lemma_key_fits("args"@);
        lemma_key_fits("val"@);
    }
    let ok_h = write_map_header(&mut out, 7);
    assert(ok_h);
    let ok1 = write_str(&mut out, "path_original");
    assert(ok1);
    if !write_bin(&mut out, uri.path_original.as_slice()) {
        return None;
    }
    let ok2 = write_str(&mut out, "scheme");
    assert(ok2);
    if !write_bin(&mut out, uri.scheme.as_slice()) {
        return None;
    }
    let ok3 = write_str(&mut out, "path");
    assert(ok3);
    if !write_bin(&mut out, uri.path.as_slice()) {
        return None;
    }
    let ok4 = write_str(&mut out, "query_string");
    assert(ok4);
    if !write_bin(&mut out, uri.query_string.as_slice()) {
        return None;
    }
    let ok5 = write_str(&mut out, "hash");
    assert(ok5);
    if !write_bin(&mut out, uri.hash.as_slice()) {
        return None;
    }
    let ok6 = write_str(&mut out, "host");
    assert(ok6);
    if !write_bin(&mut out, uri.host.as_slice()) {
        return None;
    }
    let ok7 = write_str(&mut out, "args");
    assert(ok7);
    let ok8 = write_map_header(&mut out, 1);
    assert(ok8);
    let ok9 = write_str(&mut out, "val");
    assert(ok9);
    match encode_bin_map(&uri.args.val) {
        None => None,
        Some(mut m) => {
            out.append(&mut m);
            proof {
                let ss = uri_segs(
                    uri.path_original@,
                    uri.scheme@,
                    uri.path@,
                    uri.query_string@,
                    uri.hash@,
                    uri.host@,
                    bin_pairs_wire(uri.args.val@),
                );
                lemma_concat_17(ss, out@);
            }
            Some(out)
        },
    }
}

/// Writes the envelope's map header and its first four fields, through
/// `user_values`.  Fails exactly when one of those fields is too long.
#[verifier::rlimit(100)]
fn encode_env_head(e: &HttpReq) -> (r: Option<Vec<u8>>)
    ensures
        r is Some <==> fits_u32(encode_utf8(e.req_type@).len()) && fits_u32(
            encode_utf8(e.access_token@).len(),
        ) && wf_entries(str_pairs_wire(e.user_values@)),
        r matches Some(v) ==> v@ == concat_all(env_head_segs(wire_view(e))),
{
    proof {
        reveal_strlit("type");
        reveal_strlit("access_token");
        reveal_strlit("method");
        reveal_strlit("user_values");
        lemma_key_fits("type"@);
        lemma_key_fits("access_token"@);
        lemma_key_fits("method"@);
        lemma_key_fits("user_values"@);
        lemma_method_fits(e.method);
    }
    let mut out: Vec<u8> = Vec::new();
    let ok_h = write_map_header(&mut out, 7);
    assert(ok_h);
    let ok1 = write_str(&mut out, "type");
    assert(ok1);
    if !write_str(&mut out, e.req_type.as_str()) {
        return None;
    }
    let ok2 = write_str(&mut out, "access_token");
    assert(ok2);
    if !write_str(&mut out, e.access_token.as_str()) {
        return None;
    }
    let ok3 = write_str(&mut out, "method");
    assert(ok3);
    let ok_m = write_str(&mut out, e.method.as_str());
    assert(ok_m);
    let ok4 = write_str(&mut out, "user_values");
    assert(ok4);
    match encode_str_map(&e.user_values) {
        None => {
            return None;
        },
        Some(mut m) => {
            out.append(&mut m);
        },
    }
    proof {
        lemma_concat_9(env_head_segs(wire_view(e)), out@);
    }
    Some(out)
}

/// Assembling the head and tail buffers yields the whole envelope
/// encoding.
#[verifier::rlimit(100)]
proof fn lemma_env_assemble(w: WireEnvelope, b: Seq<u8>)
    requires
        b == concat_all(env_head_segs(w)) + (Seq::<u8>::empty() + enc_str("uri"@)
            + spec_encode_uri(w) + enc_str("body"@) + enc_bin(w.body) + enc_str("client_ip"@)
            + enc_str_raw(w.client_ip)),
    ensures
        b == spec_encode(w),
{
    let hs = env_head_segs(w);
    let ts = seq![
        enc_str("uri"@),
        spec_encode_uri(w),
        enc_str("body"@),
        enc_bin(w.body),
        enc_str("client_ip"@),
        enc_str_raw(w.client_ip),
    ];
    assert(env_segs(w) =~= hs + ts);
    lemma_concat_all_append(hs, ts);
    lemma_concat_6(ts);
    assert(b =~= concat_all(hs) + concat_all(ts));
}

/// Writes the envelope's trailing fields: `uri`, `body` and `client_ip`.
/// Fails exactly when one of them is too long.
#[verifier::rlimit(100)]
fn encode_env_tail(e: &HttpReq) -> (r: Option<Vec<u8>>)
    ensures
        r is Some <==> fits_u32(e.uri.path_original@.len()) && fits_u32(e.uri.scheme@.len())
            && fits_u32(e.uri.path@.len()) && fits_u32(e.uri.query_string@.len()) && fits_u32(
            e.uri.hash@.len(),
        ) && fits_u32(e.uri.host@.len()) && wf_entries(bin_pairs_wire(e.uri.args.val@))
            && fits_u32(e.body@.len()) && fits_u32(encode_utf8(e.client_ip@).len()),
        r matches Some(v) ==> v@ == Seq::<u8>::empty() + enc_str("uri"@) + spec_encode_uri(
            wire_view(e),
        ) + enc_str("body"@) + enc_bin(e.body@) + enc_str("client_ip"@) + enc_str_raw(
            encode_utf8(e.client_ip@),
        ),
{
    proof {
        reveal_strlit("uri");
        reveal_strlit("body");
        reveal_strlit("client_ip");
        lemma_key_fits("uri"@);
        lemma_key_fits("body"@);
        lemma_key_fits("client_ip"@);
    }
    let mut out: Vec<u8> = Vec::new();
    let ok5 = write_str(&mut out, "uri");
    assert(ok5);
    match encode_uri(&e.uri) {
        None => {
            return None;
        },
        Some(mut u) => {
            out.append(&mut u);
        },
    }
    let ok6 = write_str(&mut out, "body");
    assert(ok6);
    if !write_bin(&mut out, e.body.as_slice()) {
        return None;
    }
    let ok7 = write_str(&mut out, "client_ip");
    assert(ok7);
    if !write_str(&mut out, e.client_ip.as_str()) {
        return None;
    }
    Some(out)
}

/// Serializes the envelope.  Succeeds exactly when every field fits its
/// 32-bit length prefix, and then returns precisely the bytes that
/// [`spec_encode`] assigns to the envelope's wire view.
#[verifier::rlimit(100)]
pub fn encode_envelope(e: &HttpReq) -> (r: Result<Vec<u8>, EncodeError>)
    ensures
        r is Ok <==> wf_wire(wire_view(e)),
        r matches Ok(buf) ==> buf@ == spec_encode(wire_view(e)),
{
    proof {
        lemma_method_fits(e.method);
    }
    let mut out: Vec<u8> = match encode_env_head(e) {
        None => {
            return Err(EncodeError);
        },
        Some(v) => v,
    };
    match encode_env_tail(e) {
        None => {
            return Err(EncodeError);
        },
        Some(mut t) => {
            out.append(&mut t);
        },
    }
    proof {
        lemma_env_assemble(wire_view(e), out@);
    }
    Ok(out)
}


/// Encoding is deterministic: envelopes with equal wire views encode to
/// the same bytes.  Every map-valued field is carried in insertion order,
/// so no iteration-order variation can reach the wire.
pub proof fn lemma_encode_deterministic(e1: &HttpReq, e2: &HttpReq)
    requires
        wire_view(e1) == wire_view(e2),
    ensures
        spec_encode(wire_view(e1)) == spec_encode(wire_view(e2)),
{
}

} // verus!
