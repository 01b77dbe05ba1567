//! The reference decoder for the envelope wire format.
//!
//! The decoder walks the seven-entry map, checks every field name, and
//! collects the field values.  Its contract is completeness: every buffer
//! produced by [`crate::codec::spec_encode`] is accepted and yields the
//! original field values, byte for byte.

use crate::codec::{
    concat_all, enc_entries_bin, enc_entries_str, enc_map_bin, enc_map_str, env_segs,
    lemma_concat_all_segments, lemma_key_fits, pairs_view, seg_off, spec_encode, spec_encode_uri,
    uri_segs, wf_entries, wf_wire, WireEnvelope,
};
use crate::msgpack::{
    bytes_eq, enc_bin, enc_str, enc_str_raw, fits_u32, lemma_starts_at_concat, map_header,
    read_bin, read_map_header, read_str_raw, starts_at,
};
use vstd::prelude::*;
use vstd::utf8::encode_utf8;

verus! {

/// The field names of the `uri` map all fit their length prefixes.
proof fn lemma_uri_keys_fit()
    ensures
        fits_u32(encode_utf8("path_original"@).len()),
        fits_u32(encode_utf8("scheme"@).len()),
        fits_u32(encode_utf8("path"@).len()),
        fits_u32(encode_utf8("query_string"@).len()),
        fits_u32(encode_utf8("hash"@).len()),
        fits_u32(encode_utf8("host"@).len()),
        fits_u32(encode_utf8("args"@).len()),
        fits_u32(encode_utf8("val"@).len()),
{
    reveal_strlit("path_original");
    reveal_strlit("scheme");
    reveal_strlit("path");
    reveal_strlit("query_string");
    reveal_strlit("hash");
    reveal_strlit("host");
    reveal_strlit("args");
    reveal_strlit("val");
    lemma_key_fits("path_original"@);
    lemma_key_fits("scheme"@);
    lemma_key_fits("path"@);
    lemma_key_fits("query_string"@);
    lemma_key_fits("hash"@);
    lemma_key_fits("host"@);
    lemma_key_fits("args"@);
    lemma_key_fits("val"@);
}

/// The field names of the envelope map all fit their length prefixes.
proof fn lemma_env_keys_fit()
    ensures
        fits_u32(encode_utf8("type"@).len()),
        fits_u32(encode_utf8("access_token"@).len()),
        fits_u32(encode_utf8("method"@).len()),
        fits_u32(encode_utf8("user_values"@).len()),
        fits_u32(encode_utf8("uri"@).len()),
        fits_u32(encode_utf8("body"@).len()),
        fits_u32(encode_utf8("client_ip"@).len()),
{
    reveal_strlit("type");
    reveal_strlit("access_token");
    reveal_strlit("method");
    reveal_strlit("user_values");
    reveal_strlit("uri");
    reveal_strlit("body");
    reveal_strlit("client_ip");
    lemma_key_fits("type"@);
    lemma_key_fits("access_token"@);
    lemma_key_fits("method"@);
    lemma_key_fits("user_values"@);
    lemma_key_fits("uri"@);
    lemma_key_fits("body"@);
    lemma_key_fits("client_ip"@);
}


/// Where each segment of an encoded `uri` value stands in the buffer.
#[verifier::rlimit(100)]
proof fn lemma_uri_layout(w: WireEnvelope, buf: Seq<u8>, pos: int)
    requires
        starts_at(spec_encode_uri(w), buf, pos),
    ensures
        starts_at(map_header(7), buf, pos),
        starts_at(enc_str("path_original"@), buf, pos + map_header(7).len()),
        starts_at(enc_bin(w.path_original), buf, pos + map_header(7).len() + enc_str("path_original"@).len()),
        starts_at(enc_str("scheme"@), buf, pos + map_header(7).len() + enc_str("path_original"@).len() + enc_bin(w.path_original).len()),
        starts_at(enc_bin(w.scheme), buf, pos + map_header(7).len() + enc_str("path_original"@).len() + enc_bin(w.path_original).len() + enc_str("scheme"@).len()),
        starts_at(enc_str("path"@), buf, pos + map_header(7).len() + enc_str("path_original"@).len() + enc_bin(w.path_original).len() + enc_str("scheme"@).len() + enc_bin(w.scheme).len()),
        starts_at(enc_bin(w.path), buf, pos + map_header(7).len() + enc_str("path_original"@).len() + enc_bin(w.path_original).len() + enc_str("scheme"@).len() + enc_bin(w.scheme).len() + enc_str("path"@).len()),
        starts_at(enc_str("query_string"@), buf, pos + map_header(7).len() + enc_str("path_original"@).len() + enc_bin(w.path_original).len() + enc_str("scheme"@).len() + enc_bin(w.scheme).len() + enc_str("path"@).len() + enc_bin(w.path).len()),
        starts_at(enc_bin(w.query_string), buf, pos + map_header(7).len() + enc_str("path_original"@).len() + enc_bin(w.path_original).len() + enc_str("scheme"@).len() + enc_bin(w.scheme).len() + enc_str("path"@).len() + enc_bin(w.path).len() + enc_str("query_string"@).len()),
        starts_at(enc_str("hash"@), buf, pos + map_header(7).len() + enc_str("path_original"@).len() + enc_bin(w.path_original).len() + enc_str("scheme"@).len() + enc_bin(w.scheme).len() + enc_str("path"@).len() + enc_bin(w.path).len() + enc_str("query_string"@).len() + enc_bin(w.query_string).len()),
        starts_at(enc_bin(w.hash), buf, pos + map_header(7).len() + enc_str("path_original"@).len() + enc_bin(w.path_original).len() + enc_str("scheme"@).len() + enc_bin(w.scheme).len() + enc_str("path"@).len() + enc_bin(w.path).len() + enc_str("query_string"@).len() + enc_bin(w.query_string).len() + enc_str("hash"@).len()),
        starts_at(enc_str("host"@), buf, pos + map_header(7).len() + enc_str("path_original"@).len() + enc_bin(w.path_original).len() + enc_str("scheme"@).len() + enc_bin(w.scheme).len() + enc_str("path"@).len() + enc_bin(w.path).len() + enc_str("query_string"@).len() + enc_bin(w.query_string).len() + enc_str("hash"@).len() + enc_bin(w.hash).len()),
        starts_at(enc_bin(w.host), buf, pos + map_header(7).len() + enc_str("path_original"@).len() + enc_bin(w.path_original).len() + enc_str("scheme"@).len() + enc_bin(w.scheme).len() + enc_str("path"@).len() + enc_bin(w.path).len() + enc_str("query_string"@).len() + enc_bin(w.query_string).len() + enc_str("hash"@).len() + enc_bin(w.hash).len() + enc_str("host"@).len()),
        starts_at(enc_str("args"@), buf, pos + map_header(7).len() + enc_str("path_original"@).len() + enc_bin(w.path_original).len() + enc_str("scheme"@).len() + enc_bin(w.scheme).len() + enc_str("path"@).len() + enc_bin(w.path).len() + enc_str("query_string"@).len() + enc_bin(w.query_string).len() + enc_str("hash"@).len() + enc_bin(w.hash).len() + enc_str("host"@).len() + enc_bin(w.host).len()),
        starts_at(map_header(1), buf, pos + map_header(7).len() + enc_str("path_original"@).len() + enc_bin(w.path_original).len() + enc_str("scheme"@).len() + enc_bin(w.scheme).len() + enc_str("path"@).len() + enc_bin(w.path).len() + enc_str("query_string"@).len() + enc_bin(w.query_string).len() + enc_str("hash"@).len() + enc_bin(w.hash).len() + enc_str("host"@).len() + enc_bin(w.host).len() + enc_str("args"@).len()),
        starts_at(enc_str("val"@), buf, pos + map_header(7).len() + enc_str("path_original"@).len() + enc_bin(w.path_original).len() + enc_str("scheme"@).len() + enc_bin(w.scheme).len() + enc_str("path"@).len() + enc_bin(w.path).len() + enc_str("query_string"@).len() + enc_bin(w.query_string).len() + enc_str("hash"@).len() + enc_bin(w.hash).len() + enc_str("host"@).len() + enc_bin(w.host).len() + enc_str("args"@).len() + map_header(1).len()),
        starts_at(enc_map_bin(w.args), buf, pos + map_header(7).len() + enc_str("path_original"@).len() + enc_bin(w.path_original).len() + enc_str("scheme"@).len() + enc_bin(w.scheme).len() + enc_str("path"@).len() + enc_bin(w.path).len() + enc_str("query_string"@).len() + enc_bin(w.query_string).len() + enc_str("hash"@).len() + enc_bin(w.hash).len() + enc_str("host"@).len() + enc_bin(w.host).len() + enc_str("args"@).len() + map_header(1).len() + enc_str("val"@).len()),
        starts_at(map_header(w.args.len()), buf, pos + map_header(7).len() + enc_str("path_original"@).len() + enc_bin(w.path_original).len() + enc_str("scheme"@).len() + enc_bin(w.scheme).len() + enc_str("path"@).len() + enc_bin(w.path).len() + enc_str("query_string"@).len() + enc_bin(w.query_string).len() + enc_str("hash"@).len() + enc_bin(w.hash).len() + enc_str("host"@).len() + enc_bin(w.host).len() + enc_str("args"@).len() + map_header(1).len() + enc_str("val"@).len()),
        starts_at(enc_entries_bin(w.args), buf, pos + map_header(7).len() + enc_str("path_original"@).len() + enc_bin(w.path_original).len() + enc_str("scheme"@).len() + enc_bin(w.scheme).len() + enc_str("path"@).len() + enc_bin(w.path).len() + enc_str("query_string"@).len() + enc_bin(w.query_string).len() + enc_str("hash"@).len() + enc_bin(w.hash).len() + enc_str("host"@).len() + enc_bin(w.host).len() + enc_str("args"@).len() + map_header(1).len() + enc_str("val"@).len() + map_header(w.args.len()).len()),
        spec_encode_uri(w).len() == map_header(7).len() + enc_str("path_original"@).len() + enc_bin(w.path_original).len() + enc_str("scheme"@).len() + enc_bin(w.scheme).len() + enc_str("path"@).len() + enc_bin(w.path).len() + enc_str("query_string"@).len() + enc_bin(w.query_string).len() + enc_str("hash"@).len() + enc_bin(w.hash).len() + enc_str("host"@).len() + enc_bin(w.host).len() + enc_str("args"@).len() + map_header(1).len() + enc_str("val"@).len() + enc_map_bin(w.args).len(),
{
    let ss = uri_segs(w.path_original, w.scheme, w.path, w.query_string, w.hash, w.host, w.args);
    lemma_concat_all_segments(ss, buf, pos);
    reveal_with_fuel(seg_off, 20);
    assert(ss[0] == map_header(7));
    assert(ss[1] == enc_str("path_original"@));
    assert(ss[2] == enc_bin(w.path_original));
    assert(ss[3] == enc_str("scheme"@));
    assert(ss[4] == enc_bin(w.scheme));
    assert(ss[5] == enc_str("path"@));
    assert(ss[6] == enc_bin(w.path));
    assert(ss[7] == enc_str("query_string"@));
    assert(ss[8] == enc_bin(w.query_string));
    assert(ss[9] == enc_str("hash"@));
    assert(ss[10] == enc_bin(w.hash));
    assert(ss[11] == enc_str("host"@));
    assert(ss[12] == enc_bin(w.host));
    assert(ss[13] == enc_str("args"@));
    assert(ss[14] == map_header(1));
    assert(ss[15] == enc_str("val"@));
    assert(ss[16] == enc_map_bin(w.args));
    assert(starts_at(ss[0], buf, pos + seg_off(ss, 0)));
    assert(starts_at(ss[1], buf, pos + seg_off(ss, 1)));
    assert(starts_at(ss[2], buf, pos + seg_off(ss, 2)));
    assert(starts_at(ss[3], buf, pos + seg_off(ss, 3)));
    assert(starts_at(ss[4], buf, pos + seg_off(ss, 4)));
    assert(starts_at(ss[5], buf, pos + seg_off(ss, 5)));
    assert(starts_at(ss[6], buf, pos + seg_off(ss, 6)));
    assert(starts_at(ss[7], buf, pos + seg_off(ss, 7)));
    assert(starts_at(ss[8], buf, pos + seg_off(ss, 8)));
    assert(starts_at(ss[9], buf, pos + seg_off(ss, 9)));
    assert(starts_at(ss[10], buf, pos + seg_off(ss, 10)));
    assert(starts_at(ss[11], buf, pos + seg_off(ss, 11)));
    assert(starts_at(ss[12], buf, pos + seg_off(ss, 12)));
    assert(starts_at(ss[13], buf, pos + seg_off(ss, 13)));
    assert(starts_at(ss[14], buf, pos + seg_off(ss, 14)));
    assert(starts_at(ss[15], buf, pos + seg_off(ss, 15)));
    assert(starts_at(ss[16], buf, pos + seg_off(ss, 16)));
    lemma_starts_at_concat(map_header(w.args.len()), enc_entries_bin(w.args), buf, pos + map_header(7).len() + enc_str("path_original"@).len() + enc_bin(w.path_original).len() + enc_str("scheme"@).len() + enc_bin(w.scheme).len() + enc_str("path"@).len() + enc_bin(w.path).len() + enc_str("query_string"@).len() + enc_bin(w.query_string).len() + enc_str("hash"@).len() + enc_bin(w.hash).len() + enc_str("host"@).len() + enc_bin(w.host).len() + enc_str("args"@).len() + map_header(1).len() + enc_str("val"@).len());
}


/// Where each segment of an encoded envelope stands in the buffer.
#[verifier::rlimit(100)]
proof fn lemma_env_layout(w: WireEnvelope, buf: Seq<u8>)
    requires
        buf == spec_encode(w),
    ensures
        starts_at(map_header(7), buf, 0),
        starts_at(enc_str("type"@), buf, (map_header(7).len()) as int),
        starts_at(enc_str_raw(w.req_type), buf, (map_header(7).len() + enc_str("type"@).len()) as int),
        starts_at(enc_str("access_token"@), buf, (map_header(7).len() + enc_str("type"@).len() + enc_str_raw(w.req_type).len()) as int),
        starts_at(enc_str_raw(w.access_token), buf, (map_header(7).len() + enc_str("type"@).len() + enc_str_raw(w.req_type).len() + enc_str("access_token"@).len()) as int),
        starts_at(enc_str("method"@), buf, (map_header(7).len() + enc_str("type"@).len() + enc_str_raw(w.req_type).len() + enc_str("access_token"@).len() + enc_str_raw(w.access_token).len()) as int),
        starts_at(enc_str_raw(w.method), buf, (map_header(7).len() + enc_str("type"@).len() + enc_str_raw(w.req_type).len() + enc_str("access_token"@).len() + enc_str_raw(w.access_token).len() + enc_str("method"@).len()) as int),
        starts_at(enc_str("user_values"@), buf, (map_header(7).len() + enc_str("type"@).len() + enc_str_raw(w.req_type).len() + enc_str("access_token"@).len() + enc_str_raw(w.access_token).len() + enc_str("method"@).len() + enc_str_raw(w.method).len()) as int),
        starts_at(enc_map_str(w.user_values), buf, (map_header(7).len() + enc_str("type"@).len() + enc_str_raw(w.req_type).len() + enc_str("access_token"@).len() + enc_str_raw(w.access_token).len() + enc_str("method"@).len() + enc_str_raw(w.method).len() + enc_str("user_values"@).len()) as int),
        starts_at(enc_str("uri"@), buf, (map_header(7).len() + enc_str("type"@).len() + enc_str_raw(w.req_type).len() + enc_str("access_token"@).len() + enc_str_raw(w.access_token).len() + enc_str("method"@).len() + enc_str_raw(w.method).len() + enc_str("user_values"@).len() + enc_map_str(w.user_values).len()) as int),
        starts_at(spec_encode_uri(w), buf, (map_header(7).len() + enc_str("type"@).len() + enc_str_raw(w.req_type).len() + enc_str("access_token"@).len() + enc_str_raw(w.access_token).len() + enc_str("method"@).len() + enc_str_raw(w.method).len() + enc_str("user_values"@).len() + enc_map_str(w.user_values).len() + enc_str("uri"@).len()) as int),
        starts_at(enc_str("body"@), buf, (map_header(7).len() + enc_str("type"@).len() + enc_str_raw(w.req_type).len() + enc_str("access_token"@).len() + enc_str_raw(w.access_token).len() + enc_str("method"@).len() + enc_str_raw(w.method).len() + enc_str("user_values"@).len() + enc_map_str(w.user_values).len() + enc_str("uri"@).len() + spec_encode_uri(w).len()) as int),
        starts_at(enc_bin(w.body), buf, (map_header(7).len() + enc_str("type"@).len() + enc_str_raw(w.req_type).len() + enc_str("access_token"@).len() + enc_str_raw(w.access_token).len() + enc_str("method"@).len() + enc_str_raw(w.method).len() + enc_str("user_values"@).len() + enc_map_str(w.user_values).len() + enc_str("uri"@).len() + spec_encode_uri(w).len() + enc_str("body"@).len()) as int),
        starts_at(enc_str("client_ip"@), buf, (map_header(7).len() + enc_str("type"@).len() + enc_str_raw(w.req_type).len() + enc_str("access_token"@).len() + enc_str_raw(w.access_token).len() + enc_str("method"@).len() + enc_str_raw(w.method).len() + enc_str("user_values"@).len() + enc_map_str(w.user_values).len() + enc_str("uri"@).len() + spec_encode_uri(w).len() + enc_str("body"@).len() + enc_bin(w.body).len()) as int),
        starts_at(enc_str_raw(w.client_ip), buf, (map_header(7).len() + enc_str("type"@).len() + enc_str_raw(w.req_type).len() + enc_str("access_token"@).len() + enc_str_raw(w.access_token).len() + enc_str("method"@).len() + enc_str_raw(w.method).len() + enc_str("user_values"@).len() + enc_map_str(w.user_values).len() + enc_str("uri"@).len() + spec_encode_uri(w).len() + enc_str("body"@).len() + enc_bin(w.body).len() + enc_str("client_ip"@).len()) as int),
        starts_at(map_header(w.user_values.len()), buf, (map_header(7).len() + enc_str("type"@).len() + enc_str_raw(w.req_type).len() + enc_str("access_token"@).len() + enc_str_raw(w.access_token).len() + enc_str("method"@).len() + enc_str_raw(w.method).len() + enc_str("user_values"@).len()) as int),
        starts_at(enc_entries_str(w.user_values), buf, (map_header(7).len() + enc_str("type"@).len() + enc_str_raw(w.req_type).len() + enc_str("access_token"@).len() + enc_str_raw(w.access_token).len() + enc_str("method"@).len() + enc_str_raw(w.method).len() + enc_str("user_values"@).len() + map_header(w.user_values.len()).len()) as int),
        buf.len() == map_header(7).len() + enc_str("type"@).len() + enc_str_raw(w.req_type).len() + enc_str("access_token"@).len() + enc_str_raw(w.access_token).len() + enc_str("method"@).len() + enc_str_raw(w.method).len() + enc_str("user_values"@).len() + enc_map_str(w.user_values).len() + enc_str("uri"@).len() + spec_encode_uri(w).len() + enc_str("body"@).len() + enc_bin(w.body).len() + enc_str("client_ip"@).len() + enc_str_raw(w.client_ip).len(),
{
    let ss = env_segs(w);
    assert(buf.subrange(0, buf.len() as int) =~= buf);
    assert(starts_at(concat_all(ss), buf, 0));
    lemma_concat_all_segments(ss, buf, 0);
    reveal_with_fuel(seg_off, 18);
    assert(ss[0] == map_header(7));
    assert(ss[1] == enc_str("type"@));
    assert(ss[2] == enc_str_raw(w.req_type));
    assert(ss[3] == enc_str("access_token"@));
    assert(ss[4] == enc_str_raw(w.access_token));
    assert(ss[5] == enc_str("method"@));
    assert(ss[6] == enc_str_raw(w.method));
    assert(ss[7] == enc_str("user_values"@));
    assert(ss[8] == enc_map_str(w.user_values));
    assert(ss[9] == enc_str("uri"@));
    assert(ss[10] == spec_encode_uri(w));
    assert(ss[11] == enc_str("body"@));
    assert(ss[12] == enc_bin(w.body));
    assert(ss[13] == enc_str("client_ip"@));
    assert(ss[14] == enc_str_raw(w.client_ip));
    assert(starts_at(ss[0], buf, seg_off(ss, 0)));
    assert(starts_at(ss[1], buf, seg_off(ss, 1)));
    assert(starts_at(ss[2], buf, seg_off(ss, 2)));
    assert(starts_at(ss[3], buf, seg_off(ss, 3)));
    assert(starts_at(ss[4], buf, seg_off(ss, 4)));
    assert(starts_at(ss[5], buf, seg_off(ss, 5)));
    assert(starts_at(ss[6], buf, seg_off(ss, 6)));
    assert(starts_at(ss[7], buf, seg_off(ss, 7)));
    assert(starts_at(ss[8], buf, seg_off(ss, 8)));
    assert(starts_at(ss[9], buf, seg_off(ss, 9)));
    assert(starts_at(ss[10], buf, seg_off(ss, 10)));
    assert(starts_at(ss[11], buf, seg_off(ss, 11)));
    assert(starts_at(ss[12], buf, seg_off(ss, 12)));
    assert(starts_at(ss[13], buf, seg_off(ss, 13)));
    assert(starts_at(ss[14], buf, seg_off(ss, 14)));
    lemma_starts_at_concat(map_header(w.user_values.len()), enc_entries_str(w.user_values), buf, (map_header(7).len() + enc_str("type"@).len() + enc_str_raw(w.req_type).len() + enc_str("access_token"@).len() + enc_str_raw(w.access_token).len() + enc_str("method"@).len() + enc_str_raw(w.method).len() + enc_str("user_values"@).len()) as int);
}

/// Reads one string item and accepts it only when it spells `key`.
fn read_key(buf: &[u8], pos: usize, key: &str) -> (r: Option<usize>)
    requires
        pos <= buf@.len(),
        fits_u32(encode_utf8(key@).len()),
    ensures
        r matches Some(q) ==> pos <= q <= buf@.len(),
        starts_at(enc_str(key@), buf@, pos as int) ==> (r matches Some(q) && q == pos + enc_str(
            key@,
        ).len()),
{
    match read_str_raw(buf, pos) {
        None => None,
        Some((kb, q)) => {
            if bytes_eq(kb.as_slice(), key.as_bytes()) {
                Some(q)
            } else {
                None
            }
        },
    }
}


/// Reads a field whose value is a string item: the name, checked against
/// `key`, then the value.
fn read_str_field(buf: &[u8], pos: usize, key: &str) -> (r: Option<(Vec<u8>, usize)>)
    requires
        pos <= buf@.len(),
        fits_u32(encode_utf8(key@).len()),
    ensures
        r matches Some(p) ==> pos <= p.1 <= buf@.len(),
        forall|b: Seq<u8>|
            #![trigger enc_str_raw(b)]
            fits_u32(b.len()) && starts_at(enc_str(key@), buf@, pos as int) && starts_at(
                enc_str_raw(b),
                buf@,
                pos + enc_str(key@).len(),
            ) ==> (r matches Some(p) && p.0@ == b && p.1 == pos + enc_str(key@).len()
                + enc_str_raw(b).len()),
{
    match read_key(buf, pos, key) {
        None => None,
        Some(p1) => read_str_raw(buf, p1),
    }
}

/// Reads a field whose value is a raw-binary item: the name, checked
/// against `key`, then the value.
fn read_bin_field(buf: &[u8], pos: usize, key: &str) -> (r: Option<(Vec<u8>, usize)>)
    requires
        pos <= buf@.len(),
        fits_u32(encode_utf8(key@).len()),
    ensures
        r matches Some(p) ==> pos <= p.1 <= buf@.len(),
        forall|b: Seq<u8>|
            #![trigger enc_bin(b)]
            fits_u32(b.len()) && starts_at(enc_str(key@), buf@, pos as int) && starts_at(
                enc_bin(b),
                buf@,
                pos + enc_str(key@).len(),
            ) ==> (r matches Some(p) && p.0@ == b && p.1 == pos + enc_str(key@).len() + enc_bin(
                b,
            ).len()),
{
    match read_key(buf, pos, key) {
        None => None,
        Some(p1) => read_bin(buf, p1),
    }
}

/// A well-formed entry list stays well-formed when its head is removed.
proof fn lemma_wf_entries_drop(es: Seq<(Seq<u8>, Seq<u8>)>)
    requires
        wf_entries(es),
        es.len() > 0,
    ensures
        wf_entries(es.drop_first()),
{
    assert forall|i: int|
        0 <= i < es.drop_first().len() implies fits_u32(
        (#[trigger] es.drop_first()[i]).0.len(),
    ) && fits_u32(es.drop_first()[i].1.len()) by {
        assert(es.drop_first()[i] == es[i + 1]);
        assert(fits_u32((es[i + 1]).0.len()) && fits_u32(es[i + 1].1.len()));
    }
}

/// Reads `n` key-value pairs whose values are strings.  Every encoded entry
/// list occupying `buf[pos..]` is accepted and returned exactly.
fn read_entries_str(buf: &[u8], pos: usize, n: u64) -> (r: Option<
    (Vec<(Vec<u8>, Vec<u8>)>, usize),
>)
    requires
        pos <= buf@.len(),
    ensures
        r matches Some(p) ==> pos <= p.1 <= buf@.len(),
        forall|es: Seq<(Seq<u8>, Seq<u8>)>|
            #![trigger enc_entries_str(es)]
            es.len() == n && wf_entries(es) && starts_at(enc_entries_str(es), buf@, pos as int)
                ==> (r matches Some(p) && pairs_view(p.0@) == es && p.1 == pos + enc_entries_str(
                es,
            ).len()),
    decreases n,
{
    if n == 0 {
        let empty_vec: Vec<(Vec<u8>, Vec<u8>)> = Vec::new();
        proof {
            assert forall|es: Seq<(Seq<u8>, Seq<u8>)>|
                #![trigger enc_entries_str(es)]
                es.len() == 0 && wf_entries(es) && starts_at(enc_entries_str(es), buf@, pos as int)
                implies (pairs_view(empty_vec@) == es) by {
                assert(pairs_view(empty_vec@) =~~= es);
            }
        }
        return Some((empty_vec, pos));
    }
    let kr = read_str_raw(buf, pos);
    if kr.is_none() {
        proof {
            assert forall|es: Seq<(Seq<u8>, Seq<u8>)>|
                #![trigger enc_entries_str(es)]
                es.len() == n && wf_entries(es) && starts_at(enc_entries_str(es), buf@, pos as int)
                implies false by {
                assert(fits_u32((es[0]).0.len()) && fits_u32(es[0].1.len()));
                lemma_starts_at_concat(
                    enc_str_raw(es[0].0) + enc_str_raw(es[0].1),
                    enc_entries_str(es.drop_first()),
                    buf@,
                    pos as int,
                );
                lemma_starts_at_concat(enc_str_raw(es[0].0), enc_str_raw(es[0].1), buf@, pos as int);
            }
        }
        return None;
    }
    let (kb, p1) = kr.unwrap();
    let vr = read_str_raw(buf, p1);
    if vr.is_none() {
        proof {
            assert forall|es: Seq<(Seq<u8>, Seq<u8>)>|
                #![trigger enc_entries_str(es)]
                es.len() == n && wf_entries(es) && starts_at(enc_entries_str(es), buf@, pos as int)
                implies false by {
                assert(fits_u32((es[0]).0.len()) && fits_u32(es[0].1.len()));
                lemma_starts_at_concat(
                    enc_str_raw(es[0].0) + enc_str_raw(es[0].1),
                    enc_entries_str(es.drop_first()),
                    buf@,
                    pos as int,
                );
                lemma_starts_at_concat(enc_str_raw(es[0].0), enc_str_raw(es[0].1), buf@, pos as int);
            }
        }
        return None;
    }
    let (vb, p2) = vr.unwrap();
    let rr = read_entries_str(buf, p2, n - 1);
    if rr.is_none() {
        proof {
            assert forall|es: Seq<(Seq<u8>, Seq<u8>)>|
                #![trigger enc_entries_str(es)]
                es.len() == n && wf_entries(es) && starts_at(enc_entries_str(es), buf@, pos as int)
                implies false by {
                assert(fits_u32((es[0]).0.len()) && fits_u32(es[0].1.len()));
                lemma_starts_at_concat(
                    enc_str_raw(es[0].0) + enc_str_raw(es[0].1),
                    enc_entries_str(es.drop_first()),
                    buf@,
                    pos as int,
                );
                lemma_starts_at_concat(enc_str_raw(es[0].0), enc_str_raw(es[0].1), buf@, pos as int);
                lemma_wf_entries_drop(es);
            }
        }
        return None;
    }
    let (mut rest, p3) = rr.unwrap();
    let ghost gk = kb@;
    let ghost gv = vb@;
    let ghost grest = rest@;
    let mut out_vec: Vec<(Vec<u8>, Vec<u8>)> = Vec::new();
    out_vec.push((kb, vb));
    out_vec.append(&mut rest);
    proof {
        assert forall|es: Seq<(Seq<u8>, Seq<u8>)>|
            #![trigger enc_entries_str(es)]
            es.len() == n && wf_entries(es) && starts_at(enc_entries_str(es), buf@, pos as int)
            implies (pairs_view(out_vec@) == es && p3 == pos + enc_entries_str(es).len()) by {
            assert(fits_u32((es[0]).0.len()) && fits_u32(es[0].1.len()));
            lemma_starts_at_concat(
                enc_str_raw(es[0].0) + enc_str_raw(es[0].1),
                enc_entries_str(es.drop_first()),
                buf@,
                pos as int,
            );
            lemma_starts_at_concat(enc_str_raw(es[0].0), enc_str_raw(es[0].1), buf@, pos as int);
            lemma_wf_entries_drop(es);
            assert(gk == es[0].0 && gv == es[0].1);
            assert(pairs_view(grest) == es.drop_first());
            assert forall|i: int| 0 <= i < es.len() implies pairs_view(out_vec@)[i] == es[i] by {
                if i == 0 {
                    assert(out_vec@[0].0@ == es[0].0 && out_vec@[0].1@ == es[0].1);
                    assert((es[0].0, es[0].1) == es[0]);
                } else {
                    assert(out_vec@[i] == grest[i - 1]);
                    assert(pairs_view(grest)[i - 1] == es.drop_first()[i - 1]);
                    assert(es.drop_first()[i - 1] == es[i]);
                }
            }
            assert(pairs_view(out_vec@) =~~= es);
        }
    }
    Some((out_vec, p3))
}

/// Reads `n` key-value pairs whose values are raw binary.  Every encoded
/// entry list occupying `buf[pos..]` is accepted and returned exactly.
fn read_entries_bin(buf: &[u8], pos: usize, n: u64) -> (r: Option<
    (Vec<(Vec<u8>, Vec<u8>)>, usize),
>)
    requires
        pos <= buf@.len(),
    ensures
        r matches Some(p) ==> pos <= p.1 <= buf@.len(),
        forall|es: Seq<(Seq<u8>, Seq<u8>)>|
            #![trigger enc_entries_bin(es)]
            es.len() == n && wf_entries(es) && starts_at(enc_entries_bin(es), buf@, pos as int)
                ==> (r matches Some(p) && pairs_view(p.0@) == es && p.1 == pos + enc_entries_bin(
                es,
            ).len()),
    decreases n,
{
    if n == 0 {
        let empty_vec: Vec<(Vec<u8>, Vec<u8>)> = Vec::new();
        proof {
            assert forall|es: Seq<(Seq<u8>, Seq<u8>)>|
                #![trigger enc_entries_bin(es)]
                es.len() == 0 && wf_entries(es) && starts_at(enc_entries_bin(es), buf@, pos as int)
                implies (pairs_view(empty_vec@) == es) by {
                assert(pairs_view(empty_vec@) =~~= es);
            }
        }
        return Some((empty_vec, pos));
    }
    let kr = read_str_raw(buf, pos);
    if kr.is_none() {
        proof {
            assert forall|es: Seq<(Seq<u8>, Seq<u8>)>|
                #![trigger enc_entries_bin(es)]
                es.len() == n && wf_entries(es) && starts_at(enc_entries_bin(es), buf@, pos as int)
                implies false by {
                assert(fits_u32((es[0]).0.len()) && fits_u32(es[0].1.len()));
                lemma_starts_at_concat(
                    enc_str_raw(es[0].0) + enc_bin(es[0].1),
                    enc_entries_bin(es.drop_first()),
                    buf@,
                    pos as int,
                );
                lemma_starts_at_concat(enc_str_raw(es[0].0), enc_bin(es[0].1), buf@, pos as int);
            }
        }
        return None;
    }
    let (kb, p1) = kr.unwrap();
    let vr = read_bin(buf, p1);
    if vr.is_none() {
        proof {
            assert forall|es: Seq<(Seq<u8>, Seq<u8>)>|
                #![trigger enc_entries_bin(es)]
                es.len() == n && wf_entries(es) && starts_at(enc_entries_bin(es), buf@, pos as int)
                implies false by {
                assert(fits_u32((es[0]).0.len()) && fits_u32(es[0].1.len()));
                lemma_starts_at_concat(
                    enc_str_raw(es[0].0) + enc_bin(es[0].1),
                    enc_entries_bin(es.drop_first()),
                    buf@,
                    pos as int,
                );
                lemma_starts_at_concat(enc_str_raw(es[0].0), enc_bin(es[0].1), buf@, pos as int);
            }
        }
        return None;
    }
    let (vb, p2) = vr.unwrap();
    let rr = read_entries_bin(buf, p2, n - 1);
    if rr.is_none() {
        proof {
            assert forall|es: Seq<(Seq<u8>, Seq<u8>)>|
                #![trigger enc_entries_bin(es)]
                es.len() == n && wf_entries(es) && starts_at(enc_entries_bin(es), buf@, pos as int)
                implies false by {
                assert(fits_u32((es[0]).0.len()) && fits_u32(es[0].1.len()));
                lemma_starts_at_concat(
                    enc_str_raw(es[0].0) + enc_bin(es[0].1),
                    enc_entries_bin(es.drop_first()),
                    buf@,
                    pos as int,
                );
                lemma_starts_at_concat(enc_str_raw(es[0].0), enc_bin(es[0].1), buf@, pos as int);
                lemma_wf_entries_drop(es);
            }
        }
        return None;
    }
    let (mut rest, p3) = rr.unwrap();
    let ghost gk = kb@;
    let ghost gv = vb@;
    let ghost grest = rest@;
    let mut out_vec: Vec<(Vec<u8>, Vec<u8>)> = Vec::new();
    out_vec.push((kb, vb));
    out_vec.append(&mut rest);
    proof {
        assert forall|es: Seq<(Seq<u8>, Seq<u8>)>|
            #![trigger enc_entries_bin(es)]
            es.len() == n && wf_entries(es) && starts_at(enc_entries_bin(es), buf@, pos as int)
            implies (pairs_view(out_vec@) == es && p3 == pos + enc_entries_bin(es).len()) by {
            assert(fits_u32((es[0]).0.len()) && fits_u32(es[0].1.len()));
            lemma_starts_at_concat(
                enc_str_raw(es[0].0) + enc_bin(es[0].1),
                enc_entries_bin(es.drop_first()),
                buf@,
                pos as int,
            );
            lemma_starts_at_concat(enc_str_raw(es[0].0), enc_bin(es[0].1), buf@, pos as int);
            lemma_wf_entries_drop(es);
            assert(gk == es[0].0 && gv == es[0].1);
            assert(pairs_view(grest) == es.drop_first());
            assert forall|i: int| 0 <= i < es.len() implies pairs_view(out_vec@)[i] == es[i] by {
                if i == 0 {
                    assert(out_vec@[0].0@ == es[0].0 && out_vec@[0].1@ == es[0].1);
                    assert((es[0].0, es[0].1) == es[0]);
                } else {
                    assert(out_vec@[i] == grest[i - 1]);
                    assert(pairs_view(grest)[i - 1] == es.drop_first()[i - 1]);
                    assert(es.drop_first()[i - 1] == es[i]);
                }
            }
            assert(pairs_view(out_vec@) =~~= es);
        }
    }
    Some((out_vec, p3))
}

/// The decoded form of the `uri` field: the byte strings as sent, and the
/// query arguments as decoded pairs.
pub struct DecodedUri {
    pub path_original: Vec<u8>,
    pub scheme: Vec<u8>,
    pub path: Vec<u8>,
    pub query_string: Vec<u8>,
    pub hash: Vec<u8>,
    pub host: Vec<u8>,
    pub args: Vec<(Vec<u8>, Vec<u8>)>,
}

/// The decoded form of a whole envelope.  String-typed fields hold their
/// UTF-8 bytes as read from the wire.
pub struct DecodedEnvelope {
    pub req_type: Vec<u8>,
    pub access_token: Vec<u8>,
    pub method: Vec<u8>,
    pub user_values: Vec<(Vec<u8>, Vec<u8>)>,
    pub uri: DecodedUri,
    pub body: Vec<u8>,
    pub client_ip: Vec<u8>,
}

/// The decoded envelope carries exactly the wire content `w`.
pub open spec fn decoded_matches(d: DecodedEnvelope, w: WireEnvelope) -> bool {
    &&& d.req_type@ == w.req_type
    &&& d.access_token@ == w.access_token
    &&& d.method@ == w.method
    &&& pairs_view(d.user_values@) == w.user_values
    &&& d.uri.path_original@ == w.path_original
    &&& d.uri.scheme@ == w.scheme
    &&& d.uri.path@ == w.path
    &&& d.uri.query_string@ == w.query_string
    &&& d.uri.hash@ == w.hash
    &&& d.uri.host@ == w.host
    &&& pairs_view(d.uri.args@) == w.args
    &&& d.body@ == w.body
    &&& d.client_ip@ == w.client_ip
}

/// Reads the `uri` field's value.  Every encoded `uri` value occupying
/// `buf[pos..]` is accepted and its components returned exactly.
#[verifier::rlimit(100)]
fn decode_uri(buf: &[u8], pos: usize) -> (r: Option<(DecodedUri, usize)>)
    requires
        pos <= buf@.len(),
    ensures
        r matches Some(p) ==> pos <= p.1 <= buf@.len(),
        forall|w: WireEnvelope|
            #![trigger spec_encode_uri(w)]
            wf_wire(w) && starts_at(spec_encode_uri(w), buf@, pos as int) ==> (
            r matches Some(p) && p.0.path_original@ == w.path_original && p.0.scheme@ == w.scheme
                && p.0.path@ == w.path && p.0.query_string@ == w.query_string && p.0.hash@
                == w.hash && p.0.host@ == w.host && pairs_view(p.0.args@) == w.args && p.1 == pos
                + spec_encode_uri(w).len()),
{
    proof {
        lemma_uri_keys_fit();
    }
    let r0 = read_map_header(buf, pos);
    if r0.is_none() {
        proof {
            assert forall|w: WireEnvelope|
                #![trigger spec_encode_uri(w)]
                wf_wire(w) && starts_at(spec_encode_uri(w), buf@, pos as int) implies false by {
                lemma_uri_layout(w, buf@, pos as int);
            }
        }
        return None;
    }
    let (c0, p1) = r0.unwrap();
    if c0 != 7 {
        proof {
            assert forall|w: WireEnvelope|
                #![trigger spec_encode_uri(w)]
                wf_wire(w) && starts_at(spec_encode_uri(w), buf@, pos as int) implies false by {
                lemma_uri_layout(w, buf@, pos as int);
            }
        }
        return None;
    }
    let r_path_original = read_bin_field(buf, p1, "path_original");
    if r_path_original.is_none() {
        proof {
            assert forall|w: WireEnvelope|
                #![trigger spec_encode_uri(w)]
                wf_wire(w) && starts_at(spec_encode_uri(w), buf@, pos as int) implies false by {
                lemma_uri_layout(w, buf@, pos as int);
            }
        }
        return None;
    }
    let (path_original, p2) = r_path_original.unwrap();
    let r_scheme = read_bin_field(buf, p2, "scheme");
    if r_scheme.is_none() {
        proof {
            assert forall|w: WireEnvelope|
                #![trigger spec_encode_uri(w)]
                wf_wire(w) && starts_at(spec_encode_uri(w), buf@, pos as int) implies false by {
                lemma_uri_layout(w, buf@, pos as int);
            }
        }
        return None;
    }
    let (scheme, p3) = r_scheme.unwrap();
    let r_path = read_bin_field(buf, p3, "path");
    if r_path.is_none() {
        proof {
            assert forall|w: WireEnvelope|
                #![trigger spec_encode_uri(w)]
                wf_wire(w) && starts_at(spec_encode_uri(w), buf@, pos as int) implies false by {
                lemma_uri_layout(w, buf@, pos as int);
            }
        }
        return None;
    }
    let (path, p4) = r_path.unwrap();
    let r_query_string = read_bin_field(buf, p4, "query_string");
    if r_query_string.is_none() {
        proof {
            assert forall|w: WireEnvelope|
                #![trigger spec_encode_uri(w)]
                wf_wire(w) && starts_at(spec_encode_uri(w), buf@, pos as int) implies false by {
                lemma_uri_layout(w, buf@, pos as int);
            }
        }
        return None;
    }
    let (query_string, p5) = r_query_string.unwrap();
    let r_hash = read_bin_field(buf, p5, "hash");
    if r_hash.is_none() {
        proof {
            assert forall|w: WireEnvelope|
                #![trigger spec_encode_uri(w)]
                wf_wire(w) && starts_at(spec_encode_uri(w), buf@, pos as int) implies false by {
                lemma_uri_layout(w, buf@, pos as int);
            }
        }
        return None;
    }
    let (hash, p6) = r_hash.unwrap();
    let r_host = read_bin_field(buf, p6, "host");
    if r_host.is_none() {
        proof {
            assert forall|w: WireEnvelope|
                #![trigger spec_encode_uri(w)]
                wf_wire(w) && starts_at(spec_encode_uri(w), buf@, pos as int) implies false by {
                lemma_uri_layout(w, buf@, pos as int);
            }
        }
        return None;
    }
    let (host, p7) = r_host.unwrap();
    let r7 = read_key(buf, p7, "args");
    if r7.is_none() {
        proof {
            assert forall|w: WireEnvelope|
                #![trigger spec_encode_uri(w)]
                wf_wire(w) && starts_at(spec_encode_uri(w), buf@, pos as int) implies false by {
                lemma_uri_layout(w, buf@, pos as int);
            }
        }
        return None;
    }
    let r8 = read_map_header(buf, r7.unwrap());
    if r8.is_none() {
        proof {
            assert forall|w: WireEnvelope|
                #![trigger spec_encode_uri(w)]
                wf_wire(w) && starts_at(spec_encode_uri(w), buf@, pos as int) implies false by {
                lemma_uri_layout(w, buf@, pos as int);
            }
        }
        return None;
    }
    let (c1, p8) = r8.unwrap();
    if c1 != 1 {
        proof {
            assert forall|w: WireEnvelope|
                #![trigger spec_encode_uri(w)]
                wf_wire(w) && starts_at(spec_encode_uri(w), buf@, pos as int) implies false by {
                lemma_uri_layout(w, buf@, pos as int);
            }
        }
        return None;
    }
    let r9 = read_key(buf, p8, "val");
    if r9.is_none() {
        proof {
            assert forall|w: WireEnvelope|
                #![trigger spec_encode_uri(w)]
                wf_wire(w) && starts_at(spec_encode_uri(w), buf@, pos as int) implies false by {
                lemma_uri_layout(w, buf@, pos as int);
            }
        }
        return None;
    }
    let r10 = read_map_header(buf, r9.unwrap());
    if r10.is_none() {
        proof {
            assert forall|w: WireEnvelope|
                #![trigger spec_encode_uri(w)]
                wf_wire(w) && starts_at(spec_encode_uri(w), buf@, pos as int) implies false by {
                lemma_uri_layout(w, buf@, pos as int);
            }
        }
        return None;
    }
    let (c2, p9) = r10.unwrap();
    let r11 = read_entries_bin(buf, p9, c2);
    if r11.is_none() {
        proof {
            assert forall|w: WireEnvelope|
                #![trigger spec_encode_uri(w)]
                wf_wire(w) && starts_at(spec_encode_uri(w), buf@, pos as int) implies false by {
                lemma_uri_layout(w, buf@, pos as int);
            }
        }
        return None;
    }
    let (args, p10) = r11.unwrap();
    let d = DecodedUri { path_original, scheme, path, query_string, hash, host, args };
    proof {
        assert forall|w: WireEnvelope|
            #![trigger spec_encode_uri(w)]
            wf_wire(w) && starts_at(spec_encode_uri(w), buf@, pos as int) implies (
        d.path_original@ == w.path_original && d.scheme@ == w.scheme && d.path@ == w.path
            && d.query_string@ == w.query_string && d.hash@ == w.hash && d.host@ == w.host
            && pairs_view(d.args@) == w.args && p10 == pos + spec_encode_uri(w).len()) by {
            lemma_uri_layout(w, buf@, pos as int);
        }
    }
    Some((d, p10))
}

/// Reads the leading fields of an envelope: the map header, `type`,
/// `access_token`, `method` and `user_values`, in order.
#[verifier::rlimit(100)]
fn decode_env_head(buf: &[u8]) -> (r: Option<
    (Vec<u8>, Vec<u8>, Vec<u8>, Vec<(Vec<u8>, Vec<u8>)>, usize),
>)
    ensures
        r matches Some(p) ==> p.4 <= buf@.len(),
        forall|w: WireEnvelope|
            #![trigger spec_encode(w)]
            wf_wire(w) && buf@ == spec_encode(w) ==> (r matches Some(p) && p.0@ == w.req_type
                && p.1@ == w.access_token && p.2@ == w.method && pairs_view(p.3@)
                == w.user_values && p.4 == (map_header(7).len() + enc_str("type"@).len() + enc_str_raw(w.req_type).len() + enc_str("access_token"@).len() + enc_str_raw(w.access_token).len() + enc_str("method"@).len() + enc_str_raw(w.method).len() + enc_str("user_values"@).len() + enc_map_str(w.user_values).len()) as int),
{
    proof {
        lemma_env_keys_fit();
    }
    let r0 = read_map_header(buf, 0);
    if r0.is_none() {
        proof {
            assert forall|w: WireEnvelope|
                #![trigger spec_encode(w)]
                wf_wire(w) && buf@ == spec_encode(w) implies false by {
                lemma_env_layout(w, buf@);
            }
        }
        return None;
    }
    let (c0, p1) = r0.unwrap();
    if c0 != 7 {
        proof {
            assert forall|w: WireEnvelope|
                #![trigger spec_encode(w)]
                wf_wire(w) && buf@ == spec_encode(w) implies false by {
                lemma_env_layout(w, buf@);
            }
        }
        return None;
    }
    let r_req_type = read_str_field(buf, p1, "type");
    if r_req_type.is_none() {
        proof {
            assert forall|w: WireEnvelope|
                #![trigger spec_encode(w)]
                wf_wire(w) && buf@ == spec_encode(w) implies false by {
                lemma_env_layout(w, buf@);
            }
        }
        return None;
    }
    let (req_type, p2) = r_req_type.unwrap();
    let r_access_token = read_str_field(buf, p2, "access_token");
    if r_access_token.is_none() {
        proof {
            assert forall|w: WireEnvelope|
                #![trigger spec_encode(w)]
                wf_wire(w) && buf@ == spec_encode(w) implies false by {
                lemma_env_layout(w, buf@);
            }
        }
        return None;
    }
    let (access_token, p3) = r_access_token.unwrap();
    let r_method = read_str_field(buf, p3, "method");
    if r_method.is_none() {
        proof {
            assert forall|w: WireEnvelope|
                #![trigger spec_encode(w)]
                wf_wire(w) && buf@ == spec_encode(w) implies false by {
                lemma_env_layout(w, buf@);
            }
        }
        return None;
    }
    let (method, p4) = r_method.unwrap();
    let r4 = read_key(buf, p4, "user_values");
    if r4.is_none() {
        proof {
            assert forall|w: WireEnvelope|
                #![trigger spec_encode(w)]
                wf_wire(w) && buf@ == spec_encode(w) implies false by {
                lemma_env_layout(w, buf@);
            }
        }
        return None;
    }
    let r5 = read_map_header(buf, r4.unwrap());
    if r5.is_none() {
        proof {
            assert forall|w: WireEnvelope|
                #![trigger spec_encode(w)]
                wf_wire(w) && buf@ == spec_encode(w) implies false by {
                lemma_env_layout(w, buf@);
            }
        }
        return None;
    }
    let (c1, p5) = r5.unwrap();
    let r6 = read_entries_str(buf, p5, c1);
    if r6.is_none() {
        proof {
            assert forall|w: WireEnvelope|
                #![trigger spec_encode(w)]
                wf_wire(w) && buf@ == spec_encode(w) implies false by {
                lemma_env_layout(w, buf@);
            }
        }
        return None;
    }
    let (user_values, p6) = r6.unwrap();
    proof {
        assert forall|w: WireEnvelope|
            #![trigger spec_encode(w)]
            wf_wire(w) && buf@ == spec_encode(w) implies (req_type@ == w.req_type
            && access_token@ == w.access_token && method@ == w.method && pairs_view(user_values@)
            == w.user_values && p6 == (map_header(7).len() + enc_str("type"@).len() + enc_str_raw(w.req_type).len() + enc_str("access_token"@).len() + enc_str_raw(w.access_token).len() + enc_str("method"@).len() + enc_str_raw(w.method).len() + enc_str("user_values"@).len() + enc_map_str(w.user_values).len()) as int) by {
            lemma_env_layout(w, buf@);
        }
    }
    Some((req_type, access_token, method, user_values, p6))
}

/// Decodes one envelope, checking the field names and consuming the whole
/// buffer.  Every encoded envelope is accepted and yields the original
/// field values; see [`decoded_matches`].
#[verifier::rlimit(100)]
pub fn decode_envelope(buf: &[u8]) -> (r: Option<DecodedEnvelope>)
    ensures
        forall|w: WireEnvelope|
            #![trigger spec_encode(w)]
            wf_wire(w) && buf@ == spec_encode(w) ==> (r matches Some(d) && decoded_matches(d, w)),
{
    proof {
        lemma_env_keys_fit();
    }
    let rh = decode_env_head(buf);
    if rh.is_none() {
        proof {
            assert forall|w: WireEnvelope|
                #![trigger spec_encode(w)]
                wf_wire(w) && buf@ == spec_encode(w) implies false by {
                lemma_env_layout(w, buf@);
            }
        }
        return None;
    }
    let (req_type, access_token, method, user_values, p6) = rh.unwrap();
    let r7 = read_key(buf, p6, "uri");
    if r7.is_none() {
        proof {
            assert forall|w: WireEnvelope|
                #![trigger spec_encode(w)]
                wf_wire(w) && buf@ == spec_encode(w) implies false by {
                lemma_env_layout(w, buf@);
            }
        }
        return None;
    }
    let r8 = decode_uri(buf, r7.unwrap());
    if r8.is_none() {
        proof {
            assert forall|w: WireEnvelope|
                #![trigger spec_encode(w)]
                wf_wire(w) && buf@ == spec_encode(w) implies false by {
                lemma_env_layout(w, buf@);
            }
        }
        return None;
    }
    let (uri, p7) = r8.unwrap();
    let r_body = read_bin_field(buf, p7, "body");
    if r_body.is_none() {
        proof {
            assert forall|w: WireEnvelope|
                #![trigger spec_encode(w)]
                wf_wire(w) && buf@ == spec_encode(w) implies false by {
                lemma_env_layout(w, buf@);
            }
        }
        return None;
    }
    let (body, p8) = r_body.unwrap();
    let r_ip = read_str_field(buf, p8, "client_ip");
    if r_ip.is_none() {
        proof {
            assert forall|w: WireEnvelope|
                #![trigger spec_encode(w)]
                wf_wire(w) && buf@ == spec_encode(w) implies false by {
                lemma_env_layout(w, buf@);
            }
        }
        return None;
    }
    let (client_ip, p9) = r_ip.unwrap();
    if p9 != buf.len() {
        proof {
            assert forall|w: WireEnvelope|
                #![trigger spec_encode(w)]
                wf_wire(w) && buf@ == spec_encode(w) implies false by {
                lemma_env_layout(w, buf@);
            }
        }
        return None;
    }
    let d = DecodedEnvelope { req_type, access_token, method, user_values, uri, body, client_ip };
    proof {
        assert forall|w: WireEnvelope|
            #![trigger spec_encode(w)]
            wf_wire(w) && buf@ == spec_encode(w) implies decoded_matches(d, w) by {
            lemma_env_layout(w, buf@);
        }
    }
    Some(d)
}



/// Round trip: a decoded envelope that matches the wire view of `e` - as
/// the reference decoder guarantees for every encoded buffer - carries
/// exactly the original field values.  Character fields decode from their
/// UTF-8 form to the original characters; binary fields and the body are
/// preserved byte for byte; both maps keep their entries in order.
pub proof fn lemma_round_trip(e: &crate::events::HttpReq, d: DecodedEnvelope)
    requires
        decoded_matches(d, crate::codec::wire_view(e)),
    ensures
        vstd::utf8::decode_utf8(d.req_type@) == e.req_type@,
        vstd::utf8::decode_utf8(d.access_token@) == e.access_token@,
        vstd::utf8::decode_utf8(d.method@) == crate::types::method_chars(e.method),
        vstd::utf8::decode_utf8(d.client_ip@) == e.client_ip@,
        d.body@ == e.body@,
        d.uri.path_original@ == e.uri.path_original@,
        d.uri.scheme@ == e.uri.scheme@,
        d.uri.path@ == e.uri.path@,
        d.uri.query_string@ == e.uri.query_string@,
        d.uri.hash@ == e.uri.hash@,
        d.uri.host@ == e.uri.host@,
        d.user_values@.len() == e.user_values@.len(),
        forall|i: int|
            0 <= i < e.user_values@.len() ==> vstd::utf8::decode_utf8(
                (#[trigger] d.user_values@[i]).0@,
            ) == e.user_values@[i].0@ && vstd::utf8::decode_utf8(d.user_values@[i].1@)
                == e.user_values@[i].1@,
        d.uri.args@.len() == e.uri.args.val@.len(),
        forall|i: int|
            0 <= i < e.uri.args.val@.len() ==> vstd::utf8::decode_utf8(
                (#[trigger] d.uri.args@[i]).0@,
            ) == e.uri.args.val@[i].0@ && d.uri.args@[i].1@ == e.uri.args.val@[i].1@,
{
    let w = crate::codec::wire_view(e);
    vstd::utf8::encode_utf8_decode_utf8(e.req_type@);
    vstd::utf8::encode_utf8_decode_utf8(e.access_token@);
    vstd::utf8::encode_utf8_decode_utf8(crate::types::method_chars(e.method));
    vstd::utf8::encode_utf8_decode_utf8(e.client_ip@);
    assert(pairs_view(d.user_values@).len() == w.user_values.len());
    assert forall|i: int|
        0 <= i < e.user_values@.len() implies vstd::utf8::decode_utf8(
        (#[trigger] d.user_values@[i]).0@,
    ) == e.user_values@[i].0@ && vstd::utf8::decode_utf8(d.user_values@[i].1@)
        == e.user_values@[i].1@ by {
        assert(pairs_view(d.user_values@)[i] == w.user_values[i]);
        assert(d.user_values@[i].0@ == encode_utf8(e.user_values@[i].0@));
        assert(d.user_values@[i].1@ == encode_utf8(e.user_values@[i].1@));
        vstd::utf8::encode_utf8_decode_utf8(e.user_values@[i].0@);
        vstd::utf8::encode_utf8_decode_utf8(e.user_values@[i].1@);
    }
    assert(pairs_view(d.uri.args@).len() == w.args.len());
    assert forall|i: int|
        0 <= i < e.uri.args.val@.len() implies vstd::utf8::decode_utf8(
        (#[trigger] d.uri.args@[i]).0@,
    ) == e.uri.args.val@[i].0@ && d.uri.args@[i].1@ == e.uri.args.val@[i].1@ by {
        assert(pairs_view(d.uri.args@)[i] == w.args[i]);
        assert(d.uri.args@[i].0@ == encode_utf8(e.uri.args.val@[i].0@));
        vstd::utf8::encode_utf8_decode_utf8(e.uri.args.val@[i].0@);
    }
}

} // verus!
