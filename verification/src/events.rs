//! The request envelope: what one HTTP request looks like on the bus.
//!
//! Backend workers parse the envelope by field name, so the field set and
//! the wire names are stable.  URI components travel as byte strings to
//! preserve non-text bytes in paths, query values and bodies.

use crate::types::{AuthToken, ClientIp, HttpMethod};
use vstd::prelude::*;
use vstd::string::StrSliceExecFns;
use vstd::utf8::encode_utf8;

verus! {

/// The structured URI carried in the envelope.  `args` maps each query key
/// to its raw byte value, in insertion order.
pub struct Uri {
    pub path_original: Vec<u8>,
    pub scheme: Vec<u8>,
    pub path: Vec<u8>,
    pub query_string: Vec<u8>,
    pub hash: Vec<u8>,
    pub host: Vec<u8>,
    pub args: Args,
}

/// The query arguments of a request: key to raw byte value.
pub struct Args {
    pub val: Vec<(String, Vec<u8>)>,
}

/// The URI components the HTTP layer hands over, already split out of the
/// original request line.
pub struct UriParts {
    pub path_original: Vec<u8>,
    pub scheme: Vec<u8>,
    pub path: Vec<u8>,
    pub query_string: Vec<u8>,
    pub host: Vec<u8>,
}

/// What the HTTP layer knows about one request: its URI components, the
/// method, and the route template the router matched.
pub struct HttpRequestInfo {
    pub uri: UriParts,
    pub method: HttpMethod,
    pub matched_path: String,
}

/// The per-request caller context: extracted client IP, bearer credential,
/// and the path parameters by name.
pub struct RequestContext {
    pub client_ip: ClientIp,
    pub authorization: AuthToken,
    pub user_values: Vec<(String, String)>,
}

/// The request envelope sent to backend workers.  `req_type` is written to
/// the wire under the field name `type`: the matched route template.
pub struct HttpReq {
    pub req_type: String,
    pub access_token: AuthToken,
    pub method: HttpMethod,
    pub user_values: Vec<(String, String)>,
    pub uri: Uri,
    pub body: Vec<u8>,
    pub client_ip: ClientIp,
}

impl HttpReq {
    /// Assembles the envelope for one request.  Query-argument values are
    /// carried as their UTF-8 bytes; the fragment (`hash`) of the original
    /// URI is never forwarded.
    pub fn new(
        http_info: HttpRequestInfo,
        context: RequestContext,
        query_args: Vec<(String, String)>,
        body: Vec<u8>,
    ) -> (r: HttpReq)
        ensures
            r.req_type@ == http_info.matched_path@,
            r.access_token@ == context.authorization@,
            r.method == http_info.method,
            r.user_values == context.user_values,
            r.uri.path_original == http_info.uri.path_original,
            r.uri.scheme == http_info.uri.scheme,
            r.uri.path == http_info.uri.path,
            r.uri.query_string == http_info.uri.query_string,
            r.uri.host == http_info.uri.host,
            r.uri.hash@ =~= Seq::<u8>::empty(),
            r.uri.args.val@.len() == query_args@.len(),
            forall|i: int|
                0 <= i < query_args@.len() ==> (#[trigger] r.uri.args.val@[i]).0@
                    == query_args@[i].0@ && r.uri.args.val@[i].1@ == encode_utf8(
                    query_args@[i].1@,
                ),
            r.body == body,
            r.client_ip@ == context.client_ip@,
    {
        let mut args: Vec<(String, Vec<u8>)> = Vec::new();
        let n = query_args.len();
        let mut i: usize = 0;
        while i < n
            invariant
                0 <= i <= n,
                n == query_args@.len(),
                args@.len() == i,
                forall|j: int|
                    0 <= j < i ==> (#[trigger] args@[j]).0@ == query_args@[j].0@ && args@[j].1@
                        == encode_utf8(query_args@[j].1@),
            decreases n - i,
        {
            let key = query_args[i].0.clone();
            let value = query_args[i].1.as_str().as_bytes_vec();
            args.push((key, value));
            i = i + 1;
        }
        HttpReq {
            req_type: http_info.matched_path,
            access_token: context.authorization,
            method: http_info.method,
            user_values: context.user_values,
            uri: Uri {
                path_original: http_info.uri.path_original,
                scheme: http_info.uri.scheme,
                path: http_info.uri.path,
                query_string: http_info.uri.query_string,
                hash: Vec::new(),
                host: http_info.uri.host,
                args: Args { val: args },
            },
            body,
            client_ip: context.client_ip,
        }
    }
}

} // verus!
