//! Validated newtypes shared across the gateway: listen port, client IP,
//! bearer token, HTTP method and broker host address.

use crate::msgpack::bytes_eq;
use vstd::prelude::*;
use vstd::string::{StrSliceExecFns, StringExecFns};

verus! {

/// Character-for-character equality of two strings, decided on their
/// UTF-8 bytes.
pub fn str_eq(a: &str, b: &str) -> (r: bool)
    ensures
        r <==> a@ == b@,
{
    let r = bytes_eq(a.as_bytes(), b.as_bytes());
    proof {
        if r {
            vstd::utf8::encode_utf8_decode_utf8(a@);
            vstd::utf8::encode_utf8_decode_utf8(b@);
        }
    }
    r
}

/// A TCP listen port.  The configuration schema allows `1..=65535`;
/// zero is rejected by [`Port::new`].
#[derive(Clone, Copy, Debug, PartialEq, Eq, Hash, Structural)]
pub struct Port(u16);

impl View for Port {
    type V = u16;

    closed spec fn view(&self) -> u16 {
        self.0
    }
}

impl Port {
    /// Accepts every non-zero port and nothing else.
    pub fn new(port: u16) -> (r: Result<Self, &'static str>)
        ensures
            r is Ok <==> port != 0,
            r matches Ok(p) ==> p@ == port,
            r matches Err(m) ==> m@ == "Port cannot be zero"@,
    {
        if port == 0 {
            Err("Port cannot be zero")
        } else {
            Ok(Port(port))
        }
    }

    /// The underlying number.
    pub fn as_u16(&self) -> (r: u16)
        ensures
            r == self@,
    {
        self.0
    }
}

/// The textual client IP chosen by the forwarding-header extractor.
/// May be empty when no public address could be determined.
#[derive(Clone, Debug, PartialEq, Eq, Hash)]
pub struct ClientIp(String);

impl View for ClientIp {
    type V = Seq<char>;

    closed spec fn view(&self) -> Seq<char> {
        self.0@
    }
}

impl ClientIp {
    /// Wraps a textual IP as-is.
    pub fn new(ip: String) -> (r: Self)
        ensures
            r@ == ip@,
    {
        ClientIp(ip)
    }

    /// The empty client IP, used when extraction found nothing.
    pub fn empty() -> (r: Self)
        ensures
            r@ =~= Seq::<char>::empty(),
    {
        ClientIp(String::new())
    }

    /// The underlying string.
    pub fn as_str(&self) -> (r: &str)
        ensures
            r@ == self@,
    {
        self.0.as_str()
    }

    /// True exactly when the address text is empty.
    pub fn is_empty(&self) -> (r: bool)
        ensures
            r <==> self@.len() == 0,
    {
        self.0.as_str().is_empty()
    }

    /// The underlying string, consuming the wrapper.
    pub fn into_string(self) -> (r: String)
        ensures
            r@ == self@,
    {
        self.0
    }
}

/// A bearer credential taken from the `Authorization` header.
/// Empty when the header was absent or not a bearer token.
#[derive(Clone, Debug, PartialEq, Eq, Hash)]
pub struct AuthToken(String);

impl View for AuthToken {
    type V = Seq<char>;

    closed spec fn view(&self) -> Seq<char> {
        self.0@
    }
}

impl AuthToken {
    /// Wraps a credential as-is.
    pub fn new(token: String) -> (r: Self)
        ensures
            r@ == token@,
    {
        AuthToken(token)
    }

    /// The empty token, used when no bearer credential was presented.
    pub fn empty() -> (r: Self)
        ensures
            r@ =~= Seq::<char>::empty(),
    {
        AuthToken(String::new())
    }

    /// The underlying string.
    pub fn as_str(&self) -> (r: &str)
        ensures
            r@ == self@,
    {
        self.0.as_str()
    }

    /// True exactly when no credential is held.
    pub fn is_empty(&self) -> (r: bool)
        ensures
            r <==> self@.len() == 0,
    {
        self.0.as_str().is_empty()
    }

    /// The underlying string, consuming the wrapper.
    pub fn into_string(self) -> (r: String)
        ensures
            r@ == self@,
    {
        self.0
    }
}

/// The HTTP methods the gateway forwards, as a closed enum.
#[derive(Clone, Copy, Debug, PartialEq, Eq, Hash, Structural)]
pub enum HttpMethod {
    Get,
    Post,
    Put,
    Delete,
    Patch,
    Head,
    Options,
}

/// The scalar value of `c` after ASCII upper-casing; characters outside
/// `a..=z` keep their value.
pub open spec fn upper_u32(c: char) -> u32 {
    if 97 <= c as u32 <= 122 {
        (c as u32 - 32) as u32
    } else {
        c as u32
    }
}

/// True when `s`, upper-cased per ASCII, spells the same characters as `t`.
pub open spec fn eq_upper(s: Seq<char>, t: Seq<char>) -> bool {
    s.len() == t.len() && forall|i: int| 0 <= i < s.len() ==> upper_u32(s[i]) == t[i] as u32
}

/// The method named by `s`, compared without regard to ASCII case;
/// `None` when `s` names no HTTP method the gateway forwards.
pub open spec fn method_of_chars(s: Seq<char>) -> Option<HttpMethod> {
    if eq_upper(s, "GET"@) {
        Some(HttpMethod::Get)
    } else if eq_upper(s, "POST"@) {
        Some(HttpMethod::Post)
    } else if eq_upper(s, "PUT"@) {
        Some(HttpMethod::Put)
    } else if eq_upper(s, "DELETE"@) {
        Some(HttpMethod::Delete)
    } else if eq_upper(s, "PATCH"@) {
        Some(HttpMethod::Patch)
    } else if eq_upper(s, "HEAD"@) {
        Some(HttpMethod::Head)
    } else if eq_upper(s, "OPTIONS"@) {
        Some(HttpMethod::Options)
    } else {
        None
    }
}

/// The canonical upper-case name of a method.
pub open spec fn method_chars(m: HttpMethod) -> Seq<char> {
    match m {
        HttpMethod::Get => "GET"@,
        HttpMethod::Post => "POST"@,
        HttpMethod::Put => "PUT"@,
        HttpMethod::Delete => "DELETE"@,
        HttpMethod::Patch => "PATCH"@,
        HttpMethod::Head => "HEAD"@,
        HttpMethod::Options => "OPTIONS"@,
    }
}

/// True when `s`, upper-cased per ASCII, equals `t` character for character.
fn eq_ignore_case(s: &str, t: &str) -> (r: bool)
    ensures
        r <==> eq_upper(s@, t@),
{
    let s_len = s.unicode_len();
    let t_len = t.unicode_len();
    if s_len != t_len {
        return false;
    }
    let mut i: usize = 0;
    while i < s_len
        invariant
            0 <= i <= s_len,
            s_len == s@.len(),
            t_len == t@.len(),
            s_len == t_len,
            forall|j: int| 0 <= j < i ==> upper_u32(s@[j]) == t@[j] as u32,
        decreases s_len - i,
    {
        let sc = s.get_char(i) as u32;
        let tc = t.get_char(i) as u32;
        let up: u32 = if 97 <= sc && sc <= 122 {
            sc - 32
        } else {
            sc
        };
        if up != tc {
            assert(upper_u32(s@[i as int]) != t@[i as int] as u32);
            return false;
        }
        i = i + 1;
    }
    true
}

impl HttpMethod {
    /// Parses a method name, accepting any ASCII casing, and rejects
    /// everything that is not one of the seven forwarded methods.
    pub fn from_str(s: &str) -> (r: Result<HttpMethod, &'static str>)
        ensures
            r matches Ok(m) ==> method_of_chars(s@) == Some(m),
            r is Err <==> method_of_chars(s@) is None,
            r matches Err(m) ==> m@ == "Invalid HTTP method"@,
    {
        if eq_ignore_case(s, "GET") {
            Ok(HttpMethod::Get)
        } else if eq_ignore_case(s, "POST") {
            Ok(HttpMethod::Post)
        } else if eq_ignore_case(s, "PUT") {
            Ok(HttpMethod::Put)
        } else if eq_ignore_case(s, "DELETE") {
            Ok(HttpMethod::Delete)
        } else if eq_ignore_case(s, "PATCH") {
            Ok(HttpMethod::Patch)
        } else if eq_ignore_case(s, "HEAD") {
            Ok(HttpMethod::Head)
        } else if eq_ignore_case(s, "OPTIONS") {
            Ok(HttpMethod::Options)
        } else {
            Err("Invalid HTTP method")
        }
    }

    /// The canonical upper-case name, as sent on the wire.
    pub fn as_str(&self) -> (r: &'static str)
        ensures
            r@ == method_chars(*self),
    {
        match self {
            HttpMethod::Get => "GET",
            HttpMethod::Post => "POST",
            HttpMethod::Put => "PUT",
            HttpMethod::Delete => "DELETE",
            HttpMethod::Patch => "PATCH",
            HttpMethod::Head => "HEAD",
            HttpMethod::Options => "OPTIONS",
        }
    }

    /// The canonical upper-case name as an owned string.
    pub fn to_string(&self) -> (r: String)
        ensures
            r@ == method_chars(*self),
    {
        String::from_str(self.as_str())
    }
}

/// True when some character of `s` is a colon.
pub open spec fn has_colon(s: Seq<char>) -> bool {
    exists|i: int| 0 <= i < s.len() && s[i] == ':'
}

/// The `host:port` address of the message broker.
/// Never empty, and always carries an explicit port separator.
#[derive(Clone, Debug, PartialEq, Eq, Hash)]
pub struct NatsHost(String);

impl View for NatsHost {
    type V = Seq<char>;

    closed spec fn view(&self) -> Seq<char> {
        self.0@
    }
}

impl NatsHost {
    /// Accepts exactly the non-empty strings that contain a colon,
    /// so that a port is always present.
    pub fn new(host: String) -> (r: Result<Self, &'static str>)
        ensures
            r is Ok <==> host@.len() > 0 && has_colon(host@),
            r matches Ok(h) ==> h@ == host@,
            host@.len() == 0 ==> r == Err::<NatsHost, &'static str>("NATS host cannot be empty"),
            host@.len() > 0 && !has_colon(host@) ==> r == Err::<NatsHost, &'static str>(
                "NATS host must include port (e.g., 'localhost:4222')",
            ),
    {
        let n = host.as_str().unicode_len();
        if n == 0 {
            return Err("NATS host cannot be empty");
        }
        let mut i: usize = 0;
        while i < n
            invariant
                0 <= i <= n,
                n == host@.len(),
                forall|j: int| 0 <= j < i ==> host@[j] != ':',
            decreases n - i,
    {
            if host.as_str().get_char(i) == ':' {
                return Ok(NatsHost(host));
            }
            i = i + 1;
        }
        assert(!has_colon(host@));
        Err("NATS host must include port (e.g., 'localhost:4222')")
    }

    /// The underlying address text.
    pub fn as_str(&self) -> (r: &str)
        ensures
            r@ == self@,
    {
        self.0.as_str()
    }

    /// The underlying address text, consuming the wrapper.
    pub fn into_string(self) -> (r: String)
        ensures
            r@ == self@,
    {
        self.0
    }
}

} // verus!
