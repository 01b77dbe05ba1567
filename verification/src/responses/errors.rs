//! The JSON:API error document: `{"errors":[{code, title, detail}, ...]}`.

use crate::json::{json_escape, lemma_encode_utf8_concat, push_json_escaped, push_text};
use vstd::prelude::*;
use vstd::utf8::encode_utf8;

verus! {

/// One JSON:API error: a status code, a short title and a detail text.
pub struct Error {
    pub code: String,
    pub title: String,
    pub detail: String,
}

/// A JSON:API errors document: a list of errors.
pub struct Errors {
    pub errors: Vec<Error>,
}

/// The text of one error object.
pub open spec fn spec_error_json(code: Seq<char>, title: Seq<char>, detail: Seq<char>) -> Seq<
    char,
> {
    "{\"code\":\""@ + json_escape(code) + "\",\"title\":\""@ + json_escape(title)
        + "\",\"detail\":\""@ + json_escape(detail) + "\"}"@
}

/// The comma-separated list of error objects.
pub open spec fn spec_error_list(l: Seq<Error>) -> Seq<char>
    decreases l.len(),
{
    if l.len() == 0 {
        Seq::<char>::empty()
    } else if l.len() == 1 {
        spec_error_json(l[0].code@, l[0].title@, l[0].detail@)
    } else {
        spec_error_list(l.drop_last()) + ","@ + spec_error_json(
            l.last().code@,
            l.last().title@,
            l.last().detail@,
        )
    }
}

/// The text of a whole errors document.
pub open spec fn spec_errors_json(l: Seq<Error>) -> Seq<char> {
    "{\"errors\":["@ + spec_error_list(l) + "]}"@
}

/// Appends one error object.
fn push_error_json(out: &mut Vec<u8>, e: &Error)
    ensures
        final(out)@ == old(out)@ + encode_utf8(spec_error_json(e.code@, e.title@, e.detail@)),
{
    push_text(out, "{\"code\":\"");
    push_json_escaped(out, e.code.as_str());
    push_text(out, "\",\"title\":\"");
    push_json_escaped(out, e.title.as_str());
    push_text(out, "\",\"detail\":\"");
    push_json_escaped(out, e.detail.as_str());
    push_text(out, "\"}");
    proof {
        lemma_encode_utf8_concat("{\"code\":\""@, json_escape(e.code@));
        lemma_encode_utf8_concat("{\"code\":\""@ + json_escape(e.code@), "\",\"title\":\""@);
        lemma_encode_utf8_concat(
            "{\"code\":\""@ + json_escape(e.code@) + "\",\"title\":\""@,
            json_escape(e.title@),
        );
        lemma_encode_utf8_concat(
            "{\"code\":\""@ + json_escape(e.code@) + "\",\"title\":\""@ + json_escape(e.title@),
            "\",\"detail\":\""@,
        );
        lemma_encode_utf8_concat(
            "{\"code\":\""@ + json_escape(e.code@) + "\",\"title\":\""@ + json_escape(e.title@)
                + "\",\"detail\":\""@,
            json_escape(e.detail@),
        );
        lemma_encode_utf8_concat(
            "{\"code\":\""@ + json_escape(e.code@) + "\",\"title\":\""@ + json_escape(e.title@)
                + "\",\"detail\":\""@ + json_escape(e.detail@),
            "\"}"@,
        );
        assert(final(out)@ =~= old(out)@ + encode_utf8(
            spec_error_json(e.code@, e.title@, e.detail@),
        ));
    }
}

impl Error {
    /// Serializes the error object to its JSON text, as UTF-8 bytes.
    pub fn to_json(&self) -> (r: Vec<u8>)
        ensures
            r@ == encode_utf8(spec_error_json(self.code@, self.title@, self.detail@)),
    {
        let mut out: Vec<u8> = Vec::new();
        push_error_json(&mut out, self);
        out
    }
}

impl Errors {
    /// Serializes the errors document to its JSON text, as UTF-8 bytes.
    pub fn to_json(&self) -> (r: Vec<u8>)
        ensures
            r@ == encode_utf8(spec_errors_json(self.errors@)),
    {
        let mut out: Vec<u8> = Vec::new();
        push_text(&mut out, "{\"errors\":[");
        let n = self.errors.len();
        let mut i: usize = 0;
        proof {
            assert(self.errors@.take(0) =~= Seq::<Error>::empty());
        }
        while i < n
            invariant
                0 <= i <= n,
                n == self.errors@.len(),
                out@ == encode_utf8("{\"errors\":["@) + encode_utf8(
                    spec_error_list(self.errors@.take(i as int)),
                ),
            decreases n - i,
        {
            if i > 0 {
                push_text(&mut out, ",");
            }
            push_error_json(&mut out, &self.errors[i]);
            proof {
                let pre = self.errors@.take(i as int);
                let cur = self.errors@.take(i + 1);
                assert(cur.drop_last() =~= pre);
                assert(cur.last() == self.errors@[i as int]);
                if i == 0 {
                    assert(spec_error_list(cur) =~= spec_error_json(
                        self.errors@[0].code@,
                        self.errors@[0].title@,
                        self.errors@[0].detail@,
                    ));
                } else {
                    lemma_encode_utf8_concat(spec_error_list(pre), ","@);
                }
                lemma_encode_utf8_concat(
                    spec_error_list(pre) + ","@,
                    spec_error_json(
                        self.errors@[i as int].code@,
                        self.errors@[i as int].title@,
                        self.errors@[i as int].detail@,
                    ),
                );
                assert(out@ =~= encode_utf8("{\"errors\":["@) + encode_utf8(spec_error_list(cur)));
            }
            i = i + 1;
        }
        push_text(&mut out, "]}");
        proof {
            assert(self.errors@.take(n as int) =~= self.errors@);
            lemma_encode_utf8_concat("{\"errors\":["@, spec_error_list(self.errors@));
            lemma_encode_utf8_concat(
                "{\"errors\":["@ + spec_error_list(self.errors@),
                "]}"@,
            );
            assert(out@ =~= encode_utf8(spec_errors_json(self.errors@)));
        }
        out
    }
}

} // verus!
