//! The health-check status document:
//! `{"data":{"id":...,"type":...,"attributes":{"name":...}}}`.

use crate::json::{json_escape, lemma_encode_utf8_concat, push_json_escaped, push_text};
use vstd::prelude::*;
use vstd::utf8::encode_utf8;

verus! {

/// The inner attributes object of a status document.
pub struct Attributes {
    pub name: String,
}

/// The data object of a status document.  `kind` is written to the
/// wire under the field name `type`.
pub struct StatusesData {
    pub id: String,
    pub kind: String,
    pub attributes: Attributes,
}

/// The whole status document.
pub struct Statuses {
    pub data: StatusesData,
}

/// The text of the attributes object.
pub open spec fn spec_attributes_json(name: Seq<char>) -> Seq<char> {
    "{\"name\":\""@ + json_escape(name) + "\"}"@
}

/// The text of the data object.
pub open spec fn spec_statuses_data_json(id: Seq<char>, kind: Seq<char>, name: Seq<char>) -> Seq<char> {
    "{\"id\":\""@ + json_escape(id) + "\",\"type\":\""@ + json_escape(kind)
        + "\",\"attributes\":"@ + spec_attributes_json(name) + "}"@
}

/// The text of the whole status document.
pub open spec fn spec_statuses_json(id: Seq<char>, kind: Seq<char>, name: Seq<char>) -> Seq<char> {
    "{\"data\":"@ + spec_statuses_data_json(id, kind, name) + "}"@
}

impl Attributes {
    /// Serializes the attributes object, as UTF-8 bytes.
    pub fn to_json(&self) -> (r: Vec<u8>)
        ensures
            r@ == encode_utf8(spec_attributes_json(self.name@)),
    {
        let mut out: Vec<u8> = Vec::new();
        push_text(&mut out, "{\"name\":\"");
        push_json_escaped(&mut out, self.name.as_str());
        push_text(&mut out, "\"}");
        proof {
            lemma_encode_utf8_concat("{\"name\":\""@, json_escape(self.name@));
            lemma_encode_utf8_concat("{\"name\":\""@ + json_escape(self.name@), "\"}"@);
            assert(out@ =~= encode_utf8(spec_attributes_json(self.name@)));
        }
        out
    }
}

impl StatusesData {
    /// Serializes the data object, as UTF-8 bytes.
    pub fn to_json(&self) -> (r: Vec<u8>)
        ensures
            r@ == encode_utf8(
                spec_statuses_data_json(self.id@, self.kind@, self.attributes.name@),
            ),
    {
        let mut out: Vec<u8> = Vec::new();
        push_text(&mut out, "{\"id\":\"");
        push_json_escaped(&mut out, self.id.as_str());
        push_text(&mut out, "\",\"type\":\"");
        push_json_escaped(&mut out, self.kind.as_str());
        push_text(&mut out, "\",\"attributes\":");
        let mut attrs = self.attributes.to_json();
        out.append(&mut attrs);
        push_text(&mut out, "}");
        proof {
            lemma_encode_utf8_concat("{\"id\":\""@, json_escape(self.id@));
            lemma_encode_utf8_concat("{\"id\":\""@ + json_escape(self.id@), "\",\"type\":\""@);
            lemma_encode_utf8_concat(
                "{\"id\":\""@ + json_escape(self.id@) + "\",\"type\":\""@,
                json_escape(self.kind@),
            );
            lemma_encode_utf8_concat(
                "{\"id\":\""@ + json_escape(self.id@) + "\",\"type\":\""@ + json_escape(
                    self.kind@,
                ),
                "\",\"attributes\":"@,
            );
            lemma_encode_utf8_concat(
                "{\"id\":\""@ + json_escape(self.id@) + "\",\"type\":\""@ + json_escape(
                    self.kind@,
                ) + "\",\"attributes\":"@,
                spec_attributes_json(self.attributes.name@),
            );
            lemma_encode_utf8_concat(
                "{\"id\":\""@ + json_escape(self.id@) + "\",\"type\":\""@ + json_escape(
                    self.kind@,
                ) + "\",\"attributes\":"@ + spec_attributes_json(self.attributes.name@),
                "}"@,
            );
            assert(out@ =~= encode_utf8(
                spec_statuses_data_json(self.id@, self.kind@, self.attributes.name@),
            ));
        }
        out
    }
}

impl Statuses {
    /// Serializes the whole status document, as UTF-8 bytes.
    pub fn to_json(&self) -> (r: Vec<u8>)
        ensures
            r@ == encode_utf8(
                spec_statuses_json(
                    self.data.id@,
                    self.data.kind@,
                    self.data.attributes.name@,
                ),
            ),
    {
        let mut out: Vec<u8> = Vec::new();
        push_text(&mut out, "{\"data\":");
        let mut data = self.data.to_json();
        out.append(&mut data);
        push_text(&mut out, "}");
        proof {
            lemma_encode_utf8_concat(
                "{\"data\":"@,
                spec_statuses_data_json(
                    self.data.id@,
                    self.data.kind@,
                    self.data.attributes.name@,
                ),
            );
            lemma_encode_utf8_concat(
                "{\"data\":"@ + spec_statuses_data_json(
                    self.data.id@,
                    self.data.kind@,
                    self.data.attributes.name@,
                ),
                "}"@,
            );
            assert(out@ =~= encode_utf8(
                spec_statuses_json(
                    self.data.id@,
                    self.data.kind@,
                    self.data.attributes.name@,
                ),
            ));
        }
        out
    }
}

} // verus!
