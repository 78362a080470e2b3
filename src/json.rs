use vstd::prelude::*;
use crate::types::{DynamicVersionResponse, JsonValue, JsonView};

verus! {

/// The entries of the JSON object that `body` encodes, or `None` where the bytes are
/// not one JSON object.
pub uninterp spec fn json_object_of(body: Seq<u8>) -> Option<Seq<(Seq<char>, JsonView)>>;

/// Relies on `serde_json::from_slice` into a `serde_json::Map`: the body is read as
/// one JSON object, and the same bytes give the same entries. Each value keeps its
/// kind, and a string value its text.
#[verifier::external_body]
pub(crate) fn decode_object(body: &[u8]) -> (r: Option<DynamicVersionResponse>)
    ensures
        match r {
            Some(d) => json_object_of(body@) == Some(d@),
            None => json_object_of(body@).is_none(),
        },
{
    let map: serde_json::Map<String, serde_json::Value> = serde_json::from_slice(body).ok()?;
    let mut fields = Vec::new();
    for (k, v) in map {
        fields.push((k, match v {
            serde_json::Value::Null => JsonValue::Null,
            serde_json::Value::Bool(b) => JsonValue::Bool(b),
            serde_json::Value::Number(_) => JsonValue::Number,
            serde_json::Value::String(s) => JsonValue::Text(s),
            serde_json::Value::Array(_) => JsonValue::Array,
            serde_json::Value::Object(_) => JsonValue::Object,
        }));
    }
    Some(DynamicVersionResponse { fields })
}

/// The value of the first entry whose key is `key`.
pub open spec fn field_in(entries: Seq<(Seq<char>, JsonView)>, key: Seq<char>) -> Option<JsonView>
    decreases entries.len(),
{
    if entries.len() == 0 {
        None
    } else if entries[0].0 == key {
        Some(entries[0].1)
    } else {
        field_in(entries.drop_first(), key)
    }
}

/// The text under `key`, where that entry exists and holds a string.
pub open spec fn text_in(entries: Seq<(Seq<char>, JsonView)>, key: Seq<char>) -> Option<Seq<char>> {
    match field_in(entries, key) {
        Some(JsonView::Text(s)) => Some(s),
        _ => None,
    }
}

impl DynamicVersionResponse {
    /// The text of the string stored under `key`; `None` where the key is absent or
    /// its value is not a string.
    pub fn text_field(&self, key: &String) -> (r: Option<String>)
        ensures
            match r {
                Some(s) => text_in(self@, key@) == Some(s@),
                None => text_in(self@, key@).is_none(),
            },
    {
        let n = self.fields.len();
        let mut i: usize = 0;
        proof {
            assert(self@.subrange(0, n as int) =~= self@);
        }
        while i < n
            invariant
                n == self.fields@.len(),
                i <= n,
                field_in(self@, key@) == field_in(self@.subrange(i as int, n as int), key@),
            decreases n - i,
        {
            proof {
                assert(self@.subrange(i as int, n as int).drop_first()
                    =~= self@.subrange(i + 1, n as int));
            }
            let entry = &self.fields[i];
            assert(self@.subrange(i as int, n as int)[0] == (entry.0@, entry.1@));
            if entry.0 == *key {
                return match &entry.1 {
                    JsonValue::Text(s) => Some(s.clone()),
                    _ => None,
                };
            }
            i = i + 1;
        }
        None
    }
}

} // verus!
