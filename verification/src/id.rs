//! Request identifiers used for tracing across layers.

use vstd::prelude::*;

use crate::text::{chars_of, occurs_at};

verus! {

/// A lower-case hexadecimal digit.
pub open spec fn is_lower_hex(c: char) -> bool {
    ('0' <= c && c <= '9') || ('a' <= c && c <= 'f')
}

/// The simple (hyphen-free) text form of a UUID: 32 lower-case hex digits.
pub open spec fn is_simple_uuid(s: Seq<char>) -> bool {
    s.len() == 32 && forall|i: int| 0 <= i < s.len() ==> is_lower_hex(#[trigger] s[i])
}

/// A freshly generated random (version 4) UUID in simple form
/// (`uuid::Uuid::new_v4().simple()`). The uuid documentation specifies the
/// simple format as 32 lower-case hexadecimal digits; which digits come out
/// is random, so nothing more is stated.
#[verifier::external_body]
pub(crate) fn fresh_uuid_simple() -> (s: String)
    ensures
        is_simple_uuid(s@),
{
    uuid::Uuid::new_v4().simple().to_string()
}

/// A generated identifier: `prefix` followed by a simple UUID.
pub open spec fn is_generated_id(s: Seq<char>, prefix: Seq<char>) -> bool {
    &&& occurs_at(s, prefix, 0)
    &&& is_simple_uuid(s.subrange(prefix.len() as int, s.len() as int))
}

/// `prefix` followed by a fresh simple UUID.
pub fn generated_id(prefix: &str) -> (s: String)
    ensures
        is_generated_id(s@, prefix@),
{
    let u = fresh_uuid_simple();
    let mut s = String::from_str(prefix);
    s.append(u.as_str());
    assert(s@.subrange(0, prefix@.len() as int) =~= prefix@);
    assert(s@.subrange(prefix@.len() as int, s@.len() as int) =~= u@);
    s
}

/// Characters accepted in a caller-supplied request id.
pub open spec fn id_char_ok(c: char) -> bool {
    ('0' <= c && c <= '9') || ('a' <= c && c <= 'z') || ('A' <= c && c <= 'Z') || c == '-'
        || c == '_' || c == '.'
}

/// A caller-supplied request id is kept when it is non-empty, at most 128
/// characters long and made only of ASCII alphanumerics and `-_.` (such text
/// is ASCII, so characters and bytes coincide).
pub open spec fn acceptable_request_id(s: Seq<char>) -> bool {
    &&& 0 < s.len() <= 128
    &&& forall|i: int| 0 <= i < s.len() ==> id_char_ok(#[trigger] s[i])
}

/// Unique identifier attached to every inbound API request.
#[derive(Debug, PartialEq, Eq, Hash)]
pub struct RequestId(pub String);

impl Clone for RequestId {
    fn clone(&self) -> (r: Self)
        ensures
            r == *self,
    {
        RequestId(self.0.clone())
    }
}

impl RequestId {
    /// A fresh id: `req_` followed by a random simple UUID.
    pub fn new() -> (r: Self)
        ensures
            is_generated_id(r.0@, "req_"@),
    {
        RequestId(generated_id("req_"))
    }

    /// Keep `raw` when it is acceptable, otherwise generate a fresh id.
    pub fn from_raw(raw: &str) -> (r: Self)
        ensures
            acceptable_request_id(raw@) ==> r.0@ == raw@,
            !acceptable_request_id(raw@) ==> is_generated_id(r.0@, "req_"@),
    {
        let v = chars_of(raw);
        let n = v.len();
        if n == 0 || n > 128 {
            return Self::new();
        }
        let mut i: usize = 0;
        while i < n
            invariant
                n == v@.len(),
                v@ == raw@,
                i <= n,
                forall|j: int| 0 <= j < i ==> id_char_ok(#[trigger] v@[j]),
            decreases n - i,
        {
            let c = v[i];
            let ok = ('0' <= c && c <= '9') || ('a' <= c && c <= 'z') || ('A' <= c && c <= 'Z')
                || c == '-' || c == '_' || c == '.';
            if !ok {
                return Self::new();
            }
            i = i + 1;
        }
        RequestId(String::from_str(raw))
    }

    pub fn as_str(&self) -> (r: &str)
        ensures
            r@ == self.0@,
    {
        self.0.as_str()
    }

    /// The id as an owned string (its display form).
    pub fn to_string(&self) -> (r: String)
        ensures
            r@ == self.0@,
    {
        self.0.clone()
    }

    /// Consumes the id, returning the inner string.
    pub fn into_string(self) -> (r: String)
        ensures
            r == self.0,
    {
        self.0
    }
}

impl Default for RequestId {
    fn default() -> (r: Self)
        ensures
            is_generated_id(r.0@, "req_"@),
    {
        Self::new()
    }
}

} // verus!
