//! Secret and session redaction helpers for logs and traces.

use vstd::prelude::*;

use crate::text::{chars_of, contains_seq, find, find_spec, lower, string_of_range, char_is_ws, is_ws};

verus! {

/// The replacement text for a redacted value.
pub open spec fn redacted_text() -> Seq<char> {
    "[REDACTED]"@
}

/// The number of sensitive key fragments.
pub open spec fn sensitive_key_count() -> int {
    16
}

/// The sensitive key fragments, by position.
pub open spec fn sensitive_key(i: int) -> Seq<char> {
    if i == 0 {
        "authorization"@
    } else if i == 1 {
        "cookie"@
    } else if i == 2 {
        "set-cookie"@
    } else if i == 3 {
        "x-api-key"@
    } else if i == 4 {
        "api-key"@
    } else if i == 5 {
        "api_key"@
    } else if i == 6 {
        "apikey"@
    } else if i == 7 {
        "token"@
    } else if i == 8 {
        "access_token"@
    } else if i == 9 {
        "refresh_token"@
    } else if i == 10 {
        "session"@
    } else if i == 11 {
        "session_id"@
    } else if i == 12 {
        "password"@
    } else if i == 13 {
        "secret"@
    } else if i == 14 {
        "credential"@
    } else {
        "bearer"@
    }
}

fn sensitive_key_at(i: usize) -> (r: &'static str)
    requires
        i < 16,
    ensures
        r@ == sensitive_key(i as int),
{
    match i {
        0 => "authorization",
        1 => "cookie",
        2 => "set-cookie",
        3 => "x-api-key",
        4 => "api-key",
        5 => "api_key",
        6 => "apikey",
        7 => "token",
        8 => "access_token",
        9 => "refresh_token",
        10 => "session",
        11 => "session_id",
        12 => "password",
        13 => "secret",
        14 => "credential",
        _ => "bearer",
    }
}

/// A name is sensitive when its ASCII lower-case form contains one of the
/// sensitive key fragments.
pub open spec fn sensitive_name(name: Seq<char>) -> bool {
    exists|i: int| 0 <= i < sensitive_key_count() && contains_seq(lower(name), #[trigger] sensitive_key(i))
}

/// Returns true when a header or field name should never be logged in full.
pub fn is_sensitive_key(name: &str) -> (r: bool)
    ensures
        r == sensitive_name(name@),
{
    let l = crate::text::to_lower(name);
    let mut i: usize = 0;
    while i < 16
        invariant
            l@ == lower(name@),
            i <= 16,
            forall|j: int| 0 <= j < i ==> !contains_seq(lower(name@), #[trigger] sensitive_key(j)),
        decreases 16 - i,
    {
        if crate::text::contains_str(l.as_str(), sensitive_key_at(i)) {
            return true;
        }
        i = i + 1;
    }
    false
}

/// Redact a header value when the name is sensitive.
pub fn redact_header(name: &str, value: &str) -> (r: String)
    ensures
        sensitive_name(name@) ==> r@ == redacted_text(),
        !sensitive_name(name@) ==> r@ == value@,
{
    if is_sensitive_key(name) {
        String::from_str("[REDACTED]")
    } else {
        String::from_str(value)
    }
}

/// The markers after which a secret value follows.
pub open spec fn secret_marker(i: int) -> Seq<char> {
    if i == 0 {
        "Bearer "@
    } else if i == 1 {
        "bearer "@
    } else if i == 2 {
        "sk-"@
    } else if i == 3 {
        "sess-"@
    } else if i == 4 {
        "session="@
    } else if i == 5 {
        "token="@
    } else {
        "password="@
    }
}

fn secret_marker_at(i: usize) -> (r: &'static str)
    requires
        i < 7,
    ensures
        r@ == secret_marker(i as int),
{
    match i {
        0 => "Bearer ",
        1 => "bearer ",
        2 => "sk-",
        3 => "sess-",
        4 => "session=",
        5 => "token=",
        _ => "password=",
    }
}

/// Characters that end a secret value.
pub open spec fn ends_secret(c: char) -> bool {
    is_ws(c) || c == '"' || c == ',' || c == ';'
}

/// The position of the first secret-ending character at or after `j`, or the
/// length of `s` when there is none.
pub open spec fn secret_end(s: Seq<char>, j: int) -> int
    decreases s.len() - j,
{
    if j < 0 || j >= s.len() {
        s.len() as int
    } else if ends_secret(s[j]) {
        j
    } else {
        secret_end(s, j + 1)
    }
}

/// Redact the value after the first occurrence of `marker`, if any: the text
/// from the end of the marker up to the first secret-ending character is
/// replaced by `[REDACTED]`.
pub open spec fn redact_after(s: Seq<char>, marker: Seq<char>) -> Seq<char> {
    match find_spec(s, marker) {
        None => s,
        Some(i) => {
            let start = i + marker.len();
            s.subrange(0, start) + redacted_text() + s.subrange(secret_end(s, start), s.len() as int)
        },
    }
}

/// The text after the first `k` markers have been processed, in order.
pub open spec fn redact_upto(s: Seq<char>, k: int) -> Seq<char>
    decreases k,
{
    if k <= 0 {
        s
    } else {
        redact_after(redact_upto(s, k - 1), secret_marker(k - 1))
    }
}

/// The result of `redact_text`: every marker processed in order.
pub open spec fn redact_text_spec(s: Seq<char>) -> Seq<char> {
    redact_upto(s, 7)
}

fn redact_once(input: String, marker: &str) -> (r: String)
    ensures
        r@ == redact_after(input@, marker@),
{
    let v = chars_of(input.as_str());
    let m = chars_of(marker);
    match find(&v, &m) {
        None => input,
        Some(i) => {
            let vlen = v.len();
            let mlen = m.len();
            assert(crate::text::occurs_at(v@, m@, i as int));
            assert(i + mlen <= vlen);
            let start = i + mlen;
            let mut end = start;
            while end < v.len() && !(char_is_ws(v[end]) || v[end] == '"' || v[end] == ','
                || v[end] == ';')
                invariant
                    start <= end <= v.len(),
                    secret_end(v@, start as int) == secret_end(v@, end as int),
                decreases v.len() - end,
            {
                end = end + 1;
            }
            let mut out = string_of_range(&v, 0, start);
            out.append("[REDACTED]");
            let tail = string_of_range(&v, end, v.len());
            out.append(tail.as_str());
            out
        },
    }
}

/// Replace likely secrets inside an arbitrary string.
pub fn redact_text(input: &str) -> (r: String)
    ensures
        r@ == redact_text_spec(input@),
{
    let mut out = String::from_str(input);
    let mut k: usize = 0;
    while k < 7
        invariant
            k <= 7,
            out@ == redact_upto(input@, k as int),
        decreases 7 - k,
    {
        out = redact_once(out, secret_marker_at(k));
        k = k + 1;
    }
    out
}

pub fn redacted() -> (r: &'static str)
    ensures
        r@ == redacted_text(),
{
    "[REDACTED]"
}

} // verus!
