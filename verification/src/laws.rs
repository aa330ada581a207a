//! Properties of the library that relate several of its operations.

use vstd::prelude::*;

use crate::api::{auth_passes, presented_key, strip_leading};
use crate::config::{config_valid, is_default_config, no_overrides, prepared, AppConfig, EnvOverrides};
use crate::conversation::{parse_role_spec, role_name, Role};
use crate::normalizer::{normalize_step, normalized_messages};
use crate::id::{is_generated_id, is_simple_uuid};
use crate::intelligence::deterministic_inference;
use crate::needle::{
    labeled_value, labeled_with, label_sep, meets_confidence, needle_inference, strip_lead_quotes, strip_quotes,
    strip_trail_quotes, token_end, Confidence, NeedleEngine, NeedleMatch,
};
use crate::extractor::between_extraction;
use crate::schema::{accepts, JsonSchema};
use crate::reliability::{reliable_extraction, sanitized, without_nul, ReliableExtractor};
use crate::json::{first_key_at, json_get, json_index, Json};
use crate::streaming::{chunk_json, choice_json, stream_body, stream_events_spec, EventView};
use crate::error::SetuError;
use crate::secret::{kind_dir_spec, SecretKind};
use crate::session::{
    add_ms, expired_at, fresh_session, invalidated, validation_at, with_expiry, SessionSnapshot,
    DAY_MS,
};
use crate::session_store::{find_id, first_id_at, latest_for, saved, without_id};
use crate::text::{collapse_step, collapse_ws, is_blank, is_ws, lower, lower_char, occurs_at, trim, trim_end, trim_start};

verus! {

/// Loading the default configuration with no environment overrides always
/// yields a valid configuration, with the built-in `aisetu-default` and
/// `aisetu-echo` models.
pub proof fn law_default_config_valid(base: AppConfig, env: EnvOverrides, out: AppConfig)
    requires
        is_default_config(base),
        no_overrides(env),
        prepared(base, env, out),
    ensures
        config_valid(out),
        out.models@.len() == 2,
        out.models@[0].id@ == "aisetu-default"@,
        out.models@[1].id@ == "aisetu-echo"@,
{
    reveal_strlit("127.0.0.1");
    reveal_strlit("mock");
    reveal_strlit("echo");
    reveal_strlit("aisetu-default");
    reveal_strlit("aisetu-echo");
    crate::limits::default_limits_are_valid();
    let mid = choose|mid: AppConfig| crate::config::overrides_applied(base, env, mid) && crate::config::defaults_ensured(mid, out);
    assert(!is_blank(out.server.bind@)) by {
        assert(!is_ws(out.server.bind@[0]));
    }
    let ps = out.providers@;
    assert(ps.len() == 2);
    assert(!is_blank(ps[0].name@)) by {
        assert(!is_ws(ps[0].name@[0]));
    }
    assert(!is_blank(ps[1].name@)) by {
        assert(!is_ws(ps[1].name@[0]));
    }
    let ms = out.models@;
    assert(!is_blank(ms[0].id@)) by {
        assert(!is_ws(ms[0].id@[0]));
    }
    assert(!is_blank(ms[1].id@)) by {
        assert(!is_ws(ms[1].id@[0]));
    }
    assert(crate::config::names_provider(ps, ms[0].provider@)) by {
        assert(ps[0].name@ == ms[0].provider@);
    }
    assert(crate::config::names_provider(ps, ms[1].provider@)) by {
        assert(ps[1].name@ == ms[1].provider@);
    }
}

/// Every role parses back from its name.
pub proof fn law_role_name_parses(r: Role)
    ensures
        parse_role_spec(role_name(r)) == Some(r),
{
    reveal_strlit("system");
    reveal_strlit("user");
    reveal_strlit("assistant");
    let s = role_name(r);
    assert(!is_ws(s[0]));
    assert(!is_ws(s.last()));
    assert(trim_start(s) == s);
    assert(trim_end(s) == s);
    assert(lower(s) =~= s);
}

/// After saving a session, loading its id finds exactly that session.
pub proof fn law_saved_session_loads(ss: Seq<SessionSnapshot>, s: SessionSnapshot)
    ensures
        find_id(saved(ss, s), s.id) matches Some(i) && saved(ss, s)[i] == s,
{
    let after = saved(ss, s);
    match find_id(ss, s.id) {
        Some(i) => {
            let w = choose|k: int| 0 <= k < ss.len() && #[trigger] ss[k].id == s.id;
            lemma_first_exists(ss, s.id, w);
            assert(first_id_at(ss, s.id, i));
            assert(first_id_at(after, s.id, i));
            assert(0 <= i < after.len() && after[i].id == s.id);
            let c = choose|c: int| first_id_at(after, s.id, c);
            lemma_first_unique(after, s.id, c, i);
        },
        None => {
            let n = ss.len() as int;
            assert(forall|k: int| 0 <= k < n ==> #[trigger] ss[k].id != s.id);
            assert(first_id_at(after, s.id, n));
            assert(0 <= n < after.len() && after[n].id == s.id);
            let c = choose|c: int| first_id_at(after, s.id, c);
            lemma_first_unique(after, s.id, c, n);
        },
    }
}

proof fn lemma_first_exists(ss: Seq<SessionSnapshot>, id: Seq<char>, w: int)
    requires
        0 <= w < ss.len(),
        ss[w].id == id,
    ensures
        exists|i: int| first_id_at(ss, id, i),
    decreases w,
{
    if forall|j: int| 0 <= j < w ==> #[trigger] ss[j].id != id {
        assert(first_id_at(ss, id, w));
    } else {
        let j = choose|j: int| 0 <= j < w && #[trigger] ss[j].id == id;
        lemma_first_exists(ss, id, j);
    }
}

proof fn lemma_first_unique(ss: Seq<SessionSnapshot>, id: Seq<char>, a: int, b: int)
    requires
        first_id_at(ss, id, a),
        first_id_at(ss, id, b),
    ensures
        a == b,
{
    if a < b {
        assert(ss[a].id != id);
    } else if b < a {
        assert(ss[b].id != id);
    }
}

proof fn lemma_without_id_lacks(ss: Seq<SessionSnapshot>, id: Seq<char>, k: int)
    requires
        0 <= k <= ss.len(),
    ensures
        forall|i: int| 0 <= i < without_id(ss, id, k).len() ==> (#[trigger] without_id(ss, id, k)[i]).id != id,
    decreases k,
{
    if k > 0 {
        lemma_without_id_lacks(ss, id, k - 1);
    }
}

/// After deleting an id, no session with that id is found.
pub proof fn law_deleted_session_gone(ss: Seq<SessionSnapshot>, id: Seq<char>)
    ensures
        find_id(without_id(ss, id, ss.len() as int), id) is None,
{
    lemma_without_id_lacks(ss, id, ss.len() as int);
}

/// An invalidated session never validates.
pub proof fn law_invalidated_session_rejected(s: SessionSnapshot, now: i64, later: i64)
    ensures
        validation_at(invalidated(s, now), later) is Err,
{
}

/// A fresh session for a named provider validates at its creation time.
pub proof fn law_fresh_session_valid(s: SessionSnapshot, provider: Seq<char>, now: i64)
    requires
        fresh_session(s, provider, now),
        !is_blank(provider),
        now < i64::MAX,
    ensures
        validation_at(s, now) is Ok,
{
}

/// A session whose lifetime is set to end now or earlier has expired.
pub proof fn law_elapsed_ttl_expires(s: SessionSnapshot, ttl_ms: i64, now: i64)
    requires
        ttl_ms <= 0,
    ensures
        expired_at(with_expiry(s, ttl_ms, now), now),
        validation_at(with_expiry(s, ttl_ms, now), now) is Err,
{
}

/// Without a configured key (or with an empty one) every call passes.
pub proof fn law_no_key_admits_all(expected: Option<Seq<char>>, header: Option<Seq<char>>)
    requires
        expected matches Some(k) ==> k.len() == 0,
    ensures
        auth_passes(expected, header),
{
}

/// The configured key presented as a bearer token passes.
pub proof fn law_bearer_key_admitted(k: Seq<char>)
    ensures
        auth_passes(Some(k), Some("Bearer "@ + k)),
{
    reveal_strlit("Bearer ");
    let h = "Bearer "@ + k;
    assert(h.subrange(0, 7) =~= "Bearer "@);
    assert(occurs_at(h, "Bearer "@, 0));
    assert(presented_key(h) =~= k);
}

/// The default Needle threshold of 1/2 admits every match: labeled fields
/// are worth at least one half.
pub proof fn law_needle_default_threshold(m: NeedleMatch)
    ensures
        meets_confidence(m, Confidence { num: 1, den: 2 }),
{
}

/// Secrets of different kinds are filed in different directories.
pub proof fn law_secret_kinds_separated(a: SecretKind, b: SecretKind)
    requires
        a != b,
    ensures
        kind_dir_spec(a) != kind_dir_spec(b),
{
    reveal_strlit("api-credentials");
    reveal_strlit("provider-sessions");
    reveal_strlit("configuration");
    reveal_strlit("runtime-state");
    assert(kind_dir_spec(a)[0] != kind_dir_spec(b)[0] || kind_dir_spec(a).len() != kind_dir_spec(b).len());
}

/// For a generated request id, the completion id keeps exactly its UUID.
pub proof fn law_completion_id_keeps_uuid(rid: Seq<char>)
    requires
        is_generated_id(rid, "req_"@),
    ensures
        strip_leading(rid, "req_"@) == rid.skip(4),
        is_simple_uuid(strip_leading(rid, "req_"@)),
{
    reveal_strlit("req_");
    let rest = rid.skip(4);
    assert(rest =~= rid.subrange(4, rid.len() as int));
    assert(!occurs_at(rest, "req_"@, 0)) by {
        if rest.len() > 0 {
            assert(crate::id::is_lower_hex(rest[0]));
            assert(rest.subrange(0, 4)[0] == rest[0]);
        }
    }
    assert(rid.subrange(0, 4) =~= "req_"@);
    assert(occurs_at(rid, "req_"@, 0));
    assert(strip_leading(rest, "req_"@) == rest);
    assert(strip_leading(rid, "req_"@) == strip_leading(rid.skip("req_"@.len() as int), "req_"@));
}

/// Normalized messages are never empty, their white space is collapsed, and
/// no two neighbours share a non-system role (such messages are merged).
pub proof fn law_normalized_shape(s: Seq<(Role, Seq<char>)>)
    ensures
        forall|i: int| 0 <= i < normalized_messages(s).len() ==> (#[trigger] normalized_messages(s)[i]).1.len() > 0,
        forall|i: int| 0 <= i < normalized_messages(s).len() ==> collapsed_form((#[trigger] normalized_messages(s)[i]).1),
        forall|i: int, j: int|
            0 <= i && j == i + 1 && j < normalized_messages(s).len() ==> (#[trigger] normalized_messages(s)[i]).0
                != (#[trigger] normalized_messages(s)[j]).0 || normalized_messages(s)[i].0 == Role::System,
{
    lemma_norm_fold_shape(s);
    assert(normalized_messages(s) == norm_fold(s).0);
}

/// White space in `t` is only single spaces between other characters.
pub open spec fn collapsed_form(t: Seq<char>) -> bool {
    forall|i: int|
        0 <= i < t.len() && is_ws(#[trigger] t[i]) ==> t[i] == ' ' && 0 < i && i + 1 < t.len() && !is_ws(t[i - 1])
            && !is_ws(t[i + 1])
}

spec fn collapse_fold(p: Seq<char>) -> (Seq<char>, bool) {
    p.fold_left((Seq::<char>::empty(), false), |acc: (Seq<char>, bool), c: char| collapse_step(acc, c))
}

proof fn lemma_collapse_fold_form(p: Seq<char>)
    ensures
        collapsed_form(collapse_fold(p).0),
        collapse_fold(p).1 ==> collapse_fold(p).0.len() > 0,
    decreases p.len(),
{
    if p.len() > 0 {
        lemma_collapse_fold_form(p.drop_last());
        let acc = collapse_fold(p.drop_last());
        let c = p.last();
        let out = acc.0;
        assert(collapse_fold(p) == collapse_step(acc, c));
        if out.len() > 0 {
            assert(!is_ws(out[out.len() - 1]));
        }
        if !is_ws(c) {
            if acc.1 {
                let r = out.push(' ').push(c);
                assert forall|i: int| 0 <= i < r.len() && is_ws(#[trigger] r[i]) implies r[i] == ' ' && 0 < i && i + 1
                    < r.len() && !is_ws(r[i - 1]) && !is_ws(r[i + 1]) by {
                    if i < out.len() {
                        assert(r[i] == out[i]);
                        assert(r[i - 1] == out[i - 1]);
                        if i + 1 < out.len() {
                            assert(r[i + 1] == out[i + 1]);
                        }
                    } else if i == out.len() {
                        assert(r[i - 1] == out[i - 1]);
                    }
                }
            } else {
                let r = out.push(c);
                assert forall|i: int| 0 <= i < r.len() && is_ws(#[trigger] r[i]) implies r[i] == ' ' && 0 < i && i + 1
                    < r.len() && !is_ws(r[i - 1]) && !is_ws(r[i + 1]) by {
                    assert(r[i] == out[i]);
                    assert(r[i - 1] == out[i - 1]);
                    if i + 1 < out.len() {
                        assert(r[i + 1] == out[i + 1]);
                    }
                }
            }
        }
    }
}

proof fn lemma_collapse_fixed_prefix(t: Seq<char>, k: int)
    requires
        collapsed_form(t),
        0 <= k <= t.len(),
    ensures
        collapse_fold(t.take(k)) == (if k > 0 && is_ws(t[k - 1]) {
            (t.take(k - 1), true)
        } else {
            (t.take(k), false)
        }),
    decreases k,
{
    if k > 0 {
        lemma_collapse_fixed_prefix(t, k - 1);
        let p = t.take(k);
        assert(p.drop_last() =~= t.take(k - 1));
        assert(p.last() == t[k - 1]);
        let c = t[k - 1];
        if is_ws(c) {
            assert(c == ' ' && k - 1 > 0 && !is_ws(t[k - 2]));
        } else if k > 1 && is_ws(t[k - 2]) {
            assert(t[k - 2] == ' ');
            assert(t.take(k - 2).push(' ').push(c) =~= t.take(k));
        } else {
            assert(t.take(k - 1).push(c) =~= t.take(k));
        }
    }
}

/// Collapsing white space twice gives what collapsing once gives.
pub proof fn law_collapse_idempotent(s: Seq<char>)
    ensures
        collapse_ws(collapse_ws(s)) == collapse_ws(s),
        collapsed_form(collapse_ws(s)),
{
    lemma_collapse_fold_form(s);
    let t = collapse_ws(s);
    assert(t == collapse_fold(s).0);
    lemma_collapse_fixed_prefix(t, t.len() as int);
    assert(t.take(t.len() as int) =~= t);
    if t.len() > 0 {
        assert(!is_ws(t[t.len() - 1]));
    }
}

/// Saving the same session twice leaves the store as saving it once.
pub proof fn law_save_idempotent(ss: Seq<SessionSnapshot>, s: SessionSnapshot)
    ensures
        saved(saved(ss, s), s) == saved(ss, s),
{
    law_saved_session_loads(ss, s);
    let once = saved(ss, s);
    if let Some(i) = find_id(once, s.id) {
        assert(once[i] == s);
        assert(0 <= i < once.len()) by {
            let w = choose|k: int| 0 <= k < once.len() && #[trigger] once[k].id == s.id;
            lemma_first_exists(once, s.id, w);
        }
        assert(once.update(i, s) =~= once);
    }
}

/// With a key configured, a bearer token passes exactly when its bytes are
/// the key's.
pub proof fn law_bearer_token_checked(k: Seq<char>, token: Seq<char>)
    requires
        k.len() > 0,
    ensures
        auth_passes(Some(k), Some("Bearer "@ + token)) <==> vstd::utf8::encode_utf8(token)
            == vstd::utf8::encode_utf8(k),
{
    reveal_strlit("Bearer ");
    let h = "Bearer "@ + token;
    assert(h.subrange(0, 7) =~= "Bearer "@);
    assert(presented_key(h) =~= token);
}

/// Registering a provider makes it the one found under its name, and leaves
/// every other name as it was.
pub proof fn law_register_then_get(
    m: Map<Seq<char>, crate::provider::ProviderDescriptor>,
    d: crate::provider::ProviderDescriptor,
    other: Seq<char>,
)
    requires
        other != d.id.0@,
    ensures
        m.insert(d.id.0@, d).contains_key(d.id.0@),
        m.insert(d.id.0@, d)[d.id.0@] == d,
        m.insert(d.id.0@, d).contains_key(other) == m.contains_key(other),
        m.contains_key(other) ==> m.insert(d.id.0@, d)[other] == m[other],
{
}

/// Whatever an intelligence engine returns validates against the schema it
/// was given, and a Needle result also meets the engine's threshold.
pub proof fn law_engine_results_validate(e: NeedleEngine, text: Seq<char>, s: JsonSchema)
    ensures
        deterministic_inference(text, s) matches Ok(j) ==> accepts(s, j),
        needle_inference(e, text, s) matches Ok((j, m)) ==> accepts(s, j) && meets_confidence(m, e.min_confidence),
{
}

/// No character of `s` is NUL.
pub open spec fn nul_free(s: Seq<char>) -> bool {
    forall|i: int| 0 <= i < s.len() ==> #[trigger] s[i] != '\0'
}

proof fn lemma_without_nul_free(s: Seq<char>)
    ensures
        nul_free(without_nul(s)),
    decreases s.len(),
{
    if s.len() > 0 {
        lemma_without_nul_free(s.drop_last());
    }
}

proof fn lemma_trim_start_shape(s: Seq<char>)
    ensures
        nul_free(s) ==> nul_free(trim_start(s)),
        trim_start(s).len() > 0 ==> !is_ws(trim_start(s)[0]),
    decreases s.len(),
{
    if s.len() > 0 && is_ws(s[0]) {
        assert(nul_free(s) ==> nul_free(s.drop_first())) by {
            if nul_free(s) {
                assert forall|i: int| 0 <= i < s.drop_first().len() implies #[trigger] s.drop_first()[i] != '\0' by {
                    assert(s.drop_first()[i] == s[i + 1]);
                }
            }
        }
        lemma_trim_start_shape(s.drop_first());
    }
}

proof fn lemma_trim_end_shape(s: Seq<char>)
    ensures
        nul_free(s) ==> nul_free(trim_end(s)),
        trim_end(s).len() > 0 ==> !is_ws(trim_end(s).last()) && trim_end(s)[0] == s[0],
    decreases s.len(),
{
    if s.len() > 0 && is_ws(s.last()) {
        assert(nul_free(s) ==> nul_free(s.drop_last())) by {
            if nul_free(s) {
                assert forall|i: int| 0 <= i < s.drop_last().len() implies #[trigger] s.drop_last()[i] != '\0' by {
                    assert(s.drop_last()[i] == s[i]);
                }
            }
        }
        lemma_trim_end_shape(s.drop_last());
    }
}

/// Text that reliable extraction hands out is never blank, holds no NUL,
/// and neither starts nor ends with white space.
pub proof fn law_reliable_text_clean(t: ReliableExtractor, payload: Json)
    ensures
        reliable_extraction(t, payload) matches Ok(text) ==> {
            &&& !is_blank(text)
            &&& nul_free(text)
            &&& !is_ws(text[0])
            &&& !is_ws(text.last())
        },
{
    if let Ok(text) = reliable_extraction(t, payload) {
        let raw = choose|raw: Seq<char>| text == sanitized(raw) && !is_blank(sanitized(raw));
        assert(exists|raw: Seq<char>| text == sanitized(raw) && !is_blank(sanitized(raw)));
        lemma_without_nul_free(raw);
        lemma_trim_start_shape(without_nul(raw));
        lemma_trim_end_shape(trim_start(without_nul(raw)));
        assert(text.len() > 0) by {
            if text.len() == 0 {
                assert(is_blank(text));
            }
        }
    }
}

/// A text in collapsed form is left as it is by collapsing.
proof fn lemma_collapse_fixed(t: Seq<char>)
    requires
        collapsed_form(t),
    ensures
        collapse_ws(t) == t,
{
    lemma_collapse_fixed_prefix(t, t.len() as int);
    assert(t.take(t.len() as int) =~= t);
    if t.len() > 0 {
        assert(!is_ws(t[t.len() - 1]));
    }
}

/// Two non-empty collapsed texts joined by a space are in collapsed form.
proof fn lemma_join_collapsed(a: Seq<char>, b: Seq<char>)
    requires
        a.len() > 0,
        b.len() > 0,
        collapsed_form(a),
        collapsed_form(b),
    ensures
        collapsed_form(a + " "@ + b),
{
    reveal_strlit(" ");
    let r = a + " "@ + b;
    let n = a.len() as int;
    assert(r.len() == n + 1 + b.len());
    assert(r[n] == ' ');
    assert(!is_ws(a[n - 1]));
    assert(!is_ws(b[0]));
    assert forall|i: int| 0 <= i < r.len() && is_ws(#[trigger] r[i]) implies r[i] == ' ' && 0 < i && i + 1
        < r.len() && !is_ws(r[i - 1]) && !is_ws(r[i + 1]) by {
        if i < n {
            assert(r[i] == a[i]);
            assert(r[i - 1] == a[i - 1]);
            assert(r[i + 1] == a[i + 1]);
        } else if i == n {
            assert(r[i - 1] == a[n - 1]);
            assert(r[i + 1] == b[0]);
        } else {
            assert(r[i] == b[i - n - 1]);
            assert(r[i - 1] == b[i - n - 2]);
            assert(r[i + 1] == b[i - n]);
        }
    }
}

/// Normalized shape: every text non-empty and collapsed, and no two
/// neighbours sharing a non-system role.
spec fn normal_seq(t: Seq<(Role, Seq<char>)>) -> bool {
    &&& forall|i: int| 0 <= i < t.len() ==> (#[trigger] t[i]).1.len() > 0 && collapsed_form(t[i].1)
    &&& forall|i: int, j: int|
        0 <= i && j == i + 1 && j < t.len() ==> (#[trigger] t[i]).0 != (#[trigger] t[j]).0 || t[i].0
            == Role::System
}

spec fn norm_fold(s: Seq<(Role, Seq<char>)>) -> (Seq<(Role, Seq<char>)>, Option<Role>) {
    s.fold_left(
        (Seq::<(Role, Seq<char>)>::empty(), None::<Role>),
        |acc: (Seq<(Role, Seq<char>)>, Option<Role>), m: (Role, Seq<char>)| normalize_step(acc, m),
    )
}

proof fn lemma_norm_fold_shape(s: Seq<(Role, Seq<char>)>)
    ensures
        normal_seq(norm_fold(s).0),
        norm_fold(s).0.len() > 0 ==> norm_fold(s).1 == Some(norm_fold(s).0.last().0),
    decreases s.len(),
{
    if s.len() > 0 {
        lemma_norm_fold_shape(s.drop_last());
        let acc = norm_fold(s.drop_last());
        let m = s.last();
        assert(norm_fold(s) == normalize_step(acc, m));
        let r = norm_fold(s);
        let text = collapse_ws(m.1);
        law_collapse_idempotent(m.1);
        if text.len() == 0 {
        } else if acc.1 == Some(m.0) && m.0 != Role::System && acc.0.len() > 0 {
            let last = acc.0.last();
            lemma_join_collapsed(last.1, text);
            assert(r.0.len() == acc.0.len());
            assert forall|i: int| 0 <= i < r.0.len() implies (#[trigger] r.0[i]).1.len() > 0 && collapsed_form(
                r.0[i].1,
            ) by {
                if i < r.0.len() - 1 {
                    assert(r.0[i] == acc.0[i]);
                }
            }
            assert forall|i: int, j: int|
                0 <= i && j == i + 1 && j < r.0.len() implies (#[trigger] r.0[i]).0 != (#[trigger] r.0[j]).0
                || r.0[i].0 == Role::System by {
                assert(acc.0[i].0 != acc.0[j].0 || acc.0[i].0 == Role::System);
            }
        } else {
            assert forall|i: int, j: int|
                0 <= i && j == i + 1 && j < r.0.len() implies (#[trigger] r.0[i]).0 != (#[trigger] r.0[j]).0
                || r.0[i].0 == Role::System by {
                if j < acc.0.len() {
                    assert(acc.0[i].0 != acc.0[j].0 || acc.0[i].0 == Role::System);
                }
            }
            assert forall|i: int| 0 <= i < r.0.len() implies (#[trigger] r.0[i]).1.len() > 0 && collapsed_form(
                r.0[i].1,
            ) by {
                if i < acc.0.len() {
                    assert(r.0[i] == acc.0[i]);
                }
            }
        }
    }
}

proof fn lemma_norm_fold_fixed(t: Seq<(Role, Seq<char>)>, k: int)
    requires
        normal_seq(t),
        0 <= k <= t.len(),
    ensures
        norm_fold(t.take(k)) == (t.take(k), if k > 0 {
            Some(t[k - 1].0)
        } else {
            None::<Role>
        }),
    decreases k,
{
    if k > 0 {
        lemma_norm_fold_fixed(t, k - 1);
        let p = t.take(k);
        assert(p.drop_last() =~= t.take(k - 1));
        assert(p.last() == t[k - 1]);
        let acc = norm_fold(t.take(k - 1));
        assert(norm_fold(p) == normalize_step(acc, t[k - 1]));
        lemma_collapse_fixed(t[k - 1].1);
        if k > 1 {
            assert(t[k - 2].0 != t[k - 1].0 || t[k - 2].0 == Role::System);
        }
        assert(t.take(k - 1).push((t[k - 1].0, t[k - 1].1)) =~= t.take(k));
    }
}

/// Normalizing normalized messages changes nothing.
pub proof fn law_normalize_idempotent(s: Seq<(Role, Seq<char>)>)
    ensures
        normalized_messages(normalized_messages(s)) == normalized_messages(s),
{
    lemma_norm_fold_shape(s);
    let t = normalized_messages(s);
    assert(t == norm_fold(s).0);
    lemma_norm_fold_fixed(t, t.len() as int);
    assert(t.take(t.len() as int) =~= t);
}

proof fn lemma_lower_char(c: char)
    ensures
        is_ws(lower_char(c)) == is_ws(c),
        lower_char(lower_char(c)) == lower_char(c),
{
    if 'A' <= c && c <= 'Z' {
        let d = lower_char(c);
        assert('a' <= d && d <= 'z');
    }
}

/// Lower-casing keeps white space where it is, and doing it twice does
/// nothing more.
proof fn lemma_lower_shape(t: Seq<char>)
    ensures
        lower(t).len() == t.len(),
        forall|i: int| 0 <= i < t.len() ==> is_ws(#[trigger] lower(t)[i]) == is_ws(t[i]),
        lower(lower(t)) == lower(t),
{
    assert forall|i: int| 0 <= i < t.len() implies is_ws(#[trigger] lower(t)[i]) == is_ws(t[i]) by {
        lemma_lower_char(t[i]);
    }
    assert forall|i: int| 0 <= i < t.len() implies #[trigger] lower(lower(t))[i] == lower(t)[i] by {
        lemma_lower_char(t[i]);
    }
    assert(lower(lower(t)) =~= lower(t));
}

/// Parsing a role name gives what parsing its trimmed, ASCII lower-cased
/// form gives, and the text an error names is the same for both.
pub proof fn law_role_parse_normalizes(v: Seq<char>)
    ensures
        parse_role_spec(v) == parse_role_spec(lower(trim(v))),
        lower(trim(lower(trim(v)))) == lower(trim(v)),
{
    let t = trim(v);
    lemma_trim_start_shape(v);
    lemma_trim_end_shape(trim_start(v));
    lemma_lower_shape(t);
    let u = lower(t);
    if u.len() > 0 {
        assert(!is_ws(u[0]));
        assert(!is_ws(u[u.len() - 1]));
    }
    assert(trim_start(u) == u);
    assert(trim_end(u) == u);
    assert(trim(u) == u);
}

/// No character of `s` ends a labeled value: a line break, `,`, `;` or `}`.
pub open spec fn free_of_enders(s: Seq<char>) -> bool {
    forall|i: int|
        0 <= i < s.len() ==> #[trigger] s[i] != ',' && s[i] != '\n' && s[i] != ';' && s[i] != '}'
}

proof fn lemma_token_free(rest: Seq<char>, j: int)
    requires
        0 <= j <= rest.len(),
    ensures
        j <= token_end(rest, j) <= rest.len(),
        forall|i: int| j <= i < token_end(rest, j) ==> #[trigger] rest[i] != ',' && rest[i] != '\n' && rest[i]
            != ';' && rest[i] != '}',
    decreases rest.len() - j,
{
    if j < rest.len() {
        lemma_token_free(rest, j + 1);
    }
}

proof fn lemma_strippers_keep_free(s: Seq<char>)
    requires
        free_of_enders(s),
    ensures
        free_of_enders(trim_start(s)),
        free_of_enders(trim_end(s)),
        free_of_enders(strip_lead_quotes(s)),
        free_of_enders(strip_trail_quotes(s)),
    decreases s.len(),
{
    if s.len() > 0 {
        let a = s.drop_first();
        let b = s.drop_last();
        assert(free_of_enders(a)) by {
            assert forall|i: int| 0 <= i < a.len() implies #[trigger] a[i] != ',' && a[i] != '\n' && a[i] != ';'
                && a[i] != '}' by {
                assert(a[i] == s[i + 1]);
            }
        }
        assert(free_of_enders(b)) by {
            assert forall|i: int| 0 <= i < b.len() implies #[trigger] b[i] != ',' && b[i] != '\n' && b[i] != ';'
                && b[i] != '}' by {
                assert(b[i] == s[i]);
            }
        }
        lemma_strippers_keep_free(a);
        lemma_strippers_keep_free(b);
    }
}

proof fn lemma_labeled_with_free(text: Seq<char>, key: Seq<char>, sep: Seq<char>)
    ensures
        labeled_with(text, key, sep) matches Some(t) ==> free_of_enders(t),
{
    if let Some(t) = labeled_with(text, key, sep) {
        let pattern = lower(key) + sep;
        let idx = crate::text::find_spec(lower(text), pattern)->Some_0;
        let rest = trim_start(text.subrange(idx + pattern.len(), text.len() as int));
        lemma_token_free(rest, 0);
        let body = rest.subrange(0, token_end(rest, 0));
        assert(free_of_enders(body)) by {
            assert forall|i: int| 0 <= i < body.len() implies #[trigger] body[i] != ',' && body[i] != '\n'
                && body[i] != ';' && body[i] != '}' by {
                assert(body[i] == rest[i]);
            }
        }
        lemma_strippers_keep_free(body);
        lemma_strippers_keep_free(trim_start(body));
        let tr = trim(body);
        lemma_strippers_keep_free(tr);
        lemma_strippers_keep_free(strip_lead_quotes(tr));
        assert(t == strip_quotes(tr));
    }
}

/// A labeled value never runs past the end of its token: it holds no line
/// break, `,`, `;` or `}`.
pub proof fn law_labeled_value_is_one_token(text: Seq<char>, key: Seq<char>)
    ensures
        labeled_value(text, key) matches Some(t) ==> free_of_enders(t),
{
    lemma_labeled_with_free(text, key, label_sep(0));
    lemma_labeled_with_free(text, key, label_sep(1));
    lemma_labeled_with_free(text, key, label_sep(2));
}

/// The session picked for a provider belongs to it and is updated no earlier
/// than any other stored session of that provider; none is picked only when
/// the provider has no session.
pub proof fn law_latest_for_is_most_recent(ss: Seq<SessionSnapshot>, provider: Seq<char>, k: int)
    requires
        0 <= k <= ss.len(),
    ensures
        latest_for(ss, provider, k) matches Some(i) ==> {
            &&& 0 <= i < k
            &&& ss[i].provider == provider
            &&& forall|j: int| 0 <= j < k && #[trigger] ss[j].provider == provider ==> ss[j].updated_at
                <= ss[i].updated_at
        },
        latest_for(ss, provider, k) is None ==> forall|j: int| 0 <= j < k ==> #[trigger] ss[j].provider
            != provider,
    decreases k,
{
    if k > 0 {
        law_latest_for_is_most_recent(ss, provider, k - 1);
    }
}

/// Text found between a prefix and a suffix neither starts nor ends with
/// white space.
pub proof fn law_between_text_trimmed(prefix: Seq<char>, suffix: Seq<char>, payload: Json)
    ensures
        between_extraction(prefix, suffix, payload) matches Some(t) ==> (t.len() > 0 ==> !is_ws(t[0]) && !is_ws(
            t.last(),
        )),
{
    if let Some(t) = between_extraction(prefix, suffix, payload) {
        let raw = crate::extractor::raw_text(payload);
        let start = crate::text::find_spec(raw, prefix)->Some_0;
        let rest = raw.subrange(start + prefix.len(), raw.len() as int);
        let end = crate::text::find_spec(rest, suffix)->Some_0;
        let m = rest.subrange(0, end);
        lemma_trim_start_shape(m);
        lemma_trim_end_shape(trim_start(m));
        assert(t == trim(m));
    }
}

/// The finish reason of a chunk's first choice.
pub open spec fn chunk_finish_reason(j: Json) -> Option<Json> {
    match json_get(j, "choices"@) {
        Some(c) => match json_index(c, 0) {
            Some(ch) => json_get(ch, "finish_reason"@),
            None => None,
        },
        None => None,
    }
}

proof fn lemma_chunk_finish(id: Seq<char>, created: i64, model: Seq<char>, f: Seq<char>)
    ensures
        chunk_finish_reason(chunk_json(id, created, model, None, None, Some(f))) == Some(Json::Str(f)),
{
    reveal_strlit("id");
    reveal_strlit("object");
    reveal_strlit("created");
    reveal_strlit("model");
    reveal_strlit("choices");
    reveal_strlit("index");
    reveal_strlit("delta");
    reveal_strlit("finish_reason");
    let j = chunk_json(id, created, model, None, None, Some(f));
    let e = j->Object_0;
    assert(e[0].0 != "choices"@) by {
        assert(e[0].0.len() != "choices"@.len());
    }
    assert(e[1].0 != "choices"@) by {
        assert(e[1].0.len() != "choices"@.len());
    }
    assert(e[2].0 != "choices"@) by {
        assert(e[2].0[1] != "choices"@[1]);
    }
    assert(e[3].0 != "choices"@) by {
        assert(e[3].0.len() != "choices"@.len());
    }
    assert(first_key_at(e, "choices"@, 4));
    let c = choose|c: int| first_key_at(e, "choices"@, c);
    assert(c == 4) by {
        if c < 4 {
            assert(e[c].0 != "choices"@);
        } else if c > 4 {
            assert(e[4].0 != "choices"@);
        }
    }
    assert(json_get(j, "choices"@) == Some(e[4].1));
    let ch = choice_json(None, None, Some(f));
    let g = ch->Object_0;
    assert(g[0].0 != "finish_reason"@) by {
        assert(g[0].0.len() != "finish_reason"@.len());
    }
    assert(g[1].0 != "finish_reason"@) by {
        assert(g[1].0.len() != "finish_reason"@.len());
    }
    assert(first_key_at(g, "finish_reason"@, 2));
    let d = choose|d: int| first_key_at(g, "finish_reason"@, d);
    assert(d == 2) by {
        if d < 2 {
            assert(g[d].0 != "finish_reason"@);
        } else if d > 2 {
            assert(g[2].0 != "finish_reason"@);
        }
    }
}

proof fn lemma_body_ends_with_stop(
    id: Seq<char>,
    created: i64,
    model: Seq<char>,
    items: Seq<Result<String, SetuError>>,
    k: int,
)
    requires
        0 <= k <= items.len(),
        forall|i: int| 0 <= i < items.len() ==> (#[trigger] items[i]) is Ok,
    ensures
        stream_body(id, created, model, items, k).len() >= 2,
        stream_body(id, created, model, items, k).last() == EventView::Done,
        stream_body(id, created, model, items, k)[stream_body(id, created, model, items, k).len() - 2]
            == EventView::Data(chunk_json(id, created, model, None, None, Some("stop"@))),
    decreases items.len() - k,
{
    if k < items.len() {
        lemma_body_ends_with_stop(id, created, model, items, k + 1);
        assert(items[k] is Ok);
    }
}

/// A stream whose provider yielded only texts ends with a chunk whose finish
/// reason is `stop`, and then the end marker.
pub proof fn law_stream_ends_with_stop(
    id: Seq<char>,
    created: i64,
    model: Seq<char>,
    items: Seq<Result<String, SetuError>>,
)
    requires
        forall|i: int| 0 <= i < items.len() ==> (#[trigger] items[i]) is Ok,
    ensures
        stream_events_spec(id, created, model, items).len() >= 2,
        stream_events_spec(id, created, model, items).last() == EventView::Done,
        stream_events_spec(id, created, model, items)[stream_events_spec(id, created, model, items).len() - 2]
            matches EventView::Data(j) && chunk_finish_reason(j) == Some(Json::Str("stop"@)),
{
    lemma_body_ends_with_stop(id, created, model, items, 0);
    lemma_chunk_finish(id, created, model, "stop"@);
    let body = stream_body(id, created, model, items, 0);
    let all = stream_events_spec(id, created, model, items);
    assert(all.len() == body.len() + 1);
    assert(all.last() == body.last());
    assert(all[all.len() - 2] == body[body.len() - 2]);
}

} // verus!
