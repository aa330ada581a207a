//! Minimal JSON schema subset used by the structured-intelligence contract.

use vstd::prelude::*;

use crate::error::{ErrorKind, SetuError};
use crate::json::{json_get, Json, JsonValue};
use crate::named::{lemma_text_lt_irreflexive, lemma_text_lt_total, lemma_text_lt_transitive, text_less, text_lt};

verus! {

#[derive(Debug, Clone, Copy, PartialEq, Eq, Structural)]
pub enum SchemaType {
    Object,
    String,
    Number,
    Boolean,
    Array,
}

/// A schema: its type, the fields an object must have, and the schemas of
/// the fields it describes (one entry per field name).
#[derive(Debug, PartialEq)]
pub struct JsonSchema {
    pub schema_type: SchemaType,
    pub required: Vec<String>,
    pub properties: Vec<(String, JsonSchema)>,
}

/// No two property entries share a name.
pub open spec fn property_names_unique(ps: Seq<(String, JsonSchema)>) -> bool {
    forall|i: int, j: int| 0 <= i < j < ps.len() ==> #[trigger] ps[i].0@ != #[trigger] ps[j].0@
}

/// Whether schema `s` accepts value `v`: scalars by type; objects must hold
/// every required field, and every described field that is present must be
/// accepted by its schema.
pub open spec fn accepts(s: JsonSchema, v: Json) -> bool
    decreases s, 0int,
{
    match s.schema_type {
        SchemaType::String => v is Str,
        SchemaType::Number => v is Number,
        SchemaType::Boolean => v is Bool,
        SchemaType::Array => v is Array,
        SchemaType::Object => {
            &&& v is Object
            &&& forall|i: int| 0 <= i < s.required@.len() ==> json_get(v, (#[trigger] s.required@[i])@) is Some
            &&& properties_accept(s.properties@, v, s.properties@.len() as int)
        },
    }
}

/// The first `k` property schemas accept the fields of `v` they describe.
pub open spec fn properties_accept(ps: Seq<(String, JsonSchema)>, v: Json, k: int) -> bool
    decreases ps, k,
{
    if k <= 0 || k > ps.len() {
        true
    } else {
        &&& properties_accept(ps, v, k - 1)
        &&& match json_get(v, ps[k - 1].0@) {
            Some(child) => accepts(ps[k - 1].1, child),
            None => true,
        }
    }
}

/// The schema is in the shape a map keyed by field name gives: its
/// properties hold each name once, in name order, and each property's schema
/// is in that shape too. Every constructor of this module yields it.
pub open spec fn schema_wf(s: JsonSchema) -> bool
    decreases s, 0int,
{
    &&& properties_sorted(s.properties@)
    &&& properties_wf(s.properties@, s.properties@.len() as int)
}

/// The schemas of the first `k` properties are in map shape.
pub open spec fn properties_wf(ps: Seq<(String, JsonSchema)>, k: int) -> bool
    decreases ps, k,
{
    if k <= 0 || k > ps.len() {
        true
    } else {
        properties_wf(ps, k - 1) && schema_wf(ps[k - 1].1)
    }
}

proof fn lemma_properties_wf(ps: Seq<(String, JsonSchema)>, k: int)
    requires
        0 <= k <= ps.len(),
        forall|i: int| 0 <= i < k ==> schema_wf(#[trigger] ps[i].1),
    ensures
        properties_wf(ps, k),
    decreases k,
{
    if k > 0 {
        lemma_properties_wf(ps, k - 1);
    }
}

proof fn lemma_property_decreases(s: JsonSchema, i: int)
    requires
        0 <= i < s.properties@.len(),
    ensures
        decreases_to!(s => s.properties@[i].1),
{
    assert(decreases_to!(s => s.properties));
    assert(decreases_to!(s.properties => s.properties@));
    assert(decreases_to!(s.properties@ => s.properties@[i]));
    assert(decreases_to!(s.properties@[i] => s.properties@[i].1));
}

/// Entry `e` comes from the last input pair with its name, at or after `lo`.
pub open spec fn from_last_input(input: Seq<(&str, JsonSchema)>, lo: int, e: (String, JsonSchema)) -> bool {
    exists|j: int|
        lo <= j < input.len() && e.0@ == (#[trigger] input[j]).0@ && e.1 == input[j].1 && forall|k: int|
            j < k < input.len() ==> input[k].0@ != input[j].0@
}

/// Some entry of `props` has name `name`.
pub open spec fn names_entry(props: Seq<(String, JsonSchema)>, name: Seq<char>) -> bool {
    exists|a: int| 0 <= a < props.len() && (#[trigger] props[a]).0@ == name
}

/// `props` holds exactly the last definitions of the names in `input[lo..]`.
#[verifier::opaque]
pub open spec fn built_from(input: Seq<(&str, JsonSchema)>, lo: int, props: Seq<(String, JsonSchema)>) -> bool {
    &&& forall|a: int| 0 <= a < props.len() ==> from_last_input(input, lo, #[trigger] props[a])
    &&& forall|j: int| lo <= j < input.len() ==> names_entry(props, (#[trigger] input[j]).0@)
}

proof fn lemma_built_step(
    input: Seq<(&str, JsonSchema)>,
    m: int,
    before: Seq<(String, JsonSchema)>,
    after: Seq<(String, JsonSchema)>,
    added: bool,
)
    requires
        0 <= m < input.len(),
        built_from(input, m + 1, before),
        added <==> forall|a: int| 0 <= a < before.len() ==> (#[trigger] before[a]).0@ != input[m].0@,
        added ==> after.len() == before.len() + 1 && after.last().0@ == input[m].0@ && after.last().1
            == input[m].1 && forall|a: int| 0 <= a < before.len() ==> after[a] == before[a],
        !added ==> after == before,
    ensures
        built_from(input, m, after),
{
    reveal(built_from);
    assert forall|a: int| 0 <= a < after.len() implies from_last_input(input, m, #[trigger] after[a]) by {
        if added && a == before.len() {
            assert forall|k: int| m < k < input.len() implies input[k].0@ != input[m].0@ by {
                assert(names_entry(before, input[k].0@));
                let b = choose|b: int| 0 <= b < before.len() && (#[trigger] before[b]).0@ == input[k].0@;
                assert(before[b].0@ != input[m].0@);
            }
            assert(after[a].0@ == input[m].0@);
        } else {
            assert(after[a] == before[a]);
            assert(from_last_input(input, m + 1, before[a]));
        }
    }
    assert forall|j: int| m <= j < input.len() implies names_entry(after, (#[trigger] input[j]).0@) by {
        if j == m {
            if added {
                assert(after[before.len() as int].0@ == input[j].0@);
            } else {
                let a = choose|a: int| 0 <= a < before.len() && !((#[trigger] before[a]).0@ != input[m].0@);
                assert(after[a].0@ == input[j].0@);
            }
        } else {
            assert(names_entry(before, input[j].0@));
            let a = choose|a: int| 0 <= a < before.len() && (#[trigger] before[a]).0@ == input[j].0@;
            assert(after[a] == before[a]);
        }
    }
}

/// Appends `(key, schema)` unless some entry already has that name.
fn add_if_new(props: &mut Vec<(String, JsonSchema)>, key: String, schema: JsonSchema) -> (added: bool)
    requires
        property_names_unique(old(props)@),
    ensures
        property_names_unique(final(props)@),
        added <==> forall|a: int| 0 <= a < old(props)@.len() ==> (#[trigger] old(props)@[a]).0@ != key@,
        added ==> final(props)@ == old(props)@.push((key, schema)),
        !added ==> final(props)@ == old(props)@,
{
    let mut pos: usize = 0;
    while pos < props.len()
        invariant
            props@ == old(props)@,
            property_names_unique(props@),
            pos <= props@.len(),
            forall|a: int| 0 <= a < pos ==> (#[trigger] props@[a]).0@ != key@,
        decreases props.len() - pos,
    {
        if props[pos].0 == key {
            assert(props@[pos as int].0@ == key@);
            return false;
        }
        pos = pos + 1;
    }
    let ghost before = props@;
    props.push((key, schema));
    proof {
        assert forall|x: int, y: int| 0 <= x < y < props@.len() implies #[trigger] props@[x].0@
            != #[trigger] props@[y].0@ by {
            assert(props@[x] == before[x]);
            if y < before.len() {
                assert(props@[y] == before[y]);
            }
        }
    }
    true
}

/// Property names strictly increasing (see `text_lt`): the order in which a
/// map keyed by name keeps them.
pub open spec fn properties_sorted(ps: Seq<(String, JsonSchema)>) -> bool {
    forall|i: int, j: int| 0 <= i < j < ps.len() ==> text_lt((#[trigger] ps[i]).0@, (#[trigger] ps[j]).0@)
}

/// The same entries as `v`, in name order.
fn sort_by_name(v: Vec<(String, JsonSchema)>) -> (r: Vec<(String, JsonSchema)>)
    requires
        property_names_unique(v@),
    ensures
        properties_sorted(r@),
        r@.len() == v@.len(),
        forall|a: int| 0 <= a < r@.len() ==> v@.contains(#[trigger] r@[a]),
        forall|b: int| 0 <= b < v@.len() ==> r@.contains(#[trigger] v@[b]),
{
    let ghost orig = v@;
    let mut rest = v;
    let mut out: Vec<(String, JsonSchema)> = Vec::new();
    while rest.len() > 0
        invariant
            rest@ == orig.take(rest@.len() as int),
            rest@.len() <= orig.len(),
            property_names_unique(orig),
            properties_sorted(out@),
            out@.len() + rest@.len() == orig.len(),
            forall|a: int|
                0 <= a < out@.len() ==> exists|b: int|
                    rest@.len() <= b < orig.len() && #[trigger] out@[a] == orig[b],
            forall|b: int| rest@.len() <= b < orig.len() ==> out@.contains(#[trigger] orig[b]),
        decreases rest.len(),
    {
        let ghost m = rest@.len() - 1;
        let item = rest.pop().unwrap();
        assert(item == orig[m]);
        assert(rest@ =~= orig.take(m));
        let mut p: usize = 0;
        while p < out.len() && text_less(out[p].0.as_str(), item.0.as_str())
            invariant
                p <= out@.len(),
                forall|q: int| 0 <= q < p ==> text_lt((#[trigger] out@[q]).0@, item.0@),
            decreases out.len() - p,
        {
            p = p + 1;
        }
        let ghost before = out@;
        proof {
            if p < before.len() {
                let b = choose|b: int| m + 1 <= b < orig.len() && before[p as int] == orig[b];
                assert(orig[b].0@ != orig[m].0@);
                lemma_text_lt_total(item.0@, before[p as int].0@);
            }
        }
        out.insert(p, item);
        proof {
            let after = out@;
            assert(after =~= before.insert(p as int, orig[m]));
            assert forall|i: int, j: int| 0 <= i < j < after.len() implies text_lt(
                (#[trigger] after[i]).0@,
                (#[trigger] after[j]).0@,
            ) by {
                if j < p {
                    assert(after[i] == before[i] && after[j] == before[j]);
                } else if j == p {
                    assert(after[i] == before[i]);
                } else if i < p {
                    assert(after[i] == before[i] && after[j] == before[j - 1]);
                } else if i == p {
                    assert(after[j] == before[j - 1]);
                    if j - 1 > p {
                        assert(text_lt(before[p as int].0@, before[j - 1].0@));
                        lemma_text_lt_transitive(orig[m].0@, before[p as int].0@, before[j - 1].0@);
                    }
                } else {
                    assert(after[i] == before[i - 1] && after[j] == before[j - 1]);
                }
            }
            assert forall|a: int| 0 <= a < after.len() implies exists|b: int|
                m <= b < orig.len() && #[trigger] after[a] == orig[b] by {
                if a < p {
                    assert(after[a] == before[a]);
                } else if a == p {
                    assert(after[a] == orig[m]);
                } else {
                    assert(after[a] == before[a - 1]);
                }
            }
            assert forall|b: int| m <= b < orig.len() implies after.contains(#[trigger] orig[b]) by {
                if b == m {
                    assert(after[p as int] == orig[m]);
                } else {
                    assert(before.contains(orig[b]));
                    let a = choose|a: int| 0 <= a < before.len() && before[a] == orig[b];
                    if a < p {
                        assert(after[a] == orig[b]);
                    } else {
                        assert(after[a + 1] == orig[b]);
                    }
                }
            }
        }
    }
    proof {
        assert(rest@.len() == 0);
        assert forall|a: int| 0 <= a < out@.len() implies orig.contains(#[trigger] out@[a]) by {
            let b = choose|b: int| 0 <= b < orig.len() && out@[a] == orig[b];
        }
    }
    out
}

fn scalar(t: SchemaType) -> (r: JsonSchema)
    ensures
        r.schema_type == t,
        r.required@.len() == 0,
        r.properties@.len() == 0,
{
    JsonSchema { schema_type: t, required: Vec::new(), properties: Vec::new() }
}

impl JsonSchema {
    /// An object schema. Property names are kept once each, in name order;
    /// when a name is given twice the later schema wins.
    #[verifier::rlimit(40)]
    pub fn object(required: &[&str], properties: Vec<(&str, JsonSchema)>) -> (r: Self)
        ensures
            r.schema_type == SchemaType::Object,
            r.required@.len() == required@.len(),
            forall|i: int| 0 <= i < required@.len() ==> #[trigger] r.required@[i]@ == required@[i]@,
            property_names_unique(r.properties@),
            properties_sorted(r.properties@),
            (forall|j: int| 0 <= j < properties@.len() ==> schema_wf(#[trigger] properties@[j].1)) ==> schema_wf(r),
            forall|i: int|
                0 <= i < r.properties@.len() ==> from_last_input(properties@, 0, #[trigger] r.properties@[i]),
            forall|j: int|
                0 <= j < properties@.len() ==> names_entry(r.properties@, (#[trigger] properties@[j]).0@),
    {
        let mut req: Vec<String> = Vec::new();
        let mut i: usize = 0;
        while i < required.len()
            invariant
                i <= required@.len(),
                req@.len() == i,
                forall|k: int| 0 <= k < i ==> #[trigger] req@[k]@ == required@[k]@,
            decreases required.len() - i,
        {
            req.push(String::from_str(required[i]));
            i = i + 1;
        }
        let ghost input = properties@;
        let mut props: Vec<(String, JsonSchema)> = Vec::new();
        let mut rest = properties;
        proof {
            reveal(built_from);
        }
        while rest.len() > 0
            invariant
                rest@ == input.subrange(0, rest@.len() as int),
                rest@.len() <= input.len(),
                property_names_unique(props@),
                built_from(input, rest@.len() as int, props@),
            decreases rest.len(),
        {
            let ghost m = rest@.len() - 1;
            let (name, schema) = rest.pop().unwrap();
            assert(input[m] == (name, schema));
            assert(rest@ =~= input.subrange(0, m));
            let key = String::from_str(name);
            let ghost before = props@;
            let added = add_if_new(&mut props, key, schema);
            proof {
                lemma_built_step(input, m, before, props@, added);
            }
        }
        proof {
            reveal(built_from);
        }
        let ghost deduped = props@;
        let sorted = sort_by_name(props);
        proof {
            assert forall|i: int| 0 <= i < sorted@.len() implies from_last_input(input, 0, #[trigger] sorted@[i]) by {
                assert(deduped.contains(sorted@[i]));
                let b = choose|b: int| 0 <= b < deduped.len() && deduped[b] == sorted@[i];
                assert(from_last_input(input, 0, deduped[b]));
            }
            assert forall|j: int| 0 <= j < input.len() implies names_entry(sorted@, (#[trigger] input[j]).0@) by {
                assert(names_entry(deduped, input[j].0@));
                let a = choose|a: int| 0 <= a < deduped.len() && (#[trigger] deduped[a]).0@ == input[j].0@;
                assert(sorted@.contains(deduped[a]));
                let c = choose|c: int| 0 <= c < sorted@.len() && sorted@[c] == deduped[a];
                assert(sorted@[c].0@ == input[j].0@);
            }
            assert forall|x: int, y: int| 0 <= x < y < sorted@.len() implies #[trigger] sorted@[x].0@
                != #[trigger] sorted@[y].0@ by {
                lemma_text_lt_irreflexive(sorted@[x].0@);
            }
        }
        let r = JsonSchema { schema_type: SchemaType::Object, required: req, properties: sorted };
        proof {
            if forall|j: int| 0 <= j < input.len() ==> schema_wf(#[trigger] input[j].1) {
                assert forall|i: int| 0 <= i < sorted@.len() implies schema_wf(#[trigger] sorted@[i].1) by {
                    assert(from_last_input(input, 0, sorted@[i]));
                    let j = choose|j: int|
                        0 <= j < input.len() && sorted@[i].0@ == (#[trigger] input[j]).0@ && sorted@[i].1 == input[j].1
                            && forall|k: int| j < k < input.len() ==> input[k].0@ != input[j].0@;
                    assert(schema_wf(input[j].1));
                }
                lemma_properties_wf(sorted@, sorted@.len() as int);
            }
        }
        r
    }

    pub fn string() -> (r: Self)
        ensures
            r.schema_type == SchemaType::String,
            r.required@.len() == 0,
            r.properties@.len() == 0,
            schema_wf(r),
    {
        scalar(SchemaType::String)
    }

    pub fn number() -> (r: Self)
        ensures
            r.schema_type == SchemaType::Number,
            r.required@.len() == 0,
            r.properties@.len() == 0,
            schema_wf(r),
    {
        scalar(SchemaType::Number)
    }

    pub fn boolean() -> (r: Self)
        ensures
            r.schema_type == SchemaType::Boolean,
            r.required@.len() == 0,
            r.properties@.len() == 0,
            schema_wf(r),
    {
        scalar(SchemaType::Boolean)
    }

    /// Check `value` against the schema (see `accepts`).
    pub fn validate(&self, value: &JsonValue) -> (r: crate::error::Result<()>)
        ensures
            r is Ok <==> accepts(*self, value@),
            r matches Err(e) ==> e.kind == ErrorKind::Validation,
        decreases self,
    {
        match self.schema_type {
            SchemaType::String => {
                if !matches!(value, JsonValue::String(_)) {
                    return Err(SetuError::validation("expected string"));
                }
                Ok(())
            },
            SchemaType::Number => {
                if !matches!(value, JsonValue::Number(_)) {
                    return Err(SetuError::validation("expected number"));
                }
                Ok(())
            },
            SchemaType::Boolean => {
                if !matches!(value, JsonValue::Bool(_)) {
                    return Err(SetuError::validation("expected boolean"));
                }
                Ok(())
            },
            SchemaType::Array => {
                if !matches!(value, JsonValue::Array(_)) {
                    return Err(SetuError::validation("expected array"));
                }
                Ok(())
            },
            SchemaType::Object => {
                if !matches!(value, JsonValue::Object(_)) {
                    return Err(SetuError::validation("expected object"));
                }
                let mut i: usize = 0;
                while i < self.required.len()
                    invariant
                        self.schema_type == SchemaType::Object,
                        i <= self.required@.len(),
                        forall|k: int| 0 <= k < i ==> json_get(value@, (#[trigger] self.required@[k])@) is Some,
                    decreases self.required.len() - i,
                {
                    let key = self.required[i].as_str();
                    if value.get(key).is_none() {
                        assert(json_get(value@, self.required@[i as int]@) is None);
                        let mut m = String::from_str("missing required field '");
                        m.append(key);
                        m.append("'");
                        return Err(SetuError::with_message(ErrorKind::Validation, m));
                    }
                    i = i + 1;
                }
                let mut i: usize = 0;
                while i < self.properties.len()
                    invariant
                        self.schema_type == SchemaType::Object,
                        i <= self.properties@.len(),
                        properties_accept(self.properties@, value@, i as int),
                    decreases self.properties.len() - i,
                {
                    let key = self.properties[i].0.as_str();
                    match value.get(key) {
                        Some(child) => {
                            proof {
                                lemma_property_decreases(*self, i as int);
                            }
                            if let Err(e) = self.properties[i].1.validate(child) {
                                proof {
                                    assert(json_get(value@, self.properties@[i as int].0@) == Some(child@));
                                    assert(!accepts(self.properties@[i as int].1, child@));
                                    assert(!properties_accept(self.properties@, value@, i + 1));
                                    lemma_properties_fail(self.properties@, value@, i + 1, self.properties@.len() as int);
                                }
                                let mut m = String::from_str("field '");
                                m.append(key);
                                m.append("': ");
                                let inner = e.to_string();
                                m.append(inner.as_str());
                                return Err(SetuError::with_message(ErrorKind::Validation, m));
                            }
                        },
                        None => {},
                    }
                    i = i + 1;
                }
                Ok(())
            },
        }
    }
}

proof fn lemma_properties_fail(ps: Seq<(String, JsonSchema)>, v: Json, k: int, n: int)
    requires
        0 < k <= n <= ps.len(),
        !properties_accept(ps, v, k),
    ensures
        !properties_accept(ps, v, n),
    decreases n - k,
{
    if k < n {
        lemma_properties_fail(ps, v, k + 1, n);
    }
}

} // verus!
