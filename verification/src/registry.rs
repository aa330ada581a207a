//! Model and provider registries, and model → provider routing.

use vstd::prelude::*;

use crate::config::{AppConfig, ModelMapping};
use crate::error::{clone_opt_string, ErrorKind, SetuError};
use crate::provider::{has_capability, Capability, ProviderCapabilities, ProviderDescriptor, ProviderId};

verus! {

#[derive(Debug)]
pub struct ModelRecord {
    pub id: String,
    pub provider: String,
    pub upstream_model: Option<String>,
    pub owned_by: String,
}

impl Clone for ModelRecord {
    fn clone(&self) -> (r: Self)
        ensures
            r == *self,
    {
        ModelRecord {
            id: self.id.clone(),
            provider: self.provider.clone(),
            upstream_model: clone_opt_string(&self.upstream_model),
            owned_by: self.owned_by.clone(),
        }
    }
}

impl ModelRecord {
    /// The record of a configured model mapping, owned by `aisetu`.
    pub fn from_mapping(m: &ModelMapping) -> (r: Self)
        ensures
            r.id == m.id,
            r.provider == m.provider,
            r.upstream_model == m.upstream_model,
            r.owned_by@ == "aisetu"@,
    {
        ModelRecord {
            id: m.id.clone(),
            provider: m.provider.clone(),
            upstream_model: clone_opt_string(&m.upstream_model),
            owned_by: String::from_str("aisetu"),
        }
    }
}

/// `i` is the first position of a record with id `id`.
pub open spec fn first_model_at(ms: Seq<ModelRecord>, id: Seq<char>, i: int) -> bool {
    0 <= i < ms.len() && ms[i].id@ == id && forall|j: int| 0 <= j < i ==> #[trigger] ms[j].id@ != id
}

/// The first record with id `id`.
pub open spec fn find_model(ms: Seq<ModelRecord>, id: Seq<char>) -> Option<ModelRecord> {
    if exists|i: int| 0 <= i < ms.len() && #[trigger] ms[i].id@ == id {
        Some(ms[choose|i: int| first_model_at(ms, id, i)])
    } else {
        None
    }
}

#[derive(Debug, Default)]
pub struct ModelRegistry {
    pub models: Vec<ModelRecord>,
}

impl ModelRegistry {
    pub fn from_config(cfg: &AppConfig) -> (r: Self)
        ensures
            r.models@.len() == cfg.models@.len(),
            forall|i: int|
                0 <= i < cfg.models@.len() ==> {
                    let rec = #[trigger] r.models@[i];
                    &&& rec.id == cfg.models@[i].id
                    &&& rec.provider == cfg.models@[i].provider
                    &&& rec.upstream_model == cfg.models@[i].upstream_model
                    &&& rec.owned_by@ == "aisetu"@
                },
    {
        let mut out: Vec<ModelRecord> = Vec::new();
        let mut i: usize = 0;
        while i < cfg.models.len()
            invariant
                i <= cfg.models@.len(),
                out@.len() == i,
                forall|k: int|
                    0 <= k < i ==> {
                        let rec = #[trigger] out@[k];
                        &&& rec.id == cfg.models@[k].id
                        &&& rec.provider == cfg.models@[k].provider
                        &&& rec.upstream_model == cfg.models@[k].upstream_model
                        &&& rec.owned_by@ == "aisetu"@
                    },
            decreases cfg.models.len() - i,
        {
            out.push(ModelRecord::from_mapping(&cfg.models[i]));
            i = i + 1;
        }
        ModelRegistry { models: out }
    }

    pub fn from_records(models: Vec<ModelRecord>) -> (r: Self)
        ensures
            r.models@ == models@,
    {
        ModelRegistry { models }
    }

    pub fn list(&self) -> (r: &[ModelRecord])
        ensures
            r@ == self.models@,
    {
        self.models.as_slice()
    }

    /// The first record with id `id`.
    pub fn get(&self, id: &str) -> (r: Option<&ModelRecord>)
        ensures
            match find_model(self.models@, id@) {
                Some(m) => r == Some(&m),
                None => r is None,
            },
    {
        let mut i: usize = 0;
        while i < self.models.len()
            invariant
                i <= self.models@.len(),
                forall|j: int| 0 <= j < i ==> #[trigger] self.models@[j].id@ != id@,
            decreases self.models.len() - i,
        {
            if crate::text::str_eq(self.models[i].id.as_str(), id) {
                proof {
                    assert(first_model_at(self.models@, id@, i as int));
                    let c = choose|c: int| first_model_at(self.models@, id@, c);
                    if c < i {
                        assert(self.models@[c].id@ != id@);
                    } else if c > i {
                        assert(self.models@[i as int].id@ != id@);
                    }
                }
                return Some(&self.models[i]);
            }
            i = i + 1;
        }
        None
    }

    pub fn default_model(&self) -> (r: Option<&ModelRecord>)
        ensures
            self.models@.len() > 0 ==> r == Some(&self.models@[0]),
            self.models@.len() == 0 ==> r is None,
    {
        if self.models.len() > 0 {
            Some(&self.models[0])
        } else {
            None
        }
    }
}

/// No two descriptors share a provider name.
pub open spec fn provider_ids_unique(ps: Seq<ProviderDescriptor>) -> bool {
    forall|i: int, j: int| 0 <= i < j < ps.len() ==> #[trigger] ps[i].id.0@ != #[trigger] ps[j].id.0@
}

/// Registered providers, by name. Registering a name again replaces the
/// earlier provider.
#[derive(Debug)]
pub struct ProviderRegistry {
    providers: Vec<ProviderDescriptor>,
}

/// The registry content as a map from names to descriptors.
pub open spec fn descriptor_map(ps: Seq<ProviderDescriptor>) -> Map<Seq<char>, ProviderDescriptor> {
    Map::new(
        |n: Seq<char>| exists|i: int| 0 <= i < ps.len() && #[trigger] ps[i].id.0@ == n,
        |n: Seq<char>| ps[choose|i: int| 0 <= i < ps.len() && #[trigger] ps[i].id.0@ == n],
    )
}

impl View for ProviderRegistry {
    type V = Map<Seq<char>, ProviderDescriptor>;

    closed spec fn view(&self) -> Map<Seq<char>, ProviderDescriptor> {
        descriptor_map(self.providers@)
    }
}

impl ProviderRegistry {
    #[verifier::type_invariant]
    spec fn names_unique(self) -> bool {
        provider_ids_unique(self.providers@)
    }

    pub fn new() -> (r: Self)
        ensures
            r@ == Map::<Seq<char>, ProviderDescriptor>::empty(),
    {
        let r = ProviderRegistry { providers: Vec::new() };
        assert(r@ =~= Map::<Seq<char>, ProviderDescriptor>::empty());
        r
    }

    /// Register a provider under its id, replacing any provider of that name.
    pub fn register(&mut self, provider: ProviderDescriptor)
        ensures
            final(self)@ == old(self)@.insert(provider.id.0@, provider),
    {
        proof {
            use_type_invariant(&*self);
        }
        let ghost name = provider.id.0@;
        let ghost before = self.providers@;
        let mut i: usize = 0;
        while i < self.providers.len()
            invariant
                self.providers@ == before,
                name == provider.id.0@,
                before == old(self).providers@,
                provider_ids_unique(before),
                i <= before.len(),
                forall|j: int| 0 <= j < i ==> #[trigger] before[j].id.0@ != name,
            decreases self.providers.len() - i,
        {
            if crate::text::str_eq(self.providers[i].id.as_str(), provider.id.as_str()) {
                let mut v: Vec<ProviderDescriptor> = Vec::new();
                std::mem::swap(&mut v, &mut self.providers);
                v.set(i, provider);
                proof {
                    assert forall|a: int, b: int| 0 <= a < b < v@.len() implies #[trigger] v@[a].id.0@
                        != #[trigger] v@[b].id.0@ by {
                        if a != i && b != i {
                            assert(before[a].id.0@ != before[b].id.0@);
                        } else if a == i {
                            assert(before[i as int].id.0@ != before[b].id.0@);
                        } else {
                            assert(before[a].id.0@ != before[i as int].id.0@);
                        }
                    }
                    assert(descriptor_map(v@) =~= descriptor_map(before).insert(name, provider)) by {
                        lemma_map_replace(before, v@, i as int, provider);
                    }
                }
                self.providers = v;
                return;
            }
            i = i + 1;
        }
        let mut v: Vec<ProviderDescriptor> = Vec::new();
        std::mem::swap(&mut v, &mut self.providers);
        v.push(provider);
        proof {
            assert forall|a: int, b: int| 0 <= a < b < v@.len() implies #[trigger] v@[a].id.0@
                != #[trigger] v@[b].id.0@ by {
                if b == before.len() {
                    assert(before[a].id.0@ != name);
                } else {
                    assert(before[a].id.0@ != before[b].id.0@);
                }
            }
            assert(descriptor_map(v@) =~= descriptor_map(before).insert(name, provider)) by {
                lemma_map_push(before, v@, provider);
            }
        }
        self.providers = v;
    }

    /// The provider registered under `name`.
    pub fn get(&self, name: &str) -> (r: Option<&ProviderDescriptor>)
        ensures
            self@.contains_key(name@) ==> r == Some(&self@[name@]),
            !self@.contains_key(name@) ==> r is None,
    {
        proof {
            use_type_invariant(self);
        }
        let mut i: usize = 0;
        while i < self.providers.len()
            invariant
                provider_ids_unique(self.providers@),
                i <= self.providers@.len(),
                forall|j: int| 0 <= j < i ==> #[trigger] self.providers@[j].id.0@ != name@,
            decreases self.providers.len() - i,
        {
            if crate::text::str_eq(self.providers[i].id.as_str(), name) {
                proof {
                    let ps = self.providers@;
                    assert(0 <= i < ps.len() && ps[i as int].id.0@ == name@);
                    let c = choose|c: int| 0 <= c < ps.len() && #[trigger] ps[c].id.0@ == name@;
                    if c != i {
                        if c < i {
                            assert(ps[c].id.0@ != ps[i as int].id.0@);
                        } else {
                            assert(ps[i as int].id.0@ != ps[c].id.0@);
                        }
                    }
                }
                return Some(&self.providers[i]);
            }
            i = i + 1;
        }
        None
    }

    pub fn get_id(&self, id: &ProviderId) -> (r: Option<&ProviderDescriptor>)
        ensures
            self@.contains_key(id.0@) ==> r == Some(&self@[id.0@]),
            !self@.contains_key(id.0@) ==> r is None,
    {
        self.get(id.as_str())
    }

    /// The registered names, each once.
    pub fn names(&self) -> (r: Vec<String>)
        ensures
            forall|i: int| 0 <= i < r@.len() ==> self@.contains_key(#[trigger] r@[i]@),
            forall|n: Seq<char>| self@.contains_key(n) ==> exists|i: int| 0 <= i < r@.len() && #[trigger] r@[i]@ == n,
            forall|i: int, j: int| 0 <= i < j < r@.len() ==> #[trigger] r@[i]@ != #[trigger] r@[j]@,
    {
        proof {
            use_type_invariant(self);
        }
        let mut out: Vec<String> = Vec::new();
        let mut i: usize = 0;
        while i < self.providers.len()
            invariant
                provider_ids_unique(self.providers@),
                i <= self.providers@.len(),
                out@.len() == i,
                forall|k: int| 0 <= k < i ==> #[trigger] out@[k]@ == self.providers@[k].id.0@,
            decreases self.providers.len() - i,
        {
            out.push(self.providers[i].id.0.clone());
            i = i + 1;
        }
        proof {
            let ps = self.providers@;
            assert forall|k: int| 0 <= k < out@.len() implies self@.contains_key(#[trigger] out@[k]@) by {
                assert(0 <= k < ps.len() && ps[k].id.0@ == out@[k]@);
            }
            assert forall|n: Seq<char>| self@.contains_key(n) implies exists|k: int|
                0 <= k < out@.len() && #[trigger] out@[k]@ == n by {
                let c = choose|c: int| 0 <= c < ps.len() && #[trigger] ps[c].id.0@ == n;
                assert(out@[c]@ == n);
            }
        }
        out
    }

    pub fn capabilities(&self, name: &str) -> (r: Option<ProviderCapabilities>)
        ensures
            self@.contains_key(name@) ==> r == Some(self@[name@].capabilities),
            !self@.contains_key(name@) ==> r is None,
    {
        match self.get(name) {
            Some(p) => Some(p.capabilities),
            None => None,
        }
    }
}

impl Default for ProviderRegistry {
    fn default() -> (r: Self)
        ensures
            r@ == Map::<Seq<char>, ProviderDescriptor>::empty(),
    {
        Self::new()
    }
}

proof fn lemma_map_replace(
    before: Seq<ProviderDescriptor>,
    after: Seq<ProviderDescriptor>,
    i: int,
    d: ProviderDescriptor,
)
    requires
        provider_ids_unique(before),
        provider_ids_unique(after),
        0 <= i < before.len(),
        after == before.update(i, d),
        before[i].id.0@ == d.id.0@,
    ensures
        descriptor_map(after) =~= descriptor_map(before).insert(d.id.0@, d),
{
    let m1 = descriptor_map(after);
    let m2 = descriptor_map(before).insert(d.id.0@, d);
    assert forall|n: Seq<char>| m1.contains_key(n) <==> m2.contains_key(n) by {
        if m2.contains_key(n) && n != d.id.0@ {
            let c = choose|c: int| 0 <= c < before.len() && #[trigger] before[c].id.0@ == n;
            assert(after[c].id.0@ == n);
        }
        if m1.contains_key(n) {
            let c = choose|c: int| 0 <= c < after.len() && #[trigger] after[c].id.0@ == n;
            if c != i {
                assert(before[c].id.0@ == n);
            }
        }
        if n == d.id.0@ {
            assert(after[i].id.0@ == n);
        }
    }
    assert forall|n: Seq<char>| m1.contains_key(n) implies m1[n] == m2[n] by {
        let c = choose|c: int| 0 <= c < after.len() && #[trigger] after[c].id.0@ == n;
        if n == d.id.0@ {
            if c != i {
                if c < i {
                    assert(after[c].id.0@ != after[i].id.0@);
                } else {
                    assert(after[i].id.0@ != after[c].id.0@);
                }
            }
        } else {
            let c2 = choose|c2: int| 0 <= c2 < before.len() && #[trigger] before[c2].id.0@ == n;
            assert(c != i);
            assert(before[c].id.0@ == n);
            if c != c2 {
                if c < c2 {
                    assert(before[c].id.0@ != before[c2].id.0@);
                } else {
                    assert(before[c2].id.0@ != before[c].id.0@);
                }
            }
        }
    }
}

proof fn lemma_map_push(before: Seq<ProviderDescriptor>, after: Seq<ProviderDescriptor>, d: ProviderDescriptor)
    requires
        provider_ids_unique(before),
        provider_ids_unique(after),
        after == before.push(d),
    ensures
        descriptor_map(after) =~= descriptor_map(before).insert(d.id.0@, d),
{
    let m1 = descriptor_map(after);
    let m2 = descriptor_map(before).insert(d.id.0@, d);
    let n0 = before.len() as int;
    assert forall|n: Seq<char>| m1.contains_key(n) <==> m2.contains_key(n) by {
        if m2.contains_key(n) && n != d.id.0@ {
            let c = choose|c: int| 0 <= c < before.len() && #[trigger] before[c].id.0@ == n;
            assert(after[c].id.0@ == n);
        }
        if m1.contains_key(n) {
            let c = choose|c: int| 0 <= c < after.len() && #[trigger] after[c].id.0@ == n;
            if c != n0 {
                assert(before[c].id.0@ == n);
            }
        }
        if n == d.id.0@ {
            assert(after[n0].id.0@ == n);
        }
    }
    assert forall|n: Seq<char>| m1.contains_key(n) implies m1[n] == m2[n] by {
        let c = choose|c: int| 0 <= c < after.len() && #[trigger] after[c].id.0@ == n;
        if n == d.id.0@ {
            if c != n0 {
                assert(after[c].id.0@ != after[n0].id.0@);
            }
        } else {
            let c2 = choose|c2: int| 0 <= c2 < before.len() && #[trigger] before[c2].id.0@ == n;
            assert(c != n0);
            if c != c2 {
                if c < c2 {
                    assert(before[c].id.0@ != before[c2].id.0@);
                } else {
                    assert(before[c2].id.0@ != before[c].id.0@);
                }
            }
        }
    }
}

/// Model → provider routing.
#[derive(Debug)]
pub struct Router {
    pub models: ModelRegistry,
    pub providers: ProviderRegistry,
}

/// The routing outcome for model `model`: unknown models are not found;
/// models whose provider is not registered are a configuration error.
pub open spec fn route(r: Router, model: Seq<char>) -> Result<(ModelRecord, ProviderDescriptor), ErrorKind> {
    match find_model(r.models.models@, model) {
        None => Err(ErrorKind::NotFound),
        Some(rec) => if r.providers@.contains_key(rec.provider@) {
            Ok((rec, r.providers@[rec.provider@]))
        } else {
            Err(ErrorKind::Configuration)
        },
    }
}

impl Router {
    pub fn new(models: ModelRegistry, providers: ProviderRegistry) -> (r: Self)
        ensures
            r.models == models,
            r.providers == providers,
    {
        Router { models, providers }
    }

    /// Resolve a requested model id to its record and provider.
    pub fn resolve(&self, model: &str) -> (r: crate::error::Result<(ModelRecord, ProviderDescriptor)>)
        ensures
            match route(*self, model@) {
                Ok(x) => r == Ok::<(ModelRecord, ProviderDescriptor), SetuError>(x),
                Err(k) => r matches Err(e) && e.kind == k,
            },
    {
        let record = match self.models.get(model) {
            Some(m) => m.clone(),
            None => {
                let mut msg = String::from_str("unknown model '");
                msg.append(model);
                msg.append("'");
                return Err(SetuError::with_message(ErrorKind::NotFound, msg));
            },
        };
        let provider = match self.providers.get(record.provider.as_str()) {
            Some(p) => p.clone(),
            None => {
                let mut msg = String::from_str("model '");
                msg.append(model);
                msg.append("' maps to unknown provider '");
                msg.append(record.provider.as_str());
                msg.append("'");
                return Err(SetuError::with_message(ErrorKind::Configuration, msg));
            },
        };
        Ok((record, provider))
    }

    /// Resolve, then require that the provider has capability `cap`.
    pub fn require(&self, model: &str, cap: Capability) -> (r: crate::error::Result<(ModelRecord, ProviderDescriptor)>)
        ensures
            match route(*self, model@) {
                Ok(x) => if has_capability(x.1.capabilities, cap) {
                    r == Ok::<(ModelRecord, ProviderDescriptor), SetuError>(x)
                } else {
                    r matches Err(e) && e.kind == ErrorKind::InvalidRequest
                },
                Err(k) => r matches Err(e) && e.kind == k,
            },
    {
        let (record, provider) = self.resolve(model)?;
        provider.capabilities.require(cap)?;
        Ok((record, provider))
    }

    pub fn capabilities_for_model(&self, model: &str) -> (r: crate::error::Result<ProviderCapabilities>)
        ensures
            match route(*self, model@) {
                Ok(x) => r == Ok::<ProviderCapabilities, SetuError>(x.1.capabilities),
                Err(k) => r matches Err(e) && e.kind == k,
            },
    {
        let (_, provider) = self.resolve(model)?;
        Ok(provider.capabilities)
    }
}

} // verus!
