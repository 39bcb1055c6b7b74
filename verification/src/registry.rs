//! The model registry: the proxy's local catalog of known model
//! identifiers and their reasoning settings.
//!
//! The registry is an ordered sequence of [`ModelConfig`] entries, built
//! once at startup and read-only afterwards. Lookup by id is first-match
//! wins, so a duplicate id deterministically resolves to the entry that
//! was declared first.

use vstd::prelude::*;

verus! {

/// One known model: its identifier and the settings that govern the
/// request transformer's body rewriting for that model.
pub struct ModelConfig {
    /// Unique key, matched against the `model` field of request bodies.
    pub id: String,
    /// Display label, passed through verbatim in listings.
    pub object: String,
    /// Display label, passed through verbatim in listings.
    pub owned_by: String,
    /// Whether the transformer injects reasoning directives for this model.
    pub enable_thinking: bool,
    /// Effort level injected verbatim when thinking is enabled.
    pub reasoning_effort: String,
}

/// The proxy's process-wide configuration: the upstream base URL, the
/// credential injected into every outbound request, and the model registry.
/// Built once at startup, read-only afterwards.
pub struct ProxyConfig {
    /// The credential sent upstream as `Authorization: Bearer <key>`.
    pub api_key: String,
    /// The upstream base URL.
    pub api_base: String,
    /// The model registry, in declaration order.
    pub models: Vec<ModelConfig>,
}

/// The default API version label used when configuration omits one.
pub fn default_api_version() -> (r: String)
    ensures
        r@ == "v1"@,
{
    String::from_str("v1")
}

/// The default reasoning effort used when configuration omits one.
pub fn default_reasoning_effort() -> (r: String)
    ensures
        r@ == "medium"@,
{
    String::from_str("medium")
}

/// The first registry entry whose id equals `name`, if any.
pub open spec fn lookup_spec(models: Seq<ModelConfig>, name: Seq<char>) -> Option<ModelConfig>
    decreases models.len(),
{
    if models.len() == 0 {
        None
    } else if models[0].id@ == name {
        Some(models[0])
    } else {
        lookup_spec(models.drop_first(), name)
    }
}

/// Finds the configuration for a model id, first match wins.
pub fn lookup_model<'a>(models: &'a Vec<ModelConfig>, name: &String) -> (r: Option<
    &'a ModelConfig,
>)
    ensures
        match r {
            Some(m) => lookup_spec(models@, name@) == Some(*m),
            None => lookup_spec(models@, name@) is None,
        },
{
    proof {
        assert(models@.skip(0) =~= models@);
    }
    let mut i: usize = 0;
    while i < models.len()
        invariant
            i <= models@.len(),
            lookup_spec(models@, name@) == lookup_spec(models@.skip(i as int), name@),
        decreases models@.len() - i,
    {
        proof {
            let s = models@.skip(i as int);
            assert(s.len() > 0);
            assert(s[0] == models@[i as int]);
        }
        if models[i].id.eq(name) {
            proof {
                let s = models@.skip(i as int);
                assert(lookup_spec(s, name@) == Some(s[0]));
            }
            return Some(&models[i]);
        }
        proof {
            let s = models@.skip(i as int);
            assert(s.drop_first() =~= models@.skip(i + 1));
            assert(lookup_spec(s, name@) == lookup_spec(s.drop_first(), name@));
        }
        i = i + 1;
    }
    None
}

} // verus!
