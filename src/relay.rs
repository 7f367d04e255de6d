//! The relay's configuration once every environment variable that the
//! manifest names has been resolved: fixed for the life of the process.
use vstd::prelude::*;
use vstd::string::*;

use crate::config::{ConfigError, HeaderMapping, HeaderSource, Manifest};
use crate::env::{
    env_lookup, env_sources, find_missing, first_missing, header_env_names, lemma_first_missing_append,
    lemma_first_missing_none, lookup, referenced_env, views,
};

verus! {

/// Where a resolved outbound header takes its value from.
pub enum ResolvedSource {
    /// The next value extracted from the inbound request.
    FromRequest,
    /// A value fixed at start-up.
    Fixed(String),
}

/// One outbound header, with its value resolved where it is fixed.
pub struct ResolvedHeader {
    pub name: String,
    pub source: ResolvedSource,
}

/// How the outbound signature header is filled.
pub enum SignatureRule {
    /// No signature header is required.
    Absent,
    /// The inbound value of `header` is forwarded unchanged.
    Passthrough { header: String },
    /// The signature is recomputed over the body with `secret`.
    Recompute { header: String, secret: String },
}

/// A request that the relay cannot serve.
pub enum RelayError {
    /// A header that the relay requires is absent from the inbound request.
    MissingHeader(String),
    /// The values extracted from a request do not line up with the header mappings.
    HeaderAlignment { expected: usize, found: usize },
    /// A replay for a cache key under which nothing was ever stored.
    NotFound(String),
}

/// The relay's resolved configuration.
pub struct Relay {
    /// The outbound URL.
    pub target: String,
    /// Topic identifiers, in the order in which they are tried.
    pub topics: Vec<String>,
    /// Outbound headers, in declared order.
    pub headers: Vec<ResolvedHeader>,
    pub signature: SignatureRule,
}

/// `base` followed by each of `segments`, each after a `/`.
pub open spec fn join_url(base: Seq<char>, segments: Seq<Seq<char>>) -> Seq<char>
    decreases segments.len(),
{
    if segments.len() == 0 {
        base
    } else {
        join_url(base, segments.drop_last()) + "/"@ + segments.last()
    }
}

/// The values that `env` gives to `names`.
pub open spec fn resolve_all(env: Seq<(String, String)>, names: Seq<Seq<char>>) -> Seq<Seq<char>> {
    names.map_values(|n: Seq<char>| env_lookup(env, n).unwrap())
}

/// Whether `r` is `m` with its source resolved in `env`.
pub open spec fn resolves_header(env: Seq<(String, String)>, m: HeaderMapping, r: ResolvedHeader) -> bool {
    r.name@ == m.name@ && match m.source {
        HeaderSource::FromRequest => r.source is FromRequest,
        HeaderSource::Env(n) => r.source matches ResolvedSource::Fixed(v) && Some(v@) == env_lookup(env, n@),
    }
}

/// Whether `s` is the signature rule that `m` asks for, resolved in `env`.
pub open spec fn resolves_signature(env: Seq<(String, String)>, m: &Manifest, s: SignatureRule) -> bool {
    if !m.webhook.hash.is_required {
        s is Absent
    } else if !m.webhook.rehash.is_required {
        s matches SignatureRule::Passthrough { header } && header@ == m.webhook.hash.header@
    } else {
        s matches SignatureRule::Recompute { header, secret } && header@ == m.webhook.hash.header@
            && Some(secret@) == env_lookup(env, m.webhook.rehash.secret@)
    }
}

/// Whether `r` is `m` resolved in `env`.
pub open spec fn resolves(env: Seq<(String, String)>, m: &Manifest, r: &Relay) -> bool {
    &&& r.target@ == join_url(m.webhook.url@, resolve_all(env, views(m.webhook.params@)))
    &&& views(r.topics@) == views(m.webhook.topics@)
    &&& r.headers@.len() == m.webhook.headers@.len()
    &&& forall|i: int| 0 <= i < r.headers@.len() ==> resolves_header(env, m.webhook.headers@[i], #[trigger] r.headers@[i])
    &&& resolves_signature(env, m, r.signature)
}

fn copy_strings(v: &Vec<String>) -> (r: Vec<String>)
    ensures
        views(r@) == views(v@),
{
    let mut r: Vec<String> = Vec::new();
    let mut i: usize = 0;
    while i < v.len()
        invariant
            i <= v@.len(),
            r@.len() == i,
            forall|k: int| 0 <= k < i ==> (#[trigger] r@[k])@ == v@[k]@,
        decreases v@.len() - i,
    {
        r.push(v[i].clone());
        i += 1;
    }
    assert(views(r@) =~= views(v@));
    r
}

impl Relay {
    /// Resolves `manifest` in `env`. Fails with the first environment variable that the
    /// manifest names and `env` lacks: those of the server, then the URL's path
    /// segments, then the headers' sources, then the signing secret.
    pub fn new(manifest: &Manifest, env: &Vec<(String, String)>) -> (r: Result<Relay, ConfigError>)
        ensures
            r is Ok <==> first_missing(env@, referenced_env(manifest)) is None,
            r matches Ok(relay) ==> resolves(env@, manifest, &relay),
            r matches Err(e) ==> e matches ConfigError::MissingEnv(n) && first_missing(env@, referenced_env(manifest)) == Some(n@),
    {
        let w = &manifest.webhook;
        let ghost a = views(manifest.server.env@);
        let ghost b = views(w.params@);
        let ghost c = env_sources(w.headers@);
        let ghost d: Seq<Seq<char>> = if w.rehash.is_required { seq![w.rehash.secret@] } else { seq![] };
        proof {
            lemma_first_missing_append(env@, a + b + c, d);
            lemma_first_missing_append(env@, a + b, c);
            lemma_first_missing_append(env@, a, b);
        }
        if let Some(n) = find_missing(env, &manifest.server.env) {
            return Err(ConfigError::MissingEnv(n));
        }
        if let Some(n) = find_missing(env, &w.params) {
            return Err(ConfigError::MissingEnv(n));
        }
        let header_envs = header_env_names(&w.headers);
        if let Some(n) = find_missing(env, &header_envs) {
            return Err(ConfigError::MissingEnv(n));
        }
        let mut secret = String::new();
        if w.rehash.is_required {
            match lookup(env, &w.rehash.secret) {
                None => {
                    proof {
                        assert(first_missing(env@, d.drop_first()) is None);
                    }
                    return Err(ConfigError::MissingEnv(w.rehash.secret.clone()));
                },
                Some(v) => {
                    secret = v;
                    proof {
                        assert(d.drop_first() =~= seq![]);
                    }
                },
            }
        } else {
            assert(first_missing(env@, d) is None);
        }
        proof {
            lemma_first_missing_none(env@, b);
        }
        // the outbound URL
        let mut target = w.url.clone();
        let mut i: usize = 0;
        while i < w.params.len()
            invariant
                i <= w.params@.len(),
                b == views(w.params@),
                forall|k: int| 0 <= k < b.len() ==> env_lookup(env@, #[trigger] b[k]) is Some,
                target@ == join_url(w.url@, resolve_all(env@, b.subrange(0, i as int))),
            decreases w.params@.len() - i,
        {
            assert(b[i as int] == w.params@[i as int]@);
            let v = match lookup(env, &w.params[i]) {
                Some(v) => v,
                None => {
                    assert(false);
                    String::new()
                },
            };
            assert(resolve_all(env@, b.subrange(0, i + 1)).drop_last() =~= resolve_all(env@, b.subrange(0, i as int)));
            target.append("/");
            target.append(v.as_str());
            i += 1;
        }
        assert(b.subrange(0, i as int) =~= b);
        // the outbound headers
        proof {
            lemma_first_missing_none(env@, c);
            lemma_env_sources_cover(w.headers@);
        }
        let mut headers: Vec<ResolvedHeader> = Vec::new();
        let mut j: usize = 0;
        while j < w.headers.len()
            invariant
                j <= w.headers@.len(),
                headers@.len() == j,
                c == env_sources(w.headers@),
                forall|k: int| 0 <= k < c.len() ==> env_lookup(env@, #[trigger] c[k]) is Some,
                forall|k: int| 0 <= k < w.headers@.len() && (#[trigger] w.headers@[k]).source is Env ==> c.contains(w.headers@[k].source->Env_0@),
                forall|k: int| 0 <= k < j ==> resolves_header(env@, w.headers@[k], #[trigger] headers@[k]),
            decreases w.headers@.len() - j,
        {
            let h = &w.headers[j];
            let source = match &h.source {
                HeaderSource::FromRequest => ResolvedSource::FromRequest,
                HeaderSource::Env(n) => {
                    assert(c.contains(n@));
                    match lookup(env, n) {
                        Some(v) => ResolvedSource::Fixed(v),
                        None => {
                            assert(false);
                            ResolvedSource::FromRequest
                        },
                    }
                },
            };
            headers.push(ResolvedHeader { name: h.name.clone(), source });
            j += 1;
        }
        let signature = if !w.hash.is_required {
            SignatureRule::Absent
        } else if !w.rehash.is_required {
            SignatureRule::Passthrough { header: w.hash.header.clone() }
        } else {
            SignatureRule::Recompute { header: w.hash.header.clone(), secret }
        };
        Ok(Relay { target, topics: copy_strings(&w.topics), headers, signature })
    }
}

proof fn lemma_env_sources_cover(hs: Seq<HeaderMapping>)
    ensures
        forall|k: int| 0 <= k < hs.len() && (#[trigger] hs[k]).source is Env ==> env_sources(hs).contains(hs[k].source->Env_0@),
    decreases hs.len(),
{
    if hs.len() > 0 {
        lemma_env_sources_cover(hs.drop_last());
        let prev = env_sources(hs.drop_last());
        assert forall|k: int| 0 <= k < hs.len() && (#[trigger] hs[k]).source is Env implies env_sources(hs).contains(hs[k].source->Env_0@) by {
            if let HeaderSource::Env(n) = hs[k].source {
                if k < hs.len() - 1 {
                    assert(hs[k] == hs.drop_last()[k]);
                    let t = choose|t: int| 0 <= t < prev.len() && prev[t] == n@;
                    assert(env_sources(hs)[t] == n@);
                } else {
                    assert(env_sources(hs).last() == n@);
                }
            }
        }
    }
}

} // verus!
