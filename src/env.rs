//! The process environment, as a list of name and value pairs, and what a
//! manifest needs from it.
use vstd::prelude::*;

use crate::config::{HeaderMapping, HeaderSource, Manifest};

verus! {

/// The values of a list of strings.
pub open spec fn views(v: Seq<String>) -> Seq<Seq<char>> {
    v.map_values(|s: String| s@)
}

/// Whether `i` is the first position of `env` that defines `name`.
pub open spec fn is_first_def(env: Seq<(String, String)>, name: Seq<char>, i: int) -> bool {
    0 <= i < env.len() && env[i].0@ == name && forall|j: int| 0 <= j < i ==> env[j].0@ != name
}

/// The value of `name` in `env`: the first definition wins.
pub open spec fn env_lookup(env: Seq<(String, String)>, name: Seq<char>) -> Option<Seq<char>> {
    if exists|i: int| is_first_def(env, name, i) {
        Some(env[choose|i: int| is_first_def(env, name, i)].1@)
    } else {
        None
    }
}

/// The first of `names` that `env` does not define.
pub open spec fn first_missing(env: Seq<(String, String)>, names: Seq<Seq<char>>) -> Option<Seq<char>>
    decreases names.len(),
{
    if names.len() == 0 {
        None
    } else if env_lookup(env, names[0]) is None {
        Some(names[0])
    } else {
        first_missing(env, names.drop_first())
    }
}

/// The environment variables that a list of header mappings names, in order.
pub open spec fn env_sources(hs: Seq<HeaderMapping>) -> Seq<Seq<char>>
    decreases hs.len(),
{
    if hs.len() == 0 {
        seq![]
    } else {
        let prev = env_sources(hs.drop_last());
        match hs.last().source {
            HeaderSource::FromRequest => prev,
            HeaderSource::Env(n) => prev.push(n@),
        }
    }
}

/// Every environment variable that a manifest names, in the order in which they are checked.
pub open spec fn referenced_env(m: &Manifest) -> Seq<Seq<char>> {
    views(m.server.env@) + views(m.webhook.params@) + env_sources(m.webhook.headers@) + if m.webhook.rehash.is_required {
        seq![m.webhook.rehash.secret@]
    } else {
        seq![]
    }
}

pub proof fn lemma_first_missing_append(env: Seq<(String, String)>, a: Seq<Seq<char>>, b: Seq<Seq<char>>)
    ensures
        first_missing(env, a + b) == if first_missing(env, a) is Some {
            first_missing(env, a)
        } else {
            first_missing(env, b)
        },
    decreases a.len(),
{
    if a.len() > 0 {
        assert((a + b).drop_first() =~= a.drop_first() + b);
        lemma_first_missing_append(env, a.drop_first(), b);
    } else {
        assert(a + b =~= b);
    }
}

pub proof fn lemma_first_missing_none(env: Seq<(String, String)>, names: Seq<Seq<char>>)
    requires
        first_missing(env, names) is None,
    ensures
        forall|k: int| 0 <= k < names.len() ==> env_lookup(env, #[trigger] names[k]) is Some,
    decreases names.len(),
{
    if names.len() > 0 {
        lemma_first_missing_none(env, names.drop_first());
        assert forall|k: int| 0 <= k < names.len() implies env_lookup(env, #[trigger] names[k]) is Some by {
            if k > 0 {
                assert(names[k] == names.drop_first()[k - 1]);
            }
        }
    }
}

/// Looks `name` up in `env`.
pub fn lookup(env: &Vec<(String, String)>, name: &String) -> (r: Option<String>)
    ensures
        r matches Some(v) ==> env_lookup(env@, name@) == Some(v@),
        r is None ==> env_lookup(env@, name@) is None,
{
    let mut i: usize = 0;
    while i < env.len()
        invariant
            i <= env@.len(),
            forall|j: int| 0 <= j < i ==> env@[j].0@ != name@,
        decreases env@.len() - i,
    {
        if env[i].0 == *name {
            assert(is_first_def(env@, name@, i as int));
            proof {
                let k = choose|k: int| is_first_def(env@, name@, k);
                assert(k == i as int);
            }
            return Some(env[i].1.clone());
        }
        i += 1;
    }
    None
}

/// The first of `names` that `env` does not define.
pub fn find_missing(env: &Vec<(String, String)>, names: &Vec<String>) -> (r: Option<String>)
    ensures
        r matches Some(n) ==> first_missing(env@, views(names@)) == Some(n@),
        r is None ==> first_missing(env@, views(names@)) is None,
{
    let mut i: usize = 0;
    assert(views(names@).subrange(0, names@.len() as int) =~= views(names@));
    while i < names.len()
        invariant
            i <= names@.len(),
            first_missing(env@, views(names@)) == first_missing(env@, views(names@).subrange(i as int, names@.len() as int)),
        decreases names@.len() - i,
    {
        let ghost rest = views(names@).subrange(i as int, names@.len() as int);
        assert(rest.drop_first() =~= views(names@).subrange(i + 1, names@.len() as int));
        match lookup(env, &names[i]) {
            None => return Some(names[i].clone()),
            Some(_) => {},
        }
        i += 1;
    }
    assert(views(names@).subrange(i as int, names@.len() as int) =~= seq![]);
    None
}

/// The environment variables that `headers` names, in order.
pub fn header_env_names(headers: &Vec<HeaderMapping>) -> (r: Vec<String>)
    ensures
        views(r@) == env_sources(headers@),
{
    let mut r: Vec<String> = Vec::new();
    let mut i: usize = 0;
    while i < headers.len()
        invariant
            i <= headers@.len(),
            views(r@) == env_sources(headers@.subrange(0, i as int)),
        decreases headers@.len() - i,
    {
        assert(headers@.subrange(0, i + 1).drop_last() =~= headers@.subrange(0, i as int));
        match &headers[i].source {
            HeaderSource::FromRequest => {},
            HeaderSource::Env(n) => {
                r.push(n.clone());
            },
        }
        assert(views(r@) =~= env_sources(headers@.subrange(0, i + 1)));
        i += 1;
    }
    assert(headers@.subrange(0, i as int) =~= headers@);
    r
}

} // verus!
