//! The two routes of the relay: an intercepted call, whose body is cached under
//! its topic and forwarded, and a replay, which forwards the cached body.
use vstd::prelude::*;
use vstd::string::*;

use crate::env::views;
use crate::headers::{assembled, is_first_absent, pairs, present_values, recomputed_for, required_names, OutboundHeader};
use crate::relay::{Relay, RelayError};
use crate::topic::{cache_key, find_topic, is_first_topic, key_for};

verus! {

/// An outbound call: a POST of `body` to `url` with `headers`.
pub struct Outbound {
    pub url: String,
    pub headers: Vec<OutboundHeader>,
    pub body: Vec<u8>,
}

/// What a request's headers select: the extracted values, and the cache key of
/// the topic they name, if any.
pub struct Lookup {
    pub values: Vec<String>,
    pub cache_key: Option<String>,
}

/// The headers that every outbound call carries before the rebuilt ones.
pub open spec fn base_headers() -> Seq<(Seq<char>, Seq<char>)> {
    seq![("accept"@, "application/json"@), ("content-type"@, "application/json"@)]
}

/// Whether `o` is the call that `r` makes for the extracted `vals` and `body`.
pub open spec fn is_outbound(r: &Relay, vals: Seq<Seq<char>>, body: Seq<u8>, o: Outbound) -> bool {
    &&& o.url@ == r.target@
    &&& o.body@ == body
    &&& pairs(o.headers@) == base_headers() + assembled(r, vals, recomputed_for(r.signature, body))
}

/// The value of an optional string.
pub open spec fn opt_view(o: Option<String>) -> Option<Seq<char>> {
    match o {
        Some(s) => Some(s@),
        None => None,
    }
}

/// The body that a replay forwards: for a request that names no topic an empty
/// body, else what is cached under its key, if anything is.
pub open spec fn replay_body(key: Option<Seq<char>>, cached: Option<Seq<u8>>) -> Option<Seq<u8>> {
    match key {
        None => Some(seq![]),
        Some(_) => cached,
    }
}

/// The bytes of an optional body.
pub open spec fn opt_bytes(o: Option<Vec<u8>>) -> Option<Seq<u8>> {
    match o {
        Some(b) => Some(b@),
        None => None,
    }
}

impl Relay {
    /// Extracts the required header values from `found` (see `extract_values`) and
    /// selects the cache key of the first configured topic among them.
    pub fn lookup(&self, found: &Vec<Option<String>>) -> (r: Result<Lookup, RelayError>)
        requires
            found@.len() == required_names(self).len(),
        ensures
            r is Err <==> exists|i: int| 0 <= i < found@.len() && found@[i] is None,
            r matches Err(e) ==> e matches RelayError::MissingHeader(n) && exists|i: int|
                is_first_absent(found@, i) && n@ == required_names(self)[i],
            r matches Ok(l) ==> views(l.values@) == present_values(found@) && opt_view(l.cache_key)
                == key_for(views(self.topics@), present_values(found@)),
    {
        let values = match self.extract_values(found) {
            Err(e) => return Err(e),
            Ok(v) => v,
        };
        let cache_key = match find_topic(&self.topics, &values) {
            Some(i) => {
                proof {
                    let ts = views(self.topics@);
                    let vs = views(values@);
                    let c = choose|c: int| is_first_topic(ts, vs, c);
                    if c < i {
                        assert(!vs.contains(ts[c]));
                    } else if c > i {
                        assert(!vs.contains(ts[i as int]));
                    }
                }
                Some(cache_key(&self.topics[i]))
            },
            None => None,
        };
        Ok(Lookup { values, cache_key })
    }

    /// The call that forwards `body` with the headers rebuilt from `values`. Fails
    /// where `values` is not exactly one value per required header.
    pub fn outbound(&self, values: &Vec<String>, body: Vec<u8>) -> (r: Result<Outbound, RelayError>)
        ensures
            r is Err <==> values@.len() != required_names(self).len(),
            r matches Err(e) ==> e == (RelayError::HeaderAlignment {
                expected: required_names(self).len() as usize,
                found: values@.len() as usize,
            }),
            r matches Ok(o) ==> is_outbound(self, views(values@), body@, o),
    {
        let rebuilt = match self.rebuild_headers(values, &body) {
            Err(e) => return Err(e),
            Ok(h) => h,
        };
        let mut headers: Vec<OutboundHeader> = Vec::new();
        headers.push(OutboundHeader { name: String::from_str("accept"), value: String::from_str("application/json") });
        headers.push(OutboundHeader { name: String::from_str("content-type"), value: String::from_str("application/json") });
        let ghost first = headers@;
        let mut i: usize = 0;
        let n: usize = rebuilt.len();
        let mut rest = rebuilt;
        while i < n
            invariant
                n == rest@.len(),
                i <= n,
                headers@ == first + rest@.subrange(0, i as int),
            decreases n - i,
        {
            let h = OutboundHeader { name: rest[i].name.clone(), value: rest[i].value.clone() };
            headers.push(h);
            assert(headers@ =~= first + rest@.subrange(0, i + 1));
            i += 1;
        }
        assert(rest@.subrange(0, i as int) =~= rest@);
        proof {
            reveal_strlit("accept");
            reveal_strlit("content-type");
            reveal_strlit("application/json");
        }
        assert(pairs(headers@) =~= base_headers() + pairs(rest@));
        Ok(Outbound { url: self.target.clone(), headers, body })
    }

    /// The call that a replay makes once the cache was read for `lookup`'s key:
    /// `cached` is what the cache holds under that key. Fails with `NotFound` where
    /// a key was selected and nothing is cached under it.
    pub fn forward_cached(&self, lookup: &Lookup, cached: Option<Vec<u8>>) -> (r: Result<Outbound, RelayError>)
        ensures
            replay_body(opt_view(lookup.cache_key), opt_bytes(cached)) is None ==> (r matches Err(e) && e matches RelayError::NotFound(k)
                && Some(k@) == opt_view(lookup.cache_key)),
            replay_body(opt_view(lookup.cache_key), opt_bytes(cached)) matches Some(b) ==> {
                &&& r is Err <==> lookup.values@.len() != required_names(self).len()
                &&& r matches Err(e) ==> e == (RelayError::HeaderAlignment {
                    expected: required_names(self).len() as usize,
                    found: lookup.values@.len() as usize,
                })
                &&& r matches Ok(o) ==> is_outbound(self, views(lookup.values@), b, o)
            },
    {
        let body = match &lookup.cache_key {
            None => Vec::new(),
            Some(k) => match cached {
                None => return Err(RelayError::NotFound(k.clone())),
                Some(b) => b,
            },
        };
        self.outbound(&lookup.values, body)
    }
}

} // verus!
