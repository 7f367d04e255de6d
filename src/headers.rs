//! Extraction of header values from an inbound request, and the rebuilding of
//! the outbound header set from them.
use vstd::prelude::*;

use crate::env::views;
use crate::relay::{Relay, RelayError, ResolvedHeader, ResolvedSource, SignatureRule};
use crate::sign::{sign, signature_of};

verus! {

/// One outbound header.
pub struct OutboundHeader {
    pub name: String,
    pub value: String,
}

/// The (name, value) pairs of a header list.
pub open spec fn pairs(hs: Seq<OutboundHeader>) -> Seq<(Seq<char>, Seq<char>)> {
    hs.map_values(|h: OutboundHeader| (h.name@, h.value@))
}

/// The names of the headers that take their value from the request, in declared order.
pub open spec fn request_names(hs: Seq<ResolvedHeader>) -> Seq<Seq<char>>
    decreases hs.len(),
{
    if hs.len() == 0 {
        seq![]
    } else {
        let prev = request_names(hs.drop_last());
        if hs.last().source is FromRequest {
            prev.push(hs.last().name@)
        } else {
            prev
        }
    }
}

/// The name of the signature header, if one is required.
pub open spec fn signature_header(s: SignatureRule) -> Option<Seq<char>> {
    match s {
        SignatureRule::Absent => None,
        SignatureRule::Passthrough { header } => Some(header@),
        SignatureRule::Recompute { header, .. } => Some(header@),
    }
}

/// The headers that an inbound request must carry, in the order in which their
/// values are extracted: the request-sourced mappings, then the signature header.
pub open spec fn required_names(r: &Relay) -> Seq<Seq<char>> {
    request_names(r.headers@) + match signature_header(r.signature) {
        Some(h) => seq![h],
        None => seq![],
    }
}

/// Whether `i` is the first position of `found` that holds no value.
pub open spec fn is_first_absent(found: Seq<Option<String>>, i: int) -> bool {
    0 <= i < found.len() && found[i] is None && forall|j: int| 0 <= j < i ==> found[j] is Some
}

/// The values held by `found`.
pub open spec fn present_values(found: Seq<Option<String>>) -> Seq<Seq<char>> {
    found.map_values(|o: Option<String>| o->Some_0@)
}

/// The outbound pairs for `hs`, taking request-sourced values from `vals` front to back.
pub open spec fn rebuilt(hs: Seq<ResolvedHeader>, vals: Seq<Seq<char>>) -> Seq<(Seq<char>, Seq<char>)>
    decreases hs.len(),
{
    if hs.len() == 0 {
        seq![]
    } else {
        let prev = rebuilt(hs.drop_last(), vals);
        let h = hs.last();
        match h.source {
            ResolvedSource::FromRequest => prev.push((h.name@, vals[request_names(hs.drop_last()).len() as int])),
            ResolvedSource::Fixed(v) => prev.push((h.name@, v@)),
        }
    }
}

/// The trailing signature pair: the last extracted value when passed through,
/// `recomputed` when recomputed.
pub open spec fn signature_pair(s: SignatureRule, vals: Seq<Seq<char>>, recomputed: Seq<char>) -> Seq<(Seq<char>, Seq<char>)> {
    match s {
        SignatureRule::Absent => seq![],
        SignatureRule::Passthrough { header } => seq![(header@, vals.last())],
        SignatureRule::Recompute { header, .. } => seq![(header@, recomputed)],
    }
}

/// The full outbound header set for the extracted `vals`.
pub open spec fn assembled(r: &Relay, vals: Seq<Seq<char>>, recomputed: Seq<char>) -> Seq<(Seq<char>, Seq<char>)> {
    rebuilt(r.headers@, vals) + signature_pair(r.signature, vals, recomputed)
}

/// The signature that `s` recomputes over `body`; empty where it recomputes none.
pub open spec fn recomputed_for(s: SignatureRule, body: Seq<u8>) -> Seq<char> {
    match s {
        SignatureRule::Recompute { secret, .. } => signature_of(body, secret@),
        _ => seq![],
    }
}

pub proof fn lemma_request_names_prefix(hs: Seq<ResolvedHeader>, i: int, j: int)
    requires
        0 <= i <= j <= hs.len(),
    ensures
        request_names(hs.subrange(0, i)).len() <= request_names(hs.subrange(0, j)).len(),
    decreases j - i,
{
    if i < j {
        assert(hs.subrange(0, j).drop_last() =~= hs.subrange(0, j - 1));
        lemma_request_names_prefix(hs, i, j - 1);
    }
}

impl Relay {
    /// The headers that an inbound request must carry, in extraction order.
    pub fn required_header_names(&self) -> (r: Vec<String>)
        ensures
            views(r@) == required_names(self),
    {
        let mut r: Vec<String> = Vec::new();
        let mut i: usize = 0;
        while i < self.headers.len()
            invariant
                i <= self.headers@.len(),
                views(r@) == request_names(self.headers@.subrange(0, i as int)),
            decreases self.headers@.len() - i,
        {
            assert(self.headers@.subrange(0, i + 1).drop_last() =~= self.headers@.subrange(0, i as int));
            if let ResolvedSource::FromRequest = &self.headers[i].source {
                r.push(self.headers[i].name.clone());
            }
            assert(views(r@) =~= request_names(self.headers@.subrange(0, i + 1)));
            i += 1;
        }
        assert(self.headers@.subrange(0, i as int) =~= self.headers@);
        match &self.signature {
            SignatureRule::Absent => {},
            SignatureRule::Passthrough { header } => r.push(header.clone()),
            SignatureRule::Recompute { header, .. } => r.push(header.clone()),
        }
        assert(views(r@) =~= required_names(self));
        r
    }

    /// Takes the values of the required headers from `found`, which holds, for each
    /// name of `required_header_names` in turn, the first value of that header on the
    /// inbound request. Fails with the first required header that is absent.
    pub fn extract_values(&self, found: &Vec<Option<String>>) -> (r: Result<Vec<String>, RelayError>)
        requires
            found@.len() == required_names(self).len(),
        ensures
            r is Err <==> exists|i: int| 0 <= i < found@.len() && found@[i] is None,
            r matches Err(e) ==> e matches RelayError::MissingHeader(n) && exists|i: int|
                is_first_absent(found@, i) && n@ == required_names(self)[i],
            r matches Ok(v) ==> views(v@) == present_values(found@),
    {
        let names = self.required_header_names();
        let mut v: Vec<String> = Vec::new();
        let mut i: usize = 0;
        while i < found.len()
            invariant
                i <= found@.len(),
                views(names@) == required_names(self),
                found@.len() == names@.len(),
                v@.len() == i,
                forall|k: int| 0 <= k < i ==> (#[trigger] found@[k]) is Some,
                forall|k: int| 0 <= k < i ==> (#[trigger] v@[k])@ == found@[k]->Some_0@,
            decreases found@.len() - i,
        {
            match &found[i] {
                None => {
                    assert(is_first_absent(found@, i as int));
                    assert(names@[i as int]@ == required_names(self)[i as int]);
                    return Err(RelayError::MissingHeader(names[i].clone()));
                },
                Some(s) => v.push(s.clone()),
            }
            i += 1;
        }
        assert(views(v@) =~= present_values(found@));
        Ok(v)
    }

    /// Rebuilds the outbound headers from the extracted `values`: each mapping in
    /// declared order, request-sourced ones taking the next value, then the signature
    /// header, whose value is the last extracted value or, where the signature is
    /// recomputed, `recomputed`. Fails where `values` is not exactly one value per
    /// required header.
    pub fn assemble_headers(&self, values: &Vec<String>, recomputed: &String) -> (r: Result<Vec<OutboundHeader>, RelayError>)
        ensures
            r is Err <==> values@.len() != required_names(self).len(),
            r matches Err(e) ==> e == (RelayError::HeaderAlignment {
                expected: required_names(self).len() as usize,
                found: values@.len() as usize,
            }),
            r matches Ok(out) ==> pairs(out@) == assembled(self, views(values@), recomputed@),
    {
        let names = self.required_header_names();
        if values.len() != names.len() {
            return Err(RelayError::HeaderAlignment { expected: names.len(), found: values.len() });
        }
        let ghost hs = self.headers@;
        let ghost vals = views(values@);
        let n: usize = values.len();
        let mut out: Vec<OutboundHeader> = Vec::new();
        let mut used: usize = 0;
        let mut i: usize = 0;
        while i < self.headers.len()
            invariant
                hs == self.headers@,
                vals == views(values@),
                values@.len() == required_names(self).len(),
                n == values@.len(),
                i <= hs.len(),
                used == request_names(hs.subrange(0, i as int)).len(),
                pairs(out@) == rebuilt(hs.subrange(0, i as int), vals),
            decreases hs.len() - i,
        {
            proof {
                lemma_request_names_prefix(hs, i + 1, hs.len() as int);
                assert(hs.subrange(0, hs.len() as int) =~= hs);
                assert(hs.subrange(0, i + 1).drop_last() =~= hs.subrange(0, i as int));
            }
            let h = &self.headers[i];
            let value = match &h.source {
                ResolvedSource::FromRequest => {
                    assert(request_names(hs.subrange(0, i + 1)).len() == used + 1);
                    assert(required_names(self).len() >= request_names(hs).len());
                    let v = values[used].clone();
                    used += 1;
                    v
                },
                ResolvedSource::Fixed(v) => v.clone(),
            };
            out.push(OutboundHeader { name: h.name.clone(), value });
            assert(pairs(out@) =~= rebuilt(hs.subrange(0, i + 1), vals));
            i += 1;
        }
        assert(hs.subrange(0, i as int) =~= hs);
        match &self.signature {
            SignatureRule::Absent => {},
            SignatureRule::Passthrough { header } => {
                let last = values[values.len() - 1].clone();
                out.push(OutboundHeader { name: header.clone(), value: last });
            },
            SignatureRule::Recompute { header, .. } => {
                out.push(OutboundHeader { name: header.clone(), value: recomputed.clone() });
            },
        }
        assert(pairs(out@) =~= assembled(self, vals, recomputed@));
        Ok(out)
    }

    /// Rebuilds the outbound headers for `body`, recomputing the signature over it
    /// where the relay is configured to.
    pub fn rebuild_headers(&self, values: &Vec<String>, body: &Vec<u8>) -> (r: Result<Vec<OutboundHeader>, RelayError>)
        ensures
            r is Err <==> values@.len() != required_names(self).len(),
            r matches Err(e) ==> e == (RelayError::HeaderAlignment {
                expected: required_names(self).len() as usize,
                found: values@.len() as usize,
            }),
            r matches Ok(out) ==> pairs(out@) == assembled(self, views(values@), recomputed_for(self.signature, body@)),
    {
        let recomputed = match &self.signature {
            SignatureRule::Recompute { secret, .. } => sign(body.as_slice(), secret.as_str()),
            _ => String::new(),
        };
        self.assemble_headers(values, &recomputed)
    }
}

} // verus!
