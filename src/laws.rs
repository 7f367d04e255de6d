//! Properties that hold across the relay's functions.
use vstd::prelude::*;

use crate::env::views;
use crate::forward::{is_outbound, replay_body};
use crate::headers::{pairs, present_values, rebuilt, request_names, required_names, signature_header};
use crate::relay::{Relay, ResolvedHeader};
use crate::topic::{key_for, topic_for};

verus! {

proof fn lemma_fixed_headers(hs: Seq<ResolvedHeader>, vals1: Seq<Seq<char>>, vals2: Seq<Seq<char>>)
    requires
        forall|i: int| 0 <= i < hs.len() ==> (#[trigger] hs[i]).source is Fixed,
    ensures
        request_names(hs) == Seq::<Seq<char>>::empty(),
        rebuilt(hs, vals1) == rebuilt(hs, vals2),
    decreases hs.len(),
{
    if hs.len() > 0 {
        assert(hs.last().source is Fixed);
        lemma_fixed_headers(hs.drop_last(), vals1, vals2);
    }
}

/// Where no header mapping takes its value from the request, no header value is
/// extracted for the mappings, the rebuilt headers are the same whatever values
/// were extracted, and without a signature header nothing at all is required of
/// the request, so the rebuild succeeds on the empty extraction.
pub proof fn static_mappings_read_no_values(r: &Relay, vals1: Seq<Seq<char>>, vals2: Seq<Seq<char>>)
    requires
        forall|i: int| 0 <= i < r.headers@.len() ==> (#[trigger] r.headers@[i]).source is Fixed,
    ensures
        request_names(r.headers@) == Seq::<Seq<char>>::empty(),
        rebuilt(r.headers@, vals1) == rebuilt(r.headers@, vals2),
        r.signature is Absent ==> required_names(r) == Seq::<Seq<char>>::empty(),
{
    lemma_fixed_headers(r.headers@, vals1, vals2);
    if r.signature is Absent {
        assert(required_names(r) =~= Seq::<Seq<char>>::empty());
    }
}

/// A request that carries every required header yields exactly one value per
/// request-sourced mapping, plus one where a signature header is required: the
/// count that the rebuild accepts.
pub proof fn extracted_values_align(r: &Relay, found: Seq<Option<String>>)
    requires
        found.len() == required_names(r).len(),
        forall|i: int| 0 <= i < found.len() ==> (#[trigger] found[i]) is Some,
    ensures
        present_values(found).len() == request_names(r.headers@).len() + if signature_header(r.signature) is Some {
            1int
        } else {
            0int
        },
        present_values(found).len() == required_names(r).len(),
{
}

/// A replay that carries the same required headers as an intercepted call, and
/// finds under the selected key the body that the intercept cached, forwards that
/// body, with the same URL and headers as the intercept.
pub proof fn replay_forwards_intercepted_body(
    r: &Relay,
    found: Seq<Option<String>>,
    body: Seq<u8>,
    intercepted: crate::forward::Outbound,
    replayed: crate::forward::Outbound,
)
    requires
        key_for(views(r.topics@), present_values(found)) is Some,
        is_outbound(r, present_values(found), body, intercepted),
        is_outbound(r, present_values(found), body, replayed),
    ensures
        replay_body(key_for(views(r.topics@), present_values(found)), Some(body)) == Some(body),
        replayed.body@ == body,
        replayed.url@ == intercepted.url@,
        pairs(replayed.headers@) == pairs(intercepted.headers@),
{
}

/// A request whose values name no configured topic selects no cache key, so its
/// body is not cached, and its values still line up with the header mappings, so it
/// is forwarded.
pub proof fn unknown_topic_is_forwarded_uncached(r: &Relay, found: Seq<Option<String>>)
    requires
        found.len() == required_names(r).len(),
        topic_for(views(r.topics@), present_values(found)) is None,
    ensures
        key_for(views(r.topics@), present_values(found)) is None,
        present_values(found).len() == required_names(r).len(),
{
}

} // verus!
