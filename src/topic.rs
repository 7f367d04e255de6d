//! Choice of the topic that an inbound request belongs to, and the cache key
//! that the topic stands under.
use vstd::prelude::*;
use vstd::string::*;

use crate::env::views;

verus! {

/// Whether `i` is the first position of `topics` whose topic is among `vals`.
pub open spec fn is_first_topic(topics: Seq<Seq<char>>, vals: Seq<Seq<char>>, i: int) -> bool {
    0 <= i < topics.len() && vals.contains(topics[i]) && forall|j: int| 0 <= j < i ==> !vals.contains(#[trigger] topics[j])
}

/// The first configured topic that equals one of the extracted values.
pub open spec fn topic_for(topics: Seq<Seq<char>>, vals: Seq<Seq<char>>) -> Option<Seq<char>> {
    if exists|i: int| is_first_topic(topics, vals, i) {
        Some(topics[choose|i: int| is_first_topic(topics, vals, i)])
    } else {
        None
    }
}

/// Whether `i` is the position of the first `/` in `t`.
pub open spec fn is_first_slash(t: Seq<char>, i: int) -> bool {
    0 <= i < t.len() && t[i] == '/' && forall|j: int| 0 <= j < i ==> t[j] != '/'
}

/// The cache key of a topic: the part before its first `/`, or the whole topic.
pub open spec fn key_of(t: Seq<char>) -> Seq<char> {
    if exists|i: int| is_first_slash(t, i) {
        t.subrange(0, choose|i: int| is_first_slash(t, i))
    } else {
        t
    }
}

/// The cache key for the values extracted from a request, if they name a topic.
pub open spec fn key_for(topics: Seq<Seq<char>>, vals: Seq<Seq<char>>) -> Option<Seq<char>> {
    match topic_for(topics, vals) {
        Some(t) => Some(key_of(t)),
        None => None,
    }
}

/// The position of the first configured topic that equals one of `values`.
pub fn find_topic(topics: &Vec<String>, values: &Vec<String>) -> (r: Option<usize>)
    ensures
        r matches Some(i) ==> is_first_topic(views(topics@), views(values@), i as int),
        r is None ==> topic_for(views(topics@), views(values@)) is None,
{
    let ghost ts = views(topics@);
    let ghost vs = views(values@);
    let mut i: usize = 0;
    while i < topics.len()
        invariant
            i <= topics@.len(),
            ts == views(topics@),
            vs == views(values@),
            forall|j: int| 0 <= j < i ==> !vs.contains(#[trigger] ts[j]),
        decreases topics@.len() - i,
    {
        let mut k: usize = 0;
        while k < values.len()
            invariant
                i < topics@.len(),
                k <= values@.len(),
                ts == views(topics@),
                vs == views(values@),
                forall|j: int| 0 <= j < k ==> vs[j] != ts[i as int],
                forall|j: int| 0 <= j < i ==> !vs.contains(#[trigger] ts[j]),
            decreases values@.len() - k,
        {
            if values[k] == topics[i] {
                assert(vs[k as int] == ts[i as int]);
                assert(vs.contains(ts[i as int]));
                assert(is_first_topic(ts, vs, i as int));
                return Some(i);
            }
            k += 1;
        }
        assert(!vs.contains(ts[i as int]));
        i += 1;
    }
    None
}

/// The cache key of `topic`: the part before its first `/`, or the whole topic.
pub fn cache_key(topic: &String) -> (r: String)
    ensures
        r@ == key_of(topic@),
{
    let t = topic.as_str();
    let n = t.unicode_len();
    let mut i: usize = 0;
    while i < n
        invariant
            i <= n,
            n == t@.len(),
            t@ == topic@,
            forall|j: int| 0 <= j < i ==> t@[j] != '/',
        decreases n - i,
    {
        if t.get_char(i) == '/' {
            proof {
                assert(is_first_slash(topic@, i as int));
                let c = choose|c: int| is_first_slash(topic@, c);
                assert(c == i as int);
            }
            return String::from_str(t.substring_char(0, i));
        }
        i += 1;
    }
    assert(t@.subrange(0, n as int) =~= t@);
    String::from_str(t.substring_char(0, n))
}

/// The name of the file that holds the payload cached under `key`.
pub fn cache_file_name(key: &String) -> (r: String)
    ensures
        r@ == key@ + ".json"@,
{
    let mut r = key.clone();
    r.append(".json");
    r
}

} // verus!
