use interceder::config::{ConfigError, HeaderMapping, HeaderSource, Manifest, Rehash, Server, Webhook};
use interceder::forward::Outbound;
use interceder::headers::OutboundHeader;
use interceder::relay::{Relay, RelayError, ResolvedSource, SignatureRule};
use interceder::sign::sign;
use interceder::topic::{cache_file_name, cache_key};

fn s(v: &str) -> String {
    v.to_string()
}

fn strings(v: &[&str]) -> Vec<String> {
    v.iter().map(|x| x.to_string()).collect()
}

fn row(name: &str, source: &str) -> HeaderMapping {
    HeaderMapping::from_row(&strings(&[name, source])).ok().unwrap()
}

fn manifest(headers: Vec<HeaderMapping>, hash: bool, rehash: bool) -> Manifest {
    Manifest {
        server: Server { address: s("127.0.0.1"), port: s("8080"), env: strings(&["ORG_ID_ENV"]) },
        webhook: Webhook {
            url: s("https://hooks.example.com/in"),
            params: strings(&["ORG_ID_ENV", "ROUTE_ENV"]),
            topics: strings(&["orders/updated", "users/created"]),
            headers,
            hash: interceder::config::Hash { is_required: hash, header: s("X-Signature") },
            rehash: Rehash { is_required: rehash, secret: s("SIGNING_SECRET") },
        },
    }
}

fn env() -> Vec<(String, String)> {
    vec![
        (s("ORG_ID_ENV"), s("org-42")),
        (s("ROUTE_ENV"), s("relay")),
        (s("SIGNING_SECRET"), s("secret")),
        (s("ORG_ID_ENV"), s("shadowed")),
    ]
}

fn scenario_headers() -> Vec<HeaderMapping> {
    vec![row("X-Key", "from request"), row("X-Org", "ORG_ID_ENV"), row("X-Topic", "from request")]
}

fn relay(hash: bool, rehash: bool) -> Relay {
    Relay::new(&manifest(scenario_headers(), hash, rehash), &env()).ok().unwrap()
}

fn found(v: &[Option<&str>]) -> Vec<Option<String>> {
    v.iter().map(|x| x.map(|y| y.to_string())).collect()
}

fn header_pairs(o: &Outbound) -> Vec<(String, String)> {
    o.headers.iter().map(|h: &OutboundHeader| (h.name.clone(), h.value.clone())).collect()
}

fn missing_name(r: Result<Relay, ConfigError>) -> String {
    match r {
        Err(ConfigError::MissingEnv(n)) => n,
        _ => panic!("expected a missing variable"),
    }
}

#[test]
fn test_init() {
    let r = relay(false, false);
    assert_eq!(r.target, "https://hooks.example.com/in/org-42/relay");
    assert_eq!(r.topics, strings(&["orders/updated", "users/created"]));
    assert_eq!(r.headers.len(), 3);
    assert!(matches!(r.headers[0].source, ResolvedSource::FromRequest));
    match &r.headers[1].source {
        ResolvedSource::Fixed(v) => assert_eq!(v, "org-42"),
        ResolvedSource::FromRequest => panic!("expected a fixed value"),
    }
    assert!(matches!(r.signature, SignatureRule::Absent));
}

#[test]
fn test_get_headers() {
    let r = relay(true, false);
    assert_eq!(r.required_header_names(), strings(&["X-Key", "X-Topic", "X-Signature"]));
    let v = r.extract_values(&found(&[Some("abc123"), Some("orders/updated"), Some("sig")])).ok().unwrap();
    assert_eq!(v, strings(&["abc123", "orders/updated", "sig"]));
}

#[test]
fn test_rehash() {
    assert_eq!(sign(b"{\"a\":1}", "secret"), "qp4uNXX11wmLbKzNeQiIw21f22M0KnO62i1qUXR6hJQ=");
    assert_eq!(sign(b"", ""), "thNnmggU2ex3L5XXeMNfxf8Wl8STcVZTxscSFEKSxa0=");
    assert_eq!(sign(b"hello", "key"), "kwezuRXvtRcf8U2MtV+8x5jGwO8UVtZt7RpqpyOli3s=");
}

#[test]
fn sign_twice_gives_same_signature() {
    let body = b"{\"event\":\"ping\"}";
    assert_eq!(sign(body, "k"), sign(body, "k"));
    assert_eq!(sign(body, "k").len(), 44);
}

#[test]
fn from_row_reads_sources() {
    let m = row("X-Key", "from request");
    assert_eq!(m.name, "X-Key");
    assert!(matches!(m.source, HeaderSource::FromRequest));
    match row("X-Org", "ORG_ID_ENV").source {
        HeaderSource::Env(n) => assert_eq!(n, "ORG_ID_ENV"),
        HeaderSource::FromRequest => panic!("expected an environment source"),
    }
}

#[test]
fn from_row_rejects_malformed_rows() {
    assert!(matches!(HeaderMapping::from_row(&strings(&["X-Key"])), Err(ConfigError::MalformedHeader(1))));
    assert!(matches!(HeaderMapping::from_row(&strings(&["a", "b", "c"])), Err(ConfigError::MalformedHeader(3))));
}

#[test]
fn bind_address_joins_address_and_port() {
    assert_eq!(manifest(vec![], false, false).server.bind_address(), "127.0.0.1:8080");
}

#[test]
fn new_reports_first_missing_variable() {
    let m = manifest(scenario_headers(), true, true);
    let only_org = vec![(s("ORG_ID_ENV"), s("x"))];
    assert_eq!(missing_name(Relay::new(&m, &vec![])), "ORG_ID_ENV");
    assert_eq!(missing_name(Relay::new(&m, &only_org)), "ROUTE_ENV");
    let no_secret = vec![(s("ORG_ID_ENV"), s("x")), (s("ROUTE_ENV"), s("y"))];
    assert_eq!(missing_name(Relay::new(&m, &no_secret)), "SIGNING_SECRET");
    let mut m2 = manifest(vec![row("X-Team", "TEAM_ENV")], false, false);
    m2.webhook.rehash.is_required = false;
    assert_eq!(missing_name(Relay::new(&m2, &no_secret)), "TEAM_ENV");
    assert!(Relay::new(&manifest(vec![], false, false), &no_secret).is_ok());
}

#[test]
fn new_resolves_signature_rule() {
    match relay(true, false).signature {
        SignatureRule::Passthrough { header } => assert_eq!(header, "X-Signature"),
        _ => panic!("expected passthrough"),
    }
    match relay(true, true).signature {
        SignatureRule::Recompute { header, secret } => {
            assert_eq!(header, "X-Signature");
            assert_eq!(secret, "secret");
        },
        _ => panic!("expected recompute"),
    }
}

#[test]
fn cache_key_is_part_before_first_slash() {
    assert_eq!(cache_key(&s("orders/updated")), "orders");
    assert_eq!(cache_key(&s("a/b/c")), "a");
    assert_eq!(cache_key(&s("plain")), "plain");
    assert_eq!(cache_key(&s("/lead")), "");
    assert_eq!(cache_key(&s("")), "");
    assert_eq!(cache_file_name(&s("orders")), "orders.json");
}

#[test]
fn missing_header_is_reported() {
    let r = relay(true, false);
    match r.lookup(&found(&[Some("abc123"), None, None])) {
        Err(RelayError::MissingHeader(n)) => assert_eq!(n, "X-Topic"),
        _ => panic!("expected a missing header"),
    }
    match r.lookup(&found(&[Some("abc123"), Some("orders/updated"), None])) {
        Err(RelayError::MissingHeader(n)) => assert_eq!(n, "X-Signature"),
        _ => panic!("expected a missing header"),
    }
}

#[test]
fn misaligned_values_are_rejected() {
    let r = relay(false, false);
    match r.rebuild_headers(&strings(&["only"]), &vec![]) {
        Err(RelayError::HeaderAlignment { expected, found }) => {
            assert_eq!(expected, 2);
            assert_eq!(found, 1);
        },
        _ => panic!("expected an alignment error"),
    }
    assert!(r.rebuild_headers(&strings(&["a", "b", "c"]), &vec![]).is_err());
}

#[test]
fn static_mappings_need_no_values() {
    let m = manifest(vec![row("X-Org", "ORG_ID_ENV")], false, false);
    let r = Relay::new(&m, &env()).ok().unwrap();
    assert!(r.required_header_names().is_empty());
    let h = r.rebuild_headers(&vec![], &b"x".to_vec()).ok().unwrap();
    assert_eq!(h.len(), 1);
    assert_eq!(h[0].name, "X-Org");
    assert_eq!(h[0].value, "org-42");
}

#[test]
fn passthrough_forwards_inbound_signature() {
    let r = relay(true, false);
    let h = r.rebuild_headers(&strings(&["k", "t", "inbound-sig"]), &b"body".to_vec()).ok().unwrap();
    assert_eq!(h[3].name, "X-Signature");
    assert_eq!(h[3].value, "inbound-sig");
}

#[test]
fn recompute_replaces_inbound_signature() {
    let r = relay(true, true);
    let h = r.rebuild_headers(&strings(&["k", "t", "inbound-sig"]), &b"{\"a\":1}".to_vec()).ok().unwrap();
    assert_eq!(h.len(), 4);
    assert_eq!(h[3].name, "X-Signature");
    assert_eq!(h[3].value, "qp4uNXX11wmLbKzNeQiIw21f22M0KnO62i1qUXR6hJQ=");
}

#[test]
fn first_configured_topic_wins() {
    let r = relay(false, false);
    let l = r.lookup(&found(&[Some("users/created"), Some("orders/updated")])).ok().unwrap();
    assert_eq!(l.cache_key, Some(s("orders")));
}

#[test]
fn unknown_topic_is_forwarded_without_key() {
    let r = relay(false, false);
    let l = r.lookup(&found(&[Some("abc"), Some("billing/paid")])).ok().unwrap();
    assert_eq!(l.cache_key, None);
    let o = r.outbound(&l.values, b"{}".to_vec()).ok().unwrap();
    assert_eq!(o.body, b"{}".to_vec());
    assert_eq!(o.url, "https://hooks.example.com/in/org-42/relay");
}

#[test]
fn replay_without_cached_payload_is_not_found() {
    let r = relay(false, false);
    let l = r.lookup(&found(&[Some("abc"), Some("orders/updated")])).ok().unwrap();
    match r.forward_cached(&l, None) {
        Err(RelayError::NotFound(k)) => assert_eq!(k, "orders"),
        _ => panic!("expected not found"),
    }
}

#[test]
fn replay_of_unknown_topic_sends_empty_body() {
    let r = relay(false, false);
    let l = r.lookup(&found(&[Some("abc"), Some("nothing")])).ok().unwrap();
    let o = r.forward_cached(&l, None).ok().unwrap();
    assert!(o.body.is_empty());
}

#[test]
fn replay_forwards_cached_body_like_intercept() {
    let r = relay(true, true);
    let f = found(&[Some("abc"), Some("orders/updated"), Some("sig")]);
    let body = b"{\"a\":1}".to_vec();
    let l = r.lookup(&f).ok().unwrap();
    let sent = r.outbound(&l.values, body.clone()).ok().unwrap();
    let again = r.lookup(&f).ok().unwrap();
    let replayed = r.forward_cached(&again, Some(body.clone())).ok().unwrap();
    assert_eq!(replayed.body, body);
    assert_eq!(replayed.url, sent.url);
    assert_eq!(header_pairs(&replayed), header_pairs(&sent));
}

#[test]
fn scenario_key_org_and_topic() {
    let r = relay(false, false);
    let body = b"{\"a\":1}".to_vec();
    let l = r.lookup(&found(&[Some("abc123"), Some("orders/updated")])).ok().unwrap();
    let key = l.cache_key.clone().unwrap();
    assert_eq!(cache_file_name(&key), "orders.json");
    let o = r.outbound(&l.values, body.clone()).ok().unwrap();
    assert_eq!(o.body, body);
    assert_eq!(
        header_pairs(&o),
        vec![
            (s("accept"), s("application/json")),
            (s("content-type"), s("application/json")),
            (s("X-Key"), s("abc123")),
            (s("X-Org"), s("org-42")),
            (s("X-Topic"), s("orders/updated")),
        ]
    );
}
