use xmpp_start::dns::{
    next_resolve_step, pick_srv_target, tls_mode_for_srv_name, ResolveStep, ResolvedEndpoint,
    SrvTarget, TlsMode,
};

#[test]
fn tls_mode_from_srv_name_direct() {
    let name = "_xmpps-client._tcp.example.com";
    let tls = tls_mode_for_srv_name(name);
    assert!(matches!(tls, TlsMode::Direct));
}

#[test]
fn tls_mode_from_srv_name_starttls() {
    let name = "_xmpp-client._tcp.example.com";
    let tls = tls_mode_for_srv_name(name);
    assert!(matches!(tls, TlsMode::StartTls));
}

#[test]
fn resolved_endpoint_clone() {
    let ep = ResolvedEndpoint {
        host: "xmpp.example.com".to_string(),
        port: 5222,
        tls: TlsMode::StartTls,
    };
    let ep2 = ep.clone();
    assert_eq!(ep2.host, "xmpp.example.com");
    assert_eq!(ep2.port, 5222);
    assert!(matches!(ep2.tls, TlsMode::StartTls));
}

#[test]
fn resolution_tries_direct_tls_then_starttls_then_falls_back() {
    match next_resolve_step("example.com", None, 0) {
        ResolveStep::Lookup { srv_name, tls } => {
            assert_eq!(srv_name, "_xmpps-client._tcp.example.com");
            assert_eq!(tls, TlsMode::Direct);
        }
        other => panic!("unexpected {:?}", other),
    }
    match next_resolve_step("example.com", None, 1) {
        ResolveStep::Lookup { srv_name, tls } => {
            assert_eq!(srv_name, "_xmpp-client._tcp.example.com");
            assert_eq!(tls, TlsMode::StartTls);
        }
        other => panic!("unexpected {:?}", other),
    }
    match next_resolve_step("example.com", None, 2) {
        ResolveStep::Fallback(ep) => {
            assert_eq!(ep.host, "example.com");
            assert_eq!(ep.port, 5222);
            assert_eq!(ep.tls, TlsMode::StartTls);
        }
        other => panic!("unexpected {:?}", other),
    }
}

#[test]
fn manual_srv_is_tried_once() {
    match next_resolve_step("example.com", Some("_xmpps-client._tcp.corp.example.com"), 0) {
        ResolveStep::Lookup { srv_name, tls } => {
            assert_eq!(srv_name, "_xmpps-client._tcp.corp.example.com");
            assert_eq!(tls, TlsMode::Direct);
        }
        other => panic!("unexpected {:?}", other),
    }
    assert!(matches!(
        next_resolve_step("example.com", Some("_xmpp-client._tcp.corp.example.com"), 1),
        ResolveStep::GiveUp
    ));
}

#[test]
fn pick_srv_target_prefers_lowest_priority_first() {
    let records = vec![
        SrvTarget { priority: 10, port: 5223, target: "b.example.com.".into() },
        SrvTarget { priority: 5, port: 5222, target: "a.example.com.".into() },
        SrvTarget { priority: 5, port: 5269, target: "c.example.com".into() },
    ];
    let ep = pick_srv_target(&records, TlsMode::StartTls).unwrap();
    assert_eq!(ep.host, "a.example.com");
    assert_eq!(ep.port, 5222);
    assert_eq!(ep.tls, TlsMode::StartTls);
}

#[test]
fn pick_srv_target_empty_response() {
    assert!(pick_srv_target(&Vec::new(), TlsMode::Direct).is_none());
}

#[test]
fn pick_srv_target_strips_all_trailing_dots() {
    let records = vec![SrvTarget { priority: 0, port: 1, target: "x.org..".into() }];
    assert_eq!(pick_srv_target(&records, TlsMode::Direct).unwrap().host, "x.org");
}
