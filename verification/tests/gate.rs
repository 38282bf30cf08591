use agimo::config::{Config, Service, ServiceType, parse_service_type, DEFAULT_TIMEOUT_MS};
use agimo::interceptor::{Context, Error, Interceptor, PollDecision, deadline_error, poll_decision,
    status_code, POLL_INTERVAL_MS};
use agimo::metrics::MetricsRegistry;
use agimo::queryer::{build_query, interpret_response, parse_ready_count};
use agimo::queryer::Error as QueryError;
use agimo::text::{str_eq, u16_to_string};

fn route(host: &str, ty: ServiceType, ns: &str, name: &str, svc: &str, port: u16,
         timeout: Option<u64>) -> Service {
    Service {
        host: host.to_string(),
        ty,
        namespace: ns.to_string(),
        name: name.to_string(),
        service_name: svc.to_string(),
        service_port: port,
        timeout,
    }
}

fn table() -> Config {
    Config {
        services: vec![
            route("a.example.com", ServiceType::Deployment, "ns-a", "app-a", "svc-a", 8080, None),
            route("b.example.com", ServiceType::Statefulset, "ns-b", "app-b", "svc-b", 9000,
                Some(5000)),
        ],
        timeout: DEFAULT_TIMEOUT_MS,
    }
}

#[test]
fn unknown_host_rejected_not_found_404() {
    let mut gate = Interceptor::new(table());
    let mut ctx = gate.new_ctx();
    let host = String::from("missing.example.com");
    let r = gate.request_filter(Some(&host), &mut ctx);
    match r {
        Err(Error::ServiceNotFound { host: h }) => {
            assert_eq!(h, "missing.example.com");
            assert_eq!(status_code(&Error::ServiceNotFound { host: h }), 404);
        }
        other => panic!("expected ServiceNotFound, got {:?}", status_of_dbg(&other)),
    }
    assert!(ctx.service.is_none());
    assert_eq!(gate.metrics.get_total("missing.example.com"), 0);
    assert_eq!(gate.metrics.get_active("missing.example.com"), 0);
}

fn status_of_dbg(r: &Result<u64, Error>) -> u16 {
    match r {
        Ok(_) => 0,
        Err(e) => status_code(e),
    }
}

#[test]
fn missing_host_header_rejected_400() {
    let mut gate = Interceptor::new(table());
    let mut ctx = gate.new_ctx();
    let r = gate.request_filter(None, &mut ctx);
    match r {
        Err(Error::HostInvalid) => {
            assert_eq!(status_code(&Error::HostInvalid), 400);
        }
        _ => panic!("expected HostInvalid"),
    }
    assert!(ctx.service.is_none());
    assert!(!ctx.active);
}

#[test]
fn resolved_host_counts_and_returns_timeout() {
    let mut gate = Interceptor::new(table());
    let mut ctx = gate.new_ctx();
    let host = String::from("a.example.com");
    let r = gate.request_filter(Some(&host), &mut ctx);
    assert_eq!(r.unwrap(), DEFAULT_TIMEOUT_MS);
    assert_eq!(gate.metrics.get_total("a.example.com"), 1);
    assert_eq!(gate.metrics.get_active("a.example.com"), 0);
    let svc = ctx.service.as_ref().unwrap();
    assert_eq!(svc.host, "a.example.com");
    assert_eq!(svc.namespace, "ns-a");
    assert!(!ctx.active);
}

#[test]
fn per_route_timeout_overrides_global_default_for_that_route_only() {
    let cfg = table();
    assert_eq!(cfg.effective_timeout(0), DEFAULT_TIMEOUT_MS);
    assert_eq!(cfg.effective_timeout(1), 5000);
    let mut gate = Interceptor::new(table());
    let mut ctx = gate.new_ctx();
    let host = String::from("b.example.com");
    assert_eq!(gate.request_filter(Some(&host), &mut ctx).unwrap(), 5000);
}

#[test]
fn positive_reading_admits_at_once() {
    match poll_decision(Ok(3)) {
        PollDecision::Admit(n) => assert_eq!(n, 3),
        _ => panic!("expected admission"),
    }
}

#[test]
fn zero_reading_means_retry_after_interval() {
    assert!(matches!(poll_decision(Ok(0)), PollDecision::Retry));
    assert_eq!(POLL_INTERVAL_MS, 1000);
}

#[test]
fn oracle_failure_aborts_the_wait() {
    let d = poll_decision(Err(QueryError::MetricInvalid));
    match d {
        PollDecision::Abort(QueryError::MetricInvalid) => {}
        _ => panic!("expected abort with the oracle failure"),
    }
    assert_eq!(status_code(&Error::QueryError(QueryError::MetricInvalid)), 500);
}

#[test]
fn deadline_rejection_is_service_not_ready_503() {
    let e = deadline_error("a.example.com");
    match &e {
        Error::ServiceNotReady { host, reason } => {
            assert_eq!(host.as_str(), "a.example.com");
            assert_eq!(reason.as_str(), "timeout");
        }
        _ => panic!("expected ServiceNotReady"),
    }
    assert_eq!(status_code(&e), 503);
}

#[test]
fn backend_address_is_service_dot_namespace_colon_port() {
    let gate = Interceptor::new(table());
    let ctx = Context {
        service: Some(route("h", ServiceType::Deployment, "ns", "app", "svc", 80, None)),
        active: false,
    };
    assert_eq!(gate.upstream_peer(&ctx).unwrap(), "svc.ns:80");
}

#[test]
fn peer_resolution_without_route_is_internal_not_found() {
    let gate = Interceptor::new(table());
    let ctx = gate.new_ctx();
    match gate.upstream_peer(&ctx) {
        Err(Error::ServiceNotFound { host }) => assert_eq!(host, ""),
        _ => panic!("expected ServiceNotFound with empty host"),
    }
}

#[test]
fn query_for_deployment_selects_deployment_metric() {
    let q = build_query(&ServiceType::Deployment, "ns", "name");
    assert_eq!(q, "kube_deployment_status_replicas_ready{namespace=\"ns\",deployment=\"name\"}");
}

#[test]
fn query_for_statefulset_selects_statefulset_metric() {
    let q = build_query(&ServiceType::Statefulset, "ns", "name");
    assert_eq!(q, "kube_statefulset_status_replicas_ready{namespace=\"ns\",statefulset=\"name\"}");
}

#[test]
fn well_formed_oracle_reply_reads_the_ready_count() {
    let body = String::from("{\"data\":{\"result\":[{\"value\":[1700000000.123,\"3\"]}]}}");
    assert_eq!(interpret_response(200, body).unwrap(), 3);
}

#[test]
fn reply_missing_data_result_is_metric_invalid() {
    let body = String::from("{\"data\":{}}");
    match interpret_response(200, body) {
        Err(QueryError::MetricInvalid) => {}
        _ => panic!("expected MetricInvalid"),
    }
}

#[test]
fn reply_that_is_not_json_is_metric_invalid() {
    let body = String::from("not json at all");
    assert!(matches!(interpret_response(200, body), Err(QueryError::MetricInvalid)));
}

#[test]
fn reply_with_non_numeric_sample_is_metric_invalid() {
    let body = String::from("{\"data\":{\"result\":[{\"value\":[0,\"many\"]}]}}");
    assert!(matches!(interpret_response(200, body), Err(QueryError::MetricInvalid)));
}

#[test]
fn non_200_reply_is_http_error_with_code_and_body() {
    let body = String::from("overloaded");
    match interpret_response(502, body) {
        Err(QueryError::HTTPError { code, msg }) => {
            assert_eq!(code, 502);
            assert_eq!(msg, "overloaded");
        }
        _ => panic!("expected HTTPError"),
    }
}

#[test]
fn ready_count_parsing_is_digits_only_within_u64() {
    assert_eq!(parse_ready_count("0"), Some(0));
    assert_eq!(parse_ready_count("007"), Some(7));
    assert_eq!(parse_ready_count("18446744073709551615"), Some(u64::MAX));
    assert_eq!(parse_ready_count("18446744073709551616"), None);
    assert_eq!(parse_ready_count(""), None);
    assert_eq!(parse_ready_count("1.5"), None);
    assert_eq!(parse_ready_count("-1"), None);
    assert_eq!(parse_ready_count("+1"), None);
}

#[test]
fn gauges_return_to_baseline_after_mixed_requests() {
    let mut gate = Interceptor::new(table());
    let host_a = String::from("a.example.com");
    let host_b = String::from("b.example.com");
    let host_x = String::from("missing.example.com");

    // Admitted request to a.
    let mut c1 = gate.new_ctx();
    gate.request_filter(Some(&host_a), &mut c1).unwrap();
    gate.grant_admission(&mut c1);
    assert_eq!(gate.metrics.get_active("a.example.com"), 1);

    // Timed-out request to b: resolved, never admitted.
    let mut c2 = gate.new_ctx();
    gate.request_filter(Some(&host_b), &mut c2).unwrap();

    // Rejected request to an unknown host: no resolution.
    let mut c3 = gate.new_ctx();
    assert!(gate.request_filter(Some(&host_x), &mut c3).is_err());

    // Second admitted request to a, concurrent with the first.
    let mut c4 = gate.new_ctx();
    gate.request_filter(Some(&host_a), &mut c4).unwrap();
    gate.grant_admission(&mut c4);
    assert_eq!(gate.metrics.get_active("a.example.com"), 2);

    // Every request completes, whatever its outcome.
    gate.logging(&mut c1);
    gate.logging(&mut c2);
    gate.logging(&mut c3);
    gate.logging(&mut c4);

    assert_eq!(gate.metrics.get_active("a.example.com"), 0);
    assert_eq!(gate.metrics.get_active("b.example.com"), 0);
    assert_eq!(gate.metrics.get_total("a.example.com"), 2);
    assert_eq!(gate.metrics.get_total("b.example.com"), 1);
    assert_eq!(gate.metrics.get_total("missing.example.com"), 0);
}

#[test]
fn completion_is_idempotent_once_cleared() {
    let mut gate = Interceptor::new(table());
    let host = String::from("a.example.com");
    let mut ctx = gate.new_ctx();
    gate.request_filter(Some(&host), &mut ctx).unwrap();
    gate.grant_admission(&mut ctx);
    gate.logging(&mut ctx);
    gate.logging(&mut ctx);
    assert_eq!(gate.metrics.get_active("a.example.com"), 0);
}

#[test]
fn duplicate_hosts_resolve_to_first_declared_entry() {
    let cfg = Config {
        services: vec![
            route("dup.example.com", ServiceType::Deployment, "ns-1", "one", "svc-1", 1111, None),
            route("dup.example.com", ServiceType::Statefulset, "ns-2", "two", "svc-2", 2222, None),
        ],
        timeout: DEFAULT_TIMEOUT_MS,
    };
    for _ in 0..3 {
        assert_eq!(cfg.lookup("dup.example.com"), Some(0));
    }
}

#[test]
fn lookup_is_exact_and_case_sensitive() {
    let cfg = table();
    assert_eq!(cfg.lookup("a.example.com"), Some(0));
    assert_eq!(cfg.lookup("b.example.com"), Some(1));
    assert_eq!(cfg.lookup("A.example.com"), None);
    assert_eq!(cfg.lookup("a.example.co"), None);
    assert_eq!(cfg.lookup(""), None);
}

#[test]
fn service_type_text_forms() {
    assert_eq!(parse_service_type("deployment"), Some(ServiceType::Deployment));
    assert_eq!(parse_service_type("deploy"), Some(ServiceType::Deployment));
    assert_eq!(parse_service_type("statefulset"), Some(ServiceType::Statefulset));
    assert_eq!(parse_service_type("sts"), Some(ServiceType::Statefulset));
    assert_eq!(parse_service_type("Deployment"), None);
    assert_eq!(parse_service_type(""), None);
}

#[test]
fn registry_counts_per_host() {
    let mut m = MetricsRegistry::new();
    m.inc_total("h1");
    m.inc_total("h1");
    m.inc_total("h2");
    m.inc_active("h1");
    assert_eq!(m.get_total("h1"), 2);
    assert_eq!(m.get_total("h2"), 1);
    assert_eq!(m.get_total("h3"), 0);
    assert_eq!(m.get_active("h1"), 1);
    m.dec_active("h1");
    assert_eq!(m.get_active("h1"), 0);
    m.dec_active("h1");
    assert_eq!(m.get_active("h1"), 0);
    m.dec_active("never-seen");
    assert_eq!(m.get_active("never-seen"), 0);
}

#[test]
fn text_helpers() {
    assert!(str_eq("host.example.com", "host.example.com"));
    assert!(!str_eq("host.example.com", "host.example.co"));
    assert!(!str_eq("", "a"));
    assert_eq!(u16_to_string(0), "0");
    assert_eq!(u16_to_string(80), "80");
    assert_eq!(u16_to_string(65535), "65535");
}

#[test]
fn rejections_read_as_text() {
    let e = Error::ServiceNotFound { host: "a.example.com".to_string() };
    assert_eq!(e.describe(), "Service not found: a.example.com");
    assert_eq!(Error::HostInvalid.describe(), "Host header invalid");
    let e = Error::ServiceNotReady {
        host: "a.example.com".to_string(),
        reason: "timeout".to_string(),
    };
    assert_eq!(e.describe(), "Service a.example.com not ready: timeout");
    let e = Error::QueryError(QueryError::HTTPError {
        code: 502,
        msg: "overloaded".to_string(),
    });
    assert_eq!(e.describe(), "Query error: Query fail: 502 overloaded");
    assert_eq!(QueryError::MetricInvalid.describe(), "Metric invalid");
    let e = QueryError::QueryError { msg: "connection refused".to_string() };
    assert_eq!(e.describe(), "Query fail: connection refused");
}
