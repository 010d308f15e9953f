use hdp::config::{Config, ServerConfig, Upstream};
use hdp::diagnostics::Header;
use hdp::forward::{
    build_response, client_status, forwarded_headers, is_encodable, is_host_prefixed, Method,
};
use hdp::handler::{
    on_request, on_upstream_outcome, Completion, ConnectionCounter, Decision, Inbound,
    UpstreamOutcome, UpstreamReply,
};

fn h(name: &str, value: &[u8]) -> Header {
    Header { name: name.to_string(), value: value.to_vec() }
}

fn config(default: Option<&str>) -> Config {
    Config {
        server: ServerConfig {
            host: "0.0.0.0".to_string(),
            port: 80,
            host_v6: None,
            port_v6: None,
            api_key: None,
            ssl_cert: None,
            ssl_key: None,
        },
        upstreams: vec![
            Upstream { name: "A".to_string(), base_url: "http://a:1".to_string() },
            Upstream { name: "B".to_string(), base_url: "http://b:2".to_string() },
        ],
        default_upstream: default.map(|d| d.to_string()),
    }
}

fn inbound(method: Method, path: &str, body: &[u8]) -> Inbound {
    Inbound {
        method,
        path: path.to_string(),
        headers: vec![h("Host", b"proxy"), h("accept", b"*/*")],
        body: body.to_vec(),
    }
}

#[test]
fn method_names() {
    assert!(matches!(Method::from_name(&"GET".to_string()), Method::Get));
    assert!(matches!(Method::from_name(&"DELETE".to_string()), Method::Delete));
    let head = Method::from_name(&"HEAD".to_string());
    assert!(!head.is_supported());
    assert_eq!(head.name(), "HEAD");
    assert_eq!(Method::Patch.name(), "PATCH");
}

#[test]
fn host_prefix_any_case() {
    assert!(is_host_prefixed("Host"));
    assert!(is_host_prefixed("hostname"));
    assert!(is_host_prefixed("HOST-x"));
    assert!(!is_host_prefixed("x-host"));
    assert!(!is_host_prefixed("hos"));
}

#[test]
fn forwarding_drops_host_and_bad_values() {
    let hs = vec![h("Host", b"p"), h("a", b"1"), h("hostile", b"2"), h("b", b"x\ny"), h("c", b"3")];
    let out = forwarded_headers(&hs);
    let names: Vec<&str> = out.iter().map(|x| x.name.as_str()).collect();
    assert_eq!(names, vec!["a", "c"]);
}

#[test]
fn encodable_headers() {
    assert!(is_encodable(&h("x-id", b"a\tb")));
    assert!(!is_encodable(&h("", b"a")));
    assert!(!is_encodable(&h("bad name", b"a")));
    assert!(!is_encodable(&h("x", b"\x7f")));
}

#[test]
fn status_codes() {
    assert_eq!(client_status(404), 404);
    assert_eq!(client_status(42), 500);
    assert_eq!(client_status(1000), 500);
}

#[test]
fn response_rebuilt() {
    let r = build_response(201, &vec![h("a", b"1"), h("b", b"\r")], b"body".to_vec());
    assert_eq!(r.status, 201);
    assert_eq!(r.headers.len(), 1);
    assert_eq!(r.body, b"body".to_vec());
}

#[test]
fn unknown_upstream_is_404() {
    match on_request(&config(None), 3, inbound(Method::Get, "zzz/q", b"")) {
        Decision::Reject(rej) => {
            assert_eq!(rej.response.status, 404);
            assert_eq!(rej.response.body, b"Upstream not found".to_vec());
            assert_eq!(
                rej.log,
                "[N/A] Request 3\n\n-> GET /zzz/q\n----------------------------------------\nRequest headers: \"Host: proxy\", \"accept: */*\"\n----------------------------------------\nRequest data: None\n========================================\nUpstream not found\n"
            );
        }
        Decision::Forward(_) => panic!("forwarded"),
    }
}

#[test]
fn head_is_500_without_forwarding() {
    let head = Method::Other("HEAD".to_string());
    match on_request(&config(Some("A")), 1, inbound(head, "B/x", b"")) {
        Decision::Reject(rej) => {
            assert_eq!(rej.response.status, 500);
            assert_eq!(rej.response.body, b"Method HEAD is not supported".to_vec());
            assert!(rej.log.ends_with("Method HEAD is not supported\n"));
        }
        Decision::Forward(_) => panic!("forwarded"),
    }
}

#[test]
fn supported_request_is_forwarded() {
    match on_request(&config(Some("A")), 12, inbound(Method::Post, "B/x/y", b"{\"k\":true}")) {
        Decision::Forward(f) => {
            assert_eq!(f.upstream, "B");
            assert_eq!(f.request.url, "http://b:2/x/y");
            assert!(matches!(f.request.method, Method::Post));
            assert_eq!(f.request.headers.len(), 1);
            assert_eq!(f.request.headers[0].name, "accept");
            assert_eq!(f.request.body, b"{\"k\":true}".to_vec());
            assert_eq!(f.record.id, 12);
            assert_eq!(f.record.path, "/x/y");
            assert_eq!(f.record.data, "JSON:\n{\n  \"k\": true\n}");
        }
        Decision::Reject(_) => panic!("rejected"),
    }
}

#[test]
fn transport_failure_is_empty_500() {
    let f = match on_request(&config(Some("A")), 7, inbound(Method::Get, "", b"")) {
        Decision::Forward(f) => f,
        Decision::Reject(_) => panic!("rejected"),
    };
    match on_upstream_outcome(f, UpstreamOutcome::Failed("connection refused".to_string())) {
        Completion::Failed(rej) => {
            assert_eq!(rej.response.status, 500);
            assert!(rej.response.body.is_empty());
            assert!(rej.log.starts_with("[N/A] Request 7\n"));
            assert!(rej.log.ends_with("Error proxying to upstream: connection refused\n"));
        }
        Completion::Served { .. } => panic!("served"),
    }
}

#[test]
fn upstream_reply_is_relayed() {
    let f = match on_request(&config(Some("A")), 2, inbound(Method::Get, "A", b"")) {
        Decision::Forward(f) => f,
        Decision::Reject(_) => panic!("rejected"),
    };
    let reply = UpstreamReply {
        status: 203,
        url: "http://a:1/".to_string(),
        headers: vec![h("z", b"1"), h("content-type", b"text/plain")],
        body: b"ok".to_vec(),
    };
    match on_upstream_outcome(f, UpstreamOutcome::Reply(reply)) {
        Completion::Served { response, exchange } => {
            assert_eq!(response.status, 203);
            assert_eq!(response.body, b"ok".to_vec());
            assert_eq!(response.headers.len(), 2);
            assert_eq!(exchange.url, "http://a:1/");
            assert_eq!(exchange.response_headers, "\"content-type: text/plain\", \"z: 1\"");
            assert_eq!(exchange.response_data, "UTF-8 string: ok");
        }
        Completion::Failed(_) => panic!("failed"),
    }
}

#[test]
fn ids_count_up_by_one() {
    let mut c = ConnectionCounter::new();
    assert_eq!(c.next_id(), 1);
    assert_eq!(c.next_id(), 2);
    assert_eq!(c.next_id(), 3);
}

#[test]
fn ids_wrap_at_the_top() {
    let mut c = ConnectionCounter { last: usize::MAX };
    assert_eq!(c.next_id(), 0);
}
