use base64::prelude::BASE64_STANDARD;
use base64::Engine;
use tiny_proxy::respond::{response_200, response_400, response_407, response_500};
use tiny_proxy::route::{
    connect_failure_response, framing_failure_response, route_request, Route,
};
use tiny_proxy::{Error, User};

fn no_users() -> Vec<User> {
    Vec::new()
}

fn dima() -> Vec<User> {
    vec![User { login: String::from("dima"), pass: String::from("qwe123") }]
}

#[test]
fn connect_routes_to_tunnel_with_port_443() {
    let head = b"CONNECT example.com HTTP/1.1\r\n\r\n";
    match route_request(&no_users(), head, b"") {
        Route::Tunnel { host, port } => {
            assert_eq!(host, b"example.com".to_vec());
            assert_eq!(port, b"443".to_vec());
        }
        _ => panic!("expected tunnel"),
    }
}

#[test]
fn connect_keeps_explicit_port() {
    let head = b"CONNECT example.com:8443 HTTP/1.1\r\n\r\n";
    match route_request(&no_users(), head, b"") {
        Route::Tunnel { host, port } => {
            assert_eq!(host, b"example.com".to_vec());
            assert_eq!(port, b"8443".to_vec());
        }
        _ => panic!("expected tunnel"),
    }
}

#[test]
fn tunnel_acknowledgement_is_the_literal_status_line() {
    assert_eq!(response_200(), b"HTTP/1.1 200 Connection established\r\n\r\n".to_vec());
    assert_eq!(response_400(), b"HTTP/1.1 400 Bad Request\r\n\r\n".to_vec());
    assert_eq!(response_500(), b"HTTP/1.1 500 Internal\r\n\r\n".to_vec());
    assert_eq!(
        response_407(),
        b"HTTP/1.1 407 Proxy Authentication Required\r\nProxy-Authenticate: Basic\r\n\r\n".to_vec()
    );
}

#[test]
fn missing_host_header_rejects_with_400() {
    let head = b"GET /x HTTP/1.1\r\nAccept: */*\r\n\r\n";
    match route_request(&no_users(), head, b"") {
        Route::Reject { response, error } => {
            assert_eq!(response.unwrap(), b"HTTP/1.1 400 Bad Request\r\n\r\n".to_vec());
            assert_eq!(error, Error::NotFoundHeaderHost);
        }
        _ => panic!("expected rejection"),
    }
}

#[test]
fn forwarded_request_strips_proxy_authorization() {
    let cred = format!("Basic {}", BASE64_STANDARD.encode("dima:qwe123"));
    let head = format!(
        "GET /x HTTP/1.1\r\nHost: example.com\r\nProxy-Authorization: {cred}\r\nAccept: */*\r\n\r\n"
    );
    match route_request(&dima(), head.as_bytes(), b"") {
        Route::Forward { host, port, payload } => {
            assert_eq!(host, b"example.com".to_vec());
            assert_eq!(port, b"80".to_vec());
            assert_eq!(
                payload,
                b"GET /x HTTP/1.1\r\nHost: example.com\r\nAccept: */*\r\n\r\n".to_vec()
            );
        }
        _ => panic!("expected forward"),
    }
}

#[test]
fn body_prefix_read_past_the_head_is_forwarded() {
    let head = b"POST /u HTTP/1.1\r\nHost: example.com\r\n\r\n";
    match route_request(&no_users(), head, b"data") {
        Route::Forward { payload, .. } => {
            assert_eq!(
                payload,
                b"POST /u HTTP/1.1\r\nHost: example.com\r\n\r\ndata".to_vec()
            );
        }
        _ => panic!("expected forward"),
    }
}

#[test]
fn host_header_with_port_overrides_default() {
    let head = b"GET / HTTP/1.1\r\nHost: example.com:8080\r\n\r\n";
    match route_request(&no_users(), head, b"") {
        Route::Forward { host, port, .. } => {
            assert_eq!(host, b"example.com".to_vec());
            assert_eq!(port, b"8080".to_vec());
        }
        _ => panic!("expected forward"),
    }
}

#[test]
fn missing_credentials_reject_with_407_challenge() {
    let head = b"GET / HTTP/1.1\r\nHost: example.com\r\n\r\n";
    match route_request(&dima(), head, b"") {
        Route::Reject { response, error } => {
            assert_eq!(
                response.unwrap(),
                b"HTTP/1.1 407 Proxy Authentication Required\r\nProxy-Authenticate: Basic\r\n\r\n"
                    .to_vec()
            );
            assert_eq!(error, Error::AuthenticationRequired);
        }
        _ => panic!("expected rejection"),
    }
}

#[test]
fn wrong_credentials_reject_with_407() {
    let cred = format!("Basic {}", BASE64_STANDARD.encode("dima:wrong"));
    let head = format!("GET / HTTP/1.1\r\nHost: example.com\r\nProxy-Authorization: {cred}\r\n\r\n");
    match route_request(&dima(), head.as_bytes(), b"") {
        Route::Reject { error, .. } => assert_eq!(error, Error::AuthenticationRequired),
        _ => panic!("expected rejection"),
    }
}

#[test]
fn good_credentials_allow_forwarding() {
    let cred = format!("Basic {}", BASE64_STANDARD.encode("dima:qwe123"));
    let head = format!("GET / HTTP/1.1\r\nHost: example.com\r\nProxy-Authorization: {cred}\r\n\r\n");
    match route_request(&dima(), head.as_bytes(), b"") {
        Route::Forward { .. } => {}
        _ => panic!("expected forward"),
    }
}

#[test]
fn empty_user_list_never_produces_407() {
    let heads: [&[u8]; 4] = [
        b"GET / HTTP/1.1\r\nHost: example.com\r\nProxy-Authorization: Digest junk\r\n\r\n",
        b"GET / HTTP/1.1\r\nHost: example.com\r\n\r\n",
        b"CONNECT example.com:443 HTTP/1.1\r\nProxy-Authorization: Basic !!!\r\n\r\n",
        b"GET / HTTP/1.1\r\n\r\n",
    ];
    for head in heads {
        if let Route::Reject { error, .. } = route_request(&no_users(), head, b"") {
            assert_ne!(error, Error::AuthenticationRequired);
        }
    }
}

#[test]
fn malformed_head_rejects_with_400() {
    let head = b"\x00\x01\x02\r\n\r\n";
    match route_request(&no_users(), head, b"") {
        Route::Reject { response, error } => {
            assert_eq!(response.unwrap(), b"HTTP/1.1 400 Bad Request\r\n\r\n".to_vec());
            assert_eq!(error, Error::HttParse);
        }
        _ => panic!("expected rejection"),
    }
}

#[test]
fn framing_failure_owes_400_only_for_framing_errors() {
    let r = framing_failure_response(Error::ReadHeaderBufferOverflow);
    assert_eq!(r.unwrap(), b"HTTP/1.1 400 Bad Request\r\n\r\n".to_vec());
    let r = framing_failure_response(Error::ReadHeaderIncorrectRequest);
    assert_eq!(r.unwrap(), b"HTTP/1.1 400 Bad Request\r\n\r\n".to_vec());
    assert!(framing_failure_response(Error::Io).is_none());
}

#[test]
fn connect_failure_always_owes_500() {
    for e in [Error::Timeout, Error::DistConnect, Error::Io] {
        assert_eq!(
            connect_failure_response(e),
            b"HTTP/1.1 500 Internal\r\n\r\n".to_vec()
        );
    }
}

#[test]
fn incomplete_head_rejects_with_400() {
    let head = b"GET / HTTP/1.1\r\nHost: example.com\r\n";
    match route_request(&no_users(), head, b"") {
        Route::Reject { response, error } => {
            assert_eq!(response.unwrap(), b"HTTP/1.1 400 Bad Request\r\n\r\n".to_vec());
            assert_eq!(error, Error::ReadHeaderIncorrectRequest);
        }
        _ => panic!("expected rejection"),
    }
}

#[test]
fn empty_connect_host_rejects_with_500() {
    let head = b"CONNECT :443 HTTP/1.1\r\n\r\n";
    match route_request(&no_users(), head, b"") {
        Route::Reject { response, error } => {
            assert_eq!(response.unwrap(), b"HTTP/1.1 500 Internal\r\n\r\n".to_vec());
            assert_eq!(error, Error::IncorrectHost);
        }
        _ => panic!("expected rejection"),
    }
}

#[test]
fn lowercase_connect_method_still_tunnels() {
    let head = b"connect example.com:443 HTTP/1.1\r\n\r\n";
    match route_request(&no_users(), head, b"") {
        Route::Tunnel { .. } => {}
        _ => panic!("expected tunnel"),
    }
}
