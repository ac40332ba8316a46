use tiny_proxy::connector::{plan_attempts, split_host_port, AddrFamily, Attempt, BindMode};
use tiny_proxy::{Error, Ipv4Octets, Ipv6Octets, Proxy, User};

#[test]
fn split_uses_default_port_when_none_given() {
    let (host, port) = split_host_port(b"example.com", b"80").unwrap();
    assert_eq!(host, b"example.com".to_vec());
    assert_eq!(port, b"80".to_vec());
}

#[test]
fn split_takes_everything_after_first_colon_as_port() {
    let (host, port) = split_host_port(b"example.com:8080:9090", b"80").unwrap();
    assert_eq!(host, b"example.com".to_vec());
    assert_eq!(port, b"8080:9090".to_vec());
}

#[test]
fn split_rejects_empty_host() {
    assert_eq!(split_host_port(b":443", b"80").unwrap_err(), Error::IncorrectHost);
    assert_eq!(split_host_port(b"", b"80").unwrap_err(), Error::IncorrectHost);
}

#[test]
fn plan_orders_bound_v6_then_bound_v4_then_unbound_v4() {
    let fams = vec![AddrFamily::V6, AddrFamily::V4, AddrFamily::V6, AddrFamily::V4];
    let plan = plan_attempts(&fams, true, true);
    assert_eq!(
        plan,
        vec![
            Attempt { index: 0, bind: BindMode::BoundV6 },
            Attempt { index: 2, bind: BindMode::BoundV6 },
            Attempt { index: 1, bind: BindMode::BoundV4 },
            Attempt { index: 3, bind: BindMode::BoundV4 },
            Attempt { index: 1, bind: BindMode::Unbound },
            Attempt { index: 3, bind: BindMode::Unbound },
        ]
    );
}

#[test]
fn plan_without_binds_only_tries_ipv4_unbound() {
    let fams = vec![AddrFamily::V6, AddrFamily::V4];
    let plan = plan_attempts(&fams, false, false);
    assert_eq!(plan, vec![Attempt { index: 1, bind: BindMode::Unbound }]);
}

#[test]
fn first_success_after_failing_v6_is_bound_v4_never_unbound() {
    let fams = vec![AddrFamily::V6, AddrFamily::V4, AddrFamily::V4];
    let plan = plan_attempts(&fams, true, true);
    let mut chosen: Option<Attempt> = None;
    for attempt in plan {
        let succeeds = match attempt.bind {
            BindMode::BoundV6 => false,
            _ => true,
        };
        if succeeds {
            chosen = Some(attempt);
            break;
        }
    }
    let chosen = chosen.unwrap();
    assert_eq!(chosen.bind, BindMode::BoundV4);
    assert_eq!(chosen.index, 1);
}

#[test]
fn builder_accumulates_configuration() {
    let proxy = Proxy::default()
        .add_user(String::from("dima"), String::from("qwe123"))
        .set_bind_ipv4(Ipv4Octets { octets: [127, 0, 0, 1] })
        .set_bind_ipv6(Ipv6Octets { octets: [0; 16] })
        .set_nodelay(true);
    assert_eq!(proxy.users.len(), 1);
    assert_eq!(proxy.users[0].login, "dima");
    assert_eq!(proxy.users[0].pass, "qwe123");
    assert_eq!(proxy.bind_ipv4.unwrap().octets, [127, 0, 0, 1]);
    assert_eq!(proxy.bind_ipv6.unwrap().octets, [0; 16]);
    assert!(proxy.nodelay);
    assert!(proxy.connect_timeout_ms.is_none());
}

#[test]
fn default_proxy_is_open_and_unbound() {
    let proxy = Proxy::default();
    assert!(proxy.users.is_empty());
    assert!(proxy.bind_ipv4.is_none());
    assert!(proxy.bind_ipv6.is_none());
    assert!(!proxy.nodelay);
    assert!(proxy.connect_timeout_ms.is_none());
}

#[test]
fn error_messages_name_the_failure() {
    let _ = User { login: String::from("a"), pass: String::from("b") };
    assert_eq!(Error::ReadHeaderBufferOverflow.message(), "read header: buffer overflow");
    assert_eq!(Error::DistConnect.message(), "dist connect");
    assert_eq!(Error::Timeout.message(), "timeout");
}
