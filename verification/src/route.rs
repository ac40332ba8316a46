use vstd::prelude::*;
use vstd::string::StringSliceAdditionalSpecFns;

use crate::auth::{auth, auth_spec};
use crate::connector::{host_of, port_of, split_host_port};
use crate::error::Error;
use crate::forward::{forward_bytes_spec, serialize_forward};
use crate::head::{
    find_header, find_header_ex, head_parse_of, host_name, is_connect, is_connect_ex, parse_head,
    proxy_auth_name, HeadFieldsView, HeadParse, HeaderPair, ParsedHead,
};
use crate::respond::{
    response_400, response_400_bytes, response_407, response_407_bytes, response_500,
    response_500_bytes,
};
use crate::User;

verus! {

/// What the handler is to do with one framed request.
pub enum Route {
    /// The connection fails here: `response` (if any) is written to
    /// the client best-effort, and `error` is the terminal outcome.
    Reject { response: Option<Vec<u8>>, error: Error },
    /// A tunnel request: open `host:port`; on success acknowledge to
    /// the client with the connection-established line before
    /// relaying, on failure write the internal-error line.
    Tunnel { host: Vec<u8>, port: Vec<u8> },
    /// A plain request: open `host:port`, write `payload` to the
    /// destination, then relay; on connect failure write the
    /// internal-error line.
    Forward { host: Vec<u8>, port: Vec<u8>, payload: Vec<u8> },
}

/// True when the route fails with this response and error.
pub open spec fn rejects_with(r: Route, resp: Option<Seq<u8>>, e: Error) -> bool {
    match r {
        Route::Reject { response, error } => {
            &&& error == e
            &&& match (response, resp) {
                (Some(b), Some(s)) => b@ == s,
                (None, None) => true,
                _ => false,
            }
        },
        _ => false,
    }
}

/// True when the tokenizer reported every field of the request line.
pub open spec fn fields_present(f: HeadFieldsView) -> bool {
    f.method is Some && f.path is Some && f.version is Some
}

/// The credential verdict for a parsed head: the authorizer's outcome
/// on the first Proxy-Authorization header, or nothing when no such
/// header stands in the head.
pub open spec fn auth_outcome(users: Seq<User>, headers: Seq<(Seq<u8>, Seq<u8>)>) -> Option<
    bool,
> {
    match find_header(headers, proxy_auth_name()) {
        Some(i) => auth_spec(users, headers[i].1),
        None => None,
    }
}

/// True when the connection may proceed past the credential check:
/// authorization is disabled because no user is configured, or the
/// authorizer accepted the presented credentials.
pub open spec fn authorized(users: Seq<User>, headers: Seq<(Seq<u8>, Seq<u8>)>) -> bool {
    users.len() == 0 || auth_outcome(users, headers) == Some(true)
}

/// The best-effort status line owed to the client when framing fails,
/// before any head can be routed: the bad-request line for an
/// oversized head or a source that closed early, and nothing for a
/// transport failure, where no response can be safely written.
pub fn framing_failure_response(e: Error) -> (r: Option<Vec<u8>>)
    ensures
        e == Error::ReadHeaderBufferOverflow || e == Error::ReadHeaderIncorrectRequest ==> (
        r matches Some(b) && b@ == response_400_bytes()),
        e != Error::ReadHeaderBufferOverflow && e != Error::ReadHeaderIncorrectRequest ==> r
            is None,
{
    match e {
        Error::ReadHeaderBufferOverflow | Error::ReadHeaderIncorrectRequest => Some(
            response_400(),
        ),
        _ => None,
    }
}

/// The best-effort status line owed to the client when no destination
/// connection could be opened: the internal-error line, whatever the
/// connector's failure was.
pub fn connect_failure_response(_e: Error) -> (r: Vec<u8>)
    ensures
        r@ == response_500_bytes(),
{
    response_500()
}

/// Decides the fate of one framed request: `head` holds the delimited
/// head bytes and `body` whatever was read past the terminator. The
/// head is tokenized, the credential check applied, and the request
/// routed as a tunnel, a forwarded request, or a rejection with its
/// client-facing response.
pub fn route_request(users: &Vec<User>, head: &[u8], body: &[u8]) -> (r: Route)
    ensures
        users@.len() == 0 ==> (r matches Route::Reject { response, error } ==> error
            != Error::AuthenticationRequired),
        head_parse_of(head@) is Malformed ==> rejects_with(
            r,
            Some(response_400_bytes()),
            Error::HttParse,
        ),
        head_parse_of(head@) is Partial ==> rejects_with(
            r,
            Some(response_400_bytes()),
            Error::ReadHeaderIncorrectRequest,
        ),
        head_parse_of(head@) matches HeadParse::Complete(f) ==> (!fields_present(f)
            ==> rejects_with(r, Some(response_400_bytes()), Error::ReadHeaderIncorrectRequest)),
        head_parse_of(head@) matches HeadParse::Complete(f) ==> ((fields_present(f)
            && users@.len() > 0 && auth_outcome(users@, f.headers) != Some(true)) ==> rejects_with(
            r,
            Some(response_407_bytes()),
            Error::AuthenticationRequired,
        )),
        head_parse_of(head@) matches HeadParse::Complete(f) ==> ((fields_present(f) && authorized(
            users@,
            f.headers,
        ) && is_connect(f.method.unwrap()) && host_of(f.path.unwrap()).len() > 0) ==> (
        r matches Route::Tunnel { host, port } && host@ == host_of(f.path.unwrap()) && port@
            == port_of(f.path.unwrap(), "443".spec_bytes()))),
        head_parse_of(head@) matches HeadParse::Complete(f) ==> ((fields_present(f) && authorized(
            users@,
            f.headers,
        ) && is_connect(f.method.unwrap()) && host_of(f.path.unwrap()).len() == 0)
            ==> rejects_with(r, Some(response_500_bytes()), Error::IncorrectHost)),
        head_parse_of(head@) matches HeadParse::Complete(f) ==> ((fields_present(f) && authorized(
            users@,
            f.headers,
        ) && !is_connect(f.method.unwrap()) && find_header(f.headers, host_name()) is None)
            ==> rejects_with(r, Some(response_400_bytes()), Error::NotFoundHeaderHost)),
        head_parse_of(head@) matches HeadParse::Complete(f) ==> ((fields_present(f) && authorized(
            users@,
            f.headers,
        ) && !is_connect(f.method.unwrap())) ==> (find_header(f.headers, host_name())
            matches Some(i) ==> {
            let target = f.headers[i].1;
            &&& host_of(target).len() > 0 ==> (r matches Route::Forward { host, port, payload }
                && host@ == host_of(target) && port@ == port_of(target, "80".spec_bytes())
                && payload@ == forward_bytes_spec(
                f.method.unwrap(),
                f.path.unwrap(),
                f.version.unwrap(),
                f.headers,
                body@,
            ))
            &&& host_of(target).len() == 0 ==> rejects_with(
                r,
                Some(response_500_bytes()),
                Error::IncorrectHost,
            )
        })),
{
    let parsed = parse_head(head);
    let (method, path, version, headers): (Vec<u8>, Vec<u8>, u8, Vec<HeaderPair>) = match parsed {
        ParsedHead::Malformed => {
            return Route::Reject { response: Some(response_400()), error: Error::HttParse };
        },
        ParsedHead::Partial => {
            return Route::Reject {
                response: Some(response_400()),
                error: Error::ReadHeaderIncorrectRequest,
            };
        },
        ParsedHead::Complete { method: Some(m), path: Some(p), version: Some(v), headers: hs } => (
            m,
            p,
            v,
            hs,
        ),
        ParsedHead::Complete { .. } => {
            return Route::Reject {
                response: Some(response_400()),
                error: Error::ReadHeaderIncorrectRequest,
            };
        },
    };
    let ghost hv = headers@.map_values(|h: HeaderPair| h@);
    if users.len() > 0 {
        let verdict: Option<bool> = match find_header_ex(&headers, "proxy-authorization".as_bytes(
        )) {
            Some(i) => {
                proof {
                    crate::head::lemma_find_header(hv, proxy_auth_name());
                    assert(hv[i as int].1 == headers@[i as int].value@);
                }
                auth(users, headers[i].value.as_slice())
            },
            None => None,
        };
        let permitted = match verdict {
            Some(true) => true,
            _ => false,
        };
        if !permitted {
            return Route::Reject {
                response: Some(response_407()),
                error: Error::AuthenticationRequired,
            };
        }
    }
    if is_connect_ex(method.as_slice()) {
        match split_host_port(path.as_slice(), "443".as_bytes()) {
            Ok((host, port)) => Route::Tunnel { host, port },
            Err(e) => Route::Reject { response: Some(response_500()), error: e },
        }
    } else {
        match find_header_ex(&headers, "host".as_bytes()) {
            None => Route::Reject {
                response: Some(response_400()),
                error: Error::NotFoundHeaderHost,
            },
            Some(i) => {
                proof {
                    crate::head::lemma_find_header(hv, host_name());
                    assert(hv[i as int].1 == headers@[i as int].value@);
                }
                match split_host_port(headers[i].value.as_slice(), "80".as_bytes()) {
                    Ok((host, port)) => {
                        let payload = serialize_forward(
                            method.as_slice(),
                            path.as_slice(),
                            version,
                            &headers,
                            body,
                        );
                        Route::Forward { host, port, payload }
                    },
                    Err(e) => Route::Reject { response: Some(response_500()), error: e },
                }
            },
        }
    }
}

} // verus!
