use vstd::prelude::*;
use vstd::string::StringSliceAdditionalSpecFns;

use crate::ascii::{eq_lower, lower_bytes};
use crate::head::{proxy_auth_name, HeaderPair};

verus! {

pub open spec fn crlf() -> Seq<u8> {
    "\r\n".spec_bytes()
}

/// True when the header name is the proxy credential header, compared
/// without regard to ASCII letter case.
pub open spec fn is_proxy_auth(name: Seq<u8>) -> bool {
    lower_bytes(name) == proxy_auth_name()
}

/// The re-serialized request line: method, target and minor version,
/// exactly as the destination is to see them.
pub open spec fn request_line_spec(m: Seq<u8>, p: Seq<u8>, v: u8) -> Seq<u8> {
    m + " ".spec_bytes() + p + " HTTP/1.".spec_bytes() + seq![(48 + v) as u8] + crlf()
}

/// One re-serialized header line.
pub open spec fn header_line_spec(name: Seq<u8>, value: Seq<u8>) -> Seq<u8> {
    name + ": ".spec_bytes() + value + crlf()
}

/// The re-serialized header block: every header in order, each copied
/// verbatim, except that the proxy credential header is left out.
pub open spec fn forwarded_headers_spec(hs: Seq<(Seq<u8>, Seq<u8>)>) -> Seq<u8>
    decreases hs.len(),
{
    if hs.len() == 0 {
        Seq::<u8>::empty()
    } else {
        forwarded_headers_spec(hs.drop_last()) + if is_proxy_auth(hs.last().0) {
            Seq::<u8>::empty()
        } else {
            header_line_spec(hs.last().0, hs.last().1)
        }
    }
}

/// The whole forwarded request: request line, kept headers, a blank
/// line, and the body bytes already read past the head.
pub open spec fn forward_bytes_spec(
    m: Seq<u8>,
    p: Seq<u8>,
    v: u8,
    hs: Seq<(Seq<u8>, Seq<u8>)>,
    body: Seq<u8>,
) -> Seq<u8> {
    request_line_spec(m, p, v) + forwarded_headers_spec(hs) + crlf() + body
}

/// The header list with every proxy credential header removed.
pub open spec fn drop_proxy_auth(hs: Seq<(Seq<u8>, Seq<u8>)>) -> Seq<(Seq<u8>, Seq<u8>)>
    decreases hs.len(),
{
    if hs.len() == 0 {
        Seq::<(Seq<u8>, Seq<u8>)>::empty()
    } else {
        drop_proxy_auth(hs.drop_last()) + if is_proxy_auth(hs.last().0) {
            Seq::<(Seq<u8>, Seq<u8>)>::empty()
        } else {
            seq![hs.last()]
        }
    }
}

/// No header kept by `drop_proxy_auth` carries the proxy credential
/// name.
pub proof fn lemma_drop_proxy_auth_clean(hs: Seq<(Seq<u8>, Seq<u8>)>)
    ensures
        forall|k: int|
            0 <= k < drop_proxy_auth(hs).len() ==> !is_proxy_auth(#[trigger] drop_proxy_auth(
                hs,
            )[k].0),
    decreases hs.len(),
{
    if hs.len() > 0 {
        lemma_drop_proxy_auth_clean(hs.drop_last());
        let d = drop_proxy_auth(hs);
        let dl = drop_proxy_auth(hs.drop_last());
        assert forall|k: int| 0 <= k < d.len() implies !is_proxy_auth(d[k].0) by {
            if k < dl.len() {
                assert(d[k] == dl[k]);
            } else {
                assert(d[k] == hs.last());
            }
        }
    }
}

/// The forwarded header block never contains the proxy credential
/// header: serializing the original list and serializing the list
/// with every such header removed give the same bytes.
pub proof fn lemma_forward_strips_proxy_auth(hs: Seq<(Seq<u8>, Seq<u8>)>)
    ensures
        forwarded_headers_spec(hs) == forwarded_headers_spec(drop_proxy_auth(hs)),
    decreases hs.len(),
{
    if hs.len() > 0 {
        lemma_forward_strips_proxy_auth(hs.drop_last());
        let d = drop_proxy_auth(hs);
        let dl = drop_proxy_auth(hs.drop_last());
        if is_proxy_auth(hs.last().0) {
            assert(d =~= dl);
        } else {
            assert(d == dl + seq![hs.last()]);
            assert(d.drop_last() =~= dl);
            assert(d.last() == hs.last());
            assert(forwarded_headers_spec(d) == forwarded_headers_spec(dl) + header_line_spec(
                hs.last().0,
                hs.last().1,
            ));
        }
    }
}

/// Appends all of `src` to `dst`.
fn push_all(dst: &mut Vec<u8>, src: &[u8])
    ensures
        final(dst)@ == old(dst)@ + src@,
{
    let n = src.len();
    let mut i: usize = 0;
    while i < n
        invariant
            i <= n,
            n == src@.len(),
            dst@ == old(dst)@ + src@.take(i as int),
        decreases n - i,
    {
        dst.push(*vstd::slice::slice_index_get(src, i));
        i += 1;
        proof {
            assert(dst@ =~= old(dst)@ + src@.take(i as int));
        }
    }
    proof {
        assert(dst@ =~= old(dst)@ + src@);
    }
}

/// Builds the bytes forwarded to the destination for a non-tunnel
/// request: the request line, every original header except the proxy
/// credential header, a blank line, and the body prefix already read.
#[verifier::loop_isolation(false)]
pub fn serialize_forward(
    method: &[u8],
    path: &[u8],
    version: u8,
    headers: &Vec<HeaderPair>,
    body: &[u8],
) -> (r: Vec<u8>)
    requires
        version <= 1,
    ensures
        r@ == forward_bytes_spec(
            method@,
            path@,
            version,
            headers@.map_values(|h: HeaderPair| h@),
            body@,
        ),
{
    let ghost hv = headers@.map_values(|h: HeaderPair| h@);
    let mut out: Vec<u8> = Vec::new();
    push_all(&mut out, method);
    push_all(&mut out, " ".as_bytes());
    push_all(&mut out, path);
    push_all(&mut out, " HTTP/1.".as_bytes());
    out.push(48 + version);
    push_all(&mut out, "\r\n".as_bytes());
    proof {
        assert(out@ =~= request_line_spec(method@, path@, version));
    }
    let n = headers.len();
    let mut i: usize = 0;
    while i < n
        invariant
            i <= n,
            n == headers@.len(),
            out@ == request_line_spec(method@, path@, version) + forwarded_headers_spec(
                hv.take(i as int),
            ),
        decreases n - i,
    {
        let h = &headers[i];
        proof {
            assert(hv[i as int] == headers@[i as int]@);
        }
        if !eq_lower(h.name.as_slice(), "proxy-authorization".as_bytes()) {
            push_all(&mut out, h.name.as_slice());
            push_all(&mut out, ": ".as_bytes());
            push_all(&mut out, h.value.as_slice());
            push_all(&mut out, "\r\n".as_bytes());
        }
        i += 1;
        proof {
            assert(hv.take(i as int).drop_last() =~= hv.take(i as int - 1));
            assert(hv.take(i as int).last() == hv[i as int - 1]);
            assert(out@ =~= request_line_spec(method@, path@, version) + forwarded_headers_spec(
                hv.take(i as int),
            ));
        }
    }
    proof {
        assert(hv.take(n as int) =~= hv);
    }
    push_all(&mut out, "\r\n".as_bytes());
    push_all(&mut out, body);
    proof {
        assert(out@ =~= forward_bytes_spec(method@, path@, version, hv, body@));
    }
    out
}

} // verus!
