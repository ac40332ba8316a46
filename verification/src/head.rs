use vstd::prelude::*;
use vstd::string::StringSliceAdditionalSpecFns;

use crate::ascii::{eq_lower, lower_bytes};

verus! {

/// One header line of a request head, name and value as raw bytes.
pub struct HeaderPair {
    pub name: Vec<u8>,
    pub value: Vec<u8>,
}

impl View for HeaderPair {
    type V = (Seq<u8>, Seq<u8>);

    open spec fn view(&self) -> (Seq<u8>, Seq<u8>) {
        (self.name@, self.value@)
    }
}

/// The fields of a fully tokenized request head. Each field mirrors
/// what the tokenizer reported; a field it left unset stays unset and
/// is rejected by the caller.
pub struct HeadFieldsView {
    pub method: Option<Seq<u8>>,
    pub path: Option<Seq<u8>>,
    pub version: Option<u8>,
    pub headers: Seq<(Seq<u8>, Seq<u8>)>,
}

/// What tokenizing a delimited head can yield: rejected as invalid,
/// reported incomplete, or fully parsed.
pub enum HeadParse {
    Malformed,
    Partial,
    Complete(HeadFieldsView),
}

/// What the head tokenizer returns for given head bytes.
pub uninterp spec fn head_parse_of(s: Seq<u8>) -> HeadParse;

/// The executable mirror of `HeadParse`, with owned byte buffers.
pub enum ParsedHead {
    Malformed,
    Partial,
    Complete {
        method: Option<Vec<u8>>,
        path: Option<Vec<u8>>,
        version: Option<u8>,
        headers: Vec<HeaderPair>,
    },
}

impl View for ParsedHead {
    type V = HeadParse;

    open spec fn view(&self) -> HeadParse {
        match self {
            ParsedHead::Malformed => HeadParse::Malformed,
            ParsedHead::Partial => HeadParse::Partial,
            ParsedHead::Complete { method, path, version, headers } => HeadParse::Complete(
                HeadFieldsView {
                    method: match method {
                        Some(m) => Some(m@),
                        None => None,
                    },
                    path: match path {
                        Some(p) => Some(p@),
                        None => None,
                    },
                    version: *version,
                    headers: headers@.map_values(|h: HeaderPair| h@),
                },
            ),
        }
    }
}

/// Relies on httparse's `Request::parse` with a fixed buffer of 32
/// header slots: whether given head bytes are rejected, incomplete or
/// fully parsed — and every field of a parsed head — is a function of
/// those bytes alone. The parser only ever reports minor version zero
/// or one.
#[verifier::external_body]
pub(crate) fn parse_head(bytes: &[u8]) -> (r: ParsedHead)
    ensures
        r@ == head_parse_of(bytes@),
        r matches ParsedHead::Complete { version: Some(v), .. } ==> v <= 1,
{
    let mut headers = [httparse::EMPTY_HEADER; 32];
    let mut req = httparse::Request::new(&mut headers);
    match req.parse(bytes) {
        Err(_) => ParsedHead::Malformed,
        Ok(httparse::Status::Partial) => ParsedHead::Partial,
        Ok(httparse::Status::Complete(_)) => ParsedHead::Complete {
            method: req.method.map(|m| m.as_bytes().to_vec()),
            path: req.path.map(|p| p.as_bytes().to_vec()),
            version: req.version,
            headers: req.headers.iter().map(
                |h| HeaderPair { name: h.name.as_bytes().to_vec(), value: h.value.to_vec() },
            ).collect(),
        },
    }
}

pub open spec fn proxy_auth_name() -> Seq<u8> {
    "proxy-authorization".spec_bytes()
}

pub open spec fn host_name() -> Seq<u8> {
    "host".spec_bytes()
}

/// True when the method names a tunnel request, compared without
/// regard to ASCII letter case.
pub open spec fn is_connect(m: Seq<u8>) -> bool {
    lower_bytes(m) == "connect".spec_bytes()
}

pub fn is_connect_ex(m: &[u8]) -> (r: bool)
    ensures
        r == is_connect(m@),
{
    eq_lower(m, "connect".as_bytes())
}

/// The position of the first header whose name, compared without
/// regard to ASCII letter case, is `name` (given in lower case).
pub open spec fn find_header(headers: Seq<(Seq<u8>, Seq<u8>)>, name: Seq<u8>) -> Option<int>
    decreases headers.len(),
{
    if headers.len() == 0 {
        None
    } else if lower_bytes(headers[0].0) == name {
        Some(0int)
    } else {
        match find_header(headers.drop_first(), name) {
            Some(i) => Some(i + 1),
            None => None,
        }
    }
}

/// What `find_header` reports: the returned position is the first
/// whose name matches; no position is returned only when none does.
pub proof fn lemma_find_header(headers: Seq<(Seq<u8>, Seq<u8>)>, name: Seq<u8>)
    ensures
        match find_header(headers, name) {
            Some(i) => {
                &&& 0 <= i < headers.len()
                &&& lower_bytes(headers[i].0) == name
                &&& forall|j: int| 0 <= j < i ==> lower_bytes(headers[j].0) != name
            },
            None => forall|j: int|
                0 <= j < headers.len() ==> lower_bytes(headers[j].0) != name,
        },
    decreases headers.len(),
{
    if headers.len() > 0 && lower_bytes(headers[0].0) != name {
        lemma_find_header(headers.drop_first(), name);
        assert forall|j: int|
            0 <= j < headers.len() && (match find_header(headers, name) {
                Some(i) => j < i,
                None => true,
            }) implies lower_bytes(headers[j].0) != name by {
            if j > 0 {
                assert(headers[j] == headers.drop_first()[j - 1]);
            }
        }
    }
}

/// Finds the first header with the given (lower-case) name.
#[verifier::loop_isolation(false)]
pub fn find_header_ex(headers: &Vec<HeaderPair>, name: &[u8]) -> (r: Option<usize>)
    ensures
        ({
            let hv = headers@.map_values(|h: HeaderPair| h@);
            match r {
                Some(i) => find_header(hv, name@) == Some(i as int),
                None => find_header(hv, name@) is None,
            }
        }),
{
    let ghost hv = headers@.map_values(|h: HeaderPair| h@);
    proof {
        lemma_find_header(hv, name@);
    }
    let n = headers.len();
    let mut i: usize = 0;
    while i < n
        invariant
            i <= n,
            forall|j: int| 0 <= j < i as int ==> lower_bytes(hv[j].0) != name@,
        decreases n - i,
    {
        if eq_lower(headers[i].name.as_slice(), name) {
            proof {
                assert(hv[i as int].0 == headers@[i as int].name@);
            }
            return Some(i);
        }
        i += 1;
    }
    None
}

} // verus!
