use vstd::prelude::*;
use vstd::string::StringSliceAdditionalSpecFns;

use base64::Engine;

use crate::ascii::{eq_bytes, find_byte, find_byte_ex, lemma_find_byte, trim, trim_spec};
use crate::User;

verus! {

/// What base64's standard-alphabet decoder returns for a given input:
/// nothing when the input is not valid base64, else the decoded bytes.
pub uninterp spec fn b64_decode_of(s: Seq<u8>) -> Option<Seq<u8>>;

/// Relies on base64's `Engine::decode` with the standard alphabet: the
/// outcome is a function of the input bytes alone.
#[verifier::external_body]
fn b64_decode(s: &[u8]) -> (r: Option<Vec<u8>>)
    ensures
        match r {
            Some(v) => b64_decode_of(s@) == Some(v@),
            None => b64_decode_of(s@) is None,
        },
{
    match base64::prelude::BASE64_STANDARD.decode(s) {
        Ok(v) => Some(v),
        Err(_) => None,
    }
}

/// Relies on `core::str::from_utf8`, which succeeds exactly on byte
/// sequences that are valid UTF-8.
#[verifier::external_body]
fn utf8_valid(s: &[u8]) -> (r: bool)
    ensures
        r == vstd::utf8::valid_utf8(s@),
{
    core::str::from_utf8(s).is_ok()
}

pub open spec fn basic_scheme() -> Seq<u8> {
    "Basic".spec_bytes()
}

/// True when the configured user carries exactly these login and
/// password bytes (the UTF-8 encoding of its two strings).
pub open spec fn user_matches(u: User, login: Seq<u8>, pass: Seq<u8>) -> bool {
    &&& vstd::utf8::encode_utf8(u.login@) == login
    &&& vstd::utf8::encode_utf8(u.pass@) == pass
}

/// The login and password carried by decoded credential bytes: what
/// stands before the first colon, and what stands after it — the
/// whole input and an empty password when no colon occurs.
pub open spec fn credentials_of(d: Seq<u8>) -> (Seq<u8>, Seq<u8>) {
    match find_byte(d, 58u8) {
        Some(j) => (d.take(j), d.skip(j + 1)),
        None => (d, Seq::<u8>::empty()),
    }
}

/// True when some configured user carries exactly these credential
/// bytes.
pub open spec fn some_user_matches(users: Seq<User>, login: Seq<u8>, pass: Seq<u8>) -> bool {
    exists|k: int| 0 <= k < users.len() && user_matches(users[k], login, pass)
}

/// The outcome of checking one Proxy-Authorization value against the
/// configured users. Nothing when the value (after trimming
/// whitespace) has no blank-separated scheme, the scheme is not
/// `Basic`, the payload is not valid base64, or the decoded bytes are
/// not valid UTF-8; otherwise whether some configured user matches
/// the decoded `login:password` pair exactly.
pub open spec fn auth_spec(users: Seq<User>, header: Seq<u8>) -> Option<bool> {
    let t = trim_spec(header);
    match find_byte(t, 32u8) {
        None => None,
        Some(i) => {
            let scheme = t.take(i);
            let payload = t.skip(i + 1);
            if scheme != basic_scheme() {
                None
            } else {
                match b64_decode_of(payload) {
                    None => None,
                    Some(d) => if !vstd::utf8::valid_utf8(d) {
                        None
                    } else {
                        Some(some_user_matches(users, credentials_of(d).0, credentials_of(d).1))
                    },
                }
            }
        },
    }
}

/// Validates a Basic-auth credential header against the configured
/// users.
#[verifier::loop_isolation(false)]
pub fn auth(users: &Vec<User>, header: &[u8]) -> (r: Option<bool>)
    ensures
        r == auth_spec(users@, header@),
{
    let t = trim(header);
    let i: usize = match find_byte_ex(t, 32u8) {
        Some(i) => i,
        None => {
            return None;
        },
    };
    let tlen: usize = t.len();
    proof {
        lemma_find_byte(t@, 32u8);
        assert(i < tlen);
    }
    let scheme = &t[0..i];
    let payload = &t[i + 1..tlen];
    proof {
        assert(scheme@ =~= trim_spec(header@).take(i as int));
        assert(payload@ =~= trim_spec(header@).skip(i as int + 1));
    }
    if !eq_bytes(scheme, "Basic".as_bytes()) {
        return None;
    }
    let decoded = match b64_decode(payload) {
        Some(d) => d,
        None => {
            return None;
        },
    };
    if !utf8_valid(decoded.as_slice()) {
        return None;
    }
    let login: &[u8];
    let pass: &[u8];
    match find_byte_ex(decoded.as_slice(), 58u8) {
        Some(j) => {
            proof {
                lemma_find_byte(decoded@, 58u8);
            }
            login = &decoded[0..j];
            pass = &decoded[j + 1..decoded.len()];
        },
        None => {
            login = decoded.as_slice();
            pass = &decoded[decoded.len()..decoded.len()];
        },
    }
    proof {
        assert(login@ =~= credentials_of(decoded@).0);
        assert(pass@ =~= credentials_of(decoded@).1);
    }
    let n = users.len();
    let mut k: usize = 0;
    while k < n
        invariant
            k <= n,
            n == users@.len(),
            login@ == credentials_of(decoded@).0,
            pass@ == credentials_of(decoded@).1,
            forall|j: int| 0 <= j < k as int ==> !user_matches(users@[j], login@, pass@),
        decreases n - k,
    {
        let u = &users[k];
        proof {
            assert(users@[k as int] == *u);
        }
        if eq_bytes(u.login.as_str().as_bytes(), login) && eq_bytes(
            u.pass.as_str().as_bytes(),
            pass,
        ) {
            proof {
                assert(user_matches(users@[k as int], login@, pass@));
                assert(some_user_matches(users@, login@, pass@));
                assert(some_user_matches(
                    users@,
                    credentials_of(decoded@).0,
                    credentials_of(decoded@).1,
                ));
            }
            return Some(true);
        }
        k += 1;
    }
    Some(false)
}

} // verus!
