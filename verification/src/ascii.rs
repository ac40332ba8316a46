use vstd::prelude::*;

verus! {

/// The whitespace bytes stripped from the ends of a credential header.
/// Only ASCII whitespace is recognized: a credential value wrapped in
/// other whitespace keeps it and then fails the scheme comparison.
pub open spec fn is_ws(b: u8) -> bool {
    b == 9u8 || b == 10u8 || b == 11u8 || b == 12u8 || b == 13u8 || b == 32u8
}

pub open spec fn trim_front_spec(s: Seq<u8>) -> Seq<u8>
    decreases s.len(),
{
    if s.len() > 0 && is_ws(s[0]) {
        trim_front_spec(s.drop_first())
    } else {
        s
    }
}

pub open spec fn trim_back_spec(s: Seq<u8>) -> Seq<u8>
    decreases s.len(),
{
    if s.len() > 0 && is_ws(s.last()) {
        trim_back_spec(s.drop_last())
    } else {
        s
    }
}

/// `s` with leading and trailing whitespace removed.
pub open spec fn trim_spec(s: Seq<u8>) -> Seq<u8> {
    trim_back_spec(trim_front_spec(s))
}

fn is_ws_ex(b: u8) -> (r: bool)
    ensures
        r == is_ws(b),
{
    b == 9u8 || b == 10u8 || b == 11u8 || b == 12u8 || b == 13u8 || b == 32u8
}

fn trim_front_ex(s: &[u8]) -> (r: &[u8])
    ensures
        r@ == trim_front_spec(s@),
    decreases s@.len(),
{
    if s.len() > 0 && is_ws_ex(*vstd::slice::slice_index_get(s, 0)) {
        let rest = &s[1..s.len()];
        proof {
            assert(rest@ =~= s@.drop_first());
        }
        trim_front_ex(rest)
    } else {
        s
    }
}

fn trim_back_ex(s: &[u8]) -> (r: &[u8])
    ensures
        r@ == trim_back_spec(s@),
    decreases s@.len(),
{
    if s.len() > 0 && is_ws_ex(*vstd::slice::slice_index_get(s, s.len() - 1)) {
        let rest = &s[0..s.len() - 1];
        proof {
            assert(rest@ =~= s@.drop_last());
        }
        trim_back_ex(rest)
    } else {
        s
    }
}

/// Strips leading and trailing whitespace.
pub fn trim(s: &[u8]) -> (r: &[u8])
    ensures
        r@ == trim_spec(s@),
{
    trim_back_ex(trim_front_ex(s))
}

/// The position of the first occurrence of `b` in `s`, if any.
pub open spec fn find_byte(s: Seq<u8>, b: u8) -> Option<int>
    decreases s.len(),
{
    if s.len() == 0 {
        None
    } else if s[0] == b {
        Some(0int)
    } else {
        match find_byte(s.drop_first(), b) {
            Some(i) => Some(i + 1),
            None => None,
        }
    }
}

/// What `find_byte` reports: the returned position holds `b` and no
/// earlier position does; no position is returned only when `b` does
/// not occur.
pub proof fn lemma_find_byte(s: Seq<u8>, b: u8)
    ensures
        match find_byte(s, b) {
            Some(i) => 0 <= i < s.len() && s[i] == b && forall|j: int| 0 <= j < i ==> s[j] != b,
            None => forall|j: int| 0 <= j < s.len() ==> s[j] != b,
        },
    decreases s.len(),
{
    if s.len() > 0 && s[0] != b {
        lemma_find_byte(s.drop_first(), b);
        assert forall|j: int| 0 <= j < s.len() && (match find_byte(s, b) {
            Some(i) => j < i,
            None => true,
        }) implies s[j] != b by {
            if j > 0 {
                assert(s[j] == s.drop_first()[j - 1]);
            }
        }
    }
}

pub fn find_byte_ex(s: &[u8], b: u8) -> (r: Option<usize>)
    ensures
        match r {
            Some(i) => find_byte(s@, b) == Some(i as int),
            None => find_byte(s@, b) is None,
        },
    decreases s@.len(),
{
    if s.len() == 0 {
        None
    } else if *vstd::slice::slice_index_get(s, 0) == b {
        Some(0)
    } else {
        let rest = &s[1..s.len()];
        proof {
            assert(rest@ =~= s@.drop_first());
            lemma_find_byte(rest@, b);
        }
        match find_byte_ex(rest, b) {
            Some(i) => Some(i + 1),
            None => None,
        }
    }
}

/// True when the two byte sequences are equal.
pub fn eq_bytes(a: &[u8], b: &[u8]) -> (r: bool)
    ensures
        r == (a@ == b@),
{
    if a.len() != b.len() {
        proof {
            assert(a@ != b@);
        }
        return false;
    }
    let n = a.len();
    let mut i: usize = 0;
    while i < n
        invariant
            i <= n,
            n == a@.len() && n == b@.len(),
            forall|j: int| 0 <= j < i as int ==> a@[j] == b@[j],
        decreases n - i,
    {
        if *vstd::slice::slice_index_get(a, i) != *vstd::slice::slice_index_get(b, i) {
            return false;
        }
        i += 1;
    }
    proof {
        assert(a@ =~= b@);
    }
    true
}

/// `b` with an ASCII capital letter mapped to its small form.
pub open spec fn lower_byte(b: u8) -> u8 {
    if 65u8 <= b && b <= 90u8 {
        (b + 32) as u8
    } else {
        b
    }
}

/// `s` with every ASCII capital letter mapped to its small form.
pub open spec fn lower_bytes(s: Seq<u8>) -> Seq<u8> {
    Seq::new(s.len(), |i: int| lower_byte(s[i]))
}

fn lower_byte_ex(b: u8) -> (r: u8)
    ensures
        r == lower_byte(b),
{
    if 65u8 <= b && b <= 90u8 {
        b + 32
    } else {
        b
    }
}

/// True when `a`, compared without regard to ASCII letter case,
/// equals the (already lower-case) `b`.
pub fn eq_lower(a: &[u8], b: &[u8]) -> (r: bool)
    ensures
        r == (lower_bytes(a@) == b@),
{
    if a.len() != b.len() {
        proof {
            assert(lower_bytes(a@).len() != b@.len());
        }
        return false;
    }
    let n = a.len();
    let mut i: usize = 0;
    while i < n
        invariant
            i <= n,
            n == a@.len() && n == b@.len(),
            forall|j: int| 0 <= j < i as int ==> lower_byte(a@[j]) == b@[j],
        decreases n - i,
    {
        if lower_byte_ex(*vstd::slice::slice_index_get(a, i)) != *vstd::slice::slice_index_get(
            b,
            i,
        ) {
            proof {
                assert(lower_bytes(a@)[i as int] != b@[i as int]);
            }
            return false;
        }
        i += 1;
    }
    proof {
        assert(lower_bytes(a@) =~= b@);
    }
    true
}

} // verus!
