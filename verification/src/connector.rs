use vstd::prelude::*;

use crate::ascii::{find_byte, find_byte_ex, lemma_find_byte};
use crate::error::Error;

verus! {

/// The host part of a `host[:port]` target: what stands before the
/// first colon, or the whole target when no colon occurs.
pub open spec fn host_of(t: Seq<u8>) -> Seq<u8> {
    match find_byte(t, 58u8) {
        Some(i) => t.take(i),
        None => t,
    }
}

/// The port part of a `host[:port]` target: what stands after the
/// first colon, or the default when no colon occurs.
pub open spec fn port_of(t: Seq<u8>, default_port: Seq<u8>) -> Seq<u8> {
    match find_byte(t, 58u8) {
        Some(i) => t.skip(i + 1),
        None => default_port,
    }
}

/// Splits a `host[:port]` target at its first colon, falling back to
/// the default port. An empty host part is rejected.
pub fn split_host_port(target: &[u8], default_port: &[u8]) -> (r: Result<(Vec<u8>, Vec<u8>), Error>)
    ensures
        match r {
            Ok(hp) => {
                &&& host_of(target@).len() > 0
                &&& hp.0@ == host_of(target@)
                &&& hp.1@ == port_of(target@, default_port@)
            },
            Err(e) => e == Error::IncorrectHost && host_of(target@).len() == 0,
        },
{
    let tlen: usize = target.len();
    let host: Vec<u8>;
    let port: Vec<u8>;
    match find_byte_ex(target, 58u8) {
        Some(i) => {
            proof {
                lemma_find_byte(target@, 58u8);
            }
            host = vstd::slice::slice_to_vec(&target[0..i]);
            port = vstd::slice::slice_to_vec(&target[i + 1..tlen]);
            proof {
                assert(host@ =~= host_of(target@));
                assert(port@ =~= port_of(target@, default_port@));
            }
        },
        None => {
            host = vstd::slice::slice_to_vec(target);
            port = vstd::slice::slice_to_vec(default_port);
        },
    }
    if host.len() == 0 {
        return Err(Error::IncorrectHost);
    }
    Ok((host, port))
}

/// The address family of one resolved destination candidate.
#[derive(Clone, Copy, Debug, PartialEq, Eq, Structural)]
pub enum AddrFamily {
    V4,
    V6,
}

/// How one connection attempt binds its local socket.
#[derive(Clone, Copy, Debug, PartialEq, Eq, Structural)]
pub enum BindMode {
    /// Bind to the configured IPv6 source address first.
    BoundV6,
    /// Bind to the configured IPv4 source address first.
    BoundV4,
    /// Connect without an explicit local bind.
    Unbound,
}

/// One planned connection attempt: which resolved candidate to dial
/// (by its position in the resolver's list) and how to bind.
#[derive(Clone, Copy, Debug, PartialEq, Eq, Structural)]
pub struct Attempt {
    pub index: usize,
    pub bind: BindMode,
}

/// The attempts for every candidate of one family, in resolver order,
/// all with the same bind mode.
pub open spec fn attempts_for(fams: Seq<AddrFamily>, fam: AddrFamily, bind: BindMode) -> Seq<
    Attempt,
>
    decreases fams.len(),
{
    if fams.len() == 0 {
        Seq::<Attempt>::empty()
    } else {
        attempts_for(fams.drop_last(), fam, bind) + if fams.last() == fam {
            seq![Attempt { index: (fams.len() - 1) as usize, bind }]
        } else {
            Seq::<Attempt>::empty()
        }
    }
}

/// The ordered connection plan: bound IPv6 candidates when an IPv6
/// source address is configured, then bound IPv4 candidates when an
/// IPv4 source address is configured, then every IPv4 candidate
/// unbound as the last resort. Unbound IPv6 is never attempted.
pub open spec fn plan_spec(fams: Seq<AddrFamily>, bind_v6: bool, bind_v4: bool) -> Seq<Attempt> {
    (if bind_v6 {
        attempts_for(fams, AddrFamily::V6, BindMode::BoundV6)
    } else {
        Seq::<Attempt>::empty()
    }) + (if bind_v4 {
        attempts_for(fams, AddrFamily::V4, BindMode::BoundV4)
    } else {
        Seq::<Attempt>::empty()
    }) + attempts_for(fams, AddrFamily::V4, BindMode::Unbound)
}

/// Plans the ordered connection attempts for the resolved candidate
/// families under the configured source binds.
#[verifier::loop_isolation(false)]
pub fn plan_attempts(fams: &Vec<AddrFamily>, bind_v6: bool, bind_v4: bool) -> (r: Vec<Attempt>)
    ensures
        r@ == plan_spec(fams@, bind_v6, bind_v4),
{
    let mut out: Vec<Attempt> = Vec::new();
    if bind_v6 {
        append_family(&mut out, fams, AddrFamily::V6, BindMode::BoundV6);
    }
    if bind_v4 {
        append_family(&mut out, fams, AddrFamily::V4, BindMode::BoundV4);
    }
    append_family(&mut out, fams, AddrFamily::V4, BindMode::Unbound);
    proof {
        assert(out@ =~= plan_spec(fams@, bind_v6, bind_v4));
    }
    out
}

/// Appends the attempts for every candidate of one family, in order.
#[verifier::loop_isolation(false)]
fn append_family(out: &mut Vec<Attempt>, fams: &Vec<AddrFamily>, fam: AddrFamily, bind: BindMode)
    ensures
        final(out)@ == old(out)@ + attempts_for(fams@, fam, bind),
{
    let n = fams.len();
    let mut i: usize = 0;
    while i < n
        invariant
            i <= n,
            out@ == old(out)@ + attempts_for(fams@.take(i as int), fam, bind),
        decreases n - i,
    {
        if fams[i] == fam {
            out.push(Attempt { index: i, bind });
        }
        i += 1;
        proof {
            assert(fams@.take(i as int).drop_last() =~= fams@.take(i as int - 1));
            assert(fams@.take(i as int).last() == fams@[i as int - 1]);
            assert(out@ =~= old(out)@ + attempts_for(fams@.take(i as int), fam, bind));
        }
    }
    proof {
        assert(fams@.take(n as int) =~= fams@);
    }
}

/// Every attempt of the first segment binds IPv6, of the second
/// binds IPv4, of the third is unbound: then in the concatenation
/// every bound-IPv4 attempt stands before every unbound attempt.
proof fn lemma_segments_order(p: Seq<Attempt>, x: Seq<Attempt>, y: Seq<Attempt>, z: Seq<Attempt>)
    requires
        p == x + y + z,
        forall|t: int| 0 <= t < x.len() ==> (#[trigger] x[t]).bind == BindMode::BoundV6,
        forall|t: int| 0 <= t < y.len() ==> (#[trigger] y[t]).bind == BindMode::BoundV4,
        forall|t: int| 0 <= t < z.len() ==> (#[trigger] z[t]).bind == BindMode::Unbound,
    ensures
        forall|a: int, b: int|
            {
                &&& 0 <= a < p.len()
                &&& 0 <= b < p.len()
                &&& (#[trigger] p[a]).bind == BindMode::BoundV4
                &&& (#[trigger] p[b]).bind == BindMode::Unbound
            } ==> a < b,
{
    assert forall|a: int, b: int|
        {
            &&& 0 <= a < p.len()
            &&& 0 <= b < p.len()
            &&& (#[trigger] p[a]).bind == BindMode::BoundV4
            &&& (#[trigger] p[b]).bind == BindMode::Unbound
        } implies a < b by {
        if a < x.len() {
            assert(p[a] == x[a]);
        } else if a < x.len() + y.len() {
            assert(p[a] == y[a - x.len()]);
        } else {
            assert(p[a] == z[a - x.len() - y.len()]);
        }
        if b < x.len() {
            assert(p[b] == x[b]);
        } else if b < x.len() + y.len() {
            assert(p[b] == y[b - x.len()]);
        } else {
            assert(p[b] == z[b - x.len() - y.len()]);
        }
    }
}


/// Every attempt of one family segment carries that segment's bind
/// mode.
proof fn lemma_attempts_bind(fams: Seq<AddrFamily>, fam: AddrFamily, bind: BindMode)
    ensures
        forall|t: int|
            0 <= t < attempts_for(fams, fam, bind).len() ==> (#[trigger] attempts_for(
                fams,
                fam,
                bind,
            )[t]).bind == bind,
    decreases fams.len(),
{
    if fams.len() > 0 {
        lemma_attempts_bind(fams.drop_last(), fam, bind);
        let a = attempts_for(fams, fam, bind);
        let al = attempts_for(fams.drop_last(), fam, bind);
        assert forall|t: int| 0 <= t < a.len() implies (#[trigger] a[t]).bind == bind by {
            if t < al.len() {
                assert(a[t] == al[t]);
            }
        }
    }
}

/// With both source binds configured, every bound IPv4 attempt stands
/// before every unbound attempt in the plan. An executor that dials
/// the plan in order and keeps the first connection that opens
/// therefore never uses an unbound attempt while a bound IPv4 attempt
/// would succeed.
pub proof fn lemma_bound_ipv4_before_unbound(fams: Seq<AddrFamily>, p: Seq<Attempt>)
    requires
        fams.len() <= usize::MAX,
        p == plan_spec(fams, true, true),
    ensures
        forall|a: int, b: int|
            {
                &&& 0 <= a < p.len()
                &&& 0 <= b < p.len()
                &&& (#[trigger] p[a]).bind == BindMode::BoundV4
                &&& (#[trigger] p[b]).bind == BindMode::Unbound
            } ==> a < b,
{
    let a6 = attempts_for(fams, AddrFamily::V6, BindMode::BoundV6);
    let a4 = attempts_for(fams, AddrFamily::V4, BindMode::BoundV4);
    let au = attempts_for(fams, AddrFamily::V4, BindMode::Unbound);
    lemma_attempts_bind(fams, AddrFamily::V6, BindMode::BoundV6);
    lemma_attempts_bind(fams, AddrFamily::V4, BindMode::BoundV4);
    lemma_attempts_bind(fams, AddrFamily::V4, BindMode::Unbound);
    assert(p == a6 + a4 + au);
    lemma_segments_order(p, a6, a4, au);
}


/// Every candidate of the family has an attempt in its segment, in
/// the segment's bind mode.
proof fn lemma_attempts_cover(fams: Seq<AddrFamily>, fam: AddrFamily, bind: BindMode)
    requires
        fams.len() <= usize::MAX,
    ensures
        forall|k: int|
            0 <= k < fams.len() && fams[k] == fam ==> exists|t: int|
                0 <= t < attempts_for(fams, fam, bind).len() && (#[trigger] attempts_for(
                    fams,
                    fam,
                    bind,
                )[t]).index == k && attempts_for(fams, fam, bind)[t].bind == bind,
    decreases fams.len(),
{
    if fams.len() > 0 {
        lemma_attempts_cover(fams.drop_last(), fam, bind);
        let a = attempts_for(fams, fam, bind);
        let al = attempts_for(fams.drop_last(), fam, bind);
        assert forall|k: int| 0 <= k < fams.len() && fams[k] == fam implies exists|t: int|
            0 <= t < a.len() && (#[trigger] a[t]).index == k && a[t].bind == bind by {
            if k == fams.len() - 1 {
                assert(a[a.len() - 1] == Attempt { index: (fams.len() - 1) as usize, bind });
                assert(a[a.len() - 1].index == k && a[a.len() - 1].bind == bind);
            } else {
                assert(fams.drop_last()[k] == fams[k]);
                let t = choose|t: int|
                    0 <= t < al.len() && (#[trigger] al[t]).index == k && al[t].bind == bind;
                assert(a[t] == al[t]);
                assert(0 <= t < a.len() && a[t].index == k && a[t].bind == bind);
            }
        }
    }
}

/// With both source binds configured, every resolved IPv4 candidate
/// is dialed by some bound IPv4 attempt of the plan: as long as any
/// IPv4 candidate exists, a bound IPv4 attempt exists.
pub proof fn lemma_every_ipv4_has_bound_attempt(fams: Seq<AddrFamily>, p: Seq<Attempt>)
    requires
        fams.len() <= usize::MAX,
        p == plan_spec(fams, true, true),
    ensures
        forall|k: int|
            0 <= k < fams.len() && fams[k] == AddrFamily::V4 ==> exists|t: int|
                0 <= t < p.len() && (#[trigger] p[t]).bind == BindMode::BoundV4 && p[t].index
                    == k,
{
    let a6 = attempts_for(fams, AddrFamily::V6, BindMode::BoundV6);
    let a4 = attempts_for(fams, AddrFamily::V4, BindMode::BoundV4);
    let au = attempts_for(fams, AddrFamily::V4, BindMode::Unbound);
    lemma_attempts_cover(fams, AddrFamily::V4, BindMode::BoundV4);
    assert(p == a6 + a4 + au);
    assert forall|k: int| 0 <= k < fams.len() && fams[k] == AddrFamily::V4 implies exists|t: int|
        0 <= t < p.len() && (#[trigger] p[t]).bind == BindMode::BoundV4 && p[t].index == k by {
        let t = choose|t: int|
            0 <= t < a4.len() && (#[trigger] a4[t]).index == k && a4[t].bind == BindMode::BoundV4;
        assert(p[a6.len() + t] == a4[t]);
        assert(p[a6.len() + t].bind == BindMode::BoundV4 && p[a6.len() + t].index == k);
    }
}

} // verus!
