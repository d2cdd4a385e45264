use vstd::prelude::*;
use crate::error::TunnelError;
use crate::outside::choose_addr;
use crate::text::concat;

verus! {

/// The SRV service under which the edge announces itself.
pub open spec fn srv_service() -> Seq<char> {
    seq![
        'v', '2', '-', 'o', 'r', 'i', 'g', 'i', 'n', 't', 'u', 'n', 'n', 'e', 'l', 'd'
    ]
}

/// The domain under which the edge announces itself.
pub open spec fn srv_domain() -> Seq<char> {
    seq!['a', 'r', 'g', 'o', 't', 'u', 'n', 'n', 'e', 'l', '.', 'c', 'o', 'm']
}

/// The SRV name looked up to find the edge: `_<region>-v2-origintunneld._tcp.argotunnel.com.`,
/// without the region part when no region is asked for.
pub open spec fn srv_name_of(region: Option<Seq<char>>) -> Seq<char> {
    let prefix = match region {
        Some(r) => r + seq!['-'],
        None => Seq::empty(),
    };
    seq!['_'] + prefix + srv_service() + seq!['.', '_', 't', 'c', 'p', '.'] + srv_domain() + seq!['.']
}

/// The SRV name to look up for a region.
pub fn srv_name(region: Option<String>) -> (r: String)
    ensures
        r@ == srv_name_of(
            match region {
                Some(s) => Some(s@),
                None => None,
            },
        ),
{
    let start = "_";
    let dash = "-";
    let rest = "v2-origintunneld._tcp.argotunnel.com.";
    proof {
        reveal_strlit("_");
        reveal_strlit("-");
        reveal_strlit("v2-origintunneld._tcp.argotunnel.com.");
        assert(rest@ =~= srv_service() + seq!['.', '_', 't', 'c', 'p', '.'] + srv_domain() + seq!['.']);
    }
    let with_region = match &region {
        Some(r) => {
            let a = concat(start, r.as_str());
            concat(a.as_str(), dash)
        },
        None => start.to_owned(),
    };
    let out = concat(with_region.as_str(), rest);
    proof {
        match region {
            Some(s) => {
                assert(out@ =~= srv_name_of(Some(s@)));
            },
            None => {
                assert(out@ =~= srv_name_of(None));
            },
        }
    }
    out
}

/// An IP address of the edge, as the number its octets write in network order.
#[derive(Debug, Clone, Copy, PartialEq, Eq, Structural)]
pub enum EdgeIp {
    V4(u32),
    V6(u128),
}

/// A socket address of the edge.
#[derive(Debug, Clone, Copy, PartialEq, Eq, Structural)]
pub struct EdgeAddr {
    pub ip: EdgeIp,
    pub port: u16,
}

/// What one SRV record led to: its port and the addresses its target has.
#[derive(Debug)]
pub struct SrvTarget {
    pub port: u16,
    pub ips: Vec<EdgeIp>,
}

/// The addresses of one target, each with the target's port.
pub open spec fn target_addrs(t: SrvTarget) -> Seq<EdgeAddr> {
    t.ips@.map_values(|ip: EdgeIp| EdgeAddr { ip, port: t.port })
}

/// Every address of every target, targets in order.
pub open spec fn all_addrs(ts: Seq<SrvTarget>) -> Seq<EdgeAddr>
    decreases ts.len(),
{
    if ts.len() == 0 {
        Seq::empty()
    } else {
        all_addrs(ts.drop_last()) + target_addrs(ts.last())
    }
}

/// How many addresses the targets hold together.
pub open spec fn ip_count(ts: Seq<SrvTarget>) -> nat
    decreases ts.len(),
{
    if ts.len() == 0 {
        0
    } else {
        ip_count(ts.drop_last()) + ts.last().ips@.len()
    }
}

proof fn lemma_ip_count_grows(ts: Seq<SrvTarget>, j: int, k: int)
    requires
        0 <= j < k <= ts.len(),
    ensures
        ip_count(ts.take(j)) + ts[j].ips@.len() <= ip_count(ts.take(k)),
    decreases k,
{
    assert(ts.take(k).drop_last() =~= ts.take(k - 1));
    assert(ts.take(k).last() == ts[k - 1]);
    if j < k - 1 {
        lemma_ip_count_grows(ts, j, k - 1);
    }
}

/// The addresses are those of every target in turn, whatever their ports:
/// as many as the targets hold together, and the `j`-th address of the
/// `k`-th target, with that target's port, stands after the addresses of
/// the targets before it.
pub proof fn lemma_all_addrs_layout(ts: Seq<SrvTarget>)
    ensures
        all_addrs(ts).len() == ip_count(ts),
        forall|k: int, j: int|
            0 <= k < ts.len() && 0 <= j < ts[k].ips@.len() ==> all_addrs(ts)[ip_count(ts.take(k))
                + j] == (EdgeAddr { ip: #[trigger] ts[k].ips@[j], port: ts[k].port }),
    decreases ts.len(),
{
    if ts.len() > 0 {
        let n = ts.len() as int;
        let t = ts.drop_last();
        lemma_all_addrs_layout(t);
        assert forall|k: int, j: int|
            0 <= k < ts.len() && 0 <= j < ts[k].ips@.len() implies all_addrs(ts)[ip_count(
                ts.take(k),
            ) + j] == (EdgeAddr { ip: #[trigger] ts[k].ips@[j], port: ts[k].port }) by {
            if k < n - 1 {
                assert(t[k] == ts[k]);
                assert(ts.take(k) =~= t.take(k));
                lemma_ip_count_grows(t, k, n - 1);
                assert(t.take(n - 1) =~= t);
                assert(t[k].ips@[j] == ts[k].ips@[j]);
            } else {
                assert(ts.take(k) =~= t);
            }
        }
    }
}

/// Pairs each address that the targets resolved to with its target's port.
pub fn edge_addrs(targets: &Vec<SrvTarget>) -> (r: Vec<EdgeAddr>)
    ensures
        r@ == all_addrs(targets@),
        r@.len() == ip_count(targets@),
        forall|k: int, j: int|
            0 <= k < targets@.len() && 0 <= j < targets@[k].ips@.len() ==> r@[ip_count(
                targets@.take(k),
            ) + j] == (EdgeAddr { ip: #[trigger] targets@[k].ips@[j], port: targets@[k].port }),
{
    let mut out: Vec<EdgeAddr> = Vec::new();
    let mut i: usize = 0;
    while i < targets.len()
        invariant
            i <= targets@.len(),
            out@ == all_addrs(targets@.take(i as int)),
        decreases targets@.len() - i,
    {
        let t = &targets[i];
        let ghost before = out@;
        let mut j: usize = 0;
        while j < t.ips.len()
            invariant
                j <= t.ips@.len(),
                out@ == before + target_addrs(*t).take(j as int),
            decreases t.ips@.len() - j,
        {
            out.push(EdgeAddr { ip: t.ips[j], port: t.port });
            j = j + 1;
            assert(out@ =~= before + target_addrs(*t).take(j as int));
        }
        proof {
            assert(target_addrs(*t).take(t.ips@.len() as int) =~= target_addrs(*t));
            assert(targets@.take(i + 1).drop_last() =~= targets@.take(i as int));
            assert(targets@.take(i + 1).last() == *t);
        }
        i = i + 1;
    }
    assert(targets@.take(targets@.len() as int) =~= targets@);
    proof {
        lemma_all_addrs_layout(targets@);
    }
    out
}

/// The addresses at which the edge can be reached; never empty.
pub struct EdgeDiscovery {
    addrs: Vec<EdgeAddr>,
}

impl EdgeDiscovery {
    #[verifier::type_invariant]
    spec fn has_addrs(&self) -> bool {
        self.addrs@.len() > 0
    }

    /// The known addresses.
    pub closed spec fn addrs_view(&self) -> Seq<EdgeAddr> {
        self.addrs@
    }

    /// Keeps the addresses that discovery found; finding none is a failure.
    pub fn from_addrs(addrs: Vec<EdgeAddr>) -> (r: Result<EdgeDiscovery, TunnelError>)
        ensures
            match r {
                Ok(d) => addrs@.len() > 0 && d.addrs_view() == addrs@,
                Err(e) => addrs@.len() == 0 && e is EdgeDiscoveryFailed,
            },
    {
        if addrs.len() == 0 {
            Err(TunnelError::EdgeDiscoveryFailed)
        } else {
            Ok(EdgeDiscovery { addrs })
        }
    }

    /// Keeps every address that the SRV targets resolved to.
    pub fn from_targets(targets: &Vec<SrvTarget>) -> (r: Result<EdgeDiscovery, TunnelError>)
        ensures
            match r {
                Ok(d) => all_addrs(targets@).len() > 0 && d.addrs_view() == all_addrs(targets@),
                Err(e) => all_addrs(targets@).len() == 0 && e is EdgeDiscoveryFailed,
            },
    {
        EdgeDiscovery::from_addrs(edge_addrs(targets))
    }

    /// The known addresses.
    pub fn addrs(&self) -> (r: &Vec<EdgeAddr>)
        ensures
            r@ == self.addrs_view(),
            r@.len() > 0,
    {
        proof {
            use_type_invariant(self);
        }
        &self.addrs
    }

    /// One of the known addresses, chosen at random.
    pub fn pick(&self) -> (a: EdgeAddr)
        ensures
            self.addrs_view().contains(a),
    {
        proof {
            use_type_invariant(self);
        }
        match choose_addr(&self.addrs) {
            Some(a) => a,
            None => self.addrs[0],
        }
    }
}

} // verus!
