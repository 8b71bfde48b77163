//! Decisions the proxy makes around the detection engine: the tally of
//! judged requests and the route of the statistics page.
use vstd::prelude::*;
use crate::detector::ActorStatus;
use vstd::string::StringSliceAdditionalSpecFns;

verus! {

/// Requests counted by how their client was judged.
#[derive(Clone, Copy, Debug, PartialEq, Eq, Structural)]
pub struct ReqStats {
    pub num_good_reqs: u32,
    pub num_susp_reqs: u32,
    pub num_bad_reqs: u32,
}

/// The path under which the proxy answers with its statistics.
pub const ANALYTICS_PATH: &'static str = "/botdetector_analytics";

/// `n + 1`, wrapping past the largest value.
pub open spec fn bump(n: u32) -> u32 {
    if n == u32::MAX {
        0
    } else {
        (n + 1) as u32
    }
}

impl ReqStats {
    /// No request counted yet.
    pub fn new() -> (r: ReqStats)
        ensures
            r == (ReqStats { num_good_reqs: 0, num_susp_reqs: 0, num_bad_reqs: 0 }),
    {
        ReqStats { num_good_reqs: 0, num_susp_reqs: 0, num_bad_reqs: 0 }
    }

    /// Count one request whose client was judged `status`, and tell whether
    /// the request is to be turned away: exactly the bad ones are.
    pub fn count(&mut self, status: ActorStatus) -> (blocked: bool)
        ensures
            blocked == (status is BadActor),
            final(self).num_good_reqs == if status is GoodActor {
                bump(old(self).num_good_reqs)
            } else {
                old(self).num_good_reqs
            },
            final(self).num_susp_reqs == if status is SuspiciousActor {
                bump(old(self).num_susp_reqs)
            } else {
                old(self).num_susp_reqs
            },
            final(self).num_bad_reqs == if status is BadActor {
                bump(old(self).num_bad_reqs)
            } else {
                old(self).num_bad_reqs
            },
    {
        match status {
            ActorStatus::BadActor => {
                self.num_bad_reqs = self.num_bad_reqs.wrapping_add(1);
                true
            },
            ActorStatus::SuspiciousActor(_) => {
                self.num_susp_reqs = self.num_susp_reqs.wrapping_add(1);
                false
            },
            ActorStatus::GoodActor => {
                self.num_good_reqs = self.num_good_reqs.wrapping_add(1);
                false
            },
        }
    }
}

/// Whether `p` starts with `prefix`, byte for byte.
pub open spec fn has_prefix(p: Seq<u8>, prefix: Seq<u8>) -> bool {
    prefix.len() <= p.len() && p.subrange(0, prefix.len() as int) == prefix
}

/// Whether a request path asks for the statistics page rather than the
/// backend.
pub fn is_analytics_path(p: &str) -> (r: bool)
    ensures
        r == has_prefix(p.spec_bytes(), ANALYTICS_PATH.spec_bytes()),
{
    let pb = p.as_bytes();
    let qb = ANALYTICS_PATH.as_bytes();
    if qb.len() > pb.len() {
        return false;
    }
    let mut i: usize = 0;
    while i < qb.len()
        invariant
            qb.len() <= pb.len(),
            pb@ == p.spec_bytes(),
            qb@ == ANALYTICS_PATH.spec_bytes(),
            i <= qb.len(),
            forall|j: int| 0 <= j < i ==> pb@[j] == qb@[j],
        decreases qb.len() - i,
    {
        if pb[i] != qb[i] {
            assert(pb@.subrange(0, qb@.len() as int)[i as int] != qb@[i as int]);
            return false;
        }
        i = i + 1;
    }
    assert(pb@.subrange(0, qb@.len() as int) =~= qb@);
    true
}

} // verus!
