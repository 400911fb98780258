//! Address selection: given the candidate Elastic IPs that discovery
//! returned, pick exactly one under the availability policy, at random when
//! several qualify.

use vstd::prelude::*;
use crate::Error;

verus! {

/// One discovered Elastic IP: its allocation identifier and whether it is
/// currently associated with some instance.
#[derive(Debug, Clone, PartialEq, Eq)]
pub struct CandidateAddress {
    pub allocation_id: String,
    pub is_currently_associated: bool,
}

/// Mathematical model of a `CandidateAddress`.
pub struct CandidateView {
    pub allocation_id: Seq<char>,
    pub is_currently_associated: bool,
}

impl View for CandidateAddress {
    type V = CandidateView;

    open spec fn view(&self) -> CandidateView {
        CandidateView {
            allocation_id: self.allocation_id@,
            is_currently_associated: self.is_currently_associated,
        }
    }
}

impl DeepView for CandidateAddress {
    type V = CandidateView;

    open spec fn deep_view(&self) -> CandidateView {
        self.view()
    }
}

/// The candidates with no current association, in order.
pub open spec fn spec_available(cands: Seq<CandidateView>) -> Seq<CandidateView>
    decreases cands.len(),
{
    if cands.len() == 0 {
        Seq::empty()
    } else {
        spec_available(cands.drop_last()) + if !cands.last().is_currently_associated {
            seq![cands.last()]
        } else {
            Seq::empty()
        }
    }
}

/// The selection pool: the available candidates when any exist, otherwise
/// the full candidate set.
pub open spec fn spec_pool(cands: Seq<CandidateView>) -> Seq<CandidateView> {
    if spec_available(cands).len() > 0 {
        spec_available(cands)
    } else {
        cands
    }
}

/// The outcome of one selection: the chosen allocation identifier, the size
/// of the pool it was chosen from, and whether randomness was consumed.
#[derive(Debug, Clone, PartialEq, Eq)]
pub struct Selection {
    pub allocation_id: String,
    pub pool_len: usize,
    pub used_randomness: bool,
}

/// Relies on rand's thread-local generator: `RngExt::random_range` over the
/// range `0..n` returns a value of that range and panics only when the range
/// is empty.
#[verifier::external_body]
fn random_below(n: usize) -> (r: usize)
    requires
        1 <= n,
    ensures
        r < n,
{
    let mut rng = rand::rng();
    rand::RngExt::random_range(&mut rng, 0..n)
}

fn clone_candidate(c: &CandidateAddress) -> (r: CandidateAddress)
    ensures
        r@ == c@,
{
    CandidateAddress {
        allocation_id: c.allocation_id.clone(),
        is_currently_associated: c.is_currently_associated,
    }
}

/// Picks exactly one candidate. Fails with `NoAddressesFound` when discovery
/// returned nothing, and with `AllAddressesInUse` when every candidate is
/// associated and reassociation is disallowed. Otherwise the choice comes
/// from the pool — the unassociated candidates when any exist, else the full
/// set — deterministically when the pool has a single member, at random
/// otherwise.
pub fn select(candidates: &Vec<CandidateAddress>, allow_reassociation: bool) -> (r: Result<
    Selection,
    Error,
>)
    ensures
        ({
            let cands = candidates.deep_view();
            let pool = spec_pool(cands);
            match r {
                Err(e) => (e == Error::NoAddressesFound && cands.len() == 0) || (e
                    == Error::AllAddressesInUse && cands.len() > 0 && spec_available(cands).len()
                    == 0 && !allow_reassociation),
                Ok(sel) => {
                    &&& cands.len() > 0
                    &&& (spec_available(cands).len() > 0 || allow_reassociation)
                    &&& sel.pool_len == pool.len()
                    &&& sel.used_randomness == (pool.len() > 1)
                    &&& exists|i: int|
                        0 <= i < pool.len() && sel.allocation_id@ == pool[i].allocation_id
                    &&& (pool.len() == 1 ==> sel.allocation_id@ == pool[0].allocation_id)
                },
            }
        }),
{
    proof {
        assert(candidates.deep_view().len() == candidates@.len());
    }
    if candidates.len() == 0 {
        proof {
            assert(candidates.deep_view() =~= Seq::<CandidateView>::empty());
        }
        return Err(Error::NoAddressesFound);
    }
    let ghost cands = candidates.deep_view();
    let mut available: Vec<CandidateAddress> = Vec::new();
    let mut i: usize = 0;
    proof {
        assert(cands.take(0) =~= Seq::<CandidateView>::empty());
    }
    while i < candidates.len()
        invariant
            i <= candidates.len(),
            cands == candidates.deep_view(),
            cands.len() == candidates@.len(),
            available.deep_view() == spec_available(cands.take(i as int)),
        decreases candidates.len() - i,
    {
        let c = &candidates[i];
        if !c.is_currently_associated {
            available.push(clone_candidate(c));
        }
        i = i + 1;
        proof {
            assert(cands.take(i as int).drop_last() =~= cands.take(i as int - 1));
            assert(cands.take(i as int).last() == cands[i as int - 1]);
            assert(available.deep_view() =~= spec_available(cands.take(i as int)));
        }
    }
    proof {
        assert(cands.take(cands.len() as int) =~= cands);
    }
    let pool: Vec<CandidateAddress> = if available.len() > 0 {
        available
    } else if allow_reassociation {
        let mut all: Vec<CandidateAddress> = Vec::new();
        let mut k: usize = 0;
        while k < candidates.len()
            invariant
                k <= candidates.len(),
                cands == candidates.deep_view(),
                cands.len() == candidates@.len(),
                all@.len() == k,
                forall|m: int| 0 <= m < k ==> all@[m]@ == cands[m],
            decreases candidates.len() - k,
        {
            all.push(clone_candidate(&candidates[k]));
            k = k + 1;
        }
        proof {
            assert(all.deep_view() =~= cands);
        }
        all
    } else {
        return Err(Error::AllAddressesInUse);
    };
    let n = pool.len();
    if n == 1 {
        let id = pool[0].allocation_id.clone();
        proof {
            assert(spec_pool(cands)[0] == pool.deep_view()[0]);
        }
        Ok(Selection { allocation_id: id, pool_len: 1, used_randomness: false })
    } else {
        let k = random_below(n);
        let id = pool[k].allocation_id.clone();
        proof {
            assert(spec_pool(cands)[k as int] == pool.deep_view()[k as int]);
        }
        Ok(Selection { allocation_id: id, pool_len: n, used_randomness: true })
    }
}

/// When any candidate is available, the selection pool is exactly the
/// available subset, whatever the reassociation policy says: a selection
/// never steals an associated address while a free one exists.
pub proof fn lemma_pool_prefers_available(cands: Seq<CandidateView>)
    requires
        spec_available(cands).len() > 0,
    ensures
        spec_pool(cands) == spec_available(cands),
{
}

/// Every member of the available subset is an unassociated member of the
/// candidate set.
pub proof fn lemma_available_is_unassociated(cands: Seq<CandidateView>, i: int)
    requires
        0 <= i < spec_available(cands).len(),
    ensures
        !spec_available(cands)[i].is_currently_associated,
        exists|j: int| 0 <= j < cands.len() && cands[j] == spec_available(cands)[i],
    decreases cands.len(),
{
    if cands.len() > 0 {
        let prefix = spec_available(cands.drop_last());
        if i < prefix.len() {
            lemma_available_is_unassociated(cands.drop_last(), i);
            let j = choose|j: int|
                0 <= j < cands.drop_last().len() && cands.drop_last()[j] == prefix[i];
            assert(cands[j] == spec_available(cands)[i]);
        } else {
            assert(spec_available(cands)[i] == cands.last());
            assert(cands[cands.len() - 1] == spec_available(cands)[i]);
        }
    }
}

} // verus!
