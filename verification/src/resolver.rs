//! Lazy, memoized instance-identity facts. Each fact is fetched from the
//! metadata capability at most once per process; the resolver decides which
//! lookup is due next and records what came back, while the caller performs
//! the lookups themselves.

use vstd::prelude::*;

verus! {

/// One lookup against the metadata capability.
#[derive(Debug, Clone, PartialEq, Eq)]
pub enum MetadataQuery {
    Region,
    InstanceId,
    Mac,
    InterfaceIdForMac(String),
}

/// The memoized identity facts, each `None` until first fetched, together
/// with a count of the fetches recorded for each fact.
pub struct Resolver {
    region: Option<String>,
    instance_id: Option<String>,
    mac: Option<String>,
    interface_id: Option<String>,
    region_fetches: u64,
    instance_fetches: u64,
    mac_fetches: u64,
    interface_fetches: u64,
}

impl Resolver {
    pub closed spec fn region_fact(&self) -> Option<String> {
        self.region
    }

    pub closed spec fn instance_id_fact(&self) -> Option<String> {
        self.instance_id
    }

    pub closed spec fn mac_fact(&self) -> Option<String> {
        self.mac
    }

    pub closed spec fn interface_id_fact(&self) -> Option<String> {
        self.interface_id
    }

    pub closed spec fn region_fetch_count(&self) -> u64 {
        self.region_fetches
    }

    pub closed spec fn instance_fetch_count(&self) -> u64 {
        self.instance_fetches
    }

    pub closed spec fn mac_fetch_count(&self) -> u64 {
        self.mac_fetches
    }

    pub closed spec fn interface_fetch_count(&self) -> u64 {
        self.interface_fetches
    }

    /// Each fact was fetched exactly once if present and never otherwise,
    /// and the interface identifier is only ever resolved via the MAC.
    pub closed spec fn wf(&self) -> bool {
        &&& self.region_fetches == if self.region is Some {
            1int
        } else {
            0int
        }
        &&& self.instance_fetches == if self.instance_id is Some {
            1int
        } else {
            0int
        }
        &&& self.mac_fetches == if self.mac is Some {
            1int
        } else {
            0int
        }
        &&& self.interface_fetches == if self.interface_id is Some {
            1int
        } else {
            0int
        }
        &&& self.interface_id is Some ==> self.mac is Some
    }

    /// A fresh resolver with no facts and no fetches.
    pub fn new() -> (r: Resolver)
        ensures
            r.wf(),
            r.region_fact() is None,
            r.instance_id_fact() is None,
            r.mac_fact() is None,
            r.interface_id_fact() is None,
    {
        Resolver {
            region: None,
            instance_id: None,
            mac: None,
            interface_id: None,
            region_fetches: 0,
            instance_fetches: 0,
            mac_fetches: 0,
            interface_fetches: 0,
        }
    }

    /// The lookup still needed for the region, if any: memoization issues
    /// none once the fact is present.
    pub fn next_query_for_region(&self) -> (q: Option<MetadataQuery>)
        ensures
            match q {
                Some(MetadataQuery::Region) => self.region_fact() is None,
                None => self.region_fact() is Some,
                _ => false,
            },
    {
        if self.region.is_none() {
            Some(MetadataQuery::Region)
        } else {
            None
        }
    }

    /// The lookup still needed for the instance id, if any.
    pub fn next_query_for_instance_id(&self) -> (q: Option<MetadataQuery>)
        ensures
            match q {
                Some(MetadataQuery::InstanceId) => self.instance_id_fact() is None,
                None => self.instance_id_fact() is Some,
                _ => false,
            },
    {
        if self.instance_id.is_none() {
            Some(MetadataQuery::InstanceId)
        } else {
            None
        }
    }

    /// The lookup still needed for the network-interface id, if any: first
    /// the MAC, then the interface keyed by that MAC; none once resolved.
    pub fn next_query_for_interface_id(&self) -> (q: Option<MetadataQuery>)
        requires
            self.wf(),
        ensures
            match q {
                Some(MetadataQuery::Mac) => self.mac_fact() is None && self.interface_id_fact()
                    is None,
                Some(MetadataQuery::InterfaceIdForMac(m)) => self.mac_fact() == Some(m)
                    && self.interface_id_fact() is None,
                None => self.interface_id_fact() is Some,
                _ => false,
            },
    {
        if self.interface_id.is_some() {
            None
        } else if self.mac.is_none() {
            Some(MetadataQuery::Mac)
        } else {
            let m = self.mac.as_ref().unwrap().clone();
            Some(MetadataQuery::InterfaceIdForMac(m))
        }
    }

    /// Records the region fetched by the caller.
    pub fn record_region(&mut self, v: String)
        requires
            old(self).wf(),
            old(self).region_fact() is None,
        ensures
            final(self).wf(),
            final(self).region_fact() == Some(v),
            final(self).instance_id_fact() == old(self).instance_id_fact(),
            final(self).mac_fact() == old(self).mac_fact(),
            final(self).interface_id_fact() == old(self).interface_id_fact(),
            final(self).region_fetch_count() == old(self).region_fetch_count() + 1,
            final(self).instance_fetch_count() == old(self).instance_fetch_count(),
            final(self).mac_fetch_count() == old(self).mac_fetch_count(),
            final(self).interface_fetch_count() == old(self).interface_fetch_count(),
    {
        self.region = Some(v);
        self.region_fetches = self.region_fetches + 1;
    }

    /// Records the instance id fetched by the caller.
    pub fn record_instance_id(&mut self, v: String)
        requires
            old(self).wf(),
            old(self).instance_id_fact() is None,
        ensures
            final(self).wf(),
            final(self).instance_id_fact() == Some(v),
            final(self).region_fact() == old(self).region_fact(),
            final(self).mac_fact() == old(self).mac_fact(),
            final(self).interface_id_fact() == old(self).interface_id_fact(),
            final(self).instance_fetch_count() == old(self).instance_fetch_count() + 1,
            final(self).region_fetch_count() == old(self).region_fetch_count(),
            final(self).mac_fetch_count() == old(self).mac_fetch_count(),
            final(self).interface_fetch_count() == old(self).interface_fetch_count(),
    {
        self.instance_id = Some(v);
        self.instance_fetches = self.instance_fetches + 1;
    }

    /// Records the MAC address fetched by the caller.
    pub fn record_mac(&mut self, v: String)
        requires
            old(self).wf(),
            old(self).mac_fact() is None,
        ensures
            final(self).wf(),
            final(self).mac_fact() == Some(v),
            final(self).region_fact() == old(self).region_fact(),
            final(self).instance_id_fact() == old(self).instance_id_fact(),
            final(self).interface_id_fact() == old(self).interface_id_fact(),
            final(self).mac_fetch_count() == old(self).mac_fetch_count() + 1,
            final(self).region_fetch_count() == old(self).region_fetch_count(),
            final(self).instance_fetch_count() == old(self).instance_fetch_count(),
            final(self).interface_fetch_count() == old(self).interface_fetch_count(),
    {
        self.mac = Some(v);
        self.mac_fetches = self.mac_fetches + 1;
    }

    /// Records the network-interface id fetched by the caller.
    pub fn record_interface_id(&mut self, v: String)
        requires
            old(self).wf(),
            old(self).interface_id_fact() is None,
            old(self).mac_fact() is Some,
        ensures
            final(self).wf(),
            final(self).interface_id_fact() == Some(v),
            final(self).region_fact() == old(self).region_fact(),
            final(self).instance_id_fact() == old(self).instance_id_fact(),
            final(self).mac_fact() == old(self).mac_fact(),
            final(self).interface_fetch_count() == old(self).interface_fetch_count() + 1,
            final(self).region_fetch_count() == old(self).region_fetch_count(),
            final(self).instance_fetch_count() == old(self).instance_fetch_count(),
            final(self).mac_fetch_count() == old(self).mac_fetch_count(),
    {
        self.interface_id = Some(v);
        self.interface_fetches = self.interface_fetches + 1;
    }

    /// The memoized region, if resolved.
    pub fn region(&self) -> (r: &Option<String>)
        ensures
            *r == self.region_fact(),
    {
        &self.region
    }

    /// The memoized instance id, if resolved.
    pub fn instance_id(&self) -> (r: &Option<String>)
        ensures
            *r == self.instance_id_fact(),
    {
        &self.instance_id
    }

    /// The memoized MAC address, if resolved.
    pub fn mac(&self) -> (r: &Option<String>)
        ensures
            *r == self.mac_fact(),
    {
        &self.mac
    }

    /// The memoized network-interface id, if resolved.
    pub fn interface_id(&self) -> (r: &Option<String>)
        ensures
            *r == self.interface_id_fact(),
    {
        &self.interface_id
    }

    /// The fetches recorded for the MAC address.
    pub fn mac_fetches(&self) -> (n: u64)
        ensures
            n == self.mac_fetch_count(),
    {
        self.mac_fetches
    }

    /// The fetches recorded for the network-interface id.
    pub fn interface_fetches(&self) -> (n: u64)
        ensures
            n == self.interface_fetch_count(),
    {
        self.interface_fetches
    }
}

/// The network-interface id is only ever resolved via the MAC: a resolver
/// holding the former has fetched the latter.
pub proof fn lemma_interface_resolved_via_mac(r: Resolver)
    requires
        r.wf(),
    ensures
        r.interface_id_fact() is Some ==> r.mac_fact() is Some,
{
}

/// Resolving the network-interface id costs exactly two metadata lookups —
/// the MAC, then the interface keyed by it — no matter how many actions ask
/// for it: once it is resolved both counts stand at one, and they never
/// exceed one.
pub proof fn lemma_interface_fetched_exactly_twice(r: Resolver)
    requires
        r.wf(),
    ensures
        r.interface_id_fact() is Some ==> r.mac_fetch_count() + r.interface_fetch_count() == 2,
        r.mac_fetch_count() + r.interface_fetch_count() <= 2,
{
}

} // verus!
