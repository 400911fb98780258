//! The action executor: a step machine that walks the validated action batch
//! in input order, resolves identity facts on demand, selects addresses when
//! filters are given, and names the mutating call that is due next. The
//! caller performs each issued command against the outside world and hands
//! the outcome back as an event; the machine halts at the first failure and
//! never revisits an action.

use vstd::prelude::*;
use crate::Error;
use crate::actions::{Action, ActionView, EipActionView, Filter, first_problem, lemma_valid_at};
use crate::ip::{Ipv4, Ipv6};
use crate::resolver::{MetadataQuery, Resolver};
use crate::selector::{CandidateAddress, select, spec_available, spec_pool};

verus! {

/// One piece of outside work the machine asks its caller to perform.
#[derive(Debug, Clone, PartialEq, Eq)]
pub enum Command {
    FetchMetadata(MetadataQuery),
    DescribeAddresses { filters: Vec<Filter> },
    AssociateAddress { allocation_id: String, instance_id: String, allow_reassociation: bool },
    AssignPrivateIpv4 { network_interface_id: String, address: Ipv4 },
    AssignIpv6 { network_interface_id: String, address: Ipv6 },
}

/// What the outside world answered to the last command.
#[derive(Debug, Clone, PartialEq, Eq)]
pub enum Event {
    Begin,
    MetadataOk(String),
    MetadataFailed,
    AddressesDescribed(Vec<CandidateAddress>),
    AssociateOk(String),
    AssociateConflict,
    AssignOk,
    AssignFailed,
}

/// What one step of the machine decided.
#[derive(Debug, Clone, PartialEq, Eq)]
pub enum Step {
    Issue(Command),
    Finished,
    Failed(Error),
}

/// Where the machine stands between steps.
#[derive(Debug, Clone, Copy, PartialEq, Eq, Structural)]
pub enum Phase {
    Init,
    FetchingRegion,
    FetchingInstanceId,
    FetchingMac,
    FetchingInterfaceId,
    Describing,
    Associating,
    Assigning,
    Done,
    Stopped,
}

/// The machine: the validated batch, the next action to run, the memoized
/// identity facts, and the phase within the current action.
pub struct Executor {
    pub actions: Vec<Action>,
    pub idx: usize,
    pub resolver: Resolver,
    pub phase: Phase,
}

/// The reassociation flag of an Elastic-IP entry, defaulting to true.
pub open spec fn allow_of(e: EipActionView) -> bool {
    match e.allow_reassociation {
        Some(b) => b,
        None => true,
    }
}

/// An identity fact as the character sequence it holds.
pub open spec fn fact_view(o: Option<String>) -> Option<Seq<char>> {
    match o {
        Some(s) => Some(s@),
        None => None,
    }
}

/// Which events may answer which phase.
pub open spec fn event_matches(phase: Phase, ev: Event) -> bool {
    match phase {
        Phase::Init => ev is Begin,
        Phase::FetchingRegion => ev is MetadataOk || ev is MetadataFailed,
        Phase::FetchingInstanceId => ev is MetadataOk || ev is MetadataFailed,
        Phase::FetchingMac => ev is MetadataOk || ev is MetadataFailed,
        Phase::FetchingInterfaceId => ev is MetadataOk || ev is MetadataFailed,
        Phase::Describing => ev is AddressesDescribed,
        Phase::Associating => ev is AssociateOk || ev is AssociateConflict,
        Phase::Assigning => ev is AssignOk || ev is AssignFailed,
        Phase::Done => false,
        Phase::Stopped => false,
    }
}

impl Executor {
    /// The machine's invariant: the batch is validated, the cursor is in
    /// range, the resolver is sound, and the phase agrees with the current
    /// action and the facts resolved so far.
    pub open spec fn wf(&self) -> bool {
        &&& self.idx <= self.actions@.len()
        &&& self.resolver.wf()
        &&& first_problem(self.actions.deep_view()) is None
        &&& match self.phase {
            Phase::Init => self.idx == 0 && self.resolver.region_fact() is None
                && self.resolver.instance_id_fact() is None && self.resolver.mac_fact() is None
                && self.resolver.interface_id_fact() is None,
            Phase::FetchingRegion => self.resolver.region_fact() is None,
            Phase::FetchingInstanceId => self.idx < self.actions@.len()
                && self.actions.deep_view()[self.idx as int] is Eip
                && self.resolver.instance_id_fact() is None,
            Phase::FetchingMac => self.idx < self.actions@.len() && (self.actions.deep_view()[
                self.idx as int
            ] is Ipv4 || self.actions.deep_view()[self.idx as int] is Ipv6)
                && self.resolver.mac_fact() is None,
            Phase::FetchingInterfaceId => self.idx < self.actions@.len()
                && (self.actions.deep_view()[self.idx as int] is Ipv4
                || self.actions.deep_view()[self.idx as int] is Ipv6) && self.resolver.mac_fact()
                is Some && self.resolver.interface_id_fact() is None,
            Phase::Describing => self.idx < self.actions@.len() && (match self.actions.deep_view()[
                self.idx as int
            ] {
                ActionView::Eip(e) => e.allocation_id is None && e.filters is Some,
                _ => false,
            }) && self.resolver.instance_id_fact() is Some,
            Phase::Associating => self.idx < self.actions@.len() && self.actions.deep_view()[
                self.idx as int
            ] is Eip && self.resolver.instance_id_fact() is Some,
            Phase::Assigning => self.idx < self.actions@.len() && (self.actions.deep_view()[
                self.idx as int
            ] is Ipv4 || self.actions.deep_view()[self.idx as int] is Ipv6)
                && self.resolver.interface_id_fact() is Some,
            Phase::Done => self.idx == self.actions@.len(),
            Phase::Stopped => true,
        }
    }

    /// A machine over a validated batch, before any outside call.
    pub fn new(actions: Vec<Action>) -> (r: Executor)
        requires
            first_problem(actions.deep_view()) is None,
        ensures
            r.wf(),
            r.phase is Init,
            r.idx == 0,
            r.actions == actions,
    {
        Executor { actions, idx: 0, resolver: Resolver::new(), phase: Phase::Init }
    }

    fn begin(&mut self) -> (r: Step)
        requires
            old(self).idx <= old(self).actions@.len(),
            old(self).resolver.wf(),
            first_problem(old(self).actions.deep_view()) is None,
        ensures
            final(self).wf(),
            final(self).actions == old(self).actions,
            final(self).idx == old(self).idx,
            final(self).resolver == old(self).resolver,
            begin_shape(*final(self), r),
    {
        proof {
            crate::resolver::lemma_interface_resolved_via_mac(self.resolver);
            if self.idx < self.actions@.len() {
                lemma_valid_at(self.actions.deep_view(), self.idx as int);
                assert(self.actions.deep_view()[self.idx as int] == self.actions@[
                    self.idx as int
                ].deep_view());
            }
        }
        if self.idx == self.actions.len() {
            self.phase = Phase::Done;
            return Step::Finished;
        }
        let is_eip = match &self.actions[self.idx] {
            Action::Eip(_) => true,
            _ => false,
        };
        if is_eip {
            if self.resolver.instance_id().is_none() {
                self.phase = Phase::FetchingInstanceId;
                return Step::Issue(Command::FetchMetadata(MetadataQuery::InstanceId));
            }
            let instance_id = self.resolver.instance_id().as_ref().unwrap().clone();
            let mut alloc: Option<String> = None;
            let mut filters: Option<Vec<Filter>> = None;
            let mut allow: bool = true;
            match &self.actions[self.idx] {
                Action::Eip(e) => {
                    if let Some(id) = &e.allocation_id {
                        alloc = Some(id.clone());
                    }
                    if let Some(fs) = &e.filters {
                        filters = Some(clone_filters(fs));
                    }
                    if let Some(b) = e.allow_reassociation {
                        allow = b;
                    }
                },
                _ => {
                    proof {
                        assert(false);
                    }
                },
            }
            match alloc {
                Some(id) => {
                    self.phase = Phase::Associating;
                    Step::Issue(
                        Command::AssociateAddress {
                            allocation_id: id,
                            instance_id,
                            allow_reassociation: allow,
                        },
                    )
                },
                None => {
                    match filters {
                        Some(fs) => {
                            self.phase = Phase::Describing;
                            Step::Issue(Command::DescribeAddresses { filters: fs })
                        },
                        None => {
                            proof {
                                assert(false);
                            }
                            Step::Finished
                        },
                    }
                },
            }
        } else {
            let addr4 = match &self.actions[self.idx] {
                Action::Ipv4(a) => Some(*a),
                _ => None,
            };
            let addr6 = match &self.actions[self.idx] {
                Action::Ipv6(a) => Some(*a),
                _ => None,
            };
            match self.resolver.next_query_for_interface_id() {
                Some(q) => {
                    match q {
                        MetadataQuery::Mac => {
                            self.phase = Phase::FetchingMac;
                            Step::Issue(Command::FetchMetadata(MetadataQuery::Mac))
                        },
                        MetadataQuery::InterfaceIdForMac(m) => {
                            self.phase = Phase::FetchingInterfaceId;
                            Step::Issue(
                                Command::FetchMetadata(MetadataQuery::InterfaceIdForMac(m)),
                            )
                        },
                        _ => {
                            proof {
                                assert(false);
                            }
                            Step::Finished
                        },
                    }
                },
                None => {
                    let network_interface_id = self.resolver.interface_id().as_ref().unwrap()
                        .clone();
                    self.phase = Phase::Assigning;
                    match (addr4, addr6) {
                        (Some(a), _) => Step::Issue(
                            Command::AssignPrivateIpv4 { network_interface_id, address: a },
                        ),
                        (None, Some(a)) => Step::Issue(
                            Command::AssignIpv6 { network_interface_id, address: a },
                        ),
                        (None, None) => {
                            proof {
                                assert(false);
                            }
                            Step::Finished
                        },
                    }
                },
            }
        }
    }

    /// Feeds the machine one event and takes its next decision. The batch
    /// never changes, the cursor advances only on a success event, and a
    /// failure event stops the machine for good.
    pub fn step(&mut self, event: Event) -> (r: Step)
        requires
            old(self).wf(),
            event_matches(old(self).phase, event),
        ensures
            final(self).wf(),
            step_rel(*old(self), event, *final(self), r),
    {
        let ph = self.phase;
        match (ph, event) {
            (Phase::Init, Event::Begin) => {
                self.phase = Phase::FetchingRegion;
                Step::Issue(Command::FetchMetadata(MetadataQuery::Region))
            },
            (Phase::FetchingRegion, Event::MetadataOk(v)) => {
                self.resolver.record_region(v);
                self.begin()
            },
            (Phase::FetchingInstanceId, Event::MetadataOk(v)) => {
                self.resolver.record_instance_id(v);
                self.begin()
            },
            (Phase::FetchingMac, Event::MetadataOk(v)) => {
                proof {
                    crate::resolver::lemma_interface_resolved_via_mac(self.resolver);
                }
                self.resolver.record_mac(v);
                self.begin()
            },
            (Phase::FetchingInterfaceId, Event::MetadataOk(v)) => {
                self.resolver.record_interface_id(v);
                self.begin()
            },
            (Phase::FetchingRegion, Event::MetadataFailed)
            | (Phase::FetchingInstanceId, Event::MetadataFailed)
            | (Phase::FetchingMac, Event::MetadataFailed)
            | (Phase::FetchingInterfaceId, Event::MetadataFailed) => {
                self.phase = Phase::Stopped;
                Step::Failed(Error::MetadataUnavailable)
            },
            (Phase::Describing, Event::AddressesDescribed(list)) => {
                proof {
                    lemma_valid_at(self.actions.deep_view(), self.idx as int);
                    assert(self.actions.deep_view()[self.idx as int] == self.actions@[
                        self.idx as int
                    ].deep_view());
                }
                let mut allow: bool = true;
                match &self.actions[self.idx] {
                    Action::Eip(e) => {
                        if let Some(b) = e.allow_reassociation {
                            allow = b;
                        }
                    },
                    _ => {
                        proof {
                            assert(false);
                        }
                    },
                }
                match select(&list, allow) {
                    Err(e) => {
                        self.phase = Phase::Stopped;
                        Step::Failed(e)
                    },
                    Ok(sel) => {
                        let instance_id = self.resolver.instance_id().as_ref().unwrap().clone();
                        self.phase = Phase::Associating;
                        Step::Issue(
                            Command::AssociateAddress {
                                allocation_id: sel.allocation_id,
                                instance_id,
                                allow_reassociation: allow,
                            },
                        )
                    },
                }
            },
            (Phase::Associating, Event::AssociateOk(_response)) => {
                let n = self.actions.len();
                proof {
                    assert(self.idx < n);
                }
                self.idx = self.idx + 1;
                self.begin()
            },
            (Phase::Associating, Event::AssociateConflict) => {
                self.phase = Phase::Stopped;
                Step::Failed(Error::AssociationConflict)
            },
            (Phase::Assigning, Event::AssignOk) => {
                let n = self.actions.len();
                proof {
                    assert(self.idx < n);
                }
                self.idx = self.idx + 1;
                self.begin()
            },
            (Phase::Assigning, Event::AssignFailed) => {
                self.phase = Phase::Stopped;
                Step::Failed(Error::AssignmentRejected)
            },
            _ => {
                proof {
                    assert(false);
                }
                Step::Finished
            },
        }
    }
}

/// How the machine opens work on the action under its cursor (or finishes):
/// what phase it enters and which command it issues, as a function of the
/// state it then holds.
pub open spec fn begin_shape(post: Executor, r: Step) -> bool {
    let acts = post.actions.deep_view();
    if post.idx as int == acts.len() {
        post.phase is Done && r is Finished
    } else if post.idx as int > acts.len() {
        false
    } else {
        match acts[post.idx as int] {
            ActionView::Eip(e) => {
                if post.resolver.instance_id_fact() is None {
                    post.phase is FetchingInstanceId && r matches Step::Issue(
                        Command::FetchMetadata(MetadataQuery::InstanceId),
                    )
                } else if e.allocation_id is Some {
                    post.phase is Associating && (r matches Step::Issue(
                        Command::AssociateAddress {
                            allocation_id,
                            instance_id,
                            allow_reassociation,
                        },
                    ) && allocation_id@ == e.allocation_id->Some_0 && Some(instance_id@)
                        == fact_view(post.resolver.instance_id_fact()) && allow_reassociation
                        == allow_of(e))
                } else {
                    post.phase is Describing && (r matches Step::Issue(
                        Command::DescribeAddresses { filters },
                    ) && Some(filters.deep_view()) == e.filters)
                }
            },
            ActionView::Ipv4(a) => {
                if post.resolver.mac_fact() is None {
                    post.phase is FetchingMac && r matches Step::Issue(
                        Command::FetchMetadata(MetadataQuery::Mac),
                    )
                } else if post.resolver.interface_id_fact() is None {
                    post.phase is FetchingInterfaceId && (r matches Step::Issue(
                        Command::FetchMetadata(MetadataQuery::InterfaceIdForMac(m)),
                    ) && Some(m@) == fact_view(post.resolver.mac_fact()))
                } else {
                    post.phase is Assigning && (r matches Step::Issue(
                        Command::AssignPrivateIpv4 { network_interface_id, address },
                    ) && Some(network_interface_id@) == fact_view(
                        post.resolver.interface_id_fact(),
                    ) && address == a)
                }
            },
            ActionView::Ipv6(a) => {
                if post.resolver.mac_fact() is None {
                    post.phase is FetchingMac && r matches Step::Issue(
                        Command::FetchMetadata(MetadataQuery::Mac),
                    )
                } else if post.resolver.interface_id_fact() is None {
                    post.phase is FetchingInterfaceId && (r matches Step::Issue(
                        Command::FetchMetadata(MetadataQuery::InterfaceIdForMac(m)),
                    ) && Some(m@) == fact_view(post.resolver.mac_fact()))
                } else {
                    post.phase is Assigning && (r matches Step::Issue(
                        Command::AssignIpv6 { network_interface_id, address },
                    ) && Some(network_interface_id@) == fact_view(
                        post.resolver.interface_id_fact(),
                    ) && address == a)
                }
            },
        }
    }
}

/// The resolver learned the region and nothing else changed.
pub open spec fn recorded_region(pre: Resolver, post: Resolver, v: String) -> bool {
    &&& post.region_fact() == Some(v)
    &&& post.instance_id_fact() == pre.instance_id_fact()
    &&& post.mac_fact() == pre.mac_fact()
    &&& post.interface_id_fact() == pre.interface_id_fact()
}

/// The resolver learned the instance id and nothing else changed.
pub open spec fn recorded_instance_id(pre: Resolver, post: Resolver, v: String) -> bool {
    &&& post.instance_id_fact() == Some(v)
    &&& post.region_fact() == pre.region_fact()
    &&& post.mac_fact() == pre.mac_fact()
    &&& post.interface_id_fact() == pre.interface_id_fact()
}

/// The resolver learned the MAC and nothing else changed.
pub open spec fn recorded_mac(pre: Resolver, post: Resolver, v: String) -> bool {
    &&& post.mac_fact() == Some(v)
    &&& post.region_fact() == pre.region_fact()
    &&& post.instance_id_fact() == pre.instance_id_fact()
    &&& post.interface_id_fact() == pre.interface_id_fact()
}

/// The resolver learned the interface id and nothing else changed.
pub open spec fn recorded_interface_id(pre: Resolver, post: Resolver, v: String) -> bool {
    &&& post.interface_id_fact() == Some(v)
    &&& post.region_fact() == pre.region_fact()
    &&& post.instance_id_fact() == pre.instance_id_fact()
    &&& post.mac_fact() == pre.mac_fact()
}

/// The machine stopped for good without touching anything else.
pub open spec fn stopped(pre: Executor, post: Executor) -> bool {
    &&& post.actions == pre.actions
    &&& post.idx == pre.idx
    &&& post.resolver == pre.resolver
    &&& post.phase is Stopped
}

/// The full transition relation of one step: what the next state and the
/// decision are for every phase and event, with the address choice left
/// exactly as free as the selection policy's randomness.
pub open spec fn step_rel(pre: Executor, ev: Event, post: Executor, r: Step) -> bool {
    match (pre.phase, ev) {
        (Phase::Init, Event::Begin) => {
            &&& post.actions == pre.actions
            &&& post.idx == pre.idx
            &&& post.resolver == pre.resolver
            &&& post.phase is FetchingRegion
            &&& r matches Step::Issue(Command::FetchMetadata(MetadataQuery::Region))
        },
        (Phase::FetchingRegion, Event::MetadataOk(v)) => {
            &&& post.actions == pre.actions
            &&& post.idx == pre.idx
            &&& recorded_region(pre.resolver, post.resolver, v)
            &&& begin_shape(post, r)
        },
        (Phase::FetchingInstanceId, Event::MetadataOk(v)) => {
            &&& post.actions == pre.actions
            &&& post.idx == pre.idx
            &&& recorded_instance_id(pre.resolver, post.resolver, v)
            &&& begin_shape(post, r)
        },
        (Phase::FetchingMac, Event::MetadataOk(v)) => {
            &&& post.actions == pre.actions
            &&& post.idx == pre.idx
            &&& recorded_mac(pre.resolver, post.resolver, v)
            &&& begin_shape(post, r)
        },
        (Phase::FetchingInterfaceId, Event::MetadataOk(v)) => {
            &&& post.actions == pre.actions
            &&& post.idx == pre.idx
            &&& recorded_interface_id(pre.resolver, post.resolver, v)
            &&& begin_shape(post, r)
        },
        (Phase::FetchingRegion, Event::MetadataFailed) => stopped(pre, post) && r == Step::Failed(
            Error::MetadataUnavailable,
        ),
        (Phase::FetchingInstanceId, Event::MetadataFailed) => stopped(pre, post) && r
            == Step::Failed(Error::MetadataUnavailable),
        (Phase::FetchingMac, Event::MetadataFailed) => stopped(pre, post) && r == Step::Failed(
            Error::MetadataUnavailable,
        ),
        (Phase::FetchingInterfaceId, Event::MetadataFailed) => stopped(pre, post) && r
            == Step::Failed(Error::MetadataUnavailable),
        (Phase::Describing, Event::AddressesDescribed(list)) => {
            &&& post.actions == pre.actions
            &&& post.idx == pre.idx
            &&& post.resolver == pre.resolver
            &&& match pre.actions.deep_view()[pre.idx as int] {
                ActionView::Eip(e) => {
                    let cands = list.deep_view();
                    let pool = spec_pool(cands);
                    if cands.len() == 0 {
                        post.phase is Stopped && r == Step::Failed(Error::NoAddressesFound)
                    } else if spec_available(cands).len() == 0 && !allow_of(e) {
                        post.phase is Stopped && r == Step::Failed(Error::AllAddressesInUse)
                    } else {
                        post.phase is Associating && (r matches Step::Issue(
                            Command::AssociateAddress {
                                allocation_id,
                                instance_id,
                                allow_reassociation,
                            },
                        ) && (exists|i: int|
                            0 <= i < pool.len() && allocation_id@ == pool[i].allocation_id) && (
                        pool.len() == 1 ==> allocation_id@ == pool[0].allocation_id) && Some(
                            instance_id@,
                        ) == fact_view(pre.resolver.instance_id_fact()) && allow_reassociation
                            == allow_of(e))
                    }
                },
                _ => false,
            }
        },
        (Phase::Associating, Event::AssociateOk(_response)) => {
            &&& post.actions == pre.actions
            &&& post.idx == pre.idx + 1
            &&& post.resolver == pre.resolver
            &&& begin_shape(post, r)
        },
        (Phase::Associating, Event::AssociateConflict) => stopped(pre, post) && r == Step::Failed(
            Error::AssociationConflict,
        ),
        (Phase::Assigning, Event::AssignOk) => {
            &&& post.actions == pre.actions
            &&& post.idx == pre.idx + 1
            &&& post.resolver == pre.resolver
            &&& begin_shape(post, r)
        },
        (Phase::Assigning, Event::AssignFailed) => stopped(pre, post) && r == Step::Failed(
            Error::AssignmentRejected,
        ),
        _ => false,
    }
}

/// The machine is fail-fast: a step that reports a failure leaves the
/// machine stopped, and a stopped (or finished) machine accepts no further
/// event — the remaining actions are never attempted.
pub proof fn lemma_fail_fast(pre: Executor, ev: Event, post: Executor, r: Step)
    requires
        step_rel(pre, ev, post, r),
        r is Failed,
    ensures
        post.phase is Stopped,
        forall|later: Event| !event_matches(post.phase, later),
{
}

/// Actions run strictly in input order: no step reorders the batch, and the
/// cursor either stays (within one action) or advances by exactly one (when
/// an action's mutating call succeeded).
pub proof fn lemma_strict_order(pre: Executor, ev: Event, post: Executor, r: Step)
    requires
        step_rel(pre, ev, post, r),
    ensures
        post.actions == pre.actions,
        post.idx == pre.idx || post.idx == pre.idx + 1,
        post.idx == pre.idx + 1 ==> (ev is AssociateOk || ev is AssignOk),
{
}

/// Memoization at the machine level: a metadata lookup is only ever issued
/// for a fact that is still unresolved, and the interface lookup carries the
/// resolved MAC. Once a fact is resolved, no step asks for it again.
pub proof fn lemma_no_refetch(pre: Executor, ev: Event, post: Executor, r: Step)
    requires
        pre.wf(),
        step_rel(pre, ev, post, r),
    ensures
        (r matches Step::Issue(Command::FetchMetadata(MetadataQuery::Region))
            ==> post.resolver.region_fact() is None),
        (r matches Step::Issue(Command::FetchMetadata(MetadataQuery::InstanceId))
            ==> post.resolver.instance_id_fact() is None),
        (r matches Step::Issue(Command::FetchMetadata(MetadataQuery::Mac))
            ==> post.resolver.mac_fact() is None),
        (r matches Step::Issue(Command::FetchMetadata(MetadataQuery::InterfaceIdForMac(m)))
            ==> post.resolver.interface_id_fact() is None && post.resolver.mac_fact() is Some
            && m@ == post.resolver.mac_fact()->Some_0@),
{
}

/// An explicit allocation identifier reaches the association call verbatim:
/// whenever a step issues an associate command while the action under the
/// cursor carries an explicit identifier, the command carries exactly that
/// identifier, and the action's reassociation flag (defaulting to true).
pub proof fn lemma_explicit_id_flows_verbatim(
    pre: Executor,
    ev: Event,
    post: Executor,
    r: Step,
    id: Seq<char>,
)
    requires
        pre.wf(),
        step_rel(pre, ev, post, r),
        post.idx < post.actions@.len(),
        (post.actions.deep_view()[post.idx as int] matches ActionView::Eip(e) && e.allocation_id
            == Some(id)),
    ensures
        (r matches Step::Issue(Command::AssociateAddress { allocation_id, allow_reassociation, .. })
            ==> allocation_id@ == id && allow_reassociation == allow_of(
            post.actions.deep_view()[post.idx as int]->Eip_0,
        )),
{
}

fn clone_strings(v: &Vec<String>) -> (r: Vec<String>)
    ensures
        r.deep_view() == v.deep_view(),
{
    let mut r: Vec<String> = Vec::new();
    let mut i: usize = 0;
    while i < v.len()
        invariant
            i <= v.len(),
            r@.len() == i,
            forall|m: int| 0 <= m < i ==> r@[m]@ == v@[m]@,
        decreases v.len() - i,
    {
        r.push(v[i].clone());
        i = i + 1;
    }
    proof {
        assert(r.deep_view() =~= v.deep_view());
    }
    r
}

fn clone_filter(f: &Filter) -> (r: Filter)
    ensures
        r@ == f@,
{
    Filter { name: f.name.clone(), values: clone_strings(&f.values) }
}

fn clone_filters(v: &Vec<Filter>) -> (r: Vec<Filter>)
    ensures
        r.deep_view() == v.deep_view(),
{
    let mut r: Vec<Filter> = Vec::new();
    let mut i: usize = 0;
    while i < v.len()
        invariant
            i <= v.len(),
            r@.len() == i,
            forall|m: int| 0 <= m < i ==> r@[m]@ == v@[m]@,
        decreases v.len() - i,
    {
        r.push(clone_filter(&v[i]));
        i = i + 1;
    }
    proof {
        assert(r.deep_view() =~= v.deep_view());
    }
    r
}

} // verus!
