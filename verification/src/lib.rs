//! Reconciles a declarative list of network-address intents — attach an
//! Elastic IP, assign a secondary private IPv4 address, assign an IPv6
//! address — against a single cloud compute instance. The library parses and
//! validates the user-data batch, resolves instance-identity facts lazily and
//! at most once each, selects a discovered address under the availability
//! policy, and decides every mutating call in input order through a step
//! machine. The embedding program performs the outside work (metadata
//! lookups, networking calls) and hands each outcome back as an event.

pub mod actions;
pub mod entries;
pub mod executor;
pub mod ip;
pub mod json;
pub mod resolver;
pub mod selector;
pub mod text;

use vstd::prelude::*;

verus! {

/// Why a run of the reconciler stopped.
#[derive(Clone, Copy, PartialEq, Eq, Structural, Debug)]
pub enum Error {
    MalformedInput,
    AmbiguousEipSpec,
    InvalidIdentifier,
    MetadataUnavailable,
    NoAddressesFound,
    AllAddressesInUse,
    AssociationConflict,
    AssignmentRejected,
}

} // verus!
