use vstd::prelude::*;

use crate::types::{Address, Attestation};

verus! {

/// The mathematical image of an [`Event`].
pub enum EventRec {
    Created { subject: Address, id: Seq<char>, issuer: Address, claim_type: Seq<char>, timestamp: u64 },
    Revoked { issuer: Address, id: Seq<char> },
}

/// A notification record the registry emits for its host to deliver:
/// fire-and-forget, carried in the order the writes happened.
#[derive(Debug)]
pub enum Event {
    Created { subject: Address, id: String, issuer: Address, claim_type: String, timestamp: u64 },
    Revoked { issuer: Address, id: String },
}

impl View for Event {
    type V = EventRec;

    open spec fn view(&self) -> EventRec {
        match self {
            Event::Created { subject, id, issuer, claim_type, timestamp } => EventRec::Created {
                subject: *subject,
                id: id@,
                issuer: *issuer,
                claim_type: claim_type@,
                timestamp: *timestamp,
            },
            Event::Revoked { issuer, id } => EventRec::Revoked { issuer: *issuer, id: id@ },
        }
    }
}

/// Builders for the registry's notification records.
pub struct Events;

impl Events {
    /// The notification for a newly created attestation, carrying
    /// (subject, id, issuer, claim type, creation tick).
    pub fn attestation_created(attestation: &Attestation) -> (e: Event)
        ensures
            e@ == (EventRec::Created {
                subject: attestation@.subject,
                id: attestation@.id,
                issuer: attestation@.issuer,
                claim_type: attestation@.claim_type,
                timestamp: attestation@.timestamp,
            }),
    {
        Event::Created {
            subject: attestation.subject,
            id: attestation.id.clone(),
            issuer: attestation.issuer,
            claim_type: attestation.claim_type.clone(),
            timestamp: attestation.timestamp,
        }
    }

    /// The notification for a revoked attestation, carrying (issuer, id).
    pub fn attestation_revoked(attestation_id: &String, issuer: &Address) -> (e: Event)
        ensures
            e@ == (EventRec::Revoked { issuer: *issuer, id: attestation_id@ }),
    {
        Event::Revoked { issuer: *issuer, id: attestation_id.clone() }
    }
}

} // verus!
