pub mod events;
pub mod laws;
pub mod storage;
pub mod types;
pub mod validation;

use vstd::prelude::*;

use crate::events::{Event, EventRec, Events};
use crate::storage::{ids_views, Storage};
use crate::types::{id_spec, status_of, Address, AttRec, Attestation, AttestationStatus, Error};
use crate::validation::{require_admin_spec, Validation};

verus! {

/// The trust-attestation registry: one administrator, a set of
/// authorized issuers, attestation records under derived ids, two
/// append-only indexes, and the notifications emitted so far.
pub struct TrustLinkContract {
    pub store: Storage,
    pub events: Vec<Event>,
}

/// The id at position `k` of `subject`'s index refers to a stored
/// record that carries `claim_type` and is `Valid` at `now`.
pub open spec fn valid_claim_at(
    store: Storage,
    subject: Address,
    claim_type: Seq<char>,
    now: u64,
    k: int,
) -> bool {
    let ids = store.subject_ids(subject);
    &&& 0 <= k < ids.len()
    &&& store.spec_has_attestation(ids[k])
    &&& store.att_rec(ids[k]).claim_type == claim_type
    &&& status_of(store.att_rec(ids[k]), now) == AttestationStatus::Valid
}

/// Some attestation in `subject`'s index carries `claim_type` and is
/// `Valid` at `now`.
pub open spec fn spec_has_valid_claim(
    store: Storage,
    subject: Address,
    claim_type: Seq<char>,
    now: u64,
) -> bool {
    exists|k: int| valid_claim_at(store, subject, claim_type, now, k)
}

/// The page `[start, min(start + limit, len))` of `ids`; a `start`
/// beyond the end yields the empty sequence, and `start + limit` is
/// computed without wrapping.
pub open spec fn page(ids: Seq<Seq<char>>, start: u32, limit: u32) -> Seq<Seq<char>> {
    if start as int >= ids.len() {
        Seq::empty()
    } else if start as int + limit as int >= ids.len() {
        ids.subrange(start as int, ids.len() as int)
    } else {
        ids.subrange(start as int, start as int + limit as int)
    }
}

/// What `initialize(admin)` does: fails once an administrator exists,
/// otherwise records `admin` and changes nothing else.
pub open spec fn initialize_step(
    pre: TrustLinkContract,
    admin: Address,
    post: TrustLinkContract,
    r: Result<(), Error>,
) -> bool {
    if pre.store.spec_has_admin() {
        post == pre && r == Err::<(), Error>(Error::AlreadyInitialized)
    } else {
        &&& r == Ok::<(), Error>(())
        &&& post.store.admin == Some(admin)
        &&& post.store.issuers == pre.store.issuers
        &&& post.store.attestations == pre.store.attestations
        &&& post.store.subject_index == pre.store.subject_index
        &&& post.store.issuer_index == pre.store.issuer_index
        &&& post.events == pre.events
    }
}

/// What `register_issuer(admin, issuer)` does: an admin-gated,
/// idempotent insertion into the issuer set.
pub open spec fn register_issuer_step(
    pre: TrustLinkContract,
    admin: Address,
    issuer: Address,
    post: TrustLinkContract,
    r: Result<(), Error>,
) -> bool {
    match require_admin_spec(pre.store, admin) {
        Err(e) => post == pre && r == Err::<(), Error>(e),
        Ok(_) => {
            &&& r == Ok::<(), Error>(())
            &&& post.store.spec_is_issuer(issuer)
            &&& forall|x: Address|
                x != issuer ==> post.store.spec_is_issuer(x) == pre.store.spec_is_issuer(x)
            &&& post.store.admin == pre.store.admin
            &&& post.store.attestations == pre.store.attestations
            &&& post.store.subject_index == pre.store.subject_index
            &&& post.store.issuer_index == pre.store.issuer_index
            &&& post.events == pre.events
        },
    }
}

/// What `remove_issuer(admin, issuer)` does: an admin-gated, idempotent
/// removal from the issuer set.
pub open spec fn remove_issuer_step(
    pre: TrustLinkContract,
    admin: Address,
    issuer: Address,
    post: TrustLinkContract,
    r: Result<(), Error>,
) -> bool {
    match require_admin_spec(pre.store, admin) {
        Err(e) => post == pre && r == Err::<(), Error>(e),
        Ok(_) => {
            &&& r == Ok::<(), Error>(())
            &&& !post.store.spec_is_issuer(issuer)
            &&& forall|x: Address|
                x != issuer ==> post.store.spec_is_issuer(x) == pre.store.spec_is_issuer(x)
            &&& post.store.admin == pre.store.admin
            &&& post.store.attestations == pre.store.attestations
            &&& post.store.subject_index == pre.store.subject_index
            &&& post.store.issuer_index == pre.store.issuer_index
            &&& post.events == pre.events
        },
    }
}

/// What `create_attestation` does: requires current issuer
/// authorization, derives the id from (issuer, subject, claim type,
/// clock tick), rejects an id collision, and otherwise stores the fresh
/// record, appends its id to both indexes, and emits the creation
/// notification.
pub open spec fn create_step(
    pre: TrustLinkContract,
    issuer: Address,
    subject: Address,
    claim_type: Seq<char>,
    expiration: Option<u64>,
    now: u64,
    post: TrustLinkContract,
    r: Result<Seq<char>, Error>,
) -> bool {
    if !pre.store.spec_is_issuer(issuer) {
        post == pre && r == Err::<Seq<char>, Error>(Error::Unauthorized)
    } else {
        let id = id_spec(issuer, subject, claim_type, now);
        if pre.store.spec_has_attestation(id) {
            post == pre && r == Err::<Seq<char>, Error>(Error::DuplicateAttestation)
        } else {
            &&& r == Ok::<Seq<char>, Error>(id)
            &&& post.store.spec_has_attestation(id)
            &&& post.store.att_rec(id) == (AttRec {
                id: id,
                issuer: issuer,
                subject: subject,
                claim_type: claim_type,
                timestamp: now,
                expiration: expiration,
                revoked: false,
            })
            &&& forall|x: Seq<char>|
                x != id ==> post.store.spec_has_attestation(x) == pre.store.spec_has_attestation(x)
            &&& forall|x: Seq<char>|
                x != id && pre.store.spec_has_attestation(x) ==> post.store.att_rec(x)
                    == pre.store.att_rec(x)
            &&& post.store.subject_ids(subject) == pre.store.subject_ids(subject).push(id)
            &&& forall|a: Address|
                a != subject ==> post.store.subject_ids(a) == pre.store.subject_ids(a)
            &&& post.store.issuer_ids(issuer) == pre.store.issuer_ids(issuer).push(id)
            &&& forall|a: Address|
                a != issuer ==> post.store.issuer_ids(a) == pre.store.issuer_ids(a)
            &&& post.store.admin == pre.store.admin
            &&& post.store.issuers == pre.store.issuers
            &&& post.events_rec() == pre.events_rec().push(
                EventRec::Created {
                    subject: subject,
                    id: id,
                    issuer: issuer,
                    claim_type: claim_type,
                    timestamp: now,
                },
            )
        }
    }
}

/// What `revoke_attestation` does: only the original issuer may revoke,
/// exactly once; the record's `revoked` flag is the only change, and the
/// revocation notification is emitted.
pub open spec fn revoke_step(
    pre: TrustLinkContract,
    issuer: Address,
    id: Seq<char>,
    post: TrustLinkContract,
    r: Result<(), Error>,
) -> bool {
    if !pre.store.spec_has_attestation(id) {
        post == pre && r == Err::<(), Error>(Error::NotFound)
    } else if pre.store.att_rec(id).issuer != issuer {
        post == pre && r == Err::<(), Error>(Error::Unauthorized)
    } else if pre.store.att_rec(id).revoked {
        post == pre && r == Err::<(), Error>(Error::AlreadyRevoked)
    } else {
        &&& r == Ok::<(), Error>(())
        &&& post.store.spec_has_attestation(id)
        &&& post.store.att_rec(id) == (AttRec { revoked: true, ..pre.store.att_rec(id) })
        &&& forall|x: Seq<char>|
            x != id ==> post.store.spec_has_attestation(x) == pre.store.spec_has_attestation(x)
        &&& forall|x: Seq<char>|
            x != id && pre.store.spec_has_attestation(x) ==> post.store.att_rec(x)
                == pre.store.att_rec(x)
        &&& forall|a: Address| post.store.subject_ids(a) == pre.store.subject_ids(a)
        &&& forall|a: Address| post.store.issuer_ids(a) == pre.store.issuer_ids(a)
        &&& post.store.admin == pre.store.admin
        &&& post.store.issuers == pre.store.issuers
        &&& post.events_rec() == pre.events_rec().push(
            EventRec::Revoked { issuer: issuer, id: id },
        )
    }
}

impl TrustLinkContract {
    /// The registry's invariant; established by `new` and preserved by
    /// every operation.
    pub open spec fn wf(self) -> bool {
        self.store.wf()
    }

    /// The notifications emitted so far, oldest first.
    pub open spec fn events_rec(self) -> Seq<EventRec> {
        self.events@.map_values(|e: Event| e@)
    }

    /// A fresh registry: uninitialized, no issuers, no attestations, no
    /// notifications.
    pub fn new() -> (c: TrustLinkContract)
        ensures
            c.wf(),
            c.store.admin is None,
            forall|a: Address| !c.store.spec_is_issuer(a),
            forall|id: Seq<char>| !c.store.spec_has_attestation(id),
            forall|a: Address| c.store.subject_ids(a) == Seq::<Seq<char>>::empty(),
            forall|a: Address| c.store.issuer_ids(a) == Seq::<Seq<char>>::empty(),
            c.events_rec() == Seq::<EventRec>::empty(),
    {
        let c = TrustLinkContract { store: Storage::new(), events: Vec::new() };
        proof {
            assert(c.events_rec() =~= Seq::<EventRec>::empty());
        }
        c
    }

    /// Set the administrator; succeeds exactly once.
    pub fn initialize(&mut self, admin: Address) -> (r: Result<(), Error>)
        requires
            old(self).wf(),
        ensures
            final(self).wf(),
            initialize_step(*old(self), admin, *final(self), r),
    {
        if self.store.has_admin() {
            return Err(Error::AlreadyInitialized);
        }
        self.store.set_admin(&admin);
        Ok(())
    }

    /// Add an authorized issuer (administrator only).
    pub fn register_issuer(&mut self, admin: Address, issuer: Address) -> (r: Result<(), Error>)
        requires
            old(self).wf(),
        ensures
            final(self).wf(),
            register_issuer_step(*old(self), admin, issuer, *final(self), r),
    {
        match Validation::require_admin(&self.store, &admin) {
            Err(e) => { return Err(e); },
            Ok(_) => {},
        }
        self.store.add_issuer(&issuer);
        Ok(())
    }

    /// Remove an authorized issuer (administrator only).
    pub fn remove_issuer(&mut self, admin: Address, issuer: Address) -> (r: Result<(), Error>)
        requires
            old(self).wf(),
        ensures
            final(self).wf(),
            remove_issuer_step(*old(self), admin, issuer, *final(self), r),
    {
        match Validation::require_admin(&self.store, &admin) {
            Err(e) => { return Err(e); },
            Ok(_) => {},
        }
        self.store.remove_issuer(&issuer);
        Ok(())
    }

    /// Create an attestation (currently authorized issuers only) and
    /// return its derived id.
    pub fn create_attestation(
        &mut self,
        issuer: Address,
        subject: Address,
        claim_type: String,
        expiration: Option<u64>,
        now: u64,
    ) -> (r: Result<String, Error>)
        requires
            old(self).wf(),
        ensures
            final(self).wf(),
            create_step(
                *old(self),
                issuer,
                subject,
                claim_type@,
                expiration,
                now,
                *final(self),
                (match r {
                    Ok(id) => Ok::<Seq<char>, Error>(id@),
                    Err(e) => Err::<Seq<char>, Error>(e),
                }),
            ),
    {
        match Validation::require_issuer(&self.store, &issuer) {
            Err(e) => { return Err(e); },
            Ok(_) => {},
        }
        let attestation_id = Attestation::generate_id(&issuer, &subject, &claim_type, now);
        if self.store.has_attestation(&attestation_id) {
            return Err(Error::DuplicateAttestation);
        }
        let attestation = Attestation {
            id: attestation_id.clone(),
            issuer,
            subject,
            claim_type,
            timestamp: now,
            expiration,
            revoked: false,
        };
        let ev = Events::attestation_created(&attestation);
        let ghost pre = *old(self);
        let ghost idv = attestation_id@;
        let ghost rec = attestation@;
        self.store.set_attestation(attestation);
        let ghost c1 = *self;
        self.store.add_subject_attestation(&subject, &attestation_id);
        let ghost c2 = *self;
        self.store.add_issuer_attestation(&issuer, &attestation_id);
        let ghost c3 = *self;
        self.events.push(ev);
        proof {
            assert(rec == (AttRec {
                id: idv,
                issuer: issuer,
                subject: subject,
                claim_type: claim_type@,
                timestamp: now,
                expiration: expiration,
                revoked: false,
            }));
            assert(c2.store.attestations == c1.store.attestations);
            assert(c3.store.attestations == c1.store.attestations);
            assert(self.store == c3.store);
            assert(self.store.spec_has_attestation(idv));
            assert(self.store.att_rec(idv) == rec);
            assert(forall|x: Seq<char>|
                x != idv ==> self.store.spec_has_attestation(x) == pre.store.spec_has_attestation(
                    x,
                ));
            assert(forall|x: Seq<char>|
                x != idv && pre.store.spec_has_attestation(x) ==> self.store.att_rec(x)
                    == pre.store.att_rec(x));
            assert(c1.store.subject_index == pre.store.subject_index);
            assert(forall|a: Address| c1.store.subject_ids(a) == pre.store.subject_ids(a));
            assert(c3.store.subject_index == c2.store.subject_index);
            assert(forall|a: Address| c3.store.subject_ids(a) == c2.store.subject_ids(a));
            assert(self.store.subject_ids(subject) == pre.store.subject_ids(subject).push(idv));
            assert(forall|a: Address|
                a != subject ==> self.store.subject_ids(a) == pre.store.subject_ids(a));
            assert(c2.store.issuer_index == c1.store.issuer_index);
            assert(c1.store.issuer_index == pre.store.issuer_index);
            assert(forall|a: Address| c2.store.issuer_ids(a) == pre.store.issuer_ids(a));
            assert(self.store.issuer_ids(issuer) == pre.store.issuer_ids(issuer).push(idv));
            assert(forall|a: Address|
                a != issuer ==> self.store.issuer_ids(a) == pre.store.issuer_ids(a));
            assert(self.events@ =~= pre.events@.push(ev));
            assert(self.events_rec() =~= pre.events_rec().push(ev@));
        }
        Ok(attestation_id)
    }

    /// Revoke an attestation; only its original issuer may do so, and
    /// only once.
    pub fn revoke_attestation(&mut self, issuer: Address, attestation_id: String) -> (r: Result<
        (),
        Error,
    >)
        requires
            old(self).wf(),
        ensures
            final(self).wf(),
            revoke_step(*old(self), issuer, attestation_id@, *final(self), r),
    {
        let attestation = match self.store.get_attestation(&attestation_id) {
            Ok(a) => a,
            Err(e) => { return Err(e); },
        };
        proof {
            assert(old(self).store.att_rec(attestation_id@).id == attestation_id@);
        }
        if attestation.issuer != issuer {
            return Err(Error::Unauthorized);
        }
        if attestation.revoked {
            return Err(Error::AlreadyRevoked);
        }
        let mut updated = attestation;
        updated.revoked = true;
        self.store.set_attestation(updated);
        self.events.push(Events::attestation_revoked(&attestation_id, &issuer));
        proof {
            assert(self.events_rec() =~= old(self).events_rec().push(
                EventRec::Revoked { issuer: issuer, id: attestation_id@ },
            ));
        }
        Ok(())
    }

    /// Whether `subject` currently holds a valid claim of `claim_type`:
    /// scan the subject's index in insertion order, skipping ids whose
    /// record is missing, and short-circuit on the first `Valid` match.
    pub fn has_valid_claim(&self, subject: Address, claim_type: String, now: u64) -> (b: bool)
        requires
            self.wf(),
        ensures
            b == spec_has_valid_claim(self.store, subject, claim_type@, now),
    {
        let attestation_ids = self.store.get_subject_attestations(&subject);
        let n = attestation_ids.len();
        for i in 0..n
            invariant
                self.wf(),
                n == attestation_ids@.len(),
                ids_views(attestation_ids@) == self.store.subject_ids(subject),
                forall|j: int| 0 <= j < i ==> !valid_claim_at(self.store, subject, claim_type@, now, j),
        {
            proof {
                assert(self.store.subject_ids(subject)[i as int] == attestation_ids@[i as int]@);
            }
            match self.store.get_attestation(&attestation_ids[i]) {
                Ok(attestation) => {
                    if attestation.claim_type == claim_type {
                        let status = attestation.get_status(now);
                        if status == AttestationStatus::Valid {
                            proof {
                                assert(valid_claim_at(
                                    self.store,
                                    subject,
                                    claim_type@,
                                    now,
                                    i as int,
                                ));
                            }
                            return true;
                        }
                    }
                },
                Err(_) => {},
            }
        }
        proof {
            assert(!spec_has_valid_claim(self.store, subject, claim_type@, now)) by {
                if spec_has_valid_claim(self.store, subject, claim_type@, now) {
                    let k = choose|k: int|
                        valid_claim_at(self.store, subject, claim_type@, now, k);
                }
            }
        }
        false
    }

    /// The stored attestation with the given id, or `NotFound`.
    pub fn get_attestation(&self, attestation_id: String) -> (r: Result<Attestation, Error>)
        requires
            self.wf(),
        ensures
            match r {
                Ok(a) => self.store.spec_has_attestation(attestation_id@) && a@
                    == self.store.att_rec(attestation_id@),
                Err(e) => !self.store.spec_has_attestation(attestation_id@) && e
                    == Error::NotFound,
            },
    {
        self.store.get_attestation(&attestation_id)
    }

    /// The derived status of the attestation with the given id at `now`,
    /// or `NotFound`.
    pub fn get_attestation_status(&self, attestation_id: String, now: u64) -> (r: Result<
        AttestationStatus,
        Error,
    >)
        requires
            self.wf(),
        ensures
            match r {
                Ok(s) => self.store.spec_has_attestation(attestation_id@) && s == status_of(
                    self.store.att_rec(attestation_id@),
                    now,
                ),
                Err(e) => !self.store.spec_has_attestation(attestation_id@) && e
                    == Error::NotFound,
            },
    {
        let attestation = match self.store.get_attestation(&attestation_id) {
            Ok(a) => a,
            Err(e) => { return Err(e); },
        };
        Ok(attestation.get_status(now))
    }

    /// The page `[start, min(start + limit, total))` of `subject`'s
    /// attestation ids, in creation order.
    pub fn get_subject_attestations(&self, subject: Address, start: u32, limit: u32) -> (r: Vec<
        String,
    >)
        requires
            self.wf(),
        ensures
            ids_views(r@) == page(self.store.subject_ids(subject), start, limit),
    {
        let all_ids = self.store.get_subject_attestations(&subject);
        page_ids(&all_ids, start, limit)
    }

    /// The page `[start, min(start + limit, total))` of `issuer`'s
    /// attestation ids, in creation order.
    pub fn get_issuer_attestations(&self, issuer: Address, start: u32, limit: u32) -> (r: Vec<
        String,
    >)
        requires
            self.wf(),
        ensures
            ids_views(r@) == page(self.store.issuer_ids(issuer), start, limit),
    {
        let all_ids = self.store.get_issuer_attestations(&issuer);
        page_ids(&all_ids, start, limit)
    }

    /// Membership test on the issuer set.
    pub fn is_issuer(&self, address: Address) -> (b: bool)
        ensures
            b == self.store.spec_is_issuer(address),
    {
        self.store.is_issuer(&address)
    }

    /// The administrator, or `NotInitialized` when none has been set.
    pub fn get_admin(&self) -> (r: Result<Address, Error>)
        ensures
            match self.store.admin {
                Some(a) => r == Ok::<Address, Error>(a),
                None => r == Err::<Address, Error>(Error::NotInitialized),
            },
    {
        self.store.get_admin()
    }
}

/// The page `[start, min(start + limit, total))` of `all_ids`, copied
/// out; `start + limit` saturates instead of wrapping.
fn page_ids(all_ids: &Vec<String>, start: u32, limit: u32) -> (r: Vec<String>)
    ensures
        ids_views(r@) == page(ids_views(all_ids@), start, limit),
{
    let total = all_ids.len();
    let lo: usize = if (start as usize) > total {
        total
    } else {
        start as usize
    };
    let hi: usize = if (limit as usize) > total - lo {
        total
    } else {
        lo + (limit as usize)
    };
    let mut r: Vec<String> = Vec::new();
    let mut i: usize = lo;
    while i < hi
        invariant
            lo <= i <= hi <= total,
            total == all_ids@.len(),
            r@.len() == i - lo,
            forall|j: int| 0 <= j < r@.len() ==> r@[j] == all_ids@[lo + j],
        decreases hi - i,
    {
        r.push(all_ids[i].clone());
        i = i + 1;
    }
    proof {
        assert(ids_views(r@) =~= page(ids_views(all_ids@), start, limit));
    }
    r
}

} // verus!
