use vstd::prelude::*;

use crate::types::{
    id_spec, lemma_id_distinct_ticks, status_of, Address, AttRec, AttestationStatus, Error,
};
use crate::{
    create_step, initialize_step, page, register_issuer_step, remove_issuer_step, revoke_step,
    spec_has_valid_claim, valid_claim_at, TrustLinkContract,
};

verus! {

/// Initialization succeeds at most once: after a successful
/// `initialize`, any further `initialize` fails with
/// `AlreadyInitialized` and leaves the state unchanged.
pub proof fn lemma_initialize_at_most_once(
    s0: TrustLinkContract,
    s1: TrustLinkContract,
    s2: TrustLinkContract,
    a1: Address,
    a2: Address,
    r1: Result<(), Error>,
    r2: Result<(), Error>,
)
    requires
        initialize_step(s0, a1, s1, r1),
        r1 is Ok,
        initialize_step(s1, a2, s2, r2),
    ensures
        r2 == Err::<(), Error>(Error::AlreadyInitialized),
        s2 == s1,
{
}

/// Creation demands current authorization: an unregistered issuer's
/// `create_attestation` fails with `Unauthorized` and changes nothing.
pub proof fn lemma_create_requires_current_issuer(
    pre: TrustLinkContract,
    issuer: Address,
    subject: Address,
    claim_type: Seq<char>,
    expiration: Option<u64>,
    now: u64,
    post: TrustLinkContract,
    r: Result<Seq<char>, Error>,
)
    requires
        create_step(pre, issuer, subject, claim_type, expiration, now, post, r),
        !pre.store.spec_is_issuer(issuer),
    ensures
        r == Err::<Seq<char>, Error>(Error::Unauthorized),
        post == pre,
{
}

/// After `register_issuer(admin, i)` succeeds, a creation by `i` whose
/// derived id is fresh succeeds.
pub proof fn lemma_registered_issuer_can_create(
    s0: TrustLinkContract,
    admin: Address,
    i: Address,
    s1: TrustLinkContract,
    r1: Result<(), Error>,
    subject: Address,
    claim_type: Seq<char>,
    expiration: Option<u64>,
    now: u64,
    s2: TrustLinkContract,
    r2: Result<Seq<char>, Error>,
)
    requires
        register_issuer_step(s0, admin, i, s1, r1),
        r1 is Ok,
        !s1.store.spec_has_attestation(id_spec(i, subject, claim_type, now)),
        create_step(s1, i, subject, claim_type, expiration, now, s2, r2),
    ensures
        r2 == Ok::<Seq<char>, Error>(id_spec(i, subject, claim_type, now)),
{
}

/// After `remove_issuer(admin, i)` succeeds, `i` can no longer create,
/// but may still revoke an attestation it issued earlier: revocation
/// rights track authorship, not current authorization.
pub proof fn lemma_removed_issuer_rights(
    s0: TrustLinkContract,
    admin: Address,
    i: Address,
    s1: TrustLinkContract,
    r1: Result<(), Error>,
    subject: Address,
    claim_type: Seq<char>,
    expiration: Option<u64>,
    now: u64,
    s2: TrustLinkContract,
    r2: Result<Seq<char>, Error>,
    id: Seq<char>,
    s3: TrustLinkContract,
    r3: Result<(), Error>,
)
    requires
        remove_issuer_step(s0, admin, i, s1, r1),
        r1 is Ok,
        create_step(s1, i, subject, claim_type, expiration, now, s2, r2),
        s1.store.spec_has_attestation(id),
        s1.store.att_rec(id).issuer == i,
        !s1.store.att_rec(id).revoked,
        revoke_step(s1, i, id, s3, r3),
    ensures
        r2 == Err::<Seq<char>, Error>(Error::Unauthorized),
        s2 == s1,
        r3 == Ok::<(), Error>(()),
        s3.store.att_rec(id).revoked,
{
}

/// Round trip: a successful creation with no expiration makes
/// `has_valid_claim` true for that claim type, and leaves its answer
/// for every other claim type unchanged, at every clock reading.
pub proof fn lemma_create_round_trip(
    pre: TrustLinkContract,
    issuer: Address,
    subject: Address,
    claim_type: Seq<char>,
    now: u64,
    post: TrustLinkContract,
    r: Result<Seq<char>, Error>,
)
    requires
        pre.wf(),
        create_step(pre, issuer, subject, claim_type, Option::<u64>::None, now, post, r),
        r is Ok,
    ensures
        forall|t: u64| spec_has_valid_claim(post.store, subject, claim_type, t),
        forall|other: Seq<char>, t: u64|
            other != claim_type ==> spec_has_valid_claim(post.store, subject, other, t)
                == spec_has_valid_claim(pre.store, subject, other, t),
{
    let id = id_spec(issuer, subject, claim_type, now);
    let pre_ids = pre.store.subject_ids(subject);
    let post_ids = post.store.subject_ids(subject);
    let n = pre_ids.len() as int;
    assert(post_ids == pre_ids.push(id));
    assert(post_ids[n] == id);
    assert forall|t: u64| spec_has_valid_claim(post.store, subject, claim_type, t) by {
        assert(valid_claim_at(post.store, subject, claim_type, t, n));
    }
    assert forall|other: Seq<char>, t: u64| other != claim_type implies spec_has_valid_claim(
        post.store,
        subject,
        other,
        t,
    ) == spec_has_valid_claim(pre.store, subject, other, t) by {
        if spec_has_valid_claim(post.store, subject, other, t) {
            let k = choose|k: int| valid_claim_at(post.store, subject, other, t, k);
            assert(k != n);
            assert(post_ids[k] == pre_ids[k]);
            assert(pre_ids[k] != id) by {
                pre.store.lemma_subject_ids_stored(subject, k);
            }
            assert(valid_claim_at(pre.store, subject, other, t, k));
        }
        if spec_has_valid_claim(pre.store, subject, other, t) {
            let k = choose|k: int| valid_claim_at(pre.store, subject, other, t, k);
            assert(pre_ids[k] != id) by {
                pre.store.lemma_subject_ids_stored(subject, k);
            }
            assert(post_ids[k] == pre_ids[k]);
            assert(valid_claim_at(post.store, subject, other, t, k));
        }
    }
}

/// Revocation is final in effect: after a successful revocation the
/// record's status is `Revoked`, and — provided no other attestation of
/// the same claim type for the same subject is valid at `now` —
/// `has_valid_claim` answers false for that claim.
pub proof fn lemma_revocation_hides_claim(
    pre: TrustLinkContract,
    issuer: Address,
    id: Seq<char>,
    post: TrustLinkContract,
    r: Result<(), Error>,
    now: u64,
)
    requires
        pre.wf(),
        revoke_step(pre, issuer, id, post, r),
        r is Ok,
        forall|k: int|
            0 <= k < pre.store.subject_ids(pre.store.att_rec(id).subject).len()
                && pre.store.subject_ids(pre.store.att_rec(id).subject)[k] != id
                ==> !valid_claim_at(
                pre.store,
                pre.store.att_rec(id).subject,
                pre.store.att_rec(id).claim_type,
                now,
                k,
            ),
    ensures
        status_of(post.store.att_rec(id), now) == AttestationStatus::Revoked,
        !spec_has_valid_claim(
            post.store,
            pre.store.att_rec(id).subject,
            pre.store.att_rec(id).claim_type,
            now,
        ),
{
    let subject = pre.store.att_rec(id).subject;
    let claim_type = pre.store.att_rec(id).claim_type;
    let ids = post.store.subject_ids(subject);
    assert(ids == pre.store.subject_ids(subject));
    if spec_has_valid_claim(post.store, subject, claim_type, now) {
        let k = choose|k: int| valid_claim_at(post.store, subject, claim_type, now, k);
        if ids[k] == id {
            assert(post.store.att_rec(id).revoked);
        } else {
            assert(post.store.spec_has_attestation(ids[k]) == pre.store.spec_has_attestation(
                ids[k],
            ));
            assert(valid_claim_at(pre.store, subject, claim_type, now, k));
        }
    }
}

/// Revocation succeeds at most once: a second revocation by the same
/// issuer fails with `AlreadyRevoked` and leaves the state unchanged.
pub proof fn lemma_revoke_at_most_once(
    pre: TrustLinkContract,
    issuer: Address,
    id: Seq<char>,
    s1: TrustLinkContract,
    r1: Result<(), Error>,
    s2: TrustLinkContract,
    r2: Result<(), Error>,
)
    requires
        revoke_step(pre, issuer, id, s1, r1),
        r1 is Ok,
        revoke_step(s1, issuer, id, s2, r2),
    ensures
        r2 == Err::<(), Error>(Error::AlreadyRevoked),
        s2 == s1,
{
}

/// The expiration boundary is strict: an unrevoked record with an
/// expiration tick is `Valid` strictly before it and `Expired` from the
/// tick on.
pub proof fn lemma_expiration_boundary(rec: AttRec, exp: u64, now: u64)
    requires
        !rec.revoked,
        rec.expiration == Some(exp),
    ensures
        now < exp ==> status_of(rec, now) == AttestationStatus::Valid,
        now >= exp ==> status_of(rec, now) == AttestationStatus::Expired,
{
}

/// The window of an expiring claim: after a successful creation with
/// expiration tick `exp`, and at a clock reading `t` at which no other
/// attestation gives the subject a valid claim of this type,
/// `has_valid_claim` answers true exactly when `t` is strictly before
/// `exp`.
pub proof fn lemma_expiring_claim_window(
    pre: TrustLinkContract,
    issuer: Address,
    subject: Address,
    claim_type: Seq<char>,
    exp: u64,
    now: u64,
    post: TrustLinkContract,
    r: Result<Seq<char>, Error>,
    t: u64,
)
    requires
        pre.wf(),
        create_step(pre, issuer, subject, claim_type, Some(exp), now, post, r),
        r is Ok,
        forall|k: int|
            0 <= k < pre.store.subject_ids(subject).len() ==> !valid_claim_at(
                pre.store,
                subject,
                claim_type,
                t,
                k,
            ),
    ensures
        spec_has_valid_claim(post.store, subject, claim_type, t) == (t < exp),
{
    let id = id_spec(issuer, subject, claim_type, now);
    let pre_ids = pre.store.subject_ids(subject);
    let post_ids = post.store.subject_ids(subject);
    let n = pre_ids.len() as int;
    assert(post_ids == pre_ids.push(id));
    assert(post_ids[n] == id);
    if t < exp {
        assert(valid_claim_at(post.store, subject, claim_type, t, n));
    } else {
        if spec_has_valid_claim(post.store, subject, claim_type, t) {
            let k = choose|k: int| valid_claim_at(post.store, subject, claim_type, t, k);
            if k == n {
                assert(status_of(post.store.att_rec(id), t) == AttestationStatus::Expired);
            } else {
                assert(post_ids[k] == pre_ids[k]);
                assert(pre_ids[k] != id) by {
                    pre.store.lemma_subject_ids_stored(subject, k);
                }
                assert(valid_claim_at(pre.store, subject, claim_type, t, k));
            }
        }
    }
}

/// Pagination returns exactly the ids of `[start, min(start + limit,
/// total))`, in order; a `start` at or beyond the total yields the
/// empty page.
pub proof fn lemma_pagination(ids: Seq<Seq<char>>, start: u32, limit: u32)
    ensures
        start as int >= ids.len() ==> page(ids, start, limit) == Seq::<Seq<char>>::empty(),
        start as int <= ids.len() ==> page(ids, start, limit).len() == (if start as int
            + limit as int <= ids.len() {
            limit as int
        } else {
            ids.len() - start as int
        }),
        forall|k: int|
            0 <= k < page(ids, start, limit).len() ==> page(ids, start, limit)[k] == ids[start
                as int + k],
{
}

/// The duplicate guard at one clock tick: a second creation with the
/// identical identifying tuple at the same tick fails with
/// `DuplicateAttestation` and changes nothing.
pub proof fn lemma_duplicate_same_tick(
    s0: TrustLinkContract,
    issuer: Address,
    subject: Address,
    claim_type: Seq<char>,
    e1: Option<u64>,
    e2: Option<u64>,
    now: u64,
    s1: TrustLinkContract,
    r1: Result<Seq<char>, Error>,
    s2: TrustLinkContract,
    r2: Result<Seq<char>, Error>,
)
    requires
        create_step(s0, issuer, subject, claim_type, e1, now, s1, r1),
        r1 is Ok,
        create_step(s1, issuer, subject, claim_type, e2, now, s2, r2),
    ensures
        r2 == Err::<Seq<char>, Error>(Error::DuplicateAttestation),
        s2 == s1,
{
}

/// At two distinct clock ticks the same identifying tuple derives two
/// distinct ids, and both creations succeed.
pub proof fn lemma_distinct_ticks(
    s0: TrustLinkContract,
    issuer: Address,
    subject: Address,
    claim_type: Seq<char>,
    e1: Option<u64>,
    e2: Option<u64>,
    t1: u64,
    t2: u64,
    s1: TrustLinkContract,
    r1: Result<Seq<char>, Error>,
    s2: TrustLinkContract,
    r2: Result<Seq<char>, Error>,
)
    requires
        create_step(s0, issuer, subject, claim_type, e1, t1, s1, r1),
        r1 is Ok,
        t2 != t1,
        !s0.store.spec_has_attestation(id_spec(issuer, subject, claim_type, t2)),
        create_step(s1, issuer, subject, claim_type, e2, t2, s2, r2),
    ensures
        id_spec(issuer, subject, claim_type, t2) != id_spec(issuer, subject, claim_type, t1),
        r2 == Ok::<Seq<char>, Error>(id_spec(issuer, subject, claim_type, t2)),
{
    lemma_id_distinct_ticks(issuer, subject, claim_type, t1, t2);
}

} // verus!
