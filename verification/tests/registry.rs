use trustlink::events::Event;
use trustlink::types::{Address, Attestation, AttestationStatus, Error};
use trustlink::TrustLinkContract;

fn addr(id: u64) -> Address {
    Address { id }
}

#[test]
fn test_initialization() {
    let mut client = TrustLinkContract::new();
    let admin = addr(1);

    client.initialize(admin).unwrap();

    let stored_admin = client.get_admin().unwrap();
    assert_eq!(stored_admin, admin);
}

#[test]
fn test_double_initialization() {
    let mut client = TrustLinkContract::new();
    let admin = addr(1);

    client.initialize(admin).unwrap();
    assert_eq!(client.initialize(admin), Err(Error::AlreadyInitialized));
}

#[test]
fn test_register_and_check_issuer() {
    let mut client = TrustLinkContract::new();
    let admin = addr(1);
    let issuer = addr(2);

    client.initialize(admin).unwrap();
    client.register_issuer(admin, issuer).unwrap();

    assert!(client.is_issuer(issuer));
}

#[test]
fn test_remove_issuer() {
    let mut client = TrustLinkContract::new();
    let admin = addr(1);
    let issuer = addr(2);

    client.initialize(admin).unwrap();
    client.register_issuer(admin, issuer).unwrap();
    assert!(client.is_issuer(issuer));

    client.remove_issuer(admin, issuer).unwrap();
    assert!(!client.is_issuer(issuer));
}

#[test]
fn test_create_attestation() {
    let mut client = TrustLinkContract::new();
    let admin = addr(1);
    let issuer = addr(2);
    let subject = addr(3);

    client.initialize(admin).unwrap();
    client.register_issuer(admin, issuer).unwrap();

    let claim_type = String::from("KYC_PASSED");
    let attestation_id = client
        .create_attestation(issuer, subject, claim_type.clone(), None, 0)
        .unwrap();

    let attestation = client.get_attestation(attestation_id).unwrap();
    assert_eq!(attestation.issuer, issuer);
    assert_eq!(attestation.subject, subject);
    assert_eq!(attestation.claim_type, claim_type);
    assert!(!attestation.revoked);
}

#[test]
fn test_has_valid_claim() {
    let mut client = TrustLinkContract::new();
    let admin = addr(1);
    let issuer = addr(2);
    let subject = addr(3);

    client.initialize(admin).unwrap();
    client.register_issuer(admin, issuer).unwrap();

    let claim_type = String::from("KYC_PASSED");
    client
        .create_attestation(issuer, subject, claim_type.clone(), None, 0)
        .unwrap();

    assert!(client.has_valid_claim(subject, claim_type, 0));

    let other_claim = String::from("ACCREDITED");
    assert!(!client.has_valid_claim(subject, other_claim, 0));
}

#[test]
fn test_revoke_attestation() {
    let mut client = TrustLinkContract::new();
    let admin = addr(1);
    let issuer = addr(2);
    let subject = addr(3);

    client.initialize(admin).unwrap();
    client.register_issuer(admin, issuer).unwrap();

    let claim_type = String::from("KYC_PASSED");
    let attestation_id = client
        .create_attestation(issuer, subject, claim_type.clone(), None, 0)
        .unwrap();

    assert!(client.has_valid_claim(subject, claim_type.clone(), 0));

    client.revoke_attestation(issuer, attestation_id.clone()).unwrap();

    assert!(!client.has_valid_claim(subject, claim_type, 0));

    let attestation = client.get_attestation(attestation_id).unwrap();
    assert!(attestation.revoked);
}

#[test]
fn test_expired_attestation() {
    let mut client = TrustLinkContract::new();
    let admin = addr(1);
    let issuer = addr(2);
    let subject = addr(3);

    client.initialize(admin).unwrap();
    client.register_issuer(admin, issuer).unwrap();

    let claim_type = String::from("KYC_PASSED");
    let current_time = 0;
    let expiration = Some(current_time + 100);

    let attestation_id = client
        .create_attestation(issuer, subject, claim_type.clone(), expiration, current_time)
        .unwrap();

    // Should be valid initially
    assert!(client.has_valid_claim(subject, claim_type.clone(), current_time));

    // Fast forward time past expiration
    let later = current_time + 200;

    // Should now be invalid
    assert!(!client.has_valid_claim(subject, claim_type, later));

    let status = client.get_attestation_status(attestation_id, later).unwrap();
    assert_eq!(status, AttestationStatus::Expired);
}

#[test]
fn test_duplicate_attestation() {
    let mut client = TrustLinkContract::new();
    let admin = addr(1);
    let issuer = addr(2);
    let subject = addr(3);

    client.initialize(admin).unwrap();
    client.register_issuer(admin, issuer).unwrap();

    let claim_type = String::from("KYC_PASSED");

    client
        .create_attestation(issuer, subject, claim_type.clone(), None, 1000)
        .unwrap();
    assert_eq!(
        client.create_attestation(issuer, subject, claim_type, None, 1000),
        Err(Error::DuplicateAttestation)
    );
}

#[test]
fn test_pagination() {
    let mut client = TrustLinkContract::new();
    let admin = addr(1);
    let issuer = addr(2);
    let subject = addr(3);

    client.initialize(admin).unwrap();
    client.register_issuer(admin, issuer).unwrap();

    // Create multiple attestations
    let claims = ["CLAIM_0", "CLAIM_1", "CLAIM_2", "CLAIM_3", "CLAIM_4"];
    for claim_str in claims.iter() {
        let claim = String::from(*claim_str);
        client.create_attestation(issuer, subject, claim, None, 0).unwrap();
    }

    let page1 = client.get_subject_attestations(subject, 0, 2);
    assert_eq!(page1.len(), 2);

    let page2 = client.get_subject_attestations(subject, 2, 2);
    assert_eq!(page2.len(), 2);

    let page3 = client.get_subject_attestations(subject, 4, 2);
    assert_eq!(page3.len(), 1);
}

#[test]
fn test_cross_contract_kyc_verification() {
    // A lending workflow that gates loans on a KYC attestation.
    let mut trustlink = TrustLinkContract::new();

    let admin = addr(1);
    let issuer = addr(2);
    let borrower = addr(3);

    trustlink.initialize(admin).unwrap();
    trustlink.register_issuer(admin, issuer).unwrap();

    let kyc_claim = String::from("KYC_PASSED");
    let amount: i128 = 1000;
    let collateral: i128 = 500;

    // Test 1: Loan request without KYC should fail
    assert!(!trustlink.has_valid_claim(borrower, kyc_claim.clone(), 0));

    // Test 2: Issue KYC attestation
    trustlink
        .create_attestation(issuer, borrower, kyc_claim.clone(), None, 0)
        .unwrap();

    // Test 3: Loan request with KYC should succeed
    assert!(trustlink.has_valid_claim(borrower, kyc_claim.clone(), 0));
    assert!(collateral >= amount / 2);

    // Test 4: Check borrowing eligibility
    let can_borrow = trustlink.has_valid_claim(borrower, kyc_claim.clone(), 0);
    assert!(can_borrow);

    // Test 5: Revoke KYC
    let attestation_ids = trustlink.get_subject_attestations(borrower, 0, 10);
    let attestation_id = attestation_ids[0].clone();
    trustlink.revoke_attestation(issuer, attestation_id).unwrap();

    // Test 6: After revocation, borrowing should be denied
    let can_borrow = trustlink.has_valid_claim(borrower, kyc_claim, 0);
    assert!(!can_borrow);
}

#[test]
fn test_get_admin_before_initialize() {
    let client = TrustLinkContract::new();
    assert_eq!(client.get_admin(), Err(Error::NotInitialized));
}

#[test]
fn test_register_before_initialize() {
    let mut client = TrustLinkContract::new();
    assert_eq!(
        client.register_issuer(addr(1), addr(2)),
        Err(Error::NotInitialized)
    );
    assert_eq!(
        client.remove_issuer(addr(1), addr(2)),
        Err(Error::NotInitialized)
    );
}

#[test]
fn test_register_requires_admin() {
    let mut client = TrustLinkContract::new();
    client.initialize(addr(1)).unwrap();
    assert_eq!(
        client.register_issuer(addr(9), addr(2)),
        Err(Error::Unauthorized)
    );
    assert_eq!(
        client.remove_issuer(addr(9), addr(2)),
        Err(Error::Unauthorized)
    );
}

#[test]
fn test_create_requires_registered_issuer() {
    let mut client = TrustLinkContract::new();
    client.initialize(addr(1)).unwrap();

    let claim = String::from("KYC_PASSED");
    assert_eq!(
        client.create_attestation(addr(2), addr(3), claim, None, 0),
        Err(Error::Unauthorized)
    );
}

#[test]
fn test_removed_issuer_can_still_revoke() {
    let mut client = TrustLinkContract::new();
    let admin = addr(1);
    let issuer = addr(2);
    let subject = addr(3);

    client.initialize(admin).unwrap();
    client.register_issuer(admin, issuer).unwrap();

    let claim = String::from("KYC_PASSED");
    let id = client
        .create_attestation(issuer, subject, claim.clone(), None, 0)
        .unwrap();

    client.remove_issuer(admin, issuer).unwrap();

    // Creation now fails again ...
    assert_eq!(
        client.create_attestation(issuer, subject, claim, None, 7),
        Err(Error::Unauthorized)
    );

    // ... but the prior attestation can still be revoked by its author.
    client.revoke_attestation(issuer, id.clone()).unwrap();
    assert!(client.get_attestation(id).unwrap().revoked);
}

#[test]
fn test_revoke_requires_original_issuer() {
    let mut client = TrustLinkContract::new();
    let admin = addr(1);
    let issuer = addr(2);
    let subject = addr(3);

    client.initialize(admin).unwrap();
    client.register_issuer(admin, issuer).unwrap();

    let id = client
        .create_attestation(issuer, subject, String::from("KYC_PASSED"), None, 0)
        .unwrap();

    assert_eq!(
        client.revoke_attestation(addr(9), id),
        Err(Error::Unauthorized)
    );
}

#[test]
fn test_revoke_missing_attestation() {
    let mut client = TrustLinkContract::new();
    client.initialize(addr(1)).unwrap();
    assert_eq!(
        client.revoke_attestation(addr(2), String::from("ATT:2:3:KYC_PASSED:0")),
        Err(Error::NotFound)
    );
    assert!(matches!(
        client.get_attestation(String::from("ATT:2:3:KYC_PASSED:0")),
        Err(Error::NotFound)
    ));
}

#[test]
fn test_second_revocation_fails() {
    let mut client = TrustLinkContract::new();
    let admin = addr(1);
    let issuer = addr(2);
    let subject = addr(3);

    client.initialize(admin).unwrap();
    client.register_issuer(admin, issuer).unwrap();

    let id = client
        .create_attestation(issuer, subject, String::from("KYC_PASSED"), None, 0)
        .unwrap();

    client.revoke_attestation(issuer, id.clone()).unwrap();
    assert_eq!(
        client.revoke_attestation(issuer, id.clone()),
        Err(Error::AlreadyRevoked)
    );
    // The state is unchanged: still revoked, still discoverable.
    assert_eq!(
        client.get_attestation_status(id, 0).unwrap(),
        AttestationStatus::Revoked
    );
}

#[test]
fn test_expiration_boundary_is_strict() {
    let mut client = TrustLinkContract::new();
    let admin = addr(1);
    let issuer = addr(2);
    let subject = addr(3);

    client.initialize(admin).unwrap();
    client.register_issuer(admin, issuer).unwrap();

    let claim = String::from("KYC_PASSED");
    let created_at = 50;
    let id = client
        .create_attestation(issuer, subject, claim.clone(), Some(created_at + 100), created_at)
        .unwrap();

    // Valid strictly before the expiration tick ...
    assert_eq!(
        client.get_attestation_status(id.clone(), created_at + 99).unwrap(),
        AttestationStatus::Valid
    );
    assert!(client.has_valid_claim(subject, claim.clone(), created_at + 99));

    // ... and expired exactly from the tick on.
    assert_eq!(
        client.get_attestation_status(id.clone(), created_at + 100).unwrap(),
        AttestationStatus::Expired
    );
    assert!(!client.has_valid_claim(subject, claim.clone(), created_at + 100));
    assert_eq!(
        client.get_attestation_status(id, created_at + 500).unwrap(),
        AttestationStatus::Expired
    );
    assert!(!client.has_valid_claim(subject, claim, created_at + 500));
}

#[test]
fn test_revocation_dominates_expiration() {
    let mut client = TrustLinkContract::new();
    let admin = addr(1);
    let issuer = addr(2);
    let subject = addr(3);

    client.initialize(admin).unwrap();
    client.register_issuer(admin, issuer).unwrap();

    let id = client
        .create_attestation(issuer, subject, String::from("KYC_PASSED"), Some(10), 0)
        .unwrap();
    client.revoke_attestation(issuer, id.clone()).unwrap();

    // Past the expiration tick, the status is still Revoked.
    assert_eq!(
        client.get_attestation_status(id, 999).unwrap(),
        AttestationStatus::Revoked
    );
}

#[test]
fn test_pagination_out_of_range() {
    let mut client = TrustLinkContract::new();
    let admin = addr(1);
    let issuer = addr(2);
    let subject = addr(3);

    client.initialize(admin).unwrap();
    client.register_issuer(admin, issuer).unwrap();

    for k in 0..5u64 {
        let claim = format!("CLAIM_{}", k);
        client.create_attestation(issuer, subject, claim, None, 0).unwrap();
    }

    // A start beyond the total yields an empty page, not an error.
    let page = client.get_subject_attestations(subject, 10, 2);
    assert_eq!(page.len(), 0);

    // A limit of zero yields an empty page.
    let page = client.get_subject_attestations(subject, 0, 0);
    assert_eq!(page.len(), 0);

    // Pages come in creation order and match the full listing.
    let all = client.get_subject_attestations(subject, 0, 100);
    assert_eq!(all.len(), 5);
    let page = client.get_subject_attestations(subject, 1, 3);
    assert_eq!(page, all[1..4].to_vec());
}

#[test]
fn test_issuer_index_listing() {
    let mut client = TrustLinkContract::new();
    let admin = addr(1);
    let issuer = addr(2);

    client.initialize(admin).unwrap();
    client.register_issuer(admin, issuer).unwrap();

    let id_a = client
        .create_attestation(issuer, addr(3), String::from("KYC_PASSED"), None, 0)
        .unwrap();
    let id_b = client
        .create_attestation(issuer, addr(4), String::from("ACCREDITED"), None, 1)
        .unwrap();

    let listed = client.get_issuer_attestations(issuer, 0, 10);
    assert_eq!(listed, vec![id_a.clone(), id_b]);

    // Each subject's own index holds only its attestation.
    let subject_listed = client.get_subject_attestations(addr(3), 0, 10);
    assert_eq!(subject_listed, vec![id_a]);
}

#[test]
fn test_distinct_ticks_give_distinct_ids() {
    let mut client = TrustLinkContract::new();
    let admin = addr(1);
    let issuer = addr(2);
    let subject = addr(3);

    client.initialize(admin).unwrap();
    client.register_issuer(admin, issuer).unwrap();

    let claim = String::from("KYC_PASSED");
    let id1 = client
        .create_attestation(issuer, subject, claim.clone(), None, 1000)
        .unwrap();
    let id2 = client
        .create_attestation(issuer, subject, claim, None, 1001)
        .unwrap();
    assert_ne!(id1, id2);
}

#[test]
fn test_generated_id_text() {
    let id = Attestation::generate_id(&addr(12), &addr(7), &String::from("KYC_PASSED"), 30);
    assert_eq!(id, "ATT:12:7:KYC_PASSED:30");
}

#[test]
fn test_events_emitted() {
    let mut client = TrustLinkContract::new();
    let admin = addr(1);
    let issuer = addr(2);
    let subject = addr(3);

    client.initialize(admin).unwrap();
    client.register_issuer(admin, issuer).unwrap();

    let attestation_id = client
        .create_attestation(issuer, subject, String::from("KYC_PASSED"), None, 42)
        .unwrap();
    client.revoke_attestation(issuer, attestation_id.clone()).unwrap();

    assert_eq!(client.events.len(), 2);
    match &client.events[0] {
        Event::Created { subject: s, id, issuer: i, claim_type, timestamp } => {
            assert_eq!(*s, subject);
            assert_eq!(*id, attestation_id);
            assert_eq!(*i, issuer);
            assert_eq!(claim_type, "KYC_PASSED");
            assert_eq!(*timestamp, 42);
        },
        other => panic!("expected a creation event, got {:?}", other),
    }
    match &client.events[1] {
        Event::Revoked { issuer: i, id } => {
            assert_eq!(*i, issuer);
            assert_eq!(*id, attestation_id);
        },
        other => panic!("expected a revocation event, got {:?}", other),
    }
}

#[test]
fn test_add_issuer_is_idempotent() {
    let mut client = TrustLinkContract::new();
    let admin = addr(1);
    let issuer = addr(2);

    client.initialize(admin).unwrap();
    client.register_issuer(admin, issuer).unwrap();
    client.register_issuer(admin, issuer).unwrap();
    assert!(client.is_issuer(issuer));

    client.remove_issuer(admin, issuer).unwrap();
    assert!(!client.is_issuer(issuer));
    // Removing a non-member is no error either.
    client.remove_issuer(admin, issuer).unwrap();
    assert!(!client.is_issuer(issuer));
}
