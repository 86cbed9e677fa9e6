use vstd::prelude::*;

verus! {

/// Terminal business errors returned by the registry's operations.
#[derive(Clone, Copy, Debug, PartialEq, Eq, Structural)]
pub enum Error {
    /// No administrator has been set yet.
    NotInitialized,
    /// `initialize` was called while an administrator already exists.
    AlreadyInitialized,
    /// The caller lacks the role or authorship the operation demands.
    Unauthorized,
    /// The referenced attestation id does not exist.
    NotFound,
    /// An attestation with the derived id already exists.
    DuplicateAttestation,
    /// The attestation was already revoked.
    AlreadyRevoked,
}

/// The derived validity state of an attestation, computed on read and
/// never stored: revocation dominates expiration.
#[derive(Clone, Copy, Debug, PartialEq, Eq, Structural)]
pub enum AttestationStatus {
    Valid,
    Expired,
    Revoked,
}

/// A principal identity as the host hands it to the library: an opaque
/// numeric handle standing for the host's address type.
#[derive(Clone, Copy, Debug, PartialEq, Eq, Structural)]
pub struct Address {
    pub id: u64,
}

/// The mathematical image of an [`Attestation`]: string fields become
/// character sequences.
pub struct AttRec {
    pub id: Seq<char>,
    pub issuer: Address,
    pub subject: Address,
    pub claim_type: Seq<char>,
    pub timestamp: u64,
    pub expiration: Option<u64>,
    pub revoked: bool,
}

/// A time-bounded claim by `issuer` about `subject`. Every field but
/// `revoked` is immutable after creation.
#[derive(Debug)]
pub struct Attestation {
    pub id: String,
    pub issuer: Address,
    pub subject: Address,
    pub claim_type: String,
    pub timestamp: u64,
    pub expiration: Option<u64>,
    pub revoked: bool,
}

impl View for Attestation {
    type V = AttRec;

    open spec fn view(&self) -> AttRec {
        AttRec {
            id: self.id@,
            issuer: self.issuer,
            subject: self.subject,
            claim_type: self.claim_type@,
            timestamp: self.timestamp,
            expiration: self.expiration,
            revoked: self.revoked,
        }
    }
}

/// The derived status of a record at clock reading `now`: `Revoked` wins,
/// then `Expired` once `now` reaches the expiration tick, else `Valid`.
pub open spec fn status_of(rec: AttRec, now: u64) -> AttestationStatus {
    if rec.revoked {
        AttestationStatus::Revoked
    } else {
        match rec.expiration {
            Some(exp) => if now >= exp {
                AttestationStatus::Expired
            } else {
                AttestationStatus::Valid
            },
            None => AttestationStatus::Valid,
        }
    }
}

/// The character for the decimal digit `d`.
pub open spec fn digit_char(d: nat) -> char {
    if d == 0 {
        '0'
    } else if d == 1 {
        '1'
    } else if d == 2 {
        '2'
    } else if d == 3 {
        '3'
    } else if d == 4 {
        '4'
    } else if d == 5 {
        '5'
    } else if d == 6 {
        '6'
    } else if d == 7 {
        '7'
    } else if d == 8 {
        '8'
    } else {
        '9'
    }
}

/// The decimal rendering of `n`, most significant digit first.
pub open spec fn dec_rep(n: nat) -> Seq<char>
    decreases n,
{
    if n < 10 {
        seq![digit_char(n)]
    } else {
        dec_rep(n / 10).push(digit_char(n % 10))
    }
}

proof fn lemma_dec_rep_len(n: nat)
    ensures
        dec_rep(n).len() >= 1,
    decreases n,
{
    if n >= 10 {
        lemma_dec_rep_len(n / 10);
    }
}

/// Distinct numbers render to distinct decimal strings.
proof fn lemma_dec_rep_injective(a: nat, b: nat)
    requires
        dec_rep(a) == dec_rep(b),
    ensures
        a == b,
    decreases a + b,
{
    lemma_dec_rep_len(a);
    lemma_dec_rep_len(b);
    if a < 10 && b < 10 {
        assert(dec_rep(a)[0] == digit_char(a));
        assert(dec_rep(b)[0] == digit_char(b));
    } else if a < 10 {
        lemma_dec_rep_len(b / 10);
        assert(dec_rep(b).len() >= 2);
    } else if b < 10 {
        lemma_dec_rep_len(a / 10);
        assert(dec_rep(a).len() >= 2);
    } else {
        assert(dec_rep(a).last() == digit_char(a % 10));
        assert(dec_rep(b).last() == digit_char(b % 10));
        assert(a % 10 == b % 10);
        assert(dec_rep(a).drop_last() =~= dec_rep(a / 10));
        assert(dec_rep(b).drop_last() =~= dec_rep(b / 10));
        lemma_dec_rep_injective(a / 10, b / 10);
        assert(a == 10 * (a / 10) + a % 10) by {
            vstd::arithmetic::div_mod::lemma_fundamental_div_mod(a as int, 10);
        }
        assert(b == 10 * (b / 10) + b % 10) by {
            vstd::arithmetic::div_mod::lemma_fundamental_div_mod(b as int, 10);
        }
    }
}

/// The one-character string for the decimal digit `d`.
fn digit_str(d: u64) -> (r: &'static str)
    requires
        d < 10,
    ensures
        r@ == seq![digit_char(d as nat)],
{
    proof {
        reveal_strlit("0");
        reveal_strlit("1");
        reveal_strlit("2");
        reveal_strlit("3");
        reveal_strlit("4");
        reveal_strlit("5");
        reveal_strlit("6");
        reveal_strlit("7");
        reveal_strlit("8");
        reveal_strlit("9");
    }
    let r: &'static str = if d == 0 {
        "0"
    } else if d == 1 {
        "1"
    } else if d == 2 {
        "2"
    } else if d == 3 {
        "3"
    } else if d == 4 {
        "4"
    } else if d == 5 {
        "5"
    } else if d == 6 {
        "6"
    } else if d == 7 {
        "7"
    } else if d == 8 {
        "8"
    } else {
        "9"
    };
    proof {
        assert(r@ =~= seq![digit_char(d as nat)]);
    }
    r
}

/// Render `n` in decimal.
fn u64_to_dec(n: u64) -> (s: String)
    ensures
        s@ == dec_rep(n as nat),
    decreases n,
{
    if n < 10 {
        let s = String::from_str(digit_str(n));
        s
    } else {
        let mut s = u64_to_dec(n / 10);
        s.append(digit_str(n % 10));
        proof {
            assert(s@ =~= dec_rep(n as nat));
        }
        s
    }
}

/// The id derived from an attestation's identifying tuple: a textual
/// rendering of (issuer, subject, claim type, creation tick). Identical
/// tuples give identical ids; this is the duplicate guard.
pub open spec fn id_spec(issuer: Address, subject: Address, claim_type: Seq<char>, timestamp: u64) -> Seq<char> {
    "ATT:"@ + dec_rep(issuer.id as nat) + ":"@ + dec_rep(subject.id as nat) + ":"@ + claim_type
        + ":"@ + dec_rep(timestamp as nat)
}

/// The same identifying tuple at two distinct clock ticks derives two
/// distinct ids.
pub proof fn lemma_id_distinct_ticks(
    issuer: Address,
    subject: Address,
    claim_type: Seq<char>,
    t1: u64,
    t2: u64,
)
    requires
        t1 != t2,
    ensures
        id_spec(issuer, subject, claim_type, t1) != id_spec(issuer, subject, claim_type, t2),
{
    let p = "ATT:"@ + dec_rep(issuer.id as nat) + ":"@ + dec_rep(subject.id as nat) + ":"@
        + claim_type + ":"@;
    let d1 = dec_rep(t1 as nat);
    let d2 = dec_rep(t2 as nat);
    assert(id_spec(issuer, subject, claim_type, t1) =~= p + d1);
    assert(id_spec(issuer, subject, claim_type, t2) =~= p + d2);
    if id_spec(issuer, subject, claim_type, t1) == id_spec(issuer, subject, claim_type, t2) {
        assert((p + d1).len() == (p + d2).len());
        assert(d1.len() == d2.len());
        assert(d1 =~= d2) by {
            assert(forall|k: int|
                0 <= k < d1.len() ==> d1[k] == (p + d1)[p.len() + k] && d2[k] == (p + d2)[p.len()
                    + k]);
        }
        lemma_dec_rep_injective(t1 as nat, t2 as nat);
    }
}

impl Attestation {
    /// Derive the deterministic id for the identifying tuple; the pure
    /// counterpart of the stored record's `id` field.
    pub fn generate_id(
        issuer: &Address,
        subject: &Address,
        claim_type: &String,
        timestamp: u64,
    ) -> (id: String)
        ensures
            id@ == id_spec(*issuer, *subject, claim_type@, timestamp),
    {
        let mut s = String::from_str("ATT:");
        s.append(u64_to_dec(issuer.id).as_str());
        s.append(":");
        s.append(u64_to_dec(subject.id).as_str());
        s.append(":");
        s.append(claim_type.as_str());
        s.append(":");
        s.append(u64_to_dec(timestamp).as_str());
        proof {
            assert(s@ =~= id_spec(*issuer, *subject, claim_type@, timestamp));
        }
        s
    }

    /// Compute the status of this record against the clock reading `now`.
    pub fn get_status(&self, now: u64) -> (s: AttestationStatus)
        ensures
            s == status_of(self@, now),
    {
        if self.revoked {
            AttestationStatus::Revoked
        } else {
            match self.expiration {
                Some(exp) => if now >= exp {
                    AttestationStatus::Expired
                } else {
                    AttestationStatus::Valid
                },
                None => AttestationStatus::Valid,
            }
        }
    }

    /// An explicit copy of the record; the copy has the same image.
    pub fn duplicate(&self) -> (r: Attestation)
        ensures
            r@ == self@,
    {
        Attestation {
            id: self.id.clone(),
            issuer: self.issuer,
            subject: self.subject,
            claim_type: self.claim_type.clone(),
            timestamp: self.timestamp,
            expiration: self.expiration,
            revoked: self.revoked,
        }
    }
}

} // verus!
