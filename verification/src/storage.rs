use vstd::prelude::*;

use crate::types::{Address, AttRec, Attestation, Error};

verus! {

/// One entry of an index: the attestation ids recorded under one
/// principal, in insertion order.
pub struct IndexEntry {
    pub key: Address,
    pub ids: Vec<String>,
}

/// The registry's persistent state: the administrator slot, the issuer
/// set, the attestation records, and the two append-only indexes.
pub struct Storage {
    pub admin: Option<Address>,
    pub issuers: Vec<Address>,
    pub attestations: Vec<Attestation>,
    pub subject_index: Vec<IndexEntry>,
    pub issuer_index: Vec<IndexEntry>,
}

/// The images of a sequence of id strings.
pub open spec fn ids_views(ids: Seq<String>) -> Seq<Seq<char>> {
    ids.map_values(|s: String| s@)
}

/// Whether some entry of `entries` carries `key`.
pub open spec fn entry_has_key(entries: Seq<IndexEntry>, key: Address) -> bool {
    exists|k: int| 0 <= k < entries.len() && entries[k].key == key
}

/// The position of the entry carrying `key` (meaningful when keys are
/// distinct and such an entry exists).
pub open spec fn key_index(entries: Seq<IndexEntry>, key: Address) -> int {
    choose|k: int| 0 <= k < entries.len() && entries[k].key == key
}

/// The ids recorded under `key`, defaulting to the empty sequence.
pub open spec fn index_ids(entries: Seq<IndexEntry>, key: Address) -> Seq<Seq<char>> {
    if entry_has_key(entries, key) {
        ids_views(entries[key_index(entries, key)].ids@)
    } else {
        Seq::empty()
    }
}

/// No two entries carry the same key.
pub open spec fn keys_distinct(entries: Seq<IndexEntry>) -> bool {
    forall|i: int, j: int| 0 <= i < j < entries.len() ==> entries[i].key != entries[j].key
}

/// `entries` records `id` somewhere.
pub open spec fn index_contains_id(entries: Seq<IndexEntry>, id: Seq<char>) -> bool {
    exists|k: int, m: int|
        0 <= k < entries.len() && 0 <= m < entries[k].ids@.len() && (#[trigger] entries[k].ids@[m])@
            == id
}

/// A record with id `id` stands in `atts`.
pub open spec fn seq_has_att(atts: Seq<Attestation>, id: Seq<char>) -> bool {
    exists|k: int| 0 <= k < atts.len() && (#[trigger] atts[k])@.id == id
}

/// The image of the record in `atts` with id `id` (meaningful when one
/// stands there).
pub open spec fn seq_att_rec(atts: Seq<Attestation>, id: Seq<char>) -> AttRec {
    atts[choose|k: int| 0 <= k < atts.len() && (#[trigger] atts[k])@.id == id]@
}

/// No two records of `atts` share an id.
pub open spec fn atts_distinct(atts: Seq<Attestation>) -> bool {
    forall|i: int, j: int|
        0 <= i < j < atts.len() ==> (#[trigger] atts[i])@.id != (#[trigger] atts[j])@.id
}

/// With distinct ids, the record found at `k` is the one `seq_att_rec`
/// reads.
proof fn lemma_att_at(atts: Seq<Attestation>, k: int)
    requires
        atts_distinct(atts),
        0 <= k < atts.len(),
    ensures
        seq_has_att(atts, atts[k]@.id),
        seq_att_rec(atts, atts[k]@.id) == atts[k]@,
{
    let id = atts[k]@.id;
    assert(seq_has_att(atts, id));
    let k2 = choose|k2: int| 0 <= k2 < atts.len() && (#[trigger] atts[k2])@.id == id;
    if k2 < k {
        assert(atts[k2]@.id != atts[k]@.id);
    } else if k < k2 {
        assert(atts[k]@.id != atts[k2]@.id);
    }
}

/// An explicit copy of a vector of id strings; the copy is equal
/// element by element.
fn clone_ids(ids: &Vec<String>) -> (r: Vec<String>)
    ensures
        r@ == ids@,
{
    let mut r: Vec<String> = Vec::new();
    let n = ids.len();
    for k in 0..n
        invariant
            n == ids.len(),
            r@.len() == k,
            forall|j: int| 0 <= j < k ==> r@[j] == ids@[j],
    {
        r.push(ids[k].clone());
    }
    proof {
        assert(r@ =~= ids@);
    }
    r
}

/// The ids recorded under `key`, copied out; the empty vector when no
/// entry carries `key`.
fn index_lookup(entries: &Vec<IndexEntry>, key: &Address) -> (r: Vec<String>)
    requires
        keys_distinct(entries@),
    ensures
        ids_views(r@) == index_ids(entries@, *key),
{
    let n = entries.len();
    for k in 0..n
        invariant
            n == entries.len(),
            keys_distinct(entries@),
            forall|j: int| 0 <= j < k ==> (#[trigger] entries@[j]).key != *key,
    {
        if entries[k].key == *key {
            let r = clone_ids(&entries[k].ids);
            proof {
                lemma_index_ids_at(entries@, *key, k as int);
            }
            return r;
        }
    }
    proof {
        assert(!entry_has_key(entries@, *key));
        assert(ids_views(Seq::<String>::empty()) =~= Seq::<Seq<char>>::empty());
    }
    Vec::new()
}

/// Append `attestation_id` to the sequence recorded under `key`,
/// creating the entry when absent.
fn index_append(entries: &mut Vec<IndexEntry>, key: &Address, attestation_id: &String)
    requires
        keys_distinct(old(entries)@),
    ensures
        keys_distinct(final(entries)@),
        index_ids(final(entries)@, *key) == index_ids(old(entries)@, *key).push(attestation_id@),
        forall|a: Address|
            a != *key ==> index_ids(final(entries)@, a) == index_ids(old(entries)@, a),
        forall|k: int, m: int|
            0 <= k < final(entries)@.len() && 0 <= m < final(entries)@[k].ids@.len() ==> ((
            #[trigger] final(entries)@[k].ids@[m])@ == attestation_id@ || index_contains_id(
                old(entries)@,
                (final(entries)@[k].ids@[m])@,
            )),
{
    let ghost pre = old(entries)@;
    let n = entries.len();
    for k in 0..n
        invariant
            n == entries.len(),
            *entries == *old(entries),
            pre == old(entries)@,
            keys_distinct(pre),
            forall|j: int| 0 <= j < k ==> (#[trigger] entries@[j]).key != *key,
    {
        if entries[k].key == *key {
            let mut entry = entries.remove(k);
            let ghost old_ids = entry.ids@;
            entry.ids.push(attestation_id.clone());
            entries.insert(k, entry);
            proof {
                let post = entries@;
                assert(post =~= pre.update(k as int, post[k as int]));
                assert(post[k as int].key == *key);
                assert(post[k as int].ids@ =~= old_ids.push(*attestation_id));
                assert(forall|j: int|
                    0 <= j < post.len() ==> (#[trigger] post[j]).key == pre[j].key);
                assert(keys_distinct(post));
                lemma_index_ids_at(pre, *key, k as int);
                lemma_index_ids_at(post, *key, k as int);
                assert(ids_views(post[k as int].ids@) =~= ids_views(old_ids).push(
                    attestation_id@,
                ));
                assert forall|a: Address| a != *key implies index_ids(post, a) == index_ids(
                    pre,
                    a,
                ) by {
                    if entry_has_key(pre, a) {
                        let j = key_index(pre, a);
                        assert(pre[j].key == a);
                        assert(j != k);
                        assert(post[j] == pre[j]);
                        lemma_index_ids_at(pre, a, j);
                        lemma_index_ids_at(post, a, j);
                    } else {
                        assert(!entry_has_key(post, a)) by {
                            if entry_has_key(post, a) {
                                let j = choose|j: int|
                                    0 <= j < post.len() && (#[trigger] post[j]).key == a;
                                assert(pre[j].key == a);
                            }
                        }
                    }
                }
                assert forall|k2: int, m: int|
                    0 <= k2 < post.len() && 0 <= m < post[k2].ids@.len() implies ((
                #[trigger] post[k2].ids@[m])@ == attestation_id@ || index_contains_id(
                    pre,
                    (post[k2].ids@[m])@,
                )) by {
                    if k2 != k {
                        assert(post[k2] == pre[k2]);
                        assert(index_contains_id(pre, (pre[k2].ids@[m])@));
                    } else {
                        if m < old_ids.len() {
                            assert(post[k2].ids@[m] == pre[k2 as int].ids@[m]);
                            assert(index_contains_id(pre, (pre[k2].ids@[m])@));
                        } else {
                            assert(post[k2].ids@[m] == *attestation_id);
                        }
                    }
                }
            }
            return ;
        }
    }
    let mut ids: Vec<String> = Vec::new();
    ids.push(attestation_id.clone());
    let ghost n_int = entries@.len() as int;
    entries.push(IndexEntry { key: *key, ids });
    proof {
        let post = entries@;
        assert(post[n_int].key == *key);
        assert(post[n_int].ids@ =~= Seq::<String>::empty().push(*attestation_id));
        assert forall|a: int, b: int| 0 <= a < b < post.len() implies (#[trigger] post[a]).key != (
        #[trigger] post[b]).key by {
            if b < n_int {
                assert(pre[a].key != pre[b].key);
            } else {
                assert(post[a] == pre[a]);
            }
        }
        assert(!entry_has_key(pre, *key));
        lemma_index_ids_at(post, *key, n_int);
        assert(ids_views(post[n_int].ids@) =~= Seq::<Seq<char>>::empty().push(attestation_id@));
        assert(index_ids(pre, *key) == Seq::<Seq<char>>::empty());
        assert forall|a: Address| a != *key implies index_ids(post, a) == index_ids(pre, a) by {
            if entry_has_key(pre, a) {
                let j = key_index(pre, a);
                assert(pre[j].key == a);
                assert(post[j] == pre[j]);
                lemma_index_ids_at(pre, a, j);
                lemma_index_ids_at(post, a, j);
            } else {
                assert(!entry_has_key(post, a)) by {
                    if entry_has_key(post, a) {
                        let j = choose|j: int| 0 <= j < post.len() && (#[trigger] post[j]).key == a;
                        assert(j != n_int);
                        assert(pre[j].key == a);
                    }
                }
            }
        }
        assert forall|k2: int, m: int|
            0 <= k2 < post.len() && 0 <= m < post[k2].ids@.len() implies ((
        #[trigger] post[k2].ids@[m])@ == attestation_id@ || index_contains_id(
            pre,
            (post[k2].ids@[m])@,
        )) by {
            if k2 < n_int {
                assert(post[k2] == pre[k2]);
                assert(index_contains_id(pre, (pre[k2].ids@[m])@));
            } else {
                assert(post[k2].ids@[m] == *attestation_id);
            }
        }
    }
}

/// With distinct keys, the entry found at `k` is the one `index_ids`
/// reads.
proof fn lemma_index_ids_at(entries: Seq<IndexEntry>, key: Address, k: int)
    requires
        keys_distinct(entries),
        0 <= k < entries.len(),
        entries[k].key == key,
    ensures
        entry_has_key(entries, key),
        key_index(entries, key) == k,
        index_ids(entries, key) == ids_views(entries[k].ids@),
{
    assert(entry_has_key(entries, key));
    let k2 = key_index(entries, key);
    assert(0 <= k2 < entries.len() && entries[k2].key == key);
    if k2 < k {
        assert(entries[k2].key != entries[k].key);
    } else if k < k2 {
        assert(entries[k].key != entries[k2].key);
    }
}

impl Storage {
    /// An administrator has been set.
    pub open spec fn spec_has_admin(self) -> bool {
        self.admin is Some
    }

    /// `a` is currently an authorized issuer.
    pub open spec fn spec_is_issuer(self, a: Address) -> bool {
        self.issuers@.contains(a)
    }

    /// A record with id `id` is stored.
    pub open spec fn spec_has_attestation(self, id: Seq<char>) -> bool {
        seq_has_att(self.attestations@, id)
    }

    /// The image of the stored record with id `id` (meaningful when one
    /// is stored).
    pub open spec fn att_rec(self, id: Seq<char>) -> AttRec {
        seq_att_rec(self.attestations@, id)
    }

    /// The ids recorded for subject `a`, in insertion order.
    pub open spec fn subject_ids(self, a: Address) -> Seq<Seq<char>> {
        index_ids(self.subject_index@, a)
    }

    /// The ids recorded for issuer `a`, in insertion order.
    pub open spec fn issuer_ids(self, a: Address) -> Seq<Seq<char>> {
        index_ids(self.issuer_index@, a)
    }

    /// Every id recorded in `entries` refers to a stored record.
    pub open spec fn index_ids_stored(self, entries: Seq<IndexEntry>) -> bool {
        forall|k: int, m: int|
            0 <= k < entries.len() && 0 <= m < entries[k].ids@.len()
                ==> self.spec_has_attestation((#[trigger] entries[k].ids@[m])@)
    }

    /// The state's invariant: the issuer set and the stored ids are
    /// duplicate-free, each index keys its entries uniquely, and every
    /// indexed id refers to a stored record.
    pub open spec fn wf(self) -> bool {
        &&& forall|i: int, j: int|
            0 <= i < j < self.issuers@.len() ==> self.issuers@[i] != self.issuers@[j]
        &&& atts_distinct(self.attestations@)
        &&& keys_distinct(self.subject_index@)
        &&& keys_distinct(self.issuer_index@)
        &&& self.index_ids_stored(self.subject_index@)
        &&& self.index_ids_stored(self.issuer_index@)
    }

    /// Every id in a subject's index refers to a stored record.
    pub proof fn lemma_subject_ids_stored(self, a: Address, k: int)
        requires
            self.wf(),
            0 <= k < self.subject_ids(a).len(),
        ensures
            self.spec_has_attestation(self.subject_ids(a)[k]),
    {
        let entries = self.subject_index@;
        assert(entry_has_key(entries, a));
        let ki = key_index(entries, a);
        assert(0 <= ki < entries.len() && entries[ki].key == a);
        assert(self.subject_ids(a)[k] == (entries[ki].ids@[k])@);
    }

    /// An empty registry state.
    pub fn new() -> (s: Storage)
        ensures
            s.wf(),
            s.admin is None,
            forall|a: Address| !s.spec_is_issuer(a),
            forall|id: Seq<char>| !s.spec_has_attestation(id),
            forall|a: Address| s.subject_ids(a) == Seq::<Seq<char>>::empty(),
            forall|a: Address| s.issuer_ids(a) == Seq::<Seq<char>>::empty(),
    {
        Storage {
            admin: None,
            issuers: Vec::new(),
            attestations: Vec::new(),
            subject_index: Vec::new(),
            issuer_index: Vec::new(),
        }
    }

    /// Whether an administrator has been set.
    pub fn has_admin(&self) -> (b: bool)
        ensures
            b == self.spec_has_admin(),
    {
        self.admin.is_some()
    }

    /// Record `admin` as the administrator.
    pub fn set_admin(&mut self, admin: &Address)
        ensures
            final(self).admin == Some(*admin),
            final(self).issuers == old(self).issuers,
            final(self).attestations == old(self).attestations,
            final(self).subject_index == old(self).subject_index,
            final(self).issuer_index == old(self).issuer_index,
            old(self).wf() ==> final(self).wf(),
    {
        self.admin = Some(*admin);
    }

    /// The administrator, or `NotInitialized` when none has been set.
    pub fn get_admin(&self) -> (r: Result<Address, Error>)
        ensures
            match self.admin {
                Some(a) => r == Ok::<Address, Error>(a),
                None => r == Err::<Address, Error>(Error::NotInitialized),
            },
    {
        match self.admin {
            Some(a) => Ok(a),
            None => Err(Error::NotInitialized),
        }
    }

    /// Membership test on the issuer set.
    pub fn is_issuer(&self, address: &Address) -> (b: bool)
        ensures
            b == self.spec_is_issuer(*address),
    {
        let n = self.issuers.len();
        for i in 0..n
            invariant
                n == self.issuers.len(),
                forall|j: int| 0 <= j < i ==> self.issuers@[j] != *address,
        {
            if self.issuers[i] == *address {
                return true;
            }
        }
        proof {
            assert(!self.issuers@.contains(*address));
        }
        false
    }

    /// Add `issuer` to the issuer set; no effect when already present.
    pub fn add_issuer(&mut self, issuer: &Address)
        requires
            old(self).wf(),
        ensures
            final(self).wf(),
            final(self).spec_is_issuer(*issuer),
            forall|x: Address|
                x != *issuer ==> final(self).spec_is_issuer(x) == old(self).spec_is_issuer(x),
            final(self).admin == old(self).admin,
            final(self).attestations == old(self).attestations,
            final(self).subject_index == old(self).subject_index,
            final(self).issuer_index == old(self).issuer_index,
    {
        if !self.is_issuer(issuer) {
            let ghost n = self.issuers@.len() as int;
            self.issuers.push(*issuer);
            proof {
                assert(self.issuers@[n] == *issuer);
                assert forall|x: Address| x != *issuer implies self.spec_is_issuer(x) == old(
                    self,
                ).spec_is_issuer(x) by {
                    if self.spec_is_issuer(x) {
                        let k = choose|k: int|
                            0 <= k < self.issuers@.len() && self.issuers@[k] == x;
                        assert(k < n);
                        assert(old(self).issuers@[k] == x);
                    }
                    if old(self).spec_is_issuer(x) {
                        let k = choose|k: int|
                            0 <= k < old(self).issuers@.len() && old(self).issuers@[k] == x;
                        assert(self.issuers@[k] == x);
                    }
                }
            }
        }
    }

    /// Remove `issuer` from the issuer set; no effect when absent.
    pub fn remove_issuer(&mut self, issuer: &Address)
        requires
            old(self).wf(),
        ensures
            final(self).wf(),
            !final(self).spec_is_issuer(*issuer),
            forall|x: Address|
                x != *issuer ==> final(self).spec_is_issuer(x) == old(self).spec_is_issuer(x),
            final(self).admin == old(self).admin,
            final(self).attestations == old(self).attestations,
            final(self).subject_index == old(self).subject_index,
            final(self).issuer_index == old(self).issuer_index,
    {
        let n = self.issuers.len();
        for i in 0..n
            invariant
                n == self.issuers.len(),
                *self == *old(self),
                old(self).wf(),
                forall|j: int| 0 <= j < i ==> self.issuers@[j] != *issuer,
        {
            if self.issuers[i] == *issuer {
                self.issuers.remove(i);
                proof {
                    let pre = old(self).issuers@;
                    let post = self.issuers@;
                    assert(pre[i as int] == *issuer);
                    assert(post =~= pre.remove(i as int));
                    assert forall|a: int, b: int| 0 <= a < b < post.len() implies post[a]
                        != post[b] by {
                        let pa: int = if a < i { a } else { a + 1 };
                        let pb: int = if b < i { b } else { b + 1 };
                        assert(post[a] == pre[pa]);
                        assert(post[b] == pre[pb]);
                        assert(pre[pa] != pre[pb]);
                    }
                    assert forall|x: Address| x != *issuer implies self.spec_is_issuer(x) == old(
                        self,
                    ).spec_is_issuer(x) by {
                        if self.spec_is_issuer(x) {
                            let k = choose|k: int| 0 <= k < post.len() && post[k] == x;
                            if k < i {
                                assert(pre[k] == x);
                            } else {
                                assert(pre[k + 1] == x);
                            }
                        }
                        if old(self).spec_is_issuer(x) {
                            let k = choose|k: int| 0 <= k < pre.len() && pre[k] == x;
                            assert(k != i);
                            if k < i {
                                assert(post[k] == x);
                            } else {
                                assert(post[k - 1] == x);
                            }
                        }
                    }
                    assert(!self.spec_is_issuer(*issuer)) by {
                        if self.spec_is_issuer(*issuer) {
                            let k = choose|k: int| 0 <= k < post.len() && post[k] == *issuer;
                            let pk: int = if k < i { k } else { k + 1 };
                            assert(post[k] == pre[pk]);
                            if pk > i {
                                assert(pre[i as int] != pre[pk]);
                            }
                        }
                    }
                }
                return ;
            }
        }
        proof {
            assert(!self.issuers@.contains(*issuer));
        }
    }

    /// Whether a record with the given id is stored.
    pub fn has_attestation(&self, id: &String) -> (b: bool)
        ensures
            b == self.spec_has_attestation(id@),
    {
        let n = self.attestations.len();
        for k in 0..n
            invariant
                n == self.attestations.len(),
                forall|j: int| 0 <= j < k ==> (#[trigger] self.attestations@[j])@.id != id@,
        {
            if self.attestations[k].id == *id {
                proof {
                    assert((self.attestations@[k as int])@.id == id@);
                }
                return true;
            }
        }
        proof {
            assert(!seq_has_att(self.attestations@, id@));
        }
        false
    }

    /// Store `attestation` under its own id: an upsert that creates the
    /// record or replaces the one sharing its id.
    pub fn set_attestation(&mut self, attestation: Attestation)
        requires
            old(self).wf(),
        ensures
            final(self).wf(),
            final(self).spec_has_attestation(attestation@.id),
            final(self).att_rec(attestation@.id) == attestation@,
            forall|x: Seq<char>|
                x != attestation@.id ==> final(self).spec_has_attestation(x) == old(
                    self,
                ).spec_has_attestation(x),
            forall|x: Seq<char>|
                x != attestation@.id && old(self).spec_has_attestation(x) ==> final(self).att_rec(x)
                    == old(self).att_rec(x),
            final(self).admin == old(self).admin,
            final(self).issuers == old(self).issuers,
            final(self).subject_index == old(self).subject_index,
            final(self).issuer_index == old(self).issuer_index,
    {
        let ghost pre = old(self).attestations@;
        let n = self.attestations.len();
        for k in 0..n
            invariant
                n == self.attestations.len(),
                *self == *old(self),
                old(self).wf(),
                pre == old(self).attestations@,
                forall|j: int|
                    0 <= j < k ==> (#[trigger] self.attestations@[j])@.id != attestation@.id,
        {
            if self.attestations[k].id == attestation.id {
                self.attestations.set(k, attestation);
                proof {
                    let post = self.attestations@;
                    assert(pre[k as int]@.id == attestation@.id);
                    assert(forall|a: int|
                        0 <= a < post.len() ==> (#[trigger] post[a])@.id == pre[a]@.id);
                    assert(atts_distinct(post));
                    lemma_att_at(post, k as int);
                    self.lemma_set_frame(*old(self), attestation@.id);
                }
                return ;
            }
        }
        proof {
            assert(!seq_has_att(pre, attestation@.id));
        }
        let ghost n_int = self.attestations@.len() as int;
        self.attestations.push(attestation);
        proof {
            let post = self.attestations@;
            assert(post[n_int]@.id == attestation@.id);
            assert forall|a: int, b: int| 0 <= a < b < post.len() implies (#[trigger] post[a])@.id
                != (#[trigger] post[b])@.id by {
                if b < n_int {
                    assert(pre[a]@.id != pre[b]@.id);
                } else {
                    assert(post[a] == pre[a]);
                }
            }
            lemma_att_at(post, n_int);
            self.lemma_set_frame(*old(self), attestation@.id);
        }
    }

    /// After a mutation that leaves every record with another id in
    /// place, presence and content under every other id are unchanged,
    /// and the indexes still refer to stored records.
    proof fn lemma_set_frame(self, pre_state: Storage, changed: Seq<char>)
        requires
            atts_distinct(pre_state.attestations@),
            atts_distinct(self.attestations@),
            self.subject_index == pre_state.subject_index,
            self.issuer_index == pre_state.issuer_index,
            pre_state.index_ids_stored(pre_state.subject_index@),
            pre_state.index_ids_stored(pre_state.issuer_index@),
            self.spec_has_attestation(changed),
            forall|j: int|
                0 <= j < pre_state.attestations@.len() && (
                #[trigger] pre_state.attestations@[j])@.id != changed
                    ==> self.attestations@.len() > j && self.attestations@[j]
                    == pre_state.attestations@[j],
            forall|j: int|
                0 <= j < self.attestations@.len() && (#[trigger] self.attestations@[j])@.id
                    != changed ==> pre_state.attestations@.len() > j
                    && pre_state.attestations@[j] == self.attestations@[j],
        ensures
            forall|x: Seq<char>|
                x != changed ==> self.spec_has_attestation(x) == pre_state.spec_has_attestation(x),
            forall|x: Seq<char>|
                x != changed && pre_state.spec_has_attestation(x) ==> self.att_rec(x)
                    == pre_state.att_rec(x),
            self.index_ids_stored(self.subject_index@),
            self.index_ids_stored(self.issuer_index@),
    {
        let pre = pre_state.attestations@;
        let post = self.attestations@;
        assert forall|x: Seq<char>| x != changed implies seq_has_att(post, x) == seq_has_att(
            pre,
            x,
        ) by {
            if seq_has_att(post, x) {
                let k = choose|k: int| 0 <= k < post.len() && (#[trigger] post[k])@.id == x;
                assert(pre[k] == post[k]);
            }
            if seq_has_att(pre, x) {
                let k = choose|k: int| 0 <= k < pre.len() && (#[trigger] pre[k])@.id == x;
                assert(post[k] == pre[k]);
            }
        }
        assert forall|x: Seq<char>|
            x != changed && seq_has_att(pre, x) implies seq_att_rec(post, x) == seq_att_rec(
            pre,
            x,
        ) by {
            let k = choose|k: int| 0 <= k < pre.len() && (#[trigger] pre[k])@.id == x;
            assert(post[k] == pre[k]);
            lemma_att_at(pre, k);
            lemma_att_at(post, k);
        }
        assert forall|k: int, m: int|
            0 <= k < self.subject_index@.len() && 0 <= m
                < self.subject_index@[k].ids@.len() implies self.spec_has_attestation((
        #[trigger] self.subject_index@[k].ids@[m])@) by {
            let x = (self.subject_index@[k].ids@[m])@;
            assert(pre_state.spec_has_attestation(x));
        }
        assert forall|k: int, m: int|
            0 <= k < self.issuer_index@.len() && 0 <= m
                < self.issuer_index@[k].ids@.len() implies self.spec_has_attestation((
        #[trigger] self.issuer_index@[k].ids@[m])@) by {
            let x = (self.issuer_index@[k].ids@[m])@;
            assert(pre_state.spec_has_attestation(x));
        }
    }

    /// The stored record with the given id, or `NotFound`.
    pub fn get_attestation(&self, id: &String) -> (r: Result<Attestation, Error>)
        requires
            self.wf(),
        ensures
            match r {
                Ok(a) => self.spec_has_attestation(id@) && a@ == self.att_rec(id@),
                Err(e) => !self.spec_has_attestation(id@) && e == Error::NotFound,
            },
    {
        let n = self.attestations.len();
        for k in 0..n
            invariant
                n == self.attestations.len(),
                self.wf(),
                forall|j: int| 0 <= j < k ==> (#[trigger] self.attestations@[j])@.id != id@,
        {
            if self.attestations[k].id == *id {
                let a = self.attestations[k].duplicate();
                proof {
                    lemma_att_at(self.attestations@, k as int);
                }
                return Ok(a);
            }
        }
        proof {
            assert(!seq_has_att(self.attestations@, id@));
        }
        Err(Error::NotFound)
    }

    /// The ids recorded for `subject`, copied out in insertion order.
    pub fn get_subject_attestations(&self, subject: &Address) -> (r: Vec<String>)
        requires
            self.wf(),
        ensures
            ids_views(r@) == self.subject_ids(*subject),
    {
        index_lookup(&self.subject_index, subject)
    }

    /// Record `attestation_id` for `subject`; the id must refer to a
    /// stored record (the record is written before the index).
    pub fn add_subject_attestation(&mut self, subject: &Address, attestation_id: &String)
        requires
            old(self).wf(),
            old(self).spec_has_attestation(attestation_id@),
        ensures
            final(self).wf(),
            final(self).subject_ids(*subject) == old(self).subject_ids(*subject).push(
                attestation_id@,
            ),
            forall|a: Address|
                a != *subject ==> final(self).subject_ids(a) == old(self).subject_ids(a),
            final(self).admin == old(self).admin,
            final(self).issuers == old(self).issuers,
            final(self).attestations == old(self).attestations,
            final(self).issuer_index == old(self).issuer_index,
    {
        index_append(&mut self.subject_index, subject, attestation_id);
        proof {
            assert forall|k: int, m: int|
                0 <= k < self.subject_index@.len() && 0 <= m
                    < self.subject_index@[k].ids@.len() implies self.spec_has_attestation((
            #[trigger] self.subject_index@[k].ids@[m])@) by {
                let x = (self.subject_index@[k].ids@[m])@;
                if x != attestation_id@ {
                    assert(index_contains_id(old(self).subject_index@, x));
                    let (k2, m2) = choose|k2: int, m2: int|
                        0 <= k2 < old(self).subject_index@.len() && 0 <= m2 < old(
                            self,
                        ).subject_index@[k2].ids@.len() && (#[trigger] old(
                            self,
                        ).subject_index@[k2].ids@[m2])@ == x;
                    assert(old(self).spec_has_attestation(x));
                }
            }
        }
    }

    /// The ids recorded for `issuer`, copied out in insertion order.
    pub fn get_issuer_attestations(&self, issuer: &Address) -> (r: Vec<String>)
        requires
            self.wf(),
        ensures
            ids_views(r@) == self.issuer_ids(*issuer),
    {
        index_lookup(&self.issuer_index, issuer)
    }

    /// Record `attestation_id` for `issuer`; the id must refer to a
    /// stored record.
    pub fn add_issuer_attestation(&mut self, issuer: &Address, attestation_id: &String)
        requires
            old(self).wf(),
            old(self).spec_has_attestation(attestation_id@),
        ensures
            final(self).wf(),
            final(self).issuer_ids(*issuer) == old(self).issuer_ids(*issuer).push(attestation_id@),
            forall|a: Address|
                a != *issuer ==> final(self).issuer_ids(a) == old(self).issuer_ids(a),
            final(self).admin == old(self).admin,
            final(self).issuers == old(self).issuers,
            final(self).attestations == old(self).attestations,
            final(self).subject_index == old(self).subject_index,
    {
        index_append(&mut self.issuer_index, issuer, attestation_id);
        proof {
            assert forall|k: int, m: int|
                0 <= k < self.issuer_index@.len() && 0 <= m
                    < self.issuer_index@[k].ids@.len() implies self.spec_has_attestation((
            #[trigger] self.issuer_index@[k].ids@[m])@) by {
                let x = (self.issuer_index@[k].ids@[m])@;
                if x != attestation_id@ {
                    assert(index_contains_id(old(self).issuer_index@, x));
                    let (k2, m2) = choose|k2: int, m2: int|
                        0 <= k2 < old(self).issuer_index@.len() && 0 <= m2 < old(
                            self,
                        ).issuer_index@[k2].ids@.len() && (#[trigger] old(
                            self,
                        ).issuer_index@[k2].ids@[m2])@ == x;
                    assert(old(self).spec_has_attestation(x));
                }
            }
        }
    }
}

} // verus!
