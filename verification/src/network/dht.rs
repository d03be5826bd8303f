//! Kademlia routing table: 160-bit node identifiers, the XOR metric,
//! k-buckets and iterative lookups.
use vstd::prelude::*;
use crate::clock::now_millis;
use crate::network::address::SocketAddress;
use crate::crypto::{hex_decode, hex_decoded, hex_encode, hex_lower, random_id_bytes, sha256, sha256_digest};
use crate::keyed::{keys_distinct, lemma_filter_keys_distinct};

verus! {

// ---------------------------------------------------------------------------
// Lexicographic order on byte strings (the order of `[u8; 20]`).
// ---------------------------------------------------------------------------

/// `a` is lexicographically smaller than `b`, comparing from position `i` on.
pub open spec fn lex_lt_from(a: Seq<u8>, b: Seq<u8>, i: int) -> bool
    decreases a.len() - i,
{
    if i < 0 || i >= a.len() || i >= b.len() {
        false
    } else if a[i] < b[i] {
        true
    } else if a[i] > b[i] {
        false
    } else {
        lex_lt_from(a, b, i + 1)
    }
}

/// Strict lexicographic order on byte strings.
pub open spec fn lex_lt(a: Seq<u8>, b: Seq<u8>) -> bool {
    lex_lt_from(a, b, 0)
}

/// The order is irreflexive.
pub proof fn lemma_lex_irreflexive(a: Seq<u8>, i: int)
    requires
        0 <= i,
    ensures
        !lex_lt_from(a, a, i),
    decreases a.len() - i,
{
    if i < a.len() {
        lemma_lex_irreflexive(a, i + 1);
    }
}

/// The order is asymmetric.
pub proof fn lemma_lex_asymmetric(a: Seq<u8>, b: Seq<u8>, i: int)
    requires
        0 <= i,
        lex_lt_from(a, b, i),
    ensures
        !lex_lt_from(b, a, i),
    decreases a.len() - i,
{
    if i < a.len() && i < b.len() && a[i] == b[i] {
        lemma_lex_asymmetric(a, b, i + 1);
    }
}

/// The order is transitive.
pub proof fn lemma_lex_transitive(a: Seq<u8>, b: Seq<u8>, c: Seq<u8>, i: int)
    requires
        0 <= i,
        a.len() == b.len(),
        b.len() == c.len(),
        lex_lt_from(a, b, i),
        lex_lt_from(b, c, i),
    ensures
        lex_lt_from(a, c, i),
    decreases a.len() - i,
{
    if i < a.len() && a[i] == b[i] && b[i] == c[i] {
        lemma_lex_transitive(a, b, c, i + 1);
    }
}

/// Two strings of one length that neither precedes are equal from `i` on.
pub proof fn lemma_lex_total(a: Seq<u8>, b: Seq<u8>, i: int)
    requires
        0 <= i,
        a.len() == b.len(),
        !lex_lt_from(a, b, i),
        !lex_lt_from(b, a, i),
    ensures
        forall|j: int| i <= j < a.len() ==> a[j] == b[j],
    decreases a.len() - i,
{
    if i < a.len() {
        lemma_lex_total(a, b, i + 1);
    }
}

/// Two strings of one length: equal, or one strictly precedes the other.
pub proof fn lemma_lex_trichotomy(a: Seq<u8>, b: Seq<u8>)
    requires
        a.len() == b.len(),
    ensures
        a == b || lex_lt(a, b) || lex_lt(b, a),
{
    if !lex_lt(a, b) && !lex_lt(b, a) {
        lemma_lex_total(a, b, 0);
        assert(a =~= b);
    }
}

/// Compares two 20-byte strings: `Some(true)` when `a < b`, `Some(false)`
/// when `b < a`, `None` when they are equal.
fn compare_ids(a: &[u8; 20], b: &[u8; 20]) -> (r: Option<bool>)
    ensures
        r == Some(true) <==> lex_lt(a@, b@),
        r == Some(false) <==> lex_lt(b@, a@),
        r is None <==> a@ == b@,
{
    let mut i: usize = 0;
    while i < 20
        invariant
            0 <= i <= 20,
            a@.len() == 20,
            b@.len() == 20,
            forall|j: int| 0 <= j < i ==> a@[j] == b@[j],
            lex_lt(a@, b@) == lex_lt_from(a@, b@, i as int),
            lex_lt(b@, a@) == lex_lt_from(b@, a@, i as int),
        decreases 20 - i,
    {
        if a[i] < b[i] {
            proof {
                lemma_lex_asymmetric(a@, b@, 0);
                lemma_lex_irreflexive(a@, 0);
            }
            return Some(true);
        } else if a[i] > b[i] {
            proof {
                lemma_lex_asymmetric(b@, a@, 0);
                lemma_lex_irreflexive(a@, 0);
            }
            return Some(false);
        }
        i = i + 1;
    }
    assert(a@ =~= b@);
    proof {
        lemma_lex_irreflexive(a@, 0);
    }
    None
}

// ---------------------------------------------------------------------------
// Node identifiers and the XOR metric.
// ---------------------------------------------------------------------------

/// Node ID (160-bit for Kademlia compatibility)
#[derive(Debug, Clone, Copy, PartialEq, Eq, Hash, PartialOrd, Ord)]
pub struct NodeId(pub [u8; 20]);

impl View for NodeId {
    type V = Seq<u8>;

    open spec fn view(&self) -> Seq<u8> {
        self.0@
    }
}

/// Byte-wise XOR of two strings of one length.
pub open spec fn xor_bytes(a: Seq<u8>, b: Seq<u8>) -> Seq<u8> {
    Seq::new(a.len(), |i: int| a[i] ^ b[i])
}

/// Whether bit `i` of a byte string is set, counting the bits of each byte
/// from its least significant one.
pub open spec fn bit_set(d: Seq<u8>, i: int) -> bool {
    d[i / 8] & (1u8 << ((i % 8) as u8)) != 0
}

/// The first position at or after `i` (below 160) whose bit is set, or 160.
pub open spec fn first_set_bit_from(d: Seq<u8>, i: int) -> int
    decreases 160 - i,
{
    if i >= 160 || i < 0 {
        160
    } else if bit_set(d, i) {
        i
    } else {
        first_set_bit_from(d, i + 1)
    }
}

/// The k-bucket that a node with XOR distance `d` from us belongs in.
pub open spec fn bucket_of_distance(d: Seq<u8>) -> int {
    let f = first_set_bit_from(d, 0);
    if f < 160 {
        159 - f
    } else {
        0
    }
}

/// The bucket of `other` in the routing table of `me`.
pub open spec fn bucket_of(me: Seq<u8>, other: Seq<u8>) -> int {
    bucket_of_distance(xor_bytes(me, other))
}

/// The XOR distance is a metric's core: it is symmetric, the distance of
/// an identifier to itself is all zeros, and a zero distance means the
/// identifiers are equal.
pub proof fn lemma_distance_laws(a: Seq<u8>, b: Seq<u8>)
    requires
        a.len() == b.len(),
    ensures
        xor_bytes(a, b) == xor_bytes(b, a),
        xor_bytes(a, a) == Seq::new(a.len(), |i: int| 0u8),
        xor_bytes(a, b) == Seq::new(a.len(), |i: int| 0u8) ==> a == b,
{
    assert forall|i: int| 0 <= i < a.len() implies #[trigger] xor_bytes(a, b)[i] == xor_bytes(b, a)[i] by {
        let x = a[i];
        let y = b[i];
        assert(x ^ y == y ^ x) by (bit_vector);
    }
    assert(xor_bytes(a, b) =~= xor_bytes(b, a));
    assert forall|i: int| 0 <= i < a.len() implies #[trigger] xor_bytes(a, a)[i] == 0u8 by {
        let x = a[i];
        assert(x ^ x == 0u8) by (bit_vector);
    }
    assert(xor_bytes(a, a) =~= Seq::new(a.len(), |i: int| 0u8));
    if xor_bytes(a, b) == Seq::new(a.len(), |i: int| 0u8) {
        assert forall|i: int| 0 <= i < a.len() implies a[i] == b[i] by {
            let x = a[i];
            let y = b[i];
            assert(xor_bytes(a, b)[i] == 0u8);
            assert(x ^ y == 0u8 ==> x == y) by (bit_vector);
        }
        assert(a =~= b);
    }
}

/// XOR with a fixed string is injective.
pub proof fn lemma_xor_injective(t: Seq<u8>, a: Seq<u8>, b: Seq<u8>)
    requires
        t.len() == a.len(),
        a.len() == b.len(),
        xor_bytes(t, a) == xor_bytes(t, b),
    ensures
        a == b,
{
    assert forall|i: int| 0 <= i < a.len() implies a[i] == b[i] by {
        let x = t[i];
        let y = a[i];
        let z = b[i];
        assert(xor_bytes(t, a)[i] == xor_bytes(t, b)[i]);
        assert(xor_bytes(t, a)[i] == x ^ y);
        assert(xor_bytes(t, b)[i] == x ^ z);
        assert(y == z) by (bit_vector)
            requires
                x ^ y == x ^ z,
        ;
    }
    assert(a =~= b);
}

impl NodeId {
    /// Generate random NodeId
    pub fn random() -> (r: NodeId) {
        NodeId(random_id_bytes())
    }

    /// Create NodeId from bytes
    pub fn from_bytes(bytes: [u8; 20]) -> (r: NodeId)
        ensures
            r@ == bytes@,
    {
        NodeId(bytes)
    }

    /// Create NodeId from hash of data: the first 20 bytes of its SHA-256.
    pub fn from_hash(data: &[u8]) -> (r: NodeId)
        ensures
            r@ == sha256_digest(data@).subrange(0, 20),
    {
        let digest = sha256(data);
        let mut bytes = [0u8; 20];
        let mut i: usize = 0;
        while i < 20
            invariant
                0 <= i <= 20,
                digest@ == sha256_digest(data@),
                digest@.len() == 32,
                bytes@.len() == 20,
                forall|j: int| 0 <= j < i ==> bytes@[j] == digest@[j],
            decreases 20 - i,
        {
            bytes[i] = digest[i];
            i = i + 1;
        }
        assert(bytes@ =~= sha256_digest(data@).subrange(0, 20));
        NodeId(bytes)
    }

    /// Parse a NodeId from its hexadecimal text: 40 digits, either case.
    pub fn from_hex(text: &str) -> (r: Result<NodeId, DhtError>)
        ensures
            match hex_decoded(vstd::utf8::encode_utf8(text@)) {
                Some(b) => if b.len() == 20 {
                    r matches Ok(id) && id@ == b
                } else {
                    r == Err::<NodeId, DhtError>(DhtError::InvalidNodeId)
                },
                None => r == Err::<NodeId, DhtError>(DhtError::InvalidNodeId),
            },
    {
        let decoded = match hex_decode(text.as_bytes()) {
            Some(v) => v,
            None => return Err(DhtError::InvalidNodeId),
        };
        if decoded.len() != 20 {
            return Err(DhtError::InvalidNodeId);
        }
        let mut bytes = [0u8; 20];
        let mut i: usize = 0;
        while i < 20
            invariant
                0 <= i <= 20,
                decoded@.len() == 20,
                bytes@.len() == 20,
                forall|j: int| 0 <= j < i ==> bytes@[j] == decoded@[j],
            decreases 20 - i,
        {
            bytes[i] = decoded[i];
            i = i + 1;
        }
        assert(bytes@ =~= decoded@);
        Ok(NodeId(bytes))
    }

    /// Calculate XOR distance between two NodeIds
    pub fn distance(&self, other: &NodeId) -> (r: NodeId)
        ensures
            r@ == xor_bytes(self@, other@),
    {
        let mut result = [0u8; 20];
        let mut i: usize = 0;
        while i < 20
            invariant
                0 <= i <= 20,
                result@.len() == 20,
                self@.len() == 20,
                other@.len() == 20,
                forall|j: int| 0 <= j < i ==> result@[j] == self@[j] ^ other@[j],
            decreases 20 - i,
        {
            result[i] = self.0[i] ^ other.0[i];
            i = i + 1;
        }
        assert(result@ =~= xor_bytes(self@, other@));
        NodeId(result)
    }

    /// Get the bucket index for a distance: 159 minus the position of the
    /// first set bit of the distance, bits counted from the least significant
    /// bit of the first byte; 0 when the identifiers are equal.
    pub fn bucket_index(&self, other: &NodeId) -> (r: usize)
        ensures
            r == bucket_of(self@, other@),
            r < 160,
    {
        let dist = self.distance(other);
        let mut i: usize = 0;
        while i < 160
            invariant
                0 <= i <= 160,
                dist@ == xor_bytes(self@, other@),
                dist@.len() == 20,
                first_set_bit_from(dist@, 0) == first_set_bit_from(dist@, i as int),
            decreases 160 - i,
        {
            let byte_idx = i / 8;
            let bit_idx = (i % 8) as u8;
            let byte = dist.0[byte_idx];
            let hit = (byte & (1u8 << bit_idx)) != 0;
            assert(hit == bit_set(dist@, i as int));
            if hit {
                return 159 - i;
            }
            i = i + 1;
        }
        0
    }

    /// Convert to hex string
    pub fn to_hex(&self) -> (r: String)
        ensures
            r@ == hex_lower(self@),
    {
        hex_encode(&self.0)
    }

    /// Get bytes
    pub fn as_bytes(&self) -> (r: &[u8; 20])
        ensures
            r@ == self@,
    {
        &self.0
    }

    /// Whether two identifiers are the same.
    pub fn same_as(&self, other: &NodeId) -> (r: bool)
        ensures
            r == (self@ == other@),
    {
        compare_ids(&self.0, &other.0).is_none()
    }
}

// ---------------------------------------------------------------------------
// Contacts and k-buckets.
// ---------------------------------------------------------------------------

/// DHT Contact information. `last_seen` is a clock reading in milliseconds.
#[derive(Debug, Clone, Copy)]
pub struct Contact {
    pub node_id: NodeId,
    pub address: SocketAddress,
    pub last_seen: u64,
    pub failures: u32,
}

/// Milliseconds from `since` to `now`, zero when `now` is earlier.
pub open spec fn elapsed_millis(since: u64, now: u64) -> u64 {
    if now >= since {
        (now - since) as u64
    } else {
        0
    }
}

impl Contact {
    /// A contact first seen now, with no failures.
    pub fn new(node_id: NodeId, address: SocketAddress) -> (r: Contact)
        ensures
            r.node_id == node_id,
            r.address == address,
            r.failures == 0,
    {
        Contact { node_id, address, last_seen: now_millis(), failures: 0 }
    }

    /// A contact is alive while it has failed fewer than three times.
    pub fn is_alive(&self) -> (r: bool)
        ensures
            r == (self.failures < 3),
    {
        self.failures < 3
    }

    /// Records that the contact answered at clock reading `now`.
    pub fn mark_seen_at(&mut self, now: u64)
        ensures
            *final(self) == (Contact { last_seen: now, failures: 0, ..*old(self) }),
    {
        self.last_seen = now;
        self.failures = 0;
    }

    /// Records that the contact answered just now.
    pub fn mark_seen(&mut self)
        ensures
            final(self).node_id == old(self).node_id,
            final(self).address == old(self).address,
            final(self).failures == 0,
    {
        let now = now_millis();
        self.mark_seen_at(now);
    }

    /// Records a failed exchange with the contact (the count stops at its
    /// maximum).
    pub fn mark_failed(&mut self)
        ensures
            *final(self) == (Contact {
                failures: if old(self).failures < u32::MAX { (old(self).failures + 1) as u32 } else { u32::MAX },
                ..*old(self)
            }),
    {
        self.failures = self.failures.saturating_add(1);
    }

    /// Milliseconds since the contact was last seen, at clock reading `now`.
    pub fn time_since_seen_at(&self, now: u64) -> (r: u64)
        ensures
            r == elapsed_millis(self.last_seen, now),
    {
        if now >= self.last_seen {
            now - self.last_seen
        } else {
            0
        }
    }

    /// Milliseconds since the contact was last seen.
    pub fn time_since_seen(&self) -> (r: u64)
        ensures
            exists|now: u64| r == #[trigger] elapsed_millis(self.last_seen, now),
    {
        let now = now_millis();
        let r = self.time_since_seen_at(now);
        assert(r == elapsed_millis(self.last_seen, now));
        r
    }
}

/// No two contacts of the sequence share a node identifier.
pub open spec fn ids_distinct(s: Seq<Contact>) -> bool {
    forall|i: int, j: int| 0 <= i < j < s.len() ==> s[i].node_id@ != s[j].node_id@
}

/// The contacts of `s` whose identifier differs from `id`, in order.
pub open spec fn without_id(s: Seq<Contact>, id: Seq<u8>) -> Seq<Contact> {
    s.filter(|c: Contact| c.node_id@ != id)
}

/// A bucket's contacts after `c` was added: any contact with its identifier
/// leaves, `c` goes to the end, and the oldest contact leaves when the bucket
/// would hold more than `max`.
pub open spec fn bucket_after_add(s: Seq<Contact>, c: Contact, max: nat) -> Seq<Contact> {
    let pushed = without_id(s, c.node_id@).push(c);
    if pushed.len() > max {
        pushed.drop_first()
    } else {
        pushed
    }
}

/// A contact after it was seen at `now`.
pub open spec fn contact_seen(c: Contact, now: u64) -> Contact {
    Contact { last_seen: now, failures: 0, ..c }
}

/// A contact after one more failure (the count stops at its maximum).
pub open spec fn contact_failed(c: Contact) -> Contact {
    Contact { failures: if c.failures < u32::MAX { (c.failures + 1) as u32 } else { u32::MAX }, ..c }
}

/// The contacts of `s`, the one with identifier `id` marked as seen at `now`.
pub open spec fn seen_update(s: Seq<Contact>, id: Seq<u8>, now: u64) -> Seq<Contact> {
    s.map_values(|c: Contact| if c.node_id@ == id { contact_seen(c, now) } else { c })
}

/// The contacts of `s`, the one with identifier `id` with one more failure.
pub open spec fn failed_update(s: Seq<Contact>, id: Seq<u8>) -> Seq<Contact> {
    s.map_values(|c: Contact| if c.node_id@ == id { contact_failed(c) } else { c })
}

/// All buckets, the contact with identifier `id` marked as seen at `now`.
pub open spec fn seen_in_buckets(bs: Seq<Seq<Contact>>, id: Seq<u8>, now: u64) -> Seq<Seq<Contact>> {
    bs.map_values(|s: Seq<Contact>| seen_update(s, id, now))
}

/// K-bucket for storing contacts
#[derive(Debug, Clone)]
pub struct KBucket {
    contacts: Vec<Contact>,
    max_size: usize,
}

/// Copies the contacts of `v` whose identifier differs from `id`.
fn contacts_without(v: &Vec<Contact>, id: &NodeId) -> (r: Vec<Contact>)
    requires
        ids_distinct(v@),
    ensures
        r@ == without_id(v@, id@),
        ids_distinct(r@),
        forall|k: int| 0 <= k < r@.len() ==> v@.contains(#[trigger] r@[k]),
        r@.len() <= v@.len(),
{
    let mut out: Vec<Contact> = Vec::new();
    let ghost mut src: Seq<int> = Seq::empty();
    let mut i: usize = 0;
    while i < v.len()
        invariant
            0 <= i <= v@.len(),
            ids_distinct(v@),
            out@ == v@.take(i as int).filter(|c: Contact| c.node_id@ != id@),
            src.len() == out@.len(),
            forall|k: int| 0 <= k < src.len() ==> 0 <= #[trigger] src[k] < i,
            forall|k: int, l: int| 0 <= k < l < src.len() ==> src[k] < src[l],
            forall|k: int| 0 <= k < src.len() ==> out@[k] == v@[#[trigger] src[k]],
            out@.len() <= i,
        decreases v@.len() - i,
    {
        let c = v[i];
        proof {
            reveal_with_fuel(Seq::filter, 1);
            assert(v@.take(i + 1).drop_last() =~= v@.take(i as int));
        }
        if !c.node_id.same_as(id) {
            out.push(c);
            proof {
                src = src.push(i as int);
            }
        }
        i = i + 1;
    }
    assert(v@.take(v@.len() as int) =~= v@);
    assert forall|k: int, l: int| 0 <= k < l < out@.len() implies out@[k].node_id@
        != out@[l].node_id@ by {
        assert(out@[k] == v@[src[k]]);
        assert(out@[l] == v@[src[l]]);
    }
    assert forall|k: int| 0 <= k < out@.len() implies v@.contains(#[trigger] out@[k]) by {
        assert(out@[k] == v@[src[k]]);
    }
    out
}

impl KBucket {
    /// The contacts, oldest first.
    pub closed spec fn spec_contacts(&self) -> Seq<Contact> {
        self.contacts@
    }

    /// The most contacts the bucket keeps.
    pub closed spec fn spec_max_size(&self) -> nat {
        self.max_size as nat
    }

    /// The bucket keeps at most its maximum and no identifier twice.
    pub closed spec fn wf(&self) -> bool {
        &&& self.contacts@.len() <= self.max_size
        &&& ids_distinct(self.contacts@)
    }

    pub fn new(max_size: usize) -> (r: KBucket)
        ensures
            r.wf(),
            r.spec_contacts() == Seq::<Contact>::empty(),
            r.spec_max_size() == max_size,
    {
        KBucket { contacts: Vec::new(), max_size }
    }

    /// Add or update contact
    pub fn add_contact(&mut self, contact: Contact)
        requires
            old(self).wf(),
        ensures
            final(self).wf(),
            final(self).spec_max_size() == old(self).spec_max_size(),
            final(self).spec_contacts() == bucket_after_add(
                old(self).spec_contacts(),
                contact,
                old(self).spec_max_size(),
            ),
    {
        let mut kept = contacts_without(&self.contacts, &contact.node_id);
        let ghost filtered = kept@;
        proof {
            assert forall|k: int| 0 <= k < filtered.len() implies filtered[k].node_id@
                != contact.node_id@ by {
                reveal_with_fuel(Seq::filter, 1);
                self.contacts@.lemma_filter_pred(|c: Contact| c.node_id@ != contact.node_id@, k);
            }
        }
        kept.push(contact);
        if kept.len() > self.max_size {
            kept.remove(0);
            assert(kept@ =~= filtered.push(contact).drop_first());
        }
        self.contacts = kept;
    }

    /// Get all contacts
    pub fn contacts(&self) -> (r: &[Contact])
        ensures
            r@ == self.spec_contacts(),
    {
        self.contacts.as_slice()
    }

    /// Check if bucket is full
    pub fn is_full(&self) -> (r: bool)
        ensures
            r == (self.spec_contacts().len() >= self.spec_max_size()),
    {
        self.contacts.len() >= self.max_size
    }

    /// Get contact by node ID
    pub fn get_contact(&self, node_id: &NodeId) -> (r: Option<&Contact>)
        ensures
            match r {
                Some(c) => exists|i: int|
                    0 <= i < self.spec_contacts().len() && self.spec_contacts()[i] == *c
                        && c.node_id@ == node_id@,
                None => forall|i: int|
                    0 <= i < self.spec_contacts().len()
                        ==> (#[trigger] self.spec_contacts()[i]).node_id@ != node_id@,
            },
    {
        let mut i: usize = 0;
        while i < self.contacts.len()
            invariant
                0 <= i <= self.contacts@.len(),
                forall|j: int| 0 <= j < i ==> (#[trigger] self.contacts@[j]).node_id@ != node_id@,
            decreases self.contacts@.len() - i,
        {
            if self.contacts[i].node_id.same_as(node_id) {
                let c = &self.contacts[i];
                assert(self.spec_contacts()[i as int] == *c);
                return Some(c);
            }
            i = i + 1;
        }
        None
    }

    /// Marks the contact with identifier `id` as seen at `now`; returns
    /// whether the bucket holds it.
    pub fn mark_seen_id(&mut self, id: &NodeId, now: u64) -> (found: bool)
        requires
            old(self).wf(),
        ensures
            final(self).wf(),
            final(self).spec_max_size() == old(self).spec_max_size(),
            final(self).spec_contacts() == seen_update(old(self).spec_contacts(), id@, now),
            found == has_id(old(self).spec_contacts(), id@),
    {
        let mut j: usize = 0;
        while j < self.contacts.len()
            invariant
                0 <= j <= self.contacts@.len(),
                self.contacts@ == old(self).contacts@,
                self.max_size == old(self).max_size,
                old(self).wf(),
                forall|l: int| 0 <= l < j ==> (#[trigger] self.contacts@[l]).node_id@ != id@,
            decreases self.contacts@.len() - j,
        {
            if self.contacts[j].node_id.same_as(id) {
                let ghost before = self.contacts@;
                self.contacts[j].mark_seen_at(now);
                assert(self.contacts@ == before.update(j as int, contact_seen(before[j as int], now)));
                assert forall|l: int| 0 <= l < before.len() && l != j implies before[l].node_id@
                    != id@ by {
                    if l < j {
                    } else {
                        assert(ids_distinct(before));
                    }
                }
                assert(self.contacts@ =~= seen_update(before, id@, now));
                return true;
            }
            j = j + 1;
        }
        assert(self.contacts@ =~= seen_update(self.contacts@, id@, now));
        false
    }

    /// Records a failure of the contact with identifier `id`; returns
    /// whether the bucket holds it.
    pub fn mark_failed_id(&mut self, id: &NodeId) -> (found: bool)
        requires
            old(self).wf(),
        ensures
            final(self).wf(),
            final(self).spec_max_size() == old(self).spec_max_size(),
            final(self).spec_contacts() == failed_update(old(self).spec_contacts(), id@),
            found == has_id(old(self).spec_contacts(), id@),
    {
        let mut j: usize = 0;
        while j < self.contacts.len()
            invariant
                0 <= j <= self.contacts@.len(),
                self.contacts@ == old(self).contacts@,
                self.max_size == old(self).max_size,
                old(self).wf(),
                forall|l: int| 0 <= l < j ==> (#[trigger] self.contacts@[l]).node_id@ != id@,
            decreases self.contacts@.len() - j,
        {
            if self.contacts[j].node_id.same_as(id) {
                let ghost before = self.contacts@;
                self.contacts[j].mark_failed();
                assert(self.contacts@ == before.update(j as int, contact_failed(before[j as int])));
                assert forall|l: int| 0 <= l < before.len() && l != j implies before[l].node_id@
                    != id@ by {
                    if l < j {
                    } else {
                        assert(ids_distinct(before));
                    }
                }
                assert(self.contacts@ =~= failed_update(before, id@));
                return true;
            }
            j = j + 1;
        }
        assert(self.contacts@ =~= failed_update(self.contacts@, id@));
        false
    }

    /// Remove contact
    pub fn remove_contact(&mut self, node_id: &NodeId)
        requires
            old(self).wf(),
        ensures
            final(self).wf(),
            final(self).spec_max_size() == old(self).spec_max_size(),
            final(self).spec_contacts() == without_id(old(self).spec_contacts(), node_id@),
    {
        let kept = contacts_without(&self.contacts, node_id);
        self.contacts = kept;
    }
}

// ---------------------------------------------------------------------------
// Selecting the closest contacts.
// ---------------------------------------------------------------------------

/// XOR distance of a contact from a target.
pub open spec fn dist_of(target: Seq<u8>, c: Contact) -> Seq<u8> {
    xor_bytes(target, c.node_id@)
}

/// `c` occurs in `cands`, and no earlier candidate has its identifier.
pub open spec fn is_first_occurrence(cands: Seq<Contact>, c: Contact) -> bool {
    exists|m: int|
        0 <= m < cands.len() && cands[m] == c && forall|m2: int|
            0 <= m2 < m ==> (#[trigger] cands[m2]).node_id@ != c.node_id@
}

/// Some element of `r` carries the identifier `id`.
pub open spec fn has_id(r: Seq<Contact>, id: Seq<u8>) -> bool {
    exists|i: int| 0 <= i < r.len() && (#[trigger] r[i]).node_id@ == id
}

/// `r` is the result of ordering `cands` by distance from `target`, keeping
/// the first contact of each identifier, and taking the first `k`: at most
/// `k` contacts, strictly closer one after the other, each the first of its
/// identifier among the candidates, and every candidate whose identifier is
/// missing is farther than all of them, which happens only when `k` were
/// taken.
pub open spec fn closest_selection(cands: Seq<Contact>, target: Seq<u8>, k: nat, r: Seq<Contact>) -> bool {
    &&& r.len() <= k
    &&& forall|i: int, j: int|
        0 <= i < j < r.len() ==> lex_lt(dist_of(target, r[i]), dist_of(target, r[j]))
    &&& forall|i: int| 0 <= i < r.len() ==> is_first_occurrence(cands, #[trigger] r[i])
    &&& forall|m: int|
        0 <= m < cands.len() ==> has_id(r, (#[trigger] cands[m]).node_id@) || (r.len() == k
            && forall|i: int| 0 <= i < r.len() ==> lex_lt(dist_of(target, r[i]), dist_of(target, cands[m])))
}

/// A candidate at distance `d` may still be chosen after the distance `last`.
pub open spec fn eligible(last: Option<NodeId>, d: Seq<u8>) -> bool {
    match last {
        None => true,
        Some(l) => lex_lt(l@, d),
    }
}

/// Whether `a` is strictly closer (smaller) than `b`.
fn id_less(a: &NodeId, b: &NodeId) -> (r: bool)
    ensures
        r == lex_lt(a@, b@),
{
    match compare_ids(&a.0, &b.0) {
        Some(x) => x,
        None => false,
    }
}

/// The `k` contacts closest to `target`, in order of distance, one per
/// identifier (its first occurrence among the candidates).
pub fn closest_distinct(cands: &Vec<Contact>, target: &NodeId, k: usize) -> (r: Vec<Contact>)
    ensures
        closest_selection(cands@, target@, k as nat, r@),
{
    let mut result: Vec<Contact> = Vec::new();
    let mut last: Option<NodeId> = None;
    while result.len() < k
        invariant
            result@.len() <= k,
            forall|i: int, j: int|
                0 <= i < j < result@.len() ==> lex_lt(
                    dist_of(target@, result@[i]),
                    dist_of(target@, result@[j]),
                ),
            forall|i: int| 0 <= i < result@.len() ==> is_first_occurrence(cands@, #[trigger] result@[i]),
            last is None <==> result@.len() == 0,
            last matches Some(l) ==> l@ == dist_of(target@, result@.last()),
            forall|m: int|
                0 <= m < cands@.len() && !eligible(last, dist_of(target@, #[trigger] cands@[m]))
                    ==> has_id(result@, cands@[m].node_id@),
        ensures
            result@.len() == k || forall|m: int|
                0 <= m < cands@.len() ==> !eligible(last, dist_of(target@, #[trigger] cands@[m])),
        decreases k - result@.len(),
    {
        let mut best: Option<usize> = None;
        let mut best_d: NodeId = NodeId([0u8; 20]);
        let mut m: usize = 0;
        while m < cands.len()
            invariant
                0 <= m <= cands@.len(),
                best matches Some(b) ==> {
                    &&& b < m
                    &&& best_d@ == dist_of(target@, cands@[b as int])
                    &&& eligible(last, best_d@)
                    &&& forall|m2: int|
                        0 <= m2 < m && eligible(last, dist_of(target@, #[trigger] cands@[m2]))
                            ==> !lex_lt(dist_of(target@, cands@[m2]), best_d@)
                    &&& forall|m2: int|
                        0 <= m2 < b ==> (#[trigger] cands@[m2]).node_id@ != cands@[b as int].node_id@
                },
                best is None ==> forall|m2: int|
                    0 <= m2 < m ==> !eligible(last, dist_of(target@, #[trigger] cands@[m2])),
            decreases cands@.len() - m,
        {
            let d = target.distance(&cands[m].node_id);
            let elig = match last {
                None => true,
                Some(l) => id_less(&l, &d),
            };
            if elig {
                let take = match best {
                    None => true,
                    Some(_) => id_less(&d, &best_d),
                };
                if take {
                    proof {
                        assert forall|m2: int| 0 <= m2 < m implies (#[trigger] cands@[m2]).node_id@
                            != cands@[m as int].node_id@ by {
                            if cands@[m2].node_id@ == cands@[m as int].node_id@ {
                                assert(dist_of(target@, cands@[m2]) == d@);
                                lemma_lex_irreflexive(d@, 0);
                            }
                        }
                        assert forall|m2: int|
                            0 <= m2 < m + 1 && eligible(last, dist_of(target@, #[trigger] cands@[m2]))
                            implies !lex_lt(dist_of(target@, cands@[m2]), d@) by {
                            if m2 < m {
                                if lex_lt(dist_of(target@, cands@[m2]), d@) {
                                    lemma_lex_transitive(
                                        dist_of(target@, cands@[m2]),
                                        d@,
                                        best_d@,
                                        0,
                                    );
                                }
                            } else {
                                lemma_lex_irreflexive(d@, 0);
                            }
                        }
                    }
                    best = Some(m);
                    best_d = d;
                } else {
                    proof {
                        if let Some(b) = best {
                            assert forall|m2: int|
                                0 <= m2 < m + 1 && eligible(last, dist_of(target@, #[trigger] cands@[m2]))
                                implies !lex_lt(dist_of(target@, cands@[m2]), best_d@) by {
                            }
                        }
                    }
                }
            }
            m = m + 1;
        }
        match best {
            None => {
                break;
            },
            Some(b) => {
                let c = cands[b];
                let ghost old_result = result@;
                proof {
                    // Every candidate that the new distance does not precede
                    // is now represented.
                    assert forall|m2: int|
                        0 <= m2 < cands@.len() && !lex_lt(best_d@, dist_of(target@, #[trigger] cands@[m2]))
                        implies has_id(old_result.push(c), cands@[m2].node_id@) by {
                        let dm = dist_of(target@, cands@[m2]);
                        lemma_lex_trichotomy(dm, best_d@);
                        if dm == best_d@ {
                            lemma_xor_injective(target@, cands@[m2].node_id@, c.node_id@);
                            assert(old_result.push(c)[old_result.len() as int] == c);
                        } else {
                            if eligible(last, dm) {
                                assert(false);
                            }
                            assert(has_id(old_result, cands@[m2].node_id@));
                            let i = choose|i: int|
                                0 <= i < old_result.len() && (#[trigger] old_result[i]).node_id@
                                    == cands@[m2].node_id@;
                            assert(old_result.push(c)[i] == old_result[i]);
                        }
                    }
                    assert forall|i: int| 0 <= i < old_result.len() implies lex_lt(
                        dist_of(target@, #[trigger] old_result[i]),
                        best_d@,
                    ) by {
                        let l = last.unwrap();
                        if i < old_result.len() - 1 {
                            assert(lex_lt(
                                dist_of(target@, old_result[i]),
                                dist_of(target@, old_result[old_result.len() - 1]),
                            ));
                            lemma_lex_transitive(
                                dist_of(target@, old_result[i]),
                                l@,
                                best_d@,
                                0,
                            );
                        }
                    }
                    assert(is_first_occurrence(cands@, c));
                }
                result.push(c);
                last = Some(best_d);
                proof {
                    assert forall|i: int, j: int|
                        0 <= i < j < result@.len() implies lex_lt(
                        dist_of(target@, result@[i]),
                        dist_of(target@, result@[j]),
                    ) by {
                        if j == result@.len() - 1 {
                            assert(result@[i] == old_result[i]);
                        } else {
                            assert(result@[i] == old_result[i]);
                            assert(result@[j] == old_result[j]);
                        }
                    }
                    assert forall|i: int| 0 <= i < result@.len() implies is_first_occurrence(
                        cands@,
                        #[trigger] result@[i],
                    ) by {
                        if i < old_result.len() {
                            assert(result@[i] == old_result[i]);
                        }
                    }
                }
            },
        }
    }
    proof {
        assert forall|m: int| 0 <= m < cands@.len() implies has_id(
            result@,
            (#[trigger] cands@[m]).node_id@,
        ) || (result@.len() == k && forall|i: int|
            0 <= i < result@.len() ==> lex_lt(
                dist_of(target@, result@[i]),
                dist_of(target@, cands@[m]),
            )) by {
            if !has_id(result@, cands@[m].node_id@) {
                let dm = dist_of(target@, cands@[m]);
                assert(eligible(last, dm));
                if result@.len() < k {
                    // The search ended because nothing was eligible.
                    assert(false);
                }
                let l = last.unwrap();
                assert forall|i: int| 0 <= i < result@.len() implies lex_lt(
                    dist_of(target@, result@[i]),
                    dm,
                ) by {
                    if i < result@.len() - 1 {
                        assert(lex_lt(
                            dist_of(target@, result@[i]),
                            dist_of(target@, result@[result@.len() - 1]),
                        ));
                        lemma_lex_transitive(dist_of(target@, result@[i]), l@, dm, 0);
                    }
                }
            }
        }
    }
    result
}

// ---------------------------------------------------------------------------
// The routing table.
// ---------------------------------------------------------------------------

/// DHT Configuration. The intervals are in milliseconds.
#[derive(Debug, Clone)]
pub struct DHTConfig {
    pub k: usize,
    pub alpha: usize,
    pub id_bits: usize,
    pub refresh_interval: u64,
    pub republish_interval: u64,
    pub expire_interval: u64,
}

impl Default for DHTConfig {
    /// Standard Kademlia parameters: k = 20, alpha = 3, 160-bit identifiers,
    /// refresh every hour, republish and expire after a day.
    fn default() -> (r: DHTConfig)
        ensures
            r.k == 20,
            r.alpha == 3,
            r.id_bits == 160,
            r.refresh_interval == 3_600_000,
            r.republish_interval == 86_400_000,
            r.expire_interval == 86_400_000,
    {
        DHTConfig {
            k: 20,
            alpha: 3,
            id_bits: 160,
            refresh_interval: 3_600_000,
            republish_interval: 86_400_000,
            expire_interval: 86_400_000,
        }
    }
}

/// A lookup in progress.
#[derive(Debug)]
struct QueryState {
    target: NodeId,
    closest_nodes: Vec<Contact>,
    active_contacts: Vec<NodeId>,
    start_time: u64,
}

/// The identifiers of a sequence of node ids.
pub open spec fn id_views(s: Seq<NodeId>) -> Seq<Seq<u8>> {
    s.map_values(|n: NodeId| n@)
}

/// The view of a lookup: its target, the closest contacts found so far, the
/// contacts not yet answered, and when it started.
pub type QueryView = (Seq<u8>, Seq<Contact>, Seq<Seq<u8>>, u64);

impl QueryState {
    closed spec fn view(&self) -> QueryView {
        (self.target@, self.closest_nodes@, id_views(self.active_contacts@), self.start_time)
    }
}

/// All contacts of all buckets, bucket by bucket.
pub open spec fn flatten_contacts(bs: Seq<Seq<Contact>>) -> Seq<Contact>
    decreases bs.len(),
{
    if bs.len() == 0 {
        Seq::empty()
    } else {
        flatten_contacts(bs.drop_last()) + bs.last()
    }
}

/// The buckets after inserting `c` into the table of node `me`.
pub open spec fn buckets_after_insert(bs: Seq<Seq<Contact>>, me: Seq<u8>, k: nat, c: Contact) -> Seq<Seq<Contact>> {
    let b = bucket_of(me, c.node_id@);
    if b < bs.len() {
        bs.update(b, bucket_after_add(bs[b], c, k))
    } else {
        bs
    }
}

/// The buckets after inserting, in order, each contact of `cs` whose
/// identifier is not `me`.
pub open spec fn buckets_after_insert_all(bs: Seq<Seq<Contact>>, me: Seq<u8>, k: nat, cs: Seq<Contact>) -> Seq<Seq<Contact>>
    decreases cs.len(),
{
    if cs.len() == 0 {
        bs
    } else {
        let prev = buckets_after_insert_all(bs, me, k, cs.drop_last());
        if cs.last().node_id@ == me {
            prev
        } else {
            buckets_after_insert(prev, me, k, cs.last())
        }
    }
}

/// Every contact of every bucket is among all contacts.
proof fn lemma_flatten_has(bs: Seq<Seq<Contact>>, b: int, j: int)
    requires
        0 <= b < bs.len(),
        0 <= j < bs[b].len(),
    ensures
        flatten_contacts(bs).contains(bs[b][j]),
    decreases bs.len(),
{
    let prev = flatten_contacts(bs.drop_last());
    if b == bs.len() - 1 {
        assert(flatten_contacts(bs)[prev.len() + j] == bs[b][j]);
    } else {
        lemma_flatten_has(bs.drop_last(), b, j);
        let i = choose|i: int| 0 <= i < prev.len() && prev[i] == bs[b][j];
        assert(flatten_contacts(bs)[i] == bs[b][j]);
    }
}

/// A contact among all contacts lies in one of the buckets.
proof fn lemma_flatten_from(bs: Seq<Seq<Contact>>, i: int)
    requires
        0 <= i < flatten_contacts(bs).len(),
    ensures
        exists|b: int| 0 <= b < bs.len() && (#[trigger] bs[b]).contains(flatten_contacts(bs)[i]),
    decreases bs.len(),
{
    let prev = flatten_contacts(bs.drop_last());
    if i < prev.len() {
        lemma_flatten_from(bs.drop_last(), i);
        let b = choose|b: int| 0 <= b < bs.drop_last().len() && (#[trigger] bs.drop_last()[b]).contains(prev[i]);
        assert(bs[b] == bs.drop_last()[b]);
    } else {
        let b = bs.len() - 1;
        assert(bs[b][i - prev.len()] == flatten_contacts(bs)[i]);
        assert(bs[b].contains(flatten_contacts(bs)[i]));
    }
}

/// A contact inserted into the routing table is found there afterwards,
/// wherever its bucket exists and buckets hold at least one contact.
pub proof fn lemma_inserted_contact_found(bs: Seq<Seq<Contact>>, me: Seq<u8>, k: nat, c: Contact)
    requires
        k >= 1,
        bucket_of(me, c.node_id@) < bs.len(),
    ensures
        flatten_contacts(buckets_after_insert(bs, me, k, c)).contains(c),
        has_id(flatten_contacts(buckets_after_insert(bs, me, k, c)), c.node_id@),
{
    let b = bucket_of(me, c.node_id@);
    let after = buckets_after_insert(bs, me, k, c);
    let nb = bucket_after_add(bs[b], c, k);
    let pushed = without_id(bs[b], c.node_id@).push(c);
    assert(after[b] == nb);
    assert(nb[nb.len() - 1] == c) by {
        if pushed.len() > k {
            assert(nb == pushed.drop_first());
        }
    }
    lemma_flatten_has(after, b, nb.len() - 1);
    let i = choose|i: int| 0 <= i < flatten_contacts(after).len() && flatten_contacts(after)[i] == c;
    assert(flatten_contacts(after)[i].node_id@ == c.node_id@);
}

/// After every contact with an identifier is removed, no contact with that
/// identifier is left in the routing table.
pub proof fn lemma_removed_contact_absent(bs: Seq<Seq<Contact>>, id: Seq<u8>)
    ensures
        !has_id(flatten_contacts(bs.map_values(|s: Seq<Contact>| without_id(s, id))), id),
{
    let after = bs.map_values(|s: Seq<Contact>| without_id(s, id));
    if has_id(flatten_contacts(after), id) {
        let i = choose|i: int| 0 <= i < flatten_contacts(after).len() && (#[trigger] flatten_contacts(after)[i]).node_id@ == id;
        lemma_flatten_from(after, i);
        let b = choose|b: int| 0 <= b < after.len() && (#[trigger] after[b]).contains(flatten_contacts(after)[i]);
        let x = flatten_contacts(after)[i];
        assert(after[b] == without_id(bs[b], id));
        bs[b].filter_lemma(|c: Contact| c.node_id@ != id);
        let j = choose|j: int| 0 <= j < after[b].len() && after[b][j] == x;
        assert(false);
    }
}

/// Errors of DHT operations.
#[derive(Debug, Clone, Copy, PartialEq, Eq, Structural)]
pub enum DhtError {
    /// The node tried to bootstrap from itself.
    SelfBootstrap,
    /// A lookup for the target is already running.
    LookupInProgress,
    /// The text is not 40 hexadecimal digits.
    InvalidNodeId,
}

/// DHT Statistics
#[derive(Debug, Clone)]
pub struct DHTStats {
    pub node_id: NodeId,
    pub total_contacts: usize,
    pub bucket_sizes: Vec<usize>,
    pub pending_queries: usize,
}

/// What a FIND_NODE answer from `from` carrying `contacts`, at clock
/// reading `now`, makes of `pre`: the responder is marked seen and the
/// contacts inserted into the buckets, and each lookup waiting on the
/// responder takes the closest of its contacts and these and stops
/// waiting on it.
pub open spec fn find_node_response_outcome(pre: DHT, post: DHT, from: Seq<u8>, contacts: Seq<Contact>, now: u64) -> bool {
    &&& post.spec_node_id() == pre.spec_node_id()
    &&& post.spec_config() == pre.spec_config()
    &&& post.spec_known() == pre.spec_known()
    &&& post.spec_buckets() == buckets_after_insert_all(
        seen_in_buckets(pre.spec_buckets(), from, now),
        pre.spec_node_id(),
        pre.spec_config().k as nat,
        contacts
    )
    &&& post.spec_queries().len() == pre.spec_queries().len()
    &&& forall|i: int| 0 <= i < pre.spec_queries().len() && (#[trigger] pre.spec_queries()[i]).0 != from
        ==> post.spec_queries()[i] == pre.spec_queries()[i]
    &&& forall|i: int| 0 <= i < pre.spec_queries().len() && (#[trigger] pre.spec_queries()[i]).0 == from
        ==> {
        let q = pre.spec_queries()[i];
        let q2 = post.spec_queries()[i];
        &&& q2.0 == q.0
        &&& closest_selection(q.1 + contacts, q.0, pre.spec_config().k as nat, q2.1)
        &&& q2.2 == q.2.filter(|x: Seq<u8>| x != from)
        &&& q2.3 == q.3
    }
}

/// What starting a lookup for `target` at clock reading `now` makes of
/// `pre`, returning `r`: a lookup already under way for the target is
/// refused and nothing changes; otherwise a lookup starts at `now` from the
/// closest known contacts and awaits each of them.
pub open spec fn lookup_start_outcome(pre: DHT, post: DHT, target: Seq<u8>, now: u64, r: Result<(), DhtError>) -> bool {
    &&& post.spec_node_id() == pre.spec_node_id()
    &&& post.spec_config() == pre.spec_config()
    &&& post.spec_buckets() == pre.spec_buckets()
    &&& post.spec_known() == pre.spec_known()
    &&& (exists|i: int| 0 <= i < pre.spec_queries().len() && (#[trigger] pre.spec_queries()[i]).0 == target)
        ==> r == Err::<(), DhtError>(DhtError::LookupInProgress)
        && post.spec_queries() == pre.spec_queries()
    &&& !(exists|i: int| 0 <= i < pre.spec_queries().len() && (#[trigger] pre.spec_queries()[i]).0 == target)
        ==> r is Ok && ({
        let q = post.spec_queries().last();
        &&& post.spec_queries().len() == pre.spec_queries().len() + 1
        &&& post.spec_queries().drop_last() == pre.spec_queries()
        &&& q.0 == target
        &&& closest_selection(pre.spec_all_contacts(), target, pre.spec_config().k as nat, q.1)
        &&& q.2 == q.1.map_values(|c: Contact| c.node_id@)
        &&& q.3 == now
    })
}

/// Kademlia DHT implementation
pub struct DHT {
    config: DHTConfig,
    node_id: NodeId,
    buckets: Vec<KBucket>,
    known_nodes: Vec<NodeId>,
    pending_queries: Vec<QueryState>,
}

/// How long a lookup may run before it counts as complete, in milliseconds.
pub open spec fn lookup_timeout() -> u64 {
    30_000
}

impl DHT {
    /// This node's identifier.
    pub closed spec fn spec_node_id(&self) -> Seq<u8> {
        self.node_id@
    }

    /// The configuration.
    pub closed spec fn spec_config(&self) -> DHTConfig {
        self.config
    }

    /// The contacts of each bucket.
    pub closed spec fn spec_buckets(&self) -> Seq<Seq<Contact>> {
        self.buckets@.map_values(|b: KBucket| b.spec_contacts())
    }

    /// All contacts, bucket by bucket.
    pub open spec fn spec_all_contacts(&self) -> Seq<Contact> {
        flatten_contacts(self.spec_buckets())
    }

    /// The identifiers of the known nodes.
    pub closed spec fn spec_known(&self) -> Seq<Seq<u8>> {
        id_views(self.known_nodes@)
    }

    /// The lookups in progress.
    pub closed spec fn spec_queries(&self) -> Seq<QueryView> {
        self.pending_queries@.map_values(|q: QueryState| q@)
    }

    /// The routing table is well formed: one bucket per identifier bit, each
    /// within its size and holding only contacts that belong in it; known
    /// nodes and lookup targets do not repeat.
    pub closed spec fn wf(&self) -> bool {
        &&& self.buckets@.len() == self.config.id_bits
        &&& forall|b: int|
            0 <= b < self.buckets@.len() ==> (#[trigger] self.buckets@[b]).wf()
                && self.buckets@[b].spec_max_size() == self.config.k
        &&& forall|b: int, j: int|
            0 <= b < self.buckets@.len() && 0 <= j < self.buckets@[b].spec_contacts().len()
                ==> bucket_of(self.node_id@, (#[trigger] self.buckets@[b].spec_contacts()[j]).node_id@) == b
        &&& self.spec_known().no_duplicates()
        &&& forall|i: int, j: int|
            0 <= i < j < self.pending_queries@.len() ==> (#[trigger] self.pending_queries@[i]).target@
                != (#[trigger] self.pending_queries@[j]).target@
    }

    /// Create new DHT node with a random identifier.
    pub fn new(config: DHTConfig) -> (r: DHT)
        ensures
            r.wf(),
            r.spec_config() == config,
            r.spec_buckets() == Seq::new(config.id_bits as nat, |i: int| Seq::<Contact>::empty()),
            r.spec_known() == Seq::<Seq<u8>>::empty(),
            r.spec_queries() == Seq::<QueryView>::empty(),
    {
        let node_id = NodeId::random();
        Self::with_node_id(config, node_id)
    }

    /// Create DHT with specific node ID
    pub fn with_node_id(config: DHTConfig, node_id: NodeId) -> (r: DHT)
        ensures
            r.wf(),
            r.spec_config() == config,
            r.spec_node_id() == node_id@,
            r.spec_buckets() == Seq::new(config.id_bits as nat, |i: int| Seq::<Contact>::empty()),
            r.spec_known() == Seq::<Seq<u8>>::empty(),
            r.spec_queries() == Seq::<QueryView>::empty(),
    {
        let mut buckets: Vec<KBucket> = Vec::new();
        let mut i: usize = 0;
        while i < config.id_bits
            invariant
                0 <= i <= config.id_bits,
                buckets@.len() == i,
                forall|b: int|
                    0 <= b < i ==> (#[trigger] buckets@[b]).wf() && buckets@[b].spec_max_size() == config.k
                        && buckets@[b].spec_contacts() == Seq::<Contact>::empty(),
            decreases config.id_bits - i,
        {
            buckets.push(KBucket::new(config.k));
            i = i + 1;
        }
        let r = DHT {
            config,
            node_id,
            buckets,
            known_nodes: Vec::new(),
            pending_queries: Vec::new(),
        };
        assert(r.spec_buckets() =~= Seq::new(config.id_bits as nat, |i: int| Seq::<Contact>::empty()));
        assert(r.spec_known() =~= Seq::<Seq<u8>>::empty());
        assert(r.spec_queries() =~= Seq::<QueryView>::empty());
        r
    }

    /// Get node ID
    pub fn node_id(&self) -> (r: &NodeId)
        ensures
            r@ == self.spec_node_id(),
    {
        &self.node_id
    }

    /// Insert contact into appropriate k-bucket
    pub fn insert_contact(&mut self, contact: Contact)
        requires
            old(self).wf(),
        ensures
            final(self).wf(),
            final(self).spec_node_id() == old(self).spec_node_id(),
            final(self).spec_config() == old(self).spec_config(),
            final(self).spec_known() == old(self).spec_known(),
            final(self).spec_queries() == old(self).spec_queries(),
            final(self).spec_buckets() == buckets_after_insert(
                old(self).spec_buckets(),
                old(self).spec_node_id(),
                old(self).spec_config().k as nat,
                contact,
            ),
    {
        let bucket_idx = self.node_id.bucket_index(&contact.node_id);
        if bucket_idx < self.buckets.len() {
            let ghost old_buckets = self.buckets@;
            self.buckets[bucket_idx].add_contact(contact);
            proof {
                assert forall|b: int, j: int|
                    0 <= b < self.buckets@.len() && 0 <= j < self.buckets@[b].spec_contacts().len()
                    implies bucket_of(self.node_id@, (#[trigger] self.buckets@[b].spec_contacts()[j]).node_id@)
                    == b by {
                    if b == bucket_idx {
                        let s = old_buckets[b].spec_contacts();
                        let f = without_id(s, contact.node_id@);
                        let pushed = f.push(contact);
                        let c = self.buckets@[b].spec_contacts()[j];
                        assert(pushed.contains(c));
                        if c != contact {
                            let k = choose|k: int| 0 <= k < pushed.len() && pushed[k] == c;
                            assert(k < f.len());
                            reveal_with_fuel(Seq::filter, 1);
                            s.lemma_filter_contains_rev(|x: Contact| x.node_id@ != contact.node_id@, c);
                            assert(f.contains(c));
                            s.lemma_filter_contains_rev(|x: Contact| x.node_id@ != contact.node_id@, c);
                            assert(s.contains(c));
                        }
                    } else {
                        assert(self.buckets@[b] == old_buckets[b]);
                    }
                }
                assert(self.spec_buckets() =~= buckets_after_insert(
                    old(self).spec_buckets(),
                    old(self).spec_node_id(),
                    old(self).spec_config().k as nat,
                    contact,
                ));
            }
        } else {
            proof {
                assert(bucket_of(self.node_id@, contact.node_id@) >= self.spec_buckets().len());
            }
        }
    }

    /// Add a known node to bootstrap the network
    pub fn add_bootstrap_node(&mut self, contact: Contact) -> (r: Result<(), DhtError>)
        requires
            old(self).wf(),
        ensures
            final(self).wf(),
            final(self).spec_node_id() == old(self).spec_node_id(),
            final(self).spec_config() == old(self).spec_config(),
            final(self).spec_queries() == old(self).spec_queries(),
            contact.node_id@ == old(self).spec_node_id() ==> r == Err::<(), DhtError>(DhtError::SelfBootstrap)
                && *final(self) == *old(self),
            contact.node_id@ != old(self).spec_node_id() ==> r is Ok
                && final(self).spec_known().to_set() == old(self).spec_known().to_set().insert(contact.node_id@)
                && final(self).spec_buckets() == buckets_after_insert(
                    old(self).spec_buckets(),
                    old(self).spec_node_id(),
                    old(self).spec_config().k as nat,
                    contact,
                ),
    {
        if contact.node_id.same_as(&self.node_id) {
            return Err(DhtError::SelfBootstrap);
        }
        let ghost old_known = self.spec_known();
        let mut present = false;
        let mut i: usize = 0;
        while i < self.known_nodes.len()
            invariant
                0 <= i <= self.known_nodes@.len(),
                present == exists|j: int| 0 <= j < i && (#[trigger] self.known_nodes@[j])@ == contact.node_id@,
            decreases self.known_nodes@.len() - i,
        {
            if self.known_nodes[i].same_as(&contact.node_id) {
                present = true;
            }
            i = i + 1;
        }
        if !present {
            self.known_nodes.push(contact.node_id);
            proof {
                assert(self.spec_known() =~= old_known.push(contact.node_id@));
                assert forall|a: int, b: int| 0 <= a < b < self.spec_known().len() implies
                    self.spec_known()[a] != self.spec_known()[b] by {
                    if b == old_known.len() {
                        assert(self.spec_known()[a] == self.known_nodes@[a]@);
                    }
                }
                old_known.lemma_push_to_set_commute(contact.node_id@);
            }
        } else {
            proof {
                let j = choose|j: int| 0 <= j < i && (#[trigger] self.known_nodes@[j])@ == contact.node_id@;
                assert(old_known[j] == contact.node_id@);
                assert(old_known.to_set() =~= old_known.to_set().insert(contact.node_id@));
            }
        }
        self.insert_contact(contact);
        Ok(())
    }

    /// Get all known contacts
    pub fn get_all_contacts(&self) -> (r: Vec<Contact>)
        ensures
            r@ == self.spec_all_contacts(),
    {
        let mut all: Vec<Contact> = Vec::new();
        let mut b: usize = 0;
        while b < self.buckets.len()
            invariant
                0 <= b <= self.buckets@.len(),
                all@ == flatten_contacts(self.spec_buckets().take(b as int)),
            decreases self.buckets@.len() - b,
        {
            let contacts = self.buckets[b].contacts();
            let ghost before = all@;
            let mut j: usize = 0;
            while j < contacts.len()
                invariant
                    0 <= j <= contacts@.len(),
                    all@ == before + contacts@.take(j as int),
                decreases contacts@.len() - j,
            {
                all.push(contacts[j]);
                proof {
                    assert(contacts@.take(j + 1) =~= contacts@.take(j as int).push(contacts@[j as int]));
                }
                j = j + 1;
            }
            proof {
                assert(contacts@.take(contacts@.len() as int) =~= contacts@);
                assert(self.spec_buckets().take(b + 1).drop_last() =~= self.spec_buckets().take(b as int));
            }
            b = b + 1;
        }
        assert(self.spec_buckets().take(self.buckets@.len() as int) =~= self.spec_buckets());
        all
    }

    /// Find k closest nodes to target: all contacts ordered by XOR distance
    /// from the target, the first `k` of them.
    pub fn find_closest_nodes(&self, target: &NodeId, k: usize) -> (r: Vec<Contact>)
        ensures
            closest_selection(self.spec_all_contacts(), target@, k as nat, r@),
    {
        let candidates = self.get_all_contacts();
        closest_distinct(&candidates, target, k)
    }

    /// Position of the lookup for `target`, if one is running.
    fn find_query_index(&self, target: &NodeId) -> (r: Option<usize>)
        ensures
            match r {
                Some(i) => i < self.pending_queries@.len() && self.pending_queries@[i as int].target@ == target@,
                None => forall|i: int|
                    0 <= i < self.pending_queries@.len() ==> (#[trigger] self.pending_queries@[i]).target@ != target@,
            },
    {
        let mut i: usize = 0;
        while i < self.pending_queries.len()
            invariant
                0 <= i <= self.pending_queries@.len(),
                forall|j: int| 0 <= j < i ==> (#[trigger] self.pending_queries@[j]).target@ != target@,
            decreases self.pending_queries@.len() - i,
        {
            if self.pending_queries[i].target.same_as(target) {
                return Some(i);
            }
            i = i + 1;
        }
        None
    }

    /// Start node lookup at clock reading `now`: the lookup begins with the
    /// `k` closest known contacts, all awaited.
    pub fn start_lookup_at(&mut self, target: NodeId, now: u64) -> (r: Result<(), DhtError>)
        requires
            old(self).wf(),
        ensures
            final(self).wf(),
            lookup_start_outcome(*old(self), *final(self), target@, now, r),
    {
        match self.find_query_index(&target) {
            Some(i) => {
                proof {
                    assert(self.spec_queries()[i as int].0 == target@);
                }
                return Err(DhtError::LookupInProgress);
            },
            None => {},
        }
        let closest = self.find_closest_nodes(&target, self.config.k);
        let mut active: Vec<NodeId> = Vec::new();
        let mut j: usize = 0;
        while j < closest.len()
            invariant
                0 <= j <= closest@.len(),
                id_views(active@) == closest@.take(j as int).map_values(|c: Contact| c.node_id@),
            decreases closest@.len() - j,
        {
            let ghost old_active = active@;
            active.push(closest[j].node_id);
            proof {
                assert(id_views(active@) =~= id_views(old_active).push(closest@[j as int].node_id@));
                assert(id_views(active@) =~= closest@.take(j + 1).map_values(|c: Contact| c.node_id@));
            }
            j = j + 1;
        }
        assert(closest@.take(closest@.len() as int) =~= closest@);
        let ghost old_queries = self.pending_queries@;
        proof {
            assert forall|i: int| 0 <= i < old(self).spec_queries().len() implies (#[trigger] old(self).spec_queries()[i]).0
                != target@ by {
                assert(old(self).spec_queries()[i].0 == old_queries[i].target@);
            }
        }
        self.pending_queries.push(QueryState { target, closest_nodes: closest, active_contacts: active, start_time: now });
        proof {
            assert(self.spec_queries().drop_last() =~= old(self).spec_queries());
            assert forall|a: int, b: int| 0 <= a < b < self.pending_queries@.len() implies
                (#[trigger] self.pending_queries@[a]).target@ != (#[trigger] self.pending_queries@[b]).target@ by {
                if b == old_queries.len() {
                    assert(self.pending_queries@[a] == old_queries[a]);
                }
            }
        }
        Ok(())
    }

    /// In a well-formed table, a contact with identifier `id` can only be in
    /// the bucket that `id` belongs in.
    proof fn lemma_only_home_bucket(&self, id: Seq<u8>, b: int)
        requires
            self.wf(),
            0 <= b < self.buckets@.len(),
            b != bucket_of(self.node_id@, id),
        ensures
            !has_id(self.buckets@[b].spec_contacts(), id),
    {
        if has_id(self.buckets@[b].spec_contacts(), id) {
            let j = choose|j: int|
                0 <= j < self.buckets@[b].spec_contacts().len()
                    && (#[trigger] self.buckets@[b].spec_contacts()[j]).node_id@ == id;
            assert(bucket_of(self.node_id@, self.buckets@[b].spec_contacts()[j].node_id@) == b);
        }
    }

    /// Update contact last seen time (at clock reading `now`).
    pub fn update_contact_last_seen_at(&mut self, node_id: &NodeId, now: u64)
        requires
            old(self).wf(),
        ensures
            final(self).wf(),
            final(self).spec_node_id() == old(self).spec_node_id(),
            final(self).spec_config() == old(self).spec_config(),
            final(self).spec_known() == old(self).spec_known(),
            final(self).spec_queries() == old(self).spec_queries(),
            final(self).spec_buckets() == old(self).spec_buckets().map_values(
                |s: Seq<Contact>| seen_update(s, node_id@, now),
            ),
    {
        let ghost target = old(self).spec_buckets().map_values(|s: Seq<Contact>| seen_update(s, node_id@, now));
        let mut done = false;
        let mut b: usize = 0;
        while b < self.buckets.len() && !done
            invariant
                0 <= b <= self.buckets@.len(),
                self.wf(),
                self.node_id == old(self).node_id,
                self.config == old(self).config,
                self.known_nodes == old(self).known_nodes,
                self.pending_queries == old(self).pending_queries,
                self.buckets@.len() == old(self).buckets@.len(),
                old(self).wf(),
                target.len() == old(self).spec_buckets().len(),
                forall|b2: int| 0 <= b2 < target.len() ==> #[trigger] target[b2] == seen_update(old(self).spec_buckets()[b2], node_id@, now),
                done ==> self.spec_buckets() == target,
                !done ==> self.spec_buckets() == old(self).spec_buckets(),
                !done ==> forall|b2: int| 0 <= b2 < b ==> !has_id(old(self).spec_buckets()[b2], node_id@),
            decreases self.buckets@.len() - b,
        {
            let ghost before = self.buckets@;
            let found = self.buckets[b].mark_seen_id(node_id, now);
            proof {
                let s = before[b as int].spec_contacts();
                assert forall|j: int| 0 <= j < s.len() implies (#[trigger] seen_update(s, node_id@, now)[j]).node_id@
                    == s[j].node_id@ by {}
                assert(self.buckets@ =~= before.update(b as int, self.buckets@[b as int]));
                assert(before[b as int].spec_contacts() == old(self).spec_buckets()[b as int]);
                if !found {
                    assert(seen_update(s, node_id@, now) =~= s);
                    assert(self.spec_buckets() =~= old(self).spec_buckets());
                } else {
                    assert forall|b2: int| 0 <= b2 < self.buckets@.len() implies #[trigger] self.spec_buckets()[b2]
                        == target[b2] by {
                        assert(target[b2] == seen_update(old(self).spec_buckets()[b2], node_id@, now));
                        assert(self.spec_buckets()[b2] == self.buckets@[b2].spec_contacts());
                        assert(before[b2].spec_contacts() == old(self).spec_buckets()[b2]);
                        if b2 != b {
                            old(self).lemma_only_home_bucket(node_id@, b2);
                            assert(old(self).spec_buckets()[b2] == old(self).buckets@[b2].spec_contacts());
                            assert(seen_update(old(self).spec_buckets()[b2], node_id@, now) =~= old(self).spec_buckets()[b2]);
                            assert(self.buckets@[b2] == before[b2]);
                        }
                    }
                    assert(self.spec_buckets() =~= target);
                }
            }
            if found {
                done = true;
            }
            b = b + 1;
        }
        proof {
            if !done {
                assert forall|b2: int| 0 <= b2 < self.buckets@.len() implies seen_update(
                    old(self).spec_buckets()[b2],
                    node_id@,
                    now,
                ) == old(self).spec_buckets()[b2] by {
                    assert(seen_update(old(self).spec_buckets()[b2], node_id@, now) =~= old(self).spec_buckets()[b2]);
                }
                assert(self.spec_buckets() =~= target);
            }
        }
    }

    /// Update contact last seen time to now.
    pub fn update_contact_last_seen(&mut self, node_id: &NodeId)
        requires
            old(self).wf(),
        ensures
            final(self).wf(),
            final(self).spec_node_id() == old(self).spec_node_id(),
            final(self).spec_config() == old(self).spec_config(),
            final(self).spec_known() == old(self).spec_known(),
            final(self).spec_queries() == old(self).spec_queries(),
            exists|now: u64| #[trigger] seen_in_buckets(old(self).spec_buckets(), node_id@, now)
                == final(self).spec_buckets(),
    {
        let now = now_millis();
        self.update_contact_last_seen_at(node_id, now);
        assert(seen_in_buckets(old(self).spec_buckets(), node_id@, now) == self.spec_buckets());
    }

    /// Mark contact as failed
    pub fn mark_contact_failed(&mut self, node_id: &NodeId)
        requires
            old(self).wf(),
        ensures
            final(self).wf(),
            final(self).spec_node_id() == old(self).spec_node_id(),
            final(self).spec_config() == old(self).spec_config(),
            final(self).spec_known() == old(self).spec_known(),
            final(self).spec_queries() == old(self).spec_queries(),
            final(self).spec_buckets() == old(self).spec_buckets().map_values(
                |s: Seq<Contact>| failed_update(s, node_id@),
            ),
    {
        let ghost target = old(self).spec_buckets().map_values(|s: Seq<Contact>| failed_update(s, node_id@));
        let mut done = false;
        let mut b: usize = 0;
        while b < self.buckets.len() && !done
            invariant
                0 <= b <= self.buckets@.len(),
                self.wf(),
                self.node_id == old(self).node_id,
                self.config == old(self).config,
                self.known_nodes == old(self).known_nodes,
                self.pending_queries == old(self).pending_queries,
                self.buckets@.len() == old(self).buckets@.len(),
                old(self).wf(),
                target.len() == old(self).spec_buckets().len(),
                forall|b2: int| 0 <= b2 < target.len() ==> #[trigger] target[b2] == failed_update(old(self).spec_buckets()[b2], node_id@),
                done ==> self.spec_buckets() == target,
                !done ==> self.spec_buckets() == old(self).spec_buckets(),
                !done ==> forall|b2: int| 0 <= b2 < b ==> !has_id(old(self).spec_buckets()[b2], node_id@),
            decreases self.buckets@.len() - b,
        {
            let ghost before = self.buckets@;
            let found = self.buckets[b].mark_failed_id(node_id);
            proof {
                let s = before[b as int].spec_contacts();
                assert forall|j: int| 0 <= j < s.len() implies (#[trigger] failed_update(s, node_id@)[j]).node_id@
                    == s[j].node_id@ by {}
                assert(self.buckets@ =~= before.update(b as int, self.buckets@[b as int]));
                assert(before[b as int].spec_contacts() == old(self).spec_buckets()[b as int]);
                if !found {
                    assert(failed_update(s, node_id@) =~= s);
                    assert(self.spec_buckets() =~= old(self).spec_buckets());
                } else {
                    assert forall|b2: int| 0 <= b2 < self.buckets@.len() implies #[trigger] self.spec_buckets()[b2]
                        == target[b2] by {
                        assert(target[b2] == failed_update(old(self).spec_buckets()[b2], node_id@));
                        assert(self.spec_buckets()[b2] == self.buckets@[b2].spec_contacts());
                        assert(before[b2].spec_contacts() == old(self).spec_buckets()[b2]);
                        if b2 != b {
                            old(self).lemma_only_home_bucket(node_id@, b2);
                            assert(old(self).spec_buckets()[b2] == old(self).buckets@[b2].spec_contacts());
                            assert(failed_update(old(self).spec_buckets()[b2], node_id@) =~= old(self).spec_buckets()[b2]);
                            assert(self.buckets@[b2] == before[b2]);
                        }
                    }
                    assert(self.spec_buckets() =~= target);
                }
            }
            if found {
                done = true;
            }
            b = b + 1;
        }
        proof {
            if !done {
                assert forall|b2: int| 0 <= b2 < self.buckets@.len() implies failed_update(
                    old(self).spec_buckets()[b2],
                    node_id@,
                ) == old(self).spec_buckets()[b2] by {
                    assert(failed_update(old(self).spec_buckets()[b2], node_id@) =~= old(self).spec_buckets()[b2]);
                }
                assert(self.spec_buckets() =~= target);
            }
        }
    }

    /// Handle FIND_NODE response at clock reading `now`: the responder is
    /// marked as seen, every returned contact other than ourselves enters the
    /// routing table, and if a lookup is keyed by the responder its closest
    /// set becomes the `k` closest of the old set and the returned contacts,
    /// and the responder is no longer awaited.
    pub fn handle_find_node_response_at(&mut self, from: NodeId, contacts: Vec<Contact>, now: u64)
        requires
            old(self).wf(),
        ensures
            final(self).wf(),
            find_node_response_outcome(*old(self), *final(self), from@, contacts@, now),
    {
        self.update_contact_last_seen_at(&from, now);
        let ghost seen = self.spec_buckets();
        let mut i: usize = 0;
        while i < contacts.len()
            invariant
                0 <= i <= contacts@.len(),
                self.wf(),
                self.spec_node_id() == old(self).spec_node_id(),
                self.spec_config() == old(self).spec_config(),
                self.spec_known() == old(self).spec_known(),
                self.spec_queries() == old(self).spec_queries(),
                self.spec_buckets() == buckets_after_insert_all(
                    seen,
                    self.node_id@,
                    self.config.k as nat,
                    contacts@.take(i as int),
                ),
            decreases contacts@.len() - i,
        {
            let c = contacts[i];
            proof {
                assert(contacts@.take(i + 1).drop_last() =~= contacts@.take(i as int));
            }
            if !c.node_id.same_as(&self.node_id) {
                self.insert_contact(c);
            }
            i = i + 1;
        }
        assert(contacts@.take(contacts@.len() as int) =~= contacts@);
        match self.find_query_index(&from) {
            None => {
                proof {
                    assert forall|i: int| 0 <= i < old(self).spec_queries().len() implies (#[trigger] old(self).spec_queries()[i]).0
                        != from@ by {
                        assert(old(self).spec_queries()[i].0 == self.pending_queries@[i].target@);
                    }
                }
            },
            Some(qi) => {
                let ghost old_queries = self.pending_queries@;
                let k = self.config.k;
                let target = self.pending_queries[qi].target;
                let mut merged: Vec<Contact> = Vec::new();
                let mut j: usize = 0;
                while j < self.pending_queries[qi].closest_nodes.len()
                    invariant
                        0 <= j <= old_queries[qi as int].closest_nodes@.len(),
                        self.pending_queries@ == old_queries,
                        qi < old_queries.len(),
                        merged@ == old_queries[qi as int].closest_nodes@.take(j as int),
                    decreases old_queries[qi as int].closest_nodes@.len() - j,
                {
                    merged.push(self.pending_queries[qi].closest_nodes[j]);
                    proof {
                        assert(merged@ =~= old_queries[qi as int].closest_nodes@.take(j + 1));
                    }
                    j = j + 1;
                }
                let mut j: usize = 0;
                let ghost base = merged@;
                while j < contacts.len()
                    invariant
                        0 <= j <= contacts@.len(),
                        merged@ == base + contacts@.take(j as int),
                    decreases contacts@.len() - j,
                {
                    merged.push(contacts[j]);
                    proof {
                        assert(merged@ =~= base + contacts@.take(j + 1));
                    }
                    j = j + 1;
                }
                proof {
                    assert(old_queries[qi as int].closest_nodes@.take(
                        old_queries[qi as int].closest_nodes@.len() as int,
                    ) =~= old_queries[qi as int].closest_nodes@);
                    assert(contacts@.take(contacts@.len() as int) =~= contacts@);
                }
                let closest = closest_distinct(&merged, &target, k);
                let mut active: Vec<NodeId> = Vec::new();
                let mut j: usize = 0;
                while j < self.pending_queries[qi].active_contacts.len()
                    invariant
                        0 <= j <= old_queries[qi as int].active_contacts@.len(),
                        self.pending_queries@ == old_queries,
                        qi < old_queries.len(),
                        id_views(active@) == id_views(old_queries[qi as int].active_contacts@).take(j as int).filter(
                            |x: Seq<u8>| x != from@,
                        ),
                    decreases old_queries[qi as int].active_contacts@.len() - j,
                {
                    let a = self.pending_queries[qi].active_contacts[j];
                    let ghost before = active@;
                    proof {
                        reveal_with_fuel(Seq::filter, 1);
                        let ids = id_views(old_queries[qi as int].active_contacts@);
                        assert(ids.take(j + 1).drop_last() =~= ids.take(j as int));
                    }
                    if !a.same_as(&from) {
                        active.push(a);
                        proof {
                            assert(id_views(active@) =~= id_views(before).push(a@));
                        }
                    }
                    j = j + 1;
                }
                proof {
                    let ids = id_views(old_queries[qi as int].active_contacts@);
                    assert(ids.take(ids.len() as int) =~= ids);
                }
                self.pending_queries[qi].closest_nodes = closest;
                self.pending_queries[qi].active_contacts = active;
                proof {
                    assert forall|i: int| 0 <= i < old(self).spec_queries().len() && (#[trigger] old(self).spec_queries()[i]).0
                        == from@ implies i == qi by {
                        assert(old(self).spec_queries()[i].0 == old_queries[i].target@);
                    }
                    assert forall|a: int, b: int| 0 <= a < b < self.pending_queries@.len() implies
                        (#[trigger] self.pending_queries@[a]).target@ != (#[trigger] self.pending_queries@[b]).target@ by {
                        assert(self.pending_queries@[a].target == old_queries[a].target);
                        assert(self.pending_queries@[b].target == old_queries[b].target);
                    }
                    assert forall|i: int| 0 <= i < old(self).spec_queries().len() && (#[trigger] old(self).spec_queries()[i]).0
                        != from@ implies self.spec_queries()[i] == old(self).spec_queries()[i] by {
                        assert(self.pending_queries@[i] == old_queries[i]);
                    }
                }
            },
        }
    }

    /// Handle FIND_NODE response now.
    pub fn handle_find_node_response(&mut self, from: NodeId, contacts: Vec<Contact>) -> (r: Result<(), DhtError>)
        requires
            old(self).wf(),
        ensures
            final(self).wf(),
            r is Ok,
            exists|now: u64| #[trigger] find_node_response_outcome(*old(self), *final(self), from@, contacts@, now),
    {
        let now = now_millis();
        let ghost f = from@;
        let ghost cs = contacts@;
        self.handle_find_node_response_at(from, contacts, now);
        assert(find_node_response_outcome(*old(self), *self, f, cs, now));
        Ok(())
    }

    /// Check if lookup is complete at clock reading `now`: no lookup for the
    /// target, no contact awaited, or more than 30 seconds elapsed.
    pub fn is_lookup_complete_at(&self, target: &NodeId, now: u64) -> (r: bool)
        requires
            self.wf(),
        ensures
            r == forall|i: int| 0 <= i < self.spec_queries().len() && (#[trigger] self.spec_queries()[i]).0 == target@
                ==> (self.spec_queries()[i].2.len() == 0 || elapsed_millis(self.spec_queries()[i].3, now) > lookup_timeout()),
    {
        match self.find_query_index(target) {
            None => {
                assert forall|i: int| 0 <= i < self.spec_queries().len() implies (#[trigger] self.spec_queries()[i]).0 != target@ by {
                    assert(self.spec_queries()[i].0 == self.pending_queries@[i].target@);
                }
                true
            },
            Some(qi) => {
                assert forall|i: int| 0 <= i < self.spec_queries().len() && (#[trigger] self.spec_queries()[i]).0 == target@
                    implies i == qi by {
                    assert(self.spec_queries()[i].0 == self.pending_queries@[i].target@);
                }
                let q = &self.pending_queries[qi];
                let elapsed = if now >= q.start_time { now - q.start_time } else { 0 };
                assert(self.spec_queries()[qi as int].2.len() == q.active_contacts@.len());
                q.active_contacts.len() == 0 || elapsed > 30_000
            },
        }
    }

    /// Check if lookup is complete now.
    pub fn is_lookup_complete(&self, target: &NodeId) -> (r: bool)
        requires
            self.wf(),
        ensures
            exists|now: u64| r == #[trigger] self.lookup_complete_as_of(target@, now),
    {
        let now = now_millis();
        let r = self.is_lookup_complete_at(target, now);
        assert(r == self.lookup_complete_as_of(target@, now));
        r
    }

    /// Whether the lookup for `target` is complete at clock reading `now`:
    /// there is none, it awaits no contact, or more than 30 seconds passed.
    pub open spec fn lookup_complete_as_of(&self, target: Seq<u8>, now: u64) -> bool {
        forall|i: int| 0 <= i < self.spec_queries().len() && (#[trigger] self.spec_queries()[i]).0 == target
            ==> (self.spec_queries()[i].2.len() == 0 || elapsed_millis(self.spec_queries()[i].3, now) > lookup_timeout())
    }

    /// Get lookup results
    pub fn get_lookup_results(&self, target: &NodeId) -> (r: Option<Vec<Contact>>)
        requires
            self.wf(),
        ensures
            match r {
                Some(v) => exists|i: int| 0 <= i < self.spec_queries().len() && (#[trigger] self.spec_queries()[i]).0 == target@
                    && v@ == self.spec_queries()[i].1,
                None => forall|i: int| 0 <= i < self.spec_queries().len() ==> (#[trigger] self.spec_queries()[i]).0 != target@,
            },
    {
        match self.find_query_index(target) {
            None => {
                assert forall|i: int| 0 <= i < self.spec_queries().len() implies (#[trigger] self.spec_queries()[i]).0 != target@ by {
                    assert(self.spec_queries()[i].0 == self.pending_queries@[i].target@);
                }
                None
            },
            Some(qi) => {
                let src = &self.pending_queries[qi].closest_nodes;
                let mut out: Vec<Contact> = Vec::new();
                let mut j: usize = 0;
                while j < src.len()
                    invariant
                        0 <= j <= src@.len(),
                        out@ == src@.take(j as int),
                    decreases src@.len() - j,
                {
                    out.push(src[j]);
                    proof {
                        assert(out@ =~= src@.take(j + 1));
                    }
                    j = j + 1;
                }
                assert(src@.take(src@.len() as int) =~= src@);
                assert(self.spec_queries()[qi as int].1 == src@);
                Some(out)
            },
        }
    }

    /// Complete lookup and clean up
    pub fn complete_lookup(&mut self, target: &NodeId) -> (r: Option<Vec<Contact>>)
        requires
            old(self).wf(),
        ensures
            final(self).wf(),
            final(self).spec_buckets() == old(self).spec_buckets(),
            final(self).spec_known() == old(self).spec_known(),
            match r {
                Some(v) => exists|i: int| 0 <= i < old(self).spec_queries().len() && (#[trigger] old(self).spec_queries()[i]).0 == target@
                    && v@ == old(self).spec_queries()[i].1 && final(self).spec_queries() == old(self).spec_queries().remove(i),
                None => final(self).spec_queries() == old(self).spec_queries() && forall|i: int|
                    0 <= i < old(self).spec_queries().len() ==> (#[trigger] old(self).spec_queries()[i]).0 != target@,
            },
    {
        match self.find_query_index(target) {
            None => {
                assert forall|i: int| 0 <= i < self.spec_queries().len() implies (#[trigger] self.spec_queries()[i]).0 != target@ by {
                    assert(self.spec_queries()[i].0 == self.pending_queries@[i].target@);
                }
                None
            },
            Some(qi) => {
                let ghost old_queries = self.pending_queries@;
                let q = self.pending_queries.remove(qi);
                proof {
                    assert(self.spec_queries() =~= old(self).spec_queries().remove(qi as int));
                    assert forall|a: int, b: int| 0 <= a < b < self.pending_queries@.len() implies
                        (#[trigger] self.pending_queries@[a]).target@ != (#[trigger] self.pending_queries@[b]).target@ by {
                        let a2 = if a < qi { a } else { a + 1 };
                        let b2 = if b < qi { b } else { b + 1 };
                        assert(self.pending_queries@[a] == old_queries[a2]);
                        assert(self.pending_queries@[b] == old_queries[b2]);
                    }
                    assert(old(self).spec_queries()[qi as int].1 == q.closest_nodes@);
                }
                Some(q.closest_nodes)
            },
        }
    }

    /// Get routing table statistics
    pub fn get_stats(&self) -> (r: DHTStats)
        ensures
            r.node_id@ == self.spec_node_id(),
            r.total_contacts == self.spec_all_contacts().len(),
            r.bucket_sizes@ == self.spec_buckets().map_values(|s: Seq<Contact>| s.len() as usize),
            r.pending_queries == self.spec_queries().len(),
    {
        let all = self.get_all_contacts();
        let mut sizes: Vec<usize> = Vec::new();
        let mut b: usize = 0;
        while b < self.buckets.len()
            invariant
                0 <= b <= self.buckets@.len(),
                sizes@ == self.spec_buckets().take(b as int).map_values(|s: Seq<Contact>| s.len() as usize),
            decreases self.buckets@.len() - b,
        {
            sizes.push(self.buckets[b].contacts().len());
            proof {
                assert(sizes@ =~= self.spec_buckets().take(b + 1).map_values(|s: Seq<Contact>| s.len() as usize));
            }
            b = b + 1;
        }
        assert(self.spec_buckets().take(self.buckets@.len() as int) =~= self.spec_buckets());
        DHTStats {
            node_id: self.node_id,
            total_contacts: all.len(),
            bucket_sizes: sizes,
            pending_queries: self.pending_queries.len(),
        }
    }

    /// Refresh buckets at clock reading `now`: the identifiers of the
    /// contacts not seen for longer than the refresh interval, bucket by
    /// bucket.
    pub fn refresh_buckets_at(&self, now: u64) -> (r: Vec<NodeId>)
        ensures
            id_views(r@) == self.spec_all_contacts().filter(
                |c: Contact| elapsed_millis(c.last_seen, now) > self.spec_config().refresh_interval,
            ).map_values(|c: Contact| c.node_id@),
    {
        let all = self.get_all_contacts();
        let limit = self.config.refresh_interval;
        let ghost pred = |c: Contact| elapsed_millis(c.last_seen, now) > limit;
        let mut out: Vec<NodeId> = Vec::new();
        let mut i: usize = 0;
        while i < all.len()
            invariant
                0 <= i <= all@.len(),
                limit == self.config.refresh_interval,
                forall|c: Contact| #[trigger] pred(c) == (elapsed_millis(c.last_seen, now) > limit),
                id_views(out@) == all@.take(i as int).filter(pred).map_values(|c: Contact| c.node_id@),
            decreases all@.len() - i,
        {
            let c = all[i];
            let ghost before = out@;
            proof {
                reveal_with_fuel(Seq::filter, 1);
                assert(all@.take(i + 1).drop_last() =~= all@.take(i as int));
            }
            let stale = c.time_since_seen_at(now) > limit;
            assert(stale == pred(c));
            if stale {
                out.push(c.node_id);
                proof {
                    assert(id_views(out@) =~= id_views(before).push(c.node_id@));
                    assert(all@.take(i + 1).filter(pred) == all@.take(i as int).filter(pred).push(c));
                    assert(all@.take(i + 1).filter(pred).map_values(|c: Contact| c.node_id@) =~= all@.take(i as int).filter(pred).map_values(|c: Contact| c.node_id@).push(c.node_id@));
                }
            }
            i = i + 1;
        }
        assert(all@.take(all@.len() as int) =~= all@);
        out
    }

    /// Refresh buckets now.
    pub fn refresh_buckets(&self) -> (r: Vec<NodeId>)
        ensures
            exists|now: u64| id_views(r@) == #[trigger] stale_ids(self.spec_all_contacts(), self.spec_config().refresh_interval, now),
    {
        let now = now_millis();
        let r = self.refresh_buckets_at(now);
        assert(id_views(r@) == stale_ids(self.spec_all_contacts(), self.spec_config().refresh_interval, now));
        r
    }

    /// Find contact by node ID
    pub fn find_contact(&self, node_id: &NodeId) -> (r: Option<Contact>)
        ensures
            match r {
                Some(c) => self.spec_all_contacts().contains(c) && c.node_id@ == node_id@,
                None => !has_id(self.spec_all_contacts(), node_id@),
            },
    {
        let all = self.get_all_contacts();
        let mut i: usize = 0;
        while i < all.len()
            invariant
                0 <= i <= all@.len(),
                all@ == self.spec_all_contacts(),
                forall|j: int| 0 <= j < i ==> (#[trigger] all@[j]).node_id@ != node_id@,
            decreases all@.len() - i,
        {
            if all[i].node_id.same_as(node_id) {
                assert(all@[i as int] == all[i as int]);
                return Some(all[i]);
            }
            i = i + 1;
        }
        None
    }

    /// Remove contact
    pub fn remove_contact(&mut self, node_id: &NodeId)
        requires
            old(self).wf(),
        ensures
            final(self).wf(),
            final(self).spec_node_id() == old(self).spec_node_id(),
            final(self).spec_queries() == old(self).spec_queries(),
            final(self).spec_buckets() == old(self).spec_buckets().map_values(
                |s: Seq<Contact>| without_id(s, node_id@),
            ),
            final(self).spec_known() == old(self).spec_known().filter(|x: Seq<u8>| x != node_id@),
    {
        let mut b: usize = 0;
        while b < self.buckets.len()
            invariant
                0 <= b <= self.buckets@.len(),
                self.buckets@.len() == old(self).buckets@.len(),
                self.node_id == old(self).node_id,
                self.config == old(self).config,
                self.known_nodes == old(self).known_nodes,
                self.pending_queries == old(self).pending_queries,
                old(self).wf(),
                forall|b2: int| 0 <= b2 < b ==> (#[trigger] self.buckets@[b2]).wf()
                    && self.buckets@[b2].spec_max_size() == self.config.k
                    && self.buckets@[b2].spec_contacts() == without_id(old(self).buckets@[b2].spec_contacts(), node_id@),
                forall|b2: int| b <= b2 < self.buckets@.len() ==> self.buckets@[b2] == old(self).buckets@[b2],
            decreases self.buckets@.len() - b,
        {
            self.buckets[b].remove_contact(node_id);
            b = b + 1;
        }
        proof {
            assert forall|b2: int, j: int|
                0 <= b2 < self.buckets@.len() && 0 <= j < self.buckets@[b2].spec_contacts().len()
                implies bucket_of(self.node_id@, (#[trigger] self.buckets@[b2].spec_contacts()[j]).node_id@) == b2 by {
                let s = old(self).buckets@[b2].spec_contacts();
                let c = self.buckets@[b2].spec_contacts()[j];
                assert(without_id(s, node_id@).contains(c));
                reveal_with_fuel(Seq::filter, 1);
                s.lemma_filter_contains_rev(|x: Contact| x.node_id@ != node_id@, c);
                let j2 = choose|j2: int| 0 <= j2 < s.len() && s[j2] == c;
                assert(bucket_of(old(self).node_id@, s[j2].node_id@) == b2);
            }
            assert(self.spec_buckets() =~= old(self).spec_buckets().map_values(
                |s: Seq<Contact>| without_id(s, node_id@),
            ));
        }
        let ghost old_known = self.spec_known();
        let mut kept: Vec<NodeId> = Vec::new();
        let ghost mut src: Seq<int> = Seq::empty();
        let mut i: usize = 0;
        while i < self.known_nodes.len()
            invariant
                0 <= i <= self.known_nodes@.len(),
                old_known == id_views(self.known_nodes@),
                id_views(kept@) == old_known.take(i as int).filter(|x: Seq<u8>| x != node_id@),
                src.len() == kept@.len(),
                forall|k: int| 0 <= k < src.len() ==> 0 <= #[trigger] src[k] < i,
                forall|k: int, l: int| 0 <= k < l < src.len() ==> src[k] < src[l],
                forall|k: int| 0 <= k < src.len() ==> kept@[k]@ == old_known[#[trigger] src[k]],
            decreases self.known_nodes@.len() - i,
        {
            let n = self.known_nodes[i];
            let ghost before = kept@;
            proof {
                reveal_with_fuel(Seq::filter, 1);
                assert(old_known.take(i + 1).drop_last() =~= old_known.take(i as int));
            }
            if !n.same_as(node_id) {
                kept.push(n);
                proof {
                    assert(id_views(kept@) =~= id_views(before).push(n@));
                    src = src.push(i as int);
                }
            }
            i = i + 1;
        }
        assert(old_known.take(old_known.len() as int) =~= old_known);
        self.known_nodes = kept;
        proof {
            assert(self.spec_known() == old_known.filter(|x: Seq<u8>| x != node_id@));
            assert forall|a: int, b: int| 0 <= a < b < self.spec_known().len() implies
                self.spec_known()[a] != self.spec_known()[b] by {
                assert(self.spec_known()[a] == old_known[src[a]]);
                assert(self.spec_known()[b] == old_known[src[b]]);
            }
        }
    }

    /// Start node lookup now.
    pub fn start_lookup(&mut self, target: NodeId) -> (r: Result<(), DhtError>)
        requires
            old(self).wf(),
        ensures
            final(self).wf(),
            exists|now: u64| #[trigger] lookup_start_outcome(*old(self), *final(self), target@, now, r),
    {
        let now = now_millis();
        let ghost t = target@;
        let r = self.start_lookup_at(target, now);
        assert(lookup_start_outcome(*old(self), *self, t, now, r));
        r
    }
}

/// The identifiers of the contacts not heard from within `interval` at
/// `now`.
pub open spec fn stale_ids(all: Seq<Contact>, interval: u64, now: u64) -> Seq<Seq<u8>> {
    all.filter(|c: Contact| elapsed_millis(c.last_seen, now) > interval).map_values(|c: Contact| c.node_id@)
}

/// A lookup is done once every contact asked has answered, or once it has
/// run longer than the lookup timeout.
pub open spec fn lookup_done(q: QueryView, now: u64) -> bool {
    q.2.len() == 0 || elapsed_millis(q.3, now) > lookup_timeout()
}

/// The contacts found by the lookups that are done at `now`, lookup by
/// lookup.
pub open spec fn done_results(qs: Seq<QueryView>, now: u64) -> Seq<Contact>
    decreases qs.len(),
{
    if qs.len() == 0 {
        Seq::empty()
    } else if lookup_done(qs.last(), now) {
        done_results(qs.drop_last(), now) + qs.last().1
    } else {
        done_results(qs.drop_last(), now)
    }
}

/// The buckets after inserting each contact of `cs`, in order.
pub open spec fn buckets_after_inserts(bs: Seq<Seq<Contact>>, me: Seq<u8>, k: nat, cs: Seq<Contact>) -> Seq<Seq<Contact>>
    decreases cs.len(),
{
    if cs.len() == 0 {
        bs
    } else {
        buckets_after_insert(buckets_after_inserts(bs, me, k, cs.drop_last()), me, k, cs.last())
    }
}

/// The buckets after each identifier of `ids`, in order, was seen at `now`.
pub open spec fn buckets_after_seen(bs: Seq<Seq<Contact>>, ids: Seq<Seq<u8>>, now: u64) -> Seq<Seq<Contact>>
    decreases ids.len(),
{
    if ids.len() == 0 {
        bs
    } else {
        seen_in_buckets(buckets_after_seen(bs, ids.drop_last(), now), ids.last(), now)
    }
}

/// A contact is alive while it has failed fewer than three times.
pub open spec fn contact_alive(c: Contact) -> bool {
    c.failures < 3
}

/// The target of a lookup.
pub open spec fn query_key() -> spec_fn(QueryView) -> Seq<u8> {
    |q: QueryView| q.0
}

/// `after` is `before` once a lookup of `target` was started at `now`: a
/// lookup already running for the target stays as it is; otherwise a new
/// lookup of the target is added, awaiting the `k` closest known contacts.
pub open spec fn lookup_started(before: DHT, after: DHT, target: Seq<u8>, now: u64) -> bool {
    &&& after.wf()
    &&& after.spec_node_id() == before.spec_node_id()
    &&& after.spec_config() == before.spec_config()
    &&& after.spec_buckets() == before.spec_buckets()
    &&& after.spec_known() == before.spec_known()
    &&& if exists|i: int| 0 <= i < before.spec_queries().len() && (#[trigger] before.spec_queries()[i]).0 == target {
        after.spec_queries() == before.spec_queries()
    } else {
        let q = after.spec_queries().last();
        &&& after.spec_queries().len() == before.spec_queries().len() + 1
        &&& after.spec_queries().drop_last() == before.spec_queries()
        &&& q.0 == target
        &&& closest_selection(before.spec_all_contacts(), target, before.spec_config().k as nat, q.1)
        &&& q.2 == q.1.map_values(|c: Contact| c.node_id@)
        &&& q.3 == now
    }
}

/// `after` is `before` once the lookups done at `now` were finished and the
/// live contacts they found were added to the routing table.
pub open spec fn lookups_processed(before: DHT, after: DHT, now: u64) -> bool {
    &&& after.wf()
    &&& after.spec_node_id() == before.spec_node_id()
    &&& after.spec_config() == before.spec_config()
    &&& after.spec_known() == before.spec_known()
    &&& after.spec_queries() == before.spec_queries().filter(|q: QueryView| !lookup_done(q, now))
    &&& after.spec_buckets() == buckets_after_inserts(
        before.spec_buckets(),
        before.spec_node_id(),
        before.spec_config().k as nat,
        done_results(before.spec_queries(), now).filter(|c: Contact| contact_alive(c)),
    )
}

impl DHT {
    /// Finish the lookups that are done at clock reading `now`, and add the
    /// live contacts they found to the routing table, lookup by lookup.
    pub fn process_completed_lookups_at(&mut self, now: u64)
        requires
            old(self).wf(),
        ensures
            final(self).wf(),
            final(self).spec_node_id() == old(self).spec_node_id(),
            final(self).spec_config() == old(self).spec_config(),
            final(self).spec_known() == old(self).spec_known(),
            final(self).spec_queries() == old(self).spec_queries().filter(|q: QueryView| !lookup_done(q, now)),
            final(self).spec_buckets() == buckets_after_inserts(
                old(self).spec_buckets(),
                old(self).spec_node_id(),
                old(self).spec_config().k as nat,
                done_results(old(self).spec_queries(), now).filter(|c: Contact| contact_alive(c)),
            ),
    {
        let ghost qs = self.spec_queries();
        let ghost keep = |q: QueryView| !lookup_done(q, now);
        let mut rest: Vec<QueryState> = Vec::new();
        std::mem::swap(&mut rest, &mut self.pending_queries);
        let mut found: Vec<Contact> = Vec::new();
        let ghost mut i: int = 0;
        assert(qs.take(0).filter(keep) =~= Seq::<QueryView>::empty()) by {
            reveal_with_fuel(Seq::filter, 1);
        }
        assert(rest@.map_values(|q: QueryState| q.view()) =~= qs.skip(0));
        while rest.len() > 0
            invariant
                0 <= i <= qs.len(),
                keep == (|q: QueryView| !lookup_done(q, now)),
                rest@.map_values(|q: QueryState| q.view()) == qs.skip(i),
                self.pending_queries@.map_values(|q: QueryState| q.view()) == qs.take(i).filter(keep),
                found@ == done_results(qs.take(i), now),
                self.buckets == old(self).buckets,
                self.node_id == old(self).node_id,
                self.config == old(self).config,
                self.known_nodes == old(self).known_nodes,
            decreases rest@.len(),
        {
            let ghost before = self.pending_queries@.map_values(|q: QueryState| q.view());
            let ghost r0 = rest@;
            proof {
                assert(r0.map_values(|q: QueryState| q.view()).len() == r0.len());
                assert(i < qs.len());
                assert(r0.map_values(|q: QueryState| q.view())[0] == r0[0].view());
                assert(qs.skip(i)[0] == qs[i]);
            }
            let q = rest.remove(0);
            proof {
                assert(q.view() == qs[i]);
                let rv = rest@.map_values(|q: QueryState| q.view());
                let sk = qs.skip(i + 1);
                assert forall|t: int| 0 <= t < rest@.len() implies #[trigger] rv[t] == sk[t] by {
                    assert(rest@[t] == r0[t + 1]);
                    assert(r0.map_values(|q: QueryState| q.view())[t + 1] == r0[t + 1].view());
                    assert(qs.skip(i)[t + 1] == qs[i + 1 + t]);
                }
                assert(rv =~= sk);
                assert(qs.take(i + 1).drop_last() =~= qs.take(i));
                assert(qs.take(i + 1).last() == qs[i]);
                reveal_with_fuel(Seq::filter, 1);
            }
            let elapsed: u64 = if now >= q.start_time { now - q.start_time } else { 0 };
            if q.active_contacts.len() == 0 || elapsed > 30_000 {
                let ghost f0 = found@;
                let mut j: usize = 0;
                while j < q.closest_nodes.len()
                    invariant
                        0 <= j <= q.closest_nodes@.len(),
                        found@ == f0 + q.closest_nodes@.take(j as int),
                    decreases q.closest_nodes@.len() - j,
                {
                    found.push(q.closest_nodes[j]);
                    assert(q.closest_nodes@.take(j + 1) =~= q.closest_nodes@.take(j as int).push(q.closest_nodes@[j as int]));
                    assert(found@ =~= f0 + q.closest_nodes@.take(j + 1));
                    j = j + 1;
                }
                assert(q.closest_nodes@.take(q.closest_nodes@.len() as int) =~= q.closest_nodes@);
                assert(self.pending_queries@.map_values(|q: QueryState| q.view()) =~= qs.take(i + 1).filter(keep));
            } else {
                let ghost qv = q.view();
                self.pending_queries.push(q);
                assert(self.pending_queries@.map_values(|q: QueryState| q.view()) =~= before.push(qv));
            }
            proof {
                i = i + 1;
            }
        }
        proof {
            assert(qs.take(i) =~= qs) by {
                assert(qs.skip(i).len() == 0);
            }
            assert(keys_distinct(qs, query_key())) by {
                assert forall|a: int, b: int| 0 <= a < b < qs.len() implies (query_key())(qs[a]) != (query_key())(qs[b]) by {
                    assert(qs[a] == old(self).pending_queries@[a].view());
                    assert(qs[b] == old(self).pending_queries@[b].view());
                }
            }
            lemma_filter_keys_distinct(qs, query_key(), keep);
            let pv = self.pending_queries@.map_values(|q: QueryState| q.view());
            assert forall|a: int, b: int| 0 <= a < b < self.pending_queries@.len() implies (#[trigger] self.pending_queries@[a]).target@
                != (#[trigger] self.pending_queries@[b]).target@ by {
                assert(pv[a].0 == self.pending_queries@[a].target@);
                assert(pv[b].0 == self.pending_queries@[b].target@);
                assert((query_key())(pv[a]) != (query_key())(pv[b]));
            }
            assert(self.spec_queries() =~= pv);
        }
        let ghost fs = found@;
        let ghost bs0 = self.spec_buckets();
        let mut j: usize = 0;
        while j < found.len()
            invariant
                0 <= j <= found@.len(),
                fs == found@,
                self.wf(),
                self.spec_node_id() == old(self).spec_node_id(),
                self.spec_config() == old(self).spec_config(),
                self.spec_known() == old(self).spec_known(),
                self.spec_queries() == qs.filter(keep),
                self.spec_buckets() == buckets_after_inserts(
                    bs0,
                    self.spec_node_id(),
                    self.spec_config().k as nat,
                    fs.take(j as int).filter(|c: Contact| contact_alive(c)),
                ),
            decreases found@.len() - j,
        {
            proof {
                reveal_with_fuel(Seq::filter, 1);
                assert(fs.take(j + 1).drop_last() =~= fs.take(j as int));
                assert(fs.take(j + 1).last() == fs[j as int]);
            }
            if found[j].is_alive() {
                let ghost f = fs.take(j as int).filter(|c: Contact| contact_alive(c));
                self.insert_contact(found[j]);
                assert(f.push(fs[j as int]).drop_last() =~= f);
            }
            j = j + 1;
        }
        assert(fs.take(fs.len() as int) =~= fs);
    }

    /// Mark as seen at clock reading `now` every contact not heard from
    /// within the refresh interval.
    pub fn refresh_contacts_at(&mut self, now: u64)
        requires
            old(self).wf(),
        ensures
            final(self).wf(),
            final(self).spec_node_id() == old(self).spec_node_id(),
            final(self).spec_config() == old(self).spec_config(),
            final(self).spec_known() == old(self).spec_known(),
            final(self).spec_queries() == old(self).spec_queries(),
            final(self).spec_buckets() == buckets_after_seen(
                old(self).spec_buckets(),
                old(self).spec_all_contacts().filter(
                    |c: Contact| elapsed_millis(c.last_seen, now) > old(self).spec_config().refresh_interval,
                ).map_values(|c: Contact| c.node_id@),
                now,
            ),
    {
        let ids = self.refresh_buckets_at(now);
        let ghost idv = id_views(ids@);
        let ghost bs0 = self.spec_buckets();
        let mut j: usize = 0;
        while j < ids.len()
            invariant
                0 <= j <= ids@.len(),
                idv == id_views(ids@),
                self.wf(),
                self.spec_node_id() == old(self).spec_node_id(),
                self.spec_config() == old(self).spec_config(),
                self.spec_known() == old(self).spec_known(),
                self.spec_queries() == old(self).spec_queries(),
                self.spec_buckets() == buckets_after_seen(bs0, idv.take(j as int), now),
            decreases ids@.len() - j,
        {
            proof {
                assert(idv.take(j + 1).drop_last() =~= idv.take(j as int));
                assert(idv.take(j + 1).last() == ids@[j as int]@);
            }
            self.update_contact_last_seen_at(&ids[j], now);
            j = j + 1;
        }
        assert(idv.take(idv.len() as int) =~= idv);
    }
}

} // verus!
