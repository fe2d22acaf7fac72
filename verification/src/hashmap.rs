//! A simple separate-chaining hash map over a salted multiplicative
//! byte hasher.
//!
//! The map is an independent container beside the allocators: buckets
//! are vectors of key-value pairs, the bucket of a key is its salted
//! hash modulo the bucket count, and the table doubles when the load
//! factor reaches three quarters.  Keys implement [`HashKey`], the
//! crate's specification-carrying stand-in for `Hash` + `Eq`.

use vstd::prelude::*;

verus! {

/// One absorption step of the hasher: the byte is offset by a fixed
/// odd constant, rotated into position, folded into the state by xor,
/// and the state is stirred by a wrapping multiplication.
pub open spec fn mix(state: u128, b: u8) -> u128 {
    vstd::wrapping::u128_specs::wrapping_mul(
        state ^ ((((b as u128) + 0x9e3779b97f4a7c15) as u128) << 11),
        0x100000001b3,
    )
}

/// The hasher state after absorbing `bytes` into `state`, one byte at
/// a time, first byte first.
pub open spec fn mix_seq(state: u128, bytes: Seq<u8>) -> u128
    decreases bytes.len(),
{
    if bytes.len() == 0 {
        state
    } else {
        mix(mix_seq(state, bytes.drop_last()), bytes.last())
    }
}

/// The 64-bit digest: both halves of the state folded together.
pub open spec fn finish_spec(state: u128) -> u64 {
    (state as u64) ^ ((state >> 64) as u64)
}

/// Salted byte hasher with a 128-bit running state.
pub struct SimpleHasher(pub u128);

impl SimpleHasher {
    /// Absorb one byte into the state.
    pub fn write_byte(&mut self, b: u8)
        ensures
            final(self).0 == mix(old(self).0, b),
    {
        let y: u128 = (b as u128) + 0x9e3779b97f4a7c15;
        // A rotation left by 11: the value absorbed always has its high
        // 11 bits clear, so the rotation is a plain shift.
        let rot: u128 = y << 11u32;
        self.0 = (self.0 ^ rot).wrapping_mul(0x100000001b3);
    }

    /// Absorb a slice of bytes, first byte first.
    #[verifier::loop_isolation(false)]
    pub fn write(&mut self, bytes: &[u8])
        ensures
            final(self).0 == mix_seq(old(self).0, bytes@),
    {
        let mut i: usize = 0;
        while i < bytes.len()
            invariant
                i <= bytes@.len(),
                self.0 == mix_seq(old(self).0, bytes@.subrange(0, i as int)),
            decreases bytes@.len() - i,
        {
            self.write_byte(bytes[i]);
            proof {
                assert(bytes@.subrange(0, i + 1).drop_last() =~= bytes@.subrange(0, i as int));
            }
            i = i + 1;
        }
        proof {
            assert(bytes@.subrange(0, bytes@.len() as int) =~= bytes@);
        }
    }

    /// The 64-bit digest of the current state.
    pub fn finish(&self) -> (r: u64)
        ensures
            r == finish_spec(self.0),
    {
        (self.0 as u64) ^ ((self.0 >> 64u32) as u64)
    }
}

/// A key that can be absorbed into the hasher and compared exactly.
///
/// This stands in for `Hash` + `Eq`: `feed_spec` is the key's effect on
/// the hasher state, `feed` realises it, and `key_eq` decides equality
/// of keys exactly.
pub trait HashKey: Sized {
    /// The hasher state after this key is absorbed into `state`.
    spec fn feed_spec(&self, state: u128) -> u128;

    /// Absorb this key into the hasher.
    fn feed(&self, h: &mut SimpleHasher)
        ensures
            final(h).0 == self.feed_spec(old(h).0),
    ;

    /// Decide equality of two keys.
    fn key_eq(&self, other: &Self) -> (r: bool)
        ensures
            r == (self == other),
    ;
}

impl HashKey for u64 {
    /// The eight bytes of the key, least significant first.
    open spec fn feed_spec(&self, state: u128) -> u128 {
        mix(
            mix(
                mix(
                    mix(
                        mix(
                            mix(
                                mix(
                                    mix(state, (*self & 0xff) as u8),
                                    ((*self >> 8) & 0xff) as u8,
                                ),
                                ((*self >> 16) & 0xff) as u8,
                            ),
                            ((*self >> 24) & 0xff) as u8,
                        ),
                        ((*self >> 32) & 0xff) as u8,
                    ),
                    ((*self >> 40) & 0xff) as u8,
                ),
                ((*self >> 48) & 0xff) as u8,
            ),
            ((*self >> 56) & 0xff) as u8,
        )
    }

    fn feed(&self, h: &mut SimpleHasher) {
        h.write_byte((*self & 0xff) as u8);
        h.write_byte(((*self >> 8) & 0xff) as u8);
        h.write_byte(((*self >> 16) & 0xff) as u8);
        h.write_byte(((*self >> 24) & 0xff) as u8);
        h.write_byte(((*self >> 32) & 0xff) as u8);
        h.write_byte(((*self >> 40) & 0xff) as u8);
        h.write_byte(((*self >> 48) & 0xff) as u8);
        h.write_byte(((*self >> 56) & 0xff) as u8);
    }

    fn key_eq(&self, other: &Self) -> (r: bool) {
        *self == *other
    }
}

/// The bucket a key with the given salted hash falls into, out of
/// `cap` buckets.
pub open spec fn spec_bucket<K: HashKey>(salt: u128, k: K, cap: int) -> int {
    ((finish_spec(k.feed_spec(salt)) as usize) as int) % cap
}

/// Some bucket of `bs` holds exactly the pair `(k, v)`.
pub open spec fn buckets_contain<K, V>(bs: Seq<Vec<(K, V)>>, k: K, v: V) -> bool {
    exists|i: int, j: int|
        0 <= i < bs.len() && 0 <= j < bs[i]@.len() && #[trigger] bs[i]@[j] == (k, v)
}

/// Some entry of the single bucket `b` is exactly the pair `(k, v)`.
pub open spec fn bucket_contains<K, V>(b: Seq<(K, V)>, k: K, v: V) -> bool {
    exists|j: int| 0 <= j < b.len() && #[trigger] b[j] == (k, v)
}

/// Total number of pairs stored across the buckets.
pub open spec fn bucket_sizes<K, V>(bs: Seq<Vec<(K, V)>>) -> int
    decreases bs.len(),
{
    if bs.len() == 0 {
        0
    } else {
        bucket_sizes(bs.drop_last()) + bs.last()@.len()
    }
}

/// Replacing one bucket changes the total count by the difference of
/// the bucket lengths.
proof fn lemma_bucket_sizes_update<K, V>(bs: Seq<Vec<(K, V)>>, i: int, b: Vec<(K, V)>)
    requires
        0 <= i < bs.len(),
    ensures
        bucket_sizes(bs.update(i, b)) == bucket_sizes(bs) - bs[i]@.len() + b@.len(),
    decreases bs.len(),
{
    if i == bs.len() - 1 {
        assert(bs.update(i, b).drop_last() =~= bs.drop_last());
        assert(bs.update(i, b).last() == b);
    } else {
        lemma_bucket_sizes_update(bs.drop_last(), i, b);
        assert(bs.update(i, b).drop_last() =~= bs.drop_last().update(i, b));
        assert(bs.update(i, b).last() == bs.last());
    }
}

/// A table of empty buckets holds no pairs.
proof fn lemma_bucket_sizes_empty<K, V>(bs: Seq<Vec<(K, V)>>)
    requires
        forall|i: int| 0 <= i < bs.len() ==> (#[trigger] bs[i])@.len() == 0,
    ensures
        bucket_sizes(bs) == 0,
    decreases bs.len(),
{
    if bs.len() > 0 {
        lemma_bucket_sizes_empty(bs.drop_last());
    }
}

/// Separate-chaining hash map.
pub struct HashMap<K, V> {
    /// The buckets; a pair lives in the bucket its key hashes to.
    pub items: Vec<Vec<(K, V)>>,
    /// Salt mixed into every hash; fixed at construction.
    pub hash_salt: u128,
    /// Number of pairs stored.
    pub size: usize,
}

impl<K: HashKey, V> HashMap<K, V> {
    /// The bucket the key `k` falls into.
    pub open spec fn bucket_of(self, k: K) -> int {
        spec_bucket(self.hash_salt, k, self.items@.len() as int)
    }

    /// There is at least one bucket, every stored pair sits in the
    /// bucket its key hashes to, no bucket holds one key twice, and
    /// `size` counts the stored pairs.
    pub open spec fn wf(self) -> bool {
        &&& self.items@.len() >= 1
        &&& self.size == bucket_sizes(self.items@)
        &&& (forall|i: int, j: int|
            0 <= i < self.items@.len() && 0 <= j < self.items@[i]@.len() ==> self.bucket_of(
                (#[trigger] self.items@[i]@[j]).0,
            ) == i)
        &&& (forall|i: int, j1: int, j2: int|
            0 <= i < self.items@.len() && 0 <= j1 < self.items@[i]@.len() && 0 <= j2
                < self.items@[i]@.len() && j1 != j2 ==> (#[trigger] self.items@[i]@[j1]).0 != (
            #[trigger] self.items@[i]@[j2]).0)
    }

    /// The pair `(k, v)` is stored in the map.
    pub open spec fn contains_pair(self, k: K, v: V) -> bool {
        buckets_contain(self.items@, k, v)
    }

    /// The value stored for `k`, if any.
    pub open spec fn spec_get(self, k: K) -> Option<V> {
        if exists|v: V| self.contains_pair(k, v) {
            Some(choose|v: V| self.contains_pair(k, v))
        } else {
            None
        }
    }

    /// Under `wf`, a stored pair is what `spec_get` answers for its key.
    pub proof fn lemma_get_of_contained(self, k: K, v: V)
        requires
            self.wf(),
            self.contains_pair(k, v),
        ensures
            self.spec_get(k) == Some(v),
    {
        let vv = choose|vv: V| self.contains_pair(k, vv);
        let (i1, j1): (int, int) = choose|i: int, j: int|
            0 <= i < self.items@.len() && 0 <= j < self.items@[i]@.len()
                && #[trigger] self.items@[i]@[j] == (k, v);
        let (i2, j2): (int, int) = choose|i: int, j: int|
            0 <= i < self.items@.len() && 0 <= j < self.items@[i]@.len()
                && #[trigger] self.items@[i]@[j] == (k, vv);
        assert(self.items@[i1]@[j1].0 == k && self.items@[i2]@[j2].0 == k);
        assert(i1 == self.bucket_of(k) && i2 == self.bucket_of(k));
        if j1 != j2 {
            assert(self.items@[i1]@[j1].0 != self.items@[i1]@[j2].0);
        }
        assert(v == vv);
    }

    /// An empty map with `cap` buckets and the given hash salt.  The
    /// salt comes from the embedder (typically boot-time entropy) and
    /// stays fixed for the map's lifetime.
    pub fn with_capacity(cap: usize, hash_salt: u128) -> (r: Self)
        requires
            1 <= cap,
        ensures
            r.wf(),
            r.items@.len() == cap,
            r.hash_salt == hash_salt,
            r.size == 0,
            forall|k: K, v: V| !r.contains_pair(k, v),
            forall|k: K| r.spec_get(k) is None,
    {
        let mut items: Vec<Vec<(K, V)>> = Vec::new();
        while items.len() < cap
            invariant
                items@.len() <= cap,
                forall|i: int| 0 <= i < items@.len() ==> (#[trigger] items@[i])@.len() == 0,
            decreases cap - items@.len(),
        {
            items.push(Vec::new());
        }
        proof {
            lemma_bucket_sizes_empty(items@);
        }
        HashMap { items, hash_salt, size: 0 }
    }

    /// An empty map with sixteen buckets and a zero salt.
    ///
    /// The zero salt makes the bucket layout deterministic and offers
    /// no protection against adversarial key sets; an embedder that
    /// wants a salted map passes boot-time entropy to `with_capacity`
    /// instead.
    pub fn new() -> (r: Self)
        ensures
            r.wf(),
            r.items@.len() == 16,
            r.hash_salt == 0,
            r.size == 0,
            forall|k: K, v: V| !r.contains_pair(k, v),
            forall|k: K| r.spec_get(k) is None,
    {
        Self::with_capacity(16, 0)
    }

    /// The bucket index of `key` among `cap` buckets under `salt`.
    fn bucket_index(salt: u128, key: &K, cap: usize) -> (r: usize)
        requires
            cap >= 1,
        ensures
            r == spec_bucket(salt, *key, cap as int),
            r < cap,
    {
        let mut hasher = SimpleHasher(salt);
        key.feed(&mut hasher);
        (hasher.finish() as usize) % cap
    }

    /// The bucket index of `key` in this map.
    fn hash(&self, key: &K) -> (r: usize)
        requires
            self.wf(),
        ensures
            r == self.bucket_of(*key),
            r < self.items@.len(),
    {
        Self::bucket_index(self.hash_salt, key, self.items.len())
    }

    /// Store `value` under `key`: the pair is in the map afterwards,
    /// every other key keeps its association, and an existing value
    /// under the same key is replaced in place without growing the
    /// map.  When the load factor has reached three quarters, the
    /// bucket array is doubled first.
    #[verifier::loop_isolation(false)]
    pub fn insert(&mut self, key: K, value: V)
        requires
            old(self).wf(),
            old(self).size <= usize::MAX / 4,
            old(self).items@.len() <= usize::MAX / 3,
        ensures
            final(self).wf(),
            final(self).hash_salt == old(self).hash_salt,
            old(self).spec_get(key) is Some ==> final(self).size == old(self).size,
            old(self).spec_get(key) is None ==> final(self).size == old(self).size + 1,
            old(self).size * 4 >= old(self).items@.len() * 3 ==> final(self).items@.len() == 2
                * old(self).items@.len(),
            old(self).size * 4 < old(self).items@.len() * 3 ==> final(self).items@.len() == old(
                self,
            ).items@.len(),
            final(self).contains_pair(key, value),
            forall|k2: K, v2: V|
                k2 != key ==> (final(self).contains_pair(k2, v2) <==> old(self).contains_pair(
                    k2,
                    v2,
                )),
            final(self).spec_get(key) == Some(value),
            forall|k2: K|
                k2 != key ==> #[trigger] final(self).spec_get(k2) == old(self).spec_get(k2),
    {
        let ghost pre = *old(self);
        if self.size * 4 >= self.items.len() * 3 {
            self.resize();
        }
        let ghost grown = *self;
        let idx = self.hash(&key);
        let mut j: usize = 0;
        let blen = self.items[idx].len();
        while j < blen
            invariant
                blen == self.items@[idx as int]@.len(),
                j <= blen,
                *self == grown,
                forall|j2: int|
                    0 <= j2 < j ==> (#[trigger] self.items@[idx as int]@[j2]).0 != key,
            decreases blen - j,
        {
            if self.items[idx][j].0.key_eq(&key) {
                self.items[idx][j].1 = value;
                proof {
                    let bs0 = grown.items@;
                    let bs1 = self.items@;
                    assert(bs1[idx as int]@[j as int] == (key, value));
                    assert(self.contains_pair(key, value));
                    assert(bs1 =~= bs0.update(idx as int, self.items@[idx as int]));
                    lemma_bucket_sizes_update(bs0, idx as int, self.items@[idx as int]);
                    assert(self.wf());
                    assert forall|k2: K, v2: V| k2 != key implies (self.contains_pair(k2, v2)
                        <==> grown.contains_pair(k2, v2)) by {
                        if buckets_contain(bs1, k2, v2) {
                            let (i2, j2): (int, int) = choose|i2: int, j2: int|
                                0 <= i2 < bs1.len() && 0 <= j2 < bs1[i2]@.len()
                                    && #[trigger] bs1[i2]@[j2] == (k2, v2);
                            assert(bs0[i2]@[j2] == (k2, v2));
                        }
                        if buckets_contain(bs0, k2, v2) {
                            let (i2, j2): (int, int) = choose|i2: int, j2: int|
                                0 <= i2 < bs0.len() && 0 <= j2 < bs0[i2]@.len()
                                    && #[trigger] bs0[i2]@[j2] == (k2, v2);
                            assert(bs1[i2]@[j2] == (k2, v2));
                        }
                    }
                    self.lemma_insert_post(pre, grown, key, value);
                    assert(bs0[idx as int]@[j as int].0 == key);
                    assert(grown.contains_pair(key, bs0[idx as int]@[j as int].1));
                    assert(pre.contains_pair(key, bs0[idx as int]@[j as int].1));
                    pre.lemma_get_of_contained(key, bs0[idx as int]@[j as int].1);
                }
                return;
            }
            j = j + 1;
        }
        self.items[idx].push((key, value));
        self.size = self.size + 1;
        proof {
            let bs0 = grown.items@;
            let bs1 = self.items@;
            assert(bs1[idx as int]@[blen as int] == (key, value));
            assert(self.contains_pair(key, value));
            assert(bs1 =~= bs0.update(idx as int, self.items@[idx as int]));
            lemma_bucket_sizes_update(bs0, idx as int, self.items@[idx as int]);
            assert forall|i: int, j1: int, j2: int|
                0 <= i < bs1.len() && 0 <= j1 < bs1[i]@.len() && 0 <= j2 < bs1[i]@.len() && j1
                    != j2 implies (#[trigger] bs1[i]@[j1]).0 != (#[trigger] bs1[i]@[j2]).0 by {
                if i == idx as int {
                    assert(grown.bucket_of(key) == idx as int);
                    if j1 < blen as int && j2 < blen as int {
                        assert(bs0[i]@[j1] == bs1[i]@[j1] && bs0[i]@[j2] == bs1[i]@[j2]);
                    } else if j1 == blen as int {
                        assert(bs1[i]@[j2].0 != key);
                    } else if j2 == blen as int {
                        assert(bs1[i]@[j1].0 != key);
                    }
                } else {
                    assert(bs0[i]@[j1] == bs1[i]@[j1] && bs0[i]@[j2] == bs1[i]@[j2]);
                }
            }
            assert(self.wf());
            assert forall|k2: K, v2: V| k2 != key implies (self.contains_pair(k2, v2)
                <==> grown.contains_pair(k2, v2)) by {
                if buckets_contain(bs1, k2, v2) {
                    let (i2, j2): (int, int) = choose|i2: int, j2: int|
                        0 <= i2 < bs1.len() && 0 <= j2 < bs1[i2]@.len() && #[trigger] bs1[i2]@[j2]
                            == (k2, v2);
                    assert(bs0[i2]@[j2] == (k2, v2));
                }
                if buckets_contain(bs0, k2, v2) {
                    let (i2, j2): (int, int) = choose|i2: int, j2: int|
                        0 <= i2 < bs0.len() && 0 <= j2 < bs0[i2]@.len() && #[trigger] bs0[i2]@[j2]
                            == (k2, v2);
                    assert(bs1[i2]@[j2] == (k2, v2));
                }
            }
            self.lemma_insert_post(pre, grown, key, value);
            assert forall|v: V| !pre.contains_pair(key, v) by {
                if pre.contains_pair(key, v) {
                    assert(grown.contains_pair(key, v));
                    let (i2, j2): (int, int) = choose|i2: int, j2: int|
                        0 <= i2 < bs0.len() && 0 <= j2 < bs0[i2]@.len() && #[trigger] bs0[i2]@[j2]
                            == (key, v);
                    assert(grown.bucket_of(key) == idx as int);
                    assert(i2 == idx as int);
                    assert((bs0[i2]@[j2]).0 != key);
                }
            }
            assert(pre.spec_get(key) is None);
        }
    }

    /// From pair-level facts to `spec_get`-level facts, through the
    /// intermediate state `grown` left by the optional resize.
    proof fn lemma_insert_post(self, pre: Self, grown: Self, key: K, value: V)
        requires
            pre.wf(),
            grown.wf(),
            self.wf(),
            forall|k2: K, v2: V|
                #[trigger] grown.contains_pair(k2, v2) <==> pre.contains_pair(k2, v2),
            self.contains_pair(key, value),
            forall|k2: K, v2: V|
                k2 != key ==> (#[trigger] self.contains_pair(k2, v2) <==> grown.contains_pair(
                    k2,
                    v2,
                )),
        ensures
            self.spec_get(key) == Some(value),
            forall|k2: K, v2: V|
                k2 != key ==> (#[trigger] self.contains_pair(k2, v2) <==> pre.contains_pair(
                    k2,
                    v2,
                )),
            forall|k2: K| k2 != key ==> #[trigger] self.spec_get(k2) == pre.spec_get(k2),
    {
        self.lemma_get_of_contained(key, value);
        assert forall|k2: K| k2 != key implies #[trigger] self.spec_get(k2) == pre.spec_get(
            k2,
        ) by {
            if exists|v2: V| self.contains_pair(k2, v2) {
                let v2 = choose|v2: V| self.contains_pair(k2, v2);
                assert(pre.contains_pair(k2, v2));
                self.lemma_get_of_contained(k2, v2);
                pre.lemma_get_of_contained(k2, v2);
            } else if exists|v2: V| pre.contains_pair(k2, v2) {
                let v2 = choose|v2: V| pre.contains_pair(k2, v2);
                assert(self.contains_pair(k2, v2));
            }
        }
    }

    /// Double the bucket count and move every pair into the bucket its
    /// key hashes to under the new count.  The stored pairs, the salt
    /// and the size are unchanged.
    #[verifier::loop_isolation(false)]
    fn resize(&mut self)
        requires
            old(self).wf(),
            old(self).items@.len() <= usize::MAX / 2,
        ensures
            final(self).wf(),
            final(self).hash_salt == old(self).hash_salt,
            final(self).size == old(self).size,
            final(self).items@.len() == 2 * old(self).items@.len(),
            forall|k: K, v: V|
                #[trigger] final(self).contains_pair(k, v) <==> old(self).contains_pair(k, v),
    {
        let ghost orig = *old(self);
        let new_cap = self.items.len() * 2;
        let mut new_items: Vec<Vec<(K, V)>> = Vec::new();
        while new_items.len() < new_cap
            invariant
                new_items@.len() <= new_cap,
                forall|i: int| 0 <= i < new_items@.len() ==> (#[trigger] new_items@[i])@.len() == 0,
            decreases new_cap - new_items@.len(),
        {
            new_items.push(Vec::new());
        }
        proof {
            lemma_bucket_sizes_empty(new_items@);
            assert(self.items@ =~= orig.items@);
        }
        while self.items.len() > 0
            invariant
                self.hash_salt == orig.hash_salt,
                self.size == orig.size,
                new_items@.len() == new_cap,
                bucket_sizes(self.items@) + bucket_sizes(new_items@) == bucket_sizes(
                    orig.items@,
                ),
                self.items@.len() <= orig.items@.len(),
                forall|i: int| 0 <= i < self.items@.len() ==> self.items@[i] == orig.items@[i],
                forall|i: int, j: int|
                    0 <= i < new_cap && 0 <= j < new_items@[i]@.len() ==> spec_bucket(
                        orig.hash_salt,
                        (#[trigger] new_items@[i]@[j]).0,
                        new_cap as int,
                    ) == i,
                forall|i: int, j1: int, j2: int|
                    0 <= i < new_cap && 0 <= j1 < new_items@[i]@.len() && 0 <= j2
                        < new_items@[i]@.len() && j1 != j2 ==> (#[trigger] new_items@[i]@[j1]).0
                        != (#[trigger] new_items@[i]@[j2]).0,
                forall|k: K, v: V|
                    #[trigger] orig.contains_pair(k, v) <==> (buckets_contain(self.items@, k, v)
                        || buckets_contain(new_items@, k, v)),
                forall|k: K, v1: V, v2: V|
                    !(#[trigger] buckets_contain(self.items@, k, v1)
                        && #[trigger] buckets_contain(new_items@, k, v2)),
            decreases self.items@.len(),
        {
            let ghost items_before = self.items@;
            let mut bucket = self.items.pop().unwrap();
            let ghost src = self.items@.len() as int;
            proof {
                assert(items_before[src] == bucket);
                assert forall|k: K, v: V|
                    #[trigger] buckets_contain(items_before, k, v) <==> (buckets_contain(
                        self.items@,
                        k,
                        v,
                    ) || bucket_contains(bucket@, k, v)) by {
                    if buckets_contain(items_before, k, v) {
                        let (i2, j2): (int, int) = choose|i2: int, j2: int|
                            0 <= i2 < items_before.len() && 0 <= j2 < items_before[i2]@.len()
                                && #[trigger] items_before[i2]@[j2] == (k, v);
                        if i2 == src {
                            assert(bucket_contains(bucket@, k, v));
                        } else {
                            assert(self.items@[i2]@[j2] == (k, v));
                        }
                    }
                    if buckets_contain(self.items@, k, v) {
                        let (i2, j2): (int, int) = choose|i2: int, j2: int|
                            0 <= i2 < self.items@.len() && 0 <= j2 < self.items@[i2]@.len()
                                && #[trigger] self.items@[i2]@[j2] == (k, v);
                        assert(items_before[i2]@[j2] == (k, v));
                    }
                    if bucket_contains(bucket@, k, v) {
                        let j2 = choose|j2: int|
                            0 <= j2 < bucket@.len() && #[trigger] bucket@[j2] == (k, v);
                        assert(items_before[src]@[j2] == (k, v));
                    }
                }
                assert(items_before[src] == orig.items@[src]);
                assert forall|j: int| 0 <= j < bucket@.len() implies spec_bucket(
                    orig.hash_salt,
                    (#[trigger] bucket@[j]).0,
                    orig.items@.len() as int,
                ) == src by {
                    assert(bucket@[j] == orig.items@[src]@[j]);
                    assert(orig.bucket_of((orig.items@[src]@[j]).0) == src);
                }
                assert forall|j1: int, j2: int|
                    0 <= j1 < bucket@.len() && 0 <= j2 < bucket@.len() && j1 != j2 implies (
                bucket@[j1]).0 != (bucket@[j2]).0 by {
                    assert(bucket@[j1] == orig.items@[src]@[j1]);
                    assert(bucket@[j2] == orig.items@[src]@[j2]);
                }
                assert forall|k: K, v1: V, v2: V|
                    !(#[trigger] buckets_contain(self.items@, k, v1)
                        && #[trigger] buckets_contain(new_items@, k, v2)) by {
                    if buckets_contain(self.items@, k, v1) && buckets_contain(new_items@, k, v2) {
                        let (i2, j2): (int, int) = choose|i2: int, j2: int|
                            0 <= i2 < self.items@.len() && 0 <= j2 < self.items@[i2]@.len()
                                && #[trigger] self.items@[i2]@[j2] == (k, v1);
                        assert(items_before[i2]@[j2] == (k, v1));
                        assert(buckets_contain(items_before, k, v1));
                        assert(false);
                    }
                }
                assert forall|k: K, v1: V, v2: V|
                    !(#[trigger] bucket_contains(bucket@, k, v1) && #[trigger] buckets_contain(
                        new_items@,
                        k,
                        v2,
                    )) by {
                    if bucket_contains(bucket@, k, v1) && buckets_contain(new_items@, k, v2) {
                        assert(buckets_contain(items_before, k, v1));
                        assert(false);
                    }
                }
                assert forall|k: K, v1: V, v2: V|
                    !(#[trigger] bucket_contains(bucket@, k, v1) && #[trigger] buckets_contain(
                        self.items@,
                        k,
                        v2,
                    )) by {
                    if bucket_contains(bucket@, k, v1) && buckets_contain(self.items@, k, v2) {
                        let j1 = choose|j1: int|
                            0 <= j1 < bucket@.len() && #[trigger] bucket@[j1] == (k, v1);
                        assert(bucket@[j1] == orig.items@[src]@[j1]);
                        assert(orig.bucket_of(k) == src);
                        let (i2, j2): (int, int) = choose|i2: int, j2: int|
                            0 <= i2 < self.items@.len() && 0 <= j2 < self.items@[i2]@.len()
                                && #[trigger] self.items@[i2]@[j2] == (k, v2);
                        assert(self.items@[i2] == orig.items@[i2]);
                        assert(orig.items@[i2]@[j2] == (k, v2));
                        assert(orig.bucket_of(k) == i2);
                        assert(false);
                    }
                }
            }
            while bucket.len() > 0
                invariant
                    self.hash_salt == orig.hash_salt,
                    self.size == orig.size,
                    new_items@.len() == new_cap,
                    self.items@.len() <= orig.items@.len(),
                    forall|i: int| 0 <= i < self.items@.len() ==> self.items@[i] == orig.items@[i],
                    src == self.items@.len() as int,
                    bucket_sizes(self.items@) + bucket@.len() + bucket_sizes(new_items@)
                        == bucket_sizes(orig.items@),
                    forall|j: int|
                        0 <= j < bucket@.len() ==> spec_bucket(
                            orig.hash_salt,
                            (#[trigger] bucket@[j]).0,
                            orig.items@.len() as int,
                        ) == src,
                    forall|j1: int, j2: int|
                        0 <= j1 < bucket@.len() && 0 <= j2 < bucket@.len() && j1 != j2 ==> (
                        #[trigger] bucket@[j1]).0 != (#[trigger] bucket@[j2]).0,
                    forall|i: int, j: int|
                        0 <= i < new_cap && 0 <= j < new_items@[i]@.len() ==> spec_bucket(
                            orig.hash_salt,
                            (#[trigger] new_items@[i]@[j]).0,
                            new_cap as int,
                        ) == i,
                    forall|i: int, j1: int, j2: int|
                        0 <= i < new_cap && 0 <= j1 < new_items@[i]@.len() && 0 <= j2
                            < new_items@[i]@.len() && j1 != j2 ==> (
                        #[trigger] new_items@[i]@[j1]).0 != (#[trigger] new_items@[i]@[j2]).0,
                    forall|k: K, v: V|
                        #[trigger] orig.contains_pair(k, v) <==> (buckets_contain(
                            self.items@,
                            k,
                            v,
                        ) || bucket_contains(bucket@, k, v) || buckets_contain(new_items@, k, v)),
                    forall|k: K, v1: V, v2: V|
                        !(#[trigger] buckets_contain(self.items@, k, v1)
                            && #[trigger] buckets_contain(new_items@, k, v2)),
                    forall|k: K, v1: V, v2: V|
                        !(#[trigger] bucket_contains(bucket@, k, v1) && #[trigger] buckets_contain(
                            new_items@,
                            k,
                            v2,
                        )),
                    forall|k: K, v1: V, v2: V|
                        !(#[trigger] bucket_contains(bucket@, k, v1) && #[trigger] buckets_contain(
                            self.items@,
                            k,
                            v2,
                        )),
                decreases bucket@.len(),
            {
                let ghost bucket_before = bucket@;
                let ghost new_before = new_items@;
                let pair = bucket.pop().unwrap();
                let ghost k0 = pair.0;
                let ghost v0 = pair.1;
                let nidx = Self::bucket_index(self.hash_salt, &pair.0, new_cap);
                let ghost dst = nidx as int;
                new_items[nidx].push(pair);
                proof {
                    assert(bucket_before[bucket_before.len() - 1] == (k0, v0));
                    assert(new_items@ =~= new_before.update(dst, new_items@[dst]));
                    lemma_bucket_sizes_update(new_before, dst, new_items@[dst]);
                    // Membership in the shrunk bucket and the grown target.
                    assert forall|k: K, v: V|
                        #[trigger] bucket_contains(bucket_before, k, v) <==> (bucket_contains(
                            bucket@,
                            k,
                            v,
                        ) || (k, v) == (k0, v0)) by {
                        if bucket_contains(bucket_before, k, v) {
                            let j2 = choose|j2: int|
                                0 <= j2 < bucket_before.len() && #[trigger] bucket_before[j2] == (
                                k,
                                v,
                                );
                            if j2 < bucket_before.len() - 1 {
                                assert(bucket@[j2] == (k, v));
                            }
                        }
                        if bucket_contains(bucket@, k, v) {
                            let j2 = choose|j2: int|
                                0 <= j2 < bucket@.len() && #[trigger] bucket@[j2] == (k, v);
                            assert(bucket_before[j2] == (k, v));
                        }
                        if (k, v) == (k0, v0) {
                            assert(bucket_before[bucket_before.len() - 1] == (k, v));
                        }
                    }
                    assert forall|k: K, v: V|
                        #[trigger] buckets_contain(new_items@, k, v) <==> (buckets_contain(
                            new_before,
                            k,
                            v,
                        ) || (k, v) == (k0, v0)) by {
                        if buckets_contain(new_items@, k, v) {
                            let (i2, j2): (int, int) = choose|i2: int, j2: int|
                                0 <= i2 < new_items@.len() && 0 <= j2 < new_items@[i2]@.len()
                                    && #[trigger] new_items@[i2]@[j2] == (k, v);
                            if i2 != dst || j2 < new_before[dst]@.len() {
                                assert(new_before[i2]@[j2] == (k, v));
                            }
                        }
                        if buckets_contain(new_before, k, v) {
                            let (i2, j2): (int, int) = choose|i2: int, j2: int|
                                0 <= i2 < new_before.len() && 0 <= j2 < new_before[i2]@.len()
                                    && #[trigger] new_before[i2]@[j2] == (k, v);
                            assert(new_items@[i2]@[j2] == (k, v));
                        }
                        if (k, v) == (k0, v0) {
                            assert(new_items@[dst]@[new_before[dst]@.len() as int] == (k, v));
                        }
                    }
                    // The moved key is in no other bucket of the new table.
                    assert forall|i: int, j1: int, j2: int|
                        0 <= i < new_cap && 0 <= j1 < new_items@[i]@.len() && 0 <= j2
                            < new_items@[i]@.len() && j1 != j2 implies (
                    #[trigger] new_items@[i]@[j1]).0 != (#[trigger] new_items@[i]@[j2]).0 by {
                        if i == dst {
                            if j1 == new_before[dst]@.len() as int {
                                assert(new_before[i]@[j2] == new_items@[i]@[j2]);
                                if new_items@[i]@[j2].0 == k0 {
                                    assert(buckets_contain(new_before, k0, new_before[i]@[j2].1));
                                    assert(bucket_contains(bucket_before, k0, v0));
                                    assert(false);
                                }
                            } else if j2 == new_before[dst]@.len() as int {
                                assert(new_before[i]@[j1] == new_items@[i]@[j1]);
                                if new_items@[i]@[j1].0 == k0 {
                                    assert(buckets_contain(new_before, k0, new_before[i]@[j1].1));
                                    assert(bucket_contains(bucket_before, k0, v0));
                                    assert(false);
                                }
                            } else {
                                assert(new_before[i]@[j1] == new_items@[i]@[j1]);
                                assert(new_before[i]@[j2] == new_items@[i]@[j2]);
                            }
                        } else {
                            assert(new_before[i]@[j1] == new_items@[i]@[j1]);
                            assert(new_before[i]@[j2] == new_items@[i]@[j2]);
                        }
                    }
                    // Keys still waiting in `bucket` or in the remaining
                    // buckets differ from the moved key: in the original
                    // table they all shared or preceded its bucket, and
                    // every key lives in exactly one bucket there.
                    assert forall|k: K, v1: V, v2: V|
                        !(#[trigger] bucket_contains(bucket@, k, v1) && #[trigger] buckets_contain(
                            new_items@,
                            k,
                            v2,
                        )) by {
                        if bucket_contains(bucket@, k, v1) && buckets_contain(new_items@, k, v2) {
                            assert(bucket_contains(bucket_before, k, v1));
                            if (k, v2) == (k0, v0) {
                                let j1 = choose|j1: int|
                                    0 <= j1 < bucket@.len() && #[trigger] bucket@[j1] == (k, v1);
                                assert(bucket_before[j1] == (k, v1));
                                assert(bucket_before[bucket_before.len() - 1].0 == k0);
                                assert((k, v1).0 == k0);
                                assert(false);
                            } else {
                                assert(buckets_contain(new_before, k, v2));
                                assert(false);
                            }
                        }
                    }
                    assert forall|k: K, v1: V, v2: V|
                        !(#[trigger] bucket_contains(bucket@, k, v1) && #[trigger] buckets_contain(
                            self.items@,
                            k,
                            v2,
                        )) by {
                        if bucket_contains(bucket@, k, v1) && buckets_contain(
                            self.items@,
                            k,
                            v2,
                        ) {
                            assert(bucket_contains(bucket_before, k, v1));
                            assert(false);
                        }
                    }
                    assert forall|k: K, v1: V, v2: V|
                        !(#[trigger] buckets_contain(self.items@, k, v1)
                            && #[trigger] buckets_contain(new_items@, k, v2)) by {
                        if buckets_contain(self.items@, k, v1) && buckets_contain(
                            new_items@,
                            k,
                            v2,
                        ) {
                            if (k, v2) == (k0, v0) {
                                let (i2, j2): (int, int) = choose|i2: int, j2: int|
                                    0 <= i2 < self.items@.len() && 0 <= j2
                                        < self.items@[i2]@.len()
                                        && #[trigger] self.items@[i2]@[j2] == (k, v1);
                                assert(self.items@[i2] == orig.items@[i2]);
                                assert(spec_bucket(
                                    orig.hash_salt,
                                    k,
                                    orig.items@.len() as int,
                                ) == i2);
                                assert(spec_bucket(
                                    orig.hash_salt,
                                    k0,
                                    orig.items@.len() as int,
                                ) == src);
                                assert(i2 < src);
                                assert(false);
                            } else {
                                assert(buckets_contain(new_before, k, v2));
                                assert(false);
                            }
                        }
                    }
                }
            }
        }
        self.items = new_items;
        proof {
            assert forall|k: K, v: V|
                #[trigger] self.contains_pair(k, v) <==> orig.contains_pair(k, v) by {}
            assert(self.items@.len() == new_cap);
            assert(self.size == bucket_sizes(self.items@));
        }
    }

    /// The pair at position `(i2, j2)` of the buckets appears somewhere
    /// in `r`.
    pub open spec fn entry_in(self, r: Seq<(&K, &V)>, i2: int, j2: int) -> bool {
        exists|t: int|
            0 <= t < r.len() && *(#[trigger] r[t]).0 == self.items@[i2]@[j2].0 && *r[t].1
                == self.items@[i2]@[j2].1
    }

    /// Every pair of the buckets before `i`, and of bucket `i` before
    /// `j`, appears somewhere in `r`.
    pub open spec fn covers_upto(self, r: Seq<(&K, &V)>, i: int, j: int) -> bool {
        forall|i2: int, j2: int| #![trigger self.entry_in(r, i2, j2)]
            ((0 <= i2 < i && 0 <= j2 < self.items@[i2]@.len()) || (i2 == i && 0 <= j2 < j))
                ==> self.entry_in(r, i2, j2)
    }

    /// Appending a pair that mirrors the entry at `(i, j)` extends the
    /// covered range by one entry.
    proof fn lemma_covers_push(self, r: Seq<(&K, &V)>, i: int, j: int, p: (&K, &V))
        requires
            0 <= i < self.items@.len(),
            0 <= j < self.items@[i]@.len(),
            self.covers_upto(r, i, j),
            *p.0 == self.items@[i]@[j].0,
            *p.1 == self.items@[i]@[j].1,
        ensures
            self.covers_upto(r.push(p), i, j + 1),
    {
        assert forall|i2: int, j2: int| #![trigger self.entry_in(r.push(p), i2, j2)]
            ((0 <= i2 < i && 0 <= j2 < self.items@[i2]@.len()) || (i2 == i && 0 <= j2 < j
                + 1)) implies self.entry_in(r.push(p), i2, j2) by {
            if i2 == i && j2 == j {
                assert(r.push(p)[r.len() as int] == p);
            } else {
                assert(self.entry_in(r, i2, j2));
                let t = choose|t: int|
                    0 <= t < r.len() && *(#[trigger] r[t]).0 == self.items@[i2]@[j2].0 && *r[t].1
                        == self.items@[i2]@[j2].1;
                assert(r.push(p)[t] == r[t]);
            }
        }
    }

    /// A fully covered bucket closes, and coverage moves to the start
    /// of the next bucket.
    proof fn lemma_covers_next_bucket(self, r: Seq<(&K, &V)>, i: int)
        requires
            0 <= i < self.items@.len(),
            self.covers_upto(r, i, self.items@[i]@.len() as int),
        ensures
            self.covers_upto(r, i + 1, 0),
    {
        assert forall|i2: int, j2: int| #![trigger self.entry_in(r, i2, j2)]
            ((0 <= i2 < i + 1 && 0 <= j2 < self.items@[i2]@.len()) || (i2 == i + 1 && 0 <= j2
                < 0)) implies self.entry_in(r, i2, j2) by {
            assert(self.entry_in(r, i2, j2));
        }
    }

    /// Position `t` of `r` mirrors some bucket entry before `(i, j)`.
    pub open spec fn from_before(self, r: Seq<(&K, &V)>, t: int, i: int, j: int) -> bool {
        exists|i2: int, j2: int| #![trigger self.items@[i2]@[j2]]
            ((0 <= i2 < i && 0 <= j2 < self.items@[i2]@.len()) || (i2 == i && 0 <= j2 < j))
                && *r[t].0 == self.items@[i2]@[j2].0 && *r[t].1 == self.items@[i2]@[j2].1
    }

    /// Every position of `r` mirrors some bucket entry before `(i, j)`.
    pub open spec fn sourced_before(self, r: Seq<(&K, &V)>, i: int, j: int) -> bool {
        forall|t: int| 0 <= t < r.len() ==> #[trigger] self.from_before(r, t, i, j)
    }

    /// Appending a mirror of the entry at `(i, j)` keeps every position
    /// sourced from the extended range.
    proof fn lemma_sourced_push(self, r: Seq<(&K, &V)>, i: int, j: int, p: (&K, &V))
        requires
            0 <= i < self.items@.len(),
            0 <= j < self.items@[i]@.len(),
            self.sourced_before(r, i, j),
            *p.0 == self.items@[i]@[j].0,
            *p.1 == self.items@[i]@[j].1,
        ensures
            self.sourced_before(r.push(p), i, j + 1),
    {
        assert forall|t: int| 0 <= t < r.push(p).len() implies #[trigger] self.from_before(
            r.push(p),
            t,
            i,
            j + 1,
        ) by {
            if t < r.len() {
                assert(self.from_before(r, t, i, j));
                let (i2, j2): (int, int) = choose|i2: int, j2: int|
                    ((0 <= i2 < i && 0 <= j2 < self.items@[i2]@.len()) || (i2 == i && 0 <= j2 < j))
                        && *r[t].0 == (#[trigger] self.items@[i2]@[j2]).0 && *r[t].1
                        == self.items@[i2]@[j2].1;
                assert(r.push(p)[t] == r[t]);
                assert(*r.push(p)[t].0 == self.items@[i2]@[j2].0 && *r.push(p)[t].1
                    == self.items@[i2]@[j2].1);
            } else {
                assert(r.push(p)[t] == p);
                assert(*r.push(p)[t].0 == self.items@[i]@[j].0 && *r.push(p)[t].1
                    == self.items@[i]@[j].1);
            }
        }
    }

    /// A fully sourced bucket closes, and the source range moves to the
    /// start of the next bucket.
    proof fn lemma_sourced_next_bucket(self, r: Seq<(&K, &V)>, i: int)
        requires
            0 <= i < self.items@.len(),
            self.sourced_before(r, i, self.items@[i]@.len() as int),
        ensures
            self.sourced_before(r, i + 1, 0),
    {
        assert forall|t: int| 0 <= t < r.len() implies #[trigger] self.from_before(
            r,
            t,
            i + 1,
            0,
        ) by {
            assert(self.from_before(r, t, i, self.items@[i]@.len() as int));
            let (i2, j2): (int, int) = choose|i2: int, j2: int|
                ((0 <= i2 < i && 0 <= j2 < self.items@[i2]@.len()) || (i2 == i && 0 <= j2
                    < self.items@[i]@.len() as int)) && *r[t].0 == (
                #[trigger] self.items@[i2]@[j2]).0 && *r[t].1 == self.items@[i2]@[j2].1;
            assert(0 <= i2 < i + 1 && 0 <= j2 < self.items@[i2]@.len());
        }
    }

    /// Every stored pair, as references, in bucket order.  Exactly the
    /// pairs of the map appear: each element of the result is a stored
    /// pair, each stored pair occurs at some position, no key occurs
    /// twice, and the number of pairs returned equals `size`.
    #[verifier::loop_isolation(false)]
    pub fn iter(&self) -> (r: Vec<(&K, &V)>)
        requires
            self.wf(),
        ensures
            r@.len() == self.size,
            forall|t: int|
                0 <= t < r@.len() ==> self.contains_pair(*(#[trigger] r@[t]).0, *r@[t].1),
            forall|i: int, j: int|
                0 <= i < self.items@.len() && 0 <= j < self.items@[i]@.len()
                    ==> self.entry_in(r@, i, j),
            forall|t1: int, t2: int|
                0 <= t1 < t2 < r@.len() ==> *(#[trigger] r@[t1]).0 != *(#[trigger] r@[t2]).0,
    {
        let mut r: Vec<(&K, &V)> = Vec::new();
        let mut i: usize = 0;
        while i < self.items.len()
            invariant
                i <= self.items@.len(),
                r@.len() == bucket_sizes(self.items@.subrange(0, i as int)),
                forall|t: int|
                    0 <= t < r@.len() ==> self.contains_pair(*(#[trigger] r@[t]).0, *r@[t].1),
                self.covers_upto(r@, i as int, 0),
                self.sourced_before(r@, i as int, 0),
                forall|t1: int, t2: int|
                    0 <= t1 < t2 < r@.len() ==> *(#[trigger] r@[t1]).0 != *(#[trigger] r@[t2]).0,
            decreases self.items@.len() - i,
        {
            let mut j: usize = 0;
            while j < self.items[i].len()
                invariant
                    i < self.items@.len(),
                    j <= self.items@[i as int]@.len(),
                    r@.len() == bucket_sizes(self.items@.subrange(0, i as int)) + j,
                    forall|t: int|
                        0 <= t < r@.len() ==> self.contains_pair(*(#[trigger] r@[t]).0, *r@[t].1),
                    self.covers_upto(r@, i as int, j as int),
                    self.sourced_before(r@, i as int, j as int),
                    forall|t1: int, t2: int|
                        0 <= t1 < t2 < r@.len() ==> *(#[trigger] r@[t1]).0
                            != *(#[trigger] r@[t2]).0,
                decreases self.items@[i as int]@.len() - j,
            {
                let ghost r_before = r@;
                let entry = &self.items[i][j];
                r.push((&entry.0, &entry.1));
                proof {
                    assert(*entry == self.items@[i as int]@[j as int]);
                    assert(r@[r@.len() - 1] == (&entry.0, &entry.1));
                    assert forall|t: int|
                        0 <= t < r@.len() implies self.contains_pair(
                        *(#[trigger] r@[t]).0,
                        *r@[t].1,
                    ) by {
                        if t == r@.len() - 1 {
                            assert(self.items@[i as int]@[j as int] == (*r@[t].0, *r@[t].1));
                            assert(buckets_contain(self.items@, *r@[t].0, *r@[t].1));
                        } else {
                            assert(r@[t] == r_before[t]);
                        }
                    }
                    self.lemma_covers_push(
                        r_before,
                        i as int,
                        j as int,
                        (&entry.0, &entry.1),
                    );
                    self.lemma_sourced_push(
                        r_before,
                        i as int,
                        j as int,
                        (&entry.0, &entry.1),
                    );
                    assert forall|t1: int, t2: int| 0 <= t1 < t2 < r@.len() implies *(
                    #[trigger] r@[t1]).0 != *(#[trigger] r@[t2]).0 by {
                        if t2 < r@.len() - 1 {
                            assert(r@[t1] == r_before[t1] && r@[t2] == r_before[t2]);
                        } else {
                            assert(r@[t1] == r_before[t1]);
                            assert(self.from_before(r_before, t1, i as int, j as int));
                            let (i2, j2): (int, int) = choose|i2: int, j2: int|
                                ((0 <= i2 < i as int && 0 <= j2 < self.items@[i2]@.len()) || (i2
                                    == i as int && 0 <= j2 < j as int)) && *r_before[t1].0 == (
                                #[trigger] self.items@[i2]@[j2]).0 && *r_before[t1].1
                                    == self.items@[i2]@[j2].1;
                            if *r@[t1].0 == *r@[t2].0 {
                                assert(self.items@[i2]@[j2].0
                                    == self.items@[i as int]@[j as int].0);
                                assert(self.bucket_of(self.items@[i2]@[j2].0) == i2);
                                assert(self.bucket_of(self.items@[i as int]@[j as int].0) == i as int);
                                assert(false);
                            }
                        }
                    }
                }
                j = j + 1;
            }
            proof {
                self.lemma_covers_next_bucket(r@, i as int);
                self.lemma_sourced_next_bucket(r@, i as int);
                assert(self.items@.subrange(0, i as int + 1).drop_last() =~= self.items@.subrange(
                    0,
                    i as int,
                ));
                assert(self.items@.subrange(0, i as int + 1).last() == self.items@[i as int]);
            }
            i = i + 1;
        }
        proof {
            assert(self.items@.subrange(0, self.items@.len() as int) =~= self.items@);
            assert forall|i2: int, j2: int|
                0 <= i2 < self.items@.len() && 0 <= j2 < self.items@[i2]@.len() implies self.entry_in(
                r@,
                i2,
                j2,
            ) by {
                assert(self.entry_in(r@, i2, j2));
            }
        }
        r
    }
}

} // verus!
