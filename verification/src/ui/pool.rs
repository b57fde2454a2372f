//! Widget ids, the hashing that derives them, and the fixed-size pools that
//! keep state for the ids seen in recent frames.

use vstd::prelude::*;

verus! {

/// The identity of a widget or container, a hash of its name and of the ids it is nested in.
#[derive(Clone, Copy, Debug, PartialEq, Eq, Structural)]
pub struct Id(u32);

impl View for Id {
    type V = u32;

    closed spec fn view(&self) -> u32 {
        self.0
    }
}

impl Id {
    /// The hash value of the id.
    pub fn value(&self) -> (r: u32)
        ensures
            r == self@,
    {
        self.0
    }
}

impl Default for Id {
    fn default() -> (r: Id)
        ensures
            r@ == 0,
    {
        Id(0)
    }
}

/// A reference to a container, by its index in the container table.
#[derive(Clone, Copy, Debug, PartialEq, Eq, Structural)]
pub struct ContRef(pub usize);

impl Default for ContRef {
    fn default() -> (r: ContRef)
        ensures
            r.0 == 0,
    {
        ContRef(0)
    }
}

/// The seed of every id hash.
pub const HASH_SEED: u32 = 2166136261;

/// The multiplier of one hash step.
pub const HASH_PRIME: u32 = 16777619;

/// One hash step: the value is mixed into the hash, which is then multiplied modulo 2^32.
pub open spec fn spec_hash_step(h: u32, n: u32) -> u32 {
    (((h ^ n) as nat * HASH_PRIME as nat) % 0x1_0000_0000nat) as u32
}

/// The hash `h` after mixing in every value of `s` in turn.
pub open spec fn spec_hash_seq(h: u32, s: Seq<u32>) -> u32
    decreases s.len(),
{
    if s.len() == 0 {
        h
    } else {
        spec_hash_step(spec_hash_seq(h, s.drop_last()), s.last())
    }
}

/// The bytes of `v`, most significant first.
pub open spec fn spec_be_bytes(v: u32) -> Seq<u32> {
    seq![(v >> 24u32) & 0xffu32, (v >> 16u32) & 0xffu32, (v >> 8u32) & 0xffu32, v & 0xffu32]
}

/// The code points of `s`.
pub open spec fn spec_char_codes(s: Seq<char>) -> Seq<u32> {
    s.map_values(|c: char| c as u32)
}

/// The values of `s`, widened.
pub open spec fn spec_byte_values(s: Seq<u8>) -> Seq<u32> {
    s.map_values(|b: u8| b as u32)
}

pub fn hash_step(h: u32, n: u32) -> (r: u32)
    ensures
        r == spec_hash_step(h, n),
{
    (h ^ n).wrapping_mul(HASH_PRIME)
}

proof fn lemma_hash_seq_push(h: u32, s: Seq<u32>, v: u32)
    ensures
        spec_hash_seq(h, s.push(v)) == spec_hash_step(spec_hash_seq(h, s), v),
{
    assert(s.push(v).drop_last() =~= s);
}

/// Mixes the four bytes of `orig_id`, most significant first, into `hash_0`.
pub fn hash_u32(hash_0: &mut Id, orig_id: u32)
    ensures
        final(hash_0)@ == spec_hash_seq(old(hash_0)@, spec_be_bytes(orig_id)),
{
    let bytes: [u32; 4] = [(orig_id >> 24u32) & 0xff, (orig_id >> 16u32) & 0xff, (orig_id >> 8u32) & 0xff, orig_id & 0xff];
    let ghost s = spec_be_bytes(orig_id);
    let ghost h0 = hash_0.0;
    assert(bytes@ =~= s);
    let mut i: usize = 0;
    while i < 4
        invariant
            i <= 4,
            bytes@ == s,
            s.len() == 4,
            hash_0.0 == spec_hash_seq(h0, s.take(i as int)),
        decreases 4 - i,
    {
        proof {
            lemma_hash_seq_push(h0, s.take(i as int), s[i as int]);
            assert(s.take(i as int).push(s[i as int]) =~= s.take(i + 1));
        }
        *hash_0 = Id(hash_step(hash_0.0, bytes[i]));
        i += 1;
    }
    assert(s.take(4) =~= s);
}

/// Mixes the code point of every character of `s`, in order, into `hash_0`.
pub fn hash_str(hash_0: &mut Id, s: &str)
    ensures
        final(hash_0)@ == spec_hash_seq(old(hash_0)@, spec_char_codes(s@)),
{
    let ghost codes = spec_char_codes(s@);
    let ghost h0 = hash_0.0;
    let n = s.unicode_len();
    let mut i: usize = 0;
    while i < n
        invariant
            i <= n,
            n == s@.len(),
            codes.len() == n,
            codes == spec_char_codes(s@),
            hash_0.0 == spec_hash_seq(h0, codes.take(i as int)),
        decreases n - i,
    {
        let c = s.get_char(i);
        proof {
            lemma_hash_seq_push(h0, codes.take(i as int), codes[i as int]);
            assert(codes.take(i as int).push(codes[i as int]) =~= codes.take(i + 1));
        }
        *hash_0 = Id(hash_step(hash_0.0, c as u32));
        i += 1;
    }
    assert(codes.take(n as int) =~= codes);
}

/// Mixes every byte of `s`, in order, into `hash_0`.
pub fn hash_bytes(hash_0: &mut Id, s: &[u8])
    ensures
        final(hash_0)@ == spec_hash_seq(old(hash_0)@, spec_byte_values(s@)),
{
    let ghost vals = spec_byte_values(s@);
    let ghost h0 = hash_0.0;
    let mut i: usize = 0;
    while i < s.len()
        invariant
            i <= s@.len(),
            vals.len() == s@.len(),
            vals == spec_byte_values(s@),
            hash_0.0 == spec_hash_seq(h0, vals.take(i as int)),
        decreases s@.len() - i,
    {
        proof {
            lemma_hash_seq_push(h0, vals.take(i as int), vals[i as int]);
            assert(vals.take(i as int).push(vals[i as int]) =~= vals.take(i + 1));
        }
        *hash_0 = Id(hash_step(hash_0.0, s[i] as u32));
        i += 1;
    }
    assert(vals.take(s@.len() as int) =~= vals);
}

/// The id with the hash `h`.
pub closed spec fn id_of_hash(h: u32) -> Id {
    Id(h)
}

pub proof fn lemma_id_of_hash(id: Id)
    ensures
        id_of_hash(id@) == id,
{
}

/// The id after one hash step of `h` with `n`.
pub fn id_from_hash_step(h: Id, n: u32) -> (r: Id)
    ensures
        r@ == spec_hash_step(h@, n),
{
    Id(hash_step(h.0, n))
}

/// The id that hashing `s` from the seed `h` gives.
pub fn id_from_str(h: Id, s: &str) -> (r: Id)
    ensures
        r@ == spec_hash_seq(h@, spec_char_codes(s@)),
{
    let mut res = h;
    hash_str(&mut res, s);
    res
}

/// The seed id of a hash chain with nothing above it.
pub fn root_id() -> (r: Id)
    ensures
        r@ == HASH_SEED,
{
    Id(HASH_SEED)
}

/// One slot of a pool: the id it holds and the frame it was last used in.
#[derive(Clone, Copy, Debug)]
pub struct PoolItem {
    pub id: Id,
    pub last_update: usize,
}

impl Default for PoolItem {
    fn default() -> (r: PoolItem)
        ensures
            r.id@ == 0,
            r.last_update == 0,
    {
        PoolItem { id: Id(0), last_update: 0 }
    }
}

/// `N` slots, each holding an id and the frame in which it was last used;
/// a new id takes the slot used least recently.
#[derive(Copy, Clone)]
pub struct Pool<const N: usize> {
    vec: [PoolItem; N],
}

/// The first slot of `items` that holds `id`.
pub open spec fn spec_pool_get(items: Seq<PoolItem>, id: Id) -> Option<usize> {
    if exists|i: int| 0 <= i < items.len() && items[i].id == id {
        let i = choose|i: int| 0 <= i < items.len() && items[i].id == id
            && forall|j: int| 0 <= j < i ==> items[j].id != id;
        Some(i as usize)
    } else {
        None
    }
}

/// `i` is the first of the slots used least recently, and it was last used before `frame`.
pub open spec fn is_alloc_slot(items: Seq<PoolItem>, frame: usize, i: int) -> bool {
    &&& 0 <= i < items.len()
    &&& items[i].last_update < frame
    &&& forall|j: int| 0 <= j < items.len() ==> items[i].last_update <= #[trigger] items[j].last_update
    &&& forall|j: int| 0 <= j < i ==> items[i].last_update < #[trigger] items[j].last_update
}

/// Some slot was last used before `frame`, so `allocate` finds one.
pub open spec fn has_stale_slot(items: Seq<PoolItem>, frame: usize) -> bool {
    exists|i: int| 0 <= i < items.len() && #[trigger] items[i].last_update < frame
}

proof fn lemma_first_match(items: Seq<PoolItem>, id: Id, i: int)
    requires
        0 <= i < items.len(),
        items[i].id == id,
        forall|j: int| 0 <= j < i ==> items[j].id != id,
    ensures
        spec_pool_get(items, id) == Some(i as usize),
{
    let k = choose|k: int| 0 <= k < items.len() && items[k].id == id
        && forall|j: int| 0 <= j < k ==> items[j].id != id;
    assert(0 <= k < items.len() && items[k].id == id && forall|j: int| 0 <= j < k ==> items[j].id != id);
    if k < i {
        assert(items[k].id != id);
    } else if k > i {
        assert(items[i].id != id);
    }
}

impl<const N: usize> Pool<N> {
    /// The slots of the pool.
    pub closed spec fn items(&self) -> Seq<PoolItem> {
        self.vec@
    }

    /// A pool has its `N` slots.
    pub proof fn lemma_len(&self)
        ensures
            self.items().len() == N,
    {
    }

    /// Gives `id` the slot used least recently (the first such), stamped with `frame`.
    pub fn allocate(&mut self, id: Id, frame: usize) -> (r: usize)
        requires
            has_stale_slot(old(self).items(), frame),
        ensures
            is_alloc_slot(old(self).items(), frame, r as int),
            final(self).items() == old(self).items().update(r as int, PoolItem { id, last_update: frame }),
    {
        let mut res: Option<usize> = None;
        let mut latest_update = frame;
        let mut i: usize = 0;
        while i < N
            invariant
                i <= N,
                self.vec@.len() == N,
                self.vec@ == old(self).vec@,
                has_stale_slot(self.vec@, frame),
                latest_update <= frame,
                res is None ==> latest_update == frame,
                forall|j: int| 0 <= j < i ==> latest_update <= #[trigger] self.vec@[j].last_update || self.vec@[j].last_update == latest_update,
                forall|j: int| 0 <= j < i ==> (#[trigger] self.vec@[j].last_update < frame ==> res is Some),
                res matches Some(k) ==> {
                    &&& k < i
                    &&& self.vec@[k as int].last_update == latest_update
                    &&& latest_update < frame
                    &&& forall|j: int| 0 <= j < i ==> latest_update <= #[trigger] self.vec@[j].last_update
                    &&& forall|j: int| 0 <= j < k ==> latest_update < #[trigger] self.vec@[j].last_update
                },
                res is None ==> forall|j: int| 0 <= j < i ==> frame <= #[trigger] self.vec@[j].last_update,
            decreases N - i,
        {
            if self.vec[i].last_update < latest_update {
                latest_update = self.vec[i].last_update;
                res = Some(i);
            }
            i += 1;
        }
        let k = match res {
            Some(k) => k,
            None => {
                proof {
                    let w = choose|w: int| 0 <= w < self.vec@.len() && #[trigger] self.vec@[w].last_update < frame;
                    assert(frame <= self.vec@[w].last_update);
                }
                0
            },
        };
        self.vec[k].id = id;
        self.update(k, frame);
        assert(self.vec@ =~= old(self).vec@.update(k as int, PoolItem { id, last_update: frame }));
        k
    }

    /// Whether some slot was last used before `frame`, so `allocate` finds one.
    pub fn has_stale_slot_exec(&self, frame: usize) -> (b: bool)
        ensures
            b == has_stale_slot(self.items(), frame),
    {
        let mut i: usize = 0;
        while i < N
            invariant
                i <= N,
                self.vec@.len() == N,
                forall|j: int| 0 <= j < i ==> #[trigger] self.vec@[j].last_update >= frame,
            decreases N - i,
        {
            if self.vec[i].last_update < frame {
                assert(self.vec@[i as int].last_update < frame);
                return true;
            }
            i += 1;
        }
        false
    }

    /// The first slot that holds `id`.
    pub fn get(&self, id: Id) -> (r: Option<usize>)
        ensures
            r == spec_pool_get(self.items(), id),
    {
        let mut i: usize = 0;
        while i < N
            invariant
                i <= N,
                self.vec@.len() == N,
                forall|j: int| 0 <= j < i ==> self.vec@[j].id != id,
            decreases N - i,
        {
            if self.vec[i].id == id {
                proof {
                    lemma_first_match(self.vec@, id, i as int);
                }
                return Some(i);
            }
            i += 1;
        }
        None
    }

    /// Marks the slot `idx` as used in `frame`.
    pub fn update(&mut self, idx: usize, frame: usize)
        requires
            idx < N,
        ensures
            final(self).items() == old(self).items().update(
                idx as int,
                PoolItem { id: old(self).items()[idx as int].id, last_update: frame },
            ),
    {
        self.vec[idx].last_update = frame;
        assert(self.vec@ =~= old(self).vec@.update(idx as int, PoolItem { id: old(self).vec@[idx as int].id, last_update: frame }));
    }

    /// Empties the slot `idx`.
    pub fn reset(&mut self, idx: usize)
        requires
            idx < N,
        ensures
            final(self).items().len() == old(self).items().len(),
            forall|j: int| 0 <= j < old(self).items().len() && j != idx ==> #[trigger] final(self).items()[j] == old(self).items()[j],
            final(self).items()[idx as int].id@ == 0,
            final(self).items()[idx as int].last_update == 0,
    {
        self.vec[idx] = PoolItem::default();
    }
}

impl<const N: usize> Default for Pool<N> {
    fn default() -> (r: Self)
        ensures
            r.items().len() == N,
            forall|i: int| 0 <= i < N ==> (#[trigger] r.items()[i]).id@ == 0 && r.items()[i].last_update == 0,
    {
        Pool { vec: [PoolItem { id: Id(0), last_update: 0 }; N] }
    }
}

/// After `allocate(id, frame)`, looking `id` up finds a slot holding it.
pub proof fn lemma_alloc_then_get(before: Seq<PoolItem>, after: Seq<PoolItem>, id: Id, frame: usize, r: usize)
    requires
        is_alloc_slot(before, frame, r as int),
        after == before.update(r as int, PoolItem { id, last_update: frame }),
    ensures
        spec_pool_get(after, id) matches Some(j) && j <= r && after[j as int].id == id,
{
    assert(after[r as int].id == id);
    let k = choose|k: int| 0 <= k < after.len() && after[k].id == id
        && forall|j: int| 0 <= j < k ==> after[j].id != id;
    assert(exists|k: int| 0 <= k < after.len() && after[k].id == id
        && forall|j: int| 0 <= j < k ==> after[j].id != id) by {
        lemma_first_exists(after, id, r as int);
    }
    if k > r {
        assert(after[r as int].id != id);
    }
}

proof fn lemma_first_exists(items: Seq<PoolItem>, id: Id, i: int)
    requires
        0 <= i < items.len(),
        items[i].id == id,
    ensures
        exists|k: int| 0 <= k < items.len() && items[k].id == id
            && forall|j: int| 0 <= j < k ==> items[j].id != id,
    decreases i,
{
    if exists|j: int| 0 <= j < i && items[j].id == id {
        let j = choose|j: int| 0 <= j < i && items[j].id == id;
        lemma_first_exists(items, id, j);
    } else {
        assert(forall|j: int| 0 <= j < i ==> items[j].id != id);
    }
}

/// A pool lookup finds a slot holding the id, and finds nothing only where no slot holds it.
pub proof fn lemma_get_finds(items: Seq<PoolItem>, id: Id)
    requires
        items.len() <= usize::MAX,
    ensures
        spec_pool_get(items, id) matches Some(j) ==> j < items.len() && items[j as int].id == id,
        spec_pool_get(items, id) is None ==> forall|j: int| 0 <= j < items.len() ==> items[j].id != id,
{
    if exists|i: int| 0 <= i < items.len() && items[i].id == id {
        let i = choose|i: int| 0 <= i < items.len() && items[i].id == id;
        lemma_first_exists(items, id, i);
        let k = choose|k: int| 0 <= k < items.len() && items[k].id == id
            && forall|j: int| 0 <= j < k ==> items[j].id != id;
        assert(spec_pool_get(items, id) == Some(k as usize));
    }
}

} // verus!
