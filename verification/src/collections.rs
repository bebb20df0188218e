//! The game's hash containers, read as plain values: a multi-hash set (bucket
//! heads and chain links over a key array) and a map that pairs it with values.
use vstd::prelude::*;

verus! {

/// The game's hash of a key, and key equality.
pub trait GameHash: Sized {
    spec fn spec_hash(&self) -> u64;

    fn hash(&self) -> (res: u64)
        ensures
            res == self.spec_hash(),
    ;

    fn key_eq(&self, other: &Self) -> (res: bool)
        ensures
            res == (*self == *other),
    ;
}

impl GameHash for u8 {
    open spec fn spec_hash(&self) -> u64 {
        *self as u64
    }

    fn hash(&self) -> (res: u64) {
        *self as u64
    }

    fn key_eq(&self, other: &Self) -> (res: bool) {
        *self == *other
    }
}

impl GameHash for i8 {
    open spec fn spec_hash(&self) -> u64 {
        *self as u64
    }

    fn hash(&self) -> (res: u64) {
        *self as u64
    }

    fn key_eq(&self, other: &Self) -> (res: bool) {
        *self == *other
    }
}

impl GameHash for u16 {
    open spec fn spec_hash(&self) -> u64 {
        *self as u64
    }

    fn hash(&self) -> (res: u64) {
        *self as u64
    }

    fn key_eq(&self, other: &Self) -> (res: bool) {
        *self == *other
    }
}

impl GameHash for i16 {
    open spec fn spec_hash(&self) -> u64 {
        *self as u64
    }

    fn hash(&self) -> (res: u64) {
        *self as u64
    }

    fn key_eq(&self, other: &Self) -> (res: bool) {
        *self == *other
    }
}

impl GameHash for u32 {
    open spec fn spec_hash(&self) -> u64 {
        *self as u64
    }

    fn hash(&self) -> (res: u64) {
        *self as u64
    }

    fn key_eq(&self, other: &Self) -> (res: bool) {
        *self == *other
    }
}

impl GameHash for i32 {
    open spec fn spec_hash(&self) -> u64 {
        *self as u64
    }

    fn hash(&self) -> (res: u64) {
        *self as u64
    }

    fn key_eq(&self, other: &Self) -> (res: bool) {
        *self == *other
    }
}

impl GameHash for u64 {
    open spec fn spec_hash(&self) -> u64 {
        *self
    }

    fn hash(&self) -> (res: u64) {
        *self
    }

    fn key_eq(&self, other: &Self) -> (res: bool) {
        *self == *other
    }
}

impl GameHash for i64 {
    open spec fn spec_hash(&self) -> u64 {
        *self as u64
    }

    fn hash(&self) -> (res: u64) {
        *self as u64
    }

    fn key_eq(&self, other: &Self) -> (res: bool) {
        *self == *other
    }
}

impl GameHash for usize {
    open spec fn spec_hash(&self) -> u64 {
        *self as u64
    }

    fn hash(&self) -> (res: u64) {
        *self as u64
    }

    fn key_eq(&self, other: &Self) -> (res: bool) {
        *self == *other
    }
}

impl GameHash for isize {
    open spec fn spec_hash(&self) -> u64 {
        *self as u64
    }

    fn hash(&self) -> (res: u64) {
        *self as u64
    }

    fn key_eq(&self, other: &Self) -> (res: bool) {
        *self == *other
    }
}

/// A 128-bit game GUID as two 64-bit halves.
#[derive(Clone, Copy, Debug, PartialEq, Eq)]
pub struct Guid(pub u64, pub u64);

impl GameHash for Guid {
    open spec fn spec_hash(&self) -> u64 {
        self.0 ^ self.1
    }

    fn hash(&self) -> (res: u64) {
        self.0 ^ self.1
    }

    fn key_eq(&self, other: &Self) -> (res: bool) {
        self.0 == other.0 && self.1 == other.1
    }
}

/// Whether following chain links from `i` reaches the end (a negative link)
/// within `fuel` steps, through indices below `n`.
pub open spec fn chain_ends(next: Seq<i32>, n: int, i: int, fuel: nat) -> bool
    decreases fuel,
{
    if i < 0 {
        true
    } else if fuel == 0 || i >= n || i >= next.len() {
        false
    } else {
        chain_ends(next, n, next[i] as int, (fuel - 1) as nat)
    }
}

/// Whether index `t` lies on the chain that starts at `i`, within `fuel` steps
/// through indices below `n`.
pub open spec fn on_chain(next: Seq<i32>, n: int, i: int, t: int, fuel: nat) -> bool
    decreases fuel,
{
    if i < 0 || fuel == 0 || i >= next.len() || i >= n {
        false
    } else if i == t {
        true
    } else {
        on_chain(next, n, next[i] as int, t, (fuel - 1) as nat)
    }
}

/// The first index on the chain from `i` whose key equals `key`.
pub open spec fn chain_lookup<T>(keys: Seq<T>, next: Seq<i32>, i: int, key: T, fuel: nat) -> Option<int>
    decreases fuel,
{
    if i < 0 || fuel == 0 || i >= next.len() || i >= keys.len() {
        None
    } else if keys[i] == key {
        Some(i)
    } else {
        chain_lookup(keys, next, next[i] as int, key, (fuel - 1) as nat)
    }
}

/// The game's multi-hash set: `hash_keys[b]` is the first key index of bucket
/// `b` (negative when empty), `next_ids[i]` the index after `i` in its bucket.
#[derive(Debug)]
pub struct MultiHashSet<T> {
    pub hash_keys: Vec<i32>,
    pub next_ids: Vec<i32>,
    pub keys: Vec<T>,
}

impl<T: GameHash> MultiHashSet<T> {
    /// The bucket of a key.
    pub open spec fn bucket(&self, key: T) -> int {
        (key.spec_hash() % (self.hash_keys@.len() as u64)) as int
    }

    /// The chain of the key's bucket starts at this index.
    pub open spec fn chain_start(&self, key: T) -> int {
        self.hash_keys@[self.bucket(key)] as int
    }

    /// Every link stays within the keys, and every bucket's chain ends.
    pub open spec fn wf(&self) -> bool {
        &&& self.hash_keys@.len() <= u32::MAX
        &&& self.keys@.len() <= u32::MAX
        &&& self.next_ids@.len() >= self.keys@.len()
        &&& forall|b: int|
            0 <= b < self.hash_keys@.len() ==> chain_ends(
                self.next_ids@,
                self.keys@.len() as int,
                #[trigger] self.hash_keys@[b] as int,
                self.keys@.len() as nat,
            )
    }

    /// Every stored key lies on its own bucket's chain.
    pub open spec fn consistent(&self) -> bool {
        &&& self.keys@.len() > 0 ==> self.hash_keys@.len() > 0
        &&& forall|i: int|
            0 <= i < self.keys@.len() ==> on_chain(
                self.next_ids@,
                self.keys@.len() as int,
                self.chain_start(#[trigger] self.keys@[i]),
                i,
                self.keys@.len() as nat,
            )
    }

    /// What `find_index` answers for a key.
    pub open spec fn lookup(&self, key: T) -> Option<int> {
        if self.hash_keys@.len() == 0 {
            None
        } else {
            chain_lookup(self.keys@, self.next_ids@, self.chain_start(key), key, self.keys@.len() as nat)
        }
    }

    /// The index of `key`: the first index on the chain of its bucket that holds it.
    pub fn find_index(&self, key: &T) -> (res: Option<u32>)
        requires
            self.wf(),
        ensures
            match self.lookup(*key) {
                Some(i) => res == Some(i as u32),
                None => res is None,
            },
    {
        let size = self.hash_keys.len();
        if size == 0 {
            return None;
        }
        let bucket = (key.hash() % (size as u64)) as usize;
        let mut key_index = self.hash_keys[bucket];
        let ghost n = self.keys@.len() as int;
        let ghost mut fuel: nat = n as nat;
        assert(chain_ends(self.next_ids@, n, key_index as int, fuel));
        while key_index >= 0
            invariant
                self.wf(),
                n == self.keys@.len(),
                size == self.hash_keys@.len(),
                size > 0,
                chain_ends(self.next_ids@, n, key_index as int, fuel),
                self.lookup(*key) == chain_lookup(
                    self.keys@,
                    self.next_ids@,
                    key_index as int,
                    *key,
                    fuel,
                ),
            decreases fuel,
        {
            let i = key_index as usize;
            if self.keys[i].key_eq(key) {
                return Some(i as u32);
            }
            key_index = self.next_ids[i];
            proof {
                fuel = (fuel - 1) as nat;
            }
        }
        None
    }

    /// The number of keys.
    pub fn len(&self) -> (res: u32)
        requires
            self.keys@.len() <= u32::MAX,
        ensures
            res == self.keys@.len(),
    {
        self.keys.len() as u32
    }

    /// The indices at the heads of the buckets, in bucket order.
    pub fn iter_indecies(&self) -> (res: Vec<u32>)
        ensures
            res@ == self.hash_keys@.filter(|h: i32| h >= 0).map_values(|h: i32| h as u32),
    {
        let mut res: Vec<u32> = Vec::new();
        let mut b: usize = 0;
        while b < self.hash_keys.len()
            invariant
                b <= self.hash_keys@.len(),
                res@ == self.hash_keys@.take(b as int).filter(|h: i32| h >= 0).map_values(
                    |h: i32| h as u32,
                ),
            decreases self.hash_keys@.len() - b,
        {
            let h = self.hash_keys[b];
            proof {
                assert(self.hash_keys@.take(b + 1).drop_last() =~= self.hash_keys@.take(b as int));
                reveal_with_fuel(Seq::<_>::filter, 1);
            }
            if h >= 0 {
                res.push(h as u32);
            }
            b = b + 1;
            proof {
                assert(res@ =~= self.hash_keys@.take(b as int).filter(|h: i32| h >= 0).map_values(
                    |h: i32| h as u32,
                ));
            }
        }
        assert(self.hash_keys@.take(b as int) =~= self.hash_keys@);
        res
    }

    /// Every bucket head lies within the keys.
    pub open spec fn heads_in_keys(&self) -> bool {
        forall|b: int|
            0 <= b < self.hash_keys@.len() && #[trigger] self.hash_keys@[b] >= 0 ==> self.hash_keys@[b]
                < self.keys@.len()
    }

    /// The keys at the heads of the buckets, in bucket order.
    pub fn iter(&self) -> (res: Vec<&T>)
        requires
            self.heads_in_keys(),
        ensures
            res@.len() == self.hash_keys@.filter(|h: i32| h >= 0).len(),
            forall|i: int|
                0 <= i < res@.len() ==> *#[trigger] res@[i] == self.keys@[self.hash_keys@.filter(
                    |h: i32| h >= 0,
                )[i] as int],
    {
        let heads = self.iter_indecies();
        proof {
            let f = self.hash_keys@.filter(|h: i32| h >= 0);
            assert forall|i: int| 0 <= i < f.len() implies f[i] >= 0 && f[i] < self.keys@.len() by {
                self.hash_keys@.lemma_filter_pred(|h: i32| h >= 0, i);
                assert(f.contains(f[i]));
                self.hash_keys@.lemma_filter_contains_rev(|h: i32| h >= 0, f[i]);
                let b = choose|b: int| 0 <= b < self.hash_keys@.len() && self.hash_keys@[b] == f[i];
                assert(self.hash_keys@[b] >= 0);
            }
        }
        let mut res: Vec<&T> = Vec::new();
        let mut i: usize = 0;
        while i < heads.len()
            invariant
                i <= heads@.len(),
                heads@ == self.hash_keys@.filter(|h: i32| h >= 0).map_values(|h: i32| h as u32),
                forall|k: int| 0 <= k < heads@.len() ==> #[trigger] heads@[k] < self.keys@.len(),
                res@.len() == i,
                forall|k: int| 0 <= k < i ==> *#[trigger] res@[k] == self.keys@[heads@[k] as int],
            decreases heads@.len() - i,
        {
            res.push(&self.keys[heads[i] as usize]);
            i = i + 1;
        }
        res
    }
}

proof fn lemma_on_chain_found<T>(keys: Seq<T>, next: Seq<i32>, i: int, t: int, key: T, fuel: nat)
    requires
        on_chain(next, keys.len() as int, i, t, fuel),
        0 <= t < keys.len(),
        keys[t] == key,
    ensures
        chain_lookup(keys, next, i, key, fuel) matches Some(j) && keys[j] == key,
    decreases fuel,
{
    if keys[i] != key {
        lemma_on_chain_found(keys, next, next[i] as int, t, key, (fuel - 1) as nat);
    }
}

proof fn lemma_lookup_holds_key<T>(keys: Seq<T>, next: Seq<i32>, i: int, key: T, fuel: nat)
    ensures
        chain_lookup(keys, next, i, key, fuel) matches Some(j) ==> 0 <= j < keys.len() && keys[j] == key,
    decreases fuel,
{
    if !(i < 0 || fuel == 0 || i >= next.len() || i >= keys.len()) && keys[i] != key {
        lemma_lookup_holds_key(keys, next, next[i] as int, key, (fuel - 1) as nat);
    }
}

/// In a set where every key lies on its bucket's chain, a lookup finds a key
/// exactly when the set holds it, and then at an index that holds it.
pub proof fn lemma_find_index_finds_stored<T: GameHash>(set: &MultiHashSet<T>, key: T)
    requires
        set.consistent(),
    ensures
        set.lookup(key) matches Some(i) ==> 0 <= i < set.keys@.len() && set.keys@[i] == key,
        set.lookup(key) is Some <==> set.keys@.contains(key),
{
    if set.hash_keys@.len() > 0 {
        lemma_lookup_holds_key(set.keys@, set.next_ids@, set.chain_start(key), key, set.keys@.len() as nat);
    }
    if set.keys@.contains(key) {
        let t = choose|t: int| 0 <= t < set.keys@.len() && set.keys@[t] == key;
        assert(on_chain(
            set.next_ids@,
            set.keys@.len() as int,
            set.chain_start(set.keys@[t]),
            t,
            set.keys@.len() as nat,
        ));
        lemma_on_chain_found(set.keys@, set.next_ids@, set.chain_start(key), t, key, set.keys@.len() as nat);
    }
}

/// The game's multi-hash map: a multi-hash set of keys and the value stored at
/// each key's index.
#[derive(Debug)]
pub struct MultiHashMap<K, V> {
    pub hash_set: MultiHashSet<K>,
    pub values: Vec<V>,
}

impl<K: GameHash, V> MultiHashMap<K, V> {
    pub open spec fn wf(&self) -> bool {
        &&& self.hash_set.wf()
        &&& self.values@.len() >= self.hash_set.keys@.len()
    }

    /// The index of `key` in the key set.
    pub fn find_index(&self, key: &K) -> (res: Option<u32>)
        requires
            self.hash_set.wf(),
        ensures
            match self.hash_set.lookup(*key) {
                Some(i) => res == Some(i as u32),
                None => res is None,
            },
    {
        self.hash_set.find_index(key)
    }

    /// The value stored for `key`.
    pub fn try_get(&self, key: &K) -> (res: Option<&V>)
        requires
            self.wf(),
        ensures
            match self.hash_set.lookup(*key) {
                Some(i) => res == Some(&self.values@[i]),
                None => res is None,
            },
    {
        let index = self.find_index(key)?;
        proof {
            lemma_lookup_holds_key(
                self.hash_set.keys@,
                self.hash_set.next_ids@,
                self.hash_set.chain_start(*key),
                *key,
                self.hash_set.keys@.len() as nat,
            );
        }
        Some(&self.values[index as usize])
    }

    /// The keys paired with the values, in index order, as far as both go.
    pub fn iter(&self) -> (res: Vec<(&K, &V)>)
        ensures
            res@.len() == if self.hash_set.keys@.len() < self.values@.len() {
                self.hash_set.keys@.len()
            } else {
                self.values@.len()
            },
            forall|i: int|
                0 <= i < res@.len() ==> (*#[trigger] res@[i].0 == self.hash_set.keys@[i] && *res@[i].1
                    == self.values@[i]),
    {
        let mut res: Vec<(&K, &V)> = Vec::new();
        let mut i: usize = 0;
        while i < self.hash_set.keys.len() && i < self.values.len()
            invariant
                i <= self.hash_set.keys@.len(),
                i <= self.values@.len(),
                res@.len() == i,
                forall|k: int|
                    0 <= k < i ==> (*#[trigger] res@[k].0 == self.hash_set.keys@[k] && *res@[k].1
                        == self.values@[k]),
            decreases self.values@.len() - i,
        {
            res.push((&self.hash_set.keys[i], &self.values[i]));
            i = i + 1;
        }
        res
    }

    /// The entries at the heads of the buckets, in bucket order: each key
    /// with its value.
    pub fn entries(&self) -> (res: Vec<(&K, &V)>)
        requires
            self.hash_set.heads_in_keys(),
            self.values@.len() >= self.hash_set.keys@.len(),
        ensures
            res@.len() == self.hash_set.hash_keys@.filter(|h: i32| h >= 0).len(),
            forall|i: int|
                0 <= i < res@.len() ==> ({
                    let x = self.hash_set.hash_keys@.filter(|h: i32| h >= 0)[i] as int;
                    *#[trigger] res@[i].0 == self.hash_set.keys@[x] && *res@[i].1 == self.values@[x]
                }),
    {
        let heads = self.hash_set.iter_indecies();
        proof {
            let f = self.hash_set.hash_keys@.filter(|h: i32| h >= 0);
            assert forall|i: int| 0 <= i < f.len() implies f[i] >= 0 && f[i] < self.hash_set.keys@.len() by {
                self.hash_set.hash_keys@.lemma_filter_pred(|h: i32| h >= 0, i);
                assert(f.contains(f[i]));
                self.hash_set.hash_keys@.lemma_filter_contains_rev(|h: i32| h >= 0, f[i]);
                let b = choose|b: int|
                    0 <= b < self.hash_set.hash_keys@.len() && self.hash_set.hash_keys@[b] == f[i];
                assert(self.hash_set.hash_keys@[b] >= 0);
            }
        }
        let mut res: Vec<(&K, &V)> = Vec::new();
        let mut i: usize = 0;
        while i < heads.len()
            invariant
                i <= heads@.len(),
                self.values@.len() >= self.hash_set.keys@.len(),
                heads@ == self.hash_set.hash_keys@.filter(|h: i32| h >= 0).map_values(|h: i32| h as u32),
                forall|k: int| 0 <= k < heads@.len() ==> #[trigger] heads@[k] < self.hash_set.keys@.len(),
                res@.len() == i,
                forall|k: int|
                    0 <= k < i ==> (*#[trigger] res@[k].0 == self.hash_set.keys@[heads@[k] as int] && *res@[k].1
                        == self.values@[heads@[k] as int]),
            decreases heads@.len() - i,
        {
            let x = heads[i] as usize;
            res.push((&self.hash_set.keys[x], &self.values[x]));
            i = i + 1;
        }
        res
    }
}

/// A node of the game's chained hash maps: its key and value, and the node
/// after it in its bucket (`None` at the end).
#[derive(Debug)]
pub struct MapNode<K, V> {
    pub next: Option<usize>,
    pub key: K,
    pub value: V,
}

/// The game's chained hash map: `hash_table[b]` is the first node of bucket
/// `b`, and `hash_size` the number of buckets.
#[derive(Debug)]
pub struct MapInternals<K, V> {
    pub hash_size: u32,
    pub hash_table: Vec<Option<usize>>,
    pub item_count: u32,
    pub nodes: Vec<MapNode<K, V>>,
}

/// The same map as `MapInternals`, laid out with the item count first.
#[derive(Debug)]
pub struct RefMapInternals<K, V> {
    pub item_count: u32,
    pub hash_size: u32,
    pub hash_table: Vec<Option<usize>>,
    pub nodes: Vec<MapNode<K, V>>,
}

/// Every link of the map, from a bucket or a node, names a node.
pub open spec fn links_in_nodes<K, V>(table: Seq<Option<usize>>, nodes: Seq<MapNode<K, V>>) -> bool {
    &&& forall|b: int| 0 <= b < table.len() ==> (#[trigger] table[b] matches Some(n) ==> n < nodes.len())
    &&& forall|i: int| 0 <= i < nodes.len() ==> ((#[trigger] nodes[i]).next matches Some(n) ==> n < nodes.len())
}

/// A walk over a chained hash map: the buckets not yet entered, and the node
/// it stands on.
#[derive(Debug)]
pub struct MapIter<'a, K, V> {
    pub map_arr: &'a [Option<usize>],
    pub nodes: &'a [MapNode<K, V>],
    pub elem: Option<usize>,
    pub index: u32,
}

/// Where a walk goes to find its next node: from node `elem`, or else into the
/// next buckets from `index` until one holds a node (or the buckets run out).
pub open spec fn next_stop(arr: Seq<Option<usize>>, elem: Option<usize>, index: int) -> (Option<usize>, int)
    decreases arr.len() - index,
{
    if elem is Some || !(0 <= index < arr.len()) {
        (elem, index)
    } else {
        next_stop(arr, arr[index], index + 1)
    }
}

impl<'a, K, V> MapIter<'a, K, V> {
    /// The walk's position is within the buckets, and every link names a node.
    pub open spec fn wf(&self) -> bool {
        &&& self.index <= self.map_arr@.len()
        &&& self.map_arr@.len() <= u32::MAX
        &&& links_in_nodes(self.map_arr@, self.nodes@)
        &&& (self.elem matches Some(n) ==> n < self.nodes@.len())
    }

    /// A walk from the first bucket of `hash_size` buckets.
    pub fn new(hash_table: &'a [Option<usize>], nodes: &'a [MapNode<K, V>], hash_size: u32) -> (res: MapIter<'a, K, V>)
        requires
            hash_size <= hash_table@.len(),
        ensures
            res.map_arr@ == hash_table@.take(hash_size as int),
            res.nodes == nodes,
            res.elem is None,
            res.index == 0,
    {
        let map_arr = hash_table.split_at(hash_size as usize).0;
        assert(map_arr@ =~= hash_table@.take(hash_size as int));
        MapIter { map_arr, nodes, elem: None, index: 0 }
    }

    /// The next node: the one the walk stands on, or else the first node of
    /// the next bucket that holds one; the walk moves on to the node after it.
    pub fn next(&mut self) -> (res: Option<usize>)
        requires
            old(self).wf(),
        ensures
            final(self).wf(),
            final(self).map_arr == old(self).map_arr,
            final(self).nodes == old(self).nodes,
            ({
                let (e, idx) = next_stop(old(self).map_arr@, old(self).elem, old(self).index as int);
                &&& final(self).index == idx
                &&& res == e
                &&& match e {
                    Some(v) => final(self).elem == old(self).nodes@[v as int].next,
                    None => final(self).elem is None,
                }
            }),
    {
        while self.elem.is_none()
            invariant
                self.wf(),
                self.map_arr == old(self).map_arr,
                self.nodes == old(self).nodes,
                next_stop(self.map_arr@, self.elem, self.index as int) == next_stop(
                    old(self).map_arr@,
                    old(self).elem,
                    old(self).index as int,
                ),
            decreases self.map_arr@.len() - self.index,
        {
            if self.index as usize == self.map_arr.len() {
                return None;
            }
            self.elem = self.map_arr[self.index as usize];
            self.index = self.index + 1;
        }
        let val = match self.elem {
            Some(v) => v,
            None => 0,
        };
        self.elem = self.nodes[val].next;
        Some(val)
    }
}

impl<K, V> MapInternals<K, V> {
    /// The bucket count lies within the table, and every link names a node.
    pub open spec fn wf(&self) -> bool {
        &&& self.hash_size <= self.hash_table@.len()
        &&& links_in_nodes(self.hash_table@, self.nodes@)
    }

    /// A walk over the map's buckets and nodes.
    pub fn iter(&self) -> (res: MapIter<'_, K, V>)
        requires
            self.wf(),
        ensures
            res.wf(),
            res.map_arr@ == self.hash_table@.take(self.hash_size as int),
            res.nodes@ == self.nodes@,
            res.elem is None,
            res.index == 0,
    {
        MapIter::new(self.hash_table.as_slice(), self.nodes.as_slice(), self.hash_size)
    }
}

impl<K, V> RefMapInternals<K, V> {
    /// The bucket count lies within the table, and every link names a node.
    pub open spec fn wf(&self) -> bool {
        &&& self.hash_size <= self.hash_table@.len()
        &&& links_in_nodes(self.hash_table@, self.nodes@)
    }

    /// A walk over the map's buckets and nodes.
    pub fn iter(&self) -> (res: MapIter<'_, K, V>)
        requires
            self.wf(),
        ensures
            res.wf(),
            res.map_arr@ == self.hash_table@.take(self.hash_size as int),
            res.nodes@ == self.nodes@,
            res.elem is None,
            res.index == 0,
    {
        MapIter::new(self.hash_table.as_slice(), self.nodes.as_slice(), self.hash_size)
    }
}

} // verus!
