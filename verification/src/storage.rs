//! In-memory key-value storage that functions on one node share.

use vstd::prelude::*;
use vstd::hash_map::StringHashMap;

verus! {

/// Keys mapped to byte values.
pub struct Storage {
    data: StringHashMap<Vec<u8>>,
}

impl View for Storage {
    type V = Map<Seq<char>, Seq<u8>>;

    closed spec fn view(&self) -> Map<Seq<char>, Seq<u8>> {
        self.data@.map_values(|v: Vec<u8>| v@)
    }
}

impl Storage {
    /// An empty storage.
    pub fn new() -> (r: Storage)
        ensures
            r@ == Map::<Seq<char>, Seq<u8>>::empty(),
    {
        let r = Storage { data: StringHashMap::new() };
        assert(r@ =~= Map::<Seq<char>, Seq<u8>>::empty());
        r
    }

    /// Store `value` under `key`, replacing what was there.
    pub fn put(&mut self, key: String, value: Vec<u8>)
        ensures
            final(self)@ == old(self)@.insert(key@, value@),
    {
        let ghost k = key@;
        let ghost v = value@;
        self.data.insert(key, value);
        assert(self@ =~= old(self)@.insert(k, v));
    }

    /// A copy of the value stored under `key`, if any.
    pub fn get(&self, key: &str) -> (r: Option<Vec<u8>>)
        ensures
            match r {
                Some(v) => self@.contains_key(key@) && v@ == self@[key@],
                None => !self@.contains_key(key@),
            },
    {
        match self.data.get(key) {
            Some(v) => Some(v.clone()),
            None => None,
        }
    }

    /// Remove `key` and its value, if present.
    pub fn delete(&mut self, key: &str)
        ensures
            final(self)@ == old(self)@.remove(key@),
    {
        self.data.remove(key);
        assert(self@ =~= old(self)@.remove(key@));
    }
}

impl Default for Storage {
    fn default() -> (r: Storage)
        ensures
            r@ == Map::<Seq<char>, Seq<u8>>::empty(),
    {
        Storage::new()
    }
}

/// A read after a write of the same key gives back what was written, and a
/// write leaves every other key as it was.
pub proof fn law_read_after_write(before: Map<Seq<char>, Seq<u8>>, key: Seq<char>, value: Seq<u8>, other: Seq<char>)
    ensures
        before.insert(key, value).contains_key(key),
        before.insert(key, value)[key] == value,
        other != key ==> (before.insert(key, value).contains_key(other) == before.contains_key(other)),
        other != key && before.contains_key(other) ==> before.insert(key, value)[other] == before[other],
{
}

/// After a delete the key is absent, and every other key is as it was.
pub proof fn law_read_after_delete(before: Map<Seq<char>, Seq<u8>>, key: Seq<char>, other: Seq<char>)
    ensures
        !before.remove(key).contains_key(key),
        other != key ==> (before.remove(key).contains_key(other) == before.contains_key(other)),
        other != key && before.contains_key(other) ==> before.remove(key)[other] == before[other],
{
}

/// A change made to a storage: a `put` of a value under a key, or a
/// `delete` of a key.
pub enum StorageOp {
    Put(Seq<char>, Seq<u8>),
    Delete(Seq<char>),
}

/// The storage contents after one change, as `put` and `delete` state it.
pub open spec fn apply_op(m: Map<Seq<char>, Seq<u8>>, op: StorageOp) -> Map<Seq<char>, Seq<u8>> {
    match op {
        StorageOp::Put(k, v) => m.insert(k, v),
        StorageOp::Delete(k) => m.remove(k),
    }
}

/// What the first `n` changes leave under `key`: the value of the last
/// `put` of it not followed by a `delete` of it, if there is one.
pub open spec fn last_write(ops: Seq<StorageOp>, key: Seq<char>, n: nat) -> Option<Seq<u8>>
    decreases n,
{
    if n == 0 {
        None
    } else {
        match ops[n - 1] {
            StorageOp::Put(k, v) => if k == key {
                Some(v)
            } else {
                last_write(ops, key, (n - 1) as nat)
            },
            StorageOp::Delete(k) => if k == key {
                None
            } else {
                last_write(ops, key, (n - 1) as nat)
            },
        }
    }
}

/// After `n` changes from an empty storage, each key holds its last write.
proof fn lemma_run_holds_last_write(views: Seq<Map<Seq<char>, Seq<u8>>>, ops: Seq<StorageOp>, key: Seq<char>, n: int)
    requires
        views.len() == ops.len() + 1,
        views[0] == Map::<Seq<char>, Seq<u8>>::empty(),
        forall|i: int| 0 <= i < ops.len() ==> views[i + 1] == #[trigger] apply_op(views[i], ops[i]),
        0 <= n <= ops.len(),
    ensures
        views[n].contains_key(key) <==> last_write(ops, key, n as nat) is Some,
        views[n].contains_key(key) ==> views[n][key] == last_write(ops, key, n as nat)->0,
    decreases n,
{
    if n > 0 {
        let i = n - 1;
        lemma_run_holds_last_write(views, ops, key, i);
        assert(views[i + 1] == apply_op(views[i], ops[i]));
    }
}

/// A read after any run of writes and deletes on a new storage gives the
/// value of the last write of the key not followed by a delete of it, and
/// nothing when there is none; in particular a new storage holds nothing.
pub proof fn law_read_after_run(views: Seq<Map<Seq<char>, Seq<u8>>>, ops: Seq<StorageOp>, key: Seq<char>)
    requires
        views.len() == ops.len() + 1,
        views[0] == Map::<Seq<char>, Seq<u8>>::empty(),
        forall|i: int| 0 <= i < ops.len() ==> views[i + 1] == #[trigger] apply_op(views[i], ops[i]),
    ensures
        views.last().contains_key(key) <==> last_write(ops, key, ops.len()) is Some,
        views.last().contains_key(key) ==> views.last()[key] == last_write(ops, key, ops.len())->0,
{
    lemma_run_holds_last_write(views, ops, key, ops.len() as int);
}

} // verus!
