//! Model of the shared key-value store and its work queue.
//!
//! The store keeps byte blobs under identifier keys, each with an optional
//! time-to-live, plus one FIFO queue of task payloads. Writes can be grouped
//! in a transaction: after `begin`, every `set`, `expire` and `del` is
//! buffered, `commit` applies the whole buffer in order and `abort` discards
//! it, so a transaction either takes effect as a whole or not at all.
//!
//! The worker's logic is verified against this model; the process talks to
//! the real store with the same operations (`SET`, `EXPIRE`, `DEL`, a
//! list push and pop, and `MULTI`/`EXEC`/`DISCARD`).
use vstd::prelude::*;

verus! {

/// One committed entry: a byte value and an optional TTL in seconds.
pub struct StoreEntry {
    pub key: u128,
    pub value: Vec<u8>,
    pub ttl_secs: Option<u64>,
}

/// Mathematical image of an entry's contents.
pub struct EntryView {
    pub value: Seq<u8>,
    pub ttl_secs: Option<u64>,
}

impl View for StoreEntry {
    type V = EntryView;

    open spec fn view(&self) -> EntryView {
        EntryView { value: self.value@, ttl_secs: self.ttl_secs }
    }
}

/// One buffered write.
pub enum StoreOp {
    Put { key: u128, value: Vec<u8> },
    Expire { key: u128, ttl_secs: u64 },
    Del { key: u128 },
}

/// Mathematical image of a buffered write.
pub enum OpView {
    Put { key: u128, value: Seq<u8> },
    Expire { key: u128, ttl_secs: u64 },
    Del { key: u128 },
}

impl View for StoreOp {
    type V = OpView;

    open spec fn view(&self) -> OpView {
        match self {
            StoreOp::Put { key, value } => OpView::Put { key: *key, value: value@ },
            StoreOp::Expire { key, ttl_secs } => OpView::Expire {
                key: *key,
                ttl_secs: *ttl_secs,
            },
            StoreOp::Del { key } => OpView::Del { key: *key },
        }
    }
}

/// Effect of one write on the committed entries. A `set` stores the value
/// with no TTL, an `expire` puts a TTL on an existing key and does nothing
/// otherwise, a `del` removes the key.
pub open spec fn apply_op(m: Map<u128, EntryView>, op: OpView) -> Map<u128, EntryView> {
    match op {
        OpView::Put { key, value } => m.insert(key, EntryView { value, ttl_secs: None }),
        OpView::Expire { key, ttl_secs } => if m.dom().contains(key) {
            m.insert(key, EntryView { value: m[key].value, ttl_secs: Some(ttl_secs) })
        } else {
            m
        },
        OpView::Del { key } => m.remove(key),
    }
}

/// Effect of a buffer of writes, applied first to last.
pub open spec fn apply_ops(m: Map<u128, EntryView>, ops: Seq<OpView>) -> Map<u128, EntryView>
    decreases ops.len(),
{
    if ops.len() == 0 {
        m
    } else {
        apply_ops(apply_op(m, ops[0]), ops.drop_first())
    }
}

/// Mathematical image of the whole store.
pub struct StoreView {
    /// Committed entries by key.
    pub entries: Map<u128, EntryView>,
    /// The task queue, head first.
    pub queue: Seq<Seq<u8>>,
    /// The open transaction's buffered writes, if one is open.
    pub txn: Option<Seq<OpView>>,
}

/// In-memory model of the store.
pub struct StoreModel {
    entries: Vec<StoreEntry>,
    queue: Vec<Vec<u8>>,
    txn_open: bool,
    txn_ops: Vec<StoreOp>,
}

/// The committed entries of an entry list, later entries winning (the list
/// never holds a key twice, so order does not matter).
pub open spec fn entries_view(s: Seq<StoreEntry>) -> Map<u128, EntryView>
    decreases s.len(),
{
    if s.len() == 0 {
        Map::empty()
    } else {
        entries_view(s.drop_last()).insert(s.last().key, s.last()@)
    }
}

/// The payloads of the queue, head first.
pub open spec fn queue_view(q: Seq<Vec<u8>>) -> Seq<Seq<u8>>
    decreases q.len(),
{
    if q.len() == 0 {
        Seq::empty()
    } else {
        queue_view(q.drop_last()).push(q.last()@)
    }
}

/// The images of a buffer of writes.
pub open spec fn ops_view(s: Seq<StoreOp>) -> Seq<OpView>
    decreases s.len(),
{
    if s.len() == 0 {
        Seq::empty()
    } else {
        ops_view(s.drop_last()).push(s.last()@)
    }
}

/// A key occurs at most once in the entry list.
pub open spec fn unique_keys(s: Seq<StoreEntry>) -> bool {
    forall|i: int, j: int|
        0 <= i < j < s.len() ==> (#[trigger] s[i]).key != (#[trigger] s[j]).key
}

/// The domain of the committed entries is exactly the set of listed keys.
proof fn lemma_entries_view_dom(s: Seq<StoreEntry>, k: u128)
    ensures
        entries_view(s).dom().contains(k) <==> exists|i: int| 0 <= i < s.len() && s[i].key == k,
    decreases s.len(),
{
    if s.len() > 0 {
        lemma_entries_view_dom(s.drop_last(), k);
        if s.last().key == k {
            assert(s[s.len() - 1].key == k);
        } else if entries_view(s).dom().contains(k) {
            let i = choose|i: int| 0 <= i < s.len() - 1 && s.drop_last()[i].key == k;
            assert(s[i].key == k);
        } else if exists|i: int| 0 <= i < s.len() && s[i].key == k {
            let i = choose|i: int| 0 <= i < s.len() && s[i].key == k;
            assert(s.drop_last()[i].key == k);
        }
    }
}

/// With unique keys, each listed entry is what its key maps to.
proof fn lemma_entries_view_index(s: Seq<StoreEntry>, i: int)
    requires
        unique_keys(s),
        0 <= i < s.len(),
    ensures
        entries_view(s).dom().contains(s[i].key),
        entries_view(s)[s[i].key] == s[i]@,
    decreases s.len(),
{
    if i == s.len() - 1 {
    } else {
        assert(unique_keys(s.drop_last())) by {
            assert(forall|a: int, b: int|
                0 <= a < b < s.len() - 1 ==> s.drop_last()[a] == s[a] && s.drop_last()[b]
                    == s[b]);
        }
        lemma_entries_view_index(s.drop_last(), i);
        assert(s.drop_last()[i] == s[i]);
        assert(s[i].key != s.last().key);
    }
}

/// With unique keys, removing a listed entry removes exactly its key.
proof fn lemma_entries_view_remove(s: Seq<StoreEntry>, i: int)
    requires
        unique_keys(s),
        0 <= i < s.len(),
    ensures
        entries_view(s.remove(i)) == entries_view(s).remove(s[i].key),
    decreases s.len(),
{
    assert(unique_keys(s.drop_last())) by {
        assert(forall|a: int, b: int|
            0 <= a < b < s.len() - 1 ==> s.drop_last()[a] == s[a] && s.drop_last()[b] == s[b]);
    }
    if i == s.len() - 1 {
        assert(s.remove(i) =~= s.drop_last());
        assert forall|k: u128| !(exists|j: int|
            0 <= j < s.len() - 1 && s.drop_last()[j].key == k) implies !entries_view(
            s.drop_last(),
        ).dom().contains(k) by {
            lemma_entries_view_dom(s.drop_last(), k);
        }
        assert(!entries_view(s.drop_last()).dom().contains(s.last().key)) by {
            lemma_entries_view_dom(s.drop_last(), s.last().key);
            if exists|j: int| 0 <= j < s.len() - 1 && s.drop_last()[j].key == s.last().key {
                let j = choose|j: int|
                    0 <= j < s.len() - 1 && s.drop_last()[j].key == s.last().key;
                assert(s[j].key == s[s.len() - 1].key);
            }
        }
        assert(entries_view(s.remove(i)) =~= entries_view(s).remove(s[i].key));
    } else {
        lemma_entries_view_remove(s.drop_last(), i);
        assert(s.remove(i).drop_last() =~= s.drop_last().remove(i));
        assert(s.remove(i).last() == s.last());
        assert(entries_view(s.remove(i)) == entries_view(s.drop_last().remove(i)).insert(
            s.last().key,
            s.last()@,
        ));
        assert(s[i].key != s.last().key);
        assert(entries_view(s.remove(i)) =~= entries_view(s).remove(s[i].key));
    }
}

/// Length and contents of the queue image.
proof fn lemma_queue_view(q: Seq<Vec<u8>>)
    ensures
        queue_view(q).len() == q.len(),
        forall|i: int| 0 <= i < q.len() ==> #[trigger] queue_view(q)[i] == q[i]@,
    decreases q.len(),
{
    if q.len() > 0 {
        lemma_queue_view(q.drop_last());
        assert(forall|i: int| 0 <= i < q.len() - 1 ==> q.drop_last()[i] == q[i]);
    }
}

/// Length and contents of the buffer image.
proof fn lemma_ops_view(s: Seq<StoreOp>)
    ensures
        ops_view(s).len() == s.len(),
        forall|i: int| 0 <= i < s.len() ==> #[trigger] ops_view(s)[i] == s[i]@,
    decreases s.len(),
{
    if s.len() > 0 {
        lemma_ops_view(s.drop_last());
        assert(forall|i: int| 0 <= i < s.len() - 1 ==> s.drop_last()[i] == s[i]);
    }
}

/// A fresh byte string with the same contents.
pub fn copy_bytes(v: &Vec<u8>) -> (r: Vec<u8>)
    ensures
        r@ == v@,
{
    let mut r: Vec<u8> = Vec::new();
    let n = v.len();
    let mut i: usize = 0;
    while i < n
        invariant
            0 <= i <= n,
            n == v@.len(),
            r@ == v@.subrange(0, i as int),
        decreases n - i,
    {
        r.push(v[i]);
        proof {
            assert(r@ =~= v@.subrange(0, i + 1));
        }
        i += 1;
    }
    proof {
        assert(r@ =~= v@);
    }
    r
}

impl View for StoreModel {
    type V = StoreView;

    closed spec fn view(&self) -> StoreView {
        StoreView {
            entries: entries_view(self.entries@),
            queue: queue_view(self.queue@),
            txn: if self.txn_open {
                Some(ops_view(self.txn_ops@))
            } else {
                None
            },
        }
    }
}

impl StoreModel {
    /// The model never lists a key twice.
    pub closed spec fn wf(&self) -> bool {
        unique_keys(self.entries@)
    }

    /// An empty store: no entries, no queued tasks, no open transaction.
    pub fn new() -> (r: StoreModel)
        ensures
            r.wf(),
            r@.entries == Map::<u128, EntryView>::empty(),
            r@.queue == Seq::<Seq<u8>>::empty(),
            r@.txn is None,
    {
        let r = StoreModel { entries: Vec::new(), queue: Vec::new(), txn_open: false, txn_ops: Vec::new() };
        proof {
            assert(r@.queue =~= Seq::<Seq<u8>>::empty());
        }
        r
    }

    /// Index of the entry holding `key`, if any.
    fn find(&self, key: u128) -> (r: Option<usize>)
        ensures
            r matches Some(i) ==> 0 <= i < self.entries@.len() && self.entries@[i as int].key
                == key,
            r is None ==> forall|i: int|
                0 <= i < self.entries@.len() ==> (#[trigger] self.entries@[i]).key != key,
    {
        let n = self.entries.len();
        let mut i: usize = 0;
        while i < n
            invariant
                0 <= i <= n,
                n == self.entries@.len(),
                forall|j: int| 0 <= j < i ==> (#[trigger] self.entries@[j]).key != key,
            decreases n - i,
        {
            if self.entries[i].key == key {
                return Some(i);
            }
            i += 1;
        }
        None
    }

    /// Read the committed value under `key`.
    pub fn get(&self, key: u128) -> (r: Option<Vec<u8>>)
        requires
            self.wf(),
        ensures
            r matches Some(v) ==> self@.entries.dom().contains(key) && v@ == self@.entries[
                key
            ].value,
            r is None ==> !self@.entries.dom().contains(key),
    {
        proof {
            lemma_entries_view_dom(self.entries@, key);
        }
        match self.find(key) {
            Some(i) => {
                proof {
                    lemma_entries_view_index(self.entries@, i as int);
                }
                Some(copy_bytes(&self.entries[i].value))
            },
            None => None,
        }
    }

    /// The TTL the store reports for `key`: nothing for a missing key, and
    /// the key's optional expiry otherwise.
    pub fn ttl_secs(&self, key: u128) -> (r: Option<Option<u64>>)
        requires
            self.wf(),
        ensures
            !self@.entries.dom().contains(key) ==> r is None,
            self@.entries.dom().contains(key) ==> r == Some(self@.entries[key].ttl_secs),
    {
        proof {
            lemma_entries_view_dom(self.entries@, key);
        }
        match self.find(key) {
            Some(i) => {
                proof {
                    lemma_entries_view_index(self.entries@, i as int);
                }
                Some(self.entries[i].ttl_secs)
            },
            None => None,
        }
    }

    /// Remove the entry holding `key` from the committed entries, if any.
    fn remove_entry(&mut self, key: u128)
        requires
            old(self).wf(),
        ensures
            final(self).wf(),
            final(self)@.entries == old(self)@.entries.remove(key),
            final(self)@.queue == old(self)@.queue,
            final(self)@.txn == old(self)@.txn,
            final(self).txn_open == old(self).txn_open,
            final(self).txn_ops@ == old(self).txn_ops@,
    {
        proof {
            lemma_entries_view_dom(self.entries@, key);
        }
        match self.find(key) {
            Some(i) => {
                proof {
                    lemma_entries_view_remove(self.entries@, i as int);
                }
                let ghost before = self.entries@;
                self.entries.remove(i);
                proof {
                    assert(self.entries@ =~= before.remove(i as int));
                    assert(unique_keys(self.entries@)) by {
                        assert(forall|a: int|
                            0 <= a < self.entries@.len() ==> #[trigger] self.entries@[a]
                                == if a < i { before[a] } else { before[a + 1] });
                    }
                }
            },
            None => {
                proof {
                    assert(!old(self)@.entries.dom().contains(key));
                    assert(final(self)@.entries =~= old(self)@.entries.remove(key));
                }
            },
        }
    }

    /// Write `value` under `key` with the given TTL, replacing any previous
    /// entry, directly into the committed entries.
    fn upsert(&mut self, key: u128, value: Vec<u8>, ttl_secs: Option<u64>)
        requires
            old(self).wf(),
        ensures
            final(self).wf(),
            final(self)@.entries == old(self)@.entries.insert(
                key,
                EntryView { value: value@, ttl_secs },
            ),
            final(self)@.queue == old(self)@.queue,
            final(self)@.txn == old(self)@.txn,
            final(self).txn_open == old(self).txn_open,
            final(self).txn_ops@ == old(self).txn_ops@,
    {
        self.remove_entry(key);
        let ghost mid = self.entries@;
        let entry = StoreEntry { key, value, ttl_secs };
        self.entries.push(entry);
        proof {
            assert(self.entries@.drop_last() =~= mid);
            assert(unique_keys(self.entries@)) by {
                lemma_entries_view_dom(mid, key);
                assert(forall|a: int|
                    0 <= a < mid.len() ==> #[trigger] self.entries@[a] == mid[a]);
            }
            assert(final(self)@.entries =~= old(self)@.entries.insert(
                key,
                EntryView { value: entry.value@, ttl_secs },
            ));
        }
    }

    /// Open a transaction: later writes are buffered until `commit`.
    pub fn begin(&mut self)
        requires
            old(self).wf(),
            old(self)@.txn is None,
        ensures
            final(self).wf(),
            final(self)@.entries == old(self)@.entries,
            final(self)@.queue == old(self)@.queue,
            final(self)@.txn == Some(Seq::<OpView>::empty()),
    {
        self.txn_open = true;
        self.txn_ops = Vec::new();
        proof {
            assert(ops_view(self.txn_ops@) =~= Seq::<OpView>::empty());
        }
    }

    /// Drop an open transaction without applying its writes.
    pub fn abort(&mut self)
        requires
            old(self).wf(),
        ensures
            final(self).wf(),
            final(self)@.entries == old(self)@.entries,
            final(self)@.queue == old(self)@.queue,
            final(self)@.txn is None,
    {
        self.txn_open = false;
        self.txn_ops = Vec::new();
    }

    /// Apply an open transaction's writes in order, then close it.
    pub fn commit(&mut self)
        requires
            old(self).wf(),
            old(self)@.txn is Some,
        ensures
            final(self).wf(),
            final(self)@.entries == apply_ops(old(self)@.entries, old(self)@.txn->0),
            final(self)@.queue == old(self)@.queue,
            final(self)@.txn is None,
    {
        proof {
            lemma_ops_view(self.txn_ops@);
        }
        while self.txn_ops.len() > 0
            invariant
                self.wf(),
                self.txn_open,
                apply_ops(self@.entries, ops_view(self.txn_ops@)) == apply_ops(
                    old(self)@.entries,
                    old(self)@.txn->0,
                ),
                self@.queue == old(self)@.queue,
            decreases self.txn_ops@.len(),
        {
            let ghost ops_before = self.txn_ops@;
            let op = self.txn_ops.remove(0);
            proof {
                lemma_ops_view(ops_before);
                assert(self.txn_ops@ =~= ops_before.drop_first());
                lemma_ops_view(self.txn_ops@);
                assert(ops_view(self.txn_ops@) =~= ops_view(ops_before).drop_first());
                assert(op@ == ops_view(ops_before)[0]);
            }
            match op {
                StoreOp::Put { key, value } => {
                    self.upsert(key, value, None);
                },
                StoreOp::Expire { key, ttl_secs } => {
                    match self.get(key) {
                        Some(v) => {
                            self.upsert(key, v, Some(ttl_secs));
                        },
                        None => {},
                    }
                },
                StoreOp::Del { key } => {
                    self.remove_entry(key);
                },
            }
        }
        self.txn_open = false;
        proof {
            assert(ops_view(self.txn_ops@) =~= Seq::<OpView>::empty());
        }
    }

    /// Store `value` under `key` (buffered while a transaction is open). A
    /// plain write clears any TTL the key had.
    pub fn set(&mut self, key: u128, value: Vec<u8>)
        requires
            old(self).wf(),
        ensures
            final(self).wf(),
            final(self)@.queue == old(self)@.queue,
            old(self)@.txn matches Some(ops) ==> final(self)@.txn == Some(
                ops.push(OpView::Put { key, value: value@ }),
            ) && final(self)@.entries == old(self)@.entries,
            old(self)@.txn is None ==> final(self)@.txn is None && final(self)@.entries
                == apply_op(old(self)@.entries, OpView::Put { key, value: value@ }),
    {
        if self.txn_open {
            let ghost before = self.txn_ops@;
            self.txn_ops.push(StoreOp::Put { key, value });
            proof {
                assert(self.txn_ops@.drop_last() =~= before);
            }
        } else {
            self.upsert(key, value, None);
        }
    }

    /// Put a TTL of `ttl_secs` seconds on `key` (buffered while a
    /// transaction is open). Without the key the call changes nothing.
    pub fn expire(&mut self, key: u128, ttl_secs: u64)
        requires
            old(self).wf(),
        ensures
            final(self).wf(),
            final(self)@.queue == old(self)@.queue,
            old(self)@.txn matches Some(ops) ==> final(self)@.txn == Some(
                ops.push(OpView::Expire { key, ttl_secs }),
            ) && final(self)@.entries == old(self)@.entries,
            old(self)@.txn is None ==> final(self)@.txn is None && final(self)@.entries
                == apply_op(old(self)@.entries, OpView::Expire { key, ttl_secs }),
    {
        if self.txn_open {
            let ghost before = self.txn_ops@;
            self.txn_ops.push(StoreOp::Expire { key, ttl_secs });
            proof {
                assert(self.txn_ops@.drop_last() =~= before);
            }
        } else {
            match self.get(key) {
                Some(v) => {
                    self.upsert(key, v, Some(ttl_secs));
                },
                None => {},
            }
        }
    }

    /// Delete `key` (buffered while a transaction is open).
    pub fn del(&mut self, key: u128)
        requires
            old(self).wf(),
        ensures
            final(self).wf(),
            final(self)@.queue == old(self)@.queue,
            old(self)@.txn matches Some(ops) ==> final(self)@.txn == Some(
                ops.push(OpView::Del { key }),
            ) && final(self)@.entries == old(self)@.entries,
            old(self)@.txn is None ==> final(self)@.txn is None && final(self)@.entries
                == apply_op(old(self)@.entries, OpView::Del { key }),
    {
        if self.txn_open {
            let ghost before = self.txn_ops@;
            self.txn_ops.push(StoreOp::Del { key });
            proof {
                assert(self.txn_ops@.drop_last() =~= before);
            }
        } else {
            self.remove_entry(key);
        }
    }

    /// Append a task payload at the tail of the queue.
    pub fn push_task(&mut self, payload: Vec<u8>)
        requires
            old(self).wf(),
        ensures
            final(self).wf(),
            final(self)@.entries == old(self)@.entries,
            final(self)@.txn == old(self)@.txn,
            final(self)@.queue == old(self)@.queue.push(payload@),
    {
        let ghost before = self.queue@;
        self.queue.push(payload);
        proof {
            assert(self.queue@.drop_last() =~= before);
            lemma_queue_view(before);
            assert(final(self)@.queue =~= old(self)@.queue.push(payload@));
        }
    }

    /// Atomically remove and return the oldest queued payload, or report the
    /// queue empty.
    pub fn pop_task(&mut self) -> (r: Option<Vec<u8>>)
        requires
            old(self).wf(),
        ensures
            final(self).wf(),
            final(self)@.entries == old(self)@.entries,
            final(self)@.txn == old(self)@.txn,
            old(self)@.queue.len() == 0 ==> r is None && final(self)@.queue == old(self)@.queue,
            old(self)@.queue.len() > 0 ==> (r matches Some(p) && p@ == old(self)@.queue[0]
                && final(self)@.queue == old(self)@.queue.drop_first()),
    {
        proof {
            lemma_queue_view(self.queue@);
        }
        if self.queue.len() == 0 {
            return None;
        }
        let ghost before = self.queue@;
        let p = self.queue.remove(0);
        proof {
            lemma_queue_view(before);
            assert(self.queue@ =~= before.drop_first());
            lemma_queue_view(self.queue@);
            assert(queue_view(self.queue@) =~= queue_view(before).drop_first());
        }
        Some(p)
    }
}

} // verus!
