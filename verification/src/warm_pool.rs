//! The warm pool: for each registered function, whether a snapshot is ready
//! for a fast restore, and how its restores went.

use vstd::prelude::*;

use crate::config::{FunctionConfig, FunctionConfigView};
use crate::criu::{record_position, SnapshotManager, SnapshotManagerView, SnapshotMetadata};
use crate::error::CriuError;
use crate::state::FunctionState;
use crate::types::FunctionId;

verus! {

/// One function's place in the warm pool.
#[derive(Debug)]
pub struct WarmPoolEntry {
    pub function_id: FunctionId,
    pub config: FunctionConfig,
    pub snapshot_pid: Option<u32>,
    pub has_snapshot: bool,
    pub restore_count: u64,
    pub last_restore_ms: Option<u64>,
}

/// A warm pool entry as plain values.
pub struct WarmPoolEntryView {
    pub function_id: Seq<char>,
    pub config: FunctionConfigView,
    pub snapshot_pid: Option<u32>,
    pub has_snapshot: bool,
    pub restore_count: u64,
    pub last_restore_ms: Option<u64>,
}

impl View for WarmPoolEntry {
    type V = WarmPoolEntryView;

    open spec fn view(&self) -> WarmPoolEntryView {
        WarmPoolEntryView {
            function_id: self.function_id@,
            config: self.config@,
            snapshot_pid: self.snapshot_pid,
            has_snapshot: self.has_snapshot,
            restore_count: self.restore_count,
            last_restore_ms: self.last_restore_ms,
        }
    }
}

impl Clone for WarmPoolEntry {
    fn clone(&self) -> (r: Self)
        ensures
            r@ == self@,
    {
        WarmPoolEntry {
            function_id: self.function_id.clone(),
            config: self.config.clone(),
            snapshot_pid: self.snapshot_pid,
            has_snapshot: self.has_snapshot,
            restore_count: self.restore_count,
            last_restore_ms: self.last_restore_ms,
        }
    }
}

/// Counts over the warm pool: functions, those with and without a snapshot,
/// restores in all, and the sum and number of the last restore times known.
#[derive(Debug, Clone, Copy, Default)]
pub struct WarmPoolCounts {
    pub total_functions: usize,
    pub warm_count: usize,
    pub cold_count: usize,
    pub total_restores: u64,
    pub restore_ms_sum: u64,
    pub restore_ms_samples: usize,
}

/// Manages the snapshots of every registered function.
pub struct WarmPoolManager {
    snapshot_manager: Option<SnapshotManager>,
    entries: Vec<WarmPoolEntry>,
    pool_size: usize,
}

/// What a warm pool holds.
pub struct WarmPoolView {
    pub snapshots: Option<SnapshotManagerView>,
    pub entries: Seq<WarmPoolEntryView>,
    pub pool_size: usize,
}

impl View for WarmPoolManager {
    type V = WarmPoolView;

    closed spec fn view(&self) -> WarmPoolView {
        WarmPoolView {
            snapshots: match self.snapshot_manager {
                Some(sm) => Some(sm@),
                None => None,
            },
            entries: entries_view(self.entries@),
            pool_size: self.pool_size,
        }
    }
}

/// The position of function `id`'s entry, if it has one.
pub open spec fn entry_position(entries: Seq<WarmPoolEntryView>, id: Seq<char>) -> Option<int> {
    if exists|i: int| 0 <= i < entries.len() && (#[trigger] entries[i]).function_id == id {
        Some(choose|i: int| 0 <= i < entries.len() && (#[trigger] entries[i]).function_id == id)
    } else {
        None
    }
}

/// Consistent entries: no function has two, and each is filed under its
/// configuration's identifier.
pub open spec fn entries_wf(entries: Seq<WarmPoolEntryView>) -> bool {
    &&& forall|i: int, j: int|
        0 <= i < entries.len() && 0 <= j < entries.len() && i != j ==> (#[trigger] entries[i]).function_id
            != (#[trigger] entries[j]).function_id
    &&& forall|i: int| 0 <= i < entries.len() ==> (#[trigger] entries[i]).function_id == entries[i].config.id
}

/// The entries of a pool as plain values.
pub open spec fn entries_view(entries: Seq<WarmPoolEntry>) -> Seq<WarmPoolEntryView> {
    entries.map_values(|e: WarmPoolEntry| e@)
}

/// Whether a function has a snapshot ready in the pool.
pub open spec fn pool_has_snapshot(p: WarmPoolView, id: Seq<char>) -> bool {
    &&& p.snapshots is Some
    &&& entry_position(p.entries, id) matches Some(i) && p.entries[i].has_snapshot
}

/// Sum of the restore counts of the entries.
pub open spec fn restores_sum(entries: Seq<WarmPoolEntryView>) -> int
    decreases entries.len(),
{
    if entries.len() == 0 {
        0
    } else {
        restores_sum(entries.drop_last()) + entries.last().restore_count
    }
}

/// Sum of the last restore times known.
pub open spec fn restore_ms_sum(entries: Seq<WarmPoolEntryView>) -> int
    decreases entries.len(),
{
    if entries.len() == 0 {
        0
    } else {
        restore_ms_sum(entries.drop_last()) + match entries.last().last_restore_ms {
            Some(ms) => ms as int,
            None => 0,
        }
    }
}

/// Number of entries with a snapshot.
pub open spec fn warm_entries(entries: Seq<WarmPoolEntryView>) -> int
    decreases entries.len(),
{
    if entries.len() == 0 {
        0
    } else {
        warm_entries(entries.drop_last()) + if entries.last().has_snapshot {
            1int
        } else {
            0int
        }
    }
}

/// Number of entries with a known restore time.
pub open spec fn timed_entries(entries: Seq<WarmPoolEntryView>) -> int
    decreases entries.len(),
{
    if entries.len() == 0 {
        0
    } else {
        timed_entries(entries.drop_last()) + if entries.last().last_restore_ms is Some {
            1int
        } else {
            0int
        }
    }
}

proof fn lemma_counts_bounded(entries: Seq<WarmPoolEntryView>)
    ensures
        0 <= warm_entries(entries) <= entries.len(),
        0 <= timed_entries(entries) <= entries.len(),
        restores_sum(entries) >= 0,
        restore_ms_sum(entries) >= 0,
    decreases entries.len(),
{
    if entries.len() > 0 {
        lemma_counts_bounded(entries.drop_last());
    }
}


/// In consistent entries, the position of a function is the one entry that
/// holds it.
proof fn lemma_entry_position_unique(entries: Seq<WarmPoolEntryView>, id: Seq<char>, i: int)
    requires
        entries_wf(entries),
        0 <= i < entries.len(),
        entries[i].function_id == id,
    ensures
        entry_position(entries, id) == Some(i),
{
    let c = choose|k: int| 0 <= k < entries.len() && (#[trigger] entries[k]).function_id == id;
    assert(c == i);
}

/// The position of a function's entry in `entries`.
fn find_entry(entries: &Vec<WarmPoolEntry>, function_id: &FunctionId) -> (r: Option<usize>)
    requires
        entries_wf(entries_view(entries@)),
    ensures
        match r {
            Some(i) => entry_position(entries_view(entries@), function_id@) == Some(i as int),
            None => entry_position(entries_view(entries@), function_id@) is None,
        },
{
    let ghost ev = entries_view(entries@);
    let mut i: usize = 0;
    while i < entries.len()
        invariant
            i <= entries@.len(),
            ev == entries_view(entries@),
            entries_wf(ev),
            forall|j: int| 0 <= j < i ==> (#[trigger] ev[j]).function_id != function_id@,
        decreases entries@.len() - i,
    {
        if entries[i].function_id.same_as(function_id) {
            proof {
                lemma_entry_position_unique(ev, function_id@, i as int);
            }
            return Some(i);
        }
        proof {
            assert(ev[i as int].function_id != function_id@);
        }
        i = i + 1;
    }
    None
}

/// `entries` with entry `i` replaced by `e`, which is filed under the same
/// function, stays consistent, and the function stays at `i`.
proof fn lemma_replace_entry(entries: Seq<WarmPoolEntryView>, i: int, e: WarmPoolEntryView)
    requires
        entries_wf(entries),
        0 <= i < entries.len(),
        e.function_id == entries[i].function_id,
        e.function_id == e.config.id,
    ensures
        entries_wf(entries.update(i, e)),
        entry_position(entries.update(i, e), e.function_id) == Some(i),
        forall|id: Seq<char>| id != e.function_id ==> #[trigger] entry_position(entries.update(i, e), id)
            == entry_position(entries, id),
{
    let after = entries.update(i, e);
    assert forall|a: int, b: int|
        0 <= a < after.len() && 0 <= b < after.len() && a != b implies (#[trigger] after[a]).function_id
            != (#[trigger] after[b]).function_id by {
        if a != i && b != i {
            assert(after[a] == entries[a] && after[b] == entries[b]);
        } else if a == i {
            assert(after[b] == entries[b]);
        } else {
            assert(after[a] == entries[a]);
        }
    }
    assert forall|k: int| 0 <= k < after.len() implies (#[trigger] after[k]).function_id == after[k].config.id by {
        if k != i {
            assert(after[k] == entries[k]);
        }
    }
    lemma_entry_position_unique(after, e.function_id, i);
    assert forall|id: Seq<char>| id != e.function_id implies #[trigger] entry_position(after, id)
        == entry_position(entries, id) by {
        if entry_position(entries, id) is Some {
            let k = entry_position(entries, id)->0;
            assert(entries[k].function_id == id);
            assert(after[k] == entries[k]);
            lemma_entry_position_unique(after, id, k);
        } else if entry_position(after, id) is Some {
            let k = entry_position(after, id)->0;
            assert(after[k].function_id == id);
            assert(k != i);
            assert(after[k] == entries[k]);
            assert(exists|m: int| 0 <= m < entries.len() && (#[trigger] entries[m]).function_id == id);
        }
    }
}

/// `entries` with `e` added for a function that had none stays consistent,
/// and the function is found at the end.
proof fn lemma_append_entry(entries: Seq<WarmPoolEntryView>, e: WarmPoolEntryView)
    requires
        entries_wf(entries),
        entry_position(entries, e.function_id) is None,
        e.function_id == e.config.id,
    ensures
        entries_wf(entries.push(e)),
        entry_position(entries.push(e), e.function_id) == Some(entries.len() as int),
        forall|id: Seq<char>| id != e.function_id ==> #[trigger] entry_position(entries.push(e), id)
            == entry_position(entries, id),
{
    let after = entries.push(e);
    assert forall|k: int| 0 <= k < entries.len() implies (#[trigger] entries[k]).function_id != e.function_id by {
        if entries[k].function_id == e.function_id {
            assert(exists|m: int| 0 <= m < entries.len() && (#[trigger] entries[m]).function_id == e.function_id);
        }
    }
    assert forall|a: int, b: int|
        0 <= a < after.len() && 0 <= b < after.len() && a != b implies (#[trigger] after[a]).function_id
            != (#[trigger] after[b]).function_id by {
        if a < entries.len() && b < entries.len() {
            assert(after[a] == entries[a] && after[b] == entries[b]);
        } else if a < entries.len() {
            assert(after[a] == entries[a]);
        } else {
            assert(after[b] == entries[b]);
        }
    }
    assert forall|k: int| 0 <= k < after.len() implies (#[trigger] after[k]).function_id == after[k].config.id by {
        if k < entries.len() {
            assert(after[k] == entries[k]);
        }
    }
    lemma_entry_position_unique(after, e.function_id, entries.len() as int);
    assert forall|id: Seq<char>| id != e.function_id implies #[trigger] entry_position(after, id)
        == entry_position(entries, id) by {
        if entry_position(entries, id) is Some {
            let k = entry_position(entries, id)->0;
            assert(entries[k].function_id == id);
            assert(after[k] == entries[k]);
            lemma_entry_position_unique(after, id, k);
        } else if entry_position(after, id) is Some {
            let k = entry_position(after, id)->0;
            assert(after[k].function_id == id);
            assert(k != entries.len());
            assert(after[k] == entries[k]);
            assert(exists|m: int| 0 <= m < entries.len() && (#[trigger] entries[m]).function_id == id);
        }
    }
}

/// A new entry for a registered configuration: no snapshot, no restore.
pub open spec fn fresh_entry(config: FunctionConfigView) -> WarmPoolEntryView {
    WarmPoolEntryView {
        function_id: config.id,
        config,
        snapshot_pid: None,
        has_snapshot: false,
        restore_count: 0,
        last_restore_ms: None,
    }
}

impl WarmPoolManager {
    #[verifier::type_invariant]
    closed spec fn inv(self) -> bool {
        entries_wf(entries_view(self.entries@))
    }

    /// An enabled pool over `snapshot_manager`, keeping `pool_size` warm
    /// instances per function; no function registered.
    pub fn new(snapshot_manager: SnapshotManager, pool_size: usize) -> (r: WarmPoolManager)
        ensures
            r@.snapshots == Some(snapshot_manager@),
            r@.entries == Seq::<WarmPoolEntryView>::empty(),
            r@.pool_size == pool_size,
            entries_wf(r@.entries),
    {
        let r = WarmPoolManager { snapshot_manager: Some(snapshot_manager), entries: Vec::new(), pool_size };
        assert(r@.entries =~= Seq::<WarmPoolEntryView>::empty());
        r
    }

    /// A disabled pool (checkpointing unavailable): no snapshots, pool size
    /// zero.
    pub fn disabled() -> (r: WarmPoolManager)
        ensures
            r@.snapshots is None,
            r@.entries == Seq::<WarmPoolEntryView>::empty(),
            r@.pool_size == 0,
            entries_wf(r@.entries),
    {
        let r = WarmPoolManager { snapshot_manager: None, entries: Vec::new(), pool_size: 0 };
        assert(r@.entries =~= Seq::<WarmPoolEntryView>::empty());
        r
    }

    /// Whether snapshots are enabled.
    pub fn is_enabled(&self) -> (r: bool)
        ensures
            r == self@.snapshots is Some,
    {
        self.snapshot_manager.is_some()
    }

    /// The number of warm instances kept per function.
    pub fn pool_size(&self) -> (r: usize)
        ensures
            r == self@.pool_size,
    {
        self.pool_size
    }

    /// The snapshot manager, when enabled.
    pub fn snapshot_manager(&self) -> (r: Option<&SnapshotManager>)
        ensures
            match r {
                Some(sm) => self@.snapshots == Some(sm@),
                None => self@.snapshots is None,
            },
    {
        match &self.snapshot_manager {
            Some(sm) => Some(sm),
            None => None,
        }
    }

    /// Register a function (replacing an earlier entry of it) with no
    /// snapshot and no restore; a disabled pool ignores it.
    pub fn register(&mut self, config: FunctionConfig)
        ensures
            final(self)@.snapshots == old(self)@.snapshots,
            final(self)@.pool_size == old(self)@.pool_size,
            entries_wf(final(self)@.entries),
            old(self)@.snapshots is None ==> final(self)@.entries == old(self)@.entries,
            old(self)@.snapshots is Some ==> final(self)@.entries == match entry_position(old(self)@.entries, config@.id) {
                Some(i) => old(self)@.entries.update(i, fresh_entry(config@)),
                None => old(self)@.entries.push(fresh_entry(config@)),
            },
    {
        proof {
            use_type_invariant(&*self);
        }
        if self.snapshot_manager.is_none() {
            return;
        }
        let ghost cv = config@;
        let entry = WarmPoolEntry {
            function_id: config.id.clone(),
            config,
            snapshot_pid: None,
            has_snapshot: false,
            restore_count: 0,
            last_restore_ms: None,
        };
        assert(entry@ == fresh_entry(cv));
        let mut entries: Vec<WarmPoolEntry> = Vec::new();
        std::mem::swap(&mut entries, &mut self.entries);
        let ghost before = entries_view(entries@);
        match find_entry(&entries, &entry.function_id) {
            Some(i) => {
                proof {
                    lemma_replace_entry(before, i as int, fresh_entry(cv));
                }
                entries.set(i, entry);
                assert(entries_view(entries@) =~= before.update(i as int, fresh_entry(cv)));
            },
            None => {
                proof {
                    lemma_append_entry(before, fresh_entry(cv));
                }
                entries.push(entry);
                assert(entries_view(entries@) =~= before.push(fresh_entry(cv)));
            },
        }
        self.entries = entries;
    }
}


impl WarmPoolManager {
    /// Record the snapshot of process `pid` taken for a function at time
    /// `created_at` (after the checkpoint succeeded): the snapshot manager
    /// records it, and the function's entry, if any, notes the process and
    /// that a snapshot is ready. A disabled pool ignores it.
    pub fn snapshot_created(&mut self, function_id: &FunctionId, pid: u32, created_at: std::time::SystemTime)
        ensures
            final(self)@.pool_size == old(self)@.pool_size,
            entries_wf(final(self)@.entries),
            old(self)@.snapshots is None ==> final(self)@ == old(self)@,
            match old(self)@.snapshots {
                Some(s) => (final(self)@.snapshots matches Some(t) && record_position(t.records, function_id@) is Some),
                None => true,
            },
            old(self)@.snapshots is Some ==> final(self)@.entries == match entry_position(old(self)@.entries, function_id@) {
                Some(i) => old(self)@.entries.update(
                    i,
                    WarmPoolEntryView { snapshot_pid: Some(pid), has_snapshot: true, ..old(self)@.entries[i] },
                ),
                None => old(self)@.entries,
            },
    {
        proof {
            use_type_invariant(&*self);
        }
        let mut sm_slot: Option<SnapshotManager> = None;
        std::mem::swap(&mut sm_slot, &mut self.snapshot_manager);
        let mut sm = match sm_slot {
            Some(sm) => sm,
            None => {
                return;
            },
        };
        let _ = sm.record_snapshot(function_id, pid, created_at);
        self.snapshot_manager = Some(sm);
        let mut entries: Vec<WarmPoolEntry> = Vec::new();
        std::mem::swap(&mut entries, &mut self.entries);
        let ghost before = entries_view(entries@);
        match find_entry(&entries, function_id) {
            Some(i) => {
                let mut e = entries.remove(i);
                e.snapshot_pid = Some(pid);
                e.has_snapshot = true;
                proof {
                    lemma_replace_entry(before, i as int, e@);
                }
                entries.insert(i, e);
                assert(entries_view(entries@) =~= before.update(i as int, e@));
            },
            None => {},
        }
        self.entries = entries;
    }

    /// Where to restore a function from. A disabled pool refuses; a function
    /// without an entry, or whose entry has no snapshot, or that the
    /// snapshot manager has no record of, has no snapshot.
    pub fn restore_source(&self, function_id: &FunctionId) -> (r: Result<String, CriuError>)
        ensures
            match self@.snapshots {
                None => r matches Err(CriuError::DumpFailed { .. }),
                Some(s) => if !pool_has_snapshot(self@, function_id@) {
                    (r matches Err(CriuError::SnapshotNotFound { function_id: f }) && f@ == function_id@)
                } else {
                    match record_position(s.records, function_id@) {
                        Some(i) => (r matches Ok(p) && p@ == s.records[i].path@),
                        None => (r matches Err(CriuError::SnapshotNotFound { function_id: f }) && f@ == function_id@),
                    }
                },
            },
    {
        proof {
            use_type_invariant(self);
        }
        let sm = match &self.snapshot_manager {
            Some(sm) => sm,
            None => {
                return Err(CriuError::DumpFailed { reason: "Warm pool not enabled".to_string() });
            },
        };
        match find_entry(&self.entries, function_id) {
            Some(i) => {
                if !self.entries[i].has_snapshot {
                    return Err(CriuError::SnapshotNotFound { function_id: function_id.clone() });
                }
            },
            None => {
                return Err(CriuError::SnapshotNotFound { function_id: function_id.clone() });
            },
        }
        sm.restore_source(function_id)
    }

    /// Record a restore of a function that took `elapsed_ms`: its entry, if
    /// any, counts one more restore and keeps the time.
    pub fn record_restore(&mut self, function_id: &FunctionId, elapsed_ms: u64)
        requires
            entry_position(old(self)@.entries, function_id@) matches Some(i) ==> old(self)@.entries[i].restore_count
                < u64::MAX,
        ensures
            final(self)@.snapshots == old(self)@.snapshots,
            final(self)@.pool_size == old(self)@.pool_size,
            entries_wf(final(self)@.entries),
            final(self)@.entries == match entry_position(old(self)@.entries, function_id@) {
                Some(i) => old(self)@.entries.update(
                    i,
                    WarmPoolEntryView {
                        restore_count: (old(self)@.entries[i].restore_count + 1) as u64,
                        last_restore_ms: Some(elapsed_ms),
                        ..old(self)@.entries[i]
                    },
                ),
                None => old(self)@.entries,
            },
    {
        proof {
            use_type_invariant(&*self);
        }
        let mut entries: Vec<WarmPoolEntry> = Vec::new();
        std::mem::swap(&mut entries, &mut self.entries);
        let ghost before = entries_view(entries@);
        match find_entry(&entries, function_id) {
            Some(i) => {
                let mut e = entries.remove(i);
                proof {
                    assert(e@ == before[i as int]);
                }
                e.restore_count = e.restore_count + 1;
                e.last_restore_ms = Some(elapsed_ms);
                proof {
                    lemma_replace_entry(before, i as int, e@);
                }
                entries.insert(i, e);
                assert(entries_view(entries@) =~= before.update(i as int, e@));
            },
            None => {},
        }
        self.entries = entries;
    }

    /// Whether a function has a snapshot ready (never, when disabled).
    pub fn has_snapshot(&self, function_id: &FunctionId) -> (r: bool)
        ensures
            r == pool_has_snapshot(self@, function_id@),
    {
        proof {
            use_type_invariant(self);
        }
        if self.snapshot_manager.is_none() {
            return false;
        }
        match find_entry(&self.entries, function_id) {
            Some(i) => self.entries[i].has_snapshot,
            None => false,
        }
    }

    /// `WarmSnapshot` for a function with a snapshot ready, `Uninitialized`
    /// otherwise.
    pub fn get_state(&self, function_id: &FunctionId) -> (r: FunctionState)
        ensures
            r == if pool_has_snapshot(self@, function_id@) {
                FunctionState::WarmSnapshot
            } else {
                FunctionState::Uninitialized
            },
    {
        if self.has_snapshot(function_id) {
            FunctionState::WarmSnapshot
        } else {
            FunctionState::Uninitialized
        }
    }

    /// Take a function's snapshot record out of the snapshot manager (the
    /// caller removes the directory); nothing when disabled or unrecorded.
    pub fn take_snapshot_record(&mut self, function_id: &FunctionId) -> (r: Option<SnapshotMetadata>)
        ensures
            final(self)@.entries == old(self)@.entries,
            final(self)@.pool_size == old(self)@.pool_size,
            entries_wf(final(self)@.entries),
            match old(self)@.snapshots {
                None => r is None && final(self)@.snapshots is None,
                Some(s) => (final(self)@.snapshots matches Some(t) && match record_position(s.records, function_id@) {
                    Some(i) => r == Some(s.records[i]) && t.records == s.records.remove(i),
                    None => r is None && t.records == s.records,
                }),
            },
    {
        proof {
            use_type_invariant(&*self);
        }
        let mut sm_slot: Option<SnapshotManager> = None;
        std::mem::swap(&mut sm_slot, &mut self.snapshot_manager);
        match sm_slot {
            Some(mut sm) => {
                let r = sm.remove_record(function_id);
                self.snapshot_manager = Some(sm);
                r
            },
            None => None,
        }
    }

    /// Note that a function's snapshot is gone: its entry, if any, has no
    /// snapshot and no snapshot process. A disabled pool ignores it.
    pub fn snapshot_deleted(&mut self, function_id: &FunctionId)
        ensures
            final(self)@.snapshots == old(self)@.snapshots,
            final(self)@.pool_size == old(self)@.pool_size,
            entries_wf(final(self)@.entries),
            old(self)@.snapshots is None ==> final(self)@.entries == old(self)@.entries,
            old(self)@.snapshots is Some ==> final(self)@.entries == match entry_position(old(self)@.entries, function_id@) {
                Some(i) => old(self)@.entries.update(
                    i,
                    WarmPoolEntryView { snapshot_pid: None, has_snapshot: false, ..old(self)@.entries[i] },
                ),
                None => old(self)@.entries,
            },
    {
        proof {
            use_type_invariant(&*self);
        }
        if self.snapshot_manager.is_none() {
            return;
        }
        let mut entries: Vec<WarmPoolEntry> = Vec::new();
        std::mem::swap(&mut entries, &mut self.entries);
        let ghost before = entries_view(entries@);
        match find_entry(&entries, function_id) {
            Some(i) => {
                let mut e = entries.remove(i);
                e.snapshot_pid = None;
                e.has_snapshot = false;
                proof {
                    lemma_replace_entry(before, i as int, e@);
                }
                entries.insert(i, e);
                assert(entries_view(entries@) =~= before.update(i as int, e@));
            },
            None => {},
        }
        self.entries = entries;
    }

    /// Whether the restore counts, and the known restore times, each sum to
    /// a number that fits in 64 bits.
    pub fn totals_fit(&self) -> (r: bool)
        ensures
            r == (restores_sum(self@.entries) <= u64::MAX && restore_ms_sum(self@.entries) <= u64::MAX),
    {
        let ghost ev = self@.entries;
        let mut restores: u128 = 0;
        let mut ms: u128 = 0;
        let mut i: usize = 0;
        while i < self.entries.len()
            invariant
                i <= ev.len(),
                ev == entries_view(self.entries@),
                restores == restores_sum(ev.take(i as int)),
                ms == restore_ms_sum(ev.take(i as int)),
                restores <= i * u64::MAX,
                ms <= i * u64::MAX,
            decreases ev.len() - i,
        {
            proof {
                assert(ev.take(i + 1).drop_last() =~= ev.take(i as int));
                assert(ev.take(i + 1).last() == ev[i as int]);
                assert(i * u64::MAX + u64::MAX <= (i + 1) * u64::MAX) by (nonlinear_arith);
                assert((i + 1) * u64::MAX < u128::MAX) by (nonlinear_arith)
                    requires i < usize::MAX;
            }
            restores = restores + self.entries[i].restore_count as u128;
            ms = ms + match self.entries[i].last_restore_ms {
                Some(t) => t as u128,
                None => 0u128,
            };
            i = i + 1;
        }
        proof {
            assert(ev.take(ev.len() as int) =~= ev);
        }
        restores <= u64::MAX as u128 && ms <= u64::MAX as u128
    }

    /// Counts over the pool (all zero when disabled): functions, those with
    /// and without a snapshot, restores in all, and the sum and number of
    /// the last restore times known.
    pub fn counts(&self) -> (r: WarmPoolCounts)
        requires
            restores_sum(self@.entries) <= u64::MAX,
            restore_ms_sum(self@.entries) <= u64::MAX,
        ensures
            (self@.snapshots is None) ==> (r == (WarmPoolCounts {
                total_functions: 0,
                warm_count: 0,
                cold_count: 0,
                total_restores: 0,
                restore_ms_sum: 0,
                restore_ms_samples: 0,
            })),
            (self@.snapshots is Some) ==> ({
                &&& r.total_functions == self@.entries.len()
                &&& r.warm_count == warm_entries(self@.entries)
                &&& r.cold_count == self@.entries.len() - warm_entries(self@.entries)
                &&& r.total_restores == restores_sum(self@.entries)
                &&& r.restore_ms_sum == restore_ms_sum(self@.entries)
                &&& r.restore_ms_samples == timed_entries(self@.entries)
            }),
    {
        if self.snapshot_manager.is_none() {
            return WarmPoolCounts {
                total_functions: 0,
                warm_count: 0,
                cold_count: 0,
                total_restores: 0,
                restore_ms_sum: 0,
                restore_ms_samples: 0,
            };
        }
        let ghost ev = self@.entries;
        let mut warm: usize = 0;
        let mut timed: usize = 0;
        let mut restores: u64 = 0;
        let mut ms: u64 = 0;
        let mut i: usize = 0;
        while i < self.entries.len()
            invariant
                i <= ev.len(),
                ev == entries_view(self.entries@),
                restores_sum(ev) <= u64::MAX,
                restore_ms_sum(ev) <= u64::MAX,
                warm == warm_entries(ev.take(i as int)),
                timed == timed_entries(ev.take(i as int)),
                restores == restores_sum(ev.take(i as int)),
                ms == restore_ms_sum(ev.take(i as int)),
                warm <= i,
                timed <= i,
            decreases ev.len() - i,
        {
            proof {
                assert(ev.take(i + 1).drop_last() =~= ev.take(i as int));
                assert(ev.take(i + 1).last() == ev[i as int]);
                lemma_prefix_sums(ev, i + 1);
            }
            if self.entries[i].has_snapshot {
                warm = warm + 1;
            }
            if self.entries[i].last_restore_ms.is_some() {
                timed = timed + 1;
            }
            restores = restores + self.entries[i].restore_count;
            ms = ms + match self.entries[i].last_restore_ms {
                Some(t) => t,
                None => 0u64,
            };
            i = i + 1;
        }
        proof {
            assert(ev.take(ev.len() as int) =~= ev);
        }
        WarmPoolCounts {
            total_functions: self.entries.len(),
            warm_count: warm,
            cold_count: self.entries.len() - warm,
            total_restores: restores,
            restore_ms_sum: ms,
            restore_ms_samples: timed,
        }
    }

    /// A copy of every entry.
    pub fn list_entries(&self) -> (r: Vec<WarmPoolEntry>)
        ensures
            entries_view(r@) == self@.entries,
    {
        let mut out: Vec<WarmPoolEntry> = Vec::new();
        let mut i: usize = 0;
        while i < self.entries.len()
            invariant
                i <= self.entries@.len(),
                entries_view(out@) == entries_view(self.entries@).take(i as int),
            decreases self.entries@.len() - i,
        {
            let c = self.entries[i].clone();
            proof {
                assert(c@ == entries_view(self.entries@)[i as int]);
            }
            let ghost prev = out@;
            out.push(c);
            proof {
                assert(out@ == prev.push(c));
                assert(entries_view(out@) =~= entries_view(prev).push(c@));
                assert(entries_view(out@) =~= entries_view(self.entries@).take(i + 1));
            }
            i = i + 1;
        }
        proof {
            assert(entries_view(self.entries@).take(i as int) =~= entries_view(self.entries@));
        }
        out
    }
}

/// The sums over a prefix are no larger than over the whole.
proof fn lemma_prefix_sums(ev: Seq<WarmPoolEntryView>, k: int)
    requires
        0 <= k <= ev.len(),
    ensures
        restores_sum(ev.take(k)) <= restores_sum(ev),
        restore_ms_sum(ev.take(k)) <= restore_ms_sum(ev),
        warm_entries(ev.take(k)) <= k,
        timed_entries(ev.take(k)) <= k,
    decreases ev.len() - k,
{
    lemma_counts_bounded(ev.take(k));
    if k < ev.len() {
        lemma_prefix_sums(ev, k + 1);
        assert(ev.take(k + 1).drop_last() =~= ev.take(k));
    } else {
        assert(ev.take(k) =~= ev);
    }
}


/// Once a registered function's snapshot is recorded, the pool has a
/// snapshot ready for it and reports it warm.
pub proof fn law_snapshot_makes_function_warm(p: WarmPoolView, id: Seq<char>, pid: u32)
    requires
        entries_wf(p.entries),
        p.snapshots is Some,
        entry_position(p.entries, id) is Some,
    ensures
        ({
            let i = entry_position(p.entries, id)->0;
            let after = WarmPoolView {
                entries: p.entries.update(i, WarmPoolEntryView { snapshot_pid: Some(pid), has_snapshot: true, ..p.entries[i] }),
                ..p
            };
            pool_has_snapshot(after, id)
        }),
{
    let i = entry_position(p.entries, id)->0;
    assert(p.entries[i].function_id == id);
    lemma_replace_entry(p.entries, i, WarmPoolEntryView { snapshot_pid: Some(pid), has_snapshot: true, ..p.entries[i] });
}

/// Once a function's snapshot is deleted, the pool has none ready for it.
pub proof fn law_deleted_snapshot_makes_function_cold(p: WarmPoolView, id: Seq<char>)
    requires
        entries_wf(p.entries),
        entry_position(p.entries, id) is Some,
    ensures
        ({
            let i = entry_position(p.entries, id)->0;
            let after = WarmPoolView {
                entries: p.entries.update(i, WarmPoolEntryView { snapshot_pid: None, has_snapshot: false, ..p.entries[i] }),
                ..p
            };
            !pool_has_snapshot(after, id)
        }),
{
    let i = entry_position(p.entries, id)->0;
    assert(p.entries[i].function_id == id);
    lemma_replace_entry(p.entries, i, WarmPoolEntryView { snapshot_pid: None, has_snapshot: false, ..p.entries[i] });
}

/// The pool's totals add entry by entry: nothing for no entries, and one
/// more entry adds exactly its restore count, its last restore time (when
/// known), one warm function if it has a snapshot, and one timed function if
/// its restore time is known.
pub proof fn law_restores_sum_adds(s: Seq<WarmPoolEntryView>, e: WarmPoolEntryView)
    ensures
        restores_sum(Seq::<WarmPoolEntryView>::empty()) == 0,
        restore_ms_sum(Seq::<WarmPoolEntryView>::empty()) == 0,
        warm_entries(Seq::<WarmPoolEntryView>::empty()) == 0,
        timed_entries(Seq::<WarmPoolEntryView>::empty()) == 0,
        restores_sum(s.push(e)) == restores_sum(s) + e.restore_count,
        restore_ms_sum(s.push(e)) == restore_ms_sum(s) + match e.last_restore_ms {
            Some(ms) => ms as int,
            None => 0,
        },
        warm_entries(s.push(e)) == warm_entries(s) + (if e.has_snapshot { 1int } else { 0int }),
        timed_entries(s.push(e)) == timed_entries(s) + (if e.last_restore_ms is Some { 1int } else { 0int }),
{
    assert(s.push(e).drop_last() =~= s);
}

/// Raising one entry's restore count by one, as `record_restore` does,
/// raises the total by exactly one.
pub proof fn law_restore_adds_one(s: Seq<WarmPoolEntryView>, i: int, e: WarmPoolEntryView)
    requires
        0 <= i < s.len(),
        e.restore_count == s[i].restore_count + 1,
    ensures
        restores_sum(s.update(i, e)) == restores_sum(s) + 1,
    decreases s.len(),
{
    let t = s.update(i, e);
    if i == s.len() - 1 {
        assert(t.drop_last() =~= s.drop_last());
    } else {
        law_restore_adds_one(s.drop_last(), i, e);
        assert(t.drop_last() =~= s.drop_last().update(i, e));
        assert(t.last() == s.last());
    }
}

} // verus!
