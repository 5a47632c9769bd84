//! Bookkeeping of process snapshots (CRIU checkpoints): where each
//! function's snapshot lives, what is known about it, and how the outcome
//! of a restore is judged against the latency limit.

use vstd::prelude::*;
use vstd::string::StringExecFns;

use crate::cpu_list::{chars_of, parse_usize_chars, parse_usize_spec, trim_chars, trim_spec};
use crate::error::CriuError;
use crate::text::{decimal, decimal_string};
use crate::types::FunctionId;

verus! {

#[verifier::external_type_specification]
#[verifier::external_body]
pub struct ExSystemTime(std::time::SystemTime);

/// Default limit on a restore, in milliseconds.
pub const DEFAULT_RESTORE_TIMEOUT_MS: u64 = 15;

/// `Path::join` of a relative name onto a directory, as text: the name
/// alone onto an empty directory, otherwise joined with one `/` unless the
/// directory already ends with one.
pub open spec fn join_path(dir: Seq<char>, name: Seq<char>) -> Seq<char> {
    if dir.len() == 0 {
        name
    } else if dir.last() == '/' {
        dir + name
    } else {
        dir + seq!['/'] + name
    }
}

/// The name of a function's snapshot directory: `criu_dump_` and the
/// function identifier.
pub open spec fn dump_dir_name(id: Seq<char>) -> Seq<char> {
    "criu_dump_"@ + id
}

/// `dir` joined with the relative `name`.
pub fn join_dir(dir: &str, name: &str) -> (r: String)
    ensures
        r@ == join_path(dir@, name@),
{
    let dcs = chars_of(dir);
    let mut r = dir.to_string();
    if dcs.len() == 0 {
        return name.to_string();
    }
    if dcs[dcs.len() - 1] != '/' {
        proof {
            reveal_strlit("/");
            assert("/"@ =~= seq!['/']);
        }
        r.append("/");
    }
    r.append(name);
    r
}

/// The file in a snapshot directory where CRIU writes the restored
/// process's identifier.
pub open spec fn restored_pid_path(dir: Seq<char>) -> Seq<char> {
    join_path(dir, "restored.pid"@)
}

/// The pid file of a restore from `dir`.
pub fn restored_pid_file(dir: &str) -> (r: String)
    ensures
        r@ == restored_pid_path(dir@),
{
    join_dir(dir, "restored.pid")
}

/// The CRIU arguments that checkpoint process `pid` into `dir`, leaving it
/// a shell job with established TCP connections, verbosely.
pub open spec fn dump_args_spec(pid: u32, dir: Seq<char>) -> Seq<Seq<char>> {
    seq![
        "dump"@,
        "-t"@,
        decimal(pid as nat),
        "-D"@,
        dir,
        "-j"@,
        "--shell-job"@,
        "-v4"@,
        "--tcp-established"@,
    ]
}

/// The CRIU arguments that restore the checkpoint in `dir` as a detached
/// shell job, writing the new process's identifier to its pid file.
pub open spec fn restore_args_spec(dir: Seq<char>) -> Seq<Seq<char>> {
    seq!["restore"@, "-D"@, dir, "-j"@, "--shell-job"@, "-d"@, "--pidfile"@, restored_pid_path(dir)]
}

/// The CRIU command line that checkpoints `pid` into `dir`.
pub fn dump_args(pid: u32, dir: &str) -> (r: Vec<String>)
    ensures
        r@.map_values(|a: String| a@) == dump_args_spec(pid, dir@),
{
    let mut v: Vec<String> = Vec::new();
    v.push("dump".to_string());
    v.push("-t".to_string());
    v.push(decimal_string(pid as u64));
    v.push("-D".to_string());
    v.push(dir.to_string());
    v.push("-j".to_string());
    v.push("--shell-job".to_string());
    v.push("-v4".to_string());
    v.push("--tcp-established".to_string());
    proof {
        assert(v@.map_values(|a: String| a@) =~= dump_args_spec(pid, dir@));
    }
    v
}

/// The CRIU command line that restores the checkpoint in `dir`.
pub fn restore_args(dir: &str) -> (r: Vec<String>)
    ensures
        r@.map_values(|a: String| a@) == restore_args_spec(dir@),
{
    let mut v: Vec<String> = Vec::new();
    v.push("restore".to_string());
    v.push("-D".to_string());
    v.push(dir.to_string());
    v.push("-j".to_string());
    v.push("--shell-job".to_string());
    v.push("-d".to_string());
    v.push("--pidfile".to_string());
    v.push(restored_pid_file(dir));
    proof {
        assert(v@.map_values(|a: String| a@) =~= restore_args_spec(dir@));
    }
    v
}

/// What `str::parse::<u32>` gives: an optional `+` followed by decimal
/// digits denoting a number that fits in `u32`.
pub open spec fn parse_u32_spec(s: Seq<char>) -> Option<u32> {
    match parse_usize_spec(s) {
        Some(v) => if v <= u32::MAX {
            Some(v as u32)
        } else {
            None
        },
        None => None,
    }
}

/// The process identifier a pid file holds: its trimmed text read as a
/// `u32`.
pub fn parse_pid_file(contents: &str) -> (r: Option<u32>)
    ensures
        r == parse_u32_spec(trim_spec(contents@)),
{
    let cs = chars_of(contents);
    let t = trim_chars(&cs);
    match parse_usize_chars(&t) {
        Some(v) => if v <= 0xFFFF_FFFFusize {
            Some(v as u32)
        } else {
            None
        },
        None => None,
    }
}

/// What is known about one function's snapshot.
#[derive(Debug)]
pub struct SnapshotMetadata {
    pub function_id: FunctionId,
    pub path: String,
    pub original_pid: u32,
    pub created_at: std::time::SystemTime,
}

impl Clone for SnapshotMetadata {
    fn clone(&self) -> (r: Self)
        ensures
            r.function_id@ == self.function_id@,
            r.path@ == self.path@,
            r.original_pid == self.original_pid,
            r.created_at == self.created_at,
    {
        SnapshotMetadata {
            function_id: self.function_id.clone(),
            path: self.path.clone(),
            original_pid: self.original_pid,
            created_at: self.created_at,
        }
    }
}

/// Snapshot records and where snapshots are kept.
pub struct SnapshotManager {
    snapshot_dir: String,
    restore_timeout_ms: u64,
    criu_path: String,
    snapshots: Vec<SnapshotMetadata>,
}

/// What a snapshot manager holds: the directory, the restore limit, the
/// CRIU binary, and the records, one per function.
pub struct SnapshotManagerView {
    pub snapshot_dir: Seq<char>,
    pub restore_timeout_ms: u64,
    pub criu_path: Seq<char>,
    pub records: Seq<SnapshotMetadata>,
}

impl View for SnapshotManager {
    type V = SnapshotManagerView;

    closed spec fn view(&self) -> SnapshotManagerView {
        SnapshotManagerView {
            snapshot_dir: self.snapshot_dir@,
            restore_timeout_ms: self.restore_timeout_ms,
            criu_path: self.criu_path@,
            records: self.snapshots@,
        }
    }
}

/// No two records belong to the same function.
pub open spec fn records_distinct(records: Seq<SnapshotMetadata>) -> bool {
    forall|i: int, j: int|
        0 <= i < records.len() && 0 <= j < records.len() && i != j ==> (#[trigger] records[i]).function_id@
            != (#[trigger] records[j]).function_id@
}

/// The position of function `id`'s record, if there is one.
pub open spec fn record_position(records: Seq<SnapshotMetadata>, id: Seq<char>) -> Option<int> {
    if exists|i: int| 0 <= i < records.len() && (#[trigger] records[i]).function_id@ == id {
        Some(choose|i: int| 0 <= i < records.len() && (#[trigger] records[i]).function_id@ == id)
    } else {
        None
    }
}

/// How a restore ends, given how long CRIU took, whether it succeeded, and
/// the contents of the pid file it wrote (when that could be read): over
/// the limit is a latency violation whatever else happened; otherwise a
/// failure of CRIU, a missing or unreadable pid file is a restore failure;
/// otherwise the restored process's identifier.
pub open spec fn restore_verdict(limit_ms: u64, elapsed_ms: u64, criu_succeeded: bool, pid_file: Option<Seq<char>>) -> Option<u32> {
    if elapsed_ms > limit_ms || !criu_succeeded {
        None
    } else {
        match pid_file {
            Some(text) => parse_u32_spec(trim_spec(text)),
            None => None,
        }
    }
}

/// What `ParseIntError` says of the first problem `str::parse::<u32>` meets
/// reading the decimal digits `d` from left to right, having read `acc` so
/// far: a character that is not a digit, or a value beyond `u32::MAX`; empty
/// when there is none.
pub open spec fn digits_problem(d: Seq<char>, acc: nat) -> Seq<char>
    decreases d.len(),
{
    if d.len() == 0 {
        Seq::empty()
    } else if !('0' <= d[0] && d[0] <= '9') {
        "invalid digit found in string"@
    } else if acc * 10 + (d[0] as int - '0' as int) > u32::MAX {
        "number too large to fit in target type"@
    } else {
        digits_problem(d.drop_first(), (acc * 10 + (d[0] as int - '0' as int)) as nat)
    }
}

/// What `ParseIntError` says when `str::parse::<u32>` refuses `s`: an empty
/// string, a lone sign, or the first problem among the digits after an
/// optional `+`.
pub open spec fn u32_parse_problem(s: Seq<char>) -> Seq<char> {
    if s.len() == 0 {
        "cannot parse integer from empty string"@
    } else if s.len() == 1 && (s[0] == '+' || s[0] == '-') {
        "invalid digit found in string"@
    } else if s[0] == '+' {
        digits_problem(s.drop_first(), 0)
    } else {
        digits_problem(s, 0)
    }
}

/// The text of `u32_parse_problem(s)`.
fn u32_parse_problem_text(s: &Vec<char>) -> (r: String)
    ensures
        r@ == u32_parse_problem(s@),
{
    let n = s.len();
    if n == 0 {
        return "cannot parse integer from empty string".to_string();
    }
    if n == 1 && (s[0] == '+' || s[0] == '-') {
        return "invalid digit found in string".to_string();
    }
    let mut i: usize = if s[0] == '+' {
        1
    } else {
        0
    };
    let ghost d = if s@[0] == '+' {
        s@.drop_first()
    } else {
        s@
    };
    proof {
        assert(d =~= s@.skip(i as int));
    }
    let mut acc: u64 = 0;
    while i < n
        invariant
            i <= n,
            n == s@.len(),
            acc <= u32::MAX,
            u32_parse_problem(s@) == digits_problem(d, 0),
            digits_problem(d, 0) == digits_problem(s@.skip(i as int), acc as nat),
        decreases n - i,
    {
        let c = s[i];
        proof {
            assert(s@.skip(i as int)[0] == c);
            assert(s@.skip(i as int).drop_first() =~= s@.skip(i + 1));
        }
        if !('0' <= c && c <= '9') {
            return "invalid digit found in string".to_string();
        }
        let digit = (c as u64) - ('0' as u64);
        let next = acc * 10 + digit;
        if next > 0xFFFF_FFFFu64 {
            return "number too large to fit in target type".to_string();
        }
        acc = next;
        i = i + 1;
    }
    proof {
        assert(s@.skip(i as int).len() == 0);
    }
    String::new()
}

/// Why a restore within the limit failed: what CRIU printed when it
/// failed, else the error reading the pid file, else that the pid file holds
/// no process identifier.
pub open spec fn restore_refusal(criu_succeeded: bool, stderr: Seq<char>, pid_file: Result<Seq<char>, Seq<char>>) -> Seq<char> {
    if !criu_succeeded {
        "CRIU restore failed: "@ + stderr
    } else {
        match pid_file {
            Err(e) => "Failed to read PID file: "@ + e,
            Ok(t) => "Invalid PID: "@ + u32_parse_problem(trim_spec(t)),
        }
    }
}

impl SnapshotManager {
    #[verifier::type_invariant]
    closed spec fn inv(self) -> bool {
        records_distinct(self.snapshots@)
    }

    /// A manager keeping snapshots under `snapshot_dir`, restoring with the
    /// CRIU binary at `criu_path` within `restore_timeout_ms`; no records.
    pub fn new(snapshot_dir: &str, restore_timeout_ms: u64, criu_path: &str) -> (r: SnapshotManager)
        ensures
            r@.snapshot_dir == snapshot_dir@,
            r@.restore_timeout_ms == restore_timeout_ms,
            r@.criu_path == criu_path@,
            r@.records == Seq::<SnapshotMetadata>::empty(),
    {
        SnapshotManager {
            snapshot_dir: snapshot_dir.to_string(),
            restore_timeout_ms,
            criu_path: criu_path.to_string(),
            snapshots: Vec::new(),
        }
    }

    /// The CRIU binary.
    pub fn criu_path(&self) -> (r: &str)
        ensures
            r@ == self@.criu_path,
    {
        self.criu_path.as_str()
    }

    /// The restore limit in milliseconds.
    pub fn restore_timeout_ms(&self) -> (r: u64)
        ensures
            r == self@.restore_timeout_ms,
    {
        self.restore_timeout_ms
    }

    /// The directory of a function's snapshot: `criu_dump_<id>` under the
    /// snapshot directory.
    pub fn snapshot_path(&self, function_id: &FunctionId) -> (r: String)
        ensures
            r@ == join_path(self@.snapshot_dir, dump_dir_name(function_id@)),
    {
        let mut name = "criu_dump_".to_string();
        proof {
            reveal_strlit("criu_dump_");
        }
        name.append(function_id.as_str());
        join_dir(self.snapshot_dir.as_str(), name.as_str())
    }

    /// Record a snapshot of process `pid` taken for a function at time
    /// `created_at`, in the function's snapshot directory; an earlier record
    /// of the function is replaced.
    pub fn record_snapshot(&mut self, function_id: &FunctionId, pid: u32, created_at: std::time::SystemTime) -> (r: SnapshotMetadata)
        ensures
            r.function_id@ == function_id@,
            r.path@ == join_path(old(self)@.snapshot_dir, dump_dir_name(function_id@)),
            r.original_pid == pid,
            r.created_at == created_at,
            final(self)@.snapshot_dir == old(self)@.snapshot_dir,
            final(self)@.restore_timeout_ms == old(self)@.restore_timeout_ms,
            final(self)@.criu_path == old(self)@.criu_path,
            record_position(final(self)@.records, function_id@) is Some,
            ({
                let p = record_position(final(self)@.records, function_id@)->0;
                let m = final(self)@.records[p];
                m.function_id@ == r.function_id@ && m.path@ == r.path@ && m.original_pid == pid && m.created_at
                    == created_at
            }),
            forall|other: Seq<char>| other != function_id@ ==> #[trigger] record_position(final(self)@.records, other)
                is Some == record_position(old(self)@.records, other) is Some,
    {
        let path = self.snapshot_path(function_id);
        let meta = SnapshotMetadata {
            function_id: function_id.clone(),
            path,
            original_pid: pid,
            created_at,
        };
        let copy = meta.clone();
        proof {
            use_type_invariant(&*self);
        }
        let mut records: Vec<SnapshotMetadata> = Vec::new();
        std::mem::swap(&mut records, &mut self.snapshots);
        let ghost before = records@;
        let found = find_record(&records, function_id);
        match found {
            Some(i) => {
                records.set(i, meta);
                proof {
                    let after = records@;
                    assert forall|a: int, b: int|
                        0 <= a < after.len() && 0 <= b < after.len() && a != b implies (#[trigger] after[a]).function_id@
                            != (#[trigger] after[b]).function_id@ by {
                        if a != i && b != i {
                            assert(after[a] == before[a] && after[b] == before[b]);
                        } else if a == i {
                            assert(after[b] == before[b]);
                            assert(before[i as int].function_id@ == function_id@);
                        } else {
                            assert(after[a] == before[a]);
                            assert(before[i as int].function_id@ == function_id@);
                        }
                    }
                    lemma_record_position_unique(after, function_id@, i as int);
                    assert forall|other: Seq<char>| other != function_id@ implies #[trigger] record_position(after, other)
                        is Some == record_position(before, other) is Some by {
                        if record_position(before, other) is Some {
                            let k = record_position(before, other)->0;
                            assert(before[k].function_id@ == other);
                            assert(k != i);
                            assert(after[k] == before[k]);
                        }
                        if record_position(after, other) is Some {
                            let k = record_position(after, other)->0;
                            assert(after[k].function_id@ == other);
                            assert(k != i);
                            assert(after[k] == before[k]);
                        }
                    }
                }
            },
            None => {
                records.push(meta);
                proof {
                    let after = records@;
                    assert forall|k: int| 0 <= k < before.len() implies (#[trigger] before[k]).function_id@ != function_id@ by {
                        if before[k].function_id@ == function_id@ {
                            assert(exists|m: int| 0 <= m < before.len() && (#[trigger] before[m]).function_id@ == function_id@);
                        }
                    }
                    assert forall|a: int, b: int|
                        0 <= a < after.len() && 0 <= b < after.len() && a != b implies (#[trigger] after[a]).function_id@
                            != (#[trigger] after[b]).function_id@ by {
                        if a < before.len() && b < before.len() {
                            assert(after[a] == before[a] && after[b] == before[b]);
                        } else if a < before.len() {
                            assert(after[a] == before[a]);
                        } else {
                            assert(after[b] == before[b]);
                        }
                    }
                    lemma_record_position_unique(after, function_id@, before.len() as int);
                    assert forall|other: Seq<char>| other != function_id@ implies #[trigger] record_position(after, other)
                        is Some == record_position(before, other) is Some by {
                        if record_position(before, other) is Some {
                            let k = record_position(before, other)->0;
                            assert(before[k].function_id@ == other);
                            assert(after[k] == before[k]);
                        }
                        if record_position(after, other) is Some {
                            let k = record_position(after, other)->0;
                            assert(after[k].function_id@ == other);
                            assert(k != before.len());
                            assert(after[k] == before[k]);
                        }
                    }
                }
            },
        }
        self.snapshots = records;
        copy
    }

    /// Forget a function's snapshot record and hand it back (the caller
    /// removes the directory).
    pub fn remove_record(&mut self, function_id: &FunctionId) -> (r: Option<SnapshotMetadata>)
        ensures
            final(self)@.snapshot_dir == old(self)@.snapshot_dir,
            final(self)@.restore_timeout_ms == old(self)@.restore_timeout_ms,
            final(self)@.criu_path == old(self)@.criu_path,
            match record_position(old(self)@.records, function_id@) {
                Some(i) => r == Some(old(self)@.records[i]) && final(self)@.records == old(self)@.records.remove(i),
                None => r is None && final(self)@.records == old(self)@.records,
            },
            record_position(final(self)@.records, function_id@) is None,
    {
        proof {
            use_type_invariant(&*self);
        }
        let mut records: Vec<SnapshotMetadata> = Vec::new();
        std::mem::swap(&mut records, &mut self.snapshots);
        let ghost before = records@;
        let found = find_record(&records, function_id);
        match found {
            Some(i) => {
                let m = records.remove(i);
                proof {
                    let after = records@;
                    assert(before[i as int].function_id@ == function_id@);
                    assert forall|a: int, b: int|
                        0 <= a < after.len() && 0 <= b < after.len() && a != b implies (#[trigger] after[a]).function_id@
                            != (#[trigger] after[b]).function_id@ by {
                        let pa = if a < i { a } else { a + 1 };
                        let pb = if b < i { b } else { b + 1 };
                        assert(after[a] == before[pa] && after[b] == before[pb]);
                    }
                    assert forall|k: int| 0 <= k < after.len() implies (#[trigger] after[k]).function_id@ != function_id@ by {
                        let pk = if k < i { k } else { k + 1 };
                        assert(after[k] == before[pk]);
                    }
                }
                self.snapshots = records;
                Some(m)
            },
            None => {
                proof {
                    assert forall|k: int| 0 <= k < before.len() implies (#[trigger] before[k]).function_id@ != function_id@ by {
                        if before[k].function_id@ == function_id@ {
                            assert(exists|m: int| 0 <= m < before.len() && (#[trigger] before[m]).function_id@ == function_id@);
                        }
                    }
                }
                self.snapshots = records;
                None
            },
        }
    }

    /// The record of a function's snapshot, if any.
    pub fn get_metadata(&self, function_id: &FunctionId) -> (r: Option<&SnapshotMetadata>)
        ensures
            match record_position(self@.records, function_id@) {
                Some(i) => r == Some(&self@.records[i]),
                None => r is None,
            },
    {
        proof {
            use_type_invariant(self);
        }
        match find_record(&self.snapshots, function_id) {
            Some(i) => Some(&self.snapshots[i]),
            None => None,
        }
    }

    /// Every record, one per function.
    pub fn list_snapshots(&self) -> (r: Vec<&SnapshotMetadata>)
        ensures
            r@.len() == self@.records.len(),
            forall|i: int| 0 <= i < r@.len() ==> *r@[i] == self@.records[i],
            records_distinct(self@.records),
    {
        proof {
            use_type_invariant(self);
        }
        let mut out: Vec<&SnapshotMetadata> = Vec::new();
        let mut i: usize = 0;
        while i < self.snapshots.len()
            invariant
                i <= self@.records.len(),
                out@.len() == i,
                forall|j: int| 0 <= j < i ==> *out@[j] == self@.records[j],
            decreases self@.records.len() - i,
        {
            out.push(&self.snapshots[i]);
            i = i + 1;
        }
        out
    }

    /// Where to restore a function from: its snapshot directory; an unknown
    /// function has no snapshot.
    pub fn restore_source(&self, function_id: &FunctionId) -> (r: Result<String, CriuError>)
        ensures
            match record_position(self@.records, function_id@) {
                Some(i) => r matches Ok(p) && p@ == self@.records[i].path@,
                None => r matches Err(CriuError::SnapshotNotFound { function_id: f }) && f@ == function_id@,
            },
    {
        proof {
            use_type_invariant(self);
        }
        match find_record(&self.snapshots, function_id) {
            Some(i) => Ok(self.snapshots[i].path.clone()),
            None => Err(CriuError::SnapshotNotFound { function_id: function_id.clone() }),
        }
    }

    /// Judge a finished restore: `elapsed_ms` is how long CRIU took,
    /// `criu_succeeded` whether it reported success, `stderr` what it
    /// printed, and `pid_file` the contents of the pid file it wrote, or the
    /// text of the error that reading it gave. Over the limit is a latency
    /// violation (the caller kills the restored process); otherwise a CRIU
    /// failure, an unreadable pid file or one that does not hold a process
    /// identifier is a restore failure; otherwise the identifier is the
    /// restored process.
    pub fn judge_restore(&self, elapsed_ms: u64, criu_succeeded: bool, stderr: &str, pid_file: Result<&str, &str>) -> (r: Result<u32, CriuError>)
        ensures
            elapsed_ms > self@.restore_timeout_ms ==> (r matches Err(CriuError::LatencyViolation { actual_ms, limit_ms })
                && actual_ms == elapsed_ms && limit_ms == self@.restore_timeout_ms),
            elapsed_ms <= self@.restore_timeout_ms ==> match restore_verdict(
                self@.restore_timeout_ms,
                elapsed_ms,
                criu_succeeded,
                match pid_file {
                    Ok(t) => Some(t@),
                    Err(_) => None,
                },
            ) {
                Some(pid) => r == Ok::<u32, CriuError>(pid),
                None => r matches Err(CriuError::RestoreFailed { reason }) && reason@ == restore_refusal(
                    criu_succeeded,
                    stderr@,
                    match pid_file {
                        Ok(t) => Ok(t@),
                        Err(e) => Err(e@),
                    },
                ),
            },
    {
        if elapsed_ms > self.restore_timeout_ms {
            return Err(CriuError::LatencyViolation { actual_ms: elapsed_ms, limit_ms: self.restore_timeout_ms });
        }
        if !criu_succeeded {
            let mut reason = "CRIU restore failed: ".to_string();
            reason.append(stderr);
            return Err(CriuError::RestoreFailed { reason });
        }
        match pid_file {
            Err(e) => {
                let mut reason = "Failed to read PID file: ".to_string();
                reason.append(e);
                Err(CriuError::RestoreFailed { reason })
            },
            Ok(text) => match parse_pid_file(text) {
                Some(pid) => Ok(pid),
                None => {
                    let trimmed = trim_chars(&chars_of(text));
                    let mut reason = "Invalid PID: ".to_string();
                    reason.append(u32_parse_problem_text(&trimmed).as_str());
                    Err(CriuError::RestoreFailed { reason })
                },
            },
        }
    }
}

/// The position of a function's record in `records`.
fn find_record(records: &Vec<SnapshotMetadata>, function_id: &FunctionId) -> (r: Option<usize>)
    requires
        records_distinct(records@),
    ensures
        match r {
            Some(i) => record_position(records@, function_id@) == Some(i as int),
            None => record_position(records@, function_id@) is None,
        },
{
    let mut i: usize = 0;
    while i < records.len()
        invariant
            i <= records@.len(),
            records_distinct(records@),
            forall|j: int| 0 <= j < i ==> (#[trigger] records@[j]).function_id@ != function_id@,
        decreases records@.len() - i,
    {
        if records[i].function_id.same_as(function_id) {
            proof {
                lemma_record_position_unique(records@, function_id@, i as int);
            }
            return Some(i);
        }
        i = i + 1;
    }
    None
}

/// In a table without repeated functions, the position of a function is the
/// one record that holds it.
proof fn lemma_record_position_unique(records: Seq<SnapshotMetadata>, id: Seq<char>, i: int)
    requires
        records_distinct(records),
        0 <= i < records.len(),
        records[i].function_id@ == id,
    ensures
        record_position(records, id) == Some(i),
{
    let c = choose|k: int| 0 <= k < records.len() && (#[trigger] records[k]).function_id@ == id;
    assert(c == i);
}

/// A restore never succeeds past the latency limit: whatever CRIU did, a
/// successful verdict means it finished within the limit.
pub proof fn law_restore_within_limit(limit_ms: u64, elapsed_ms: u64, criu_succeeded: bool, pid_file: Option<Seq<char>>)
    requires
        restore_verdict(limit_ms, elapsed_ms, criu_succeeded, pid_file) is Some,
    ensures
        elapsed_ms <= limit_ms,
        criu_succeeded,
        pid_file is Some,
{
}

} // verus!
