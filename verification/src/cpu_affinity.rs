//! Round-robin distribution of handler processes over CPU cores, with
//! NUMA-node awareness, and pinning of a process to the chosen core.

use vstd::prelude::*;

use crate::cpu_list::{chars_of, cpu_list, parse_cpu_list_chars, parse_usize_chars, parse_usize_spec, trim_chars, trim_spec};

verus! {

#[verifier::external_type_specification]
#[verifier::external_body]
pub struct ExCpuSet(nix::sched::CpuSet);

#[verifier::external_type_specification]
#[verifier::external_body]
pub struct ExPid(nix::unistd::Pid);

#[verifier::external_type_specification]
#[verifier::external_body]
pub struct ExErrno(nix::errno::Errno);

/// `num_cpus::get`: the number of logical CPUs this process may use, read
/// from the machine (affinity mask, cgroup quota). Claimed only what its
/// documentation promises: the count is at least 1.
#[verifier::external_body]
fn logical_cpu_count() -> (r: usize)
    ensures
        r >= 1,
{
    num_cpus::get()
}

/// `nix::sched::CpuSet::new`: an empty CPU set. Nothing is claimed.
#[verifier::external_body]
fn cpuset_new() -> (r: nix::sched::CpuSet) {
    nix::sched::CpuSet::new()
}

/// `nix::sched::CpuSet::set`: add `cpu` to the set, refused when `cpu` is
/// beyond the set's fixed capacity. Nothing is claimed of the outcome.
#[verifier::external_body]
fn cpuset_set(set: &mut nix::sched::CpuSet, cpu: usize) -> (r: Result<(), nix::errno::Errno>) {
    set.set(cpu)
}

/// `nix::unistd::Pid::from_raw`: the process identifier with the given raw
/// value. Nothing is claimed.
#[verifier::external_body]
fn pid_from_raw(pid: i32) -> (r: nix::unistd::Pid) {
    nix::unistd::Pid::from_raw(pid)
}

/// `nix::sched::sched_setaffinity`: restrict a process to the CPUs of a
/// set; the kernel decides the outcome. Nothing is claimed of it.
#[verifier::external_body]
fn set_affinity(pid: nix::unistd::Pid, set: &nix::sched::CpuSet) -> (r: Result<(), nix::errno::Errno>) {
    nix::sched::sched_setaffinity(pid, set)
}

/// The node number a directory name of `/sys/devices/system/node` denotes:
/// `node` followed by a number as `str::parse::<usize>` reads it.
pub open spec fn node_number(name: Seq<char>) -> Option<usize> {
    if name.len() >= 4 && name.take(4) == seq!['n', 'o', 'd', 'e'] {
        parse_usize_spec(name.skip(4))
    } else {
        None
    }
}

/// `nodes` lengthened with empty CPU lists to at least `k` entries.
pub open spec fn grow_nodes(nodes: Seq<Seq<usize>>, k: nat) -> Seq<Seq<usize>> {
    if nodes.len() >= k {
        nodes
    } else {
        nodes + Seq::new((k - nodes.len()) as nat, |i: int| Seq::<usize>::empty())
    }
}

/// The effect of one directory entry: a node directory whose CPU list (the
/// trimmed file contents) names at least one CPU sets that node's CPUs;
/// anything else is ignored.
pub open spec fn apply_node_entry(nodes: Seq<Seq<usize>>, name: Seq<char>, contents: Seq<char>) -> Seq<Seq<usize>> {
    match node_number(name) {
        Some(n) => {
            let cpus = cpu_list(trim_spec(contents));
            if cpus.len() == 0 {
                nodes
            } else {
                grow_nodes(nodes, (n + 1) as nat).update(n as int, cpus)
            }
        },
        None => nodes,
    }
}

/// The node table built from the directory entries, first to last.
pub open spec fn nodes_from_entries(entries: Seq<(String, String)>) -> Seq<Seq<usize>>
    decreases entries.len(),
{
    if entries.len() == 0 {
        Seq::empty()
    } else {
        let last = entries.last();
        apply_node_entry(nodes_from_entries(entries.drop_last()), last.0@, last.1@)
    }
}

/// All CPUs `0..num_cpus` on one node.
pub open spec fn single_node(num_cpus: usize) -> Seq<Seq<usize>> {
    seq![Seq::new(num_cpus as nat, |i: int| i as usize)]
}

/// The NUMA topology: the node table of the entries, or one node with every
/// CPU when no entry describes a node.
pub open spec fn numa_topology(num_cpus: usize, entries: Seq<(String, String)>) -> Seq<Seq<usize>> {
    if nodes_from_entries(entries).len() == 0 {
        single_node(num_cpus)
    } else {
        nodes_from_entries(entries)
    }
}

/// The round-robin counter after one allocation (it wraps at the end of
/// its range, as an atomic `fetch_add` does).
pub open spec fn next_counter(n: usize) -> usize {
    if n == usize::MAX {
        0
    } else {
        (n + 1) as usize
    }
}

/// Distributes processes over CPU cores in turn.
pub struct CpuAllocator {
    num_cpus: usize,
    next_cpu: usize,
    numa_nodes: Vec<Vec<usize>>,
}

/// The allocator's CPU count, round-robin counter and node table.
pub struct CpuAllocatorView {
    pub num_cpus: usize,
    pub next_cpu: usize,
    pub numa_nodes: Seq<Seq<usize>>,
}

impl View for CpuAllocator {
    type V = CpuAllocatorView;

    closed spec fn view(&self) -> CpuAllocatorView {
        CpuAllocatorView {
            num_cpus: self.num_cpus,
            next_cpu: self.next_cpu,
            numa_nodes: self.numa_nodes@.map_values(|v: Vec<usize>| v@),
        }
    }
}

/// The node table `nodes` lengthened with empty lists to `k` entries.
fn grow_node_vec(nodes: &mut Vec<Vec<usize>>, k: usize)
    ensures
        final(nodes)@.map_values(|v: Vec<usize>| v@) == grow_nodes(
            old(nodes)@.map_values(|v: Vec<usize>| v@),
            k as nat,
        ),
{
    let ghost start = old(nodes)@.map_values(|v: Vec<usize>| v@);
    if nodes.len() >= k {
        return;
    }
    let ghost base_len = nodes@.len();
    while nodes.len() < k
        invariant
            base_len <= nodes@.len() <= k,
            base_len == start.len(),
            base_len < k,
            nodes@.map_values(|v: Vec<usize>| v@) == start + Seq::new(
                (nodes@.len() - base_len) as nat,
                |i: int| Seq::<usize>::empty(),
            ),
        decreases k - nodes@.len(),
    {
        let e: Vec<usize> = Vec::new();
        let ghost prev = nodes@;
        nodes.push(e);
        proof {
            let got = nodes@.map_values(|v: Vec<usize>| v@);
            let want = start + Seq::new((nodes@.len() - base_len) as nat, |i: int| Seq::<usize>::empty());
            assert(got.len() == want.len());
            assert forall|j: int| 0 <= j < got.len() implies got[j] == want[j] by {
                if j < nodes@.len() - 1 {
                    assert(nodes@[j] == prev[j]);
                    assert(prev.map_values(|v: Vec<usize>| v@)[j] == prev[j]@);
                } else {
                    assert(nodes@[j]@ == Seq::<usize>::empty());
                }
            }
            assert(got =~= want);
        }
    }
}

/// Setting entry `n` of the table grown to `n + 1` entries either replaces
/// an existing entry or appends after padding to `n` entries.
proof fn lemma_grow_update(before: Seq<Seq<usize>>, n: nat, cpus: Seq<usize>)
    ensures
        before.len() > n ==> grow_nodes(before, n + 1).update(n as int, cpus) == before.update(n as int, cpus),
        before.len() <= n ==> grow_nodes(before, n + 1).update(n as int, cpus) == grow_nodes(before, n).push(cpus),
{
    if before.len() <= n {
        assert(grow_nodes(before, n + 1).update(n as int, cpus) =~= grow_nodes(before, n).push(cpus));
    }
}

/// The node number of a directory name, if it denotes one.
fn parse_node_number(name: &str) -> (r: Option<usize>)
    ensures
        r == node_number(name@),
{
    let cs = chars_of(name);
    if cs.len() < 4 || cs[0] != 'n' || cs[1] != 'o' || cs[2] != 'd' || cs[3] != 'e' {
        proof {
            if cs@.len() >= 4 {
                assert(cs@.take(4)[0] == cs@[0]);
                assert(cs@.take(4)[1] == cs@[1]);
                assert(cs@.take(4)[2] == cs@[2]);
                assert(cs@.take(4)[3] == cs@[3]);
            }
        }
        return None;
    }
    proof {
        assert(cs@.take(4) =~= seq!['n', 'o', 'd', 'e']);
    }
    let mut rest: Vec<char> = Vec::new();
    let mut i: usize = 4;
    while i < cs.len()
        invariant
            4 <= i <= cs@.len(),
            rest@ == cs@.subrange(4, i as int),
        decreases cs@.len() - i,
    {
        rest.push(cs[i]);
        proof {
            assert(rest@ =~= cs@.subrange(4, i + 1));
        }
        i = i + 1;
    }
    proof {
        assert(rest@ =~= cs@.skip(4));
    }
    parse_usize_chars(&rest)
}

impl CpuAllocator {
    /// The NUMA topology from the entries of `/sys/devices/system/node`,
    /// each a directory name with the contents of its `cpulist` file; one
    /// node holding every CPU when none describes a node.
    pub fn detect_numa_topology(num_cpus: usize, entries: &Vec<(String, String)>) -> (r: Vec<Vec<usize>>)
        ensures
            r@.map_values(|v: Vec<usize>| v@) == numa_topology(num_cpus, entries@),
    {
        let mut nodes: Vec<Vec<usize>> = Vec::new();
        let mut i: usize = 0;
        proof {
            assert(entries@.take(0) =~= Seq::<(String, String)>::empty());
            assert(nodes@.map_values(|v: Vec<usize>| v@) =~= Seq::<Seq<usize>>::empty());
        }
        while i < entries.len()
            invariant
                i <= entries@.len(),
                nodes@.map_values(|v: Vec<usize>| v@) == nodes_from_entries(entries@.take(i as int)),
            decreases entries@.len() - i,
        {
            let name = entries[i].0.as_str();
            let contents = entries[i].1.as_str();
            proof {
                assert(entries@.take(i + 1).drop_last() =~= entries@.take(i as int));
                assert(entries@.take(i + 1).last() == entries@[i as int]);
            }
            match parse_node_number(name) {
                Some(node_num) => {
                    let cs = chars_of(contents);
                    let trimmed = trim_chars(&cs);
                    let cpus = parse_cpu_list_chars(&trimmed);
                    if cpus.len() > 0 {
                        let ghost before = nodes@.map_values(|v: Vec<usize>| v@);
                        proof {
                            lemma_grow_update(before, node_num as nat, cpus@);
                        }
                        if node_num < nodes.len() {
                            nodes.set(node_num, cpus);
                            proof {
                                assert(nodes@.map_values(|v: Vec<usize>| v@) =~= before.update(
                                    node_num as int,
                                    cpus@,
                                ));
                            }
                        } else {
                            grow_node_vec(&mut nodes, node_num);
                            let ghost grown = nodes@.map_values(|v: Vec<usize>| v@);
                            nodes.push(cpus);
                            proof {
                                assert(nodes@.map_values(|v: Vec<usize>| v@) =~= grown.push(cpus@));
                            }
                        }
                    }
                },
                None => {},
            }
            i = i + 1;
        }
        proof {
            assert(entries@.take(entries@.len() as int) =~= entries@);
        }
        if nodes.len() == 0 {
            let mut all: Vec<usize> = Vec::new();
            let mut c: usize = 0;
            while c < num_cpus
                invariant
                    c <= num_cpus,
                    all@ == Seq::new(c as nat, |j: int| j as usize),
                decreases num_cpus - c,
            {
                all.push(c);
                proof {
                    assert(all@ =~= Seq::new((c + 1) as nat, |j: int| j as usize));
                }
                c = c + 1;
            }
            nodes.push(all);
            proof {
                assert(nodes@.map_values(|v: Vec<usize>| v@) =~= single_node(num_cpus));
            }
        }
        nodes
    }
}


impl CpuAllocator {
    #[verifier::type_invariant]
    closed spec fn inv(self) -> bool {
        self.num_cpus > 0
    }

    /// An allocator over the CPUs this process may use, starting at the
    /// first CPU, with the NUMA topology read from the entries of
    /// `/sys/devices/system/node` (each a directory name with the contents of
    /// its `cpulist` file).
    pub fn new(node_entries: &Vec<(String, String)>) -> (r: CpuAllocator)
        ensures
            r@.num_cpus >= 1,
            r@.next_cpu == 0,
            r@.numa_nodes == numa_topology(r@.num_cpus, node_entries@),
    {
        let num_cpus = logical_cpu_count();
        let numa_nodes = Self::detect_numa_topology(num_cpus, node_entries);
        CpuAllocator { num_cpus, next_cpu: 0, numa_nodes }
    }

    /// The next CPU in turn: the round-robin counter modulo the CPU count;
    /// the counter moves on by one.
    pub fn allocate(&mut self) -> (r: usize)
        ensures
            r == old(self)@.next_cpu % old(self)@.num_cpus,
            r < old(self)@.num_cpus,
            final(self)@.next_cpu == next_counter(old(self)@.next_cpu),
            final(self)@.num_cpus == old(self)@.num_cpus,
            final(self)@.numa_nodes == old(self)@.numa_nodes,
    {
        proof {
            use_type_invariant(&*self);
        }
        let cpu = self.next_cpu % self.num_cpus;
        self.next_cpu = if self.next_cpu == usize::MAX {
            0
        } else {
            self.next_cpu + 1
        };
        cpu
    }

    /// The next CPU in turn among those of NUMA node `node`; any CPU in turn
    /// when the node is unknown or has no CPU. The counter moves on by one.
    pub fn allocate_on_node(&mut self, node: usize) -> (r: usize)
        ensures
            node < old(self)@.numa_nodes.len() && old(self)@.numa_nodes[node as int].len() > 0 ==> r
                == old(self)@.numa_nodes[node as int][old(self)@.next_cpu as int
                % old(self)@.numa_nodes[node as int].len() as int],
            !(node < old(self)@.numa_nodes.len() && old(self)@.numa_nodes[node as int].len() > 0) ==> r
                == old(self)@.next_cpu % old(self)@.num_cpus,
            final(self)@.next_cpu == next_counter(old(self)@.next_cpu),
            final(self)@.num_cpus == old(self)@.num_cpus,
            final(self)@.numa_nodes == old(self)@.numa_nodes,
    {
        proof {
            use_type_invariant(&*self);
        }
        if node < self.numa_nodes.len() && self.numa_nodes[node].len() > 0 {
            proof {
                assert(self@.numa_nodes[node as int] == self.numa_nodes@[node as int]@);
            }
            let len = self.numa_nodes[node].len();
            let idx = self.next_cpu % len;
            let cpu = self.numa_nodes[node][idx];
            self.next_cpu = if self.next_cpu == usize::MAX {
                0
            } else {
                self.next_cpu + 1
            };
            cpu
        } else {
            self.allocate()
        }
    }

    /// Pin process `pid` to the next CPU in turn and report that CPU; the
    /// counter moves on whether or not the kernel accepts the request.
    pub fn pin_process(&mut self, pid: u32) -> (res: Result<usize, nix::errno::Errno>)
        ensures
            final(self)@.next_cpu == next_counter(old(self)@.next_cpu),
            final(self)@.num_cpus == old(self)@.num_cpus,
            final(self)@.numa_nodes == old(self)@.numa_nodes,
            res matches Ok(cpu) ==> cpu == old(self)@.next_cpu % old(self)@.num_cpus,
    {
        let cpu = self.allocate();
        match Self::pin_to_cpu(pid, cpu) {
            Ok(()) => Ok(cpu),
            Err(e) => Err(e),
        }
    }

    /// Pin process `pid` to the next CPU in turn of NUMA node
    /// `preferred_node` (any CPU in turn when the node is unknown or empty).
    pub fn pin_process_numa(&mut self, pid: u32, preferred_node: usize) -> (res: Result<usize, nix::errno::Errno>)
        ensures
            final(self)@.next_cpu == next_counter(old(self)@.next_cpu),
            final(self)@.num_cpus == old(self)@.num_cpus,
            final(self)@.numa_nodes == old(self)@.numa_nodes,
            res matches Ok(cpu) ==> {
                let nodes = old(self)@.numa_nodes;
                if preferred_node < nodes.len() && nodes[preferred_node as int].len() > 0 {
                    cpu == nodes[preferred_node as int][old(self)@.next_cpu as int % nodes[preferred_node as int].len() as int]
                } else {
                    cpu == old(self)@.next_cpu % old(self)@.num_cpus
                }
            },
    {
        let cpu = self.allocate_on_node(preferred_node);
        match Self::pin_to_cpu(pid, cpu) {
            Ok(()) => Ok(cpu),
            Err(e) => Err(e),
        }
    }

    /// Restrict process `pid` to the single CPU `cpu`.
    fn pin_to_cpu(pid: u32, cpu: usize) -> (res: Result<(), nix::errno::Errno>) {
        let mut set = cpuset_new();
        match cpuset_set(&mut set, cpu) {
            Ok(()) => {},
            Err(e) => {
                return Err(e);
            },
        }
        set_affinity(pid_from_raw(pid as i32), &set)
    }

    /// The number of CPUs.
    pub fn num_cpus(&self) -> (r: usize)
        ensures
            r == self@.num_cpus,
            r >= 1,
    {
        proof {
            use_type_invariant(self);
        }
        self.num_cpus
    }

    /// The number of NUMA nodes.
    pub fn num_numa_nodes(&self) -> (r: usize)
        ensures
            r == self@.numa_nodes.len(),
    {
        self.numa_nodes.len()
    }
}

/// The CPU the `i`-th of a run of allocations returns, counting from a
/// counter value `next` (while the counter does not wrap).
pub open spec fn round_robin_cpu(num_cpus: int, next: int, i: int) -> int {
    (next + i) % num_cpus
}

/// Some allocation among the `num_cpus` counted from `next` returns `c`.
pub open spec fn chosen_in_window(num_cpus: int, next: int, c: int) -> bool {
    exists|i: int| 0 <= i < num_cpus && #[trigger] round_robin_cpu(num_cpus, next, i) == c
}

/// Round robin is even: in any run of `num_cpus` consecutive allocations
/// every CPU is chosen, and no CPU is chosen twice.
pub proof fn law_round_robin_window(num_cpus: int, next: int)
    requires
        num_cpus > 0,
        next >= 0,
    ensures
        forall|c: int| 0 <= c < num_cpus ==> #[trigger] chosen_in_window(num_cpus, next, c),
        forall|i: int, j: int| 0 <= i < j < num_cpus ==> #[trigger] round_robin_cpu(num_cpus, next, i) != #[trigger] round_robin_cpu(num_cpus, next, j),
{
    assert forall|c: int| 0 <= c < num_cpus implies #[trigger] chosen_in_window(num_cpus, next, c) by {
        let r = next % num_cpus;
        let i = if c >= r { c - r } else { c - r + num_cpus };
        assert(0 <= r < num_cpus) by (nonlinear_arith) requires num_cpus > 0, next >= 0, r == next % num_cpus;
        assert((next + i) % num_cpus == c) by (nonlinear_arith)
            requires num_cpus > 0, next >= 0, r == next % num_cpus, 0 <= r < num_cpus, 0 <= c < num_cpus,
                i == (if c >= r { c - r } else { c - r + num_cpus });
        assert(round_robin_cpu(num_cpus, next, i) == c);
    }
    assert forall|i: int, j: int| 0 <= i < j < num_cpus implies #[trigger] round_robin_cpu(num_cpus, next, i) != #[trigger] round_robin_cpu(num_cpus, next, j) by {
        assert((next + i) % num_cpus != (next + j) % num_cpus) by (nonlinear_arith)
            requires num_cpus > 0, next >= 0, 0 <= i < j < num_cpus;
    }
}

/// After a full turn of `num_cpus` allocations from counter `next` (no
/// wrap), the allocator is back at the CPU it started from.
pub proof fn law_round_robin_wraps(num_cpus: int, next: int)
    requires
        num_cpus > 0,
        next >= 0,
    ensures
        round_robin_cpu(num_cpus, next, num_cpus) == round_robin_cpu(num_cpus, next, 0),
{
    assert((next + num_cpus) % num_cpus == next % num_cpus) by (nonlinear_arith)
        requires num_cpus > 0, next >= 0;
}

/// One call of `allocate`, `allocate_on_node`, `pin_process` or
/// `pin_process_numa`: the counter moves on by one and nothing else changes.
pub open spec fn counter_advanced(before: CpuAllocatorView, after: CpuAllocatorView) -> bool {
    &&& after.next_cpu == next_counter(before.next_cpu)
    &&& after.num_cpus == before.num_cpus
    &&& after.numa_nodes == before.numa_nodes
}

/// After `i` calls from a fresh allocator the counter is `i`.
proof fn lemma_counter_counts(views: Seq<CpuAllocatorView>, i: int)
    requires
        views.len() >= 1,
        views.len() - 1 < usize::MAX,
        views[0].next_cpu == 0,
        forall|j: int| 0 <= j < views.len() - 1 ==> #[trigger] counter_advanced(views[j], views[j + 1]),
        0 <= i < views.len(),
    ensures
        views[i].next_cpu == i,
        views[i].num_cpus == views[0].num_cpus,
    decreases i,
{
    if i > 0 {
        let j = i - 1;
        lemma_counter_counts(views, j);
        assert(counter_advanced(views[j], views[j + 1]));
    }
}

/// On a fresh allocator, after `k` earlier allocations or pinnings the next
/// `allocate` returns CPU `k` modulo the CPU count: the allocations go round
/// the CPUs in order (see `law_round_robin_window` for the evenness of each
/// turn).
pub proof fn law_kth_allocation(views: Seq<CpuAllocatorView>)
    requires
        views.len() >= 1,
        views.len() - 1 < usize::MAX,
        views[0].next_cpu == 0,
        views[0].num_cpus >= 1,
        forall|j: int| 0 <= j < views.len() - 1 ==> #[trigger] counter_advanced(views[j], views[j + 1]),
    ensures
        views.last().next_cpu == views.len() - 1,
        views.last().num_cpus == views[0].num_cpus,
        views.last().next_cpu % views.last().num_cpus == (views.len() - 1) % (views[0].num_cpus as int),
        views.last().next_cpu % views.last().num_cpus < views[0].num_cpus,
{
    lemma_counter_counts(views, views.len() - 1);
}

} // verus!
