use std::collections::HashSet;

use aetherless::cpu_affinity::CpuAllocator;
use aetherless::cpu_list::parse_cpu_list;

fn allocator() -> CpuAllocator {
    CpuAllocator::new(&Vec::new())
}

#[test]
fn test_parse_cpu_list_range() {
    assert_eq!(parse_cpu_list("0-3"), vec![0, 1, 2, 3]);
}

#[test]
fn test_parse_cpu_list_discrete() {
    assert_eq!(parse_cpu_list("0,2,4"), vec![0, 2, 4]);
}

#[test]
fn test_parse_cpu_list_mixed() {
    assert_eq!(parse_cpu_list("0-1,4-5"), vec![0, 1, 4, 5]);
}

#[test]
fn test_parse_cpu_list_empty() {
    assert_eq!(parse_cpu_list(""), Vec::<usize>::new());
}

#[test]
fn test_parse_cpu_list_complex() {
    assert_eq!(parse_cpu_list("0,2-4,7,10-12"), vec![0, 2, 3, 4, 7, 10, 11, 12]);
}

#[test]
fn test_allocator_initialization() {
    let allocator = allocator();
    assert!(allocator.num_cpus() > 0, "Should detect at least 1 CPU");
    assert!(allocator.num_numa_nodes() > 0, "Should detect at least 1 NUMA node");
}

#[test]
fn test_allocator_round_robin_distribution() {
    let mut allocator = allocator();
    let num = allocator.num_cpus();
    if num > 1 {
        let first = allocator.allocate();
        let second = allocator.allocate();
        assert_ne!(first, second, "Consecutive allocations should use different CPUs");
    }
}

#[test]
fn test_allocator_wraps_around_correctly() {
    let mut allocator = allocator();
    let num = allocator.num_cpus();
    for _ in 0..num {
        allocator.allocate();
    }
    let wrapped = allocator.allocate();
    assert_eq!(wrapped, 0, "Should wrap around to CPU 0 after using all CPUs");
}

#[test]
fn test_allocator_even_distribution() {
    let mut allocator = allocator();
    let num = allocator.num_cpus();
    let iterations = num * 10;
    let mut cpu_counts: Vec<usize> = vec![0; num];
    for _ in 0..iterations {
        let cpu = allocator.allocate();
        cpu_counts[cpu] += 1;
    }
    for (cpu, count) in cpu_counts.iter().enumerate() {
        assert_eq!(*count, 10, "CPU {} should be allocated exactly 10 times, got {}", cpu, count);
    }
}

#[test]
fn test_allocator_numa_node_allocation() {
    let mut allocator = allocator();
    let cpu = allocator.allocate_on_node(0);
    assert!(cpu < allocator.num_cpus(), "NUMA allocation should return valid CPU");
}

#[test]
fn test_allocator_numa_invalid_node_fallback() {
    let mut allocator = allocator();
    let cpu = allocator.allocate_on_node(999);
    assert!(cpu < allocator.num_cpus(), "Invalid NUMA node should fallback to valid CPU");
}

#[test]
fn test_all_cpus_covered_in_full_cycle() {
    let mut allocator = allocator();
    let num = allocator.num_cpus();
    let mut seen: HashSet<usize> = HashSet::new();
    for _ in 0..num {
        seen.insert(allocator.allocate());
    }
    assert_eq!(seen.len(), num, "After {} allocations, all {} CPUs should be used. Got {:?}", num, num, seen);
}

#[test]
fn cpu_list_parts_are_trimmed_and_bad_parts_ignored() {
    assert_eq!(parse_cpu_list(" 1 , 3-4\n"), vec![1, 3, 4]);
    assert_eq!(parse_cpu_list("x,2,1-2-3,5-3,+6"), vec![2, 6]);
    assert_eq!(parse_cpu_list("1 - 2"), Vec::<usize>::new());
    assert_eq!(parse_cpu_list(",,"), Vec::<usize>::new());
    assert_eq!(parse_cpu_list("99999999999999999999999"), Vec::<usize>::new());
}

#[test]
fn numa_topology_from_node_entries() {
    let entries = vec![
        ("node1".to_string(), "4-5\n".to_string()),
        ("power".to_string(), "0-3".to_string()),
        ("node0".to_string(), "0-3".to_string()),
        ("node3".to_string(), "".to_string()),
    ];
    let nodes = CpuAllocator::detect_numa_topology(8, &entries);
    assert_eq!(nodes, vec![vec![0, 1, 2, 3], vec![4, 5]]);
    let fallback = CpuAllocator::detect_numa_topology(3, &Vec::new());
    assert_eq!(fallback, vec![vec![0, 1, 2]]);
}

#[test]
fn allocation_on_a_node_cycles_through_its_cpus() {
    let entries = vec![("node0".to_string(), "0-1".to_string()), ("node1".to_string(), "6,7".to_string())];
    let mut allocator = CpuAllocator::new(&entries);
    assert_eq!(allocator.num_numa_nodes(), 2);
    assert_eq!(allocator.allocate_on_node(1), 6);
    assert_eq!(allocator.allocate_on_node(1), 7);
    assert_eq!(allocator.allocate_on_node(1), 6);
}

#[test]
fn unicode_white_space_is_trimmed() {
    assert_eq!(parse_cpu_list("\u{3000}0-1\u{2028}, 3\u{a0}"), vec![0, 1, 3]);
    assert_eq!(parse_cpu_list("\u{200b}2"), Vec::<usize>::new());
}

#[test]
fn kth_allocation_is_k_modulo_the_cpu_count() {
    let mut a = allocator();
    let n = a.num_cpus();
    for _ in 0..7 {
        a.allocate();
    }
    a.allocate_on_node(usize::MAX);
    assert_eq!(a.allocate(), 8 % n);
    let mut fresh = allocator();
    let mut counts = vec![0usize; n];
    for _ in 0..10 * n {
        counts[fresh.allocate()] += 1;
    }
    assert!(counts.iter().all(|&c| c == 10));
}

#[test]
fn cpu_list_examples() {
    assert_eq!(parse_cpu_list("0"), vec![0]);
    assert_eq!(parse_cpu_list("0-2,5"), vec![0, 1, 2, 5]);
    assert_eq!(parse_cpu_list(" 1 , 3-4 "), vec![1, 3, 4]);
    assert_eq!(parse_cpu_list("3-1"), Vec::<usize>::new());
    assert_eq!(parse_cpu_list("a,2,-,1-2-3"), vec![2]);
}
