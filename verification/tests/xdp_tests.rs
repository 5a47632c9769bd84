use aetherless::types::{Port, ProcessId};
use aetherless::xdp::{XdpManager, LOCALHOST_ADDR};

#[test]
fn test_xdp_manager_creation() {
    let manager = XdpManager::new("lo");
    assert_eq!(manager.interface(), "lo");
    assert!(!manager.is_loaded());
}

#[test]
fn test_port_registration_userspace() {
    let mut manager = XdpManager::new("lo");
    let port = Port::new(8080).unwrap();
    let pid = ProcessId::new(1234).unwrap();
    manager.register_port(port, pid, None);
    let lookup = manager.lookup_port(port);
    assert_eq!(lookup, Some(1234));
}

#[test]
fn test_port_unregistration() {
    let mut manager = XdpManager::new("lo");
    let port = Port::new(8080).unwrap();
    let pid = ProcessId::new(1234).unwrap();
    manager.register_port(port, pid, None);
    manager.unregister_port(port);
    let lookup = manager.lookup_port(port);
    assert_eq!(lookup, None);
}

#[test]
fn test_list_ports() {
    let mut manager = XdpManager::new("lo");
    manager.register_port(Port::new(8080).unwrap(), ProcessId::new(100).unwrap(), None);
    manager.register_port(Port::new(8081).unwrap(), ProcessId::new(101).unwrap(), None);
    let ports = manager.list_ports();
    assert_eq!(ports.len(), 2);
}

#[test]
fn test_stats() {
    let mut manager = XdpManager::new("eth0");
    manager.register_port(Port::new(3000).unwrap(), ProcessId::new(999).unwrap(), None);
    let stats = manager.stats();
    assert_eq!(stats.interface, "eth0");
    assert_eq!(stats.registered_ports, 1);
    assert!(!stats.loaded);
    assert!(stats.ports.contains(&3000));
}

#[test]
fn registration_defaults_to_loopback_and_replaces() {
    let mut manager = XdpManager::new("lo");
    let port = Port::new(9000).unwrap();
    let v = manager.register_port(port, ProcessId::new(5).unwrap(), None);
    assert_eq!(v.addr, LOCALHOST_ADDR);
    assert_eq!(v.addr, 0x7F00_0001);
    let v = manager.register_port(port, ProcessId::new(6).unwrap(), Some(0x0A00_0001));
    assert_eq!(v.addr, 0x0A00_0001);
    assert_eq!(manager.lookup_port(port), Some(6));
    assert_eq!(manager.list_ports(), vec![(9000, 6)]);
    manager.set_loaded();
    assert!(manager.is_loaded());
    manager.detach();
    assert!(!manager.is_loaded());
    assert_eq!(manager.lookup_port(port), Some(6));
}
