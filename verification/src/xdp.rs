//! The userspace side of XDP packet redirection: which process serves each
//! TCP port, mirrored from the kernel's port map, and the attachment state.

use std::collections::HashMap;

use vstd::prelude::*;

use crate::types::{Port, ProcessId};
use vstd::std_specs::hash::spec_hash_map_iter;
use vstd::std_specs::iter::IteratorSpec;

verus! {

broadcast use vstd::std_specs::hash::group_hash_axioms;

/// The IPv4 loopback address 127.0.0.1 as a 32-bit number.
pub const LOCALHOST_ADDR: u32 = 0x7F00_0001;

/// Key of the kernel's port map.
#[derive(Clone, Copy, Debug, Default)]
pub struct PortKey {
    pub port: u16,
    pub _padding: u16,
}

/// Value of the kernel's port map: the serving process and its IPv4 address.
#[derive(Clone, Copy, Debug, Default)]
pub struct PortValue {
    pub pid: u32,
    pub addr: u32,
}

/// Routes ports to the processes that serve them.
#[derive(Debug)]
pub struct XdpManager {
    port_map: HashMap<u16, PortValue>,
    interface: String,
    loaded: bool,
}

/// What an XDP manager holds.
pub struct XdpView {
    pub ports: Map<u16, PortValue>,
    pub interface: Seq<char>,
    pub loaded: bool,
}

impl View for XdpManager {
    type V = XdpView;

    closed spec fn view(&self) -> XdpView {
        XdpView { ports: self.port_map@, interface: self.interface@, loaded: self.loaded }
    }
}

/// Statistics of an XDP manager.
#[derive(Debug, Clone)]
pub struct XdpStats {
    pub registered_ports: usize,
    pub interface: String,
    pub loaded: bool,
    pub ports: Vec<u16>,
}

impl XdpManager {
    /// A manager for `interface` with no port and no program attached.
    pub fn new(interface: &str) -> (r: XdpManager)
        ensures
            r@.ports == Map::<u16, PortValue>::empty(),
            r@.interface == interface@,
            !r@.loaded,
    {
        XdpManager { port_map: HashMap::new(), interface: interface.to_string(), loaded: false }
    }

    /// The interface name.
    pub fn interface(&self) -> (r: &str)
        ensures
            r@ == self@.interface,
    {
        self.interface.as_str()
    }

    /// Whether a program is attached.
    pub fn is_loaded(&self) -> (r: bool)
        ensures
            r == self@.loaded,
    {
        self.loaded
    }

    /// Record that a program was loaded and attached to the interface.
    pub fn set_loaded(&mut self)
        ensures
            final(self)@.loaded,
            final(self)@.ports == old(self)@.ports,
            final(self)@.interface == old(self)@.interface,
    {
        self.loaded = true;
    }

    /// Route `port` to process `pid` at IPv4 address `addr` (loopback when
    /// none is given), replacing an earlier route of the port.
    pub fn register_port(&mut self, port: Port, pid: ProcessId, addr: Option<u32>) -> (r: PortValue)
        ensures
            r.pid == pid@,
            r.addr == (match addr {
                Some(a) => a,
                None => LOCALHOST_ADDR,
            }),
            final(self)@.ports == old(self)@.ports.insert(port@, r),
            final(self)@.interface == old(self)@.interface,
            final(self)@.loaded == old(self)@.loaded,
    {
        let value = PortValue {
            pid: pid.value(),
            addr: match addr {
                Some(a) => a,
                None => LOCALHOST_ADDR,
            },
        };
        let _ = self.port_map.insert(port.value(), value);
        value
    }

    /// Remove the route of `port`, if any.
    pub fn unregister_port(&mut self, port: Port)
        ensures
            final(self)@.ports == old(self)@.ports.remove(port@),
            final(self)@.interface == old(self)@.interface,
            final(self)@.loaded == old(self)@.loaded,
    {
        let key = port.value();
        let _ = self.port_map.remove(&key);
    }

    /// The process that serves `port`, if it is routed.
    pub fn lookup_port(&self, port: Port) -> (r: Option<u32>)
        ensures
            match r {
                Some(pid) => self@.ports.contains_key(port@) && pid == self@.ports[port@].pid,
                None => !self@.ports.contains_key(port@),
            },
    {
        let key = port.value();
        match self.port_map.get(&key) {
            Some(v) => Some(v.pid),
            None => None,
        }
    }

    /// Every routed port with the process that serves it, each port once.
    pub fn list_ports(&self) -> (r: Vec<(u16, u32)>)
        ensures
            r@.len() == self@.ports.len(),
            forall|i: int| 0 <= i < r@.len() ==> self@.ports.contains_key((#[trigger] r@[i]).0) && r@[i].1
                == self@.ports[r@[i].0].pid,
            forall|p: u16| #[trigger] self@.ports.contains_key(p) ==> exists|i: int| 0 <= i < r@.len() && (#[trigger] r@[i]).0 == p,
    {
        let mut out: Vec<(u16, u32)> = Vec::new();
        for entry in it: self.port_map.iter()
            invariant
                it.seq() == spec_hash_map_iter(&self.port_map).remaining(),
                out@.len() == it.index(),
                forall|i: int| 0 <= i < out@.len() ==> (#[trigger] out@[i]).0 == *it.seq()[i].0 && out@[i].1
                    == it.seq()[i].1.pid,
        {
            out.push((*entry.0, entry.1.pid));
        }
        proof {
            let v = spec_hash_map_iter(&self.port_map).remaining();
            assert forall|p: u16| #[trigger] self@.ports.contains_key(p) implies exists|i: int| 0 <= i < out@.len() && (#[trigger] out@[i]).0 == p by {
                assert(v.contains((&p, &self@.ports[p])));
                let i = choose|i: int| 0 <= i < v.len() && v[i] == (&p, &self@.ports[p]);
                assert(out@[i].0 == p);
            }
        }
        out
    }

    /// The number of routed ports, the interface, whether a program is
    /// attached, and the routed ports, each once.
    pub fn stats(&self) -> (r: XdpStats)
        ensures
            r.registered_ports == self@.ports.len(),
            r.interface@ == self@.interface,
            r.loaded == self@.loaded,
            r.ports@.len() == self@.ports.len(),
            forall|i: int| 0 <= i < r.ports@.len() ==> self@.ports.contains_key(#[trigger] r.ports@[i]),
            forall|p: u16| #[trigger] self@.ports.contains_key(p) ==> r.ports@.contains(p),
    {
        let pairs = self.list_ports();
        let mut ports: Vec<u16> = Vec::new();
        let mut i: usize = 0;
        while i < pairs.len()
            invariant
                i <= pairs@.len(),
                ports@.len() == i,
                forall|j: int| 0 <= j < i ==> (#[trigger] ports@[j]) == pairs@[j].0,
            decreases pairs@.len() - i,
        {
            ports.push(pairs[i].0);
            i = i + 1;
        }
        proof {
            assert forall|p: u16| #[trigger] self@.ports.contains_key(p) implies ports@.contains(p) by {
                let k = choose|k: int| 0 <= k < pairs@.len() && (#[trigger] pairs@[k]).0 == p;
                assert(ports@[k] == p);
            }
            assert forall|j: int| 0 <= j < ports@.len() implies self@.ports.contains_key(#[trigger] ports@[j]) by {
                assert(ports@[j] == pairs@[j].0);
            }
        }
        XdpStats {
            registered_ports: self.port_map.len(),
            interface: self.interface.clone(),
            loaded: self.loaded,
            ports,
        }
    }

    /// Mark the program as detached (the kernel detaches it when its handle
    /// is dropped); the routes stay.
    pub fn detach(&mut self)
        ensures
            !final(self)@.loaded,
            final(self)@.ports == old(self)@.ports,
            final(self)@.interface == old(self)@.interface,
    {
        if self.loaded {
            self.loaded = false;
        }
    }
}

/// A lookup after a registration finds the registered process, and
/// registering one port leaves every other port's route as it was.
pub proof fn law_lookup_after_register(before: Map<u16, PortValue>, port: u16, value: PortValue, other: u16)
    ensures
        before.insert(port, value).contains_key(port),
        before.insert(port, value)[port].pid == value.pid,
        other != port ==> before.insert(port, value).contains_key(other) == before.contains_key(other),
        other != port && before.contains_key(other) ==> before.insert(port, value)[other] == before[other],
{
}

/// A lookup after an unregistration finds nothing, and unregistering one
/// port leaves every other port's route as it was.
pub proof fn law_lookup_after_unregister(before: Map<u16, PortValue>, port: u16, other: u16)
    ensures
        !before.remove(port).contains_key(port),
        other != port ==> before.remove(port).contains_key(other) == before.contains_key(other),
        other != port && before.contains_key(other) ==> before.remove(port)[other] == before[other],
{
}

} // verus!
