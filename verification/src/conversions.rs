//! Conversions between the validated types and their plain values: each
//! plain value is checked on the way in and handed back unchanged on the way
//! out.

use vstd::prelude::*;

use crate::error::HardValidationError;
use crate::types::{valid_function_id, valid_memory_limit, FunctionId, MemoryLimit, Port, ProcessId};

verus! {

impl TryFrom<String> for FunctionId {
    type Error = HardValidationError;

    /// Check a text as a function identifier.
    fn try_from(value: String) -> (res: Result<FunctionId, HardValidationError>)
        ensures
            match res {
                Ok(f) => valid_function_id(value@) && f@ == value@,
                Err(e) => !valid_function_id(value@) && e is InvalidFieldValue,
            },
    {
        FunctionId::new(value.as_str())
    }
}

impl vstd::std_specs::convert::TryFromSpecImpl<String> for FunctionId {
    /// The error carries text, which a specification cannot build, so no
    /// exact result is claimed through the trait; `try_from` states it.
    open spec fn obeys_try_from_spec() -> bool {
        false
    }

    open spec fn try_from_spec(v: String) -> Result<FunctionId, HardValidationError> {
        arbitrary()
    }
}

impl From<FunctionId> for String {
    /// The identifier's text.
    fn from(id: FunctionId) -> (r: String)
        ensures
            r@ == id@,
    {
        id.as_str().to_string()
    }
}

impl vstd::std_specs::convert::FromSpecImpl<FunctionId> for String {
    /// A `String` is not built in specifications, so no exact result is
    /// claimed through the trait; `from` states it.
    open spec fn obeys_from_spec() -> bool {
        false
    }

    open spec fn from_spec(v: FunctionId) -> String {
        arbitrary()
    }
}

impl TryFrom<u16> for Port {
    type Error = HardValidationError;

    /// Check a port number.
    fn try_from(value: u16) -> (res: Result<Port, HardValidationError>)
        ensures
            match res {
                Ok(p) => value != 0 && p@ == value,
                Err(e) => value == 0 && e is InvalidPort,
            },
    {
        Port::new(value)
    }
}

impl vstd::std_specs::convert::TryFromSpecImpl<u16> for Port {
    /// The error carries text, so no exact result is claimed through the
    /// trait; `try_from` states it.
    open spec fn obeys_try_from_spec() -> bool {
        false
    }

    open spec fn try_from_spec(v: u16) -> Result<Port, HardValidationError> {
        arbitrary()
    }
}

impl From<Port> for u16 {
    /// The port number.
    fn from(port: Port) -> (r: u16)
        ensures
            r == port@,
    {
        port.value()
    }
}

impl vstd::std_specs::convert::FromSpecImpl<Port> for u16 {
    open spec fn obeys_from_spec() -> bool {
        true
    }

    open spec fn from_spec(v: Port) -> u16 {
        v@
    }
}

impl TryFrom<u64> for MemoryLimit {
    type Error = HardValidationError;

    /// Check a memory limit in bytes.
    fn try_from(value: u64) -> (res: Result<MemoryLimit, HardValidationError>)
        ensures
            match res {
                Ok(m) => valid_memory_limit(value) && m@ == value,
                Err(e) => !valid_memory_limit(value) && e is MemoryLimitOutOfBounds,
            },
    {
        MemoryLimit::new(value)
    }
}

impl vstd::std_specs::convert::TryFromSpecImpl<u64> for MemoryLimit {
    /// Kept unclaimed through the trait, like the other checked
    /// conversions; `try_from` states the result.
    open spec fn obeys_try_from_spec() -> bool {
        false
    }

    open spec fn try_from_spec(v: u64) -> Result<MemoryLimit, HardValidationError> {
        arbitrary()
    }
}

impl From<MemoryLimit> for u64 {
    /// The limit in bytes.
    fn from(limit: MemoryLimit) -> (r: u64)
        ensures
            r == limit@,
    {
        limit.bytes()
    }
}

impl vstd::std_specs::convert::FromSpecImpl<MemoryLimit> for u64 {
    open spec fn obeys_from_spec() -> bool {
        true
    }

    open spec fn from_spec(v: MemoryLimit) -> u64 {
        v@
    }
}

impl From<ProcessId> for u32 {
    /// The process identifier.
    fn from(pid: ProcessId) -> (r: u32)
        ensures
            r == pid@,
    {
        pid.value()
    }
}

impl vstd::std_specs::convert::FromSpecImpl<ProcessId> for u32 {
    open spec fn obeys_from_spec() -> bool {
        true
    }

    open spec fn from_spec(v: ProcessId) -> u32 {
        v@
    }
}

} // verus!
