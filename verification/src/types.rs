//! Newtypes that are valid by construction: each checks its invariant when it
//! is created, and the invariant is carried as a type invariant.

use vstd::prelude::*;
use vstd::string::*;
use vstd::utf8::*;

use crate::error::HardValidationError;
use crate::text::{decimal, decimal_string};

verus! {

broadcast use vstd::string::group_string_axioms;

/// Smallest memory limit a function may have: 1 MB.
pub const MIN_MEMORY_LIMIT: u64 = 1048576;

/// Largest memory limit a function may have: 16 GB.
pub const MAX_MEMORY_LIMIT: u64 = 17179869184;

/// Largest length of a function identifier, in UTF-8 bytes.
pub const MAX_FUNCTION_ID_BYTES: usize = 64;

/// Bytes in one megabyte.
pub const BYTES_PER_MB: u64 = 1048576;

/// Whether `c` is alphabetic or numeric in the Unicode sense
/// (what `char::is_alphanumeric` returns).
pub uninterp spec fn is_alphanumeric_char(c: char) -> bool;

/// ASCII digits and letters.
pub open spec fn is_ascii_alphanumeric_char(c: char) -> bool {
    ('0' <= c && c <= '9') || ('a' <= c && c <= 'z') || ('A' <= c && c <= 'Z')
}

/// Calls `char::is_alphanumeric`. Its documentation defines it as Unicode
/// `Alphabetic` or `Numeric`; the contract names that result and states the
/// ASCII case, where it is exactly the digits and the Latin letters.
#[verifier::external_body]
fn char_is_alphanumeric(c: char) -> (r: bool)
    ensures
        r == is_alphanumeric_char(c),
        (c as u32) < 128 ==> (r <==> is_ascii_alphanumeric_char(c)),
{
    c.is_alphanumeric()
}

/// A character that may appear in a function identifier: an alphanumeric
/// one, `-` or `_`. For an ASCII character, alphanumeric means a digit or a
/// Latin letter.
pub open spec fn is_id_char(c: char) -> bool {
    if (c as u32) < 128 {
        is_ascii_id_char(c)
    } else {
        is_alphanumeric_char(c)
    }
}

/// Every character is ASCII.
pub open spec fn is_ascii_text(s: Seq<char>) -> bool {
    forall|i: int| 0 <= i < s.len() ==> (#[trigger] s[i] as u32) < 128
}

/// ASCII text takes one UTF-8 byte per character.
pub proof fn lemma_ascii_utf8_len(s: Seq<char>)
    requires
        is_ascii_text(s),
    ensures
        encode_utf8(s).len() == s.len(),
    decreases s.len(),
{
    if s.len() > 0 {
        assert((s[0] as u32) < 128);
        assert(s.drop_first().len() == s.len() - 1);
        assert(is_ascii_text(s.drop_first())) by {
            assert forall|i: int| 0 <= i < s.drop_first().len() implies (#[trigger] s.drop_first()[i] as u32) < 128 by {
                assert(s.drop_first()[i] == s[i + 1]);
            }
        }
        lemma_ascii_utf8_len(s.drop_first());
    }
}

/// An ASCII character that may appear in a function identifier: a digit, a
/// Latin letter, `-` or `_`.
pub open spec fn is_ascii_id_char(c: char) -> bool {
    is_ascii_alphanumeric_char(c) || c == '-' || c == '_'
}

/// Why `FunctionId::new` refuses an identifier: the first of its checks
/// that fails (empty, longer than 64 bytes, a character other than an
/// alphanumeric one, `-` or `_`).
pub open spec fn function_id_refusal(id: Seq<char>) -> Seq<char> {
    if id.len() == 0 {
        "Function ID cannot be empty"@
    } else if encode_utf8(id).len() > MAX_FUNCTION_ID_BYTES {
        "Function ID too long: "@ + decimal(encode_utf8(id).len()) + " chars (max 64)"@
    } else {
        "Function ID must contain only alphanumeric characters, hyphens, and underscores"@
    }
}

/// A valid function identifier: non-empty, at most 64 bytes of UTF-8, and
/// made of alphanumeric characters, hyphens and underscores.
pub open spec fn valid_function_id(s: Seq<char>) -> bool {
    &&& s.len() > 0
    &&& encode_utf8(s).len() <= MAX_FUNCTION_ID_BYTES
    &&& forall|i: int| 0 <= i < s.len() ==> #[trigger] is_id_char(s[i])
}

/// Validated function identifier.
#[derive(Debug, PartialEq, Eq, PartialOrd, Ord, Hash)]
pub struct FunctionId(String);

impl Clone for FunctionId {
    fn clone(&self) -> (r: Self)
        ensures
            r@ == self@,
    {
        proof {
            use_type_invariant(self);
        }
        FunctionId(self.0.clone())
    }
}

impl View for FunctionId {
    type V = Seq<char>;

    closed spec fn view(&self) -> Seq<char> {
        self.0@
    }
}

impl FunctionId {
    #[verifier::type_invariant]
    closed spec fn inv(self) -> bool {
        valid_function_id(self.0@)
    }

    /// Create a function identifier, checking it.
    pub fn new(id: &str) -> (res: Result<FunctionId, HardValidationError>)
        ensures
            match res {
                Ok(f) => valid_function_id(id@) && f@ == id@,
                Err(e) => !valid_function_id(id@) && (e matches HardValidationError::InvalidFieldValue {
                    field,
                    value,
                    reason,
                } && field@ == "function_id"@ && value@ == id@ && reason@ == function_id_refusal(id@)),
            },
            is_ascii_text(id@) ==> (res is Ok <==> {
                &&& id@.len() > 0
                &&& id@.len() <= MAX_FUNCTION_ID_BYTES
                &&& forall|i: int| 0 <= i < id@.len() ==> #[trigger] is_ascii_id_char(id@[i])
            }),
    {
        proof {
            reveal_strlit("function_id");
            if is_ascii_text(id@) {
                lemma_ascii_utf8_len(id@);
            }
        }
        if id.is_empty() {
            return Err(
                HardValidationError::InvalidFieldValue {
                    field: "function_id",
                    value: id.to_string(),
                    reason: "Function ID cannot be empty".to_string(),
                },
            );
        }
        let byte_len = id.as_bytes().len();
        if byte_len > MAX_FUNCTION_ID_BYTES {
            let mut reason = "Function ID too long: ".to_string();
            reason.append(decimal_string(byte_len as u64).as_str());
            reason.append(" chars (max 64)");
            return Err(
                HardValidationError::InvalidFieldValue {
                    field: "function_id",
                    value: id.to_string(),
                    reason,
                },
            );
        }
        let mut all_ok = true;
        for c in it: id.chars()
            invariant
                it.seq() == id@,
                all_ok <==> forall|j: int| 0 <= j < it.index() ==> #[trigger] is_id_char(it.seq()[j]),
        {
            let ok = char_is_alphanumeric(c) || c == '-' || c == '_';
            assert(ok == is_id_char(c));
            if !ok {
                all_ok = false;
            }
        }
        proof {
            if is_ascii_text(id@) {
                assert forall|i: int| 0 <= i < id@.len() implies (#[trigger] is_id_char(id@[i]) <==> is_ascii_id_char(id@[i])) by {
                    assert((id@[i] as u32) < 128);
                }
                assert((forall|i: int| 0 <= i < id@.len() ==> #[trigger] is_id_char(id@[i])) <==> (forall|i: int|
                    0 <= i < id@.len() ==> #[trigger] is_ascii_id_char(id@[i]))) by {
                    if forall|i: int| 0 <= i < id@.len() ==> #[trigger] is_id_char(id@[i]) {
                        assert forall|i: int| 0 <= i < id@.len() implies #[trigger] is_ascii_id_char(id@[i]) by {
                            assert(is_id_char(id@[i]));
                        }
                    }
                    if forall|i: int| 0 <= i < id@.len() ==> #[trigger] is_ascii_id_char(id@[i]) {
                        assert forall|i: int| 0 <= i < id@.len() implies #[trigger] is_id_char(id@[i]) by {
                            assert(is_ascii_id_char(id@[i]));
                        }
                    }
                }
            }
        }
        if !all_ok {
            return Err(
                HardValidationError::InvalidFieldValue {
                    field: "function_id",
                    value: id.to_string(),
                    reason: "Function ID must contain only alphanumeric characters, hyphens, and underscores".to_string(),
                },
            );
        }
        Ok(FunctionId(id.to_string()))
    }

    /// Whether two identifiers are the same text.
    pub fn same_as(&self, other: &FunctionId) -> (r: bool)
        ensures
            r == (self@ == other@),
    {
        self.0 == other.0
    }

    /// The identifier as text.
    pub fn as_str(&self) -> (r: &str)
        ensures
            r@ == self@,
            valid_function_id(self@),
    {
        proof {
            use_type_invariant(self);
        }
        self.0.as_str()
    }
}


/// Validated network port: never 0, which is reserved.
#[derive(Debug, Clone, Copy, PartialEq, Eq, Hash)]
pub struct Port(u16);

impl View for Port {
    type V = u16;

    closed spec fn view(&self) -> u16 {
        self.0
    }
}

impl Port {
    #[verifier::type_invariant]
    closed spec fn inv(self) -> bool {
        self.0 != 0
    }

    /// Create a port, refusing 0.
    pub fn new(port: u16) -> (res: Result<Port, HardValidationError>)
        ensures
            match res {
                Ok(p) => port != 0 && p@ == port,
                Err(e) => port == 0 && (e matches HardValidationError::InvalidPort { port: q, reason }
                    && q == port && reason@ == "Port 0 is reserved and cannot be used"@),
            },
    {
        if port == 0 {
            return Err(
                HardValidationError::InvalidPort {
                    port,
                    reason: "Port 0 is reserved and cannot be used".to_string(),
                },
            );
        }
        Ok(Port(port))
    }

    /// The port as displayed: its number in decimal.
    pub fn text(&self) -> (r: String)
        ensures
            r@ == decimal(self@ as nat),
    {
        decimal_string(self.value() as u64)
    }

    /// The port number.
    pub fn value(&self) -> (r: u16)
        ensures
            r == self@,
            r != 0,
    {
        proof {
            use_type_invariant(self);
        }
        self.0
    }
}

/// A memory limit within the allowed bounds.
pub open spec fn valid_memory_limit(bytes: u64) -> bool {
    MIN_MEMORY_LIMIT <= bytes <= MAX_MEMORY_LIMIT
}

/// Validated memory limit in bytes, between 1 MB and 16 GB.
#[derive(Debug, Clone, Copy, PartialEq, Eq)]
pub struct MemoryLimit(u64);

impl View for MemoryLimit {
    type V = u64;

    closed spec fn view(&self) -> u64 {
        self.0
    }
}

impl MemoryLimit {
    #[verifier::type_invariant]
    closed spec fn inv(self) -> bool {
        valid_memory_limit(self.0)
    }

    /// Create a memory limit, checking the bounds.
    pub fn new(bytes: u64) -> (res: Result<MemoryLimit, HardValidationError>)
        ensures
            match res {
                Ok(m) => valid_memory_limit(bytes) && m@ == bytes,
                Err(e) => !valid_memory_limit(bytes) && e == (
                HardValidationError::MemoryLimitOutOfBounds {
                    limit_bytes: bytes,
                    min: MIN_MEMORY_LIMIT,
                    max: MAX_MEMORY_LIMIT,
                }),
            },
    {
        if bytes < MIN_MEMORY_LIMIT || bytes > MAX_MEMORY_LIMIT {
            return Err(
                HardValidationError::MemoryLimitOutOfBounds {
                    limit_bytes: bytes,
                    min: MIN_MEMORY_LIMIT,
                    max: MAX_MEMORY_LIMIT,
                },
            );
        }
        Ok(MemoryLimit(bytes))
    }

    /// Create a memory limit from megabytes.
    pub fn from_mb(mb: u64) -> (res: Result<MemoryLimit, HardValidationError>)
        requires
            mb * BYTES_PER_MB <= u64::MAX,
        ensures
            match res {
                Ok(m) => valid_memory_limit((mb * BYTES_PER_MB) as u64) && m@ == mb * BYTES_PER_MB,
                Err(e) => !valid_memory_limit((mb * BYTES_PER_MB) as u64) && e == (
                HardValidationError::MemoryLimitOutOfBounds {
                    limit_bytes: (mb * BYTES_PER_MB) as u64,
                    min: MIN_MEMORY_LIMIT,
                    max: MAX_MEMORY_LIMIT,
                }),
            },
    {
        Self::new(mb * BYTES_PER_MB)
    }

    /// The limit in bytes.
    pub fn bytes(&self) -> (r: u64)
        ensures
            r == self@,
            valid_memory_limit(r),
    {
        proof {
            use_type_invariant(self);
        }
        self.0
    }

    /// The limit as displayed: its whole megabytes followed by `MB`.
    pub fn text(&self) -> (r: String)
        ensures
            r@ == decimal((self@ / BYTES_PER_MB) as nat) + "MB"@,
    {
        let mut t = decimal_string(self.megabytes());
        t.append("MB");
        t
    }

    /// The limit in whole megabytes (rounded down).
    pub fn megabytes(&self) -> (r: u64)
        ensures
            r == self@ / BYTES_PER_MB,
    {
        self.0 / BYTES_PER_MB
    }
}

/// Path of a function handler, kept as text.
#[derive(Debug, PartialEq, Eq)]
pub struct HandlerPath(String);

impl Clone for HandlerPath {
    fn clone(&self) -> (r: Self)
        ensures
            r@ == self@,
    {
        HandlerPath(self.0.clone())
    }
}

impl View for HandlerPath {
    type V = Seq<char>;

    closed spec fn view(&self) -> Seq<char> {
        self.0@
    }
}

impl HandlerPath {
    /// Create a handler path without checking the file system.
    pub fn new_unchecked(path: &str) -> (r: HandlerPath)
        ensures
            r@ == path@,
    {
        HandlerPath(path.to_string())
    }

    /// A handler path checked against what the file system reported of it:
    /// whether it exists, and its permission bits when they could be read.
    /// A missing path, or one whose mode has no execute bit, is refused; an
    /// unreadable mode is not held against it.
    pub fn from_inspection(path: &str, exists: bool, mode: Option<u32>) -> (res: Result<HandlerPath, HardValidationError>)
        ensures
            !exists ==> (res matches Err(HardValidationError::HandlerPathNotFound { path: p }) && p@ == path@),
            exists && (mode matches Some(m) && m & 0o111 == 0) ==> (res matches Err(
                HardValidationError::HandlerNotExecutable { path: p },
            ) && p@ == path@),
            exists && !(mode matches Some(m) && m & 0o111 == 0) ==> (res matches Ok(h) && h@ == path@),
    {
        if !exists {
            return Err(HardValidationError::HandlerPathNotFound { path: path.to_string() });
        }
        match mode {
            Some(m) => {
                if m & 0o111 == 0 {
                    return Err(HardValidationError::HandlerNotExecutable { path: path.to_string() });
                }
            },
            None => {},
        }
        Ok(HandlerPath(path.to_string()))
    }

    /// The path as text.
    pub fn as_path(&self) -> (r: &str)
        ensures
            r@ == self@,
    {
        self.0.as_str()
    }
}

/// Validated process identifier: never 0.
#[derive(Debug, Clone, Copy, PartialEq, Eq, Hash)]
pub struct ProcessId(u32);

impl View for ProcessId {
    type V = u32;

    closed spec fn view(&self) -> u32 {
        self.0
    }
}

impl ProcessId {
    #[verifier::type_invariant]
    closed spec fn inv(self) -> bool {
        self.0 != 0
    }

    /// Create a process identifier, refusing 0.
    pub fn new(pid: u32) -> (res: Result<ProcessId, HardValidationError>)
        ensures
            match res {
                Ok(p) => pid != 0 && p@ == pid,
                Err(e) => pid == 0 && (e matches HardValidationError::InvalidFieldValue { field, value, reason }
                    && field@ == "process_id"@ && value@ == "0"@ && reason@ == "Process ID 0 is reserved"@),
            },
    {
        proof {
            reveal_strlit("process_id");
            reveal_strlit("0");
            reveal_strlit("Process ID 0 is reserved");
        }
        if pid == 0 {
            return Err(
                HardValidationError::InvalidFieldValue {
                    field: "process_id",
                    value: "0".to_string(),
                    reason: "Process ID 0 is reserved".to_string(),
                },
            );
        }
        Ok(ProcessId(pid))
    }

    /// The identifier as displayed: its number in decimal.
    pub fn text(&self) -> (r: String)
        ensures
            r@ == decimal(self@ as nat),
    {
        decimal_string(self.value() as u64)
    }

    /// The process identifier.
    pub fn value(&self) -> (r: u32)
        ensures
            r == self@,
            r != 0,
    {
        proof {
            use_type_invariant(self);
        }
        self.0
    }
}

/// A memory limit is accepted exactly when it is between 1 MB and 16 GB.
pub proof fn law_memory_limit_bounds(bytes: u64)
    ensures
        valid_memory_limit(bytes) <==> 1048576 <= bytes <= 17179869184,
{
}

} // verus!
