//! A named region of bytes shared between the orchestrator and a function.

use vstd::prelude::*;

use vstd::string::StringExecFns;

use crate::error::SharedMemoryError;
use crate::text::{decimal, decimal_string};
use crate::shm::codec::{byte_of_u64, le_u64_at, lemma_u64_roundtrip, u64_byte};

verus! {

/// Smallest region size: 4 KB.
pub const REGION_MIN_SIZE: usize = 4096;

/// Largest region size: 1 GB.
pub const REGION_MAX_SIZE: usize = 1073741824;

/// Sizes a region may have.
pub open spec fn valid_region_size(size: nat) -> bool {
    REGION_MIN_SIZE <= size <= REGION_MAX_SIZE
}

/// A named, zero-initialized region of bytes of a fixed size.
pub struct SharedMemoryRegion {
    name: String,
    mem: Vec<u8>,
}

/// The name and the contents of a region.
pub struct RegionView {
    pub name: Seq<char>,
    pub bytes: Seq<u8>,
}

impl View for SharedMemoryRegion {
    type V = RegionView;

    closed spec fn view(&self) -> RegionView {
        RegionView { name: self.name@, bytes: self.mem@ }
    }
}

impl SharedMemoryRegion {
    /// Smallest region size: 4 KB.
    pub const MIN_SIZE: usize = 4096;

    /// Largest region size: 1 GB.
    pub const MAX_SIZE: usize = 1073741824;

    /// Check a request for a region: the size must lie in [4 KB, 1 GB] and
    /// the name must not be empty, checked in that order.
    pub fn check_request(name: &str, size: usize) -> (res: Result<(), SharedMemoryError>)
        ensures
            res is Ok <==> valid_region_size(size as nat) && name@.len() > 0,
            match res {
                Ok(_) => true,
                Err(e) => e matches SharedMemoryError::CreateFailed { name: n, reason } && n@ == name@ && reason@ == (
                if size < REGION_MIN_SIZE {
                    "Size "@ + decimal(size as nat) + " is below minimum 4096"@
                } else if size > REGION_MAX_SIZE {
                    "Size "@ + decimal(size as nat) + " exceeds maximum 1073741824"@
                } else {
                    "Name cannot be empty"@
                }),
            },
    {
        if size < REGION_MIN_SIZE {
            let mut reason = "Size ".to_string();
            reason.append(decimal_string(size as u64).as_str());
            reason.append(" is below minimum 4096");
            return Err(SharedMemoryError::CreateFailed { name: name.to_string(), reason });
        }
        if size > REGION_MAX_SIZE {
            let mut reason = "Size ".to_string();
            reason.append(decimal_string(size as u64).as_str());
            reason.append(" exceeds maximum 1073741824");
            return Err(SharedMemoryError::CreateFailed { name: name.to_string(), reason });
        }
        if name.is_empty() {
            return Err(
                SharedMemoryError::CreateFailed {
                    name: name.to_string(),
                    reason: "Name cannot be empty".to_string(),
                },
            );
        }
        Ok(())
    }

    /// Create a zero-filled region; the size must lie in [4 KB, 1 GB] and the
    /// name must not be empty, checked in that order.
    pub fn create(name: &str, size: usize) -> (res: Result<SharedMemoryRegion, SharedMemoryError>)
        ensures
            res is Ok <==> valid_region_size(size as nat) && name@.len() > 0,
            match res {
                Ok(r) => r@.name == name@ && r@.bytes == Seq::new(size as nat, |i: int| 0u8),
                Err(e) => e matches SharedMemoryError::CreateFailed { name: n, reason } && n@ == name@ && reason@ == (
                if size < REGION_MIN_SIZE {
                    "Size "@ + decimal(size as nat) + " is below minimum 4096"@
                } else if size > REGION_MAX_SIZE {
                    "Size "@ + decimal(size as nat) + " exceeds maximum 1073741824"@
                } else {
                    "Name cannot be empty"@
                }),
            },
    {
        match Self::check_request(name, size) {
            Ok(()) => {},
            Err(e) => {
                return Err(e);
            },
        }
        let mut mem: Vec<u8> = Vec::with_capacity(size);
        let mut i: usize = 0;
        while i < size
            invariant
                i <= size,
                mem@.len() == i,
                forall|j: int| 0 <= j < i ==> #[trigger] mem@[j] == 0u8,
            decreases size - i,
        {
            mem.push(0u8);
            i = i + 1;
        }
        assert(mem@ == Seq::new(size as nat, |i: int| 0u8));
        Ok(SharedMemoryRegion { name: name.to_string(), mem })
    }

    /// Take over existing contents under a name; the size must lie in
    /// [4 KB, 1 GB].
    pub fn open(name: &str, contents: Vec<u8>) -> (res: Result<SharedMemoryRegion, SharedMemoryError>)
        ensures
            res is Ok <==> valid_region_size(contents@.len()),
            match res {
                Ok(r) => r@.name == name@ && r@.bytes == contents@,
                Err(e) => e matches SharedMemoryError::CreateFailed { name: n, reason } && n@ == name@ && reason@ == "Invalid size: "@
                    + decimal(contents@.len()),
            },
    {
        let size = contents.len();
        if size < REGION_MIN_SIZE || size > REGION_MAX_SIZE {
            let mut reason = "Invalid size: ".to_string();
            reason.append(decimal_string(size as u64).as_str());
            return Err(SharedMemoryError::CreateFailed { name: name.to_string(), reason });
        }
        Ok(SharedMemoryRegion { name: name.to_string(), mem: contents })
    }

    /// The region's name.
    pub fn name(&self) -> (r: &str)
        ensures
            r@ == self@.name,
    {
        self.name.as_str()
    }

    /// The region's size in bytes.
    pub fn size(&self) -> (r: usize)
        ensures
            r == self@.bytes.len(),
    {
        self.mem.len()
    }

    /// Read-only view of the region's bytes.
    pub fn as_slice(&self) -> (r: &[u8])
        ensures
            r@ == self@.bytes,
    {
        self.mem.as_slice()
    }

    /// Overwrite byte `i` of the region.
    pub fn set_byte(&mut self, i: usize, b: u8)
        requires
            i < old(self)@.bytes.len(),
        ensures
            final(self)@.name == old(self)@.name,
            final(self)@.bytes == old(self)@.bytes.update(i as int, b),
    {
        self.mem.set(i, b);
    }

    /// Store `x` little-endian at `off`; nothing else changes.
    pub fn write_u64_le(&mut self, off: usize, x: u64)
        requires
            off + 8 <= old(self)@.bytes.len(),
        ensures
            final(self)@.name == old(self)@.name,
            final(self)@.bytes.len() == old(self)@.bytes.len(),
            le_u64_at(final(self)@.bytes, off as int) == x,
            forall|i: int|
                0 <= i < old(self)@.bytes.len() && !(off <= i < off + 8) ==> #[trigger] final(self)@.bytes[i]
                    == old(self)@.bytes[i],
    {
        let n = self.size();
        let mut k: u64 = 0;
        while k < 8
            invariant
                0 <= k <= 8,
                n == old(self)@.bytes.len(),
                off + 8 <= n,
                self@.name == old(self)@.name,
                self@.bytes.len() == old(self)@.bytes.len(),
                forall|j: int| 0 <= j < k ==> #[trigger] self@.bytes[off + j] == byte_of_u64(x, j as u64),
                forall|i: int|
                    0 <= i < old(self)@.bytes.len() && !(off <= i < off + 8) ==> #[trigger] self@.bytes[i]
                        == old(self)@.bytes[i],
            decreases 8 - k,
        {
            let b = u64_byte(x, k);
            self.set_byte(off + k as usize, b);
            k = k + 1;
        }
        proof {
            lemma_u64_roundtrip(x);
            let t = seq![
                byte_of_u64(x, 0),
                byte_of_u64(x, 1),
                byte_of_u64(x, 2),
                byte_of_u64(x, 3),
                byte_of_u64(x, 4),
                byte_of_u64(x, 5),
                byte_of_u64(x, 6),
                byte_of_u64(x, 7),
            ];
            let s = self@.bytes;
            assert(s[off + 0] == t[0]);
            assert(s[off + 1] == t[1]);
            assert(s[off + 2] == t[2]);
            assert(s[off + 3] == t[3]);
            assert(s[off + 4] == t[4]);
            assert(s[off + 5] == t[5]);
            assert(s[off + 6] == t[6]);
            assert(s[off + 7] == t[7]);
        }
    }

    /// The region's bytes.
    pub(crate) fn bytes(&self) -> (r: &Vec<u8>)
        ensures
            r@ == self@.bytes,
    {
        &self.mem
    }

    /// Give up the region and take its bytes.
    pub fn into_bytes(self) -> (r: Vec<u8>)
        ensures
            r@ == self@.bytes,
    {
        self.mem
    }
}

/// A region size is accepted exactly when it is between 4 KB and 1 GB.
pub proof fn law_region_size_bounds(size: nat)
    ensures
        valid_region_size(size) <==> 4096 <= size <= 1073741824,
{
}

} // verus!
