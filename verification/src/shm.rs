//! Shared-memory IPC: a region of bytes, a single-producer single-consumer
//! ring buffer of checksummed entries laid out in it, and payload checks.

pub mod codec;
pub mod region;
pub mod ring_buffer;
pub mod validator;

pub use region::SharedMemoryRegion;
pub use ring_buffer::RingBuffer;
pub use validator::PayloadValidator;
