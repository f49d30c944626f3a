//! Concurrency core of a cooperative teaching kernel: a Banker's-Algorithm
//! deadlock detector, a per-process synchronization-resource registry with
//! its acquire/release coordination protocol, a round-robin cooperative
//! scheduler, and mmap/munmap address-space validation.

pub mod addrspace;
pub mod deadlock;
pub mod syscall_process;
pub mod syscall_sync;
pub mod task;
