//! The mmap/munmap validation contract over a thread's address space.

use coopsched::addrspace::PAGE_SIZE;
use coopsched::syscall_process::sys_mmap;
use coopsched::syscall_process::sys_munmap;
use coopsched::task::TaskManager;

fn fresh() -> TaskManager {
    let mut tm = TaskManager::new(1);
    tm.run_first_task(0);
    tm
}

fn translated(tm: &TaskManager, vpn: usize) -> Option<u8> {
    tm.tasks[tm.current_task].memory_set.translate(vpn)
}

#[test]
fn mmap_maps_every_page_with_user_permission() {
    let mut tm = fresh();
    // Read and write (bits 0 and 1), two pages.
    assert_eq!(sys_mmap(&mut tm, 0x10000, 2 * PAGE_SIZE, 0x3), 0);
    let perm = (0x3u8 << 1) | 0x10;
    assert_eq!(translated(&tm, 0x10000 / PAGE_SIZE), Some(perm));
    assert_eq!(translated(&tm, 0x10000 / PAGE_SIZE + 1), Some(perm));
    assert_eq!(translated(&tm, 0x10000 / PAGE_SIZE + 2), None);
}

#[test]
fn mmap_rounds_a_partial_page_up() {
    let mut tm = fresh();
    assert_eq!(sys_mmap(&mut tm, 0x20000, PAGE_SIZE + 1, 0x1), 0);
    assert_eq!(sys_munmap(&mut tm, 0x20000, 2 * PAGE_SIZE), 0);
}

#[test]
fn overlapping_mmap_is_refused_unchanged() {
    // A second map request sharing any page with a live mapping is refused
    // and the address space stays exactly as it was.
    let mut tm = fresh();
    assert_eq!(sys_mmap(&mut tm, 0x10000, 2 * PAGE_SIZE, 0x3), 0);
    assert_eq!(sys_mmap(&mut tm, 0x10000 + PAGE_SIZE, 2 * PAGE_SIZE, 0x7), -1);
    let perm = (0x3u8 << 1) | 0x10;
    assert_eq!(translated(&tm, 0x10000 / PAGE_SIZE), Some(perm));
    assert_eq!(translated(&tm, 0x10000 / PAGE_SIZE + 1), Some(perm));
    assert_eq!(translated(&tm, 0x10000 / PAGE_SIZE + 2), None);
    // Identical repeat: also refused (idempotent failure).
    assert_eq!(sys_mmap(&mut tm, 0x10000, 2 * PAGE_SIZE, 0x3), -1);
}

#[test]
fn munmap_of_a_never_mapped_range_is_refused() {
    let mut tm = fresh();
    assert_eq!(sys_munmap(&mut tm, 0x40000, PAGE_SIZE), -1);
    // Nothing was mutated: the range can still not be unmapped, and a map
    // request on it still succeeds.
    assert_eq!(sys_munmap(&mut tm, 0x40000, PAGE_SIZE), -1);
    assert_eq!(sys_mmap(&mut tm, 0x40000, PAGE_SIZE, 0x1), 0);
}

#[test]
fn munmap_of_a_partly_mapped_range_is_refused_unchanged() {
    let mut tm = fresh();
    assert_eq!(sys_mmap(&mut tm, 0x10000, PAGE_SIZE, 0x1), 0);
    assert_eq!(sys_munmap(&mut tm, 0x10000, 2 * PAGE_SIZE), -1);
    assert_eq!(translated(&tm, 0x10000 / PAGE_SIZE), Some((0x1u8 << 1) | 0x10));
}

#[test]
fn munmap_then_mmap_reuses_the_range() {
    let mut tm = fresh();
    assert_eq!(sys_mmap(&mut tm, 0x10000, PAGE_SIZE, 0x1), 0);
    assert_eq!(sys_munmap(&mut tm, 0x10000, PAGE_SIZE), 0);
    assert_eq!(translated(&tm, 0x10000 / PAGE_SIZE), None);
    assert_eq!(sys_mmap(&mut tm, 0x10000, PAGE_SIZE, 0x7), 0);
    assert_eq!(translated(&tm, 0x10000 / PAGE_SIZE), Some((0x7u8 << 1) | 0x10));
}

#[test]
fn malformed_requests_are_refused() {
    let mut tm = fresh();
    // Misaligned start.
    assert_eq!(sys_mmap(&mut tm, 0x10001, PAGE_SIZE, 0x3), -1);
    assert_eq!(sys_munmap(&mut tm, 0x10001, PAGE_SIZE), -1);
    // No permission bits at all.
    assert_eq!(sys_mmap(&mut tm, 0x10000, PAGE_SIZE, 0x0), -1);
    // Bits outside the low three.
    assert_eq!(sys_mmap(&mut tm, 0x10000, PAGE_SIZE, 0x8), -1);
    assert_eq!(sys_mmap(&mut tm, 0x10000, PAGE_SIZE, 0xb), -1);
}

#[test]
fn zero_length_requests_touch_no_page() {
    let mut tm = fresh();
    assert_eq!(sys_mmap(&mut tm, 0x10000, 0, 0x3), 0);
    assert_eq!(translated(&tm, 0x10000 / PAGE_SIZE), None);
    assert_eq!(sys_munmap(&mut tm, 0x10000, 0), 0);
}
