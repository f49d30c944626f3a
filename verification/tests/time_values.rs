//! Time values handed back to the syscall layer.

use coopsched::syscall_process::TimeVal;

#[test]
fn microseconds_split_into_seconds_and_remainder() {
    let t = TimeVal::from_us(3_250_000);
    assert_eq!(t.sec, 3);
    assert_eq!(t.usec, 250_000);
    let t = TimeVal::from_us(999_999);
    assert_eq!(t.sec, 0);
    assert_eq!(t.usec, 999_999);
    let t = TimeVal::from_us(0);
    assert_eq!(t.sec, 0);
    assert_eq!(t.usec, 0);
}
