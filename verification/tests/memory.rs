use bustd::error::Error;
use bustd::memory::mem_info::{sys_info, MemoryInfo, SysInfo};
use bustd::memory::mem_lock::{LockRequest, LockStep, _mlockall_wrapper};
use bustd::memory::pressure::{parse_hundredths, pressure_some_avg10, Psi};
use bustd::memory::lock_memory_pages;

fn reading(totalram: u64, freeram: u64, totalswap: u64, freeswap: u64, mem_unit: u32) -> SysInfo {
    SysInfo { totalram, freeram, totalswap, freeswap, mem_unit }
}

#[test]
fn memory_info_is_in_megabytes_with_percentages() {
    let info = MemoryInfo::new(&reading(16_000_000_000, 4_000_000_000, 8_000_000_000, 6_000_000_000, 1));
    assert_eq!(
        info,
        Ok(MemoryInfo {
            total_ram_mb: 16_000,
            total_swap_mb: 8_000,
            available_ram_mb: 4_000,
            available_swap_mb: 6_000,
            available_ram_percent: 25,
            available_swap_percent: 75,
        })
    );
}

#[test]
fn memory_info_counts_in_units() {
    let info = MemoryInfo::new(&reading(4_000_000, 1_999_999, 3_000_000, 1_000_000, 4096)).unwrap();
    assert_eq!(info.total_ram_mb, 16_384);
    assert_eq!(info.available_ram_mb, 4_096);
    assert_eq!(info.available_ram_percent, 25);
    assert_eq!(info.total_swap_mb, 12_288);
    assert_eq!(info.available_swap_mb, 4_096);
    assert_eq!(info.available_swap_percent, 33);
}

#[test]
fn percentages_round_down_and_stay_within_bounds() {
    let info = MemoryInfo::new(&reading(3_000_000, 2_000_000, 7_000_000, 7_000_000, 1)).unwrap();
    assert_eq!(info.available_ram_percent, 66);
    assert_eq!(info.available_swap_percent, 100);
    let info = MemoryInfo::new(&reading(1_000_000_000, 999_000_000, 200_000_000, 1_000_000, 1)).unwrap();
    assert_eq!(info.available_ram_percent, 99);
    assert_eq!(info.available_swap_percent, 0);
    let big = u64::MAX;
    let info = MemoryInfo::new(&reading(big, big, big, big - 1_000_000, 1)).unwrap();
    assert_eq!(info.available_ram_percent, 100);
    assert_eq!(info.available_swap_percent, 99);
}

#[test]
fn without_swap_the_share_of_swap_is_zero() {
    let info = MemoryInfo::new(&reading(16_000_000_000, 4_000_000_000, 0, 0, 1)).unwrap();
    assert_eq!(info.total_swap_mb, 0);
    assert_eq!(info.available_swap_mb, 0);
    assert_eq!(info.available_swap_percent, 0);
    let info = MemoryInfo::new(&reading(16_000_000_000, 4_000_000_000, 999_999, 999_999, 1)).unwrap();
    assert_eq!(info.total_swap_mb, 0);
    assert_eq!(info.available_swap_percent, 0);
    let info = MemoryInfo::new(&reading(0, 0, 0, 0, 0)).unwrap();
    assert_eq!(info.available_ram_percent, 0);
    assert_eq!(info.available_swap_percent, 0);
}

#[test]
fn a_reading_that_makes_no_sense_is_refused() {
    assert_eq!(
        MemoryInfo::new(&reading(4_000_000, 5_000_000, 0, 0, 1)),
        Err(Error::SysInfoFailed)
    );
    assert_eq!(
        MemoryInfo::new(&reading(4_000_000, 4_000_000, 1_000_000, 2_000_000, 1)),
        Err(Error::SysInfoFailed)
    );
    assert_eq!(
        MemoryInfo::new(&reading(u64::MAX, 0, 0, 0, u32::MAX)),
        Err(Error::SysInfoFailed)
    );
    assert!(MemoryInfo::new(&reading(4_000_000, 4_999_999, 0, 0, 1)).is_ok());
}

#[test]
fn sys_info_fails_on_any_answer_but_zero() {
    let r = reading(1, 2, 3, 4, 5);
    assert_eq!(sys_info(0, r), Ok(r));
    assert_eq!(sys_info(-1, r), Err(Error::SysInfoFailed));
    assert_eq!(sys_info(1, r), Err(Error::SysInfoFailed));
}

#[test]
fn pressure_is_read_from_the_some_line() {
    let input = b"some avg10=12.34 avg60=5.00 avg300=1.00 total=9999\nfull avg10=0.00 ...\n";
    let psi = pressure_some_avg10(input).unwrap();
    assert_eq!(psi, Psi { hundredths: 1234 });
    assert_eq!(psi.hundredths as f32 / 100.0, 12.34);
}

#[test]
fn pressure_is_read_from_a_buffer_that_cuts_the_file_short() {
    let mut buf = [0u8; 100];
    let file = b"some avg10=0.00 avg60=0.00 avg300=0.00 total=0\nfull avg10=100.00 avg60=0.00 avg300=0.00 total=0\n";
    let n = buf.len().min(file.len());
    buf[..n].copy_from_slice(&file[..n]);
    assert_eq!(pressure_some_avg10(&buf), Ok(Psi { hundredths: 0 }));
    let mut buf = [0u8; 16];
    buf.copy_from_slice(b"some avg10=99.50");
    assert_eq!(pressure_some_avg10(&buf), Ok(Psi { hundredths: 9950 }));
    assert_eq!(pressure_some_avg10(b"some avg10=7.25\0garbage"), Ok(Psi { hundredths: 725 }));
}

#[test]
fn a_line_without_the_some_prefix_is_malformed() {
    let malformed = Err(Error::MalformedPressureFile);
    assert_eq!(pressure_some_avg10(b"full avg10=0.00 avg60=0.00 avg300=0.00 total=0\n"), malformed);
    assert_eq!(pressure_some_avg10(b"avg10=12.34 avg60=5.00\n"), malformed);
    assert_eq!(pressure_some_avg10(b"\nsome avg10=12.34\n"), malformed);
    assert_eq!(pressure_some_avg10(b"something avg10=12.34\n"), malformed);
    assert_eq!(pressure_some_avg10(b"Some avg10=12.34\n"), malformed);
    assert_eq!(pressure_some_avg10(b""), malformed);
    assert_eq!(pressure_some_avg10(b"\0some avg10=12.34\n"), malformed);
}

#[test]
fn a_line_without_the_field_or_the_number_is_malformed() {
    let malformed = Err(Error::MalformedPressureFile);
    assert_eq!(pressure_some_avg10(b"some\n"), malformed);
    assert_eq!(pressure_some_avg10(b"some avg10\n"), malformed);
    assert_eq!(pressure_some_avg10(b"some avg10 = 1.00\n"), malformed);
    assert_eq!(pressure_some_avg10(b"some avg10=\n"), malformed);
    assert_eq!(pressure_some_avg10(b"some avg10=abc\n"), malformed);
    assert_eq!(pressure_some_avg10(b"some avg10=.5\n"), malformed);
    assert_eq!(pressure_some_avg10(b"some avg10=1.2.3\n"), malformed);
    assert_eq!(pressure_some_avg10(b"some avg10=-1.00\n"), malformed);
    assert_eq!(pressure_some_avg10(b"some avg60=1.00 avg10=2.00\n"), malformed);
    assert_eq!(pressure_some_avg10(b"some avg10=99999999999.00\n"), malformed);
    assert_eq!(pressure_some_avg10(b"some avg10=1.00\xff\n"), Err(Error::Unicode));
}

#[test]
fn hundredths_keep_two_decimals() {
    assert_eq!(parse_hundredths(b"0.00"), Some(0));
    assert_eq!(parse_hundredths(b"25.00"), Some(2500));
    assert_eq!(parse_hundredths(b"25"), Some(2500));
    assert_eq!(parse_hundredths(b"25."), Some(2500));
    assert_eq!(parse_hundredths(b"25.5"), Some(2550));
    assert_eq!(parse_hundredths(b"25.05"), Some(2505));
    assert_eq!(parse_hundredths(b"25.059"), Some(2505));
    assert_eq!(parse_hundredths(b"100.00"), Some(10000));
    assert_eq!(parse_hundredths(b"007.10"), Some(710));
    assert_eq!(parse_hundredths(b"42949672.95"), Some(u32::MAX));
    assert_eq!(parse_hundredths(b"42949672.96"), None);
    assert_eq!(parse_hundredths(b"42949673"), None);
    assert_eq!(parse_hundredths(b"4294967296.00"), None);
    assert_eq!(parse_hundredths(b""), None);
    assert_eq!(parse_hundredths(b"."), None);
    assert_eq!(parse_hundredths(b"1.a"), None);
    assert_eq!(parse_hundredths(b"1e2"), None);
    assert_eq!(parse_hundredths(b"+1.0"), None);
    assert_eq!(parse_hundredths(b" 1.0"), None);
}

#[test]
fn mlockall_failures_are_told_apart() {
    assert_eq!(_mlockall_wrapper(0, 0), Ok(()));
    assert_eq!(_mlockall_wrapper(0, libc::EPERM), Ok(()));
    assert_eq!(_mlockall_wrapper(-1, libc::EAGAIN), Err(Error::CouldNotLockMemory));
    assert_eq!(_mlockall_wrapper(-1, libc::EINVAL), Err(Error::InvalidFlags));
    assert_eq!(_mlockall_wrapper(-1, libc::ENOMEM), Err(Error::TooMuchMemoryToLock));
    assert_eq!(_mlockall_wrapper(-1, libc::EPERM), Err(Error::NoPermission));
    assert_eq!(_mlockall_wrapper(-1, libc::ESRCH), Err(Error::UnknownMlockall));
    assert_eq!(_mlockall_wrapper(1, libc::EAGAIN), Err(Error::CouldNotLockMemory));
}

#[test]
fn locking_falls_back_to_locking_at_once() {
    assert_eq!(lock_memory_pages(None, None), LockStep::Try(LockRequest::CurrentFutureOnFault));
    assert_eq!(lock_memory_pages(Some(Ok(())), None), LockStep::Locked);
    assert_eq!(
        lock_memory_pages(Some(Err(Error::InvalidFlags)), None),
        LockStep::Try(LockRequest::CurrentFuture)
    );
    assert_eq!(lock_memory_pages(Some(Err(Error::InvalidFlags)), Some(Ok(()))), LockStep::Locked);
    assert_eq!(
        lock_memory_pages(Some(Err(Error::InvalidFlags)), Some(Err(Error::NoPermission))),
        LockStep::Failed(Error::NoPermission)
    );
}
