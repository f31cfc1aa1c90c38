use bustd::error::Error;
use bustd::utils::{
    bytes_to_megabytes, bytes_until_first_nil, get_process_group, page_size, running_as_sudo,
    str_from_bytes,
};

#[test]
fn should_construct_string_slice_from_bytes() {
    assert_eq!(str_from_bytes(b"ABC\0").unwrap(), "ABC");
    assert_eq!(str_from_bytes(b"ABC\0abc").unwrap(), "ABC");
}

#[test]
fn str_from_bytes_without_nul_takes_everything() {
    assert_eq!(str_from_bytes(b"ABC").unwrap(), "ABC");
    assert_eq!(str_from_bytes(b"").unwrap(), "");
    assert_eq!(str_from_bytes(b"\0ABC").unwrap(), "");
    assert_eq!(str_from_bytes("h\u{e9}llo\0".as_bytes()).unwrap(), "h\u{e9}llo");
}

#[test]
fn str_from_bytes_refuses_what_is_not_utf8() {
    assert_eq!(str_from_bytes(b"AB\xff\0"), Err(Error::Unicode));
    assert_eq!(str_from_bytes(b"\xc3"), Err(Error::Unicode));
    assert_eq!(str_from_bytes(b"ok\0\xff").unwrap(), "ok");
}

#[test]
fn bytes_until_first_nil_stops_at_the_first_nul() {
    assert_eq!(bytes_until_first_nil(b"ab\0cd\0"), b"ab");
    assert_eq!(bytes_until_first_nil(b"\0"), b"");
    assert_eq!(bytes_until_first_nil(b"abcd"), b"abcd");
    assert_eq!(bytes_until_first_nil(b""), b"");
    let long = [7u8; 100];
    assert_eq!(bytes_until_first_nil(&long).len(), 100);
}

#[test]
fn bytes_to_megabytes_divides_before_it_multiplies() {
    assert_eq!(bytes_to_megabytes(16_000_000_000, 1), 16_000);
    assert_eq!(bytes_to_megabytes(1_999_999, 1), 1);
    assert_eq!(bytes_to_megabytes(999_999, 4096), 0);
    assert_eq!(bytes_to_megabytes(4_000_000, 4096), 16_384);
    assert_eq!(bytes_to_megabytes(0, 0), 0);
    assert_eq!(bytes_to_megabytes(u64::MAX, 1), 18_446_744_073_709);
}

#[test]
fn running_as_sudo_is_user_zero() {
    assert!(running_as_sudo(0));
    assert!(!running_as_sudo(1));
    assert!(!running_as_sudo(1000));
}

#[test]
fn get_process_group_tells_failures_apart() {
    assert_eq!(get_process_group(4242, 0), Ok(4242));
    assert_eq!(get_process_group(4242, libc::ESRCH), Ok(4242));
    assert_eq!(get_process_group(0, 0), Ok(0));
    assert_eq!(get_process_group(-1, libc::EPERM), Err(Error::NoPermission));
    assert_eq!(get_process_group(-1, libc::ESRCH), Err(Error::ProcessGroupNotFound));
    assert_eq!(get_process_group(-1, libc::EINVAL), Err(Error::InvalidPidSupplied));
    assert_eq!(get_process_group(-1, libc::ENOMEM), Err(Error::UnknownGetpguid));
    assert_eq!(get_process_group(-1, 0), Err(Error::UnknownGetpguid));
}

#[test]
fn page_size_fails_on_minus_one() {
    assert_eq!(page_size(4096), Ok(4096));
    assert_eq!(page_size(65536), Ok(65536));
    assert_eq!(page_size(-1), Err(Error::SysConfFailed));
}
