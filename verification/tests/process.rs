use bustd::error::{Error, Origin};
use bustd::process::{hold_against, Process};

#[test]
fn from_pid_reads_the_score() {
    assert_eq!(
        Process::from_pid(4321, b"666\n\0\0\0\0"),
        Ok(Process { pid: 4321, oom_score: 666 })
    );
    assert_eq!(Process::from_pid(2, b"0\n"), Ok(Process { pid: 2, oom_score: 0 }));
}

#[test]
fn from_pid_fails_as_process_not_found() {
    let missing = Err(Error::ProcessNotFound(Origin::FromPid));
    assert_eq!(Process::from_pid(7, b""), missing);
    assert_eq!(Process::from_pid(7, b"\0\0\0\0"), missing);
    assert_eq!(Process::from_pid(7, b"many\n"), missing);
    assert_eq!(Process::from_pid(7, b"\xff\n"), missing);
    assert_eq!(Process::from_pid(7, b"40000\n"), missing);
}

#[test]
fn default_process_is_all_zero() {
    assert_eq!(Process::default(), Process { pid: 0, oom_score: 0 });
}

#[test]
fn oom_score_from_pid_reads_a_trimmed_number() {
    assert_eq!(Process::oom_score_from_pid(b"0\n"), Ok(0));
    assert_eq!(Process::oom_score_from_pid(b"  1000 \n\0junk"), Ok(1000));
    assert_eq!(Process::oom_score_from_pid(b"32767"), Ok(32767));
    assert_eq!(Process::oom_score_from_pid(b"-32768"), Ok(-32768));
    assert_eq!(Process::oom_score_from_pid(b"32768"), Err(Error::ParseInt));
    assert_eq!(Process::oom_score_from_pid(b"-32769"), Err(Error::ParseInt));
    assert_eq!(Process::oom_score_from_pid(b""), Err(Error::ParseInt));
    assert_eq!(Process::oom_score_from_pid(b"1 2"), Err(Error::ParseInt));
    assert_eq!(Process::oom_score_from_pid(b"12\xfe"), Err(Error::Unicode));
}

#[test]
fn oom_score_adj_reads_a_signed_number() {
    assert_eq!(Process::oom_score_adj(b"-1000\n"), Ok(-1000));
    assert_eq!(Process::oom_score_adj(b"0\n"), Ok(0));
    assert_eq!(Process::oom_score_adj(b"+300\n"), Ok(300));
    assert_eq!(Process::oom_score_adj(b"\n"), Err(Error::ParseInt));
    assert_eq!(Process::oom_score_adj(b"\xc0\n"), Err(Error::Unicode));
}

#[test]
fn vm_rss_kib_is_pages_times_page_size_over_1024() {
    assert_eq!(Process::vm_rss_kib(b"2000 500 300 1 0 100 0\n", 4096), Ok(2000));
    assert_eq!(Process::vm_rss_kib(b"2000 1 300 1 0 100 0\n", 4096), Ok(4));
    assert_eq!(Process::vm_rss_kib(b"2000 3 300\n", 1000), Ok(2));
    assert_eq!(Process::vm_rss_kib(b"0 0 0 0 0 0 0\n", 4096), Ok(0));
    assert_eq!(Process::vm_rss_kib(b"9 7 1\n\0 8 8", 65536), Ok(448));
    assert_eq!(Process::vm_rss_kib(b"1 -3 1\n", 1000), Ok(-2));
}

#[test]
fn vm_rss_kib_fails_on_a_malformed_file() {
    assert_eq!(Process::vm_rss_kib(b"2000\n", 4096), Err(Error::MalformedStatm));
    assert_eq!(Process::vm_rss_kib(b"", 4096), Err(Error::MalformedStatm));
    assert_eq!(Process::vm_rss_kib(b"2000 x 1\n", 4096), Err(Error::ParseInt));
    assert_eq!(Process::vm_rss_kib(b"1 1.5 1\n", 4096), Err(Error::ParseInt));
    assert_eq!(Process::vm_rss_kib(b"1 \xff 1\n", 4096), Err(Error::Unicode));
    assert_eq!(
        Process::vm_rss_kib(b"1 9223372036854775807 1\n", 4096),
        Err(Error::MalformedStatm)
    );
    assert_eq!(Process::vm_rss_kib(b"1 9223372036854775807 1\n", 1), Ok(i64::MAX / 1024));
}

#[test]
fn comm_is_the_text_before_the_nul() {
    assert_eq!(Process::comm(b"bash\n\0\0\0"), Ok("bash\n"));
    assert_eq!(Process::comm(b"\0"), Ok(""));
    assert_eq!(Process::comm(b"\xff\xfe\n\0"), Err(Error::Unicode));
}

#[test]
fn is_alive_goes_by_a_positive_group() {
    assert!(Process::is_alive(1));
    assert!(Process::is_alive(31337));
    assert!(!Process::is_alive(0));
    assert!(!Process::is_alive(-1));
}

fn patterns(list: &[&str]) -> Vec<String> {
    list.iter().map(|p| p.to_string()).collect()
}

#[test]
fn is_unkillable_matches_the_trimmed_name() {
    let list = patterns(&["Xorg", "ssh*", "?nit", "[a-c]at"]);
    assert_eq!(Process::is_unkillable(b"Xorg\n\0\0", &list), Ok(true));
    assert_eq!(Process::is_unkillable(b"  sshd \n", &list), Ok(true));
    assert_eq!(Process::is_unkillable(b"ssh", &list), Ok(true));
    assert_eq!(Process::is_unkillable(b"init\n", &list), Ok(true));
    assert_eq!(Process::is_unkillable(b"bat\n", &list), Ok(true));
    assert_eq!(Process::is_unkillable(b"dat\n", &list), Ok(false));
    assert_eq!(Process::is_unkillable(b"xorg\n", &list), Ok(false));
    assert_eq!(Process::is_unkillable(b"Xorg2\n", &list), Ok(false));
    assert_eq!(Process::is_unkillable(b"firefox\n", &list), Ok(false));
    assert_eq!(Process::is_unkillable(b"firefox\n", &[]), Ok(false));
}

#[test]
fn is_unkillable_does_not_match_a_name_with_its_pattern_text() {
    let list = patterns(&["a*"]);
    assert_eq!(Process::is_unkillable(b"a*\n", &list), Ok(true));
    assert_eq!(Process::is_unkillable(b"abc\n", &list), Ok(true));
    let list = patterns(&["[ab]"]);
    assert_eq!(Process::is_unkillable(b"[ab]\n", &list), Ok(false));
    assert_eq!(Process::is_unkillable(b"a\n", &list), Ok(true));
}

#[test]
fn is_unkillable_fails_on_a_bad_pattern_before_a_match() {
    let list = patterns(&["nope", "[unclosed", "bash"]);
    assert_eq!(Process::is_unkillable(b"bash\n", &list), Err(Error::GlobPattern));
    let list = patterns(&["bash", "[unclosed"]);
    assert_eq!(Process::is_unkillable(b"bash\n", &list), Ok(true));
    assert_eq!(Process::is_unkillable(b"zsh\n", &list), Err(Error::GlobPattern));
    let list = patterns(&["a***b"]);
    assert_eq!(Process::is_unkillable(b"ab\n", &list), Err(Error::GlobPattern));
}

#[test]
fn is_unkillable_fails_on_a_name_that_is_not_utf8() {
    let list = patterns(&["*"]);
    assert_eq!(Process::is_unkillable(b"\xff\n", &list), Err(Error::Unicode));
    assert_eq!(Process::is_unkillable(b"caf\xc3\xa9\n", &list), Ok(true));
}

#[test]
fn a_name_is_trimmed_of_unicode_white_space_too() {
    let list = patterns(&["Xorg"]);
    assert_eq!(Process::is_unkillable("Xorg\u{a0}\n".as_bytes(), &list), Ok(true));
    assert_eq!(Process::is_unkillable("\u{3000}Xorg\u{2028}".as_bytes(), &list), Ok(true));
    assert_eq!(Process::is_unkillable("Xo\u{a0}rg\n".as_bytes(), &list), Ok(false));
    assert_eq!(Process::oom_score_from_pid("5\u{a0}\n".as_bytes()), Ok(5));
    assert_eq!(
        Process::from_pid(9, "5\u{a0}\n".as_bytes()),
        Ok(Process { pid: 9, oom_score: 5 })
    );
}

#[test]
fn one_pattern_settles_the_search_or_lets_it_go_on() {
    assert_eq!(hold_against(false, false), Some(Err(Error::GlobPattern)));
    assert_eq!(hold_against(false, true), Some(Err(Error::GlobPattern)));
    assert_eq!(hold_against(true, true), Some(Ok(true)));
    assert_eq!(hold_against(true, false), None);
}

#[test]
fn comm() {
    let mut buf = [0_u8; 100];
    buf[..6].copy_from_slice(b"bustd\n");
    let comm = Process::comm(&buf).unwrap();

    assert_eq!(comm.trim(), "bustd")
}

#[test]
fn oom_score() {
    let mut buf = [0_u8; 100];
    buf[..4].copy_from_slice(b"666\n");
    let this = Process::from_pid(4321, &buf).unwrap();

    assert_eq!(this.oom_score, 666_i32 as i16);
}

#[test]
fn pid() {
    let mut buf = [0_u8; 100];
    buf[..4].copy_from_slice(b"666\n");
    let this = Process::from_pid(4321, &buf).unwrap();

    assert_eq!(this.pid as i32, 4321);
}

#[test]
fn is_ignored_looks_at_every_pattern() {
    let list = patterns(&["[", "Xorg", "a***b", "ssh*"]);
    assert_eq!(Process::is_ignored(b"sshd\n", &list), Ok(true));
    assert_eq!(Process::is_ignored(b"Xorg\n\0", &list), Ok(true));
    assert_eq!(Process::is_ignored(b"xorg\n", &list), Ok(false));
    assert_eq!(Process::is_ignored(b"[\n", &list), Ok(false));
    assert_eq!(Process::is_ignored(b"sshd\n", &patterns(&["["])), Ok(false));
    assert_eq!(Process::is_ignored(b"sshd\n", &[]), Ok(false));
    assert_eq!(Process::is_ignored(b"\xff\n", &list), Err(Error::Unicode));
    assert_eq!(Process::is_ignored(b"\xff\n", &[]), Err(Error::Unicode));
    // In order, the search stops at the text that is no glob.
    assert_eq!(Process::is_unkillable(b"sshd\n", &list), Err(Error::GlobPattern));
}
