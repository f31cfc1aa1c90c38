use bustd::error::Error;
use bustd::procfs::{write_path, ProcFile};

fn path(pid: u32, file: ProcFile) -> Vec<u8> {
    let mut buf = [0xaau8; 50];
    let n = write_path(pid, file, &mut buf).unwrap();
    assert!(buf[n..].iter().all(|b| *b == 0xaa));
    buf[..n].to_vec()
}

#[test]
fn paths_name_the_process_and_the_file() {
    assert_eq!(path(1234, ProcFile::Comm), b"/proc/1234/comm\0");
    assert_eq!(path(1234, ProcFile::OomScore), b"/proc/1234/oom_score\0");
    assert_eq!(path(1234, ProcFile::OomScoreAdj), b"/proc/1234/oom_score_adj\0");
    assert_eq!(path(1234, ProcFile::Statm), b"/proc/1234/statm\0");
    assert_eq!(ProcFile::Statm.file_name(), "statm");
}

#[test]
fn paths_fit_for_pids_at_the_bounds() {
    assert_eq!(path(0, ProcFile::Comm), b"/proc/0/comm\0");
    assert_eq!(path(9, ProcFile::Comm), b"/proc/9/comm\0");
    assert_eq!(path(10, ProcFile::Comm), b"/proc/10/comm\0");
    assert_eq!(path(99_999, ProcFile::OomScoreAdj), b"/proc/99999/oom_score_adj\0");
    assert_eq!(path(4_194_304, ProcFile::OomScoreAdj), b"/proc/4194304/oom_score_adj\0");
    assert_eq!(path(1_000_000_000, ProcFile::Statm), b"/proc/1000000000/statm\0");
    assert_eq!(path(u32::MAX, ProcFile::OomScoreAdj), b"/proc/4294967295/oom_score_adj\0");
    assert_eq!(path(u32::MAX, ProcFile::OomScoreAdj).len(), 31);
}

#[test]
fn a_path_that_fills_the_buffer_fits() {
    let mut buf = [0u8; 16];
    assert_eq!(write_path(1234, ProcFile::Comm, &mut buf), Ok(16));
    assert_eq!(&buf, b"/proc/1234/comm\0");
}

#[test]
fn a_path_longer_than_the_buffer_is_an_error() {
    let mut buf = [0u8; 15];
    assert_eq!(write_path(1234, ProcFile::Comm, &mut buf), Err(Error::Io));
    assert_eq!(&buf, b"/proc/1234/comm");
    let mut buf = [0u8; 8];
    assert_eq!(write_path(1234, ProcFile::Comm, &mut buf), Err(Error::Io));
    assert_eq!(&buf, b"/proc/12");
    let mut buf = [0u8; 0];
    assert_eq!(write_path(1234, ProcFile::Comm, &mut buf), Err(Error::Io));
}

#[test]
fn a_path_overwrites_the_start_of_the_buffer_only() {
    let mut buf = *b"0123456789abcdefghijklmnopqrstuvwxyz";
    assert_eq!(write_path(7, ProcFile::Statm, &mut buf), Ok(14));
    assert_eq!(&buf, b"/proc/7/statm\0efghijklmnopqrstuvwxyz");
}

#[test]
fn the_digits_of_a_path_read_back_as_the_process_id() {
    for pid in [2_u32, 9, 10, 4242, 99_999, 4_194_304, u32::MAX] {
        let written = path(pid, ProcFile::Statm);
        let digits = &written[6..written.len() - 7];
        assert_eq!(bustd::kill::candidate_pid(digits), Some(pid));
    }
    for pid in [0_u32, 1] {
        let written = path(pid, ProcFile::Statm);
        let digits = &written[6..written.len() - 7];
        assert_eq!(bustd::kill::candidate_pid(digits), None);
    }
}
