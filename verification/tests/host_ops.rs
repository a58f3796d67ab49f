use asteria::ops::{
    accept_read_chunk, apply_dir_page, check_fs_result, check_is_file, check_panic_accepted,
    check_reset_accepted, pull_step, PullStep, format_storage_report, list_page_size, map_fs_error, natural_cmp_ascii,
    next_read_len, sort_dir_entries, storage_report_of, DirEntry, ListDirStep, StorageReport,
};
use asteria::wire_types::{fits_wire_capacity, FS_PATH_CAP};
use asteria::wire_types::{FsDirEntry, FsError, FsListDirResp, FsNodeKind, FsReadFileResp};
use std::cmp::Ordering;

#[test]
fn natural_order_compares_numbers_by_value() {
    assert_eq!(natural_cmp_ascii("file2", "file10"), Ordering::Less);
    assert_eq!(natural_cmp_ascii("file10", "file2"), Ordering::Greater);
    assert_eq!(natural_cmp_ascii("log_9.bin", "log_10.bin"), Ordering::Less);
}

#[test]
fn natural_order_ignores_ascii_case() {
    assert_eq!(natural_cmp_ascii("File", "file"), Ordering::Equal);
    assert_eq!(natural_cmp_ascii("a", "B"), Ordering::Less);
}

#[test]
fn natural_order_leading_zeros_and_length() {
    assert_eq!(natural_cmp_ascii("a01", "a1"), Ordering::Greater);
    assert_eq!(natural_cmp_ascii("a1", "a01"), Ordering::Less);
    assert_eq!(natural_cmp_ascii("abc", "ab"), Ordering::Greater);
    assert_eq!(natural_cmp_ascii("", ""), Ordering::Equal);
}

#[test]
fn natural_order_is_antisymmetric_on_samples() {
    let names = ["a", "A1", "a01", "a10", "b", "file2", "file10", "x9y", "x09y", ""];
    for a in names {
        assert_eq!(natural_cmp_ascii(a, a), Ordering::Equal);
        for b in names {
            assert_eq!(natural_cmp_ascii(a, b), natural_cmp_ascii(b, a).reverse());
        }
    }
}

fn entry(kind: FsNodeKind, name: &str) -> DirEntry {
    DirEntry { kind, name: name.to_string() }
}

#[test]
fn sort_puts_directories_first_then_natural_order() {
    let mut v = vec![
        entry(FsNodeKind::File, "b"),
        entry(FsNodeKind::Dir, "z"),
        entry(FsNodeKind::File, "a10"),
        entry(FsNodeKind::File, "a2"),
        entry(FsNodeKind::Dir, "logs_3"),
    ];
    sort_dir_entries(&mut v);
    let names: Vec<&str> = v.iter().map(|e| e.name.as_str()).collect();
    assert_eq!(names, ["logs_3", "z", "a2", "a10", "b"]);
}

#[test]
fn sort_keeps_equal_names_in_input_order() {
    let mut v = vec![
        entry(FsNodeKind::File, "file"),
        entry(FsNodeKind::File, "b"),
        entry(FsNodeKind::File, "File"),
        entry(FsNodeKind::File, "a"),
    ];
    sort_dir_entries(&mut v);
    let names: Vec<&str> = v.iter().map(|e| e.name.as_str()).collect();
    assert_eq!(names, ["a", "b", "file", "File"]);
}

#[test]
fn sorting_twice_gives_the_same_list() {
    let mut v = vec![
        entry(FsNodeKind::File, "x9"),
        entry(FsNodeKind::Dir, "B"),
        entry(FsNodeKind::File, "X10"),
        entry(FsNodeKind::Dir, "a"),
    ];
    sort_dir_entries(&mut v);
    let once: Vec<String> = v.iter().map(|e| e.name.clone()).collect();
    sort_dir_entries(&mut v);
    let twice: Vec<String> = v.iter().map(|e| e.name.clone()).collect();
    assert_eq!(once, twice);
    assert_eq!(once, ["a", "B", "x9", "X10"]);
}

#[test]
fn fs_error_messages() {
    assert_eq!(map_fs_error("fs/stat", "/x", FsError::NotFound), "path not found: /x");
    assert_eq!(map_fs_error("fs/stat", "/x", FsError::NotDir), "not a directory: /x");
    assert_eq!(map_fs_error("fs/stat", "/x", FsError::IsDir), "is a directory: /x");
    assert_eq!(
        map_fs_error("fs/read", "/x", FsError::OffsetOutOfRange),
        "offset out of range for /x"
    );
    assert_eq!(
        map_fs_error("fs/read", "/x", FsError::Io),
        "filesystem I/O error during fs/read for /x"
    );
    assert_eq!(
        map_fs_error("fs/remove", "/x", FsError::Busy),
        "path is busy/protected during fs/remove: /x"
    );
    assert_eq!(
        map_fs_error("fs/list_dir", "/x", FsError::EpochMismatch),
        "filesystem changed during fs/list_dir for /x"
    );
    assert_eq!(
        map_fs_error("fs/info", "/", FsError::Success),
        "fs/info returned unexpected ok sentinel for /"
    );
}

#[test]
fn fs_result_checks() {
    assert!(check_fs_result("fs/stat", "/a", FsError::Success).is_ok());
    assert_eq!(
        check_fs_result("fs/stat", "/a", FsError::NotFound).unwrap_err(),
        "path not found: /a"
    );
    assert!(check_reset_accepted(true).is_ok());
    assert_eq!(check_reset_accepted(false).unwrap_err(), "device rejected reset request");
    assert!(check_panic_accepted(true).is_ok());
    assert_eq!(check_panic_accepted(false).unwrap_err(), "device rejected panic request");
    assert!(check_is_file(FsNodeKind::File, "/f").is_ok());
    assert_eq!(check_is_file(FsNodeKind::Dir, "/d").unwrap_err(), "is a directory: /d");
}

#[test]
fn storage_report_text() {
    let report = StorageReport { epoch: 7, max_chunk: 512, max_dir_entries: 32 };
    assert_eq!(
        format_storage_report(&report),
        "Filesystem info:\n  Epoch: 7\n  Max chunk: 512 bytes\n  Max dir entries/page: 32"
    );
    let r = storage_report_of(4294967295, 65535, 0);
    assert_eq!(
        format_storage_report(&r),
        "Filesystem info:\n  Epoch: 4294967295\n  Max chunk: 65535 bytes\n  Max dir entries/page: 0"
    );
}

#[test]
fn list_page_size_is_at_least_one() {
    assert_eq!(list_page_size(0), 1);
    assert_eq!(list_page_size(32), 32);
}

#[test]
fn dir_pages_drop_dot_entries_and_follow_cursor() {
    let mut out = Vec::new();
    let page = FsListDirResp {
        err: FsError::Success,
        epoch: 1,
        entries: vec![
            FsDirEntry { kind: FsNodeKind::Dir, name: ".".to_string() },
            FsDirEntry { kind: FsNodeKind::Dir, name: "..".to_string() },
            FsDirEntry { kind: FsNodeKind::File, name: "a.txt".to_string() },
        ],
        next_cursor: 3,
    };
    let step = apply_dir_page(&mut out, page, "/").unwrap();
    assert!(matches!(step, ListDirStep::Continue(3)));
    assert_eq!(out.len(), 1);
    assert_eq!(out[0].name, "a.txt");
    let last = FsListDirResp {
        err: FsError::Success,
        epoch: 1,
        entries: vec![FsDirEntry { kind: FsNodeKind::Dir, name: "logs".to_string() }],
        next_cursor: 0,
    };
    let step = apply_dir_page(&mut out, last, "/").unwrap();
    assert!(matches!(step, ListDirStep::Done));
    assert_eq!(out.len(), 2);
    let bad = FsListDirResp { err: FsError::NotDir, epoch: 1, entries: vec![], next_cursor: 0 };
    assert_eq!(apply_dir_page(&mut out, bad, "/f").unwrap_err(), "not a directory: /f");
    assert_eq!(out.len(), 2);
}

#[test]
fn read_request_lengths() {
    assert_eq!(next_read_len(0, 10, 0), 1);
    assert_eq!(next_read_len(512, 1000, 900), 100);
    assert_eq!(next_read_len(512, 1000, 0), 512);
    assert_eq!(next_read_len(512, 10, 10), 1);
}

fn chunk(err: FsError, offset: u32, data: &[u8]) -> FsReadFileResp {
    FsReadFileResp { err, epoch: 0, offset, data: data.to_vec(), done: false }
}

#[test]
fn read_chunks_are_checked() {
    let mut out = Vec::new();
    let next = accept_read_chunk(&mut out, "/f", 0, 5, &chunk(FsError::Success, 0, b"abc")).unwrap();
    assert_eq!(next, 3);
    assert_eq!(out, b"abc");
    assert_eq!(
        accept_read_chunk(&mut out, "/f", 3, 5, &chunk(FsError::Success, 4, b"d")).unwrap_err(),
        "rpc fs/read returned unexpected offset: expected 3, got 4"
    );
    assert_eq!(
        accept_read_chunk(&mut out, "/f", 3, 5, &chunk(FsError::Success, 3, b"")).unwrap_err(),
        "rpc fs/read returned empty data before reaching snapshot size at offset 3"
    );
    assert_eq!(
        accept_read_chunk(&mut Vec::new(), "/f", 3, 5, &chunk(FsError::Success, 3, b"xyz"))
            .unwrap_err(),
        "rpc fs/read returned more bytes than requested snapshot size for /f"
    );
    assert_eq!(
        accept_read_chunk(&mut Vec::new(), "/f", 3, 5, &chunk(FsError::Io, 3, b"x")).unwrap_err(),
        "filesystem I/O error during fs/read for /f"
    );
    assert_eq!(
        accept_read_chunk(
            &mut Vec::new(),
            "/f",
            u32::MAX - 1,
            u32::MAX,
            &chunk(FsError::Success, u32::MAX - 1, b"xyz")
        )
        .unwrap_err(),
        "offset overflow while reading /f"
    );
}

#[test]
fn wire_capacity_counts_bytes() {
    assert!(fits_wire_capacity("é", 2));
    assert!(!fits_wire_capacity("é", 1));
    assert!(fits_wire_capacity("", 0));
    assert!(fits_wire_capacity(&"a".repeat(FS_PATH_CAP), FS_PATH_CAP));
    assert!(!fits_wire_capacity(&"a".repeat(FS_PATH_CAP + 1), FS_PATH_CAP));
}

#[test]
fn natural_order_equal_only_up_to_ascii_case() {
    assert_eq!(natural_cmp_ascii("Log_07.BIN", "log_07.bin"), Ordering::Equal);
    assert_ne!(natural_cmp_ascii("log_7.bin", "log_07.bin"), Ordering::Equal);
    assert_ne!(natural_cmp_ascii("log", "log "), Ordering::Equal);
    assert_ne!(natural_cmp_ascii("é", "É"), Ordering::Equal);
}

#[test]
fn pull_steps_follow_the_pull_order() {
    assert!(matches!(pull_step("/f", 0, 5, &chunk(FsError::Success, 0, b"abc")), PullStep::Continue(3)));
    match pull_step("/f", 3, 5, &chunk(FsError::Success, 3, b"xyz")) {
        PullStep::WriteReportThenFail(m) => {
            assert_eq!(m, "rpc fs/read returned more bytes than requested snapshot size for /f")
        }
        other => panic!("unexpected {:?}", other),
    }
    match pull_step("/f", u32::MAX - 1, u32::MAX, &chunk(FsError::Success, u32::MAX - 1, b"xyz")) {
        PullStep::WriteThenFail(m) => assert_eq!(m, "offset overflow while pulling /f"),
        other => panic!("unexpected {:?}", other),
    }
    match pull_step("/f", 2, 5, &chunk(FsError::Success, 1, b"x")) {
        PullStep::Fail(m) => {
            assert_eq!(m, "rpc fs/read returned unexpected offset: expected 2, got 1")
        }
        other => panic!("unexpected {:?}", other),
    }
    match pull_step("/f", 2, 5, &chunk(FsError::Success, 2, b"")) {
        PullStep::Fail(m) => assert_eq!(
            m,
            "rpc fs/read returned empty data before reaching snapshot size at offset 2"
        ),
        other => panic!("unexpected {:?}", other),
    }
    match pull_step("/f", 0, 5, &chunk(FsError::NotFound, 0, b"")) {
        PullStep::Fail(m) => assert_eq!(m, "path not found: /f"),
        other => panic!("unexpected {:?}", other),
    }
}
