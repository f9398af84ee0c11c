use file_explorer::errors::FsError;
use file_explorer::listing::ChildMeta;
use file_explorer::listing::build_entry;
use file_explorer::listing::build_listing;
use file_explorer::listing::check_dir_target;
use file_explorer::listing::entry_for_child;
use file_explorer::listing::extension_of;
use file_explorer::paths::is_safe_relative;
use file_explorer::paths::join_under;
use file_explorer::rename::plan_rename;
use file_explorer::rename::prepare_rename;
use file_explorer::rename::rename_outcome;
use file_explorer::text::decode_text;
use file_explorer::text::is_valid_utf8_bytes;
use file_explorer::timefmt::CivilTime;
use file_explorer::timefmt::format_civil;
use file_explorer::timefmt::format_local_timestamp;

#[test]
fn extension_plain_file() {
    assert_eq!(extension_of("a.txt", false), Some("txt".to_string()));
    assert_eq!(extension_of("report.pdf", false), Some("pdf".to_string()));
}

#[test]
fn extension_takes_final_dot() {
    assert_eq!(extension_of("archive.tar.gz", false), Some("gz".to_string()));
    assert_eq!(extension_of("a.b.c.d", false), Some("d".to_string()));
}

#[test]
fn extension_absent_without_dot() {
    assert_eq!(extension_of("Makefile", false), None);
    assert_eq!(extension_of("x", false), None);
}

#[test]
fn extension_hidden_file_has_none() {
    assert_eq!(extension_of(".gitignore", false), None);
    assert_eq!(extension_of(".bashrc", false), None);
}

#[test]
fn extension_hidden_file_with_second_dot() {
    assert_eq!(extension_of(".bashrc.bak", false), Some("bak".to_string()));
}

#[test]
fn extension_trailing_dot_is_empty() {
    assert_eq!(extension_of("foo.", false), Some("".to_string()));
}

#[test]
fn extension_none_for_directories() {
    assert_eq!(extension_of("src.d", true), None);
    assert_eq!(extension_of("a.txt", true), None);
    assert_eq!(extension_of("plain", true), None);
}

#[test]
fn join_builds_child_path() {
    assert_eq!(join_under("/data", "a.txt"), "/data/a.txt".to_string());
    assert_eq!(join_under("base", "sub"), "base/sub".to_string());
}

#[test]
fn safe_relative_accepts_ordinary_names() {
    assert!(is_safe_relative("a.txt"));
    assert!(is_safe_relative("docs/notes.md"));
    assert!(is_safe_relative("a..b"));
    assert!(is_safe_relative("..."));
    assert!(is_safe_relative("dots..everywhere..txt"));
}

#[test]
fn safe_relative_rejects_traversal_and_absolute() {
    assert!(!is_safe_relative(".."));
    assert!(!is_safe_relative("../x"));
    assert!(!is_safe_relative("a/../b"));
    assert!(!is_safe_relative("a/.."));
    assert!(!is_safe_relative("/etc/passwd"));
    assert!(!is_safe_relative(""));
}

#[test]
fn safe_relative_rejects_backslash() {
    assert!(!is_safe_relative("..\\x"));
    assert!(!is_safe_relative("a\\b"));
    assert!(!is_safe_relative("\\server\\share"));
}

#[test]
fn plan_rename_rejects_backslash_traversal() {
    let r = plan_rename("/home/u", "docs", "..\\..\\etc\\passwd", "b.txt");
    assert_eq!(r.unwrap_err(), FsError::PathEscapesSandbox);
}

#[test]
fn check_dir_target_missing_path() {
    assert_eq!(check_dir_target(false, false), Err(FsError::PathNotFound));
    assert_eq!(check_dir_target(false, true), Err(FsError::PathNotFound));
}

#[test]
fn check_dir_target_regular_file() {
    assert_eq!(check_dir_target(true, false), Err(FsError::NotADirectory));
}

#[test]
fn check_dir_target_directory_passes() {
    assert_eq!(check_dir_target(true, true), Ok(()));
}

#[test]
fn entry_fields_for_file_child() {
    let child = ChildMeta {
        name: "report.pdf".to_string(),
        size_bytes: 1234,
        is_directory: false,
        modified_secs: 1_600_000_000,
    };
    let e = entry_for_child("/data", &child).unwrap();
    assert_eq!(e.name, "report.pdf");
    assert_eq!(e.extension, Some("pdf".to_string()));
    assert_eq!(e.size_bytes, 1234);
    assert!(!e.is_directory);
    assert_eq!(e.absolute_path, "/data/report.pdf");
    let m = e.modified.as_bytes();
    assert_eq!(m.len(), 19);
    assert_eq!(m[4], b'-');
    assert_eq!(m[7], b'-');
    assert_eq!(m[10], b' ');
    assert_eq!(m[13], b':');
    assert_eq!(m[16], b':');
    for i in [0, 1, 2, 3, 5, 6, 8, 9, 11, 12, 14, 15, 17, 18] {
        assert!(m[i].is_ascii_digit());
    }
}

#[test]
fn entry_from_civil_fields_is_fully_pinned() {
    let child = ChildMeta {
        name: "notes.txt".to_string(),
        size_bytes: 42,
        is_directory: false,
        modified_secs: 0,
    };
    let t = CivilTime { year: 2021, month: 3, day: 7, hour: 4, minute: 5, second: 9 };
    let e = build_entry("/home/u/docs", &child, &t).unwrap();
    assert_eq!(e.name, "notes.txt");
    assert_eq!(e.extension, Some("txt".to_string()));
    assert_eq!(e.size_bytes, 42);
    assert_eq!(e.modified, "2021-03-07 04:05:09");
    assert!(!e.is_directory);
    assert_eq!(e.absolute_path, "/home/u/docs/notes.txt");
    assert!(e.absolute_path.starts_with("/home/u/docs/"));
}

#[test]
fn entry_with_year_out_of_format_fails_metadata() {
    let child = ChildMeta {
        name: "old.bin".to_string(),
        size_bytes: 1,
        is_directory: false,
        modified_secs: 0,
    };
    let t = CivilTime { year: 10000, month: 1, day: 1, hour: 0, minute: 0, second: 0 };
    assert_eq!(build_entry("/d", &child, &t).unwrap_err(), FsError::MetadataReadError);
}

#[test]
fn entry_for_directory_child_has_no_extension() {
    let child = ChildMeta {
        name: "photos.old".to_string(),
        size_bytes: 4096,
        is_directory: true,
        modified_secs: 1_700_000_000,
    };
    let e = entry_for_child("/home/u", &child).unwrap();
    assert_eq!(e.extension, None);
    assert!(e.is_directory);
    assert_eq!(e.absolute_path, "/home/u/photos.old");
}

#[test]
fn listing_matches_children_in_order() {
    let children = vec![
        ChildMeta {
            name: "b.rs".to_string(),
            size_bytes: 10,
            is_directory: false,
            modified_secs: 1_500_000_000,
        },
        ChildMeta {
            name: "a.rs".to_string(),
            size_bytes: 20,
            is_directory: false,
            modified_secs: 1_500_000_100,
        },
        ChildMeta {
            name: "sub".to_string(),
            size_bytes: 0,
            is_directory: true,
            modified_secs: 1_500_000_200,
        },
    ];
    let v = build_listing("/p", &children).unwrap();
    assert_eq!(v.len(), 3);
    assert_eq!(v[0].name, "b.rs");
    assert_eq!(v[1].name, "a.rs");
    assert_eq!(v[2].name, "sub");
    assert_eq!(v[0].size_bytes, 10);
    assert_eq!(v[1].size_bytes, 20);
    assert_eq!(v[0].absolute_path, "/p/b.rs");
    assert_eq!(v[1].absolute_path, "/p/a.rs");
    assert_eq!(v[2].absolute_path, "/p/sub");
    assert!(v[2].is_directory);
    assert_eq!(v[2].extension, None);
}

#[test]
fn listing_of_no_children_is_empty() {
    let children: Vec<ChildMeta> = Vec::new();
    let v = build_listing("/empty", &children).unwrap();
    assert_eq!(v.len(), 0);
}

#[test]
fn decode_text_round_trips_ascii() {
    let s = "hello world";
    assert_eq!(decode_text(s.as_bytes().to_vec()), Ok(s.to_string()));
}

#[test]
fn decode_text_round_trips_multibyte() {
    let s = "caf\u{e9} na\u{ef}ve \u{2713} \u{1f600}";
    assert_eq!(decode_text(s.as_bytes().to_vec()), Ok(s.to_string()));
}

#[test]
fn decode_text_empty_is_empty() {
    assert_eq!(decode_text(Vec::new()), Ok(String::new()));
}

#[test]
fn decode_text_rejects_stray_continuation() {
    assert_eq!(decode_text(vec![0xff, 0xfe]), Err(FsError::InvalidEncoding));
    assert_eq!(decode_text(vec![0x80]), Err(FsError::InvalidEncoding));
}

#[test]
fn decode_text_rejects_overlong() {
    assert_eq!(decode_text(vec![0xc0, 0xaf]), Err(FsError::InvalidEncoding));
    assert_eq!(decode_text(vec![0xe0, 0x80, 0xaf]), Err(FsError::InvalidEncoding));
    assert_eq!(decode_text(vec![0xf0, 0x80, 0x80, 0xaf]), Err(FsError::InvalidEncoding));
}

#[test]
fn decode_text_rejects_surrogate() {
    assert_eq!(decode_text(vec![0xed, 0xa0, 0x80]), Err(FsError::InvalidEncoding));
}

#[test]
fn decode_text_rejects_truncated_sequence() {
    assert_eq!(decode_text(vec![0xe2, 0x82]), Err(FsError::InvalidEncoding));
    assert_eq!(decode_text(vec![0x61, 0xc3]), Err(FsError::InvalidEncoding));
}

#[test]
fn decode_text_rejects_out_of_range() {
    assert_eq!(decode_text(vec![0xf4, 0x90, 0x80, 0x80]), Err(FsError::InvalidEncoding));
    assert_eq!(decode_text(vec![0xf5, 0x80, 0x80, 0x80]), Err(FsError::InvalidEncoding));
}

#[test]
fn utf8_validator_agrees_with_std() {
    let cases: Vec<Vec<u8>> = vec![
        b"plain".to_vec(),
        vec![0xc3, 0xa9],
        vec![0xe2, 0x82, 0xac],
        vec![0xf0, 0x9f, 0x98, 0x80],
        vec![0xc3, 0x28],
        vec![0xe2, 0x28, 0xa1],
        vec![0xf0, 0x28, 0x8c, 0xbc],
        vec![0xed, 0x9f, 0xbf],
        vec![0xee, 0x80, 0x80],
    ];
    for bytes in cases {
        assert_eq!(is_valid_utf8_bytes(&bytes), std::str::from_utf8(&bytes).is_ok());
    }
}

#[test]
fn format_civil_exact_text() {
    let t = CivilTime { year: 2021, month: 3, day: 7, hour: 4, minute: 5, second: 9 };
    assert_eq!(format_civil(&t), Some("2021-03-07 04:05:09".to_string()));
}

#[test]
fn format_civil_pads_every_field() {
    let t = CivilTime { year: 33, month: 12, day: 31, hour: 23, minute: 59, second: 59 };
    assert_eq!(format_civil(&t), Some("0033-12-31 23:59:59".to_string()));
}

#[test]
fn format_civil_rejects_out_of_range() {
    let t = CivilTime { year: 10000, month: 1, day: 1, hour: 0, minute: 0, second: 0 };
    assert_eq!(format_civil(&t), None);
    let t = CivilTime { year: -1, month: 1, day: 1, hour: 0, minute: 0, second: 0 };
    assert_eq!(format_civil(&t), None);
    let t = CivilTime { year: 2000, month: 0, day: 1, hour: 0, minute: 0, second: 0 };
    assert_eq!(format_civil(&t), None);
    let t = CivilTime { year: 2000, month: 13, day: 1, hour: 0, minute: 0, second: 0 };
    assert_eq!(format_civil(&t), None);
    let t = CivilTime { year: 2000, month: 1, day: 1, hour: 24, minute: 0, second: 0 };
    assert_eq!(format_civil(&t), None);
}

#[test]
fn local_timestamp_has_fixed_shape() {
    let s = format_local_timestamp(1_600_000_000).unwrap();
    let m = s.as_bytes();
    assert_eq!(m.len(), 19);
    assert_eq!(m[4], b'-');
    assert_eq!(m[7], b'-');
    assert_eq!(m[10], b' ');
    assert_eq!(m[13], b':');
    assert_eq!(m[16], b':');
}

#[test]
fn plan_rename_joins_both_endpoints_under_base() {
    let plan = plan_rename("/home/u", "docs", "a.txt", "b.txt").unwrap();
    assert_eq!(plan.old_path, "/home/u/docs/a.txt");
    assert_eq!(plan.new_path, "/home/u/docs/b.txt");
}

#[test]
fn plan_rename_rejects_traversal_in_old_name() {
    let r = plan_rename("/home/u", "docs", "../../etc/passwd", "b.txt");
    assert_eq!(r.unwrap_err(), FsError::PathEscapesSandbox);
}

#[test]
fn plan_rename_rejects_traversal_in_new_name_and_folder() {
    let r = plan_rename("/home/u", "docs", "a.txt", "../escape.txt");
    assert_eq!(r.unwrap_err(), FsError::PathEscapesSandbox);
    let r = plan_rename("/home/u", "../other", "a.txt", "b.txt");
    assert_eq!(r.unwrap_err(), FsError::PathEscapesSandbox);
}

#[test]
fn prepare_rename_rejects_traversal_before_home_lookup() {
    let r = prepare_rename("docs", "../../etc/passwd", "b.txt");
    assert_eq!(r.unwrap_err(), FsError::PathEscapesSandbox);
}

#[test]
fn rename_outcome_reports_failure_kind() {
    assert_eq!(rename_outcome(true), Ok(true));
    assert_eq!(rename_outcome(false), Err(FsError::RenameFailed));
}

#[test]
fn error_messages_are_descriptive() {
    assert_eq!(FsError::PathNotFound.message(), "path does not exist");
    assert_eq!(FsError::NotADirectory.message(), "path is not a directory");
    assert_eq!(FsError::InvalidEncoding.message(), "file content is not valid UTF-8");
    assert_eq!(FsError::HomeDirectoryUnavailable.message(), "home directory not found");
    assert_eq!(FsError::RenameFailed.message(), "rename failed");
    assert_eq!(FsError::PathEscapesSandbox.message(), "path escapes the sandbox base");
}
