use exmpeg_native::metadata::set_format_metadata;
use exmpeg_native::path::{
    name_extension, name_stem, path_extension, path_file_name, path_join, path_parent, PathStyle,
};
use exmpeg_native::text::{
    ascii_lower, has_nul, has_prefix, hex_bytes_text, hex_text, int_text, nat_text, same_text,
};
use exmpeg_native::version::{version_info, version_text};

#[test]
fn numbers_are_written_in_decimal() {
    assert_eq!(nat_text(0), "0");
    assert_eq!(nat_text(10), "10");
    assert_eq!(nat_text(u128::MAX), u128::MAX.to_string());
    assert_eq!(int_text(-7), "-7");
    assert_eq!(int_text(i64::MIN), i64::MIN.to_string());
    assert_eq!(int_text(i64::MAX), i64::MAX.to_string());
}

#[test]
fn hex_is_padded() {
    assert_eq!(hex_text(0, 4), "0000");
    assert_eq!(hex_text(0xdead_beef, 16), "00000000deadbeef");
    assert_eq!(hex_bytes_text(&vec![0x01, 0x64, 0xff]), "0164ff");
    assert_eq!(hex_bytes_text(&vec![]), "");
}

#[test]
fn texts_compare_by_character() {
    assert!(same_text("copy", "copy"));
    assert!(!same_text("copy", "Copy"));
    assert!(has_prefix("AVError(-1)", "AVError"));
    assert!(!has_prefix("AV", "AVError"));
    assert!(has_nul("a\0"));
    assert!(!has_nul("a0"));
    assert_eq!(ascii_lower("MP4"), "mp4");
    assert_eq!(ascii_lower("\u{c4}B"), "\u{c4}b");
}

#[test]
fn paths_split_as_usual() {
    assert_eq!(path_file_name(PathStyle::Posix, "/a/b.c"), Some("b.c".to_owned()));
    assert_eq!(path_file_name(PathStyle::Posix, "/a/b.c/"), Some("b.c".to_owned()));
    assert_eq!(path_file_name(PathStyle::Posix, "/a/.."), None);
    assert_eq!(path_file_name(PathStyle::Posix, "/"), None);
    assert_eq!(path_parent(PathStyle::Posix, "/a/b.c"), Some("/a".to_owned()));
    assert_eq!(path_parent(PathStyle::Posix, "b.c"), Some("".to_owned()));
    assert_eq!(path_parent(PathStyle::Posix, "/"), None);
    assert_eq!(path_extension(PathStyle::Posix, "/a/b.tar.gz"), Some("gz".to_owned()));
    assert_eq!(path_extension(PathStyle::Posix, "/a/.hidden"), None);
    assert_eq!(path_extension(PathStyle::Posix, "/a/b."), Some("".to_owned()));
    assert_eq!(name_stem("b.tar.gz"), "b.tar");
    assert_eq!(name_extension("b"), None);
    assert_eq!(path_join(PathStyle::Posix, "/a", "b"), "/a/b");
    assert_eq!(path_join(PathStyle::Posix, "", "b"), "b");
}

#[test]
fn backslashes_and_drives_count_on_windows_only() {
    let windows = PathStyle::Windows;
    let p = "C:\\dir.d\\out.mp4";
    assert_eq!(path_file_name(windows, p), Some("out.mp4".to_owned()));
    assert_eq!(path_parent(windows, p), Some("C:\\dir.d".to_owned()));
    assert_eq!(path_extension(windows, "C:\\dir.d\\out"), None);
    assert_eq!(path_parent(windows, "C:\\out"), Some("C:\\".to_owned()));
    assert_eq!(path_parent(windows, "C:out"), Some("C:".to_owned()));
    assert_eq!(path_parent(windows, "a/b\\c"), Some("a/b".to_owned()));
    assert_eq!(path_parent(windows, "C:"), None);
    assert_eq!(path_file_name(windows, "c:\\"), None);
    assert_eq!(path_extension(windows, "C:.mp4"), None);
    assert_eq!(path_join(windows, "a", "b"), "a\\b");
    assert_eq!(path_join(windows, "C:", "b"), "C:b");
    assert_eq!(path_join(windows, "C:\\", "b"), "C:\\b");
    assert_eq!(path_join(windows, "a/", "b"), "a/b");
    assert_eq!(path_join(windows, "", "b"), "b");
    // Elsewhere they are characters like any other.
    assert_eq!(path_file_name(PathStyle::Posix, p), Some(p.to_owned()));
    assert_eq!(path_extension(PathStyle::Posix, "C:.mp4"), Some("mp4".to_owned()));
}

fn entry(tags: &Vec<(String, String)>, key: &str) -> Option<String> {
    tags.iter().find(|t| t.0 == key).map(|t| t.1.clone())
}

#[test]
fn set_format_metadata_round_trips_tags() {
    let tags = vec![
        ("title".to_owned(), "demo".to_owned()),
        ("artist".to_owned(), "exmpeg".to_owned()),
    ];
    let set = set_format_metadata(&tags);
    assert_eq!(entry(&set, "title").as_deref(), Some("demo"));
    assert_eq!(entry(&set, "artist").as_deref(), Some("exmpeg"));
    assert_eq!(set, tags);
}

#[test]
fn set_format_metadata_skips_entries_with_nul_bytes() {
    let tags = vec![
        ("title".to_owned(), "ok".to_owned()),
        ("bad\0key".to_owned(), "dropped".to_owned()),
        ("bad_value".to_owned(), "x\0y".to_owned()),
    ];
    let set = set_format_metadata(&tags);
    assert_eq!(entry(&set, "title").as_deref(), Some("ok"));
    assert_eq!(entry(&set, "bad_value"), None);
    assert_eq!(set.len(), 1);
}

#[test]
fn version_info_strings_are_well_formed() {
    let v = version_info(
        0x003e_0c64,
        0x003e_1c64,
        0x003c_1a64,
        "LGPL version 2.1 or later".to_owned(),
        "--enable-shared".to_owned(),
    );
    for s in [&v.avformat, &v.avcodec, &v.avutil] {
        assert!(s.contains('.'), "expected dot-separated version, got: {s}");
    }
    assert_eq!(v.avformat, "62.12.100");
    assert_eq!(v.avcodec, "62.28.100");
    assert_eq!(v.avutil, "60.26.100");
    assert_eq!(v.license, "LGPL version 2.1 or later");
    assert_eq!(v.configuration, "--enable-shared");
}

#[test]
fn versions_use_one_byte_per_part() {
    assert_eq!(version_text(0), "0.0.0");
    assert_eq!(version_text(u32::MAX), "255.255.255");
}
