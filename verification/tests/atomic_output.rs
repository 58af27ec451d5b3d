use exmpeg_native::atomic_output::{
    check_output_path, is_url, partial_path_for, AfterBody, AtomicWrite, NonceSource, PartialGuard,
    WriteStage,
};
use exmpeg_native::path::{path_extension, path_file_name, path_parent, PathStyle};

#[test]
fn partial_path_is_unique_per_call() {
    let mut nonces = NonceSource::new(0x1f, 42);
    let first = nonces.partial_nonce(7);
    let second = nonces.partial_nonce(7);
    let a = partial_path_for(PathStyle::Posix, "/tmp/out.mp4", &first);
    let b = partial_path_for(PathStyle::Posix, "/tmp/out.mp4", &second);

    assert_ne!(a, b);
    assert_eq!(path_extension(PathStyle::Posix, &a).unwrap(), "mp4");
    assert_eq!(path_extension(PathStyle::Posix, &b).unwrap(), "mp4");
    assert!(path_file_name(PathStyle::Posix, &a).unwrap().starts_with("out.partial."));
}

#[test]
fn extensionless_partial_keeps_nonce_suffix() {
    let partial = partial_path_for(PathStyle::Posix, "/tmp/out", "X");
    assert_eq!(path_file_name(PathStyle::Posix, &partial).unwrap(), "out.partial.X");
    assert_eq!(partial, "/tmp/out.partial.X");
}

#[test]
fn the_counter_comes_round() {
    let mut nonces = NonceSource { base: 0, pid: 1, next: u64::MAX };
    assert_eq!(
        nonces.partial_nonce(2),
        format!("0000000000000000.1.{}.2", u64::MAX)
    );
    assert_eq!(nonces.partial_nonce(2), "0000000000000000.1.0.2");
}

#[test]
fn nonce_is_base_pid_counter_time() {
    let mut nonces = NonceSource::new(0x1f, 42);
    assert_eq!(nonces.partial_nonce(1234), "000000000000001f.42.0.1234");
    assert_eq!(nonces.partial_nonce(1234), "000000000000001f.42.1.1234");
    let mut high = NonceSource::new(u64::MAX, u32::MAX);
    assert_eq!(
        high.partial_nonce(u128::MAX),
        format!("ffffffffffffffff.4294967295.0.{}", u128::MAX)
    );
}

#[test]
fn partial_path_stays_beside_the_destination() {
    assert_eq!(partial_path_for(PathStyle::Posix, "out.mp4", "N"), "out.partial.N.mp4");
    assert_eq!(partial_path_for(PathStyle::Posix, "/out.mp4", "N"), "/out.partial.N.mp4");
    assert_eq!(partial_path_for(PathStyle::Posix, "a/b/c.tar.gz", "N"), "a/b/c.tar.partial.N.gz");
    assert_eq!(partial_path_for(PathStyle::Posix, ".hidden", "N"), ".hidden.partial.N");
    assert_eq!(partial_path_for(PathStyle::Posix, "/", "N"), ".partial.N");
    assert_eq!(partial_path_for(PathStyle::Posix, "", "N"), ".partial.N");
    let partial = partial_path_for(PathStyle::Posix, "/var/media/clip.webm", "1.2.3");
    assert_eq!(path_parent(PathStyle::Posix, &partial), path_parent(PathStyle::Posix, "/var/media/clip.webm"));
}

#[test]
fn a_successful_write_is_renamed_and_leaves_nothing() {
    let mut write = AtomicWrite::start(PathStyle::Posix, "/tmp/out.bin", "N").unwrap();
    assert_eq!(write.partial, "/tmp/out.partial.N.bin");
    assert_eq!(write.leftover(), Some("/tmp/out.partial.N.bin"));
    assert_eq!(write.body_done(true), AfterBody::Rename);
    assert_eq!(write.leftover(), Some("/tmp/out.partial.N.bin"));
    assert!(write.rename_done(None).is_ok());
    assert_eq!(write.stage, WriteStage::Renamed);
    assert_eq!(write.leftover(), None);
}

#[test]
fn a_failed_body_is_discarded_and_its_partial_removed() {
    let mut write = AtomicWrite::start(PathStyle::Posix, "/tmp/out.bin", "N").unwrap();
    assert_eq!(write.body_done(false), AfterBody::Discard);
    assert_eq!(write.stage, WriteStage::Failed);
    assert_eq!(write.leftover(), Some("/tmp/out.partial.N.bin"));
}

#[test]
fn a_failed_rename_names_both_paths_and_the_cause() {
    let mut write = AtomicWrite::start(PathStyle::Posix, "/tmp/out.bin", "N").unwrap();
    write.body_done(true);
    let err = write.rename_done(Some("disk on fire")).unwrap_err();
    assert_eq!(err.kind(), "io_error");
    assert_eq!(
        err.message(),
        "could not rename partial output onto destination"
    );
    assert_eq!(err.detail("from").unwrap(), "/tmp/out.partial.N.bin");
    assert_eq!(err.detail("to").unwrap(), "/tmp/out.bin");
    assert_eq!(err.detail("cause").unwrap(), "disk on fire");
    assert_eq!(write.leftover(), Some("/tmp/out.partial.N.bin"));
}

#[test]
fn a_guard_asks_for_removal_until_it_is_disarmed() {
    let mut guard = PartialGuard::new("p");
    assert_eq!(guard.removal(), Some("p"));
    guard.disarm();
    assert_eq!(guard.removal(), None);
}

#[test]
fn urls_are_refused_as_outputs() {
    for url in [
        "http://host/out.mp4",
        "ftp://h/x",
        "rtmp://h/live",
        "tcp://1.2.3.4:80",
        "HTTPS://h",
        "a+b-c.d://x",
    ] {
        assert!(is_url(url), "{}", url);
        let err = check_output_path(url).unwrap_err();
        assert_eq!(err.kind(), "invalid_request");
        assert_eq!(err.detail("output").unwrap(), url);
        assert!(AtomicWrite::start(PathStyle::Posix, url, "N").is_err());
    }
}

#[test]
fn local_paths_are_accepted_as_outputs() {
    for path in [
        "",
        "out.mp4",
        "/tmp/out.mp4",
        "C://out.mp4",
        "c:/out.mp4",
        "dir/http://x",
        "1http://x",
        "http:/x",
        "http:",
        "://x",
    ] {
        assert!(!is_url(path), "{}", path);
        assert!(check_output_path(path).is_ok());
    }
}

#[test]
fn partial_path_follows_the_platform() {
    let windows = PathStyle::Windows;
    assert_eq!(partial_path_for(windows, "C:\\a\\b.mp4", "N"), "C:\\a\\b.partial.N.mp4");
    assert_eq!(partial_path_for(windows, "C:\\b.mp4", "N"), "C:\\b.partial.N.mp4");
    assert_eq!(partial_path_for(windows, "C:b.mp4", "N"), "C:b.partial.N.mp4");
    assert_eq!(partial_path_for(windows, "a.d\\b", "N"), "a.d\\b.partial.N");
    assert_eq!(partial_path_for(windows, "a/b.mp4", "N"), "a\\b.partial.N.mp4");
    assert_eq!(partial_path_for(PathStyle::Posix, "a.d\\b", "N"), "a.partial.N.d\\b");
}
