use exmpeg_native::cancel::{cancelled, require_alive, CancelGuard, CHECK_INTERVAL_NS};
use exmpeg_native::errors::{
    classify_rsmpeg_error, classify_write_header_error, from_rsmpeg, require_muxer,
    run_with_panic_protection, NativeError, PanicPayload, Protected, AVERROR_EINVAL,
};
use exmpeg_native::media::Position;
use exmpeg_native::path::to_cstring;
use exmpeg_native::progress::ProgressEmitter;

#[test]
fn run_with_panic_protection_catches_string_panic() {
    let result: Result<(), NativeError> =
        run_with_panic_protection(Protected::Panicked(PanicPayload::Literal("boom".to_owned())));
    let err = result.unwrap_err();
    assert_eq!(err.kind(), "nif_panic");
    assert_eq!(err.message(), "boom");
}

#[test]
fn run_with_panic_protection_passes_through_ok_and_err() {
    let ok_result = run_with_panic_protection(Protected::Returned(Ok::<_, NativeError>(42)));
    assert_eq!(ok_result.unwrap(), 42);

    let err_result: Result<(), _> =
        run_with_panic_protection(Protected::Returned(Err(NativeError::new("io_error", "x"))));
    assert_eq!(err_result.unwrap_err().kind(), "io_error");
}

#[test]
fn panics_without_a_text_are_unknown() {
    let owned: Result<(), NativeError> =
        run_with_panic_protection(Protected::Panicked(PanicPayload::Owned("out of it".to_owned())));
    assert_eq!(owned.unwrap_err().message(), "out of it");
    let other: Result<(), NativeError> =
        run_with_panic_protection(Protected::Panicked(PanicPayload::Other));
    assert_eq!(other.unwrap_err().message(), "unknown panic");
}

#[test]
fn details_keep_the_last_value_of_a_key() {
    let err = NativeError::new("io_error", "m")
        .with_detail("path", "a".to_owned())
        .with_detail("cause", "c".to_owned())
        .with_detail("path", "b".to_owned());
    assert_eq!(err.detail("path").unwrap(), "b");
    assert_eq!(err.detail("cause").unwrap(), "c");
    assert_eq!(err.detail("nothing"), None);
    assert_eq!(
        err.details(),
        &vec![
            ("path".to_owned(), "b".to_owned()),
            ("cause".to_owned(), "c".to_owned())
        ]
    );
}

#[test]
fn binding_errors_are_classified_by_variant() {
    for (debug, kind) in [
        ("OpenInputError(-2)", "io_error"),
        ("FindStreamInfoError(-1)", "io_error"),
        ("AVError(-22)", "io_error"),
        ("SendPacketError(-1)", "decode_error"),
        ("ReceiveFrameError(-1)", "decode_error"),
        ("DecoderDrainError", "decode_error"),
        ("SendFrameError(-1)", "encode_error"),
        ("ReceivePacketError(-1)", "encode_error"),
        ("EncoderFlushedError", "encode_error"),
        ("BufferSinkEofError", "runtime_error"),
        ("BitstreamFullError", "runtime_error"),
        ("Unknown", "runtime_error"),
        ("", "runtime_error"),
        ("AVErro", "runtime_error"),
    ] {
        assert_eq!(classify_rsmpeg_error(debug), kind, "{}", debug);
        let err = from_rsmpeg(debug, "what happened");
        assert_eq!(err.kind(), kind);
        assert_eq!(err.message(), "what happened");
        assert!(err.details().is_empty());
    }
}

#[test]
fn a_refused_header_is_unsupported() {
    // ENOSYS is 38 on Linux and 78 on macOS.
    for enosys in [-38, -78] {
        let refused = classify_write_header_error(
            Some(AVERROR_EINVAL),
            enosys,
            "AVError(-22)",
            "Invalid argument",
        );
        assert_eq!(refused.kind(), "unsupported");
        assert_eq!(refused.detail("reason").unwrap(), "Invalid argument");
        for code in [enosys, -1094995529, -1163346256] {
            assert_eq!(
                classify_write_header_error(Some(code), enosys, "AVError(0)", "d").kind(),
                "unsupported"
            );
        }
        let full = classify_write_header_error(
            Some(-28),
            enosys,
            "AVError(-28)",
            "No space left on device",
        );
        assert_eq!(full.kind(), "io_error");
        assert_eq!(full.message(), "No space left on device");
        assert_eq!(
            classify_write_header_error(None, enosys, "Unknown", "d").kind(),
            "runtime_error"
        );
    }
    // The other platform's number is an ordinary failure.
    let other = classify_write_header_error(Some(-38), -78, "AVError(-38)", "d");
    assert_eq!(other.kind(), from_rsmpeg("AVError(-38)", "d").kind());
    assert_eq!(other.message(), "d");
}

#[test]
fn an_extension_without_a_muxer_is_unsupported() {
    assert!(require_muxer(true, "out.mp4").is_ok());
    let err = require_muxer(false, "out.banana").unwrap_err();
    assert_eq!(err.kind(), "unsupported");
    assert_eq!(err.message(), "no muxer for the output extension");
    assert_eq!(err.detail("output").unwrap(), "out.banana");
}

#[test]
fn paths_with_nul_are_refused() {
    assert!(to_cstring("/tmp/out.mp4").is_ok());
    let err = to_cstring("a\0b").unwrap_err();
    assert_eq!(err.kind(), "invalid_request");
    assert_eq!(err.message(), "path contains NUL bytes");
    assert_eq!(err.detail("path").unwrap(), "a\0b");
}

#[test]
fn a_gone_caller_is_noticed_at_most_once_per_interval() {
    let mut guard = CancelGuard::new();
    assert!(guard.is_due(5));
    assert!(guard.check(5, true).is_ok());
    assert!(!guard.is_due(5 + CHECK_INTERVAL_NS - 1));
    // Not looked for yet.
    assert!(guard.check(5 + CHECK_INTERVAL_NS - 1, false).is_ok());
    let err = guard.check(5 + CHECK_INTERVAL_NS, false).unwrap_err();
    assert_eq!(err.kind(), "cancelled");
    assert_eq!(
        err.message(),
        "calling process exited before the operation completed"
    );
    // A clock that ran backwards does not make the check due.
    assert!(guard.check(0, false).is_ok());
}

#[test]
fn being_alive_is_required() {
    assert!(require_alive(true).is_ok());
    assert_eq!(require_alive(false).unwrap_err().kind(), "cancelled");
    assert_eq!(cancelled().kind(), "cancelled");
}

fn at(ticks: i64) -> Position {
    Position { ticks, num: 1, den: 1 }
}

#[test]
fn progress_is_throttled_but_the_end_always_reported() {
    let mut emitter = ProgressEmitter::from_av_duration(true, "remux", 2_000_000);
    let first = emitter.tick(0, 1, at(1)).unwrap();
    assert_eq!(first.op, "remux");
    assert_eq!(first.packets_written, 1);
    assert_eq!(first.current, at(1));
    assert_eq!(first.total, Position { ticks: 2_000_000, num: 1, den: 1_000_000 });
    assert!(emitter.tick(99_999_999, 2, at(2)).is_none());
    assert!(emitter.tick(100_000_000, 3, at(3)).is_some());
    let last = emitter.finish(100_000_001, 4, at(4)).unwrap();
    assert_eq!(last.packets_written, 4);
    assert!(emitter.tick(100_000_002, 5, at(5)).is_none());
}

#[test]
fn progress_without_a_subscriber_is_silent() {
    let mut emitter = ProgressEmitter::new(false, "concat", Position::origin());
    assert!(emitter.tick(0, 1, at(1)).is_none());
    assert!(emitter.finish(1, 1, at(1)).is_none());
}

#[test]
fn unknown_total_counts_as_the_start() {
    let emitter = ProgressEmitter::from_av_duration(true, "transcode", i64::MIN);
    assert_eq!(emitter.total, Position::origin());
    assert_eq!(ProgressEmitter::from_av_duration(true, "x", 0).total, Position::origin());
}
