use exmpeg_native::audio::{
    alloc_resample_frame, compute_resample_capacity, empty_resample_frame, is_passthrough,
    pick_chunk, pick_format, pick_sample_rate, resolve_channels, AudioTarget, PassthroughFacts,
};

#[test]
fn keeps_mono_or_stereo_source_when_unspecified() {
    assert_eq!(resolve_channels(None, 1).unwrap(), 1);
    assert_eq!(resolve_channels(None, 2).unwrap(), 2);
}

#[test]
fn rejects_surround_source_without_explicit_channels() {
    assert_eq!(
        resolve_channels(None, 6).unwrap_err().kind(),
        "invalid_request"
    );
}

#[test]
fn honours_explicit_request_and_rejects_out_of_range() {
    assert_eq!(resolve_channels(Some(1), 6).unwrap(), 1);
    assert_eq!(resolve_channels(Some(2), 6).unwrap(), 2);
    assert_eq!(
        resolve_channels(Some(3), 6).unwrap_err().kind(),
        "invalid_request"
    );
}

#[test]
fn resample_capacity_scales_by_rate_and_clamps_corrupt_input() {
    assert_eq!(compute_resample_capacity(1024, 48_000, 16_000), 597);
    assert_eq!(compute_resample_capacity(0, 44_100, 16_000), 4096);
    assert_eq!(compute_resample_capacity(1024, 1, 192_000), 1 << 20);
}

#[test]
fn channel_errors_carry_the_counts() {
    let surround = resolve_channels(None, 6).unwrap_err();
    assert_eq!(
        surround.message(),
        "source has more than 2 channels; pass `:channels` (1 or 2) to choose mono or stereo"
    );
    assert_eq!(surround.detail("source_channels").unwrap(), "6");
    let zero = resolve_channels(Some(0), 2).unwrap_err();
    assert_eq!(zero.message(), "channels must be 1 (mono) or 2 (stereo)");
    assert_eq!(zero.detail("channels").unwrap(), "0");
    assert_eq!(
        resolve_channels(Some(-1), 2).unwrap_err().detail("channels"),
        Some("-1".to_owned())
    );
    assert_eq!(
        resolve_channels(None, 0).unwrap_err().detail("source_channels"),
        Some("0".to_owned())
    );
}

#[test]
fn formats_prefer_the_source() {
    assert_eq!(pick_format(&None, 8), 8);
    assert_eq!(pick_format(&Some(vec![]), 8), 8);
    assert_eq!(pick_format(&Some(vec![1, 8, 3]), 8), 8);
    assert_eq!(pick_format(&Some(vec![1, 2]), 8), 1);
}

#[test]
fn sample_rates_snap_to_the_closest_listed() {
    let opus = Some(vec![48_000, 24_000, 16_000, 12_000, 8_000]);
    assert_eq!(pick_sample_rate(&opus, None, 44_100), 48_000);
    assert_eq!(pick_sample_rate(&opus, Some(16_000), 44_100), 16_000);
    assert_eq!(pick_sample_rate(&opus, Some(1), 44_100), 8_000);
    assert_eq!(pick_sample_rate(&opus, Some(i32::MAX), 44_100), 48_000);
    // The first of two that are equally close.
    assert_eq!(pick_sample_rate(&opus, Some(20_000), 1), 24_000);
    assert_eq!(pick_sample_rate(&None, None, 44_100), 44_100);
    assert_eq!(pick_sample_rate(&Some(vec![]), None, 44_100), 44_100);
    assert_eq!(pick_sample_rate(&None, Some(-5), 44_100), 1);
}

#[test]
fn resample_capacity_survives_extremes() {
    assert_eq!(compute_resample_capacity(-1, 1, 1), 4096);
    assert_eq!(compute_resample_capacity(1, 0, 0), 257);
    assert_eq!(compute_resample_capacity(i32::MAX, 1, i32::MAX), 1 << 20);
    assert_eq!(compute_resample_capacity(1, i32::MAX, 1), 256);
}

fn stereo_48k() -> AudioTarget {
    AudioTarget { sample_rate: 48_000, format: 1, channels: 2 }
}

#[test]
fn resample_buffers_have_the_target_shape() {
    let b = alloc_resample_frame(1024, 24_000, stereo_48k());
    assert_eq!(b.nb_samples, 2304);
    assert_eq!((b.sample_rate, b.format, b.channels), (48_000, 1, 2));
    let e = empty_resample_frame(stereo_48k());
    assert_eq!((e.nb_samples, e.sample_rate, e.format, e.channels), (4096, 48_000, 1, 2));
}

#[test]
fn chunks_follow_the_encoder() {
    assert_eq!(pick_chunk(960), 960);
    assert_eq!(pick_chunk(0), 1024);
    assert_eq!(pick_chunk(-1), 1024);
}

#[test]
fn passthrough_needs_everything_to_match() {
    let facts = PassthroughFacts {
        encoder_frame_size: 0,
        src_format: 1,
        src_rate: 48_000,
        src_channels: 2,
        layouts_equal: true,
        src_order_unspecified: false,
    };
    assert!(is_passthrough(facts, stereo_48k()));
    assert!(!is_passthrough(PassthroughFacts { encoder_frame_size: 1024, ..facts }, stereo_48k()));
    assert!(!is_passthrough(PassthroughFacts { src_format: 8, ..facts }, stereo_48k()));
    assert!(!is_passthrough(PassthroughFacts { src_rate: 44_100, ..facts }, stereo_48k()));
    assert!(!is_passthrough(PassthroughFacts { layouts_equal: false, ..facts }, stereo_48k()));
    let unspecified = PassthroughFacts {
        layouts_equal: false,
        src_order_unspecified: true,
        ..facts
    };
    assert!(is_passthrough(unspecified, stereo_48k()));
    assert!(!is_passthrough(PassthroughFacts { src_channels: 1, ..unspecified }, stereo_48k()));
}
