use exmpeg_native::audio::AudioTarget;
use exmpeg_native::audio_flow::{AudioAction, AudioEvent, AudioFlow};
use exmpeg_native::concat::PacketTimes;
use exmpeg_native::media::{Drops, Position, Rational, AV_NOPTS_VALUE};
use exmpeg_native::source_clock::SourceTiming;
use exmpeg_native::transcode::{
    fits_copy, shift_copy, Track, Transcode, TranscodeAction, TranscodeEvent, TranscodeStage,
};
use exmpeg_native::transcode_plan::{
    audio_encoder_name, find_encoder_by_name_owned, graph_error, is_copy, plan_audio, plan_streams,
    plan_video, require_audio_decoder, require_video_decoder, should_reencode, since_origin,
    start_offset, stream_role, video_encoder_name, video_encoder_params, AudioSource, GraphFailure, SinkFacts,
    StreamRole, TranscodeOpts, VideoSource,
};
use exmpeg_native::video_flow::{VideoAction, VideoEvent, VideoFlow};

fn opts(video: Option<&str>, audio: Option<&str>) -> TranscodeOpts {
    TranscodeOpts {
        video_codec: video.map(|s| s.to_owned()),
        audio_codec: audio.map(|s| s.to_owned()),
        video_bitrate: None,
        audio_bitrate: None,
        width: None,
        height: None,
        fps: None,
        sample_rate: None,
        channels: None,
        video_filter: None,
        drop_audio: None,
        drop_video: None,
        drop_subtitles: None,
        tags: None,
    }
}

fn none() -> Drops {
    Drops { audio: false, video: false, subtitles: false }
}

#[test]
fn copy_is_the_default() {
    assert!(is_copy(&None));
    assert!(!is_copy(&Some("".to_owned())));
    assert!(is_copy(&Some("copy".to_owned())));
    assert!(!is_copy(&Some("Copy".to_owned())));
    assert!(!is_copy(&Some("libx264".to_owned())));
    let o = opts(Some("libx264"), None);
    assert!(should_reencode(0, &o));
    assert!(!should_reencode(1, &o));
    assert!(!should_reencode(3, &o));
    // An empty name is looked up like any other, and not found.
    let empty = opts(Some(""), None);
    assert_eq!(stream_role(0, none(), &empty), StreamRole::Video);
    let err = find_encoder_by_name_owned("", false).unwrap_err();
    assert_eq!(err.kind(), "unsupported");
    assert_eq!(err.detail("name").unwrap(), "");
}

#[test]
fn every_stream_gets_a_role() {
    let o = opts(Some("libx264"), Some("aac"));
    let drops = Drops { subtitles: true, ..none() };
    assert_eq!(stream_role(0, drops, &o), StreamRole::Video);
    assert_eq!(stream_role(1, drops, &o), StreamRole::Audio);
    assert_eq!(stream_role(2, drops, &o), StreamRole::Copy);
    assert_eq!(stream_role(3, drops, &o), StreamRole::Drop);
    let plan = plan_streams(&vec![0, 3, 1, 2], drops, &o).unwrap();
    assert_eq!(
        plan.roles,
        vec![StreamRole::Video, StreamRole::Drop, StreamRole::Audio, StreamRole::Copy]
    );
    assert_eq!(plan.outputs, vec![Some(0), None, Some(1), Some(2)]);
    assert_eq!((plan.copied, plan.reencoded), (1, 2));
}

#[test]
fn dropping_everything_is_refused() {
    let drops = Drops { audio: true, ..none() };
    let err = plan_streams(&vec![1, 1], drops, &opts(None, None)).unwrap_err();
    assert_eq!(err.kind(), "invalid_request");
    assert_eq!(
        err.message(),
        "transcode dropped every input stream; nothing left to write"
    );
}

#[test]
fn encoders_are_looked_up_by_name() {
    assert_eq!(video_encoder_name(&opts(Some("libvpx-vp9"), None)), "libvpx-vp9");
    assert_eq!(video_encoder_name(&opts(None, None)), "h264");
    assert_eq!(audio_encoder_name(&opts(None, Some("flac"))), "flac");
    assert_eq!(audio_encoder_name(&opts(None, None)), "aac");
    assert!(find_encoder_by_name_owned("flac", true).is_ok());
    let missing = find_encoder_by_name_owned("libx264", false).unwrap_err();
    assert_eq!(missing.kind(), "unsupported");
    assert_eq!(missing.message(), "encoder not available in this FFmpeg build");
    assert_eq!(missing.detail("name").unwrap(), "libx264");
    let nul = find_encoder_by_name_owned("a\0b", true).unwrap_err();
    assert_eq!(nul.kind(), "invalid_request");
    assert_eq!(nul.message(), "codec name contains a NUL byte");
}

#[test]
fn missing_decoders_are_unsupported() {
    assert!(require_video_decoder(true).is_ok());
    assert!(require_audio_decoder(true).is_ok());
    let video = require_video_decoder(false).unwrap_err();
    assert_eq!(video.kind(), "unsupported");
    assert_eq!(video.message(), "no decoder available for input video stream");
    assert_eq!(
        require_audio_decoder(false).unwrap_err().message(),
        "no decoder available for input audio stream"
    );
}

fn source() -> VideoSource {
    VideoSource {
        width: 1920,
        height: 1080,
        format: 0,
        time_base: Rational { num: 1, den: 90_000 },
        decoder_aspect: Rational { num: 0, den: 1 },
        container_aspect: Rational { num: 4, den: 3 },
        decoder_rate: Rational { num: 0, den: 0 },
        container_rate: Rational { num: 50, den: 1 },
    }
}

#[test]
fn video_plans_use_what_the_container_knows() {
    let mut o = opts(Some("libvpx-vp9"), None);
    o.width = Some(1280);
    let plan = plan_video(source(), &o, &Some(vec![0])).unwrap();
    assert_eq!(plan.fps, (50, 1));
    assert_eq!(plan.source_fps, (50, 1));
    assert_eq!(plan.spec, "scale=1280:720,fps=50/1,format=0");
    // A requested rate does not change the source's.
    let mut slow = opts(Some("libvpx-vp9"), None);
    slow.fps = Some((10, 1));
    let slow = plan_video(source(), &slow, &None).unwrap();
    assert_eq!((slow.fps, slow.source_fps), ((10, 1), (50, 1)));
    assert_eq!(
        plan.source_args,
        "video_size=1920x1080:pix_fmt=0:time_base=1/90000:pixel_aspect=4/3"
    );
    // A zero in the decoder's aspect ratio counts as one, part by part.
    let odd = VideoSource {
        decoder_aspect: Rational { num: 3, den: 0 },
        container_aspect: Rational { num: 0, den: 1 },
        ..source()
    };
    assert_eq!(
        plan_video(odd, &o, &Some(vec![0])).unwrap().source_args,
        "video_size=1920x1080:pix_fmt=0:time_base=1/90000:pixel_aspect=3/1"
    );
}

#[test]
fn a_custom_filter_overrides_size_and_rate() {
    let mut o = opts(Some("libvpx-vp9"), None);
    o.width = Some(1280);
    o.fps = Some((10, 1));
    o.video_filter = Some("crop=100:100".to_owned());
    let plan = plan_video(source(), &o, &Some(vec![12])).unwrap();
    assert_eq!(plan.spec, "crop=100:100,format=12");
    o.video_filter = Some("crop=\0".to_owned());
    let err = plan_video(source(), &o, &None).unwrap_err();
    assert_eq!(err.kind(), "invalid_request");
    assert_eq!(err.message(), "video_filter contains a NUL byte");
}

#[test]
fn the_encoder_follows_the_end_of_the_graph() {
    let sink = SinkFacts {
        width: 100,
        height: 50,
        format: 12,
        time_base: Rational { num: 1, den: 50 },
        frame_rate: Rational { num: 0, den: 1 },
        aspect: Rational { num: 4, den: 3 },
    };
    let p = video_encoder_params(sink, (50, 1), Some(800_000), true);
    assert_eq!((p.width, p.height, p.format), (100, 50, 12));
    assert_eq!(p.time_base, Rational { num: 1, den: 50 });
    assert_eq!(p.frame_rate, Rational { num: 50, den: 1 });
    assert_eq!(p.aspect, Rational { num: 4, den: 3 });
    assert_eq!(p.bit_rate, Some(800_000));
    assert!(p.global_header);
    let timed = SinkFacts { frame_rate: Rational { num: 24, den: 1 }, ..sink };
    assert_eq!(
        video_encoder_params(timed, (50, 1), None, false).frame_rate,
        Rational { num: 24, den: 1 }
    );
}

#[test]
fn graph_failures_are_reported() {
    for (failure, kind, message) in [
        (
            GraphFailure::SourceFilterMissing,
            "runtime_error",
            "filter `buffer` missing from build",
        ),
        (
            GraphFailure::SinkFilterMissing,
            "runtime_error",
            "filter `buffersink` missing from build",
        ),
        (
            GraphFailure::SourceArgsHaveNul,
            "runtime_error",
            "buffersrc args could not be encoded as a C string",
        ),
        (
            GraphFailure::SourceRefused { reason: "r" },
            "runtime_error",
            "failed to create buffersrc",
        ),
        (GraphFailure::SinkNotAllocated, "runtime_error", "failed to allocate buffersink"),
        (
            GraphFailure::SinkRefused { reason: "r" },
            "runtime_error",
            "failed to init buffersink",
        ),
        (
            GraphFailure::SpecNotParsed { spec: "s", reason: "r" },
            "invalid_request",
            "failed to parse video_filter spec",
        ),
        (
            GraphFailure::GraphNotValid { spec: "s", reason: "r" },
            "invalid_request",
            "video filter graph failed to validate",
        ),
        (GraphFailure::SinkMissing, "runtime_error", "buffersink missing after config"),
        (GraphFailure::SourceVanished, "runtime_error", "buffersrc context vanished"),
        (GraphFailure::SinkVanished, "runtime_error", "buffersink context vanished"),
    ] {
        let err = graph_error(failure);
        assert_eq!(err.kind(), kind);
        assert_eq!(err.message(), message);
    }
    let err = graph_error(GraphFailure::SpecNotParsed { spec: "scale", reason: "bad" });
    assert_eq!(err.detail("spec").unwrap(), "scale");
    assert_eq!(err.detail("reason").unwrap(), "bad");
    assert_eq!(
        graph_error(GraphFailure::SinkRefused { reason: "no" }).detail("reason").unwrap(),
        "no"
    );
}

#[test]
fn audio_plans_need_a_choice_for_surround() {
    let src = AudioSource { sample_rate: 44_100, format: 8, channels: 2 };
    let mut o = opts(None, Some("aac"));
    o.audio_bitrate = Some(96_000);
    let p = plan_audio(src, &o, &Some(vec![8]), true).unwrap();
    assert_eq!(p.target, AudioTarget { sample_rate: 44_100, format: 8, channels: 2 });
    assert_eq!(p.time_base, Rational { num: 1, den: 44_100 });
    assert_eq!(p.bit_rate, Some(96_000));
    assert!(p.global_header);
    o.sample_rate = Some(0);
    assert_eq!(plan_audio(src, &o, &None, false).unwrap().target.sample_rate, 1);
    let surround = AudioSource { channels: 6, ..src };
    let err = plan_audio(surround, &o, &None, false).unwrap_err();
    assert_eq!(err.kind(), "invalid_request");
    assert_eq!(err.detail("source_channels").unwrap(), "6");
    o.channels = Some(2);
    assert_eq!(plan_audio(surround, &o, &None, false).unwrap().target.channels, 2);
}

#[test]
fn the_container_start_is_subtracted_from_copies() {
    assert_eq!(start_offset(AV_NOPTS_VALUE), None);
    assert_eq!(start_offset(0), None);
    assert_eq!(start_offset(1_400_000), Some(1_400_000));
    assert_eq!(start_offset(-23_000), Some(-23_000));
    let t = PacketTimes { pts: 126_003, dts: 126_000 };
    assert_eq!(shift_copy(None, t), t);
    assert_eq!(shift_copy(Some(126_000), t), PacketTimes { pts: 3, dts: 0 });
    let unknown = PacketTimes { pts: AV_NOPTS_VALUE, dts: -5 };
    assert_eq!(
        shift_copy(Some(-5), unknown),
        PacketTimes { pts: AV_NOPTS_VALUE, dts: 0 }
    );
    assert!(!fits_copy(Some(i64::MAX), PacketTimes { pts: -2, dts: 0 }));
    assert!(fits_copy(Some(i64::MAX), PacketTimes { pts: AV_NOPTS_VALUE, dts: 0 }));
}

#[test]
fn audio_times_count_from_the_origin() {
    assert_eq!(since_origin(Some(67_200), 67_200), Some(0));
    assert_eq!(since_origin(Some(0), -960), Some(960));
    assert_eq!(since_origin(None, 5), None);
    assert_eq!(since_origin(Some(i64::MAX), -1), None);
    assert_eq!(since_origin(Some(-1), i64::MAX), None);
}

fn give(t: &mut Transcode, ev: TranscodeEvent) -> TranscodeAction {
    assert!(t.can_step(&ev), "{:?} in {:?}", ev, t);
    t.step(ev).unwrap()
}

fn packet(stream_index: usize) -> TranscodeEvent {
    TranscodeEvent::Packet {
        stream_index,
        times: PacketTimes { pts: 12, dts: 10 },
        alive: true,
    }
}

fn video(video: VideoEvent) -> TranscodeEvent {
    TranscodeEvent::Video { video }
}

fn audio(audio: AudioEvent) -> TranscodeEvent {
    TranscodeEvent::Audio { audio }
}

#[test]
fn packets_go_to_the_track_of_their_stream() {
    let o = opts(Some("libvpx-vp9"), Some("libopus"));
    let drops = Drops { subtitles: true, ..none() };
    let plan = plan_streams(&vec![0, 3, 1, 2], drops, &o).unwrap();
    let target = AudioTarget { sample_rate: 48_000, format: 1, channels: 2 };
    let timing = SourceTiming::new(Rational { num: 1, den: 48_000 }, 48_000, 48_000);
    let tracks = vec![
        Track::Video { video: VideoFlow::new(0, 1, 1) },
        Track::Dropped,
        Track::Audio { audio: AudioFlow::new(false, 960, target, timing) },
        Track::Copy { start: Some(10) },
    ];
    let mut t = Transcode::new(&plan, tracks);
    assert_eq!(t.stage(), TranscodeStage::Header);
    assert_eq!(give(&mut t, TranscodeEvent::HeaderWritten), TranscodeAction::ReadPacket);

    // Copied.
    assert_eq!(
        give(&mut t, packet(3)),
        TranscodeAction::WriteCopy { track: 3, times: PacketTimes { pts: 2, dts: 0 } }
    );
    assert_eq!(give(&mut t, TranscodeEvent::Written), TranscodeAction::ReadPacket);
    // Left out, and not known.
    assert_eq!(give(&mut t, packet(1)), TranscodeAction::ReadPacket);
    assert_eq!(give(&mut t, packet(9)), TranscodeAction::ReadPacket);

    // Through the video pipeline.
    assert_eq!(
        give(&mut t, packet(0)),
        TranscodeAction::Video { track: 0, video: VideoAction::SendPacket }
    );
    assert_eq!(t.at_work(), Some(0));
    assert!(!t.can_step(&audio(AudioEvent::Sent)));
    give(&mut t, video(VideoEvent::Sent));
    give(&mut t, video(VideoEvent::Frame { timestamp: Some(5) }));
    give(&mut t, video(VideoEvent::Pushed));
    assert_eq!(
        give(&mut t, video(VideoEvent::Filtered { timestamp: Some(5), alive: true })),
        TranscodeAction::Video { track: 0, video: VideoAction::Encode { pts: 5 } }
    );
    give(&mut t, video(VideoEvent::Encoded));
    give(&mut t, video(VideoEvent::Packet));
    give(&mut t, video(VideoEvent::EncoderDry));
    give(&mut t, video(VideoEvent::GraphDry));
    assert_eq!(
        give(&mut t, video(VideoEvent::DecoderDry)),
        TranscodeAction::ReadPacket
    );

    // Through the audio pipeline.
    assert_eq!(
        give(&mut t, packet(2)),
        TranscodeAction::Audio { track: 2, audio: AudioAction::SendPacket }
    );
    give(&mut t, audio(AudioEvent::Sent));
    assert_eq!(
        give(&mut t, audio(AudioEvent::DecoderDry)),
        TranscodeAction::ReadPacket
    );
    assert_eq!(t.packets_written(), 2);

    // The pipelines are drained in order, then the trailer is written.
    assert_eq!(
        give(&mut t, TranscodeEvent::EndOfInput),
        TranscodeAction::Video { track: 0, video: VideoAction::SendEnd }
    );
    give(&mut t, video(VideoEvent::Sent));
    give(&mut t, video(VideoEvent::DecoderDry));
    give(&mut t, video(VideoEvent::Pushed));
    give(&mut t, video(VideoEvent::GraphDry));
    give(&mut t, video(VideoEvent::Encoded));
    assert_eq!(
        give(&mut t, video(VideoEvent::EncoderDry)),
        TranscodeAction::Audio { track: 2, audio: AudioAction::SendEnd }
    );
    assert_eq!(t.stage(), TranscodeStage::Drain { track: 2 });
    give(&mut t, audio(AudioEvent::Sent));
    give(&mut t, audio(AudioEvent::DecoderDry));
    give(&mut t, audio(AudioEvent::Resampled { nb_samples: 0 }));
    give(&mut t, audio(AudioEvent::Encoded));
    give(&mut t, audio(AudioEvent::Packet));
    assert_eq!(
        give(&mut t, audio(AudioEvent::EncoderDry)),
        TranscodeAction::WriteTrailer
    );
    assert_eq!(give(&mut t, TranscodeEvent::TrailerWritten), TranscodeAction::Finished);

    let stats = t.stats(2_500_000);
    assert_eq!(stats.streams_copied, 1);
    assert_eq!(stats.streams_reencoded, 2);
    assert_eq!(stats.packets_written, 3);
    assert_eq!(stats.duration, Position { ticks: 2_500_000, num: 1, den: 1_000_000 });
    assert_eq!(t.stats(AV_NOPTS_VALUE).duration, Position::origin());
}

#[test]
fn copies_alone_need_no_drain() {
    let plan = plan_streams(&vec![0], none(), &opts(None, None)).unwrap();
    let mut t = Transcode::new(&plan, vec![Track::Copy { start: None }]);
    give(&mut t, TranscodeEvent::HeaderWritten);
    assert_eq!(give(&mut t, TranscodeEvent::EndOfInput), TranscodeAction::WriteTrailer);
}

#[test]
fn a_gone_caller_ends_the_transcode() {
    let plan = plan_streams(&vec![0], none(), &opts(None, None)).unwrap();
    let mut t = Transcode::new(&plan, vec![Track::Copy { start: None }]);
    give(&mut t, TranscodeEvent::HeaderWritten);
    let err = t
        .step(TranscodeEvent::Packet {
            stream_index: 0,
            times: PacketTimes { pts: 0, dts: 0 },
            alive: false,
        })
        .unwrap_err();
    assert_eq!(err.kind(), "cancelled");
    assert_eq!(t.stage(), TranscodeStage::Read);
}
