use exmpeg_native::audio::AudioTarget;
use exmpeg_native::audio_flow::{AudioAction, AudioEvent};
use exmpeg_native::extract_audio::{
    find_audio_stream, open_for_extraction, pick_encoder, plan_extraction,
    require_extension_encoder, ExtractAction, ExtractAudio, ExtractAudioOpts, ExtractEvent,
    ExtractStage,
};
use exmpeg_native::extract_frame::{
    find_video_stream, frame_stats, image_can_step, image_encoder_params, image_step,
    require_image_encoder, FrameSearch, ImageAction, ImageEvent, ImageStage, SearchAction,
    SearchEvent, SearchWait,
};
use exmpeg_native::input::{InputSource, OpenPlan};
use exmpeg_native::media::{Position, Rational, AV_NOPTS_VALUE};
use exmpeg_native::path::PathStyle;
use exmpeg_native::transcode_plan::AudioSource;
use exmpeg_native::video::Picture;

#[test]
fn streams_that_are_missing_are_named() {
    assert_eq!(find_video_stream(Some(2)).unwrap(), 2);
    assert_eq!(find_audio_stream(Some(1)).unwrap(), 1);
    let video = find_video_stream(None).unwrap_err();
    assert_eq!(video.kind(), "invalid_request");
    assert_eq!(video.message(), "input contains no video stream");
    assert_eq!(
        find_audio_stream(None).unwrap_err().message(),
        "input contains no audio stream"
    );
}

fn give(search: &mut FrameSearch, ev: SearchEvent) -> SearchAction {
    assert!(search.can_step(&ev));
    search.step(ev).unwrap()
}

fn frame(pts: i64) -> SearchEvent {
    SearchEvent::Frame { pts, best_effort: AV_NOPTS_VALUE }
}

fn packet(stream_index: usize) -> SearchEvent {
    SearchEvent::Packet { stream_index, alive: true }
}

#[test]
fn the_first_frame_at_or_after_the_target_is_taken() {
    let mut search = FrameSearch::new(1, Some(100));
    assert_eq!(give(&mut search, packet(0)), SearchAction::ReadPacket);
    assert_eq!(give(&mut search, packet(1)), SearchAction::SendPacket);
    assert_eq!(give(&mut search, SearchEvent::Sent), SearchAction::ReceiveFrame);
    assert_eq!(give(&mut search, frame(60)), SearchAction::ReceiveFrame);
    assert_eq!(give(&mut search, SearchEvent::Dry), SearchAction::ReadPacket);
    give(&mut search, packet(1));
    give(&mut search, SearchEvent::Sent);
    assert_eq!(give(&mut search, frame(99)), SearchAction::ReceiveFrame);
    assert_eq!(give(&mut search, frame(101)), SearchAction::UseFrame);
    assert_eq!(search.wait(), SearchWait::Over);
}

#[test]
fn the_best_guess_stands_in_for_a_missing_time() {
    let mut search = FrameSearch::new(0, Some(100));
    give(&mut search, packet(0));
    give(&mut search, SearchEvent::Sent);
    let unknown = SearchEvent::Frame { pts: AV_NOPTS_VALUE, best_effort: AV_NOPTS_VALUE };
    assert_eq!(give(&mut search, unknown), SearchAction::ReceiveFrame);
    let guessed = SearchEvent::Frame { pts: AV_NOPTS_VALUE, best_effort: 100 };
    assert_eq!(give(&mut search, guessed), SearchAction::UseFrame);
}

#[test]
fn without_a_target_any_frame_does() {
    let mut search = FrameSearch::new(0, None);
    give(&mut search, packet(0));
    give(&mut search, SearchEvent::Sent);
    assert_eq!(give(&mut search, frame(-50)), SearchAction::UseFrame);
}

#[test]
fn past_the_end_the_last_frame_is_taken() {
    let mut search = FrameSearch::new(0, Some(1000));
    give(&mut search, packet(0));
    give(&mut search, SearchEvent::Sent);
    give(&mut search, frame(60));
    give(&mut search, SearchEvent::Dry);
    assert_eq!(give(&mut search, SearchEvent::EndOfInput), SearchAction::SendEnd);
    give(&mut search, SearchEvent::Sent);
    assert_eq!(give(&mut search, frame(80)), SearchAction::ReceiveFrame);
    assert_eq!(give(&mut search, SearchEvent::Dry), SearchAction::UseFrame);
}

#[test]
fn a_video_without_frames_is_an_error() {
    let mut search = FrameSearch::new(0, None);
    give(&mut search, SearchEvent::EndOfInput);
    give(&mut search, SearchEvent::Sent);
    let err = search.step(SearchEvent::Dry).unwrap_err();
    assert_eq!(err.kind(), "decode_error");
    assert_eq!(
        err.message(),
        "decoder produced no frames at or after the requested timestamp"
    );
    let mut gone = FrameSearch::new(0, None);
    let err = gone
        .step(SearchEvent::Packet { stream_index: 0, alive: false })
        .unwrap_err();
    assert_eq!(err.kind(), "cancelled");
}

#[test]
fn the_image_is_drained_before_the_trailer() {
    let mut stage = ImageStage::Header;
    for (ev, action) in [
        (ImageEvent::HeaderWritten, ImageAction::EncodeFrame),
        (ImageEvent::Encoded, ImageAction::ReceivePacket),
        (ImageEvent::Packet, ImageAction::ReceivePacket),
        (ImageEvent::EncoderDry, ImageAction::FlushEncoder),
        (ImageEvent::Encoded, ImageAction::ReceivePacket),
        (ImageEvent::EncoderDry, ImageAction::WriteTrailer),
        (ImageEvent::TrailerWritten, ImageAction::Finished),
    ] {
        assert!(image_can_step(stage, ev));
        let (next, what) = image_step(stage, ev);
        assert_eq!(what, action);
        stage = next;
    }
    assert_eq!(stage, ImageStage::Finished);
    assert!(!image_can_step(stage, ImageEvent::Packet));
}

#[test]
fn image_encoders_are_set_up() {
    let picture = Picture { width: 320, height: 180, format: 12 };
    let p = image_encoder_params(picture, Rational { num: 4, den: 3 });
    assert_eq!(p.picture, picture);
    assert_eq!(p.time_base, Rational { num: 1, den: 25 });
    assert_eq!(p.aspect, Rational { num: 4, den: 3 });
    assert_eq!(p.strict, -1);
    assert!(require_image_encoder(true, "7").is_ok());
    let err = require_image_encoder(false, "171").unwrap_err();
    assert_eq!(err.kind(), "unsupported");
    assert_eq!(err.message(), "encoder not built into FFmpeg");
    assert_eq!(err.detail("codec_id").unwrap(), "171");
}

#[test]
fn frame_reports_tell_an_unknown_time() {
    let picture = Picture { width: 320, height: 180, format: 12 };
    let tb = Rational { num: 1, den: 90_000 };
    let known = frame_stats(picture, 0, tb, "mjpeg".to_owned());
    assert!(known.pts_known);
    assert_eq!(known.timestamp, Position { ticks: 0, num: 1, den: 90_000 });
    assert_eq!((known.width, known.height), (320, 180));
    assert_eq!(known.codec, "mjpeg");
    let unknown = frame_stats(picture, AV_NOPTS_VALUE, tb, "png".to_owned());
    assert!(!unknown.pts_known);
    assert_eq!(unknown.timestamp, Position::origin());
}

#[test]
fn audio_encoders_are_picked_by_extension() {
    for (path, encoder) in [
        ("a.wav", "pcm_s16le"),
        ("a.MP3", "libmp3lame"),
        ("a.m4a", "aac"),
        ("a.aac", "aac"),
        ("a.opus", "libopus"),
        ("a.ogg", "libopus"),
        ("dir/a.flac", "flac"),
    ] {
        assert_eq!(pick_encoder(PathStyle::Posix, path).unwrap(), encoder);
    }
    let other = pick_encoder(PathStyle::Posix, "a.TXT").unwrap_err();
    assert_eq!(other.kind(), "invalid_request");
    assert_eq!(
        other.message(),
        "unsupported audio output extension; use .wav, .mp3, .m4a/.aac, .opus/.ogg, or .flac"
    );
    assert_eq!(other.detail("extension").unwrap(), "txt");
    assert_eq!(
        pick_encoder(PathStyle::Posix, "audio").unwrap_err().detail("extension").unwrap(),
        "<none>"
    );
    assert!(require_extension_encoder(true, "flac").is_ok());
    let missing = require_extension_encoder(false, "libopus").unwrap_err();
    assert_eq!(missing.kind(), "unsupported");
    assert_eq!(missing.detail("encoder").unwrap(), "libopus");
}

#[test]
fn extractions_are_planned_for_the_encoder() {
    let src = AudioSource { sample_rate: 44_100, format: 8, channels: 1 };
    let asked = ExtractAudioOpts { sample_rate: None, channels: None, bitrate: Some(64_000) };
    let p = plan_extraction(src, &asked, &Some(vec![1, 8]), &Some(vec![8_000, 48_000])).unwrap();
    assert_eq!(p.target, AudioTarget { sample_rate: 48_000, format: 8, channels: 1 });
    assert_eq!(p.time_base, Rational { num: 1, den: 48_000 });
    assert_eq!(p.bit_rate, Some(64_000));
    let wide = AudioSource { channels: 8, ..src };
    assert_eq!(
        plan_extraction(wide, &asked, &None, &None).unwrap_err().kind(),
        "invalid_request"
    );
}

fn flow(audio: AudioEvent) -> ExtractEvent {
    ExtractEvent::Flow { audio }
}

fn next(x: &mut ExtractAudio, ev: ExtractEvent) -> ExtractAction {
    assert!(x.can_step(&ev));
    x.step(ev).unwrap()
}

#[test]
fn an_extraction_counts_samples_from_zero() {
    let target = AudioTarget { sample_rate: 48_000, format: 1, channels: 2 };
    let mut x = ExtractAudio::new(1, true, 1024, target);
    assert_eq!(next(&mut x, ExtractEvent::HeaderWritten), ExtractAction::ReadPacket);
    let other = ExtractEvent::Packet { stream_index: 0, alive: true };
    assert_eq!(next(&mut x, other), ExtractAction::ReadPacket);
    let mine = ExtractEvent::Packet { stream_index: 1, alive: true };
    assert_eq!(
        next(&mut x, mine),
        ExtractAction::Flow { audio: AudioAction::SendPacket }
    );
    next(&mut x, flow(AudioEvent::Sent));
    for pts in [0, 1024] {
        let got = AudioEvent::Frame { nb_samples: 1024, sample_rate: 48_000, timestamp: None };
        assert_eq!(
            next(&mut x, flow(got)),
            ExtractAction::Flow { audio: AudioAction::Encode { pts } }
        );
        next(&mut x, flow(AudioEvent::Encoded));
        next(&mut x, flow(AudioEvent::Packet));
        next(&mut x, flow(AudioEvent::EncoderDry));
    }
    let timed = AudioEvent::Frame { nb_samples: 1, sample_rate: 48_000, timestamp: Some(9) };
    assert!(!x.can_step(&flow(timed)));
    assert_eq!(next(&mut x, flow(AudioEvent::DecoderDry)), ExtractAction::ReadPacket);
    assert_eq!(
        next(&mut x, ExtractEvent::EndOfInput),
        ExtractAction::Flow { audio: AudioAction::SendEnd }
    );
    next(&mut x, flow(AudioEvent::Sent));
    next(&mut x, flow(AudioEvent::DecoderDry));
    next(&mut x, flow(AudioEvent::Encoded));
    assert_eq!(next(&mut x, flow(AudioEvent::EncoderDry)), ExtractAction::WriteTrailer);
    assert_eq!(next(&mut x, ExtractEvent::TrailerWritten), ExtractAction::Finished);
    assert_eq!(x.stage(), ExtractStage::Finished);
    assert_eq!(x.packets_written(), 2);
    assert_eq!(x.position(), Position { ticks: 2048, num: 1, den: 48_000 });
    let stats = x.stats("pcm_s16le".to_owned());
    assert_eq!(stats.samples_written, 2048);
    assert_eq!((stats.sample_rate, stats.channels), (48_000, 2));
    assert_eq!(stats.duration, Position { ticks: 2048, num: 1, den: 48_000 });
    assert_eq!(stats.codec, "pcm_s16le");
}

#[test]
fn a_gone_caller_ends_the_extraction() {
    let target = AudioTarget { sample_rate: 48_000, format: 1, channels: 2 };
    let mut x = ExtractAudio::new(0, false, 960, target);
    next(&mut x, ExtractEvent::HeaderWritten);
    let err = x
        .step(ExtractEvent::Packet { stream_index: 0, alive: false })
        .unwrap_err();
    assert_eq!(err.kind(), "cancelled");
    assert_eq!(x.stage(), ExtractStage::Read);
}

#[test]
fn a_bad_extension_is_answered_before_the_source() {
    let posix = PathStyle::Posix;
    let empty = || InputSource::Memory(vec![]);
    for found in [true, false] {
        let err = open_for_extraction(posix, "out.XYZ", found, empty(), false).unwrap_err();
        assert_eq!(err.kind(), "invalid_request");
        assert_eq!(
            err.message(),
            "unsupported audio output extension; use .wav, .mp3, .m4a/.aac, .opus/.ogg, or .flac"
        );
        assert_eq!(err.details(), &vec![("extension".to_owned(), "xyz".to_owned())]);
    }
    // Then the encoder, then the path, then the source.
    let err = open_for_extraction(posix, "a\0.wav", false, empty(), false).unwrap_err();
    assert_eq!(err.kind(), "unsupported");
    assert_eq!(err.detail("encoder").unwrap(), "pcm_s16le");
    let err = open_for_extraction(posix, "a\0.wav", true, empty(), false).unwrap_err();
    assert_eq!(err.message(), "path contains NUL bytes");
    let err = open_for_extraction(posix, "a.wav", true, empty(), false).unwrap_err();
    assert_eq!(err.message(), "memory input is an empty binary");
    let missing = InputSource::Path("nowhere".to_owned());
    let err = open_for_extraction(posix, "a.wav", true, missing, false).unwrap_err();
    assert_eq!(err.message(), "input path is not a regular file");
    let source = InputSource::Path("in.mp4".to_owned());
    let (name, plan) = open_for_extraction(posix, "a.ogg", true, source, true).unwrap();
    assert_eq!(name, "libopus");
    assert!(matches!(plan, OpenPlan::File { path, .. } if path == "in.mp4"));
}
