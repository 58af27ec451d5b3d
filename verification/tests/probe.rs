use exmpeg_native::media::{Position, Rational, AV_NOPTS_VALUE};
use exmpeg_native::probe::{
    collect_stream, kind_name, probe, resolve_codec, ticks_to_seconds, FormatFacts, StreamFacts,
};

fn facts(codec_type: i32) -> StreamFacts {
    StreamFacts {
        index: 3,
        codec_type,
        decoder: Some(("h264".to_owned(), Some("H.264 / AVC".to_owned()))),
        bit_rate: 1000,
        time_base: Rational { num: 1, den: 90_000 },
        duration: 180_000,
        nb_frames: 50,
        sample_rate: 48_000,
        channels: 2,
        sample_format: Some("fltp".to_owned()),
        width: 640,
        height: 360,
        pixel_format: Some("yuv420p".to_owned()),
        avg_frame_rate: Rational { num: 25, den: 1 },
    }
}

#[test]
fn kinds_have_names() {
    assert_eq!(kind_name(0), "video");
    assert_eq!(kind_name(1), "audio");
    assert_eq!(kind_name(2), "data");
    assert_eq!(kind_name(3), "subtitle");
    assert_eq!(kind_name(4), "attachment");
    assert_eq!(kind_name(-1), "unknown");
    assert_eq!(kind_name(5), "unknown");
}

#[test]
fn video_streams_have_a_video_part_only() {
    let s = collect_stream(&facts(0));
    assert_eq!(s.index, 3);
    assert_eq!(s.kind, "video");
    assert_eq!(s.codec, "h264");
    assert_eq!(s.codec_long_name.as_deref(), Some("H.264 / AVC"));
    assert_eq!(s.bit_rate, 1000);
    assert_eq!(s.time_base, (1, 90_000));
    assert_eq!(s.duration, Some(Position { ticks: 180_000, num: 1, den: 90_000 }));
    assert_eq!(s.nb_frames, Some(50));
    assert!(s.audio.is_none());
    let v = s.video.unwrap();
    assert_eq!((v.width, v.height, v.frame_rate), (640, 360, (25, 1)));
    assert_eq!(v.pixel_format.as_deref(), Some("yuv420p"));
}

#[test]
fn audio_streams_have_an_audio_part_only() {
    let s = collect_stream(&facts(1));
    assert!(s.video.is_none());
    let a = s.audio.unwrap();
    assert_eq!((a.sample_rate, a.channels), (48_000, 2));
    assert_eq!(a.sample_format.as_deref(), Some("fltp"));
}

#[test]
fn other_streams_have_no_part() {
    let s = collect_stream(&facts(3));
    assert_eq!(s.kind, "subtitle");
    assert!(s.audio.is_none() && s.video.is_none());
}

#[test]
fn unknown_facts_are_left_out() {
    let mut f = facts(0);
    f.decoder = None;
    f.duration = AV_NOPTS_VALUE;
    f.nb_frames = 0;
    f.avg_frame_rate = Rational { num: 7, den: 0 };
    f.pixel_format = None;
    let s = collect_stream(&f);
    assert_eq!(s.codec, "unknown");
    assert_eq!(s.codec_long_name, None);
    assert_eq!(s.duration, None);
    assert_eq!(s.nb_frames, None);
    let v = s.video.unwrap();
    assert_eq!(v.frame_rate, (0, 1));
    assert_eq!(v.pixel_format, None);
}

#[test]
fn an_empty_long_name_is_none() {
    assert_eq!(
        resolve_codec(&Some(("aac".to_owned(), Some("".to_owned())))),
        ("aac".to_owned(), None)
    );
    assert_eq!(
        resolve_codec(&Some(("aac".to_owned(), None))),
        ("aac".to_owned(), None)
    );
}

#[test]
fn zero_seconds_are_not_unknown() {
    let tb = Rational { num: 1, den: 1000 };
    assert_eq!(ticks_to_seconds(0, tb), Some(Position { ticks: 0, num: 1, den: 1000 }));
    assert_eq!(ticks_to_seconds(-5, tb), Some(Position { ticks: -5, num: 1, den: 1000 }));
    assert_eq!(ticks_to_seconds(AV_NOPTS_VALUE, tb), None);
    assert_eq!(ticks_to_seconds(5, Rational { num: 1, den: 0 }), None);
}

#[test]
fn a_report_covers_the_container_and_every_stream() {
    let format = FormatFacts {
        name: "mov,mp4".to_owned(),
        long_name: Some("QuickTime / MOV".to_owned()),
        duration: 2_000_000,
        start_time: AV_NOPTS_VALUE,
        bit_rate: 0,
        nb_streams: 2,
        tags: vec![("title".to_owned(), "demo".to_owned())],
    };
    let report = probe(format, &vec![facts(0), facts(1)]);
    assert_eq!(report.format.name, "mov,mp4");
    assert_eq!(report.format.long_name.as_deref(), Some("QuickTime / MOV"));
    assert_eq!(
        report.format.duration,
        Some(Position { ticks: 2_000_000, num: 1, den: 1_000_000 })
    );
    assert_eq!(report.format.start_time, None);
    assert_eq!(report.format.nb_streams, 2);
    assert_eq!(report.format.tags.len(), 1);
    let kinds: Vec<&str> = report.streams.iter().map(|s| s.kind).collect();
    assert_eq!(kinds, vec!["video", "audio"]);
}
