use exmpeg_native::concat::{
    checked, input_origin, length_is_known, segment_leader, Concat, ConcatAction, ConcatEvent, ConcatStage, ConcatStats,
    PacketTimes, Timeline,
};
use exmpeg_native::concat_layout::{assert_layout_matches, codecpar_mismatch, StreamParams};
use exmpeg_native::media::{Rational, AV_NOPTS_VALUE};

fn video() -> StreamParams {
    StreamParams {
        codec_id: 27,
        codec_name: "h264".to_owned(),
        codec_type: 0,
        profile: 100,
        sample_rate: 0,
        format: 0,
        format_name: Some("yuv420p".to_owned()),
        channels: 0,
        layout: "".to_owned(),
        width: 640,
        height: 360,
        extradata: vec![1, 100],
    }
}

fn audio() -> StreamParams {
    StreamParams {
        codec_id: 65536,
        codec_name: "pcm_s16le".to_owned(),
        codec_type: 1,
        profile: -99,
        sample_rate: 44_100,
        format: 1,
        format_name: Some("s16".to_owned()),
        channels: 2,
        layout: "stereo".to_owned(),
        width: 0,
        height: 0,
        extradata: vec![],
    }
}

fn field(e: &StreamParams, g: &StreamParams, layouts_equal: bool) -> Option<(String, String, String)> {
    codecpar_mismatch(e, g, layouts_equal).map(|m| (m.field, m.expected, m.got))
}

fn triple(a: &str, b: &str, c: &str) -> Option<(String, String, String)> {
    Some((a.to_owned(), b.to_owned(), c.to_owned()))
}

#[test]
fn equal_parameters_match() {
    assert_eq!(field(&video(), &video(), true), None);
    assert_eq!(field(&audio(), &audio(), true), None);
}

#[test]
fn every_video_parameter_is_compared() {
    let hevc = StreamParams { codec_id: 173, codec_name: "hevc".to_owned(), ..video() };
    assert_eq!(field(&video(), &hevc, true), triple("codec_id", "h264", "hevc"));
    let main = StreamParams { profile: 77, ..video() };
    assert_eq!(field(&video(), &main, true), triple("profile", "100", "77"));
    let wide = StreamParams { width: 1280, ..video() };
    assert_eq!(field(&video(), &wide, true), triple("width", "640", "1280"));
    let tall = StreamParams { height: 720, ..video() };
    assert_eq!(field(&video(), &tall, true), triple("height", "360", "720"));
    let deep = StreamParams { format: 62, format_name: Some("yuv420p10le".to_owned()), ..video() };
    assert_eq!(field(&video(), &deep, true), triple("pixel_format", "yuv420p", "yuv420p10le"));
    let sets = StreamParams { extradata: vec![1, 101], ..video() };
    assert_eq!(field(&video(), &sets, true), triple("parameter_sets", "0164", "0165"));
}

#[test]
fn every_audio_parameter_is_compared() {
    let fast = StreamParams { sample_rate: 48_000, ..audio() };
    assert_eq!(field(&audio(), &fast, true), triple("sample_rate", "44100", "48000"));
    let odd = StreamParams { format: 9, format_name: None, ..audio() };
    assert_eq!(field(&audio(), &odd, true), triple("sample_format", "s16", "9"));
    let mono = StreamParams { channels: 1, layout: "mono".to_owned(), ..audio() };
    assert_eq!(field(&audio(), &mono, false), triple("channel_layout", "stereo", "mono"));
}

#[test]
fn parameters_that_were_not_read_are_not_compared() {
    let bare = StreamParams {
        profile: -99,
        format: -1,
        width: 0,
        height: 0,
        extradata: vec![],
        ..video()
    };
    assert_eq!(field(&video(), &bare, true), None);
    assert_eq!(field(&bare, &video(), true), None);
    // Annex B headers are not parameter sets in avcC form.
    let annex_b = StreamParams { extradata: vec![0, 0, 0, 1], ..video() };
    assert_eq!(field(&video(), &annex_b, true), None);
    let silent = StreamParams { sample_rate: 0, format: -1, channels: 0, ..audio() };
    assert_eq!(field(&audio(), &silent, false), None);
}

#[test]
fn other_kinds_compare_codec_and_profile_only() {
    let a = StreamParams { codec_type: 3, ..video() };
    let b = StreamParams { codec_type: 3, width: 1, ..video() };
    assert_eq!(field(&a, &b, false), None);
}

#[test]
fn the_check_of_an_input_answers_the_join() {
    let first = vec![video(), audio()];
    let same = vec![video(), audio()];
    let equal = vec![true, true];
    for alive in [true, false] {
        let reply = checked(&first, &same, &equal, "b.mp4", alive).unwrap();
        assert!(matches!(reply, ConcatEvent::Checked { alive: a } if a == alive));
    }
    let wide = vec![StreamParams { width: 7, ..video() }, audio()];
    let err = checked(&first, &wide, &equal, "b.mp4", true).unwrap_err();
    assert_eq!(err.kind(), "invalid_request");
    assert_eq!(err.detail("field").unwrap(), "width");
    assert_eq!(err.detail("stream").unwrap(), "0");
    assert_eq!(err.detail("path").unwrap(), "b.mp4");
    let err = checked(&first, &vec![], &vec![], "b.mp4", true).unwrap_err();
    assert_eq!(err.detail("field").unwrap(), "stream_count");
    // A caller that is gone is not told about layouts.
    let reply = checked(&first, &wide, &equal, "b.mp4", false).unwrap();
    assert!(matches!(reply, ConcatEvent::Checked { alive: false }));
}

#[test]
fn a_layout_error_names_what_differs() {
    let first = vec![video(), audio()];
    assert!(
        assert_layout_matches(&first, &vec![video(), audio()], &vec![true, true], "b.mp4").is_ok()
    );
    let count = assert_layout_matches(&first, &vec![video()], &vec![], "b.mp4").unwrap_err();
    assert_eq!(count.kind(), "invalid_request");
    assert_eq!(
        count.message(),
        "input stream count does not match the first input"
    );
    assert_eq!(count.detail("field").unwrap(), "stream_count");
    assert_eq!(count.detail("expected").unwrap(), "2");
    assert_eq!(count.detail("got").unwrap(), "1");
    assert_eq!(count.detail("path").unwrap(), "b.mp4");
    assert_eq!(count.detail("stream"), None);
    let fast = StreamParams { sample_rate: 48_000, ..audio() };
    let err =
        assert_layout_matches(&first, &vec![video(), fast], &vec![true, true], "b.mp4").unwrap_err();
    assert_eq!(
        err.message(),
        "input stream sample_rate does not match the first input"
    );
    assert_eq!(err.detail("stream").unwrap(), "1");
    assert_eq!(err.detail("field").unwrap(), "sample_rate");
    assert_eq!(err.detail("expected").unwrap(), "44100");
    assert_eq!(err.detail("got").unwrap(), "48000");
}

fn times(pts: i64, dts: i64) -> PacketTimes {
    PacketTimes { pts, dts }
}

#[test]
fn inputs_move_from_their_own_start() {
    assert_eq!(input_origin(AV_NOPTS_VALUE), 0);
    assert_eq!(input_origin(-5), -5);
    let mut line = Timeline::new(1);
    assert_eq!(line.streams(), 1);
    assert_eq!(line.reached(0), None);
    // An input that starts at 100 comes out at zero.
    assert!(line.fits(0, 100, times(104, 100), 4));
    assert_eq!(line.place(0, 100, times(104, 100), 4), times(4, 0));
    assert_eq!(line.reached(0), Some(4));
    assert_eq!(line.place(0, 100, times(108, 104), 4), times(8, 4));
    assert!(line.fits_increments(&vec![8]));
    line.advance_known(&vec![8]);
    // The next input continues without a gap.
    assert_eq!(line.place(0, 7, times(7, 7), 4), times(8, 8));
}

#[test]
fn decode_times_never_go_back() {
    let mut line = Timeline::new(2);
    assert_eq!(line.place(0, 0, times(0, 0), 10), times(0, 0));
    // Two packets with one decode time: the second moves behind the first.
    assert_eq!(line.place(0, 0, times(3, 0), 0), times(13, 10));
    assert_eq!(line.reached(0), Some(11));
    assert_eq!(line.place(0, 0, times(AV_NOPTS_VALUE, -4), 1), times(AV_NOPTS_VALUE, 11));
    // A packet without a decode time is only moved.
    assert_eq!(line.place(0, 1, times(6, AV_NOPTS_VALUE), 1), times(5, AV_NOPTS_VALUE));
    assert_eq!(line.reached(0), Some(12));
    // The other stream is not touched.
    assert_eq!(line.reached(1), None);
    assert_eq!(line.place(1, 0, times(0, -2), 1), times(0, -2));
}

#[test]
fn unknown_lengths_never_move_back() {
    let mut line = Timeline::new(2);
    line.advance_known(&vec![10, 20]);
    line.advance_unknown(&vec![5, 25]);
    assert_eq!(line.place(0, 0, times(0, 0), 1), times(10, 10));
    assert_eq!(line.place(1, 0, times(0, 0), 1), times(25, 25));
}

#[test]
fn an_input_behind_an_unknown_length_keeps_its_spacing() {
    let mut line = Timeline::new(1);
    assert_eq!(line.place(0, 0, times(0, 0), 4), times(0, 0));
    assert_eq!(line.place(0, 0, times(30, 30), 4), times(30, 30));
    line.advance_unknown(&vec![34]);
    assert_eq!(line.place(0, 9, times(9, 9), 4), times(34, 34));
    assert_eq!(line.place(0, 9, times(13, 13), 4), times(38, 38));
    assert_eq!(line.place(0, 9, times(50, 49), 4), times(75, 74));
}

#[test]
fn numbers_that_do_not_fit_are_noticed() {
    let line = Timeline::new(1);
    assert!(!line.fits(0, i64::MIN, times(0, 0), 1));
    assert!(!line.fits(0, 0, times(0, i64::MAX), 1));
    assert!(!line.fits(0, 1, times(i64::MIN + 1, 0), 1));
    assert!(line.fits(0, 0, times(AV_NOPTS_VALUE, AV_NOPTS_VALUE), i64::MAX));
    assert!(!line.fits_increments(&vec![1, 2]));
    assert!(line.fits_increments(&vec![i64::MAX]));
}

#[test]
fn the_segment_ends_with_its_last_stream() {
    let bases = vec![
        Rational { num: 1, den: 1000 },
        Rational { num: 1, den: 48_000 },
        Rational { num: 1, den: 10 },
    ];
    assert_eq!(segment_leader(&vec![Some(1000), Some(48_001), None], &bases), Some(1));
    assert_eq!(segment_leader(&vec![Some(1000), Some(48_000), Some(10)], &bases), Some(0));
    assert_eq!(segment_leader(&vec![None, None, Some(-3)], &bases), Some(2));
    assert_eq!(segment_leader(&vec![None, None, None], &bases), None);
}

fn give(join: &mut Concat, ev: ConcatEvent) -> ConcatAction {
    assert!(join.can_step(&ev));
    join.step(ev).unwrap()
}

fn packet(stream_index: usize, pts: i64, dts: i64) -> ConcatEvent {
    ConcatEvent::Packet { stream_index, times: times(pts, dts), duration: 10, alive: true }
}

#[test]
fn a_join_of_nothing_is_refused() {
    let err = Concat::new(0).unwrap_err();
    assert_eq!(err.kind(), "invalid_request");
    assert_eq!(err.message(), "concat requires at least one input");
}

#[test]
fn all_inputs_are_checked_before_the_first_packet() {
    let mut join = Concat::new(3).unwrap();
    assert_eq!(join.stage(), ConcatStage::First);
    assert_eq!(
        give(&mut join, ConcatEvent::FirstOpened { streams: 1 }),
        ConcatAction::CheckInput { index: 1 }
    );
    assert_eq!(
        give(&mut join, ConcatEvent::Checked { alive: true }),
        ConcatAction::CheckInput { index: 2 }
    );
    assert!(!join.can_step(&ConcatEvent::HeaderWritten));
    assert_eq!(
        give(&mut join, ConcatEvent::Checked { alive: true }),
        ConcatAction::WriteHeader
    );
}

#[test]
fn inputs_are_joined_end_to_end() {
    let mut join = Concat::new(2).unwrap();
    give(&mut join, ConcatEvent::FirstOpened { streams: 1 });
    give(&mut join, ConcatEvent::Checked { alive: true });
    assert_eq!(
        give(&mut join, ConcatEvent::HeaderWritten),
        ConcatAction::OpenInput { index: 0 }
    );
    assert_eq!(
        give(&mut join, ConcatEvent::Opened { origins: vec![50] }),
        ConcatAction::ReadPacket
    );
    assert_eq!(
        give(&mut join, packet(0, 50, 50)),
        ConcatAction::WritePacket { stream_index: 0, times: times(0, 0) }
    );
    assert_eq!(give(&mut join, ConcatEvent::Written), ConcatAction::ReadPacket);
    // A stream that the first input does not have.
    assert_eq!(give(&mut join, packet(5, 0, 0)), ConcatAction::ReadPacket);
    assert_eq!(
        give(&mut join, ConcatEvent::EndOfInput { duration: 1_200_000 }),
        ConcatAction::Measure { known: true }
    );
    assert!(!join.can_step(&ConcatEvent::UnknownLength { ends: vec![22] }));
    assert_eq!(join.reached(0), Some(10));
    assert_eq!(
        give(&mut join, ConcatEvent::KnownLength { increments: vec![12] }),
        ConcatAction::OpenInput { index: 1 }
    );
    give(&mut join, ConcatEvent::Opened { origins: vec![0] });
    assert_eq!(
        give(&mut join, packet(0, 0, 0)),
        ConcatAction::WritePacket { stream_index: 0, times: times(12, 12) }
    );
    give(&mut join, ConcatEvent::Written);
    assert_eq!(
        give(&mut join, ConcatEvent::EndOfInput { duration: AV_NOPTS_VALUE }),
        ConcatAction::Measure { known: false }
    );
    assert!(!join.can_step(&ConcatEvent::KnownLength { increments: vec![12] }));
    assert_eq!(
        give(&mut join, ConcatEvent::UnknownLength { ends: vec![22] }),
        ConcatAction::WriteTrailer
    );
    assert_eq!(give(&mut join, ConcatEvent::TrailerWritten), ConcatAction::Finished);
    assert_eq!(
        join.stats(),
        ConcatStats { packets_written: 2, inputs_joined: 2, streams_copied: 1 }
    );
    assert_eq!(join.packets_written(), 2);
}

#[test]
fn a_gone_caller_ends_the_join() {
    let mut join = Concat::new(2).unwrap();
    give(&mut join, ConcatEvent::FirstOpened { streams: 1 });
    let err = join.step(ConcatEvent::Checked { alive: false }).unwrap_err();
    assert_eq!(err.kind(), "cancelled");
    assert_eq!(join.stage(), ConcatStage::Check { index: 1 });
}

#[test]
fn only_a_positive_duration_is_known() {
    assert!(length_is_known(1));
    assert!(length_is_known(i64::MAX));
    assert!(!length_is_known(0));
    assert!(!length_is_known(-1));
    assert!(!length_is_known(AV_NOPTS_VALUE));
}
