use exmpeg_native::media::{
    build_stream_map, drops_of, should_drop, Drops, Position, Rational, AV_NOPTS_VALUE,
};
use exmpeg_native::remux::{
    window_times, Remux, RemuxAction, RemuxEvent, RemuxPacket, RemuxStats, Window,
};

fn none() -> Drops {
    Drops { audio: false, video: false, subtitles: false }
}

#[test]
fn switches_are_independent() {
    let drops = drops_of(Some(true), None, Some(false));
    assert_eq!(drops, Drops { audio: true, video: false, subtitles: false });
    assert!(should_drop(1, drops));
    assert!(!should_drop(0, drops));
    assert!(!should_drop(3, drops));
    let all = drops_of(Some(true), Some(true), Some(true));
    assert!(should_drop(0, all) && should_drop(1, all) && should_drop(3, all));
    assert!(!should_drop(2, all) && !should_drop(4, all) && !should_drop(-1, all));
}

#[test]
fn kept_streams_are_numbered_in_order() {
    let drops = Drops { audio: true, ..none() };
    let (map, kept) = build_stream_map(&vec![0, 1, 3, 1, 2], drops);
    assert_eq!(map, vec![Some(0), None, Some(1), None, Some(2)]);
    assert_eq!(kept, 3);
}

#[test]
fn positions_compare_by_time() {
    let half = Position { ticks: 1, num: 1, den: 2 };
    let third = Position { ticks: 1, num: 1, den: 3 };
    assert!(half.after(&third));
    assert!(!third.after(&half));
    assert!(!half.after(&Position { ticks: 500, num: 1, den: 1000 }));
    let far = Position { ticks: i64::MAX, num: i32::MAX, den: 1 };
    assert!(far.after(&half));
    // A negative denominator turns the time round.
    let minus = Position { ticks: 1, num: 1, den: -2 };
    assert!(!minus.after(&Position::origin()));
    assert!(Position::origin().after(&minus));
    assert!(Position { ticks: -1, num: 1, den: -2 }.after(&third));
    assert!(!minus.after(&Position { ticks: -1, num: 1, den: 2 }));
    // A denominator of zero is an infinite time, or none.
    let late = Position { ticks: 1, num: 1, den: 0 };
    let early = Position { ticks: -1, num: 1, den: 0 };
    let none = Position { ticks: 0, num: 1, den: 0 };
    assert!(late.after(&far) && half.after(&early) && late.after(&early));
    assert!(!late.after(&late) && !early.after(&late) && !far.after(&late));
    assert!(!none.after(&early) && !early.after(&none) && !late.after(&none));
    let tb = Rational { num: 1, den: 90_000 };
    assert_eq!(
        Position::from_timestamp(45_000, tb),
        Position { ticks: 45_000, num: 1, den: 90_000 }
    );
    assert_eq!(Position::from_timestamp(AV_NOPTS_VALUE, tb), Position::origin());
}

#[test]
fn packets_are_bounded_by_whichever_time_they_have() {
    let both = window_times(10, 8);
    assert_eq!((both.start, both.end), (Some(10), Some(8)));
    let no_pts = window_times(AV_NOPTS_VALUE, 8);
    assert_eq!((no_pts.start, no_pts.end), (Some(8), Some(8)));
    let no_dts = window_times(10, AV_NOPTS_VALUE);
    assert_eq!((no_dts.start, no_dts.end), (Some(10), Some(10)));
    let neither = window_times(AV_NOPTS_VALUE, AV_NOPTS_VALUE);
    assert_eq!((neither.start, neither.end), (None, None));
}

fn packet(stream_index: usize, ticks: i64, before_start: bool, past_end: bool) -> RemuxEvent {
    RemuxEvent::Packet {
        packet: RemuxPacket {
            stream_index,
            before_start,
            past_end,
            position: Some(Position { ticks, num: 1, den: 10 }),
            alive: true,
        },
    }
}

fn everything() -> Window {
    Window { has_start: false, has_end: false }
}

fn cut() -> Window {
    Window { has_start: true, has_end: true }
}

fn give(copy: &mut Remux, ev: RemuxEvent) -> RemuxAction {
    assert!(copy.can_step(&ev));
    copy.step(ev).unwrap()
}

#[test]
fn a_copy_that_keeps_nothing_is_refused() {
    let err = Remux::new(&vec![1, 1], Drops { audio: true, ..none() }, everything()).unwrap_err();
    assert_eq!(err.kind(), "invalid_request");
    assert_eq!(
        err.message(),
        "remux dropped every input stream; nothing left to write"
    );
    assert!(Remux::new(&vec![], none(), everything()).is_err());
}

#[test]
fn each_stream_ends_on_its_own() {
    let mut copy = Remux::new(&vec![0, 1], none(), cut()).unwrap();
    assert_eq!(give(&mut copy, RemuxEvent::HeaderWritten), RemuxAction::ReadPacket);
    assert_eq!(give(&mut copy, packet(0, 1, true, false)), RemuxAction::ReadPacket);
    assert_eq!(
        give(&mut copy, packet(0, 2, false, false)),
        RemuxAction::WritePacket { out_index: 0 }
    );
    assert_eq!(give(&mut copy, RemuxEvent::Written), RemuxAction::ReadPacket);
    // The video ends first; the audio goes on.
    assert_eq!(give(&mut copy, packet(0, 9, false, true)), RemuxAction::ReadPacket);
    assert_eq!(
        give(&mut copy, packet(1, 5, false, false)),
        RemuxAction::WritePacket { out_index: 1 }
    );
    assert_eq!(give(&mut copy, RemuxEvent::Written), RemuxAction::ReadPacket);
    // A late packet of an ended stream is dropped.
    assert_eq!(give(&mut copy, packet(0, 6, false, false)), RemuxAction::ReadPacket);
    assert_eq!(give(&mut copy, packet(1, 9, false, true)), RemuxAction::WriteTrailer);
    assert_eq!(give(&mut copy, RemuxEvent::TrailerWritten), RemuxAction::Finished);
    assert_eq!(
        copy.stats(),
        RemuxStats { packets_written: 2, packets_dropped: 4, streams_copied: 2 }
    );
    assert_eq!(copy.last_position(), Position { ticks: 5, num: 1, den: 10 });
}

#[test]
fn dropped_streams_and_unknown_streams_are_counted_as_dropped() {
    let mut copy = Remux::new(&vec![0, 1], Drops { audio: true, ..none() }, everything()).unwrap();
    assert_eq!(copy.map(), &vec![Some(0), None]);
    give(&mut copy, RemuxEvent::HeaderWritten);
    assert_eq!(give(&mut copy, packet(1, 1, false, false)), RemuxAction::ReadPacket);
    assert_eq!(give(&mut copy, packet(7, 1, false, false)), RemuxAction::ReadPacket);
    assert_eq!(give(&mut copy, RemuxEvent::EndOfInput), RemuxAction::WriteTrailer);
    give(&mut copy, RemuxEvent::TrailerWritten);
    assert_eq!(
        copy.stats(),
        RemuxStats { packets_written: 0, packets_dropped: 2, streams_copied: 1 }
    );
    assert_eq!(copy.packets_written(), 0);
    assert_eq!(copy.last_position(), Position::origin());
}

#[test]
fn a_gone_caller_ends_the_copy() {
    let mut copy = Remux::new(&vec![0], none(), everything()).unwrap();
    give(&mut copy, RemuxEvent::HeaderWritten);
    let ev = RemuxEvent::Packet {
        packet: RemuxPacket {
            stream_index: 0,
            before_start: false,
            past_end: false,
            position: None,
            alive: false,
        },
    };
    assert_eq!(copy.step(ev).unwrap_err().kind(), "cancelled");
    assert!(!copy.can_step(&RemuxEvent::Written));
    assert!(!copy.can_step(&RemuxEvent::TrailerWritten));
}

#[test]
fn without_a_start_negative_times_are_copied() {
    let mut copy = Remux::new(&vec![0, 1], none(), everything()).unwrap();
    give(&mut copy, RemuxEvent::HeaderWritten);
    for (stream, ticks) in [(0, -3), (1, -2), (0, -1), (1, 0), (0, 1)] {
        // Earlier than zero, which only matters where a start is set.
        assert_eq!(
            give(&mut copy, packet(stream, ticks, ticks < 0, false)),
            RemuxAction::WritePacket { out_index: stream as u32 }
        );
        assert_eq!(give(&mut copy, RemuxEvent::Written), RemuxAction::ReadPacket);
    }
    give(&mut copy, RemuxEvent::EndOfInput);
    give(&mut copy, RemuxEvent::TrailerWritten);
    assert_eq!(
        copy.stats(),
        RemuxStats { packets_written: 5, packets_dropped: 0, streams_copied: 2 }
    );
}

#[test]
fn a_start_of_zero_drops_negative_times() {
    let window = Window { has_start: true, has_end: false };
    let mut copy = Remux::new(&vec![0], none(), window).unwrap();
    give(&mut copy, RemuxEvent::HeaderWritten);
    assert_eq!(give(&mut copy, packet(0, -1, true, false)), RemuxAction::ReadPacket);
    // No end is set, so nothing is past it.
    assert_eq!(
        give(&mut copy, packet(0, 90, false, true)),
        RemuxAction::WritePacket { out_index: 0 }
    );
}

#[test]
fn an_end_alone_drops_nothing_early() {
    let window = Window { has_start: false, has_end: true };
    let mut copy = Remux::new(&vec![0], none(), window).unwrap();
    give(&mut copy, RemuxEvent::HeaderWritten);
    assert_eq!(
        give(&mut copy, packet(0, -1, true, false)),
        RemuxAction::WritePacket { out_index: 0 }
    );
    give(&mut copy, RemuxEvent::Written);
    assert_eq!(give(&mut copy, packet(0, 9, false, true)), RemuxAction::WriteTrailer);
}
