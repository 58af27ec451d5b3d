use exmpeg_native::audio::AudioTarget;
use exmpeg_native::audio_flow::{AudioAction, AudioEvent, AudioFlow, AudioStage, AudioWait};
use exmpeg_native::clock::SampleClock;
use exmpeg_native::media::Rational;
use exmpeg_native::source_clock::{SourceClock, SourceTiming};

fn target() -> AudioTarget {
    AudioTarget { sample_rate: 48_000, format: 8, channels: 2 }
}

/// One tick per sample.
fn sample_ticks() -> SourceTiming {
    SourceTiming::new(Rational { num: 1, den: 48_000 }, 48_000, 48_000)
}

/// One tick per millisecond.
fn milliseconds(rate_in: i32) -> SourceTiming {
    SourceTiming::new(Rational { num: 1, den: 1000 }, rate_in, 48_000)
}

fn give(flow: &mut AudioFlow, ev: AudioEvent) -> AudioAction {
    assert!(flow.can_step(&ev), "{:?} in {:?}", ev, flow);
    flow.step(ev)
}

fn frame(nb_samples: i32, timestamp: Option<i64>) -> AudioEvent {
    AudioEvent::Frame { nb_samples, sample_rate: 48_000, timestamp }
}

fn take(action: AudioAction) -> i32 {
    match action {
        AudioAction::ReadSamples { buffer } => buffer.nb_samples,
        other => panic!("expected a read, got {:?}", other),
    }
}

#[test]
fn the_clock_keeps_gaps_and_never_goes_back() {
    let mut clock = SampleClock::new();
    clock.announce(100);
    clock.push(10);
    clock.announce(90);
    clock.push(10);
    clock.announce(0);
    clock.push(5);
    assert_eq!(clock.buffered(), 25);
    assert_eq!(clock.pop(8), 100);
    assert_eq!(clock.pop(4), 108);
    assert_eq!(clock.pop(8), 202);
    assert_eq!(clock.pop(5), 210);
    assert_eq!(clock.taken(), 25);
    assert_eq!(clock.buffered(), 0);
}

#[test]
fn the_clock_starts_at_zero_without_time_stamps() {
    let mut clock = SampleClock::new();
    clock.announce(0);
    clock.push(3);
    assert_eq!(clock.pop(3), 0);
    assert!(clock.fits(0, 1));
    assert!(!clock.fits(i64::MAX - 3, 1));
}

#[test]
fn fixed_size_encoders_get_full_chunks() {
    let mut flow = AudioFlow::new(false, 1000, target(), sample_ticks());
    assert_eq!(flow.begin_packet(), AudioAction::SendPacket);
    assert_eq!(give(&mut flow, AudioEvent::Sent), AudioAction::ReceiveFrame);
    match give(&mut flow, frame(1024, Some(7))) {
        AudioAction::Resample { buffer } => {
            assert_eq!(buffer.nb_samples, 1280);
            assert_eq!((buffer.sample_rate, buffer.format, buffer.channels), (48_000, 8, 2));
        }
        other => panic!("expected a resample, got {:?}", other),
    }
    assert_eq!(give(&mut flow, AudioEvent::Resampled { nb_samples: 1024 }), AudioAction::Store);
    assert_eq!(take(give(&mut flow, AudioEvent::Stored)), 1000);
    assert_eq!(
        give(&mut flow, AudioEvent::Read { nb_samples: 1000 }),
        AudioAction::Encode { pts: 7 }
    );
    assert_eq!(give(&mut flow, AudioEvent::Encoded), AudioAction::ReceivePacket);
    assert_eq!(give(&mut flow, AudioEvent::Packet), AudioAction::ReceivePacket);
    // 24 samples are left: not enough for a chunk.
    assert_eq!(give(&mut flow, AudioEvent::EncoderDry), AudioAction::ReceiveFrame);
    assert_eq!(give(&mut flow, AudioEvent::DecoderDry), AudioAction::Idle);
    assert_eq!(flow.samples_written(), 1000);
    assert_eq!(flow.packets_written(), 1);
    assert_eq!(flow.wait(), AudioWait::Idle);
}

#[test]
fn the_flush_runs_in_pipeline_order() {
    let mut flow = AudioFlow::new(false, 1000, target(), sample_ticks());
    assert_eq!(flow.begin_flush(), AudioAction::SendEnd);
    assert_eq!(give(&mut flow, AudioEvent::Sent), AudioAction::ReceiveFrame);
    // The decoder still had a frame.
    give(&mut flow, frame(600, None));
    give(&mut flow, AudioEvent::Resampled { nb_samples: 600 });
    assert_eq!(give(&mut flow, AudioEvent::Stored), AudioAction::ReceiveFrame);
    // Now the resampler.
    assert!(matches!(
        give(&mut flow, AudioEvent::DecoderDry),
        AudioAction::DrainResampler { .. }
    ));
    assert_eq!(flow.stage(), AudioStage::Tail);
    assert_eq!(give(&mut flow, AudioEvent::Resampled { nb_samples: 500 }), AudioAction::Store);
    assert!(matches!(
        give(&mut flow, AudioEvent::Stored),
        AudioAction::DrainResampler { .. }
    ));
    // Then the sample buffer, with a shorter last frame.
    assert_eq!(take(give(&mut flow, AudioEvent::Resampled { nb_samples: 0 })), 1000);
    assert_eq!(
        give(&mut flow, AudioEvent::Read { nb_samples: 1000 }),
        AudioAction::Encode { pts: 0 }
    );
    give(&mut flow, AudioEvent::Encoded);
    assert_eq!(take(give(&mut flow, AudioEvent::EncoderDry)), 100);
    assert_eq!(
        give(&mut flow, AudioEvent::Read { nb_samples: 100 }),
        AudioAction::Encode { pts: 1000 }
    );
    give(&mut flow, AudioEvent::Encoded);
    // Then the encoder.
    assert_eq!(give(&mut flow, AudioEvent::EncoderDry), AudioAction::FlushEncoder);
    assert_eq!(give(&mut flow, AudioEvent::Encoded), AudioAction::ReceivePacket);
    assert_eq!(give(&mut flow, AudioEvent::Packet), AudioAction::ReceivePacket);
    assert_eq!(give(&mut flow, AudioEvent::EncoderDry), AudioAction::Finished);
    assert_eq!(flow.stage(), AudioStage::Done);
    assert_eq!(flow.samples_written(), 1100);
}

#[test]
fn passthrough_sends_frames_straight_on() {
    let mut flow = AudioFlow::new(true, 1024, target(), sample_ticks());
    flow.begin_packet();
    give(&mut flow, AudioEvent::Sent);
    assert_eq!(give(&mut flow, frame(480, None)), AudioAction::Encode { pts: 0 });
    give(&mut flow, AudioEvent::Encoded);
    give(&mut flow, AudioEvent::Packet);
    assert_eq!(give(&mut flow, AudioEvent::EncoderDry), AudioAction::ReceiveFrame);
    assert_eq!(give(&mut flow, frame(17, None)), AudioAction::Encode { pts: 480 });
    give(&mut flow, AudioEvent::Encoded);
    give(&mut flow, AudioEvent::EncoderDry);
    give(&mut flow, AudioEvent::DecoderDry);
    flow.begin_flush();
    give(&mut flow, AudioEvent::Sent);
    assert_eq!(give(&mut flow, AudioEvent::DecoderDry), AudioAction::FlushEncoder);
    give(&mut flow, AudioEvent::Encoded);
    assert_eq!(give(&mut flow, AudioEvent::EncoderDry), AudioAction::Finished);
    assert_eq!(flow.samples_written(), 497);
}

#[test]
fn replies_out_of_turn_are_noticed() {
    let flow = AudioFlow::new(false, 1024, target(), sample_ticks());
    assert!(!flow.can_step(&AudioEvent::Sent));
    assert!(!flow.can_step(&AudioEvent::Packet));
    assert!(!flow.can_step(&frame(1, None)));
    let mut busy = AudioFlow::new(false, 1024, target(), sample_ticks());
    busy.begin_packet();
    give(&mut busy, AudioEvent::Sent);
    give(&mut busy, frame(1, None));
    assert!(!busy.can_step(&AudioEvent::Resampled { nb_samples: -1 }));
}

/// Decode one frame, resample it into `out` samples, and encode every full
/// chunk; returns the time stamps that were encoded.
fn decode(flow: &mut AudioFlow, nb_samples: i32, timestamp: Option<i64>, out: i32) -> Vec<i64> {
    let mut encoded = vec![];
    flow.begin_packet();
    give(flow, AudioEvent::Sent);
    give(flow, frame(nb_samples, timestamp));
    let mut action = give(flow, AudioEvent::Resampled { nb_samples: out });
    if action == AudioAction::Store {
        action = give(flow, AudioEvent::Stored);
    }
    while let AudioAction::ReadSamples { buffer } = action {
        match give(flow, AudioEvent::Read { nb_samples: buffer.nb_samples }) {
            AudioAction::Encode { pts } => encoded.push(pts),
            other => panic!("expected an encode, got {:?}", other),
        }
        give(flow, AudioEvent::Encoded);
        action = give(flow, AudioEvent::EncoderDry);
    }
    assert_eq!(give(flow, AudioEvent::DecoderDry), AudioAction::Idle);
    encoded
}

#[test]
fn rounded_milliseconds_open_no_gap() {
    let mut flow = AudioFlow::new(false, 1024, target(), milliseconds(48_000));
    let mut encoded = vec![];
    for ms in [0, 21, 43, 64, 85, 107, 128] {
        encoded.extend(decode(&mut flow, 1024, Some(ms), 1024));
    }
    assert_eq!(encoded, vec![0, 1024, 2048, 3072, 4096, 5120, 6144]);
}

#[test]
fn rounding_to_nearest_opens_no_gap_over_a_long_run() {
    for rate in [44_100_i64, 48_000, 8_000] {
        let timing = milliseconds(rate as i32);
        let mut clock = SourceClock::new(timing);
        for k in 0..5000_i64 {
            let nearest = (k * 1024 * 2000 + rate) / (2 * rate);
            assert_eq!(clock.lead(Some(nearest)), 0, "frame {}", k);
            clock.pass(Some(nearest), 1024);
        }
    }
}

#[test]
fn samples_that_the_resampler_holds_back_open_no_gap() {
    // 44.1 kHz to 48 kHz: 1024 samples become 1114 or 1115, less what the
    // resampler keeps for later.
    let mut flow = AudioFlow::new(false, 1000, target(), milliseconds(44_100));
    let mut encoded = vec![];
    for (ms, out) in [(0, 1098), (23, 1115), (46, 1114), (70, 1115), (93, 1114)] {
        encoded.extend(decode(&mut flow, 1024, Some(ms), out));
    }
    assert_eq!(encoded, vec![0, 1000, 2000, 3000, 4000]);
}

#[test]
fn a_gap_in_the_source_is_kept() {
    let mut flow = AudioFlow::new(false, 1024, target(), milliseconds(48_000));
    assert_eq!(decode(&mut flow, 1024, Some(100), 1024), vec![4800]);
    // The samples end at 121.33 ms; the next frame starts at 500 ms.
    assert_eq!(decode(&mut flow, 1024, Some(500), 1024), vec![24_000]);
    assert_eq!(decode(&mut flow, 1024, Some(521), 1024), vec![25_024]);
    // An overlap and a missing time stamp go on where the samples end.
    assert_eq!(decode(&mut flow, 1024, Some(300), 1024), vec![26_048]);
    assert_eq!(decode(&mut flow, 1024, None, 1024), vec![27_072]);
}

#[test]
fn one_tick_is_no_gap_and_two_are() {
    let mut clock = SourceClock::new(milliseconds(48_000));
    assert_eq!(clock.lead(Some(-10)), -480);
    clock.pass(Some(-10), 480);
    // The samples end at 0 ms.
    assert_eq!(clock.lead(Some(0)), 0);
    assert_eq!(clock.lead(Some(1)), 0);
    assert_eq!(clock.lead(Some(2)), 96);
    assert_eq!(clock.lead(Some(-5)), 0);
    assert_eq!(clock.lead(None), 0);
    clock.pass(Some(2), 48);
    // Counted from 2 ms on: the samples end at 3 ms.
    assert_eq!(clock.lead(Some(4)), 0);
    assert_eq!(clock.lead(Some(5)), 96);
}

#[test]
fn times_become_output_samples_rounded_to_the_nearest() {
    let timing = SourceTiming::new(Rational { num: 1, den: 3 }, 1, 2);
    // 2/3, 4/3 and 2 output samples.
    assert_eq!(SourceClock::new(timing).lead(Some(1)), 1);
    assert_eq!(SourceClock::new(timing).lead(Some(2)), 1);
    assert_eq!(SourceClock::new(timing).lead(Some(3)), 2);
    assert_eq!(SourceClock::new(timing).lead(Some(-1)), -1);
    // Halves go away from zero.
    let half = SourceTiming::new(Rational { num: 1, den: 2 }, 1, 1);
    assert_eq!(SourceClock::new(half).lead(Some(1)), 1);
    assert_eq!(SourceClock::new(half).lead(Some(-1)), -1);
    // Numbers that are not positive count as one.
    assert_eq!(
        SourceTiming::new(Rational { num: 0, den: -5 }, 0, 7),
        SourceTiming { num: 1, den: 1, rate_in: 1, rate_out: 7 }
    );
    // A time that no output clock can hold is noticed.
    let seconds = SourceTiming::new(Rational { num: 1, den: 1 }, 48_000, 48_000);
    let mut flow = AudioFlow::new(false, 1024, target(), seconds);
    flow.begin_packet();
    give(&mut flow, AudioEvent::Sent);
    assert!(!flow.can_step(&frame(1, Some(i64::MAX))));
}
