use exmpeg_native::media::AV_NOPTS_VALUE;
use exmpeg_native::video_flow::{
    frame_step, frame_time, VideoAction, VideoEvent, VideoFlow, VideoStage, VideoWait,
};

fn give(flow: &mut VideoFlow, ev: VideoEvent) -> VideoAction {
    assert!(flow.can_step(&ev), "{:?} in {:?}", ev, flow);
    flow.step(ev).unwrap()
}

fn filtered(timestamp: Option<i64>) -> VideoEvent {
    VideoEvent::Filtered { timestamp, alive: true }
}

/// Bring the flow to where it takes frames out of the filter graph.
fn pulling(flow: &mut VideoFlow) {
    flow.begin_packet();
    give(flow, VideoEvent::Sent);
    give(flow, VideoEvent::Frame { timestamp: Some(0) });
    assert_eq!(give(flow, VideoEvent::Pushed), VideoAction::PullFrame);
}

fn encoded(flow: &mut VideoFlow) {
    give(flow, VideoEvent::Encoded);
    give(flow, VideoEvent::Packet);
    assert_eq!(give(flow, VideoEvent::EncoderDry), VideoAction::PullFrame);
}

#[test]
fn frames_are_timed_by_the_best_there_is() {
    assert_eq!(frame_time(5, 9), Some(5));
    assert_eq!(frame_time(AV_NOPTS_VALUE, 9), Some(9));
    assert_eq!(frame_time(AV_NOPTS_VALUE, AV_NOPTS_VALUE), None);
    assert_eq!(frame_step(3600), 3600);
    assert_eq!(frame_step(0), 1);
    assert_eq!(frame_step(i64::MIN), 1);
}

#[test]
fn time_stamps_are_kept_from_the_origin() {
    let mut flow = VideoFlow::new(100, 1, 1);
    pulling(&mut flow);
    assert_eq!(give(&mut flow, filtered(Some(100))), VideoAction::Encode { pts: 0 });
    encoded(&mut flow);
    assert_eq!(give(&mut flow, filtered(Some(107))), VideoAction::Encode { pts: 7 });
    encoded(&mut flow);
    // A gap stays a gap.
    assert_eq!(give(&mut flow, filtered(Some(900))), VideoAction::Encode { pts: 800 });
    assert_eq!(flow.packets_written(), 2);
}

#[test]
fn a_negative_origin_starts_at_zero() {
    let mut flow = VideoFlow::new(-40, 1, 1);
    pulling(&mut flow);
    assert_eq!(give(&mut flow, filtered(Some(-40))), VideoAction::Encode { pts: 0 });
}

#[test]
fn frames_that_do_not_advance_are_dropped() {
    let mut flow = VideoFlow::new(0, 1, 1);
    pulling(&mut flow);
    give(&mut flow, filtered(Some(10)));
    encoded(&mut flow);
    assert_eq!(give(&mut flow, filtered(Some(10))), VideoAction::PullFrame);
    assert_eq!(give(&mut flow, filtered(Some(3))), VideoAction::PullFrame);
    assert_eq!(flow.dropped(), 2);
    assert_eq!(give(&mut flow, filtered(Some(11))), VideoAction::Encode { pts: 11 });
}

#[test]
fn frames_without_time_stamps_follow_at_the_frame_rate() {
    let mut flow = VideoFlow::new(0, 40, 512);
    flow.begin_packet();
    give(&mut flow, VideoEvent::Sent);
    assert_eq!(
        give(&mut flow, VideoEvent::Frame { timestamp: None }),
        VideoAction::PushFrame { pts: 0 }
    );
    give(&mut flow, VideoEvent::Pushed);
    assert_eq!(give(&mut flow, filtered(None)), VideoAction::Encode { pts: 0 });
    encoded(&mut flow);
    assert_eq!(give(&mut flow, filtered(None)), VideoAction::Encode { pts: 512 });
    encoded(&mut flow);
    assert_eq!(give(&mut flow, VideoEvent::GraphDry), VideoAction::ReceiveFrame);
    assert_eq!(
        give(&mut flow, VideoEvent::Frame { timestamp: None }),
        VideoAction::PushFrame { pts: 40 }
    );
}

#[test]
fn the_graph_is_drained_before_the_encoder() {
    let mut flow = VideoFlow::new(0, 1, 1);
    assert_eq!(flow.begin_flush(), VideoAction::SendEnd);
    assert_eq!(give(&mut flow, VideoEvent::Sent), VideoAction::ReceiveFrame);
    assert_eq!(
        give(&mut flow, VideoEvent::Frame { timestamp: Some(4) }),
        VideoAction::PushFrame { pts: 4 }
    );
    give(&mut flow, VideoEvent::Pushed);
    assert_eq!(give(&mut flow, VideoEvent::GraphDry), VideoAction::ReceiveFrame);
    assert_eq!(give(&mut flow, VideoEvent::DecoderDry), VideoAction::PushEnd);
    assert_eq!(flow.stage(), VideoStage::Draining);
    assert_eq!(give(&mut flow, VideoEvent::Pushed), VideoAction::PullFrame);
    assert_eq!(give(&mut flow, filtered(Some(4))), VideoAction::Encode { pts: 4 });
    encoded(&mut flow);
    assert_eq!(give(&mut flow, VideoEvent::GraphDry), VideoAction::FlushEncoder);
    give(&mut flow, VideoEvent::Encoded);
    give(&mut flow, VideoEvent::Packet);
    assert_eq!(give(&mut flow, VideoEvent::EncoderDry), VideoAction::Finished);
    assert_eq!(flow.stage(), VideoStage::Done);
    assert_eq!(flow.wait(), VideoWait::Finished);
    assert_eq!(flow.packets_written(), 2);
}

#[test]
fn a_gone_caller_stops_a_long_drain() {
    let mut flow = VideoFlow::new(0, 1, 1);
    flow.begin_flush();
    give(&mut flow, VideoEvent::Sent);
    give(&mut flow, VideoEvent::DecoderDry);
    give(&mut flow, VideoEvent::Pushed);
    let err = flow
        .step(VideoEvent::Filtered { timestamp: Some(1), alive: false })
        .unwrap_err();
    assert_eq!(err.kind(), "cancelled");
    assert_eq!(flow.wait(), VideoWait::Pull);
}

#[test]
fn time_stamps_that_do_not_fit_are_noticed() {
    let mut flow = VideoFlow::new(i64::MAX, 1, 1);
    pulling(&mut flow);
    assert!(!flow.can_step(&filtered(Some(-2))));
    assert!(flow.can_step(&filtered(Some(0))));
    assert!(!flow.can_step(&VideoEvent::Sent));
}
