//! Taking one picture out of a video.
//!
//! The search decodes until a frame reaches the wanted time. A time past
//! the end gives the last frame there is. The write then encodes that one
//! frame and drains the encoder.

use crate::cancel::{cancelled, cancelled_error};
use crate::errors::{error, ErrorView, NativeError};
use crate::media::{timestamp_position, Position, Rational, AV_NOPTS_VALUE};
use crate::video::Picture;
use vstd::prelude::*;

verus! {

/// The image encoder's frame interval.
pub const IMAGE_RATE: i32 = 25;

/// `FF_COMPLIANCE_UNOFFICIAL`: lets the JPEG encoder take limited-range
/// pixel formats.
pub const FF_COMPLIANCE_UNOFFICIAL: i32 = -1;

/// Judge the look-up of the best video stream.
pub fn find_video_stream(found: Option<usize>) -> (r: Result<usize, NativeError>)
    ensures
        match r {
            Ok(i) => found == Some(i),
            Err(e) => found is None && e@ == error(
                "invalid_request"@,
                "input contains no video stream"@,
            ),
        },
{
    match found {
        Some(i) => Ok(i),
        None => Err(NativeError::new("invalid_request", "input contains no video stream")),
    }
}

/// Judge the look-up of the image encoder.
pub fn require_image_encoder(found: bool, codec_id: &str) -> (r: Result<(), NativeError>)
    ensures
        match r {
            Ok(()) => found,
            Err(e) => !found && e@ == error("unsupported"@, "encoder not built into FFmpeg"@).with(
                "codec_id"@,
                codec_id@,
            ),
        },
{
    if found {
        Ok(())
    } else {
        Err(
            NativeError::new("unsupported", "encoder not built into FFmpeg").with_detail(
                "codec_id",
                codec_id.to_owned(),
            ),
        )
    }
}

/// How the image encoder is set up.
#[derive(Debug, Clone, Copy, PartialEq, Eq, Structural)]
pub struct ImageEncoderParams {
    pub picture: Picture,
    pub time_base: Rational,
    pub aspect: Rational,
    pub strict: i32,
}

/// Set up the image encoder for a picture.
pub fn image_encoder_params(picture: Picture, aspect: Rational) -> (r: ImageEncoderParams)
    ensures
        r == (ImageEncoderParams {
            picture,
            time_base: Rational { num: 1, den: IMAGE_RATE },
            aspect,
            strict: FF_COMPLIANCE_UNOFFICIAL,
        }),
{
    ImageEncoderParams {
        picture,
        time_base: Rational { num: 1, den: IMAGE_RATE },
        aspect,
        strict: FF_COMPLIANCE_UNOFFICIAL,
    }
}

/// The time that a frame is judged by: its presentation time, else the
/// decoder's best guess.
pub open spec fn judged_time(pts: i64, best_effort: i64) -> i64 {
    if pts == AV_NOPTS_VALUE {
        best_effort
    } else {
        pts
    }
}

/// Whether a frame is late enough. Without a wanted time any frame is.
pub open spec fn reaches(target: Option<i64>, time: i64) -> bool {
    match target {
        Some(t) => time >= t,
        None => true,
    }
}

/// What the search waits for.
#[derive(Debug, Clone, Copy, PartialEq, Eq, Structural)]
pub enum SearchWait {
    Read,
    Send,
    Receive,
    Over,
}

/// What came of the last action.
#[derive(Debug, Clone, Copy)]
pub enum SearchEvent {
    Packet { stream_index: usize, alive: bool },
    EndOfInput,
    /// The decoder took the packet or the end marker.
    Sent,
    /// The decoder gave a frame.
    Frame { pts: i64, best_effort: i64 },
    /// The decoder has no frame now.
    Dry,
}

/// What to do next.
#[derive(Debug, Clone, Copy, PartialEq, Eq, Structural)]
pub enum SearchAction {
    ReadPacket,
    /// Hand the current packet to the decoder.
    SendPacket,
    /// Tell the decoder that no more packets come.
    SendEnd,
    ReceiveFrame,
    /// Take the frame that was received last.
    UseFrame,
}

/// The state of a search.
#[verifier::ext_equal]
pub struct SearchView {
    pub video_index: usize,
    /// The wanted time in stream ticks; none for the first frame.
    pub target: Option<i64>,
    /// The decoder was told that no more packets come.
    pub flushing: bool,
    /// A frame was seen.
    pub seen: bool,
    pub wait: SearchWait,
}

/// What a search without any frame is answered.
pub open spec fn no_frame_error() -> ErrorView {
    error("decode_error"@, "decoder produced no frames at or after the requested timestamp"@)
}

impl SearchView {
    pub open spec fn initial(video_index: usize, target: Option<i64>) -> SearchView {
        SearchView { video_index, target, flushing: false, seen: false, wait: SearchWait::Read }
    }

    pub open spec fn accepts(self, ev: SearchEvent) -> bool {
        match ev {
            SearchEvent::Packet { .. } => self.wait is Read,
            SearchEvent::EndOfInput => self.wait is Read,
            SearchEvent::Sent => self.wait is Send,
            SearchEvent::Frame { .. } => self.wait is Receive,
            SearchEvent::Dry => self.wait is Receive,
        }
    }

    /// The answer to a reply. A caller that is gone, and a video without
    /// any frame, end the search.
    pub open spec fn step(self, ev: SearchEvent) -> Result<(SearchView, SearchAction), ErrorView> {
        match ev {
            SearchEvent::Packet { stream_index, alive } => if !alive {
                Err(cancelled_error())
            } else if stream_index != self.video_index {
                Ok((self, SearchAction::ReadPacket))
            } else {
                Ok((SearchView { wait: SearchWait::Send, ..self }, SearchAction::SendPacket))
            },
            SearchEvent::EndOfInput => Ok(
                (
                    SearchView { flushing: true, wait: SearchWait::Send, ..self },
                    SearchAction::SendEnd,
                ),
            ),
            SearchEvent::Sent => Ok(
                (SearchView { wait: SearchWait::Receive, ..self }, SearchAction::ReceiveFrame),
            ),
            SearchEvent::Frame { pts, best_effort } => if reaches(
                self.target,
                judged_time(pts, best_effort),
            ) {
                Ok(
                    (
                        SearchView { seen: true, wait: SearchWait::Over, ..self },
                        SearchAction::UseFrame,
                    ),
                )
            } else {
                Ok((SearchView { seen: true, ..self }, SearchAction::ReceiveFrame))
            },
            SearchEvent::Dry => if !self.flushing {
                Ok((SearchView { wait: SearchWait::Read, ..self }, SearchAction::ReadPacket))
            } else if self.seen {
                Ok((SearchView { wait: SearchWait::Over, ..self }, SearchAction::UseFrame))
            } else {
                Err(no_frame_error())
            },
        }
    }

    pub open spec fn inv(self) -> bool {
        &&& self.wait is Read ==> !self.flushing
        &&& self.wait is Over ==> self.seen
    }
}

/// A search for one frame.
#[derive(Debug)]
pub struct FrameSearch {
    video_index: usize,
    target: Option<i64>,
    flushing: bool,
    seen: bool,
    wait: SearchWait,
}

impl View for FrameSearch {
    type V = SearchView;

    closed spec fn view(&self) -> SearchView {
        SearchView {
            video_index: self.video_index,
            target: self.target,
            flushing: self.flushing,
            seen: self.seen,
            wait: self.wait,
        }
    }
}

impl FrameSearch {
    /// The search is in a state that it can reach.
    pub open spec fn wf(&self) -> bool {
        self@.inv()
    }

    /// Search a stream for the first frame at or after a time.
    pub fn new(video_index: usize, target: Option<i64>) -> (s: Self)
        ensures
            s.wf(),
            s@ == SearchView::initial(video_index, target),
    {
        FrameSearch { video_index, target, flushing: false, seen: false, wait: SearchWait::Read }
    }

    /// What the search waits for.
    pub fn wait(&self) -> (w: SearchWait)
        ensures
            w == self@.wait,
    {
        self.wait
    }

    /// Whether this reply can come now.
    pub fn can_step(&self, ev: &SearchEvent) -> (b: bool)
        ensures
            b == self@.accepts(*ev),
    {
        match *ev {
            SearchEvent::Packet { stream_index: _, alive: _ } => self.wait == SearchWait::Read,
            SearchEvent::EndOfInput => self.wait == SearchWait::Read,
            SearchEvent::Sent => self.wait == SearchWait::Send,
            SearchEvent::Frame { pts: _, best_effort: _ } => self.wait == SearchWait::Receive,
            SearchEvent::Dry => self.wait == SearchWait::Receive,
        }
    }

    /// Take a reply and say what to do next. A failure leaves the state as
    /// it was.
    pub fn step(&mut self, ev: SearchEvent) -> (r: Result<SearchAction, NativeError>)
        requires
            old(self).wf(),
            old(self)@.accepts(ev),
        ensures
            final(self).wf(),
            match r {
                Ok(a) => old(self)@.step(ev) == Ok::<(SearchView, SearchAction), ErrorView>(
                    (final(self)@, a),
                ),
                Err(e) => old(self)@.step(ev) == Err::<(SearchView, SearchAction), ErrorView>(e@)
                    && final(self)@ == old(self)@,
            },
    {
        let ghost before = self@;
        match ev {
            SearchEvent::Packet { stream_index, alive } => {
                if !alive {
                    return Err(cancelled());
                }
                if stream_index != self.video_index {
                    return Ok(SearchAction::ReadPacket);
                }
                self.wait = SearchWait::Send;
                assert(self@ =~= before.step(ev)->Ok_0.0);
                Ok(SearchAction::SendPacket)
            },
            SearchEvent::EndOfInput => {
                self.flushing = true;
                self.wait = SearchWait::Send;
                assert(self@ =~= before.step(ev)->Ok_0.0);
                Ok(SearchAction::SendEnd)
            },
            SearchEvent::Sent => {
                self.wait = SearchWait::Receive;
                assert(self@ =~= before.step(ev)->Ok_0.0);
                Ok(SearchAction::ReceiveFrame)
            },
            SearchEvent::Frame { pts, best_effort } => {
                let time: i64 = if pts == AV_NOPTS_VALUE {
                    best_effort
                } else {
                    pts
                };
                let late_enough = match self.target {
                    Some(t) => time >= t,
                    None => true,
                };
                self.seen = true;
                if late_enough {
                    self.wait = SearchWait::Over;
                    assert(self@ =~= before.step(ev)->Ok_0.0);
                    Ok(SearchAction::UseFrame)
                } else {
                    assert(self@ =~= before.step(ev)->Ok_0.0);
                    Ok(SearchAction::ReceiveFrame)
                }
            },
            SearchEvent::Dry => {
                if !self.flushing {
                    self.wait = SearchWait::Read;
                    assert(self@ =~= before.step(ev)->Ok_0.0);
                    Ok(SearchAction::ReadPacket)
                } else if self.seen {
                    self.wait = SearchWait::Over;
                    assert(self@ =~= before.step(ev)->Ok_0.0);
                    Ok(SearchAction::UseFrame)
                } else {
                    Err(
                        NativeError::new(
                            "decode_error",
                            "decoder produced no frames at or after the requested timestamp",
                        ),
                    )
                }
            },
        }
    }
}

/// The state after a run.
pub open spec fn search_run(v: SearchView, events: Seq<SearchEvent>) -> SearchView
    decreases events.len(),
{
    if events.len() == 0 {
        v
    } else {
        search_run(v, events.drop_last()).step(events.last())->Ok_0.0
    }
}

/// Whether every reply of a run can come when it comes, and none of them
/// ends the search in failure.
pub open spec fn search_legal(v: SearchView, events: Seq<SearchEvent>) -> bool
    decreases events.len(),
{
    events.len() == 0 || {
        let before = search_run(v, events.drop_last());
        &&& search_legal(v, events.drop_last())
        &&& before.accepts(events.last())
        &&& before.step(events.last()) is Ok
    }
}

/// The times of the frames that a run received, in order.
pub open spec fn frame_times(events: Seq<SearchEvent>) -> Seq<i64>
    decreases events.len(),
{
    if events.len() == 0 {
        seq![]
    } else {
        match events.last() {
            SearchEvent::Frame { pts, best_effort } => frame_times(events.drop_last()).push(
                judged_time(pts, best_effort),
            ),
            _ => frame_times(events.drop_last()),
        }
    }
}

proof fn lemma_search_run(v: SearchView, events: Seq<SearchEvent>)
    requires
        v.inv(),
        !v.seen,
        search_legal(v, events),
    ensures
        ({
            let s = search_run(v, events);
            let times = frame_times(events);
            &&& s.inv()
            &&& s.target == v.target
            &&& s.seen <==> times.len() > 0
            &&& forall|i: int| 0 <= i < times.len() - 1 ==> !reaches(v.target, #[trigger] times[i])
            &&& !(s.wait is Over) ==> (times.len() > 0 ==> !reaches(v.target, times.last()))
            &&& s.wait is Over ==> reaches(v.target, times.last()) || s.flushing
        }),
    decreases events.len(),
{
    if events.len() > 0 {
        let front = events.drop_last();
        lemma_search_run(v, front);
        let s = search_run(v, front);
        let old_times = frame_times(front);
        let times = frame_times(events);
        if events.last() is Frame {
            assert(times.drop_last() =~= old_times);
            assert forall|i: int| 0 <= i < times.len() - 1 implies !reaches(
                v.target,
                #[trigger] times[i],
            ) by {
                assert(times[i] == old_times[i]);
            }
        }
    }
}

/// The frame that is taken is the first one at or after the wanted time;
/// only when the whole input has none, it is the last frame of the input.
pub proof fn law_first_frame_at_or_after(
    video_index: usize,
    target: Option<i64>,
    events: Seq<SearchEvent>,
    i: int,
)
    requires
        search_legal(SearchView::initial(video_index, target), events),
        search_run(SearchView::initial(video_index, target), events).wait is Over,
    ensures
        frame_times(events).len() > 0,
        0 <= i < frame_times(events).len() - 1 ==> !reaches(target, frame_times(events)[i]),
        reaches(target, frame_times(events).last()) || search_run(
            SearchView::initial(video_index, target),
            events,
        ).flushing,
{
    lemma_search_run(SearchView::initial(video_index, target), events);
}

/// A search fails for want of a frame only at the end of an input that
/// gave none.
pub proof fn law_fails_only_without_frames(
    video_index: usize,
    target: Option<i64>,
    events: Seq<SearchEvent>,
    ev: SearchEvent,
)
    requires
        search_legal(SearchView::initial(video_index, target), events),
        search_run(SearchView::initial(video_index, target), events).accepts(ev),
        search_run(SearchView::initial(video_index, target), events).step(ev) is Err,
    ensures
        ev is Packet || (ev is Dry && frame_times(events).len() == 0 && search_run(
            SearchView::initial(video_index, target),
            events,
        ).flushing),
{
    lemma_search_run(SearchView::initial(video_index, target), events);
}

/// How far the write of the image is.
#[derive(Debug, Clone, Copy, PartialEq, Eq, Structural)]
pub enum ImageStage {
    Header,
    Encode,
    Drain,
    Flush,
    FlushDrain,
    Trailer,
    Finished,
}

/// What came of the last action.
#[derive(Debug, Clone, Copy, PartialEq, Eq, Structural)]
pub enum ImageEvent {
    HeaderWritten,
    /// The encoder took the frame or the end marker.
    Encoded,
    /// The encoder gave a packet, and it is in the output.
    Packet,
    /// The encoder has no packet now.
    EncoderDry,
    TrailerWritten,
}

/// What to do next.
#[derive(Debug, Clone, Copy, PartialEq, Eq, Structural)]
pub enum ImageAction {
    WriteHeader,
    EncodeFrame,
    ReceivePacket,
    /// Tell the encoder that no more frames come.
    FlushEncoder,
    WriteTrailer,
    Finished,
}

/// The replies that can come in a stage.
pub open spec fn image_accepts(stage: ImageStage, ev: ImageEvent) -> bool {
    match ev {
        ImageEvent::HeaderWritten => stage is Header,
        ImageEvent::Encoded => stage is Encode || stage is Flush,
        ImageEvent::Packet => stage is Drain || stage is FlushDrain,
        ImageEvent::EncoderDry => stage is Drain || stage is FlushDrain,
        ImageEvent::TrailerWritten => stage is Trailer,
    }
}

/// The next stage and what to do in it: the frame's packets, the encoder's
/// rest, the trailer.
pub open spec fn image_next(stage: ImageStage, ev: ImageEvent) -> (ImageStage, ImageAction) {
    match ev {
        ImageEvent::HeaderWritten => (ImageStage::Encode, ImageAction::EncodeFrame),
        ImageEvent::Encoded => (
            if stage is Encode {
                ImageStage::Drain
            } else {
                ImageStage::FlushDrain
            },
            ImageAction::ReceivePacket,
        ),
        ImageEvent::Packet => (stage, ImageAction::ReceivePacket),
        ImageEvent::EncoderDry => if stage is Drain {
            (ImageStage::Flush, ImageAction::FlushEncoder)
        } else {
            (ImageStage::Trailer, ImageAction::WriteTrailer)
        },
        ImageEvent::TrailerWritten => (ImageStage::Finished, ImageAction::Finished),
    }
}

/// Whether this reply can come in a stage.
pub fn image_can_step(stage: ImageStage, ev: ImageEvent) -> (b: bool)
    ensures
        b == image_accepts(stage, ev),
{
    match ev {
        ImageEvent::HeaderWritten => stage == ImageStage::Header,
        ImageEvent::Encoded => stage == ImageStage::Encode || stage == ImageStage::Flush,
        ImageEvent::Packet => stage == ImageStage::Drain || stage == ImageStage::FlushDrain,
        ImageEvent::EncoderDry => stage == ImageStage::Drain || stage == ImageStage::FlushDrain,
        ImageEvent::TrailerWritten => stage == ImageStage::Trailer,
    }
}

/// The next stage of the write and what to do in it.
pub fn image_step(stage: ImageStage, ev: ImageEvent) -> (r: (ImageStage, ImageAction))
    requires
        image_accepts(stage, ev),
    ensures
        r == image_next(stage, ev),
{
    match ev {
        ImageEvent::HeaderWritten => (ImageStage::Encode, ImageAction::EncodeFrame),
        ImageEvent::Encoded => {
            if stage == ImageStage::Encode {
                (ImageStage::Drain, ImageAction::ReceivePacket)
            } else {
                (ImageStage::FlushDrain, ImageAction::ReceivePacket)
            }
        },
        ImageEvent::Packet => (stage, ImageAction::ReceivePacket),
        ImageEvent::EncoderDry => {
            if stage == ImageStage::Drain {
                (ImageStage::Flush, ImageAction::FlushEncoder)
            } else {
                (ImageStage::Trailer, ImageAction::WriteTrailer)
            }
        },
        ImageEvent::TrailerWritten => (ImageStage::Finished, ImageAction::Finished),
    }
}

/// The encoder is flushed after it has given the frame's packets, and the
/// trailer comes after it has given everything.
pub proof fn law_image_is_drained_before_the_trailer(stage: ImageStage, ev: ImageEvent)
    requires
        image_accepts(stage, ev),
    ensures
        image_next(stage, ev).1 is FlushEncoder ==> stage is Drain && ev is EncoderDry,
        image_next(stage, ev).1 is WriteTrailer ==> stage is FlushDrain && ev is EncoderDry,
{
}

/// What was extracted.
#[derive(Debug)]
pub struct ExtractFrameStats {
    pub width: i32,
    pub height: i32,
    /// The source-side time of the frame.
    pub timestamp: Position,
    /// Whether the source says when the frame is. When not, `timestamp` is
    /// the start of the time line.
    pub pts_known: bool,
    pub codec: String,
}

/// Report on an extracted frame.
pub fn frame_stats(picture: Picture, pts: i64, time_base: Rational, codec: String) -> (r:
    ExtractFrameStats)
    ensures
        r.width == picture.width,
        r.height == picture.height,
        r.timestamp == timestamp_position(pts, time_base),
        r.pts_known == (pts != AV_NOPTS_VALUE),
        r.codec == codec,
{
    ExtractFrameStats {
        width: picture.width,
        height: picture.height,
        timestamp: Position::from_timestamp(pts, time_base),
        pts_known: pts != AV_NOPTS_VALUE,
        codec,
    }
}

/// With a caller that is there, a packet is handed to the decoder exactly
/// when it belongs to the searched stream. Any other packet is passed over,
/// and the next one is read.
pub proof fn law_only_the_searched_stream_is_decoded(v: SearchView, stream_index: usize)
    ensures
        v.step(SearchEvent::Packet { stream_index, alive: true }) is Ok,
        ({
            let r = v.step(SearchEvent::Packet { stream_index, alive: true })->Ok_0;
            &&& r.1 is SendPacket <==> stream_index == v.video_index
            &&& stream_index == v.video_index ==> r.0.wait is Send
            &&& stream_index != v.video_index ==> r.0 == v && r.1 is ReadPacket
        }),
{
}

/// What is searched for does not change on the way: the stream and the time
/// stay, a frame that was seen stays seen, and a decoder that was told the
/// end is not asked for more packets.
pub proof fn law_search_keeps_its_aim(v: SearchView, ev: SearchEvent)
    requires
        v.inv(),
        v.accepts(ev),
        v.step(ev) is Ok,
    ensures
        ({
            let r = v.step(ev)->Ok_0;
            &&& r.0.inv()
            &&& r.0.video_index == v.video_index
            &&& r.0.target == v.target
            &&& r.0.seen <==> v.seen || ev is Frame
            &&& r.0.flushing <==> v.flushing || ev is EndOfInput
            &&& r.1 is ReadPacket ==> !r.0.flushing && r.0.wait is Read
            &&& r.1 is SendEnd <==> ev is EndOfInput
            &&& r.1 is UseFrame <==> r.0.wait is Over
            &&& r.1 is ReceiveFrame ==> r.0.wait is Receive
            &&& ev is Sent ==> r.1 is ReceiveFrame
        }),
{
}

/// A frame is taken exactly when its time has reached the wanted one, or no
/// time is wanted. Its time is the presentation time, or the decoder's
/// guess where that is not known. A frame that is too early is passed over.
pub proof fn law_a_frame_is_taken_when_it_is_due(v: SearchView, pts: i64, best_effort: i64)
    ensures
        v.step(SearchEvent::Frame { pts, best_effort }) is Ok,
        ({
            let r = v.step(SearchEvent::Frame { pts, best_effort })->Ok_0;
            let time = if pts != i64::MIN {
                pts
            } else {
                best_effort
            };
            &&& judged_time(pts, best_effort) == time
            &&& v.target is None ==> r.1 is UseFrame
            &&& v.target matches Some(t) ==> (r.1 is UseFrame <==> t <= time)
            &&& !(r.1 is UseFrame) ==> r.1 is ReceiveFrame
        }),
        forall|t: i64, x: i64| reaches(Some(t), x) <==> t <= x,
        forall|x: i64| reaches(None, x),
{
}

/// When the decoder runs dry the search reads on; at the end of the input
/// it takes the last frame that was seen, and fails as a decode error when
/// there was none.
pub proof fn law_a_dry_decoder(v: SearchView)
    ensures
        !v.flushing ==> v.step(SearchEvent::Dry) is Ok && v.step(SearchEvent::Dry)->Ok_0.1 is ReadPacket,
        v.flushing && v.seen ==> v.step(SearchEvent::Dry) is Ok && v.step(
            SearchEvent::Dry,
        )->Ok_0.1 is UseFrame,
        v.flushing && !v.seen ==> v.step(SearchEvent::Dry) is Err && v.step(
            SearchEvent::Dry,
        )->Err_0.kind == "decode_error"@,
{
}

/// A search fails only for a caller that is gone, as `cancelled`, or for an
/// input without frames.
pub proof fn law_search_failures(v: SearchView, ev: SearchEvent)
    ensures
        v.step(ev) is Err <==> (ev matches SearchEvent::Packet { alive, .. } && !alive) || (ev is Dry
            && v.flushing && !v.seen),
        ev is Packet && v.step(ev) is Err ==> v.step(ev)->Err_0.kind == "cancelled"@,
{
}

/// A reply is taken exactly when the search waits for it, and a search
/// starts by reading, with nothing seen.
pub proof fn law_search_takes_replies_in_turn(
    v: SearchView,
    ev: SearchEvent,
    video_index: usize,
    target: Option<i64>,
)
    ensures
        v.accepts(ev) <==> match ev {
            SearchEvent::Packet { .. } | SearchEvent::EndOfInput => v.wait is Read,
            SearchEvent::Sent => v.wait is Send,
            SearchEvent::Frame { .. } | SearchEvent::Dry => v.wait is Receive,
        },
        SearchView::initial(video_index, target).video_index == video_index,
        SearchView::initial(video_index, target).target == target,
        SearchView::initial(video_index, target).wait is Read,
        !SearchView::initial(video_index, target).seen,
        !SearchView::initial(video_index, target).flushing,
{
}

/// The place of a stage in the write of an image.
pub open spec fn image_rank(stage: ImageStage) -> int {
    match stage {
        ImageStage::Header => 0,
        ImageStage::Encode => 1,
        ImageStage::Drain => 2,
        ImageStage::Flush => 3,
        ImageStage::FlushDrain => 4,
        ImageStage::Trailer => 5,
        ImageStage::Finished => 6,
    }
}

/// The write of an image goes through its stages one by one, and stays in
/// one only for a packet; what is done is what the next stage is for.
pub proof fn law_image_stages(stage: ImageStage, ev: ImageEvent)
    requires
        image_accepts(stage, ev),
    ensures
        ({
            let next = image_next(stage, ev);
            &&& ev is Packet ==> next.0 == stage
            &&& !(ev is Packet) ==> image_rank(next.0) == image_rank(stage) + 1
            &&& match next.0 {
                ImageStage::Header => false,
                ImageStage::Encode => next.1 is EncodeFrame,
                ImageStage::Drain => next.1 is ReceivePacket,
                ImageStage::Flush => next.1 is FlushEncoder,
                ImageStage::FlushDrain => next.1 is ReceivePacket,
                ImageStage::Trailer => next.1 is WriteTrailer,
                ImageStage::Finished => next.1 is Finished,
            }
        }),
{
}

/// In every stage but the last some reply is taken, and never one that
/// belongs to another stage.
pub proof fn law_image_replies(stage: ImageStage)
    ensures
        image_accepts(stage, ImageEvent::HeaderWritten) <==> image_rank(stage) == 0,
        image_accepts(stage, ImageEvent::Encoded) <==> image_rank(stage) == 1 || image_rank(stage)
            == 3,
        image_accepts(stage, ImageEvent::Packet) <==> image_rank(stage) == 2 || image_rank(stage)
            == 4,
        image_accepts(stage, ImageEvent::EncoderDry) <==> image_rank(stage) == 2 || image_rank(
            stage,
        ) == 4,
        image_accepts(stage, ImageEvent::TrailerWritten) <==> image_rank(stage) == 5,
{
}

/// The image encoder runs at 25 frames per second and takes formats that
/// the standard does not.
pub proof fn law_image_encoder()
    ensures
        IMAGE_RATE == 25,
        FF_COMPLIANCE_UNOFFICIAL < 0,
{
}

} // verus!
