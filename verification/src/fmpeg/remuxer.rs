//! The remuxer: takes tags, header and metadata as messages, gathers the
//! configuration, and says what the box encoder has to serialize next: the
//! initialization segment once, then one fragment per media sample.
use std::collections::VecDeque;
use vstd::prelude::*;
use crate::error::FlvError;
use crate::exchange::{
    Destination, Exchange, ExchangeRegistrable, PackedContent, PackedContentToRemuxer,
};
use crate::flv::framing::tags_view;
use crate::flv::header::{FlvHeader, TagHeader};
use crate::flv::meta::RawMetaData;
use crate::flv::script::PropModel;
use crate::flv::tag::{NormalTagBody, PayloadModel, Tag, TagBody, TagBodyModel, TagModel, TagType};
use crate::fmpeg::parser::{
    avc_duration, frame_duration, mp3_samples_per_frame, parse_aac_timescale,
    parse_avc_timescale, parse_mp3_timescale, parse_timescale, spec_parse_audio,
    spec_parse_video, timescale_of, AudioConfigurationLike, AudioModel, AudioParseResult,
    Avc1ParseResult, KeyframeType, Parser, VideoModel, VideoParseResult, AAC_SAMPLES_PER_FRAME,
};
use crate::fmpeg::remux_context::{
    fresh_context, with_audio_config, with_flv_header, with_metadata, with_video_config,
    ContextModel, RemuxContext, SampleContext, SampleContextBuilder, TrackContext, TrackType,
};

verus! {

/// The id of the video track.
pub const DEFAULT_VIDEO_TRACK_ID: u32 = 1;

/// The id of the audio track.
pub const DEFAULT_AUDIO_TRACK_ID: u32 = 2;

/// One media sample, ready to be serialized as a fragment.
#[derive(Clone, Debug, PartialEq, Eq)]
pub struct Fragment {
    /// The track as it stood when the sample was taken.
    pub track: TrackContext,
    pub sample: SampleContext,
    pub payload: Vec<u8>,
}

/// What the box encoder has to serialize, in this order.
#[derive(Clone, Debug, PartialEq, Eq)]
pub enum RemuxOutput {
    /// The initialization segment, built from the context.
    InitSegment,
    /// One fragment: movie-fragment header and media data of one sample.
    Fragment(Fragment),
}

/// Model of a `RemuxOutput`.
pub enum OutputModel {
    InitSegment,
    Fragment { track: TrackContext, sample: SampleContext, payload: Seq<u8> },
}

impl View for RemuxOutput {
    type V = OutputModel;

    open spec fn view(&self) -> OutputModel {
        match self {
            RemuxOutput::InitSegment => OutputModel::InitSegment,
            RemuxOutput::Fragment(fragment) => OutputModel::Fragment {
                track: fragment.track,
                sample: fragment.sample,
                payload: fragment.payload@,
            },
        }
    }
}

/// The models of `outputs`, in order.
pub open spec fn outputs_view(outputs: Seq<RemuxOutput>) -> Seq<OutputModel> {
    Seq::new(outputs.len(), |i: int| outputs[i]@)
}

/// Model of a `Remuxer`.
pub struct RemuxerModel {
    /// Whether an exchange routes to the remuxer.
    pub connected: bool,
    /// Whether the remuxer was told to close.
    pub closed: bool,
    pub remuxing: bool,
    /// The tags that wait to be remuxed, oldest first.
    pub tags: Seq<TagModel>,
    pub metadata: Option<Seq<PropModel>>,
    pub flv_header: Option<FlvHeader>,
    pub ctx: ContextModel,
    pub audio_track: TrackContext,
    pub video_track: TrackContext,
    /// What was emitted and not yet taken, oldest first.
    pub outputs: Seq<OutputModel>,
}

/// A state and whether reaching it was a success.
pub struct Outcome {
    pub state: RemuxerModel,
    pub result: Result<(), FlvError>,
}

/// `state`, reached without fault.
pub open spec fn done(state: RemuxerModel) -> Outcome {
    Outcome { state, result: Ok(()) }
}

/// `state`, reached by the fault `error`.
pub open spec fn failed(state: RemuxerModel, error: FlvError) -> Outcome {
    Outcome { state, result: Err(error) }
}

/// `n` as a `u32`, held at the largest one.
pub open spec fn clamp_u32(n: nat) -> u32 {
    if n > u32::MAX {
        u32::MAX
    } else {
        n as u32
    }
}

/// The track after one more sample.
pub open spec fn advanced(track: TrackContext) -> TrackContext {
    TrackContext {
        sequence_number: if track.sequence_number < u32::MAX {
            (track.sequence_number + 1) as u32
        } else {
            track.sequence_number
        },
        ..track
    }
}

/// The state after the initialization segment was emitted.
pub open spec fn with_init_segment(state: RemuxerModel) -> RemuxerModel {
    RemuxerModel {
        outputs: state.outputs.push(OutputModel::InitSegment),
        ctx: ContextModel { header_sent: true, ..state.ctx },
        ..state
    }
}

/// The state with the initialization segment out: emitted now unless it was
/// before.
pub open spec fn with_init_ensured(state: RemuxerModel) -> RemuxerModel {
    if state.ctx.header_sent {
        state
    } else {
        with_init_segment(state)
    }
}

/// The state after one audio sample was emitted.
pub open spec fn with_audio_fragment(
    state: RemuxerModel,
    sample: SampleContext,
    payload: Seq<u8>,
) -> RemuxerModel {
    RemuxerModel {
        outputs: state.outputs.push(
            OutputModel::Fragment { track: state.audio_track, sample, payload },
        ),
        audio_track: advanced(state.audio_track),
        ..state
    }
}

/// The state after one video sample was emitted.
pub open spec fn with_video_fragment(
    state: RemuxerModel,
    sample: SampleContext,
    payload: Seq<u8>,
) -> RemuxerModel {
    RemuxerModel {
        outputs: state.outputs.push(
            OutputModel::Fragment { track: state.video_track, sample, payload },
        ),
        video_track: advanced(state.video_track),
        ..state
    }
}

/// The sample record of an audio payload: no composition offset, no flags.
pub open spec fn audio_sample(timestamp: u32, size: nat, duration: u32) -> SampleContext {
    SampleContext {
        decode_time: timescale_of(timestamp),
        sample_size: clamp_u32(size),
        sample_duration: duration,
        composition_time_offset: 0,
        is_keyframe: false,
        is_leading: false,
        is_non_sync: false,
        has_redundancy: false,
    }
}

/// The sample record of a video payload: the composition offset of its
/// header, leading if it is the first of its track, keyframe or non-sync by
/// its classification.
pub open spec fn video_sample(
    timestamp: u32,
    size: nat,
    duration: u32,
    composition_time: i32,
    sequence_number: u32,
    keyframe_type: KeyframeType,
) -> SampleContext {
    SampleContext {
        decode_time: timescale_of(timestamp),
        sample_size: clamp_u32(size),
        sample_duration: duration,
        composition_time_offset: composition_time,
        is_keyframe: keyframe_type == KeyframeType::Keyframe,
        is_leading: sequence_number == 1,
        is_non_sync: keyframe_type == KeyframeType::Interframe,
        has_redundancy: false,
    }
}

/// The audio payload of `tag`; empty where it has none.
pub open spec fn audio_payload(tag: TagModel) -> Seq<u8> {
    match tag.tag_body {
        TagBodyModel::Normal(PayloadModel::Audio(bytes)) => bytes,
        _ => Seq::empty(),
    }
}

/// The composition time of `tag`; zero where it has no video header.
pub open spec fn composition_time_of(tag: TagModel) -> i32 {
    match tag.tag_header {
        TagHeader::Video(header) => header.composition_time,
        _ => 0,
    }
}

/// What an audio tag does to `state`. A tag that does not parse is a fault.
/// Before the context is configured a sequence header or an MP3 frame sets up the
/// audio track and nothing is emitted. Behind it each access unit or frame
/// is one fragment, and a sequence header is a fault.
#[verifier::opaque]
pub open spec fn absorb_audio(state: RemuxerModel, tag: TagModel) -> Outcome {
    match spec_parse_audio(tag) {
        Err(error) => failed(state, error),
        Ok(parsed) => if state.ctx.configured() {
            let ready = with_init_ensured(state);
            match parsed {
                AudioModel::AacRaw(raw) => done(
                    with_audio_fragment(
                        ready,
                        audio_sample(
                            tag.timestamp,
                            raw.len(),
                            frame_duration(
                                AAC_SAMPLES_PER_FRAME as nat,
                                state.ctx.audio_sample_rate,
                            ),
                        ),
                        raw,
                    ),
                ),
                AudioModel::Mp3(frame) => done(
                    with_audio_fragment(
                        ready,
                        audio_sample(
                            tag.timestamp,
                            audio_payload(tag).len(),
                            frame_duration(mp3_samples_per_frame(frame.version), frame.sample_rate),
                        ),
                        audio_payload(tag),
                    ),
                ),
                AudioModel::AacSeqHdr(_) => failed(ready, FlvError::SequenceHeaderAfterConfig),
            }
        } else {
            match parsed {
                AudioModel::AacSeqHdr(header) => done(
                    RemuxerModel {
                        ctx: with_audio_config(state.ctx, AudioConfigurationLike::Aac(header)),
                        ..state
                    },
                ),
                AudioModel::Mp3(frame) => done(
                    RemuxerModel {
                        ctx: with_audio_config(state.ctx, AudioConfigurationLike::Mp3(frame)),
                        ..state
                    },
                ),
                AudioModel::AacRaw(_) => done(state),
            }
        },
    }
}

/// What a video tag does to `state`. A tag that does not parse is a fault.
/// Before the context is configured a sequence header sets up the video track and
/// nothing is emitted. Behind it each payload of NAL units is one fragment,
/// the end of a sequence is passed over, and a sequence header is a fault.
#[verifier::opaque]
pub open spec fn absorb_video(state: RemuxerModel, tag: TagModel) -> Outcome {
    match spec_parse_video(tag) {
        Err(error) => failed(state, error),
        Ok(parsed) => if state.ctx.configured() {
            let ready = with_init_ensured(state);
            match parsed {
                VideoModel::AvcNalu(keyframe_type, payload) => done(
                    with_video_fragment(
                        ready,
                        video_sample(
                            tag.timestamp,
                            payload.len(),
                            avc_duration(state.ctx.fps_num),
                            composition_time_of(tag),
                            state.video_track.sequence_number,
                            keyframe_type,
                        ),
                        payload,
                    ),
                ),
                VideoModel::AvcSequenceHeader(_) => failed(
                    ready,
                    FlvError::SequenceHeaderAfterConfig,
                ),
                VideoModel::AvcEndOfSequence => done(ready),
            }
        } else {
            match parsed {
                VideoModel::AvcSequenceHeader(bytes) => done(
                    RemuxerModel { ctx: with_video_config(state.ctx, bytes), ..state },
                ),
                _ => done(state),
            }
        },
    }
}

/// What one tag does to `state`: filtered tags and script tags nothing,
/// audio and video tags what their parsers find.
pub open spec fn absorb_tag(state: RemuxerModel, tag: TagModel) -> Outcome {
    if tag.filter {
        done(state)
    } else {
        match tag.tag_type {
            TagType::Audio => absorb_audio(state, tag),
            TagType::Video => absorb_video(state, tag),
            TagType::Script => done(state),
            TagType::Encryption => done(state),
        }
    }
}

/// Takes the waiting tags `tags` through `state`, oldest first, up to the
/// first fault; the tags behind a faulty one stay queued.
pub open spec fn drained(state: RemuxerModel, tags: Seq<TagModel>) -> Outcome
    decreases tags.len(),
{
    if tags.len() == 0 {
        done(RemuxerModel { tags, ..state })
    } else {
        let step = absorb_tag(state, tags[0]);
        match step.result {
            Err(error) => failed(RemuxerModel { tags: tags.skip(1), ..step.state }, error),
            Ok(_) => drained(step.state, tags.skip(1)),
        }
    }
}

/// One pass of remuxing: the initialization segment if it is due, then
/// every waiting tag.
pub open spec fn remuxed(state: RemuxerModel) -> Outcome {
    let ready = if state.ctx.init_segment_due() {
        with_init_segment(state)
    } else {
        state
    };
    drained(ready, ready.tags)
}

/// What a message does to `state` before any remuxing: tags queue up,
/// header and metadata are absorbed, directives set the switches. Content
/// meant for another component is passed over.
pub open spec fn received(state: RemuxerModel, content: PackedContent) -> RemuxerModel {
    match content {
        PackedContent::ToRemuxer(PackedContentToRemuxer::PushTag(tag)) => RemuxerModel {
            tags: state.tags.push(tag@),
            ..state
        },
        PackedContent::ToRemuxer(PackedContentToRemuxer::PushFlvHeader(header)) => RemuxerModel {
            ctx: with_flv_header(state.ctx, header),
            flv_header: Some(header),
            ..state
        },
        PackedContent::ToRemuxer(PackedContentToRemuxer::PushMetadata(metadata)) => RemuxerModel {
            ctx: with_metadata(state.ctx, metadata@),
            metadata: Some(metadata@),
            ..state
        },
        PackedContent::ToRemuxer(PackedContentToRemuxer::StartRemuxing) => RemuxerModel {
            remuxing: true,
            ..state
        },
        PackedContent::ToRemuxer(PackedContentToRemuxer::StopRemuxing) => RemuxerModel {
            remuxing: false,
            ..state
        },
        PackedContent::ToRemuxer(PackedContentToRemuxer::CloseWorkerThread) => RemuxerModel {
            closed: true,
            ..state
        },
        _ => state,
    }
}

/// What one message does to `state` in all: it is received; then, unless the
/// remuxer was closed or is switched off, either the initialization segment
/// goes out, if it is due, or the waiting tags are remuxed.
#[verifier::opaque]
pub open spec fn handled(state: RemuxerModel, content: PackedContent) -> Outcome {
    let next = received(state, content);
    if next.closed || !next.remuxing {
        done(next)
    } else if next.ctx.init_segment_due() {
        done(with_init_segment(next))
    } else {
        drained(next, next.tags)
    }
}

/// How a run over a channel ends: the state, what is left in the channel,
/// and whether a fault stopped it.
pub struct RunOutcome {
    pub state: RemuxerModel,
    pub channel: Seq<PackedContent>,
    pub result: Result<(), FlvError>,
}

/// Takes the messages of `channel` through `state`, oldest first, until the
/// channel is empty, the remuxer is closed, or a fault occurs.
pub open spec fn ran(state: RemuxerModel, channel: Seq<PackedContent>) -> RunOutcome
    decreases channel.len(),
{
    if state.closed || channel.len() == 0 {
        RunOutcome { state, channel, result: Ok(()) }
    } else {
        let step = handled(state, channel[0]);
        match step.result {
            Err(error) => RunOutcome {
                state: step.state,
                channel: channel.skip(1),
                result: Err(error),
            },
            Ok(_) => ran(step.state, channel.skip(1)),
        }
    }
}

/// The model of a remuxer that is switched off and knows nothing of the
/// stream: nothing queued, nothing emitted, both tracks at their first
/// sample.
pub open spec fn fresh_remuxer() -> RemuxerModel {
    RemuxerModel {
        connected: false,
        closed: false,
        remuxing: false,
        tags: Seq::empty(),
        metadata: None,
        flv_header: None,
        ctx: fresh_context(),
        audio_track: TrackContext {
            track_id: DEFAULT_AUDIO_TRACK_ID,
            track_type: TrackType::Audio,
            sequence_number: 1,
        },
        video_track: TrackContext {
            track_id: DEFAULT_VIDEO_TRACK_ID,
            track_type: TrackType::Video,
            sequence_number: 1,
        },
        outputs: Seq::empty(),
    }
}

/// The remuxer.
pub struct Remuxer {
    connected: bool,
    closed: bool,
    remuxing: bool,
    tags: VecDeque<Tag>,
    metadata: Option<RawMetaData>,
    flv_header: Option<FlvHeader>,
    ctx: RemuxContext,
    audio_track: TrackContext,
    video_track: TrackContext,
    outputs: VecDeque<RemuxOutput>,
}

impl View for Remuxer {
    type V = RemuxerModel;

    closed spec fn view(&self) -> RemuxerModel {
        RemuxerModel {
            connected: self.connected,
            closed: self.closed,
            remuxing: self.remuxing,
            tags: tags_view(self.tags@),
            metadata: match self.metadata {
                Some(metadata) => Some(metadata@),
                None => None,
            },
            flv_header: self.flv_header,
            ctx: self.ctx@,
            audio_track: self.audio_track,
            video_track: self.video_track,
            outputs: outputs_view(self.outputs@),
        }
    }
}

impl ExchangeRegistrable for Remuxer {
    open spec fn destination(&self) -> Destination {
        Destination::Remuxer
    }

    open spec fn connected(&self) -> bool {
        self@.connected
    }

    fn set_exchange(&mut self)
        ensures
            final(self)@ == (RemuxerModel { connected: true, ..old(self)@ }),
    {
        self.connected = true;
    }

    fn get_self_as_destination(&self) -> (destination: Destination) {
        Destination::Remuxer
    }
}

/// `n` as a `u32`, held at the largest one.
fn clamp_len(n: usize) -> (size: u32)
    ensures
        size == clamp_u32(n as nat),
{
    if n > u32::MAX as usize {
        u32::MAX
    } else {
        n as u32
    }
}

impl Remuxer {
    /// A remuxer that is switched off and knows nothing of the stream.
    pub fn new() -> (remuxer: Self)
        ensures
            remuxer@ == fresh_remuxer(),
    {
        let remuxer = Self {
            connected: false,
            closed: false,
            remuxing: false,
            tags: VecDeque::new(),
            metadata: None,
            flv_header: None,
            ctx: RemuxContext::new(),
            audio_track: TrackContext::new(DEFAULT_AUDIO_TRACK_ID, TrackType::Audio),
            video_track: TrackContext::new(DEFAULT_VIDEO_TRACK_ID, TrackType::Video),
            outputs: VecDeque::new(),
        };
        assert(remuxer@.tags =~= Seq::<TagModel>::empty());
        assert(remuxer@.outputs =~= Seq::<OutputModel>::empty());
        remuxer
    }

    /// Whether the remuxer was told to close.
    pub fn is_closed(&self) -> (closed: bool)
        ensures
            closed == self@.closed,
    {
        self.closed
    }

    /// The configuration gathered so far.
    pub fn context(&self) -> (ctx: &RemuxContext)
        ensures
            ctx@ == self@.ctx,
    {
        &self.ctx
    }

    /// Takes the oldest output that was not taken yet.
    pub fn next_output(&mut self) -> (output: Option<RemuxOutput>)
        ensures
            match output {
                Some(taken) => {
                    &&& old(self)@.outputs.len() > 0
                    &&& taken@ == old(self)@.outputs[0]
                    &&& final(self)@ == (RemuxerModel {
                        outputs: old(self)@.outputs.skip(1),
                        ..old(self)@
                    })
                },
                None => old(self)@.outputs.len() == 0 && final(self)@ == old(self)@,
            },
    {
        let output = self.outputs.pop_front();
        proof {
            if output is Some {
                assert(outputs_view(self.outputs@) =~= old(self)@.outputs.skip(1));
            }
        }
        output
    }

    /// Emits the initialization segment and latches the emitted flag.
    fn send_mpeg4_header(&mut self)
        ensures
            final(self)@ == with_init_segment(old(self)@),
    {
        self.outputs.push_back(RemuxOutput::InitSegment);
        self.ctx.set_header_sent(true);
        assert(outputs_view(self.outputs@) =~= old(self)@.outputs.push(OutputModel::InitSegment));
    }

    /// Emits the initialization segment unless it went out before.
    fn ensure_header(&mut self)
        ensures
            final(self)@ == with_init_ensured(old(self)@),
    {
        if !self.ctx.is_header_sent() {
            self.send_mpeg4_header();
        }
    }

    /// Emits one sample of the audio track and advances the track.
    fn send_audio(&mut self, sample: SampleContext, payload: Vec<u8>)
        ensures
            final(self)@ == with_audio_fragment(old(self)@, sample, payload@),
    {
        let track = self.audio_track;
        self.outputs.push_back(RemuxOutput::Fragment(Fragment { track, sample, payload }));
        if self.audio_track.sequence_number < u32::MAX {
            self.audio_track.sequence_number = self.audio_track.sequence_number + 1;
        }
        assert(outputs_view(self.outputs@) =~= old(self)@.outputs.push(
            OutputModel::Fragment { track, sample, payload: payload@ },
        ));
    }

    /// Emits one sample of the video track and advances the track.
    fn send_video(&mut self, sample: SampleContext, payload: Vec<u8>)
        ensures
            final(self)@ == with_video_fragment(old(self)@, sample, payload@),
    {
        let track = self.video_track;
        self.outputs.push_back(RemuxOutput::Fragment(Fragment { track, sample, payload }));
        if self.video_track.sequence_number < u32::MAX {
            self.video_track.sequence_number = self.video_track.sequence_number + 1;
        }
        assert(outputs_view(self.outputs@) =~= old(self)@.outputs.push(
            OutputModel::Fragment { track, sample, payload: payload@ },
        ));
    }

    /// Remuxes one audio tag.
    fn remux_audio(&mut self, tag: Tag) -> (res: Result<(), FlvError>)
        ensures
            final(self)@ == absorb_audio(old(self)@, tag@).state,
            res == absorb_audio(old(self)@, tag@).result,
    {
        reveal(absorb_audio);
        let parsed = Parser::parse_audio(&tag)?;
        if self.ctx.is_configured() {
            let duration_rate: u32 = self.ctx.audio_rate();
            self.ensure_header();
            match parsed {
                AudioParseResult::AacRaw(raw) => {
                    let sample = SampleContextBuilder::new().set_decode_time(
                        parse_timescale(tag.timestamp),
                    ).set_sample_size(clamp_len(raw.len())).set_sample_duration(
                        parse_aac_timescale(duration_rate),
                    ).set_composition_time_offset(0).build();
                    self.send_audio(sample, raw);
                    Ok(())
                },
                AudioParseResult::Mp3(frame) => {
                    let payload = match tag.tag_body {
                        TagBody::Normal(NormalTagBody::Audio(bytes)) => bytes,
                        _ => Vec::new(),
                    };
                    let sample = SampleContextBuilder::new().set_decode_time(
                        parse_timescale(tag.timestamp),
                    ).set_sample_size(clamp_len(payload.len())).set_sample_duration(
                        parse_mp3_timescale(frame.sample_rate, frame.version),
                    ).set_composition_time_offset(0).build();
                    self.send_audio(sample, payload);
                    Ok(())
                },
                AudioParseResult::AacSeqHdr(_) => Err(FlvError::SequenceHeaderAfterConfig),
            }
        } else {
            match parsed {
                AudioParseResult::AacSeqHdr(header) => {
                    self.ctx.configure_audio_metadata(&AudioConfigurationLike::Aac(header));
                },
                AudioParseResult::Mp3(frame) => {
                    self.ctx.configure_audio_metadata(&AudioConfigurationLike::Mp3(frame));
                },
                AudioParseResult::AacRaw(_) => {},
            }
            Ok(())
        }
    }

    /// Remuxes one video tag.
    fn remux_video(&mut self, tag: Tag) -> (res: Result<(), FlvError>)
        ensures
            final(self)@ == absorb_video(old(self)@, tag@).state,
            res == absorb_video(old(self)@, tag@).result,
    {
        reveal(absorb_video);
        let parsed = Parser::parse_video(&tag)?;
        if self.ctx.is_configured() {
            let frame_rate: u32 = self.ctx.frame_rate_num();
            self.ensure_header();
            match parsed {
                VideoParseResult::Avc1(Avc1ParseResult::AvcNalu(data)) => {
                    let composition_time: i32 = match tag.tag_header {
                        TagHeader::Video(header) => header.composition_time,
                        _ => 0,
                    };
                    let sample = SampleContextBuilder::new().set_decode_time(
                        parse_timescale(tag.timestamp),
                    ).set_sample_size(clamp_len(data.payload.len())).set_sample_duration(
                        parse_avc_timescale(frame_rate),
                    ).set_composition_time_offset(composition_time).set_has_redundancy(
                        false,
                    ).set_is_leading(self.video_track.sequence_number == 1).set_is_keyframe(
                        data.keyframe_type == KeyframeType::Keyframe,
                    ).set_is_non_sync(data.keyframe_type == KeyframeType::Interframe).build();
                    self.send_video(sample, data.payload);
                    Ok(())
                },
                VideoParseResult::Avc1(Avc1ParseResult::AvcSequenceHeader(_)) => Err(
                    FlvError::SequenceHeaderAfterConfig,
                ),
                VideoParseResult::Avc1(Avc1ParseResult::AvcEndOfSequence) => Ok(()),
            }
        } else {
            match parsed {
                VideoParseResult::Avc1(Avc1ParseResult::AvcSequenceHeader(bytes)) => {
                    self.ctx.configure_video_metadata(bytes);
                },
                _ => {},
            }
            Ok(())
        }
    }

    /// Remuxes one tag.
    fn remux_tag(&mut self, tag: Tag) -> (res: Result<(), FlvError>)
        ensures
            final(self)@ == absorb_tag(old(self)@, tag@).state,
            res == absorb_tag(old(self)@, tag@).result,
    {
        if tag.filter {
            return Ok(());
        }
        match tag.tag_type {
            TagType::Audio => self.remux_audio(tag),
            TagType::Video => self.remux_video(tag),
            TagType::Script => Ok(()),
            TagType::Encryption => Ok(()),
        }
    }

    /// Remuxes every waiting tag, oldest first, up to the first fault.
    #[verifier::rlimit(40)]
    fn drain(&mut self) -> (res: Result<(), FlvError>)
        ensures
            final(self)@ == drained(old(self)@, old(self)@.tags).state,
            res == drained(old(self)@, old(self)@.tags).result,
    {
        let ghost whole = drained(old(self)@, old(self)@.tags);
        loop
            invariant
                whole == drained(old(self)@, old(self)@.tags),
                whole == drained(self@, self@.tags),
            decreases self@.tags.len(),
        {
            let ghost before = self@;
            match self.tags.pop_front() {
                None => {
                    assert(self@ == (RemuxerModel { tags: self@.tags, ..self@ }));
                    return Ok(());
                },
                Some(tag) => {
                    assert(tags_view(self.tags@) =~= before.tags.skip(1));
                    assert(tag@ == before.tags[0]);
                    let ghost queued = self@;
                    proof {
                        lemma_absorb_keeps_tags(queued, tag@);
                        lemma_absorb_ignores_tags(before, queued, tag@);
                        lemma_drained_ignores_tags(
                            absorb_tag(before, tag@).state,
                            absorb_tag(queued, tag@).state,
                            before.tags.skip(1),
                        );
                    }
                    match self.remux_tag(tag) {
                        Ok(_) => {},
                        Err(error) => {
                            assert(self@ == (RemuxerModel { tags: before.tags.skip(1), ..self@ }));
                            return Err(error);
                        },
                    }
                },
            }
        }
    }

    /// One pass of remuxing: emits the initialization segment if it is due,
    /// then remuxes every waiting tag.
    pub fn remux(&mut self) -> (res: Result<(), FlvError>)
        ensures
            final(self)@ == remuxed(old(self)@).state,
            res == remuxed(old(self)@).result,
    {
        if self.ctx.is_configured() && !self.ctx.is_header_sent() {
            self.send_mpeg4_header();
        }
        self.drain()
    }

    /// Takes one message in.
    fn receive(&mut self, content: PackedContent)
        ensures
            final(self)@ == received(old(self)@, content),
    {
        match content {
            PackedContent::ToRemuxer(PackedContentToRemuxer::PushTag(tag)) => {
                let ghost model = tag@;
                self.tags.push_back(tag);
                assert(tags_view(self.tags@) =~= old(self)@.tags.push(model));
            },
            PackedContent::ToRemuxer(PackedContentToRemuxer::PushFlvHeader(flv_header)) => {
                self.ctx.parse_flv_header(&flv_header);
                self.flv_header = Some(flv_header);
            },
            PackedContent::ToRemuxer(PackedContentToRemuxer::PushMetadata(metadata)) => {
                self.ctx.parse_metadata(&metadata);
                self.metadata = Some(metadata);
            },
            PackedContent::ToRemuxer(PackedContentToRemuxer::StartRemuxing) => {
                self.set_remuxing(true);
            },
            PackedContent::ToRemuxer(PackedContentToRemuxer::StopRemuxing) => {
                self.set_remuxing(false);
            },
            PackedContent::ToRemuxer(PackedContentToRemuxer::CloseWorkerThread) => {
                self.closed = true;
            },
            _ => {},
        }
    }

    fn set_remuxing(&mut self, flag: bool)
        ensures
            final(self)@ == (RemuxerModel { remuxing: flag, ..old(self)@ }),
    {
        self.remuxing = flag;
    }

    /// Takes one message in and does what it makes due.
    pub fn handle(&mut self, content: PackedContent) -> (res: Result<(), FlvError>)
        ensures
            final(self)@ == handled(old(self)@, content).state,
            res == handled(old(self)@, content).result,
    {
        reveal(handled);
        self.receive(content);
        if self.closed || !self.remuxing {
            return Ok(());
        }
        if self.ctx.is_configured() && !self.ctx.is_header_sent() {
            self.send_mpeg4_header();
            Ok(())
        } else {
            self.drain()
        }
    }

    /// Handles the messages that wait for the remuxer in `exchange`, oldest
    /// first, until none is left, the remuxer is told to close, or a fault
    /// occurs. Where the remuxer has no channel there is nothing to do.
    pub fn run(&mut self, exchange: &mut Exchange) -> (res: Result<(), FlvError>)
        ensures
            final(exchange)@.inbound == old(exchange)@.inbound,
            !old(exchange)@.channels.contains_key(Destination::Remuxer) ==> {
                &&& res is Ok
                &&& final(self)@ == old(self)@
                &&& final(exchange)@ == old(exchange)@
            },
            old(exchange)@.channels.contains_key(Destination::Remuxer) ==> {
                let end = ran(old(self)@, old(exchange)@.channels[Destination::Remuxer]);
                &&& final(self)@ == end.state
                &&& res == end.result
                &&& final(exchange)@.channels == old(exchange)@.channels.insert(
                    Destination::Remuxer,
                    end.channel,
                )
            },
    {
        if !exchange.is_registered(Destination::Remuxer) {
            return Ok(());
        }
        let ghost whole = ran(old(self)@, old(exchange)@.channels[Destination::Remuxer]);
        assert(old(exchange)@.channels.insert(
            Destination::Remuxer,
            old(exchange)@.channels[Destination::Remuxer],
        ) =~= old(exchange)@.channels);
        loop
            invariant
                exchange@.inbound == old(exchange)@.inbound,
                old(exchange)@.channels.contains_key(Destination::Remuxer),
                exchange@.channels.contains_key(Destination::Remuxer),
                exchange@.channels == old(exchange)@.channels.insert(
                    Destination::Remuxer,
                    exchange@.channels[Destination::Remuxer],
                ),
                whole == ran(old(self)@, old(exchange)@.channels[Destination::Remuxer]),
                whole == ran(self@, exchange@.channels[Destination::Remuxer]),
            decreases exchange@.channels[Destination::Remuxer].len(),
        {
            if self.closed {
                return Ok(());
            }
            let ghost channels = exchange@.channels;
            match exchange.receive(Destination::Remuxer) {
                None => {
                    return Ok(());
                },
                Some(content) => {
                    assert(exchange@.channels =~= old(exchange)@.channels.insert(
                        Destination::Remuxer,
                        channels[Destination::Remuxer].skip(1),
                    ));
                    self.handle(content)?;
                },
            }
        }
    }
}

/// Remuxing a tag leaves the queue of waiting tags as it is.
pub proof fn lemma_absorb_keeps_tags(state: RemuxerModel, tag: TagModel)
    ensures
        absorb_tag(state, tag).state.tags == state.tags,
{
    reveal(absorb_audio);
    reveal(absorb_video);
}

/// What remuxing an audio tag does depends on the queue of waiting tags in
/// nothing but that it carries the queue along.
proof fn lemma_absorb_audio_ignores_tags(first: RemuxerModel, second: RemuxerModel, tag: TagModel)
    requires
        second == (RemuxerModel { tags: second.tags, ..first }),
    ensures
        absorb_audio(second, tag).result == absorb_audio(first, tag).result,
        absorb_audio(second, tag).state == (RemuxerModel {
            tags: second.tags,
            ..absorb_audio(first, tag).state
        }),
{
    reveal(absorb_audio);
}

/// What remuxing a video tag does depends on the queue of waiting tags in
/// nothing but that it carries the queue along.
proof fn lemma_absorb_video_ignores_tags(first: RemuxerModel, second: RemuxerModel, tag: TagModel)
    requires
        second == (RemuxerModel { tags: second.tags, ..first }),
    ensures
        absorb_video(second, tag).result == absorb_video(first, tag).result,
        absorb_video(second, tag).state == (RemuxerModel {
            tags: second.tags,
            ..absorb_video(first, tag).state
        }),
{
    reveal(absorb_video);
}

/// What remuxing a tag does depends on the queue of waiting tags in nothing
/// but that it carries the queue along.
pub proof fn lemma_absorb_ignores_tags(first: RemuxerModel, second: RemuxerModel, tag: TagModel)
    requires
        second == (RemuxerModel { tags: second.tags, ..first }),
    ensures
        absorb_tag(second, tag).result == absorb_tag(first, tag).result,
        absorb_tag(second, tag).state == (RemuxerModel {
            tags: second.tags,
            ..absorb_tag(first, tag).state
        }),
{
    lemma_absorb_audio_ignores_tags(first, second, tag);
    lemma_absorb_video_ignores_tags(first, second, tag);
}

/// Draining given tags does not depend on the queue that the state carries.
pub proof fn lemma_drained_ignores_tags(
    first: RemuxerModel,
    second: RemuxerModel,
    tags: Seq<TagModel>,
)
    requires
        second == (RemuxerModel { tags: second.tags, ..first }),
    ensures
        drained(second, tags) == drained(first, tags),
    decreases tags.len(),
{
    if tags.len() > 0 {
        lemma_absorb_ignores_tags(first, second, tags[0]);
        let a = absorb_tag(first, tags[0]);
        let b = absorb_tag(second, tags[0]);
        if a.result is Ok {
            lemma_drained_ignores_tags(a.state, b.state, tags.skip(1));
        }
    }
}

/// How many of `outputs` are initialization segments.
pub open spec fn init_segments(outputs: Seq<OutputModel>) -> nat
    decreases outputs.len(),
{
    if outputs.len() == 0 {
        0
    } else {
        init_segments(outputs.drop_last()) + if outputs.last() is InitSegment {
            1nat
        } else {
            0nat
        }
    }
}

/// Whether the step from `before` to `after` kept the rule of the
/// initialization segment: a configured context stays configured; the
/// emitted flag never resets; a segment is emitted exactly when the flag
/// becomes set, and then just one; and the flag becomes set only on a
/// configured context.
pub open spec fn init_rule(before: RemuxerModel, after: RemuxerModel) -> bool {
    &&& before.ctx.configured() ==> after.ctx.configured()
    &&& before.ctx.header_sent ==> after.ctx.header_sent
    &&& init_segments(after.outputs) == init_segments(before.outputs) + if !before.ctx.header_sent
        && after.ctx.header_sent {
        1nat
    } else {
        0nat
    }
    &&& !before.ctx.header_sent && after.ctx.header_sent ==> after.ctx.configured()
}

/// Appending one output adds one to the count if it is an initialization
/// segment, and nothing otherwise.
pub proof fn lemma_init_segments_push(outputs: Seq<OutputModel>, output: OutputModel)
    ensures
        init_segments(outputs.push(output)) == init_segments(outputs) + if output
            is InitSegment {
            1nat
        } else {
            0nat
        },
{
    assert(outputs.push(output).drop_last() =~= outputs);
}

/// Remuxing one tag keeps the rule of the initialization segment, and what
/// is configured stays configured.
pub proof fn lemma_absorb_keeps_init_rule(state: RemuxerModel, tag: TagModel)
    ensures
        init_rule(state, absorb_tag(state, tag).state),
{
    reveal(absorb_audio);
    reveal(absorb_video);
    let ready = with_init_ensured(state);
    lemma_init_segments_push(state.outputs, OutputModel::InitSegment);
    assert forall|track: TrackContext, sample: SampleContext, payload: Seq<u8>|
        init_segments(
            #[trigger] ready.outputs.push(OutputModel::Fragment { track, sample, payload }),
        ) == init_segments(ready.outputs) by {
        lemma_init_segments_push(ready.outputs, OutputModel::Fragment { track, sample, payload });
    }
}

/// Remuxing the waiting tags keeps the rule of the initialization segment.
pub proof fn lemma_drained_keeps_init_rule(state: RemuxerModel, tags: Seq<TagModel>)
    ensures
        init_rule(state, drained(state, tags).state),
    decreases tags.len(),
{
    if tags.len() > 0 {
        lemma_absorb_keeps_init_rule(state, tags[0]);
        let step = absorb_tag(state, tags[0]);
        if step.result is Ok {
            lemma_drained_keeps_init_rule(step.state, tags.skip(1));
        }
    }
}

/// Whatever message arrives, in whatever state: the initialization segment
/// is emitted if and only if the emitted flag becomes set, which happens
/// only on a configured context and only where the flag was not set before;
/// once set, the flag stays set. So no run emits the segment twice.
pub proof fn lemma_handled_keeps_init_rule(state: RemuxerModel, content: PackedContent)
    ensures
        init_rule(state, handled(state, content).state),
{
    reveal(handled);
    let next = received(state, content);
    assert(next.outputs == state.outputs);
    assert(next.ctx.header_sent == state.ctx.header_sent);
    lemma_init_segments_push(next.outputs, OutputModel::InitSegment);
    lemma_drained_keeps_init_rule(next, next.tags);
}

/// A whole run keeps the rule of the initialization segment: it emits the
/// segment at most once, and never again once the flag is set.
pub proof fn lemma_ran_keeps_init_rule(state: RemuxerModel, channel: Seq<PackedContent>)
    ensures
        init_rule(state, ran(state, channel).state),
    decreases channel.len(),
{
    if !state.closed && channel.len() > 0 {
        lemma_handled_keeps_init_rule(state, channel[0]);
        let step = handled(state, channel[0]);
        if step.result is Ok {
            lemma_ran_keeps_init_rule(step.state, channel.skip(1));
        }
    }
}

} // verus!
