//! What the remuxer knows of the stream: the configuration gathered from
//! header, metadata and codec parameters, the readiness test that tells when the
//! initialization segment may go out, and the per-track and per-sample
//! records handed to the box encoder.
use vstd::prelude::*;
use vstd::string::{StrSliceExecFns, StringExecFns};
use crate::flv::header::FlvHeader;
use crate::flv::meta::{find_number, find_text, RawMetaData};
use crate::flv::script::PropModel;
use crate::fmpeg::parser::{AudioConfigurationLike, Channel};
use crate::io::float::{
    f64_thousandfold_to_u32, f64_times_to_unsigned, f64_to_u32, f64_to_u8,
};

verus! {

/// Units per second of the output clock.
pub const TIME_SCALE: u32 = 1000;

/// The codec of the video track.
#[derive(Clone, Copy, Debug, PartialEq, Eq, Structural)]
pub enum VideoCodecType {
    Avc1,
    /// No video codec is known yet.
    Unknown,
}

/// The codec of the audio track.
#[derive(Clone, Copy, Debug, PartialEq, Eq, Structural)]
pub enum AudioCodecType {
    Aac,
    Mp3,
    /// No audio codec is known yet.
    Unknown,
}

/// The configuration of one remux session.
#[derive(Debug)]
pub struct RemuxContext {
    /// Frames per second, the bit pattern of a double.
    pub fps: u64,
    /// Frames per thousand seconds.
    pub fps_num: u32,
    pub duration_ms: u32,
    /// Width in pixels, the bit pattern of a double.
    pub width: u64,
    /// Height in pixels, the bit pattern of a double.
    pub height: u64,
    pub has_audio: bool,
    pub has_video: bool,
    pub audio_codec_id: u8,
    pub audio_data_rate: u32,
    pub audio_sample_rate: u32,
    pub audio_channels: u8,
    pub video_codec_id: u8,
    pub video_data_rate: u32,
    pub major_brand: String,
    pub minor_version: String,
    pub compatible_brands: Vec<String>,
    pub video_codec_type: VideoCodecType,
    pub audio_codec_type: AudioCodecType,
    /// The decoder configuration of the video track, as it stood in the
    /// sequence header.
    pub video_sequence_header: Vec<u8>,
    header_sent: bool,
    flv_header_configured: bool,
    metadata_configured: bool,
    video_metadata_configured: bool,
    audio_metadata_configured: bool,
}

/// The texts of `strings`, in order.
pub open spec fn texts(strings: Seq<String>) -> Seq<Seq<char>> {
    Seq::new(strings.len(), |i: int| strings[i]@)
}

/// The number named `key` times `factor` as an unsigned integer of at most
/// `max`, or `previous` where the metadata has no such number.
pub open spec fn number_or(
    meta: Seq<PropModel>,
    key: Seq<char>,
    factor: nat,
    max: nat,
    previous: nat,
) -> nat {
    match find_number(meta, key) {
        Some(bits) => f64_times_to_unsigned(bits, factor, max),
        None => previous,
    }
}

/// The bit pattern of the number named `key`, or `previous` where the
/// metadata has no such number.
pub open spec fn bits_or(meta: Seq<PropModel>, key: Seq<char>, previous: u64) -> u64 {
    match find_number(meta, key) {
        Some(bits) => bits,
        None => previous,
    }
}

/// The text named `key`, or `previous` where the metadata has no such text.
pub open spec fn text_or(
    meta: Seq<PropModel>,
    key: Seq<char>,
    previous: Seq<char>,
) -> Seq<char> {
    match find_text(meta, key) {
        Some(text) => text,
        None => previous,
    }
}

/// `previous` followed by the first four brands of four characters each that
/// the text named `compatible_brands` spells; `previous` alone where there
/// is no such text or it is shorter than sixteen characters.
pub open spec fn brands_after(
    meta: Seq<PropModel>,
    previous: Seq<Seq<char>>,
) -> Seq<Seq<char>> {
    match find_text(meta, "compatible_brands"@) {
        Some(text) => if text.len() >= 16 {
            previous.push(text.subrange(0, 4)).push(text.subrange(4, 8)).push(
                text.subrange(8, 12),
            ).push(text.subrange(12, 16))
        } else {
            previous
        },
        None => previous,
    }
}

/// The sample rate that an AAC frequency index names; zero for the indices
/// without a rate.
pub open spec fn aac_sample_rate(index: u8) -> u32 {
    if index == 0 {
        96000
    } else if index == 1 {
        88200
    } else if index == 2 {
        64000
    } else if index == 3 {
        48000
    } else if index == 4 {
        44100
    } else if index == 5 {
        32000
    } else if index == 6 {
        24000
    } else if index == 7 {
        22050
    } else if index == 8 {
        16000
    } else if index == 9 {
        12000
    } else if index == 10 {
        11025
    } else if index == 11 {
        8000
    } else if index == 12 {
        7350
    } else {
        0
    }
}

/// The sample rate that an AAC frequency index names.
pub fn aac_sample_rate_of(index: u8) -> (rate: u32)
    ensures
        rate == aac_sample_rate(index),
{
    match index {
        0 => 96000,
        1 => 88200,
        2 => 64000,
        3 => 48000,
        4 => 44100,
        5 => 32000,
        6 => 24000,
        7 => 22050,
        8 => 16000,
        9 => 12000,
        10 => 11025,
        11 => 8000,
        12 => 7350,
        _ => 0,
    }
}

/// Codec type, sample rate and channel count that `config` gives a track.
pub open spec fn audio_parameters(config: AudioConfigurationLike) -> (AudioCodecType, u32, u8) {
    match config {
        AudioConfigurationLike::Aac(header) => (
            AudioCodecType::Aac,
            aac_sample_rate(header.sampling_frequency_index),
            header.channel_configuration,
        ),
        AudioConfigurationLike::Mp3(frame) => (
            AudioCodecType::Mp3,
            frame.sample_rate,
            if frame.channel == Channel::Mono {
                1u8
            } else {
                2u8
            },
        ),
    }
}

/// Model of a `RemuxContext`: its fields, texts and bytes as sequences, and
/// its five flags.
pub struct ContextModel {
    pub fps: u64,
    pub fps_num: u32,
    pub duration_ms: u32,
    pub width: u64,
    pub height: u64,
    pub has_audio: bool,
    pub has_video: bool,
    pub audio_codec_id: u8,
    pub audio_data_rate: u32,
    pub audio_sample_rate: u32,
    pub audio_channels: u8,
    pub video_codec_id: u8,
    pub video_data_rate: u32,
    pub major_brand: Seq<char>,
    pub minor_version: Seq<char>,
    pub compatible_brands: Seq<Seq<char>>,
    pub video_codec_type: VideoCodecType,
    pub audio_codec_type: AudioCodecType,
    pub video_sequence_header: Seq<u8>,
    /// Whether the initialization segment was emitted.
    pub header_sent: bool,
    /// Whether the FLV header was absorbed.
    pub flv_header_configured: bool,
    /// Whether the metadata was absorbed.
    pub metadata_configured: bool,
    /// Whether the video codec was configured.
    pub video_metadata_configured: bool,
    /// Whether the audio codec was configured.
    pub audio_metadata_configured: bool,
}

impl ContextModel {
    /// Readiness: all four sources have reported.
    pub open spec fn configured(self) -> bool {
        &&& self.flv_header_configured
        &&& self.metadata_configured
        &&& self.video_metadata_configured
        &&& self.audio_metadata_configured
    }

    /// Whether the initialization segment is due: the context is configured and the
    /// segment has not gone out.
    pub open spec fn init_segment_due(self) -> bool {
        self.configured() && !self.header_sent
    }
}

/// The model that `metadata` leaves of `before`: each field takes the value
/// that the metadata names for it and keeps its previous value where there
/// is none. Durations and frame rates are scaled by a thousand.
pub open spec fn with_metadata(
    before: ContextModel,
    meta: Seq<PropModel>,
) -> ContextModel {
    ContextModel {
        duration_ms: number_or(
            meta,
            "duration"@,
            TIME_SCALE as nat,
            u32::MAX as nat,
            before.duration_ms as nat,
        ) as u32,
        width: bits_or(meta, "width"@, before.width),
        height: bits_or(meta, "height"@, before.height),
        fps: bits_or(meta, "framerate"@, before.fps),
        fps_num: number_or(
            meta,
            "framerate"@,
            TIME_SCALE as nat,
            u32::MAX as nat,
            before.fps_num as nat,
        ) as u32,
        audio_codec_id: number_or(
            meta,
            "audiocodecid"@,
            1,
            u8::MAX as nat,
            before.audio_codec_id as nat,
        ) as u8,
        audio_data_rate: number_or(
            meta,
            "audiodatarate"@,
            1,
            u32::MAX as nat,
            before.audio_data_rate as nat,
        ) as u32,
        video_codec_id: number_or(
            meta,
            "videocodecid"@,
            1,
            u8::MAX as nat,
            before.video_codec_id as nat,
        ) as u8,
        video_data_rate: number_or(
            meta,
            "videodatarate"@,
            1,
            u32::MAX as nat,
            before.video_data_rate as nat,
        ) as u32,
        major_brand: text_or(meta, "major_brand"@, before.major_brand),
        minor_version: text_or(meta, "minor_version"@, before.minor_version),
        compatible_brands: brands_after(meta, before.compatible_brands),
        metadata_configured: true,
        ..before
    }
}

/// The number named `key` as a `u32`, or `previous`.
fn number_as_u32(metadata: &RawMetaData, key: &str, previous: u32) -> (value: u32)
    ensures
        value == number_or(metadata@, key@, 1, u32::MAX as nat, previous as nat),
{
    match metadata.try_get_number(key) {
        Some(bits) => f64_to_u32(bits),
        None => previous,
    }
}

/// A thousand times the number named `key` as a `u32`, or `previous`.
fn thousandfold_as_u32(metadata: &RawMetaData, key: &str, previous: u32) -> (value: u32)
    ensures
        value == number_or(metadata@, key@, 1000, u32::MAX as nat, previous as nat),
{
    match metadata.try_get_number(key) {
        Some(bits) => f64_thousandfold_to_u32(bits),
        None => previous,
    }
}

/// The number named `key` as a `u8`, or `previous`.
fn number_as_u8(metadata: &RawMetaData, key: &str, previous: u8) -> (value: u8)
    ensures
        value == number_or(metadata@, key@, 1, u8::MAX as nat, previous as nat),
{
    match metadata.try_get_number(key) {
        Some(bits) => f64_to_u8(bits),
        None => previous,
    }
}

/// The bit pattern of the number named `key`, or `previous`.
fn number_bits(metadata: &RawMetaData, key: &str, previous: u64) -> (bits: u64)
    ensures
        bits == bits_or(metadata@, key@, previous),
{
    match metadata.try_get_number(key) {
        Some(bits) => bits,
        None => previous,
    }
}

/// Puts the text named `key` in `slot`, if there is one.
fn replace_text(slot: &mut String, metadata: &RawMetaData, key: &str)
    ensures
        final(slot)@ == text_or(metadata@, key@, old(slot)@),
{
    match metadata.try_get_string(key) {
        Some(text) => {
            *slot = text;
        },
        None => {},
    }
}

/// Appends the four brands that the metadata names, if it names them.
fn extend_brands(brands: &mut Vec<String>, metadata: &RawMetaData)
    ensures
        texts(final(brands)@) == brands_after(metadata@, texts(old(brands)@)),
{
    match metadata.try_get_string("compatible_brands") {
        Some(named) => {
            let text = named.as_str();
            if text.unicode_len() >= 16 {
                let ghost before = texts(brands@);
                brands.push(String::from_str(text.substring_char(0, 4)));
                brands.push(String::from_str(text.substring_char(4, 8)));
                brands.push(String::from_str(text.substring_char(8, 12)));
                brands.push(String::from_str(text.substring_char(12, 16)));
                assert(texts(brands@) =~= before.push(text@.subrange(0, 4)).push(
                    text@.subrange(4, 8),
                ).push(text@.subrange(8, 12)).push(text@.subrange(12, 16)));
            }
        },
        None => {},
    }
}

/// The model that the FLV header leaves of `before`.
pub open spec fn with_flv_header(before: ContextModel, header: FlvHeader) -> ContextModel {
    ContextModel {
        has_audio: header.type_flags_audio,
        has_video: header.type_flags_video,
        flv_header_configured: true,
        ..before
    }
}

/// The model that an audio configuration leaves of `before`.
pub open spec fn with_audio_config(
    before: ContextModel,
    config: AudioConfigurationLike,
) -> ContextModel {
    ContextModel {
        audio_codec_type: audio_parameters(config).0,
        audio_sample_rate: audio_parameters(config).1,
        audio_channels: audio_parameters(config).2,
        audio_metadata_configured: true,
        ..before
    }
}

/// The model that a video sequence header leaves of `before`.
pub open spec fn with_video_config(before: ContextModel, sequence_header: Seq<u8>) -> ContextModel {
    ContextModel {
        video_codec_type: VideoCodecType::Avc1,
        video_sequence_header: sequence_header,
        video_metadata_configured: true,
        ..before
    }
}

impl View for RemuxContext {
    type V = ContextModel;

    closed spec fn view(&self) -> ContextModel {
        ContextModel {
            fps: self.fps,
            fps_num: self.fps_num,
            duration_ms: self.duration_ms,
            width: self.width,
            height: self.height,
            has_audio: self.has_audio,
            has_video: self.has_video,
            audio_codec_id: self.audio_codec_id,
            audio_data_rate: self.audio_data_rate,
            audio_sample_rate: self.audio_sample_rate,
            audio_channels: self.audio_channels,
            video_codec_id: self.video_codec_id,
            video_data_rate: self.video_data_rate,
            major_brand: self.major_brand@,
            minor_version: self.minor_version@,
            compatible_brands: texts(self.compatible_brands@),
            video_codec_type: self.video_codec_type,
            audio_codec_type: self.audio_codec_type,
            video_sequence_header: self.video_sequence_header@,
            header_sent: self.header_sent,
            flv_header_configured: self.flv_header_configured,
            metadata_configured: self.metadata_configured,
            video_metadata_configured: self.video_metadata_configured,
            audio_metadata_configured: self.audio_metadata_configured,
        }
    }
}

/// The model of a context that knows nothing yet: no flag set, no codec,
/// every number zero, the brands of a plain ISO file.
pub open spec fn fresh_context() -> ContextModel {
    ContextModel {
        fps: 0,
        fps_num: 0,
        duration_ms: 0,
        width: 0,
        height: 0,
        has_audio: false,
        has_video: false,
        audio_codec_id: 0,
        audio_data_rate: 0,
        audio_sample_rate: 0,
        audio_channels: 0,
        video_codec_id: 0,
        video_data_rate: 0,
        major_brand: "isom"@,
        minor_version: "512"@,
        compatible_brands: seq!["isom"@, "iso2"@, "avc1"@, "mp41"@],
        video_codec_type: VideoCodecType::Unknown,
        audio_codec_type: AudioCodecType::Unknown,
        video_sequence_header: Seq::<u8>::empty(),
        header_sent: false,
        flv_header_configured: false,
        metadata_configured: false,
        video_metadata_configured: false,
        audio_metadata_configured: false,
    }
}

impl RemuxContext {
    /// A context that knows nothing yet.
    pub fn new() -> (ctx: Self)
        ensures
            ctx@ == fresh_context(),
    {
        let mut compatible_brands: Vec<String> = Vec::new();
        compatible_brands.push(String::from_str("isom"));
        compatible_brands.push(String::from_str("iso2"));
        compatible_brands.push(String::from_str("avc1"));
        compatible_brands.push(String::from_str("mp41"));
        assert(texts(compatible_brands@) =~= seq!["isom"@, "iso2"@, "avc1"@, "mp41"@]);
        Self {
            fps: 0,
            fps_num: 0,
            duration_ms: 0,
            width: 0,
            height: 0,
            has_audio: false,
            has_video: false,
            audio_codec_id: 0,
            audio_data_rate: 0,
            audio_sample_rate: 0,
            audio_channels: 0,
            video_codec_id: 0,
            video_data_rate: 0,
            major_brand: String::from_str("isom"),
            minor_version: String::from_str("512"),
            compatible_brands,
            video_codec_type: VideoCodecType::Unknown,
            audio_codec_type: AudioCodecType::Unknown,
            video_sequence_header: Vec::new(),
            header_sent: false,
            flv_header_configured: false,
            metadata_configured: false,
            video_metadata_configured: false,
            audio_metadata_configured: false,
        }
    }

    /// Absorbs the FLV header: which tracks the stream announces.
    pub fn parse_flv_header(&mut self, header: &FlvHeader)
        ensures
            final(self)@ == with_flv_header(old(self)@, *header),
    {
        self.has_audio = header.type_flags_audio;
        self.has_video = header.type_flags_video;
        self.flv_header_configured = true;
    }

    /// Absorbs the metadata: each field takes the value that the metadata
    /// names for it and keeps its previous value where there is none.
    pub fn parse_metadata(&mut self, metadata: &RawMetaData)
        ensures
            final(self)@ == with_metadata(old(self)@, metadata@),
    {
        self.duration_ms = thousandfold_as_u32(metadata, "duration", self.duration_ms);
        self.width = number_bits(metadata, "width", self.width);
        self.height = number_bits(metadata, "height", self.height);
        self.fps = number_bits(metadata, "framerate", self.fps);
        self.fps_num = thousandfold_as_u32(metadata, "framerate", self.fps_num);
        self.audio_codec_id = number_as_u8(metadata, "audiocodecid", self.audio_codec_id);
        self.audio_data_rate = number_as_u32(metadata, "audiodatarate", self.audio_data_rate);
        self.video_codec_id = number_as_u8(metadata, "videocodecid", self.video_codec_id);
        self.video_data_rate = number_as_u32(metadata, "videodatarate", self.video_data_rate);
        replace_text(&mut self.major_brand, metadata, "major_brand");
        replace_text(&mut self.minor_version, metadata, "minor_version");
        extend_brands(&mut self.compatible_brands, metadata);
        self.metadata_configured = true;
    }

    /// Takes the decoder configuration of the video track and marks the
    /// video codec as configured.
    pub fn configure_video_metadata(&mut self, sequence_header: Vec<u8>)
        ensures
            final(self)@ == with_video_config(old(self)@, sequence_header@),
    {
        self.video_codec_type = VideoCodecType::Avc1;
        self.video_sequence_header = sequence_header;
        self.video_metadata_configured = true;
    }

    /// Takes codec, sample rate and channel count of the audio track from
    /// `config` and marks the audio codec as configured.
    pub fn configure_audio_metadata(&mut self, config: &AudioConfigurationLike)
        ensures
            final(self)@ == with_audio_config(old(self)@, *config),
    {
        match config {
            AudioConfigurationLike::Aac(header) => {
                self.audio_codec_type = AudioCodecType::Aac;
                self.audio_sample_rate = aac_sample_rate_of(header.sampling_frequency_index);
                self.audio_channels = header.channel_configuration;
            },
            AudioConfigurationLike::Mp3(frame) => {
                self.audio_codec_type = AudioCodecType::Mp3;
                self.audio_sample_rate = frame.sample_rate;
                self.audio_channels =
                match frame.channel {
                    Channel::Mono => 1,
                    _ => 2,
                };
            },
        }
        self.audio_metadata_configured = true;
    }

    /// Whether all four sources have reported.
    pub fn is_configured(&self) -> (ready: bool)
        ensures
            ready == self@.configured(),
    {
        self.flv_header_configured && self.metadata_configured && self.video_metadata_configured
            && self.audio_metadata_configured
    }

    /// Whether the initialization segment was emitted.
    pub fn header_sent(&self) -> (sent: bool)
        ensures
            sent == self@.header_sent,
    {
        self.header_sent
    }

    /// Whether the initialization segment was emitted.
    pub fn is_header_sent(&self) -> (sent: bool)
        ensures
            sent == self@.header_sent,
    {
        self.header_sent
    }

    /// Latches the emitted flag: `true` sets it, `false` leaves it as it is.
    pub fn set_header_sent(&mut self, flag: bool)
        ensures
            final(self)@ == (ContextModel {
                header_sent: old(self)@.header_sent || flag,
                ..old(self)@
            }),
    {
        if flag {
            self.header_sent = true;
        }
    }

    /// The sample rate of the audio track.
    pub fn audio_rate(&self) -> (rate: u32)
        ensures
            rate == self@.audio_sample_rate,
    {
        self.audio_sample_rate
    }

    /// The frame rate of the video track in frames per thousand seconds.
    pub fn frame_rate_num(&self) -> (rate: u32)
        ensures
            rate == self@.fps_num,
    {
        self.fps_num
    }
}

/// One of the four calls that feed a context.
pub enum ContextCall {
    FlvHeader(FlvHeader),
    Metadata(Seq<PropModel>),
    VideoConfig(Seq<u8>),
    AudioConfig(AudioConfigurationLike),
}

/// The model that `call` leaves of `before`.
pub open spec fn after_call(before: ContextModel, call: ContextCall) -> ContextModel {
    match call {
        ContextCall::FlvHeader(header) => with_flv_header(before, header),
        ContextCall::Metadata(meta) => with_metadata(before, meta),
        ContextCall::VideoConfig(sequence_header) => with_video_config(before, sequence_header),
        ContextCall::AudioConfig(config) => with_audio_config(before, config),
    }
}

/// The model that the calls `calls`, made in this order, leave of `before`.
pub open spec fn after_calls(before: ContextModel, calls: Seq<ContextCall>) -> ContextModel
    decreases calls.len(),
{
    if calls.len() == 0 {
        before
    } else {
        after_call(after_calls(before, calls.drop_last()), calls.last())
    }
}

/// A context that starts with no flag set is configured after a sequence of
/// calls exactly if each of the four kinds of call occurs in it, in whatever
/// order and however often; and none of these calls touches the flag that
/// says whether the initialization segment went out.
pub proof fn lemma_configured_after_all_four(fresh: ContextModel, calls: Seq<ContextCall>)
    requires
        !fresh.flv_header_configured,
        !fresh.metadata_configured,
        !fresh.video_metadata_configured,
        !fresh.audio_metadata_configured,
    ensures
        after_calls(fresh, calls).flv_header_configured <==> exists|i: int|
            0 <= i < calls.len() && #[trigger] calls[i] is FlvHeader,
        after_calls(fresh, calls).metadata_configured <==> exists|i: int|
            0 <= i < calls.len() && #[trigger] calls[i] is Metadata,
        after_calls(fresh, calls).video_metadata_configured <==> exists|i: int|
            0 <= i < calls.len() && #[trigger] calls[i] is VideoConfig,
        after_calls(fresh, calls).audio_metadata_configured <==> exists|i: int|
            0 <= i < calls.len() && #[trigger] calls[i] is AudioConfig,
        after_calls(fresh, calls).configured() <==> {
            &&& exists|i: int| 0 <= i < calls.len() && #[trigger] calls[i] is FlvHeader
            &&& exists|i: int| 0 <= i < calls.len() && #[trigger] calls[i] is Metadata
            &&& exists|i: int| 0 <= i < calls.len() && #[trigger] calls[i] is VideoConfig
            &&& exists|i: int| 0 <= i < calls.len() && #[trigger] calls[i] is AudioConfig
        },
        after_calls(fresh, calls).header_sent == fresh.header_sent,
    decreases calls.len(),
{
    if calls.len() > 0 {
        let earlier = calls.drop_last();
        lemma_configured_after_all_four(fresh, earlier);
        let last = calls.len() - 1;
        assert forall|i: int| 0 <= i < earlier.len() implies earlier[i] == calls[i] by {}
        if exists|i: int| 0 <= i < earlier.len() && #[trigger] earlier[i] is FlvHeader {
            let i = choose|i: int| 0 <= i < earlier.len() && #[trigger] earlier[i] is FlvHeader;
            assert(calls[i] is FlvHeader);
        }
        if exists|i: int| 0 <= i < earlier.len() && #[trigger] earlier[i] is Metadata {
            let i = choose|i: int| 0 <= i < earlier.len() && #[trigger] earlier[i] is Metadata;
            assert(calls[i] is Metadata);
        }
        if exists|i: int| 0 <= i < earlier.len() && #[trigger] earlier[i] is VideoConfig {
            let i = choose|i: int| 0 <= i < earlier.len() && #[trigger] earlier[i] is VideoConfig;
            assert(calls[i] is VideoConfig);
        }
        if exists|i: int| 0 <= i < earlier.len() && #[trigger] earlier[i] is AudioConfig {
            let i = choose|i: int| 0 <= i < earlier.len() && #[trigger] earlier[i] is AudioConfig;
            assert(calls[i] is AudioConfig);
        }
        if exists|i: int| 0 <= i < calls.len() && #[trigger] calls[i] is FlvHeader {
            let i = choose|i: int| 0 <= i < calls.len() && #[trigger] calls[i] is FlvHeader;
            if i < last {
                assert(earlier[i] is FlvHeader);
            }
        }
        if exists|i: int| 0 <= i < calls.len() && #[trigger] calls[i] is Metadata {
            let i = choose|i: int| 0 <= i < calls.len() && #[trigger] calls[i] is Metadata;
            if i < last {
                assert(earlier[i] is Metadata);
            }
        }
        if exists|i: int| 0 <= i < calls.len() && #[trigger] calls[i] is VideoConfig {
            let i = choose|i: int| 0 <= i < calls.len() && #[trigger] calls[i] is VideoConfig;
            if i < last {
                assert(earlier[i] is VideoConfig);
            }
        }
        if exists|i: int| 0 <= i < calls.len() && #[trigger] calls[i] is AudioConfig {
            let i = choose|i: int| 0 <= i < calls.len() && #[trigger] calls[i] is AudioConfig;
            if i < last {
                assert(earlier[i] is AudioConfig);
            }
        }
        assert(calls[last] == calls.last());
    }
}

/// The model after the test that the remuxer repeats: where the
/// initialization segment is due, it goes out and the flag is set.
pub open spec fn after_due_test(before: ContextModel) -> ContextModel {
    if before.init_segment_due() {
        ContextModel { header_sent: true, ..before }
    } else {
        before
    }
}

/// The number of times that the flag is set while the test is repeated
/// `times` times.
pub open spec fn flips(before: ContextModel, times: nat) -> nat
    decreases times,
{
    if times == 0 {
        0
    } else {
        (if before.init_segment_due() {
            1nat
        } else {
            0nat
        }) + flips(after_due_test(before), (times - 1) as nat)
    }
}

/// However often the test is repeated on a configured context, the flag is
/// set exactly once if it was not set before, and never if it was.
pub proof fn lemma_header_sent_flips_once(before: ContextModel, times: nat)
    requires
        before.configured(),
        times >= 1,
    ensures
        flips(before, times) == if before.header_sent {
            0nat
        } else {
            1nat
        },
    decreases times,
{
    if times > 1 {
        lemma_header_sent_flips_once(after_due_test(before), (times - 1) as nat);
    } else {
        assert(flips(after_due_test(before), 0) == 0);
    }
}

/// The kind of a track.
#[derive(Clone, Copy, Debug, PartialEq, Eq, Structural)]
pub enum TrackType {
    Audio,
    Video,
}

/// The identity of a track and the number of its next fragment.
#[derive(Clone, Copy, Debug, PartialEq, Eq, Structural)]
pub struct TrackContext {
    pub track_id: u32,
    pub track_type: TrackType,
    /// Starts at one and grows by one with each emitted sample.
    pub sequence_number: u32,
}

impl TrackContext {
    pub fn new(track_id: u32, track_type: TrackType) -> (track: Self)
        ensures
            track == (TrackContext { track_id, track_type, sequence_number: 1 }),
    {
        Self { track_id, track_type, sequence_number: 1 }
    }
}

/// What the fragment header says of one sample.
#[derive(Clone, Copy, Debug, PartialEq, Eq, Structural)]
pub struct SampleContext {
    /// In units of the output clock.
    pub decode_time: u64,
    pub sample_size: u32,
    /// In units of the output clock.
    pub sample_duration: u32,
    pub composition_time_offset: i32,
    pub is_keyframe: bool,
    pub is_leading: bool,
    pub is_non_sync: bool,
    pub has_redundancy: bool,
}

/// Builds a `SampleContext` field by field; what is not set is zero or
/// `false`.
#[derive(Clone, Copy, Debug, PartialEq, Eq, Structural)]
pub struct SampleContextBuilder {
    pub sample: SampleContext,
}

impl SampleContextBuilder {
    pub fn new() -> (builder: Self)
        ensures
            builder.sample == (SampleContext {
                decode_time: 0,
                sample_size: 0,
                sample_duration: 0,
                composition_time_offset: 0,
                is_keyframe: false,
                is_leading: false,
                is_non_sync: false,
                has_redundancy: false,
            }),
    {
        Self {
            sample: SampleContext {
                decode_time: 0,
                sample_size: 0,
                sample_duration: 0,
                composition_time_offset: 0,
                is_keyframe: false,
                is_leading: false,
                is_non_sync: false,
                has_redundancy: false,
            },
        }
    }

    pub fn set_decode_time(self, decode_time: u64) -> (builder: Self)
        ensures
            builder.sample == (SampleContext { decode_time, ..self.sample }),
    {
        Self { sample: SampleContext { decode_time, ..self.sample } }
    }

    pub fn set_sample_size(self, sample_size: u32) -> (builder: Self)
        ensures
            builder.sample == (SampleContext { sample_size, ..self.sample }),
    {
        Self { sample: SampleContext { sample_size, ..self.sample } }
    }

    pub fn set_sample_duration(self, sample_duration: u32) -> (builder: Self)
        ensures
            builder.sample == (SampleContext { sample_duration, ..self.sample }),
    {
        Self { sample: SampleContext { sample_duration, ..self.sample } }
    }

    pub fn set_composition_time_offset(self, composition_time_offset: i32) -> (builder: Self)
        ensures
            builder.sample == (SampleContext { composition_time_offset, ..self.sample }),
    {
        Self { sample: SampleContext { composition_time_offset, ..self.sample } }
    }

    pub fn set_is_keyframe(self, is_keyframe: bool) -> (builder: Self)
        ensures
            builder.sample == (SampleContext { is_keyframe, ..self.sample }),
    {
        Self { sample: SampleContext { is_keyframe, ..self.sample } }
    }

    pub fn set_is_leading(self, is_leading: bool) -> (builder: Self)
        ensures
            builder.sample == (SampleContext { is_leading, ..self.sample }),
    {
        Self { sample: SampleContext { is_leading, ..self.sample } }
    }

    pub fn set_is_non_sync(self, is_non_sync: bool) -> (builder: Self)
        ensures
            builder.sample == (SampleContext { is_non_sync, ..self.sample }),
    {
        Self { sample: SampleContext { is_non_sync, ..self.sample } }
    }

    pub fn set_has_redundancy(self, has_redundancy: bool) -> (builder: Self)
        ensures
            builder.sample == (SampleContext { has_redundancy, ..self.sample }),
    {
        Self { sample: SampleContext { has_redundancy, ..self.sample } }
    }

    pub fn build(self) -> (sample: SampleContext)
        ensures
            sample == self.sample,
    {
        self.sample
    }
}

} // verus!
