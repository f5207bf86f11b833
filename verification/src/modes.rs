//! The named modes of a service: video codecs, Android GPU modes and stream
//! quality profiles.
use vstd::prelude::*;

use crate::error::SimdeckError;
use crate::numbers::{decimal, decimal_text};
use crate::text::{
    ascii_lowercase, ascii_lowered, option_view, owned, replace_char, replaced, str_eq, trim,
    trimmed,
};

verus! {

#[derive(Clone, Copy, Debug, PartialEq, Eq, Structural)]
pub enum VideoCodecMode {
    Auto,
    Hardware,
    Software,
}

#[derive(Clone, Copy, Debug, PartialEq, Eq, Structural)]
pub enum AndroidGpuMode {
    Auto,
    Host,
    Software,
    Lavapipe,
    Swiftshader,
    Swangle,
    SwiftshaderIndirect,
}

#[derive(Clone, Copy, Debug, PartialEq, Eq, Structural)]
pub enum StreamQualityProfileArg {
    Quality,
    Full,
    Balanced,
    Fast,
    Smooth,
    Economy,
    Low,
    Tiny,
    CiSoftware,
}

impl VideoCodecMode {
    /// The name of the mode in environment variables and arguments.
    pub open spec fn env_value(self) -> Seq<char> {
        match self {
            VideoCodecMode::Auto => "auto"@,
            VideoCodecMode::Hardware => "hardware"@,
            VideoCodecMode::Software => "software"@,
        }
    }

    pub fn as_env_value(self) -> (value: &'static str)
        ensures
            value@ == self.env_value(),
    {
        match self {
            VideoCodecMode::Auto => "auto",
            VideoCodecMode::Hardware => "hardware",
            VideoCodecMode::Software => "software",
        }
    }
}

impl AndroidGpuMode {
    /// The name of the mode as the Android emulator takes it.
    pub open spec fn emulator_value(self) -> Seq<char> {
        match self {
            AndroidGpuMode::Auto => "auto"@,
            AndroidGpuMode::Host => "host"@,
            AndroidGpuMode::Software => "software"@,
            AndroidGpuMode::Lavapipe => "lavapipe"@,
            AndroidGpuMode::Swiftshader => "swiftshader"@,
            AndroidGpuMode::Swangle => "swangle"@,
            AndroidGpuMode::SwiftshaderIndirect => "swiftshader_indirect"@,
        }
    }

    pub fn as_emulator_value(self) -> (value: &'static str)
        ensures
            value@ == self.emulator_value(),
    {
        match self {
            AndroidGpuMode::Auto => "auto",
            AndroidGpuMode::Host => "host",
            AndroidGpuMode::Software => "software",
            AndroidGpuMode::Lavapipe => "lavapipe",
            AndroidGpuMode::Swiftshader => "swiftshader",
            AndroidGpuMode::Swangle => "swangle",
            AndroidGpuMode::SwiftshaderIndirect => "swiftshader_indirect",
        }
    }
}

impl StreamQualityProfileArg {
    /// The identifier of the profile.
    pub open spec fn profile_id(self) -> Seq<char> {
        match self {
            StreamQualityProfileArg::Quality => "quality"@,
            StreamQualityProfileArg::Full => "full"@,
            StreamQualityProfileArg::Balanced => "balanced"@,
            StreamQualityProfileArg::Fast => "fast"@,
            StreamQualityProfileArg::Smooth => "smooth"@,
            StreamQualityProfileArg::Economy => "economy"@,
            StreamQualityProfileArg::Low => "low"@,
            StreamQualityProfileArg::Tiny => "tiny"@,
            StreamQualityProfileArg::CiSoftware => "ci-software"@,
        }
    }

    pub fn as_profile_id(self) -> (id: &'static str)
        ensures
            id@ == self.profile_id(),
    {
        match self {
            StreamQualityProfileArg::Quality => "quality",
            StreamQualityProfileArg::Full => "full",
            StreamQualityProfileArg::Balanced => "balanced",
            StreamQualityProfileArg::Fast => "fast",
            StreamQualityProfileArg::Smooth => "smooth",
            StreamQualityProfileArg::Economy => "economy",
            StreamQualityProfileArg::Low => "low",
            StreamQualityProfileArg::Tiny => "tiny",
            StreamQualityProfileArg::CiSoftware => "ci-software",
        }
    }
}

/// The video codec mode that a text names.
pub open spec fn video_codec_mode(value: Seq<char>) -> Option<VideoCodecMode> {
    if value == "auto"@ {
        Some(VideoCodecMode::Auto)
    } else if value == "hardware"@ {
        Some(VideoCodecMode::Hardware)
    } else if value == "software"@ || value == "h264-software"@ {
        Some(VideoCodecMode::Software)
    } else {
        None
    }
}

pub fn parse_video_codec_mode(value: &str) -> (mode: Option<VideoCodecMode>)
    ensures
        mode == video_codec_mode(value@),
{
    if str_eq(value, "auto") {
        Some(VideoCodecMode::Auto)
    } else if str_eq(value, "hardware") {
        Some(VideoCodecMode::Hardware)
    } else if str_eq(value, "software") || str_eq(value, "h264-software") {
        Some(VideoCodecMode::Software)
    } else {
        None
    }
}

/// The Android GPU mode with the given emulator name.
pub open spec fn android_gpu_mode_named(name: Seq<char>) -> Option<AndroidGpuMode> {
    if name == "auto"@ {
        Some(AndroidGpuMode::Auto)
    } else if name == "host"@ {
        Some(AndroidGpuMode::Host)
    } else if name == "software"@ {
        Some(AndroidGpuMode::Software)
    } else if name == "lavapipe"@ {
        Some(AndroidGpuMode::Lavapipe)
    } else if name == "swiftshader"@ {
        Some(AndroidGpuMode::Swiftshader)
    } else if name == "swangle"@ {
        Some(AndroidGpuMode::Swangle)
    } else if name == "swiftshader_indirect"@ {
        Some(AndroidGpuMode::SwiftshaderIndirect)
    } else {
        None
    }
}

/// The Android GPU mode that a text names, whatever its case, the white space
/// around it, and whether it is written with `-` or `_`.
pub open spec fn android_gpu_mode(value: Seq<char>) -> Option<AndroidGpuMode> {
    android_gpu_mode_named(replaced(ascii_lowered(trimmed(value)), '-', '_'))
}

pub fn parse_android_gpu_mode(value: &str) -> (mode: Option<AndroidGpuMode>)
    ensures
        mode == android_gpu_mode(value@),
{
    let trimmed_value = trim(value);
    let lowered = ascii_lowercase(trimmed_value.as_str());
    let name = replace_char(lowered.as_str(), '-', '_');
    let name = name.as_str();
    if str_eq(name, "auto") {
        Some(AndroidGpuMode::Auto)
    } else if str_eq(name, "host") {
        Some(AndroidGpuMode::Host)
    } else if str_eq(name, "software") {
        Some(AndroidGpuMode::Software)
    } else if str_eq(name, "lavapipe") {
        Some(AndroidGpuMode::Lavapipe)
    } else if str_eq(name, "swiftshader") {
        Some(AndroidGpuMode::Swiftshader)
    } else if str_eq(name, "swangle") {
        Some(AndroidGpuMode::Swangle)
    } else if str_eq(name, "swiftshader_indirect") {
        Some(AndroidGpuMode::SwiftshaderIndirect)
    } else {
        None
    }
}

/// The stream quality profile that a text names.
pub open spec fn stream_quality_profile(value: Seq<char>) -> Option<StreamQualityProfileArg> {
    if value == "quality"@ {
        Some(StreamQualityProfileArg::Quality)
    } else if value == "full"@ {
        Some(StreamQualityProfileArg::Full)
    } else if value == "balanced"@ {
        Some(StreamQualityProfileArg::Balanced)
    } else if value == "fast"@ {
        Some(StreamQualityProfileArg::Fast)
    } else if value == "smooth"@ {
        Some(StreamQualityProfileArg::Smooth)
    } else if value == "economy"@ {
        Some(StreamQualityProfileArg::Economy)
    } else if value == "low"@ {
        Some(StreamQualityProfileArg::Low)
    } else if value == "tiny"@ {
        Some(StreamQualityProfileArg::Tiny)
    } else if value == "ci-software"@ {
        Some(StreamQualityProfileArg::CiSoftware)
    } else {
        None
    }
}

pub fn parse_stream_quality_profile(value: &str) -> (profile: Option<StreamQualityProfileArg>)
    ensures
        profile == stream_quality_profile(value@),
{
    if str_eq(value, "quality") {
        Some(StreamQualityProfileArg::Quality)
    } else if str_eq(value, "full") {
        Some(StreamQualityProfileArg::Full)
    } else if str_eq(value, "balanced") {
        Some(StreamQualityProfileArg::Balanced)
    } else if str_eq(value, "fast") {
        Some(StreamQualityProfileArg::Fast)
    } else if str_eq(value, "smooth") {
        Some(StreamQualityProfileArg::Smooth)
    } else if str_eq(value, "economy") {
        Some(StreamQualityProfileArg::Economy)
    } else if str_eq(value, "low") {
        Some(StreamQualityProfileArg::Low)
    } else if str_eq(value, "tiny") {
        Some(StreamQualityProfileArg::Tiny)
    } else if str_eq(value, "ci-software") {
        Some(StreamQualityProfileArg::CiSoftware)
    } else {
        None
    }
}

proof fn lemma_codec_literals()
    ensures
        "auto"@ =~= seq!['a', 'u', 't', 'o'],
        "hardware"@ =~= seq!['h', 'a', 'r', 'd', 'w', 'a', 'r', 'e'],
        "software"@ =~= seq!['s', 'o', 'f', 't', 'w', 'a', 'r', 'e'],
{
    reveal_strlit("auto");
    reveal_strlit("hardware");
    reveal_strlit("software");
}

/// The name of a video codec mode names that mode.
pub proof fn video_codec_mode_reads_back(mode: VideoCodecMode)
    ensures
        video_codec_mode(mode.env_value()) == Some(mode),
{
    lemma_codec_literals();
    assert("auto"@.len() == 4 && "hardware"@.len() == 8 && "software"@.len() == 8);
    assert("hardware"@[0] == 'h' && "software"@[0] == 's');
}

proof fn lemma_gpu_literals()
    ensures
        "auto"@ =~= seq!['a', 'u', 't', 'o'],
        "host"@ =~= seq!['h', 'o', 's', 't'],
        "software"@ =~= seq!['s', 'o', 'f', 't', 'w', 'a', 'r', 'e'],
        "lavapipe"@ =~= seq!['l', 'a', 'v', 'a', 'p', 'i', 'p', 'e'],
        "swiftshader"@ =~= seq!['s', 'w', 'i', 'f', 't', 's', 'h', 'a', 'd', 'e', 'r'],
        "swangle"@ =~= seq!['s', 'w', 'a', 'n', 'g', 'l', 'e'],
        "swiftshader_indirect"@ =~= seq![
            's', 'w', 'i', 'f', 't', 's', 'h', 'a', 'd', 'e', 'r', '_', 'i', 'n', 'd', 'i', 'r',
            'e', 'c', 't',
        ],
{
    reveal_strlit("auto");
    reveal_strlit("host");
    reveal_strlit("software");
    reveal_strlit("lavapipe");
    reveal_strlit("swiftshader");
    reveal_strlit("swangle");
    reveal_strlit("swiftshader_indirect");
}

/// The emulator's name of an Android GPU mode names that mode.
pub proof fn android_gpu_mode_reads_back(mode: AndroidGpuMode)
    ensures
        android_gpu_mode(mode.emulator_value()) == Some(mode),
{
    lemma_gpu_literals();
    let name = mode.emulator_value();
    assert(name.len() > 0);
    assert(forall|i: int| 0 <= i < name.len() ==> 'a' <= #[trigger] name[i] <= 'z' || name[i]
        == '_');
    assert(trimmed(name) == name);
    assert(ascii_lowered(name) =~= name);
    assert(replaced(name, '-', '_') =~= name);
    assert("auto"@.len() == 4 && "host"@.len() == 4 && "software"@.len() == 8 && "lavapipe"@.len()
        == 8 && "swiftshader"@.len() == 11 && "swangle"@.len() == 7
        && "swiftshader_indirect"@.len() == 20);
    assert("auto"@[0] == 'a' && "host"@[0] == 'h' && "software"@[0] == 's' && "lavapipe"@[0]
        == 'l');
}

/// The identifier of a stream quality profile names that profile.
pub proof fn stream_quality_profile_reads_back(profile: StreamQualityProfileArg)
    ensures
        stream_quality_profile(profile.profile_id()) == Some(profile),
{
    reveal_strlit("quality");
    reveal_strlit("full");
    reveal_strlit("balanced");
    reveal_strlit("fast");
    reveal_strlit("smooth");
    reveal_strlit("economy");
    reveal_strlit("low");
    reveal_strlit("tiny");
    reveal_strlit("ci-software");
    assert("quality"@.len() == 7 && "economy"@.len() == 7 && "full"@.len() == 4 && "fast"@.len()
        == 4 && "tiny"@.len() == 4 && "balanced"@.len() == 8 && "smooth"@.len() == 6
        && "low"@.len() == 3 && "ci-software"@.len() == 11);
    assert("quality"@[0] == 'q' && "economy"@[0] == 'e' && "full"@[1] == 'u' && "fast"@[1] == 'a'
        && "tiny"@[1] == 'i');
}

/// The limits that a stream quality profile sets.
#[derive(Clone, Copy, Debug, PartialEq, Eq, Structural)]
pub struct StreamQualityLimits {
    pub max_edge: u32,
    pub fps: u32,
    pub min_bitrate: u32,
    pub bits_per_pixel: u32,
}

/// A stream quality profile with its limits, as a service's environment holds it.
#[derive(Debug)]
pub struct StreamQualityEnvironment {
    pub profile: &'static str,
    pub limits: StreamQualityLimits,
}

/// The limits of each stream quality profile.
pub open spec fn profile_limits(profile: StreamQualityProfileArg) -> StreamQualityLimits {
    match profile {
        StreamQualityProfileArg::Quality => StreamQualityLimits {
            max_edge: 4096,
            fps: 60,
            min_bitrate: 60_000_000,
            bits_per_pixel: 10,
        },
        StreamQualityProfileArg::Full => StreamQualityLimits {
            max_edge: 4096,
            fps: 60,
            min_bitrate: 12_000_000,
            bits_per_pixel: 4,
        },
        StreamQualityProfileArg::Balanced => StreamQualityLimits {
            max_edge: 1280,
            fps: 60,
            min_bitrate: 6_000_000,
            bits_per_pixel: 5,
        },
        StreamQualityProfileArg::Fast => StreamQualityLimits {
            max_edge: 960,
            fps: 30,
            min_bitrate: 2_500_000,
            bits_per_pixel: 3,
        },
        StreamQualityProfileArg::Smooth => StreamQualityLimits {
            max_edge: 4096,
            fps: 60,
            min_bitrate: 4_000_000,
            bits_per_pixel: 5,
        },
        StreamQualityProfileArg::Economy => StreamQualityLimits {
            max_edge: 1080,
            fps: 30,
            min_bitrate: 3_500_000,
            bits_per_pixel: 6,
        },
        StreamQualityProfileArg::Low => StreamQualityLimits {
            max_edge: 720,
            fps: 30,
            min_bitrate: 2_000_000,
            bits_per_pixel: 5,
        },
        StreamQualityProfileArg::Tiny => StreamQualityLimits {
            max_edge: 540,
            fps: 30,
            min_bitrate: 1_200_000,
            bits_per_pixel: 4,
        },
        StreamQualityProfileArg::CiSoftware => StreamQualityLimits {
            max_edge: 960,
            fps: 24,
            min_bitrate: 1_200_000,
            bits_per_pixel: 2,
        },
    }
}

fn limits_of_profile(profile: StreamQualityProfileArg) -> (limits: StreamQualityLimits)
    ensures
        limits == profile_limits(profile),
{
    let (max_edge, fps, min_bitrate, bits_per_pixel): (u32, u32, u32, u32) = match profile {
        StreamQualityProfileArg::Quality => (4096, 60, 60_000_000, 10),
        StreamQualityProfileArg::Full => (4096, 60, 12_000_000, 4),
        StreamQualityProfileArg::Balanced => (1280, 60, 6_000_000, 5),
        StreamQualityProfileArg::Fast => (960, 30, 2_500_000, 3),
        StreamQualityProfileArg::Smooth => (4096, 60, 4_000_000, 5),
        StreamQualityProfileArg::Economy => (1080, 30, 3_500_000, 6),
        StreamQualityProfileArg::Low => (720, 30, 2_000_000, 5),
        StreamQualityProfileArg::Tiny => (540, 30, 1_200_000, 4),
        StreamQualityProfileArg::CiSoftware => (960, 24, 1_200_000, 2),
    };
    StreamQualityLimits { max_edge, fps, min_bitrate, bits_per_pixel }
}

/// Looks up the limits of a profile by its identifier.
pub fn stream_quality_env_for_profile(profile: &str) -> (result: Result<
    StreamQualityEnvironment,
    SimdeckError,
>)
    ensures
        match result {
            Ok(environment) => {
                &&& stream_quality_profile(profile@) is Some
                &&& environment.profile@ == profile@
                &&& environment.limits == profile_limits(stream_quality_profile(profile@)->Some_0)
            },
            Err(error) => {
                &&& stream_quality_profile(profile@) is None
                &&& error.text() == "Unknown stream quality profile `"@ + profile@ + "`."@
            },
        },
{
    match parse_stream_quality_profile(profile) {
        Some(found) => Ok(
            StreamQualityEnvironment {
                profile: found.as_profile_id(),
                limits: limits_of_profile(found),
            },
        ),
        None => {
            let mut message = owned("Unknown stream quality profile `");
            message.append(profile);
            message.append("`.");
            Err(SimdeckError::new(message))
        },
    }
}

/// A variable of a process's environment.
#[derive(Debug)]
pub struct Variable {
    pub name: &'static str,
    pub value: String,
}

impl View for Variable {
    type V = (Seq<char>, Seq<char>);

    open spec fn view(&self) -> (Seq<char>, Seq<char>) {
        (self.name@, self.value@)
    }
}

/// The name and value of each variable of a list.
pub open spec fn variable_views(list: Seq<Variable>) -> Seq<(Seq<char>, Seq<char>)> {
    list.map_values(|v: Variable| v@)
}

/// The variables that carry a stream quality profile.
pub open spec fn stream_quality_variables(
    profile: Seq<char>,
    limits: StreamQualityLimits,
) -> Seq<(Seq<char>, Seq<char>)> {
    seq![
        ("SIMDECK_STREAM_QUALITY_PROFILE"@, profile),
        ("SIMDECK_REALTIME_MAX_EDGE"@, decimal(limits.max_edge as nat)),
        ("SIMDECK_REALTIME_FPS"@, decimal(limits.fps as nat)),
        ("SIMDECK_REALTIME_MIN_BITRATE"@, decimal(limits.min_bitrate as nat)),
        ("SIMDECK_REALTIME_BITS_PER_PIXEL"@, decimal(limits.bits_per_pixel as nat)),
    ]
}

/// The variables that a stream quality profile sets in the environment.
pub fn stream_quality_environment_variables(environment: &StreamQualityEnvironment) -> (variables:
    Vec<Variable>)
    ensures
        variable_views(variables@) == stream_quality_variables(
            environment.profile@,
            environment.limits,
        ),
{
    let mut variables: Vec<Variable> = Vec::new();
    variables.push(
        Variable {
            name: "SIMDECK_STREAM_QUALITY_PROFILE",
            value: owned(environment.profile),
        },
    );
    variables.push(
        Variable {
            name: "SIMDECK_REALTIME_MAX_EDGE",
            value: decimal_text(environment.limits.max_edge as u64),
        },
    );
    variables.push(
        Variable {
            name: "SIMDECK_REALTIME_FPS",
            value: decimal_text(environment.limits.fps as u64),
        },
    );
    variables.push(
        Variable {
            name: "SIMDECK_REALTIME_MIN_BITRATE",
            value: decimal_text(environment.limits.min_bitrate as u64),
        },
    );
    variables.push(
        Variable {
            name: "SIMDECK_REALTIME_BITS_PER_PIXEL",
            value: decimal_text(environment.limits.bits_per_pixel as u64),
        },
    );
    assert(variable_views(variables@) =~= stream_quality_variables(
        environment.profile@,
        environment.limits,
    ));
    variables
}

/// The variables that applying a profile by its identifier sets.
pub fn apply_stream_quality_environment(profile: &str) -> (result: Result<Vec<Variable>, SimdeckError>)
    ensures
        match result {
            Ok(variables) => {
                &&& stream_quality_profile(profile@) is Some
                &&& variable_views(variables@) == stream_quality_variables(
                    profile@,
                    profile_limits(stream_quality_profile(profile@)->Some_0),
                )
            },
            Err(error) => {
                &&& stream_quality_profile(profile@) is None
                &&& error.text() == "Unknown stream quality profile `"@ + profile@ + "`."@
            },
        },
{
    match stream_quality_env_for_profile(profile) {
        Ok(environment) => Ok(stream_quality_environment_variables(&environment)),
        Err(error) => Err(error),
    }
}

/// The profile of a local stream: the requested one, else `full` unless low
/// latency is asked for.
pub open spec fn local_profile(
    low_latency: bool,
    requested: Option<StreamQualityProfileArg>,
) -> Option<Seq<char>> {
    match requested {
        Some(profile) => Some(profile.profile_id()),
        None => if low_latency {
            None
        } else {
            Some("full"@)
        },
    }
}

pub fn local_stream_quality_profile(
    low_latency: bool,
    requested: Option<StreamQualityProfileArg>,
) -> (profile: Option<String>)
    ensures
        option_view(profile) == local_profile(low_latency, requested),
{
    match requested {
        Some(profile) => Some(owned(profile.as_profile_id())),
        None => if low_latency {
            None
        } else {
            Some(owned("full"))
        },
    }
}

/// The profile of a stream through the studio: the requested one, else
/// `smooth` for software encoding without low latency.
pub open spec fn studio_profile(
    video_codec: VideoCodecMode,
    low_latency: bool,
    requested: Option<StreamQualityProfileArg>,
) -> Option<Seq<char>> {
    match requested {
        Some(profile) => Some(profile.profile_id()),
        None => if video_codec == VideoCodecMode::Software && !low_latency {
            Some("smooth"@)
        } else {
            None
        },
    }
}

pub fn studio_stream_quality_profile(
    video_codec: VideoCodecMode,
    low_latency: bool,
    requested: Option<StreamQualityProfileArg>,
) -> (profile: Option<String>)
    ensures
        option_view(profile) == studio_profile(video_codec, low_latency, requested),
{
    match requested {
        Some(profile) => Some(owned(profile.as_profile_id())),
        None => if video_codec == VideoCodecMode::Software && !low_latency {
            Some(owned("smooth"))
        } else {
            None
        },
    }
}

/// Every profile that the library itself chooses is one that it knows.
pub proof fn chosen_profiles_are_known(
    video_codec: VideoCodecMode,
    low_latency: bool,
    requested: Option<StreamQualityProfileArg>,
)
    ensures
        local_profile(low_latency, requested) matches Some(id) ==> stream_quality_profile(
            id,
        ) is Some,
        studio_profile(video_codec, low_latency, requested) matches Some(id)
            ==> stream_quality_profile(id) is Some,
{
    match requested {
        Some(profile) => stream_quality_profile_reads_back(profile),
        None => {
            stream_quality_profile_reads_back(StreamQualityProfileArg::Full);
            stream_quality_profile_reads_back(StreamQualityProfileArg::Smooth);
        },
    }
}

/// The modes go by these names, and a text that names one is its name, or, of
/// encoding in software, the name that says for which codec.
pub proof fn video_codec_modes_go_by_their_names(mode: VideoCodecMode, value: Seq<char>)
    ensures
        mode is Auto ==> mode.env_value() == "auto"@,
        mode is Hardware ==> mode.env_value() == "hardware"@,
        mode is Software ==> mode.env_value() == "software"@,
        video_codec_mode(value) == Some(mode) <==> value == mode.env_value() || (mode is Software
            && value == "h264-software"@),
{
    video_codec_mode_reads_back(mode);
    reveal_strlit("auto");
    reveal_strlit("hardware");
    reveal_strlit("software");
    reveal_strlit("h264-software");
    assert("auto"@.len() == 4 && "hardware"@.len() == 8 && "software"@.len() == 8
        && "h264-software"@.len() == 13);
    assert("hardware"@[0] == 'h' && "software"@[0] == 's');
}

/// The emulator knows the modes by these names, and a text names one exactly where
/// it is its name but for case, dashes and white space around it.
pub proof fn android_gpu_modes_go_by_their_names(mode: AndroidGpuMode, value: Seq<char>)
    ensures
        mode is Auto ==> mode.emulator_value() == "auto"@,
        mode is Host ==> mode.emulator_value() == "host"@,
        mode is Software ==> mode.emulator_value() == "software"@,
        mode is Lavapipe ==> mode.emulator_value() == "lavapipe"@,
        mode is Swiftshader ==> mode.emulator_value() == "swiftshader"@,
        mode is Swangle ==> mode.emulator_value() == "swangle"@,
        mode is SwiftshaderIndirect ==> mode.emulator_value() == "swiftshader_indirect"@,
        android_gpu_mode(value) == Some(mode) <==> replaced(
            ascii_lowered(trimmed(value)),
            '-',
            '_',
        ) == mode.emulator_value(),
{
    lemma_gpu_literals();
    assert("auto"@.len() == 4 && "host"@.len() == 4 && "software"@.len() == 8 && "lavapipe"@.len()
        == 8 && "swiftshader"@.len() == 11 && "swangle"@.len() == 7
        && "swiftshader_indirect"@.len() == 20);
    assert("auto"@[0] == 'a' && "host"@[0] == 'h' && "software"@[0] == 's' && "lavapipe"@[0]
        == 'l');
}

/// A text names a profile exactly where it is the profile's identifier.
pub proof fn profiles_go_by_their_identifiers(profile: StreamQualityProfileArg, value: Seq<char>)
    ensures
        stream_quality_profile(value) == Some(profile) <==> value == profile.profile_id(),
        profile is Quality ==> profile.profile_id() == "quality"@,
        profile is Full ==> profile.profile_id() == "full"@,
        profile is Balanced ==> profile.profile_id() == "balanced"@,
        profile is Fast ==> profile.profile_id() == "fast"@,
        profile is Smooth ==> profile.profile_id() == "smooth"@,
        profile is Economy ==> profile.profile_id() == "economy"@,
        profile is Low ==> profile.profile_id() == "low"@,
        profile is Tiny ==> profile.profile_id() == "tiny"@,
        profile is CiSoftware ==> profile.profile_id() == "ci-software"@,
{
    stream_quality_profile_reads_back(profile);
}

/// The place of a profile among all of them, the one that asks for most first.
pub open spec fn profile_rank(profile: StreamQualityProfileArg) -> int {
    match profile {
        StreamQualityProfileArg::Quality => 0,
        StreamQualityProfileArg::Full => 1,
        StreamQualityProfileArg::Balanced => 2,
        StreamQualityProfileArg::Smooth => 3,
        StreamQualityProfileArg::Economy => 4,
        StreamQualityProfileArg::Fast => 5,
        StreamQualityProfileArg::Low => 6,
        StreamQualityProfileArg::Tiny => 7,
        StreamQualityProfileArg::CiSoftware => 7,
    }
}

/// A profile that ranks before another asks for more bits a second. All of them
/// send between 24 and 60 pictures a second; those that are not to be cut down to a
/// size send pictures of up to 4096 pixels, the others of less than 1300, and 60
/// pictures a second are sent by the four that rank first alone.
pub proof fn better_profiles_ask_for_more(
    first: StreamQualityProfileArg,
    second: StreamQualityProfileArg,
)
    ensures
        profile_rank(first) < profile_rank(second) <==> profile_limits(first).min_bitrate
            > profile_limits(second).min_bitrate,
        24 <= profile_limits(first).fps <= 60,
        profile_limits(first).fps == 60 <==> profile_rank(first) <= 3,
        profile_limits(first).fps == 24 <==> first is CiSoftware,
        profile_limits(first).fps == 60 || profile_limits(first).fps == 30
            || profile_limits(first).fps == 24,
        profile_limits(first).max_edge == 4096 <==> first is Quality || first is Full
            || first is Smooth,
        profile_limits(first).max_edge <= 4096,
        profile_limits(first).max_edge < 4096 ==> 540 <= profile_limits(first).max_edge <= 1280,
        2 <= profile_limits(first).bits_per_pixel <= 10,
        1_200_000 <= profile_limits(first).min_bitrate <= 60_000_000,
{
}

/// The value that a list of variables leaves a name with: the last one that it sets.
pub open spec fn value_set(list: Seq<(Seq<char>, Seq<char>)>, name: Seq<char>) -> Option<Seq<char>>
    decreases list.len(),
{
    if list.len() == 0 {
        None
    } else if list.last().0 == name {
        Some(list.last().1)
    } else {
        value_set(list.drop_last(), name)
    }
}

/// What is set later wins; what is not set later stays.
pub proof fn lemma_value_set(
    front: Seq<(Seq<char>, Seq<char>)>,
    back: Seq<(Seq<char>, Seq<char>)>,
    name: Seq<char>,
)
    ensures
        value_set(front + back, name) == if value_set(back, name) is Some {
            value_set(back, name)
        } else {
            value_set(front, name)
        },
    decreases back.len(),
{
    if back.len() == 0 {
        assert(front + back =~= front);
    } else {
        assert((front + back).drop_last() =~= front + back.drop_last());
        assert((front + back).last() == back.last());
        lemma_value_set(front, back.drop_last(), name);
    }
}

/// The names of the variables of a stream tell them apart.
pub proof fn lemma_stream_variable_names()
    ensures
        "SIMDECK_REALTIME_STREAM"@.len() == 23,
        "SIMDECK_LOCAL_STREAM_FPS"@.len() == 24,
        "SIMDECK_REALTIME_MAX_EDGE"@.len() == 25,
        "SIMDECK_REALTIME_FPS"@.len() == 20,
        "SIMDECK_REALTIME_MIN_BITRATE"@.len() == 28,
        "SIMDECK_REALTIME_BITS_PER_PIXEL"@.len() == 31,
        "SIMDECK_STREAM_QUALITY_PROFILE"@.len() == 30,
        "SIMDECK_VIDEO_CODEC"@.len() == 19 && "SIMDECK_VIDEO_CODEC"@[8] == 'V',
        "SIMDECK_ANDROID_GPU"@.len() == 19 && "SIMDECK_ANDROID_GPU"@[8] == 'A',
        "SIMDECK_LOW_LATENCY"@.len() == 19 && "SIMDECK_LOW_LATENCY"@[8] == 'L',
        "SIMDECK_RESTART_ON_CORE_SIMULATOR_MISMATCH"@.len() == 42,
{
    reveal_strlit("SIMDECK_REALTIME_STREAM");
    reveal_strlit("SIMDECK_LOCAL_STREAM_FPS");
    reveal_strlit("SIMDECK_REALTIME_MAX_EDGE");
    reveal_strlit("SIMDECK_REALTIME_FPS");
    reveal_strlit("SIMDECK_REALTIME_MIN_BITRATE");
    reveal_strlit("SIMDECK_REALTIME_BITS_PER_PIXEL");
    reveal_strlit("SIMDECK_STREAM_QUALITY_PROFILE");
    reveal_strlit("SIMDECK_VIDEO_CODEC");
    reveal_strlit("SIMDECK_ANDROID_GPU");
    reveal_strlit("SIMDECK_LOW_LATENCY");
    reveal_strlit("SIMDECK_RESTART_ON_CORE_SIMULATOR_MISMATCH");
}

/// The variables of a profile give its identifier and its limits back, and no
/// variable of another name is set.
pub proof fn quality_variables_carry_the_profile(
    profile: Seq<char>,
    limits: StreamQualityLimits,
    name: Seq<char>,
)
    ensures
        ({
            let variables = stream_quality_variables(profile, limits);
            &&& value_set(variables, "SIMDECK_STREAM_QUALITY_PROFILE"@) == Some(profile)
            &&& value_set(variables, "SIMDECK_REALTIME_MAX_EDGE"@) == Some(
                decimal(limits.max_edge as nat),
            )
            &&& value_set(variables, "SIMDECK_REALTIME_FPS"@) == Some(decimal(limits.fps as nat))
            &&& value_set(variables, "SIMDECK_REALTIME_MIN_BITRATE"@) == Some(
                decimal(limits.min_bitrate as nat),
            )
            &&& value_set(variables, "SIMDECK_REALTIME_BITS_PER_PIXEL"@) == Some(
                decimal(limits.bits_per_pixel as nat),
            )
            &&& value_set(variables, name) is Some ==> name == "SIMDECK_STREAM_QUALITY_PROFILE"@
                || name == "SIMDECK_REALTIME_MAX_EDGE"@ || name == "SIMDECK_REALTIME_FPS"@ || name
                == "SIMDECK_REALTIME_MIN_BITRATE"@ || name == "SIMDECK_REALTIME_BITS_PER_PIXEL"@
        }),
{
    lemma_stream_variable_names();
    reveal_with_fuel(value_set, 6);
}

/// A profile that is asked for is the one that is used. Without one, a local stream
/// is full unless it is to be quick, and a stream through the studio is cut down
/// only where it is encoded in software and need not be quick.
pub proof fn requested_profiles_are_used(
    video_codec: VideoCodecMode,
    low_latency: bool,
    requested: StreamQualityProfileArg,
)
    ensures
        local_profile(low_latency, Some(requested)) == Some(requested.profile_id()),
        studio_profile(video_codec, low_latency, Some(requested)) == Some(requested.profile_id()),
        local_profile(true, None) is None,
        local_profile(false, None) == Some(StreamQualityProfileArg::Full.profile_id()),
        studio_profile(video_codec, low_latency, None) is Some <==> video_codec is Software
            && !low_latency,
        studio_profile(video_codec, low_latency, None) matches Some(id) ==> id
            == StreamQualityProfileArg::Smooth.profile_id(),
{
}

/// The limits of the profiles, in the order of their ranks.
pub open spec fn ranked_limits() -> Seq<StreamQualityLimits> {
    let edges = seq![4096u32, 4096, 1280, 4096, 1080, 960, 720, 540];
    let rates = seq![60u32, 60, 60, 60, 30, 30, 30, 30];
    let bits = seq![
        60_000_000u32,
        12_000_000,
        6_000_000,
        4_000_000,
        3_500_000,
        2_500_000,
        2_000_000,
        1_200_000,
    ];
    let depths = seq![10u32, 4, 5, 5, 6, 3, 5, 4];
    Seq::new(
        8,
        |i: int|
            StreamQualityLimits {
                max_edge: edges[i],
                fps: rates[i],
                min_bitrate: bits[i],
                bits_per_pixel: depths[i],
            },
    )
}

/// Every profile has the limits of its rank, but that of continuous integration, which
/// asks for as few bits as the last one, of larger pictures and fewer of them.
pub proof fn profiles_have_the_limits_of_their_rank(profile: StreamQualityProfileArg)
    ensures
        !(profile is CiSoftware) ==> profile_limits(profile) == ranked_limits()[profile_rank(
            profile,
        )],
        profile is CiSoftware ==> profile_limits(profile) == (StreamQualityLimits {
            max_edge: 960,
            fps: 24,
            min_bitrate: ranked_limits()[7].min_bitrate,
            bits_per_pixel: 2,
        }),
{
}

} // verus!
