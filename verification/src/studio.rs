//! Showing a simulator through the studio: what the service has to be, what the
//! bridge is told, and the arguments of the provider's commands.
use vstd::prelude::*;

use crate::arguments::{
    added_flags_stand_in_front_of_their_values, has_pair, lemma_pair_among, option_decimal,
    optional_flag, optional_pair, push_flag, push_number, push_pair, push_text,
};
use crate::devices::{
    first_booted_or_first, option_simulator_view, select_default_studio_simulator,
    select_studio_simulator, selected_simulator, simulator_views, SimulatorView,
    StudioSimulatorSelection,
};
use crate::error::SimdeckError;
use crate::json::{
    bool_field, get_bool, get_field, get_string, json_field, json_list, json_string_list,
    string_field,
};
use crate::metadata::{
    ServiceLaunchOptions, ServiceLaunchView, ServiceMetadata, ServiceMetadataView,
};
use crate::modes::{
    studio_profile, studio_stream_quality_profile, value_set, variable_views, AndroidGpuMode,
    StreamQualityProfileArg, Variable, VideoCodecMode,
};
use crate::net::{host_url, lemma_local_url, IpAddr};
use crate::numbers::{decimal, decimal_text};
use crate::paths::path_below;
use crate::text::{
    as_option_str, blank, contained_texts_are_parts, contains_text, is_blank, lemma_trimmed_end,
    option_str_view, option_view, owned, text_or, trim_end_char, trimmed_end_where, views,
};

verus! {

/// What `simdeck studio expose` is asked for.
#[derive(Debug)]
pub struct StudioExposeOptions {
    pub simulator: Option<String>,
    pub studio_url: String,
    pub port: u16,
    pub bind: IpAddr,
    pub video_codec: VideoCodecMode,
    pub low_latency: bool,
    pub stream_quality: Option<StreamQualityProfileArg>,
    pub local_stream_fps: Option<u32>,
}

/// The codec of a stream through the studio.
pub open spec fn studio_codec(low_latency: bool, requested: VideoCodecMode) -> VideoCodecMode {
    match low_latency {
        true => VideoCodecMode::Software,
        false => requested,
    }
}

/// A stream through the studio is encoded as is asked for, but in software where it is
/// to be quick.
pub proof fn quick_streams_are_encoded_in_software(requested: VideoCodecMode)
    ensures
        studio_codec(true, requested) is Software,
        studio_codec(false, requested) == requested,
{
}

/// The codec of a stream through the studio: software where low latency is
/// asked for.
pub fn studio_video_codec(low_latency: bool, requested: VideoCodecMode) -> (codec: VideoCodecMode)
    ensures
        codec == studio_codec(low_latency, requested),
        codec == if low_latency {
            VideoCodecMode::Software
        } else {
            requested
        },
{
    if low_latency {
        VideoCodecMode::Software
    } else {
        requested
    }
}

/// What the service behind the studio has to be.
pub open spec fn studio_launch_view(options: StudioExposeOptions) -> ServiceLaunchView {
    ServiceLaunchView {
        port: options.port,
        bind: options.bind@,
        advertise_host: None,
        client_root: None,
        video_codec: options.video_codec,
        android_gpu: AndroidGpuMode::Host,
        low_latency: options.low_latency,
        realtime_stream: true,
        allow_port_probe: false,
        stream_quality_profile: studio_profile(
            options.video_codec,
            options.low_latency,
            options.stream_quality,
        ),
        local_stream_fps: options.local_stream_fps,
    }
}

/// What the service behind the studio has to be.
pub fn expose_to_studio(options: &StudioExposeOptions) -> (launch: ServiceLaunchOptions)
    ensures
        launch@ == studio_launch_view(*options),
{
    ServiceLaunchOptions {
        port: options.port,
        bind: options.bind.clone(),
        advertise_host: None,
        client_root: None,
        video_codec: options.video_codec,
        android_gpu: AndroidGpuMode::Host,
        low_latency: options.low_latency,
        realtime_stream: true,
        allow_port_probe: false,
        stream_quality_profile: studio_stream_quality_profile(
            options.video_codec,
            options.low_latency,
            options.stream_quality,
        ),
        local_stream_fps: options.local_stream_fps,
    }
}

/// The arguments that restart the service behind the studio.
pub open spec fn restart_argument_list(options: StudioExposeOptions) -> Seq<Seq<char>> {
    seq![
        "service"@,
        "restart"@,
        "--port"@,
        decimal(options.port as nat),
        "--bind"@,
        options.bind@.text(),
        "--video-codec"@,
        options.video_codec.env_value(),
    ] + optional_flag("--low-latency"@, options.low_latency) + optional_pair(
        "--stream-quality"@,
        if options.low_latency {
            None
        } else {
            studio_profile(options.video_codec, options.low_latency, options.stream_quality)
        },
    ) + optional_pair("--local-stream-fps"@, option_decimal(options.local_stream_fps))
}

pub fn studio_service_restart_args(options: &StudioExposeOptions) -> (args: Vec<String>)
    ensures
        views(args@) == restart_argument_list(*options),
{
    let mut args: Vec<String> = Vec::new();
    push_text(&mut args, "service");
    push_text(&mut args, "restart");
    push_text(&mut args, "--port");
    push_text(&mut args, decimal_text(options.port as u64).as_str());
    push_text(&mut args, "--bind");
    push_text(&mut args, options.bind.to_text().as_str());
    push_text(&mut args, "--video-codec");
    push_text(&mut args, options.video_codec.as_env_value());
    assert(views(args@) =~= seq![
        "service"@,
        "restart"@,
        "--port"@,
        decimal(options.port as nat),
        "--bind"@,
        options.bind@.text(),
        "--video-codec"@,
        options.video_codec.env_value(),
    ]);
    push_flag(&mut args, "--low-latency", options.low_latency);
    let profile = if options.low_latency {
        None
    } else {
        studio_stream_quality_profile(
            options.video_codec,
            options.low_latency,
            options.stream_quality,
        )
    };
    push_pair(&mut args, "--stream-quality", as_option_str(&profile));
    push_number(&mut args, "--local-stream-fps", options.local_stream_fps);
    args
}

/// The line that tells how the stream is sent.
pub open spec fn stream_line(
    codec: Seq<char>,
    realtime: bool,
    quality: Option<Seq<char>>,
) -> Seq<char> {
    "Stream: "@ + codec + (if realtime {
        ", realtime"@
    } else {
        ""@
    }) + (match quality {
        Some(profile) => ", quality="@ + profile,
        None => ""@,
    })
}

/// The line that tells how a stream with the given properties is sent.
pub fn stream_line_of(codec: &str, realtime: bool, quality: Option<&str>) -> (line: String)
    ensures
        line@ == stream_line(codec@, realtime, option_str_view(quality)),
{
    let mut line = owned("Stream: ");
    line.append(codec);
    if realtime {
        line.append(", realtime");
    } else {
        line.append("");
    }
    let ghost front = line@;
    match quality {
        Some(profile) => {
            line.append(", quality=");
            line.append(profile);
            assert(line@ =~= front + (", quality="@ + profile@));
        },
        None => {
            line.append("");
        },
    }
    line
}

/// The codec that a service reports, else the one that was asked for.
pub open spec fn reported_codec(health: Option<Seq<char>>, asked: Seq<char>) -> Seq<char> {
    match health {
        Some(report) => match string_field(report, "videoCodec"@) {
            Some(codec) => codec,
            None => asked,
        },
        None => asked,
    }
}

/// Whether a service reports that it sends the stream as it is made; it does
/// where it does not say.
pub open spec fn reported_realtime(health: Option<Seq<char>>) -> bool {
    match health {
        Some(report) => bool_field(report, "realtimeStream"@) != Some(false),
        None => true,
    }
}

/// The quality profile that a service reports, else the one that was asked for.
pub open spec fn reported_quality(
    health: Option<Seq<char>>,
    asked: Option<Seq<char>>,
) -> Option<Seq<char>> {
    match health {
        Some(report) => match json_field(report, "streamQuality"@) {
            Some(quality) => match string_field(quality, "profile"@) {
                Some(profile) => Some(profile),
                None => asked,
            },
            None => asked,
        },
        None => asked,
    }
}

/// The line that tells how the stream of a service is sent. `health` is what
/// the service reports of itself, where it does.
pub fn studio_stream_line(health: Option<&str>, options: &StudioExposeOptions) -> (line: String)
    ensures
        line@ == stream_line(
            reported_codec(option_str_view(health), options.video_codec.env_value()),
            reported_realtime(option_str_view(health)),
            reported_quality(
                option_str_view(health),
                studio_profile(options.video_codec, options.low_latency, options.stream_quality),
            ),
        ),
{
    let mut codec: Option<String> = None;
    let mut realtime = true;
    let mut quality: Option<String> = None;
    if let Some(report) = health {
        codec = get_string(report, "videoCodec");
        if let Some(value) = get_bool(report, "realtimeStream") {
            realtime = value;
        }
        if let Some(stream) = get_field(report, "streamQuality") {
            quality = get_string(stream.as_str(), "profile");
        }
    }
    let codec = match codec {
        Some(reported) => reported,
        None => owned(options.video_codec.as_env_value()),
    };
    let quality = match quality {
        Some(reported) => Some(reported),
        None => studio_stream_quality_profile(
            options.video_codec,
            options.low_latency,
            options.stream_quality,
        ),
    };
    stream_line_of(codec.as_str(), realtime, as_option_str(&quality))
}

/// The simulator that is shown, as an optional value.
pub open spec fn selected_view(selected: Option<&StudioSimulatorSelection>) -> Option<
    SimulatorView,
> {
    match selected {
        Some(simulator) => Some(simulator@),
        None => None,
    }
}

/// The simulator that is shown: the one that the selector means, else the
/// default one; none where the simulators of the service could not be listed.
pub open spec fn shown_simulator(
    simulators: Option<Seq<SimulatorView>>,
    selector: Option<Seq<char>>,
) -> Option<SimulatorView> {
    match simulators {
        Some(all) => match selector {
            Some(text) => selected_simulator(all, text),
            None => first_booted_or_first(all),
        },
        None => None,
    }
}

/// The simulators of a service as an optional value.
pub open spec fn option_simulator_views(
    simulators: Option<&Vec<StudioSimulatorSelection>>,
) -> Option<Seq<SimulatorView>> {
    match simulators {
        Some(list) => Some(simulator_views(list@)),
        None => None,
    }
}

/// Chooses the simulator that is shown. `simulators` are those of the service,
/// where they could be listed.
pub fn studio_selection(
    simulators: Option<&Vec<StudioSimulatorSelection>>,
    selector: Option<&str>,
) -> (selected: Option<StudioSimulatorSelection>)
    ensures
        option_simulator_view(selected) == shown_simulator(
            option_simulator_views(simulators),
            option_str_view(selector),
        ),
{
    match simulators {
        Some(all) => match selector {
            Some(text) => select_studio_simulator(all, text),
            None => select_default_studio_simulator(all),
        },
        None => None,
    }
}

/// The identifier of the simulator that has to be booted before it is shown.
pub open spec fn udid_to_boot(selected: Option<SimulatorView>) -> Option<Seq<char>> {
    match selected {
        Some(simulator) => if simulator.is_booted {
            None
        } else {
            Some(simulator.udid)
        },
        None => None,
    }
}

pub fn simulator_to_boot(selected: Option<&StudioSimulatorSelection>) -> (udid: Option<&str>)
    ensures
        option_str_view(udid) == udid_to_boot(selected_view(selected)),
{
    match selected {
        Some(simulator) => if simulator.is_booted {
            None
        } else {
            Some(simulator.udid.as_str())
        },
        None => None,
    }
}

/// What has happened on the way to showing a simulator.
#[derive(Debug)]
pub enum StudioEvent {
    /// The simulator was chosen, or none was.
    Selected,
    /// The simulator was asked to boot.
    BootEnded { succeeded: bool },
    /// The bridge has ended, with the given status.
    BridgeEnded { succeeded: bool, status: String },
}

/// What to do next to show a simulator.
#[derive(Debug)]
pub enum StudioAction {
    /// Boot the simulator with the given identifier.
    Boot { udid: String },
    /// Run the bridge to the studio.
    RunBridge,
    /// Nothing is left to do.
    Finish,
    /// Give up.
    Fail(SimdeckError),
}

/// An action as the contracts speak of it.
pub enum StudioActionView {
    Boot { udid: Seq<char> },
    RunBridge,
    Finish,
    Fail(Seq<char>),
}

impl View for StudioAction {
    type V = StudioActionView;

    open spec fn view(&self) -> StudioActionView {
        match self {
            StudioAction::Boot { udid } => StudioActionView::Boot { udid: udid@ },
            StudioAction::RunBridge => StudioActionView::RunBridge,
            StudioAction::Finish => StudioActionView::Finish,
            StudioAction::Fail(error) => StudioActionView::Fail(error.text()),
        }
    }
}

/// What to do next to show a simulator: one that is not booted is booted first,
/// and the bridge runs only where that succeeded; without a simulator it runs at
/// once. A bridge that ends without success is an error.
pub open spec fn studio_action(selected: Option<SimulatorView>, event: StudioEvent)
    -> StudioActionView {
    match event {
        StudioEvent::Selected => match udid_to_boot(selected) {
            Some(udid) => StudioActionView::Boot { udid },
            None => StudioActionView::RunBridge,
        },
        StudioEvent::BootEnded { succeeded } => match selected {
            Some(simulator) => if succeeded {
                StudioActionView::RunBridge
            } else {
                StudioActionView::Fail("boot simulator "@ + simulator.name)
            },
            None => StudioActionView::RunBridge,
        },
        StudioEvent::BridgeEnded { succeeded, status } => if succeeded {
            StudioActionView::Finish
        } else {
            StudioActionView::Fail("Studio provider bridge exited with status "@ + status@)
        },
    }
}

/// Decides what to do next to show a simulator.
pub fn studio_step(selected: Option<&StudioSimulatorSelection>, event: StudioEvent) -> (action:
    StudioAction)
    ensures
        action@ == studio_action(selected_view(selected), event),
{
    match event {
        StudioEvent::Selected => match simulator_to_boot(selected) {
            Some(udid) => StudioAction::Boot { udid: owned(udid) },
            None => StudioAction::RunBridge,
        },
        StudioEvent::BootEnded { succeeded } => match selected {
            Some(simulator) => if succeeded {
                StudioAction::RunBridge
            } else {
                let mut message = owned("boot simulator ");
                message.append(simulator.name.as_str());
                StudioAction::Fail(SimdeckError::new(message))
            },
            None => StudioAction::RunBridge,
        },
        StudioEvent::BridgeEnded { succeeded, status } => if succeeded {
            StudioAction::Finish
        } else {
            let mut message = owned("Studio provider bridge exited with status ");
            message.append(status.as_str());
            StudioAction::Fail(SimdeckError::new(message))
        },
    }
}

/// The bridge never runs over a simulator that is not booted: such a one is
/// booted first, and where that fails, no bridge runs.
pub proof fn bridge_waits_for_the_simulator(simulator: SimulatorView)
    requires
        !simulator.is_booted,
    ensures
        studio_action(Some(simulator), StudioEvent::Selected) == (StudioActionView::Boot {
            udid: simulator.udid,
        }),
        studio_action(Some(simulator), (StudioEvent::BootEnded { succeeded: false })) is Fail,
        studio_action(Some(simulator), (StudioEvent::BootEnded { succeeded: true }))
            == StudioActionView::RunBridge,
{
}

/// The line that tells which simulator is shown.
pub fn exposing_line(selected: Option<&StudioSimulatorSelection>) -> (line: String)
    ensures
        line@ == "Exposing "@ + (match selected_view(selected) {
            Some(simulator) => simulator.name,
            None => "the selected simulator"@,
        }) + " through SimDeck Studio..."@,
{
    let mut line = owned("Exposing ");
    match selected {
        Some(simulator) => line.append(simulator.name.as_str()),
        None => line.append("the selected simulator"),
    }
    line.append(" through SimDeck Studio...");
    line
}

/// The variables of the bridge between a service and the studio.
pub open spec fn bridge_variables(
    studio_url: Seq<char>,
    metadata: ServiceMetadataView,
    executable: Seq<char>,
    restart_args: Seq<char>,
    status_args: Seq<char>,
    parent_pid: u32,
    selected: Option<SimulatorView>,
) -> Seq<(Seq<char>, Seq<char>)> {
    seq![
        ("SIMDECK_CLOUD_URL"@, trimmed_end_where(studio_url, |c: char| c == '/')),
        ("SIMDECK_LOCAL_URL"@, metadata.http_url),
        ("SIMDECK_LOCAL_TOKEN"@, metadata.access_token),
        ("SIMDECK_LOCAL_SERVICE_PID"@, decimal(metadata.pid as nat)),
        ("SIMDECK_LOCAL_SERVICE_COMMAND"@, executable),
        ("SIMDECK_LOCAL_SERVICE_RESTART_ARGS_JSON"@, restart_args),
        ("SIMDECK_LOCAL_SERVICE_STATUS_ARGS_JSON"@, status_args),
        ("SIMDECK_PROVIDER_PARENT_PID"@, decimal(parent_pid as nat)),
        ("SIMDECK_LOCAL_SERVICE_LOG"@, text_or(metadata.log_path, ""@)),
        (
            "SIMDECK_STUDIO_SIMULATOR_NAME"@,
            match selected {
                Some(simulator) => simulator.name,
                None => "Local Mac simulator"@,
            },
        ),
        (
            "SIMDECK_STUDIO_SIMULATOR_UDID"@,
            match selected {
                Some(simulator) => simulator.udid,
                None => ""@,
            },
        ),
        (
            "SIMDECK_STUDIO_RUNTIME_NAME"@,
            match selected {
                Some(simulator) => text_or(simulator.runtime_name, ""@),
                None => ""@,
            },
        ),
    ]
}

fn push_variable(variables: &mut Vec<Variable>, name: &'static str, value: String)
    ensures
        variable_views(final(variables)@) == variable_views(old(variables)@).push(
            (name@, value@),
        ),
{
    let ghost before = variable_views(variables@);
    let ghost text = value@;
    variables.push(Variable { name, value });
    assert(variable_views(variables@) =~= before.push((name@, text)));
}

fn text_or_empty(text: &Option<String>) -> (result: String)
    ensures
        result@ == text_or(option_view(*text), ""@),
{
    match text {
        Some(given) => given.clone(),
        None => owned(""),
    }
}

/// The variables of the bridge, with the two lists of arguments as JSON already.
pub fn bridge_environment_of(
    options: &StudioExposeOptions,
    metadata: &ServiceMetadata,
    executable: &str,
    restart_args: &str,
    status_args: &str,
    parent_pid: u32,
    selected: Option<&StudioSimulatorSelection>,
) -> (variables: Vec<Variable>)
    ensures
        variable_views(variables@) == bridge_variables(
            options.studio_url@,
            metadata@,
            executable@,
            restart_args@,
            status_args@,
            parent_pid,
            selected_view(selected),
        ),
{
    let name = match selected {
        Some(simulator) => simulator.name.clone(),
        None => owned("Local Mac simulator"),
    };
    let udid = match selected {
        Some(simulator) => simulator.udid.clone(),
        None => owned(""),
    };
    let runtime_name = match selected {
        Some(simulator) => text_or_empty(&simulator.runtime_name),
        None => owned(""),
    };
    let mut variables: Vec<Variable> = Vec::new();
    push_variable(
        &mut variables,
        "SIMDECK_CLOUD_URL",
        trim_end_char(options.studio_url.as_str(), '/'),
    );
    push_variable(&mut variables, "SIMDECK_LOCAL_URL", metadata.http_url.clone());
    push_variable(&mut variables, "SIMDECK_LOCAL_TOKEN", metadata.access_token.clone());
    push_variable(&mut variables, "SIMDECK_LOCAL_SERVICE_PID", decimal_text(metadata.pid as u64));
    push_variable(&mut variables, "SIMDECK_LOCAL_SERVICE_COMMAND", owned(executable));
    push_variable(
        &mut variables,
        "SIMDECK_LOCAL_SERVICE_RESTART_ARGS_JSON",
        owned(restart_args),
    );
    push_variable(&mut variables, "SIMDECK_LOCAL_SERVICE_STATUS_ARGS_JSON", owned(status_args));
    push_variable(&mut variables, "SIMDECK_PROVIDER_PARENT_PID", decimal_text(parent_pid as u64));
    push_variable(&mut variables, "SIMDECK_LOCAL_SERVICE_LOG", text_or_empty(&metadata.log_path));
    push_variable(&mut variables, "SIMDECK_STUDIO_SIMULATOR_NAME", name);
    push_variable(&mut variables, "SIMDECK_STUDIO_SIMULATOR_UDID", udid);
    push_variable(&mut variables, "SIMDECK_STUDIO_RUNTIME_NAME", runtime_name);
    assert(variable_views(variables@) =~= bridge_variables(
        options.studio_url@,
        metadata@,
        executable@,
        restart_args@,
        status_args@,
        parent_pid,
        selected_view(selected),
    ));
    variables
}

/// The variables of the bridge between a service and the studio.
pub fn bridge_environment(
    options: &StudioExposeOptions,
    metadata: &ServiceMetadata,
    executable: &str,
    parent_pid: u32,
    selected: Option<&StudioSimulatorSelection>,
) -> (result: Result<Vec<Variable>, SimdeckError>)
    ensures
        result matches Ok(variables) && variable_views(variables@) == bridge_variables(
            options.studio_url@,
            metadata@,
            executable@,
            json_list(restart_argument_list(*options)),
            json_list(seq!["service"@, "status"@]),
            parent_pid,
            selected_view(selected),
        ),
{
    let restart_args = match json_string_list(&studio_service_restart_args(options)) {
        Ok(text) => text,
        Err(error) => return Err(error),
    };
    let mut status: Vec<String> = Vec::new();
    push_text(&mut status, "service");
    push_text(&mut status, "status");
    assert(views(status@) =~= seq!["service"@, "status"@]);
    let status_args = match json_string_list(&status) {
        Ok(text) => text,
        Err(error) => return Err(error),
    };
    Ok(
        bridge_environment_of(
            options,
            metadata,
            executable,
            restart_args.as_str(),
            status_args.as_str(),
            parent_pid,
            selected,
        ),
    )
}

/// What a provider of simulators is asked to do.
#[allow(inconsistent_fields)]
#[derive(Debug)]
pub enum ProviderCommand {
    Connect {
        studio_url: String,
        host_id: String,
        host_token: String,
        config: Option<String>,
        work_root: Option<String>,
    },
    Run {
        config: Option<String>,
        studio_url: Option<String>,
        host_id: Option<String>,
        host_token: Option<String>,
        work_root: Option<String>,
        max_capacity: u32,
        simulator_template: String,
        port: u16,
        video_codec: VideoCodecMode,
        stream_quality: StreamQualityProfileArg,
    },
    Status { config: Option<String> },
}

/// A flag with its value, where the value is not blank.
pub open spec fn nonblank_pair(name: Seq<char>, value: Option<Seq<char>>) -> Seq<Seq<char>> {
    match value {
        Some(text) => if blank(text) {
            Seq::empty()
        } else {
            seq![name, text]
        },
        None => Seq::empty(),
    }
}

/// The arguments of the provider's script.
pub open spec fn provider_argument_list(command: ProviderCommand) -> Seq<Seq<char>> {
    match command {
        ProviderCommand::Connect { studio_url, host_id, host_token, config, work_root } => {
            seq![
                "connect"@,
                "--studio-url"@,
                studio_url@,
                "--host-id"@,
                host_id@,
                "--host-token"@,
                host_token@,
            ] + optional_pair("--config"@, option_view(config)) + optional_pair(
                "--work-root"@,
                option_view(work_root),
            )
        },
        ProviderCommand::Run {
            config,
            studio_url,
            host_id,
            host_token,
            work_root,
            max_capacity,
            simulator_template,
            port,
            video_codec,
            stream_quality,
        } => {
            seq!["run"@] + optional_pair("--config"@, option_view(config)) + nonblank_pair(
                "--studio-url"@,
                option_view(studio_url),
            ) + nonblank_pair("--host-id"@, option_view(host_id)) + nonblank_pair(
                "--host-token"@,
                option_view(host_token),
            ) + optional_pair("--work-root"@, option_view(work_root)) + seq![
                "--max-capacity"@,
                decimal(max_capacity as nat),
                "--simulator-template"@,
                simulator_template@,
                "--local-url"@,
                "http://127.0.0.1:"@ + decimal(port as nat),
                "--video-codec"@,
                video_codec.env_value(),
                "--stream-quality"@,
                stream_quality.profile_id(),
            ]
        },
        ProviderCommand::Status { config } => {
            seq!["status"@] + optional_pair("--config"@, option_view(config))
        },
    }
}

/// Adds a flag and its value to a list of arguments.
pub fn push_arg(args: &mut Vec<String>, name: &str, value: &str)
    ensures
        views(final(args)@) == views(old(args)@).push(name@).push(value@),
{
    push_text(args, name);
    push_text(args, value);
}

/// Adds a flag and its value to a list of arguments, where it is not blank.
pub fn push_optional_arg(args: &mut Vec<String>, name: &str, value: &Option<String>)
    ensures
        views(final(args)@) == views(old(args)@) + nonblank_pair(name@, option_view(*value)),
{
    let ghost before = views(args@);
    if let Some(text) = value {
        if !is_blank(text.as_str()) {
            push_arg(args, name, text.as_str());
        }
    }
    assert(views(args@) =~= before + nonblank_pair(name@, option_view(*value)));
}

/// The arguments of the provider's script.
pub fn run_provider_command(command: &ProviderCommand) -> (args: Vec<String>)
    ensures
        views(args@) == provider_argument_list(*command),
{
    let mut args: Vec<String> = Vec::new();
    match command {
        ProviderCommand::Connect { studio_url, host_id, host_token, config, work_root } => {
            push_text(&mut args, "connect");
            push_arg(&mut args, "--studio-url", studio_url.as_str());
            push_arg(&mut args, "--host-id", host_id.as_str());
            push_arg(&mut args, "--host-token", host_token.as_str());
            assert(views(args@) =~= seq![
                "connect"@,
                "--studio-url"@,
                studio_url@,
                "--host-id"@,
                host_id@,
                "--host-token"@,
                host_token@,
            ]);
            push_pair(&mut args, "--config", as_option_str(config));
            push_pair(&mut args, "--work-root", as_option_str(work_root));
        },
        ProviderCommand::Run {
            config,
            studio_url,
            host_id,
            host_token,
            work_root,
            max_capacity,
            simulator_template,
            port,
            video_codec,
            stream_quality,
        } => {
            push_text(&mut args, "run");
            assert(views(args@) =~= seq!["run"@]);
            push_pair(&mut args, "--config", as_option_str(config));
            push_optional_arg(&mut args, "--studio-url", studio_url);
            push_optional_arg(&mut args, "--host-id", host_id);
            push_optional_arg(&mut args, "--host-token", host_token);
            push_pair(&mut args, "--work-root", as_option_str(work_root));
            let ghost front = views(args@);
            let mut local_url = owned("http://127.0.0.1:");
            local_url.append(decimal_text(*port as u64).as_str());
            push_arg(&mut args, "--max-capacity", decimal_text(*max_capacity as u64).as_str());
            push_arg(&mut args, "--simulator-template", simulator_template.as_str());
            push_arg(&mut args, "--local-url", local_url.as_str());
            push_arg(&mut args, "--video-codec", video_codec.as_env_value());
            push_arg(&mut args, "--stream-quality", stream_quality.as_profile_id());
            assert(views(args@) =~= front + seq![
                "--max-capacity"@,
                decimal(*max_capacity as nat),
                "--simulator-template"@,
                simulator_template@,
                "--local-url"@,
                "http://127.0.0.1:"@ + decimal(*port as nat),
                "--video-codec"@,
                video_codec.env_value(),
                "--stream-quality"@,
                stream_quality.profile_id(),
            ]);
        },
        ProviderCommand::Status { config } => {
            push_text(&mut args, "status");
            assert(views(args@) =~= seq!["status"@]);
            push_pair(&mut args, "--config", as_option_str(config));
        },
    }
    args
}

/// The places where a script of the package may stand, in the order in which
/// they are tried: below the project, below the package and below the current
/// directory, as far as they are known.
pub open spec fn script_places(
    script: Seq<char>,
    project_root: Option<Seq<char>>,
    package_root: Option<Seq<char>>,
    current_dir: Option<Seq<char>>,
    windows: bool,
) -> Seq<Seq<char>> {
    place_below(project_root, script, windows) + place_below(package_root, script, windows)
        + place_below(current_dir, script, windows)
}

/// The place of a script below a directory, where the directory is known.
pub open spec fn place_below(
    directory: Option<Seq<char>>,
    script: Seq<char>,
    windows: bool,
) -> Seq<Seq<char>> {
    match directory {
        Some(path) => seq![path_below(path, script, windows)],
        None => Seq::empty(),
    }
}

fn push_place(places: &mut Vec<String>, directory: Option<&str>, script: &str, windows: bool)
    ensures
        views(final(places)@) == views(old(places)@) + place_below(
            option_str_view(directory),
            script@,
            windows,
        ),
{
    let ghost before = views(places@);
    if let Some(path) = directory {
        push_text(places, crate::paths::join_path(path, script, windows).as_str());
    }
    assert(views(places@) =~= before + place_below(
        option_str_view(directory),
        script@,
        windows,
    ));
}

/// The places where a script of the package may stand.
pub fn script_candidates(
    script: &str,
    project_root: Option<&str>,
    package_root: Option<&str>,
    current_dir: Option<&str>,
    windows: bool,
) -> (places: Vec<String>)
    ensures
        views(places@) == script_places(
            script@,
            option_str_view(project_root),
            option_str_view(package_root),
            option_str_view(current_dir),
            windows,
        ),
{
    let mut places: Vec<String> = Vec::new();
    assert(views(places@) =~= Seq::empty());
    push_place(&mut places, project_root, script, windows);
    assert(views(places@) =~= place_below(option_str_view(project_root), script@, windows));
    push_place(&mut places, package_root, script, windows);
    push_place(&mut places, current_dir, script, windows);
    places
}

/// The error of a script that stands nowhere.
pub fn missing_script(script: &str) -> (error: SimdeckError)
    ensures
        error.text() == "Unable to find "@ + script@ + "."@,
{
    let mut message = owned("Unable to find ");
    message.append(script);
    message.append(".");
    SimdeckError::new(message)
}

/// The service behind the studio is asked for as the call asks for it, sends its
/// stream as it is made, takes no other port, and is not advertised.
pub proof fn studio_asks_for_its_options(options: StudioExposeOptions)
    ensures
        ({
            let launch = studio_launch_view(options);
            &&& launch.port == options.port
            &&& launch.bind == options.bind@
            &&& launch.video_codec == options.video_codec
            &&& launch.low_latency == options.low_latency
            &&& launch.local_stream_fps == options.local_stream_fps
            &&& launch.realtime()
            &&& !launch.allow_port_probe
            &&& launch.advertise_host is None && launch.client_root is None
            &&& launch.android_gpu is Host
            &&& options.stream_quality matches Some(profile) ==> launch.stream_quality_profile
                == Some(profile.profile_id())
            &&& options.stream_quality is None ==> (launch.stream_quality_profile is Some
                <==> options.video_codec is Software && !options.low_latency)
        }),
{
}

/// The arguments that restart the service behind the studio ask for the service that
/// the call asks for: each flag with its value, those that may be left out only
/// where there is a value; the quality is left out where the stream is to be quick.
pub proof fn studio_restarts_say_what_is_asked(options: StudioExposeOptions)
    ensures
        ({
            let list = restart_argument_list(options);
            let profile = studio_launch_view(options).stream_quality_profile;
            &&& list.len() >= 2 && list[0] == "service"@ && list[1] == "restart"@
            &&& has_pair(list, "--port"@, decimal(options.port as nat))
            &&& has_pair(list, "--bind"@, options.bind@.text())
            &&& has_pair(list, "--video-codec"@, options.video_codec.env_value())
            &&& options.low_latency ==> list.contains("--low-latency"@)
            &&& !options.low_latency && profile is Some ==> has_pair(
                list,
                "--stream-quality"@,
                profile->Some_0,
            )
            &&& options.local_stream_fps matches Some(fps) ==> has_pair(
                list,
                "--local-stream-fps"@,
                decimal(fps as nat),
            )
            &&& list.len() == 8 + (if options.low_latency {
                1int
            } else if profile is Some {
                2
            } else {
                0
            }) + (if options.local_stream_fps is Some {
                2int
            } else {
                0
            })
        }),
{
    let list = restart_argument_list(options);
    let profile = studio_launch_view(options).stream_quality_profile;
    assert(list[2] == "--port"@ && list[3] == decimal(options.port as nat));
    assert(list[4] == "--bind"@ && list[5] == options.bind@.text());
    assert(list[6] == "--video-codec"@ && list[7] == options.video_codec.env_value());
    let rate: int = if options.low_latency {
        9
    } else if profile is Some {
        10
    } else {
        8
    };
    if options.low_latency {
        assert(list[8] == "--low-latency"@);
    } else if profile is Some {
        assert(list[8] == "--stream-quality"@ && list[9] == profile->Some_0);
    }
    if options.local_stream_fps is Some {
        assert(list[rate] == "--local-stream-fps"@ && list[rate + 1] == decimal(
            options.local_stream_fps->Some_0 as nat,
        ));
    }
}

/// The simulator that is shown is the one that the selector means, or none; without
/// a selector one that is there, and a booted one where any is.
pub proof fn shown_simulators_are_meant(simulators: Seq<SimulatorView>, selector: Seq<char>)
    ensures
        shown_simulator(Some(simulators), Some(selector)) == selected_simulator(
            simulators,
            selector,
        ),
        shown_simulator(Some(simulators), None) == first_booted_or_first(simulators),
        shown_simulator(None, Some(selector)) is None,
        shown_simulator(None, None) is None,
{
}

/// The bridge runs at once over a simulator that is booted, and without one; a
/// bridge that ends without success is an error that tells its status, and one that
/// succeeds is the end.
pub proof fn bridges_run_until_they_end(
    selected: Option<SimulatorView>,
    status: String,
    succeeded: bool,
)
    ensures
        selected is None || selected->Some_0.is_booted ==> studio_action(
            selected,
            StudioEvent::Selected,
        ) is RunBridge,
        studio_action(selected, (StudioEvent::BridgeEnded { succeeded, status })) is Finish
            <==> succeeded,
        !succeeded ==> (studio_action(
            selected,
            (StudioEvent::BridgeEnded { succeeded, status }),
        ) matches StudioActionView::Fail(text) && contains_text(text, status@)),
        studio_action(selected, (StudioEvent::BootEnded { succeeded: false })) matches
            StudioActionView::Fail(text) ==> selected is Some && contains_text(
            text,
            selected->Some_0.name,
        ),
{
    let front = "Studio provider bridge exited with status "@;
    contained_texts_are_parts(front, status@, Seq::empty());
    assert(front + status@ + Seq::<char>::empty() =~= front + status@);
    if selected is Some {
        let name = selected->Some_0.name;
        contained_texts_are_parts("boot simulator "@, name, Seq::empty());
        assert("boot simulator "@ + name + Seq::<char>::empty() =~= "boot simulator "@ + name);
    }
}

proof fn lemma_bridge_names()
    ensures
        "SIMDECK_CLOUD_URL"@.len() == 17 && "SIMDECK_CLOUD_URL"@[8] == 'C',
        "SIMDECK_LOCAL_URL"@.len() == 17 && "SIMDECK_LOCAL_URL"@[8] == 'L',
        "SIMDECK_LOCAL_TOKEN"@.len() == 19,
        "SIMDECK_LOCAL_SERVICE_PID"@.len() == 25 && "SIMDECK_LOCAL_SERVICE_PID"@[22] == 'P',
        "SIMDECK_LOCAL_SERVICE_LOG"@.len() == 25 && "SIMDECK_LOCAL_SERVICE_LOG"@[22] == 'L',
        "SIMDECK_LOCAL_SERVICE_COMMAND"@.len() == 29 && "SIMDECK_LOCAL_SERVICE_COMMAND"@[8] == 'L',
        "SIMDECK_LOCAL_SERVICE_RESTART_ARGS_JSON"@.len() == 39,
        "SIMDECK_LOCAL_SERVICE_STATUS_ARGS_JSON"@.len() == 38,
        "SIMDECK_PROVIDER_PARENT_PID"@.len() == 27 && "SIMDECK_PROVIDER_PARENT_PID"@[8] == 'P',
        "SIMDECK_STUDIO_SIMULATOR_NAME"@.len() == 29 && "SIMDECK_STUDIO_SIMULATOR_NAME"@[8] == 'S',
        "SIMDECK_STUDIO_SIMULATOR_NAME"@[25] == 'N',
        "SIMDECK_STUDIO_SIMULATOR_UDID"@.len() == 29 && "SIMDECK_STUDIO_SIMULATOR_UDID"@[8] == 'S',
        "SIMDECK_STUDIO_SIMULATOR_UDID"@[25] == 'U',
        "SIMDECK_STUDIO_RUNTIME_NAME"@.len() == 27 && "SIMDECK_STUDIO_RUNTIME_NAME"@[8] == 'S',
{
    reveal_strlit("SIMDECK_CLOUD_URL");
    reveal_strlit("SIMDECK_LOCAL_URL");
    reveal_strlit("SIMDECK_LOCAL_TOKEN");
    reveal_strlit("SIMDECK_LOCAL_SERVICE_PID");
    reveal_strlit("SIMDECK_LOCAL_SERVICE_LOG");
    reveal_strlit("SIMDECK_LOCAL_SERVICE_COMMAND");
    reveal_strlit("SIMDECK_LOCAL_SERVICE_RESTART_ARGS_JSON");
    reveal_strlit("SIMDECK_LOCAL_SERVICE_STATUS_ARGS_JSON");
    reveal_strlit("SIMDECK_PROVIDER_PARENT_PID");
    reveal_strlit("SIMDECK_STUDIO_SIMULATOR_NAME");
    reveal_strlit("SIMDECK_STUDIO_SIMULATOR_UDID");
    reveal_strlit("SIMDECK_STUDIO_RUNTIME_NAME");
}

/// The bridge is told where the studio and the service are, the service's token, its
/// process and its log, how it is restarted, and which simulator is shown; the URL
/// of the studio has no slash at its end.
#[verifier::rlimit(40)]
pub proof fn bridges_are_told_what_they_need(
    studio_url: Seq<char>,
    metadata: ServiceMetadataView,
    executable: Seq<char>,
    restart_args: Seq<char>,
    status_args: Seq<char>,
    parent_pid: u32,
    selected: Option<SimulatorView>,
)
    ensures
        ({
            let variables = bridge_variables(
                studio_url,
                metadata,
                executable,
                restart_args,
                status_args,
                parent_pid,
                selected,
            );
            &&& value_set(variables, "SIMDECK_CLOUD_URL"@) matches Some(url) && (url.len() > 0
                ==> url.last() != '/') && url == studio_url.take(url.len() as int)
            &&& value_set(variables, "SIMDECK_LOCAL_URL"@) == Some(metadata.http_url)
            &&& value_set(variables, "SIMDECK_LOCAL_TOKEN"@) == Some(metadata.access_token)
            &&& value_set(variables, "SIMDECK_LOCAL_SERVICE_PID"@) == Some(
                decimal(metadata.pid as nat),
            )
            &&& value_set(variables, "SIMDECK_LOCAL_SERVICE_COMMAND"@) == Some(executable)
            &&& value_set(variables, "SIMDECK_LOCAL_SERVICE_RESTART_ARGS_JSON"@) == Some(
                restart_args,
            )
            &&& value_set(variables, "SIMDECK_LOCAL_SERVICE_STATUS_ARGS_JSON"@) == Some(status_args)
            &&& value_set(variables, "SIMDECK_PROVIDER_PARENT_PID"@) == Some(
                decimal(parent_pid as nat),
            )
            &&& metadata.log_path is Some ==> value_set(variables, "SIMDECK_LOCAL_SERVICE_LOG"@)
                == metadata.log_path
            &&& selected matches Some(simulator) ==> {
                &&& value_set(variables, "SIMDECK_STUDIO_SIMULATOR_NAME"@) == Some(simulator.name)
                &&& value_set(variables, "SIMDECK_STUDIO_SIMULATOR_UDID"@) == Some(simulator.udid)
                &&& simulator.runtime_name is Some ==> value_set(
                    variables,
                    "SIMDECK_STUDIO_RUNTIME_NAME"@,
                ) == simulator.runtime_name
            }
            &&& selected is None ==> value_set(variables, "SIMDECK_STUDIO_SIMULATOR_UDID"@) == Some(
                ""@,
            )
        }),
{
    lemma_bridge_names();
    lemma_trimmed_end(studio_url, |c: char| c == '/');
    reveal_with_fuel(value_set, 13);
}

proof fn lemma_seven_parts(
    parts: Seq<Seq<Seq<char>>>,
    i: int,
    name: Seq<char>,
    value: Seq<char>,
)
    requires
        parts.len() == 7,
        0 <= i < 7,
        has_pair(parts[i], name, value),
    ensures
        has_pair(
            parts[0] + parts[1] + parts[2] + parts[3] + parts[4] + parts[5] + parts[6],
            name,
            value,
        ),
{
    let a = parts[0] + parts[1];
    let b = a + parts[2];
    let c = b + parts[3];
    let d = c + parts[4];
    let e = d + parts[5];
    if i == 0 {
        lemma_pair_among(Seq::empty(), parts[0], parts[1], name, value);
    } else if i == 1 {
        lemma_pair_among(parts[0], parts[1], Seq::empty(), name, value);
    } else if i == 2 {
        lemma_pair_among(a, parts[2], Seq::empty(), name, value);
    } else if i == 3 {
        lemma_pair_among(b, parts[3], Seq::empty(), name, value);
    } else if i == 4 {
        lemma_pair_among(c, parts[4], Seq::empty(), name, value);
    } else if i == 5 {
        lemma_pair_among(d, parts[5], Seq::empty(), name, value);
    } else {
        lemma_pair_among(e, parts[6], Seq::empty(), name, value);
    }
    if i <= 1 {
        lemma_pair_among(Seq::empty(), a, parts[2], name, value);
    }
    if i <= 2 {
        lemma_pair_among(Seq::empty(), b, parts[3], name, value);
    }
    if i <= 3 {
        lemma_pair_among(Seq::empty(), c, parts[4], name, value);
    }
    if i <= 4 {
        lemma_pair_among(Seq::empty(), d, parts[5], name, value);
    }
    if i <= 5 {
        lemma_pair_among(Seq::empty(), e, parts[6], name, value);
    }
}

/// The arguments of the provider's script say what the command asks for: its name
/// first, and each flag with its value.
pub proof fn provider_arguments_say_what_is_asked(command: ProviderCommand)
    ensures
        ({
            let list = provider_argument_list(command);
            match command {
                ProviderCommand::Connect { studio_url, host_id, host_token, config, work_root } => {
                    &&& list[0] == "connect"@
                    &&& has_pair(list, "--studio-url"@, studio_url@)
                    &&& has_pair(list, "--host-id"@, host_id@)
                    &&& has_pair(list, "--host-token"@, host_token@)
                    &&& config is Some ==> has_pair(list, "--config"@, config->Some_0@)
                    &&& work_root is Some ==> has_pair(list, "--work-root"@, work_root->Some_0@)
                },
                ProviderCommand::Run {
                    config,
                    studio_url,
                    host_id,
                    host_token,
                    work_root,
                    max_capacity,
                    simulator_template,
                    port,
                    video_codec,
                    stream_quality,
                } => {
                    &&& list[0] == "run"@
                    &&& config is Some ==> has_pair(list, "--config"@, config->Some_0@)
                    &&& studio_url is Some && !blank(studio_url->Some_0@) ==> has_pair(
                        list,
                        "--studio-url"@,
                        studio_url->Some_0@,
                    )
                    &&& host_id is Some && !blank(host_id->Some_0@) ==> has_pair(
                        list,
                        "--host-id"@,
                        host_id->Some_0@,
                    )
                    &&& host_token is Some && !blank(host_token->Some_0@) ==> has_pair(
                        list,
                        "--host-token"@,
                        host_token->Some_0@,
                    )
                    &&& work_root is Some ==> has_pair(list, "--work-root"@, work_root->Some_0@)
                    &&& has_pair(list, "--max-capacity"@, decimal(max_capacity as nat))
                    &&& has_pair(list, "--simulator-template"@, simulator_template@)
                    &&& has_pair(list, "--local-url"@, host_url("127.0.0.1"@, port))
                    &&& has_pair(list, "--video-codec"@, video_codec.env_value())
                    &&& has_pair(list, "--stream-quality"@, stream_quality.profile_id())
                },
                ProviderCommand::Status { config } => {
                    &&& list[0] == "status"@
                    &&& config is Some ==> has_pair(list, "--config"@, config->Some_0@)
                    &&& config is None ==> list.len() == 1
                },
            }
        }),
{
    let list = provider_argument_list(command);
    match command {
        ProviderCommand::Connect { studio_url, host_id, host_token, config, work_root } => {
            assert(list[1] == "--studio-url"@ && list[2] == studio_url@);
            assert(list[3] == "--host-id"@ && list[4] == host_id@);
            assert(list[5] == "--host-token"@ && list[6] == host_token@);
            let root: int = if config is Some {
                9
            } else {
                7
            };
            if config is Some {
                assert(list[7] == "--config"@ && list[8] == config->Some_0@);
            }
            if work_root is Some {
                assert(list[root] == "--work-root"@ && list[root + 1] == work_root->Some_0@);
            }
        },
        ProviderCommand::Run {
            config,
            studio_url,
            host_id,
            host_token,
            work_root,
            max_capacity,
            simulator_template,
            port,
            video_codec,
            stream_quality,
        } => {
            lemma_local_url(port);
            let parts = seq![
                seq!["run"@],
                optional_pair("--config"@, option_view(config)),
                nonblank_pair("--studio-url"@, option_view(studio_url)),
                nonblank_pair("--host-id"@, option_view(host_id)),
                nonblank_pair("--host-token"@, option_view(host_token)),
                optional_pair("--work-root"@, option_view(work_root)),
                seq![
                    "--max-capacity"@,
                    decimal(max_capacity as nat),
                    "--simulator-template"@,
                    simulator_template@,
                    "--local-url"@,
                    "http://127.0.0.1:"@ + decimal(port as nat),
                    "--video-codec"@,
                    video_codec.env_value(),
                    "--stream-quality"@,
                    stream_quality.profile_id(),
                ],
            ];
            let tail = parts[6];
            assert(tail[0] == "--max-capacity"@ && tail[2] == "--simulator-template"@ && tail[4]
                == "--local-url"@ && tail[6] == "--video-codec"@ && tail[8] == "--stream-quality"@);
            lemma_seven_parts(parts, 6, "--max-capacity"@, tail[1]);
            lemma_seven_parts(parts, 6, "--simulator-template"@, tail[3]);
            lemma_seven_parts(parts, 6, "--local-url"@, tail[5]);
            lemma_seven_parts(parts, 6, "--video-codec"@, tail[7]);
            lemma_seven_parts(parts, 6, "--stream-quality"@, tail[9]);
            if config is Some {
                added_flags_stand_in_front_of_their_values("--config"@, config->Some_0@);
                lemma_seven_parts(parts, 1, "--config"@, config->Some_0@);
            }
            if studio_url is Some && !blank(studio_url->Some_0@) {
                added_flags_stand_in_front_of_their_values("--studio-url"@, studio_url->Some_0@);
                lemma_seven_parts(parts, 2, "--studio-url"@, studio_url->Some_0@);
            }
            if host_id is Some && !blank(host_id->Some_0@) {
                added_flags_stand_in_front_of_their_values("--host-id"@, host_id->Some_0@);
                lemma_seven_parts(parts, 3, "--host-id"@, host_id->Some_0@);
            }
            if host_token is Some && !blank(host_token->Some_0@) {
                added_flags_stand_in_front_of_their_values("--host-token"@, host_token->Some_0@);
                lemma_seven_parts(parts, 4, "--host-token"@, host_token->Some_0@);
            }
            if work_root is Some {
                added_flags_stand_in_front_of_their_values("--work-root"@, work_root->Some_0@);
                lemma_seven_parts(parts, 5, "--work-root"@, work_root->Some_0@);
            }
            assert(list[0] == "run"@);
        },
        ProviderCommand::Status { config } => {
            if config is Some {
                assert(list[1] == "--config"@ && list[2] == config->Some_0@);
            }
        },
    }
}

/// A script is looked for below the project, then below the package, then below the
/// current directory, and nowhere else.
pub proof fn scripts_are_looked_for_in_order(
    script: Seq<char>,
    project_root: Option<Seq<char>>,
    package_root: Option<Seq<char>>,
    current_dir: Option<Seq<char>>,
    windows: bool,
)
    ensures
        ({
            let places = script_places(script, project_root, package_root, current_dir, windows);
            let known: int = (if project_root is Some {
                1int
            } else {
                0
            }) + (if package_root is Some {
                1int
            } else {
                0
            });
            &&& project_root matches Some(root) ==> places[0] == path_below(root, script, windows)
            &&& package_root matches Some(root) ==> places[known - 1] == path_below(
                root,
                script,
                windows,
            )
            &&& current_dir matches Some(root) ==> places[known] == path_below(
                root,
                script,
                windows,
            ) && places.len() == known + 1
            &&& current_dir is None ==> places.len() == known
        }),
{
}

/// The line on a stream tells the codec, whether it is sent as it is made, and the
/// quality: those that the service reports before those that were asked for.
pub proof fn stream_lines_tell_the_stream(codec: Seq<char>, quality: Seq<char>)
    ensures
        stream_line(codec, true, Some(quality)) == "Stream: "@ + codec + ", realtime, quality="@
            + quality,
        stream_line(codec, false, Some(quality)) == "Stream: "@ + codec + ", quality="@ + quality,
        stream_line(codec, true, None) == "Stream: "@ + codec + ", realtime"@,
        stream_line(codec, false, None) == "Stream: "@ + codec,
        reported_codec(None, codec) == codec,
        reported_quality(None, Some(quality)) == Some(quality),
        reported_realtime(None),
{
    reveal_strlit(", realtime");
    reveal_strlit(", quality=");
    reveal_strlit(", realtime, quality=");
    reveal_strlit("");
    assert(stream_line(codec, true, Some(quality)) =~= "Stream: "@ + codec
        + ", realtime, quality="@ + quality);
    assert(stream_line(codec, false, Some(quality)) =~= "Stream: "@ + codec + ", quality="@
        + quality);
    assert(stream_line(codec, true, None) =~= "Stream: "@ + codec + ", realtime"@);
    assert(stream_line(codec, false, None) =~= "Stream: "@ + codec);
}

/// What a service reports of its stream is told, whatever was asked for.
pub proof fn reports_win_over_requests(
    report: Seq<char>,
    asked: Seq<char>,
    wanted: Option<Seq<char>>,
)
    ensures
        string_field(report, "videoCodec"@) matches Some(codec) ==> reported_codec(
            Some(report),
            asked,
        ) == codec,
        string_field(report, "videoCodec"@) is None ==> reported_codec(Some(report), asked)
            == asked,
        bool_field(report, "realtimeStream"@) == Some(false) <==> !reported_realtime(Some(report)),
        json_field(report, "streamQuality"@) matches Some(quality) ==> (string_field(
            quality,
            "profile"@,
        ) matches Some(profile) ==> reported_quality(Some(report), wanted) == Some(profile)),
        json_field(report, "streamQuality"@) is None ==> reported_quality(Some(report), wanted)
            == wanted,
{
}

} // verus!
