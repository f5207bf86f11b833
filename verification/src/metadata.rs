//! The record of a running service, and whether a running service is the one
//! that is asked for.
use vstd::prelude::*;

use crate::error::SimdeckError;
use crate::launch::{
    bind_flag_sets_the_interface, default_launch, launch_of, mode_flags_set_their_modes,
    one_flag_changes_one_option, port_flag_sets_the_port, text_flags_set_their_texts,
    DefaultServiceLaunchOptions, DefaultServiceLaunchView, SERVICE_PORT,
};
use crate::launch_agent::{ServiceOptions, ServiceOptionsView};
use crate::modes::{
    android_gpu_mode, android_gpu_mode_reads_back, local_profile, local_stream_quality_profile,
    profiles_go_by_their_identifiers, stream_quality_profile, video_codec_mode,
    video_codec_mode_reads_back, AndroidGpuMode, VideoCodecMode,
};
use crate::net::{
    host_url, http_url_for_host, ip_of, lemma_local_url, localhost, IpAddr, IpAddrView,
};
use crate::numbers::{
    decimal, hex_padded, hex_padded_text, numbers_of_width, padded_hex_reads_back,
    sixteen_hex_digits_are_injective, unsigned_value,
};
use crate::paths::{join_path, option_paths_equal, path_below, paths_equal, same_option_path};
use crate::service::{unprivileged, unprivileged_port, ServiceInstallResult, ServiceInstallView};
use crate::text::{
    as_option_str, blank, clone_option, option_eq, option_str_view, option_view, owned, trim,
    trimmed,
};

verus! {

/// The record of a running service.
#[derive(Debug)]
pub struct ServiceMetadata {
    pub project_root: String,
    pub pid: u32,
    pub http_url: String,
    pub port: u16,
    pub bind: IpAddr,
    pub advertise_host: Option<String>,
    pub client_root: Option<String>,
    pub access_token: String,
    pub pairing_code: Option<String>,
    pub binary_path: String,
    pub started_at: u64,
    pub log_path: Option<String>,
    pub video_codec: Option<String>,
    pub android_gpu: Option<String>,
    pub low_latency: bool,
    pub realtime_stream: bool,
    pub stream_quality_profile: Option<String>,
    pub local_stream_fps: Option<u32>,
}

/// The record as the contracts speak of it.
pub struct ServiceMetadataView {
    pub project_root: Seq<char>,
    pub pid: u32,
    pub http_url: Seq<char>,
    pub port: u16,
    pub bind: IpAddrView,
    pub advertise_host: Option<Seq<char>>,
    pub client_root: Option<Seq<char>>,
    pub access_token: Seq<char>,
    pub pairing_code: Option<Seq<char>>,
    pub binary_path: Seq<char>,
    pub started_at: u64,
    pub log_path: Option<Seq<char>>,
    pub video_codec: Option<Seq<char>>,
    pub android_gpu: Option<Seq<char>>,
    pub low_latency: bool,
    pub realtime_stream: bool,
    pub stream_quality_profile: Option<Seq<char>>,
    pub local_stream_fps: Option<u32>,
}

impl View for ServiceMetadata {
    type V = ServiceMetadataView;

    open spec fn view(&self) -> ServiceMetadataView {
        ServiceMetadataView {
            project_root: self.project_root@,
            pid: self.pid,
            http_url: self.http_url@,
            port: self.port,
            bind: self.bind@,
            advertise_host: option_view(self.advertise_host),
            client_root: option_view(self.client_root),
            access_token: self.access_token@,
            pairing_code: option_view(self.pairing_code),
            binary_path: self.binary_path@,
            started_at: self.started_at,
            log_path: option_view(self.log_path),
            video_codec: option_view(self.video_codec),
            android_gpu: option_view(self.android_gpu),
            low_latency: self.low_latency,
            realtime_stream: self.realtime_stream,
            stream_quality_profile: option_view(self.stream_quality_profile),
            local_stream_fps: self.local_stream_fps,
        }
    }
}

/// What a service is asked to be.
#[derive(Debug)]
pub struct ServiceLaunchOptions {
    pub port: u16,
    pub bind: IpAddr,
    pub advertise_host: Option<String>,
    pub client_root: Option<String>,
    pub video_codec: VideoCodecMode,
    pub android_gpu: AndroidGpuMode,
    pub low_latency: bool,
    pub realtime_stream: bool,
    pub allow_port_probe: bool,
    pub stream_quality_profile: Option<String>,
    pub local_stream_fps: Option<u32>,
}

/// The options as the contracts speak of them.
pub struct ServiceLaunchView {
    pub port: u16,
    pub bind: IpAddrView,
    pub advertise_host: Option<Seq<char>>,
    pub client_root: Option<Seq<char>>,
    pub video_codec: VideoCodecMode,
    pub android_gpu: AndroidGpuMode,
    pub low_latency: bool,
    pub realtime_stream: bool,
    pub allow_port_probe: bool,
    pub stream_quality_profile: Option<Seq<char>>,
    pub local_stream_fps: Option<u32>,
}

impl View for ServiceLaunchOptions {
    type V = ServiceLaunchView;

    open spec fn view(&self) -> ServiceLaunchView {
        ServiceLaunchView {
            port: self.port,
            bind: self.bind@,
            advertise_host: option_view(self.advertise_host),
            client_root: option_view(self.client_root),
            video_codec: self.video_codec,
            android_gpu: self.android_gpu,
            low_latency: self.low_latency,
            realtime_stream: self.realtime_stream,
            allow_port_probe: self.allow_port_probe,
            stream_quality_profile: option_view(self.stream_quality_profile),
            local_stream_fps: self.local_stream_fps,
        }
    }
}

impl Default for ServiceLaunchOptions {
    fn default() -> (options: Self)
        ensures
            options@ == (ServiceLaunchView {
                port: SERVICE_PORT,
                bind: IpAddrView::V4(127, 0, 0, 1),
                advertise_host: None,
                client_root: None,
                video_codec: VideoCodecMode::Auto,
                android_gpu: AndroidGpuMode::Host,
                low_latency: false,
                realtime_stream: false,
                allow_port_probe: false,
                stream_quality_profile: Some("full"@),
                local_stream_fps: None,
            }),
    {
        ServiceLaunchOptions {
            port: SERVICE_PORT,
            bind: localhost(),
            advertise_host: None,
            client_root: None,
            video_codec: VideoCodecMode::Auto,
            android_gpu: AndroidGpuMode::Host,
            low_latency: false,
            realtime_stream: false,
            allow_port_probe: false,
            stream_quality_profile: Some(owned("full")),
            local_stream_fps: None,
        }
    }
}

impl Clone for ServiceLaunchOptions {
    fn clone(&self) -> (copy: Self)
        ensures
            copy == *self,
    {
        ServiceLaunchOptions {
            port: self.port,
            bind: self.bind.clone(),
            advertise_host: clone_option(&self.advertise_host),
            client_root: clone_option(&self.client_root),
            video_codec: self.video_codec,
            android_gpu: self.android_gpu,
            low_latency: self.low_latency,
            realtime_stream: self.realtime_stream,
            allow_port_probe: self.allow_port_probe,
            stream_quality_profile: clone_option(&self.stream_quality_profile),
            local_stream_fps: self.local_stream_fps,
        }
    }
}

impl ServiceLaunchView {
    /// The stream is sent as it is made: asked for, or set by a quality profile.
    pub open spec fn realtime(self) -> bool {
        self.realtime_stream || self.stream_quality_profile is Some
    }

    /// The options of a LaunchAgent that serves the same, without credentials.
    pub open spec fn as_launch_agent(self) -> ServiceOptionsView {
        ServiceOptionsView {
            port: self.port,
            bind: self.bind,
            advertise_host: self.advertise_host,
            client_root: self.client_root,
            video_codec: self.video_codec,
            android_gpu: self.android_gpu,
            low_latency: self.low_latency,
            stream_quality_profile: self.stream_quality_profile,
            local_stream_fps: self.local_stream_fps,
            access_token: None,
            pairing_code: None,
        }
    }
}

impl ServiceLaunchOptions {
    /// Tells whether the stream is sent as it is made.
    pub fn is_realtime(&self) -> (result: bool)
        ensures
            result == self@.realtime(),
    {
        self.realtime_stream || self.stream_quality_profile.is_some()
    }

    /// The options of a LaunchAgent that serves the same, without credentials.
    pub fn into_launch_agent_options(self) -> (options: ServiceOptions)
        ensures
            options@ == self@.as_launch_agent(),
    {
        ServiceOptions {
            port: self.port,
            bind: self.bind,
            advertise_host: self.advertise_host,
            client_root: self.client_root,
            video_codec: self.video_codec,
            android_gpu: self.android_gpu,
            low_latency: self.low_latency,
            stream_quality_profile: self.stream_quality_profile,
            local_stream_fps: self.local_stream_fps,
            access_token: None,
            pairing_code: None,
        }
    }
}

/// The port that a record gives where it names none.
pub fn default_service_port() -> (port: u16)
    ensures
        port == SERVICE_PORT,
{
    SERVICE_PORT
}

/// The interface that a record gives where it names none.
pub fn default_service_bind() -> (bind: IpAddr)
    ensures
        bind@ == IpAddrView::V4(127, 0, 0, 1),
{
    localhost()
}

/// A service on port `actual` is where the options want it: on the port itself,
/// or above it where another port will do and the port itself is taken.
pub open spec fn port_matches(actual: u16, options: ServiceLaunchView, preferred_free: bool) -> bool {
    let preferred = unprivileged(options.port);
    actual == preferred || (options.allow_port_probe && actual > preferred && !preferred_free)
}

pub fn service_port_matches_launch_options(
    actual: u16,
    options: &ServiceLaunchOptions,
    preferred_free: bool,
) -> (result: bool)
    ensures
        result == port_matches(actual, options@, preferred_free),
{
    let preferred = unprivileged_port(options.port);
    actual == preferred || (options.allow_port_probe && actual > preferred && !preferred_free)
}

/// A running service is what the options ask for.
pub open spec fn service_matches(
    metadata: ServiceMetadataView,
    options: ServiceLaunchView,
    preferred_free: bool,
    windows: bool,
) -> bool {
    &&& port_matches(metadata.port, options, preferred_free)
    &&& metadata.bind == options.bind
    &&& metadata.advertise_host == options.advertise_host
    &&& option_paths_equal(metadata.client_root, options.client_root, windows)
    &&& metadata.video_codec == Some(options.video_codec.env_value())
    &&& metadata.android_gpu == Some(options.android_gpu.emulator_value())
    &&& metadata.low_latency == options.low_latency
    &&& metadata.realtime_stream == options.realtime()
    &&& metadata.stream_quality_profile == options.stream_quality_profile
    &&& metadata.local_stream_fps == options.local_stream_fps
}

fn fps_eq(a: Option<u32>, b: Option<u32>) -> (result: bool)
    ensures
        result == (a == b),
{
    match (a, b) {
        (Some(x), Some(y)) => x == y,
        (None, None) => true,
        _ => false,
    }
}

/// Tells whether a running service is what the options ask for.
/// `preferred_free` tells whether the port that they prefer is free, `windows` how
/// paths are compared.
pub fn service_matches_launch_options(
    metadata: &ServiceMetadata,
    options: &ServiceLaunchOptions,
    preferred_free: bool,
    windows: bool,
) -> (result: bool)
    ensures
        result == service_matches(metadata@, options@, preferred_free, windows),
{
    service_port_matches_launch_options(metadata.port, options, preferred_free)
        && metadata.bind.same(&options.bind) && option_eq(
        as_option_str(&metadata.advertise_host),
        as_option_str(&options.advertise_host),
    ) && same_option_path(
        as_option_str(&metadata.client_root),
        as_option_str(&options.client_root),
        windows,
    )
        && option_eq(
        as_option_str(&metadata.video_codec),
        Some(options.video_codec.as_env_value()),
    ) && option_eq(
        as_option_str(&metadata.android_gpu),
        Some(options.android_gpu.as_emulator_value()),
    ) && metadata.low_latency == options.low_latency && metadata.realtime_stream
        == options.is_realtime() && option_eq(
        as_option_str(&metadata.stream_quality_profile),
        as_option_str(&options.stream_quality_profile),
    ) && fps_eq(metadata.local_stream_fps, options.local_stream_fps)
}

/// The record of a LaunchAgent that publishes a token.
pub open spec fn launch_agent_record(
    service: ServiceInstallView,
    token: Seq<char>,
    project_root: Seq<char>,
    now: u64,
) -> ServiceMetadataView {
    ServiceMetadataView {
        project_root,
        pid: 0,
        http_url: host_url("127.0.0.1"@, service.port),
        port: service.port,
        bind: IpAddrView::V4(127, 0, 0, 1),
        advertise_host: service.advertise_host,
        client_root: None,
        access_token: token,
        pairing_code: service.pairing_code,
        binary_path: service.executable_path,
        started_at: now,
        log_path: Some(service.stdout_log),
        video_codec: None,
        android_gpu: None,
        low_latency: false,
        realtime_stream: true,
        stream_quality_profile: None,
        local_stream_fps: None,
    }
}

/// The record of a service that runs as a LaunchAgent.
pub fn metadata_from_launch_agent(
    service: ServiceInstallResult,
    project_root: &str,
    now: u64,
) -> (result: Result<ServiceMetadata, SimdeckError>)
    ensures
        match result {
            Ok(metadata) => {
                &&& service@.access_token is Some
                &&& metadata@ == launch_agent_record(
                    service@,
                    service@.access_token->Some_0,
                    project_root@,
                    now,
                )
            },
            Err(error) => service@.access_token is None && error.text()
                == "SimDeck service did not publish an access token"@,
        },
{
    let access_token = match service.access_token {
        Some(token) => token,
        None => {
            return Err(
                SimdeckError::from_text("SimDeck service did not publish an access token"),
            );
        },
    };
    Ok(
        ServiceMetadata {
            project_root: owned(project_root),
            pid: 0,
            http_url: http_url_for_host("127.0.0.1", service.port),
            port: service.port,
            bind: localhost(),
            advertise_host: service.advertise_host,
            client_root: None,
            access_token,
            pairing_code: service.pairing_code,
            binary_path: service.executable_path,
            started_at: now,
            log_path: Some(service.stdout_log),
            video_codec: None,
            android_gpu: None,
            low_latency: false,
            realtime_stream: true,
            stream_quality_profile: None,
            local_stream_fps: None,
        },
    )
}

/// A service that runs as a LaunchAgent never passes for one with launch
/// options: its record does not say what it was started with.
pub proof fn launch_agent_record_matches_no_options(
    service: ServiceInstallView,
    token: Seq<char>,
    project_root: Seq<char>,
    now: u64,
    options: ServiceLaunchView,
    preferred_free: bool,
    windows: bool,
)
    ensures
        !service_matches(
            launch_agent_record(service, token, project_root, now),
            options,
            preferred_free,
            windows,
        ),
{
}

/// What was found out about a service.
#[derive(Clone, Copy, Debug, PartialEq, Eq, Structural)]
pub struct Probe {
    /// It answers.
    pub healthy: bool,
    /// It was started by this executable.
    pub same_binary: bool,
}

/// What is done about a service when one with certain options is asked for.
#[derive(Clone, Copy, Debug, PartialEq, Eq, Structural)]
pub enum SingletonAction {
    /// The LaunchAgent serves as it is.
    UseActive,
    /// The recorded service serves as it is.
    UseRecorded,
    /// A service is started. The recorded one, if there is one, lends it its
    /// credentials (see `singleton_credentials`) and is ended first, or kept because
    /// another executable started it.
    Start { terminate_recorded: bool, foreign_recorded: bool },
}

/// What is done when a service with certain options is asked for.
pub open spec fn singleton_action_for(
    active: Option<ServiceMetadataView>,
    active_probe: Probe,
    recorded: Option<ServiceMetadataView>,
    recorded_probe: Probe,
    options: ServiceLaunchView,
    preferred_free: bool,
    windows: bool,
) -> SingletonAction {
    if active is Some && active_probe.healthy && active_probe.same_binary && service_matches(
        active->Some_0,
        options,
        preferred_free,
        windows,
    ) {
        SingletonAction::UseActive
    } else if recorded is Some && recorded_probe.healthy && recorded_probe.same_binary
        && service_matches(recorded->Some_0, options, preferred_free, windows) {
        SingletonAction::UseRecorded
    } else {
        let apart = recorded is Some && !(active is Some && active->Some_0.port
            == recorded->Some_0.port);
        SingletonAction::Start {
            terminate_recorded: apart && (!recorded_probe.healthy || recorded_probe.same_binary),
            foreign_recorded: apart && recorded_probe.healthy && !recorded_probe.same_binary,
        }
    }
}

/// A record as an optional value.
pub open spec fn option_metadata_view(metadata: Option<&ServiceMetadata>) -> Option<
    ServiceMetadataView,
> {
    match metadata {
        Some(record) => Some(record@),
        None => None,
    }
}

/// Decides what is done when a service with certain options is asked for.
pub fn ensure_singleton_service(
    active: Option<&ServiceMetadata>,
    active_probe: Probe,
    recorded: Option<&ServiceMetadata>,
    recorded_probe: Probe,
    options: &ServiceLaunchOptions,
    preferred_free: bool,
    windows: bool,
) -> (action: SingletonAction)
    ensures
        action == singleton_action_for(
            option_metadata_view(active),
            active_probe,
            option_metadata_view(recorded),
            recorded_probe,
            options@,
            preferred_free,
            windows,
        ),
{
    if let Some(metadata) = active {
        if active_probe.healthy && active_probe.same_binary && service_matches_launch_options(
            metadata,
            options,
            preferred_free,
            windows,
        ) {
            return SingletonAction::UseActive;
        }
    }
    match recorded {
        Some(metadata) => {
            if recorded_probe.healthy && recorded_probe.same_binary
                && service_matches_launch_options(metadata, options, preferred_free, windows) {
                return SingletonAction::UseRecorded;
            }
            let shared_port = match active {
                Some(other) => other.port == metadata.port,
                None => false,
            };
            SingletonAction::Start {
                terminate_recorded: !shared_port && (!recorded_probe.healthy
                    || recorded_probe.same_binary),
                foreign_recorded: !shared_port && recorded_probe.healthy
                    && !recorded_probe.same_binary,
            }
        },
        None => SingletonAction::Start { terminate_recorded: false, foreign_recorded: false },
    }
}

/// A healthy service of another executable is never ended.
pub proof fn foreign_services_are_kept(
    active: Option<ServiceMetadataView>,
    active_probe: Probe,
    recorded: Option<ServiceMetadataView>,
    recorded_probe: Probe,
    options: ServiceLaunchView,
    preferred_free: bool,
    windows: bool,
)
    requires
        recorded_probe.healthy,
        !recorded_probe.same_binary,
    ensures
        singleton_action_for(
            active,
            active_probe,
            recorded,
            recorded_probe,
            options,
            preferred_free,
            windows,
        ) matches SingletonAction::Start { terminate_recorded, .. } ==> !terminate_recorded,
{
}

/// How a call without a command gets at its service.
#[derive(Clone, Copy, Debug, PartialEq, Eq, Structural)]
pub enum DefaultServicePlan {
    UseActive,
    UseRecorded,
    EnsureSingleton,
    EnsureLaunchAgent,
}

/// How a call without a command gets at its service. A service that runs is
/// used whatever its options, unless a port or a LaunchAgent is asked for.
pub open spec fn default_plan(
    port_explicit: bool,
    autostart: bool,
    active: bool,
    recorded: Option<Probe>,
) -> DefaultServicePlan {
    if autostart {
        DefaultServicePlan::EnsureLaunchAgent
    } else if port_explicit {
        DefaultServicePlan::EnsureSingleton
    } else if active {
        DefaultServicePlan::UseActive
    } else if recorded matches Some(probe) && probe.healthy && probe.same_binary {
        DefaultServicePlan::UseRecorded
    } else {
        DefaultServicePlan::EnsureSingleton
    }
}

pub fn default_service_plan(
    port_explicit: bool,
    autostart: bool,
    active: bool,
    recorded: Option<Probe>,
) -> (plan: DefaultServicePlan)
    ensures
        plan == default_plan(port_explicit, autostart, active, recorded),
{
    if !port_explicit && !autostart {
        if active {
            return DefaultServicePlan::UseActive;
        }
        if let Some(probe) = recorded {
            if probe.healthy && probe.same_binary {
                return DefaultServicePlan::UseRecorded;
            }
        }
        DefaultServicePlan::EnsureSingleton
    } else if autostart {
        DefaultServicePlan::EnsureLaunchAgent
    } else {
        DefaultServicePlan::EnsureSingleton
    }
}

/// What a call without a command asks of a service that it starts.
pub open spec fn default_launch_options(
    options: DefaultServiceLaunchView,
    configured_port: Option<u16>,
) -> ServiceLaunchView {
    ServiceLaunchView {
        port: if options.port_explicit {
            options.port
        } else {
            match configured_port {
                Some(port) => port,
                None => options.port,
            }
        },
        bind: options.bind,
        advertise_host: options.advertise_host,
        client_root: options.client_root,
        video_codec: options.video_codec,
        android_gpu: options.android_gpu,
        low_latency: options.low_latency,
        realtime_stream: false,
        allow_port_probe: !options.autostart,
        stream_quality_profile: local_profile(options.low_latency, options.stream_quality),
        local_stream_fps: options.local_stream_fps,
    }
}

/// What a call without a command asks of a service that it starts.
/// `configured_port` is the port of the user's configuration.
pub fn run_default_service(
    options: &DefaultServiceLaunchOptions,
    configured_port: Option<u16>,
) -> (launch: ServiceLaunchOptions)
    ensures
        launch@ == default_launch_options(options@, configured_port),
{
    let port = if options.port_explicit {
        options.port
    } else {
        match configured_port {
            Some(port) => port,
            None => options.port,
        }
    };
    ServiceLaunchOptions {
        port,
        bind: options.bind.clone(),
        advertise_host: clone_option(&options.advertise_host),
        client_root: clone_option(&options.client_root),
        video_codec: options.video_codec,
        android_gpu: options.android_gpu,
        low_latency: options.low_latency,
        realtime_stream: false,
        allow_port_probe: !options.autostart,
        stream_quality_profile: local_stream_quality_profile(
            options.low_latency,
            options.stream_quality,
        ),
        local_stream_fps: options.local_stream_fps,
    }
}

/// Which service's URL a command is sent to.
#[derive(Debug)]
pub enum CommandService {
    /// One whose URL is known.
    Url(String),
    /// One that is made sure of first.
    Ensure,
}

/// A URL that is not blank.
pub open spec fn usable_url(url: Option<Seq<char>>) -> Option<Seq<char>> {
    match url {
        Some(text) => if trimmed(text).len() == 0 {
            None
        } else {
            Some(text)
        },
        None => None,
    }
}

/// The URL that a command is sent to: the given one, else that of the
/// environment, where it is not blank; else that of the LaunchAgent; else that
/// of the recorded service, where it answers.
pub open spec fn command_url(
    explicit: Option<Seq<char>>,
    environment: Option<Seq<char>>,
    active_port: Option<u16>,
    recorded: Option<Seq<char>>,
    recorded_healthy: bool,
) -> Option<Seq<char>> {
    let named = usable_url(
        if explicit is Some {
            explicit
        } else {
            environment
        },
    );
    if named is Some {
        named
    } else if active_port is Some {
        Some(host_url("127.0.0.1"@, active_port->Some_0))
    } else if recorded is Some && recorded_healthy {
        recorded
    } else {
        None
    }
}

/// Which service a command is sent to. `active_port` is the port of the
/// LaunchAgent, `recorded_url` the URL of the recorded service.
pub fn command_service_url(
    explicit: Option<&str>,
    environment: Option<&str>,
    active_port: Option<u16>,
    recorded_url: Option<&str>,
    recorded_healthy: bool,
) -> (target: CommandService)
    ensures
        match target {
            CommandService::Url(url) => command_url(
                option_str_view(explicit),
                option_str_view(environment),
                active_port,
                option_str_view(recorded_url),
                recorded_healthy,
            ) == Some(url@),
            CommandService::Ensure => command_url(
                option_str_view(explicit),
                option_str_view(environment),
                active_port,
                option_str_view(recorded_url),
                recorded_healthy,
            ) is None,
        },
{
    let named = if explicit.is_some() {
        explicit
    } else {
        environment
    };
    if let Some(url) = named {
        if !trim(url).as_str().is_empty() {
            return CommandService::Url(owned(url));
        }
    }
    if let Some(port) = active_port {
        return CommandService::Url(http_url_for_host("127.0.0.1", port));
    }
    if let Some(url) = recorded_url {
        if recorded_healthy {
            return CommandService::Url(owned(url));
        }
    }
    CommandService::Ensure
}

/// The first of several ports that is known, else the usual one.
pub open spec fn first_known_port(ports: Seq<Option<u16>>) -> u16
    decreases ports.len(),
{
    if ports.len() == 0 {
        SERVICE_PORT
    } else if ports[0] is Some {
        ports[0]->Some_0
    } else {
        first_known_port(ports.drop_first())
    }
}

/// The port to restart a service on.
pub open spec fn restart_port(
    explicit: Option<u16>,
    installed: Option<u16>,
    recorded: Option<u16>,
    configured: Option<u16>,
) -> u16 {
    first_known_port(seq![explicit, installed, recorded, configured])
}

/// A service is restarted on the port that is given; else on that of the installed
/// LaunchAgent, of the recorded service, or of the configuration, the first of these
/// that there is; and on 4310 without any.
pub proof fn restarts_keep_the_port(
    port: u16,
    installed: Option<u16>,
    recorded: Option<u16>,
    configured: Option<u16>,
)
    ensures
        restart_port(Some(port), installed, recorded, configured) == port,
        restart_port(None, Some(port), recorded, configured) == port,
        restart_port(None, None, Some(port), configured) == port,
        restart_port(None, None, None, Some(port)) == port,
        restart_port(None, None, None, None) == 4310,
{
    reveal_with_fuel(first_known_port, 5);
}

/// The port to restart a service on: the given one, else that of the installed
/// LaunchAgent, else that of the recorded service, else that of the user's
/// configuration, else the usual one.
pub fn service_restart_port(
    explicit: Option<u16>,
    installed: Option<u16>,
    recorded: Option<u16>,
    configured: Option<u16>,
) -> (port: u16)
    ensures
        port == restart_port(explicit, installed, recorded, configured),
        port == match explicit {
            Some(given) => given,
            None => match installed {
                Some(found) => found,
                None => match recorded {
                    Some(found) => found,
                    None => match configured {
                        Some(set) => set,
                        None => SERVICE_PORT,
                    },
                },
            },
        },
{
    proof {
        reveal_with_fuel(first_known_port, 5);
    }
    if let Some(port) = explicit {
        return port;
    }
    if let Some(port) = installed {
        return port;
    }
    if let Some(port) = recorded {
        return port;
    }
    configured_service_port(None, configured)
}

/// The port of a service: the given one, else that of the user's
/// configuration, else the usual one.
pub fn configured_service_port(explicit: Option<u16>, configured: Option<u16>) -> (port: u16)
    ensures
        port == match explicit {
            Some(given) => given,
            None => match configured {
                Some(set) => set,
                None => SERVICE_PORT,
            },
        },
{
    match explicit {
        Some(port) => port,
        None => match configured {
            Some(port) => port,
            None => SERVICE_PORT,
        },
    }
}

/// How the service of a project is stopped.
#[derive(Clone, Copy, Debug, PartialEq, Eq, Structural)]
pub enum StopAction {
    /// The LaunchAgent is disabled.
    Disable,
    /// The recorded process is ended.
    Terminate { pid: u32 },
    /// Nothing runs.
    Nothing,
}

/// How the service of a project is stopped.
pub open spec fn stop_action(
    active_port: Option<u16>,
    recorded: Option<ServiceMetadataView>,
) -> StopAction {
    if recorded is Some && active_port != Some(recorded->Some_0.port) {
        StopAction::Terminate { pid: recorded->Some_0.pid }
    } else if active_port is Some {
        StopAction::Disable
    } else {
        StopAction::Nothing
    }
}

/// A recorded service is ended by its process, unless it is the LaunchAgent, which is
/// disabled; so is a LaunchAgent without a record. Where nothing is there, nothing is
/// done, and only there.
pub proof fn services_are_stopped_as_what_they_are(
    port: u16,
    recorded: ServiceMetadataView,
)
    ensures
        stop_action(None, Some(recorded)) == (StopAction::Terminate { pid: recorded.pid }),
        port != recorded.port ==> stop_action(Some(port), Some(recorded)) == (
        StopAction::Terminate { pid: recorded.pid }),
        stop_action(Some(recorded.port), Some(recorded)) is Disable,
        stop_action(Some(port), None) is Disable,
        stop_action(None, None) is Nothing,
{
}

pub fn stop_project_service(active_port: Option<u16>, recorded: Option<&ServiceMetadata>) -> (action:
    StopAction)
    ensures
        action == stop_action(active_port, option_metadata_view(recorded)),
        action == match option_metadata_view(recorded) {
            Some(metadata) => if active_port == Some(metadata.port) {
                StopAction::Disable
            } else {
                StopAction::Terminate { pid: metadata.pid }
            },
            None => if active_port is Some {
                StopAction::Disable
            } else {
                StopAction::Nothing
            },
        },
{
    match recorded {
        Some(metadata) => {
            let shared_port = match active_port {
                Some(port) => port == metadata.port,
                None => false,
            };
            if shared_port {
                StopAction::Disable
            } else {
                StopAction::Terminate { pid: metadata.pid }
            }
        },
        None => if active_port.is_some() {
            StopAction::Disable
        } else {
            StopAction::Nothing
        },
    }
}

/// The process to end so that a port is free for a LaunchAgent: that of the
/// recorded service, where it is on that port.
pub fn stop_singleton_service_on_port(port: u16, recorded: Option<&ServiceMetadata>) -> (pid: Option<
    u32,
>)
    ensures
        pid == match option_metadata_view(recorded) {
            Some(metadata) => if metadata.port == port {
                Some(metadata.pid)
            } else {
                None
            },
            None => None,
        },
{
    match recorded {
        Some(metadata) => if metadata.port == port {
            Some(metadata.pid)
        } else {
            None
        },
        None => None,
    }
}

/// The process to end before a LaunchAgent takes over: that of the recorded
/// service, where it answers. `healthy` tells whether it does.
pub fn service_to_replace(recorded: Option<&ServiceMetadata>, healthy: bool) -> (pid: Option<u32>)
    ensures
        pid == match option_metadata_view(recorded) {
            Some(metadata) => if healthy {
                Some(metadata.pid)
            } else {
                None
            },
            None => None,
        },
{
    match recorded {
        Some(metadata) => if healthy {
            Some(metadata.pid)
        } else {
            None
        },
        None => None,
    }
}

/// What is reported of a service.
#[derive(Clone, Copy, Debug, PartialEq, Eq, Structural)]
pub struct ServiceStatus {
    pub running: bool,
    pub healthy: bool,
    pub process_running: bool,
    /// The record is of a service that is gone, and is removed.
    pub stale: bool,
}

/// What is reported of a service.
pub open spec fn status_of(
    active: bool,
    recorded: bool,
    process_running: bool,
    healthy: bool,
) -> ServiceStatus {
    let known = active || recorded;
    let lives = active || (recorded && process_running);
    ServiceStatus {
        running: known && healthy,
        healthy: known && healthy,
        process_running: lives,
        stale: recorded && !lives && !healthy,
    }
}

/// A service is running where it answers, and only a service that is known can; a
/// record is stale where neither its process nor its service is there, and never
/// where a LaunchAgent runs.
pub proof fn services_run_where_they_answer(
    active: bool,
    recorded: bool,
    process_running: bool,
    healthy: bool,
)
    ensures
        ({
            let status = status_of(active, recorded, process_running, healthy);
            &&& status.running == status.healthy
            &&& status.healthy <==> healthy && (active || recorded)
            &&& status.stale ==> recorded && !active && !process_running && !healthy
            &&& recorded && !active && !process_running && !healthy ==> status.stale
            &&& active ==> status.process_running
            &&& !active ==> (status.process_running <==> recorded && process_running)
        }),
{
}

pub fn service_status(
    active: bool,
    recorded: bool,
    process_running: bool,
    healthy: bool,
) -> (status: ServiceStatus)
    ensures
        status == status_of(active, recorded, process_running, healthy),
        status.running == status.healthy,
        active ==> status == (ServiceStatus {
            running: healthy,
            healthy,
            process_running: true,
            stale: false,
        }),
        !active && recorded ==> status == (ServiceStatus {
            running: healthy,
            healthy,
            process_running,
            stale: !process_running && !healthy,
        }),
        !active && !recorded ==> status == (ServiceStatus {
            running: false,
            healthy: false,
            process_running: false,
            stale: false,
        }),
{
    if active {
        return ServiceStatus { running: healthy, healthy, process_running: true, stale: false };
    }
    let running = recorded && process_running;
    let answers = recorded && healthy;
    ServiceStatus {
        running: answers,
        healthy: answers,
        process_running: running,
        stale: recorded && !running && !answers,
    }
}

/// The number that the environment gives as the process to record, where it is one.
pub fn supervised_service_metadata_pid(value: Option<&str>) -> (pid: Option<u32>)
    ensures
        pid == match option_str_view(value) {
            Some(text) => match crate::numbers::unsigned_value(text, u32::MAX as nat) {
                Some(number) => if number > 0 {
                    Some(number as u32)
                } else {
                    None
                },
                None => None,
            },
            None => None,
        },
{
    match value {
        Some(text) => match crate::numbers::parse_u32(text) {
            Some(number) => if number > 0 {
                Some(number)
            } else {
                None
            },
            None => None,
        },
        None => None,
    }
}

/// The name of the file that holds a project's device, made of the hash of the
/// project's directory.
pub fn project_device_selection_file(hash: u64) -> (name: String)
    ensures
        name@ == hex_padded(hash as nat, 16) + ".json"@,
{
    let mut name = hex_padded_text(hash, 16);
    name.append(".json");
    name
}

/// The file that holds a project's device, below the directory of the user's state.
/// `hash` is the hash of the project's directory.
pub fn project_device_selection_path_for_root(state_dir: &str, hash: u64, windows: bool) -> (path: String)
    ensures
        path@ == path_below(
            path_below(state_dir@, "default-devices"@, windows),
            hex_padded(hash as nat, 16) + ".json"@,
            windows,
        ),
{
    let directory = join_path(state_dir, "default-devices", windows);
    join_path(directory.as_str(), project_device_selection_file(hash).as_str(), windows)
}

/// The file that holds the record of the service, below the directory of the user's
/// state.
pub fn service_metadata_path(state_dir: &str, windows: bool) -> (path: String)
    ensures
        path@ == path_below(state_dir@, "service.json"@, windows),
{
    join_path(state_dir, "service.json", windows)
}

/// The file that the service writes its log to, below the directory of the user's
/// state.
pub fn service_log_path(state_dir: &str, windows: bool) -> (path: String)
    ensures
        path@ == path_below(state_dir@, "service.log"@, windows),
{
    join_path(state_dir, "service.log", windows)
}

/// The file that holds the credentials of the service, below the directory of the
/// user's state.
pub fn project_service_credentials_path(state_dir: &str, windows: bool) -> (path: String)
    ensures
        path@ == path_below(state_dir@, "service-credentials.json"@, windows),
{
    join_path(state_dir, "service-credentials.json", windows)
}

/// One record is what one choice of options asks for: of two options that it
/// matches, neither differs in what the service does, is reached at, or serves; they
/// may differ only in the port that they prefer, where the service found it taken.
pub proof fn record_matches_one_choice_of_options(
    metadata: ServiceMetadataView,
    first: ServiceLaunchView,
    second: ServiceLaunchView,
    preferred_free: bool,
    windows: bool,
)
    requires
        service_matches(metadata, first, preferred_free, windows),
        service_matches(metadata, second, preferred_free, windows),
    ensures
        first.video_codec == second.video_codec,
        first.android_gpu == second.android_gpu,
        first.low_latency == second.low_latency,
        first.realtime() == second.realtime(),
        first.stream_quality_profile == second.stream_quality_profile,
        first.local_stream_fps == second.local_stream_fps,
        first.bind == second.bind,
        first.advertise_host == second.advertise_host,
        first.client_root is Some == second.client_root is Some,
        first.client_root is Some ==> paths_equal(
            first.client_root->Some_0,
            second.client_root->Some_0,
            windows,
        ),
        !first.allow_port_probe && !second.allow_port_probe && first.port >= 1024 && second.port
            >= 1024 ==> first.port == second.port,
{
    video_codec_mode_reads_back(first.video_codec);
    video_codec_mode_reads_back(second.video_codec);
    android_gpu_mode_reads_back(first.android_gpu);
    android_gpu_mode_reads_back(second.android_gpu);
}

/// A service is never taken for one on a lower port than the one that is asked for,
/// nor for one on another port at all, unless other ports will do and the one that
/// is asked for is taken. Ports below 1024 are asked for as 1024.
pub proof fn services_are_matched_by_their_port(
    metadata: ServiceMetadataView,
    options: ServiceLaunchView,
    preferred_free: bool,
    windows: bool,
)
    requires
        service_matches(metadata, options, preferred_free, windows),
    ensures
        metadata.port >= options.port,
        metadata.port >= 1024,
        (!options.allow_port_probe || preferred_free) && options.port >= 1024 ==> metadata.port
            == options.port,
        (!options.allow_port_probe || preferred_free) && options.port < 1024 ==> metadata.port
            == 1024,
{
}

/// A service is used as it is only where it answers, was started by this executable
/// and is what the options ask for; and where one is all of that, none is started.
pub proof fn services_are_reused_only_where_they_serve(
    active: Option<ServiceMetadataView>,
    active_probe: Probe,
    recorded: Option<ServiceMetadataView>,
    recorded_probe: Probe,
    options: ServiceLaunchView,
    preferred_free: bool,
    windows: bool,
)
    ensures
        ({
            let action = singleton_action_for(
                active,
                active_probe,
                recorded,
                recorded_probe,
                options,
                preferred_free,
                windows,
            );
            let active_serves = active is Some && active_probe == (Probe {
                healthy: true,
                same_binary: true,
            }) && service_matches(active->Some_0, options, preferred_free, windows);
            let recorded_serves = recorded is Some && recorded_probe == (Probe {
                healthy: true,
                same_binary: true,
            }) && service_matches(recorded->Some_0, options, preferred_free, windows);
            &&& action is UseActive <==> active_serves
            &&& action is UseRecorded <==> recorded_serves && !active_serves
            &&& action is Start <==> !recorded_serves && !active_serves
        }),
{
}

/// A recorded service that is not the one that is started for is ended where it is
/// dead or of this executable, and never where it shares its port with the
/// LaunchAgent. One that lives and is of another executable is told of as foreign.
pub proof fn recorded_services_make_room(
    active: Option<ServiceMetadataView>,
    active_probe: Probe,
    recorded: Option<ServiceMetadataView>,
    recorded_probe: Probe,
    options: ServiceLaunchView,
    preferred_free: bool,
    windows: bool,
)
    ensures
        singleton_action_for(
            active,
            active_probe,
            recorded,
            recorded_probe,
            options,
            preferred_free,
            windows,
        ) matches SingletonAction::Start { terminate_recorded, foreign_recorded } ==> {
            &&& recorded is None ==> !terminate_recorded && !foreign_recorded
            &&& !(terminate_recorded && foreign_recorded)
            &&& recorded is Some && active is Some && active->Some_0.port == recorded->Some_0.port
                ==> !terminate_recorded && !foreign_recorded
            &&& recorded is Some && (active is None || active->Some_0.port
                != recorded->Some_0.port) ==> (terminate_recorded || foreign_recorded) && (
            foreign_recorded <==> recorded_probe.healthy && !recorded_probe.same_binary)
        },
{
}

/// A call without a command never passes by a service that answers, unless a port or
/// a LaunchAgent is asked for: it starts one only where none is there that it could
/// use.
pub proof fn default_calls_use_what_runs(
    port_explicit: bool,
    autostart: bool,
    active: bool,
    recorded: Option<Probe>,
)
    ensures
        ({
            let plan = default_plan(port_explicit, autostart, active, recorded);
            &&& plan is EnsureLaunchAgent <==> autostart
            &&& port_explicit || autostart ==> !(plan is UseActive) && !(plan is UseRecorded)
            &&& plan is UseActive ==> active
            &&& plan is UseRecorded ==> !active && recorded == Some(
                Probe { healthy: true, same_binary: true },
            )
            &&& !port_explicit && !autostart && active ==> plan is UseActive
            &&& !port_explicit && !autostart && recorded == Some(
                Probe { healthy: true, same_binary: true },
            ) ==> !(plan is EnsureSingleton)
        }),
{
}

/// The service that a call without a command starts is what the call asks for, in
/// each of its options. The port of the call wins over that of the configuration.
pub proof fn default_launch_asks_for_its_options(
    options: DefaultServiceLaunchView,
    configured_port: Option<u16>,
)
    ensures
        ({
            let launch = default_launch_options(options, configured_port);
            &&& launch.bind == options.bind
            &&& launch.advertise_host == options.advertise_host
            &&& launch.client_root == options.client_root
            &&& launch.video_codec == options.video_codec
            &&& launch.android_gpu == options.android_gpu
            &&& launch.low_latency == options.low_latency
            &&& launch.local_stream_fps == options.local_stream_fps
            &&& options.port_explicit || configured_port is None ==> launch.port == options.port
            &&& !options.port_explicit && configured_port is Some ==> Some(launch.port)
                == configured_port
            &&& options.stream_quality matches Some(profile) ==> launch.stream_quality_profile
                == Some(profile.profile_id())
            &&& options.stream_quality is None && options.low_latency
                ==> launch.stream_quality_profile is None
            &&& options.stream_quality is None && !options.low_latency
                ==> launch.stream_quality_profile == Some("full"@)
            &&& launch.realtime() <==> launch.stream_quality_profile is Some
            &&& launch.allow_port_probe <==> !options.autostart
        }),
{
}

/// A command goes to the URL that it is given, and takes no other where that is not
/// blank; without one it goes to the LaunchAgent before the recorded service, and
/// never to a recorded service that does not answer.
pub proof fn commands_go_where_they_are_sent(
    explicit: Option<Seq<char>>,
    environment: Option<Seq<char>>,
    active_port: Option<u16>,
    recorded: Option<Seq<char>>,
    recorded_healthy: bool,
)
    ensures
        ({
            let url = command_url(explicit, environment, active_port, recorded, recorded_healthy);
            let given = if explicit is Some {
                explicit
            } else {
                environment
            };
            &&& given is Some && !blank(given->Some_0) ==> url == given
            &&& given is None || blank(given->Some_0) ==> {
                &&& active_port matches Some(port) ==> url == Some(
                    "http://127.0.0.1:"@ + decimal(port as nat),
                )
                &&& active_port is None && recorded_healthy ==> url == recorded
                &&& active_port is None && !recorded_healthy ==> url is None
            }
        }),
{
    lemma_local_url(if active_port is Some { active_port->Some_0 } else { 0 });
}

/// The options of a LaunchAgent that takes the place of a service ask for the same
/// service, and leave its credentials to be chosen.
pub proof fn launch_agent_serves_the_same(options: ServiceLaunchView)
    ensures
        ({
            let agent = options.as_launch_agent();
            &&& agent.port == options.port
            &&& agent.bind == options.bind
            &&& agent.advertise_host == options.advertise_host
            &&& agent.client_root == options.client_root
            &&& agent.video_codec == options.video_codec
            &&& agent.android_gpu == options.android_gpu
            &&& agent.low_latency == options.low_latency
            &&& agent.stream_quality_profile == options.stream_quality_profile
            &&& agent.local_stream_fps == options.local_stream_fps
            &&& agent.access_token is None && agent.pairing_code is None
        }),
{
}

/// The record of a LaunchAgent says where it is reached and with which credentials.
pub proof fn launch_agent_record_tells_of_its_service(
    service: ServiceInstallView,
    token: Seq<char>,
    project_root: Seq<char>,
    now: u64,
)
    ensures
        ({
            let record = launch_agent_record(service, token, project_root, now);
            &&& record.project_root == project_root
            &&& record.port == service.port
            &&& record.http_url == "http://127.0.0.1:"@ + decimal(
                service.port as nat,
            )
            &&& record.advertise_host == service.advertise_host
            &&& record.access_token == token
            &&& record.pairing_code == service.pairing_code
            &&& record.binary_path == service.executable_path
            &&& record.log_path == Some(service.stdout_log)
            &&& record.started_at == now
        }),
{
    lemma_local_url(service.port);
}

/// What a flag of a call without a command gives is what its service is asked for:
/// the interface of the address that follows `--bind`, whatever the address, and the
/// port that follows `-p`, whatever the configuration says.
pub proof fn flags_are_what_the_service_is_asked_for(
    text: Seq<char>,
    ipv6: Seq<Option<String>>,
    configured_port: Option<u16>,
)
    requires
        ipv6.len() == 2,
    ensures
        ip_of(text, option_view(ipv6[1])) matches Some(address) ==> {
            &&& launch_of(seq!["--bind"@, text], ipv6) matches Some(options)
            &&& default_launch_options(options, configured_port).bind == address
        },
        unsigned_value(text, 65535) matches Some(port) ==> {
            &&& launch_of(seq!["-p"@, text], ipv6) matches Some(options)
            &&& default_launch_options(options, configured_port).port == port
        },
        launch_of(seq!["--advertise-host"@, text], ipv6) matches Some(options)
            && default_launch_options(options, configured_port).advertise_host == Some(text),
        launch_of(seq!["--client-root"@, text], ipv6) matches Some(options)
            && default_launch_options(options, configured_port).client_root == Some(text),
        video_codec_mode(text) matches Some(mode) ==> {
            &&& launch_of(seq!["--video-codec"@, text], ipv6) matches Some(options)
            &&& default_launch_options(options, configured_port).video_codec == mode
        },
        android_gpu_mode(text) matches Some(mode) ==> {
            &&& launch_of(seq!["--android-gpu"@, text], ipv6) matches Some(options)
            &&& default_launch_options(options, configured_port).android_gpu == mode
        },
        stream_quality_profile(text) is Some ==> {
            &&& launch_of(seq!["--stream-quality"@, text], ipv6) matches Some(options)
            &&& default_launch_options(options, configured_port).stream_quality_profile == Some(
                text,
            )
        },
        unsigned_value(text, u32::MAX as nat) matches Some(fps) ==> (15 <= fps <= 240 ==> {
            &&& launch_of(seq!["--local-stream-fps"@, text], ipv6) matches Some(options)
            &&& default_launch_options(options, configured_port).local_stream_fps matches Some(
                rate,
            ) && rate == fps
        }),
{
    reveal_strlit("--bind");
    reveal_strlit("-p");
    reveal_strlit("--advertise-host");
    reveal_strlit("--client-root");
    reveal_strlit("--video-codec");
    reveal_strlit("--android-gpu");
    reveal_strlit("--stream-quality");
    reveal_strlit("--local-stream-fps");
    let first = option_view(ipv6[0]);
    let second = option_view(ipv6[1]);
    let options = default_launch();
    bind_flag_sets_the_interface(text, None, first, second, options);
    port_flag_sets_the_port(text, None, first, second, options);
    text_flags_set_their_texts(text, None, first, second, options);
    mode_flags_set_their_modes(text, None, first, second, options);
    if let Some(bind) = ip_of(text, second) {
        one_flag_changes_one_option(
            "--bind"@,
            text,
            ipv6,
            DefaultServiceLaunchView { bind, ..options },
        );
    }
    if let Some(port) = unsigned_value(text, 65535) {
        one_flag_changes_one_option(
            "-p"@,
            text,
            ipv6,
            DefaultServiceLaunchView { port: port as u16, port_explicit: true, ..options },
        );
    }
    one_flag_changes_one_option(
        "--advertise-host"@,
        text,
        ipv6,
        DefaultServiceLaunchView { advertise_host: Some(text), ..options },
    );
    one_flag_changes_one_option(
        "--client-root"@,
        text,
        ipv6,
        DefaultServiceLaunchView { client_root: Some(text), ..options },
    );
    if let Some(video_codec) = video_codec_mode(text) {
        one_flag_changes_one_option(
            "--video-codec"@,
            text,
            ipv6,
            DefaultServiceLaunchView { video_codec, ..options },
        );
    }
    if let Some(android_gpu) = android_gpu_mode(text) {
        one_flag_changes_one_option(
            "--android-gpu"@,
            text,
            ipv6,
            DefaultServiceLaunchView { android_gpu, ..options },
        );
    }
    if let Some(profile) = stream_quality_profile(text) {
        profiles_go_by_their_identifiers(profile, text);
        one_flag_changes_one_option(
            "--stream-quality"@,
            text,
            ipv6,
            DefaultServiceLaunchView { stream_quality: Some(profile), ..options },
        );
    }
    if let Some(fps) = unsigned_value(text, u32::MAX as nat) {
        if 15 <= fps <= 240 {
            one_flag_changes_one_option(
                "--local-stream-fps"@,
                text,
                ipv6,
                DefaultServiceLaunchView { local_stream_fps: Some(fps as u32), ..options },
            );
        }
    }
}

/// Two projects whose directories have different hashes keep their devices in
/// different files, and each file is named by sixteen digits.
pub proof fn device_files_are_told_apart(first: u64, second: u64)
    ensures
        (hex_padded(first as nat, 16) + ".json"@).len() == 16 + ".json"@.len(),
        hex_padded(first as nat, 16) + ".json"@ == hex_padded(second as nat, 16) + ".json"@
            ==> first == second,
{
    reveal_with_fuel(numbers_of_width, 17);
    assert(numbers_of_width(16, 16) == 0x1_0000_0000_0000_0000);
    padded_hex_reads_back(first as nat, 16);
    padded_hex_reads_back(second as nat, 16);
    let a = hex_padded(first as nat, 16) + ".json"@;
    let b = hex_padded(second as nat, 16) + ".json"@;
    if a == b {
        assert(a.take(16) =~= hex_padded(first as nat, 16));
        assert(b.take(16) =~= hex_padded(second as nat, 16));
        sixteen_hex_digits_are_injective(first, second);
    }
}

/// The contracts see all of a record, each field as what it is.
pub proof fn records_are_seen_whole(metadata: ServiceMetadata)
    ensures
        metadata@.project_root == metadata.project_root@,
        metadata@.pid == metadata.pid,
        metadata@.http_url == metadata.http_url@,
        metadata@.port == metadata.port,
        metadata@.bind == metadata.bind@,
        metadata@.advertise_host == option_view(metadata.advertise_host),
        metadata@.client_root == option_view(metadata.client_root),
        metadata@.access_token == metadata.access_token@,
        metadata@.pairing_code == option_view(metadata.pairing_code),
        metadata@.binary_path == metadata.binary_path@,
        metadata@.started_at == metadata.started_at,
        metadata@.log_path == option_view(metadata.log_path),
        metadata@.video_codec == option_view(metadata.video_codec),
        metadata@.android_gpu == option_view(metadata.android_gpu),
        metadata@.low_latency == metadata.low_latency,
        metadata@.realtime_stream == metadata.realtime_stream,
        metadata@.stream_quality_profile == option_view(metadata.stream_quality_profile),
        metadata@.local_stream_fps == metadata.local_stream_fps,
{
}

/// The contracts see all of the options of a service, each as what it is.
pub proof fn launch_options_are_seen_whole(options: ServiceLaunchOptions)
    ensures
        options@.port == options.port,
        options@.bind == options.bind@,
        options@.advertise_host == option_view(options.advertise_host),
        options@.client_root == option_view(options.client_root),
        options@.video_codec == options.video_codec,
        options@.android_gpu == options.android_gpu,
        options@.low_latency == options.low_latency,
        options@.realtime_stream == options.realtime_stream,
        options@.allow_port_probe == options.allow_port_probe,
        options@.stream_quality_profile == option_view(options.stream_quality_profile),
        options@.local_stream_fps == options.local_stream_fps,
{
}

} // verus!
