//! Running a service: its environment, the record that it keeps of itself, and
//! how it is advertised.
use vstd::prelude::*;

use crate::arguments::{option_decimal, push_text};
use crate::auth::{generate_access_token, generate_pairing_code, Entropy};
use crate::error::SimdeckError;
use crate::metadata::{
    port_matches, service_matches, ServiceLaunchView, ServiceMetadata, ServiceMetadataView,
};
use crate::modes::{
    android_gpu_mode, android_gpu_mode_reads_back, apply_stream_quality_environment,
    lemma_stream_variable_names, lemma_value_set, local_profile, profile_limits,
    quality_variables_carry_the_profile, stream_quality_profile, value_set, variable_views,
    video_codec_mode, video_codec_mode_reads_back, AndroidGpuMode, Variable, VideoCodecMode,
};
use crate::net::{host_url, lemma_local_url, IpAddr};
use crate::numbers::{decimal, decimal_text};
use crate::start::{optional_variable, push_fps, quality_variables};
use crate::text::{
    blank, clone_option, option_str_view, option_view, owned, str_eq, text_or, trim, trimmed, views,
};

verus! {

/// The variable that tells a service to be started again when the simulators'
/// service has another version.
pub const RESTART_ON_CORE_SIMULATOR_MISMATCH_ENV: &'static str =
    "SIMDECK_RESTART_ON_CORE_SIMULATOR_MISMATCH";

/// What a service runs with.
#[derive(Debug)]
pub struct ServeOptions {
    pub port: u16,
    pub bind: IpAddr,
    pub advertise_host: Option<String>,
    pub client_root: Option<String>,
    pub video_codec: VideoCodecMode,
    pub android_gpu: AndroidGpuMode,
    pub low_latency: bool,
    pub stream_quality_profile: Option<String>,
    pub local_stream_fps: Option<u32>,
}

/// The stream is sent as it is made: the environment says so, low latency is
/// asked for, or a quality profile is set.
pub open spec fn serves_realtime(options: ServeOptions, inherited: bool) -> bool {
    inherited || options.low_latency || options.stream_quality_profile is Some
}

/// Tells whether the stream is sent as it is made.
pub fn is_realtime_service(options: &ServeOptions, inherited: bool) -> (result: bool)
    ensures
        result == serves_realtime(*options, inherited),
{
    inherited || options.low_latency || options.stream_quality_profile.is_some()
}

/// A truth value in the environment.
pub open spec fn switch(on: bool) -> Seq<char> {
    if on {
        "1"@
    } else {
        "0"@
    }
}

fn switch_text(on: bool) -> (text: String)
    ensures
        text@ == switch(on),
{
    if on {
        owned("1")
    } else {
        owned("0")
    }
}

/// The variables that a service sets before it looks at its quality profile.
pub open spec fn leading_serve_variables(options: ServeOptions) -> Seq<(Seq<char>, Seq<char>)> {
    seq![
        ("SIMDECK_VIDEO_CODEC"@, options.video_codec.env_value()),
        ("SIMDECK_ANDROID_GPU"@, options.android_gpu.emulator_value()),
        ("SIMDECK_LOW_LATENCY"@, switch(options.low_latency)),
    ] + optional_variable("SIMDECK_LOCAL_STREAM_FPS"@, option_decimal(options.local_stream_fps))
}

/// The variables that a service sets before it looks at its quality profile: they
/// are set where the profile is unknown, too.
pub fn leading_variables(options: &ServeOptions) -> (variables: Vec<Variable>)
    ensures
        variable_views(variables@) == leading_serve_variables(*options),
{
    let mut variables: Vec<Variable> = Vec::new();
    variables.push(
        Variable { name: "SIMDECK_VIDEO_CODEC", value: owned(options.video_codec.as_env_value()) },
    );
    variables.push(
        Variable {
            name: "SIMDECK_ANDROID_GPU",
            value: owned(options.android_gpu.as_emulator_value()),
        },
    );
    variables.push(
        Variable { name: "SIMDECK_LOW_LATENCY", value: switch_text(options.low_latency) },
    );
    assert(variable_views(variables@) =~= seq![
        ("SIMDECK_VIDEO_CODEC"@, options.video_codec.env_value()),
        ("SIMDECK_ANDROID_GPU"@, options.android_gpu.emulator_value()),
        ("SIMDECK_LOW_LATENCY"@, switch(options.low_latency)),
    ]);
    push_fps(&mut variables, "SIMDECK_LOCAL_STREAM_FPS", options.local_stream_fps);
    variables
}

/// The variable that a service takes out of its environment: that of the frame
/// rate, where it has none.
pub fn removed_variable(options: &ServeOptions) -> (name: Option<&'static str>)
    ensures
        option_str_view(name) == if options.local_stream_fps is None {
            Some("SIMDECK_LOCAL_STREAM_FPS"@)
        } else {
            None
        },
{
    if options.local_stream_fps.is_none() {
        Some("SIMDECK_LOCAL_STREAM_FPS")
    } else {
        None
    }
}

/// The variables that a service sets for itself, in order: a later one of the
/// same name wins.
pub open spec fn serve_variables(options: ServeOptions, inherited: bool) -> Seq<
    (Seq<char>, Seq<char>),
> {
    leading_serve_variables(options) + quality_variables(
        option_view(options.stream_quality_profile),
    ) + optional_variable("SIMDECK_REALTIME_FPS"@, option_decimal(options.local_stream_fps)) + seq![
        ("SIMDECK_REALTIME_STREAM"@, switch(serves_realtime(options, inherited))),
        (RESTART_ON_CORE_SIMULATOR_MISMATCH_ENV@, "1"@),
    ]
}

/// The variables that a service sets for itself. `inherited` tells whether its
/// environment asks for a stream that is sent as it is made. An unknown quality
/// profile is an error: only the leading variables are set.
pub fn serve_with_appkit(options: &ServeOptions, inherited: bool) -> (result: Result<
    Vec<Variable>,
    SimdeckError,
>)
    ensures
        match result {
            Ok(variables) => {
                &&& option_view(options.stream_quality_profile) matches Some(id)
                    ==> stream_quality_profile(id) is Some
                &&& variable_views(variables@) == serve_variables(*options, inherited)
            },
            Err(error) => option_view(options.stream_quality_profile) matches Some(id)
                && stream_quality_profile(id) is None && error.text()
                == "Unknown stream quality profile `"@ + id + "`."@,
        },
{
    let mut quality: Vec<Variable> = Vec::new();
    assert(variable_views(quality@) =~= Seq::empty());
    if let Some(id) = &options.stream_quality_profile {
        match apply_stream_quality_environment(id.as_str()) {
            Ok(found) => {
                quality = found;
            },
            Err(error) => {
                return Err(error);
            },
        }
    }
    let mut variables = leading_variables(options);
    let ghost before = variable_views(variables@);
    let ghost added = quality@;
    variables.append(&mut quality);
    assert(variable_views(variables@) =~= before + variable_views(added));
    push_fps(&mut variables, "SIMDECK_REALTIME_FPS", options.local_stream_fps);
    let ghost front = variable_views(variables@);
    variables.push(
        Variable {
            name: "SIMDECK_REALTIME_STREAM",
            value: switch_text(is_realtime_service(options, inherited)),
        },
    );
    variables.push(
        Variable { name: RESTART_ON_CORE_SIMULATOR_MISMATCH_ENV, value: owned("1") },
    );
    assert(variable_views(variables@) =~= front + seq![
        ("SIMDECK_REALTIME_STREAM"@, switch(serves_realtime(*options, inherited))),
        (RESTART_ON_CORE_SIMULATOR_MISMATCH_ENV@, "1"@),
    ]);
    Ok(variables)
}

/// The token and the code that a service runs with: the given ones, else new ones.
pub fn run_credentials(
    access_token: Option<String>,
    pairing_code: Option<String>,
    entropy: &Entropy,
) -> (credentials: (String, String))
    ensures
        credentials.0@ == text_or(option_view(access_token), entropy.access_token()),
        credentials.1@ == text_or(option_view(pairing_code), entropy.pairing_code()),
{
    let token = match access_token {
        Some(given) => given,
        None => generate_access_token(entropy),
    };
    let code = match pairing_code {
        Some(given) => given,
        None => generate_pairing_code(entropy),
    };
    (token, code)
}

/// The record that a running service keeps of itself.
pub open spec fn running_record(
    options: ServeOptions,
    inherited: bool,
    project_root: Seq<char>,
    pid: u32,
    token: Seq<char>,
    code: Seq<char>,
    executable: Seq<char>,
    now: u64,
    log_path: Seq<char>,
) -> ServiceMetadataView {
    ServiceMetadataView {
        project_root,
        pid,
        http_url: "http://127.0.0.1:"@ + decimal(options.port as nat),
        port: options.port,
        bind: options.bind@,
        advertise_host: option_view(options.advertise_host),
        client_root: option_view(options.client_root),
        access_token: token,
        pairing_code: Some(code),
        binary_path: executable,
        started_at: now,
        log_path: Some(log_path),
        video_codec: Some(options.video_codec.env_value()),
        android_gpu: Some(options.android_gpu.emulator_value()),
        low_latency: options.low_latency,
        realtime_stream: serves_realtime(options, inherited),
        stream_quality_profile: option_view(options.stream_quality_profile),
        local_stream_fps: options.local_stream_fps,
    }
}

/// The record that a running service keeps of itself.
pub fn running_service_metadata(
    options: &ServeOptions,
    inherited: bool,
    project_root: &str,
    pid: u32,
    token: &str,
    code: &str,
    executable: &str,
    now: u64,
    log_path: &str,
) -> (metadata: ServiceMetadata)
    ensures
        metadata@ == running_record(
            *options,
            inherited,
            project_root@,
            pid,
            token@,
            code@,
            executable@,
            now,
            log_path@,
        ),
{
    let mut http_url = owned("http://127.0.0.1:");
    http_url.append(decimal_text(options.port as u64).as_str());
    ServiceMetadata {
        project_root: owned(project_root),
        pid,
        http_url,
        port: options.port,
        bind: options.bind.clone(),
        advertise_host: clone_option(&options.advertise_host),
        client_root: clone_option(&options.client_root),
        access_token: owned(token),
        pairing_code: Some(owned(code)),
        binary_path: owned(executable),
        started_at: now,
        log_path: Some(owned(log_path)),
        video_codec: Some(owned(options.video_codec.as_env_value())),
        android_gpu: Some(owned(options.android_gpu.as_emulator_value())),
        low_latency: options.low_latency,
        realtime_stream: is_realtime_service(options, inherited),
        stream_quality_profile: clone_option(&options.stream_quality_profile),
        local_stream_fps: options.local_stream_fps,
    }
}

/// A service that runs by the arguments and the environment that certain options
/// start it with. Its quality profile is not among the arguments: it is the one
/// of a service that is not asked for any.
pub open spec fn runs_by(options: ServeOptions, launch: ServiceLaunchView, inherited: bool) -> bool {
    &&& options.bind@ == launch.bind
    &&& option_view(options.advertise_host) == launch.advertise_host
    &&& option_view(options.client_root) == launch.client_root
    &&& options.video_codec == launch.video_codec
    &&& options.android_gpu == launch.android_gpu
    &&& options.low_latency == launch.low_latency
    &&& option_view(options.stream_quality_profile) == local_profile(launch.low_latency, None)
    &&& options.local_stream_fps == launch.local_stream_fps
    &&& inherited == launch.realtime()
}

/// What a running service records of itself is what the options ask for that it
/// was started with, where they ask for no other quality profile than the usual
/// one, and for low latency only together with a stream that is sent as it is
/// made.
pub proof fn running_service_matches_its_options(
    options: ServeOptions,
    launch: ServiceLaunchView,
    inherited: bool,
    project_root: Seq<char>,
    pid: u32,
    token: Seq<char>,
    code: Seq<char>,
    executable: Seq<char>,
    now: u64,
    log_path: Seq<char>,
    preferred_free: bool,
    windows: bool,
)
    requires
        runs_by(options, launch, inherited),
        port_matches(options.port, launch, preferred_free),
        launch.stream_quality_profile == local_profile(launch.low_latency, None),
        launch.low_latency ==> launch.realtime_stream,
    ensures
        service_matches(
            running_record(
                options,
                inherited,
                project_root,
                pid,
                token,
                code,
                executable,
                now,
                log_path,
            ),
            launch,
            preferred_free,
            windows,
        ),
{
}

/// The name under which a service is advertised.
pub open spec fn advertised_name(host: Seq<char>) -> Seq<char> {
    let name = trimmed(host);
    if name.len() == 0 || name == "127.0.0.1"@ || name == "localhost"@ {
        "SimDeck"@
    } else {
        "SimDeck "@ + name
    }
}

pub fn bonjour_service_name(advertise_host: &str) -> (name: String)
    ensures
        name@ == advertised_name(advertise_host@),
{
    let host = trim(advertise_host);
    if host.as_str().is_empty() || str_eq(host.as_str(), "127.0.0.1") || str_eq(
        host.as_str(),
        "localhost",
    ) {
        return owned("SimDeck");
    }
    let mut name = owned("SimDeck ");
    name.append(host.as_str());
    name
}

/// What a service is advertised with.
#[derive(Debug)]
pub struct Advertisement {
    pub advertise_host: String,
    pub http_port: u16,
    pub server_id: String,
    pub host_id: String,
    pub host_name: String,
    pub server_kind: String,
}

/// The arguments of `dns-sd` that advertise a service.
pub open spec fn advertisement_arguments(advertisement: Advertisement) -> Seq<Seq<char>> {
    seq![
        "-R"@,
        advertised_name(advertisement.advertise_host@),
        "_simdeck._tcp."@,
        "local."@,
        decimal(advertisement.http_port as nat),
        "sid="@ + advertisement.server_id@,
        "host="@ + advertisement.advertise_host@,
        "hid="@ + advertisement.host_id@,
        "hname="@ + advertisement.host_name@,
        "kind="@ + advertisement.server_kind@,
    ]
}

fn labelled(label: &str, text: &str) -> (result: String)
    ensures
        result@ == label@ + text@,
{
    let mut result = owned(label);
    result.append(text);
    result
}

/// The arguments of `dns-sd` that advertise a service; none for a service that
/// only the machine itself can reach.
pub fn bonjour_arguments(bind: &IpAddr, advertisement: &Advertisement) -> (arguments: Option<
    Vec<String>,
>)
    ensures
        match arguments {
            Some(list) => !bind@.loopback() && views(list@) == advertisement_arguments(
                *advertisement,
            ),
            None => bind@.loopback(),
        },
{
    if bind.is_loopback() {
        return None;
    }
    let mut list: Vec<String> = Vec::new();
    push_text(&mut list, "-R");
    push_text(&mut list, bonjour_service_name(advertisement.advertise_host.as_str()).as_str());
    push_text(&mut list, "_simdeck._tcp.");
    push_text(&mut list, "local.");
    push_text(&mut list, decimal_text(advertisement.http_port as u64).as_str());
    push_text(&mut list, labelled("sid=", advertisement.server_id.as_str()).as_str());
    push_text(&mut list, labelled("host=", advertisement.advertise_host.as_str()).as_str());
    push_text(&mut list, labelled("hid=", advertisement.host_id.as_str()).as_str());
    push_text(&mut list, labelled("hname=", advertisement.host_name.as_str()).as_str());
    push_text(&mut list, labelled("kind=", advertisement.server_kind.as_str()).as_str());
    assert(views(list@) =~= advertisement_arguments(*advertisement));
    Some(list)
}

/// The token that a page is served with.
pub open spec fn token_for(loopback: bool, access_token: Seq<char>) -> Option<Seq<char>> {
    match loopback {
        true => Some(access_token),
        false => None,
    }
}

/// The token is shown to the machine itself, and to nobody else.
pub proof fn tokens_stay_on_the_machine(loopback: bool, access_token: Seq<char>)
    ensures
        token_for(loopback, access_token) is Some <==> loopback,
        token_for(loopback, access_token) matches Some(token) ==> token == access_token,
{
}

/// The token that a page is served with: only the machine itself is given it.
pub fn page_token(loopback: bool, access_token: &str) -> (token: Option<String>)
    ensures
        option_view(token) == token_for(loopback, access_token@),
        option_view(token) == if loopback {
            Some(access_token@)
        } else {
            None
        },
{
    if loopback {
        Some(owned(access_token))
    } else {
        None
    }
}

/// Tells whether a key ends a service that runs in the foreground.
pub fn is_quit_key(byte: u8) -> (quit: bool)
    ensures
        quit == (byte == 113 || byte == 81),
{
    byte == 113 || byte == 81
}

/// A stream is sent as it is made exactly where the environment says so, it is to be
/// quick, or a quality is set.
pub proof fn streams_are_realtime_where_asked(options: ServeOptions, inherited: bool)
    ensures
        inherited ==> serves_realtime(options, inherited),
        options.low_latency ==> serves_realtime(options, inherited),
        options.stream_quality_profile is Some ==> serves_realtime(options, inherited),
        !inherited && !options.low_latency && options.stream_quality_profile is None
            ==> !serves_realtime(options, inherited),
{
}

/// A running service sets its codec, the mode of the emulator, low latency, its
/// quality and its frame rate as it was asked for, tells whether the stream is sent
/// as it is made, and asks to be started again for another version of the
/// simulators' service. The frame rate that was asked for wins over that of the
/// quality.
#[verifier::rlimit(40)]
pub proof fn serve_variables_say_what_is_asked(options: ServeOptions, inherited: bool)
    requires
        option_view(options.stream_quality_profile) matches Some(id) ==> stream_quality_profile(
            id,
        ) is Some,
    ensures
        ({
            let variables = serve_variables(options, inherited);
            let profile = option_view(options.stream_quality_profile);
            &&& value_set(variables, "SIMDECK_VIDEO_CODEC"@) == Some(
                options.video_codec.env_value(),
            )
            &&& value_set(variables, "SIMDECK_ANDROID_GPU"@) == Some(
                options.android_gpu.emulator_value(),
            )
            &&& value_set(variables, "SIMDECK_LOW_LATENCY"@) == Some(
                if options.low_latency {
                    "1"@
                } else {
                    "0"@
                },
            )
            &&& value_set(variables, "SIMDECK_LOCAL_STREAM_FPS"@) == option_decimal(
                options.local_stream_fps,
            )
            &&& value_set(variables, "SIMDECK_STREAM_QUALITY_PROFILE"@) == profile
            &&& value_set(variables, "SIMDECK_REALTIME_STREAM"@) == Some(
                if inherited || options.low_latency || profile is Some {
                    "1"@
                } else {
                    "0"@
                },
            )
            &&& value_set(variables, "SIMDECK_RESTART_ON_CORE_SIMULATOR_MISMATCH"@) == Some("1"@)
            &&& options.local_stream_fps matches Some(fps) ==> value_set(
                variables,
                "SIMDECK_REALTIME_FPS"@,
            ) == Some(decimal(fps as nat))
            &&& options.local_stream_fps is None && profile is Some ==> value_set(
                variables,
                "SIMDECK_REALTIME_FPS"@,
            ) == Some(
                decimal(
                    profile_limits(stream_quality_profile(profile->Some_0)->Some_0).fps as nat,
                ),
            )
        }),
{
    lemma_stream_variable_names();
    let profile = option_view(options.stream_quality_profile);
    let leading = leading_serve_variables(options);
    let quality = quality_variables(profile);
    let rate = optional_variable("SIMDECK_REALTIME_FPS"@, option_decimal(options.local_stream_fps));
    let last = seq![
        ("SIMDECK_REALTIME_STREAM"@, switch(serves_realtime(options, inherited))),
        (RESTART_ON_CORE_SIMULATOR_MISMATCH_ENV@, "1"@),
    ];
    lemma_serve_variable(leading, quality, rate, last, "SIMDECK_VIDEO_CODEC"@);
    lemma_serve_variable(leading, quality, rate, last, "SIMDECK_ANDROID_GPU"@);
    lemma_serve_variable(leading, quality, rate, last, "SIMDECK_LOW_LATENCY"@);
    lemma_serve_variable(leading, quality, rate, last, "SIMDECK_LOCAL_STREAM_FPS"@);
    lemma_serve_variable(leading, quality, rate, last, "SIMDECK_STREAM_QUALITY_PROFILE"@);
    lemma_serve_variable(leading, quality, rate, last, "SIMDECK_REALTIME_STREAM"@);
    lemma_serve_variable(
        leading,
        quality,
        rate,
        last,
        "SIMDECK_RESTART_ON_CORE_SIMULATOR_MISMATCH"@,
    );
    lemma_serve_variable(leading, quality, rate, last, "SIMDECK_REALTIME_FPS"@);
    lemma_leading_variables(options);
    reveal_with_fuel(value_set, 3);
    if profile is Some {
        let id = profile->Some_0;
        let limits = profile_limits(stream_quality_profile(id)->Some_0);
        quality_variables_carry_the_profile(id, limits, "SIMDECK_VIDEO_CODEC"@);
        quality_variables_carry_the_profile(id, limits, "SIMDECK_ANDROID_GPU"@);
        quality_variables_carry_the_profile(id, limits, "SIMDECK_LOW_LATENCY"@);
        quality_variables_carry_the_profile(id, limits, "SIMDECK_LOCAL_STREAM_FPS"@);
    }
}

proof fn lemma_leading_variables(options: ServeOptions)
    ensures
        ({
            let leading = leading_serve_variables(options);
            &&& value_set(leading, "SIMDECK_VIDEO_CODEC"@) == Some(options.video_codec.env_value())
            &&& value_set(leading, "SIMDECK_ANDROID_GPU"@) == Some(
                options.android_gpu.emulator_value(),
            )
            &&& value_set(leading, "SIMDECK_LOW_LATENCY"@) == Some(switch(options.low_latency))
            &&& value_set(leading, "SIMDECK_LOCAL_STREAM_FPS"@) == option_decimal(
                options.local_stream_fps,
            )
            &&& value_set(leading, "SIMDECK_STREAM_QUALITY_PROFILE"@) is None
        }),
{
    lemma_stream_variable_names();
    reveal_with_fuel(value_set, 5);
}

proof fn lemma_serve_variable(
    leading: Seq<(Seq<char>, Seq<char>)>,
    quality: Seq<(Seq<char>, Seq<char>)>,
    rate: Seq<(Seq<char>, Seq<char>)>,
    last: Seq<(Seq<char>, Seq<char>)>,
    name: Seq<char>,
)
    ensures
        value_set(leading + quality + rate + last, name) == if value_set(last, name) is Some {
            value_set(last, name)
        } else if value_set(rate, name) is Some {
            value_set(rate, name)
        } else if value_set(quality, name) is Some {
            value_set(quality, name)
        } else {
            value_set(leading, name)
        },
{
    lemma_value_set(leading, quality, name);
    lemma_value_set(leading + quality, rate, name);
    lemma_value_set(leading + quality + rate, last, name);
}

/// The record that a running service keeps of itself says what it runs with, where
/// it is reached, and with which credentials.
pub proof fn running_record_tells_of_its_service(
    options: ServeOptions,
    inherited: bool,
    project_root: Seq<char>,
    pid: u32,
    token: Seq<char>,
    code: Seq<char>,
    executable: Seq<char>,
    now: u64,
    log_path: Seq<char>,
)
    ensures
        ({
            let record = running_record(
                options,
                inherited,
                project_root,
                pid,
                token,
                code,
                executable,
                now,
                log_path,
            );
            &&& record.project_root == project_root
            &&& record.pid == pid
            &&& record.port == options.port
            &&& record.http_url == host_url("127.0.0.1"@, options.port)
            &&& record.bind == options.bind@
            &&& record.advertise_host == option_view(options.advertise_host)
            &&& record.client_root == option_view(options.client_root)
            &&& record.access_token == token
            &&& record.pairing_code == Some(code)
            &&& record.binary_path == executable
            &&& record.started_at == now
            &&& record.log_path == Some(log_path)
            &&& record.video_codec matches Some(name) && video_codec_mode(name) == Some(
                options.video_codec,
            )
            &&& record.android_gpu matches Some(name) && android_gpu_mode(name) == Some(
                options.android_gpu,
            )
            &&& record.low_latency == options.low_latency
            &&& record.stream_quality_profile == option_view(options.stream_quality_profile)
            &&& record.local_stream_fps == options.local_stream_fps
            &&& record.realtime_stream == serves_realtime(options, inherited)
        }),
{
    lemma_local_url(options.port);
    video_codec_mode_reads_back(options.video_codec);
    android_gpu_mode_reads_back(options.android_gpu);
}

/// A service is advertised under its host, but for a host that names the machine
/// itself or is blank.
pub proof fn services_are_advertised_by_their_host(host: Seq<char>)
    ensures
        blank(host) || trimmed(host) == "127.0.0.1"@ || trimmed(host) == "localhost"@
            ==> advertised_name(host) == "SimDeck"@,
        !blank(host) && trimmed(host) != "127.0.0.1"@ && trimmed(host) != "localhost"@ ==> {
            let name = advertised_name(host);
            &&& name.take(8) == "SimDeck "@
            &&& name.skip(8) == trimmed(host)
        },
{
    reveal_strlit("SimDeck ");
    let name = advertised_name(host);
    if !blank(host) && trimmed(host) != "127.0.0.1"@ && trimmed(host) != "localhost"@ {
        assert(name.take(8) =~= "SimDeck "@);
        assert(name.skip(8) =~= trimmed(host));
    }
}

/// The advertisement of a service registers it under its name and its port, and
/// tells its identity, its host, and its kind.
pub proof fn advertisements_tell_the_service(advertisement: Advertisement)
    ensures
        ({
            let list = advertisement_arguments(advertisement);
            &&& list.len() == 10
            &&& list[0] == "-R"@
            &&& list[1] == advertised_name(advertisement.advertise_host@)
            &&& list[2] == "_simdeck._tcp."@
            &&& list[3] == "local."@
            &&& list[4] == decimal(advertisement.http_port as nat)
            &&& list.contains("sid="@ + advertisement.server_id@)
            &&& list.contains("host="@ + advertisement.advertise_host@)
            &&& list.contains("hid="@ + advertisement.host_id@)
            &&& list.contains("hname="@ + advertisement.host_name@)
            &&& list.contains("kind="@ + advertisement.server_kind@)
        }),
{
    let list = advertisement_arguments(advertisement);
    assert(list[5] == "sid="@ + advertisement.server_id@);
    assert(list[6] == "host="@ + advertisement.advertise_host@);
    assert(list[7] == "hid="@ + advertisement.host_id@);
    assert(list[8] == "hname="@ + advertisement.host_name@);
    assert(list[9] == "kind="@ + advertisement.server_kind@);
}

} // verus!
