//! Starting a service: its port, its command line, its environment and the
//! record that is kept of it.
use vstd::prelude::*;

use crate::arguments::{
    has_pair, optional_flag, optional_pair, option_decimal, push_flag, push_number, push_pair,
    push_text,
};
use crate::auth::Entropy;
use crate::credentials::{
    option_credentials_view, project_service_credentials_from_metadata, recorded_credentials,
    CredentialsView, ProjectServiceCredentials,
};
use crate::error::SimdeckError;
use crate::launch_agent::ServiceOptions;
use crate::metadata::{
    service_matches, singleton_action_for, Probe, ServiceLaunchOptions, ServiceLaunchView,
    ServiceMetadata, ServiceMetadataView, SingletonAction,
};
use crate::modes::{
    android_gpu_mode, android_gpu_mode_reads_back, apply_stream_quality_environment,
    lemma_stream_variable_names, lemma_value_set, profile_limits,
    quality_variables_carry_the_profile, stream_quality_profile, stream_quality_variables,
    value_set, variable_views, video_codec_mode, video_codec_mode_reads_back, Variable,
};
use crate::net::{host_url, lemma_local_url};
use crate::numbers::{decimal, decimal_text};
use crate::processes::{
    lemma_number_field, lemma_shown_process, line_reader, process_number, processes_of_lines,
    ps_field, run_process_of_line, runs_recorded_service, value_after, RunProcessView,
};
use crate::service::{unprivileged, unprivileged_port};
use crate::text::{
    as_option_str, contains_text, find_from, joined, lemma_find_from, lemma_joined_front,
    lemma_trimmed_ends, occurs_at, owned, trimmed, views, white_space,
};

verus! {

/// The status with which a service asks to be started again.
pub const RECOVERABLE_RESTART_EXIT_CODE: u8 = 75;

/// The variable that tells a service which process to record.
pub const SUPERVISED_SERVICE_METADATA_PID_ENV: &'static str = "SIMDECK_SERVICE_METADATA_PID";

/// The port of a service, where it is free. `free` tells whether a port is.
pub fn choose_service_port_for_bind<F: Fn(u16) -> bool>(preferred: u16, free: F) -> (result: Result<
    u16,
    SimdeckError,
>)
    requires
        free.requires((unprivileged(preferred),)),
    ensures
        match result {
            Ok(port) => port == unprivileged(preferred) && free.ensures((port,), true),
            Err(error) => free.ensures((unprivileged(preferred),), false) && error.text()
                == "SimDeck service port "@ + decimal(unprivileged(preferred) as nat)
                + " is already in use"@,
        },
{
    let port = unprivileged_port(preferred);
    if free(port) {
        return Ok(port);
    }
    let mut message = owned("SimDeck service port ");
    message.append(decimal_text(port as u64).as_str());
    message.append(" is already in use");
    Err(SimdeckError::new(message))
}

/// The first free port at or above the preferred one. `free` tells whether a
/// port is.
pub fn choose_available_service_port_for_bind<F: Fn(u16) -> bool>(
    preferred: u16,
    free: F,
) -> (result: Result<u16, SimdeckError>)
    requires
        forall|port: u16| unprivileged(preferred) <= port ==> free.requires((port,)),
    ensures
        match result {
            Ok(port) => {
                &&& unprivileged(preferred) <= port
                &&& free.ensures((port,), true)
                &&& forall|lower: u16|
                    unprivileged(preferred) <= lower < port ==> #[trigger] free.ensures(
                        (lower,),
                        false,
                    )
            },
            Err(error) => {
                &&& forall|port: u16|
                    unprivileged(preferred) <= port ==> #[trigger] free.ensures((port,), false)
                &&& error.text() == "No available SimDeck service port at or above "@ + decimal(
                    unprivileged(preferred) as nat,
                )
            },
        },
{
    let start = unprivileged_port(preferred);
    let mut port: u16 = start;
    loop
        invariant
            start == unprivileged(preferred),
            start <= port,
            forall|p: u16| unprivileged(preferred) <= p ==> free.requires((p,)),
            forall|lower: u16| start <= lower < port ==> #[trigger] free.ensures((lower,), false),
        decreases u16::MAX - port,
    {
        if free(port) {
            return Ok(port);
        }
        if port == u16::MAX {
            let mut message = owned("No available SimDeck service port at or above ");
            message.append(decimal_text(start as u64).as_str());
            return Err(SimdeckError::new(message));
        }
        port += 1;
    }
}

/// The port that a service is started on: the preferred one, or the first free one
/// from there on where the options let other ports be tried. `free` tells whether
/// a port is.
pub fn service_port<F: Fn(u16) -> bool>(options: &ServiceLaunchOptions, free: F) -> (result: Result<
    u16,
    SimdeckError,
>)
    requires
        free.requires((unprivileged(options.port),)),
        options.allow_port_probe ==> forall|port: u16|
            unprivileged(options.port) <= port ==> free.requires((port,)),
    ensures
        match result {
            Ok(port) => {
                &&& free.ensures((port,), true)
                &&& unprivileged(options.port) <= port
                &&& options.allow_port_probe || port == unprivileged(options.port)
                &&& forall|lower: u16|
                    unprivileged(options.port) <= lower < port ==> #[trigger] free.ensures(
                        (lower,),
                        false,
                    )
            },
            Err(error) => {
                &&& free.ensures((unprivileged(options.port),), false)
                &&& options.allow_port_probe ==> forall|port: u16|
                    unprivileged(options.port) <= port ==> #[trigger] free.ensures((port,), false)
                &&& error.text() == if options.allow_port_probe {
                    "No available SimDeck service port at or above "@ + decimal(
                        unprivileged(options.port) as nat,
                    )
                } else {
                    "SimDeck service port "@ + decimal(unprivileged(options.port) as nat)
                        + " is already in use"@
                }
            },
        },
{
    if options.allow_port_probe {
        choose_available_service_port_for_bind(options.port, free)
    } else {
        choose_service_port_for_bind(options.port, free)
    }
}

/// The arguments that every service is started with.
pub open spec fn required_run_arguments(
    options: ServiceLaunchView,
    metadata_path: Seq<char>,
    port: u16,
    credentials: CredentialsView,
) -> Seq<Seq<char>> {
    seq![
        "service"@,
        "run"@,
        "--metadata-path"@,
        metadata_path,
        "--port"@,
        decimal(port as nat),
        "--bind"@,
        options.bind.text(),
        "--access-token"@,
        credentials.access_token,
        "--pairing-code"@,
        credentials.pairing_code,
        "--video-codec"@,
        options.video_codec.env_value(),
        "--android-gpu"@,
        options.android_gpu.emulator_value(),
        "--server-kind"@,
        "standalone"@,
    ]
}

/// The arguments that a service with the given options is started with.
pub open spec fn run_argument_list(
    options: ServiceLaunchView,
    metadata_path: Seq<char>,
    port: u16,
    credentials: CredentialsView,
) -> Seq<Seq<char>> {
    required_run_arguments(options, metadata_path, port, credentials) + optional_flag(
        "--low-latency"@,
        options.low_latency,
    ) + optional_pair("--local-stream-fps"@, option_decimal(options.local_stream_fps))
        + optional_pair("--advertise-host"@, options.advertise_host) + optional_pair(
        "--client-root"@,
        options.client_root,
    )
}

/// The arguments that a service with the given options is started with.
pub fn run_arguments(
    options: &ServiceLaunchOptions,
    metadata_path: &str,
    port: u16,
    credentials: &ProjectServiceCredentials,
) -> (list: Vec<String>)
    ensures
        views(list@) == run_argument_list(options@, metadata_path@, port, credentials@),
{
    let mut list: Vec<String> = Vec::new();
    push_text(&mut list, "service");
    push_text(&mut list, "run");
    push_text(&mut list, "--metadata-path");
    push_text(&mut list, metadata_path);
    push_text(&mut list, "--port");
    push_text(&mut list, decimal_text(port as u64).as_str());
    push_text(&mut list, "--bind");
    push_text(&mut list, options.bind.to_text().as_str());
    push_text(&mut list, "--access-token");
    push_text(&mut list, credentials.access_token.as_str());
    push_text(&mut list, "--pairing-code");
    push_text(&mut list, credentials.pairing_code.as_str());
    push_text(&mut list, "--video-codec");
    push_text(&mut list, options.video_codec.as_env_value());
    push_text(&mut list, "--android-gpu");
    push_text(&mut list, options.android_gpu.as_emulator_value());
    push_text(&mut list, "--server-kind");
    push_text(&mut list, "standalone");
    assert(views(list@) =~= required_run_arguments(
        options@,
        metadata_path@,
        port,
        credentials@,
    ));
    push_flag(&mut list, "--low-latency", options.low_latency);
    push_number(&mut list, "--local-stream-fps", options.local_stream_fps);
    push_pair(&mut list, "--advertise-host", as_option_str(&options.advertise_host));
    push_pair(&mut list, "--client-root", as_option_str(&options.client_root));
    list
}

/// The shell script that starts a service and starts it again when it ends with
/// the status that asks for it, or by a signal.
pub open spec fn supervisor_script_text() -> Seq<char> {
    "terminating=0\ntrap 'terminating=1; if [ -n \"$child\" ]; then kill \"$child\" 2>/dev/null; wait \"$child\" 2>/dev/null; fi' TERM INT HUP\nwhile :; do\n  "@
        + SUPERVISED_SERVICE_METADATA_PID_ENV@
        + "=$$ \"$@\" &\n  child=$!\n  wait \"$child\"\n  status=$?\n  child=\n  if [ \"$terminating\" -eq 1 ]; then\n    exit 0\n  fi\n  if [ \"$status\" -eq "@
        + decimal(RECOVERABLE_RESTART_EXIT_CODE as nat)
        + " ] || [ \"$status\" -ge 128 ]; then\n    printf '[simdeck-supervisor] service exited with status %s; restarting\\n' \"$status\" >&2\n    sleep 1\n    continue\n  fi\n  exit \"$status\"\ndone\n"@
}

pub fn supervisor_script() -> (script: String)
    ensures
        script@ == supervisor_script_text(),
{
    let mut script = owned(
        "terminating=0\ntrap 'terminating=1; if [ -n \"$child\" ]; then kill \"$child\" 2>/dev/null; wait \"$child\" 2>/dev/null; fi' TERM INT HUP\nwhile :; do\n  ",
    );
    script.append(SUPERVISED_SERVICE_METADATA_PID_ENV);
    script.append(
        "=$$ \"$@\" &\n  child=$!\n  wait \"$child\"\n  status=$?\n  child=\n  if [ \"$terminating\" -eq 1 ]; then\n    exit 0\n  fi\n  if [ \"$status\" -eq ",
    );
    script.append(decimal_text(RECOVERABLE_RESTART_EXIT_CODE as u64).as_str());
    script.append(
        " ] || [ \"$status\" -ge 128 ]; then\n    printf '[simdeck-supervisor] service exited with status %s; restarting\\n' \"$status\" >&2\n    sleep 1\n    continue\n  fi\n  exit \"$status\"\ndone\n",
    );
    script
}

/// The variables of a started service, in the order in which they are set: a
/// later one of the same name wins.
pub open spec fn start_variables(
    options: ServiceLaunchView,
    quality: Seq<(Seq<char>, Seq<char>)>,
) -> Seq<(Seq<char>, Seq<char>)> {
    let fps = option_decimal(options.local_stream_fps);
    seq![
        (
            "SIMDECK_REALTIME_STREAM"@,
            if options.realtime() {
                "1"@
            } else {
                "0"@
            },
        ),
    ] + optional_variable("SIMDECK_LOCAL_STREAM_FPS"@, fps) + quality + optional_variable(
        "SIMDECK_REALTIME_FPS"@,
        fps,
    )
}

/// A variable, where it has a value.
pub open spec fn optional_variable(name: Seq<char>, value: Option<Seq<char>>) -> Seq<
    (Seq<char>, Seq<char>),
> {
    match value {
        Some(text) => seq![(name, text)],
        None => Seq::empty(),
    }
}

/// The variables of a quality profile, where there is one.
pub open spec fn quality_variables(profile: Option<Seq<char>>) -> Seq<(Seq<char>, Seq<char>)> {
    match profile {
        Some(id) => stream_quality_variables(
            id,
            profile_limits(stream_quality_profile(id)->Some_0),
        ),
        None => Seq::empty(),
    }
}

/// Sets a variable to a frame rate, where there is one.
pub fn push_fps(variables: &mut Vec<Variable>, name: &'static str, fps: Option<u32>)
    ensures
        variable_views(final(variables)@) == variable_views(old(variables)@) + optional_variable(
            name@,
            option_decimal(fps),
        ),
{
    let ghost before = variable_views(variables@);
    if let Some(number) = fps {
        variables.push(Variable { name, value: decimal_text(number as u64) });
    }
    assert(variable_views(variables@) =~= before + optional_variable(name@, option_decimal(fps)));
}

/// The variables that a service with the given options is started with.
pub fn start_environment(options: &ServiceLaunchOptions) -> (result: Result<
    Vec<Variable>,
    SimdeckError,
>)
    ensures
        match result {
            Ok(variables) => {
                &&& options@.stream_quality_profile matches Some(id) ==> stream_quality_profile(
                    id,
                ) is Some
                &&& variable_views(variables@) == start_variables(
                    options@,
                    quality_variables(options@.stream_quality_profile),
                )
            },
            Err(error) => options@.stream_quality_profile matches Some(id)
                && stream_quality_profile(id) is None && error.text()
                == "Unknown stream quality profile `"@ + id + "`."@,
        },
{
    let mut quality: Vec<Variable> = Vec::new();
    assert(variable_views(quality@) =~= Seq::empty());
    if let Some(id) = &options.stream_quality_profile {
        match apply_stream_quality_environment(id.as_str()) {
            Ok(found) => {
                quality = found;
            },
            Err(error) => {
                return Err(error);
            },
        }
    }
    let mut variables: Vec<Variable> = Vec::new();
    variables.push(
        Variable {
            name: "SIMDECK_REALTIME_STREAM",
            value: if options.is_realtime() {
                owned("1")
            } else {
                owned("0")
            },
        },
    );
    let ghost first = variable_views(variables@);
    assert(first =~= seq![
        (
            "SIMDECK_REALTIME_STREAM"@,
            if options@.realtime() {
                "1"@
            } else {
                "0"@
            },
        ),
    ]);
    push_fps(&mut variables, "SIMDECK_LOCAL_STREAM_FPS", options.local_stream_fps);
    let ghost before = variable_views(variables@);
    let ghost added = quality@;
    variables.append(&mut quality);
    assert(variable_views(variables@) =~= before + variable_views(added));
    push_fps(&mut variables, "SIMDECK_REALTIME_FPS", options.local_stream_fps);
    Ok(variables)
}

/// The command that starts a service.
#[derive(Debug)]
pub struct ServiceStart {
    pub program: String,
    pub arguments: Vec<String>,
    pub environment: Vec<Variable>,
}

/// The program that starts a service: the shell, which watches over it, or the
/// service itself.
pub open spec fn start_program(supervised: bool, executable: Seq<char>) -> Seq<char> {
    if supervised {
        "/bin/sh"@
    } else {
        executable
    }
}

/// The arguments of the program that starts a service.
pub open spec fn start_arguments(
    supervised: bool,
    executable: Seq<char>,
    run: Seq<Seq<char>>,
) -> Seq<Seq<char>> {
    if supervised {
        seq!["-c"@, supervisor_script_text(), "simdeck-supervisor"@, executable] + run
    } else {
        run
    }
}

/// The command that starts a service with the given options on the given port.
/// Where `supervised`, a shell watches over it.
pub fn start_project_service_with_credentials(
    options: &ServiceLaunchOptions,
    supervised: bool,
    executable: &str,
    metadata_path: &str,
    port: u16,
    credentials: &ProjectServiceCredentials,
) -> (result: Result<ServiceStart, SimdeckError>)
    ensures
        match result {
            Ok(start) => {
                &&& options@.stream_quality_profile matches Some(id) ==> stream_quality_profile(
                    id,
                ) is Some
                &&& start.program@ == start_program(supervised, executable@)
                &&& views(start.arguments@) == start_arguments(
                    supervised,
                    executable@,
                    run_argument_list(options@, metadata_path@, port, credentials@),
                )
                &&& variable_views(start.environment@) == start_variables(
                    options@,
                    quality_variables(options@.stream_quality_profile),
                )
            },
            Err(error) => options@.stream_quality_profile matches Some(id)
                && stream_quality_profile(id) is None && error.text()
                == "Unknown stream quality profile `"@ + id + "`."@,
        },
{
    let environment = match start_environment(options) {
        Ok(environment) => environment,
        Err(error) => return Err(error),
    };
    let mut run = run_arguments(options, metadata_path, port, credentials);
    let ghost run_list = views(run@);
    let mut arguments: Vec<String> = Vec::new();
    if supervised {
        push_text(&mut arguments, "-c");
        push_text(&mut arguments, supervisor_script().as_str());
        push_text(&mut arguments, "simdeck-supervisor");
        push_text(&mut arguments, executable);
        assert(views(arguments@) =~= seq![
            "-c"@,
            supervisor_script_text(),
            "simdeck-supervisor"@,
            executable@,
        ]);
    } else {
        assert(views(arguments@) =~= Seq::empty());
    }
    let ghost front = views(arguments@);
    arguments.append(&mut run);
    assert(views(arguments@) =~= front + run_list);
    assert(views(arguments@) =~= start_arguments(supervised, executable@, run_list));
    Ok(
        ServiceStart {
            program: if supervised {
                owned("/bin/sh")
            } else {
                owned(executable)
            },
            arguments,
            environment,
        },
    )
}

/// The record of a service that was started.
pub open spec fn started_record(
    options: ServiceLaunchView,
    project_root: Seq<char>,
    pid: u32,
    port: u16,
    credentials: CredentialsView,
    executable: Seq<char>,
    now: u64,
    log_path: Seq<char>,
) -> ServiceMetadataView {
    ServiceMetadataView {
        project_root,
        pid,
        http_url: "http://127.0.0.1:"@ + decimal(port as nat),
        port,
        bind: options.bind,
        advertise_host: options.advertise_host,
        client_root: options.client_root,
        access_token: credentials.access_token,
        pairing_code: Some(credentials.pairing_code),
        binary_path: executable,
        started_at: now,
        log_path: Some(log_path),
        video_codec: Some(options.video_codec.env_value()),
        android_gpu: Some(options.android_gpu.emulator_value()),
        low_latency: options.low_latency,
        realtime_stream: options.realtime(),
        stream_quality_profile: options.stream_quality_profile,
        local_stream_fps: options.local_stream_fps,
    }
}

/// The record of a service that was started.
pub fn started_service_metadata(
    options: ServiceLaunchOptions,
    project_root: &str,
    pid: u32,
    port: u16,
    credentials: ProjectServiceCredentials,
    executable: &str,
    now: u64,
    log_path: &str,
) -> (metadata: ServiceMetadata)
    ensures
        metadata@ == started_record(
            options@,
            project_root@,
            pid,
            port,
            credentials@,
            executable@,
            now,
            log_path@,
        ),
{
    let mut http_url = owned("http://127.0.0.1:");
    http_url.append(decimal_text(port as u64).as_str());
    let realtime_stream = options.is_realtime();
    ServiceMetadata {
        project_root: owned(project_root),
        pid,
        http_url,
        port,
        bind: options.bind,
        advertise_host: options.advertise_host,
        client_root: options.client_root,
        access_token: credentials.access_token,
        pairing_code: Some(credentials.pairing_code),
        binary_path: owned(executable),
        started_at: now,
        log_path: Some(owned(log_path)),
        video_codec: Some(owned(options.video_codec.as_env_value())),
        android_gpu: Some(owned(options.android_gpu.as_emulator_value())),
        low_latency: options.low_latency,
        realtime_stream,
        stream_quality_profile: options.stream_quality_profile,
        local_stream_fps: options.local_stream_fps,
    }
}

/// A service that was started with certain options is what those options ask
/// for, on the port that was chosen for it: the preferred one, or a higher one
/// where that will do and the preferred one is still taken.
pub proof fn started_service_matches_its_options(
    options: ServiceLaunchView,
    project_root: Seq<char>,
    pid: u32,
    port: u16,
    credentials: CredentialsView,
    executable: Seq<char>,
    now: u64,
    log_path: Seq<char>,
    preferred_free: bool,
    windows: bool,
)
    requires
        port == unprivileged(options.port) || (options.allow_port_probe && port > unprivileged(
            options.port,
        ) && !preferred_free),
    ensures
        service_matches(
            started_record(
                options,
                project_root,
                pid,
                port,
                credentials,
                executable,
                now,
                log_path,
            ),
            options,
            preferred_free,
            windows,
        ),
{
}

/// Asking twice for a service with the same options starts it once: as long as
/// the service that the first call started answers, the second starts none.
pub proof fn asking_again_reuses_the_started_service(
    options: ServiceLaunchView,
    project_root: Seq<char>,
    pid: u32,
    port: u16,
    credentials: CredentialsView,
    executable: Seq<char>,
    now: u64,
    log_path: Seq<char>,
    preferred_free: bool,
    windows: bool,
    active: Option<ServiceMetadataView>,
    active_probe: Probe,
)
    requires
        port == unprivileged(options.port) || (options.allow_port_probe && port > unprivileged(
            options.port,
        ) && !preferred_free),
    ensures
        !(singleton_action_for(
            active,
            active_probe,
            Some(
                started_record(
                    options,
                    project_root,
                    pid,
                    port,
                    credentials,
                    executable,
                    now,
                    log_path,
                ),
            ),
            (Probe { healthy: true, same_binary: true }),
            options,
            preferred_free,
            windows,
        ) is Start),
{
    started_service_matches_its_options(
        options,
        project_root,
        pid,
        port,
        credentials,
        executable,
        now,
        log_path,
        preferred_free,
        windows,
    );
}

/// The command line of a program with its arguments, as the system lists it.
pub open spec fn command_line(executable: Seq<char>, arguments: Seq<Seq<char>>) -> Seq<char> {
    joined(seq![executable] + arguments, " "@)
}

/// A line of a list of processes with group and command.
pub open spec fn process_line(padding: Seq<char>, group: u32, command: Seq<char>) -> Seq<char> {
    padding + (decimal(group as nat) + (" "@ + command))
}

/// The words that every command line of a service has in front of the path of
/// its record.
proof fn lemma_run_words(rest: Seq<char>)
    ensures
        "service"@ + (" "@ + ("run"@ + (" "@ + ("--metadata-path"@ + (" "@ + rest)))))
            == "service run --metadata-path "@ + rest,
{
    reveal_strlit("service");
    reveal_strlit(" ");
    reveal_strlit("run");
    reveal_strlit("--metadata-path");
    reveal_strlit("service run --metadata-path ");
    assert("service"@ + " "@ + "run"@ + " "@ + "--metadata-path"@ + " "@
        =~= "service run --metadata-path "@);
    assert("service"@ + (" "@ + ("run"@ + (" "@ + ("--metadata-path"@ + (" "@ + rest)))))
        =~= "service"@ + " "@ + "run"@ + " "@ + "--metadata-path"@ + " "@ + rest);
}

/// What the command line of a service starts with.
proof fn lemma_run_command(
    options: ServiceLaunchView,
    metadata_path: Seq<char>,
    port: u16,
    credentials: CredentialsView,
    executable: Seq<char>,
) -> (rest: Seq<char>)
    ensures
        " "@ + command_line(
            executable,
            run_argument_list(options, metadata_path, port, credentials),
        ) == (" "@ + executable + " "@) + ("service run --metadata-path "@ + (metadata_path + (
        " --"@ + rest))),
{
    let arguments = run_argument_list(options, metadata_path, port, credentials);
    assert(arguments.len() >= 6 && arguments[0] == "service"@ && arguments[1] == "run"@
        && arguments[2] == "--metadata-path"@ && arguments[3] == metadata_path && arguments[4]
        == "--port"@);
    lemma_front_of_command(executable, arguments, metadata_path)
}

/// What a command line starts with whose arguments start as those of a service do.
proof fn lemma_front_of_command(
    executable: Seq<char>,
    arguments: Seq<Seq<char>>,
    metadata_path: Seq<char>,
) -> (rest: Seq<char>)
    requires
        arguments.len() >= 6,
        arguments[0] == "service"@,
        arguments[1] == "run"@,
        arguments[2] == "--metadata-path"@,
        arguments[3] == metadata_path,
        arguments[4] == "--port"@,
    ensures
        " "@ + command_line(executable, arguments) == (" "@ + executable + " "@) + (
        "service run --metadata-path "@ + (metadata_path + (" --"@ + rest))),
{
    let list = seq![executable] + arguments;
    let blank = " "@;
    let tail1 = list.drop_first();
    let tail2 = tail1.drop_first();
    let tail3 = tail2.drop_first();
    let tail4 = tail3.drop_first();
    let tail5 = tail4.drop_first();
    assert(list[0] == executable && list[1] == "service"@ && list[2] == "run"@ && list[3]
        == "--metadata-path"@ && list[4] == metadata_path && list[5] == "--port"@);
    lemma_joined_front(list, blank);
    lemma_joined_front(tail1, blank);
    lemma_joined_front(tail2, blank);
    lemma_joined_front(tail3, blank);
    lemma_joined_front(tail4, blank);
    lemma_joined_front(tail5, blank);
    let rest = "port"@ + blank + joined(tail5.drop_first(), blank);
    assert(blank + joined(tail5, blank) == " --"@ + rest) by {
        reveal_strlit(" ");
        reveal_strlit(" --");
        reveal_strlit("--port");
        reveal_strlit("port");
        assert(blank + "--port"@ =~= " --"@ + "port"@);
        assert(blank + joined(tail5, blank) =~= " --"@ + rest);
    }
    let value = metadata_path + (" --"@ + rest);
    assert(joined(tail4, blank) =~= value);
    lemma_run_words(value);
    assert(joined(tail1, blank) =~= "service"@ + (blank + ("run"@ + (blank + ("--metadata-path"@ + (
    blank + value))))));
    assert(blank + joined(list, blank) =~= (blank + executable + blank) + joined(tail1, blank));
    rest
}

/// Every service that was started is found by the command line that the system
/// lists for it, together with the path of its record. Left out are command
/// lines that cannot be taken apart: a path that is empty, starts or ends with
/// white space or holds what looks like a flag, and an executable whose path
/// holds the flag of the record.
pub proof fn started_service_is_found_by_its_command_line(
    options: ServiceLaunchView,
    metadata_path: Seq<char>,
    port: u16,
    credentials: CredentialsView,
    executable: Seq<char>,
    padding: Seq<char>,
    group: u32,
    lines: Seq<Seq<char>>,
    i: int,
)
    requires
        metadata_path.len() > 0,
        trimmed(metadata_path) == metadata_path,
        !contains_text(metadata_path, " --"@),
        !contains_text(" "@ + executable + " "@, " --metadata-path "@),
        forall|k: int| 0 <= k < padding.len() ==> white_space(#[trigger] padding[k]),
        0 <= i < lines.len(),
        lines[i] == process_line(
            padding,
            group,
            command_line(
                executable,
                run_argument_list(options, metadata_path, port, credentials),
            ),
        ),
    ensures
        processes_of_lines(lines, line_reader(false)).contains(
            (RunProcessView { pgid: group, metadata_path }),
        ),
{
    let command = " "@ + command_line(
        executable,
        run_argument_list(options, metadata_path, port, credentials),
    );
    let rest = lemma_run_command(options, metadata_path, port, credentials, executable);
    lemma_recorded_path(command, executable, metadata_path, rest);
    lemma_line_fields(padding, group, command);
    assert(line_reader(false)(lines[i]) == run_process_of_line(lines[i]));
    lemma_shown_process(lines, line_reader(false), i);
}

/// A line of a list of processes is taken apart into its group and its command.
proof fn lemma_line_fields(padding: Seq<char>, group: u32, command: Seq<char>)
    requires
        command.len() > 0,
        command[0] == ' ',
        forall|k: int| 0 <= k < padding.len() ==> white_space(#[trigger] padding[k]),
    ensures
        ps_field(padding + (decimal(group as nat) + command)) == Some(
            (decimal(group as nat), command),
        ),
        process_number(decimal(group as nat)) == Some(group),
{
    lemma_number_field(padding, group, command);
}

/// The flag of the record stands where it is put, and nowhere before.
proof fn lemma_record_flag(head: Seq<char>, value: Seq<char>)
    requires
        head.len() > 0,
        head.last() == ' ',
        !contains_text(head, " --metadata-path "@),
    ensures
        runs_recorded_service(head + ("service run --metadata-path "@ + value)),
        find_from(head + ("service run --metadata-path "@ + value), " --metadata-path "@, 0)
            == Some(head.len() as int + 11),
{
    reveal_strlit(" service run ");
    reveal_strlit(" --metadata-path ");
    reveal_strlit("service run --metadata-path ");
    let marker = " --metadata-path "@;
    let command = head + ("service run --metadata-path "@ + value);
    let first = head.len() - 1;
    let at = first + 12;
    assert(command.subrange(first, first + 13) =~= " service run "@);
    assert(occurs_at(command, " service run "@, first));
    assert(command.subrange(at, at + 17) =~= marker);
    assert(occurs_at(command, marker, at));
    lemma_find_from(command, marker, 0);
    let found = find_from(command, marker, 0)->Some_0;
    if found < at {
        let there = command.subrange(found, found + 17);
        assert(there[0] == ' ' && there[1] == '-');
        if found + 17 <= head.len() {
            assert(head.subrange(found, found + 17) =~= marker);
            assert(occurs_at(head, marker, found));
        } else if found < first {
            assert(there[first - found] == ' ');
        } else {
            assert(command[found] == ' ' && command[found + 1] == '-');
        }
        assert(false);
    }
}

/// A value ends where the next flag stands.
proof fn lemma_value_end(text: Seq<char>, rest: Seq<char>)
    requires
        text.len() > 0,
        trimmed(text) == text,
        !contains_text(text, " --"@),
    ensures
        find_from(text + (" --"@ + rest), " --"@, 0) == Some(text.len() as int),
{
    reveal_strlit(" --");
    let value = text + (" --"@ + rest);
    let end = text.len() as int;
    assert(value.subrange(end, end + 3) =~= " --"@);
    assert(occurs_at(value, " --"@, end));
    lemma_trimmed_ends(text);
    lemma_find_from(value, " --"@, 0);
    let found = find_from(value, " --"@, 0)->Some_0;
    if found < end {
        let there = value.subrange(found, found + 3);
        assert(there[0] == ' ' && there[1] == '-' && there[2] == '-');
        if found + 3 <= end {
            assert(text.subrange(found, found + 3) =~= " --"@);
            assert(occurs_at(text, " --"@, found));
        } else if found == end - 1 {
            assert(value[found] == text.last());
        } else {
            assert(value[found + 2] == ' ');
        }
        assert(false);
    }
}

/// The path of the record is what stands behind its flag.
proof fn lemma_recorded_path(
    command: Seq<char>,
    executable: Seq<char>,
    metadata_path: Seq<char>,
    rest: Seq<char>,
)
    requires
        command == (" "@ + executable + " "@) + ("service run --metadata-path "@ + (metadata_path + (
        " --"@ + rest))),
        metadata_path.len() > 0,
        trimmed(metadata_path) == metadata_path,
        !contains_text(metadata_path, " --"@),
        !contains_text(" "@ + executable + " "@, " --metadata-path "@),
    ensures
        command.len() > 0,
        command[0] == ' ',
        runs_recorded_service(command),
        value_after(command, "--metadata-path"@) == Some(metadata_path),
{
    let head = " "@ + executable + " "@;
    let value = metadata_path + (" --"@ + rest);
    assert(head.len() > 0 && head[0] == ' ' && head.last() == ' ') by {
        reveal_strlit(" ");
    }
    assert(" "@ + "--metadata-path"@ + " "@ == " --metadata-path "@) by {
        reveal_strlit(" ");
        reveal_strlit("--metadata-path");
        reveal_strlit(" --metadata-path ");
        assert(" "@ + "--metadata-path"@ + " "@ =~= " --metadata-path "@);
    }
    lemma_record_flag(head, value);
    lemma_value_end(metadata_path, rest);
    let at: int = head.len() as int + 11;
    assert(command.skip(at + " --metadata-path "@.len()) =~= value) by {
        reveal_strlit(" --metadata-path ");
        reveal_strlit("service run --metadata-path ");
    }
    assert(value.take(metadata_path.len() as int) =~= metadata_path);
}

/// How a detached service is restarted.
#[derive(Debug)]
pub enum RestartPlan {
    /// The LaunchAgent restarts it.
    LaunchAgent(ServiceOptions),
    /// It is started anew with the given credentials, after the process of the
    /// given group is ended.
    Start {
        options: ServiceLaunchOptions,
        terminate: Option<u32>,
        credentials: Option<ProjectServiceCredentials>,
    },
}

/// How a detached service is restarted: by the LaunchAgent, where one runs;
/// else in the place of the recorded service, whose credentials are kept.
pub fn restart_detached_service(
    options: ServiceLaunchOptions,
    active: bool,
    recorded: Option<&ServiceMetadata>,
    entropy: &Entropy,
) -> (plan: RestartPlan)
    ensures
        match plan {
            RestartPlan::LaunchAgent(agent) => active && agent@ == options@.as_launch_agent(),
            RestartPlan::Start { options: launch, terminate, credentials } => {
                &&& !active
                &&& launch == options
                &&& terminate == match recorded {
                    Some(metadata) => Some(metadata.pid),
                    None => None,
                }
                &&& option_credentials_view(credentials) == match recorded {
                    Some(metadata) => recorded_credentials(metadata@, *entropy),
                    None => None,
                }
            },
        },
{
    if active {
        return RestartPlan::LaunchAgent(options.into_launch_agent_options());
    }
    match recorded {
        Some(metadata) => {
            let credentials = project_service_credentials_from_metadata(metadata, entropy);
            RestartPlan::Start { options, terminate: Some(metadata.pid), credentials }
        },
        None => RestartPlan::Start { options, terminate: None, credentials: None },
    }
}

/// A running service is reused only where everything that it was started with is
/// what is asked for: where the codec, the mode of the emulator, low latency, the
/// quality, the frame rate, the interface or the host differ, the service that was
/// started with the first options is not what the second ask for, and asking for
/// those ends it and starts another.
pub proof fn other_options_start_another_service(
    first: ServiceLaunchView,
    second: ServiceLaunchView,
    project_root: Seq<char>,
    pid: u32,
    port: u16,
    credentials: CredentialsView,
    executable: Seq<char>,
    now: u64,
    log_path: Seq<char>,
    preferred_free: bool,
    windows: bool,
)
    requires
        first.video_codec != second.video_codec || first.android_gpu != second.android_gpu
            || first.low_latency != second.low_latency || first.stream_quality_profile
            != second.stream_quality_profile || first.local_stream_fps != second.local_stream_fps
            || first.bind != second.bind || first.advertise_host != second.advertise_host || (
        first.client_root is Some) != (second.client_root is Some) || first.realtime_stream
            != second.realtime_stream && first.stream_quality_profile is None,
    ensures
        ({
            let record = started_record(
                first,
                project_root,
                pid,
                port,
                credentials,
                executable,
                now,
                log_path,
            );
            &&& !service_matches(record, second, preferred_free, windows)
            &&& singleton_action_for(
                None,
                (Probe { healthy: false, same_binary: false }),
                Some(record),
                (Probe { healthy: true, same_binary: true }),
                second,
                preferred_free,
                windows,
            ) == (SingletonAction::Start { terminate_recorded: true, foreign_recorded: false })
        }),
{
    let record = started_record(
        first,
        project_root,
        pid,
        port,
        credentials,
        executable,
        now,
        log_path,
    );
    if service_matches(record, second, preferred_free, windows) {
        video_codec_mode_reads_back(first.video_codec);
        video_codec_mode_reads_back(second.video_codec);
        android_gpu_mode_reads_back(first.android_gpu);
        android_gpu_mode_reads_back(second.android_gpu);
    }
}

/// The record of a started service says what it was started with, where it is
/// reached, and with which credentials.
pub proof fn started_record_tells_of_its_start(
    options: ServiceLaunchView,
    project_root: Seq<char>,
    pid: u32,
    port: u16,
    credentials: CredentialsView,
    executable: Seq<char>,
    now: u64,
    log_path: Seq<char>,
)
    ensures
        ({
            let record = started_record(
                options,
                project_root,
                pid,
                port,
                credentials,
                executable,
                now,
                log_path,
            );
            &&& record.project_root == project_root
            &&& record.pid == pid
            &&& record.port == port
            &&& record.http_url == host_url("127.0.0.1"@, port)
            &&& record.bind == options.bind
            &&& record.advertise_host == options.advertise_host
            &&& record.client_root == options.client_root
            &&& record.access_token == credentials.access_token
            &&& record.pairing_code == Some(credentials.pairing_code)
            &&& record.binary_path == executable
            &&& record.started_at == now
            &&& record.log_path == Some(log_path)
            &&& record.video_codec matches Some(name) && video_codec_mode(name) == Some(
                options.video_codec,
            )
            &&& record.android_gpu matches Some(name) && android_gpu_mode(name) == Some(
                options.android_gpu,
            )
            &&& record.low_latency == options.low_latency
            &&& record.stream_quality_profile == options.stream_quality_profile
            &&& record.local_stream_fps == options.local_stream_fps
            &&& record.realtime_stream <==> options.realtime_stream
                || options.stream_quality_profile is Some
        }),
{
    lemma_local_url(port);
    video_codec_mode_reads_back(options.video_codec);
    android_gpu_mode_reads_back(options.android_gpu);
}

/// The arguments that a service is started with say all that its options ask for:
/// each flag with its value, those that may be left out only where there is a
/// value, and nothing else.
pub proof fn run_arguments_say_what_is_asked(
    options: ServiceLaunchView,
    metadata_path: Seq<char>,
    port: u16,
    credentials: CredentialsView,
)
    ensures
        ({
            let list = run_argument_list(options, metadata_path, port, credentials);
            &&& list.len() >= 2 && list[0] == "service"@ && list[1] == "run"@
            &&& has_pair(list, "--metadata-path"@, metadata_path)
            &&& has_pair(list, "--port"@, decimal(port as nat))
            &&& has_pair(list, "--bind"@, options.bind.text())
            &&& has_pair(list, "--access-token"@, credentials.access_token)
            &&& has_pair(list, "--pairing-code"@, credentials.pairing_code)
            &&& has_pair(list, "--video-codec"@, options.video_codec.env_value())
            &&& has_pair(list, "--android-gpu"@, options.android_gpu.emulator_value())
            &&& has_pair(list, "--server-kind"@, "standalone"@)
            &&& options.low_latency ==> list.contains("--low-latency"@)
            &&& options.local_stream_fps matches Some(fps) ==> has_pair(
                list,
                "--local-stream-fps"@,
                decimal(fps as nat),
            )
            &&& options.advertise_host matches Some(host) ==> has_pair(
                list,
                "--advertise-host"@,
                host,
            )
            &&& options.client_root matches Some(root) ==> has_pair(list, "--client-root"@, root)
            &&& list.len() == 18 + (if options.low_latency {
                1int
            } else {
                0
            }) + (if options.local_stream_fps is Some {
                2int
            } else {
                0
            }) + (if options.advertise_host is Some {
                2int
            } else {
                0
            }) + (if options.client_root is Some {
                2int
            } else {
                0
            })
        }),
{
    let list = run_argument_list(options, metadata_path, port, credentials);
    assert(list[2] == "--metadata-path"@ && list[3] == metadata_path);
    assert(list[4] == "--port"@ && list[5] == decimal(port as nat));
    assert(list[6] == "--bind"@ && list[7] == options.bind.text());
    assert(list[8] == "--access-token"@ && list[9] == credentials.access_token);
    assert(list[10] == "--pairing-code"@ && list[11] == credentials.pairing_code);
    assert(list[12] == "--video-codec"@ && list[13] == options.video_codec.env_value());
    assert(list[14] == "--android-gpu"@ && list[15] == options.android_gpu.emulator_value());
    assert(list[16] == "--server-kind"@ && list[17] == "standalone"@);
    let rate: int = 18 + if options.low_latency {
        1int
    } else {
        0
    };
    if options.low_latency {
        assert(list[18] == "--low-latency"@);
    }
    let host: int = rate + if options.local_stream_fps is Some {
        2int
    } else {
        0
    };
    if options.local_stream_fps is Some {
        assert(list[rate] == "--local-stream-fps"@ && list[rate + 1] == decimal(
            options.local_stream_fps->Some_0 as nat,
        ));
    }
    let root: int = host + if options.advertise_host is Some {
        2int
    } else {
        0
    };
    if options.advertise_host is Some {
        assert(list[host] == "--advertise-host"@ && list[host + 1]
            == options.advertise_host->Some_0);
    }
    if options.client_root is Some {
        assert(list[root] == "--client-root"@ && list[root + 1] == options.client_root->Some_0);
    }
}

/// A supervised service is started by the shell, which is handed the executable and
/// all of its arguments behind the script; any other is started by itself with
/// these arguments.
pub proof fn supervised_services_get_their_arguments(
    executable: Seq<char>,
    run: Seq<Seq<char>>,
)
    ensures
        start_program(false, executable) == executable,
        start_arguments(false, executable, run) == run,
        start_program(true, executable) == "/bin/sh"@,
        start_arguments(true, executable, run).len() == run.len() + 4,
        start_arguments(true, executable, run).skip(3) == seq![executable] + run,
        start_arguments(true, executable, run)[0] == "-c"@,
        start_arguments(true, executable, run)[1] == supervisor_script_text(),
{
    assert(start_arguments(true, executable, run).skip(3) =~= seq![executable] + run);
}

/// The environment that a service is started with tells whether the stream is sent
/// as it is made, and its frame rate, which wins over that of its quality.
pub proof fn start_variables_say_what_is_asked(options: ServiceLaunchView)
    requires
        options.stream_quality_profile matches Some(id) ==> stream_quality_profile(id) is Some,
    ensures
        ({
            let variables = start_variables(
                options,
                quality_variables(options.stream_quality_profile),
            );
            &&& value_set(variables, "SIMDECK_REALTIME_STREAM"@) == Some(
                if options.realtime_stream || options.stream_quality_profile is Some {
                    "1"@
                } else {
                    "0"@
                },
            )
            &&& value_set(variables, "SIMDECK_LOCAL_STREAM_FPS"@) == option_decimal(
                options.local_stream_fps,
            )
            &&& value_set(variables, "SIMDECK_STREAM_QUALITY_PROFILE"@)
                == options.stream_quality_profile
            &&& options.local_stream_fps matches Some(fps) ==> value_set(
                variables,
                "SIMDECK_REALTIME_FPS"@,
            ) == Some(decimal(fps as nat))
            &&& options.local_stream_fps is None && options.stream_quality_profile is Some
                ==> value_set(variables, "SIMDECK_REALTIME_FPS"@) == Some(
                decimal(
                    profile_limits(
                        stream_quality_profile(options.stream_quality_profile->Some_0)->Some_0,
                    ).fps as nat,
                ),
            )
        }),
{
    lemma_stream_variable_names();
    let fps = option_decimal(options.local_stream_fps);
    let quality = quality_variables(options.stream_quality_profile);
    let first = seq![
        (
            "SIMDECK_REALTIME_STREAM"@,
            if options.realtime() {
                "1"@
            } else {
                "0"@
            },
        ),
    ];
    let second = optional_variable("SIMDECK_LOCAL_STREAM_FPS"@, fps);
    let last = optional_variable("SIMDECK_REALTIME_FPS"@, fps);
    if options.stream_quality_profile is Some {
        let id = options.stream_quality_profile->Some_0;
        let limits = profile_limits(stream_quality_profile(id)->Some_0);
        quality_variables_carry_the_profile(id, limits, "SIMDECK_REALTIME_STREAM"@);
        quality_variables_carry_the_profile(id, limits, "SIMDECK_LOCAL_STREAM_FPS"@);
    }
    lemma_start_variable(first, second, quality, last, "SIMDECK_REALTIME_STREAM"@);
    lemma_start_variable(first, second, quality, last, "SIMDECK_LOCAL_STREAM_FPS"@);
    lemma_start_variable(first, second, quality, last, "SIMDECK_REALTIME_FPS"@);
    lemma_start_variable(first, second, quality, last, "SIMDECK_STREAM_QUALITY_PROFILE"@);
}

proof fn lemma_start_variable(
    first: Seq<(Seq<char>, Seq<char>)>,
    second: Seq<(Seq<char>, Seq<char>)>,
    third: Seq<(Seq<char>, Seq<char>)>,
    last: Seq<(Seq<char>, Seq<char>)>,
    name: Seq<char>,
)
    requires
        first.len() == 1,
        second.len() <= 1,
        last.len() <= 1,
    ensures
        value_set(first + second + third + last, name) == if last.len() > 0 && last[0].0 == name {
            Some(last[0].1)
        } else if value_set(third, name) is Some {
            value_set(third, name)
        } else if second.len() > 0 && second[0].0 == name {
            Some(second[0].1)
        } else if first[0].0 == name {
            Some(first[0].1)
        } else {
            None
        },
{
    reveal_with_fuel(value_set, 2);
    lemma_value_set(first, second, name);
    lemma_value_set(first + second, third, name);
    lemma_value_set(first + second + third, last, name);
}

/// The script that watches over a service starts it again for the status that asks
/// for it and for signals, and has it record the process of the shell.
pub proof fn supervisor_restarts_on_its_status()
    ensures
        contains_text(supervisor_script_text(), "[ \"$status\" -eq 75 ] || [ \"$status\" -ge 128 ]"@),
        contains_text(supervisor_script_text(), "SIMDECK_SERVICE_METADATA_PID=$$ \"$@\" &"@),
{
    let a = "terminating=0\ntrap 'terminating=1; if [ -n \"$child\" ]; then kill \"$child\" 2>/dev/null; wait \"$child\" 2>/dev/null; fi' TERM INT HUP\nwhile :; do\n  "@;
    let b = SUPERVISED_SERVICE_METADATA_PID_ENV@;
    let c = "=$$ \"$@\" &\n  child=$!\n  wait \"$child\"\n  status=$?\n  child=\n  if [ \"$terminating\" -eq 1 ]; then\n    exit 0\n  fi\n  if [ \"$status\" -eq "@;
    let d = decimal(75);
    let e = " ] || [ \"$status\" -ge 128 ]; then\n    printf '[simdeck-supervisor] service exited with status %s; restarting\\n' \"$status\" >&2\n    sleep 1\n    continue\n  fi\n  exit \"$status\"\ndone\n"@;
    reveal_strlit("=$$ \"$@\" &\n  child=$!\n  wait \"$child\"\n  status=$?\n  child=\n  if [ \"$terminating\" -eq 1 ]; then\n    exit 0\n  fi\n  if [ \"$status\" -eq ");
    reveal_strlit(" ] || [ \"$status\" -ge 128 ]; then\n    printf '[simdeck-supervisor] service exited with status %s; restarting\\n' \"$status\" >&2\n    sleep 1\n    continue\n  fi\n  exit \"$status\"\ndone\n");
    reveal_strlit("[ \"$status\" -eq 75 ] || [ \"$status\" -ge 128 ]");
    reveal_strlit("SIMDECK_SERVICE_METADATA_PID=$$ \"$@\" &");
    reveal_strlit("SIMDECK_SERVICE_METADATA_PID");
    reveal_with_fuel(decimal, 3);
    assert(d =~= seq!['7', '5']);
    let script = supervisor_script_text();
    assert(script == a + b + c + d + e);
    let at = a.len() + b.len() + c.len() - 16;
    let wanted = "[ \"$status\" -eq 75 ] || [ \"$status\" -ge 128 ]"@;
    assert(script.subrange(at, at + wanted.len()) =~= wanted);
    assert(occurs_at(script, wanted, at));
    let named = "SIMDECK_SERVICE_METADATA_PID=$$ \"$@\" &"@;
    let start: int = a.len() as int;
    assert(script.subrange(start, start + named.len()) =~= named);
    assert(occurs_at(script, named, start));
}

/// The script that watches over a service ends it when it is itself told to end, and
/// is then done; any other end of the service is its own.
pub proof fn supervisor_hands_on_the_end()
    ensures
        contains_text(
            supervisor_script_text(),
            "trap 'terminating=1; if [ -n \"$child\" ]; then kill \"$child\""@,
        ),
        contains_text(supervisor_script_text(), "if [ \"$terminating\" -eq 1 ]; then\n    exit 0"@),
        contains_text(supervisor_script_text(), "exit \"$status\"\ndone\n"@),
{
    let a = "terminating=0\ntrap 'terminating=1; if [ -n \"$child\" ]; then kill \"$child\" 2>/dev/null; wait \"$child\" 2>/dev/null; fi' TERM INT HUP\nwhile :; do\n  "@;
    let b = SUPERVISED_SERVICE_METADATA_PID_ENV@;
    let c = "=$$ \"$@\" &\n  child=$!\n  wait \"$child\"\n  status=$?\n  child=\n  if [ \"$terminating\" -eq 1 ]; then\n    exit 0\n  fi\n  if [ \"$status\" -eq "@;
    let d = decimal(75);
    let e = " ] || [ \"$status\" -ge 128 ]; then\n    printf '[simdeck-supervisor] service exited with status %s; restarting\\n' \"$status\" >&2\n    sleep 1\n    continue\n  fi\n  exit \"$status\"\ndone\n"@;
    reveal_strlit("terminating=0\ntrap 'terminating=1; if [ -n \"$child\" ]; then kill \"$child\" 2>/dev/null; wait \"$child\" 2>/dev/null; fi' TERM INT HUP\nwhile :; do\n  ");
    reveal_strlit("=$$ \"$@\" &\n  child=$!\n  wait \"$child\"\n  status=$?\n  child=\n  if [ \"$terminating\" -eq 1 ]; then\n    exit 0\n  fi\n  if [ \"$status\" -eq ");
    reveal_strlit(" ] || [ \"$status\" -ge 128 ]; then\n    printf '[simdeck-supervisor] service exited with status %s; restarting\\n' \"$status\" >&2\n    sleep 1\n    continue\n  fi\n  exit \"$status\"\ndone\n");
    reveal_strlit("trap 'terminating=1; if [ -n \"$child\" ]; then kill \"$child\"");
    reveal_strlit("if [ \"$terminating\" -eq 1 ]; then\n    exit 0");
    reveal_strlit("exit \"$status\"\ndone\n");
    let script = supervisor_script_text();
    assert(script == a + b + c + d + e);
    let trap = "trap 'terminating=1; if [ -n \"$child\" ]; then kill \"$child\""@;
    assert(script.subrange(14, 14 + trap.len() as int) =~= trap);
    assert(occurs_at(script, trap, 14));
    let told = "if [ \"$terminating\" -eq 1 ]; then\n    exit 0"@;
    let at: int = a.len() + b.len() + c.len() - 27 - told.len();
    assert(script.subrange(at, at + told.len()) =~= told);
    assert(occurs_at(script, told, at));
    let own = "exit \"$status\"\ndone\n"@;
    let end: int = script.len() - own.len();
    assert(script.subrange(end, end + own.len()) =~= own);
    assert(occurs_at(script, own, end));
}

} // verus!
