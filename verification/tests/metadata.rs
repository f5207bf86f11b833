use simdeck::auth::Entropy;
use simdeck::credentials::ProjectServiceCredentials;
use simdeck::launch::DefaultServiceLaunchOptions;
use simdeck::metadata::{
    command_service_url, configured_service_port, default_service_bind, default_service_plan,
    default_service_port, ensure_singleton_service, metadata_from_launch_agent,
    project_device_selection_file, project_device_selection_path_for_root,
    project_service_credentials_path, run_default_service, service_log_path,
    service_matches_launch_options, service_metadata_path,
    service_port_matches_launch_options, service_restart_port, service_status, service_to_replace,
    stop_project_service, stop_singleton_service_on_port, supervised_service_metadata_pid,
    CommandService, DefaultServicePlan, Probe, ServiceLaunchOptions, ServiceMetadata,
    SingletonAction, StopAction,
};
use simdeck::modes::{
    apply_stream_quality_environment, local_stream_quality_profile, parse_android_gpu_mode,
    parse_stream_quality_profile, parse_video_codec_mode, stream_quality_env_for_profile,
    studio_stream_quality_profile, AndroidGpuMode, StreamQualityProfileArg, Variable,
    VideoCodecMode,
};
use simdeck::net::{parse_ipv4, IpAddr};
use simdeck::serve::{
    bonjour_arguments, bonjour_service_name, is_quit_key, leading_variables, page_token,
    removed_variable, run_credentials, running_service_metadata, serve_with_appkit, Advertisement,
    ServeOptions,
};
use simdeck::service::ServiceInstallResult;
use simdeck::start::{
    choose_available_service_port_for_bind, choose_service_port_for_bind, service_port,
    start_environment,
    start_project_service_with_credentials, started_service_metadata, supervisor_script,
    RECOVERABLE_RESTART_EXIT_CODE,
};

fn ip(text: &str) -> IpAddr {
    parse_ipv4(text).unwrap()
}

fn service_metadata_for_test(
    port: u16,
    bind: &str,
    advertise_host: Option<&str>,
    client_root: Option<&str>,
) -> ServiceMetadata {
    ServiceMetadata {
        project_root: "/tmp/project".to_owned(),
        pid: 42,
        http_url: format!("http://127.0.0.1:{port}"),
        port,
        bind: ip(bind),
        advertise_host: advertise_host.map(str::to_owned),
        client_root: client_root.map(str::to_owned),
        access_token: "token".to_owned(),
        pairing_code: Some("123456".to_owned()),
        binary_path: "/tmp/simdeck-bin".to_owned(),
        started_at: 1,
        log_path: None,
        video_codec: Some(VideoCodecMode::Auto.as_env_value().to_owned()),
        android_gpu: Some(AndroidGpuMode::Host.as_emulator_value().to_owned()),
        low_latency: false,
        realtime_stream: true,
        stream_quality_profile: Some("full".to_owned()),
        local_stream_fps: None,
    }
}

fn service_launch_options_for_test(
    port: u16,
    bind: &str,
    advertise_host: Option<&str>,
    client_root: Option<&str>,
) -> ServiceLaunchOptions {
    ServiceLaunchOptions {
        port,
        bind: ip(bind),
        advertise_host: advertise_host.map(str::to_owned),
        client_root: client_root.map(str::to_owned),
        video_codec: VideoCodecMode::Auto,
        android_gpu: AndroidGpuMode::Host,
        low_latency: false,
        realtime_stream: false,
        allow_port_probe: false,
        stream_quality_profile: Some("full".to_owned()),
        local_stream_fps: None,
    }
}

fn values(variables: &[Variable]) -> Vec<(&str, &str)> {
    variables.iter().map(|variable| (variable.name, variable.value.as_str())).collect()
}

fn serve_options() -> ServeOptions {
    ServeOptions {
        port: 4310,
        bind: ip("127.0.0.1"),
        advertise_host: None,
        client_root: None,
        video_codec: VideoCodecMode::Auto,
        android_gpu: AndroidGpuMode::Host,
        low_latency: false,
        stream_quality_profile: Some("full".to_owned()),
        local_stream_fps: None,
    }
}

fn credentials() -> ProjectServiceCredentials {
    ProjectServiceCredentials { access_token: "token".to_owned(), pairing_code: "123456".to_owned() }
}

#[test]
fn service_launch_options_match_listener_metadata() {
    let metadata = service_metadata_for_test(4310, "127.0.0.1", None, None);
    let options = service_launch_options_for_test(4310, "127.0.0.1", None, None);

    assert!(service_matches_launch_options(&metadata, &options, true, false));
}

#[test]
fn service_launch_options_reject_different_port() {
    let metadata = service_metadata_for_test(4310, "127.0.0.1", None, None);
    let options = service_launch_options_for_test(4320, "127.0.0.1", None, None);

    assert!(!service_matches_launch_options(&metadata, &options, true, false));
}

#[test]
fn service_launch_options_reuse_probed_port_only_when_enabled_and_preferred_is_busy() {
    let preferred: u16 = 49_152;
    let metadata = service_metadata_for_test(preferred + 1, "127.0.0.1", None, None);
    let mut options = service_launch_options_for_test(preferred, "127.0.0.1", None, None);

    assert!(!service_matches_launch_options(&metadata, &options, false, false));
    options.allow_port_probe = true;
    assert!(service_matches_launch_options(&metadata, &options, false, false));
    assert!(!service_matches_launch_options(&metadata, &options, true, false));
    assert!(!service_port_matches_launch_options(preferred - 1, &options, false));
}

#[test]
fn service_launch_options_reject_different_bind_or_client() {
    let metadata =
        service_metadata_for_test(4310, "127.0.0.1", Some("127.0.0.1"), Some("/tmp/client-a"));

    assert!(!service_matches_launch_options(
        &metadata,
        &service_launch_options_for_test(
            4310,
            "0.0.0.0",
            Some("127.0.0.1"),
            Some("/tmp/client-a"),
        ),
        true,
        false,
    ));
    assert!(!service_matches_launch_options(
        &metadata,
        &service_launch_options_for_test(
            4310,
            "127.0.0.1",
            Some("localhost"),
            Some("/tmp/client-a"),
        ),
        true,
        false,
    ));
    assert!(!service_matches_launch_options(
        &metadata,
        &service_launch_options_for_test(
            4310,
            "127.0.0.1",
            Some("127.0.0.1"),
            Some("/tmp/client-b"),
        ),
        true,
        false,
    ));
}

#[test]
fn a_started_service_matches_the_options_it_was_started_with() {
    let options = service_launch_options_for_test(80, "127.0.0.1", Some("h"), Some("/tmp/c/"));
    let copy = service_launch_options_for_test(80, "127.0.0.1", Some("h"), Some("/tmp/c"));
    let metadata = started_service_metadata(
        options,
        "/tmp/project",
        7,
        1024,
        credentials(),
        "/bin/simdeck",
        99,
        "/tmp/service.log",
    );
    assert!(service_matches_launch_options(&metadata, &copy, true, false));
    assert_eq!(metadata.http_url, "http://127.0.0.1:1024");
    assert_eq!(metadata.pairing_code.as_deref(), Some("123456"));
    assert_eq!(metadata.log_path.as_deref(), Some("/tmp/service.log"));
    assert!(metadata.realtime_stream);
    let down = Probe { healthy: false, same_binary: false };
    let up = Probe { healthy: true, same_binary: true };
    let action = ensure_singleton_service(None, down, Some(&metadata), up, &copy, true, false);
    assert_eq!(action, SingletonAction::UseRecorded);
}

#[test]
fn a_running_service_records_what_it_was_started_with() {
    let metadata = running_service_metadata(
        &serve_options(),
        true,
        "/tmp/project",
        7,
        "token",
        "123456",
        "/bin/simdeck",
        99,
        "/tmp/service.log",
    );
    let options = service_launch_options_for_test(4310, "127.0.0.1", None, None);
    assert!(service_matches_launch_options(&metadata, &options, true, false));
    let mut low_latency = serve_options();
    low_latency.low_latency = true;
    low_latency.stream_quality_profile = None;
    let metadata = running_service_metadata(
        &low_latency,
        false,
        "/tmp/project",
        7,
        "token",
        "123456",
        "/bin/simdeck",
        99,
        "/tmp/service.log",
    );
    assert!(metadata.realtime_stream);
    let mut options = service_launch_options_for_test(4310, "127.0.0.1", None, None);
    options.low_latency = true;
    options.stream_quality_profile = None;
    assert!(!service_matches_launch_options(&metadata, &options, true, false));
}

#[test]
fn ports_are_tried_upwards() {
    assert_eq!(choose_service_port_for_bind(80, |_| true).unwrap(), 1024);
    assert_eq!(
        choose_service_port_for_bind(4310, |_| false).unwrap_err().message(),
        "SimDeck service port 4310 is already in use"
    );
    assert_eq!(choose_available_service_port_for_bind(4310, |port| port > 4312).unwrap(), 4313);
    assert_eq!(choose_available_service_port_for_bind(65535, |_| true).unwrap(), 65535);
    assert_eq!(
        choose_available_service_port_for_bind(65534, |_| false).unwrap_err().message(),
        "No available SimDeck service port at or above 65534"
    );
}

#[test]
fn a_service_is_started_under_a_watch() {
    let mut options = service_launch_options_for_test(4310, "127.0.0.1", Some("h"), Some("/c"));
    options.local_stream_fps = Some(60);
    options.low_latency = true;
    let start = start_project_service_with_credentials(
        &options,
        true,
        "/bin/simdeck",
        "/s.json",
        4311,
        &credentials(),
    )
    .unwrap();
    assert_eq!(start.program, "/bin/sh");
    assert_eq!(start.arguments[0], "-c");
    assert_eq!(start.arguments[1], supervisor_script());
    assert_eq!(
        start.arguments[2..],
        [
            "simdeck-supervisor",
            "/bin/simdeck",
            "service",
            "run",
            "--metadata-path",
            "/s.json",
            "--port",
            "4311",
            "--bind",
            "127.0.0.1",
            "--access-token",
            "token",
            "--pairing-code",
            "123456",
            "--video-codec",
            "auto",
            "--android-gpu",
            "host",
            "--server-kind",
            "standalone",
            "--low-latency",
            "--local-stream-fps",
            "60",
            "--advertise-host",
            "h",
            "--client-root",
            "/c",
        ]
    );
    assert_eq!(RECOVERABLE_RESTART_EXIT_CODE, 75);
    assert!(supervisor_script().contains("SIMDECK_SERVICE_METADATA_PID=$$ \"$@\" &"));
    assert!(supervisor_script().contains("-eq 75 ] || [ \"$status\" -ge 128 ]"));
    let plain = start_project_service_with_credentials(
        &options,
        false,
        "/bin/simdeck",
        "/s.json",
        4311,
        &credentials(),
    )
    .unwrap();
    assert_eq!(plain.program, "/bin/simdeck");
    assert_eq!(plain.arguments[0], "service");
}

#[test]
fn a_quality_profile_is_carried_by_the_environment() {
    let mut options = service_launch_options_for_test(4310, "127.0.0.1", None, None);
    options.stream_quality_profile = Some("low".to_owned());
    options.local_stream_fps = Some(45);
    let environment = start_environment(&options).unwrap();
    assert_eq!(
        values(&environment),
        [
            ("SIMDECK_REALTIME_STREAM", "1"),
            ("SIMDECK_LOCAL_STREAM_FPS", "45"),
            ("SIMDECK_STREAM_QUALITY_PROFILE", "low"),
            ("SIMDECK_REALTIME_MAX_EDGE", "720"),
            ("SIMDECK_REALTIME_FPS", "30"),
            ("SIMDECK_REALTIME_MIN_BITRATE", "2000000"),
            ("SIMDECK_REALTIME_BITS_PER_PIXEL", "5"),
            ("SIMDECK_REALTIME_FPS", "45"),
        ]
    );
    options.stream_quality_profile = Some("ultra".to_owned());
    assert_eq!(
        start_environment(&options).unwrap_err().message(),
        "Unknown stream quality profile `ultra`."
    );
    assert!(start_project_service_with_credentials(&options, true, "x", "y", 1, &credentials())
        .is_err());
}

#[test]
fn a_served_service_sets_its_own_environment() {
    let mut options = serve_options();
    options.stream_quality_profile = None;
    options.local_stream_fps = None;
    assert_eq!(
        values(&serve_with_appkit(&options, false).unwrap()),
        [
            ("SIMDECK_VIDEO_CODEC", "auto"),
            ("SIMDECK_ANDROID_GPU", "host"),
            ("SIMDECK_LOW_LATENCY", "0"),
            ("SIMDECK_REALTIME_STREAM", "0"),
            ("SIMDECK_RESTART_ON_CORE_SIMULATOR_MISMATCH", "1"),
        ]
    );
    assert_eq!(values(&serve_with_appkit(&options, true).unwrap())[3].1, "1");
    options.low_latency = true;
    options.local_stream_fps = Some(24);
    options.stream_quality_profile = Some("tiny".to_owned());
    let environment = serve_with_appkit(&options, false).unwrap();
    let set = values(&environment);
    assert_eq!(set[2], ("SIMDECK_LOW_LATENCY", "1"));
    assert_eq!(set[3], ("SIMDECK_LOCAL_STREAM_FPS", "24"));
    assert_eq!(set[9], ("SIMDECK_REALTIME_FPS", "24"));
    assert_eq!(set[10], ("SIMDECK_REALTIME_STREAM", "1"));
    options.stream_quality_profile = Some("no".to_owned());
    assert_eq!(
        serve_with_appkit(&options, false).unwrap_err().message(),
        "Unknown stream quality profile `no`."
    );
}

#[test]
fn names_of_modes_are_read_back() {
    for mode in [VideoCodecMode::Auto, VideoCodecMode::Hardware, VideoCodecMode::Software] {
        assert_eq!(parse_video_codec_mode(mode.as_env_value()), Some(mode));
    }
    assert_eq!(parse_video_codec_mode("h264-software"), Some(VideoCodecMode::Software));
    assert_eq!(parse_video_codec_mode("h264"), None);
    for mode in [
        AndroidGpuMode::Auto,
        AndroidGpuMode::Host,
        AndroidGpuMode::Software,
        AndroidGpuMode::Lavapipe,
        AndroidGpuMode::Swiftshader,
        AndroidGpuMode::Swangle,
        AndroidGpuMode::SwiftshaderIndirect,
    ] {
        assert_eq!(parse_android_gpu_mode(mode.as_emulator_value()), Some(mode));
    }
    for profile in [
        StreamQualityProfileArg::Quality,
        StreamQualityProfileArg::Full,
        StreamQualityProfileArg::Balanced,
        StreamQualityProfileArg::Fast,
        StreamQualityProfileArg::Smooth,
        StreamQualityProfileArg::Economy,
        StreamQualityProfileArg::Low,
        StreamQualityProfileArg::Tiny,
        StreamQualityProfileArg::CiSoftware,
    ] {
        assert_eq!(parse_stream_quality_profile(profile.as_profile_id()), Some(profile));
        assert!(apply_stream_quality_environment(profile.as_profile_id()).is_ok());
    }
    let balanced = stream_quality_env_for_profile("balanced").unwrap();
    assert_eq!(balanced.profile, "balanced");
    assert_eq!(balanced.limits.max_edge, 1280);
    assert_eq!(balanced.limits.min_bitrate, 6_000_000);
}

#[test]
fn profiles_are_chosen_where_none_is_asked_for() {
    assert_eq!(local_stream_quality_profile(false, None).as_deref(), Some("full"));
    assert_eq!(local_stream_quality_profile(true, None), None);
    assert_eq!(
        local_stream_quality_profile(true, Some(StreamQualityProfileArg::Low)).as_deref(),
        Some("low")
    );
    assert_eq!(
        studio_stream_quality_profile(VideoCodecMode::Software, false, None).as_deref(),
        Some("smooth")
    );
    assert_eq!(studio_stream_quality_profile(VideoCodecMode::Software, true, None), None);
    assert_eq!(studio_stream_quality_profile(VideoCodecMode::Auto, false, None), None);
}

#[test]
fn a_service_is_used_only_where_it_is_what_is_asked_for() {
    let good = Probe { healthy: true, same_binary: true };
    let foreign = Probe { healthy: true, same_binary: false };
    let dead = Probe { healthy: false, same_binary: true };
    let options = service_launch_options_for_test(4310, "127.0.0.1", None, None);
    let other = service_launch_options_for_test(4320, "127.0.0.1", None, None);
    let record = service_metadata_for_test(4310, "127.0.0.1", None, None);
    let agent = service_metadata_for_test(4310, "127.0.0.1", None, None);
    assert_eq!(
        ensure_singleton_service(Some(&agent), good, None, dead, &options, true, false),
        SingletonAction::UseActive
    );
    assert_eq!(
        ensure_singleton_service(None, dead, Some(&record), good, &options, true, false),
        SingletonAction::UseRecorded
    );
    assert_eq!(
        ensure_singleton_service(None, dead, Some(&record), good, &other, true, false),
        SingletonAction::Start { terminate_recorded: true, foreign_recorded: false }
    );
    assert_eq!(
        ensure_singleton_service(None, dead, Some(&record), foreign, &options, true, false),
        SingletonAction::Start { terminate_recorded: false, foreign_recorded: true }
    );
    assert_eq!(
        ensure_singleton_service(None, dead, Some(&record), dead, &options, true, false),
        SingletonAction::Start { terminate_recorded: true, foreign_recorded: false }
    );
    assert_eq!(
        ensure_singleton_service(Some(&agent), dead, Some(&record), dead, &other, true, false),
        SingletonAction::Start { terminate_recorded: false, foreign_recorded: false }
    );
    assert_eq!(
        ensure_singleton_service(None, dead, None, dead, &options, true, false),
        SingletonAction::Start { terminate_recorded: false, foreign_recorded: false }
    );
}

#[test]
fn a_plain_call_uses_what_runs() {
    let good = Probe { healthy: true, same_binary: true };
    let dead = Probe { healthy: false, same_binary: true };
    assert_eq!(default_service_plan(false, false, true, None), DefaultServicePlan::UseActive);
    assert_eq!(
        default_service_plan(false, false, false, Some(good)),
        DefaultServicePlan::UseRecorded
    );
    assert_eq!(
        default_service_plan(false, false, false, Some(dead)),
        DefaultServicePlan::EnsureSingleton
    );
    assert_eq!(default_service_plan(true, false, true, None), DefaultServicePlan::EnsureSingleton);
    assert_eq!(default_service_plan(true, true, true, None), DefaultServicePlan::EnsureLaunchAgent);
    let options = DefaultServiceLaunchOptions::default();
    let launch = run_default_service(&options, Some(5000));
    assert_eq!(launch.port, 5000);
    assert!(launch.allow_port_probe);
    assert_eq!(launch.stream_quality_profile.as_deref(), Some("full"));
    let explicit = DefaultServiceLaunchOptions {
        port: 6000,
        port_explicit: true,
        autostart: true,
        ..DefaultServiceLaunchOptions::default()
    };
    let launch = run_default_service(&explicit, Some(5000));
    assert_eq!((launch.port, launch.allow_port_probe), (6000, false));
}

#[test]
fn a_command_finds_its_service() {
    let url = |target: CommandService| match target {
        CommandService::Url(url) => Some(url),
        CommandService::Ensure => None,
    };
    assert_eq!(
        url(command_service_url(Some("http://a"), Some("http://b"), Some(1), None, false)),
        Some("http://a".to_owned())
    );
    assert_eq!(
        url(command_service_url(None, Some("http://b"), Some(1), None, false)),
        Some("http://b".to_owned())
    );
    assert_eq!(
        url(command_service_url(Some(" "), Some("http://b"), Some(1), None, false)),
        Some("http://127.0.0.1:1".to_owned())
    );
    assert_eq!(
        url(command_service_url(None, None, None, Some("http://c"), true)),
        Some("http://c".to_owned())
    );
    assert_eq!(url(command_service_url(None, None, None, Some("http://c"), false)), None);
}

#[test]
fn ports_come_from_the_nearest_source() {
    assert_eq!(service_restart_port(Some(1), Some(2), Some(3), Some(4)), 1);
    assert_eq!(service_restart_port(None, Some(2), Some(3), Some(4)), 2);
    assert_eq!(service_restart_port(None, None, Some(3), Some(4)), 3);
    assert_eq!(service_restart_port(None, None, None, Some(4)), 4);
    assert_eq!(service_restart_port(None, None, None, None), 4310);
    assert_eq!(configured_service_port(Some(1), Some(2)), 1);
    assert_eq!(configured_service_port(None, Some(2)), 2);
    assert_eq!(configured_service_port(None, None), 4310);
    assert_eq!(default_service_port(), 4310);
    assert_eq!(default_service_bind().to_text(), "127.0.0.1");
}

#[test]
fn stopping_ends_what_runs() {
    let record = service_metadata_for_test(4310, "127.0.0.1", None, None);
    assert!(matches!(stop_project_service(None, None), StopAction::Nothing));
    assert!(matches!(
        stop_project_service(None, Some(&record)),
        StopAction::Terminate { pid: 42 }
    ));
    assert_eq!(stop_singleton_service_on_port(4310, Some(&record)), Some(42));
    assert_eq!(stop_singleton_service_on_port(4311, Some(&record)), None);
    assert_eq!(stop_singleton_service_on_port(4311, None), None);
    let status = service_status(false, true, false, false);
    assert!(!status.running && status.stale);
    assert_eq!(supervised_service_metadata_pid(Some("12")), Some(12));
    assert_eq!(supervised_service_metadata_pid(Some("x")), None);
    assert_eq!(supervised_service_metadata_pid(None), None);
    assert_eq!(project_device_selection_file(255), "00000000000000ff.json");
}

#[test]
fn a_launch_agent_has_a_record_too() {
    let result = |token: Option<&str>| ServiceInstallResult {
        service: "org.nativescript.simdeck".to_owned(),
        plist_path: "/p.plist".to_owned(),
        executable_path: "/simdeck".to_owned(),
        stdout_log: "/out.log".to_owned(),
        stderr_log: "/err.log".to_owned(),
        port: 4400,
        advertise_host: None,
        access_token: token.map(str::to_owned),
        pairing_code: Some("123456".to_owned()),
        reused: true,
    };
    let record = metadata_from_launch_agent(result(Some("token")), "/tmp/project", 9).unwrap();
    assert_eq!(record.http_url, "http://127.0.0.1:4400");
    assert_eq!(record.access_token, "token");
    assert_eq!(record.started_at, 9);
    let options = service_launch_options_for_test(4400, "127.0.0.1", None, None);
    assert!(!service_matches_launch_options(&record, &options, true, false));
    let error = metadata_from_launch_agent(result(None), "/tmp/project", 9).unwrap_err();
    assert_eq!(error.message(), "SimDeck service did not publish an access token");
}

#[test]
fn a_service_is_advertised_by_its_host() {
    assert_eq!(bonjour_service_name(" mac.local "), "SimDeck mac.local");
    assert_eq!(bonjour_service_name("localhost"), "SimDeck");
    assert_eq!(bonjour_service_name(" 127.0.0.1"), "SimDeck");
    assert_eq!(bonjour_service_name("  "), "SimDeck");
    let advertisement = Advertisement {
        advertise_host: "mac.local".to_owned(),
        http_port: 4310,
        server_id: "s".to_owned(),
        host_id: "h".to_owned(),
        host_name: "n".to_owned(),
        server_kind: "standalone".to_owned(),
    };
    assert!(bonjour_arguments(&ip("127.0.0.1"), &advertisement).is_none());
    assert_eq!(
        bonjour_arguments(&ip("0.0.0.0"), &advertisement).unwrap(),
        [
            "-R",
            "SimDeck mac.local",
            "_simdeck._tcp.",
            "local.",
            "4310",
            "sid=s",
            "host=mac.local",
            "hid=h",
            "hname=n",
            "kind=standalone",
        ]
    );
}

#[test]
fn a_served_page_holds_the_token_only_at_home() {
    assert_eq!(page_token(true, "token").as_deref(), Some("token"));
    assert_eq!(page_token(false, "token"), None);
    assert!(is_quit_key(b'q') && is_quit_key(b'Q'));
    assert!(!is_quit_key(b'x'));
    let entropy = Entropy { token: [0x11; 32], code: 5 };
    let (token, code) = run_credentials(None, None, &entropy);
    assert_eq!((token.len(), code.as_str()), (64, "000005"));
    let (token, code) = run_credentials(Some("t".to_owned()), Some(String::new()), &entropy);
    assert_eq!((token.as_str(), code.as_str()), ("t", ""));
}

#[test]
fn other_ports_are_tried_only_where_they_may_be() {
    let mut options = service_launch_options_for_test(4310, "127.0.0.1", None, None);
    assert_eq!(service_port(&options, |_| true).unwrap(), 4310);
    assert_eq!(
        service_port(&options, |port| port > 4310).unwrap_err().message(),
        "SimDeck service port 4310 is already in use"
    );
    options.allow_port_probe = true;
    assert_eq!(service_port(&options, |port| port > 4310).unwrap(), 4311);
    assert_eq!(
        service_port(&options, |_| false).unwrap_err().message(),
        "No available SimDeck service port at or above 4310"
    );
    options.port = 80;
    assert_eq!(service_port(&options, |_| true).unwrap(), 1024);
}

#[test]
fn a_service_without_a_frame_rate_inherits_none() {
    let mut options = serve_options();
    assert_eq!(removed_variable(&options), Some("SIMDECK_LOCAL_STREAM_FPS"));
    assert_eq!(
        values(&leading_variables(&options)),
        vec![
            ("SIMDECK_VIDEO_CODEC", "auto"),
            ("SIMDECK_ANDROID_GPU", "host"),
            ("SIMDECK_LOW_LATENCY", "0"),
        ]
    );
    options.local_stream_fps = Some(30);
    options.low_latency = true;
    options.stream_quality_profile = Some("unheard".to_owned());
    assert_eq!(removed_variable(&options), None);
    assert!(serve_with_appkit(&options, false).is_err());
    assert_eq!(
        values(&leading_variables(&options))[2..],
        [("SIMDECK_LOW_LATENCY", "1"), ("SIMDECK_LOCAL_STREAM_FPS", "30")]
    );
}

#[test]
fn a_launch_agent_replaces_a_service_that_answers() {
    let record = service_metadata_for_test(4310, "127.0.0.1", None, None);
    assert_eq!(service_to_replace(Some(&record), true), Some(42));
    assert_eq!(service_to_replace(Some(&record), false), None);
    assert_eq!(service_to_replace(None, true), None);
}

#[test]
fn the_files_of_the_state_stand_below_its_directory() {
    assert_eq!(service_metadata_path("/home/me/.simdeck", false), "/home/me/.simdeck/service.json");
    assert_eq!(service_log_path("/home/me/.simdeck/", false), "/home/me/.simdeck/service.log");
    assert_eq!(
        project_service_credentials_path("/home/me/.simdeck", false),
        "/home/me/.simdeck/service-credentials.json"
    );
    assert_eq!(
        project_device_selection_path_for_root("/home/me/.simdeck", 0xab, false),
        "/home/me/.simdeck/default-devices/00000000000000ab.json"
    );
}

#[test]
fn clients_are_compared_by_the_rules_of_the_system() {
    let record = service_metadata_for_test(4310, "127.0.0.1", None, Some("C:\\client\\dist"));
    let options = service_launch_options_for_test(4310, "127.0.0.1", None, Some("c:/client//dist/"));
    assert!(service_matches_launch_options(&record, &options, true, true));
    assert!(!service_matches_launch_options(&record, &options, true, false));
    assert_eq!(
        service_metadata_path("C:\\Users\\Dylan\\.simdeck", true),
        "C:\\Users\\Dylan\\.simdeck\\service.json"
    );
}
