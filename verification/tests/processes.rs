use simdeck::credentials::ProjectServiceCredentials;
use simdeck::health::{
    fd_pressure, fd_pressure_message, health_probe_request, health_response_is_ok,
    http_health_probe, server_health_watchdog_should_restart, service_url_is_healthy, wait_step,
    HealthWatchdog, WaitStep,
    SERVER_FD_RESTART_THRESHOLD,
    SERVER_HEALTH_WATCHDOG_FAILURE_THRESHOLD, SERVER_HEALTH_WATCHDOG_HTTP_FAILURE_THRESHOLD,
};
use simdeck::metadata::{ServiceLaunchOptions, ServiceMetadata};
use simdeck::modes::{AndroidGpuMode, VideoCodecMode};
use simdeck::net::localhost;
use simdeck::processes::{
    cleanup_orphaned_workspace_services, command_arg_after, parse_service_run_process_line,
    parse_windows_service_run_process_line, parse_workspace_service_process_line,
    service_run_processes, signal_process, signal_process_group, take_ps_field,
    terminate_process_group, windows_process_exists, windows_termination,
    workspace_service_process_is_current, workspace_service_processes, KillReport, KilledService,
    ServiceRunProcess, Termination, TerminationStep, WorkspaceRecord, WorkspaceServiceProcess,
};
use simdeck::start::start_project_service_with_credentials;

fn process(pid: u32, pgid: u32, project_root: &str, metadata_path: &str) -> WorkspaceServiceProcess {
    WorkspaceServiceProcess {
        pid,
        ppid: 200,
        pgid,
        project_root: project_root.to_owned(),
        metadata_path: metadata_path.to_owned(),
    }
}

fn record(metadata_path: &str, project_root: &str, pid: u32) -> WorkspaceRecord {
    WorkspaceRecord {
        metadata_path: metadata_path.to_owned(),
        project_root: project_root.to_owned(),
        pid,
    }
}

fn metadata(pid: u32) -> ServiceMetadata {
    ServiceMetadata {
        project_root: "/tmp/project".to_owned(),
        pid,
        http_url: "http://127.0.0.1:4310".to_owned(),
        port: 4310,
        bind: localhost(),
        advertise_host: None,
        client_root: None,
        access_token: "token".to_owned(),
        pairing_code: Some("123456".to_owned()),
        binary_path: "/tmp/simdeck-bin".to_owned(),
        started_at: 1,
        log_path: None,
        video_codec: Some(VideoCodecMode::Auto.as_env_value().to_owned()),
        android_gpu: Some(AndroidGpuMode::Host.as_emulator_value().to_owned()),
        low_latency: false,
        realtime_stream: true,
        stream_quality_profile: Some("full".to_owned()),
        local_stream_fps: None,
    }
}

#[test]
fn workspace_service_process_parser_reads_supervised_command_paths() {
    let process = parse_workspace_service_process_line(
        " 8327 1 8327 /bin/sh -c script simdeck-supervisor /tmp/simdeck-bin service run --project-root /Users/dj/Developer/Flutter App Design --metadata-path /tmp/simdeck/flutter.json --port 4318 --bind 127.0.0.1 --access-token token --pairing-code 123456 --video-codec auto --server-kind workspace",
    )
    .expect("parse supervised service");

    assert_eq!(process.pid, 8327);
    assert_eq!(process.ppid, 1);
    assert_eq!(process.pgid, 8327);
    assert_eq!(
        process.project_root,
        "/Users/dj/Developer/Flutter App Design"
    );
    assert_eq!(
        process.metadata_path,
        "/tmp/simdeck/flutter.json"
    );
}

#[test]
fn windows_service_process_parser_reads_metadata_path() {
    let process = parse_windows_service_run_process_line(
        "8248\t\"D:\\Code\\SimDeck\\simdeck-bin.exe\" service run --metadata-path C:\\Users\\Dylan\\.simdeck\\service.json --port 4310",
    )
    .expect("parse Windows service");

    assert_eq!(process.pgid, 8248);
    assert_eq!(
        process.metadata_path,
        r"C:\Users\Dylan\.simdeck\service.json"
    );
}

#[test]
fn workspace_service_processes_do_not_require_unix_ps_on_windows() {
    assert!(workspace_service_processes("", true).is_empty());
    assert!(workspace_service_processes(
        "1 1 1 x service run --project-root /p --metadata-path /m --server-kind workspace",
        true
    )
    .is_empty());
}

#[test]
fn workspace_service_current_metadata_keeps_only_current_process_group() {
    let metadata_path = "/tmp/simdeck/project.json";
    let records = vec![record(metadata_path, "/tmp/project", 200)];

    let current = process(201, 200, "/tmp/project", metadata_path);
    let orphaned = process(201, 199, "/tmp/project", metadata_path);

    assert!(workspace_service_process_is_current(
        &current,
        &records
    ));
    assert!(!workspace_service_process_is_current(
        &orphaned,
        &records
    ));
}

#[test]
fn server_health_watchdog_restarts_when_http_listener_is_unhealthy() {
    assert!(server_health_watchdog_should_restart(
        0,
        SERVER_HEALTH_WATCHDOG_HTTP_FAILURE_THRESHOLD
    ));
}

#[test]
fn server_health_watchdog_waits_for_transient_http_probe_failures() {
    assert!(!server_health_watchdog_should_restart(
        0,
        SERVER_HEALTH_WATCHDOG_HTTP_FAILURE_THRESHOLD - 1
    ));
}

#[test]
fn server_health_watchdog_restarts_when_runtime_heartbeat_is_stale() {
    assert!(server_health_watchdog_should_restart(
        SERVER_HEALTH_WATCHDOG_FAILURE_THRESHOLD,
        0
    ));
}

#[test]
fn lines_of_other_processes_are_passed_over() {
    let output = "  PID PGID COMMAND\n  12   10 /tmp/simdeck service run --metadata-path /a.json --port 1\n  13 13 /usr/bin/vim\n\n 14 14 simdeck service run --port 1\n";
    let found = service_run_processes(output, false);
    assert_eq!(found.len(), 1);
    assert_eq!(found[0].metadata_path, "/a.json");
    assert!(parse_service_run_process_line("x 10 s service run --metadata-path /a").is_none());
    assert!(parse_workspace_service_process_line(
        "1 2 3 s service run --project-root /p --metadata-path /m"
    )
    .is_none());
    let workspace =
        "1 2 3 s service run --project-root /p --metadata-path /m --server-kind workspace\nnoise\n";
    let found = workspace_service_processes(workspace, false);
    assert_eq!((found.len(), found[0].ppid), (1, 2));
    assert_eq!(
        take_ps_field("  12  rest of it"),
        Some(("12".to_owned(), "  rest of it".to_owned()))
    );
    assert_eq!(take_ps_field("   "), None);
    assert_eq!(
        command_arg_after("a --root /x y --next z", "--root").as_deref(),
        Some("/x y")
    );
    assert_eq!(command_arg_after("a --rooted /x", "--root"), None);
}

#[test]
fn orphans_are_those_whose_record_does_not_name_them() {
    let records = vec![record("/m1", "/p1", 10)];
    let processes = vec![
        process(11, 10, "/p1", "/m1"),
        process(12, 12, "/p1", "/m1"),
        process(13, 13, "/p2", "/m2"),
        process(14, 13, "/p2", "/m2"),
    ];
    let orphans = cleanup_orphaned_workspace_services(&processes, None, &records);
    let groups: Vec<u32> = orphans.iter().map(|orphan| orphan.pgid).collect();
    assert_eq!(groups, [12, 13]);
    let orphans = cleanup_orphaned_workspace_services(&processes, Some("/p1"), &records);
    let groups: Vec<u32> = orphans.iter().map(|orphan| orphan.pgid).collect();
    assert_eq!(groups, [12]);
}

#[test]
fn no_group_is_ended_twice() {
    let mut report = KillReport::new();
    report.kill_launch_agent(5);
    assert!(report.kill_recorded(&metadata(5), true));
    assert!(!report.kill_recorded(&metadata(6), false));
    assert!(report.kill_record_at("/a.json", Some(&metadata(7)), true));
    assert!(!report.kill_record_at("/b.json", Some(&metadata(8)), false));
    assert!(!report.kill_record_at("/c.json", None, true));
    let run = |pgid: u32| ServiceRunProcess { pgid, metadata_path: "/x".to_owned() };
    assert!(!report.kill_process(&run(7)));
    assert!(report.kill_process(&run(9)));
    report.kill_orphan(&process(1, 9, "/p", "/m"));
    report.kill_orphan(&process(1, 10, "/p", "/m"));
    let groups: Vec<u32> = report.killed_services().iter().map(KilledService::group).collect();
    assert_eq!(groups, [5, 7, 9, 10]);
    assert_eq!(report.stale_count(), 2);
    assert!(matches!(&report.killed_services()[0], KilledService::LaunchAgent { pid: 5 }));
}

#[test]
fn signals_are_sent_to_processes_and_groups() {
    assert_eq!(signal_process(12, "TERM"), ["-TERM", "12"]);
    assert_eq!(signal_process_group(12, "KILL"), ["-KILL", "--", "-12"]);
}

#[test]
fn failures_count_only_in_a_row() {
    let mut watchdog = HealthWatchdog::new();
    assert!(!watchdog.observe(1000, 1000, false));
    assert!(!watchdog.observe(1000, 1000, false));
    assert!(!watchdog.observe(1000, 1000, true));
    assert!(!watchdog.observe(1000, 1000, false));
    assert!(!watchdog.observe(1000, 1000, false));
    assert!(watchdog.observe(1000, 1000, false));
    assert_eq!(
        watchdog.restart_message(0, false),
        "SimDeck server health watchdog failed (heartbeat_failures=0, http_probe_failures=3, heartbeat_age=0s, http_health_ok=false); restarting server process."
    );
    let mut watchdog = HealthWatchdog::new();
    for _ in 0..11 {
        assert!(!watchdog.observe(1061, 1000, true));
    }
    assert!(watchdog.observe(1061, 1000, true));
    let mut watchdog = HealthWatchdog::new();
    for _ in 0..20 {
        assert!(!watchdog.observe(1060, 1000, true));
        assert!(!watchdog.observe(0, 1000, true));
    }
}

#[test]
fn a_health_answer_is_told_by_its_first_bytes() {
    assert!(health_response_is_ok(&b"HTTP/1.1 200 OK\r\n".to_vec()));
    assert!(!health_response_is_ok(&b"HTTP/1.1 200".to_vec()));
    assert!(!health_response_is_ok(&b"HTTP/1.1 503 Service".to_vec()));
    assert!(!health_response_is_ok(&Vec::new()));
    assert!(health_probe_request().starts_with("GET /api/health HTTP/1.1\r\n"));
    assert!(health_probe_request().ends_with("\r\n\r\n"));
    assert!(!fd_pressure(SERVER_FD_RESTART_THRESHOLD));
    assert!(fd_pressure(SERVER_FD_RESTART_THRESHOLD + 1));
    assert_eq!(
        fd_pressure_message(5000),
        "Open file descriptor count reached 5000; restarting simdeck server process."
    );
}

#[test]
fn a_group_is_forced_only_where_it_stays() {
    let (step, stage) = terminate_process_group(Termination::Running, false, 750, 500);
    assert_eq!(step, TerminationStep::Ask { wait_ms: 750 });
    let (step, _) = terminate_process_group(stage, true, 750, 500);
    assert_eq!(step, TerminationStep::Finished);
    let (step, stage) = terminate_process_group(stage, false, 750, 500);
    assert_eq!(step, TerminationStep::Force { wait_ms: 500 });
    let (step, _) = terminate_process_group(stage, false, 750, 500);
    assert_eq!(step, TerminationStep::Finished);
}

#[test]
fn waiting_ends_in_time() {
    assert_eq!(wait_step(0, 100, false), WaitStep::Pause { wait_ms: 50 });
    assert_eq!(wait_step(99, 100, true), WaitStep::Done);
    assert_eq!(wait_step(100, 100, true), WaitStep::Expired);
}

#[test]
fn a_started_service_is_found_by_its_command_line() {
    let credentials = ProjectServiceCredentials {
        access_token: "token".to_owned(),
        pairing_code: "123456".to_owned(),
    };
    let path = "/Users/me/my state/service.json";
    let start = start_project_service_with_credentials(
        &ServiceLaunchOptions::default(),
        false,
        "/opt/sim deck/simdeck",
        path,
        4310,
        &credentials,
    )
    .unwrap();
    let command = format!("{} {}", start.program, start.arguments.join(" "));
    let output = format!("    1 /sbin/launchd\n 7301 {command}\n   12 sh\n");
    let found = service_run_processes(&output, false);
    assert_eq!(
        found,
        [ServiceRunProcess { pgid: 7301, metadata_path: path.to_owned() }]
    );
}

#[test]
fn a_process_of_windows_lives_until_it_has_an_exit_code() {
    assert!(windows_process_exists(true, Some(259), None));
    assert!(!windows_process_exists(true, Some(0), None));
    assert!(!windows_process_exists(true, None, Some(5)));
    assert!(windows_process_exists(false, None, Some(5)));
    assert!(!windows_process_exists(false, Some(259), Some(87)));
    assert!(!windows_process_exists(false, None, None));
}

#[test]
fn a_service_is_healthy_where_an_address_answers() {
    assert!(!http_health_probe(None));
    assert!(!http_health_probe(Some(&Vec::new())));
    assert!(!http_health_probe(Some(&b"HTTP/1.1 503 Service Unavailable".to_vec())));
    assert!(http_health_probe(Some(&b"HTTP/1.1 200 OK".to_vec())));
    assert!(!service_url_is_healthy(None, |_| true));
    assert!(!service_url_is_healthy(Some(0), |_| true));
    assert!(!service_url_is_healthy(Some(2), |_| false));
    assert!(service_url_is_healthy(Some(2), |number| number == 1));
}

#[test]
fn a_process_of_windows_is_ended_with_what_it_started() {
    let (arguments, wait_ms) = windows_termination(4321, 5000, 2000);
    assert_eq!(arguments, ["/PID", "4321", "/T", "/F"]);
    assert_eq!(wait_ms, 7000);
    assert_eq!(windows_termination(1, u64::MAX, 1).1, u64::MAX);
}
