use simdeck::auth::Entropy;
use simdeck::launch_agent::{
    enable_action_for_installed_arguments, launch_agent_environment_xml, plist_contents,
    program_arguments, service_options_match_arguments, LaunchEnvironment, ServiceEnableAction,
    ServiceOptions, SERVICE_LABEL,
};
use simdeck::modes::{AndroidGpuMode, VideoCodecMode};
use simdeck::net::{localhost, parse_ip, IpAddr};
use simdeck::plist_guard::reads_safely;
use simdeck::service::{
    active, apply_credentials, choose_service_port_for_bind, disable, enable, ensure_launch_agent_supported,
    ensure_not_root, home_dir, install, installed_arguments_from_plist, installed_credentials,
    installed_executable_path, installed_port, keep_texts, kill_installed, launchagent_pid,
    launchctl_domain, launchctl_failure, log_dir, pair, parse_launchctl_pid, parse_uid,
    plist_path_for_label, reset, resolved_client_root, restart, service_target_text,
    unload_calls, CredentialPolicy, EnableOutcome, Host, ServiceCredentials,
    SERVICE_KILL_GRACE_MS, SERVICE_SHUTDOWN_GRACE_MS,
};

fn service_options_for_test() -> ServiceOptions {
    ServiceOptions {
        port: 4310,
        bind: localhost(),
        advertise_host: None,
        client_root: None,
        video_codec: VideoCodecMode::Auto,
        android_gpu: AndroidGpuMode::Host,
        low_latency: false,
        stream_quality_profile: None,
        local_stream_fps: None,
        access_token: None,
        pairing_code: None,
    }
}

fn service_arguments_for_test(options: &ServiceOptions) -> Vec<String> {
    let mut arguments = vec![
        "/tmp/simdeck".to_owned(),
        "service".to_owned(),
        "run".to_owned(),
        "--port".to_owned(),
        options.port.to_string(),
        "--bind".to_owned(),
        options.bind.to_text(),
        "--client-root".to_owned(),
        "/tmp/client".to_owned(),
        "--video-codec".to_owned(),
        options.video_codec.as_env_value().to_owned(),
        "--android-gpu".to_owned(),
        options.android_gpu.as_emulator_value().to_owned(),
        "--server-kind".to_owned(),
        "launch-agent".to_owned(),
    ];
    if options.low_latency {
        arguments.push("--low-latency".to_owned());
    }
    if let Some(stream_quality_profile) = options.stream_quality_profile.as_ref() {
        arguments.push("--stream-quality".to_owned());
        arguments.push(stream_quality_profile.clone());
    }
    if let Some(local_stream_fps) = options.local_stream_fps {
        arguments.push("--local-stream-fps".to_owned());
        arguments.push(local_stream_fps.to_string());
    }
    if let Some(advertise_host) = options.advertise_host.as_ref() {
        arguments.push("--advertise-host".to_owned());
        arguments.push(advertise_host.clone());
    }
    if let Some(access_token) = options.access_token.as_ref() {
        arguments.push("--access-token".to_owned());
        arguments.push(access_token.clone());
    }
    if let Some(pairing_code) = options.pairing_code.as_ref() {
        arguments.push("--pairing-code".to_owned());
        arguments.push(pairing_code.clone());
    }
    arguments
}

fn entropy() -> Entropy {
    Entropy { token: [0xab; 32], code: 42 }
}

fn mac() -> Host {
    Host { launch_agents: true, uid: 501, home: Some("/Users/dj".to_owned()) }
}

fn no_environment() -> LaunchEnvironment {
    LaunchEnvironment { android_home: None, android_sdk_root: None, java_home: None, developer_dir: None }
}

#[test]
fn service_label_matches_bundle_identifier() {
    assert_eq!(SERVICE_LABEL, "org.nativescript.simdeck");
}

#[test]
fn parses_launchctl_pid_line() {
    assert_eq!(parse_launchctl_pid("\tpid = 24969"), Some(24969));
    assert_eq!(
        parse_launchctl_pid("\tlast terminating signal = Terminated: 15"),
        None
    );
}

#[test]
fn service_port_selection_rejects_occupied_port() {
    let occupied: u16 = 49152;
    let error = choose_service_port_for_bind(occupied, |port| port != occupied)
        .expect_err("occupied service port should fail");

    assert!(error.message().contains("already in use"));
}

#[test]
fn preserve_credentials_reuses_installed_values() {
    let mut options = service_options_for_test();
    let installed = ServiceCredentials {
        access_token: Some("installed-token".to_owned()),
        pairing_code: Some("installed-code".to_owned()),
    };

    apply_credentials(&mut options, Some(&installed), CredentialPolicy::Preserve, &entropy());

    assert_eq!(options.access_token.as_deref(), Some("installed-token"));
    assert_eq!(options.pairing_code.as_deref(), Some("installed-code"));
}

#[test]
fn preserve_credentials_generates_missing_values() {
    let mut options = service_options_for_test();

    apply_credentials(&mut options, None, CredentialPolicy::Preserve, &entropy());

    assert!(options
        .access_token
        .as_ref()
        .is_some_and(|token| token.len() == 64));
    assert!(options
        .pairing_code
        .as_ref()
        .is_some_and(|code| code.len() == 6 && code.chars().all(|ch| ch.is_ascii_digit())));
}

#[test]
fn reset_credentials_ignores_installed_values() {
    let mut options = service_options_for_test();
    let installed = ServiceCredentials {
        access_token: Some("installed-token".to_owned()),
        pairing_code: Some("installed-code".to_owned()),
    };

    apply_credentials(&mut options, Some(&installed), CredentialPolicy::Reset, &entropy());

    assert_ne!(options.access_token.as_deref(), Some("installed-token"));
    assert_ne!(options.pairing_code.as_deref(), Some("installed-code"));
    assert!(options
        .access_token
        .as_ref()
        .is_some_and(|token| token.len() == 64));
    assert!(options
        .pairing_code
        .as_ref()
        .is_some_and(|code| code.len() == 6 && code.chars().all(|ch| ch.is_ascii_digit())));
}

#[test]
fn explicit_credentials_win_over_preserve_or_reset() {
    for policy in [CredentialPolicy::Preserve, CredentialPolicy::Reset] {
        let mut options = service_options_for_test();
        options.access_token = Some("explicit-token".to_owned());
        options.pairing_code = Some("654321".to_owned());
        let installed = ServiceCredentials {
            access_token: Some("installed-token".to_owned()),
            pairing_code: Some("installed-code".to_owned()),
        };

        apply_credentials(&mut options, Some(&installed), policy, &entropy());

        assert_eq!(options.access_token.as_deref(), Some("explicit-token"));
        assert_eq!(options.pairing_code.as_deref(), Some("654321"));
    }
}

#[test]
fn service_options_match_installed_arguments() {
    let mut options = service_options_for_test();
    options.advertise_host = Some("192.168.1.10".to_owned());
    options.stream_quality_profile = Some("low".to_owned());
    options.local_stream_fps = Some(30);
    options.access_token = Some("token".to_owned());
    options.pairing_code = Some("123456".to_owned());
    options.low_latency = true;
    let arguments = service_arguments_for_test(&options);

    assert!(service_options_match_arguments(
        &arguments,
        &options,
        "/tmp/client"
    ));
}

#[test]
fn service_options_reject_changed_arguments() {
    let mut options = service_options_for_test();
    options.access_token = Some("token".to_owned());
    options.pairing_code = Some("123456".to_owned());
    let arguments = service_arguments_for_test(&options);

    options.port = 4311;

    assert!(!service_options_match_arguments(
        &arguments,
        &options,
        "/tmp/client"
    ));
}

#[test]
fn enable_action_reuses_matching_installed_service() {
    let mut options = service_options_for_test();
    options.access_token = Some("token".to_owned());
    options.pairing_code = Some("123456".to_owned());
    let arguments = service_arguments_for_test(&options);

    assert_eq!(
        enable_action_for_installed_arguments(
            Some(&arguments),
            &options,
            "/tmp/client"
        ),
        ServiceEnableAction::Reuse
    );
}

#[test]
fn service_shutdown_grace_period_stays_short() {
    assert!(SERVICE_SHUTDOWN_GRACE_MS <= 1000);
    assert!(SERVICE_KILL_GRACE_MS <= 1000);
}

#[test]
fn kill_installed_is_a_noop_without_launch_agents() {
    let host = Host { launch_agents: false, uid: 501, home: Some("/home/dj".to_owned()) };
    assert!(kill_installed(&host, None).unwrap().is_empty());
    assert!(kill_installed(&host, Some(7)).unwrap().is_empty());
}

#[test]
fn each_change_of_an_option_calls_for_a_new_installation() {
    let mut options = service_options_for_test();
    options.access_token = Some("token".to_owned());
    options.pairing_code = Some("123456".to_owned());
    let arguments = program_arguments("/tmp/simdeck", "/tmp/client", &options);
    assert!(service_options_match_arguments(&arguments, &options, "/tmp/client"));
    assert!(!service_options_match_arguments(&arguments, &options, "/tmp/other"));
    assert_eq!(
        enable_action_for_installed_arguments(None, &options, "/tmp/client"),
        ServiceEnableAction::Install
    );
    let mut changed = Vec::new();
    for index in 0..8 {
        let mut other = service_options_for_test();
        other.access_token = Some("token".to_owned());
        other.pairing_code = Some("123456".to_owned());
        match index {
            0 => other.bind = IpAddr::V4(0, 0, 0, 0),
            1 => other.video_codec = VideoCodecMode::Software,
            2 => other.android_gpu = AndroidGpuMode::Auto,
            3 => other.low_latency = true,
            4 => other.stream_quality_profile = Some("full".to_owned()),
            5 => other.local_stream_fps = Some(60),
            6 => other.advertise_host = Some("mac.local".to_owned()),
            _ => other.access_token = Some("other".to_owned()),
        }
        changed.push(other);
    }
    for other in &changed {
        assert!(!service_options_match_arguments(&arguments, other, "/tmp/client"));
    }
}

#[test]
fn the_arguments_of_a_property_list_are_those_it_was_written_with() {
    let mut options = service_options_for_test();
    options.advertise_host = Some("a<b>&\"c\"'d'".to_owned());
    options.stream_quality_profile = Some("full".to_owned());
    options.local_stream_fps = Some(30);
    options.access_token = Some("token".to_owned());
    options.pairing_code = Some("123456".to_owned());
    options.low_latency = true;
    let plist = plist_contents(
        "/opt/sim deck/simdeck",
        "/tmp/client",
        "/tmp/out.log",
        "/tmp/err.log",
        &options,
        &no_environment(),
    );
    let bytes = plist.into_bytes();
    let read = installed_arguments_from_plist(Some(&bytes), "/tmp/x.plist").unwrap().unwrap();
    let written = program_arguments("/opt/sim deck/simdeck", "/tmp/client", &options);
    assert_eq!(read, written);
    assert_eq!(read[0], "/opt/sim deck/simdeck");
    assert!(service_options_match_arguments(&read, &options, "/tmp/client"));
}

#[test]
fn a_missing_property_list_holds_no_arguments() {
    assert!(installed_arguments_from_plist(None, "/tmp/x.plist").unwrap().is_none());
    let empty = b"<?xml version=\"1.0\" encoding=\"UTF-8\"?><plist version=\"1.0\"><dict></dict></plist>".to_vec();
    assert!(installed_arguments_from_plist(Some(&empty), "/tmp/x.plist").unwrap().is_none());
    let broken = b"<plist".to_vec();
    let error = installed_arguments_from_plist(Some(&broken), "/tmp/x.plist").unwrap_err();
    assert!(error.message().contains("/tmp/x.plist"));
}

#[test]
fn items_of_a_property_list_that_are_no_texts_are_passed_over() {
    let plist = b"<?xml version=\"1.0\" encoding=\"UTF-8\"?><plist version=\"1.0\"><dict><key>ProgramArguments</key><array><string>a</string><integer>3</integer><string>--port</string><string>5001</string></array></dict></plist>".to_vec();
    let read = installed_arguments_from_plist(Some(&plist), "/tmp/x.plist").unwrap().unwrap();
    assert_eq!(read, ["a", "--port", "5001"]);
    assert_eq!(installed_port(&mac(), Some(&plist)).unwrap(), Some(5001));
    assert_eq!(installed_executable_path(&read), "a");
    assert_eq!(
        keep_texts(&vec![Some("x".to_owned()), None, Some("y".to_owned())]),
        ["x", "y"]
    );
}

#[test]
fn an_installed_service_is_found_running() {
    let mut options = service_options_for_test();
    options.port = 4400;
    options.advertise_host = Some("mac.local".to_owned());
    options.access_token = Some("token".to_owned());
    options.pairing_code = Some("123456".to_owned());
    let installation =
        install(&mac(), options, "/tmp/client", "/tmp/simdeck", &no_environment(), |_| true)
            .unwrap();
    let plist = installation.plist.clone().into_bytes();
    let found = active(&mac(), Some(77), Some(&plist)).unwrap().unwrap();
    assert_eq!(found.port, 4400);
    assert_eq!(found.executable_path, "/tmp/simdeck");
    assert_eq!(found.advertise_host.as_deref(), Some("mac.local"));
    assert_eq!(found.access_token.as_deref(), Some("token"));
    assert_eq!(found.pairing_code.as_deref(), Some("123456"));
    assert_eq!(found.service, "org.nativescript.simdeck");
    assert!(active(&mac(), None, Some(&plist)).unwrap().is_none());
    let credentials = installed_credentials(&mac(), Some(&plist)).unwrap();
    assert_eq!(credentials.access_token.as_deref(), Some("token"));
    assert_eq!(credentials.pairing_code.as_deref(), Some("123456"));
}

#[test]
fn enabling_twice_reuses_the_service() {
    let mut options = service_options_for_test();
    options.access_token = Some("token".to_owned());
    options.pairing_code = Some("123456".to_owned());
    let installation =
        install(&mac(), options, "/tmp/client", "/tmp/simdeck", &no_environment(), |_| true)
            .unwrap();
    let plist = installation.plist.clone().into_bytes();
    let again =
        enable(&mac(), service_options_for_test(), Some(9), Some(&plist), "/tmp/client", &entropy())
            .unwrap();
    let EnableOutcome::Reuse(result) = again else {
        panic!("expected the running service");
    };
    assert!(result.reused);
    assert_eq!(result.access_token.as_deref(), Some("token"));
    let paired =
        pair(&mac(), service_options_for_test(), None, Some(&plist), "/tmp/client", &entropy())
            .unwrap();
    let EnableOutcome::Install(request) = paired else {
        panic!("expected an installation");
    };
    assert_eq!(request.access_token.as_deref(), Some("token"));
    let restarted =
        restart(&mac(), service_options_for_test(), Some(&plist), &entropy()).unwrap();
    assert_eq!(restarted.pairing_code.as_deref(), Some("123456"));
    let renewed = reset(&mac(), service_options_for_test(), &entropy()).unwrap();
    assert_eq!(renewed.access_token.as_deref(), Some("ab".repeat(32).as_str()));
    assert_eq!(renewed.pairing_code.as_deref(), Some("000042"));
}

#[test]
fn installing_needs_launch_agents_and_a_home_and_no_root() {
    let root = Host { launch_agents: true, uid: 0, home: Some("/var/root".to_owned()) };
    assert!(ensure_not_root(&root).is_err());
    assert!(ensure_not_root(&mac()).is_ok());
    let linux = Host { launch_agents: false, uid: 501, home: Some("/home/dj".to_owned()) };
    assert!(ensure_launch_agent_supported(&linux).is_err());
    assert!(ensure_launch_agent_supported(&mac()).is_ok());
    let homeless = Host { launch_agents: true, uid: 501, home: None };
    assert!(home_dir(&homeless).is_err());
    assert_eq!(home_dir(&mac()).unwrap(), "/Users/dj");
    assert!(disable(&linux).is_err());
}

#[test]
fn the_places_of_an_installation_lie_below_the_home() {
    assert_eq!(
        plist_path_for_label(&mac(), SERVICE_LABEL).unwrap(),
        "/Users/dj/Library/LaunchAgents/org.nativescript.simdeck.plist"
    );
    assert_eq!(log_dir(&mac()).unwrap(), "/Users/dj/Library/Logs");
    assert_eq!(launchctl_domain(&mac()), "gui/501");
    assert_eq!(service_target_text(&mac()), "gui/501/org.nativescript.simdeck");
    assert_eq!(parse_uid(" 501\n"), Some(501));
    assert_eq!(parse_uid("root"), None);
    assert_eq!(launchagent_pid("state = running\n\tpid = 12\n"), Some(12));
    assert_eq!(launchagent_pid("state = waiting\n"), None);
    assert_eq!(resolved_client_root(&service_options_for_test(), "/d"), "/d");
    assert_eq!(kill_installed(&mac(), Some(5)).unwrap(), vec![5]);
}

#[test]
fn unloading_and_failures_name_their_service() {
    let target = "gui/501/org.nativescript.simdeck";
    assert_eq!(
        unload_calls(&mac(), true).unwrap(),
        [
            vec!["bootout", target],
            vec![
                "bootout",
                "gui/501",
                "/Users/dj/Library/LaunchAgents/org.nativescript.simdeck.plist"
            ],
        ]
    );
    assert_eq!(unload_calls(&mac(), false).unwrap(), [vec!["bootout", target]]);
    let arguments = vec!["bootstrap".to_owned(), "gui/501".to_owned()];
    assert_eq!(
        launchctl_failure(&arguments, "denied\n").message(),
        "launchctl bootstrap gui/501 failed: denied"
    );
    assert_eq!(
        launchctl_failure(&arguments, " \n").message(),
        "launchctl bootstrap gui/501 failed: unknown error"
    );
}

#[test]
fn an_environment_is_written_only_as_far_as_it_is_known() {
    let xml = launch_agent_environment_xml(&LaunchEnvironment {
        android_home: Some("/opt/a&b".to_owned()),
        android_sdk_root: None,
        java_home: None,
        developer_dir: None,
    });
    assert!(xml.contains("ANDROID_HOME"));
    assert!(xml.contains("/opt/a&amp;b"));
    assert!(!xml.contains("JAVA_HOME"));
}

fn list_of(content: &str) -> Vec<u8> {
    format!(
        "<?xml version=\"1.0\" encoding=\"UTF-8\"?><plist version=\"1.0\"><dict><key>When</key>{content}<key>ProgramArguments</key><array><string>a</string></array></dict></plist>"
    )
    .into_bytes()
}

#[test]
fn a_date_beyond_the_last_year_is_no_property_list() {
    let read = |date: &str| {
        let list = list_of(&format!("<date>{date}</date>"));
        let safe = reads_safely(&list);
        (safe, installed_arguments_from_plist(Some(&list), "/tmp/x.plist"))
    };
    for date in [
        "9999-12-31T23:59:59-01:00",
        "9999-12-31T23:59:59&#45;01:00",
        "9999-12-31Z<!-- -->23:59:59-01:00",
        "9<!-- -->999-12-31T23:59:59-01:00",
        "&#57;999-12-31T23:59:59-01:00",
        "&#x39;999&unknown;-12-31T23:59:60.5-00:01",
        "9999-12-31T00:30:00-23:30",
    ] {
        let (safe, result) = read(date);
        assert!(!safe, "{date}");
        assert_eq!(result.unwrap_err().message(), "read /tmp/x.plist");
    }
    for date in [
        "9999-12-31T23:59:59Z",
        "9999-12-31t23:59:59z",
        "9999-12-31T23:59:59+01:00",
        "9999-12-30T23:59:59-23:59",
        "9999-12-31T12:00:00-01:00",
        "9999-12-31T00:29:59-23:30",
        "9<!-- -->998-12-31T23:59:59-01:00",
        "&#57;998-12-31T23:59:59-01:00",
        "1500-01-01T00:00:00Z",
        "2024-02-29T12:00:00Z",
        "2024-02-29T12:00:00-01:00",
        "2024-02-29<!-- -->T12:00:00&#90;",
    ] {
        let (safe, result) = read(date);
        assert!(safe, "{date}");
        assert_eq!(result.unwrap().unwrap(), vec!["a"], "{date}");
    }
    let spaced = list_of("<date kind=\"a > b\" >2024-02-29T12:00:00Z</date><!-- <date> was -->");
    assert!(reads_safely(&spaced));
    let read_spaced = installed_arguments_from_plist(Some(&spaced), "/tmp/x.plist");
    assert_eq!(read_spaced.unwrap().unwrap(), vec!["a"]);
    let prefixed = list_of("<x:date >9999-12-31T23:59:59-01:00</x:date>");
    assert!(!reads_safely(&prefixed));
    let (safe, result) = read("2024-02-30T12:00:00Z");
    assert!(safe);
    assert_eq!(result.unwrap_err().message(), "read /tmp/x.plist");
}

#[test]
fn lists_within_lists_end_somewhere() {
    let nested = |depth: usize| {
        list_of(&format!("{}{}", "<array>".repeat(depth), "</array>".repeat(depth)))
    };
    let deep = nested(300_000);
    assert_eq!(
        installed_arguments_from_plist(Some(&deep), "/tmp/x.plist").unwrap_err().message(),
        "read /tmp/x.plist"
    );
    for list in [
        nested(2000),
        list_of(&format!("<array>{}</array>", "<array></array><dict/>".repeat(50_000))),
        list_of(&format!("<array><!-- {} --></array>", "<array>".repeat(5000))),
        list_of(&format!("<string><![CDATA[{}]]>(((</string>", "<array>".repeat(5000))),
        list_of(&format!("<dict a=\"{}\"></dict >", "</array>>".repeat(5000))),
    ] {
        assert!(reads_safely(&list));
        let read = installed_arguments_from_plist(Some(&list), "/tmp/x.plist").unwrap().unwrap();
        assert_eq!(read, vec!["a"]);
    }
    let hidden = list_of(&format!(
        "{}<!-- {} -->{}",
        "<array>".repeat(3000),
        "</array>".repeat(3000),
        "</array>".repeat(3000)
    ));
    assert!(!reads_safely(&hidden));
    let typed = format!(
        "<!DOCTYPE plist [<!ENTITY a \"]>\"><!-- ]> --><?p ]> ?>] ><plist><dict><key>ProgramArguments</key><array><string>{}</string></array></dict></plist>",
        "(".repeat(5000)
    )
    .into_bytes();
    let read = installed_arguments_from_plist(Some(&typed), "/tmp/x.plist").unwrap().unwrap();
    assert_eq!(read[0].len(), 5000);
}

#[test]
fn the_older_form_of_lists_is_read() {
    let flat = format!(
        "// {{ first\n{{ /* ( */ ProgramArguments = (a, \"(\\\"(\", {}); }}",
        "(), ".repeat(5000)
    )
    .into_bytes();
    assert!(reads_safely(&flat));
    let read = installed_arguments_from_plist(Some(&flat), "/tmp/x.plist").unwrap().unwrap();
    assert_eq!(read, vec!["a", "(\"("]);
    for deep in ["(".repeat(300_000), format!("<plist> {}", "( ".repeat(300_000))] {
        let bytes = deep.into_bytes();
        assert!(!reads_safely(&bytes));
        assert!(installed_arguments_from_plist(Some(&bytes), "/tmp/x.plist").is_err());
    }
    let prefixed = format!("<a:b:array> {}{}", "(".repeat(300_000), ")".repeat(300_000));
    assert!(!reads_safely(&prefixed.into_bytes()));
}

/// A binary list of the given objects, each of which starts at its offset.
fn binary_list(objects: &[Vec<u8>]) -> Vec<u8> {
    let mut list = b"bplist00".to_vec();
    let mut offsets = Vec::new();
    for object in objects {
        offsets.push(u16::try_from(list.len()).unwrap());
        list.extend_from_slice(object);
    }
    let table = u64::try_from(list.len()).unwrap();
    for offset in &offsets {
        list.extend_from_slice(&offset.to_be_bytes());
    }
    list.extend_from_slice(&[0, 0, 0, 0, 0, 0, 2, 1]);
    list.extend_from_slice(&u64::try_from(objects.len()).unwrap().to_be_bytes());
    list.extend_from_slice(&0u64.to_be_bytes());
    list.extend_from_slice(&table.to_be_bytes());
    list
}

#[test]
fn a_binary_property_list_is_read() {
    let mut key = vec![0x5f, 0x10, 0x10];
    key.extend_from_slice(b"ProgramArguments");
    let top = vec![0xd1, 1, 2];
    let list = binary_list(&[top.clone(), key.clone(), vec![0xa1, 3], b"Qa".to_vec()]);
    assert!(reads_safely(&list));
    let read = installed_arguments_from_plist(Some(&list), "/tmp/x.plist").unwrap().unwrap();
    assert_eq!(read, vec!["a"]);
    let cycle = binary_list(&[top.clone(), key.clone(), vec![0xa1, 2]]);
    assert!(installed_arguments_from_plist(Some(&cycle), "/tmp/x.plist").is_err());
    let mut shared = vec![top.clone(), key.clone(), vec![0xa4, 3, 4, 3, 4], b"Qa".to_vec()];
    shared.push(vec![0xa2, 5, 5]);
    shared.push(vec![0xa2, 3, 3]);
    let list = binary_list(&shared);
    assert!(reads_safely(&list));
    let read = installed_arguments_from_plist(Some(&list), "/tmp/x.plist").unwrap().unwrap();
    assert_eq!(read, vec!["a", "a"]);
    let mut objects = vec![top, key];
    for next in 3..64u8 {
        objects.push(vec![0xa2, next, next]);
    }
    objects.push(b"Qa".to_vec());
    let doubled = binary_list(&objects);
    assert!(!reads_safely(&doubled));
    assert_eq!(
        installed_arguments_from_plist(Some(&doubled), "/tmp/x.plist").unwrap_err().message(),
        "read /tmp/x.plist"
    );
}

#[test]
fn a_property_list_gives_its_arguments_back() {
    let mut options = service_options_for_test();
    options.bind = parse_ip("::1", Some("::1")).unwrap();
    options.advertise_host = Some("<a> & \"b\" 'c'".to_owned());
    options.access_token = Some("</string></array>&amp;".to_owned());
    options.pairing_code = Some("9999-12-31T23:59:59-01:00 <date>".to_owned());
    options.local_stream_fps = Some(60);
    options.low_latency = true;
    let executable = "/opt/R&D <x>/simdeck";
    let plist = plist_contents(
        executable,
        "/tmp/client's \"root\"",
        "/out.log",
        "/err.log",
        &options,
        &LaunchEnvironment {
            android_home: Some("<array><array>".to_owned()),
            android_sdk_root: None,
            java_home: None,
            developer_dir: None,
        },
    );
    let read =
        installed_arguments_from_plist(Some(&plist.into_bytes()), "/p").unwrap().unwrap();
    assert_eq!(read[..3], [executable, "service", "run"]);
    assert!(service_options_match_arguments(&read, &options, "/tmp/client's \"root\""));
    assert!(!service_options_match_arguments(&read, &options, "/tmp/client"));
    options.bind = localhost();
    assert!(!service_options_match_arguments(&read, &options, "/tmp/client's \"root\""));
    options.bind = IpAddr::V6("::1".to_owned());
    options.local_stream_fps = None;
    assert!(!service_options_match_arguments(&read, &options, "/tmp/client's \"root\""));
}
