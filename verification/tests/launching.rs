use simdeck::launch::{
    is_known_command, no_command_action_from_args_slice, removed_service_process_name,
    DefaultServiceLaunchOptions, NoCommandAction, SERVICE_PORT,
};
use simdeck::modes::{AndroidGpuMode, StreamQualityProfileArg, VideoCodecMode};

fn launch(args: &[&str]) -> Option<DefaultServiceLaunchOptions> {
    launch_with(args, &[])
}

fn launch_with(args: &[&str], ipv6: &[Option<&str>]) -> Option<DefaultServiceLaunchOptions> {
    let args: Vec<String> = args.iter().map(|arg| arg.to_string()).collect();
    let ipv6: Vec<Option<String>> = ipv6.iter().map(|form| form.map(str::to_owned)).collect();
    let Some(NoCommandAction::Service(options)) = no_command_action_from_args_slice(&args, &ipv6)
    else {
        return None;
    };
    Some(options)
}

#[test]
fn plain_simdeck_uses_normal_singleton_unless_autostart_is_explicit() {
    let args: Vec<String> = Vec::new();
    let Some(NoCommandAction::Service(default_options)) =
        no_command_action_from_args_slice(&args, &Vec::new())
    else {
        panic!("expected default service action");
    };
    assert!(!default_options.autostart);
    assert!(!default_options.port_explicit);

    let args = vec!["-p".to_owned(), "4311".to_owned()];
    let Some(NoCommandAction::Service(port_options)) =
        no_command_action_from_args_slice(&args, &Vec::new())
    else {
        panic!("expected service action with custom port");
    };
    assert!(!port_options.autostart);
    assert!(port_options.port_explicit);
    assert_eq!(port_options.port, 4311);

    let args = vec!["--autostart".to_owned()];
    let Some(NoCommandAction::Service(autostart_options)) =
        no_command_action_from_args_slice(&args, &Vec::new())
    else {
        panic!("expected autostart service action");
    };
    assert!(autostart_options.autostart);
}

#[test]
fn default_options_are_those_of_a_local_service() {
    let options = launch(&[]).unwrap();
    assert_eq!(options.selector, None);
    assert_eq!(options.port, 4310);
    assert_eq!(options.port, SERVICE_PORT);
    assert_eq!(options.bind.to_text(), "127.0.0.1");
    assert_eq!(options.advertise_host, None);
    assert_eq!(options.client_root, None);
    assert_eq!(options.video_codec, VideoCodecMode::Auto);
    assert_eq!(options.android_gpu, AndroidGpuMode::Host);
    assert!(!options.low_latency);
    assert_eq!(options.stream_quality, None);
    assert_eq!(options.local_stream_fps, None);
    assert!(!options.open);
}

#[test]
fn every_flag_is_read_with_its_value_behind_it() {
    let options = launch(&[
        "--port",
        "5000",
        "--bind",
        "0.0.0.0",
        "--advertise-host",
        "studio.local",
        "--client-root",
        "/tmp/client",
        "--video-codec",
        "h264-software",
        "--android-gpu",
        "swiftshader_indirect",
        "--stream-quality",
        "ci-software",
        "--local-stream-fps",
        "240",
        "-a",
        "--open",
        "--low-latency",
        "iPhone 17",
    ])
    .unwrap();
    assert_eq!(options.port, 5000);
    assert!(options.port_explicit);
    assert_eq!(options.bind.to_text(), "0.0.0.0");
    assert_eq!(options.advertise_host.as_deref(), Some("studio.local"));
    assert_eq!(options.client_root.as_deref(), Some("/tmp/client"));
    assert_eq!(options.video_codec, VideoCodecMode::Software);
    assert_eq!(options.android_gpu, AndroidGpuMode::SwiftshaderIndirect);
    assert_eq!(options.stream_quality, Some(StreamQualityProfileArg::CiSoftware));
    assert_eq!(options.local_stream_fps, Some(240));
    assert!(options.autostart && options.open && options.low_latency);
    assert_eq!(options.selector.as_deref(), Some("iPhone 17"));
}

#[test]
fn every_flag_is_read_with_its_value_inside_it() {
    let options = launch(&[
        "--port=5000",
        "--bind=192.168.1.10",
        "--advertise-host=",
        "--client-root=/tmp/client",
        "--video-codec=hardware",
        "--android-gpu=swangle",
        "--stream-quality=tiny",
        "--local-stream-fps=15",
    ])
    .unwrap();
    assert_eq!(options.port, 5000);
    assert_eq!(options.bind.to_text(), "192.168.1.10");
    assert_eq!(options.advertise_host.as_deref(), Some(""));
    assert_eq!(options.client_root.as_deref(), Some("/tmp/client"));
    assert_eq!(options.video_codec, VideoCodecMode::Hardware);
    assert_eq!(options.android_gpu, AndroidGpuMode::Swangle);
    assert_eq!(options.stream_quality, Some(StreamQualityProfileArg::Tiny));
    assert_eq!(options.local_stream_fps, Some(15));
}

#[test]
fn an_ipv6_address_comes_in_its_canonical_form() {
    let options = launch_with(&["--bind", "::1"], &[None, Some("::1")]).unwrap();
    assert_eq!(options.bind.to_text(), "::1");
    assert!(options.bind.is_loopback());
    let options = launch_with(&["--bind=FE80::1"], &[Some("fe80::1")]).unwrap();
    assert_eq!(options.bind.to_text(), "fe80::1");
    assert!(launch_with(&["--bind", "::1"], &[]).is_none());
}

#[test]
fn wrong_values_are_left_to_the_commands() {
    assert!(launch(&["-p"]).is_none());
    assert!(launch(&["--port", "65536"]).is_none());
    assert!(launch(&["--port=x"]).is_none());
    assert!(launch(&["--bind", "256.0.0.1"]).is_none());
    assert!(launch(&["--video-codec", "h264"]).is_none());
    assert!(launch(&["--android-gpu", "metal"]).is_none());
    assert!(launch(&["--stream-quality", "ultra"]).is_none());
    assert!(launch(&["--local-stream-fps", "14"]).is_none());
    assert!(launch(&["--local-stream-fps", "241"]).is_none());
    assert!(launch(&["--frobnicate"]).is_none());
    assert!(launch(&["iPhone 17", "iPhone 16"]).is_none());
}

#[test]
fn a_missing_last_value_of_an_optional_text_is_none() {
    let options = launch(&["--advertise-host"]).unwrap();
    assert_eq!(options.advertise_host, None);
    let options = launch(&["--client-root"]).unwrap();
    assert_eq!(options.client_root, None);
}

#[test]
fn commands_are_not_simulators() {
    assert!(launch(&["boot"]).is_none());
    assert!(launch(&["ui"]).is_none());
    assert!(launch(&["serve"]).is_none());
    assert!(launch(&["daemon"]).is_none());
    assert_eq!(removed_service_process_name(), "daemon");
    assert!(is_known_command("daemon"));
    assert!(is_known_command("help"));
    assert!(!is_known_command("serve"));
    assert!(!is_known_command("Boot"));
    let options = launch(&["--open", "boot"]).unwrap();
    assert_eq!(options.selector.as_deref(), Some("boot"));
}

#[test]
fn the_only_argument_selects_a_simulator() {
    let options = launch(&["00000000-0000-0000-0000-000000000001"]).unwrap();
    assert_eq!(
        options.selector.as_deref(),
        Some("00000000-0000-0000-0000-000000000001")
    );
    assert_eq!(options.port, SERVICE_PORT);
    assert!(!options.port_explicit && !options.autostart && !options.open);
}

#[test]
fn limits_hold_of_whatever_is_accepted() {
    for fps in ["15", "16", "60", "240", "241", "+30", "030"] {
        if let Some(options) = launch(&["--local-stream-fps", fps]) {
            let fps = options.local_stream_fps.unwrap();
            assert!((15..=240).contains(&fps));
            assert_eq!(options.port, SERVICE_PORT);
        }
    }
}

#[test]
fn every_command_is_known() {
    for command in [
        "kill", "killall", "studio", "provider", "camera", "record", "snapshot", "press",
        "wait-for", "wait", "assert", "link", "pair", "service", "list", "tap", "batch", "stats",
    ] {
        assert!(is_known_command(command), "{command}");
        let args = vec![command.to_owned()];
        assert!(no_command_action_from_args_slice(&args, &vec![None]).is_none(), "{command}");
        let more = vec![command.to_owned(), "-d".to_owned()];
        assert!(no_command_action_from_args_slice(&more, &vec![None, None]).is_none(), "{command}");
    }
    assert!(!is_known_command("iPhone 16"));
}
