use simdeck::cli::{ElementSelector, TapCommandTarget};
use simdeck::commands::{
    batch_may_run_natively, check_coordinates, check_two_finger_gesture,
    command_service_url_for_udid, describe_ui_snapshot, device_path, falls_back_to_native,
    fetch_service_accessibility_point, fetch_service_accessibility_tree, gesture_route,
    keeps_interactive_only, key_delays, key_route, requested_service_url, screenshot_path,
    swipe_route, tap_needs_service, tap_route, touch_events, touch_route, AccessibilitySource,
    DescribeStep, DeviceService, KeyRoute, PointCommand, SwipeRoute, TapRoute, TouchEvent,
    TouchRoute, TwoFingerGesture,
};
use simdeck::devices::StudioSimulatorSelection;
use simdeck::input::{
    camera_source_from_args, check_point, default_recording_path, default_screenshot_path,
    hid_for_character, parse_point, parse_positive_seconds_arg, read_text_input, run_multitouch_frames, swipe_steps, type_text, CameraSource, FrameStep,
    NumberReading, TextSource, TouchPhase,
};
use simdeck::metadata::ServiceMetadata;
use simdeck::modes::{AndroidGpuMode, StreamQualityProfileArg, Variable, VideoCodecMode};
use simdeck::net::localhost;
use simdeck::studio::{
    bridge_environment, bridge_environment_of, expose_to_studio, exposing_line, missing_script,
    push_optional_arg, run_provider_command, script_candidates, stream_line_of,
    simulator_to_boot, studio_selection, studio_service_restart_args, studio_step,
    studio_stream_line, studio_video_codec, ProviderCommand, StudioAction, StudioEvent,
    StudioExposeOptions,
};

fn expose(
    video_codec: VideoCodecMode,
    low_latency: bool,
    stream_quality: Option<StreamQualityProfileArg>,
) -> StudioExposeOptions {
    StudioExposeOptions {
        simulator: None,
        studio_url: "https://simdeck.djdev.me".to_owned(),
        port: 4310,
        bind: localhost(),
        video_codec,
        low_latency,
        stream_quality,
        local_stream_fps: None,
    }
}

fn metadata() -> ServiceMetadata {
    ServiceMetadata {
        project_root: "/tmp/project".to_owned(),
        pid: 42,
        http_url: "http://127.0.0.1:4310".to_owned(),
        port: 4310,
        bind: localhost(),
        advertise_host: None,
        client_root: None,
        access_token: "token".to_owned(),
        pairing_code: None,
        binary_path: "/tmp/simdeck-bin".to_owned(),
        started_at: 1,
        log_path: Some("/tmp/service.log".to_owned()),
        video_codec: Some("auto".to_owned()),
        android_gpu: Some("host".to_owned()),
        low_latency: false,
        realtime_stream: true,
        stream_quality_profile: None,
        local_stream_fps: None,
    }
}

fn value<'a>(variables: &'a [Variable], name: &str) -> &'a str {
    variables.iter().find(|variable| variable.name == name).unwrap().value.as_str()
}

fn selector() -> ElementSelector {
    ElementSelector { id: None, label: None, value: None, element_type: None, index: None }
}

fn at_point(udid: Option<&str>) -> TapCommandTarget {
    TapCommandTarget {
        udid: udid.map(str::to_owned),
        point: Some(("1".to_owned(), "2".to_owned())),
        selector: selector(),
    }
}

#[test]
fn studio_service_restart_args_preserve_remote_stream_defaults() {
    let args = studio_service_restart_args(&StudioExposeOptions {
        simulator: None,
        studio_url: "https://simdeck.djdev.me".to_owned(),
        port: 4310,
        bind: localhost(),
        video_codec: VideoCodecMode::Software,
        low_latency: false,
        stream_quality: None,
        local_stream_fps: None,
    });
    assert_eq!(
        args,
        [
            "service",
            "restart",
            "--port",
            "4310",
            "--bind",
            "127.0.0.1",
            "--video-codec",
            "software",
            "--stream-quality",
            "smooth",
        ]
    );
}

#[test]
fn studio_service_restart_args_preserve_explicit_quality() {
    let args = studio_service_restart_args(&StudioExposeOptions {
        simulator: None,
        studio_url: "https://simdeck.djdev.me".to_owned(),
        port: 4310,
        bind: localhost(),
        video_codec: VideoCodecMode::Hardware,
        low_latency: false,
        stream_quality: Some(StreamQualityProfileArg::Balanced),
        local_stream_fps: None,
    });
    assert!(args.ends_with(&[
        "--video-codec".to_owned(),
        "hardware".to_owned(),
        "--stream-quality".to_owned(),
        "balanced".to_owned(),
    ]));
}

#[test]
fn a_restart_with_low_latency_names_no_quality() {
    let mut options =
        expose(VideoCodecMode::Software, true, Some(StreamQualityProfileArg::Balanced));
    options.local_stream_fps = Some(30);
    let args = studio_service_restart_args(&options);
    assert_eq!(args[8..], ["--low-latency", "--local-stream-fps", "30"]);
    assert_eq!(studio_video_codec(true, VideoCodecMode::Hardware), VideoCodecMode::Software);
    assert_eq!(studio_video_codec(false, VideoCodecMode::Hardware), VideoCodecMode::Hardware);
    let launch = expose_to_studio(&options);
    assert!(launch.realtime_stream && !launch.allow_port_probe);
    assert_eq!(launch.android_gpu, AndroidGpuMode::Host);
    assert_eq!(launch.stream_quality_profile.as_deref(), Some("balanced"));
}

#[test]
fn a_stream_is_told_as_the_service_reports_it() {
    let options = expose(VideoCodecMode::Software, false, None);
    assert_eq!(studio_stream_line(None, &options), "Stream: software, realtime, quality=smooth");
    let report = "{\"videoCodec\":\"hardware\",\"realtimeStream\":false,\"streamQuality\":{\"profile\":\"low\"}}";
    assert_eq!(studio_stream_line(Some(report), &options), "Stream: hardware, quality=low");
    assert_eq!(
        studio_stream_line(Some("{\"streamQuality\":{}}"), &options),
        "Stream: software, realtime, quality=smooth"
    );
    assert_eq!(stream_line_of("auto", true, None), "Stream: auto, realtime");
    assert_eq!(exposing_line(None), "Exposing the selected simulator through SimDeck Studio...");
}

#[test]
fn a_bridge_is_told_of_its_service() {
    let mut options = expose(VideoCodecMode::Software, true, None);
    options.studio_url = "https://studio.example//".to_owned();
    let simulator = StudioSimulatorSelection {
        udid: "A-1".to_owned(),
        name: "iPhone 17".to_owned(),
        runtime_name: None,
        is_booted: true,
    };
    let variables =
        bridge_environment(&options, &metadata(), "/bin/simdeck", 7, Some(&simulator)).unwrap();
    assert_eq!(variables.len(), 12);
    assert_eq!(value(&variables, "SIMDECK_CLOUD_URL"), "https://studio.example");
    assert_eq!(value(&variables, "SIMDECK_LOCAL_URL"), "http://127.0.0.1:4310");
    assert_eq!(value(&variables, "SIMDECK_LOCAL_TOKEN"), "token");
    assert_eq!(value(&variables, "SIMDECK_LOCAL_SERVICE_PID"), "42");
    assert_eq!(value(&variables, "SIMDECK_LOCAL_SERVICE_COMMAND"), "/bin/simdeck");
    assert_eq!(
        value(&variables, "SIMDECK_LOCAL_SERVICE_RESTART_ARGS_JSON"),
        "[\"service\",\"restart\",\"--port\",\"4310\",\"--bind\",\"127.0.0.1\",\"--video-codec\",\"software\",\"--low-latency\"]"
    );
    assert_eq!(
        value(&variables, "SIMDECK_LOCAL_SERVICE_STATUS_ARGS_JSON"),
        "[\"service\",\"status\"]"
    );
    assert_eq!(value(&variables, "SIMDECK_PROVIDER_PARENT_PID"), "7");
    assert_eq!(value(&variables, "SIMDECK_LOCAL_SERVICE_LOG"), "/tmp/service.log");
    assert_eq!(value(&variables, "SIMDECK_STUDIO_SIMULATOR_NAME"), "iPhone 17");
    assert_eq!(value(&variables, "SIMDECK_STUDIO_SIMULATOR_UDID"), "A-1");
    assert_eq!(value(&variables, "SIMDECK_STUDIO_RUNTIME_NAME"), "");
    assert_eq!(exposing_line(Some(&simulator)), "Exposing iPhone 17 through SimDeck Studio...");
    let variables =
        bridge_environment_of(&options, &metadata(), "/bin/simdeck", "[1]", "[2]", 7, None);
    assert_eq!(value(&variables, "SIMDECK_LOCAL_SERVICE_RESTART_ARGS_JSON"), "[1]");
    assert_eq!(value(&variables, "SIMDECK_STUDIO_SIMULATOR_NAME"), "Local Mac simulator");
}

#[test]
fn a_provider_is_given_what_is_not_blank() {
    let args = run_provider_command(&ProviderCommand::Connect {
        studio_url: "u".to_owned(),
        host_id: "".to_owned(),
        host_token: "t".to_owned(),
        config: None,
        work_root: Some("/w".to_owned()),
    });
    assert_eq!(
        args,
        [
            "connect", "--studio-url", "u", "--host-id", "", "--host-token", "t", "--work-root",
            "/w",
        ]
    );
    let args = run_provider_command(&ProviderCommand::Run {
        config: Some("/c".to_owned()),
        studio_url: Some(" ".to_owned()),
        host_id: Some("h".to_owned()),
        host_token: None,
        work_root: None,
        max_capacity: 3,
        simulator_template: "iPhone".to_owned(),
        port: 4310,
        video_codec: VideoCodecMode::Software,
        stream_quality: StreamQualityProfileArg::Smooth,
    });
    assert_eq!(
        args,
        [
            "run",
            "--config",
            "/c",
            "--host-id",
            "h",
            "--max-capacity",
            "3",
            "--simulator-template",
            "iPhone",
            "--local-url",
            "http://127.0.0.1:4310",
            "--video-codec",
            "software",
            "--stream-quality",
            "smooth",
        ]
    );
    assert_eq!(run_provider_command(&ProviderCommand::Status { config: None }), ["status"]);
    let mut list = Vec::new();
    push_optional_arg(&mut list, "--a", &Some(" x ".to_owned()));
    push_optional_arg(&mut list, "--b", &Some("\t".to_owned()));
    assert_eq!(list, ["--a", " x "]);
}

#[test]
fn scripts_are_looked_for_in_turn() {
    assert_eq!(
        script_candidates("scripts/x.mjs", Some("/p"), None, Some("/d/"), false),
        ["/p/scripts/x.mjs", "/d/scripts/x.mjs"]
    );
    assert_eq!(missing_script("scripts/x.mjs").message(), "Unable to find scripts/x.mjs.");
}

#[test]
fn commands_for_android_go_through_the_service() {
    assert!(matches!(
        command_service_url_for_udid("android:Pixel", Some("http://x")),
        DeviceService::Command
    ));
    assert!(matches!(
        command_service_url_for_udid("A-1", Some("http://x")),
        DeviceService::Url(url) if url == "http://x"
    ));
    assert!(matches!(command_service_url_for_udid("A-1", None), DeviceService::Native));
    assert_eq!(requested_service_url(Some("http://a"), Some("http://b")).as_deref(), Some("http://a"));
    assert_eq!(requested_service_url(None, Some("http://b")).as_deref(), Some("http://b"));
    assert_eq!(requested_service_url(Some(" "), Some("http://b")), None);
    assert_eq!(requested_service_url(None, None), None);
    assert!(batch_may_run_natively("A-1"));
    assert!(!batch_may_run_natively("android:Pixel"));
}

#[test]
fn android_refuses_what_it_cannot_do() {
    assert_eq!(
        check_coordinates(PointCommand::Touch, "android:P", false).unwrap_err().message(),
        "Android touch coordinates require --normalized."
    );
    assert_eq!(
        check_coordinates(PointCommand::Swipe, "android:P", false).unwrap_err().message(),
        "Android swipe coordinates require --normalized."
    );
    assert!(check_coordinates(PointCommand::Swipe, "android:P", true).is_ok());
    assert!(check_coordinates(PointCommand::Swipe, "A-1", false).is_ok());
    assert_eq!(
        check_two_finger_gesture(TwoFingerGesture::Pinch, "android:P").unwrap_err().message(),
        "Android pinch gestures are not supported by the ADB input bridge."
    );
    assert_eq!(
        check_two_finger_gesture(TwoFingerGesture::Rotate, "android:P").unwrap_err().message(),
        "Android rotate gestures are not supported by the ADB input bridge."
    );
    assert!(check_two_finger_gesture(TwoFingerGesture::Pinch, "A-1").is_ok());
    assert_eq!(
        gesture_route("android:P", false, true).unwrap_err().message(),
        "Android command requires SimDeck service."
    );
    assert_eq!(gesture_route("android:P", true, false).unwrap(), SwipeRoute::ServiceAction);
    assert_eq!(gesture_route("A-1", true, true).unwrap(), SwipeRoute::ServiceTouches);
    assert_eq!(gesture_route("A-1", true, false).unwrap(), SwipeRoute::Native);
    assert_eq!(swipe_route("android:P", true, true), SwipeRoute::ServiceAction);
    assert_eq!(swipe_route("A-1", true, true), SwipeRoute::ServiceTouches);
    assert_eq!(swipe_route("A-1", false, true), SwipeRoute::Native);
}

#[test]
fn touches_pause_between_down_and_up() {
    let began = |delay_ms| TouchEvent { phase: TouchPhase::Began, delay_ms };
    let ended = TouchEvent { phase: TouchPhase::Ended, delay_ms: 0 };
    assert_eq!(touch_events(true, true, 50), [began(50), ended]);
    assert_eq!(touch_events(true, false, 50), [began(0)]);
    assert_eq!(touch_events(false, true, 50), [ended]);
    assert!(touch_events(false, false, 50).is_empty());
    assert!(matches!(
        touch_route(true, true, true, true, true, 5),
        TouchRoute::ServiceSequence(events) if events.len() == 2
    ));
    assert!(matches!(touch_route(true, true, false, false, false, 5), TouchRoute::ServicePhase));
    assert!(matches!(touch_route(true, false, true, true, true, 5), TouchRoute::RemoteSelect));
    assert!(matches!(touch_route(false, true, true, true, false, 5), TouchRoute::Nothing));
    assert!(matches!(touch_route(false, true, true, false, false, 5), TouchRoute::RemotePhase));
    assert!(matches!(
        touch_route(false, true, false, true, false, 5),
        TouchRoute::NativeSequence(events) if events.len() == 1
    ));
    assert!(matches!(touch_route(false, false, false, false, false, 5), TouchRoute::NativePhase));
}

#[test]
fn taps_on_elements_are_looked_for() {
    let expected = ElementSelector { id: Some("back".to_owned()), ..selector() };
    assert!(!tap_needs_service(&at_point(Some("A-1")), &selector()));
    assert!(tap_needs_service(&at_point(None), &selector()));
    assert!(tap_needs_service(&at_point(Some("A-1")), &expected));
    assert_eq!(tap_route(false, true, &at_point(None), &selector()), TapRoute::Native);
    assert_eq!(tap_route(true, true, &at_point(None), &selector()), TapRoute::ServicePoint);
    assert_eq!(tap_route(true, false, &at_point(None), &selector()), TapRoute::ServiceElement);
    assert_eq!(tap_route(true, true, &at_point(None), &expected), TapRoute::ServiceElement);
    let mut by_label = at_point(None);
    by_label.selector.label = Some("OK".to_owned());
    assert_eq!(tap_route(true, true, &by_label, &selector()), TapRoute::ServiceElement);
    let mut by_index = at_point(None);
    by_index.selector.index = Some(2);
    assert_eq!(tap_route(true, true, &by_index, &selector()), TapRoute::ServicePoint);
}

#[test]
fn keys_are_held_only_natively() {
    assert_eq!(key_route(true, 0, 2), KeyRoute::Service);
    assert_eq!(key_route(true, 10, 0), KeyRoute::Hold);
    assert_eq!(key_route(true, 10, 1), KeyRoute::Native);
    assert_eq!(key_route(false, 0, 0), KeyRoute::Native);
    assert_eq!(key_delays(3, 7), [7, 7, 0]);
    assert_eq!(key_delays(1, 7), [0]);
    assert!(key_delays(0, 7).is_empty());
}

#[test]
fn a_screen_is_described_by_the_service_first() {
    let step = |direct, point, source| describe_ui_snapshot(direct, point, source, "react-native");
    assert!(matches!(step(false, false, AccessibilitySource::InApp), DescribeStep::ServiceTree));
    assert!(matches!(step(false, true, AccessibilitySource::AndroidUiautomator), DescribeStep::ServicePoint));
    assert!(matches!(step(true, false, AccessibilitySource::Auto), DescribeStep::Native));
    assert!(matches!(step(true, true, AccessibilitySource::NativeAX), DescribeStep::Native));
    let DescribeStep::Refused(error) = step(false, true, AccessibilitySource::InApp) else {
        panic!("expected a refusal");
    };
    assert_eq!(
        error.message(),
        "The `react-native` hierarchy source requires a running SimDeck service. Start it with `simdeck service start --port 4311`, or use --source native-ax."
    );
    assert!(matches!(step(true, false, AccessibilitySource::AndroidUiautomator), DescribeStep::Refused(_)));
    assert!(falls_back_to_native(AccessibilitySource::Auto));
    assert!(!falls_back_to_native(AccessibilitySource::NativeAX));
    assert!(keeps_interactive_only(true, false));
    assert!(!keeps_interactive_only(true, true));
}

#[test]
fn paths_of_a_service_are_exact() {
    assert_eq!(device_path("A-1", "processes"), "/api/simulators/A-1/processes");
    assert_eq!(
        fetch_service_accessibility_tree("A-1", "auto", Some(200), true, true),
        "/api/simulators/A-1/accessibility-tree?source=auto&maxDepth=80&includeHidden=true&interactiveOnly=true"
    );
    assert_eq!(
        fetch_service_accessibility_tree("A-1", "native-ax", Some(4), false, false),
        "/api/simulators/A-1/accessibility-tree?source=native-ax&maxDepth=4"
    );
    assert_eq!(
        fetch_service_accessibility_point("A-1", "1.5", "2"),
        "/api/simulators/A-1/accessibility-point?x=1.5&y=2"
    );
    assert_eq!(screenshot_path("A-1", true), "/api/simulators/A-1/screenshot.png?bezel=true");
    assert_eq!(screenshot_path("A-1", false), "/api/simulators/A-1/screenshot.png");
}

#[test]
fn text_is_typed_key_by_key() {
    let (keys, error) = type_text("aZ1!\n");
    assert_eq!(keys, [(4, 0), (29, 1), (30, 0), (30, 1), (40, 0)]);
    assert!(error.is_none());
    let (keys, error) = type_text("aéb");
    assert_eq!(keys, [(4, 0)]);
    assert_eq!(error.unwrap().message(), "Unsupported character for HID typing: 'é'");
    let (_, error) = type_text("\u{1}");
    assert_eq!(error.unwrap().message(), "Unsupported character for HID typing: '\\u{1}'");
    for byte in 32u8..127 {
        assert!(hid_for_character(byte as char).is_some());
    }
    assert_ne!(hid_for_character('a'), hid_for_character('A'));
}

#[test]
fn a_gesture_takes_no_longer_than_asked() {
    let steps = run_multitouch_frames(4, 100).unwrap();
    assert_eq!(
        steps,
        [
            FrameStep { delay_ms: 0, frame: 0, phase: TouchPhase::Began },
            FrameStep { delay_ms: 33, frame: 1, phase: TouchPhase::Moved },
            FrameStep { delay_ms: 33, frame: 2, phase: TouchPhase::Moved },
            FrameStep { delay_ms: 33, frame: 3, phase: TouchPhase::Ended },
        ]
    );
    assert!(steps.iter().map(|step| step.delay_ms).sum::<u64>() <= 100);
    let single = run_multitouch_frames(1, 100).unwrap();
    assert_eq!((single.len(), single[1].delay_ms, single[1].frame), (2, 100, 0));
    assert_eq!(
        run_multitouch_frames(0, 100).unwrap_err().message(),
        "Multi-touch gesture requires at least one frame."
    );
    assert_eq!(swipe_steps(0, 100), (1, 100));
    assert_eq!(swipe_steps(4, 90), (4, 22));
}

#[test]
fn a_text_comes_from_one_source() {
    assert!(matches!(
        read_text_input(Some("x".to_owned()), false, None),
        Ok(TextSource::Text(text)) if text == "x"
    ));
    assert!(matches!(read_text_input(None, true, None), Ok(TextSource::Stdin)));
    assert!(matches!(
        read_text_input(None, false, Some("/f".to_owned())),
        Ok(TextSource::File(path)) if path == "/f"
    ));
    for (text, stdin, file) in [(None, false, None), (Some("x".to_owned()), true, None)] {
        let error = read_text_input(text, stdin, file).unwrap_err();
        assert_eq!(
            error.message(),
            "Specify exactly one input source: text argument, --stdin, or --file."
        );
    }
}

#[test]
fn a_camera_has_one_source() {
    assert!(matches!(camera_source_from_args(None, None, false), Ok(CameraSource::Placeholder)));
    assert!(matches!(
        camera_source_from_args(Some(" /f ".to_owned()), None, false),
        Ok(CameraSource::File(path)) if path == "/f"
    ));
    assert!(matches!(
        camera_source_from_args(None, Some(Some(" ".to_owned())), false),
        Ok(CameraSource::Webcam(None))
    ));
    assert!(matches!(
        camera_source_from_args(None, Some(Some(" cam ".to_owned())), false),
        Ok(CameraSource::Webcam(Some(name))) if name == "cam"
    ));
    assert_eq!(
        camera_source_from_args(Some("/f".to_owned()), None, true).unwrap_err().message(),
        "Choose only one camera source: --file, --webcam, or --placeholder."
    );
    assert_eq!(default_screenshot_path("A-1", 9), "Simulator Screenshot - A-1 - 9.png");
    assert_eq!(default_recording_path("A-1", 9), "Simulator Recording - A-1 - 9.mp4");
}

#[test]
fn a_point_is_two_numbers() {
    assert_eq!(parse_point(" 1.5 , 2 ").unwrap(), ("1.5".to_owned(), "2".to_owned()));
    assert_eq!(parse_point("1,2,3").unwrap(), ("1".to_owned(), "2,3".to_owned()));
    assert_eq!(parse_point("12").unwrap_err().message(), "point must be in the form x,y");
    let fault = |x, y| check_point(x, y).err().map(|error| error.message().to_owned());
    let bad = NumberReading::NotANumber;
    let wide = NumberReading::OutOfRange;
    let good = NumberReading::Usable;
    assert_eq!(fault(good, good), None);
    assert_eq!(fault(bad, bad).as_deref(), Some("point x must be a number"));
    assert_eq!(fault(wide, bad).as_deref(), Some("point y must be a number"));
    assert_eq!(
        fault(good, wide).as_deref(),
        Some("point coordinates must be finite non-negative numbers")
    );
    assert!(parse_positive_seconds_arg(good).is_ok());
    assert_eq!(
        parse_positive_seconds_arg(bad).unwrap_err().message(),
        "seconds must be a number"
    );
    assert_eq!(
        parse_positive_seconds_arg(wide).unwrap_err().message(),
        "seconds must be finite and greater than zero"
    );
}

fn simulator(udid: &str, name: &str, is_booted: bool) -> StudioSimulatorSelection {
    StudioSimulatorSelection {
        udid: udid.to_owned(),
        name: name.to_owned(),
        runtime_name: None,
        is_booted,
    }
}

#[test]
fn the_studio_shows_the_selected_simulator() {
    let all = vec![
        simulator("A", "iPhone 16", false),
        simulator("B", "iPad Air", true),
        simulator("C", "iPhone 15", true),
    ];
    assert_eq!(studio_selection(Some(&all), Some("iphone 16")).unwrap().udid, "A");
    assert_eq!(studio_selection(Some(&all), Some("C")).unwrap().udid, "C");
    assert!(studio_selection(Some(&all), Some("Watch")).is_none());
    assert_eq!(studio_selection(Some(&all), None).unwrap().udid, "B");
    assert_eq!(studio_selection(Some(&all[..1].to_vec()), None).unwrap().udid, "A");
    assert!(studio_selection(Some(&Vec::new()), None).is_none());
    assert!(studio_selection(None, Some("A")).is_none());
    assert!(studio_selection(None, None).is_none());
    assert_eq!(simulator_to_boot(Some(&all[0])), Some("A"));
    assert_eq!(simulator_to_boot(Some(&all[1])), None);
    assert_eq!(simulator_to_boot(None), None);
}

#[test]
fn the_bridge_waits_for_a_booted_simulator() {
    let cold = simulator("A", "iPhone 16", false);
    let warm = simulator("B", "iPad Air", true);
    let StudioAction::Boot { udid } = studio_step(Some(&cold), StudioEvent::Selected) else {
        panic!("a simulator that is not booted is booted first");
    };
    assert_eq!(udid, "A");
    assert!(matches!(
        studio_step(Some(&cold), StudioEvent::BootEnded { succeeded: true }),
        StudioAction::RunBridge
    ));
    let StudioAction::Fail(error) =
        studio_step(Some(&cold), StudioEvent::BootEnded { succeeded: false })
    else {
        panic!("a failed boot is an error");
    };
    assert_eq!(error.message(), "boot simulator iPhone 16");
    assert!(matches!(
        studio_step(Some(&warm), StudioEvent::Selected),
        StudioAction::RunBridge
    ));
    assert!(matches!(studio_step(None, StudioEvent::Selected), StudioAction::RunBridge));
    assert!(matches!(
        studio_step(
            None,
            StudioEvent::BridgeEnded { succeeded: true, status: "exit status: 0".to_owned() }
        ),
        StudioAction::Finish
    ));
    let StudioAction::Fail(error) = studio_step(
        Some(&warm),
        StudioEvent::BridgeEnded { succeeded: false, status: "exit status: 3".to_owned() },
    ) else {
        panic!("an unsuccessful bridge is an error");
    };
    assert_eq!(error.message(), "Studio provider bridge exited with status exit status: 3");
}
