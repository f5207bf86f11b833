use simdeck::launch_agent::ServiceOptions;
use simdeck::metadata::ServiceMetadata;
use simdeck::modes::{AndroidGpuMode, VideoCodecMode};
use simdeck::net::{
    http_url_for_host, is_tailscale_host, is_tailscale_ip, lan_candidate, localhost, parse_ip,
    parse_ipv4, port_available, tailscale_ip_from_cli_output, tailscale_ip_from_ifconfig_output,
    ui_url_from_base, IpAddr,
};
use simdeck::pairing::{
    address_lines, address_value_of, advertising_progress, alternate_urls, format_pairing_code,
    installed_service_progress, pair_global_service, pairing_address_value, pairing_addresses,
    pairing_link, pairing_report_head, primary_url, print_pair_progress, print_pairing_result,
    print_service_metadata_result,
    push_pairing_address, render_qr_code, report_line, requested_pair_port,
    requesting_port_progress,
    service_addresses, service_timeout, simdeck_open_link, simdeck_pair_url,
    stopped_service_progress, waiting_progress, PairGlobalServiceOptions, PairingAddress,
    PairingTarget,
};
use simdeck::service::ServiceInstallResult;

fn ip(text: &str) -> IpAddr {
    parse_ipv4(text).unwrap()
}

fn service_metadata_for_test(
    port: u16,
    bind: &str,
    advertise_host: Option<&str>,
    client_root: Option<&str>,
) -> ServiceMetadata {
    ServiceMetadata {
        project_root: "/tmp/project".to_owned(),
        pid: 42,
        http_url: format!("http://127.0.0.1:{port}"),
        port,
        bind: ip(bind),
        advertise_host: advertise_host.map(str::to_owned),
        client_root: client_root.map(str::to_owned),
        access_token: "token".to_owned(),
        pairing_code: Some("123456".to_owned()),
        binary_path: "/tmp/simdeck-bin".to_owned(),
        started_at: 1,
        log_path: None,
        video_codec: Some(VideoCodecMode::Auto.as_env_value().to_owned()),
        android_gpu: Some(AndroidGpuMode::Host.as_emulator_value().to_owned()),
        low_latency: false,
        realtime_stream: true,
        stream_quality_profile: Some("full".to_owned()),
        local_stream_fps: None,
    }
}

fn three_addresses() -> Vec<PairingAddress> {
    vec![
        PairingAddress { kind: "local", url: "http://127.0.0.1:4310".to_owned() },
        PairingAddress { kind: "lan", url: "http://10.0.0.55:4310".to_owned() },
        PairingAddress { kind: "tailscale", url: "http://100.112.42.69:4310".to_owned() },
    ]
}

fn target() -> PairingTarget {
    PairingTarget {
        target: "service",
        service: Some("org.nativescript.simdeck".to_owned()),
        project_root: None,
        pid: None,
        http_url: "http://127.0.0.1:4310".to_owned(),
        port: 4310,
        advertise_host: Some("10.0.0.55".to_owned()),
        server_id: Some("server-1".to_owned()),
        pairing_code: "123456".to_owned(),
    }
}

fn install_result() -> ServiceInstallResult {
    ServiceInstallResult {
        service: "org.nativescript.simdeck".to_owned(),
        plist_path: "/p.plist".to_owned(),
        executable_path: "/simdeck".to_owned(),
        stdout_log: "/out.log".to_owned(),
        stderr_log: "/err.log".to_owned(),
        port: 4400,
        advertise_host: None,
        access_token: Some("token".to_owned()),
        pairing_code: None,
        reused: true,
    }
}

#[test]
fn simdeck_pair_url_encodes_alternate_addresses() {
    let addresses = three_addresses();

    let url = simdeck_pair_url(
        "http://10.0.0.55:4310",
        "123456",
        Some("server-1"),
        &addresses,
    );

    assert!(url.starts_with("simdeck://pair?u=10.0.0.55%3A4310&c=123456&s=server-1"));
    assert!(url.contains("a=100.112.42.69%3A4310"));
    assert!(!url.contains("127.0.0.1"));
}

#[test]
fn simdeck_open_link_encodes_primary_alternates_and_udid() {
    let addresses = three_addresses();

    let link = simdeck_open_link("https://app.simdeck.sh", "ABCD-1234-EFGH", &addresses)
        .expect("build link");

    assert!(
        link.starts_with("https://app.simdeck.sh/open?u=10.0.0.55%3A4310&udid=ABCD-1234-EFGH")
    );
    assert!(link.contains("&a=100.112.42.69%3A4310"));
    assert!(!link.contains("127.0.0.1"));
}

#[test]
fn simdeck_open_link_trims_trailing_slash_from_base() {
    let addresses = vec![PairingAddress {
        kind: "lan",
        url: "http://10.0.0.55:4310".to_owned(),
    }];

    let link =
        simdeck_open_link("https://app.simdeck.sh/", "udid", &addresses).expect("build link");

    assert!(link.starts_with("https://app.simdeck.sh/open?"));
}

#[test]
fn service_addresses_include_advertised_host_without_implicit_device() {
    let metadata = service_metadata_for_test(4310, "0.0.0.0", Some("10.0.0.55"), None);

    let addresses = service_addresses(&metadata, None, None, None);

    assert!(addresses
        .iter()
        .any(|address| address.kind == "local" && address.url == "http://127.0.0.1:4310"));
    assert!(addresses
        .iter()
        .any(|address| address.kind == "lan" && address.url == "http://10.0.0.55:4310"));
    assert!(addresses
        .iter()
        .all(|address| !address.url.contains("device=")));
}

#[test]
fn service_addresses_append_only_explicit_device_selector() {
    let metadata = service_metadata_for_test(4310, "0.0.0.0", Some("10.0.0.55"), None);

    let addresses = service_addresses(&metadata, Some("SIM 1"), None, None);

    assert!(addresses.iter().any(|address| address.kind == "local"
        && address.url == "http://127.0.0.1:4310/?device=SIM%201"));
    assert!(addresses.iter().any(|address| address.kind == "lan"
        && address.url == "http://10.0.0.55:4310/?device=SIM%201"));
}

#[test]
fn qr_renderer_uses_compact_metro_style_blocks() {
    let qr = render_qr_code("simdeck://pair?url=http%3A%2F%2F10.0.0.55%3A4310&code=123456")
        .expect("render QR");

    assert!(qr.contains('█'));
    assert!(qr.contains(' '));
    assert!(!qr.contains("\x1b["));
    assert!(qr.lines().count() < 40);
}

#[test]
fn tailscale_ip_detection_matches_100_64_10() {
    assert!(is_tailscale_ip(&ip("100.64.0.1")));
    assert!(is_tailscale_ip(&ip("100.127.255.254")));
    assert!(!is_tailscale_ip(&ip("100.128.0.1")));
    assert!(!is_tailscale_ip(&ip("10.0.0.55")));
}

#[test]
fn http_url_for_host_brackets_ipv6() {
    assert_eq!(http_url_for_host("fe80::1", 4310), "http://[fe80::1]:4310");
    assert_eq!(
        http_url_for_host("10.0.0.55", 4310),
        "http://10.0.0.55:4310"
    );
}

#[test]
fn a_pair_link_is_exact() {
    let addresses = three_addresses();
    assert_eq!(
        simdeck_pair_url("http://10.0.0.55:4310", "12 34", None, &addresses),
        "simdeck://pair?u=10.0.0.55%3A4310&c=12%2034&a=100.112.42.69%3A4310"
    );
    assert_eq!(
        pairing_link(&target(), &addresses).unwrap(),
        "simdeck://pair?u=10.0.0.55%3A4310&c=123456&s=server-1&a=100.112.42.69%3A4310"
    );
    assert_eq!(
        pairing_link(&target(), &Vec::new()).unwrap_err().message(),
        "No SimDeck pairing address is available"
    );
}

#[test]
fn an_open_link_needs_a_base_and_an_address() {
    assert_eq!(
        simdeck_open_link(" / ", "udid", &three_addresses()).unwrap_err().message(),
        "link base URL must not be empty"
    );
    assert_eq!(
        simdeck_open_link("https://x", "udid", &Vec::new()).unwrap_err().message(),
        "No SimDeck server address is available"
    );
    assert_eq!(
        simdeck_open_link("https://x//", "a b", &three_addresses()).unwrap(),
        "https://x/open?u=10.0.0.55%3A4310&udid=a%20b&a=100.112.42.69%3A4310"
    );
}

#[test]
fn an_address_is_shown_by_its_authority() {
    assert_eq!(pairing_address_value("http://10.0.0.55:4310/?device=1"), "10.0.0.55:4310");
    assert_eq!(pairing_address_value("http://[fe80::1]:4310"), "[fe80::1]:4310");
    assert_eq!(pairing_address_value("not a uri"), "not a uri");
    assert_eq!(address_value_of("http://x", Some("y:1".to_owned())), "y:1");
    assert_eq!(address_value_of("http://x", None), "http://x");
}

#[test]
fn addresses_are_listed_once() {
    let metadata = service_metadata_for_test(4310, "0.0.0.0", Some(" 10.0.0.55 "), None);
    let lan = ip("10.0.0.55");
    let tailscale = ip("100.112.42.69");
    let addresses = service_addresses(&metadata, None, Some(&lan), Some(&tailscale));
    let urls: Vec<&str> = addresses.iter().map(|address| address.url.as_str()).collect();
    assert_eq!(
        urls,
        ["http://127.0.0.1:4310", "http://10.0.0.55:4310", "http://100.112.42.69:4310"]
    );
    assert_eq!(addresses[2].kind, "tailscale");
    let mut list = three_addresses();
    push_pairing_address(&mut list, "lan", "http://127.0.0.1:4310".to_owned());
    assert_eq!(list.len(), 3);
    push_pairing_address(&mut list, "lan", "http://new:1".to_owned());
    assert_eq!(list.len(), 4);
    let addresses = pairing_addresses(&target(), Some(&lan), Some(&tailscale));
    assert_eq!(addresses.len(), 3);
    assert_eq!(primary_url(&addresses), Some("http://10.0.0.55:4310"));
    assert_eq!(alternate_urls(&addresses, "http://10.0.0.55:4310"), ["http://100.112.42.69:4310"]);
}

#[test]
fn a_tailscale_host_is_listed_as_one() {
    let metadata = service_metadata_for_test(4310, "0.0.0.0", Some("100.64.0.9"), None);
    let addresses = service_addresses(&metadata, None, None, None);
    assert_eq!(addresses[1].kind, "tailscale");
    assert!(is_tailscale_host("100.64.0.9"));
    assert!(!is_tailscale_host("mac.local"));
}

#[test]
fn a_code_of_six_is_shown_in_halves() {
    assert_eq!(format_pairing_code("123456"), "123 456");
    assert_eq!(format_pairing_code("12345"), "12345");
    assert_eq!(format_pairing_code(""), "");
    assert_eq!(format_pairing_code("abcdéf"), "abcdéf");
    assert_eq!(format_pairing_code("abcdé"), "abc dé");
}

#[test]
fn reports_are_aligned() {
    assert_eq!(report_line("Pair:", "123 456"), "       Pair:   123 456");
    assert_eq!(
        address_lines(&three_addresses()),
        [
            "      Local:   http://127.0.0.1:4310",
            "        LAN:   http://10.0.0.55:4310",
            "  Tailscale:   http://100.112.42.69:4310",
        ]
    );
    let metadata = service_metadata_for_test(4310, "127.0.0.1", None, None);
    let addresses = service_addresses(&metadata, None, None, None);
    assert_eq!(
        print_service_metadata_result(&metadata, &addresses, false, None),
        [
            "SimDeck service is already running",
            "",
            "      Local:   http://127.0.0.1:4310",
            "       Pair:   123 456",
        ]
    );
    assert_eq!(
        print_service_metadata_result(&metadata, &Vec::new(), true, Some("not here")),
        [
            "SimDeck service is running",
            "",
            "       Pair:   123 456",
            " Live video:   not here",
        ]
    );
    let lines = print_pairing_result(&target(), &three_addresses()).unwrap();
    assert_eq!(lines[0], "🔐 SimDeck pairing");
    assert_eq!(lines[2], "      Local:   http://127.0.0.1:4310");
    assert_eq!(lines[5], "       Pair:   123 456");
    assert_eq!(lines[7], "Scan this with SimDeck for iOS:");
    assert!(lines[9].contains('█'));
    assert_eq!(
        lines[10],
        "  Deep Link:   simdeck://pair?u=10.0.0.55%3A4310&c=123456&s=server-1&a=100.112.42.69%3A4310"
    );
}

#[test]
fn a_text_too_long_for_a_qr_code_is_refused() {
    let text = "x".repeat(8000);
    assert_eq!(render_qr_code(&text).unwrap_err().message(), "generate pairing QR code");
}

#[test]
fn pairing_tells_of_its_progress() {
    assert_eq!(requesting_port_progress(4310), "simdeck pair: requesting port 4310");
    assert_eq!(
        stopped_service_progress(4310),
        "simdeck pair: stopped foreground service on port 4310 before installing LaunchAgent"
    );
    assert_eq!(
        installed_service_progress(&install_result()),
        "simdeck pair: using org.nativescript.simdeck on port 4400; logs: /out.log, /err.log"
    );
    assert_eq!(
        advertising_progress(&target()),
        "simdeck pair: advertising 10.0.0.55:4310"
    );
    assert_eq!(
        waiting_progress(&target()),
        "simdeck pair: waiting for service health at http://127.0.0.1:4310"
    );
    assert_eq!(print_pair_progress("x"), "simdeck pair: x");
    assert_eq!(
        service_timeout("http://127.0.0.1:1").message(),
        "Timed out waiting for SimDeck service at http://127.0.0.1:1"
    );
}

#[test]
fn a_target_needs_a_pairing_code() {
    let error = PairingTarget::from_service(install_result(), None).unwrap_err();
    assert_eq!(error.message(), "SimDeck service did not publish a pairing code");
    let mut result = install_result();
    result.pairing_code = Some("123456".to_owned());
    let target = PairingTarget::from_service(result, Some("id".to_owned())).unwrap();
    assert_eq!(target.http_url, "http://127.0.0.1:4400");
    assert_eq!(target.server_id.as_deref(), Some("id"));
    assert_eq!(target.target, "service");
    assert_eq!(target.service.as_deref(), Some("org.nativescript.simdeck"));
    assert_eq!((target.project_root, target.pid), (None, None));
}

#[test]
fn a_pairing_request_prefers_what_is_given() {
    let options = |port: Option<u16>, host: Option<&str>| PairGlobalServiceOptions {
        port,
        bind: localhost(),
        advertise_host: host.map(str::to_owned),
        client_root: None,
        video_codec: VideoCodecMode::Auto,
        android_gpu: AndroidGpuMode::Host,
        low_latency: false,
        stream_quality: None,
        local_stream_fps: None,
    };
    let lan = ip("10.0.0.55");
    let tailscale = ip("100.64.0.1");
    let request: ServiceOptions =
        pair_global_service(options(None, None), None, None, Some(&lan), Some(&tailscale));
    assert_eq!(request.port, 4310);
    assert_eq!(request.advertise_host.as_deref(), Some("10.0.0.55"));
    assert_eq!(request.stream_quality_profile.as_deref(), Some("full"));
    let request = pair_global_service(options(None, None), Some(1), Some(2), None, Some(&tailscale));
    assert_eq!(request.port, 1);
    assert_eq!(request.advertise_host.as_deref(), Some("100.64.0.1"));
    let request = pair_global_service(options(Some(9), Some("h")), Some(1), Some(2), None, None);
    assert_eq!((request.port, request.advertise_host.as_deref()), (9, Some("h")));
    let request = pair_global_service(options(None, None), None, Some(2), None, None);
    assert_eq!((request.port, request.advertise_host), (2, None));
    assert_eq!(requested_pair_port(Some(9), Some(1), Some(2)), 9);
    assert_eq!(requested_pair_port(None, Some(1), Some(2)), 1);
    assert_eq!(requested_pair_port(None, None, Some(2)), 2);
    assert_eq!(requested_pair_port(None, None, None), 4310);
}

#[test]
fn addresses_are_read_as_they_are_written() {
    for text in ["0.0.0.0", "127.0.0.1", "255.255.255.255", "10.0.0.55"] {
        assert_eq!(ip(text).to_text(), text);
    }
    for text in ["", "1.2.3", "1.2.3.4.5", "256.1.1.1", "01.2.3.4", "1.2.3.+4", " 1.2.3.4"] {
        assert!(parse_ipv4(text).is_none());
    }
    assert!(parse_ip("fe80::1", Some("fe80::1")).unwrap().same(&IpAddr::V6("fe80::1".to_owned())));
    assert!(ip("0.0.0.0").is_unspecified());
    assert!(ip("127.9.9.9").is_loopback());
    let probed = |bind: &str| -> Vec<String> {
        port_available(&ip(bind)).iter().map(IpAddr::to_text).collect()
    };
    assert_eq!(probed("0.0.0.0"), ["127.0.0.1", "0.0.0.0"]);
    assert_eq!(probed("10.0.0.55"), ["10.0.0.55"]);
    assert!(!lan_candidate(&ip("127.0.0.1")));
    assert!(lan_candidate(&ip("10.0.0.55")));
}

#[test]
fn tailscale_addresses_are_found_in_what_tools_print() {
    let found = tailscale_ip_from_cli_output("100.112.42.69\nfd7a::1\n").unwrap();
    assert_eq!(found.to_text(), "100.112.42.69");
    assert!(tailscale_ip_from_cli_output("10.0.0.1\n").is_none());
    let output = "en0: flags\n\tinet 10.0.0.55 netmask 0xffffff00\nutun4: flags\n\tinet 100.101.102.103 --> 100.101.102.103\n";
    let found = tailscale_ip_from_ifconfig_output(output).unwrap();
    assert_eq!(found.to_text(), "100.101.102.103");
}

#[test]
fn a_selector_is_put_behind_a_url() {
    assert_eq!(ui_url_from_base("http://x:1".to_owned(), None), "http://x:1");
    assert_eq!(
        ui_url_from_base("http://x:1".to_owned(), Some("iPhone 17 é")),
        "http://x:1/?device=iPhone%2017%20%C3%A9"
    );
}

#[test]
fn a_report_starts_above_its_qr_code() {
    let head = pairing_report_head(&target(), &three_addresses());
    assert_eq!(
        head,
        vec![
            "🔐 SimDeck pairing",
            "",
            "      Local:   http://127.0.0.1:4310",
            "        LAN:   http://10.0.0.55:4310",
            "  Tailscale:   http://100.112.42.69:4310",
            "       Pair:   123 456",
            "",
            "Scan this with SimDeck for iOS:",
            "",
        ]
    );
    let lines = print_pairing_result(&target(), &three_addresses()).unwrap();
    assert_eq!(lines[..head.len()], head[..]);
    assert_eq!(lines.len(), head.len() + 2);
    let mut long = target();
    long.pairing_code = "1".repeat(8000);
    assert_eq!(
        print_pairing_result(&long, &three_addresses()).unwrap_err().message(),
        "generate pairing QR code"
    );
    assert_eq!(pairing_report_head(&long, &Vec::new()).len(), 6);
}

#[test]
fn an_ipv6_address_is_spelt_like_one() {
    assert!(parse_ip("x", Some("fe80::1")).is_some());
    assert!(parse_ip("x", Some("::ffff:10.0.0.1")).is_some());
    assert!(parse_ip("x", Some("--port")).is_none());
    assert!(parse_ip("x", Some("fe80")).is_none());
    assert!(parse_ip("x", Some("fe80::1 ")).is_none());
    assert!(parse_ip("x", Some("")).is_none());
    assert!(parse_ip("10.0.0.1", Some("--port")).is_some());
}
