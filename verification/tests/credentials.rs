use simdeck::auth::{generate_access_token, generate_pairing_code, Entropy};
use simdeck::credentials::{
    new_project_service_credentials, normalize_project_service_credentials,
    project_service_credentials_for_start, project_service_credentials_from_metadata,
    reset_project_service_credentials, singleton_credentials, ProjectServiceCredentials,
};
use simdeck::metadata::{ServiceLaunchOptions, ServiceMetadata};
use simdeck::modes::{AndroidGpuMode, VideoCodecMode};
use simdeck::net::localhost;
use simdeck::start::{restart_detached_service, RestartPlan};

fn entropy() -> Entropy {
    let mut token = [0u8; 32];
    for (index, byte) in token.iter_mut().enumerate() {
        *byte = index as u8;
    }
    Entropy { token, code: 7_123_456 }
}

fn metadata(port: u16) -> ServiceMetadata {
    ServiceMetadata {
        project_root: "/tmp/project".to_owned(),
        pid: 42,
        http_url: format!("http://127.0.0.1:{port}"),
        port,
        bind: localhost(),
        advertise_host: None,
        client_root: None,
        access_token: "token".to_owned(),
        pairing_code: Some("123456".to_owned()),
        binary_path: "/tmp/simdeck-bin".to_owned(),
        started_at: 1,
        log_path: None,
        video_codec: Some(VideoCodecMode::Auto.as_env_value().to_owned()),
        android_gpu: Some(AndroidGpuMode::Host.as_emulator_value().to_owned()),
        low_latency: false,
        realtime_stream: true,
        stream_quality_profile: Some("full".to_owned()),
        local_stream_fps: None,
    }
}

fn credentials(access_token: &str, pairing_code: &str) -> ProjectServiceCredentials {
    ProjectServiceCredentials {
        access_token: access_token.to_owned(),
        pairing_code: pairing_code.to_owned(),
    }
}

#[test]
fn project_service_credentials_preserve_metadata_values() {
    let metadata = metadata(4310);

    let credentials = project_service_credentials_from_metadata(&metadata, &entropy())
        .expect("metadata credentials should be reusable");

    assert_eq!(credentials.access_token, "token");
    assert_eq!(credentials.pairing_code, "123456");
}

#[test]
fn project_service_credentials_generate_missing_pairing_code() {
    let mut metadata = metadata(4310);
    metadata.pairing_code = None;

    let credentials = project_service_credentials_from_metadata(&metadata, &entropy())
        .expect("metadata access token should be reusable");

    assert_eq!(credentials.access_token, "token");
    assert_eq!(credentials.pairing_code.len(), 6);
    assert!(credentials
        .pairing_code
        .chars()
        .all(|ch| ch.is_ascii_digit()));
}

#[test]
fn project_service_credentials_ignore_blank_access_token() {
    let mut metadata = metadata(4310);
    metadata.access_token = "  ".to_owned();

    assert!(project_service_credentials_from_metadata(&metadata, &entropy()).is_none());
}

#[test]
fn project_service_credentials_reuse_persisted_values() {
    let stored = credentials("stored-token", "222333");

    let started = project_service_credentials_for_start(None, Some(stored), &entropy());

    assert_eq!(started.access_token, "stored-token");
    assert_eq!(started.pairing_code, "222333");
}

#[test]
fn project_service_credentials_preserved_metadata_updates_persisted_values() {
    let preserved = credentials("metadata-token", "444555");

    let started = project_service_credentials_for_start(Some(preserved), None, &entropy());
    let token = started.access_token.clone();
    let code = started.pairing_code.clone();
    let reloaded = normalize_project_service_credentials(started)
        .expect("credentials should be persisted");

    assert_eq!(token, "metadata-token");
    assert_eq!(code, "444555");
    assert_eq!(reloaded.access_token, "metadata-token");
    assert_eq!(reloaded.pairing_code, "444555");
}

#[test]
fn project_service_credentials_generate_and_persist_when_missing() {
    let started = project_service_credentials_for_start(None, None, &entropy());
    let token = started.access_token.clone();
    let code = started.pairing_code.clone();
    let reloaded = normalize_project_service_credentials(started)
        .expect("generated credentials should be persisted");

    assert_eq!(reloaded.access_token, token);
    assert_eq!(reloaded.pairing_code, code);
    assert_eq!(token.len(), 64);
    assert_eq!(code.len(), 6);
}

#[test]
fn project_service_credentials_trim_explicit_reset_token() {
    let credentials = new_project_service_credentials(Some(" explicit-token "), &entropy());

    assert_eq!(credentials.access_token, "explicit-token");
    assert_eq!(credentials.pairing_code.len(), 6);
}

#[test]
fn project_service_credentials_generate_for_blank_explicit_reset_token() {
    let credentials = new_project_service_credentials(Some("  "), &entropy());

    assert_eq!(credentials.access_token.len(), 64);
    assert_eq!(credentials.pairing_code.len(), 6);
}

#[test]
fn secrets_are_written_in_full() {
    assert_eq!(
        generate_access_token(&entropy()),
        "000102030405060708090a0b0c0d0e0f101112131415161718191a1b1c1d1e1f"
    );
    assert_eq!(generate_pairing_code(&entropy()), "123456");
    assert_eq!(generate_pairing_code(&Entropy { token: [0; 32], code: 42 }), "000042");
}

#[test]
fn credentials_that_are_not_whole_are_replaced() {
    assert!(normalize_project_service_credentials(credentials(" ", "123456")).is_none());
    assert!(normalize_project_service_credentials(credentials("token", "")).is_none());
    let kept = normalize_project_service_credentials(credentials(" token ", " 1 ")).unwrap();
    assert_eq!((kept.access_token.as_str(), kept.pairing_code.as_str()), ("token", "1"));
    let again = normalize_project_service_credentials(kept).unwrap();
    assert_eq!((again.access_token.as_str(), again.pairing_code.as_str()), ("token", "1"));
    let started =
        project_service_credentials_for_start(None, Some(credentials("", "1")), &entropy());
    assert_eq!(started.access_token, generate_access_token(&entropy()));
    let started = project_service_credentials_for_start(
        Some(credentials("", "1")),
        Some(credentials("stored", "2")),
        &entropy(),
    );
    assert_eq!(started.pairing_code, "123456");
    let renewed = reset_project_service_credentials(None, &entropy());
    assert_eq!(renewed.access_token.len(), 64);
}

#[test]
fn a_restart_keeps_the_recorded_credentials() {
    let recorded = metadata(4310);
    let plan = restart_detached_service(
        ServiceLaunchOptions::default(),
        false,
        Some(&recorded),
        &entropy(),
    );
    let RestartPlan::Start { options, terminate, credentials } = plan else {
        panic!("expected a start");
    };
    assert_eq!(options.port, 4310);
    assert_eq!(terminate, Some(42));
    let started = project_service_credentials_for_start(credentials, None, &entropy());
    assert_eq!(started.access_token, "token");
    assert_eq!(started.pairing_code, "123456");
    let plan =
        restart_detached_service(ServiceLaunchOptions::default(), true, Some(&recorded), &entropy());
    let RestartPlan::LaunchAgent(options) = plan else {
        panic!("expected the LaunchAgent");
    };
    assert_eq!((options.port, options.access_token), (4310, None));
    let plan = restart_detached_service(ServiceLaunchOptions::default(), false, None, &entropy());
    assert!(matches!(plan, RestartPlan::Start { terminate: None, credentials: None, .. }));
}

#[test]
fn a_started_service_takes_over_the_recorded_credentials() {
    let mut recorded = metadata(4310);
    let taken = singleton_credentials(Some(&recorded), &entropy()).unwrap();
    assert_eq!((taken.access_token.as_str(), taken.pairing_code.as_str()), ("token", "123456"));
    recorded.pairing_code = None;
    let taken = singleton_credentials(Some(&recorded), &entropy()).unwrap();
    assert_eq!(taken.access_token, "token");
    assert_eq!(taken.pairing_code, generate_pairing_code(&entropy()));
    recorded.access_token = "  ".to_owned();
    assert!(singleton_credentials(Some(&recorded), &entropy()).is_none());
    assert!(singleton_credentials(None, &entropy()).is_none());
}
