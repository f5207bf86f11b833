use simdeck::cli::{
    clean_cli_args, is_android_id, looks_like_device_selector, parse_agent_ref,
    parse_optional_udid_f64_args, parse_optional_udid_point_args, parse_optional_udid_text_args,
    parse_optional_udid_value_args, parse_tap_command_args, Argument,
    TapCommandTarget,
};

fn arguments(texts: &[&str]) -> Vec<Argument> {
    texts
        .iter()
        .map(|text| Argument {
            text: text.to_string(),
            finite: text.trim().parse::<f64>().is_ok_and(f64::is_finite),
        })
        .collect()
}

fn numbers(values: &[String]) -> Vec<f64> {
    values.iter().map(|value| value.parse::<f64>().unwrap()).collect()
}

fn tap(texts: &[&str]) -> TapCommandTarget {
    parse_tap_command_args(&arguments(texts), None, None, None, None).unwrap()
}

fn tap_error(texts: &[&str], id: Option<String>) -> String {
    let result = parse_tap_command_args(&arguments(texts), id, None, None, None);
    result.unwrap_err().message().to_owned()
}

#[test]
fn tap_single_positional_arg_is_label_shorthand() {
    let target = tap(&["Continue"]);

    assert_eq!(target.udid, None);
    assert_eq!(target.point, None);
    assert_eq!(target.selector.label.as_deref(), Some("Continue"));
    assert_eq!(target.selector.id, None);
    assert_eq!(target.selector.value, None);
    assert_eq!(target.selector.element_type, None);
    assert_eq!(target.selector.index, None);
}

#[test]
fn tap_agent_ref_maps_to_element_index() {
    let target = tap(&["@e3"]);

    assert_eq!(target.selector.index, Some(2));
    assert_eq!(target.selector.id, None);
    assert_eq!(target.selector.label, None);
    assert_eq!(target.selector.value, None);
    assert_eq!(target.selector.element_type, None);
    assert_eq!(target.udid, None);
}

#[test]
fn tap_positional_udid_coordinates_still_parse() {
    let udid = "00000000-0000-0000-0000-000000000001";
    let target = tap(&[udid, "120", "240"]);

    assert_eq!(target.udid.as_deref(), Some(udid));
    let (x, y) = target.point.unwrap();
    assert_eq!(x.parse::<f64>().ok(), Some(120.0));
    assert_eq!(y.parse::<f64>().ok(), Some(240.0));
    assert!(target.selector.is_empty());
}

#[test]
fn tap_positional_udid_label_shorthand_still_parse() {
    let udid = "00000000-0000-0000-0000-000000000001";
    let target = tap(&[udid, "Continue"]);

    assert_eq!(target.udid.as_deref(), Some(udid));
    assert_eq!(target.selector.label.as_deref(), Some("Continue"));
}

#[test]
fn payload_commands_keep_positional_udid_but_allow_default_device() {
    let (udid, bundle_id) =
        parse_optional_udid_value_args("launch", &arguments(&["com.example.App"]), "BUNDLE_ID")
            .unwrap();
    assert_eq!(udid, None);
    assert_eq!(bundle_id, "com.example.App");

    let (udid, bundle_id) = parse_optional_udid_value_args(
        "launch",
        &arguments(&["SIM-1", "com.example.App"]),
        "BUNDLE_ID",
    )
    .unwrap();
    assert_eq!(udid.as_deref(), Some("SIM-1"));
    assert_eq!(bundle_id, "com.example.App");
}

#[test]
fn coordinate_commands_keep_positional_udid_but_allow_default_device() {
    let (udid, points) =
        parse_optional_udid_f64_args("touch", &arguments(&["120", "240"]), 2).unwrap();
    assert_eq!(udid, None);
    assert_eq!(numbers(&points), vec![120.0, 240.0]);

    let (udid, points) =
        parse_optional_udid_f64_args("swipe", &arguments(&["SIM-1", "10", "20", "30", "40"]), 4)
            .unwrap();
    assert_eq!(udid.as_deref(), Some("SIM-1"));
    assert_eq!(numbers(&points), vec![10.0, 20.0, 30.0, 40.0]);
}

#[test]
fn text_commands_use_positional_text_or_udid_with_input_flags() {
    let (udid, text) =
        parse_optional_udid_text_args("type", &arguments(&["hello"]), false).unwrap();
    assert_eq!(udid, None);
    assert_eq!(text.as_deref(), Some("hello"));

    let (udid, text) = parse_optional_udid_text_args("type", &arguments(&["SIM-1"]), true).unwrap();
    assert_eq!(udid.as_deref(), Some("SIM-1"));
    assert_eq!(text, None);
}

#[test]
fn words_behind_a_tap_make_one_label() {
    let target = tap(&["Sign", " In ", "  "]);
    assert_eq!(target.selector.label.as_deref(), Some("Sign In"));
    let target = tap(&[]);
    assert!(target.selector.is_empty());
    assert_eq!(target.udid, None);
    let target = tap(&["1.5", "2"]);
    assert_eq!(target.point, Some(("1.5".to_owned(), "2".to_owned())));
}

#[test]
fn a_tap_with_a_selector_takes_only_a_device() {
    let by_id = || Some("ok".to_owned());
    let target = parse_tap_command_args(&arguments(&["SIM-1"]), by_id(), None, None, None)
        .unwrap();
    assert_eq!(target.udid.as_deref(), Some("SIM-1"));
    assert_eq!(target.selector.id.as_deref(), Some("ok"));
    let target = parse_tap_command_args(&arguments(&[]), by_id(), None, None, None).unwrap();
    assert_eq!(target.udid, None);
    assert_eq!(
        tap_error(&["SIM-1", "Continue"], by_id()),
        "tap accepts at most one positional UDID when selector flags are used."
    );
}

#[test]
fn a_tap_needs_two_numbers() {
    assert_eq!(tap_error(&["12"], None), "tap requires both x and y coordinates.");
    assert_eq!(
        tap_error(&["12", "x"], None),
        "tap coordinates must be provided as exactly two numeric values."
    );
    assert_eq!(
        tap_error(&["1", "2", "3"], None),
        "tap coordinates must be provided as exactly two numeric values."
    );
}

#[test]
fn references_are_counted_from_one() {
    assert_eq!(parse_agent_ref("@e1"), Some(0));
    assert_eq!(parse_agent_ref(" @e12 "), Some(11));
    assert_eq!(parse_agent_ref("@e0"), None);
    assert_eq!(parse_agent_ref("@e"), None);
    assert_eq!(parse_agent_ref("e3"), None);
}

#[test]
fn identifiers_of_devices_are_told_by_their_form() {
    assert!(looks_like_device_selector("00000000-0000-0000-0000-000000000001"));
    assert!(looks_like_device_selector("ABCDEF00-abcd-0000-0000-000000000001"));
    assert!(looks_like_device_selector("android:Pixel_8_API_36"));
    assert!(!looks_like_device_selector("iPhone 17"));
    assert!(!looks_like_device_selector("00000000-0000-0000-0000-00000000000g"));
    assert!(is_android_id("android:Pixel_8_API_36"));
    assert!(!is_android_id("Pixel_8_API_36"));
}

#[test]
fn cleaning_twice_is_cleaning_once() {
    let once = clean_cli_args(&arguments(&[" a ", "", "  ", "b"]));
    let texts: Vec<&str> = once.iter().map(|argument| argument.text.as_str()).collect();
    assert_eq!(texts, ["a", "b"]);
    let twice = clean_cli_args(&once);
    let again: Vec<&str> = twice.iter().map(|argument| argument.text.as_str()).collect();
    assert_eq!(again, texts);
}

#[test]
fn wrong_numbers_of_arguments_are_refused() {
    let error = parse_optional_udid_value_args("launch", &arguments(&[]), "BUNDLE_ID").unwrap_err();
    assert_eq!(error.message(), "launch requires BUNDLE_ID.");
    let error = parse_optional_udid_value_args("launch", &arguments(&["a", "b", "c"]), "BUNDLE_ID")
        .unwrap_err();
    assert_eq!(error.message(), "launch accepts either BUNDLE_ID or UDID BUNDLE_ID.");
    let error = parse_optional_udid_text_args("type", &arguments(&["a", "b"]), true).unwrap_err();
    assert_eq!(
        error.message(),
        "type accepts at most one positional UDID with --stdin or --file."
    );
    let error =
        parse_optional_udid_text_args("type", &arguments(&["a", "b", "c"]), false).unwrap_err();
    assert_eq!(
        error.message(),
        "type accepts either TEXT or UDID TEXT. Quote multi-word text."
    );
    let error = parse_optional_udid_f64_args("touch", &arguments(&["1"]), 2).unwrap_err();
    assert_eq!(
        error.message(),
        "touch accepts either 2 numeric values or UDID plus 2 numeric values."
    );
    let error = parse_optional_udid_f64_args("touch", &arguments(&[]), usize::MAX).unwrap_err();
    assert!(error.message().starts_with("touch accepts either 18446744073709551615"));
    let error =
        parse_optional_udid_point_args("pinch", &arguments(&["a", "1", "2", "3"])).unwrap_err();
    assert_eq!(error.message(), "pinch accepts [UDID] or [UDID] CENTER_X CENTER_Y.");
}

#[test]
fn what_is_not_a_number_is_quoted() {
    let error = parse_optional_udid_f64_args("touch", &arguments(&["1", "a\"b"]), 2).unwrap_err();
    assert_eq!(error.message(), "touch expected a finite number, got \"a\\\"b\".");
    let error =
        parse_optional_udid_f64_args("touch", &arguments(&["SIM", "inf", "2"]), 2).unwrap_err();
    assert_eq!(error.message(), "touch expected a finite number, got \"inf\".");
    let error = parse_optional_udid_point_args("pinch", &arguments(&["x", "1"])).unwrap_err();
    assert_eq!(error.message(), "pinch expected a finite number, got \"x\".");
}

#[test]
fn a_point_may_stand_behind_a_device() {
    let (udid, point) = parse_optional_udid_point_args("pinch", &arguments(&[])).unwrap();
    assert_eq!((udid, point), (None, None));
    let (udid, point) = parse_optional_udid_point_args("pinch", &arguments(&["SIM"])).unwrap();
    assert_eq!((udid.as_deref(), point), (Some("SIM"), None));
    let (udid, point) =
        parse_optional_udid_point_args("pinch", &arguments(&["SIM", "1", "2"])).unwrap();
    assert_eq!(udid.as_deref(), Some("SIM"));
    assert_eq!(point, Some(("1".to_owned(), "2".to_owned())));
}
