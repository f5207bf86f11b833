use simdeck::devices::{
    android_boot_request_body, boot_body_of, compact_simulator_list_entry,
    infer_default_cli_simulator, inferred_device_udid, linked_device, list_studio_simulators,
    project_device_selection_for_selector, project_device_udid, resolve_cli_device_udid,
    select_default_studio_simulator, select_studio_simulator, selected_device_udid, DeviceQuery,
    ProjectDeviceSelection, StudioSimulatorSelection,
};
use simdeck::json::{get_array, get_bool, get_field, get_string, json_string_list, parse_json, JsonShape};
use simdeck::webkit::{discover_targets, inject_frontend_host, webkit_inspector_ui_root};

fn simulator(udid: &str, name: &str, is_booted: bool) -> StudioSimulatorSelection {
    StudioSimulatorSelection {
        udid: udid.to_owned(),
        name: name.to_owned(),
        runtime_name: Some("iOS 26".to_owned()),
        is_booted,
    }
}

fn three() -> Vec<StudioSimulatorSelection> {
    vec![
        simulator("A-1", "iPhone 16", false),
        simulator("B-2", "iPhone 17 Pro", true),
        simulator("C-3", "Éclair TV", false),
    ]
}

#[test]
fn boot_command_accepts_android_emulator_startup_args() {
    let android_emulator_args =
        vec!["-no-snapshot".to_owned(), "-gpu".to_owned(), "host".to_owned()];
    let body = android_boot_request_body(&android_emulator_args).unwrap();
    let value: serde_json::Value = serde_json::from_str(&body).unwrap();
    let mut expected = serde_json::Map::new();
    expected.insert(
        "androidEmulatorArgs".to_owned(),
        serde_json::Value::from(vec!["-no-snapshot", "-gpu", "host"]),
    );
    assert_eq!(value, serde_json::Value::Object(expected));
}

#[test]
fn a_boot_without_arguments_has_no_body() {
    assert_eq!(android_boot_request_body(&Vec::new()).unwrap(), "null");
    assert_eq!(boot_body_of(&Vec::new(), "[]"), "null");
    assert_eq!(
        boot_body_of(&vec!["x".to_owned()], "[\"x\"]"),
        "{\"androidEmulatorArgs\":[\"x\"]}"
    );
    assert_eq!(
        json_string_list(&vec!["a\"b".to_owned(), "é".to_owned()]).unwrap(),
        "[\"a\\\"b\",\"é\"]"
    );
}

#[test]
fn simulators_are_read_from_an_answer() {
    let answer = "{\"simulators\":[{\"udid\":\"A\",\"name\":\"iPhone\",\"isBooted\":true,\"runtimeName\":\"iOS\"},{\"udid\":\"B\"},{\"udid\":\"C\",\"name\":\"iPad\",\"isBooted\":1},7]}";
    let found = list_studio_simulators(answer).unwrap();
    assert_eq!(found.len(), 2);
    assert_eq!((found[0].udid.as_str(), found[0].is_booted), ("A", true));
    assert_eq!(found[0].runtime_name.as_deref(), Some("iOS"));
    assert_eq!((found[1].udid.as_str(), found[1].is_booted), ("C", false));
    assert_eq!(found[1].runtime_name, None);
    assert!(list_studio_simulators("{}").unwrap().is_empty());
    assert!(list_studio_simulators("{").is_err());
}

#[test]
fn a_selector_means_an_identifier_a_name_or_a_part_of_one() {
    let all = three();
    let udid = |selector: &str| select_studio_simulator(&all, selector).map(|found| found.udid);
    assert_eq!(udid("b-2").as_deref(), Some("B-2"));
    assert_eq!(udid("IPHONE 17 PRO").as_deref(), Some("B-2"));
    assert_eq!(udid("iphone").as_deref(), Some("A-1"));
    assert_eq!(udid(" 17 ").as_deref(), Some("B-2"));
    assert_eq!(udid("éclair").as_deref(), Some("C-3"));
    assert_eq!(udid("Pixel"), None);
    assert_eq!(selected_device_udid(&all, "17"), "B-2");
    assert_eq!(selected_device_udid(&all, "Pixel"), "Pixel");
}

#[test]
fn a_device_is_inferred_only_where_no_other_would_do() {
    assert_eq!(inferred_device_udid(&three()).unwrap(), "B-2");
    assert_eq!(infer_default_cli_simulator(&three()).unwrap().udid, "B-2");
    let one = vec![simulator("A-1", "iPhone", false)];
    assert_eq!(inferred_device_udid(&one).unwrap(), "A-1");
    let mut two = three();
    two[0].is_booted = true;
    assert!(inferred_device_udid(&two)
        .unwrap_err()
        .message()
        .starts_with("Multiple booted simulators are available."));
    assert_eq!(
        inferred_device_udid(&Vec::new()).unwrap_err().message(),
        "No simulators are available. Boot one or pass a UDID explicitly."
    );
    let mut none = three();
    none[1].is_booted = false;
    assert!(inferred_device_udid(&none)
        .unwrap_err()
        .message()
        .starts_with("No default simulator could be inferred."));
    assert_eq!(select_default_studio_simulator(&three()).unwrap().udid, "B-2");
}

#[test]
fn the_device_of_a_command_is_found_in_turn() {
    let known = |query: DeviceQuery| match query {
        DeviceQuery::Known(udid) => udid,
        DeviceQuery::Select(selector) => format!("select {selector}"),
        DeviceQuery::Infer => "infer".to_owned(),
    };
    assert_eq!(known(resolve_cli_device_udid(Some(" S "), Some("x"), None, None)), "S");
    assert_eq!(known(resolve_cli_device_udid(None, Some("iPhone"), Some("y"), None)), "select iPhone");
    assert_eq!(known(resolve_cli_device_udid(Some(" "), None, Some("iPad"), None)), "select iPad");
    assert_eq!(
        known(resolve_cli_device_udid(None, None, None, Some("android:Pixel"))),
        "android:Pixel"
    );
    assert_eq!(known(resolve_cli_device_udid(None, Some(" "), Some("y"), None)), "infer");
    assert_eq!(known(resolve_cli_device_udid(None, None, None, None)), "infer");
}

#[test]
fn a_project_keeps_its_device() {
    let all = three();
    let selection = project_device_selection_for_selector("17", "/p", 5, &all).unwrap();
    assert_eq!(selection.udid, "B-2");
    assert_eq!(selection.name.as_deref(), Some("iPhone 17 Pro"));
    assert_eq!(selection.selected_at, 5);
    assert_eq!(project_device_udid(&selection, "/p/", false).as_deref(), Some("B-2"));
    assert_eq!(project_device_udid(&selection, "/q", false), None);
    let udid = "00000000-0000-0000-0000-000000000001";
    let selection = project_device_selection_for_selector(udid, "/p", 5, &Vec::new()).unwrap();
    assert_eq!((selection.udid.as_str(), selection.name), (udid, None));
    assert_eq!(
        project_device_selection_for_selector(" ", "/p", 5, &all).unwrap_err().message(),
        "simdeck use requires a simulator UDID or name."
    );
    assert_eq!(
        project_device_selection_for_selector("a\"b", "/p", 5, &all).unwrap_err().message(),
        "No simulator matched \"a\\\"b\". Run `simdeck list` to see available UDIDs."
    );
    let blank = ProjectDeviceSelection {
        project_root: "/p".to_owned(),
        udid: " ".to_owned(),
        name: None,
        runtime_name: None,
        selected_at: 1,
    };
    assert_eq!(project_device_udid(&blank, "/p", false), None);
}

#[test]
fn a_link_finds_its_device_by_either_text() {
    let all = three();
    assert_eq!(linked_device(&all, "B-2", Some("iPhone 16")).unwrap().udid, "B-2");
    assert_eq!(linked_device(&all, "zzz", Some("iPhone 16")).unwrap().udid, "A-1");
    assert!(linked_device(&all, "zzz", Some("ZZZ")).is_none());
    assert!(linked_device(&all, "zzz", None).is_none());
}

#[test]
fn a_list_entry_is_cut_down() {
    let entry = "{\"udid\":\"A\",\"name\":\"iPhone\",\"state\":null,\"isBooted\":true,\"extra\":1,\"privateDisplay\":{\"displayStatus\":\"ok\",\"displayReady\":false,\"x\":1}}";
    let fields = compact_simulator_list_entry(entry);
    let pairs: Vec<(&str, &str)> =
        fields.iter().map(|field| (field.name, field.value.as_str())).collect();
    assert_eq!(
        pairs,
        [
            ("udid", "\"A\""),
            ("name", "\"iPhone\""),
            ("isBooted", "true"),
            ("displayStatus", "\"ok\""),
            ("displayReady", "false"),
        ]
    );
    assert!(compact_simulator_list_entry("[]").is_empty());
}

#[test]
fn json_is_read_one_level_at_a_time() {
    let text = "{\"a\":\"x\",\"b\":true,\"c\":[1,\"y\"],\"d\":{\"e\":null},\"f\":2}";
    assert_eq!(get_string(text, "a").as_deref(), Some("x"));
    assert_eq!(get_string(text, "b"), None);
    assert_eq!(get_bool(text, "b"), Some(true));
    assert_eq!(get_bool(text, "a"), None);
    assert_eq!(get_array(text, "c"), ["1", "\"y\""]);
    assert!(get_array(text, "a").is_empty());
    assert_eq!(get_field(text, "d").as_deref(), Some("{\"e\":null}"));
    assert_eq!(get_field(text, "z"), None);
    assert!(matches!(parse_json("null"), Ok(JsonShape::Null)));
    assert!(matches!(parse_json(" 12 "), Ok(JsonShape::Number(_))));
    assert_eq!(parse_json("x").unwrap_err().message(), "parse JSON");
}

#[test]
fn nothing_is_inspected_without_an_inspector() {
    let discovery = discover_targets("A-1", Some("http://localhost")).unwrap();
    assert_eq!(discovery.udid, "A-1");
    assert_eq!(discovery.socket_path, None);
    assert!(discovery.targets.is_empty());
    assert_eq!(
        discovery.warnings,
        ["WebKit inspection is only available for iOS simulators on macOS."]
    );
    assert_eq!(webkit_inspector_ui_root(), None);
    assert_eq!(inject_frontend_host("<html>"), "<html>");
}
