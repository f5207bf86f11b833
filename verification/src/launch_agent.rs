//! What a LaunchAgent of macOS is installed with: its options, the arguments
//! that they make, and the property list that holds them.
use vstd::prelude::*;

use crate::arguments::{
    argument_of, contains_pair, flag_matches, flag_position, has_pair, option_decimal,
    optional_argument_matches, optional_flag, optional_pair, push_flag, push_number, push_pair,
    push_text,
};
use crate::encoding::{xml_escape, xml_escaped};
use crate::modes::{
    android_gpu_mode_reads_back, video_codec_mode_reads_back, AndroidGpuMode, VideoCodecMode,
};
use crate::net::{
    address_text_is_injective, ipv4_text, ipv6_char, ipv6_form, IpAddr, IpAddrView,
};
use crate::numbers::{
    decimal, decimal_is_injective, decimal_text, is_digit, lemma_decimal_digits,
};
use crate::text::{
    as_option_str, blank, is_blank, join, joined, lemma_already_trimmed, option_view, owned,
    trimmed, views,
};

verus! {

/// The label of the LaunchAgent.
pub const SERVICE_LABEL: &'static str = "org.nativescript.simdeck";

/// What a LaunchAgent is installed with.
#[derive(Debug)]
pub struct ServiceOptions {
    pub port: u16,
    pub bind: IpAddr,
    pub advertise_host: Option<String>,
    pub client_root: Option<String>,
    pub video_codec: VideoCodecMode,
    pub android_gpu: AndroidGpuMode,
    pub low_latency: bool,
    pub stream_quality_profile: Option<String>,
    pub local_stream_fps: Option<u32>,
    pub access_token: Option<String>,
    pub pairing_code: Option<String>,
}

/// The options as the contracts speak of them.
pub struct ServiceOptionsView {
    pub port: u16,
    pub bind: IpAddrView,
    pub advertise_host: Option<Seq<char>>,
    pub client_root: Option<Seq<char>>,
    pub video_codec: VideoCodecMode,
    pub android_gpu: AndroidGpuMode,
    pub low_latency: bool,
    pub stream_quality_profile: Option<Seq<char>>,
    pub local_stream_fps: Option<u32>,
    pub access_token: Option<Seq<char>>,
    pub pairing_code: Option<Seq<char>>,
}

impl View for ServiceOptions {
    type V = ServiceOptionsView;

    open spec fn view(&self) -> ServiceOptionsView {
        ServiceOptionsView {
            port: self.port,
            bind: self.bind@,
            advertise_host: option_view(self.advertise_host),
            client_root: option_view(self.client_root),
            video_codec: self.video_codec,
            android_gpu: self.android_gpu,
            low_latency: self.low_latency,
            stream_quality_profile: option_view(self.stream_quality_profile),
            local_stream_fps: self.local_stream_fps,
            access_token: option_view(self.access_token),
            pairing_code: option_view(self.pairing_code),
        }
    }
}

/// The arguments of an installed service are those of the options.
pub open spec fn options_match(
    arguments: Seq<Seq<char>>,
    options: ServiceOptionsView,
    client_root: Seq<char>,
) -> bool {
    &&& argument_of(arguments, "--port"@) == Some(decimal(options.port as nat))
    &&& argument_of(arguments, "--bind"@) == Some(options.bind.text())
    &&& argument_of(arguments, "--client-root"@) == Some(client_root)
    &&& argument_of(arguments, "--video-codec"@) == Some(options.video_codec.env_value())
    &&& argument_of(arguments, "--android-gpu"@) == Some(options.android_gpu.emulator_value())
    &&& argument_of(arguments, "--server-kind"@) == Some("launch-agent"@)
    &&& has_pair(arguments, "service"@, "run"@)
    &&& argument_of(arguments, "--advertise-host"@) == options.advertise_host
    &&& argument_of(arguments, "--stream-quality"@) == options.stream_quality_profile
    &&& argument_of(arguments, "--local-stream-fps"@) == option_decimal(options.local_stream_fps)
    &&& argument_of(arguments, "--access-token"@) == options.access_token
    &&& argument_of(arguments, "--pairing-code"@) == options.pairing_code
    &&& arguments.contains("--low-latency"@) == options.low_latency
}

pub fn service_options_match_arguments(
    arguments: &Vec<String>,
    options: &ServiceOptions,
    client_root: &str,
) -> (result: bool)
    ensures
        result == options_match(views(arguments@), options@, client_root@),
{
    let port = decimal_text(options.port as u64);
    let bind = options.bind.to_text();
    let fps = match options.local_stream_fps {
        Some(value) => Some(decimal_text(value as u64)),
        None => None,
    };
    optional_argument_matches(arguments, "--port", Some(port.as_str()))
        && optional_argument_matches(arguments, "--bind", Some(bind.as_str()))
        && optional_argument_matches(arguments, "--client-root", Some(client_root))
        && optional_argument_matches(
        arguments,
        "--video-codec",
        Some(options.video_codec.as_env_value()),
    ) && optional_argument_matches(
        arguments,
        "--android-gpu",
        Some(options.android_gpu.as_emulator_value()),
    ) && optional_argument_matches(arguments, "--server-kind", Some("launch-agent"))
        && contains_pair(arguments, "service", "run") && optional_argument_matches(
        arguments,
        "--advertise-host",
        as_option_str(&options.advertise_host),
    ) && optional_argument_matches(
        arguments,
        "--stream-quality",
        as_option_str(&options.stream_quality_profile),
    ) && optional_argument_matches(arguments, "--local-stream-fps", as_option_str(&fps))
        && optional_argument_matches(
        arguments,
        "--access-token",
        as_option_str(&options.access_token),
    ) && optional_argument_matches(
        arguments,
        "--pairing-code",
        as_option_str(&options.pairing_code),
    ) && flag_matches(arguments, "--low-latency", options.low_latency)
}

/// Whether an installed service serves a request as it is.
#[derive(Clone, Copy, Debug, PartialEq, Eq, Structural)]
pub enum ServiceEnableAction {
    Reuse,
    Install,
}

/// The texts of an optional list.
pub open spec fn option_views(list: Option<&Vec<String>>) -> Option<Seq<Seq<char>>> {
    match list {
        Some(texts) => Some(views(texts@)),
        None => None,
    }
}

/// What to do about a service that is installed with the given arguments.
pub open spec fn enable_action(
    arguments: Option<Seq<Seq<char>>>,
    options: ServiceOptionsView,
    client_root: Seq<char>,
) -> ServiceEnableAction {
    match arguments {
        Some(list) => if options_match(list, options, client_root) {
            ServiceEnableAction::Reuse
        } else {
            ServiceEnableAction::Install
        },
        None => ServiceEnableAction::Install,
    }
}

pub fn enable_action_for_installed_arguments(
    arguments: Option<&Vec<String>>,
    options: &ServiceOptions,
    client_root: &str,
) -> (action: ServiceEnableAction)
    ensures
        action == enable_action(option_views(arguments), options@, client_root@),
{
    match arguments {
        Some(list) => if service_options_match_arguments(list, options, client_root) {
            ServiceEnableAction::Reuse
        } else {
            ServiceEnableAction::Install
        },
        None => ServiceEnableAction::Install,
    }
}

/// The arguments that every LaunchAgent is started with.
pub open spec fn required_program_arguments(
    executable: Seq<char>,
    client_root: Seq<char>,
    options: ServiceOptionsView,
) -> Seq<Seq<char>> {
    seq![
        executable,
        "service"@,
        "run"@,
        "--port"@,
        decimal(options.port as nat),
        "--bind"@,
        options.bind.text(),
        "--client-root"@,
        client_root,
        "--video-codec"@,
        options.video_codec.env_value(),
        "--android-gpu"@,
        options.android_gpu.emulator_value(),
        "--server-kind"@,
        "launch-agent"@,
    ]
}

/// The arguments that a LaunchAgent with the given options is started with.
pub open spec fn program_argument_list(
    executable: Seq<char>,
    client_root: Seq<char>,
    options: ServiceOptionsView,
) -> Seq<Seq<char>> {
    required_program_arguments(executable, client_root, options) + optional_flag(
        "--low-latency"@,
        options.low_latency,
    ) + optional_pair("--stream-quality"@, options.stream_quality_profile) + optional_pair(
        "--local-stream-fps"@,
        option_decimal(options.local_stream_fps),
    ) + optional_pair("--advertise-host"@, options.advertise_host) + optional_pair(
        "--access-token"@,
        options.access_token,
    ) + optional_pair("--pairing-code"@, options.pairing_code)
}

/// The arguments that a LaunchAgent with the given options is started with.
pub fn program_arguments(executable: &str, client_root: &str, options: &ServiceOptions) -> (list:
    Vec<String>)
    ensures
        views(list@) == program_argument_list(executable@, client_root@, options@),
{
    let mut list: Vec<String> = Vec::new();
    push_text(&mut list, executable);
    push_text(&mut list, "service");
    push_text(&mut list, "run");
    push_text(&mut list, "--port");
    push_text(&mut list, decimal_text(options.port as u64).as_str());
    push_text(&mut list, "--bind");
    push_text(&mut list, options.bind.to_text().as_str());
    push_text(&mut list, "--client-root");
    push_text(&mut list, client_root);
    push_text(&mut list, "--video-codec");
    push_text(&mut list, options.video_codec.as_env_value());
    push_text(&mut list, "--android-gpu");
    push_text(&mut list, options.android_gpu.as_emulator_value());
    push_text(&mut list, "--server-kind");
    push_text(&mut list, "launch-agent");
    assert(views(list@) =~= required_program_arguments(executable@, client_root@, options@));
    push_flag(&mut list, "--low-latency", options.low_latency);
    push_pair(&mut list, "--stream-quality", as_option_str(&options.stream_quality_profile));
    push_number(&mut list, "--local-stream-fps", options.local_stream_fps);
    push_pair(&mut list, "--advertise-host", as_option_str(&options.advertise_host));
    push_pair(&mut list, "--access-token", as_option_str(&options.access_token));
    push_pair(&mut list, "--pairing-code", as_option_str(&options.pairing_code));
    list
}

/// The variables of the user's environment that a LaunchAgent is given.
#[derive(Debug)]
pub struct LaunchEnvironment {
    pub android_home: Option<String>,
    pub android_sdk_root: Option<String>,
    pub java_home: Option<String>,
    pub developer_dir: Option<String>,
}

/// The entry of a variable in the property list, where it has a value.
pub open spec fn environment_entry(key: Seq<char>, value: Option<Seq<char>>) -> Seq<Seq<char>> {
    match value {
        Some(text) => if blank(text) {
            Seq::empty()
        } else {
            seq![
                "    <key>"@ + xml_escaped(key) + "</key>\n    <string>"@ + xml_escaped(text)
                    + "</string>"@,
            ]
        },
        None => Seq::empty(),
    }
}

/// The entries of the variables in the property list.
pub open spec fn environment_entries(environment: LaunchEnvironment) -> Seq<Seq<char>> {
    environment_entry("ANDROID_HOME"@, option_view(environment.android_home)) + environment_entry(
        "ANDROID_SDK_ROOT"@,
        option_view(environment.android_sdk_root),
    ) + environment_entry("JAVA_HOME"@, option_view(environment.java_home)) + environment_entry(
        "DEVELOPER_DIR"@,
        option_view(environment.developer_dir),
    )
}

fn push_environment_entry(entries: &mut Vec<String>, key: &str, value: &Option<String>)
    ensures
        views(final(entries)@) == views(old(entries)@) + environment_entry(
            key@,
            option_view(*value),
        ),
{
    let ghost before = views(entries@);
    if let Some(text) = value {
        if !is_blank(text.as_str()) {
            let mut entry = owned("    <key>");
            entry.append(xml_escape(key).as_str());
            entry.append("</key>\n    <string>");
            entry.append(xml_escape(text.as_str()).as_str());
            entry.append("</string>");
            push_text(entries, entry.as_str());
        }
    }
    assert(views(entries@) =~= before + environment_entry(key@, option_view(*value)));
}

pub fn launch_agent_environment_xml(environment: &LaunchEnvironment) -> (xml: String)
    ensures
        xml@ == joined(environment_entries(*environment), "\n"@),
{
    let mut entries: Vec<String> = Vec::new();
    assert(views(entries@) =~= Seq::empty());
    push_environment_entry(&mut entries, "ANDROID_HOME", &environment.android_home);
    push_environment_entry(&mut entries, "ANDROID_SDK_ROOT", &environment.android_sdk_root);
    push_environment_entry(&mut entries, "JAVA_HOME", &environment.java_home);
    push_environment_entry(&mut entries, "DEVELOPER_DIR", &environment.developer_dir);
    assert(views(entries@) =~= environment_entries(*environment));
    join(&entries, "\n")
}

/// The part of the property list that holds the environment; empty where no
/// variable has a value.
pub open spec fn environment_section(xml: Seq<char>) -> Seq<char> {
    if xml.len() == 0 {
        Seq::empty()
    } else {
        "  <key>EnvironmentVariables</key>\n  <dict>\n"@ + xml + "\n  </dict>\n"@
    }
}

/// The lines of the arguments in the property list.
pub open spec fn argument_lines(arguments: Seq<Seq<char>>) -> Seq<Seq<char>> {
    arguments.map_values(
        |argument: Seq<char>| "    <string>"@ + xml_escaped(argument) + "</string>"@,
    )
}

fn argument_xml(arguments: &Vec<String>) -> (xml: String)
    ensures
        xml@ == joined(argument_lines(views(arguments@)), "\n"@),
{
    let ghost all = views(arguments@);
    let mut entries: Vec<String> = Vec::new();
    let mut i: usize = 0;
    while i < arguments.len()
        invariant
            i <= arguments@.len(),
            all == views(arguments@),
            views(entries@) =~= argument_lines(all).take(i as int),
        decreases arguments@.len() - i,
    {
        let mut entry = owned("    <string>");
        entry.append(xml_escape(arguments[i].as_str()).as_str());
        entry.append("</string>");
        assert(all[i as int] == arguments@[i as int]@);
        assert(entry@ == argument_lines(all)[i as int]);
        push_text(&mut entries, entry.as_str());
        i += 1;
    }
    assert(views(entries@) =~= argument_lines(all));
    join(&entries, "\n")
}

/// The property list of a LaunchAgent.
pub open spec fn plist_text(
    arguments: Seq<Seq<char>>,
    environment: Seq<char>,
    stdout_log: Seq<char>,
    stderr_log: Seq<char>,
) -> Seq<char> {
    "<?xml version=\"1.0\" encoding=\"UTF-8\"?>\n<!DOCTYPE plist PUBLIC \"-//Apple//DTD PLIST 1.0//EN\" \"http://www.apple.com/DTDs/PropertyList-1.0.dtd\">\n<plist version=\"1.0\">\n<dict>\n  <key>Label</key>\n  <string>"@
        + SERVICE_LABEL@ + "</string>\n  <key>ProgramArguments</key>\n  <array>\n"@ + joined(
        argument_lines(arguments),
        "\n"@,
    )
        + "\n  </array>\n  <key>RunAtLoad</key>\n  <true/>\n  <key>KeepAlive</key>\n  <true/>\n"@
        + environment_section(environment) + "  <key>StandardOutPath</key>\n  <string>"@
        + xml_escaped(stdout_log) + "</string>\n  <key>StandardErrorPath</key>\n  <string>"@
        + xml_escaped(stderr_log) + "</string>\n</dict>\n</plist>\n"@
}

pub fn plist_contents(
    executable: &str,
    client_root: &str,
    stdout_log: &str,
    stderr_log: &str,
    options: &ServiceOptions,
    environment: &LaunchEnvironment,
) -> (plist: String)
    ensures
        plist@ == plist_text(
            program_argument_list(executable@, client_root@, options@),
            joined(environment_entries(*environment), "\n"@),
            stdout_log@,
            stderr_log@,
        ),
{
    let arguments = program_arguments(executable, client_root, options);
    let environment_xml = launch_agent_environment_xml(environment);
    let mut section = String::new();
    if !environment_xml.as_str().is_empty() {
        section = owned("  <key>EnvironmentVariables</key>\n  <dict>\n");
        section.append(environment_xml.as_str());
        section.append("\n  </dict>\n");
    }
    assert(section@ =~= environment_section(environment_xml@));
    let mut plist = owned(
        "<?xml version=\"1.0\" encoding=\"UTF-8\"?>\n<!DOCTYPE plist PUBLIC \"-//Apple//DTD PLIST 1.0//EN\" \"http://www.apple.com/DTDs/PropertyList-1.0.dtd\">\n<plist version=\"1.0\">\n<dict>\n  <key>Label</key>\n  <string>",
    );
    plist.append(SERVICE_LABEL);
    plist.append("</string>\n  <key>ProgramArguments</key>\n  <array>\n");
    plist.append(argument_xml(&arguments).as_str());
    plist.append(
        "\n  </array>\n  <key>RunAtLoad</key>\n  <true/>\n  <key>KeepAlive</key>\n  <true/>\n",
    );
    plist.append(section.as_str());
    plist.append("  <key>StandardOutPath</key>\n  <string>");
    plist.append(xml_escape(stdout_log).as_str());
    plist.append("</string>\n  <key>StandardErrorPath</key>\n  <string>");
    plist.append(xml_escape(stderr_log).as_str());
    plist.append("</string>\n</dict>\n</plist>\n");
    plist
}

/// The flags by which the arguments of a LaunchAgent are found again.
pub open spec fn is_flag_name(text: Seq<char>) -> bool {
    ||| text == "--port"@
    ||| text == "--bind"@
    ||| text == "--client-root"@
    ||| text == "--video-codec"@
    ||| text == "--android-gpu"@
    ||| text == "--server-kind"@
    ||| text == "--low-latency"@
    ||| text == "--stream-quality"@
    ||| text == "--local-stream-fps"@
    ||| text == "--advertise-host"@
    ||| text == "--access-token"@
    ||| text == "--pairing-code"@
}

/// A value that is found again as it was given: it is not blank, has no white
/// space around it, and is not the name of a flag.
pub open spec fn plain_value(text: Seq<char>) -> bool {
    !is_flag_name(text) && !blank(text) && trimmed(text) == text
}

/// An optional value that is found again as it was given.
pub open spec fn plain_option(value: Option<Seq<char>>) -> bool {
    value matches Some(text) ==> plain_value(text)
}

proof fn lemma_flag_names()
    ensures
        "--port"@.len() == 6 && "--port"@[2] == 'p',
        "--bind"@.len() == 6 && "--bind"@[2] == 'b',
        "--client-root"@.len() == 13 && "--client-root"@[2] == 'c',
        "--video-codec"@.len() == 13 && "--video-codec"@[2] == 'v',
        "--android-gpu"@.len() == 13 && "--android-gpu"@[2] == 'a',
        "--server-kind"@.len() == 13 && "--server-kind"@[2] == 's',
        "--low-latency"@.len() == 13 && "--low-latency"@[2] == 'l',
        "--stream-quality"@.len() == 16 && "--stream-quality"@[2] == 's',
        "--advertise-host"@.len() == 16 && "--advertise-host"@[2] == 'a',
        "--local-stream-fps"@.len() == 18,
        "--access-token"@.len() == 14 && "--access-token"@[2] == 'a',
        "--pairing-code"@.len() == 14 && "--pairing-code"@[2] == 'p',
        forall|text: Seq<char>| #[trigger] is_flag_name(text) ==> text.len() > 0 && text[0] == '-',
{
    reveal_strlit("--port");
    reveal_strlit("--bind");
    reveal_strlit("--client-root");
    reveal_strlit("--video-codec");
    reveal_strlit("--android-gpu");
    reveal_strlit("--server-kind");
    reveal_strlit("--low-latency");
    reveal_strlit("--stream-quality");
    reveal_strlit("--local-stream-fps");
    reveal_strlit("--advertise-host");
    reveal_strlit("--access-token");
    reveal_strlit("--pairing-code");
}

/// A text whose first and last characters are digits or lower-case letters is a
/// plain value.
proof fn lemma_plain_word(text: Seq<char>)
    requires
        text.len() > 0,
        is_digit(text[0]) || 'a' <= text[0] <= 'z',
        is_digit(text.last()) || 'a' <= text.last() <= 'z',
    ensures
        plain_value(text),
{
    lemma_flag_names();
    lemma_already_trimmed(text);
}

proof fn lemma_mode_words(options: ServiceOptionsView)
    ensures
        plain_value(options.video_codec.env_value()),
        plain_value(options.android_gpu.emulator_value()),
        plain_value("launch-agent"@),
        plain_value("service"@),
        plain_value("run"@),
        plain_value(decimal(options.port as nat)),
{
    reveal_strlit("auto");
    reveal_strlit("hardware");
    reveal_strlit("software");
    reveal_strlit("host");
    reveal_strlit("lavapipe");
    reveal_strlit("swiftshader");
    reveal_strlit("swangle");
    reveal_strlit("swiftshader_indirect");
    reveal_strlit("launch-agent");
    reveal_strlit("service");
    reveal_strlit("run");
    lemma_decimal_digits(options.port as nat);
    let digits = decimal(options.port as nat);
    assert(is_digit(digits[0]) && is_digit(digits[digits.len() - 1]));
    lemma_plain_word(options.video_codec.env_value());
    lemma_plain_word(options.android_gpu.emulator_value());
    lemma_plain_word("launch-agent"@);
    lemma_plain_word("service"@);
    lemma_plain_word("run"@);
    lemma_plain_word(digits);
}

proof fn lemma_plain_ipv4(a: u8, b: u8, c: u8, d: u8)
    ensures
        plain_value(ipv4_text(a, b, c, d)),
{
    lemma_decimal_digits(a as nat);
    lemma_decimal_digits(d as nat);
    let text = ipv4_text(a, b, c, d);
    let first = decimal(a as nat);
    let last = decimal(d as nat);
    assert(text[0] == first[0] && is_digit(first[0]));
    assert(text.last() == last[last.len() - 1] && is_digit(last[last.len() - 1]));
    lemma_plain_word(text);
}

proof fn lemma_plain_ipv6(text: Seq<char>)
    requires
        ipv6_form(text),
    ensures
        plain_value(text),
{
    lemma_flag_names();
    assert(ipv6_char(text[0]) && ipv6_char(text[text.len() - 1]));
    lemma_already_trimmed(text);
}

proof fn lemma_flag_position_skips(arguments: Seq<Seq<char>>, name: Seq<char>, from: int, to: int)
    requires
        0 <= from <= to <= arguments.len(),
        forall|i: int| from <= i < to ==> #[trigger] arguments[i] != name,
    ensures
        flag_position(arguments, name, from) == flag_position(arguments, name, to),
    decreases to - from,
{
    if from < to {
        lemma_flag_position_skips(arguments, name, from + 1, to);
    }
}

/// A flag is found with its value, where nothing in front of it is its name;
/// it is not found, where nothing at all is its name.
proof fn lemma_argument_between(
    front: Seq<Seq<char>>,
    name: Seq<char>,
    value: Option<Seq<char>>,
    back: Seq<Seq<char>>,
)
    requires
        !front.contains(name),
        plain_option(value),
        value is None ==> !back.contains(name),
    ensures
        argument_of(front + optional_pair(name, value) + back, name) == value,
{
    let arguments = front + optional_pair(name, value) + back;
    let at = front.len() as int;
    assert forall|i: int| 0 <= i < at implies #[trigger] arguments[i] != name by {
        assert(front.contains(front[i]));
    }
    lemma_flag_position_skips(arguments, name, 0, at);
    match value {
        Some(text) => {
            assert(arguments[at] == name && arguments[at + 1] == text);
        },
        None => {
            assert forall|i: int| at <= i < arguments.len() implies #[trigger] arguments[i]
                != name by {
                assert(back.contains(back[i - at]));
            }
            lemma_flag_position_skips(arguments, name, at, arguments.len() as int);
        },
    }
}

proof fn lemma_lacks(a: Seq<Seq<char>>, b: Seq<Seq<char>>, name: Seq<char>)
    requires
        !a.contains(name),
        !b.contains(name),
    ensures
        !(a + b).contains(name),
{
    if (a + b).contains(name) {
        let i = choose|i: int| 0 <= i < (a + b).len() && (a + b)[i] == name;
        if i < a.len() {
            assert(a.contains(a[i]));
        } else {
            assert(b.contains(b[i - a.len()]));
        }
    }
}

proof fn lemma_pair_lacks(flag: Seq<char>, value: Option<Seq<char>>, name: Seq<char>)
    requires
        flag != name,
        is_flag_name(name),
        plain_option(value),
    ensures
        !optional_pair(flag, value).contains(name),
{
}

/// What `options_match` asks of the arguments that a value of its own follows.
proof fn lemma_required_arguments(
    executable: Seq<char>,
    client_root: Seq<char>,
    options: ServiceOptionsView,
    back: Seq<Seq<char>>,
)
    requires
        !is_flag_name(executable),
        plain_value(client_root),
        plain_value(options.bind.text()),
    ensures
        ({
            let arguments = required_program_arguments(executable, client_root, options) + back;
            &&& argument_of(arguments, "--port"@) == Some(decimal(options.port as nat))
            &&& argument_of(arguments, "--bind"@) == Some(options.bind.text())
            &&& argument_of(arguments, "--client-root"@) == Some(client_root)
            &&& argument_of(arguments, "--video-codec"@) == Some(options.video_codec.env_value())
            &&& argument_of(arguments, "--android-gpu"@) == Some(
                options.android_gpu.emulator_value(),
            )
            &&& argument_of(arguments, "--server-kind"@) == Some("launch-agent"@)
            &&& has_pair(arguments, "service"@, "run"@)
        }),
{
    let front = required_program_arguments(executable, client_root, options);
    let arguments = front + back;
    lemma_flag_names();
    lemma_mode_words(options);
    assert(forall|i: int| 0 <= i < 15 ==> #[trigger] arguments[i] == front[i]);
    assert(arguments[1] == "service"@ && arguments[2] == "run"@);
    lemma_flag_position_skips(arguments, "--port"@, 0, 3);
    lemma_flag_position_skips(arguments, "--bind"@, 0, 5);
    lemma_flag_position_skips(arguments, "--client-root"@, 0, 7);
    lemma_flag_position_skips(arguments, "--video-codec"@, 0, 9);
    lemma_flag_position_skips(arguments, "--android-gpu"@, 0, 11);
    lemma_flag_position_skips(arguments, "--server-kind"@, 0, 13);
    assert(arguments[3] == "--port"@ && arguments[5] == "--bind"@ && arguments[7]
        == "--client-root"@ && arguments[9] == "--video-codec"@ && arguments[11]
        == "--android-gpu"@ && arguments[13] == "--server-kind"@);
}

proof fn lemma_required_lacks(
    executable: Seq<char>,
    client_root: Seq<char>,
    options: ServiceOptionsView,
    name: Seq<char>,
)
    requires
        !is_flag_name(executable),
        plain_value(client_root),
        plain_value(options.bind.text()),
        name == "--low-latency"@ || name == "--stream-quality"@ || name == "--local-stream-fps"@
            || name == "--advertise-host"@ || name == "--access-token"@ || name
            == "--pairing-code"@,
    ensures
        !required_program_arguments(executable, client_root, options).contains(name),
{
    lemma_flag_names();
    lemma_mode_words(options);
}

/// No part of the required arguments is the name of an argument that may be
/// left out, and the values of those are plain.
spec fn optional_arguments_apart(
    required: Seq<Seq<char>>,
    values: Seq<Option<Seq<char>>>,
) -> bool {
    &&& values.len() == 5
    &&& forall|i: int| 0 <= i < 5 ==> plain_option(#[trigger] values[i])
    &&& !required.contains("--low-latency"@)
    &&& !required.contains("--stream-quality"@)
    &&& !required.contains("--local-stream-fps"@)
    &&& !required.contains("--advertise-host"@)
    &&& !required.contains("--access-token"@)
    &&& !required.contains("--pairing-code"@)
}

/// The required arguments and behind them those that may be left out.
spec fn with_optional_arguments(
    required: Seq<Seq<char>>,
    low_latency: bool,
    values: Seq<Option<Seq<char>>>,
) -> Seq<Seq<char>> {
    required + optional_flag("--low-latency"@, low_latency) + optional_pair(
        "--stream-quality"@,
        values[0],
    ) + optional_pair("--local-stream-fps"@, values[1]) + optional_pair(
        "--advertise-host"@,
        values[2],
    ) + optional_pair("--access-token"@, values[3]) + optional_pair("--pairing-code"@, values[4])
}

proof fn lemma_quality_found(
    required: Seq<Seq<char>>,
    low_latency: bool,
    values: Seq<Option<Seq<char>>>,
)
    requires
        optional_arguments_apart(required, values),
    ensures
        argument_of(with_optional_arguments(required, low_latency, values), "--stream-quality"@) == values[0],
{
    let low = optional_flag("--low-latency"@, low_latency);
    let quality = optional_pair("--stream-quality"@, values[0]);
    let rate = optional_pair("--local-stream-fps"@, values[1]);
    let host = optional_pair("--advertise-host"@, values[2]);
    let token = optional_pair("--access-token"@, values[3]);
    let code = optional_pair("--pairing-code"@, values[4]);
    let all = with_optional_arguments(required, low_latency, values);
    let name = "--stream-quality"@;
    lemma_flag_names();
    lemma_lacks(required, low, name);
    lemma_pair_lacks("--local-stream-fps"@, values[1], name);
    lemma_pair_lacks("--advertise-host"@, values[2], name);
    lemma_lacks(rate, host, name);
    lemma_pair_lacks("--access-token"@, values[3], name);
    lemma_lacks(rate + host, token, name);
    lemma_pair_lacks("--pairing-code"@, values[4], name);
    lemma_lacks(rate + host + token, code, name);
    lemma_argument_between(required + low, name, values[0], rate + host + token + code);
    assert(all =~= (required + low) + quality + (rate + host + token + code));
}

proof fn lemma_rate_found(
    required: Seq<Seq<char>>,
    low_latency: bool,
    values: Seq<Option<Seq<char>>>,
)
    requires
        optional_arguments_apart(required, values),
    ensures
        argument_of(with_optional_arguments(required, low_latency, values), "--local-stream-fps"@) == values[1],
{
    let low = optional_flag("--low-latency"@, low_latency);
    let quality = optional_pair("--stream-quality"@, values[0]);
    let rate = optional_pair("--local-stream-fps"@, values[1]);
    let host = optional_pair("--advertise-host"@, values[2]);
    let token = optional_pair("--access-token"@, values[3]);
    let code = optional_pair("--pairing-code"@, values[4]);
    let all = with_optional_arguments(required, low_latency, values);
    let name = "--local-stream-fps"@;
    lemma_flag_names();
    lemma_lacks(required, low, name);
    lemma_pair_lacks("--stream-quality"@, values[0], name);
    lemma_lacks(required + low, quality, name);
    lemma_pair_lacks("--advertise-host"@, values[2], name);
    lemma_pair_lacks("--access-token"@, values[3], name);
    lemma_lacks(host, token, name);
    lemma_pair_lacks("--pairing-code"@, values[4], name);
    lemma_lacks(host + token, code, name);
    lemma_argument_between(required + low + quality, name, values[1], host + token + code);
    assert(all =~= (required + low + quality) + rate + (host + token + code));
}

proof fn lemma_host_found(
    required: Seq<Seq<char>>,
    low_latency: bool,
    values: Seq<Option<Seq<char>>>,
)
    requires
        optional_arguments_apart(required, values),
    ensures
        argument_of(with_optional_arguments(required, low_latency, values), "--advertise-host"@) == values[2],
{
    let low = optional_flag("--low-latency"@, low_latency);
    let quality = optional_pair("--stream-quality"@, values[0]);
    let rate = optional_pair("--local-stream-fps"@, values[1]);
    let host = optional_pair("--advertise-host"@, values[2]);
    let token = optional_pair("--access-token"@, values[3]);
    let code = optional_pair("--pairing-code"@, values[4]);
    let all = with_optional_arguments(required, low_latency, values);
    let name = "--advertise-host"@;
    lemma_flag_names();
    lemma_lacks(required, low, name);
    lemma_pair_lacks("--stream-quality"@, values[0], name);
    lemma_lacks(required + low, quality, name);
    lemma_pair_lacks("--local-stream-fps"@, values[1], name);
    lemma_lacks(required + low + quality, rate, name);
    lemma_pair_lacks("--access-token"@, values[3], name);
    lemma_pair_lacks("--pairing-code"@, values[4], name);
    lemma_lacks(token, code, name);
    lemma_argument_between(required + low + quality + rate, name, values[2], token + code);
    assert(all =~= (required + low + quality + rate) + host + (token + code));
}

proof fn lemma_token_found(
    required: Seq<Seq<char>>,
    low_latency: bool,
    values: Seq<Option<Seq<char>>>,
)
    requires
        optional_arguments_apart(required, values),
    ensures
        argument_of(with_optional_arguments(required, low_latency, values), "--access-token"@) == values[3],
{
    let low = optional_flag("--low-latency"@, low_latency);
    let quality = optional_pair("--stream-quality"@, values[0]);
    let rate = optional_pair("--local-stream-fps"@, values[1]);
    let host = optional_pair("--advertise-host"@, values[2]);
    let token = optional_pair("--access-token"@, values[3]);
    let code = optional_pair("--pairing-code"@, values[4]);
    let all = with_optional_arguments(required, low_latency, values);
    let name = "--access-token"@;
    lemma_flag_names();
    lemma_lacks(required, low, name);
    lemma_pair_lacks("--stream-quality"@, values[0], name);
    lemma_lacks(required + low, quality, name);
    lemma_pair_lacks("--local-stream-fps"@, values[1], name);
    lemma_lacks(required + low + quality, rate, name);
    lemma_pair_lacks("--advertise-host"@, values[2], name);
    lemma_lacks(required + low + quality + rate, host, name);
    lemma_pair_lacks("--pairing-code"@, values[4], name);
    lemma_argument_between(required + low + quality + rate + host, name, values[3], code);
    assert(all =~= (required + low + quality + rate + host) + token + (code));
}

proof fn lemma_code_found(
    required: Seq<Seq<char>>,
    low_latency: bool,
    values: Seq<Option<Seq<char>>>,
)
    requires
        optional_arguments_apart(required, values),
    ensures
        argument_of(with_optional_arguments(required, low_latency, values), "--pairing-code"@) == values[4],
{
    let low = optional_flag("--low-latency"@, low_latency);
    let quality = optional_pair("--stream-quality"@, values[0]);
    let rate = optional_pair("--local-stream-fps"@, values[1]);
    let host = optional_pair("--advertise-host"@, values[2]);
    let token = optional_pair("--access-token"@, values[3]);
    let code = optional_pair("--pairing-code"@, values[4]);
    let all = with_optional_arguments(required, low_latency, values);
    let name = "--pairing-code"@;
    lemma_flag_names();
    lemma_lacks(required, low, name);
    lemma_pair_lacks("--stream-quality"@, values[0], name);
    lemma_lacks(required + low, quality, name);
    lemma_pair_lacks("--local-stream-fps"@, values[1], name);
    lemma_lacks(required + low + quality, rate, name);
    lemma_pair_lacks("--advertise-host"@, values[2], name);
    lemma_lacks(required + low + quality + rate, host, name);
    lemma_pair_lacks("--access-token"@, values[3], name);
    lemma_lacks(required + low + quality + rate + host, token, name);
    lemma_argument_between(required + low + quality + rate + host + token, name, values[4], Seq::empty());
    assert(all =~= (required + low + quality + rate + host + token) + code + (Seq::empty()));
}

proof fn lemma_low_latency_found(
    required: Seq<Seq<char>>,
    low_latency: bool,
    values: Seq<Option<Seq<char>>>,
)
    requires
        optional_arguments_apart(required, values),
    ensures
        with_optional_arguments(required, low_latency, values).contains("--low-latency"@) == low_latency,
{
    let low = optional_flag("--low-latency"@, low_latency);
    let quality = optional_pair("--stream-quality"@, values[0]);
    let rate = optional_pair("--local-stream-fps"@, values[1]);
    let host = optional_pair("--advertise-host"@, values[2]);
    let token = optional_pair("--access-token"@, values[3]);
    let code = optional_pair("--pairing-code"@, values[4]);
    let all = with_optional_arguments(required, low_latency, values);
    let name = "--low-latency"@;
    lemma_flag_names();
    if low_latency {
        assert(all[required.len() as int] == name);
    } else {
        lemma_lacks(required, low, name);
        lemma_pair_lacks("--stream-quality"@, values[0], name);
        lemma_lacks(required + low, quality, name);
        lemma_pair_lacks("--local-stream-fps"@, values[1], name);
        lemma_lacks(required + low + quality, rate, name);
        lemma_pair_lacks("--advertise-host"@, values[2], name);
        lemma_lacks(required + low + quality + rate, host, name);
        lemma_pair_lacks("--access-token"@, values[3], name);
        lemma_lacks(required + low + quality + rate + host, token, name);
        lemma_pair_lacks("--pairing-code"@, values[4], name);
        lemma_lacks(required + low + quality + rate + host + token, code, name);
    }
}

/// The arguments that a LaunchAgent is installed with match the options that
/// they were made of, so that asking for the same service again finds it. Left
/// out are texts that the arguments cannot give back: blank ones, ones with
/// white space around them, and names of flags.
pub proof fn installed_arguments_match_their_options(
    executable: Seq<char>,
    client_root: Seq<char>,
    options: ServiceOptionsView,
)
    requires
        !is_flag_name(executable),
        plain_value(client_root),
        options.bind.valid(),
        plain_option(options.stream_quality_profile),
        plain_option(options.advertise_host),
        plain_option(options.access_token),
        plain_option(options.pairing_code),
    ensures
        options_match(
            program_argument_list(executable, client_root, options),
            options,
            client_root,
        ),
        enable_action(
            Some(program_argument_list(executable, client_root, options)),
            options,
            client_root,
        ) == ServiceEnableAction::Reuse,
{
    match options.bind {
        IpAddrView::V4(a, b, c, d) => lemma_plain_ipv4(a, b, c, d),
        IpAddrView::V6(text) => lemma_plain_ipv6(text),
    }
    match options.local_stream_fps {
        Some(fps) => {
            lemma_decimal_digits(fps as nat);
            let digits = decimal(fps as nat);
            assert(is_digit(digits[0]) && is_digit(digits[digits.len() - 1]));
            lemma_plain_word(digits);
        },
        None => {},
    }
    let required = required_program_arguments(executable, client_root, options);
    let all = program_argument_list(executable, client_root, options);
    let values = seq![
        options.stream_quality_profile,
        option_decimal(options.local_stream_fps),
        options.advertise_host,
        options.access_token,
        options.pairing_code,
    ];
    lemma_required_lacks(executable, client_root, options, "--low-latency"@);
    lemma_required_lacks(executable, client_root, options, "--stream-quality"@);
    lemma_required_lacks(executable, client_root, options, "--local-stream-fps"@);
    lemma_required_lacks(executable, client_root, options, "--advertise-host"@);
    lemma_required_lacks(executable, client_root, options, "--access-token"@);
    lemma_required_lacks(executable, client_root, options, "--pairing-code"@);
    lemma_quality_found(required, options.low_latency, values);
    lemma_rate_found(required, options.low_latency, values);
    lemma_host_found(required, options.low_latency, values);
    lemma_token_found(required, options.low_latency, values);
    lemma_code_found(required, options.low_latency, values);
    lemma_low_latency_found(required, options.low_latency, values);
    let back = all.skip(15);
    assert(all =~= required + back);
    lemma_required_arguments(executable, client_root, options, back);
}

/// One list of arguments matches one choice of options alone: no option can be
/// changed, added or dropped so that an installed service still matches.
pub proof fn arguments_match_one_choice_of_options(
    arguments: Seq<Seq<char>>,
    first: ServiceOptionsView,
    first_root: Seq<char>,
    second: ServiceOptionsView,
    second_root: Seq<char>,
)
    requires
        first.bind.valid(),
        second.bind.valid(),
        options_match(arguments, first, first_root),
        options_match(arguments, second, second_root),
    ensures
        first.port == second.port,
        first.bind == second.bind,
        first.video_codec == second.video_codec,
        first.android_gpu == second.android_gpu,
        first.low_latency == second.low_latency,
        first.advertise_host == second.advertise_host,
        first.stream_quality_profile == second.stream_quality_profile,
        first.local_stream_fps == second.local_stream_fps,
        first.access_token == second.access_token,
        first.pairing_code == second.pairing_code,
        first_root == second_root,
{
    decimal_is_injective(first.port as nat, second.port as nat);
    address_text_is_injective(first.bind, second.bind);
    video_codec_mode_reads_back(first.video_codec);
    video_codec_mode_reads_back(second.video_codec);
    android_gpu_mode_reads_back(first.android_gpu);
    android_gpu_mode_reads_back(second.android_gpu);
    match (first.local_stream_fps, second.local_stream_fps) {
        (Some(a), Some(b)) => decimal_is_injective(a as nat, b as nat),
        _ => {},
    }
}

/// The contracts see all of the options of a LaunchAgent, each as what it is.
pub proof fn service_options_are_seen_whole(options: ServiceOptions)
    ensures
        options@.port == options.port,
        options@.bind == options.bind@,
        options@.advertise_host == option_view(options.advertise_host),
        options@.client_root == option_view(options.client_root),
        options@.video_codec == options.video_codec,
        options@.android_gpu == options.android_gpu,
        options@.low_latency == options.low_latency,
        options@.stream_quality_profile == option_view(options.stream_quality_profile),
        options@.local_stream_fps == options.local_stream_fps,
        options@.access_token == option_view(options.access_token),
        options@.pairing_code == option_view(options.pairing_code),
{
}

/// Arguments match options only where they run a service as a LaunchAgent.
pub proof fn matching_arguments_run_a_launch_agent(
    arguments: Seq<Seq<char>>,
    options: ServiceOptionsView,
    client_root: Seq<char>,
)
    requires
        options_match(arguments, options, client_root),
    ensures
        has_pair(arguments, "service"@, "run"@),
        argument_of(arguments, "--server-kind"@) == Some("launch-agent"@),
        argument_of(arguments, "--client-root"@) == Some(client_root),
        argument_of(arguments, "--port"@) == Some(decimal(options.port as nat)),
{
}

/// A service is used as it is exactly where its arguments match; without arguments it
/// is installed.
pub proof fn services_are_installed_where_none_matches(
    arguments: Seq<Seq<char>>,
    options: ServiceOptionsView,
    client_root: Seq<char>,
)
    ensures
        enable_action(None, options, client_root) is Install,
        enable_action(Some(arguments), options, client_root) is Reuse <==> options_match(
            arguments,
            options,
            client_root,
        ),
{
}

/// The arguments of a LaunchAgent start with the executable and say all that the
/// options ask for, each flag with its value and nothing else.
pub proof fn program_arguments_say_what_is_asked(
    executable: Seq<char>,
    client_root: Seq<char>,
    options: ServiceOptionsView,
)
    ensures
        ({
            let list = program_argument_list(executable, client_root, options);
            &&& list[0] == executable && list[1] == "service"@ && list[2] == "run"@
            &&& list[3] == "--port"@ && list[4] == decimal(options.port as nat)
            &&& list[5] == "--bind"@ && list[6] == options.bind.text()
            &&& list[7] == "--client-root"@ && list[8] == client_root
            &&& list[9] == "--video-codec"@ && list[10] == options.video_codec.env_value()
            &&& list[11] == "--android-gpu"@ && list[12] == options.android_gpu.emulator_value()
            &&& list[13] == "--server-kind"@ && list[14] == "launch-agent"@
            &&& options.low_latency ==> list.contains("--low-latency"@)
            &&& list.len() == 15 + (if options.low_latency {
                1int
            } else {
                0
            }) + (if options.stream_quality_profile is Some {
                2int
            } else {
                0
            }) + (if options.local_stream_fps is Some {
                2int
            } else {
                0
            }) + (if options.advertise_host is Some {
                2int
            } else {
                0
            }) + (if options.access_token is Some {
                2int
            } else {
                0
            }) + (if options.pairing_code is Some {
                2int
            } else {
                0
            })
        }),
{
    let list = program_argument_list(executable, client_root, options);
    if options.low_latency {
        assert(list[15] == "--low-latency"@);
    }
}

} // verus!
