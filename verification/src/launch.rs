//! What `simdeck` does when it is called without a command: the options of the
//! service that it then makes sure of.
use vstd::prelude::*;

use crate::modes::{
    android_gpu_mode, parse_android_gpu_mode, parse_stream_quality_profile, parse_video_codec_mode,
    stream_quality_profile, video_codec_mode, AndroidGpuMode, StreamQualityProfileArg,
    VideoCodecMode,
};
use crate::net::{ip_of, localhost, parse_ip, IpAddr, IpAddrView};
use crate::numbers::{decimal, parse_u16, parse_u32, unsigned_value};
use crate::text::{
    as_option_str, has_prefix, option_str_view, option_view, owned, starts_with, str_eq,
    prefixes_are_taken_off, strip_prefix, views, without_prefix,
};

verus! {

/// The port of a service that is not told another.
pub const SERVICE_PORT: u16 = 4310;

/// The options of the service that a call without a command makes sure of.
#[derive(Debug)]
pub struct DefaultServiceLaunchOptions {
    pub selector: Option<String>,
    pub port: u16,
    pub bind: IpAddr,
    pub advertise_host: Option<String>,
    pub client_root: Option<String>,
    pub video_codec: VideoCodecMode,
    pub android_gpu: AndroidGpuMode,
    pub low_latency: bool,
    pub stream_quality: Option<StreamQualityProfileArg>,
    pub local_stream_fps: Option<u32>,
    pub open: bool,
    pub autostart: bool,
    pub port_explicit: bool,
}

/// The options as the contracts speak of them.
pub struct DefaultServiceLaunchView {
    pub selector: Option<Seq<char>>,
    pub port: u16,
    pub bind: IpAddrView,
    pub advertise_host: Option<Seq<char>>,
    pub client_root: Option<Seq<char>>,
    pub video_codec: VideoCodecMode,
    pub android_gpu: AndroidGpuMode,
    pub low_latency: bool,
    pub stream_quality: Option<StreamQualityProfileArg>,
    pub local_stream_fps: Option<u32>,
    pub open: bool,
    pub autostart: bool,
    pub port_explicit: bool,
}

impl View for DefaultServiceLaunchOptions {
    type V = DefaultServiceLaunchView;

    open spec fn view(&self) -> DefaultServiceLaunchView {
        DefaultServiceLaunchView {
            selector: option_view(self.selector),
            port: self.port,
            bind: self.bind@,
            advertise_host: option_view(self.advertise_host),
            client_root: option_view(self.client_root),
            video_codec: self.video_codec,
            android_gpu: self.android_gpu,
            low_latency: self.low_latency,
            stream_quality: self.stream_quality,
            local_stream_fps: self.local_stream_fps,
            open: self.open,
            autostart: self.autostart,
            port_explicit: self.port_explicit,
        }
    }
}

/// The options of a call without arguments.
pub open spec fn default_launch() -> DefaultServiceLaunchView {
    DefaultServiceLaunchView {
        selector: None,
        port: SERVICE_PORT,
        bind: IpAddrView::V4(127, 0, 0, 1),
        advertise_host: None,
        client_root: None,
        video_codec: VideoCodecMode::Auto,
        android_gpu: AndroidGpuMode::Host,
        low_latency: false,
        stream_quality: None,
        local_stream_fps: None,
        open: false,
        autostart: false,
        port_explicit: false,
    }
}

impl Default for DefaultServiceLaunchOptions {
    fn default() -> (options: Self)
        ensures
            options@ == default_launch(),
    {
        DefaultServiceLaunchOptions {
            selector: None,
            port: SERVICE_PORT,
            bind: localhost(),
            advertise_host: None,
            client_root: None,
            video_codec: VideoCodecMode::Auto,
            android_gpu: AndroidGpuMode::Host,
            low_latency: false,
            stream_quality: None,
            local_stream_fps: None,
            open: false,
            autostart: false,
            port_explicit: false,
        }
    }
}

/// What a call without a command does.
#[derive(Debug)]
pub enum NoCommandAction {
    Service(DefaultServiceLaunchOptions),
}

/// An argument that gives the flag `name`: the name alone, its value in the
/// next argument, or the name, `=` and the value.
pub open spec fn gives_flag(arg: Seq<char>, name: Seq<char>) -> bool {
    arg == name || has_prefix(arg, name + "="@)
}

/// The value of the flag `name` that an argument gives.
pub open spec fn flag_value(
    arg: Seq<char>,
    next: Option<Seq<char>>,
    name: Seq<char>,
) -> Option<Seq<char>> {
    if arg == name {
        next
    } else {
        without_prefix(arg, name + "="@)
    }
}

/// The options after one argument, and whether the argument behind it was its
/// value; none where the argument has no place in a call without a command.
pub open spec fn launch_step(
    arg: Seq<char>,
    next: Option<Seq<char>>,
    arg_ipv6: Option<Seq<char>>,
    next_ipv6: Option<Seq<char>>,
    options: DefaultServiceLaunchView,
) -> Option<(bool, DefaultServiceLaunchView)> {
    if arg == "-p"@ || gives_flag(arg, "--port"@) {
        let separate = arg == "-p"@ || arg == "--port"@;
        let value = if arg == "-p"@ {
            next
        } else {
            flag_value(arg, next, "--port"@)
        };
        match value {
            Some(text) => match unsigned_value(text, 65535) {
                Some(port) => Some(
                    (
                        separate,
                        DefaultServiceLaunchView {
                            port: port as u16,
                            port_explicit: true,
                            ..options
                        },
                    ),
                ),
                None => None,
            },
            None => None,
        }
    } else if gives_flag(arg, "--bind"@) {
        let separate = arg == "--bind"@;
        match flag_value(arg, next, "--bind"@) {
            Some(text) => match ip_of(
                text,
                if separate {
                    next_ipv6
                } else {
                    arg_ipv6
                },
            ) {
                Some(bind) => Some((separate, DefaultServiceLaunchView { bind, ..options })),
                None => None,
            },
            None => None,
        }
    } else if gives_flag(arg, "--advertise-host"@) {
        Some(
            (
                arg == "--advertise-host"@,
                DefaultServiceLaunchView {
                    advertise_host: flag_value(arg, next, "--advertise-host"@),
                    ..options
                },
            ),
        )
    } else if gives_flag(arg, "--client-root"@) {
        Some(
            (
                arg == "--client-root"@,
                DefaultServiceLaunchView {
                    client_root: flag_value(arg, next, "--client-root"@),
                    ..options
                },
            ),
        )
    } else if gives_flag(arg, "--video-codec"@) {
        match flag_value(arg, next, "--video-codec"@) {
            Some(text) => match video_codec_mode(text) {
                Some(video_codec) => Some(
                    (
                        arg == "--video-codec"@,
                        DefaultServiceLaunchView { video_codec, ..options },
                    ),
                ),
                None => None,
            },
            None => None,
        }
    } else if gives_flag(arg, "--android-gpu"@) {
        match flag_value(arg, next, "--android-gpu"@) {
            Some(text) => match android_gpu_mode(text) {
                Some(android_gpu) => Some(
                    (
                        arg == "--android-gpu"@,
                        DefaultServiceLaunchView { android_gpu, ..options },
                    ),
                ),
                None => None,
            },
            None => None,
        }
    } else if gives_flag(arg, "--stream-quality"@) {
        match flag_value(arg, next, "--stream-quality"@) {
            Some(text) => match stream_quality_profile(text) {
                Some(profile) => Some(
                    (
                        arg == "--stream-quality"@,
                        DefaultServiceLaunchView { stream_quality: Some(profile), ..options },
                    ),
                ),
                None => None,
            },
            None => None,
        }
    } else if gives_flag(arg, "--local-stream-fps"@) {
        match flag_value(arg, next, "--local-stream-fps"@) {
            Some(text) => match local_fps(text) {
                Some(fps) => Some(
                    (
                        arg == "--local-stream-fps"@,
                        DefaultServiceLaunchView { local_stream_fps: Some(fps), ..options },
                    ),
                ),
                None => None,
            },
            None => None,
        }
    } else if arg == "-a"@ || arg == "--autostart"@ {
        Some((false, DefaultServiceLaunchView { autostart: true, ..options }))
    } else if arg == "--open"@ {
        Some((false, DefaultServiceLaunchView { open: true, ..options }))
    } else if arg == "--low-latency"@ {
        Some((false, DefaultServiceLaunchView { low_latency: true, ..options }))
    } else if !has_prefix(arg, "-"@) && options.selector is None {
        Some((false, DefaultServiceLaunchView { selector: Some(arg), ..options }))
    } else {
        None
    }
}

/// A frame rate of a local stream: from 15 to 240.
pub open spec fn local_fps(text: Seq<char>) -> Option<u32> {
    match unsigned_value(text, u32::MAX as nat) {
        Some(fps) => if 15 <= fps <= 240 {
            Some(fps as u32)
        } else {
            None
        },
        None => None,
    }
}

/// The element of a list at a position, where there is one.
pub open spec fn element(list: Seq<Seq<char>>, i: int) -> Option<Seq<char>> {
    if 0 <= i < list.len() {
        Some(list[i])
    } else {
        None
    }
}

/// The element of a list of optional texts at a position, where there is one.
pub open spec fn optional_element(list: Seq<Option<String>>, i: int) -> Option<Seq<char>> {
    if 0 <= i < list.len() {
        option_view(list[i])
    } else {
        None
    }
}

/// The options that the arguments from position `i` on make of `options`.
pub open spec fn launch_from(
    args: Seq<Seq<char>>,
    ipv6: Seq<Option<String>>,
    i: int,
    options: DefaultServiceLaunchView,
) -> Option<DefaultServiceLaunchView>
    decreases args.len() + 1 - i,
{
    if i >= args.len() {
        Some(options)
    } else {
        match launch_step(
            args[i],
            element(args, i + 1),
            optional_element(ipv6, i),
            optional_element(ipv6, i + 1),
            options,
        ) {
            Some((took_next, after)) => launch_from(
                args,
                ipv6,
                i + if took_next {
                    2int
                } else {
                    1int
                },
                after,
            ),
            None => None,
        }
    }
}

/// The options of a call without a command; none where the arguments are those
/// of a command, or wrong.
pub open spec fn launch_of(
    args: Seq<Seq<char>>,
    ipv6: Seq<Option<String>>,
) -> Option<DefaultServiceLaunchView> {
    if args.len() > 0 && (known_command(args[0]) || args[0] == "serve"@) {
        None
    } else {
        launch_from(args, ipv6, 0, default_launch())
    }
}

/// How an argument gives a flag.
enum FlagForm {
    Absent,
    Separate,
    Inline(String),
}

fn flag_form(arg: &str, name: &str) -> (form: FlagForm)
    ensures
        match form {
            FlagForm::Absent => !gives_flag(arg@, name@),
            FlagForm::Separate => arg@ == name@,
            FlagForm::Inline(value) => arg@ != name@ && without_prefix(arg@, name@ + "="@) == Some(
                value@,
            ),
        },
{
    if str_eq(arg, name) {
        return FlagForm::Separate;
    }
    let mut prefix = owned(name);
    prefix.append("=");
    match strip_prefix(arg, prefix.as_str()) {
        Some(value) => FlagForm::Inline(value),
        None => FlagForm::Absent,
    }
}

/// The value of a flag and whether it stood in an argument of its own; none
/// where the argument does not give the flag.
fn taken_value(arg: &str, next: Option<&str>, name: &str) -> (taken: Option<
    (bool, Option<String>),
>)
    ensures
        match taken {
            Some((separate, value)) => {
                &&& gives_flag(arg@, name@)
                &&& separate == (arg@ == name@)
                &&& option_view(value) == flag_value(arg@, option_str_view(next), name@)
            },
            None => !gives_flag(arg@, name@),
        },
{
    match flag_form(arg, name) {
        FlagForm::Absent => None,
        FlagForm::Separate => Some(
            (
                true,
                match next {
                    Some(value) => Some(owned(value)),
                    None => None,
                },
            ),
        ),
        FlagForm::Inline(value) => Some((false, Some(value))),
    }
}

fn parse_local_fps(text: &str) -> (fps: Option<u32>)
    ensures
        fps == local_fps(text@),
{
    match parse_u32(text) {
        Some(fps) => if 15 <= fps && fps <= 240 {
            Some(fps)
        } else {
            None
        },
        None => None,
    }
}

/// Takes one argument into the options.
#[verifier::rlimit(60)]
#[verifier::spinoff_prover]
fn take_argument(
    arg: &str,
    next: Option<&str>,
    arg_ipv6: Option<&str>,
    next_ipv6: Option<&str>,
    options: &mut DefaultServiceLaunchOptions,
) -> (took_next: Option<bool>)
    ensures
        match took_next {
            Some(took) => launch_step(
                arg@,
                option_str_view(next),
                option_str_view(arg_ipv6),
                option_str_view(next_ipv6),
                old(options)@,
            ) == Some((took, final(options)@)),
            None => launch_step(
                arg@,
                option_str_view(next),
                option_str_view(arg_ipv6),
                option_str_view(next_ipv6),
                old(options)@,
            ) is None,
        },
{
    if str_eq(arg, "-p") {
        return match next {
            Some(text) => match parse_u16(text) {
                Some(port) => {
                    options.port = port;
                    options.port_explicit = true;
                    Some(true)
                },
                None => None,
            },
            None => None,
        };
    }
    if let Some((separate, value)) = taken_value(arg, next, "--port") {
        return match value {
            Some(text) => match parse_u16(text.as_str()) {
                Some(port) => {
                    options.port = port;
                    options.port_explicit = true;
                    Some(separate)
                },
                None => None,
            },
            None => None,
        };
    }
    if let Some((separate, value)) = taken_value(arg, next, "--bind") {
        let ipv6 = if separate {
            next_ipv6
        } else {
            arg_ipv6
        };
        return match value {
            Some(text) => match parse_ip(text.as_str(), ipv6) {
                Some(bind) => {
                    options.bind = bind;
                    Some(separate)
                },
                None => None,
            },
            None => None,
        };
    }
    if let Some((separate, value)) = taken_value(arg, next, "--advertise-host") {
        options.advertise_host = value;
        return Some(separate);
    }
    if let Some((separate, value)) = taken_value(arg, next, "--client-root") {
        options.client_root = value;
        return Some(separate);
    }
    if let Some((separate, value)) = taken_value(arg, next, "--video-codec") {
        return match value {
            Some(text) => match parse_video_codec_mode(text.as_str()) {
                Some(mode) => {
                    options.video_codec = mode;
                    Some(separate)
                },
                None => None,
            },
            None => None,
        };
    }
    if let Some((separate, value)) = taken_value(arg, next, "--android-gpu") {
        return match value {
            Some(text) => match parse_android_gpu_mode(text.as_str()) {
                Some(mode) => {
                    options.android_gpu = mode;
                    Some(separate)
                },
                None => None,
            },
            None => None,
        };
    }
    if let Some((separate, value)) = taken_value(arg, next, "--stream-quality") {
        return match value {
            Some(text) => match parse_stream_quality_profile(text.as_str()) {
                Some(profile) => {
                    options.stream_quality = Some(profile);
                    Some(separate)
                },
                None => None,
            },
            None => None,
        };
    }
    if let Some((separate, value)) = taken_value(arg, next, "--local-stream-fps") {
        return match value {
            Some(text) => match parse_local_fps(text.as_str()) {
                Some(fps) => {
                    options.local_stream_fps = Some(fps);
                    Some(separate)
                },
                None => None,
            },
            None => None,
        };
    }
    if str_eq(arg, "-a") || str_eq(arg, "--autostart") {
        options.autostart = true;
        return Some(false);
    }
    if str_eq(arg, "--open") {
        options.open = true;
        return Some(false);
    }
    if str_eq(arg, "--low-latency") {
        options.low_latency = true;
        return Some(false);
    }
    if !starts_with(arg, "-") && options.selector.is_none() {
        options.selector = Some(owned(arg));
        return Some(false);
    }
    None
}

fn string_at(list: &Vec<String>, i: usize) -> (result: Option<&str>)
    ensures
        option_str_view(result) == element(views(list@), i as int),
{
    if i < list.len() {
        Some(list[i].as_str())
    } else {
        None
    }
}

fn optional_string_at(list: &Vec<Option<String>>, i: usize) -> (result: Option<&str>)
    ensures
        option_str_view(result) == optional_element(list@, i as int),
{
    if i < list.len() {
        as_option_str(&list[i])
    } else {
        None
    }
}

/// Reads the arguments of a call without a command. `ipv6` holds, for each
/// argument, the canonical form of the IPv6 address that it gives as a value
/// (behind `--bind=` where it starts with that), if it gives one.
pub fn no_command_action_from_args_slice(
    args: &Vec<String>,
    ipv6: &Vec<Option<String>>,
) -> (action: Option<NoCommandAction>)
    ensures
        match action {
            Some(NoCommandAction::Service(options)) => launch_of(views(args@), ipv6@) == Some(
                options@,
            ),
            None => launch_of(views(args@), ipv6@) is None,
        },
{
    if args.len() > 0 {
        let first = args[0].as_str();
        assert(views(args@)[0] == first@);
        if is_known_command(first) || str_eq(first, "serve") {
            return None;
        }
    }
    let ghost all = views(args@);
    let mut options = DefaultServiceLaunchOptions::default();
    let mut i: usize = 0;
    while i < args.len()
        invariant
            i <= args@.len(),
            all == views(args@),
            launch_from(all, ipv6@, 0, default_launch()) == launch_from(
                all,
                ipv6@,
                i as int,
                options@,
            ),
            launch_of(all, ipv6@) == launch_from(all, ipv6@, 0, default_launch()),
        decreases args@.len() - i,
    {
        let next: usize = i + 1;
        assert(all[i as int] == args@[i as int]@);
        match take_argument(
            args[i].as_str(),
            string_at(args, next),
            optional_string_at(ipv6, i),
            optional_string_at(ipv6, next),
            &mut options,
        ) {
            Some(took_next) => {
                assert(next == args@.len() ==> launch_from(all, ipv6@, next + 1, options@)
                    == launch_from(all, ipv6@, next as int, options@));
                if took_next && next < args.len() {
                    i = next + 1;
                } else {
                    i = next;
                }
            },
            None => {
                return None;
            },
        }
    }
    Some(NoCommandAction::Service(options))
}

/// The words that are taken for a command where they come first: every command
/// and its other names, `ui`, and the service process of earlier releases. Any
/// other word there selects a simulator.
pub open spec fn known_command(value: Seq<char>) -> bool {
    ||| value == "daemon"@
    ||| value == "ui"@
    ||| value == "kill"@
    ||| value == "killall"@
    ||| value == "studio"@
    ||| value == "provider"@
    ||| value == "camera"@
    ||| value == "record"@
    ||| value == "snapshot"@
    ||| value == "press"@
    ||| value == "wait-for"@
    ||| value == "wait"@
    ||| value == "assert"@
    ||| value == "link"@
    ||| value == "pair"@
    ||| value == "maestro"@
    ||| value == "service"@
    ||| value == "core-simulator"@
    ||| value == "simctl-service"@
    ||| value == "list"@
    ||| value == "use"@
    ||| value == "boot"@
    ||| value == "shutdown"@
    ||| value == "open-url"@
    ||| value == "launch"@
    ||| value == "toggle-appearance"@
    ||| value == "erase"@
    ||| value == "install"@
    ||| value == "uninstall"@
    ||| value == "pasteboard"@
    ||| value == "logs"@
    ||| value == "processes"@
    ||| value == "stats"@
    ||| value == "sample"@
    ||| value == "screenshot"@
    ||| value == "describe"@
    ||| value == "touch"@
    ||| value == "tap"@
    ||| value == "back"@
    ||| value == "swipe"@
    ||| value == "gesture"@
    ||| value == "pinch"@
    ||| value == "rotate-gesture"@
    ||| value == "key"@
    ||| value == "key-sequence"@
    ||| value == "key-combo"@
    ||| value == "type"@
    ||| value == "button"@
    ||| value == "crown"@
    ||| value == "batch"@
    ||| value == "dismiss-keyboard"@
    ||| value == "home"@
    ||| value == "app-switcher"@
    ||| value == "rotate-left"@
    ||| value == "rotate-right"@
    ||| value == "chrome-profile"@
    ||| value == "help"@
}

pub fn is_known_command(value: &str) -> (result: bool)
    ensures
        result == known_command(value@),
{
    let service = str_eq(value, removed_service_process_name()) || str_eq(value, "ui") || str_eq(
        value,
        "pair",
    ) || str_eq(value, "maestro") || str_eq(value, "service") || str_eq(value, "core-simulator")
        || str_eq(value, "simctl-service") || str_eq(value, "list") || str_eq(value, "use");
    let device = str_eq(value, "boot") || str_eq(value, "shutdown") || str_eq(value, "open-url")
        || str_eq(value, "launch") || str_eq(value, "toggle-appearance") || str_eq(value, "erase")
        || str_eq(value, "install") || str_eq(value, "uninstall") || str_eq(value, "pasteboard");
    let report = str_eq(value, "logs") || str_eq(value, "processes") || str_eq(value, "stats")
        || str_eq(value, "sample") || str_eq(value, "screenshot") || str_eq(value, "describe");
    let input = str_eq(value, "touch") || str_eq(value, "tap") || str_eq(value, "back") || str_eq(
        value,
        "swipe",
    ) || str_eq(value, "gesture") || str_eq(value, "pinch") || str_eq(value, "rotate-gesture")
        || str_eq(value, "key") || str_eq(value, "key-sequence") || str_eq(value, "key-combo")
        || str_eq(value, "type") || str_eq(value, "button") || str_eq(value, "crown");
    let rest = str_eq(value, "batch") || str_eq(value, "dismiss-keyboard") || str_eq(value, "home")
        || str_eq(value, "app-switcher") || str_eq(value, "rotate-left") || str_eq(
        value,
        "rotate-right",
    ) || str_eq(value, "chrome-profile") || str_eq(value, "help");
    let more = str_eq(value, "kill") || str_eq(value, "killall") || str_eq(value, "studio")
        || str_eq(value, "provider") || str_eq(value, "camera") || str_eq(value, "record")
        || str_eq(value, "snapshot") || str_eq(value, "press") || str_eq(value, "wait-for")
        || str_eq(value, "wait") || str_eq(value, "assert") || str_eq(value, "link");
    service || device || report || input || rest || more
}

/// The name of the service process of earlier releases.
pub fn removed_service_process_name() -> (name: &'static str)
    ensures
        name@ == "daemon"@,
{
    "daemon"
}

/// The limits that the options of a call without a command keep: the frame rate
/// lies within its range, a port that was not given is the usual one, and a flag
/// is never taken for a simulator.
pub open spec fn within_limits(options: DefaultServiceLaunchView) -> bool {
    &&& options.local_stream_fps matches Some(fps) ==> 15 <= fps <= 240
    &&& !options.port_explicit ==> options.port == SERVICE_PORT
    &&& options.selector matches Some(name) ==> !has_prefix(name, "-"@)
}

proof fn lemma_launch_from_limits(
    args: Seq<Seq<char>>,
    ipv6: Seq<Option<String>>,
    i: int,
    options: DefaultServiceLaunchView,
)
    requires
        within_limits(options),
    ensures
        launch_from(args, ipv6, i, options) matches Some(result) ==> within_limits(result),
    decreases args.len() + 1 - i,
{
    if i < args.len() {
        match launch_step(
            args[i],
            element(args, i + 1),
            optional_element(ipv6, i),
            optional_element(ipv6, i + 1),
            options,
        ) {
            Some((took_next, after)) => {
                assert(within_limits(after));
                lemma_launch_from_limits(
                    args,
                    ipv6,
                    i + if took_next {
                        2int
                    } else {
                        1int
                    },
                    after,
                );
            },
            None => {},
        }
    }
}

/// Whatever the arguments, the options of a call without a command keep their
/// limits.
pub proof fn launch_options_keep_their_limits(args: Seq<Seq<char>>, ipv6: Seq<Option<String>>)
    ensures
        launch_of(args, ipv6) matches Some(options) ==> within_limits(options),
{
    lemma_launch_from_limits(args, ipv6, 0, default_launch());
}

/// A text that does not start with a dash gives no flag.
proof fn lemma_no_flag(arg: Seq<char>, name: Seq<char>)
    requires
        !has_prefix(arg, "-"@),
        has_prefix(name, "-"@),
    ensures
        !gives_flag(arg, name),
{
    reveal_strlit("-");
    reveal_strlit("=");
    if has_prefix(arg, name + "="@) {
        let start = name + "="@;
        assert(arg.subrange(0, start.len() as int)[0] == start[0]);
        assert(name.subrange(0, 1)[0] == name[0]);
        assert(arg.subrange(0, 1) =~= "-"@);
    }
}

/// A command is never taken for a simulator, whatever follows it.
pub proof fn commands_select_no_simulator(args: Seq<Seq<char>>, ipv6: Seq<Option<String>>)
    requires
        args.len() > 0,
        known_command(args[0]),
    ensures
        launch_of(args, ipv6) is None,
{
}

/// A simulator's name or identifier as the only argument selects it, and leaves
/// the other options as they are by default.
pub proof fn only_argument_selects_a_simulator(name: Seq<char>, ipv6: Seq<Option<String>>)
    requires
        !has_prefix(name, "-"@),
        !known_command(name),
        name != "serve"@,
    ensures
        launch_of(seq![name], ipv6) == Some(
            (DefaultServiceLaunchView { selector: Some(name), ..default_launch() }),
        ),
{
    reveal_strlit("-");
    reveal_strlit("-p");
    reveal_strlit("-a");
    reveal_strlit("--autostart");
    reveal_strlit("--open");
    reveal_strlit("--low-latency");
    reveal_strlit("--port");
    reveal_strlit("--bind");
    reveal_strlit("--advertise-host");
    reveal_strlit("--client-root");
    reveal_strlit("--video-codec");
    reveal_strlit("--android-gpu");
    reveal_strlit("--stream-quality");
    reveal_strlit("--local-stream-fps");
    lemma_dash("-p"@);
    lemma_dash("-a"@);
    lemma_dash("--autostart"@);
    lemma_dash("--open"@);
    lemma_dash("--low-latency"@);
    lemma_dash("--port"@);
    lemma_dash("--bind"@);
    lemma_dash("--advertise-host"@);
    lemma_dash("--client-root"@);
    lemma_dash("--video-codec"@);
    lemma_dash("--android-gpu"@);
    lemma_dash("--stream-quality"@);
    lemma_dash("--local-stream-fps"@);
    lemma_no_flag(name, "--port"@);
    lemma_no_flag(name, "--bind"@);
    lemma_no_flag(name, "--advertise-host"@);
    lemma_no_flag(name, "--client-root"@);
    lemma_no_flag(name, "--video-codec"@);
    lemma_no_flag(name, "--android-gpu"@);
    lemma_no_flag(name, "--stream-quality"@);
    lemma_no_flag(name, "--local-stream-fps"@);
    assert(seq![name][0] == name);
    reveal_with_fuel(launch_from, 2);
}

/// A text whose first character is a dash starts with one.
proof fn lemma_dash(text: Seq<char>)
    requires
        text.len() > 0,
        text[0] == '-',
    ensures
        has_prefix(text, "-"@),
{
    reveal_strlit("-");
    assert(text.subrange(0, 1) =~= "-"@);
}

/// A call without arguments asks for the default service.
pub proof fn no_arguments_ask_for_the_default(ipv6: Seq<Option<String>>)
    ensures
        launch_of(Seq::empty(), ipv6) == Some(default_launch()),
{
}

/// The name of a flag that takes a value.
pub open spec fn takes_value(name: Seq<char>) -> bool {
    ||| name == "--port"@
    ||| name == "--bind"@
    ||| name == "--advertise-host"@
    ||| name == "--client-root"@
    ||| name == "--video-codec"@
    ||| name == "--android-gpu"@
    ||| name == "--stream-quality"@
    ||| name == "--local-stream-fps"@
}

proof fn lemma_value_flags()
    ensures
        !"--port"@.contains('=') && "--port"@.len() >= 6,
        !"--bind"@.contains('=') && "--bind"@.len() >= 6,
        !"--advertise-host"@.contains('=') && "--advertise-host"@.len() >= 6,
        !"--client-root"@.contains('=') && "--client-root"@.len() >= 6,
        !"--video-codec"@.contains('=') && "--video-codec"@.len() >= 6,
        !"--android-gpu"@.contains('=') && "--android-gpu"@.len() >= 6,
        !"--stream-quality"@.contains('=') && "--stream-quality"@.len() >= 6,
        !"--local-stream-fps"@.contains('=') && "--local-stream-fps"@.len() >= 6,
{
    reveal_strlit("--port");
    reveal_strlit("--bind");
    reveal_strlit("--advertise-host");
    reveal_strlit("--client-root");
    reveal_strlit("--video-codec");
    reveal_strlit("--android-gpu");
    reveal_strlit("--stream-quality");
    reveal_strlit("--local-stream-fps");
}

/// An argument gives one flag alone: the flags' names hold no `=`, which ends them.
proof fn lemma_one_flag(arg: Seq<char>, name: Seq<char>, other: Seq<char>)
    requires
        !name.contains('='),
        !other.contains('='),
        gives_flag(arg, name),
        name != other,
    ensures
        !gives_flag(arg, other),
{
    reveal_strlit("=");
    if gives_flag(arg, other) {
        let first = name + "="@;
        let second = other + "="@;
        if arg == name {
            assert(arg.subrange(0, second.len() as int)[other.len() as int] == '=');
            assert(arg[other.len() as int] == '=');
        } else if arg == other {
            assert(arg.subrange(0, first.len() as int)[name.len() as int] == '=');
            assert(arg[name.len() as int] == '=');
        } else {
            let a: int = name.len() as int;
            let b: int = other.len() as int;
            assert(arg.subrange(0, first.len() as int) == first);
            assert(arg.subrange(0, second.len() as int) == second);
            assert(first[a] == '=' && second[b] == '=');
            assert(arg[a] == first[a] && arg[b] == second[b]);
            if a < b {
                assert(second[a] == arg[a]);
                assert(second[a] == other[a]);
            } else if b < a {
                assert(first[b] == arg[b]);
                assert(first[b] == name[b]);
            } else {
                assert(first =~= second);
                assert(name =~= first.take(a));
                assert(other =~= second.take(a));
            }
        }
    }
}

proof fn lemma_only_flag(arg: Seq<char>, name: Seq<char>)
    requires
        takes_value(name),
        gives_flag(arg, name),
    ensures
        arg != "-p"@,
        name != "--port"@ ==> !gives_flag(arg, "--port"@),
        name != "--bind"@ ==> !gives_flag(arg, "--bind"@),
        name != "--advertise-host"@ ==> !gives_flag(arg, "--advertise-host"@),
        name != "--client-root"@ ==> !gives_flag(arg, "--client-root"@),
        name != "--video-codec"@ ==> !gives_flag(arg, "--video-codec"@),
        name != "--android-gpu"@ ==> !gives_flag(arg, "--android-gpu"@),
        name != "--stream-quality"@ ==> !gives_flag(arg, "--stream-quality"@),
        name != "--local-stream-fps"@ ==> !gives_flag(arg, "--local-stream-fps"@),
{
    lemma_value_flags();
    reveal_strlit("-p");
    if name != "--port"@ {
        lemma_one_flag(arg, name, "--port"@);
    }
    if name != "--bind"@ {
        lemma_one_flag(arg, name, "--bind"@);
    }
    if name != "--advertise-host"@ {
        lemma_one_flag(arg, name, "--advertise-host"@);
    }
    if name != "--client-root"@ {
        lemma_one_flag(arg, name, "--client-root"@);
    }
    if name != "--video-codec"@ {
        lemma_one_flag(arg, name, "--video-codec"@);
    }
    if name != "--android-gpu"@ {
        lemma_one_flag(arg, name, "--android-gpu"@);
    }
    if name != "--stream-quality"@ {
        lemma_one_flag(arg, name, "--stream-quality"@);
    }
    if name != "--local-stream-fps"@ {
        lemma_one_flag(arg, name, "--local-stream-fps"@);
    }
}

/// How a flag is given together with its value: in an argument of its own and the
/// next one, or in one with `=` in between.
proof fn lemma_flag_forms(name: Seq<char>, text: Seq<char>, next: Option<Seq<char>>)
    requires
        takes_value(name),
    ensures
        gives_flag(name, name),
        flag_value(name, Some(text), name) == Some(text),
        gives_flag(name + "="@ + text, name),
        name + "="@ + text != name,
        flag_value(name + "="@ + text, next, name) == Some(text),
{
    reveal_strlit("=");
    prefixes_are_taken_off(name + "="@ + text, name + "="@, text);
    assert((name + "="@ + text).len() > name.len());
}

/// The flag of the port sets it, and marks it as given; a text that is no port is
/// refused.
pub proof fn port_flag_sets_the_port(
    text: Seq<char>,
    next: Option<Seq<char>>,
    arg_ipv6: Option<Seq<char>>,
    next_ipv6: Option<Seq<char>>,
    options: DefaultServiceLaunchView,
)
    ensures
        match unsigned_value(text, 65535) {
            Some(port) => {
                let after = DefaultServiceLaunchView {
                    port: port as u16,
                    port_explicit: true,
                    ..options
                };
                &&& launch_step("-p"@, Some(text), arg_ipv6, next_ipv6, options) == Some(
                    (true, after),
                )
                &&& launch_step("--port"@, Some(text), arg_ipv6, next_ipv6, options) == Some(
                    (true, after),
                )
                &&& launch_step("--port"@ + "="@ + text, next, arg_ipv6, next_ipv6, options)
                    == Some((false, after))
            },
            None => {
                &&& launch_step("-p"@, Some(text), arg_ipv6, next_ipv6, options) is None
                &&& launch_step("--port"@, Some(text), arg_ipv6, next_ipv6, options) is None
                &&& launch_step(
                    "--port"@ + "="@ + text,
                    next,
                    arg_ipv6,
                    next_ipv6,
                    options,
                ) is None
            },
        },
{
    let name = "--port"@;
    lemma_flag_forms(name, text, next);
    lemma_only_flag(name, name);
    lemma_only_flag(name + "="@ + text, name);
}

/// The flag of the interface sets it to the address that its value gives; a text
/// that is no address is refused.
pub proof fn bind_flag_sets_the_interface(
    text: Seq<char>,
    next: Option<Seq<char>>,
    arg_ipv6: Option<Seq<char>>,
    next_ipv6: Option<Seq<char>>,
    options: DefaultServiceLaunchView,
)
    ensures
        match ip_of(text, next_ipv6) {
            Some(bind) => launch_step("--bind"@, Some(text), arg_ipv6, next_ipv6, options) == Some(
                (true, (DefaultServiceLaunchView { bind, ..options })),
            ),
            None => launch_step("--bind"@, Some(text), arg_ipv6, next_ipv6, options) is None,
        },
        match ip_of(text, arg_ipv6) {
            Some(bind) => launch_step(
                "--bind"@ + "="@ + text,
                next,
                arg_ipv6,
                next_ipv6,
                options,
            ) == Some((false, (DefaultServiceLaunchView { bind, ..options }))),
            None => launch_step(
                "--bind"@ + "="@ + text,
                next,
                arg_ipv6,
                next_ipv6,
                options,
            ) is None,
        },
{
    let name = "--bind"@;
    lemma_flag_forms(name, text, next);
    lemma_flag_literals();
    lemma_only_flag(name, name);
    lemma_only_flag(name + "="@ + text, name);
}

proof fn lemma_flag_literals()
    ensures
        "--port"@[2] == 'p' && "--port"@.len() == 6,
        "--bind"@[2] == 'b' && "--bind"@.len() == 6,
        "--open"@[2] == 'o' && "--open"@.len() == 6,
        "--advertise-host"@.len() == 16 && "--advertise-host"@[2] == 'a',
        "--stream-quality"@.len() == 16 && "--stream-quality"@[2] == 's',
        "--client-root"@.len() == 13 && "--client-root"@[2] == 'c',
        "--video-codec"@.len() == 13 && "--video-codec"@[2] == 'v',
        "--android-gpu"@.len() == 13 && "--android-gpu"@[2] == 'a',
        "--low-latency"@.len() == 13 && "--low-latency"@[2] == 'l',
        "--local-stream-fps"@.len() == 18,
        "--autostart"@.len() == 11,
        "-p"@.len() == 2 && "-p"@[1] == 'p',
        "-a"@.len() == 2 && "-a"@[1] == 'a',
        !"--open"@.contains('=') && !"--low-latency"@.contains('=') && !"--autostart"@.contains('=')
            && !"-a"@.contains('='),
{
    reveal_strlit("--port");
    reveal_strlit("--bind");
    reveal_strlit("--open");
    reveal_strlit("--advertise-host");
    reveal_strlit("--stream-quality");
    reveal_strlit("--client-root");
    reveal_strlit("--video-codec");
    reveal_strlit("--android-gpu");
    reveal_strlit("--low-latency");
    reveal_strlit("--local-stream-fps");
    reveal_strlit("--autostart");
    reveal_strlit("-p");
    reveal_strlit("-a");
}

/// The flags of the advertised host and of the client set what they are given.
pub proof fn text_flags_set_their_texts(
    text: Seq<char>,
    next: Option<Seq<char>>,
    arg_ipv6: Option<Seq<char>>,
    next_ipv6: Option<Seq<char>>,
    options: DefaultServiceLaunchView,
)
    ensures
        ({
            let hosted = DefaultServiceLaunchView { advertise_host: Some(text), ..options };
            let rooted = DefaultServiceLaunchView { client_root: Some(text), ..options };
            &&& launch_step("--advertise-host"@, Some(text), arg_ipv6, next_ipv6, options) == Some(
                (true, hosted),
            )
            &&& launch_step(
                "--advertise-host"@ + "="@ + text,
                next,
                arg_ipv6,
                next_ipv6,
                options,
            ) == Some((false, hosted))
            &&& launch_step("--client-root"@, Some(text), arg_ipv6, next_ipv6, options) == Some(
                (true, rooted),
            )
            &&& launch_step(
                "--client-root"@ + "="@ + text,
                next,
                arg_ipv6,
                next_ipv6,
                options,
            ) == Some((false, rooted))
        }),
{
    lemma_flag_literals();
    lemma_flag_forms("--advertise-host"@, text, next);
    lemma_only_flag("--advertise-host"@, "--advertise-host"@);
    lemma_only_flag("--advertise-host"@ + "="@ + text, "--advertise-host"@);
    lemma_flag_forms("--client-root"@, text, next);
    lemma_only_flag("--client-root"@, "--client-root"@);
    lemma_only_flag("--client-root"@ + "="@ + text, "--client-root"@);
}

/// The flags of the codec, of the emulator's mode, of the quality and of the frame
/// rate set the mode or the number that their values name, and refuse any other
/// value. A frame rate is a number from 15 to 240.
pub proof fn mode_flags_set_their_modes(
    text: Seq<char>,
    next: Option<Seq<char>>,
    arg_ipv6: Option<Seq<char>>,
    next_ipv6: Option<Seq<char>>,
    options: DefaultServiceLaunchView,
)
    ensures
        match video_codec_mode(text) {
            Some(video_codec) => {
                let after = DefaultServiceLaunchView { video_codec, ..options };
                &&& launch_step("--video-codec"@, Some(text), arg_ipv6, next_ipv6, options) == Some(
                    (true, after),
                )
                &&& launch_step(
                    "--video-codec"@ + "="@ + text,
                    next,
                    arg_ipv6,
                    next_ipv6,
                    options,
                ) == Some((false, after))
            },
            None => launch_step(
                "--video-codec"@,
                Some(text),
                arg_ipv6,
                next_ipv6,
                options,
            ) is None,
        },
        match android_gpu_mode(text) {
            Some(android_gpu) => {
                let after = DefaultServiceLaunchView { android_gpu, ..options };
                &&& launch_step("--android-gpu"@, Some(text), arg_ipv6, next_ipv6, options) == Some(
                    (true, after),
                )
                &&& launch_step(
                    "--android-gpu"@ + "="@ + text,
                    next,
                    arg_ipv6,
                    next_ipv6,
                    options,
                ) == Some((false, after))
            },
            None => launch_step(
                "--android-gpu"@,
                Some(text),
                arg_ipv6,
                next_ipv6,
                options,
            ) is None,
        },
        match stream_quality_profile(text) {
            Some(profile) => {
                let after = DefaultServiceLaunchView { stream_quality: Some(profile), ..options };
                &&& launch_step("--stream-quality"@, Some(text), arg_ipv6, next_ipv6, options)
                    == Some((true, after))
                &&& launch_step(
                    "--stream-quality"@ + "="@ + text,
                    next,
                    arg_ipv6,
                    next_ipv6,
                    options,
                ) == Some((false, after))
            },
            None => launch_step(
                "--stream-quality"@,
                Some(text),
                arg_ipv6,
                next_ipv6,
                options,
            ) is None,
        },
        match unsigned_value(text, u32::MAX as nat) {
            Some(fps) if 15 <= fps <= 240 => {
                let after = DefaultServiceLaunchView {
                    local_stream_fps: Some(fps as u32),
                    ..options
                };
                &&& launch_step("--local-stream-fps"@, Some(text), arg_ipv6, next_ipv6, options)
                    == Some((true, after))
                &&& launch_step(
                    "--local-stream-fps"@ + "="@ + text,
                    next,
                    arg_ipv6,
                    next_ipv6,
                    options,
                ) == Some((false, after))
            },
            _ => launch_step(
                "--local-stream-fps"@,
                Some(text),
                arg_ipv6,
                next_ipv6,
                options,
            ) is None,
        },
{
    lemma_flag_literals();
    lemma_flag_forms("--video-codec"@, text, next);
    lemma_only_flag("--video-codec"@, "--video-codec"@);
    lemma_only_flag("--video-codec"@ + "="@ + text, "--video-codec"@);
    lemma_flag_forms("--android-gpu"@, text, next);
    lemma_only_flag("--android-gpu"@, "--android-gpu"@);
    lemma_only_flag("--android-gpu"@ + "="@ + text, "--android-gpu"@);
    lemma_flag_forms("--stream-quality"@, text, next);
    lemma_only_flag("--stream-quality"@, "--stream-quality"@);
    lemma_only_flag("--stream-quality"@ + "="@ + text, "--stream-quality"@);
    lemma_flag_forms("--local-stream-fps"@, text, next);
    lemma_only_flag("--local-stream-fps"@, "--local-stream-fps"@);
    lemma_only_flag("--local-stream-fps"@ + "="@ + text, "--local-stream-fps"@);
}

/// A flag without a value gives none of those that take one.
proof fn lemma_switch(arg: Seq<char>)
    requires
        !arg.contains('='),
        !takes_value(arg),
    ensures
        forall|name: Seq<char>| takes_value(name) ==> !#[trigger] gives_flag(arg, name),
{
    reveal_strlit("=");
    assert forall|name: Seq<char>| takes_value(name) implies !#[trigger] gives_flag(arg, name) by {
        if has_prefix(arg, name + "="@) {
            let start = name + "="@;
            assert(arg.subrange(0, start.len() as int) == start);
            assert(start[name.len() as int] == '=');
            assert(arg[name.len() as int] == '=');
        }
    }
}

/// The flags without a value turn on what they name, take nothing of what follows
/// them, and leave the rest as it is; any other text that starts with a dash and is
/// no flag is refused.
pub proof fn switches_turn_on_what_they_name(
    arg: Seq<char>,
    next: Option<Seq<char>>,
    arg_ipv6: Option<Seq<char>>,
    next_ipv6: Option<Seq<char>>,
    options: DefaultServiceLaunchView,
)
    requires
        !arg.contains('='),
        !takes_value(arg),
        arg != "-p"@,
    ensures
        arg == "-a"@ || arg == "--autostart"@ ==> launch_step(
            arg,
            next,
            arg_ipv6,
            next_ipv6,
            options,
        ) == Some((false, (DefaultServiceLaunchView { autostart: true, ..options }))),
        arg == "--open"@ ==> launch_step(arg, next, arg_ipv6, next_ipv6, options) == Some(
            (false, (DefaultServiceLaunchView { open: true, ..options })),
        ),
        arg == "--low-latency"@ ==> launch_step(arg, next, arg_ipv6, next_ipv6, options) == Some(
            (false, (DefaultServiceLaunchView { low_latency: true, ..options })),
        ),
        has_prefix(arg, "-"@) && arg != "-a"@ && arg != "--autostart"@ && arg != "--open"@ && arg
            != "--low-latency"@ ==> launch_step(arg, next, arg_ipv6, next_ipv6, options) is None,
{
    lemma_switch(arg);
    lemma_flag_literals();
}

/// The arguments are taken one after the other: once the first is taken, together
/// with its value where that stands in the next one, the rest are taken as they
/// would be by themselves.
pub proof fn arguments_are_taken_in_order(
    args: Seq<Seq<char>>,
    ipv6: Seq<Option<String>>,
    options: DefaultServiceLaunchView,
    took_next: bool,
    after: DefaultServiceLaunchView,
)
    requires
        args.len() > 0,
        ipv6.len() == args.len(),
        launch_step(
            args[0],
            element(args, 1),
            option_view(ipv6[0]),
            optional_element(ipv6, 1),
            options,
        ) == Some((took_next, after)),
    ensures
        !took_next ==> launch_from(args, ipv6, 0, options) == launch_from(
            args.skip(1),
            ipv6.skip(1),
            0,
            after,
        ),
        took_next && args.len() >= 2 ==> launch_from(args, ipv6, 0, options) == launch_from(
            args.skip(2),
            ipv6.skip(2),
            0,
            after,
        ),
{
    if !took_next {
        lemma_launch_skip(args, ipv6, 1, 1, after);
    } else if args.len() >= 2 {
        lemma_launch_skip(args, ipv6, 2, 2, after);
    }
}

proof fn lemma_launch_skip(
    args: Seq<Seq<char>>,
    ipv6: Seq<Option<String>>,
    skipped: int,
    i: int,
    options: DefaultServiceLaunchView,
)
    requires
        0 <= skipped <= i,
        skipped <= args.len(),
        ipv6.len() == args.len(),
    ensures
        launch_from(args, ipv6, i, options) == launch_from(
            args.skip(skipped),
            ipv6.skip(skipped),
            i - skipped,
            options,
        ),
    decreases args.len() + 1 - i,
{
    let rest = args.skip(skipped);
    let forms = ipv6.skip(skipped);
    if i < args.len() {
        assert(rest[i - skipped] == args[i]);
        assert(element(rest, i - skipped + 1) == element(args, i + 1));
        assert(optional_element(forms, i - skipped) == optional_element(ipv6, i));
        assert(optional_element(forms, i - skipped + 1) == optional_element(ipv6, i + 1));
        match launch_step(
            args[i],
            element(args, i + 1),
            optional_element(ipv6, i),
            optional_element(ipv6, i + 1),
            options,
        ) {
            Some((took_next, after)) => {
                lemma_launch_skip(
                    args,
                    ipv6,
                    skipped,
                    i + if took_next {
                        2int
                    } else {
                        1int
                    },
                    after,
                );
            },
            None => {},
        }
    }
}

/// No command starts with a dash.
#[verifier::rlimit(60)]
proof fn lemma_commands_are_words(value: Seq<char>)
    requires
        known_command(value) || value == "serve"@,
    ensures
        value.len() > 0,
        value[0] != '-',
{
    reveal_strlit("serve");
    reveal_strlit("daemon");
    reveal_strlit("ui");
    reveal_strlit("kill");
    reveal_strlit("killall");
    reveal_strlit("studio");
    reveal_strlit("provider");
    reveal_strlit("camera");
    reveal_strlit("record");
    reveal_strlit("snapshot");
    reveal_strlit("press");
    reveal_strlit("wait-for");
    reveal_strlit("wait");
    reveal_strlit("assert");
    reveal_strlit("link");
    reveal_strlit("pair");
    reveal_strlit("maestro");
    reveal_strlit("service");
    reveal_strlit("core-simulator");
    reveal_strlit("simctl-service");
    reveal_strlit("list");
    reveal_strlit("use");
    reveal_strlit("boot");
    reveal_strlit("shutdown");
    reveal_strlit("open-url");
    reveal_strlit("launch");
    reveal_strlit("toggle-appearance");
    reveal_strlit("erase");
    reveal_strlit("install");
    reveal_strlit("uninstall");
    reveal_strlit("pasteboard");
    reveal_strlit("logs");
    reveal_strlit("processes");
    reveal_strlit("stats");
    reveal_strlit("sample");
    reveal_strlit("screenshot");
    reveal_strlit("describe");
    reveal_strlit("touch");
    reveal_strlit("tap");
    reveal_strlit("back");
    reveal_strlit("swipe");
    reveal_strlit("gesture");
    reveal_strlit("pinch");
    reveal_strlit("rotate-gesture");
    reveal_strlit("key");
    reveal_strlit("key-sequence");
    reveal_strlit("key-combo");
    reveal_strlit("type");
    reveal_strlit("button");
    reveal_strlit("crown");
    reveal_strlit("batch");
    reveal_strlit("dismiss-keyboard");
    reveal_strlit("home");
    reveal_strlit("app-switcher");
    reveal_strlit("rotate-left");
    reveal_strlit("rotate-right");
    reveal_strlit("chrome-profile");
    reveal_strlit("help");
}

/// A flag with its value asks for the default service with what the flag sets.
pub proof fn one_flag_changes_one_option(
    name: Seq<char>,
    text: Seq<char>,
    ipv6: Seq<Option<String>>,
    after: DefaultServiceLaunchView,
)
    requires
        name.len() > 0,
        name[0] == '-',
        ipv6.len() == 2,
        launch_step(
            name,
            Some(text),
            option_view(ipv6[0]),
            option_view(ipv6[1]),
            default_launch(),
        ) == Some((true, after)),
    ensures
        launch_of(seq![name, text], ipv6) == Some(after),
{
    let args = seq![name, text];
    if known_command(name) || name == "serve"@ {
        lemma_commands_are_words(name);
    }
    assert(args[0] == name);
    assert(element(args, 1) == Some(text));
    assert(optional_element(ipv6, 0) == option_view(ipv6[0]));
    assert(optional_element(ipv6, 1) == option_view(ipv6[1]));
    arguments_are_taken_in_order(args, ipv6, default_launch(), true, after);
    assert(args.skip(2).len() == 0);
}

/// A service that is not told otherwise is reached from the machine itself alone,
/// at its usual port; it chooses its codec by itself, and the emulator draws with
/// the host's GPU.
pub proof fn default_service_is_local()
    ensures
        default_launch().bind.loopback(),
        !default_launch().bind.unspecified(),
        default_launch().bind.text() == "127.0.0.1"@,
        default_launch().port == 4310,
        !default_launch().port_explicit,
        default_launch().video_codec is Auto,
        default_launch().android_gpu is Host,
        !default_launch().low_latency && !default_launch().open && !default_launch().autostart,
        default_launch().selector is None && default_launch().advertise_host is None,
        default_launch().client_root is None && default_launch().stream_quality is None,
        default_launch().local_stream_fps is None,
{
    reveal_strlit("127.0.0.1");
    reveal_strlit(".");
    reveal_with_fuel(decimal, 4);
    assert(decimal(127) =~= seq!['1', '2', '7']);
    assert(decimal(0) =~= seq!['0']);
    assert(decimal(1) =~= seq!['1']);
    assert(default_launch().bind.text() =~= "127.0.0.1"@);
}

/// The contracts see all of the options of a call, each as what it is.
pub proof fn default_options_are_seen_whole(options: DefaultServiceLaunchOptions)
    ensures
        options@.selector == option_view(options.selector),
        options@.port == options.port,
        options@.bind == options.bind@,
        options@.advertise_host == option_view(options.advertise_host),
        options@.client_root == option_view(options.client_root),
        options@.video_codec == options.video_codec,
        options@.android_gpu == options.android_gpu,
        options@.low_latency == options.low_latency,
        options@.stream_quality == options.stream_quality,
        options@.local_stream_fps == options.local_stream_fps,
        options@.open == options.open,
        options@.autostart == options.autostart,
        options@.port_explicit == options.port_explicit,
{
}

/// The commands about the service, its pairing and the program itself.
pub open spec fn service_words() -> Seq<Seq<char>> {
    seq![
        "service"@,
        "daemon"@,
        "core-simulator"@,
        "simctl-service"@,
        "pair"@,
        "link"@,
        "maestro"@,
        "studio"@,
        "provider"@,
        "ui"@,
        "kill"@,
        "killall"@,
        "help"@,
    ]
}

/// The commands about devices, their apps and what they record.
pub open spec fn device_words() -> Seq<Seq<char>> {
    seq![
        "list"@,
        "use"@,
        "boot"@,
        "shutdown"@,
        "erase"@,
        "install"@,
        "uninstall"@,
        "launch"@,
        "open-url"@,
        "toggle-appearance"@,
        "pasteboard"@,
        "logs"@,
        "processes"@,
        "stats"@,
        "sample"@,
        "chrome-profile"@,
        "camera"@,
        "record"@,
        "screenshot"@,
    ]
}

/// The commands that look at a screen.
pub open spec fn screen_words() -> Seq<Seq<char>> {
    seq![
        "describe"@,
        "snapshot"@,
        "wait-for"@,
        "wait"@,
        "assert"@,
        "batch"@,
    ]
}

/// The commands that act on a screen.
pub open spec fn input_words() -> Seq<Seq<char>> {
    seq![
        "touch"@,
        "tap"@,
        "press"@,
        "back"@,
        "swipe"@,
        "gesture"@,
        "pinch"@,
        "rotate-gesture"@,
        "key"@,
        "key-sequence"@,
        "key-combo"@,
        "type"@,
        "button"@,
        "crown"@,
        "dismiss-keyboard"@,
        "home"@,
        "app-switcher"@,
        "rotate-left"@,
        "rotate-right"@,
    ]
}

/// The words that are taken for a command are these, and no others; none of them, nor
/// `serve`, makes sure of a service or selects a simulator, whatever follows it.
#[verifier::rlimit(60)]
pub proof fn commands_are_known_by_their_names(
    word: Seq<char>,
    rest: Seq<Seq<char>>,
    ipv6: Seq<Option<String>>,
)
    ensures
        known_command(word) <==> service_words().contains(word) || device_words().contains(word)
            || screen_words().contains(word) || input_words().contains(word),
        known_command(word) || word == "serve"@ ==> launch_of(seq![word] + rest, ipv6) is None,
{
    let service = service_words();
    assert(service[0] == "service"@);
    assert(service[1] == "daemon"@);
    assert(service[2] == "core-simulator"@);
    assert(service[3] == "simctl-service"@);
    assert(service[4] == "pair"@);
    assert(service[5] == "link"@);
    assert(service[6] == "maestro"@);
    assert(service[7] == "studio"@);
    assert(service[8] == "provider"@);
    assert(service[9] == "ui"@);
    assert(service[10] == "kill"@);
    assert(service[11] == "killall"@);
    assert(service[12] == "help"@);
    let device = device_words();
    assert(device[0] == "list"@);
    assert(device[1] == "use"@);
    assert(device[2] == "boot"@);
    assert(device[3] == "shutdown"@);
    assert(device[4] == "erase"@);
    assert(device[5] == "install"@);
    assert(device[6] == "uninstall"@);
    assert(device[7] == "launch"@);
    assert(device[8] == "open-url"@);
    assert(device[9] == "toggle-appearance"@);
    assert(device[10] == "pasteboard"@);
    assert(device[11] == "logs"@);
    assert(device[12] == "processes"@);
    assert(device[13] == "stats"@);
    assert(device[14] == "sample"@);
    assert(device[15] == "chrome-profile"@);
    assert(device[16] == "camera"@);
    assert(device[17] == "record"@);
    assert(device[18] == "screenshot"@);
    let screen = screen_words();
    assert(screen[0] == "describe"@);
    assert(screen[1] == "snapshot"@);
    assert(screen[2] == "wait-for"@);
    assert(screen[3] == "wait"@);
    assert(screen[4] == "assert"@);
    assert(screen[5] == "batch"@);
    let input = input_words();
    assert(input[0] == "touch"@);
    assert(input[1] == "tap"@);
    assert(input[2] == "press"@);
    assert(input[3] == "back"@);
    assert(input[4] == "swipe"@);
    assert(input[5] == "gesture"@);
    assert(input[6] == "pinch"@);
    assert(input[7] == "rotate-gesture"@);
    assert(input[8] == "key"@);
    assert(input[9] == "key-sequence"@);
    assert(input[10] == "key-combo"@);
    assert(input[11] == "type"@);
    assert(input[12] == "button"@);
    assert(input[13] == "crown"@);
    assert(input[14] == "dismiss-keyboard"@);
    assert(input[15] == "home"@);
    assert(input[16] == "app-switcher"@);
    assert(input[17] == "rotate-left"@);
    assert(input[18] == "rotate-right"@);
    assert((seq![word] + rest)[0] == word);
}

} // verus!
