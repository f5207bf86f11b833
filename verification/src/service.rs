//! The service as a LaunchAgent: what is installed, and what enabling,
//! restarting, resetting, pairing and disabling it come to.
use vstd::prelude::*;

use crate::arguments::{
    argument_of, argument_value, push_text, values_stand_behind_the_first_name,
};
use crate::auth::{generate_access_token, generate_pairing_code, Entropy};
use crate::error::SimdeckError;
use crate::launch::SERVICE_PORT;
use crate::launch_agent::{
    enable_action, enable_action_for_installed_arguments, environment_entries,
    installed_arguments_match_their_options, is_flag_name, options_match, plain_option, plain_value,
    plist_contents, plist_text, program_argument_list, LaunchEnvironment, ServiceEnableAction,
    ServiceOptions, ServiceOptionsView, SERVICE_LABEL,
};
use crate::numbers::{
    decimal, decimal_is_injective, decimal_reads_back, decimal_text, is_digit, lemma_decimal_digits,
    parse_u16, parse_u32, unsigned_value,
};
use crate::paths::{join_path, path_below};
use crate::plist_guard::{plist_reads_safely, reads_safely};
use crate::text::{
    clone_option, has_prefix, join, joined, lemma_already_trimmed, lemma_trimmed_padding, lines,
    lines_of, option_view, owned, prefixes_are_taken_off, strip_prefix, trim, trimmed,
    trimmed_start, views, white_space, without_prefix,
};

verus! {

/// How long a service is given to end after it was asked to, in milliseconds.
pub const SERVICE_SHUTDOWN_GRACE_MS: u64 = 750;

/// How long a service is waited for after it was killed, in milliseconds.
pub const SERVICE_KILL_GRACE_MS: u64 = 500;

/// What the library has to know of the machine and its user.
#[derive(Debug)]
pub struct Host {
    /// The system has LaunchAgents.
    pub launch_agents: bool,
    /// The user's number; 0 is the superuser.
    pub uid: u32,
    /// The user's home directory.
    pub home: Option<String>,
}

/// A LaunchAgent that is installed and running.
#[derive(Debug)]
pub struct ServiceInstallResult {
    pub service: String,
    pub plist_path: String,
    pub executable_path: String,
    pub stdout_log: String,
    pub stderr_log: String,
    pub port: u16,
    pub advertise_host: Option<String>,
    pub access_token: Option<String>,
    pub pairing_code: Option<String>,
    pub reused: bool,
}

/// A LaunchAgent as the contracts speak of it.
pub struct ServiceInstallView {
    pub service: Seq<char>,
    pub plist_path: Seq<char>,
    pub executable_path: Seq<char>,
    pub stdout_log: Seq<char>,
    pub stderr_log: Seq<char>,
    pub port: u16,
    pub advertise_host: Option<Seq<char>>,
    pub access_token: Option<Seq<char>>,
    pub pairing_code: Option<Seq<char>>,
    pub reused: bool,
}

impl View for ServiceInstallResult {
    type V = ServiceInstallView;

    open spec fn view(&self) -> ServiceInstallView {
        ServiceInstallView {
            service: self.service@,
            plist_path: self.plist_path@,
            executable_path: self.executable_path@,
            stdout_log: self.stdout_log@,
            stderr_log: self.stderr_log@,
            port: self.port,
            advertise_host: option_view(self.advertise_host),
            access_token: option_view(self.access_token),
            pairing_code: option_view(self.pairing_code),
            reused: self.reused,
        }
    }
}

/// The credentials that an installed service was given.
#[derive(Debug)]
pub struct ServiceCredentials {
    pub access_token: Option<String>,
    pub pairing_code: Option<String>,
}

/// Whether the credentials of an installed service are kept.
#[derive(Clone, Copy, Debug, PartialEq, Eq, Structural)]
pub enum CredentialPolicy {
    Preserve,
    Reset,
}

/// A credential: the given one, else the installed one where the policy keeps
/// it, else a new one.
pub open spec fn chosen_credential(
    given: Option<Seq<char>>,
    installed: Option<Seq<char>>,
    policy: CredentialPolicy,
    generated: Seq<char>,
) -> Option<Seq<char>> {
    if given is Some {
        given
    } else if policy == CredentialPolicy::Preserve && installed is Some {
        installed
    } else {
        Some(generated)
    }
}

/// The token of installed credentials.
pub open spec fn installed_token(existing: Option<&ServiceCredentials>) -> Option<Seq<char>> {
    match existing {
        Some(credentials) => option_view(credentials.access_token),
        None => None,
    }
}

/// The pairing code of installed credentials.
pub open spec fn installed_code(existing: Option<&ServiceCredentials>) -> Option<Seq<char>> {
    match existing {
        Some(credentials) => option_view(credentials.pairing_code),
        None => None,
    }
}

/// The options with the credentials that a policy gives them.
pub open spec fn with_credentials(
    options: ServiceOptionsView,
    token: Option<Seq<char>>,
    code: Option<Seq<char>>,
    policy: CredentialPolicy,
    entropy: Entropy,
) -> ServiceOptionsView {
    ServiceOptionsView {
        access_token: chosen_credential(
            options.access_token,
            token,
            policy,
            entropy.access_token(),
        ),
        pairing_code: chosen_credential(
            options.pairing_code,
            code,
            policy,
            entropy.pairing_code(),
        ),
        ..options
    }
}

pub fn apply_credentials(
    options: &mut ServiceOptions,
    existing: Option<&ServiceCredentials>,
    policy: CredentialPolicy,
    entropy: &Entropy,
)
    ensures
        final(options)@ == with_credentials(
            old(options)@,
            installed_token(existing),
            installed_code(existing),
            policy,
            *entropy,
        ),
{
    let keep = policy == CredentialPolicy::Preserve;
    if options.access_token.is_none() {
        let mut token: Option<String> = None;
        if keep {
            if let Some(credentials) = existing {
                token = clone_option(&credentials.access_token);
            }
        }
        options.access_token = match token {
            Some(kept) => Some(kept),
            None => Some(generate_access_token(entropy)),
        };
    }
    if options.pairing_code.is_none() {
        let mut code: Option<String> = None;
        if keep {
            if let Some(credentials) = existing {
                code = clone_option(&credentials.pairing_code);
            }
        }
        options.pairing_code = match code {
            Some(kept) => Some(kept),
            None => Some(generate_pairing_code(entropy)),
        };
    }
}

/// Credentials that were given win over installed ones, whatever the policy.
pub proof fn given_credentials_win(
    options: ServiceOptionsView,
    token: Option<Seq<char>>,
    code: Option<Seq<char>>,
    policy: CredentialPolicy,
    entropy: Entropy,
)
    requires
        options.access_token is Some,
        options.pairing_code is Some,
    ensures
        with_credentials(options, token, code, policy, entropy) == options,
{
}

/// A reset takes no account of installed credentials.
pub proof fn reset_ignores_installed_credentials(
    options: ServiceOptionsView,
    token: Option<Seq<char>>,
    code: Option<Seq<char>>,
    entropy: Entropy,
)
    ensures
        with_credentials(options, token, code, CredentialPolicy::Reset, entropy)
            == with_credentials(options, None, None, CredentialPolicy::Reset, entropy),
{
}

/// What is installed with credentials is preserved: applying them a second
/// time, with other random values, changes nothing.
pub proof fn preserved_credentials_are_stable(
    options: ServiceOptionsView,
    token: Option<Seq<char>>,
    code: Option<Seq<char>>,
    policy: CredentialPolicy,
    entropy: Entropy,
    later: Entropy,
)
    ensures
        ({
            let first = with_credentials(options, token, code, policy, entropy);
            with_credentials(
                options,
                first.access_token,
                first.pairing_code,
                CredentialPolicy::Preserve,
                later,
            ) == first
        }),
{
}

/// The text of the refusal to work as the superuser.
pub open spec fn root_refusal() -> Seq<char> {
    "SimDeck LaunchAgent commands must be run as your logged-in user, not with sudo. Re-run without sudo so launchctl can target your gui session."@
}

/// The text of the refusal to work without LaunchAgents.
pub open spec fn unsupported_refusal() -> Seq<char> {
    "SimDeck persistent LaunchAgent services are only available on macOS."@
}

pub fn ensure_not_root(host: &Host) -> (result: Result<(), SimdeckError>)
    ensures
        match result {
            Ok(_) => host.uid != 0,
            Err(error) => host.uid == 0 && error.text() == root_refusal(),
        },
{
    if host.uid == 0 {
        return Err(
            SimdeckError::from_text(
                "SimDeck LaunchAgent commands must be run as your logged-in user, not with sudo. Re-run without sudo so launchctl can target your gui session.",
            ),
        );
    }
    Ok(())
}

/// Why LaunchAgents cannot be worked with, if they cannot.
pub open spec fn launch_agent_refusal(host: Host) -> Option<Seq<char>> {
    if !host.launch_agents {
        Some(unsupported_refusal())
    } else if host.uid == 0 {
        Some(root_refusal())
    } else {
        None
    }
}

pub fn ensure_launch_agent_supported(host: &Host) -> (result: Result<(), SimdeckError>)
    ensures
        match result {
            Ok(_) => launch_agent_refusal(*host) is None,
            Err(error) => launch_agent_refusal(*host) == Some(error.text()),
        },
{
    if !host.launch_agents {
        return Err(
            SimdeckError::from_text(
                "SimDeck persistent LaunchAgent services are only available on macOS.",
            ),
        );
    }
    ensure_not_root(host)
}

/// The user's home directory.
pub fn home_dir(host: &Host) -> (result: Result<&str, SimdeckError>)
    ensures
        match result {
            Ok(home) => option_view(host.home) == Some(home@),
            Err(error) => host.home is None && error.text() == "HOME is not set"@,
        },
{
    match &host.home {
        Some(home) => Ok(home.as_str()),
        None => Err(SimdeckError::from_text("HOME is not set")),
    }
}

/// The path of the property list of a LaunchAgent.
pub open spec fn label_plist_path(home: Seq<char>, label: Seq<char>) -> Seq<char> {
    path_below(path_below(home, "Library/LaunchAgents"@, false), label + ".plist"@, false)
}

pub fn plist_path_for_label(host: &Host, label: &str) -> (result: Result<String, SimdeckError>)
    ensures
        match result {
            Ok(path) => host.home is Some && path@ == label_plist_path(host.home->Some_0@, label@),
            Err(error) => host.home is None && error.text() == "HOME is not set"@,
        },
{
    match home_dir(host) {
        Ok(home) => {
            let directory = join_path(home, "Library/LaunchAgents", false);
            let mut name = owned(label);
            name.append(".plist");
            Ok(join_path(directory.as_str(), name.as_str(), false))
        },
        Err(error) => Err(error),
    }
}

/// The directory of the service's logs.
pub open spec fn log_directory(home: Seq<char>) -> Seq<char> {
    path_below(home, "Library/Logs"@, false)
}

pub fn log_dir(host: &Host) -> (result: Result<String, SimdeckError>)
    ensures
        match result {
            Ok(path) => host.home is Some && path@ == log_directory(host.home->Some_0@),
            Err(error) => host.home is None && error.text() == "HOME is not set"@,
        },
{
    match home_dir(host) {
        Ok(home) => Ok(join_path(home, "Library/Logs", false)),
        Err(error) => Err(error),
    }
}

/// The domain of the user's LaunchAgents.
pub open spec fn domain_text(uid: u32) -> Seq<char> {
    "gui/"@ + decimal(uid as nat)
}

pub fn launchctl_domain(host: &Host) -> (domain: String)
    ensures
        domain@ == domain_text(host.uid),
{
    let mut domain = owned("gui/");
    domain.append(decimal_text(host.uid as u64).as_str());
    domain
}

/// Reads the user's number in what `id -u` prints.
pub fn parse_uid(output: &str) -> (uid: Option<u32>)
    ensures
        match uid {
            Some(number) => unsigned_value(trimmed(output@), u32::MAX as nat) == Some(
                number as nat,
            ),
            None => unsigned_value(trimmed(output@), u32::MAX as nat) is None,
        },
{
    let text = trim(output);
    parse_u32(text.as_str())
}

/// The process that a line of `launchctl print` names.
pub open spec fn launchctl_pid(line: Seq<char>) -> Option<u32> {
    match without_prefix(trimmed(line), "pid = "@) {
        Some(rest) => match unsigned_value(trimmed(rest), u32::MAX as nat) {
            Some(pid) => Some(pid as u32),
            None => None,
        },
        None => None,
    }
}

pub fn parse_launchctl_pid(line: &str) -> (pid: Option<u32>)
    ensures
        pid == launchctl_pid(line@),
{
    let text = trim(line);
    match strip_prefix(text.as_str(), "pid = ") {
        Some(rest) => {
            let number = trim(rest.as_str());
            parse_u32(number.as_str())
        },
        None => None,
    }
}

/// The process that the first line to name one names.
pub open spec fn first_launchctl_pid(lines: Seq<Seq<char>>) -> Option<u32>
    decreases lines.len(),
{
    if lines.len() == 0 {
        None
    } else if launchctl_pid(lines[0]) is Some {
        launchctl_pid(lines[0])
    } else {
        first_launchctl_pid(lines.drop_first())
    }
}

/// Finds the service's process in what `launchctl print` prints.
pub fn launchagent_pid(output: &str) -> (pid: Option<u32>)
    ensures
        pid == first_launchctl_pid(lines_of(output@)),
{
    let all = lines(output);
    let ghost texts = lines_of(output@);
    let mut i: usize = 0;
    assert(texts.skip(0) =~= texts);
    while i < all.len()
        invariant
            i <= all@.len(),
            views(all@) == texts,
            texts == lines_of(output@),
            first_launchctl_pid(texts) == first_launchctl_pid(texts.skip(i as int)),
        decreases all@.len() - i,
    {
        assert(views(all@)[i as int] == all@[i as int]@);
        assert(texts.skip(i as int)[0] == all@[i as int]@);
        assert(texts.skip(i as int).drop_first() =~= texts.skip(i + 1));
        if let Some(pid) = parse_launchctl_pid(all[i].as_str()) {
            return Some(pid);
        }
        i += 1;
    }
    assert(texts.skip(i as int) =~= Seq::empty());
    None
}

/// An error of the property list reader.
#[verifier::external_type_specification]
#[verifier::external_body]
pub struct PlistReadError(plist::Error);

/// What `plist::Value::from_reader` makes of bytes, and there of the array
/// under `key` of the top dictionary: nothing where the bytes are no property
/// list; no array where there is none; else each element, as a text where it
/// is one.
pub uninterp spec fn plist_array(bytes: Seq<u8>, key: Seq<char>) -> Option<
    Option<Seq<Option<Seq<char>>>>,
>;

/// The texts of a list of optional strings.
pub open spec fn option_list_views(list: Seq<Option<String>>) -> Seq<Option<Seq<char>>> {
    list.map_values(|s: Option<String>| option_view(s))
}

/// Reads a property list with `plist::Value::from_reader`, and takes the array
/// under `key` with `as_dictionary`, `get`, `as_array` and `as_string`. The
/// result depends on the bytes and the key alone, and bears a name; what the
/// reader accepts is not said here. The reader panics on a date of the last day
/// of the year 9999 that lies beyond it in UTC, runs out of stack over values that
/// are nested too deep, and out of memory over a binary list that repeats itself:
/// such lists are not handed to it.
#[verifier::external_body]
fn read_plist_array(bytes: &Vec<u8>, key: &str) -> (result: Result<
    Option<Vec<Option<String>>>,
    plist::Error,
>)
    requires
        plist_reads_safely(bytes@),
    ensures
        match result {
            Ok(Some(items)) => plist_array(bytes@, key@) == Some(
                Some(option_list_views(items@)),
            ),
            Ok(None) => plist_array(bytes@, key@) == Some(None::<Seq<Option<Seq<char>>>>),
            Err(_) => plist_array(bytes@, key@) is None,
        },
{
    let value = plist::Value::from_reader(std::io::Cursor::new(bytes))?;
    let array = value.as_dictionary().and_then(|top| top.get(key)).and_then(|v| v.as_array());
    Ok(array.map(|items| items.iter().map(|i| i.as_string().map(str::to_owned)).collect()))
}

/// The texts of a list that holds other things too.
pub open spec fn texts_among(items: Seq<Option<Seq<char>>>) -> Seq<Seq<char>>
    decreases items.len(),
{
    if items.len() == 0 {
        Seq::empty()
    } else {
        match items.last() {
            Some(text) => texts_among(items.drop_last()).push(text),
            None => texts_among(items.drop_last()),
        }
    }
}

/// Keeps the texts of a list that holds other things too.
pub fn keep_texts(items: &Vec<Option<String>>) -> (texts: Vec<String>)
    ensures
        views(texts@) == texts_among(option_list_views(items@)),
{
    let ghost all = option_list_views(items@);
    let mut texts: Vec<String> = Vec::new();
    let mut i: usize = 0;
    assert(all.take(0) =~= Seq::empty());
    assert(views(texts@) =~= Seq::empty());
    while i < items.len()
        invariant
            i <= items@.len(),
            all == option_list_views(items@),
            views(texts@) == texts_among(all.take(i as int)),
        decreases items@.len() - i,
    {
        if let Some(text) = &items[i] {
            push_text(&mut texts, text.as_str());
        }
        i += 1;
        assert(all.take(i as int).drop_last() =~= all.take(i - 1));
        assert(all.take(i as int).last() == option_view(items@[i - 1]));
    }
    assert(all.take(i as int) =~= all);
    texts
}

/// The bytes of an optional file.
pub open spec fn option_bytes(file: Option<&Vec<u8>>) -> Option<Seq<u8>> {
    match file {
        Some(bytes) => Some(bytes@),
        None => None,
    }
}

/// The arguments of the service that a property list installs: nothing where
/// the list cannot be read; no arguments where there is no list, or none in it.
pub open spec fn installed_list(plist: Option<Seq<u8>>) -> Option<Option<Seq<Seq<char>>>> {
    match plist {
        Some(bytes) => if plist_reads_safely(bytes) {
            match plist_array(bytes, "ProgramArguments"@) {
                Some(Some(items)) => Some(Some(texts_among(items))),
                Some(None) => Some(None),
                None => None,
            }
        } else {
            None
        },
        None => Some(None),
    }
}

/// The arguments of the installed service. `plist` is the content of the
/// property list at `plist_path`, where there is one.
pub fn installed_arguments_from_plist(plist: Option<&Vec<u8>>, plist_path: &str) -> (result: Result<
    Option<Vec<String>>,
    SimdeckError,
>)
    ensures
        match result {
            Ok(Some(arguments)) => installed_list(option_bytes(plist)) == Some(
                Some(views(arguments@)),
            ),
            Ok(None) => installed_list(option_bytes(plist)) == Some(None::<Seq<Seq<char>>>),
            Err(error) => installed_list(option_bytes(plist)) is None && error.text() == "read "@
                + plist_path@,
        },
{
    match plist {
        Some(bytes) => {
            if reads_safely(bytes) {
                match read_plist_array(bytes, "ProgramArguments") {
                    Ok(Some(items)) => return Ok(Some(keep_texts(&items))),
                    Ok(None) => return Ok(None),
                    Err(_) => {},
                }
            }
            let mut message = owned("read ");
            message.append(plist_path);
            Err(SimdeckError::new(message))
        },
        None => Ok(None),
    }
}

/// The port among the arguments of a service, where it is a port.
pub open spec fn argument_port(arguments: Seq<Seq<char>>) -> Option<u16> {
    match argument_of(arguments, "--port"@) {
        Some(text) => match unsigned_value(text, u16::MAX as nat) {
            Some(port) => Some(port as u16),
            None => None,
        },
        None => None,
    }
}

pub fn port_argument(arguments: &Vec<String>) -> (port: Option<u16>)
    ensures
        port == argument_port(views(arguments@)),
{
    match argument_value(arguments, "--port") {
        Some(text) => parse_u16(text.as_str()),
        None => None,
    }
}

/// The error of looking at the installed service, if there is one.
pub open spec fn installed_error(host: Host, plist: Option<Seq<u8>>) -> Option<Seq<char>> {
    if host.home is None {
        Some("HOME is not set"@)
    } else if installed_list(plist) is None {
        Some("read "@ + label_plist_path(host.home->Some_0@, SERVICE_LABEL@))
    } else {
        None
    }
}

/// The arguments of the installed service.
pub fn installed_arguments(host: &Host, plist: Option<&Vec<u8>>) -> (result: Result<
    Option<Vec<String>>,
    SimdeckError,
>)
    ensures
        match result {
            Ok(arguments) => {
                &&& installed_error(*host, option_bytes(plist)) is None
                &&& installed_list(option_bytes(plist)) == Some(
                    match arguments {
                        Some(list) => Some(views(list@)),
                        None => None,
                    },
                )
            },
            Err(error) => installed_error(*host, option_bytes(plist)) == Some(error.text()),
        },
{
    match plist_path_for_label(host, SERVICE_LABEL) {
        Ok(path) => installed_arguments_from_plist(plist, path.as_str()),
        Err(error) => Err(error),
    }
}

/// The port of the installed service.
pub fn installed_port(host: &Host, plist: Option<&Vec<u8>>) -> (result: Result<Option<u16>, SimdeckError>)
    ensures
        match result {
            Ok(port) => {
                ||| !host.launch_agents && port is None
                ||| {
                    &&& host.launch_agents && host.uid != 0
                    &&& installed_error(*host, option_bytes(plist)) is None
                    &&& match installed_list(option_bytes(plist)) {
                        Some(Some(arguments)) => port == argument_port(arguments),
                        _ => port is None,
                    }
                }
            },
            Err(error) => {
                &&& host.launch_agents
                &&& if host.uid == 0 {
                    error.text() == root_refusal()
                } else {
                    installed_error(*host, option_bytes(plist)) == Some(error.text())
                }
            },
        },
{
    if !host.launch_agents {
        return Ok(None);
    }
    if let Err(error) = ensure_not_root(host) {
        return Err(error);
    }
    match installed_arguments(host, plist) {
        Ok(Some(arguments)) => Ok(port_argument(&arguments)),
        Ok(None) => Ok(None),
        Err(error) => Err(error),
    }
}

/// The executable that a service was started with.
pub open spec fn executable_of(arguments: Seq<Seq<char>>) -> Seq<char> {
    if arguments.len() > 0 {
        arguments[0]
    } else {
        "simdeck"@
    }
}

pub fn installed_executable_path(arguments: &Vec<String>) -> (path: String)
    ensures
        path@ == executable_of(views(arguments@)),
{
    if arguments.len() > 0 {
        arguments[0].clone()
    } else {
        owned("simdeck")
    }
}

/// The running service that its arguments describe.
pub open spec fn running_service(home: Seq<char>, arguments: Seq<Seq<char>>) -> ServiceInstallView {
    ServiceInstallView {
        service: SERVICE_LABEL@,
        plist_path: label_plist_path(home, SERVICE_LABEL@),
        executable_path: executable_of(arguments),
        stdout_log: path_below(log_directory(home), "simdeck.log"@, false),
        stderr_log: path_below(log_directory(home), "simdeck.err.log"@, false),
        port: match argument_port(arguments) {
            Some(port) => port,
            None => SERVICE_PORT,
        },
        advertise_host: argument_of(arguments, "--advertise-host"@),
        access_token: argument_of(arguments, "--access-token"@),
        pairing_code: argument_of(arguments, "--pairing-code"@),
        reused: true,
    }
}

/// A running service as an optional value.
pub open spec fn option_install_view(result: Option<ServiceInstallResult>) -> Option<
    ServiceInstallView,
> {
    match result {
        Some(service) => Some(service@),
        None => None,
    }
}

/// The service that runs as a LaunchAgent. `pid` is its process, where it has
/// one; `plist` is the content of its property list, where there is one.
pub fn active(host: &Host, pid: Option<u32>, plist: Option<&Vec<u8>>) -> (result: Result<
    Option<ServiceInstallResult>,
    SimdeckError,
>)
    ensures
        match result {
            Ok(service) => {
                ||| !host.launch_agents && service is None
                ||| host.launch_agents && host.uid != 0 && pid is None && service is None
                ||| {
                    &&& host.launch_agents && host.uid != 0 && pid is Some
                    &&& installed_error(*host, option_bytes(plist)) is None
                    &&& option_install_view(service) == match installed_list(option_bytes(plist)) {
                        Some(Some(arguments)) => Some(
                            running_service(host.home->Some_0@, arguments),
                        ),
                        _ => None,
                    }
                }
            },
            Err(error) => {
                &&& host.launch_agents
                &&& if host.uid == 0 {
                    error.text() == root_refusal()
                } else {
                    pid is Some && installed_error(*host, option_bytes(plist)) == Some(error.text())
                }
            },
        },
{
    if !host.launch_agents {
        return Ok(None);
    }
    if let Err(error) = ensure_not_root(host) {
        return Err(error);
    }
    if pid.is_none() {
        return Ok(None);
    }
    let arguments = match installed_arguments(host, plist) {
        Ok(Some(arguments)) => arguments,
        Ok(None) => return Ok(None),
        Err(error) => return Err(error),
    };
    let plist_path = match plist_path_for_label(host, SERVICE_LABEL) {
        Ok(path) => path,
        Err(error) => return Err(error),
    };
    let logs = match log_dir(host) {
        Ok(path) => path,
        Err(error) => return Err(error),
    };
    let port = match port_argument(&arguments) {
        Some(port) => port,
        None => SERVICE_PORT,
    };
    Ok(
        Some(
            ServiceInstallResult {
                service: owned(SERVICE_LABEL),
                plist_path,
                executable_path: installed_executable_path(&arguments),
                stdout_log: join_path(logs.as_str(), "simdeck.log", false),
                stderr_log: join_path(logs.as_str(), "simdeck.err.log", false),
                port,
                advertise_host: argument_value(&arguments, "--advertise-host"),
                access_token: argument_value(&arguments, "--access-token"),
                pairing_code: argument_value(&arguments, "--pairing-code"),
                reused: true,
            },
        ),
    )
}

/// The credentials of the installed service; none where it cannot be looked at.
pub fn installed_credentials(host: &Host, plist: Option<&Vec<u8>>) -> (credentials: Option<
    ServiceCredentials,
>)
    ensures
        match credentials {
            Some(found) => {
                &&& readable_arguments(*host, option_bytes(plist)) is Some
                &&& option_view(found.access_token) == argument_of(
                    readable_arguments(*host, option_bytes(plist))->Some_0,
                    "--access-token"@,
                )
                &&& option_view(found.pairing_code) == argument_of(
                    readable_arguments(*host, option_bytes(plist))->Some_0,
                    "--pairing-code"@,
                )
            },
            None => readable_arguments(*host, option_bytes(plist)) is None,
        },
{
    match installed_arguments(host, plist) {
        Ok(Some(arguments)) => Some(
            ServiceCredentials {
                access_token: argument_value(&arguments, "--access-token"),
                pairing_code: argument_value(&arguments, "--pairing-code"),
            },
        ),
        _ => None,
    }
}

/// The arguments of the installed service, where they can be read.
pub open spec fn readable_arguments(host: Host, plist: Option<Seq<u8>>) -> Option<Seq<Seq<char>>> {
    if host.home is None {
        None
    } else {
        match installed_list(plist) {
            Some(arguments) => arguments,
            None => None,
        }
    }
}

/// The options with the credentials of the installed service, or new ones.
pub open spec fn preserved(
    host: Host,
    options: ServiceOptionsView,
    plist: Option<Seq<u8>>,
    entropy: Entropy,
) -> ServiceOptionsView {
    match readable_arguments(host, plist) {
        Some(arguments) => with_credentials(
            options,
            argument_of(arguments, "--access-token"@),
            argument_of(arguments, "--pairing-code"@),
            CredentialPolicy::Preserve,
            entropy,
        ),
        None => with_credentials(options, None, None, CredentialPolicy::Preserve, entropy),
    }
}

pub fn preserve_or_create_credentials(
    host: &Host,
    options: &mut ServiceOptions,
    plist: Option<&Vec<u8>>,
    entropy: &Entropy,
)
    ensures
        final(options)@ == preserved(*host, old(options)@, option_bytes(plist), *entropy),
{
    match installed_credentials(host, plist) {
        Some(existing) => apply_credentials(
            options,
            Some(&existing),
            CredentialPolicy::Preserve,
            entropy,
        ),
        None => apply_credentials(options, None, CredentialPolicy::Preserve, entropy),
    }
}

pub fn reset_credentials(options: &mut ServiceOptions, entropy: &Entropy)
    ensures
        final(options)@ == with_credentials(
            old(options)@,
            None,
            None,
            CredentialPolicy::Reset,
            *entropy,
        ),
{
    apply_credentials(options, None, CredentialPolicy::Reset, entropy);
}

/// The directory of the client that a service is installed with.
pub open spec fn client_root_of(options: ServiceOptionsView, default_root: Seq<char>) -> Seq<char> {
    match options.client_root {
        Some(root) => root,
        None => default_root,
    }
}

/// The directory of the client that a service is installed with.
pub fn resolved_client_root(options: &ServiceOptions, default_root: &str) -> (root: String)
    ensures
        root@ == client_root_of(options@, default_root@),
{
    match &options.client_root {
        Some(root) => root.clone(),
        None => owned(default_root),
    }
}

/// The running service as a request that it matches sees it.
pub open spec fn reused_service(
    home: Seq<char>,
    arguments: Seq<Seq<char>>,
    options: ServiceOptionsView,
) -> ServiceInstallView {
    ServiceInstallView {
        port: options.port,
        advertise_host: options.advertise_host,
        access_token: options.access_token,
        pairing_code: options.pairing_code,
        ..running_service(home, arguments)
    }
}

/// The running service that serves a request as it is.
pub open spec fn reusable_service(
    host: Host,
    pid: Option<u32>,
    plist: Option<Seq<u8>>,
    options: ServiceOptionsView,
    default_root: Seq<char>,
) -> Option<ServiceInstallView> {
    match readable_arguments(host, plist) {
        Some(arguments) => if pid is Some && enable_action(
            Some(arguments),
            options,
            client_root_of(options, default_root),
        ) == ServiceEnableAction::Reuse {
            Some(reused_service(host.home->Some_0@, arguments, options))
        } else {
            None
        },
        None => None,
    }
}

pub fn reuse_running_service_if_matching(
    host: &Host,
    pid: Option<u32>,
    plist: Option<&Vec<u8>>,
    options: &ServiceOptions,
    default_root: &str,
) -> (result: Result<Option<ServiceInstallResult>, SimdeckError>)
    ensures
        match result {
            Ok(service) => {
                &&& pid is None || installed_error(*host, option_bytes(plist)) is None
                &&& option_install_view(service) == reusable_service(
                    *host,
                    pid,
                    option_bytes(plist),
                    options@,
                    default_root@,
                )
            },
            Err(error) => pid is Some && installed_error(*host, option_bytes(plist)) == Some(
                error.text(),
            ),
        },
{
    if pid.is_none() {
        return Ok(None);
    }
    let arguments = match installed_arguments(host, plist) {
        Ok(Some(arguments)) => arguments,
        Ok(None) => return Ok(None),
        Err(error) => return Err(error),
    };
    let client_root = resolved_client_root(options, default_root);
    let action = enable_action_for_installed_arguments(
        Some(&arguments),
        options,
        client_root.as_str(),
    );
    if action != ServiceEnableAction::Reuse {
        return Ok(None);
    }
    let plist_path = match plist_path_for_label(host, SERVICE_LABEL) {
        Ok(path) => path,
        Err(error) => return Err(error),
    };
    let logs = match log_dir(host) {
        Ok(path) => path,
        Err(error) => return Err(error),
    };
    Ok(
        Some(
            ServiceInstallResult {
                service: owned(SERVICE_LABEL),
                plist_path,
                executable_path: installed_executable_path(&arguments),
                stdout_log: join_path(logs.as_str(), "simdeck.log", false),
                stderr_log: join_path(logs.as_str(), "simdeck.err.log", false),
                port: options.port,
                advertise_host: clone_option(&options.advertise_host),
                access_token: clone_option(&options.access_token),
                pairing_code: clone_option(&options.pairing_code),
                reused: true,
            },
        ),
    )
}

/// What enabling a service comes to: one that runs is used as it is, or one has
/// to be installed with the options, which now hold credentials.
#[derive(Debug)]
pub enum EnableOutcome {
    Reuse(ServiceInstallResult),
    Install(ServiceOptions),
}

/// The outcome of a request for a service, as `enable` and `pair` give it.
pub open spec fn enable_outcome_is(
    outcome: Result<EnableOutcome, SimdeckError>,
    host: Host,
    pid: Option<u32>,
    plist: Option<Seq<u8>>,
    options: ServiceOptionsView,
    default_root: Seq<char>,
    entropy: Entropy,
) -> bool {
    let prepared = preserved(host, options, plist, entropy);
    match outcome {
        Ok(EnableOutcome::Reuse(service)) => {
            &&& launch_agent_refusal(host) is None
            &&& installed_error(host, plist) is None
            &&& reusable_service(host, pid, plist, prepared, default_root) == Some(service@)
        },
        Ok(EnableOutcome::Install(after)) => {
            &&& launch_agent_refusal(host) is None
            &&& pid is None || installed_error(host, plist) is None
            &&& reusable_service(host, pid, plist, prepared, default_root) is None
            &&& after@ == prepared
        },
        Err(error) => match launch_agent_refusal(host) {
            Some(refusal) => error.text() == refusal,
            None => pid is Some && installed_error(host, plist) == Some(error.text()),
        },
    }
}

/// Asks for a LaunchAgent with the given options.
pub fn enable(
    host: &Host,
    options: ServiceOptions,
    pid: Option<u32>,
    plist: Option<&Vec<u8>>,
    default_root: &str,
    entropy: &Entropy,
) -> (outcome: Result<EnableOutcome, SimdeckError>)
    ensures
        enable_outcome_is(
            outcome,
            *host,
            pid,
            option_bytes(plist),
            options@,
            default_root@,
            *entropy,
        ),
{
    if let Err(error) = ensure_launch_agent_supported(host) {
        return Err(error);
    }
    let mut prepared = options;
    preserve_or_create_credentials(host, &mut prepared, plist, entropy);
    match reuse_running_service_if_matching(host, pid, plist, &prepared, default_root) {
        Ok(Some(service)) => Ok(EnableOutcome::Reuse(service)),
        Ok(None) => Ok(EnableOutcome::Install(prepared)),
        Err(error) => Err(error),
    }
}

/// Asks for a LaunchAgent to pair a device with.
pub fn pair(
    host: &Host,
    options: ServiceOptions,
    pid: Option<u32>,
    plist: Option<&Vec<u8>>,
    default_root: &str,
    entropy: &Entropy,
) -> (outcome: Result<EnableOutcome, SimdeckError>)
    ensures
        enable_outcome_is(
            outcome,
            *host,
            pid,
            option_bytes(plist),
            options@,
            default_root@,
            *entropy,
        ),
{
    enable(host, options, pid, plist, default_root, entropy)
}

/// The options to install a LaunchAgent with when it is restarted.
pub fn restart(
    host: &Host,
    options: ServiceOptions,
    plist: Option<&Vec<u8>>,
    entropy: &Entropy,
) -> (result: Result<ServiceOptions, SimdeckError>)
    ensures
        match result {
            Ok(after) => launch_agent_refusal(*host) is None && after@ == preserved(
                *host,
                options@,
                option_bytes(plist),
                *entropy,
            ),
            Err(error) => launch_agent_refusal(*host) == Some(error.text()),
        },
{
    if let Err(error) = ensure_launch_agent_supported(host) {
        return Err(error);
    }
    let mut prepared = options;
    preserve_or_create_credentials(host, &mut prepared, plist, entropy);
    Ok(prepared)
}

/// The options to install a LaunchAgent with when it is reset.
pub fn reset(host: &Host, options: ServiceOptions, entropy: &Entropy) -> (result: Result<
    ServiceOptions,
    SimdeckError,
>)
    ensures
        match result {
            Ok(after) => launch_agent_refusal(*host) is None && after@ == with_credentials(
                options@,
                None,
                None,
                CredentialPolicy::Reset,
                *entropy,
            ),
            Err(error) => launch_agent_refusal(*host) == Some(error.text()),
        },
{
    if let Err(error) = ensure_launch_agent_supported(host) {
        return Err(error);
    }
    let mut prepared = options;
    reset_credentials(&mut prepared, entropy);
    Ok(prepared)
}

/// The port that a service asks for: no port below 1024.
pub open spec fn unprivileged(port: u16) -> u16 {
    if port < 1024 {
        1024
    } else {
        port
    }
}

/// The port that a service asks for: no port below 1024.
pub fn unprivileged_port(port: u16) -> (result: u16)
    ensures
        result == unprivileged(port),
{
    if port < 1024 {
        1024
    } else {
        port
    }
}

/// The port of a LaunchAgent, where it is free. `free` tells whether a port is.
pub fn choose_service_port_for_bind<F: Fn(u16) -> bool>(preferred: u16, free: F) -> (result: Result<
    u16,
    SimdeckError,
>)
    requires
        free.requires((unprivileged(preferred),)),
    ensures
        match result {
            Ok(port) => port == unprivileged(preferred) && free.ensures((port,), true),
            Err(error) => free.ensures((unprivileged(preferred),), false) && error.text()
                == "SimDeck LaunchAgent port "@ + decimal(unprivileged(preferred) as nat)
                + " is already in use"@,
        },
{
    let port = unprivileged_port(preferred);
    if free(port) {
        return Ok(port);
    }
    let mut message = owned("SimDeck LaunchAgent port ");
    message.append(decimal_text(port as u64).as_str());
    message.append(" is already in use");
    Err(SimdeckError::new(message))
}

/// Everything that installing a LaunchAgent takes: the directories to make, the
/// property list to write, and the `launchctl` calls to make, in that order.
#[derive(Debug)]
pub struct Installation {
    pub directories: Vec<String>,
    pub plist: String,
    pub launchctl: Vec<Vec<String>>,
    pub result: ServiceInstallResult,
}

/// The directory of the user's LaunchAgents.
pub open spec fn agents_directory(home: Seq<char>) -> Seq<char> {
    path_below(home, "Library/LaunchAgents"@, false)
}

/// A list of lists of strings.
pub open spec fn list_views(lists: Seq<Vec<String>>) -> Seq<Seq<Seq<char>>> {
    lists.map_values(|list: Vec<String>| views(list@))
}

/// The service that was installed with the options.
pub open spec fn installed_service(
    home: Seq<char>,
    executable: Seq<char>,
    options: ServiceOptionsView,
) -> ServiceInstallView {
    ServiceInstallView {
        service: SERVICE_LABEL@,
        plist_path: label_plist_path(home, SERVICE_LABEL@),
        executable_path: executable,
        stdout_log: path_below(log_directory(home), "simdeck.log"@, false),
        stderr_log: path_below(log_directory(home), "simdeck.err.log"@, false),
        port: options.port,
        advertise_host: options.advertise_host,
        access_token: options.access_token,
        pairing_code: options.pairing_code,
        reused: false,
    }
}

/// What installing a LaunchAgent takes. The services of earlier installations
/// are gone by then, so that `free` tells whether a port is.
pub fn install<F: Fn(u16) -> bool>(
    host: &Host,
    options: ServiceOptions,
    default_root: &str,
    executable: &str,
    environment: &LaunchEnvironment,
    free: F,
) -> (result: Result<Installation, SimdeckError>)
    requires
        free.requires((unprivileged(options.port),)),
    ensures
        match result {
            Ok(installation) => {
                let home = host.home->Some_0@;
                let chosen = ServiceOptionsView { port: unprivileged(options.port), ..options@ };
                &&& host.home is Some
                &&& free.ensures((unprivileged(options.port),), true)
                &&& installation.result@ == installed_service(home, executable@, chosen)
                &&& installation.plist@ == plist_text(
                    program_argument_list(
                        executable@,
                        client_root_of(options@, default_root@),
                        chosen,
                    ),
                    joined(environment_entries(*environment), "\n"@),
                    installation.result@.stdout_log,
                    installation.result@.stderr_log,
                )
                &&& views(installation.directories@) == seq![
                    agents_directory(home),
                    log_directory(home),
                ]
                &&& list_views(installation.launchctl@) == seq![
                    seq!["enable"@, service_target(host.uid)],
                    seq!["bootstrap"@, domain_text(host.uid), installation.result@.plist_path],
                ]
            },
            Err(error) => {
                if host.home is None {
                    error.text() == "HOME is not set"@
                } else {
                    &&& free.ensures((unprivileged(options.port),), false)
                    &&& error.text() == "SimDeck LaunchAgent port "@ + decimal(
                        unprivileged(options.port) as nat,
                    ) + " is already in use"@
                }
            },
        },
{
    let home = match home_dir(host) {
        Ok(home) => home,
        Err(error) => return Err(error),
    };
    let plist_path = match plist_path_for_label(host, SERVICE_LABEL) {
        Ok(path) => path,
        Err(error) => return Err(error),
    };
    let logs = match log_dir(host) {
        Ok(path) => path,
        Err(error) => return Err(error),
    };
    let client_root = resolved_client_root(&options, default_root);
    let stdout_log = join_path(logs.as_str(), "simdeck.log", false);
    let stderr_log = join_path(logs.as_str(), "simdeck.err.log", false);
    let ghost asked = options@;
    let mut options = options;
    options.port = match choose_service_port_for_bind(options.port, free) {
        Ok(port) => port,
        Err(error) => return Err(error),
    };
    assert(options@ == ServiceOptionsView { port: unprivileged(asked.port), ..asked });
    let plist = plist_contents(
        executable,
        client_root.as_str(),
        stdout_log.as_str(),
        stderr_log.as_str(),
        &options,
        environment,
    );
    let mut directories: Vec<String> = Vec::new();
    assert(views(directories@) =~= Seq::empty());
    push_text(&mut directories, join_path(home, "Library/LaunchAgents", false).as_str());
    push_text(&mut directories, logs.as_str());
    assert(views(directories@) =~= seq![agents_directory(home@), log_directory(home@)]);
    let domain = launchctl_domain(host);
    let target = service_target_text(host);
    let mut enable_call: Vec<String> = Vec::new();
    assert(views(enable_call@) =~= Seq::empty());
    push_text(&mut enable_call, "enable");
    push_text(&mut enable_call, target.as_str());
    assert(views(enable_call@) =~= seq!["enable"@, service_target(host.uid)]);
    let mut bootstrap_call: Vec<String> = Vec::new();
    assert(views(bootstrap_call@) =~= Seq::empty());
    push_text(&mut bootstrap_call, "bootstrap");
    push_text(&mut bootstrap_call, domain.as_str());
    push_text(&mut bootstrap_call, plist_path.as_str());
    assert(views(bootstrap_call@) =~= seq!["bootstrap"@, domain_text(host.uid), plist_path@]);
    let mut launchctl: Vec<Vec<String>> = Vec::new();
    launchctl.push(enable_call);
    launchctl.push(bootstrap_call);
    assert(list_views(launchctl@) =~= seq![
        seq!["enable"@, service_target(host.uid)],
        seq!["bootstrap"@, domain_text(host.uid), plist_path@],
    ]);
    Ok(
        Installation {
            directories,
            plist,
            launchctl,
            result: ServiceInstallResult {
                service: owned(SERVICE_LABEL),
                plist_path,
                executable_path: owned(executable),
                stdout_log,
                stderr_log,
                port: options.port,
                advertise_host: options.advertise_host,
                access_token: options.access_token,
                pairing_code: options.pairing_code,
                reused: false,
            },
        },
    )
}

/// The name of the service inside the user's domain.
pub open spec fn service_target(uid: u32) -> Seq<char> {
    domain_text(uid) + "/"@ + SERVICE_LABEL@
}

/// The name of the service inside the user's domain.
pub fn service_target_text(host: &Host) -> (target: String)
    ensures
        target@ == service_target(host.uid),
{
    let mut target = launchctl_domain(host);
    target.append("/");
    target.append(SERVICE_LABEL);
    target
}

/// The `launchctl` calls that unload the service, whatever they come to.
pub fn unload_calls(host: &Host, plist_exists: bool) -> (result: Result<
    Vec<Vec<String>>,
    SimdeckError,
>)
    ensures
        match result {
            Ok(calls) => host.home is Some && list_views(calls@) == if plist_exists {
                seq![
                    seq!["bootout"@, service_target(host.uid)],
                    seq![
                        "bootout"@,
                        domain_text(host.uid),
                        label_plist_path(host.home->Some_0@, SERVICE_LABEL@),
                    ],
                ]
            } else {
                seq![seq!["bootout"@, service_target(host.uid)]]
            },
            Err(error) => host.home is None && error.text() == "HOME is not set"@,
        },
{
    let plist_path = match plist_path_for_label(host, SERVICE_LABEL) {
        Ok(path) => path,
        Err(error) => return Err(error),
    };
    let target = service_target_text(host);
    let mut calls: Vec<Vec<String>> = Vec::new();
    let mut by_name: Vec<String> = Vec::new();
    assert(views(by_name@) =~= Seq::empty());
    push_text(&mut by_name, "bootout");
    push_text(&mut by_name, target.as_str());
    assert(views(by_name@) =~= seq!["bootout"@, service_target(host.uid)]);
    calls.push(by_name);
    assert(list_views(calls@) =~= seq![seq!["bootout"@, service_target(host.uid)]]);
    if plist_exists {
        let domain = launchctl_domain(host);
        let mut by_plist: Vec<String> = Vec::new();
        assert(views(by_plist@) =~= Seq::empty());
        push_text(&mut by_plist, "bootout");
        push_text(&mut by_plist, domain.as_str());
        push_text(&mut by_plist, plist_path.as_str());
        assert(views(by_plist@) =~= seq!["bootout"@, domain_text(host.uid), plist_path@]);
        calls.push(by_plist);
        assert(list_views(calls@) =~= seq![
            seq!["bootout"@, service_target(host.uid)],
            seq![
                "bootout"@,
                domain_text(host.uid),
                label_plist_path(host.home->Some_0@, SERVICE_LABEL@),
            ],
        ]);
    }
    Ok(calls)
}

/// The processes that removing the LaunchAgent ends: the one that it runs as.
pub fn kill_installed(host: &Host, pid: Option<u32>) -> (result: Result<Vec<u32>, SimdeckError>)
    ensures
        match result {
            Ok(killed) => {
                if !host.launch_agents {
                    killed@ == Seq::<u32>::empty()
                } else {
                    &&& host.uid != 0 && host.home is Some
                    &&& killed@ == match pid {
                        Some(process) => seq![process],
                        None => Seq::empty(),
                    }
                }
            },
            Err(error) => {
                &&& host.launch_agents
                &&& if host.uid == 0 {
                    error.text() == root_refusal()
                } else {
                    host.home is None && error.text() == "HOME is not set"@
                }
            },
        },
{
    let mut killed: Vec<u32> = Vec::new();
    if !host.launch_agents {
        return Ok(killed);
    }
    if let Err(error) = ensure_launch_agent_supported(host) {
        return Err(error);
    }
    if let Err(error) = home_dir(host) {
        return Err(error);
    }
    if let Some(process) = pid {
        killed.push(process);
    }
    assert(killed@ =~= match pid {
        Some(process) => seq![process],
        None => Seq::empty(),
    });
    Ok(killed)
}

/// What disabling the LaunchAgent reports: the path of its property list.
pub fn disable(host: &Host) -> (result: Result<String, SimdeckError>)
    ensures
        match result {
            Ok(plist_path) => launch_agent_refusal(*host) is None && host.home is Some
                && plist_path@ == label_plist_path(host.home->Some_0@, SERVICE_LABEL@),
            Err(error) => match launch_agent_refusal(*host) {
                Some(refusal) => error.text() == refusal,
                None => host.home is None && error.text() == "HOME is not set"@,
            },
        },
{
    if let Err(error) = ensure_launch_agent_supported(host) {
        return Err(error);
    }
    plist_path_for_label(host, SERVICE_LABEL)
}

/// The error of a `launchctl` call that failed.
pub fn launchctl_failure(arguments: &Vec<String>, stderr: &str) -> (error: SimdeckError)
    ensures
        error.text() == "launchctl "@ + joined(views(arguments@), " "@) + " failed: "@ + (
        if trimmed(stderr@).len() == 0 {
            "unknown error"@
        } else {
            trimmed(stderr@)
        }),
{
    let reason = trim(stderr);
    let mut message = owned("launchctl ");
    message.append(join(arguments, " ").as_str());
    message.append(" failed: ");
    if reason.as_str().is_empty() {
        message.append("unknown error");
    } else {
        message.append(reason.as_str());
    }
    SimdeckError::new(message)
}

/// A service that was installed is the one that is found running, with the
/// port, the host and the credentials that it was installed with. `arguments`
/// are those of its property list. Left out are texts that the arguments
/// cannot give back.
pub proof fn installed_service_is_found_running(
    home: Seq<char>,
    executable: Seq<char>,
    client_root: Seq<char>,
    options: ServiceOptionsView,
)
    requires
        !is_flag_name(executable),
        plain_value(client_root),
        options.bind.valid(),
        plain_option(options.stream_quality_profile),
        plain_option(options.advertise_host),
        plain_option(options.access_token),
        plain_option(options.pairing_code),
    ensures
        running_service(home, program_argument_list(executable, client_root, options))
            == (ServiceInstallView {
            reused: true,
            ..installed_service(home, executable, options)
        }),
{
    installed_arguments_match_their_options(executable, client_root, options);
    decimal_reads_back(options.port as nat, u16::MAX as nat);
    let arguments = program_argument_list(executable, client_root, options);
    assert(arguments[0] == executable);
}

/// LaunchAgents are worked with only where the system has them and the user is not
/// the superuser; a system without them is the first reason against it.
pub proof fn launch_agents_are_for_users(host: Host)
    ensures
        launch_agent_refusal(host) is None <==> host.launch_agents && host.uid != 0,
        !host.launch_agents ==> launch_agent_refusal(host) == Some(unsupported_refusal()),
        host.launch_agents && host.uid == 0 ==> launch_agent_refusal(host) == Some(root_refusal()),
{
}

/// A port below 1024 is asked for as 1024, any other as it is.
pub proof fn ports_are_asked_for_unprivileged(port: u16)
    ensures
        unprivileged(port) >= 1024,
        port >= 1024 ==> unprivileged(port) == port,
        port < 1024 ==> unprivileged(port) == 1024,
        unprivileged(unprivileged(port)) == unprivileged(port),
{
}

/// The property list and the logs of the service stand in the user's library, under
/// these names.
pub proof fn files_stand_in_the_library(home: Seq<char>, label: Seq<char>)
    requires
        home.len() > 0,
        home.last() != '/',
        label.len() > 0,
        label[0] != '/',
    ensures
        label_plist_path(home, label) == home + "/Library/LaunchAgents/"@ + label + ".plist"@,
        agents_directory(home) == home + "/Library/LaunchAgents"@,
        log_directory(home) == home + "/Library/Logs"@,
        path_below(log_directory(home), "simdeck.log"@, false) == home
            + "/Library/Logs/simdeck.log"@,
        path_below(log_directory(home), "simdeck.err.log"@, false) == home
            + "/Library/Logs/simdeck.err.log"@,
{
    reveal_strlit("Library/LaunchAgents");
    reveal_strlit("/Library/LaunchAgents");
    reveal_strlit("/Library/LaunchAgents/");
    reveal_strlit("Library/Logs");
    reveal_strlit("/Library/Logs");
    reveal_strlit("simdeck.log");
    reveal_strlit("/Library/Logs/simdeck.log");
    reveal_strlit("simdeck.err.log");
    reveal_strlit("/Library/Logs/simdeck.err.log");
    reveal_strlit("/");
    reveal_strlit(".plist");
    let agents = agents_directory(home);
    assert(agents =~= home + "/Library/LaunchAgents"@);
    assert(log_directory(home) =~= home + "/Library/Logs"@);
    assert((label + ".plist"@)[0] == label[0]);
    assert(label_plist_path(home, label) =~= home + "/Library/LaunchAgents/"@ + label
        + ".plist"@);
    assert(path_below(log_directory(home), "simdeck.log"@, false) =~= home
        + "/Library/Logs/simdeck.log"@);
    assert(path_below(log_directory(home), "simdeck.err.log"@, false) =~= home
        + "/Library/Logs/simdeck.err.log"@);
}

/// The service is one of the user's own session: its name there holds the user's
/// number and the label, and tells users apart.
pub proof fn services_belong_to_their_user(uid: u32, other: u32)
    ensures
        domain_text(uid) == "gui/"@ + decimal(uid as nat),
        service_target(uid) == "gui/"@ + decimal(uid as nat) + "/org.nativescript.simdeck"@,
        domain_text(uid) == domain_text(other) ==> uid == other,
{
    reveal_strlit("gui/");
    reveal_strlit("/");
    reveal_strlit("org.nativescript.simdeck");
    reveal_strlit("/org.nativescript.simdeck");
    assert(service_target(uid) =~= "gui/"@ + decimal(uid as nat) + "/org.nativescript.simdeck"@);
    if domain_text(uid) == domain_text(other) {
        assert(domain_text(uid).skip(4) =~= decimal(uid as nat));
        assert(domain_text(other).skip(4) =~= decimal(other as nat));
        decimal_is_injective(uid as nat, other as nat);
    }
}

/// The line that gives the process of the service is read, with white space around
/// it, and any other line gives none.
pub proof fn processes_are_read_off_their_line(padding: Seq<char>, pid: u32, line: Seq<char>)
    requires
        forall|i: int| 0 <= i < padding.len() ==> white_space(#[trigger] padding[i]),
    ensures
        launchctl_pid(padding + ("pid = "@ + decimal(pid as nat))) == Some(pid),
        !has_prefix(trimmed(line), "pid = "@) ==> launchctl_pid(line) is None,
{
    reveal_strlit("pid = ");
    let digits = decimal(pid as nat);
    let text = "pid = "@ + digits;
    lemma_decimal_digits(pid as nat);
    assert(is_digit(digits.last()) && is_digit(digits[0]));
    assert(text[0] == 'p' && text.last() == digits.last());
    lemma_already_trimmed(text);
    lemma_already_trimmed(digits);
    lemma_trimmed_padding(padding, text);
    assert(trimmed_start(text) == text) by {
        assert(!white_space(text[0]));
    }
    assert(trimmed(padding + text) == trimmed(text));
    prefixes_are_taken_off(text, "pid = "@, digits);
    decimal_reads_back(pid as nat, u32::MAX as nat);
}

/// The process that is found is the one of the first line that gives one.
pub proof fn first_process_is_found(lines: Seq<Seq<char>>, i: int)
    requires
        0 <= i < lines.len(),
        launchctl_pid(lines[i]) is Some,
        forall|j: int| 0 <= j < i ==> launchctl_pid(#[trigger] lines[j]) is None,
    ensures
        first_launchctl_pid(lines) == launchctl_pid(lines[i]),
    decreases lines.len(),
{
    if i > 0 {
        let rest = lines.drop_first();
        assert(launchctl_pid(lines[0]) is None);
        assert forall|j: int| 0 <= j < i - 1 implies launchctl_pid(#[trigger] rest[j]) is None by {
            assert(rest[j] == lines[j + 1]);
        }
        first_process_is_found(rest, i - 1);
    }
}

/// No process is found where no line gives one.
pub proof fn no_process_is_made_up(lines: Seq<Seq<char>>)
    requires
        forall|j: int| 0 <= j < lines.len() ==> launchctl_pid(#[trigger] lines[j]) is None,
    ensures
        first_launchctl_pid(lines) is None,
    decreases lines.len(),
{
    if lines.len() > 0 {
        let rest = lines.drop_first();
        assert(launchctl_pid(lines[0]) is None);
        assert forall|j: int| 0 <= j < rest.len() implies launchctl_pid(#[trigger] rest[j])
            is None by {
            assert(rest[j] == lines[j + 1]);
        }
        no_process_is_made_up(rest);
    }
}

/// The texts among the elements of two lists are those of the first and then those
/// of the second; an element that is no text adds none.
pub proof fn texts_keep_their_order(
    front: Seq<Option<Seq<char>>>,
    back: Seq<Option<Seq<char>>>,
    text: Seq<char>,
)
    ensures
        texts_among(front + back) == texts_among(front) + texts_among(back),
        texts_among(seq![Some(text)]) == seq![text],
        texts_among(seq![None::<Seq<char>>]) == Seq::<Seq<char>>::empty(),
    decreases back.len(),
{
    let single = seq![Some(text)];
    let none = seq![None::<Seq<char>>];
    assert(single.drop_last() =~= Seq::empty());
    assert(none.drop_last() =~= Seq::empty());
    assert(texts_among(single.drop_last()) =~= Seq::<Seq<char>>::empty());
    assert(texts_among(single) =~= seq![text]);
    assert(texts_among(none) =~= Seq::<Seq<char>>::empty());
    if back.len() == 0 {
        assert(front + back =~= front);
        assert(texts_among(front) + texts_among(back) =~= texts_among(front));
    } else {
        texts_keep_their_order(front, back.drop_last(), text);
        assert((front + back).drop_last() =~= front + back.drop_last());
        assert((front + back).last() == back.last());
        assert(texts_among(front + back) =~= texts_among(front) + texts_among(back));
    }
}

/// The port of a service is the one behind its flag, whatever stands around it.
pub proof fn ports_are_read_behind_their_flag(
    front: Seq<Seq<char>>,
    port: u16,
    back: Seq<Seq<char>>,
)
    requires
        !front.contains("--port"@),
    ensures
        argument_port(front + seq!["--port"@, decimal(port as nat)] + back) == Some(port),
        argument_port(front) is None,
{
    let digits = decimal(port as nat);
    lemma_decimal_digits(port as nat);
    assert(is_digit(digits[0]) && is_digit(digits.last()));
    lemma_already_trimmed(digits);
    values_stand_behind_the_first_name(front, "--port"@, digits, back);
    decimal_reads_back(port as nat, u16::MAX as nat);
}

/// A running service is told of by its own arguments: its executable, its port, and
/// what stands behind the flags of its host and its credentials.
pub proof fn running_services_are_told_by_their_arguments(
    home: Seq<char>,
    arguments: Seq<Seq<char>>,
)
    ensures
        ({
            let service = running_service(home, arguments);
            &&& service.service == "org.nativescript.simdeck"@
            &&& arguments.len() > 0 ==> service.executable_path == arguments[0]
            &&& argument_port(arguments) matches Some(port) ==> service.port == port
            &&& argument_port(arguments) is None ==> service.port == 4310
            &&& service.advertise_host == argument_of(arguments, "--advertise-host"@)
            &&& service.access_token == argument_of(arguments, "--access-token"@)
            &&& service.pairing_code == argument_of(arguments, "--pairing-code"@)
            &&& service.plist_path == label_plist_path(home, service.service)
            &&& service.reused
        }),
{
}

/// A service that was installed is told of by what it was installed with.
pub proof fn installed_services_are_told_by_their_options(
    home: Seq<char>,
    executable: Seq<char>,
    options: ServiceOptionsView,
)
    ensures
        ({
            let service = installed_service(home, executable, options);
            let found = running_service(home, seq![executable]);
            &&& service.executable_path == executable
            &&& service.port == options.port
            &&& service.advertise_host == options.advertise_host
            &&& service.access_token == options.access_token
            &&& service.pairing_code == options.pairing_code
            &&& !service.reused
            &&& service.service == found.service
            &&& service.plist_path == found.plist_path
            &&& service.stdout_log == found.stdout_log
            &&& service.stderr_log == found.stderr_log
            &&& service.stdout_log != service.stderr_log || home.len() == 0 || home.last() == '/'
        }),
{
    if home.len() > 0 && home.last() != '/' {
        reveal_strlit("org.nativescript.simdeck");
        reveal_strlit("/Library/Logs/simdeck.log");
        reveal_strlit("/Library/Logs/simdeck.err.log");
        files_stand_in_the_library(home, SERVICE_LABEL@);
        let service = installed_service(home, executable, options);
        assert(service.stdout_log.len() != service.stderr_log.len());
    }
}

/// A running service serves a request as it is only where it runs and its arguments
/// match the request; it is then told of by the request. One that does not run, or
/// does not match, is not used.
pub proof fn running_services_are_used_where_they_match(
    host: Host,
    pid: Option<u32>,
    plist: Option<Seq<u8>>,
    options: ServiceOptionsView,
    default_root: Seq<char>,
)
    ensures
        pid is None ==> reusable_service(host, pid, plist, options, default_root) is None,
        reusable_service(host, pid, plist, options, default_root) matches Some(service) ==> {
            &&& readable_arguments(host, plist) matches Some(arguments)
            &&& options_match(
                arguments,
                options,
                if options.client_root is Some {
                    options.client_root->Some_0
                } else {
                    default_root
                },
            )
            &&& service.port == options.port
            &&& service.access_token == options.access_token
            &&& service.pairing_code == options.pairing_code
            &&& service.advertise_host == options.advertise_host
            &&& service.reused
        },
        readable_arguments(host, plist) matches Some(arguments) ==> (pid is Some && options_match(
            arguments,
            options,
            if options.client_root is Some {
                options.client_root->Some_0
            } else {
                default_root
            },
        ) ==> reusable_service(host, pid, plist, options, default_root) is Some),
{
}

/// The credentials that an installed service has are kept, unless the request brings
/// its own; without an installed service, or where it has none, new ones are made.
/// Nothing else of the request changes.
pub proof fn installed_credentials_are_kept(
    host: Host,
    options: ServiceOptionsView,
    plist: Option<Seq<u8>>,
    entropy: Entropy,
)
    ensures
        ({
            let after = preserved(host, options, plist, entropy);
            let installed = readable_arguments(host, plist);
            &&& options.access_token is Some ==> after.access_token == options.access_token
            &&& options.pairing_code is Some ==> after.pairing_code == options.pairing_code
            &&& options.access_token is None && installed is Some && argument_of(
                installed->Some_0,
                "--access-token"@,
            ) is Some ==> after.access_token == argument_of(installed->Some_0, "--access-token"@)
            &&& options.pairing_code is None && installed is Some && argument_of(
                installed->Some_0,
                "--pairing-code"@,
            ) is Some ==> after.pairing_code == argument_of(installed->Some_0, "--pairing-code"@)
            &&& options.access_token is None && installed is None ==> after.access_token == Some(
                entropy.access_token(),
            )
            &&& options.pairing_code is None && installed is None ==> after.pairing_code == Some(
                entropy.pairing_code(),
            )
            &&& after == (ServiceOptionsView {
                access_token: after.access_token,
                pairing_code: after.pairing_code,
                ..options
            })
        }),
{
}

/// A reset gives a service new credentials, unless the request brings its own, and
/// changes nothing else of the request.
pub proof fn resets_renew_the_credentials(
    options: ServiceOptionsView,
    token: Option<Seq<char>>,
    code: Option<Seq<char>>,
    entropy: Entropy,
)
    ensures
        ({
            let after = with_credentials(options, token, code, CredentialPolicy::Reset, entropy);
            &&& options.access_token is None ==> after.access_token == Some(entropy.access_token())
            &&& options.pairing_code is None ==> after.pairing_code == Some(entropy.pairing_code())
            &&& options.access_token is Some ==> after.access_token == options.access_token
            &&& options.pairing_code is Some ==> after.pairing_code == options.pairing_code
            &&& after == (ServiceOptionsView {
                access_token: after.access_token,
                pairing_code: after.pairing_code,
                ..options
            })
        }),
{
}

/// A list that cannot be handed to its reader, or that the reader refuses, is an
/// error that names its file; no list at all is no error, and without a home
/// directory there is no looking.
pub proof fn unreadable_lists_are_errors(host: Host, bytes: Seq<u8>)
    ensures
        host.home is None ==> installed_error(host, Some(bytes)) == Some("HOME is not set"@)
            && readable_arguments(host, Some(bytes)) is None,
        host.home is Some ==> installed_error(host, None) is None && readable_arguments(
            host,
            None,
        ) is None,
        host.home is Some && !plist_reads_safely(bytes) ==> installed_error(host, Some(bytes))
            is Some,
        host.home is Some && plist_reads_safely(bytes) ==> (installed_error(host, Some(bytes))
            is Some <==> plist_array(bytes, "ProgramArguments"@) is None),
        host.home is Some && plist_reads_safely(bytes) ==> (plist_array(
            bytes,
            "ProgramArguments"@,
        ) matches Some(Some(items)) ==> readable_arguments(host, Some(bytes)) == Some(
            texts_among(items),
        )),
{
}

/// The contracts see all of an installed service, each field as what it is.
pub proof fn installed_services_are_seen_whole(service: ServiceInstallResult)
    ensures
        service@.service == service.service@,
        service@.plist_path == service.plist_path@,
        service@.executable_path == service.executable_path@,
        service@.stdout_log == service.stdout_log@,
        service@.stderr_log == service.stderr_log@,
        service@.port == service.port,
        service@.advertise_host == option_view(service.advertise_host),
        service@.access_token == option_view(service.access_token),
        service@.pairing_code == option_view(service.pairing_code),
        service@.reused == service.reused,
{
}

/// The credentials of an installed service are its token and its code, each for
/// itself.
pub proof fn installed_credentials_are_told_apart(credentials: &ServiceCredentials)
    ensures
        installed_token(Some(credentials)) == option_view(credentials.access_token),
        installed_code(Some(credentials)) == option_view(credentials.pairing_code),
        installed_token(None) is None,
        installed_code(None) is None,
{
}

/// A request for a service comes to what it can: it is refused where LaunchAgents
/// cannot be worked with; a service that runs and matches is used; any other is
/// installed with the options of the request and the credentials that are kept or
/// made. It fails otherwise only where a service runs that cannot be looked at.
pub proof fn requests_come_to_what_they_can(
    outcome: Result<EnableOutcome, SimdeckError>,
    host: Host,
    pid: Option<u32>,
    plist: Option<Seq<u8>>,
    options: ServiceOptionsView,
    default_root: Seq<char>,
    entropy: Entropy,
)
    requires
        enable_outcome_is(outcome, host, pid, plist, options, default_root, entropy),
    ensures
        !host.launch_agents || host.uid == 0 ==> outcome is Err,
        host.launch_agents && host.uid != 0 && pid is None ==> outcome matches Ok(
            EnableOutcome::Install(_),
        ),
        outcome is Err && host.launch_agents && host.uid != 0 ==> pid is Some && installed_error(
            host,
            plist,
        ) is Some,
        outcome is Ok && pid is Some ==> installed_error(host, plist) is None,
        outcome matches Ok(EnableOutcome::Install(after)) ==> {
            &&& reusable_service(
                host,
                pid,
                plist,
                preserved(host, options, plist, entropy),
                default_root,
            ) is None
            &&& after@.port == options.port
            &&& after@.bind == options.bind
            &&& after@.advertise_host == options.advertise_host
            &&& after@.client_root == options.client_root
            &&& after@.video_codec == options.video_codec
            &&& after@.android_gpu == options.android_gpu
            &&& after@.low_latency == options.low_latency
            &&& after@.stream_quality_profile == options.stream_quality_profile
            &&& after@.local_stream_fps == options.local_stream_fps
            &&& options.access_token is Some ==> after@.access_token == options.access_token
            &&& options.pairing_code is Some ==> after@.pairing_code == options.pairing_code
            &&& after@.access_token is Some && after@.pairing_code is Some
        },
        outcome matches Ok(EnableOutcome::Reuse(service)) ==> {
            &&& pid is Some
            &&& readable_arguments(host, plist) matches Some(arguments)
            &&& argument_of(arguments, "--port"@) == Some(decimal(options.port as nat))
            &&& argument_of(arguments, "--access-token"@) == service@.access_token
            &&& argument_of(arguments, "--pairing-code"@) == service@.pairing_code
            &&& service@.port == options.port
            &&& service@.advertise_host == options.advertise_host
        },
{
}

} // verus!
