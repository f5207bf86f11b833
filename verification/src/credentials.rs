//! The credentials of a project's service: kept from one start to the next, or
//! made anew.
use vstd::prelude::*;

use crate::auth::{
    generate_access_token, generate_pairing_code, generated_secrets_are_well_formed, Entropy,
};
use crate::metadata::{
    option_metadata_view, singleton_action_for, Probe, ServiceLaunchView, ServiceMetadata,
    ServiceMetadataView,
};
use crate::text::{blank, option_view, trim, trimmed, trimming_is_idempotent};

verus! {

/// The access token and the pairing code of a service.
#[derive(Debug, PartialEq, Eq)]
pub struct ProjectServiceCredentials {
    pub access_token: String,
    pub pairing_code: String,
}

/// Credentials as the contracts speak of them.
pub struct CredentialsView {
    pub access_token: Seq<char>,
    pub pairing_code: Seq<char>,
}

impl View for ProjectServiceCredentials {
    type V = CredentialsView;

    open spec fn view(&self) -> CredentialsView {
        CredentialsView { access_token: self.access_token@, pairing_code: self.pairing_code@ }
    }
}

/// Credentials as an optional value.
pub open spec fn option_credentials_view(credentials: Option<ProjectServiceCredentials>) -> Option<
    CredentialsView,
> {
    match credentials {
        Some(held) => Some(held@),
        None => None,
    }
}

/// A text without the white space around it, where something is left.
pub open spec fn present(text: Option<Seq<char>>) -> Option<Seq<char>> {
    match text {
        Some(value) => if blank(value) {
            None
        } else {
            Some(trimmed(value))
        },
        None => None,
    }
}

fn trim_present(text: Option<&str>) -> (result: Option<String>)
    ensures
        option_view(result) == present(crate::text::option_str_view(text)),
{
    match text {
        Some(value) => {
            let kept = trim(value);
            if kept.as_str().is_empty() {
                None
            } else {
                Some(kept)
            }
        },
        None => None,
    }
}

/// New credentials: the given token where it is not blank, and the rest made of
/// random values.
pub open spec fn new_credentials(token: Option<Seq<char>>, entropy: Entropy) -> CredentialsView {
    CredentialsView {
        access_token: match present(token) {
            Some(given) => given,
            None => entropy.access_token(),
        },
        pairing_code: entropy.pairing_code(),
    }
}

pub fn new_project_service_credentials(access_token: Option<&str>, entropy: &Entropy) -> (credentials:
    ProjectServiceCredentials)
    ensures
        credentials@ == new_credentials(crate::text::option_str_view(access_token), *entropy),
{
    let token = match trim_present(access_token) {
        Some(given) => given,
        None => generate_access_token(entropy),
    };
    ProjectServiceCredentials { access_token: token, pairing_code: generate_pairing_code(entropy) }
}

/// The credentials that a reset gives the service.
pub fn reset_project_service_credentials(
    access_token: Option<&str>,
    entropy: &Entropy,
) -> (credentials: ProjectServiceCredentials)
    ensures
        credentials@ == new_credentials(crate::text::option_str_view(access_token), *entropy),
{
    new_project_service_credentials(access_token, entropy)
}

/// The credentials without white space around them; none where one is blank.
pub open spec fn normalized(credentials: CredentialsView) -> Option<CredentialsView> {
    if blank(credentials.access_token) || blank(credentials.pairing_code) {
        None
    } else {
        Some(
            CredentialsView {
                access_token: trimmed(credentials.access_token),
                pairing_code: trimmed(credentials.pairing_code),
            },
        )
    }
}

pub fn normalize_project_service_credentials(credentials: ProjectServiceCredentials) -> (result:
    Option<ProjectServiceCredentials>)
    ensures
        option_credentials_view(result) == normalized(credentials@),
{
    let access_token = trim(credentials.access_token.as_str());
    let pairing_code = trim(credentials.pairing_code.as_str());
    if access_token.as_str().is_empty() || pairing_code.as_str().is_empty() {
        return None;
    }
    Some(ProjectServiceCredentials { access_token, pairing_code })
}

/// The credentials of a recorded service, where it has a token; a pairing code
/// that is missing is made.
pub open spec fn recorded_credentials(
    metadata: ServiceMetadataView,
    entropy: Entropy,
) -> Option<CredentialsView> {
    if blank(metadata.access_token) {
        None
    } else {
        Some(
            CredentialsView {
                access_token: trimmed(metadata.access_token),
                pairing_code: match present(metadata.pairing_code) {
                    Some(code) => code,
                    None => entropy.pairing_code(),
                },
            },
        )
    }
}

pub fn project_service_credentials_from_metadata(
    metadata: &ServiceMetadata,
    entropy: &Entropy,
) -> (result: Option<ProjectServiceCredentials>)
    ensures
        option_credentials_view(result) == recorded_credentials(metadata@, *entropy),
{
    let access_token = trim(metadata.access_token.as_str());
    if access_token.as_str().is_empty() {
        return None;
    }
    let pairing_code = match trim_present(crate::text::as_option_str(&metadata.pairing_code)) {
        Some(code) => code,
        None => generate_pairing_code(entropy),
    };
    Some(ProjectServiceCredentials { access_token, pairing_code })
}

/// The credentials that a service is started with: those that are preserved,
/// else those that are stored, where they are whole; else new ones.
pub open spec fn credentials_for_start(
    preserved: Option<CredentialsView>,
    stored: Option<CredentialsView>,
    entropy: Entropy,
) -> CredentialsView {
    let held = if preserved is Some {
        preserved
    } else {
        stored
    };
    match held {
        Some(credentials) => match normalized(credentials) {
            Some(whole) => whole,
            None => new_credentials(None, entropy),
        },
        None => new_credentials(None, entropy),
    }
}

/// The credentials that a service is started with, which are then stored.
/// `stored` is what the file of the credentials holds.
pub fn project_service_credentials_for_start(
    preserved: Option<ProjectServiceCredentials>,
    stored: Option<ProjectServiceCredentials>,
    entropy: &Entropy,
) -> (credentials: ProjectServiceCredentials)
    ensures
        credentials@ == credentials_for_start(
            option_credentials_view(preserved),
            option_credentials_view(stored),
            *entropy,
        ),
{
    let held = if preserved.is_some() {
        preserved
    } else {
        stored
    };
    if let Some(found) = held {
        if let Some(whole) = normalize_project_service_credentials(found) {
            return whole;
        }
    }
    new_project_service_credentials(None, entropy)
}

/// Normalizing credentials a second time changes nothing.
pub proof fn normalizing_is_idempotent(credentials: CredentialsView)
    requires
        normalized(credentials) is Some,
    ensures
        normalized(normalized(credentials)->Some_0) == normalized(credentials),
{
    trimming_is_idempotent(credentials.access_token);
    trimming_is_idempotent(credentials.pairing_code);
}

/// The credentials of a start are whole: neither is blank nor has white space
/// around it.
pub proof fn started_credentials_are_whole(
    preserved: Option<CredentialsView>,
    stored: Option<CredentialsView>,
    entropy: Entropy,
)
    ensures
        normalized(credentials_for_start(preserved, stored, entropy)) == Some(
            credentials_for_start(preserved, stored, entropy),
        ),
{
    generated_secrets_are_well_formed(entropy);
    let held = if preserved is Some {
        preserved
    } else {
        stored
    };
    if held is Some && normalized(held->Some_0) is Some {
        normalizing_is_idempotent(held->Some_0);
    }
}

/// What one start stores, the next start uses, whatever random values it draws.
pub proof fn stored_credentials_are_reused(
    preserved: Option<CredentialsView>,
    stored: Option<CredentialsView>,
    entropy: Entropy,
    later: Entropy,
)
    ensures
        ({
            let first = credentials_for_start(preserved, stored, entropy);
            credentials_for_start(None, Some(first), later) == first
        }),
{
    started_credentials_are_whole(preserved, stored, entropy);
}

/// A service that is started again in place of a recorded one keeps its
/// access token, and its pairing code where it has one.
pub proof fn restart_keeps_recorded_credentials(
    metadata: ServiceMetadataView,
    stored: Option<CredentialsView>,
    entropy: Entropy,
)
    requires
        !blank(metadata.access_token),
    ensures
        ({
            let after = credentials_for_start(
                recorded_credentials(metadata, entropy),
                stored,
                entropy,
            );
            &&& after.access_token == trimmed(metadata.access_token)
            &&& present(metadata.pairing_code) matches Some(code) ==> after.pairing_code == code
        }),
{
    generated_secrets_are_well_formed(entropy);
    trimming_is_idempotent(metadata.access_token);
    match metadata.pairing_code {
        Some(code) => trimming_is_idempotent(code),
        None => {},
    }
}

/// The credentials that a service takes over from the recorded one, where there is
/// one.
pub open spec fn handed_on_credentials(
    recorded: Option<ServiceMetadataView>,
    entropy: Entropy,
) -> Option<CredentialsView> {
    match recorded {
        Some(metadata) => recorded_credentials(metadata, entropy),
        None => None,
    }
}

/// The credentials that a service which is started takes over from the recorded
/// one, whether or not that one is ended.
pub fn singleton_credentials(recorded: Option<&ServiceMetadata>, entropy: &Entropy) -> (result:
    Option<ProjectServiceCredentials>)
    ensures
        option_credentials_view(result) == handed_on_credentials(
            option_metadata_view(recorded),
            *entropy,
        ),
{
    match recorded {
        Some(metadata) => project_service_credentials_from_metadata(metadata, entropy),
        None => None,
    }
}

/// A service that is started because no other serves as it is has the credentials
/// of the recorded one, whether that one is ended or kept: its access token, and
/// its pairing code where it has one. Without a recorded token it has the stored
/// ones, where they are whole, else new ones.
pub proof fn started_singleton_takes_over_credentials(
    active: Option<ServiceMetadataView>,
    active_probe: Probe,
    recorded: Option<ServiceMetadataView>,
    recorded_probe: Probe,
    options: ServiceLaunchView,
    preferred_free: bool,
    windows: bool,
    stored: Option<CredentialsView>,
    entropy: Entropy,
)
    requires
        singleton_action_for(
            active,
            active_probe,
            recorded,
            recorded_probe,
            options,
            preferred_free,
            windows,
        ) is Start,
    ensures
        ({
            let after = credentials_for_start(
                handed_on_credentials(recorded, entropy),
                stored,
                entropy,
            );
            match recorded {
                Some(metadata) => if blank(metadata.access_token) {
                    after == credentials_for_start(None, stored, entropy)
                } else {
                    &&& after.access_token == trimmed(metadata.access_token)
                    &&& present(metadata.pairing_code) matches Some(code) ==> after.pairing_code
                        == code
                },
                None => after == credentials_for_start(None, stored, entropy),
            }
        }),
{
    match recorded {
        Some(metadata) => if !blank(metadata.access_token) {
            restart_keeps_recorded_credentials(metadata, stored, entropy);
        },
        None => {},
    }
}

/// A token that is given and not blank is used, without white space around it; a
/// blank one is replaced by one that is made, and the code always is made.
pub proof fn given_tokens_are_used(token: Seq<char>, entropy: Entropy)
    ensures
        !blank(token) ==> new_credentials(Some(token), entropy).access_token == trimmed(token),
        blank(token) ==> new_credentials(Some(token), entropy).access_token
            == entropy.access_token(),
        new_credentials(None, entropy).access_token == entropy.access_token(),
        new_credentials(Some(token), entropy).pairing_code == entropy.pairing_code(),
        new_credentials(None, entropy).pairing_code == entropy.pairing_code(),
{
}

/// Credentials that are preserved win over those that are stored, and those that are
/// stored over new ones; credentials of which one is blank are replaced whole.
pub proof fn preserved_credentials_win(
    preserved: CredentialsView,
    stored: Option<CredentialsView>,
    entropy: Entropy,
)
    ensures
        !blank(preserved.access_token) && !blank(preserved.pairing_code) ==> {
            let after = credentials_for_start(Some(preserved), stored, entropy);
            let kept = credentials_for_start(None, Some(preserved), entropy);
            &&& after.access_token == trimmed(preserved.access_token)
            &&& after.pairing_code == trimmed(preserved.pairing_code)
            &&& kept == after
        },
        blank(preserved.access_token) || blank(preserved.pairing_code) ==> {
            let after = credentials_for_start(Some(preserved), stored, entropy);
            &&& after.access_token == entropy.access_token()
            &&& after.pairing_code == entropy.pairing_code()
        },
        credentials_for_start(None, None, entropy).access_token == entropy.access_token(),
        credentials_for_start(None, None, entropy).pairing_code == entropy.pairing_code(),
{
}

/// The credentials of a record are its own, without white space around them; a code
/// that is missing or blank is made, and without a token there are none.
pub proof fn recorded_credentials_are_those_of_the_record(
    metadata: ServiceMetadataView,
    entropy: Entropy,
)
    ensures
        blank(metadata.access_token) <==> recorded_credentials(metadata, entropy) is None,
        recorded_credentials(metadata, entropy) matches Some(held) ==> {
            &&& held.access_token == trimmed(metadata.access_token)
            &&& metadata.pairing_code is Some && !blank(metadata.pairing_code->Some_0)
                ==> held.pairing_code == trimmed(metadata.pairing_code->Some_0)
            &&& metadata.pairing_code is None || blank(metadata.pairing_code->Some_0)
                ==> held.pairing_code == entropy.pairing_code()
        },
{
}

/// The contracts see both of the credentials, each as what it is.
pub proof fn credentials_are_seen_whole(credentials: ProjectServiceCredentials)
    ensures
        credentials@.access_token == credentials.access_token@,
        credentials@.pairing_code == credentials.pairing_code@,
{
}

} // verus!
