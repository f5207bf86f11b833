//! Pairing a device with a service: the addresses at which the service is
//! reached, and the links and the QR code that carry them.
use vstd::prelude::*;
use vstd::utf8::encode_utf8;

use crate::auth::{generated_secrets_are_well_formed, Entropy};
use crate::encoding::{
    percent_encode, percent_encoded, percent_encoded_bytes, percent_encoded_bytes_are_link_safe,
};
use crate::error::SimdeckError;
use crate::launch::SERVICE_PORT;
use crate::launch_agent::{ServiceOptions, ServiceOptionsView};
use crate::metadata::ServiceMetadata;
use crate::modes::{
    local_profile, local_stream_quality_profile, AndroidGpuMode, StreamQualityProfileArg,
    VideoCodecMode,
};
use crate::net::{
    host_url, http_url_for_host, ipv4_text, is_tailscale_host,
    tailscale_addresses_are_in_their_range, tailscale_host, ui_url, ui_url_from_base, IpAddr,
};
use crate::numbers::{decimal, decimal_text, is_digit};
use crate::service::ServiceInstallResult;
use crate::text::{
    as_option_str, blank, chars_of, index_where, is_blank, lemma_index_where, lemma_trimmed_end,
    option_str_view, option_view, owned, str_eq, string_of, trim, trim_end_char, trimmed,
    trimmed_end_where, views,
};

verus! {

/// An address at which a service is reached. Its kind is `local`, `lan` or
/// `tailscale`.
#[derive(Debug)]
pub struct PairingAddress {
    pub kind: &'static str,
    pub url: String,
}

/// An address as the contracts speak of it.
pub struct AddressView {
    pub kind: Seq<char>,
    pub url: Seq<char>,
}

impl View for PairingAddress {
    type V = AddressView;

    open spec fn view(&self) -> AddressView {
        AddressView { kind: self.kind@, url: self.url@ }
    }
}

/// What each address of a list is.
pub open spec fn address_views(list: Seq<PairingAddress>) -> Seq<AddressView> {
    list.map_values(|address: PairingAddress| address@)
}

/// An address with the URL is in the list.
pub open spec fn url_listed(list: Seq<AddressView>, url: Seq<char>) -> bool {
    exists|i: int| 0 <= i < list.len() && #[trigger] list[i].url == url
}

/// The list with one more address, where its URL is new.
pub open spec fn with_address(list: Seq<AddressView>, kind: Seq<char>, url: Seq<char>) -> Seq<
    AddressView,
> {
    if url_listed(list, url) {
        list
    } else {
        list.push(AddressView { kind, url })
    }
}

pub fn push_pairing_address(addresses: &mut Vec<PairingAddress>, kind: &'static str, url: String)
    ensures
        address_views(final(addresses)@) == with_address(
            address_views(old(addresses)@),
            kind@,
            url@,
        ),
{
    let ghost before = address_views(addresses@);
    let mut i: usize = 0;
    while i < addresses.len()
        invariant
            i <= addresses@.len(),
            before == address_views(addresses@),
            *addresses == *old(addresses),
            forall|j: int| 0 <= j < i ==> #[trigger] before[j].url != url@,
        decreases addresses@.len() - i,
    {
        assert(before[i as int] == addresses@[i as int]@);
        if str_eq(addresses[i].url.as_str(), url.as_str()) {
            assert(before[i as int].url == url@);
            return;
        }
        i += 1;
    }
    let ghost added = AddressView { kind: kind@, url: url@ };
    addresses.push(PairingAddress { kind, url });
    assert(address_views(addresses@) =~= before.push(added));
}

/// No two addresses have the same URL.
pub open spec fn urls_differ(list: Seq<AddressView>) -> bool {
    forall|i: int, j: int|
        0 <= i < j < list.len() ==> #[trigger] list[i].url != #[trigger] list[j].url
}

/// The kind of an advertised host.
pub open spec fn host_kind(host: Seq<char>) -> Seq<char> {
    if tailscale_host(host) {
        "tailscale"@
    } else {
        "lan"@
    }
}

/// A host that names the machine itself.
pub open spec fn own_host(host: Seq<char>) -> bool {
    host == "127.0.0.1"@ || host == "localhost"@
}

/// The list with the address of an advertised host, where there is one that
/// leads anywhere else than to the machine itself.
pub open spec fn with_advertised(
    list: Seq<AddressView>,
    host: Option<Seq<char>>,
    port: u16,
    selector: Option<Seq<char>>,
) -> Seq<AddressView> {
    match host {
        Some(name) => if own_host(name) {
            list
        } else {
            with_address(list, host_kind(name), ui_url(host_url(name, port), selector))
        },
        None => list,
    }
}

/// The list with the address of an interface that was found.
pub open spec fn with_found(
    list: Seq<AddressView>,
    kind: Seq<char>,
    found: Option<Seq<char>>,
    port: u16,
    selector: Option<Seq<char>>,
) -> Seq<AddressView> {
    match found {
        Some(text) => with_address(list, kind, ui_url(host_url(text, port), selector)),
        None => list,
    }
}

/// The addresses of a service: the local one first, then the advertised one,
/// then those that were found, each URL once.
pub open spec fn address_list(
    local: Seq<char>,
    host: Option<Seq<char>>,
    lan: Option<Seq<char>>,
    tailscale: Option<Seq<char>>,
    port: u16,
    selector: Option<Seq<char>>,
) -> Seq<AddressView> {
    let first = seq![AddressView { kind: "local"@, url: local }];
    with_found(
        with_found(with_advertised(first, host, port, selector), "lan"@, lan, port, selector),
        "tailscale"@,
        tailscale,
        port,
        selector,
    )
}

/// The text of an optional address.
pub open spec fn option_ip_text(ip: Option<&IpAddr>) -> Option<Seq<char>> {
    match ip {
        Some(address) => Some(address@.text()),
        None => None,
    }
}

fn list_addresses(
    local: String,
    host: Option<&str>,
    lan: Option<&IpAddr>,
    tailscale: Option<&IpAddr>,
    port: u16,
    selector: Option<&str>,
) -> (addresses: Vec<PairingAddress>)
    ensures
        address_views(addresses@) == address_list(
            local@,
            option_str_view(host),
            option_ip_text(lan),
            option_ip_text(tailscale),
            port,
            option_str_view(selector),
        ),
{
    let mut addresses: Vec<PairingAddress> = Vec::new();
    let ghost first = AddressView { kind: "local"@, url: local@ };
    addresses.push(PairingAddress { kind: "local", url: local });
    assert(address_views(addresses@) =~= seq![first]);
    if let Some(name) = host {
        if !str_eq(name, "127.0.0.1") && !str_eq(name, "localhost") {
            let kind = if is_tailscale_host(name) {
                "tailscale"
            } else {
                "lan"
            };
            push_pairing_address(
                &mut addresses,
                kind,
                ui_url_from_base(http_url_for_host(name, port), selector),
            );
        }
    }
    if let Some(ip) = lan {
        push_pairing_address(
            &mut addresses,
            "lan",
            ui_url_from_base(http_url_for_host(ip.to_text().as_str(), port), selector),
        );
    }
    if let Some(ip) = tailscale {
        push_pairing_address(
            &mut addresses,
            "tailscale",
            ui_url_from_base(http_url_for_host(ip.to_text().as_str(), port), selector),
        );
    }
    addresses
}

/// A host that is advertised, where it is not blank.
pub open spec fn advertised(host: Option<Seq<char>>) -> Option<Seq<char>> {
    match host {
        Some(name) => if blank(name) {
            None
        } else {
            Some(name)
        },
        None => None,
    }
}

/// The addresses of a recorded service, which may select a device. `lan` and
/// `tailscale` are the addresses of the machine that were found.
pub fn service_addresses(
    metadata: &ServiceMetadata,
    selector: Option<&str>,
    lan: Option<&IpAddr>,
    tailscale: Option<&IpAddr>,
) -> (addresses: Vec<PairingAddress>)
    ensures
        address_views(addresses@) == address_list(
            ui_url(metadata@.http_url, option_str_view(selector)),
            match advertised(metadata@.advertise_host) {
                Some(name) => Some(trimmed(name)),
                None => None,
            },
            option_ip_text(lan),
            option_ip_text(tailscale),
            metadata@.port,
            option_str_view(selector),
        ),
{
    let mut host: Option<String> = None;
    if let Some(name) = &metadata.advertise_host {
        if !is_blank(name.as_str()) {
            host = Some(trim(name.as_str()));
        }
    }
    let local = ui_url_from_base(metadata.http_url.clone(), selector);
    list_addresses(local, as_option_str(&host), lan, tailscale, metadata.port, selector)
}

/// The service that a device is paired with.
#[derive(Debug)]
pub struct PairingTarget {
    pub target: &'static str,
    pub service: Option<String>,
    pub project_root: Option<String>,
    pub pid: Option<u32>,
    pub http_url: String,
    pub port: u16,
    pub advertise_host: Option<String>,
    pub server_id: Option<String>,
    pub pairing_code: String,
}

/// The target as the contracts speak of it.
pub struct PairingTargetView {
    pub target: Seq<char>,
    pub service: Option<Seq<char>>,
    pub project_root: Option<Seq<char>>,
    pub pid: Option<u32>,
    pub http_url: Seq<char>,
    pub port: u16,
    pub advertise_host: Option<Seq<char>>,
    pub server_id: Option<Seq<char>>,
    pub pairing_code: Seq<char>,
}

impl View for PairingTarget {
    type V = PairingTargetView;

    open spec fn view(&self) -> PairingTargetView {
        PairingTargetView {
            target: self.target@,
            service: option_view(self.service),
            project_root: option_view(self.project_root),
            pid: self.pid,
            http_url: self.http_url@,
            port: self.port,
            advertise_host: option_view(self.advertise_host),
            server_id: option_view(self.server_id),
            pairing_code: self.pairing_code@,
        }
    }
}

impl PairingTarget {
    /// The target that a LaunchAgent is, with the identity that its token gives.
    pub fn from_service(result: ServiceInstallResult, server_id: Option<String>) -> (target: Result<
        PairingTarget,
        SimdeckError,
    >)
        ensures
            match target {
                Ok(found) => result@.pairing_code is Some && found@ == (PairingTargetView {
                    target: "service"@,
                    service: Some(result@.service),
                    project_root: None,
                    pid: None,
                    http_url: host_url("127.0.0.1"@, result@.port),
                    port: result@.port,
                    advertise_host: result@.advertise_host,
                    server_id: option_view(server_id),
                    pairing_code: result@.pairing_code->Some_0,
                }),
                Err(error) => result@.pairing_code is None && error.text()
                    == "SimDeck service did not publish a pairing code"@,
            },
    {
        match result.pairing_code {
            Some(pairing_code) => Ok(
                PairingTarget {
                    target: "service",
                    service: Some(result.service),
                    project_root: None,
                    pid: None,
                    http_url: http_url_for_host("127.0.0.1", result.port),
                    port: result.port,
                    advertise_host: result.advertise_host,
                    server_id,
                    pairing_code,
                },
            ),
            None => Err(
                SimdeckError::from_text("SimDeck service did not publish a pairing code"),
            ),
        }
    }
}

/// The addresses of a service that a device is paired with.
pub fn pairing_addresses(
    target: &PairingTarget,
    lan: Option<&IpAddr>,
    tailscale: Option<&IpAddr>,
) -> (addresses: Vec<PairingAddress>)
    ensures
        address_views(addresses@) == address_list(
            host_url("127.0.0.1"@, target@.port),
            advertised(target@.advertise_host),
            option_ip_text(lan),
            option_ip_text(tailscale),
            target@.port,
            None,
        ),
{
    let mut host: Option<&str> = None;
    if let Some(name) = &target.advertise_host {
        if !is_blank(name.as_str()) {
            host = Some(name.as_str());
        }
    }
    let local = http_url_for_host("127.0.0.1", target.port);
    list_addresses(local, host, lan, tailscale, target.port, None)
}

/// The addresses of a service start with the local one, and no two of them have
/// the same URL.
pub proof fn addresses_are_distinct(
    local: Seq<char>,
    host: Option<Seq<char>>,
    lan: Option<Seq<char>>,
    tailscale: Option<Seq<char>>,
    port: u16,
    selector: Option<Seq<char>>,
)
    ensures
        ({
            let list = address_list(local, host, lan, tailscale, port, selector);
            &&& list.len() > 0
            &&& list[0] == (AddressView { kind: "local"@, url: local })
            &&& urls_differ(list)
        }),
{
    let first = seq![AddressView { kind: "local"@, url: local }];
    let second = with_advertised(first, host, port, selector);
    let third = with_found(second, "lan"@, lan, port, selector);
    lemma_with_address(first);
    lemma_with_address(second);
    lemma_with_address(third);
}

proof fn lemma_with_address(list: Seq<AddressView>)
    requires
        list.len() > 0,
        urls_differ(list),
    ensures
        forall|kind: Seq<char>, url: Seq<char>|
            {
                let after = #[trigger] with_address(list, kind, url);
                after.len() > 0 && after[0] == list[0] && urls_differ(after)
            },
{
}

/// What `http::Uri` makes of a text: its authority, where the text is a URI
/// that has one.
pub uninterp spec fn uri_authority(text: Seq<char>) -> Option<Seq<char>>;

/// Parses a text as an `http::Uri` and takes its `authority`. The result
/// depends on the text alone, and bears a name; which texts are URIs is not
/// said here.
#[verifier::external_body]
fn authority_of(text: &str) -> (authority: Option<String>)
    ensures
        option_view(authority) == uri_authority(text@),
{
    let uri = text.parse::<http::Uri>().ok()?;
    uri.authority().map(|authority| authority.as_str().to_owned())
}

/// The short form of an address: its authority where it has one, else all of it.
pub open spec fn address_value(url: Seq<char>, authority: Option<Seq<char>>) -> Seq<char> {
    match authority {
        Some(text) => text,
        None => url,
    }
}

/// The short form of an address that has the given authority.
pub fn address_value_of(url: &str, authority: Option<String>) -> (value: String)
    ensures
        value@ == address_value(url@, option_view(authority)),
{
    match authority {
        Some(text) => text,
        None => owned(url),
    }
}

pub fn pairing_address_value(url: &str) -> (value: String)
    ensures
        value@ == address_value(url@, uri_authority(url@)),
{
    address_value_of(url, authority_of(url))
}

/// The first address that leads beyond the machine, else the first of all.
pub open spec fn primary_of(addresses: Seq<AddressView>) -> Option<AddressView> {
    match first_remote(addresses) {
        Some(address) => Some(address),
        None => if addresses.len() > 0 {
            Some(addresses[0])
        } else {
            None
        },
    }
}

/// The first address that leads beyond the machine.
pub open spec fn first_remote(addresses: Seq<AddressView>) -> Option<AddressView>
    decreases addresses.len(),
{
    if addresses.len() == 0 {
        None
    } else if addresses[0].kind != "local"@ {
        Some(addresses[0])
    } else {
        first_remote(addresses.drop_first())
    }
}

/// The URL of the first address that leads beyond the machine, else of the
/// first of all.
pub fn primary_url(addresses: &Vec<PairingAddress>) -> (url: Option<&str>)
    ensures
        option_str_view(url) == match primary_of(address_views(addresses@)) {
            Some(address) => Some(address.url),
            None => None,
        },
{
    let ghost all = address_views(addresses@);
    let mut i: usize = 0;
    assert(all.skip(0) =~= all);
    while i < addresses.len()
        invariant
            i <= addresses@.len(),
            all == address_views(addresses@),
            first_remote(all) == first_remote(all.skip(i as int)),
        decreases addresses@.len() - i,
    {
        assert(all.skip(i as int)[0] == addresses@[i as int]@);
        assert(all.skip(i as int).drop_first() =~= all.skip(i + 1));
        if !str_eq(addresses[i].kind, "local") {
            return Some(addresses[i].url.as_str());
        }
        i += 1;
    }
    assert(all.skip(i as int) =~= Seq::empty());
    if addresses.len() > 0 {
        Some(addresses[0].url.as_str())
    } else {
        None
    }
}

/// The URLs of the addresses beyond the machine, but for the primary one.
pub open spec fn alternates(addresses: Seq<AddressView>, primary: Seq<char>) -> Seq<Seq<char>>
    decreases addresses.len(),
{
    if addresses.len() == 0 {
        Seq::empty()
    } else {
        let before = alternates(addresses.drop_last(), primary);
        let address = addresses.last();
        if address.url != primary && address.kind != "local"@ {
            before.push(address.url)
        } else {
            before
        }
    }
}

/// The URLs of the addresses beyond the machine, but for the primary one.
pub fn alternate_urls(addresses: &Vec<PairingAddress>, primary: &str) -> (urls: Vec<String>)
    ensures
        views(urls@) == alternates(address_views(addresses@), primary@),
{
    let ghost all = address_views(addresses@);
    let mut urls: Vec<String> = Vec::new();
    let mut i: usize = 0;
    assert(all.take(0) =~= Seq::empty());
    assert(views(urls@) =~= Seq::empty());
    while i < addresses.len()
        invariant
            i <= addresses@.len(),
            all == address_views(addresses@),
            views(urls@) == alternates(all.take(i as int), primary@),
        decreases addresses@.len() - i,
    {
        let ghost before = views(urls@);
        let address = &addresses[i];
        i += 1;
        assert(all.take(i as int).drop_last() =~= all.take(i - 1));
        assert(all.take(i as int).last() == address@);
        if !str_eq(address.url.as_str(), primary) && !str_eq(address.kind, "local") {
            urls.push(address.url.clone());
            assert(views(urls@) =~= before.push(address.url@));
        }
    }
    assert(all.take(i as int) =~= all);
    urls
}

/// A local address is among the alternates of a link only under the URL of
/// another address that is not local.
pub proof fn alternates_lead_beyond_the_machine(addresses: Seq<AddressView>, primary: Seq<char>)
    ensures
        forall|i: int|
            0 <= i < alternates(addresses, primary).len() ==> {
                let url = #[trigger] alternates(addresses, primary)[i];
                &&& url != primary
                &&& exists|j: int|
                    0 <= j < addresses.len() && #[trigger] addresses[j].url == url
                        && addresses[j].kind != "local"@
            },
    decreases addresses.len(),
{
    if addresses.len() > 0 {
        let front = addresses.drop_last();
        alternates_lead_beyond_the_machine(front, primary);
        assert forall|i: int| 0 <= i < alternates(addresses, primary).len() implies {
            let url = #[trigger] alternates(addresses, primary)[i];
            &&& url != primary
            &&& exists|j: int|
                0 <= j < addresses.len() && #[trigger] addresses[j].url == url && addresses[j].kind
                    != "local"@
        } by {
            let before = alternates(front, primary);
            let url = alternates(addresses, primary)[i];
            if i < before.len() {
                assert(before[i] == url);
                let j = choose|j: int|
                    0 <= j < front.len() && #[trigger] front[j].url == url && front[j].kind
                        != "local"@;
                assert(addresses[j] == front[j]);
            } else {
                assert(addresses[addresses.len() - 1].url == url);
            }
        }
    }
}

/// The parameters of a link that carry alternate addresses.
pub open spec fn alternate_parameters(values: Seq<Seq<char>>) -> Seq<char>
    decreases values.len(),
{
    if values.len() == 0 {
        Seq::empty()
    } else {
        alternate_parameters(values.drop_last()) + "&a="@ + percent_encoded(values.last())
    }
}

fn append_alternates(link: &mut String, values: &Vec<String>)
    ensures
        final(link)@ == old(link)@ + alternate_parameters(views(values@)),
{
    let ghost all = views(values@);
    let ghost start = link@;
    let mut i: usize = 0;
    assert(all.take(0) =~= Seq::empty());
    assert(start + Seq::<char>::empty() =~= start);
    while i < values.len()
        invariant
            i <= values@.len(),
            all == views(values@),
            link@ == start + alternate_parameters(all.take(i as int)),
        decreases values@.len() - i,
    {
        let ghost before = alternate_parameters(all.take(i as int));
        link.append("&a=");
        link.append(percent_encode(values[i].as_str()).as_str());
        i += 1;
        assert(all.take(i as int).drop_last() =~= all.take(i - 1));
        assert(all.take(i as int).last() == values@[i - 1]@);
        assert(link@ =~= start + (before + "&a="@ + percent_encoded(values@[i - 1]@)));
    }
    assert(all.take(i as int) =~= all);
}

/// The short forms of URLs.
pub open spec fn address_values(urls: Seq<Seq<char>>) -> Seq<Seq<char>> {
    urls.map_values(|url: Seq<char>| address_value(url, uri_authority(url)))
}

fn short_forms(urls: &Vec<String>) -> (values: Vec<String>)
    ensures
        views(values@) == address_values(views(urls@)),
{
    let ghost all = views(urls@);
    let mut values: Vec<String> = Vec::new();
    let mut i: usize = 0;
    while i < urls.len()
        invariant
            i <= urls@.len(),
            all == views(urls@),
            views(values@) =~= address_values(all).take(i as int),
        decreases urls@.len() - i,
    {
        let ghost before = views(values@);
        assert(all[i as int] == urls@[i as int]@);
        let value = pairing_address_value(urls[i].as_str());
        assert(value@ == address_values(all)[i as int]);
        values.push(value);
        assert(views(values@) =~= before.push(value@));
        i += 1;
    }
    assert(views(values@) =~= address_values(all));
    values
}

/// The link that pairs a device with a service.
pub open spec fn pair_link(
    primary: Seq<char>,
    code: Seq<char>,
    server_id: Option<Seq<char>>,
    others: Seq<Seq<char>>,
) -> Seq<char> {
    "simdeck://pair?u="@ + percent_encoded(primary) + "&c="@ + percent_encoded(code) + (
    match server_id {
        Some(id) => if id.len() == 0 {
            Seq::empty()
        } else {
            "&s="@ + percent_encoded(id)
        },
        None => Seq::empty(),
    }) + alternate_parameters(others)
}

/// The link that pairs a device with a service at the given short addresses.
pub fn pair_link_of(
    primary: &str,
    code: &str,
    server_id: Option<&str>,
    others: &Vec<String>,
) -> (link: String)
    ensures
        link@ == pair_link(primary@, code@, option_str_view(server_id), views(others@)),
{
    let mut link = owned("simdeck://pair?u=");
    link.append(percent_encode(primary).as_str());
    link.append("&c=");
    link.append(percent_encode(code).as_str());
    let ghost front = link@;
    if let Some(id) = server_id {
        if !id.is_empty() {
            link.append("&s=");
            link.append(percent_encode(id).as_str());
            assert(link@ =~= front + ("&s="@ + percent_encoded(id@)));
        } else {
            assert(link@ =~= front + Seq::<char>::empty());
        }
    } else {
        assert(link@ =~= front + Seq::<char>::empty());
    }
    append_alternates(&mut link, others);
    link
}

/// The link that pairs a device with a service.
pub fn simdeck_pair_url(
    primary: &str,
    pairing_code: &str,
    server_id: Option<&str>,
    addresses: &Vec<PairingAddress>,
) -> (url: String)
    ensures
        url@ == pair_link(
            address_value(primary@, uri_authority(primary@)),
            pairing_code@,
            option_str_view(server_id),
            address_values(alternates(address_views(addresses@), primary@)),
        ),
{
    let value = pairing_address_value(primary);
    let others = short_forms(&alternate_urls(addresses, primary));
    pair_link_of(value.as_str(), pairing_code, server_id, &others)
}

/// The base of a link, without white space around it and slashes at its end.
pub open spec fn link_base(base: Seq<char>) -> Seq<char> {
    trimmed_end_where(trimmed(base), |c: char| c == '/')
}

/// The link that opens a device of a service.
pub open spec fn open_link(
    base: Seq<char>,
    primary: Seq<char>,
    udid: Seq<char>,
    others: Seq<Seq<char>>,
) -> Seq<char> {
    link_base(base) + "/open?u="@ + percent_encoded(primary) + "&udid="@ + percent_encoded(udid)
        + alternate_parameters(others)
}

/// The link that opens a device of a service at the given short addresses.
pub fn open_link_of(base: &str, primary: &str, udid: &str, others: &Vec<String>) -> (link: String)
    ensures
        link@ == open_link(base@, primary@, udid@, views(others@)),
{
    let mut link = trim_end_char(trim(base).as_str(), '/');
    link.append("/open?u=");
    link.append(percent_encode(primary).as_str());
    link.append("&udid=");
    link.append(percent_encode(udid).as_str());
    append_alternates(&mut link, others);
    link
}

pub fn simdeck_open_link(base: &str, udid: &str, addresses: &Vec<PairingAddress>) -> (result: Result<
    String,
    SimdeckError,
>)
    ensures
        match result {
            Ok(link) => {
                &&& link_base(base@).len() > 0
                &&& primary_of(address_views(addresses@)) matches Some(primary) && link@
                    == open_link(
                    base@,
                    address_value(primary.url, uri_authority(primary.url)),
                    udid@,
                    address_values(alternates(address_views(addresses@), primary.url)),
                )
            },
            Err(error) => if link_base(base@).len() == 0 {
                error.text() == "link base URL must not be empty"@
            } else {
                addresses@.len() == 0 && error.text() == "No SimDeck server address is available"@
            },
        },
{
    let trimmed_base = trim_end_char(trim(base).as_str(), '/');
    if trimmed_base.as_str().is_empty() {
        return Err(SimdeckError::from_text("link base URL must not be empty"));
    }
    match primary_url(addresses) {
        Some(primary) => {
            let value = pairing_address_value(primary);
            let others = short_forms(&alternate_urls(addresses, primary));
            Ok(open_link_of(base, value.as_str(), udid, &others))
        },
        None => Err(SimdeckError::from_text("No SimDeck server address is available")),
    }
}

/// An error of the QR encoder.
#[verifier::external_type_specification]
#[verifier::external_body]
pub struct QrEncodingError(qrcode::types::QrError);

/// What `qrcode` draws for a text: the code of its UTF-8 bytes, with a quiet
/// zone, two modules to a character and dark modules left blank; nothing where
/// the bytes do not fit a code.
pub uninterp spec fn qr_drawing(text: Seq<char>) -> Option<Seq<char>>;

/// Encodes a text with `qrcode::QrCode::new` and draws it with `render`. The
/// result depends on the text alone, and bears a name; what it looks like is
/// not said here.
#[verifier::external_body]
fn draw_qr_code(text: &str) -> (result: Result<String, qrcode::types::QrError>)
    ensures
        match result {
            Ok(drawing) => qr_drawing(text@) == Some(drawing@),
            Err(_) => qr_drawing(text@) is None,
        },
{
    let code = qrcode::QrCode::new(text.as_bytes())?;
    let mut canvas = code.render::<qrcode::render::unicode::Dense1x2>();
    canvas.quiet_zone(true);
    canvas.dark_color(qrcode::render::unicode::Dense1x2::Light);
    canvas.light_color(qrcode::render::unicode::Dense1x2::Dark);
    Ok(canvas.build())
}

pub fn render_qr_code(value: &str) -> (result: Result<String, SimdeckError>)
    ensures
        match result {
            Ok(drawing) => qr_drawing(value@) == Some(drawing@),
            Err(error) => qr_drawing(value@) is None && error.text() == "generate pairing QR code"@,
        },
{
    match draw_qr_code(value) {
        Ok(drawing) => Ok(drawing),
        Err(_) => Err(SimdeckError::from_text("generate pairing QR code")),
    }
}

/// The number of bytes of a character in UTF-8.
pub open spec fn utf8_width(c: char) -> nat {
    if (c as u32) < 0x80 {
        1
    } else if (c as u32) < 0x800 {
        2
    } else if (c as u32) < 0x10000 {
        3
    } else {
        4
    }
}

/// The number of bytes of a text in UTF-8.
pub open spec fn utf8_length(s: Seq<char>) -> nat
    decreases s.len(),
{
    if s.len() == 0 {
        0
    } else {
        utf8_length(s.drop_last()) + utf8_width(s.last())
    }
}

/// A code of six bytes that can be parted after three of them.
pub open spec fn halves(code: Seq<char>, half: int) -> bool {
    0 <= half <= code.len() && utf8_length(code) == 6 && utf8_length(code.take(half)) == 3
}

/// A code that is not of six bytes, or can be parted after three of them.
pub open spec fn can_be_formatted(code: Seq<char>) -> bool {
    utf8_length(code) == 6 ==> exists|half: int| halves(code, half)
}

/// A pairing code as it is shown: one of six bytes in two halves.
pub open spec fn shown_code(code: Seq<char>) -> Seq<char> {
    if utf8_length(code) == 6 {
        let half = choose|half: int| halves(code, half);
        code.take(half) + " "@ + code.skip(half)
    } else {
        code
    }
}

fn width_of(c: char) -> (width: usize)
    ensures
        width == utf8_width(c),
{
    let code: u32 = c as u32;
    if code < 0x80 {
        1
    } else if code < 0x800 {
        2
    } else if code < 0x10000 {
        3
    } else {
        4
    }
}

proof fn lemma_utf8_length_grows(s: Seq<char>, i: int, j: int)
    requires
        0 <= i <= j <= s.len(),
    ensures
        utf8_length(s.take(j)) >= utf8_length(s.take(i)) + (j - i),
    decreases j - i,
{
    if i < j {
        lemma_utf8_length_grows(s, i, j - 1);
        assert(s.take(j).drop_last() =~= s.take(j - 1));
    }
}

/// Shows a pairing code: one of six bytes in two halves.
pub fn format_pairing_code(pairing_code: &str) -> (shown: String)
    requires
        can_be_formatted(pairing_code@),
    ensures
        shown@ == shown_code(pairing_code@),
{
    let chars = chars_of(pairing_code);
    let ghost code = pairing_code@;
    let mut width: usize = 0;
    let mut half: usize = 0;
    let mut i: usize = 0;
    assert(code.take(0) =~= Seq::empty());
    while i < chars.len() && width <= 6
        invariant
            i <= chars@.len(),
            chars@ == code,
            width == utf8_length(code.take(i as int)),
            width <= 10,
            half <= i,
            utf8_length(code.take(half as int)) <= 3,
            forall|k: int|
                half < k <= i ==> utf8_length(#[trigger] code.take(k)) > 3,
        decreases chars@.len() - i,
    {
        width = width + width_of(chars[i]);
        i += 1;
        assert(code.take(i as int).drop_last() =~= code.take(i - 1));
        if width <= 3 {
            proof {
                lemma_utf8_length_grows(code, half as int, i - 1);
            }
            half = i;
        }
    }
    assert(code.take(code.len() as int) =~= code);
    if i < chars.len() || width != 6 {
        proof {
            lemma_utf8_length_grows(code, i as int, code.len() as int);
        }
        return owned(pairing_code);
    }
    proof {
        let split = choose|k: int| halves(code, k);
        assert(halves(code, split));
        if split < half {
            lemma_utf8_length_grows(code, split, half as int);
        }
        assert(split == half);
    }
    let mut shown = string_of(&chars, 0, half);
    assert(shown@ =~= code.take(half as int));
    shown.append(" ");
    shown.append(string_of(&chars, half, chars.len()).as_str());
    assert(code.subrange(half as int, code.len() as int) =~= code.skip(half as int));
    shown
}

/// A text of at least `width` characters: spaces in front of a shorter one.
pub open spec fn right_aligned(text: Seq<char>, width: nat) -> Seq<char> {
    if text.len() >= width {
        text
    } else {
        Seq::new((width - text.len()) as nat, |i: int| ' ') + text
    }
}

fn align_right(text: &str, width: usize) -> (aligned: String)
    ensures
        aligned@ == right_aligned(text@, width as nat),
{
    let length = chars_of(text).len();
    let mut aligned = String::new();
    let mut i: usize = length;
    while i < width
        invariant
            length == text@.len(),
            length <= i,
            i <= width || i == length,
            aligned@ =~= Seq::new((i - length) as nat, |k: int| ' '),
        decreases width - i,
    {
        aligned.push(' ');
        i += 1;
    }
    aligned.append(text);
    assert(aligned@ =~= right_aligned(text@, width as nat));
    aligned
}

/// A line of a report.
pub open spec fn report_line_text(label: Seq<char>, text: Seq<char>) -> Seq<char> {
    right_aligned(label, 12) + "   "@ + text
}

pub fn report_line(label: &str, text: &str) -> (line: String)
    ensures
        line@ == report_line_text(label@, text@),
{
    let mut line = align_right(label, 12);
    line.append("   ");
    line.append(text);
    line
}

/// The label of a kind of address.
pub open spec fn kind_label(kind: Seq<char>) -> Seq<char> {
    if kind == "local"@ {
        "Local:"@
    } else if kind == "lan"@ {
        "LAN:"@
    } else if kind == "tailscale"@ {
        "Tailscale:"@
    } else {
        "URL:"@
    }
}

fn label_of_kind(kind: &str) -> (label: &'static str)
    ensures
        label@ == kind_label(kind@),
{
    if str_eq(kind, "local") {
        "Local:"
    } else if str_eq(kind, "lan") {
        "LAN:"
    } else if str_eq(kind, "tailscale") {
        "Tailscale:"
    } else {
        "URL:"
    }
}

/// The lines of a report that show addresses.
pub open spec fn address_report(addresses: Seq<AddressView>) -> Seq<Seq<char>> {
    addresses.map_values(
        |address: AddressView| report_line_text(kind_label(address.kind), address.url),
    )
}

/// The lines of a report that show addresses.
pub fn address_lines(addresses: &Vec<PairingAddress>) -> (lines: Vec<String>)
    ensures
        views(lines@) == address_report(address_views(addresses@)),
{
    let ghost all = address_views(addresses@);
    let mut lines: Vec<String> = Vec::new();
    let mut i: usize = 0;
    while i < addresses.len()
        invariant
            i <= addresses@.len(),
            all == address_views(addresses@),
            views(lines@) =~= address_report(all).take(i as int),
        decreases addresses@.len() - i,
    {
        let ghost before = views(lines@);
        assert(all[i as int] == addresses@[i as int]@);
        let line = report_line(label_of_kind(addresses[i].kind), addresses[i].url.as_str());
        assert(line@ == address_report(all)[i as int]);
        lines.push(line);
        assert(views(lines@) =~= before.push(line@));
        i += 1;
    }
    assert(views(lines@) =~= address_report(all));
    lines
}

/// The link that pairs a device with a target: that of the primary address.
pub open spec fn target_link(target: PairingTargetView, addresses: Seq<AddressView>) -> Option<
    Seq<char>,
> {
    match primary_of(addresses) {
        Some(primary) => Some(
            pair_link(
                address_value(primary.url, uri_authority(primary.url)),
                target.pairing_code,
                target.server_id,
                address_values(alternates(addresses, primary.url)),
            ),
        ),
        None => None,
    }
}

/// The pairing link that a report shows: that of the primary address.
pub fn pairing_link(target: &PairingTarget, addresses: &Vec<PairingAddress>) -> (result: Result<
    String,
    SimdeckError,
>)
    ensures
        match result {
            Ok(link) => target_link(target@, address_views(addresses@)) == Some(link@),
            Err(error) => addresses@.len() == 0 && error.text()
                == "No SimDeck pairing address is available"@,
        },
{
    match primary_url(addresses) {
        Some(primary) => Ok(
            simdeck_pair_url(
                primary,
                target.pairing_code.as_str(),
                as_option_str(&target.server_id),
                addresses,
            ),
        ),
        None => Err(SimdeckError::from_text("No SimDeck pairing address is available")),
    }
}

/// The lines that stand above the QR code.
pub open spec fn head_of_pairing_report(target: PairingTargetView, addresses: Seq<AddressView>)
    -> Seq<Seq<char>> {
    seq!["🔐 SimDeck pairing"@, Seq::empty()] + address_report(addresses) + seq![
        report_line_text("Pair:"@, shown_code(target.pairing_code)),
        Seq::empty(),
        "Scan this with SimDeck for iOS:"@,
        Seq::empty(),
    ]
}

/// The lines that stand above the QR code, which are shown before it is drawn: a
/// headline, the addresses and the code.
pub fn pairing_report_head(target: &PairingTarget, addresses: &Vec<PairingAddress>) -> (lines: Vec<
    String,
>)
    requires
        can_be_formatted(target@.pairing_code),
    ensures
        views(lines@) == head_of_pairing_report(target@, address_views(addresses@)),
{
    let mut lines: Vec<String> = Vec::new();
    lines.push(owned("🔐 SimDeck pairing"));
    lines.push(String::new());
    let ghost top = views(lines@);
    assert(top =~= seq!["🔐 SimDeck pairing"@, Seq::empty()]);
    let mut listed = address_lines(addresses);
    let ghost middle = views(listed@);
    lines.append(&mut listed);
    assert(views(lines@) =~= top + middle);
    let ghost shown = views(lines@);
    let code = format_pairing_code(target.pairing_code.as_str());
    let code_line = report_line("Pair:", code.as_str());
    let ghost pair = code_line@;
    lines.push(code_line);
    lines.push(String::new());
    lines.push(owned("Scan this with SimDeck for iOS:"));
    lines.push(String::new());
    assert(views(lines@) =~= shown + seq![
        pair,
        Seq::empty(),
        "Scan this with SimDeck for iOS:"@,
        Seq::empty(),
    ]);
    lines
}

/// The lines that tell the user how to pair: those above the QR code, the QR code
/// of the link and the link itself.
pub fn print_pairing_result(target: &PairingTarget, addresses: &Vec<PairingAddress>) -> (result: Result<
    Vec<String>,
    SimdeckError,
>)
    requires
        can_be_formatted(target@.pairing_code),
    ensures
        match result {
            Ok(lines) => {
                &&& target_link(target@, address_views(addresses@)) matches Some(link)
                &&& qr_drawing(link) matches Some(drawing)
                &&& views(lines@) == head_of_pairing_report(target@, address_views(addresses@))
                    + seq![drawing, report_line_text("Deep Link:"@, link)]
            },
            Err(error) => match target_link(target@, address_views(addresses@)) {
                Some(link) => qr_drawing(link) is None && error.text()
                    == "generate pairing QR code"@,
                None => error.text() == "No SimDeck pairing address is available"@,
            },
        },
{
    let link = match pairing_link(target, addresses) {
        Ok(link) => link,
        Err(error) => return Err(error),
    };
    let drawing = match render_qr_code(link.as_str()) {
        Ok(drawing) => drawing,
        Err(error) => return Err(error),
    };
    let mut lines = pairing_report_head(target, addresses);
    let link_line = report_line("Deep Link:", link.as_str());
    let ghost head = views(lines@);
    let ghost image = drawing@;
    let ghost deep = link_line@;
    lines.push(drawing);
    lines.push(link_line);
    assert(views(lines@) =~= head + seq![image, deep]);
    Ok(lines)
}

/// What `simdeck pair` is asked for.
#[derive(Debug)]
pub struct PairGlobalServiceOptions {
    pub port: Option<u16>,
    pub bind: IpAddr,
    pub advertise_host: Option<String>,
    pub client_root: Option<String>,
    pub video_codec: VideoCodecMode,
    pub android_gpu: AndroidGpuMode,
    pub low_latency: bool,
    pub stream_quality: Option<StreamQualityProfileArg>,
    pub local_stream_fps: Option<u32>,
}

/// The port of a service to pair with: the given one, else the installed one,
/// else the configured one, else the usual one.
pub open spec fn pair_port(
    given: Option<u16>,
    installed: Option<u16>,
    configured: Option<u16>,
) -> u16 {
    match given {
        Some(port) => port,
        None => match installed {
            Some(port) => port,
            None => match configured {
                Some(port) => port,
                None => SERVICE_PORT,
            },
        },
    }
}

/// The port of a service to pair with.
pub fn requested_pair_port(
    given: Option<u16>,
    installed: Option<u16>,
    configured: Option<u16>,
) -> (port: u16)
    ensures
        port == pair_port(given, installed, configured),
{
    match given {
        Some(port) => port,
        None => match installed {
            Some(port) => port,
            None => match configured {
                Some(port) => port,
                None => SERVICE_PORT,
            },
        },
    }
}

/// The host of a service to pair with: the given one, else an address of the
/// local network, else one of Tailscale.
pub open spec fn pair_host(
    given: Option<Seq<char>>,
    lan: Option<Seq<char>>,
    tailscale: Option<Seq<char>>,
) -> Option<Seq<char>> {
    match given {
        Some(host) => Some(host),
        None => match lan {
            Some(text) => Some(text),
            None => tailscale,
        },
    }
}

/// The LaunchAgent that `simdeck pair` asks for, without credentials.
pub open spec fn pair_request(
    options: PairGlobalServiceOptions,
    installed: Option<u16>,
    configured: Option<u16>,
    lan: Option<Seq<char>>,
    tailscale: Option<Seq<char>>,
) -> ServiceOptionsView {
    ServiceOptionsView {
        port: pair_port(options.port, installed, configured),
        bind: options.bind@,
        advertise_host: pair_host(option_view(options.advertise_host), lan, tailscale),
        client_root: option_view(options.client_root),
        video_codec: options.video_codec,
        android_gpu: options.android_gpu,
        low_latency: options.low_latency,
        stream_quality_profile: local_profile(options.low_latency, options.stream_quality),
        local_stream_fps: options.local_stream_fps,
        access_token: None,
        pairing_code: None,
    }
}

/// What `simdeck pair` asks for is what it is called with, in each of its options;
/// its credentials are left to be kept or made.
pub proof fn pairing_asks_for_its_options(
    options: PairGlobalServiceOptions,
    installed: Option<u16>,
    configured: Option<u16>,
    lan: Option<Seq<char>>,
    tailscale: Option<Seq<char>>,
)
    ensures
        ({
            let request = pair_request(options, installed, configured, lan, tailscale);
            &&& options.port matches Some(port) ==> request.port == port
            &&& request.bind == options.bind@
            &&& options.advertise_host is Some ==> request.advertise_host == option_view(
                options.advertise_host,
            )
            &&& options.advertise_host is None && lan is Some ==> request.advertise_host == lan
            &&& request.client_root == option_view(options.client_root)
            &&& request.video_codec == options.video_codec
            &&& request.android_gpu == options.android_gpu
            &&& request.low_latency == options.low_latency
            &&& request.local_stream_fps == options.local_stream_fps
            &&& options.stream_quality matches Some(profile) ==> request.stream_quality_profile
                == Some(profile.profile_id())
            &&& options.stream_quality is None ==> (request.stream_quality_profile is None
                <==> options.low_latency)
            &&& request.access_token is None && request.pairing_code is None
        }),
{
}

/// The LaunchAgent that `simdeck pair` asks for, without credentials.
/// `installed` is the port of the installed LaunchAgent, `configured` that of
/// the user's configuration; `lan` and `tailscale` are the machine's addresses.
pub fn pair_global_service(
    options: PairGlobalServiceOptions,
    installed: Option<u16>,
    configured: Option<u16>,
    lan: Option<&IpAddr>,
    tailscale: Option<&IpAddr>,
) -> (request: ServiceOptions)
    ensures
        request@ == pair_request(
            options,
            installed,
            configured,
            option_ip_text(lan),
            option_ip_text(tailscale),
        ),
        request@ == (ServiceOptionsView {
            port: pair_port(options.port, installed, configured),
            bind: options.bind@,
            advertise_host: pair_host(
                option_view(options.advertise_host),
                option_ip_text(lan),
                option_ip_text(tailscale),
            ),
            client_root: option_view(options.client_root),
            video_codec: options.video_codec,
            android_gpu: options.android_gpu,
            low_latency: options.low_latency,
            stream_quality_profile: local_profile(options.low_latency, options.stream_quality),
            local_stream_fps: options.local_stream_fps,
            access_token: None,
            pairing_code: None,
        }),
{
    let port = requested_pair_port(options.port, installed, configured);
    let advertise_host = match options.advertise_host {
        Some(host) => Some(host),
        None => match lan {
            Some(ip) => Some(ip.to_text()),
            None => match tailscale {
                Some(ip) => Some(ip.to_text()),
                None => None,
            },
        },
    };
    ServiceOptions {
        port,
        bind: options.bind,
        advertise_host,
        client_root: options.client_root,
        video_codec: options.video_codec,
        android_gpu: options.android_gpu,
        low_latency: options.low_latency,
        stream_quality_profile: local_stream_quality_profile(
            options.low_latency,
            options.stream_quality,
        ),
        local_stream_fps: options.local_stream_fps,
        access_token: None,
        pairing_code: None,
    }
}

/// A line on the progress of pairing.
pub open spec fn progress(message: Seq<char>) -> Seq<char> {
    "simdeck pair: "@ + message
}

/// A line on the progress of pairing.
pub fn print_pair_progress(message: &str) -> (line: String)
    ensures
        line@ == progress(message@),
{
    let mut line = owned("simdeck pair: ");
    line.append(message);
    line
}

/// The progress line that names the port that is asked for.
pub fn requesting_port_progress(port: u16) -> (line: String)
    ensures
        line@ == progress("requesting port "@ + decimal(port as nat)),
{
    let mut message = owned("requesting port ");
    message.append(decimal_text(port as u64).as_str());
    print_pair_progress(message.as_str())
}

/// The progress line that tells that a service made room for a LaunchAgent.
pub fn stopped_service_progress(port: u16) -> (line: String)
    ensures
        line@ == progress(
            "stopped foreground service on port "@ + decimal(port as nat)
                + " before installing LaunchAgent"@,
        ),
{
    let mut message = owned("stopped foreground service on port ");
    message.append(decimal_text(port as u64).as_str());
    message.append(" before installing LaunchAgent");
    print_pair_progress(message.as_str())
}

/// The progress line that tells which service is used.
pub fn installed_service_progress(result: &ServiceInstallResult) -> (line: String)
    ensures
        line@ == progress(
            (if result@.reused {
                "using "@
            } else {
                "installed "@
            }) + result@.service + " on port "@ + decimal(result@.port as nat) + "; logs: "@
                + result@.stdout_log + ", "@ + result@.stderr_log,
        ),
{
    let mut message = if result.reused {
        owned("using ")
    } else {
        owned("installed ")
    };
    message.append(result.service.as_str());
    message.append(" on port ");
    message.append(decimal_text(result.port as u64).as_str());
    message.append("; logs: ");
    message.append(result.stdout_log.as_str());
    message.append(", ");
    message.append(result.stderr_log.as_str());
    print_pair_progress(message.as_str())
}

/// The progress line that tells where the service is reached.
pub fn advertising_progress(target: &PairingTarget) -> (line: String)
    ensures
        line@ == progress(
            match target@.advertise_host {
                Some(host) => "advertising "@ + host + ":"@ + decimal(target@.port as nat),
                None => "no LAN or Tailscale address detected; local pairing only"@,
            },
        ),
{
    let message = match &target.advertise_host {
        Some(host) => {
            let mut text = owned("advertising ");
            text.append(host.as_str());
            text.append(":");
            text.append(decimal_text(target.port as u64).as_str());
            text
        },
        None => owned("no LAN or Tailscale address detected; local pairing only"),
    };
    print_pair_progress(message.as_str())
}

/// The progress line that tells which service is waited for.
pub fn waiting_progress(target: &PairingTarget) -> (line: String)
    ensures
        line@ == progress("waiting for service health at "@ + target@.http_url),
{
    let mut message = owned("waiting for service health at ");
    message.append(target.http_url.as_str());
    print_pair_progress(message.as_str())
}

/// The error of a service that does not answer in time.
pub fn service_timeout(http_url: &str) -> (error: SimdeckError)
    ensures
        error.text() == "Timed out waiting for SimDeck service at "@ + http_url@,
{
    let mut message = owned("Timed out waiting for SimDeck service at ");
    message.append(http_url);
    SimdeckError::new(message)
}

/// The lines that tell the user of a service: whether it was started, its
/// addresses, its pairing code and, where there is one, a note on live video.
pub fn print_service_metadata_result(
    metadata: &ServiceMetadata,
    addresses: &Vec<PairingAddress>,
    started: bool,
    live_video_note: Option<&str>,
) -> (lines: Vec<String>)
    requires
        metadata@.pairing_code matches Some(code) ==> can_be_formatted(code),
    ensures
        ({
            let shown = address_report(address_views(addresses@));
            let headline = if started {
                "SimDeck service is running"@
            } else {
                "SimDeck service is already running"@
            };
            views(lines@) == seq![headline, Seq::empty()] + shown + (match metadata@.pairing_code {
                Some(code) => seq![report_line_text("Pair:"@, shown_code(code))],
                None => Seq::empty(),
            }) + (match option_str_view(live_video_note) {
                Some(note) => seq![report_line_text("Live video:"@, note)],
                None => Seq::empty(),
            })
        }),
{
    let mut lines: Vec<String> = Vec::new();
    if started {
        lines.push(owned("SimDeck service is running"));
    } else {
        lines.push(owned("SimDeck service is already running"));
    }
    lines.push(String::new());
    let ghost top = views(lines@);
    assert(top =~= seq![
        if started {
            "SimDeck service is running"@
        } else {
            "SimDeck service is already running"@
        },
        Seq::empty(),
    ]);
    let mut shown = address_lines(addresses);
    let ghost middle = views(shown@);
    lines.append(&mut shown);
    assert(views(lines@) =~= top + middle);
    let ghost before = views(lines@);
    if let Some(pairing_code) = &metadata.pairing_code {
        let code = format_pairing_code(pairing_code.as_str());
        let line = report_line("Pair:", code.as_str());
        let ghost last = line@;
        lines.push(line);
        assert(views(lines@) =~= before + seq![last]);
    } else {
        assert(views(lines@) =~= before + Seq::empty());
    }
    let ghost told = views(lines@);
    if let Some(note) = live_video_note {
        let line = report_line("Live video:", note);
        let ghost last = line@;
        lines.push(line);
        assert(views(lines@) =~= told + seq![last]);
    } else {
        assert(views(lines@) =~= told + Seq::empty());
    }
    lines
}

/// The address of a URL is the list's last, or the URL was in the list before; the
/// addresses that were there stay, in order.
proof fn lemma_address_added(list: Seq<AddressView>, kind: Seq<char>, url: Seq<char>)
    ensures
        url_listed(with_address(list, kind, url), url),
        with_address(list, kind, url).take(list.len() as int) == list,
        forall|other: Seq<char>|
            url_listed(list, other) ==> #[trigger] url_listed(
                with_address(list, kind, url),
                other,
            ),
        forall|i: int|
            list.len() <= i < with_address(list, kind, url).len() ==> #[trigger] with_address(
                list,
                kind,
                url,
            )[i] == (AddressView { kind, url }),
{
    let after = with_address(list, kind, url);
    assert(after.take(list.len() as int) =~= list);
    if !url_listed(list, url) {
        assert(after[list.len() as int].url == url);
    }
    assert forall|other: Seq<char>| url_listed(list, other) implies #[trigger] url_listed(
        after,
        other,
    ) by {
        let i = choose|i: int| 0 <= i < list.len() && #[trigger] list[i].url == other;
        assert(after[i].url == other);
    }
}

/// A service is reached at every address that is known of it: that of its advertised
/// host, unless the host names the machine itself, and those that were found; and
/// behind the local address nothing else is listed.
pub proof fn known_addresses_are_listed(
    local: Seq<char>,
    host: Option<Seq<char>>,
    lan: Option<Seq<char>>,
    tailscale: Option<Seq<char>>,
    port: u16,
    selector: Option<Seq<char>>,
    i: int,
)
    requires
        0 < i < address_list(local, host, lan, tailscale, port, selector).len(),
    ensures
        ({
            let address = address_list(local, host, lan, tailscale, port, selector)[i];
            ||| host matches Some(name) && name != "127.0.0.1"@ && name != "localhost"@
                && address.url == ui_url(host_url(name, port), selector) && address.kind
                == host_kind(name)
            ||| lan matches Some(name) && address.kind == "lan"@ && address.url == ui_url(
                host_url(name, port),
                selector,
            )
            ||| tailscale matches Some(name) && address.kind == "tailscale"@ && address.url
                == ui_url(host_url(name, port), selector)
        }),
{
    let first = seq![AddressView { kind: "local"@, url: local }];
    let second = with_advertised(first, host, port, selector);
    let third = with_found(second, "lan"@, lan, port, selector);
    let all = address_list(local, host, lan, tailscale, port, selector);
    if let Some(name) = host {
        lemma_address_added(first, host_kind(name), ui_url(host_url(name, port), selector));
    }
    if let Some(name) = lan {
        lemma_address_added(second, "lan"@, ui_url(host_url(name, port), selector));
        if i < second.len() {
            assert(third.take(second.len() as int)[i] == third[i]);
        }
    }
    if let Some(name) = tailscale {
        lemma_address_added(third, "tailscale"@, ui_url(host_url(name, port), selector));
        if i < third.len() {
            assert(all.take(third.len() as int)[i] == all[i]);
        }
    }
}

/// A service is listed under every host that is known of it, but for one that names
/// the machine itself.
pub proof fn every_known_host_is_listed(
    local: Seq<char>,
    host: Option<Seq<char>>,
    lan: Option<Seq<char>>,
    tailscale: Option<Seq<char>>,
    port: u16,
    selector: Option<Seq<char>>,
)
    ensures
        ({
            let list = address_list(local, host, lan, tailscale, port, selector);
            &&& host matches Some(name) ==> (name != "127.0.0.1"@ && name != "localhost"@
                ==> url_listed(list, ui_url(host_url(name, port), selector)))
            &&& lan matches Some(name) ==> url_listed(
                list,
                ui_url(host_url(name, port), selector),
            )
            &&& tailscale matches Some(name) ==> url_listed(
                list,
                ui_url(host_url(name, port), selector),
            )
        }),
{
    let first = seq![AddressView { kind: "local"@, url: local }];
    let second = with_advertised(first, host, port, selector);
    let third = with_found(second, "lan"@, lan, port, selector);
    if let Some(name) = host {
        lemma_address_added(first, host_kind(name), ui_url(host_url(name, port), selector));
    }
    if let Some(name) = lan {
        lemma_address_added(second, "lan"@, ui_url(host_url(name, port), selector));
    }
    if let Some(name) = tailscale {
        lemma_address_added(third, "tailscale"@, ui_url(host_url(name, port), selector));
    }
}

/// A device is paired at the first address that leads beyond the machine; where none
/// does, at the first of all.
pub proof fn first_remote_address_is_primary(addresses: Seq<AddressView>, i: int)
    requires
        0 <= i < addresses.len(),
        forall|j: int| 0 <= j < i ==> #[trigger] addresses[j].kind == "local"@,
    ensures
        addresses[i].kind != "local"@ ==> primary_of(addresses) == Some(addresses[i]),
        addresses[i].kind == "local"@ && i == addresses.len() - 1 ==> primary_of(addresses) == Some(
            addresses[0],
        ),
        primary_of(Seq::empty()) is None,
{
    lemma_first_remote(addresses, i);
}

proof fn lemma_first_remote(addresses: Seq<AddressView>, i: int)
    requires
        0 <= i < addresses.len(),
        forall|j: int| 0 <= j < i ==> #[trigger] addresses[j].kind == "local"@,
    ensures
        addresses[i].kind != "local"@ ==> first_remote(addresses) == Some(addresses[i]),
        addresses[i].kind == "local"@ && i == addresses.len() - 1 ==> first_remote(
            addresses,
        ) is None,
    decreases addresses.len(),
{
    let rest = addresses.drop_first();
    if i > 0 {
        assert(addresses[0].kind == "local"@);
        assert forall|j: int| 0 <= j < i - 1 implies #[trigger] rest[j].kind == "local"@ by {
            assert(rest[j] == addresses[j + 1]);
        }
        lemma_first_remote(rest, i - 1);
    } else {
        reveal_with_fuel(first_remote, 2);
    }
}

/// Every address beyond the machine but the primary one is among the alternates, in
/// the order of the addresses: those of two lists are those of the first and then
/// those of the second.
pub proof fn alternates_keep_their_order(
    front: Seq<AddressView>,
    back: Seq<AddressView>,
    primary: Seq<char>,
)
    ensures
        alternates(front + back, primary) == alternates(front, primary) + alternates(back, primary),
    decreases back.len(),
{
    if back.len() == 0 {
        assert(front + back =~= front);
        assert(alternates(front, primary) + alternates(back, primary) =~= alternates(
            front,
            primary,
        ));
    } else {
        alternates_keep_their_order(front, back.drop_last(), primary);
        assert((front + back).drop_last() =~= front + back.drop_last());
        assert((front + back).last() == back.last());
        assert(alternates(front + back, primary) =~= alternates(front, primary) + alternates(
            back,
            primary,
        ));
    }
}

/// One address is its own alternate exactly where it leads beyond the machine and is
/// not the primary one.
pub proof fn single_addresses_are_alternates(address: AddressView, primary: Seq<char>)
    ensures
        alternates(seq![address], primary) == if address.kind != "local"@ && address.url != primary
        {
            seq![address.url]
        } else {
            Seq::empty()
        },
{
    let list = seq![address];
    assert(list.drop_last() =~= Seq::empty());
    assert(alternates(list.drop_last(), primary) =~= Seq::<Seq<char>>::empty());
    assert(alternates(list, primary) =~= if address.kind != "local"@ && address.url != primary {
        seq![address.url]
    } else {
        Seq::empty()
    });
}

/// The parts of the query of a link, which stand between ampersands.
pub open spec fn query_parts(query: Seq<char>) -> Seq<Seq<char>>
    decreases query.len(),
{
    let end = index_where(query, 0, |c: char| c == '&');
    if 0 <= end < query.len() {
        seq![query.subrange(0, end)] + query_parts(query.skip(end + 1))
    } else {
        seq![query]
    }
}

proof fn lemma_query_part(part: Seq<char>, rest: Seq<char>)
    requires
        !part.contains('&'),
    ensures
        query_parts(part + "&"@ + rest) == seq![part] + query_parts(rest),
        query_parts(part) == seq![part],
{
    reveal_strlit("&");
    let ampersand = |c: char| c == '&';
    let query = part + "&"@ + rest;
    let at: int = part.len() as int;
    lemma_index_where(query, 0, ampersand);
    let found = index_where(query, 0, ampersand);
    assert(query[at] == '&');
    if found < at {
        assert(query[found] == part[found]);
        assert(part.contains('&'));
    }
    if found > at {
        assert(!ampersand(query[at]));
    }
    assert(query.subrange(0, at) =~= part);
    assert(query.skip(at + 1) =~= rest);
    lemma_index_where(part, 0, ampersand);
    if index_where(part, 0, ampersand) < part.len() {
        assert(part[index_where(part, 0, ampersand)] == '&');
    }
}

/// The parts of a query that carry alternate addresses.
pub open spec fn alternate_parts(values: Seq<Seq<char>>) -> Seq<Seq<char>> {
    values.map_values(|value: Seq<char>| "a="@ + percent_encoded(value))
}

/// A name and an encoded value hold no ampersand.
proof fn lemma_part_is_whole(name: Seq<char>, value: Seq<char>)
    requires
        !name.contains('&'),
    ensures
        !(name + percent_encoded(value)).contains('&'),
{
    percent_encoded_bytes_are_link_safe(encode_utf8(value));
    let part = name + percent_encoded(value);
    if part.contains('&') {
        let i = choose|i: int| 0 <= i < part.len() && part[i] == '&';
        if i < name.len() {
            assert(name[i] == '&');
        } else {
            assert(percent_encoded_bytes(encode_utf8(value))[i - name.len()] == '&');
        }
    }
}

proof fn lemma_alternate_parts(part: Seq<char>, values: Seq<Seq<char>>)
    requires
        !part.contains('&'),
    ensures
        query_parts(part + alternate_parameters(values)) == seq![part] + alternate_parts(values),
    decreases values.len(),
{
    reveal_strlit("&a=");
    reveal_strlit("&");
    reveal_strlit("a=");
    assert("&a="@ =~= "&"@ + "a="@);
    if values.len() == 0 {
        assert(part + alternate_parameters(values) =~= part);
        lemma_query_part(part, Seq::empty());
        assert(seq![part] + alternate_parts(values) =~= seq![part]);
    } else {
        let first = "a="@ + percent_encoded(values[0]);
        let rest = values.drop_first();
        lemma_alternates_front(values);
        lemma_part_is_whole("a="@, values[0]);
        lemma_alternate_parts(first, rest);
        let behind = first + alternate_parameters(rest);
        assert(part + alternate_parameters(values) =~= part + "&"@ + behind);
        lemma_query_part(part, behind);
        assert(alternate_parts(values) =~= seq![first] + alternate_parts(rest));
        assert(seq![part] + (seq![first] + alternate_parts(rest)) =~= seq![part] + alternate_parts(
            values,
        ));
    }
}

proof fn lemma_alternates_front(values: Seq<Seq<char>>)
    requires
        values.len() > 0,
    ensures
        alternate_parameters(values) == "&a="@ + percent_encoded(values[0]) + alternate_parameters(
            values.drop_first(),
        ),
    decreases values.len(),
{
    let rest = values.drop_first();
    if values.len() == 1 {
        reveal_with_fuel(alternate_parameters, 2);
        assert(alternate_parameters(values) =~= "&a="@ + percent_encoded(values[0])
            + alternate_parameters(rest));
    } else {
        lemma_alternates_front(values.drop_last());
        assert(values.drop_last().drop_first() =~= rest.drop_last());
        assert(rest.last() == values.last());
        assert(alternate_parameters(values) =~= "&a="@ + percent_encoded(values[0])
            + alternate_parameters(rest));
    }
}

/// The link that pairs a device carries, in order, the address, the code, the
/// identity of the service where it has one, and every alternate address, each
/// encoded as a part of its own.
pub proof fn pair_links_carry_what_they_are_given(
    primary: Seq<char>,
    code: Seq<char>,
    server_id: Option<Seq<char>>,
    others: Seq<Seq<char>>,
)
    ensures
        ({
            let link = pair_link(primary, code, server_id, others);
            let front = "simdeck://pair?"@;
            &&& link.len() >= front.len() && link.take(front.len() as int) == front
            &&& query_parts(link.skip(front.len() as int)) == seq![
                "u="@ + percent_encoded(primary),
                "c="@ + percent_encoded(code),
            ] + (if server_id is Some && server_id->Some_0.len() > 0 {
                seq!["s="@ + percent_encoded(server_id->Some_0)]
            } else {
                Seq::empty()
            }) + alternate_parts(others)
        }),
{
    reveal_strlit("simdeck://pair?u=");
    reveal_strlit("simdeck://pair?");
    reveal_strlit("u=");
    reveal_strlit("&c=");
    reveal_strlit("c=");
    reveal_strlit("&s=");
    reveal_strlit("s=");
    reveal_strlit("&");
    assert("simdeck://pair?u="@ =~= "simdeck://pair?"@ + "u="@);
    assert("&c="@ =~= "&"@ + "c="@);
    assert("&s="@ =~= "&"@ + "s="@);
    let link = pair_link(primary, code, server_id, others);
    let front = "simdeck://pair?"@;
    let address = "u="@ + percent_encoded(primary);
    let secret = "c="@ + percent_encoded(code);
    lemma_part_is_whole("u="@, primary);
    lemma_part_is_whole("c="@, code);
    assert(link.take(front.len() as int) =~= front);
    let query = link.skip(front.len() as int);
    if server_id is Some && server_id->Some_0.len() > 0 {
        let identity = "s="@ + percent_encoded(server_id->Some_0);
        lemma_part_is_whole("s="@, server_id->Some_0);
        lemma_alternate_parts(identity, others);
        let third = identity + alternate_parameters(others);
        let second = secret + "&"@ + third;
        assert(query =~= address + "&"@ + second);
        lemma_query_part(address, second);
        lemma_query_part(secret, third);
        assert(query_parts(query) =~= seq![address, secret] + seq![identity] + alternate_parts(
            others,
        ));
    } else {
        lemma_alternate_parts(secret, others);
        let second = secret + alternate_parameters(others);
        assert(query =~= address + "&"@ + second);
        lemma_query_part(address, second);
        assert(query_parts(query) =~= seq![address, secret] + Seq::<Seq<char>>::empty()
            + alternate_parts(others));
    }
}

/// The link that opens a device starts with its base, without slashes at its end,
/// and carries, in order, the address, the device and every alternate address.
pub proof fn open_links_carry_what_they_are_given(
    base: Seq<char>,
    primary: Seq<char>,
    udid: Seq<char>,
    others: Seq<Seq<char>>,
)
    ensures
        ({
            let link = open_link(base, primary, udid, others);
            let front = link_base(base) + "/open?"@;
            &&& link.len() >= front.len() && link.take(front.len() as int) == front
            &&& query_parts(link.skip(front.len() as int)) == seq![
                "u="@ + percent_encoded(primary),
                "udid="@ + percent_encoded(udid),
            ] + alternate_parts(others)
            &&& link_base(base).len() > 0 ==> link_base(base).last() != '/'
        }),
{
    reveal_strlit("/open?u=");
    reveal_strlit("/open?");
    reveal_strlit("u=");
    reveal_strlit("&udid=");
    reveal_strlit("udid=");
    reveal_strlit("&");
    assert("/open?u="@ =~= "/open?"@ + "u="@);
    assert("&udid="@ =~= "&"@ + "udid="@);
    let link = open_link(base, primary, udid, others);
    let front = link_base(base) + "/open?"@;
    let address = "u="@ + percent_encoded(primary);
    let device = "udid="@ + percent_encoded(udid);
    lemma_part_is_whole("u="@, primary);
    lemma_part_is_whole("udid="@, udid);
    assert(link.take(front.len() as int) =~= front);
    let query = link.skip(front.len() as int);
    lemma_alternate_parts(device, others);
    let second = device + alternate_parameters(others);
    assert(query =~= address + "&"@ + second);
    lemma_query_part(address, second);
    assert(query_parts(query) =~= seq![address, device] + alternate_parts(others));
    lemma_trimmed_end(trimmed(base), |c: char| c == '/');
}

/// A code of six characters of ASCII is shown in two halves with a blank between
/// them; the characters are those of the code, in order.
pub proof fn six_digits_are_shown_in_halves(code: Seq<char>)
    requires
        code.len() == 6,
        forall|i: int| 0 <= i < 6 ==> (#[trigger] code[i] as u32) < 0x80,
    ensures
        can_be_formatted(code),
        shown_code(code) == code.take(3) + " "@ + code.skip(3),
{
    lemma_ascii_length(code);
    lemma_ascii_length(code.take(3));
    assert(halves(code, 3));
    let half = choose|half: int| halves(code, half);
    if half < 3 {
        lemma_utf8_length_grows(code, half, 3);
    } else if half > 3 {
        lemma_utf8_length_grows(code, 3, half);
    }
}

proof fn lemma_ascii_length(s: Seq<char>)
    requires
        forall|i: int| 0 <= i < s.len() ==> (#[trigger] s[i] as u32) < 0x80,
    ensures
        utf8_length(s) == s.len(),
    decreases s.len(),
{
    if s.len() > 0 {
        let front = s.drop_last();
        assert forall|i: int| 0 <= i < front.len() implies (#[trigger] front[i] as u32) < 0x80 by {
            assert(front[i] == s[i]);
        }
        lemma_ascii_length(front);
    }
}

/// The codes that are made for a service are shown in halves.
pub proof fn generated_codes_are_shown_in_halves(entropy: Entropy)
    ensures
        can_be_formatted(entropy.pairing_code()),
        shown_code(entropy.pairing_code()) == entropy.pairing_code().take(3) + " "@
            + entropy.pairing_code().skip(3),
{
    generated_secrets_are_well_formed(entropy);
    let code = entropy.pairing_code();
    assert forall|i: int| 0 <= i < 6 implies (#[trigger] code[i] as u32) < 0x80 by {
        assert(is_digit(code[i]));
    }
    six_digits_are_shown_in_halves(code);
}

/// The lines of a report show their texts from the sixteenth column on, with the
/// label in front, where it is no longer than twelve characters.
pub proof fn report_lines_are_aligned(label: Seq<char>, text: Seq<char>)
    requires
        label.len() <= 12,
    ensures
        report_line_text(label, text).skip(15) == text,
        report_line_text(label, text).subrange(12 - label.len(), 12) == label,
        forall|i: int|
            0 <= i < 12 - label.len() || 12 <= i < 15 ==> #[trigger] report_line_text(
                label,
                text,
            )[i] == ' ',
{
    reveal_strlit("   ");
    let line = report_line_text(label, text);
    assert(line.skip(15) =~= text);
    assert(line.subrange(12 - label.len(), 12) =~= label);
}

/// A report shows every address, in order, behind a label that tells its kind.
pub proof fn reports_show_every_address(addresses: Seq<AddressView>, i: int)
    requires
        0 <= i < addresses.len(),
        addresses[i].kind == "local"@ || addresses[i].kind == "lan"@ || addresses[i].kind
            == "tailscale"@,
    ensures
        address_report(addresses).len() == addresses.len(),
        address_report(addresses)[i].skip(15) == addresses[i].url,
        addresses[i].kind == "local"@ ==> kind_label(addresses[i].kind) == "Local:"@,
        addresses[i].kind == "lan"@ ==> kind_label(addresses[i].kind) == "LAN:"@,
        addresses[i].kind == "tailscale"@ ==> kind_label(addresses[i].kind) == "Tailscale:"@,
{
    reveal_strlit("local");
    reveal_strlit("lan");
    reveal_strlit("tailscale");
    reveal_strlit("Local:");
    reveal_strlit("LAN:");
    reveal_strlit("Tailscale:");
    assert("local"@.len() == 5 && "lan"@.len() == 3 && "tailscale"@.len() == 9);
    report_lines_are_aligned(kind_label(addresses[i].kind), addresses[i].url);
}

/// The port of a service to pair with is the given one, whatever is installed or
/// configured; the installed one before the configured one; and 4310 without any.
pub proof fn pairing_goes_to_the_given_port(
    port: u16,
    installed: Option<u16>,
    configured: Option<u16>,
)
    ensures
        pair_port(Some(port), installed, configured) == port,
        pair_port(None, Some(port), configured) == port,
        pair_port(None, None, Some(port)) == port,
        pair_port(None, None, None) == 4310,
{
}

/// The host of a service to pair with is the given one, whatever was found; an
/// address of the local network before one of Tailscale.
pub proof fn pairing_goes_to_the_given_host(
    host: Seq<char>,
    lan: Option<Seq<char>>,
    tailscale: Option<Seq<char>>,
)
    ensures
        pair_host(Some(host), lan, tailscale) == Some(host),
        pair_host(None, Some(host), tailscale) == Some(host),
        pair_host(None, None, tailscale) == tailscale,
{
}

/// The link of a target leads to its primary address, with its code and its
/// identity, and has all other addresses beyond the machine as alternates.
pub proof fn target_links_lead_to_the_target(
    target: PairingTargetView,
    addresses: Seq<AddressView>,
)
    ensures
        addresses.len() == 0 ==> target_link(target, addresses) is None,
        addresses.len() > 0 ==> {
            &&& primary_of(addresses) matches Some(primary)
            &&& target_link(target, addresses) == Some(
                pair_link(
                    address_value(primary.url, uri_authority(primary.url)),
                    target.pairing_code,
                    target.server_id,
                    address_values(alternates(addresses, primary.url)),
                ),
            )
        },
{
}

/// A host of Tailscale is told as such, and any other as one of the local network; a
/// host that is blank is not advertised.
pub proof fn hosts_are_told_by_their_kind(a: u8, b: u8, c: u8, d: u8, host: Seq<char>)
    ensures
        host_kind(ipv4_text(a, b, c, d)) == if a == 100 && 64 <= b <= 127 {
            "tailscale"@
        } else {
            "lan"@
        },
        advertised(Some(host)) == if blank(host) {
            None
        } else {
            Some(host)
        },
        advertised(None) is None,
{
    tailscale_addresses_are_in_their_range(a, b, c, d);
}

/// The contracts see all of a target, each field as what it is.
pub proof fn targets_are_seen_whole(target: PairingTarget)
    ensures
        target@.target == target.target@,
        target@.service == option_view(target.service),
        target@.project_root == option_view(target.project_root),
        target@.pid == target.pid,
        target@.http_url == target.http_url@,
        target@.port == target.port,
        target@.advertise_host == option_view(target.advertise_host),
        target@.server_id == option_view(target.server_id),
        target@.pairing_code == target.pairing_code@,
{
}

/// The report above the QR code shows the addresses of the service in order, and its
/// code below them.
pub proof fn pairing_reports_show_addresses_and_code(
    target: PairingTargetView,
    addresses: Seq<AddressView>,
)
    ensures
        ({
            let lines = head_of_pairing_report(target, addresses);
            &&& lines.len() == addresses.len() + 6
            &&& lines.subrange(2, 2 + addresses.len() as int) == address_report(addresses)
            &&& lines[2 + addresses.len() as int].skip(15) == shown_code(target.pairing_code)
        }),
{
    reveal_strlit("Pair:");
    let lines = head_of_pairing_report(target, addresses);
    assert(lines.subrange(2, 2 + addresses.len() as int) =~= address_report(addresses));
    report_lines_are_aligned("Pair:"@, shown_code(target.pairing_code));
    assert(lines[2 + addresses.len() as int] == report_line_text(
        "Pair:"@,
        shown_code(target.pairing_code),
    ));
}

/// A line on the progress of pairing says so, and then the message.
pub proof fn progress_lines_carry_their_message(message: Seq<char>)
    ensures
        progress(message).take(14) == "simdeck pair: "@,
        progress(message).skip(14) == message,
{
    reveal_strlit("simdeck pair: ");
    assert(progress(message).take(14) =~= "simdeck pair: "@);
    assert(progress(message).skip(14) =~= message);
}

/// The contracts see both of an address, its kind and its URL.
pub proof fn addresses_are_seen_whole(address: PairingAddress)
    ensures
        address@.kind == address.kind@,
        address@.url == address.url@,
{
}

/// A link has the authority of an address, where it has one, else all of it; the
/// short forms keep the order of the addresses.
pub proof fn addresses_are_shortened_to_their_authority(
    url: Seq<char>,
    authority: Seq<char>,
    urls: Seq<Seq<char>>,
    i: int,
)
    requires
        0 <= i < urls.len(),
    ensures
        address_value(url, Some(authority)) == authority,
        address_value(url, None) == url,
        address_values(urls).len() == urls.len(),
        address_values(urls)[i] == match uri_authority(urls[i]) {
            Some(short) => short,
            None => urls[i],
        },
{
}

/// A code of another length is shown as it is; one of six bytes can be shown only
/// where it can be parted after three of them.
pub proof fn other_codes_are_shown_as_they_are(code: Seq<char>)
    ensures
        utf8_length(code) != 6 ==> can_be_formatted(code) && shown_code(code) == code,
        utf8_length(code) == 6 ==> (can_be_formatted(code) <==> exists|half: int|
            0 <= half <= code.len() && utf8_length(#[trigger] code.take(half)) == 3),
        can_be_formatted(code) && utf8_length(code) == 6 ==> exists|half: int|
            0 <= half <= code.len() && utf8_length(#[trigger] code.take(half)) == 3
                && shown_code(code) == code.take(half) + " "@ + code.skip(half),
{
    if utf8_length(code) == 6 {
        if can_be_formatted(code) {
            let half = choose|half: int| halves(code, half);
            assert(utf8_length(code.take(half)) == 3);
        }
        if exists|half: int|
            0 <= half <= code.len() && utf8_length(#[trigger] code.take(half)) == 3 {
            let half = choose|half: int|
                0 <= half <= code.len() && utf8_length(#[trigger] code.take(half)) == 3;
            assert(halves(code, half));
        }
    }
}

/// A character takes one byte of UTF-8 in ASCII, and up to four beyond it; a text takes
/// as many as its characters together.
pub proof fn lengths_add_up(s: Seq<char>, c: char)
    ensures
        utf8_length(s.push(c)) == utf8_length(s) + utf8_width(c),
        utf8_length(Seq::empty()) == 0,
        (c as u32) < 0x80 <==> utf8_width(c) == 1,
        0x80 <= (c as u32) < 0x800 <==> utf8_width(c) == 2,
        0x800 <= (c as u32) < 0x10000 <==> utf8_width(c) == 3,
        (c as u32) >= 0x10000 <==> utf8_width(c) == 4,
{
    assert(s.push(c).drop_last() =~= s);
}

} // verus!
