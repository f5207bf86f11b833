//! Which device a command is for: the one that is named, the one that a project
//! uses, or the only one there is.
use vstd::prelude::*;

use crate::cli::{device_selector, looks_like_device_selector};
use crate::error::SimdeckError;
use crate::json::{
    array_field, bool_field, get_array, get_bool, get_field, get_string, json_field, json_list,
    json_shape, json_string_list, parse_json, string_field, JsonShape, JsonShapeView,
};
use crate::paths::{paths_equal, same_path};
use crate::quoting::{debug_text, lowercased, quoted_text, to_lowercase};
use crate::text::{
    ascii_lowered, blank, clone_option, contains, contains_text, eq_ignore_ascii_case,
    option_str_view, option_view, owned, trim, trimmed, trimming_is_idempotent, views,
};

verus! {

/// A simulator that a service offers.
#[derive(Debug)]
pub struct StudioSimulatorSelection {
    pub udid: String,
    pub name: String,
    pub runtime_name: Option<String>,
    pub is_booted: bool,
}

/// A simulator as the contracts speak of it.
pub struct SimulatorView {
    pub udid: Seq<char>,
    pub name: Seq<char>,
    pub runtime_name: Option<Seq<char>>,
    pub is_booted: bool,
}

impl View for StudioSimulatorSelection {
    type V = SimulatorView;

    open spec fn view(&self) -> SimulatorView {
        SimulatorView {
            udid: self.udid@,
            name: self.name@,
            runtime_name: option_view(self.runtime_name),
            is_booted: self.is_booted,
        }
    }
}

impl Clone for StudioSimulatorSelection {
    fn clone(&self) -> (copy: Self)
        ensures
            copy == *self,
    {
        StudioSimulatorSelection {
            udid: self.udid.clone(),
            name: self.name.clone(),
            runtime_name: clone_option(&self.runtime_name),
            is_booted: self.is_booted,
        }
    }
}

/// What each simulator of a list is.
pub open spec fn simulator_views(list: Seq<StudioSimulatorSelection>) -> Seq<SimulatorView> {
    list.map_values(|simulator: StudioSimulatorSelection| simulator@)
}

/// A simulator as an optional value.
pub open spec fn option_simulator_view(simulator: Option<StudioSimulatorSelection>) -> Option<
    SimulatorView,
> {
    match simulator {
        Some(found) => Some(found@),
        None => None,
    }
}

/// The simulator that the fields of an entry describe; none without an
/// identifier and a name.
pub open spec fn simulator_of(
    udid: Option<Seq<char>>,
    name: Option<Seq<char>>,
    runtime_name: Option<Seq<char>>,
    booted: Option<bool>,
) -> Option<SimulatorView> {
    match (udid, name) {
        (Some(udid), Some(name)) => Some(
            SimulatorView {
                udid,
                name,
                runtime_name,
                is_booted: booted == Some(true),
            },
        ),
        _ => None,
    }
}

/// The simulator that the fields of an entry describe.
pub fn simulator_from_fields(
    udid: Option<String>,
    name: Option<String>,
    runtime_name: Option<String>,
    booted: Option<bool>,
) -> (simulator: Option<StudioSimulatorSelection>)
    ensures
        option_simulator_view(simulator) == simulator_of(
            option_view(udid),
            option_view(name),
            option_view(runtime_name),
            booted,
        ),
{
    let is_booted = match booted {
        Some(value) => value,
        None => false,
    };
    match (udid, name) {
        (Some(udid), Some(name)) => Some(
            StudioSimulatorSelection { udid, name, runtime_name, is_booted },
        ),
        _ => None,
    }
}

/// The simulator that an entry of a service's list describes.
pub open spec fn simulator_of_entry(entry: Seq<char>) -> Option<SimulatorView> {
    simulator_of(
        string_field(entry, "udid"@),
        string_field(entry, "name"@),
        string_field(entry, "runtimeName"@),
        bool_field(entry, "isBooted"@),
    )
}

/// The simulators that the entries of a service's list describe.
pub open spec fn simulators_of(entries: Seq<Seq<char>>) -> Seq<SimulatorView>
    decreases entries.len(),
{
    if entries.len() == 0 {
        Seq::empty()
    } else {
        let before = simulators_of(entries.drop_last());
        match simulator_of_entry(entries.last()) {
            Some(simulator) => before.push(simulator),
            None => before,
        }
    }
}

/// The simulators in a service's answer.
pub fn list_studio_simulators(response: &str) -> (result: Result<
    Vec<StudioSimulatorSelection>,
    SimdeckError,
>)
    ensures
        match result {
            Ok(simulators) => json_shape(response@) is Some && simulator_views(simulators@)
                == simulators_of(array_field(response@, "simulators"@)),
            Err(error) => json_shape(response@) is None && error.text() == "parse JSON"@,
        },
{
    if let Err(error) = parse_json(response) {
        return Err(error);
    }
    let entries = get_array(response, "simulators");
    let ghost all = views(entries@);
    let mut simulators: Vec<StudioSimulatorSelection> = Vec::new();
    let mut i: usize = 0;
    assert(all.take(0) =~= Seq::empty());
    assert(simulator_views(simulators@) =~= Seq::empty());
    while i < entries.len()
        invariant
            i <= entries@.len(),
            all == views(entries@),
            simulator_views(simulators@) == simulators_of(all.take(i as int)),
        decreases entries@.len() - i,
    {
        let ghost before = simulator_views(simulators@);
        let entry = entries[i].as_str();
        let found = simulator_from_fields(
            get_string(entry, "udid"),
            get_string(entry, "name"),
            get_string(entry, "runtimeName"),
            get_bool(entry, "isBooted"),
        );
        i += 1;
        assert(all.take(i as int).drop_last() =~= all.take(i - 1));
        assert(all.take(i as int).last() == entry@);
        if let Some(simulator) = found {
            let ghost shown = simulator@;
            simulators.push(simulator);
            assert(simulator_views(simulators@) =~= before.push(shown));
        }
    }
    assert(all.take(i as int) =~= all);
    Ok(simulators)
}

/// A simulator that a selector means: by its identifier or its name, whatever
/// the case of ASCII letters, or by a part of its name, whatever the case.
pub open spec fn simulator_matches(
    simulator: SimulatorView,
    selector: Seq<char>,
    lower_name: Seq<char>,
    lower_selector: Seq<char>,
) -> bool {
    ||| ascii_lowered(simulator.udid) == ascii_lowered(selector)
    ||| ascii_lowered(simulator.name) == ascii_lowered(selector)
    ||| contains_text(lower_name, lower_selector)
}

/// Tells whether a selector means a simulator. `lower_name` is the simulator's
/// name in lower case, `lower_selector` the selector in lower case and without
/// white space around it.
pub fn simulator_matches_selector(
    simulator: &StudioSimulatorSelection,
    selector: &str,
    lower_name: &str,
    lower_selector: &str,
) -> (result: bool)
    ensures
        result == simulator_matches(simulator@, selector@, lower_name@, lower_selector@),
{
    eq_ignore_ascii_case(simulator.udid.as_str(), selector) || eq_ignore_ascii_case(
        simulator.name.as_str(),
        selector,
    ) || contains(lower_name, lower_selector)
}

/// The first simulator that a selector means.
pub open spec fn selected_simulator(
    simulators: Seq<SimulatorView>,
    selector: Seq<char>,
) -> Option<SimulatorView>
    decreases simulators.len(),
{
    if simulators.len() == 0 {
        None
    } else if simulator_matches(
        simulators[0],
        selector,
        lowercased(simulators[0].name),
        lowercased(trimmed(selector)),
    ) {
        Some(simulators[0])
    } else {
        selected_simulator(simulators.drop_first(), selector)
    }
}

pub fn select_studio_simulator(
    simulators: &Vec<StudioSimulatorSelection>,
    selector: &str,
) -> (simulator: Option<StudioSimulatorSelection>)
    ensures
        option_simulator_view(simulator) == selected_simulator(
            simulator_views(simulators@),
            selector@,
        ),
{
    let ghost all = simulator_views(simulators@);
    let kept = trim(selector);
    let lower_selector = to_lowercase(kept.as_str());
    let mut i: usize = 0;
    assert(all.skip(0) =~= all);
    while i < simulators.len()
        invariant
            i <= simulators@.len(),
            all == simulator_views(simulators@),
            lower_selector@ == lowercased(trimmed(selector@)),
            selected_simulator(all, selector@) == selected_simulator(
                all.skip(i as int),
                selector@,
            ),
        decreases simulators@.len() - i,
    {
        assert(all.skip(i as int)[0] == simulators@[i as int]@);
        assert(all.skip(i as int).drop_first() =~= all.skip(i + 1));
        let lower_name = to_lowercase(simulators[i].name.as_str());
        if simulator_matches_selector(
            &simulators[i],
            selector,
            lower_name.as_str(),
            lower_selector.as_str(),
        ) {
            return Some(simulators[i].clone());
        }
        i += 1;
    }
    assert(all.skip(i as int) =~= Seq::empty());
    None
}

/// The simulators that are booted, in order.
pub open spec fn booted(simulators: Seq<SimulatorView>) -> Seq<SimulatorView>
    decreases simulators.len(),
{
    if simulators.len() == 0 {
        Seq::empty()
    } else {
        let before = booted(simulators.drop_last());
        if simulators.last().is_booted {
            before.push(simulators.last())
        } else {
            before
        }
    }
}

fn booted_simulators(simulators: &Vec<StudioSimulatorSelection>) -> (list: Vec<
    StudioSimulatorSelection,
>)
    ensures
        simulator_views(list@) == booted(simulator_views(simulators@)),
{
    let ghost all = simulator_views(simulators@);
    let mut list: Vec<StudioSimulatorSelection> = Vec::new();
    let mut i: usize = 0;
    assert(all.take(0) =~= Seq::empty());
    assert(simulator_views(list@) =~= Seq::empty());
    while i < simulators.len()
        invariant
            i <= simulators@.len(),
            all == simulator_views(simulators@),
            simulator_views(list@) == booted(all.take(i as int)),
        decreases simulators@.len() - i,
    {
        let ghost before = simulator_views(list@);
        let simulator = &simulators[i];
        i += 1;
        assert(all.take(i as int).drop_last() =~= all.take(i - 1));
        assert(all.take(i as int).last() == simulator@);
        if simulator.is_booted {
            list.push(simulator.clone());
            assert(simulator_views(list@) =~= before.push(simulator@));
        }
    }
    assert(all.take(i as int) =~= all);
    list
}

/// The first of a list, where there is one.
pub open spec fn first_of(list: Seq<SimulatorView>) -> Option<SimulatorView> {
    if list.len() > 0 {
        Some(list[0])
    } else {
        None
    }
}

/// The first of the simulators that is booted, else the first of all.
pub open spec fn first_booted_or_first(simulators: Seq<SimulatorView>) -> Option<SimulatorView> {
    if booted(simulators).len() > 0 {
        first_of(booted(simulators))
    } else {
        first_of(simulators)
    }
}

/// The simulator to show where none is selected: the first that is booted, else
/// the first of all.
pub fn select_default_studio_simulator(simulators: &Vec<StudioSimulatorSelection>) -> (simulator:
    Option<StudioSimulatorSelection>)
    ensures
        option_simulator_view(simulator) == first_booted_or_first(simulator_views(simulators@)),
{
    let running = booted_simulators(simulators);
    if running.len() > 0 {
        assert(simulator_views(running@)[0] == running@[0]@);
        return Some(running[0].clone());
    }
    if simulators.len() > 0 {
        return Some(simulators[0].clone());
    }
    None
}

/// The simulator that is meant where none is named: the only one that is
/// booted, or the only one there is.
pub open spec fn default_simulator(simulators: Seq<SimulatorView>) -> Option<SimulatorView> {
    let running = booted(simulators);
    if running.len() == 1 {
        Some(running[0])
    } else if running.len() == 0 && simulators.len() == 1 {
        Some(simulators[0])
    } else {
        None
    }
}

pub fn infer_default_cli_simulator(simulators: &Vec<StudioSimulatorSelection>) -> (simulator: Option<
    StudioSimulatorSelection,
>)
    ensures
        option_simulator_view(simulator) == default_simulator(simulator_views(simulators@)),
{
    let running = booted_simulators(simulators);
    assert(simulator_views(running@).len() == running@.len());
    if running.len() == 1 {
        assert(simulator_views(running@)[0] == running@[0]@);
        return Some(running[0].clone());
    }
    if running.len() == 0 && simulators.len() == 1 {
        return Some(simulators[0].clone());
    }
    None
}

/// The identifier of the device of a command that names none, where it can be told.
pub open spec fn inferred_device(simulators: Seq<SimulatorView>) -> Result<Seq<char>, Seq<char>> {
    match default_simulator(simulators) {
        Some(simulator) => Ok(simulator.udid),
        None => if booted(simulators).len() > 1 {
            Err(
                "Multiple booted simulators are available. Pass a UDID, run `simdeck use <UDID>`, use --device, or set SIMDECK_DEVICE."@,
            )
        } else if simulators.len() == 0 {
            Err("No simulators are available. Boot one or pass a UDID explicitly."@)
        } else {
            Err(
                "No default simulator could be inferred. Pass a UDID, run `simdeck use <UDID>`, use --device, or set SIMDECK_DEVICE."@,
            )
        },
    }
}

/// The identifier of the device of a command that names none.
pub fn inferred_device_udid(simulators: &Vec<StudioSimulatorSelection>) -> (result: Result<
    String,
    SimdeckError,
>)
    ensures
        match result {
            Ok(udid) => inferred_device(simulator_views(simulators@)) == Ok::<
                Seq<char>,
                Seq<char>,
            >(udid@),
            Err(error) => inferred_device(simulator_views(simulators@)) == Err::<
                Seq<char>,
                Seq<char>,
            >(error.text()),
        },
{
    if let Some(simulator) = infer_default_cli_simulator(simulators) {
        return Ok(simulator.udid);
    }
    let running = booted_simulators(simulators);
    assert(simulator_views(running@).len() == running@.len());
    if running.len() > 1 {
        return Err(
            SimdeckError::from_text(
                "Multiple booted simulators are available. Pass a UDID, run `simdeck use <UDID>`, use --device, or set SIMDECK_DEVICE.",
            ),
        );
    }
    if simulators.len() == 0 {
        return Err(
            SimdeckError::from_text(
                "No simulators are available. Boot one or pass a UDID explicitly.",
            ),
        );
    }
    Err(
        SimdeckError::from_text(
            "No default simulator could be inferred. Pass a UDID, run `simdeck use <UDID>`, use --device, or set SIMDECK_DEVICE.",
        ),
    )
}

/// A device is inferred without being named only where no other would do: it is
/// the only one that is booted, or the only one there is.
pub proof fn inferred_device_is_unambiguous(simulators: Seq<SimulatorView>)
    requires
        inferred_device(simulators) is Ok,
    ensures
        booted(simulators).len() == 1 || (booted(simulators).len() == 0 && simulators.len() == 1),
{
}

/// How the device of a command is found.
#[derive(Debug)]
pub enum DeviceQuery {
    /// It is known.
    Known(String),
    /// A selector is held against the simulators of the service; where it means
    /// none, it is taken for an identifier.
    Select(String),
    /// The project's device, else the one that can be inferred.
    Infer,
}

/// A query as the contracts speak of it.
pub enum DeviceQueryView {
    Known(Seq<char>),
    Select(Seq<char>),
    Infer,
}

impl View for DeviceQuery {
    type V = DeviceQueryView;

    open spec fn view(&self) -> DeviceQueryView {
        match self {
            DeviceQuery::Known(udid) => DeviceQueryView::Known(udid@),
            DeviceQuery::Select(selector) => DeviceQueryView::Select(selector@),
            DeviceQuery::Infer => DeviceQueryView::Infer,
        }
    }
}

/// The first of several texts that is given.
pub open spec fn first_given(
    a: Option<Seq<char>>,
    b: Option<Seq<char>>,
    c: Option<Seq<char>>,
) -> Option<Seq<char>> {
    if a is Some {
        a
    } else if b is Some {
        b
    } else {
        c
    }
}

/// How the device of a command is found: a device among its arguments wins;
/// else a selector, of the flag or of the environment.
pub open spec fn device_query(
    positional: Option<Seq<char>>,
    global: Option<Seq<char>>,
    environment_device: Option<Seq<char>>,
    environment_udid: Option<Seq<char>>,
) -> DeviceQueryView {
    let selector = first_given(global, environment_device, environment_udid);
    if positional matches Some(udid) && !blank(udid) {
        DeviceQueryView::Known(trimmed(positional->Some_0))
    } else if selector matches Some(text) && !blank(text) {
        let kept = trimmed(selector->Some_0);
        if device_selector(kept) {
            DeviceQueryView::Known(kept)
        } else {
            DeviceQueryView::Select(kept)
        }
    } else {
        DeviceQueryView::Infer
    }
}

/// How the device of a command is found. The last two are the values of
/// `SIMDECK_DEVICE` and `SIMDECK_UDID`.
pub fn resolve_cli_device_udid(
    positional: Option<&str>,
    global: Option<&str>,
    environment_device: Option<&str>,
    environment_udid: Option<&str>,
) -> (query: DeviceQuery)
    ensures
        query@ == device_query(
            option_str_view(positional),
            option_str_view(global),
            option_str_view(environment_device),
            option_str_view(environment_udid),
        ),
{
    if let Some(udid) = positional {
        let kept = trim(udid);
        if !kept.as_str().is_empty() {
            return DeviceQuery::Known(kept);
        }
    }
    let selector = if global.is_some() {
        global
    } else if environment_device.is_some() {
        environment_device
    } else {
        environment_udid
    };
    if let Some(text) = selector {
        let kept = trim(text);
        if !kept.as_str().is_empty() {
            if looks_like_device_selector(kept.as_str()) {
                return DeviceQuery::Known(kept);
            }
            return DeviceQuery::Select(kept);
        }
    }
    DeviceQuery::Infer
}

/// The identifier of the simulator that a selector means, else the selector.
pub fn selected_device_udid(simulators: &Vec<StudioSimulatorSelection>, selector: &str) -> (udid:
    String)
    ensures
        udid@ == match selected_simulator(simulator_views(simulators@), selector@) {
            Some(simulator) => simulator.udid,
            None => selector@,
        },
{
    match select_studio_simulator(simulators, selector) {
        Some(simulator) => simulator.udid,
        None => owned(selector),
    }
}

/// The device that a project uses.
#[derive(Debug)]
pub struct ProjectDeviceSelection {
    pub project_root: String,
    pub udid: String,
    pub name: Option<String>,
    pub runtime_name: Option<String>,
    pub selected_at: u64,
}

/// A project's device as the contracts speak of it.
pub struct SelectionView {
    pub project_root: Seq<char>,
    pub udid: Seq<char>,
    pub name: Option<Seq<char>>,
    pub runtime_name: Option<Seq<char>>,
    pub selected_at: u64,
}

impl View for ProjectDeviceSelection {
    type V = SelectionView;

    open spec fn view(&self) -> SelectionView {
        SelectionView {
            project_root: self.project_root@,
            udid: self.udid@,
            name: option_view(self.name),
            runtime_name: option_view(self.runtime_name),
            selected_at: self.selected_at,
        }
    }
}

/// The identifier that a stored selection gives for a project: where it belongs
/// to the project and is not blank.
pub open spec fn remembered_device(
    selection: SelectionView,
    project_root: Seq<char>,
    windows: bool,
) -> Option<Seq<char>> {
    if paths_equal(selection.project_root, project_root, windows) && !blank(selection.udid) {
        Some(trimmed(selection.udid))
    } else {
        None
    }
}

pub fn project_device_udid(
    selection: &ProjectDeviceSelection,
    project_root: &str,
    windows: bool,
) -> (udid: Option<String>)
    ensures
        option_view(udid) == remembered_device(selection@, project_root@, windows),
{
    if !same_path(selection.project_root.as_str(), project_root, windows) {
        return None;
    }
    let kept = trim(selection.udid.as_str());
    if kept.as_str().is_empty() {
        None
    } else {
        Some(kept)
    }
}

/// What `simdeck use` stores: what looks like an identifier as it is, else the
/// simulator that the selector means; nothing where there is none.
pub open spec fn chosen_device(
    selector: Seq<char>,
    project_root: Seq<char>,
    now: u64,
    simulators: Seq<SimulatorView>,
) -> Option<SelectionView> {
    let kept = trimmed(selector);
    if kept.len() == 0 {
        None
    } else if device_selector(kept) {
        Some(
            SelectionView {
                project_root,
                udid: kept,
                name: None,
                runtime_name: None,
                selected_at: now,
            },
        )
    } else {
        match selected_simulator(simulators, kept) {
            Some(simulator) => Some(
                SelectionView {
                    project_root,
                    udid: simulator.udid,
                    name: Some(simulator.name),
                    runtime_name: simulator.runtime_name,
                    selected_at: now,
                },
            ),
            None => None,
        }
    }
}

/// The device that `simdeck use` stores is the one that later commands of the
/// same project go to.
pub proof fn chosen_device_is_remembered(
    selector: Seq<char>,
    project_root: Seq<char>,
    now: u64,
    simulators: Seq<SimulatorView>,
    windows: bool,
)
    requires
        chosen_device(selector, project_root, now, simulators) matches Some(chosen) && !blank(
            chosen.udid,
        ),
    ensures
        ({
            let chosen = chosen_device(selector, project_root, now, simulators)->Some_0;
            remembered_device(chosen, project_root, windows) == Some(trimmed(chosen.udid))
        }),
        device_selector(trimmed(selector)) ==> remembered_device(
            chosen_device(selector, project_root, now, simulators)->Some_0,
            project_root,
            windows,
        ) == Some(trimmed(selector)),
{
    trimming_is_idempotent(selector);
}

/// The device that `simdeck use` stores. `simulators` are those of the service,
/// where the selector has to be held against them.
pub fn project_device_selection_for_selector(
    selector: &str,
    project_root: &str,
    now: u64,
    simulators: &Vec<StudioSimulatorSelection>,
) -> (result: Result<ProjectDeviceSelection, SimdeckError>)
    ensures
        match result {
            Ok(selection) => chosen_device(
                selector@,
                project_root@,
                now,
                simulator_views(simulators@),
            ) == Some(selection@),
            Err(error) => {
                &&& chosen_device(
                    selector@,
                    project_root@,
                    now,
                    simulator_views(simulators@),
                ) is None
                &&& error.text() == if blank(selector@) {
                    "simdeck use requires a simulator UDID or name."@
                } else {
                    "No simulator matched "@ + debug_text(trimmed(selector@))
                        + ". Run `simdeck list` to see available UDIDs."@
                }
            },
        },
{
    let kept = trim(selector);
    if kept.as_str().is_empty() {
        return Err(SimdeckError::from_text("simdeck use requires a simulator UDID or name."));
    }
    if looks_like_device_selector(kept.as_str()) {
        return Ok(
            ProjectDeviceSelection {
                project_root: owned(project_root),
                udid: kept,
                name: None,
                runtime_name: None,
                selected_at: now,
            },
        );
    }
    match select_studio_simulator(simulators, kept.as_str()) {
        Some(simulator) => Ok(
            ProjectDeviceSelection {
                project_root: owned(project_root),
                udid: simulator.udid,
                name: Some(simulator.name),
                runtime_name: simulator.runtime_name,
                selected_at: now,
            },
        ),
        None => {
            let mut message = owned("No simulator matched ");
            message.append(quoted_text(kept.as_str()).as_str());
            message.append(". Run `simdeck list` to see available UDIDs.");
            Err(SimdeckError::new(message))
        },
    }
}

/// The device of a link: the simulator that the resolved identifier means, else
/// the one that the selector means, where it is another text.
pub open spec fn linked_simulator(
    simulators: Seq<SimulatorView>,
    udid: Seq<char>,
    selector: Option<Seq<char>>,
) -> Option<SimulatorView> {
    match selected_simulator(simulators, udid) {
        Some(simulator) => Some(simulator),
        None => match selector {
            Some(text) => if ascii_lowered(text) != ascii_lowered(udid) {
                selected_simulator(simulators, text)
            } else {
                None
            },
            None => None,
        },
    }
}

pub fn linked_device(
    simulators: &Vec<StudioSimulatorSelection>,
    udid: &str,
    selector: Option<&str>,
) -> (simulator: Option<StudioSimulatorSelection>)
    ensures
        option_simulator_view(simulator) == linked_simulator(
            simulator_views(simulators@),
            udid@,
            option_str_view(selector),
        ),
{
    if let Some(simulator) = select_studio_simulator(simulators, udid) {
        return Some(simulator);
    }
    match selector {
        Some(text) => if !eq_ignore_ascii_case(text, udid) {
            select_studio_simulator(simulators, text)
        } else {
            None
        },
        None => None,
    }
}

/// The body of a request to boot a device: nothing, or the arguments of the
/// Android emulator.
pub open spec fn boot_body(arguments: Seq<Seq<char>>, list: Seq<char>) -> Seq<char> {
    if arguments.len() == 0 {
        "null"@
    } else {
        "{\"androidEmulatorArgs\":"@ + list + "}"@
    }
}

/// The body of a request to boot a device, around a list that is JSON already.
pub fn boot_body_of(arguments: &Vec<String>, list: &str) -> (body: String)
    ensures
        body@ == boot_body(views(arguments@), list@),
{
    if arguments.len() == 0 {
        return owned("null");
    }
    let mut body = owned("{\"androidEmulatorArgs\":");
    body.append(list);
    body.append("}");
    body
}

pub fn android_boot_request_body(arguments: &Vec<String>) -> (result: Result<String, SimdeckError>)
    ensures
        result matches Ok(body) && body@ == boot_body(
            views(arguments@),
            json_list(views(arguments@)),
        ),
        arguments@.len() == 0 ==> (result matches Ok(body) && body@ == "null"@),
{
    if arguments.len() == 0 {
        return Ok(owned("null"));
    }
    match json_string_list(arguments) {
        Ok(list) => Ok(boot_body_of(arguments, list.as_str())),
        Err(error) => Err(error),
    }
}

/// A field of an entry of a list of simulators.
#[derive(Debug)]
pub struct EntryField {
    pub name: &'static str,
    pub value: String,
}

/// The name and the value of each field.
pub open spec fn entry_views(fields: Seq<EntryField>) -> Seq<(Seq<char>, Seq<char>)> {
    fields.map_values(|field: EntryField| (field.name@, field.value@))
}

/// A field that is taken over from an object, where it is there and not null.
pub open spec fn copied_field(source: Option<Seq<char>>, name: Seq<char>) -> Seq<
    (Seq<char>, Seq<char>),
> {
    match source {
        Some(object) => match json_field(object, name) {
            Some(value) => if json_shape(value) == Some(JsonShapeView::Null) {
                Seq::empty()
            } else {
                seq![(name, value)]
            },
            None => Seq::empty(),
        },
        None => Seq::empty(),
    }
}

/// The fields of an entry of the compact list of simulators.
pub open spec fn compact_entry(simulator: Seq<char>) -> Seq<(Seq<char>, Seq<char>)> {
    let whole = Some(simulator);
    let display = json_field(simulator, "privateDisplay"@);
    copied_field(whole, "udid"@) + copied_field(whole, "name"@) + copied_field(whole, "state"@)
        + copied_field(whole, "isBooted"@) + copied_field(whole, "isAvailable"@) + copied_field(
        whole,
        "platform"@,
    ) + copied_field(whole, "deviceTypeName"@) + copied_field(whole, "runtimeName"@)
        + copied_field(display, "displayStatus"@) + copied_field(display, "displayReady"@)
}

fn copy_json_field(source: Option<&str>, target: &mut Vec<EntryField>, name: &'static str)
    ensures
        entry_views(final(target)@) == entry_views(old(target)@) + copied_field(
            option_str_view(source),
            name@,
        ),
{
    let ghost before = entry_views(target@);
    let mut found: Option<String> = None;
    if let Some(object) = source {
        if let Some(value) = get_field(object, name) {
            let is_null = match parse_json(value.as_str()) {
                Ok(JsonShape::Null) => true,
                _ => false,
            };
            if !is_null {
                found = Some(value);
            }
        }
    }
    assert(copied_field(option_str_view(source), name@) == match option_view(found) {
        Some(value) => seq![(name@, value)],
        None => Seq::empty(),
    });
    match found {
        Some(value) => {
            let ghost text = value@;
            target.push(EntryField { name, value });
            assert(entry_views(target@) =~= before + seq![(name@, text)]);
        },
        None => {
            assert(entry_views(target@) =~= before + Seq::empty());
        },
    }
}

/// The fields of an entry of the compact list of simulators. The values are
/// JSON texts.
pub fn compact_simulator_list_entry(simulator: &str) -> (fields: Vec<EntryField>)
    ensures
        entry_views(fields@) == compact_entry(simulator@),
{
    let mut fields: Vec<EntryField> = Vec::new();
    let whole = Some(simulator);
    let display = get_field(simulator, "privateDisplay");
    let display = crate::text::as_option_str(&display);
    assert(entry_views(fields@) =~= Seq::empty());
    copy_json_field(whole, &mut fields, "udid");
    assert(entry_views(fields@) =~= copied_field(Some(simulator@), "udid"@));
    copy_json_field(whole, &mut fields, "name");
    copy_json_field(whole, &mut fields, "state");
    copy_json_field(whole, &mut fields, "isBooted");
    copy_json_field(whole, &mut fields, "isAvailable");
    copy_json_field(whole, &mut fields, "platform");
    copy_json_field(whole, &mut fields, "deviceTypeName");
    copy_json_field(whole, &mut fields, "runtimeName");
    copy_json_field(display, &mut fields, "displayStatus");
    copy_json_field(display, &mut fields, "displayReady");
    fields
}

/// A selector that is the identifier or the name of a simulator, whatever the case
/// of its letters, or a part of its name, selects it, where it is none of these for
/// any simulator before it.
pub proof fn first_meant_simulator_is_selected(
    simulators: Seq<SimulatorView>,
    selector: Seq<char>,
    i: int,
)
    requires
        0 <= i < simulators.len(),
        ascii_lowered(simulators[i].udid) == ascii_lowered(selector) || ascii_lowered(
            simulators[i].name,
        ) == ascii_lowered(selector) || contains_text(
            lowercased(simulators[i].name),
            lowercased(trimmed(selector)),
        ),
        forall|j: int|
            0 <= j < i ==> {
                &&& ascii_lowered((#[trigger] simulators[j]).udid) != ascii_lowered(selector)
                &&& ascii_lowered(simulators[j].name) != ascii_lowered(selector)
                &&& !contains_text(lowercased(simulators[j].name), lowercased(trimmed(selector)))
            },
    ensures
        selected_simulator(simulators, selector) == Some(simulators[i]),
    decreases simulators.len(),
{
    if i > 0 {
        let rest = simulators.drop_first();
        assert(!simulator_matches(
            simulators[0],
            selector,
            lowercased(simulators[0].name),
            lowercased(trimmed(selector)),
        ));
        assert forall|j: int| 0 <= j < i - 1 implies {
            &&& ascii_lowered((#[trigger] rest[j]).udid) != ascii_lowered(selector)
            &&& ascii_lowered(rest[j].name) != ascii_lowered(selector)
            &&& !contains_text(lowercased(rest[j].name), lowercased(trimmed(selector)))
        } by {
            assert(rest[j] == simulators[j + 1]);
        }
        first_meant_simulator_is_selected(rest, selector, i - 1);
    }
}

/// A simulator is selected only where the selector is its identifier or its name,
/// whatever the case of its letters, or a part of its name.
pub proof fn selected_simulators_are_meant(simulators: Seq<SimulatorView>, selector: Seq<char>)
    ensures
        selected_simulator(simulators, selector) matches Some(simulator) ==> {
            &&& simulators.contains(simulator)
            &&& ascii_lowered(simulator.udid) == ascii_lowered(selector) || ascii_lowered(
                simulator.name,
            ) == ascii_lowered(selector) || contains_text(
                lowercased(simulator.name),
                lowercased(trimmed(selector)),
            )
        },
    decreases simulators.len(),
{
    if simulators.len() > 0 {
        let rest = simulators.drop_first();
        selected_simulators_are_meant(rest, selector);
        if selected_simulator(simulators, selector) is Some {
            let simulator = selected_simulator(simulators, selector)->Some_0;
            if simulator == simulators[0] {
                assert(simulators.contains(simulators[0]));
            } else {
                let k = choose|k: int| 0 <= k < rest.len() && rest[k] == simulator;
                assert(simulators[k + 1] == simulator);
            }
        }
    }
}

/// The booted simulators of two lists are those of the first and then those of the
/// second; of one simulator it is itself, where it is booted.
pub proof fn booted_simulators_keep_their_order(
    front: Seq<SimulatorView>,
    back: Seq<SimulatorView>,
    simulator: SimulatorView,
)
    ensures
        booted(front + back) == booted(front) + booted(back),
        booted(seq![simulator]) == if simulator.is_booted {
            seq![simulator]
        } else {
            Seq::empty()
        },
    decreases back.len(),
{
    let single = seq![simulator];
    assert(single.drop_last() =~= Seq::empty());
    assert(booted(single.drop_last()) =~= Seq::<SimulatorView>::empty());
    assert(booted(single) =~= if simulator.is_booted {
        seq![simulator]
    } else {
        Seq::empty()
    });
    if back.len() == 0 {
        assert(front + back =~= front);
        assert(booted(front) + booted(back) =~= booted(front));
    } else {
        booted_simulators_keep_their_order(front, back.drop_last(), simulator);
        assert((front + back).drop_last() =~= front + back.drop_last());
        assert((front + back).last() == back.last());
        assert(booted(front + back) =~= booted(front) + booted(back));
    }
}

/// The booted simulators are those of the list that are booted.
proof fn lemma_booted(simulators: Seq<SimulatorView>)
    ensures
        booted(simulators).len() <= simulators.len(),
        forall|k: int|
            0 <= k < booted(simulators).len() ==> (#[trigger] booted(simulators)[k]).is_booted
                && simulators.contains(booted(simulators)[k]),
        forall|i: int|
            0 <= i < simulators.len() && (#[trigger] simulators[i]).is_booted ==> booted(
                simulators,
            ).contains(simulators[i]),
    decreases simulators.len(),
{
    if simulators.len() > 0 {
        let front = simulators.drop_last();
        let before = booted(front);
        let all = booted(simulators);
        lemma_booted(front);
        assert forall|k: int| 0 <= k < all.len() implies (#[trigger] all[k]).is_booted
            && simulators.contains(all[k]) by {
            if k < before.len() {
                assert(all[k] == before[k]);
                let i = choose|i: int| 0 <= i < front.len() && front[i] == before[k];
                assert(simulators[i] == before[k]);
            } else {
                assert(simulators[simulators.len() - 1] == all[k]);
            }
        }
        assert forall|i: int| 0 <= i < simulators.len() && (#[trigger] simulators[i]).is_booted
            implies all.contains(simulators[i]) by {
            if i < front.len() {
                assert(front[i] == simulators[i]);
                let k = choose|k: int| 0 <= k < before.len() && before[k] == simulators[i];
                assert(all[k] == simulators[i]);
            } else {
                assert(all[all.len() - 1] == simulators[i]);
            }
        }
    }
}

proof fn lemma_first_booted(simulators: Seq<SimulatorView>, i: int)
    requires
        0 <= i <= simulators.len(),
        forall|j: int| 0 <= j < i ==> !(#[trigger] simulators[j]).is_booted,
    ensures
        booted(simulators) == booted(simulators.skip(i)),
    decreases i,
{
    if i == 0 {
        assert(simulators.skip(0) =~= simulators);
    } else {
        let first = seq![simulators[0]];
        let rest = simulators.skip(1);
        assert(simulators =~= first + rest);
        booted_simulators_keep_their_order(first, rest, simulators[0]);
        assert(booted(first) + booted(rest) =~= booted(rest));
        assert forall|j: int| 0 <= j < i - 1 implies !(#[trigger] rest[j]).is_booted by {
            assert(rest[j] == simulators[j + 1]);
        }
        lemma_first_booted(rest, i - 1);
        assert(rest.skip(i - 1) =~= simulators.skip(i));
    }
}

/// The simulator to show where none is selected is the first that is booted; where
/// none is, the first of all.
pub proof fn first_booted_simulator_is_shown(simulators: Seq<SimulatorView>, i: int)
    requires
        0 <= i < simulators.len(),
        forall|j: int| 0 <= j < i ==> !(#[trigger] simulators[j]).is_booted,
    ensures
        simulators[i].is_booted ==> first_booted_or_first(simulators) == Some(simulators[i]),
        !simulators[i].is_booted && i == simulators.len() - 1 ==> first_booted_or_first(simulators)
            == Some(simulators[0]),
        first_booted_or_first(Seq::empty()) is None,
{
    lemma_booted(simulators);
    lemma_first_booted(simulators, i);
    let rest = simulators.skip(i);
    let first = seq![simulators[i]];
    assert(rest =~= first + rest.skip(1));
    booted_simulators_keep_their_order(first, rest.skip(1), simulators[i]);
    if simulators[i].is_booted {
        assert(booted(rest)[0] == simulators[i]);
    } else if i == simulators.len() - 1 {
        assert(rest.skip(1) =~= Seq::empty());
        assert(booted(rest.skip(1)) =~= Seq::<SimulatorView>::empty());
        assert(booted(rest).len() == 0);
    }
}

/// The only simulator that is booted is the one that is meant; so is the only one
/// there is. Where two are booted, none is meant.
pub proof fn only_booted_simulator_is_meant(simulators: Seq<SimulatorView>, i: int, k: int)
    requires
        0 <= i < simulators.len(),
    ensures
        simulators[i].is_booted && (forall|j: int|
            0 <= j < simulators.len() && j != i ==> !(#[trigger] simulators[j]).is_booted)
            ==> default_simulator(simulators) == Some(simulators[i]) && inferred_device(simulators)
            == Ok::<Seq<char>, Seq<char>>(simulators[i].udid),
        simulators.len() == 1 ==> default_simulator(simulators) == Some(simulators[0])
            && inferred_device(simulators) == Ok::<Seq<char>, Seq<char>>(simulators[0].udid),
        i < k < simulators.len() && simulators[i].is_booted && simulators[k].is_booted
            ==> default_simulator(simulators) is None && inferred_device(simulators) is Err,
{
    lemma_booted(simulators);
    if simulators[i].is_booted && (forall|j: int|
        0 <= j < simulators.len() && j != i ==> !(#[trigger] simulators[j]).is_booted) {
        lemma_first_booted(simulators, i);
        let rest = simulators.skip(i);
        let first = seq![simulators[i]];
        assert(rest =~= first + rest.skip(1));
        booted_simulators_keep_their_order(first, rest.skip(1), simulators[i]);
        lemma_booted(rest.skip(1));
        if booted(rest.skip(1)).len() > 0 {
            let other = booted(rest.skip(1))[0];
            let j = choose|j: int| 0 <= j < rest.skip(1).len() && rest.skip(1)[j] == other;
            assert(simulators[i + 1 + j] == other);
        }
        assert(booted(simulators) =~= first);
    }
    if simulators.len() == 1 {
        assert(simulators =~= seq![simulators[0]]);
        booted_simulators_keep_their_order(Seq::empty(), Seq::empty(), simulators[0]);
    }
    if i < k < simulators.len() && simulators[i].is_booted && simulators[k].is_booted {
        let front = simulators.take(k);
        let back = simulators.skip(k);
        assert(simulators =~= front + back);
        booted_simulators_keep_their_order(front, back, simulators[i]);
        lemma_booted(front);
        lemma_booted(back);
        assert(front[i] == simulators[i]);
        assert(back[0] == simulators[k]);
        assert(booted(front).contains(front[i]));
        assert(booted(back).contains(back[0]));
        assert(booted(simulators).len() >= 2);
    }
}

/// A device is refused for the reason that holds: there is none, several are booted,
/// or several are there and none is booted.
pub proof fn refusals_give_their_reason(simulators: Seq<SimulatorView>)
    ensures
        inferred_device(simulators) matches Err(text) ==> {
            &&& simulators.len() == 0 ==> text
                == "No simulators are available. Boot one or pass a UDID explicitly."@
            &&& booted(simulators).len() > 1 ==> text
                == "Multiple booted simulators are available. Pass a UDID, run `simdeck use <UDID>`, use --device, or set SIMDECK_DEVICE."@
            &&& simulators.len() > 0 && booted(simulators).len() <= 1 ==> text
                == "No default simulator could be inferred. Pass a UDID, run `simdeck use <UDID>`, use --device, or set SIMDECK_DEVICE."@
        },
        simulators.len() == 0 ==> inferred_device(simulators) is Err,
{
    lemma_booted(simulators);
}

/// An entry describes a simulator where it gives an identifier and a name, with what
/// it gives; one that does not say that it is booted is not.
pub proof fn entries_describe_their_simulator(
    udid: Seq<char>,
    name: Seq<char>,
    runtime_name: Option<Seq<char>>,
    is_booted: bool,
)
    ensures
        simulator_of(Some(udid), Some(name), runtime_name, Some(is_booted)) == Some(
            (SimulatorView { udid, name, runtime_name, is_booted }),
        ),
        simulator_of(Some(udid), Some(name), runtime_name, None) == Some(
            (SimulatorView { udid, name, runtime_name, is_booted: false }),
        ),
        simulator_of(None, Some(name), runtime_name, Some(is_booted)) is None,
        simulator_of(Some(udid), None, runtime_name, Some(is_booted)) is None,
{
}

/// The simulators of two lists of entries are those of the first and then those of
/// the second; an entry that describes none adds none.
pub proof fn simulators_keep_the_order_of_entries(
    front: Seq<Seq<char>>,
    back: Seq<Seq<char>>,
    entry: Seq<char>,
)
    ensures
        simulators_of(front + back) == simulators_of(front) + simulators_of(back),
        simulators_of(seq![entry]) == match simulator_of(
            string_field(entry, "udid"@),
            string_field(entry, "name"@),
            string_field(entry, "runtimeName"@),
            bool_field(entry, "isBooted"@),
        ) {
            Some(simulator) => seq![simulator],
            None => Seq::empty(),
        },
    decreases back.len(),
{
    let single = seq![entry];
    assert(single.drop_last() =~= Seq::empty());
    assert(simulators_of(single.drop_last()) =~= Seq::<SimulatorView>::empty());
    assert(simulators_of(single) =~= match simulator_of_entry(entry) {
        Some(simulator) => seq![simulator],
        None => Seq::empty(),
    });
    if back.len() == 0 {
        assert(front + back =~= front);
        assert(simulators_of(front) + simulators_of(back) =~= simulators_of(front));
    } else {
        simulators_keep_the_order_of_entries(front, back.drop_last(), entry);
        assert((front + back).drop_last() =~= front + back.drop_last());
        assert((front + back).last() == back.last());
        assert(simulators_of(front + back) =~= simulators_of(front) + simulators_of(back));
    }
}

/// A device among the arguments of a command wins over every selector; the selector
/// of the flag over those of the environment, and `SIMDECK_DEVICE` over
/// `SIMDECK_UDID`. Without any, the device is inferred.
pub proof fn named_devices_win(
    device: Seq<char>,
    global: Option<Seq<char>>,
    environment_device: Option<Seq<char>>,
    environment_udid: Option<Seq<char>>,
)
    requires
        !blank(device),
    ensures
        device_query(Some(device), global, environment_device, environment_udid)
            == DeviceQueryView::Known(trimmed(device)),
        device_query(None, Some(device), environment_device, environment_udid) == device_query(
            None,
            Some(device),
            None,
            None,
        ),
        device_query(None, None, Some(device), environment_udid) == device_query(
            None,
            Some(device),
            None,
            None,
        ),
        device_query(None, None, None, Some(device)) == device_query(
            None,
            Some(device),
            None,
            None,
        ),
        device_query(None, Some(device), None, None) == if device_selector(trimmed(device)) {
            DeviceQueryView::Known(trimmed(device))
        } else {
            DeviceQueryView::Select(trimmed(device))
        },
        device_query(None, None, None, None) == DeviceQueryView::Infer,
{
}

/// A device that was chosen for one project is not used for another, and a blank one
/// for none.
pub proof fn other_projects_keep_their_devices(
    selection: SelectionView,
    project_root: Seq<char>,
    windows: bool,
)
    ensures
        !paths_equal(selection.project_root, project_root, windows) ==> remembered_device(
            selection,
            project_root,
            windows,
        ) is None,
        blank(selection.udid) ==> remembered_device(selection, project_root, windows) is None,
        remembered_device(selection, selection.project_root, windows) is Some <==> !blank(
            selection.udid,
        ),
{
}

/// What `simdeck use` stores is the identifier that it is given, or that of the
/// simulator which the selector means, together with what is known of it, for the
/// project and with the time of the choice.
pub proof fn chosen_devices_are_stored(
    selector: Seq<char>,
    project_root: Seq<char>,
    now: u64,
    simulators: Seq<SimulatorView>,
)
    ensures
        chosen_device(selector, project_root, now, simulators) matches Some(chosen) ==> {
            &&& !blank(selector)
            &&& chosen.project_root == project_root
            &&& chosen.selected_at == now
            &&& device_selector(trimmed(selector)) ==> chosen.udid == trimmed(selector)
            &&& !device_selector(trimmed(selector)) ==> {
                &&& selected_simulator(simulators, trimmed(selector)) matches Some(simulator)
                &&& chosen.udid == simulator.udid
                &&& chosen.name == Some(simulator.name)
                &&& chosen.runtime_name == simulator.runtime_name
            }
        },
        chosen_device(selector, project_root, now, simulators) is None <==> blank(selector) || (
        !device_selector(trimmed(selector)) && selected_simulator(
            simulators,
            trimmed(selector),
        ) is None),
{
}

/// A link opens the simulator that its identifier means; only where it means none,
/// the one that the selector means.
pub proof fn links_open_the_named_device(
    simulators: Seq<SimulatorView>,
    udid: Seq<char>,
    selector: Seq<char>,
)
    ensures
        selected_simulator(simulators, udid) is Some ==> linked_simulator(
            simulators,
            udid,
            Some(selector),
        ) == selected_simulator(simulators, udid),
        selected_simulator(simulators, udid) is None && ascii_lowered(selector) != ascii_lowered(
            udid,
        ) ==> linked_simulator(simulators, udid, Some(selector)) == selected_simulator(
            simulators,
            selector,
        ),
        linked_simulator(simulators, udid, None) == selected_simulator(simulators, udid),
{
}

/// Every field of an entry of the compact list has the value that the simulator has
/// under its name, or its display for the two fields of the display; none is null.
pub proof fn compact_entries_copy_their_fields(simulator: Seq<char>, k: int)
    requires
        0 <= k < compact_entry(simulator).len(),
    ensures
        ({
            let (name, value) = compact_entry(simulator)[k];
            let display = json_field(simulator, "privateDisplay"@);
            &&& json_shape(value) != Some(JsonShapeView::Null)
            &&& json_field(simulator, name) == Some(value) || (display is Some && json_field(
                display->Some_0,
                name,
            ) == Some(value) && (name == "displayStatus"@ || name == "displayReady"@))
        }),
{
}

/// An entry of the compact list has the identifier, the name and the state of its
/// simulator, where they are there and not null.
pub proof fn compact_entries_keep_what_names_a_simulator(
    simulator: Seq<char>,
    name: Seq<char>,
    value: Seq<char>,
)
    requires
        name == "udid"@ || name == "name"@ || name == "state"@ || name == "isBooted"@ || name
            == "isAvailable"@ || name == "platform"@ || name == "deviceTypeName"@ || name
            == "runtimeName"@,
        json_field(simulator, name) == Some(value),
        json_shape(value) != Some(JsonShapeView::Null),
    ensures
        compact_entry(simulator).contains((name, value)),
{
    let whole = Some(simulator);
    let all = compact_entry(simulator);
    let a = copied_field(whole, "udid"@);
    let b = a + copied_field(whole, "name"@);
    let c = b + copied_field(whole, "state"@);
    let d = c + copied_field(whole, "isBooted"@);
    let e = d + copied_field(whole, "isAvailable"@);
    let f = e + copied_field(whole, "platform"@);
    let g = f + copied_field(whole, "deviceTypeName"@);
    assert(copied_field(whole, name) =~= seq![(name, value)]);
    if name == "udid"@ {
        assert(all[0] == (name, value));
    } else if name == "name"@ {
        assert(all[a.len() as int] == (name, value));
    } else if name == "state"@ {
        assert(all[b.len() as int] == (name, value));
    } else if name == "isBooted"@ {
        assert(all[c.len() as int] == (name, value));
    } else if name == "isAvailable"@ {
        assert(all[d.len() as int] == (name, value));
    } else if name == "platform"@ {
        assert(all[e.len() as int] == (name, value));
    } else if name == "deviceTypeName"@ {
        assert(all[f.len() as int] == (name, value));
    } else {
        assert(all[g.len() as int] == (name, value));
    }
}

/// A device is booted with the arguments of the emulator where there are any, and
/// without a body otherwise.
pub proof fn boot_bodies_carry_their_arguments(arguments: Seq<Seq<char>>, list: Seq<char>)
    ensures
        arguments.len() == 0 ==> boot_body(arguments, list) == "null"@,
        arguments.len() > 0 ==> {
            let body = boot_body(arguments, list);
            let front = "{\"androidEmulatorArgs\":"@;
            &&& body.take(front.len() as int) == front
            &&& body.subrange(front.len() as int, body.len() - 1) == list
            &&& body.last() == '}'
        },
{
    reveal_strlit("}");
    let body = boot_body(arguments, list);
    let front = "{\"androidEmulatorArgs\":"@;
    if arguments.len() > 0 {
        assert(body.take(front.len() as int) =~= front);
        assert(body.subrange(front.len() as int, body.len() - 1) =~= list);
    }
}

/// The contracts see all of a simulator, each field as what it is.
pub proof fn simulators_are_seen_whole(simulator: StudioSimulatorSelection)
    ensures
        simulator@.udid == simulator.udid@,
        simulator@.name == simulator.name@,
        simulator@.runtime_name == option_view(simulator.runtime_name),
        simulator@.is_booted == simulator.is_booted,
{
}

/// The contracts see all of a stored selection, each field as what it is.
pub proof fn selections_are_seen_whole(selection: ProjectDeviceSelection)
    ensures
        selection@.project_root == selection.project_root@,
        selection@.udid == selection.udid@,
        selection@.name == option_view(selection.name),
        selection@.runtime_name == option_view(selection.runtime_name),
        selection@.selected_at == selection.selected_at,
{
}

} // verus!
