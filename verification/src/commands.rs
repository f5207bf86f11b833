//! How the commands reach a device: through a service, or natively.
use vstd::prelude::*;

use crate::arguments::push_text;
use crate::cli::{
    android_id, is_android_id, ElementSelector, SelectorView, TapCommandTarget, TapView,
};
use crate::error::SimdeckError;
use crate::input::TouchPhase;
use crate::metadata::usable_url;
use crate::numbers::{decimal, decimal_text};
use crate::text::{
    contained_texts_are_parts, contains_text, join, joined, option_str_view, option_view, owned,
    trim, views,
};

verus! {

/// The URL of the service that a command is asked to use: the given one, else
/// that of the environment, where it is not blank.
pub fn requested_service_url(explicit: Option<&str>, environment: Option<&str>) -> (url: Option<
    String,
>)
    ensures
        option_view(url) == usable_url(
            if explicit is Some {
                option_str_view(explicit)
            } else {
                option_str_view(environment)
            },
        ),
{
    let named = if explicit.is_some() {
        explicit
    } else {
        environment
    };
    match named {
        Some(text) => if trim(text).as_str().is_empty() {
            None
        } else {
            Some(owned(text))
        },
        None => None,
    }
}

/// Which service a command for a device goes through.
#[derive(Debug)]
pub enum DeviceService {
    /// The service of the commands, which is made sure of.
    Command,
    /// The one with the given URL.
    Url(String),
    /// None: the device is driven natively.
    Native,
}

/// Which service a command for a device goes through: an Android device is only
/// reached through the service of the commands, any other one through the
/// service that the command is asked to use.
pub fn command_service_url_for_udid(udid: &str, service_url: Option<&str>) -> (service:
    DeviceService)
    ensures
        match service {
            DeviceService::Command => android_id(udid@),
            DeviceService::Url(url) => !android_id(udid@) && option_str_view(service_url) == Some(
                url@,
            ),
            DeviceService::Native => !android_id(udid@) && service_url is None,
        },
{
    if is_android_id(udid) {
        return DeviceService::Command;
    }
    match service_url {
        Some(url) => DeviceService::Url(owned(url)),
        None => DeviceService::Native,
    }
}

/// A command whose coordinates on Android are shares of the screen.
#[derive(Clone, Copy, Debug, PartialEq, Eq, Structural)]
pub enum PointCommand {
    Touch,
    Swipe,
}

impl PointCommand {
    /// The command's name.
    pub open spec fn name(self) -> Seq<char> {
        match self {
            PointCommand::Touch => "touch"@,
            PointCommand::Swipe => "swipe"@,
        }
    }
}

/// Makes sure that the coordinates of a command suit the device: those of an
/// Android device are shares of its screen.
pub fn check_coordinates(command: PointCommand, udid: &str, normalized: bool) -> (result: Result<
    (),
    SimdeckError,
>)
    ensures
        match result {
            Ok(_) => !android_id(udid@) || normalized,
            Err(error) => android_id(udid@) && !normalized && error.text() == "Android "@
                + command.name() + " coordinates require --normalized."@,
        },
{
    if is_android_id(udid) && !normalized {
        let mut message = owned("Android ");
        match command {
            PointCommand::Touch => message.append("touch"),
            PointCommand::Swipe => message.append("swipe"),
        }
        message.append(" coordinates require --normalized.");
        return Err(SimdeckError::new(message));
    }
    Ok(())
}

/// A touch, and the pause after it.
#[derive(Clone, Copy, Debug, PartialEq, Eq, Structural)]
pub struct TouchEvent {
    pub phase: TouchPhase,
    pub delay_ms: u64,
}

/// The touches of a finger that is put down, lifted, or both: between the two
/// lies the pause.
pub open spec fn touch_sequence(down: bool, up: bool, delay_ms: u64) -> Seq<TouchEvent> {
    let began = if down {
        seq![
            TouchEvent {
                phase: TouchPhase::Began,
                delay_ms: if up {
                    delay_ms
                } else {
                    0
                },
            },
        ]
    } else {
        Seq::empty()
    };
    let ended = if up {
        seq![TouchEvent { phase: TouchPhase::Ended, delay_ms: 0 }]
    } else {
        Seq::empty()
    };
    began + ended
}

/// The touches of a finger that is put down, lifted, or both.
pub fn touch_events(down: bool, up: bool, delay_ms: u64) -> (events: Vec<TouchEvent>)
    ensures
        events@ == touch_sequence(down, up, delay_ms),
{
    let mut events: Vec<TouchEvent> = Vec::new();
    if down {
        let delay: u64 = if up {
            delay_ms
        } else {
            0
        };
        events.push(TouchEvent { phase: TouchPhase::Began, delay_ms: delay });
    }
    if up {
        events.push(TouchEvent { phase: TouchPhase::Ended, delay_ms: 0 });
    }
    assert(events@ =~= touch_sequence(down, up, delay_ms));
    events
}

/// How a touch is made.
#[derive(Debug)]
pub enum TouchRoute {
    /// The service makes the touches.
    ServiceSequence(Vec<TouchEvent>),
    /// The service makes the touch of the given phase.
    ServicePhase,
    /// The remote's button is pressed.
    RemoteSelect,
    /// The remote follows the given phase.
    RemotePhase,
    /// Nothing is to be done.
    Nothing,
    /// The touches are made natively.
    NativeSequence(Vec<TouchEvent>),
    /// The touch of the given phase is made natively.
    NativePhase,
}

/// What makes a touch.
pub enum TouchWay {
    Service,
    Remote,
    Native,
}

/// What makes a touch: a service, the remote of a television, or the device itself.
pub open spec fn touch_way(service: bool, normalized: bool, tvos: bool) -> TouchWay {
    match (service && normalized, tvos) {
        (true, _) => TouchWay::Service,
        (false, true) => TouchWay::Remote,
        (false, false) => TouchWay::Native,
    }
}

/// A service makes a touch exactly where there is one and the coordinates are shares of
/// the screen; a television is never touched natively, and nothing else has a remote.
pub proof fn touches_go_through_their_service(service: bool, normalized: bool, tvos: bool)
    ensures
        touch_way(service, normalized, tvos) is Service <==> service && normalized,
        touch_way(service, normalized, tvos) is Remote ==> tvos,
        touch_way(service, normalized, tvos) is Native ==> !tvos,
{
}

/// How a touch is made. A service is used where there is one and the
/// coordinates are shares of the screen. A television has a remote, which acts
/// when the finger is lifted.
pub fn touch_route(
    service: bool,
    normalized: bool,
    tvos: bool,
    down: bool,
    up: bool,
    delay_ms: u64,
) -> (route: TouchRoute)
    ensures
        match route {
            TouchRoute::ServiceSequence(_) | TouchRoute::ServicePhase => touch_way(
                service,
                normalized,
                tvos,
            ) is Service,
            TouchRoute::RemoteSelect | TouchRoute::RemotePhase | TouchRoute::Nothing => touch_way(
                service,
                normalized,
                tvos,
            ) is Remote,
            TouchRoute::NativeSequence(_) | TouchRoute::NativePhase => touch_way(
                service,
                normalized,
                tvos,
            ) is Native,
        },
        match route {
            TouchRoute::ServiceSequence(events) => service && normalized && (down || up)
                && events@ == touch_sequence(down, up, delay_ms),
            TouchRoute::ServicePhase => service && normalized && !down && !up,
            TouchRoute::RemoteSelect => !(service && normalized) && tvos && up,
            TouchRoute::Nothing => !(service && normalized) && tvos && down && !up,
            TouchRoute::RemotePhase => !(service && normalized) && tvos && !down && !up,
            TouchRoute::NativeSequence(events) => !(service && normalized) && !tvos && (down || up)
                && events@ == touch_sequence(down, up, delay_ms),
            TouchRoute::NativePhase => !(service && normalized) && !tvos && !down && !up,
        },
{
    if service && normalized {
        if down || up {
            TouchRoute::ServiceSequence(touch_events(down, up, delay_ms))
        } else {
            TouchRoute::ServicePhase
        }
    } else if tvos {
        if up {
            TouchRoute::RemoteSelect
        } else if down {
            TouchRoute::Nothing
        } else {
            TouchRoute::RemotePhase
        }
    } else if down || up {
        TouchRoute::NativeSequence(touch_events(down, up, delay_ms))
    } else {
        TouchRoute::NativePhase
    }
}

/// Tells whether a tap goes through the service of the commands even where no
/// service is asked for: where the device is inferred, an element is looked
/// for, or an outcome is expected.
pub fn tap_needs_service(target: &TapCommandTarget, expectation: &ElementSelector) -> (result: bool)
    ensures
        result == (target@.udid is None || !target@.selector.empty() || !expectation@.empty()),
{
    target.udid.is_none() || !target.selector.is_empty() || !expectation.is_empty()
}

/// How a tap is made.
#[derive(Clone, Copy, Debug, PartialEq, Eq, Structural)]
pub enum TapRoute {
    /// The service taps a point.
    ServicePoint,
    /// The service finds what to tap.
    ServiceElement,
    /// The tap is made natively.
    Native,
}

/// The texts of a selector select nothing; its index is left aside.
pub open spec fn no_text(selector: SelectorView) -> bool {
    selector.id is None && selector.label is None && selector.value is None
        && selector.element_type is None
}

/// How a tap is made, where there is a service or not.
pub open spec fn route_of_tap(
    service: bool,
    normalized: bool,
    target: TapView,
    expectation: SelectorView,
) -> TapRoute {
    if !service {
        TapRoute::Native
    } else if target.point is Some && normalized && no_text(target.selector)
        && expectation.empty() {
        TapRoute::ServicePoint
    } else {
        TapRoute::ServiceElement
    }
}

pub fn tap_route(
    service: bool,
    normalized: bool,
    target: &TapCommandTarget,
    expectation: &ElementSelector,
) -> (route: TapRoute)
    ensures
        route == route_of_tap(service, normalized, target@, expectation@),
{
    if !service {
        return TapRoute::Native;
    }
    if target.point.is_some() && normalized && target.selector.id.is_none()
        && target.selector.label.is_none() && target.selector.value.is_none()
        && target.selector.element_type.is_none() && expectation.is_empty() {
        TapRoute::ServicePoint
    } else {
        TapRoute::ServiceElement
    }
}

/// A tap that looks for an element, or expects an outcome, is never reduced to
/// a point by a service.
pub proof fn elements_are_looked_for(
    normalized: bool,
    target: TapView,
    expectation: SelectorView,
)
    requires
        !no_text(target.selector) || !expectation.empty(),
    ensures
        route_of_tap(true, normalized, target, expectation) == TapRoute::ServiceElement,
{
}

/// How a swipe is made.
#[derive(Clone, Copy, Debug, PartialEq, Eq, Structural)]
pub enum SwipeRoute {
    /// The service of an Android device makes it.
    ServiceAction,
    /// The service makes it as touches.
    ServiceTouches,
    /// It is made natively.
    Native,
}

/// How a swipe is made on a device of Android or another.
pub open spec fn route_of_swipe(android: bool, service: bool, normalized: bool) -> SwipeRoute {
    match (android, service && normalized) {
        (true, true) => SwipeRoute::ServiceAction,
        (false, true) => SwipeRoute::ServiceTouches,
        (_, false) => SwipeRoute::Native,
    }
}

/// A swipe goes through a service exactly where there is one and the coordinates are
/// shares of the screen; on Android as one action, elsewhere as touches.
pub proof fn swipes_go_through_their_service(android: bool, service: bool, normalized: bool)
    ensures
        route_of_swipe(android, service, normalized) is Native <==> !(service && normalized),
        route_of_swipe(android, service, normalized) is ServiceAction ==> android,
        route_of_swipe(android, service, normalized) is ServiceTouches ==> !android,
{
}

/// How a swipe is made, where there is a service or not.
pub fn swipe_route(udid: &str, service: bool, normalized: bool) -> (route: SwipeRoute)
    ensures
        route == route_of_swipe(android_id(udid@), service, normalized),
        route == if !(service && normalized) {
            SwipeRoute::Native
        } else if android_id(udid@) {
            SwipeRoute::ServiceAction
        } else {
            SwipeRoute::ServiceTouches
        },
{
    if !(service && normalized) {
        SwipeRoute::Native
    } else if is_android_id(udid) {
        SwipeRoute::ServiceAction
    } else {
        SwipeRoute::ServiceTouches
    }
}

/// How a gesture is made on a device of Android or another; not at all on one of
/// Android without a service.
pub open spec fn route_of_gesture(android: bool, service: bool, normalized: bool) -> Option<
    SwipeRoute,
> {
    match (android, service) {
        (true, true) => Some(SwipeRoute::ServiceAction),
        (true, false) => None,
        (false, _) => Some(route_of_swipe(false, service, normalized)),
    }
}

/// A gesture on Android goes through its service, whatever its coordinates, and is
/// refused without one; on any other device it is made as a swipe is.
pub proof fn gestures_are_made_as_swipes(android: bool, service: bool, normalized: bool)
    ensures
        route_of_gesture(android, service, normalized) is None <==> android && !service,
        android && service ==> route_of_gesture(android, service, normalized) == Some(
            SwipeRoute::ServiceAction,
        ),
        !android ==> route_of_gesture(android, service, normalized) == Some(
            route_of_swipe(android, service, normalized),
        ),
{
}

/// How a gesture is made: as a swipe is, but that an Android device always
/// takes its service.
pub fn gesture_route(udid: &str, service: bool, normalized: bool) -> (result: Result<
    SwipeRoute,
    SimdeckError,
>)
    ensures
        match result {
            Ok(route) => {
                &&& route_of_gesture(android_id(udid@), service, normalized) == Some(route)
                &&& android_id(udid@) ==> service && route == SwipeRoute::ServiceAction
                &&& !android_id(udid@) ==> route == if service && normalized {
                    SwipeRoute::ServiceTouches
                } else {
                    SwipeRoute::Native
                }
            },
            Err(error) => android_id(udid@) && !service && error.text()
                == "Android command requires SimDeck service."@,
        },
{
    if is_android_id(udid) {
        if service {
            Ok(SwipeRoute::ServiceAction)
        } else {
            Err(SimdeckError::from_text("Android command requires SimDeck service."))
        }
    } else if service && normalized {
        Ok(SwipeRoute::ServiceTouches)
    } else {
        Ok(SwipeRoute::Native)
    }
}

/// A gesture of two fingers.
#[derive(Clone, Copy, Debug, PartialEq, Eq, Structural)]
pub enum TwoFingerGesture {
    Pinch,
    Rotate,
}

impl TwoFingerGesture {
    /// The gesture's name.
    pub open spec fn name(self) -> Seq<char> {
        match self {
            TwoFingerGesture::Pinch => "pinch"@,
            TwoFingerGesture::Rotate => "rotate"@,
        }
    }
}

/// Makes sure that a device knows gestures of two fingers: Android ones do not.
pub fn check_two_finger_gesture(gesture: TwoFingerGesture, udid: &str) -> (result: Result<
    (),
    SimdeckError,
>)
    ensures
        match result {
            Ok(_) => !android_id(udid@),
            Err(error) => android_id(udid@) && error.text() == "Android "@ + gesture.name()
                + " gestures are not supported by the ADB input bridge."@,
        },
{
    if is_android_id(udid) {
        let mut message = owned("Android ");
        match gesture {
            TwoFingerGesture::Pinch => message.append("pinch"),
            TwoFingerGesture::Rotate => message.append("rotate"),
        }
        message.append(" gestures are not supported by the ADB input bridge.");
        return Err(SimdeckError::new(message));
    }
    Ok(())
}

/// How a key is pressed.
#[derive(Clone, Copy, Debug, PartialEq, Eq, Structural)]
pub enum KeyRoute {
    /// The service presses it.
    Service,
    /// It is held down natively.
    Hold,
    /// It is pressed natively.
    Native,
}

/// How a key is pressed.
pub open spec fn route_of_key(service: bool, duration_ms: u64, modifiers: u32) -> KeyRoute {
    if duration_ms == 0 {
        if service {
            KeyRoute::Service
        } else {
            KeyRoute::Native
        }
    } else if modifiers == 0 {
        KeyRoute::Hold
    } else {
        KeyRoute::Native
    }
}

/// A key is held only where it is to be held and has no modifiers, and a service
/// presses it only where it is not to be held.
pub proof fn keys_are_held_where_asked(service: bool, duration_ms: u64, modifiers: u32)
    ensures
        route_of_key(service, duration_ms, modifiers) is Hold <==> duration_ms > 0 && modifiers
            == 0,
        route_of_key(service, duration_ms, modifiers) is Service <==> service && duration_ms == 0,
{
}

/// How a key is pressed: a service does not hold keys, and a key with modifiers
/// is not held.
pub fn key_route(service: bool, duration_ms: u64, modifiers: u32) -> (route: KeyRoute)
    ensures
        route == route_of_key(service, duration_ms, modifiers),
        route == if service && duration_ms == 0 {
            KeyRoute::Service
        } else if duration_ms > 0 && modifiers == 0 {
            KeyRoute::Hold
        } else {
            KeyRoute::Native
        },
{
    if service && duration_ms == 0 {
        KeyRoute::Service
    } else if duration_ms > 0 && modifiers == 0 {
        KeyRoute::Hold
    } else {
        KeyRoute::Native
    }
}

/// The pauses after the keys of a sequence.
pub open spec fn pauses_of_keys(count: nat, delay_ms: u64) -> Seq<u64>
    decreases count,
{
    if count == 0 {
        Seq::empty()
    } else if count == 1 {
        seq![0u64]
    } else {
        seq![delay_ms] + pauses_of_keys((count - 1) as nat, delay_ms)
    }
}

/// There is a pause after every key but the last, and after the last there is none.
pub proof fn keys_pause_between_each_other(count: nat, delay_ms: u64, i: int)
    requires
        0 <= i < count,
    ensures
        pauses_of_keys(count, delay_ms).len() == count,
        i < count - 1 ==> pauses_of_keys(count, delay_ms)[i] == delay_ms,
        i == count - 1 ==> pauses_of_keys(count, delay_ms)[i] == 0,
    decreases count,
{
    if count > 1 {
        let before: int = if i > 0 {
            i - 1
        } else {
            0
        };
        keys_pause_between_each_other((count - 1) as nat, delay_ms, before);
    }
}

/// The pause after each key of a sequence: none after the last one.
pub fn key_delays(count: usize, delay_ms: u64) -> (delays: Vec<u64>)
    ensures
        delays@ == pauses_of_keys(count as nat, delay_ms),
        delays@ == Seq::new(
            count as nat,
            |i: int|
                if i + 1 < count {
                    delay_ms
                } else {
                    0
                },
        ),
{
    let mut delays: Vec<u64> = Vec::new();
    let mut index: usize = 0;
    while index < count
        invariant
            index <= count,
            delays@.len() == index,
            forall|i: int|
                0 <= i < index ==> #[trigger] delays@[i] == if i + 1 < count {
                    delay_ms
                } else {
                    0
                },
        decreases count - index,
    {
        let delay: u64 = if count - index > 1 {
            delay_ms
        } else {
            0
        };
        delays.push(delay);
        index = index + 1;
    }
    proof {
        let pauses = pauses_of_keys(count as nat, delay_ms);
        if count > 0 {
            keys_pause_between_each_other(count as nat, delay_ms, 0);
        }
        assert forall|i: int| 0 <= i < count implies delays@[i] == pauses[i] by {
            keys_pause_between_each_other(count as nat, delay_ms, i);
        }
        assert(delays@ =~= pauses);
    }
    delays
}

/// Tells whether a batch of steps may be run natively where its service cannot
/// be had: not on Android.
pub fn batch_may_run_natively(udid: &str) -> (result: bool)
    ensures
        result == !android_id(udid@),
{
    !is_android_id(udid)
}

/// Where a description of a screen comes from.
#[derive(Clone, Copy, Debug, PartialEq, Eq, Structural)]
pub enum AccessibilitySource {
    /// Whichever there is.
    Auto,
    /// The simulator itself.
    NativeAX,
    /// The Android device itself.
    AndroidUiautomator,
    /// A framework inside the app.
    InApp,
}

/// What to ask for a description of a screen.
#[derive(Debug)]
pub enum DescribeStep {
    /// The service, for what is at a point.
    ServicePoint,
    /// The service, for all of it.
    ServiceTree,
    /// The simulator itself.
    Native,
    /// Nothing: there is no way to it.
    Refused(SimdeckError),
}

/// The error of a source that only a service can read. `source` is its name.
pub open spec fn source_needs_service(source: Seq<char>) -> Seq<char> {
    "The `"@ + source
        + "` hierarchy source requires a running SimDeck service. Start it with `simdeck service start --port 4311`, or use --source native-ax."@
}

/// A source that the simulator itself can stand for.
pub open spec fn read_natively(source: AccessibilitySource) -> bool {
    source is Auto || source is NativeAX
}

/// The description is asked of a service first.
pub open spec fn described_by_service(
    direct: bool,
    has_point: bool,
    source: AccessibilitySource,
) -> bool {
    !direct && (has_point ==> !(source is InApp))
}

/// What to ask first for a description of a screen. `name` is the source's name.
pub fn describe_ui_snapshot(
    direct: bool,
    has_point: bool,
    source: AccessibilitySource,
    name: &str,
) -> (step: DescribeStep)
    ensures
        match step {
            DescribeStep::ServicePoint => described_by_service(direct, has_point, source)
                && has_point,
            DescribeStep::ServiceTree => described_by_service(direct, has_point, source)
                && !has_point,
            DescribeStep::Native => !described_by_service(direct, has_point, source)
                && read_natively(source),
            DescribeStep::Refused(error) => !described_by_service(direct, has_point, source)
                && !read_natively(source) && error.text() == source_needs_service(name@),
        },
{
    if !direct {
        if !has_point {
            return DescribeStep::ServiceTree;
        }
        if source != AccessibilitySource::InApp {
            return DescribeStep::ServicePoint;
        }
    }
    if source == AccessibilitySource::Auto || source == AccessibilitySource::NativeAX {
        return DescribeStep::Native;
    }
    let mut message = owned("The `");
    message.append(name);
    message.append(
        "` hierarchy source requires a running SimDeck service. Start it with `simdeck service start --port 4311`, or use --source native-ax.",
    );
    DescribeStep::Refused(SimdeckError::new(message))
}

/// Tells whether the simulator itself is asked for a description that the
/// service failed to give: only where no source was named.
pub fn falls_back_to_native(source: AccessibilitySource) -> (result: bool)
    ensures
        result == (source is Auto),
{
    source == AccessibilitySource::Auto
}

/// Tells whether a description that the simulator gave is cut down to what can
/// be acted on.
pub fn keeps_interactive_only(interactive_only: bool, has_point: bool) -> (result: bool)
    ensures
        result == (interactive_only && !has_point),
{
    interactive_only && !has_point
}

/// A part of a query, where it is wanted.
pub open spec fn query_flag(text: Seq<char>, set: bool) -> Seq<Seq<char>> {
    if set {
        seq![text]
    } else {
        Seq::empty()
    }
}

/// The deepest level of a screen's tree that can be asked for.
pub const MAX_ACCESSIBILITY_DEPTH: usize = 80;

/// The depth that is asked for.
pub open spec fn query_depth(max_depth: Option<usize>) -> Seq<Seq<char>> {
    match max_depth {
        Some(depth) => seq![
            "maxDepth="@ + decimal(
                if depth <= MAX_ACCESSIBILITY_DEPTH {
                    depth as nat
                } else {
                    MAX_ACCESSIBILITY_DEPTH as nat
                },
            ),
        ],
        None => Seq::empty(),
    }
}

/// The parts of the query for the description of a screen.
pub open spec fn tree_query(
    source: Seq<char>,
    max_depth: Option<usize>,
    include_hidden: bool,
    interactive_only: bool,
) -> Seq<Seq<char>> {
    seq!["source="@ + source] + query_depth(max_depth) + query_flag(
        "includeHidden=true"@,
        include_hidden,
    ) + query_flag("interactiveOnly=true"@, interactive_only)
}

/// A path of a device on a service.
pub open spec fn path_of_device(device: Seq<char>, rest: Seq<char>) -> Seq<char> {
    "/api/simulators/"@ + device + "/"@ + rest
}

/// A path of a device on a service. `device` is the device's identifier as it
/// stands in a path.
pub fn device_path(device: &str, rest: &str) -> (path: String)
    ensures
        path@ == path_of_device(device@, rest@),
{
    let mut path = owned("/api/simulators/");
    path.append(device);
    path.append("/");
    path.append(rest);
    path
}

/// The path of the description of a screen. `device` is the device's identifier
/// as it stands in a path, `source` the name of the source.
pub fn fetch_service_accessibility_tree(
    device: &str,
    source: &str,
    max_depth: Option<usize>,
    include_hidden: bool,
    interactive_only: bool,
) -> (path: String)
    ensures
        path@ == path_of_device(
            device@,
            "accessibility-tree?"@ + joined(
                tree_query(source@, max_depth, include_hidden, interactive_only),
                "&"@,
            ),
        ),
{
    let mut first = owned("source=");
    first.append(source);
    let mut query: Vec<String> = Vec::new();
    push_text(&mut query, first.as_str());
    assert(views(query@) =~= seq!["source="@ + source@]);
    if let Some(depth) = max_depth {
        let capped: usize = if depth <= MAX_ACCESSIBILITY_DEPTH {
            depth
        } else {
            MAX_ACCESSIBILITY_DEPTH
        };
        let mut text = owned("maxDepth=");
        text.append(decimal_text(capped as u64).as_str());
        push_text(&mut query, text.as_str());
    }
    assert(views(query@) =~= seq!["source="@ + source@] + query_depth(max_depth));
    if include_hidden {
        push_text(&mut query, "includeHidden=true");
    }
    assert(views(query@) =~= seq!["source="@ + source@] + query_depth(max_depth) + query_flag(
        "includeHidden=true"@,
        include_hidden,
    ));
    if interactive_only {
        push_text(&mut query, "interactiveOnly=true");
    }
    assert(views(query@) =~= tree_query(source@, max_depth, include_hidden, interactive_only));
    let mut rest = owned("accessibility-tree?");
    rest.append(join(&query, "&").as_str());
    device_path(device, rest.as_str())
}

/// The path of what is at a point of a screen. `x` and `y` are the point's
/// coordinates.
pub fn fetch_service_accessibility_point(device: &str, x: &str, y: &str) -> (path: String)
    ensures
        path@ == path_of_device(device@, "accessibility-point?x="@ + x@ + "&y="@ + y@),
{
    let mut rest = owned("accessibility-point?x=");
    rest.append(x);
    rest.append("&y=");
    rest.append(y);
    device_path(device, rest.as_str())
}

/// The path of a picture of a screen, with the device's frame or without.
pub fn screenshot_path(device: &str, with_bezel: bool) -> (path: String)
    ensures
        path@ == path_of_device(
            device@,
            "screenshot.png"@ + if with_bezel {
                "?bezel=true"@
            } else {
                ""@
            },
        ),
{
    let mut rest = owned("screenshot.png");
    if with_bezel {
        rest.append("?bezel=true");
    } else {
        rest.append("");
    }
    device_path(device, rest.as_str())
}

/// A finger that is put down and lifted begins and then ends a touch, with the pause
/// in between and none behind; one that is only put down or only lifted does that
/// alone, without a pause.
pub proof fn touches_begin_before_they_end(delay_ms: u64)
    ensures
        touch_sequence(true, true, delay_ms) == seq![
            TouchEvent { phase: TouchPhase::Began, delay_ms },
            TouchEvent { phase: TouchPhase::Ended, delay_ms: 0 },
        ],
        touch_sequence(true, false, delay_ms) == seq![
            TouchEvent { phase: TouchPhase::Began, delay_ms: 0 },
        ],
        touch_sequence(false, true, delay_ms) == seq![
            TouchEvent { phase: TouchPhase::Ended, delay_ms: 0 },
        ],
        touch_sequence(false, false, delay_ms) == Seq::<TouchEvent>::empty(),
{
    assert(touch_sequence(true, true, delay_ms) =~= seq![
        TouchEvent { phase: TouchPhase::Began, delay_ms },
        TouchEvent { phase: TouchPhase::Ended, delay_ms: 0 },
    ]);
    assert(touch_sequence(true, false, delay_ms) =~= seq![
        TouchEvent { phase: TouchPhase::Began, delay_ms: 0 },
    ]);
    assert(touch_sequence(false, true, delay_ms) =~= seq![
        TouchEvent { phase: TouchPhase::Ended, delay_ms: 0 },
    ]);
}

/// A tap is made by a service where there is one, and natively where there is none;
/// a point is tapped as such only where its coordinates are shares of the screen and
/// nothing is looked for or expected.
pub proof fn taps_go_through_their_service(
    service: bool,
    normalized: bool,
    target: TapView,
    expectation: SelectorView,
)
    ensures
        route_of_tap(service, normalized, target, expectation) is Native <==> !service,
        route_of_tap(service, normalized, target, expectation) is ServicePoint ==> target.point
            is Some && normalized && expectation.empty() && target.selector.id is None
            && target.selector.label is None && target.selector.value is None
            && target.selector.element_type is None,
        service && normalized && target.point is Some && target.selector.empty()
            && expectation.empty() ==> route_of_tap(service, normalized, target, expectation)
            is ServicePoint,
{
}

/// A description is asked of a service unless the device is to be asked directly, or
/// what is at a point is asked of an app; the simulator itself stands in for the
/// sources that it can read alone.
pub proof fn descriptions_come_from_their_source(
    direct: bool,
    has_point: bool,
    source: AccessibilitySource,
)
    ensures
        direct ==> !described_by_service(direct, has_point, source),
        !direct && !has_point ==> described_by_service(direct, has_point, source),
        !direct && has_point ==> (described_by_service(direct, has_point, source) <==> !(source
            is InApp)),
        read_natively(source) <==> source is Auto || source is NativeAX,
        !(read_natively(source) && source is InApp),
        !(read_natively(source) && source is AndroidUiautomator),
{
}

/// The query for the description of a screen names its source first, then a depth of
/// at most 80 where one is asked for, and then what is wanted of it; what is not
/// wanted is left out.
pub proof fn tree_queries_ask_for_what_is_wanted(
    source: Seq<char>,
    max_depth: Option<usize>,
    include_hidden: bool,
    interactive_only: bool,
)
    ensures
        ({
            let parts = tree_query(source, max_depth, include_hidden, interactive_only);
            &&& parts[0] == "source="@ + source
            &&& max_depth matches Some(depth) ==> parts[1] == "maxDepth="@ + decimal(
                if depth <= 80 {
                    depth as nat
                } else {
                    80
                },
            )
            &&& include_hidden ==> parts.contains("includeHidden=true"@)
            &&& interactive_only ==> parts.last() == "interactiveOnly=true"@
            &&& parts.len() == 1 + (if max_depth is Some {
                1int
            } else {
                0
            }) + (if include_hidden {
                1int
            } else {
                0
            }) + (if interactive_only {
                1int
            } else {
                0
            })
        }),
{
    let parts = tree_query(source, max_depth, include_hidden, interactive_only);
    if include_hidden {
        let at: int = if max_depth is Some {
            2
        } else {
            1
        };
        assert(parts[at] == "includeHidden=true"@);
    }
}

/// A path of a device stands below that of the simulators, with the device and then
/// the rest.
pub proof fn device_paths_name_their_device(device: Seq<char>, rest: Seq<char>)
    ensures
        path_of_device(device, rest).take(16) == "/api/simulators/"@,
        path_of_device(device, rest).subrange(16, 16 + device.len() as int) == device,
        path_of_device(device, rest).skip(17 + device.len() as int) == rest,
        path_of_device(device, rest)[16 + device.len() as int] == '/',
{
    reveal_strlit("/api/simulators/");
    reveal_strlit("/");
    let path = path_of_device(device, rest);
    assert(path.take(16) =~= "/api/simulators/"@);
    assert(path.subrange(16, 16 + device.len() as int) =~= device);
    assert(path.skip(17 + device.len() as int) =~= rest);
}

/// A source that only a service can read is named in the refusal.
pub proof fn refused_sources_are_named(source: Seq<char>)
    ensures
        contains_text(source_needs_service(source), "`"@ + source + "`"@),
{
    reveal_strlit("The `");
    reveal_strlit("The ");
    reveal_strlit("`");
    reveal_strlit(
        "` hierarchy source requires a running SimDeck service. Start it with `simdeck service start --port 4311`, or use --source native-ax.",
    );
    reveal_strlit(
        " hierarchy source requires a running SimDeck service. Start it with `simdeck service start --port 4311`, or use --source native-ax.",
    );
    let tail =
        " hierarchy source requires a running SimDeck service. Start it with `simdeck service start --port 4311`, or use --source native-ax."@;
    contained_texts_are_parts("The "@, "`"@ + source + "`"@, tail);
    assert(source_needs_service(source) =~= "The "@ + ("`"@ + source + "`"@) + tail);
}

/// The commands and the gestures are named by what they are.
pub proof fn commands_are_named_by_what_they_are(command: PointCommand, gesture: TwoFingerGesture)
    ensures
        command is Touch ==> command.name() == "touch"@,
        command is Swipe ==> command.name() == "swipe"@,
        gesture is Pinch ==> gesture.name() == "pinch"@,
        gesture is Rotate ==> gesture.name() == "rotate"@,
{
}

} // verus!
