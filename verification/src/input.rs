//! Input for a simulator: the keys of characters, the steps of gestures, and
//! where the text and the camera picture come from.
use vstd::prelude::*;

use crate::error::SimdeckError;
use crate::numbers::{decimal, decimal_text};
use crate::quoting::{debug_char, quoted_char};
use crate::text::{
    ascii_lower, blank, char_index, chars_of, index_where, lemma_index_where, option_view, owned,
    string_of, trim, trimmed,
};

verus! {

/// The key of a character on a keyboard, and whether shift is held with it.
pub open spec fn key_of(c: char) -> Option<(u16, u32)> {
    if 'a' <= c <= 'z' {
        Some(((c as int - 'a' as int + 4) as u16, 0))
    } else if 'A' <= c <= 'Z' {
        Some(((c as int - 'A' as int + 4) as u16, 1))
    } else if '1' <= c <= '9' {
        Some(((c as int - '1' as int + 30) as u16, 0))
    } else {
        match c {
            '!' => Some((30, 1)),
            '@' => Some((31, 1)),
            '#' => Some((32, 1)),
            '$' => Some((33, 1)),
            '%' => Some((34, 1)),
            '^' => Some((35, 1)),
            '&' => Some((36, 1)),
            '*' => Some((37, 1)),
            '(' => Some((38, 1)),
            '0' => Some((39, 0)),
            ')' => Some((39, 1)),
            '\n' => Some((40, 0)),
            '\r' => Some((40, 0)),
            '\t' => Some((43, 0)),
            ' ' => Some((44, 0)),
            '-' => Some((45, 0)),
            '_' => Some((45, 1)),
            '=' => Some((46, 0)),
            '+' => Some((46, 1)),
            '[' => Some((47, 0)),
            '{' => Some((47, 1)),
            ']' => Some((48, 0)),
            '}' => Some((48, 1)),
            '\\' => Some((49, 0)),
            '|' => Some((49, 1)),
            ';' => Some((51, 0)),
            ':' => Some((51, 1)),
            '\'' => Some((52, 0)),
            '"' => Some((52, 1)),
            '`' => Some((53, 0)),
            '~' => Some((53, 1)),
            ',' => Some((54, 0)),
            '<' => Some((54, 1)),
            '.' => Some((55, 0)),
            '>' => Some((55, 1)),
            '/' => Some((56, 0)),
            '?' => Some((56, 1)),
            _ => None,
        }
    }
}

pub fn hid_for_character(character: char) -> (key: Option<(u16, u32)>)
    ensures
        key == key_of(character),
{
    let c = character;
    let code: u32 = c as u32;
    if 'a' <= c && c <= 'z' {
        return Some(((code - 97 + 4) as u16, 0));
    }
    if 'A' <= c && c <= 'Z' {
        return Some(((code - 65 + 4) as u16, 1));
    }
    if '1' <= c && c <= '9' {
        return Some(((code - 49 + 30) as u16, 0));
    }
    match c {
        '!' => Some((30, 1)),
        '@' => Some((31, 1)),
        '#' => Some((32, 1)),
        '$' => Some((33, 1)),
        '%' => Some((34, 1)),
        '^' => Some((35, 1)),
        '&' => Some((36, 1)),
        '*' => Some((37, 1)),
        '(' => Some((38, 1)),
        '0' => Some((39, 0)),
        ')' => Some((39, 1)),
        '\n' => Some((40, 0)),
        '\r' => Some((40, 0)),
        '\t' => Some((43, 0)),
        ' ' => Some((44, 0)),
        '-' => Some((45, 0)),
        '_' => Some((45, 1)),
        '=' => Some((46, 0)),
        '+' => Some((46, 1)),
        '[' => Some((47, 0)),
        '{' => Some((47, 1)),
        ']' => Some((48, 0)),
        '}' => Some((48, 1)),
        '\\' => Some((49, 0)),
        '|' => Some((49, 1)),
        ';' => Some((51, 0)),
        ':' => Some((51, 1)),
        '\'' => Some((52, 0)),
        '"' => Some((52, 1)),
        '`' => Some((53, 0)),
        '~' => Some((53, 1)),
        ',' => Some((54, 0)),
        '<' => Some((54, 1)),
        '.' => Some((55, 0)),
        '>' => Some((55, 1)),
        '/' => Some((56, 0)),
        '?' => Some((56, 1)),
        _ => None,
    }
}

/// No two characters are typed with the same key and shift, but for the two
/// that end a line.
pub proof fn keys_tell_characters_apart(a: char, b: char)
    requires
        key_of(a) is Some,
        key_of(a) == key_of(b),
    ensures
        a == b || (key_of(a) == Some((40u16, 0u32)) && (a == '\n' || a == '\r') && (b == '\n' || b
            == '\r')),
{
}

/// Every printable character of ASCII can be typed.
pub proof fn printable_ascii_can_be_typed(c: char)
    requires
        ' ' <= c <= '~',
    ensures
        key_of(c) is Some,
{
}

/// The number of characters at the start of a text that can be typed.
pub open spec fn typeable(text: Seq<char>) -> nat
    decreases text.len(),
{
    if text.len() > 0 && key_of(text[0]) is Some {
        1 + typeable(text.drop_first())
    } else {
        0
    }
}

/// The keys of characters that can be typed.
pub open spec fn keys_of(text: Seq<char>) -> Seq<(u16, u32)> {
    text.map_values(|c: char| key_of(c)->Some_0)
}

proof fn lemma_typeable_at(text: Seq<char>, i: int)
    requires
        0 <= i <= text.len(),
        forall|j: int| 0 <= j < i ==> key_of(#[trigger] text[j]) is Some,
    ensures
        i < text.len() && key_of(text[i]) is None ==> typeable(text) == i,
        i == text.len() ==> typeable(text) == i,
    decreases i,
{
    if i > 0 {
        let rest = text.drop_first();
        assert forall|j: int| 0 <= j < i - 1 implies key_of(#[trigger] rest[j]) is Some by {
            assert(rest[j] == text[j + 1]);
        }
        lemma_typeable_at(rest, i - 1);
        assert(key_of(text[0]) is Some);
    }
}

/// The keys that type a text, up to the first character that cannot be typed,
/// and the complaint about that one.
pub fn type_text(text: &str) -> (plan: (Vec<(u16, u32)>, Option<SimdeckError>))
    ensures
        plan.0@ == keys_of(text@.take(typeable(text@) as int)),
        match plan.1 {
            Some(error) => typeable(text@) < text@.len() && error.text()
                == "Unsupported character for HID typing: "@ + debug_char(
                text@[typeable(text@) as int],
            ),
            None => typeable(text@) == text@.len(),
        },
{
    let chars = chars_of(text);
    let mut keys: Vec<(u16, u32)> = Vec::new();
    let mut i: usize = 0;
    while i < chars.len()
        invariant
            i <= chars@.len(),
            chars@ == text@,
            keys@ =~= keys_of(text@.take(i as int)),
            forall|j: int| 0 <= j < i ==> key_of(#[trigger] text@[j]) is Some,
        decreases chars@.len() - i,
    {
        match hid_for_character(chars[i]) {
            Some(key) => {
                keys.push(key);
                i += 1;
                assert(text@.take(i as int) =~= text@.take(i - 1).push(text@[i - 1]));
            },
            None => {
                proof {
                    lemma_typeable_at(text@, i as int);
                }
                let mut message = owned("Unsupported character for HID typing: ");
                message.append(quoted_char(chars[i]).as_str());
                return (keys, Some(SimdeckError::new(message)));
            },
        }
    }
    proof {
        lemma_typeable_at(text@, i as int);
    }
    (keys, None)
}

/// Where the text of a command comes from.
#[derive(Debug)]
pub enum TextSource {
    Text(String),
    Stdin,
    File(String),
}

/// The number of sources that are given.
pub open spec fn source_count(text: bool, stdin: bool, file: bool) -> int {
    (if text {
        1int
    } else {
        0
    }) + (if stdin {
        1int
    } else {
        0
    }) + (if file {
        1int
    } else {
        0
    })
}

/// Chooses where the text of a command comes from: exactly one source is given.
pub fn read_text_input(text: Option<String>, stdin: bool, file: Option<String>) -> (result: Result<
    TextSource,
    SimdeckError,
>)
    ensures
        match result {
            Ok(TextSource::Text(chosen)) => source_count(
                text is Some,
                stdin,
                file is Some,
            ) == 1 && option_view(text) == Some(chosen@),
            Ok(TextSource::Stdin) => source_count(text is Some, stdin, file is Some) == 1 && stdin,
            Ok(TextSource::File(chosen)) => source_count(
                text is Some,
                stdin,
                file is Some,
            ) == 1 && option_view(file) == Some(chosen@),
            Err(error) => source_count(text is Some, stdin, file is Some) != 1 && error.text()
                == "Specify exactly one input source: text argument, --stdin, or --file."@,
        },
{
    match (text, stdin, file) {
        (Some(chosen), false, None) => Ok(TextSource::Text(chosen)),
        (None, true, None) => Ok(TextSource::Stdin),
        (None, false, Some(chosen)) => Ok(TextSource::File(chosen)),
        _ => Err(
            SimdeckError::from_text(
                "Specify exactly one input source: text argument, --stdin, or --file.",
            ),
        ),
    }
}

/// Where the picture of a simulator's camera comes from.
#[derive(Debug)]
pub enum CameraSource {
    Placeholder,
    File(String),
    Webcam(Option<String>),
}

/// A camera's source as the contracts speak of it.
pub enum CameraSourceView {
    Placeholder,
    File(Seq<char>),
    Webcam(Option<Seq<char>>),
}

impl View for CameraSource {
    type V = CameraSourceView;

    open spec fn view(&self) -> CameraSourceView {
        match self {
            CameraSource::Placeholder => CameraSourceView::Placeholder,
            CameraSource::File(path) => CameraSourceView::File(path@),
            CameraSource::Webcam(name) => CameraSourceView::Webcam(option_view(*name)),
        }
    }
}

/// The source that flags choose, where they choose at most one.
pub open spec fn camera_source(
    file: Option<Seq<char>>,
    webcam: Option<Option<Seq<char>>>,
) -> CameraSourceView {
    match file {
        Some(path) => CameraSourceView::File(trimmed(path)),
        None => match webcam {
            Some(Some(name)) => CameraSourceView::Webcam(
                if blank(name) {
                    None
                } else {
                    Some(trimmed(name))
                },
            ),
            Some(None) => CameraSourceView::Webcam(None),
            None => CameraSourceView::Placeholder,
        },
    }
}

/// A webcam flag, which may name the webcam.
pub open spec fn webcam_view(webcam: Option<Option<String>>) -> Option<Option<Seq<char>>> {
    match webcam {
        Some(name) => Some(option_view(name)),
        None => None,
    }
}

pub fn camera_source_from_args(
    file: Option<String>,
    webcam: Option<Option<String>>,
    placeholder: bool,
) -> (result: Result<CameraSource, SimdeckError>)
    ensures
        match result {
            Ok(source) => source_count(file is Some, placeholder, webcam is Some) <= 1 && source@
                == camera_source(option_view(file), webcam_view(webcam)),
            Err(error) => source_count(file is Some, placeholder, webcam is Some) > 1
                && error.text()
                == "Choose only one camera source: --file, --webcam, or --placeholder."@,
        },
{
    let two = (file.is_some() && webcam.is_some()) || (file.is_some() && placeholder) || (
    webcam.is_some() && placeholder);
    if two {
        return Err(
            SimdeckError::from_text(
                "Choose only one camera source: --file, --webcam, or --placeholder.",
            ),
        );
    }
    if let Some(path) = file {
        return Ok(CameraSource::File(trim(path.as_str())));
    }
    match webcam {
        Some(Some(name)) => {
            let kept = trim(name.as_str());
            if kept.as_str().is_empty() {
                Ok(CameraSource::Webcam(None))
            } else {
                Ok(CameraSource::Webcam(Some(kept)))
            }
        },
        Some(None) => Ok(CameraSource::Webcam(None)),
        None => Ok(CameraSource::Placeholder),
    }
}

/// The file of a screenshot that is not told another.
pub fn default_screenshot_path(udid: &str, timestamp: u64) -> (path: String)
    ensures
        path@ == "Simulator Screenshot - "@ + udid@ + " - "@ + decimal(timestamp as nat) + ".png"@,
{
    let mut path = owned("Simulator Screenshot - ");
    path.append(udid);
    path.append(" - ");
    path.append(decimal_text(timestamp).as_str());
    path.append(".png");
    path
}

/// The file of a recording that is not told another.
pub fn default_recording_path(udid: &str, timestamp: u64) -> (path: String)
    ensures
        path@ == "Simulator Recording - "@ + udid@ + " - "@ + decimal(timestamp as nat) + ".mp4"@,
{
    let mut path = owned("Simulator Recording - ");
    path.append(udid);
    path.append(" - ");
    path.append(decimal_text(timestamp).as_str());
    path.append(".mp4");
    path
}

/// The phase of a touch.
#[derive(Clone, Copy, Debug, PartialEq, Eq, Structural)]
pub enum TouchPhase {
    Began,
    Moved,
    Ended,
}

/// A step of a gesture: after a wait, a frame is sent in a phase.
#[derive(Clone, Copy, Debug, PartialEq, Eq, Structural)]
pub struct FrameStep {
    pub delay_ms: u64,
    pub frame: usize,
    pub phase: TouchPhase,
}

/// The wait between the frames of a gesture.
pub open spec fn frame_delay(count: nat, duration_ms: u64) -> u64 {
    if count > 1 {
        (duration_ms as int / (count - 1)) as u64
    } else {
        duration_ms
    }
}

/// The steps of a gesture: the first frame begins it, the last one ends it, and
/// those between move it.
pub open spec fn frame_steps(count: nat, duration_ms: u64) -> Seq<FrameStep> {
    let delay_ms = frame_delay(count, duration_ms);
    seq![FrameStep { delay_ms: 0, frame: 0, phase: TouchPhase::Began }] + middle_steps(
        if count > 2 {
            (count - 2) as nat
        } else {
            0
        },
        delay_ms,
    ) + seq![
        FrameStep { delay_ms, frame: (count - 1) as usize, phase: TouchPhase::Ended },
    ]
}

/// The steps of a gesture between its first and its last.
pub open spec fn middle_steps(count: nat, delay_ms: u64) -> Seq<FrameStep> {
    Seq::new(
        count,
        |i: int| FrameStep { delay_ms, frame: (i + 1) as usize, phase: TouchPhase::Moved },
    )
}

/// The steps of a gesture with two fingers.
pub fn run_multitouch_frames(count: usize, duration_ms: u64) -> (result: Result<
    Vec<FrameStep>,
    SimdeckError,
>)
    ensures
        match result {
            Ok(steps) => count > 0 && steps@ == frame_steps(count as nat, duration_ms),
            Err(error) => count == 0 && error.text()
                == "Multi-touch gesture requires at least one frame."@,
        },
{
    if count == 0 {
        return Err(SimdeckError::from_text("Multi-touch gesture requires at least one frame."));
    }
    let delay_ms: u64 = if count > 1 {
        duration_ms / (count as u64 - 1)
    } else {
        duration_ms
    };
    proof {
        if count > 1 {
            let parts = count - 1;
            assert(0 <= duration_ms as int / parts <= duration_ms) by (nonlinear_arith)
                requires
                    parts >= 1,
                    duration_ms >= 0,
            ;
        }
    }
    let mut steps: Vec<FrameStep> = Vec::new();
    steps.push(FrameStep { delay_ms: 0, frame: 0, phase: TouchPhase::Began });
    let first = FrameStep { delay_ms: 0, frame: 0, phase: TouchPhase::Began };
    let mut i: usize = 1;
    while i < count - 1
        invariant
            1 <= i,
            i <= count,
            count > 2 ==> i <= count - 1,
            count <= 2 ==> i == 1,
            count > 0,
            steps@ =~= seq![first] + middle_steps((i - 1) as nat, delay_ms),
        decreases count - i,
    {
        steps.push(FrameStep { delay_ms, frame: i, phase: TouchPhase::Moved });
        i += 1;
    }
    steps.push(FrameStep { delay_ms, frame: count - 1, phase: TouchPhase::Ended });
    assert(steps@ =~= frame_steps(count as nat, duration_ms));
    Ok(steps)
}

/// The time that the steps of a gesture wait in all.
pub open spec fn total_delay(steps: Seq<FrameStep>) -> int
    decreases steps.len(),
{
    if steps.len() == 0 {
        0
    } else {
        total_delay(steps.drop_last()) + steps.last().delay_ms
    }
}

proof fn lemma_middle_delay(count: nat, delay_ms: u64)
    ensures
        total_delay(
            seq![FrameStep { delay_ms: 0, frame: 0, phase: TouchPhase::Began }] + middle_steps(
                count,
                delay_ms,
            ),
        ) == count * delay_ms,
    decreases count,
{
    let first = seq![FrameStep { delay_ms: 0, frame: 0, phase: TouchPhase::Began }];
    let steps = first + middle_steps(count, delay_ms);
    if count == 0 {
        assert(steps =~= first);
        assert(steps.drop_last() =~= Seq::empty());
        reveal_with_fuel(total_delay, 2);
    } else {
        lemma_middle_delay((count - 1) as nat, delay_ms);
        assert(steps.drop_last() =~= first + middle_steps((count - 1) as nat, delay_ms));
        assert(count * delay_ms == (count - 1) * delay_ms + delay_ms) by (nonlinear_arith);
    }
}

/// A gesture never takes longer than it is asked to.
pub proof fn gesture_keeps_its_duration(count: nat, duration_ms: u64)
    requires
        count > 0,
    ensures
        total_delay(frame_steps(count, duration_ms)) <= duration_ms,
{
    let delay_ms = frame_delay(count, duration_ms);
    let middle = if count > 2 {
        (count - 2) as nat
    } else {
        0
    };
    let front = seq![FrameStep { delay_ms: 0, frame: 0, phase: TouchPhase::Began }]
        + middle_steps(middle, delay_ms);
    lemma_middle_delay(middle, delay_ms);
    assert(frame_steps(count, duration_ms).drop_last() =~= front);
    if count > 1 {
        let parts = count - 1;
        assert(0 <= duration_ms as int / parts <= duration_ms) by (nonlinear_arith)
            requires
                parts >= 1,
                duration_ms >= 0,
        ;
        assert(parts * (duration_ms as int / parts) <= duration_ms) by (nonlinear_arith)
            requires
                parts >= 1,
                duration_ms >= 0,
        ;
        assert(middle * delay_ms + delay_ms == (middle + 1) * delay_ms) by (nonlinear_arith);
    }
}

/// The number of steps of a swipe and the wait after each.
pub fn swipe_steps(steps: u32, duration_ms: u64) -> (plan: (u32, u64))
    ensures
        plan.0 == if steps == 0 {
            1u32
        } else {
            steps
        },
        plan.1 == duration_ms / plan.0 as u64,
{
    let count: u32 = if steps == 0 {
        1
    } else {
        steps
    };
    (count, duration_ms / (count as u64))
}

/// What a text is as a number.
#[derive(Clone, Copy, Debug, PartialEq, Eq, Structural)]
pub enum NumberReading {
    /// It is not a number.
    NotANumber,
    /// It is a number that does not serve.
    OutOfRange,
    /// It is a number that serves.
    Usable,
}

/// The two texts of a point, around its first comma.
pub open spec fn point_texts(value: Seq<char>) -> Option<(Seq<char>, Seq<char>)> {
    let comma = index_where(value, 0, |c: char| c == ',');
    if 0 <= comma < value.len() {
        Some((trimmed(value.subrange(0, comma)), trimmed(value.skip(comma + 1))))
    } else {
        None
    }
}

/// Takes a point apart: the texts of its two coordinates.
pub fn parse_point(value: &str) -> (result: Result<(String, String), SimdeckError>)
    ensures
        match result {
            Ok((x, y)) => point_texts(value@) == Some((x@, y@)),
            Err(error) => point_texts(value@) is None && error.text()
                == "point must be in the form x,y"@,
        },
{
    let chars = chars_of(value);
    let comma = char_index(&chars, 0, ',');
    if comma >= chars.len() {
        return Err(SimdeckError::from_text("point must be in the form x,y"));
    }
    let x = string_of(&chars, 0, comma);
    let y = string_of(&chars, comma + 1, chars.len());
    assert(y@ =~= value@.skip(comma + 1));
    Ok((trim(x.as_str()), trim(y.as_str())))
}

/// What is wrong with a point, by what its coordinates are as numbers: those
/// serve that are finite and not negative.
pub open spec fn point_fault(x: NumberReading, y: NumberReading) -> Option<Seq<char>> {
    if x is NotANumber {
        Some("point x must be a number"@)
    } else if y is NotANumber {
        Some("point y must be a number"@)
    } else if x is OutOfRange || y is OutOfRange {
        Some("point coordinates must be finite non-negative numbers"@)
    } else {
        None
    }
}

/// Makes sure that the coordinates of a point serve.
pub fn check_point(x: NumberReading, y: NumberReading) -> (result: Result<(), SimdeckError>)
    ensures
        match result {
            Ok(_) => point_fault(x, y) is None,
            Err(error) => point_fault(x, y) == Some(error.text()),
        },
{
    if x == NumberReading::NotANumber {
        return Err(SimdeckError::from_text("point x must be a number"));
    }
    if y == NumberReading::NotANumber {
        return Err(SimdeckError::from_text("point y must be a number"));
    }
    if x == NumberReading::OutOfRange || y == NumberReading::OutOfRange {
        return Err(
            SimdeckError::from_text("point coordinates must be finite non-negative numbers"),
        );
    }
    Ok(())
}

/// Makes sure that a number of seconds serves: it is finite and positive.
pub fn parse_positive_seconds_arg(seconds: NumberReading) -> (result: Result<(), SimdeckError>)
    ensures
        match result {
            Ok(_) => seconds is Usable,
            Err(error) => !(seconds is Usable) && error.text() == if seconds is NotANumber {
                "seconds must be a number"@
            } else {
                "seconds must be finite and greater than zero"@
            },
        },
{
    match seconds {
        NumberReading::NotANumber => Err(SimdeckError::from_text("seconds must be a number")),
        NumberReading::OutOfRange => Err(
            SimdeckError::from_text("seconds must be finite and greater than zero"),
        ),
        NumberReading::Usable => Ok(()),
    }
}

/// The characters of the keys of a keyboard without shift, from the key of the
/// letter a on in the order in which the keys are numbered, up to that of the digit 0.
pub open spec fn letter_keys() -> Seq<char> {
    "abcdefghijklmnopqrstuvwxyz1234567890"@
}

/// The characters of the same keys with shift.
pub open spec fn shifted_letter_keys() -> Seq<char> {
    "ABCDEFGHIJKLMNOPQRSTUVWXYZ!@#$%^&*()"@
}

/// The characters of the keys from the dash to the backslash, in their order.
pub open spec fn dash_keys() -> Seq<char> {
    "-=[]\\"@
}

/// The characters of the same keys with shift.
pub open spec fn shifted_dash_keys() -> Seq<char> {
    "_+{}|"@
}

/// The characters of the keys from the semicolon to the slash, in their order.
pub open spec fn semicolon_keys() -> Seq<char> {
    ";'`,./"@
}

/// The characters of the same keys with shift.
pub open spec fn shifted_semicolon_keys() -> Seq<char> {
    ":\"~<>?"@
}

/// The keys are numbered as the keyboards of USB number them: the letters follow the
/// alphabet from 4 on, the digits from 1 to 9 and then 0 from 30 on, and the signs
/// the order of the keyboard from 45 and from 51 on. Shift is held for the second
/// character of a key, and for no other.
pub proof fn keys_follow_the_keyboard(i: int)
    ensures
        0 <= i < letter_keys().len() ==> key_of(letter_keys()[i]) == Some(((4 + i) as u16, 0u32))
            && key_of(shifted_letter_keys()[i]) == Some(((4 + i) as u16, 1u32)),
        0 <= i < dash_keys().len() ==> key_of(dash_keys()[i]) == Some(((45 + i) as u16, 0u32))
            && key_of(shifted_dash_keys()[i]) == Some(((45 + i) as u16, 1u32)),
        0 <= i < semicolon_keys().len() ==> key_of(semicolon_keys()[i]) == Some(
            ((51 + i) as u16, 0u32),
        ) && key_of(shifted_semicolon_keys()[i]) == Some(((51 + i) as u16, 1u32)),
        letter_keys().len() == shifted_letter_keys().len() == 36,
        dash_keys().len() == shifted_dash_keys().len() == 5,
        semicolon_keys().len() == shifted_semicolon_keys().len() == 6,
{
    reveal_strlit("abcdefghijklmnopqrstuvwxyz1234567890");
    reveal_strlit("ABCDEFGHIJKLMNOPQRSTUVWXYZ!@#$%^&*()");
    reveal_strlit("-=[]\\");
    reveal_strlit("_+{}|");
    reveal_strlit(";'`,./");
    reveal_strlit(":\"~<>?");
}

/// The letters follow the alphabet: the key of the next letter is the next key, from
/// key 4 on, and an upper-case letter has the key of its lower-case form, with
/// shift. So do the digits from 1 to 9, from key 30 on.
pub proof fn letters_follow_the_alphabet(c: char, next: char)
    requires
        next as int == c as int + 1,
    ensures
        key_of('a') == Some((4u16, 0u32)),
        'a' <= c && next <= 'z' ==> key_of(c) is Some && key_of(next) == Some(
            ((key_of(c)->Some_0.0 + 1) as u16, key_of(c)->Some_0.1),
        ),
        'A' <= c <= 'Z' ==> key_of(c) is Some && key_of(c)->Some_0.1 == 1 && key_of(
            ascii_lower(c),
        ) == Some((key_of(c)->Some_0.0, 0u32)),
        key_of('1') == Some((30u16, 0u32)),
        '1' <= c && next <= '9' ==> key_of(c) is Some && key_of(next) == Some(
            ((key_of(c)->Some_0.0 + 1) as u16, key_of(c)->Some_0.1),
        ),
{
}

/// White space is typed with its own keys; what is neither white space nor printed
/// in ASCII cannot be typed.
pub proof fn white_space_has_its_keys(c: char)
    ensures
        key_of('\n') == Some((40u16, 0u32)),
        key_of('\r') == key_of('\n'),
        key_of('\t') == Some((43u16, 0u32)),
        key_of(' ') == Some((44u16, 0u32)),
        key_of(c) is Some ==> ' ' <= c <= '~' || c == '\n' || c == '\r' || c == '\t',
{
}

/// A text is typed from its first character on, one key for each, in order, up to
/// the first one that cannot be typed; none before it is left out.
pub proof fn texts_are_typed_in_order(text: Seq<char>)
    ensures
        ({
            let count = typeable(text);
            let keys = keys_of(text.take(count as int));
            &&& count <= text.len()
            &&& keys.len() == count
            &&& forall|i: int|
                0 <= i < count ==> key_of(#[trigger] text[i]) == Some(keys[i])
            &&& count < text.len() ==> key_of(text[count as int]) is None
        }),
    decreases text.len(),
{
    lemma_typeable_bound(text);
    let count = typeable(text);
    let keys = keys_of(text.take(count as int));
    assert forall|i: int| 0 <= i < count implies key_of(#[trigger] text[i]) == Some(keys[i]) by {
        assert(text.take(count as int)[i] == text[i]);
    }
}

proof fn lemma_typeable_bound(text: Seq<char>)
    ensures
        typeable(text) <= text.len(),
        forall|i: int| 0 <= i < typeable(text) ==> key_of(#[trigger] text[i]) is Some,
        typeable(text) < text.len() ==> key_of(text[typeable(text) as int]) is None,
    decreases text.len(),
{
    if text.len() > 0 && key_of(text[0]) is Some {
        let rest = text.drop_first();
        lemma_typeable_bound(rest);
        assert forall|i: int| 0 <= i < typeable(text) implies key_of(#[trigger] text[i]) is Some by {
            if i > 0 {
                assert(rest[i - 1] == text[i]);
            }
        }
        if typeable(text) < text.len() {
            assert(rest[typeable(rest) as int] == text[typeable(text) as int]);
        }
    }
}

/// A gesture sends each of its frames in order, begins with the first and without a
/// pause, ends once with the last, and pauses the same before every other one.
pub proof fn gestures_send_every_frame(count: nat, duration_ms: u64, i: int)
    requires
        0 < count <= usize::MAX,
        0 <= i < frame_steps(count, duration_ms).len(),
    ensures
        ({
            let steps = frame_steps(count, duration_ms);
            &&& steps.len() == if count == 1 {
                2
            } else {
                count
            }
            &&& steps[i].frame == if i < count {
                i
            } else {
                count - 1
            }
            &&& steps[i].phase is Began <==> i == 0
            &&& steps[i].phase is Ended <==> i == steps.len() - 1
            &&& i == 0 ==> steps[i].delay_ms == 0
            &&& i > 0 ==> steps[i].delay_ms == steps[1].delay_ms
            &&& (steps.len() - 1) * steps[1].delay_ms <= duration_ms
            &&& (steps.len() - 1) * (steps[1].delay_ms + 1) > duration_ms
        }),
{
    let steps = frame_steps(count, duration_ms);
    let delay: int = frame_delay(count, duration_ms) as int;
    let total: int = duration_ms as int;
    let pauses: int = steps.len() - 1;
    assert(steps[1].delay_ms == delay);
    if count > 1 {
        assert(pauses == count - 1);
        assert(0 <= total / pauses <= total) by (nonlinear_arith)
            requires
                pauses > 0,
                total >= 0,
        ;
        assert(pauses * (total / pauses) <= total) by (nonlinear_arith)
            requires
                pauses > 0,
        ;
        assert(pauses * (total / pauses + 1) > total) by (nonlinear_arith)
            requires
                pauses > 0,
        ;
    }
}

/// A camera shows the file or the webcam that is chosen, and a placeholder where
/// nothing is; the names are taken without white space around them.
pub proof fn cameras_show_what_is_chosen(path: Seq<char>, name: Seq<char>)
    ensures
        camera_source(Some(path), None) == CameraSourceView::File(trimmed(path)),
        !blank(name) ==> camera_source(None, Some(Some(name))) == CameraSourceView::Webcam(
            Some(trimmed(name)),
        ),
        blank(name) ==> camera_source(None, Some(Some(name))) == CameraSourceView::Webcam(None),
        camera_source(None, Some(None)) == CameraSourceView::Webcam(None),
        camera_source(None, None) == CameraSourceView::Placeholder,
{
}

/// A point that was written with a comma between its coordinates is read back, also
/// with white space around them; without a comma there is no point.
pub proof fn points_are_read_back(x: Seq<char>, y: Seq<char>)
    requires
        !x.contains(','),
    ensures
        point_texts(x + ","@ + y) == Some((trimmed(x), trimmed(y))),
        point_texts(x) is None,
{
    reveal_strlit(",");
    let comma = |c: char| c == ',';
    let value = x + ","@ + y;
    let at: int = x.len() as int;
    lemma_index_where(value, 0, comma);
    let found = index_where(value, 0, comma);
    assert(value[at] == ',');
    if found < at {
        assert(value[found] == x[found]);
        assert(x.contains(','));
    }
    if found > at {
        assert(!comma(value[at]));
    }
    assert(value.subrange(0, at) =~= x);
    assert(value.skip(at + 1) =~= y);
    lemma_index_where(x, 0, comma);
    if index_where(x, 0, comma) < x.len() {
        assert(x[index_where(x, 0, comma)] == ',');
    }
}

/// A point is refused for the first coordinate that is no number, else for one that
/// does not serve; it serves where both do.
pub proof fn points_are_refused_for_their_fault(x: NumberReading, y: NumberReading)
    ensures
        point_fault(x, y) is None <==> x is Usable && y is Usable,
        x is NotANumber ==> point_fault(x, y) == Some("point x must be a number"@),
        !(x is NotANumber) && y is NotANumber ==> point_fault(x, y) == Some(
            "point y must be a number"@,
        ),
{
}

/// Exactly one source is given where one is and the two others are not.
pub proof fn sources_are_counted(text: bool, stdin: bool, file: bool)
    ensures
        source_count(text, stdin, file) == 1 <==> (text && !stdin && !file) || (!text && stdin
            && !file) || (!text && !stdin && file),
        source_count(text, stdin, file) == 0 <==> !text && !stdin && !file,
        source_count(text, stdin, file) <= 1 <==> !(text && stdin) && !(text && file) && !(stdin
            && file),
{
}

} // verus!
