//! The arguments of commands that take a device and something else.
use vstd::prelude::*;

use crate::error::SimdeckError;
use crate::numbers::{
    decimal, decimal_reads_back, decimal_text, is_digit, lemma_decimal_digits, parse_usize,
    unsigned_value,
};
use crate::quoting::{debug_text, quoted_text};
use crate::text::{
    blank, chars_of, contained_texts_are_parts, contains_text, has_prefix, join, joined,
    lemma_already_trimmed, option_view, owned, prefixes_are_taken_off, starts_with, strip_prefix,
    trim, trimmed, trimming_is_idempotent, views, without_prefix,
};

verus! {

/// An argument of a command. `finite` tells whether the argument, without the
/// white space around it, is a finite number.
#[derive(Debug)]
pub struct Argument {
    pub text: String,
    pub finite: bool,
}

/// An argument as the contracts speak of it.
pub struct ArgumentView {
    pub text: Seq<char>,
    pub finite: bool,
}

impl View for Argument {
    type V = ArgumentView;

    open spec fn view(&self) -> ArgumentView {
        ArgumentView { text: self.text@, finite: self.finite }
    }
}

/// What each argument of a list is.
pub open spec fn argument_views(list: Seq<Argument>) -> Seq<ArgumentView> {
    list.map_values(|argument: Argument| argument@)
}

/// The arguments without white space around them, and without blank ones.
pub open spec fn cleaned(list: Seq<ArgumentView>) -> Seq<ArgumentView>
    decreases list.len(),
{
    if list.len() == 0 {
        Seq::empty()
    } else {
        let before = cleaned(list.drop_last());
        let last = list.last();
        if blank(last.text) {
            before
        } else {
            before.push(ArgumentView { text: trimmed(last.text), finite: last.finite })
        }
    }
}

pub fn clean_cli_args(args: &Vec<Argument>) -> (clean: Vec<Argument>)
    ensures
        argument_views(clean@) == cleaned(argument_views(args@)),
{
    let ghost all = argument_views(args@);
    let mut clean: Vec<Argument> = Vec::new();
    let mut i: usize = 0;
    assert(all.take(0) =~= Seq::empty());
    assert(argument_views(clean@) =~= Seq::empty());
    while i < args.len()
        invariant
            i <= args@.len(),
            all == argument_views(args@),
            argument_views(clean@) == cleaned(all.take(i as int)),
        decreases args@.len() - i,
    {
        let ghost before = argument_views(clean@);
        let argument = &args[i];
        let text = trim(argument.text.as_str());
        i += 1;
        assert(all.take(i as int).drop_last() =~= all.take(i - 1));
        assert(all.take(i as int).last() == argument@);
        if !text.as_str().is_empty() {
            let ghost kept = ArgumentView { text: text@, finite: argument.finite };
            clean.push(Argument { text, finite: argument.finite });
            assert(argument_views(clean@) =~= before.push(kept));
        }
    }
    assert(all.take(i as int) =~= all);
    clean
}

/// Cleaned arguments are not blank and have no white space around them, and
/// cleaning them again changes nothing.
pub proof fn cleaning_is_idempotent(list: Seq<ArgumentView>)
    ensures
        forall|i: int|
            0 <= i < cleaned(list).len() ==> {
                let argument = #[trigger] cleaned(list)[i];
                !blank(argument.text) && trimmed(argument.text) == argument.text
            },
        cleaned(cleaned(list)) == cleaned(list),
    decreases list.len(),
{
    if list.len() > 0 {
        let before = cleaned(list.drop_last());
        cleaning_is_idempotent(list.drop_last());
        trimming_is_idempotent(list.last().text);
        if !blank(list.last().text) {
            assert(cleaned(list).drop_last() =~= before);
            assert(cleaned(cleaned(list)) =~= cleaned(list));
        }
    }
}

/// An identifier of an Android device or emulator.
pub open spec fn android_id(text: Seq<char>) -> bool {
    has_prefix(text, "android:"@)
}

pub fn is_android_id(text: &str) -> (result: bool)
    ensures
        result == android_id(text@),
{
    starts_with(text, "android:")
}

/// A character of an identifier of a simulator.
pub open spec fn identifier_char(c: char) -> bool {
    '0' <= c <= '9' || 'a' <= c <= 'f' || 'A' <= c <= 'F' || c == '-'
}

/// A text that identifies a device: an Android one, or a simulator by 36
/// hexadecimal digits and dashes.
pub open spec fn device_selector(text: Seq<char>) -> bool {
    android_id(text) || (text.len() == 36 && forall|i: int|
        0 <= i < text.len() ==> identifier_char(#[trigger] text[i]))
}

pub fn looks_like_device_selector(value: &str) -> (result: bool)
    ensures
        result == device_selector(value@),
{
    if is_android_id(value) {
        return true;
    }
    let chars = chars_of(value);
    if chars.len() != 36 {
        return false;
    }
    let mut i: usize = 0;
    while i < chars.len()
        invariant
            i <= chars@.len(),
            chars@ == value@,
            forall|j: int| 0 <= j < i ==> identifier_char(#[trigger] value@[j]),
            !android_id(value@),
        decreases chars@.len() - i,
    {
        let c = chars[i];
        if !(('0' <= c && c <= '9') || ('a' <= c && c <= 'f') || ('A' <= c && c <= 'F') || c
            == '-') {
            assert(!identifier_char(value@[i as int]));
            return false;
        }
        i += 1;
    }
    true
}

/// What an element of a screen is found by.
#[derive(Debug)]
pub struct ElementSelector {
    pub id: Option<String>,
    pub label: Option<String>,
    pub value: Option<String>,
    pub element_type: Option<String>,
    pub index: Option<usize>,
}

/// A selector as the contracts speak of it.
pub struct SelectorView {
    pub id: Option<Seq<char>>,
    pub label: Option<Seq<char>>,
    pub value: Option<Seq<char>>,
    pub element_type: Option<Seq<char>>,
    pub index: Option<usize>,
}

impl View for ElementSelector {
    type V = SelectorView;

    open spec fn view(&self) -> SelectorView {
        SelectorView {
            id: option_view(self.id),
            label: option_view(self.label),
            value: option_view(self.value),
            element_type: option_view(self.element_type),
            index: self.index,
        }
    }
}

impl SelectorView {
    /// Nothing is selected.
    pub open spec fn empty(self) -> bool {
        self.id is None && self.label is None && self.value is None && self.element_type is None
            && self.index is None
    }
}

impl ElementSelector {
    pub fn is_empty(&self) -> (result: bool)
        ensures
            result == self@.empty(),
    {
        self.id.is_none() && self.label.is_none() && self.value.is_none()
            && self.element_type.is_none() && self.index.is_none()
    }
}

/// What a tap aims at: an element, or a point whose coordinates are the given
/// numbers.
#[derive(Debug)]
pub struct TapCommandTarget {
    pub udid: Option<String>,
    pub point: Option<(String, String)>,
    pub selector: ElementSelector,
}

/// A tap's aim as the contracts speak of it.
pub struct TapView {
    pub udid: Option<Seq<char>>,
    pub point: Option<(Seq<char>, Seq<char>)>,
    pub selector: SelectorView,
}

/// The coordinates of a point, as an optional value.
pub open spec fn point_view(point: Option<(String, String)>) -> Option<(Seq<char>, Seq<char>)> {
    match point {
        Some((x, y)) => Some((x@, y@)),
        None => None,
    }
}

impl View for TapCommandTarget {
    type V = TapView;

    open spec fn view(&self) -> TapView {
        TapView {
            udid: option_view(self.udid),
            point: point_view(self.point),
            selector: self.selector@,
        }
    }
}

/// The element that a reference such as `@e3` names: they are counted from one.
pub open spec fn agent_ref(text: Seq<char>) -> Option<usize> {
    match without_prefix(trimmed(text), "@e"@) {
        Some(digits) => match unsigned_value(digits, usize::MAX as nat) {
            Some(number) => if number > 0 {
                Some((number - 1) as usize)
            } else {
                None
            },
            None => None,
        },
        None => None,
    }
}

pub fn parse_agent_ref(value: &str) -> (index: Option<usize>)
    ensures
        index == agent_ref(value@),
{
    let text = trim(value);
    match strip_prefix(text.as_str(), "@e") {
        Some(digits) => match parse_usize(digits.as_str()) {
            Some(number) => if number > 0 {
                Some(number - 1)
            } else {
                None
            },
            None => None,
        },
        None => None,
    }
}

/// The texts of arguments.
pub open spec fn argument_texts(list: Seq<ArgumentView>) -> Seq<Seq<char>> {
    list.map_values(|argument: ArgumentView| argument.text)
}

/// One of the arguments is a finite number.
pub open spec fn any_finite(list: Seq<ArgumentView>) -> bool {
    exists|i: int| 0 <= i < list.len() && (#[trigger] list[i]).finite
}

/// What a tap with the given words behind the device aims at.
pub open spec fn tap_words(
    udid: Option<Seq<char>>,
    words: Seq<ArgumentView>,
    selector: SelectorView,
) -> Result<TapView, Seq<char>> {
    if words.len() == 2 && words[0].finite && words[1].finite {
        Ok(TapView { udid, point: Some((words[0].text, words[1].text)), selector })
    } else if words.len() == 1 && words[0].finite {
        Err("tap requires both x and y coordinates."@)
    } else if any_finite(words) {
        Err("tap coordinates must be provided as exactly two numeric values."@)
    } else if words.len() == 1 && agent_ref(words[0].text) is Some {
        Ok(
            TapView {
                udid,
                point: None,
                selector: SelectorView { index: agent_ref(words[0].text), ..selector },
            },
        )
    } else {
        Ok(
            TapView {
                udid,
                point: None,
                selector: SelectorView {
                    label: Some(joined(argument_texts(words), " "@)),
                    ..selector
                },
            },
        )
    }
}

/// What a tap with the given arguments and selector aims at.
pub open spec fn tap_target(args: Seq<ArgumentView>, selector: SelectorView) -> Result<
    TapView,
    Seq<char>,
> {
    let words = cleaned(args);
    if !selector.empty() {
        if words.len() == 0 {
            Ok(TapView { udid: None, point: None, selector })
        } else if words.len() == 1 {
            Ok(TapView { udid: Some(words[0].text), point: None, selector })
        } else {
            Err("tap accepts at most one positional UDID when selector flags are used."@)
        }
    } else if words.len() == 0 {
        Ok(TapView { udid: None, point: None, selector })
    } else if words.len() >= 2 && device_selector(words[0].text) {
        tap_words(Some(words[0].text), words.skip(1), selector)
    } else {
        tap_words(None, words, selector)
    }
}

fn some_finite(words: &Vec<Argument>, from: usize) -> (result: bool)
    requires
        from <= words@.len(),
    ensures
        result == any_finite(argument_views(words@).skip(from as int)),
{
    let ghost rest = argument_views(words@).skip(from as int);
    let mut i: usize = from;
    while i < words.len()
        invariant
            from <= i <= words@.len(),
            rest == argument_views(words@).skip(from as int),
            forall|j: int| 0 <= j < i - from ==> !(#[trigger] rest[j]).finite,
        decreases words@.len() - i,
    {
        assert(rest[i - from] == words@[i as int]@);
        if words[i].finite {
            assert(rest[i - from].finite);
            return true;
        }
        i += 1;
    }
    false
}

fn texts_from(words: &Vec<Argument>, from: usize) -> (texts: Vec<String>)
    requires
        from <= words@.len(),
    ensures
        views(texts@) == argument_texts(argument_views(words@).skip(from as int)),
{
    let ghost all = argument_texts(argument_views(words@).skip(from as int));
    let mut texts: Vec<String> = Vec::new();
    let mut i: usize = from;
    while i < words.len()
        invariant
            from <= i <= words@.len(),
            all == argument_texts(argument_views(words@).skip(from as int)),
            views(texts@) =~= all.take(i - from),
        decreases words@.len() - i,
    {
        let ghost before = views(texts@);
        assert(all[i - from] == words@[i as int].text@);
        texts.push(words[i].text.clone());
        assert(views(texts@) =~= before.push(words@[i as int].text@));
        i += 1;
    }
    assert(views(texts@) =~= all);
    texts
}

/// The result of reading arguments, as the contracts speak of it.
pub open spec fn tap_result_view(result: Result<TapCommandTarget, SimdeckError>) -> Result<
    TapView,
    Seq<char>,
> {
    match result {
        Ok(target) => Ok(target@),
        Err(error) => Err(error.text()),
    }
}

/// Reads the arguments of a tap: a device and a selector, a point, a reference
/// to an element, or the words of a label.
pub fn parse_tap_command_args(
    args: &Vec<Argument>,
    id: Option<String>,
    label: Option<String>,
    value: Option<String>,
    element_type: Option<String>,
) -> (result: Result<TapCommandTarget, SimdeckError>)
    ensures
        tap_result_view(result) == tap_target(
            argument_views(args@),
            (SelectorView {
                id: option_view(id),
                label: option_view(label),
                value: option_view(value),
                element_type: option_view(element_type),
                index: None,
            }),
        ),
{
    let selector = ElementSelector { id, label, value, element_type, index: None };
    let words = clean_cli_args(args);
    let ghost all = argument_views(words@);
    assert(forall|i: int| 0 <= i < all.len() ==> #[trigger] all[i] == words@[i]@);
    if !selector.is_empty() {
        if words.len() == 0 {
            return Ok(TapCommandTarget { udid: None, point: None, selector });
        }
        if words.len() == 1 {
            return Ok(
                TapCommandTarget { udid: Some(words[0].text.clone()), point: None, selector },
            );
        }
        return Err(
            SimdeckError::from_text(
                "tap accepts at most one positional UDID when selector flags are used.",
            ),
        );
    }
    if words.len() == 0 {
        return Ok(TapCommandTarget { udid: None, point: None, selector });
    }
    let first: usize = if words.len() >= 2 && looks_like_device_selector(words[0].text.as_str()) {
        1
    } else {
        0
    };
    let udid = if first == 1 {
        Some(words[0].text.clone())
    } else {
        None
    };
    let ghost rest = all.skip(first as int);
    assert(first == 0 ==> rest =~= all);
    let count: usize = words.len() - first;
    assert(forall|i: int| 0 <= i < rest.len() ==> #[trigger] rest[i] == words@[first + i]@);
    if count == 2 && words[first].finite && words[first + 1].finite {
        let x = words[first].text.clone();
        let y = words[first + 1].text.clone();
        return Ok(TapCommandTarget { udid, point: Some((x, y)), selector });
    }
    if count == 1 && words[first].finite {
        return Err(SimdeckError::from_text("tap requires both x and y coordinates."));
    }
    if some_finite(&words, first) {
        return Err(
            SimdeckError::from_text(
                "tap coordinates must be provided as exactly two numeric values.",
            ),
        );
    }
    let mut selector = selector;
    if count == 1 {
        if let Some(index) = parse_agent_ref(words[first].text.as_str()) {
            selector.index = Some(index);
            return Ok(TapCommandTarget { udid, point: None, selector });
        }
    }
    let texts = texts_from(&words, first);
    selector.label = Some(join(&texts, " "));
    Ok(TapCommandTarget { udid, point: None, selector })
}

/// A device and a value among arguments.
pub open spec fn device_and_value(
    command: Seq<char>,
    args: Seq<ArgumentView>,
    value_name: Seq<char>,
) -> Result<(Option<Seq<char>>, Seq<char>), Seq<char>> {
    let words = cleaned(args);
    if words.len() == 1 {
        Ok((None, words[0].text))
    } else if words.len() == 2 {
        Ok((Some(words[0].text), words[1].text))
    } else if words.len() == 0 {
        Err(command + " requires "@ + value_name + "."@)
    } else {
        Err(command + " accepts either "@ + value_name + " or UDID "@ + value_name + "."@)
    }
}

/// Reads a value and perhaps a device in front of it.
pub fn parse_optional_udid_value_args(
    command: &str,
    args: &Vec<Argument>,
    value_name: &str,
) -> (result: Result<(Option<String>, String), SimdeckError>)
    ensures
        match result {
            Ok((udid, value)) => device_and_value(
                command@,
                argument_views(args@),
                value_name@,
            ) == Ok::<(Option<Seq<char>>, Seq<char>), Seq<char>>((option_view(udid), value@)),
            Err(error) => device_and_value(
                command@,
                argument_views(args@),
                value_name@,
            ) == Err::<(Option<Seq<char>>, Seq<char>), Seq<char>>(error.text()),
        },
{
    let words = clean_cli_args(args);
    let ghost all = argument_views(words@);
    assert(forall|i: int| 0 <= i < all.len() ==> #[trigger] all[i] == words@[i]@);
    if words.len() == 1 {
        return Ok((None, words[0].text.clone()));
    }
    if words.len() == 2 {
        return Ok((Some(words[0].text.clone()), words[1].text.clone()));
    }
    let mut message = owned(command);
    if words.len() == 0 {
        message.append(" requires ");
        message.append(value_name);
        message.append(".");
    } else {
        message.append(" accepts either ");
        message.append(value_name);
        message.append(" or UDID ");
        message.append(value_name);
        message.append(".");
    }
    Err(SimdeckError::new(message))
}

/// A device and a text among arguments, where the text may come from elsewhere.
pub open spec fn device_and_text(
    command: Seq<char>,
    args: Seq<ArgumentView>,
    from_elsewhere: bool,
) -> Result<(Option<Seq<char>>, Option<Seq<char>>), Seq<char>> {
    let words = cleaned(args);
    if words.len() == 0 {
        Ok((None, None))
    } else if from_elsewhere {
        if words.len() == 1 {
            Ok((Some(words[0].text), None))
        } else {
            Err(command + " accepts at most one positional UDID with --stdin or --file."@)
        }
    } else if words.len() == 1 {
        Ok((None, Some(words[0].text)))
    } else if words.len() == 2 {
        Ok((Some(words[0].text), Some(words[1].text)))
    } else {
        Err(command + " accepts either TEXT or UDID TEXT. Quote multi-word text."@)
    }
}

/// Reads a text and perhaps a device in front of it; a device alone where the
/// text comes from elsewhere.
pub fn parse_optional_udid_text_args(
    command: &str,
    args: &Vec<Argument>,
    from_elsewhere: bool,
) -> (result: Result<(Option<String>, Option<String>), SimdeckError>)
    ensures
        match result {
            Ok((udid, text)) => device_and_text(
                command@,
                argument_views(args@),
                from_elsewhere,
            ) == Ok::<(Option<Seq<char>>, Option<Seq<char>>), Seq<char>>(
                (option_view(udid), option_view(text)),
            ),
            Err(error) => device_and_text(
                command@,
                argument_views(args@),
                from_elsewhere,
            ) == Err::<(Option<Seq<char>>, Option<Seq<char>>), Seq<char>>(error.text()),
        },
{
    let words = clean_cli_args(args);
    let ghost all = argument_views(words@);
    assert(forall|i: int| 0 <= i < all.len() ==> #[trigger] all[i] == words@[i]@);
    if words.len() == 0 {
        return Ok((None, None));
    }
    let mut message = owned(command);
    if from_elsewhere {
        if words.len() == 1 {
            return Ok((Some(words[0].text.clone()), None));
        }
        message.append(" accepts at most one positional UDID with --stdin or --file.");
        return Err(SimdeckError::new(message));
    }
    if words.len() == 1 {
        return Ok((None, Some(words[0].text.clone())));
    }
    if words.len() == 2 {
        return Ok((Some(words[0].text.clone()), Some(words[1].text.clone())));
    }
    message.append(" accepts either TEXT or UDID TEXT. Quote multi-word text.");
    Err(SimdeckError::new(message))
}

/// The complaint about an argument that is not a number.
pub open spec fn not_a_number(command: Seq<char>, text: Seq<char>) -> Seq<char> {
    command + " expected a finite number, got "@ + debug_text(text) + "."@
}

fn number_error(command: &str, text: &str) -> (error: SimdeckError)
    ensures
        error.text() == not_a_number(command@, text@),
{
    let mut message = owned(command);
    message.append(" expected a finite number, got ");
    message.append(quoted_text(text).as_str());
    message.append(".");
    SimdeckError::new(message)
}

/// The first of the arguments that is not a finite number.
pub open spec fn first_not_finite(list: Seq<ArgumentView>) -> Option<Seq<char>>
    decreases list.len(),
{
    if list.len() == 0 {
        None
    } else if !list[0].finite {
        Some(list[0].text)
    } else {
        first_not_finite(list.drop_first())
    }
}

/// A device and a number of numbers among arguments.
pub open spec fn device_and_numbers(
    command: Seq<char>,
    args: Seq<ArgumentView>,
    expected: nat,
) -> Result<(Option<Seq<char>>, Seq<Seq<char>>), Seq<char>> {
    let words = cleaned(args);
    if words.len() == expected || words.len() == expected + 1 {
        let values = if words.len() == expected {
            words
        } else {
            words.skip(1)
        };
        match first_not_finite(values) {
            Some(text) => Err(not_a_number(command, text)),
            None => Ok(
                (
                    if words.len() == expected {
                        None
                    } else {
                        Some(words[0].text)
                    },
                    argument_texts(values),
                ),
            ),
        }
    } else {
        Err(
            command + " accepts either "@ + decimal(expected) + " numeric values or UDID plus "@
                + decimal(expected) + " numeric values."@,
        )
    }
}

/// Reads a number of numbers and perhaps a device in front of them. The numbers
/// are given as they are written.
pub fn parse_optional_udid_f64_args(
    command: &str,
    args: &Vec<Argument>,
    expected: usize,
) -> (result: Result<(Option<String>, Vec<String>), SimdeckError>)
    ensures
        match result {
            Ok((udid, values)) => device_and_numbers(
                command@,
                argument_views(args@),
                expected as nat,
            ) == Ok::<(Option<Seq<char>>, Seq<Seq<char>>), Seq<char>>(
                (option_view(udid), views(values@)),
            ),
            Err(error) => device_and_numbers(
                command@,
                argument_views(args@),
                expected as nat,
            ) == Err::<(Option<Seq<char>>, Seq<Seq<char>>), Seq<char>>(error.text()),
        },
{
    let words = clean_cli_args(args);
    let ghost all = argument_views(words@);
    assert(forall|i: int| 0 <= i < all.len() ==> #[trigger] all[i] == words@[i]@);
    let total: usize = words.len();
    let with_device = total > 0 && total - 1 == expected;
    if total != expected && !with_device {
        let count = decimal_text(expected as u64);
        let mut message = owned(command);
        message.append(" accepts either ");
        message.append(count.as_str());
        message.append(" numeric values or UDID plus ");
        message.append(count.as_str());
        message.append(" numeric values.");
        return Err(SimdeckError::new(message));
    }
    let first: usize = words.len() - expected;
    let ghost values = if first == 0 {
        all
    } else {
        all.skip(1)
    };
    assert(values =~= all.skip(first as int));
    let mut i: usize = first;
    assert(values.skip(0) =~= values);
    while i < words.len()
        invariant
            first <= i <= words@.len(),
            values == all.skip(first as int),
            all == argument_views(words@),
            all == cleaned(argument_views(args@)),
            first == words@.len() - expected,
            first == 0 || first == 1,
            first == 0 ==> values == all,
            first_not_finite(values) == first_not_finite(values.skip(i - first)),
        decreases words@.len() - i,
    {
        assert(values.skip(i - first)[0] == words@[i as int]@);
        assert(values.skip(i - first).drop_first() =~= values.skip(i - first + 1));
        if !words[i].finite {
            return Err(number_error(command, words[i].text.as_str()));
        }
        i += 1;
    }
    assert(values.skip(i - first) =~= Seq::empty());
    let udid = if first == 1 {
        Some(words[0].text.clone())
    } else {
        None
    };
    Ok((udid, texts_from(&words, first)))
}

/// A device and a point among arguments, either of which may be missing.
pub open spec fn device_and_point(command: Seq<char>, args: Seq<ArgumentView>) -> Result<
    (Option<Seq<char>>, Option<(Seq<char>, Seq<char>)>),
    Seq<char>,
> {
    let words = cleaned(args);
    if words.len() == 0 {
        Ok((None, None))
    } else if words.len() == 1 {
        Ok((Some(words[0].text), None))
    } else if words.len() == 2 || words.len() == 3 {
        let x = words[words.len() - 2];
        let y = words[words.len() - 1];
        if !x.finite {
            Err(not_a_number(command, x.text))
        } else if !y.finite {
            Err(not_a_number(command, y.text))
        } else {
            Ok(
                (
                    if words.len() == 3 {
                        Some(words[0].text)
                    } else {
                        None
                    },
                    Some((x.text, y.text)),
                ),
            )
        }
    } else {
        Err(command + " accepts [UDID] or [UDID] CENTER_X CENTER_Y."@)
    }
}

/// Reads a device and a point, either of which may be missing. The coordinates
/// are given as they are written.
pub fn parse_optional_udid_point_args(command: &str, args: &Vec<Argument>) -> (result: Result<
    (Option<String>, Option<(String, String)>),
    SimdeckError,
>)
    ensures
        match result {
            Ok((udid, point)) => device_and_point(command@, argument_views(args@)) == Ok::<
                (Option<Seq<char>>, Option<(Seq<char>, Seq<char>)>),
                Seq<char>,
            >((option_view(udid), point_view(point))),
            Err(error) => device_and_point(command@, argument_views(args@)) == Err::<
                (Option<Seq<char>>, Option<(Seq<char>, Seq<char>)>),
                Seq<char>,
            >(error.text()),
        },
{
    let words = clean_cli_args(args);
    let ghost all = argument_views(words@);
    assert(forall|i: int| 0 <= i < all.len() ==> #[trigger] all[i] == words@[i]@);
    let count: usize = words.len();
    if count == 0 {
        return Ok((None, None));
    }
    if count == 1 {
        return Ok((Some(words[0].text.clone()), None));
    }
    if count > 3 {
        let mut message = owned(command);
        message.append(" accepts [UDID] or [UDID] CENTER_X CENTER_Y.");
        return Err(SimdeckError::new(message));
    }
    let x = &words[count - 2];
    let y = &words[count - 1];
    if !x.finite {
        return Err(number_error(command, x.text.as_str()));
    }
    if !y.finite {
        return Err(number_error(command, y.text.as_str()));
    }
    let udid = if count == 3 {
        Some(words[0].text.clone())
    } else {
        None
    };
    Ok((udid, Some((x.text.clone(), y.text.clone()))))
}

/// The arguments of two lists, cleaned, are those of the first and then those of the
/// second; one that is not blank stays, without white space around it, and one that
/// is blank goes.
pub proof fn cleaning_keeps_the_order(
    front: Seq<ArgumentView>,
    back: Seq<ArgumentView>,
    argument: ArgumentView,
)
    ensures
        cleaned(front + back) == cleaned(front) + cleaned(back),
        blank(argument.text) ==> cleaned(seq![argument]) == Seq::<ArgumentView>::empty(),
        !blank(argument.text) ==> cleaned(seq![argument]) == seq![
            ArgumentView { text: trimmed(argument.text), finite: argument.finite },
        ],
    decreases back.len(),
{
    let single = seq![argument];
    assert(single.drop_last() =~= Seq::empty());
    assert(cleaned(single.drop_last()) =~= Seq::<ArgumentView>::empty());
    if blank(argument.text) {
        assert(cleaned(single) =~= Seq::<ArgumentView>::empty());
    } else {
        assert(cleaned(single) =~= seq![
            ArgumentView { text: trimmed(argument.text), finite: argument.finite },
        ]);
    }
    if back.len() == 0 {
        assert(front + back =~= front);
        assert(cleaned(front) + cleaned(back) =~= cleaned(front));
    } else {
        cleaning_keeps_the_order(front, back.drop_last(), argument);
        assert((front + back).drop_last() =~= front + back.drop_last());
        assert((front + back).last() == back.last());
        assert(cleaned(front + back) =~= cleaned(front) + cleaned(back));
    }
}

/// Arguments that are neither blank nor have white space around them stay as they
/// are.
pub proof fn clean_arguments_stay(list: Seq<ArgumentView>)
    requires
        forall|i: int|
            0 <= i < list.len() ==> !blank((#[trigger] list[i]).text) && trimmed(list[i].text)
                == list[i].text,
    ensures
        cleaned(list) == list,
    decreases list.len(),
{
    if list.len() > 0 {
        let front = list.drop_last();
        assert forall|i: int| 0 <= i < front.len() implies !blank((#[trigger] front[i]).text)
            && trimmed(front[i].text) == front[i].text by {
            assert(front[i] == list[i]);
        }
        clean_arguments_stay(front);
        assert(list.last() == list[list.len() - 1]);
        assert(cleaned(list) =~= list);
    } else {
        assert(cleaned(list) =~= list);
    }
}

/// The reference to an element counts from one: `@e` and a number is the element
/// before as many others as the number says, less one; `@e0` is none.
pub proof fn references_count_from_one(n: nat)
    requires
        n <= usize::MAX,
    ensures
        n > 0 ==> agent_ref("@e"@ + decimal(n)) == Some((n - 1) as usize),
        n == 0 ==> agent_ref("@e"@ + decimal(n)) is None,
{
    reveal_strlit("@e");
    let text = "@e"@ + decimal(n);
    lemma_decimal_digits(n);
    assert(is_digit(decimal(n).last()));
    assert(text[0] == '@' && text.last() == decimal(n).last());
    lemma_already_trimmed(text);
    prefixes_are_taken_off(text, "@e"@, decimal(n));
    decimal_reads_back(n, usize::MAX as nat);
}

/// Two numbers are the point of a tap, in their order, behind a device or without
/// one; one number alone, or a number among other words, is refused.
pub proof fn numbers_are_points(
    x: ArgumentView,
    y: ArgumentView,
    udid: Option<Seq<char>>,
    selector: SelectorView,
)
    ensures
        x.finite && y.finite ==> tap_words(udid, seq![x, y], selector) == Ok::<TapView, Seq<char>>(
            (TapView { udid, point: Some((x.text, y.text)), selector }),
        ),
        x.finite ==> tap_words(udid, seq![x], selector) is Err,
        x.finite != y.finite ==> tap_words(udid, seq![x, y], selector) is Err,
{
    let pair = seq![x, y];
    assert(pair[0] == x && pair[1] == y);
    if x.finite != y.finite {
        assert(any_finite(pair));
    }
}

/// Words without a number are the label that a tap looks for, with a blank between
/// each two, unless they are one reference to an element.
pub proof fn words_are_labels(
    words: Seq<ArgumentView>,
    udid: Option<Seq<char>>,
    selector: SelectorView,
)
    requires
        words.len() > 0,
        forall|i: int| 0 <= i < words.len() ==> !(#[trigger] words[i]).finite,
    ensures
        words.len() == 1 && agent_ref(words[0].text) is Some ==> (tap_words(udid, words, selector)
            matches Ok(target) && target.udid == udid && target.point is None
            && target.selector.index == agent_ref(words[0].text) && target.selector.label
            == selector.label),
        words.len() > 1 || agent_ref(words[0].text) is None ==> (tap_words(udid, words, selector)
            matches Ok(target) && target.udid == udid && target.point is None
            && target.selector.label == Some(joined(argument_texts(words), " "@))
            && target.selector.index == selector.index),
{
}

/// A device in front of the words of a tap is taken for the device, and its words
/// are read as they would be without it; words that do not start with a device go to
/// the device that can be inferred. A selector leaves room for a device alone.
pub proof fn taps_are_for_the_device_in_front(
    device: ArgumentView,
    words: Seq<ArgumentView>,
    selector: SelectorView,
)
    requires
        words.len() > 0,
        forall|i: int|
            0 <= i < words.len() ==> !blank((#[trigger] words[i]).text) && trimmed(words[i].text)
                == words[i].text,
        !blank(device.text),
        trimmed(device.text) == device.text,
    ensures
        selector.empty() && device_selector(device.text) ==> tap_target(
            seq![device] + words,
            selector,
        ) == tap_words(Some(device.text), words, selector),
        selector.empty() && !device_selector(words[0].text) ==> tap_target(words, selector)
            == tap_words(None, words, selector),
        !selector.empty() ==> tap_target(seq![device], selector) == Ok::<TapView, Seq<char>>(
            (TapView { udid: Some(device.text), point: None, selector }),
        ),
        !selector.empty() ==> tap_target(seq![device] + words, selector) is Err,
        tap_target(Seq::empty(), selector) == Ok::<TapView, Seq<char>>(
            (TapView { udid: None, point: None, selector }),
        ),
{
    let all = seq![device] + words;
    assert forall|i: int| 0 <= i < all.len() implies !blank((#[trigger] all[i]).text) && trimmed(
        all[i].text,
    ) == all[i].text by {
        if i > 0 {
            assert(all[i] == words[i - 1]);
        }
    }
    clean_arguments_stay(all);
    clean_arguments_stay(words);
    clean_arguments_stay(seq![device]);
    clean_arguments_stay(Seq::empty());
    assert(all.skip(1) =~= words);
}

/// A value may stand alone or behind a device; anything else is refused.
pub proof fn values_stand_behind_their_device(
    command: Seq<char>,
    value_name: Seq<char>,
    device: ArgumentView,
    value: ArgumentView,
    more: ArgumentView,
)
    requires
        !blank(device.text) && trimmed(device.text) == device.text,
        !blank(value.text) && trimmed(value.text) == value.text,
        !blank(more.text) && trimmed(more.text) == more.text,
    ensures
        device_and_value(command, seq![value], value_name) == Ok::<
            (Option<Seq<char>>, Seq<char>),
            Seq<char>,
        >((None, value.text)),
        device_and_value(command, seq![device, value], value_name) == Ok::<
            (Option<Seq<char>>, Seq<char>),
            Seq<char>,
        >((Some(device.text), value.text)),
        device_and_value(command, Seq::empty(), value_name) is Err,
        device_and_value(command, seq![device, value, more], value_name) is Err,
        device_and_text(command, seq![value], false) == Ok::<
            (Option<Seq<char>>, Option<Seq<char>>),
            Seq<char>,
        >((None, Some(value.text))),
        device_and_text(command, seq![device, value], false) == Ok::<
            (Option<Seq<char>>, Option<Seq<char>>),
            Seq<char>,
        >((Some(device.text), Some(value.text))),
        device_and_text(command, seq![device], true) == Ok::<
            (Option<Seq<char>>, Option<Seq<char>>),
            Seq<char>,
        >((Some(device.text), None)),
        device_and_text(command, seq![device, value], true) is Err,
        device_and_text(command, seq![device, value, more], false) is Err,
{
    clean_arguments_stay(seq![value]);
    clean_arguments_stay(seq![device]);
    clean_arguments_stay(seq![device, value]);
    clean_arguments_stay(seq![device, value, more]);
    clean_arguments_stay(Seq::empty());
}

/// Numbers may stand alone or behind a device, as many as are expected, and come
/// back as they were written; another number of them is refused, and so is a text
/// that is no number.
pub proof fn numbers_stand_behind_their_device(
    command: Seq<char>,
    device: ArgumentView,
    values: Seq<ArgumentView>,
    expected: nat,
)
    requires
        values.len() > 0,
        forall|i: int|
            0 <= i < values.len() ==> !blank((#[trigger] values[i]).text) && trimmed(
                values[i].text,
            ) == values[i].text,
        !blank(device.text) && trimmed(device.text) == device.text,
    ensures
        (forall|i: int| 0 <= i < values.len() ==> (#[trigger] values[i]).finite) && values.len()
            == expected ==> {
            &&& device_and_numbers(command, values, expected) == Ok::<
                (Option<Seq<char>>, Seq<Seq<char>>),
                Seq<char>,
            >((None, argument_texts(values)))
            &&& device_and_numbers(command, seq![device] + values, expected) == Ok::<
                (Option<Seq<char>>, Seq<Seq<char>>),
                Seq<char>,
            >((Some(device.text), argument_texts(values)))
        },
        (exists|i: int| 0 <= i < values.len() && !(#[trigger] values[i]).finite) && values.len()
            == expected ==> device_and_numbers(command, values, expected) is Err
            && device_and_numbers(command, seq![device] + values, expected) is Err,
        values.len() != expected && values.len() != expected + 1 ==> device_and_numbers(
            command,
            values,
            expected,
        ) is Err,
{
    let all = seq![device] + values;
    assert forall|i: int| 0 <= i < all.len() implies !blank((#[trigger] all[i]).text) && trimmed(
        all[i].text,
    ) == all[i].text by {
        if i > 0 {
            assert(all[i] == values[i - 1]);
        }
    }
    clean_arguments_stay(values);
    clean_arguments_stay(all);
    assert(all.skip(1) =~= values);
    lemma_first_not_finite(values);
}

proof fn lemma_first_not_finite(list: Seq<ArgumentView>)
    ensures
        first_not_finite(list) is None <==> forall|i: int|
            0 <= i < list.len() ==> (#[trigger] list[i]).finite,
    decreases list.len(),
{
    if list.len() > 0 {
        let rest = list.drop_first();
        lemma_first_not_finite(rest);
        if first_not_finite(list) is None {
            assert forall|i: int| 0 <= i < list.len() implies (#[trigger] list[i]).finite by {
                if i > 0 {
                    assert(rest[i - 1] == list[i]);
                }
            }
        } else if list[0].finite {
            let k = choose|k: int| 0 <= k < rest.len() && !(#[trigger] rest[k]).finite;
            assert(list[k + 1] == rest[k]);
        }
    }
}

/// A device may stand alone or in front of a point, and a point without a device;
/// the coordinates keep their order.
pub proof fn points_stand_behind_their_device(
    command: Seq<char>,
    device: ArgumentView,
    x: ArgumentView,
    y: ArgumentView,
)
    requires
        !blank(device.text) && trimmed(device.text) == device.text,
        !blank(x.text) && trimmed(x.text) == x.text,
        !blank(y.text) && trimmed(y.text) == y.text,
    ensures
        device_and_point(command, Seq::empty()) == Ok::<
            (Option<Seq<char>>, Option<(Seq<char>, Seq<char>)>),
            Seq<char>,
        >((None, None)),
        device_and_point(command, seq![device]) == Ok::<
            (Option<Seq<char>>, Option<(Seq<char>, Seq<char>)>),
            Seq<char>,
        >((Some(device.text), None)),
        x.finite && y.finite ==> device_and_point(command, seq![x, y]) == Ok::<
            (Option<Seq<char>>, Option<(Seq<char>, Seq<char>)>),
            Seq<char>,
        >((None, Some((x.text, y.text)))),
        x.finite && y.finite ==> device_and_point(command, seq![device, x, y]) == Ok::<
            (Option<Seq<char>>, Option<(Seq<char>, Seq<char>)>),
            Seq<char>,
        >((Some(device.text), Some((x.text, y.text)))),
        !x.finite || !y.finite ==> device_and_point(command, seq![x, y]) is Err
            && device_and_point(command, seq![device, x, y]) is Err,
{
    clean_arguments_stay(Seq::empty());
    clean_arguments_stay(seq![device]);
    clean_arguments_stay(seq![x, y]);
    clean_arguments_stay(seq![device, x, y]);
}

/// A text that names an Android device identifies it, and so do 36 hexadecimal
/// digits and dashes; a text of another length that names no Android device does
/// not, nor does one with any other character.
pub proof fn identifiers_have_their_form(text: Seq<char>, rest: Seq<char>, i: int)
    ensures
        android_id("android:"@ + rest),
        device_selector("android:"@ + rest),
        !android_id(text) && text.len() != 36 ==> !device_selector(text),
        !android_id(text) && 0 <= i < text.len() && !(text[i] == '-' || '0' <= text[i] <= '9'
            || 'a' <= text[i] <= 'f' || 'A' <= text[i] <= 'F') ==> !device_selector(text),
        text.len() == 36 && (forall|k: int|
            0 <= k < 36 ==> (#[trigger] text[k] == '-' || '0' <= text[k] <= '9' || 'a' <= text[k]
                <= 'f' || 'A' <= text[k] <= 'F')) ==> device_selector(text),
{
    prefixes_are_taken_off("android:"@ + rest, "android:"@, rest);
}

/// The contracts see all of a selector, each field as what it is.
pub proof fn selectors_are_seen_whole(selector: ElementSelector)
    ensures
        selector@.id == option_view(selector.id),
        selector@.label == option_view(selector.label),
        selector@.value == option_view(selector.value),
        selector@.element_type == option_view(selector.element_type),
        selector@.index == selector.index,
{
}

/// The contracts see all of a tap's aim and of an argument, each field as what it is.
pub proof fn aims_are_seen_whole(target: TapCommandTarget, argument: Argument)
    ensures
        target@.udid == option_view(target.udid),
        target@.selector == target.selector@,
        target@.point is Some == target.point is Some,
        target.point matches Some((x, y)) ==> target@.point == Some((x@, y@)),
        argument@.text == argument.text@,
        argument@.finite == argument.finite,
{
}

/// A text that is no number is quoted in the complaint, behind the command.
pub proof fn complaints_name_the_command(command: Seq<char>, text: Seq<char>)
    ensures
        has_prefix(not_a_number(command, text), command),
        contains_text(not_a_number(command, text), debug_text(text)),
{
    let message = not_a_number(command, text);
    let middle = " expected a finite number, got "@;
    assert(message.subrange(0, command.len() as int) =~= command);
    contained_texts_are_parts(command + middle, debug_text(text), "."@);
}

/// A text that is no number is refused by name, the first one of several, with a device
/// in front or without.
pub proof fn first_text_that_is_no_number_is_named(
    command: Seq<char>,
    device: ArgumentView,
    values: Seq<ArgumentView>,
    i: int,
)
    requires
        0 <= i < values.len(),
        !values[i].finite,
        forall|k: int| 0 <= k < i ==> (#[trigger] values[k]).finite,
        forall|k: int|
            0 <= k < values.len() ==> !blank((#[trigger] values[k]).text) && trimmed(
                values[k].text,
            ) == values[k].text,
        !blank(device.text) && trimmed(device.text) == device.text,
    ensures
        device_and_numbers(command, values, values.len()) == Err::<
            (Option<Seq<char>>, Seq<Seq<char>>),
            Seq<char>,
        >(not_a_number(command, values[i].text)),
        device_and_numbers(command, seq![device] + values, values.len()) == Err::<
            (Option<Seq<char>>, Seq<Seq<char>>),
            Seq<char>,
        >(not_a_number(command, values[i].text)),
{
    let all = seq![device] + values;
    assert forall|k: int| 0 <= k < all.len() implies !blank((#[trigger] all[k]).text) && trimmed(
        all[k].text,
    ) == all[k].text by {
        if k > 0 {
            assert(all[k] == values[k - 1]);
        }
    }
    clean_arguments_stay(values);
    clean_arguments_stay(all);
    assert(all.skip(1) =~= values);
    lemma_first_text(values, i);
}

proof fn lemma_first_text(list: Seq<ArgumentView>, i: int)
    requires
        0 <= i < list.len(),
        !list[i].finite,
        forall|k: int| 0 <= k < i ==> (#[trigger] list[k]).finite,
    ensures
        first_not_finite(list) == Some(list[i].text),
    decreases list.len(),
{
    if i > 0 {
        let rest = list.drop_first();
        assert(list[0].finite);
        assert forall|k: int| 0 <= k < i - 1 implies (#[trigger] rest[k]).finite by {
            assert(rest[k] == list[k + 1]);
        }
        lemma_first_text(rest, i - 1);
    }
}

} // verus!
