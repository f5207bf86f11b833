//! Lists of command line arguments: finding a value behind its flag, and
//! adding flags and values.
use vstd::prelude::*;

use crate::numbers::{decimal, decimal_text};
use crate::text::{
    as_option_str, blank, option_eq, option_str_view, option_view, owned, str_eq, trim, trimmed,
    views,
};

verus! {

/// The first position from `from` on at which `name` stands with an argument
/// behind it.
pub open spec fn flag_position(arguments: Seq<Seq<char>>, name: Seq<char>, from: int) -> Option<int>
    decreases arguments.len() - from,
{
    if from + 1 >= arguments.len() {
        None
    } else if arguments[from] == name {
        Some(from)
    } else {
        flag_position(arguments, name, from + 1)
    }
}

/// The value behind the first `name` of a list of arguments, without the white
/// space around it; none where nothing is left of it.
pub open spec fn argument_of(arguments: Seq<Seq<char>>, name: Seq<char>) -> Option<Seq<char>> {
    match flag_position(arguments, name, 0) {
        Some(i) => if blank(arguments[i + 1]) {
            None
        } else {
            Some(trimmed(arguments[i + 1]))
        },
        None => None,
    }
}

pub fn argument_value(arguments: &Vec<String>, name: &str) -> (value: Option<String>)
    ensures
        option_view(value) == argument_of(views(arguments@), name@),
{
    let ghost all = views(arguments@);
    let mut i: usize = 0;
    while i < arguments.len() && i + 1 < arguments.len()
        invariant
            i <= arguments@.len(),
            all == views(arguments@),
            flag_position(all, name@, 0) == flag_position(all, name@, i as int),
        decreases arguments@.len() - i,
    {
        assert(all[i as int] == arguments@[i as int]@);
        if str_eq(arguments[i].as_str(), name) {
            assert(all[i + 1] == arguments@[i + 1]@);
            let text = trim(arguments[i + 1].as_str());
            if text.as_str().is_empty() {
                return None;
            }
            return Some(text);
        }
        i += 1;
    }
    None
}

pub fn optional_argument_matches(
    arguments: &Vec<String>,
    name: &str,
    expected: Option<&str>,
) -> (result: bool)
    ensures
        result == (argument_of(views(arguments@), name@) == option_str_view(expected)),
{
    let value = argument_value(arguments, name);
    option_eq(as_option_str(&value), expected)
}

pub fn flag_matches(arguments: &Vec<String>, name: &str, expected: bool) -> (result: bool)
    ensures
        result == (views(arguments@).contains(name@) == expected),
{
    let ghost all = views(arguments@);
    let mut i: usize = 0;
    while i < arguments.len()
        invariant
            i <= arguments@.len(),
            all == views(arguments@),
            forall|j: int| 0 <= j < i ==> #[trigger] all[j] != name@,
        decreases arguments@.len() - i,
    {
        assert(all[i as int] == arguments@[i as int]@);
        if str_eq(arguments[i].as_str(), name) {
            assert(all.contains(name@));
            return expected;
        }
        i += 1;
    }
    assert(!all.contains(name@));
    !expected
}

/// Two arguments that stand one behind the other.
pub open spec fn has_pair(arguments: Seq<Seq<char>>, first: Seq<char>, second: Seq<char>) -> bool {
    exists|i: int|
        0 <= i < arguments.len() - 1 && #[trigger] arguments[i] == first && arguments[i + 1]
            == second
}

pub fn contains_pair(arguments: &Vec<String>, first: &str, second: &str) -> (result: bool)
    ensures
        result == has_pair(views(arguments@), first@, second@),
{
    let ghost all = views(arguments@);
    let mut i: usize = 0;
    while i < arguments.len() && i + 1 < arguments.len()
        invariant
            i <= arguments@.len(),
            all == views(arguments@),
            forall|j: int|
                0 <= j < i && j < all.len() - 1 ==> !(#[trigger] all[j] == first@ && all[j + 1]
                    == second@),
        decreases arguments@.len() - i,
    {
        assert(all[i as int] == arguments@[i as int]@ && all[i + 1] == arguments@[i + 1]@);
        if str_eq(arguments[i].as_str(), first) && str_eq(arguments[i + 1].as_str(), second) {
            return true;
        }
        i += 1;
    }
    false
}

/// An optional number in decimal.
pub open spec fn option_decimal(n: Option<u32>) -> Option<Seq<char>> {
    match n {
        Some(value) => Some(decimal(value as nat)),
        None => None,
    }
}

/// A flag with its value, where there is one.
pub open spec fn optional_pair(name: Seq<char>, value: Option<Seq<char>>) -> Seq<Seq<char>> {
    match value {
        Some(text) => seq![name, text],
        None => Seq::empty(),
    }
}

/// A flag without a value, where it is set.
pub open spec fn optional_flag(name: Seq<char>, set: bool) -> Seq<Seq<char>> {
    if set {
        seq![name]
    } else {
        Seq::empty()
    }
}

/// Adds a text to a list.
pub fn push_text(list: &mut Vec<String>, text: &str)
    ensures
        views(final(list)@) == views(old(list)@).push(text@),
{
    let ghost before = views(list@);
    list.push(owned(text));
    assert(views(list@) =~= before.push(text@));
}

/// Adds a flag to a list of arguments, where it is set.
pub fn push_flag(list: &mut Vec<String>, name: &str, set: bool)
    ensures
        views(final(list)@) == views(old(list)@) + optional_flag(name@, set),
{
    let ghost before = views(list@);
    if set {
        push_text(list, name);
    }
    assert(views(list@) =~= before + optional_flag(name@, set));
}

/// Adds a flag and its value to a list of arguments, where there is a value.
pub fn push_pair(list: &mut Vec<String>, name: &str, value: Option<&str>)
    ensures
        views(final(list)@) == views(old(list)@) + optional_pair(name@, option_str_view(value)),
{
    let ghost before = views(list@);
    if let Some(text) = value {
        push_text(list, name);
        push_text(list, text);
    }
    assert(views(list@) =~= before + optional_pair(name@, option_str_view(value)));
}

/// Adds a flag and its value to a list of arguments, where there is a number.
pub fn push_number(list: &mut Vec<String>, name: &str, value: Option<u32>)
    ensures
        views(final(list)@) == views(old(list)@) + optional_pair(name@, option_decimal(value)),
{
    match value {
        Some(number) => {
            let text = decimal_text(number as u64);
            push_pair(list, name, Some(text.as_str()));
        },
        None => push_pair(list, name, None),
    }
}

/// Two arguments that stand one behind the other still do so among more arguments.
pub proof fn lemma_pair_among(
    front: Seq<Seq<char>>,
    list: Seq<Seq<char>>,
    back: Seq<Seq<char>>,
    first: Seq<char>,
    second: Seq<char>,
)
    requires
        has_pair(list, first, second),
    ensures
        has_pair(front + list, first, second),
        has_pair(list + back, first, second),
        has_pair(front + list + back, first, second),
{
    let i = choose|i: int|
        0 <= i < list.len() - 1 && #[trigger] list[i] == first && list[i + 1] == second;
    let behind = front + list;
    let before = list + back;
    let among = front + list + back;
    let at: int = front.len() + i;
    assert(behind[at] == first && behind[at + 1] == second);
    assert(before[i] == first && before[i + 1] == second);
    assert(among[at] == first && among[at + 1] == second);
}

/// A flag that is added with its value stands in front of it; without a value it is
/// not added.
pub proof fn added_flags_stand_in_front_of_their_values(name: Seq<char>, value: Seq<char>)
    ensures
        has_pair(optional_pair(name, Some(value)), name, value),
        optional_pair(name, None).len() == 0,
        optional_pair(name, Some(value)).len() == 2,
        optional_flag(name, true) == seq![name],
        optional_flag(name, false).len() == 0,
{
    let pair = optional_pair(name, Some(value));
    assert(pair[0] == name && pair[1] == value);
}

/// The value of a flag is what stands behind the first place of its name, without
/// white space around it; a blank one is none, and so is a name that nothing follows.
pub proof fn values_stand_behind_the_first_name(
    front: Seq<Seq<char>>,
    name: Seq<char>,
    value: Seq<char>,
    back: Seq<Seq<char>>,
)
    requires
        !front.contains(name),
    ensures
        argument_of(front + seq![name, value] + back, name) == if blank(value) {
            None
        } else {
            Some(trimmed(value))
        },
        argument_of(front, name) is None,
        argument_of(front + seq![name], name) is None,
{
    let list = front + seq![name, value] + back;
    let at: int = front.len() as int;
    assert(list[at] == name && list[at + 1] == value);
    assert forall|i: int| 0 <= i < at implies #[trigger] list[i] != name by {
        assert(list[i] == front[i]);
    }
    lemma_first_place(list, name, 0, at);
    lemma_no_place(front, name, 0);
    let ended = front + seq![name];
    assert forall|i: int| 0 <= i < ended.len() - 1 implies #[trigger] ended[i] != name by {
        assert(ended[i] == front[i]);
    }
    lemma_no_place(ended, name, 0);
}

proof fn lemma_first_place(arguments: Seq<Seq<char>>, name: Seq<char>, from: int, at: int)
    requires
        0 <= from <= at < arguments.len() - 1,
        arguments[at] == name,
        forall|i: int| from <= i < at ==> #[trigger] arguments[i] != name,
    ensures
        flag_position(arguments, name, from) == Some(at),
    decreases at - from,
{
    if from < at {
        lemma_first_place(arguments, name, from + 1, at);
    }
}

proof fn lemma_no_place(arguments: Seq<Seq<char>>, name: Seq<char>, from: int)
    requires
        0 <= from,
        forall|i: int| from <= i < arguments.len() - 1 ==> #[trigger] arguments[i] != name,
    ensures
        flag_position(arguments, name, from) is None,
    decreases arguments.len() - from,
{
    if from + 1 < arguments.len() {
        lemma_no_place(arguments, name, from + 1);
    }
}

} // verus!
