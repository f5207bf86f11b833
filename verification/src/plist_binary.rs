//! Which property lists in the binary form can be handed to their reader, by their
//! bytes. The reader repeats an object as often as it is referred to.
use vstd::prelude::*;

use crate::plist_guard::MAX_DEPTH;

verus! {

/// How much a binary list may come to: one for each object and each byte of its
/// text and data, as often as they are referred to. More takes hundreds of
/// gigabytes to hold.
pub const MAX_BINARY_WEIGHT: u64 = 4_294_967_296;

/// The number that the bytes at a position spell, the highest byte first.
pub open spec fn number(bytes: Seq<u8>, at: int, width: nat) -> nat
    decreases width,
{
    if width == 0 {
        0
    } else {
        number(bytes, at, (width - 1) as nat) * 256 + bytes[at + width - 1] as nat
    }
}

proof fn lemma_number_grows(bytes: Seq<u8>, at: int, width: nat, wider: nat)
    requires
        width <= wider,
    ensures
        number(bytes, at, width) <= number(bytes, at, wider),
    decreases wider,
{
    if width < wider {
        lemma_number_grows(bytes, at, width, (wider - 1) as nat);
    }
}

/// Reads a number that is no larger than the list is long.
fn read_number(bytes: &Vec<u8>, at: usize, width: usize) -> (result: Option<usize>)
    requires
        at + width <= bytes@.len(),
    ensures
        match result {
            Some(value) => number(bytes@, at as int, width as nat) == value && value
                <= bytes@.len(),
            None => number(bytes@, at as int, width as nat) > bytes@.len(),
        },
{
    let limit: usize = bytes.len();
    let mut value: usize = 0;
    let mut i: usize = 0;
    while i < width
        invariant
            i <= width,
            at + width <= bytes@.len(),
            limit == bytes@.len(),
            value <= limit,
            value == number(bytes@, at as int, i as nat),
        decreases width - i,
    {
        let next: u128 = value as u128 * 256 + bytes[at + i] as u128;
        assert(number(bytes@, at as int, (i + 1) as nat) == next);
        if next > limit as u128 {
            proof {
                lemma_number_grows(bytes@, at as int, (i + 1) as nat, width as nat);
            }
            return None;
        }
        value = next as usize;
        i += 1;
    }
    Some(value)
}

/// What a list in the binary form starts with.
pub open spec fn binary_magic() -> Seq<u8> {
    seq![98u8, 112, 108, 105, 115, 116, 48, 48]
}

/// How a binary list is laid out: where its objects end, how wide its offsets
/// and references are, how many objects it has, which of them is the list, and
/// where their offsets stand.
#[derive(Debug)]
struct BinaryLayout {
    end: usize,
    offset_width: usize,
    ref_width: usize,
    count: usize,
    root: usize,
    table: usize,
}

/// The layout as the contracts speak of it.
pub struct LayoutView {
    pub end: int,
    pub offset_width: int,
    pub ref_width: int,
    pub count: int,
    pub root: int,
    pub table: int,
}

impl BinaryLayout {
    spec fn shown(self) -> LayoutView {
        LayoutView {
            end: self.end as int,
            offset_width: self.offset_width as int,
            ref_width: self.ref_width as int,
            count: self.count as int,
            root: self.root as int,
            table: self.table as int,
        }
    }
}

/// A width of offsets and references.
pub open spec fn known_width(width: int) -> bool {
    width == 1 || width == 2 || width == 3 || width == 4 || width == 8
}

/// The layout that the last bytes of a binary list give, where it fits the list.
pub open spec fn layout_of(bytes: Seq<u8>) -> Option<LayoutView> {
    let end = bytes.len() - 32;
    if end < 0 {
        None
    } else {
        let layout = LayoutView {
            end,
            offset_width: bytes[end + 6] as int,
            ref_width: bytes[end + 7] as int,
            count: number(bytes, end + 8, 8) as int,
            root: number(bytes, end + 16, 8) as int,
            table: number(bytes, end + 24, 8) as int,
        };
        if known_width(layout.offset_width) && known_width(layout.ref_width) && layout.table
            + layout.count * layout.offset_width <= end && layout.root < layout.count {
            Some(layout)
        } else {
            None
        }
    }
}

fn read_layout(bytes: &Vec<u8>) -> (layout: Option<BinaryLayout>)
    ensures
        match layout {
            Some(found) => layout_of(bytes@) == Some(found.shown()),
            None => layout_of(bytes@) is None,
        },
{
    if bytes.len() < 32 {
        return None;
    }
    let end: usize = bytes.len() - 32;
    let offset_width: usize = bytes[end + 6] as usize;
    let ref_width: usize = bytes[end + 7] as usize;
    if !is_known_width(offset_width) || !is_known_width(ref_width) {
        return None;
    }
    let ghost counted = number(bytes@, end + 8, 8) as int;
    assert(counted * offset_width >= counted) by (nonlinear_arith)
        requires
            counted >= 0,
            offset_width >= 1,
    ;
    let count: usize = match read_number(bytes, end + 8, 8) {
        Some(count) => count,
        None => return None,
    };
    let table: usize = match read_number(bytes, end + 24, 8) {
        Some(table) => table,
        None => return None,
    };
    let root: usize = match read_number(bytes, end + 16, 8) {
        Some(root) => root,
        None => return None,
    };
    assert(0 <= count * offset_width <= count * 8) by (nonlinear_arith)
        requires
            count >= 0,
            0 <= offset_width <= 8,
    ;
    let needed: u128 = table as u128 + count as u128 * offset_width as u128;
    if needed > end as u128 || root >= count {
        return None;
    }
    Some(BinaryLayout { end, offset_width, ref_width, count, root, table })
}

fn is_known_width(width: usize) -> (result: bool)
    ensures
        result == known_width(width as int),
{
    width == 1 || width == 2 || width == 3 || width == 4 || width == 8
}

/// Where an object of a binary list stands.
pub open spec fn offset_of(bytes: Seq<u8>, layout: LayoutView, index: int) -> nat {
    number(bytes, layout.table + index * layout.offset_width, layout.offset_width as nat)
}

/// The width of a size that is written out, by the byte in front of it.
pub open spec fn size_width(mark: u8) -> nat {
    if mark % 4 == 0 {
        1
    } else if mark % 4 == 1 {
        2
    } else if mark % 4 == 2 {
        4
    } else {
        8
    }
}

/// The size that an object declares, and where its content starts.
pub open spec fn declared_size(bytes: Seq<u8>, at: int) -> Option<(nat, int)> {
    if bytes[at] % 16 != 15 {
        Some(((bytes[at] % 16) as nat, at + 1))
    } else if at + 1 < bytes.len() && at + 2 + size_width(bytes[at + 1]) <= bytes.len() {
        let width = size_width(bytes[at + 1]);
        Some((number(bytes, at + 2, width), at + 2 + width))
    } else {
        None
    }
}

fn read_declared_size(bytes: &Vec<u8>, at: usize) -> (result: Option<(usize, usize)>)
    requires
        at < bytes@.len(),
    ensures
        match result {
            Some((size, start)) => declared_size(bytes@, at as int) == Some(
                (size as nat, start as int),
            ) && size <= bytes@.len() + 15 && start <= bytes@.len(),
            None => match declared_size(bytes@, at as int) {
                Some((size, _)) => size > bytes@.len(),
                None => true,
            },
        },
{
    let total: usize = bytes.len();
    if bytes[at] % 16 != 15 {
        return Some(((bytes[at] % 16) as usize, at + 1));
    }
    if at + 1 >= total {
        return None;
    }
    let mark: u8 = bytes[at + 1] % 4;
    let width: usize = if mark == 0 {
        1
    } else if mark == 1 {
        2
    } else if mark == 2 {
        4
    } else {
        8
    };
    if width + 1 > total - at - 1 {
        return None;
    }
    match read_number(bytes, at + 2, width) {
        Some(size) => Some((size, at + 2 + width)),
        None => None,
    }
}

/// An object that declares its size: data, text, an array or a dictionary.
pub open spec fn has_size(kind: u8) -> bool {
    kind == 4 || kind == 5 || kind == 6 || kind == 10 || kind == 13
}

/// An array or a dictionary.
pub open spec fn has_children(kind: u8) -> bool {
    kind == 10 || kind == 13
}

/// The number of bytes that one unit of an object's size takes.
pub open spec fn unit_of(kind: u8, ref_width: int) -> int {
    if kind == 13 {
        2 * ref_width
    } else if kind == 10 {
        ref_width
    } else if kind == 6 {
        2
    } else {
        1
    }
}

/// The number of objects that an array or a dictionary of a size refers to.
pub open spec fn child_count(kind: u8, size: nat) -> nat {
    if kind == 13 {
        2 * size
    } else {
        size
    }
}

/// A weight that can be held.
pub open spec fn held(weight: nat) -> Option<nat> {
    if weight <= MAX_BINARY_WEIGHT {
        Some(weight)
    } else {
        None
    }
}

/// What an object of a binary list comes to, with all that it refers to; nothing
/// where that is too much, where it is nested deeper than `depth` or does not fit the
/// list.
pub open spec fn object_weight(
    bytes: Seq<u8>,
    layout: LayoutView,
    index: int,
    depth: nat,
) -> Option<nat>
    decreases depth, 0nat,
{
    let at = offset_of(bytes, layout, index) as int;
    if depth == 0 || index >= layout.count || at >= layout.end {
        None
    } else {
        let kind = bytes[at] / 16;
        if has_size(kind) {
            match measured(bytes, layout, at) {
                Some((size, start, length)) => if has_children(kind) {
                    match children_weight(
                        bytes,
                        layout,
                        start,
                        child_count(kind, size),
                        (depth - 1) as nat,
                    ) {
                        Some(weight) => held(weight + 1),
                        None => None,
                    }
                } else {
                    held((length + 1) as nat)
                },
                None => None,
            }
        } else {
            Some(1)
        }
    }
}

/// What the first `count` objects that the references at a position name come to.
pub open spec fn children_weight(
    bytes: Seq<u8>,
    layout: LayoutView,
    start: int,
    count: nat,
    depth: nat,
) -> Option<nat>
    decreases depth, count + 1,
{
    if count == 0 {
        Some(0)
    } else {
        match (
            children_weight(bytes, layout, start, (count - 1) as nat, depth),
            object_weight(bytes, layout, reference(bytes, layout, start, count - 1), depth),
        ) {
            (Some(before), Some(last)) => held(before + last),
            _ => None,
        }
    }
}

/// The object that a reference names.
pub open spec fn reference(bytes: Seq<u8>, layout: LayoutView, start: int, i: int) -> int {
    number(bytes, start + i * layout.ref_width, layout.ref_width as nat) as int
}

/// Where the first objects come to nothing, all do.
proof fn lemma_children_none(
    bytes: Seq<u8>,
    layout: LayoutView,
    start: int,
    fewer: nat,
    count: nat,
    depth: nat,
)
    requires
        fewer <= count,
        children_weight(bytes, layout, start, fewer, depth) is None,
    ensures
        children_weight(bytes, layout, start, count, depth) is None,
    decreases count,
{
    if fewer < count {
        lemma_children_none(bytes, layout, start, fewer, (count - 1) as nat, depth);
    }
}

/// No object comes to anything else one level deeper.
spec fn settled(bytes: Seq<u8>, layout: LayoutView, depth: nat) -> bool {
    forall|index: int|
        0 <= index ==> #[trigger] object_weight(bytes, layout, index, depth) == object_weight(
            bytes,
            layout,
            index,
            depth + 1,
        )
}

proof fn lemma_children_settled(
    bytes: Seq<u8>,
    layout: LayoutView,
    start: int,
    count: nat,
    depth: nat,
)
    requires
        settled(bytes, layout, depth),
    ensures
        children_weight(bytes, layout, start, count, depth) == children_weight(
            bytes,
            layout,
            start,
            count,
            depth + 1,
        ),
    decreases count,
{
    if count > 0 {
        lemma_children_settled(bytes, layout, start, (count - 1) as nat, depth);
        let named = reference(bytes, layout, start, count - 1);
        assert(object_weight(bytes, layout, named, depth) == object_weight(
            bytes,
            layout,
            named,
            depth + 1,
        ));
    }
}

/// What no longer changes one level deeper changes at no deeper level.
proof fn lemma_settled(bytes: Seq<u8>, layout: LayoutView, index: int, depth: nat, deeper: nat)
    requires
        settled(bytes, layout, depth),
        depth <= deeper,
        0 <= index,
    ensures
        object_weight(bytes, layout, index, depth) == object_weight(
            bytes,
            layout,
            index,
            deeper,
        ),
        settled(bytes, layout, deeper),
    decreases deeper - depth,
{
    if depth < deeper {
        assert forall|other: int| 0 <= other implies #[trigger] object_weight(
            bytes,
            layout,
            other,
            depth + 1,
        ) == object_weight(bytes, layout, other, depth + 2) by {
            let at = offset_of(bytes, layout, other) as int;
            if other < layout.count && at < layout.end && has_children(bytes[at] / 16) {
                if let Some((size, start, _)) = measured(bytes, layout, at) {
                    lemma_children_settled(
                        bytes,
                        layout,
                        start,
                        child_count(bytes[at] / 16, size),
                        depth,
                    );
                }
            }
        }
        assert(settled(bytes, layout, depth + 1));
        lemma_settled(bytes, layout, index, depth + 1, deeper);
        assert(object_weight(bytes, layout, index, depth) == object_weight(
            bytes,
            layout,
            index,
            depth + 1,
        ));
    }
}

/// A weight that was found.
spec fn found_weight(weight: Option<u64>) -> Option<nat> {
    match weight {
        Some(found) => Some(found as nat),
        None => None,
    }
}

/// The table holds what each object comes to at a depth.
spec fn holds_weights(
    bytes: Seq<u8>,
    layout: LayoutView,
    table: Seq<Option<u64>>,
    depth: nat,
) -> bool {
    table.len() == layout.count && forall|i: int|
        0 <= i < table.len() ==> found_weight(#[trigger] table[i]) == object_weight(
            bytes,
            layout,
            i,
            depth,
        )
}

/// Where an object of a binary list stands, if before the end of the objects.
fn find_object(bytes: &Vec<u8>, layout: &BinaryLayout, index: usize) -> (at: Option<usize>)
    requires
        layout_of(bytes@) == Some(layout.shown()),
        index < layout.count,
    ensures
        match at {
            Some(found) => offset_of(bytes@, layout.shown(), index as int) == found && found
                < layout.end,
            None => offset_of(bytes@, layout.shown(), index as int) >= layout.end,
        },
{
    let total: usize = bytes.len();
    let width: usize = layout.offset_width;
    let count: usize = layout.count;
    assert(0 <= index * width && index * width + width <= count * width) by (nonlinear_arith)
        requires
            0 <= index < count,
            width >= 0,
    ;
    match read_number(bytes, layout.table + index * width, width) {
        Some(at) => if at < layout.end {
            Some(at)
        } else {
            None
        },
        None => None,
    }
}

/// The size that an object declares, where its content starts and how long it is.
pub open spec fn measured(bytes: Seq<u8>, layout: LayoutView, at: int) -> Option<
    (nat, int, int),
> {
    match declared_size(bytes, at) {
        Some((size, start)) => {
            let length = size * unit_of(bytes[at] / 16, layout.ref_width);
            if at + length > layout.end || start + length > bytes.len() {
                None
            } else {
                Some((size, start, length))
            }
        },
        None => None,
    }
}

fn measure(bytes: &Vec<u8>, layout: &BinaryLayout, at: usize) -> (result: Option<
    (usize, usize, usize),
>)
    requires
        layout_of(bytes@) == Some(layout.shown()),
        at < layout.end,
        has_size(bytes@[at as int] / 16),
    ensures
        match result {
            Some((size, start, length)) => measured(bytes@, layout.shown(), at as int) == Some(
                (size as nat, start as int, length as int),
            ) && size <= length,
            None => measured(bytes@, layout.shown(), at as int) is None,
        },
{
    let total: usize = bytes.len();
    let kind: u8 = bytes[at] / 16;
    let unit: usize = if kind == 13 {
        2 * layout.ref_width
    } else if kind == 10 {
        layout.ref_width
    } else if kind == 6 {
        2
    } else {
        1
    };
    assert(unit == unit_of(kind, layout.shown().ref_width) && 1 <= unit <= 16);
    proof {
        if let Some((size, _)) = declared_size(bytes@, at as int) {
            assert(size * unit >= size) by (nonlinear_arith)
                requires
                    size >= 0,
                    unit >= 1,
            ;
        }
    }
    let (size, start) = match read_declared_size(bytes, at) {
        Some(found) => found,
        None => return None,
    };
    assert(0 <= size * unit <= size * 16) by (nonlinear_arith)
        requires
            size >= 0,
            0 <= unit <= 16,
    ;
    let length: u128 = size as u128 * unit as u128;
    if at as u128 + length > layout.end as u128 || start as u128 + length > total as u128 {
        return None;
    }
    Some((size, start, length as usize))
}

fn weigh_children(
    bytes: &Vec<u8>,
    layout: &BinaryLayout,
    start: usize,
    count: usize,
    table: &Vec<Option<u64>>,
    Ghost(depth): Ghost<nat>,
) -> (weight: Option<u64>)
    requires
        layout_of(bytes@) == Some(layout.shown()),
        start + count * layout.ref_width <= bytes@.len(),
        holds_weights(bytes@, layout.shown(), table@, depth),
    ensures
        found_weight(weight) == children_weight(
            bytes@,
            layout.shown(),
            start as int,
            count as nat,
            depth,
        ),
        weight matches Some(found) ==> found <= MAX_BINARY_WEIGHT,
{
    let length: usize = bytes.len();
    let ref_width: usize = layout.ref_width;
    let ghost objects = layout.shown().count;
    let ghost width = layout.shown().offset_width;
    assert(objects <= objects * width) by (nonlinear_arith)
        requires
            objects >= 0,
            width >= 1,
    ;
    let mut total: u64 = 0;
    let mut i: usize = 0;
    while i < count
        invariant
            i <= count,
            layout_of(bytes@) == Some(layout.shown()),
            holds_weights(bytes@, layout.shown(), table@, depth),
            ref_width == layout.ref_width,
            length == bytes@.len(),
            layout.shown().count <= length,
            start + count * ref_width <= length,
            total <= MAX_BINARY_WEIGHT,
            children_weight(bytes@, layout.shown(), start as int, i as nat, depth) == Some(
                total as nat,
            ),
        decreases count - i,
    {
        assert(0 <= i * ref_width && i * ref_width + ref_width <= count * ref_width)
            by (nonlinear_arith)
            requires
                0 <= i < count,
                ref_width >= 0,
        ;
        let ghost named = reference(bytes@, layout.shown(), start as int, i as int);
        let child: Option<u64> = match read_number(bytes, start + i * ref_width, ref_width) {
            Some(index) => if index < table.len() {
                assert(found_weight(table@[index as int]) == object_weight(
                    bytes@,
                    layout.shown(),
                    index as int,
                    depth,
                ));
                table[index]
            } else {
                None
            },
            None => None,
        };
        assert(found_weight(child) == object_weight(bytes@, layout.shown(), named, depth));
        let sum: Option<u64> = match child {
            Some(found) => if found <= MAX_BINARY_WEIGHT - total {
                Some(total + found)
            } else {
                None
            },
            None => None,
        };
        match sum {
            Some(value) => {
                total = value;
                i += 1;
            },
            None => {
                proof {
                    assert(children_weight(
                        bytes@,
                        layout.shown(),
                        start as int,
                        (i + 1) as nat,
                        depth,
                    ) is None);
                    lemma_children_none(
                        bytes@,
                        layout.shown(),
                        start as int,
                        (i + 1) as nat,
                        count as nat,
                        depth,
                    );
                }
                return None;
            },
        }
    }
    Some(total)
}

fn weigh_object(
    bytes: &Vec<u8>,
    layout: &BinaryLayout,
    index: usize,
    table: &Vec<Option<u64>>,
    Ghost(depth): Ghost<nat>,
) -> (weight: Option<u64>)
    requires
        layout_of(bytes@) == Some(layout.shown()),
        index < layout.count,
        holds_weights(bytes@, layout.shown(), table@, depth),
    ensures
        found_weight(weight) == object_weight(bytes@, layout.shown(), index as int, depth + 1),
{
    let at: usize = match find_object(bytes, layout, index) {
        Some(at) => at,
        None => return None,
    };
    let kind: u8 = bytes[at] / 16;
    if !(kind == 4 || kind == 5 || kind == 6 || kind == 10 || kind == 13) {
        return Some(1);
    }
    let (size, start, length) = match measure(bytes, layout, at) {
        Some(found) => found,
        None => return None,
    };
    if !(kind == 10 || kind == 13) {
        return if (length as u64) < MAX_BINARY_WEIGHT {
            Some(length as u64 + 1)
        } else {
            None
        };
    }
    let ref_width: usize = layout.ref_width;
    let count: usize = if kind == 13 {
        assert(2 * size <= length && (2 * size) * ref_width == length) by (nonlinear_arith)
            requires
                length == size * (2 * ref_width),
                size >= 0,
                ref_width >= 1,
        ;
        2 * size
    } else {
        size
    };
    match weigh_children(bytes, layout, start, count, table, Ghost(depth)) {
        Some(below) => if below < MAX_BINARY_WEIGHT {
            Some(below + 1)
        } else {
            None
        },
        None => None,
    }
}

/// What each object comes to one level deeper, and whether that is anything else.
fn weigh_deeper(
    bytes: &Vec<u8>,
    layout: &BinaryLayout,
    table: &Vec<Option<u64>>,
    Ghost(depth): Ghost<nat>,
) -> (result: (Vec<Option<u64>>, bool))
    requires
        layout_of(bytes@) == Some(layout.shown()),
        holds_weights(bytes@, layout.shown(), table@, depth),
    ensures
        holds_weights(bytes@, layout.shown(), result.0@, depth + 1),
        result.1 ==> settled(bytes@, layout.shown(), depth),
{
    let mut next: Vec<Option<u64>> = Vec::new();
    let mut same = true;
    let mut i: usize = 0;
    while i < layout.count
        invariant
            i <= layout.count,
            layout_of(bytes@) == Some(layout.shown()),
            holds_weights(bytes@, layout.shown(), table@, depth),
            next@.len() == i,
            forall|k: int|
                0 <= k < i ==> found_weight(#[trigger] next@[k]) == object_weight(
                    bytes@,
                    layout.shown(),
                    k,
                    depth + 1,
                ),
            same ==> forall|k: int| 0 <= k < i ==> #[trigger] next@[k] == table@[k],
        decreases layout.count - i,
    {
        let weight = weigh_object(bytes, layout, i, table, Ghost(depth));
        let unchanged = match (weight, table[i]) {
            (Some(a), Some(b)) => a == b,
            (None, None) => true,
            _ => false,
        };
        same = same && unchanged;
        next.push(weight);
        i += 1;
    }
    proof {
        if same {
            assert forall|index: int| 0 <= index implies #[trigger] object_weight(
                bytes@,
                layout.shown(),
                index,
                depth,
            ) == object_weight(bytes@, layout.shown(), index, depth + 1) by {
                if index < layout.count {
                    assert(next@[index] == table@[index]);
                    assert(found_weight(table@[index]) == object_weight(
                        bytes@,
                        layout.shown(),
                        index,
                        depth,
                    ));
                }
            }
        }
    }
    (next, same)
}

/// A binary list that can be read: it is nested no deeper than it may be, and comes
/// to no more than can be held.
pub open spec fn binary_is_safe(bytes: Seq<u8>) -> bool {
    layout_of(bytes) matches Some(layout) && object_weight(
        bytes,
        layout,
        layout.root,
        (MAX_DEPTH + 1) as nat,
    ) is Some
}

/// Tells whether a binary list can be handed to the reader.
pub fn check_binary(bytes: &Vec<u8>) -> (result: bool)
    ensures
        result == binary_is_safe(bytes@),
{
    let layout = match read_layout(bytes) {
        Some(layout) => layout,
        None => return false,
    };
    let ghost shown = layout.shown();
    let mut table: Vec<Option<u64>> = Vec::new();
    let mut i: usize = 0;
    while i < layout.count
        invariant
            i <= layout.count,
            shown == layout.shown(),
            table@.len() == i,
            forall|k: int|
                0 <= k < i ==> found_weight(#[trigger] table@[k]) == object_weight(
                    bytes@,
                    shown,
                    k,
                    0,
                ),
        decreases layout.count - i,
    {
        table.push(None);
        i += 1;
    }
    let mut depth: usize = 0;
    while depth < MAX_DEPTH + 1
        invariant
            depth <= MAX_DEPTH + 1,
            shown == layout.shown(),
            layout_of(bytes@) == Some(shown),
            holds_weights(bytes@, shown, table@, depth as nat),
        decreases MAX_DEPTH + 1 - depth,
    {
        let (next, same) = weigh_deeper(bytes, &layout, &table, Ghost(depth as nat));
        if same {
            proof {
                lemma_settled(
                    bytes@,
                    shown,
                    shown.root,
                    depth as nat,
                    (MAX_DEPTH + 1) as nat,
                );
            }
            assert(found_weight(table@[shown.root]) == object_weight(
                bytes@,
                shown,
                shown.root,
                depth as nat,
            ));
            return table[layout.root].is_some();
        }
        table = next;
        depth += 1;
    }
    assert(found_weight(table@[shown.root]) == object_weight(
        bytes@,
        shown,
        shown.root,
        (MAX_DEPTH + 1) as nat,
    ));
    table[layout.root].is_some()
}

} // verus!
