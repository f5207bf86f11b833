//! Which property lists in text can be handed to their reader, by their bytes. The
//! reader takes them for XML, and for the older form with brackets where no XML
//! begins.
use vstd::prelude::*;

use crate::plist_guard::MAX_DEPTH;

verus! {

/// The first position from `from` on at which one of some bytes stands.
pub open spec fn next_of(bytes: Seq<u8>, wanted: Seq<u8>, from: int) -> int
    decreases bytes.len() - from,
{
    if from >= bytes.len() {
        bytes.len() as int
    } else if wanted.contains(bytes[from]) {
        from
    } else {
        next_of(bytes, wanted, from + 1)
    }
}

fn is_among(byte: u8, wanted: &Vec<u8>) -> (result: bool)
    ensures
        result == wanted@.contains(byte),
{
    let mut i: usize = 0;
    while i < wanted.len()
        invariant
            i <= wanted@.len(),
            forall|k: int| 0 <= k < i ==> #[trigger] wanted@[k] != byte,
        decreases wanted@.len() - i,
    {
        if wanted[i] == byte {
            assert(wanted@[i as int] == byte);
            return true;
        }
        i += 1;
    }
    false
}

fn find_of(bytes: &Vec<u8>, wanted: &Vec<u8>, from: usize) -> (at: usize)
    requires
        from <= bytes@.len(),
    ensures
        at == next_of(bytes@, wanted@, from as int),
        from <= at <= bytes@.len(),
{
    let mut i: usize = from;
    while i < bytes.len() && !is_among(bytes[i], wanted)
        invariant
            from <= i <= bytes@.len(),
            next_of(bytes@, wanted@, from as int) == next_of(bytes@, wanted@, i as int),
        decreases bytes@.len() - i,
    {
        i += 1;
    }
    i
}

/// The first position from `from` on at which no byte of some stands.
pub open spec fn next_other(bytes: Seq<u8>, skipped: Seq<u8>, from: int) -> int
    decreases bytes.len() - from,
{
    if from >= bytes.len() {
        bytes.len() as int
    } else if !skipped.contains(bytes[from]) {
        from
    } else {
        next_other(bytes, skipped, from + 1)
    }
}

fn find_other(bytes: &Vec<u8>, skipped: &Vec<u8>, from: usize) -> (at: usize)
    requires
        from <= bytes@.len(),
    ensures
        at == next_other(bytes@, skipped@, from as int),
        from <= at <= bytes@.len(),
{
    let mut i: usize = from;
    while i < bytes.len() && is_among(bytes[i], skipped)
        invariant
            from <= i <= bytes@.len(),
            next_other(bytes@, skipped@, from as int) == next_other(
                bytes@,
                skipped@,
                i as int,
            ),
        decreases bytes@.len() - i,
    {
        i += 1;
    }
    i
}

/// Bytes stand at a position.
pub open spec fn stand_at(bytes: Seq<u8>, at: int, part: Seq<u8>) -> bool {
    0 <= at && at + part.len() <= bytes.len() && bytes.subrange(at, at + part.len()) == part
}

/// Tells whether bytes stand at a position.
pub fn bytes_at(bytes: &Vec<u8>, at: usize, part: &Vec<u8>) -> (result: bool)
    requires
        at <= bytes@.len(),
    ensures
        result == stand_at(bytes@, at as int, part@),
{
    let total: usize = bytes.len();
    if part.len() > total - at {
        return false;
    }
    let ghost found = bytes@.subrange(at as int, at + part@.len());
    let mut i: usize = 0;
    while i < part.len()
        invariant
            i <= part@.len(),
            at + part@.len() <= total,
            total == bytes@.len(),
            found == bytes@.subrange(at as int, at + part@.len()),
            forall|k: int| 0 <= k < i ==> #[trigger] part@[k] == found[k],
        decreases part@.len() - i,
    {
        if bytes[at + i] != part[i] {
            assert(found[i as int] != part@[i as int]);
            return false;
        }
        assert(found[i as int] == part@[i as int]);
        i += 1;
    }
    assert(found =~= part@);
    true
}

/// The first `>` from `from` on that some bytes stand in front of.
pub open spec fn closing_at(bytes: Seq<u8>, from: int, front: Seq<u8>) -> int
    decreases bytes.len() - from,
{
    if from >= bytes.len() {
        bytes.len() as int
    } else if bytes[from] == 62 && stand_at(bytes, from - front.len(), front) {
        from
    } else {
        closing_at(bytes, from + 1, front)
    }
}

/// Finds the `>` that stands at least `behind` bytes behind `start` with `front` in
/// front of it; none where there is none.
fn find_closing(bytes: &Vec<u8>, start: usize, behind: usize, front: &Vec<u8>) -> (at: Option<
    usize,
>)
    requires
        start <= bytes@.len(),
        behind <= 16,
    ensures
        match at {
            Some(found) => found == closing_at(bytes@, start + behind, front@) && start + behind
                <= found < bytes@.len(),
            None => closing_at(bytes@, start + behind, front@) >= bytes@.len(),
        },
{
    let total: usize = bytes.len();
    if total - start <= behind {
        return None;
    }
    let mut i: usize = start + behind;
    while i < total
        invariant
            start + behind <= i <= total,
            total == bytes@.len(),
            closing_at(bytes@, start + behind, front@) == closing_at(bytes@, i as int, front@),
        decreases total - i,
    {
        if bytes[i] == 62 && front.len() <= i && bytes_at(bytes, i - front.len(), front) {
            return Some(i);
        }
        i += 1;
    }
    None
}

/// White space between the parts of a tag.
pub open spec fn tag_spaces() -> Seq<u8> {
    seq![32u8, 9, 10, 13]
}

/// The quotation mark that is open behind a byte.
pub open spec fn quote_after(quote: u8, byte: u8) -> u8 {
    if quote == 0 && (byte == 34 || byte == 39) {
        byte
    } else if quote == byte {
        0
    } else {
        quote
    }
}

/// The first of some bytes from `from` on that does not stand inside quotation
/// marks. `quote` is the quotation mark that is open there, else zero.
pub open spec fn next_unquoted(bytes: Seq<u8>, wanted: Seq<u8>, from: int, quote: u8) -> int
    decreases bytes.len() - from,
{
    if from >= bytes.len() {
        bytes.len() as int
    } else if quote == 0 && wanted.contains(bytes[from]) {
        from
    } else {
        next_unquoted(bytes, wanted, from + 1, quote_after(quote, bytes[from]))
    }
}

proof fn lemma_unquoted_from(bytes: Seq<u8>, wanted: Seq<u8>, from: int, quote: u8)
    requires
        from <= bytes.len(),
    ensures
        from <= next_unquoted(bytes, wanted, from, quote),
    decreases bytes.len() - from,
{
    if from < bytes.len() && !(quote == 0 && wanted.contains(bytes[from])) {
        lemma_unquoted_from(bytes, wanted, from + 1, quote_after(quote, bytes[from]));
    }
}

/// Finds the first of some bytes outside of quotation marks.
fn find_unquoted(bytes: &Vec<u8>, wanted: &Vec<u8>, start: usize, behind: usize) -> (at: Option<
    usize,
>)
    requires
        start <= bytes@.len(),
        behind <= 16,
    ensures
        match at {
            Some(found) => found == next_unquoted(bytes@, wanted@, start + behind, 0) && start
                + behind <= found < bytes@.len(),
            None => next_unquoted(bytes@, wanted@, start + behind, 0) >= bytes@.len(),
        },
{
    let total: usize = bytes.len();
    if total - start <= behind {
        return None;
    }
    let mut i: usize = start + behind;
    let mut quote: u8 = 0;
    while i < total
        invariant
            start + behind <= i <= total,
            total == bytes@.len(),
            next_unquoted(bytes@, wanted@, start + behind, 0) == next_unquoted(
                bytes@,
                wanted@,
                i as int,
                quote,
            ),
        decreases total - i,
    {
        let byte: u8 = bytes[i];
        if quote == 0 && is_among(byte, wanted) {
            return Some(i);
        }
        quote = if quote == 0 && (byte == 34 || byte == 39) {
            byte
        } else if quote == byte {
            0
        } else {
            quote
        };
        i += 1;
    }
    None
}

/// `<!--`, behind its first byte.
pub open spec fn comment_mark() -> Seq<u8> {
    seq![33u8, 45, 45]
}

/// `![CDATA[`
pub open spec fn data_mark() -> Seq<u8> {
    seq![33u8, 91, 67, 68, 65, 84, 65, 91]
}

/// `!ENTITY`
pub open spec fn entity_mark() -> Seq<u8> {
    seq![33u8, 69, 78, 84, 73, 84, 89]
}

/// `!ATTLIST`
pub open spec fn attributes_mark() -> Seq<u8> {
    seq![33u8, 65, 84, 84, 76, 73, 83, 84]
}

/// `!NOTATION`
pub open spec fn notation_mark() -> Seq<u8> {
    seq![33u8, 78, 79, 84, 65, 84, 73, 79, 78]
}

/// Where a declaration ends inside the brackets of a document type that starts at a
/// position.
pub open spec fn declaration_end(bytes: Seq<u8>, i: int) -> int {
    if i + 1 < bytes.len() && bytes[i + 1] == 63 {
        closing_at(bytes, i + 3, seq![63u8])
    } else if stand_at(bytes, i + 1, comment_mark()) {
        closing_at(bytes, i + 6, seq![45u8, 45])
    } else if stand_at(bytes, i + 1, entity_mark()) {
        next_unquoted(bytes, seq![62u8], i + 8, 0)
    } else if stand_at(bytes, i + 1, attributes_mark()) {
        next_unquoted(bytes, seq![62u8], i + 9, 0)
    } else if stand_at(bytes, i + 1, notation_mark()) {
        next_unquoted(bytes, seq![62u8], i + 10, 0)
    } else {
        next_of(bytes, seq![62u8], i + 1)
    }
}

fn find_declaration_end(bytes: &Vec<u8>, i: usize) -> (at: Option<usize>)
    requires
        i < bytes@.len(),
    ensures
        match at {
            Some(found) => found == declaration_end(bytes@, i as int) && i < found
                < bytes@.len(),
            None => declaration_end(bytes@, i as int) >= bytes@.len(),
        },
{
    let total: usize = bytes.len();
    let close: Vec<u8> = vec![62];
    assert(close@ =~= seq![62u8]);
    if i + 1 < total && bytes[i + 1] == 63 {
        let mark: Vec<u8> = vec![63];
        assert(mark@ =~= seq![63u8]);
        return find_closing(bytes, i, 3, &mark);
    }
    let comment: Vec<u8> = vec![33, 45, 45];
    assert(comment@ =~= comment_mark());
    if bytes_at(bytes, i + 1, &comment) {
        let dashes: Vec<u8> = vec![45, 45];
        assert(dashes@ =~= seq![45u8, 45]);
        return find_closing(bytes, i, 6, &dashes);
    }
    let entity: Vec<u8> = vec![33, 69, 78, 84, 73, 84, 89];
    assert(entity@ =~= entity_mark());
    if bytes_at(bytes, i + 1, &entity) {
        return find_unquoted(bytes, &close, i, 8);
    }
    let attributes: Vec<u8> = vec![33, 65, 84, 84, 76, 73, 83, 84];
    assert(attributes@ =~= attributes_mark());
    if bytes_at(bytes, i + 1, &attributes) {
        return find_unquoted(bytes, &close, i, 9);
    }
    let notation: Vec<u8> = vec![33, 78, 79, 84, 65, 84, 73, 79, 78];
    assert(notation@ =~= notation_mark());
    if bytes_at(bytes, i + 1, &notation) {
        return find_unquoted(bytes, &close, i, 10);
    }
    let at: usize = find_of(bytes, &close, i + 1);
    if at < total {
        Some(at)
    } else {
        None
    }
}

/// Where the brackets of a document type end whose content goes on at `from`: at
/// the first `]` outside of a declaration.
pub open spec fn brackets_end(bytes: Seq<u8>, from: int) -> int
    decreases bytes.len() - from,
{
    let at = next_of(bytes, seq![93u8, 60], from);
    if at >= bytes.len() || bytes[at] == 93 {
        at
    } else {
        let end = declaration_end(bytes, at);
        if from <= end < bytes.len() {
            brackets_end(bytes, end + 1)
        } else {
            bytes.len() as int
        }
    }
}

fn find_brackets_end(bytes: &Vec<u8>, from: usize) -> (at: usize)
    requires
        from <= bytes@.len(),
    ensures
        at == brackets_end(bytes@, from as int),
        from <= at <= bytes@.len(),
{
    let wanted: Vec<u8> = vec![93, 60];
    assert(wanted@ =~= seq![93u8, 60]);
    let mut i: usize = from;
    loop
        invariant
            from <= i <= bytes@.len(),
            wanted@ == seq![93u8, 60],
            brackets_end(bytes@, from as int) == brackets_end(bytes@, i as int),
        decreases bytes@.len() - i,
    {
        let at: usize = find_of(bytes, &wanted, i);
        if at >= bytes.len() || bytes[at] == 93 {
            return at;
        }
        match find_declaration_end(bytes, at) {
            Some(end) => {
                i = end + 1;
            },
            None => {
                return bytes.len();
            },
        }
    }
}

/// Where a document type ends that starts at a position.
pub open spec fn document_type_end(bytes: Seq<u8>, i: int) -> int {
    let at = next_unquoted(bytes, seq![91u8, 62], i + 2, 0);
    if at < bytes.len() && bytes[at] == 91 {
        let end = brackets_end(bytes, at + 1);
        if end < bytes.len() {
            next_of(bytes, seq![62u8], end + 1)
        } else {
            end
        }
    } else {
        at
    }
}

fn find_document_type_end(bytes: &Vec<u8>, i: usize) -> (at: Option<usize>)
    requires
        i < bytes@.len(),
    ensures
        match at {
            Some(found) => found == document_type_end(bytes@, i as int) && i < found
                < bytes@.len(),
            None => document_type_end(bytes@, i as int) >= bytes@.len(),
        },
{
    let wanted: Vec<u8> = vec![91, 62];
    let close: Vec<u8> = vec![62];
    assert(wanted@ =~= seq![91u8, 62]);
    assert(close@ =~= seq![62u8]);
    let total: usize = bytes.len();
    match find_unquoted(bytes, &wanted, i, 2) {
        Some(at) => {
            if bytes[at] != 91 {
                return Some(at);
            }
            let end: usize = find_brackets_end(bytes, at + 1);
            if end >= total {
                return None;
            }
            let last: usize = find_of(bytes, &close, end + 1);
            if last < total {
                Some(last)
            } else {
                None
            }
        },
        None => None,
    }
}

/// What starts with a `<`: a tag that opens an element or closes one, or what is
/// passed over; with the position behind it. One that does not end is broken.
pub enum PieceView {
    Opened { end: int },
    Closed { end: int },
    Skipped { end: int },
    Broken,
}

/// What starts at a `<`.
pub open spec fn piece_at(bytes: Seq<u8>, i: int) -> PieceView {
    if i + 1 >= bytes.len() {
        PieceView::Broken
    } else if bytes[i + 1] == 33 {
        let last = if stand_at(bytes, i + 1, comment_mark()) {
            closing_at(bytes, i + 6, seq![45u8, 45])
        } else if stand_at(bytes, i + 1, data_mark()) {
            closing_at(bytes, i + 11, seq![93u8, 93])
        } else if i + 2 < bytes.len() && (bytes[i + 2] == 68 || bytes[i + 2] == 100) {
            document_type_end(bytes, i)
        } else {
            bytes.len() as int
        };
        if last < bytes.len() {
            PieceView::Skipped { end: last + 1 }
        } else {
            PieceView::Broken
        }
    } else if bytes[i + 1] == 63 {
        let last = closing_at(bytes, i + 2, seq![63u8]);
        if last < bytes.len() {
            PieceView::Skipped { end: last + 1 }
        } else {
            PieceView::Broken
        }
    } else {
        let last = next_unquoted(bytes, seq![62u8], i + 1, 0);
        if last >= bytes.len() {
            PieceView::Broken
        } else if bytes[i + 1] == 47 {
            PieceView::Closed { end: last + 1 }
        } else {
            PieceView::Opened { end: last + 1 }
        }
    }
}

enum Piece {
    Opened(usize),
    Closed(usize),
    Skipped(usize),
    Broken,
}

impl Piece {
    spec fn shown(self) -> PieceView {
        match self {
            Piece::Opened(end) => PieceView::Opened { end: end as int },
            Piece::Closed(end) => PieceView::Closed { end: end as int },
            Piece::Skipped(end) => PieceView::Skipped { end: end as int },
            Piece::Broken => PieceView::Broken,
        }
    }

    /// The piece ends behind where it starts, and inside the list.
    spec fn lies_in(self, bytes: Seq<u8>, i: int) -> bool {
        match self {
            Piece::Opened(end) => i + 1 < end <= bytes.len(),
            Piece::Closed(end) => i + 2 < end <= bytes.len(),
            Piece::Skipped(end) => i + 1 < end <= bytes.len(),
            Piece::Broken => true,
        }
    }
}

fn read_piece(bytes: &Vec<u8>, i: usize) -> (piece: Piece)
    requires
        i < bytes@.len(),
    ensures
        piece.shown() == piece_at(bytes@, i as int),
        piece.lies_in(bytes@, i as int),
{
    let total: usize = bytes.len();
    if i + 1 >= total {
        return Piece::Broken;
    }
    if bytes[i + 1] == 33 {
        let comment: Vec<u8> = vec![33, 45, 45];
        let data: Vec<u8> = vec![33, 91, 67, 68, 65, 84, 65, 91];
        assert(comment@ =~= comment_mark());
        assert(data@ =~= data_mark());
        let last = if bytes_at(bytes, i + 1, &comment) {
            let dashes: Vec<u8> = vec![45, 45];
            assert(dashes@ =~= seq![45u8, 45]);
            find_closing(bytes, i, 6, &dashes)
        } else if bytes_at(bytes, i + 1, &data) {
            let brackets: Vec<u8> = vec![93, 93];
            assert(brackets@ =~= seq![93u8, 93]);
            find_closing(bytes, i, 11, &brackets)
        } else if i + 2 < total && (bytes[i + 2] == 68 || bytes[i + 2] == 100) {
            find_document_type_end(bytes, i)
        } else {
            None
        };
        return match last {
            Some(at) => Piece::Skipped(at + 1),
            None => Piece::Broken,
        };
    }
    if bytes[i + 1] == 63 {
        let mark: Vec<u8> = vec![63];
        assert(mark@ =~= seq![63u8]);
        return match find_closing(bytes, i, 2, &mark) {
            Some(at) => Piece::Skipped(at + 1),
            None => Piece::Broken,
        };
    }
    let close: Vec<u8> = vec![62];
    assert(close@ =~= seq![62u8]);
    proof {
        assert(!close@.contains(47u8));
        lemma_unquoted_from(bytes@, close@, i + 2, 0);
    }
    match find_unquoted(bytes, &close, i, 1) {
        Some(at) => if bytes[i + 1] == 47 {
            Piece::Closed(at + 1)
        } else {
            Piece::Opened(at + 1)
        },
        None => Piece::Broken,
    }
}

/// Where a name ends that goes on at `from`: at white space, or at `to`.
pub open spec fn name_end(bytes: Seq<u8>, from: int, to: int) -> int
    decreases to - from,
{
    if from >= to || tag_spaces().contains(bytes[from]) {
        from
    } else {
        name_end(bytes, from + 1, to)
    }
}

fn find_name_end(bytes: &Vec<u8>, from: usize, to: usize) -> (end: usize)
    requires
        from <= to <= bytes@.len(),
    ensures
        end == name_end(bytes@, from as int, to as int),
        from <= end <= to,
{
    let spaces: Vec<u8> = vec![32, 9, 10, 13];
    assert(spaces@ =~= tag_spaces());
    let mut i: usize = from;
    while i < to && !is_among(bytes[i], &spaces)
        invariant
            from <= i <= to <= bytes@.len(),
            spaces@ == tag_spaces(),
            name_end(bytes@, from as int, to as int) == name_end(bytes@, i as int, to as int),
        decreases to - i,
    {
        i += 1;
    }
    i
}

/// The end of a text without the white space at its end.
pub open spec fn text_end(bytes: Seq<u8>, from: int, to: int) -> int
    decreases to - from,
{
    if from < to && tag_spaces().contains(bytes[to - 1]) {
        text_end(bytes, from, to - 1)
    } else {
        to
    }
}

fn find_text_end(bytes: &Vec<u8>, from: usize, to: usize) -> (end: usize)
    requires
        from <= to <= bytes@.len(),
    ensures
        end == text_end(bytes@, from as int, to as int),
        from <= end <= to,
{
    let spaces: Vec<u8> = vec![32, 9, 10, 13];
    assert(spaces@ =~= tag_spaces());
    let mut i: usize = to;
    while from < i && is_among(bytes[i - 1], &spaces)
        invariant
            from <= i <= to <= bytes@.len(),
            spaces@ == tag_spaces(),
            text_end(bytes@, from as int, to as int) == text_end(bytes@, from as int, i as int),
        decreases i,
    {
        i -= 1;
    }
    i
}

/// A text is a name, with a prefix or without.
pub open spec fn is_named(bytes: Seq<u8>, from: int, to: int, name: Seq<u8>) -> bool {
    &&& from + name.len() <= to
    &&& stand_at(bytes, to - name.len(), name)
    &&& from + name.len() == to || bytes[to - name.len() - 1] == 58
}

fn has_name(bytes: &Vec<u8>, from: usize, to: usize, name: &Vec<u8>) -> (result: bool)
    requires
        from <= to <= bytes@.len(),
    ensures
        result == is_named(bytes@, from as int, to as int, name@),
{
    if name.len() > to - from {
        return false;
    }
    let start: usize = to - name.len();
    bytes_at(bytes, start, name) && (start == from || bytes[start - 1] == 58)
}

/// `array`
pub open spec fn array_name() -> Seq<u8> {
    seq![97u8, 114, 114, 97, 121]
}

/// `dict`
pub open spec fn dict_name() -> Seq<u8> {
    seq![100u8, 105, 99, 116]
}

/// `date`
pub open spec fn date_name() -> Seq<u8> {
    seq![100u8, 97, 116, 101]
}

/// `plist`
pub open spec fn plist_name() -> Seq<u8> {
    seq![112u8, 108, 105, 115, 116]
}

/// The tag between two positions opens an element and closes it again.
pub open spec fn closes_itself(bytes: Seq<u8>, i: int, end: int) -> bool {
    i + 2 < end && bytes[end - 2] == 47
}

/// The tag between two positions opens an element with a name.
pub open spec fn opens(bytes: Seq<u8>, i: int, end: int, name: Seq<u8>) -> bool {
    let to = if closes_itself(bytes, i, end) {
        end - 2
    } else {
        end - 1
    };
    is_named(bytes, i + 1, name_end(bytes, i + 1, to), name)
}

fn does_open(bytes: &Vec<u8>, i: usize, end: usize, name: &Vec<u8>) -> (result: bool)
    requires
        i + 1 < end <= bytes@.len(),
    ensures
        result == opens(bytes@, i as int, end as int, name@),
{
    let to: usize = if end - i > 2 && bytes[end - 2] == 47 {
        end - 2
    } else {
        end - 1
    };
    has_name(bytes, i + 1, find_name_end(bytes, i + 1, to), name)
}

/// The tag between two positions opens an array or a dictionary.
pub open spec fn opens_container(bytes: Seq<u8>, i: int, end: int) -> bool {
    opens(bytes, i, end, array_name()) || opens(bytes, i, end, dict_name())
}

fn does_open_container(bytes: &Vec<u8>, i: usize, end: usize) -> (result: bool)
    requires
        i + 1 < end <= bytes@.len(),
    ensures
        result == opens_container(bytes@, i as int, end as int),
{
    let array: Vec<u8> = vec![97, 114, 114, 97, 121];
    let dict: Vec<u8> = vec![100, 105, 99, 116];
    assert(array@ =~= array_name());
    assert(dict@ =~= dict_name());
    does_open(bytes, i, end, &array) || does_open(bytes, i, end, &dict)
}

/// The tag between two positions closes an array or a dictionary.
pub open spec fn closes_container(bytes: Seq<u8>, i: int, end: int) -> bool {
    let to = text_end(bytes, i + 2, end - 1);
    is_named(bytes, i + 2, to, array_name()) || is_named(bytes, i + 2, to, dict_name())
}

fn does_close_container(bytes: &Vec<u8>, i: usize, end: usize) -> (result: bool)
    requires
        i + 2 < end <= bytes@.len(),
    ensures
        result == closes_container(bytes@, i as int, end as int),
{
    let array: Vec<u8> = vec![97, 114, 114, 97, 121];
    let dict: Vec<u8> = vec![100, 105, 99, 116];
    assert(array@ =~= array_name());
    assert(dict@ =~= dict_name());
    let to: usize = find_text_end(bytes, i + 2, end - 1);
    has_name(bytes, i + 2, to, &array) || has_name(bytes, i + 2, to, &dict)
}

/// The digit that a byte is, decimal or hexadecimal.
pub open spec fn digit_value(byte: u8, hexadecimal: bool) -> Option<nat> {
    if 48 <= byte <= 57 {
        Some((byte - 48) as nat)
    } else if hexadecimal && 97 <= byte <= 102 {
        Some((byte - 87) as nat)
    } else if hexadecimal && 65 <= byte <= 70 {
        Some((byte - 55) as nat)
    } else {
        None
    }
}

/// The number behind the last character there is.
pub const CODE_LIMIT: u32 = 1_114_112;

/// The number that digits spell; one that is no character is as good as the limit.
pub open spec fn code_of(digits: Seq<u8>, hexadecimal: bool) -> Option<nat>
    decreases digits.len(),
{
    if digits.len() == 0 {
        Some(0)
    } else {
        match (
            code_of(digits.drop_last(), hexadecimal),
            digit_value(digits.last(), hexadecimal),
        ) {
            (Some(front), Some(digit)) => {
                let code = front * if hexadecimal {
                    16nat
                } else {
                    10nat
                } + digit;
                if code < CODE_LIMIT {
                    Some(code)
                } else {
                    Some(CODE_LIMIT as nat)
                }
            },
            _ => None,
        }
    }
}

/// The byte of a character that a reference gives by its number; one that is not
/// ASCII counts as a byte that no date holds.
pub open spec fn numbered_byte(digits: Seq<u8>, hexadecimal: bool) -> Option<u8> {
    match code_of(digits, hexadecimal) {
        Some(code) => if digits.len() == 0 || code == 0 || code >= CODE_LIMIT || 0xD800 <= code
            <= 0xDFFF {
            None
        } else if code < 128 {
            Some(code as u8)
        } else {
            Some(255u8)
        },
        None => None,
    }
}

fn read_numbered_byte(bytes: &Vec<u8>, from: usize, to: usize, hexadecimal: bool) -> (result: Option<
    u8,
>)
    requires
        from <= to <= bytes@.len(),
    ensures
        result == numbered_byte(bytes@.subrange(from as int, to as int), hexadecimal),
{
    let ghost digits = bytes@.subrange(from as int, to as int);
    let mut code: u32 = 0;
    let mut i: usize = from;
    assert(digits.take(0) =~= Seq::empty());
    while i < to
        invariant
            from <= i <= to <= bytes@.len(),
            digits == bytes@.subrange(from as int, to as int),
            code <= CODE_LIMIT,
            code_of(digits.take(i - from), hexadecimal) == Some(code as nat),
        decreases to - i,
    {
        let byte: u8 = bytes[i];
        let digit: u32 = if 48 <= byte && byte <= 57 {
            (byte - 48) as u32
        } else if hexadecimal && 97 <= byte && byte <= 102 {
            (byte - 87) as u32
        } else if hexadecimal && 65 <= byte && byte <= 70 {
            (byte - 55) as u32
        } else {
            16
        };
        proof {
            let front = digits.take(i - from);
            let more = digits.take(i + 1 - from);
            assert(more.drop_last() =~= front);
            assert(more.last() == byte);
            if digit == 16 {
                lemma_no_code(digits, i + 1 - from, hexadecimal);
            }
        }
        if digit == 16 {
            return None;
        }
        let radix: u32 = if hexadecimal {
            16
        } else {
            10
        };
        let next: u32 = code * radix + digit;
        code = if next < CODE_LIMIT {
            next
        } else {
            CODE_LIMIT
        };
        i += 1;
    }
    assert(digits.take(i - from) =~= digits);
    if from == to || code == 0 || code >= CODE_LIMIT || (0xD800 <= code && code <= 0xDFFF) {
        None
    } else if code < 128 {
        Some(code as u8)
    } else {
        Some(255)
    }
}

/// Digits whose start is no number are none.
proof fn lemma_no_code(digits: Seq<u8>, count: int, hexadecimal: bool)
    requires
        0 <= count <= digits.len(),
        code_of(digits.take(count), hexadecimal) is None,
    ensures
        code_of(digits, hexadecimal) is None,
    decreases digits.len() - count,
{
    if count < digits.len() {
        let more = digits.take(count + 1);
        assert(more.drop_last() =~= digits.take(count));
        lemma_no_code(digits, count + 1, hexadecimal);
    } else {
        assert(digits.take(count) =~= digits);
    }
}

/// What a reference stands for, by what stands between `&` and `;`: a character, or
/// nothing where its name says nothing; none where it cannot be read.
pub open spec fn referred(name: Seq<u8>) -> Option<Seq<u8>> {
    if name.len() > 0 && name[0] == 35 {
        let number = if name.len() > 1 && name[1] == 120 {
            numbered_byte(name.skip(2), true)
        } else {
            numbered_byte(name.skip(1), false)
        };
        match number {
            Some(byte) => Some(seq![byte]),
            None => None,
        }
    } else if name == seq![108u8, 116] {
        Some(seq![60u8])
    } else if name == seq![103u8, 116] {
        Some(seq![62u8])
    } else if name == seq![97u8, 109, 112] {
        Some(seq![38u8])
    } else if name == seq![97u8, 112, 111, 115] {
        Some(seq![39u8])
    } else if name == seq![113u8, 117, 111, 116] {
        Some(seq![34u8])
    } else {
        Some(Seq::empty())
    }
}

fn is_text(bytes: &Vec<u8>, from: usize, to: usize, text: &Vec<u8>) -> (result: bool)
    requires
        from <= to <= bytes@.len(),
    ensures
        result == (bytes@.subrange(from as int, to as int) == text@),
{
    let ghost part = bytes@.subrange(from as int, to as int);
    if to - from != text.len() {
        assert(part.len() != text@.len());
        return false;
    }
    bytes_at(bytes, from, text)
}

fn read_reference(bytes: &Vec<u8>, from: usize, to: usize) -> (result: Option<Vec<u8>>)
    requires
        from <= to <= bytes@.len(),
    ensures
        match result {
            Some(text) => referred(bytes@.subrange(from as int, to as int)) == Some(text@),
            None => referred(bytes@.subrange(from as int, to as int)) is None,
        },
{
    let ghost name = bytes@.subrange(from as int, to as int);
    if from < to && bytes[from] == 35 {
        let number = if from + 1 < to && bytes[from + 1] == 120 {
            assert(name.skip(2) =~= bytes@.subrange(from + 2, to as int));
            read_numbered_byte(bytes, from + 2, to, true)
        } else {
            assert(name.skip(1) =~= bytes@.subrange(from + 1, to as int));
            read_numbered_byte(bytes, from + 1, to, false)
        };
        return match number {
            Some(byte) => {
                let text: Vec<u8> = vec![byte];
                assert(text@ =~= seq![byte]);
                Some(text)
            },
            None => None,
        };
    }
    let less: Vec<u8> = vec![108, 116];
    let more: Vec<u8> = vec![103, 116];
    let also: Vec<u8> = vec![97, 109, 112];
    let single: Vec<u8> = vec![97, 112, 111, 115];
    let double: Vec<u8> = vec![113, 117, 111, 116];
    assert(less@ =~= seq![108u8, 116]);
    assert(more@ =~= seq![103u8, 116]);
    assert(also@ =~= seq![97u8, 109, 112]);
    assert(single@ =~= seq![97u8, 112, 111, 115]);
    assert(double@ =~= seq![113u8, 117, 111, 116]);
    let mut text: Vec<u8> = Vec::new();
    if is_text(bytes, from, to, &less) {
        text.push(60);
        assert(text@ =~= seq![60u8]);
    } else if is_text(bytes, from, to, &more) {
        text.push(62);
        assert(text@ =~= seq![62u8]);
    } else if is_text(bytes, from, to, &also) {
        text.push(38);
        assert(text@ =~= seq![38u8]);
    } else if is_text(bytes, from, to, &single) {
        text.push(39);
        assert(text@ =~= seq![39u8]);
    } else if is_text(bytes, from, to, &double) {
        text.push(34);
        assert(text@ =~= seq![34u8]);
    } else {
        assert(text@ =~= Seq::empty());
    }
    Some(text)
}

/// The content of an element, and the position behind the element; none where it
/// cannot be read. Comments and the like are passed over.
pub open spec fn content_of(bytes: Seq<u8>, at: int, before: Seq<u8>) -> Option<(Seq<u8>, int)>
    decreases bytes.len() - at,
{
    let to = next_of(bytes, seq![60u8, 38], at);
    if !(at <= to < bytes.len()) {
        None
    } else {
        let text = before + bytes.subrange(at, to);
        if bytes[to] == 38 {
            let end = next_of(bytes, seq![59u8, 60, 38], to + 1);
            if to < end < bytes.len() && bytes[end] == 59 {
                match referred(bytes.subrange(to + 1, end)) {
                    Some(more) => content_of(bytes, end + 1, text + more),
                    None => None,
                }
            } else {
                None
            }
        } else {
            match piece_at(bytes, to) {
                PieceView::Closed { end } => Some((text, end)),
                PieceView::Skipped { end } => if to < end {
                    content_of(bytes, end, text)
                } else {
                    None
                },
                _ => None,
            }
        }
    }
}

fn read_content(bytes: &Vec<u8>, from: usize) -> (result: Option<(Vec<u8>, usize)>)
    requires
        from <= bytes@.len(),
    ensures
        match result {
            Some((text, end)) => content_of(bytes@, from as int, Seq::empty()) == Some(
                (text@, end as int),
            ) && from < end <= bytes@.len(),
            None => content_of(bytes@, from as int, Seq::empty()) is None,
        },
{
    let markup: Vec<u8> = vec![60, 38];
    let stops: Vec<u8> = vec![59, 60, 38];
    assert(markup@ =~= seq![60u8, 38]);
    assert(stops@ =~= seq![59u8, 60, 38]);
    let ghost whole = content_of(bytes@, from as int, Seq::empty());
    let total: usize = bytes.len();
    let mut text: Vec<u8> = Vec::new();
    let mut at: usize = from;
    assert(text@ =~= Seq::empty());
    loop
        invariant
            from <= at <= total,
            total == bytes@.len(),
            markup@ == seq![60u8, 38],
            stops@ == seq![59u8, 60, 38],
            whole == content_of(bytes@, from as int, Seq::empty()),
            whole == content_of(bytes@, at as int, text@),
        decreases total - at,
    {
        let to: usize = find_of(bytes, &markup, at);
        if to >= total {
            return None;
        }
        let ghost before = text@;
        push_part(&mut text, bytes, at, to);
        if bytes[to] == 38 {
            let end: usize = find_of(bytes, &stops, to + 1);
            if end >= total || bytes[end] != 59 {
                return None;
            }
            match read_reference(bytes, to + 1, end) {
                Some(more) => {
                    push_part(&mut text, &more, 0, more.len());
                    assert(more@.subrange(0, more@.len() as int) =~= more@);
                    at = end + 1;
                },
                None => {
                    return None;
                },
            }
        } else {
            match read_piece(bytes, to) {
                Piece::Closed(end) => {
                    return Some((text, end));
                },
                Piece::Skipped(end) => {
                    at = end;
                },
                _ => {
                    return None;
                },
            }
        }
    }
}

fn push_part(text: &mut Vec<u8>, bytes: &Vec<u8>, from: usize, to: usize)
    requires
        from <= to <= bytes@.len(),
    ensures
        final(text)@ == old(text)@ + bytes@.subrange(from as int, to as int),
{
    let ghost before = text@;
    let mut i: usize = from;
    assert(before + bytes@.subrange(from as int, from as int) =~= before);
    while i < to
        invariant
            from <= i <= to <= bytes@.len(),
            text@ == before + bytes@.subrange(from as int, i as int),
        decreases to - i,
    {
        text.push(bytes[i]);
        i += 1;
        assert(text@ =~= before + bytes@.subrange(from as int, i as int));
    }
}

/// The last day that the reader can hold: `9999-12-31`.
pub open spec fn last_day() -> Seq<u8> {
    seq![57u8, 57, 57, 57, 45, 49, 50, 45, 51, 49]
}

/// The number that two digits spell.
pub open spec fn two_digits(text: Seq<u8>, at: int) -> int {
    (text[at] - 48) * 10 + (text[at + 1] - 48)
}

/// A date of the last day is a later day in UTC: with the offset that it is written
/// with, its seconds are more than a day has.
pub open spec fn beyond_last_day(text: Seq<u8>) -> bool {
    let end = text.len() as int;
    &&& end >= 25
    &&& stand_at(text, 0, last_day())
    &&& text[end - 6] == 45
    &&& {
        let second = two_digits(text, 17);
        two_digits(text, 11) * 3600 + two_digits(text, 14) * 60 + (if second > 59 {
            59
        } else {
            second
        }) + two_digits(text, end - 5) * 3600 + two_digits(text, end - 2) * 60 >= 86400
    }
}

fn read_two_digits(text: &Vec<u8>, at: usize) -> (value: i64)
    requires
        at + 1 < text@.len(),
    ensures
        value == two_digits(text@, at as int),
        -1000 <= value <= 10000,
{
    let total: usize = text.len();
    assert(at + 1 < total);
    (text[at] as i64 - 48) * 10 + (text[at + 1] as i64 - 48)
}

fn is_beyond_last_day(text: &Vec<u8>) -> (result: bool)
    ensures
        result == beyond_last_day(text@),
{
    let day: Vec<u8> = vec![57, 57, 57, 57, 45, 49, 50, 45, 51, 49];
    assert(day@ =~= last_day());
    let end: usize = text.len();
    if end < 25 || !bytes_at(text, 0, &day) || text[end - 6] != 45 {
        return false;
    }
    let second: i64 = read_two_digits(text, 17);
    let held: i64 = if second > 59 {
        59
    } else {
        second
    };
    let hours: i64 = read_two_digits(text, 11) + read_two_digits(text, end - 5);
    let minutes: i64 = read_two_digits(text, 14) + read_two_digits(text, end - 2);
    hours * 3600 + minutes * 60 + held >= 86400
}

/// From a position on, a list in XML nests its arrays and dictionaries no deeper
/// than it may, and holds no date that is beyond the last day. `depth` is how deep
/// they are nested there. What follows something broken is not read.
pub open spec fn xml_is_safe(bytes: Seq<u8>, at: int, depth: nat) -> bool
    decreases bytes.len() - at,
{
    let i = next_of(bytes, seq![60u8], at);
    if !(at <= i < bytes.len()) {
        true
    } else {
        match piece_at(bytes, i) {
            PieceView::Broken => true,
            PieceView::Skipped { end } => i < end ==> xml_is_safe(bytes, end, depth),
            PieceView::Closed { end } => i < end ==> xml_is_safe(
                bytes,
                end,
                if closes_container(bytes, i, end) && depth > 0 {
                    (depth - 1) as nat
                } else {
                    depth
                },
            ),
            PieceView::Opened { end } => i < end ==> if opens_container(bytes, i, end) {
                depth < MAX_DEPTH && xml_is_safe(
                    bytes,
                    end,
                    if closes_itself(bytes, i, end) {
                        depth
                    } else {
                        depth + 1
                    },
                )
            } else if opens(bytes, i, end, date_name()) && !closes_itself(bytes, i, end) {
                match content_of(bytes, end, Seq::empty()) {
                    Some((text, behind)) => !beyond_last_day(text) && (i < behind
                        <= bytes.len() ==> xml_is_safe(bytes, behind, depth)),
                    None => true,
                }
            } else {
                xml_is_safe(bytes, end, depth)
            },
        }
    }
}

fn check_xml(bytes: &Vec<u8>) -> (result: bool)
    ensures
        result == xml_is_safe(bytes@, 0, 0),
{
    let open: Vec<u8> = vec![60];
    let date: Vec<u8> = vec![100, 97, 116, 101];
    assert(open@ =~= seq![60u8]);
    assert(date@ =~= date_name());
    let total: usize = bytes.len();
    let mut at: usize = 0;
    let mut depth: usize = 0;
    loop
        invariant
            at <= total,
            total == bytes@.len(),
            depth <= MAX_DEPTH,
            open@ == seq![60u8],
            date@ == date_name(),
            xml_is_safe(bytes@, 0, 0) == xml_is_safe(bytes@, at as int, depth as nat),
        decreases total - at,
    {
        let i: usize = find_of(bytes, &open, at);
        if i >= total {
            return true;
        }
        match read_piece(bytes, i) {
            Piece::Broken => {
                return true;
            },
            Piece::Skipped(end) => {
                at = end;
            },
            Piece::Closed(end) => {
                if does_close_container(bytes, i, end) && depth > 0 {
                    depth -= 1;
                }
                at = end;
            },
            Piece::Opened(end) => {
                let alone = end - i > 2 && bytes[end - 2] == 47;
                assert(alone == closes_itself(bytes@, i as int, end as int));
                if does_open_container(bytes, i, end) {
                    if depth >= MAX_DEPTH {
                        return false;
                    }
                    if !alone {
                        depth += 1;
                    }
                    at = end;
                } else if does_open(bytes, i, end, &date) && !alone {
                    match read_content(bytes, end) {
                        Some((text, behind)) => {
                            if is_beyond_last_day(&text) {
                                return false;
                            }
                            at = behind;
                        },
                        None => {
                            return true;
                        },
                    }
                } else {
                    at = end;
                }
            },
        }
    }
}

/// White space in front of a list.
pub open spec fn list_spaces() -> Seq<u8> {
    seq![32u8, 9, 10, 11, 12, 13]
}

/// The mark of the encoding that a list may start with.
pub open spec fn encoding_mark() -> Seq<u8> {
    seq![239u8, 187, 191]
}

/// Where a list starts behind the mark of its encoding.
pub open spec fn list_start(bytes: Seq<u8>) -> int {
    if stand_at(bytes, 0, encoding_mark()) {
        3
    } else {
        0
    }
}

/// `?xml`
pub open spec fn xml_mark() -> Seq<u8> {
    seq![63u8, 120, 109, 108]
}

/// `true`
pub open spec fn true_name() -> Seq<u8> {
    seq![116u8, 114, 117, 101]
}

/// `false`
pub open spec fn false_name() -> Seq<u8> {
    seq![102u8, 97, 108, 115, 101]
}

/// What starts at a `<` and ends in front of `end` declares XML.
pub open spec fn declares_xml(bytes: Seq<u8>, i: int, end: int) -> bool {
    stand_at(bytes, i + 1, xml_mark()) && i + 7 <= end && (i + 7 == end || tag_spaces().contains(
        bytes[i + 5],
    ))
}

/// `doctype`, in lower case.
pub open spec fn doctype_name() -> Seq<u8> {
    seq![100u8, 111, 99, 116, 121, 112, 101]
}

/// A byte in lower case.
pub open spec fn lower_byte(byte: u8) -> u8 {
    if 65 <= byte <= 90 {
        (byte + 32) as u8
    } else {
        byte
    }
}

/// What starts at a `<` and ends in front of `end` names a type of document.
pub open spec fn declares_type(bytes: Seq<u8>, i: int, end: int) -> bool {
    &&& i + 9 < end
    &&& bytes[i + 1] == 33
    &&& forall|k: int| 0 <= k < 7 ==> lower_byte(bytes[i + 2 + k]) == #[trigger] doctype_name()[k]
    &&& next_other(bytes, tag_spaces(), i + 9) < end - 1
}

fn names_doctype(bytes: &Vec<u8>, i: usize) -> (result: bool)
    requires
        i + 9 <= bytes@.len(),
    ensures
        result == forall|k: int|
            0 <= k < 7 ==> lower_byte(bytes@[i + 2 + k]) == #[trigger] doctype_name()[k],
{
    let total: usize = bytes.len();
    let name: Vec<u8> = vec![100, 111, 99, 116, 121, 112, 101];
    assert(name@ =~= doctype_name());
    let mut k: usize = 0;
    while k < 7
        invariant
            k <= 7,
            i + 9 <= total,
            total == bytes@.len(),
            name@ == doctype_name(),
            name@.len() == 7,
            forall|j: int|
                0 <= j < k ==> lower_byte(bytes@[i + 2 + j]) == #[trigger] doctype_name()[j],
        decreases 7 - k,
    {
        let byte: u8 = bytes[i + 2 + k];
        let lower: u8 = if 65 <= byte && byte <= 90 {
            byte + 32
        } else {
            byte
        };
        if lower != name[k] {
            assert(lower_byte(bytes@[i + 2 + k]) != doctype_name()[k as int]);
            return false;
        }
        k += 1;
    }
    true
}

/// All bytes in front of a position from `from` on are ASCII.
pub open spec fn ascii_between(bytes: Seq<u8>, from: int, to: int) -> bool {
    forall|k: int| from <= k < to ==> #[trigger] bytes[k] < 128
}

fn is_ascii_between(bytes: &Vec<u8>, from: usize, to: usize) -> (result: bool)
    requires
        from <= to <= bytes@.len(),
    ensures
        result == ascii_between(bytes@, from as int, to as int),
{
    let mut i: usize = from;
    while i < to
        invariant
            from <= i <= to <= bytes@.len(),
            ascii_between(bytes@, from as int, i as int),
        decreases to - i,
    {
        if bytes[i] >= 128 {
            return false;
        }
        i += 1;
    }
    true
}

/// From a position on, XML begins for sure: a declaration, the type of the document
/// or a first value comes before anything that is not XML. A name with a prefix may
/// be none that is known.
pub open spec fn xml_begins(bytes: Seq<u8>, at: int) -> bool
    decreases bytes.len() - at,
{
    let i = next_other(bytes, list_spaces(), at);
    if !(at <= i < bytes.len()) || bytes[i] != 60 {
        false
    } else {
        match piece_at(bytes, i) {
            PieceView::Skipped { end } => i < end <= bytes.len() && if !ascii_between(
                bytes,
                at,
                end,
            ) || stand_at(bytes, i + 1, data_mark()) {
                false
            } else if bytes[i + 1] == 63 {
                declares_xml(bytes, i, end) || (i + 3 < end && xml_begins(bytes, end))
            } else if stand_at(bytes, i + 1, comment_mark()) {
                xml_begins(bytes, end)
            } else {
                declares_type(bytes, i, end)
            },
            PieceView::Opened { end } => i < end <= bytes.len() && ascii_between(bytes, at, end)
                && next_of(bytes, seq![58u8], i + 1) >= end && (opens_container(bytes, i, end) || opens(bytes, i, end, true_name()) || opens(
                bytes,
                i,
                end,
                false_name(),
            ) || (opens(bytes, i, end, plist_name()) && xml_begins(bytes, end))),
            _ => false,
        }
    }
}

fn does_xml_begin(bytes: &Vec<u8>, from: usize) -> (result: bool)
    requires
        from <= bytes@.len(),
    ensures
        result == xml_begins(bytes@, from as int),
{
    let spaces: Vec<u8> = vec![32, 9, 10, 11, 12, 13];
    let tag_space: Vec<u8> = vec![32, 9, 10, 13];
    let mark: Vec<u8> = vec![63, 120, 109, 108];
    let comment: Vec<u8> = vec![33, 45, 45];
    let data: Vec<u8> = vec![33, 91, 67, 68, 65, 84, 65, 91];
    let yes: Vec<u8> = vec![116, 114, 117, 101];
    let no: Vec<u8> = vec![102, 97, 108, 115, 101];
    let plist: Vec<u8> = vec![112, 108, 105, 115, 116];
    let colon: Vec<u8> = vec![58];
    assert(colon@ =~= seq![58u8]);
    assert(spaces@ =~= list_spaces());
    assert(tag_space@ =~= tag_spaces());
    assert(mark@ =~= xml_mark());
    assert(comment@ =~= comment_mark());
    assert(data@ =~= data_mark());
    assert(yes@ =~= true_name());
    assert(no@ =~= false_name());
    assert(plist@ =~= plist_name());
    let total: usize = bytes.len();
    let mut at: usize = from;
    loop
        invariant
            from <= at <= total,
            total == bytes@.len(),
            spaces@ == list_spaces(),
            tag_space@ == tag_spaces(),
            mark@ == xml_mark(),
            comment@ == comment_mark(),
            data@ == data_mark(),
            yes@ == true_name(),
            no@ == false_name(),
            plist@ == plist_name(),
            colon@ == seq![58u8],
            xml_begins(bytes@, from as int) == xml_begins(bytes@, at as int),
        decreases total - at,
    {
        let i: usize = find_other(bytes, &spaces, at);
        if i >= total || bytes[i] != 60 {
            return false;
        }
        match read_piece(bytes, i) {
            Piece::Skipped(end) => {
                if !is_ascii_between(bytes, at, end) || bytes_at(bytes, i + 1, &data) {
                    return false;
                }
                if bytes[i + 1] == 63 {
                    if bytes_at(bytes, i + 1, &mark) && end - i >= 7 && (end - i == 7 || is_among(
                        bytes[i + 5],
                        &tag_space,
                    )) {
                        return true;
                    }
                    if end - i <= 3 {
                        return false;
                    }
                    at = end;
                } else if bytes_at(bytes, i + 1, &comment) {
                    at = end;
                } else {
                    return end - i > 9 && bytes[i + 1] == 33 && names_doctype(bytes, i)
                        && find_other(bytes, &tag_space, i + 9) < end - 1;
                }
            },
            Piece::Opened(end) => {
                if !is_ascii_between(bytes, at, end) || find_of(bytes, &colon, i + 1) < end {
                    return false;
                }
                if does_open_container(bytes, i, end) || does_open(bytes, i, end, &yes)
                    || does_open(bytes, i, end, &no) {
                    return true;
                }
                if !does_open(bytes, i, end, &plist) {
                    return false;
                }
                at = end;
            },
            _ => {
                return false;
            },
        }
    }
}

/// Where a quoted text of the older form ends that goes on at `from`: behind the
/// quotation mark. A backslash takes the next byte along.
pub open spec fn quoted_end(bytes: Seq<u8>, from: int, quote: u8) -> int
    decreases bytes.len() - from,
{
    if from >= bytes.len() {
        bytes.len() as int
    } else if bytes[from] == quote {
        from + 1
    } else if bytes[from] == 92 && from + 1 >= bytes.len() {
        bytes.len() as int
    } else if bytes[from] == 92 {
        quoted_end(bytes, from + 2, quote)
    } else {
        quoted_end(bytes, from + 1, quote)
    }
}

fn find_quoted_end(bytes: &Vec<u8>, from: usize, quote: u8) -> (end: usize)
    requires
        from <= bytes@.len(),
    ensures
        end == quoted_end(bytes@, from as int, quote),
        from <= end <= bytes@.len(),
{
    let total: usize = bytes.len();
    let mut i: usize = from;
    while i < total
        invariant
            from <= i <= total,
            total == bytes@.len(),
            quoted_end(bytes@, from as int, quote) == quoted_end(bytes@, i as int, quote),
        decreases total - i,
    {
        if bytes[i] == quote {
            return i + 1;
        }
        if bytes[i] == 92 {
            if total - i < 2 {
                return total;
            }
            i += 2;
        } else {
            i += 1;
        }
    }
    i
}

/// Where a comment of the older form ends that goes on at `from`. `star` tells
/// whether a star was just read there: only the byte behind it can end the comment,
/// and is passed over where it does not.
pub open spec fn comment_end(bytes: Seq<u8>, from: int, star: bool) -> int
    decreases bytes.len() - from,
{
    if from >= bytes.len() {
        bytes.len() as int
    } else if !star {
        comment_end(bytes, from + 1, bytes[from] == 42)
    } else if bytes[from] == 47 {
        from + 1
    } else if from + 1 >= bytes.len() {
        bytes.len() as int
    } else {
        comment_end(bytes, from + 2, bytes[from + 1] == 42)
    }
}

fn find_comment_end(bytes: &Vec<u8>, from: usize) -> (end: usize)
    requires
        from <= bytes@.len(),
    ensures
        end == comment_end(bytes@, from as int, false),
        from <= end <= bytes@.len(),
{
    let total: usize = bytes.len();
    let mut i: usize = from;
    let mut star = false;
    while i < total
        invariant
            from <= i <= total,
            total == bytes@.len(),
            comment_end(bytes@, from as int, false) == comment_end(bytes@, i as int, star),
        decreases total - i,
    {
        if !star {
            star = bytes[i] == 42;
            i += 1;
        } else if bytes[i] == 47 {
            return i + 1;
        } else if total - i < 2 {
            return total;
        } else {
            star = bytes[i + 1] == 42;
            i += 2;
        }
    }
    i
}

/// The bytes that end a text without quotation marks in the older form.
pub open spec fn bare_stops() -> Seq<u8> {
    seq![32u8, 41, 13, 9, 59, 44]
}

/// From a position on, a list in the older form nests its arrays and dictionaries no
/// deeper than it may. `depth` is how deep they are nested there.
pub open spec fn brackets_are_safe(bytes: Seq<u8>, at: int, depth: nat) -> bool
    decreases bytes.len() - at,
{
    if !(0 <= at < bytes.len()) {
        true
    } else {
        let byte = bytes[at];
        if byte == 40 || byte == 123 {
            depth < MAX_DEPTH && brackets_are_safe(bytes, at + 1, depth + 1)
        } else if byte == 41 || byte == 125 {
            brackets_are_safe(
                bytes,
                at + 1,
                if depth > 0 {
                    (depth - 1) as nat
                } else {
                    0
                },
            )
        } else if seq![44u8, 59, 61, 32, 13, 9, 10].contains(byte) {
            brackets_are_safe(bytes, at + 1, depth)
        } else {
            let end = if byte == 34 || byte == 39 {
                quoted_end(bytes, at + 1, byte)
            } else if byte == 47 && at + 1 < bytes.len() && bytes[at + 1] == 47 {
                next_of(bytes, seq![10u8], at + 1)
            } else if byte == 47 && at + 1 < bytes.len() && bytes[at + 1] == 42 {
                comment_end(bytes, at + 1, false)
            } else {
                next_of(bytes, bare_stops(), at + 1)
            };
            at < end <= bytes.len() ==> brackets_are_safe(bytes, end, depth)
        }
    }
}

fn check_brackets(bytes: &Vec<u8>) -> (result: bool)
    ensures
        result == brackets_are_safe(bytes@, 0, 0),
{
    let passed: Vec<u8> = vec![44, 59, 61, 32, 13, 9, 10];
    let stops: Vec<u8> = vec![32, 41, 13, 9, 59, 44];
    let line: Vec<u8> = vec![10];
    assert(passed@ =~= seq![44u8, 59, 61, 32, 13, 9, 10]);
    assert(stops@ =~= bare_stops());
    assert(line@ =~= seq![10u8]);
    let total: usize = bytes.len();
    let mut at: usize = 0;
    let mut depth: usize = 0;
    while at < total
        invariant
            at <= total,
            total == bytes@.len(),
            depth <= MAX_DEPTH,
            passed@ == seq![44u8, 59, 61, 32, 13, 9, 10],
            stops@ == bare_stops(),
            line@ == seq![10u8],
            brackets_are_safe(bytes@, 0, 0) == brackets_are_safe(
                bytes@,
                at as int,
                depth as nat,
            ),
        decreases total - at,
    {
        let byte: u8 = bytes[at];
        if byte == 40 || byte == 123 {
            if depth >= MAX_DEPTH {
                return false;
            }
            depth += 1;
            at += 1;
        } else if byte == 41 || byte == 125 {
            if depth > 0 {
                depth -= 1;
            }
            at += 1;
        } else if is_among(byte, &passed) {
            at += 1;
        } else if byte == 34 || byte == 39 {
            at = find_quoted_end(bytes, at + 1, byte);
        } else if byte == 47 && at + 1 < total && bytes[at + 1] == 47 {
            at = find_of(bytes, &line, at + 1);
        } else if byte == 47 && at + 1 < total && bytes[at + 1] == 42 {
            at = find_comment_end(bytes, at + 1);
        } else {
            at = find_of(bytes, &stops, at + 1);
        }
    }
    true
}

/// A list starts with text that is no XML.
pub open spec fn starts_bare(bytes: Seq<u8>) -> bool {
    let i = next_other(bytes, list_spaces(), list_start(bytes));
    i < bytes.len() && bytes[i] != 60 && bytes[i] != 38 && bytes[i] < 128
}

/// A list in text that the reader can be handed, in the form that it is read in: in
/// both where its start does not tell.
pub open spec fn text_is_safe(bytes: Seq<u8>) -> bool {
    if starts_bare(bytes) {
        brackets_are_safe(bytes, 0, 0)
    } else {
        xml_is_safe(bytes, 0, 0) && (xml_begins(bytes, list_start(bytes)) || brackets_are_safe(
            bytes,
            0,
            0,
        ))
    }
}

/// Tells whether a list in text can be handed to the reader.
pub fn check_text(bytes: &Vec<u8>) -> (result: bool)
    ensures
        result == text_is_safe(bytes@),
{
    let mark: Vec<u8> = vec![239, 187, 191];
    let spaces: Vec<u8> = vec![32, 9, 10, 11, 12, 13];
    assert(mark@ =~= encoding_mark());
    assert(spaces@ =~= list_spaces());
    let start: usize = if bytes_at(bytes, 0, &mark) {
        3
    } else {
        0
    };
    let i: usize = find_other(bytes, &spaces, start);
    if i < bytes.len() && bytes[i] != 60 && bytes[i] != 38 && bytes[i] < 128 {
        return check_brackets(bytes);
    }
    check_xml(bytes) && (does_xml_begin(bytes, start) || check_brackets(bytes))
}

/// How many of some bytes stand from a position on.
pub open spec fn count_from(bytes: Seq<u8>, wanted: Seq<u8>, from: int) -> nat
    decreases bytes.len() - from,
{
    if from >= bytes.len() {
        0
    } else {
        count_from(bytes, wanted, from + 1) + if wanted.contains(bytes[from]) {
            1nat
        } else {
            0
        }
    }
}

proof fn lemma_count_from(bytes: Seq<u8>, wanted: Seq<u8>, from: int, to: int)
    requires
        0 <= from <= to,
    ensures
        count_from(bytes, wanted, to) <= count_from(bytes, wanted, from),
    decreases to - from,
{
    if from < to {
        lemma_count_from(bytes, wanted, from + 1, to);
    }
}

proof fn lemma_next_of(bytes: Seq<u8>, wanted: Seq<u8>, from: int)
    requires
        0 <= from,
    ensures
        next_of(bytes, wanted, from) < bytes.len() ==> from <= next_of(bytes, wanted, from)
            && wanted.contains(bytes[next_of(bytes, wanted, from)]),
    decreases bytes.len() - from,
{
    if from < bytes.len() && !wanted.contains(bytes[from]) {
        lemma_next_of(bytes, wanted, from + 1);
    }
}

proof fn lemma_shallow_xml(bytes: Seq<u8>, at: int, depth: nat)
    requires
        0 <= at,
        forall|i: int| !#[trigger] stand_at(bytes, i, date_name()),
        depth + count_from(bytes, seq![60u8], at) <= 2048,
    ensures
        xml_is_safe(bytes, at, depth),
    decreases bytes.len() - at,
{
    let open = seq![60u8];
    let i = next_of(bytes, open, at);
    lemma_next_of(bytes, open, at);
    if at <= i < bytes.len() {
        lemma_count_from(bytes, open, at, i);
        assert(count_from(bytes, open, i) == count_from(bytes, open, i + 1) + 1);
        match piece_at(bytes, i) {
            PieceView::Broken => {},
            PieceView::Skipped { end } => {
                if i < end {
                    lemma_count_from(bytes, open, i + 1, end);
                    lemma_shallow_xml(bytes, end, depth);
                }
            },
            PieceView::Closed { end } => {
                if i < end {
                    lemma_count_from(bytes, open, i + 1, end);
                    lemma_shallow_xml(
                        bytes,
                        end,
                        if closes_container(bytes, i, end) && depth > 0 {
                            (depth - 1) as nat
                        } else {
                            depth
                        },
                    );
                }
            },
            PieceView::Opened { end } => {
                if i < end {
                    lemma_count_from(bytes, open, i + 1, end);
                    lemma_shallow_xml(bytes, end, depth);
                    lemma_shallow_xml(bytes, end, depth + 1);
                }
            },
        }
    }
}

proof fn lemma_shallow_brackets(bytes: Seq<u8>, at: int, depth: nat)
    requires
        0 <= at,
        depth + count_from(bytes, seq![40u8, 123], at) <= 2048,
    ensures
        brackets_are_safe(bytes, at, depth),
    decreases bytes.len() - at,
{
    let open = seq![40u8, 123];
    if at < bytes.len() {
        let byte = bytes[at];
        assert(open[0] == 40 && open[1] == 123);
        if byte == 40 || byte == 123 {
            assert(open.contains(byte));
            lemma_shallow_brackets(bytes, at + 1, depth + 1);
        } else if byte == 41 || byte == 125 {
            lemma_count_from(bytes, open, at, at + 1);
            lemma_shallow_brackets(
                bytes,
                at + 1,
                if depth > 0 {
                    (depth - 1) as nat
                } else {
                    0
                },
            );
        } else if seq![44u8, 59, 61, 32, 13, 9, 10].contains(byte) {
            lemma_count_from(bytes, open, at, at + 1);
            lemma_shallow_brackets(bytes, at + 1, depth);
        } else {
            let end = if byte == 34 || byte == 39 {
                quoted_end(bytes, at + 1, byte)
            } else if byte == 47 && at + 1 < bytes.len() && bytes[at + 1] == 47 {
                next_of(bytes, seq![10u8], at + 1)
            } else if byte == 47 && at + 1 < bytes.len() && bytes[at + 1] == 42 {
                comment_end(bytes, at + 1, false)
            } else {
                next_of(bytes, bare_stops(), at + 1)
            };
            if at < end <= bytes.len() {
                lemma_count_from(bytes, open, at, end);
                lemma_shallow_brackets(bytes, end, depth);
            }
        }
    }
}

/// The word `date` stands nowhere in a list.
pub open spec fn names_no_dates(bytes: Seq<u8>) -> bool {
    forall|i: int|
        0 <= i < bytes.len() - 3 ==> !(#[trigger] bytes[i] == 100 && bytes[i + 1] == 97 && bytes[i
            + 2] == 116 && bytes[i + 3] == 101)
}

/// A list in text that holds no dates, and no more than 2048 tags and as many brackets,
/// is always handed to the reader, whatever else is in it.
pub proof fn shallow_lists_are_read(bytes: Seq<u8>)
    requires
        names_no_dates(bytes),
        count_from(bytes, seq![60u8], 0) <= 2048,
        count_from(bytes, seq![40u8, 123], 0) <= 2048,
    ensures
        text_is_safe(bytes),
{
    assert forall|i: int| !#[trigger] stand_at(bytes, i, date_name()) by {
        if stand_at(bytes, i, date_name()) {
            let there = bytes.subrange(i, i + 4);
            assert(there[0] == bytes[i] && there[1] == bytes[i + 1] && there[2] == bytes[i + 2]
                && there[3] == bytes[i + 3]);
        }
    }
    lemma_shallow_xml(bytes, 0, 0);
    lemma_shallow_brackets(bytes, 0, 0);
}

} // verus!
