//! Text as sequences of characters: the searches, cuts and comparisons that the
//! rest of the crate makes on command lines, process listings and URLs.
use vstd::prelude::*;

verus! {

/// `String::push` appends one character to the string.
pub assume_specification[ String::push ](s: &mut String, ch: char)
    ensures
        final(s)@ == old(s)@.push(ch),
;

/// The characters that Unicode gives the property `White_Space`.
pub open spec fn white_space(c: char) -> bool {
    let n = c as u32;
    ||| 0x9 <= n <= 0xd
    ||| n == 0x20
    ||| n == 0x85
    ||| n == 0xa0
    ||| n == 0x1680
    ||| 0x2000 <= n <= 0x200a
    ||| n == 0x2028
    ||| n == 0x2029
    ||| n == 0x202f
    ||| n == 0x205f
    ||| n == 0x3000
}

/// Tells whether a character is white space.
pub fn is_white_space(c: char) -> (result: bool)
    ensures
        result == white_space(c),
{
    let n: u32 = c as u32;
    (0x9 <= n && n <= 0xd) || n == 0x20 || n == 0x85 || n == 0xa0 || n == 0x1680 || (0x2000 <= n
        && n <= 0x200a) || n == 0x2028 || n == 0x2029 || n == 0x202f || n == 0x205f || n == 0x3000
}

/// The characters of a string, in order.
pub fn chars_of(s: &str) -> (chars: Vec<char>)
    ensures
        chars@ == s@,
{
    let mut chars: Vec<char> = Vec::new();
    for c in it: s.chars()
        invariant
            chars@ == s@.take(it.index() as int),
            it.seq() == s@,
    {
        chars.push(c);
        assert(s@.take(it.index() as int).push(c) =~= s@.take(it.index() + 1));
    }
    assert(s@.take(s@.len() as int) =~= s@);
    chars
}

/// The string made of the characters from `from` up to, but not including, `to`.
pub fn string_of(chars: &Vec<char>, from: usize, to: usize) -> (s: String)
    requires
        from <= to <= chars@.len(),
    ensures
        s@ == chars@.subrange(from as int, to as int),
{
    let mut s = String::new();
    let mut i: usize = from;
    while i < to
        invariant
            from <= i <= to <= chars@.len(),
            s@ == chars@.subrange(from as int, i as int),
        decreases to - i,
    {
        s.push(chars[i]);
        i += 1;
        assert(chars@.subrange(from as int, i as int) =~= chars@.subrange(
            from as int,
            i - 1,
        ).push(chars@[i - 1]));
    }
    s
}

/// Tells whether two strings hold the same characters.
pub fn str_eq(a: &str, b: &str) -> (result: bool)
    ensures
        result == (a@ == b@),
{
    a.to_owned() == b.to_owned()
}

/// A copy of a string.
pub fn owned(s: &str) -> (result: String)
    ensures
        result@ == s@,
{
    s.to_owned()
}

/// A copy of an optional string.
pub fn clone_option(s: &Option<String>) -> (result: Option<String>)
    ensures
        result == *s,
{
    match s {
        Some(text) => Some(text.clone()),
        None => None,
    }
}

/// The characters of an optional string.
pub open spec fn option_view(s: Option<String>) -> Option<Seq<char>> {
    match s {
        Some(text) => Some(text@),
        None => None,
    }
}

/// The characters of an optional string slice.
pub open spec fn option_str_view(s: Option<&str>) -> Option<Seq<char>> {
    match s {
        Some(text) => Some(text@),
        None => None,
    }
}

/// The characters of each string of a list.
pub open spec fn views(list: Seq<String>) -> Seq<Seq<char>> {
    list.map_values(|s: String| s@)
}

/// The slice of an optional string.
pub fn as_option_str(s: &Option<String>) -> (result: Option<&str>)
    ensures
        option_str_view(result) == option_view(*s),
{
    match s {
        Some(text) => Some(text.as_str()),
        None => None,
    }
}

/// Tells whether two optional strings hold the same characters.
pub fn option_eq(a: Option<&str>, b: Option<&str>) -> (result: bool)
    ensures
        result == (option_str_view(a) == option_str_view(b)),
{
    match (a, b) {
        (Some(x), Some(y)) => str_eq(x, y),
        (None, None) => true,
        _ => false,
    }
}

/// The position of the first character from `from` on that `p` picks, or the
/// length where there is none.
pub open spec fn index_where(s: Seq<char>, from: int, p: spec_fn(char) -> bool) -> int
    decreases s.len() - from,
{
    if from >= s.len() {
        s.len() as int
    } else if p(s[from]) {
        from
    } else {
        index_where(s, from + 1, p)
    }
}

pub proof fn lemma_index_where(s: Seq<char>, from: int, p: spec_fn(char) -> bool)
    requires
        0 <= from <= s.len(),
    ensures
        from <= index_where(s, from, p) <= s.len(),
        index_where(s, from, p) < s.len() ==> p(s[index_where(s, from, p)]),
        forall|i: int| from <= i < index_where(s, from, p) ==> !p(#[trigger] s[i]),
    decreases s.len() - from,
{
    if from < s.len() && !p(s[from]) {
        lemma_index_where(s, from + 1, p);
    }
}

/// The characters that are white space.
pub open spec fn white_space_chars() -> spec_fn(char) -> bool {
    |c: char| white_space(c)
}

/// The position of the first white space from `from` on.
pub fn white_space_index(chars: &Vec<char>, from: usize) -> (index: usize)
    requires
        from <= chars@.len(),
    ensures
        index == index_where(chars@, from as int, white_space_chars()),
        from <= index <= chars@.len(),
{
    let mut i: usize = from;
    while i < chars.len() && !is_white_space(chars[i])
        invariant
            from <= i <= chars@.len(),
            index_where(chars@, from as int, white_space_chars()) == index_where(
                chars@,
                i as int,
                white_space_chars(),
            ),
        decreases chars@.len() - i,
    {
        i += 1;
    }
    i
}

/// The position of the first `c` from `from` on.
pub fn char_index(chars: &Vec<char>, from: usize, c: char) -> (index: usize)
    requires
        from <= chars@.len(),
    ensures
        index == index_where(chars@, from as int, |x: char| x == c),
        from <= index <= chars@.len(),
{
    let ghost p = |x: char| x == c;
    let mut i: usize = from;
    while i < chars.len() && chars[i] != c
        invariant
            from <= i <= chars@.len(),
            p == (|x: char| x == c),
            index_where(chars@, from as int, p) == index_where(chars@, i as int, p),
        decreases chars@.len() - i,
    {
        i += 1;
    }
    i
}

/// The text without the white space that it starts with.
pub open spec fn trimmed_start(s: Seq<char>) -> Seq<char>
    decreases s.len(),
{
    if s.len() > 0 && white_space(s[0]) {
        trimmed_start(s.drop_first())
    } else {
        s
    }
}

/// The text without the characters picked by `p` that it ends with.
pub open spec fn trimmed_end_where(s: Seq<char>, p: spec_fn(char) -> bool) -> Seq<char>
    decreases s.len(),
{
    if s.len() > 0 && p(s.last()) {
        trimmed_end_where(s.drop_last(), p)
    } else {
        s
    }
}

/// The text without the white space around it.
pub open spec fn trimmed(s: Seq<char>) -> Seq<char> {
    trimmed_end_where(trimmed_start(s), white_space_chars())
}

/// The number of characters of white space that the text starts with.
fn leading_white_space(chars: &Vec<char>, from: usize) -> (start: usize)
    requires
        from <= chars@.len(),
    ensures
        from <= start <= chars@.len(),
        chars@.skip(start as int) == trimmed_start(chars@.skip(from as int)),
{
    let mut start: usize = from;
    while start < chars.len() && is_white_space(chars[start])
        invariant
            from <= start <= chars@.len(),
            trimmed_start(chars@.skip(from as int)) == trimmed_start(chars@.skip(start as int)),
        decreases chars@.len() - start,
    {
        assert(chars@.skip(start as int).drop_first() =~= chars@.skip(start + 1));
        start += 1;
    }
    start
}

/// Removes the white space that a text starts with.
pub fn trim_start(s: &str) -> (result: String)
    ensures
        result@ == trimmed_start(s@),
{
    let chars = chars_of(s);
    assert(chars@.skip(0) =~= chars@);
    let start = leading_white_space(&chars, 0);
    assert(chars@.subrange(start as int, chars@.len() as int) =~= chars@.skip(start as int));
    string_of(&chars, start, chars.len())
}

/// Removes the white space around a text.
pub fn trim(s: &str) -> (result: String)
    ensures
        result@ == trimmed(s@),
{
    let chars = chars_of(s);
    assert(chars@.skip(0) =~= chars@);
    let start = leading_white_space(&chars, 0);
    let ghost kept = chars@.skip(start as int);
    let mut end: usize = chars.len();
    assert(chars@.subrange(start as int, end as int) =~= kept);
    while end > start && is_white_space(chars[end - 1])
        invariant
            start <= end <= chars@.len(),
            trimmed_end_where(kept, white_space_chars()) == trimmed_end_where(
                chars@.subrange(start as int, end as int),
                white_space_chars(),
            ),
        decreases end,
    {
        assert(chars@.subrange(start as int, end as int).drop_last() =~= chars@.subrange(
            start as int,
            end - 1,
        ));
        end -= 1;
    }
    string_of(&chars, start, end)
}

/// Removes every `c` that a text ends with.
pub fn trim_end_char(s: &str, c: char) -> (result: String)
    ensures
        result@ == trimmed_end_where(s@, |x: char| x == c),
{
    let chars = chars_of(s);
    let ghost p = |x: char| x == c;
    let mut end: usize = chars.len();
    assert(chars@.subrange(0, end as int) =~= chars@);
    while end > 0 && chars[end - 1] == c
        invariant
            end <= chars@.len(),
            p == (|x: char| x == c),
            trimmed_end_where(chars@, p) == trimmed_end_where(chars@.subrange(0, end as int), p),
        decreases end,
    {
        assert(chars@.subrange(0, end as int).drop_last() =~= chars@.subrange(0, end - 1));
        end -= 1;
    }
    string_of(&chars, 0, end)
}

/// What is left of a text at its end is its front, and does not end with what is
/// picked.
pub proof fn lemma_trimmed_end(s: Seq<char>, p: spec_fn(char) -> bool)
    ensures
        ({
            let t = trimmed_end_where(s, p);
            &&& t.len() <= s.len()
            &&& t == s.take(t.len() as int)
            &&& t.len() > 0 ==> !p(t.last())
        }),
    decreases s.len(),
{
    if s.len() > 0 && p(s.last()) {
        lemma_trimmed_end(s.drop_last(), p);
        let t = trimmed_end_where(s, p);
        assert(t =~= s.take(t.len() as int));
    } else {
        assert(s =~= s.take(s.len() as int));
    }
}

/// A text that neither starts nor ends with white space is left as it is by trimming.
pub proof fn lemma_already_trimmed(s: Seq<char>)
    requires
        s.len() > 0 ==> !white_space(s[0]) && !white_space(s.last()),
    ensures
        trimmed(s) == s,
{
}

/// What trimming leaves neither starts nor ends with white space.
pub proof fn lemma_trimmed_ends(s: Seq<char>)
    ensures
        trimmed(s).len() > 0 ==> !white_space(trimmed(s)[0]) && !white_space(trimmed(s).last()),
{
    lemma_trimmed_start(s);
    lemma_trimmed_end(trimmed_start(s), white_space_chars());
}

/// Trimming a second time changes nothing.
pub proof fn trimming_is_idempotent(s: Seq<char>)
    ensures
        trimmed(trimmed(s)) == trimmed(s),
{
    lemma_trimmed_ends(s);
    lemma_already_trimmed(trimmed(s));
}

/// A text that holds nothing but white space.
pub open spec fn blank(s: Seq<char>) -> bool {
    trimmed(s).len() == 0
}

/// Tells whether a text holds nothing but white space.
pub fn is_blank(s: &str) -> (result: bool)
    ensures
        result == blank(s@),
{
    trim(s).as_str().is_empty()
}

/// `needle` stands in `hay` at position `i`.
pub open spec fn occurs_at(hay: Seq<char>, needle: Seq<char>, i: int) -> bool {
    0 <= i && i + needle.len() <= hay.len() && hay.subrange(i, i + needle.len()) == needle
}

/// `needle` stands somewhere in `hay`.
pub open spec fn contains_text(hay: Seq<char>, needle: Seq<char>) -> bool {
    exists|i: int| occurs_at(hay, needle, i)
}

/// The first position from `from` on at which `needle` stands in `hay`.
pub open spec fn find_from(hay: Seq<char>, needle: Seq<char>, from: int) -> Option<int>
    decreases hay.len() + 1 - from,
{
    if from + needle.len() > hay.len() {
        None
    } else if occurs_at(hay, needle, from) {
        Some(from)
    } else {
        find_from(hay, needle, from + 1)
    }
}

/// `find_from` gives the least position at which the needle stands, and gives
/// none exactly where there is none.
pub proof fn lemma_find_from(hay: Seq<char>, needle: Seq<char>, from: int)
    requires
        0 <= from,
    ensures
        match find_from(hay, needle, from) {
            Some(i) => {
                &&& from <= i
                &&& occurs_at(hay, needle, i)
                &&& forall|j: int| from <= j < i ==> !occurs_at(hay, needle, j)
            },
            None => forall|j: int| from <= j ==> !occurs_at(hay, needle, j),
        },
    decreases hay.len() + 1 - from,
{
    if from + needle.len() <= hay.len() && !occurs_at(hay, needle, from) {
        lemma_find_from(hay, needle, from + 1);
    }
}

/// Tells whether `needle` stands in `hay` at position `i`.
pub fn occurs(hay: &Vec<char>, needle: &Vec<char>, i: usize) -> (result: bool)
    requires
        i <= hay@.len(),
    ensures
        result == occurs_at(hay@, needle@, i as int),
{
    if needle.len() > hay.len() - i {
        return false;
    }
    let mut k: usize = 0;
    while k < needle.len()
        invariant
            k <= needle@.len(),
            i + needle@.len() <= hay.len(),
            forall|j: int| 0 <= j < k ==> hay@[i + j] == #[trigger] needle@[j],
        decreases needle@.len() - k,
    {
        assert(i + k < hay@.len());
        if hay[i + k] != needle[k] {
            assert(hay@.subrange(i as int, i + needle@.len())[k as int] != needle@[k as int]);
            return false;
        }
        k += 1;
    }
    assert(hay@.subrange(i as int, i + needle@.len()) =~= needle@);
    true
}

/// The first position from `from` on at which `needle` stands in `hay`.
pub fn find(hay: &Vec<char>, needle: &Vec<char>, from: usize) -> (index: Option<usize>)
    requires
        from <= hay@.len(),
    ensures
        match index {
            Some(i) => find_from(hay@, needle@, from as int) == Some(i as int) && from <= i && i
                + needle@.len() <= hay@.len(),
            None => find_from(hay@, needle@, from as int) is None,
        },
{
    let mut i: usize = from;
    while i <= hay.len() && needle.len() <= hay.len() - i
        invariant
            from <= i,
            i <= hay@.len() + 1,
            find_from(hay@, needle@, from as int) == find_from(hay@, needle@, i as int),
        decreases hay@.len() + 1 - i,
    {
        if occurs(hay, needle, i) {
            return Some(i);
        }
        if i == hay.len() {
            assert(find_from(hay@, needle@, i + 1) is None);
            return None;
        }
        i += 1;
    }
    None
}

/// Tells whether `needle` stands somewhere in `hay`.
pub fn contains(hay: &str, needle: &str) -> (result: bool)
    ensures
        result == contains_text(hay@, needle@),
{
    proof {
        lemma_find_from(hay@, needle@, 0);
    }
    let h = chars_of(hay);
    let n = chars_of(needle);
    find(&h, &n, 0).is_some()
}

/// The text starts with `prefix`.
pub open spec fn has_prefix(s: Seq<char>, prefix: Seq<char>) -> bool {
    occurs_at(s, prefix, 0)
}

/// Tells whether a text starts with `prefix`.
pub fn starts_with(s: &str, prefix: &str) -> (result: bool)
    ensures
        result == has_prefix(s@, prefix@),
{
    let chars = chars_of(s);
    let p = chars_of(prefix);
    occurs(&chars, &p, 0)
}

/// The text behind `prefix`, where the text starts with it.
pub open spec fn without_prefix(s: Seq<char>, prefix: Seq<char>) -> Option<Seq<char>> {
    if has_prefix(s, prefix) {
        Some(s.skip(prefix.len() as int))
    } else {
        None
    }
}

/// The text behind `prefix`, where the text starts with it.
pub fn strip_prefix(s: &str, prefix: &str) -> (result: Option<String>)
    ensures
        option_view(result) == without_prefix(s@, prefix@),
{
    let chars = chars_of(s);
    let p = chars_of(prefix);
    if occurs(&chars, &p, 0) {
        assert(chars@.subrange(p@.len() as int, chars@.len() as int) =~= s@.skip(
            p@.len() as int,
        ));
        Some(string_of(&chars, p.len(), chars.len()))
    } else {
        None
    }
}

/// A line without the carriage return that it ends with.
pub open spec fn without_carriage_return(line: Seq<char>) -> Seq<char> {
    if line.len() > 0 && line.last() == '\r' {
        line.drop_last()
    } else {
        line
    }
}

/// The lines of a text: each ends at a line feed, or at a carriage return and
/// a line feed; the last may end with the text.
pub open spec fn lines_of(s: Seq<char>) -> Seq<Seq<char>>
    decreases s.len(),
{
    let end = index_where(s, 0, |c: char| c == '\n');
    if s.len() == 0 {
        Seq::empty()
    } else if 0 <= end < s.len() {
        seq![without_carriage_return(s.subrange(0, end))] + lines_of(s.skip(end + 1))
    } else {
        seq![s]
    }
}

pub proof fn lemma_index_where_skip(s: Seq<char>, skipped: int, from: int, p: spec_fn(char) -> bool)
    requires
        0 <= skipped <= from <= s.len(),
    ensures
        index_where(s, from, p) == skipped + index_where(s.skip(skipped), from - skipped, p),
    decreases s.len() - from,
{
    if from < s.len() {
        assert(s.skip(skipped)[from - skipped] == s[from]);
        if !p(s[from]) {
            lemma_index_where_skip(s, skipped, from + 1, p);
        }
    }
}

/// The lines of a text.
pub fn lines(s: &str) -> (result: Vec<String>)
    ensures
        views(result@) == lines_of(s@),
{
    let chars = chars_of(s);
    let mut result: Vec<String> = Vec::new();
    let mut start: usize = 0;
    assert(chars@.skip(0) =~= chars@);
    assert(views(result@) =~= Seq::empty());
    let ghost newline = |c: char| c == '\n';
    while start < chars.len()
        invariant
            start <= chars@.len(),
            chars@ == s@,
            newline == (|c: char| c == '\n'),
            lines_of(s@) == views(result@) + lines_of(chars@.skip(start as int)),
        decreases chars@.len() - start,
    {
        let ghost rest = chars@.skip(start as int);
        let ghost before = views(result@);
        let end = char_index(&chars, start, '\n');
        proof {
            lemma_index_where_skip(chars@, start as int, start as int, newline);
        }
        if end < chars.len() {
            let stop: usize = if end > start && chars[end - 1] == '\r' {
                end - 1
            } else {
                end
            };
            let line = string_of(&chars, start, stop);
            assert(rest.subrange(0, end - start) =~= chars@.subrange(start as int, end as int));
            assert(line@ =~= without_carriage_return(rest.subrange(0, end - start)));
            result.push(line);
            assert(views(result@) =~= before.push(line@));
            assert(rest.skip(end - start + 1) =~= chars@.skip(end + 1));
            assert(before + (seq![line@] + lines_of(chars@.skip(end + 1))) =~= before.push(line@)
                + lines_of(chars@.skip(end + 1)));
            start = end + 1;
        } else {
            let line = string_of(&chars, start, end);
            assert(line@ =~= rest);
            result.push(line);
            assert(views(result@) =~= before.push(line@));
            assert(chars@.skip(end as int) =~= Seq::empty());
            assert(before + seq![line@] =~= before.push(line@) + Seq::<Seq<char>>::empty());
            start = end;
        }
    }
    assert(chars@.skip(start as int) =~= Seq::empty());
    assert(views(result@) + Seq::<Seq<char>>::empty() =~= views(result@));
    result
}

/// The words of a text, which white space parts.
pub open spec fn words_of(s: Seq<char>) -> Seq<Seq<char>>
    decreases s.len(),
    via words_of_decreases
{
    let rest = trimmed_start(s);
    let end = index_where(rest, 0, white_space_chars());
    if rest.len() == 0 {
        Seq::empty()
    } else {
        seq![rest.subrange(0, end)] + words_of(rest.skip(end))
    }
}

#[via_fn]
proof fn words_of_decreases(s: Seq<char>) {
    let rest = trimmed_start(s);
    lemma_trimmed_start(s);
    if rest.len() > 0 {
        lemma_index_where(rest, 0, white_space_chars());
        assert(!white_space(rest[0]));
    }
}

pub proof fn lemma_trimmed_start(s: Seq<char>)
    ensures
        trimmed_start(s).len() <= s.len(),
        trimmed_start(s).len() > 0 ==> !white_space(trimmed_start(s)[0]),
    decreases s.len(),
{
    if s.len() > 0 && white_space(s[0]) {
        lemma_trimmed_start(s.drop_first());
    }
}

/// White space before a text that starts with none is what trimming takes away.
pub proof fn lemma_trimmed_padding(padding: Seq<char>, s: Seq<char>)
    requires
        forall|i: int| 0 <= i < padding.len() ==> white_space(#[trigger] padding[i]),
        s.len() > 0 ==> !white_space(s[0]),
    ensures
        trimmed_start(padding + s) == s,
    decreases padding.len(),
{
    if padding.len() == 0 {
        assert(padding + s =~= s);
    } else {
        assert((padding + s)[0] == padding[0]);
        assert((padding + s).drop_first() =~= padding.drop_first() + s);
        lemma_trimmed_padding(padding.drop_first(), s);
    }
}

/// The words of a text.
pub fn words(s: &str) -> (result: Vec<String>)
    ensures
        views(result@) == words_of(s@),
{
    let chars = chars_of(s);
    let mut result: Vec<String> = Vec::new();
    let mut at: usize = 0;
    assert(chars@.skip(0) =~= chars@);
    assert(views(result@) =~= Seq::empty());
    loop
        invariant
            at <= chars@.len(),
            chars@ == s@,
            words_of(s@) == views(result@) + words_of(chars@.skip(at as int)),
        decreases chars@.len() - at,
    {
        let ghost before = views(result@);
        let start = leading_white_space(&chars, at);
        let ghost rest = chars@.skip(start as int);
        if start == chars.len() {
            assert(rest.len() == 0);
            assert(before + Seq::<Seq<char>>::empty() =~= before);
            return result;
        }
        let end = white_space_index(&chars, start);
        proof {
            lemma_trimmed_start(chars@.skip(at as int));
            lemma_index_where(chars@, start as int, white_space_chars());
            lemma_index_where_skip(chars@, start as int, start as int, white_space_chars());
            assert(rest[0] == chars@[start as int]);
            assert(end > start);
        }
        let word = string_of(&chars, start, end);
        assert(word@ =~= rest.subrange(0, end - start));
        assert(rest.skip(end - start) =~= chars@.skip(end as int));
        result.push(word);
        assert(views(result@) =~= before.push(word@));
        assert(before + (seq![word@] + words_of(chars@.skip(end as int))) =~= before.push(word@)
            + words_of(chars@.skip(end as int)));
        at = end;
    }
}

/// The lower-case letter of an ASCII upper-case letter; any other character as it is.
pub open spec fn ascii_lower(c: char) -> char {
    if 'A' <= c <= 'Z' {
        ((c as u8) + 32) as u8 as char
    } else {
        c
    }
}

/// The text with each ASCII upper-case letter in lower case.
pub open spec fn ascii_lowered(s: Seq<char>) -> Seq<char> {
    s.map_values(|c: char| ascii_lower(c))
}

pub fn to_ascii_lower(c: char) -> (result: char)
    ensures
        result == ascii_lower(c),
{
    if 'A' <= c && c <= 'Z' {
        ((c as u8) + 32) as char
    } else {
        c
    }
}

/// Turns each ASCII upper-case letter into lower case.
pub fn ascii_lowercase(s: &str) -> (result: String)
    ensures
        result@ == ascii_lowered(s@),
{
    let chars = chars_of(s);
    let mut result = String::new();
    let mut i: usize = 0;
    while i < chars.len()
        invariant
            i <= chars@.len(),
            result@ == ascii_lowered(chars@.take(i as int)),
        decreases chars@.len() - i,
    {
        result.push(to_ascii_lower(chars[i]));
        i += 1;
        assert(chars@.take(i as int) =~= chars@.take(i - 1).push(chars@[i - 1]));
        assert(ascii_lowered(chars@.take(i as int)) =~= ascii_lowered(chars@.take(i - 1)).push(
            ascii_lower(chars@[i - 1]),
        ));
    }
    assert(chars@.take(i as int) =~= chars@);
    result
}

/// Tells whether two texts are equal but for the case of ASCII letters.
pub fn eq_ignore_ascii_case(a: &str, b: &str) -> (result: bool)
    ensures
        result == (ascii_lowered(a@) == ascii_lowered(b@)),
{
    ascii_lowercase(a) == ascii_lowercase(b)
}

/// The text with `to` in place of each `from`.
pub open spec fn replaced(s: Seq<char>, from: char, to: char) -> Seq<char> {
    s.map_values(
        |c: char|
            if c == from {
                to
            } else {
                c
            },
    )
}

/// Puts `to` in place of each `from`.
pub fn replace_char(s: &str, from: char, to: char) -> (result: String)
    ensures
        result@ == replaced(s@, from, to),
{
    let chars = chars_of(s);
    let mut result = String::new();
    let mut i: usize = 0;
    while i < chars.len()
        invariant
            i <= chars@.len(),
            result@ == replaced(chars@.take(i as int), from, to),
        decreases chars@.len() - i,
    {
        let c = if chars[i] == from {
            to
        } else {
            chars[i]
        };
        result.push(c);
        i += 1;
        assert(chars@.take(i as int) =~= chars@.take(i - 1).push(chars@[i - 1]));
        assert(replaced(chars@.take(i as int), from, to) =~= replaced(
            chars@.take(i - 1),
            from,
            to,
        ).push(c));
    }
    assert(chars@.take(i as int) =~= chars@);
    result
}

/// The texts one after another, with `separator` between each two.
pub open spec fn joined(parts: Seq<Seq<char>>, separator: Seq<char>) -> Seq<char>
    decreases parts.len(),
{
    if parts.len() == 0 {
        Seq::empty()
    } else if parts.len() == 1 {
        parts[0]
    } else {
        joined(parts.drop_last(), separator) + separator + parts.last()
    }
}

/// Joined texts start with the first of them, and go on with the others.
pub proof fn lemma_joined_front(parts: Seq<Seq<char>>, separator: Seq<char>)
    requires
        parts.len() >= 2,
    ensures
        joined(parts, separator) == parts[0] + separator + joined(parts.drop_first(), separator),
    decreases parts.len(),
{
    let front = parts.drop_last();
    let rest = parts.drop_first();
    if parts.len() == 2 {
        assert(joined(front, separator) == parts[0]);
    } else {
        lemma_joined_front(front, separator);
        assert(front.drop_first() =~= rest.drop_last());
    }
    assert(joined(parts, separator) =~= parts[0] + separator + joined(rest, separator));
}

/// Joins texts with `separator` between each two.
pub fn join(parts: &Vec<String>, separator: &str) -> (result: String)
    ensures
        result@ == joined(views(parts@), separator@),
{
    let ghost texts = views(parts@);
    let mut result = String::new();
    let mut i: usize = 0;
    assert(texts.take(0) =~= Seq::empty());
    while i < parts.len()
        invariant
            i <= parts@.len(),
            texts == views(parts@),
            result@ == joined(texts.take(i as int), separator@),
        decreases parts@.len() - i,
    {
        let ghost before = texts.take(i as int);
        if i > 0 {
            result.append(separator);
        }
        result.append(parts[i].as_str());
        i += 1;
        proof {
            let now = texts.take(i as int);
            assert(now.drop_last() =~= before);
            assert(now.last() == parts@[i - 1]@);
            if i == 1 {
                assert(Seq::<char>::empty() + parts@[0]@ =~= parts@[0]@);
            }
        }
    }
    assert(texts.take(i as int) =~= texts);
    result
}

/// A text, or another where there is none.
pub open spec fn text_or(text: Option<Seq<char>>, other: Seq<char>) -> Seq<char> {
    match text {
        Some(given) => given,
        None => other,
    }
}

/// Trimming takes white space away, and nothing else: what is left stands in the
/// text in one piece, with white space alone around it, and has none at its ends.
pub proof fn trimming_takes_white_space_alone(s: Seq<char>) -> (bounds: (int, int))
    ensures
        0 <= bounds.0 <= bounds.1 <= s.len(),
        trimmed(s) == s.subrange(bounds.0, bounds.1),
        forall|i: int| 0 <= i < bounds.0 ==> white_space(#[trigger] s[i]),
        forall|i: int| bounds.1 <= i < s.len() ==> white_space(#[trigger] s[i]),
        trimmed(s).len() > 0 ==> !white_space(trimmed(s)[0]) && !white_space(trimmed(s).last()),
{
    lemma_trimmed_ends(s);
    let from = lemma_trimmed_start_at(s);
    let rest = trimmed_start(s);
    lemma_trimmed_end_at(rest, white_space_chars());
    lemma_trimmed_end(rest, white_space_chars());
    let to = from + trimmed(s).len();
    assert(trimmed(s) =~= s.subrange(from, to));
    assert forall|i: int| to <= i < s.len() implies white_space(#[trigger] s[i]) by {
        assert(rest[i - from] == s[i]);
        assert(white_space_chars()(rest[i - from]));
    }
    (from, to)
}

/// What trimming takes from the start is white space.
proof fn lemma_trimmed_start_at(s: Seq<char>) -> (from: int)
    ensures
        0 <= from <= s.len(),
        trimmed_start(s) == s.skip(from),
        forall|i: int| 0 <= i < from ==> white_space(#[trigger] s[i]),
    decreases s.len(),
{
    if s.len() > 0 && white_space(s[0]) {
        let rest = s.drop_first();
        let from = lemma_trimmed_start_at(rest);
        assert(rest.skip(from) =~= s.skip(from + 1));
        assert forall|i: int| 0 <= i < from + 1 implies white_space(#[trigger] s[i]) by {
            if i > 0 {
                assert(rest[i - 1] == s[i]);
            }
        }
        from + 1
    } else {
        assert(s.skip(0) =~= s);
        0
    }
}

/// What is taken from the end is what is picked.
proof fn lemma_trimmed_end_at(s: Seq<char>, p: spec_fn(char) -> bool)
    ensures
        trimmed_end_where(s, p).len() <= s.len(),
        forall|i: int| trimmed_end_where(s, p).len() <= i < s.len() ==> p(#[trigger] s[i]),
    decreases s.len(),
{
    if s.len() > 0 && p(s.last()) {
        let front = s.drop_last();
        lemma_trimmed_end_at(front, p);
        assert forall|i: int| trimmed_end_where(s, p).len() <= i < s.len() implies p(
            #[trigger] s[i],
        ) by {
            if i < front.len() {
                assert(front[i] == s[i]);
            }
        }
    }
}

/// A text is blank exactly where all of it is white space.
pub proof fn blank_texts_are_white_space(s: Seq<char>)
    ensures
        blank(s) <==> forall|i: int| 0 <= i < s.len() ==> white_space(#[trigger] s[i]),
{
    let bounds = trimming_takes_white_space_alone(s);
    if blank(s) {
        assert(bounds.0 == bounds.1);
    } else {
        assert(trimmed(s)[0] == s[bounds.0]);
    }
}

/// Blanks, tabs and the ends of lines are white space; what is printed in ASCII is
/// not.
pub proof fn printed_characters_are_no_white_space(c: char)
    ensures
        c == ' ' || c == '\t' || c == '\n' || c == '\r' ==> white_space(c),
        '!' <= c <= '~' ==> !white_space(c),
{
}

/// A line that stands in front of a text, with a line feed behind it or a carriage
/// return and a line feed, is the first of its lines; the others are those of the
/// text.
pub proof fn first_line_is_taken_off(line: Seq<char>, rest: Seq<char>)
    requires
        !line.contains('\n'),
        line.len() > 0 ==> line.last() != '\r',
    ensures
        lines_of(line + "\n"@ + rest) == seq![line] + lines_of(rest),
        lines_of(line + "\r\n"@ + rest) == seq![line] + lines_of(rest),
        line.len() > 0 ==> lines_of(line) == seq![line],
        lines_of(Seq::empty()) == Seq::<Seq<char>>::empty(),
{
    reveal_strlit("\n");
    reveal_strlit("\r\n");
    let feed = |c: char| c == '\n';
    let end: int = line.len() as int;
    let plain = line + "\n"@ + rest;
    lemma_first_index(plain, end, feed);
    assert(plain.subrange(0, end) =~= line);
    assert(plain.skip(end + 1) =~= rest);
    let returned = line + "\r\n"@ + rest;
    lemma_first_index(returned, end + 1, feed);
    let ended = returned.subrange(0, end + 1);
    assert(ended.drop_last() =~= line);
    assert(ended.last() == '\r');
    assert(returned.skip(end + 2) =~= rest);
    lemma_first_index(line, end, feed);
}

/// A character that is picked, and none before it, is the first one.
proof fn lemma_first_index(s: Seq<char>, at: int, p: spec_fn(char) -> bool)
    requires
        0 <= at <= s.len(),
        at < s.len() ==> p(s[at]),
        forall|i: int| 0 <= i < at ==> !p(#[trigger] s[i]),
    ensures
        index_where(s, 0, p) == at,
{
    lemma_index_where(s, 0, p);
    let found = index_where(s, 0, p);
    if found < at {
        assert(p(s[found]));
    }
}

/// A word that stands in front of white space is the first of the words of a text;
/// the others are those of what follows. White space before the first word does not
/// count.
pub proof fn first_word_is_taken_off(word: Seq<char>, c: char, rest: Seq<char>)
    requires
        word.len() > 0,
        forall|i: int| 0 <= i < word.len() ==> !white_space(#[trigger] word[i]),
        white_space(c),
    ensures
        words_of(word + seq![c] + rest) == seq![word] + words_of(rest),
        words_of(word) == seq![word],
        words_of(seq![c] + rest) == words_of(rest),
        words_of(Seq::empty()) == Seq::<Seq<char>>::empty(),
{
    let text = word + seq![c] + rest;
    assert(text[0] == word[0]);
    assert(text[word.len() as int] == c);
    lemma_first_index(text, word.len() as int, white_space_chars());
    assert(text.subrange(0, word.len() as int) =~= word);
    let behind = text.skip(word.len() as int);
    assert(behind =~= seq![c] + rest);
    assert(behind.drop_first() =~= rest);
    assert(trimmed_start(behind) == trimmed_start(rest));
    assert(words_of(behind) == words_of(rest));
    lemma_first_index(word, word.len() as int, white_space_chars());
    assert(word.subrange(0, word.len() as int) =~= word);
    assert(word.skip(word.len() as int) =~= Seq::empty());
    assert(words_of(Seq::empty()) =~= Seq::<Seq<char>>::empty());
}

/// What follows a prefix is found behind it; a text that does not start with it has
/// nothing there.
pub proof fn prefixes_are_taken_off(s: Seq<char>, prefix: Seq<char>, rest: Seq<char>)
    ensures
        without_prefix(prefix + rest, prefix) == Some(rest),
        without_prefix(s, prefix) == Some(rest) ==> s == prefix + rest,
{
    let whole = prefix + rest;
    assert(whole.subrange(0, prefix.len() as int) =~= prefix);
    assert(whole.skip(prefix.len() as int) =~= rest);
    if without_prefix(s, prefix) == Some(rest) {
        assert(s =~= s.subrange(0, prefix.len() as int) + s.skip(prefix.len() as int));
    }
}

/// The letters A to Z become a to z, each the one at its place, and nothing else
/// changes.
pub proof fn lower_case_keeps_the_alphabet(c: char)
    ensures
        'A' <= c <= 'Z' ==> ascii_lower(c) as int - 'a' as int == c as int - 'A' as int,
        !('A' <= c <= 'Z') ==> ascii_lower(c) == c,
        ascii_lower(ascii_lower(c)) == ascii_lower(c),
{
}

/// A text stands in another exactly where the other is made of something, the text,
/// and something.
pub proof fn contained_texts_are_parts(front: Seq<char>, needle: Seq<char>, back: Seq<char>)
    ensures
        contains_text(front + needle + back, needle),
        occurs_at(front + needle + back, needle, front.len() as int),
{
    let hay = front + needle + back;
    let at: int = front.len() as int;
    assert(hay.subrange(at, at + needle.len()) =~= needle);
    assert(occurs_at(hay, needle, at));
}

/// Lists of texts are seen text by text.
pub proof fn lists_are_seen_text_by_text(list: Seq<String>, i: int)
    requires
        0 <= i < list.len(),
    ensures
        views(list).len() == list.len(),
        views(list)[i] == list[i]@,
{
}

/// A text that is there wins over the one that would take its place.
pub proof fn given_texts_win(text: Seq<char>, other: Seq<char>)
    ensures
        text_or(Some(text), other) == text,
        text_or(None, other) == other,
{
}

} // verus!
