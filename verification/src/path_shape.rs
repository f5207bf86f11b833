//! What a path is made of: by the rules of Unix, where a slash parts it, and by
//! those of Windows, where a backslash does so too and a drive, a share or a device
//! may stand in front.
use vstd::prelude::*;

use crate::text::{
    ascii_lower, index_where, lemma_index_where, lemma_index_where_skip, str_eq, string_of,
    to_ascii_lower, views,
};

verus! {

/// What stands between the parts of a path.
#[derive(Clone, Copy, Debug, PartialEq, Eq, Structural)]
pub enum Separators {
    Slash,
    Backslash,
    Both,
}

impl Separators {
    /// A character parts a path.
    pub open spec fn part_at(self, c: char) -> bool {
        match self {
            Separators::Slash => c == '/',
            Separators::Backslash => c == '\\',
            Separators::Both => c == '/' || c == '\\',
        }
    }

    /// The characters that part a path.
    pub open spec fn chars(self) -> spec_fn(char) -> bool {
        |c: char| self.part_at(c)
    }

    pub fn parts_at(self, c: char) -> (result: bool)
        ensures
            result == self.part_at(c),
    {
        match self {
            Separators::Slash => c == '/',
            Separators::Backslash => c == '\\',
            Separators::Both => c == '/' || c == '\\',
        }
    }
}

fn separator_index(chars: &Vec<char>, from: usize, separators: Separators) -> (index: usize)
    requires
        from <= chars@.len(),
    ensures
        index == index_where(chars@, from as int, separators.chars()),
        from <= index <= chars@.len(),
{
    let mut i: usize = from;
    while i < chars.len() && !separators.parts_at(chars[i])
        invariant
            from <= i <= chars@.len(),
            index_where(chars@, from as int, separators.chars()) == index_where(
                chars@,
                i as int,
                separators.chars(),
            ),
        decreases chars@.len() - i,
    {
        i += 1;
    }
    i
}

/// What a path of Windows can have in front of its parts. A path that is taken as it
/// is written is verbatim.
#[derive(Debug)]
pub enum PathPrefix {
    /// `\\?\name`
    Verbatim(String),
    /// `\\?\UNC\server\share`
    VerbatimShare(String, String),
    /// `\\?\C:`
    VerbatimDisk(char),
    /// `\\.\name`
    Device(String),
    /// `\\server\share`
    Share(String, String),
    /// `C:`
    Disk(char),
}

/// The prefix as the contracts speak of it. The letter of a drive is in lower case.
pub enum PathPrefixView {
    Verbatim(Seq<char>),
    VerbatimShare(Seq<char>, Seq<char>),
    VerbatimDisk(char),
    Device(Seq<char>),
    Share(Seq<char>, Seq<char>),
    Disk(char),
}

impl View for PathPrefix {
    type V = PathPrefixView;

    open spec fn view(&self) -> PathPrefixView {
        match self {
            PathPrefix::Verbatim(name) => PathPrefixView::Verbatim(name@),
            PathPrefix::VerbatimShare(server, share) => PathPrefixView::VerbatimShare(
                server@,
                share@,
            ),
            PathPrefix::VerbatimDisk(letter) => PathPrefixView::VerbatimDisk(*letter),
            PathPrefix::Device(name) => PathPrefixView::Device(name@),
            PathPrefix::Share(server, share) => PathPrefixView::Share(server@, share@),
            PathPrefix::Disk(letter) => PathPrefixView::Disk(*letter),
        }
    }
}

impl PathPrefixView {
    /// What follows is taken as it is written.
    pub open spec fn verbatim(self) -> bool {
        self is Verbatim || self is VerbatimShare || self is VerbatimDisk
    }
}

impl PathPrefix {
    pub fn is_verbatim(&self) -> (result: bool)
        ensures
            result == self@.verbatim(),
    {
        match self {
            PathPrefix::Verbatim(_) => true,
            PathPrefix::VerbatimShare(_, _) => true,
            PathPrefix::VerbatimDisk(_) => true,
            _ => false,
        }
    }

    pub fn is_disk(&self) -> (result: bool)
        ensures
            result == (self@ is Disk),
    {
        match self {
            PathPrefix::Disk(_) => true,
            _ => false,
        }
    }

    fn same(&self, other: &PathPrefix) -> (result: bool)
        ensures
            result == (self@ == other@),
    {
        match (self, other) {
            (PathPrefix::Verbatim(a), PathPrefix::Verbatim(b)) => str_eq(a.as_str(), b.as_str()),
            (PathPrefix::VerbatimShare(a, x), PathPrefix::VerbatimShare(b, y)) => str_eq(
                a.as_str(),
                b.as_str(),
            ) && str_eq(x.as_str(), y.as_str()),
            (PathPrefix::VerbatimDisk(a), PathPrefix::VerbatimDisk(b)) => *a == *b,
            (PathPrefix::Device(a), PathPrefix::Device(b)) => str_eq(a.as_str(), b.as_str()),
            (PathPrefix::Share(a, x), PathPrefix::Share(b, y)) => str_eq(a.as_str(), b.as_str())
                && str_eq(x.as_str(), y.as_str()),
            (PathPrefix::Disk(a), PathPrefix::Disk(b)) => *a == *b,
            _ => false,
        }
    }
}

/// The letter of a drive and its colon stand at a position.
pub open spec fn drive_at(path: Seq<char>, at: int) -> bool {
    at + 1 < path.len() && ('a' <= path[at] <= 'z' || 'A' <= path[at] <= 'Z') && path[at + 1]
        == ':'
}

/// Where the next part of a path starts that has a part up to `end`.
pub open spec fn behind(path: Seq<char>, end: int) -> int {
    if end < path.len() {
        end + 1
    } else {
        path.len() as int
    }
}

/// What a verbatim path of Windows has in front, and how long that is.
pub open spec fn verbatim_prefix(path: Seq<char>) -> (PathPrefixView, int) {
    let only = Separators::Backslash.chars();
    if path.len() >= 8 && path[4] == 'U' && path[5] == 'N' && path[6] == 'C'
        && Separators::Both.part_at(path[7]) {
        let end = index_where(path, 8, only);
        let from = behind(path, end);
        let to = index_where(path, from, only);
        (
            PathPrefixView::VerbatimShare(path.subrange(8, end), path.subrange(from, to)),
            if from < to {
                to
            } else {
                end
            },
        )
    } else if drive_at(path, 4) && (path.len() == 6 || Separators::Both.part_at(path[6])) {
        (PathPrefixView::VerbatimDisk(ascii_lower(path[4])), 6)
    } else {
        let end = index_where(path, 4, only);
        (PathPrefixView::Verbatim(path.subrange(4, end)), end)
    }
}

/// A path of Windows is taken as it is written.
pub open spec fn starts_verbatim(path: Seq<char>) -> bool {
    path.len() >= 4 && path[0] == '\\' && path[1] == '\\' && path[2] == '?' && path[3] == '\\'
}

/// What a path of Windows has in front of its parts, and how long that is.
pub open spec fn prefix_of(path: Seq<char>) -> Option<(PathPrefixView, int)> {
    let both = Separators::Both;
    if path.len() >= 2 && both.part_at(path[0]) && both.part_at(path[1]) {
        if starts_verbatim(path) {
            Some(verbatim_prefix(path))
        } else if path.len() >= 4 && path[2] == '.' && both.part_at(path[3]) {
            let end = index_where(path, 4, both.chars());
            Some((PathPrefixView::Device(path.subrange(4, end)), end))
        } else {
            let end = index_where(path, 2, both.chars());
            let from = behind(path, end);
            let to = index_where(path, from, both.chars());
            if 2 < end && from < to {
                Some((PathPrefixView::Share(path.subrange(2, end), path.subrange(from, to)), to))
            } else {
                None
            }
        }
    } else if drive_at(path, 0) {
        Some((PathPrefixView::Disk(ascii_lower(path[0])), 2))
    } else {
        None
    }
}

fn is_drive_at(chars: &Vec<char>, at: usize) -> (result: bool)
    requires
        at <= chars@.len(),
    ensures
        result == drive_at(chars@, at as int),
{
    if chars.len() - at < 2 {
        return false;
    }
    let c = chars[at];
    (('a' <= c && c <= 'z') || ('A' <= c && c <= 'Z')) && chars[at + 1] == ':'
}

fn next_part(chars: &Vec<char>, end: usize) -> (from: usize)
    requires
        end <= chars@.len(),
    ensures
        from == behind(chars@, end as int),
        end <= from <= chars@.len(),
{
    if end < chars.len() {
        end + 1
    } else {
        end
    }
}

fn read_verbatim_prefix(chars: &Vec<char>) -> (result: (PathPrefix, usize))
    requires
        chars@.len() >= 4,
    ensures
        (result.0@, result.1 as int) == verbatim_prefix(chars@),
        result.1 <= chars@.len(),
{
    let only = Separators::Backslash;
    if chars.len() >= 8 && chars[4] == 'U' && chars[5] == 'N' && chars[6] == 'C'
        && Separators::Both.parts_at(chars[7]) {
        let end = separator_index(chars, 8, only);
        let from = next_part(chars, end);
        let to = separator_index(chars, from, only);
        let length: usize = if from < to {
            to
        } else {
            end
        };
        return (
            PathPrefix::VerbatimShare(string_of(chars, 8, end), string_of(chars, from, to)),
            length,
        );
    }
    if is_drive_at(chars, 4) && (chars.len() == 6 || Separators::Both.parts_at(chars[6])) {
        return (PathPrefix::VerbatimDisk(to_ascii_lower(chars[4])), 6);
    }
    let end = separator_index(chars, 4, only);
    (PathPrefix::Verbatim(string_of(chars, 4, end)), end)
}

/// Reads what a path of Windows has in front of its parts.
pub fn read_prefix(chars: &Vec<char>) -> (result: Option<(PathPrefix, usize)>)
    ensures
        match result {
            Some((prefix, length)) => prefix_of(chars@) == Some((prefix@, length as int))
                && length <= chars@.len(),
            None => prefix_of(chars@) is None,
        },
{
    let both = Separators::Both;
    if chars.len() >= 2 && both.parts_at(chars[0]) && both.parts_at(chars[1]) {
        if chars.len() >= 4 && chars[0] == '\\' && chars[1] == '\\' && chars[2] == '?' && chars[3]
            == '\\' {
            return Some(read_verbatim_prefix(chars));
        }
        if chars.len() >= 4 && chars[2] == '.' && both.parts_at(chars[3]) {
            let end = separator_index(chars, 4, both);
            return Some((PathPrefix::Device(string_of(chars, 4, end)), end));
        }
        let end = separator_index(chars, 2, both);
        let from = next_part(chars, end);
        let to = separator_index(chars, from, both);
        if 2 < end && from < to {
            return Some(
                (PathPrefix::Share(string_of(chars, 2, end), string_of(chars, from, to)), to),
            );
        }
        return None;
    }
    if is_drive_at(chars, 0) {
        return Some((PathPrefix::Disk(to_ascii_lower(chars[0])), 2));
    }
    None
}

/// The parts of a path between its separators. Empty parts say nothing, nor does
/// `.`, but at the start or where the path is taken as it is written.
pub open spec fn path_parts(
    path: Seq<char>,
    separators: Separators,
    verbatim: bool,
    at_start: bool,
) -> Seq<Seq<char>>
    decreases path.len(),
{
    let end = index_where(path, 0, separators.chars());
    if path.len() == 0 {
        Seq::empty()
    } else if 0 <= end < path.len() {
        kept_part(path.subrange(0, end), verbatim || at_start) + path_parts(
            path.skip(end + 1),
            separators,
            verbatim,
            false,
        )
    } else {
        kept_part(path, verbatim || at_start)
    }
}

/// A part of a path, where it says something.
pub open spec fn kept_part(part: Seq<char>, dot: bool) -> Seq<Seq<char>> {
    if part.len() == 0 || (part == "."@ && !dot) {
        Seq::empty()
    } else {
        seq![part]
    }
}

fn parts_of(
    chars: &Vec<char>,
    from: usize,
    separators: Separators,
    verbatim: bool,
    at_start: bool,
) -> (parts: Vec<String>)
    requires
        from <= chars@.len(),
    ensures
        views(parts@) == path_parts(chars@.skip(from as int), separators, verbatim, at_start),
{
    let ghost path = chars@;
    let ghost whole = path_parts(path.skip(from as int), separators, verbatim, at_start);
    let mut parts: Vec<String> = Vec::new();
    let mut start: usize = from;
    assert(views(parts@) =~= Seq::empty());
    assert(views(parts@) + whole =~= whole);
    while start < chars.len()
        invariant
            from <= start <= chars@.len(),
            path == chars@,
            whole == views(parts@) + path_parts(
                path.skip(start as int),
                separators,
                verbatim,
                at_start && start == from,
            ),
        decreases chars@.len() - start,
    {
        let ghost rest = path.skip(start as int);
        let ghost before = views(parts@);
        let first = at_start && start == from;
        let end = separator_index(chars, start, separators);
        proof {
            lemma_index_where_skip(path, start as int, start as int, separators.chars());
        }
        let part = string_of(chars, start, end);
        assert(part@ =~= rest.subrange(0, end - start));
        if !part.as_str().is_empty() && (verbatim || first || !str_eq(part.as_str(), ".")) {
            let ghost text = part@;
            parts.push(part);
            assert(views(parts@) =~= before + kept_part(text, verbatim || first));
        } else {
            assert(views(parts@) =~= before + kept_part(part@, verbatim || first));
        }
        if end < chars.len() {
            assert(rest.skip(end - start + 1) =~= path.skip(end + 1));
            assert(before + (kept_part(rest.subrange(0, end - start), verbatim || first)
                + path_parts(path.skip(end + 1), separators, verbatim, false)) =~= views(parts@)
                + path_parts(path.skip(end + 1), separators, verbatim, false));
            start = end + 1;
        } else {
            assert(rest.subrange(0, end - start) =~= rest);
            assert(path.skip(end as int) =~= Seq::empty());
            assert(views(parts@) + Seq::<Seq<char>>::empty() =~= views(parts@));
            start = end;
        }
    }
    assert(path.skip(start as int) =~= Seq::empty());
    assert(views(parts@) + Seq::<Seq<char>>::empty() =~= views(parts@));
    parts
}

/// What a path is made of.
#[derive(Debug)]
pub struct PathShape {
    /// What stands in front, on Windows.
    pub prefix: Option<PathPrefix>,
    /// The path leads from the root of the file system, or of what stands in front.
    pub rooted: bool,
    pub parts: Vec<String>,
}

/// The shape as the contracts speak of it.
pub struct PathShapeView {
    pub prefix: Option<PathPrefixView>,
    pub rooted: bool,
    pub parts: Seq<Seq<char>>,
}

/// A prefix as an optional value.
pub open spec fn option_prefix_view(prefix: Option<PathPrefix>) -> Option<PathPrefixView> {
    match prefix {
        Some(held) => Some(held@),
        None => None,
    }
}

impl View for PathShape {
    type V = PathShapeView;

    open spec fn view(&self) -> PathShapeView {
        PathShapeView {
            prefix: option_prefix_view(self.prefix),
            rooted: self.rooted,
            parts: views(self.parts@),
        }
    }
}

/// What a path without a prefix is made of.
pub open spec fn bare_shape(path: Seq<char>, separators: Separators) -> PathShapeView {
    PathShapeView {
        prefix: None,
        rooted: path.len() > 0 && separators.part_at(path[0]),
        parts: path_parts(path, separators, false, true),
    }
}

/// What a path is made of. What has a prefix on Windows leads from the root of it,
/// but behind a drive and where it is taken as it is written: there only with a
/// separator.
pub open spec fn shape_of(path: Seq<char>, windows: bool) -> PathShapeView {
    if !windows {
        bare_shape(path, Separators::Slash)
    } else {
        match prefix_of(path) {
            Some((prefix, length)) => {
                let separated = length < path.len() && Separators::Both.part_at(path[length]);
                let from = if separated {
                    length + 1
                } else {
                    length
                };
                PathShapeView {
                    prefix: Some(prefix),
                    rooted: separated || !(prefix is Disk || prefix.verbatim()),
                    parts: path_parts(
                        path.skip(from),
                        if prefix.verbatim() {
                            Separators::Backslash
                        } else {
                            Separators::Both
                        },
                        prefix.verbatim(),
                        false,
                    ),
                }
            },
            None => bare_shape(path, Separators::Both),
        }
    }
}

fn read_bare_shape(chars: &Vec<char>, separators: Separators) -> (shape: PathShape)
    ensures
        shape@ == bare_shape(chars@, separators),
{
    let parts = parts_of(chars, 0, separators, false, true);
    assert(chars@.skip(0) =~= chars@);
    PathShape {
        prefix: None,
        rooted: chars.len() > 0 && separators.parts_at(chars[0]),
        parts,
    }
}

/// Takes a path apart.
pub fn read_shape(chars: &Vec<char>, windows: bool) -> (shape: PathShape)
    ensures
        shape@ == shape_of(chars@, windows),
{
    if !windows {
        return read_bare_shape(chars, Separators::Slash);
    }
    match read_prefix(chars) {
        Some((prefix, length)) => {
            let separated = length < chars.len() && Separators::Both.parts_at(chars[length]);
            let from: usize = if separated {
                length + 1
            } else {
                length
            };
            let verbatim = prefix.is_verbatim();
            let separators = if verbatim {
                Separators::Backslash
            } else {
                Separators::Both
            };
            let parts = parts_of(chars, from, separators, verbatim, false);
            let rooted = separated || !(prefix.is_disk() || verbatim);
            PathShape { prefix: Some(prefix), rooted, parts }
        },
        None => read_bare_shape(chars, Separators::Both),
    }
}

fn lists_equal(a: &Vec<String>, b: &Vec<String>) -> (result: bool)
    ensures
        result == (views(a@) == views(b@)),
{
    let ghost left = views(a@);
    let ghost right = views(b@);
    if a.len() != b.len() {
        assert(left.len() != right.len());
        return false;
    }
    let mut i: usize = 0;
    while i < a.len()
        invariant
            i <= a@.len(),
            a@.len() == b@.len(),
            left == views(a@),
            right == views(b@),
            forall|j: int| 0 <= j < i ==> left[j] == right[j],
        decreases a@.len() - i,
    {
        assert(left[i as int] == a@[i as int]@ && right[i as int] == b@[i as int]@);
        if !str_eq(a[i].as_str(), b[i].as_str()) {
            return false;
        }
        i += 1;
    }
    assert(left =~= right);
    true
}

impl PathShape {
    /// Tells whether two paths are made of the same.
    pub fn same(&self, other: &PathShape) -> (result: bool)
        ensures
            result == (self@ == other@),
    {
        let prefixes = match (&self.prefix, &other.prefix) {
            (Some(a), Some(b)) => a.same(b),
            (None, None) => true,
            _ => false,
        };
        prefixes && self.rooted == other.rooted && lists_equal(&self.parts, &other.parts)
    }
}

/// The parts of a path that is put together with a separator are those of its front
/// and then those of what follows.
pub proof fn parts_are_put_together(
    front: Seq<char>,
    separator: char,
    back: Seq<char>,
    separators: Separators,
    verbatim: bool,
    at_start: bool,
)
    requires
        separators.part_at(separator),
    ensures
        path_parts(front + seq![separator] + back, separators, verbatim, at_start) == path_parts(
            front,
            separators,
            verbatim,
            at_start,
        ) + path_parts(back, separators, verbatim, false),
    decreases front.len(),
{
    let path = front + seq![separator] + back;
    let p = separators.chars();
    let at: int = front.len() as int;
    lemma_index_where(path, 0, p);
    lemma_index_where(front, 0, p);
    let end = index_where(path, 0, p);
    let inner = index_where(front, 0, p);
    assert(path[at] == separator);
    if end > at {
        assert(!p(path[at]));
    }
    if inner < at {
        assert(path[inner] == front[inner]);
        if end < inner {
            assert(path[end] == front[end]);
        }
        if end > inner {
            assert(!p(path[inner]));
        }
        let rest = front.skip(inner + 1);
        parts_are_put_together(rest, separator, back, separators, verbatim, false);
        assert(path.skip(end + 1) =~= rest + seq![separator] + back);
        assert(path.subrange(0, end) =~= front.subrange(0, inner));
        assert(path_parts(path, separators, verbatim, at_start) =~= path_parts(
            front,
            separators,
            verbatim,
            at_start,
        ) + path_parts(back, separators, verbatim, false));
    } else {
        if end < at {
            assert(path[end] == front[end]);
        }
        assert(path.subrange(0, end) =~= front);
        assert(path.skip(end + 1) =~= back);
        if front.len() == 0 {
            assert(kept_part(front, verbatim || at_start) =~= Seq::empty());
            assert(path_parts(front, separators, verbatim, at_start) =~= Seq::empty());
        }
    }
}

/// A name without separators is one part, unless it is `.` behind another part; an
/// empty one is none.
pub proof fn names_are_single_parts(
    name: Seq<char>,
    separators: Separators,
    verbatim: bool,
    at_start: bool,
)
    requires
        forall|i: int| 0 <= i < name.len() ==> !separators.part_at(#[trigger] name[i]),
    ensures
        name.len() > 0 && (name != "."@ || verbatim || at_start) ==> path_parts(
            name,
            separators,
            verbatim,
            at_start,
        ) == seq![name],
        name.len() == 0 || (name == "."@ && !verbatim && !at_start) ==> path_parts(
            name,
            separators,
            verbatim,
            at_start,
        ) == Seq::<Seq<char>>::empty(),
{
    let p = separators.chars();
    lemma_index_where(name, 0, p);
    let end = index_where(name, 0, p);
    if end < name.len() {
        assert(p(name[end]));
    }
}

/// The letter of a drive is the same in upper and in lower case, and two letters are
/// different drives.
pub proof fn drives_are_told_by_their_letter(letter: char, other: char, rest: Seq<char>)
    requires
        'a' <= letter <= 'z' || 'A' <= letter <= 'Z',
        'a' <= other <= 'z' || 'A' <= other <= 'Z',
    ensures
        prefix_of(seq![letter, ':'] + rest) == Some(
            (PathPrefixView::Disk(ascii_lower(letter)), 2int),
        ),
        shape_of(seq![letter, ':'] + rest, true) == shape_of(seq![other, ':'] + rest, true)
            <==> ascii_lower(letter) == ascii_lower(other),
{
    let first = seq![letter, ':'] + rest;
    let second = seq![other, ':'] + rest;
    assert(first[0] == letter && first[1] == ':');
    assert(second[0] == other && second[1] == ':');
    assert(first.len() == second.len());
    assert(first.skip(2) =~= rest);
    assert(second.skip(2) =~= rest);
    if rest.len() > 0 {
        assert(first.skip(3) =~= second.skip(3));
        assert(first[2] == rest[0] && second[2] == rest[0]);
    }
}

/// A slash and a backslash part a path of Windows alike, but where it is taken as it
/// is written; on Unix only a slash does.
pub proof fn separators_of_the_systems(c: char)
    ensures
        Separators::Both.part_at(c) <==> c == '/' || c == '\\',
        Separators::Slash.part_at(c) <==> c == '/',
        Separators::Backslash.part_at(c) <==> c == '\\',
{
}

/// The next separator of a path stands where nothing before it parts the path.
proof fn lemma_next_separator(path: Seq<char>, from: int, at: int, separators: Separators)
    requires
        0 <= from <= at <= path.len(),
        at < path.len() ==> separators.part_at(path[at]),
        forall|i: int| from <= i < at ==> !separators.part_at(#[trigger] path[i]),
    ensures
        index_where(path, from, separators.chars()) == at,
{
    let p = separators.chars();
    lemma_index_where(path, from, p);
    let found = index_where(path, from, p);
    if found < at {
        assert(p(path[found]));
    }
    if found > at {
        assert(!p(path[at]));
    }
}

/// A path of a share has the server and the share in front, as far as the share goes;
/// one of a device has the device there.
pub proof fn shares_and_devices_stand_in_front(
    server: Seq<char>,
    share: Seq<char>,
    rest: Seq<char>,
)
    requires
        server.len() > 0,
        share.len() > 0,
        server != "?"@,
        server != "."@,
        forall|i: int| 0 <= i < server.len() ==> #[trigger] server[i] != '/' && server[i] != '\\',
        forall|i: int| 0 <= i < share.len() ==> #[trigger] share[i] != '/' && share[i] != '\\',
    ensures
        prefix_of(seq!['\\', '\\'] + server + seq!['\\'] + share + seq!['\\'] + rest) == Some(
            (PathPrefixView::Share(server, share), 3 + server.len() as int + share.len()),
        ),
        prefix_of(seq!['\\', '\\', '.', '\\'] + share + seq!['\\'] + rest) == Some(
            (PathPrefixView::Device(share), 4 + share.len() as int),
        ),
{
    reveal_strlit("?");
    reveal_strlit(".");
    let both = Separators::Both;
    let path = seq!['\\', '\\'] + server + seq!['\\'] + share + seq!['\\'] + rest;
    let end: int = 2 + server.len() as int;
    let to: int = end + 1 + share.len();
    assert forall|i: int| 2 <= i < end implies !both.part_at(#[trigger] path[i]) by {
        assert(path[i] == server[i - 2]);
    }
    assert forall|i: int| end + 1 <= i < to implies !both.part_at(#[trigger] path[i]) by {
        assert(path[i] == share[i - end - 1]);
    }
    assert(path[end] == '\\' && path[to] == '\\');
    lemma_next_separator(path, 2, end, both);
    lemma_next_separator(path, end + 1, to, both);
    assert(path.subrange(2, end) =~= server);
    assert(path.subrange(end + 1, to) =~= share);
    if path[3] == '\\' {
        assert(server.len() == 1);
        assert(server =~= seq![path[2]]);
        if path[2] == '?' {
            assert(server =~= "?"@);
        }
        if path[2] == '.' {
            assert(server =~= "."@);
        }
    }
    let device = seq!['\\', '\\', '.', '\\'] + share + seq!['\\'] + rest;
    let stop: int = 4 + share.len() as int;
    assert forall|i: int| 4 <= i < stop implies !both.part_at(#[trigger] device[i]) by {
        assert(device[i] == share[i - 4]);
    }
    assert(device[stop] == '\\');
    lemma_next_separator(device, 4, stop, both);
    assert(device.subrange(4, stop) =~= share);
}

/// A path that is taken as it is written has a drive, a share or a name in front,
/// behind the mark that says so.
pub proof fn verbatim_paths_have_their_mark(
    letter: char,
    server: Seq<char>,
    share: Seq<char>,
    rest: Seq<char>,
)
    requires
        'a' <= letter <= 'z' || 'A' <= letter <= 'Z',
        server.len() > 0,
        share.len() > 0,
        server != "UNC"@,
        server.len() != 2,
        forall|i: int| 0 <= i < server.len() ==> #[trigger] server[i] != '\\' && server[i] != '/',
        forall|i: int| 0 <= i < share.len() ==> #[trigger] share[i] != '\\',
    ensures
        ({
            let mark = seq!['\\', '\\', '?', '\\'];
            &&& prefix_of(mark + seq![letter, ':', '\\'] + rest) == Some(
                (PathPrefixView::VerbatimDisk(ascii_lower(letter)), 6int),
            )
            &&& prefix_of(mark + server + seq!['\\'] + rest) == Some(
                (PathPrefixView::Verbatim(server), 4 + server.len() as int),
            )
            &&& prefix_of(
                mark + seq!['U', 'N', 'C', '\\'] + server + seq!['\\'] + share + seq!['\\']
                    + rest,
            ) == Some(
                (
                    PathPrefixView::VerbatimShare(server, share),
                    9 + server.len() as int + share.len(),
                ),
            )
        }),
{
    reveal_strlit("UNC");
    let only = Separators::Backslash;
    let mark = seq!['\\', '\\', '?', '\\'];
    let disk = mark + seq![letter, ':', '\\'] + rest;
    assert(disk[4] == letter && disk[5] == ':' && disk[6] == '\\');
    assert(!(disk[4] == 'U' && disk[5] == 'N'));
    let named = mark + server + seq!['\\'] + rest;
    let end: int = 4 + server.len() as int;
    assert forall|i: int| 4 <= i < end implies !only.part_at(#[trigger] named[i]) by {
        assert(named[i] == server[i - 4]);
    }
    assert(named[end] == '\\');
    lemma_next_separator(named, 4, end, only);
    assert(named.subrange(4, end) =~= server);
    assert(named[4] == server[0]);
    if server.len() >= 4 {
        assert(named[7] == server[3]);
        assert(named[6] == server[2]);
    } else if server.len() == 3 {
        assert(named[5] == server[1] && named[6] == server[2]);
        if named[4] == 'U' && named[5] == 'N' && named[6] == 'C' {
            assert(server =~= "UNC"@);
        }
    } else {
        assert(named[5] == '\\');
    }
    assert(!drive_at(named, 4) || named.len() > 6);
    let shared = mark + seq!['U', 'N', 'C', '\\'] + server + seq!['\\'] + share + seq!['\\'] + rest;
    let stop: int = 8 + server.len() as int;
    let to: int = stop + 1 + share.len();
    assert(shared[4] == 'U' && shared[5] == 'N' && shared[6] == 'C' && shared[7] == '\\');
    assert forall|i: int| 8 <= i < stop implies !only.part_at(#[trigger] shared[i]) by {
        assert(shared[i] == server[i - 8]);
    }
    assert forall|i: int| stop + 1 <= i < to implies !only.part_at(#[trigger] shared[i]) by {
        assert(shared[i] == share[i - stop - 1]);
    }
    assert(shared[stop] == '\\' && shared[to] == '\\');
    lemma_next_separator(shared, 8, stop, only);
    lemma_next_separator(shared, stop + 1, to, only);
    assert(shared.subrange(8, stop) =~= server);
    assert(shared.subrange(stop + 1, to) =~= share);
}

} // verus!
