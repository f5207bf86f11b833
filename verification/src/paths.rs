//! File paths as texts: joining and comparing them. `windows` tells everywhere
//! whether the rules are those of Windows or of Unix.
use vstd::prelude::*;

use crate::arguments::push_text;
use crate::path_shape::{
    drives_are_told_by_their_letter, names_are_single_parts, parts_are_put_together, path_parts,
    prefix_of, read_prefix, read_shape, shape_of, PathPrefixView, PathShape, PathShapeView,
    Separators,
};
use crate::text::{
    ascii_lower, chars_of, join, joined, option_str_view, owned, str_eq, string_of, views,
};

verus! {

/// A path taken from a directory, by the rules of Unix: an absolute one stands for
/// itself.
pub open spec fn unix_path_below(directory: Seq<char>, path: Seq<char>) -> Seq<char> {
    if directory.len() == 0 || (path.len() > 0 && path[0] == '/') {
        path
    } else if directory.last() == '/' {
        directory + path
    } else {
        directory + "/"@ + path
    }
}

/// The parts that one comes to from some parts by the steps of a path: `..` leads
/// back, but not before what `..` or `.` led to.
pub open spec fn walked(parts: Seq<Seq<char>>, steps: Seq<Seq<char>>) -> Seq<Seq<char>>
    decreases steps.len(),
{
    if steps.len() == 0 {
        parts
    } else {
        let before = walked(parts, steps.drop_last());
        let step = steps.last();
        if step == "."@ {
            before
        } else if step == ".."@ {
            if before.len() > 0 && before.last() != "."@ && before.last() != ".."@ {
                before.drop_last()
            } else {
                before
            }
        } else {
            before.push(step)
        }
    }
}

/// A path taken from a directory of Windows that is taken as it is written.
pub open spec fn verbatim_path_below(
    front: Seq<char>,
    directory: PathShapeView,
    path: PathShapeView,
) -> Seq<char> {
    let parts = walked(
        if path.rooted {
            Seq::empty()
        } else {
            directory.parts
        },
        path.parts,
    );
    let rooted = directory.rooted || path.rooted;
    front + if rooted || parts.len() > 0 {
        "\\"@
    } else {
        Seq::empty()
    } + joined(parts, "\\"@)
}

/// A path taken from a directory, by the rules of Windows: one with a prefix stands
/// for itself, one that leads from a root keeps the prefix of the directory, and
/// nothing is put between a bare drive and a path.
pub open spec fn windows_path_below(directory: Seq<char>, path: Seq<char>) -> Seq<char> {
    let steps = shape_of(path, true);
    if steps.prefix is Some {
        path
    } else {
        match prefix_of(directory) {
            Some((prefix, length)) => if prefix.verbatim() && path.len() > 0 {
                verbatim_path_below(directory.take(length), shape_of(directory, true), steps)
            } else if steps.rooted {
                directory.take(length) + path
            } else if prefix is Disk && length == directory.len() {
                directory + path
            } else {
                separated_windows_path(directory, path)
            },
            None => if steps.rooted {
                path
            } else {
                separated_windows_path(directory, path)
            },
        }
    }
}

/// A path behind a directory, with a backslash in between where none is there.
pub open spec fn separated_windows_path(directory: Seq<char>, path: Seq<char>) -> Seq<char> {
    if directory.len() == 0 || Separators::Both.part_at(directory.last()) {
        directory + path
    } else {
        directory + "\\"@ + path
    }
}

/// A path taken from a directory.
pub open spec fn path_below(directory: Seq<char>, path: Seq<char>, windows: bool) -> Seq<char> {
    if windows {
        windows_path_below(directory, path)
    } else {
        unix_path_below(directory, path)
    }
}

/// Two paths that are made of the same.
pub open spec fn paths_equal(a: Seq<char>, b: Seq<char>, windows: bool) -> bool {
    shape_of(a, windows) == shape_of(b, windows)
}

fn unix_join(directory: &str, path: &str) -> (result: String)
    ensures
        result@ == unix_path_below(directory@, path@),
{
    let chars = chars_of(directory);
    let steps = chars_of(path);
    if chars.len() == 0 || (steps.len() > 0 && steps[0] == '/') {
        return owned(path);
    }
    let mut result = owned(directory);
    if chars[chars.len() - 1] != '/' {
        result.append("/");
    }
    result.append(path);
    result
}

fn walk(parts: Vec<String>, steps: &Vec<String>) -> (result: Vec<String>)
    ensures
        views(result@) == walked(views(parts@), views(steps@)),
{
    let ghost start = views(parts@);
    let ghost all = views(steps@);
    let mut result = parts;
    let mut i: usize = 0;
    assert(all.take(0) =~= Seq::empty());
    while i < steps.len()
        invariant
            i <= steps@.len(),
            all == views(steps@),
            views(result@) == walked(start, all.take(i as int)),
        decreases steps@.len() - i,
    {
        let ghost before = views(result@);
        let step = steps[i].as_str();
        assert(all[i as int] == step@);
        assert(all.take(i + 1).drop_last() =~= all.take(i as int));
        assert(all.take(i + 1).last() == step@);
        if str_eq(step, ".") {
        } else if str_eq(step, "..") {
            let count: usize = result.len();
            if count > 0 {
                assert(before.last() == result@[count - 1]@);
                let named = !str_eq(result[count - 1].as_str(), ".") && !str_eq(
                    result[count - 1].as_str(),
                    "..",
                );
                if named {
                    let _ = result.pop();
                    assert(views(result@) =~= before.drop_last());
                }
            }
        } else {
            push_text(&mut result, step);
        }
        i += 1;
    }
    assert(all.take(i as int) =~= all);
    result
}

fn verbatim_join(front: String, directory: PathShape, path: PathShape) -> (result: String)
    ensures
        result@ == verbatim_path_below(front@, directory@, path@),
{
    let rooted = directory.rooted || path.rooted;
    let kept: Vec<String> = if path.rooted {
        Vec::new()
    } else {
        directory.parts
    };
    assert(path.rooted ==> views(kept@) =~= Seq::<Seq<char>>::empty());
    let parts = walk(kept, &path.parts);
    let mut result = front;
    let ghost before = result@;
    if rooted || parts.len() > 0 {
        result.append("\\");
    } else {
        assert(before + Seq::<char>::empty() =~= before);
    }
    result.append(join(&parts, "\\").as_str());
    result
}

fn separated_join(directory: &str, path: &str) -> (result: String)
    ensures
        result@ == separated_windows_path(directory@, path@),
{
    let chars = chars_of(directory);
    let mut result = owned(directory);
    if chars.len() > 0 && !Separators::Both.parts_at(chars[chars.len() - 1]) {
        result.append("\\");
    }
    result.append(path);
    result
}

fn windows_join(directory: &str, path: &str) -> (result: String)
    ensures
        result@ == windows_path_below(directory@, path@),
{
    let chars = chars_of(directory);
    let path_chars = chars_of(path);
    let steps = read_shape(&path_chars, true);
    if steps.prefix.is_some() {
        return owned(path);
    }
    match read_prefix(&chars) {
        Some((prefix, length)) => {
            let mut front = string_of(&chars, 0, length);
            assert(front@ =~= directory@.take(length as int));
            if prefix.is_verbatim() && path_chars.len() > 0 {
                verbatim_join(front, read_shape(&chars, true), steps)
            } else if steps.rooted {
                front.append(path);
                front
            } else if prefix.is_disk() && length == chars.len() {
                let mut result = owned(directory);
                result.append(path);
                result
            } else {
                separated_join(directory, path)
            }
        },
        None => if steps.rooted {
            owned(path)
        } else {
            separated_join(directory, path)
        },
    }
}

/// Takes a path from a directory. `windows` tells whether the rules are those of
/// Windows.
pub fn join_path(directory: &str, path: &str, windows: bool) -> (result: String)
    ensures
        result@ == path_below(directory@, path@, windows),
{
    if windows {
        windows_join(directory, path)
    } else {
        unix_join(directory, path)
    }
}

/// Two optional paths that are both missing or equal.
pub open spec fn option_paths_equal(
    a: Option<Seq<char>>,
    b: Option<Seq<char>>,
    windows: bool,
) -> bool {
    match (a, b) {
        (Some(x), Some(y)) => paths_equal(x, y, windows),
        (None, None) => true,
        _ => false,
    }
}

/// Tells whether two paths are made of the same.
pub fn same_path(a: &str, b: &str, windows: bool) -> (result: bool)
    ensures
        result == paths_equal(a@, b@, windows),
{
    let left = read_shape(&chars_of(a), windows);
    let right = read_shape(&chars_of(b), windows);
    left.same(&right)
}

/// Tells whether two optional paths are both missing or equal.
pub fn same_option_path(a: Option<&str>, b: Option<&str>, windows: bool) -> (result: bool)
    ensures
        result == option_paths_equal(option_str_view(a), option_str_view(b), windows),
{
    match (a, b) {
        (Some(x), Some(y)) => same_path(x, y, windows),
        (None, None) => true,
        _ => false,
    }
}

/// Two paths lead to one file: they are the same, or their canonical forms are.
pub open spec fn one_file(
    left: Seq<char>,
    right: Seq<char>,
    canonical_left: Option<Seq<char>>,
    canonical_right: Option<Seq<char>>,
    windows: bool,
) -> bool {
    paths_equal(left, right, windows) || (canonical_left is Some && canonical_right is Some
        && paths_equal(canonical_left->Some_0, canonical_right->Some_0, windows))
}

/// Tells whether two paths lead to one file. A canonical form is missing where
/// the file is.
pub fn paths_refer_to_same_file(
    left: &str,
    right: &str,
    canonical_left: Option<&str>,
    canonical_right: Option<&str>,
    windows: bool,
) -> (result: bool)
    ensures
        result == one_file(
            left@,
            right@,
            option_str_view(canonical_left),
            option_str_view(canonical_right),
            windows,
        ),
{
    if same_path(left, right, windows) {
        return true;
    }
    match (canonical_left, canonical_right) {
        (Some(a), Some(b)) => same_path(a, b, windows),
        _ => false,
    }
}

/// The path that a program was started by, made absolute; none where it was
/// started without one.
pub fn executable_candidate(
    arg0: Option<&str>,
    absolute: bool,
    current_dir: &str,
    windows: bool,
) -> (path: Option<String>)
    ensures
        match path {
            Some(candidate) => arg0 is Some && arg0->Some_0@.len() > 0 && candidate@
                == if absolute {
                arg0->Some_0@
            } else {
                path_below(current_dir@, arg0->Some_0@, windows)
            },
            None => arg0 is None || arg0->Some_0@.len() == 0,
        },
{
    match arg0 {
        Some(path) => if chars_of(path).len() == 0 {
            None
        } else if absolute {
            Some(owned(path))
        } else {
            Some(join_path(current_dir, path, windows))
        },
        None => None,
    }
}

/// The name of a file of a record: it ends in `.json`, after something else.
pub open spec fn record_file_name(name: Seq<char>) -> bool {
    name.len() > 5 && name.skip(name.len() - 5) == ".json"@
}

/// Tells whether a file is a record, by its name.
pub fn is_record_file(name: &str) -> (result: bool)
    ensures
        result == record_file_name(name@),
{
    let chars = chars_of(name);
    let len: usize = chars.len();
    if len <= 5 {
        return false;
    }
    let ending = string_of(&chars, len - 5, len);
    assert(ending@ =~= name@.skip(name@.len() - 5));
    str_eq(ending.as_str(), ".json")
}

/// A directory, and whether it holds one of the marks of a project.
#[derive(Debug)]
pub struct Directory {
    pub path: String,
    pub marked: bool,
}

/// The entries that mark the directory of a project.
pub open spec fn marks() -> Seq<Seq<char>> {
    seq![".simdeck"@, ".git"@, "package.json"@, "xcodeproj"@]
}

/// The entries that mark the directory of a project.
pub fn project_marks() -> (names: Vec<String>)
    ensures
        views(names@) == marks(),
{
    let mut names: Vec<String> = Vec::new();
    push_text(&mut names, ".simdeck");
    push_text(&mut names, ".git");
    push_text(&mut names, "package.json");
    push_text(&mut names, "xcodeproj");
    assert(views(names@) =~= marks());
    names
}

/// The directory of the project around a directory. `directories` leads from
/// that directory up to the root of the file system; the nearest one with a
/// mark is the project's, and the first one where none has any.
pub fn project_root(directories: &Vec<Directory>) -> (root: Option<&str>)
    ensures
        match root {
            Some(path) => exists|i: int|
                {
                    &&& 0 <= i < directories@.len()
                    &&& path@ == (#[trigger] directories@[i]).path@
                    &&& forall|j: int|
                        0 <= j < directories@.len() && (#[trigger] directories@[j]).marked
                            ==> i <= j
                    &&& directories@[i].marked || i == 0
                    &&& !directories@[i].marked ==> forall|j: int|
                        0 <= j < directories@.len() ==> !(#[trigger] directories@[j]).marked
                },
            None => directories@.len() == 0,
        },
{
    let mut index: usize = 0;
    while index < directories.len()
        invariant
            index <= directories@.len(),
            forall|j: int| 0 <= j < index ==> !(#[trigger] directories@[j]).marked,
        decreases directories@.len() - index,
    {
        if directories[index].marked {
            let found = &directories[index];
            assert(directories@[index as int].marked);
            return Some(found.path.as_str());
        }
        index = index + 1;
    }
    if directories.len() == 0 {
        None
    } else {
        let first = &directories[0];
        assert(!directories@[0].marked);
        Some(first.path.as_str())
    }
}

/// The built client below a directory.
pub open spec fn client_below(directory: Seq<char>, windows: bool) -> Seq<char> {
    path_below(
        path_below(path_below(directory, "packages"@, windows), "client"@, windows),
        "dist"@,
        windows,
    )
}

/// The built client below a directory.
pub fn client_root_below(directory: &str, windows: bool) -> (path: String)
    ensures
        path@ == client_below(directory@, windows),
{
    let packages = join_path(directory, "packages", windows);
    let client = join_path(packages.as_str(), "client", windows);
    join_path(client.as_str(), "dist", windows)
}

/// The client that a service shows by default: the packaged one, where it is
/// there, else the one below the current directory.
pub fn default_client_root(
    package_root: Option<&str>,
    packaged: bool,
    current_dir: &str,
    windows: bool,
) -> (path: String)
    ensures
        path@ == if package_root is Some && packaged {
            client_below(package_root->Some_0@, windows)
        } else {
            client_below(current_dir@, windows)
        },
{
    if let Some(root) = package_root {
        if packaged {
            return client_root_below(root, windows);
        }
    }
    client_root_below(current_dir, windows)
}

/// On Unix a path is made of its directory's parts and then its own; it leads from
/// the root where its directory does, and an absolute one stands for itself.
pub proof fn unix_paths_lead_below_their_directory(directory: Seq<char>, path: Seq<char>)
    requires
        directory.len() > 0,
        path.len() > 0,
        path[0] != '/',
    ensures
        ({
            let whole = path_below(directory, path, false);
            &&& shape_of(whole, false).rooted == (directory[0] == '/')
            &&& shape_of(whole, false).parts == shape_of(directory, false).parts + path_parts(
                path,
                Separators::Slash,
                false,
                false,
            )
        }),
        path_below(directory, "/"@ + path, false) == "/"@ + path,
{
    reveal_strlit("/");
    let whole = path_below(directory, path, false);
    assert("/"@ =~= seq!['/']);
    assert(whole[0] == directory[0]);
    if directory.last() == '/' {
        let front = directory.drop_last();
        parts_are_put_together(front, '/', path, Separators::Slash, false, true);
        parts_are_put_together(front, '/', Seq::empty(), Separators::Slash, false, true);
        assert(whole =~= front + seq!['/'] + path);
        assert(directory =~= front + seq!['/'] + Seq::<char>::empty());
        assert(path_parts(Seq::empty(), Separators::Slash, false, false) =~= Seq::<
            Seq<char>,
        >::empty());
        assert(path_parts(directory, Separators::Slash, false, true) =~= path_parts(
            front,
            Separators::Slash,
            false,
            true,
        ));
    } else {
        parts_are_put_together(directory, '/', path, Separators::Slash, false, true);
        assert(whole =~= directory + seq!['/'] + path);
    }
    assert(("/"@ + path)[0] == '/');
}

/// Two names below one directory are two paths: they are equal only where the names
/// are. A slash at the end of a path, a second slash between two names, or a dot
/// between them, makes no other path of it.
pub proof fn unix_paths_are_told_by_their_names(
    directory: Seq<char>,
    name: Seq<char>,
    other: Seq<char>,
)
    requires
        directory.len() > 0,
        name.len() > 0,
        other.len() > 0,
        name != "."@,
        other != "."@,
        forall|i: int| 0 <= i < name.len() ==> #[trigger] name[i] != '/',
        forall|i: int| 0 <= i < other.len() ==> #[trigger] other[i] != '/',
    ensures
        paths_equal(path_below(directory, name, false), path_below(directory, other, false), false)
            <==> name == other,
        !paths_equal(path_below(directory, name, false), directory, false),
        paths_equal(directory + seq!['/'], directory, false),
        paths_equal(
            directory + seq!['/', '/'] + name,
            path_below(directory, name, false),
            false,
        ),
        paths_equal(
            directory + seq!['/', '.', '/'] + name,
            path_below(directory, name, false),
            false,
        ),
        !paths_equal(seq!['/'] + name, name, false),
{
    reveal_strlit("/");
    reveal_strlit(".");
    let slash = Separators::Slash;
    unix_paths_lead_below_their_directory(directory, name);
    unix_paths_lead_below_their_directory(directory, other);
    names_are_single_parts(name, slash, false, false);
    names_are_single_parts(other, slash, false, false);
    let first = path_below(directory, name, false);
    let second = path_below(directory, other, false);
    let above = shape_of(directory, false).parts;
    assert(shape_of(first, false).parts.last() == name);
    assert(shape_of(second, false).parts.last() == other);
    assert(shape_of(first, false).parts.len() == above.len() + 1);
    let ended = directory + seq!['/'];
    parts_are_put_together(directory, '/', Seq::empty(), slash, false, true);
    assert(ended =~= directory + seq!['/'] + Seq::<char>::empty());
    assert(path_parts(Seq::empty(), slash, false, false) =~= Seq::<Seq<char>>::empty());
    assert(shape_of(ended, false).parts =~= above);
    assert(ended[0] == directory[0]);
    let doubled = directory + seq!['/', '/'] + name;
    parts_are_put_together(directory, '/', seq!['/'] + name, slash, false, true);
    parts_are_put_together(Seq::empty(), '/', name, slash, false, false);
    assert(Seq::<char>::empty() + seq!['/'] + name =~= seq!['/'] + name);
    assert(doubled =~= directory + seq!['/'] + (seq!['/'] + name));
    assert(doubled[0] == directory[0]);
    assert(shape_of(doubled, false).parts =~= above + seq![name]);
    assert(shape_of(first, false).parts =~= above + seq![name]);
    let dotted = directory + seq!['/', '.', '/'] + name;
    let dot = seq!['.'];
    assert(dot =~= "."@);
    names_are_single_parts(dot, slash, false, false);
    parts_are_put_together(directory, '/', dot + seq!['/'] + name, slash, false, true);
    parts_are_put_together(dot, '/', name, slash, false, false);
    assert(dotted =~= directory + seq!['/'] + (dot + seq!['/'] + name));
    assert(dotted[0] == directory[0]);
    assert(shape_of(dotted, false).parts =~= above + seq![name]);
}

/// On Windows a path below a directory of a drive stays on that drive, and is made
/// of the directory's parts and then its own.
pub proof fn windows_paths_stay_on_their_drive(
    letter: char,
    rest: Seq<char>,
    name: Seq<char>,
)
    requires
        'a' <= letter <= 'z' || 'A' <= letter <= 'Z',
        name.len() > 0,
        name != "."@,
        forall|i: int|
            0 <= i < name.len() ==> #[trigger] name[i] != '/' && name[i] != '\\' && name[i] != ':',
        rest.len() > 0,
        rest[0] != '/' && rest[0] != '\\',
    ensures
        ({
            let directory = seq![letter, ':', '\\'] + rest;
            let whole = path_below(directory, name, true);
            &&& shape_of(whole, true).prefix == Some(PathPrefixView::Disk(ascii_lower(letter)))
            &&& shape_of(whole, true).rooted
            &&& shape_of(whole, true).parts == shape_of(directory, true).parts + seq![name]
        }),
{
    reveal_strlit("\\");
    let both = Separators::Both;
    let directory = seq![letter, ':', '\\'] + rest;
    let whole = path_below(directory, name, true);
    drives_are_told_by_their_letter(letter, letter, seq!['\\'] + rest);
    assert(directory =~= seq![letter, ':'] + (seq!['\\'] + rest));
    assert(prefix_of(name) is None) by {
        assert(!both.part_at(name[0]));
        if name.len() >= 2 {
            assert(name[1] != ':');
        }
    }
    assert(!shape_of(name, true).rooted);
    assert("\\"@ =~= seq!['\\']);
    names_are_single_parts(name, both, false, false);
    let kept = if both.part_at(directory.last()) {
        rest.drop_last()
    } else {
        rest
    };
    assert(directory.last() == rest.last());
    let inner = kept + seq!['\\'] + name;
    let mark = directory.last();
    if both.part_at(mark) {
        let joined = kept + seq![mark] + name;
        assert(whole =~= seq![letter, ':'] + (seq!['\\'] + joined));
        drives_are_told_by_their_letter(letter, letter, seq!['\\'] + joined);
        assert(whole.skip(3) =~= joined);
        assert(directory.skip(3) =~= kept + seq![mark] + Seq::<char>::empty());
        parts_are_put_together(kept, mark, name, both, false, false);
        parts_are_put_together(kept, mark, Seq::empty(), both, false, false);
        assert(path_parts(Seq::empty(), both, false, false) =~= Seq::<Seq<char>>::empty());
        assert(path_parts(directory.skip(3), both, false, false) =~= path_parts(
            kept,
            both,
            false,
            false,
        ));
    } else {
        assert(whole =~= seq![letter, ':'] + (seq!['\\'] + inner));
        drives_are_told_by_their_letter(letter, letter, seq!['\\'] + inner);
        assert(whole.skip(3) =~= inner);
        assert(directory.skip(3) =~= rest);
        parts_are_put_together(kept, '\\', name, both, false, false);
    }
}

/// The built client stands below the directory of its package.
pub proof fn clients_are_built_below_their_package(directory: Seq<char>)
    requires
        directory.len() > 0,
        directory.last() != '/',
    ensures
        client_below(directory, false) == directory + "/packages/client/dist"@,
{
    reveal_strlit("packages");
    reveal_strlit("client");
    reveal_strlit("dist");
    reveal_strlit("/");
    reveal_strlit("/packages/client/dist");
    assert(client_below(directory, false) =~= directory + "/packages/client/dist"@);
}

/// Two paths lead to one file where they are the same path, or where their canonical
/// forms are; a file without a canonical form is only the same as its own path.
pub proof fn files_are_told_by_their_paths(
    left: Seq<char>,
    right: Seq<char>,
    canonical: Seq<char>,
    windows: bool,
)
    ensures
        one_file(left, left, None, None, windows),
        one_file(left, right, Some(canonical), Some(canonical), windows),
        !paths_equal(left, right, windows) ==> !one_file(left, right, None, Some(canonical), windows)
            && !one_file(left, right, Some(canonical), None, windows) && !one_file(
            left,
            right,
            None,
            None,
            windows,
        ),
{
}

/// A record's file ends in `.json` behind a name; a project is marked by one of four
/// entries.
pub proof fn records_are_told_by_their_ending(name: Seq<char>)
    ensures
        name.len() > 0 <==> record_file_name(name + ".json"@),
        marks().contains(".simdeck"@) && marks().contains(".git"@) && marks().contains(
            "package.json"@,
        ) && marks().contains("xcodeproj"@) && marks().len() == 4,
{
    reveal_strlit(".json");
    let file = name + ".json"@;
    assert(file.skip(file.len() - 5) =~= ".json"@);
    let list = marks();
    assert(list[0] == ".simdeck"@ && list[1] == ".git"@ && list[2] == "package.json"@ && list[3]
        == "xcodeproj"@);
}

/// The steps of a path are walked one after the other: a name leads below, two dots
/// lead back, and a dot leads nowhere.
pub proof fn steps_are_walked_in_order(
    parts: Seq<Seq<char>>,
    first: Seq<Seq<char>>,
    second: Seq<Seq<char>>,
    name: Seq<char>,
)
    requires
        name != "."@,
        name != ".."@,
    ensures
        walked(parts, first + second) == walked(walked(parts, first), second),
        walked(parts, seq![name]) == parts.push(name),
        walked(parts.push(name), seq![".."@]) == parts,
        walked(parts, seq!["."@]) == parts,
        walked(Seq::empty(), seq![".."@]) == Seq::<Seq<char>>::empty(),
    decreases second.len(),
{
    reveal_strlit(".");
    reveal_strlit("..");
    assert("."@.len() == 1 && ".."@.len() == 2);
    reveal_with_fuel(walked, 2);
    assert(seq![name].last() == name);
    assert(seq![".."@].last() == ".."@);
    assert(seq!["."@].last() == "."@);
    assert(parts.push(name).drop_last() =~= parts);
    if second.len() == 0 {
        assert(first + second =~= first);
    } else {
        steps_are_walked_in_order(parts, first, second.drop_last(), name);
        assert((first + second).drop_last() =~= first + second.drop_last());
        assert((first + second).last() == second.last());
    }
}

/// On Windows a path that leads from a root stays on the drive of its directory, and
/// one with a drive of its own stands for itself.
pub proof fn windows_drives_are_kept(letter: char, rest: Seq<char>, path: Seq<char>)
    requires
        'a' <= letter <= 'z' || 'A' <= letter <= 'Z',
        path.len() > 0,
        path[0] != '/' && path[0] != '\\',
    ensures
        path_below(seq![letter, ':'] + rest, seq!['\\'] + path, true) == seq![letter, ':', '\\']
            + path,
        path_below(rest, seq![letter, ':'] + path, true) == seq![letter, ':'] + path,
{
    let directory = seq![letter, ':'] + rest;
    let rooted = seq!['\\'] + path;
    drives_are_told_by_their_letter(letter, letter, rest);
    drives_are_told_by_their_letter(letter, letter, path);
    assert(rooted[0] == '\\' && rooted[1] == path[0]);
    assert(prefix_of(rooted) is None);
    assert(directory.take(2) =~= seq![letter, ':']);
    assert(seq![letter, ':'] + rooted =~= seq![letter, ':', '\\'] + path);
}

/// Optional paths are equal where both are missing, or both are there and equal.
pub proof fn missing_paths_are_equal(path: Seq<char>, other: Seq<char>, windows: bool)
    ensures
        option_paths_equal(None, None, windows),
        !option_paths_equal(Some(path), None, windows),
        !option_paths_equal(None, Some(path), windows),
        option_paths_equal(Some(path), Some(other), windows) <==> paths_equal(path, other, windows),
{
}

} // verus!
