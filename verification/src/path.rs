//! File paths as text, taken apart and put together by `std::path`.

use vstd::prelude::*;

verus! {

/// What [`std::path::Path::parent`] gives for a path.
pub uninterp spec fn path_parent(path: Seq<char>) -> Option<Seq<char>>;

/// What [`std::path::Path::file_stem`] gives for a path.
pub uninterp spec fn path_file_stem(path: Seq<char>) -> Option<Seq<char>>;

/// What [`std::path::Path::join`] gives for a path and what is joined to it.
pub uninterp spec fn path_join(base: Seq<char>, tail: Seq<char>) -> Seq<char>;

/// The view of text that may be missing.
pub open spec fn text_view(text: Option<&str>) -> Option<Seq<char>> {
    match text {
        Some(text) => Some(text@),
        None => None,
    }
}

/// A relative path of one component: no character that any platform takes for a
/// separator or a drive.
pub open spec fn is_bare(path: Seq<char>) -> bool {
    &&& path.len() > 0
    &&& forall|i: int|
        0 <= i < path.len() ==> (#[trigger] path[i]) != '/' && path[i] != '\\' && path[i] != ':'
}

/// A bare path that names a file or directory: neither `.` nor `..`.
pub open spec fn is_file_name(path: Seq<char>) -> bool {
    is_bare(path) && exists|i: int| 0 <= i < path.len() && (#[trigger] path[i]) != '.'
}

/// Where the last dot of a name is; -1 where it has none.
pub open spec fn last_dot(name: Seq<char>) -> int
    decreases name.len(),
{
    if name.len() == 0 {
        -1
    } else if name.last() == '.' {
        name.len() - 1
    } else {
        last_dot(name.drop_last())
    }
}

/// A file name without its extension: what stands before the last dot, or all of
/// it where there is no dot or only a leading one.
pub open spec fn name_stem(name: Seq<char>) -> Seq<char> {
    if last_dot(name) <= 0 {
        name
    } else {
        name.take(last_dot(name))
    }
}

/// The stem of a file name is the beginning of the name, and not empty.
pub proof fn law_stem_begins_name(name: Seq<char>)
    requires
        name.len() > 0,
    ensures
        -1 <= last_dot(name) < name.len(),
        name_stem(name).len() > 0,
        name_stem(name).is_prefix_of(name),
    decreases name.len(),
{
    if name.last() != '.' && name.len() > 1 {
        law_stem_begins_name(name.drop_last());
    }
    reveal_with_fuel(last_dot, 2);
}

/// The path is that of `name` in the directory `dir`, with or without a slash
/// behind it. The directory holds no character that some platform alone takes for
/// a separator or a drive, and the path does not start with two slashes.
pub open spec fn is_below(path: Seq<char>, dir: Seq<char>, name: Seq<char>) -> bool {
    &&& is_file_name(name)
    &&& path == dir + seq!['/'] + name || path == dir + seq!['/'] + name + seq!['/']
    &&& forall|i: int| 0 <= i < dir.len() ==> (#[trigger] dir[i]) != '\\' && dir[i] != ':'
    &&& !(path.len() >= 2 && path[0] == '/' && path[1] == '/')
}

/// A directory as it is written without a slash or a dot at its end; the empty one
/// is the root.
pub open spec fn is_plain_dir(dir: Seq<char>) -> bool {
    dir.len() > 0 ==> dir.last() != '/' && dir.last() != '.'
}

/// How a plain directory is written on its own.
pub open spec fn dir_text(dir: Seq<char>) -> Seq<char> {
    if dir.len() == 0 {
        seq!['/']
    } else {
        dir
    }
}

/// Calls [`std::path::Path::parent`]: the path without its final component, or
/// `None` for a root and for the empty path. The result depends on the path
/// alone. Nothing is left of a relative path of one component, and of a file below
/// a plain directory the directory is left. How other paths are split into
/// components is not stated.
#[verifier::external_body]
pub(crate) fn parent(path: &str) -> (res: Option<&str>)
    ensures
        text_view(res) == path_parent(path@),
        path@.len() == 0 || path@ == seq!['/'] ==> res is None,
        is_bare(path@) ==> text_view(res) == Some(Seq::<char>::empty()),
        forall|dir: Seq<char>, name: Seq<char>| #[trigger]
            is_below(path@, dir, name) && is_plain_dir(dir) ==> text_view(res) == Some(
                dir_text(dir),
            ),
{
    std::path::Path::new(path).parent().and_then(|parent| parent.to_str())
}

/// Calls [`std::path::Path::file_stem`]: the final component without its
/// extension, or `None` where the path has no file name. The result depends on
/// the path alone. Of a file name, on its own or below a directory, it is what
/// stands before the last dot, or the whole name where there is no dot or only a
/// leading one. How other paths are split into components is not stated.
#[verifier::external_body]
pub(crate) fn file_stem(path: &str) -> (res: Option<&str>)
    ensures
        text_view(res) == path_file_stem(path@),
        path@.len() == 0 || path@ == seq!['/'] ==> res is None,
        is_file_name(path@) ==> text_view(res) == Some(name_stem(path@)),
        forall|dir: Seq<char>, name: Seq<char>| #[trigger]
            is_below(path@, dir, name) ==> text_view(res) == Some(name_stem(name)),
{
    std::path::Path::new(path).file_stem().and_then(|stem| stem.to_str())
}

/// Whether two paths are equal to [`std::path::Path`].
pub uninterp spec fn path_equal(a: Seq<char>, b: Seq<char>) -> bool;

/// The path is another one with text behind it that has no separator and is more
/// than dots.
pub open spec fn is_extended(path: Seq<char>, base: Seq<char>) -> bool {
    exists|tail: Seq<char>| #[trigger] is_file_name(tail) && path == base + tail
}

/// The paths differ: one that is written as the other does not, one that extends
/// the other does, and of the rest `path_equal` tells.
pub open spec fn paths_differ(path: Seq<char>, base: Seq<char>) -> bool {
    path != base && (is_extended(path, base) || !path_equal(path, base))
}

/// Compares two [`std::path::Path`]s with `==`, which compares them component by
/// component. The result depends on the two paths alone. Paths that are written
/// alike are equal; one whose last component extends the other's, or which has a
/// file name more, is not equal to it. How other paths are split into components
/// is not stated.
#[verifier::external_body]
pub(crate) fn same_path(path: &str, base: &str) -> (res: bool)
    ensures
        res == path_equal(path@, base@),
        path@ == base@ ==> res,
        is_extended(path@, base@) ==> !res,
{
    std::path::Path::new(path) == std::path::Path::new(base)
}

/// Calls [`std::path::Path::join`]: `tail` placed below `base`, or `tail` itself
/// where it is absolute. The result depends on the two paths alone.
#[verifier::external_body]
pub(crate) fn join(base: &str, tail: &str) -> (res: String)
    ensures
        res@ == path_join(base@, tail@),
{
    std::path::Path::new(base).join(tail).to_string_lossy().into_owned()
}

/// The stem of a name ends at the last dot that is not its first character: behind
/// the stem stands a dot and then none. A name without such a dot is its own stem.
pub proof fn law_stem_ends_at_last_dot(name: Seq<char>)
    ensures
        ({
            let n = name_stem(name).len() as int;
            ||| {
                &&& name_stem(name) == name
                &&& forall|i: int| 0 < i < name.len() ==> (#[trigger] name[i]) != '.'
            }
            ||| {
                &&& 0 < n < name.len()
                &&& name_stem(name) == name.take(n)
                &&& name[n] == '.'
                &&& forall|i: int| n < i < name.len() ==> (#[trigger] name[i]) != '.'
            }
        }),
{
    lemma_last_dot(name);
}

proof fn lemma_last_dot(name: Seq<char>)
    ensures
        -1 <= last_dot(name) < name.len(),
        last_dot(name) >= 0 ==> name[last_dot(name)] == '.',
        forall|i: int| last_dot(name) < i < name.len() ==> (#[trigger] name[i]) != '.',
    decreases name.len(),
{
    if name.len() > 0 && name.last() != '.' {
        let front = name.drop_last();
        lemma_last_dot(front);
        assert forall|i: int| last_dot(name) < i < name.len() implies (#[trigger] name[i])
            != '.' by {
            if i < front.len() {
                assert(front[i] == name[i]);
            }
        }
    }
}

/// A file in a directory is below it, whether or not a slash stands behind its
/// name: the directory is left of it, or the root where the directory is empty.
pub proof fn law_file_is_below_directory(dir: Seq<char>, name: Seq<char>)
    requires
        name.len() > 0,
        forall|i: int|
            0 <= i < name.len() ==> (#[trigger] name[i]) != '/' && name[i] != '\\' && name[i]
                != ':',
        exists|i: int| 0 <= i < name.len() && (#[trigger] name[i]) != '.',
        forall|i: int| 0 <= i < dir.len() ==> (#[trigger] dir[i]) != '\\' && dir[i] != ':',
        dir.len() > 0 ==> dir.last() != '/' && dir.last() != '.',
        dir.len() > 1 ==> dir[0] != '/' || dir[1] != '/',
    ensures
        is_below(dir + seq!['/'] + name, dir, name),
        is_below(dir + seq!['/'] + name + seq!['/'], dir, name),
        is_plain_dir(dir),
        dir.len() > 0 ==> dir_text(dir) == dir,
        dir.len() == 0 ==> dir_text(dir) == seq!['/'],
        is_file_name(name),
        is_bare(name),
{
    let path = dir + seq!['/'] + name;
    if dir.len() == 0 {
        assert(path[1] == name[0]);
        assert((path + seq!['/'])[1] == name[0]);
    } else if dir.len() == 1 {
        assert(path[0] == dir[0]);
        assert((path + seq!['/'])[0] == dir[0]);
    } else {
        assert(path[0] == dir[0] && path[1] == dir[1]);
        assert((path + seq!['/'])[0] == dir[0] && (path + seq!['/'])[1] == dir[1]);
    }
}

/// A path does not differ from itself. It differs from one to which it adds a name
/// part, that is text without a separator that is more than dots, and from any other
/// exactly where they are not equal as paths.
pub proof fn law_extended_path_differs(path: Seq<char>, base: Seq<char>)
    ensures
        ({
            let n = base.len() as int;
            let adds_name_part = {
                &&& path.len() > n
                &&& path.take(n) == base
                &&& forall|i: int|
                    n <= i < path.len() ==> (#[trigger] path[i]) != '/' && path[i] != '\\'
                        && path[i] != ':'
                &&& exists|i: int| n <= i < path.len() && (#[trigger] path[i]) != '.'
            };
            &&& path == base ==> !paths_differ(path, base)
            &&& adds_name_part ==> paths_differ(path, base)
            &&& path != base && !adds_name_part ==> (paths_differ(path, base) <==> !path_equal(
                path,
                base,
            ))
        }),
{
    let n = base.len() as int;
    if path.len() > n && path.take(n) == base && (forall|i: int|
        n <= i < path.len() ==> (#[trigger] path[i]) != '/' && path[i] != '\\' && path[i] != ':')
        && (exists|i: int| n <= i < path.len() && (#[trigger] path[i]) != '.') {
        let tail = path.skip(n);
        let dotless = choose|i: int| n <= i < path.len() && (#[trigger] path[i]) != '.';
        assert(tail[dotless - n] == path[dotless]);
        assert forall|i: int| 0 <= i < tail.len() implies (#[trigger] tail[i]) != '/' && tail[i]
            != '\\' && tail[i] != ':' by {
            assert(tail[i] == path[n + i]);
        }
        assert(is_file_name(tail));
        assert(path =~= base + tail);
        assert(path.len() != base.len());
    } else if is_extended(path, base) {
        let tail = choose|tail: Seq<char>| #[trigger] is_file_name(tail) && path == base + tail;
        assert(path.take(n) =~= base);
        assert forall|i: int| n <= i < path.len() implies (#[trigger] path[i]) != '/' && path[i]
            != '\\' && path[i] != ':' by {
            assert(path[i] == tail[i - n]);
        }
        let dotless = choose|i: int| 0 <= i < tail.len() && (#[trigger] tail[i]) != '.';
        assert(path[n + dotless] == tail[dotless]);
        assert(false);
    }
}

/// Text that is there is shown as it is.
pub proof fn law_text_view_shows_text(text: &str)
    ensures
        text_view(Some(text)) == Some(text@),
        text_view(None) is None,
{
}

} // verus!
