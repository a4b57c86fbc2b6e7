//! Paths as plain text: the components that matter to a project scan.
//!
//! A path is split at its last separator into the directory that holds an
//! entry and the entry's own name. The name is the text after the last
//! separator, so a path that ends in a separator names no entry, and no
//! manifest. Separators that are repeated before the name count as one.
//! The components `.` and `..` are taken as they are written.

use vstd::prelude::*;
use vstd::string::*;
use crate::text::{chars_of, push_chars, text_eq};

verus! {

/// The character that separates the components of a path.
pub const SEPARATOR: char = '/';

/// The file name that marks a project.
pub const MANIFEST_NAME: &'static str = "Cargo.toml";

/// The directory, next to a manifest, that holds the build artifacts.
pub const ARTIFACT_DIR: &'static str = "target/";

/// The first character of the names that a scan hides.
pub const HIDDEN_MARK: char = '.';

/// Where the final component of `path` starts: just after the last
/// separator, or at 0 when there is none.
pub open spec fn name_start(path: Seq<char>) -> nat
    decreases path.len(),
{
    if path.len() == 0 {
        0
    } else if path.last() == SEPARATOR {
        path.len()
    } else {
        name_start(path.drop_last())
    }
}

/// The final component of `path`: what follows its last separator.
pub open spec fn file_name(path: Seq<char>) -> Seq<char> {
    path.skip(name_start(path) as int)
}

/// `path` without its final component, the last separator included.
pub open spec fn directory(path: Seq<char>) -> Seq<char> {
    path.take(name_start(path) as int)
}

/// `dir` without the separators at its end; a lone separator, which is
/// the root directory, stays.
pub open spec fn without_trailing_separators(dir: Seq<char>) -> Seq<char>
    decreases dir.len(),
{
    if dir.len() > 1 && dir.last() == SEPARATOR {
        without_trailing_separators(dir.drop_last())
    } else {
        dir
    }
}

/// The directory that holds the final component of `path`, written
/// without the separators that end it; the root directory keeps its
/// separator, and a bare name has the empty parent.
pub open spec fn parent(path: Seq<char>) -> Seq<char> {
    without_trailing_separators(directory(path))
}

/// Whether `name` can stand for a directory: it is not empty and is
/// neither `.` nor `..`.
pub open spec fn names_directory(name: Seq<char>) -> bool {
    name.len() > 0 && name != seq!['.'] && name != seq!['.', '.']
}

/// The name of the directory that holds the final component of `path`,
/// where the path tells it.
pub open spec fn parent_name(path: Seq<char>) -> Option<Seq<char>> {
    let name = file_name(parent(path));
    if names_directory(name) {
        Some(name)
    } else {
        None
    }
}

/// Whether the final component of `path` is the manifest's file name.
pub open spec fn is_manifest_path(path: Seq<char>) -> bool {
    file_name(path) == MANIFEST_NAME@
}

/// A manifest path ends in the manifest's name: a path that is empty or
/// ends in a separator is no manifest path.
pub proof fn lemma_manifest_path_ends_in_its_name(path: Seq<char>)
    requires
        is_manifest_path(path),
    ensures
        path.len() > 0,
        path.last() != SEPARATOR,
        name_start(path) < path.len(),
{
    reveal_strlit("Cargo.toml");
    lemma_name_start_in_range(path);
    assert(MANIFEST_NAME@.len() == 10);
}

/// The final component starts within the path.
pub proof fn lemma_name_start_in_range(path: Seq<char>)
    ensures
        name_start(path) <= path.len(),
    decreases path.len(),
{
    if path.len() > 0 && path.last() != SEPARATOR {
        lemma_name_start_in_range(path.drop_last());
    }
}

/// The artifact directory that belongs to the manifest at `path`.
pub open spec fn artifact_dir(path: Seq<char>) -> Seq<char> {
    directory(path) + ARTIFACT_DIR@
}

/// Whether an entry of this name is hidden: the name starts with a dot.
pub open spec fn hidden(name: Seq<char>) -> bool {
    name.len() > 0 && name[0] == HIDDEN_MARK
}

/// Whether a scan looks at the entry `name` that lies `depth` levels
/// below its root. The root itself (depth 0) is always looked at; below
/// it, hidden entries are passed over unless hidden entries are included.
pub open spec fn visited(depth: nat, name: Option<Seq<char>>, include_hidden: bool) -> bool {
    depth == 0 || include_hidden || match name {
        Some(n) => !hidden(n),
        None => true,
    }
}

/// Whether a scan reaches the entry whose names below the root are
/// `names`, outermost first: it must look at each of them in turn, since
/// an entry that is passed over is not descended into.
pub open spec fn reached(names: Seq<Seq<char>>, include_hidden: bool) -> bool {
    forall|i: int|
        0 <= i < names.len() ==> visited((i + 1) as nat, Some(#[trigger] names[i]), include_hidden)
}

/// Whether `name` is a single component of a path: it is not empty and
/// holds no separator.
pub open spec fn is_component(name: Seq<char>) -> bool {
    name.len() > 0 && !name.contains(SEPARATOR)
}

/// The path of the entry `name` in the directory `dir`: the two with a
/// separator between them, unless `dir` is empty or ends in one.
pub open spec fn joined(dir: Seq<char>, name: Seq<char>) -> Seq<char> {
    if dir.len() == 0 || dir.last() == SEPARATOR {
        dir + name
    } else {
        dir + seq![SEPARATOR] + name
    }
}

/// The path of the entry that lies below `root` under `names`, outermost
/// first.
pub open spec fn path_below(root: Seq<char>, names: Seq<Seq<char>>) -> Seq<char>
    decreases names.len(),
{
    if names.len() == 0 {
        root
    } else {
        joined(path_below(root, names.drop_last()), names.last())
    }
}

/// Whether `path` has a hidden component that lies beyond its first `from`
/// characters: its final component, or that of the directory above it, and
/// so on upwards for as long as the path is longer than `from`.
pub open spec fn hidden_beyond(path: Seq<char>, from: nat) -> bool
    decreases path.len(),
{
    if path.len() <= from {
        false
    } else if hidden(file_name(path)) {
        true
    } else if 1 <= name_start(path) <= path.len() {
        hidden_beyond(path.take(name_start(path) - 1), from)
    } else {
        false
    }
}

/// A name without a separator does not move the start of the final
/// component: the component reaches back through the name.
pub proof fn lemma_name_start_skips_component(prefix: Seq<char>, name: Seq<char>)
    requires
        !name.contains(SEPARATOR),
    ensures
        name_start(prefix + name) == name_start(prefix),
    decreases name.len(),
{
    if name.len() > 0 {
        assert((prefix + name).drop_last() =~= prefix + name.drop_last());
        lemma_name_start_skips_component(prefix, name.drop_last());
    }
}

/// The entry `name` in the directory `dir` has `name` for its final
/// component, and `dir` lies above it; what lies above it is `dir` itself
/// unless `dir` ended in a separator.
pub proof fn lemma_joined_splits(dir: Seq<char>, name: Seq<char>)
    requires
        is_component(name),
    ensures
        file_name(joined(dir, name)) == name,
        dir.len() == 0 ==> name_start(joined(dir, name)) == 0,
        dir.len() > 0 && dir.last() == SEPARATOR ==> name_start(joined(dir, name)) == dir.len(),
        dir.len() > 0 && dir.last() != SEPARATOR ==> joined(dir, name).take(
            name_start(joined(dir, name)) - 1,
        ) == dir,
        joined(dir, name).len() > dir.len(),
        joined(dir, name).last() != SEPARATOR,
{
    if dir.len() == 0 || dir.last() == SEPARATOR {
        lemma_name_start_skips_component(dir, name);
    } else {
        lemma_name_start_skips_component(dir + seq![SEPARATOR], name);
    }
}

/// A scan that leaves hidden entries out reaches nothing that has a hidden
/// name anywhere between the root and itself.
pub proof fn lemma_reached_has_no_hidden_component(names: Seq<Seq<char>>)
    requires
        reached(names, false),
    ensures
        forall|i: int| 0 <= i < names.len() ==> !hidden(#[trigger] names[i]),
{
}

/// The path of an entry that a scan without hidden entries reaches has no
/// hidden component beyond the root; components of the root itself do not
/// count.
pub proof fn lemma_reached_path_is_not_hidden(root: Seq<char>, names: Seq<Seq<char>>)
    requires
        forall|i: int| 0 <= i < names.len() ==> is_component(#[trigger] names[i]),
        reached(names, false),
    ensures
        !hidden_beyond(path_below(root, names), root.len()),
        path_below(root, names).len() >= root.len(),
        names.len() > 0 ==> path_below(root, names).last() != SEPARATOR,
    decreases names.len(),
{
    if names.len() > 0 {
        let above = names.drop_last();
        let dir = path_below(root, above);
        let name = names.last();
        lemma_reached_path_is_not_hidden(root, above);
        lemma_joined_splits(dir, name);
        if dir.len() > 0 && dir.last() == SEPARATOR {
            // Only the root can end in a separator; above the entry lies
            // the root without it, which is shorter than the root.
            assert(!hidden_beyond(joined(dir, name).take(dir.len() - 1), root.len()));
        }
    }
}

/// A scan that includes hidden entries reaches every entry.
pub proof fn lemma_everything_reached_when_hidden_included(names: Seq<Seq<char>>)
    ensures
        reached(names, true),
{
}

pub(crate) fn name_start_in(chars: &Vec<char>, len: usize) -> (start: usize)
    requires
        len <= chars.len(),
    ensures
        start == name_start(chars@.take(len as int)),
        start <= len,
{
    let mut i: usize = len;
    while i > 0
        invariant
            i <= len <= chars.len(),
            name_start(chars@.take(len as int)) == name_start(chars@.take(i as int)),
        decreases i,
    {
        assert(chars@.take(i as int).drop_last() =~= chars@.take(i - 1));
        if chars[i - 1] == SEPARATOR {
            return i;
        }
        i -= 1;
    }
    0
}

/// The final component of `path`.
pub fn file_name_of(path: &str) -> (name: String)
    ensures
        name@ == file_name(path@),
{
    let chars = chars_of(path);
    assert(chars@.take(chars.len() as int) =~= chars@);
    let start = name_start_in(&chars, chars.len());
    let mut name = String::new();
    push_chars(&mut name, &chars, start, chars.len());
    name
}

/// Whether `path` names a manifest.
pub fn names_manifest(path: &str) -> (r: bool)
    ensures
        r == is_manifest_path(path@),
{
    let name = file_name_of(path);
    text_eq(name.as_str(), MANIFEST_NAME)
}

/// The directory that holds the final component of `path`.
pub fn parent_of(path: &str) -> (dir: String)
    ensures
        dir@ == parent(path@),
{
    let chars = chars_of(path);
    assert(chars@.take(chars.len() as int) =~= chars@);
    let start = name_start_in(&chars, chars.len());
    let mut end: usize = start;
    while end > 1 && chars[end - 1] == SEPARATOR
        invariant
            end <= start <= chars.len(),
            without_trailing_separators(chars@.take(start as int)) == without_trailing_separators(
                chars@.take(end as int),
            ),
        decreases end,
    {
        assert(chars@.take(end as int).drop_last() =~= chars@.take(end - 1));
        end -= 1;
    }
    let mut dir = String::new();
    push_chars(&mut dir, &chars, 0, end);
    dir
}

/// The name of the directory that holds the final component of `path`,
/// or `None` where the path does not tell it.
pub fn parent_name_of(path: &str) -> (name: Option<String>)
    ensures
        match name {
            Some(n) => parent_name(path@) == Some(n@),
            None => parent_name(path@) is None,
        },
{
    let dir = parent_of(path);
    let name = file_name_of(dir.as_str());
    let chars = chars_of(name.as_str());
    let n = chars.len();
    if n == 0 {
        None
    } else if n == 1 && chars[0] == '.' {
        assert(name@ =~= seq!['.']);
        None
    } else if n == 2 && chars[0] == '.' && chars[1] == '.' {
        assert(name@ =~= seq!['.', '.']);
        None
    } else {
        Some(name)
    }
}

/// The artifact directory that belongs to the manifest at `path`.
pub fn artifact_dir_of(path: &str) -> (dir: String)
    ensures
        dir@ == artifact_dir(path@),
{
    let chars = chars_of(path);
    assert(chars@.take(chars.len() as int) =~= chars@);
    let start = name_start_in(&chars, chars.len());
    let mut dir = String::new();
    push_chars(&mut dir, &chars, 0, start);
    dir.append(ARTIFACT_DIR);
    dir
}

/// Whether an entry is hidden, by its file name. `None` stands for a name
/// that is not valid Unicode; such an entry is not hidden.
pub fn is_hidden(name: Option<&str>) -> (r: bool)
    ensures
        r == match name {
            Some(n) => hidden(n@),
            None => false,
        },
{
    match name {
        Some(n) => {
            let mut it = n.chars();
            match it.next() {
                Some(c) => c == HIDDEN_MARK,
                None => false,
            }
        },
        None => false,
    }
}

/// Whether an entry is a manifest, by its file name. `None` stands for a
/// name that is not valid Unicode.
pub fn is_manifest_name(name: Option<&str>) -> (r: bool)
    ensures
        r == match name {
            Some(n) => n@ == MANIFEST_NAME@,
            None => false,
        },
{
    match name {
        Some(n) => text_eq(n, MANIFEST_NAME),
        None => false,
    }
}

/// Whether a scan looks at the entry `name` that lies `depth` levels below
/// its root; an entry that is not looked at is not descended into either.
pub fn visits(depth: usize, name: Option<&str>, include_hidden: bool) -> (r: bool)
    ensures
        r == visited(
            depth as nat,
            match name {
                Some(n) => Some(n@),
                None => None,
            },
            include_hidden,
        ),
{
    depth == 0 || include_hidden || !is_hidden(name)
}

} // verus!
