//! Paths of the data files, as a fixed front part and the names behind it.
use vstd::prelude::*;

use crate::text::{characters, same_text};
use crate::todo::{clone_texts, texts};

verus! {

/// What a path records.
#[verifier::ext_equal]
pub struct PathView {
    pub anchor: Seq<char>,
    pub names: Seq<Seq<char>>,
}

/// A path: the front part that has no parent (a root or a drive, or nothing)
/// and the names that follow it.
#[derive(Debug)]
pub struct DataPath {
    pub anchor: String,
    pub names: Vec<String>,
}

impl View for DataPath {
    type V = PathView;

    open spec fn view(&self) -> PathView {
        PathView { anchor: self.anchor@, names: texts(self.names@) }
    }
}

impl Clone for DataPath {
    fn clone(&self) -> (r: Self)
        ensures
            r@ == self@,
    {
        DataPath { anchor: self.anchor.clone(), names: clone_texts(&self.names) }
    }
}

/// The view of an optional path.
pub open spec fn path_of(p: Option<DataPath>) -> Option<PathView> {
    match p {
        Some(v) => Some(v@),
        None => None,
    }
}

/// The path without its last name; `None` where there is no name.
pub open spec fn parent_of(p: PathView) -> Option<PathView> {
    if p.names.len() == 0 {
        None
    } else {
        Some(PathView { names: p.names.drop_last(), ..p })
    }
}

/// The path with one more name.
pub open spec fn child_of(p: PathView, name: Seq<char>) -> PathView {
    PathView { names: p.names.push(name), ..p }
}

/// Whether `i` is the place of the dot that starts the extension of a name: the
/// last dot, unless the name starts with it.
pub open spec fn is_extension_dot(name: Seq<char>, i: int) -> bool {
    &&& 0 < i < name.len()
    &&& name[i] == '.'
    &&& forall|j: int| i < j < name.len() ==> name[j] != '.'
}

/// A name without its extension.
pub open spec fn stem(name: Seq<char>) -> Seq<char> {
    if exists|i: int| is_extension_dot(name, i) {
        name.take(choose|i: int| is_extension_dot(name, i))
    } else {
        name
    }
}

/// The path whose last name has the extension `ext` in place of its own. A path
/// that does not end in a file's name stays as it is.
pub open spec fn with_extension_of(p: PathView, ext: Seq<char>) -> PathView {
    if p.names.len() == 0 || p.names.last() == ".."@ {
        p
    } else {
        PathView { names: p.names.drop_last().push(stem(p.names.last()) + "."@ + ext), ..p }
    }
}

/// The part of `name` in front of its extension.
pub fn stem_text(name: &str) -> (r: String)
    ensures
        r@ == stem(name@),
{
    let chars = characters(name);
    let mut i: usize = chars.len();
    while i > 0
        invariant
            0 <= i <= chars.len(),
            chars@ == name@,
            forall|j: int| i <= j < name@.len() ==> name@[j] != '.',
        decreases i,
    {
        i = i - 1;
        if chars[i] == '.' {
            if i == 0 {
                return name.to_owned();
            }
            proof {
                assert(is_extension_dot(name@, i as int));
                let k = choose|k: int| is_extension_dot(name@, k);
                assert(k == i);
            }
            return name.substring_char(0, i).to_owned();
        }
    }
    name.to_owned()
}

impl DataPath {
    /// The path without its last name.
    pub fn parent(&self) -> (r: Option<DataPath>)
        ensures
            path_of(r) == parent_of(self@),
    {
        if self.names.len() == 0 {
            None
        } else {
            let mut names = clone_texts(&self.names);
            assert(texts(names@).len() == texts(self.names@).len());
            names.truncate(self.names.len() - 1);
            proof {
                assert(texts(names@) =~= texts(self.names@).drop_last());
            }
            Some(DataPath { anchor: self.anchor.clone(), names })
        }
    }

    /// The path with one more name.
    pub fn join(&self, name: &str) -> (r: DataPath)
        ensures
            r@ == child_of(self@, name@),
    {
        let mut names = clone_texts(&self.names);
        names.push(name.to_owned());
        proof {
            assert(texts(names@) =~= texts(self.names@).push(name@));
        }
        DataPath { anchor: self.anchor.clone(), names }
    }

    /// The path whose last name has the extension `ext` in place of its own.
    pub fn with_extension(&self, ext: &str) -> (r: DataPath)
        ensures
            r@ == with_extension_of(self@, ext@),
    {
        let n: usize = self.names.len();
        if n == 0 {
            return self.clone();
        }
        assert(texts(self.names@).last() == self.names@[n - 1]@);
        if same_text(self.names[n - 1].as_str(), "..") {
            return self.clone();
        }
        let mut names = clone_texts(&self.names);
        assert(texts(names@).len() == texts(self.names@).len());
        let mut name = stem_text(self.names[n - 1].as_str());
        name.append(".");
        name.append(ext);
        let ghost full = names@;
        names.truncate(n - 1);
        names.push(name);
        proof {
            assert(forall|k: int| 0 <= k < n - 1 ==> #[trigger] texts(full)[k] == full[k]@);
            assert(texts(names@) =~= texts(self.names@).drop_last().push(name@));
        }
        DataPath { anchor: self.anchor.clone(), names }
    }
}

/// What is joined to a directory lies in that directory.
pub proof fn children_lie_inside(dir: PathView, name: Seq<char>)
    ensures
        parent_of(child_of(dir, name)) == Some(dir),
        child_of(dir, name).names.last() == name,
{
    assert(dir.names.push(name).drop_last() == dir.names);
}

/// A name without its extension is what stands in front of the last dot.
pub proof fn extensions_are_cut_off(base: Seq<char>, ext: Seq<char>)
    requires
        base.len() > 0,
        !ext.contains('.'),
    ensures
        stem(base + seq!['.'] + ext) == base,
{
    let name = base + seq!['.'] + ext;
    let k = base.len() as int;
    assert(name[k] == '.');
    assert forall|j: int| k < j < name.len() implies name[j] != '.' by {
        assert(name[j] == ext[j - k - 1]);
        assert(ext.contains(ext[j - k - 1]));
    }
    assert(is_extension_dot(name, k));
    let i = choose|i: int| is_extension_dot(name, i);
    assert(i == k);
    assert(name.take(k) =~= base);
}

/// A name that has no dot, unless it starts with its only one, has no extension.
pub proof fn names_without_extension_are_whole(name: Seq<char>)
    requires
        forall|i: int| 0 < i < name.len() ==> #[trigger] name[i] != '.',
    ensures
        stem(name) == name,
{
    if exists|i: int| is_extension_dot(name, i) {
        let i = choose|i: int| is_extension_dot(name, i);
        assert(name[i] == '.');
    }
}

/// Another extension changes the last name only: what stands in front of its own
/// extension stays, and the new one follows behind a dot.
pub proof fn new_extensions_change_the_last_name(
    dir: PathView,
    base: Seq<char>,
    old_ext: Seq<char>,
    ext: Seq<char>,
)
    requires
        base.len() > 0,
        !old_ext.contains('.'),
        base + seq!['.'] + old_ext != ".."@,
    ensures
        with_extension_of(child_of(dir, base + seq!['.'] + old_ext), ext) == child_of(
            dir,
            base + seq!['.'] + ext,
        ),
        with_extension_of(child_of(dir, base + seq!['.'] + old_ext), ext).names.len()
            == dir.names.len() + 1,
        with_extension_of(child_of(dir, base + seq!['.'] + old_ext), ext).anchor == dir.anchor,
        forall|i: int|
            0 <= i < dir.names.len() ==> #[trigger] with_extension_of(
                child_of(dir, base + seq!['.'] + old_ext),
                ext,
            ).names[i] == dir.names[i],
        with_extension_of(child_of(dir, base + seq!['.'] + old_ext), ext).names[dir.names.len() as int]
            == base + seq!['.'] + ext,
{
    let name = base + seq!['.'] + old_ext;
    extensions_are_cut_off(base, old_ext);
    reveal_strlit(".");
    assert("."@ == seq!['.']);
    let p = child_of(dir, name);
    assert(p.names.last() == name);
    assert(p.names.drop_last() == dir.names);
}

/// A path without a name, or that ends in the name of the directory above, gets
/// no extension.
pub proof fn directories_get_no_extension(p: PathView, ext: Seq<char>)
    requires
        p.names.len() == 0 || p.names[p.names.len() - 1] == ".."@,
    ensures
        with_extension_of(p, ext) == p,
{
}

/// The parent of a path has all of its names but the last; a child has one more.
pub proof fn parents_and_children_differ_in_one_name(p: PathView, name: Seq<char>)
    ensures
        p.names.len() == 0 ==> parent_of(p) is None,
        p.names.len() > 0 ==> parent_of(p) is Some && {
            let up = parent_of(p).unwrap();
            &&& up.anchor == p.anchor
            &&& up.names.len() == p.names.len() - 1
            &&& forall|i: int| 0 <= i < up.names.len() ==> #[trigger] up.names[i] == p.names[i]
        },
        child_of(p, name).anchor == p.anchor,
        child_of(p, name).names.len() == p.names.len() + 1,
        child_of(p, name).names[p.names.len() as int] == name,
        forall|i: int|
            0 <= i < p.names.len() ==> #[trigger] child_of(p, name).names[i] == p.names[i],
{
}

/// The view of a path records everything that it holds.
pub proof fn path_views_are_whole(p: DataPath)
    ensures
        p@.anchor == p.anchor@,
        p@.names.len() == p.names@.len(),
        forall|i: int| 0 <= i < p.names@.len() ==> #[trigger] p@.names[i] == p.names@[i]@,
        path_of(Some(p)) == Some(p@),
        path_of(None) is None,
{
}

/// A last name without an extension stays whole, and the new one follows behind a
/// dot.
pub proof fn new_extensions_follow_whole_names(dir: PathView, name: Seq<char>, ext: Seq<char>)
    requires
        forall|i: int| 0 < i < name.len() ==> #[trigger] name[i] != '.',
        name != ".."@,
    ensures
        with_extension_of(child_of(dir, name), ext) == child_of(dir, name + seq!['.'] + ext),
{
    names_without_extension_are_whole(name);
    reveal_strlit(".");
    assert("."@ == seq!['.']);
    let p = child_of(dir, name);
    assert(p.names.last() == name);
    assert(p.names.drop_last() == dir.names);
}

} // verus!
