//! Names of attachment files: which ones may be deleted, and what is kept of a
//! name that comes back from outside.
use vstd::prelude::*;

use crate::external::is_uuid;
use crate::text::{
    after_last, folded, folding_joins_the_cases, has_pair, holds_char, holds_pair,
    lemma_after_last, lemma_after_last_is_tail, same_folded, same_ignoring_case, tail_after,
};
use crate::todo::{attachment_of, AttachmentView, TodoAttachment, TodoView};

verus! {

/// Whether a name stays inside the directory that it is looked up in: it is not
/// empty and holds no separator, drive mark, NUL or pair of dots.
pub open spec fn is_plain_name(name: Seq<char>) -> bool {
    &&& name.len() > 0
    &&& !name.contains('/')
    &&& !name.contains('\\')
    &&& !has_pair(name, '.')
    &&& !name.contains(':')
    &&& !name.contains('\0')
}

/// Tells whether a name stays inside the directory that it is looked up in.
pub fn plain_name(name: &str) -> (r: bool)
    ensures
        r == is_plain_name(name@),
{
    name.unicode_len() > 0 && !holds_char(name, '/') && !holds_char(name, '\\') && !holds_pair(
        name,
        '.',
    ) && !holds_char(name, ':') && !holds_char(name, '\0')
}

/// The last part of a path, whichever separators it is written with.
pub open spec fn base_name(path: Seq<char>) -> Seq<char> {
    after_last(path, '/', '\\')
}

/// Whether a file name ends in the suffix of an image.
pub open spec fn has_image_suffix(name: Seq<char>) -> bool {
    let ext = after_last(name, '.', '.');
    name.contains('.') && (same_folded(ext, "jpg"@) || same_folded(ext, "jpeg"@) || same_folded(
        ext,
        "png"@,
    ) || same_folded(ext, "gif"@) || same_folded(ext, "webp"@))
}

/// What is kept of an attachment that comes back from outside: its file's base
/// name, and nothing where that is not an image's name.
pub open spec fn safe_attachment_of(a: Option<AttachmentView>) -> Option<AttachmentView> {
    match a {
        Some(v) => if has_image_suffix(base_name(v.file)) {
            Some(AttachmentView { file: base_name(v.file), ..v })
        } else {
            None
        },
        None => None,
    }
}

/// What is kept of a todo that comes back from outside.
pub open spec fn safe_todo(t: TodoView) -> TodoView {
    TodoView { attachment: safe_attachment_of(t.attachment), ..t }
}

/// What is kept of an attachment that comes back from outside.
pub fn safe_attachment(a: Option<TodoAttachment>) -> (r: Option<TodoAttachment>)
    ensures
        attachment_of(r) == safe_attachment_of(attachment_of(a)),
{
    match a {
        Some(v) => {
            let file = tail_after(v.file.as_str(), '/', '\\');
            let ext = tail_after(file.as_str(), '.', '.');
            let e = ext.as_str();
            let known = same_ignoring_case(e, "jpg") || same_ignoring_case(e, "jpeg")
                || same_ignoring_case(e, "png") || same_ignoring_case(e, "gif")
                || same_ignoring_case(e, "webp");
            if holds_char(file.as_str(), '.') && known {
                Some(TodoAttachment { file, mime: v.mime, width: v.width, height: v.height })
            } else {
                None
            }
        },
        None => None,
    }
}

proof fn lemma_after_last_holds_neither(s: Seq<char>, a: char, b: char)
    ensures
        !after_last(s, a, b).contains(a),
        !after_last(s, a, b).contains(b),
    decreases s.len(),
{
    if s.len() == 0 || s.last() == a || s.last() == b {
    } else {
        let t = after_last(s.drop_last(), a, b);
        lemma_after_last_holds_neither(s.drop_last(), a, b);
        let r = t.push(s.last());
        assert forall|i: int| 0 <= i < r.len() implies r[i] != a && r[i] != b by {
            if i < t.len() {
                assert(r[i] == t[i]);
                assert(t.contains(t[i]));
            }
        }
    }
}

/// An attachment that comes back from outside names no other directory.
pub proof fn safe_attachment_stays_inside(a: Option<AttachmentView>)
    ensures
        match safe_attachment_of(a) {
            Some(v) => !v.file.contains('/') && !v.file.contains('\\') && v.file.len() > 0,
            None => true,
        },
{
    if safe_attachment_of(a) is Some {
        lemma_after_last_holds_neither(a.unwrap().file, '/', '\\');
        let name = base_name(a.unwrap().file);
        assert(name.contains('.'));
    }
}

/// The name of an attachment file: an identifier, a dot and an extension.
pub open spec fn file_name_of(id: Seq<char>, ext: Seq<char>) -> Seq<char> {
    id + "."@ + ext
}

/// What a file name that the library makes is made of: one dot, and nothing
/// else that has a meaning in a path.
proof fn lemma_made_name(id: Seq<char>, ext: Seq<char>)
    requires
        is_uuid(id),
        ext == "gif"@ || ext == "png"@ || ext == "jpg"@,
    ensures
        file_name_of(id, ext).len() == 40,
        file_name_of(id, ext)[36] == '.',
        file_name_of(id, ext).skip(37) == ext,
        forall|i: int|
            0 <= i < 40 ==> (i != 36 ==> #[trigger] file_name_of(id, ext)[i] != '.')
                && file_name_of(id, ext)[i] != '/' && file_name_of(id, ext)[i] != '\\'
                && file_name_of(id, ext)[i] != ':' && file_name_of(id, ext)[i] != '\0',
{
    reveal_strlit(".");
    reveal_strlit("gif");
    reveal_strlit("png");
    reveal_strlit("jpg");
    let name = file_name_of(id, ext);
    assert(name.len() == 40);
    assert(name[36] == "."@[0]);
    assert(name.skip(37) =~= ext);
    assert forall|i: int| 0 <= i < 40 implies (i != 36 ==> #[trigger] name[i] != '.') && name[i]
        != '/' && name[i] != '\\' && name[i] != ':' && name[i] != '\0' by {
        if i < 36 {
            assert(name[i] == id[i]);
        } else if i == 36 {
            assert(name[i] == "."@[0]);
        } else {
            assert(name[i] == ext[i - 37]);
        }
    }
}

/// Every file name that the library makes passes the test for deletion.
pub proof fn made_names_are_plain(id: Seq<char>, ext: Seq<char>)
    requires
        is_uuid(id),
        ext == "gif"@ || ext == "png"@ || ext == "jpg"@,
    ensures
        is_plain_name(file_name_of(id, ext)),
{
    lemma_made_name(id, ext);
    let name = file_name_of(id, ext);
    assert forall|i: int| 0 <= i < name.len() - 1 implies !(#[trigger] name[i] == '.'
        && name[i + 1] == '.') by {
    }
}

/// An attachment under a file name that the library makes comes back from
/// outside as it was.
pub proof fn made_attachments_come_back(a: AttachmentView, id: Seq<char>, ext: Seq<char>)
    requires
        is_uuid(id),
        ext == "gif"@ || ext == "png"@ || ext == "jpg"@,
        a.file == file_name_of(id, ext),
    ensures
        safe_attachment_of(Some(a)) == Some(a),
{
    lemma_made_name(id, ext);
    let name = a.file;
    lemma_after_last(name, '/', '\\', 0);
    assert(name.skip(0) =~= name);
    lemma_after_last(name, '.', '.', 37);
    assert(name[36] == '.');
}

/// Whether a name leads nowhere but into the directory that it is looked up in.
pub open spec fn leads_nowhere_else(name: Seq<char>) -> bool {
    &&& name.len() > 0
    &&& forall|i: int|
        0 <= i < name.len() ==> (#[trigger] name[i]) != '/' && name[i] != '\\' && name[i] != ':'
            && name[i] != '\0'
    &&& forall|i: int, j: int|
        0 <= i < j < name.len() && j == i + 1 ==> !(#[trigger] name[i] == '.'
            && #[trigger] name[j] == '.')
}

/// The plain names are those that lead nowhere else.
pub proof fn plain_names_lead_nowhere_else(name: Seq<char>)
    ensures
        is_plain_name(name) <==> leads_nowhere_else(name),
{
    if is_plain_name(name) {
        assert forall|i: int| 0 <= i < name.len() implies (#[trigger] name[i]) != '/' && name[i]
            != '\\' && name[i] != ':' && name[i] != '\0' by {
            assert(name.contains(name[i]));
        }
        assert forall|i: int, j: int| 0 <= i < j < name.len() && j == i + 1 implies !(
        #[trigger] name[i] == '.' && #[trigger] name[j] == '.') by {
            assert(!(name[i] == '.' && name[i + 1] == '.'));
        }
    }
    if leads_nowhere_else(name) {
        assert forall|i: int| 0 <= i < name.len() - 1 implies !(#[trigger] name[i] == '.'
            && name[i + 1] == '.') by {
            let j = i + 1;
            assert(!(name[i] == '.' && name[j] == '.'));
        }
    }
}

/// Whether a name is kept as it is when it comes back from outside: it holds no
/// separator, and ends in a dot and the extension of an image.
pub open spec fn is_kept_name(name: Seq<char>) -> bool {
    &&& forall|i: int| 0 <= i < name.len() ==> (#[trigger] name[i]) != '/' && name[i] != '\\'
    &&& exists|k: int| ends_as_image(name, k)
}

/// Whether behind the place `k` stands a dot and, up to the end of the name, the
/// extension of an image in whatever case.
pub open spec fn ends_as_image(name: Seq<char>, k: int) -> bool {
    &&& 0 <= k < name.len()
    &&& name[k] == '.'
    &&& forall|i: int| k < i < name.len() ==> (#[trigger] name[i]) != '.'
    &&& spells(name, k + 1, seq!['j', 'p', 'g'], seq!['J', 'P', 'G']) || spells(
        name,
        k + 1,
        seq!['j', 'p', 'e', 'g'],
        seq!['J', 'P', 'E', 'G'],
    ) || spells(name, k + 1, seq!['p', 'n', 'g'], seq!['P', 'N', 'G']) || spells(
        name,
        k + 1,
        seq!['g', 'i', 'f'],
        seq!['G', 'I', 'F'],
    ) || spells(name, k + 1, seq!['w', 'e', 'b', 'p'], seq!['W', 'E', 'B', 'P'])
}

/// Whether a name ends, from `k` on, in a word, each letter small or large.
pub open spec fn spells(name: Seq<char>, k: int, small: Seq<char>, large: Seq<char>) -> bool {
    &&& name.len() == k + small.len()
    &&& forall|i: int|
        0 <= i < small.len() ==> #[trigger] name[k + i] == small[i] || name[k + i] == large[i]
}

proof fn lemma_spells(name: Seq<char>, k: int, small: Seq<char>, large: Seq<char>)
    requires
        0 <= k <= name.len(),
        small.len() == large.len(),
        forall|i: int|
            0 <= i < small.len() ==> 'a' <= #[trigger] small[i] <= 'z' && small[i] as int
                == large[i] as int + 32,
    ensures
        spells(name, k, small, large) <==> same_folded(name.skip(k), small),
{
    let tail = name.skip(k);
    if name.len() == k + small.len() {
        assert forall|i: int| 0 <= i < small.len() implies (folded(#[trigger] tail[i]) == folded(
            small[i],
        ) <==> (name[k + i] == small[i] || name[k + i] == large[i])) by {
            assert(tail[i] == name[k + i]);
            folding_joins_the_cases(tail[i], small[i]);
        }
        if spells(name, k, small, large) {
            assert forall|i: int| 0 <= i < tail.len() implies folded(#[trigger] tail[i]) == folded(
                small[i],
            ) by {
                assert(name[k + i] == small[i] || name[k + i] == large[i]);
            }
        }
        if same_folded(tail, small) {
            assert forall|i: int| 0 <= i < small.len() implies #[trigger] name[k + i] == small[i]
                || name[k + i] == large[i] by {
                assert(folded(tail[i]) == folded(small[i]));
            }
        }
    }
}

proof fn lemma_image_words(name: Seq<char>, k: int)
    requires
        0 <= k <= name.len(),
    ensures
        spells(name, k, seq!['j', 'p', 'g'], seq!['J', 'P', 'G']) <==> same_folded(
            name.skip(k),
            "jpg"@,
        ),
        spells(name, k, seq!['j', 'p', 'e', 'g'], seq!['J', 'P', 'E', 'G']) <==> same_folded(
            name.skip(k),
            "jpeg"@,
        ),
        spells(name, k, seq!['p', 'n', 'g'], seq!['P', 'N', 'G']) <==> same_folded(
            name.skip(k),
            "png"@,
        ),
        spells(name, k, seq!['g', 'i', 'f'], seq!['G', 'I', 'F']) <==> same_folded(
            name.skip(k),
            "gif"@,
        ),
        spells(name, k, seq!['w', 'e', 'b', 'p'], seq!['W', 'E', 'B', 'P']) <==> same_folded(
            name.skip(k),
            "webp"@,
        ),
{
    reveal_strlit("jpg");
    reveal_strlit("jpeg");
    reveal_strlit("png");
    reveal_strlit("gif");
    reveal_strlit("webp");
    assert("jpg"@ == seq!['j', 'p', 'g']);
    assert("jpeg"@ == seq!['j', 'p', 'e', 'g']);
    assert("png"@ == seq!['p', 'n', 'g']);
    assert("gif"@ == seq!['g', 'i', 'f']);
    assert("webp"@ == seq!['w', 'e', 'b', 'p']);
    lemma_spells(name, k, seq!['j', 'p', 'g'], seq!['J', 'P', 'G']);
    lemma_spells(name, k, seq!['j', 'p', 'e', 'g'], seq!['J', 'P', 'E', 'G']);
    lemma_spells(name, k, seq!['p', 'n', 'g'], seq!['P', 'N', 'G']);
    lemma_spells(name, k, seq!['g', 'i', 'f'], seq!['G', 'I', 'F']);
    lemma_spells(name, k, seq!['w', 'e', 'b', 'p'], seq!['W', 'E', 'B', 'P']);
}

proof fn lemma_image_suffix(name: Seq<char>)
    ensures
        has_image_suffix(name) <==> exists|k: int| ends_as_image(name, k),
{
    if name.contains('.') {
        lemma_last_dot(name);
        let k = choose|k: int|
            0 <= k < name.len() && name[k] == '.' && forall|i: int|
                k < i < name.len() ==> (#[trigger] name[i]) != '.';
        lemma_after_last(name, '.', '.', k + 1);
        lemma_image_words(name, k + 1);
        if has_image_suffix(name) {
            assert(ends_as_image(name, k));
        }
        if exists|j: int| ends_as_image(name, j) {
            let j = choose|j: int| ends_as_image(name, j);
            if j < k {
                assert(name[k] != '.');
            }
            if k < j {
                assert(name[j] != '.');
            }
        }
    } else if exists|k: int| ends_as_image(name, k) {
        let k = choose|k: int| ends_as_image(name, k);
        assert(name[k] == '.');
    }
}

proof fn lemma_last_dot(name: Seq<char>)
    requires
        name.contains('.'),
    ensures
        exists|k: int|
            0 <= k < name.len() && name[k] == '.' && forall|i: int|
                k < i < name.len() ==> (#[trigger] name[i]) != '.',
    decreases name.len(),
{
    let n = name.len() - 1;
    if name[n] == '.' {
        assert(forall|i: int| n < i < name.len() ==> (#[trigger] name[i]) != '.');
    } else {
        let init = name.drop_last();
        let w = choose|w: int| 0 <= w < name.len() && name[w] == '.';
        assert(init[w] == '.');
        lemma_last_dot(init);
        let k = choose|k: int|
            0 <= k < init.len() && init[k] == '.' && forall|i: int|
                k < i < init.len() ==> (#[trigger] init[i]) != '.';
        assert forall|i: int| k < i < name.len() implies (#[trigger] name[i]) != '.' by {
            if i < n {
                assert(init[i] == name[i]);
            }
        }
        assert(name[k] == '.');
    }
}

/// An attachment comes back from outside whole where its file's name holds no
/// separator and is that of an image.
pub proof fn image_names_are_kept(a: AttachmentView)
    requires
        is_kept_name(a.file),
    ensures
        safe_attachment_of(Some(a)) == Some(a),
{
    lemma_after_last(a.file, '/', '\\', 0);
    assert(a.file.skip(0) =~= a.file);
    lemma_image_suffix(a.file);
}

/// Of a path only the last name is kept, and everything else that the attachment
/// records.
pub proof fn paths_are_cut_to_their_last_name(
    a: AttachmentView,
    dir: Seq<char>,
    separator: char,
    name: Seq<char>,
)
    requires
        separator == '/' || separator == '\\',
        is_kept_name(name),
        a.file == dir + seq![separator] + name,
    ensures
        ({
            let s = safe_attachment_of(Some(a));
            &&& s is Some
            &&& s.unwrap().file == name
            &&& s.unwrap().mime == a.mime
            &&& s.unwrap().width == a.width
            &&& s.unwrap().height == a.height
        }),
{
    let k = dir.len() + 1;
    assert forall|j: int| k <= j < a.file.len() implies a.file[j] != '/' && a.file[j] != '\\' by {
        assert(a.file[j] == name[j - k]);
    }
    assert(a.file[k - 1] == separator);
    lemma_after_last(a.file, '/', '\\', k as int);
    assert(a.file.skip(k as int) =~= name);
    lemma_image_suffix(name);
}

/// What comes back from outside is the name of an image, whatever came: else
/// there is no attachment, and none appears where there was none.
pub proof fn only_image_names_come_back(a: Option<AttachmentView>)
    ensures
        match safe_attachment_of(a) {
            Some(v) => a is Some && is_kept_name(v.file) && v.file.len() <= a.unwrap().file.len()
                && a.unwrap().file.skip(a.unwrap().file.len() - v.file.len()) == v.file,
            None => a is None || forall|name: Seq<char>, dir: Seq<char>|
                #![trigger dir + name]
                a.unwrap().file == dir + name && (dir.len() == 0 || dir.last() == '/'
                    || dir.last() == '\\') ==> !is_kept_name(name),
        },
{
    if a is Some {
        let file = a.unwrap().file;
        lemma_after_last_holds_neither(file, '/', '\\');
        lemma_after_last_is_tail(file, '/', '\\');
        let base = base_name(file);
        lemma_image_suffix(base);
        if has_image_suffix(base) {
            assert forall|i: int| 0 <= i < base.len() implies (#[trigger] base[i]) != '/' && base[i]
                != '\\' by {
                assert(base.contains(base[i]));
            }
        } else {
            assert forall|name: Seq<char>, dir: Seq<char>|
                #![trigger dir + name]
                file == dir + name && (dir.len() == 0 || dir.last() == '/' || dir.last()
                    == '\\') implies !is_kept_name(name) by {
                if is_kept_name(name) {
                    let k = dir.len() as int;
                    assert forall|j: int| k <= j < file.len() implies file[j] != '/' && file[j]
                        != '\\' by {
                        assert(file[j] == name[j - k]);
                    }
                    if k > 0 {
                        assert(file[k - 1] == dir.last());
                    }
                    lemma_after_last(file, '/', '\\', k);
                    assert(file.skip(k) =~= name);
                }
            }
        }
    }
}

/// A file is named by an identifier, a dot and an extension, whatever they are.
pub proof fn files_are_named_by_id_and_extension(id: Seq<char>, ext: Seq<char>)
    ensures
        file_name_of(id, ext) == id + seq!['.'] + ext,
{
    reveal_strlit(".");
    assert("."@ == seq!['.']);
}

/// The names that the library makes are kept.
pub proof fn made_names_are_kept(id: Seq<char>, ext: Seq<char>)
    requires
        is_uuid(id),
        ext == "gif"@ || ext == "png"@ || ext == "jpg"@,
    ensures
        is_kept_name(id + seq!['.'] + ext),
        file_name_of(id, ext) == id + seq!['.'] + ext,
{
    reveal_strlit(".");
    assert("."@ == seq!['.']);
    lemma_made_name(id, ext);
    let name = file_name_of(id, ext);
    lemma_image_words(name, 37);
    assert(name.skip(37) == ext);
    assert(same_folded(ext, ext));
    assert(ends_as_image(name, 36));
}

} // verus!
