//! File paths, as text.

use vstd::prelude::*;
use crate::text::{lemma_next_char, next_char, opt_text, pieces, pieces_from, split, str_eq, texts};

verus! {

/// What `std::path::Path::parent` gives for a path.
pub uninterp spec fn path_parent(path: Seq<char>) -> Option<Seq<char>>;

/// What `std::path::Path::extension` gives for a path.
pub uninterp spec fn path_extension(path: Seq<char>) -> Option<Seq<char>>;

/// `std::path::Path::parent`: the path without its last part depends on the path alone.
#[verifier::external_body]
pub(crate) fn parent_of(path: &str) -> (r: Option<String>)
    ensures
        opt_text(r) == path_parent(path@),
{
    std::path::Path::new(path).parent().map(|p| p.to_string_lossy().into_owned())
}

/// `std::path::Path::extension`: the extension of the file name depends on the path alone.
#[verifier::external_body]
pub(crate) fn extension_of(path: &str) -> (r: Option<String>)
    ensures
        opt_text(r) == path_extension(path@),
{
    std::path::Path::new(path).extension().map(|e| e.to_string_lossy().into_owned())
}

/// The directory of a path: its parent, or the path itself where it has none.
pub open spec fn dir_said(path: Seq<char>) -> Seq<char> {
    match path_parent(path) {
        Some(p) => p,
        None => path,
    }
}

/// The directory of a path.
pub fn dir_of(path: &str) -> (r: String)
    ensures
        r@ == dir_said(path@),
{
    match parent_of(path) {
        Some(p) => p,
        None => path.to_owned(),
    }
}

/// Whether one of the parts of a path is `..`.
pub open spec fn climbs(path: Seq<char>) -> bool {
    pieces(path, '/').contains(".."@)
}

/// Whether one of the parts of a path is `..`.
pub fn has_parent_part(path: &str) -> (r: bool)
    ensures
        r == climbs(path@),
{
    let parts = split(path, '/');
    let mut i: usize = 0;
    while i < parts.len()
        invariant
            i <= parts@.len(),
            texts(parts@) == pieces(path@, '/'),
            forall|k: int| 0 <= k < i ==> #[trigger] parts@[k]@ != ".."@,
        decreases parts@.len() - i,
    {
        if str_eq(parts[i].as_str(), "..") {
            proof {
                assert(pieces(path@, '/')[i as int] == ".."@);
            }
            return true;
        }
        i = i + 1;
    }
    proof {
        assert forall|k: int| 0 <= k < pieces(path@, '/').len() implies pieces(path@, '/')[k] != ".."@ by {
            assert(pieces(path@, '/')[k] == parts@[k]@);
        }
    }
    false
}

/// Whether a path starts at the root.
pub open spec fn rooted(path: Seq<char>) -> bool {
    path.len() > 0 && path[0] == '/'
}

/// Whether a path starts at the root.
pub fn is_absolute(path: &str) -> (r: bool)
    ensures
        r == rooted(path@),
{
    let v = crate::text::chars_of(path);
    v.len() > 0 && v[0] == '/'
}

/// A path below a directory: a rooted path stands for itself, and a separator is put in where the
/// directory is not empty and does not end with one.
pub open spec fn below(dir: Seq<char>, path: Seq<char>) -> Seq<char> {
    if rooted(path) {
        path
    } else if dir.len() == 0 || dir.last() == '/' {
        dir + path
    } else {
        dir + "/"@ + path
    }
}

/// A path below a directory.
pub fn join_path(dir: &str, path: &str) -> (r: String)
    ensures
        r@ == below(dir@, path@),
{
    if is_absolute(path) {
        return path.to_owned();
    }
    let v = crate::text::chars_of(dir);
    let mut out: String = dir.to_owned();
    if v.len() > 0 && v[v.len() - 1] != '/' {
        out.append("/");
    }
    out.append(path);
    out
}

/// A path below a directory is the path itself where it starts at the root, and otherwise the
/// directory and the path with one slash between them.
pub proof fn law_path_is_taken_below_the_directory(dir: Seq<char>, path: Seq<char>)
    ensures
        path.len() > 0 && path[0] == '/' ==> below(dir, path) == path,
        !(path.len() > 0 && path[0] == '/') ==> {
            &&& dir.is_prefix_of(below(dir, path))
            &&& path.is_suffix_of(below(dir, path))
            &&& dir.len() == 0 || dir.last() == '/' ==> below(dir, path).len() == dir.len() + path.len()
            &&& dir.len() > 0 && dir.last() != '/' ==> below(dir, path).len() == dir.len() + 1 + path.len() && below(dir, path)[dir.len() as int] == '/'
        },
{
    reveal_strlit("/");
    let t = below(dir, path);
    if !rooted(path) {
        assert(t.subrange(0, dir.len() as int) =~= dir);
        assert(t.subrange(t.len() - path.len(), t.len() as int) =~= path);
    }
}

/// Whether a part of a path stands between slashes or the ends of the path.
pub open spec fn is_part(path: Seq<char>, i: int, j: int) -> bool {
    &&& 0 <= i <= j <= path.len()
    &&& i > 0 ==> path[i - 1] == '/'
    &&& j < path.len() ==> path[j] == '/'
    &&& forall|k: int| i <= k < j ==> #[trigger] path[k] != '/'
}

/// The pieces of a path from the start of a part on are its parts.
proof fn lemma_pieces_are_parts(path: Seq<char>, from: int, part: Seq<char>)
    requires
        0 <= from <= path.len(),
        from > 0 ==> path[from - 1] == '/',
    ensures
        pieces_from(path, '/', from).contains(part) <==> exists|i: int, j: int| from <= i && #[trigger] is_part(path, i, j) && path.subrange(i, j) == part,
    decreases path.len() - from,
{
    lemma_next_char(path, '/', from);
    let end = next_char(path, '/', from);
    let ps = pieces_from(path, '/', from);
    let first = path.subrange(from, end);
    assert(is_part(path, from, end));
    if end >= path.len() {
        assert(ps =~= seq![first]);
        assert(ps[0] == first);
        assert forall|i: int, j: int| from <= i && #[trigger] is_part(path, i, j) implies i == from && j == end by {
            if i > from {
                assert(path[i - 1] != '/');
            }
        }
        if exists|i: int, j: int| from <= i && #[trigger] is_part(path, i, j) && path.subrange(i, j) == part {
            assert(ps.contains(part));
        }
    } else {
        lemma_pieces_are_parts(path, end + 1, part);
        let rest = pieces_from(path, '/', end + 1);
        assert(ps =~= seq![first] + rest);
        if ps.contains(part) {
            let k = choose|k: int| 0 <= k < ps.len() && ps[k] == part;
            if k > 0 {
                assert(rest[k - 1] == part);
                assert(rest.contains(part));
            }
        }
        if exists|i: int, j: int| from <= i && #[trigger] is_part(path, i, j) && path.subrange(i, j) == part {
            let (i, j) = choose|i: int, j: int| from <= i && #[trigger] is_part(path, i, j) && path.subrange(i, j) == part;
            if i <= end {
                if i > from {
                    assert(path[i - 1] != '/');
                }
                if j > end {
                    assert(path[end] != '/');
                }
                if j < end {
                    assert(path[j] != '/');
                }
                assert(ps[0] == part);
            } else {
                assert(rest.contains(part));
                let k = choose|k: int| 0 <= k < rest.len() && rest[k] == part;
                assert(ps[k + 1] == part);
            }
        }
    }
}

/// A path climbs where one of the parts between its slashes is `..`, wherever it stands.
pub proof fn law_path_climbs_by_its_parts(path: Seq<char>)
    ensures
        climbs(path) <==> exists|i: int, j: int| 0 <= i && #[trigger] is_part(path, i, j) && path.subrange(i, j) == ".."@,
{
    lemma_pieces_are_parts(path, 0, ".."@);
}

/// The directory of a path is its parent, and a path without a parent is its own directory.
pub proof fn law_directory_is_the_parent(path: Seq<char>)
    ensures
        path_parent(path) matches Some(p) ==> dir_said(path) == p,
        path_parent(path) is None ==> dir_said(path) == path,
{
}

} // verus!
