//! Paths of files, as text.
use crate::text::{cat2, cat3, has_prefix, begins_with, same, split, split_text};
use vstd::prelude::*;

verus! {

/// A path within a directory; an absolute path stays as it is.
pub open spec fn path_within(base: Seq<char>, path: Seq<char>) -> Seq<char> {
    if begins_with(path, "/"@) {
        path
    } else if base.len() == 0 || base.last() == '/' {
        base + path
    } else {
        base + "/"@ + path
    }
}

/// A path within a directory; an absolute path stays as it is.
pub fn join_path(base: &str, path: &str) -> (r: String)
    ensures
        r@ == path_within(base@, path@),
{
    if has_prefix(path, "/") {
        return path.to_owned();
    }
    let length: usize = base.unicode_len();
    if length == 0 || base.get_char(length - 1) == '/' {
        cat2(base, path)
    } else {
        cat3(base, "/", path)
    }
}

/// The components of a path that name something: neither empty nor a dot.
pub open spec fn named_components(parts: Seq<Seq<char>>) -> Seq<Seq<char>> {
    parts.filter(|part: Seq<char>| part.len() != 0 && part != "."@)
}

/// The last component of a path, where it names something below the component before it.
pub open spec fn file_name_of(path: Seq<char>) -> Option<Seq<char>> {
    let names = named_components(split(path, '/'));
    if names.len() == 0 || names.last() == ".."@ {
        None
    } else {
        Some(names.last())
    }
}

/// The last component of a path, where it names something below the component before it.
pub fn file_name(path: &str) -> (r: Option<String>)
    ensures
        r.deep_view() == file_name_of(path@),
{
    let parts = split_text(path, '/');
    let ghost named = |part: Seq<char>| part.len() != 0 && part != "."@;
    let mut i: usize = parts.len();
    assert(parts.deep_view().take(i as int) =~= parts.deep_view());
    while i > 0
        invariant
            0 <= i <= parts@.len(),
            parts.deep_view() == split(path@, '/'),
            named == (|part: Seq<char>| part.len() != 0 && part != "."@),
            named_components(parts.deep_view()) == parts.deep_view().take(i as int).filter(named),
        decreases i,
    {
        i = i - 1;
        let part = parts[i].as_str();
        proof {
            let head = parts.deep_view().take(i + 1);
            assert(head.drop_last() =~= parts.deep_view().take(i as int));
            assert(head.last() == part@);
            reveal(Seq::filter);
        }
        if part.unicode_len() != 0 && !same(part, ".") {
            return if same(part, "..") {
                None
            } else {
                Some(part.to_owned())
            };
        }
    }
    proof {
        reveal(Seq::filter);
    }
    None
}

} // verus!
