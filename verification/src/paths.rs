//! Path arithmetic on plain character strings.
//!
//! Paths are treated as sequences of characters in which `/` and `\` both act
//! as component separators. No normalization is performed: the watcher and the
//! host hand in paths whose separators and casing already match the file
//! system, and the library only compares, splits and concatenates them.
use vstd::prelude::*;

verus! {

/// A component separator inside a path.
pub open spec fn is_sep(c: char) -> bool {
    c == '/' || c == '\\'
}

/// `base` names the tracked path `p` itself or one of its ancestors:
/// `base` is a character prefix of `p` that ends on a component boundary.
pub open spec fn is_path_prefix(base: Seq<char>, p: Seq<char>) -> bool {
    &&& base.len() <= p.len()
    &&& p.subrange(0, base.len() as int) == base
    &&& (base.len() == p.len() || is_sep(p[base.len() as int]) || (base.len() > 0 && is_sep(
        base[base.len() - 1],
    )))
}

/// The suffix of `p` below the ancestor `base`, without a leading separator.
/// Empty when `base` and `p` name the same entry.
pub open spec fn relative_part(base: Seq<char>, p: Seq<char>) -> Seq<char>
    recommends
        is_path_prefix(base, p),
{
    if base.len() > 0 && is_sep(base[base.len() - 1]) {
        p.subrange(base.len() as int, p.len() as int)
    } else if base.len() < p.len() && is_sep(p[base.len() as int]) {
        p.subrange(base.len() + 1 as int, p.len() as int)
    } else {
        p.subrange(base.len() as int, p.len() as int)
    }
}

/// Index of the first separator at or after position `i`, or `s.len()` if
/// there is none.
pub open spec fn first_sep_at(s: Seq<char>, i: nat) -> nat
    decreases s.len() - i,
{
    if i >= s.len() {
        s.len()
    } else if is_sep(s[i as int]) {
        i
    } else {
        first_sep_at(s, i + 1)
    }
}

/// The volume label of a path: its prefix through the first separator
/// (`/` for `/V/a.txt`, `C:\` for `C:\V\a.txt`), or empty when the path has
/// no separator at all.
pub open spec fn volume_label_of(s: Seq<char>) -> Seq<char> {
    if first_sep_at(s, 0) < s.len() {
        s.subrange(0, first_sep_at(s, 0) + 1 as int)
    } else {
        Seq::<char>::empty()
    }
}

/// `partial` re-attached under the directory `base`. When `base` already ends
/// with a separator the two are concatenated directly; otherwise a `/` is
/// inserted.
pub open spec fn join_path(base: Seq<char>, partial: Seq<char>) -> Seq<char> {
    if base.len() > 0 && is_sep(base[base.len() - 1]) {
        base + partial
    } else {
        base + seq!['/'] + partial
    }
}

/// Lookup failure for the path helpers: `base` was not an ancestor of the
/// path in question.
#[derive(Debug, PartialEq, Eq, Structural)]
pub struct Error;

/// Exec counterpart of [`is_sep`].
pub fn sep_char(c: char) -> (r: bool)
    ensures
        r == is_sep(c),
{
    c == '/' || c == '\\'
}

/// The suffix of `path` relative to its ancestor `base`, as the watcher
/// adapter's rename and removal events report ancestors.
///
/// Returns `Err` exactly when `base` is not a componentwise prefix of `path`.
pub fn get_relative_path(base: &str, path: &str) -> (r: Result<String, Error>)
    ensures
        r is Ok <==> is_path_prefix(base@, path@),
        r matches Ok(rel) ==> rel@ == relative_part(base@, path@),
{
    let base_len: usize = base.unicode_len();
    let path_len: usize = path.unicode_len();
    if base_len > path_len {
        return Err(Error);
    }
    let mut i: usize = 0;
    while i < base_len
        invariant
            i <= base_len <= path_len,
            base_len == base@.len(),
            path_len == path@.len(),
            forall|k: int| 0 <= k < i ==> base@[k] == path@[k],
        decreases base_len - i,
    {
        if base.get_char(i) != path.get_char(i) {
            assert(base@[i as int] != path@.subrange(0, base_len as int)[i as int]);
            return Err(Error);
        }
        i = i + 1;
    }
    assert(base@ =~= path@.subrange(0, base_len as int));
    if base_len == path_len {
        assert(relative_part(base@, path@) =~= Seq::<char>::empty());
        return Ok(String::new());
    }
    if base_len > 0 && sep_char(base.get_char(base_len - 1)) {
        let rel = path.substring_char(base_len, path_len);
        return Ok(String::from_str(rel));
    }
    if sep_char(path.get_char(base_len)) {
        let rel = path.substring_char(base_len + 1, path_len);
        return Ok(String::from_str(rel));
    }
    Err(Error)
}

/// The volume label of `file`: the topmost ancestor, found by cutting the
/// path after its first separator.
pub fn get_volume_label(file: &str) -> (r: String)
    ensures
        r@ == volume_label_of(file@),
{
    let len: usize = file.unicode_len();
    let mut i: usize = 0;
    while i < len
        invariant
            i <= len,
            len == file@.len(),
            first_sep_at(file@, 0) == first_sep_at(file@, i as nat),
        decreases len - i,
    {
        if sep_char(file.get_char(i)) {
            let label = file.substring_char(0, i + 1);
            return String::from_str(label);
        }
        i = i + 1;
    }
    String::new()
}

/// `partial` re-attached under the directory `base`; exec counterpart of
/// [`join_path`].
pub fn join_under(base: &str, partial: &str) -> (r: String)
    ensures
        r@ == join_path(base@, partial@),
{
    let base_len: usize = base.unicode_len();
    let mut out = String::from_str(base);
    if base_len == 0 || !sep_char(base.get_char(base_len - 1)) {
        out.append("/");
        proof {
            reveal_strlit("/");
            assert(out@ =~= base@ + seq!['/']);
        }
    }
    out.append(partial);
    proof {
        if base@.len() > 0 && is_sep(base@[base@.len() - 1]) {
            assert(out@ =~= base@ + partial@);
        } else {
            assert(out@ =~= base@ + seq!['/'] + partial@);
        }
    }
    out
}

/// Character-by-character string equality; `r` says whether the two views are
/// the same sequence.
pub fn str_eq(a: &str, b: &str) -> (r: bool)
    ensures
        r == (a@ == b@),
{
    let a_len: usize = a.unicode_len();
    let b_len: usize = b.unicode_len();
    if a_len != b_len {
        return false;
    }
    let mut i: usize = 0;
    while i < a_len
        invariant
            i <= a_len,
            a_len == a@.len(),
            a_len == b@.len(),
            forall|k: int| 0 <= k < i ==> a@[k] == b@[k],
        decreases a_len - i,
    {
        if a.get_char(i) != b.get_char(i) {
            return false;
        }
        i = i + 1;
    }
    proof {
        assert(a@ =~= b@);
    }
    true
}

} // verus!
