//! The `std::path` operations that the library needs, on paths held as
//! strings. How a path splits into components depends on the platform the
//! library is built for (`/` only, or `/` and `\`, with drive prefixes), so
//! these functions are not given names that would claim one answer for every
//! machine; each states only what the standard library documents for every
//! platform: `/` separates components everywhere, a component without `/`,
//! `\`, `:` is a plain name everywhere, and joining a relative path extends
//! the base.

use vstd::prelude::*;

verus! {

/// Whether `s` is one non-empty path component on every platform: it holds
/// no `/`, no `\\` and no `:` (so no separator and no drive prefix).
pub open spec fn is_plain_name(s: Seq<char>) -> bool {
    s.len() > 0 && !s.contains('/') && !s.contains('\\') && !s.contains(':')
}

/// Whether `s` is a plain name that is a file or directory name, not `.`
/// or `..`.
pub open spec fn is_file_name(s: Seq<char>) -> bool {
    is_plain_name(s) && s != seq!['.'] && s != seq!['.', '.']
}

/// Whether `d` is a directory path that every platform reads the same way
/// and keeps as written in front of a last component: non-empty, with `/`
/// as its only separator, no drive prefix (no `:`), not beginning with `//`,
/// and not ending with `/` or `/.`.
pub open spec fn is_plain_dir(d: Seq<char>) -> bool {
    &&& d.len() > 0
    &&& !d.contains('\\')
    &&& !d.contains(':')
    &&& d[d.len() - 1] != '/'
    &&& !(d.len() >= 2 && d[d.len() - 2] == '/' && d[d.len() - 1] == '.')
    &&& !(d.len() >= 2 && d[0] == '/' && d[1] == '/')
}

/// The part of `p` after `dir` and the `/` that follows it.
pub open spec fn name_after(p: Seq<char>, dir: Seq<char>) -> Seq<char> {
    p.skip(dir.len() + 1int)
}

/// Whether `p` is `dir/name` for a plain directory path `dir` and a file
/// name `name`.
pub open spec fn dir_split(p: Seq<char>, dir: Seq<char>) -> bool {
    &&& is_plain_dir(dir)
    &&& is_file_name(name_after(p, dir))
    &&& p == dir + seq!['/'] + name_after(p, dir)
}

/// Whether `parent` is `dir` wherever `p` is `dir/name` as `dir_split`
/// says.
pub open spec fn parent_on_dir_split(p: Seq<char>, parent: Option<String>) -> bool {
    forall|dir: Seq<char>| #[trigger] dir_split(p, dir) ==> (parent matches Some(q) && q@ == dir)
}

/// Whether `file_name` is `name` wherever `p` is `dir/name` as `dir_split`
/// says.
pub open spec fn file_name_on_dir_split(p: Seq<char>, file_name: Option<String>) -> bool {
    forall|dir: Seq<char>|
        #[trigger] dir_split(p, dir) ==> (file_name matches Some(n) && n@ == name_after(p, dir))
}

/// Whether `p` is a root written with `/` alone (`/`, `//`, ...), which has
/// no parent on any platform.
pub open spec fn is_slash_root(p: Seq<char>) -> bool {
    p.len() > 0 && forall|i: int| 0 <= i < p.len() ==> p[i] == '/'
}

/// What `Path::parent` may give for `p`: none for the empty path and for a
/// root written with `/` alone, else a shorter prefix of `p`, the empty
/// path for a bare file name, and `dir` for `dir/name`.
pub open spec fn parent_facts(p: Seq<char>, parent: Option<String>) -> bool {
    &&& p.len() == 0 ==> parent is None
    &&& is_slash_root(p) ==> parent is None
    &&& is_file_name(p) ==> (parent matches Some(q) && q@.len() == 0)
    &&& parent matches Some(q) ==> q@.len() < p.len() && q@ == p.take(q@.len() as int)
    &&& parent_on_dir_split(p, parent)
}

/// Calls `Path::parent` and returns the parent as a string. As documented,
/// it is the path without its final component: a shorter prefix of the
/// path, none for the empty path and for a path that ends in a root (such
/// as `/`), the empty path for a bare file name (`foo` gives ``), and `dir`
/// for `dir/name`. Which prefix an
/// other path gives depends on the platform's separators and prefixes and
/// is left unsaid.
#[verifier::external_body]
pub(crate) fn path_parent(p: &str) -> (res: Option<String>)
    ensures
        parent_facts(p@, res),
{
    std::path::Path::new(p).parent().map(|q| q.display().to_string())
}

/// Calls `Path::file_name` and returns the final component as a string:
/// none for the empty path, the name itself for a bare file name, and
/// `name` for `dir/name`. Which component an other path gives depends on
/// the platform's separators and is left unsaid.
#[verifier::external_body]
pub(crate) fn path_file_name(p: &str) -> (res: Option<String>)
    ensures
        p@.len() == 0 ==> res is None,
        is_file_name(p@) ==> res is Some && res.unwrap()@ == p@,
        file_name_on_dir_split(p@, res),
{
    std::path::Path::new(p).file_name().map(|n| n.to_string_lossy().into_owned())
}

/// Whether `rel` is a relative path on every platform: non-empty, not
/// beginning with a separator, and without `:` (so without a drive prefix).
pub open spec fn is_relative_text(rel: Seq<char>) -> bool {
    rel.len() > 0 && rel[0] != '/' && rel[0] != '\\' && !rel.contains(':')
}

/// Whether `c` separates path components on some platform.
pub open spec fn is_any_separator(c: char) -> bool {
    c == '/' || c == '\\'
}

/// Whether `base` may begin with a Windows verbatim prefix (`\\?\`, where
/// the prefix parser reads `/` as `\\`), under which `Path::join`
/// normalizes the path.
pub open spec fn is_verbatim(base: Seq<char>) -> bool {
    &&& base.len() >= 4
    &&& is_any_separator(base[0])
    &&& is_any_separator(base[1])
    &&& base[2] == '?'
    &&& is_any_separator(base[3])
}

/// Whether `rel` begins with `/`, a root on every platform.
pub open spec fn is_rooted_text(rel: Seq<char>) -> bool {
    rel.len() > 0 && rel[0] == '/'
}

/// Whether `base` has no Windows prefix: no `:` (so no drive) and not two
/// separators at its start (so no verbatim, device or UNC prefix).
pub open spec fn has_no_prefix(base: Seq<char>) -> bool {
    &&& !base.contains(':')
    &&& !(base.len() >= 2 && is_any_separator(base[0]) && is_any_separator(base[1]))
}

/// Whether `base` is a path to which `Path::join` adds a separator before a
/// relative name: non-empty, without a prefix, and not ending in `/` or
/// `\\`.
pub open spec fn needs_separator(base: Seq<char>) -> bool {
    &&& base.len() > 0
    &&& has_no_prefix(base)
    &&& !is_any_separator(base[base.len() - 1])
}

/// Whether `res` is `base`, one separator (`/` or `\\`), and `rel`.
pub open spec fn separated_by_one(res: Seq<char>, base: Seq<char>, rel: Seq<char>) -> bool {
    ||| res == base + seq!['/'] + rel
    ||| res == base + seq!['\\'] + rel
}

/// Whether `res` is `base` extended by `rel`, with `/`, `\\` or nothing
/// between them.
pub open spec fn extended_by(res: Seq<char>, base: Seq<char>, rel: Seq<char>) -> bool {
    ||| res == base + rel
    ||| res == base + seq!['/'] + rel
    ||| res == base + seq!['\\'] + rel
}

/// Calls `Path::join`, which extends `base` with `rel`. For a relative
/// `rel` and a `base` without a verbatim prefix, the result is `base`, a
/// separator where one is needed, and `rel`, as written. Which separator is
/// inserted depends on the platform and on how `base` ends, and is left
/// open among `/`, `\\` and none; to a non-empty `base` without a prefix that
/// does not end in a separator, one separator is always added (the
/// platform's own: `/` on Unix, `\\` on Windows). A `rel` that begins with `/` replaces a
/// `base` without a prefix, on every platform (on Windows it keeps only the
/// prefix of `base`), so the result is `rel`. Of an other `rel` (one with a
/// drive or beginning with `\\`), and of a relative `rel` under a verbatim
/// `base`, where the result is normalized, nothing is stated.
#[verifier::external_body]
pub(crate) fn path_join(base: &str, rel: &str) -> (res: String)
    ensures
        is_relative_text(rel@) && !is_verbatim(base@) ==> extended_by(res@, base@, rel@),
        is_rooted_text(rel@) && has_no_prefix(base@) ==> res@ == rel@,
        is_relative_text(rel@) && needs_separator(base@) ==> separated_by_one(res@, base@, rel@),
{
    std::path::Path::new(base).join(rel).display().to_string()
}

/// Calls `Path::exists`, which asks the file system; the answer depends on
/// the disk at the time of the call, so nothing is stated of it.
#[verifier::external_body]
pub(crate) fn path_exists(p: &str) -> (res: bool)
{
    std::path::Path::new(p).exists()
}

} // verus!
