//! What the library knows of a crate: the workspace metadata that `cargo
//! metadata` reports, as plain values, and the crate information that a
//! find-module is rendered from.

use vstd::prelude::*;
use crate::paths::{
    extended_by, has_no_prefix, is_relative_text, is_rooted_text, is_verbatim, needs_separator,
    separated_by_one, parent_facts, path_exists, path_join, path_parent,
};
use crate::text::{
    chars_of, has_substring, lemma_replaced_char_leaves_none, push_str, replace_all, replaced,
    str_eq, string_of, views,
};

verus! {

/// Whether the crate is linked as a static or a shared library.
#[derive(Clone, Copy, PartialEq, Eq, Structural, Debug)]
pub enum LibKind {
    Static,
    Shared,
}

/// Everything a find-module is rendered from. Paths are held as the strings
/// they display as.
#[derive(Debug)]
pub struct CrateInfo {
    pub name: String,
    pub version: String,
    pub lib_kind: LibKind,
    pub lib_path: String,
    /// Windows import library (`.dll.lib`) for a `cdylib`, if present.
    pub implib_path: Option<String>,
    /// Populated when a debug/release build is found alongside the requested
    /// profile, so multi-config generators (Visual Studio, Xcode) can pick
    /// the right artifact per configuration instead of just one profile.
    pub lib_path_debug: Option<String>,
    pub lib_path_release: Option<String>,
    pub header_paths: Vec<String>,
    pub link_libs: Vec<String>,
}

/// A JSON value from a package's `[package.metadata]` table, as `cargo
/// metadata` reports it. Null, booleans and numbers, which are never read as
/// values here, are `Other`. An object keeps its entries in the order the
/// report gives them; its keys are distinct.
#[derive(Debug)]
pub enum MetaValue {
    Str(String),
    Array(Vec<MetaValue>),
    Object(Vec<(String, MetaValue)>),
    Other,
}

/// The value stored under `key` among `entries`: that of the first entry
/// with that key.
pub open spec fn entry_value(entries: Seq<(String, MetaValue)>, key: Seq<char>) -> Option<MetaValue>
    decreases entries.len(),
{
    if entries.len() == 0 {
        None
    } else if entries[0].0@ == key {
        Some(entries[0].1)
    } else {
        entry_value(entries.drop_first(), key)
    }
}

/// `value[key]` for an object, nothing for any other value (what
/// `serde_json::Value::get` returns for a string key).
pub open spec fn value_get(value: MetaValue, key: Seq<char>) -> Option<MetaValue> {
    match value {
        MetaValue::Object(entries) => entry_value(entries@, key),
        _ => None,
    }
}

/// `value_get` lifted to a value that may be absent.
pub open spec fn opt_get(value: Option<MetaValue>, key: Seq<char>) -> Option<MetaValue> {
    match value {
        Some(v) => value_get(v, key),
        None => None,
    }
}

/// The string of a string value.
pub open spec fn opt_str(value: Option<MetaValue>) -> Option<Seq<char>> {
    match value {
        Some(MetaValue::Str(s)) => Some(s@),
        _ => None,
    }
}

/// The string values among `items`, in order; other values are dropped.
pub open spec fn string_items(items: Seq<MetaValue>) -> Seq<Seq<char>>
    decreases items.len(),
{
    if items.len() == 0 {
        Seq::empty()
    } else {
        match items.last() {
            MetaValue::Str(s) => string_items(items.drop_last()).push(s@),
            _ => string_items(items.drop_last()),
        }
    }
}

impl MetaValue {
    /// The value under `key` if `self` is an object that has it.
    pub fn get(&self, key: &str) -> (res: Option<&MetaValue>)
        ensures
            match res {
                Some(v) => value_get(*self, key@) == Some(*v),
                None => value_get(*self, key@) is None,
            },
    {
        match self {
            MetaValue::Object(entries) => {
                let mut i: usize = 0;
                assert(entries@.skip(0) =~= entries@);
                while i < entries.len()
                    invariant
                        i <= entries@.len(),
                        value_get(*self, key@) == entry_value(entries@, key@),
                        entry_value(entries@, key@) == entry_value(entries@.skip(i as int), key@),
                    decreases entries@.len() - i,
                {
                    assert(entries@.skip(i as int).drop_first() =~= entries@.skip(i + 1));
                    assert(entries@.skip(i as int)[0] == entries@[i as int]);
                    if str_eq(entries[i].0.as_str(), key) {
                        return Some(&entries[i].1);
                    }
                    i = i + 1;
                }
                None
            },
            _ => None,
        }
    }

    /// The string of a string value.
    pub fn as_str(&self) -> (res: Option<&String>)
        ensures
            match res {
                Some(s) => opt_str(Some(*self)) == Some(s@),
                None => opt_str(Some(*self)) is None,
            },
    {
        match self {
            MetaValue::Str(s) => Some(s),
            _ => None,
        }
    }
}

/// What `cargo metadata` reports of one package, as plain values.
#[derive(Debug)]
pub struct PackageInfo {
    pub name: String,
    pub version: String,
    pub manifest_path: String,
    /// The `kind` list of each of the package's targets.
    pub target_kinds: Vec<Vec<String>>,
    /// The package's `[package.metadata]` table.
    pub metadata: MetaValue,
}

/// What `cargo metadata` reports of a workspace, as plain values.
#[derive(Debug)]
pub struct WorkspaceInfo {
    pub packages: Vec<PackageInfo>,
    /// The index in `packages` of the workspace's root package, if it has one.
    pub root_package: Option<usize>,
    pub target_directory: String,
}

/// Why a crate could not be loaded.
#[derive(Debug, PartialEq, Eq)]
pub enum LoadError {
    /// `cargo metadata` could not be run on the manifest.
    Metadata { manifest_path: String, cause: String },
    /// No package of the workspace has the requested name.
    CrateNotFound { name: String },
    /// No crate was requested and the workspace has no root package.
    NoRootPackage,
    /// The package has no `staticlib` or `cdylib` target.
    NoLibTarget { name: String },
    /// No built library file was found in the profile's directory.
    LibNotFound { kind: LibKind, stem: String, profile_dir: String, profile: String },
    /// The package's manifest path has no parent directory.
    NoManifestParent,
    /// The directory for a generated header could not be created.
    HeaderDir { dir: String, cause: String },
    /// `cbindgen` ran and failed.
    CbindgenExited { status: String, out_path: String },
    /// `cbindgen` is not installed.
    CbindgenMissing,
    /// `cbindgen` could not be started.
    CbindgenFailed { name: String, cause: String },
}

/// Whether some target of `pkg` has the crate-type `kind`.
pub open spec fn has_kind(pkg: PackageInfo, kind: Seq<char>) -> bool {
    exists|t: int, k: int|
        0 <= t < pkg.target_kinds@.len() && 0 <= k < pkg.target_kinds@[t]@.len()
            && #[trigger] pkg.target_kinds@[t]@[k]@ == kind
}

/// How `pkg` is linked: statically if it has a `staticlib` target,
/// otherwise shared if it has a `cdylib` target; neither if it has neither.
pub open spec fn lib_kind_of(pkg: PackageInfo) -> Option<LibKind> {
    if has_kind(pkg, "staticlib"@) {
        Some(LibKind::Static)
    } else if has_kind(pkg, "cdylib"@) {
        Some(LibKind::Shared)
    } else {
        None
    }
}

/// Whether some target of `pkg` has the crate-type `kind`.
fn has_target_kind(pkg: &PackageInfo, kind: &str) -> (res: bool)
    ensures
        res == has_kind(*pkg, kind@),
{
    let mut t: usize = 0;
    while t < pkg.target_kinds.len()
        invariant
            t <= pkg.target_kinds@.len(),
            forall|a: int, b: int|
                0 <= a < t && 0 <= b < pkg.target_kinds@[a]@.len()
                    ==> #[trigger] pkg.target_kinds@[a]@[b]@ != kind@,
        decreases pkg.target_kinds@.len() - t,
    {
        let kinds = &pkg.target_kinds[t];
        let mut k: usize = 0;
        while k < kinds.len()
            invariant
                t < pkg.target_kinds@.len(),
                *kinds == pkg.target_kinds@[t as int],
                k <= kinds@.len(),
                forall|a: int, b: int|
                    0 <= a < t && 0 <= b < pkg.target_kinds@[a]@.len()
                        ==> #[trigger] pkg.target_kinds@[a]@[b]@ != kind@,
                forall|b: int| 0 <= b < k ==> #[trigger] kinds@[b]@ != kind@,
            decreases kinds@.len() - k,
        {
            if str_eq(kinds[k].as_str(), kind) {
                assert(pkg.target_kinds@[t as int]@[k as int]@ == kind@);
                return true;
            }
            k = k + 1;
        }
        t = t + 1;
    }
    false
}

/// Determines whether `pkg` is linked statically or as a shared library.
pub fn detect_lib_kind(pkg: &PackageInfo) -> (res: Result<LibKind, LoadError>)
    ensures
        match lib_kind_of(*pkg) {
            Some(kind) => res == Ok::<LibKind, LoadError>(kind),
            None => res == Err::<LibKind, LoadError>(LoadError::NoLibTarget { name: pkg.name }),
        },
{
    if has_target_kind(pkg, "staticlib") {
        Ok(LibKind::Static)
    } else if has_target_kind(pkg, "cdylib") {
        Ok(LibKind::Shared)
    } else {
        Err(LoadError::NoLibTarget { name: pkg.name.clone() })
    }
}

/// The names of the packages that have a `staticlib` or `cdylib` target,
/// in workspace order.
pub open spec fn lib_crate_names(pkgs: Seq<PackageInfo>) -> Seq<Seq<char>>
    decreases pkgs.len(),
{
    if pkgs.len() == 0 {
        Seq::empty()
    } else if lib_kind_of(pkgs.last()) is Some {
        lib_crate_names(pkgs.drop_last()).push(pkgs.last().name@)
    } else {
        lib_crate_names(pkgs.drop_last())
    }
}

/// A package with a `staticlib` among the crate types of any of its
/// targets, wherever that target stands, is linked statically.
pub proof fn lemma_staticlib_target_is_static(pkg: PackageInfo, t: int, k: int)
    requires
        0 <= t < pkg.target_kinds@.len(),
        0 <= k < pkg.target_kinds@[t]@.len(),
        pkg.target_kinds@[t]@[k]@ == "staticlib"@,
    ensures
        lib_kind_of(pkg) == Some(LibKind::Static),
{
    assert(has_kind(pkg, "staticlib"@));
}

/// A package with a `cdylib` among the crate types of any of its targets,
/// and no `staticlib` in any, is linked as a shared library.
pub proof fn lemma_cdylib_target_is_shared(pkg: PackageInfo, t: int, k: int)
    requires
        0 <= t < pkg.target_kinds@.len(),
        0 <= k < pkg.target_kinds@[t]@.len(),
        pkg.target_kinds@[t]@[k]@ == "cdylib"@,
        forall|a: int, b: int|
            0 <= a < pkg.target_kinds@.len() && 0 <= b < pkg.target_kinds@[a]@.len()
                ==> #[trigger] pkg.target_kinds@[a]@[b]@ != "staticlib"@,
    ensures
        lib_kind_of(pkg) == Some(LibKind::Shared),
{
    assert(has_kind(pkg, "cdylib"@));
}

/// A package none of whose targets has the crate type `staticlib` or
/// `cdylib` has no library to link.
pub proof fn lemma_no_lib_target(pkg: PackageInfo)
    requires
        forall|a: int, b: int|
            0 <= a < pkg.target_kinds@.len() && 0 <= b < pkg.target_kinds@[a]@.len()
                ==> #[trigger] pkg.target_kinds@[a]@[b]@ != "staticlib"@
                && pkg.target_kinds@[a]@[b]@ != "cdylib"@,
    ensures
        lib_kind_of(pkg) is None,
{
}

/// A package is listed for `--all` exactly when it has a library kind: the
/// names listed are those of such packages, and the name of every package
/// with a `staticlib` or `cdylib` target is among them.
pub proof fn lemma_listed_iff_lib_target(pkgs: Seq<PackageInfo>, i: int)
    requires
        0 <= i < pkgs.len(),
    ensures
        lib_kind_of(pkgs[i]) is Some ==> lib_crate_names(pkgs).contains(pkgs[i].name@),
        forall|n: Seq<char>| #[trigger] lib_crate_names(pkgs).contains(n) ==> exists|j: int|
            0 <= j < pkgs.len() && lib_kind_of(pkgs[j]) is Some && #[trigger] pkgs[j].name@ == n,
    decreases pkgs.len(),
{
    let last = pkgs.len() - 1;
    let rest = pkgs.drop_last();
    if i < last {
        lemma_listed_iff_lib_target(rest, i);
        assert(rest[i] == pkgs[i]);
    } else if pkgs.len() > 1 {
        lemma_listed_iff_lib_target(rest, 0);
    }
    if lib_kind_of(pkgs[i]) is Some && i == last {
        assert(lib_crate_names(pkgs) == lib_crate_names(rest).push(pkgs[i].name@));
        assert(lib_crate_names(pkgs)[lib_crate_names(rest).len() as int] == pkgs[i].name@);
    }
    if lib_kind_of(pkgs[i]) is Some && i < last {
        let names = lib_crate_names(rest);
        let k = choose|k: int| 0 <= k < names.len() && names[k] == pkgs[i].name@;
        if lib_kind_of(pkgs.last()) is Some {
            assert(lib_crate_names(pkgs)[k] == names[k]);
        }
    }
    assert forall|n: Seq<char>| #[trigger] lib_crate_names(pkgs).contains(n) implies exists|j: int|
        0 <= j < pkgs.len() && lib_kind_of(pkgs[j]) is Some && #[trigger] pkgs[j].name@ == n by {
        let names = lib_crate_names(rest);
        if lib_kind_of(pkgs.last()) is Some && n == pkgs.last().name@ {
            assert(pkgs[last].name@ == n);
        } else {
            let k = choose|k: int| 0 <= k < lib_crate_names(pkgs).len() && lib_crate_names(pkgs)[k] == n;
            if lib_kind_of(pkgs.last()) is Some {
                if k < names.len() {
                    assert(names[k] == n);
                } else {
                    assert(lib_crate_names(pkgs)[k] == pkgs.last().name@);
                }
            }
            assert(names.contains(n));
            if pkgs.len() > 1 {
                let j = choose|j: int|
                    0 <= j < rest.len() && lib_kind_of(rest[j]) is Some && #[trigger] rest[j].name@ == n;
                assert(rest[j] == pkgs[j]);
            }
        }
    }
}

/// Names of workspace members that have a `staticlib` or `cdylib` target,
/// for `--all`.
pub fn list_crates_with_lib_target(ws: &WorkspaceInfo) -> (res: Vec<String>)
    ensures
        views(res@) == lib_crate_names(ws.packages@),
{
    let mut names: Vec<String> = Vec::new();
    let mut i: usize = 0;
    while i < ws.packages.len()
        invariant
            i <= ws.packages@.len(),
            views(names@) == lib_crate_names(ws.packages@.take(i as int)),
        decreases ws.packages@.len() - i,
    {
        let pkg = &ws.packages[i];
        assert(ws.packages@.take(i + 1).drop_last() =~= ws.packages@.take(i as int));
        assert(ws.packages@.take(i + 1).last() == *pkg);
        if detect_lib_kind(pkg).is_ok() {
            let ghost before = names@;
            names.push(pkg.name.clone());
            assert(views(names@) =~= views(before).push(pkg.name@));
        }
        i = i + 1;
    }
    assert(ws.packages@.take(ws.packages@.len() as int) =~= ws.packages@);
    names
}

/// Whether `pkgs[i]` is the first package named `name`.
pub open spec fn first_named(pkgs: Seq<PackageInfo>, name: Seq<char>, i: int) -> bool {
    &&& 0 <= i < pkgs.len()
    &&& pkgs[i].name@ == name
    &&& forall|j: int| 0 <= j < i ==> (#[trigger] pkgs[j]).name@ != name
}

/// The root package of the workspace, if it reports one that exists.
pub open spec fn root_of(ws: WorkspaceInfo) -> Option<int> {
    match ws.root_package {
        Some(i) => if i < ws.packages@.len() {
            Some(i as int)
        } else {
            None
        },
        None => None,
    }
}

/// Whether the load of `name` selects `ws.packages[i]`: the first package
/// with that name, or the root package when no name is given.
pub open spec fn selects(ws: WorkspaceInfo, name: Option<Seq<char>>, i: int) -> bool {
    match name {
        Some(n) => first_named(ws.packages@, n, i),
        None => root_of(ws) == Some(i),
    }
}

/// Whether the load of `name` selects no package: none has that name, or no
/// name is given and there is no root package.
pub open spec fn selects_none(ws: WorkspaceInfo, name: Option<Seq<char>>) -> bool {
    match name {
        Some(n) => forall|j: int| 0 <= j < ws.packages@.len() ==> (#[trigger] ws.packages@[j]).name@ != n,
        None => root_of(ws) is None,
    }
}

/// The requested crate name as a sequence of characters.
pub open spec fn name_view(name: Option<&str>) -> Option<Seq<char>> {
    match name {
        Some(n) => Some(n@),
        None => None,
    }
}

/// The error of a load whose package cannot be selected.
pub open spec fn selection_error(name: Option<&str>, e: LoadError) -> bool {
    match name {
        Some(n) => e matches LoadError::CrateNotFound { name } && name@ == n@,
        None => e == LoadError::NoRootPackage,
    }
}

/// Selects the package to load: the first one named `crate_name` if one is
/// given, else the workspace's root package.
pub fn select_package(ws: &WorkspaceInfo, crate_name: Option<&str>) -> (res: Result<usize, LoadError>)
    ensures
        match res {
            Ok(i) => selects(*ws, name_view(crate_name), i as int),
            Err(e) => selects_none(*ws, name_view(crate_name)) && selection_error(crate_name, e),
        },
{
    match crate_name {
        Some(n) => {
            let mut i: usize = 0;
            while i < ws.packages.len()
                invariant
                    i <= ws.packages@.len(),
                    crate_name == Some(n),
                    forall|j: int| 0 <= j < i ==> (#[trigger] ws.packages@[j]).name@ != n@,
                decreases ws.packages@.len() - i,
            {
                if str_eq(ws.packages[i].name.as_str(), n) {
                    return Ok(i);
                }
                i = i + 1;
            }
            Err(LoadError::CrateNotFound { name: string_of(&chars_of(n)) })
        },
        None => match ws.root_package {
            Some(i) => if i < ws.packages.len() {
                Ok(i)
            } else {
                Err(LoadError::NoRootPackage)
            },
            None => Err(LoadError::NoRootPackage),
        },
    }
}

/// A package is selected by at most one index.
pub proof fn lemma_selection_unique(ws: WorkspaceInfo, name: Option<Seq<char>>, i: int, j: int)
    requires
        selects(ws, name, i),
        selects(ws, name, j),
    ensures
        i == j,
{
    if let Some(n) = name {
        if i < j {
            assert(ws.packages@[i].name@ != n);
        }
        if j < i {
            assert(ws.packages@[j].name@ != n);
        }
    }
}

/// The `[package.metadata.cmake-bridge]` table of a package's metadata.
pub open spec fn bridge_table(metadata: MetaValue) -> Option<MetaValue> {
    value_get(metadata, "cmake-bridge"@)
}

/// The header path configured as `header = "..."` in the package's
/// `[package.metadata.cmake-bridge]` table, relative to the crate root.
pub open spec fn configured_header(metadata: MetaValue) -> Option<Seq<char>> {
    opt_str(opt_get(bridge_table(metadata), "header"@))
}

/// The system libraries configured as `link_libs = [...]` in the package's
/// `[package.metadata.cmake-bridge]` table: its string entries, in order.
pub open spec fn configured_link_libs(metadata: MetaValue) -> Seq<Seq<char>> {
    match opt_get(bridge_table(metadata), "link_libs"@) {
        Some(MetaValue::Array(items)) => string_items(items@),
        _ => Seq::empty(),
    }
}

/// Reads the configured header path of a package, if any.
pub fn configured_header_of(pkg: &PackageInfo) -> (res: Option<String>)
    ensures
        match res {
            Some(s) => configured_header(pkg.metadata) == Some(s@),
            None => configured_header(pkg.metadata) is None,
        },
{
    match pkg.metadata.get("cmake-bridge") {
        Some(table) => match table.get("header") {
            Some(v) => match v.as_str() {
                Some(s) => Some(s.clone()),
                None => None,
            },
            None => None,
        },
        None => None,
    }
}

/// The extra system libraries to link, from the package's
/// `[package.metadata.cmake-bridge] link_libs`; entries that are not strings
/// are skipped, and a missing or malformed table gives none.
pub fn discover_link_libs(pkg: &PackageInfo) -> (res: Vec<String>)
    ensures
        views(res@) == configured_link_libs(pkg.metadata),
{
    let mut libs: Vec<String> = Vec::new();
    if let Some(table) = pkg.metadata.get("cmake-bridge") {
        if let Some(MetaValue::Array(items)) = table.get("link_libs") {
            let mut i: usize = 0;
            while i < items.len()
                invariant
                    i <= items@.len(),
                    views(libs@) == string_items(items@.take(i as int)),
                decreases items@.len() - i,
            {
                assert(items@.take(i + 1).drop_last() =~= items@.take(i as int));
                assert(items@.take(i + 1).last() == items@[i as int]);
                if let MetaValue::Str(s) = &items[i] {
                    let ghost before = libs@;
                    libs.push(s.clone());
                    assert(views(libs@) =~= views(before).push(s@));
                }
                i = i + 1;
            }
            assert(items@.take(items@.len() as int) =~= items@);
            return libs;
        }
    }
    assert(views(libs@) =~= Seq::<Seq<char>>::empty());
    libs
}

/// The stem of a crate's library file names: cargo writes artifacts with
/// every `-` of the crate name replaced by `_`.
pub open spec fn lib_stem_of(name: Seq<char>) -> Seq<char> {
    replaced(name, seq!['-'], seq!['_'])
}

/// The stem of a library file name holds no `-`.
pub proof fn lemma_stem_has_no_dash(name: Seq<char>)
    ensures
        !lib_stem_of(name).contains('-'),
{
    lemma_replaced_char_leaves_none(name, '-', '_');
}

/// The library file names that cargo may produce for a crate of this kind,
/// in the order they are looked for.
pub open spec fn lib_names(kind: LibKind, stem: Seq<char>) -> Seq<Seq<char>> {
    match kind {
        LibKind::Static => seq!["lib"@ + stem + ".a"@, stem + ".lib"@],
        LibKind::Shared => seq!["lib"@ + stem + ".so"@, "lib"@ + stem + ".dylib"@, stem + ".dll"@],
    }
}

/// The Windows import-library file names of a `cdylib`, in the order they
/// are looked for.
pub open spec fn implib_names(stem: Seq<char>) -> Seq<Seq<char>> {
    seq![stem + ".dll.lib"@, stem + ".lib"@]
}

/// The conventional file name of a crate's C header.
pub open spec fn header_file(name: Seq<char>) -> Seq<char> {
    lib_stem_of(name) + ".h"@
}

/// Computes the stem of a crate's library file names.
pub fn lib_stem(name: &str) -> (res: String)
    ensures
        res@ == lib_stem_of(name@),
{
    let dash = vec!['-'];
    let underscore = vec!['_'];
    assert(dash@ =~= seq!['-']);
    assert(underscore@ =~= seq!['_']);
    string_of(&replace_all(&chars_of(name), &dash, &underscore))
}

/// The concatenation of three strings.
fn concat3(a: &str, b: &str, c: &str) -> (res: String)
    ensures
        res@ == a@ + b@ + c@,
{
    let mut out: Vec<char> = Vec::new();
    push_str(&mut out, a);
    push_str(&mut out, b);
    push_str(&mut out, c);
    assert(out@ =~= a@ + b@ + c@);
    string_of(&out)
}

/// The concatenation of two strings.
fn concat2(a: &str, b: &str) -> (res: String)
    ensures
        res@ == a@ + b@,
{
    let mut out: Vec<char> = Vec::new();
    push_str(&mut out, a);
    push_str(&mut out, b);
    string_of(&out)
}

/// The library file names to look for, for a crate of this kind and stem.
pub fn lib_file_names(kind: LibKind, stem: &str) -> (res: Vec<String>)
    ensures
        views(res@) == lib_names(kind, stem@),
{
    let names = match kind {
        LibKind::Static => vec![concat3("lib", stem, ".a"), concat2(stem, ".lib")],
        LibKind::Shared => vec![
            concat3("lib", stem, ".so"),
            concat3("lib", stem, ".dylib"),
            concat2(stem, ".dll"),
        ],
    };
    assert(views(names@) =~= lib_names(kind, stem@));
    names
}

/// The import-library file names to look for, for a crate of this stem.
pub fn implib_file_names(stem: &str) -> (res: Vec<String>)
    ensures
        views(res@) == implib_names(stem@),
{
    let names = vec![concat2(stem, ".dll.lib"), concat2(stem, ".lib")];
    assert(views(names@) =~= implib_names(stem@));
    names
}

/// The conventional header file name of a crate.
pub fn header_file_name(name: &str) -> (res: String)
    ensures
        res@ == header_file(name@),
{
    let stem = lib_stem(name);
    concat2(stem.as_str(), ".h")
}

/// The first of `paths` whose entry in `present` is `true`.
pub open spec fn first_marked(paths: Seq<Seq<char>>, present: Seq<bool>) -> Option<Seq<char>>
    decreases paths.len(),
{
    if paths.len() == 0 || present.len() == 0 {
        None
    } else if present[0] {
        Some(paths[0])
    } else {
        first_marked(paths.drop_first(), present.drop_first())
    }
}

/// A path that may be absent, as characters.
pub open spec fn opt_view(o: Option<String>) -> Option<Seq<char>> {
    match o {
        Some(s) => Some(s@),
        None => None,
    }
}

/// A list of optional values, as the sequence of the values present.
pub open spec fn opt_seq(o: Option<Seq<char>>) -> Seq<Seq<char>> {
    match o {
        Some(x) => seq![x],
        None => Seq::empty(),
    }
}

/// Whether `p` is `base` joined with `rel` as `Path::join` is stated to
/// give it: `base`, a separator where one is needed, and `rel`, for a
/// relative `rel` and a `base` without a verbatim prefix; `rel` itself for
/// a `rel` beginning with `/` and a `base` without a prefix; and exactly one
/// separator between them for a relative `rel` and a `base` that does not
/// end in one.
pub open spec fn joined_one(p: Seq<char>, base: Seq<char>, rel: Seq<char>) -> bool {
    &&& is_relative_text(rel) && !is_verbatim(base) ==> extended_by(p, base, rel)
    &&& is_rooted_text(rel) && has_no_prefix(base) ==> p == rel
    &&& is_relative_text(rel) && needs_separator(base) ==> separated_by_one(p, base, rel)
}

/// Whether `paths` are `dir` joined with each of `names`, in order.
pub open spec fn joined_names(paths: Seq<Seq<char>>, dir: Seq<char>, names: Seq<Seq<char>>) -> bool {
    &&& paths.len() == names.len()
    &&& forall|k: int| 0 <= k < names.len() ==> joined_one(#[trigger] paths[k], dir, names[k])
}

/// The first marked path is the one at the first `true`.
proof fn lemma_first_marked_at(paths: Seq<Seq<char>>, present: Seq<bool>, i: int)
    requires
        i < paths.len(),
        0 <= i < present.len(),
        present[i],
        forall|j: int| 0 <= j < i ==> !present[j],
    ensures
        first_marked(paths, present) == Some(paths[i]),
    decreases i,
{
    if i > 0 {
        lemma_first_marked_at(paths.drop_first(), present.drop_first(), i - 1);
    }
}

/// With no `true` among the first `paths.len()` marks, no path is marked.
proof fn lemma_first_marked_none(paths: Seq<Seq<char>>, present: Seq<bool>)
    requires
        forall|j: int| 0 <= j < present.len() && j < paths.len() ==> !present[j],
    ensures
        first_marked(paths, present) is None,
    decreases paths.len(),
{
    if paths.len() > 0 && present.len() > 0 {
        lemma_first_marked_none(paths.drop_first(), present.drop_first());
    }
}

/// The path found is one of the paths looked at, and the disk said it
/// exists.
pub proof fn lemma_found_path_was_present(paths: Seq<Seq<char>>, present: Seq<bool>)
    ensures
        first_marked(paths, present) matches Some(h) ==> exists|k: int|
            0 <= k < paths.len() && k < present.len() && present[k] && #[trigger] paths[k] == h,
    decreases paths.len(),
{
    if paths.len() > 0 && present.len() > 0 && !present[0] {
        lemma_found_path_was_present(paths.drop_first(), present.drop_first());
        if let Some(h) = first_marked(paths, present) {
            let k = choose|k: int|
                0 <= k < paths.drop_first().len() && k < present.drop_first().len()
                    && present.drop_first()[k] && #[trigger] paths.drop_first()[k] == h;
            assert(paths[k + 1] == h);
        }
    }
}

/// The path taken from a list of answered paths is the one at the first
/// `yes`, and none is taken exactly when every answer is `no`.
pub proof fn lemma_first_yes_is_taken(paths: Seq<Seq<char>>, present: Seq<bool>)
    requires
        present.len() == paths.len(),
    ensures
        first_marked(paths, present) is None <==> forall|j: int|
            0 <= j < paths.len() ==> !#[trigger] present[j],
        forall|i: int|
            0 <= i < paths.len() && #[trigger] present[i] && (forall|j: int|
                0 <= j < i ==> !present[j]) ==> first_marked(paths, present) == Some(paths[i]),
    decreases paths.len(),
{
    if paths.len() > 0 {
        lemma_first_yes_is_taken(paths.drop_first(), present.drop_first());
        if !present[0] {
            if first_marked(paths, present) is None {
                assert forall|j: int| 0 <= j < paths.len() implies !#[trigger] present[j] by {
                    if j > 0 {
                        assert(present[j] == present.drop_first()[j - 1]);
                    }
                }
            } else {
                let j = choose|j: int| 0 <= j < paths.drop_first().len() && #[trigger] present.drop_first()[j];
                assert(present[j + 1]);
            }
            assert forall|i: int|
                0 <= i < paths.len() && #[trigger] present[i] && (forall|j: int|
                    0 <= j < i ==> !present[j]) implies first_marked(paths, present) == Some(
                paths[i],
            ) by {
                lemma_first_marked_at(paths, present, i);
            }
        } else {
            assert forall|i: int|
                0 <= i < paths.len() && #[trigger] present[i] && (forall|j: int|
                    0 <= j < i ==> !present[j]) implies first_marked(paths, present) == Some(
                paths[i],
            ) by {
                lemma_first_marked_at(paths, present, i);
            }
        }
    }
}

/// Joins `dir` with each of `names`, in order.
pub fn join_all(dir: &str, names: &Vec<String>) -> (res: Vec<String>)
    ensures
        joined_names(views(res@), dir@, views(names@)),
{
    let mut paths: Vec<String> = Vec::new();
    let mut i: usize = 0;
    while i < names.len()
        invariant
            i <= names@.len(),
            paths@.len() == i,
            forall|k: int| 0 <= k < i ==> joined_one(#[trigger] paths@[k]@, dir@, names@[k]@),
        decreases names@.len() - i,
    {
        paths.push(path_join(dir, names[i].as_str()));
        i = i + 1;
    }
    assert forall|k: int| 0 <= k < views(names@).len() implies joined_one(
        #[trigger] views(paths@)[k],
        dir@,
        views(names@)[k],
    ) by {
        assert(joined_one(paths@[k]@, dir@, names@[k]@));
    }
    paths
}

/// The paths of a list of disk answers, in order.
pub open spec fn probed_paths(probes: Seq<(String, bool)>) -> Seq<Seq<char>> {
    probes.map_values(|a: (String, bool)| a.0@)
}

/// The answers of a list of disk answers, in order.
pub open spec fn answers(probes: Seq<(String, bool)>) -> Seq<bool> {
    probes.map_values(|a: (String, bool)| a.1)
}

/// Asks the disk, in order, whether each of `paths` exists, and pairs each
/// path with the answer. The answers are the disk's, so only the paths they
/// belong to are stated.
fn probe_paths(paths: &Vec<String>) -> (res: Vec<(String, bool)>)
    ensures
        probed_paths(res@) == views(paths@),
{
    let mut probes: Vec<(String, bool)> = Vec::new();
    let mut i: usize = 0;
    while i < paths.len()
        invariant
            i <= paths@.len(),
            probed_paths(probes@) == views(paths@).take(i as int),
        decreases paths@.len() - i,
    {
        let p = paths[i].clone();
        let present = path_exists(p.as_str());
        let ghost before = probes@;
        probes.push((p, present));
        assert(probed_paths(probes@) =~= probed_paths(before).push(paths@[i as int]@));
        assert(views(paths@).take(i + 1) =~= views(paths@).take(i as int).push(paths@[i as int]@));
        i = i + 1;
    }
    assert(views(paths@).take(paths@.len() as int) =~= views(paths@));
    probes
}

/// The first path of `probes` whose answer says it exists.
pub fn first_present(probes: &Vec<(String, bool)>) -> (res: Option<String>)
    ensures
        opt_view(res) == first_marked(probed_paths(probes@), answers(probes@)),
{
    let ghost paths = probed_paths(probes@);
    let ghost present = answers(probes@);
    let mut i: usize = 0;
    while i < probes.len()
        invariant
            i <= probes@.len(),
            paths == probed_paths(probes@),
            present == answers(probes@),
            forall|j: int| 0 <= j < i ==> !present[j],
        decreases probes@.len() - i,
    {
        if probes[i].1 {
            let found = probes[i].0.clone();
            proof {
                lemma_first_marked_at(paths, present, i as int);
            }
            return Some(found);
        }
        i = i + 1;
    }
    proof {
        lemma_first_marked_none(paths, present);
    }
    None
}

/// Whether `res` is what looking in `dir` for `names` gives: the first of
/// `dir` joined with each name, in order, that the disk said exists.
pub open spec fn found_in(res: Option<String>, dir: Seq<char>, names: Seq<Seq<char>>) -> bool {
    exists|probes: Seq<(String, bool)>|
        #![trigger joined_names(probed_paths(probes), dir, names)]
        {
            &&& joined_names(probed_paths(probes), dir, names)
            &&& opt_view(res) == first_marked(probed_paths(probes), answers(probes))
        }
}

/// Joins `dir` with each of `names`, asks the disk which exist, and takes
/// the first.
fn first_existing(dir: &str, names: &Vec<String>) -> (res: Option<String>)
    ensures
        found_in(res, dir@, views(names@)),
{
    let paths = join_all(dir, names);
    let probes = probe_paths(&paths);
    let res = first_present(&probes);
    assert(joined_names(probed_paths(probes@), dir@, views(names@)));
    res
}

/// Looks in `dir` for the library file of a crate, trying the names of
/// `lib_file_names` in order; the first that exists is returned.
pub fn find_lib(dir: &str, kind: LibKind, lib_stem: &str) -> (res: Option<String>)
    ensures
        found_in(res, dir@, lib_names(kind, lib_stem@)),
{
    let names = lib_file_names(kind, lib_stem);
    first_existing(dir, &names)
}

/// Windows pairs a `.dll` with a separate `.dll.lib` (or `<name>.lib`)
/// import library that the linker needs; Unix shared libs don't have one.
/// Looks in `dir` for it, trying the names of `implib_file_names` in order.
pub fn find_implib(dir: &str, lib_stem: &str) -> (res: Option<String>)
    ensures
        found_in(res, dir@, implib_names(lib_stem@)),
{
    let names = implib_file_names(lib_stem);
    first_existing(dir, &names)
}

/// A library path found in `dir` is `dir` joined with one of `names`.
proof fn lemma_found_is_joined(res: Option<String>, dir: Seq<char>, names: Seq<Seq<char>>)
    requires
        found_in(res, dir, names),
        res is Some,
    ensures
        exists|k: int| 0 <= k < names.len() && #[trigger] joined_one(res.unwrap()@, dir, names[k]),
{
    let probes = choose|probes: Seq<(String, bool)>|
        #![trigger joined_names(probed_paths(probes), dir, names)]
        {
            &&& joined_names(probed_paths(probes), dir, names)
            &&& opt_view(res) == first_marked(probed_paths(probes), answers(probes))
        };
    let paths = probed_paths(probes);
    lemma_found_path_was_present(paths, answers(probes));
    let k = choose|k: int|
        0 <= k < paths.len() && k < answers(probes).len() && answers(probes)[k]
            && #[trigger] paths[k] == res.unwrap()@;
    assert(joined_one(paths[k], dir, names[k]));
}

/// The last characters of `base` joined with a relative `name` are those of
/// `name`.
proof fn lemma_joined_ends_with(p: Seq<char>, base: Seq<char>, name: Seq<char>, j: int)
    requires
        joined_one(p, base, name),
        is_relative_text(name),
        !is_verbatim(base),
        0 <= j < name.len(),
    ensures
        p.len() >= name.len(),
        p[p.len() - 1 - j] == name[name.len() - 1 - j],
{
    if p == base + name {
    } else if p == base + seq!['/'] + name {
    } else {
        assert(p == base + seq!['\\'] + name);
    }
}

/// A static and a shared library of one crate are never found at the same
/// path of one directory: every static file name ends in `.a` or `.lib`,
/// and every shared one in `.so`, `.dylib` or `.dll`. This is stated for a
/// stem without a separator or `:`, and a directory without a verbatim
/// prefix, where the joined path is known to end with the file name.
pub proof fn lemma_static_and_shared_paths_differ(
    dir: Seq<char>,
    stem: Seq<char>,
    found_static: Option<String>,
    found_shared: Option<String>,
)
    requires
        found_in(found_static, dir, lib_names(LibKind::Static, stem)),
        found_in(found_shared, dir, lib_names(LibKind::Shared, stem)),
        !stem.contains('/'),
        !stem.contains('\\'),
        !stem.contains(':'),
        !is_verbatim(dir),
    ensures
        !(found_static is Some && found_shared is Some && found_static.unwrap()@
            == found_shared.unwrap()@),
{
    if found_static is Some && found_shared is Some && found_static.unwrap()@
        == found_shared.unwrap()@ {
        reveal_strlit("lib");
        reveal_strlit(".a");
        reveal_strlit(".lib");
        reveal_strlit(".so");
        reveal_strlit(".dylib");
        reveal_strlit(".dll");
        let p = found_static.unwrap()@;
        let sn = lib_names(LibKind::Static, stem);
        let dn = lib_names(LibKind::Shared, stem);
        lemma_found_is_joined(found_static, dir, sn);
        lemma_found_is_joined(found_shared, dir, dn);
        let a = choose|k: int| 0 <= k < sn.len() && #[trigger] joined_one(p, dir, sn[k]);
        let b = choose|k: int|
            0 <= k < dn.len() && #[trigger] joined_one(found_shared.unwrap()@, dir, dn[k]);
        let x = sn[a];
        let y = dn[b];
        assert(is_relative_text(x)) by {
            assert(x[0] == if a == 0 { 'l' } else { (stem + ".lib"@)[0] });
            if a == 1 && stem.len() > 0 {
                assert(x[0] == stem[0]);
            }
            assert forall|i: int| 0 <= i < x.len() implies x[i] != ':' by {
                if a == 0 {
                    if 3 <= i < 3 + stem.len() {
                        assert(x[i] == stem[i - 3]);
                    }
                } else if i < stem.len() {
                    assert(x[i] == stem[i]);
                }
            }
        }
        assert(is_relative_text(y)) by {
            if b == 2 && stem.len() > 0 {
                assert(y[0] == stem[0]);
            }
            assert forall|i: int| 0 <= i < y.len() implies y[i] != ':' by {
                if b < 2 {
                    if 3 <= i < 3 + stem.len() {
                        assert(y[i] == stem[i - 3]);
                    }
                } else if i < stem.len() {
                    assert(y[i] == stem[i]);
                }
            }
        }
        lemma_joined_ends_with(p, dir, x, 0);
        lemma_joined_ends_with(p, dir, y, 0);
        if x[x.len() - 1] == y[y.len() - 1] {
            assert(a == 1 && b == 1);
            lemma_joined_ends_with(p, dir, x, 3);
            lemma_joined_ends_with(p, dir, y, 3);
        }
    }
}

/// Whether `p` is `include/<file>` under `root`: `root` joined with
/// `include`, joined with `file`.
pub open spec fn conventional_at(p: Seq<char>, root: Seq<char>, file: Seq<char>) -> bool {
    exists|dir: Seq<char>|
        #![trigger joined_one(dir, root, "include"@)]
        joined_one(dir, root, "include"@) && joined_one(p, dir, file)
}

/// Whether `paths` are the header paths looked for under the crate root
/// `root`, in order: the configured header, if any, joined to the root;
/// then the conventional `include/<stem>.h`.
pub open spec fn header_candidates(pkg: PackageInfo, root: Seq<char>, paths: Seq<Seq<char>>) -> bool {
    let file = header_file(pkg.name@);
    match configured_header(pkg.metadata) {
        Some(h) => paths.len() == 2 && joined_one(paths[0], root, h) && conventional_at(
            paths[1],
            root,
            file,
        ),
        None => paths.len() == 1 && conventional_at(paths[0], root, file),
    }
}

/// Whether `p` is where a header of `pkg` should live under the crate root
/// `root`: the configured path if set, otherwise `include/<stem>.h`.
pub open spec fn header_target_at(pkg: PackageInfo, root: Seq<char>, p: Seq<char>) -> bool {
    match configured_header(pkg.metadata) {
        Some(h) => joined_one(p, root, h),
        None => conventional_at(p, root, header_file(pkg.name@)),
    }
}

/// The header paths to look for under the crate root, in order.
fn header_paths_under(pkg: &PackageInfo, crate_root: &str) -> (res: Vec<String>)
    ensures
        header_candidates(*pkg, crate_root@, views(res@)),
        res@.len() > 0,
        header_target_at(*pkg, crate_root@, res@[0]@),
{
    let mut candidates: Vec<String> = Vec::new();
    let configured = configured_header_of(pkg);
    if let Some(rel) = &configured {
        candidates.push(path_join(crate_root, rel.as_str()));
    }
    let headers_dir = path_join(crate_root, "include");
    let file = header_file_name(pkg.name.as_str());
    candidates.push(path_join(headers_dir.as_str(), file.as_str()));
    assert(joined_one(headers_dir@, crate_root@, "include"@));
    let ghost last = (candidates@.len() - 1) as int;
    assert(conventional_at(candidates@[last]@, crate_root@, header_file(pkg.name@)));
    assert(views(candidates@)[last] == candidates@[last]@);
    assert(views(candidates@)[0] == candidates@[0]@);
    candidates
}

/// Whether `res` is what the header search of `pkg` gives: with the
/// manifest's directory (as `Path::parent` gives it) as crate root, the
/// first of the header paths looked for that the disk said exists; none
/// when the manifest path has no directory.
pub open spec fn header_found(pkg: PackageInfo, res: Option<String>) -> bool {
    exists|root: Option<String>, probes: Seq<(String, bool)>|
        #![trigger parent_facts(pkg.manifest_path@, root), first_marked(probed_paths(probes), answers(probes))]
        {
            &&& parent_facts(pkg.manifest_path@, root)
            &&& match root {
                None => res is None,
                Some(r) => header_candidates(pkg, r@, probed_paths(probes)) && opt_view(res)
                    == first_marked(probed_paths(probes), answers(probes)),
            }
        }
}

/// Looks for a C header two ways: an explicit path in
/// `[package.metadata.cmake-bridge] header = "..."`, or the conventional
/// `include/<crate_name>.h` next to Cargo.toml (what `cbindgen` typically
/// produces). The manifest path wins if both are present. Both are joined to
/// the directory of the manifest and probed on disk in that order; the first
/// that exists is returned. A manifest path without a directory finds none.
pub fn discover_header(pkg: &PackageInfo) -> (res: Option<String>)
    ensures
        pkg.manifest_path@.len() == 0 ==> res is None,
        header_found(*pkg, res),
{
    let root = path_parent(pkg.manifest_path.as_str());
    let crate_root = match &root {
        Some(r) => r,
        None => {
            assert(first_marked(
                probed_paths(Seq::<(String, bool)>::empty()),
                answers(Seq::<(String, bool)>::empty()),
            ) is None);
            return None;
        },
    };
    let candidates = header_paths_under(pkg, crate_root.as_str());
    let probes = probe_paths(&candidates);
    let res = first_present(&probes);
    assert(header_candidates(*pkg, crate_root@, probed_paths(probes@)));
    assert(parent_facts(pkg.manifest_path@, root));
    res
}

/// Where a header should live: the configured path if set, otherwise the
/// `include/<crate_name>.h` convention, joined to the directory of the
/// manifest. Doesn't check whether it exists yet. Fails exactly when the
/// manifest path has no parent directory (which includes the empty path).
pub fn header_target_path(pkg: &PackageInfo) -> (res: Result<String, LoadError>)
    ensures
        exists|root: Option<String>|
            #![trigger parent_facts(pkg.manifest_path@, root)]
            parent_facts(pkg.manifest_path@, root) && match root {
                None => res == Err::<String, LoadError>(LoadError::NoManifestParent),
                Some(r) => res matches Ok(p) && header_target_at(*pkg, r@, p@),
            },
{
    let root = path_parent(pkg.manifest_path.as_str());
    let crate_root = match &root {
        Some(r) => r,
        None => return Err(LoadError::NoManifestParent),
    };
    let candidates = header_paths_under(pkg, crate_root.as_str());
    let target = candidates[0].clone();
    assert(parent_facts(pkg.manifest_path@, root));
    Ok(target)
}

/// The header that the search finds under a crate root is the header's
/// target path there, when no header is configured or the disk said the
/// configured one exists: the target path is the first path looked for,
/// and any header found is that path.
pub proof fn lemma_found_header_is_target(pkg: PackageInfo, root: Seq<char>, probes: Seq<(String, bool)>)
    requires
        header_candidates(pkg, root, probed_paths(probes)),
        configured_header(pkg.metadata) is None || answers(probes)[0],
    ensures
        header_target_at(pkg, root, probed_paths(probes)[0]),
        first_marked(probed_paths(probes), answers(probes)) is None || first_marked(
            probed_paths(probes),
            answers(probes),
        ) == Some(probed_paths(probes)[0]),
{
    let paths = probed_paths(probes);
    let present = answers(probes);
    if configured_header(pkg.metadata) is None {
        assert(paths.len() == 1);
        if !present[0] {
            assert(first_marked(paths.drop_first(), present.drop_first()) is None);
        }
    }
}

/// With no header configured, the conventional `include/<stem>.h` under
/// the crate root is the one path looked for, and it is the header found
/// whenever the disk says it exists.
pub proof fn lemma_existing_conventional_header_is_found(
    pkg: PackageInfo,
    root: Seq<char>,
    probes: Seq<(String, bool)>,
)
    requires
        header_candidates(pkg, root, probed_paths(probes)),
        configured_header(pkg.metadata) is None,
    ensures
        probed_paths(probes).len() == 1,
        conventional_at(probed_paths(probes)[0], root, header_file(pkg.name@)),
        answers(probes)[0] ==> first_marked(probed_paths(probes), answers(probes)) == Some(
            probed_paths(probes)[0],
        ),
        !answers(probes)[0] ==> first_marked(probed_paths(probes), answers(probes)) is None,
{
    let paths = probed_paths(probes);
    let present = answers(probes);
    if !present[0] {
        assert(first_marked(paths.drop_first(), present.drop_first()) is None);
    }
}

/// The result of locating a crate's artifacts.
#[derive(Debug)]
pub enum Loaded {
    /// Everything is known; `header_paths` holds the discovered header, if
    /// any.
    Ready(CrateInfo),
    /// The header is to be generated with `cbindgen` for the crate in
    /// `crate_root`, at `header_path`, in the directory `header_dir` (if the
    /// path has one); `header_paths` is still empty.
    HeaderNeeded {
        info: CrateInfo,
        crate_root: String,
        header_path: String,
        header_dir: Option<String>,
    },
}

/// Where a load looks for a crate's artifacts and header.
#[derive(Debug)]
pub struct LookupPaths {
    /// The target directory: the one given, or the workspace's.
    pub target_dir: String,
    /// The target directory joined with the profile.
    pub profile_dir: String,
    /// The profile directory joined with each library file name.
    pub lib: Vec<String>,
    /// The profile directory joined with each import-library file name; none
    /// for a static library.
    pub implib: Vec<String>,
    /// The target directory joined with `debug`.
    pub debug_dir: String,
    /// The debug directory joined with each library file name.
    pub debug: Vec<String>,
    /// The target directory joined with `release`.
    pub release_dir: String,
    /// The release directory joined with each library file name.
    pub release: Vec<String>,
    /// The directory of the manifest, if it has one.
    pub crate_root: Option<String>,
    /// The header paths looked for under the crate root, in order; none
    /// without a crate root.
    pub headers: Vec<String>,
    /// The directory of the first header path, where a generated header is
    /// written; none without a crate root.
    pub header_dir: Option<String>,
}

/// What the disk said of each path of a `LookupPaths`, entry by entry:
/// the path and whether it exists.
#[derive(Debug)]
pub struct Probes {
    pub lib: Vec<(String, bool)>,
    pub implib: Vec<(String, bool)>,
    pub debug: Vec<(String, bool)>,
    pub release: Vec<(String, bool)>,
    pub headers: Vec<(String, bool)>,
}

/// The directory in which a load looks: the one given, else the
/// workspace's target directory.
pub open spec fn target_base(ws: WorkspaceInfo, target_dir: Option<&str>) -> Seq<char> {
    match target_dir {
        Some(t) => t@,
        None => ws.target_directory@,
    }
}

/// Whether `lp` holds the paths at which a load of `pkg`, a library of
/// this kind, looks under the target directory `target` for `profile`.
pub open spec fn lookup_of(
    pkg: PackageInfo,
    kind: LibKind,
    target: Seq<char>,
    profile: Seq<char>,
    lp: LookupPaths,
) -> bool {
    let stem = lib_stem_of(pkg.name@);
    &&& lp.target_dir@ == target
    &&& joined_one(lp.profile_dir@, target, profile)
    &&& joined_names(views(lp.lib@), lp.profile_dir@, lib_names(kind, stem))
    &&& match kind {
        LibKind::Shared => joined_names(views(lp.implib@), lp.profile_dir@, implib_names(stem)),
        LibKind::Static => lp.implib@.len() == 0,
    }
    &&& joined_one(lp.debug_dir@, target, "debug"@)
    &&& joined_names(views(lp.debug@), lp.debug_dir@, lib_names(kind, stem))
    &&& joined_one(lp.release_dir@, target, "release"@)
    &&& joined_names(views(lp.release@), lp.release_dir@, lib_names(kind, stem))
    &&& parent_facts(pkg.manifest_path@, lp.crate_root)
    &&& match lp.crate_root {
        None => lp.headers@.len() == 0 && lp.header_dir is None,
        Some(root) => header_candidates(pkg, root@, views(lp.headers@)) && header_target_at(
            pkg,
            root@,
            lp.headers@[0]@,
        ) && parent_facts(lp.headers@[0]@, lp.header_dir),
    }
}

/// Whether `pr` holds one answer for each path of `lp`, for that path.
pub open spec fn probes_fit(lp: LookupPaths, pr: Probes) -> bool {
    &&& probed_paths(pr.lib@) == views(lp.lib@)
    &&& probed_paths(pr.implib@) == views(lp.implib@)
    &&& probed_paths(pr.debug@) == views(lp.debug@)
    &&& probed_paths(pr.release@) == views(lp.release@)
    &&& probed_paths(pr.headers@) == views(lp.headers@)
}

/// Whether `info` is the crate information that a load of `pkg` builds
/// from the paths `lp`, the disk's answers `pr` and the library found at
/// `lib`: the package's name, version and configured link libraries, the
/// kind, and for the import library and the debug and release builds the
/// first path the disk said exists.
pub open spec fn info_from(
    pkg: PackageInfo,
    kind: LibKind,
    lp: LookupPaths,
    pr: Probes,
    lib: Seq<char>,
    info: CrateInfo,
) -> bool {
    &&& info.name == pkg.name
    &&& info.version == pkg.version
    &&& info.lib_kind == kind
    &&& info.lib_path@ == lib
    &&& opt_view(info.implib_path) == first_marked(views(lp.implib@), answers(pr.implib@))
    &&& opt_view(info.lib_path_debug) == first_marked(views(lp.debug@), answers(pr.debug@))
    &&& opt_view(info.lib_path_release) == first_marked(views(lp.release@), answers(pr.release@))
    &&& views(info.link_libs@) == configured_link_libs(pkg.metadata)
}

/// What a load of `pkg`, a library of this kind, returns given the paths it
/// looks at and the disk's answers: the library is the first library path
/// that exists in the profile's directory, and without one the load fails
/// with `LibNotFound` for that directory. With a library, a header to
/// generate is placed at the first header path under the crate root (or the
/// load fails with `NoManifestParent` without a crate root); otherwise the
/// header is the first header path that exists, if any.
pub open spec fn load_outcome(
    pkg: PackageInfo,
    kind: LibKind,
    profile: Seq<char>,
    generate_header: bool,
    lp: LookupPaths,
    pr: Probes,
    res: Result<Loaded, LoadError>,
) -> bool {
    match first_marked(views(lp.lib@), answers(pr.lib@)) {
        None => res matches Err(LoadError::LibNotFound { kind: k, stem, profile_dir, profile: p })
            && k == kind && stem@ == lib_stem_of(pkg.name@) && profile_dir == lp.profile_dir
            && p@ == profile,
        Some(lib) => if generate_header {
            match lp.crate_root {
                None => res == Err::<Loaded, LoadError>(LoadError::NoManifestParent),
                Some(root) => res matches Ok(
                    Loaded::HeaderNeeded { info, crate_root, header_path, header_dir },
                ) && crate_root == root && header_path == lp.headers@[0] && header_dir
                    == lp.header_dir && info_from(
                    pkg,
                    kind,
                    lp,
                    pr,
                    lib,
                    info,
                ) && info.header_paths@.len() == 0,
            }
        } else {
            res matches Ok(Loaded::Ready(info)) && info_from(pkg, kind, lp, pr, lib, info) && views(
                info.header_paths@,
            ) == opt_seq(first_marked(views(lp.headers@), answers(pr.headers@)))
        },
    }
}

/// Whether `res` is what a load of `pkg` gives for some answers of the
/// disk: the paths looked at are those of `lookup_of`, and the result is
/// `load_outcome` of them and of the answers.
pub open spec fn loaded_via_disk(
    pkg: PackageInfo,
    kind: LibKind,
    target: Seq<char>,
    profile: Seq<char>,
    generate_header: bool,
    res: Result<Loaded, LoadError>,
) -> bool {
    exists|lp: LookupPaths, pr: Probes|
        #![trigger lookup_of(pkg, kind, target, profile, lp), load_outcome(pkg, kind, profile, generate_header, lp, pr, res)]
        {
            &&& lookup_of(pkg, kind, target, profile, lp)
            &&& probes_fit(lp, pr)
            &&& load_outcome(pkg, kind, profile, generate_header, lp, pr, res)
        }
}

/// Computes the paths at which a load of `pkg`, a library of this kind,
/// looks under `target_dir` for `profile`.
pub fn lookup_paths(pkg: &PackageInfo, kind: LibKind, target_dir: &str, profile: &str) -> (res:
    LookupPaths)
    ensures
        lookup_of(*pkg, kind, target_dir@, profile@, res),
{
    // cargo normalizes crate names with '-' to '_' in output artifact filenames.
    let stem = lib_stem(pkg.name.as_str());
    let names = lib_file_names(kind, stem.as_str());
    let profile_dir = path_join(target_dir, profile);
    let lib = join_all(profile_dir.as_str(), &names);
    let implib = match kind {
        LibKind::Shared => join_all(profile_dir.as_str(), &implib_file_names(stem.as_str())),
        LibKind::Static => Vec::new(),
    };
    let debug_dir = path_join(target_dir, "debug");
    let debug = join_all(debug_dir.as_str(), &names);
    let release_dir = path_join(target_dir, "release");
    let release = join_all(release_dir.as_str(), &names);
    let crate_root = path_parent(pkg.manifest_path.as_str());
    let headers = match &crate_root {
        Some(root) => header_paths_under(pkg, root.as_str()),
        None => Vec::new(),
    };
    let header_dir = match &crate_root {
        Some(_) => path_parent(headers[0].as_str()),
        None => None,
    };
    LookupPaths {
        target_dir: target_dir.to_owned(),
        profile_dir,
        lib,
        implib,
        debug_dir,
        debug,
        release_dir,
        release,
        crate_root,
        headers,
        header_dir,
    }
}

/// Decides a load of `pkg`, a library of this kind, from the paths it looks
/// at and the disk's answer for each, paired with the path it answers: see
/// `load_outcome`. A crate root comes with at least one header path, as
/// `lookup_paths` gives it.
pub fn finish_load(
    pkg: &PackageInfo,
    kind: LibKind,
    profile: &str,
    generate_header: bool,
    lp: &LookupPaths,
    pr: &Probes,
) -> (res: Result<Loaded, LoadError>)
    requires
        lp.crate_root is Some ==> lp.headers@.len() > 0,
        probes_fit(*lp, *pr),
    ensures
        load_outcome(*pkg, kind, profile@, generate_header, *lp, *pr, res),
{
    let lib_path = match first_present(&pr.lib) {
        Some(p) => p,
        None => {
            return Err(
                LoadError::LibNotFound {
                    kind,
                    stem: lib_stem(pkg.name.as_str()),
                    profile_dir: lp.profile_dir.clone(),
                    profile: profile.to_owned(),
                },
            );
        },
    };
    let implib_path = first_present(&pr.implib);
    let lib_path_debug = first_present(&pr.debug);
    let lib_path_release = first_present(&pr.release);
    let link_libs = discover_link_libs(pkg);
    if generate_header {
        let crate_root = match &lp.crate_root {
            Some(root) => root.clone(),
            None => return Err(LoadError::NoManifestParent),
        };
        let header_path = lp.headers[0].clone();
        let header_dir = lp.header_dir.clone();
        let info = CrateInfo {
            name: pkg.name.clone(),
            version: pkg.version.clone(),
            lib_kind: kind,
            lib_path,
            implib_path,
            lib_path_debug,
            lib_path_release,
            header_paths: Vec::new(),
            link_libs,
        };
        Ok(Loaded::HeaderNeeded { info, crate_root, header_path, header_dir })
    } else {
        let mut header_paths: Vec<String> = Vec::new();
        let header = first_present(&pr.headers);
        if let Some(h) = header {
            header_paths.push(h);
        }
        assert(views(header_paths@) =~= opt_seq(opt_view(header)));
        let info = CrateInfo {
            name: pkg.name.clone(),
            version: pkg.version.clone(),
            lib_kind: kind,
            lib_path,
            implib_path,
            lib_path_debug,
            lib_path_release,
            header_paths,
            link_libs,
        };
        Ok(Loaded::Ready(info))
    }
}

/// Locates the crate's build artifacts and configuration: selects the
/// package, determines its library kind, and looks for its library in the
/// profile's directory under `target_dir` (or the workspace's target
/// directory), its import library there, and its debug and release builds,
/// whatever the profile; reads its link libraries; and either discovers its
/// header or, when `generate_header` is set, says where `cbindgen` is to
/// write it. Which paths exist is the disk's answer: the result is
/// `load_outcome` of the paths looked at and of the answers the disk gave.
pub fn load(
    ws: &WorkspaceInfo,
    target_dir: Option<&str>,
    profile: &str,
    crate_name_override: Option<&str>,
    generate_header: bool,
) -> (res: Result<Loaded, LoadError>)
    ensures
        selects_none(*ws, name_view(crate_name_override)) ==> (res matches Err(e)
            && selection_error(crate_name_override, e)),
        forall|i: int|
            #[trigger] selects(*ws, name_view(crate_name_override), i) ==> {
                let pkg = ws.packages@[i];
                match lib_kind_of(pkg) {
                    None => res == Err::<Loaded, LoadError>(LoadError::NoLibTarget { name: pkg.name }),
                    Some(kind) => loaded_via_disk(
                        pkg,
                        kind,
                        target_base(*ws, target_dir),
                        profile@,
                        generate_header,
                        res,
                    ),
                }
            },
{
    let idx = match select_package(ws, crate_name_override) {
        Ok(i) => i,
        Err(e) => {
            proof {
                assert forall|i: int| !selects(*ws, name_view(crate_name_override), i) by {
                    if let Some(n) = name_view(crate_name_override) {
                        if 0 <= i < ws.packages@.len() {
                            assert(ws.packages@[i].name@ != n);
                        }
                    }
                }
            }
            return Err(e);
        },
    };
    proof {
        assert forall|i: int| #[trigger] selects(*ws, name_view(crate_name_override), i) implies i
            == idx by {
            lemma_selection_unique(*ws, name_view(crate_name_override), i, idx as int);
        }
    }
    let pkg = &ws.packages[idx];
    let kind = match detect_lib_kind(pkg) {
        Ok(k) => k,
        Err(e) => return Err(e),
    };
    let target: String = match target_dir {
        Some(t) => t.to_owned(),
        None => ws.target_directory.clone(),
    };
    let lp = lookup_paths(pkg, kind, target.as_str(), profile);
    let pr = Probes {
        lib: probe_paths(&lp.lib),
        implib: probe_paths(&lp.implib),
        debug: probe_paths(&lp.debug),
        release: probe_paths(&lp.release),
        headers: probe_paths(&lp.headers),
    };
    let res = finish_load(pkg, kind, profile, generate_header, &lp, &pr);
    assert(lookup_of(*pkg, kind, target_base(*ws, target_dir), profile@, lp));
    assert(load_outcome(*pkg, kind, profile@, generate_header, lp, pr, res));
    res
}

/// How a run of `cbindgen` ended.
#[derive(Debug)]
pub enum CbindgenRun {
    /// It ran; `status` is its exit status as displayed.
    Exited { success: bool, status: String },
    /// It is not installed (not found on `PATH`).
    NotFound,
    /// It could not be started for another reason.
    Failed { cause: String },
}

/// Whether `after` is `before` with `header_paths` set to the one path
/// `header`.
pub open spec fn with_header(before: CrateInfo, after: CrateInfo, header: String) -> bool {
    &&& after.name == before.name
    &&& after.version == before.version
    &&& after.lib_kind == before.lib_kind
    &&& after.lib_path == before.lib_path
    &&& after.implib_path == before.implib_path
    &&& after.lib_path_debug == before.lib_path_debug
    &&& after.lib_path_release == before.lib_path_release
    &&& after.link_libs == before.link_libs
    &&& after.header_paths@ == seq![header]
}

/// Completes a load whose header was generated by `cbindgen` at
/// `header_path`: the header is used when `cbindgen` succeeded, and each way
/// it can fail gives its own error.
pub fn with_generated_header(info: CrateInfo, header_path: String, run: CbindgenRun) -> (res: Result<
    CrateInfo,
    LoadError,
>)
    ensures
        match run {
            CbindgenRun::Exited { success: true, .. } => res matches Ok(after) && with_header(
                info,
                after,
                header_path,
            ),
            CbindgenRun::Exited { success: false, status } => res == Err::<CrateInfo, LoadError>(
                LoadError::CbindgenExited { status, out_path: header_path },
            ),
            CbindgenRun::NotFound => res == Err::<CrateInfo, LoadError>(LoadError::CbindgenMissing),
            CbindgenRun::Failed { cause } => res == Err::<CrateInfo, LoadError>(
                LoadError::CbindgenFailed { name: info.name, cause },
            ),
        },
{
    match run {
        CbindgenRun::Exited { success, status } => {
            if success {
                let mut info = info;
                let mut header_paths: Vec<String> = Vec::new();
                header_paths.push(header_path);
                info.header_paths = header_paths;
                Ok(info)
            } else {
                Err(LoadError::CbindgenExited { status, out_path: header_path })
            }
        },
        CbindgenRun::NotFound => Err(LoadError::CbindgenMissing),
        CbindgenRun::Failed { cause } => Err(LoadError::CbindgenFailed { name: info.name, cause }),
    }
}

/// What `format!("{:?}", Path::new(s))` gives for a path held as a string:
/// the path quoted, with characters escaped as a path's `Debug` escapes
/// them.
pub uninterp spec fn debug_text(s: Seq<char>) -> Seq<char>;

/// Calls the standard library's `Debug` formatting of a path; its result is
/// named `debug_text`.
#[verifier::external_body]
fn debug_quoted(s: &str) -> (res: String)
    ensures
        res@ == debug_text(s@),
{
    format!("{:?}", std::path::Path::new(s))
}

/// The name of a library kind in messages.
pub open spec fn kind_word(kind: LibKind) -> Seq<char> {
    match kind {
        LibKind::Static => "static"@,
        LibKind::Shared => "shared"@,
    }
}

/// The message that reports a load error.
pub open spec fn message_of(e: LoadError) -> Seq<char> {
    match e {
        LoadError::Metadata { manifest_path, cause } => "running `cargo metadata` for "@
            + debug_text(manifest_path@) + ": "@ + cause@,
        LoadError::CrateNotFound { name } => "crate `"@ + name@
            + "` not found in workspace metadata"@,
        LoadError::NoRootPackage => "no root package found; pass --crate to select one explicitly"@,
        LoadError::NoLibTarget { name } => "crate `"@ + name@
            + "` has no [lib] crate-type of \"staticlib\" or \"cdylib\""@,
        LoadError::LibNotFound { kind, stem, profile_dir, profile } => "no "@ + kind_word(kind)
            + " library found for `"@ + stem@ + "` in "@ + debug_text(profile_dir@)
            + "; did you run `cargo build --profile "@ + profile@ + "`?"@,
        LoadError::NoManifestParent => "crate manifest has no parent directory"@,
        LoadError::HeaderDir { dir, cause } => "creating header output directory "@ + debug_text(
            dir@,
        ) + ": "@ + cause@,
        LoadError::CbindgenExited { status, out_path } => "cbindgen exited with "@ + status@
            + " while generating "@ + debug_text(out_path@),
        LoadError::CbindgenMissing => "cbindgen not found on PATH; install it with `cargo install cbindgen`"@,
        LoadError::CbindgenFailed { name, cause } => "running cbindgen for "@ + name@ + ": "@
            + cause@,
    }
}

/// Whether `e` reports a failed `cbindgen` run.
pub open spec fn is_cbindgen_failure(e: LoadError) -> bool {
    e is CbindgenExited || e is CbindgenMissing || e is CbindgenFailed
}

/// Every failure of a `cbindgen` run is reported by a message that names
/// `cbindgen`, so that a missing or failing `cbindgen` is recognisable.
pub proof fn lemma_cbindgen_failures_name_cbindgen(e: LoadError)
    requires
        is_cbindgen_failure(e),
    ensures
        has_substring(message_of(e), "cbindgen"@),
{
    reveal_strlit("cbindgen");
    reveal_strlit("cbindgen exited with ");
    reveal_strlit("cbindgen not found on PATH; install it with `cargo install cbindgen`");
    reveal_strlit("running cbindgen for ");
    let m = message_of(e);
    match e {
        LoadError::CbindgenExited { status, out_path } => {
            assert(m.subrange(0, 8) =~= "cbindgen"@);
            assert(m.subrange(0int, 0int + "cbindgen"@.len()) == "cbindgen"@);
        },
        LoadError::CbindgenMissing => {
            assert(m.subrange(0, 8) =~= "cbindgen"@);
            assert(m.subrange(0int, 0int + "cbindgen"@.len()) == "cbindgen"@);
        },
        LoadError::CbindgenFailed { name, cause } => {
            assert(m.subrange(8, 16) =~= "cbindgen"@);
            assert(m.subrange(8int, 8int + "cbindgen"@.len()) == "cbindgen"@);
        },
        _ => {
            assert(false);
        },
    }
}

impl LoadError {
    /// The message that reports this error.
    pub fn message(&self) -> (res: String)
        ensures
            res@ == message_of(*self),
    {
        let mut out: Vec<char> = Vec::new();
        match self {
            LoadError::Metadata { manifest_path, cause } => {
                push_str(&mut out, "running `cargo metadata` for ");
                push_str(&mut out, debug_quoted(manifest_path.as_str()).as_str());
                push_str(&mut out, ": ");
                push_str(&mut out, cause.as_str());
            },
            LoadError::CrateNotFound { name } => {
                push_str(&mut out, "crate `");
                push_str(&mut out, name.as_str());
                push_str(&mut out, "` not found in workspace metadata");
            },
            LoadError::NoRootPackage => {
                push_str(&mut out, "no root package found; pass --crate to select one explicitly");
            },
            LoadError::NoLibTarget { name } => {
                push_str(&mut out, "crate `");
                push_str(&mut out, name.as_str());
                push_str(&mut out, "` has no [lib] crate-type of \"staticlib\" or \"cdylib\"");
            },
            LoadError::LibNotFound { kind, stem, profile_dir, profile } => {
                push_str(&mut out, "no ");
                push_str(
                    &mut out,
                    match kind {
                        LibKind::Static => "static",
                        LibKind::Shared => "shared",
                    },
                );
                push_str(&mut out, " library found for `");
                push_str(&mut out, stem.as_str());
                push_str(&mut out, "` in ");
                push_str(&mut out, debug_quoted(profile_dir.as_str()).as_str());
                push_str(&mut out, "; did you run `cargo build --profile ");
                push_str(&mut out, profile.as_str());
                push_str(&mut out, "`?");
            },
            LoadError::NoManifestParent => {
                push_str(&mut out, "crate manifest has no parent directory");
            },
            LoadError::HeaderDir { dir, cause } => {
                push_str(&mut out, "creating header output directory ");
                push_str(&mut out, debug_quoted(dir.as_str()).as_str());
                push_str(&mut out, ": ");
                push_str(&mut out, cause.as_str());
            },
            LoadError::CbindgenExited { status, out_path } => {
                push_str(&mut out, "cbindgen exited with ");
                push_str(&mut out, status.as_str());
                push_str(&mut out, " while generating ");
                push_str(&mut out, debug_quoted(out_path.as_str()).as_str());
            },
            LoadError::CbindgenMissing => {
                push_str(
                    &mut out,
                    "cbindgen not found on PATH; install it with `cargo install cbindgen`",
                );
            },
            LoadError::CbindgenFailed { name, cause } => {
                push_str(&mut out, "running cbindgen for ");
                push_str(&mut out, name.as_str());
                push_str(&mut out, ": ");
                push_str(&mut out, cause.as_str());
            },
        }
        string_of(&out)
    }
}

} // verus!
