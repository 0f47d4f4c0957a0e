//! Renders the CMake find-module text for a crate by substituting the
//! `@VAR@` placeholders of the module template.

use vstd::prelude::*;
use crate::metadata::{lib_stem_of, CrateInfo, LibKind};
use crate::paths::{dir_split, is_file_name, name_after, path_file_name, path_parent};
use crate::text::{
    char_to_uppercase, chars_of, join_with, joined, push_all, replace_all, replaced, to_upper,
    string_of, upper_of, upper_str, views, lemma_replaced_char_leaves_none, has_char,
    has_substring, is_placeholder, lemma_replaced_keeps_piece, lemma_replaced_pair, all_ascii,
    ascii_upper, swap_char, lemma_replaced_char,
};

verus! {

/// The text of the generated find-module, with `@VAR@` placeholders.
pub const FIND_MODULE_TEMPLATE: &'static str = "# Find@CRATE_NAME_PASCAL@.cmake -- generated by cargo-cmake-bridge from the Rust crate's
# `cargo metadata`; regenerate it rather than editing it by hand.
#
# Defines the imported target @CRATE_NAME_PASCAL@::@CRATE_NAME_PASCAL@ and sets
#   @CRATE_NAME_PASCAL@_FOUND, @CRATE_NAME_UPPER@_VERSION,
#   @CRATE_NAME_UPPER@_INCLUDE_DIR and @CRATE_NAME_UPPER@_LIBRARY.

set(@CRATE_NAME_UPPER@_VERSION \"@CRATE_VERSION@\")

find_path(@CRATE_NAME_UPPER@_INCLUDE_DIR
  NAMES @HEADER_NAME@
  HINTS \"@HEADER_DIR@\"
  NO_DEFAULT_PATH)

find_library(@CRATE_NAME_UPPER@_LIBRARY
  NAMES @LIB_NAME@
  HINTS \"@LIB_DIR@\"
  NO_DEFAULT_PATH)

include(FindPackageHandleStandardArgs)
find_package_handle_standard_args(@CRATE_NAME_PASCAL@
  REQUIRED_VARS @CRATE_NAME_UPPER@_LIBRARY
  VERSION_VAR @CRATE_NAME_UPPER@_VERSION)

if(@CRATE_NAME_PASCAL@_FOUND AND NOT TARGET @CRATE_NAME_PASCAL@::@CRATE_NAME_PASCAL@)
  add_library(@CRATE_NAME_PASCAL@::@CRATE_NAME_PASCAL@ @LIB_LINK_TYPE@ IMPORTED)
  set_target_properties(@CRATE_NAME_PASCAL@::@CRATE_NAME_PASCAL@ PROPERTIES
    IMPORTED_LOCATION \"${@CRATE_NAME_UPPER@_LIBRARY}\")
  if(NOT \"@IMPLIB_PATH@\" STREQUAL \"\")
    set_target_properties(@CRATE_NAME_PASCAL@::@CRATE_NAME_PASCAL@ PROPERTIES
      IMPORTED_IMPLIB \"@IMPLIB_PATH@\")
  endif()
  if(NOT \"@LIB_PATH_DEBUG@\" STREQUAL \"\")
    set_property(TARGET @CRATE_NAME_PASCAL@::@CRATE_NAME_PASCAL@ APPEND PROPERTY
      IMPORTED_CONFIGURATIONS DEBUG)
    set_target_properties(@CRATE_NAME_PASCAL@::@CRATE_NAME_PASCAL@ PROPERTIES
      IMPORTED_LOCATION_DEBUG \"@LIB_PATH_DEBUG@\")
  endif()
  if(NOT \"@LIB_PATH_RELEASE@\" STREQUAL \"\")
    set_property(TARGET @CRATE_NAME_PASCAL@::@CRATE_NAME_PASCAL@ APPEND PROPERTY
      IMPORTED_CONFIGURATIONS RELEASE)
    set_target_properties(@CRATE_NAME_PASCAL@::@CRATE_NAME_PASCAL@ PROPERTIES
      IMPORTED_LOCATION_RELEASE \"@LIB_PATH_RELEASE@\")
  endif()
  if(@CRATE_NAME_UPPER@_INCLUDE_DIR)
    set_target_properties(@CRATE_NAME_PASCAL@::@CRATE_NAME_PASCAL@ PROPERTIES
      INTERFACE_INCLUDE_DIRECTORIES \"${@CRATE_NAME_UPPER@_INCLUDE_DIR}\")
  endif()
  set(_@CRATE_NAME_UPPER@_EXTRA_LIBS \"@EXTRA_LINK_LIBS@\")
  if(_@CRATE_NAME_UPPER@_EXTRA_LIBS)
    separate_arguments(_@CRATE_NAME_UPPER@_EXTRA_LIBS)
    set_property(TARGET @CRATE_NAME_PASCAL@::@CRATE_NAME_PASCAL@ APPEND PROPERTY
      INTERFACE_LINK_LIBRARIES ${_@CRATE_NAME_UPPER@_EXTRA_LIBS})
  endif()
endif()

mark_as_advanced(@CRATE_NAME_UPPER@_INCLUDE_DIR @CRATE_NAME_UPPER@_LIBRARY)
";

/// The characters at which a crate name is split into words.
pub open spec fn is_separator(c: char) -> bool {
    c == '_' || c == '-'
}

/// The PascalCase form of `s`, given whether its first character begins a
/// word: separators are dropped, and the first character of every word is
/// replaced by its upper-case form.
pub open spec fn pascal_from(s: Seq<char>, at_word_start: bool) -> Seq<char>
    decreases s.len(),
{
    if s.len() == 0 {
        Seq::empty()
    } else if is_separator(s[0]) {
        pascal_from(s.drop_first(), true)
    } else if at_word_start {
        upper_of(s[0]) + pascal_from(s.drop_first(), false)
    } else {
        seq![s[0]] + pascal_from(s.drop_first(), false)
    }
}

/// The PascalCase form of a crate name: the words between `_` and `-`, each
/// with its first character upper-cased, concatenated.
pub open spec fn pascal_case(s: Seq<char>) -> Seq<char> {
    pascal_from(s, true)
}

/// Converts a crate name such as `sample-crate` or `sample_crate` into
/// `SampleCrate`.
pub fn to_pascal_case(name: &str) -> (res: String)
    ensures
        res@ == pascal_case(name@),
{
    let chars = chars_of(name);
    let mut out: Vec<char> = Vec::new();
    let mut at_start = true;
    let mut i: usize = 0;
    assert(chars@.skip(0) =~= chars@);
    assert(out@ + chars@ =~= chars@);
    while i < chars.len()
        invariant
            i <= chars@.len(),
            chars@ == name@,
            pascal_case(name@) == out@ + pascal_from(chars@.skip(i as int), at_start),
        decreases chars@.len() - i,
    {
        let c = chars[i];
        let ghost rest = chars@.skip(i as int);
        assert(rest.drop_first() =~= chars@.skip(i + 1));
        assert(rest[0] == c);
        let ghost before = out@;
        if c == '_' || c == '-' {
            at_start = true;
        } else if at_start {
            let up = char_to_uppercase(c);
            assert(up@ == upper_of(c));
            push_all(&mut out, &up);
            at_start = false;
            assert(out@ + pascal_from(chars@.skip(i + 1), false) =~= before + (upper_of(c)
                + pascal_from(rest.drop_first(), false)));
        } else {
            out.push(c);
            assert(out@ + pascal_from(chars@.skip(i + 1), false) =~= before + (seq![c]
                + pascal_from(rest.drop_first(), false)));
        }
        i = i + 1;
    }
    assert(chars@.skip(i as int) =~= Seq::<char>::empty());
    assert(out@ + Seq::<char>::empty() =~= out@);
    string_of(&out)
}

/// The upper-case form of a crate name used in CMake variable names:
/// upper-cased, with `-` replaced by `_`.
pub open spec fn upper_snake(name: Seq<char>) -> Seq<char> {
    replaced(upper_str(name), seq!['-'], seq!['_'])
}

/// The prefix of a crate's CMake variables holds no `-`: every `-` of the
/// crate name becomes `_`.
pub proof fn lemma_upper_snake_has_no_dash(name: Seq<char>)
    ensures
        !upper_snake(name).contains('-'),
{
    lemma_replaced_char_leaves_none(upper_str(name), '-', '_');
}

/// `-` and `_` split words alike: a crate name and its library stem (the
/// name with every `-` replaced by `_`) have the same PascalCase form, so
/// `sample-crate` and `sample_crate` both give `SampleCrate`.
pub proof fn lemma_pascal_of_stem(name: Seq<char>)
    ensures
        pascal_case(lib_stem_of(name)) == pascal_case(name),
{
    lemma_pascal_ignores_separator_kind(name, true);
}

/// `pascal_from` is unchanged when every `-` of its input becomes `_`.
proof fn lemma_pascal_ignores_separator_kind(name: Seq<char>, at_word_start: bool)
    ensures
        pascal_from(replaced(name, seq!['-'], seq!['_']), at_word_start) == pascal_from(
            name,
            at_word_start,
        ),
    decreases name.len(),
{
    if name.len() > 0 {
        let r = replaced(name, seq!['-'], seq!['_']);
        let rest = replaced(name.skip(1), seq!['-'], seq!['_']);
        lemma_pascal_ignores_separator_kind(name.skip(1), true);
        lemma_pascal_ignores_separator_kind(name.skip(1), false);
        assert(name.drop_first() =~= name.skip(1));
        if name[0] == '-' {
            assert(name.take(1) =~= seq!['-']);
            assert(r == seq!['_'] + rest);
            assert(r.drop_first() =~= rest);
        } else {
            assert(name.take(1) != seq!['-']) by {
                assert(name.take(1)[0] == name[0]);
            }
            assert(r == seq![name[0]] + rest);
            assert(r.drop_first() =~= rest);
            assert(r[0] == name[0]);
        }
    }
}

/// The ASCII upper-case form of an ASCII character is ASCII, is its own
/// upper-case form, and is a word separator only if the character is.
proof fn lemma_ascii_upper_facts(c: char)
    requires
        (c as u32) < 128,
    ensures
        (ascii_upper(c) as u32) < 128,
        ascii_upper(ascii_upper(c)) == ascii_upper(c),
        is_separator(ascii_upper(c)) == is_separator(c),
{
}

/// Whether `s` is in ASCII and holds no word separator.
pub open spec fn is_joined_ascii(s: Seq<char>) -> bool {
    all_ascii(s) && forall|i: int| 0 <= i < s.len() ==> !is_separator(#[trigger] s[i])
}

/// The PascalCase form of an ASCII name is ASCII, holds no separator, and
/// begins, when it begins a word, with a character that is its own
/// upper-case form.
proof fn lemma_pascal_from_shape(s: Seq<char>, at_word_start: bool)
    requires
        all_ascii(s),
    ensures
        is_joined_ascii(pascal_from(s, at_word_start)),
        at_word_start && pascal_from(s, at_word_start).len() > 0 ==> ascii_upper(
            pascal_from(s, at_word_start)[0],
        ) == pascal_from(s, at_word_start)[0],
    decreases s.len(),
{
    if s.len() > 0 {
        let rest = s.drop_first();
        assert(all_ascii(rest)) by {
            assert forall|i: int| 0 <= i < rest.len() implies (#[trigger] rest[i] as u32) < 128 by {
                assert(rest[i] == s[i + 1]);
            }
        }
        assert((s[0] as u32) < 128);
        lemma_ascii_upper_facts(s[0]);
        lemma_pascal_from_shape(rest, true);
        lemma_pascal_from_shape(rest, false);
        let p = pascal_from(s, at_word_start);
        if !is_separator(s[0]) {
            let head = if at_word_start { seq![ascii_upper(s[0])] } else { seq![s[0]] };
            let tail = pascal_from(rest, false);
            assert(p == head + tail);
            assert forall|i: int| 0 <= i < p.len() implies (#[trigger] p[i] as u32) < 128
                && !is_separator(p[i]) by {
                if i > 0 {
                    assert(p[i] == tail[i - 1]);
                }
            }
        }
    }
}

/// Text that is ASCII and holds no separator is its own PascalCase form
/// after its first character.
proof fn lemma_pascal_from_joined(s: Seq<char>)
    requires
        is_joined_ascii(s),
    ensures
        pascal_from(s, false) == s,
    decreases s.len(),
{
    if s.len() > 0 {
        let rest = s.drop_first();
        assert(is_joined_ascii(rest)) by {
            assert forall|i: int| 0 <= i < rest.len() implies (#[trigger] rest[i] as u32) < 128
                && !is_separator(rest[i]) by {
                assert(rest[i] == s[i + 1]);
            }
        }
        lemma_pascal_from_joined(rest);
        assert(!is_separator(s[0]));
        assert(s =~= seq![s[0]] + rest);
    }
}

/// Converting an ASCII crate name to PascalCase twice gives what converting
/// it once gives: the PascalCase form has no separators left, and its
/// first character is already upper-case.
pub proof fn lemma_pascal_case_idempotent(name: Seq<char>)
    requires
        all_ascii(name),
    ensures
        pascal_case(pascal_case(name)) == pascal_case(name),
{
    let p = pascal_case(name);
    lemma_pascal_from_shape(name, true);
    if p.len() > 0 {
        let rest = p.drop_first();
        assert(is_joined_ascii(rest)) by {
            assert forall|i: int| 0 <= i < rest.len() implies (#[trigger] rest[i] as u32) < 128
                && !is_separator(rest[i]) by {
                assert(rest[i] == p[i + 1]);
            }
        }
        lemma_pascal_from_joined(rest);
        assert((p[0] as u32) < 128);
        assert(!is_separator(p[0]));
        assert(upper_of(p[0]) == seq![p[0]]);
        assert(p =~= seq![p[0]] + rest);
    }
}

/// Converts a crate name into the prefix of its CMake variables.
pub fn to_upper_snake(name: &str) -> (res: String)
    ensures
        res@ == upper_snake(name@),
{
    let upper = to_upper(name);
    let chars = chars_of(upper.as_str());
    let dash = vec!['-'];
    let underscore = vec!['_'];
    assert(dash@ =~= seq!['-']);
    assert(underscore@ =~= seq!['_']);
    string_of(&replace_all(&chars, &dash, &underscore))
}

/// The CMake library type of an imported target of this kind.
pub open spec fn link_type(kind: LibKind) -> Seq<char> {
    match kind {
        LibKind::Static => "STATIC"@,
        LibKind::Shared => "SHARED"@,
    }
}

/// A path that may be absent, as the text substituted for it.
pub open spec fn text_or_empty(p: Option<String>) -> Seq<char> {
    match p {
        Some(s) => s@,
        None => Seq::empty(),
    }
}

/// The placeholders of the template and the text each one is replaced by,
/// in the order in which they are substituted, given the PascalCase and
/// upper-case forms of the crate's name.
pub open spec fn substitutions_named(
    info: CrateInfo,
    pascal: Seq<char>,
    upper: Seq<char>,
    header_dir: Seq<char>,
    header_name: Seq<char>,
    lib_dir: Seq<char>,
    lib_name: Seq<char>,
) -> Seq<(Seq<char>, Seq<char>)> {
    seq![
        ("@CRATE_NAME_PASCAL@"@, pascal),
        ("@CRATE_NAME_UPPER@"@, upper),
        ("@CRATE_VERSION@"@, info.version@),
        ("@HEADER_NAME@"@, header_name),
        ("@HEADER_DIR@"@, header_dir),
        ("@LIB_NAME@"@, lib_name),
        ("@LIB_DIR@"@, lib_dir),
        ("@LIB_LINK_TYPE@"@, link_type(info.lib_kind)),
        ("@IMPLIB_PATH@"@, text_or_empty(info.implib_path)),
        ("@LIB_PATH_DEBUG@"@, text_or_empty(info.lib_path_debug)),
        ("@LIB_PATH_RELEASE@"@, text_or_empty(info.lib_path_release)),
        ("@EXTRA_LINK_LIBS@"@, joined(views(info.link_libs@), " "@)),
    ]
}

/// The placeholders of the template and the text each one is replaced by,
/// in the order in which they are substituted.
pub open spec fn substitutions(
    info: CrateInfo,
    header_dir: Seq<char>,
    header_name: Seq<char>,
    lib_dir: Seq<char>,
    lib_name: Seq<char>,
) -> Seq<(Seq<char>, Seq<char>)> {
    substitutions_named(
        info,
        pascal_case(info.name@),
        upper_snake(info.name@),
        header_dir,
        header_name,
        lib_dir,
        lib_name,
    )
}

/// `text` after replacing, one pair after the other, every occurrence of
/// each pattern by its replacement.
pub open spec fn substitute_all(text: Seq<char>, subs: Seq<(Seq<char>, Seq<char>)>) -> Seq<char>
    decreases subs.len(),
{
    if subs.len() == 0 {
        text
    } else {
        substitute_all(replaced(text, subs[0].0, subs[0].1), subs.drop_first())
    }
}

/// The find-module for `info`, given the PascalCase and upper-case forms of
/// its name and the directory and file name of its first header and of its
/// library.
pub open spec fn module_text_named(
    info: CrateInfo,
    pascal: Seq<char>,
    upper: Seq<char>,
    header_dir: Seq<char>,
    header_name: Seq<char>,
    lib_dir: Seq<char>,
    lib_name: Seq<char>,
) -> Seq<char> {
    substitute_all(
        FIND_MODULE_TEMPLATE@,
        substitutions_named(info, pascal, upper, header_dir, header_name, lib_dir, lib_name),
    )
}

/// The find-module for `info`, given the directory and file name of its
/// first header and of its library.
pub open spec fn module_text(
    info: CrateInfo,
    header_dir: Seq<char>,
    header_name: Seq<char>,
    lib_dir: Seq<char>,
    lib_name: Seq<char>,
) -> Seq<char> {
    module_text_named(
        info,
        pascal_case(info.name@),
        upper_snake(info.name@),
        header_dir,
        header_name,
        lib_dir,
        lib_name,
    )
}

/// Renders the find-module for `info` from the directory and file name of
/// its first header (empty when it has none) and of its library.
pub fn render_with_parts(
    info: &CrateInfo,
    header_dir: &str,
    header_name: &str,
    lib_dir: &str,
    lib_name: &str,
) -> (res: String)
    ensures
        res@ == module_text(*info, header_dir@, header_name@, lib_dir@, lib_name@),
{
    let pascal = to_pascal_case(info.name.as_str());
    let upper = to_upper_snake(info.name.as_str());
    let link = match info.lib_kind {
        LibKind::Static => "STATIC",
        LibKind::Shared => "SHARED",
    };
    let implib = text_of(&info.implib_path);
    let debug = text_of(&info.lib_path_debug);
    let release = text_of(&info.lib_path_release);
    let extra = join_with(&info.link_libs, " ");
    let subs: Vec<(Vec<char>, Vec<char>)> = vec![
        (chars_of("@CRATE_NAME_PASCAL@"), chars_of(pascal.as_str())),
        (chars_of("@CRATE_NAME_UPPER@"), chars_of(upper.as_str())),
        (chars_of("@CRATE_VERSION@"), chars_of(info.version.as_str())),
        (chars_of("@HEADER_NAME@"), chars_of(header_name)),
        (chars_of("@HEADER_DIR@"), chars_of(header_dir)),
        (chars_of("@LIB_NAME@"), chars_of(lib_name)),
        (chars_of("@LIB_DIR@"), chars_of(lib_dir)),
        (chars_of("@LIB_LINK_TYPE@"), chars_of(link)),
        (chars_of("@IMPLIB_PATH@"), chars_of(implib.as_str())),
        (chars_of("@LIB_PATH_DEBUG@"), chars_of(debug.as_str())),
        (chars_of("@LIB_PATH_RELEASE@"), chars_of(release.as_str())),
        (chars_of("@EXTRA_LINK_LIBS@"), chars_of(extra.as_str())),
    ];
    let ghost spec_subs = substitutions(*info, header_dir@, header_name@, lib_dir@, lib_name@);
    assert(subs@.len() == spec_subs.len());
    assert(forall|k: int|
        0 <= k < subs@.len() ==> #[trigger] subs@[k].0@ == spec_subs[k].0 && subs@[k].1@
            == spec_subs[k].1);
    let mut text = chars_of(FIND_MODULE_TEMPLATE);
    let mut k: usize = 0;
    assert(spec_subs.skip(0) =~= spec_subs);
    while k < subs.len()
        invariant
            k <= subs@.len(),
            subs@.len() == spec_subs.len(),
            forall|j: int|
                0 <= j < subs@.len() ==> #[trigger] subs@[j].0@ == spec_subs[j].0 && subs@[j].1@
                    == spec_subs[j].1,
            substitute_all(FIND_MODULE_TEMPLATE@, spec_subs) == substitute_all(
                text@,
                spec_subs.skip(k as int),
            ),
        decreases subs@.len() - k,
    {
        let next = replace_all(&text, &subs[k].0, &subs[k].1);
        assert(spec_subs.skip(k as int).drop_first() =~= spec_subs.skip(k + 1));
        text = next;
        k = k + 1;
    }
    assert(spec_subs.skip(k as int) =~= Seq::<(Seq<char>, Seq<char>)>::empty());
    assert(substitutions(*info, header_dir@, header_name@, lib_dir@, lib_name@)
        == substitutions_named(
        *info,
        pascal@,
        upper@,
        header_dir@,
        header_name@,
        lib_dir@,
        lib_name@,
    ));
    string_of(&text)
}

/// The text of a path that may be absent: the path, or the empty string.
fn text_of(p: &Option<String>) -> (res: String)
    ensures
        res@ == text_or_empty(*p),
{
    match p {
        Some(s) => path_string(s.as_str()),
        None => String::new(),
    }
}

/// The display form of a path held as a string, which is the string itself.
fn path_string(p: &str) -> (res: String)
    ensures
        res@ == p@,
{
    string_of(&chars_of(p))
}

/// Whether `dir` and `name` are a directory and file name that `render` may
/// have taken from `path`: both empty when there is no path or it is empty;
/// the directory a prefix of the path; an empty directory and the path
/// itself for a bare file name; and for a path `d/n` (a plain directory
/// path and a file name, as `dir_split` says), `d` and `n`.
pub open spec fn split_of(path: Option<Seq<char>>, dir: Seq<char>, name: Seq<char>) -> bool {
    match path {
        None => dir.len() == 0 && name.len() == 0,
        Some(p) => {
            &&& p.len() == 0 ==> dir.len() == 0 && name.len() == 0
            &&& is_file_name(p) ==> dir.len() == 0 && name == p
            &&& dir.len() <= p.len()
            &&& dir == p.take(dir.len() as int)
            &&& forall|d: Seq<char>|
                #[trigger] dir_split(p, d) ==> dir == d && name == name_after(p, d)
        },
    }
}

/// The first header path of `info`, if it has one.
pub open spec fn first_header(info: CrateInfo) -> Option<Seq<char>> {
    if info.header_paths@.len() > 0 {
        Some(info.header_paths@[0]@)
    } else {
        None
    }
}

/// Whether `text` is the find-module of `info`, given the PascalCase and
/// upper-case forms of its name, for some split of its first header path
/// and of its library path into directory and file name.
pub open spec fn rendering_named(
    info: CrateInfo,
    pascal: Seq<char>,
    upper: Seq<char>,
    text: Seq<char>,
) -> bool {
    exists|hd: Seq<char>, hn: Seq<char>, ld: Seq<char>, ln: Seq<char>|
        #![trigger module_text_named(info, pascal, upper, hd, hn, ld, ln)]
        {
            &&& text == module_text_named(info, pascal, upper, hd, hn, ld, ln)
            &&& split_of(first_header(info), hd, hn)
            &&& split_of(Some(info.lib_path@), ld, ln)
        }
}

/// Whether `text` is the find-module of `info` for some split of its first
/// header path and of its library path into directory and file name.
pub open spec fn is_rendering_of(info: CrateInfo, text: Seq<char>) -> bool {
    rendering_named(info, pascal_case(info.name@), upper_snake(info.name@), text)
}

/// Two crates that agree in everything but their names and the headers
/// after the first have the same renderings for the same forms of the
/// name.
proof fn lemma_rendering_reads(
    info: CrateInfo,
    other: CrateInfo,
    pascal: Seq<char>,
    upper: Seq<char>,
    text: Seq<char>,
)
    requires
        other.version == info.version,
        other.lib_kind == info.lib_kind,
        other.lib_path == info.lib_path,
        other.implib_path == info.implib_path,
        other.lib_path_debug == info.lib_path_debug,
        other.lib_path_release == info.lib_path_release,
        other.link_libs == info.link_libs,
        first_header(other) == first_header(info),
    ensures
        rendering_named(other, pascal, upper, text) == rendering_named(info, pascal, upper, text),
{
    assert forall|hd: Seq<char>, hn: Seq<char>, ld: Seq<char>, ln: Seq<char>|
        module_text_named(info, pascal, upper, hd, hn, ld, ln) == #[trigger] module_text_named(
            other,
            pascal,
            upper,
            hd,
            hn,
            ld,
            ln,
        ) by {
        assert(substitutions_named(info, pascal, upper, hd, hn, ld, ln) == substitutions_named(
            other,
            pascal,
            upper,
            hd,
            hn,
            ld,
            ln,
        ));
    }
    if rendering_named(info, pascal, upper, text) {
        let (hd, hn, ld, ln) = choose|hd: Seq<char>, hn: Seq<char>, ld: Seq<char>, ln: Seq<char>|
            #![trigger module_text_named(info, pascal, upper, hd, hn, ld, ln)]
            {
                &&& text == module_text_named(info, pascal, upper, hd, hn, ld, ln)
                &&& split_of(first_header(info), hd, hn)
                &&& split_of(Some(info.lib_path@), ld, ln)
            };
        assert(module_text_named(other, pascal, upper, hd, hn, ld, ln) == text);
    }
    if rendering_named(other, pascal, upper, text) {
        let (hd, hn, ld, ln) = choose|hd: Seq<char>, hn: Seq<char>, ld: Seq<char>, ln: Seq<char>|
            #![trigger module_text_named(other, pascal, upper, hd, hn, ld, ln)]
            {
                &&& text == module_text_named(other, pascal, upper, hd, hn, ld, ln)
                &&& split_of(first_header(other), hd, hn)
                &&& split_of(Some(other.lib_path@), ld, ln)
            };
        assert(module_text_named(info, pascal, upper, hd, hn, ld, ln) == text);
    }
}

/// A find-module reads only the first header of a crate: two crates that
/// agree in everything but the headers after the first have the same
/// renderings.
pub proof fn lemma_render_reads_first_header(info: CrateInfo, other: CrateInfo, text: Seq<char>)
    requires
        other.name == info.name,
        other.version == info.version,
        other.lib_kind == info.lib_kind,
        other.lib_path == info.lib_path,
        other.implib_path == info.implib_path,
        other.lib_path_debug == info.lib_path_debug,
        other.lib_path_release == info.lib_path_release,
        other.link_libs == info.link_libs,
        info.header_paths@.len() > 0,
        other.header_paths@.len() > 0,
        other.header_paths@[0] == info.header_paths@[0],
    ensures
        is_rendering_of(other, text) == is_rendering_of(info, text),
{
    lemma_rendering_reads(info, other, pascal_case(info.name@), upper_snake(info.name@), text);
}

/// Upper-casing and then turning every `-` into `_` gives the same text for
/// a name and for the name with its `-` already turned into `_`: both map
/// to themselves when upper-cased.
proof fn lemma_upper_snake_ignores_dash(name: Seq<char>)
    ensures
        swap_char(upper_str(swap_char(name, '-', '_')), '-', '_') == swap_char(
            upper_str(name),
            '-',
            '_',
        ),
    decreases name.len(),
{
    if name.len() > 0 {
        let stem = swap_char(name, '-', '_');
        lemma_upper_snake_ignores_dash(name.drop_last());
        assert(stem.drop_last() =~= swap_char(name.drop_last(), '-', '_'));
        assert(stem.last() == (if name.last() == '-' { '_' } else { name.last() }));
        let a = upper_str(stem.drop_last());
        let b = upper_str(name.drop_last());
        assert(swap_char(a + upper_of(stem.last()), '-', '_') =~= swap_char(a, '-', '_') + swap_char(
            upper_of(stem.last()),
            '-',
            '_',
        ));
        assert(swap_char(b + upper_of(name.last()), '-', '_') =~= swap_char(b, '-', '_') + swap_char(
            upper_of(name.last()),
            '-',
            '_',
        ));
        assert(swap_char(upper_of(stem.last()), '-', '_') =~= swap_char(
            upper_of(name.last()),
            '-',
            '_',
        ));
    }
}

/// A crate name and its library stem (every `-` replaced by `_`) give the
/// same find-module: `-` and `_` split the PascalCase form alike, and both
/// become `_` in the upper-case form.
pub proof fn lemma_render_ignores_dash_kind(info: CrateInfo, other: CrateInfo, text: Seq<char>)
    requires
        other.name@ == lib_stem_of(info.name@),
        other.version == info.version,
        other.lib_kind == info.lib_kind,
        other.lib_path == info.lib_path,
        other.implib_path == info.implib_path,
        other.lib_path_debug == info.lib_path_debug,
        other.lib_path_release == info.lib_path_release,
        other.link_libs == info.link_libs,
        other.header_paths == info.header_paths,
    ensures
        is_rendering_of(other, text) == is_rendering_of(info, text),
{
    let name = info.name@;
    lemma_replaced_char(name, '-', '_');
    lemma_pascal_of_stem(name);
    lemma_upper_snake_ignores_dash(name);
    lemma_replaced_char(upper_str(name), '-', '_');
    lemma_replaced_char(upper_str(other.name@), '-', '_');
    assert(upper_snake(other.name@) == upper_snake(name));
    lemma_rendering_reads(info, other, pascal_case(name), upper_snake(name), text);
}

/// Every placeholder that `render` substitutes has the shape `@NAME@`, and
/// none holds a `:`.
proof fn lemma_substitution_patterns(
    info: CrateInfo,
    header_dir: Seq<char>,
    header_name: Seq<char>,
    lib_dir: Seq<char>,
    lib_name: Seq<char>,
)
    ensures
        forall|i: int|
            0 <= i < substitutions(info, header_dir, header_name, lib_dir, lib_name).len() ==> {
                let p = (#[trigger] substitutions(info, header_dir, header_name, lib_dir, lib_name)[i]).0;
                is_placeholder(p) && !has_char(p, ':')
            },
{
    reveal_strlit("@CRATE_NAME_PASCAL@");
    reveal_strlit("@CRATE_NAME_UPPER@");
    reveal_strlit("@CRATE_VERSION@");
    reveal_strlit("@HEADER_NAME@");
    reveal_strlit("@HEADER_DIR@");
    reveal_strlit("@LIB_NAME@");
    reveal_strlit("@LIB_DIR@");
    reveal_strlit("@LIB_LINK_TYPE@");
    reveal_strlit("@IMPLIB_PATH@");
    reveal_strlit("@LIB_PATH_DEBUG@");
    reveal_strlit("@LIB_PATH_RELEASE@");
    reveal_strlit("@EXTRA_LINK_LIBS@");
    let subs = substitutions(info, header_dir, header_name, lib_dir, lib_name);
    assert forall|i: int| 0 <= i < subs.len() implies is_placeholder(subs[i].0) && !has_char(
        subs[i].0,
        ':',
    ) by {
        let p = subs[i].0;
        assert(p.len() >= 2);
        assert(forall|j: int| 0 <= j < p.len() ==> p[j] != ':');
    }
}

/// Substituting placeholders one after the other keeps every piece of text
/// that holds no `@` and holds a character no placeholder has.
proof fn lemma_substitutions_keep_piece(
    t: Seq<char>,
    subs: Seq<(Seq<char>, Seq<char>)>,
    x: Seq<char>,
    c: char,
)
    requires
        has_substring(t, x),
        !has_char(x, '@'),
        has_char(x, c),
        forall|i: int|
            0 <= i < subs.len() ==> is_placeholder(#[trigger] subs[i].0) && !has_char(subs[i].0, c),
    ensures
        has_substring(substitute_all(t, subs), x),
    decreases subs.len(),
{
    if subs.len() > 0 {
        let k = choose|k: int| 0 <= k && k + x.len() <= t.len() && #[trigger] t.subrange(k, k + x.len()) == x;
        let u = t.take(k);
        let v = t.skip(k + x.len());
        assert(t =~= u + x + v);
        assert(is_placeholder(subs[0].0) && !has_char(subs[0].0, c));
        lemma_replaced_keeps_piece(u, x, v, subs[0].0, subs[0].1, c);
        let rest = subs.drop_first();
        assert forall|i: int| 0 <= i < rest.len() implies is_placeholder(#[trigger] rest[i].0)
            && !has_char(rest[i].0, c) by {
            assert(rest[i] == subs[i + 1]);
        }
        lemma_substitutions_keep_piece(replaced(t, subs[0].0, subs[0].1), rest, x, c);
    }
}

/// The find-module defines the imported target `<Pascal>::<Pascal>` that a
/// CMake project links against, for every crate whose PascalCase name holds
/// no `@`, whatever the other values substituted.
pub proof fn lemma_module_defines_imported_target(
    info: CrateInfo,
    header_dir: Seq<char>,
    header_name: Seq<char>,
    lib_dir: Seq<char>,
    lib_name: Seq<char>,
)
    requires
        !has_char(pascal_case(info.name@), '@'),
    ensures
        has_substring(
            module_text(info, header_dir, header_name, lib_dir, lib_name),
            pascal_case(info.name@) + "::"@ + pascal_case(info.name@),
        ),
{
    reveal_strlit("@CRATE_NAME_PASCAL@");
    reveal_strlit("::");
    // `reveal_strlit` takes the literal itself: this is the text of
    // `FIND_MODULE_TEMPLATE`.
    reveal_strlit(
        "# Find@CRATE_NAME_PASCAL@.cmake -- generated by cargo-cmake-bridge from the Rust crate's
# `cargo metadata`; regenerate it rather than editing it by hand.
#
# Defines the imported target @CRATE_NAME_PASCAL@::@CRATE_NAME_PASCAL@ and sets
#   @CRATE_NAME_PASCAL@_FOUND, @CRATE_NAME_UPPER@_VERSION,
#   @CRATE_NAME_UPPER@_INCLUDE_DIR and @CRATE_NAME_UPPER@_LIBRARY.

set(@CRATE_NAME_UPPER@_VERSION \"@CRATE_VERSION@\")

find_path(@CRATE_NAME_UPPER@_INCLUDE_DIR
  NAMES @HEADER_NAME@
  HINTS \"@HEADER_DIR@\"
  NO_DEFAULT_PATH)

find_library(@CRATE_NAME_UPPER@_LIBRARY
  NAMES @LIB_NAME@
  HINTS \"@LIB_DIR@\"
  NO_DEFAULT_PATH)

include(FindPackageHandleStandardArgs)
find_package_handle_standard_args(@CRATE_NAME_PASCAL@
  REQUIRED_VARS @CRATE_NAME_UPPER@_LIBRARY
  VERSION_VAR @CRATE_NAME_UPPER@_VERSION)

if(@CRATE_NAME_PASCAL@_FOUND AND NOT TARGET @CRATE_NAME_PASCAL@::@CRATE_NAME_PASCAL@)
  add_library(@CRATE_NAME_PASCAL@::@CRATE_NAME_PASCAL@ @LIB_LINK_TYPE@ IMPORTED)
  set_target_properties(@CRATE_NAME_PASCAL@::@CRATE_NAME_PASCAL@ PROPERTIES
    IMPORTED_LOCATION \"${@CRATE_NAME_UPPER@_LIBRARY}\")
  if(NOT \"@IMPLIB_PATH@\" STREQUAL \"\")
    set_target_properties(@CRATE_NAME_PASCAL@::@CRATE_NAME_PASCAL@ PROPERTIES
      IMPORTED_IMPLIB \"@IMPLIB_PATH@\")
  endif()
  if(NOT \"@LIB_PATH_DEBUG@\" STREQUAL \"\")
    set_property(TARGET @CRATE_NAME_PASCAL@::@CRATE_NAME_PASCAL@ APPEND PROPERTY
      IMPORTED_CONFIGURATIONS DEBUG)
    set_target_properties(@CRATE_NAME_PASCAL@::@CRATE_NAME_PASCAL@ PROPERTIES
      IMPORTED_LOCATION_DEBUG \"@LIB_PATH_DEBUG@\")
  endif()
  if(NOT \"@LIB_PATH_RELEASE@\" STREQUAL \"\")
    set_property(TARGET @CRATE_NAME_PASCAL@::@CRATE_NAME_PASCAL@ APPEND PROPERTY
      IMPORTED_CONFIGURATIONS RELEASE)
    set_target_properties(@CRATE_NAME_PASCAL@::@CRATE_NAME_PASCAL@ PROPERTIES
      IMPORTED_LOCATION_RELEASE \"@LIB_PATH_RELEASE@\")
  endif()
  if(@CRATE_NAME_UPPER@_INCLUDE_DIR)
    set_target_properties(@CRATE_NAME_PASCAL@::@CRATE_NAME_PASCAL@ PROPERTIES
      INTERFACE_INCLUDE_DIRECTORIES \"${@CRATE_NAME_UPPER@_INCLUDE_DIR}\")
  endif()
  set(_@CRATE_NAME_UPPER@_EXTRA_LIBS \"@EXTRA_LINK_LIBS@\")
  if(_@CRATE_NAME_UPPER@_EXTRA_LIBS)
    separate_arguments(_@CRATE_NAME_UPPER@_EXTRA_LIBS)
    set_property(TARGET @CRATE_NAME_PASCAL@::@CRATE_NAME_PASCAL@ APPEND PROPERTY
      INTERFACE_LINK_LIBRARIES ${_@CRATE_NAME_UPPER@_EXTRA_LIBS})
  endif()
endif()

mark_as_advanced(@CRATE_NAME_UPPER@_INCLUDE_DIR @CRATE_NAME_UPPER@_LIBRARY)
",
    );
    let t = FIND_MODULE_TEMPLATE@;
    let p = "@CRATE_NAME_PASCAL@"@;
    let m = "::"@;
    let pascal = pascal_case(info.name@);
    let subs = substitutions(info, header_dir, header_name, lib_dir, lib_name);
    assert(t.subrange(899, 918) =~= p);
    assert(t.subrange(918, 920) =~= m);
    assert(t.subrange(920, 939) =~= p);
    assert(t[898] == '(');
    let u = t.take(899);
    let v = t.skip(939);
    assert(t =~= u + p + m + p + v);
    assert(!has_char(m, '@'));
    lemma_substitution_patterns(info, header_dir, header_name, lib_dir, lib_name);
    assert(is_placeholder(subs[0].0));
    lemma_replaced_pair(u, m, v, p, pascal);
    let x = pascal + m + pascal;
    assert(x[pascal.len() as int] == ':');
    assert(!has_char(x, '@')) by {
        if has_char(x, '@') {
            let j = choose|j: int| 0 <= j < x.len() && x[j] == '@';
            if j < pascal.len() {
                assert(has_char(pascal, '@'));
            } else if j >= pascal.len() + 2 {
                assert(x[j] == pascal[j - pascal.len() - 2]);
                assert(has_char(pascal, '@'));
            }
        }
    }
    let rest = subs.drop_first();
    assert forall|i: int| 0 <= i < rest.len() implies is_placeholder(#[trigger] rest[i].0)
        && !has_char(rest[i].0, ':') by {
        assert(rest[i] == subs[i + 1]);
    }
    lemma_substitutions_keep_piece(replaced(t, p, pascal), rest, x, ':');
}

/// The directory and file name of a path, each empty where `Path` has none.
fn split_path(p: &str) -> (res: (String, String))
    ensures
        split_of(Some(p@), res.0@, res.1@),
{
    let parent = path_parent(p);
    let file_name = path_file_name(p);
    let dir = match parent {
        Some(d) => d,
        None => String::new(),
    };
    let name = match file_name {
        Some(n) => n,
        None => String::new(),
    };
    assert(p@.take(0) =~= Seq::<char>::empty());
    assert forall|d: Seq<char>| #[trigger] dir_split(p@, d) implies dir@ == d && name@
        == name_after(p@, d) by {
        assert(parent matches Some(q) && q@ == d);
        assert(file_name matches Some(n) && n@ == name_after(p@, d));
    }
    (dir, name)
}

/// Renders the find-module for `info`: the template with every placeholder
/// replaced by the value that `info` gives it.
pub fn render(info: &CrateInfo) -> (res: String)
    ensures
        is_rendering_of(*info, res@),
{
    let (header_dir, header_name) = if info.header_paths.len() > 0 {
        split_path(info.header_paths[0].as_str())
    } else {
        (String::new(), String::new())
    };
    let (lib_dir, lib_name) = split_path(info.lib_path.as_str());
    let res = render_with_parts(
        info,
        header_dir.as_str(),
        header_name.as_str(),
        lib_dir.as_str(),
        lib_name.as_str(),
    );
    assert(module_text(*info, header_dir@, header_name@, lib_dir@, lib_name@) == res@);
    assert(split_of(first_header(*info), header_dir@, header_name@));
    res
}

} // verus!
