//! Tests of the find-module generator: rendering, naming, crate selection,
//! artifact lookup, error reporting and the run's state machine.

use cargo_cmake_bridge::cli::{strip_subcommand, CliArgs};
use cargo_cmake_bridge::metadata::{
    detect_lib_kind, discover_header, discover_link_libs, find_implib, find_lib, finish_load,
    first_present, header_file_name, header_target_path, implib_file_names, join_all,
    lib_file_names, lib_stem, list_crates_with_lib_target, load, lookup_paths, select_package,
    with_generated_header, CbindgenRun, CrateInfo, LibKind, LoadError, Loaded, LookupPaths,
    MetaValue, PackageInfo, Probes, WorkspaceInfo,
};
use cargo_cmake_bridge::pipeline::{find_module_file_name, Action, Event, Run};
use cargo_cmake_bridge::template::{
    render, render_with_parts, to_pascal_case, to_upper_snake, FIND_MODULE_TEMPLATE,
};
use cargo_cmake_bridge::text::{join_with, replace_all, to_upper};

fn s(x: &str) -> String {
    x.to_string()
}

fn sample_info() -> CrateInfo {
    CrateInfo {
        name: s("sample-crate"),
        version: s("0.2.0"),
        lib_kind: LibKind::Static,
        lib_path: s("/work/sample-crate/target/debug/libsample_crate.a"),
        implib_path: None,
        lib_path_debug: Some(s("/work/sample-crate/target/debug/libsample_crate.a")),
        lib_path_release: None,
        header_paths: vec![s("/work/sample-crate/include/sample_crate.h")],
        link_libs: vec![],
    }
}

fn package(name: &str, kinds: &[&str], metadata: MetaValue) -> PackageInfo {
    PackageInfo {
        name: s(name),
        version: s("1.0.0"),
        manifest_path: format!("/work/{name}/Cargo.toml"),
        target_kinds: vec![kinds.iter().map(|k| s(k)).collect()],
        metadata,
    }
}

fn bridge_metadata(entries: Vec<(String, MetaValue)>) -> MetaValue {
    MetaValue::Object(vec![(s("cmake-bridge"), MetaValue::Object(entries))])
}

fn workspace(packages: Vec<PackageInfo>, root: Option<usize>) -> WorkspaceInfo {
    WorkspaceInfo { packages, root_package: root, target_directory: s("/nonexistent-target-dir") }
}

fn args(crate_names: &[&str], all: bool) -> CliArgs {
    CliArgs {
        manifest_path: s("/work/Cargo.toml"),
        target_dir: None,
        profile: s("debug"),
        out_dir: s("/work/cmake"),
        crate_names: crate_names.iter().map(|n| s(n)).collect(),
        all,
        generate_header: false,
    }
}

#[test]
fn generates_find_module_for_sample_crate() {
    let contents = render(&sample_info());
    assert!(contents.contains("SAMPLE_CRATE_VERSION \"0.2.0\""));
    assert!(contents.contains("SampleCrate::SampleCrate"));
    assert!(contents.contains("sample_crate"));
    assert!(contents.contains("NAMES sample_crate.h"));
    assert_eq!(find_module_file_name(&to_pascal_case("sample-crate")), "FindSampleCrate.cmake");
}

#[test]
fn generates_find_module_for_every_crate_with_all() {
    let (mut run, action) = Run::start(&args(&[], true));
    assert!(matches!(action, Action::ListCrates));
    let mut action = run.step(Event::Listed(vec![s("crate-a"), s("crate-b")]));
    let mut file_names = Vec::new();
    let mut loads = Vec::new();
    loop {
        match action {
            Action::Load { crate_name } => {
                let name = crate_name.expect("--all names every crate");
                loads.push(name.clone());
                let mut info = sample_info();
                info.name = name;
                action = run.step(Event::Loaded(info));
            }
            Action::Write { file_name, path, contents } => {
                assert!(!contents.is_empty());
                assert_eq!(path, format!("/work/cmake/{file_name}"));
                file_names.push(file_name.clone());
                action = run.step(Event::Written(format!("/out/{file_name}")));
            }
            Action::Finish { written } => {
                assert_eq!(written, vec![s("/out/FindCrateA.cmake"), s("/out/FindCrateB.cmake")]);
                break;
            }
            Action::ListCrates => panic!("listing is asked for only once"),
        }
    }
    assert_eq!(loads, vec![s("crate-a"), s("crate-b")]);
    assert_eq!(file_names, vec![s("FindCrateA.cmake"), s("FindCrateB.cmake")]);
}

#[test]
fn generate_header_reports_missing_cbindgen_clearly() {
    let res = with_generated_header(sample_info(), s("/work/include/sample_crate.h"), CbindgenRun::NotFound);
    let err = res.expect_err("a missing cbindgen is an error");
    assert_eq!(err, LoadError::CbindgenMissing);
    let message = err.message();
    assert!(message.contains("cbindgen"), "unexpected error: {message}");
    assert_eq!(message, "cbindgen not found on PATH; install it with `cargo install cbindgen`");
}

#[test]
fn pascal_case_of_crate_names() {
    assert_eq!(to_pascal_case("sample-crate"), "SampleCrate");
    assert_eq!(to_pascal_case("sample_crate"), "SampleCrate");
    assert_eq!(to_pascal_case("crate-a"), "CrateA");
    assert_eq!(to_pascal_case("a__b--c"), "ABC");
    assert_eq!(to_pascal_case("-leading_and_trailing-"), "LeadingAndTrailing");
    assert_eq!(to_pascal_case("already"), "Already");
    assert_eq!(to_pascal_case("x1_y2"), "X1Y2");
    assert_eq!(to_pascal_case(""), "");
    assert_eq!(to_pascal_case("__"), "");
    assert_eq!(to_pascal_case("ßtraße-öl"), "SStraßeÖl");
}

#[test]
fn pascal_case_same_for_name_and_stem() {
    for name in ["sample-crate", "my-lib_core", "a-b-c", "plain"] {
        assert_eq!(to_pascal_case(name), to_pascal_case(&lib_stem(name)));
    }
}

#[test]
fn upper_snake_of_crate_names() {
    assert_eq!(to_upper_snake("sample-crate"), "SAMPLE_CRATE");
    assert_eq!(to_upper_snake("my_lib-2"), "MY_LIB_2");
    assert_eq!(to_upper_snake("straße"), "STRASSE");
    assert!(!to_upper_snake("a-b-c-").contains('-'));
}

#[test]
fn lib_stem_replaces_dashes() {
    assert_eq!(lib_stem("sample-crate"), "sample_crate");
    assert_eq!(lib_stem("a-b_c-"), "a_b_c_");
    assert_eq!(lib_stem("plain"), "plain");
    assert!(!lib_stem("--x--").contains('-'));
}

#[test]
fn replace_all_cases() {
    let chars = |t: &str| t.chars().collect::<Vec<char>>();
    let r = |text: &str, pat: &str, rep: &str| {
        replace_all(&chars(text), &chars(pat), &chars(rep)).into_iter().collect::<String>()
    };
    assert_eq!(r("@A@ and @A@", "@A@", "x"), "x and x");
    assert_eq!(r("aaa", "aa", "b"), "ba");
    assert_eq!(r("abc", "", "z"), "abc");
    assert_eq!(r("", "a", "b"), "");
    assert_eq!(r("no match", "@X@", "y"), "no match");
    assert_eq!(r("@A@", "@A@", "@A@"), "@A@");
    for (text, pat, rep) in [("a-b-c", "-", "_"), ("xyxyx", "yx", "Q"), ("aaaa", "a", "")] {
        assert_eq!(r(text, pat, rep), text.replace(pat, rep));
    }
}

#[test]
fn join_with_separator() {
    assert_eq!(join_with(&vec![], " "), "");
    assert_eq!(join_with(&vec![s("m")], " "), "m");
    assert_eq!(join_with(&vec![s("m"), s("pthread"), s("dl")], " "), "m pthread dl");
}

#[test]
fn render_substitutes_every_placeholder() {
    let info = CrateInfo {
        name: s("my-lib"),
        version: s("1.2.3"),
        lib_kind: LibKind::Shared,
        lib_path: s("/t/release/libmy_lib.so"),
        implib_path: Some(s("/t/release/my_lib.dll.lib")),
        lib_path_debug: Some(s("/t/debug/libmy_lib.so")),
        lib_path_release: Some(s("/t/release/libmy_lib.so")),
        header_paths: vec![s("/src/include/my_lib.h")],
        link_libs: vec![s("m"), s("pthread")],
    };
    let text = render_with_parts(&info, "/src/include", "my_lib.h", "/t/release", "libmy_lib.so");
    let expected = FIND_MODULE_TEMPLATE
        .replace("@CRATE_NAME_PASCAL@", "MyLib")
        .replace("@CRATE_NAME_UPPER@", "MY_LIB")
        .replace("@CRATE_VERSION@", "1.2.3")
        .replace("@HEADER_NAME@", "my_lib.h")
        .replace("@HEADER_DIR@", "/src/include")
        .replace("@LIB_NAME@", "libmy_lib.so")
        .replace("@LIB_DIR@", "/t/release")
        .replace("@LIB_LINK_TYPE@", "SHARED")
        .replace("@IMPLIB_PATH@", "/t/release/my_lib.dll.lib")
        .replace("@LIB_PATH_DEBUG@", "/t/debug/libmy_lib.so")
        .replace("@LIB_PATH_RELEASE@", "/t/release/libmy_lib.so")
        .replace("@EXTRA_LINK_LIBS@", "m pthread");
    assert_eq!(text, expected);
    assert!(!text.contains("@CRATE_") && !text.contains("@LIB_") && !text.contains("@HEADER_"));
    assert!(text.contains("MyLib::MyLib SHARED IMPORTED"));
    assert!(text.contains("IMPORTED_IMPLIB \"/t/release/my_lib.dll.lib\""));
    assert!(text.contains("\"m pthread\""));
    assert_eq!(render(&info), text);
}

#[test]
fn render_without_header_leaves_header_fields_empty() {
    let mut info = sample_info();
    info.header_paths = vec![];
    let text = render(&info);
    assert!(text.contains("NAMES \n") || text.contains("NAMES \r\n"));
    assert!(text.contains("HINTS \"\""));
    assert!(text.contains("SampleCrate::SampleCrate STATIC IMPORTED"));
    assert!(text.contains("NAMES libsample_crate.a"));
    assert!(text.contains("HINTS \"/work/sample-crate/target/debug\""));
}

#[test]
fn find_module_file_names() {
    assert_eq!(find_module_file_name("SampleCrate"), "FindSampleCrate.cmake");
    assert_eq!(find_module_file_name(""), "Find.cmake");
}

#[test]
fn strips_only_the_injected_subcommand() {
    let v = |xs: &[&str]| xs.iter().map(|x| s(x)).collect::<Vec<String>>();
    assert_eq!(
        strip_subcommand(v(&["cargo-cmake-bridge", "cmake-bridge", "--all"])),
        v(&["cargo-cmake-bridge", "--all"])
    );
    assert_eq!(
        strip_subcommand(v(&["cargo-cmake-bridge", "--all", "cmake-bridge"])),
        v(&["cargo-cmake-bridge", "--all", "cmake-bridge"])
    );
    assert_eq!(strip_subcommand(v(&["cmake-bridge"])), v(&["cmake-bridge"]));
    assert_eq!(strip_subcommand(v(&[])), v(&[]));
}

#[test]
fn detects_lib_kind() {
    let st = package("a", &["lib", "staticlib", "cdylib"], MetaValue::Other);
    let sh = package("b", &["cdylib"], MetaValue::Other);
    let none = package("c", &["lib", "bin"], MetaValue::Other);
    assert_eq!(detect_lib_kind(&st), Ok(LibKind::Static));
    assert_eq!(detect_lib_kind(&sh), Ok(LibKind::Shared));
    let err = detect_lib_kind(&none).unwrap_err();
    assert_eq!(err, LoadError::NoLibTarget { name: s("c") });
    assert_eq!(err.message(), "crate `c` has no [lib] crate-type of \"staticlib\" or \"cdylib\"");
}

#[test]
fn lists_crates_with_lib_target() {
    let ws = workspace(
        vec![
            package("crate-a", &["staticlib"], MetaValue::Other),
            package("tool", &["bin"], MetaValue::Other),
            package("crate-b", &["cdylib", "rlib"], MetaValue::Other),
        ],
        None,
    );
    assert_eq!(list_crates_with_lib_target(&ws), vec![s("crate-a"), s("crate-b")]);
}

#[test]
fn selects_package_by_name_or_root() {
    let ws = workspace(
        vec![
            package("a", &["staticlib"], MetaValue::Other),
            package("b", &["staticlib"], MetaValue::Other),
            package("b", &["cdylib"], MetaValue::Other),
        ],
        Some(0),
    );
    assert_eq!(select_package(&ws, Some("b")), Ok(1));
    assert_eq!(select_package(&ws, None), Ok(0));
    let err = select_package(&ws, Some("zzz")).unwrap_err();
    assert_eq!(err.message(), "crate `zzz` not found in workspace metadata");
    let rootless = workspace(vec![package("a", &["staticlib"], MetaValue::Other)], None);
    let err = select_package(&rootless, None).unwrap_err();
    assert_eq!(err, LoadError::NoRootPackage);
    assert_eq!(err.message(), "no root package found; pass --crate to select one explicitly");
    let bad_root = workspace(vec![], Some(3));
    assert_eq!(select_package(&bad_root, None), Err(LoadError::NoRootPackage));
}

#[test]
fn reads_link_libs_and_header_from_metadata() {
    let meta = bridge_metadata(vec![
        (s("header"), MetaValue::Str(s("gen/my.h"))),
        (
            s("link_libs"),
            MetaValue::Array(vec![MetaValue::Str(s("m")), MetaValue::Other, MetaValue::Str(s("pthread"))]),
        ),
    ]);
    let pkg = package("my", &["staticlib"], meta);
    assert_eq!(discover_link_libs(&pkg), vec![s("m"), s("pthread")]);
    assert_eq!(header_target_path(&pkg), Ok(s("/work/my/gen/my.h")));

    let plain = package("my-crate", &["staticlib"], MetaValue::Other);
    assert_eq!(discover_link_libs(&plain), Vec::<String>::new());
    assert_eq!(header_target_path(&plain), Ok(s("/work/my-crate/include/my_crate.h")));

    let wrong = package("w", &["staticlib"], bridge_metadata(vec![(s("link_libs"), MetaValue::Str(s("m")))]));
    assert_eq!(discover_link_libs(&wrong), Vec::<String>::new());

    let mut rootless = package("r", &["staticlib"], MetaValue::Other);
    rootless.manifest_path = s("");
    assert_eq!(header_target_path(&rootless), Err(LoadError::NoManifestParent));
    rootless.manifest_path = s("/");
    assert_eq!(header_target_path(&rootless), Err(LoadError::NoManifestParent));
}

#[test]
fn library_file_names() {
    assert_eq!(lib_file_names(LibKind::Static, "foo"), vec![s("libfoo.a"), s("foo.lib")]);
    assert_eq!(
        lib_file_names(LibKind::Shared, "foo"),
        vec![s("libfoo.so"), s("libfoo.dylib"), s("foo.dll")]
    );
    assert_eq!(implib_file_names("foo"), vec![s("foo.dll.lib"), s("foo.lib")]);
    assert_eq!(header_file_name("foo-bar"), "foo_bar.h");
}

#[test]
fn find_lib_in_missing_directory_finds_nothing() {
    assert_eq!(find_lib("/nonexistent-dir-for-tests", LibKind::Static, "foo"), None);
    assert_eq!(find_implib("/nonexistent-dir-for-tests", "foo"), None);
}

#[test]
fn load_reports_missing_library() {
    let ws = workspace(vec![package("sample-crate", &["staticlib"], MetaValue::Other)], Some(0));
    let err = load(&ws, None, "release", None, false).unwrap_err();
    assert_eq!(
        err,
        LoadError::LibNotFound {
            kind: LibKind::Static,
            stem: s("sample_crate"),
            profile_dir: s("/nonexistent-target-dir/release"),
            profile: s("release"),
        }
    );
    assert_eq!(
        err.message(),
        "no static library found for `sample_crate` in \"/nonexistent-target-dir/release\"; did you run `cargo build --profile release`?"
    );
    let err = load(&ws, None, "debug", Some("other"), false).unwrap_err();
    assert_eq!(err, LoadError::CrateNotFound { name: s("other") });
    let ws = workspace(vec![package("bin-only", &["bin"], MetaValue::Other)], Some(0));
    assert_eq!(load(&ws, None, "debug", None, true).unwrap_err(), LoadError::NoLibTarget { name: s("bin-only") });
}

#[test]
fn load_finds_an_existing_static_library() {
    // Uses the C library's static archive where the system provides one;
    // without it, the load must report the missing library.
    let meta = bridge_metadata(vec![(s("link_libs"), MetaValue::Array(vec![MetaValue::Str(s("m"))]))]);
    let ws = workspace(vec![package("c", &["staticlib"], meta)], Some(0));
    if !std::path::Path::new("/usr/lib/x86_64-linux-gnu/libc.a").exists()
        && !std::path::Path::new("/usr/lib/x86_64-linux-gnu/c.lib").exists()
    {
        assert_eq!(
            load(&ws, Some("/usr/lib"), "x86_64-linux-gnu", None, false).unwrap_err(),
            LoadError::LibNotFound {
                kind: LibKind::Static,
                stem: s("c"),
                profile_dir: s("/usr/lib/x86_64-linux-gnu"),
                profile: s("x86_64-linux-gnu"),
            }
        );
        return;
    }
    match load(&ws, Some("/usr/lib"), "x86_64-linux-gnu", None, false) {
        Ok(Loaded::Ready(info)) => {
            assert_eq!(info.name, "c");
            assert_eq!(info.version, "1.0.0");
            assert_eq!(info.lib_kind, LibKind::Static);
            assert_eq!(info.lib_path, "/usr/lib/x86_64-linux-gnu/libc.a");
            assert_eq!(info.implib_path, None);
            assert_eq!(info.link_libs, vec![s("m")]);
            assert!(info.header_paths.is_empty());
        }
        other => panic!("unexpected load result: {other:?}"),
    }
    match load(&ws, Some("/usr/lib"), "x86_64-linux-gnu", None, true) {
        Ok(Loaded::HeaderNeeded { info, crate_root, header_path, header_dir }) => {
            assert_eq!(crate_root, "/work/c");
            assert_eq!(header_path, "/work/c/include/c.h");
            assert_eq!(header_dir, Some(s("/work/c/include")));
            assert!(info.header_paths.is_empty());
        }
        other => panic!("unexpected load result: {other:?}"),
    }
}

#[test]
fn cbindgen_outcomes() {
    let ok = with_generated_header(sample_info(), s("/h/x.h"), CbindgenRun::Exited { success: true, status: s("exit status: 0") })
        .unwrap();
    assert_eq!(ok.header_paths, vec![s("/h/x.h")]);
    assert_eq!(ok.name, "sample-crate");
    let err = with_generated_header(sample_info(), s("/h/x.h"), CbindgenRun::Exited { success: false, status: s("exit status: 1") })
        .unwrap_err();
    assert_eq!(err.message(), "cbindgen exited with exit status: 1 while generating \"/h/x.h\"");
    let err = with_generated_header(sample_info(), s("/h/x.h"), CbindgenRun::Failed { cause: s("permission denied") })
        .unwrap_err();
    assert_eq!(err.message(), "running cbindgen for sample-crate: permission denied");
}

#[test]
fn error_messages() {
    let e = LoadError::Metadata { manifest_path: s("/w/Cargo.toml"), cause: s("boom") };
    assert_eq!(e.message(), "running `cargo metadata` for \"/w/Cargo.toml\": boom");
    assert_eq!(LoadError::NoManifestParent.message(), "crate manifest has no parent directory");
    let e = LoadError::HeaderDir { dir: s("/a \"b\""), cause: s("denied") };
    assert_eq!(e.message(), "creating header output directory \"/a \\\"b\\\"\": denied");
    let e = LoadError::LibNotFound { kind: LibKind::Shared, stem: s("x"), profile_dir: s("/t/d"), profile: s("d") };
    assert_eq!(e.message(), "no shared library found for `x` in \"/t/d\"; did you run `cargo build --profile d`?");
}

#[test]
fn run_with_named_crates_and_default() {
    let (mut run, action) = Run::start(&args(&["x-y"], false));
    match action {
        Action::Load { crate_name } => assert_eq!(crate_name, Some(s("x-y"))),
        other => panic!("unexpected action {other:?}"),
    }
    let mut info = sample_info();
    info.name = s("x-y");
    match run.step(Event::Loaded(info)) {
        Action::Write { file_name, path, contents } => {
            assert_eq!(file_name, "FindXY.cmake");
            assert_eq!(path, "/work/cmake/FindXY.cmake");
            assert!(contents.contains("XY::XY"));
            assert!(contents.contains("X_Y_VERSION \"0.2.0\""));
        }
        other => panic!("unexpected action {other:?}"),
    }
    match run.step(Event::Written(s("/o/FindXY.cmake"))) {
        Action::Finish { written } => assert_eq!(written, vec![s("/o/FindXY.cmake")]),
        other => panic!("unexpected action {other:?}"),
    }

    let (_, action) = Run::start(&args(&[], false));
    match action {
        Action::Load { crate_name } => assert_eq!(crate_name, None),
        other => panic!("unexpected action {other:?}"),
    }

    let (mut run, _) = Run::start(&args(&[], true));
    match run.step(Event::Listed(vec![])) {
        Action::Finish { written } => assert!(written.is_empty()),
        other => panic!("unexpected action {other:?}"),
    }
}

#[test]
fn accepts_only_the_awaited_event() {
    let (run, _) = Run::start(&args(&[], true));
    assert!(run.accepts_event(&Event::Listed(vec![])));
    assert!(!run.accepts_event(&Event::Written(s("/x"))));
    let (run, _) = Run::start(&args(&["a"], false));
    assert!(run.accepts_event(&Event::Loaded(sample_info())));
    assert!(!run.accepts_event(&Event::Listed(vec![])));
}

#[test]
fn first_present_takes_the_first_that_exists() {
    assert_eq!(first_present(&answered(&[s("a"), s("b"), s("c")], &[false, true, true])), Some(s("b")));
    assert_eq!(first_present(&answered(&[s("a"), s("b"), s("c")], &[true, true, true])), Some(s("a")));
    assert_eq!(first_present(&answered(&[s("a"), s("b"), s("c")], &[false, false, false])), None);
    assert_eq!(first_present(&vec![]), None);
}

#[test]
fn join_all_joins_each_name() {
    assert_eq!(
        join_all("/t/debug", &vec![s("libx.a"), s("x.lib")]),
        vec![s("/t/debug/libx.a"), s("/t/debug/x.lib")]
    );
}

#[test]
fn lookup_paths_of_a_crate() {
    let pkg = package("my-crate", &["staticlib"], MetaValue::Other);
    let lp = lookup_paths(&pkg, LibKind::Static, "/t", "release");
    assert_eq!(lp.target_dir, "/t");
    assert_eq!(lp.profile_dir, "/t/release");
    assert_eq!(lp.lib, vec![s("/t/release/libmy_crate.a"), s("/t/release/my_crate.lib")]);
    assert!(lp.implib.is_empty());
    assert_eq!(lp.debug, vec![s("/t/debug/libmy_crate.a"), s("/t/debug/my_crate.lib")]);
    assert_eq!(lp.release, vec![s("/t/release/libmy_crate.a"), s("/t/release/my_crate.lib")]);
    assert_eq!(lp.crate_root, Some(s("/work/my-crate")));
    assert_eq!(lp.headers, vec![s("/work/my-crate/include/my_crate.h")]);
    assert_eq!(lp.header_dir, Some(s("/work/my-crate/include")));

    let meta = bridge_metadata(vec![(s("header"), MetaValue::Str(s("gen/h.h")))]);
    let shared = package("sh", &["cdylib"], meta);
    let lp = lookup_paths(&shared, LibKind::Shared, "/t", "debug");
    assert_eq!(lp.implib, vec![s("/t/debug/sh.dll.lib"), s("/t/debug/sh.lib")]);
    assert_eq!(lp.headers, vec![s("/work/sh/gen/h.h"), s("/work/sh/include/sh.h")]);
}

fn sample_lookup() -> LookupPaths {
    LookupPaths {
        target_dir: s("/t"),
        profile_dir: s("/t/debug"),
        lib: vec![s("/t/debug/libsc.a"), s("/t/debug/sc.lib")],
        implib: vec![],
        debug_dir: s("/t/debug"),
        debug: vec![s("/t/debug/libsc.a"), s("/t/debug/sc.lib")],
        release_dir: s("/t/release"),
        release: vec![s("/t/release/libsc.a"), s("/t/release/sc.lib")],
        crate_root: Some(s("/w")),
        headers: vec![s("/w/include/sc.h")],
        header_dir: Some(s("/w/include")),
    }
}

fn answered(paths: &[String], present: &[bool]) -> Vec<(String, bool)> {
    paths.iter().cloned().zip(present.iter().copied()).collect()
}

fn probes(lib: Vec<bool>, release: Vec<bool>, headers: Vec<bool>) -> Probes {
    let lp = sample_lookup();
    Probes {
        lib: answered(&lp.lib, &lib),
        implib: vec![],
        debug: answered(&lp.debug, &lib),
        release: answered(&lp.release, &release),
        headers: answered(&lp.headers, &headers),
    }
}

#[test]
fn finish_load_decides_from_the_probes() {
    let pkg = package("sc", &["staticlib"], MetaValue::Other);
    let lp = sample_lookup();
    match finish_load(&pkg, LibKind::Static, "debug", false, &lp, &probes(vec![false, true], vec![true, false], vec![true])) {
        Ok(Loaded::Ready(info)) => {
            assert_eq!(info.lib_path, "/t/debug/sc.lib");
            assert_eq!(info.lib_path_debug, Some(s("/t/debug/sc.lib")));
            assert_eq!(info.lib_path_release, Some(s("/t/release/libsc.a")));
            assert_eq!(info.implib_path, None);
            assert_eq!(info.header_paths, vec![s("/w/include/sc.h")]);
        }
        other => panic!("unexpected load result: {other:?}"),
    }
    match finish_load(&pkg, LibKind::Static, "debug", true, &lp, &probes(vec![true, true], vec![false, false], vec![false])) {
        Ok(Loaded::HeaderNeeded { info, crate_root, header_path, header_dir }) => {
            assert_eq!(info.lib_path, "/t/debug/libsc.a");
            assert_eq!(header_dir, Some(s("/w/include")));
            assert_eq!(info.lib_path_release, None);
            assert_eq!(crate_root, "/w");
            assert_eq!(header_path, "/w/include/sc.h");
        }
        other => panic!("unexpected load result: {other:?}"),
    }
    let err = finish_load(&pkg, LibKind::Static, "debug", true, &lp, &probes(vec![false, false], vec![true, true], vec![true]))
        .unwrap_err();
    assert_eq!(
        err,
        LoadError::LibNotFound { kind: LibKind::Static, stem: s("sc"), profile_dir: s("/t/debug"), profile: s("debug") }
    );
    let mut rootless = sample_lookup();
    rootless.crate_root = None;
    rootless.headers = vec![];
    rootless.header_dir = None;
    let err = finish_load(&pkg, LibKind::Static, "debug", true, &rootless, &probes(vec![true, false], vec![false, false], vec![]))
        .unwrap_err();
    assert_eq!(err, LoadError::NoManifestParent);
}

#[test]
fn discover_header_in_missing_crate_finds_nothing() {
    let pkg = package("nothing-here", &["staticlib"], MetaValue::Other);
    assert_eq!(discover_header(&pkg), None);
    let mut rootless = package("r", &["staticlib"], MetaValue::Other);
    rootless.manifest_path = s("");
    assert_eq!(discover_header(&rootless), None);
}

#[test]
fn render_splits_absolute_paths() {
    let mut info = sample_info();
    info.lib_path = s("/x/y/libz.a");
    info.header_paths = vec![s("/c/include/sample_crate.h"), s("/ignored/other.h")];
    let text = render(&info);
    assert!(text.contains("NAMES libz.a"));
    assert!(text.contains("HINTS \"/x/y\""));
    assert!(text.contains("NAMES sample_crate.h"));
    assert!(text.contains("HINTS \"/c/include\""));
    info.header_paths.truncate(1);
    assert_eq!(render(&info), text);
}

#[test]
fn path_messages_escape_as_paths_do() {
    let e = LoadError::HeaderDir { dir: s("/a'b"), cause: s("denied") };
    assert_eq!(e.message(), format!("creating header output directory {:?}: denied", std::path::Path::new("/a'b")));
}

#[test]
fn render_same_for_name_and_stem() {
    let info = sample_info();
    let mut stem_info = sample_info();
    stem_info.name = lib_stem(&info.name);
    assert_eq!(stem_info.name, "sample_crate");
    let text = render(&info);
    assert_eq!(render(&stem_info), text);
    assert!(text.contains("SampleCrate::SampleCrate"));
    assert!(text.contains("SAMPLE_CRATE_VERSION \"0.2.0\""));
}

#[test]
fn render_keeps_bare_file_names() {
    let mut info = sample_info();
    info.lib_path = s("libz.a");
    info.header_paths = vec![s("z.h")];
    let text = render(&info);
    assert!(text.contains("NAMES libz.a"));
    assert!(text.contains("NAMES z.h"));
    assert!(text.contains("HINTS \"\""));
}

#[test]
fn absolute_configured_header_is_taken_as_is() {
    let meta = bridge_metadata(vec![(s("header"), MetaValue::Str(s("/abs/gen/h.h")))]);
    let pkg = package("abs", &["staticlib"], meta);
    assert_eq!(header_target_path(&pkg), Ok(s("/abs/gen/h.h")));
    let lp = lookup_paths(&pkg, LibKind::Static, "/t", "debug");
    assert_eq!(lp.headers, vec![s("/abs/gen/h.h"), s("/work/abs/include/abs.h")]);
}

#[test]
fn upper_case_maps_each_character() {
    assert_eq!(to_upper("sample-crate"), "SAMPLE-CRATE");
    assert_eq!(to_upper("straße"), "STRASSE");
    assert_eq!(to_upper("straße"), "straße".to_uppercase());
}

#[test]
fn pascal_case_of_pascal_case_is_unchanged() {
    for name in ["sample-crate", "sample_crate", "a__b-c", "", "_x", "1abc", "SampleCrate"] {
        let once = to_pascal_case(name);
        assert_eq!(to_pascal_case(&once), once);
    }
}

#[test]
fn render_same_for_non_ascii_name_and_stem() {
    let mut info = sample_info();
    info.name = s("straße-ünï");
    let mut stem_info = sample_info();
    stem_info.name = lib_stem(&info.name);
    assert_eq!(render(&stem_info), render(&info));
    assert!(render(&info).contains("STRASSE_ÜNÏ_VERSION"));
}

#[test]
fn static_and_shared_library_paths_never_meet() {
    for stem in ["x", "my_crate", ""] {
        let statics = join_all("/t/debug", &lib_file_names(LibKind::Static, stem));
        let shareds = join_all("/t/debug", &lib_file_names(LibKind::Shared, stem));
        for p in &statics {
            assert!(!shareds.contains(p));
        }
    }
}

#[test]
fn first_header_looked_for_is_the_target() {
    let meta = bridge_metadata(vec![(s("header"), MetaValue::Str(s("gen/h.h")))]);
    let pkg = package("sh", &["cdylib"], meta);
    let lp = lookup_paths(&pkg, LibKind::Shared, "/t", "debug");
    assert_eq!(Ok(lp.headers[0].clone()), header_target_path(&pkg));
    let plain = package("my-crate", &["staticlib"], MetaValue::Other);
    let lp = lookup_paths(&plain, LibKind::Static, "/t", "debug");
    assert_eq!(Ok(lp.headers[0].clone()), header_target_path(&plain));
}
