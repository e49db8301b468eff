use icx_rustc::cli::{Args, OptLevel};
use icx_rustc::path::{is_rust_source, path_file_stem};
use icx_rustc::translator::{
    detect_host_features, detect_host_target, translate, translation_notices, HostInfo, RustcCommand,
    TranslateError,
};

fn linux() -> HostInfo {
    HostInfo { os: "linux".to_string(), avx512f: false, avx2: true, sse42: true }
}

fn with_files(files: &[&str]) -> Args {
    let mut a = Args::default();
    a.files = files.iter().map(|f| f.to_string()).collect();
    a
}

fn has(cmd: &RustcCommand, flag: &str) -> bool {
    cmd.args.iter().any(|a| a == flag)
}

#[test]
fn default_level_is_two() {
    let cmd = translate(&with_files(&["main.rs"]), &linux()).unwrap();
    assert_eq!(cmd.args[0], "-Copt-level=2");
    assert!(!has(&cmd, "-Clto=fat"));
    assert_eq!(cmd.executable, "rustc");
    assert!(cmd.env_vars.is_empty());
}

#[test]
fn enum_level_beats_legacy_string() {
    let mut a = with_files(&["main.rs"]);
    a.opt_level = Some(OptLevel::O0);
    a.msvc_opt = Some("3".to_string());
    a.release = true;
    let cmd = translate(&a, &linux()).unwrap();
    assert_eq!(cmd.args[0], "-Copt-level=0");
    assert!(!has(&cmd, "-Clto=fat"));
}

#[test]
fn ox_is_level_three() {
    let mut a = with_files(&["main.rs"]);
    a.opt_level = Some(OptLevel::Ox);
    let cmd = translate(&a, &linux()).unwrap();
    assert_eq!(cmd.args[0], "-Copt-level=3");
    assert_eq!(cmd.args[1], "-Clto=fat");
}

#[test]
fn legacy_o3_enables_lto() {
    let mut a = with_files(&["main.rs"]);
    a.msvc_opt = Some("3".to_string());
    let cmd = translate(&a, &linux()).unwrap();
    assert!(has(&cmd, "-Copt-level=3"));
    assert!(has(&cmd, "-Clto=fat"));
}

#[test]
fn legacy_strings_and_release() {
    for (s, flag) in [("0", "-Copt-level=0"), ("d", "-Copt-level=0"), ("1", "-Copt-level=1"),
                      ("2", "-Copt-level=2"), ("x", "-Copt-level=3"), ("s", "-Copt-level=2")] {
        let mut a = with_files(&["main.rs"]);
        a.msvc_opt = Some(s.to_string());
        a.release = true;
        assert_eq!(translate(&a, &linux()).unwrap().args[0], flag);
    }
    let mut a = with_files(&["main.rs"]);
    a.release = true;
    let cmd = translate(&a, &linux()).unwrap();
    assert_eq!(cmd.args[0], "-Copt-level=3");
    assert_eq!(cmd.args[1], "-Clto=fat");
}

#[test]
fn unknown_arch_warns_without_feature_flag() {
    let mut a = with_files(&["main.rs"]);
    a.arch = Some("NEON".to_string());
    let cmd = translate(&a, &linux()).unwrap();
    assert!(!cmd.args.iter().any(|x| x.starts_with("-Ctarget-feature=")));
    assert_eq!(cmd.warnings, vec!["unknown arch 'NEON', using default".to_string()]);
}

#[test]
fn named_arch_table() {
    for (name, flag) in [("AVX", "-Ctarget-feature=+avx"), ("AVX2", "-Ctarget-feature=+avx2"),
        ("AVX512", "-Ctarget-feature=+avx512f,+avx512vl,+avx512bw"),
        ("CORE-AVX512", "-Ctarget-feature=+avx512f,+avx512vl,+avx512bw"),
        ("SSE4.2", "-Ctarget-feature=+sse4.2"), ("CORE-AVX", "-Ctarget-feature=+sse4.2"),
        ("SSE2", "-Ctarget-feature=+sse2")] {
        let mut a = with_files(&["main.rs"]);
        a.arch = Some(name.to_string());
        let cmd = translate(&a, &linux()).unwrap();
        assert_eq!(cmd.args[1], flag);
        assert!(cmd.warnings.is_empty());
    }
}

#[test]
fn host_detection_wins_over_named_arch() {
    let mut a = with_files(&["main.rs"]);
    a.xhost = true;
    a.arch = Some("NEON".to_string());
    let cmd = translate(&a, &linux()).unwrap();
    assert_eq!(cmd.args[1], "--target=x86_64-unknown-linux-gnu");
    assert_eq!(cmd.args[2], "-Ctarget-feature=+crt-static,+avx2");
    assert!(cmd.warnings.is_empty());
}

#[test]
fn host_detection_on_unknown_platform_warns() {
    let mut a = with_files(&["main.rs"]);
    a.xhost = true;
    let host = HostInfo { os: "plan9".to_string(), avx512f: false, avx2: true, sse42: false };
    let cmd = translate(&a, &host).unwrap();
    assert!(!cmd.args.iter().any(|x| x.starts_with("--target=")));
    assert_eq!(cmd.args[1], "-Ctarget-feature=+crt-static,+avx2");
    assert_eq!(cmd.warnings, vec!["unknown host platform 'plan9', no target set".to_string()]);
    assert_eq!(translation_notices(&a, &host), cmd.warnings);
}

#[test]
fn host_without_extensions_gets_no_feature_flag() {
    let mut a = with_files(&["main.rs"]);
    a.xhost = true;
    let host = HostInfo { os: "windows".to_string(), avx512f: false, avx2: false, sse42: false };
    let cmd = translate(&a, &host).unwrap();
    assert_eq!(cmd.args[1], "--target=x86_64-pc-windows-msvc");
    assert!(!cmd.args.iter().any(|x| x.starts_with("-Ctarget-feature=")));
    assert!(cmd.warnings.is_empty());
}

#[test]
fn notices_come_even_when_translation_fails() {
    let mut a = Args::default();
    a.arch = Some("NEON".to_string());
    a.undefines = vec!["X".to_string()];
    assert_eq!(translate(&a, &linux()).unwrap_err(), TranslateError::NoInputFiles);
    assert_eq!(
        translation_notices(&a, &linux()),
        vec!["unknown arch 'NEON', using default".to_string(),
             "/UX not fully supported in Rust".to_string()]
    );
}

#[test]
fn host_target_and_features() {
    assert_eq!(detect_host_target("windows").unwrap(), "x86_64-pc-windows-msvc");
    assert_eq!(detect_host_target("linux").unwrap(), "x86_64-unknown-linux-gnu");
    assert!(detect_host_target("macos").is_none());
    let all = HostInfo { os: "linux".to_string(), avx512f: true, avx2: true, sse42: true };
    assert_eq!(detect_host_features(&all), vec!["+crt-static", "+avx512f", "+avx512vl"]);
    let sse = HostInfo { os: "linux".to_string(), avx512f: false, avx2: false, sse42: true };
    assert_eq!(detect_host_features(&sse), vec!["+crt-static", "+sse4.2"]);
    let none = HostInfo { os: "linux".to_string(), avx512f: false, avx2: false, sse42: false };
    assert_eq!(detect_host_features(&none), vec!["+crt-static"]);
}

#[test]
fn no_input_files_fails() {
    assert_eq!(translate(&Args::default(), &linux()).unwrap_err(), TranslateError::NoInputFiles);
    assert_eq!(
        translate(&with_files(&["libfoo.a", "main.c"]), &linux()).unwrap_err(),
        TranslateError::NoInputFiles
    );
    let mut a = Args::default();
    a.version = true;
    assert!(translate(&a, &linux()).is_ok());
    let mut b = Args::default();
    b.help = true;
    assert!(translate(&b, &linux()).is_ok());
}

#[test]
fn compile_only_derives_object_name() {
    let mut a = with_files(&["foo.rs"]);
    a.compile_only = true;
    let cmd = translate(&a, &linux()).unwrap();
    assert_eq!(cmd.output, Some("foo.o".to_string()));
    assert!(has(&cmd, "--emit=obj"));
    let mut b = with_files(&["src/dir/lib.test.rs"]);
    b.compile_only = true;
    assert_eq!(translate(&b, &linux()).unwrap().output, Some("lib.test.o".to_string()));
}

#[test]
fn compile_only_with_unnamable_input_fails() {
    let mut a = with_files(&[".."]);
    a.compile_only = true;
    assert_eq!(translate(&a, &linux()).unwrap_err(), TranslateError::InvalidInput);
}

#[test]
fn output_priority() {
    let mut a = with_files(&["main.rs"]);
    a.output = Some("a.exe".to_string());
    a.msvc_exe = Some("b.exe".to_string());
    a.msvc_obj = Some("c.obj".to_string());
    assert_eq!(translate(&a, &linux()).unwrap().output, Some("a.exe".to_string()));
    a.output = None;
    assert_eq!(translate(&a, &linux()).unwrap().output, Some("b.exe".to_string()));
    a.msvc_exe = None;
    assert_eq!(translate(&a, &linux()).unwrap().output, Some("c.obj".to_string()));
    a.msvc_obj = None;
    assert_eq!(translate(&a, &linux()).unwrap().output, None);
}

#[test]
fn defines_and_undefines() {
    let mut a = with_files(&["main.rs"]);
    a.defines = vec!["FOO".to_string(), "BAR=1".to_string()];
    a.undefines = vec!["X".to_string()];
    let cmd = translate(&a, &linux()).unwrap();
    assert_eq!(cmd.args[1], "--cfg=FOO");
    assert_eq!(cmd.args[2], "--cfg=BAR=1");
    assert_eq!(cmd.warnings, vec!["/UX not fully supported in Rust".to_string()]);
}

#[test]
fn warning_levels() {
    let mut a = with_files(&["main.rs"]);
    a.wx = true;
    a.warn_level = Some("1".to_string());
    let cmd = translate(&a, &linux()).unwrap();
    assert_eq!(&cmd.args[1..4], &["-Dwarnings", "-Wwarnings", "-Adead_code"]);
    for (l, flags) in [("0", vec!["-Awarnings"]), ("3", vec!["-Wwarnings"]),
                       ("all", vec!["-Wwarnings"]), ("2", vec![])] {
        let mut b = with_files(&["main.rs"]);
        b.warn_level = Some(l.to_string());
        let cmd = translate(&b, &linux()).unwrap();
        let n = flags.len();
        assert_eq!(&cmd.args[1..1 + n], &flags[..]);
        assert_eq!(cmd.args[1 + n], "-Ccodegen-units=1");
    }
}

#[test]
fn linker_arguments_are_quoted() {
    let mut a = with_files(&["main.rs"]);
    a.link_args = vec!["/NODEFAULTLIB".to_string(), "foo.lib".to_string()];
    let cmd = translate(&a, &linux()).unwrap();
    let flag = &cmd.args[1];
    assert!(flag.starts_with("-Clink-args="));
    assert_ne!(flag, "-Clink-args=/NODEFAULTLIB foo.lib");
    assert!(flag.contains('\''));
    let mut b = with_files(&["main.rs"]);
    b.link_args = vec!["foo.lib".to_string()];
    assert_eq!(translate(&b, &linux()).unwrap().args[1], "-Clink-args=foo.lib");
}

#[test]
fn rust_flags_files_and_raw_args_in_order() {
    let mut a = with_files(&["main.rs", "libfoo.a"]);
    a.edition = Some("2021".to_string());
    a.crate_type = Some("lib".to_string());
    a.target = Some("wasm32-unknown-unknown".to_string());
    a.raw_args = vec!["-Cdebuginfo=2".to_string()];
    let cmd = translate(&a, &linux()).unwrap();
    assert_eq!(
        cmd.args,
        vec!["-Copt-level=2", "--edition=2021", "--crate-type=lib",
             "--target=wasm32-unknown-unknown", "-Ccodegen-units=1", "-Cpanic=abort",
             "libfoo.a", "-Cdebuginfo=2"]
    );
    assert_eq!(cmd.input_files, vec!["main.rs".to_string()]);
}

#[test]
fn display_joins_command_line() {
    let mut a = with_files(&["foo.rs"]);
    a.compile_only = true;
    let cmd = translate(&a, &linux()).unwrap();
    assert_eq!(
        cmd.display(),
        "rustc -Copt-level=2 --emit=obj -Ccodegen-units=1 -Cpanic=abort foo.rs -o foo.o"
    );
    assert_eq!(RustcCommand::new().display(), "rustc");
}

#[test]
fn error_messages() {
    assert_eq!(TranslateError::NoInputFiles.message(), "No input files specified");
    assert_eq!(TranslateError::InvalidInput.message(), "Invalid input filename");
}

#[test]
fn path_names() {
    assert!(is_rust_source("src/main.rs"));
    assert!(is_rust_source("a.b.rs"));
    assert!(!is_rust_source(".rs"));
    assert!(!is_rust_source("main.rsx"));
    assert!(!is_rust_source("main"));
    assert!(is_rust_source("dir/main.rs/"));
    assert!(is_rust_source("dir/main.rs/."));
    assert!(is_rust_source("dir/main.rs/./"));
    assert!(!is_rust_source("main.rs/.."));
    assert_eq!(path_file_stem("./"), None);
    assert_eq!(path_file_stem("a/./."), Some("a".to_string()));
    assert_eq!(path_file_stem("dir/foo.rs"), Some("foo".to_string()));
    assert_eq!(path_file_stem(".bashrc"), Some(".bashrc".to_string()));
    assert_eq!(path_file_stem("noext"), Some("noext".to_string()));
    assert_eq!(path_file_stem("/"), None);
    assert_eq!(path_file_stem(""), None);
}
