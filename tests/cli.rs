use icx_rustc::cli::{normalize_arg, Args};

#[test]
fn slash_without_colon_gets_single_dash() {
    assert_eq!(normalize_arg("/W1"), "-W1");
}

#[test]
fn slash_with_colon_gets_double_dash_and_equals() {
    assert_eq!(normalize_arg("/D:NAME=VALUE"), "--D=NAME=VALUE");
}

#[test]
fn every_colon_becomes_equals() {
    assert_eq!(normalize_arg("/arch:AVX2"), "--arch=AVX2");
    assert_eq!(normalize_arg("/a:b:c"), "--a=b=c");
}

#[test]
fn double_slash_and_dash_arguments_are_untouched() {
    assert_eq!(normalize_arg("//server/share"), "//server/share");
    assert_eq!(normalize_arg("-O3"), "-O3");
    assert_eq!(normalize_arg("main.rs"), "main.rs");
    assert_eq!(normalize_arg(""), "");
}

#[test]
fn lone_slash_becomes_dash() {
    assert_eq!(normalize_arg("/"), "-");
}

#[test]
fn default_args_are_blank() {
    let a = Args::default();
    assert!(a.files.is_empty());
    assert!(a.opt_level.is_none());
    assert!(a.optimize_diagnostics);
    assert!(!a.release);
}
