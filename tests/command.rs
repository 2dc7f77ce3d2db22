use cargo_hdk::command::{
    cargo_args, configure_args, forwarded_args, native_build_args, resolve_profile, BuildProfile,
};
use cargo_hdk::install::{default_install_candidates, select_install_root};
use cargo_hdk::paths::{build_dir, cache_path};
use cargo_hdk::text::{contains_str, is_space_char, same_str};

fn strings(v: &[&str]) -> Vec<String> {
    v.iter().map(|s| s.to_string()).collect()
}

#[test]
fn release_flag_anywhere_selects_release() {
    assert_eq!(resolve_profile(&strings(&["--release"])), BuildProfile::Release);
    assert_eq!(resolve_profile(&strings(&["-v", "--release", "-p", "x"])), BuildProfile::Release);
    assert_eq!(resolve_profile(&strings(&["-p", "x", "--release"])), BuildProfile::Release);
}

#[test]
fn no_release_flag_selects_debug() {
    assert_eq!(resolve_profile(&strings(&[])), BuildProfile::Debug);
    assert_eq!(resolve_profile(&strings(&["-v", "build"])), BuildProfile::Debug);
}

#[test]
fn only_exact_release_flag_counts() {
    assert_eq!(resolve_profile(&strings(&["--release-mode"])), BuildProfile::Debug);
    assert_eq!(resolve_profile(&strings(&["--RELEASE"])), BuildProfile::Debug);
    assert_eq!(resolve_profile(&strings(&["x--release"])), BuildProfile::Debug);
}

#[test]
fn profile_names() {
    assert_eq!(BuildProfile::Debug.name(), "Debug");
    assert_eq!(BuildProfile::Release.name(), "Release");
    assert_eq!(BuildProfile::Debug.dir_name(), "build_debug");
    assert_eq!(BuildProfile::Release.dir_name(), "build_release");
    assert_eq!(BuildProfile::Release.cmake_flag(), "-DCMAKE_BUILD_TYPE=Release");
}

#[test]
fn leading_subcommand_name_is_stripped() {
    assert_eq!(forwarded_args(&strings(&["hdk", "--release"])), vec!["--release"]);
    assert_eq!(forwarded_args(&strings(&["--release", "hdk"])), vec!["--release", "hdk"]);
    assert!(forwarded_args(&strings(&[])).is_empty());
}

#[test]
fn cargo_arguments_for_build_and_clean() {
    assert_eq!(
        cargo_args(&strings(&["hdk", "--release"]), false),
        vec!["build", "--message-format=json", "--release"]
    );
    assert_eq!(cargo_args(&strings(&["-p", "x"]), true), vec!["clean", "-p", "x"]);
}

#[test]
fn configure_arguments() {
    assert_eq!(
        configure_args(&strings(&["-G", "Ninja"]), BuildProfile::Debug),
        vec!["..", "-G", "Ninja", "-DCMAKE_BUILD_TYPE=Debug"]
    );
    assert_eq!(native_build_args(), vec!["--build", "."]);
}

#[test]
fn build_directory_under_plugin_path() {
    assert_eq!(build_dir("/work/proj", "hdk", BuildProfile::Release), "/work/proj/hdk/build_release");
    assert_eq!(build_dir("/work/proj", "/abs/hdk", BuildProfile::Debug), "/abs/hdk/build_debug");
}

#[test]
fn cache_file_path() {
    assert_eq!(cache_path("/b", "rust/out_dir_", "hdkrs"), "/b/rust/out_dir_hdkrs.txt");
}

#[test]
fn substring_search() {
    assert!(contains_str("hdkrs 0.1.0 (path+file:///x)", "hdkrs"));
    assert!(contains_str("abc", ""));
    assert!(!contains_str("hdk", "hdkrs"));
    assert!(!contains_str("abc", "abd"));
    assert!(same_str("abc", "abc"));
    assert!(!same_str("abc", "ab"));
    assert!(is_space_char('\u{a0}'));
    assert!(!is_space_char('x'));
}

#[test]
fn install_root_override_comes_first() {
    let probes = vec![("/opt/hfs18.5".to_string(), true)];
    assert_eq!(select_install_root(Some("/my/hfs".to_string()), &probes), Some("/my/hfs".to_string()));
}

#[test]
fn install_root_first_existing_candidate() {
    let probes = vec![
        ("/opt/hfs18.5".to_string(), false),
        ("/opt/hfs18.0".to_string(), true),
        ("/opt/hfs17.5".to_string(), true),
    ];
    assert_eq!(select_install_root(None, &probes), Some("/opt/hfs18.0".to_string()));
    let none = vec![("/opt/hfs18.5".to_string(), false)];
    assert_eq!(select_install_root(None, &none), None);
    assert_eq!(default_install_candidates()[0], "/opt/hfs18.5");
    assert_eq!(default_install_candidates().len(), 4);
}
