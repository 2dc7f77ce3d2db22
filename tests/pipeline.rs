use cargo_hdk::cache::latest_out_dirs;
use cargo_hdk::capture::{check_nesting, collect_records};
use cargo_hdk::pipeline::{Action, BuildError, Options, Pipeline, Reply, RootPackage, Stage};

fn strings(v: &[&str]) -> Vec<String> {
    v.iter().map(|s| s.to_string()).collect()
}

fn options(build_args: &[&str], hdk_only: bool, clean: bool, cmake: &str) -> Options {
    Options {
        build_args: strings(build_args),
        hdk_only,
        clean,
        cmake: cmake.to_string(),
        hdk_path: "./hdk".to_string(),
        out_dir_file_prefix: "rust/out_dir_".to_string(),
        deps: strings(&["hdkrs"]),
    }
}

fn root() -> RootPackage {
    RootPackage {
        name: "plugin".to_string(),
        id: "plugin 0.1.0 (path+file:///work/plugin)".to_string(),
        dir: "/work/plugin".to_string(),
    }
}

const BUILD_DIR: &str = "/work/plugin/./hdk/build_debug";

fn exited(success: bool, stdout: &str) -> Reply {
    Reply::Exited { success, stdout: stdout.as_bytes().to_vec() }
}

fn script_line(id: &str, out_dir: &str) -> String {
    format!(
        "{{\"reason\":\"build-script-executed\",\"package_id\":\"{}\",\"linked_libs\":[],\"linked_paths\":[],\"cfgs\":[],\"env\":[],\"out_dir\":\"{}\"}}\n",
        id, out_dir
    )
}

fn set_dir(p: &str) -> Action {
    Action::SetCurrentDir { path: p.to_string() }
}

#[test]
fn end_to_end_debug_build() {
    let mut p = Pipeline::new(&options(&[], false, false, "[-G Ninja]"), &root(), "/home/me");
    assert_eq!(p.step(Reply::Done), Action::CreateDir { path: BUILD_DIR.to_string() });
    assert!(std::path::Path::new(BUILD_DIR) == std::path::Path::new("/work/plugin/hdk/build_debug"));
    assert_eq!(
        p.step(Reply::Done),
        Action::RunCargo { args: strings(&["build", "--message-format=json"]) }
    );
    assert_eq!(p.step(exited(true, "")), set_dir(BUILD_DIR));
    assert_eq!(
        p.step(Reply::Done),
        Action::RunCmake { args: strings(&["..", "-G", "Ninja", "-DCMAKE_BUILD_TYPE=Debug"]) }
    );
    assert_eq!(p.step(exited(true, "")), Action::RunCmake { args: strings(&["--build", "."]) });
    assert_eq!(p.step(exited(true, "")), set_dir("/home/me"));
    assert_eq!(p.step(Reply::Done), Action::Finish { result: Ok(()) });
    assert_eq!(p.stage(), Stage::Finished { result: Ok(()) });
    assert_eq!(p.step(Reply::Done), Action::Finish { result: Ok(()) });
}

#[test]
fn existing_build_directory_is_reused() {
    let mut p = Pipeline::new(&options(&["--release"], true, false, ""), &root(), "/home/me");
    assert_eq!(
        p.step(Reply::Done),
        Action::CreateDir { path: "/work/plugin/./hdk/build_release".to_string() }
    );
    assert_eq!(p.step(Reply::AlreadyDone), set_dir("/work/plugin/./hdk/build_release"));
}

#[test]
fn build_directory_creation_failure() {
    let mut p = Pipeline::new(&options(&[], true, false, ""), &root(), "/home/me");
    p.step(Reply::Done);
    assert_eq!(p.step(Reply::Failed), Action::Finish { result: Err(BuildError::BuildDirCreateFailed) });
}

#[test]
fn output_directories_are_cached() {
    let mut p = Pipeline::new(&options(&["hdk"], false, false, ""), &root(), "/home/me");
    p.step(Reply::Done);
    p.step(Reply::Done);
    let out = format!(
        "{}{}{}",
        script_line("plugin 0.1.0 (path+file:///work/plugin)", "/t/plugin/out"),
        "{\"reason\":\"build-finished\",\"success\":true}\n",
        script_line("hdkrs 0.3.0 (registry+https://x)", "/t/hdkrs/out"),
    );
    assert_eq!(
        p.step(exited(true, &out)),
        Action::CreateParentDirs { path: format!("{}/rust/out_dir_plugin.txt", BUILD_DIR) }
    );
    assert_eq!(
        p.step(Reply::Done),
        Action::WriteFile {
            path: format!("{}/rust/out_dir_plugin.txt", BUILD_DIR),
            contents: "/t/plugin/out".to_string()
        }
    );
    assert_eq!(
        p.step(Reply::Done),
        Action::CreateParentDirs { path: format!("{}/rust/out_dir_hdkrs.txt", BUILD_DIR) }
    );
    assert_eq!(
        p.step(Reply::AlreadyDone),
        Action::WriteFile {
            path: format!("{}/rust/out_dir_hdkrs.txt", BUILD_DIR),
            contents: "/t/hdkrs/out".to_string()
        }
    );
    assert_eq!(p.step(Reply::Done), set_dir(BUILD_DIR));
}

#[test]
fn later_output_directory_overwrites_earlier() {
    let mut p = Pipeline::new(&options(&[], false, false, ""), &root(), "/home/me");
    p.step(Reply::Done);
    p.step(Reply::Done);
    let out = format!(
        "{}{}",
        script_line("hdkrs 0.2.0 (registry+https://x)", "/t/old"),
        script_line("hdkrs 0.3.0 (registry+https://x)", "/t/new"),
    );
    let path = format!("{}/rust/out_dir_hdkrs.txt", BUILD_DIR);
    assert_eq!(p.step(exited(true, &out)), Action::CreateParentDirs { path: path.clone() });
    assert_eq!(p.step(Reply::Done), Action::WriteFile { path, contents: "/t/new".to_string() });
    assert_eq!(p.step(Reply::Done), set_dir(BUILD_DIR));
}

#[test]
fn unreadable_event_stream_is_fatal() {
    let mut p = Pipeline::new(&options(&[], false, false, ""), &root(), "/home/me");
    p.step(Reply::Done);
    p.step(Reply::Done);
    let a = p.step(Reply::Exited { success: true, stdout: vec![0xff, 0xfe, b'\n'] });
    assert_eq!(a, Action::Finish { result: Err(BuildError::EventStreamInvalid) });
}

#[test]
fn failed_cargo_build_is_fatal() {
    let mut p = Pipeline::new(&options(&[], false, false, ""), &root(), "/home/me");
    p.step(Reply::Done);
    p.step(Reply::Done);
    assert_eq!(p.step(exited(false, "")), Action::Finish { result: Err(BuildError::ManagedBuildFailed) });
}

#[test]
fn cache_write_failures_are_fatal() {
    let out = script_line("hdkrs 0.3.0 (registry+https://x)", "/t/new");
    let mut p = Pipeline::new(&options(&[], false, false, ""), &root(), "/home/me");
    p.step(Reply::Done);
    p.step(Reply::Done);
    p.step(exited(true, &out));
    assert_eq!(p.step(Reply::Failed), Action::Finish { result: Err(BuildError::CacheDirCreateFailed) });
    let mut q = Pipeline::new(&options(&[], false, false, ""), &root(), "/home/me");
    q.step(Reply::Done);
    q.step(Reply::Done);
    q.step(exited(true, &out));
    q.step(Reply::Done);
    assert_eq!(q.step(Reply::Failed), Action::Finish { result: Err(BuildError::CacheWriteFailed) });
}

#[test]
fn clean_removes_build_directory_then_cleans_cargo() {
    let mut p = Pipeline::new(&options(&["hdk", "-p", "x"], false, true, ""), &root(), "/home/me");
    assert_eq!(p.step(Reply::Done), Action::RemoveDir { path: BUILD_DIR.to_string() });
    assert_eq!(p.step(Reply::Done), Action::RunCargo { args: strings(&["clean", "-p", "x"]) });
    assert_eq!(p.step(exited(true, "")), Action::Finish { result: Ok(()) });
}

#[test]
fn clean_twice_does_not_fail() {
    for _ in 0..2 {
        let mut p = Pipeline::new(&options(&[], true, true, ""), &root(), "/home/me");
        p.step(Reply::Done);
        assert_eq!(p.step(Reply::AlreadyDone), Action::Finish { result: Ok(()) });
    }
    let mut p = Pipeline::new(&options(&[], false, true, ""), &root(), "/home/me");
    p.step(Reply::Done);
    assert_eq!(p.step(Reply::AlreadyDone), Action::RunCargo { args: strings(&["clean"]) });
}

#[test]
fn clean_failures() {
    let mut p = Pipeline::new(&options(&[], true, true, ""), &root(), "/home/me");
    p.step(Reply::Done);
    assert_eq!(p.step(Reply::Failed), Action::Finish { result: Err(BuildError::CleanFailed) });
    let mut q = Pipeline::new(&options(&[], false, true, ""), &root(), "/home/me");
    q.step(Reply::Done);
    q.step(Reply::Done);
    assert_eq!(q.step(exited(false, "")), Action::Finish { result: Err(BuildError::ManagedCleanFailed) });
}

#[test]
fn working_directory_restored_after_configure_failure() {
    let mut p = Pipeline::new(&options(&[], true, false, ""), &root(), "/home/me");
    p.step(Reply::Done);
    assert_eq!(p.step(Reply::Done), set_dir(BUILD_DIR));
    p.step(Reply::Done);
    assert_eq!(p.step(exited(false, "")), set_dir("/home/me"));
    assert_eq!(p.step(Reply::Done), Action::Finish { result: Err(BuildError::ConfigureFailed) });
}

#[test]
fn working_directory_restored_after_native_build_failure() {
    let mut p = Pipeline::new(&options(&[], true, false, ""), &root(), "/home/me");
    p.step(Reply::Done);
    p.step(Reply::Done);
    p.step(Reply::Done);
    p.step(exited(true, ""));
    assert_eq!(p.step(exited(false, "")), set_dir("/home/me"));
    assert_eq!(p.step(Reply::Done), Action::Finish { result: Err(BuildError::NativeBuildFailed) });
}

#[test]
fn enter_and_restore_failures() {
    let mut p = Pipeline::new(&options(&[], true, false, ""), &root(), "/home/me");
    p.step(Reply::Done);
    p.step(Reply::Done);
    assert_eq!(p.step(Reply::Failed), Action::Finish { result: Err(BuildError::EnterDirFailed) });
    let mut q = Pipeline::new(&options(&[], true, false, ""), &root(), "/home/me");
    q.step(Reply::Done);
    q.step(Reply::Done);
    q.step(Reply::Done);
    q.step(exited(true, ""));
    q.step(exited(true, ""));
    assert_eq!(q.step(Reply::Failed), Action::Finish { result: Err(BuildError::DirectoryRestoreFailed) });
}

#[test]
fn records_follow_stream_order() {
    let events = vec![
        Some(("a 1.0 (x)".to_string(), "/o/a".to_string())),
        None,
        Some(("root 0.1 (y)".to_string(), "/o/root".to_string())),
        Some(("hdkrs-sys hdkrs 1 (z)".to_string(), "/o/z".to_string())),
    ];
    let recs = collect_records(&events, "root 0.1 (y)", "root", &strings(&["hdkrs", "sys"]));
    assert_eq!(
        recs,
        vec![
            ("root".to_string(), "/o/root".to_string()),
            ("hdkrs".to_string(), "/o/z".to_string()),
            ("sys".to_string(), "/o/z".to_string()),
        ]
    );
}

#[test]
fn latest_record_per_name() {
    let recs = vec![
        ("a".to_string(), "1".to_string()),
        ("b".to_string(), "2".to_string()),
        ("a".to_string(), "3".to_string()),
    ];
    assert_eq!(
        latest_out_dirs(&recs),
        vec![("a".to_string(), "3".to_string()), ("b".to_string(), "2".to_string())]
    );
}

fn cargo_reply(stdout: Vec<u8>) -> Action {
    let mut p = Pipeline::new(&options(&[], false, false, ""), &root(), "/home/me");
    p.step(Reply::Done);
    p.step(Reply::Done);
    p.step(Reply::Exited { success: true, stdout })
}

#[test]
fn line_that_is_not_a_cargo_message_is_fatal() {
    let out = format!("{}not json at all\n", script_line("hdkrs 0.3.0 (registry+https://x)", "/t/new"));
    assert_eq!(
        cargo_reply(out.into_bytes()),
        Action::Finish { result: Err(BuildError::EventStreamInvalid) }
    );
}

#[test]
fn deeply_nested_line_is_refused_before_parsing() {
    let mut out = "[".repeat(50_000);
    out.push('\n');
    assert_eq!(
        cargo_reply(out.into_bytes()),
        Action::Finish { result: Err(BuildError::EventStreamInvalid) }
    );
}

#[test]
fn nesting_bound() {
    let deep = "[".repeat(128);
    assert!(check_nesting(&deep.as_bytes().to_vec()));
    let deeper = "[".repeat(129);
    assert!(!check_nesting(&deeper.as_bytes().to_vec()));
    let lines = format!("{}\n{}", "[".repeat(100), "{".repeat(100));
    assert!(check_nesting(&lines.into_bytes()));
    let balanced = "[]".repeat(1000);
    assert!(check_nesting(&balanced.into_bytes()));
    let quoted = format!("\"{}\"", "[".repeat(1000));
    assert!(check_nesting(&quoted.into_bytes()));
    let escaped = format!("\"\\\"{}", "[".repeat(1000));
    assert!(check_nesting(&escaped.into_bytes()));
    let closed = format!("\"\\\\\"{}", "[".repeat(1000));
    assert!(!check_nesting(&closed.into_bytes()));
}
