use concord_sidecar::paths::{
    app_data_dir, dec_digits, get_sidecar_log, join, parent_dir, resolve_interpreter,
    resolve_launch, resolve_script, sidecar_log_path,
};
use concord_sidecar::SupervisorError;

#[test]
fn parent_dir_walks_one_level_up() {
    assert_eq!(parent_dir("a/b/c").as_deref(), Some("a/b"));
    assert_eq!(parent_dir("a/b").as_deref(), Some("a"));
    assert_eq!(parent_dir("abc"), None);
    assert_eq!(parent_dir("/a"), None);
    assert_eq!(parent_dir(""), None);
}

#[test]
fn join_inserts_one_separator() {
    assert_eq!(join("a/b", "c.js"), "a/b/c.js");
}

#[test]
fn decimal_digits_render_exactly() {
    assert_eq!(dec_digits(0), "0");
    assert_eq!(dec_digits(7), "7");
    assert_eq!(dec_digits(1234), "1234");
    assert_eq!(dec_digits(u64::MAX), "18446744073709551615");
}

#[test]
fn data_dir_sits_under_the_platform_root() {
    assert_eq!(app_data_dir("C:/Users/u/AppData/Roaming"), "C:/Users/u/AppData/Roaming/Concord");
}

#[test]
fn log_path_carries_the_process_id() {
    assert_eq!(sidecar_log_path("d/Concord", 4321), "d/Concord/sidecar-4321.log");
}

#[test]
fn log_query_before_any_start_returns_empty_not_error() {
    let r = get_sidecar_log(None);
    assert_eq!(r.unwrap(), "");
}

#[test]
fn log_query_returns_the_file_text_when_present() {
    let r = get_sidecar_log(Some("worker said things\n".to_string()));
    assert_eq!(r.unwrap(), "worker said things\n");
}

#[test]
fn bundled_script_wins_and_runs_next_to_the_executable() {
    let (script, workdir) = resolve_script("app/bin", true, Some("ignored".to_string())).unwrap();
    assert_eq!(script, "app/bin/p2p-sidecar-bundle.js");
    assert_eq!(workdir, "app/bin");
}

#[test]
fn development_script_runs_from_the_project_root() {
    let (script, workdir) = resolve_script("proj/target/debug", false, Some("proj".to_string()))
        .unwrap();
    assert_eq!(script, "proj/scripts/p2p-sidecar.js");
    assert_eq!(workdir, "proj");
    assert_eq!(parent_dir(parent_dir(&script).unwrap().as_str()).as_deref(), Some("proj"));
}

#[test]
fn missing_script_names_both_strategies_and_the_start_path() {
    let err = resolve_script("app/bin", false, None).unwrap_err();
    match err {
        SupervisorError::ScriptNotFound(m) => assert_eq!(
            m,
            "Sidecar script not found. Searched for p2p-sidecar-bundle.js in app/bin and scripts/p2p-sidecar.js upward."
        ),
        other => panic!("unexpected error: {:?}", other),
    }
}

#[test]
fn bundled_interpreter_wins_over_the_search_path() {
    let node = resolve_interpreter("app/bin", true, Some("/usr/bin/node".to_string())).unwrap();
    assert_eq!(node, "app/bin/node.exe");
}

#[test]
fn search_path_interpreter_is_the_fallback() {
    let node = resolve_interpreter("app/bin", false, Some("/usr/bin/node".to_string())).unwrap();
    assert_eq!(node, "/usr/bin/node");
}

#[test]
fn missing_interpreter_is_its_own_error() {
    let err = resolve_interpreter("app/bin", false, None).unwrap_err();
    match err {
        SupervisorError::InterpreterNotFound(m) => assert_eq!(
            m,
            "Node.js runtime not found. The bundled node.exe is missing and Node.js is not on PATH."
        ),
        other => panic!("unexpected error: {:?}", other),
    }
}

#[test]
fn launch_resolution_composes_script_then_interpreter() {
    let spec = resolve_launch("app/bin", true, None, false, Some("/usr/bin/node".to_string()))
        .unwrap();
    assert_eq!(spec.interpreter, "/usr/bin/node");
    assert_eq!(spec.script, "app/bin/p2p-sidecar-bundle.js");
    assert_eq!(spec.working_dir, "app/bin");
    let err = resolve_launch("app/bin", false, None, true, None).unwrap_err();
    assert!(matches!(err, SupervisorError::ScriptNotFound(_)));
    let err = resolve_launch("app/bin", true, None, false, None).unwrap_err();
    assert!(matches!(err, SupervisorError::InterpreterNotFound(_)));
}
