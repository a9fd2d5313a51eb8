use handy::python_command::{
    add_python_candidate, embedded_python_paths, get_embedded_python_path, get_python_command,
    join_path, python_candidates, python_supports_qwen3, venv_python_path, NextProbe,
    ProbeRun, PythonCommandCache, PythonResolution,
};

fn strings(items: &[&str]) -> Vec<String> {
    items.iter().map(|s| s.to_string()).collect()
}

#[test]
fn add_candidate_skips_empty_and_repeated() {
    let mut list = Vec::new();
    add_python_candidate(&mut list, "python3".to_string());
    add_python_candidate(&mut list, String::new());
    add_python_candidate(&mut list, "python3".to_string());
    add_python_candidate(&mut list, "/usr/bin/python3".to_string());
    assert_eq!(list, strings(&["python3", "/usr/bin/python3"]));
}

#[test]
fn candidates_in_priority_order() {
    let list = python_candidates(
        Some("/work/.venv/bin/python3".to_string()),
        Some("/app/Resources/python/bin/python3".to_string()),
        Some("/usr/bin/python3".to_string()),
        Some(String::new()),
    );
    assert_eq!(
        list,
        strings(&[
            "/work/.venv/bin/python3",
            "/app/Resources/python/bin/python3",
            "/usr/bin/python3",
            "/opt/homebrew/bin/python3",
            "/usr/local/bin/python3",
            "python3",
        ])
    );
}

#[test]
fn candidates_without_configuration() {
    let list = python_candidates(None, None, None, None);
    assert_eq!(
        list,
        strings(&["/opt/homebrew/bin/python3", "/usr/local/bin/python3", "/usr/bin/python3", "python3"])
    );
}

#[test]
fn paths_join_with_one_separator() {
    assert_eq!(join_path("/work", ".venv/bin/python3"), "/work/.venv/bin/python3");
    assert_eq!(join_path("/work/", "x"), "/work/x");
    assert_eq!(join_path("", "x"), "x");
    assert_eq!(venv_python_path("/home/me"), "/home/me/.venv/bin/python3");
}

#[test]
fn embedded_places_in_order() {
    let paths = embedded_python_paths(
        Some("/App/Contents/Resources".to_string()),
        Some("/custom/python".to_string()),
    );
    assert_eq!(
        paths,
        strings(&[
            "/App/Contents/Resources/python/bin/python3",
            "/App/Contents/Resources/python/bin/python3.11",
            "/custom/python",
            "src-tauri/resources/python/bin/python3.11",
            "src-tauri/resources/python/bin/python3",
        ])
    );
    let none = embedded_python_paths(None, None);
    assert_eq!(
        none,
        strings(&["src-tauri/resources/python/bin/python3.11", "src-tauri/resources/python/bin/python3"])
    );
}

#[test]
fn first_existing_embedded_path() {
    let paths = strings(&["a", "b", "c"]);
    assert_eq!(get_embedded_python_path(&paths, &vec![false, true, true]), Some("b".to_string()));
    assert_eq!(get_embedded_python_path(&paths, &vec![false, false, false]), None);
    assert_eq!(get_embedded_python_path(&paths, &vec![false]), None);
}

#[test]
fn resolution_picks_first_supported() {
    let mut r = PythonResolution::new(strings(&["/missing/python3", "/bad/python3", "python3", "/later"]));
    match r.next_probe() {
        NextProbe::Probe { command, check_exists } => {
            assert_eq!(command, "/missing/python3");
            assert!(check_exists);
        }
        _ => panic!("expected a probe"),
    }
    r.skip_missing();
    match r.next_probe() {
        NextProbe::Probe { command, .. } => assert_eq!(command, "/bad/python3"),
        _ => panic!("expected a probe"),
    }
    r.record_probe(Err("No module named 'mlx'".to_string()));
    match r.next_probe() {
        NextProbe::Probe { command, check_exists } => {
            assert_eq!(command, "python3");
            assert!(!check_exists);
        }
        _ => panic!("expected a probe"),
    }
    r.record_probe(Ok(()));
    match r.next_probe() {
        NextProbe::Found(c) => assert_eq!(c, "python3"),
        _ => panic!("expected the interpreter"),
    }
    r.record_probe(Err("ignored".to_string()));
    match r.next_probe() {
        NextProbe::Found(c) => assert_eq!(c, "python3"),
        _ => panic!("a found interpreter stays found"),
    }
}

#[test]
fn resolution_reports_every_failure() {
    let mut r = PythonResolution::new(strings(&["/a/python3", "python3"]));
    r.record_probe(Err("spawn failed: not found".to_string()));
    r.record_probe(Err("exit code Some(1)".to_string()));
    match r.next_probe() {
        NextProbe::Exhausted(message) => assert_eq!(
            message,
            "No compatible Python found for Qwen3 (requires `mlx` and `mlx_audio.stt.load`). Attempts: /a/python3 => spawn failed: not found | python3 => exit code Some(1)"
        ),
        _ => panic!("expected exhaustion"),
    }
}

#[test]
fn resolution_with_no_candidates() {
    let r = PythonResolution::new(Vec::new());
    match r.next_probe() {
        NextProbe::Exhausted(message) => assert_eq!(
            message,
            "No compatible Python found for Qwen3 (requires `mlx` and `mlx_audio.stt.load`). Attempts: "
        ),
        _ => panic!("expected exhaustion"),
    }
}

#[test]
fn command_is_resolved_once_and_cached() {
    let mut cache = PythonCommandCache::new();
    let first = get_python_command(&mut cache, || Ok::<String, String>("/usr/bin/python3".to_string()));
    assert_eq!(first, Ok(("/usr/bin/python3".to_string(), Vec::new())));
    let second = get_python_command(&mut cache, || -> Result<String, String> {
        panic!("must not resolve again")
    });
    assert_eq!(second, Ok(("/usr/bin/python3".to_string(), Vec::new())));
}

#[test]
fn failed_resolution_is_not_cached() {
    let mut cache = PythonCommandCache::new();
    let first = get_python_command(&mut cache, || Err::<String, String>("none".to_string()));
    assert_eq!(first, Err("none".to_string()));
    let second = get_python_command(&mut cache, || Ok::<String, String>("python3".to_string()));
    assert_eq!(second, Ok(("python3".to_string(), Vec::new())));
}

#[test]
fn probe_reasons() {
    let ok = ProbeRun::Finished { success: true, stderr: "warn".to_string(), stdout: "ok\n".to_string(), exit_code: Some(0) };
    assert_eq!(python_supports_qwen3(ok), Ok(()));
    let err = ProbeRun::Finished { success: false, stderr: "  Traceback: boom \n".to_string(), stdout: "x".to_string(), exit_code: Some(1) };
    assert_eq!(python_supports_qwen3(err), Err("Traceback: boom".to_string()));
    let out = ProbeRun::Finished { success: false, stderr: " \n\t".to_string(), stdout: "\u{a0}partial\n".to_string(), exit_code: Some(1) };
    assert_eq!(python_supports_qwen3(out), Err("partial".to_string()));
    let code = ProbeRun::Finished { success: false, stderr: String::new(), stdout: String::new(), exit_code: Some(-9) };
    assert_eq!(python_supports_qwen3(code), Err("exit code Some(-9)".to_string()));
    let big = ProbeRun::Finished { success: false, stderr: String::new(), stdout: String::new(), exit_code: Some(i32::MIN) };
    assert_eq!(python_supports_qwen3(big), Err(format!("exit code {:?}", Some(i32::MIN))));
    let signal = ProbeRun::Finished { success: false, stderr: String::new(), stdout: String::new(), exit_code: None };
    assert_eq!(python_supports_qwen3(signal), Err("exit code None".to_string()));
    let spawn = ProbeRun::SpawnFailed("No such file or directory (os error 2)".to_string());
    assert_eq!(
        python_supports_qwen3(spawn),
        Err("spawn failed: No such file or directory (os error 2)".to_string())
    );
}

#[test]
fn text_rules_on_non_ascii() {
    assert_eq!(join_path("/données", "x"), "/données/x");
    assert_eq!(join_path("/données/", "x"), "/données/x");
    let err = ProbeRun::Finished {
        success: false,
        stderr: "\u{3000} ümlaut error\u{2029}".to_string(),
        stdout: String::new(),
        exit_code: Some(1),
    };
    assert_eq!(python_supports_qwen3(err), Err("ümlaut error".to_string()));
    let mut r = PythonResolution::new(vec!["ü/python".to_string(), "pythön".to_string()]);
    match r.next_probe() {
        NextProbe::Probe { check_exists, .. } => assert!(check_exists),
        _ => panic!("expected a probe"),
    }
    r.skip_missing();
    match r.next_probe() {
        NextProbe::Probe { check_exists, .. } => assert!(!check_exists),
        _ => panic!("expected a probe"),
    }
}
