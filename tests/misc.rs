use mide_core::{
    decimal_string, environment_probes, gh_gist_create_args, gh_pr_merge_args, gh_pr_review_args,
    gh_repo_create_args, gh_result, resolve_environment, EnvKind, Environment, ProcessOutput,
    Registry, RegistryError,
};

#[test]
fn registry_insert_lookup_remove() {
    let mut r: Registry<u32> = Registry::new();
    assert_eq!(r.register("a".to_string(), 1), Ok(()));
    assert_eq!(r.register("a".to_string(), 2), Err(RegistryError::AlreadyExists));
    assert_eq!(r.lookup("a"), Some(&1));
    assert!(r.contains("a"));
    assert_eq!(r.remove("a"), Some(1));
    assert_eq!(r.remove("a"), None);
    assert_eq!(r.lookup("a"), None);
}

#[test]
fn decimal_strings() {
    assert_eq!(decimal_string(0), "0");
    assert_eq!(decimal_string(7), "7");
    assert_eq!(decimal_string(1050), "1050");
    assert_eq!(decimal_string(usize::MAX), usize::MAX.to_string());
}

#[test]
fn gh_arguments() {
    assert_eq!(
        gh_repo_create_args("demo", "a demo", true),
        vec!["repo", "create", "demo", "--description", "a demo", "--public"]
    );
    assert_eq!(gh_repo_create_args("demo", "d", false)[5], "--private");
    let files = vec!["a.txt".to_string(), "b.txt".to_string()];
    assert_eq!(
        gh_gist_create_args(&files, "notes", true),
        vec!["gist", "create", "a.txt", "b.txt", "--desc", "notes", "--public"]
    );
    assert_eq!(gh_gist_create_args(&Vec::new(), "n", false), vec!["gist", "create", "--desc", "n"]);
    assert_eq!(gh_pr_review_args("7", "approve", "looks fine"), vec!["pr", "review", "7", "--approve", "--body", "looks fine"]);
    assert_eq!(gh_pr_merge_args("7", "squash"), vec!["pr", "merge", "7", "--squash"]);
}

#[test]
fn gh_results() {
    assert_eq!(
        gh_result(Err("not found".to_string())),
        Err("Failed to execute gh command: not found".to_string())
    );
    let out = ProcessOutput { success: true, stdout: b"{}".to_vec(), stderr: Vec::new() };
    assert_eq!(gh_result(Ok(out)), Ok("{}".to_string()));
}

#[test]
fn environment_probe_list() {
    let probes = environment_probes();
    let entries: Vec<&str> = probes.iter().map(|p| p.entry.as_str()).collect();
    assert_eq!(entries, vec![".venv", "venv", "env", "environment.yml", "poetry.lock", "Pipfile"]);
    assert_eq!(probes[0].kind, EnvKind::Venv);
    assert!(probes[0].locate.is_none());
    let poetry = probes[4].locate.as_ref().unwrap();
    assert_eq!(poetry.program, "poetry");
    assert_eq!(poetry.args, vec!["env", "info", "--path"]);
    assert_eq!(probes[5].locate.as_ref().unwrap().args, vec!["--venv"]);
}

#[test]
fn environments_resolve() {
    assert_eq!(
        resolve_environment(EnvKind::Venv, "/p/.venv".to_string(), None),
        Some(Environment { path: "/p/.venv".to_string(), kind: EnvKind::Venv })
    );
    assert_eq!(
        resolve_environment(EnvKind::Poetry, "/p/poetry.lock".to_string(), Some(Ok("  /cache/venv-x\n".to_string()))),
        Some(Environment { path: "/cache/venv-x".to_string(), kind: EnvKind::Poetry })
    );
    assert_eq!(resolve_environment(EnvKind::Pipenv, "/p/Pipfile".to_string(), Some(Ok(" \n".to_string()))), None);
    assert_eq!(resolve_environment(EnvKind::Pipenv, "/p/Pipfile".to_string(), Some(Err("no".to_string()))), None);
    assert_eq!(resolve_environment(EnvKind::Pipenv, "/p/Pipfile".to_string(), None), None);
}
