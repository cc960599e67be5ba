use cargo_dev_install::cli::normalize_args;
use cargo_dev_install::cli::CliArgs;
use cargo_dev_install::make_plan;
use cargo_dev_install::paths::parent_dir;
use cargo_dev_install::paths::path_join;
use cargo_dev_install::resolve_target;
use cargo_dev_install::EnvSnapshot;
use cargo_dev_install::InstallError;
use cargo_dev_install::Resolution;

fn default_env(home: &str, path_var: &str) -> EnvSnapshot {
    EnvSnapshot {
        home: Some(home.to_string()),
        xdg_bin_home: None,
        path: Some(path_var.to_string()),
    }
}

#[test]
fn make_plan_single_bin() {
    let args = CliArgs { bin: None, force: false };
    let env = default_env("/work/demo", "/usr/bin");
    let root = "/work/demo".to_string();
    let bins = vec!["demo".to_string()];

    let plan = make_plan(&args, &env, &root, &bins, None).expect("plan");
    assert_eq!(plan.bin_name, "demo");
    assert_eq!(plan.manifest_path, "/work/demo/Cargo.toml");
    assert_eq!(plan.wrapper_path, "/work/demo/.local/bin/demo");
    assert!(plan.wrapper_contents.contains("REPO=\""));
}

#[test]
fn make_plan_respects_bin_flag() {
    let args = CliArgs { bin: Some("beta".to_string()), force: false };
    let env = default_env("/work/demo", "/usr/bin");
    let root = "/work/demo".to_string();
    let bins = vec!["alpha".to_string(), "beta".to_string()];

    let plan = make_plan(&args, &env, &root, &bins, None).expect("plan");
    assert_eq!(plan.bin_name, "beta");
}

#[test]
fn make_plan_warns_when_path_missing() {
    let args = CliArgs { bin: None, force: false };
    let env = default_env("/work/demo", "/usr/bin");
    let root = "/work/demo".to_string();
    let bins = vec!["demo".to_string()];

    let plan = make_plan(&args, &env, &root, &bins, None).expect("plan");
    assert!(plan.warn_path_missing);
}

#[test]
fn make_plan_sees_install_dir_on_path() {
    let args = CliArgs { bin: None, force: false };
    let env = default_env("/home/demo", "/home/demo/.local/bin:/usr/bin");
    let root = "/work/demo".to_string();
    let bins = vec!["demo".to_string()];

    let plan = make_plan(&args, &env, &root, &bins, None).expect("plan");
    assert!(!plan.warn_path_missing);
    assert_eq!(plan.install_dir, "/home/demo/.local/bin");
}

#[test]
fn make_plan_fails_without_home_or_override() {
    let args = CliArgs { bin: None, force: false };
    let env = EnvSnapshot { home: None, xdg_bin_home: None, path: Some("/usr/bin".to_string()) };
    let root = "/work/demo".to_string();
    let bins = vec!["demo".to_string()];

    let err = make_plan(&args, &env, &root, &bins, None).expect_err("expected error");
    assert!(matches!(err, InstallError::HomeUndiscoverable));
}

#[test]
fn make_plan_rejects_empty_target_list() {
    let args = CliArgs { bin: None, force: false };
    let env = default_env("/work/demo", "/usr/bin");
    let root = "/work/demo".to_string();
    let bins = Vec::<String>::new();

    let err = make_plan(&args, &env, &root, &bins, None).expect_err("expected error");
    assert!(matches!(err, InstallError::NoTargets));
}

#[test]
fn make_plan_rejects_unknown_requested_target() {
    let args = CliArgs { bin: Some("gamma".to_string()), force: false };
    let env = default_env("/work/demo", "/usr/bin");
    let root = "/work/demo".to_string();
    let bins = vec!["alpha".to_string(), "beta".to_string()];

    let err = make_plan(&args, &env, &root, &bins, None).expect_err("expected error");
    match err {
        InstallError::UnknownTarget(name) => assert_eq!(name, "gamma"),
        other => panic!("unexpected error: {:?}", other),
    }
}

#[test]
fn make_plan_is_ambiguous_without_request_or_selection() {
    let args = CliArgs { bin: None, force: false };
    let env = default_env("/work/demo", "/usr/bin");
    let root = "/work/demo".to_string();
    let bins = vec!["alpha".to_string(), "beta".to_string()];

    let err = make_plan(&args, &env, &root, &bins, None).expect_err("expected error");
    assert!(matches!(err, InstallError::AmbiguousTargets));
}

#[test]
fn make_plan_uses_interactive_selection_outcome() {
    let args = CliArgs { bin: None, force: false };
    let env = default_env("/work/demo", "/usr/bin");
    let root = "/work/demo".to_string();
    let bins = vec!["alpha".to_string(), "beta".to_string()];
    let selected = "beta".to_string();

    let plan = make_plan(&args, &env, &root, &bins, Some(&selected)).expect("plan");
    assert_eq!(plan.bin_name, "beta");
}

#[test]
fn make_plan_prefers_override_directory() {
    let args = CliArgs { bin: None, force: false };
    let env = EnvSnapshot {
        home: Some("/home/demo".to_string()),
        xdg_bin_home: Some("/custom/bin".to_string()),
        path: Some("/usr/bin".to_string()),
    };
    let root = "/work/demo".to_string();
    let bins = vec!["demo".to_string()];

    let plan = make_plan(&args, &env, &root, &bins, None).expect("plan");
    assert_eq!(plan.install_dir, "/custom/bin");
    assert_eq!(plan.wrapper_path, "/custom/bin/demo");
}

#[test]
fn resolve_single_candidate_ignores_conflicting_request() {
    let bins = vec!["demo".to_string()];
    let requested = Some("other".to_string());
    let r = resolve_target(&bins, &requested, false).expect("resolve");
    assert_eq!(r, Resolution::Chosen("demo".to_string()));
}

#[test]
fn resolve_honors_valid_request_among_many() {
    let bins = vec!["alpha".to_string(), "beta".to_string()];
    let requested = Some("beta".to_string());
    let r = resolve_target(&bins, &requested, false).expect("resolve");
    assert_eq!(r, Resolution::Chosen("beta".to_string()));
}

#[test]
fn resolve_rejects_invalid_request_among_many() {
    let bins = vec!["alpha".to_string(), "beta".to_string()];
    let requested = Some("gamma".to_string());
    let err = resolve_target(&bins, &requested, false).expect_err("expected error");
    match err {
        InstallError::UnknownTarget(name) => assert_eq!(name, "gamma"),
        other => panic!("unexpected error: {:?}", other),
    }
}

#[test]
fn resolve_defers_to_selection_only_when_interactive() {
    let bins = vec!["alpha".to_string(), "beta".to_string()];
    let r = resolve_target(&bins, &None, true).expect("resolve");
    assert_eq!(r, Resolution::NeedsSelection);
    let err = resolve_target(&bins, &None, false).expect_err("expected error");
    assert!(matches!(err, InstallError::AmbiguousTargets));
}

#[test]
fn normalize_args_strips_subcommand_token() {
    let argv = vec!["cargo".to_string(), "dev-install".to_string(), "--force".to_string()];
    assert_eq!(normalize_args(&argv), vec!["cargo".to_string(), "--force".to_string()]);
}

#[test]
fn normalize_args_keeps_direct_invocations() {
    let argv = vec!["cargo-dev-install".to_string(), "--force".to_string()];
    assert_eq!(normalize_args(&argv), argv);
}

#[test]
fn path_join_inserts_one_separator() {
    assert_eq!(path_join("/home/demo", ".local/bin"), "/home/demo/.local/bin");
    assert_eq!(path_join("/", "x"), "/x");
    assert_eq!(path_join("/a/", "b"), "/a/b");
}

#[test]
fn parent_dir_walks_one_level_up() {
    assert_eq!(parent_dir("/a/b/c"), "/a/b");
    assert_eq!(parent_dir("/a"), "/");
}
