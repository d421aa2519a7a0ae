use compiletest::{default_config, env_overrides, make_test, make_test_closure, make_test_name,
    test_opts, uses_android_gdb_port, Config, EarlyProps, Mode, ShouldPanic, TestPaths};

fn config_with_mode(mode: Mode) -> Config {
    let mut c = default_config("build".to_string(), "x86_64-unknown-linux-gnu".to_string());
    c.mode = mode;
    c
}

fn sample_paths() -> TestPaths {
    TestPaths {
        file: "tests/run-pass/foo/bar.rs".to_string(),
        base: "tests/run-pass".to_string(),
        relative_dir: "foo".to_string(),
    }
}

#[test]
fn test_name_has_mode_label_and_path() {
    let config = config_with_mode(Mode::RunPass);
    let name = make_test_name(&config, &sample_paths());
    assert_eq!(name, "run-pass/foo/bar.rs");
}

#[test]
fn test_name_with_empty_relative_dir() {
    let config = config_with_mode(Mode::Pretty);
    let paths = TestPaths {
        file: "tests/run-pass/bar.rs".to_string(),
        base: "tests/run-pass".to_string(),
        relative_dir: "".to_string(),
    };
    let name = make_test_name(&config, &paths);
    assert_eq!(name, "pretty/bar.rs");
}

#[test]
fn pretty_mode_never_expects_failure() {
    let config = config_with_mode(Mode::Pretty);
    let props = EarlyProps { ignore: false, should_fail: true };
    let t = make_test(&config, &sample_paths(), &props);
    assert_eq!(t.desc.should_panic, ShouldPanic::No);
}

#[test]
fn should_fail_header_expects_failure_elsewhere() {
    let config = config_with_mode(Mode::RunPass);
    let props = EarlyProps { ignore: false, should_fail: true };
    let t = make_test(&config, &sample_paths(), &props);
    assert_eq!(t.desc.should_panic, ShouldPanic::Yes);
}

#[test]
fn default_expectation_is_passing() {
    let config = config_with_mode(Mode::RunPass);
    let props = EarlyProps { ignore: false, should_fail: false };
    let t = make_test(&config, &sample_paths(), &props);
    assert_eq!(t.desc.should_panic, ShouldPanic::No);
    assert!(!t.desc.ignore);
    assert_eq!(t.desc.name, "run-pass/foo/bar.rs");
}

#[test]
fn ignore_header_is_carried_over() {
    let config = config_with_mode(Mode::CompileFail);
    let props = EarlyProps { ignore: true, should_fail: false };
    let t = make_test(&config, &sample_paths(), &props);
    assert!(t.desc.ignore);
}

#[test]
fn closure_captures_owned_copies() {
    let config = config_with_mode(Mode::DebugInfoGdb);
    let paths = sample_paths();
    let t = make_test_closure(&config, &paths);
    drop(config);
    drop(paths);
    assert_eq!(t.config.target, "x86_64-unknown-linux-gnu");
    assert_eq!(t.testpaths.file, "tests/run-pass/foo/bar.rs");
    assert_eq!(t.testpaths.relative_dir, "foo");
}

#[test]
fn android_target_forces_single_thread() {
    let mut config = config_with_mode(Mode::DebugInfoGdb);
    config.target = "arm-linux-androideabi".to_string();
    let overrides = env_overrides(&config);
    assert_eq!(
        overrides,
        vec![
            ("RUST_TEST_THREADS".to_string(), "1".to_string()),
            ("__COMPAT_LAYER".to_string(), "RunAsInvoker".to_string()),
        ]
    );
    assert!(uses_android_gdb_port(&config));
}

#[test]
fn lldb_mode_forces_single_task() {
    let config = config_with_mode(Mode::DebugInfoLldb);
    let overrides = env_overrides(&config);
    assert_eq!(
        overrides,
        vec![
            ("RUST_TEST_TASKS".to_string(), "1".to_string()),
            ("__COMPAT_LAYER".to_string(), "RunAsInvoker".to_string()),
        ]
    );
    assert!(!uses_android_gdb_port(&config));
}

#[test]
fn plain_run_sets_only_compat_layer() {
    let config = config_with_mode(Mode::RunPass);
    let overrides = env_overrides(&config);
    assert_eq!(
        overrides,
        vec![("__COMPAT_LAYER".to_string(), "RunAsInvoker".to_string())]
    );
}

#[test]
fn test_opts_mirror_the_config() {
    let mut config = config_with_mode(Mode::RunPass);
    config.filter = Some("borrowck".to_string());
    config.filter_exact = true;
    config.run_ignored = true;
    config.quiet = true;
    config.logfile = Some("out.log".to_string());
    let opts = test_opts(&config, None);
    assert_eq!(opts.filter, Some("borrowck".to_string()));
    assert!(opts.filter_exact);
    assert!(opts.run_ignored);
    assert!(opts.quiet);
    assert_eq!(opts.logfile, Some("out.log".to_string()));
    assert!(opts.run_tests);
    assert!(opts.bench_benchmarks);
    assert!(!opts.nocapture);
    assert_eq!(opts.test_threads, None);
    assert!(opts.skip.is_empty());
    assert!(!opts.list);
}

#[test]
fn nocapture_env_zero_means_captured() {
    let config = config_with_mode(Mode::RunPass);
    assert!(!test_opts(&config, Some("0".to_string())).nocapture);
    assert!(test_opts(&config, Some("1".to_string())).nocapture);
    assert!(test_opts(&config, Some("yes".to_string())).nocapture);
    assert!(!test_opts(&config, None).nocapture);
}

#[test]
fn default_config_starting_values() {
    let c = default_config("target/tmp".to_string(), "aarch64-apple-darwin".to_string());
    assert_eq!(c.mode, Mode::RunPass);
    assert_eq!(c.src_base, "tests/run-pass");
    assert_eq!(c.build_base, "target/tmp");
    assert_eq!(c.target, "aarch64-apple-darwin");
    assert_eq!(c.host, "(none)");
    assert_eq!(c.filter, None);
    assert!(!c.filter_exact);
    assert!(!c.run_ignored);
    assert!(!c.quiet);
    assert_eq!(c.logfile, None);
    assert_eq!(c.gdb_version, None);
    assert_eq!(c.lldb_version, None);
}

#[test]
fn mode_labels() {
    assert_eq!(Mode::CompileFail.label(), "compile-fail");
    assert_eq!(Mode::RunPass.label(), "run-pass");
    assert_eq!(Mode::Pretty.label(), "pretty");
    assert_eq!(Mode::DebugInfoGdb.label(), "debuginfo-gdb");
    assert_eq!(Mode::DebugInfoLldb.label(), "debuginfo-lldb");
    assert_eq!(Mode::RunMake.label(), "run-make");
}
