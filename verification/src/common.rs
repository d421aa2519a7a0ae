//! Configuration and the test-suite data model: the testing mode, the
//! harness configuration, discovered test paths, early header properties,
//! descriptors, deferred execution values, and runner options.

use vstd::prelude::*;
use crate::paths::has_substr;

verus! {

/// The closed set of testing strategies. A mode drives the test-name
/// prefix, whether a directory or a file is the unit of discovery, and
/// whether a test may ever be expected to fail.
#[derive(Clone, Copy, PartialEq, Eq, Structural, Debug)]
pub enum Mode {
    CompileFail,
    RunPass,
    Pretty,
    DebugInfoGdb,
    DebugInfoLldb,
    RunMake,
}

impl Mode {
    /// The label that prefixes every test name built under this mode.
    pub open spec fn spec_label(self) -> Seq<char> {
        match self {
            Mode::CompileFail => "compile-fail"@,
            Mode::RunPass => "run-pass"@,
            Mode::Pretty => "pretty"@,
            Mode::DebugInfoGdb => "debuginfo-gdb"@,
            Mode::DebugInfoLldb => "debuginfo-lldb"@,
            Mode::RunMake => "run-make"@,
        }
    }

    pub fn label(&self) -> (r: String)
        ensures
            r@ == self.spec_label(),
    {
        match self {
            Mode::CompileFail => "compile-fail".to_owned(),
            Mode::RunPass => "run-pass".to_owned(),
            Mode::Pretty => "pretty".to_owned(),
            Mode::DebugInfoGdb => "debuginfo-gdb".to_owned(),
            Mode::DebugInfoLldb => "debuginfo-lldb".to_owned(),
            Mode::RunMake => "run-make".to_owned(),
        }
    }
}

/// The harness configuration: where tests come from, where build output
/// goes, the active mode, and the runner-facing switches.
pub struct Config {
    pub mode: Mode,
    pub src_base: String,
    pub build_base: String,
    pub target: String,
    pub host: String,
    pub filter: Option<String>,
    pub filter_exact: bool,
    pub run_ignored: bool,
    pub quiet: bool,
    pub logfile: Option<String>,
    pub gdb_version: Option<String>,
    pub lldb_version: Option<String>,
}

fn clone_opt_string(o: &Option<String>) -> (r: Option<String>)
    ensures
        r == *o,
{
    match o {
        Option::Some(s) => Option::Some(s.clone()),
        Option::None => Option::None,
    }
}

impl Clone for Config {
    fn clone(&self) -> (r: Self)
        ensures
            r == *self,
    {
        Config {
            mode: self.mode,
            src_base: self.src_base.clone(),
            build_base: self.build_base.clone(),
            target: self.target.clone(),
            host: self.host.clone(),
            filter: clone_opt_string(&self.filter),
            filter_exact: self.filter_exact,
            run_ignored: self.run_ignored,
            quiet: self.quiet,
            logfile: clone_opt_string(&self.logfile),
            gdb_version: clone_opt_string(&self.gdb_version),
            lldb_version: clone_opt_string(&self.lldb_version),
        }
    }
}

/// One discovered test artifact: the file (or, in directory-level mode,
/// the directory), the source root it came from, and the directory path
/// relative to that root.
pub struct TestPaths {
    pub file: String,
    pub base: String,
    pub relative_dir: String,
}

/// The mathematical value of a `TestPaths`.
pub ghost struct TestPathsView {
    pub file: Seq<char>,
    pub base: Seq<char>,
    pub relative_dir: Seq<char>,
}

impl View for TestPaths {
    type V = TestPathsView;

    open spec fn view(&self) -> TestPathsView {
        TestPathsView { file: self.file@, base: self.base@, relative_dir: self.relative_dir@ }
    }
}

impl DeepView for TestPaths {
    type V = TestPathsView;

    open spec fn deep_view(&self) -> TestPathsView {
        self.view()
    }
}

impl Clone for TestPaths {
    fn clone(&self) -> (r: Self)
        ensures
            r == *self,
    {
        TestPaths {
            file: self.file.clone(),
            base: self.base.clone(),
            relative_dir: self.relative_dir.clone(),
        }
    }
}

/// The two header directives consumed when a descriptor is assembled,
/// as the external early-properties scanner reports them.
#[derive(Clone, Copy, PartialEq, Eq, Structural, Debug)]
pub struct EarlyProps {
    pub ignore: bool,
    pub should_fail: bool,
}

/// Whether a test is expected to fail.
#[derive(Clone, Copy, PartialEq, Eq, Structural, Debug)]
pub enum ShouldPanic {
    No,
    Yes,
}

/// What the external runner reads about one test: its stable name,
/// whether it is skipped, and its expected outcome.
pub struct TestDesc {
    pub name: String,
    pub ignore: bool,
    pub should_panic: ShouldPanic,
}

/// A deferred execution unit: owned copies of the configuration and the
/// test's paths, taken when the unit was built, handed to the external
/// execution engine when the runner invokes the test.
pub struct TestFn {
    pub config: Config,
    pub testpaths: TestPaths,
}

/// A descriptor together with its deferred execution unit.
pub struct TestDescAndFn {
    pub desc: TestDesc,
    pub testfn: TestFn,
}

/// The options handed to the external runner.
pub struct TestOpts {
    pub filter: Option<String>,
    pub filter_exact: bool,
    pub run_ignored: bool,
    pub quiet: bool,
    pub logfile: Option<String>,
    pub run_tests: bool,
    pub bench_benchmarks: bool,
    pub nocapture: bool,
    pub test_threads: Option<usize>,
    pub skip: Vec<String>,
    pub list: bool,
}

/// A configuration with every switch at its ordinary starting value.
/// The build root and the target identifier vary by machine, so the
/// caller supplies them.
pub fn default_config(build_base: String, target: String) -> (c: Config)
    ensures
        c.mode == Mode::RunPass,
        c.src_base@ == "tests/run-pass"@,
        c.build_base@ == build_base@,
        c.target@ == target@,
        c.host@ == "(none)"@,
        c.filter is None,
        !c.filter_exact,
        !c.run_ignored,
        !c.quiet,
        c.logfile is None,
        c.gdb_version is None,
        c.lldb_version is None,
{
    Config {
        mode: Mode::RunPass,
        src_base: "tests/run-pass".to_owned(),
        build_base,
        target,
        host: "(none)".to_owned(),
        filter: Option::None,
        filter_exact: false,
        run_ignored: false,
        quiet: false,
        logfile: Option::None,
        gdb_version: Option::None,
        lldb_version: Option::None,
    }
}

/// The runner options that a configuration asks for. The runner also
/// honours the capture toggle from its environment; the caller hands in
/// that environment value, and any value other than `"0"` switches
/// capture off.
pub fn test_opts(config: &Config, nocapture_env: Option<String>) -> (o: TestOpts)
    ensures
        o.filter == config.filter,
        o.filter_exact == config.filter_exact,
        o.run_ignored == config.run_ignored,
        o.quiet == config.quiet,
        o.logfile == config.logfile,
        o.run_tests,
        o.bench_benchmarks,
        o.nocapture == match nocapture_env {
            Option::Some(v) => v@ != "0"@,
            Option::None => false,
        },
        o.test_threads is None,
        o.skip@.len() == 0,
        !o.list,
{
    let nocapture = match &nocapture_env {
        Option::Some(v) => !crate::paths::str_eq(v.as_str(), "0"),
        Option::None => false,
    };
    TestOpts {
        filter: clone_opt_string(&config.filter),
        filter_exact: config.filter_exact,
        run_ignored: config.run_ignored,
        quiet: config.quiet,
        logfile: clone_opt_string(&config.logfile),
        run_tests: true,
        bench_benchmarks: true,
        nocapture,
        test_threads: Option::None,
        skip: Vec::new(),
        list: false,
    }
}

/// The process-wide overrides owed before the runner starts: remote
/// debugging on an Android target and some LLDB builds both need the
/// runner held to one in-flight test, and the compatibility layer is
/// always pinned.
pub open spec fn spec_env_overrides(target: Seq<char>, mode: Mode) -> Seq<(Seq<char>, Seq<char>)> {
    (if has_substr(target, "android"@) {
        seq![("RUST_TEST_THREADS"@, "1"@)]
    } else {
        Seq::<(Seq<char>, Seq<char>)>::empty()
    }) + (if mode == Mode::DebugInfoLldb {
        seq![("RUST_TEST_TASKS"@, "1"@)]
    } else {
        Seq::<(Seq<char>, Seq<char>)>::empty()
    }) + seq![("__COMPAT_LAYER"@, "RunAsInvoker"@)]
}

/// The (name, value) pairs to set process-wide, in order, before the
/// external runner starts.
pub fn env_overrides(config: &Config) -> (r: Vec<(String, String)>)
    ensures
        r.deep_view() == spec_env_overrides(config.target@, config.mode),
{
    let mut r: Vec<(String, String)> = Vec::new();
    if crate::paths::contains_substr(config.target.as_str(), "android") {
        r.push(("RUST_TEST_THREADS".to_owned(), "1".to_owned()));
    }
    if config.mode == Mode::DebugInfoLldb {
        r.push(("RUST_TEST_TASKS".to_owned(), "1".to_owned()));
    }
    r.push(("__COMPAT_LAYER".to_owned(), "RunAsInvoker".to_owned()));
    proof {
        assert(r.deep_view() =~= spec_env_overrides(config.target@, config.mode));
    }
    r
}

/// An Android debug-info session under gdb uses a fixed tcp port; the
/// caller announces that before the runner starts.
pub fn uses_android_gdb_port(config: &Config) -> (r: bool)
    ensures
        r == (has_substr(config.target@, "android"@) && config.mode == Mode::DebugInfoGdb),
{
    crate::paths::contains_substr(config.target.as_str(), "android") && config.mode
        == Mode::DebugInfoGdb
}

} // verus!
