pub mod collect;
pub mod common;
pub mod desc;
pub mod paths;
pub mod version;

pub use collect::{collect_tests_from_dir, is_test, make_tests, FsEntry, FsNode};
pub use common::{default_config, env_overrides, test_opts, uses_android_gdb_port, Config,
    EarlyProps, Mode, ShouldPanic, TestDesc, TestDescAndFn, TestFn, TestOpts, TestPaths};
pub use desc::{make_test, make_test_closure, make_test_name};
pub use version::{extract_gdb_version, extract_lldb_version, is_blacklisted_lldb_version};
