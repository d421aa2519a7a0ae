//! Descriptor assembly: one discovered test unit plus its early header
//! properties and the active mode yield the name, skip flag and expected
//! outcome that the external runner reads, together with the deferred
//! execution value it invokes.

use vstd::prelude::*;
use crate::common::{Config, EarlyProps, Mode, ShouldPanic, TestDesc, TestDescAndFn, TestFn,
    TestPaths};
use crate::paths::{spec_join, spec_file_name, join_path, file_name_of};

verus! {

/// The stable, unique name of a test: the mode label, the unit's
/// relative directory and its file name, joined as a path such as
/// `run-pass/foo/bar.rs`.
pub open spec fn spec_test_name(mode: Mode, rel: Seq<char>, file: Seq<char>) -> Seq<char> {
    spec_join(spec_join(mode.spec_label(), rel), spec_file_name(file))
}

/// The expected outcome of a test: pretty-print-roundtrip tests never
/// fail, whatever their header says; otherwise the header's
/// expect-failure directive decides.
pub open spec fn spec_should_panic(mode: Mode, should_fail: bool) -> ShouldPanic {
    if mode == Mode::Pretty {
        ShouldPanic::No
    } else if should_fail {
        ShouldPanic::Yes
    } else {
        ShouldPanic::No
    }
}

/// Build the name of one test unit, such as `run-pass/foo/bar.rs`.
pub fn make_test_name(config: &Config, testpaths: &TestPaths) -> (name: String)
    ensures
        name@ == spec_test_name(config.mode, testpaths.relative_dir@, testpaths.file@),
{
    let label = config.mode.label();
    join_path(
        join_path(label.as_str(), testpaths.relative_dir.as_str()).as_str(),
        file_name_of(testpaths.file.as_str()).as_str(),
    )
}

/// Build the deferred execution value for one unit: it owns copies of
/// the configuration and the unit's paths taken now, so later changes to
/// the caller's configuration cannot reach an already-built test, and no
/// state is shared with any other test.
pub fn make_test_closure(config: &Config, testpaths: &TestPaths) -> (t: TestFn)
    ensures
        t.config == *config,
        t.testpaths == *testpaths,
{
    TestFn { config: config.clone(), testpaths: testpaths.clone() }
}

/// Build the full descriptor of one discovered unit from its early
/// header properties: the name from the mode and the paths, the skip
/// flag from the header, the expected outcome from mode and header, and
/// the captured execution value.
pub fn make_test(config: &Config, testpaths: &TestPaths, early_props: &EarlyProps) -> (t:
    TestDescAndFn)
    ensures
        t.desc.name@ == spec_test_name(config.mode, testpaths.relative_dir@, testpaths.file@),
        t.desc.ignore == early_props.ignore,
        t.desc.should_panic == spec_should_panic(config.mode, early_props.should_fail),
        t.testfn.config == *config,
        t.testfn.testpaths == *testpaths,
{
    let should_panic = match config.mode {
        Mode::Pretty => ShouldPanic::No,
        _ => if early_props.should_fail {
            ShouldPanic::Yes
        } else {
            ShouldPanic::No
        },
    };
    TestDescAndFn {
        desc: TestDesc {
            name: make_test_name(config, testpaths),
            ignore: early_props.ignore,
            should_panic,
        },
        testfn: make_test_closure(config, testpaths),
    }
}

/// In pretty-print-roundtrip mode every descriptor is expected never to
/// fail, whatever the early header properties say.
pub proof fn lemma_pretty_never_fails(should_fail: bool)
    ensures
        spec_should_panic(Mode::Pretty, should_fail) == ShouldPanic::No,
{
}

} // verus!
