//! Test discovery: walking a source tree, mirroring its directory shape
//! into the build tree, and emitting one test unit per qualifying file
//! (or per directory, in directory-level build mode).
//!
//! The walk itself is pure: the caller reads the source root into an
//! [`FsNode`] and receives the discovered units together with the list of
//! mirror directories that must exist, in order, before any test runs.

use vstd::prelude::*;
use vstd::string::StrSliceExecFns;
use crate::common::{Config, Mode, TestPaths, TestPathsView};
use crate::paths::{spec_join, spec_parent, path_extends, join_path, parent_of, str_eq};

verus! {

/// One entry of a directory listing: a named file or subdirectory.
pub struct FsEntry {
    pub name: String,
    pub node: FsNode,
}

/// A source tree handed to the collector: a file, or a directory with
/// its entries in enumeration order.
pub enum FsNode {
    File,
    Dir(Vec<FsEntry>),
}

/// A directory listing holds an entry of the given name.
pub open spec fn has_entry(entries: Seq<FsEntry>, name: Seq<char>) -> bool {
    exists|i: int| 0 <= i < entries.len() && entries[i].name@ == name
}

/// A file name qualifies as a test source: it ends in `.rs` and does not
/// begin with one of the reserved temporary-file prefixes.
pub open spec fn is_test_name(name: Seq<char>) -> bool {
    &&& name.len() >= 3
    &&& name[name.len() - 3] == '.'
    &&& name[name.len() - 2] == 'r'
    &&& name[name.len() - 1] == 's'
    &&& name[0] != '.'
    &&& name[0] != '#'
    &&& name[0] != '~'
}

/// The unit emitted for a qualifying file `name` found in the directory
/// at `rel` under the source root `base`.
pub open spec fn unit_for_file(base: Seq<char>, rel: Seq<char>, name: Seq<char>) -> TestPathsView {
    TestPathsView {
        file: spec_join(spec_join(base, rel), name),
        base: base,
        relative_dir: rel,
    }
}

/// The unit emitted when a whole directory is the test artifact.
pub open spec fn dir_unit(base: Seq<char>, rel: Seq<char>) -> TestPathsView {
    TestPathsView { file: spec_join(base, rel), base: base, relative_dir: spec_parent(rel) }
}

/// The units the collector emits for one tree node.
pub open spec fn spec_units_node(mode: Mode, node: FsNode, base: Seq<char>, rel: Seq<char>) -> Seq<
    TestPathsView,
>
    decreases node,
{
    match node {
        FsNode::File => Seq::empty(),
        FsNode::Dir(entries) => {
            if has_entry(entries@, "compiletest-ignore-dir"@) {
                Seq::empty()
            } else if mode == Mode::RunMake && has_entry(entries@, "Makefile"@) {
                seq![dir_unit(base, rel)]
            } else {
                spec_units_entries(mode, entries@, base, rel)
            }
        },
    }
}

/// The units emitted for a directory's entries, in enumeration order.
pub open spec fn spec_units_entries(
    mode: Mode,
    entries: Seq<FsEntry>,
    base: Seq<char>,
    rel: Seq<char>,
) -> Seq<TestPathsView>
    decreases entries,
{
    if entries.len() == 0 {
        Seq::empty()
    } else {
        spec_unit_entry(mode, entries[0], base, rel) + spec_units_entries(
            mode,
            entries.drop_first(),
            base,
            rel,
        )
    }
}

/// The units one directory entry contributes: a qualifying file yields
/// its unit, an `auxiliary` subtree is not walked, and any other
/// subdirectory is walked recursively.
pub open spec fn spec_unit_entry(mode: Mode, e: FsEntry, base: Seq<char>, rel: Seq<char>) -> Seq<
    TestPathsView,
>
    decreases e,
{
    match e.node {
        FsNode::File => {
            if is_test_name(e.name@) {
                seq![unit_for_file(base, rel, e.name@)]
            } else {
                Seq::empty()
            }
        },
        FsNode::Dir(_) => {
            if e.name@ == "auxiliary"@ {
                Seq::empty()
            } else {
                spec_units_node(mode, e.node, base, spec_join(rel, e.name@))
            }
        },
    }
}

/// The mirror build directories (as paths relative to the build root)
/// that discovery of one node creates, in creation order.
pub open spec fn spec_dirs_node(mode: Mode, node: FsNode, rel: Seq<char>) -> Seq<Seq<char>>
    decreases node,
{
    match node {
        FsNode::File => Seq::empty(),
        FsNode::Dir(entries) => {
            if has_entry(entries@, "compiletest-ignore-dir"@) {
                Seq::empty()
            } else if mode == Mode::RunMake && has_entry(entries@, "Makefile"@) {
                Seq::empty()
            } else {
                seq![rel] + spec_dirs_entries(mode, entries@, rel)
            }
        },
    }
}

pub open spec fn spec_dirs_entries(mode: Mode, entries: Seq<FsEntry>, rel: Seq<char>) -> Seq<
    Seq<char>,
>
    decreases entries,
{
    if entries.len() == 0 {
        Seq::empty()
    } else {
        spec_dir_entry(mode, entries[0], rel) + spec_dirs_entries(mode, entries.drop_first(), rel)
    }
}

/// The mirror directories one entry contributes: an `auxiliary` subtree
/// gets a mirror directory but is not walked; other subdirectories are
/// walked.
pub open spec fn spec_dir_entry(mode: Mode, e: FsEntry, rel: Seq<char>) -> Seq<Seq<char>>
    decreases e,
{
    match e.node {
        FsNode::File => Seq::empty(),
        FsNode::Dir(_) => {
            if e.name@ == "auxiliary"@ {
                seq![spec_join(rel, e.name@)]
            } else {
                spec_dirs_node(mode, e.node, spec_join(rel, e.name@))
            }
        },
    }
}

/// A file name qualifies as a test source exactly when [`is_test_name`]
/// holds of it.
pub fn is_test(file_name: &String) -> (r: bool)
    ensures
        r == is_test_name(file_name@),
{
    let s = file_name.as_str();
    let len = s.unicode_len();
    if len < 3 {
        return false;
    }
    let c0 = s.get_char(0);
    s.get_char(len - 3) == '.' && s.get_char(len - 2) == 'r' && s.get_char(len - 1) == 's' && c0
        != '.' && c0 != '#' && c0 != '~'
}

fn dir_contains(entries: &Vec<FsEntry>, name: &str) -> (r: bool)
    ensures
        r == has_entry(entries@, name@),
{
    let mut i: usize = 0;
    while i < entries.len()
        invariant
            i <= entries.len(),
            forall|j: int| 0 <= j < i ==> entries@[j].name@ != name@,
        decreases entries.len() - i,
    {
        if str_eq(entries[i].name.as_str(), name) {
            return true;
        }
        i = i + 1;
    }
    false
}

proof fn lemma_units_entries_concat(
    mode: Mode,
    a: Seq<FsEntry>,
    b: Seq<FsEntry>,
    base: Seq<char>,
    rel: Seq<char>,
)
    ensures
        spec_units_entries(mode, a + b, base, rel) == spec_units_entries(mode, a, base, rel)
            + spec_units_entries(mode, b, base, rel),
    decreases a,
{
    if a.len() == 0 {
        assert(a + b =~= b);
        assert(spec_units_entries(mode, a, base, rel) + spec_units_entries(mode, b, base, rel)
            =~= spec_units_entries(mode, b, base, rel));
    } else {
        assert((a + b).drop_first() =~= a.drop_first() + b);
        lemma_units_entries_concat(mode, a.drop_first(), b, base, rel);
        assert(spec_units_entries(mode, a + b, base, rel) =~= spec_units_entries(mode, a, base, rel)
            + spec_units_entries(mode, b, base, rel));
    }
}

proof fn lemma_dirs_entries_concat(
    mode: Mode,
    a: Seq<FsEntry>,
    b: Seq<FsEntry>,
    rel: Seq<char>,
)
    ensures
        spec_dirs_entries(mode, a + b, rel) == spec_dirs_entries(mode, a, rel)
            + spec_dirs_entries(mode, b, rel),
    decreases a,
{
    if a.len() == 0 {
        assert(a + b =~= b);
        assert(spec_dirs_entries(mode, a, rel) + spec_dirs_entries(mode, b, rel)
            =~= spec_dirs_entries(mode, b, rel));
    } else {
        assert((a + b).drop_first() =~= a.drop_first() + b);
        lemma_dirs_entries_concat(mode, a.drop_first(), b, rel);
        assert(spec_dirs_entries(mode, a + b, rel) =~= spec_dirs_entries(mode, a, rel)
            + spec_dirs_entries(mode, b, rel));
    }
}

proof fn lemma_entries_singleton(mode: Mode, e: FsEntry, base: Seq<char>, rel: Seq<char>)
    ensures
        spec_units_entries(mode, seq![e], base, rel) == spec_unit_entry(mode, e, base, rel),
        spec_dirs_entries(mode, seq![e], rel) == spec_dir_entry(mode, e, rel),
{
    let one = seq![e];
    assert(one.len() == 1);
    assert(one[0] == e);
    assert(one.drop_first() =~= Seq::<FsEntry>::empty());
    assert(spec_units_entries(mode, Seq::<FsEntry>::empty(), base, rel) == Seq::<
        TestPathsView,
    >::empty());
    assert(spec_dirs_entries(mode, Seq::<FsEntry>::empty(), rel) == Seq::<Seq<char>>::empty());
    assert(spec_units_entries(mode, one, base, rel) == spec_unit_entry(mode, one[0], base, rel)
        + spec_units_entries(mode, one.drop_first(), base, rel));
    assert(spec_dirs_entries(mode, one, rel) == spec_dir_entry(mode, one[0], rel)
        + spec_dirs_entries(mode, one.drop_first(), rel));
    assert(spec_units_entries(mode, one, base, rel) =~= spec_unit_entry(mode, e, base, rel));
    assert(spec_dirs_entries(mode, one, rel) =~= spec_dir_entry(mode, e, rel));
}

proof fn lemma_entries_take_step(
    mode: Mode,
    entries: Seq<FsEntry>,
    i: int,
    base: Seq<char>,
    rel: Seq<char>,
)
    requires
        0 <= i < entries.len(),
    ensures
        spec_units_entries(mode, entries.take(i + 1), base, rel) == spec_units_entries(
            mode,
            entries.take(i),
            base,
            rel,
        ) + spec_unit_entry(mode, entries[i], base, rel),
        spec_dirs_entries(mode, entries.take(i + 1), rel) == spec_dirs_entries(
            mode,
            entries.take(i),
            rel,
        ) + spec_dir_entry(mode, entries[i], rel),
{
    let one = seq![entries[i]];
    assert(entries.take(i + 1) =~= entries.take(i) + one);
    lemma_units_entries_concat(mode, entries.take(i), one, base, rel);
    lemma_dirs_entries_concat(mode, entries.take(i), one, rel);
    lemma_entries_singleton(mode, entries[i], base, rel);
}

/// Walk one directory of the source tree: skip a subtree holding the
/// ignore marker, treat a directory with a build marker as a single unit
/// in directory-level mode, otherwise record the mirror directory for
/// this level and then emit a unit per qualifying file and recurse into
/// subdirectories (mirroring, but not walking, `auxiliary` ones).
pub fn collect_tests_from_dir(
    config: &Config,
    node: &FsNode,
    relative_dir_path: &String,
    tests: &mut Vec<TestPaths>,
    dirs: &mut Vec<String>,
)
    ensures
        final(tests).deep_view() == old(tests).deep_view() + spec_units_node(
            config.mode,
            *node,
            config.src_base@,
            relative_dir_path@,
        ),
        final(dirs).deep_view() == old(dirs).deep_view() + spec_dirs_node(
            config.mode,
            *node,
            relative_dir_path@,
        ),
    decreases *node,
{
    let ghost base = config.src_base@;
    let ghost rel = relative_dir_path@;
    match node {
        FsNode::File => {
            proof {
                assert(tests.deep_view() =~= old(tests).deep_view() + spec_units_node(
                    config.mode,
                    *node,
                    base,
                    rel,
                ));
                assert(dirs.deep_view() =~= old(dirs).deep_view() + spec_dirs_node(
                    config.mode,
                    *node,
                    rel,
                ));
            }
        },
        FsNode::Dir(entries) => {
            if dir_contains(entries, "compiletest-ignore-dir") {
                proof {
                    assert(tests.deep_view() =~= old(tests).deep_view() + spec_units_node(
                        config.mode,
                        *node,
                        base,
                        rel,
                    ));
                    assert(dirs.deep_view() =~= old(dirs).deep_view() + spec_dirs_node(
                        config.mode,
                        *node,
                        rel,
                    ));
                }
                return ;
            }
            if config.mode == Mode::RunMake && dir_contains(entries, "Makefile") {
                let file = join_path(config.src_base.as_str(), relative_dir_path.as_str());
                let parent = parent_of(relative_dir_path.as_str());
                let unit = TestPaths { file, base: config.src_base.clone(), relative_dir: parent };
                proof {
                    assert(unit@ == dir_unit(base, rel));
                }
                tests.push(unit);
                proof {
                    assert(tests.deep_view() =~= old(tests).deep_view() + spec_units_node(
                        config.mode,
                        *node,
                        base,
                        rel,
                    ));
                    assert(dirs.deep_view() =~= old(dirs).deep_view() + spec_dirs_node(
                        config.mode,
                        *node,
                        rel,
                    ));
                }
                return ;
            }
            dirs.push(relative_dir_path.clone());
            let ghost tv0 = tests.deep_view();
            let ghost dv0 = dirs.deep_view();
            proof {
                assert(entries@.take(0) =~= Seq::<FsEntry>::empty());
            }
            let mut i: usize = 0;
            while i < entries.len()
                invariant
                    i <= entries.len(),
                    tests.deep_view() == tv0 + spec_units_entries(
                        config.mode,
                        entries@.take(i as int),
                        base,
                        rel,
                    ),
                    dirs.deep_view() == dv0 + spec_dirs_entries(
                        config.mode,
                        entries@.take(i as int),
                        rel,
                    ),
                    base == config.src_base@,
                    rel == relative_dir_path@,
                    *node == FsNode::Dir(*entries),
                decreases entries.len() - i,
            {
                let ghost tv_i = tests.deep_view();
                let ghost dv_i = dirs.deep_view();
                proof {
                    lemma_entries_take_step(config.mode, entries@, i as int, base, rel);
                }
                let entry = &entries[i];
                proof {
                    assert(*entry == entries@[i as int]);
                }
                match &entry.node {
                    FsNode::File => {
                        if is_test(&entry.name) {
                            let dir_path = join_path(
                                config.src_base.as_str(),
                                relative_dir_path.as_str(),
                            );
                            let file = join_path(dir_path.as_str(), entry.name.as_str());
                            let unit = TestPaths {
                                file,
                                base: config.src_base.clone(),
                                relative_dir: relative_dir_path.clone(),
                            };
                            proof {
                                assert(unit@ == unit_for_file(base, rel, entries@[i as int].name@));
                                assert(spec_unit_entry(config.mode, entries@[i as int], base, rel)
                                    =~= seq![unit@]);
                            }
                            tests.push(unit);
                            proof {
                                assert(tests.deep_view() =~= tv_i.push(unit@));
                                assert(tv_i.push(unit@) =~= tv_i + spec_unit_entry(
                                    config.mode,
                                    entries@[i as int],
                                    base,
                                    rel,
                                ));
                            }
                        } else {
                            proof {
                                assert(spec_unit_entry(config.mode, entries@[i as int], base, rel)
                                    =~= Seq::<TestPathsView>::empty());
                            }
                        }
                        proof {
                            assert(spec_dir_entry(config.mode, entries@[i as int], rel) =~= Seq::<
                                Seq<char>,
                            >::empty());
                            assert(tests.deep_view() =~= tv0 + spec_units_entries(
                                config.mode,
                                entries@.take(i + 1),
                                base,
                                rel,
                            ));
                            assert(dirs.deep_view() =~= dv0 + spec_dirs_entries(
                                config.mode,
                                entries@.take(i + 1),
                                rel,
                            ));
                        }
                    },
                    FsNode::Dir(_) => {
                        let sub_rel = join_path(relative_dir_path.as_str(), entry.name.as_str());
                        if str_eq(entry.name.as_str(), "auxiliary") {
                            proof {
                                assert(spec_unit_entry(config.mode, entries@[i as int], base, rel)
                                    =~= Seq::<TestPathsView>::empty());
                                assert(spec_dir_entry(config.mode, entries@[i as int], rel)
                                    =~= seq![spec_join(rel, entries@[i as int].name@)]);
                            }
                            dirs.push(sub_rel);
                            proof {
                                assert(dirs.deep_view() =~= dv_i.push(sub_rel@));
                                assert(dv_i.push(sub_rel@) =~= dv_i + spec_dir_entry(
                                    config.mode,
                                    entries@[i as int],
                                    rel,
                                ));
                                assert(tests.deep_view() =~= tv0 + spec_units_entries(
                                    config.mode,
                                    entries@.take(i + 1),
                                    base,
                                    rel,
                                ));
                                assert(dirs.deep_view() =~= dv0 + spec_dirs_entries(
                                    config.mode,
                                    entries@.take(i + 1),
                                    rel,
                                ));
                            }
                        } else {
                            proof {
                                assert(*node == FsNode::Dir(*entries));
                                assert(decreases_to!(*node => (*node)->Dir_0));
                                assert((*node)->Dir_0 == *entries);
                                assert(decreases_to!(*entries => entries@));
                                assert(decreases_to!(entries@ => entries@[i as int]));
                                assert(decreases_to!(
                                    entries@[i as int] => entries@[i as int].node));
                                assert(spec_unit_entry(config.mode, entries@[i as int], base, rel)
                                    =~= spec_units_node(
                                    config.mode,
                                    entries@[i as int].node,
                                    base,
                                    spec_join(rel, entries@[i as int].name@),
                                ));
                                assert(spec_dir_entry(config.mode, entries@[i as int], rel)
                                    =~= spec_dirs_node(
                                    config.mode,
                                    entries@[i as int].node,
                                    spec_join(rel, entries@[i as int].name@),
                                ));
                            }
                            collect_tests_from_dir(config, &entry.node, &sub_rel, tests, dirs);
                            proof {
                                assert(tests.deep_view() =~= tv0 + spec_units_entries(
                                    config.mode,
                                    entries@.take(i + 1),
                                    base,
                                    rel,
                                ));
                                assert(dirs.deep_view() =~= dv0 + spec_dirs_entries(
                                    config.mode,
                                    entries@.take(i + 1),
                                    rel,
                                ));
                            }
                        }
                    },
                }
                i = i + 1;
            }
            proof {
                assert(entries@.take(entries@.len() as int) =~= entries@);
                assert(tests.deep_view() =~= old(tests).deep_view() + spec_units_node(
                    config.mode,
                    *node,
                    base,
                    rel,
                ));
                assert(dirs.deep_view() =~= old(dirs).deep_view() + spec_dirs_node(
                    config.mode,
                    *node,
                    rel,
                ));
            }
        },
    }
}

/// Discover every test unit under the configured source root and the
/// mirror build directories they need, front-loaded so that all
/// directories exist before any test runs.
pub fn make_tests(config: &Config, root: &FsNode) -> (r: (Vec<TestPaths>, Vec<String>))
    ensures
        r.0.deep_view() == spec_units_node(
            config.mode,
            *root,
            config.src_base@,
            Seq::<char>::empty(),
        ),
        r.1.deep_view() == spec_dirs_node(config.mode, *root, Seq::<char>::empty()),
{
    let mut tests: Vec<TestPaths> = Vec::new();
    let mut dirs: Vec<String> = Vec::new();
    let rel = String::new();
    collect_tests_from_dir(config, root, &rel, &mut tests, &mut dirs);
    proof {
        assert(tests.deep_view() =~= spec_units_node(
            config.mode,
            *root,
            config.src_base@,
            Seq::<char>::empty(),
        ));
        assert(dirs.deep_view() =~= spec_dirs_node(config.mode, *root, Seq::<char>::empty()));
    }
    (tests, dirs)
}

/// Discovery is a function of the tree alone: two runs of the collector
/// over the same tree yield the same units and the same mirror
/// directories. (Each run's output is tied to these spec functions by
/// the contract of [`make_tests`].)
pub proof fn lemma_collector_idempotent(
    u1: Seq<TestPathsView>,
    u2: Seq<TestPathsView>,
    d1: Seq<Seq<char>>,
    d2: Seq<Seq<char>>,
    mode: Mode,
    node: FsNode,
    base: Seq<char>,
    rel: Seq<char>,
)
    requires
        u1 == spec_units_node(mode, node, base, rel),
        u2 == spec_units_node(mode, node, base, rel),
        d1 == spec_dirs_node(mode, node, rel),
        d2 == spec_dirs_node(mode, node, rel),
    ensures
        u1 == u2,
        d1 == d2,
{
}

/// A directory that holds the ignore marker contributes no units and no
/// mirror directories, whatever else stands in it.
pub proof fn lemma_ignored_subtree_contributes_nothing(
    mode: Mode,
    node: FsNode,
    base: Seq<char>,
    rel: Seq<char>,
)
    requires
        node matches FsNode::Dir(entries) && has_entry(entries@, "compiletest-ignore-dir"@),
    ensures
        spec_units_node(mode, node, base, rel) == Seq::<TestPathsView>::empty(),
        spec_dirs_node(mode, node, rel) == Seq::<Seq<char>>::empty(),
{
}

/// Ignoring one subtree leaves its siblings and the parent's own files
/// untouched: the parent's units are exactly those of the entries before
/// the ignored one followed by those of the entries after it.
pub proof fn lemma_ignored_sibling_isolated(
    mode: Mode,
    entries: Seq<FsEntry>,
    i: int,
    base: Seq<char>,
    rel: Seq<char>,
)
    requires
        0 <= i < entries.len(),
        entries[i].node matches FsNode::Dir(sub) && has_entry(sub@, "compiletest-ignore-dir"@),
    ensures
        spec_units_entries(mode, entries, base, rel) == spec_units_entries(
            mode,
            entries.take(i),
            base,
            rel,
        ) + spec_units_entries(mode, entries.skip(i + 1), base, rel),
{
    assert(entries =~= entries.take(i) + seq![entries[i]] + entries.skip(i + 1));
    lemma_units_entries_concat(mode, entries.take(i) + seq![entries[i]], entries.skip(i + 1), base, rel);
    lemma_units_entries_concat(mode, entries.take(i), seq![entries[i]], base, rel);
    lemma_entries_singleton(mode, entries[i], base, rel);
    lemma_ignored_subtree_contributes_nothing(mode, entries[i].node, base, spec_join(rel, entries[i].name@));
    assert(spec_unit_entry(mode, entries[i], base, rel) =~= Seq::<TestPathsView>::empty());
    assert(spec_units_entries(mode, entries, base, rel) =~= spec_units_entries(
        mode,
        entries.take(i),
        base,
        rel,
    ) + spec_units_entries(mode, entries.skip(i + 1), base, rel));
}


/// A usable file or directory name: non-empty and free of separators.
pub open spec fn wf_entry_name(n: Seq<char>) -> bool {
    n.len() > 0 && crate::paths::slash_free(n)
}

/// A well-formed tree, as a real filesystem hands one out: every name is
/// a usable component and no two entries of one directory share a name.
pub open spec fn wf_node(node: FsNode) -> bool
    decreases node,
{
    match node {
        FsNode::File => true,
        FsNode::Dir(entries) => wf_entries(entries@),
    }
}

pub open spec fn wf_entries(entries: Seq<FsEntry>) -> bool
    decreases entries,
{
    if entries.len() == 0 {
        true
    } else {
        &&& wf_entry_name(entries[0].name@)
        &&& wf_node(entries[0].node)
        &&& (forall|j: int|
            1 <= j < entries.len() ==> (#[trigger] entries[j]).name@ != entries[0].name@)
        &&& wf_entries(entries.drop_first())
    }
}

/// The unit that stands for the file `name` in the directory at `rel`.
pub open spec fn unit_matches(
    u: TestPathsView,
    base: Seq<char>,
    rel: Seq<char>,
    name: Seq<char>,
) -> bool {
    u.relative_dir == rel && u.file == spec_join(spec_join(base, rel), name)
}

/// How many of the given units stand for the file `name` in the
/// directory at `rel`.
pub open spec fn count_units_for(
    units: Seq<TestPathsView>,
    base: Seq<char>,
    rel: Seq<char>,
    name: Seq<char>,
) -> nat
    decreases units,
{
    if units.len() == 0 {
        0
    } else {
        (if unit_matches(units[0], base, rel, name) {
            1nat
        } else {
            0nat
        }) + count_units_for(units.drop_first(), base, rel, name)
    }
}

/// How many entries of a directory are files of the given name.
pub open spec fn count_matching_entries(entries: Seq<FsEntry>, name: Seq<char>) -> nat
    decreases entries,
{
    if entries.len() == 0 {
        0
    } else {
        (if entries[0].node is File && entries[0].name@ == name {
            1nat
        } else {
            0nat
        }) + count_matching_entries(entries.drop_first(), name)
    }
}

proof fn lemma_count_units_concat(
    a: Seq<TestPathsView>,
    b: Seq<TestPathsView>,
    base: Seq<char>,
    rel: Seq<char>,
    name: Seq<char>,
)
    ensures
        count_units_for(a + b, base, rel, name) == count_units_for(a, base, rel, name)
            + count_units_for(b, base, rel, name),
    decreases a,
{
    if a.len() == 0 {
        assert(a + b =~= b);
    } else {
        assert((a + b).drop_first() =~= a.drop_first() + b);
        lemma_count_units_concat(a.drop_first(), b, base, rel, name);
    }
}

proof fn lemma_count_units_zero(
    units: Seq<TestPathsView>,
    base: Seq<char>,
    rel: Seq<char>,
    name: Seq<char>,
)
    requires
        forall|k: int| 0 <= k < units.len() ==> !unit_matches(#[trigger] units[k], base, rel, name),
    ensures
        count_units_for(units, base, rel, name) == 0,
    decreases units,
{
    if units.len() == 0 {
    } else {
        assert(!unit_matches(units[0], base, rel, name));
        assert forall|k: int| 0 <= k < units.drop_first().len() implies !unit_matches(
            #[trigger] units.drop_first()[k],
            base,
            rel,
            name,
        ) by {
            assert(units.drop_first()[k] == units[k + 1]);
        }
        lemma_count_units_zero(units.drop_first(), base, rel, name);
    }
}

proof fn lemma_count_units_singleton(
    u: TestPathsView,
    base: Seq<char>,
    rel: Seq<char>,
    name: Seq<char>,
)
    ensures
        count_units_for(seq![u], base, rel, name) == if unit_matches(u, base, rel, name) {
            1nat
        } else {
            0nat
        },
{
    assert(seq![u].drop_first() =~= Seq::<TestPathsView>::empty());
    assert(count_units_for(Seq::<TestPathsView>::empty(), base, rel, name) == 0);
    assert(seq![u][0] == u);
}

/// Every unit the collector emits for a node at `rel` lies at `rel` or
/// under it (in file-unit modes).
proof fn lemma_units_extend_node(mode: Mode, node: FsNode, base: Seq<char>, rel: Seq<char>)
    requires
        mode != Mode::RunMake,
    ensures
        forall|k: int|
            0 <= k < spec_units_node(mode, node, base, rel).len() ==> path_extends(
                (#[trigger] spec_units_node(mode, node, base, rel)[k]).relative_dir,
                rel,
            ),
    decreases node,
{
    match node {
        FsNode::File => {},
        FsNode::Dir(entries) => {
            if !has_entry(entries@, "compiletest-ignore-dir"@) {
                lemma_units_extend_entries(mode, entries@, base, rel);
                assert(spec_units_node(mode, node, base, rel) == spec_units_entries(
                    mode,
                    entries@,
                    base,
                    rel,
                ));
                assert forall|k: int|
                    0 <= k < spec_units_node(mode, node, base, rel).len() implies path_extends(
                    (#[trigger] spec_units_node(mode, node, base, rel)[k]).relative_dir,
                    rel,
                ) by {
                    assert(spec_units_node(mode, node, base, rel)[k] == spec_units_entries(
                        mode,
                        entries@,
                        base,
                        rel,
                    )[k]);
                }
            }
        },
    }
}

proof fn lemma_units_extend_entries(
    mode: Mode,
    entries: Seq<FsEntry>,
    base: Seq<char>,
    rel: Seq<char>,
)
    requires
        mode != Mode::RunMake,
    ensures
        forall|k: int|
            0 <= k < spec_units_entries(mode, entries, base, rel).len() ==> path_extends(
                (#[trigger] spec_units_entries(mode, entries, base, rel)[k]).relative_dir,
                rel,
            ),
    decreases entries,
{
    if entries.len() == 0 {
    } else {
        let e0 = entries[0];
        let head = spec_unit_entry(mode, e0, base, rel);
        let tail = spec_units_entries(mode, entries.drop_first(), base, rel);
        lemma_units_extend_entries(mode, entries.drop_first(), base, rel);
        lemma_units_extend_entry(mode, e0, base, rel);
        assert forall|k: int|
            0 <= k < spec_units_entries(mode, entries, base, rel).len() implies path_extends(
            (#[trigger] spec_units_entries(mode, entries, base, rel)[k]).relative_dir,
            rel,
        ) by {
            if k < head.len() {
                assert(spec_units_entries(mode, entries, base, rel)[k] == head[k]);
            } else {
                assert(spec_units_entries(mode, entries, base, rel)[k] == tail[k - head.len()]);
            }
        }
    }
}

proof fn lemma_units_extend_entry(mode: Mode, e: FsEntry, base: Seq<char>, rel: Seq<char>)
    requires
        mode != Mode::RunMake,
    ensures
        forall|k: int|
            0 <= k < spec_unit_entry(mode, e, base, rel).len() ==> path_extends(
                (#[trigger] spec_unit_entry(mode, e, base, rel)[k]).relative_dir,
                rel,
            ),
    decreases e,
{
    match e.node {
        FsNode::File => {
            if is_test_name(e.name@) {
                let u = unit_for_file(base, rel, e.name@);
                assert(spec_unit_entry(mode, e, base, rel) == seq![u]);
                assert(seq![u][0] == u);
            }
        },
        FsNode::Dir(_) => {
            if e.name@ != "auxiliary"@ {
                let sub_rel = spec_join(rel, e.name@);
                lemma_units_extend_node(mode, e.node, base, sub_rel);
                assert(spec_unit_entry(mode, e, base, rel) == spec_units_node(
                    mode,
                    e.node,
                    base,
                    sub_rel,
                ));
                assert forall|k: int|
                    0 <= k < spec_unit_entry(mode, e, base, rel).len() implies path_extends(
                    (#[trigger] spec_unit_entry(mode, e, base, rel)[k]).relative_dir,
                    rel,
                ) by {
                    assert(spec_unit_entry(mode, e, base, rel)[k] == spec_units_node(
                        mode,
                        e.node,
                        base,
                        sub_rel,
                    )[k]);
                    assert(path_extends(
                        spec_units_node(mode, e.node, base, sub_rel)[k].relative_dir,
                        sub_rel,
                    ));
                    if e.name@.len() > 0 {
                        crate::paths::lemma_join_extends(rel, e.name@);
                        crate::paths::lemma_path_extends_trans(
                            spec_unit_entry(mode, e, base, rel)[k].relative_dir,
                            sub_rel,
                            rel,
                        );
                    } else {
                        assert(sub_rel == rel);
                    }
                }
            }
        },
    }
}

proof fn lemma_count_entries(
    mode: Mode,
    entries: Seq<FsEntry>,
    base: Seq<char>,
    rel: Seq<char>,
    name: Seq<char>,
)
    requires
        mode != Mode::RunMake,
        is_test_name(name),
        wf_entries(entries),
    ensures
        count_units_for(spec_units_entries(mode, entries, base, rel), base, rel, name)
            == count_matching_entries(entries, name),
    decreases entries,
{
    if entries.len() == 0 {
    } else {
        let e0 = entries[0];
        let head = spec_unit_entry(mode, e0, base, rel);
        let tail = spec_units_entries(mode, entries.drop_first(), base, rel);
        assert(spec_units_entries(mode, entries, base, rel) == head + tail);
        lemma_count_units_concat(head, tail, base, rel, name);
        lemma_count_entries(mode, entries.drop_first(), base, rel, name);
        match e0.node {
            FsNode::File => {
                if is_test_name(e0.name@) {
                    let u = unit_for_file(base, rel, e0.name@);
                    assert(head =~= seq![u]);
                    lemma_count_units_singleton(u, base, rel, name);
                    if e0.name@ == name {
                        assert(unit_matches(u, base, rel, name));
                        assert(count_units_for(head, base, rel, name) == 1);
                    } else {
                        if unit_matches(u, base, rel, name) {
                            crate::paths::lemma_join_component_injective(
                                spec_join(base, rel),
                                e0.name@,
                                name,
                            );
                        }
                        assert(count_units_for(head, base, rel, name) == 0);
                    }
                } else {
                    assert(head =~= Seq::<TestPathsView>::empty());
                    assert(count_units_for(head, base, rel, name) == 0);
                    assert(e0.name@ != name);
                }
            },
            FsNode::Dir(_) => {
                if e0.name@ == "auxiliary"@ {
                    assert(head =~= Seq::<TestPathsView>::empty());
                    assert(count_units_for(head, base, rel, name) == 0);
                } else {
                    let sub_rel = spec_join(rel, e0.name@);
                    crate::paths::lemma_join_len_ge(rel, e0.name@);
                    lemma_units_extend_node(mode, e0.node, base, sub_rel);
                    assert(head == spec_units_node(mode, e0.node, base, sub_rel));
                    assert forall|k: int| 0 <= k < head.len() implies !unit_matches(
                        #[trigger] head[k],
                        base,
                        rel,
                        name,
                    ) by {
                        assert(head[k] == spec_units_node(mode, e0.node, base, sub_rel)[k]);
                        assert(path_extends(head[k].relative_dir, sub_rel));
                        assert(head[k].relative_dir.len() >= sub_rel.len());
                        assert(sub_rel.len() > rel.len());
                    }
                    lemma_count_units_zero(head, base, rel, name);
                }
            },
        }
    }
}

proof fn lemma_count_matching_zero(entries: Seq<FsEntry>, name: Seq<char>)
    requires
        forall|k: int| 0 <= k < entries.len() ==> (#[trigger] entries[k]).name@ != name,
    ensures
        count_matching_entries(entries, name) == 0,
    decreases entries,
{
    if entries.len() == 0 {
    } else {
        lemma_count_matching_zero(entries.drop_first(), name);
    }
}

proof fn lemma_count_matching_one(entries: Seq<FsEntry>, j: int, name: Seq<char>)
    requires
        wf_entries(entries),
        0 <= j < entries.len(),
        entries[j].node is File,
        entries[j].name@ == name,
    ensures
        count_matching_entries(entries, name) == 1,
    decreases entries,
{
    if j == 0 {
        assert forall|k: int| 0 <= k < entries.drop_first().len() implies (
        #[trigger] entries.drop_first()[k]).name@ != name by {
            assert(entries.drop_first()[k] == entries[k + 1]);
        }
        lemma_count_matching_zero(entries.drop_first(), name);
    } else {
        assert(entries[j].name@ != entries[0].name@);
        assert(entries.drop_first()[j - 1] == entries[j]);
        lemma_count_matching_one(entries.drop_first(), j - 1, name);
    }
}

/// In the file-unit modes, a walked directory yields exactly one unit
/// for each of its qualifying files: the unit at its own relative path
/// with the file's name, counted over the whole collection for the
/// directory (subdirectories contribute only deeper units).
pub proof fn lemma_exactly_one_unit_per_file(
    mode: Mode,
    node: FsNode,
    base: Seq<char>,
    rel: Seq<char>,
    j: int,
)
    requires
        mode != Mode::RunMake,
        wf_node(node),
        node matches FsNode::Dir(entries) && !has_entry(entries@, "compiletest-ignore-dir"@)
            && 0 <= j < entries@.len() && entries@[j].node is File && is_test_name(
            entries@[j].name@,
        ),
    ensures
        count_units_for(
            spec_units_node(mode, node, base, rel),
            base,
            rel,
            node->Dir_0@[j].name@,
        ) == 1,
{
    let entries = node->Dir_0;
    let name = entries@[j].name@;
    lemma_count_entries(mode, entries@, base, rel, name);
    lemma_count_matching_one(entries@, j, name);
}

/// A file whose name does not qualify — a wrong extension or a reserved
/// temporary prefix — is never emitted: no unit of a walked well-formed
/// tree carries such a trailing file name (in the file-unit modes).
pub proof fn lemma_reserved_never_emitted(mode: Mode, node: FsNode, base: Seq<char>, rel: Seq<char>)
    requires
        mode != Mode::RunMake,
        wf_node(node),
    ensures
        forall|k: int|
            0 <= k < spec_units_node(mode, node, base, rel).len() ==> is_test_name(
                crate::paths::spec_file_name(
                    (#[trigger] spec_units_node(mode, node, base, rel)[k]).file,
                ),
            ),
    decreases node,
{
    match node {
        FsNode::File => {},
        FsNode::Dir(entries) => {
            if !has_entry(entries@, "compiletest-ignore-dir"@) {
                lemma_reserved_never_emitted_entries(mode, entries@, base, rel);
                assert(spec_units_node(mode, node, base, rel) == spec_units_entries(
                    mode,
                    entries@,
                    base,
                    rel,
                ));
                assert forall|k: int|
                    0 <= k < spec_units_node(mode, node, base, rel).len() implies is_test_name(
                    crate::paths::spec_file_name(
                        (#[trigger] spec_units_node(mode, node, base, rel)[k]).file,
                    ),
                ) by {
                    assert(spec_units_node(mode, node, base, rel)[k] == spec_units_entries(
                        mode,
                        entries@,
                        base,
                        rel,
                    )[k]);
                }
            }
        },
    }
}

proof fn lemma_reserved_never_emitted_entries(
    mode: Mode,
    entries: Seq<FsEntry>,
    base: Seq<char>,
    rel: Seq<char>,
)
    requires
        mode != Mode::RunMake,
        wf_entries(entries),
    ensures
        forall|k: int|
            0 <= k < spec_units_entries(mode, entries, base, rel).len() ==> is_test_name(
                crate::paths::spec_file_name(
                    (#[trigger] spec_units_entries(mode, entries, base, rel)[k]).file,
                ),
            ),
    decreases entries,
{
    if entries.len() == 0 {
    } else {
        let e0 = entries[0];
        let head = spec_unit_entry(mode, e0, base, rel);
        let tail = spec_units_entries(mode, entries.drop_first(), base, rel);
        lemma_reserved_never_emitted_entries(mode, entries.drop_first(), base, rel);
        lemma_reserved_never_emitted_entry(mode, e0, base, rel);
        assert forall|k: int|
            0 <= k < spec_units_entries(mode, entries, base, rel).len() implies is_test_name(
            crate::paths::spec_file_name(
                (#[trigger] spec_units_entries(mode, entries, base, rel)[k]).file,
            ),
        ) by {
            if k < head.len() {
                assert(spec_units_entries(mode, entries, base, rel)[k] == head[k]);
            } else {
                assert(spec_units_entries(mode, entries, base, rel)[k] == tail[k - head.len()]);
            }
        }
    }
}

proof fn lemma_reserved_never_emitted_entry(mode: Mode, e: FsEntry, base: Seq<char>, rel: Seq<char>)
    requires
        mode != Mode::RunMake,
        wf_entry_name(e.name@),
        wf_node(e.node),
    ensures
        forall|k: int|
            0 <= k < spec_unit_entry(mode, e, base, rel).len() ==> is_test_name(
                crate::paths::spec_file_name(
                    (#[trigger] spec_unit_entry(mode, e, base, rel)[k]).file,
                ),
            ),
    decreases e,
{
    match e.node {
        FsNode::File => {
            if is_test_name(e.name@) {
                crate::paths::lemma_file_name_of_join(spec_join(base, rel), e.name@);
                let u = unit_for_file(base, rel, e.name@);
                assert(spec_unit_entry(mode, e, base, rel) == seq![u]);
                assert(seq![u][0] == u);
                assert(is_test_name(crate::paths::spec_file_name(u.file)));
            }
        },
        FsNode::Dir(_) => {
            if e.name@ != "auxiliary"@ {
                let sub_rel = spec_join(rel, e.name@);
                lemma_reserved_never_emitted(mode, e.node, base, sub_rel);
                assert(spec_unit_entry(mode, e, base, rel) == spec_units_node(
                    mode,
                    e.node,
                    base,
                    sub_rel,
                ));
                assert forall|k: int|
                    0 <= k < spec_unit_entry(mode, e, base, rel).len() implies is_test_name(
                    crate::paths::spec_file_name(
                        (#[trigger] spec_unit_entry(mode, e, base, rel)[k]).file,
                    ),
                ) by {
                    assert(spec_unit_entry(mode, e, base, rel)[k] == spec_units_node(
                        mode,
                        e.node,
                        base,
                        sub_rel,
                    )[k]);
                }
            }
        },
    }
}



proof fn lemma_wf_entries_each(entries: Seq<FsEntry>)
    requires
        wf_entries(entries),
    ensures
        forall|i: int|
            0 <= i < entries.len() ==> wf_entry_name((#[trigger] entries[i]).name@) && wf_node(
                entries[i].node,
            ),
    decreases entries,
{
    if entries.len() == 0 {
    } else {
        lemma_wf_entries_each(entries.drop_first());
        assert forall|i: int|
            0 <= i < entries.len() implies wf_entry_name((#[trigger] entries[i]).name@) && wf_node(
            entries[i].node,
        ) by {
            if i > 0 {
                assert(entries[i] == entries.drop_first()[i - 1]);
            }
        }
    }
}

/// Following `path` from `node` — directory names, none of them the
/// `auxiliary` component — reaches a directory that is walked (no
/// ancestor on the way holds the ignore marker) and holds a file named
/// `name`.
pub open spec fn reaches_file(node: FsNode, path: Seq<Seq<char>>, name: Seq<char>) -> bool
    decreases node,
{
    match node {
        FsNode::File => false,
        FsNode::Dir(entries) => {
            &&& !has_entry(entries@, "compiletest-ignore-dir"@)
            &&& if path.len() == 0 {
                exists|i: int|
                    0 <= i < entries@.len() && (#[trigger] entries@[i]).name@ == name
                        && entries@[i].node is File
            } else {
                &&& path[0] != "auxiliary"@
                &&& exists|i: int|
                    0 <= i < entries@.len() && (#[trigger] entries@[i]).name@ == path[0]
                        && entries@[i].node is Dir && reaches_file(
                        entries@[i].node,
                        path.drop_first(),
                        name,
                    )
            }
        },
    }
}

/// The relative directory reached by following `path` from `rel`.
pub open spec fn rel_of(rel: Seq<char>, path: Seq<Seq<char>>) -> Seq<char>
    decreases path.len(),
{
    if path.len() == 0 {
        rel
    } else {
        rel_of(spec_join(rel, path[0]), path.drop_first())
    }
}

proof fn lemma_rel_of_extends(node: FsNode, path: Seq<Seq<char>>, name: Seq<char>, rel: Seq<char>)
    requires
        wf_node(node),
        reaches_file(node, path, name),
    ensures
        path_extends(rel_of(rel, path), rel),
        path.len() > 0 ==> path_extends(rel_of(rel, path), spec_join(rel, path[0])) && rel_of(
            rel,
            path,
        ).len() > rel.len(),
    decreases path.len(),
{
    if path.len() == 0 {
    } else {
        let entries = node->Dir_0;
        let i = choose|i: int|
            0 <= i < entries@.len() && (#[trigger] entries@[i]).name@ == path[0]
                && entries@[i].node is Dir && reaches_file(entries@[i].node, path.drop_first(), name);
        lemma_wf_entries_each(entries@);
        assert(wf_entry_name(path[0]));
        crate::paths::lemma_join_extends(rel, path[0]);
        lemma_rel_of_extends(entries@[i].node, path.drop_first(), name, spec_join(rel, path[0]));
        crate::paths::lemma_path_extends_trans(rel_of(rel, path), spec_join(rel, path[0]), rel);
    }
}

/// An entry other than the one `target` descends through contributes no
/// unit standing for the file `name` at `target`.
proof fn lemma_entry_other_zero(
    mode: Mode,
    e: FsEntry,
    base: Seq<char>,
    rel: Seq<char>,
    target: Seq<char>,
    c: Seq<char>,
    name: Seq<char>,
)
    requires
        mode != Mode::RunMake,
        wf_entry_name(e.name@),
        wf_node(e.node),
        wf_entry_name(c),
        path_extends(target, spec_join(rel, c)),
        target.len() > rel.len(),
        e.node is Dir ==> e.name@ != c,
    ensures
        count_units_for(spec_unit_entry(mode, e, base, rel), base, target, name) == 0,
{
    let head = spec_unit_entry(mode, e, base, rel);
    match e.node {
        FsNode::File => {
            if is_test_name(e.name@) {
                let u = unit_for_file(base, rel, e.name@);
                assert(head == seq![u]);
                assert(u.relative_dir.len() < target.len());
                lemma_count_units_singleton(u, base, target, name);
            } else {
                assert(head =~= Seq::<TestPathsView>::empty());
            }
        },
        FsNode::Dir(_) => {
            if e.name@ == "auxiliary"@ {
                assert(head =~= Seq::<TestPathsView>::empty());
            } else {
                let sub_rel = spec_join(rel, e.name@);
                lemma_units_extend_node(mode, e.node, base, sub_rel);
                assert(head == spec_units_node(mode, e.node, base, sub_rel));
                assert forall|k: int| 0 <= k < head.len() implies !unit_matches(
                    #[trigger] head[k],
                    base,
                    target,
                    name,
                ) by {
                    assert(head[k] == spec_units_node(mode, e.node, base, sub_rel)[k]);
                    assert(path_extends(head[k].relative_dir, sub_rel));
                    if unit_matches(head[k], base, target, name) {
                        crate::paths::lemma_extends_component_unique(target, rel, c, e.name@);
                    }
                }
                lemma_count_units_zero(head, base, target, name);
            }
        },
    }
}

proof fn lemma_entries_all_other_zero(
    mode: Mode,
    entries: Seq<FsEntry>,
    base: Seq<char>,
    rel: Seq<char>,
    target: Seq<char>,
    c: Seq<char>,
    name: Seq<char>,
)
    requires
        mode != Mode::RunMake,
        wf_entries(entries),
        wf_entry_name(c),
        path_extends(target, spec_join(rel, c)),
        target.len() > rel.len(),
        forall|k: int|
            0 <= k < entries.len() ==> ((#[trigger] entries[k]).node is Dir ==> entries[k].name@
                != c),
    ensures
        count_units_for(spec_units_entries(mode, entries, base, rel), base, target, name) == 0,
    decreases entries,
{
    if entries.len() == 0 {
    } else {
        let head = spec_unit_entry(mode, entries[0], base, rel);
        let tail = spec_units_entries(mode, entries.drop_first(), base, rel);
        lemma_count_units_concat(head, tail, base, target, name);
        lemma_entry_other_zero(mode, entries[0], base, rel, target, c, name);
        assert forall|k: int|
            0 <= k < entries.drop_first().len() implies ((#[trigger] entries.drop_first()[k]).node
            is Dir ==> entries.drop_first()[k].name@ != c) by {
            assert(entries.drop_first()[k] == entries[k + 1]);
        }
        lemma_entries_all_other_zero(mode, entries.drop_first(), base, rel, target, c, name);
    }
}

proof fn lemma_count_path_entries(
    mode: Mode,
    entries: Seq<FsEntry>,
    j: int,
    base: Seq<char>,
    rel: Seq<char>,
    path: Seq<Seq<char>>,
    name: Seq<char>,
)
    requires
        mode != Mode::RunMake,
        is_test_name(name),
        wf_entries(entries),
        path.len() > 0,
        path[0] != "auxiliary"@,
        0 <= j < entries.len(),
        entries[j].name@ == path[0],
        entries[j].node is Dir,
        reaches_file(entries[j].node, path.drop_first(), name),
    ensures
        count_units_for(
            spec_units_entries(mode, entries, base, rel),
            base,
            rel_of(rel, path),
            name,
        ) == 1,
    decreases entries,
{
    let c = path[0];
    let target = rel_of(rel, path);
    let head = spec_unit_entry(mode, entries[0], base, rel);
    let tail = spec_units_entries(mode, entries.drop_first(), base, rel);
    lemma_count_units_concat(head, tail, base, target, name);
    lemma_wf_entries_each(entries);
    assert(wf_entry_name(c));
    crate::paths::lemma_join_extends(rel, c);
    lemma_rel_of_extends(entries[j].node, path.drop_first(), name, spec_join(rel, c));
    assert(target == rel_of(spec_join(rel, c), path.drop_first()));
    assert(path_extends(target, spec_join(rel, c)));
    assert(target.len() > rel.len());
    if j == 0 {
        lemma_exactly_one_unit_in_tree(
            mode,
            entries[0].node,
            base,
            spec_join(rel, c),
            path.drop_first(),
            name,
        );
        assert(head == spec_units_node(mode, entries[0].node, base, spec_join(rel, c)));
        assert(count_units_for(head, base, target, name) == 1);
        assert forall|k: int|
            0 <= k < entries.drop_first().len() implies ((#[trigger] entries.drop_first()[k]).node
            is Dir ==> entries.drop_first()[k].name@ != c) by {
            assert(entries.drop_first()[k] == entries[k + 1]);
        }
        lemma_entries_all_other_zero(mode, entries.drop_first(), base, rel, target, c, name);
    } else {
        assert(entries[j].name@ != entries[0].name@);
        lemma_entry_other_zero(mode, entries[0], base, rel, target, c, name);
        assert(entries.drop_first()[j - 1] == entries[j]);
        lemma_count_path_entries(mode, entries.drop_first(), j - 1, base, rel, path, name);
    }
}

/// For the whole tree: in the file-unit modes, following any directory
/// path that is walked (no ignore marker on the way, no `auxiliary`
/// component) to a directory holding a qualifying file yields exactly
/// one unit in the collector's whole output that stands for that file at
/// that relative directory.
pub proof fn lemma_exactly_one_unit_in_tree(
    mode: Mode,
    node: FsNode,
    base: Seq<char>,
    rel: Seq<char>,
    path: Seq<Seq<char>>,
    name: Seq<char>,
)
    requires
        mode != Mode::RunMake,
        is_test_name(name),
        wf_node(node),
        reaches_file(node, path, name),
    ensures
        count_units_for(
            spec_units_node(mode, node, base, rel),
            base,
            rel_of(rel, path),
            name,
        ) == 1,
    decreases node,
{
    let entries = node->Dir_0;
    if path.len() == 0 {
        let j = choose|j: int|
            0 <= j < entries@.len() && (#[trigger] entries@[j]).name@ == name && entries@[j].node
                is File;
        lemma_exactly_one_unit_per_file(mode, node, base, rel, j);
    } else {
        let j = choose|j: int|
            0 <= j < entries@.len() && (#[trigger] entries@[j]).name@ == path[0]
                && entries@[j].node is Dir && reaches_file(entries@[j].node, path.drop_first(), name);
        assert(spec_units_node(mode, node, base, rel) == spec_units_entries(
            mode,
            entries@,
            base,
            rel,
        ));
        lemma_count_path_entries(mode, entries@, j, base, rel, path, name);
    }
}


} // verus!
