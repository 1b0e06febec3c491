//! Per-target build pipeline: resolving a source directory, selecting and
//! driving a build strategy, and collecting the produced binaries.
//!
//! Every decision the pipeline takes is a function here: which shell
//! commands resolve the source at a version tag, which strategy a version
//! selects, which binaries a strategy is expected to produce, which of them
//! a collection pass copies, and how a run moves through its stages.  The
//! caller performs the commands and filesystem probes and feeds the results
//! back.

use vstd::prelude::*;

use crate::errors::Failure;
use crate::numtext::spec_dec;
use crate::numtext::usize_to_dec;
use crate::shell::shell_quote;
use crate::shell::spec_shell_quote;
use crate::shell::str_eq;
use crate::version::strip_v;
use crate::version::tag_ok;
use crate::version::validate_version_tag;
use crate::version::BuildStrategy;

verus! {

/// The two source projects this engine can build.
#[derive(Clone, Copy, Debug, PartialEq, Eq, Structural)]
pub enum Project {
    Bitcoin,
    Electrs,
}

/// What the observer asked to compile.
#[derive(Clone, Copy, Debug, PartialEq, Eq, Structural)]
pub enum CompileTarget {
    Bitcoin,
    Electrs,
    Both,
}

/// The stages of one pipeline run.  No stage is ever re-entered; `Done` and
/// `Failed` are terminal.
#[derive(Clone, Copy, Debug, PartialEq, Eq, Structural)]
pub enum Stage {
    Idle,
    ResolvingSource,
    Configuring,
    Building,
    CollectingArtifacts,
    Done,
    Failed,
}

/// The repository the first target project is cloned from.
pub fn bitcoin_repo_url() -> (r: &'static str)
    ensures
        r@ == "https://github.com/bitcoin/bitcoin.git"@,
{
    "https://github.com/bitcoin/bitcoin.git"
}

/// The repository the second target project is cloned from.
pub fn electrs_repo_url() -> (r: &'static str)
    ensures
        r@ == "https://github.com/romanz/electrs.git"@,
{
    "https://github.com/romanz/electrs.git"
}

/// The directory-name slug of a project.
pub open spec fn spec_project_slug(p: Project) -> Seq<char> {
    match p {
        Project::Bitcoin => "bitcoin"@,
        Project::Electrs => "electrs"@,
    }
}

/// The directory-name slug of a project.
pub fn project_slug(p: Project) -> (r: &'static str)
    ensures
        r@ == spec_project_slug(p),
{
    match p {
        Project::Bitcoin => "bitcoin",
        Project::Electrs => "electrs",
    }
}

/// A version identifier counts as loaded once it is non-empty and not the
/// placeholder shown while the version list is still being fetched.
pub open spec fn spec_version_ready(s: Seq<char>) -> bool {
    s.len() > 0 && s != "Loading..."@
}

/// Whether a selected version identifier is ready to build.
pub fn version_ready(s: &str) -> (r: bool)
    ensures
        r == spec_version_ready(s@),
{
    !s.is_empty() && !str_eq(s, "Loading...")
}

/// Whether every version the target needs is ready; a build must not start
/// before this holds.
pub fn target_ready(target: CompileTarget, bitcoin_sel: &str, electrs_sel: &str) -> (r: bool)
    ensures
        r == ({
            &&& (target == CompileTarget::Bitcoin || target == CompileTarget::Both)
                ==> spec_version_ready(bitcoin_sel@)
            &&& (target == CompileTarget::Electrs || target == CompileTarget::Both)
                ==> spec_version_ready(electrs_sel@)
        }),
{
    let needs_bitcoin = match target {
        CompileTarget::Bitcoin | CompileTarget::Both => true,
        CompileTarget::Electrs => false,
    };
    let needs_electrs = match target {
        CompileTarget::Electrs | CompileTarget::Both => true,
        CompileTarget::Bitcoin => false,
    };
    (!needs_bitcoin || version_ready(bitcoin_sel)) && (!needs_electrs || version_ready(
        electrs_sel,
    ))
}

/// The projects a target asks for, in the order they run.
pub fn targets_of(target: CompileTarget) -> (r: Vec<Project>)
    ensures
        r@ == match target {
            CompileTarget::Bitcoin => seq![Project::Bitcoin],
            CompileTarget::Electrs => seq![Project::Electrs],
            CompileTarget::Both => seq![Project::Bitcoin, Project::Electrs],
        },
{
    let mut v: Vec<Project> = Vec::new();
    match target {
        CompileTarget::Bitcoin => {
            v.push(Project::Bitcoin);
        },
        CompileTarget::Electrs => {
            v.push(Project::Electrs);
        },
        CompileTarget::Both => {
            v.push(Project::Bitcoin);
            v.push(Project::Electrs);
        },
    }
    proof {
        match target {
            CompileTarget::Bitcoin => assert(v@ =~= seq![Project::Bitcoin]),
            CompileTarget::Electrs => assert(v@ =~= seq![Project::Electrs]),
            CompileTarget::Both => assert(v@ =~= seq![Project::Bitcoin, Project::Electrs]),
        }
    }
    v
}

/// When two targets are requested together, the second runs exactly when the
/// first succeeded: a failure aborts everything that follows.
pub fn proceed_to_second(first_ok: bool) -> (r: bool)
    ensures
        r == first_ok,
{
    first_ok
}

/// The version with leading `v`s stripped, as interpolated into directory
/// names.
pub fn normalize_version<'a>(tag: &'a str) -> (r: &'a str)
    ensures
        r@ == strip_v(tag@),
{
    let n = tag.unicode_len();
    let mut v0: usize = 0;
    while v0 < n && tag.get_char(v0) == 'v'
        invariant
            n == tag@.len(),
            v0 <= n,
            forall|j: int| 0 <= j < v0 ==> #[trigger] tag@[j] == 'v',
        decreases n - v0,
    {
        v0 = v0 + 1;
    }
    proof {
        crate::version::lemma_strip_v_at(tag@, v0 as int);
    }
    let r = tag.substring_char(v0, n);
    proof {
        assert(r@ =~= tag@.skip(v0 as int));
    }
    r
}

/// The name of the directory the project's source is cloned into, under the
/// caller's root: `<project>-<version without leading v>`.
pub open spec fn spec_source_dir_name(p: Project, version: Seq<char>) -> Seq<char> {
    spec_project_slug(p) + "-"@ + strip_v(version)
}

/// The source directory name for a project at a version.
pub fn source_dir_name(p: Project, version: &str) -> (r: String)
    ensures
        r@ == spec_source_dir_name(p, version@),
{
    let r = String::from_str(project_slug(p)).concat("-").concat(normalize_version(version));
    proof {
        assert(r@ =~= spec_source_dir_name(p, version@));
    }
    r
}

/// The directory the copied binaries land in, relative to the caller's
/// root: `binaries/<project>-<version without leading v>`.
pub open spec fn spec_output_dir_rel(p: Project, version: Seq<char>) -> Seq<char> {
    "binaries/"@ + spec_project_slug(p) + "-"@ + strip_v(version)
}

/// The output directory for a project at a version, relative to the root.
pub fn output_dir_rel(p: Project, version: &str) -> (r: String)
    ensures
        r@ == spec_output_dir_rel(p, version@),
{
    let r = String::from_str("binaries/").concat(project_slug(p)).concat("-").concat(
        normalize_version(version),
    );
    proof {
        assert(r@ =~= spec_output_dir_rel(p, version@));
    }
    r
}

/// The shell command that clones `repo_url` at `version` into `dest`.
pub open spec fn spec_clone_command(version: Seq<char>, repo_url: Seq<char>, dest: Seq<char>) -> Seq<
    char,
> {
    "git clone --depth 1 --branch "@ + spec_shell_quote(version) + " "@ + spec_shell_quote(repo_url)
        + " "@ + spec_shell_quote(dest)
}

/// The shell command that fetches only the tag `version`.
pub open spec fn spec_fetch_command(version: Seq<char>) -> Seq<char> {
    "git fetch --depth 1 origin tag "@ + spec_shell_quote(version)
}

/// The shell command that checks out `version`.
pub open spec fn spec_checkout_command(version: Seq<char>) -> Seq<char> {
    "git checkout "@ + spec_shell_quote(version)
}

/// The commands that resolve the source directory to `version`: a shallow
/// clone when the directory does not exist yet, otherwise a fetch of the one
/// tag followed by a checkout (a fast-forward update in place).  The version
/// tag is validated before it is interpolated anywhere; every interpolated
/// value is quoted for POSIX shell safety.
pub fn source_commands(dir_exists: bool, version: &str, repo_url: &str, dest: &str) -> (r: Result<
    Vec<String>,
    Failure,
>)
    ensures
        r is Ok <==> tag_ok(version@),
        r is Ok ==> r->Ok_0.deep_view() == if dir_exists {
            seq![spec_fetch_command(version@), spec_checkout_command(version@)]
        } else {
            seq![spec_clone_command(version@, repo_url@, dest@)]
        },
        r is Err ==> r->Err_0.message@ == "Version tag contains unexpected characters: "@
            + version@,
{
    match validate_version_tag(version) {
        Err(e) => Err(e),
        Ok(()) => {
            let mut cmds: Vec<String> = Vec::new();
            if dir_exists {
                let fetch = String::from_str("git fetch --depth 1 origin tag ").concat(
                    shell_quote(version).as_str(),
                );
                let checkout = String::from_str("git checkout ").concat(
                    shell_quote(version).as_str(),
                );
                proof {
                    assert(fetch@ =~= spec_fetch_command(version@));
                    assert(checkout@ =~= spec_checkout_command(version@));
                }
                cmds.push(fetch);
                cmds.push(checkout);
                proof {
                    assert(cmds.deep_view() =~= seq![
                        spec_fetch_command(version@),
                        spec_checkout_command(version@),
                    ]);
                }
            } else {
                let clone = String::from_str("git clone --depth 1 --branch ").concat(
                    shell_quote(version).as_str(),
                ).concat(" ").concat(shell_quote(repo_url).as_str()).concat(" ").concat(
                    shell_quote(dest).as_str(),
                );
                proof {
                    assert(clone@ =~= spec_clone_command(version@, repo_url@, dest@));
                }
                cmds.push(clone);
                proof {
                    assert(cmds.deep_view() =~= seq![
                        spec_clone_command(version@, repo_url@, dest@),
                    ]);
                }
            }
            Ok(cmds)
        },
    }
}

/// The build commands a strategy runs in the source directory, in order:
/// the legacy toolchain bootstraps, configures with the optional wallet and
/// GUI components disabled, then compiles with `cores` parallel jobs; the
/// modern toolchain configures a build directory with the same component
/// flags, then drives a parallel build over it.
pub open spec fn spec_strategy_commands(s: BuildStrategy, cores: int) -> Seq<Seq<char>> {
    match s {
        BuildStrategy::Legacy => seq![
            "./autogen.sh"@,
            "./configure --disable-wallet --disable-gui"@,
            "make -j"@ + spec_dec(cores),
        ],
        BuildStrategy::Modern => seq![
            "cmake -B build -DENABLE_WALLET=OFF -DENABLE_IPC=OFF"@,
            "cmake --build build -j"@ + spec_dec(cores),
        ],
    }
}

/// The build commands for a strategy at a parallelism.
pub fn strategy_commands(s: BuildStrategy, cores: usize) -> (r: Vec<String>)
    ensures
        r.deep_view() == spec_strategy_commands(s, cores as int),
{
    let mut v: Vec<String> = Vec::new();
    match s {
        BuildStrategy::Legacy => {
            v.push(String::from_str("./autogen.sh"));
            v.push(String::from_str("./configure --disable-wallet --disable-gui"));
            let make = String::from_str("make -j").concat(usize_to_dec(cores).as_str());
            v.push(make);
            proof {
                assert(v.deep_view() =~= spec_strategy_commands(s, cores as int));
            }
        },
        BuildStrategy::Modern => {
            v.push(String::from_str("cmake -B build -DENABLE_WALLET=OFF -DENABLE_IPC=OFF"));
            let build = String::from_str("cmake --build build -j").concat(
                usize_to_dec(cores).as_str(),
            );
            v.push(build);
            proof {
                assert(v.deep_view() =~= spec_strategy_commands(s, cores as int));
            }
        },
    }
    v
}

/// The binaries a strategy is expected to leave, relative to the source
/// directory.  Some may legitimately not exist for a given version.
pub open spec fn spec_expected_binaries(s: BuildStrategy) -> Seq<Seq<char>> {
    match s {
        BuildStrategy::Legacy => seq![
            "bin/bitcoind"@,
            "bin/bitcoin-cli"@,
            "bin/bitcoin-tx"@,
            "bin/bitcoin-wallet"@,
        ],
        BuildStrategy::Modern => seq![
            "build/bin/bitcoind"@,
            "build/bin/bitcoin-cli"@,
            "build/bin/bitcoin-tx"@,
            "build/bin/bitcoin-wallet"@,
            "build/bin/bitcoin-util"@,
        ],
    }
}

/// The expected binaries of a strategy.
pub fn expected_binaries(s: BuildStrategy) -> (r: Vec<String>)
    ensures
        r.deep_view() == spec_expected_binaries(s),
{
    let mut v: Vec<String> = Vec::new();
    match s {
        BuildStrategy::Legacy => {
            v.push(String::from_str("bin/bitcoind"));
            v.push(String::from_str("bin/bitcoin-cli"));
            v.push(String::from_str("bin/bitcoin-tx"));
            v.push(String::from_str("bin/bitcoin-wallet"));
            proof {
                assert(v.deep_view() =~= spec_expected_binaries(s));
            }
        },
        BuildStrategy::Modern => {
            v.push(String::from_str("build/bin/bitcoind"));
            v.push(String::from_str("build/bin/bitcoin-cli"));
            v.push(String::from_str("build/bin/bitcoin-tx"));
            v.push(String::from_str("build/bin/bitcoin-wallet"));
            v.push(String::from_str("build/bin/bitcoin-util"));
            proof {
                assert(v.deep_view() =~= spec_expected_binaries(s));
            }
        },
    }
    v
}

/// The single release-build command of the second target project.
pub open spec fn spec_electrs_build_command(cores: int) -> Seq<char> {
    "cargo build --release --jobs "@ + spec_dec(cores)
}

/// The release-build command of the second target project.
pub fn electrs_build_command(cores: usize) -> (r: String)
    ensures
        r@ == spec_electrs_build_command(cores as int),
{
    let r = String::from_str("cargo build --release --jobs ").concat(usize_to_dec(cores).as_str());
    proof {
        assert(r@ =~= spec_electrs_build_command(cores as int));
    }
    r
}

/// The one binary the second target project produces, relative to the
/// source directory; its absence after a successful build is a hard failure.
pub fn electrs_binary_rel() -> (r: &'static str)
    ensures
        r@ == "target/release/electrs"@,
{
    "target/release/electrs"
}

/// An expected binary path together with whether it exists on disk, as the
/// caller probed it.
pub struct CollectEntry {
    pub path: String,
    pub exists: bool,
}

impl View for CollectEntry {
    type V = (Seq<char>, bool);

    open spec fn view(&self) -> (Seq<char>, bool) {
        (self.path@, self.exists)
    }
}

/// The paths a collection pass copies: exactly the expected binaries that
/// exist, in their expected order.  A missing one is skipped with a warning,
/// never a failure.
pub open spec fn spec_collect(s: Seq<(Seq<char>, bool)>) -> Seq<Seq<char>>
    decreases s.len(),
{
    if s.len() == 0 {
        Seq::empty()
    } else {
        spec_collect(s.drop_last()) + if s.last().1 {
            seq![s.last().0]
        } else {
            Seq::empty()
        }
    }
}

/// Plan a collection pass: of the expected binaries, exactly those that
/// exist are copied, in order.
pub fn collect_plan(entries: &Vec<CollectEntry>) -> (r: Vec<String>)
    ensures
        r.deep_view() == spec_collect(entries@.map_values(|e: CollectEntry| e@)),
{
    let ghost all = entries@.map_values(|e: CollectEntry| e@);
    let mut out: Vec<String> = Vec::new();
    let n = entries.len();
    let mut i: usize = 0;
    while i < n
        invariant
            n == entries.len(),
            i <= n,
            all == entries@.map_values(|e: CollectEntry| e@),
            out.deep_view() == spec_collect(all.take(i as int)),
        decreases n - i,
    {
        proof {
            assert(all.take(i + 1).drop_last() =~= all.take(i as int));
            assert(all.take(i + 1).last() == all[i as int]);
        }
        if entries[i].exists {
            out.push(entries[i].path.clone());
            proof {
                assert(out.deep_view() =~= spec_collect(all.take(i as int)) + seq![
                    all[i as int].0,
                ]);
            }
        } else {
            proof {
                assert(spec_collect(all.take(i + 1)) =~= spec_collect(all.take(i as int)));
            }
        }
        i = i + 1;
    }
    proof {
        assert(all.take(n as int) =~= all);
    }
    out
}

/// The existence flags that probing `paths` on `disk` yields: a path absent
/// from the map does not exist.
pub open spec fn spec_probe(disk: Map<Seq<char>, bool>, paths: Seq<Seq<char>>) -> Seq<
    (Seq<char>, bool),
> {
    paths.map_values(|p: Seq<char>| (p, disk.contains_key(p) && disk[p]))
}

/// Binary collection is idempotent: what a collection pass copies depends
/// only on which of the expected paths exist.  Copies land under the output
/// directory, never among the expected build paths, so after one pass the
/// probes of a second pass over the same completed build directory agree
/// with the first — on any disk state that agrees on the expected paths,
/// collection copies exactly the same binaries.
pub proof fn lemma_collect_idempotent(
    disk1: Map<Seq<char>, bool>,
    disk2: Map<Seq<char>, bool>,
    paths: Seq<Seq<char>>,
)
    requires
        forall|i: int|
            0 <= i < paths.len() ==> ((disk1.contains_key(#[trigger] paths[i]) && disk1[paths[i]])
                == (disk2.contains_key(paths[i]) && disk2[paths[i]])),
    ensures
        spec_collect(spec_probe(disk1, paths)) == spec_collect(spec_probe(disk2, paths)),
{
    assert(spec_probe(disk1, paths) =~= spec_probe(disk2, paths));
}

/// Whether a stage is terminal: nothing runs after `Done` or `Failed`.
pub open spec fn spec_stage_terminal(s: Stage) -> bool {
    s == Stage::Done || s == Stage::Failed
}

/// The successor of each stage on success.
pub open spec fn spec_next_stage(s: Stage) -> Stage {
    match s {
        Stage::Idle => Stage::ResolvingSource,
        Stage::ResolvingSource => Stage::Configuring,
        Stage::Configuring => Stage::Building,
        Stage::Building => Stage::CollectingArtifacts,
        Stage::CollectingArtifacts => Stage::Done,
        Stage::Done => Stage::Done,
        Stage::Failed => Stage::Failed,
    }
}

/// The position of a stage along the normal path.
pub open spec fn stage_index(s: Stage) -> int {
    match s {
        Stage::Idle => 0,
        Stage::ResolvingSource => 1,
        Stage::Configuring => 2,
        Stage::Building => 3,
        Stage::CollectingArtifacts => 4,
        Stage::Done => 5,
        Stage::Failed => 6,
    }
}

/// Where one step takes a run: forward on success, to `Failed` otherwise.
pub open spec fn spec_advance_stage(s: Stage, ok: bool) -> Stage {
    if ok {
        spec_next_stage(s)
    } else {
        Stage::Failed
    }
}

/// Take one step of a pipeline run: the stage's work succeeded or failed.
pub fn advance_stage(s: Stage, ok: bool) -> (r: Stage)
    requires
        !spec_stage_terminal(s),
    ensures
        r == spec_advance_stage(s, ok),
{
    if ok {
        match s {
            Stage::Idle => Stage::ResolvingSource,
            Stage::ResolvingSource => Stage::Configuring,
            Stage::Configuring => Stage::Building,
            Stage::Building => Stage::CollectingArtifacts,
            Stage::CollectingArtifacts => Stage::Done,
            Stage::Done => Stage::Done,
            Stage::Failed => Stage::Failed,
        }
    } else {
        Stage::Failed
    }
}

/// No stage is ever re-entered: a successful step strictly advances along
/// the normal path, and any failure lands in `Failed`, which is terminal —
/// so the remaining stages of a failed run never execute.
pub proof fn lemma_stage_no_reentry(s: Stage, ok: bool)
    requires
        !spec_stage_terminal(s),
    ensures
        ok ==> stage_index(spec_advance_stage(s, ok)) == stage_index(s) + 1,
        !ok ==> spec_advance_stage(s, ok) == Stage::Failed && spec_stage_terminal(
            spec_advance_stage(s, ok),
        ),
{
}

/// The coarse progress milestone reported on entering a stage, in
/// thousandths of the whole: strategy-specific constants, not computed from
/// real work done.
pub open spec fn spec_stage_progress(p: Project, s: Stage) -> int {
    match s {
        Stage::Idle => 0,
        Stage::ResolvingSource => 100,
        Stage::Configuring => 300,
        Stage::Building => 500,
        Stage::CollectingArtifacts => match p {
            Project::Bitcoin => 900,
            Project::Electrs => 850,
        },
        Stage::Done => 1000,
        Stage::Failed => 0,
    }
}

/// The progress milestone for entering a stage, clamped by construction
/// into the progress range.
pub fn stage_progress(p: Project, s: Stage) -> (r: u32)
    ensures
        r as int == spec_stage_progress(p, s),
        r <= crate::messages::PROGRESS_FULL,
{
    match s {
        Stage::Idle => 0,
        Stage::ResolvingSource => 100,
        Stage::Configuring => 300,
        Stage::Building => 500,
        Stage::CollectingArtifacts => match p {
            Project::Bitcoin => 900,
            Project::Electrs => 850,
        },
        Stage::Done => 1000,
        Stage::Failed => 0,
    }
}

/// Progress feedback is monotonic while a run advances normally: each
/// successful step's milestone is at least the previous stage's.
pub proof fn lemma_progress_monotone(p: Project, s: Stage)
    requires
        !spec_stage_terminal(s),
    ensures
        spec_stage_progress(p, spec_next_stage(s)) >= spec_stage_progress(p, s),
{
}

} // verus!
