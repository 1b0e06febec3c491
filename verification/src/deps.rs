//! Dependency resolution: the package catalogue, the interactive
//! confirmation protocol, and the toolchain check.
//!
//! The checker probes a fixed catalogue of required packages; when some are
//! missing it composes a summary, asks the observer once, and — only on a
//! yes — installs the missing ones serially, best-effort: one failed
//! install is reported but never aborts its siblings.  Independently it
//! probes the language toolchain, with a single install-and-reprobe
//! fallback and no retries beyond it.

use vstd::prelude::*;

use crate::numtext::spec_dec;
use crate::numtext::usize_to_dec;
use crate::shell::dquote;
use crate::shell::join_with;
use crate::shell::spec_join_with;
use crate::shell::spec_dquote;

verus! {

/// The names of the required packages, in probe order.
pub open spec fn spec_package_catalogue() -> Seq<Seq<char>> {
    seq![
        "automake"@,
        "libtool"@,
        "pkg-config"@,
        "boost"@,
        "miniupnpc"@,
        "zeromq"@,
        "sqlite"@,
        "python"@,
        "cmake"@,
        "llvm"@,
        "libevent"@,
        "rocksdb"@,
        "rust"@,
        "git"@,
    ]
}

/// The fixed catalogue of packages required for both target projects.
pub fn package_catalogue() -> (r: Vec<String>)
    ensures
        r.deep_view() == spec_package_catalogue(),
{
    let mut v: Vec<String> = Vec::new();
    v.push(String::from_str("automake"));
    v.push(String::from_str("libtool"));
    v.push(String::from_str("pkg-config"));
    v.push(String::from_str("boost"));
    v.push(String::from_str("miniupnpc"));
    v.push(String::from_str("zeromq"));
    v.push(String::from_str("sqlite"));
    v.push(String::from_str("python"));
    v.push(String::from_str("cmake"));
    v.push(String::from_str("llvm"));
    v.push(String::from_str("libevent"));
    v.push(String::from_str("rocksdb"));
    v.push(String::from_str("rust"));
    v.push(String::from_str("git"));
    proof {
        assert(v.deep_view() =~= spec_package_catalogue());
    }
    v
}

/// The packages whose probe came back negative, in catalogue order.
pub open spec fn spec_missing(names: Seq<Seq<char>>, present: Seq<bool>) -> Seq<Seq<char>>
    decreases names.len(),
{
    if names.len() == 0 {
        Seq::empty()
    } else {
        spec_missing(names.drop_last(), present.drop_last()) + if !present[names.len() - 1] {
            seq![names.last()]
        } else {
            Seq::empty()
        }
    }
}

/// Of `names`, those whose probe said "not installed", in order.
pub fn missing_packages(names: &Vec<String>, present: &Vec<bool>) -> (r: Vec<String>)
    requires
        names@.len() == present@.len(),
    ensures
        r.deep_view() == spec_missing(names.deep_view(), present@),
{
    let ghost all = names.deep_view();
    let mut out: Vec<String> = Vec::new();
    let n = names.len();
    let mut i: usize = 0;
    while i < n
        invariant
            n == names@.len(),
            n == present@.len(),
            i <= n,
            all == names.deep_view(),
            out.deep_view() == spec_missing(all.take(i as int), present@.take(i as int)),
        decreases n - i,
    {
        proof {
            assert(all.take(i + 1).drop_last() =~= all.take(i as int));
            assert(present@.take(i + 1).drop_last() =~= present@.take(i as int));
            assert(all.take(i + 1).last() == all[i as int]);
        }
        if !present[i] {
            out.push(names[i].clone());
            proof {
                assert(out.deep_view() =~= spec_missing(all.take(i as int), present@.take(i as int))
                    + seq![all[i as int]]);
            }
        } else {
            proof {
                assert(spec_missing(all.take(i + 1), present@.take(i + 1)) =~= spec_missing(
                    all.take(i as int),
                    present@.take(i as int),
                ));
            }
        }
        i = i + 1;
    }
    proof {
        assert(all.take(n as int) =~= all);
        assert(present@.take(n as int) =~= present@);
    }
    out
}

/// The title of the confirmation the checker issues.
pub fn confirm_title() -> (r: &'static str)
    ensures
        r@ == "Install Missing Dependencies"@,
{
    "Install Missing Dependencies"
}

/// The body of the confirmation: the count, the first five names, and
/// `, and N more` when the list is longer.
pub open spec fn spec_missing_summary(missing: Seq<Seq<char>>) -> Seq<char> {
    let count = missing.len() as int;
    "Found "@ + spec_dec(count) + " missing package"@ + (if count == 1 {
        ""@
    } else {
        "s"@
    }) + ":\n\n"@ + spec_join_with(
        if count > 5 {
            missing.take(5)
        } else {
            missing
        },
        ", "@,
    ) + (if count > 5 {
        ", and "@ + spec_dec(count - 5) + " more"@
    } else {
        ""@
    }) + "\n\nInstall all missing packages now?"@
}

/// Compose the confirmation body for a missing-package list.
pub fn missing_summary(missing: &Vec<String>) -> (r: String)
    ensures
        r@ == spec_missing_summary(missing.deep_view()),
{
    let count = missing.len();
    let mut preview_src: Vec<String> = Vec::new();
    let limit: usize = if count > 5 {
        5
    } else {
        count
    };
    let mut i: usize = 0;
    while i < limit
        invariant
            limit <= missing@.len(),
            i <= limit,
            preview_src.deep_view() == missing.deep_view().take(i as int),
        decreases limit - i,
    {
        let ghost pre = preview_src.deep_view();
        let cloned = missing[i].clone();
        proof {
            assert(cloned.deep_view() == missing.deep_view()[i as int]);
        }
        preview_src.push(cloned);
        proof {
            assert(preview_src.deep_view() =~= pre.push(missing.deep_view()[i as int]));
            assert(pre.push(missing.deep_view()[i as int]) =~= missing.deep_view().take(i + 1));
        }
        i = i + 1;
    }
    proof {
        if count <= 5 {
            assert(missing.deep_view().take(count as int) =~= missing.deep_view());
        }
    }
    let preview = join_with(&preview_src, ", ");
    let mut r = String::from_str("Found ").concat(usize_to_dec(count).as_str()).concat(
        " missing package",
    );
    if count != 1 {
        r = r.concat("s");
    }
    r = r.concat(":\n\n").concat(preview.as_str());
    if count > 5 {
        r = r.concat(", and ").concat(usize_to_dec(count - 5).as_str()).concat(" more");
    }
    r = r.concat("\n\nInstall all missing packages now?");
    proof {
        reveal_strlit("");
        assert(""@ =~= Seq::<char>::empty());
        assert(r@ =~= spec_missing_summary(missing.deep_view()));
    }
    r
}

/// The shell command installing one package: the installer path is
/// double-quoted, the package name comes from the fixed catalogue.
pub open spec fn spec_install_command(brew: Seq<char>, pkg: Seq<char>) -> Seq<char> {
    spec_dquote(brew) + " install "@ + pkg
}

/// The install command for one package.
pub fn install_command(brew: &str, pkg: &str) -> (r: String)
    ensures
        r@ == spec_install_command(brew@, pkg@),
{
    let r = dquote(brew).concat(" install ").concat(pkg);
    proof {
        assert(r@ =~= spec_install_command(brew@, pkg@));
    }
    r
}

/// The phases of one dependency-resolution run.
#[derive(Clone, Copy, Debug, PartialEq, Eq, Structural)]
pub enum DepsPhase {
    /// Probing each catalogue package.
    CheckingPackages,
    /// A confirmation is outstanding; the run is suspended on its reply.
    AwaitingConfirmation,
    /// Installing the confirmed-missing packages serially.
    Installing,
    /// Probing the language toolchain.
    CheckingToolchain,
    /// Finished; the result says whether everything is ready.
    Complete,
}

/// Where the run goes once all package probes are in, and whether it must
/// issue a confirmation request: it asks exactly when something is missing
/// — with zero missing packages no confirmation is ever issued.
pub fn deps_after_probes(missing_count: usize) -> (r: (DepsPhase, bool))
    ensures
        r.1 == (missing_count > 0),
        r.0 == if missing_count > 0 {
            DepsPhase::AwaitingConfirmation
        } else {
            DepsPhase::CheckingToolchain
        },
{
    if missing_count > 0 {
        (DepsPhase::AwaitingConfirmation, true)
    } else {
        (DepsPhase::CheckingToolchain, false)
    }
}

/// Where the run goes on the confirmation reply: installs on a yes,
/// straight to the toolchain check on a no (or a dropped reply slot, which
/// counts as a no) — a decline never blocks the run.
pub fn deps_after_reply(accepted: bool) -> (r: DepsPhase)
    ensures
        r == if accepted {
            DepsPhase::Installing
        } else {
            DepsPhase::CheckingToolchain
        },
{
    if accepted {
        DepsPhase::Installing
    } else {
        DepsPhase::CheckingToolchain
    }
}

/// Installing is best-effort: whatever failed, the run continues with the
/// toolchain check afterwards.
pub fn deps_after_installs() -> (r: DepsPhase)
    ensures
        r == DepsPhase::CheckingToolchain,
{
    DepsPhase::CheckingToolchain
}

/// The phases of the toolchain check.
#[derive(Clone, Copy, Debug, PartialEq, Eq, Structural)]
pub enum ToolchainPhase {
    /// Probing the two tools.
    Probing,
    /// Asking the package manager whether it can provide the toolchain.
    CheckingFormula,
    /// The install attempt is running.
    Installing,
    /// The single re-probe after the install attempt.
    Reprobing,
    /// Both tools are present.
    Ready,
    /// The package manager cannot provide the toolchain: terminal, with
    /// manual-install guidance.
    ManualInstallNeeded,
    /// Installed, but the tools are still not on the search path: not
    /// ready; a restart is required rather than endless retries.
    RestartNeeded,
    /// The install attempt itself failed: terminal.
    InstallFailed,
}

/// Whether a toolchain phase ends the check.
pub open spec fn spec_toolchain_terminal(p: ToolchainPhase) -> bool {
    match p {
        ToolchainPhase::Ready
        | ToolchainPhase::ManualInstallNeeded
        | ToolchainPhase::RestartNeeded
        | ToolchainPhase::InstallFailed => true,
        _ => false,
    }
}

/// After the first probes: ready when both tools answered, otherwise ask
/// the package manager.
pub fn toolchain_after_probe(rustc_ok: bool, cargo_ok: bool) -> (r: ToolchainPhase)
    ensures
        r == if rustc_ok && cargo_ok {
            ToolchainPhase::Ready
        } else {
            ToolchainPhase::CheckingFormula
        },
{
    if rustc_ok && cargo_ok {
        ToolchainPhase::Ready
    } else {
        ToolchainPhase::CheckingFormula
    }
}

/// After the formula check: install when the package manager knows the
/// toolchain, otherwise fail with manual-install guidance.
pub fn toolchain_after_formula(known: bool) -> (r: ToolchainPhase)
    ensures
        r == if known {
            ToolchainPhase::Installing
        } else {
            ToolchainPhase::ManualInstallNeeded
        },
{
    if known {
        ToolchainPhase::Installing
    } else {
        ToolchainPhase::ManualInstallNeeded
    }
}

/// After the install attempt: re-probe once on success, fail otherwise.
pub fn toolchain_after_install(ok: bool) -> (r: ToolchainPhase)
    ensures
        r == if ok {
            ToolchainPhase::Reprobing
        } else {
            ToolchainPhase::InstallFailed
        },
{
    if ok {
        ToolchainPhase::Reprobing
    } else {
        ToolchainPhase::InstallFailed
    }
}

/// After the single re-probe: ready when both tools answered; otherwise a
/// restart is required — the check is never repeated.
pub fn toolchain_after_reprobe(rustc_ok: bool, cargo_ok: bool) -> (r: ToolchainPhase)
    ensures
        r == if rustc_ok && cargo_ok {
            ToolchainPhase::Ready
        } else {
            ToolchainPhase::RestartNeeded
        },
        spec_toolchain_terminal(r),
{
    if rustc_ok && cargo_ok {
        ToolchainPhase::Ready
    } else {
        ToolchainPhase::RestartNeeded
    }
}

/// The check's result: ready exactly in the `Ready` phase.
pub fn toolchain_ready(p: ToolchainPhase) -> (r: bool)
    requires
        spec_toolchain_terminal(p),
    ensures
        r == (p == ToolchainPhase::Ready),
{
    match p {
        ToolchainPhase::Ready => true,
        _ => false,
    }
}

} // verus!
