use bitforge::pipeline::advance_stage;
use bitforge::pipeline::collect_plan;
use bitforge::pipeline::electrs_binary_rel;
use bitforge::pipeline::electrs_build_command;
use bitforge::pipeline::expected_binaries;
use bitforge::pipeline::normalize_version;
use bitforge::pipeline::output_dir_rel;
use bitforge::pipeline::proceed_to_second;
use bitforge::pipeline::project_slug;
use bitforge::pipeline::source_commands;
use bitforge::pipeline::source_dir_name;
use bitforge::pipeline::stage_progress;
use bitforge::pipeline::strategy_commands;
use bitforge::pipeline::target_ready;
use bitforge::pipeline::targets_of;
use bitforge::pipeline::version_ready;
use bitforge::pipeline::CollectEntry;
use bitforge::pipeline::CompileTarget;
use bitforge::pipeline::Project;
use bitforge::pipeline::Stage;
use bitforge::version::select_strategy;
use bitforge::version::BuildStrategy;

#[test]
fn version_readiness_rejects_placeholders() {
    assert!(version_ready("v25.0"));
    assert!(!version_ready(""));
    assert!(!version_ready("Loading..."));
    assert!(target_ready(CompileTarget::Electrs, "Loading...", "v0.10.9"));
    assert!(!target_ready(CompileTarget::Both, "Loading...", "v0.10.9"));
    assert!(target_ready(CompileTarget::Both, "v25.0", "v0.10.9"));
}

#[test]
fn targets_run_in_order_and_stop_after_a_failure() {
    assert_eq!(targets_of(CompileTarget::Both), vec![Project::Bitcoin, Project::Electrs]);
    assert_eq!(targets_of(CompileTarget::Bitcoin), vec![Project::Bitcoin]);
    assert!(proceed_to_second(true));
    assert!(!proceed_to_second(false));
}

#[test]
fn directory_names_strip_the_version_prefix() {
    assert_eq!(normalize_version("v25.0"), "25.0");
    assert_eq!(normalize_version("25.0"), "25.0");
    assert_eq!(source_dir_name(Project::Bitcoin, "v25.0"), "bitcoin-25.0");
    assert_eq!(source_dir_name(Project::Electrs, "v0.10.9"), "electrs-0.10.9");
    assert_eq!(output_dir_rel(Project::Bitcoin, "v24.0"), "binaries/bitcoin-24.0");
    assert_eq!(project_slug(Project::Electrs), "electrs");
}

#[test]
fn clone_and_update_commands_quote_every_interpolation() {
    let clone = source_commands(
        false,
        "v25.0",
        "https://github.com/bitcoin/bitcoin.git",
        "/tmp/builds/bitcoin-25.0",
    )
    .unwrap();
    assert_eq!(
        clone,
        vec![
            "git clone --depth 1 --branch 'v25.0' 'https://github.com/bitcoin/bitcoin.git' '/tmp/builds/bitcoin-25.0'"
        ]
    );
    let update = source_commands(
        true,
        "v25.0",
        "https://github.com/bitcoin/bitcoin.git",
        "/tmp/builds/bitcoin-25.0",
    )
    .unwrap();
    assert_eq!(
        update,
        vec!["git fetch --depth 1 origin tag 'v25.0'", "git checkout 'v25.0'"]
    );
}

#[test]
fn invalid_tags_never_reach_a_command_line() {
    let r = source_commands(false, "v25.0; rm -rf /", "url", "dest");
    let e = r.unwrap_err();
    assert_eq!(
        e.text(),
        "Version tag contains unexpected characters: v25.0; rm -rf /"
    );
}

#[test]
fn legacy_strategy_commands() {
    assert_eq!(
        strategy_commands(BuildStrategy::Legacy, 7),
        vec!["./autogen.sh", "./configure --disable-wallet --disable-gui", "make -j7"]
    );
    assert_eq!(
        expected_binaries(BuildStrategy::Legacy),
        vec!["bin/bitcoind", "bin/bitcoin-cli", "bin/bitcoin-tx", "bin/bitcoin-wallet"]
    );
}

#[test]
fn modern_strategy_commands() {
    assert_eq!(
        strategy_commands(BuildStrategy::Modern, 8),
        vec!["cmake -B build -DENABLE_WALLET=OFF -DENABLE_IPC=OFF", "cmake --build build -j8"]
    );
    assert_eq!(
        expected_binaries(BuildStrategy::Modern),
        vec![
            "build/bin/bitcoind",
            "build/bin/bitcoin-cli",
            "build/bin/bitcoin-tx",
            "build/bin/bitcoin-wallet",
            "build/bin/bitcoin-util"
        ]
    );
}

#[test]
fn electrs_build_is_a_single_release_step() {
    assert_eq!(electrs_build_command(4), "cargo build --release --jobs 4");
    assert_eq!(electrs_binary_rel(), "target/release/electrs");
}

#[test]
fn collection_copies_exactly_what_exists() {
    let entries = vec![
        CollectEntry { path: "bin/bitcoind".into(), exists: true },
        CollectEntry { path: "bin/bitcoin-cli".into(), exists: false },
        CollectEntry { path: "bin/bitcoin-tx".into(), exists: true },
    ];
    assert_eq!(collect_plan(&entries), vec!["bin/bitcoind", "bin/bitcoin-tx"]);
}

#[test]
fn collection_twice_over_unchanged_sources_is_identical() {
    let entries = vec![
        CollectEntry { path: "bin/bitcoind".into(), exists: true },
        CollectEntry { path: "bin/bitcoin-wallet".into(), exists: false },
    ];
    let first = collect_plan(&entries);
    let second = collect_plan(&entries);
    assert_eq!(first, second);
}

#[test]
fn stages_advance_and_fail_terminally() {
    let mut s = Stage::Idle;
    for expected in [
        Stage::ResolvingSource,
        Stage::Configuring,
        Stage::Building,
        Stage::CollectingArtifacts,
        Stage::Done,
    ] {
        s = advance_stage(s, true);
        assert_eq!(s, expected);
    }
    assert_eq!(advance_stage(Stage::Building, false), Stage::Failed);
}

#[test]
fn progress_milestones_are_monotonic_and_end_at_full() {
    let mut last = 0;
    let mut s = Stage::Idle;
    while s != Stage::Done {
        let p = stage_progress(Project::Bitcoin, s);
        assert!(p >= last);
        last = p;
        s = advance_stage(s, true);
    }
    assert_eq!(stage_progress(Project::Bitcoin, Stage::Done), 1000);
    assert_eq!(stage_progress(Project::Electrs, Stage::CollectingArtifacts), 850);
}

#[test]
fn legacy_end_to_end_plan_for_v24() {
    // A legacy-strategy request for version "v24.0" against an empty output
    // root: the plan clones, runs the legacy steps, and collects exactly
    // the fixed artifact list intersected with what exists on disk, into
    // binaries/bitcoin-24.0.
    let version = "v24.0";
    let strategy = select_strategy(version);
    assert_eq!(strategy, BuildStrategy::Legacy);

    let cmds = source_commands(
        false,
        version,
        "https://github.com/bitcoin/bitcoin.git",
        "/root/bitcoin-24.0",
    )
    .unwrap();
    assert_eq!(cmds.len(), 1);

    let build = strategy_commands(strategy, 4);
    assert_eq!(
        build,
        vec!["./autogen.sh", "./configure --disable-wallet --disable-gui", "make -j4"]
    );

    let expected = expected_binaries(strategy);
    let entries: Vec<CollectEntry> = expected
        .iter()
        .map(|p| CollectEntry { path: p.clone(), exists: p != "bin/bitcoin-wallet" })
        .collect();
    let copied = collect_plan(&entries);
    assert_eq!(copied, vec!["bin/bitcoind", "bin/bitcoin-cli", "bin/bitcoin-tx"]);

    assert_eq!(output_dir_rel(Project::Bitcoin, version), "binaries/bitcoin-24.0");

    let mut s = Stage::Idle;
    while s != Stage::Done {
        s = advance_stage(s, true);
    }
    assert_eq!(stage_progress(Project::Bitcoin, s), 1000);

    // The observer sees a final progress of the whole, then the
    // task-finished signal that returns it to the interactive state.
    let mut st = bitforge::observer::ObserverState::new(100);
    st.is_busy = true;
    st.apply(bitforge::messages::AppMessage::Progress(stage_progress(Project::Bitcoin, s)));
    assert_eq!(st.progress, bitforge::messages::PROGRESS_FULL);
    st.apply(bitforge::messages::AppMessage::TaskDone);
    assert!(!st.is_busy);
}

#[test]
fn failed_stage_stops_the_run() {
    // A child process that exits with code 17 fails its stage; the stage
    // machine lands in Failed and the remaining stages never run.
    let e = bitforge::process::classify_exit("make -j4", bitforge::process::ProcessExit::Code(17));
    assert!(e.is_err());
    let s = advance_stage(Stage::Building, e.is_ok());
    assert_eq!(s, Stage::Failed);
    assert!(!proceed_to_second(e.is_ok()));
}
