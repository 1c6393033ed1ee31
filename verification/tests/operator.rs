use wasm_operator::api::WatchEvent;
use wasm_operator::crd::{
    EnvironmentVariable, Metadata, WasmOperator, WasmOperatorSpec, WasmOperatorState, WasmSource,
};
use wasm_operator::operator::{
    load_delay, patch_due, read_fault_text, source_path, CacheOutcome, CallEvent, CallStep, CommandStep,
    ComponentPhase, Failure, LoadPhase, RunOutcome, UnloadPhase, WORCommand, WasmOperatorReduced,
    WasmOperatorRuntime, Work,
};
use wasm_operator::wasmengine::GlobalMonotonicClock;

fn resource() -> WasmOperator {
    WasmOperator {
        metadata: Metadata {
            name: Some("adder".to_string()),
            generate_name: None,
            namespace: Some("default".to_string()),
            uid: Some("u-1".to_string()),
            generation: Some(4),
            deleting: false,
        },
        spec: WasmOperatorSpec {
            wasm: WasmSource::Pvc { path: "/mnt/host".to_string(), file: "a.wasm".to_string() },
            env: vec![EnvironmentVariable { name: "K".to_string(), value: "V".to_string() }],
            args: vec!["--fast".to_string()],
        },
    }
}

fn operator() -> WasmOperatorRuntime {
    WasmOperatorRuntime::new(
        WasmOperatorReduced::from_resource(&resource()),
        "/cache".to_string(),
        None,
    )
}

fn loaded() -> WasmOperatorRuntime {
    let mut op = operator();
    op.begin_load_at(99_970);
    op.load_completed_at(30, 65_536, 100_000);
    op
}

fn memory(op: &mut WasmOperatorRuntime, bytes: Option<u64>) -> u32 {
    let status = op.status_at(WasmOperatorState::Running, None, bytes, 0);
    status.statistics.unwrap().memory_usage_bytes
}

fn added(n: u32) -> WORCommand {
    WORCommand::ProcessWatchEvent(1, WatchEvent::Added(format!("{}", n)))
}

fn bookmark(n: u32) -> WORCommand {
    WORCommand::ProcessWatchEvent(1, WatchEvent::Bookmark(format!("{}", n)))
}

fn delivered(work: Work) -> (String, bool) {
    match work {
        Work::Deliver((1, WatchEvent::Added(json)), active) => (json, active),
        Work::Deliver((1, WatchEvent::Bookmark(json)), active) => (format!("b{}", json), active),
        other => panic!("{:?}", other),
    }
}

#[test]
fn the_part_of_a_resource_that_matters() {
    let op = operator();
    assert_eq!(op.cr.name, "adder");
    assert_eq!(op.cr.uid, "u-1");
    assert_eq!(op.cr.generation, Some(4));
    assert_eq!(op.cr.args, vec!["--fast".to_string()]);
    assert_eq!(op.cr.env[0].name, "K");
    assert_eq!(op.cr.env[0].value, "V");
    assert_eq!(op.guest_args(), vec!["--fast".to_string()]);
    assert_eq!(op.guest_env(), vec![("K".to_string(), "V".to_string())]);
    assert_eq!(op.cr.wasm_hash, None);
    assert_eq!(source_path(&op.cr.wasm), "/mnt/host/a.wasm");
    let mut unnamed = resource();
    unnamed.metadata.name = None;
    assert_eq!(WasmOperatorReduced::from_resource(&unnamed).name, "");
    unnamed.metadata.generate_name = Some("adder-".to_string());
    assert_eq!(WasmOperatorReduced::from_resource(&unnamed).name, "adder-");
}

#[test]
fn paths_are_joined_as_std_joins_them() {
    for (path, file) in [
        ("/mnt/host", "a.wasm"), ("/mnt/host/", "a.wasm"), ("", "a.wasm"), ("/mnt", "/a.wasm"),
        ("/mnt", ""), ("", ""), ("rel", "x/y"),
    ] {
        let wasm = WasmSource::Pvc { path: path.to_string(), file: file.to_string() };
        let expected = std::path::Path::new(path).join(file);
        assert_eq!(source_path(&wasm), expected.to_str().unwrap());
    }
}

#[test]
fn events_are_given_in_the_order_in_which_they_came() {
    let mut op = operator();
    assert!(!op.has_work());
    assert!(matches!(op.next_work(), Work::Wait));
    for n in 0..3 {
        assert_eq!(op.handle_command_at(added(n), 5), CommandStep::Done);
    }
    assert!(op.has_work());
    for n in 0..3 {
        assert_eq!(delivered(op.next_work()), (format!("{}", n), true));
    }
    assert!(matches!(op.next_work(), Work::Wait));
    assert_eq!(op.get_reconcile_history(), vec![5, 5, 5]);
}

#[test]
fn a_bookmark_is_given_last_and_only_to_a_loaded_operator() {
    let mut op = operator();
    op.handle_command_at(bookmark(1), 5);
    assert!(!op.has_work());
    assert!(matches!(op.next_work(), Work::Wait));
    op.begin_load_at(0);
    op.load_completed_at(0, 0, 0);
    op.handle_command_at(bookmark(2), 5);
    assert_eq!(delivered(op.next_work()), ("b2".to_string(), false));
    assert!(matches!(op.next_work(), Work::Run));
    assert!(op.get_reconcile_history().is_empty());
}

#[test]
fn a_bookmark_is_dropped_when_an_event_comes() {
    let mut op = loaded();
    op.handle_command_at(bookmark(1), 5);
    op.handle_command_at(added(2), 5);
    op.handle_command_at(bookmark(3), 5);
    assert_eq!(delivered(op.next_work()), ("2".to_string(), true));
    assert_eq!(delivered(op.next_work()), ("b3".to_string(), false));
    op.handle_command_at(bookmark(4), 5);
    op.handle_command_at(added(5), 5);
    assert_eq!(delivered(op.next_work()), ("5".to_string(), true));
    assert!(matches!(op.next_work(), Work::Run));
}

#[test]
fn a_bookmark_that_is_given_is_the_newest_event() {
    let mut op = loaded();
    for command in [added(1), bookmark(2), added(3), bookmark(4), bookmark(5)] {
        op.handle_command_at(command, 5);
    }
    assert_eq!(delivered(op.next_work()), ("1".to_string(), true));
    assert_eq!(delivered(op.next_work()), ("3".to_string(), true));
    assert_eq!(delivered(op.next_work()), ("b5".to_string(), false));
    assert!(matches!(op.next_work(), Work::Run));
}

#[test]
fn an_upgrade_bookmark_is_an_event() {
    let mut op = operator();
    let event = WatchEvent::UpgradeBookmark((7, "{}".to_string()));
    op.handle_command_at(WORCommand::ProcessWatchEvent(1, event), 5);
    assert!(matches!(
        op.next_work(),
        Work::Deliver((1, WatchEvent::UpgradeBookmark((7, _))), true)
    ));
}

#[test]
fn operators_with_events_are_neither_unloaded_nor_paused() {
    let mut op = loaded();
    assert_eq!(op.handle_command_at(WORCommand::Unload, 0), CommandStep::Unload);
    assert_eq!(op.handle_command_at(WORCommand::Pause, 0), CommandStep::Pause);
    op.handle_command_at(added(1), 0);
    assert_eq!(op.handle_command_at(WORCommand::Unload, 0), CommandStep::Done);
    assert_eq!(op.handle_command_at(WORCommand::Pause, 0), CommandStep::Done);
    assert_eq!(op.handle_command_at(WORCommand::CheckIdle(0, 0), i64::MAX), CommandStep::Reply(false));
    assert_eq!(op.handle_command_at(WORCommand::Shutdown, 0), CommandStep::Shutdown);
    assert_eq!(op.handle_command_at(WORCommand::StartOperator, 0), CommandStep::Load);
    assert_eq!(op.handle_command_at(WORCommand::LoadAt(12), 0), CommandStep::LoadAt(12));
}

#[test]
fn idle_takes_both_thresholds() {
    let mut op = loaded();
    let check = |op: &mut WasmOperatorRuntime, now: i64| {
        op.handle_command_at(WORCommand::CheckIdle(5000, 500), now)
    };
    assert_eq!(check(&mut op, 200_000), CommandStep::Reply(false));
    assert!(op.run_until_stalled(500, RunOutcome::Stalled).is_ok());
    assert_eq!(check(&mut op, 200_000), CommandStep::Reply(false));
    assert!(op.run_until_stalled(1, RunOutcome::Stalled).is_ok());
    assert_eq!(check(&mut op, 200_000), CommandStep::Reply(true));
    assert_eq!(check(&mut op, 105_000), CommandStep::Reply(false));
    assert_eq!(check(&mut op, 105_001), CommandStep::Reply(true));
    op.update_last_active_at(200_000);
    assert_eq!(check(&mut op, 900_000), CommandStep::Reply(false));
    op.run_until_stalled(501, RunOutcome::Stalled).unwrap();
    op.execute_via_wit_at(CallEvent::Called(Ok(()), 3), false, 900_000);
    assert_eq!(check(&mut op, 900_000), CommandStep::Reply(true));
    op.execute_via_wit_at(CallEvent::Called(Err("bad".to_string()), 3), true, 900_000);
    assert_eq!(check(&mut op, 900_000), CommandStep::Reply(false));
    let mut unloaded = operator();
    unloaded.run_until_stalled(501, RunOutcome::Unloaded).unwrap();
    assert_eq!(check(&mut unloaded, 900_000), CommandStep::Reply(false));
}

#[test]
fn memory_is_looked_for_where_it_was_written() {
    let mut op = operator();
    assert_eq!(op.begin_load_at(10), Some(String::new()));
    assert_eq!(op.begin_unload(), None);
    op.load_completed_at(30, 65_536, 10_000);
    assert!(op.is_loaded());
    assert_eq!(op.begin_load_at(11_000), None);
    let path = op.begin_unload().unwrap();
    assert_eq!(path, "/cache/memory/u-1_4.mem");
    op.snapshot_written(7);
    op.unload_completed_at(20_000);
    assert!(!op.is_loaded());
    assert_eq!(op.begin_load_at(30_000), Some(path));
    let mut unversioned = resource();
    unversioned.metadata.generation = None;
    let op = WasmOperatorRuntime::new(
        WasmOperatorReduced::from_resource(&unversioned),
        "/cache".to_string(),
        None,
    );
    assert_eq!(op.get_swap_path(), "/cache/memory/u-1_0.mem");
}

#[test]
fn a_status_tells_what_was_measured() {
    let mut op = loaded();
    op.run_until_stalled(4_000, RunOutcome::Stalled).unwrap();
    op.execute_via_wit_at(CallEvent::Called(Ok(()), 1_000), true, 110_000);
    op.snapshot_written(7);
    let status = op.status_at(WasmOperatorState::Idle, Some("me".to_string()), None, 120_000_000_007);
    op.unload_completed_at(120_000);
    assert_eq!(status.state, WasmOperatorState::Idle);
    assert_eq!(status.last_updated, 120_000_000_007);
    assert_eq!(status.observed_generation, Some(4));
    assert_eq!(status.owner, Some("me".to_string()));
    let statistics = status.statistics.unwrap();
    assert_eq!(statistics.memory_usage_bytes, 7);
    assert_eq!(statistics.wasm_load_duration_msec_max, 30);
    assert_eq!(statistics.wasm_load_duration_msec_avg, 30);
    assert_eq!(statistics.active_duration_sec_max, 5);
    assert_eq!(statistics.activity_ratio, 25);
    let before = chrono::Utc::now().timestamp_nanos_opt().unwrap() as i128;
    let now = op.status(WasmOperatorState::Paused, None, None);
    let after = chrono::Utc::now().timestamp_nanos_opt().unwrap() as i128;
    assert!(before <= now.last_updated && now.last_updated <= after);
    assert_eq!(now.owner, None);
    assert_eq!(now.statistics.unwrap().idle_duration_sec_max, 15);
}

#[test]
fn the_memory_that_is_reported_is_in_use() {
    let mut op = operator();
    assert_eq!(memory(&mut op, None), 0);
    op.begin_load_at(0);
    assert_eq!(memory(&mut op, Some(4_096)), 4_096);
    op.load_failed();
    assert_eq!(memory(&mut op, None), 0);
    let mut op = loaded();
    assert_eq!(memory(&mut op, None), 65_536);
    assert_eq!(memory(&mut op, Some(131_072)), 131_072);
    assert_eq!(memory(&mut op, Some(0x1_0000_0007)), u32::MAX);
    op.snapshot_written(0x1_0000_0000);
    assert_eq!(memory(&mut op, None), u32::MAX);
    op.unload_completed_at(120_000);
    assert_eq!(memory(&mut op, None), 0);
}

#[test]
fn loads_are_counted_where_there_is_one() {
    let mut op = operator();
    let counted = |op: &mut WasmOperatorRuntime| {
        let status = op.status_at(WasmOperatorState::Running, None, None, 0);
        status.statistics.unwrap().reconcile_cold_start_ratio
    };
    op.handle_command_at(added(1), 0);
    op.begin_load_at(100_000);
    assert_eq!(counted(&mut op), 100);
    op.load_failed();
    assert_eq!(counted(&mut op), 100);
    op.begin_load_at(100_000);
    op.load_completed_at(30, 65_536, 100_030);
    assert_eq!(op.begin_load_at(110_000), None);
    assert_eq!(counted(&mut op), 200);
    let status = op.status_at(WasmOperatorState::Running, None, None, 110_000_000_000);
    assert_eq!(status.statistics.unwrap().idle_duration_sec_max, 0);
}

#[test]
fn unloaded_operators_are_loaded_before_a_call() {
    let mut op = operator();
    assert!(matches!(op.execute_via_wit_at(CallEvent::Begin, true, 5), CallStep::LoadFirst));
    match op.execute_via_wit_at(CallEvent::LoadEnded(Err("no file".to_string())), true, 5) {
        CallStep::Return(r) => assert_eq!(r, Err("no file".to_string())),
        other => panic!("{:?}", other),
    }
    match op.execute_via_wit_at(CallEvent::LoadEnded(Ok(())), true, 5) {
        CallStep::Return(r) => assert_eq!(r, Err("Operator is not in a loaded state".to_string())),
        other => panic!("{:?}", other),
    }
    op.begin_load_at(0);
    op.load_completed_at(1, 1, 1);
    assert!(matches!(op.execute_via_wit_at(CallEvent::LoadEnded(Ok(())), true, 5), CallStep::Call));
    assert!(matches!(op.execute_via_wit_at(CallEvent::Begin, true, 5), CallStep::Call));
    for result in [Ok(()), Err("trap".to_string())] {
        match op.execute_via_wit_at(CallEvent::Called(result.clone(), 2), true, 5) {
            CallStep::Return(r) => assert_eq!(r, result),
            other => panic!("{:?}", other),
        }
    }
    assert!(op.is_loaded());
}

#[test]
fn unloading_goes_through_its_steps() {
    let mut phase = UnloadPhase::Snapshot;
    let mut steps = vec![phase];
    while phase != UnloadPhase::Complete {
        phase = phase.next();
        steps.push(phase);
    }
    assert_eq!(
        steps,
        vec![
            UnloadPhase::Snapshot, UnloadPhase::Measure, UnloadPhase::Report,
            UnloadPhase::Complete,
        ]
    );
    assert_eq!(phase.next(), UnloadPhase::Complete);
}

#[test]
fn large_thresholds_are_never_reached() {
    let mut op = loaded();
    op.run_until_stalled(u64::MAX, RunOutcome::Stalled).unwrap();
    let mut check = |idle_ms: u64, execute_ms: u64| {
        op.handle_command_at(WORCommand::CheckIdle(idle_ms, execute_ms), i64::MAX)
    };
    assert_eq!(check(u64::MAX, 0), CommandStep::Reply(false));
    assert_eq!(check(1 << 63, 0), CommandStep::Reply(false));
    assert_eq!(check(0, u64::MAX), CommandStep::Reply(false));
    assert_eq!(check(0, 1 << 63), CommandStep::Reply(true));
}

#[test]
fn the_source_is_known_by_its_hash() {
    let mut op = operator();
    assert_eq!(op.begin_component(), ComponentPhase::ReadSource);
    let host = target_lexicon::Triple::host().to_string();
    assert_eq!(op.get_cache_path(), format!("/cache/binaries/_{}.cwasm", host));
    op.source_read(&Vec::new());
    assert_eq!(op.begin_component(), ComponentPhase::LookInCache);
    let hash = "af1349b9f5f9a1a6a0404dea36dcc9499bcb25c9adc112b7cc9a93cae41f3262";
    assert_eq!(op.cr.wasm_hash, Some(hash.to_string()));
    assert_eq!(op.get_cache_path(), format!("/cache/binaries/{}_{}.cwasm", hash, host));
    let (cache, temp) = op.get_cache_paths();
    assert_eq!(cache, op.get_cache_path());
    assert_eq!(temp, format!("/cache/binaries/{}_{}.u-1.tmp", hash, host));
    let cache = std::path::PathBuf::from(cache);
    assert_eq!(cache.with_extension("u-1.tmp").to_str().unwrap(), temp);
}

#[test]
fn components_come_from_the_cache_or_are_compiled() {
    let walk = |mut phase: ComponentPhase, cache: CacheOutcome, at_hand: bool| {
        let mut steps = vec![phase];
        while phase != ComponentPhase::Complete {
            phase = phase.next(cache, at_hand);
            steps.push(phase);
        }
        steps
    };
    assert_eq!(
        walk(ComponentPhase::LookInCache, CacheOutcome::Loaded, false),
        vec![ComponentPhase::LookInCache, ComponentPhase::Complete]
    );
    let compiled = vec![
        ComponentPhase::ReadSource, ComponentPhase::LookInCache, ComponentPhase::Compile,
        ComponentPhase::CreateDir, ComponentPhase::WriteTemp, ComponentPhase::Rename,
        ComponentPhase::Complete,
    ];
    assert_eq!(walk(ComponentPhase::ReadSource, CacheOutcome::Missing, true), compiled);
    let again = vec![
        ComponentPhase::LookInCache, ComponentPhase::ReadSourceAgain, ComponentPhase::Compile,
        ComponentPhase::CreateDir, ComponentPhase::WriteTemp, ComponentPhase::Rename,
        ComponentPhase::Complete,
    ];
    assert_eq!(walk(ComponentPhase::LookInCache, CacheOutcome::Corrupt, false), again);
}

#[test]
fn components_fail_in_words() {
    assert_eq!(
        ComponentPhase::LookInCache.fault_text("f", "bad"),
        "Failed to deserialize cached component 'f': bad"
    );
    assert_eq!(
        ComponentPhase::Compile.fault_text("adder", "bad"),
        "Failed to compile WASM for operator 'adder': bad"
    );
    assert_eq!(
        ComponentPhase::CreateDir.fault_text("adder", "bad"),
        "Failed to create cache directory structure for adder"
    );
    assert_eq!(
        ComponentPhase::WriteTemp.fault_text("adder", "bad"),
        "Failed to write compiled cwasm to temp file for component adder"
    );
    assert_eq!(
        ComponentPhase::Rename.fault_text("adder", "bad"),
        "Failed to rename temp file to cache path for component adder"
    );
    assert_eq!(ComponentPhase::ReadSource.fault_text("adder", "bad"), "bad");
}

#[test]
fn a_source_that_cannot_be_read() {
    let wasm = WasmSource::Pvc { path: "/mnt/host".to_string(), file: "a.wasm".to_string() };
    let path = std::path::PathBuf::from(source_path(&wasm));
    assert_eq!(
        read_fault_text(&wasm, &format!("{:?}", path)),
        "Failed to read WASM file 'a.wasm' from PVC path '\"/mnt/host/a.wasm\"'"
    );
}

#[test]
fn loading_goes_through_its_steps() {
    let walk = |snapshot: bool| {
        let mut phase = LoadPhase::Instantiate;
        let mut steps = vec![phase];
        while phase != LoadPhase::Complete {
            phase = phase.next(snapshot);
            steps.push(phase);
        }
        steps
    };
    assert_eq!(
        walk(true),
        vec![
            LoadPhase::Instantiate, LoadPhase::Restore, LoadPhase::Report, LoadPhase::Run,
            LoadPhase::Complete,
        ]
    );
    assert_eq!(
        walk(false),
        vec![LoadPhase::Instantiate, LoadPhase::Report, LoadPhase::Run, LoadPhase::Complete]
    );
}

#[test]
fn failures_end_an_operator_but_for_one_to_run() {
    let cases = [
        (Failure::Start, "Failed to start operator: bad", true),
        (Failure::Unload, "Failed to unload: bad", true),
        (Failure::Pause, "Failed to pause: bad", true),
        (Failure::Event, "Operator 'adder' crashed during watch event processing: bad", true),
        (Failure::Run, "Operator 'adder' crashed during run loop: bad", false),
    ];
    for (failure, message, ends) in cases {
        let mut op = operator();
        let fatal = op.throw_fatal_error_at(failure, "bad", 0);
        assert_eq!(fatal.message, message);
        assert_eq!(fatal.uid, "u-1");
        assert_eq!(op.has_ended(), ends);
        assert!(!op.is_stopped());
        let status = op.status_at(WasmOperatorState::Error, None, None, 0);
        let statistics = status.statistics.unwrap();
        assert_eq!(statistics.recent_errors, vec![format!("[1970-01-01T00:00:00Z] {}", message)]);
    }
    let mut op = operator();
    op.throw_fatal_error(Failure::Run, "bad");
    assert!(!op.has_ended());
    op.stop_execution();
    assert!(op.has_ended() && op.is_stopped());
}

#[test]
fn each_step_has_its_failure() {
    assert_eq!(CommandStep::Load.failure(), Some(Failure::Start));
    assert_eq!(CommandStep::Unload.failure(), Some(Failure::Unload));
    assert_eq!(CommandStep::Pause.failure(), Some(Failure::Pause));
    assert_eq!(CommandStep::Shutdown.failure(), None);
    assert_eq!(CommandStep::LoadAt(1).failure(), None);
    assert_eq!(Work::Run.failure(), Some(Failure::Run));
    assert_eq!(Work::Wait.failure(), None);
    let work = Work::Deliver((1, WatchEvent::Added(String::new())), true);
    assert_eq!(work.failure(), Some(Failure::Event));
}

#[test]
fn a_run_may_fail() {
    let mut op = loaded();
    assert_eq!(
        op.run_until_stalled(1, RunOutcome::Trapped("bad".to_string())),
        Err("Operator 'adder' crashed during run loop: bad".to_string())
    );
    assert_eq!(
        op.run_until_stalled(1, RunOutcome::Panicked("bad".to_string())),
        Err("Blocking task for operator 'adder' panicked or failed: bad".to_string())
    );
}

#[test]
fn time_is_taken_from_the_clock() {
    let mut op = operator();
    op.begin_load();
    op.load_completed(5, 65_536);
    op.update_last_active();
    op.run_until_stalled(10, RunOutcome::Stalled).unwrap();
    assert_eq!(op.handle_command(WORCommand::CheckIdle(1_000_000, 1)), CommandStep::Reply(false));
    assert_eq!(
        op.handle_command(WORCommand::CheckIdle(u64::MAX, 1)),
        CommandStep::Reply(false)
    );
    op.handle_command(added(1));
    let seen = op.get_reconcile_history()[0];
    assert!((chrono::Utc::now().timestamp_millis() - seen).abs() < 60_000);
    op.unload_completed();
    assert!(!op.is_loaded());
}

#[test]
fn reports_are_throttled() {
    assert!(patch_due(true, 0));
    assert!(!patch_due(false, 5_000_000_000));
    assert!(patch_due(false, 5_000_000_001));
}

#[test]
fn loads_are_put_off_to_their_time() {
    assert_eq!(load_delay(5, 5), None);
    assert_eq!(load_delay(4, 5), None);
    assert_eq!(load_delay(2_500_000_001, 1), Some((2, 500_000_000)));
    assert_eq!(load_delay(1_000_000_000, 1), Some((0, 999_999_999)));
}

#[test]
fn only_a_timely_answer_counts() {
    assert!(WasmOperatorRuntime::is_idle(true, Some(true)));
    assert!(!WasmOperatorRuntime::is_idle(true, Some(false)));
    assert!(!WasmOperatorRuntime::is_idle(true, None));
    assert!(!WasmOperatorRuntime::is_idle(false, Some(true)));
}

#[test]
fn the_clock_of_operators() {
    let clock = GlobalMonotonicClock;
    assert_eq!(clock.resolution(), 1_000_000);
    assert_eq!(clock.now(5), 5);
    assert_eq!(clock.now(u64::MAX as u128 + 3), 2);
}

#[test]
fn files_are_not_shared() {
    let with = |uid: &str, generation: i64| {
        let mut cr = resource();
        cr.metadata.uid = Some(uid.to_string());
        cr.metadata.generation = Some(generation);
        let mut op = WasmOperatorRuntime::new_for(
            WasmOperatorReduced::from_resource(&cr),
            "/cache".to_string(),
            "t".to_string(),
            None,
        );
        op.set_wasm_hash("abc".to_string());
        op
    };
    let (a, b, c) = (with("a_1", 2), with("a", 12), with("a_1", -2));
    assert_eq!(a.get_swap_path(), "/cache/memory/a_1_2.mem");
    assert_eq!(b.get_swap_path(), "/cache/memory/a_12.mem");
    assert_eq!(c.get_swap_path(), "/cache/memory/a_1_-2.mem");
    assert_eq!(a.get_cache_path(), b.get_cache_path());
    assert_eq!(a.get_cache_path(), "/cache/binaries/abc_t.cwasm");
    assert_eq!(
        a.get_cache_paths(),
        ("/cache/binaries/abc_t.cwasm".to_string(), "/cache/binaries/abc_t.a_1.tmp".to_string())
    );
    assert_ne!(a.get_cache_paths().1, b.get_cache_paths().1);
}

#[test]
fn calls_count_as_activity_or_not() {
    let mut op = loaded();
    op.run_until_stalled(10, RunOutcome::Stalled).unwrap();
    op.execute_via_wit(CallEvent::Called(Ok(()), 1), false);
    assert_eq!(op.handle_command(WORCommand::CheckIdle(1, 9)), CommandStep::Reply(true));
    op.execute_via_wit(CallEvent::Called(Ok(()), 1), true);
    assert_eq!(op.handle_command(WORCommand::CheckIdle(1, 9)), CommandStep::Reply(false));
}
