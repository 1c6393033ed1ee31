use wasm_operator::stats::{FixedFifoBuffer, WasmOperatorStatisticsRecorder};

const HOUR: i64 = 3_600_000;

#[test]
fn buffer_keeps_the_newest() {
    let mut buffer: FixedFifoBuffer<u32> = FixedFifoBuffer::new(3);
    assert_eq!(buffer.get_last_added(), None);
    for i in 1..=5u32 {
        buffer.push(i);
    }
    assert_eq!(buffer.get_all(false), vec![3, 4, 5]);
    assert_eq!(buffer.get_all(true), vec![5, 4, 3]);
    assert_eq!(buffer.get_last_added(), Some(5));
    buffer.clear();
    assert_eq!(buffer.get_all(false), Vec::<u32>::new());
}

#[test]
fn buffer_without_room_keeps_nothing() {
    let mut buffer: FixedFifoBuffer<u32> = FixedFifoBuffer::new(0);
    buffer.push(1);
    buffer.push(2);
    assert_eq!(buffer.get_all(false), Vec::<u32>::new());
}

#[test]
fn a_new_recorder_reports_nothing() {
    let r = WasmOperatorStatisticsRecorder::new(None).get_statistics_at(0);
    assert_eq!(r.reconcile_total_24h, 0);
    assert_eq!(r.reconcile_cold_start_ratio, 0);
    assert_eq!(r.wasm_load_duration_msec_avg, 0);
    assert_eq!(r.wasm_load_duration_msec_max, 0);
    assert_eq!(r.memory_usage_bytes, 0);
    assert_eq!(r.activity_ratio, 0);
    assert_eq!(r.idle_duration_sec_avg, 0);
    assert_eq!(r.active_duration_sec_avg, 0);
    assert!(r.recent_errors.is_empty());
}

#[test]
fn reconciles_of_the_last_24_hours() {
    let mut recorder = WasmOperatorStatisticsRecorder::new(None);
    let start = 490_000 * HOUR;
    recorder.record_reconcile_at(start);
    recorder.record_reconcile_at(start + 1);
    recorder.record_reconcile_at(start + 23 * HOUR);
    assert_eq!(recorder.get_reconcile_total_24h(start + 23 * HOUR), 3);
    assert_eq!(recorder.get_reconcile_total_24h(start + 24 * HOUR), 1);
    assert_eq!(recorder.get_reconcile_total_24h(start + 46 * HOUR + 1), 1);
    assert_eq!(recorder.get_reconcile_total_24h(start + 47 * HOUR), 0);
    recorder.record_reconcile_at(start + 24 * HOUR);
    assert_eq!(recorder.get_reconcile_total_24h(start + 24 * HOUR), 2);
    recorder.record_reconcile_at(start + 1000 * HOUR);
    assert_eq!(recorder.get_reconcile_total_24h(start + 1000 * HOUR), 1);
}

#[test]
fn a_clock_set_back_drops_nothing() {
    let mut recorder = WasmOperatorStatisticsRecorder::new(None);
    recorder.record_reconcile_at(100 * HOUR);
    recorder.record_reconcile_at(98 * HOUR);
    assert_eq!(recorder.get_reconcile_total_24h(98 * HOUR), 2);
    assert_eq!(recorder.get_recent_reconcile_history(), vec![100 * HOUR, 98 * HOUR]);
}

#[test]
fn history_goes_back_25_reconciles() {
    let mut recorder = WasmOperatorStatisticsRecorder::new(None);
    for i in 0..30i64 {
        recorder.record_reconcile_at(i);
    }
    let expected: Vec<i64> = (5..30).collect();
    assert_eq!(recorder.get_recent_reconcile_history(), expected);
}

#[test]
fn loads_and_unloads() {
    let mut recorder = WasmOperatorStatisticsRecorder::new(None);
    recorder.record_loading_operation_at(1_000_000);
    recorder.record_load_duration(10);
    assert_eq!(recorder.get_load_total(), 1);
    assert_eq!(recorder.get_unload_total(), 0);
    recorder.record_active(15_000);
    recorder.record_active(5_000);
    recorder.record_unloading_operation_at(1_030_000);
    recorder.record_loading_operation_at(1_040_000);
    recorder.record_load_duration(25);
    assert_eq!(recorder.get_load_total(), 2);
    assert_eq!(recorder.get_unload_total(), 1);
    recorder.record_active(10_000);
    recorder.record_memory_usage(4096);
    recorder.record_reconcile_at(0);
    let r = recorder.get_statistics_at(1_050_000);
    assert_eq!(r.reconcile_cold_start_ratio, 200);
    assert_eq!(r.wasm_load_duration_msec_avg, 17);
    assert_eq!(r.wasm_load_duration_msec_max, 25);
    assert_eq!(r.memory_usage_bytes, 4096);
    assert_eq!(r.activity_ratio, 75);
    assert_eq!(r.idle_duration_sec_avg, 10);
    assert_eq!(r.idle_duration_sec_max, 10);
    assert_eq!(r.active_duration_sec_avg, 15);
    assert_eq!(r.active_duration_sec_max, 20);
    assert_eq!(r.reconcile_total_24h, 1);
    assert_eq!(recorder.get_activity_ratio(1_060_000), 60);
    assert_eq!(recorder.get_idle_duration_sec_avg(), 10);
    assert_eq!(recorder.get_running_duration_s_avg(), 15);
    assert_eq!(recorder.get_wasm_load_duration_msec_avg(), 17);
}

#[test]
fn being_idle_is_being_loaded() {
    let mut recorder = WasmOperatorStatisticsRecorder::new(None);
    recorder.record_loading_operation_at(100_000);
    recorder.record_unloading_operation_at(110_000);
    recorder.record_loading_operation_at(130_000);
    let r = recorder.get_statistics_at(130_000);
    assert_eq!(r.idle_duration_sec_max, 10);
    assert_eq!(r.idle_duration_sec_avg, 10);
    assert_eq!(r.active_duration_sec_max, 0);
    assert_eq!(r.activity_ratio, 0);
    recorder.record_active(4_000);
    recorder.record_unloading_operation_at(140_000);
    let r = recorder.get_statistics_at(200_000);
    assert_eq!(r.idle_duration_sec_max, 10);
    assert_eq!(r.idle_duration_sec_avg, 8);
    assert_eq!(r.active_duration_sec_max, 4);
    assert_eq!(r.activity_ratio, 20);
}

#[test]
fn loads_that_fail_count_as_loads() {
    let mut recorder = WasmOperatorStatisticsRecorder::new(None);
    recorder.record_load_failed();
    assert_eq!(recorder.get_load_total(), 0);
    recorder.record_loading_operation_at(100_000);
    recorder.record_load_failed();
    assert_eq!(recorder.get_load_total(), 1);
    assert_eq!(recorder.get_unload_total(), 0);
    assert_eq!(recorder.get_activity_ratio(900_000), 0);
    recorder.record_loading_operation_at(200_000);
    recorder.record_loaded_at(202_000);
    recorder.record_load_duration(2_000);
    recorder.record_unloading_operation_at(209_000);
    let r = recorder.get_statistics_at(300_000);
    assert_eq!(r.idle_duration_sec_max, 7);
    assert_eq!(r.wasm_load_duration_msec_avg, 2_000);
}

#[test]
fn a_load_under_way_has_no_duration_yet() {
    let mut recorder = WasmOperatorStatisticsRecorder::new(None);
    recorder.record_loading_operation_at(0);
    assert_eq!(recorder.get_wasm_load_duration_msec_avg(), 0);
    recorder.record_load_duration(40);
    recorder.record_unloading_operation_at(10);
    recorder.record_loading_operation_at(20);
    assert_eq!(recorder.get_wasm_load_duration_msec_avg(), 40);
}

#[test]
fn activity_is_told_in_percent() {
    let mut recorder = WasmOperatorStatisticsRecorder::new(None);
    assert_eq!(recorder.get_activity_ratio(0), 0);
    recorder.record_loading_operation_at(0);
    recorder.record_active(1_000);
    assert_eq!(recorder.get_activity_ratio(1_000), 100);
    assert_eq!(recorder.get_activity_ratio(1_001), 99);
    assert_eq!(recorder.get_activity_ratio(3_000), 33);
    recorder.record_active(u64::MAX);
    assert_eq!(recorder.get_activity_ratio(3_000), 100);
    assert_eq!(recorder.get_running_duration_s_avg(), u64::MAX / 1000);
}

#[test]
fn the_cold_start_ratio_stops_at_255() {
    let mut recorder = WasmOperatorStatisticsRecorder::new(None);
    for i in 0..10i64 {
        recorder.record_loading_operation_at(i + 1);
    }
    assert_eq!(recorder.get_reconcile_cold_start_ratio(), 0);
    recorder.record_reconcile_at(0);
    assert_eq!(recorder.get_reconcile_cold_start_ratio(), 255);
    let mut recorder = WasmOperatorStatisticsRecorder::new(None);
    recorder.record_reconcile_at(0);
    recorder.record_loading_operation_at(1);
    recorder.record_loading_operation_at(2);
    recorder.record_loading_operation_at(3);
    assert_eq!(recorder.get_reconcile_cold_start_ratio(), 255);
    recorder.record_reconcile_at(0);
    assert_eq!(recorder.get_reconcile_cold_start_ratio(), 150);
}

#[test]
fn time_that_goes_back_is_no_time() {
    let mut recorder = WasmOperatorStatisticsRecorder::new(None);
    recorder.record_loading_operation_at(100_000);
    assert_eq!(recorder.get_activity_ratio(50_000), 0);
    recorder.record_unloading_operation_at(50_000);
    let r = recorder.get_statistics_at(50_000);
    assert_eq!(r.idle_duration_sec_max, 0);
    assert_eq!(r.idle_duration_sec_avg, 0);
    assert_eq!(r.activity_ratio, 0);
    assert_eq!((recorder.get_load_total(), recorder.get_unload_total()), (1, 1));
}

#[test]
fn errors_are_dated_and_the_newest_comes_first() {
    let mut recorder = WasmOperatorStatisticsRecorder::new(Some("2"));
    recorder.record_error_at(0, "one");
    recorder.record_error_at(86_400, "two");
    recorder.record_error_at(1_700_000_000, "three");
    let r = recorder.get_statistics_at(0);
    assert_eq!(
        r.recent_errors,
        vec!["[2023-11-14T22:13:20Z] three".to_string(), "[1970-01-02T00:00:00Z] two".to_string()]
    );
}

#[test]
fn the_size_of_the_error_log_is_a_setting() {
    for (setting, size) in [(None, 10), (Some("3"), 3), (Some("0"), 0), (Some("x"), 10), (Some("-1"), 10)] {
        let mut recorder = WasmOperatorStatisticsRecorder::new(setting);
        for _ in 0..12 {
            recorder.record_error_at(0, "e");
        }
        assert_eq!(recorder.get_statistics_at(0).recent_errors.len(), size, "{:?}", setting);
    }
}

#[test]
fn the_clock_is_read() {
    let before = chrono::Utc::now().timestamp_millis();
    let mut recorder = WasmOperatorStatisticsRecorder::new(None);
    recorder.record_reconcile();
    recorder.record_loading_operation();
    recorder.record_unloading_operation();
    recorder.record_error("oops");
    let after = chrono::Utc::now().timestamp_millis();
    let history = recorder.get_recent_reconcile_history();
    assert_eq!(history.len(), 1);
    assert!(before <= history[0] && history[0] <= after);
    let r = recorder.get_statistics();
    assert_eq!(r.reconcile_total_24h, 1);
    assert!(r.idle_duration_sec_max <= ((after - before) / 1000 + 1) as u64);
    let stamp = &r.recent_errors[0][1..21];
    let read = chrono::DateTime::parse_from_rfc3339(stamp).unwrap().timestamp();
    assert!(before / 1000 <= read && read <= after / 1000);
    assert!(r.recent_errors[0].ends_with("Z] oops"));
}

#[test]
fn the_last_second_is_that_of_the_calendar() {
    assert_eq!(
        wasm_operator::outside::LAST_SECOND,
        chrono::DateTime::<chrono::Utc>::MAX_UTC.timestamp()
    );
    let mut recorder = WasmOperatorStatisticsRecorder::new(None);
    recorder.record_error_at(wasm_operator::outside::LAST_SECOND, "end");
    let r = recorder.get_statistics_at(0);
    assert_eq!(r.recent_errors, vec!["[+262142-12-31T23:59:59Z] end".to_string()]);
}

#[test]
fn errors_are_logged_with_a_time() {
    let mut recorder = WasmOperatorStatisticsRecorder::new(None);
    recorder.log_error("noon", "late");
    assert_eq!(recorder.get_statistics_at(0).recent_errors, vec!["[noon] late".to_string()]);
}
