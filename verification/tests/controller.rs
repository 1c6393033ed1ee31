use wasm_operator::controller::{
    idle_check_period, idle_step, ApplyStep, IdleEvent, IdleStep, MainController, WatchStep,
    WatcherEvent,
};
use wasm_operator::crd::Metadata;

fn declared(uid: &str, generation: Option<i64>) -> Metadata {
    Metadata {
        name: Some(format!("op-{}", uid)),
        generate_name: None,
        namespace: Some("default".to_string()),
        uid: Some(uid.to_string()),
        generation,
        deleting: false,
    }
}

fn start(controller: &mut MainController, uid: &str, generation: i64) -> ApplyStep {
    let step = controller.apply_operator(&declared(uid, Some(generation))).unwrap();
    if step == ApplyStep::Start || step == ApplyStep::Replace {
        controller.operator_started(uid, Some(generation), true);
    }
    step
}

fn sorted(mut list: Vec<String>) -> Vec<String> {
    list.sort();
    list
}

#[test]
fn a_new_controller_has_a_name_and_no_operators() {
    let a = MainController::new();
    let b = MainController::new();
    assert_eq!(a.uuid().len(), 36);
    assert_eq!(a.uuid().chars().nth(8), Some('-'));
    assert_eq!(a.uuid().chars().nth(23), Some('-'));
    assert_eq!(a.uuid().chars().nth(13), Some('-'));
    assert_eq!(a.uuid().chars().nth(18), Some('-'));
    assert_ne!(a.uuid(), b.uuid());
    assert!(a.active().is_empty());
}

#[test]
fn operators_are_started_once_and_replaced_when_they_change() {
    let mut c = MainController::new();
    assert_eq!(start(&mut c, "a", 1), ApplyStep::Start);
    assert_eq!(start(&mut c, "a", 1), ApplyStep::Unchanged);
    assert_eq!(c.running("a"), Some(Some(1)));
    assert_eq!(start(&mut c, "a", 2), ApplyStep::Replace);
    assert_eq!(c.running("a"), Some(Some(2)));
    assert_eq!(start(&mut c, "a", 1), ApplyStep::Unchanged);
}

#[test]
fn an_operator_that_is_replaced_is_gone_until_it_is_started() {
    let mut c = MainController::new();
    start(&mut c, "a", 1);
    assert_eq!(c.apply_operator(&declared("a", Some(2))), Ok(ApplyStep::Replace));
    assert_eq!(c.running("a"), None);
}

#[test]
fn one_operator_does_not_touch_another() {
    let mut c = MainController::new();
    start(&mut c, "a", 1);
    start(&mut c, "b", 7);
    start(&mut c, "a", 2);
    assert_eq!(c.running("b"), Some(Some(7)));
}

#[test]
fn an_operator_without_uid_is_an_error() {
    let mut c = MainController::new();
    let mut meta = declared("a", Some(1));
    meta.uid = None;
    assert_eq!(c.apply_operator(&meta), Err("Kubernetes object is missing a UID".to_string()));
    assert_eq!(
        c.handle_event(WatcherEvent::Apply(meta)).unwrap_err(),
        "Kubernetes object is missing a UID"
    );
}

#[test]
fn a_crashed_generation_is_not_started_again() {
    let mut c = MainController::new();
    start(&mut c, "a", 3);
    assert!(c.handle_operator_shutdown("a"));
    assert!(!c.handle_operator_shutdown("a"));
    assert_eq!(c.running("a"), None);
    assert_eq!(start(&mut c, "a", 3), ApplyStep::Skipped);
    assert_eq!(start(&mut c, "a", 2), ApplyStep::Skipped);
    assert_eq!(start(&mut c, "a", 4), ApplyStep::Start);
}

#[test]
fn an_operator_that_cannot_be_started_counts_as_crashed() {
    let mut c = MainController::new();
    assert_eq!(c.apply_operator(&declared("a", Some(1))), Ok(ApplyStep::Start));
    c.operator_started("a", Some(1), false);
    assert_eq!(c.running("a"), None);
    assert_eq!(start(&mut c, "a", 1), ApplyStep::Skipped);
}

#[test]
fn an_operator_without_generation_is_skipped() {
    let mut c = MainController::new();
    assert_eq!(c.apply_operator(&declared("a", None)), Ok(ApplyStep::Skipped));
}

#[test]
fn deleted_operators_are_stopped() {
    let mut c = MainController::new();
    start(&mut c, "a", 1);
    let step = c.handle_event(WatcherEvent::Delete(declared("a", Some(1)))).unwrap();
    assert!(matches!(step, WatchStep::Stop(list) if list == vec!["a".to_string()]));
    let step = c.handle_event(WatcherEvent::Delete(declared("a", Some(1)))).unwrap();
    assert!(matches!(step, WatchStep::Stop(list) if list.is_empty()));
    assert!(!c.delete_operator("a"));
}

#[test]
fn operators_that_are_not_listed_anew_are_stopped() {
    let mut c = MainController::new();
    start(&mut c, "a", 1);
    start(&mut c, "b", 1);
    start(&mut c, "c", 1);
    assert!(matches!(c.handle_event(WatcherEvent::Init), Ok(WatchStep::Continue)));
    assert!(matches!(
        c.handle_event(WatcherEvent::InitApply(declared("b", Some(1)))),
        Ok(WatchStep::Applied(ApplyStep::Unchanged))
    ));
    assert!(matches!(
        c.handle_event(WatcherEvent::InitApply(declared("d", Some(1)))),
        Ok(WatchStep::Applied(ApplyStep::Start))
    ));
    c.operator_started("d", Some(1), true);
    let step = c.handle_event(WatcherEvent::InitDone).unwrap();
    match step {
        WatchStep::Stop(list) => assert_eq!(sorted(list), vec!["a", "c"]),
        _ => panic!("operators are to be stopped"),
    }
    assert_eq!(sorted(c.active()), vec!["b", "d"]);
    let step = c.handle_event(WatcherEvent::InitDone).unwrap();
    match step {
        WatchStep::Stop(list) => assert_eq!(sorted(list), vec!["b", "d"]),
        _ => panic!("operators are to be stopped"),
    }
}

#[test]
fn the_end_of_the_watch() {
    let mut c = MainController::new();
    start(&mut c, "a", 1);
    start(&mut c, "b", 1);
    match c.handle_event(WatcherEvent::Shutdown).unwrap() {
        WatchStep::PauseAll(list) => assert_eq!(sorted(list), vec!["a", "b"]),
        _ => panic!("operators are to be paused"),
    }
    assert!(matches!(c.handle_event(WatcherEvent::Failed), Ok(WatchStep::Cancel)));
    assert_eq!(
        c.handle_event(WatcherEvent::Ended).unwrap_err(),
        "WasmOperator watcher stream ended unexpectedly."
    );
    assert_eq!(c.active().len(), 2);
}

#[test]
fn idle_operators_are_unloaded_and_may_be_expected_again() {
    assert_eq!(idle_step(IdleEvent::Checked(false), true), IdleStep::Next);
    assert_eq!(idle_step(IdleEvent::Checked(true), true), IdleStep::SendUnload);
    assert_eq!(idle_step(IdleEvent::UnloadSent(false), true), IdleStep::Next);
    assert_eq!(idle_step(IdleEvent::UnloadSent(true), false), IdleStep::Next);
    assert_eq!(idle_step(IdleEvent::UnloadSent(true), true), IdleStep::Predict);
    assert_eq!(idle_step(IdleEvent::Predicted(None), true), IdleStep::Next);
    assert_eq!(idle_step(IdleEvent::Predicted(Some(9)), true), IdleStep::SendLoadAt(9));
    assert_eq!(idle_check_period(5000), 2_500_000_000);
    assert_eq!(idle_check_period(1), 500_000);
}
