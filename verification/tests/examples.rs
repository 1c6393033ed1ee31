use wasm_operator::crd::Metadata;
use wasm_operator::examples::ring_operator::{
    error_policy as ring_error_policy, heap_size, Action as RingAction, Data as RingData,
    patched, FirstStep, NextStep, RingTestResourceSpec,
};
use wasm_operator::examples::simple_controller::{
    ObjectMeta, ReconcileResult, ReconcileStep as NumberingStep, SimpleOperator,
    TestResource as NumberedResource, TestResourceSpec as NumberedSpec, UpdateOutcome,
    HEAP_MEM_SIZE,
};
use wasm_operator::examples::simple_operator::{
    error_policy, status_patched, Action, Data, Error, ReconcileStep, TestResource, TestResourceSpec,
    TestResourceStatus,
};

fn numbered(nonce: i64, updated_at: Option<&str>) -> NumberedResource {
    NumberedResource {
        api_version: "test.dev/v1".to_string(),
        kind: "TestResource".to_string(),
        metadata: ObjectMeta {
            name: "t".to_string(),
            namespace: None,
            resource_version: Some("7".to_string()),
        },
        spec: NumberedSpec { nonce, updated_at: updated_at.map(|s| s.to_string()) },
    }
}

fn function(name: &str, factor: i64) -> TestResource {
    TestResource {
        metadata: Metadata {
            name: Some(name.to_string()),
            generate_name: None,
            namespace: Some("default".to_string()),
            uid: None,
            generation: Some(1),
            deleting: false,
        },
        spec: TestResourceSpec { factor },
        status: None,
    }
}

#[test]
fn what_the_numbering_operator_watches() {
    let requests = SimpleOperator::get_watch_requests();
    assert_eq!(requests.len(), 1);
    assert_eq!(requests[0].kind, "TestResource");
    assert_eq!(requests[0].namespace, "default");
}

#[test]
fn memory_is_filled_once() {
    let mut operator = SimpleOperator::new();
    assert_eq!(operator.serialize(), vec![0; 8]);
    operator.reconcile_at(&numbered(1, Some("now")), 0x5_ffff_ffff);
    let bytes = operator.serialize();
    assert_eq!(bytes.len(), 8 + 4 * HEAP_MEM_SIZE);
    assert_eq!(&bytes[..16], &[0, 0, 0xa0, 0, 0, 0, 0, 0, 0xff, 0xff, 0xff, 0xff, 0, 0, 0, 0]);
    operator.reconcile_at(&numbered(1, Some("now")), 5);
    assert_eq!(&operator.serialize()[8..12], &[0xff, 0xff, 0xff, 0xff]);
}

#[test]
fn memory_is_written_and_read_back() {
    let mut operator = SimpleOperator::new();
    let bytes = vec![2, 0, 0, 0, 0, 0, 0, 0, 1, 2, 3, 4, 5, 6, 7, 8];
    assert!(operator.deserialize(bytes.clone()));
    assert_eq!(operator.serialize(), bytes);
    let mut longer = bytes.clone();
    longer.push(9);
    assert!(operator.deserialize(longer));
    assert_eq!(operator.serialize(), bytes);
    assert!(!operator.deserialize(vec![3, 0, 0, 0, 0, 0, 0, 0, 1, 2, 3, 4]));
    assert!(!operator.deserialize(vec![0; 7]));
    assert!(!operator.deserialize(vec![0xff; 100]));
    assert_eq!(operator.serialize(), bytes);
    assert!(operator.deserialize(vec![0; 8]));
    assert_eq!(operator.serialize(), vec![0; 8]);
}

#[test]
fn resources_are_numbered_once() {
    let mut operator = SimpleOperator::new();
    operator.deserialize(vec![1, 0, 0, 0, 0, 0, 0, 0, 1, 0, 0, 0]);
    assert!(matches!(operator.reconcile(&numbered(3, Some("now"))), NumberingStep::Done));
    for resource in [numbered(0, Some("now")), numbered(3, None), numbered(0, None)] {
        match operator.reconcile(&resource) {
            NumberingStep::List(kind, namespace) => {
                assert_eq!((kind.as_str(), namespace.as_str()), ("TestResource", "default"));
            }
            NumberingStep::Done => panic!("the resource is to be numbered"),
        }
    }
    let mut elsewhere = numbered(0, None);
    elsewhere.metadata.namespace = Some("ns".to_string());
    assert!(matches!(operator.reconcile(&elsewhere), NumberingStep::List(_, ns) if ns == "ns"));
    let r = SimpleOperator::numbered_at(numbered(0, None), &vec![4, 9, 2], "t1".to_string());
    assert_eq!(r.spec.nonce, 10);
    assert_eq!(r.spec.updated_at, Some("t1".to_string()));
    assert_eq!(r.metadata.resource_version, Some("7".to_string()));
    assert_eq!(SimpleOperator::numbered(numbered(0, None), &vec![]).spec.nonce, 1);
    assert_eq!(SimpleOperator::numbered(numbered(0, None), &vec![-5, -3]).spec.nonce, -2);
    let now = SimpleOperator::numbered(numbered(0, None), &vec![]).spec.updated_at.unwrap();
    let read = chrono::DateTime::parse_from_rfc3339(&now).unwrap().timestamp();
    assert!((chrono::Utc::now().timestamp() - read).abs() < 60);
}

#[test]
fn times_are_written_in_full() {
    let before = chrono::Utc::now();
    let text = SimpleOperator::numbered(numbered(0, None), &vec![]).spec.updated_at.unwrap();
    let after = chrono::Utc::now();
    assert!(text.ends_with("+00:00"), "{}", text);
    let read = chrono::DateTime::parse_from_rfc3339(&text).unwrap();
    assert!(before <= read && read <= after);
    assert_eq!(read.to_rfc3339(), text);
}

#[test]
fn what_an_update_is_handed() {
    let to = SimpleOperator::update_request(&numbered(8, Some("t")));
    assert_eq!((to.kind.as_str(), to.namespace.as_str()), ("TestResource", "default"));
    assert_eq!(to.name, numbered(8, None).metadata.name);
    assert!(to.flag);
    let mut elsewhere = numbered(8, None);
    elsewhere.metadata.namespace = Some("ns".to_string());
    assert_eq!(SimpleOperator::update_request(&elsewhere).namespace, "ns");
}

#[test]
fn a_status_is_written_or_not() {
    assert_eq!(status_patched(Ok(())).unwrap(), Action::AwaitChange);
    let e = status_patched(Err("down".to_string())).unwrap_err();
    assert_eq!(e.text(), "Kubernetes API error: down");
}

#[test]
fn nonces_are_read_from_a_list() {
    let nonces = |list| SimpleOperator::listed_nonces(list);
    assert_eq!(
        nonces(Ok(vec![Some(numbered(4, None)), None, Some(numbered(-9, Some("t")))])),
        vec![4, -9]
    );
    assert!(nonces(Ok(vec![])).is_empty());
    assert!(nonces(Err("down".to_string())).is_empty());
}

#[test]
fn numbering_may_fail() {
    let said = |r: ReconcileResult| match r {
        ReconcileResult::Done => String::new(),
        ReconcileResult::Error(words) => words,
    };
    assert_eq!(said(SimpleOperator::not_parsed("eof")), "Failed to parse resource: eof");
    assert_eq!(said(SimpleOperator::updated("t", UpdateOutcome::Updated)), "");
    assert_eq!(
        said(SimpleOperator::updated("t", UpdateOutcome::NotSerialized)),
        "Failed to serialize updated resource: t"
    );
    assert_eq!(
        said(SimpleOperator::updated("t", UpdateOutcome::Refused("no".to_string()))),
        "Failed to update resource t: no"
    );
}

#[test]
fn factors_are_multiplied_by_the_counter() {
    let mut data = Data::new();
    let mut outcome = |name: &str, factor: i64| match data.reconcile_at(&function(name, factor), 9) {
        Ok(ReconcileStep::PatchStatus(n, ns, status)) => {
            assert_eq!((n.as_str(), ns.as_str()), (name, "default"));
            assert_eq!(status.observed_generation, Some(1));
            assert_eq!(status.last_updated, Some(9));
            status.outcome
        }
        other => panic!("{:?}", other),
    };
    assert_eq!(outcome("function1", 1), 1);
    assert_eq!(outcome("function2", 10), 20);
    assert_eq!(outcome("function3", -1), -3);
    assert_eq!(outcome("function4", i64::MAX), -4);
}

#[test]
fn resources_that_are_not_due_are_left_alone() {
    let mut data = Data::new();
    let mut deleting = function("f", 1);
    deleting.metadata.deleting = true;
    let status = TestResourceStatus { outcome: 5, observed_generation: Some(1), last_updated: None };
    let mut known = function("f", 1);
    known.status = Some(status);
    for resource in [&deleting, &known] {
        assert!(matches!(
            data.reconcile(resource),
            Ok(ReconcileStep::Done(Action::AwaitChange))
        ));
    }
    known.metadata.generation = Some(2);
    match data.reconcile(&known) {
        Ok(ReconcileStep::PatchStatus(_, _, status)) => {
            assert_eq!(status.outcome, 1);
            let seen = status.last_updated.unwrap();
            let now = chrono::Utc::now().timestamp_nanos_opt().unwrap() as i128;
            assert!((now - seen).abs() < 60_000_000_000);
        }
        other => panic!("{:?}", other),
    }
}

#[test]
fn a_namespace_is_required() {
    let mut data = Data::new();
    let mut homeless = function("f", 1);
    homeless.metadata.namespace = None;
    homeless.metadata.deleting = true;
    match data.reconcile(&homeless) {
        Err(e) => assert_eq!(e.text(), "Resource is missing a namespace"),
        other => panic!("{:?}", other),
    }
    assert_eq!(Error::KubeError("x".to_string()).text(), "Kubernetes API error: x");
    assert_eq!(Error::SerializationError("x".to_string()).text(), "Serialization error: x");
    assert_eq!(error_policy(), Action::Requeue(5));
}

#[test]
fn numbers_go_around_the_ring() {
    let spec = |nonce: i64| RingTestResourceSpec { nonce, updated_at: None, reconcile_count: None };
    let mut data = RingData::new_at("next".to_string(), 3, 7);
    assert_eq!(data.out_namespace(), "next");
    let meta = function("f", 1).metadata;
    assert!(matches!(data.reconcile(&meta, &spec(0)), FirstStep::Done(RingAction::AwaitChange)));
    match data.reconcile(&meta, &spec(4)) {
        FirstStep::Fetch(name, namespace) => {
            assert_eq!((name.as_str(), namespace.as_str()), ("f", "next"));
        }
        other => panic!("{:?}", other),
    }
    match data.fetched(&meta, &spec(4), Err("down".to_string())) {
        Err(e) => assert_eq!(e.text(), "Kubernetes API error: down"),
        other => panic!("{:?}", other),
    }
    assert!(matches!(
        data.fetched_at(&meta, &spec(4), Ok(spec(5)), 100),
        Ok(NextStep::Done(RingAction::AwaitChange))
    ));
    let patch = match data.fetched_at(&meta, &spec(4), Ok(spec(0)), 100) {
        Ok(NextStep::Patch(patch)) => patch,
        other => panic!("{:?}", other),
    };
    assert_eq!((patch.name.as_str(), patch.namespace.as_str()), ("f", "next"));
    assert_eq!((patch.manager.as_str(), patch.force), ("RingTestResource", true));
    assert_eq!(
        patch.spec,
        RingTestResourceSpec { nonce: 5, updated_at: Some(100), reconcile_count: Some(1) }
    );
    assert_eq!(data.pass_on_at(&spec(4), &patch.spec, 101), None);
    let before = chrono::Utc::now().timestamp_nanos_opt().unwrap() as i128;
    let again = match data.fetched(&meta, &spec(5), Ok(patch.spec)) {
        Ok(NextStep::Patch(patch)) => patch.spec,
        other => panic!("{:?}", other),
    };
    let after = chrono::Utc::now().timestamp_nanos_opt().unwrap() as i128;
    assert_eq!(again.reconcile_count, Some(2));
    let seen = again.updated_at.unwrap();
    assert!(before <= seen && seen <= after);
    assert_eq!(patched(Ok(())).unwrap(), RingAction::AwaitChange);
    assert_eq!(patched(Err("down".to_string())).unwrap(), RingAction::AwaitChange);
    assert_eq!(ring_error_policy(), RingAction::Requeue(1));
    assert_eq!(RingData::new("n".to_string(), 0).out_namespace(), "n");
}

#[test]
fn the_heap_is_counted_in_mebibytes() {
    assert_eq!(heap_size(""), Some(0));
    assert_eq!(heap_size("x"), Some(0));
    assert_eq!(heap_size("3"), Some(0));
    assert_eq!(heap_size("4"), Some(1_048_576));
    assert_eq!(heap_size("100"), Some(26_214_400));
    assert_eq!(heap_size("16383"), Some(4_293_918_720));
    assert_eq!(heap_size("16384"), None);
}
