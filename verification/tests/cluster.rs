use wasm_operator::api::KubeApiResource;
use wasm_operator::cli::{
    directives, is_filter_safe, log_filter, parse_args, setup_logging, worker_threads, LogFilter,
    LoggingParams,
};
use wasm_operator::crd::WasmOperatorState;
use wasm_operator::kubernetes::{status_patched, KubernetesService};
use wasm_operator::prediction::{get_next_reconcile_prediction, PredictionModel};

fn resource(group: &str, kind: &str) -> KubeApiResource {
    KubeApiResource {
        group: group.to_string(),
        version: "v1".to_string(),
        api_version: format!("{}/v1", group),
        kind: kind.to_string(),
        plural: format!("{}s", kind),
    }
}

fn args(list: &[&str]) -> Vec<String> {
    list.iter().map(|s| s.to_string()).collect()
}

#[test]
fn the_first_resource_of_a_kind_is_found() {
    let mut service = KubernetesService::new(vec![
        resource("a", "Pod"),
        resource("b", "WasmOperator"),
        resource("c", "wasmoperator"),
    ]);
    assert_eq!(service.find_api_resource("WASMOPERATOR").unwrap().group, "b");
    assert_eq!(service.find_api_resource("pod").unwrap().plural, "Pods");
    assert_eq!(
        service.find_api_resource("Node").unwrap_err(),
        "Kind 'Node' not found in discovered API resources"
    );
    service.refresh_discovery(vec![resource("d", "Node")]);
    assert_eq!(service.find_api_resource("Node").unwrap().api_version, "d/v1");
    assert!(service.find_api_resource("Pod").is_err());
}

#[test]
fn a_status_to_patch() {
    let service = KubernetesService::new(vec![resource("b", "WasmOperator")]);
    let patch = service
        .patch_status("WasmOperator", "adder", "ns", "{\"status\": {}}")
        .unwrap();
    assert_eq!(patch.resource.group, "b");
    assert_eq!(patch.name, "adder");
    assert_eq!(patch.namespace, "ns");
    assert_eq!(patch.body, "{\"status\": {}}");
    assert_eq!(
        service.patch_status("WasmOperator", "adder", "ns", "{").unwrap_err(),
        "Failed to deserialize status from JSON for patching"
    );
    assert_eq!(
        service.patch_status("Pod", "adder", "ns", "{").unwrap_err(),
        "Kind 'Pod' not found in discovered API resources"
    );
    assert!(service.prepare_patch("WasmOperator", "adder", "ns", "{", false).is_ok());
    assert!(service.prepare_patch("WasmOperator", "adder", "ns", "{}", true).is_err());
    assert_eq!(status_patched(None), Ok(()));
    assert_eq!(
        status_patched(Some("no".to_string())),
        Err("Failed to patch status: no".to_string())
    );
}

#[test]
fn arguments_set_log_levels() {
    let none = parse_args(&args(&["controller"])).unwrap();
    assert_eq!(none.base_level, "info");
    assert_eq!(none.http_level, None);
    assert_eq!(none.kube_level, None);
    let all = parse_args(&args(&[
        "controller", "--kube_log=trace", "--debug", "--http_log=warn", "--kube_log=info",
    ]))
    .unwrap();
    assert_eq!(all.base_level, "debug");
    assert_eq!(all.http_level, Some("warn".to_string()));
    assert_eq!(all.kube_level, Some("info".to_string()));
    assert_eq!(
        parse_args(&args(&["controller", "--debug", "--verbose", "-x"])).unwrap_err(),
        "Unexpected argument: --verbose"
    );
}

#[test]
fn levels_become_directives() {
    let mut params = LoggingParams {
        base_level: "info".to_string(),
        http_level: None,
        kube_level: None,
    };
    assert!(directives(&params).is_empty());
    params.http_level = Some("warn".to_string());
    params.kube_level = Some("debug".to_string());
    assert_eq!(
        directives(&params),
        args(&["hyper=warn", "hyper_util=warn", "tower=warn", "kube=debug"])
    );
}

#[test]
fn at_least_two_threads() {
    assert_eq!(worker_threads(None), 2);
    assert_eq!(worker_threads(Some(1)), 2);
    assert_eq!(worker_threads(Some(2)), 2);
    assert_eq!(worker_threads(Some(16)), 16);
}

#[test]
fn a_prediction_is_asked_for() {
    let request = get_next_reconcile_prediction(vec![1, 2], PredictionModel::AutoReg);
    assert_eq!(request.url, "http://localhost:5000/prediction");
    assert_eq!(request.history, vec![1, 2]);
    assert_eq!(request.function, PredictionModel::AutoReg);
}

#[test]
fn a_given_filter_comes_before_levels() {
    let params = LoggingParams {
        base_level: "info".to_string(),
        http_level: None,
        kube_level: Some("debug".to_string()),
    };
    let given = Some("kube=trace".to_string());
    match log_filter(given.clone(), true, &params) {
        LogFilter::Given(text) => assert_eq!(text, "kube=trace"),
        other => panic!("{:?}", other),
    }
    for (rust_log, accepted) in [(given, false), (None, true), (None, false)] {
        match log_filter(rust_log, accepted, &params) {
            LogFilter::Levels(base, list) => {
                assert_eq!(base, "info");
                assert_eq!(list, vec!["kube=debug".to_string()]);
            }
            other => panic!("{:?}", other),
        }
    }
}

#[test]
fn states_are_written_by_their_names() {
    assert_eq!(WasmOperatorState::Unclaimed.text(), "Unclaimed");
    assert_eq!(WasmOperatorState::Running.text(), "Running");
    assert_eq!(WasmOperatorState::Idle.text(), "Idle");
    assert_eq!(WasmOperatorState::Paused.text(), "Paused");
    assert_eq!(WasmOperatorState::Error.text(), "Error");
}

#[test]
fn rust_log_is_read_as_a_filter() {
    let params = |http: Option<&str>| LoggingParams {
        base_level: "debug".to_string(),
        http_level: http.map(|s| s.to_string()),
        kube_level: None,
    };
    let given = |text: &str| match setup_logging(Some(text.to_string()), &params(None)) {
        Ok(LogFilter::Given(same)) => same == text,
        Ok(LogFilter::Levels(base, list)) => {
            assert_eq!(base, "debug");
            assert!(list.is_empty());
            false
        }
        Err(e) => panic!("{}", e),
    };
    for text in ["", "info", "kube=debug", "kube=debug,hyper=off", "a[b{c=1}]=warn", "é=info", "off,"] {
        assert!(given(text), "{}", text);
        assert!(tracing_subscriber::EnvFilter::try_new(text).is_ok());
    }
    for text in ["kube=loud", "info,!", "a[b", "=info", "info,kube=debug=x"] {
        assert!(!given(text), "{}", text);
        assert!(tracing_subscriber::EnvFilter::try_new(text).is_err());
    }
    assert!(matches!(setup_logging(None, &params(None)), Ok(LogFilter::Levels(_, _))));
}

#[test]
fn levels_must_be_levels() {
    let read = |http: &str, kube: &str| {
        let params = LoggingParams {
            base_level: "info".to_string(),
            http_level: Some(http.to_string()),
            kube_level: Some(kube.to_string()),
        };
        setup_logging(Some("trace".to_string()), &params).map(|_| ())
    };
    assert_eq!(read("debug", "WARN"), Ok(()));
    assert_eq!(read("3", ""), Ok(()));
    assert_eq!(read("loud", "x"), Err("hyper=loud".to_string()));
    assert_eq!(read("é", "info"), Err("hyper=é".to_string()));
    assert_eq!(read("debug", "9"), Err("kube=9".to_string()));
}

#[test]
fn filters_that_the_parser_may_fail_on() {
    for text in ["", "info", " info", "é=info", "é , info", "info,\t\tkube=debug ", "aé,bé"] {
        assert!(is_filter_safe(text), "{:?}", text);
    }
    for text in [" é=info", "info, é", "\u{a0}info", "a,\u{3000}b,c"] {
        assert!(!is_filter_safe(text), "{:?}", text);
    }
}
