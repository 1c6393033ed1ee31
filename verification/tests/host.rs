use std::collections::hash_map::DefaultHasher;
use std::hash::{Hash, Hasher};
use wasm_operator::api::{
    api_version, as_signed64, get_dynamic_api, get_meta_api, to_kube_patch, AnyError, ApiResource,
    ApiScope, CreateParams, DeleteParams, Error, EvictParams, HttpError, KubeApiResource,
    KubeDeleteParams, KubeError, KubeEvictParams, KubeListParams, KubeLogParams, KubePatchParams,
    KubePostParams, KubePropagationPolicy, KubeValidationDirective, KubeVersionMatch, ListParams,
    LogParams, PatchParams, PatchType, Preconditions, PropagationPolicy, ValidationDirective,
    VersionMatch, WatchEvent, WatchParams,
};
use wasm_operator::stream_handler::{
    behind_error, BookmarkStep, Change, Delivery, EndStep, RegisterStep, WatchStreamHandler,
};
use wasm_operator::watch::{KubeWatchParams, WatchStreamSignature};

fn api() -> ApiResource {
    ApiResource {
        group: "test.dev".to_string(),
        version: "v1".to_string(),
        kind: "TestResource".to_string(),
        plural: "testresources".to_string(),
        namespace: Some("default".to_string()),
    }
}

fn params(initial: bool) -> WatchParams {
    WatchParams {
        label_selector: Some("a=b".to_string()),
        field_selector: None,
        timeout: Some(3),
        bookmarks: false,
        send_initial_events: initial,
    }
}

fn signature(initial: bool) -> WatchStreamSignature {
    WatchStreamSignature::from((api(), params(initial)))
}

fn hash_of(temporary: u64, initial: bool) -> u64 {
    let mut hasher = DefaultHasher::new();
    "test.dev".to_string().hash(&mut hasher);
    "v1".to_string().hash(&mut hasher);
    "TestResource".to_string().hash(&mut hasher);
    "testresources".to_string().hash(&mut hasher);
    Some("default".to_string()).hash(&mut hasher);
    Some("a=b".to_string()).hash(&mut hasher);
    None::<String>.hash(&mut hasher);
    initial.hash(&mut hasher);
    temporary.hash(&mut hasher);
    hasher.finish()
}

fn told(list: &Vec<Delivery>) -> Vec<(u64, u64, String)> {
    list.iter()
        .map(|d| {
            let text = match &d.event {
                WatchEvent::Added(json) => format!("added {}", json),
                WatchEvent::Modified(json) => format!("modified {}", json),
                WatchEvent::Deleted(json) => format!("deleted {}", json),
                WatchEvent::Bookmark(json) => format!("bookmark {}", json),
                WatchEvent::UpgradeBookmark((next, json)) => format!("upgrade {} {}", next, json),
                WatchEvent::Error(Error::NotFound) => "not found".to_string(),
                WatchEvent::Error(Error::Http(e)) => format!("http {} {}", e.code, e.reason),
                WatchEvent::Error(Error::Other(words)) => format!("error {}", words),
            };
            (d.operator, d.watch_id, text)
        })
        .collect()
}

fn open(
    handler: &mut WatchStreamHandler,
    operator: u64,
    initial: bool,
    version: &str,
    bookmarks: bool,
) -> WatchStreamSignature {
    let cmd = handler
        .register_watch_stream(operator, signature(initial), version.to_string(), bookmarks)
        .unwrap();
    let sig = cmd.signature.clone();
    if handler.begin_register(&cmd) == RegisterStep::Open {
        handler.register_opened(cmd);
    }
    sig
}

#[test]
fn the_hash_is_that_of_the_fields() {
    let mut sig = signature(false);
    assert_eq!(sig.get_hash(), hash_of(0, false));
    sig.set_temporary(9);
    assert_eq!(sig.get_hash(), hash_of(9, false));
    assert_eq!(sig.temporary(), 9);
    assert_eq!(signature(true).get_hash(), hash_of(0, true));
    assert_eq!(signature(true).namespace(), Some("default".to_string()));
}

#[test]
fn signatures_are_equal_where_their_fields_are() {
    assert!(signature(false) == signature(false));
    assert!(signature(false) != signature(true));
    let mut temporary = signature(true);
    temporary.set_temporary(4);
    assert!(temporary != signature(true));
    assert!(temporary.settled() == signature(false));
    assert!(temporary.clone() == temporary);
}

#[test]
fn requests_for_streams() {
    let sig = signature(true);
    let resource = KubeApiResource::from_signature(&sig);
    assert_eq!(resource.api_version, "test.dev/v1");
    assert_eq!(resource.version, "v1");
    assert_eq!(resource.plural, "testresources");
    let wp = KubeWatchParams::from_signature(&sig);
    assert_eq!(wp.label_selector, Some("a=b".to_string()));
    assert_eq!(wp.field_selector, None);
    assert_eq!(wp.timeout, None);
    assert!(wp.bookmarks);
    assert!(wp.send_initial_events);
    assert_eq!(api_version(&String::new(), &"v1".to_string()), "v1");
    assert_eq!(KubeApiResource::from_api(&api()).kind, "TestResource");
}

#[test]
fn operators_share_a_stream() {
    let mut handler = WatchStreamHandler::new();
    let sig = open(&mut handler, 1, false, "10", true);
    assert!(handler.is_open(&sig));
    let cmd = handler
        .register_watch_stream(2, signature(false), "10".to_string(), false)
        .unwrap();
    assert_eq!(handler.begin_register(&cmd), RegisterStep::Joined);
    let id = sig.get_hash();
    let list = handler.object_changed(
        &sig,
        Change::Modified,
        Some("11".to_string()),
        Ok("{}".to_string()),
    );
    assert_eq!(
        told(&list),
        vec![(1, id, "modified {}".to_string()), (2, id, "modified {}".to_string())]
    );
    let list = handler.object_changed(&sig, Change::Added, None, Err("bad".to_string()));
    assert_eq!(told(&list)[0].2, "error bad");
    let list = handler.object_changed(&sig, Change::Deleted, None, Ok("{}".to_string()));
    assert_eq!(told(&list)[1].2, "deleted {}");
}

#[test]
fn bookmarks_go_to_those_who_take_them() {
    let mut handler = WatchStreamHandler::new();
    let sig = open(&mut handler, 1, false, "10", true);
    open(&mut handler, 2, false, "10", false);
    let id = sig.get_hash();
    match handler.bookmark_received(&sig, "15".to_string(), Ok("b".to_string())) {
        BookmarkStep::Deliver(list) => {
            assert_eq!(told(&list), vec![(1, id, "bookmark b".to_string())])
        }
        other => panic!("{:?}", other),
    }
    match handler.bookmark_received(&sig, "16".to_string(), Err("bad".to_string())) {
        BookmarkStep::Deliver(list) => {
            assert_eq!(told(&list).len(), 2);
            assert_eq!(told(&list)[1].2, "error Bookmark serialization error: bad");
        }
        other => panic!("{:?}", other),
    }
    assert!(matches!(handler.stream_ended(&sig), EndStep::Reopen(v) if v == "16"));
}

#[test]
fn operators_that_want_all_objects_get_a_stream_of_their_own() {
    let mut handler = WatchStreamHandler::new();
    let shared = open(&mut handler, 1, false, "10", true);
    let own = open(&mut handler, 2, true, "", false);
    assert_eq!(own.temporary(), 1);
    assert_eq!(own.get_hash(), hash_of(1, true));
    assert!(handler.is_open(&own) && handler.is_open(&shared));
    match handler.bookmark_received(&own, "20".to_string(), Ok("b".to_string())) {
        BookmarkStep::Upgraded(list, None) => assert_eq!(
            told(&list),
            vec![(2, own.get_hash(), format!("upgrade {} b", shared.get_hash()))]
        ),
        other => panic!("{:?}", other),
    }
    assert!(!handler.is_open(&own));
    let list = handler.object_changed(&shared, Change::Added, Some("21".to_string()), Ok("x".to_string()));
    assert_eq!(told(&list).iter().map(|d| d.0).collect::<Vec<u64>>(), vec![1, 2]);
}

#[test]
fn a_shared_stream_is_opened_in_place_of_a_temporary_one() {
    let mut handler = WatchStreamHandler::new();
    let own = open(&mut handler, 2, true, "", false);
    let upgrade = match handler.bookmark_received(&own, "20".to_string(), Err("bad".to_string())) {
        BookmarkStep::Upgraded(list, Some(upgrade)) => {
            assert!(told(&list)[0].2.ends_with(" Bookmark serialization error: bad"));
            upgrade
        }
        other => panic!("{:?}", other),
    };
    assert!(upgrade.signature == signature(false));
    assert_eq!(upgrade.cluster_version, "20");
    assert_eq!(upgrade.listeners, vec![(2, false)]);
    handler.upgrade_opened(upgrade);
    assert!(handler.is_open(&signature(false)));
    assert!(matches!(handler.stream_ended(&signature(false)), EndStep::Reopen(v) if v == "20"));
}

#[test]
fn operators_that_are_behind_are_told_so() {
    let mut handler = WatchStreamHandler::new();
    let sig = open(&mut handler, 1, false, "10", true);
    handler.object_changed(&sig, Change::Added, Some("12".to_string()), Ok("x".to_string()));
    for version in ["12", "13", ""] {
        let cmd = handler
            .register_watch_stream(3, signature(false), version.to_string(), true)
            .unwrap();
        assert_eq!(cmd.signature.temporary(), 0);
    }
    let cmd = handler
        .register_watch_stream(3, signature(false), "11".to_string(), true)
        .unwrap();
    assert_eq!(cmd.signature.temporary(), 1);
    let own = cmd.signature.clone();
    assert_eq!(handler.begin_register(&cmd), RegisterStep::ServeGone);
    let list = handler.transport_failed(&own, behind_error());
    assert_eq!(told(&list), vec![(3, own.get_hash(), "http 410 Gone".to_string())]);
    assert!(matches!(handler.stream_ended(&own), EndStep::Dropped));
    assert!(!handler.is_open(&own));
    assert!(handler.is_open(&sig));
}

#[test]
fn versions_must_be_numbers() {
    let mut handler = WatchStreamHandler::new();
    let sig = open(&mut handler, 1, false, "10", true);
    handler.object_changed(&sig, Change::Added, Some("12".to_string()), Ok("x".to_string()));
    let said = |r: Result<_, Error>| match r {
        Err(Error::Other(words)) => words,
        _ => panic!("an error is due"),
    };
    assert_eq!(
        said(handler.register_watch_stream(3, signature(false), "x".to_string(), true).map(|_| ())),
        "Failed to parse cluster version: invalid digit found in string"
    );
    handler.object_changed(&sig, Change::Added, None, Ok("x".to_string()));
    assert_eq!(
        said(handler.register_watch_stream(3, signature(false), "11".to_string(), true).map(|_| ())),
        "Failed to parse last event version: cannot parse integer from empty string"
    );
}

#[test]
fn streams_that_the_server_gave_up_on_are_dropped() {
    let mut handler = WatchStreamHandler::new();
    let sig = open(&mut handler, 1, false, "10", true);
    let status = |code: u16| HttpError { code, reason: "r".to_string(), message: "m".to_string() };
    let list = handler.error_received(&sig, status(500));
    assert_eq!(told(&list)[0].2, "http 500 r");
    assert!(handler.version_known(&sig));
    assert!(matches!(handler.stream_ended(&sig), EndStep::Reopen(v) if v == "10"));
    handler.reopened(&sig);
    handler.error_received(&sig, status(410));
    assert!(matches!(handler.stream_ended(&sig), EndStep::Dropped));
    assert!(!handler.is_open(&sig));
    assert!(!handler.version_known(&sig));
    let list = handler.object_changed(&sig, Change::Added, None, Ok("x".to_string()));
    assert!(list.is_empty());
}

#[test]
fn streams_that_cannot_be_opened() {
    let mut handler = WatchStreamHandler::new();
    let cmd = handler
        .register_watch_stream(5, signature(false), "1".to_string(), true)
        .unwrap();
    assert_eq!(handler.begin_register(&cmd), RegisterStep::Open);
    let refused = WatchStreamHandler::register_refused(&cmd, Error::NotFound);
    assert_eq!(told(&vec![refused]), vec![(5, hash_of(0, false), "not found".to_string())]);
    assert!(!handler.is_open(&cmd.signature));
    let sig = open(&mut handler, 5, false, "1", true);
    let list = handler.reopen_failed(&sig, Error::Other("down".to_string()));
    assert_eq!(told(&list)[0].2, "error down");
    assert!(handler.is_open(&sig));
    let list = handler.object_changed(&sig, Change::Added, None, Ok("x".to_string()));
    assert!(list.is_empty());
    handler.let_go(&sig);
    assert!(!handler.is_open(&sig));
    assert!(handler.version_known(&sig));
}

#[test]
fn a_spent_stream_is_joined_until_it_is_let_go_of() {
    let mut handler = WatchStreamHandler::new();
    let sig = open(&mut handler, 5, false, "1", true);
    handler.reopen_failed(&sig, Error::Other("down".to_string()));
    let cmd = handler
        .register_watch_stream(6, signature(false), "1".to_string(), true)
        .unwrap();
    assert_eq!(handler.begin_register(&cmd), RegisterStep::Joined);
    handler.let_go(&sig);
    let cmd = handler
        .register_watch_stream(7, signature(false), "1".to_string(), true)
        .unwrap();
    assert_eq!(handler.begin_register(&cmd), RegisterStep::Open);
    handler.register_opened(cmd);
    let list = handler.object_changed(&sig, Change::Added, None, Ok("x".to_string()));
    assert_eq!(told(&list).iter().map(|d| d.0).collect::<Vec<u64>>(), vec![6, 7]);
}

#[test]
fn a_signature_is_hashed_by_its_cached_hash() {
    let sig = signature(true);
    let mut by_signature = DefaultHasher::new();
    sig.hash(&mut by_signature);
    let mut by_number = DefaultHasher::new();
    by_number.write_u64(sig.get_hash());
    assert_eq!(by_signature.finish(), by_number.finish());
}

#[test]
fn listeners_that_are_lost() {
    let mut handler = WatchStreamHandler::new();
    let sig = open(&mut handler, 1, false, "1", true);
    open(&mut handler, 2, false, "1", true);
    handler.listener_lost(&sig, 1);
    assert!(handler.is_open(&sig));
    let list = handler.object_changed(&sig, Change::Added, None, Ok("x".to_string()));
    assert_eq!(told(&list).iter().map(|d| d.0).collect::<Vec<u64>>(), vec![2]);
    handler.listener_lost(&sig, 2);
    assert!(!handler.is_open(&sig));
}

#[test]
fn transport_errors_are_passed_on() {
    let mut handler = WatchStreamHandler::new();
    let sig = open(&mut handler, 1, false, "1", true);
    let status = HttpError { code: 404, reason: "r".to_string(), message: "m".to_string() };
    assert_eq!(told(&handler.transport_failed(&sig, KubeError::Api(status)))[0].2, "not found");
    let words = KubeError::Other("cut".to_string());
    assert_eq!(told(&handler.transport_failed(&sig, words))[0].2, "error cut");
    assert!(matches!(handler.stream_ended(&sig), EndStep::Reopen(_)));
}

#[test]
fn errors_as_operators_see_them() {
    let status = |code: u16| HttpError { code, reason: "r".to_string(), message: "m".to_string() };
    assert!(matches!(Error::from(KubeError::Api(status(404))), Error::NotFound));
    match Error::from(AnyError::Kube(KubeError::Api(status(409)))) {
        Error::Http(e) => assert_eq!((e.code, e.reason.as_str(), e.message.as_str()), (409, "r", "m")),
        other => panic!("{:?}", other),
    }
    assert!(matches!(Error::from(KubeError::Other("x".to_string())), Error::Other(w) if w == "x"));
    assert!(matches!(Error::from(AnyError::Other("y".to_string())), Error::Other(w) if w == "y"));
}

#[test]
fn requests_are_limited_to_a_namespace_or_not() {
    assert!(matches!(get_dynamic_api(Some("a".to_string())), ApiScope::Namespaced(ns) if ns == "a"));
    assert!(matches!(get_dynamic_api(None), ApiScope::All));
    assert!(matches!(get_meta_api(&api()), ApiScope::Namespaced(ns) if ns == "default"));
    let mut all = api();
    all.namespace = None;
    assert!(matches!(get_meta_api(&all), ApiScope::All));
}

#[test]
fn parameters_are_passed_on() {
    let dp = KubeDeleteParams::from(DeleteParams {
        dry_run: true,
        grace_period_seconds: Some(4),
        propagation_policy: Some(PropagationPolicy::Background),
        preconditions: Some(Preconditions { uid: Some("u".to_string()), resource_version: None }),
    });
    assert!(dp.dry_run);
    assert_eq!(dp.grace_period_seconds, Some(4));
    assert_eq!(dp.propagation_policy, Some(KubePropagationPolicy::Background));
    assert_eq!(dp.preconditions.unwrap().uid, Some("u".to_string()));
    assert_eq!(KubePropagationPolicy::from(PropagationPolicy::Orphan), KubePropagationPolicy::Orphan);
    assert_eq!(
        KubePropagationPolicy::from(PropagationPolicy::Foreground),
        KubePropagationPolicy::Foreground
    );
    let lp = KubeListParams::from(ListParams {
        label_selector: Some("l".to_string()),
        field_selector: Some("f".to_string()),
        timeout: Some(1),
        limit: Some(2),
        continue_token: Some("c".to_string()),
        version_match: Some(VersionMatch::NotLater),
        resource_version: Some("9".to_string()),
    });
    assert_eq!(lp.version_match, Some(KubeVersionMatch::NotOlderThan));
    assert_eq!(lp.continue_token, Some("c".to_string()));
    assert_eq!((lp.timeout, lp.limit), (Some(1), Some(2)));
    assert_eq!(KubeVersionMatch::from(VersionMatch::Exact), KubeVersionMatch::Exact);
    let pp = KubePatchParams::from(PatchParams {
        dry_run: false,
        force: true,
        field_manager: Some("m".to_string()),
        field_validation: Some(ValidationDirective::Warn),
    });
    assert!(pp.force && !pp.dry_run);
    assert_eq!(pp.field_validation, Some(KubeValidationDirective::Warn));
    assert_eq!(
        KubeValidationDirective::from(ValidationDirective::Strict),
        KubeValidationDirective::Strict
    );
    let ep = KubeEvictParams::from(EvictParams {
        delete_options: None,
        post_options: CreateParams { dry_run: true, field_manager: Some("m".to_string()) },
    });
    assert!(ep.delete_options.is_none());
    assert!(ep.post_options.dry_run);
    let cp = KubePostParams::from(CreateParams { dry_run: false, field_manager: None });
    assert_eq!(cp.field_manager, None);
}

#[test]
fn log_parameters() {
    let log = |since_time: Option<&str>| {
        KubeLogParams::from(LogParams {
            container: Some("c".to_string()),
            follow: true,
            limit_bytes: Some(u64::MAX),
            pretty: false,
            previous: true,
            since_seconds: Some(7),
            since_time: since_time.map(|s| s.to_string()),
            tail_lines: None,
            timestamps: true,
        })
    };
    let r = log(Some("1970-01-02T00:00:00.5Z"));
    assert_eq!(r.limit_bytes, Some(-1));
    assert_eq!(r.since_seconds, Some(7));
    assert_eq!(r.tail_lines, None);
    assert_eq!(r.since_time, Some(86_400_500_000_000));
    assert!(r.follow && r.previous && r.timestamps && !r.pretty);
    assert_eq!(log(Some("yesterday")).since_time, None);
    assert_eq!(log(None).since_time, None);
    assert_eq!(as_signed64(0x8000_0000_0000_0000), i64::MIN);
}

#[test]
fn patches_must_be_json() {
    for patch_type in [PatchType::Apply, PatchType::Merge, PatchType::Strategic] {
        let patch = to_kube_patch(patch_type, "{\"a\": 1}".to_string()).unwrap();
        assert_eq!(patch.patch_type, patch_type);
        assert_eq!(patch.body, "{\"a\": 1}");
    }
    let said = |r: Result<_, Error>| match r {
        Err(Error::Other(words)) => words,
        _ => panic!("an error is due"),
    };
    let fault = serde_json::from_str::<serde_json::Value>("{").unwrap_err().to_string();
    assert_eq!(said(to_kube_patch(PatchType::Json, "{".to_string()).map(|_| ())), fault);
    let ops = "[{\"op\": \"remove\", \"path\": \"/a\"}]".to_string();
    assert!(to_kube_patch(PatchType::Json, ops).is_ok());
    let words = said(to_kube_patch(PatchType::Json, "{\"a\": 1}".to_string()).map(|_| ()));
    assert!(words.contains("invalid type"), "{}", words);
}
