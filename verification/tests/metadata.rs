use wasm_operator::crd::{Metadata, WasmSource};
use wasm_operator::metadata::{DynamicObject, Json, WasmComponentMetadata};

fn text(s: &str) -> Json {
    Json::Text(s.to_string())
}

fn object(pairs: Vec<(&str, Json)>) -> Json {
    Json::Object(pairs.into_iter().map(|(k, v)| (k.to_string(), v)).collect())
}

fn source() -> Option<WasmSource> {
    Some(WasmSource::Pvc { path: "p".to_string(), file: "f".to_string() })
}

fn with_spec(spec: Vec<(&str, Json)>) -> DynamicObject {
    DynamicObject {
        metadata: Metadata {
            name: Some("adder".to_string()),
            generate_name: None,
            namespace: None,
            uid: Some("u-1".to_string()),
            generation: Some(2),
            deleting: false,
        },
        data: object(vec![("spec", object(spec))]),
    }
}

fn full() -> Vec<(&'static str, Json)> {
    vec![
        ("wasm", object(vec![])),
        (
            "env",
            Json::List(vec![
                object(vec![("name", text("A")), ("value", text("1"))]),
                object(vec![("name", text("B"))]),
                text("C"),
                object(vec![("value", text("2")), ("name", text("D"))]),
                object(vec![("name", Json::Null), ("value", text("3"))]),
            ]),
        ),
        ("args", Json::List(vec![text("x"), Json::Bool(true), text("y"), Json::Number("1".to_string())])),
    ]
}

fn component(name: &str) -> Result<WasmComponentMetadata, String> {
    Ok(WasmComponentMetadata {
        name: name.to_string(),
        wasm: WasmSource::Pvc { path: "p".to_string(), file: "f".to_string() },
        generation: None,
        uid: "u".to_string(),
        env: vec![],
        args: vec![],
    })
}

#[test]
fn an_object_is_read() {
    let m = WasmComponentMetadata::load_from_k8s_object(&with_spec(full()), source()).unwrap();
    assert_eq!(m.name, "adder");
    assert_eq!(m.uid, "u-1");
    assert_eq!(m.generation, Some(2));
    let env: Vec<(String, String)> = m.env.into_iter().map(|e| (e.name, e.value)).collect();
    assert_eq!(
        env,
        vec![("A".to_string(), "1".to_string()), ("D".to_string(), "2".to_string())]
    );
    assert_eq!(m.args, vec!["x".to_string(), "y".to_string()]);
    let WasmSource::Pvc { path, file } = m.wasm;
    assert_eq!((path.as_str(), file.as_str()), ("p", "f"));
}

#[test]
fn what_an_object_may_lack() {
    let read = |object: &DynamicObject, wasm: Option<WasmSource>| {
        WasmComponentMetadata::load_from_k8s_object(object, wasm).unwrap_err()
    };
    let without = |key: &str| with_spec(full().into_iter().filter(|(k, _)| *k != key).collect());
    assert_eq!(
        read(&without("wasm"), source()),
        "Missing 'wasm' field in Kubernetes object 'adder'"
    );
    assert_eq!(
        read(&with_spec(full()), None),
        "Missing or invalid 'wasm' field in Kubernetes object 'adder'"
    );
    let mut nameless = with_spec(full());
    nameless.metadata.uid = None;
    assert_eq!(read(&nameless, source()), "Missing UID in Kubernetes object 'adder'");
    let with = |key: &'static str, value: Json| {
        let mut spec: Vec<(&'static str, Json)> =
            full().into_iter().filter(|(k, _)| *k != key).collect();
        spec.push((key, value));
        with_spec(spec)
    };
    assert_eq!(
        read(&with("env", text("A")), source()),
        "Missing or invalid 'env' field in Kubernetes object 'adder'"
    );
    assert_eq!(
        read(&with("args", Json::Null), source()),
        "Missing or invalid 'args' field in Kubernetes object 'adder'"
    );
    let mut wrong = without("args");
    wrong.data = object(vec![("spec", Json::List(vec![]))]);
    assert_eq!(
        read(&wrong, source()),
        "Missing 'wasm' field in Kubernetes object 'adder'"
    );
}

#[test]
fn env_and_args_may_be_left_out() {
    let read = |keys: &[&str]| {
        let spec = full().into_iter().filter(|(k, _)| !keys.contains(k)).collect();
        WasmComponentMetadata::load_from_k8s_object(&with_spec(spec), source()).unwrap()
    };
    let bare = read(&["env", "args"]);
    assert!(bare.env.is_empty());
    assert!(bare.args.is_empty());
    assert_eq!(bare.name, "adder");
    assert_eq!(read(&["env"]).args, vec!["x".to_string(), "y".to_string()]);
    assert_eq!(read(&["args"]).env.len(), 2);
}

#[test]
fn keys_are_looked_up() {
    let json = object(vec![("a", text("1")), ("b", Json::Null), ("a", text("2"))]);
    assert_eq!(json.get_text("a"), Some("1".to_string()));
    assert_eq!(json.get_text("b"), None);
    assert!(json.get("b").is_some());
    assert!(json.get("c").is_none());
    assert!(text("a").get("a").is_none());
    assert!(json.get_spec("a").is_none());
}

#[test]
fn documents_of_a_file() {
    assert_eq!(WasmComponentMetadata::yaml_documents(" \n\t"), Vec::<String>::new());
    assert_eq!(WasmComponentMetadata::yaml_documents("a: 1"), vec!["a: 1".to_string()]);
    assert_eq!(
        WasmComponentMetadata::yaml_documents("a: 1\n---\nb: 2\n---"),
        vec!["a: 1".to_string(), "\nb: 2".to_string(), String::new()]
    );
}

#[test]
fn empty_documents_are_passed_over() {
    let docs = vec![
        component("a"),
        Err("EOF while parsing a value".to_string()),
        component("b"),
        Err("line 3: EOF while parsing a value at".to_string()),
    ];
    let names: Vec<String> = WasmComponentMetadata::load_from_yaml(docs)
        .unwrap()
        .into_iter()
        .map(|m| m.name)
        .collect();
    assert_eq!(names, vec!["a".to_string(), "b".to_string()]);
}

#[test]
fn the_first_fault_is_reported() {
    let docs = vec![
        component("a"),
        Err("missing field `uid`".to_string()),
        Err("other".to_string()),
    ];
    assert_eq!(
        WasmComponentMetadata::load_from_yaml(docs).unwrap_err(),
        "Failed to parse module: missing field `uid`"
    );
    assert!(WasmComponentMetadata::load_from_yaml(vec![]).unwrap().is_empty());
}
