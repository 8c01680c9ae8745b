use serde_json::Value;
use surreal_dbops::controller::utils::{
    config_map_value, interpolate_schema, resolve_namespace, secret_value, start_schema_text,
    value_step, TextStep, ValueStep,
};
use surreal_dbops::controller::Error;
use surreal_dbops::crd::{
    ConfigMapKeySelector, LocalObjectReference, SchemaSpec, SecretKeySelector, ValueFromSource,
    ValueOrRefSource,
};
use surreal_dbops::webhook::server::{
    generate_patch, is_approved, mutate_handler, AdmissionRequest, AdmissionReviewRequest,
    PatchValue, ReviewedObject, UserInfo,
};

fn raw(v: &str) -> ValueOrRefSource {
    ValueOrRefSource { value: Some(v.to_string()), value_from: None }
}

fn secret_ref(name: &str, key: &str) -> ValueOrRefSource {
    ValueOrRefSource {
        value: None,
        value_from: Some(ValueFromSource {
            secret_key_ref: Some(SecretKeySelector { name: name.to_string(), key: key.to_string() }),
            config_map_ref: None,
        }),
    }
}

fn config_map_ref(name: &str, key: &str) -> ValueOrRefSource {
    ValueOrRefSource {
        value: None,
        value_from: Some(ValueFromSource {
            secret_key_ref: None,
            config_map_ref: Some(ConfigMapKeySelector { name: name.to_string(), key: key.to_string() }),
        }),
    }
}

fn reference(name: &str, namespace: Option<&str>) -> LocalObjectReference {
    LocalObjectReference { name: name.to_string(), namespace: namespace.map(|n| n.to_string()) }
}

/// Resolves a value source the way the operator does, with one Secret
/// `test-secret` and one ConfigMap `test-cm` in the cluster.
fn resolve_in_test_cluster(source: &ValueOrRefSource) -> Result<String, Error> {
    match value_step(source) {
        ValueStep::Done(r) => r,
        ValueStep::ReadSecret(sel) => {
            let read = if sel.name == "test-secret" {
                Ok(Some(vec![("key".to_string(), b"test-secret-value".to_vec())]))
            } else {
                Err(format!("secrets \"{}\" not found", sel.name))
            };
            secret_value(&sel, read)
        }
        ValueStep::ReadConfigMap(sel) => {
            let read = if sel.name == "test-cm" {
                Ok(Some(vec![(
                    "key".to_string(),
                    "DEFINE ACCESS users WITH JWT KEY ${JWT_KEY} ENV ${ENVIRONMENT};".to_string(),
                )]))
            } else {
                Err(format!("configmaps \"{}\" not found", sel.name))
            };
            config_map_value(&sel, read)
        }
    }
}

// ---------------------------------------------------------------------------
// Value resolution
// ---------------------------------------------------------------------------

#[test]
fn test_resolve_raw_value() {
    let source = ValueOrRefSource { value: Some("raw-value".to_string()), value_from: None };
    let result = resolve_in_test_cluster(&source).unwrap();
    assert_eq!(result, "raw-value");
}

#[test]
fn test_resolve_secret_value() {
    let source = secret_ref("test-secret", "key");
    let result = resolve_in_test_cluster(&source).unwrap();
    assert_eq!(result, "test-secret-value");
}

#[test]
fn test_resolve_config_map_value() {
    let source = config_map_ref("test-cm", "key");
    let result = resolve_in_test_cluster(&source).unwrap();
    assert_eq!(result, "DEFINE ACCESS users WITH JWT KEY ${JWT_KEY} ENV ${ENVIRONMENT};");
}

#[test]
fn test_resolve_and_interpolate_schema() {
    let spec = SchemaSpec {
        revision_history_limit: Some(10),
        concurrency_limit: Some(50),
        require_approval: None,
        schema: config_map_ref("test-cm", "key"),
        variables: Some(vec![
            ("ENVIRONMENT".to_string(), raw("dev")),
            ("JWT_KEY".to_string(), secret_ref("test-secret", "key")),
        ]),
    };
    let (mut resolver, mut step) = start_schema_text(&spec, &"test-ns".to_string());
    let result = loop {
        match step {
            TextStep::Resolve { source, namespace } => {
                assert_eq!(namespace, "test-ns");
                step = resolver.resolved(resolve_in_test_cluster(&source));
            }
            TextStep::Done(r) => break r,
        }
    };
    assert_eq!(result.unwrap(), "DEFINE ACCESS users WITH JWT KEY test-secret-value ENV dev;");
}

#[test]
fn value_source_without_value_is_a_config_error() {
    let source = ValueOrRefSource { value: None, value_from: None };
    match value_step(&source) {
        ValueStep::Done(Err(Error::ConfigError(m))) => {
            assert_eq!(m, "ValueOrRefSource has neither value nor valueFrom specified")
        }
        other => panic!("unexpected step {:?}", other),
    }
    let empty_from = ValueOrRefSource {
        value: None,
        value_from: Some(ValueFromSource { secret_key_ref: None, config_map_ref: None }),
    };
    assert!(matches!(value_step(&empty_from), ValueStep::Done(Err(Error::ConfigError(_)))));
}

#[test]
fn raw_value_wins_over_references() {
    let source = ValueOrRefSource {
        value: Some("direct".to_string()),
        value_from: secret_ref("s", "k").value_from,
    };
    assert_eq!(value_step(&source), ValueStep::Done(Ok("direct".to_string())));
}

#[test]
fn secret_value_errors() {
    let sel = SecretKeySelector { name: "creds".to_string(), key: "password".to_string() };
    match secret_value(&sel, Err("forbidden".to_string())) {
        Err(Error::ConfigError(m)) => assert_eq!(m, "Failed to read secret creds: forbidden"),
        other => panic!("unexpected {:?}", other),
    }
    match secret_value(&sel, Ok(Some(vec![("user".to_string(), b"x".to_vec())]))) {
        Err(Error::ConfigError(m)) => assert_eq!(m, "Key password not found in secret creds"),
        other => panic!("unexpected {:?}", other),
    }
    match secret_value(&sel, Ok(None)) {
        Err(Error::ConfigError(m)) => assert_eq!(m, "Key password not found in secret creds"),
        other => panic!("unexpected {:?}", other),
    }
    match secret_value(&sel, Ok(Some(vec![("password".to_string(), vec![0xff, 0xfe])]))) {
        Err(Error::ConfigError(m)) => assert_eq!(
            m,
            "Secret key password is not valid UTF-8: invalid utf-8 sequence of 1 bytes from index 0"
        ),
        other => panic!("unexpected {:?}", other),
    }
}

#[test]
fn config_map_value_errors() {
    let sel = ConfigMapKeySelector { name: "cfg".to_string(), key: "schema".to_string() };
    match config_map_value(&sel, Err("boom".to_string())) {
        Err(Error::ConfigError(m)) => assert_eq!(m, "Failed to read ConfigMap cfg: boom"),
        other => panic!("unexpected {:?}", other),
    }
    match config_map_value(&sel, Ok(Some(vec![]))) {
        Err(Error::ConfigError(m)) => assert_eq!(m, "Key schema not found in ConfigMap cfg"),
        other => panic!("unexpected {:?}", other),
    }
}

#[test]
fn resolve_namespace_defaults_to_the_resource_namespace() {
    assert_eq!(resolve_namespace(&reference("a", None), "home"), "home");
    assert_eq!(resolve_namespace(&reference("a", Some("other")), "home"), "other");
}

#[test]
fn interpolation_replaces_every_occurrence_in_order() {
    let vars = vec![
        ("A".to_string(), "${B}".to_string()),
        ("B".to_string(), "x".to_string()),
    ];
    assert_eq!(interpolate_schema("${A}-${A}-${B}-${C}", &vars), "x-x-x-${C}");
}

#[test]
fn failed_variable_stops_the_resolution() {
    let spec = SchemaSpec {
        revision_history_limit: None,
        concurrency_limit: None,
        require_approval: None,
        schema: raw("DEFINE TABLE t;"),
        variables: Some(vec![("V".to_string(), secret_ref("missing", "k"))]),
    };
    let (mut resolver, step) = start_schema_text(&spec, &"ns".to_string());
    let TextStep::Resolve { source, .. } = step else { panic!("expected a request") };
    let step = resolver.resolved(resolve_in_test_cluster(&source));
    let TextStep::Resolve { source, .. } = step else { panic!("expected a request") };
    match resolver.resolved(resolve_in_test_cluster(&source)) {
        TextStep::Done(Err(Error::ConfigError(m))) => {
            assert_eq!(m, "Failed to read secret missing: secrets \"missing\" not found")
        }
        other => panic!("unexpected {:?}", other),
    }
}

#[test]
fn error_messages_display_like_the_operator() {
    assert_eq!(Error::KubeError("x".to_string()).message(), "Kubernetes API error: x");
    assert_eq!(Error::SurrealError("x".to_string()).message(), "SurrealDB error: x");
    assert_eq!(Error::NotFound("x".to_string()).message(), "Resource not found: x");
    assert_eq!(Error::ConfigError("x".to_string()).message(), "Configuration error: x");
    assert_eq!(Error::InternalError("x".to_string()).message(), "Internal controller error: x");
}

// ---------------------------------------------------------------------------
// Webhook
// ---------------------------------------------------------------------------

#[test]
fn test_webhook_admission_mutation_handler() {
    let old_obj = ReviewedObject { approval: None, has_annotations: true };
    let new_obj = ReviewedObject { approval: Some("true".to_string()), has_annotations: true };

    let payload = AdmissionReviewRequest {
        api_version: "admission.k8s.io/v1".to_string(),
        kind: "AdmissionReview".to_string(),
        request: Some(AdmissionRequest {
            uid: "req-uid".to_string(),
            name: "my-rollout".to_string(),
            namespace: "test-ns".to_string(),
            operation: "UPDATE".to_string(),
            user_info: UserInfo { username: "dev-person".to_string(), groups: None, uid: None },
            object: Some(new_obj),
            old_object: Some(old_obj),
        }),
    };

    let response_payload = mutate_handler(payload, "2025-01-02T03:04:05.000000006+00:00");

    let response = response_payload.response;
    assert!(response.allowed);
    assert!(response.patch.is_some());
    assert_eq!(response.patch_type.as_deref(), Some("JSONPatch"));

    let patch_bytes = base64::Engine::decode(
        &base64::engine::general_purpose::STANDARD,
        response.patch.unwrap(),
    )
    .unwrap();
    let patch_val: Value = serde_json::from_slice(&patch_bytes).unwrap();
    let patch_array = patch_val.as_array().unwrap();

    let has_approved_by = patch_array.iter().any(|op| {
        op["op"] == "add"
            && op["path"] == "/metadata/annotations/surreal-dbops.reliquo.io~1approved-by"
            && op["value"] == "dev-person"
    });
    assert!(has_approved_by, "Patch must record the user username");

    let has_approved_at = patch_array.iter().any(|op| {
        op["op"] == "add"
            && op["path"].as_str().unwrap().contains("surreal-dbops.reliquo.io~1approved-at")
    });
    assert!(has_approved_at, "Patch must record approval time");
}

fn review(old: Option<ReviewedObject>, new: Option<ReviewedObject>, user: &str) -> AdmissionReviewRequest {
    AdmissionReviewRequest {
        api_version: "admission.k8s.io/v1".to_string(),
        kind: "AdmissionReview".to_string(),
        request: Some(AdmissionRequest {
            uid: "u1".to_string(),
            name: "r".to_string(),
            namespace: "ns".to_string(),
            operation: "UPDATE".to_string(),
            user_info: UserInfo { username: user.to_string(), groups: None, uid: None },
            object: new,
            old_object: old,
        }),
    }
}

#[test]
fn webhook_without_request_answers_unknown() {
    let payload = AdmissionReviewRequest {
        api_version: "v1".to_string(),
        kind: "AdmissionReview".to_string(),
        request: None,
    };
    let r = mutate_handler(payload, "t");
    assert_eq!(r.api_version, "v1");
    assert_eq!(r.response.uid, "unknown");
    assert!(r.response.allowed);
    assert!(r.response.patch.is_none());
    assert_eq!(r.response.status.unwrap().message, "No request body found");
}

#[test]
fn webhook_ignores_changes_that_do_not_approve() {
    let approved = ReviewedObject { approval: Some("true".to_string()), has_annotations: true };
    let not = ReviewedObject { approval: Some("false".to_string()), has_annotations: true };
    for (old, new) in [
        (Some(approved.clone()), Some(approved.clone())),
        (Some(not.clone()), Some(not.clone())),
        (None, Some(approved.clone())),
        (Some(approved.clone()), Some(not.clone())),
    ] {
        let r = mutate_handler(review(old, new, "u"), "t");
        assert!(r.response.allowed);
        assert_eq!(r.response.uid, "u1");
        assert!(r.response.patch.is_none());
        assert!(r.response.patch_type.is_none());
        assert!(r.response.status.is_none());
    }
}

#[test]
fn webhook_patch_creates_missing_annotations_and_escapes_text() {
    let old = ReviewedObject { approval: None, has_annotations: false };
    let new = ReviewedObject { approval: Some("true".to_string()), has_annotations: false };
    let r = mutate_handler(review(Some(old), Some(new), "a \"quoted\"\\user\n"), "now");
    let bytes = base64::Engine::decode(&base64::engine::general_purpose::STANDARD, r.response.patch.unwrap())
        .unwrap();
    let text = String::from_utf8(bytes).unwrap();
    assert_eq!(
        text,
        "[{\"op\":\"add\",\"path\":\"/metadata/annotations\",\"value\":{}},\
         {\"op\":\"add\",\"path\":\"/metadata/annotations/surreal-dbops.reliquo.io~1approved-by\",\"value\":\"a \\\"quoted\\\"\\\\user\\n\"},\
         {\"op\":\"add\",\"path\":\"/metadata/annotations/surreal-dbops.reliquo.io~1approved-at\",\"value\":\"now\"}]"
    );
    let v: Value = serde_json::from_str(&text).unwrap();
    assert_eq!(v[1]["value"], "a \"quoted\"\\user\n");
}

#[test]
fn approval_annotation_must_be_exactly_true() {
    assert!(is_approved(&ReviewedObject { approval: Some("true".to_string()), has_annotations: true }));
    assert!(!is_approved(&ReviewedObject { approval: Some("True".to_string()), has_annotations: true }));
    assert!(!is_approved(&ReviewedObject { approval: None, has_annotations: false }));
}

#[test]
fn generated_patch_has_the_approval_operations() {
    let ops = generate_patch(&ReviewedObject { approval: None, has_annotations: true }, "me", "when");
    assert_eq!(ops.len(), 2);
    assert_eq!(ops[0].path, "/metadata/annotations/surreal-dbops.reliquo.io~1approved-by");
    assert_eq!(ops[0].value, PatchValue::Text("me".to_string()));
    assert_eq!(ops[1].value, PatchValue::Text("when".to_string()));
    let ops = generate_patch(&ReviewedObject { approval: None, has_annotations: false }, "me", "when");
    assert_eq!(ops.len(), 3);
    assert_eq!(ops[0].value, PatchValue::EmptyObject);
}
