use std::cmp::Ordering;

use patinator::extract::{extract, resolve_field, ExtractError};
use patinator::order::{compare_records, compare_text, sort_records, SortKey};
use patinator::runner::{collect_service, document_outcome, fetch_outcome, merge_reports, EnvReply, FailureKind, FetchFailure, FetchOutcome, ServiceReport};
use patinator::types::{
    default_deploy_time_field, default_version_field, DynamicVersionResponse, Environment,
    FieldDefaults, FieldMappings, JsonValue, Service, Timestamp, VersionInfo,
};

fn doc(entries: Vec<(&str, JsonValue)>) -> DynamicVersionResponse {
    DynamicVersionResponse { fields: entries.into_iter().map(|(k, v)| (k.to_string(), v)).collect() }
}

fn text(s: &str) -> JsonValue {
    JsonValue::Text(s.to_string())
}

fn overriding_ver() -> FieldMappings {
    FieldMappings { version_field: Some("ver".to_string()), deploy_time_field: None }
}

fn record(service: &str, env: &str, version: &str) -> VersionInfo {
    VersionInfo {
        service_name: service.to_string(),
        service_tags: vec![],
        env_name: env.to_string(),
        version: version.to_string(),
        deployment_time: None,
    }
}

fn svc() -> Service {
    Service {
        name: "svc".to_string(),
        tags: vec!["web".to_string(), "edge".to_string()],
        field_mappings: FieldMappings::default(),
        environments: vec![],
    }
}

fn env() -> Environment {
    Environment { name: "prod".to_string(), url: "http://prod.example.com/version".to_string() }
}

#[test]
fn default_field_names_are_standard() {
    assert_eq!(default_version_field(), "version");
    assert_eq!(default_deploy_time_field(), "deployment_time");
    let d = FieldDefaults::default();
    assert_eq!(d.version_field, "version");
    assert_eq!(d.deploy_time_field, "deployment_time");
}

#[test]
fn override_takes_precedence() {
    let d = FieldDefaults::default();
    let r = extract(&doc(vec![("ver", text("1.2.3"))]), &overriding_ver(), &d).unwrap();
    assert_eq!(r.version, "1.2.3");
    match extract(&doc(vec![("version", text("9.9.9"))]), &overriding_ver(), &d) {
        Err(ExtractError::MissingVersionField(f)) => assert_eq!(f, "ver"),
        Ok(v) => panic!("unexpected version {:?}", v),
    }
}

#[test]
fn resolve_field_prefers_override() {
    assert_eq!(resolve_field(&Some("ver".to_string()), &"version".to_string()), "ver");
    assert_eq!(resolve_field(&None, &"version".to_string()), "version");
}

#[test]
fn version_must_be_non_empty_string() {
    let d = FieldDefaults::default();
    let m = FieldMappings::default();
    assert!(matches!(extract(&doc(vec![("version", text(""))]), &m, &d), Err(ExtractError::MissingVersionField(_))));
    assert!(matches!(extract(&doc(vec![("version", JsonValue::Number)]), &m, &d), Err(ExtractError::MissingVersionField(_))));
    assert!(matches!(extract(&doc(vec![]), &m, &d), Err(ExtractError::MissingVersionField(_))));
}

#[test]
fn deploy_time_is_best_effort() {
    let d = FieldDefaults::default();
    let m = FieldMappings::default();
    let r = extract(&doc(vec![("version", text("1")), ("deployment_time", JsonValue::Number)]), &m, &d).unwrap();
    assert_eq!(r.deployment_time, None);
    let r = extract(&doc(vec![("version", text("1")), ("deployment_time", text("yesterday"))]), &m, &d).unwrap();
    assert_eq!(r.deployment_time, None);
    let r = extract(
        &doc(vec![("version", text("1")), ("deployment_time", text("2024-01-01T02:00:00.5+02:00"))]),
        &m,
        &d,
    )
    .unwrap();
    assert_eq!(r.deployment_time, Some(Timestamp { secs: 1704067200, nanos: 500_000_000 }));
}

#[test]
fn first_entry_with_key_wins() {
    let d = doc(vec![("a", JsonValue::Null), ("version", text("1")), ("version", text("2"))]);
    assert_eq!(d.text_field(&"version".to_string()), Some("1".to_string()));
    assert_eq!(d.text_field(&"a".to_string()), None);
    assert_eq!(d.text_field(&"b".to_string()), None);
}

#[test]
fn replies_map_to_failure_kinds() {
    let d = FieldDefaults::default();
    let s = svc();
    let e = env();
    assert!(matches!(
        fetch_outcome(&s, &e, &d, &EnvReply::Unreachable),
        FetchOutcome::Failure(FetchFailure { kind: FailureKind::NetworkError, .. })
    ));
    assert!(matches!(
        fetch_outcome(&s, &e, &d, &EnvReply::Crashed),
        FetchOutcome::Failure(FetchFailure { kind: FailureKind::TaskFault, .. })
    ));
    let array = EnvReply::Responded { status: 200, body: b"[1, 2]".to_vec() };
    assert!(matches!(
        fetch_outcome(&s, &e, &d, &array),
        FetchOutcome::Failure(FetchFailure { kind: FailureKind::DecodeError, .. })
    ));
    let good = EnvReply::Responded { status: 200, body: br#"{"version": "4.5.6", "other": [1]}"#.to_vec() };
    match fetch_outcome(&s, &e, &d, &good) {
        FetchOutcome::Success(r) => {
            assert_eq!(r.version, "4.5.6");
            assert_eq!(r.service_name, "svc");
            assert_eq!(r.env_name, "prod");
            assert_eq!(r.service_tags, vec!["web".to_string(), "edge".to_string()]);
        },
        FetchOutcome::Failure(f) => panic!("unexpected failure {:?}", f),
    }
}

#[test]
fn document_outcome_without_document_is_decode_error() {
    let d = FieldDefaults::default();
    assert!(matches!(
        document_outcome(&svc(), &env(), &d, None),
        FetchOutcome::Failure(FetchFailure { kind: FailureKind::DecodeError, .. })
    ));
    match document_outcome(&svc(), &env(), &d, Some(doc(vec![("version", text("7"))]))) {
        FetchOutcome::Success(r) => assert_eq!(r.version, "7"),
        FetchOutcome::Failure(f) => panic!("unexpected failure {:?}", f),
    }
}

#[test]
fn text_comparison_is_by_code_point() {
    let s = |x: &str| x.to_string();
    assert_eq!(compare_text(&s("abc"), &s("abd")), Ordering::Less);
    assert_eq!(compare_text(&s("ab"), &s("abc")), Ordering::Less);
    assert_eq!(compare_text(&s("b"), &s("abc")), Ordering::Greater);
    assert_eq!(compare_text(&s(""), &s("")), Ordering::Equal);
    assert_eq!(compare_text(&s("Z"), &s("a")), Ordering::Less);
    assert_eq!(compare_text(&s("é"), &s("z")), Ordering::Greater);
    for (a, b) in [("dev", "prod"), ("prod", "dev"), ("é", "ü"), ("x", "x")] {
        assert_eq!(compare_text(&s(a), &s(b)), a.cmp(b));
    }
}

#[test]
fn records_compare_by_service_then_environment() {
    let a = record("svc-a", "prod", "1");
    let b = record("svc-b", "dev", "1");
    assert_eq!(compare_records(&a, &b, SortKey::ServiceEnvironment), Ordering::Less);
    assert_eq!(compare_records(&a, &b, SortKey::Environment), Ordering::Greater);
    assert!(record("s", "e", "1") == record("s", "e", "2"));
    assert!(record("s", "e", "1") != record("s", "f", "1"));
}

#[test]
fn sort_is_stable_and_ordered() {
    let v = vec![
        record("b", "prod", "1"),
        record("a", "prod", "2"),
        record("b", "dev", "3"),
        record("a", "prod", "4"),
        record("a", "dev", "5"),
    ];
    let sorted = sort_records(v, SortKey::ServiceEnvironment);
    let versions: Vec<&str> = sorted.iter().map(|r| r.version.as_str()).collect();
    assert_eq!(versions, vec!["5", "2", "4", "3", "1"]);
    let sorted = sort_records(sorted, SortKey::Environment);
    let versions: Vec<&str> = sorted.iter().map(|r| r.version.as_str()).collect();
    assert_eq!(versions, vec!["5", "3", "2", "4", "1"]);
    assert!(sort_records(vec![], SortKey::Environment).is_empty());
}

#[test]
fn collect_sorts_by_environment_and_keeps_failures() {
    let outcomes = vec![
        FetchOutcome::Success(record("s", "prod", "1")),
        FetchOutcome::Failure(FetchFailure {
            service_name: "s".to_string(),
            env_name: "qa".to_string(),
            kind: FailureKind::DecodeError,
        }),
        FetchOutcome::Success(record("s", "dev", "2")),
    ];
    let report = collect_service(outcomes);
    assert_eq!(report.records.len(), 2);
    assert_eq!(report.records[0].env_name, "dev");
    assert_eq!(report.records[1].env_name, "prod");
    assert_eq!(report.failures.len(), 1);
    assert_eq!(report.failures[0].env_name, "qa");
}

#[test]
fn merge_orders_across_services() {
    let first = ServiceReport { records: vec![record("web", "dev", "1"), record("web", "prod", "2")], failures: vec![] };
    let second = ServiceReport {
        records: vec![record("api", "prod", "3")],
        failures: vec![FetchFailure { service_name: "api".to_string(), env_name: "dev".to_string(), kind: FailureKind::NetworkError }],
    };
    let fleet = merge_reports(vec![first, second]);
    let keys: Vec<(&str, &str)> = fleet.records.iter().map(|r| (r.service_name.as_str(), r.env_name.as_str())).collect();
    assert_eq!(keys, vec![("api", "prod"), ("web", "dev"), ("web", "prod")]);
    assert_eq!(fleet.failures.len(), 1);
}
