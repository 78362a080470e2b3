use patinator::config::Config;
use patinator::runner::{build_report, EnvReply, FailureKind, FleetReport};
use patinator::types::{Environment, FieldDefaults, FieldMappings, Service, Timestamp, VersionInfo};

fn service(name: &str, mappings: FieldMappings, envs: &[&str]) -> Service {
    Service {
        name: name.to_string(),
        tags: vec!["test".to_string()],
        field_mappings: mappings,
        environments: envs
            .iter()
            .map(|e| Environment { name: e.to_string(), url: format!("http://localhost/{}", e) })
            .collect(),
    }
}

fn ok(body: &str) -> EnvReply {
    EnvReply::Responded { status: 200, body: body.as_bytes().to_vec() }
}

fn run(config: &Config, replies: Vec<Vec<EnvReply>>) -> FleetReport {
    build_report(config, &replies)
}

#[test]
fn test_custom_field_names() {
    let config = Config {
        defaults: FieldDefaults {
            version_field: "version".to_string(),
            deploy_time_field: "deployment_time".to_string(),
        },
        services: vec![service(
            "custom-service",
            FieldMappings {
                version_field: Some("ver".to_string()),
                deploy_time_field: Some("deploy_ts".to_string()),
            },
            &["dev"],
        )],
    };
    let report = run(&config, vec![vec![ok(r#"{"ver": "1.2.3", "deploy_ts": "2024-01-01T00:00:00Z"}"#)]]);
    assert!(report.failures.is_empty());
    assert_eq!(report.records.len(), 1);
    assert_eq!(report.records[0].version, "1.2.3");
    assert_eq!(report.records[0].service_name, "custom-service");
    assert_eq!(report.records[0].env_name, "dev");
    assert_eq!(report.records[0].service_tags, vec!["test".to_string()]);
    assert_eq!(report.records[0].deployment_time, Some(Timestamp { secs: 1704067200, nanos: 0 }));
}

#[test]
fn test_default_field_names() {
    let config = Config {
        defaults: FieldDefaults::default(),
        services: vec![service("default-service", FieldMappings::default(), &["dev"])],
    };
    let report = run(
        &config,
        vec![vec![ok(r#"{"version": "1.2.3", "deployment_time": "2024-01-01T00:00:00Z"}"#)]],
    );
    assert!(report.failures.is_empty());
    assert_eq!(report.records.len(), 1);
    assert_eq!(report.records[0].version, "1.2.3");
    assert_eq!(report.records[0].deployment_time, Some(Timestamp { secs: 1704067200, nanos: 0 }));
}

#[test]
fn test_error_handling() {
    let config = Config {
        defaults: FieldDefaults::default(),
        services: vec![service(
            "error-service",
            FieldMappings::default(),
            &["not-found", "invalid-json", "missing-field"],
        )],
    };
    let report = run(
        &config,
        vec![vec![
            EnvReply::Responded { status: 404, body: Vec::new() },
            ok("not json"),
            ok(r#"{"not_version": "1.2.3"}"#),
        ]],
    );
    assert!(report.records.is_empty());
    assert_eq!(report.failures.len(), 3);
    assert_eq!(report.failures[0].env_name, "not-found");
    assert!(matches!(report.failures[0].kind, FailureKind::NetworkError));
    assert_eq!(report.failures[1].env_name, "invalid-json");
    assert!(matches!(report.failures[1].kind, FailureKind::DecodeError));
    assert_eq!(report.failures[2].env_name, "missing-field");
    match &report.failures[2].kind {
        FailureKind::MissingVersionField(f) => assert_eq!(f, "version"),
        other => panic!("unexpected failure {:?}", other),
    }
    assert_eq!(report.failures[2].service_name, "error-service");
}

#[test]
fn test_invalid_deployment_time() {
    let config = Config {
        defaults: FieldDefaults::default(),
        services: vec![service("datetime-service", FieldMappings::default(), &["dev"])],
    };
    let report = run(&config, vec![vec![ok(r#"{"version": "1.2.3", "deployment_time": "not-a-date"}"#)]]);
    assert!(report.failures.is_empty());
    assert_eq!(report.records.len(), 1);
    assert_eq!(report.records[0].version, "1.2.3");
    assert_eq!(report.records[0].deployment_time, None);
}

#[test]
fn test_version_info_ordering() {
    let info1 = VersionInfo {
        service_name: "service-a".to_string(),
        service_tags: vec![],
        env_name: "dev".to_string(),
        version: "1.0.0".to_string(),
        deployment_time: None,
    };
    let info2 = VersionInfo {
        service_name: "service-a".to_string(),
        service_tags: vec![],
        env_name: "prod".to_string(),
        version: "1.0.0".to_string(),
        deployment_time: None,
    };
    let info3 = VersionInfo {
        service_name: "service-b".to_string(),
        service_tags: vec![],
        env_name: "dev".to_string(),
        version: "1.0.0".to_string(),
        deployment_time: None,
    };
    assert!(info1 < info3);
    assert!(info1 < info2);
}

#[test]
fn two_services_end_to_end() {
    let config = Config {
        defaults: FieldDefaults::default(),
        services: vec![
            service("zeta", FieldMappings::default(), &["prod", "dev"]),
            service("alpha", FieldMappings::default(), &["staging", "dev"]),
        ],
    };
    let report = run(
        &config,
        vec![
            vec![EnvReply::Responded { status: 404, body: b"missing".to_vec() }, ok(r#"{"version":"2.0.0"}"#)],
            vec![
                ok("<html>oops"),
                ok(r#"{"version":"1.0.0","deployment_time":"2024-01-01T00:00:00Z"}"#),
            ],
        ],
    );
    assert_eq!(report.records.len(), 2);
    assert_eq!(report.failures.len(), 2);
    assert_eq!(report.records[0].service_name, "alpha");
    assert_eq!(report.records[0].env_name, "dev");
    assert_eq!(report.records[0].version, "1.0.0");
    assert_eq!(report.records[0].deployment_time, Some(Timestamp { secs: 1704067200, nanos: 0 }));
    assert_eq!(report.records[1].service_name, "zeta");
    assert_eq!(report.records[1].env_name, "dev");
    assert_eq!(report.records[1].version, "2.0.0");
    assert!(matches!(report.failures[0].kind, FailureKind::NetworkError));
    assert_eq!(report.failures[0].env_name, "prod");
    assert!(matches!(report.failures[1].kind, FailureKind::DecodeError));
    assert_eq!(report.failures[1].env_name, "staging");
}

#[test]
fn every_pair_is_a_record_or_a_failure() {
    let config = Config {
        defaults: FieldDefaults::default(),
        services: vec![
            service("a", FieldMappings::default(), &["e1", "e2", "e3"]),
            service("b", FieldMappings::default(), &[]),
            service("c", FieldMappings::default(), &["e1", "e2"]),
        ],
    };
    let report = run(
        &config,
        vec![
            vec![EnvReply::Unreachable, ok(r#"{"version":"1"}"#), EnvReply::Crashed],
            vec![],
            vec![ok(r#"{"version":""}"#), ok(r#"{"version":"3"}"#)],
        ],
    );
    assert_eq!(report.records.len() + report.failures.len(), 5);
    assert_eq!(report.records.len(), 2);
    assert!(matches!(report.failures[0].kind, FailureKind::NetworkError));
    assert!(matches!(report.failures[1].kind, FailureKind::TaskFault));
    assert!(matches!(report.failures[2].kind, FailureKind::MissingVersionField(_)));
}

#[test]
fn empty_fleet_gives_empty_report() {
    let config = Config { defaults: FieldDefaults::default(), services: vec![] };
    let report = run(&config, vec![]);
    assert!(report.records.is_empty());
    assert!(report.failures.is_empty());
}

#[test]
fn server_error_status_is_network_failure() {
    let config = Config {
        defaults: FieldDefaults::default(),
        services: vec![service("s", FieldMappings::default(), &["dev"])],
    };
    let report = run(&config, vec![vec![EnvReply::Responded { status: 503, body: br#"{"version":"1"}"#.to_vec() }]]);
    assert!(report.records.is_empty());
    assert!(matches!(report.failures[0].kind, FailureKind::NetworkError));
}
