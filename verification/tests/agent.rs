use ssm_config::config::{Config, Parameter, Service, Setting};
use ssm_config::consumer::{ChangeConsumer, LoopDecision, decode_event, next_decision};
use ssm_config::error::DaemonError;
use ssm_config::index::{ChangeEvent, apply_event, resolve};
use ssm_config::render::{plan_one, plan_render, render_step, split_command};
use ssm_config::store::{FetchOutcome, build_service, parameter_name_of, seed_services};
use ssm_config::value::Value;

fn setting(name: &str, keys: &[&str], template: &str, rendered: &str, reload: &str) -> Setting {
    Setting {
        service_name: name.to_string(),
        keys: keys.iter().map(|k| k.to_string()).collect(),
        template: template.to_string(),
        rendered: rendered.to_string(),
        reload_cmd: reload.to_string(),
    }
}

fn service(name: &str, params: &[(&str, &str, Value)]) -> Service {
    Service {
        service_name: name.to_string(),
        parameters: params
            .iter()
            .map(|(path, pname, value)| Parameter {
                ps_path: path.to_string(),
                name: pname.to_string(),
                value: value.clone(),
            })
            .collect(),
    }
}

#[test]
fn empty_keys_rejected_at_load() {
    let config = Config {
        settings: vec![
            setting("web", &["/app/web/port"], "t", "o", ""),
            setting("bad", &[], "t", "o", ""),
        ],
    };
    match ssm_config::config::validate_config(&config) {
        Err(DaemonError::EmptyKeys { service_name }) => assert_eq!(service_name, "bad"),
        other => panic!("expected EmptyKeys, got {:?}", other),
    }
}

#[test]
fn valid_config_accepted() {
    let config = Config { settings: vec![setting("web", &["/app/web/port"], "t", "o", "")] };
    assert!(ssm_config::config::validate_config(&config).is_ok());
}

#[test]
fn name_derived_from_last_segment() {
    assert_eq!(parameter_name_of(&"/app/web/port".to_string()), "port");
    assert_eq!(parameter_name_of(&"plain".to_string()), "plain");
    assert_eq!(parameter_name_of(&"/trailing/".to_string()), "");
}

#[test]
fn seeding_drops_not_found_keys() {
    let s = setting("web", &["/a/one", "/a/two", "/a/three"], "t", "o", "");
    let outcomes = vec![
        FetchOutcome::Found("1".to_string()),
        FetchOutcome::NotFound,
        FetchOutcome::Found("3".to_string()),
    ];
    let svc = build_service(&s, &outcomes).unwrap();
    assert_eq!(svc.service_name, "web");
    assert_eq!(svc.parameters.len(), 2);
    assert_eq!(svc.parameters[0].ps_path, "/a/one");
    assert_eq!(svc.parameters[0].name, "one");
    assert_eq!(svc.parameters[0].value, Value::Text("1".to_string()));
    assert_eq!(svc.parameters[1].name, "three");
}

#[test]
fn seeding_aborts_on_store_failure() {
    let s = setting("web", &["/a/one", "/a/two"], "t", "o", "");
    let outcomes = vec![FetchOutcome::Found("1".to_string()), FetchOutcome::Failed];
    match build_service(&s, &outcomes) {
        Err(DaemonError::SsmGet { key_path }) => assert_eq!(key_path, "/a/two"),
        other => panic!("expected SsmGet, got {:?}", other),
    }
}

#[test]
fn seed_services_builds_one_service_per_setting() {
    let config = Config {
        settings: vec![
            setting("web", &["/app/web/port"], "t1", "o1", ""),
            setting("db", &["/app/db/host"], "t2", "o2", ""),
        ],
    };
    let outcomes = vec![
        vec![FetchOutcome::Found("8080".to_string())],
        vec![FetchOutcome::NotFound],
    ];
    let services = seed_services(&config, &outcomes).unwrap();
    assert_eq!(services.len(), 2);
    assert_eq!(services[0].service_name, "web");
    assert_eq!(services[0].parameters.len(), 1);
    assert_eq!(services[1].service_name, "db");
    assert_eq!(services[1].parameters.len(), 0);
}

#[test]
fn unmatched_event_is_a_pure_no_op() {
    let mut services = vec![service(
        "web",
        &[("/app/web/port", "port", Value::Text("8080".to_string()))],
    )];
    let event = ChangeEvent {
        key_path: "/other/key".to_string(),
        value: Value::Text("x".to_string()),
    };
    assert!(apply_event(&mut services, &event).is_none());
    assert_eq!(services[0].parameters[0].value, Value::Text("8080".to_string()));
}

#[test]
fn matched_event_updates_only_its_parameter() {
    let mut services = vec![
        service("web", &[("/app/web/port", "port", Value::Text("8080".to_string()))]),
        service("db", &[("/app/db/host", "host", Value::Text("localhost".to_string()))]),
    ];
    let event = ChangeEvent {
        key_path: "/app/db/host".to_string(),
        value: Value::Text("db.internal".to_string()),
    };
    assert_eq!(apply_event(&mut services, &event), Some(1));
    assert_eq!(services[0].parameters[0].value, Value::Text("8080".to_string()));
    assert_eq!(services[1].parameters[0].value, Value::Text("db.internal".to_string()));
}

#[test]
fn resolve_returns_first_match_in_order() {
    let services = vec![
        service("a", &[("/k/x", "x", Value::Null), ("/k/y", "y", Value::Null)]),
        service("b", &[("/k/y", "y", Value::Null)]),
    ];
    assert_eq!(resolve(&services, &"/k/y".to_string()), Some((0, 1)));
    assert_eq!(resolve(&services, &"/k/z".to_string()), None);
}

#[test]
fn end_to_end_seed_render_update_render() {
    let config = Config {
        settings: vec![setting("web", &["/app/web/port"], "web.tpl", "out.conf", "")],
    };
    let outcomes = vec![vec![FetchOutcome::Found("8080".to_string())]];
    let services = seed_services(&config, &outcomes).unwrap();

    let (steps, err) = plan_render(&services, &config);
    assert!(err.is_none());
    assert_eq!(steps.len(), 1);
    assert_eq!(steps[0].rendered, "out.conf");
    let first = render_step(&steps[0], "listen {{port}};").unwrap();
    assert_eq!(first, "listen 8080;");

    let mut consumer = ChangeConsumer { config, services };
    let record = br#"{"requestParameters":{"name":"/app/web/port","value":9090}}"#.to_vec();
    let step = consumer.apply_record(&record).unwrap().expect("event should resolve");
    assert_eq!(step.rendered, "out.conf");
    let second = render_step(&step, "listen {{port}};").unwrap();
    assert_eq!(second, "listen 9090;");
}

#[test]
fn applying_the_same_event_twice_renders_identical_bytes() {
    let config = Config {
        settings: vec![setting("web", &["/app/web/port"], "web.tpl", "out.conf", "")],
    };
    let services = vec![service(
        "web",
        &[("/app/web/port", "port", Value::Text("8080".to_string()))],
    )];
    let mut consumer = ChangeConsumer { config, services };
    let record = br#"{"requestParameters":{"name":"/app/web/port","value":"9090"}}"#.to_vec();
    let step1 = consumer.apply_record(&record).unwrap().unwrap();
    let out1 = render_step(&step1, "listen {{port}};").unwrap();
    let step2 = consumer.apply_record(&record).unwrap().unwrap();
    let out2 = render_step(&step2, "listen {{port}};").unwrap();
    assert_eq!(out1, out2);
    assert_eq!(out2, "listen 9090;");
}

#[test]
fn batch_render_keeps_disjoint_services_apart() {
    let config = Config {
        settings: vec![
            setting("web", &["/app/web/port"], "t1", "o1", ""),
            setting("db", &["/app/db/host"], "t2", "o2", ""),
        ],
    };
    let services = vec![
        service("web", &[("/app/web/port", "port", Value::Text("8080".to_string()))]),
        service("db", &[("/app/db/host", "host", Value::Text("db.internal".to_string()))]),
    ];
    let (steps, err) = plan_render(&services, &config);
    assert!(err.is_none());
    assert_eq!(steps.len(), 2);
    // The first service renders before the second merges: it cannot observe
    // the second's values at all.
    assert!(render_step(&steps[0], "{{host}}").unwrap().is_empty());
    assert_eq!(render_step(&steps[0], "{{port}}").unwrap(), "8080");
    // The second service's own names carry its own values.
    assert_eq!(render_step(&steps[1], "{{host}}").unwrap(), "db.internal");
}

#[test]
fn batch_render_shared_name_overwrites_in_batch_order() {
    let config = Config {
        settings: vec![
            setting("a", &["/a/port"], "t1", "o1", ""),
            setting("b", &["/b/port"], "t2", "o2", ""),
        ],
    };
    let services = vec![
        service("a", &[("/a/port", "port", Value::Text("1111".to_string()))]),
        service("b", &[("/b/port", "port", Value::Text("2222".to_string()))]),
    ];
    let (steps, err) = plan_render(&services, &config);
    assert!(err.is_none());
    // In the later service's context the later value wins; the earlier
    // service rendered before the overwrite.
    assert_eq!(render_step(&steps[0], "{{port}}").unwrap(), "1111");
    assert_eq!(render_step(&steps[1], "{{port}}").unwrap(), "2222");
}

#[test]
fn batch_render_stops_at_first_unknown_service() {
    let config = Config { settings: vec![setting("web", &["/k"], "t", "o", "")] };
    let services = vec![
        service("web", &[("/k", "k", Value::Null)]),
        service("ghost", &[]),
    ];
    let (steps, err) = plan_render(&services, &config);
    assert_eq!(steps.len(), 1);
    match err {
        Some(DaemonError::SettingNotFound { setting }) => assert_eq!(setting, "ghost"),
        other => panic!("expected SettingNotFound, got {:?}", other),
    }
}

#[test]
fn record_that_is_not_utf8_aborts_the_cycle() {
    let record = vec![0xffu8, 0xfe, 0x00];
    assert!(matches!(decode_event(&record), Err(DaemonError::RecordUtf8Decode)));
}

#[test]
fn record_that_is_not_json_aborts_the_cycle() {
    let record = b"not json at all".to_vec();
    assert!(matches!(decode_event(&record), Err(DaemonError::RecordJsonDecode)));
}

#[test]
fn record_without_expected_fields_is_skipped() {
    let config = Config { settings: vec![setting("web", &["/k"], "t", "o", "")] };
    let services = vec![service("web", &[("/k", "k", Value::Null)])];
    let mut consumer = ChangeConsumer { config, services };
    let record = br#"{"unrelated": true}"#.to_vec();
    assert!(consumer.apply_record(&record).unwrap().is_none());
    assert_eq!(consumer.services[0].parameters[0].value, Value::Null);
}

#[test]
fn event_value_shapes_decode_to_scalars() {
    let record = br#"{"requestParameters":{"name":"/k","value":true}}"#.to_vec();
    let ev = decode_event(&record).unwrap();
    assert_eq!(ev.key_path, "/k");
    assert_eq!(ev.value, Value::Bool(true));
    let record = br#"{"requestParameters":{"name":"/k","value":null}}"#.to_vec();
    assert_eq!(decode_event(&record).unwrap().value, Value::Null);
    let record = br#"{"requestParameters":{"name":"/k","value":{"a":1}}}"#.to_vec();
    assert_eq!(decode_event(&record).unwrap().value, Value::Text("{\"a\":1}".to_string()));
}

#[test]
fn missing_next_token_stops_the_loop() {
    assert_eq!(next_decision(None), LoopDecision::Stop);
    assert_eq!(
        next_decision(Some("tok".to_string())),
        LoopDecision::Continue("tok".to_string())
    );
}

#[test]
fn reload_command_splits_on_single_spaces() {
    assert_eq!(
        split_command(&"systemctl reload nginx".to_string()),
        vec!["systemctl".to_string(), "reload".to_string(), "nginx".to_string()]
    );
    assert_eq!(
        split_command(&"a  b".to_string()),
        vec!["a".to_string(), "".to_string(), "b".to_string()]
    );
    assert_eq!(split_command(&"".to_string()), vec!["".to_string()]);
}

#[test]
fn malformed_template_reports_render_error() {
    let config = Config { settings: vec![setting("web", &["/k"], "web.tpl", "o", "")] };
    let svc = service("web", &[("/k", "k", Value::Null)]);
    let step = plan_one(&svc, &config).unwrap();
    match render_step(&step, "{{#if}}") {
        Err(DaemonError::RenderTemplate { template_path, .. }) => {
            assert_eq!(template_path, "web.tpl")
        },
        other => panic!("expected RenderTemplate, got {:?}", other),
    }
}

#[test]
fn unknown_service_fails_scoped_plan() {
    let config = Config { settings: vec![] };
    let svc = service("web", &[("/k", "k", Value::Null)]);
    match plan_one(&svc, &config) {
        Err(DaemonError::SettingNotFound { setting }) => assert_eq!(setting, "web"),
        other => panic!("expected SettingNotFound, got {:?}", other),
    }
}
