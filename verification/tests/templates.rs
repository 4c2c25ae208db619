use click::errors::LogError;
use click::logs::{log_file_path, log_url_args, log_path, editor_file_name, editor_invocation,
    resolve_editor, stream_timeout_secs, seconds_between, LogRequest, OutputMode};
use click::objects::{ObjKind, SelectedObject};
use click::template::expand_template;

fn pod(name: &str, ns: Option<&str>) -> SelectedObject {
    SelectedObject {
        kind: ObjKind::Pod { containers: vec![String::from("main")] },
        name: String::from(name),
        namespace: ns.map(String::from),
    }
}

#[test]
fn template_expands_known_fields() {
    let r = expand_template("{name}-{namespace}.log", "web-1", "prod", "t");
    assert_eq!(r.as_deref(), Some("web-1-prod.log"));
}

#[test]
fn template_unknown_field_fails() {
    assert!(expand_template("{bogus}.log", "web-1", "prod", "t").is_none());
    assert!(expand_template("{name", "web-1", "prod", "t").is_none());
    assert!(expand_template("a}b", "web-1", "prod", "t").is_none());
}

#[test]
fn template_time_field_and_literals() {
    let r = expand_template("logs/{name}@{time}", "db", "prod", "2020-01-01");
    assert_eq!(r.as_deref(), Some("logs/db@2020-01-01"));
    assert_eq!(expand_template("", "a", "b", "c").as_deref(), Some(""));
    assert_eq!(expand_template("plain", "a", "b", "c").as_deref(), Some("plain"));
}

#[test]
fn log_file_path_defaults_missing_namespace() {
    let obj = pod("web-1", Some("prod"));
    let r = log_file_path("{name}-{namespace}.log", &obj, "t").unwrap();
    assert_eq!(r, "web-1-prod.log");
    let no_ns = pod("web-1", None);
    let r2 = log_file_path("{namespace}", &no_ns, "t").unwrap();
    assert_eq!(r2, "[none]");
    assert!(matches!(
        log_file_path("{bogus}", &obj, "t"),
        Err(LogError::PathTemplateError)
    ));
}

#[test]
fn url_args_compose() {
    assert_eq!(log_url_args(false, false, None, None), "");
    assert_eq!(
        log_url_args(true, true, Some(50), Some(300)),
        "&follow=true&previous=true&tailLines=50&sinceSeconds=300"
    );
    assert_eq!(log_url_args(false, false, None, Some(-5)), "&sinceSeconds=-5");
}

#[test]
fn log_path_composes() {
    assert_eq!(
        log_path("prod", "web-1", "main", "&follow=true"),
        "/api/v1/namespaces/prod/pods/web-1/log?container=main&follow=true"
    );
}

#[test]
fn timeout_rule() {
    assert_eq!(stream_timeout_secs(true), None);
    assert_eq!(stream_timeout_secs(false), Some(20));
}

#[test]
fn seconds_between_clips() {
    assert_eq!(seconds_between(100, 40), 60);
    assert_eq!(seconds_between(40, 100), -60);
    assert_eq!(seconds_between(i64::MAX, -1), i64::MAX);
    assert_eq!(seconds_between(i64::MIN, 1), i64::MIN);
}

#[test]
fn request_validation() {
    let ok = LogRequest::new(
        pod("web-1", Some("prod")),
        None,
        Some(10),
        Some(300),
        None,
        false,
        false,
        OutputMode::Console,
    );
    assert!(ok.is_some());
    let both_bounds = LogRequest::new(
        pod("web-1", Some("prod")),
        None,
        None,
        Some(300),
        Some(1000),
        false,
        false,
        OutputMode::Console,
    );
    assert!(both_bounds.is_none());
    let editor_follow = LogRequest::new(
        pod("web-1", Some("prod")),
        None,
        None,
        None,
        None,
        true,
        false,
        OutputMode::Editor(None),
    );
    assert!(editor_follow.is_none());
}

#[test]
fn editor_resolution_order() {
    let over = String::from("vim");
    let sess = String::from("nano");
    let env = String::from("vi");
    assert_eq!(resolve_editor(Some(&over), Some(&sess), Some(&env)).unwrap(), "vim");
    assert_eq!(resolve_editor(None, Some(&sess), Some(&env)).unwrap(), "nano");
    assert_eq!(resolve_editor(None, None, Some(&env)).unwrap(), "vi");
    assert!(matches!(
        resolve_editor(None, None, None),
        Err(LogError::NoEditorConfigured)
    ));
}

#[test]
fn editor_temp_name_and_invocation() {
    assert_eq!(editor_file_name("web-1", "main", "t0"), "web-1_main_t0.log");
    assert_eq!(
        editor_invocation("code -w", "/tmp/x.log"),
        vec![String::from("code"), String::from("-w"), String::from("/tmp/x.log")]
    );
    assert_eq!(
        editor_invocation("vim", "/tmp/x.log"),
        vec![String::from("vim"), String::from("/tmp/x.log")]
    );
}
