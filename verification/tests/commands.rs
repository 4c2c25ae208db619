use click::commands::{
    DeleteDecision, delete_body_string, delete_decision, delete_prompt, exec_command_args,
    format_age, interactive_arg, is_affirmative, keyval_string, list_path, list_query,
    object_url, resolve_terminal, terminal_args, time_since,
};
use click::objects::{ObjKind, SelectedObject};
use click::strings::{shorten_to, split_spaces, str_eq, u64_to_string, i64_to_string,
    parse_u32_literal, join_with};
use click::validate::{valid_bool, valid_date, valid_duration, valid_u32};

fn obj(kind: ObjKind, name: &str, ns: Option<&str>) -> SelectedObject {
    SelectedObject { kind, name: String::from(name), namespace: ns.map(String::from) }
}

#[test]
fn confirmation_policy() {
    assert!(is_affirmative("y"));
    assert!(is_affirmative("yes"));
    assert!(is_affirmative("Y"));
    assert!(is_affirmative("YES"));
    assert!(is_affirmative("  yEs \n"));
    assert!(!is_affirmative(""));
    assert!(!is_affirmative("n"));
    assert!(!is_affirmative("no"));
    assert!(!is_affirmative("yess"));
    assert!(!is_affirmative("  \t "));
}

#[test]
fn delete_prompts() {
    let p = obj(
        ObjKind::Pod { containers: Vec::new() },
        "web-1",
        Some("prod"),
    );
    // namespaced kinds show the namespace; cluster-scoped kinds do not
    assert_eq!(delete_prompt(&p), "Delete Pod prod/web-1 [y/N]? ");
    let n = obj(ObjKind::Node, "node-1", Some("ignored"));
    assert_eq!(delete_prompt(&n), "Delete Node node-1 [y/N]? ");
    let svc = obj(ObjKind::Service, "svc-1", Some("kube-system"));
    assert_eq!(delete_prompt(&svc), "Delete Service kube-system/svc-1 [y/N]? ");
}

#[test]
fn delete_decisions() {
    let p = obj(
        ObjKind::Pod { containers: Vec::new() },
        "web-1",
        Some("prod"),
    );
    match delete_decision(&p, "yes") {
        DeleteDecision::Proceed { url, with_body } => {
            assert_eq!(url, "/api/v1/namespaces/prod/pods/web-1");
            assert!(with_body);
        },
        _ => panic!("expected proceed"),
    }
    assert!(matches!(delete_decision(&p, "n"), DeleteDecision::Declined));

    let no_ns = obj(ObjKind::Pod { containers: Vec::new() }, "web-1", None);
    assert!(matches!(
        delete_decision(&no_ns, "yes"),
        DeleteDecision::UnknownNamespace
    ));

    let node = obj(ObjKind::Node, "node-1", None);
    match delete_decision(&node, "y") {
        DeleteDecision::Proceed { url, with_body } => {
            assert_eq!(url, "/api/v1/nodes/node-1");
            assert!(with_body);
        },
        _ => panic!("expected proceed"),
    }

    let svc = obj(ObjKind::Service, "svc-1", Some("prod"));
    match delete_decision(&svc, "y") {
        DeleteDecision::Proceed { url, with_body } => {
            assert_eq!(url, "/api/v1/namespaces/prod/services/svc-1");
            assert!(!with_body);
        },
        _ => panic!("expected proceed"),
    }
}

#[test]
fn object_urls() {
    let dep = obj(ObjKind::Deployment, "d", Some("ns"));
    assert_eq!(
        object_url(&dep, "ns"),
        "/apis/extensions/v1beta1/namespaces/ns/deployments/d"
    );
    let job = obj(ObjKind::Job, "j", Some("ns"));
    assert_eq!(object_url(&job, "ns"), "/apis/batch/v1/namespaces/ns/jobs/j");
}

#[test]
fn delete_bodies() {
    assert_eq!(
        delete_body_string(true, None, false, false),
        "{\"apiVersion\":\"v1\",\"kind\":\"DeleteOptions\",\"propagationPolicy\":\"Foreground\"}"
    );
    assert_eq!(
        delete_body_string(false, None, false, false),
        "{\"apiVersion\":\"v1\",\"kind\":\"DeleteOptions\",\"propagationPolicy\":\"Orphan\"}"
    );
    // an explicit zero grace is raised to one
    assert_eq!(
        delete_body_string(true, Some(0), false, false),
        "{\"apiVersion\":\"v1\",\"gracePeriodSeconds\":1,\"kind\":\"DeleteOptions\",\"propagationPolicy\":\"Foreground\"}"
    );
    assert_eq!(
        delete_body_string(true, Some(30), false, false),
        "{\"apiVersion\":\"v1\",\"gracePeriodSeconds\":30,\"kind\":\"DeleteOptions\",\"propagationPolicy\":\"Foreground\"}"
    );
    // force sends zero, now sends one
    assert!(delete_body_string(true, None, true, false).contains("\"gracePeriodSeconds\":0"));
    assert!(delete_body_string(true, None, false, true).contains("\"gracePeriodSeconds\":1"));
}

#[test]
fn exec_invocations() {
    assert_eq!(interactive_arg(true, true), "-it");
    assert_eq!(interactive_arg(true, false), "-t");
    assert_eq!(interactive_arg(false, true), "-i");
    assert_eq!(interactive_arg(false, false), "");

    let cmd = vec![String::from("ls"), String::from("-l")];
    let cont = String::from("main");
    let args = exec_command_args("prod", "ctx", "web-1", &cmd, "-it", Some(&cont));
    assert_eq!(
        args,
        vec![
            "kubectl", "--namespace", "prod", "--context", "ctx", "exec", "-it", "web-1",
            "-c", "main", "--", "ls", "-l"
        ]
        .into_iter()
        .map(String::from)
        .collect::<Vec<String>>()
    );
    let plain = exec_command_args("prod", "ctx", "web-1", &cmd, "-i", None);
    assert_eq!(plain.len(), 11);
    assert_eq!(plain[8], "--");
    assert_eq!(plain[9], "ls");

    let term = terminal_args("xterm -e", plain.clone());
    assert_eq!(term[0], "xterm");
    assert_eq!(term[1], "-e");
    assert_eq!(&term[2..], &plain[..]);
}

#[test]
fn age_formatting() {
    assert_eq!(format_age(0), "0s");
    assert_eq!(format_age(59), "59s");
    assert_eq!(format_age(60), "1m 0s");
    assert_eq!(format_age(125), "2m 5s");
    assert_eq!(format_age(3600), "1h 0m");
    assert_eq!(format_age(3725), "1h 2m");
    assert_eq!(format_age(86400), "1d 0h");
    assert_eq!(format_age(90000), "1d 1h");
    assert_eq!(format_age(2 * 86400 + 5 * 3600), "2d 5h");
}

#[test]
fn time_since_runs() {
    // the exact age depends on the clock; it must at least render
    let s = time_since(0);
    assert!(!s.is_empty());
}

#[test]
fn keyval_lines() {
    assert_eq!(keyval_string(&None), "");
    let kvs = Some(vec![
        (String::from("app"), String::from("web")),
        (String::from("tier"), String::from("front")),
    ]);
    assert_eq!(keyval_string(&kvs), "app=web\ntier=front\n");
}

#[test]
fn string_helpers() {
    assert!(str_eq("abc", "abc"));
    assert!(!str_eq("abc", "abd"));
    assert!(!str_eq("abc", "ab"));
    assert_eq!(u64_to_string(0), "0");
    assert_eq!(u64_to_string(907), "907");
    assert_eq!(u64_to_string(u64::MAX), "18446744073709551615");
    assert_eq!(i64_to_string(-45), "-45");
    assert_eq!(i64_to_string(i64::MIN), "-9223372036854775808");
    assert_eq!(parse_u32_literal("4294967295"), Some(4294967295));
    assert_eq!(parse_u32_literal("4294967296"), None);
    assert_eq!(parse_u32_literal("+80"), Some(80));
    assert_eq!(parse_u32_literal("x80"), None);
    assert_eq!(parse_u32_literal(""), None);
    assert_eq!(shorten_to(String::from("short"), 18), "short");
    assert_eq!(
        shorten_to(String::from("a-very-long-service-address"), 18),
        "a-very-long-ser..."
    );
    assert_eq!(split_spaces("code -w  --wait"), vec!["code", "-w", "--wait"]);
    assert_eq!(split_spaces("vim"), vec!["vim"]);
    let items = vec![String::from("a"), String::from("b")];
    assert_eq!(join_with(&items, ", "), "a, b");
}

#[test]
fn validators() {
    assert!(valid_u32(String::from("123")).is_ok());
    assert!(valid_u32(String::from("abc")).is_err());
    assert!(valid_u32(String::from("4294967296")).is_err());
    assert!(valid_bool(String::from("true")).is_ok());
    assert!(valid_bool(String::from("false")).is_ok());
    assert!(valid_bool(String::from("maybe")).is_err());
    assert!(valid_duration(String::from("5s")).is_ok());
    assert!(valid_duration(String::from("2h 37min")).is_ok());
    assert!(valid_duration(String::from("soon")).is_err());
    assert!(valid_date(String::from("1996-12-19T16:39:57-08:00")).is_ok());
    assert!(valid_date(String::from("yesterday")).is_err());
}

#[test]
fn listing_paths() {
    let pod_kind = ObjKind::Pod { containers: Vec::new() };
    let ns = String::from("prod");
    assert_eq!(list_path(&pod_kind, Some(&ns)), "/api/v1/namespaces/prod/pods");
    assert_eq!(list_path(&pod_kind, None), "/api/v1/pods");
    // nodes are cluster-scoped even with a namespace set
    assert_eq!(list_path(&ObjKind::Node, Some(&ns)), "/api/v1/nodes");
    assert_eq!(
        list_path(&ObjKind::Deployment, Some(&ns)),
        "/apis/extensions/v1beta1/namespaces/prod/deployments"
    );
    assert_eq!(list_path(&ObjKind::Job, None), "/apis/batch/v1/jobs");

    let label = String::from("app=web");
    let node = String::from("node-1");
    assert_eq!(
        list_query(list_path(&pod_kind, None), Some(&label), None),
        "/api/v1/pods?labelSelector=app=web"
    );
    assert_eq!(
        list_query(list_path(&pod_kind, None), Some(&label), Some(&node)),
        "/api/v1/pods?labelSelector=app=web&fieldSelector=spec.nodeName=node-1"
    );
    assert_eq!(
        list_query(list_path(&pod_kind, None), None, Some(&node)),
        "/api/v1/pods?fieldSelector=spec.nodeName=node-1"
    );
}

#[test]
fn terminal_resolution_order() {
    let over = String::from("alacritty -e");
    let sess = String::from("konsole -e");
    assert_eq!(resolve_terminal(Some(&over), Some(&sess)), "alacritty -e");
    assert_eq!(resolve_terminal(None, Some(&sess)), "konsole -e");
    assert_eq!(resolve_terminal(None, None), "xterm -e");
}

#[test]
fn duration_bounds() {
    // nine-digit numbers are the largest the validator lets through
    assert!(valid_duration(String::from("999999999s")).is_ok());
    assert!(valid_duration(String::from("1000000000s")).is_err());
    // a duration at the very end of the counter's range is rejected
    // outright rather than parsed
    assert!(valid_duration(String::from("18446744073709551615s 1000ms")).is_err());
    // digits separated only by whitespace count as one number
    assert!(valid_duration(String::from("184467440 737095516 15s 0.5s 500000000ns")).is_err());
    // whitespace between terms stays fine
    assert!(valid_duration(String::from("1h 30m 15s")).is_ok());
    let long: String = std::iter::repeat("1s ").take(40).collect();
    assert!(valid_duration(long).is_err());
}
