use click::objects::{
    ContainerState, ContainerStatus, Event, IngressEntry, ObjKind, Pod, SelectedObject, Service,
    ServicePort, event_cmp, format_event, get_external_ip, get_ports, has_waiting, phase_str,
    phase_style, phase_style_str, pick_container, ready_counts,
};
use click::logs::resolve_container;
use click::objects::{containers_string, restart_total, ContainerSpec, VolumeMount};
use click::identity;
use click::sink::MemSink;
use std::cmp::Ordering;

fn status(name: &str, ready: bool, state: ContainerState) -> ContainerStatus {
    ContainerStatus {
        name: String::from(name),
        image: String::from("img"),
        state,
        ready,
        restart_count: 0,
    }
}

fn pod_with(statuses: Option<Vec<ContainerStatus>>) -> Pod {
    Pod {
        name: String::from("web-1"),
        namespace: Some(String::from("prod")),
        phase: String::from("Running"),
        deletion_timestamp: None,
        creation_timestamp: Some(0),
        container_statuses: statuses,
    }
}

#[test]
fn identity_returns_argument() {
    assert_eq!(identity(42u32), 42);
    assert_eq!(identity(String::from("x")), "x");
}

#[test]
fn waiting_detection() {
    let none = pod_with(None);
    assert!(!has_waiting(&none));
    let running = pod_with(Some(vec![status("a", true, ContainerState::Running)]));
    assert!(!has_waiting(&running));
    let waiting = pod_with(Some(vec![
        status("a", true, ContainerState::Running),
        status("b", false, ContainerState::Waiting),
    ]));
    assert!(has_waiting(&waiting));
}

#[test]
fn phase_display_rules() {
    let mut p = pod_with(None);
    assert_eq!(phase_str(&p), "Running");
    p.container_statuses = Some(vec![status("a", false, ContainerState::Waiting)]);
    assert_eq!(phase_str(&p), "ContainerCreating");
    p.deletion_timestamp = Some(123);
    assert_eq!(phase_str(&p), "Terminating");
}

#[test]
fn ready_count_rules() {
    let none = pod_with(None);
    assert_eq!(ready_counts(&none), None);
    let p = pod_with(Some(vec![
        status("a", true, ContainerState::Running),
        status("b", false, ContainerState::Running),
        status("c", true, ContainerState::Running),
    ]));
    assert_eq!(ready_counts(&p), Some((2, 3)));
}

#[test]
fn phase_styles() {
    assert_eq!(phase_style_str("Running"), "Fg");
    assert_eq!(phase_style_str("Pending"), "Fg");
    assert_eq!(phase_style_str("Active"), "Fg");
    assert_eq!(phase_style_str("ContainerCreating"), "Fy");
    assert_eq!(phase_style_str("Succeeded"), "Fb");
    assert_eq!(phase_style_str("Terminating"), "Fr");
    assert_eq!(phase_style_str("Failed"), "Fr");
    assert_eq!(phase_style_str("whatever"), "Fr");
    assert_eq!(phase_style("Running"), "Fg");
}

#[test]
fn container_picking() {
    let one = SelectedObject {
        kind: ObjKind::Pod { containers: vec![String::from("main")] },
        name: String::from("web-1"),
        namespace: Some(String::from("prod")),
    };
    let mut sink = MemSink::new();
    assert_eq!(pick_container(&one, &mut sink), "main");
    assert_eq!(sink.text(), "");

    let two = SelectedObject {
        kind: ObjKind::Pod {
            containers: vec![String::from("app"), String::from("sidecar")],
        },
        name: String::from("web-2"),
        namespace: Some(String::from("prod")),
    };
    let mut sink2 = MemSink::new();
    assert_eq!(pick_container(&two, &mut sink2), "app");
    assert_eq!(
        sink2.text(),
        "Pod has multiple containers, picking the first one\n"
    );
}

#[test]
fn container_resolution_rules() {
    let empty = SelectedObject {
        kind: ObjKind::Pod { containers: Vec::new() },
        name: String::from("web-0"),
        namespace: None,
    };
    let mut sink = MemSink::new();
    assert!(resolve_container(None, &empty, &mut sink).is_err());

    let two = SelectedObject {
        kind: ObjKind::Pod {
            containers: vec![String::from("app"), String::from("sidecar")],
        },
        name: String::from("web-2"),
        namespace: None,
    };
    let explicit = String::from("sidecar");
    let mut sink2 = MemSink::new();
    assert_eq!(
        resolve_container(Some(&explicit), &two, &mut sink2).unwrap(),
        "sidecar"
    );
    assert_eq!(sink2.text(), "");
    let mut sink3 = MemSink::new();
    assert_eq!(resolve_container(None, &two, &mut sink3).unwrap(), "app");
    assert!(!sink3.text().is_empty());
}

fn service(external: Option<Vec<&str>>, ingress: Option<Vec<IngressEntry>>) -> Service {
    Service {
        name: String::from("svc"),
        namespace: None,
        cluster_ip: None,
        external_ips: external.map(|v| v.into_iter().map(String::from).collect()),
        load_balancer_ingress: ingress,
        ports: None,
        creation_timestamp: None,
    }
}

#[test]
fn external_ip_display() {
    assert_eq!(get_external_ip(&service(None, None)), "<none>");
    assert_eq!(
        get_external_ip(&service(Some(vec!["10.0.0.1"]), None)),
        "10.0.0.1"
    );
    assert_eq!(
        get_external_ip(&service(Some(vec!["10.0.0.1", "10.0.0.2"]), None)),
        "10.0.0.1, 10.0.0.2"
    );
    assert_eq!(
        get_external_ip(&service(Some(vec!["10.0.0.1", "10.0.0.25"]), None)),
        "10.0.0.1, 10.0...."
    );
    let ing = vec![
        IngressEntry { hostname: Some(String::from("lb.example")), ip: None },
        IngressEntry { hostname: None, ip: Some(String::from("1.2.3.4")) },
    ];
    assert_eq!(get_external_ip(&service(None, Some(ing))), "lb.example, 1.2...");
}

#[test]
fn ports_display() {
    let mut svc = service(None, None);
    assert_eq!(get_ports(&svc), "<none>");
    svc.ports = Some(vec![
        ServicePort { port: 80, node_port: None, protocol: String::from("TCP") },
        ServicePort { port: 443, node_port: Some(30443), protocol: String::from("TCP") },
    ]);
    assert_eq!(get_ports(&svc), "80/TCP,443:30443/TCP");
}

fn event(ts: Option<i64>) -> Event {
    Event {
        last_timestamp: ts,
        message: String::from("m"),
        reason: String::from("r"),
        count: None,
    }
}

#[test]
fn event_ordering() {
    assert_eq!(event_cmp(&event(None), &event(None)), Ordering::Equal);
    assert_eq!(event_cmp(&event(None), &event(Some(5))), Ordering::Less);
    assert_eq!(event_cmp(&event(Some(5)), &event(None)), Ordering::Greater);
    assert_eq!(event_cmp(&event(Some(1)), &event(Some(2))), Ordering::Less);
    assert_eq!(event_cmp(&event(Some(3)), &event(Some(2))), Ordering::Greater);
    assert_eq!(event_cmp(&event(Some(2)), &event(Some(2))), Ordering::Equal);
}

#[test]
fn event_formatting() {
    let mut e = event(Some(0));
    e.message = String::from("pulled image");
    e.reason = String::from("Pulled");
    e.count = Some(3);
    assert_eq!(
        format_event(&e, "2020-01-01 00:00:00"),
        "2020-01-01 00:00:00 - pulled image\n count: 3\n reason: Pulled\n"
    );
    e.count = None;
    assert_eq!(
        format_event(&e, "unknown"),
        "unknown - pulled image\n count: 1\n reason: Pulled\n"
    );
}

#[test]
fn restart_totals() {
    let none = pod_with(None);
    assert_eq!(restart_total(&none), 0);
    let mut s1 = status("a", true, ContainerState::Running);
    s1.restart_count = 3;
    let mut s2 = status("b", true, ContainerState::Running);
    s2.restart_count = 4;
    let p = pod_with(Some(vec![s1, s2]));
    assert_eq!(restart_total(&p), 7);
}

#[test]
fn container_descriptions() {
    let no_statuses = pod_with(None);
    assert_eq!(containers_string(&no_statuses, &Vec::new()), "<No Containers>\n");

    let p = pod_with(Some(vec![status("app", true, ContainerState::Running)]));
    let conts = vec![ContainerSpec {
        name: String::from("app"),
        volume_mounts: Some(vec![VolumeMount {
            name: String::from("cfg"),
            mount_path: String::from("/etc/cfg"),
            sub_path: None,
            read_only: Some(true),
        }]),
    }];
    let text = containers_string(&p, &conts);
    assert_eq!(
        text,
        "Name:\tapp\n  Image:\timg\n  State:\tRunning\n  Ready:\ttrue\n  Volumes:\n   cfg\n    Path:\t/etc/cfg\n    Sub-Path:\t\n    Read-Only:\ttrue\n\n"
    );

    let unmatched = vec![ContainerSpec { name: String::from("other"), volume_mounts: None }];
    let text2 = containers_string(&p, &unmatched);
    assert_eq!(
        text2,
        "Name:\tapp\n  Image:\timg\n  State:\tRunning\n  Ready:\ttrue\n\n"
    );
    let no_vols = vec![ContainerSpec { name: String::from("app"), volume_mounts: None }];
    let text3 = containers_string(&p, &no_vols);
    assert_eq!(
        text3,
        "Name:\tapp\n  Image:\timg\n  State:\tRunning\n  Ready:\ttrue\n  No Volumes\n\n"
    );
}
