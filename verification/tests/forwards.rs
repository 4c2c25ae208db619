use click::errors::ForwardError;
use click::forward::{ForwardRegistry, validate_port_spec, validate_port_specs};

#[test]
fn port_specs_accepted() {
    assert!(validate_port_spec("8080"));
    assert!(validate_port_spec("8080:9090"));
    assert!(validate_port_spec(":3456"));
    assert!(validate_port_spec("0:3456"));
}

#[test]
fn port_specs_rejected() {
    assert!(!validate_port_spec("1:2:3"));
    assert!(!validate_port_spec("abc:80"));
    assert!(!validate_port_spec(""));
    assert!(!validate_port_spec("80:xyz"));
    assert!(!validate_port_spec("4294967296"));
}

#[test]
fn port_spec_lists() {
    let good = vec![String::from("8080"), String::from(":3456")];
    assert!(validate_port_specs(&good));
    let bad = vec![String::from("8080"), String::from("abc:80")];
    assert!(!validate_port_specs(&bad));
}

#[test]
fn register_then_list_shows_the_forward() {
    let mut reg = ForwardRegistry::new();
    let ports = vec![String::from("8080:9090")];
    let (idx, id) = reg
        .register(String::from("web-1"), ports)
        .expect("valid specs");
    assert_eq!(idx, 0);
    let listed = reg.list();
    assert_eq!(listed.len(), 1);
    assert_eq!(listed[0].0, 0);
    assert_eq!(listed[0].1, "web-1");
    assert_eq!(listed[0].2, vec![String::from("8080:9090")]);
    let pf = reg.get(idx).expect("live entry");
    assert_eq!(pf.id, id);
    assert_eq!(pf.pod, "web-1");
}

#[test]
fn register_invalid_spec_fails() {
    let mut reg = ForwardRegistry::new();
    let ports = vec![String::from("1:2:3")];
    let r = reg.register(String::from("web-1"), ports);
    assert!(matches!(r, Err(ForwardError::InvalidPortSpec)));
    assert_eq!(reg.len(), 0);
}

#[test]
fn stop_removes_exactly_that_entry() {
    let mut reg = ForwardRegistry::new();
    reg.register(String::from("a"), vec![String::from("1000")])
        .unwrap();
    let (idx_b, id_b) = reg
        .register(String::from("b"), vec![String::from("2000")])
        .unwrap();
    reg.register(String::from("c"), vec![String::from("3000")])
        .unwrap();
    let stopped = reg.stop(idx_b).expect("live index");
    assert_eq!(stopped, id_b);
    let listed = reg.list();
    assert_eq!(listed.len(), 2);
    assert_eq!(listed[0].1, "a");
    // later entries shift down by one
    assert_eq!(listed[1].0, 1);
    assert_eq!(listed[1].1, "c");
    // the old last index no longer resolves
    assert!(reg.get(2).is_none());
    assert!(matches!(reg.stop(2), Err(ForwardError::NotFound)));
}

#[test]
fn output_accumulates() {
    let mut reg = ForwardRegistry::new();
    let (idx, _) = reg
        .register(String::from("web-1"), vec![String::from("8080")])
        .unwrap();
    assert_eq!(reg.output_of(idx), Some(""));
    reg.append_output(idx, "Forwarding from 127.0.0.1\n").unwrap();
    reg.append_output(idx, "Handling connection\n").unwrap();
    assert_eq!(
        reg.output_of(idx),
        Some("Forwarding from 127.0.0.1\nHandling connection\n")
    );
    assert!(matches!(
        reg.append_output(9, "x"),
        Err(ForwardError::NotFound)
    ));
}
