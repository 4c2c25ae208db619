use click::errors::SelectionError;
use click::objects::{ObjKind, SelectedObject};
use click::session::{RangeListingAction, Selection, Session};
use click::sink::MemSink;

fn pod(name: &str, ns: &str) -> SelectedObject {
    SelectedObject {
        kind: ObjKind::Pod { containers: vec![String::from("main")] },
        name: String::from(name),
        namespace: Some(String::from(ns)),
    }
}

fn listing(names: &[&str]) -> Vec<SelectedObject> {
    names.iter().map(|n| pod(n, "prod")).collect()
}

#[test]
fn resolve_range_picks_indices_in_order() {
    let mut session = Session::new();
    session.record_listing(listing(&["a", "b", "c", "d", "e"]));
    let objs = session.resolve_range("0,2,4").expect("valid range");
    let names: Vec<&str> = objs.iter().map(|o| o.name.as_str()).collect();
    assert_eq!(names, vec!["a", "c", "e"]);
}

#[test]
fn resolve_range_span_and_wildcard() {
    let mut session = Session::new();
    session.record_listing(listing(&["a", "b", "c", "d"]));
    let objs = session.resolve_range("1-3").expect("valid span");
    let names: Vec<&str> = objs.iter().map(|o| o.name.as_str()).collect();
    assert_eq!(names, vec!["b", "c", "d"]);
    let all = session.resolve_range("*").expect("wildcard");
    assert_eq!(all.len(), 4);
    assert_eq!(all[0].name, "a");
    assert_eq!(all[3].name, "d");
}

#[test]
fn resolve_range_ascending_and_deduplicated() {
    let mut session = Session::new();
    session.record_listing(listing(&["a", "b", "c"]));
    let objs = session.resolve_range("2,0,1-2").expect("valid range");
    let names: Vec<&str> = objs.iter().map(|o| o.name.as_str()).collect();
    assert_eq!(names, vec!["a", "b", "c"]);
}

#[test]
fn resolve_range_is_idempotent() {
    let mut session = Session::new();
    session.record_listing(listing(&["a", "b", "c", "d"]));
    let first = session.resolve_range("0,3").expect("valid");
    let second = session.resolve_range("0,3").expect("valid");
    let n1: Vec<&str> = first.iter().map(|o| o.name.as_str()).collect();
    let n2: Vec<&str> = second.iter().map(|o| o.name.as_str()).collect();
    assert_eq!(n1, n2);
}

#[test]
fn resolve_range_out_of_bounds_fails() {
    let mut session = Session::new();
    session.record_listing(listing(&["a", "b"]));
    assert!(matches!(
        session.resolve_range("2"),
        Err(SelectionError::InvalidRange)
    ));
    assert!(matches!(
        session.resolve_range("0-5"),
        Err(SelectionError::InvalidRange)
    ));
}

#[test]
fn resolve_range_empty_listing_fails() {
    let mut session = Session::new();
    session.record_listing(Vec::new());
    assert!(matches!(
        session.resolve_range("*"),
        Err(SelectionError::InvalidRange)
    ));
}

#[test]
fn resolve_range_malformed_fails() {
    let mut session = Session::new();
    session.record_listing(listing(&["a", "b", "c"]));
    assert!(session.resolve_range("").is_err());
    assert!(session.resolve_range("x").is_err());
    assert!(session.resolve_range("1-2-3").is_err());
    assert!(session.resolve_range("2-1").is_err());
    assert!(session.resolve_range("0,,2").is_err());
}

#[test]
fn apply_on_empty_selection_fails_without_invoking() {
    let session = Session::new();
    let mut action = RangeListingAction;
    let mut sink = MemSink::new();
    let r = session.apply_to_selection(Some("|"), &mut action, &mut sink);
    assert!(matches!(r, Err(SelectionError::NoSelection)));
    assert_eq!(sink.text(), "");
}

#[test]
fn apply_on_single_invokes_once_without_separator() {
    let mut session = Session::new();
    session.select_single(pod("web-1", "prod"));
    let mut action = RangeListingAction;
    let mut sink = MemSink::new();
    let r = session.apply_to_selection(Some("|"), &mut action, &mut sink);
    assert_eq!(r.unwrap(), 1);
    assert_eq!(sink.text(), "web-1 Pod prod\n");
}

#[test]
fn apply_on_range_of_three_interleaves_separator() {
    let mut session = Session::new();
    session.record_listing(listing(&["a", "b", "c"]));
    session.select_range("*").expect("range");
    let mut action = RangeListingAction;
    let mut sink = MemSink::new();
    let r = session.apply_to_selection(Some("|"), &mut action, &mut sink);
    assert_eq!(r.unwrap(), 3);
    // three invocations in order, the separator exactly twice, never
    // before the first output nor after the last
    assert_eq!(sink.text(), "a Pod prod\n|b Pod prod\n|c Pod prod\n");
}

#[test]
fn apply_on_range_without_separator() {
    let mut session = Session::new();
    session.record_listing(listing(&["a", "b"]));
    session.select_range("0-1").expect("range");
    let mut action = RangeListingAction;
    let mut sink = MemSink::new();
    let r = session.apply_to_selection(None, &mut action, &mut sink);
    assert_eq!(r.unwrap(), 2);
    assert_eq!(sink.text(), "a Pod prod\nb Pod prod\n");
}

#[test]
fn set_context_clears_selection_and_listing() {
    let mut session = Session::new();
    session.record_listing(listing(&["a", "b"]));
    session.select_range("*").expect("range");
    session.set_context("other");
    assert!(matches!(session.selection, Selection::Empty));
    assert!(session.last_objects.is_empty());
    assert_eq!(session.context.as_deref(), Some("other"));
}

#[test]
fn set_namespace_keeps_selection() {
    let mut session = Session::new();
    session.select_single(pod("web-1", "prod"));
    session.set_namespace(Some(String::from("kube-system")));
    assert!(matches!(session.selection, Selection::Single(_)));
    assert_eq!(session.namespace.as_deref(), Some("kube-system"));
}

#[test]
fn record_listing_replaces_wholesale() {
    let mut session = Session::new();
    session.record_listing(listing(&["a", "b"]));
    session.record_listing(listing(&["c"]));
    assert_eq!(session.last_objects.len(), 1);
    assert_eq!(session.last_objects[0].name, "c");
    session.record_listing(Vec::new());
    assert!(session.last_objects.is_empty());
}

#[test]
fn clear_selection_empties() {
    let mut session = Session::new();
    session.select_single(pod("web-1", "prod"));
    session.clear_selection();
    assert!(matches!(session.selection, Selection::Empty));
}

#[test]
fn configuration_accessors() {
    let mut session = Session::new();
    assert_eq!(session.range_separator, "\n");
    session.set_editor(Some(String::from("vim")));
    session.set_terminal(Some(String::from("xterm -e")));
    session.set_range_separator(String::from("----\n"));
    assert_eq!(session.editor.as_deref(), Some("vim"));
    assert_eq!(session.terminal.as_deref(), Some("xterm -e"));
    assert_eq!(session.range_separator, "----\n");
}

#[test]
fn current_pod_rules() {
    let mut session = Session::new();
    assert!(session.current_pod().is_none());
    session.select_single(pod("web-1", "prod"));
    assert_eq!(session.current_pod().map(|o| o.name.as_str()), Some("web-1"));
    session.select_single(SelectedObject {
        kind: ObjKind::Node,
        name: String::from("node-1"),
        namespace: None,
    });
    assert!(session.current_pod().is_none());
}
