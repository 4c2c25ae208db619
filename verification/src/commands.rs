//! Per-command decision logic: the destructive-action confirmation
//! policy, the delete request a confirmed deletion issues, the argument
//! lists handed to the external exec and terminal processes, and the age
//! display for listings.

use vstd::prelude::*;

use crate::objects::{KindView, ObjKind, SelectedObject};
use crate::strings::{
    dec_str, first_non_blank, is_blank, lower, lower_char, lowered, lemma_trim_back_at,
    lemma_trim_front_at, non_blank_end, push_char, space_tokens, split_spaces, trimmed,
    u64_to_string,
};

verus! {

/// Whether an operator's reply confirms a destructive action: the
/// trimmed, case-insensitive input is `y` or `yes`; anything else —
/// including nothing at all — declines.
pub open spec fn spec_affirmative(s: Seq<char>) -> bool {
    let t = lowered(trimmed(s));
    t == seq!['y'] || t == seq!['y', 'e', 's']
}

pub fn is_affirmative(input: &str) -> (r: bool)
    ensures
        r == spec_affirmative(input@),
{
    let len = input.unicode_len();
    let a = first_non_blank(input);
    let b = non_blank_end(input);
    proof {
        lemma_trim_front_at(input@, a as int);
    }
    if a >= b {
        proof {
            if a < len {
                assert(!is_blank(input@[a as int]));
                assert(is_blank(input@[a as int]));
            }
            assert(a == len);
            lemma_trim_all_blank(input@);
        }
        return false;
    }
    let ghost t0 = input@.skip(a as int);
    proof {
        lemma_trim_back_at(t0, b - a);
        assert(trimmed(input@) == t0.take(b - a));
    }
    let ghost t = t0.take(b - a);
    let tlen = b - a;
    if tlen == 1 {
        let c = lower(input.get_char(a));
        proof {
            assert(t[0] == input@[a as int]);
            assert(lowered(t) =~= seq![lower_char(t[0])]);
            assert(lowered(t).len() == 1);
            if c == 'y' {
                assert(lowered(t) =~= seq!['y']);
            } else {
                assert(lowered(t) != seq!['y']) by {
                    if lowered(t) == seq!['y'] {
                        assert(lowered(t)[0] == seq!['y'][0]);
                    }
                }
            }
        }
        c == 'y'
    } else if tlen == 3 {
        let c0 = lower(input.get_char(a));
        let c1 = lower(input.get_char(a + 1));
        let c2 = lower(input.get_char(a + 2));
        proof {
            assert(t[0] == input@[a as int]);
            assert(t[1] == input@[a + 1]);
            assert(t[2] == input@[a + 2]);
            assert(lowered(t) =~= seq![
                lower_char(t[0]),
                lower_char(t[1]),
                lower_char(t[2]),
            ]);
            assert(lowered(t).len() == 3);
            if c0 == 'y' && c1 == 'e' && c2 == 's' {
                assert(lowered(t) =~= seq!['y', 'e', 's']);
            } else {
                assert(lowered(t) != seq!['y', 'e', 's']) by {
                    if lowered(t) == seq!['y', 'e', 's'] {
                        assert(lowered(t)[0] == seq!['y', 'e', 's'][0]);
                        assert(lowered(t)[1] == seq!['y', 'e', 's'][1]);
                        assert(lowered(t)[2] == seq!['y', 'e', 's'][2]);
                    }
                }
            }
        }
        c0 == 'y' && c1 == 'e' && c2 == 's'
    } else {
        proof {
            assert(lowered(t).len() == t.len());
        }
        false
    }
}

/// With only blanks in `s`, trimming leaves nothing.
pub proof fn lemma_trim_all_blank(s: Seq<char>)
    requires
        forall|j: int| 0 <= j < s.len() ==> is_blank(s[j]),
    ensures
        lowered(trimmed(s)).len() == 0,
{
    lemma_trim_front_at(s, s.len() as int);
    assert(s.skip(s.len() as int) =~= Seq::<char>::empty());
    lemma_trim_back_at(Seq::<char>::empty(), 0);
    assert(Seq::<char>::empty().take(0) =~= Seq::<char>::empty());
}

/// The question asked before a destructive action: the target's fully
/// qualified identity — kind and name, with the namespace unless the
/// kind is cluster-scoped.
pub fn delete_prompt(obj: &SelectedObject) -> (r: String)
    ensures
        r@ == "Delete "@ + obj@.type_str() + " "@ + (if obj@.kind is Node || obj@.namespace
            is None {
            Seq::<char>::empty()
        } else {
            obj@.namespace->0 + seq!['/']
        }) + obj@.name + " [y/N]? "@,
{
    let mut r = String::from_str("Delete ");
    r.append(obj.type_str());
    r.append(" ");
    if !obj.is_cluster_scoped() {
        if let Some(ns) = &obj.namespace {
            r.append(ns.as_str());
            push_char(&mut r, '/');
        }
    }
    r.append(obj.name.as_str());
    r.append(" [y/N]? ");
    proof {
        assert(obj.spec_type_str() == obj@.type_str());
    }
    r
}

/// The resource path a delete for this object is issued against.
pub open spec fn spec_object_url(kind: KindView, ns: Seq<char>, name: Seq<char>) -> Seq<char> {
    match kind {
        KindView::Pod { .. } => "/api/v1/namespaces/"@ + ns + "/pods/"@ + name,
        KindView::Node => "/api/v1/nodes/"@ + name,
        KindView::Service => "/api/v1/namespaces/"@ + ns + "/services/"@ + name,
        KindView::Deployment => "/apis/extensions/v1beta1/namespaces/"@ + ns + "/deployments/"@
            + name,
        KindView::ReplicaSet => "/apis/extensions/v1beta1/namespaces/"@ + ns + "/replicasets/"@
            + name,
        KindView::StatefulSet => "/apis/apps/v1beta1/namespaces/"@ + ns + "/statefulsets/"@
            + name,
        KindView::ConfigMap => "/api/v1/namespaces/"@ + ns + "/configmaps/"@ + name,
        KindView::Secret => "/api/v1/namespaces/"@ + ns + "/secrets/"@ + name,
        KindView::Job => "/apis/batch/v1/namespaces/"@ + ns + "/jobs/"@ + name,
    }
}

pub fn object_url(obj: &SelectedObject, ns: &str) -> (r: String)
    ensures
        r@ == spec_object_url(obj@.kind, ns@, obj@.name),
{
    let mut r: String = match &obj.kind {
        crate::objects::ObjKind::Node => {
            let mut u = String::from_str("/api/v1/nodes/");
            u.append(obj.name.as_str());
            return u;
        },
        crate::objects::ObjKind::Pod { .. } => String::from_str("/api/v1/namespaces/"),
        crate::objects::ObjKind::Service => String::from_str("/api/v1/namespaces/"),
        crate::objects::ObjKind::ConfigMap => String::from_str("/api/v1/namespaces/"),
        crate::objects::ObjKind::Secret => String::from_str("/api/v1/namespaces/"),
        crate::objects::ObjKind::Deployment => String::from_str(
            "/apis/extensions/v1beta1/namespaces/",
        ),
        crate::objects::ObjKind::ReplicaSet => String::from_str(
            "/apis/extensions/v1beta1/namespaces/",
        ),
        crate::objects::ObjKind::StatefulSet => String::from_str(
            "/apis/apps/v1beta1/namespaces/",
        ),
        crate::objects::ObjKind::Job => String::from_str("/apis/batch/v1/namespaces/"),
    };
    r.append(ns);
    match &obj.kind {
        crate::objects::ObjKind::Pod { .. } => r.append("/pods/"),
        crate::objects::ObjKind::Service => r.append("/services/"),
        crate::objects::ObjKind::ConfigMap => r.append("/configmaps/"),
        crate::objects::ObjKind::Secret => r.append("/secrets/"),
        crate::objects::ObjKind::Deployment => r.append("/deployments/"),
        crate::objects::ObjKind::ReplicaSet => r.append("/replicasets/"),
        crate::objects::ObjKind::StatefulSet => r.append("/statefulsets/"),
        crate::objects::ObjKind::Job => r.append("/jobs/"),
        crate::objects::ObjKind::Node => (),
    };
    r.append(obj.name.as_str());
    r
}

pub open spec fn spec_api_prefix(kind: KindView) -> Seq<char> {
    match kind {
        KindView::Pod { .. } => "/api/v1"@,
        KindView::Node => "/api/v1"@,
        KindView::Service => "/api/v1"@,
        KindView::ConfigMap => "/api/v1"@,
        KindView::Secret => "/api/v1"@,
        KindView::Deployment => "/apis/extensions/v1beta1"@,
        KindView::ReplicaSet => "/apis/extensions/v1beta1"@,
        KindView::StatefulSet => "/apis/apps/v1beta1"@,
        KindView::Job => "/apis/batch/v1"@,
    }
}

pub open spec fn spec_plural(kind: KindView) -> Seq<char> {
    match kind {
        KindView::Pod { .. } => "pods"@,
        KindView::Node => "nodes"@,
        KindView::Service => "services"@,
        KindView::ConfigMap => "configmaps"@,
        KindView::Secret => "secrets"@,
        KindView::Deployment => "deployments"@,
        KindView::ReplicaSet => "replicasets"@,
        KindView::StatefulSet => "statefulsets"@,
        KindView::Job => "jobs"@,
    }
}

/// The collection path a listing reads: the kind's collection, scoped to
/// the current namespace when one is set. Nodes are cluster-scoped and
/// ignore the namespace.
pub open spec fn spec_list_path(kind: KindView, ns: Option<Seq<char>>) -> Seq<char> {
    if kind is Node || ns is None {
        spec_api_prefix(kind) + seq!['/'] + spec_plural(kind)
    } else {
        spec_api_prefix(kind) + "/namespaces/"@ + ns->0 + seq!['/'] + spec_plural(kind)
    }
}

fn api_prefix_str(kind: &ObjKind) -> (r: &'static str)
    ensures
        r@ == spec_api_prefix(kind@),
{
    match kind {
        ObjKind::Pod { .. } => "/api/v1",
        ObjKind::Node => "/api/v1",
        ObjKind::Service => "/api/v1",
        ObjKind::ConfigMap => "/api/v1",
        ObjKind::Secret => "/api/v1",
        ObjKind::Deployment => "/apis/extensions/v1beta1",
        ObjKind::ReplicaSet => "/apis/extensions/v1beta1",
        ObjKind::StatefulSet => "/apis/apps/v1beta1",
        ObjKind::Job => "/apis/batch/v1",
    }
}

fn plural_str(kind: &ObjKind) -> (r: &'static str)
    ensures
        r@ == spec_plural(kind@),
{
    match kind {
        ObjKind::Pod { .. } => "pods",
        ObjKind::Node => "nodes",
        ObjKind::Service => "services",
        ObjKind::ConfigMap => "configmaps",
        ObjKind::Secret => "secrets",
        ObjKind::Deployment => "deployments",
        ObjKind::ReplicaSet => "replicasets",
        ObjKind::StatefulSet => "statefulsets",
        ObjKind::Job => "jobs",
    }
}

/// Build the collection path a listing reads.
pub fn list_path(kind: &ObjKind, ns: Option<&String>) -> (r: String)
    ensures
        r@ == spec_list_path(
            kind@,
            (match ns {
                Option::Some(n) => Option::Some(n@),
                Option::None => Option::None,
            }),
        ),
{
    let mut r = api_prefix_str(kind).to_owned();
    let cluster_scoped = matches!(kind, ObjKind::Node);
    match ns {
        Some(n) if !cluster_scoped => {
            r.append("/namespaces/");
            r.append(n.as_str());
        },
        _ => (),
    }
    push_char(&mut r, '/');
    r.append(plural_str(kind));
    r
}

/// The query a listing adds to its path: the label selector, and for a
/// pod listing scoped to a node, the node's field selector.
pub open spec fn spec_list_query(
    base: Seq<char>,
    label: Option<Seq<char>>,
    node: Option<Seq<char>>,
) -> Seq<char> {
    base + (match label {
        Option::Some(l) => "?labelSelector="@ + l,
        Option::None => Seq::<char>::empty(),
    }) + (match node {
        Option::Some(n) => (if label is Some {
            seq!['&']
        } else {
            seq!['?']
        }) + "fieldSelector=spec.nodeName="@ + n,
        Option::None => Seq::<char>::empty(),
    })
}

/// Add the listing's selectors to its path.
pub fn list_query(base: String, label: Option<&String>, node: Option<&String>) -> (r: String)
    ensures
        r@ == spec_list_query(
            base@,
            (match label {
                Option::Some(l) => Option::Some(l@),
                Option::None => Option::None,
            }),
            (match node {
                Option::Some(n) => Option::Some(n@),
                Option::None => Option::None,
            }),
        ),
{
    let mut r = base;
    if let Some(l) = label {
        r.append("?labelSelector=");
        r.append(l.as_str());
    }
    if let Some(n) = node {
        if label.is_some() {
            push_char(&mut r, '&');
        } else {
            push_char(&mut r, '?');
        }
        r.append("fieldSelector=spec.nodeName=");
        r.append(n.as_str());
    }
    r
}

/// The grace period a delete carries: an explicit zero is raised to one
/// — zero force-deletes, which can corrupt state — `--force` sends zero,
/// and `--now` sends one.
pub open spec fn grace_value(grace: Option<u32>, force: bool, now: bool) -> Option<u32> {
    match grace {
        Option::Some(g) => if g == 0 {
            Option::Some(1u32)
        } else {
            Option::Some(g)
        },
        Option::None => if force {
            Option::Some(0u32)
        } else if now {
            Option::Some(1u32)
        } else {
            Option::None
        },
    }
}

/// The body a delete sends, with keys in canonical order.
pub open spec fn spec_delete_body(cascade: bool, grace: Option<u32>, force: bool, now: bool)
    -> Seq<char> {
    "{\"apiVersion\":\"v1\""@ + (match grace_value(grace, force, now) {
        Option::Some(g) => ",\"gracePeriodSeconds\":"@ + dec_str(g as nat),
        Option::None => Seq::<char>::empty(),
    }) + ",\"kind\":\"DeleteOptions\",\"propagationPolicy\":\""@ + (if cascade {
        "Foreground"@
    } else {
        "Orphan"@
    }) + "\"}"@
}

/// Build the delete body: propagation policy from the cascade flag, and
/// the effective grace period if any.
pub fn delete_body_string(cascade: bool, grace: Option<u32>, force: bool, now: bool) -> (r:
    String)
    ensures
        r@ == spec_delete_body(cascade, grace, force, now),
{
    let mut r = String::from_str("{\"apiVersion\":\"v1\"");
    let g: Option<u32> = match grace {
        Some(g) => if g == 0 {
            Some(1)
        } else {
            Some(g)
        },
        None => if force {
            Some(0)
        } else if now {
            Some(1)
        } else {
            None
        },
    };
    if let Some(gv) = g {
        r.append(",\"gracePeriodSeconds\":");
        let gs = u64_to_string(gv as u64);
        r.append(gs.as_str());
    }
    r.append(",\"kind\":\"DeleteOptions\",\"propagationPolicy\":\"");
    if cascade {
        r.append("Foreground");
    } else {
        r.append("Orphan");
    }
    r.append("\"}");
    r
}

/// What a confirmed or declined deletion does for one object.
pub enum DeleteDecision {
    /// Issue the delete against this path; services are deleted without
    /// a body.
    Proceed { url: String, with_body: bool },
    /// The operator declined: a normal outcome, not an error, and the
    /// rest of a range iteration goes on.
    Declined,
    /// The object is namespaced but its namespace is unknown.
    UnknownNamespace,
}

/// Decide one object's deletion from the operator's confirmation line.
/// The check runs independently for every object of a range.
pub fn delete_decision(obj: &SelectedObject, confirmation: &str) -> (r: DeleteDecision)
    ensures
        match r {
            DeleteDecision::UnknownNamespace => !(obj@.kind is Node) && obj@.namespace is None,
            DeleteDecision::Declined => !spec_affirmative(confirmation@) && (obj@.kind is Node
                || obj@.namespace is Some),
            DeleteDecision::Proceed { url, with_body } => {
                &&& spec_affirmative(confirmation@)
                &&& (obj@.kind is Node || obj@.namespace is Some)
                &&& url@ == spec_object_url(
                    obj@.kind,
                    (if obj@.kind is Node {
                        Seq::<char>::empty()
                    } else {
                        obj@.namespace->0
                    }),
                    obj@.name,
                )
                &&& with_body == !(obj@.kind is Service)
            },
        },
{
    let ns: String = if obj.is_cluster_scoped() {
        String::new()
    } else {
        match &obj.namespace {
            Some(n) => n.clone(),
            None => {
                return DeleteDecision::UnknownNamespace;
            },
        }
    };
    if !is_affirmative(confirmation) {
        return DeleteDecision::Declined;
    }
    let url = object_url(obj, ns.as_str());
    let with_body = !matches!(obj.kind, crate::objects::ObjKind::Service);
    DeleteDecision::Proceed { url, with_body }
}

/// The interactivity argument handed to the external exec: `-it`, `-t`,
/// `-i`, or nothing.
pub fn interactive_arg(tty: bool, stdin: bool) -> (r: &'static str)
    ensures
        tty && stdin ==> r@ == "-it"@,
        tty && !stdin ==> r@ == "-t"@,
        !tty && stdin ==> r@ == "-i"@,
        !tty && !stdin ==> r@ == ""@,
{
    match (tty, stdin) {
        (true, true) => "-it",
        (true, false) => "-t",
        (false, true) => "-i",
        (false, false) => "",
    }
}

/// The argument list of the external exec invocation: program, scope,
/// the exec verb with its interactivity argument and the pod, the
/// container when one is named, then the command after `--`.
pub open spec fn spec_exec_args(
    ns: Seq<char>,
    context: Seq<char>,
    pod: Seq<char>,
    cmd: Seq<Seq<char>>,
    it_arg: Seq<char>,
    container: Option<Seq<char>>,
) -> Seq<Seq<char>> {
    seq!["kubectl"@, "--namespace"@, ns, "--context"@, context, "exec"@, it_arg, pod] + (
    match container {
        Option::Some(c) => seq!["-c"@, c],
        Option::None => Seq::<Seq<char>>::empty(),
    }) + seq!["--"@] + cmd
}

pub fn exec_command_args(
    ns: &str,
    context: &str,
    pod: &str,
    cmd: &Vec<String>,
    it_arg: &str,
    container: Option<&String>,
) -> (r: Vec<String>)
    ensures
        r.deep_view() == spec_exec_args(
            ns@,
            context@,
            pod@,
            cmd.deep_view(),
            it_arg@,
            (match container {
                Option::Some(c) => Option::Some(c@),
                Option::None => Option::None,
            }),
        ),
{
    let mut r: Vec<String> = Vec::new();
    r.push(String::from_str("kubectl"));
    r.push(String::from_str("--namespace"));
    r.push(ns.to_owned());
    r.push(String::from_str("--context"));
    r.push(context.to_owned());
    r.push(String::from_str("exec"));
    r.push(it_arg.to_owned());
    r.push(pod.to_owned());
    if let Some(c) = container {
        r.push(String::from_str("-c"));
        r.push(c.clone());
    }
    r.push(String::from_str("--"));
    let mut i: usize = 0;
    while i < cmd.len()
        invariant
            0 <= i <= cmd@.len(),
            r@.len() == (if container is Some {
                11int
            } else {
                9int
            }) + i,
            r.deep_view() =~= spec_exec_args(
                ns@,
                context@,
                pod@,
                cmd.deep_view().take(i as int),
                it_arg@,
                (match container {
                    Option::Some(c) => Option::Some(c@),
                    Option::None => Option::None,
                }),
            ),
        decreases cmd@.len() - i,
    {
        let ghost base = spec_exec_args(
            ns@,
            context@,
            pod@,
            cmd.deep_view().take(i as int),
            it_arg@,
            (match container {
                Option::Some(c) => Option::Some(c@),
                Option::None => Option::None,
            }),
        );
        r.push(cmd[i].clone());
        proof {
            let dv = cmd.deep_view();
            assert(r.deep_view() =~= base.push(dv[i as int]));
            assert(spec_exec_args(
                ns@,
                context@,
                pod@,
                dv.take(i + 1),
                it_arg@,
                (match container {
                    Option::Some(c) => Option::Some(c@),
                    Option::None => Option::None,
                }),
            ) =~= base.push(dv[i as int]));
        }
        i += 1;
    }
    proof {
        assert(cmd.deep_view().take(cmd@.len() as int) =~= cmd.deep_view());
    }
    r
}

/// The terminal a command runs in: the override when given, else the
/// session's terminal, else a plain default.
pub fn resolve_terminal(override_cmd: Option<&String>, session_terminal: Option<&String>) -> (r:
    String)
    ensures
        match override_cmd {
            Some(o) => r@ == o@,
            None => match session_terminal {
                Some(t) => r@ == t@,
                None => r@ == "xterm -e"@,
            },
        },
{
    if let Some(o) = override_cmd {
        o.clone()
    } else if let Some(t) = session_terminal {
        t.clone()
    } else {
        let r = String::from_str("xterm -e");
        r
    }
}

/// A terminal invocation: the terminal command split on spaces, then the
/// arguments it runs.
pub open spec fn spec_terminal_args(term: Seq<char>, rest: Seq<Seq<char>>) -> Seq<Seq<char>> {
    space_tokens(term) + rest
}

pub fn terminal_args(term: &str, rest: Vec<String>) -> (r: Vec<String>)
    ensures
        r.deep_view() == spec_terminal_args(term@, rest.deep_view()),
{
    let ghost rest_view = rest.deep_view();
    let mut r = split_spaces(term);
    let mut extra = rest;
    let mut i: usize = 0;
    while i < extra.len()
        invariant
            0 <= i <= extra@.len(),
            extra.deep_view() == rest_view,
            r.deep_view() =~= space_tokens(term@) + rest_view.take(i as int),
        decreases extra@.len() - i,
    {
        let ghost base = space_tokens(term@) + rest_view.take(i as int);
        r.push(extra[i].clone());
        proof {
            assert(r.deep_view() =~= base.push(rest_view[i as int]));
            assert(space_tokens(term@) + rest_view.take(i + 1) =~= base.push(
                rest_view[i as int],
            ));
        }
        i += 1;
    }
    proof {
        assert(rest_view.take(rest_view.len() as int) =~= rest_view);
    }
    r
}

/// The age column of a listing: days and hours, hours and minutes,
/// minutes and seconds, or bare seconds, by the age's size.
pub open spec fn spec_age(secs: nat) -> Seq<char> {
    let d = secs / 86400;
    let h = secs / 3600;
    let m = secs / 60;
    if d > 0 {
        dec_str(d) + "d "@ + dec_str((h - 24 * d) as nat) + "h"@
    } else if h > 0 {
        dec_str(h) + "h "@ + dec_str((m - 60 * h) as nat) + "m"@
    } else if m > 0 {
        dec_str(m) + "m "@ + dec_str((secs - 60 * m) as nat) + "s"@
    } else {
        dec_str(secs) + "s"@
    }
}

/// Format an age in seconds for display.
pub fn format_age(secs: u64) -> (r: String)
    ensures
        r@ == spec_age(secs as nat),
{
    let d: u64 = secs / 86400;
    let h: u64 = secs / 3600;
    let m: u64 = secs / 60;
    proof {
        assert(24 * d <= h && h - 24 * d < 24) by (nonlinear_arith)
            requires
                d == secs / 86400,
                h == secs / 3600,
        ;
        assert(60 * h <= m && m - 60 * h < 60) by (nonlinear_arith)
            requires
                h == secs / 3600,
                m == secs / 60,
        ;
        assert(60 * m <= secs && secs - 60 * m < 60) by (nonlinear_arith)
            requires
                m == secs / 60,
        ;
        assert(h <= secs && m <= secs) by (nonlinear_arith)
            requires
                h == secs / 3600,
                m == secs / 60,
        ;
    }
    if d > 0 {
        let mut r = u64_to_string(d);
        r.append("d ");
        let hs = u64_to_string(h - 24 * d);
        r.append(hs.as_str());
        r.append("h");
        r
    } else if h > 0 {
        let mut r = u64_to_string(h);
        r.append("h ");
        let ms = u64_to_string(m - 60 * h);
        r.append(ms.as_str());
        r.append("m");
        r
    } else if m > 0 {
        let mut r = u64_to_string(m);
        r.append("m ");
        let ss = u64_to_string(secs - 60 * m);
        r.append(ss.as_str());
        r.append("s");
        r
    } else {
        let mut r = u64_to_string(secs);
        r.append("s");
        r
    }
}

/// The age of an object created at `created` (seconds since the epoch),
/// as of now. A creation instant in the future shows as zero.
pub fn time_since(created: i64) -> (r: String)
    ensures
        exists|a: nat| r@ == spec_age(a),
{
    let now = crate::validate::now_epoch_seconds();
    let delta = crate::logs::seconds_between(now, created);
    let secs: u64 = if delta < 0 {
        0
    } else {
        delta as u64
    };
    let r = format_age(secs);
    proof {
        assert(r@ == spec_age(secs as nat));
    }
    r
}

/// A multi-line `key=value` listing of labels or annotations.
pub open spec fn spec_keyval_lines(kvs: Seq<(Seq<char>, Seq<char>)>) -> Seq<char>
    decreases kvs.len(),
{
    if kvs.len() == 0 {
        Seq::empty()
    } else {
        spec_keyval_lines(kvs.drop_last()) + kvs.last().0 + seq!['='] + kvs.last().1 + seq![
            '\n',
        ]
    }
}

/// Build the multi-line string of the given key-value pairs; absent
/// pairs give an empty string.
pub fn keyval_string(keyvals: &Option<Vec<(String, String)>>) -> (r: String)
    ensures
        match keyvals {
            Some(kvs) => r@ == spec_keyval_lines(
                kvs@.map_values(|p: (String, String)| (p.0@, p.1@)),
            ),
            None => r@ == Seq::<char>::empty(),
        },
{
    let mut r = String::new();
    match keyvals {
        Some(kvs) => {
            let ghost view = kvs@.map_values(|p: (String, String)| (p.0@, p.1@));
            let mut i: usize = 0;
            while i < kvs.len()
                invariant
                    0 <= i <= kvs@.len(),
                    view == kvs@.map_values(|p: (String, String)| (p.0@, p.1@)),
                    r@ == spec_keyval_lines(view.take(i as int)),
                decreases kvs@.len() - i,
            {
                r.append(kvs[i].0.as_str());
                r.append("=");
                r.append(kvs[i].1.as_str());
                r.append("\n");
                proof {
                    assert(view.take(i + 1).drop_last() =~= view.take(i as int));
                    assert(view.take(i + 1).last() == view[i as int]);
                    reveal_strlit("=");
                    reveal_strlit("\n");
                    assert("="@ =~= seq!['=']);
                    assert("\n"@ =~= seq!['\n']);
                }
                i += 1;
            }
            proof {
                assert(view.take(kvs@.len() as int) =~= view);
            }
        },
        None => (),
    }
    r
}

} // verus!
