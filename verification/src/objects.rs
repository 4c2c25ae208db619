//! The data model of the remote resources the session works on, and the
//! helpers that read it: pod phase and readiness, container picking,
//! service addresses and ports, event ordering.

use vstd::prelude::*;

use crate::sink::OutputSink;
use crate::strings::{
    dec_str, joined, shorten_to, shortened, str_eq, u64_to_string, join_with,
};

verus! {

/// The kind of a selected object; a pod carries its container names.
pub enum ObjKind {
    Pod { containers: Vec<String> },
    Node,
    Service,
    Deployment,
    ReplicaSet,
    StatefulSet,
    ConfigMap,
    Secret,
    Job,
}

/// An opaque handle to one remote resource, immutable once constructed.
pub struct SelectedObject {
    pub kind: ObjKind,
    pub name: String,
    pub namespace: Option<String>,
}

/// The mathematical value of an [`ObjKind`].
pub ghost enum KindView {
    Pod { containers: Seq<Seq<char>> },
    Node,
    Service,
    Deployment,
    ReplicaSet,
    StatefulSet,
    ConfigMap,
    Secret,
    Job,
}

/// The mathematical value of a [`SelectedObject`].
pub ghost struct ObjView {
    pub kind: KindView,
    pub name: Seq<char>,
    pub namespace: Option<Seq<char>>,
}

impl ObjView {
    pub open spec fn type_str(&self) -> Seq<char> {
        match self.kind {
            KindView::Pod { .. } => "Pod"@,
            KindView::Node => "Node"@,
            KindView::Service => "Service"@,
            KindView::Deployment => "Deployment"@,
            KindView::ReplicaSet => "ReplicaSet"@,
            KindView::StatefulSet => "StatefulSet"@,
            KindView::ConfigMap => "ConfigMap"@,
            KindView::Secret => "Secret"@,
            KindView::Job => "Job"@,
        }
    }
}

impl View for ObjKind {
    type V = KindView;

    open spec fn view(&self) -> KindView {
        match self {
            ObjKind::Pod { containers } => KindView::Pod { containers: containers.deep_view() },
            ObjKind::Node => KindView::Node,
            ObjKind::Service => KindView::Service,
            ObjKind::Deployment => KindView::Deployment,
            ObjKind::ReplicaSet => KindView::ReplicaSet,
            ObjKind::StatefulSet => KindView::StatefulSet,
            ObjKind::ConfigMap => KindView::ConfigMap,
            ObjKind::Secret => KindView::Secret,
            ObjKind::Job => KindView::Job,
        }
    }
}

impl View for SelectedObject {
    type V = ObjView;

    open spec fn view(&self) -> ObjView {
        ObjView {
            kind: self.kind@,
            name: self.name@,
            namespace: match self.namespace {
                Option::Some(n) => Option::Some(n@),
                Option::None => Option::None,
            },
        }
    }
}

impl SelectedObject {
    /// A copy with the same view.
    pub fn duplicate(&self) -> (r: SelectedObject)
        ensures
            r@ == self@,
    {
        let kind = match &self.kind {
            ObjKind::Pod { containers } => {
                let mut cs: Vec<String> = Vec::new();
                let mut i: usize = 0;
                while i < containers.len()
                    invariant
                        0 <= i <= containers@.len(),
                        cs@.len() == i,
                        forall|j: int| 0 <= j < i ==> (#[trigger] cs@[j])@ == containers@[j]@,
                    decreases containers@.len() - i,
                {
                    cs.push(containers[i].clone());
                    i += 1;
                }
                proof {
                    assert(cs.deep_view() =~= containers.deep_view());
                }
                ObjKind::Pod { containers: cs }
            },
            ObjKind::Node => ObjKind::Node,
            ObjKind::Service => ObjKind::Service,
            ObjKind::Deployment => ObjKind::Deployment,
            ObjKind::ReplicaSet => ObjKind::ReplicaSet,
            ObjKind::StatefulSet => ObjKind::StatefulSet,
            ObjKind::ConfigMap => ObjKind::ConfigMap,
            ObjKind::Secret => ObjKind::Secret,
            ObjKind::Job => ObjKind::Job,
        };
        let name = self.name.clone();
        let namespace = match &self.namespace {
            Some(n) => Some(n.clone()),
            None => None,
        };
        SelectedObject { kind, name, namespace }
    }

    pub open spec fn spec_is_pod(&self) -> bool {
        self.kind is Pod
    }

    pub fn is_pod(&self) -> (r: bool)
        ensures
            r == self.spec_is_pod(),
    {
        match self.kind {
            ObjKind::Pod { .. } => true,
            _ => false,
        }
    }

    /// Nodes are cluster-scoped; every other kind lives in a namespace.
    pub open spec fn spec_cluster_scoped(&self) -> bool {
        self.kind is Node
    }

    pub fn is_cluster_scoped(&self) -> (r: bool)
        ensures
            r == self.spec_cluster_scoped(),
    {
        match self.kind {
            ObjKind::Node => true,
            _ => false,
        }
    }

    pub open spec fn spec_type_str(&self) -> Seq<char> {
        match self.kind {
            ObjKind::Pod { .. } => "Pod"@,
            ObjKind::Node => "Node"@,
            ObjKind::Service => "Service"@,
            ObjKind::Deployment => "Deployment"@,
            ObjKind::ReplicaSet => "ReplicaSet"@,
            ObjKind::StatefulSet => "StatefulSet"@,
            ObjKind::ConfigMap => "ConfigMap"@,
            ObjKind::Secret => "Secret"@,
            ObjKind::Job => "Job"@,
        }
    }

    pub fn type_str(&self) -> (r: &'static str)
        ensures
            r@ == self.spec_type_str(),
    {
        match self.kind {
            ObjKind::Pod { .. } => "Pod",
            ObjKind::Node => "Node",
            ObjKind::Service => "Service",
            ObjKind::Deployment => "Deployment",
            ObjKind::ReplicaSet => "ReplicaSet",
            ObjKind::StatefulSet => "StatefulSet",
            ObjKind::ConfigMap => "ConfigMap",
            ObjKind::Secret => "Secret",
            ObjKind::Job => "Job",
        }
    }
}

/// The observed state of one container of a pod.
pub enum ContainerState {
    Waiting,
    Running,
    Terminated,
}

pub struct ContainerStatus {
    pub name: String,
    pub image: String,
    pub state: ContainerState,
    pub ready: bool,
    pub restart_count: u32,
}

/// A pod, reduced to the fields this core reads. Timestamps are seconds
/// since the epoch.
pub struct Pod {
    pub name: String,
    pub namespace: Option<String>,
    pub phase: String,
    pub deletion_timestamp: Option<i64>,
    pub creation_timestamp: Option<i64>,
    pub container_statuses: Option<Vec<ContainerStatus>>,
}

pub open spec fn spec_has_waiting(pod: Pod) -> bool {
    pod.container_statuses is Some && exists|i: int|
        0 <= i < (pod.container_statuses->0)@.len() && (#[trigger] (
        pod.container_statuses->0)@[i].state) is Waiting
}

/// Whether the pod has a container that is still waiting.
pub fn has_waiting(pod: &Pod) -> (r: bool)
    ensures
        r == spec_has_waiting(*pod),
{
    match &pod.container_statuses {
        Some(stats) => {
            let mut i: usize = 0;
            while i < stats.len()
                invariant
                    0 <= i <= stats@.len(),
                    pod.container_statuses == Some(*stats),
                    forall|j: int| 0 <= j < i ==> !((#[trigger] stats@[j].state) is Waiting),
                decreases stats@.len() - i,
            {
                if matches!(stats[i].state, ContainerState::Waiting) {
                    proof {
                        assert((pod.container_statuses->0)@[i as int].state is Waiting);
                    }
                    return true;
                }
                i += 1;
            }
            false
        },
        None => false,
    }
}

pub open spec fn spec_phase_str(pod: Pod) -> Seq<char> {
    if pod.deletion_timestamp is Some {
        "Terminating"@
    } else if spec_has_waiting(pod) {
        "ContainerCreating"@
    } else {
        pod.phase@
    }
}

/// The right thing to print for the phase of the given pod.
pub fn phase_str(pod: &Pod) -> (r: String)
    ensures
        r@ == spec_phase_str(*pod),
{
    if pod.deletion_timestamp.is_some() {
        let r = String::from_str("Terminating");
        r
    } else if has_waiting(pod) {
        let r = String::from_str("ContainerCreating");
        r
    } else {
        pod.phase.clone()
    }
}

/// How many of the statuses are ready.
pub open spec fn spec_ready_count(stats: Seq<ContainerStatus>) -> nat
    decreases stats.len(),
{
    if stats.len() == 0 {
        0
    } else {
        spec_ready_count(stats.drop_last()) + if stats.last().ready {
            1nat
        } else {
            0nat
        }
    }
}

pub proof fn lemma_ready_count_le_len(stats: Seq<ContainerStatus>)
    ensures
        spec_ready_count(stats) <= stats.len(),
    decreases stats.len(),
{
    if stats.len() > 0 {
        lemma_ready_count_le_len(stats.drop_last());
    }
}

/// The number of ready containers and of all containers, or `None` if
/// that cannot be determined.
pub fn ready_counts(pod: &Pod) -> (r: Option<(u32, u32)>)
    requires
        match pod.container_statuses {
            Some(stats) => stats@.len() <= u32::MAX,
            None => true,
        },
    ensures
        match pod.container_statuses {
            Some(stats) => r == Some(
                (spec_ready_count(stats@) as u32, stats@.len() as u32),
            ),
            None => r is None,
        },
{
    match &pod.container_statuses {
        Some(stats) => {
            let mut ready: u32 = 0;
            let mut i: usize = 0;
            while i < stats.len()
                invariant
                    0 <= i <= stats@.len(),
                    stats@.len() <= u32::MAX,
                    ready == spec_ready_count(stats@.take(i as int)),
                decreases stats@.len() - i,
            {
                proof {
                    lemma_ready_count_le_len(stats@.take(i as int));
                    assert(stats@.take(i + 1).drop_last() =~= stats@.take(i as int));
                }
                if stats[i].ready {
                    ready = ready + 1;
                }
                i += 1;
            }
            proof {
                assert(stats@.take(stats@.len() as int) =~= stats@);
            }
            Some((ready, stats.len() as u32))
        },
        None => None,
    }
}

/// The style code for a phase string: green for live phases, yellow while
/// containers are created, blue for success, red otherwise.
pub open spec fn spec_phase_style(p: Seq<char>) -> Seq<char> {
    if p == "Pending"@ || p == "Running"@ || p == "Active"@ {
        "Fg"@
    } else if p == "ContainerCreating"@ {
        "Fy"@
    } else if p == "Succeeded"@ {
        "Fb"@
    } else {
        "Fr"@
    }
}

pub fn phase_style(phase: &str) -> (r: &'static str)
    ensures
        r@ == spec_phase_style(phase@),
{
    phase_style_str(phase)
}

pub fn phase_style_str(phase: &str) -> (r: &'static str)
    ensures
        r@ == spec_phase_style(phase@),
{
    if str_eq(phase, "Pending") || str_eq(phase, "Running") || str_eq(phase, "Active") {
        "Fg"
    } else if str_eq(phase, "ContainerCreating") {
        "Fy"
    } else if str_eq(phase, "Succeeded") {
        "Fb"
    } else {
        "Fr"
    }
}

/// The warning printed when a pod has several containers and none was
/// named explicitly.
pub open spec fn multi_container_warning() -> Seq<char> {
    "Pod has multiple containers, picking the first one\n"@
}

/// Pick the container logs and exec default to: the first one declared,
/// with a warning when there were several to choose from.
pub fn pick_container<'a, W: OutputSink>(obj: &'a SelectedObject, writer: &mut W) -> (r: &'a str)
    requires
        obj.kind matches ObjKind::Pod { containers } && containers@.len() > 0,
    ensures
        obj.kind matches ObjKind::Pod { containers } ==> {
            &&& r@ == containers@[0]@
            &&& containers@.len() > 1 ==> final(writer).content() == old(writer).content()
                + multi_container_warning()
            &&& containers@.len() <= 1 ==> final(writer).content() == old(writer).content()
        },
{
    match &obj.kind {
        ObjKind::Pod { containers } => {
            if containers.len() > 1 {
                writer.write_str("Pod has multiple containers, picking the first one\n");
            }
            containers[0].as_str()
        },
        _ => vstd::pervasive::unreached(),
    }
}

/// One address reported for a load balancer of a service.
pub struct IngressEntry {
    pub hostname: Option<String>,
    pub ip: Option<String>,
}

pub struct ServicePort {
    pub port: u32,
    pub node_port: Option<u32>,
    pub protocol: String,
}

/// A service, reduced to the fields this core reads.
pub struct Service {
    pub name: String,
    pub namespace: Option<String>,
    pub cluster_ip: Option<String>,
    pub external_ips: Option<Vec<String>>,
    pub load_balancer_ingress: Option<Vec<IngressEntry>>,
    pub ports: Option<Vec<ServicePort>>,
    pub creation_timestamp: Option<i64>,
}

pub open spec fn spec_ingress_str(e: IngressEntry) -> Seq<char> {
    if e.hostname is Some {
        e.hostname->0@
    } else if e.ip is Some {
        e.ip->0@
    } else {
        Seq::empty()
    }
}

/// What the external-IP column shows for a service: its external IPs, or
/// the load-balancer addresses, joined and shortened to 18 characters.
pub open spec fn spec_external_ip(svc: Service) -> Seq<char> {
    if svc.external_ips is Some {
        shortened(joined((svc.external_ips->0).deep_view(), ", "@), 18)
    } else if svc.load_balancer_ingress is Some {
        shortened(
            joined(
                (svc.load_balancer_ingress->0)@.map_values(
                    |e: IngressEntry| spec_ingress_str(e),
                ),
                ", "@,
            ),
            18,
        )
    } else {
        "<none>"@
    }
}

pub fn get_external_ip(service: &Service) -> (r: String)
    ensures
        r@ == spec_external_ip(*service),
{
    proof {
        reveal_strlit(", ");
    }
    if let Some(eips) = &service.external_ips {
        let joined_ips = join_with(eips, ", ");
        shorten_to(joined_ips, 18)
    } else if let Some(entries) = &service.load_balancer_ingress {
        let mut strs: Vec<String> = Vec::new();
        let mut i: usize = 0;
        while i < entries.len()
            invariant
                0 <= i <= entries@.len(),
                strs@.len() == i,
                forall|j: int| 0 <= j < i ==> (#[trigger] strs@[j])@ == spec_ingress_str(
                    entries@[j],
                ),
            decreases entries@.len() - i,
        {
            let s: String = if let Some(h) = &entries[i].hostname {
                h.clone()
            } else if let Some(ip) = &entries[i].ip {
                ip.clone()
            } else {
                String::new()
            };
            proof {
                assert(s@ == spec_ingress_str(entries@[i as int]));
            }
            strs.push(s);
            i += 1;
        }
        proof {
            assert(strs.deep_view() =~= entries@.map_values(
                |e: IngressEntry| spec_ingress_str(e),
            ));
        }
        let joined_strs = join_with(&strs, ", ");
        shorten_to(joined_strs, 18)
    } else {
        let r = String::from_str("<none>");
        r
    }
}

/// What the ports column shows for one service port:
/// `port:nodePort/protocol`, or `port/protocol` without a node port.
pub open spec fn spec_port_str(p: ServicePort) -> Seq<char> {
    if p.node_port is Some {
        dec_str(p.port as nat) + seq![':'] + dec_str(p.node_port->0 as nat) + seq!['/']
            + p.protocol@
    } else {
        dec_str(p.port as nat) + seq!['/'] + p.protocol@
    }
}

pub open spec fn spec_get_ports(svc: Service) -> Seq<char> {
    if svc.ports is Some {
        joined((svc.ports->0)@.map_values(|p: ServicePort| spec_port_str(p)), seq![','])
    } else {
        "<none>"@
    }
}

pub fn get_ports(service: &Service) -> (r: String)
    ensures
        r@ == spec_get_ports(*service),
{
    if let Some(ports) = &service.ports {
        let mut strs: Vec<String> = Vec::new();
        let mut i: usize = 0;
        while i < ports.len()
            invariant
                0 <= i <= ports@.len(),
                strs@.len() == i,
                forall|j: int| 0 <= j < i ==> (#[trigger] strs@[j])@ == spec_port_str(
                    ports@[j],
                ),
            decreases ports@.len() - i,
        {
            let p = &ports[i];
            let mut s = u64_to_string(p.port as u64);
            if let Some(np) = p.node_port {
                crate::strings::push_char(&mut s, ':');
                let nps = u64_to_string(np as u64);
                s.append(nps.as_str());
            }
            crate::strings::push_char(&mut s, '/');
            s.append(p.protocol.as_str());
            proof {
                assert(s@ == spec_port_str(ports@[i as int]));
            }
            strs.push(s);
            i += 1;
        }
        proof {
            assert(strs.deep_view() =~= ports@.map_values(|p: ServicePort| spec_port_str(p)));
        }
        let mut sep = String::new();
        crate::strings::push_char(&mut sep, ',');
        join_with(&strs, sep.as_str())
    } else {
        let r = String::from_str("<none>");
        r
    }
}

/// The restarts of a pod's containers, summed.
pub open spec fn spec_restart_total(ss: Seq<ContainerStatus>) -> nat
    decreases ss.len(),
{
    if ss.len() == 0 {
        0
    } else {
        (spec_restart_total(ss.drop_last()) + ss.last().restart_count) as nat
    }
}

/// The total restart count of a pod; with unknown statuses it is zero.
pub fn restart_total(pod: &Pod) -> (r: u64)
    requires
        match pod.container_statuses {
            Some(ss) => ss@.len() <= u32::MAX,
            None => true,
        },
    ensures
        r == match pod.container_statuses {
            Some(ss) => spec_restart_total(ss@),
            None => 0nat,
        },
{
    match &pod.container_statuses {
        Some(ss) => {
            let mut sum: u64 = 0;
            let mut i: usize = 0;
            while i < ss.len()
                invariant
                    0 <= i <= ss@.len(),
                    ss@.len() <= u32::MAX,
                    pod.container_statuses == Some(*ss),
                    sum == spec_restart_total(ss@.take(i as int)),
                    sum <= i * (u32::MAX as int),
                decreases ss@.len() - i,
            {
                proof {
                    assert(ss@.take(i + 1).drop_last() =~= ss@.take(i as int));
                    assert(ss@.take(i + 1).last() == ss@[i as int]);
                    assert((i + 1) * (u32::MAX as int) == i * (u32::MAX as int) + u32::MAX)
                        by (nonlinear_arith);
                    assert(i * (u32::MAX as int) + u32::MAX < u64::MAX) by (nonlinear_arith)
                        requires
                            0 <= i < u32::MAX,
                    ;
                }
                sum = sum + ss[i].restart_count as u64;
                i += 1;
            }
            proof {
                assert(ss@.take(ss@.len() as int) =~= ss@);
            }
            sum
        },
        None => 0,
    }
}

/// One volume mounted into a container.
pub struct VolumeMount {
    pub name: String,
    pub mount_path: String,
    pub sub_path: Option<String>,
    pub read_only: Option<bool>,
}

/// A container as declared in the pod's specification.
pub struct ContainerSpec {
    pub name: String,
    pub volume_mounts: Option<Vec<VolumeMount>>,
}

pub open spec fn spec_state_str(s: ContainerState) -> Seq<char> {
    match s {
        ContainerState::Waiting => "Waiting"@,
        ContainerState::Running => "Running"@,
        ContainerState::Terminated => "Terminated"@,
    }
}

pub open spec fn spec_bool_str(b: bool) -> Seq<char> {
    if b {
        "true"@
    } else {
        "false"@
    }
}

/// One volume-mount entry of the container description.
pub open spec fn spec_vol_str(v: VolumeMount) -> Seq<char> {
    "   "@ + v.name@ + "\n    Path:\t"@ + v.mount_path@ + "\n    Sub-Path:\t"@ + (
    match v.sub_path {
        Option::Some(s) => s@,
        Option::None => Seq::<char>::empty(),
    }) + "\n    Read-Only:\t"@ + spec_bool_str(
        (match v.read_only {
            Option::Some(b) => b,
            Option::None => false,
        }),
    ) + "\n"@
}

pub open spec fn spec_vols_str(vs: Seq<VolumeMount>) -> Seq<char>
    decreases vs.len(),
{
    if vs.len() == 0 {
        Seq::empty()
    } else {
        spec_vols_str(vs.drop_last()) + spec_vol_str(vs.last())
    }
}

/// The first declared container with the given name.
pub open spec fn spec_find_container(conts: Seq<ContainerSpec>, name: Seq<char>)
    -> Option<ContainerSpec>
    decreases conts.len(),
{
    if conts.len() == 0 {
        Option::None
    } else if conts[0].name@ == name {
        Option::Some(conts[0])
    } else {
        spec_find_container(conts.drop_first(), name)
    }
}

pub proof fn lemma_find_container_at(conts: Seq<ContainerSpec>, name: Seq<char>, i: int)
    requires
        0 <= i <= conts.len(),
        forall|j: int| 0 <= j < i ==> (#[trigger] conts[j]).name@ != name,
        i < conts.len() ==> conts[i].name@ == name,
    ensures
        spec_find_container(conts, name) == (if i < conts.len() {
            Option::Some(conts[i])
        } else {
            Option::<ContainerSpec>::None
        }),
    decreases conts.len(),
{
    if conts.len() > 0 && conts[0].name@ != name {
        lemma_find_container_at(conts.drop_first(), name, i - 1);
    }
}

/// The volumes part of one container's description: its mounts, a note
/// that it has none, or nothing when the container is not declared.
pub open spec fn spec_volumes_part(conts: Seq<ContainerSpec>, name: Seq<char>) -> Seq<char> {
    match spec_find_container(conts, name) {
        Option::Some(cs) => match cs.volume_mounts {
            Option::Some(vs) => "  Volumes:\n"@ + spec_vols_str(vs@),
            Option::None => "  No Volumes\n"@,
        },
        Option::None => Seq::empty(),
    }
}

/// One container's description: name, image, state, readiness and its
/// volumes.
pub open spec fn spec_container_entry(cs: ContainerStatus, conts: Seq<ContainerSpec>)
    -> Seq<char> {
    "Name:\t"@ + cs.name@ + "\n  Image:\t"@ + cs.image@ + "\n  State:\t"@ + spec_state_str(
        cs.state,
    ) + "\n  Ready:\t"@ + spec_bool_str(cs.ready) + "\n"@ + spec_volumes_part(conts, cs.name@)
        + "\n"@
}

pub open spec fn spec_container_entries(
    ss: Seq<ContainerStatus>,
    conts: Seq<ContainerSpec>,
) -> Seq<char>
    decreases ss.len(),
{
    if ss.len() == 0 {
        Seq::empty()
    } else {
        spec_container_entries(ss.drop_last(), conts) + spec_container_entry(ss.last(), conts)
    }
}

/// What the container listing shows for a pod.
pub open spec fn spec_containers_string(pod: Pod, conts: Seq<ContainerSpec>) -> Seq<char> {
    match pod.container_statuses {
        Option::Some(ss) => spec_container_entries(ss@, conts),
        Option::None => "<No Containers>\n"@,
    }
}

fn find_container_spec<'a>(conts: &'a Vec<ContainerSpec>, name: &str) -> (r: Option<
    &'a ContainerSpec,
>)
    ensures
        match r {
            Some(cs) => spec_find_container(conts@, name@) == Some(*cs),
            None => spec_find_container(conts@, name@) is None,
        },
{
    let mut i: usize = 0;
    while i < conts.len()
        invariant
            0 <= i <= conts@.len(),
            forall|j: int| 0 <= j < i ==> (#[trigger] conts@[j]).name@ != name@,
        decreases conts@.len() - i,
    {
        if str_eq(conts[i].name.as_str(), name) {
            proof {
                lemma_find_container_at(conts@, name@, i as int);
            }
            return Some(&conts[i]);
        }
        i += 1;
    }
    proof {
        lemma_find_container_at(conts@, name@, conts@.len() as int);
    }
    None
}

/// One volume-mount entry, rendered.
fn vol_string(v: &VolumeMount) -> (r: String)
    ensures
        r@ == spec_vol_str(*v),
{
    let mut r = String::from_str("   ");
    r.append(v.name.as_str());
    r.append("\n    Path:\t");
    r.append(v.mount_path.as_str());
    r.append("\n    Sub-Path:\t");
    match &v.sub_path {
        Some(sp) => r.append(sp.as_str()),
        None => (),
    }
    r.append("\n    Read-Only:\t");
    let ro = match v.read_only {
        Some(b) => b,
        None => false,
    };
    if ro {
        r.append("true");
    } else {
        r.append("false");
    }
    r.append("\n");
    r
}

/// The volumes part of one container's description.
fn volumes_part_string(conts: &Vec<ContainerSpec>, name: &str) -> (r: String)
    ensures
        r@ == spec_volumes_part(conts@, name@),
{
    match find_container_spec(conts, name) {
        Some(spec_entry) => match &spec_entry.volume_mounts {
            Some(vols) => {
                let mut r = String::from_str("  Volumes:\n");
                let mut k: usize = 0;
                while k < vols.len()
                    invariant
                        0 <= k <= vols@.len(),
                        spec_find_container(conts@, name@) matches Some(fc)
                            && fc.volume_mounts == Some(*vols),
                        r@ == "  Volumes:\n"@ + spec_vols_str(vols@.take(k as int)),
                    decreases vols@.len() - k,
                {
                    let vs = vol_string(&vols[k]);
                    r.append(vs.as_str());
                    proof {
                        assert(vols@.take(k + 1).drop_last() =~= vols@.take(k as int));
                        assert(vols@.take(k + 1).last() == vols@[k as int]);
                    }
                    k += 1;
                }
                proof {
                    assert(vols@.take(vols@.len() as int) =~= vols@);
                }
                r
            },
            None => {
                let r = String::from_str("  No Volumes\n");
                r
            },
        },
        None => String::new(),
    }
}

/// One container's description, rendered.
fn container_entry_string(cs: &ContainerStatus, conts: &Vec<ContainerSpec>) -> (r: String)
    ensures
        r@ == spec_container_entry(*cs, conts@),
{
    let mut r = String::from_str("Name:\t");
    r.append(cs.name.as_str());
    r.append("\n  Image:\t");
    r.append(cs.image.as_str());
    r.append("\n  State:\t");
    match cs.state {
        ContainerState::Waiting => r.append("Waiting"),
        ContainerState::Running => r.append("Running"),
        ContainerState::Terminated => r.append("Terminated"),
    }
    r.append("\n  Ready:\t");
    if cs.ready {
        r.append("true");
    } else {
        r.append("false");
    }
    r.append("\n");
    let vp = volumes_part_string(conts, cs.name.as_str());
    r.append(vp.as_str());
    r.append("\n");
    r
}

/// The description of a pod's containers: each status with its image,
/// state and readiness, and the volumes of its declared counterpart.
pub fn containers_string(pod: &Pod, conts: &Vec<ContainerSpec>) -> (r: String)
    ensures
        r@ == spec_containers_string(*pod, conts@),
{
    match &pod.container_statuses {
        None => {
            let r = String::from_str("<No Containers>\n");
            r
        },
        Some(ss) => {
            let mut r = String::new();
            let mut i: usize = 0;
            while i < ss.len()
                invariant
                    0 <= i <= ss@.len(),
                    pod.container_statuses == Some(*ss),
                    r@ == spec_container_entries(ss@.take(i as int), conts@),
                decreases ss@.len() - i,
            {
                let entry = container_entry_string(&ss[i], conts);
                r.append(entry.as_str());
                proof {
                    assert(ss@.take(i + 1).drop_last() =~= ss@.take(i as int));
                    assert(ss@.take(i + 1).last() == ss@[i as int]);
                }
                i += 1;
            }
            proof {
                assert(ss@.take(ss@.len() as int) =~= ss@);
            }
            r
        },
    }
}

/// An event reported for an object. The timestamp is seconds since the
/// epoch.
pub struct Event {
    pub last_timestamp: Option<i64>,
    pub message: String,
    pub reason: String,
    pub count: Option<u32>,
}

/// Events order by their last timestamp; an absent timestamp sorts first.
pub open spec fn spec_event_cmp(e1: Event, e2: Event) -> core::cmp::Ordering {
    match (e1.last_timestamp, e2.last_timestamp) {
        (Option::None, Option::None) => core::cmp::Ordering::Equal,
        (Option::None, Option::Some(_)) => core::cmp::Ordering::Less,
        (Option::Some(_), Option::None) => core::cmp::Ordering::Greater,
        (Option::Some(t1), Option::Some(t2)) => if t1 < t2 {
            core::cmp::Ordering::Less
        } else if t1 > t2 {
            core::cmp::Ordering::Greater
        } else {
            core::cmp::Ordering::Equal
        },
    }
}

pub fn event_cmp(e1: &Event, e2: &Event) -> (r: core::cmp::Ordering)
    ensures
        r == spec_event_cmp(*e1, *e2),
{
    match (&e1.last_timestamp, &e2.last_timestamp) {
        (Option::None, Option::None) => core::cmp::Ordering::Equal,
        (Option::None, Option::Some(_)) => core::cmp::Ordering::Less,
        (Option::Some(_), Option::None) => core::cmp::Ordering::Greater,
        (Option::Some(t1), Option::Some(t2)) => {
            if *t1 < *t2 {
                core::cmp::Ordering::Less
            } else if *t1 > *t2 {
                core::cmp::Ordering::Greater
            } else {
                core::cmp::Ordering::Equal
            }
        },
    }
}

/// One event as printed: timestamp display, message, count and reason.
/// `ts_display` is the rendered local time of the event, or `unknown`.
pub fn format_event(event: &Event, ts_display: &str) -> (r: String)
    ensures
        r@ == ts_display@ + " - "@ + event.message@ + "\n count: "@ + dec_str(
            (match event.count {
                Some(c) => c as nat,
                None => 1nat,
            }),
        ) + "\n reason: "@ + event.reason@ + "\n"@,
{
    let mut r = ts_display.to_owned();
    r.append(" - ");
    r.append(event.message.as_str());
    r.append("\n count: ");
    let count: u32 = match event.count {
        Some(c) => c,
        None => 1,
    };
    let cs = u64_to_string(count as u64);
    r.append(cs.as_str());
    r.append("\n reason: ");
    r.append(event.reason.as_str());
    r.append("\n");
    r
}

} // verus!
