//! The port-forward supervisor: validates port specifications, tracks
//! live forwards in an index-addressable list, keeps each forward's
//! captured output, and removes forwards when they are stopped.
//!
//! The forwarding process itself lives outside this core; each entry
//! carries a stable internal key so the caller can tie an entry to the
//! process it spawned. An index into the live list is only valid until
//! the next mutation.

use vstd::prelude::*;

use crate::errors::ForwardError;
use crate::strings::{first_pos, find_char, is_u32_literal, parse_u32_literal};

verus! {

/// Whether one port specification is well-formed: `[local]:[remote]`,
/// where either side may be empty and a non-empty side is an unsigned
/// 32-bit number; or a single port with no colon.
pub open spec fn port_spec_valid(s: Seq<char>) -> bool {
    let p = first_pos(s, ':');
    if p == s.len() {
        is_u32_literal(s)
    } else {
        let a = s.take(p);
        let b = s.skip(p + 1);
        (a.len() == 0 || is_u32_literal(a)) && (b.len() == 0 || is_u32_literal(b))
    }
}

/// Validate one port specification.
pub fn validate_port_spec(s: &str) -> (r: bool)
    ensures
        r == port_spec_valid(s@),
{
    let len = s.unicode_len();
    let p = find_char(s, ':');
    if p == len {
        parse_u32_literal(s).is_some()
    } else {
        let a = s.substring_char(0, p);
        let b = s.substring_char(p + 1, len);
        proof {
            assert(a@ =~= s@.take(first_pos(s@, ':')));
            assert(b@ =~= s@.skip(first_pos(s@, ':') + 1));
        }
        let a_ok = a.unicode_len() == 0 || parse_u32_literal(a).is_some();
        let b_ok = b.unicode_len() == 0 || parse_u32_literal(b).is_some();
        a_ok && b_ok
    }
}

/// Whether every port specification in the list is well-formed.
pub open spec fn port_specs_valid(specs: Seq<Seq<char>>) -> bool {
    forall|k: int| 0 <= k < specs.len() ==> port_spec_valid(#[trigger] specs[k])
}

/// Validate a list of port specifications.
pub fn validate_port_specs(specs: &Vec<String>) -> (r: bool)
    ensures
        r == port_specs_valid(specs.deep_view()),
{
    let mut k: usize = 0;
    while k < specs.len()
        invariant
            0 <= k <= specs@.len(),
            specs.deep_view().len() == specs@.len(),
            forall|j: int| 0 <= j < k ==> port_spec_valid(#[trigger] specs.deep_view()[j]),
        decreases specs@.len() - k,
    {
        if !validate_port_spec(specs[k].as_str()) {
            proof {
                assert(!port_spec_valid(specs.deep_view()[k as int]));
            }
            return false;
        }
        k += 1;
    }
    true
}

/// One live port forward: a stable internal key, the target pod, the
/// requested port mappings, and the output captured from the forwarding
/// process so far.
pub struct PortForward {
    pub id: u64,
    pub pod: String,
    pub ports: Vec<String>,
    pub output: String,
}

/// The mathematical value of a [`PortForward`].
pub ghost struct ForwardView {
    pub id: u64,
    pub pod: Seq<char>,
    pub ports: Seq<Seq<char>>,
    pub output: Seq<char>,
}

impl View for PortForward {
    type V = ForwardView;

    open spec fn view(&self) -> ForwardView {
        ForwardView {
            id: self.id,
            pod: self.pod@,
            ports: self.ports.deep_view(),
            output: self.output@,
        }
    }
}

/// The mathematical value of a [`ForwardRegistry`].
pub ghost struct RegistryView {
    pub forwards: Seq<ForwardView>,
    pub next_id: u64,
}

/// The supervisor's book-keeping: the live forwards in start order, and
/// the next internal key to hand out.
pub struct ForwardRegistry {
    pub forwards: Vec<PortForward>,
    pub next_id: u64,
}

impl View for ForwardRegistry {
    type V = RegistryView;

    open spec fn view(&self) -> RegistryView {
        RegistryView {
            forwards: self.forwards@.map_values(|f: PortForward| f@),
            next_id: self.next_id,
        }
    }
}

/// Registering appends one fresh entry with no output yet and uses up
/// one internal key.
pub open spec fn spec_register(v: RegistryView, pod: Seq<char>, ports: Seq<Seq<char>>)
    -> RegistryView {
    RegistryView {
        forwards: v.forwards.push(
            ForwardView { id: v.next_id, pod: pod, ports: ports, output: Seq::empty() },
        ),
        next_id: (v.next_id + 1) as u64,
    }
}

/// Stopping removes exactly the entry at `idx`; later entries shift down
/// by one.
pub open spec fn spec_stop(v: RegistryView, idx: int) -> RegistryView {
    RegistryView { forwards: v.forwards.remove(idx), next_id: v.next_id }
}

/// What `list` shows: for each live forward, its current index, pod and
/// ports.
pub open spec fn listing(v: RegistryView) -> Seq<(int, Seq<char>, Seq<Seq<char>>)> {
    Seq::new(v.forwards.len(), |i: int| (i, v.forwards[i].pod, v.forwards[i].ports))
}

impl ForwardRegistry {
    /// Internal keys are unique and below the next key to hand out.
    pub open spec fn wf(&self) -> bool {
        &&& forall|i: int|
            0 <= i < self@.forwards.len() ==> (#[trigger] self@.forwards[i].id) < self.next_id
        &&& forall|i: int, j: int|
            0 <= i < j < self@.forwards.len() ==> (#[trigger] self@.forwards[i].id) != (
            #[trigger] self@.forwards[j].id)
    }

    pub fn new() -> (r: ForwardRegistry)
        ensures
            r.wf(),
            r@.forwards.len() == 0,
            r@.next_id == 0,
    {
        ForwardRegistry { forwards: Vec::new(), next_id: 0 }
    }

    /// How many forwards are live.
    pub fn len(&self) -> (r: usize)
        ensures
            r == self@.forwards.len(),
    {
        self.forwards.len()
    }

    /// Register a new forward for `pod` with the given port mappings.
    /// Fails with `InvalidPortSpec`, changing nothing, when one of the
    /// specifications is malformed; otherwise appends the entry at the
    /// end of the live list and returns its index and its internal key.
    pub fn register(&mut self, pod: String, ports: Vec<String>) -> (r: Result<
        (usize, u64),
        ForwardError,
    >)
        requires
            old(self).wf(),
            old(self).next_id < u64::MAX,
        ensures
            final(self).wf(),
            match r {
                Ok((idx, id)) => {
                    &&& port_specs_valid(ports.deep_view())
                    &&& idx == old(self)@.forwards.len()
                    &&& id == old(self)@.next_id
                    &&& final(self)@ == spec_register(old(self)@, pod@, ports.deep_view())
                },
                Err(e) => {
                    &&& e is InvalidPortSpec
                    &&& !port_specs_valid(ports.deep_view())
                    &&& *final(self) == *old(self)
                },
            },
    {
        if !validate_port_specs(&ports) {
            return Err(ForwardError::InvalidPortSpec);
        }
        let idx = self.forwards.len();
        let id = self.next_id;
        let pf = PortForward { id, pod, ports, output: String::new() };
        proof {
            assert(pf@.output =~= Seq::<char>::empty());
        }
        self.forwards.push(pf);
        self.next_id = id + 1;
        proof {
            assert(self@.forwards =~= old(self)@.forwards.push(pf@));
            assert(final(self)@ == spec_register(old(self)@, pf.pod@, pf.ports.deep_view()));
        }
        Ok((idx, id))
    }

    /// The live forward at `idx`, if that index is in bounds.
    pub fn get(&self, idx: usize) -> (r: Option<&PortForward>)
        ensures
            match r {
                Some(pf) => idx < self@.forwards.len() && pf@ == self@.forwards[idx as int],
                None => idx >= self@.forwards.len(),
            },
    {
        if idx < self.forwards.len() {
            Some(&self.forwards[idx])
        } else {
            None
        }
    }

    /// The captured output of the forward at `idx`, if that index is in
    /// bounds.
    pub fn output_of(&self, idx: usize) -> (r: Option<&str>)
        ensures
            match r {
                Some(out) => idx < self@.forwards.len() && out@ == self@.forwards[
                    idx as int
                ].output,
                None => idx >= self@.forwards.len(),
            },
    {
        if idx < self.forwards.len() {
            Some(self.forwards[idx].output.as_str())
        } else {
            None
        }
    }

    /// Append a chunk of captured process output to the forward at `idx`.
    /// Reports `NotFound`, changing nothing, when the index is stale.
    pub fn append_output(&mut self, idx: usize, chunk: &str) -> (r: Result<(), ForwardError>)
        requires
            old(self).wf(),
        ensures
            final(self).wf(),
            match r {
                Ok(()) => {
                    &&& idx < old(self)@.forwards.len()
                    &&& final(self)@.forwards.len() == old(self)@.forwards.len()
                    &&& final(self)@.forwards[idx as int].output == old(self)@.forwards[
                        idx as int
                    ].output + chunk@
                    &&& final(self)@.forwards[idx as int].id == old(self)@.forwards[idx as int].id
                    &&& final(self)@.forwards[idx as int].pod == old(self)@.forwards[
                        idx as int
                    ].pod
                    &&& final(self)@.forwards[idx as int].ports == old(self)@.forwards[
                        idx as int
                    ].ports
                    &&& forall|i: int|
                        0 <= i < old(self)@.forwards.len() && i != idx ==> final(self)@.forwards[i]
                            == old(self)@.forwards[i]
                    &&& final(self)@.next_id == old(self)@.next_id
                },
                Err(e) => {
                    &&& e is NotFound
                    &&& idx >= old(self)@.forwards.len()
                    &&& *final(self) == *old(self)
                },
            },
    {
        if idx >= self.forwards.len() {
            return Err(ForwardError::NotFound);
        }
        let pf = &mut self.forwards[idx];
        pf.output.append(chunk);
        proof {
            assert forall|i: int| 0 <= i < self@.forwards.len() implies (
            #[trigger] self@.forwards[i].id) < self.next_id by {
                if i != idx {
                    assert(self@.forwards[i] == old(self)@.forwards[i]);
                }
                assert(old(self)@.forwards[i].id < old(self).next_id);
            }
            assert forall|i: int, j: int|
                0 <= i < j < self@.forwards.len() implies (#[trigger] self@.forwards[i].id) != (
            #[trigger] self@.forwards[j].id) by {
                if i != idx {
                    assert(self@.forwards[i] == old(self)@.forwards[i]);
                }
                if j != idx {
                    assert(self@.forwards[j] == old(self)@.forwards[j]);
                }
                assert(old(self)@.forwards[i].id != old(self)@.forwards[j].id);
            }
        }
        Ok(())
    }

    /// Stop the forward at `idx`: remove exactly that entry, shifting
    /// later indices down by one, and return the internal key of the
    /// removed entry so its process can be terminated. Reports
    /// `NotFound`, changing nothing, when the index is stale.
    pub fn stop(&mut self, idx: usize) -> (r: Result<u64, ForwardError>)
        requires
            old(self).wf(),
        ensures
            final(self).wf(),
            match r {
                Ok(id) => {
                    &&& idx < old(self)@.forwards.len()
                    &&& id == old(self)@.forwards[idx as int].id
                    &&& final(self)@ == spec_stop(old(self)@, idx as int)
                },
                Err(e) => {
                    &&& e is NotFound
                    &&& idx >= old(self)@.forwards.len()
                    &&& *final(self) == *old(self)
                },
            },
    {
        if idx >= self.forwards.len() {
            return Err(ForwardError::NotFound);
        }
        let pf = self.forwards.remove(idx);
        proof {
            assert(self@.forwards =~= old(self)@.forwards.remove(idx as int));
            assert(final(self)@ == spec_stop(old(self)@, idx as int));
        }
        Ok(pf.id)
    }

    /// The live forwards: for each, its current index, pod and ports.
    /// The index is only valid until the next mutation.
    pub fn list(&self) -> (r: Vec<(usize, String, Vec<String>)>)
        ensures
            r@.len() == listing(self@).len(),
            forall|i: int|
                0 <= i < r@.len() ==> {
                    &&& (#[trigger] r@[i]).0 == listing(self@)[i].0
                    &&& r@[i].1@ == listing(self@)[i].1
                    &&& r@[i].2.deep_view() == listing(self@)[i].2
                },
    {
        let mut out: Vec<(usize, String, Vec<String>)> = Vec::new();
        let mut i: usize = 0;
        while i < self.forwards.len()
            invariant
                0 <= i <= self@.forwards.len(),
                self@.forwards.len() == self.forwards@.len(),
                out@.len() == i,
                forall|j: int|
                    0 <= j < i ==> {
                        &&& (#[trigger] out@[j]).0 == j
                        &&& out@[j].1@ == self@.forwards[j].pod
                        &&& out@[j].2.deep_view() == self@.forwards[j].ports
                    },
            decreases self.forwards@.len() - i,
        {
            let pf = &self.forwards[i];
            let pod = pf.pod.clone();
            let mut ports: Vec<String> = Vec::new();
            let mut k: usize = 0;
            while k < pf.ports.len()
                invariant
                    0 <= k <= pf.ports@.len(),
                    ports@.len() == k,
                    forall|q: int| 0 <= q < k ==> (#[trigger] ports@[q])@ == pf.ports@[q]@,
                decreases pf.ports@.len() - k,
            {
                ports.push(pf.ports[k].clone());
                k += 1;
            }
            proof {
                assert(ports.deep_view() =~= pf.ports.deep_view());
            }
            out.push((i, pod, ports));
            i += 1;
        }
        out
    }
}

/// The lifecycle a forward goes through: registering then listing shows
/// one new entry, at the returned index, whose pod and ports are exactly
/// those requested, with every earlier entry listed unchanged before it;
/// stopping that index removes exactly that entry, leaving the registry's
/// forwards as they were before the registration.
pub proof fn lemma_forward_lifecycle(v: RegistryView, pod: Seq<char>, ports: Seq<Seq<char>>)
    ensures
        listing(spec_register(v, pod, ports)).len() == v.forwards.len() + 1,
        listing(spec_register(v, pod, ports))[v.forwards.len() as int] == (
            v.forwards.len() as int,
            pod,
            ports,
        ),
        forall|i: int|
            0 <= i < v.forwards.len() ==> listing(spec_register(v, pod, ports))[i] == #[trigger]
                listing(v)[i],
        spec_stop(spec_register(v, pod, ports), v.forwards.len() as int).forwards == v.forwards,
{
    let after = spec_register(v, pod, ports);
    assert(after.forwards.len() == v.forwards.len() + 1);
    assert(listing(after)[v.forwards.len() as int] == (v.forwards.len() as int, pod, ports));
    assert(spec_stop(after, v.forwards.len() as int).forwards =~= v.forwards);
}

} // verus!
