//! The session: current context and namespace, the selection and the
//! candidate list left behind by the last listing, configuration strings,
//! and the discipline for applying one action to every selected object.

use vstd::prelude::*;

use crate::errors::SelectionError;
use crate::forward::ForwardRegistry;
use crate::objects::{ObjView, SelectedObject};
use crate::ranges::{expr_valid, range_indices, resolve_indices};
use crate::sink::OutputSink;

verus! {

/// The implicit target of object-scoped commands: nothing, one object,
/// or an ordered range of objects.
pub enum Selection {
    Empty,
    Single(SelectedObject),
    Range(Vec<SelectedObject>),
}

/// The mathematical value of a [`Selection`].
pub ghost enum SelectionView {
    Empty,
    Single(ObjView),
    Range(Seq<ObjView>),
}

impl View for Selection {
    type V = SelectionView;

    open spec fn view(&self) -> SelectionView {
        match self {
            Selection::Empty => SelectionView::Empty,
            Selection::Single(obj) => SelectionView::Single(obj@),
            Selection::Range(objs) => SelectionView::Range(
                objs@.map_values(|o: SelectedObject| o@),
            ),
        }
    }
}

impl Selection {
    /// A range is never empty; `Empty` is the only empty selection.
    pub open spec fn wf(&self) -> bool {
        self matches Selection::Range(objs) ==> objs@.len() > 0
    }
}

/// One action applied to every selected object in turn. What an
/// invocation writes to the sink is a function of the object alone,
/// declared by `output`; the action may update its own state freely.
pub trait SelectionAction: Sized {
    /// What one invocation writes for the given object.
    spec fn output(obj: ObjView) -> Seq<char>;

    fn run<W: OutputSink>(&mut self, obj: &SelectedObject, sink: &mut W)
        ensures
            final(sink).content() == old(sink).content() + Self::output(obj@),
    ;
}

/// The output of applying an action to each object in order, with the
/// separator between each adjacent pair — never before the first object
/// nor after the last.
pub open spec fn interleaved<A: SelectionAction>(objs: Seq<ObjView>, sep: Seq<char>) -> Seq<char>
    decreases objs.len(),
{
    if objs.len() == 0 {
        Seq::empty()
    } else if objs.len() == 1 {
        A::output(objs[0])
    } else {
        interleaved::<A>(objs.drop_last(), sep) + sep + A::output(objs.last())
    }
}

/// Applying an action to a range of three objects invokes it on each in
/// order, and writes the separator exactly twice: between the first and
/// second outputs and between the second and third — never before the
/// first nor after the last.
pub proof fn lemma_apply_to_three<A: SelectionAction>(
    a: ObjView,
    b: ObjView,
    c: ObjView,
    sep: Seq<char>,
)
    ensures
        interleaved::<A>(seq![a, b, c], sep) == A::output(a) + sep + A::output(b) + sep
            + A::output(c),
{
    let s3 = seq![a, b, c];
    let s2 = seq![a, b];
    let s1 = seq![a];
    assert(s3.drop_last() =~= s2);
    assert(s2.drop_last() =~= s1);
    assert(interleaved::<A>(s1, sep) == A::output(a));
    assert(interleaved::<A>(s2, sep) == A::output(a) + sep + A::output(b));
    assert(interleaved::<A>(s3, sep) == (A::output(a) + sep + A::output(b)) + sep + A::output(c));
    assert((A::output(a) + sep + A::output(b)) + sep + A::output(c) =~= A::output(a) + sep
        + A::output(b) + sep + A::output(c));
}

/// The view of an optional separator: the separator itself, or nothing.
pub open spec fn separator_view(separator: Option<&str>) -> Seq<char> {
    match separator {
        Option::Some(s) => s@,
        Option::None => Seq::empty(),
    }
}

/// Process-lifetime state of one interactive session.
pub struct Session {
    /// The name of the current context, if one was set.
    pub context: Option<String>,
    /// The namespace scoping listing commands, if one was set.
    pub namespace: Option<String>,
    /// The implicit target of the next object-scoped command.
    pub selection: Selection,
    /// The ordered result of the most recent listing command.
    pub last_objects: Vec<SelectedObject>,
    /// The editor command configured for this session, if any.
    pub editor: Option<String>,
    /// The terminal command configured for this session, if any.
    pub terminal: Option<String>,
    /// Written between the outputs of a range iteration.
    pub range_separator: String,
    /// The live port forwards this session supervises.
    pub forwards: ForwardRegistry,
}

/// The configuration strings and the live forwards are untouched.
pub open spec fn same_config(a: Session, b: Session) -> bool {
    &&& a.editor == b.editor
    &&& a.terminal == b.terminal
    &&& a.range_separator == b.range_separator
    &&& a.forwards == b.forwards
}

impl Session {
    pub open spec fn wf(&self) -> bool {
        self.selection.wf() && self.forwards.wf()
    }

    /// A fresh session: no context, no namespace, nothing selected, no
    /// listing recorded, no configuration, a newline separator.
    pub fn new() -> (r: Session)
        ensures
            r.wf(),
            r.context is None,
            r.namespace is None,
            r.selection@ is Empty,
            r.last_objects@.len() == 0,
            r.editor is None,
            r.terminal is None,
            r.range_separator@ == "\n"@,
            r.forwards@.forwards.len() == 0,
            r.forwards@.next_id == 0,
    {
        Session {
            context: None,
            namespace: None,
            selection: Selection::Empty,
            last_objects: Vec::new(),
            editor: None,
            terminal: None,
            range_separator: String::from_str("\n"),
            forwards: ForwardRegistry::new(),
        }
    }

    /// Switch context. Switching invalidates previously listed objects,
    /// so the selection and the candidate list are cleared.
    pub fn set_context(&mut self, name: &str)
        requires
            old(self).forwards.wf(),
        ensures
            final(self).wf(),
            final(self).context matches Some(c) && c@ == name@,
            final(self).selection@ is Empty,
            final(self).last_objects@.len() == 0,
            final(self).namespace == old(self).namespace,
            same_config(*final(self), *old(self)),
    {
        self.context = Some(name.to_owned());
        self.selection = Selection::Empty;
        self.last_objects = Vec::new();
    }

    /// Scope subsequent listings; the selection is untouched.
    pub fn set_namespace(&mut self, ns: Option<String>)
        ensures
            final(self).wf() == old(self).wf(),
            final(self).namespace == ns,
            final(self).context == old(self).context,
            final(self).selection == old(self).selection,
            final(self).last_objects == old(self).last_objects,
            same_config(*final(self), *old(self)),
    {
        self.namespace = ns;
    }

    /// Record the ordered result of a successful listing, replacing the
    /// previous candidate list wholesale — even when the new list is
    /// empty.
    pub fn record_listing(&mut self, objs: Vec<SelectedObject>)
        ensures
            final(self).wf() == old(self).wf(),
            final(self).last_objects == objs,
            final(self).context == old(self).context,
            final(self).namespace == old(self).namespace,
            final(self).selection == old(self).selection,
            same_config(*final(self), *old(self)),
    {
        self.last_objects = objs;
    }

    /// Forget the candidate list, as after a failed listing.
    pub fn clear_last_objects(&mut self)
        ensures
            final(self).wf() == old(self).wf(),
            final(self).last_objects@.len() == 0,
            final(self).context == old(self).context,
            final(self).namespace == old(self).namespace,
            final(self).selection == old(self).selection,
            same_config(*final(self), *old(self)),
    {
        self.last_objects = Vec::new();
    }

    /// Clear the selection.
    pub fn clear_selection(&mut self)
        requires
            old(self).forwards.wf(),
        ensures
            final(self).wf(),
            final(self).selection@ is Empty,
            final(self).context == old(self).context,
            final(self).namespace == old(self).namespace,
            final(self).last_objects == old(self).last_objects,
            same_config(*final(self), *old(self)),
    {
        self.selection = Selection::Empty;
    }

    /// Select one object.
    pub fn select_single(&mut self, obj: SelectedObject)
        requires
            old(self).forwards.wf(),
        ensures
            final(self).wf(),
            final(self).selection == Selection::Single(obj),
            final(self).context == old(self).context,
            final(self).namespace == old(self).namespace,
            final(self).last_objects == old(self).last_objects,
            same_config(*final(self), *old(self)),
    {
        self.selection = Selection::Single(obj);
    }

    /// Configure the editor command.
    pub fn set_editor(&mut self, editor: Option<String>)
        ensures
            final(self).wf() == old(self).wf(),
            final(self).editor == editor,
            final(self).terminal == old(self).terminal,
            final(self).range_separator == old(self).range_separator,
            final(self).forwards == old(self).forwards,
            final(self).context == old(self).context,
            final(self).namespace == old(self).namespace,
            final(self).selection == old(self).selection,
            final(self).last_objects == old(self).last_objects,
    {
        self.editor = editor;
    }

    /// Configure the terminal command.
    pub fn set_terminal(&mut self, terminal: Option<String>)
        ensures
            final(self).wf() == old(self).wf(),
            final(self).terminal == terminal,
            final(self).editor == old(self).editor,
            final(self).range_separator == old(self).range_separator,
            final(self).forwards == old(self).forwards,
            final(self).context == old(self).context,
            final(self).namespace == old(self).namespace,
            final(self).selection == old(self).selection,
            final(self).last_objects == old(self).last_objects,
    {
        self.terminal = terminal;
    }

    /// Configure the range separator.
    pub fn set_range_separator(&mut self, separator: String)
        ensures
            final(self).wf() == old(self).wf(),
            final(self).range_separator == separator,
            final(self).editor == old(self).editor,
            final(self).terminal == old(self).terminal,
            final(self).forwards == old(self).forwards,
            final(self).context == old(self).context,
            final(self).namespace == old(self).namespace,
            final(self).selection == old(self).selection,
            final(self).last_objects == old(self).last_objects,
    {
        self.range_separator = separator;
    }

    /// The selected pod, when the selection is exactly one pod.
    pub fn current_pod(&self) -> (r: Option<&SelectedObject>)
        ensures
            match r {
                Some(obj) => self.selection matches Selection::Single(o) && o == *obj
                    && obj@.kind is Pod,
                None => !(self.selection matches Selection::Single(o) && o@.kind is Pod),
            },
    {
        match &self.selection {
            Selection::Single(obj) => if obj.is_pod() {
                Some(obj)
            } else {
                None
            },
            _ => None,
        }
    }

    /// Resolve a range expression against the current candidate list:
    /// copies of exactly the objects at the selected indices, in the
    /// candidate list's order.
    pub fn resolve_range(&self, expr: &str) -> (r: Result<
        Vec<SelectedObject>,
        SelectionError,
    >)
        ensures
            match r {
                Ok(v) => {
                    &&& expr_valid(expr@, self.last_objects@.len())
                    &&& v@.len() == range_indices(expr@, self.last_objects@.len()).len()
                    &&& v@.len() > 0
                    &&& forall|j: int|
                        0 <= j < v@.len() ==> (#[trigger] v@[j])@ == self.last_objects@[
                            range_indices(expr@, self.last_objects@.len())[j]
                        ]@
                },
                Err(e) => e is InvalidRange && !expr_valid(expr@, self.last_objects@.len()),
            },
    {
        let len = self.last_objects.len();
        let idxs = match resolve_indices(expr, len) {
            Ok(v) => v,
            Err(e) => {
                return Err(e);
            },
        };
        proof {
            crate::ranges::lemma_range_indices_nonempty(expr@, len as nat);
            crate::ranges::lemma_selected_below_bounds(expr@, len as nat);
        }
        let ghost ri = range_indices(expr@, len as nat);
        let mut out: Vec<SelectedObject> = Vec::new();
        let mut j: usize = 0;
        while j < idxs.len()
            invariant
                idxs@.map_values(|u: usize| u as int) == ri,
                ri == range_indices(expr@, self.last_objects@.len()),
                forall|q: int| 0 <= q < ri.len() ==> 0 <= #[trigger] ri[q] < self.last_objects@.len(),
                0 <= j <= idxs@.len(),
                out@.len() == j,
                forall|q: int|
                    0 <= q < j ==> (#[trigger] out@[q])@ == self.last_objects@[ri[q]]@,
            decreases idxs@.len() - j,
        {
            let idx = idxs[j];
            proof {
                assert(idxs@.map_values(|u: usize| u as int)[j as int] == ri[j as int]);
            }
            out.push(self.last_objects[idx].duplicate());
            j += 1;
        }
        Ok(out)
    }

    /// Resolve a range expression and make it the selection. On failure
    /// the session is unchanged and the error is returned.
    pub fn select_range(&mut self, expr: &str) -> (r: Result<(), SelectionError>)
        requires
            old(self).wf(),
        ensures
            final(self).wf(),
            match r {
                Ok(()) => {
                    &&& expr_valid(expr@, old(self).last_objects@.len())
                    &&& final(self).selection@ matches SelectionView::Range(views) && {
                        &&& views.len() == range_indices(
                            expr@,
                            old(self).last_objects@.len(),
                        ).len()
                        &&& forall|j: int|
                            0 <= j < views.len() ==> #[trigger] views[j] == old(
                                self,
                            ).last_objects@[range_indices(expr@, old(self).last_objects@.len())[j]]@
                    }
                },
                Err(e) => {
                    &&& e is InvalidRange
                    &&& !expr_valid(expr@, old(self).last_objects@.len())
                    &&& *final(self) == *old(self)
                },
            },
            final(self).context == old(self).context,
            final(self).namespace == old(self).namespace,
            final(self).last_objects == old(self).last_objects,
            same_config(*final(self), *old(self)),
    {
        match self.resolve_range(expr) {
            Ok(objs) => {
                self.selection = Selection::Range(objs);
                Ok(())
            },
            Err(e) => Err(e),
        }
    }

    /// Apply `action` to every selected object in order, writing the
    /// separator (when one is given) between invocations: once per object
    /// for a single selection or a range, in range order; with no
    /// selection, fail with `NoSelection` and invoke the action not at
    /// all.
    pub fn apply_to_selection<A: SelectionAction, W: OutputSink>(
        &self,
        separator: Option<&str>,
        action: &mut A,
        sink: &mut W,
    ) -> (r: Result<usize, SelectionError>)
        requires
            self.wf(),
        ensures
            match r {
                Ok(n) => match self.selection@ {
                    SelectionView::Single(obj) => n == 1 && final(sink).content() == old(
                        sink,
                    ).content() + A::output(obj),
                    SelectionView::Range(objs) => n == objs.len() && final(sink).content() == old(
                        sink,
                    ).content() + interleaved::<A>(objs, separator_view(separator)),
                    SelectionView::Empty => false,
                },
                Err(e) => {
                    &&& self.selection@ is Empty
                    &&& e is NoSelection
                    &&& *final(action) == *old(action)
                    &&& final(sink).content() == old(sink).content()
                },
            },
            self.selection@ is Empty <==> r is Err,
    {
        match &self.selection {
            Selection::Empty => Err(SelectionError::NoSelection),
            Selection::Single(obj) => {
                action.run(obj, sink);
                Ok(1)
            },
            Selection::Range(objs) => {
                let ghost views = objs@.map_values(|o: SelectedObject| o@);
                let ghost sep = separator_view(separator);
                let mut i: usize = 0;
                while i < objs.len()
                    invariant
                        views == objs@.map_values(|o: SelectedObject| o@),
                        sep == separator_view(separator),
                        objs@.len() > 0,
                        0 <= i <= objs@.len(),
                        i == 0 ==> sink.content() == old(sink).content(),
                        i > 0 ==> sink.content() == old(sink).content() + interleaved::<A>(
                            views.take(i as int),
                            sep,
                        ),
                    decreases objs@.len() - i,
                {
                    if i > 0 {
                        match separator {
                            Some(s) => sink.write_str(s),
                            None => (),
                        }
                    }
                    let ghost pre = sink.content();
                    action.run(&objs[i], sink);
                    proof {
                        assert(views.take(i + 1).drop_last() =~= views.take(i as int));
                        assert(views.take(i + 1).last() == views[i as int]);
                        if i == 0 {
                            assert(interleaved::<A>(views.take(1), sep) == A::output(views[0]));
                        } else {
                            assert(interleaved::<A>(views.take(i + 1), sep) == interleaved::<A>(
                                views.take(i as int),
                                sep,
                            ) + sep + A::output(views[i as int]));
                            assert(sink.content() == old(sink).content() + interleaved::<A>(
                                views.take(i + 1),
                                sep,
                            ));
                        }
                    }
                    i += 1;
                }
                proof {
                    assert(views.take(objs@.len() as int) =~= views);
                }
                Ok(objs.len())
            },
        }
    }
}

/// The action behind the range display: writes each selected object's
/// name, type and namespace on one line.
pub struct RangeListingAction;

impl SelectionAction for RangeListingAction {
    open spec fn output(obj: ObjView) -> Seq<char> {
        obj.name + seq![' '] + obj.type_str() + seq![' '] + (match obj.namespace {
            Option::Some(n) => n,
            Option::None => Seq::empty(),
        }) + seq!['\n']
    }

    fn run<W: OutputSink>(&mut self, obj: &SelectedObject, sink: &mut W) {
        let mut line = obj.name.clone();
        crate::strings::push_char(&mut line, ' ');
        line.append(obj.type_str());
        crate::strings::push_char(&mut line, ' ');
        match &obj.namespace {
            Some(n) => line.append(n.as_str()),
            None => (),
        }
        crate::strings::push_char(&mut line, '\n');
        proof {
            assert(obj.spec_type_str() == obj@.type_str());
            assert(line@ =~= Self::output(obj@));
        }
        sink.write_str(line.as_str());
    }
}

} // verus!
