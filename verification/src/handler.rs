//! The input handler: holds the installed binding table and the live input
//! state (currently pressed physical codes, current value of each logical
//! axis), and turns one raw occurrence into zero or more semantic events.
//!
//! Policies, fixed here once:
//! - a repeated press with no intervening release is suppressed (no new
//!   event, no state change), so press and release stay paired;
//! - a release of a code that is not held is ignored;
//! - an axis binding emits `AxisChanged` only when the stored value actually
//!   changes, so unchanged analog input never floods the event log;
//! - events arriving from the remote side pass through unchanged (no
//!   de-duplication against local state).

use vstd::prelude::*;
use std::collections::HashMap;
use std::collections::HashSet;
use crate::events::Binding;
use crate::events::PhysicalInput;
use crate::events::SemanticInputEvent;
use crate::bindings::BindingTable;
use crate::bindings::bindings_of;

verus! {

broadcast use vstd::std_specs::hash::group_hash_axioms;

/// The mathematical state of the input handler: the installed binding table,
/// the set of held physical codes, and the stored value of each logical axis
/// that has ever moved.
#[verifier::ext_equal]
pub struct HandlerView {
    /// The installed binding table, as its entry sequence.
    pub bindings: Seq<(u32, Binding)>,
    /// The physical codes currently held down.
    pub pressed: Set<u32>,
    /// The stored position of each logical axis that has taken a value.
    pub axes: Map<u32, i64>,
}

/// The current position of a logical axis: its stored value, or 0 while it
/// has never moved.
pub open spec fn axis_val(axes: Map<u32, i64>, axis: u32) -> i64 {
    if axes.contains_key(axis) {
        axes[axis]
    } else {
        0
    }
}

/// The events emitted for the discrete (action) bindings of one press or
/// release occurrence, one per action binding, in table order.
pub open spec fn action_events(bs: Seq<Binding>, pressed: bool) -> Seq<SemanticInputEvent>
    decreases bs.len(),
{
    if bs.len() == 0 {
        Seq::empty()
    } else {
        let rest = action_events(bs.drop_last(), pressed);
        match bs.last() {
            Binding::Action { action } => rest.push(
                if pressed {
                    SemanticInputEvent::ActionPressed { action }
                } else {
                    SemanticInputEvent::ActionReleased { action }
                },
            ),
            Binding::Axis { .. } => rest,
        }
    }
}

/// Runs one analog occurrence through the axis bindings in table order:
/// each axis binding whose stored value differs from the new position stores
/// it and emits one `AxisChanged`; an unchanged axis emits nothing.
pub open spec fn axis_fold(axes: Map<u32, i64>, bs: Seq<Binding>, value: i64) -> (Map<u32, i64>, Seq<
    SemanticInputEvent,
>)
    decreases bs.len(),
{
    if bs.len() == 0 {
        (axes, Seq::empty())
    } else {
        match bs.first() {
            Binding::Axis { axis } => if axis_val(axes, axis) != value {
                let folded = axis_fold(axes.insert(axis, value), bs.drop_first(), value);
                (folded.0, seq![SemanticInputEvent::AxisChanged { axis, value }] + folded.1)
            } else {
                axis_fold(axes, bs.drop_first(), value)
            },
            Binding::Action { .. } => axis_fold(axes, bs.drop_first(), value),
        }
    }
}

/// What processing one raw occurrence does: the handler state after it, and
/// the semantic events it emits, exactly one per logical binding it affects.
/// An unbound occurrence emits nothing; it is not an error.
pub open spec fn process_spec(h: HandlerView, occ: PhysicalInput) -> (HandlerView, Seq<
    SemanticInputEvent,
>) {
    match occ {
        PhysicalInput::Pressed { code } => if h.pressed.contains(code) {
            (h, Seq::empty())
        } else {
            (
                HandlerView { pressed: h.pressed.insert(code), ..h },
                action_events(bindings_of(h.bindings, code), true),
            )
        },
        PhysicalInput::Released { code } => if !h.pressed.contains(code) {
            (h, Seq::empty())
        } else {
            (
                HandlerView { pressed: h.pressed.remove(code), ..h },
                action_events(bindings_of(h.bindings, code), false),
            )
        },
        PhysicalInput::Analog { code, value } => {
            let folded = axis_fold(h.axes, bindings_of(h.bindings, code), value);
            (HandlerView { axes: folded.0, ..h }, folded.1)
        },
    }
}

/// Processing a whole buffered sequence of occurrences, in order, threading
/// the handler state through and concatenating the emitted events.
pub open spec fn process_all_spec(h: HandlerView, occs: Seq<PhysicalInput>) -> (HandlerView, Seq<
    SemanticInputEvent,
>)
    decreases occs.len(),
{
    if occs.len() == 0 {
        (h, Seq::empty())
    } else {
        let first = process_spec(h, occs.first());
        let rest = process_all_spec(first.0, occs.drop_first());
        (rest.0, first.1 + rest.1)
    }
}

/// One tick's drained inbound batches, flattened in arrival order: batch
/// order first, then the order within each batch.
pub open spec fn flatten_batches(batches: Seq<Vec<SemanticInputEvent>>) -> Seq<SemanticInputEvent>
    decreases batches.len(),
{
    if batches.len() == 0 {
        Seq::empty()
    } else {
        flatten_batches(batches.drop_last()) + batches.last()@
    }
}

/// The input handler. Owns the binding table and the live state; nothing
/// reads the live state directly — only the emitted semantic events leave it.
pub struct InputHandler {
    bindings: BindingTable,
    pressed: HashSet<u32>,
    axes: HashMap<u32, i64>,
}

impl View for InputHandler {
    type V = HandlerView;

    closed spec fn view(&self) -> HandlerView {
        HandlerView { bindings: self.bindings@, pressed: self.pressed@, axes: self.axes@ }
    }
}

impl InputHandler {
    /// Creates a handler with the given binding table, nothing held and all
    /// axes at rest.
    pub fn new(bindings: BindingTable) -> (h: InputHandler)
        ensures
            h@.bindings == bindings@,
            h@.pressed =~= Set::<u32>::empty(),
            h@.axes =~= Map::<u32, i64>::empty(),
    {
        InputHandler { bindings, pressed: HashSet::new(), axes: HashMap::new() }
    }

    /// Installs a new binding table wholesale, leaving the live state as it
    /// is. Readers never see a partially updated table.
    pub fn set_bindings(&mut self, bindings: BindingTable)
        ensures
            final(self)@.bindings == bindings@,
            final(self)@.pressed == old(self)@.pressed,
            final(self)@.axes == old(self)@.axes,
    {
        self.bindings = bindings;
    }

    /// Turns the action bindings of one press or release into their events.
    fn emit_action_events(bs: &Vec<Binding>, pressed: bool) -> (evs: Vec<SemanticInputEvent>)
        ensures
            evs@ == action_events(bs@, pressed),
    {
        let mut evs: Vec<SemanticInputEvent> = Vec::new();
        let mut i: usize = 0;
        while i < bs.len()
            invariant
                i <= bs.len(),
                evs@ == action_events(bs@.take(i as int), pressed),
            decreases bs.len() - i,
        {
            proof {
                assert(bs@.take(i + 1 as int).drop_last() =~= bs@.take(i as int));
                assert(bs@.take(i + 1 as int).last() == bs@[i as int]);
            }
            match bs[i] {
                Binding::Action { action } => {
                    if pressed {
                        evs.push(SemanticInputEvent::ActionPressed { action });
                    } else {
                        evs.push(SemanticInputEvent::ActionReleased { action });
                    }
                },
                Binding::Axis { .. } => {},
            }
            i = i + 1;
        }
        proof {
            assert(bs@.take(bs@.len() as int) =~= bs@);
        }
        evs
    }

    /// Processes one raw occurrence: updates the live state and returns one
    /// semantic event per logical binding it affects, in table order. An
    /// unbound code yields an empty sequence, never an error.
    pub fn process(&mut self, occ: &PhysicalInput) -> (evs: Vec<SemanticInputEvent>)
        ensures
            final(self)@ == process_spec(old(self)@, *occ).0,
            evs@ == process_spec(old(self)@, *occ).1,
    {
        let ghost h0 = self@;
        match occ {
            PhysicalInput::Pressed { code } => {
                if self.pressed.contains(code) {
                    Vec::new()
                } else {
                    self.pressed.insert(*code);
                    let bs = self.bindings.bindings_for(*code);
                    let evs = Self::emit_action_events(&bs, true);
                    proof {
                        assert(self@ =~= process_spec(h0, *occ).0);
                    }
                    evs
                }
            },
            PhysicalInput::Released { code } => {
                if !self.pressed.contains(code) {
                    Vec::new()
                } else {
                    self.pressed.remove(code);
                    let bs = self.bindings.bindings_for(*code);
                    let evs = Self::emit_action_events(&bs, false);
                    proof {
                        assert(self@ =~= process_spec(h0, *occ).0);
                    }
                    evs
                }
            },
            PhysicalInput::Analog { code, value } => {
                let value = *value;
                let bs = self.bindings.bindings_for(*code);
                let ghost m0 = self.axes@;
                let ghost bseq = bs@;
                let mut evs: Vec<SemanticInputEvent> = Vec::new();
                let mut i: usize = 0;
                proof {
                    assert(bseq.skip(0) =~= bseq);
                    assert(Seq::<SemanticInputEvent>::empty() + axis_fold(m0, bseq, value).1
                        =~= axis_fold(m0, bseq, value).1);
                }
                while i < bs.len()
                    invariant
                        i <= bs.len(),
                        bs@ == bseq,
                        self@.bindings == h0.bindings,
                        self@.pressed == h0.pressed,
                        axis_fold(m0, bseq, value).0 == axis_fold(
                            self.axes@,
                            bseq.skip(i as int),
                            value,
                        ).0,
                        axis_fold(m0, bseq, value).1 == evs@ + axis_fold(
                            self.axes@,
                            bseq.skip(i as int),
                            value,
                        ).1,
                    decreases bs.len() - i,
                {
                    proof {
                        assert(bseq.skip(i as int).drop_first() =~= bseq.skip(i + 1 as int));
                        assert(bseq.skip(i as int).first() == bseq[i as int]);
                    }
                    match bs[i] {
                        Binding::Axis { axis } => {
                            let cur: i64 = match self.axes.get(&axis) {
                                Some(v) => *v,
                                None => 0,
                            };
                            assert(cur == axis_val(self.axes@, axis));
                            if cur != value {
                                let ghost axes_pre = self.axes@;
                                let ghost evs_pre = evs@;
                                self.axes.insert(axis, value);
                                evs.push(SemanticInputEvent::AxisChanged { axis, value });
                                proof {
                                    let ev = SemanticInputEvent::AxisChanged { axis, value };
                                    let tail = axis_fold(self.axes@, bseq.skip(i + 1 as int), value);
                                    assert(self.axes@ == axes_pre.insert(axis, value));
                                    assert(axis_fold(axes_pre, bseq.skip(i as int), value).1
                                        == seq![ev] + tail.1);
                                    assert(evs@ =~= evs_pre + seq![ev]);
                                    assert((evs_pre + seq![ev]) + tail.1 =~= evs_pre + (seq![ev]
                                        + tail.1));
                                }
                            }
                        },
                        Binding::Action { .. } => {},
                    }
                    i = i + 1;
                }
                proof {
                    assert(bseq.skip(bseq.len() as int) =~= Seq::<Binding>::empty());
                    assert(evs@ + Seq::<SemanticInputEvent>::empty() =~= evs@);
                    assert(self@ =~= process_spec(h0, *occ).0);
                    assert(evs@ == process_spec(h0, *occ).1);
                }
                evs
            },
        }
    }

    /// The remote path: an event that already crossed the inbound bridge
    /// passes through unchanged. Policy: no de-duplication against local
    /// state — the remote side is trusted to have paired its own events.
    pub fn process_remote(&self, event: &SemanticInputEvent) -> (r: SemanticInputEvent)
        ensures
            r == *event,
    {
        *event
    }

    /// Runs every event of a drained sequence of inbound batches through the
    /// remote path: each event passes through unchanged, batch order and the
    /// order within each batch both preserved — no remote event is lost,
    /// duplicated or reordered between the bridge and the log.
    pub fn process_remote_all(&self, batches: &Vec<Vec<SemanticInputEvent>>) -> (evs: Vec<
        SemanticInputEvent,
    >)
        ensures
            evs@ == flatten_batches(batches@),
    {
        let mut evs: Vec<SemanticInputEvent> = Vec::new();
        let mut bi: usize = 0;
        proof {
            assert(batches@.take(0) =~= Seq::<Vec<SemanticInputEvent>>::empty());
        }
        while bi < batches.len()
            invariant
                bi <= batches.len(),
                evs@ == flatten_batches(batches@.take(bi as int)),
            decreases batches.len() - bi,
        {
            let batch = &batches[bi];
            let ghost done = evs@;
            let mut ei: usize = 0;
            proof {
                assert(done + batch@.take(0) =~= done);
            }
            while ei < batch.len()
                invariant
                    ei <= batch.len(),
                    evs@ == done + batch@.take(ei as int),
                decreases batch.len() - ei,
            {
                proof {
                    assert((done + batch@.take(ei as int)).push(batch@[ei as int]) =~= done
                        + batch@.take(ei + 1 as int));
                }
                let e = self.process_remote(&batch[ei]);
                evs.push(e);
                ei = ei + 1;
            }
            proof {
                assert(batches@.take(bi + 1 as int).drop_last() =~= batches@.take(bi as int));
                assert(batches@.take(bi + 1 as int).last() == batches@[bi as int]);
                assert(done + batch@.take(batch@.len() as int) =~= done + batch@);
            }
            bi = bi + 1;
        }
        proof {
            assert(batches@.take(batches@.len() as int) =~= batches@);
        }
        evs
    }

    /// Processes every occurrence buffered since the last tick, in order,
    /// returning all emitted events in order.
    pub fn process_all(&mut self, occs: &Vec<PhysicalInput>) -> (evs: Vec<SemanticInputEvent>)
        ensures
            final(self)@ == process_all_spec(old(self)@, occs@).0,
            evs@ == process_all_spec(old(self)@, occs@).1,
    {
        let ghost h0 = self@;
        let mut evs: Vec<SemanticInputEvent> = Vec::new();
        let mut i: usize = 0;
        proof {
            assert(occs@.skip(0) =~= occs@);
            assert(Seq::<SemanticInputEvent>::empty() + process_all_spec(h0, occs@).1
                =~= process_all_spec(h0, occs@).1);
        }
        while i < occs.len()
            invariant
                i <= occs.len(),
                process_all_spec(h0, occs@).0 == process_all_spec(
                    self@,
                    occs@.skip(i as int),
                ).0,
                process_all_spec(h0, occs@).1 == evs@ + process_all_spec(
                    self@,
                    occs@.skip(i as int),
                ).1,
            decreases occs.len() - i,
        {
            proof {
                assert(occs@.skip(i as int).drop_first() =~= occs@.skip(i + 1 as int));
                assert(occs@.skip(i as int).first() == occs@[i as int]);
            }
            let ghost h_pre = self@;
            let mut step = self.process(&occs[i]);
            proof {
                let first = process_spec(h_pre, occs@[i as int]);
                let rest = process_all_spec(self@, occs@.skip(i + 1 as int));
                assert(evs@ + (first.1 + rest.1) =~= (evs@ + step@) + rest.1);
            }
            evs.append(&mut step);
            i = i + 1;
        }
        proof {
            assert(occs@.skip(occs@.len() as int) =~= Seq::<PhysicalInput>::empty());
            assert(evs@ + Seq::<SemanticInputEvent>::empty() =~= evs@);
        }
        evs
    }
}

/// Whether some binding of the sequence targets the given axis.
pub open spec fn binds_axis(bs: Seq<Binding>, axis: u32) -> bool {
    exists|i: int| 0 <= i < bs.len() && bs[i] == (Binding::Axis { axis })
}

/// After one analog occurrence is folded through a binding list, every axis
/// the list binds stores the new position, and every other axis is untouched.
pub proof fn lemma_axis_fold_sets(axes: Map<u32, i64>, bs: Seq<Binding>, value: i64)
    ensures
        forall|a: u32|
            #[trigger] binds_axis(bs, a) ==> axis_val(axis_fold(axes, bs, value).0, a) == value,
        forall|a: u32|
            !(#[trigger] binds_axis(bs, a)) ==> axis_val(axis_fold(axes, bs, value).0, a)
                == axis_val(axes, a),
    decreases bs.len(),
{
    if bs.len() > 0 {
        let rest = bs.drop_first();
        assert forall|a: u32| #[trigger] binds_axis(rest, a) implies binds_axis(bs, a) by {
            let i = choose|i: int| 0 <= i < rest.len() && rest[i] == (Binding::Axis { axis: a });
            assert(bs[i + 1] == (Binding::Axis { axis: a }));
        }
        assert forall|a: u32|
            binds_axis(bs, a) && bs.first() != (Binding::Axis {
                axis: a,
            }) implies binds_axis(rest, a) by {
            let i = choose|i: int| 0 <= i < bs.len() && bs[i] == (Binding::Axis { axis: a });
            assert(rest[i - 1] == (Binding::Axis { axis: a }));
        }
        assert forall|a: u32|
            binds_axis(bs, a) && !binds_axis(rest, a) implies bs.first() == (Binding::Axis {
            axis: a,
        }) by {
            let i = choose|i: int| 0 <= i < bs.len() && bs[i] == (Binding::Axis { axis: a });
            if i > 0 {
                assert(rest[i - 1] == (Binding::Axis { axis: a }));
                assert(binds_axis(rest, a));
            }
        }
        match bs.first() {
            Binding::Axis { axis } => {
                assert(bs[0] == (Binding::Axis { axis }));
                assert(binds_axis(bs, axis));
                if axis_val(axes, axis) != value {
                    let m2 = axes.insert(axis, value);
                    lemma_axis_fold_sets(m2, rest, value);
                    let folded = axis_fold(m2, rest, value);
                    assert(axis_fold(axes, bs, value).0 == folded.0);
                    assert forall|a: u32| #[trigger]
                        binds_axis(bs, a) implies axis_val(folded.0, a) == value by {
                        if !binds_axis(rest, a) {
                            assert(a == axis);
                            assert(axis_val(m2, a) == value);
                        }
                    }
                    assert forall|a: u32|
                        !(#[trigger] binds_axis(bs, a)) implies axis_val(folded.0, a) == axis_val(
                        axes,
                        a,
                    ) by {
                        assert(!binds_axis(rest, a));
                        assert(a != axis);
                        assert(axis_val(m2, a) == axis_val(axes, a));
                    }
                } else {
                    lemma_axis_fold_sets(axes, rest, value);
                    let folded = axis_fold(axes, rest, value);
                    assert(axis_fold(axes, bs, value).0 == folded.0);
                    assert forall|a: u32| #[trigger]
                        binds_axis(bs, a) implies axis_val(folded.0, a) == value by {
                        if !binds_axis(rest, a) {
                            assert(a == axis);
                            assert(axis_val(axes, a) == value);
                        }
                    }
                    assert forall|a: u32|
                        !(#[trigger] binds_axis(bs, a)) implies axis_val(folded.0, a) == axis_val(
                        axes,
                        a,
                    ) by {
                        assert(!binds_axis(rest, a));
                    }
                }
            },
            Binding::Action { .. } => {
                lemma_axis_fold_sets(axes, rest, value);
                let folded = axis_fold(axes, rest, value);
                assert(axis_fold(axes, bs, value).0 == folded.0);
                assert forall|a: u32| #[trigger]
                    binds_axis(bs, a) implies binds_axis(rest, a) by {
                    assert(bs.first() != (Binding::Axis { axis: a }));
                }
                assert forall|a: u32|
                    !(#[trigger] binds_axis(bs, a)) implies axis_val(folded.0, a) == axis_val(
                    axes,
                    a,
                ) by {
                    assert(!binds_axis(rest, a));
                }
            },
        }
    }
}

/// Folding an analog occurrence whose position every bound axis already
/// stores changes nothing and emits nothing.
pub proof fn lemma_axis_fold_stable(axes: Map<u32, i64>, bs: Seq<Binding>, value: i64)
    requires
        forall|a: u32| #[trigger] binds_axis(bs, a) ==> axis_val(axes, a) == value,
    ensures
        axis_fold(axes, bs, value) == (axes, Seq::<SemanticInputEvent>::empty()),
    decreases bs.len(),
{
    if bs.len() > 0 {
        let rest = bs.drop_first();
        assert forall|a: u32| #[trigger] binds_axis(rest, a) implies binds_axis(bs, a) by {
            let i = choose|i: int| 0 <= i < rest.len() && rest[i] == (Binding::Axis { axis: a });
            assert(bs[i + 1] == (Binding::Axis { axis: a }));
        }
        match bs.first() {
            Binding::Axis { axis } => {
                assert(bs[0] == (Binding::Axis { axis }));
                assert(binds_axis(bs, axis));
                lemma_axis_fold_stable(axes, rest, value);
            },
            Binding::Action { .. } => {
                lemma_axis_fold_stable(axes, rest, value);
            },
        }
    }
}

/// Law: a repeated press with no intervening release is idempotent. The
/// second occurrence leaves the handler as it was and emits nothing
/// (repeat suppression is the fixed policy here).
pub proof fn lemma_repeat_press_suppressed(h: HandlerView, code: u32)
    ensures
        ({
            let first = process_spec(h, PhysicalInput::Pressed { code });
            let second = process_spec(first.0, PhysicalInput::Pressed { code });
            second.0 == first.0 && second.1 =~= Seq::<SemanticInputEvent>::empty()
        }),
{
    let first = process_spec(h, PhysicalInput::Pressed { code });
    if !h.pressed.contains(code) {
        assert(first.0.pressed.contains(code));
    }
}

/// Law: the pressed set never holds a stale entry — after a release is
/// processed the code is no longer held, so press and release stay paired.
pub proof fn lemma_release_clears_pressed(h: HandlerView, code: u32)
    ensures
        !process_spec(h, PhysicalInput::Released { code }).0.pressed.contains(code),
{
}

/// Law: an occurrence whose physical code has no table entry yields the
/// empty event sequence — unbound input is not an error.
pub proof fn lemma_unbound_input_empty(h: HandlerView, occ: PhysicalInput)
    requires
        bindings_of(h.bindings, occ.code_spec()) =~= Seq::<Binding>::empty(),
    ensures
        process_spec(h, occ).1 =~= Seq::<SemanticInputEvent>::empty(),
{
}

/// Law: an analog occurrence repeated with an unchanged position emits no
/// second `AxisChanged` — the first occurrence stored the position, so the
/// repeat finds every bound axis unchanged.
pub proof fn lemma_axis_repeat_suppressed(h: HandlerView, code: u32, value: i64)
    ensures
        ({
            let first = process_spec(h, PhysicalInput::Analog { code, value });
            let second = process_spec(first.0, PhysicalInput::Analog { code, value });
            second.0 == first.0 && second.1 =~= Seq::<SemanticInputEvent>::empty()
        }),
{
    let bs = bindings_of(h.bindings, code);
    let folded = axis_fold(h.axes, bs, value);
    lemma_axis_fold_sets(h.axes, bs, value);
    lemma_axis_fold_stable(folded.0, bs, value);
    let first = process_spec(h, PhysicalInput::Analog { code, value });
    assert(first.0 =~= (HandlerView { axes: folded.0, ..h }));
    assert(process_spec(first.0, PhysicalInput::Analog { code, value }).0 =~= first.0);
}

} // verus!
