use std::collections::VecDeque;
use vstd::prelude::*;

use rustc_hash::FxHashMap;

use crate::commands::Update;
use crate::fxmap::fx_get;
use crate::fxmap::fx_insert;
use crate::hash::Prehashed;
use crate::operators::Apt;
use crate::operators::Desc;
use crate::operators::InputRef;
use crate::operators::Shape;
use crate::operators::Typed;
use crate::transport::Listener;
use crate::types::sum_of;
use crate::types::zero_of;
use crate::types::Type;
use crate::types::Wrapper;

verus! {

broadcast use vstd::std_specs::hash::group_hash_axioms;

/// Where the worker stands in its life.
#[derive(Debug, Clone, Copy, PartialEq, Eq, Structural)]
pub enum Phase {
    NotStarted,
    Running,
    Terminated,
}

/// The worker's state as mathematical values.
pub struct WorkerView<L> {
    /// The current value of each field slot.
    pub fields: Seq<Wrapper>,
    /// The consumer attached to each field slot, if any.
    pub listeners: Seq<Option<L>>,
    /// Input identity to the field slot of that input.
    pub inputs: Map<u64, usize>,
    /// Key of a pair of operand slots to the slot of their sum.
    pub sums: Map<u128, usize>,
    /// For each producer slot, whether it is still attached.
    pub emitters: Seq<bool>,
    /// For each producer slot, the field slot it feeds.
    pub emitter_fields: Seq<usize>,
    /// Updates received before the start, in arrival order.
    pub queue: Seq<Update>,
    pub phase: Phase,
}

/// The map key of the sum of the slots `a` and `b`.
pub open spec fn pair_key(a: usize, b: usize) -> u128 {
    (a as int * 0x1_0000_0000_0000_0000 + b as int) as u128
}

impl<L> WorkerView<L> {
    /// Every recorded slot index stands inside the value table, and the
    /// parallel tables have matching lengths.
    pub open spec fn wf(self) -> bool {
        &&& self.listeners.len() == self.fields.len()
        &&& self.fields.len() <= usize::MAX
        &&& forall|id: u64| #[trigger]
            self.inputs.contains_key(id) ==> self.inputs[id] < self.fields.len()
        &&& forall|k: u128| #[trigger] self.sums.contains_key(k) ==> self.sums[k] < self.fields.len()
        &&& self.emitters.len() == self.emitter_fields.len()
        &&& self.emitters.len() <= usize::MAX
        &&& forall|i: int|
            0 <= i < self.emitter_fields.len() ==> #[trigger] self.emitter_fields[i]
                < self.fields.len()
        &&& forall|i: int|
            0 <= i < self.queue.len() ==> #[trigger] self.queue[i].input_pos < self.fields.len()
    }

    /// A new field slot holding `value`, with no consumer attached.
    pub open spec fn with_slot(self, value: Wrapper) -> Self {
        WorkerView {
            fields: self.fields.push(value),
            listeners: self.listeners.push(None),
            ..self
        }
    }
}

/// The field slot that the descriptor of shape `s` is bound to, or `None`
/// while it has none.
pub open spec fn lookup(inputs: Map<u64, usize>, sums: Map<u128, usize>, s: Shape) -> Option<usize>
    decreases s,
{
    match s {
        Shape::Input { id, .. } => if inputs.contains_key(id) {
            Some(inputs[id])
        } else {
            None
        },
        Shape::Add { left, right, .. } => match (
            lookup(inputs, sums, *left),
            lookup(inputs, sums, *right),
        ) {
            (Some(a), Some(b)) => if sums.contains_key(pair_key(a, b)) {
                Some(sums[pair_key(a, b)])
            } else {
                None
            },
            _ => None,
        },
    }
}

/// Binds the descriptor of shape `s` to a field slot: an input or sum seen
/// before keeps its slot; a new input gets a slot holding the zero of its
/// kind; a new sum gets a slot holding the sum of its operands' current
/// values, computed once, after the operands are bound.
pub open spec fn resolve_spec<L>(v: WorkerView<L>, s: Shape) -> (WorkerView<L>, usize)
    decreases s,
{
    match s {
        Shape::Input { id, rtype } => if v.inputs.contains_key(id) {
            (v, v.inputs[id])
        } else {
            let n = v.fields.len() as usize;
            (WorkerView { inputs: v.inputs.insert(id, n), ..v.with_slot(zero_of(rtype)) }, n)
        },
        Shape::Add { left, right, .. } => {
            let (v1, a) = resolve_spec(v, *left);
            let (v2, b) = resolve_spec(v1, *right);
            if v2.sums.contains_key(pair_key(a, b)) {
                (v2, v2.sums[pair_key(a, b)])
            } else {
                let n = v2.fields.len() as usize;
                (
                    WorkerView {
                        sums: v2.sums.insert(pair_key(a, b), n),
                        ..v2.with_slot(sum_of(v2.fields[a as int], v2.fields[b as int]))
                    },
                    n,
                )
            }
        },
    }
}


/// The field values after the updates of `q` are written in order.
pub open spec fn apply_all(fields: Seq<Wrapper>, q: Seq<Update>) -> Seq<Wrapper>
    decreases q.len(),
{
    if q.len() == 0 {
        fields
    } else {
        apply_all(fields, q.drop_last()).update(q.last().input_pos as int, q.last().value)
    }
}

/// The updates of `q`, in order, whose field has a consumer attached.
pub open spec fn attached_updates<L>(q: Seq<Update>, listeners: Seq<Option<L>>) -> Seq<Update>
    decreases q.len(),
{
    if q.len() == 0 {
        Seq::empty()
    } else {
        let rest = attached_updates(q.drop_last(), listeners);
        if listeners[q.last().input_pos as int] is Some {
            rest.push(q.last())
        } else {
            rest
        }
    }
}

/// The updates handed out by the start are among the queued ones, so
/// they stay inside whatever bound the queue keeps.
pub proof fn lemma_attached_within<L>(q: Seq<Update>, listeners: Seq<Option<L>>, n: nat)
    requires
        forall|i: int| 0 <= i < q.len() ==> #[trigger] q[i].input_pos < n,
    ensures
        forall|i: int|
            0 <= i < attached_updates(q, listeners).len() ==> #[trigger] attached_updates(
                q,
                listeners,
            )[i].input_pos < n,
    decreases q.len(),
{
    if q.len() > 0 {
        let p = q.drop_last();
        assert forall|i: int| 0 <= i < p.len() implies #[trigger] p[i].input_pos < n by {
            assert(p[i] == q[i]);
        }
        lemma_attached_within(p, listeners, n);
        let rest = attached_updates(p, listeners);
        assert(q.last() == q[q.len() - 1]);
        assert forall|i: int|
            0 <= i < attached_updates(q, listeners).len() implies #[trigger] attached_updates(
            q,
            listeners,
        )[i].input_pos < n by {
            if i < rest.len() {
                assert(rest[i].input_pos < n);
            }
        }
    }
}

impl<L> WorkerView<L> {
    /// Attaches consumer `l` to the slot of shape `s`, replacing any other.
    pub open spec fn listen_spec(self, s: Shape, l: L) -> (WorkerView<L>, usize) {
        let (v1, f) = resolve_spec(self, s);
        (WorkerView { listeners: v1.listeners.update(f as int, Some(l)), ..v1 }, f)
    }

    /// Attaches a producer for input `id`; the second component is its
    /// producer slot.
    pub open spec fn emit_spec(self, id: u64, rtype: Type) -> (WorkerView<L>, usize) {
        let (v1, f) = resolve_spec(self, Shape::Input { id, rtype });
        (
            WorkerView {
                emitters: v1.emitters.push(true),
                emitter_fields: v1.emitter_fields.push(f),
                ..v1
            },
            self.emitters.len() as usize,
        )
    }

    /// Marks producer slot `slot` as gone; no other slot moves.
    pub open spec fn close_emitter_spec(self, slot: int) -> WorkerView<L> {
        WorkerView { emitters: self.emitters.update(slot, false), ..self }
    }

    /// The update that `value` from producer slot `slot` makes.
    pub open spec fn update_of(self, slot: int, value: Wrapper) -> Update {
        Update { input_pos: self.emitter_fields[slot], value }
    }

    /// Writes `u` into its field; the second component is what the
    /// field's consumer is handed, if one is attached.
    pub open spec fn apply_spec(self, u: Update) -> (WorkerView<L>, Option<Update>) {
        (
            WorkerView { fields: self.fields.update(u.input_pos as int, u.value), ..self },
            if self.listeners[u.input_pos as int] is Some {
                Some(u)
            } else {
                None
            },
        )
    }

    /// A value arrives from producer slot `slot`: queued before the start,
    /// applied at once after it.
    pub open spec fn receive_spec(self, slot: int, value: Wrapper) -> (WorkerView<L>, Option<Update>) {
        let u = self.update_of(slot, value);
        if self.phase == Phase::NotStarted {
            (WorkerView { queue: self.queue.push(u), ..self }, None)
        } else {
            self.apply_spec(u)
        }
    }

    /// The first start applies the queued updates in arrival order and
    /// hands out those whose field has a consumer; a later start changes
    /// nothing.
    pub open spec fn start_spec(self) -> (WorkerView<L>, Seq<Update>) {
        if self.phase == Phase::NotStarted {
            (
                WorkerView {
                    fields: apply_all(self.fields, self.queue),
                    queue: Seq::empty(),
                    phase: Phase::Running,
                    ..self
                },
                attached_updates(self.queue, self.listeners),
            )
        } else {
            (self, Seq::empty())
        }
    }

    /// Ends the worker; nothing queued is applied.
    pub open spec fn shutdown_spec(self) -> WorkerView<L> {
        WorkerView { phase: Phase::Terminated, ..self }
    }

    /// Detaches the consumer of field slot `f`.
    pub open spec fn detach_spec(self, f: int) -> WorkerView<L> {
        WorkerView { listeners: self.listeners.update(f, None), ..self }
    }
}

proof fn lemma_wf_same_tables<L>(a: WorkerView<L>, b: WorkerView<L>)
    requires
        a.wf(),
        b.inputs == a.inputs,
        b.sums == a.sums,
        b.fields.len() == a.fields.len(),
        b.listeners.len() == a.listeners.len(),
        b.emitters.len() == a.emitters.len(),
        b.emitter_fields == a.emitter_fields,
        b.queue == a.queue,
    ensures
        b.wf(),
{
}

/// The single-threaded worker that owns every field, consumer and producer
/// slot of one engine.
pub struct Impl<L> {
    fields: Vec<Wrapper>,
    listeners: Vec<Option<L>>,
    inputs: FxHashMap<u64, usize>,
    sums: FxHashMap<u128, usize>,
    emitters: Vec<bool>,
    emitters_to_fields: Vec<usize>,
    prestart_queue: VecDeque<Update>,
    phase: Phase,
}

impl<L> View for Impl<L> {
    type V = WorkerView<L>;

    closed spec fn view(&self) -> WorkerView<L> {
        WorkerView {
            fields: self.fields@,
            listeners: self.listeners@,
            inputs: self.inputs@,
            sums: self.sums@,
            emitters: self.emitters@,
            emitter_fields: self.emitters_to_fields@,
            queue: self.prestart_queue@,
            phase: self.phase,
        }
    }
}

impl<L> Impl<L> {
    pub open spec fn wf(&self) -> bool {
        self@.wf()
    }

    pub fn new() -> (r: Self)
        ensures
            r.wf(),
            r@.fields.len() == 0,
            r@.inputs.is_empty(),
            r@.sums.is_empty(),
            r@.emitters.len() == 0,
            r@.queue.len() == 0,
            r@.phase == Phase::NotStarted,
    {
        Impl {
            fields: Vec::new(),
            listeners: Vec::new(),
            inputs: FxHashMap::default(),
            sums: FxHashMap::default(),
            emitters: Vec::new(),
            emitters_to_fields: Vec::new(),
            prestart_queue: VecDeque::new(),
            phase: Phase::NotStarted,
        }
    }

    fn push_slot(&mut self, value: Wrapper) -> (r: usize)
        requires
            old(self).wf(),
        ensures
            final(self)@ == old(self)@.with_slot(value),
            r == old(self)@.fields.len(),
            final(self)@.fields.len() <= usize::MAX,
    {
        self.fields.push(value);
        self.listeners.push(None);
        self.fields.len() - 1
    }

    /// The field slot of the descriptor `t`, made on first sight.
    pub fn get_signal_id(&mut self, t: &Typed) -> (r: usize)
        requires
            old(self).wf(),
        ensures
            final(self).wf(),
            (final(self)@, r) == resolve_spec(old(self)@, t.shape()),
            r < final(self)@.fields.len(),
            old(self)@.fields.len() <= final(self)@.fields.len(),
            final(self)@.fields.subrange(0, old(self)@.fields.len() as int) == old(self)@.fields,
            final(self)@.listeners.subrange(0, old(self)@.fields.len() as int)
                == old(self)@.listeners,
            final(self)@.emitters == old(self)@.emitters,
            final(self)@.emitter_fields == old(self)@.emitter_fields,
            final(self)@.queue == old(self)@.queue,
            final(self)@.phase == old(self)@.phase,
        decreases t.shape(),
    {
        match &t.desc {
            Desc::Input(input) => {
                let id = input.id();
                match fx_get(&self.inputs, &id) {
                    Some(res) => res,
                    None => {
                        let res = self.push_slot(Wrapper::zeroed(t.rtype));
                        fx_insert(&mut self.inputs, id, res);
                        res
                    },
                }
            },
            Desc::Add(left, right) => {
                proof {
                    let ls = left.value().shape();
                    let rs = right.value().shape();
                    assert(t.shape() == Shape::Add {
                        left: Box::new(ls),
                        right: Box::new(rs),
                        rtype: t.rtype,
                    });
                    assert(decreases_to!(t.shape() => t.shape()->left));
                    assert(decreases_to!(t.shape() => t.shape()->right));
                }
                let left_id = self.get_signal_id(Prehashed::as_ref(left));
                let right_id = self.get_signal_id(Prehashed::as_ref(right));
                let key = (left_id as u128) * 0x1_0000_0000_0000_0000u128 + (right_id as u128);
                match fx_get(&self.sums, &key) {
                    Some(res) => res,
                    None => {
                        let new = self.fields[left_id].add(&self.fields[right_id]);
                        let res = self.push_slot(new);
                        fx_insert(&mut self.sums, key, res);
                        res
                    },
                }
            },
        }
    }
}


impl<L> Impl<L> {
    /// Attaches `listener` to the field of `signal`, replacing any consumer
    /// attached there before.
    pub fn add_listener(&mut self, signal: Apt, listener: L) -> (r: usize)
        requires
            old(self).wf(),
        ensures
            final(self).wf(),
            (final(self)@, r) == old(self)@.listen_spec(signal.value().shape(), listener),
    {
        let id = self.get_signal_id(Prehashed::as_ref(&signal));
        let ghost mid = self@;
        self.listeners.set(id, Some(listener));
        proof {
            lemma_wf_same_tables(mid, self@);
        }
        id
    }

    /// Attaches a producer for `input`; returns its producer slot, which
    /// counts the producers attached before it, closed ones included.
    pub fn add_emitter(&mut self, input: InputRef, rtype: Type) -> (r: usize)
        requires
            old(self).wf(),
        ensures
            final(self).wf(),
            (final(self)@, r) == old(self)@.emit_spec(input.id_spec(), rtype),
    {
        let typed = Typed { desc: Desc::Input(input), rtype };
        proof {
            assert(typed.shape() == (Shape::Input { id: input.id_spec(), rtype }));
        }
        let field = self.get_signal_id(&typed);
        self.emitters.push(true);
        self.emitters_to_fields.push(field);
        self.emitters.len() - 1
    }

    /// Marks producer slot `slot` as closed. Slot numbers never shift.
    pub fn close_emitter(&mut self, slot: usize)
        requires
            old(self).wf(),
            slot < old(self)@.emitters.len(),
        ensures
            final(self).wf(),
            final(self)@ == old(self)@.close_emitter_spec(slot as int),
    {
        self.emitters.set(slot, false);
    }

    /// Whether producer slot `slot` is still attached.
    pub fn emitter_live(&self, slot: usize) -> (r: bool)
        requires
            slot < self@.emitters.len(),
        ensures
            r == self@.emitters[slot as int],
    {
        self.emitters[slot]
    }

    /// The number of producer slots made so far.
    pub fn emitter_count(&self) -> (r: usize)
        ensures
            r == self@.emitters.len(),
    {
        self.emitters.len()
    }

    pub fn phase(&self) -> (r: Phase)
        ensures
            r == self@.phase,
    {
        self.phase
    }

    /// The current value of field slot `f`.
    pub fn field(&self, f: usize) -> (r: Wrapper)
        requires
            f < self@.fields.len(),
        ensures
            r == self@.fields[f as int],
    {
        self.fields[f]
    }

    pub fn create_update(&self, slot: usize, value: Wrapper) -> (r: Update)
        requires
            self.wf(),
            slot < self@.emitters.len(),
            self@.emitters[slot as int],
        ensures
            r == self@.update_of(slot as int, value),
            r.input_pos < self@.fields.len(),
    {
        Update { input_pos: self.emitters_to_fields[slot], value }
    }

    /// Writes `u` into its field; returns it back when a consumer is
    /// attached there and should be handed the value.
    pub fn update(&mut self, u: Update) -> (r: Option<Update>)
        requires
            old(self).wf(),
            u.input_pos < old(self)@.fields.len(),
        ensures
            final(self).wf(),
            (final(self)@, r) == old(self)@.apply_spec(u),
    {
        self.fields.set(u.input_pos, u.value);
        proof {
            lemma_wf_same_tables(old(self)@, self@);
        }
        if self.listeners[u.input_pos].is_some() {
            Some(u)
        } else {
            None
        }
    }

    /// A value arrived from the live producer slot `slot`.
    pub fn receive(&mut self, slot: usize, value: Wrapper) -> (r: Option<Update>)
        requires
            old(self).wf(),
            slot < old(self)@.emitters.len(),
            old(self)@.emitters[slot as int],
            old(self)@.phase != Phase::Terminated,
        ensures
            final(self).wf(),
            (final(self)@, r) == old(self)@.receive_spec(slot as int, value),
    {
        let u = self.create_update(slot, value);
        if self.phase == Phase::NotStarted {
            self.prestart_queue.push_back(u);
            assert(self@.queue == old(self)@.queue.push(u));
            assert(self@.inputs == old(self)@.inputs);
            assert(self@.sums == old(self)@.sums);
            assert(self@.fields == old(self)@.fields);
            assert(self@.emitter_fields == old(self)@.emitter_fields);
            assert forall|i: int| 0 <= i < self@.queue.len() implies #[trigger] self@.queue[i].input_pos
                < self@.fields.len() by {
                if i < old(self)@.queue.len() {
                    assert(self@.queue[i] == old(self)@.queue[i]);
                }
            }
            None
        } else {
            self.update(u)
        }
    }

    /// Applies the queued updates in arrival order; returns those whose
    /// field has a consumer attached, in the same order.
    fn drain_queue(&mut self) -> (r: Vec<Update>)
        requires
            old(self).wf(),
        ensures
            final(self).wf(),
            final(self)@ == (WorkerView {
                fields: apply_all(old(self)@.fields, old(self)@.queue),
                queue: Seq::empty(),
                ..old(self)@
            }),
            r@ == attached_updates(old(self)@.queue, old(self)@.listeners),
    {
        let ghost v0 = self@;
        let mut out: Vec<Update> = Vec::new();
        let ghost mut k: int = 0;
        proof {
            assert(v0.queue.take(0) == Seq::<Update>::empty());
            assert(v0.queue.skip(0) == v0.queue);
        }
        loop
            invariant
                0 <= k <= v0.queue.len(),
                self@.queue == v0.queue.skip(k),
                self@ == (WorkerView {
                    fields: apply_all(v0.fields, v0.queue.take(k)),
                    queue: v0.queue.skip(k),
                    ..v0
                }),
                self.wf(),
                v0.wf(),
                out@ == attached_updates(v0.queue.take(k), v0.listeners),
            ensures
                self.wf(),
                self@ == (WorkerView { fields: apply_all(v0.fields, v0.queue), queue: Seq::empty(), ..v0 }),
                out@ == attached_updates(v0.queue, v0.listeners),
            decreases v0.queue.len() - k,
        {
            match self.prestart_queue.pop_front() {
                Some(u) => {
                    proof {
                        assert(u == v0.queue[k]);
                        assert(v0.queue.take(k + 1).drop_last() == v0.queue.take(k));
                        assert(v0.queue.skip(k + 1) == v0.queue.skip(k).drop_first());
                    }
                    if let Some(d) = self.update(u) {
                        out.push(d);
                    }
                    proof {
                        k = k + 1;
                    }
                },
                None => {
                    proof {
                        assert(k == v0.queue.len());
                        assert(v0.queue.take(k) == v0.queue);
                        assert(v0.queue.skip(k) == Seq::<Update>::empty());
                    }
                    break;
                },
            }
        }
        out
    }

    /// The start command. The first one applies the queued updates and
    /// returns those to hand to consumers; on a running worker it changes
    /// nothing and returns `None`.
    pub fn start(&mut self) -> (r: Option<Vec<Update>>)
        requires
            old(self).wf(),
            old(self)@.phase != Phase::Terminated,
        ensures
            final(self).wf(),
            final(self)@ == old(self)@.start_spec().0,
            r is Some <==> old(self)@.phase == Phase::NotStarted,
            r matches Some(d) ==> d@ == old(self)@.start_spec().1,
    {
        if self.phase == Phase::NotStarted {
            let out = self.drain_queue();
            self.phase = Phase::Running;
            Some(out)
        } else {
            None
        }
    }

    /// The shutdown command: the worker ends without applying anything
    /// still queued.
    pub fn shutdown(&mut self)
        requires
            old(self).wf(),
        ensures
            final(self).wf(),
            final(self)@ == old(self)@.shutdown_spec(),
    {
        self.phase = Phase::Terminated;
    }
}

impl<L: Listener> Impl<L> {
    /// Hands `u` to the consumer of its field, if one is attached; a
    /// consumer whose channel is closed is detached. Returns whether that
    /// happened.
    pub fn deliver(&mut self, u: Update) -> (closed: bool)
        requires
            old(self).wf(),
            u.input_pos < old(self)@.fields.len(),
        ensures
            final(self).wf(),
            final(self)@ == if closed {
                old(self)@.detach_spec(u.input_pos as int)
            } else {
                old(self)@
            },
            closed ==> old(self)@.listeners[u.input_pos as int] is Some,
            old(self)@.listeners[u.input_pos as int] is None ==> !closed,
    {
        let accepted = match &self.listeners[u.input_pos] {
            Some(listener) => listener.accept(u.value).is_ok(),
            None => {
                return false;
            },
        };
        self.settle_delivery(u.input_pos, accepted)
    }
}

impl<L> Impl<L> {
    /// What follows a hand-off to the consumer of field slot `f`: a
    /// consumer that did not accept the value has its channel closed and is
    /// detached; one that accepted it stays. Returns whether it was
    /// detached.
    pub fn settle_delivery(&mut self, f: usize, accepted: bool) -> (closed: bool)
        requires
            old(self).wf(),
            f < old(self)@.fields.len(),
            old(self)@.listeners[f as int] is Some,
        ensures
            final(self).wf(),
            closed == !accepted,
            final(self)@ == if accepted {
                old(self)@
            } else {
                old(self)@.detach_spec(f as int)
            },
    {
        if !accepted {
            self.listeners.set(f, None);
            proof {
                lemma_wf_same_tables(old(self)@, self@);
            }
        }
        !accepted
    }
}

} // verus!
