use vstd::prelude::*;

use crate::commands::Update;
use crate::internal::attached_updates;
use crate::internal::lookup;
use crate::internal::pair_key;
use crate::internal::resolve_spec;
use crate::internal::Phase;
use crate::internal::WorkerView;
use crate::operators::Shape;
use crate::types::Type;
use crate::types::Wrapper;

verus! {

/// Resolution leaves the producer tables, the queue and the phase alone.
pub proof fn lemma_resolve_keeps_rest<L>(v: WorkerView<L>, s: Shape)
    ensures
        ({
            let w = resolve_spec(v, s).0;
            &&& w.emitters == v.emitters
            &&& w.emitter_fields == v.emitter_fields
            &&& w.queue == v.queue
            &&& w.phase == v.phase
        }),
    decreases s,
{
    if let Shape::Add { left, right, .. } = s {
        lemma_resolve_keeps_rest(v, *left);
        lemma_resolve_keeps_rest(resolve_spec(v, *left).0, *right);
    }
}

proof fn lemma_submap_trans<K, V>(a: Map<K, V>, b: Map<K, V>, c: Map<K, V>)
    requires
        a.submap_of(b),
        b.submap_of(c),
    ensures
        a.submap_of(c),
{
    assert forall|k: K| #[trigger] a.dom().contains(k) implies c.dom().contains(k) && a[k] == c[k] by {
        assert(b.dom().contains(k));
    }
}

proof fn lemma_insert_new_key<K, V>(m: Map<K, V>, k: K, val: V)
    requires
        !m.contains_key(k),
    ensures
        m.submap_of(m.insert(k, val)),
{
    assert forall|j: K| #[trigger] m.dom().contains(j) implies m.insert(k, val).dom().contains(j)
        && m[j] == m.insert(k, val)[j] by {
        assert(j != k);
    }
}

/// A binding found in smaller maps is found, unchanged, in larger ones.
pub proof fn lemma_lookup_grows(
    i1: Map<u64, usize>,
    s1: Map<u128, usize>,
    i2: Map<u64, usize>,
    s2: Map<u128, usize>,
    s: Shape,
)
    requires
        i1.submap_of(i2),
        s1.submap_of(s2),
        lookup(i1, s1, s) is Some,
    ensures
        lookup(i2, s2, s) == lookup(i1, s1, s),
    decreases s,
{
    if let Shape::Add { left, right, .. } = s {
        lemma_lookup_grows(i1, s1, i2, s2, *left);
        lemma_lookup_grows(i1, s1, i2, s2, *right);
    }
}

/// Resolving a descriptor that is already bound changes nothing and
/// returns its slot.
pub proof fn lemma_resolve_bound<L>(v: WorkerView<L>, s: Shape)
    requires
        lookup(v.inputs, v.sums, s) is Some,
    ensures
        resolve_spec(v, s) == (v, lookup(v.inputs, v.sums, s)->0),
    decreases s,
{
    if let Shape::Add { left, right, .. } = s {
        lemma_resolve_bound(v, *left);
        lemma_resolve_bound(v, *right);
    }
}

/// After resolution the descriptor is bound to the returned slot, and every
/// earlier binding stays.
pub proof fn lemma_resolve_binds<L>(v: WorkerView<L>, s: Shape)
    ensures
        ({
            let (w, r) = resolve_spec(v, s);
            &&& v.inputs.submap_of(w.inputs)
            &&& v.sums.submap_of(w.sums)
            &&& lookup(w.inputs, w.sums, s) == Some(r)
        }),
    decreases s,
{
    match s {
        Shape::Input { id, rtype } => {
            let (w, r) = resolve_spec(v, s);
            if !v.inputs.contains_key(id) {
                lemma_insert_new_key(v.inputs, id, r);
            }
        },
        Shape::Add { left, right, .. } => {
            lemma_resolve_binds(v, *left);
            let (v1, a) = resolve_spec(v, *left);
            lemma_resolve_binds(v1, *right);
            let (v2, b) = resolve_spec(v1, *right);
            lemma_lookup_grows(v1.inputs, v1.sums, v2.inputs, v2.sums, *left);
            let (w, r) = resolve_spec(v, s);
            lemma_submap_trans(v.inputs, v1.inputs, v2.inputs);
            lemma_submap_trans(v.sums, v1.sums, v2.sums);
            if !v2.sums.contains_key(pair_key(a, b)) {
                lemma_insert_new_key(v2.sums, pair_key(a, b), r);
                lemma_submap_trans(v.sums, v2.sums, w.sums);
                lemma_lookup_grows(v2.inputs, v2.sums, w.inputs, w.sums, *left);
                lemma_lookup_grows(v2.inputs, v2.sums, w.inputs, w.sums, *right);
            }
        },
    }
}

/// Structurally identical descriptors share one slot: resolving the second
/// after the first returns the first one's slot and changes nothing, so a
/// value written through either is the value read through either.
pub proof fn lemma_identical_descriptors_share_slot<L>(v: WorkerView<L>, s1: Shape, s2: Shape)
    requires
        s1 == s2,
    ensures
        ({
            let (v1, a) = resolve_spec(v, s1);
            let (v2, b) = resolve_spec(v1, s2);
            a == b && v2 == v1
        }),
{
    lemma_resolve_binds(v, s1);
    let v1 = resolve_spec(v, s1).0;
    lemma_resolve_bound(v1, s2);
}

/// A registration or a value that reaches the worker before its start.
pub enum PreStartEvent<L> {
    Listen(Shape, L),
    Emit(u64, Type),
    Data(usize, Wrapper),
}

/// One event before the start: the next state, what a consumer is handed,
/// and what a producer sent.
pub open spec fn pre_start_step<L>(v: WorkerView<L>, e: PreStartEvent<L>) -> (
    WorkerView<L>,
    Option<Update>,
    Option<Update>,
) {
    match e {
        PreStartEvent::Listen(s, l) => (v.listen_spec(s, l).0, None, None),
        PreStartEvent::Emit(id, rtype) => (v.emit_spec(id, rtype).0, None, None),
        PreStartEvent::Data(k, value) => {
            let (w, o) = v.receive_spec(k as int, value);
            (w, o, Some(v.update_of(k as int, value)))
        },
    }
}

/// A run of events before the start: the final state, everything handed to
/// consumers, and everything producers sent, each in order.
pub open spec fn pre_start_run<L>(v: WorkerView<L>, es: Seq<PreStartEvent<L>>) -> (
    WorkerView<L>,
    Seq<Update>,
    Seq<Update>,
)
    decreases es.len(),
{
    if es.len() == 0 {
        (v, Seq::empty(), Seq::empty())
    } else {
        let (w, handed, sent) = pre_start_run(v, es.drop_last());
        let (w2, o, x) = pre_start_step(w, es.last());
        (
            w2,
            match o {
                Some(u) => handed.push(u),
                None => handed,
            },
            match x {
                Some(u) => sent.push(u),
                None => sent,
            },
        )
    }
}

/// Whatever mix of registrations and values comes before the start, no
/// consumer is handed anything before it; the values wait behind those
/// already queued; the start then hands out every queued value, once each
/// and in arrival order, to the fields that have a consumer by then; a
/// later start hands out nothing more.
pub proof fn lemma_pre_start_values_delivered_once<L>(v: WorkerView<L>, es: Seq<PreStartEvent<L>>)
    requires
        v.phase == Phase::NotStarted,
    ensures
        ({
            let (w, handed, sent) = pre_start_run(v, es);
            let (x, out) = w.start_spec();
            &&& handed.len() == 0
            &&& w.phase == Phase::NotStarted
            &&& w.queue == v.queue + sent
            &&& out == attached_updates(v.queue + sent, w.listeners)
            &&& x.phase == Phase::Running
            &&& x.queue.len() == 0
            &&& x.start_spec().1.len() == 0
        }),
    decreases es.len(),
{
    if es.len() > 0 {
        lemma_pre_start_values_delivered_once(v, es.drop_last());
        let w = pre_start_run(v, es.drop_last()).0;
        match es.last() {
            PreStartEvent::Listen(s, l) => {
                lemma_resolve_keeps_rest(w, s);
            },
            PreStartEvent::Emit(id, rtype) => {
                lemma_resolve_keeps_rest(w, Shape::Input { id, rtype });
            },
            PreStartEvent::Data(k, value) => {
                let sent = pre_start_run(v, es.drop_last()).2;
                assert(v.queue + sent.push(w.update_of(k as int, value)) == (v.queue + sent).push(
                    w.update_of(k as int, value),
                ));
            },
        }
    }
}

/// After the start, a value sent through the producer attached for an
/// input is handed to the consumer of a handle exactly when the handle is
/// bound to that input's slot and a consumer is attached there; it is
/// written to that slot alone.
pub proof fn lemma_running_value_reaches_matching_listener<L>(
    v: WorkerView<L>,
    id: u64,
    rtype: Type,
    s: Shape,
    value: Wrapper,
)
    requires
        v.wf(),
        v.phase == Phase::Running,
    ensures
        ({
            let (w, k) = v.emit_spec(id, rtype);
            let f = lookup(w.inputs, w.sums, Shape::Input { id, rtype })->0;
            let (x, o) = w.receive_spec(k as int, value);
            &&& lookup(w.inputs, w.sums, Shape::Input { id, rtype }) is Some
            &&& w.emitter_fields[k as int] == f
            &&& x.fields == w.fields.update(f as int, value)
            &&& x.listeners == w.listeners
            &&& (lookup(w.inputs, w.sums, s) is Some ==> ((o matches Some(u) && u.input_pos
                == lookup(w.inputs, w.sums, s)->0) <==> (lookup(w.inputs, w.sums, s)->0 == f
                && w.listeners[f as int] is Some)))
            &&& (o matches Some(u) ==> u == Update { input_pos: f, value })
        }),
{
    let sh = Shape::Input { id, rtype };
    lemma_resolve_binds(v, sh);
    lemma_resolve_keeps_rest(v, sh);
    let (w, k) = v.emit_spec(id, rtype);
    assert(k as int == v.emitter_fields.len());
}

/// Detaching the consumer of slot `f` stops deliveries to that slot only:
/// every other slot's consumer and every write stay as they were.
pub proof fn lemma_closed_listener_isolated<L>(v: WorkerView<L>, f: int, k: int, value: Wrapper)
    requires
        v.wf(),
        0 <= f < v.listeners.len(),
        0 <= k < v.emitters.len(),
    ensures
        ({
            let w = v.detach_spec(f);
            let (a, oa) = v.receive_spec(k, value);
            let (b, ob) = w.receive_spec(k, value);
            &&& forall|g: int| 0 <= g < v.listeners.len() && g != f ==> #[trigger] w.listeners[g] == v.listeners[g]
            &&& w.listeners[f] is None
            &&& b.fields == a.fields
            &&& b.queue == a.queue
            &&& ob == (if v.emitter_fields[k] as int == f {
                None
            } else {
                oa
            })
        }),
{
}

/// Closing producer slot `k` leaves every other producer slot attached,
/// feeding the same field, with the same effect for its values.
pub proof fn lemma_closed_emitter_isolated<L>(v: WorkerView<L>, k: int, j: int, value: Wrapper)
    requires
        0 <= k < v.emitters.len(),
        0 <= j < v.emitters.len(),
        j != k,
    ensures
        ({
            let c = v.close_emitter_spec(k);
            let (a, oa) = v.receive_spec(j, value);
            let (b, ob) = c.receive_spec(j, value);
            &&& !c.emitters[k]
            &&& c.emitters.len() == v.emitters.len()
            &&& c.emitters[j] == v.emitters[j]
            &&& c.emitter_fields == v.emitter_fields
            &&& b == a.close_emitter_spec(k)
            &&& ob == oa
        }),
{
}

/// Shutdown ends the worker from any phase and applies nothing that is
/// still queued.
pub proof fn lemma_shutdown_applies_nothing<L>(v: WorkerView<L>)
    ensures
        v.shutdown_spec().phase == Phase::Terminated,
        v.shutdown_spec().fields == v.fields,
        v.shutdown_spec().listeners == v.listeners,
{
}

/// A start on a started worker hands out nothing and changes nothing.
pub proof fn lemma_second_start_changes_nothing<L>(v: WorkerView<L>)
    requires
        v.phase == Phase::NotStarted,
    ensures
        ({
            let (w, out) = v.start_spec();
            let (x, again) = w.start_spec();
            &&& x == w
            &&& again.len() == 0
        }),
{
}

} // verus!
