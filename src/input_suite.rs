use vstd::prelude::*;

use crate::commands::Update;
use crate::internal::attached_updates;
use crate::internal::lemma_attached_within;
use crate::internal::Impl;
use crate::internal::Phase;
use crate::operators::input;
use crate::operators::InputRefSource;
use crate::transport::ChannelClosed;
use crate::transport::Listener;
use crate::types::RType;
use crate::types::Wrapper;

verus! {

/// A consumer whose channel never closes.
pub struct AcceptAll;

impl Listener for AcceptAll {
    fn accept(&self, wrapper: Wrapper) -> Result<(), ChannelClosed> {
        Ok(())
    }
}

/// The plain value of a wrapped number.
pub open spec fn number_of(w: Wrapper) -> u64 {
    match w {
        Wrapper::U64(x) => x,
    }
}

/// The values of `us`, in order, that are bound for field slot `field`.
pub open spec fn received(us: Seq<Update>, field: usize) -> Seq<u64>
    decreases us.len(),
{
    if us.len() == 0 {
        Seq::empty()
    } else {
        let rest = received(us.drop_last(), field);
        if us.last().input_pos == field {
            rest.push(number_of(us.last().value))
        } else {
            rest
        }
    }
}

proof fn lemma_received_one(u: Update, field: usize)
    ensures
        received(seq![u], field) == (if u.input_pos == field {
            seq![number_of(u.value)]
        } else {
            Seq::empty()
        }),
{
    assert(seq![u].drop_last() == Seq::<Update>::empty());
    assert(received(Seq::<Update>::empty(), field) == Seq::<u64>::empty());
    assert(Seq::<u64>::empty().push(number_of(u.value)) == seq![number_of(u.value)]);
}

/// Hands each of `updates` to its consumer and records, in order, the
/// values that reach field slot `field`.
fn hand_out(engine: &mut Impl<AcceptAll>, updates: Vec<Update>, field: usize, seen: &mut Vec<u64>)
    requires
        old(engine).wf(),
        forall|i: int| 0 <= i < updates@.len() ==> #[trigger] updates@[i].input_pos < old(engine)@.fields.len(),
    ensures
        final(engine).wf(),
        final(engine)@.fields == old(engine)@.fields,
        final(engine)@.emitters == old(engine)@.emitters,
        final(engine)@.emitter_fields == old(engine)@.emitter_fields,
        final(engine)@.inputs == old(engine)@.inputs,
        final(engine)@.sums == old(engine)@.sums,
        final(engine)@.queue == old(engine)@.queue,
        final(engine)@.phase == old(engine)@.phase,
        final(engine)@.listeners.len() == old(engine)@.listeners.len(),
        final(seen)@ == old(seen)@ + received(updates@, field),
        updates@.len() == 0 ==> final(engine)@.listeners == old(engine)@.listeners,
{
    let ghost e0 = engine@;
    let ghost s0 = seen@;
    let mut i: usize = 0;
    while i < updates.len()
        invariant
            i <= updates@.len(),
            engine.wf(),
            engine@.fields == e0.fields,
            engine@.emitters == e0.emitters,
            engine@.emitter_fields == e0.emitter_fields,
            engine@.inputs == e0.inputs,
            engine@.sums == e0.sums,
            engine@.queue == e0.queue,
            engine@.phase == e0.phase,
            engine@.listeners.len() == e0.listeners.len(),
            updates@.len() == 0 ==> engine@.listeners == e0.listeners,
            forall|j: int| 0 <= j < updates@.len() ==> #[trigger] updates@[j].input_pos < e0.fields.len(),
            seen@ == s0 + received(updates@.take(i as int), field),
        decreases updates@.len() - i,
    {
        let u = updates[i];
        engine.deliver(u);
        proof {
            assert(updates@.take(i as int + 1).drop_last() == updates@.take(i as int));
            assert(updates@.take(i as int + 1).last() == u);
        }
        if u.input_pos == field {
            seen.push(u64::coerce(u.value));
        }
        i = i + 1;
        assert(seen@ == s0 + received(updates@.take(i as int), field));
    }
    proof {
        assert(updates@.take(updates@.len() as int) == updates@);
    }
}

proof fn lemma_attached_one<L>(u: Update, listeners: Seq<Option<L>>)
    ensures
        attached_updates(seq![u], listeners) == (if listeners[u.input_pos as int] is Some {
            seq![u]
        } else {
            Seq::empty()
        }),
{
    assert(seq![u].drop_last() == Seq::<Update>::empty());
    assert(attached_updates(Seq::<Update>::empty(), listeners) == Seq::<Update>::empty());
    assert(Seq::<Update>::empty().push(u) == seq![u]);
}

/// Hands the value of `out`, if any, to its consumer, recording it when it
/// is bound for field slot `field`.
fn pass_on(engine: &mut Impl<AcceptAll>, out: Option<Update>, field: usize, seen: &mut Vec<u64>)
    requires
        old(engine).wf(),
        out matches Some(u) ==> u.input_pos < old(engine)@.fields.len(),
    ensures
        final(engine).wf(),
        final(engine)@.fields == old(engine)@.fields,
        final(engine)@.emitters == old(engine)@.emitters,
        final(engine)@.emitter_fields == old(engine)@.emitter_fields,
        final(engine)@.inputs == old(engine)@.inputs,
        final(engine)@.sums == old(engine)@.sums,
        final(engine)@.queue == old(engine)@.queue,
        final(engine)@.phase == old(engine)@.phase,
        final(engine)@.listeners.len() == old(engine)@.listeners.len(),
        final(seen)@ == old(seen)@ + match out {
            Some(u) => received(seq![u], field),
            None => Seq::empty(),
        },
        out is None ==> final(engine)@ == old(engine)@,
{
    match out {
        Some(u) => {
            let us = vec![u];
            assert(us@ == seq![u]);
            hand_out(engine, us, field, seen);
        },
        None => {
            assert(seen@ == seen@ + Seq::<u64>::empty());
        },
    }
}

/// Starts the engine, handing every value released by the start to its
/// consumer, recording those bound for field slot `field`.
fn start_and_pass_on(engine: &mut Impl<AcceptAll>, field: usize, seen: &mut Vec<u64>)
    requires
        old(engine).wf(),
        old(engine)@.phase != Phase::Terminated,
    ensures
        final(engine).wf(),
        final(engine)@.fields == old(engine)@.start_spec().0.fields,
        final(engine)@.emitters == old(engine)@.emitters,
        final(engine)@.emitter_fields == old(engine)@.emitter_fields,
        final(engine)@.inputs == old(engine)@.inputs,
        final(engine)@.sums == old(engine)@.sums,
        final(engine)@.queue == old(engine)@.start_spec().0.queue,
        final(engine)@.phase == Phase::Running,
        final(engine)@.listeners.len() == old(engine)@.listeners.len(),
        final(seen)@ == old(seen)@ + received(old(engine)@.start_spec().1, field),
        old(engine)@.queue.len() == 0 ==> final(seen)@ == old(seen)@,
        old(engine)@.queue.len() == 0 ==> final(engine)@.listeners == old(engine)@.listeners,
{
    proof {
        if engine@.queue.len() == 0 {
            assert(engine@.queue == Seq::<Update>::empty());
            assert(attached_updates(engine@.queue, engine@.listeners) == Seq::<Update>::empty());
        }
        assert(received(Seq::<Update>::empty(), field) == Seq::<u64>::empty());
        assert(seen@ == seen@ + Seq::<u64>::empty());
        lemma_attached_within(engine@.queue, engine@.listeners, engine@.fields.len());
    }
    if let Some(updates) = engine.start() {
        hand_out(engine, updates, field, seen);
    }
}

/// Registers the producer, then the consumer, on a running engine; the
/// consumer gets the sent value.
#[allow(non_snake_case)]
pub fn input_forwards_signal__already_running__register_on_running() -> (r: Vec<u64>)
    ensures
        r@ == seq![42u64],
{
    let mut ids = InputRefSource::new();
    let (input_ref, signal) = input::<u64>(&mut ids);
    let mut engine: Impl<AcceptAll> = Impl::new();
    let mut seen: Vec<u64> = Vec::new();
    start_and_pass_on(&mut engine, 0, &mut seen);
    let slot = engine.add_emitter(input_ref, u64::into_type());
    let field = engine.add_listener(signal.get_desc(), AcceptAll);
    let out = engine.receive(slot, 42u64.wrap());
    proof {
        lemma_received_one(out->0, field);
    }
    pass_on(&mut engine, out, field, &mut seen);
    seen
}

/// Registers the producer and the consumer, sends, then starts: the value
/// waits for the start and then reaches the consumer.
#[allow(non_snake_case)]
pub fn input_forwards_signal__register_before_start() -> (r: Vec<u64>)
    ensures
        r@ == seq![42u64],
{
    let mut ids = InputRefSource::new();
    let (input_ref, signal) = input::<u64>(&mut ids);
    let mut engine: Impl<AcceptAll> = Impl::new();
    let mut seen: Vec<u64> = Vec::new();
    let slot = engine.add_emitter(input_ref, u64::into_type());
    let field = engine.add_listener(signal.get_desc(), AcceptAll);
    let out = engine.receive(slot, 42u64.wrap());
    pass_on(&mut engine, out, field, &mut seen);
    proof {
        let u = engine@.queue[0];
        assert(engine@.queue == seq![u]);
        lemma_attached_one(u, engine@.listeners);
        lemma_received_one(u, field);
    }
    start_and_pass_on(&mut engine, field, &mut seen);
    seen
}

/// Registers the producer, starts, then registers the consumer and sends.
#[allow(non_snake_case)]
pub fn input_forwards_signal__start_after_emitter_register() -> (r: Vec<u64>)
    ensures
        r@ == seq![42u64],
{
    let mut ids = InputRefSource::new();
    let (input_ref, signal) = input::<u64>(&mut ids);
    let mut engine: Impl<AcceptAll> = Impl::new();
    let mut seen: Vec<u64> = Vec::new();
    let slot = engine.add_emitter(input_ref, u64::into_type());
    start_and_pass_on(&mut engine, 0, &mut seen);
    let field = engine.add_listener(signal.get_desc(), AcceptAll);
    let out = engine.receive(slot, 42u64.wrap());
    proof {
        lemma_received_one(out->0, field);
    }
    pass_on(&mut engine, out, field, &mut seen);
    seen
}

/// Registers the consumer, then the producer, on a running engine.
#[allow(non_snake_case)]
pub fn input_forwards_signal__reversed__already_running() -> (r: Vec<u64>)
    ensures
        r@ == seq![42u64],
{
    let mut ids = InputRefSource::new();
    let (input_ref, signal) = input::<u64>(&mut ids);
    let mut engine: Impl<AcceptAll> = Impl::new();
    let mut seen: Vec<u64> = Vec::new();
    start_and_pass_on(&mut engine, 0, &mut seen);
    let field = engine.add_listener(signal.get_desc(), AcceptAll);
    let slot = engine.add_emitter(input_ref, u64::into_type());
    let out = engine.receive(slot, 42u64.wrap());
    proof {
        lemma_received_one(out->0, field);
    }
    pass_on(&mut engine, out, field, &mut seen);
    seen
}

/// Registers the consumer, then the producer, sends, then starts.
#[allow(non_snake_case)]
pub fn input_forwards_signal__reversed__register_before_start() -> (r: Vec<u64>)
    ensures
        r@ == seq![42u64],
{
    let mut ids = InputRefSource::new();
    let (input_ref, signal) = input::<u64>(&mut ids);
    let mut engine: Impl<AcceptAll> = Impl::new();
    let mut seen: Vec<u64> = Vec::new();
    let field = engine.add_listener(signal.get_desc(), AcceptAll);
    let slot = engine.add_emitter(input_ref, u64::into_type());
    let out = engine.receive(slot, 42u64.wrap());
    pass_on(&mut engine, out, field, &mut seen);
    proof {
        let u = engine@.queue[0];
        assert(engine@.queue == seq![u]);
        lemma_attached_one(u, engine@.listeners);
        lemma_received_one(u, field);
    }
    start_and_pass_on(&mut engine, field, &mut seen);
    seen
}

/// Registers the consumer, starts, then registers the producer and sends.
#[allow(non_snake_case)]
pub fn input_forwards_signal__reversed__start_after_emitter_register() -> (r: Vec<u64>)
    ensures
        r@ == seq![42u64],
{
    let mut ids = InputRefSource::new();
    let (input_ref, signal) = input::<u64>(&mut ids);
    let mut engine: Impl<AcceptAll> = Impl::new();
    let mut seen: Vec<u64> = Vec::new();
    let field = engine.add_listener(signal.get_desc(), AcceptAll);
    start_and_pass_on(&mut engine, field, &mut seen);
    let slot = engine.add_emitter(input_ref, u64::into_type());
    let out = engine.receive(slot, 42u64.wrap());
    proof {
        lemma_received_one(out->0, field);
    }
    pass_on(&mut engine, out, field, &mut seen);
    seen
}

} // verus!
