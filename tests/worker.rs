use crossbeam_channel::unbounded;
use crossbeam_channel::Receiver;
use crossbeam_channel::Sender;

use simple_engine::internal::Impl;
use simple_engine::internal::Phase;
use simple_engine::operators::add;
use simple_engine::operators::input;
use simple_engine::operators::InputRefSource;
use simple_engine::transport::ChannelClosed;
use simple_engine::transport::Listener;
use simple_engine::types::RType;
use simple_engine::types::Type;
use simple_engine::types::Wrapper;

struct ChanListener(Sender<u64>);

impl Listener for ChanListener {
    fn accept(&self, wrapper: Wrapper) -> Result<(), ChannelClosed> {
        self.0.send(u64::coerce(wrapper)).map_err(|_| ChannelClosed)
    }
}

fn listener() -> (ChanListener, Receiver<u64>) {
    let (s, r) = unbounded();
    (ChanListener(s), r)
}

fn pass_on(engine: &mut Impl<ChanListener>, out: Option<simple_engine::commands::Update>) {
    if let Some(u) = out {
        engine.deliver(u);
    }
}

fn start(engine: &mut Impl<ChanListener>) {
    for u in engine.start().expect("first start") {
        engine.deliver(u);
    }
}

#[test]
fn values_before_start_wait_and_arrive_once_in_order() {
    let mut ids = InputRefSource::new();
    let (i, sig) = input::<u64>(&mut ids);
    let mut engine: Impl<ChanListener> = Impl::new();
    let slot = engine.add_emitter(i, Type::U64);
    let (l, rx) = listener();
    engine.add_listener(sig.get_desc(), l);
    for v in [5u64, 6, 7] {
        assert!(engine.receive(slot, v.wrap()).is_none());
    }
    assert!(rx.try_recv().is_err());
    assert_eq!(engine.field(0), Wrapper::U64(0));
    start(&mut engine);
    assert_eq!(rx.try_iter().collect::<Vec<_>>(), vec![5, 6, 7]);
    assert_eq!(engine.field(0), Wrapper::U64(7));
    assert!(engine.start().is_none());
    assert!(rx.try_recv().is_err());
}

#[test]
fn listener_registered_after_sends_but_before_start_gets_them() {
    let mut ids = InputRefSource::new();
    let (i, sig) = input::<u64>(&mut ids);
    let mut engine: Impl<ChanListener> = Impl::new();
    let slot = engine.add_emitter(i, Type::U64);
    assert!(engine.receive(slot, 42u64.wrap()).is_none());
    let (l, rx) = listener();
    engine.add_listener(sig.get_desc(), l);
    start(&mut engine);
    assert_eq!(rx.try_iter().collect::<Vec<_>>(), vec![42]);
}

#[test]
fn running_value_reaches_only_matching_listener() {
    let mut ids = InputRefSource::new();
    let (a, sig_a) = input::<u64>(&mut ids);
    let (_b, sig_b) = input::<u64>(&mut ids);
    let mut engine: Impl<ChanListener> = Impl::new();
    start(&mut engine);
    let slot = engine.add_emitter(a, Type::U64);
    let (la, rxa) = listener();
    let (lb, rxb) = listener();
    engine.add_listener(sig_a.get_desc(), la);
    engine.add_listener(sig_b.get_desc(), lb);
    let out = engine.receive(slot, 9u64.wrap());
    assert_eq!(out.map(|u| u.input_pos), Some(0));
    pass_on(&mut engine, out);
    assert_eq!(rxa.try_recv(), Ok(9));
    assert!(rxb.try_recv().is_err());
    assert_eq!(engine.field(1), Wrapper::U64(0));
}

#[test]
fn identical_descriptors_share_one_field() {
    let mut ids = InputRefSource::new();
    let (a, sig_a) = input::<u64>(&mut ids);
    let (b, sig_b) = input::<u64>(&mut ids);
    let sum1 = add(sig_a.clone(), sig_b.clone());
    let sum2 = add(sig_a.clone(), sig_b.clone());
    let mut engine: Impl<ChanListener> = Impl::new();
    let (l1, _rx1) = listener();
    let (l2, rx2) = listener();
    let f1 = engine.add_listener(sum1.get_desc(), l1);
    let f2 = engine.add_listener(sum2.get_desc(), l2);
    assert_eq!(f1, f2);
    assert_eq!(f1, 2);
    let fa = engine.add_listener(sig_a.get_desc(), listener().0);
    assert_eq!(fa, 0);
    let sa = engine.add_emitter(a, Type::U64);
    let sb = engine.add_emitter(b, Type::U64);
    assert_eq!((sa, sb), (0, 1));
    assert_eq!(engine.emitter_count(), 2);
    let _ = rx2;
}

#[test]
fn independently_built_handles_reach_each_other() {
    let mut ids = InputRefSource::new();
    let (i, sig) = input::<u64>(&mut ids);
    let copy = sig.clone();
    let mut engine: Impl<ChanListener> = Impl::new();
    start(&mut engine);
    let (l, rx) = listener();
    engine.add_listener(copy.get_desc(), l);
    let slot = engine.add_emitter(i, Type::U64);
    let out = engine.receive(slot, 3u64.wrap());
    pass_on(&mut engine, out);
    assert_eq!(rx.try_recv(), Ok(3));
}

#[test]
fn sum_is_computed_once_from_current_values() {
    let mut ids = InputRefSource::new();
    let (a, sig_a) = input::<u64>(&mut ids);
    let (b, sig_b) = input::<u64>(&mut ids);
    let mut engine: Impl<ChanListener> = Impl::new();
    start(&mut engine);
    let sa = engine.add_emitter(a, Type::U64);
    let sb = engine.add_emitter(b, Type::U64);
    engine.receive(sa, 40u64.wrap());
    engine.receive(sb, 2u64.wrap());
    let sum = add(sig_a, sig_b);
    let (l, rx) = listener();
    let f = engine.add_listener(sum.get_desc(), l);
    assert_eq!(f, 2);
    assert_eq!(engine.field(f), Wrapper::U64(42));
    engine.receive(sa, 100u64.wrap());
    assert_eq!(engine.field(f), Wrapper::U64(42));
    assert!(rx.try_recv().is_err());
}

#[test]
fn sum_of_fresh_inputs_is_zero() {
    let mut ids = InputRefSource::new();
    let (_a, sig_a) = input::<u64>(&mut ids);
    let (_b, sig_b) = input::<u64>(&mut ids);
    let mut engine: Impl<ChanListener> = Impl::new();
    let f = engine.add_listener(add(sig_a, sig_b).get_desc(), listener().0);
    assert_eq!(f, 2);
    assert_eq!(engine.field(2), Wrapper::U64(0));
}

#[test]
fn closed_listener_is_detached_without_error() {
    let mut ids = InputRefSource::new();
    let (i, sig) = input::<u64>(&mut ids);
    let (j, sig_j) = input::<u64>(&mut ids);
    let mut engine: Impl<ChanListener> = Impl::new();
    start(&mut engine);
    let si = engine.add_emitter(i, Type::U64);
    let sj = engine.add_emitter(j, Type::U64);
    let (l, rx) = listener();
    let (lj, rxj) = listener();
    engine.add_listener(sig.get_desc(), l);
    engine.add_listener(sig_j.get_desc(), lj);
    drop(rx);
    let out = engine.receive(si, 1u64.wrap()).expect("listener attached");
    assert!(engine.deliver(out));
    assert!(engine.receive(si, 2u64.wrap()).is_none());
    assert_eq!(engine.field(0), Wrapper::U64(2));
    let out = engine.receive(sj, 8u64.wrap()).expect("other listener attached");
    assert!(!engine.deliver(out));
    assert_eq!(rxj.try_recv(), Ok(8));
}

#[test]
fn closed_emitter_leaves_others_alone() {
    let mut ids = InputRefSource::new();
    let (i, _) = input::<u64>(&mut ids);
    let (j, sig_j) = input::<u64>(&mut ids);
    let mut engine: Impl<ChanListener> = Impl::new();
    start(&mut engine);
    let si = engine.add_emitter(i, Type::U64);
    let sj = engine.add_emitter(j, Type::U64);
    let (lj, rxj) = listener();
    engine.add_listener(sig_j.get_desc(), lj);
    engine.close_emitter(si);
    assert!(!engine.emitter_live(si));
    assert!(engine.emitter_live(sj));
    let sk = engine.add_emitter(i, Type::U64);
    assert_eq!(sk, 2);
    let out = engine.receive(sj, 11u64.wrap());
    pass_on(&mut engine, out);
    assert_eq!(rxj.try_recv(), Ok(11));
}

#[test]
fn shutdown_before_start_applies_nothing() {
    let mut ids = InputRefSource::new();
    let (i, sig) = input::<u64>(&mut ids);
    let mut engine: Impl<ChanListener> = Impl::new();
    let slot = engine.add_emitter(i, Type::U64);
    let (l, rx) = listener();
    engine.add_listener(sig.get_desc(), l);
    assert!(engine.receive(slot, 42u64.wrap()).is_none());
    engine.shutdown();
    assert_eq!(engine.phase(), Phase::Terminated);
    assert_eq!(engine.field(0), Wrapper::U64(0));
    assert!(rx.try_recv().is_err());
}

#[test]
fn second_start_changes_nothing() {
    let mut ids = InputRefSource::new();
    let (i, sig) = input::<u64>(&mut ids);
    let mut engine: Impl<ChanListener> = Impl::new();
    let slot = engine.add_emitter(i, Type::U64);
    let (l, rx) = listener();
    engine.add_listener(sig.get_desc(), l);
    engine.receive(slot, 42u64.wrap());
    start(&mut engine);
    assert!(engine.start().is_none());
    assert_eq!(engine.phase(), Phase::Running);
    assert_eq!(rx.try_iter().collect::<Vec<_>>(), vec![42]);
    assert_eq!(engine.field(0), Wrapper::U64(42));
}

#[test]
fn settle_delivery_detaches_only_on_refusal() {
    let mut ids = InputRefSource::new();
    let (i, sig) = input::<u64>(&mut ids);
    let mut engine: Impl<ChanListener> = Impl::new();
    start(&mut engine);
    let slot = engine.add_emitter(i, Type::U64);
    let (l, rx) = listener();
    let f = engine.add_listener(sig.get_desc(), l);
    assert!(!engine.settle_delivery(f, true));
    let out = engine.receive(slot, 4u64.wrap());
    assert!(out.is_some());
    pass_on(&mut engine, out);
    assert_eq!(rx.try_recv(), Ok(4));
    assert!(engine.settle_delivery(f, false));
    assert!(engine.receive(slot, 5u64.wrap()).is_none());
    assert!(rx.try_recv().is_err());
}

#[test]
fn create_update_targets_the_emitters_field() {
    let mut ids = InputRefSource::new();
    let (_a, _) = input::<u64>(&mut ids);
    let (b, sig_b) = input::<u64>(&mut ids);
    let mut engine: Impl<ChanListener> = Impl::new();
    let f = engine.add_listener(sig_b.get_desc(), listener().0);
    let slot = engine.add_emitter(b, Type::U64);
    let u = engine.create_update(slot, 6u64.wrap());
    assert_eq!(u.input_pos, f);
    assert_eq!(u.value, Wrapper::U64(6));
}
