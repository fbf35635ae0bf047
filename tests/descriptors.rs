use simple_engine::hash::Prehashed;
use simple_engine::operators::add;
use simple_engine::operators::input;
use simple_engine::operators::Desc;
use simple_engine::operators::InputRef;
use simple_engine::operators::InputRefSource;
use simple_engine::operators::Signal;
use simple_engine::operators::Typed;
use simple_engine::types::RType;
use simple_engine::types::Type;
use simple_engine::types::Wrapper;

#[test]
fn input_refs_count_up() {
    let mut ids = InputRefSource::new();
    let a = InputRef::new(&mut ids);
    let (b, _) = input::<u64>(&mut ids);
    assert_eq!((a.id(), b.id()), (0, 1));
    assert_eq!(ids.next_id(), 2);
    assert_ne!(a, b);
}

#[test]
fn zeroed_and_kinds() {
    assert_eq!(Wrapper::zeroed(Type::U64), Wrapper::U64(0));
    assert_eq!(Wrapper::U64(3).rtype(), Type::U64);
    assert_eq!(u64::into_type(), Type::U64);
    assert_eq!(7u64.wrap(), Wrapper::U64(7));
    assert_eq!(u64::coerce(Wrapper::U64(9)), 9);
}

#[test]
fn wrapper_addition() {
    assert_eq!(Wrapper::U64(40).add(&Wrapper::U64(2)), Wrapper::U64(42));
    assert_eq!(Wrapper::U64(u64::MAX).add(&Wrapper::U64(1)), Wrapper::U64(0));
}

#[test]
fn signals_report_type_and_structure() {
    let mut ids = InputRefSource::new();
    let (i, sig) = input::<u64>(&mut ids);
    let desc = sig.get_desc();
    assert_eq!(Prehashed::as_ref(&desc).desc, Desc::Input(i));
    assert_eq!(sig.clone().get_type(), Type::U64);
    let (_, other) = input::<u64>(&mut ids);
    let sum = add(sig, other);
    assert_eq!(sum.get_type(), Type::U64);
}

#[test]
fn structurally_equal_handles_are_equal() {
    let mut ids = InputRefSource::new();
    let (a, sa) = input::<u64>(&mut ids);
    let (b, sb) = input::<u64>(&mut ids);
    let s1 = add(sa.clone(), sb.clone());
    let s2 = add(
        Signal::<u64>::from(Desc::Input(a).with_type::<u64>()),
        Signal::<u64>::from(Desc::Input(b).with_type::<u64>()),
    );
    assert_eq!(s1.get_desc(), s2.get_desc());
    assert_eq!(s1.get_desc().hash_value(), s2.get_desc().hash_value());
    let s3 = add(sb, sa);
    assert_ne!(s1.get_desc(), s3.get_desc());
}

#[test]
fn prehashed_keeps_value_and_hash() {
    let p = Prehashed::from(5u64);
    let q = Prehashed::from(5u64);
    let r = Prehashed::from(6u64);
    assert_eq!(*p.as_ref(), 5);
    assert_eq!(p.hash_value(), q.hash_value());
    assert_ne!(p.hash_value(), r.hash_value());
    assert_eq!(p, q);
    assert_ne!(p, r);
    let t = Typed { desc: Desc::Input(InputRef::new(&mut InputRefSource::new())), rtype: Type::U64 };
    assert_eq!(Prehashed::from(t.clone()), Prehashed::from(t));
}
