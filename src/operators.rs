use std::marker::PhantomData;
use std::ops::Add;
use std::sync::Arc;
use vstd::prelude::*;

use crate::hash::Prehashed;
use crate::types::RType;
use crate::types::Type;

verus! {

/// A shared, hash-consed handle to a typed descriptor.
pub type Apt = Arc<Prehashed<Typed>>;

/// A descriptor together with the kind of value it produces.
#[derive(Clone, Hash, PartialEq, Eq, Debug)]
pub struct Typed {
    pub desc: Desc,
    pub rtype: Type,
}

/// The identity of one external input slot.
#[derive(Hash, PartialEq, Eq, Copy, Clone, Debug, Structural)]
pub struct InputRef {
    id: u64,
}

/// Hands out input identities from a counter, so that none repeats.
#[derive(Debug)]
pub struct InputRefSource {
    next: u64,
}

/// How a signal's value is produced: an external input, or the sum of two
/// other signals.
#[derive(Hash, PartialEq, Eq, Clone, Debug)]
pub enum Desc {
    Input(InputRef),
    Add(Apt, Apt),
}

/// The structure of a typed descriptor, with the stored hashes left out.
pub enum Shape {
    Input { id: u64, rtype: Type },
    Add { left: Box<Shape>, right: Box<Shape>, rtype: Type },
}

impl InputRef {
    /// The number that identifies this input.
    pub closed spec fn id_spec(&self) -> u64 {
        self.id
    }

    pub fn id(&self) -> (r: u64)
        ensures
            r == self.id_spec(),
    {
        self.id
    }

    /// Draws the next identity from `source`.
    pub fn new(source: &mut InputRefSource) -> (r: Self)
        requires
            old(source).next_spec() < u64::MAX,
        ensures
            r.id_spec() == old(source).next_spec(),
            final(source).next_spec() == old(source).next_spec() + 1,
    {
        let id = source.next;
        source.next = source.next + 1;
        InputRef { id }
    }
}

impl InputRefSource {
    /// The identity that the next draw hands out.
    pub closed spec fn next_spec(&self) -> u64 {
        self.next
    }

    pub fn new() -> (r: Self)
        ensures
            r.next_spec() == 0,
    {
        InputRefSource { next: 0 }
    }

    pub fn next_id(&self) -> (r: u64)
        ensures
            r == self.next_spec(),
    {
        self.next
    }
}

/// The structure of a typed descriptor.
pub open spec fn shape_of(t: Typed) -> Shape
    decreases t,
    via shape_decreases
{
    match t.desc {
        Desc::Input(r) => Shape::Input { id: r.id_spec(), rtype: t.rtype },
        Desc::Add(left, right) => Shape::Add {
            left: Box::new(shape_of(left.value())),
            right: Box::new(shape_of(right.value())),
            rtype: t.rtype,
        },
    }
}

impl Typed {
    /// The structure of this descriptor.
    pub open spec fn shape(&self) -> Shape {
        shape_of(*self)
    }
}

#[via_fn]
proof fn shape_decreases(t: Typed) {
        match t.desc {
            Desc::Input(_) => {},
            Desc::Add(left, right) => {
                left.lemma_value_decreases();
                right.lemma_value_decreases();
            },
        }
}

impl Desc {
    pub fn with_type<T: RType>(self) -> (r: Typed)
        ensures
            r.desc == self,
            r.rtype == T::tag(),
    {
        Typed { desc: self, rtype: T::into_type() }
    }
}

/// A client-side handle to a signal producing values of type `T`.
pub struct Signal<T>(Apt, PhantomData<T>);

impl<T> Clone for Signal<T> {
    fn clone(&self) -> (r: Self)
        ensures
            r.shape() == self.shape(),
    {
        Signal(Arc::clone(&self.0), PhantomData)
    }
}

impl<T> Signal<T> {
    /// The structure of the descriptor behind this handle.
    pub closed spec fn shape(&self) -> Shape {
        self.0.value().shape()
    }

    /// The shared handle behind this signal.
    pub closed spec fn handle(&self) -> Apt {
        self.0
    }

    /// The kind of value this handle produces.
    pub closed spec fn rtype_spec(&self) -> Type {
        self.0.value().rtype
    }

    pub fn get_desc(&self) -> (r: Apt)
        ensures
            r == self.handle(),
            r.value().shape() == self.shape(),
            r.value().rtype == self.rtype_spec(),
    {
        Arc::clone(&self.0)
    }

    pub fn get_type(self) -> (r: Type)
        ensures
            r == self.rtype_spec(),
    {
        Prehashed::as_ref(&self.0).rtype
    }

    pub fn from(desc: Typed) -> (r: Self)
        ensures
            r.shape() == desc.shape(),
            r.rtype_spec() == desc.rtype,
    {
        Signal(Arc::new(Prehashed::from(desc)), PhantomData)
    }
}

/// Makes a fresh input and a handle to its signal.
pub fn input<T: RType>(source: &mut InputRefSource) -> (r: (InputRef, Signal<T>))
    requires
        old(source).next_spec() < u64::MAX,
    ensures
        r.0.id_spec() == old(source).next_spec(),
        final(source).next_spec() == old(source).next_spec() + 1,
        r.1.shape() == (Shape::Input { id: r.0.id_spec(), rtype: T::tag() }),
        r.1.rtype_spec() == T::tag(),
{
    let input_ref = InputRef::new(source);
    let sig = Signal::from(Desc::Input(input_ref).with_type::<T>());
    (input_ref, sig)
}

/// The handle to the sum of two signals.
pub fn add<T, Rhs>(left: Signal<T>, right: Signal<Rhs>) -> (r: Signal<<T as Add<Rhs>>::Output>)
    where
        T: RType,
        Rhs: RType,
        T: Add<Rhs>,
        <T as Add<Rhs>>::Output: RType,
    ensures
        r.shape() == (Shape::Add {
            left: Box::new(left.shape()),
            right: Box::new(right.shape()),
            rtype: <T as Add<Rhs>>::Output::tag(),
        }),
        r.rtype_spec() == <T as Add<Rhs>>::Output::tag(),
{
    Signal::from(Desc::Add(left.get_desc(), right.get_desc()).with_type::<T::Output>())
}

} // verus!
