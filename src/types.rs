use vstd::prelude::*;

verus! {

/// The closed set of value kinds a signal can carry.
#[derive(Debug, Hash, PartialEq, Eq, Copy, Clone, Structural)]
pub enum Type {
    U64,
}

/// One value of any supported kind, as the worker stores and moves it.
#[derive(Debug, Hash, PartialEq, Eq, Copy, Clone, Structural)]
pub enum Wrapper {
    U64(u64),
}

/// The value a freshly created slot of the given kind holds.
pub open spec fn zero_of(rtype: Type) -> Wrapper {
    match rtype {
        Type::U64 => Wrapper::U64(0),
    }
}

/// The kind of a wrapped value.
pub open spec fn type_of(w: Wrapper) -> Type {
    match w {
        Wrapper::U64(_) => Type::U64,
    }
}

/// Numeric addition of two values of the same kind; a sum past the top of
/// the range wraps around.
pub open spec fn sum_of(a: Wrapper, b: Wrapper) -> Wrapper {
    match (a, b) {
        (Wrapper::U64(x), Wrapper::U64(y)) => Wrapper::U64(
            ((x as int + y as int) % 0x1_0000_0000_0000_0000) as u64,
        ),
    }
}

impl Wrapper {
    pub fn zeroed(rtype: Type) -> (r: Self)
        ensures
            r == zero_of(rtype),
    {
        match rtype {
            Type::U64 => Wrapper::U64(0),
        }
    }

    pub fn rtype(&self) -> (r: Type)
        ensures
            r == type_of(*self),
    {
        match self {
            Wrapper::U64(_) => Type::U64,
        }
    }

    pub fn add(&self, other: &Wrapper) -> (r: Wrapper)
        ensures
            r == sum_of(*self, *other),
    {
        match (self, other) {
            (Wrapper::U64(x), Wrapper::U64(y)) => Wrapper::U64(x.wrapping_add(*y)),
        }
    }
}

/// A Rust type that the engine can carry: it names its kind and converts to
/// and from [`Wrapper`].
pub trait RType: Sized + Send + Sync + 'static {
    /// The kind tag of this type.
    spec fn tag() -> Type;

    /// How a value of this type is wrapped.
    spec fn wrapped(v: Self) -> Wrapper;

    fn into_type() -> (r: Type)
        ensures
            r == Self::tag(),
    ;

    fn coerce(wrapper: Wrapper) -> (r: Self)
        requires
            type_of(wrapper) == Self::tag(),
        ensures
            Self::wrapped(r) == wrapper,
    ;

    fn wrap(self) -> (r: Wrapper)
        ensures
            r == Self::wrapped(self),
            type_of(r) == Self::tag(),
    ;
}

impl RType for u64 {
    open spec fn tag() -> Type {
        Type::U64
    }

    open spec fn wrapped(v: u64) -> Wrapper {
        Wrapper::U64(v)
    }

    fn into_type() -> (r: Type) {
        Type::U64
    }

    fn coerce(wrapper: Wrapper) -> (r: u64) {
        match wrapper {
            Wrapper::U64(value) => value,
        }
    }

    fn wrap(self) -> (r: Wrapper) {
        Wrapper::U64(self)
    }
}

} // verus!
