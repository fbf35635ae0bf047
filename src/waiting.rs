use vstd::prelude::*;

verus! {

/// The result of a command that a caller may block on.
pub trait Waiting<T> {
    /// Blocks until the command has been carried out.
    fn wait(self) -> T;
}

/// The result of a command that a caller may also take at once, without
/// knowing whether the command has been carried out yet.
pub trait MaybeWaiting<T>: Waiting<T> {
    fn immediate(self) -> T;
}

} // verus!
