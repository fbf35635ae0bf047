use vstd::prelude::*;

use crate::types::Wrapper;

verus! {

/// The far end of a channel is gone.
#[derive(Debug, Clone, Copy, PartialEq, Eq, Structural)]
pub struct ChannelClosed;

/// A consumer attached to one field: it takes values in the untyped form and
/// forwards them in its own type.
pub trait Listener {
    fn accept(&self, wrapper: Wrapper) -> Result<(), ChannelClosed>;
}

} // verus!
