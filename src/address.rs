use vstd::prelude::*;

verus! {

/// A principal (an account) as the engine sees it: an opaque identity that is
/// only ever compared for equality.
#[derive(Clone, Copy, Debug, PartialEq, Eq, Structural, PartialOrd, Ord, Hash)]
pub struct Address(pub u64);

} // verus!
