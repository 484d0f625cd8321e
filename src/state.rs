//! The state that RPC handlers receive.
use vstd::prelude::*;

verus! {

/// What every RPC handler is called with besides its identity and parameters;
/// `M` is the store.
#[derive(Debug, Clone)]
pub struct RpcState<M> {
    pub mm: M,
}

impl<M> RpcState<M> {
    pub fn new(mm: M) -> (r: Self)
        ensures
            r.mm == mm,
    {
        RpcState { mm }
    }

    /// The store, for handlers that need nothing else.
    pub fn into_mm(self) -> (r: M)
        ensures
            r == self.mm,
    {
        self.mm
    }
}

} // verus!
