//! Return values enum. It is used by the VM for running atoms and handing
//! their run statuses back to the main loop.
use vstd::prelude::*;
use crate::global::Offs;

verus! {

/// What one atom run produced.
pub enum Return {
    /// A plain status code ([`crate::global::RET_OK`] or
    /// [`crate::global::RET_SKIPPED`]).
    Code(u8),
    /// A job atom asks the main loop to add a VM with this energy at this
    /// offset.
    AddVm(isize, Offs),
}

} // verus!
