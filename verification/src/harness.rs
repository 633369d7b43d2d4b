//! The browser harness drives a BoxLang call to completion by pumping the VM
//! and looking at the call's future after each pump. This module holds what
//! it decides from each look; the pumping and the yielding stay with the host.

use vstd::prelude::*;

verus! {

/// What the harness does after looking at the call's future.
pub enum FutureStep<O> {
    /// Still pending: yield to the browser and pump again.
    YieldAndPump,
    /// Resolved: hand back the value (null when there is none).
    Resolve(Option<O>),
    /// Rejected: hand back the error value (null when there is none).
    Reject(Option<O>),
    /// A state the VM does not define: fail.
    Fail,
}

/// Decides the next step from a future's state code (0 pending, 1 resolved,
/// 2 rejected) and its settled value.
pub fn future_step<O>(state: u64, value: Option<O>) -> (res: FutureStep<O>)
    ensures
        state == 0 ==> res is YieldAndPump,
        state == 1 ==> res == FutureStep::Resolve(value),
        state == 2 ==> res == FutureStep::Reject(value),
        state > 2 ==> res is Fail,
{
    if state == 0 {
        FutureStep::YieldAndPump
    } else if state == 1 {
        FutureStep::Resolve(value)
    } else if state == 2 {
        FutureStep::Reject(value)
    } else {
        FutureStep::Fail
    }
}

} // verus!
