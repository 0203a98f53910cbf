//! The checks the plugin makes before it hooks anything.
use vstd::prelude::*;

verus! {

/// What the plugin answers the host that loads it.
#[derive(Clone, Copy, Debug, PartialEq, Eq, Structural)]
pub enum InitResult {
    Error,
    Success,
}

/// Whether the plugin can start: the host must hand it a function table
/// and speak at least the plugin interface version it was built for.
pub fn init_precheck(vtable_present: bool, version: i32, required_version: i32) -> (r: InitResult)
    ensures
        r == if vtable_present && version >= required_version {
            InitResult::Success
        } else {
            InitResult::Error
        },
{
    if !vtable_present {
        return InitResult::Error;
    }
    if version < required_version {
        return InitResult::Error;
    }
    InitResult::Success
}

} // verus!
