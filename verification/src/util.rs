//! Questions about the running runtime.

use vstd::prelude::*;

verus! {

/// Whether operations go through completions. `current` says whether the driver of the running
/// runtime offers them, if a runtime is running.
pub fn supports_completion(current: Option<bool>) -> (supported: bool)
    ensures
        supported == (current == Some(true)),
{
    match current {
        Some(supported) => supported,
        None => false,
    }
}

/// Whether file operations are given to the blocking pool. `current` is what the running runtime
/// was told, if a runtime is running.
pub fn offload_fs(current: Option<bool>) -> (offloaded: bool)
    ensures
        offloaded == (current == Some(true)),
{
    match current {
        Some(offloaded) => offloaded,
        None => false,
    }
}

/// Completions are used just if a runtime is running whose driver offers them, and the blocking pool
/// is given file operations just if a runtime is running that was told so.
pub proof fn law_runtime_decides(current: Option<bool>, supported: bool, offloaded: bool)
    requires
        call_ensures(supports_completion, (current,), supported),
        call_ensures(offload_fs, (current,), offloaded),
    ensures
        supported <==> current is Some && current->0,
        offloaded <==> current is Some && current->0,
{
}

} // verus!
