//! What the operations do, told by their arguments and results alone.
//!
//! Each law speaks of a call: whenever the named function, given these arguments, gives this
//! result and leaves its receiver so, the relation holds. The relations are over the fields of
//! the values that go in and come out.

use vstd::prelude::*;

use crate::handle::TaskHandle;
use crate::time::Timestamp;

pub mod control;
pub mod driving;
pub mod history;
pub mod making;
pub mod retrying;
pub mod running;
pub mod scheduling;
pub mod storing;

verus! {

/// Whether the instant `at` has come at `now`.
pub open spec fn has_come(at: Timestamp, now: Timestamp) -> bool {
    at.secs < now.secs || (at.secs == now.secs && at.nanos <= now.nanos)
}

/// Whether a task is called `name`.
pub open spec fn is_called(handle: TaskHandle, name: Seq<char>) -> bool {
    match handle.name {
        Some(text) => text@ == name,
        None => false,
    }
}

/// Whether no two tasks have the same id.
pub open spec fn ids_differ(registry: Seq<TaskHandle>) -> bool {
    forall|i: int, j: int|
        0 <= i < registry.len() && 0 <= j < registry.len() && i != j ==> (#[trigger] registry[i]).id
            != (#[trigger] registry[j]).id
}

/// Whether no two tasks have the same name.
pub open spec fn names_differ(registry: Seq<TaskHandle>) -> bool {
    forall|i: int, j: int, name: Seq<char>|
        0 <= i < registry.len() && 0 <= j < registry.len() && #[trigger] is_called(
            registry[i],
            name,
        ) && #[trigger] is_called(registry[j], name) ==> i == j
}

/// Whether some task has the id `id`.
pub open spec fn knows_id(registry: Seq<TaskHandle>, id: usize) -> bool {
    exists|i: int| 0 <= i < registry.len() && (#[trigger] registry[i]).id == id
}

/// Whether some task is called `name`.
pub open spec fn knows_name(registry: Seq<TaskHandle>, name: Seq<char>) -> bool {
    exists|i: int| 0 <= i < registry.len() && is_called(#[trigger] registry[i], name)
}

/// Whether the task at `i` is the first one with the id `id`.
pub open spec fn is_first_with(registry: Seq<TaskHandle>, id: usize, i: int) -> bool {
    &&& 0 <= i < registry.len()
    &&& registry[i].id == id
    &&& forall|j: int| 0 <= j < i ==> (#[trigger] registry[j]).id != id
}

/// Whether the task at `i` is the first one that is called `name`.
pub open spec fn is_first_called(registry: Seq<TaskHandle>, name: Seq<char>, i: int) -> bool {
    &&& 0 <= i < registry.len()
    &&& is_called(registry[i], name)
    &&& forall|j: int| 0 <= j < i ==> !is_called(#[trigger] registry[j], name)
}

/// Whether the name `name` leads to the task at `i`: it is the first one with the id of the first
/// one that is called so.
pub open spec fn leads_to(registry: Seq<TaskHandle>, name: Seq<char>, i: int) -> bool {
    exists|k: int| #[trigger]
        is_first_called(registry, name, k) && is_first_with(registry, registry[k].id, i)
}

} // verus!
