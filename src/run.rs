//! What a run decides before the walk starts: whether its root can be
//! walked, and how large its work queue and worker pool are.

use vstd::prelude::*;

use crate::error::Error;

verus! {

/// The error message for a root that does not exist.
pub open spec fn missing_root_message(path: Seq<char>) -> Seq<char> {
    "Directory not found: "@ + path
}

/// The error message for a root that is not a directory.
pub open spec fn not_dir_message(path: Seq<char>) -> Seq<char> {
    path + " is not a directory"@
}

/// Checks that the root of a run, rendered as `path`, exists and is a
/// directory.
pub fn check_root(path: &str, exists: bool, is_dir: bool) -> (r: Result<(), Error>)
    ensures
        !exists ==> r is Err && r->Err_0 is Message && r->Err_0.text() == missing_root_message(
            path@,
        ),
        exists && !is_dir ==> r is Err && r->Err_0 is Message && r->Err_0.text()
            == not_dir_message(path@),
        exists && is_dir ==> r is Ok,
{
    if !exists {
        let mut message = String::from_str("Directory not found: ");
        message.append(path);
        return Err(Error::other(message));
    }
    if !is_dir {
        let message = String::from_str(path).concat(" is not a directory");
        return Err(Error::other(message));
    }
    Ok(())
}

/// The sizes of a run's work queue and worker pool.
#[derive(Clone, Copy, Debug, PartialEq, Eq, Structural)]
pub struct PoolLayout {
    /// How many units of work may wait in the queue.
    pub capacity: usize,
    /// How many workers take units from the queue.
    pub workers: usize,
}

/// The queue holds as many units as there are CPUs.
pub open spec fn capacity_for(cpus: int) -> int {
    if cpus < 1 {
        1
    } else {
        cpus
    }
}

/// Half as many workers as CPUs, and at least one: each unit may start a
/// process that needs CPU time of its own.
pub open spec fn workers_for(cpus: int) -> int {
    if cpus / 2 < 1 {
        1
    } else {
        cpus / 2
    }
}

/// The layout of a pool for a machine with `cpus` CPUs.
pub fn layout_for(cpus: usize) -> (r: PoolLayout)
    ensures
        r.capacity == capacity_for(cpus as int),
        r.workers == workers_for(cpus as int),
        1 <= r.workers <= r.capacity,
{
    let capacity = if cpus < 1 {
        1
    } else {
        cpus
    };
    let workers = if cpus / 2 < 1 {
        1
    } else {
        cpus / 2
    };
    PoolLayout { capacity, workers }
}

/// Relies on `num_cpus::get`: the number of CPUs this process may use,
/// which its documentation promises is at least 1.
#[verifier::external_body]
fn available_cpus() -> (r: usize)
    ensures
        r >= 1,
{
    num_cpus::get()
}

/// The layout of a pool for this machine.
pub fn pool_layout() -> (r: PoolLayout)
    ensures
        r.capacity >= 1,
        r.workers == workers_for(r.capacity as int),
        1 <= r.workers <= r.capacity,
{
    layout_for(available_cpus())
}

} // verus!
