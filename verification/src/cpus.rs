//! The number of CPUs of the machine.

use vstd::prelude::*;

verus! {

/// Calls `num_cpus::get`: the number of CPUs that the process may use. It is at least one; what
/// it is beyond that depends on the machine, and may change, so nothing more is said of it.
#[verifier::external_body]
fn cpu_count() -> (cpus: usize)
    ensures
        cpus >= 1,
{
    num_cpus::get()
}

/// `num_cpus::get` may give this number.
pub closed spec fn is_cpu_count(cpus: usize) -> bool {
    call_ensures(cpu_count, (), cpus)
}

/// Counts the CPUs that the process may use.
pub fn count_cpus() -> (cpus: usize)
    ensures
        cpus >= 1,
        is_cpu_count(cpus),
{
    cpu_count()
}

} // verus!
