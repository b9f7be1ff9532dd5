//! The machine statistics the shell reports, read through `sysinfo`.

use sysinfo::{Cpu, System, SystemExt};
use vstd::prelude::*;

verus! {

/// `sysinfo::System`, the handle through which the machine is read.
#[verifier::external_type_specification]
#[verifier::external_body]
pub struct ExSystem(System);

/// `sysinfo::Cpu`, one logical processor as `sysinfo` describes it.
#[verifier::external_type_specification]
#[verifier::external_body]
pub struct ExCpu(Cpu);

/// `SystemExt::refresh_cpu`: re-reads the processors' usage. Nothing is
/// claimed of what it changes.
#[verifier::external_body]
pub(crate) fn refresh_cpu(sys: &mut System) {
    sys.refresh_cpu()
}

/// `SystemExt::cpus`: the processors as last read. Their number depends on the
/// machine, so nothing is claimed of it.
#[verifier::external_body]
pub(crate) fn cpus(sys: &System) -> &[Cpu] {
    sys.cpus()
}

/// `SystemExt::refresh_memory`: re-reads the memory figures. Nothing is
/// claimed of what it changes.
#[verifier::external_body]
pub(crate) fn refresh_memory(sys: &mut System) {
    sys.refresh_memory()
}

/// `SystemExt::total_memory`: the machine's RAM as last read; any value may
/// come back.
#[verifier::external_body]
pub(crate) fn total_memory(sys: &System) -> u64 {
    sys.total_memory()
}

/// `SystemExt::used_memory`: the RAM in use as last read; any value may come
/// back.
#[verifier::external_body]
pub(crate) fn used_memory(sys: &System) -> u64 {
    sys.used_memory()
}

} // verus!
