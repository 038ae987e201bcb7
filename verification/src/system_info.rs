//! Reading the probe: one refresh, then the figures of that refresh.
//!
//! The probe is a `sysinfo::System`. Whoever holds it exclusively for a
//! refresh and the reads that follow gets figures of that one refresh.

use vstd::prelude::*;
use crate::models::{label_cores, CpuInfo, MonitorInfo, RamInfo};
use crate::text::decimal;

verus! {

#[verifier::external_type_specification]
#[verifier::external_body]
pub struct ExSystem(sysinfo::System);

/// The usage figures that the probe holds for its cores, in their order, each
/// as the bits of its encoding.
pub uninterp spec fn core_usages(sys: sysinfo::System) -> Seq<u32>;

/// The usage figure that the probe holds for all cores together, as bits.
pub uninterp spec fn global_usage(sys: sysinfo::System) -> u32;

/// The bytes of memory in use that the probe holds.
pub uninterp spec fn used_memory(sys: sysinfo::System) -> u64;

/// The bytes of memory in all that the probe holds.
pub uninterp spec fn total_memory(sys: sysinfo::System) -> u64;

/// The bytes of memory ready for use that the probe holds.
pub uninterp spec fn available_memory(sys: sysinfo::System) -> u64;

/// The status of a reply that carries a record.
pub const STATUS_OK: u16 = 200;

/// The status of a reply where the probe's counters gave no record.
pub const STATUS_PROBE_FAILED: u16 = 500;

/// The probe's memory counters agree with each other: no more memory is
/// ready for use than there is in all.
pub open spec fn memory_is_consistent(sys: sysinfo::System) -> bool {
    available_memory(sys) <= total_memory(sys)
}

/// Calls `System::cpus` and, on each core, `Cpu::cpu_usage`, and hands the
/// figures out in the probe's order, each as its bits. The probe is only read.
#[verifier::external_body]
fn read_core_usages(sys: &sysinfo::System) -> (usages: Vec<u32>)
    ensures
        usages@ == core_usages(*sys),
{
    sys.cpus().iter().map(|core| core.cpu_usage().to_bits()).collect()
}

/// Calls `System::global_cpu_info` and `Cpu::cpu_usage` on what it gives, and
/// hands the figure out as its bits. The probe is only read.
#[verifier::external_body]
fn read_global_usage(sys: &sysinfo::System) -> (usage: u32)
    ensures
        usage == global_usage(*sys),
{
    sys.global_cpu_info().cpu_usage().to_bits()
}

/// Calls `System::used_memory`, which reads the probe's counters. On some
/// systems it takes the available bytes from the total, so a probe that holds
/// more available than total memory is left out.
#[verifier::external_body]
fn read_used_memory(sys: &sysinfo::System) -> (bytes: u64)
    requires
        memory_is_consistent(*sys),
    ensures
        bytes == used_memory(*sys),
{
    sys.used_memory()
}

/// Calls `System::available_memory`, which reads the probe's counter.
#[verifier::external_body]
fn read_available_memory(sys: &sysinfo::System) -> (bytes: u64)
    ensures
        bytes == available_memory(*sys),
{
    sys.available_memory()
}

/// Calls `System::total_memory`, which reads the probe's counter.
#[verifier::external_body]
fn read_total_memory(sys: &sysinfo::System) -> (bytes: u64)
    ensures
        bytes == total_memory(*sys),
{
    sys.total_memory()
}

impl CpuInfo {
    /// The record holds the probe's processor figures: the one for the whole
    /// machine, and one entry for each core the probe reports, in its order.
    pub open spec fn reports(&self, sys: sysinfo::System) -> bool {
        &&& self.cpu == global_usage(sys)
        &&& self.usages() == core_usages(sys)
    }
}

impl RamInfo {
    /// The record holds the probe's memory counters.
    pub open spec fn reports(&self, sys: sysinfo::System) -> bool {
        &&& self.used_ram == used_memory(sys)
        &&& self.total_ram == total_memory(sys)
    }
}

/// Puts the figures of the whole machine and of each core into a record.
pub fn assemble_cpu_info(global: u32, usages: &Vec<u32>) -> (info: CpuInfo)
    ensures
        info.wf(),
        info.cpu == global,
        info.usages() == usages@,
{
    let cores = label_cores(usages);
    let info = CpuInfo { cpu: global, cores };
    proof {
        assert(info.usages() =~= usages@);
    }
    info
}

/// Reads the processor figures that the probe holds. The probe is not changed.
pub fn get_cpu_info(sys: &mut sysinfo::System) -> (info: CpuInfo)
    ensures
        *final(sys) == *old(sys),
        info.wf(),
        info.reports(*old(sys)),
{
    let global = read_global_usage(sys);
    let usages = read_core_usages(sys);
    assemble_cpu_info(global, &usages)
}

/// Reads the memory counters that the probe holds. The probe is not changed.
/// There is no record where the counters do not agree with each other.
pub fn get_ram_info(sys: &mut sysinfo::System) -> (info: Option<RamInfo>)
    ensures
        *final(sys) == *old(sys),
        info is Some <==> memory_is_consistent(*old(sys)),
        info matches Some(ram) ==> ram.reports(*old(sys)),
{
    let total = read_total_memory(sys);
    if read_available_memory(sys) > total {
        return None;
    }
    Some(RamInfo { used_ram: read_used_memory(sys), total_ram: total })
}

/// The status of the reply to a request that was let through: the record is
/// sent where there is one, and its absence is the probe's failure.
pub fn snapshot_status<T>(snapshot: &Option<T>) -> (code: u16)
    ensures
        code == if snapshot is Some { STATUS_OK } else { STATUS_PROBE_FAILED },
{
    match snapshot {
        Some(_) => STATUS_OK,
        None => STATUS_PROBE_FAILED,
    }
}

/// Calls `System::refresh_cpu_specifics` with `CpuRefreshKind::everything()`.
/// It takes new processor figures and leaves the memory counters as they were.
#[verifier::external_body]
pub fn refresh_cpu(sys: &mut sysinfo::System)
    ensures
        used_memory(*final(sys)) == used_memory(*old(sys)),
        total_memory(*final(sys)) == total_memory(*old(sys)),
        available_memory(*final(sys)) == available_memory(*old(sys)),
{
    sys.refresh_cpu_specifics(sysinfo::CpuRefreshKind::everything());
}

/// Calls `System::refresh_memory_specifics` with
/// `MemoryRefreshKind::everything()`. It takes new memory counters and leaves
/// the processor figures as they were.
#[verifier::external_body]
pub fn refresh_ram(sys: &mut sysinfo::System)
    ensures
        core_usages(*final(sys)) == core_usages(*old(sys)),
        global_usage(*final(sys)) == global_usage(*old(sys)),
{
    sys.refresh_memory_specifics(sysinfo::MemoryRefreshKind::everything());
}

/// Calls `System::refresh_specifics` for processor and memory in one pass.
/// Nothing is known of the figures it takes.
#[verifier::external_body]
pub fn refresh_all(sys: &mut sysinfo::System) {
    sys.refresh_specifics(
        sysinfo::RefreshKind::new().with_cpu(sysinfo::CpuRefreshKind::everything()).with_memory(
            sysinfo::MemoryRefreshKind::everything(),
        ),
    );
}

/// Refreshes the processor figures and reads them: the record holds what the
/// probe holds when the call returns, and the memory counters are untouched.
pub fn cpu_snapshot(sys: &mut sysinfo::System) -> (info: CpuInfo)
    ensures
        info.wf(),
        info.reports(*final(sys)),
        used_memory(*final(sys)) == used_memory(*old(sys)),
        total_memory(*final(sys)) == total_memory(*old(sys)),
        available_memory(*final(sys)) == available_memory(*old(sys)),
{
    refresh_cpu(sys);
    get_cpu_info(sys)
}

/// Refreshes the memory counters and reads them: the record holds what the
/// probe holds when the call returns, and the processor figures are untouched.
/// There is no record where the new counters do not agree with each other.
pub fn ram_snapshot(sys: &mut sysinfo::System) -> (info: Option<RamInfo>)
    ensures
        info is Some <==> memory_is_consistent(*final(sys)),
        info matches Some(ram) ==> ram.reports(*final(sys)),
        core_usages(*final(sys)) == core_usages(*old(sys)),
        global_usage(*final(sys)) == global_usage(*old(sys)),
{
    refresh_ram(sys);
    get_ram_info(sys)
}

/// Refreshes processor and memory in one pass and reads both: the two parts
/// of the record hold what the probe holds when the call returns, so both are
/// of the same refresh. There is no record where the new memory counters do
/// not agree with each other.
pub fn monitor_snapshot(sys: &mut sysinfo::System) -> (info: Option<MonitorInfo>)
    ensures
        info is Some <==> memory_is_consistent(*final(sys)),
        info matches Some(both) ==> both.cpu.wf() && both.cpu.reports(*final(sys))
            && both.ram.reports(*final(sys)),
{
    refresh_all(sys);
    match get_ram_info(sys) {
        Some(ram) => Some(MonitorInfo { cpu: get_cpu_info(sys), ram }),
        None => None,
    }
}

/// A processor record that reports a probe has one entry for each core of
/// the probe, the entry at a position is keyed by that position and holds
/// that core's figure.
pub proof fn lemma_report_lists_every_core(info: CpuInfo, sys: sysinfo::System)
    requires
        info.wf(),
        info.reports(sys),
    ensures
        info.cores@.len() == core_usages(sys).len(),
        info.cores_map().dom().len() == core_usages(sys).len(),
        forall|i: int|
            0 <= i < core_usages(sys).len() ==> info.cores_map().contains_key(
                #[trigger] decimal(i as nat),
            ) && info.cores_map()[decimal(i as nat)] == core_usages(sys)[i],
{
    crate::models::lemma_cores_map_is_exact(info);
    assert(info.usages().len() == info.cores@.len());
    assert forall|i: int| 0 <= i < core_usages(sys).len() implies info.cores_map()[decimal(
        i as nat,
    )] == core_usages(sys)[i] by {
        assert(info.usages()[i] == info.cores@[i].usage);
    }
}

} // verus!
