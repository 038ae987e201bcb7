//! The records that are sent back.
//!
//! A usage figure is a percentage in single precision. It is carried here as
//! the 32 bits of its IEEE 754 encoding, untouched between the probe and the
//! reply.

use vstd::prelude::*;
use crate::text::{decimal, lemma_decimal_is_injective};

verus! {

/// The usage of one core, under the key it is listed by.
#[derive(Debug, Clone)]
pub struct CoreUsage {
    /// The core's position among the cores, counted from zero, in decimal.
    pub key: String,
    /// The bits of the usage figure.
    pub usage: u32,
}

/// Processor usage: the figure for the whole machine and one for each core.
#[derive(Debug, Clone)]
pub struct CpuInfo {
    /// The bits of the usage figure for all cores together.
    pub cpu: u32,
    /// The cores in the order of their positions.
    pub cores: Vec<CoreUsage>,
}

/// Memory in bytes.
#[derive(Debug, Clone, Copy, PartialEq, Eq, Structural)]
pub struct RamInfo {
    pub used_ram: u64,
    pub total_ram: u64,
}

/// Processor and memory together.
#[derive(Debug, Clone)]
pub struct MonitorInfo {
    pub cpu: CpuInfo,
    pub ram: RamInfo,
}

/// The keys of `n` cores: the numbers below `n`, each written in decimal.
pub open spec fn core_keys(n: nat) -> Set<Seq<char>> {
    Set::new(|key: Seq<char>| exists|i: nat| i < n && key == decimal(i))
}

impl CpuInfo {
    /// Each core is listed under its own position.
    pub open spec fn wf(&self) -> bool {
        forall|i: int| 0 <= i < self.cores@.len() ==> (#[trigger] self.cores@[i]).key@ == decimal(i as nat)
    }

    /// The figures of the cores, in the order of their positions.
    pub open spec fn usages(&self) -> Seq<u32> {
        Seq::new(self.cores@.len(), |i: int| self.cores@[i].usage)
    }

    /// The cores as a mapping from key to figure.
    pub open spec fn cores_map(&self) -> Map<Seq<char>, u32> {
        Map::new(
            |key: Seq<char>| core_keys(self.cores@.len()).contains(key),
            |key: Seq<char>|
                self.cores@[(choose|i: nat| i < self.cores@.len() && key == decimal(i)) as int].usage,
        )
    }
}

/// Lists each figure under the decimal of its position.
pub fn label_cores(usages: &Vec<u32>) -> (cores: Vec<CoreUsage>)
    ensures
        cores@.len() == usages@.len(),
        forall|i: int| 0 <= i < cores@.len() ==> (#[trigger] cores@[i]).key@ == decimal(i as nat),
        forall|i: int| 0 <= i < cores@.len() ==> (#[trigger] cores@[i]).usage == usages@[i],
{
    let mut cores: Vec<CoreUsage> = Vec::new();
    let mut i: usize = 0;
    while i < usages.len()
        invariant
            i <= usages.len(),
            cores@.len() == i,
            forall|k: int| 0 <= k < i ==> (#[trigger] cores@[k]).key@ == decimal(k as nat),
            forall|k: int| 0 <= k < i ==> (#[trigger] cores@[k]).usage == usages@[k],
        decreases usages.len() - i,
    {
        cores.push(CoreUsage { key: crate::text::decimal_string(i), usage: usages[i] });
        i += 1;
    }
    cores
}

/// The keys of `n` cores are `n` in number: no two cores share a key.
pub proof fn lemma_core_keys_count(n: nat)
    ensures
        core_keys(n).finite(),
        core_keys(n).len() == n,
    decreases n,
{
    if n == 0 {
        assert(core_keys(0) =~= Set::<Seq<char>>::empty());
    } else {
        let m = (n - 1) as nat;
        lemma_core_keys_count(m);
        assert(!core_keys(m).contains(decimal(m))) by {
            if core_keys(m).contains(decimal(m)) {
                let i = choose|i: nat| i < m && decimal(m) == decimal(i);
                lemma_decimal_is_injective(m, i);
            }
        }
        assert(core_keys(n) =~= core_keys(m).insert(decimal(m))) by {
            assert forall|key: Seq<char>| core_keys(n).contains(key) implies core_keys(m).insert(
                decimal(m),
            ).contains(key) by {
                let i = choose|i: nat| i < n && key == decimal(i);
                if i < m {
                    assert(core_keys(m).contains(key));
                }
            }
            assert forall|key: Seq<char>| core_keys(m).insert(decimal(m)).contains(
                key,
            ) implies core_keys(n).contains(key) by {
                if key == decimal(m) {
                    assert(m < n);
                } else {
                    let i = choose|i: nat| i < m && key == decimal(i);
                    assert(i < n);
                }
            }
        }
    }
}

/// The mapping of a well-formed record has one entry for each core, keyed by
/// the positions `0` to `n - 1` without a gap, and the entry under the key of
/// a position is that core's figure.
pub proof fn lemma_cores_map_is_exact(info: CpuInfo)
    requires
        info.wf(),
    ensures
        info.cores_map().dom().finite(),
        info.cores_map().dom().len() == info.cores@.len(),
        info.cores_map().dom() == core_keys(info.cores@.len()),
        forall|i: int|
            0 <= i < info.cores@.len() ==> info.cores_map().contains_key(
                #[trigger] decimal(i as nat),
            ) && info.cores_map()[decimal(i as nat)] == info.cores@[i].usage,
{
    let n = info.cores@.len();
    lemma_core_keys_count(n);
    assert(info.cores_map().dom() =~= core_keys(n));
    assert forall|i: int| 0 <= i < n implies info.cores_map().contains_key(
        #[trigger] decimal(i as nat),
    ) && info.cores_map()[decimal(i as nat)] == info.cores@[i].usage by {
        let key = decimal(i as nat);
        assert((i as nat) < n && key == decimal(i as nat));
        let j = choose|j: nat| j < n && key == decimal(j);
        lemma_decimal_is_injective(i as nat, j);
    }
}

} // verus!
