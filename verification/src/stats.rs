//! The integer part of the statistics of this machine: disk use of the first
//! disk, and network traffic summed over the interfaces.
use vstd::prelude::*;
use vstd::wrapping::u64_specs::{wrapping_add, wrapping_sub};

verus! {

/// Used bytes of a disk, modulo 2^64 as a release build computes
/// `total - available`.
pub open spec fn used_bytes(total: u64, available: u64) -> u64 {
    wrapping_sub(total, available)
}

/// Used bytes of a disk from its total and available space.
pub fn disk_used(total: u64, available: u64) -> (r: u64)
    ensures
        r == used_bytes(total, available),
{
    total.wrapping_sub(available)
}

/// Used and total bytes of the first disk, `(0, 0)` where there is none;
/// each disk is given as `(total, available)`.
pub open spec fn first_disk_usage(disks: Seq<(u64, u64)>) -> (u64, u64) {
    if disks.len() > 0 {
        (used_bytes(disks[0].0, disks[0].1), disks[0].0)
    } else {
        (0, 0)
    }
}

/// Used and total bytes of the first disk.
pub fn first_disk(disks: &Vec<(u64, u64)>) -> (r: (u64, u64))
    ensures
        r == first_disk_usage(disks@),
{
    if disks.len() > 0 {
        (disk_used(disks[0].0, disks[0].1), disks[0].0)
    } else {
        (0, 0)
    }
}

/// The received and sent bytes summed over the interfaces, each sum modulo
/// 2^64 as a release build computes it; each interface is `(rx, tx)`.
pub open spec fn traffic_sum(nets: Seq<(u64, u64)>) -> (u64, u64)
    decreases nets.len(),
{
    if nets.len() == 0 {
        (0, 0)
    } else {
        let s = traffic_sum(nets.drop_last());
        (wrapping_add(s.0, nets.last().0), wrapping_add(s.1, nets.last().1))
    }
}

/// Sums the received and sent bytes over the interfaces.
pub fn traffic_totals(nets: &Vec<(u64, u64)>) -> (r: (u64, u64))
    ensures
        r == traffic_sum(nets@),
{
    let mut rx: u64 = 0;
    let mut tx: u64 = 0;
    assert(nets@.take(0) =~= Seq::<(u64, u64)>::empty());
    for i in 0..nets.len()
        invariant
            (rx, tx) == traffic_sum(nets@.take(i as int)),
    {
        assert(nets@.take(i + 1).drop_last() =~= nets@.take(i as int));
        rx = rx.wrapping_add(nets[i].0);
        tx = tx.wrapping_add(nets[i].1);
    }
    assert(nets@.take(nets.len() as int) =~= nets@);
    (rx, tx)
}


/// What the system reports of one disk.
pub struct DiskReading {
    pub name: String,
    pub mount_point: String,
    pub total: u64,
    pub available: u64,
}

/// One disk as the storage view shows it, without its share in percent.
pub struct DiskUsage {
    pub filesystem: String,
    pub mount_point: String,
    pub total: u64,
    pub used: u64,
    pub available: u64,
}

/// `u` shows the disk read as `d`.
pub open spec fn shows_disk(u: DiskUsage, d: DiskReading) -> bool {
    &&& u.filesystem@ == d.name@
    &&& u.mount_point@ == d.mount_point@
    &&& u.total == d.total
    &&& u.available == d.available
    &&& u.used == used_bytes(d.total, d.available)
}

/// The disks of this machine as the storage view shows them: one entry per
/// reading, in the same order, with used = total - available.
pub fn disk_usages(readings: &Vec<DiskReading>) -> (r: Vec<DiskUsage>)
    ensures
        r.len() == readings.len(),
        forall|i: int| 0 <= i < r.len() ==> shows_disk(#[trigger] r[i], readings[i]),
{
    let mut r: Vec<DiskUsage> = Vec::new();
    for i in 0..readings.len()
        invariant
            r.len() == i,
            forall|k: int| 0 <= k < i ==> shows_disk(#[trigger] r[k], readings[k]),
    {
        let d = &readings[i];
        let u = DiskUsage {
            filesystem: d.name.clone(),
            mount_point: d.mount_point.clone(),
            total: d.total,
            used: disk_used(d.total, d.available),
            available: d.available,
        };
        let ghost before = r@;
        r.push(u);
        assert forall|k: int| 0 <= k < i + 1 implies shows_disk(#[trigger] r[k], readings[k]) by {
            if k < i {
                assert(r[k] == before[k]);
            }
        }
    }
    r
}

} // verus!
