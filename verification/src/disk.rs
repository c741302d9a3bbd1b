//! Disks as the storage widget tells them: their kinds, their SMART health,
//! and how mounted volumes gather under the physical disk that carries them.
use vstd::prelude::*;

use crate::text::{chars_eq, chars_of};

verus! {

#[derive(Debug, Clone, Copy, PartialEq, Eq, Structural)]
pub enum DiskKind {
    Ssd,
    Hdd,
    Nvme,
    Unknown,
}

#[derive(Debug, Clone, Copy, PartialEq, Eq, Structural)]
pub enum SmartHealth {
    Good,
    Warning,
    Critical,
    Unavailable,
}

/// Volumes gathered by disk: each group names a disk and lists, in
/// increasing order, the positions of the volumes it carries.
///
/// - the disks of the groups are distinct;
/// - each group is non-empty, and its positions are increasing and point
///   to volumes of its disk;
/// - every volume belongs to a group;
/// - the groups come in the order of their first volume.
pub open spec fn is_grouping(devices: Seq<String>, groups: Seq<(String, Vec<usize>)>) -> bool {
    &&& forall|a: int, b: int|
        0 <= a < b < groups.len() ==> (#[trigger] groups[a]).0@ != (#[trigger] groups[b]).0@
    &&& forall|a: int| 0 <= a < groups.len() ==> (#[trigger] groups[a]).1@.len() > 0
    &&& forall|a: int, p: int|
        #![trigger groups[a].1@[p]]
        0 <= a < groups.len() && 0 <= p < groups[a].1@.len() ==> groups[a].1@[p] < devices.len()
            && devices[groups[a].1@[p] as int]@ == groups[a].0@
    &&& forall|a: int, p: int, q: int|
        #![trigger groups[a].1@[p], groups[a].1@[q]]
        0 <= a < groups.len() && 0 <= p < q < groups[a].1@.len() ==> groups[a].1@[p]
            < groups[a].1@[q]
    &&& forall|i: int|
        0 <= i < devices.len() ==> #[trigger] covered(groups, i)
    &&& forall|a: int, b: int|
        0 <= a < b < groups.len() ==> (#[trigger] groups[a]).1@[0] < (#[trigger] groups[b]).1@[0]
}

/// The volume at position `i` belongs to some group.
pub open spec fn covered(groups: Seq<(String, Vec<usize>)>, i: int) -> bool {
    exists|a: int, p: int|
        0 <= a < groups.len() && 0 <= p < groups[a].1@.len() && #[trigger] groups[a].1@[p] == i
}

/// The position of the group of `device`, if there is one.
fn find_group(groups: &Vec<(String, Vec<usize>)>, device: &[char]) -> (r: Option<usize>)
    ensures
        match r {
            Some(j) => j < groups.len() && groups@[j as int].0@ == device@,
            None => forall|a: int| 0 <= a < groups.len() ==> (#[trigger] groups@[a]).0@ != device@,
        },
{
    let mut j: usize = 0;
    while j < groups.len()
        invariant
            j <= groups.len(),
            forall|a: int| 0 <= a < j ==> (#[trigger] groups@[a]).0@ != device@,
        decreases groups.len() - j,
    {
        let name = chars_of(groups[j].0.as_str());
        if chars_eq(name.as_slice(), device) {
            return Some(j);
        }
        j = j + 1;
    }
    None
}

/// Gathers the volumes under their disks, from the disk of each volume, in
/// the order in which they appear: the display does not jump from one tick
/// to the next.
pub fn grouper(devices: &[String]) -> (r: Vec<(String, Vec<usize>)>)
    ensures
        is_grouping(devices@, r@),
{
    let mut groups: Vec<(String, Vec<usize>)> = Vec::new();
    let mut i: usize = 0;
    assert(devices@.take(0) =~= Seq::<String>::empty());
    while i < devices.len()
        invariant
            i <= devices.len(),
            is_grouping(devices@.take(i as int), groups@),
        decreases devices.len() - i,
    {
        let ghost before = groups@;
        let ghost pre = devices@.take(i as int);
        let ghost post = devices@.take(i + 1);
        assert forall|k: int| 0 <= k < i implies post[k] == pre[k] by {}
        assert(post[i as int] == devices@[i as int]);
        let device = chars_of(devices[i].as_str());
        match find_group(&groups, device.as_slice()) {
            Some(j) => {
                let (name, mut members) = groups.remove(j);
                members.push(i);
                groups.insert(j, (name, members));
                proof {
                    assert(groups@ =~= before.update(j as int, groups@[j as int]));
                    assert forall|a: int, p: int|
                        0 <= a < groups@.len() && 0 <= p < before[a].1@.len() implies
                        #[trigger] groups@[a].1@[p] == before[a].1@[p] by {
                        if a == j {
                            assert(groups@[a].1@ == before[a].1@.push(i));
                        }
                    }
                    assert forall|k: int| 0 <= k < post.len() implies #[trigger] covered(groups@, k) by {
                        if k == i {
                            assert(groups@[j as int].1@[before[j as int].1@.len() as int] == i);
                        } else {
                            assert(covered(before, k));
                            let (a, p) = choose|a: int, p: int|
                                0 <= a < before.len() && 0 <= p < before[a].1@.len()
                                    && #[trigger] before[a].1@[p] == k;
                            assert(groups@[a].1@[p] == k);
                        }
                    }
                }
            },
            None => {
                let name = devices[i].clone();
                let mut members: Vec<usize> = Vec::new();
                members.push(i);
                groups.push((name, members));
                proof {
                    assert(groups@ =~= before.push(groups@[before.len() as int]));
                    assert forall|k: int| 0 <= k < post.len() implies #[trigger] covered(groups@, k) by {
                        if k == i {
                            assert(groups@[before.len() as int].1@[0] == i);
                        } else {
                            assert(covered(before, k));
                            let (a, p) = choose|a: int, p: int|
                                0 <= a < before.len() && 0 <= p < before[a].1@.len()
                                    && #[trigger] before[a].1@[p] == k;
                            assert(groups@[a] == before[a]);
                        }
                    }
                }
            },
        }
        i = i + 1;
    }
    assert(devices@.take(devices.len() as int) =~= devices@);
    groups
}

} // verus!
