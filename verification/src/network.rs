//! Network interfaces: which are shown, in which order, and which one is
//! active.
use vstd::prelude::*;

use crate::sysfs::opt_string_view;
use crate::text::{
    chars_eq, chars_of, is_space, is_space_char, slice_chars, starts_with, starts_with_chars,
    string_of, trim_start, trim_start_chars,
};

verus! {

#[derive(Debug)]
pub struct NetworkInterfaceStats {
    pub name: String,
    pub rx_bytes_per_sec: u64,
    pub tx_bytes_per_sec: u64,
    pub ip_local: Option<String>,
    /// Cumulative counters, kept for the differential computation of the
    /// next tick.
    pub rx_total_bytes: u64,
    pub tx_total_bytes: u64,
}

/// Prefixes of the interfaces that software creates rather than hardware.
pub open spec fn virtual_prefixes() -> Seq<Seq<char>> {
    seq!["docker"@, "veth"@, "br-"@, "virbr"@, "vmnet"@, "tap"@, "tun"@, "wg"@, "zt"@, "ham"@]
}

pub open spec fn is_virtual(name: Seq<char>) -> bool {
    exists|i: int| 0 <= i < virtual_prefixes().len() && starts_with(name, #[trigger] virtual_prefixes()[i])
}

/// Interfaces created by software rather than hardware (Docker, virtual
/// machines, VPNs).
pub fn est_virtuelle(nom: &str) -> (r: bool)
    ensures
        r == is_virtual(nom@),
{
    let prefixes = ["docker", "veth", "br-", "virbr", "vmnet", "tap", "tun", "wg", "zt", "ham"];
    assert(crate::sysfs::str_views(prefixes@) =~= virtual_prefixes());
    let n = chars_of(nom);
    let mut i: usize = 0;
    while i < prefixes.len()
        invariant
            i <= prefixes.len(),
            prefixes@.len() == 10,
            n@ == nom@,
            crate::sysfs::str_views(prefixes@) == virtual_prefixes(),
            forall|k: int| 0 <= k < i ==> !starts_with(nom@, #[trigger] virtual_prefixes()[k]),
        decreases prefixes.len() - i,
    {
        let p = chars_of(prefixes[i]);
        assert(virtual_prefixes()[i as int] == p@);
        if starts_with_chars(n.as_slice(), p.as_slice()) {
            return true;
        }
        i = i + 1;
    }
    false
}

/// An interface is listed unless it is the loopback, or a virtual one that
/// never carried anything: they clutter the list without transporting
/// anything, so they only show once they have served.
pub open spec fn shown(i: NetworkInterfaceStats) -> bool {
    i.name@ != "lo"@ && !(is_virtual(i.name@) && i.rx_total_bytes == 0 && i.tx_total_bytes == 0)
}

pub fn is_shown(i: &NetworkInterfaceStats) -> (r: bool)
    ensures
        r == shown(*i),
{
    let n = chars_of(i.name.as_str());
    let lo = chars_of("lo");
    if chars_eq(n.as_slice(), lo.as_slice()) {
        return false;
    }
    !(est_virtuelle(i.name.as_str()) && i.rx_total_bytes == 0 && i.tx_total_bytes == 0)
}

/// The counters of the previous sample of the interface `name`, if it was
/// seen then.
pub open spec fn previous_of(previous: Seq<NetworkInterfaceStats>, name: Seq<char>) -> Option<(u64, u64)>
    decreases previous.len(),
{
    if previous.len() == 0 {
        None
    } else if previous[0].name@ == name {
        Some((previous[0].rx_total_bytes, previous[0].tx_total_bytes))
    } else {
        previous_of(previous.drop_first(), name)
    }
}

pub fn previous_totals(previous: &[NetworkInterfaceStats], name: &str) -> (r: Option<(u64, u64)>)
    ensures
        r == previous_of(previous@, name@),
{
    let n = chars_of(name);
    let mut i: usize = 0;
    assert(previous@.skip(0) =~= previous@);
    while i < previous.len()
        invariant
            i <= previous.len(),
            n@ == name@,
            previous_of(previous@, name@) == previous_of(previous@.skip(i as int), name@),
        decreases previous.len() - i,
    {
        assert(previous@.skip(i as int).drop_first() =~= previous@.skip(i + 1));
        assert(previous@.skip(i as int)[0] == previous@[i as int]);
        let m = chars_of(previous[i].name.as_str());
        if chars_eq(m.as_slice(), n.as_slice()) {
            return Some((previous[i].rx_total_bytes, previous[i].tx_total_bytes));
        }
        i = i + 1;
    }
    None
}

/// Index of the interface that has an IPv4 and the most received traffic,
/// the last of them on a tie, as `Iterator::max_by_key` picks it.
pub open spec fn best_with_ip(s: Seq<NetworkInterfaceStats>) -> Option<int>
    decreases s.len(),
{
    if s.len() == 0 {
        None
    } else {
        let r = best_with_ip(s.drop_last());
        if s.last().ip_local is Some {
            match r {
                None => Some(s.len() - 1),
                Some(j) => if s.last().rx_total_bytes >= s[j].rx_total_bytes {
                    Some(s.len() - 1)
                } else {
                    Some(j)
                },
            }
        } else {
            r
        }
    }
}

/// The active interface: the one with an IPv4 and the most received
/// traffic; otherwise the first one listed. No interface is assumed to be
/// called eth0 or wlan0.
pub open spec fn active_of(s: Seq<NetworkInterfaceStats>) -> Option<Seq<char>> {
    match best_with_ip(s) {
        Some(j) => Some(s[j].name@),
        None => if s.len() > 0 {
            Some(s[0].name@)
        } else {
            None
        },
    }
}

proof fn lemma_best_with_ip(s: Seq<NetworkInterfaceStats>)
    ensures
        match best_with_ip(s) {
            Some(j) => 0 <= j < s.len() && s[j].ip_local is Some && forall|k: int|
                0 <= k < s.len() && (#[trigger] s[k]).ip_local is Some ==> s[k].rx_total_bytes
                    <= s[j].rx_total_bytes,
            None => forall|k: int| 0 <= k < s.len() ==> (#[trigger] s[k]).ip_local is None,
        },
    decreases s.len(),
{
    if s.len() > 0 {
        lemma_best_with_ip(s.drop_last());
        assert forall|k: int| 0 <= k < s.len() - 1 implies #[trigger] s[k] == s.drop_last()[k] by {}
    }
}

pub fn active_interface(interfaces: &[NetworkInterfaceStats]) -> (r: Option<String>)
    ensures
        opt_string_view(r) == active_of(interfaces@),
        // With an interface holding an IPv4, the active one holds one too,
        // and none with an IPv4 has received more.
        (exists|k: int| 0 <= k < interfaces@.len() && (#[trigger] interfaces@[k]).ip_local is Some)
            ==> exists|j: int|
            0 <= j < interfaces@.len() && interfaces@[j].ip_local is Some && opt_string_view(r)
                == Some(interfaces@[j].name@) && forall|k: int|
                0 <= k < interfaces@.len() && (#[trigger] interfaces@[k]).ip_local is Some
                    ==> interfaces@[k].rx_total_bytes <= interfaces@[j].rx_total_bytes,
        r is None <==> interfaces@.len() == 0,
{
    let mut best: Option<usize> = None;
    let mut i: usize = 0;
    assert(interfaces@.take(0) =~= Seq::<NetworkInterfaceStats>::empty());
    while i < interfaces.len()
        invariant
            i <= interfaces.len(),
            match best {
                Some(j) => best_with_ip(interfaces@.take(i as int)) == Some(j as int),
                None => best_with_ip(interfaces@.take(i as int)) is None,
            },
        decreases interfaces.len() - i,
    {
        let ghost p = interfaces@.take(i + 1);
        assert(p.drop_last() =~= interfaces@.take(i as int));
        assert(p.last() == interfaces@[i as int]);
        proof {
            lemma_best_with_ip(interfaces@.take(i as int));
            if let Some(j) = best {
                assert(p[j as int] == interfaces@[j as int]);
            }
        }
        if interfaces[i].ip_local.is_some() {
            best = match best {
                None => Some(i),
                Some(j) => if interfaces[i].rx_total_bytes >= interfaces[j].rx_total_bytes {
                    Some(i)
                } else {
                    Some(j)
                },
            };
        }
        i = i + 1;
    }
    assert(interfaces@.take(interfaces.len() as int) =~= interfaces@);
    proof {
        lemma_best_with_ip(interfaces@);
    }
    match best {
        Some(j) => Some(interfaces[j].name.clone()),
        None => if interfaces.len() > 0 {
            Some(interfaces[0].name.clone())
        } else {
            None
        },
    }
}

/// The interfaces that are shown, in their order.
pub open spec fn shown_interfaces(s: Seq<NetworkInterfaceStats>) -> Seq<NetworkInterfaceStats>
    decreases s.len(),
{
    if s.len() == 0 {
        Seq::empty()
    } else {
        let rest = shown_interfaces(s.drop_last());
        if shown(s.last()) {
            rest.push(s.last())
        } else {
            rest
        }
    }
}

/// Where an interface receiving `key` bytes goes in a list sorted by
/// decreasing reception: after every one that received as much or more.
pub open spec fn insert_point(s: Seq<NetworkInterfaceStats>, key: u64) -> int
    decreases s.len(),
{
    if s.len() == 0 {
        0
    } else if s[0].rx_total_bytes >= key {
        1 + insert_point(s.drop_first(), key)
    } else {
        0
    }
}

/// The interfaces by decreasing received total, those with equal totals in
/// the order they came in (a stable sort).
pub open spec fn by_reception(s: Seq<NetworkInterfaceStats>) -> Seq<NetworkInterfaceStats>
    decreases s.len(),
{
    if s.len() == 0 {
        Seq::empty()
    } else {
        let sorted = by_reception(s.drop_last());
        sorted.insert(insert_point(sorted, s.last().rx_total_bytes), s.last())
    }
}

pub open spec fn sorted_by_reception(s: Seq<NetworkInterfaceStats>) -> bool {
    forall|i: int, j: int|
        0 <= i < j < s.len() ==> (#[trigger] s[i]).rx_total_bytes >= (#[trigger] s[j]).rx_total_bytes
}

proof fn lemma_insert_point(s: Seq<NetworkInterfaceStats>, key: u64)
    ensures
        0 <= insert_point(s, key) <= s.len(),
        forall|j: int| 0 <= j < insert_point(s, key) ==> (#[trigger] s[j]).rx_total_bytes >= key,
        insert_point(s, key) < s.len() ==> s[insert_point(s, key)].rx_total_bytes < key,
    decreases s.len(),
{
    if s.len() > 0 && s[0].rx_total_bytes >= key {
        lemma_insert_point(s.drop_first(), key);
        assert forall|j: int| 1 <= j < insert_point(s, key) implies (#[trigger] s[j]).rx_total_bytes
            >= key by {
            assert(s[j] == s.drop_first()[j - 1]);
        }
    }
}

/// The stable sort orders by decreasing reception and keeps every
/// interface, once each.
pub proof fn lemma_by_reception(s: Seq<NetworkInterfaceStats>)
    ensures
        sorted_by_reception(by_reception(s)),
        by_reception(s).to_multiset() == s.to_multiset(),
    decreases s.len(),
{
    broadcast use vstd::seq_lib::group_to_multiset_ensures;

    if s.len() > 0 {
        let sorted = by_reception(s.drop_last());
        let x = s.last();
        let p = insert_point(sorted, x.rx_total_bytes);
        lemma_by_reception(s.drop_last());
        lemma_insert_point(sorted, x.rx_total_bytes);
        let r = sorted.insert(p, x);
        assert forall|i: int, j: int| 0 <= i < j < r.len() implies (#[trigger] r[i]).rx_total_bytes
            >= (#[trigger] r[j]).rx_total_bytes by {
            if j < p {
                assert(r[i] == sorted[i] && r[j] == sorted[j]);
            } else if j == p {
                assert(r[j] == x);
                assert(r[i] == sorted[i]);
            } else if i < p {
                assert(r[i] == sorted[i] && r[j] == sorted[j - 1]);
            } else if i == p {
                assert(r[i] == x);
                assert(r[j] == sorted[j - 1]);
                assert(sorted[p].rx_total_bytes >= sorted[j - 1].rx_total_bytes || j - 1 == p);
            } else {
                assert(r[i] == sorted[i - 1] && r[j] == sorted[j - 1]);
            }
        }
        assert(s.drop_last().push(x) =~= s);
    }
}

/// The interfaces to list, from the candidates of one sample: the shown
/// ones, by decreasing received total, ties in the order they came in.
pub fn network_interfaces(candidates: Vec<NetworkInterfaceStats>) -> (r: Vec<NetworkInterfaceStats>)
    ensures
        r@ == by_reception(shown_interfaces(candidates@)),
        sorted_by_reception(r@),
        r@.to_multiset() == shown_interfaces(candidates@).to_multiset(),
        forall|i: int| 0 <= i < r@.len() ==> shown(#[trigger] r@[i]),
{
    let ghost all = candidates@;
    let mut candidates = candidates;
    let mut r: Vec<NetworkInterfaceStats> = Vec::new();
    let ghost mut k: int = 0;
    assert(all.skip(0) =~= all);
    assert(all.take(0) =~= Seq::<NetworkInterfaceStats>::empty());
    while candidates.len() > 0
        invariant
            0 <= k <= all.len(),
            candidates@ == all.skip(k),
            r@ == by_reception(shown_interfaces(all.take(k))),
        decreases candidates.len(),
    {
        let c = candidates.remove(0);
        proof {
            assert(c == all[k]);
            assert(all.take(k + 1).drop_last() =~= all.take(k));
            assert(all.take(k + 1).last() == all[k]);
            assert(all.skip(k).remove(0) =~= all.skip(k + 1));
        }
        let ghost before = shown_interfaces(all.take(k));
        if is_shown(&c) {
            let key = c.rx_total_bytes;
            let mut p: usize = 0;
            assert(r@.skip(0) =~= r@);
            while p < r.len() && r[p].rx_total_bytes >= key
                invariant
                    p <= r.len(),
                    insert_point(r@, key) == p + insert_point(r@.skip(p as int), key),
                decreases r.len() - p,
            {
                assert(r@.skip(p as int).drop_first() =~= r@.skip(p + 1));
                p = p + 1;
            }
            proof {
                if p < r.len() {
                    assert(r@.skip(p as int)[0] == r@[p as int]);
                }
            }
            assert(shown_interfaces(all.take(k + 1)) == before.push(c));
            assert(before.push(c).drop_last() =~= before);
            r.insert(p, c);
        } else {
            assert(shown_interfaces(all.take(k + 1)) == before);
        }
        proof {
            k = k + 1;
        }
    }
    assert(all.take(k) =~= all);
    proof {
        lemma_by_reception(shown_interfaces(all));
        lemma_shown_interfaces(all);
        assert forall|i: int| 0 <= i < r@.len() implies shown(#[trigger] r@[i]) by {
            broadcast use vstd::seq_lib::group_to_multiset_ensures;

            assert(r@.contains(r@[i]));
            assert(r@.to_multiset().count(r@[i]) > 0);
            assert(shown_interfaces(all).contains(r@[i]));
        }
    }
    r
}

/// Only shown interfaces survive the filter.
pub proof fn lemma_shown_interfaces(s: Seq<NetworkInterfaceStats>)
    ensures
        forall|i: int|
            0 <= i < shown_interfaces(s).len() ==> shown(#[trigger] shown_interfaces(s)[i]),
    decreases s.len(),
{
    if s.len() > 0 {
        lemma_shown_interfaces(s.drop_last());
        let rest = shown_interfaces(s.drop_last());
        assert forall|i: int|
            0 <= i < shown_interfaces(s).len() implies shown(#[trigger] shown_interfaces(s)[i]) by {
            if i < rest.len() {
                assert(shown_interfaces(s)[i] == rest[i]);
            }
        }
    }
}

/// The loopback is never listed, and a virtual interface is listed only
/// once it has carried traffic.
pub proof fn lemma_listed_interfaces(candidates: Seq<NetworkInterfaceStats>, i: NetworkInterfaceStats)
    requires
        by_reception(shown_interfaces(candidates)).contains(i),
    ensures
        i.name@ != "lo"@,
        is_virtual(i.name@) ==> i.rx_total_bytes > 0 || i.tx_total_bytes > 0,
{
    broadcast use vstd::seq_lib::group_to_multiset_ensures;

    lemma_by_reception(shown_interfaces(candidates));
    lemma_shown_interfaces(candidates);
    assert(by_reception(shown_interfaces(candidates)).to_multiset().count(i) > 0);
    assert(shown_interfaces(candidates).contains(i));
}

/// Index of the first occurrence of `p` in `s`.
pub open spec fn first_occurrence(s: Seq<char>, p: Seq<char>) -> Option<int> {
    if exists|i: int| 0 <= i && i + p.len() <= s.len() && #[trigger] s.subrange(i, i + p.len()) == p {
        Some(
            choose|i: int|
                0 <= i && i + p.len() <= s.len() && #[trigger] s.subrange(i, i + p.len()) == p
                    && forall|j: int|
                    0 <= j < i ==> #[trigger] s.subrange(j, j + p.len()) != p,
        )
    } else {
        None
    }
}

/// Index of the first white space of `s`, or its length.
pub open spec fn token_end(s: Seq<char>) -> int
    decreases s.len(),
{
    if s.len() == 0 || is_space(s[0]) {
        0
    } else {
        1 + token_end(s.drop_first())
    }
}

/// The first word of `s`, as `split_whitespace().next()` gives it.
pub open spec fn first_word(s: Seq<char>) -> Option<Seq<char>> {
    let t = trim_start(s);
    if t.len() == 0 {
        None
    } else {
        Some(t.take(token_end(t)))
    }
}

/// The latency that `ping` prints, as text: the word after the first
/// `time=` of its output ("64 bytes from 1.1.1.1: ... time=4.76 ms").
pub open spec fn latency_word(out: Seq<char>) -> Option<Seq<char>> {
    match first_occurrence(out, "time="@) {
        Some(i) => first_word(out.skip(i + 5)),
        None => None,
    }
}

proof fn lemma_token_end(s: Seq<char>)
    ensures
        0 <= token_end(s) <= s.len(),
        forall|k: int| 0 <= k < token_end(s) ==> !is_space(#[trigger] s[k]),
        token_end(s) < s.len() ==> is_space(s[token_end(s)]),
    decreases s.len(),
{
    if s.len() > 0 && !is_space(s[0]) {
        lemma_token_end(s.drop_first());
        assert forall|k: int| 1 <= k < token_end(s) implies !is_space(#[trigger] s[k]) by {
            assert(s[k] == s.drop_first()[k - 1]);
        }
    }
}

proof fn lemma_token_end_at(s: Seq<char>, e: int)
    requires
        0 <= e <= s.len(),
        forall|k: int| 0 <= k < e ==> !is_space(#[trigger] s[k]),
        e < s.len() ==> is_space(s[e]),
    ensures
        token_end(s) == e,
    decreases s.len(),
{
    if s.len() > 0 && e > 0 {
        assert forall|k: int| 0 <= k < e - 1 implies !is_space(#[trigger] s.drop_first()[k]) by {
            assert(s.drop_first()[k] == s[k + 1]);
        }
        lemma_token_end_at(s.drop_first(), e - 1);
    }
}

pub fn ping_latency_text(sortie: &str) -> (r: Option<String>)
    ensures
        opt_string_view(r) == latency_word(sortie@),
{
    let v = chars_of(sortie);
    let pat = chars_of("time=");
    proof {
        reveal_strlit("time=");
    }
    if v.len() < 5 {
        proof {
            assert(!exists|i: int| 0 <= i && i + pat@.len() <= v@.len() && #[trigger] v@.subrange(i, i + pat@.len()) == pat@);
        }
        return None;
    }
    let mut i: usize = 0;
    while i <= v.len() - 5
        invariant
            5 <= v.len(),
            i <= v.len() - 4,
            v@ == sortie@,
            pat@ == "time="@,
            pat@.len() == 5,
            forall|j: int| 0 <= j < i ==> #[trigger] v@.subrange(j, j + 5) != pat@,
        decreases v.len() - i,
    {
        let w = slice_chars(v.as_slice(), i, i + 5);
        if chars_eq(w.as_slice(), pat.as_slice()) {
            let ghost found = i as int;
            proof {
                assert(v@.subrange(found, found + pat@.len()) == pat@);
                assert(first_occurrence(v@, pat@) == Some(found)) by {
                    let c = choose|k: int|
                        0 <= k && k + pat@.len() <= v@.len() && #[trigger] v@.subrange(k, k + pat@.len()) == pat@
                            && forall|j: int| 0 <= j < k ==> #[trigger] v@.subrange(j, j + pat@.len()) != pat@;
                    assert(forall|j: int| 0 <= j < found ==> #[trigger] v@.subrange(j, j + pat@.len()) != pat@);
                    if c < found {
                        assert(v@.subrange(c, c + 5) != pat@);
                    } else if c > found {
                        assert(v@.subrange(found, found + pat@.len()) != pat@);
                    }
                }
            }
            let rest = slice_chars(v.as_slice(), i + 5, v.len());
            assert(rest@ =~= v@.skip(found + 5));
            let t = trim_start_chars(rest.as_slice());
            if t.len() == 0 {
                return None;
            }
            let mut e: usize = 0;
            while e < t.len() && !is_space_char(t[e])
                invariant
                    e <= t.len(),
                    forall|k: int| 0 <= k < e ==> !is_space(#[trigger] t@[k]),
                decreases t.len() - e,
            {
                e = e + 1;
            }
            proof {
                lemma_token_end_at(t@, e as int);
            }
            let word = slice_chars(t.as_slice(), 0, e);
            assert(word@ =~= t@.take(e as int));
            return Some(string_of(word.as_slice()));
        }
        i = i + 1;
    }
    proof {
        assert forall|k: int| 0 <= k && k + pat@.len() <= v@.len() implies #[trigger] v@.subrange(k, k + pat@.len()) != pat@ by {
            assert(k < i);
        }
    }
    None
}

/// The received rate of the interface named `active`, the first one of
/// that name; 0 when there is none. The network graph follows it.
pub open spec fn rate_of(interfaces: Seq<NetworkInterfaceStats>, active: Seq<char>) -> u64
    decreases interfaces.len(),
{
    if interfaces.len() == 0 {
        0
    } else if interfaces[0].name@ == active {
        interfaces[0].rx_bytes_per_sec
    } else {
        rate_of(interfaces.drop_first(), active)
    }
}

/// The received rate of the active interface, the one that carries the
/// useful traffic; 0 without an active interface.
pub fn debit_actif(interfaces: &[NetworkInterfaceStats], active: &Option<String>) -> (r: u64)
    ensures
        r == match active {
            Some(a) => rate_of(interfaces@, a@),
            None => 0,
        },
{
    let a = match active {
        Some(a) => chars_of(a.as_str()),
        None => {
            return 0;
        },
    };
    let mut i: usize = 0;
    assert(interfaces@.skip(0) =~= interfaces@);
    while i < interfaces.len()
        invariant
            i <= interfaces.len(),
            active matches Some(x) && a@ == x@,
            rate_of(interfaces@, a@) == rate_of(interfaces@.skip(i as int), a@),
        decreases interfaces.len() - i,
    {
        assert(interfaces@.skip(i as int).drop_first() =~= interfaces@.skip(i + 1));
        let n = chars_of(interfaces[i].name.as_str());
        if chars_eq(n.as_slice(), a.as_slice()) {
            return interfaces[i].rx_bytes_per_sec;
        }
        i = i + 1;
    }
    0
}

} // verus!
