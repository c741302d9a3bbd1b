//! Graphics cards as /sys/class/drm lists them.
//!
//! No `cardN` is assumed: the numbering depends on the order in which the
//! drivers were loaded. A machine can have no card, one, or several, from
//! different vendors.
use vstd::prelude::*;

use crate::gpu::GpuVendor;
use crate::sysfs::{
    file_name, file_name_of, find_content, hwmon_temp, hwmon_temp_by_label, lookup,
    opt_string_view, opt_view, read_string, read_u64, str_views, trimmed, u64_of, SysDir,
};
use crate::text::{
    all_digits, chars_eq, is_digit_char,
    chars_of, is_space_char, slice_chars, starts_with, starts_with_chars, string_of, trim,
    trim_chars, trim_start, trim_start_chars,
};

verus! {

/// What `str::to_lowercase` gives: the Unicode lowercase mapping.
pub uninterp spec fn unicode_lowercase(s: Seq<char>) -> Seq<char>;

/// `str::to_lowercase`: the result is named `unicode_lowercase`; the one
/// short fact stated of it is that an empty string stays empty.
#[verifier::external_body]
fn to_lowercase(s: &str) -> (r: String)
    ensures
        r@ == unicode_lowercase(s@),
        s@.len() == 0 ==> r@.len() == 0,
{
    s.to_lowercase()
}

/// `s` without all its leading `0x`, as `str::trim_start_matches("0x")`
/// gives it.
pub open spec fn strip_hex_prefixes(s: Seq<char>) -> Seq<char>
    decreases s.len(),
{
    if s.len() >= 2 && s[0] == '0' && s[1] == 'x' {
        strip_hex_prefixes(s.skip(2))
    } else {
        s
    }
}

/// Index of the first line feed of `s`, or -1.
pub open spec fn first_newline(s: Seq<char>) -> int
    decreases s.len(),
{
    if s.len() == 0 {
        -1
    } else if s[0] == '\n' {
        0
    } else {
        let r = first_newline(s.drop_first());
        if r < 0 {
            -1
        } else {
            r + 1
        }
    }
}

pub proof fn lemma_first_newline(s: Seq<char>)
    ensures
        -1 <= first_newline(s) < s.len(),
    decreases s.len(),
{
    if s.len() > 0 && s[0] != '\n' {
        lemma_first_newline(s.drop_first());
    }
}

proof fn lemma_first_newline_at(s: Seq<char>, j: int)
    requires
        0 <= j <= s.len(),
        j < s.len() ==> s[j] == '\n',
        forall|k: int| 0 <= k < j ==> s[k] != '\n',
    ensures
        first_newline(s) == (if j < s.len() {
            j
        } else {
            -1
        }),
    decreases s.len(),
{
    if s.len() > 0 && j > 0 {
        assert forall|k: int| 0 <= k < j - 1 implies s.drop_first()[k] != '\n' by {
            assert(s.drop_first()[k] == s[k + 1]);
        }
        lemma_first_newline_at(s.drop_first(), j - 1);
    }
}

/// A line without the `\r` of a `\r\n` ending.
pub open spec fn strip_cr(l: Seq<char>) -> Seq<char> {
    if l.len() > 0 && l.last() == '\r' {
        l.drop_last()
    } else {
        l
    }
}

/// The lines of a text, as `str::lines` gives them.
pub open spec fn lines_of(s: Seq<char>) -> Seq<Seq<char>>
    decreases s.len(),
{
    if s.len() == 0 {
        Seq::empty()
    } else {
        proof {
            lemma_first_newline(s);
        }
        let k = first_newline(s);
        if k < 0 {
            seq![s]
        } else {
            seq![strip_cr(s.take(k))] + lines_of(s.skip(k + 1))
        }
    }
}

/// The pci.ids lookup, over the lines that remain: `in_vendor` tells
/// whether the last vendor line seen was the one sought.
pub open spec fn pci_scan(lines: Seq<Seq<char>>, vendor: Seq<char>, device: Seq<char>, in_vendor: bool) -> Option<
    Seq<char>,
>
    decreases lines.len(),
{
    if lines.len() == 0 {
        None
    } else {
        let line = lines[0];
        let rest = lines.drop_first();
        if starts_with(line, seq!['#']) || trim(line).len() == 0 {
            pci_scan(rest, vendor, device, in_vendor)
        } else if !starts_with(line, seq!['\t']) {
            if in_vendor {
                None
            } else {
                pci_scan(rest, vendor, device, starts_with(line, vendor))
            }
        } else if in_vendor && !starts_with(line, seq!['\t', '\t']) {
            let entry = trim_start(line);
            if starts_with(entry, device) {
                Some(trim(entry.skip(device.len() as int)))
            } else {
                pci_scan(rest, vendor, device, in_vendor)
            }
        } else {
            pci_scan(rest, vendor, device, in_vendor)
        }
    }
}

/// The commercial name that a pci.ids database gives to a device: a vendor
/// id at the start of a line, then its devices indented by one tab.
pub open spec fn pci_name_of(vendor_id: Seq<char>, device_id: Seq<char>, ids: Option<Seq<char>>) -> Option<
    Seq<char>,
> {
    let vendor = unicode_lowercase(strip_hex_prefixes(vendor_id));
    let device = unicode_lowercase(strip_hex_prefixes(device_id));
    if vendor.len() == 0 || device.len() == 0 {
        None
    } else {
        match ids {
            None => None,
            Some(text) => pci_scan(lines_of(text), vendor, device, false),
        }
    }
}

fn strip_hex_prefixes_chars(v: &[char]) -> (r: Vec<char>)
    ensures
        r@ == strip_hex_prefixes(v@),
{
    let mut i: usize = 0;
    assert(v@.skip(0) =~= v@);
    while i < v.len() && v.len() - i >= 2 && v[i] == '0' && v[i + 1] == 'x'
        invariant
            i <= v.len(),
            strip_hex_prefixes(v@) == strip_hex_prefixes(v@.skip(i as int)),
        decreases v.len() - i,
    {
        assert(v@.skip(i as int).skip(2) =~= v@.skip(i + 2));
        i = i + 2;
    }
    slice_chars(v, i, v.len())
}

/// The lowercase form of an id without its `0x`.
fn normalized_id(id: &str) -> (r: Vec<char>)
    ensures
        r@ == unicode_lowercase(strip_hex_prefixes(id@)),
        strip_hex_prefixes(id@).len() == 0 ==> r@.len() == 0,
{
    let c = chars_of(id);
    let stripped = strip_hex_prefixes_chars(c.as_slice());
    let s = string_of(stripped.as_slice());
    let l = to_lowercase(s.as_str());
    chars_of(l.as_str())
}

/// Translates "0x1002" / "0x7550" into a readable name, from the content of
/// a pci.ids database when one could be read. An id that is empty once
/// its `0x` is removed matches nothing, whatever the database holds.
pub fn pci_name(vendor_id: &str, device_id: &str, pci_ids: Option<&str>) -> (r: Option<String>)
    ensures
        crate::sysfs::opt_string_view(r) == pci_name_of(
            vendor_id@,
            device_id@,
            crate::sysfs::opt_view(pci_ids),
        ),
        strip_hex_prefixes(vendor_id@).len() == 0 || strip_hex_prefixes(device_id@).len() == 0
            ==> r is None,
{
    let vendor = normalized_id(vendor_id);
    let device = normalized_id(device_id);
    if vendor.len() == 0 || device.len() == 0 {
        return None;
    }
    assert(strip_hex_prefixes(vendor_id@).len() > 0 && strip_hex_prefixes(device_id@).len() > 0);
    let text = match pci_ids {
        Some(t) => t,
        None => {
            return None;
        },
    };
    let v = chars_of(text);
    let n = v.len();
    let ghost want = pci_scan(lines_of(v@), vendor@, device@, false);
    let mut p: usize = 0;
    let mut in_vendor = false;
    assert(v@.skip(0) =~= v@);
    while p < n
        invariant
            p <= n,
            n == v.len(),
            want == pci_scan(lines_of(v@.skip(p as int)), vendor@, device@, in_vendor),
            want == pci_name_of(vendor_id@, device_id@, crate::sysfs::opt_view(pci_ids)),
            strip_hex_prefixes(vendor_id@).len() > 0,
            strip_hex_prefixes(device_id@).len() > 0,
        decreases n - p,
    {
        let mut k: usize = p;
        while k < n && v[k] != '\n'
            invariant
                p <= k <= n,
                n == v.len(),
                forall|j: int| p <= j < k ==> v@[j] != '\n',
            decreases n - k,
        {
            k = k + 1;
        }
        let ghost rest = v@.skip(p as int);
        proof {
            lemma_first_newline_at(rest, k - p);
            if k < n {
                assert(rest.take(k - p) =~= v@.subrange(p as int, k as int));
                assert(rest.skip(k - p + 1) =~= v@.skip(k + 1));
            } else {
                assert(rest =~= v@.subrange(p as int, k as int));
            }
        }
        let mut end = k;
        if k < n && k > p && v[k - 1] == '\r' {
            end = k - 1;
        }
        let line = slice_chars(v.as_slice(), p, end);
        let next: usize = if k < n {
            k + 1
        } else {
            n
        };
        proof {
            let lines = lines_of(rest);
            if k < n {
                assert(line@ == strip_cr(v@.subrange(p as int, k as int)));
                assert(lines[0] == line@);
                assert(lines.drop_first() =~= lines_of(v@.skip(next as int)));
            } else {
                assert(lines[0] == line@);
                assert(v@.skip(next as int) =~= Seq::<char>::empty());
                assert(lines.drop_first() =~= lines_of(v@.skip(next as int)));
            }
        }
        let t = trim_chars(line.as_slice());
        proof {
            if line.len() > 0 {
                let h = line@.take(1);
                assert(h[0] == line@[0]);
                if line@[0] == '#' {
                    assert(h =~= seq!['#']);
                } else {
                    assert(h[0] != seq!['#'][0]);
                }
                if line@[0] == '\t' {
                    assert(h =~= seq!['\t']);
                } else {
                    assert(h[0] != seq!['\t'][0]);
                }
            }
            if line.len() > 1 {
                let h = line@.take(2);
                assert(h[0] == line@[0]);
                assert(h[1] == line@[1]);
                if line@[0] == '\t' && line@[1] == '\t' {
                    assert(h =~= seq!['\t', '\t']);
                } else if line@[0] != '\t' {
                    assert(h[0] != seq!['\t', '\t'][0]);
                } else {
                    assert(h[1] != seq!['\t', '\t'][1]);
                }
            }
        }
        if (line.len() > 0 && line[0] == '#') || t.len() == 0 {
        } else if !(line.len() > 0 && line[0] == '\t') {
            if in_vendor {
                return None;
            }
            in_vendor = starts_with_chars(line.as_slice(), vendor.as_slice());
        } else {
            let two_tabs = line.len() > 1 && line[1] == '\t';
            if in_vendor && !two_tabs {
                let entry = trim_start_chars(line.as_slice());
                if starts_with_chars(entry.as_slice(), device.as_slice()) {
                    let name = slice_chars(entry.as_slice(), device.len(), entry.len());
                    assert(name@ =~= entry@.skip(device@.len() as int));
                    let name = trim_chars(name.as_slice());
                    return Some(string_of(name.as_slice()));
                }
            }
        }
        p = next;
    }
    assert(v@.skip(n as int) =~= Seq::<char>::empty());
    None
}

/// Vendor id of AMD in PCI.
pub open spec fn vendor_amd() -> Seq<char> {
    "0x1002"@
}

/// Vendor id of Intel in PCI.
pub open spec fn vendor_intel() -> Seq<char> {
    "0x8086"@
}

/// Below this, an AMD chip is taken as integrated: an APU only reserves a
/// small window of system memory, where a dedicated card carries its own
/// VRAM. An assumed heuristic, for want of an "integrated" flag exposed by
/// amdgpu.
pub const IGPU_VRAM_LIMIT_BYTES: u64 = 2 * 1024 * 1024 * 1024;

/// One mebibyte.
pub const MB: u64 = 1024 * 1024;

/// A graphics card, with the attributes of its device that the collectors
/// read.
pub struct DrmCard {
    /// /sys/class/drm/cardN/device
    pub device: String,
    /// amdgpu, i915, xe, nouveau...
    pub driver: String,
    pub vendor_id: String,
    pub device_id: String,
    /// The attribute files of the device directory, as read.
    pub attributes: SysDir,
    /// The hwmon controllers of the device, in the order of their names.
    pub hwmons: Vec<SysDir>,
}

/// An entry of /sys/class/drm, as read.
pub struct DrmEntry {
    /// Its name: `card0`, `card0-HDMI-A-1`...
    pub name: String,
    /// The path of its device directory.
    pub device: String,
    /// Where the `driver` link of the device leads, when it resolves.
    pub driver_link: Option<String>,
    pub attributes: SysDir,
    pub hwmons: Vec<SysDir>,
}

pub open spec fn or_empty(s: Option<Seq<char>>) -> Seq<char> {
    match s {
        Some(t) => t,
        None => Seq::empty(),
    }
}

/// `cardN`, with N made of decimal digits only: the connectors such as
/// `card0-HDMI-A-1` are left out.
pub open spec fn is_card_name(name: Seq<char>) -> bool {
    starts_with(name, "card"@) && name.len() > 4 && all_digits(name.skip(4))
}

/// An entry that is a card whose vendor can be read.
pub open spec fn card_kept(e: DrmEntry) -> bool {
    is_card_name(e.name@) && lookup(e.attributes.files@, "vendor"@) is Some
}

pub open spec fn kept_entries(es: Seq<DrmEntry>) -> Seq<DrmEntry>
    decreases es.len(),
{
    if es.len() == 0 {
        Seq::empty()
    } else {
        let rest = kept_entries(es.drop_last());
        if card_kept(es.last()) {
            rest.push(es.last())
        } else {
            rest
        }
    }
}

/// Only `cardN` entries with a readable vendor are kept, in their order:
/// the display connectors (`card0-HDMI-A-1`) never are.
pub proof fn lemma_kept_entries_are_cards(es: Seq<DrmEntry>)
    ensures
        forall|i: int| 0 <= i < kept_entries(es).len() ==> card_kept(#[trigger] kept_entries(es)[i]),
        kept_entries(es).len() <= es.len(),
    decreases es.len(),
{
    if es.len() > 0 {
        lemma_kept_entries_are_cards(es.drop_last());
        let rest = kept_entries(es.drop_last());
        assert forall|i: int| 0 <= i < kept_entries(es).len() implies card_kept(
            #[trigger] kept_entries(es)[i],
        ) by {
            if i < rest.len() {
                assert(kept_entries(es)[i] == rest[i]);
            }
        }
    }
}

/// The card that a kept entry gives.
pub open spec fn card_from(c: DrmCard, e: DrmEntry) -> bool {
    &&& c.device@ == e.device@
    &&& Some(c.vendor_id@) == trimmed(lookup(e.attributes.files@, "vendor"@))
    &&& c.device_id@ == or_empty(trimmed(lookup(e.attributes.files@, "device"@)))
    &&& c.driver@ == match e.driver_link {
        Some(p) => or_empty(file_name_of(p@)),
        None => Seq::empty(),
    }
    &&& c.attributes == e.attributes
    &&& c.hwmons == e.hwmons
}

/// The attribute `name` of the device of a card.
pub open spec fn attribute(c: DrmCard, name: Seq<char>) -> Option<u64> {
    u64_of(lookup(c.attributes.files@, name))
}

/// The attribute `name` of the first hwmon controller of a card.
pub open spec fn hwmon_attribute(c: DrmCard, name: Seq<char>) -> Option<u64> {
    if c.hwmons@.len() == 0 {
        None
    } else {
        u64_of(lookup(c.hwmons@[0].files@, name))
    }
}

pub open spec fn vram_total_of(c: DrmCard) -> Option<u64> {
    match attribute(c, "mem_info_vram_total"@) {
        Some(v) => Some(v),
        None => attribute(c, "lmem_total_bytes"@),
    }
}

pub open spec fn integrated(c: DrmCard) -> bool {
    if c.vendor_id@ == vendor_amd() {
        match vram_total_of(c) {
            None => true,
            Some(b) => b < IGPU_VRAM_LIMIT_BYTES,
        }
    } else if c.vendor_id@ == vendor_intel() {
        vram_total_of(c) is None
    } else {
        false
    }
}

pub open spec fn model_of(c: DrmCard, ids: Option<Seq<char>>) -> Seq<char> {
    match pci_name_of(c.vendor_id@, c.device_id@, ids) {
        Some(n) => n,
        None => "GPU "@ + c.driver@ + " "@ + c.device_id@,
    }
}

pub open spec fn div_opt(v: Option<u64>, d: u64) -> Option<u64> {
    match v {
        Some(x) => Some((x / d) as u64),
        None => None,
    }
}

impl DrmCard {
    fn first_hwmon(&self) -> (r: Option<&SysDir>)
        ensures
            match r {
                Some(h) => self.hwmons@.len() > 0 && *h == self.hwmons@[0],
                None => self.hwmons@.len() == 0,
            },
    {
        if self.hwmons.len() > 0 {
            Some(&self.hwmons[0])
        } else {
            None
        }
    }

    fn attribute_of(&self, name: &str) -> (r: Option<u64>)
        ensures
            r == attribute(*self, name@),
    {
        let key = chars_of(name);
        read_u64(find_content(self.attributes.files.as_slice(), key.as_slice()))
    }

    fn hwmon_attribute_of(&self, name: &str) -> (r: Option<u64>)
        ensures
            r == hwmon_attribute(*self, name@),
    {
        match self.first_hwmon() {
            Some(h) => {
                let key = chars_of(name);
                read_u64(find_content(h.files.as_slice(), key.as_slice()))
            },
            None => None,
        }
    }

    /// The path of the first hwmon controller of the card.
    pub fn hwmon(&self) -> (r: Option<String>)
        ensures
            match r {
                Some(p) => self.hwmons@.len() > 0 && p@ == self.hwmons@[0].path@,
                None => self.hwmons@.len() == 0,
            },
    {
        match self.first_hwmon() {
            Some(h) => Some(h.path.clone()),
            None => None,
        }
    }

    /// Temperature in millidegrees Celsius, preferring the "edge" then the
    /// "junction" sensor.
    pub fn temperature_millicelsius(&self) -> (r: Option<i64>)
        ensures
            r == (if self.hwmons@.len() == 0 {
                None
            } else {
                hwmon_temp(self.hwmons@[0].files@, seq!["edge"@, "junction"@])
            }),
    {
        match self.first_hwmon() {
            Some(h) => {
                let labels = ["edge", "junction"];
                assert(str_views(labels@) =~= seq!["edge"@, "junction"@]);
                hwmon_temp_by_label(h, &labels)
            },
            None => None,
        }
    }

    /// `freq1_input` is given in Hz by the DRM drivers.
    pub fn frequency_mhz(&self) -> (r: Option<u64>)
        ensures
            r == div_opt(hwmon_attribute(*self, "freq1_input"@), 1_000_000),
    {
        match self.hwmon_attribute_of("freq1_input") {
            Some(hz) => Some(hz / 1_000_000),
            None => None,
        }
    }

    /// Instantaneous power, published in microwatts by hwmon.
    pub fn power_microwatts(&self) -> (r: Option<u64>)
        ensures
            r == hwmon_attribute(*self, "power1_average"@),
    {
        self.hwmon_attribute_of("power1_average")
    }

    /// Busy percentage of the GPU, where the driver publishes it.
    pub fn usage_percent(&self) -> (r: Option<u64>)
        ensures
            r == attribute(*self, "gpu_busy_percent"@),
    {
        self.attribute_of("gpu_busy_percent")
    }

    pub fn vram_total_bytes(&self) -> (r: Option<u64>)
        ensures
            r == vram_total_of(*self),
    {
        match self.attribute_of("mem_info_vram_total") {
            Some(v) => Some(v),
            None => self.attribute_of("lmem_total_bytes"),
        }
    }

    pub fn vram_used_bytes(&self) -> (r: Option<u64>)
        ensures
            r == attribute(*self, "mem_info_vram_used"@),
    {
        self.attribute_of("mem_info_vram_used")
    }

    /// Shared system memory (GTT), the "VRAM" of integrated chips.
    pub fn shared_memory_bytes(&self) -> (r: Option<u64>)
        ensures
            r == attribute(*self, "mem_info_gtt_total"@),
    {
        self.attribute_of("mem_info_gtt_total")
    }

    /// An AMD chip with little or no VRAM, or an Intel chip without local
    /// memory (a dedicated Arc card declares its own).
    pub fn is_integrated(&self) -> (r: bool)
        ensures
            r == integrated(*self),
    {
        let v = chars_of(self.vendor_id.as_str());
        let amd = chars_of("0x1002");
        let intel = chars_of("0x8086");
        if chars_eq(v.as_slice(), amd.as_slice()) {
            match self.vram_total_bytes() {
                None => true,
                Some(bytes) => bytes < IGPU_VRAM_LIMIT_BYTES,
            }
        } else if chars_eq(v.as_slice(), intel.as_slice()) {
            self.vram_total_bytes().is_none()
        } else {
            false
        }
    }

    /// Commercial name, from the pci.ids database when its content could be
    /// read; otherwise the real driver and id rather than an invented model.
    pub fn model(&self, pci_ids: Option<&str>) -> (r: String)
        ensures
            r@ == model_of(*self, opt_view(pci_ids)),
            pci_name_of(self.vendor_id@, self.device_id@, opt_view(pci_ids)) != Some(
                Seq::<char>::empty(),
            ) ==> r@.len() > 0,
    {
        match pci_name(self.vendor_id.as_str(), self.device_id.as_str(), pci_ids) {
            Some(n) => {
                proof {
                    if n@.len() == 0 {
                        assert(n@ =~= Seq::<char>::empty());
                    }
                }
                n
            },
            None => {
                let mut v = chars_of("GPU ");
                let d = chars_of(self.driver.as_str());
                crate::text::append_chars(&mut v, d.as_slice());
                let sp = chars_of(" ");
                crate::text::append_chars(&mut v, sp.as_slice());
                let id = chars_of(self.device_id.as_str());
                crate::text::append_chars(&mut v, id.as_slice());
                proof {
                    reveal_strlit("GPU ");
                }
                string_of(v.as_slice())
            },
        }
    }
}

/// Whether a name is `card` followed by decimal digits only.
pub fn card_name(name: &str) -> (r: bool)
    ensures
        r == is_card_name(name@),
{
    let v = chars_of(name);
    let prefix = chars_of("card");
    if !starts_with_chars(v.as_slice(), prefix.as_slice()) || v.len() <= 4 {
        return false;
    }
    let mut i: usize = 4;
    while i < v.len()
        invariant
            4 <= i <= v.len(),
            v@ == name@,
            forall|k: int| 4 <= k < i ==> crate::text::is_digit(#[trigger] v@[k]),
        decreases v.len() - i,
    {
        if !is_digit_char(v[i]) {
            assert(!crate::text::is_digit(v@.skip(4)[i - 4]));
            return false;
        }
        i = i + 1;
    }
    assert forall|k: int| 0 <= k < v@.skip(4).len() implies crate::text::is_digit(
        #[trigger] v@.skip(4)[k],
    ) by {
        assert(v@.skip(4)[k] == v@[k + 4]);
    }
    true
}

/// The graphics cards among the entries of /sys/class/drm, in their order:
/// the `cardN` entries whose vendor can be read.
pub fn cards(entries: Vec<DrmEntry>) -> (r: Vec<DrmCard>)
    ensures
        r@.len() == kept_entries(entries@).len(),
        forall|i: int| 0 <= i < r@.len() ==> card_from(#[trigger] r@[i], kept_entries(entries@)[i]),
{
    let ghost all = entries@;
    let mut entries = entries;
    let mut r: Vec<DrmCard> = Vec::new();
    let ghost mut k: int = 0;
    assert(all.skip(0) =~= all);
    assert(all.take(0) =~= Seq::<DrmEntry>::empty());
    while entries.len() > 0
        invariant
            0 <= k <= all.len(),
            entries@ == all.skip(k),
            r@.len() == kept_entries(all.take(k)).len(),
            forall|i: int|
                0 <= i < r@.len() ==> card_from(#[trigger] r@[i], kept_entries(all.take(k))[i]),
        decreases entries.len(),
    {
        let e = entries.remove(0);
        proof {
            assert(e == all[k]);
            assert(all.take(k + 1).drop_last() =~= all.take(k));
            assert(all.take(k + 1).last() == all[k]);
            assert(all.skip(k).remove(0) =~= all.skip(k + 1));
        }
        let ghost kept_before = kept_entries(all.take(k));
        let ghost r_before = r@;
        let DrmEntry { name, device, driver_link, attributes, hwmons } = e;
        let vendor_key = chars_of("vendor");
        let device_key = chars_of("device");
        let vendor = read_string(find_content(attributes.files.as_slice(), vendor_key.as_slice()));
        if card_name(name.as_str()) && vendor.is_some() {
            let vendor_id = match vendor {
                Some(v) => v,
                None => String::new(),
            };
            let device_id = match read_string(
                find_content(attributes.files.as_slice(), device_key.as_slice()),
            ) {
                Some(d) => d,
                None => String::new(),
            };
            let driver = match &driver_link {
                Some(p) => match file_name(p.as_str()) {
                    Some(n) => n,
                    None => String::new(),
                },
                None => String::new(),
            };
            let card = DrmCard { device, driver, vendor_id, device_id, attributes, hwmons };
            assert(card_from(card, all[k]));
            r.push(card);
            proof {
                assert(kept_entries(all.take(k + 1)) == kept_before.push(all[k]));
                assert forall|i: int| 0 <= i < r@.len() implies card_from(
                    #[trigger] r@[i],
                    kept_entries(all.take(k + 1))[i],
                ) by {
                    if i < r_before.len() {
                        assert(r@[i] == r_before[i]);
                    }
                }
            }
        } else {
            proof {
                if !card_kept(all[k]) {
                    assert(kept_entries(all.take(k + 1)) == kept_before);
                }
            }
        }
        proof {
            k = k + 1;
        }
    }
    assert(all.take(k) =~= all);
    r
}

/// What the sysfs collectors read of one card, in integers: busy
/// percentage, memory in mebibytes, temperature in millidegrees Celsius,
/// frequency in MHz and power in microwatts.
pub struct GpuReading {
    pub vendor: GpuVendor,
    pub model: String,
    pub usage_percent: Option<u64>,
    /// None for iGPUs (shared memory).
    pub vram_used_mb: Option<u64>,
    pub vram_total_mb: Option<u64>,
    /// iGPUs only.
    pub shared_memory_mb: Option<u64>,
    pub temperature_millicelsius: Option<i64>,
    pub frequency_mhz: Option<u64>,
    pub power_microwatts: Option<u64>,
}

/// The kind of card that the sysfs collectors report: dedicated or
/// integrated AMD, Arc or integrated Intel; none for other vendors, which
/// are read otherwise.
pub open spec fn vendor_class(c: DrmCard) -> Option<GpuVendor> {
    if c.vendor_id@ == vendor_amd() {
        if integrated(c) {
            Some(GpuVendor::AmdIgpu)
        } else {
            Some(GpuVendor::AmdDiscrete)
        }
    } else if c.vendor_id@ == vendor_intel() {
        if integrated(c) {
            Some(GpuVendor::IntelIgpu)
        } else {
            Some(GpuVendor::IntelArc)
        }
    } else {
        None
    }
}

pub fn card_vendor(card: &DrmCard) -> (r: Option<GpuVendor>)
    ensures
        r == vendor_class(*card),
{
    let v = chars_of(card.vendor_id.as_str());
    let amd = chars_of("0x1002");
    let intel = chars_of("0x8086");
    let is_amd = chars_eq(v.as_slice(), amd.as_slice());
    let is_intel = chars_eq(v.as_slice(), intel.as_slice());
    proof {
        reveal_strlit("0x1002");
        reveal_strlit("0x8086");
    }
    if is_amd {
        if card.is_integrated() {
            Some(GpuVendor::AmdIgpu)
        } else {
            Some(GpuVendor::AmdDiscrete)
        }
    } else if is_intel {
        if card.is_integrated() {
            Some(GpuVendor::IntelIgpu)
        } else {
            Some(GpuVendor::IntelArc)
        }
    } else {
        None
    }
}

fn mb(v: Option<u64>) -> (r: Option<u64>)
    ensures
        r == div_opt(v, MB),
{
    match v {
        Some(b) => Some(b / MB),
        None => None,
    }
}

/// The reading of one card of a known class. Dedicated AMD cards report
/// their VRAM; integrated chips their shared memory; an Arc card its local
/// memory but not its use.
pub open spec fn reading_matches(g: GpuReading, c: DrmCard, v: GpuVendor, ids: Option<Seq<char>>) -> bool {
    &&& g.vendor == v
    &&& g.model@ == model_of(c, ids)
    &&& g.usage_percent == attribute(c, "gpu_busy_percent"@)
    &&& g.vram_used_mb == (if v == GpuVendor::AmdDiscrete {
        div_opt(attribute(c, "mem_info_vram_used"@), MB)
    } else {
        None
    })
    &&& g.vram_total_mb == (if v == GpuVendor::AmdDiscrete || v == GpuVendor::IntelArc {
        div_opt(vram_total_of(c), MB)
    } else {
        None
    })
    &&& g.shared_memory_mb == (if v == GpuVendor::AmdIgpu || v == GpuVendor::IntelIgpu {
        div_opt(attribute(c, "mem_info_gtt_total"@), MB)
    } else {
        None
    })
    &&& g.temperature_millicelsius == (if c.hwmons@.len() == 0 {
        None
    } else {
        hwmon_temp(c.hwmons@[0].files@, seq!["edge"@, "junction"@])
    })
    &&& g.frequency_mhz == div_opt(hwmon_attribute(c, "freq1_input"@), 1_000_000)
    &&& g.power_microwatts == hwmon_attribute(c, "power1_average"@)
}

/// Reads one card of a known class.
pub fn read_card(card: &DrmCard, vendor: GpuVendor, pci_ids: Option<&str>) -> (r: GpuReading)
    ensures
        reading_matches(r, *card, vendor, opt_view(pci_ids)),
{
    let dedicated_amd = match vendor {
        GpuVendor::AmdDiscrete => true,
        _ => false,
    };
    let arc = match vendor {
        GpuVendor::IntelArc => true,
        _ => false,
    };
    let igpu = match vendor {
        GpuVendor::AmdIgpu | GpuVendor::IntelIgpu => true,
        _ => false,
    };
    GpuReading {
        vendor,
        model: card.model(pci_ids),
        usage_percent: card.usage_percent(),
        vram_used_mb: if dedicated_amd {
            mb(card.vram_used_bytes())
        } else {
            None
        },
        vram_total_mb: if dedicated_amd || arc {
            mb(card.vram_total_bytes())
        } else {
            None
        },
        shared_memory_mb: if igpu {
            mb(card.shared_memory_bytes())
        } else {
            None
        },
        temperature_millicelsius: card.temperature_millicelsius(),
        frequency_mhz: card.frequency_mhz(),
        power_microwatts: card.power_microwatts(),
    }
}

/// The cards of class `v` among `cards`, in order.
pub open spec fn cards_of_class(cards: Seq<DrmCard>, v: GpuVendor) -> Seq<DrmCard>
    decreases cards.len(),
{
    if cards.len() == 0 {
        Seq::empty()
    } else {
        let rest = cards_of_class(cards.drop_last(), v);
        if vendor_class(cards.last()) == Some(v) {
            rest.push(cards.last())
        } else {
            rest
        }
    }
}

/// Reads the cards of class `v`, in order, appending to `out`.
fn read_class(cards: &[DrmCard], v: GpuVendor, pci_ids: Option<&str>, out: &mut Vec<GpuReading>)
    ensures
        final(out)@.len() == old(out)@.len() + cards_of_class(cards@, v).len(),
        forall|i: int| 0 <= i < old(out)@.len() ==> final(out)@[i] == old(out)@[i],
        forall|i: int|
            old(out)@.len() <= i < final(out)@.len() ==> reading_matches(
                #[trigger] final(out)@[i],
                cards_of_class(cards@, v)[i - old(out)@.len()],
                v,
                opt_view(pci_ids),
            ),
{
    let ghost start = out@;
    let mut i: usize = 0;
    assert(cards@.take(0) =~= Seq::<DrmCard>::empty());
    while i < cards.len()
        invariant
            i <= cards.len(),
            out@.len() == start.len() + cards_of_class(cards@.take(i as int), v).len(),
            forall|j: int| 0 <= j < start.len() ==> out@[j] == start[j],
            forall|j: int|
                start.len() <= j < out@.len() ==> reading_matches(
                    #[trigger] out@[j],
                    cards_of_class(cards@.take(i as int), v)[j - start.len()],
                    v,
                    opt_view(pci_ids),
                ),
        decreases cards.len() - i,
    {
        assert(cards@.take(i + 1).drop_last() =~= cards@.take(i as int));
        assert(cards@.take(i + 1).last() == cards@[i as int]);
        let ghost before = out@;
        let ghost class_before = cards_of_class(cards@.take(i as int), v);
        if card_vendor(&cards[i]) == Some(v) {
            let g = read_card(&cards[i], v, pci_ids);
            out.push(g);
            assert(cards_of_class(cards@.take(i + 1), v) == class_before.push(cards@[i as int]));
            assert forall|j: int| start.len() <= j < out@.len() implies reading_matches(
                #[trigger] out@[j],
                cards_of_class(cards@.take(i + 1), v)[j - start.len()],
                v,
                opt_view(pci_ids),
            ) by {
                if j < before.len() {
                    assert(out@[j] == before[j]);
                }
            }
        } else {
            assert(cards_of_class(cards@.take(i + 1), v) == class_before);
        }
        i = i + 1;
    }
    assert(cards@.take(cards.len() as int) =~= cards@);
}

/// All the cards that sysfs describes, as the collectors report them:
/// dedicated AMD cards first, then integrated AMD chips, then Intel chips.
pub open spec fn sysfs_gpu_order(cards: Seq<DrmCard>) -> Seq<(DrmCard, GpuVendor)> {
    cards_of_class(cards, GpuVendor::AmdDiscrete).map_values(|c: DrmCard| (c, GpuVendor::AmdDiscrete))
        + cards_of_class(cards, GpuVendor::AmdIgpu).map_values(|c: DrmCard| (c, GpuVendor::AmdIgpu))
        + intel_cards(cards)
}

/// Intel chips in card order, each with its class.
pub open spec fn intel_cards(cards: Seq<DrmCard>) -> Seq<(DrmCard, GpuVendor)>
    decreases cards.len(),
{
    if cards.len() == 0 {
        Seq::empty()
    } else {
        let rest = intel_cards(cards.drop_last());
        let c = cards.last();
        match vendor_class(c) {
            Some(GpuVendor::IntelArc) => rest.push((c, GpuVendor::IntelArc)),
            Some(GpuVendor::IntelIgpu) => rest.push((c, GpuVendor::IntelIgpu)),
            _ => rest,
        }
    }
}

/// Reads the Intel chips, in order, appending to `out`.
fn read_intel(cards: &[DrmCard], pci_ids: Option<&str>, out: &mut Vec<GpuReading>)
    ensures
        final(out)@.len() == old(out)@.len() + intel_cards(cards@).len(),
        forall|i: int| 0 <= i < old(out)@.len() ==> final(out)@[i] == old(out)@[i],
        forall|i: int|
            old(out)@.len() <= i < final(out)@.len() ==> reading_matches(
                #[trigger] final(out)@[i],
                intel_cards(cards@)[i - old(out)@.len()].0,
                intel_cards(cards@)[i - old(out)@.len()].1,
                opt_view(pci_ids),
            ),
{
    let ghost start = out@;
    let mut i: usize = 0;
    assert(cards@.take(0) =~= Seq::<DrmCard>::empty());
    while i < cards.len()
        invariant
            i <= cards.len(),
            out@.len() == start.len() + intel_cards(cards@.take(i as int)).len(),
            forall|j: int| 0 <= j < start.len() ==> out@[j] == start[j],
            forall|j: int|
                start.len() <= j < out@.len() ==> reading_matches(
                    #[trigger] out@[j],
                    intel_cards(cards@.take(i as int))[j - start.len()].0,
                    intel_cards(cards@.take(i as int))[j - start.len()].1,
                    opt_view(pci_ids),
                ),
        decreases cards.len() - i,
    {
        assert(cards@.take(i + 1).drop_last() =~= cards@.take(i as int));
        assert(cards@.take(i + 1).last() == cards@[i as int]);
        let ghost before = out@;
        let ghost class_before = intel_cards(cards@.take(i as int));
        let v = card_vendor(&cards[i]);
        let chosen = match v {
            Some(GpuVendor::IntelArc) => Some(GpuVendor::IntelArc),
            Some(GpuVendor::IntelIgpu) => Some(GpuVendor::IntelIgpu),
            _ => None,
        };
        match chosen {
            Some(class) => {
                let g = read_card(&cards[i], class, pci_ids);
                out.push(g);
                assert(intel_cards(cards@.take(i + 1)) == class_before.push(
                    (cards@[i as int], class),
                ));
                assert forall|j: int| start.len() <= j < out@.len() implies reading_matches(
                    #[trigger] out@[j],
                    intel_cards(cards@.take(i + 1))[j - start.len()].0,
                    intel_cards(cards@.take(i + 1))[j - start.len()].1,
                    opt_view(pci_ids),
                ) by {
                    if j < before.len() {
                        assert(out@[j] == before[j]);
                    }
                }
            },
            None => {
                assert(intel_cards(cards@.take(i + 1)) == class_before);
            },
        }
        i = i + 1;
    }
    assert(cards@.take(cards.len() as int) =~= cards@);
}

/// The cards that sysfs describes, as the collectors report them: dedicated
/// AMD cards, then integrated AMD chips, then Intel chips, each group in
/// card order. Other vendors are left to their own collectors.
pub fn sysfs_gpus(cards: &[DrmCard], pci_ids: Option<&str>) -> (r: Vec<GpuReading>)
    ensures
        r@.len() == sysfs_gpu_order(cards@).len(),
        forall|i: int|
            0 <= i < r@.len() ==> reading_matches(
                #[trigger] r@[i],
                sysfs_gpu_order(cards@)[i].0,
                sysfs_gpu_order(cards@)[i].1,
                opt_view(pci_ids),
            ),
        // Each card is reported under its own class; integrated chips never
        // report VRAM, dedicated cards never report shared memory.
        forall|i: int|
            0 <= i < r@.len() ==> vendor_class(sysfs_gpu_order(cards@)[i].0) == Some(
                (#[trigger] r@[i]).vendor,
            ),
        forall|i: int|
            0 <= i < r@.len() && ((#[trigger] r@[i]).vendor == GpuVendor::AmdIgpu || r@[i].vendor
                == GpuVendor::IntelIgpu) ==> r@[i].vram_used_mb is None && r@[i].vram_total_mb is None,
        forall|i: int|
            0 <= i < r@.len() && ((#[trigger] r@[i]).vendor == GpuVendor::AmdDiscrete || r@[i].vendor
                == GpuVendor::IntelArc) ==> r@[i].shared_memory_mb is None,
        // Frequency, power and temperature come from the card's first hwmon
        // controller: `freq1_input` in Hz made MHz, `power1_average` in
        // microwatts as published, the `edge` or `junction` sensor first.
        forall|i: int|
            0 <= i < r@.len() ==> (#[trigger] r@[i]).frequency_mhz == (if sysfs_gpu_order(
                cards@,
            )[i].0.hwmons@.len() == 0 {
                None
            } else {
                match u64_of(lookup(sysfs_gpu_order(cards@)[i].0.hwmons@[0].files@, "freq1_input"@)) {
                    Some(hz) => Some((hz / 1_000_000) as u64),
                    None => None,
                }
            }),
        forall|i: int|
            0 <= i < r@.len() ==> (#[trigger] r@[i]).power_microwatts == (if sysfs_gpu_order(
                cards@,
            )[i].0.hwmons@.len() == 0 {
                None
            } else {
                u64_of(lookup(sysfs_gpu_order(cards@)[i].0.hwmons@[0].files@, "power1_average"@))
            }),
        forall|i: int|
            0 <= i < r@.len() ==> (#[trigger] r@[i]).temperature_millicelsius == (if sysfs_gpu_order(
                cards@,
            )[i].0.hwmons@.len() == 0 {
                None
            } else {
                hwmon_temp(sysfs_gpu_order(cards@)[i].0.hwmons@[0].files@, seq!["edge"@, "junction"@])
            }),
{
    let mut r: Vec<GpuReading> = Vec::new();
    read_class(cards, GpuVendor::AmdDiscrete, pci_ids, &mut r);
    let ghost a = r@;
    read_class(cards, GpuVendor::AmdIgpu, pci_ids, &mut r);
    let ghost b = r@;
    read_intel(cards, pci_ids, &mut r);
    proof {
        let ca = cards_of_class(cards@, GpuVendor::AmdDiscrete);
        let cb = cards_of_class(cards@, GpuVendor::AmdIgpu);
        let sa = ca.map_values(|c: DrmCard| (c, GpuVendor::AmdDiscrete));
        let sb = cb.map_values(|c: DrmCard| (c, GpuVendor::AmdIgpu));
        let sc = intel_cards(cards@);
        let order = sysfs_gpu_order(cards@);
        assert(order == sa + sb + sc);
        assert forall|i: int| 0 <= i < r@.len() implies reading_matches(
            #[trigger] r@[i],
            order[i].0,
            order[i].1,
            opt_view(pci_ids),
        ) by {
            if i < sa.len() {
                assert(r@[i] == b[i]);
                assert(b[i] == a[i]);
                assert(order[i] == sa[i]);
            } else if i < sa.len() + sb.len() {
                assert(r@[i] == b[i]);
                assert(order[i] == sb[i - sa.len()]);
            } else {
                assert(order[i] == sc[i - sa.len() - sb.len()]);
            }
        }
        lemma_gpu_order(cards@);
    }
    r
}

proof fn lemma_cards_of_class(cards: Seq<DrmCard>, v: GpuVendor)
    ensures
        forall|i: int|
            0 <= i < cards_of_class(cards, v).len() ==> vendor_class(
                #[trigger] cards_of_class(cards, v)[i],
            ) == Some(v),
    decreases cards.len(),
{
    if cards.len() > 0 {
        lemma_cards_of_class(cards.drop_last(), v);
        let rest = cards_of_class(cards.drop_last(), v);
        assert forall|i: int|
            0 <= i < cards_of_class(cards, v).len() implies vendor_class(
            #[trigger] cards_of_class(cards, v)[i],
        ) == Some(v) by {
            if i < rest.len() {
                assert(cards_of_class(cards, v)[i] == rest[i]);
            }
        }
    }
}

proof fn lemma_intel_cards(cards: Seq<DrmCard>)
    ensures
        forall|i: int|
            0 <= i < intel_cards(cards).len() ==> vendor_class((#[trigger] intel_cards(cards)[i]).0)
                == Some(intel_cards(cards)[i].1),
    decreases cards.len(),
{
    if cards.len() > 0 {
        lemma_intel_cards(cards.drop_last());
        let rest = intel_cards(cards.drop_last());
        assert forall|i: int|
            0 <= i < intel_cards(cards).len() implies vendor_class(
            (#[trigger] intel_cards(cards)[i]).0,
        ) == Some(intel_cards(cards)[i].1) by {
            if i < rest.len() {
                assert(intel_cards(cards)[i] == rest[i]);
            }
        }
    }
}

/// Every card in the reporting order comes with its own class.
pub proof fn lemma_gpu_order(cards: Seq<DrmCard>)
    ensures
        forall|i: int|
            0 <= i < sysfs_gpu_order(cards).len() ==> vendor_class(
                (#[trigger] sysfs_gpu_order(cards)[i]).0,
            ) == Some(sysfs_gpu_order(cards)[i].1),
{
    lemma_cards_of_class(cards, GpuVendor::AmdDiscrete);
    lemma_cards_of_class(cards, GpuVendor::AmdIgpu);
    lemma_intel_cards(cards);
    let sa = cards_of_class(cards, GpuVendor::AmdDiscrete).map_values(
        |c: DrmCard| (c, GpuVendor::AmdDiscrete),
    );
    let sb = cards_of_class(cards, GpuVendor::AmdIgpu).map_values(
        |c: DrmCard| (c, GpuVendor::AmdIgpu),
    );
    let sc = intel_cards(cards);
    let order = sysfs_gpu_order(cards);
    assert(order == sa + sb + sc);
    assert forall|i: int| 0 <= i < order.len() implies vendor_class((#[trigger] order[i]).0) == Some(
        order[i].1,
    ) by {
        if i < sa.len() {
            assert(order[i] == sa[i]);
            assert(sa[i].0 == cards_of_class(cards, GpuVendor::AmdDiscrete)[i]);
        } else if i < sa.len() + sb.len() {
            assert(order[i] == sb[i - sa.len()]);
            assert(sb[i - sa.len()].0 == cards_of_class(cards, GpuVendor::AmdIgpu)[i - sa.len()]);
        } else {
            assert(order[i] == sc[i - sa.len() - sb.len()]);
        }
    }
}

/// A card's frequency is its `freq1_input`, published in hertz, in whole
/// megahertz: the reading `f` and the `hz` read satisfy
/// `f * 1_000_000 <= hz < (f + 1) * 1_000_000`; one is known exactly when
/// the other is. Power is reported in microwatts as `power1_average` gives
/// it.
pub proof fn lemma_reading_units(g: GpuReading, c: DrmCard, v: GpuVendor, ids: Option<Seq<char>>)
    requires
        reading_matches(g, c, v, ids),
    ensures
        ({
            let hz = if c.hwmons@.len() == 0 {
                None
            } else {
                u64_of(lookup(c.hwmons@[0].files@, "freq1_input"@))
            };
            match (g.frequency_mhz, hz) {
                (Some(f), Some(h)) => f * 1_000_000 <= h < (f + 1) * 1_000_000,
                (None, None) => true,
                _ => false,
            }
        }),
        g.power_microwatts == (if c.hwmons@.len() == 0 {
            None
        } else {
            u64_of(lookup(c.hwmons@[0].files@, "power1_average"@))
        }),
{
}

proof fn lemma_first_newline_props(s: Seq<char>)
    ensures
        first_newline(s) >= 0 ==> s[first_newline(s)] == '\n',
        forall|k: int| 0 <= k < s.len() && (first_newline(s) < 0 || k < first_newline(s)) ==> s[k]
            != '\n',
    decreases s.len(),
{
    lemma_first_newline(s);
    if s.len() > 0 && s[0] != '\n' {
        lemma_first_newline_props(s.drop_first());
        assert forall|k: int|
            0 <= k < s.len() && (first_newline(s) < 0 || k < first_newline(s)) implies s[k]
            != '\n' by {
            if k > 0 {
                assert(s[k] == s.drop_first()[k - 1]);
            }
        }
    }
}

/// The lines of a text cut after a line feed are those of each part.
proof fn lemma_lines_concat(a: Seq<char>, x: Seq<char>)
    requires
        a.len() == 0 || a.last() == '\n',
    ensures
        lines_of(a + x) == lines_of(a) + lines_of(x),
    decreases a.len(),
{
    if a.len() == 0 {
        assert(a + x =~= x);
        assert(lines_of(a) =~= Seq::<Seq<char>>::empty());
        assert(lines_of(a) + lines_of(x) =~= lines_of(x));
    } else {
        lemma_first_newline_props(a);
        lemma_first_newline(a);
        let k = first_newline(a);
        assert(k >= 0) by {
            if k < 0 {
                assert(a[a.len() - 1] != '\n');
            }
        }
        let ax = a + x;
        assert forall|j: int| 0 <= j < k implies ax[j] != '\n' by {
            assert(ax[j] == a[j]);
        }
        assert(ax[k] == a[k]);
        lemma_first_newline_at(ax, k);
        assert(ax.take(k) =~= a.take(k));
        assert(ax.skip(k + 1) =~= a.skip(k + 1) + x);
        let rest = a.skip(k + 1);
        assert(rest.len() == 0 || rest.last() == '\n') by {
            if rest.len() > 0 {
                assert(rest.last() == a.last());
            }
        }
        lemma_lines_concat(rest, x);
        assert(lines_of(a) == seq![strip_cr(a.take(k))] + lines_of(rest));
        assert(lines_of(ax) == seq![strip_cr(a.take(k))] + lines_of(rest + x));
        assert(lines_of(ax) =~= lines_of(a) + lines_of(x));
    }
}

/// A line without line feed, then a line feed, then the rest.
proof fn lemma_lines_first(c: Seq<char>, b: Seq<char>)
    requires
        forall|k: int| 0 <= k < c.len() ==> c[k] != '\n',
    ensures
        lines_of(c + seq!['\n'] + b) == seq![strip_cr(c)] + lines_of(b),
{
    let t = c + seq!['\n'] + b;
    assert forall|j: int| 0 <= j < c.len() implies t[j] != '\n' by {
        assert(t[j] == c[j]);
    }
    assert(t[c.len() as int] == '\n');
    lemma_first_newline_at(t, c.len() as int);
    assert(t.take(c.len() as int) =~= c);
    assert(t.skip(c.len() as int + 1) =~= b);
}

/// A comment line among the lines changes nothing to the lookup.
proof fn lemma_scan_skips_comment(
    a: Seq<Seq<char>>,
    c: Seq<char>,
    b: Seq<Seq<char>>,
    vendor: Seq<char>,
    device: Seq<char>,
    in_vendor: bool,
)
    requires
        starts_with(c, seq!['#']),
    ensures
        pci_scan(a + seq![c] + b, vendor, device, in_vendor) == pci_scan(a + b, vendor, device, in_vendor),
    decreases a.len(),
{
    if a.len() == 0 {
        assert(a + seq![c] + b =~= seq![c] + b);
        assert((seq![c] + b).drop_first() =~= b);
        assert(a + b =~= b);
    } else {
        let l1 = a + seq![c] + b;
        let l2 = a + b;
        assert(l1[0] == a[0] && l2[0] == a[0]);
        assert(l1.drop_first() =~= a.drop_first() + seq![c] + b);
        assert(l2.drop_first() =~= a.drop_first() + b);
        let line = a[0];
        let next = if starts_with(line, seq!['#']) || trim(line).len() == 0 {
            in_vendor
        } else if !starts_with(line, seq!['\t']) {
            starts_with(line, vendor)
        } else {
            in_vendor
        };
        lemma_scan_skips_comment(a.drop_first(), c, b, vendor, device, next);
    }
}

/// Lines of the database that start with `#` are comments: inserting one
/// anywhere, after a line feed, never changes the name found.
pub proof fn lemma_comment_lines_ignored(
    vendor_id: Seq<char>,
    device_id: Seq<char>,
    before: Seq<char>,
    comment: Seq<char>,
    after: Seq<char>,
)
    requires
        before.len() == 0 || before.last() == '\n',
        comment.len() > 0 && comment[0] == '#',
        forall|k: int| 0 <= k < comment.len() ==> comment[k] != '\n',
    ensures
        pci_name_of(vendor_id, device_id, Some(before + comment + seq!['\n'] + after))
            == pci_name_of(vendor_id, device_id, Some(before + after)),
{
    let with = before + comment + seq!['\n'] + after;
    assert(with =~= before + (comment + seq!['\n'] + after));
    lemma_lines_concat(before, comment + seq!['\n'] + after);
    lemma_lines_concat(before, after);
    lemma_lines_first(comment, after);
    let sc = strip_cr(comment);
    assert(starts_with(sc, seq!['#'])) by {
        if comment.len() == 1 {
            assert(comment.last() == '#');
        }
        assert(sc[0] == '#');
        assert(sc.take(1) =~= seq!['#']);
    }
    assert(lines_of(with) =~= lines_of(before) + seq![sc] + lines_of(after));
    let vendor = unicode_lowercase(strip_hex_prefixes(vendor_id));
    let device = unicode_lowercase(strip_hex_prefixes(device_id));
    lemma_scan_skips_comment(lines_of(before), sc, lines_of(after), vendor, device, false);
}

} // verus!
