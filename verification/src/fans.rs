//! Fans and cooling, from /sys/class/hwmon/*/fan*_input and fan*_label.
//! Every hwmon controller present is walked: no hwmonN is assumed, their
//! numbering changing from one boot to the next.
use vstd::prelude::*;

use crate::sysfs::{
    content_of, find_content, hwmon_name, hwmon_name_of, hwmon_temp, hwmon_temp_by_label, lookup,
    read_string, read_u64, sensor_index, sensor_index_of, trimmed, u64_of, SysDir, SysFile,
};
use crate::text::{
    append_chars, chars_eq, chars_of, contains, contains_chars, ends_with, ends_with_chars,
    starts_with, starts_with_chars, string_of, to_ascii_lower, to_ascii_lower_chars, trim,
    trim_chars,
};

verus! {

#[derive(Debug, Clone, Copy, PartialEq, Eq, Structural)]
pub enum FanKind {
    CpuCooler,
    CaseFan,
    AioPump,
    AioRadiator,
    GpuFan,
    Unknown,
}

#[derive(Debug)]
pub struct FanStats {
    /// Label from hwmon ("fan1", "Pump", "CPU Fan").
    pub label: String,
    pub kind: FanKind,
    pub rpm: u32,
    pub rpm_min: Option<u32>,
    pub rpm_max: Option<u32>,
}

/// What a `FanStats` says, with its label as characters.
pub struct FanView {
    pub label: Seq<char>,
    pub kind: FanKind,
    pub rpm: u32,
    pub rpm_min: Option<u32>,
    pub rpm_max: Option<u32>,
}

impl View for FanStats {
    type V = FanView;

    open spec fn view(&self) -> FanView {
        FanView {
            label: self.label@,
            kind: self.kind,
            rpm: self.rpm,
            rpm_min: self.rpm_min,
            rpm_max: self.rpm_max,
        }
    }
}

#[derive(Debug)]
pub struct CoolingStats {
    pub fans: Vec<FanStats>,
    /// Liquid cooling only, where the driver exposes it, in millidegrees
    /// Celsius.
    pub coolant_temp_millicelsius: Option<i64>,
}

/// Drivers of graphics cards: their fans are those of the GPU.
pub open spec fn gpu_drivers() -> Seq<Seq<char>> {
    seq!["amdgpu"@, "nouveau"@, "nvidia"@, "i915"@, "xe"@]
}

/// The kind of a fan follows from the driver's label, then from the
/// controller.
pub open spec fn fan_kind(label: Seq<char>, controller: Seq<char>) -> FanKind {
    let l = to_ascii_lower(label);
    if contains(l, "pump"@) || contains(l, "pompe"@) {
        FanKind::AioPump
    } else if contains(l, "rad"@) {
        FanKind::AioRadiator
    } else if gpu_drivers().contains(controller) || contains(l, "gpu"@) {
        FanKind::GpuFan
    } else if contains(l, "cpu"@) {
        FanKind::CpuCooler
    } else if contains(l, "case"@) || contains(l, "sys"@) || contains(l, "chassis"@) {
        FanKind::CaseFan
    } else {
        FanKind::Unknown
    }
}

/// Without a label from the driver, a fan is named after its controller:
/// "amdgpu fan1" says more than "fan1".
pub open spec fn fan_default_label(controller: Seq<char>, index: Seq<char>) -> Seq<char> {
    if controller.len() == 0 {
        "fan"@ + index
    } else {
        controller + " fan"@ + index
    }
}

pub open spec fn opt_u32(v: Option<u64>) -> Option<u32> {
    match v {
        Some(x) => Some(x as u32),
        None => None,
    }
}

/// The fan that the entry `f` of a hwmon directory whose entries are
/// `files` describes, if it is a readable `fanN_input`.
pub open spec fn fan_reading(files: Seq<SysFile>, f: SysFile, controller: Seq<char>) -> Option<
    FanView,
> {
    match sensor_index(f.name@, "fan"@, "_input"@) {
        None => None,
        Some(idx) => match u64_of(content_of(f)) {
            None => None,
            Some(rpm) => {
                let label = match trimmed(lookup(files, "fan"@ + idx + "_label"@)) {
                    Some(l) => if l.len() > 0 {
                        l
                    } else {
                        fan_default_label(controller, idx)
                    },
                    None => fan_default_label(controller, idx),
                };
                Some(
                    FanView {
                        label: label,
                        kind: fan_kind(label, controller),
                        rpm: rpm as u32,
                        rpm_min: opt_u32(u64_of(lookup(files, "fan"@ + idx + "_min"@))),
                        rpm_max: opt_u32(u64_of(lookup(files, "fan"@ + idx + "_max"@))),
                    },
                )
            },
        },
    }
}

/// The fans among the entries `prefix` of a directory whose entries are
/// `files`, in order.
pub open spec fn fan_readings(files: Seq<SysFile>, prefix: Seq<SysFile>, controller: Seq<char>) -> Seq<
    FanView,
>
    decreases prefix.len(),
{
    if prefix.len() == 0 {
        Seq::empty()
    } else {
        let rest = fan_readings(files, prefix.drop_last(), controller);
        match fan_reading(files, prefix.last(), controller) {
            Some(r) => rest.push(r),
            None => rest,
        }
    }
}

pub open spec fn fan_views(v: Seq<FanStats>) -> Seq<FanView> {
    v.map_values(|f: FanStats| f@)
}

pub open spec fn labels_not_empty(v: Seq<FanView>) -> bool {
    forall|i: int| 0 <= i < v.len() ==> (#[trigger] v[i]).label.len() > 0
}

proof fn lemma_fan_readings_labelled(files: Seq<SysFile>, prefix: Seq<SysFile>, controller: Seq<char>)
    ensures
        labels_not_empty(fan_readings(files, prefix, controller)),
    decreases prefix.len(),
{
    reveal_strlit("fan");
    reveal_strlit(" fan");
    if prefix.len() > 0 {
        lemma_fan_readings_labelled(files, prefix.drop_last(), controller);
    }
}

fn contains_str(haystack: &[char], needle: &str) -> (r: bool)
    ensures
        r == contains(haystack@, needle@),
{
    let n = chars_of(needle);
    contains_chars(haystack, n.as_slice())
}

fn equals_str(a: &[char], b: &str) -> (r: bool)
    ensures
        r == (a@ == b@),
{
    let n = chars_of(b);
    chars_eq(a, n.as_slice())
}

/// The kind of a fan, from its label then its controller.
pub fn classify(label: &str, controller: &str) -> (r: FanKind)
    ensures
        r == fan_kind(label@, controller@),
{
    let lc = chars_of(label);
    let l = to_ascii_lower_chars(lc.as_slice());
    let l = l.as_slice();
    if contains_str(l, "pump") || contains_str(l, "pompe") {
        return FanKind::AioPump;
    }
    if contains_str(l, "rad") {
        return FanKind::AioRadiator;
    }
    let c = chars_of(controller);
    let c = c.as_slice();
    let gpu_driver = equals_str(c, "amdgpu") || equals_str(c, "nouveau") || equals_str(c, "nvidia")
        || equals_str(c, "i915") || equals_str(c, "xe");
    proof {
        let d = gpu_drivers();
        if gpu_driver {
            if c@ == "amdgpu"@ {
                assert(d[0] == c@);
            } else if c@ == "nouveau"@ {
                assert(d[1] == c@);
            } else if c@ == "nvidia"@ {
                assert(d[2] == c@);
            } else if c@ == "i915"@ {
                assert(d[3] == c@);
            } else {
                assert(d[4] == c@);
            }
        } else {
            assert forall|k: int| 0 <= k < d.len() implies d[k] != c@ by {}
        }
    }
    if gpu_driver || contains_str(l, "gpu") {
        return FanKind::GpuFan;
    }
    if contains_str(l, "cpu") {
        return FanKind::CpuCooler;
    }
    if contains_str(l, "case") || contains_str(l, "sys") || contains_str(l, "chassis") {
        return FanKind::CaseFan;
    }
    FanKind::Unknown
}

/// Name of a fan without a label of its own, after its controller.
pub fn default_label(controller: &str, index: &str) -> (r: String)
    ensures
        r@ == fan_default_label(controller@, index@),
{
    let c = chars_of(controller);
    let i = chars_of(index);
    let mut v: Vec<char> = Vec::new();
    if c.len() == 0 {
        let f = chars_of("fan");
        append_chars(&mut v, f.as_slice());
    } else {
        let f = chars_of(" fan");
        append_chars(&mut v, c.as_slice());
        append_chars(&mut v, f.as_slice());
    }
    append_chars(&mut v, i.as_slice());
    string_of(v.as_slice())
}

fn content_ref(f: &SysFile) -> (r: Option<&str>)
    ensures
        crate::sysfs::opt_view(r) == content_of(*f),
{
    match &f.content {
        Some(c) => Some(c.as_str()),
        None => None,
    }
}

fn to_u32(v: Option<u64>) -> (r: Option<u32>)
    ensures
        r == opt_u32(v),
{
    match v {
        Some(x) => Some(x as u32),
        None => None,
    }
}

/// The fans of one hwmon controller, in the order of their entries.
pub fn fans_of(hwmon: &SysDir, controller: &str) -> (r: Vec<FanStats>)
    ensures
        fan_views(r@) == fan_readings(hwmon.files@, hwmon.files@, controller@),
        labels_not_empty(fan_views(r@)),
{
    let files = hwmon.files.as_slice();
    let ghost all = files@;
    let fan = chars_of("fan");
    let input = chars_of("_input");
    let label_suffix = chars_of("_label");
    let min_suffix = chars_of("_min");
    let max_suffix = chars_of("_max");
    let mut r: Vec<FanStats> = Vec::new();
    let mut i: usize = 0;
    assert(all.take(0) =~= Seq::<SysFile>::empty());
    while i < files.len()
        invariant
            i <= files.len(),
            all == files@,
            all == hwmon.files@,
            fan@ == "fan"@,
            input@ == "_input"@,
            label_suffix@ == "_label"@,
            min_suffix@ == "_min"@,
            max_suffix@ == "_max"@,
            fan_views(r@) == fan_readings(all, all.take(i as int), controller@),
        decreases files.len() - i,
    {
        assert(all.take(i + 1).drop_last() =~= all.take(i as int));
        assert(all.take(i + 1).last() == all[i as int]);
        let ghost before = fan_views(r@);
        let f = &files[i];
        let name = chars_of(f.name.as_str());
        let idx = sensor_index_of(name.as_slice(), fan.as_slice(), input.as_slice());
        if let Some(idx) = idx {
            let rpm = read_u64(content_ref(f));
            if let Some(rpm) = rpm {
                let mut key = fan.clone();
                append_chars(&mut key, idx.as_slice());
                let mut label_key = key.clone();
                append_chars(&mut label_key, label_suffix.as_slice());
                let mut min_key = key.clone();
                append_chars(&mut min_key, min_suffix.as_slice());
                let mut max_key = key.clone();
                append_chars(&mut max_key, max_suffix.as_slice());
                let own = read_string(find_content(files, label_key.as_slice()));
                let index_text = string_of(idx.as_slice());
                let label = match own {
                    Some(l) => if !l.as_str().is_empty() {
                        l
                    } else {
                        default_label(controller, index_text.as_str())
                    },
                    None => default_label(controller, index_text.as_str()),
                };
                let kind = classify(label.as_str(), controller);
                let rpm_min = to_u32(read_u64(find_content(files, min_key.as_slice())));
                let rpm_max = to_u32(read_u64(find_content(files, max_key.as_slice())));
                let stats = FanStats { label, kind, rpm: rpm as u32, rpm_min, rpm_max };
                proof {
                    assert(label_key@ == "fan"@ + idx@ + "_label"@);
                    assert(min_key@ == "fan"@ + idx@ + "_min"@);
                    assert(max_key@ == "fan"@ + idx@ + "_max"@);
                    assert(fan_reading(all, all[i as int], controller@) == Some(stats@));
                }
                r.push(stats);
                assert(fan_views(r@) =~= before.push(stats@));
            }
        }
        i = i + 1;
    }
    assert(all.take(all.len() as int) =~= all);
    proof {
        lemma_fan_readings_labelled(all, all, controller@);
    }
    r
}

/// A `tempN_label` entry of a hwmon directory naming a coolant sensor.
pub open spec fn coolant_label_file(f: SysFile) -> bool {
    &&& starts_with(f.name@, "temp"@)
    &&& ends_with(f.name@, "_label"@)
    &&& match content_of(f) {
        Some(t) => {
            let l = to_ascii_lower(trim(t));
            contains(l, "liquid"@) || contains(l, "coolant"@) || contains(l, "water"@)
        },
        None => false,
    }
}

pub open spec fn has_coolant(files: Seq<SysFile>) -> bool {
    exists|i: int| 0 <= i < files.len() && coolant_label_file(#[trigger] files[i])
}

/// Name of a hwmon controller, empty when it has none.
pub open spec fn controller_of(d: SysDir) -> Seq<char> {
    match hwmon_name_of(d) {
        Some(n) => n,
        None => Seq::empty(),
    }
}

/// All fans of the controllers `dirs`, controller after controller.
pub open spec fn cooling_fans(dirs: Seq<SysDir>) -> Seq<FanView>
    decreases dirs.len(),
{
    if dirs.len() == 0 {
        Seq::empty()
    } else {
        let d = dirs.last();
        cooling_fans(dirs.drop_last()) + fan_readings(d.files@, d.files@, controller_of(d))
    }
}

/// The coolant temperature: that of the first controller with a coolant
/// sensor label and a readable temperature.
pub open spec fn coolant_temp(dirs: Seq<SysDir>) -> Option<i64>
    decreases dirs.len(),
{
    if dirs.len() == 0 {
        None
    } else {
        match coolant_temp(dirs.drop_last()) {
            Some(v) => Some(v),
            None => {
                let d = dirs.last();
                if has_coolant(d.files@) {
                    hwmon_temp(d.files@, Seq::empty())
                } else {
                    None
                }
            },
        }
    }
}

proof fn lemma_cooling_fans_labelled(dirs: Seq<SysDir>)
    ensures
        labels_not_empty(cooling_fans(dirs)),
    decreases dirs.len(),
{
    if dirs.len() > 0 {
        let d = dirs.last();
        lemma_cooling_fans_labelled(dirs.drop_last());
        lemma_fan_readings_labelled(d.files@, d.files@, controller_of(d));
        let a = cooling_fans(dirs.drop_last());
        let b = fan_readings(d.files@, d.files@, controller_of(d));
        assert forall|i: int| 0 <= i < (a + b).len() implies (#[trigger] (a + b)[i]).label.len()
            > 0 by {
            if i < a.len() {
                assert((a + b)[i] == a[i]);
            } else {
                assert((a + b)[i] == b[i - a.len()]);
            }
        }
    }
}

/// Whether a hwmon controller labels one of its temperatures as the
/// coolant's (liquid, coolant, water).
pub fn has_coolant_label(hwmon: &SysDir) -> (r: bool)
    ensures
        r == has_coolant(hwmon.files@),
{
    let files = hwmon.files.as_slice();
    let temp = chars_of("temp");
    let label = chars_of("_label");
    let mut i: usize = 0;
    while i < files.len()
        invariant
            i <= files.len(),
            files@ == hwmon.files@,
            temp@ == "temp"@,
            label@ == "_label"@,
            forall|k: int| 0 <= k < i ==> !coolant_label_file(#[trigger] files@[k]),
        decreases files.len() - i,
    {
        let f = &files[i];
        let name = chars_of(f.name.as_str());
        if starts_with_chars(name.as_slice(), temp.as_slice()) && ends_with_chars(
            name.as_slice(),
            label.as_slice(),
        ) {
            if let Some(t) = read_string(content_ref(f)) {
                let c = chars_of(t.as_str());
                let l = to_ascii_lower_chars(c.as_slice());
                let l = l.as_slice();
                if contains_str(l, "liquid") || contains_str(l, "coolant") || contains_str(
                    l,
                    "water",
                ) {
                    assert(coolant_label_file(files@[i as int]));
                    return true;
                }
            }
        }
        i = i + 1;
    }
    false
}

/// Fans and coolant temperature of all the hwmon controllers present, in
/// the order of their directories.
pub fn get_cooling_stats(hwmons: &[SysDir]) -> (r: CoolingStats)
    ensures
        fan_views(r.fans@) == cooling_fans(hwmons@),
        r.coolant_temp_millicelsius == coolant_temp(hwmons@),
        labels_not_empty(fan_views(r.fans@)),
{
    let mut fans: Vec<FanStats> = Vec::new();
    let mut coolant: Option<i64> = None;
    let no_labels: [&str; 0] = [];
    let mut i: usize = 0;
    assert(hwmons@.take(0) =~= Seq::<SysDir>::empty());
    while i < hwmons.len()
        invariant
            i <= hwmons.len(),
            no_labels@.len() == 0,
            fan_views(fans@) == cooling_fans(hwmons@.take(i as int)),
            coolant == coolant_temp(hwmons@.take(i as int)),
        decreases hwmons.len() - i,
    {
        assert(hwmons@.take(i + 1).drop_last() =~= hwmons@.take(i as int));
        assert(hwmons@.take(i + 1).last() == hwmons@[i as int]);
        let hwmon = &hwmons[i];
        let controller = match hwmon_name(hwmon) {
            Some(n) => n,
            None => String::new(),
        };
        let found = fans_of(hwmon, controller.as_str());
        let ghost before = fan_views(fans@);
        let mut k: usize = 0;
        while k < found.len()
            invariant
                k <= found.len(),
                fan_views(fans@) == before + fan_views(found@.take(k as int)),
            decreases found.len() - k,
        {
            let ghost prev = fans@;
            fans.push(found[k].clone_fan());
            assert(fan_views(fans@) =~= fan_views(prev).push(found@[k as int]@));
            assert(fan_views(found@.take(k + 1)) =~= fan_views(found@.take(k as int)).push(
                found@[k as int]@,
            ));
            assert(fan_views(fans@) =~= before + fan_views(found@.take(k + 1)));
            k = k + 1;
        }
        assert(found@.take(found.len() as int) =~= found@);
        if coolant.is_none() {
            let t = hwmon_temp_by_label(hwmon, &no_labels);
            assert(crate::sysfs::str_views(no_labels@) =~= Seq::<Seq<char>>::empty());
            coolant = if t.is_some() && has_coolant_label(hwmon) {
                t
            } else {
                None
            };
        }
        i = i + 1;
    }
    assert(hwmons@.take(hwmons.len() as int) =~= hwmons@);
    proof {
        lemma_cooling_fans_labelled(hwmons@);
    }
    CoolingStats { fans, coolant_temp_millicelsius: coolant }
}

impl FanStats {
    /// A copy of this fan's readings.
    pub fn clone_fan(&self) -> (r: FanStats)
        ensures
            r@ == self@,
    {
        FanStats {
            label: self.label.clone(),
            kind: self.kind,
            rpm: self.rpm,
            rpm_min: self.rpm_min,
            rpm_max: self.rpm_max,
        }
    }
}

/// A fan of a graphics driver (amdgpu, nouveau, nvidia, i915, xe) is a
/// GPU fan unless its label names a pump or a radiator; a label naming a
/// pump always wins, whatever the controller.
pub proof fn lemma_gpu_driver_fans(label: Seq<char>, controller: Seq<char>)
    ensures
        (controller == "amdgpu"@ || controller == "nouveau"@ || controller == "nvidia"@
            || controller == "i915"@ || controller == "xe"@) && !contains(
            to_ascii_lower(label),
            "pump"@,
        ) && !contains(to_ascii_lower(label), "pompe"@) && !contains(to_ascii_lower(label), "rad"@)
            ==> fan_kind(label, controller) == FanKind::GpuFan,
        contains(to_ascii_lower(label), "pump"@) ==> fan_kind(label, controller) == FanKind::AioPump,
{
    let d = gpu_drivers();
    if controller == "amdgpu"@ {
        assert(d[0] == controller);
    } else if controller == "nouveau"@ {
        assert(d[1] == controller);
    } else if controller == "nvidia"@ {
        assert(d[2] == controller);
    } else if controller == "i915"@ {
        assert(d[3] == controller);
    } else if controller == "xe"@ {
        assert(d[4] == controller);
    }
}

} // verus!
