//! Processor: identity and frequency from `sysinfo`, maximum frequency from
//! cpufreq, temperature from the hwmon controllers.
use vstd::prelude::*;

use crate::sysfs::{
    hwmon_name, hwmon_name_of, hwmon_temp, hwmon_temp_by_label, opt_view, read_u64, str_views,
    u64_of, SysDir,
};
use crate::text::{chars_eq, chars_of, string_of, trim, trim_chars};

verus! {

#[verifier::external_type_specification]
#[verifier::external_body]
pub struct ExSystem(sysinfo::System);

#[verifier::external_type_specification]
#[verifier::external_body]
pub struct ExCpu(sysinfo::Cpu);

/// `System::cpus`: the processors of the last refresh. What they are depends
/// on the machine; nothing is stated of them.
pub assume_specification[ sysinfo::System::cpus ](sys: &sysinfo::System) -> &[sysinfo::Cpu];

/// `Cpu::brand`: the brand string of a processor, as the machine gave it.
pub assume_specification[ sysinfo::Cpu::brand ](cpu: &sysinfo::Cpu) -> &str;

/// `Cpu::frequency`: the frequency of a processor at the last refresh, in
/// MHz.
pub assume_specification[ sysinfo::Cpu::frequency ](cpu: &sysinfo::Cpu) -> u64;

/// The integer side of the processor statistics.
pub struct CpuSummary {
    pub model: String,
    pub physical_cores: u32,
    pub logical_cores: u32,
    pub frequency_mhz: u64,
}

/// The name shown for a processor whose brand is unknown.
pub open spec fn unknown_model() -> Seq<char> {
    "Processeur inconnu"@
}

/// The model: the first processor's brand, trimmed, unless it is empty.
pub open spec fn model_from(first_brand: Option<Seq<char>>) -> Seq<char> {
    match first_brand {
        Some(b) => if trim(b).len() > 0 {
            trim(b)
        } else {
            unknown_model()
        },
        None => unknown_model(),
    }
}

pub open spec fn sum(s: Seq<u64>) -> nat
    decreases s.len(),
{
    if s.len() == 0 {
        0
    } else {
        sum(s.drop_last()) + s.last() as nat
    }
}

/// The mean frequency of the processors, 0 when there is none.
pub open spec fn mean_frequency(freqs: Seq<u64>) -> nat {
    if freqs.len() == 0 {
        0
    } else {
        sum(freqs) / freqs.len()
    }
}

pub open spec fn summary_of(
    first_brand: Option<Seq<char>>,
    freqs: Seq<u64>,
    physical: Option<usize>,
) -> (Seq<char>, u32, u32, nat) {
    (
        model_from(first_brand),
        (match physical {
            Some(p) => p,
            None => freqs.len() as usize,
        }) as u32,
        freqs.len() as u32,
        mean_frequency(freqs),
    )
}

pub open spec fn summary_view(s: CpuSummary) -> (Seq<char>, u32, u32, nat) {
    (s.model@, s.physical_cores, s.logical_cores, s.frequency_mhz as nat)
}

/// The identity and frequency of the processors, from the brand of the first
/// one, the frequency of each (MHz) and the physical core count when the
/// system gives it. The mean is taken over a 128-bit total, which no list
/// of 64-bit frequencies can overflow.
pub fn summarize_cpus(first_brand: Option<&str>, freqs: &[u64], physical: Option<usize>) -> (r:
    CpuSummary)
    ensures
        summary_view(r) == summary_of(opt_view(first_brand), freqs@, physical),
{
    let model = match first_brand {
        Some(b) => {
            let c = chars_of(b);
            let t = trim_chars(c.as_slice());
            if t.len() > 0 {
                string_of(t.as_slice())
            } else {
                string_of(chars_of("Processeur inconnu").as_slice())
            }
        },
        None => string_of(chars_of("Processeur inconnu").as_slice()),
    };
    let mut total: u128 = 0;
    let mut i: usize = 0;
    assert(freqs@.take(0) =~= Seq::<u64>::empty());
    while i < freqs.len()
        invariant
            i <= freqs.len(),
            freqs.len() <= usize::MAX,
            total == sum(freqs@.take(i as int)),
            sum(freqs@.take(i as int)) <= i * (u64::MAX as nat),
        decreases freqs.len() - i,
    {
        assert(freqs@.take(i + 1).drop_last() =~= freqs@.take(i as int));
        assert(freqs@.take(i + 1).last() == freqs@[i as int]);
        assert((i + 1) * (u64::MAX as nat) == i * (u64::MAX as nat) + u64::MAX) by (nonlinear_arith);
        assert(i * (u64::MAX as nat) + u64::MAX <= (usize::MAX as nat) * (u64::MAX as nat))
            by (nonlinear_arith)
            requires
                i < usize::MAX,
        ;
        assert((usize::MAX as nat) * (u64::MAX as nat) < 0x1_0000_0000_0000_0000_0000_0000_0000_0000)
            by (nonlinear_arith)
            requires
                usize::MAX <= u64::MAX,
        ;
        total = total + freqs[i] as u128;
        i = i + 1;
    }
    assert(freqs@.take(freqs.len() as int) =~= freqs@);
    let frequency_mhz: u64 = if freqs.len() == 0 {
        0
    } else {
        let n = freqs.len() as u128;
        assert(total / n <= u64::MAX) by (nonlinear_arith)
            requires
                n >= 1,
                total <= n * (u64::MAX as nat),
        ;
        (total / n) as u64
    };
    let physical_cores = match physical {
        Some(p) => p as u32,
        None => freqs.len() as u32,
    };
    CpuSummary { model, physical_cores, logical_cores: freqs.len() as u32, frequency_mhz }
}

/// The identity and mean frequency of the processors of `sys`, with the
/// physical core count that the system gave (`None` when it could not).
/// There is always a summary: whatever `sysinfo` reports, it is that of
/// some brand and some list of frequencies, one per logical processor,
/// and the physical core count is the one given when there is one.
pub fn cpu_summary(sys: &sysinfo::System, physical: Option<usize>) -> (r: CpuSummary)
    ensures
        exists|b: Option<Seq<char>>, f: Seq<u64>| summary_view(r) == summary_of(b, f, physical),
{
    let cpus = sys.cpus();
    let first_brand = if cpus.len() > 0 {
        Some(cpus[0].brand())
    } else {
        None
    };
    let mut freqs: Vec<u64> = Vec::new();
    let mut i: usize = 0;
    while i < cpus.len()
        invariant
            i <= cpus.len(),
            freqs@.len() == i,
        decreases cpus.len() - i,
    {
        freqs.push(cpus[i].frequency());
        i = i + 1;
    }
    summarize_cpus(first_brand, freqs.as_slice(), physical)
}

/// hwmon controllers that expose the processor temperature, by order of
/// preference: AMD (k10temp, zenpower), Intel (coretemp), then the generic
/// sensors as a last resort. The controller present is found at run time.
pub open spec fn cpu_hwmon_names() -> Seq<Seq<char>> {
    seq!["k10temp"@, "zenpower"@, "coretemp"@, "cpu_thermal"@, "acpitz"@]
}

/// Preferred sensor labels inside the chosen controller.
pub open spec fn cpu_temp_labels() -> Seq<Seq<char>> {
    seq!["Tctl"@, "Tdie"@, "Package id 0"@, "CPU"@]
}

/// The temperature of the first controller named `wanted`, among `dirs`,
/// that has one.
pub open spec fn temp_named(dirs: Seq<SysDir>, wanted: Seq<char>) -> Option<i64>
    decreases dirs.len(),
{
    if dirs.len() == 0 {
        None
    } else if hwmon_name_of(dirs[0]) == Some(wanted) && hwmon_temp(
        dirs[0].files@,
        cpu_temp_labels(),
    ) is Some {
        hwmon_temp(dirs[0].files@, cpu_temp_labels())
    } else {
        temp_named(dirs.drop_first(), wanted)
    }
}

/// The processor temperature: that of the first known controller, in the
/// order of preference, that has one.
pub open spec fn cpu_temp(dirs: Seq<SysDir>, names: Seq<Seq<char>>) -> Option<i64>
    decreases names.len(),
{
    if names.len() == 0 {
        None
    } else {
        match temp_named(dirs, names[0]) {
            Some(v) => Some(v),
            None => cpu_temp(dirs, names.drop_first()),
        }
    }
}

fn temp_named_exec(dirs: &[SysDir], wanted: &str, labels: &[&str]) -> (r: Option<i64>)
    requires
        str_views(labels@) == cpu_temp_labels(),
    ensures
        r == temp_named(dirs@, wanted@),
{
    let w = chars_of(wanted);
    let mut i: usize = 0;
    assert(dirs@.skip(0) =~= dirs@);
    while i < dirs.len()
        invariant
            i <= dirs.len(),
            w@ == wanted@,
            str_views(labels@) == cpu_temp_labels(),
            temp_named(dirs@, wanted@) == temp_named(dirs@.skip(i as int), wanted@),
        decreases dirs.len() - i,
    {
        assert(dirs@.skip(i as int).drop_first() =~= dirs@.skip(i + 1));
        assert(dirs@.skip(i as int)[0] == dirs@[i as int]);
        let named = match hwmon_name(&dirs[i]) {
            Some(n) => {
                let c = chars_of(n.as_str());
                chars_eq(c.as_slice(), w.as_slice())
            },
            None => false,
        };
        if named {
            let t = hwmon_temp_by_label(&dirs[i], labels);
            if t.is_some() {
                return t;
            }
        }
        i = i + 1;
    }
    assert(dirs@.skip(i as int) =~= Seq::<SysDir>::empty());
    None
}

/// The processor temperature in millidegrees Celsius: the first known
/// controller actually present on the machine, in the order of preference.
/// Nothing is assumed of the vendor.
pub fn temperature(hwmons: &[SysDir]) -> (r: Option<i64>)
    ensures
        r == cpu_temp(hwmons@, cpu_hwmon_names()),
{
    let names = ["k10temp", "zenpower", "coretemp", "cpu_thermal", "acpitz"];
    let labels = ["Tctl", "Tdie", "Package id 0", "CPU"];
    assert(str_views(labels@) =~= cpu_temp_labels());
    assert(str_views(names@) =~= cpu_hwmon_names());
    let mut i: usize = 0;
    assert(cpu_hwmon_names().skip(0) =~= cpu_hwmon_names());
    while i < names.len()
        invariant
            i <= names.len(),
            names@.len() == 5,
            str_views(labels@) == cpu_temp_labels(),
            str_views(names@) == cpu_hwmon_names(),
            cpu_temp(hwmons@, cpu_hwmon_names()) == cpu_temp(
                hwmons@,
                cpu_hwmon_names().skip(i as int),
            ),
        decreases names.len() - i,
    {
        assert(cpu_hwmon_names().skip(i as int).drop_first() =~= cpu_hwmon_names().skip(i + 1));
        assert(cpu_hwmon_names().skip(i as int)[0] == names@[i as int]@);
        let t = temp_named_exec(hwmons, names[i], &labels);
        if t.is_some() {
            return t;
        }
        i = i + 1;
    }
    assert(cpu_hwmon_names().skip(5) =~= Seq::<Seq<char>>::empty());
    None
}

/// The largest frequency among those read, as `Option`.
pub open spec fn max_khz(rs: Seq<Option<Seq<char>>>) -> Option<u64>
    decreases rs.len(),
{
    if rs.len() == 0 {
        None
    } else {
        match (max_khz(rs.drop_last()), u64_of(rs.last())) {
            (Some(a), Some(b)) => Some(if a >= b { a } else { b }),
            (Some(a), None) => Some(a),
            (None, b) => b,
        }
    }
}

/// Maximum frequency announced by cpufreq, from the `cpuinfo_max_freq`
/// files (in kHz) of the entries of /sys/devices/system/cpu; 0 when
/// cpufreq is absent (virtual machine, kernel without driver).
pub fn max_frequency_mhz(max_freq_files: &[Option<String>]) -> (r: u64)
    ensures
        r == match max_khz(max_freq_files@.map_values(|o: Option<String>| crate::sysfs::opt_string_view(o))) {
            Some(k) => k / 1000,
            None => 0,
        },
{
    let ghost rs = max_freq_files@.map_values(|o: Option<String>| crate::sysfs::opt_string_view(o));
    let mut best: Option<u64> = None;
    let mut i: usize = 0;
    assert(rs.take(0) =~= Seq::<Option<Seq<char>>>::empty());
    while i < max_freq_files.len()
        invariant
            i <= max_freq_files.len(),
            rs == max_freq_files@.map_values(|o: Option<String>| crate::sysfs::opt_string_view(o)),
            best == max_khz(rs.take(i as int)),
        decreases max_freq_files.len() - i,
    {
        assert(rs.take(i + 1).drop_last() =~= rs.take(i as int));
        assert(rs.take(i + 1).last() == crate::sysfs::opt_string_view(max_freq_files@[i as int]));
        let raw = match &max_freq_files[i] {
            Some(t) => Some(t.as_str()),
            None => None,
        };
        let v = read_u64(raw);
        best = match (best, v) {
            (Some(a), Some(b)) => Some(if a >= b { a } else { b }),
            (Some(a), None) => Some(a),
            (None, b) => b,
        };
        i = i + 1;
    }
    assert(rs.take(rs.len() as int) =~= rs);
    match best {
        Some(k) => k / 1000,
        None => 0,
    }
}

/// The processor temperature is that of the first controller, in the order
/// k10temp, zenpower (AMD), coretemp (Intel), cpu_thermal, acpitz, that has
/// one: an Intel machine without an AMD controller reads coretemp.
pub proof fn lemma_cpu_temp_order(dirs: Seq<SysDir>)
    ensures
        cpu_temp(dirs, cpu_hwmon_names()) == match temp_named(dirs, "k10temp"@) {
            Some(t) => Some(t),
            None => match temp_named(dirs, "zenpower"@) {
                Some(t) => Some(t),
                None => match temp_named(dirs, "coretemp"@) {
                    Some(t) => Some(t),
                    None => match temp_named(dirs, "cpu_thermal"@) {
                        Some(t) => Some(t),
                        None => temp_named(dirs, "acpitz"@),
                    },
                },
            },
        },
{
    let n = cpu_hwmon_names();
    assert(n.drop_first() =~= seq!["zenpower"@, "coretemp"@, "cpu_thermal"@, "acpitz"@]);
    assert(n.drop_first().drop_first() =~= seq!["coretemp"@, "cpu_thermal"@, "acpitz"@]);
    assert(n.drop_first().drop_first().drop_first() =~= seq!["cpu_thermal"@, "acpitz"@]);
    assert(n.drop_first().drop_first().drop_first().drop_first() =~= seq!["acpitz"@]);
    assert(seq!["acpitz"@].drop_first() =~= Seq::<Seq<char>>::empty());
    reveal_with_fuel(cpu_temp, 6);
}

} // verus!
