//! Texts that the widgets show: labels of kinds and states, durations,
//! identity lines.
use vstd::prelude::*;

use crate::battery::BatteryState;
use crate::disk::{DiskKind, SmartHealth};
use crate::gpu::GpuVendor;
use crate::sysfs::opt_string_view;
use crate::text::{append_chars, chars_of, string_of, trim, trim_chars};

verus! {

/// Text shown when a value is not available on this machine.
pub open spec fn absent() -> Seq<char> {
    "—"@
}

fn owned(s: &str) -> (r: String)
    ensures
        r@ == s@,
{
    let c = chars_of(s);
    string_of(c.as_slice())
}

pub open spec fn vendor_label(v: GpuVendor) -> Seq<char> {
    match v {
        GpuVendor::Nvidia => "NVIDIA"@,
        GpuVendor::AmdDiscrete => "AMD"@,
        GpuVendor::AmdIgpu => "AMD intégré"@,
        GpuVendor::IntelArc => "Intel Arc"@,
        GpuVendor::IntelIgpu => "Intel intégré"@,
        GpuVendor::Unknown => "GPU"@,
    }
}

pub fn etiquette_vendeur(v: GpuVendor) -> (r: String)
    ensures
        r@ == vendor_label(v),
{
    match v {
        GpuVendor::Nvidia => owned("NVIDIA"),
        GpuVendor::AmdDiscrete => owned("AMD"),
        GpuVendor::AmdIgpu => owned("AMD intégré"),
        GpuVendor::IntelArc => owned("Intel Arc"),
        GpuVendor::IntelIgpu => owned("Intel intégré"),
        GpuVendor::Unknown => owned("GPU"),
    }
}

pub open spec fn disk_kind_label(k: DiskKind) -> Seq<char> {
    match k {
        DiskKind::Nvme => "NVMe"@,
        DiskKind::Ssd => "SSD"@,
        DiskKind::Hdd => "disque dur"@,
        DiskKind::Unknown => "type inconnu"@,
    }
}

pub fn etiquette_type(k: DiskKind) -> (r: String)
    ensures
        r@ == disk_kind_label(k),
{
    match k {
        DiskKind::Nvme => owned("NVMe"),
        DiskKind::Ssd => owned("SSD"),
        DiskKind::Hdd => owned("disque dur"),
        DiskKind::Unknown => owned("type inconnu"),
    }
}

/// SMART labels. `smartctl` usually needs root rights: "unavailable" is
/// not a failure of the disk.
pub open spec fn smart_label(h: SmartHealth) -> Seq<char> {
    match h {
        SmartHealth::Good => "SMART bon"@,
        SmartHealth::Warning => "SMART à surveiller"@,
        SmartHealth::Critical => "SMART critique"@,
        SmartHealth::Unavailable => "SMART indisponible"@,
    }
}

pub fn etiquette_sante(h: SmartHealth) -> (r: String)
    ensures
        r@ == smart_label(h),
{
    match h {
        SmartHealth::Good => owned("SMART bon"),
        SmartHealth::Warning => owned("SMART à surveiller"),
        SmartHealth::Critical => owned("SMART critique"),
        SmartHealth::Unavailable => owned("SMART indisponible"),
    }
}

pub open spec fn battery_state_label(s: BatteryState) -> Seq<char> {
    match s {
        BatteryState::Charging => "en charge"@,
        BatteryState::Discharging => "sur batterie"@,
        BatteryState::Full => "chargée"@,
        BatteryState::Unknown => absent(),
    }
}

pub fn etiquette_etat(s: BatteryState) -> (r: String)
    ensures
        r@ == battery_state_label(s),
{
    match s {
        BatteryState::Charging => owned("en charge"),
        BatteryState::Discharging => owned("sur batterie"),
        BatteryState::Full => owned("chargée"),
        BatteryState::Unknown => owned("—"),
    }
}

pub open spec fn digit_char(d: nat) -> char {
    ((d + 48) as u32) as char
}

/// The decimal writing of `n`, without leading zeros.
pub open spec fn decimal(n: nat) -> Seq<char>
    decreases n,
{
    if n < 10 {
        seq![digit_char(n)]
    } else {
        decimal(n / 10).push(digit_char(n % 10))
    }
}

fn digit(d: u32) -> (c: char)
    requires
        d < 10,
    ensures
        c == digit_char(d as nat),
{
    let b: u8 = (d as u8) + 48;
    b as char
}

/// The decimal digits of `n`.
pub(crate) fn decimal_chars(n: u64) -> (r: Vec<char>)
    ensures
        r@ == decimal(n as nat),
{
    let mut m: u64 = n;
    // The digits of n already written, the lowest last.
    let mut digits: Vec<char> = Vec::new();
    loop
        invariant
            decimal(n as nat) == decimal(m as nat) + digits@,
        decreases m,
    {
        if m < 10 {
            let mut out: Vec<char> = Vec::new();
            out.push(digit(m as u32));
            append_chars(&mut out, digits.as_slice());
            assert(out@ =~= decimal(m as nat) + digits@);
            return out;
        }
        let d = (m % 10) as u32;
        let c = digit(d);
        let mut next: Vec<char> = Vec::new();
        next.push(c);
        append_chars(&mut next, digits.as_slice());
        assert(decimal(m as nat) == decimal((m / 10) as nat).push(digit_char((m % 10) as nat)));
        assert(decimal((m / 10) as nat).push(c) + digits@ =~= decimal((m / 10) as nat) + next@);
        digits = next;
        m = m / 10;
    }
}

/// `n.to_string()` for a count.
pub fn decimal_string(n: u32) -> (r: String)
    ensures
        r@ == decimal(n as nat),
{
    let v = decimal_chars(n as u64);
    string_of(v.as_slice())
}

/// A duration in minutes as the battery widget writes it: "2 h 05" from
/// an hour on, "45 min" below.
pub open spec fn duration_text(minutes: u32) -> Seq<char> {
    if minutes >= 60 {
        let mm = (minutes % 60) as nat;
        decimal((minutes / 60) as nat) + " h "@ + (if mm < 10 {
            seq!['0'] + decimal(mm)
        } else {
            decimal(mm)
        })
    } else {
        decimal(minutes as nat) + " min"@
    }
}

pub fn duree(minutes: u32) -> (r: String)
    ensures
        r@ == duration_text(minutes),
{
    if minutes >= 60 {
        let h = decimal_string(minutes / 60);
        let mm = minutes % 60;
        let m = decimal_string(mm);
        let mut v = chars_of(h.as_str());
        let sep = chars_of(" h ");
        append_chars(&mut v, sep.as_slice());
        if mm < 10 {
            v.push('0');
        }
        let md = chars_of(m.as_str());
        append_chars(&mut v, md.as_slice());
        proof {
            if mm < 10 {
                assert(v@ =~= decimal((minutes / 60) as nat) + " h "@ + (seq!['0'] + decimal(
                    mm as nat,
                )));
            } else {
                assert(v@ =~= decimal((minutes / 60) as nat) + " h "@ + decimal(mm as nat));
            }
        }
        string_of(v.as_slice())
    } else {
        let m = decimal_string(minutes);
        let mut v = chars_of(m.as_str());
        let unit = chars_of(" min");
        append_chars(&mut v, unit.as_slice());
        string_of(v.as_slice())
    }
}

/// Remaining time: until empty when discharging, else until full, else
/// nothing known.
pub open spec fn autonomy_text(to_empty: Option<u32>, to_full: Option<u32>) -> Seq<char> {
    match to_empty {
        Some(m) => duration_text(m) + " restantes"@,
        None => match to_full {
            Some(m) => duration_text(m) + " avant charge complète"@,
            None => absent(),
        },
    }
}

pub fn autonomie(to_empty: Option<u32>, to_full: Option<u32>) -> (r: String)
    ensures
        r@ == autonomy_text(to_empty, to_full),
{
    match to_empty {
        Some(m) => {
            let mut v = chars_of(duree(m).as_str());
            let s = chars_of(" restantes");
            append_chars(&mut v, s.as_slice());
            string_of(v.as_slice())
        },
        None => match to_full {
            Some(m) => {
                let mut v = chars_of(duree(m).as_str());
                let s = chars_of(" avant charge complète");
                append_chars(&mut v, s.as_slice());
                string_of(v.as_slice())
            },
            None => owned("—"),
        },
    }
}

/// The parts that say something, joined by " · ".
pub open spec fn joined(parts: Seq<Seq<char>>) -> Seq<char>
    decreases parts.len(),
{
    if parts.len() == 0 {
        Seq::empty()
    } else if parts.len() == 1 {
        parts[0]
    } else {
        joined(parts.drop_last()) + " · "@ + parts.last()
    }
}

pub open spec fn present_parts(parts: Seq<Option<Seq<char>>>) -> Seq<Seq<char>>
    decreases parts.len(),
{
    if parts.len() == 0 {
        Seq::empty()
    } else {
        let rest = present_parts(parts.drop_last());
        match parts.last() {
            Some(t) => if t.len() > 0 {
                rest.push(t)
            } else {
                rest
            },
            None => rest,
        }
    }
}

/// The identity line of a battery: vendor, model and technology that are
/// known, joined; the absence mark when none is.
pub open spec fn identity_text(vendor: Option<Seq<char>>, model: Option<Seq<char>>, technology: Option<Seq<char>>) -> Seq<char> {
    let parts = present_parts(seq![vendor, model, technology]);
    if parts.len() == 0 {
        absent()
    } else {
        joined(parts)
    }
}

pub fn identite(vendor: &Option<String>, model: &Option<String>, technology: &Option<String>) -> (r: String)
    ensures
        r@ == identity_text(opt_string_view(*vendor), opt_string_view(*model), opt_string_view(*technology)),
{
    let parts = [vendor, model, technology];
    let ghost all = seq![opt_string_view(*vendor), opt_string_view(*model), opt_string_view(*technology)];
    let mut out: Vec<char> = Vec::new();
    let mut count: usize = 0;
    let mut i: usize = 0;
    let sep = chars_of(" · ");
    assert(all.take(0) =~= Seq::<Option<Seq<char>>>::empty());
    while i < 3
        invariant
            i <= 3,
            parts@.len() == 3,
            sep@ == " · "@,
            all == seq![opt_string_view(*vendor), opt_string_view(*model), opt_string_view(*technology)],
            forall|j: int| 0 <= j < 3 ==> opt_string_view(*#[trigger] parts@[j]) == all[j],
            count <= i,
            count == present_parts(all.take(i as int)).len(),
            out@ == joined(present_parts(all.take(i as int))),
        decreases 3 - i,
    {
        assert(all.take(i + 1).drop_last() =~= all.take(i as int));
        assert(all.take(i + 1).last() == all[i as int]);
        let ghost before = present_parts(all.take(i as int));
        assert(opt_string_view(*parts@[i as int]) == all[i as int]);
        if let Some(t) = parts[i] {
            if !t.as_str().is_empty() {
                if count > 0 {
                    append_chars(&mut out, sep.as_slice());
                }
                let c = chars_of(t.as_str());
                append_chars(&mut out, c.as_slice());
                proof {
                    let now = before.push(t@);
                    assert(present_parts(all.take(i + 1)) == now);
                    assert(now.drop_last() =~= before);
                    if count == 0 {
                        assert(out@ =~= t@);
                    }
                }
                count = count + 1;
            }
        }
        i = i + 1;
    }
    assert(all.take(3) =~= all);
    if count == 0 {
        owned("—")
    } else {
        string_of(out.as_slice())
    }
}

} // verus!

verus! {

/// `num / den` rounded to the nearest integer, a tie going to the even
/// neighbour: the rounding of `format!` when it writes a value with fewer
/// digits than it has.
pub open spec fn round_half_even(num: nat, den: nat) -> nat {
    let q = num / den;
    let r = num % den;
    if 2 * r > den || (2 * r == den && q % 2 == 1) {
        q + 1
    } else {
        q
    }
}

/// A number of tenths written with one decimal: "5.0", "12.3".
pub open spec fn tenths_text(tenths: nat) -> Seq<char> {
    decimal(tenths / 10) + seq!['.', digit_char(tenths % 10)]
}

/// One mebibyte, one gibibyte.
pub open spec fn mib() -> nat {
    1048576
}

pub open spec fn gib() -> nat {
    1073741824
}

/// A rate in bytes per second as the widgets write it: the unit switches
/// at each threshold, as system monitors do ("512 o/s", "2 ko/s",
/// "5.0 Mo/s").
pub open spec fn rate_text(bytes_per_sec: u64) -> Seq<char> {
    if bytes_per_sec >= mib() {
        tenths_text(round_half_even(10 * (bytes_per_sec as nat), mib())) + " Mo/s"@
    } else if bytes_per_sec >= 1024 {
        decimal(round_half_even(bytes_per_sec as nat, 1024)) + " ko/s"@
    } else {
        decimal(bytes_per_sec as nat) + " o/s"@
    }
}

/// A volume (not a rate): gibibytes from one on, mebibytes below.
pub open spec fn volume_text(bytes: u64) -> Seq<char> {
    if bytes >= gib() {
        tenths_text(round_half_even(10 * (bytes as nat), gib())) + " Go"@
    } else {
        decimal(round_half_even(bytes as nat, mib())) + " Mo"@
    }
}

/// A size in mebibytes, as gibibytes with one decimal from 1024 on.
pub open spec fn mebibytes_text(mb: u64) -> Seq<char> {
    if mb >= 1024 {
        tenths_text(round_half_even(10 * (mb as nat), 1024)) + " Go"@
    } else {
        decimal(mb as nat) + " Mo"@
    }
}

fn rounded(num: u128, den: u128) -> (r: u128)
    requires
        0 < den <= u64::MAX,
        num <= 10 * (u64::MAX as int),
    ensures
        r == round_half_even(num as nat, den as nat),
        r <= num / den + 1,
{
    let q = num / den;
    let r = num % den;
    if 2 * r > den || (2 * r == den && q % 2 == 1) {
        q + 1
    } else {
        q
    }
}

fn tenths_chars(tenths: u128) -> (r: Vec<char>)
    requires
        tenths / 10 <= u64::MAX,
    ensures
        r@ == tenths_text(tenths as nat),
{
    let mut v = decimal_chars((tenths / 10) as u64);
    v.push('.');
    v.push(digit((tenths % 10) as u32));
    proof {
        assert(v@ =~= tenths_text(tenths as nat));
    }
    v
}

fn push_str(v: &mut Vec<char>, s: &str)
    ensures
        final(v)@ == old(v)@ + s@,
{
    let c = chars_of(s);
    append_chars(v, c.as_slice());
}

fn rate_chars(n: u64) -> (r: Vec<char>)
    ensures
        r@ == rate_text(n),
{
    let mut v = if n >= 1048576 {
        tenths_chars(rounded((n as u128) * 10, 1048576))
    } else if n >= 1024 {
        decimal_chars(rounded(n as u128, 1024) as u64)
    } else {
        decimal_chars(n)
    };
    if n >= 1048576 {
        push_str(&mut v, " Mo/s");
    } else if n >= 1024 {
        push_str(&mut v, " ko/s");
    } else {
        push_str(&mut v, " o/s");
    }
    v
}

fn mebibytes_chars(mb: u64) -> (r: Vec<char>)
    ensures
        r@ == mebibytes_text(mb),
{
    if mb >= 1024 {
        let mut v = tenths_chars(rounded((mb as u128) * 10, 1024));
        push_str(&mut v, " Go");
        v
    } else {
        let mut v = decimal_chars(mb);
        push_str(&mut v, " Mo");
        v
    }
}

/// A readable rate.
pub fn format_debit(octets_par_sec: u64) -> (r: String)
    ensures
        r@ == rate_text(octets_par_sec),
{
    string_of(rate_chars(octets_par_sec).as_slice())
}

/// A total volume (not a rate): gigabytes from one on, megabytes below.
pub fn format_octets(octets: u64) -> (r: String)
    ensures
        r@ == volume_text(octets),
{
    let mut v = if octets >= 1073741824 {
        tenths_chars(rounded((octets as u128) * 10, 1073741824))
    } else {
        decimal_chars(rounded(octets as u128, 1048576) as u64)
    };
    if octets >= 1073741824 {
        push_str(&mut v, " Go");
    } else {
        push_str(&mut v, " Mo");
    }
    string_of(v.as_slice())
}

/// Megabytes made readable.
pub fn format_mo(mega_octets: u64) -> (r: String)
    ensures
        r@ == mebibytes_text(mega_octets),
{
    string_of(mebibytes_chars(mega_octets).as_slice())
}

/// The current frequency, followed by the maximum when cpufreq gives one.
pub open spec fn frequency_text(mhz: u64, max_mhz: u64) -> Seq<char> {
    decimal(mhz as nat) + " MHz"@ + if max_mhz > 0 {
        " / "@ + decimal(max_mhz as nat) + " MHz"@
    } else {
        Seq::empty()
    }
}

pub fn texte_frequence(mhz: u64, max_mhz: u64) -> (r: String)
    ensures
        r@ == frequency_text(mhz, max_mhz),
{
    let mut v = decimal_chars(mhz);
    push_str(&mut v, " MHz");
    if max_mhz > 0 {
        push_str(&mut v, " / ");
        let m = decimal_chars(max_mhz);
        append_chars(&mut v, m.as_slice());
        push_str(&mut v, " MHz");
    }
    proof {
        if max_mhz == 0 {
            assert(v@ =~= frequency_text(mhz, max_mhz));
        }
    }
    string_of(v.as_slice())
}

/// The processor's subtitle: model, physical cores and threads.
pub open spec fn cpu_model_text(model: Seq<char>, physical: u32, logical: u32) -> Seq<char> {
    model + " — "@ + decimal(physical as nat) + " cœurs / "@ + decimal(logical as nat)
        + " threads"@
}

pub fn texte_modele_cpu(model: &str, physical: u32, logical: u32) -> (r: String)
    ensures
        r@ == cpu_model_text(model@, physical, logical),
{
    let mut v = chars_of(model);
    push_str(&mut v, " — ");
    let p = decimal_chars(physical as u64);
    append_chars(&mut v, p.as_slice());
    push_str(&mut v, " cœurs / ");
    let l = decimal_chars(logical as u64);
    append_chars(&mut v, l.as_slice());
    push_str(&mut v, " threads");
    string_of(v.as_slice())
}

/// The swap line: "aucun" on a machine without swap rather than 0 / 0.
pub open spec fn swap_text(used_mb: u64, total_mb: u64) -> Seq<char> {
    if total_mb == 0 {
        "aucun"@
    } else {
        mebibytes_text(used_mb) + " / "@ + mebibytes_text(total_mb)
    }
}

pub fn texte_swap(used_mb: u64, total_mb: u64) -> (r: String)
    ensures
        r@ == swap_text(used_mb, total_mb),
{
    if total_mb == 0 {
        owned("aucun")
    } else {
        let mut v = mebibytes_chars(used_mb);
        push_str(&mut v, " / ");
        let t = mebibytes_chars(total_mb);
        append_chars(&mut v, t.as_slice());
        string_of(v.as_slice())
    }
}

/// Received and sent rates on one line.
pub open spec fn rates_text(down: u64, up: u64) -> Seq<char> {
    "↓ "@ + rate_text(down) + "   ↑ "@ + rate_text(up)
}

pub fn texte_debits(down: u64, up: u64) -> (r: String)
    ensures
        r@ == rates_text(down, up),
{
    let mut v = chars_of("↓ ");
    let d = rate_chars(down);
    append_chars(&mut v, d.as_slice());
    push_str(&mut v, "   ↑ ");
    let u = rate_chars(up);
    append_chars(&mut v, u.as_slice());
    string_of(v.as_slice())
}

/// The local address of an interface, or that it is not connected.
pub open spec fn address_text(ip: Option<Seq<char>>) -> Seq<char> {
    match ip {
        Some(a) => a,
        None => "non connectée"@,
    }
}

pub fn texte_adresse(ip: &Option<String>) -> (r: String)
    ensures
        r@ == address_text(opt_string_view(*ip)),
{
    match ip {
        Some(a) => owned(a.as_str()),
        None => owned("non connectée"),
    }
}

/// A card's title: its vendor's label and its model.
pub open spec fn gpu_title_text(vendor: GpuVendor, model: Seq<char>) -> Seq<char> {
    vendor_label(vendor) + " — "@ + model
}

pub fn texte_titre_gpu(vendor: GpuVendor, model: &str) -> (r: String)
    ensures
        r@ == gpu_title_text(vendor, model@),
{
    let mut v = chars_of(etiquette_vendeur(vendor).as_str());
    push_str(&mut v, " — ");
    push_str(&mut v, model);
    string_of(v.as_slice())
}

/// A card's memory: used over total for dedicated memory; for an
/// integrated chip, the system memory it shares; else the absence mark.
pub open spec fn gpu_memory_text(used_mb: Option<u64>, total_mb: Option<u64>, shared_mb: Option<u64>) -> Seq<char> {
    match (used_mb, total_mb) {
        (Some(u), Some(t)) => mebibytes_text(u) + " / "@ + mebibytes_text(t),
        _ => match shared_mb {
            Some(s) => mebibytes_text(s) + " partagés"@,
            None => absent(),
        },
    }
}

pub fn texte_memoire_gpu(used_mb: Option<u64>, total_mb: Option<u64>, shared_mb: Option<u64>) -> (r: String)
    ensures
        r@ == gpu_memory_text(used_mb, total_mb, shared_mb),
{
    match (used_mb, total_mb) {
        (Some(u), Some(t)) => {
            let mut v = mebibytes_chars(u);
            push_str(&mut v, " / ");
            let w = mebibytes_chars(t);
            append_chars(&mut v, w.as_slice());
            string_of(v.as_slice())
        },
        _ => match shared_mb {
            Some(s) => {
                let mut v = mebibytes_chars(s);
                push_str(&mut v, " partagés");
                string_of(v.as_slice())
            },
            None => owned("—"),
        },
    }
}

/// A frequency in MHz, or the absence mark.
pub open spec fn mhz_text(mhz: Option<u64>) -> Seq<char> {
    match mhz {
        Some(f) => decimal(f as nat) + " MHz"@,
        None => absent(),
    }
}

pub fn texte_mhz(mhz: Option<u64>) -> (r: String)
    ensures
        r@ == mhz_text(mhz),
{
    match mhz {
        Some(f) => {
            let mut v = decimal_chars(f);
            push_str(&mut v, " MHz");
            string_of(v.as_slice())
        },
        None => owned("—"),
    }
}

/// A fan's speed in revolutions per minute.
pub open spec fn rpm_text(rpm: u32) -> Seq<char> {
    decimal(rpm as nat) + " tr/min"@
}

pub fn texte_rpm(rpm: u32) -> (r: String)
    ensures
        r@ == rpm_text(rpm),
{
    let mut v = decimal_chars(rpm as u64);
    push_str(&mut v, " tr/min");
    string_of(v.as_slice())
}

/// A size written from its mebibytes reads as the same size written from
/// its bytes: both writings of a volume agree.
pub proof fn lemma_volume_writings_agree(mb: u64)
    requires
        mb * mib() <= u64::MAX,
    ensures
        volume_text((mb * mib()) as u64) == mebibytes_text(mb),
{
    let m: nat = mb as nat;
    let b: nat = m * 1048576;
    assert(((mb * mib()) as u64) as nat == b);
    if mb >= 1024 {
        assert(b >= 1073741824) by (nonlinear_arith)
            requires
                m >= 1024,
                b == m * 1048576,
        ;
        let q: nat = (10 * m) / 1024;
        let r: nat = (10 * m) % 1024;
        assert((10 * b) / 1073741824 == q && (10 * b) % 1073741824 == r * 1048576) by (nonlinear_arith)
            requires
                b == m * 1048576,
                q == (10 * m) / 1024,
                r == (10 * m) % 1024,
        ;
    } else {
        assert(b < 1073741824) by (nonlinear_arith)
            requires
                m < 1024,
                b == m * 1048576,
        ;
        assert(b / 1048576 == m && b % 1048576 == 0) by (nonlinear_arith)
            requires
                b == m * 1048576,
        ;
    }
}

} // verus!
