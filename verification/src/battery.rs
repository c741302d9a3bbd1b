//! Battery, from two interchangeable sources: /sys/class/power_supply read
//! directly, or the UPower service over D-Bus. This module holds what both
//! sources decide: which battery is the computer's, how each code or file
//! reads, and which source answers.
use vstd::prelude::*;

use crate::config::BatterySource;
use crate::sysfs::{
    find_content, lookup, opt_string_view, read_string, read_u64, trimmed, u64_of, SysDir,
};
use crate::text::{chars_eq, chars_of, string_of, trim, trim_chars};

verus! {

#[derive(Debug, Clone, Copy, PartialEq, Eq, Structural)]
pub enum BatteryState {
    Charging,
    Discharging,
    Full,
    Unknown,
}

/// The text of the file `name` of a power-supply directory, trimmed.
pub open spec fn field(d: SysDir, name: Seq<char>) -> Option<Seq<char>> {
    trimmed(lookup(d.files@, name))
}

/// A real system battery, as opposed to wireless devices (mouse, keyboard,
/// headset) that also declare `type=Battery` but with `scope=Device`.
/// Without this filter the mouse's level would show as the computer's.
pub open spec fn system_battery(d: SysDir) -> bool {
    field(d, "type"@) == Some("Battery"@) && field(d, "scope"@) != Some("Device"@)
}

fn field_of(dir: &SysDir, name: &str) -> (r: Option<String>)
    ensures
        opt_string_view(r) == field(*dir, name@),
{
    let key = chars_of(name);
    read_string(find_content(dir.files.as_slice(), key.as_slice()))
}

fn field_is(dir: &SysDir, name: &str, value: &str) -> (r: bool)
    ensures
        r == (field(*dir, name@) == Some(value@)),
{
    match field_of(dir, name) {
        Some(t) => {
            let a = chars_of(t.as_str());
            let b = chars_of(value);
            chars_eq(a.as_slice(), b.as_slice())
        },
        None => false,
    }
}

/// A power supply that declares `scope=Device` (a mouse, a headset) is
/// never taken for the computer's battery, whatever else it declares.
pub proof fn lemma_device_battery_ignored(d: SysDir)
    requires
        field(d, "scope"@) == Some("Device"@),
    ensures
        !system_battery(d),
{
}

/// Whether a power-supply directory is the computer's own battery.
pub fn is_system_battery(dir: &SysDir) -> (r: bool)
    ensures
        r == system_battery(*dir),
{
    field_is(dir, "type", "Battery") && !field_is(dir, "scope", "Device")
}

/// The first system battery among the power-supply directories.
pub fn find_system_battery(dirs: &[SysDir]) -> (r: Option<usize>)
    ensures
        match r {
            Some(i) => i < dirs@.len() && system_battery(dirs@[i as int]) && forall|k: int|
                0 <= k < i ==> !system_battery(#[trigger] dirs@[k]),
            None => forall|k: int| 0 <= k < dirs@.len() ==> !system_battery(#[trigger] dirs@[k]),
        },
{
    let mut i: usize = 0;
    while i < dirs.len()
        invariant
            i <= dirs.len(),
            forall|k: int| 0 <= k < i ==> !system_battery(#[trigger] dirs@[k]),
        decreases dirs.len() - i,
    {
        if is_system_battery(&dirs[i]) {
            return Some(i);
        }
        i = i + 1;
    }
    None
}

/// The state that the `status` file of a power supply gives.
pub open spec fn state_from_status(status: Option<Seq<char>>) -> BatteryState {
    if status == Some("Charging"@) {
        BatteryState::Charging
    } else if status == Some("Discharging"@) {
        BatteryState::Discharging
    } else if status == Some("Full"@) {
        BatteryState::Full
    } else {
        BatteryState::Unknown
    }
}

pub fn sysfs_state(dir: &SysDir) -> (r: BatteryState)
    ensures
        r == state_from_status(field(*dir, "status"@)),
        (r == BatteryState::Charging) == (field(*dir, "status"@) == Some("Charging"@)),
        (r == BatteryState::Discharging) == (field(*dir, "status"@) == Some("Discharging"@)),
        (r == BatteryState::Full) == (field(*dir, "status"@) == Some("Full"@)),
{
    proof {
        lemma_status_words_distinct();
    }
    if field_is(dir, "status", "Charging") {
        BatteryState::Charging
    } else if field_is(dir, "status", "Discharging") {
        BatteryState::Discharging
    } else if field_is(dir, "status", "Full") {
        BatteryState::Full
    } else {
        BatteryState::Unknown
    }
}

/// The state that UPower's `State` property gives.
pub open spec fn state_from_upower(code: u32) -> BatteryState {
    if code == 1 {
        BatteryState::Charging
    } else if code == 2 {
        BatteryState::Discharging
    } else if code == 4 {
        BatteryState::Full
    } else {
        BatteryState::Unknown
    }
}

pub fn upower_state(code: u32) -> (r: BatteryState)
    ensures
        r == state_from_upower(code),
{
    match code {
        1 => BatteryState::Charging,
        2 => BatteryState::Discharging,
        4 => BatteryState::Full,
        _ => BatteryState::Unknown,
    }
}

/// UPower gives 0 when the duration is unknown (on mains, estimate in
/// progress), not an absent value.
pub fn positive_minutes(seconds: i64) -> (r: Option<u32>)
    ensures
        seconds > 0 ==> r == Some((seconds / 60) as u32),
        seconds <= 0 ==> r is None,
{
    if seconds > 0 {
        Some((seconds / 60) as u32)
    } else {
        None
    }
}

/// A text that says something: absent when empty or made of white space.
pub fn non_empty(value: Option<String>) -> (r: Option<String>)
    ensures
        match value {
            Some(t) => if trim(t@).len() > 0 {
                r == Some(t)
            } else {
                r is None
            },
            None => r is None,
        },
{
    match value {
        Some(t) => {
            let c = chars_of(t.as_str());
            let tr = trim_chars(c.as_slice());
            if tr.len() > 0 {
                Some(t)
            } else {
                None
            }
        },
        None => None,
    }
}

/// The name of a battery technology from UPower's code.
pub open spec fn technology_of(code: u32) -> Option<Seq<char>> {
    if code == 1 {
        Some("Li-ion"@)
    } else if code == 2 {
        Some("Li-polymère"@)
    } else if code == 3 {
        Some("LiFePO4"@)
    } else if code == 4 {
        Some("Plomb"@)
    } else if code == 5 {
        Some("Ni-Cd"@)
    } else if code == 6 {
        Some("Ni-MH"@)
    } else {
        None
    }
}

fn owned(s: &str) -> (r: String)
    ensures
        r@ == s@,
{
    let c = chars_of(s);
    string_of(c.as_slice())
}

pub fn technology_name(code: u32) -> (r: Option<String>)
    ensures
        opt_string_view(r) == technology_of(code),
{
    match code {
        1 => Some(owned("Li-ion")),
        2 => Some(owned("Li-polymère")),
        3 => Some(owned("LiFePO4")),
        4 => Some(owned("Plomb")),
        5 => Some(owned("Ni-Cd")),
        6 => Some(owned("Ni-MH")),
        _ => None,
    }
}

/// A charge-cycle count, kept when positive.
pub fn cycle_count(count: Option<u64>) -> (r: Option<u32>)
    ensures
        r == (match count {
            Some(c) => if c > 0 {
                Some(c as u32)
            } else {
                None::<u32>
            },
            None => None,
        }),
{
    match count {
        Some(c) => if c > 0 {
            Some(c as u32)
        } else {
            None
        },
        None => None,
    }
}

/// An amount of energy as a power supply publishes it: some batteries give
/// microwatt-hours (`energy_*`), others microampere-hours (`charge_*`) to
/// be multiplied by the voltage (in microvolts).
#[derive(Debug, Clone, Copy, PartialEq, Eq, Structural)]
pub enum EnergyReading {
    MicroWattHours(u64),
    MicroAmpHours { charge: u64, micro_volts: u64 },
    Missing,
}

pub open spec fn energy_of(d: SysDir, energy_file: Seq<char>, charge_file: Seq<char>) -> EnergyReading {
    match u64_of(lookup(d.files@, energy_file)) {
        Some(e) => EnergyReading::MicroWattHours(e),
        None => match u64_of(lookup(d.files@, charge_file)) {
            None => EnergyReading::Missing,
            Some(c) => EnergyReading::MicroAmpHours {
                charge: c,
                micro_volts: match u64_of(lookup(d.files@, "voltage_now"@)) {
                    Some(v) => v,
                    None => match u64_of(lookup(d.files@, "voltage_min_design"@)) {
                        Some(v) => v,
                        None => 0,
                    },
                },
            },
        },
    }
}

pub open spec fn number(d: SysDir, name: Seq<char>) -> Option<u64> {
    u64_of(lookup(d.files@, name))
}

fn number_of(dir: &SysDir, name: &str) -> (r: Option<u64>)
    ensures
        r == number(*dir, name@),
{
    let key = chars_of(name);
    read_u64(find_content(dir.files.as_slice(), key.as_slice()))
}

pub fn energy_reading(dir: &SysDir, energy_file: &str, charge_file: &str) -> (r: EnergyReading)
    ensures
        r == energy_of(*dir, energy_file@, charge_file@),
{
    if let Some(e) = number_of(dir, energy_file) {
        return EnergyReading::MicroWattHours(e);
    }
    let charge = match number_of(dir, charge_file) {
        Some(c) => c,
        None => {
            return EnergyReading::Missing;
        },
    };
    let micro_volts = match number_of(dir, "voltage_now") {
        Some(v) => v,
        None => match number_of(dir, "voltage_min_design") {
            Some(v) => v,
            None => 0,
        },
    };
    EnergyReading::MicroAmpHours { charge, micro_volts }
}

/// UPower's device type of a battery.
pub open spec fn upower_type_battery() -> u32 {
    2
}

/// Whether a UPower device is the computer's battery: of the battery type
/// and powering the system (`PowerSupply`), which tells it from the battery
/// of a mouse or a headset that UPower lists too.
pub fn is_upower_battery(kind: u32, power_supply: bool) -> (r: bool)
    ensures
        r == (kind == upower_type_battery() && power_supply),
{
    kind == 2 && power_supply
}

/// The integer and text properties of a UPower battery device, as read;
/// a property that could not be read is 0 (`State`, `TimeToEmpty`,
/// `TimeToFull`) or absent.
pub struct UPowerDevice {
    pub state: u32,
    pub time_to_empty_secs: i64,
    pub time_to_full_secs: i64,
    pub charge_cycles: Option<i32>,
    pub vendor: Option<String>,
    pub model: Option<String>,
    pub technology: Option<u32>,
}

/// What the battery widget takes of a UPower device, beside its
/// floating-point figures (percentage, energies).
pub struct UPowerBattery {
    pub state: BatteryState,
    pub time_to_empty_min: Option<u32>,
    pub time_to_full_min: Option<u32>,
    pub cycle_count: Option<u32>,
    pub vendor: Option<String>,
    pub model: Option<String>,
    pub technology: Option<String>,
}

/// Whole minutes of a positive duration in seconds; none otherwise.
pub open spec fn minutes_of(seconds: i64) -> Option<u32> {
    if seconds > 0 {
        Some((seconds / 60) as u32)
    } else {
        None
    }
}

/// A text that says something, or none.
pub open spec fn meaningful(value: Option<Seq<char>>) -> Option<Seq<char>> {
    match value {
        Some(t) => if trim(t).len() > 0 {
            Some(t)
        } else {
            None
        },
        None => None,
    }
}

pub open spec fn upower_matches(b: UPowerBattery, d: UPowerDevice) -> bool {
    &&& b.state == state_from_upower(d.state)
    &&& b.time_to_empty_min == minutes_of(d.time_to_empty_secs)
    &&& b.time_to_full_min == minutes_of(d.time_to_full_secs)
    &&& b.cycle_count == match d.charge_cycles {
        Some(c) => if c > 0 {
            Some(c as u32)
        } else {
            None
        },
        None => None,
    }
    &&& opt_string_view(b.vendor) == meaningful(opt_string_view(d.vendor))
    &&& opt_string_view(b.model) == meaningful(opt_string_view(d.model))
    &&& opt_string_view(b.technology) == match d.technology {
        Some(code) => technology_of(code),
        None => None,
    }
}

/// The battery as UPower describes it: state, remaining times (0 means
/// unknown), a positive cycle count, and the identity texts that say
/// something.
pub fn upower_battery(device: UPowerDevice) -> (r: UPowerBattery)
    ensures
        upower_matches(r, device),
{
    let ghost d = device;
    let cycles = match device.charge_cycles {
        Some(c) => if c > 0 {
            Some(c as u32)
        } else {
            None
        },
        None => None,
    };
    let technology = match device.technology {
        Some(code) => technology_name(code),
        None => None,
    };
    let vendor = non_empty(device.vendor);
    let model = non_empty(device.model);
    let r = UPowerBattery {
        state: upower_state(device.state),
        time_to_empty_min: positive_minutes(device.time_to_empty_secs),
        time_to_full_min: positive_minutes(device.time_to_full_secs),
        cycle_count: cycles,
        vendor,
        model,
        technology,
    };
    assert(opt_string_view(r.vendor) == meaningful(opt_string_view(d.vendor)));
    r
}

/// What the sysfs source reads of a system battery, before any arithmetic
/// on its figures.
pub struct SysfsBattery {
    /// `capacity`, 0 when unreadable.
    pub percentage: u64,
    pub state: BatteryState,
    pub energy_now: EnergyReading,
    pub energy_full: EnergyReading,
    pub energy_full_design: EnergyReading,
    /// `power_now`, in microwatts.
    pub power_now_micro_watts: Option<u64>,
    pub cycle_count: Option<u32>,
    pub vendor: Option<String>,
    pub model: Option<String>,
    pub technology: Option<String>,
}

pub open spec fn sysfs_battery_matches(b: SysfsBattery, d: SysDir) -> bool {
    &&& b.percentage == match number(d, "capacity"@) {
        Some(p) => p,
        None => 0,
    }
    &&& b.state == state_from_status(field(d, "status"@))
    &&& b.energy_now == energy_of(d, "energy_now"@, "charge_now"@)
    &&& b.energy_full == energy_of(d, "energy_full"@, "charge_full"@)
    &&& b.energy_full_design == energy_of(d, "energy_full_design"@, "charge_full_design"@)
    &&& b.power_now_micro_watts == number(d, "power_now"@)
    &&& b.cycle_count == match number(d, "cycle_count"@) {
        Some(c) => if c > 0 {
            Some(c as u32)
        } else {
            None
        },
        None => None,
    }
    &&& opt_string_view(b.vendor) == field(d, "manufacturer"@)
    &&& opt_string_view(b.model) == field(d, "model_name"@)
    &&& opt_string_view(b.technology) == field(d, "technology"@)
}

/// The first system battery among the power-supply directories, as read;
/// none on a desktop computer.
pub fn sysfs_battery(dirs: &[SysDir]) -> (r: Option<SysfsBattery>)
    ensures
        match r {
            Some(b) => exists|i: int|
                0 <= i < dirs@.len() && system_battery(dirs@[i]) && (forall|k: int|
                    0 <= k < i ==> !system_battery(#[trigger] dirs@[k])) && sysfs_battery_matches(
                    b,
                    dirs@[i],
                ),
            None => forall|k: int| 0 <= k < dirs@.len() ==> !system_battery(#[trigger] dirs@[k]),
        },
{
    let i = match find_system_battery(dirs) {
        Some(i) => i,
        None => {
            return None;
        },
    };
    let d = &dirs[i];
    let b = SysfsBattery {
        percentage: match number_of(d, "capacity") {
            Some(p) => p,
            None => 0,
        },
        state: sysfs_state(d),
        energy_now: energy_reading(d, "energy_now", "charge_now"),
        energy_full: energy_reading(d, "energy_full", "charge_full"),
        energy_full_design: energy_reading(d, "energy_full_design", "charge_full_design"),
        power_now_micro_watts: number_of(d, "power_now"),
        cycle_count: cycle_count(number_of(d, "cycle_count")),
        vendor: field_of(d, "manufacturer"),
        model: field_of(d, "model_name"),
        technology: field_of(d, "technology"),
    };
    assert(sysfs_battery_matches(b, dirs@[i as int]));
    Some(b)
}

/// Which source answers for the battery.
#[derive(Debug, Clone, Copy, PartialEq, Eq, Structural)]
pub enum BatteryOrigin {
    UPower,
    Sysfs,
    /// No battery to report.
    Absent,
}

/// The source that answers, given the configured one and what UPower said:
/// `None` when it was absent or unreachable, else whether it reported a
/// battery. With `Auto`, sysfs decides whenever UPower has no battery to
/// report, since only sysfs tells "no battery" from "service unavailable".
pub fn battery_origin(source: BatterySource, upower: Option<bool>) -> (r: BatteryOrigin)
    ensures
        source == BatterySource::Sysfs ==> r == BatteryOrigin::Sysfs,
        source == BatterySource::UPower ==> r == (if upower is Some {
            BatteryOrigin::UPower
        } else {
            BatteryOrigin::Absent
        }),
        source == BatterySource::Auto ==> r == (if upower == Some(true) {
            BatteryOrigin::UPower
        } else {
            BatteryOrigin::Sysfs
        }),
{
    match source {
        BatterySource::Sysfs => BatteryOrigin::Sysfs,
        BatterySource::UPower => match upower {
            Some(_) => BatteryOrigin::UPower,
            None => BatteryOrigin::Absent,
        },
        BatterySource::Auto => match upower {
            Some(true) => BatteryOrigin::UPower,
            _ => BatteryOrigin::Sysfs,
        },
    }
}

/// A battery read from sysfs is charging exactly when its status file
/// reads "Charging", discharging exactly when it reads "Discharging", full
/// exactly when it reads "Full" (white space trimmed), and in an unknown
/// state otherwise.
pub proof fn lemma_battery_status(b: SysfsBattery, d: SysDir)
    requires
        sysfs_battery_matches(b, d),
    ensures
        (b.state == BatteryState::Charging) == (field(d, "status"@) == Some("Charging"@)),
        (b.state == BatteryState::Discharging) == (field(d, "status"@) == Some("Discharging"@)),
        (b.state == BatteryState::Full) == (field(d, "status"@) == Some("Full"@)),
        (b.state == BatteryState::Unknown) == (field(d, "status"@) != Some("Charging"@) && field(
            d,
            "status"@,
        ) != Some("Discharging"@) && field(d, "status"@) != Some("Full"@)),
{
    lemma_status_words_distinct();
}

proof fn lemma_status_words_distinct()
    ensures
        "Charging"@ != "Discharging"@,
        "Charging"@ != "Full"@,
        "Discharging"@ != "Full"@,
{
    reveal_strlit("Charging");
    reveal_strlit("Discharging");
    reveal_strlit("Full");
    assert("Charging"@.len() != "Discharging"@.len());
    assert("Charging"@.len() != "Full"@.len());
    assert("Discharging"@.len() != "Full"@.len());
}

} // verus!
