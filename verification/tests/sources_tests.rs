use mondashboard::battery::{is_upower_battery, upower_battery, BatteryState, UPowerDevice};
use mondashboard::gpu::nvidia::{nvidia_reading, NvmlSample};
use mondashboard::gpu::GpuVendor;

#[test]
fn seule_la_batterie_du_systeme_compte() {
    assert!(is_upower_battery(2, true));
    // A mouse's battery: battery type, but it does not power the system.
    assert!(!is_upower_battery(2, false));
    // The mains adapter powers the system but is not a battery.
    assert!(!is_upower_battery(1, true));
}

#[test]
fn batterie_upower_decrite() {
    let b = upower_battery(UPowerDevice {
        state: 2,
        time_to_empty_secs: 5_430,
        time_to_full_secs: 0,
        charge_cycles: Some(312),
        vendor: Some("SMP".to_string()),
        model: Some("  ".to_string()),
        technology: Some(2),
    });
    assert_eq!(b.state, BatteryState::Discharging);
    assert_eq!(b.time_to_empty_min, Some(90));
    assert_eq!(b.time_to_full_min, None);
    assert_eq!(b.cycle_count, Some(312));
    assert_eq!(b.vendor.as_deref(), Some("SMP"));
    assert_eq!(b.model, None);
    assert_eq!(b.technology.as_deref(), Some("Li-polymère"));
}

#[test]
fn batterie_upower_sans_informations() {
    let b = upower_battery(UPowerDevice {
        state: 0,
        time_to_empty_secs: -1,
        time_to_full_secs: 0,
        charge_cycles: Some(-1),
        vendor: None,
        model: None,
        technology: Some(0),
    });
    assert_eq!(b.state, BatteryState::Unknown);
    assert_eq!(b.time_to_empty_min, None);
    assert_eq!(b.cycle_count, None);
    assert_eq!(b.vendor, None);
    assert_eq!(b.technology, None);
    let pleine = upower_battery(UPowerDevice {
        state: 4,
        time_to_empty_secs: 0,
        time_to_full_secs: 59,
        charge_cycles: Some(0),
        vendor: None,
        model: None,
        technology: None,
    });
    assert_eq!(pleine.state, BatteryState::Full);
    assert_eq!(pleine.time_to_full_min, Some(0));
    assert_eq!(pleine.cycle_count, None);
}

#[test]
fn carte_nvidia_lue() {
    let r = nvidia_reading(NvmlSample {
        index: 0,
        name: Some("NVIDIA GeForce RTX 4070".to_string()),
        utilization_gpu: Some(37),
        memory: Some((3 * 1024 * 1024 * 1024 + 5, 12 * 1024 * 1024 * 1024)),
        temperature_celsius: Some(61),
        graphics_clock_mhz: Some(2475),
        power_milliwatts: Some(118_250),
    });
    assert_eq!(r.vendor, GpuVendor::Nvidia);
    assert_eq!(r.model, "NVIDIA GeForce RTX 4070");
    assert_eq!(r.usage_percent, Some(37));
    assert_eq!(r.vram_used_mb, Some(3072));
    assert_eq!(r.vram_total_mb, Some(12288));
    assert_eq!(r.shared_memory_mb, None);
    assert_eq!(r.temperature_millicelsius, Some(61_000));
    assert_eq!(r.frequency_mhz, Some(2475));
    assert_eq!(r.power_microwatts, Some(118_250_000));
}

#[test]
fn carte_nvidia_sans_nom() {
    let r = nvidia_reading(NvmlSample {
        index: 12,
        name: None,
        utilization_gpu: None,
        memory: None,
        temperature_celsius: None,
        graphics_clock_mhz: None,
        power_milliwatts: None,
    });
    assert_eq!(r.model, "GPU NVIDIA 12");
    assert_eq!(r.usage_percent, None);
    assert_eq!(r.vram_used_mb, None);
    assert_eq!(r.vram_total_mb, None);
    assert_eq!(r.temperature_millicelsius, None);
    assert_eq!(r.power_microwatts, None);
}
