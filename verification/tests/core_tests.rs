use mondashboard::battery::{
    battery_origin, cycle_count, energy_reading, find_system_battery, is_system_battery,
    non_empty, positive_minutes, sysfs_battery, sysfs_state, technology_name, upower_state,
    BatteryOrigin, BatteryState, EnergyReading,
};
use mondashboard::config::{BatterySource, TemperatureUnit, WindowConfig};
use mondashboard::cpu::{cpu_summary, max_frequency_mhz, summarize_cpus, temperature};
use mondashboard::fans::{classify, default_label, fans_of, get_cooling_stats, has_coolant_label, FanKind};
use mondashboard::memory::{memory_stats, MemoryStats};
use mondashboard::network::{active_interface, debit_actif, est_virtuelle, network_interfaces, previous_totals, NetworkInterfaceStats};
use mondashboard::process::{kill_process, MAX_PROCESSES};
use mondashboard::sysfs::{
    file_name, hwmon_dirs_named, hwmon_name, hwmon_temp_by_label, read_i64, read_string, read_u64,
    SysDir, SysFile,
};
use mondashboard::MonDashboardError;
use sysinfo::System;

fn dir(path: &str, files: &[(&str, &str)]) -> SysDir {
    SysDir {
        path: path.to_string(),
        files: files
            .iter()
            .map(|(name, content)| SysFile { name: name.to_string(), content: Some(content.to_string()) })
            .collect(),
    }
}

#[test]
fn duree_inconnue_donne_none() {
    assert_eq!(positive_minutes(0), None);
    assert_eq!(positive_minutes(-1), None);
    assert_eq!(positive_minutes(3600), Some(60));
}

#[test]
fn classement_par_libelle() {
    assert_eq!(classify("Pump", "nct6798"), FanKind::AioPump);
    assert_eq!(classify("CPU Fan", "nct6798"), FanKind::CpuCooler);
    assert_eq!(classify("fan1", "amdgpu"), FanKind::GpuFan);
    assert_eq!(classify("fan2", "nct6798"), FanKind::Unknown);
}

#[test]
fn libelle_par_defaut_mentionne_le_controleur() {
    assert_eq!(default_label("amdgpu", "1"), "amdgpu fan1");
    assert_eq!(default_label("", "1"), "fan1");
}

#[test]
fn memory_stats_fields_are_present() {
    let stats = MemoryStats {
        total_mb: 0,
        used_mb: 0,
        available_mb: 0,
        cached_mb: 0,
        swap_total_mb: 0,
        swap_used_mb: 0,
    };
    assert_eq!(stats.total_mb, 0);
}

#[test]
fn interfaces_virtuelles_reconnues() {
    assert!(est_virtuelle("docker0"));
    assert!(est_virtuelle("virbr0"));
    assert!(est_virtuelle("veth1a2b3c"));
    assert!(!est_virtuelle("wlan0"));
    assert!(!est_virtuelle("enp11s0"));
    // A wireless interface must not be taken for a tunnel.
    assert!(!est_virtuelle("wlp3s0"));
}

#[test]
fn fichier_absent_donne_none() {
    // /sys/class/ce-chemin-n-existe-pas/valeur does not exist: nothing was read.
    let contenu: Option<&str> = None;
    assert!(read_u64(contenu).is_none());
}

#[test]
fn enumeration_hwmon_ne_panique_pas() {
    let hwmons = vec![
        dir("/sys/class/hwmon/hwmon0", &[("name", "k10temp\n")]),
        dir("/sys/class/hwmon/hwmon1", &[]),
    ];
    for d in &hwmons {
        let _ = hwmon_name(d);
    }
}

#[test]
fn sans_batterie_le_widget_est_masque() {
    // A desktop computer: no power supply is a battery.
    let alimentation = vec![dir("/sys/class/power_supply/AC", &[("type", "Mains\n")])];
    assert!(sysfs_battery(&alimentation).is_none());
}

#[test]
fn batterie_de_peripherique_ignoree() {
    // A wireless mouse declares itself a Battery, but with scope=Device.
    let souris = dir(
        "/sys/class/power_supply/hidpp_battery_0",
        &[("type", "Battery\n"), ("scope", "Device\n")],
    );
    assert!(!is_system_battery(&souris));
}

#[test]
fn collecte_coherente_sur_la_machine_courante() {
    let mut sys = System::new();
    sys.refresh_cpu_all();
    let resume = cpu_summary(&sys, sys.physical_core_count());
    assert!(resume.logical_cores >= 1);
    assert_eq!(sys.cpus().len(), resume.logical_cores as usize);
    assert!(sys.global_cpu_usage() >= 0.0 && sys.global_cpu_usage() <= 100.0);
}

#[test]
fn temperature_absente_ne_panique_pas() {
    // Without any sensor (CI), the result is None, not an error.
    assert_eq!(temperature(&[]), None);
}

#[test]
fn collecte_ne_panique_pas_sans_ventilateur() {
    let stats = get_cooling_stats(&[]);
    assert!(stats.fans.iter().all(|fan| !fan.label.is_empty()));
    assert!(stats.fans.is_empty());
    assert_eq!(stats.coolant_temp_millicelsius, None);
}

// ---------------------------------------------------------------------------

#[test]
fn read_helpers_trim_and_parse() {
    assert_eq!(read_string(Some("  k10temp\n")), Some("k10temp".to_string()));
    assert_eq!(read_string(None), None);
    assert_eq!(read_u64(Some("42\n")), Some(42));
    assert_eq!(read_u64(Some("+7")), Some(7));
    assert_eq!(read_u64(Some("-7")), None);
    assert_eq!(read_u64(Some("18446744073709551615")), Some(u64::MAX));
    assert_eq!(read_u64(Some("18446744073709551616")), None);
    assert_eq!(read_u64(Some("12a")), None);
    assert_eq!(read_u64(Some("")), None);
    assert_eq!(read_i64(Some("-45000\n")), Some(-45000));
    assert_eq!(read_i64(Some("-9223372036854775808")), Some(i64::MIN));
    assert_eq!(read_i64(Some("9223372036854775808")), None);
    assert_eq!(read_i64(Some("-")), None);
}

#[test]
fn file_name_as_path_gives_it() {
    assert_eq!(file_name("/sys/class/hwmon/hwmon3"), Some("hwmon3".to_string()));
    assert_eq!(file_name("/sys/bus/pci/drivers/amdgpu/"), Some("amdgpu".to_string()));
    assert_eq!(file_name("a/b/."), Some("b".to_string()));
    assert_eq!(file_name("a/.."), None);
    assert_eq!(file_name("/"), None);
    assert_eq!(file_name(""), None);
    assert_eq!(file_name("card0"), Some("card0".to_string()));
}

#[test]
fn hwmon_named_keeps_order() {
    let hwmons = vec![
        dir("/h/0", &[("name", "nvme\n")]),
        dir("/h/1", &[("name", "k10temp\n")]),
        dir("/h/2", &[("name", "nvme\n")]),
    ];
    assert_eq!(hwmon_dirs_named(&hwmons, "nvme"), vec!["/h/0".to_string(), "/h/2".to_string()]);
    assert!(hwmon_dirs_named(&hwmons, "amdgpu").is_empty());
}

#[test]
fn temperature_prefers_label_then_first() {
    let h = dir(
        "/h/0",
        &[
            ("temp1_input", "41000\n"),
            ("temp1_label", "Tccd1\n"),
            ("temp2_input", "52500\n"),
            ("temp2_label", "tctl\n"),
        ],
    );
    assert_eq!(hwmon_temp_by_label(&h, &["Tctl"]), Some(52500));
    assert_eq!(hwmon_temp_by_label(&h, &["Package id 0"]), Some(41000));
    assert_eq!(hwmon_temp_by_label(&h, &[]), Some(41000));
    let vide = dir("/h/1", &[("temp1_label", "x")]);
    assert_eq!(hwmon_temp_by_label(&vide, &["x"]), None);
}

#[test]
fn cpu_temperature_by_controller_preference() {
    let hwmons = vec![
        dir("/h/0", &[("name", "acpitz\n"), ("temp1_input", "30000")]),
        dir("/h/1", &[("name", "k10temp\n"), ("temp1_input", "61000"), ("temp1_label", "Tctl")]),
    ];
    assert_eq!(temperature(&hwmons), Some(61000));
    assert_eq!(temperature(&hwmons[..1]), Some(30000));
}

#[test]
fn fans_of_a_controller() {
    let h = dir(
        "/h/2",
        &[
            ("fan1_input", "1200\n"),
            ("fan1_label", "CPU Fan\n"),
            ("fan1_min", "300"),
            ("fan2_input", "0\n"),
            ("fan3_input", "garbage"),
            ("name", "nct6798"),
        ],
    );
    let fans = fans_of(&h, "nct6798");
    assert_eq!(fans.len(), 2);
    assert_eq!(fans[0].label, "CPU Fan");
    assert_eq!(fans[0].kind, FanKind::CpuCooler);
    assert_eq!(fans[0].rpm, 1200);
    assert_eq!(fans[0].rpm_min, Some(300));
    assert_eq!(fans[0].rpm_max, None);
    assert_eq!(fans[1].label, "nct6798 fan2");
    assert_eq!(fans[1].kind, FanKind::Unknown);
}

#[test]
fn cooling_stats_with_coolant() {
    let hwmons = vec![
        dir("/h/0", &[("name", "amdgpu"), ("fan1_input", "900")]),
        dir(
            "/h/1",
            &[("name", "nzxt"), ("fan1_input", "2000"), ("fan1_label", "Pump"), ("temp1_input", "31500"), ("temp1_label", "Coolant temp")],
        ),
    ];
    let stats = get_cooling_stats(&hwmons);
    assert_eq!(stats.fans.len(), 2);
    assert_eq!(stats.fans[0].label, "amdgpu fan1");
    assert_eq!(stats.fans[0].kind, FanKind::GpuFan);
    assert_eq!(stats.fans[1].kind, FanKind::AioPump);
    assert_eq!(stats.coolant_temp_millicelsius, Some(31500));
    assert!(has_coolant_label(&hwmons[1]));
    assert!(!has_coolant_label(&hwmons[0]));
}

#[test]
fn fan_kinds_by_priority() {
    assert_eq!(classify("Radiator 1", "nzxt"), FanKind::AioRadiator);
    assert_eq!(classify("Pompe", "x"), FanKind::AioPump);
    assert_eq!(classify("GPU", "nct6798"), FanKind::GpuFan);
    assert_eq!(classify("fan1", "xe"), FanKind::GpuFan);
    assert_eq!(classify("Chassis Fan 2", "nct6798"), FanKind::CaseFan);
    assert_eq!(classify("SYSFAN", "it87"), FanKind::CaseFan);
    // A pump label wins over a GPU controller.
    assert_eq!(classify("pump", "amdgpu"), FanKind::AioPump);
}

#[test]
fn battery_readings() {
    let bat = dir(
        "/sys/class/power_supply/BAT0",
        &[
            ("type", "Battery\n"),
            ("status", "Discharging\n"),
            ("capacity", "87\n"),
            ("charge_now", "3000000"),
            ("voltage_now", "12000000"),
            ("energy_full", "50000000"),
            ("cycle_count", "0"),
            ("manufacturer", "SMP\n"),
        ],
    );
    let ac = dir("/sys/class/power_supply/AC", &[("type", "Mains")]);
    let dirs = vec![ac, bat];
    assert_eq!(find_system_battery(&dirs), Some(1));
    assert_eq!(sysfs_state(&dirs[1]), BatteryState::Discharging);
    let b = sysfs_battery(&dirs).expect("battery");
    assert_eq!(b.percentage, 87);
    assert_eq!(b.state, BatteryState::Discharging);
    assert_eq!(b.energy_now, EnergyReading::MicroAmpHours { charge: 3000000, micro_volts: 12000000 });
    assert_eq!(b.energy_full, EnergyReading::MicroWattHours(50000000));
    assert_eq!(b.energy_full_design, EnergyReading::Missing);
    assert_eq!(b.cycle_count, None);
    assert_eq!(b.vendor, Some("SMP".to_string()));
    assert_eq!(b.model, None);
    assert_eq!(energy_reading(&dirs[1], "energy_now", "charge_now"), b.energy_now);
}

#[test]
fn battery_codes() {
    assert_eq!(upower_state(1), BatteryState::Charging);
    assert_eq!(upower_state(2), BatteryState::Discharging);
    assert_eq!(upower_state(4), BatteryState::Full);
    assert_eq!(upower_state(3), BatteryState::Unknown);
    assert_eq!(technology_name(1), Some("Li-ion".to_string()));
    assert_eq!(technology_name(2), Some("Li-polymère".to_string()));
    assert_eq!(technology_name(0), None);
    assert_eq!(non_empty(Some("  ".to_string())), None);
    assert_eq!(non_empty(Some(" Dell ".to_string())), Some(" Dell ".to_string()));
    assert_eq!(cycle_count(Some(12)), Some(12));
    assert_eq!(cycle_count(Some(0)), None);
}

#[test]
fn battery_source_choice() {
    assert_eq!(battery_origin(BatterySource::Sysfs, Some(true)), BatteryOrigin::Sysfs);
    assert_eq!(battery_origin(BatterySource::UPower, None), BatteryOrigin::Absent);
    assert_eq!(battery_origin(BatterySource::UPower, Some(true)), BatteryOrigin::UPower);
    assert_eq!(battery_origin(BatterySource::Auto, Some(true)), BatteryOrigin::UPower);
    assert_eq!(battery_origin(BatterySource::Auto, Some(false)), BatteryOrigin::Sysfs);
    assert_eq!(battery_origin(BatterySource::Auto, None), BatteryOrigin::Sysfs);
    assert_eq!(BatterySource::default(), BatterySource::Auto);
}

#[test]
fn configuration_defaults() {
    let w = WindowConfig::default();
    assert_eq!((w.width, w.height), (1180, 800));
    assert_eq!(TemperatureUnit::default(), TemperatureUnit::Celsius);
}

#[test]
fn cpu_summary_from_values() {
    let s = summarize_cpus(Some("  AMD Ryzen 7 7700X 8-Core Processor  "), &[4000, 4500, 5000], None);
    assert_eq!(s.model, "AMD Ryzen 7 7700X 8-Core Processor");
    assert_eq!(s.logical_cores, 3);
    assert_eq!(s.physical_cores, 3);
    assert_eq!(s.frequency_mhz, 4500);
    let vide = summarize_cpus(Some("   "), &[], Some(8));
    assert_eq!(vide.model, "Processeur inconnu");
    assert_eq!(vide.frequency_mhz, 0);
    assert_eq!(vide.physical_cores, 8);
    // A 128-bit total: frequencies too large for a 64-bit sum still average.
    let grandes = summarize_cpus(None, &[u64::MAX, u64::MAX - 2], None);
    assert_eq!(grandes.frequency_mhz, u64::MAX - 1);
}

#[test]
fn cpufreq_maximum() {
    let files = vec![Some("4700000\n".to_string()), None, Some("5200000".to_string()), Some("x".to_string())];
    assert_eq!(max_frequency_mhz(&files), 5200);
    assert_eq!(max_frequency_mhz(&[]), 0);
}

fn iface(name: &str, rx: u64, ip: Option<&str>) -> NetworkInterfaceStats {
    NetworkInterfaceStats {
        name: name.to_string(),
        rx_bytes_per_sec: 0,
        tx_bytes_per_sec: 0,
        ip_local: ip.map(|s| s.to_string()),
        rx_total_bytes: rx,
        tx_total_bytes: 0,
    }
}

#[test]
fn network_list_order_and_active() {
    let list = network_interfaces(vec![
        iface("lo", 999, Some("127.0.0.1")),
        iface("wlp3s0", 500, Some("192.168.1.10")),
        iface("docker0", 0, None),
        iface("enp11s0", 800, None),
        iface("wg0", 500, Some("10.0.0.2")),
    ]);
    let names: Vec<&str> = list.iter().map(|i| i.name.as_str()).collect();
    assert_eq!(names, vec!["enp11s0", "wlp3s0", "wg0"]);
    // With IPv4 and the most received; on a tie the last of them.
    assert_eq!(active_interface(&list), Some("wg0".to_string()));
    assert_eq!(active_interface(&list[..1]), Some("enp11s0".to_string()));
    assert_eq!(active_interface(&[]), None);
    assert_eq!(previous_totals(&list, "wlp3s0"), Some((500, 0)));
    assert_eq!(previous_totals(&list, "eth9"), None);
}

#[test]
fn memory_in_mebibytes() {
    let m = memory_stats(16 << 30, 6 << 30, 9 << 30, 2 << 30, 0, 0);
    assert_eq!(m.total_mb, 16384);
    assert_eq!(m.used_mb, 6144);
    assert_eq!(m.available_mb, 9216);
    assert_eq!(m.cached_mb, 7168);
    assert_eq!(m.swap_total_mb, 0);
}

#[test]
fn ending_a_process_is_refused() {
    assert!(matches!(kill_process(1), Err(MonDashboardError::Process(_))));
    assert_eq!(MAX_PROCESSES, 50);
}

#[test]
fn debit_de_l_interface_active() {
    let mut wlan = iface("wlp3s0", 9_000, Some("192.168.1.12"));
    wlan.rx_bytes_per_sec = 2_048;
    let mut eth = iface("enp11s0", 100, None);
    eth.rx_bytes_per_sec = 7;
    let interfaces = vec![eth, wlan];
    assert_eq!(debit_actif(&interfaces, &Some("wlp3s0".to_string())), 2_048);
    assert_eq!(debit_actif(&interfaces, &Some("wg0".to_string())), 0);
    assert_eq!(debit_actif(&interfaces, &None), 0);
}
