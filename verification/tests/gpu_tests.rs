use mondashboard::gpu::drm::{
    card_name, card_vendor, cards, pci_name, sysfs_gpus, DrmCard, DrmEntry, IGPU_VRAM_LIMIT_BYTES,
};
use mondashboard::gpu::GpuVendor;
use mondashboard::sysfs::{SysDir, SysFile};

fn dir(path: &str, files: &[(&str, &str)]) -> SysDir {
    SysDir {
        path: path.to_string(),
        files: files
            .iter()
            .map(|(name, content)| SysFile { name: name.to_string(), content: Some(content.to_string()) })
            .collect(),
    }
}

fn entry(name: &str, attributes: &[(&str, &str)], hwmons: Vec<SysDir>) -> DrmEntry {
    DrmEntry {
        name: name.to_string(),
        device: format!("/sys/class/drm/{name}/device"),
        driver_link: Some("/sys/bus/pci/drivers/amdgpu".to_string()),
        attributes: dir(&format!("/sys/class/drm/{name}/device"), attributes),
        hwmons,
    }
}

const PCI_IDS: &str = "# pci.ids excerpt\n\
1002  Advanced Micro Devices, Inc. [AMD/ATI]\n\
\t7550  Navi 48 [Radeon RX 9070/9070 XT/9070 GRE]\n\
\t\t1002 0b26  Radeon RX 9070 XT\n\
\t15bf  Phoenix1\r\n\
10de  NVIDIA Corporation\n\
\t2684  AD102 [GeForce RTX 4090]\n";

#[test]
fn identifiants_vides_sans_correspondance() {
    assert!(pci_name("", "", None).is_none());
    assert!(pci_name("", "", Some(PCI_IDS)).is_none());
    // An id that is only its `0x` is empty too.
    assert!(pci_name("0x", "0x7550", Some(PCI_IDS)).is_none());
    assert!(pci_name("0x1002", "", Some(PCI_IDS)).is_none());
}

#[test]
fn pci_names_from_database() {
    assert_eq!(
        pci_name("0x1002", "0x7550", Some(PCI_IDS)),
        Some("Navi 48 [Radeon RX 9070/9070 XT/9070 GRE]".to_string())
    );
    assert_eq!(pci_name("0x1002", "0x15BF", Some(PCI_IDS)), Some("Phoenix1".to_string()));
    // The device of another vendor is not taken.
    assert_eq!(pci_name("0x1002", "0x2684", Some(PCI_IDS)), None);
    assert_eq!(pci_name("0x10de", "0x2684", Some(PCI_IDS)), Some("AD102 [GeForce RTX 4090]".to_string()));
    // Subsystem lines (two tabs) are not devices.
    assert_eq!(pci_name("0x1002", "0x0b26", Some(PCI_IDS)), None);
    assert_eq!(pci_name("0x1002", "0x7550", None), None);
}

#[test]
fn card_names() {
    assert!(card_name("card0"));
    assert!(card_name("card12"));
    assert!(!card_name("card"));
    assert!(!card_name("card0-HDMI-A-1"));
    assert!(!card_name("renderD128"));
}

#[test]
fn enumeration_ne_panique_pas() {
    let found = cards(vec![
        entry("card0", &[("vendor", "0x1002\n"), ("device", "0x7550\n")], vec![]),
        entry("card0-HDMI-A-1", &[("vendor", "0x1002\n")], vec![]),
        entry("card1", &[], vec![]),
    ]);
    assert_eq!(found.len(), 1);
    for card in &found {
        assert!(!card.model(None).is_empty());
        assert!(!card.model(Some(PCI_IDS)).is_empty());
        let _ = card.is_integrated();
        let _ = card.temperature_millicelsius();
    }
    assert_eq!(found[0].vendor_id, "0x1002");
    assert_eq!(found[0].device_id, "0x7550");
    assert_eq!(found[0].driver, "amdgpu");
    assert_eq!(found[0].model(None), "GPU amdgpu 0x7550");
}

fn amd_card(vram_total: Option<u64>) -> DrmCard {
    let mut attrs = vec![
        ("vendor", "0x1002".to_string()),
        ("mem_info_vram_used", "1073741824".to_string()),
        ("mem_info_gtt_total", "8589934592".to_string()),
        ("gpu_busy_percent", "37\n".to_string()),
    ];
    if let Some(v) = vram_total {
        attrs.push(("mem_info_vram_total", v.to_string()));
    }
    let attrs: Vec<(&str, &str)> = attrs.iter().map(|(a, b)| (*a, b.as_str())).collect();
    let hwmon = dir(
        "/sys/class/drm/card0/device/hwmon/hwmon4",
        &[
            ("freq1_input", "2450000000"),
            ("power1_average", "215000000"),
            ("temp1_input", "70000"),
            ("temp1_label", "junction"),
            ("temp2_input", "55000"),
            ("temp2_label", "edge"),
        ],
    );
    cards(vec![entry("card0", &attrs, vec![hwmon])]).pop().expect("card")
}

#[test]
fn amd_card_readings() {
    let dedicated = amd_card(Some(17163091968));
    assert!(!dedicated.is_integrated());
    assert_eq!(card_vendor(&dedicated), Some(GpuVendor::AmdDiscrete));
    assert_eq!(dedicated.usage_percent(), Some(37));
    assert_eq!(dedicated.frequency_mhz(), Some(2450));
    assert_eq!(dedicated.power_microwatts(), Some(215000000));
    assert_eq!(dedicated.temperature_millicelsius(), Some(70000));
    assert_eq!(dedicated.vram_total_bytes(), Some(17163091968));
    assert_eq!(dedicated.hwmon(), Some("/sys/class/drm/card0/device/hwmon/hwmon4".to_string()));

    let apu = amd_card(Some(IGPU_VRAM_LIMIT_BYTES - 1));
    assert!(apu.is_integrated());
    assert_eq!(card_vendor(&apu), Some(GpuVendor::AmdIgpu));
    let no_vram = amd_card(None);
    assert!(no_vram.is_integrated());

    let readings = sysfs_gpus(&[apu, dedicated], None);
    assert_eq!(readings.len(), 2);
    // Dedicated AMD cards come first.
    assert_eq!(readings[0].vendor, GpuVendor::AmdDiscrete);
    assert_eq!(readings[0].vram_total_mb, Some(16368));
    assert_eq!(readings[0].vram_used_mb, Some(1024));
    assert_eq!(readings[0].shared_memory_mb, None);
    assert_eq!(readings[1].vendor, GpuVendor::AmdIgpu);
    assert_eq!(readings[1].vram_total_mb, None);
    assert_eq!(readings[1].shared_memory_mb, Some(8192));
}

#[test]
fn intel_chips() {
    let igpu = cards(vec![entry("card1", &[("vendor", "0x8086"), ("mem_info_gtt_total", "1048576")], vec![])])
        .pop()
        .expect("card");
    assert!(igpu.is_integrated());
    let arc = cards(vec![entry("card2", &[("vendor", "0x8086"), ("lmem_total_bytes", "8589934592")], vec![])])
        .pop()
        .expect("card");
    assert!(!arc.is_integrated());
    let readings = sysfs_gpus(&[arc, igpu], None);
    assert_eq!(readings[0].vendor, GpuVendor::IntelArc);
    assert_eq!(readings[0].vram_total_mb, Some(8192));
    assert_eq!(readings[0].usage_percent, None);
    assert_eq!(readings[1].vendor, GpuVendor::IntelIgpu);
    assert_eq!(readings[1].shared_memory_mb, Some(1));
    let nvidia = cards(vec![entry("card3", &[("vendor", "0x10de")], vec![])]).pop().expect("card");
    assert_eq!(card_vendor(&nvidia), None);
    assert!(!nvidia.is_integrated());
}
