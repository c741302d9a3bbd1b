use mondashboard::disk::grouper;
use mondashboard::display::{
    format_debit, format_mo, format_octets, texte_adresse, texte_debits, texte_frequence,
    texte_memoire_gpu, texte_mhz, texte_modele_cpu, texte_rpm, texte_swap, texte_titre_gpu,
};
use mondashboard::gpu::GpuVendor;

#[test]
fn unites_de_debit() {
    assert_eq!(format_debit(512), "512 o/s");
    assert_eq!(format_debit(2048), "2 ko/s");
    assert_eq!(format_debit(5 * 1024 * 1024), "5.0 Mo/s");
}

#[test]
fn debit_aux_seuils() {
    assert_eq!(format_debit(0), "0 o/s");
    assert_eq!(format_debit(1023), "1023 o/s");
    assert_eq!(format_debit(1024), "1 ko/s");
    assert_eq!(format_debit(1024 * 1024 - 1), "1024 ko/s");
    assert_eq!(format_debit(1024 * 1024), "1.0 Mo/s");
    // 2.5 ko/s: a tie goes to the even neighbour, as format! does.
    assert_eq!(format_debit(2560), "2 ko/s");
    assert_eq!(format_debit(3584), "4 ko/s");
}

#[test]
fn megaoctets_lisibles() {
    assert_eq!(format_mo(0), "0 Mo");
    assert_eq!(format_mo(512), "512 Mo");
    assert_eq!(format_mo(1023), "1023 Mo");
    assert_eq!(format_mo(1024), "1.0 Go");
    assert_eq!(format_mo(16_000), "15.6 Go");
    assert_eq!(format_mo(u64::MAX), "18014398509481984.0 Go");
}

#[test]
fn volumes_lisibles() {
    assert_eq!(format_octets(0), "0 Mo");
    assert_eq!(format_octets(3 * 1024 * 1024), "3 Mo");
    // 1.5 and 2.5 Mo: ties go to the even neighbour.
    assert_eq!(format_octets(1_572_864), "2 Mo");
    assert_eq!(format_octets(2_621_440), "2 Mo");
    assert_eq!(format_octets(1024 * 1024 * 1024), "1.0 Go");
    assert_eq!(format_octets(5 * 1024 * 1024 * 1024 + 512 * 1024 * 1024), "5.5 Go");
}

/// The integer formatting agrees with writing the floating-point quotient,
/// ties included, over every value where the quotient is exact.
#[test]
fn accord_avec_format_flottant() {
    let mut values: Vec<u64> = (0..5000u64).collect();
    for k in 0..4000u64 {
        values.push(k * 256);
        values.push(k * 104_857 + 7);
        values.push(k * 52_428 + 3);
        values.push(k * 262_144);
    }
    for n in values {
        let debit = if n as f64 >= 1024.0 * 1024.0 {
            format!("{:.1} Mo/s", n as f64 / (1024.0 * 1024.0))
        } else if n as f64 >= 1024.0 {
            format!("{:.0} ko/s", n as f64 / 1024.0)
        } else {
            format!("{n} o/s")
        };
        assert_eq!(format_debit(n), debit, "débit {n}");
        let mo = if n >= 1024 { format!("{:.1} Go", n as f64 / 1024.0) } else { format!("{n} Mo") };
        assert_eq!(format_mo(n), mo, "Mo {n}");
        let go = 1024.0 * 1024.0 * 1024.0;
        let octets = if n as f64 >= go {
            format!("{:.1} Go", n as f64 / go)
        } else {
            format!("{:.0} Mo", n as f64 / (1024.0 * 1024.0))
        };
        assert_eq!(format_octets(n), octets, "octets {n}");
        let grand = n * 1024 * 1024;
        let octets_grands = if grand as f64 >= go {
            format!("{:.1} Go", grand as f64 / go)
        } else {
            format!("{:.0} Mo", grand as f64 / (1024.0 * 1024.0))
        };
        assert_eq!(format_octets(grand), octets_grands, "octets {grand}");
    }
}

#[test]
fn volumes_regroupes_par_disque() {
    let disques: Vec<String> =
        ["sda", "sda", "nvme0n1", "sda", "nvme0n1", "sdb"].iter().map(|d| d.to_string()).collect();
    let groupes = grouper(&disques);
    assert_eq!(
        groupes,
        vec![
            ("sda".to_string(), vec![0, 1, 3]),
            ("nvme0n1".to_string(), vec![2, 4]),
            ("sdb".to_string(), vec![5]),
        ]
    );
    assert!(grouper(&[]).is_empty());
}

#[test]
fn deux_ecritures_d_un_volume() {
    for mo in [0u64, 1, 512, 1023, 1024, 1536, 1587, 16_000, 1 << 30] {
        assert_eq!(format_octets(mo * 1024 * 1024), format_mo(mo));
    }
}

#[test]
fn textes_des_widgets() {
    assert_eq!(texte_frequence(3400, 0), "3400 MHz");
    assert_eq!(texte_frequence(3400, 5100), "3400 MHz / 5100 MHz");
    assert_eq!(texte_modele_cpu("AMD Ryzen 7 7800X3D", 8, 16), "AMD Ryzen 7 7800X3D — 8 cœurs / 16 threads");
    assert_eq!(texte_swap(0, 0), "aucun");
    assert_eq!(texte_swap(512, 8192), "512 Mo / 8.0 Go");
    assert_eq!(texte_debits(512, 5 * 1024 * 1024), "↓ 512 o/s   ↑ 5.0 Mo/s");
    assert_eq!(texte_adresse(&Some("192.168.1.12".to_string())), "192.168.1.12");
    assert_eq!(texte_adresse(&None), "non connectée");
    assert_eq!(texte_titre_gpu(GpuVendor::AmdIgpu, "Radeon 780M"), "AMD intégré — Radeon 780M");
    assert_eq!(texte_memoire_gpu(Some(2048), Some(16384), None), "2.0 Go / 16.0 Go");
    assert_eq!(texte_memoire_gpu(None, None, Some(15_872)), "15.5 Go partagés");
    assert_eq!(texte_memoire_gpu(Some(3), None, None), "—");
    assert_eq!(texte_mhz(Some(2475)), "2475 MHz");
    assert_eq!(texte_mhz(None), "—");
    assert_eq!(texte_rpm(0), "0 tr/min");
    assert_eq!(texte_rpm(1250), "1250 tr/min");
}
