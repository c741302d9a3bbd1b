use mondashboard::battery::BatteryState;
use mondashboard::config::chemin_config;
use mondashboard::disk::{DiskKind, SmartHealth};
use mondashboard::display::{
    autonomie, decimal_string, duree, etiquette_etat, etiquette_sante, etiquette_type,
    etiquette_vendeur, identite,
};
use mondashboard::gpu::GpuVendor;
use mondashboard::network::ping_latency_text;
use mondashboard::config::{
    default_active_layout, default_ping_host, geometrie_retenue, WindowConfig, CONFIG_VERSION,
    DEFAULT_REFRESH_INTERVAL_SECS,
};
use mondashboard::tray::{
    action_fenetre, icone_depuis_decodage, icone_embarquee, rgba_to_argb, ActionFenetre, Demandes,
};

fn png_bytes(width: u32, height: u32, color: png::ColorType, data: &[u8]) -> Vec<u8> {
    let mut out = Vec::new();
    {
        let mut encoder = png::Encoder::new(&mut out, width, height);
        encoder.set_color(color);
        encoder.set_depth(png::BitDepth::Eight);
        let mut writer = encoder.write_header().expect("header");
        writer.write_image_data(data).expect("data");
    }
    out
}

#[test]
fn icon_from_rgba_png() {
    let bytes = png_bytes(1, 2, png::ColorType::Rgba, &[1, 2, 3, 4, 5, 6, 7, 8]);
    let icon = icone_embarquee(&bytes).expect("icon");
    assert_eq!((icon.width, icon.height), (1, 2));
    assert_eq!(icon.data, vec![4, 1, 2, 3, 8, 5, 6, 7]);
}

#[test]
fn icon_refuses_other_formats() {
    let rgb = png_bytes(1, 1, png::ColorType::Rgb, &[9, 9, 9]);
    assert!(icone_embarquee(&rgb).is_none());
    assert!(icone_embarquee(b"not a png").is_none());
}

#[test]
fn argb_drops_incomplete_pixel() {
    assert_eq!(rgba_to_argb(&[10, 20, 30, 40, 50]), vec![40, 10, 20, 30]);
}

#[test]
fn requests_are_taken_once() {
    let demandes = Demandes::new();
    assert!(!demandes.prendre_basculer());
    demandes.demander_basculer();
    assert!(demandes.prendre_basculer());
    assert!(!demandes.prendre_basculer());
    demandes.demander_quitter();
    assert!(demandes.prendre_quitter());
    assert!(!demandes.prendre_quitter());
}

#[test]
fn lecture_du_ping() {
    let sortie = "64 bytes from 1.1.1.1: icmp_seq=1 ttl=56 time=4.76 ms";
    assert_eq!(ping_latency_text(sortie), Some("4.76".to_string()));
    assert_eq!(ping_latency_text("64 octets de 1.1.1.1 : temps=4.76 ms"), None);
    assert_eq!(ping_latency_text(""), None);
    assert_eq!(ping_latency_text("time=   "), None);
    assert_eq!(ping_latency_text("x time=12\ny time=3"), Some("12".to_string()));
}

#[test]
fn configuration_path() {
    assert_eq!(
        chemin_config(Some("/home/u/.var/app/x/config"), Some("/home/u"), true),
        Some("/home/u/.var/app/x/config/config.json".to_string())
    );
    assert_eq!(
        chemin_config(None, Some("/home/u"), false),
        Some("/home/u/.config/mondashboard/config.json".to_string())
    );
    assert_eq!(chemin_config(Some("/cfg/"), None, false), Some("/cfg/mondashboard/config.json".to_string()));
    assert_eq!(chemin_config(None, None, false), None);
}

#[test]
fn durations_and_labels() {
    assert_eq!(decimal_string(0), "0");
    assert_eq!(decimal_string(4096), "4096");
    assert_eq!(decimal_string(u32::MAX), u32::MAX.to_string());
    assert_eq!(duree(45), "45 min");
    assert_eq!(duree(125), "2 h 05");
    assert_eq!(duree(600), "10 h 00");
    assert_eq!(autonomie(Some(90), Some(10)), "1 h 30 restantes");
    assert_eq!(autonomie(None, Some(10)), "10 min avant charge complète");
    assert_eq!(autonomie(None, None), "—");
    assert_eq!(etiquette_vendeur(GpuVendor::AmdIgpu), "AMD intégré");
    assert_eq!(etiquette_type(DiskKind::Hdd), "disque dur");
    assert_eq!(etiquette_sante(SmartHealth::Unavailable), "SMART indisponible");
    assert_eq!(etiquette_etat(BatteryState::Full), "chargée");
    assert_eq!(etiquette_etat(BatteryState::Unknown), "—");
}

#[test]
fn battery_identity_line() {
    assert_eq!(
        identite(&Some("SMP".to_string()), &Some("5B10W13930".to_string()), &Some("Li-ion".to_string())),
        "SMP · 5B10W13930 · Li-ion"
    );
    assert_eq!(identite(&None, &Some(String::new()), &Some("Li-ion".to_string())), "Li-ion");
    assert_eq!(identite(&None, &None, &None), "—");
}

#[test]
fn reponse_aux_demandes_de_l_icone() {
    assert_eq!(action_fenetre(true, true, true), ActionFenetre::Quitter);
    assert_eq!(action_fenetre(true, false, false), ActionFenetre::Quitter);
    assert_eq!(action_fenetre(false, true, true), ActionFenetre::Masquer);
    assert_eq!(action_fenetre(false, true, false), ActionFenetre::Afficher);
    assert_eq!(action_fenetre(false, false, true), ActionFenetre::Rien);
}

#[test]
fn geometrie_a_retenir() {
    let actuelle = WindowConfig { width: 1180, height: 800 };
    assert_eq!(geometrie_retenue(actuelle, 1180, 800), None);
    assert_eq!(geometrie_retenue(actuelle, 0, 800), None);
    assert_eq!(geometrie_retenue(actuelle, 900, -1), None);
    assert_eq!(geometrie_retenue(actuelle, 900, 700), Some(WindowConfig { width: 900, height: 700 }));
}

#[test]
fn valeurs_par_defaut_de_la_configuration() {
    assert_eq!(default_ping_host(), "1.1.1.1");
    assert_eq!(DEFAULT_REFRESH_INTERVAL_SECS, 2);
    assert_eq!(CONFIG_VERSION, 1);
    assert_eq!(default_active_layout(), "Default");
}

#[test]
fn icone_depuis_une_image_decodee() {
    let rgba = icone_depuis_decodage(Some((1, 2, 6, 8, vec![1, 2, 3, 4, 5, 6, 7, 8]))).expect("RGBA");
    assert_eq!((rgba.width, rgba.height), (1, 2));
    assert_eq!(rgba.data, vec![4, 1, 2, 3, 8, 5, 6, 7]);
    // RGB without alpha (colour type 2), or 16-bit RGBA: no icon.
    assert!(icone_depuis_decodage(Some((1, 1, 2, 8, vec![1, 2, 3]))).is_none());
    assert!(icone_depuis_decodage(Some((1, 1, 6, 16, vec![0; 8]))).is_none());
    assert!(icone_depuis_decodage(None).is_none());
}
