use smech_farm::config::{
    default_accent, default_farm_name, default_tagline, default_wg_iface, default_wg_pool,
    default_wg_port, default_wg_server_ip, wg_enabled, wg_key_path, wg_pubkey_path, Config,
    ConfigFile, FarmSection, WireGuardSection,
};

fn empty_wireguard() -> WireGuardSection {
    WireGuardSection {
        enabled: None,
        interface: None,
        server_endpoint: None,
        listen_port: None,
        server_wg_ip: None,
        worker_ip_pool: None,
    }
}

#[test]
fn the_defaults() {
    assert_eq!(default_farm_name(), "SmechFarm");
    assert_eq!(default_accent(), "#58a6ff");
    assert_eq!(default_tagline(), "Distributed Build Farm");
    assert_eq!(default_wg_iface(), "wg0");
    assert_eq!(default_wg_port(), 51820);
    assert_eq!(default_wg_server_ip(), "10.99.0.1/24");
    assert_eq!(default_wg_pool(), "10.99.0.0/24");
}

#[test]
fn no_file_means_defaults_and_no_tunnel() {
    let cfg = Config::load(vec![None, None]);
    assert_eq!(cfg.farm.name, "SmechFarm");
    assert_eq!(cfg.farm.logo_url, "");
    assert!(!wg_enabled(&cfg.wireguard));
    assert_eq!(cfg.wireguard.listen_port, 0);
    assert_eq!(cfg.wireguard.interface, "");
}

#[test]
fn the_first_file_that_could_be_read_counts() {
    let named = |name: &str| {
        Some(ConfigFile {
            farm: Some(FarmSection {
                name: Some(name.to_string()),
                logo_url: None,
                accent_color: None,
                tagline: None,
            }),
            wireguard: None,
        })
    };
    let cfg = Config::load(vec![None, named("one"), named("two")]);
    assert_eq!(cfg.farm.name, "one");
    assert_eq!(cfg.farm.accent_color, "#58a6ff");
    assert_eq!(cfg.farm.tagline, "Distributed Build Farm");
}

#[test]
fn a_tunnel_table_fills_in_what_it_lacks() {
    let mut section = empty_wireguard();
    section.enabled = Some(true);
    section.server_endpoint = Some("203.0.113.7:51820".to_string());
    let cfg = Config::load(vec![Some(ConfigFile { farm: None, wireguard: Some(section) })]);
    assert!(wg_enabled(&cfg.wireguard));
    assert_eq!(cfg.wireguard.interface, "wg0");
    assert_eq!(cfg.wireguard.listen_port, 51820);
    assert_eq!(cfg.wireguard.server_wg_ip, "10.99.0.1/24");
    assert_eq!(cfg.wireguard.worker_ip_pool, "10.99.0.0/24");
    assert_eq!(wg_key_path(&cfg.wireguard), "/etc/smech-farm/wg0.key");
    assert_eq!(wg_pubkey_path(&cfg.wireguard), "/etc/smech-farm/wg0.pub");
}

#[test]
fn a_tunnel_table_alone_leaves_the_tunnel_off() {
    let file = ConfigFile { farm: None, wireguard: Some(empty_wireguard()) };
    assert!(!Config::from_file(file).wireguard.enabled);
}
