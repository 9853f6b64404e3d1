use smech_farm::config::FarmConfig;
use smech_farm::webui::webui_html;

#[test]
fn the_page_shows_the_farm() {
    let mut cfg = FarmConfig::default();
    cfg.name = "My Farm".to_string();
    cfg.accent_color = "#123456".to_string();
    cfg.tagline = "Builds".to_string();
    let page = webui_html(&cfg, false);
    assert!(page.starts_with("<!DOCTYPE html>\n<html lang=\"en\">\n<head>\n"));
    assert!(page.contains("<title>My Farm Dashboard</title>"));
    assert_eq!(page.matches("#123456").count(), 2);
    assert!(page.contains("  --accent: #123456; --font: 'SF Mono','Fira Code',monospace;\n}\n"));
    assert!(page.contains("<span class=\"logo-icon\">&#9881;</span> <span class=\"logo-text\">My Farm</span>"));
    assert!(page.contains("<span class=\"tagline\">Builds</span>"));
    assert!(page.contains("<span class=\"ver\">v2.0.0 &nbsp;"));
    assert!(page.contains("return `<span class=\"badge ${cls}\">${s}</span>`;\n};"));
    assert!(page.ends_with("load();\nsetInterval(load, 10000);\n</script>\n</body>\n</html>"));
    assert!(!page.contains("{{") && !page.contains("}}"));
}

#[test]
fn a_logo_takes_the_place_of_the_cog() {
    let mut cfg = FarmConfig::default();
    cfg.logo_url = "/l.png".to_string();
    let page = webui_html(&cfg, false);
    assert!(page.contains("<img src=\"/l.png\" alt=\"SmechFarm\" class=\"logo-img\"> <span class=\"logo-text\">SmechFarm</span>"));
    assert!(!page.contains("logo-icon\">"));
}

#[test]
fn peers_are_on_the_page_where_the_tunnel_is_on() {
    let cfg = FarmConfig::default();
    let on = webui_html(&cfg, true);
    let off = webui_html(&cfg, false);
    assert!(on.contains("<h2>WireGuard Peers</h2>"));
    assert!(on.contains("fetch('/api/wg/peers')"));
    assert!(!off.contains("WireGuard"));
    assert!(!off.contains("wg-body"));
}
