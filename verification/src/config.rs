//! The farm's configuration, and what holds where a configuration file is silent.

use vstd::prelude::*;

use crate::text;

verus! {

/// How the farm presents itself.
#[derive(Debug, PartialEq, Eq)]
pub struct FarmConfig {
    pub name: String,
    pub logo_url: String,
    pub accent_color: String,
    pub tagline: String,
}

/// The tunnel for workers outside the local network.
#[derive(Debug, PartialEq, Eq)]
pub struct WireGuardConfig {
    pub enabled: bool,
    pub interface: String,
    pub server_endpoint: String,
    pub listen_port: u16,
    pub server_wg_ip: String,
    pub worker_ip_pool: String,
}

/// The configuration that the orchestrator runs with.
#[derive(Debug, PartialEq, Eq)]
pub struct Config {
    pub farm: FarmConfig,
    pub wireguard: WireGuardConfig,
}

/// What the table `[farm]` of a configuration file gives.
#[derive(Debug, PartialEq, Eq)]
pub struct FarmSection {
    pub name: Option<String>,
    pub logo_url: Option<String>,
    pub accent_color: Option<String>,
    pub tagline: Option<String>,
}

/// What the table `[wireguard]` of a configuration file gives.
#[derive(Debug, PartialEq, Eq)]
pub struct WireGuardSection {
    pub enabled: Option<bool>,
    pub interface: Option<String>,
    pub server_endpoint: Option<String>,
    pub listen_port: Option<u16>,
    pub server_wg_ip: Option<String>,
    pub worker_ip_pool: Option<String>,
}

/// What a configuration file gives.
#[derive(Debug, PartialEq, Eq)]
pub struct ConfigFile {
    pub farm: Option<FarmSection>,
    pub wireguard: Option<WireGuardSection>,
}

pub struct FarmConfigView {
    pub name: Seq<char>,
    pub logo_url: Seq<char>,
    pub accent_color: Seq<char>,
    pub tagline: Seq<char>,
}

pub struct WireGuardConfigView {
    pub enabled: bool,
    pub interface: Seq<char>,
    pub server_endpoint: Seq<char>,
    pub listen_port: u16,
    pub server_wg_ip: Seq<char>,
    pub worker_ip_pool: Seq<char>,
}

pub struct ConfigView {
    pub farm: FarmConfigView,
    pub wireguard: WireGuardConfigView,
}

impl View for FarmConfig {
    type V = FarmConfigView;

    open spec fn view(&self) -> FarmConfigView {
        FarmConfigView {
            name: self.name@,
            logo_url: self.logo_url@,
            accent_color: self.accent_color@,
            tagline: self.tagline@,
        }
    }
}

impl View for WireGuardConfig {
    type V = WireGuardConfigView;

    open spec fn view(&self) -> WireGuardConfigView {
        WireGuardConfigView {
            enabled: self.enabled,
            interface: self.interface@,
            server_endpoint: self.server_endpoint@,
            listen_port: self.listen_port,
            server_wg_ip: self.server_wg_ip@,
            worker_ip_pool: self.worker_ip_pool@,
        }
    }
}

impl View for Config {
    type V = ConfigView;

    open spec fn view(&self) -> ConfigView {
        ConfigView { farm: self.farm@, wireguard: self.wireguard@ }
    }
}

/// The name of a farm that has none.
pub fn default_farm_name() -> (r: String)
    ensures
        r@ == "SmechFarm"@,
{
    "SmechFarm".to_string()
}

/// The accent colour of a farm that has none.
pub fn default_accent() -> (r: String)
    ensures
        r@ == "#58a6ff"@,
{
    "#58a6ff".to_string()
}

/// The tagline of a farm that has none.
pub fn default_tagline() -> (r: String)
    ensures
        r@ == "Distributed Build Farm"@,
{
    "Distributed Build Farm".to_string()
}

/// The tunnel's interface where the file names none.
pub fn default_wg_iface() -> (r: String)
    ensures
        r@ == "wg0"@,
{
    "wg0".to_string()
}

/// The tunnel's port where the file names none.
pub fn default_wg_port() -> (r: u16)
    ensures
        r == 51820,
{
    51820
}

/// The orchestrator's address in the tunnel where the file names none.
pub fn default_wg_server_ip() -> (r: String)
    ensures
        r@ == "10.99.0.1/24"@,
{
    "10.99.0.1/24".to_string()
}

/// The workers' addresses in the tunnel where the file names none.
pub fn default_wg_pool() -> (r: String)
    ensures
        r@ == "10.99.0.0/24"@,
{
    "10.99.0.0/24".to_string()
}

/// The presentation of a farm without a table `[farm]`.
pub open spec fn farm_default() -> FarmConfigView {
    FarmConfigView {
        name: "SmechFarm"@,
        logo_url: Seq::empty(),
        accent_color: "#58a6ff"@,
        tagline: "Distributed Build Farm"@,
    }
}

/// The tunnel of a farm without a table `[wireguard]`: it is off, and nothing of it is set.
pub open spec fn wireguard_default() -> WireGuardConfigView {
    WireGuardConfigView {
        enabled: false,
        interface: Seq::empty(),
        server_endpoint: Seq::empty(),
        listen_port: 0,
        server_wg_ip: Seq::empty(),
        worker_ip_pool: Seq::empty(),
    }
}

impl Default for FarmConfig {
    fn default() -> (r: Self)
        ensures
            r@ == farm_default(),
    {
        FarmConfig {
            name: default_farm_name(),
            logo_url: String::new(),
            accent_color: default_accent(),
            tagline: default_tagline(),
        }
    }
}

impl Default for WireGuardConfig {
    fn default() -> (r: Self)
        ensures
            r@ == wireguard_default(),
    {
        WireGuardConfig {
            enabled: false,
            interface: String::new(),
            server_endpoint: String::new(),
            listen_port: 0,
            server_wg_ip: String::new(),
            worker_ip_pool: String::new(),
        }
    }
}

/// `value`, or `fallback` where there is none.
pub open spec fn text_or(value: Option<String>, fallback: Seq<char>) -> Seq<char> {
    match value {
        Some(v) => v@,
        None => fallback,
    }
}

/// What the table `[farm]` means: each key that it lacks has its own default.
pub open spec fn farm_of(s: FarmSection) -> FarmConfigView {
    FarmConfigView {
        name: text_or(s.name, "SmechFarm"@),
        logo_url: text_or(s.logo_url, Seq::empty()),
        accent_color: text_or(s.accent_color, "#58a6ff"@),
        tagline: text_or(s.tagline, "Distributed Build Farm"@),
    }
}

/// What the table `[wireguard]` means: each key that it lacks has its own default.
pub open spec fn wireguard_of(s: WireGuardSection) -> WireGuardConfigView {
    WireGuardConfigView {
        enabled: match s.enabled {
            Some(b) => b,
            None => false,
        },
        interface: text_or(s.interface, "wg0"@),
        server_endpoint: text_or(s.server_endpoint, Seq::empty()),
        listen_port: match s.listen_port {
            Some(p) => p,
            None => 51820,
        },
        server_wg_ip: text_or(s.server_wg_ip, "10.99.0.1/24"@),
        worker_ip_pool: text_or(s.worker_ip_pool, "10.99.0.0/24"@),
    }
}

/// What a configuration file means.
pub open spec fn config_of(f: ConfigFile) -> ConfigView {
    ConfigView {
        farm: match f.farm {
            Some(s) => farm_of(s),
            None => farm_default(),
        },
        wireguard: match f.wireguard {
            Some(s) => wireguard_of(s),
            None => wireguard_default(),
        },
    }
}

/// The configuration where there is no file.
pub open spec fn config_default() -> ConfigView {
    ConfigView { farm: farm_default(), wireguard: wireguard_default() }
}

/// The configuration that the files tried in turn give: the first that could be read and parsed
/// counts, and the defaults where none could.
pub open spec fn config_from(tried: Seq<Option<ConfigFile>>) -> ConfigView
    decreases tried.len(),
{
    if tried.len() == 0 {
        config_default()
    } else {
        match tried[0] {
            Some(f) => config_of(f),
            None => config_from(tried.drop_first()),
        }
    }
}

fn or_default(value: Option<String>, fallback: String) -> (r: String)
    ensures
        r@ == text_or(value, fallback@),
{
    match value {
        Some(v) => v,
        None => fallback,
    }
}

impl Config {
    /// What a configuration file means.
    pub fn from_file(f: ConfigFile) -> (r: Config)
        ensures
            r@ == config_of(f),
    {
        let farm = match f.farm {
            Some(s) => FarmConfig {
                name: or_default(s.name, default_farm_name()),
                logo_url: or_default(s.logo_url, String::new()),
                accent_color: or_default(s.accent_color, default_accent()),
                tagline: or_default(s.tagline, default_tagline()),
            },
            None => FarmConfig::default(),
        };
        let wireguard = match f.wireguard {
            Some(s) => WireGuardConfig {
                enabled: match s.enabled {
                    Some(b) => b,
                    None => false,
                },
                interface: or_default(s.interface, default_wg_iface()),
                server_endpoint: or_default(s.server_endpoint, String::new()),
                listen_port: match s.listen_port {
                    Some(p) => p,
                    None => default_wg_port(),
                },
                server_wg_ip: or_default(s.server_wg_ip, default_wg_server_ip()),
                worker_ip_pool: or_default(s.worker_ip_pool, default_wg_pool()),
            },
            None => WireGuardConfig::default(),
        };
        Config { farm, wireguard }
    }

    /// The configuration that the files tried in turn give, `None` for each that could not be
    /// read or parsed.
    pub fn load(tried: Vec<Option<ConfigFile>>) -> (r: Config)
        ensures
            r@ == config_from(tried@),
    {
        let ghost all = tried@;
        let mut rest = tried;
        while rest.len() > 0
            invariant
                all == tried@,
                config_from(rest@) == config_from(all),
            decreases rest@.len(),
        {
            let ghost was = rest@;
            let first = rest.remove(0);
            assert(rest@ =~= was.drop_first());
            match first {
                Some(f) => {
                    return Config::from_file(f);
                },
                None => {},
            }
        }
        Config { farm: FarmConfig::default(), wireguard: WireGuardConfig::default() }
    }
}

/// Whether workers may join through the tunnel.
pub fn wg_enabled(wg: &WireGuardConfig) -> (r: bool)
    ensures
        r == wg.enabled,
{
    wg.enabled
}

/// Where the private key of the interface `iface` lies.
pub open spec fn key_path(iface: Seq<char>) -> Seq<char> {
    "/etc/smech-farm/"@ + iface + ".key"@
}

/// Where the public key of the interface `iface` lies.
pub open spec fn pubkey_path(iface: Seq<char>) -> Seq<char> {
    "/etc/smech-farm/"@ + iface + ".pub"@
}

/// Where the orchestrator's private key lies.
pub fn wg_key_path(wg: &WireGuardConfig) -> (r: String)
    ensures
        r@ == key_path(wg.interface@),
{
    "/etc/smech-farm/".to_string().concat(wg.interface.as_str()).concat(".key")
}

/// Where the orchestrator's public key lies.
pub fn wg_pubkey_path(wg: &WireGuardConfig) -> (r: String)
    ensures
        r@ == pubkey_path(wg.interface@),
{
    "/etc/smech-farm/".to_string().concat(wg.interface.as_str()).concat(".pub")
}

/// The tunnel is off unless the first usable file turns it on: without a file, without a table
/// `[wireguard]`, and without the key `enabled` in it.
pub proof fn law_wireguard_off_by_default(tried: Seq<Option<ConfigFile>>)
    ensures
        config_from(tried).wireguard.enabled ==> exists|i: int|
            0 <= i < tried.len() && (#[trigger] tried[i] matches Some(f) && f.wireguard matches Some(s)
                && s.enabled == Some(true)) && (forall|j: int| 0 <= j < i ==> tried[j] is None),
    decreases tried.len(),
{
    if tried.len() > 0 {
        match tried[0] {
            Some(f) => {
                if config_of(f).wireguard.enabled {
                    assert(tried[0] matches Some(f) && f.wireguard matches Some(s) && s.enabled
                        == Some(true));
                }
            },
            None => {
                let rest = tried.drop_first();
                law_wireguard_off_by_default(rest);
                if config_from(rest).wireguard.enabled {
                    let k = choose|i: int|
                        0 <= i < rest.len() && (#[trigger] rest[i] matches Some(f)
                            && f.wireguard matches Some(s) && s.enabled == Some(true)) && (forall|j: int|
                            0 <= j < i ==> rest[j] is None);
                    assert(tried[k + 1] == rest[k]);
                    assert forall|j: int| 0 <= j < k + 1 implies tried[j] is None by {
                        if j > 0 {
                            assert(tried[j] == rest[j - 1]);
                        }
                    }
                }
            },
        }
    }
}

/// What the file gives of the farm stands, and only what it leaves out is made up.
pub proof fn law_farm_settings(f: ConfigFile)
    ensures
        ({
            let c = config_of(f).farm;
            match f.farm {
                Some(s) => {
                    &&& s.name matches Some(v) ==> c.name == v@
                    &&& s.name is None ==> c.name == "SmechFarm"@
                    &&& s.logo_url matches Some(v) ==> c.logo_url == v@
                    &&& s.logo_url is None ==> c.logo_url.len() == 0
                    &&& s.accent_color matches Some(v) ==> c.accent_color == v@
                    &&& s.accent_color is None ==> c.accent_color == "#58a6ff"@
                    &&& s.tagline matches Some(v) ==> c.tagline == v@
                    &&& s.tagline is None ==> c.tagline == "Distributed Build Farm"@
                },
                None => {
                    &&& c.name == "SmechFarm"@
                    &&& c.logo_url.len() == 0
                    &&& c.accent_color == "#58a6ff"@
                    &&& c.tagline == "Distributed Build Farm"@
                },
            }
        }),
{
}

/// What the file gives of the tunnel stands; what its section leaves out has a default of its own;
/// and without the section there is no tunnel.
pub proof fn law_tunnel_settings(f: ConfigFile)
    ensures
        ({
            let c = config_of(f).wireguard;
            match f.wireguard {
                Some(s) => {
                    &&& s.enabled matches Some(v) ==> c.enabled == v
                    &&& s.enabled is None ==> !c.enabled
                    &&& s.interface matches Some(v) ==> c.interface == v@
                    &&& s.interface is None ==> c.interface == "wg0"@
                    &&& s.server_endpoint matches Some(v) ==> c.server_endpoint == v@
                    &&& s.server_endpoint is None ==> c.server_endpoint.len() == 0
                    &&& s.listen_port matches Some(v) ==> c.listen_port == v
                    &&& s.listen_port is None ==> c.listen_port == 51820
                    &&& s.server_wg_ip matches Some(v) ==> c.server_wg_ip == v@
                    &&& s.server_wg_ip is None ==> c.server_wg_ip == "10.99.0.1/24"@
                    &&& s.worker_ip_pool matches Some(v) ==> c.worker_ip_pool == v@
                    &&& s.worker_ip_pool is None ==> c.worker_ip_pool == "10.99.0.0/24"@
                },
                None => {
                    &&& !c.enabled
                    &&& c.interface.len() == 0
                    &&& c.server_endpoint.len() == 0
                    &&& c.listen_port == 0
                    &&& c.server_wg_ip.len() == 0
                    &&& c.worker_ip_pool.len() == 0
                },
            }
        }),
{
}

/// The first file that could be read decides alone; where there is none, the settings are those of
/// a file that gives nothing.
pub proof fn law_first_file_decides(tried: Seq<Option<ConfigFile>>, i: int)
    requires
        0 <= i <= tried.len(),
        forall|j: int| 0 <= j < i ==> #[trigger] tried[j] is None,
    ensures
        i < tried.len() ==> (tried[i] matches Some(f) ==> config_from(tried) == config_of(f)),
        i == tried.len() ==> config_from(tried) == config_of(
            (ConfigFile { farm: None, wireguard: None }),
        ),
    decreases i,
{
    if i > 0 {
        assert(tried[0] is None);
        assert forall|j: int| 0 <= j < i - 1 implies #[trigger] tried.drop_first()[j] is None by {
            assert(tried.drop_first()[j] == tried[j + 1]);
        }
        law_first_file_decides(tried.drop_first(), i - 1);
    }
}

/// The keys of an interface stand in files that are named after it; no two interfaces share one,
/// and the secret key and the public key never stand in one file.
pub proof fn law_key_files(a: Seq<char>, b: Seq<char>)
    ensures
        key_path(a) == "/etc/smech-farm/"@ + a + ".key"@,
        pubkey_path(a) == "/etc/smech-farm/"@ + a + ".pub"@,
        key_path(a) == key_path(b) ==> a == b,
        pubkey_path(a) == pubkey_path(b) ==> a == b,
        key_path(a) != pubkey_path(b),
{
    if key_path(a) == key_path(b) {
        text::lemma_same_middle("/etc/smech-farm/"@, a, b, ".key"@);
    }
    if pubkey_path(a) == pubkey_path(b) {
        text::lemma_same_middle("/etc/smech-farm/"@, a, b, ".pub"@);
    }
    reveal_strlit(".key");
    reveal_strlit(".pub");
    assert(key_path(a).last() == 'y');
    assert(pubkey_path(b).last() == 'b');
}

/// What the settings say of each thing is what their own field holds.
pub proof fn law_settings_say(c: Config)
    ensures
        c@.farm.name == c.farm.name@,
        c@.farm.logo_url == c.farm.logo_url@,
        c@.farm.accent_color == c.farm.accent_color@,
        c@.farm.tagline == c.farm.tagline@,
        c@.wireguard.enabled == c.wireguard.enabled,
        c@.wireguard.interface == c.wireguard.interface@,
        c@.wireguard.server_endpoint == c.wireguard.server_endpoint@,
        c@.wireguard.listen_port == c.wireguard.listen_port,
        c@.wireguard.server_wg_ip == c.wireguard.server_wg_ip@,
        c@.wireguard.worker_ip_pool == c.wireguard.worker_ip_pool@,
{
}

} // verus!
