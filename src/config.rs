//! Settings handed to each component once at startup.

use vstd::prelude::*;

verus! {

/// All settings of one installation.
pub struct Config {
    pub server: ServerConfig,
    pub client: ClientConfig,
    pub auth: AuthConfig,
    pub history: HistoryConfig,
    pub general: GeneralConfig,
}

/// Where and how the local server listens.
pub struct ServerConfig {
    pub enabled: bool,
    pub port: u16,
    pub host: String,
    pub wevdav_enabled: bool,
    pub tls: Option<TlsConfig>,
}

/// The remote store that the sync client talks to.
pub struct ClientConfig {
    pub enabled: bool,
    pub remote_host: String,
    pub remote_port: u16,
}

/// Certificate and key files for HTTPS.
pub struct TlsConfig {
    pub cert: String,
    pub key: String,
}

/// Identity of this installation.
pub struct GeneralConfig {
    pub device_name: String,
    pub device_id: String,
}

/// Credentials: the bearer token and the end-to-end encryption password.
pub struct AuthConfig {
    pub username: Option<String>,
    pub password: Option<String>,
    pub token: Option<String>,
    pub encrypt_password: Option<String>,
}

/// History retention settings.
pub struct HistoryConfig {
    pub max_count: u32,
    pub log_retention_days: u64,
    pub db_path: String,
}

/// Port of the server and of the remote store when the settings name none.
pub const DEFAULT_PORT: u16 = 5033;

impl Config {
    /// The settings before any file or environment overrides them. The device
    /// is named after the host (`Desktop` when unknown) and identified by
    /// `device_id`.
    pub fn defaults(host_name: Option<String>, device_id: String) -> (r: Config)
        ensures
            r.server.enabled && r.server.port == DEFAULT_PORT && r.server.host@ == "0.0.0.0"@,
            !r.server.wevdav_enabled && r.server.tls is None,
            r.client.enabled && r.client.remote_host@ == "127.0.0.1"@ && r.client.remote_port == DEFAULT_PORT,
            r.general.device_name@ == (match host_name { Some(h) => h@, None => "Desktop"@ }),
            r.general.device_id == device_id,
            r.auth.username is None && r.auth.password is None,
            r.auth.token is None && r.auth.encrypt_password is None,
            r.history.max_count == 100 && r.history.log_retention_days == 7,
            r.history.db_path@ == "history.db"@,
    {
        let name = match host_name {
            Some(h) => h,
            None => "Desktop".to_owned(),
        };
        Config {
            server: ServerConfig {
                enabled: true,
                port: DEFAULT_PORT,
                host: "0.0.0.0".to_owned(),
                wevdav_enabled: false,
                tls: None,
            },
            client: ClientConfig { enabled: true, remote_host: "127.0.0.1".to_owned(), remote_port: DEFAULT_PORT },
            auth: AuthConfig { username: None, password: None, token: None, encrypt_password: None },
            history: HistoryConfig { max_count: 100, log_retention_days: 7, db_path: default_db_path() },
            general: GeneralConfig { device_name: name, device_id },
        }
    }
}

/// The history database file used when the settings name none.
pub fn default_db_path() -> (r: String)
    ensures
        r@ == "history.db"@,
{
    "history.db".to_owned()
}

/// The settings file, relative to the working directory.
pub fn get_config_path() -> (r: String)
    ensures
        r@ == "config.toml"@,
{
    "config.toml".to_owned()
}

} // verus!
