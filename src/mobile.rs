//! What the mobile bindings hand to the app.

use crate::clipboard::ClipboardData;
use crate::config::{AuthConfig, ClientConfig, Config, GeneralConfig, HistoryConfig, ServerConfig};
use vstd::prelude::*;

verus! {

/// A downloaded entry as the mobile app shows it.
pub struct MobileClipboardData {
    pub content: String,
    pub html: Option<String>,
    pub is_file: bool,
}

/// An error surfaced to the mobile app.
pub enum MobileError {
    General(String),
}

impl MobileError {
    /// Wraps the message of an underlying error.
    pub fn from_message(message: String) -> (r: MobileError)
        ensures
            r == MobileError::General(message),
    {
        MobileError::General(message)
    }
}

/// What the mobile app receives for a downloaded entry: text with its HTML,
/// a notice for a file, and nothing for an image (not supported yet).
pub fn mobile_view(data: ClipboardData) -> (r: Option<MobileClipboardData>)
    ensures
        match data {
            ClipboardData::Text { content, html, .. } => r == Some(MobileClipboardData { content, html, is_file: false }),
            ClipboardData::Image { .. } => r is None,
            ClipboardData::File { .. } => (r matches Some(m) && m.is_file && m.html is None
                && m.content@ == "File received (not supported in mobile lib yet)"@),
        },
{
    match data {
        ClipboardData::Text { content, html, .. } => Some(MobileClipboardData { content, html, is_file: false }),
        ClipboardData::Image { .. } => None,
        ClipboardData::File { .. } => Some(MobileClipboardData {
            content: "File received (not supported in mobile lib yet)".to_owned(),
            html: None,
            is_file: true,
        }),
    }
}

/// An empty string stands for "not set".
pub open spec fn non_empty(s: String) -> Option<String> {
    if s@.len() == 0 { None } else { Some(s) }
}

/// The settings of a mobile client that syncs with `server_url:server_port`;
/// an empty token or password means none.
pub fn mobile_config(server_url: String, server_port: u16, token: String, encrypt_password: String, device_id: String) -> (r: Config)
    ensures
        r.client.enabled && r.client.remote_host == server_url && r.client.remote_port == server_port,
        r.server.host == server_url && r.server.port == server_port && !r.server.wevdav_enabled && r.server.tls is None,
        r.auth.token == non_empty(token),
        r.auth.encrypt_password == non_empty(encrypt_password),
        r.auth.username is None && r.auth.password is None,
        r.history.max_count == 100 && r.history.log_retention_days == 7,
        r.history.db_path@ == "mobile_history.db"@,
        r.general.device_name@ == "Mobile"@,
        r.general.device_id == device_id,
{
    let token = if token.unicode_len() == 0 { None } else { Some(token) };
    let pw = if encrypt_password.unicode_len() == 0 { None } else { Some(encrypt_password) };
    Config {
        server: ServerConfig { host: server_url.clone(), port: server_port, wevdav_enabled: false, tls: None, enabled: true },
        client: ClientConfig { enabled: true, remote_host: server_url, remote_port: server_port },
        auth: AuthConfig { username: None, password: None, token, encrypt_password: pw },
        history: HistoryConfig { max_count: 100, log_retention_days: 7, db_path: "mobile_history.db".to_owned() },
        general: GeneralConfig { device_name: "Mobile".to_owned(), device_id },
    }
}

} // verus!
