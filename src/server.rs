//! The HTTP layer's decisions: bearer-token checks, the long-poll protocol,
//! and the shapes that the history endpoints return.

use crate::clipboard::{copy_opt, ClipboardData};
use crate::store::HistoryRecord;
use vstd::prelude::*;

verus! {

/// Status of a GET on an empty store.
pub const STATUS_NOT_FOUND: u16 = 404;

/// Page size of the history list when the query names none.
pub const DEFAULT_HISTORY_LIMIT: u32 = 50;

/// A request passes when no token is configured, or when its header is
/// `Bearer ` followed by exactly the token.
pub open spec fn authorized(token: Option<Seq<char>>, header: Option<Seq<char>>) -> bool {
    match token {
        None => true,
        Some(t) => match header {
            None => false,
            Some(h) => h.len() >= 7 && h.subrange(0, 7) == "Bearer "@ && h.subrange(7, h.len() as int) == t,
        },
    }
}

/// Checks the `Authorization` header (`None` when absent or not text)
/// against the configured token.
pub fn check_auth(token: Option<&str>, header: Option<&str>) -> (r: bool)
    ensures
        r == authorized(
            match token { Some(t) => Some(t@), None => None },
            match header { Some(h) => Some(h@), None => None },
        ),
{
    let t = match token {
        None => return true,
        Some(t) => t,
    };
    let h = match header {
        None => return false,
        Some(h) => h,
    };
    let n = h.unicode_len();
    if n < 7 {
        return false;
    }
    let scheme = h.substring_char(0, 7).to_owned();
    let bearer = "Bearer ".to_owned();
    if scheme != bearer {
        return false;
    }
    let rest = h.substring_char(7, n).to_owned();
    let expected = t.to_owned();
    rest == expected
}

/// What a GET of the clipboard does next.
pub enum PollStep {
    /// Answer now.
    Respond,
    /// Hold the request until a save is announced or this many seconds pass,
    /// then answer.
    Wait(u64),
}

/// The query of a GET of the clipboard.
pub struct PollQuery {
    pub wait: Option<u64>,
    pub last_id: Option<i64>,
}

/// The client waits only when it asked to (`wait > 0`) and already holds the
/// latest id (an empty store counts as id 0; a missing `last_id` as -1).
pub open spec fn should_wait(query: PollQuery, latest_id: Option<i64>) -> bool {
    let wait: int = match query.wait { Some(w) => w as int, None => 0 };
    let latest: int = match latest_id { Some(i) => i as int, None => 0 };
    let last: int = match query.last_id { Some(i) => i as int, None => -1 };
    wait > 0 && latest == last
}

/// Decides whether a GET answers at once or waits for the next save.
pub fn poll_step(query: &PollQuery, latest_id: Option<i64>) -> (r: PollStep)
    ensures
        should_wait(*query, latest_id) ==> r == PollStep::Wait(query.wait->0),
        !should_wait(*query, latest_id) ==> r is Respond,
{
    let wait: u64 = match query.wait { Some(w) => w, None => 0 };
    let latest: i64 = match latest_id { Some(i) => i, None => 0 };
    let last: i64 = match query.last_id { Some(i) => i, None => -1 };
    if wait > 0 && latest == last {
        PollStep::Wait(wait)
    } else {
        PollStep::Respond
    }
}

/// The answer to a GET: the latest entry with its id (0 when unknown), or
/// `STATUS_NOT_FOUND` on an empty store.
pub fn poll_response(latest: Option<ClipboardData>, latest_id: Option<i64>) -> (r: Result<(i64, ClipboardData), u16>)
    ensures
        latest is None ==> r == Err::<(i64, ClipboardData), u16>(STATUS_NOT_FOUND),
        latest matches Some(d) ==> r == Ok::<(i64, ClipboardData), u16>((
            match latest_id { Some(i) => i, None => 0 },
            d,
        )),
{
    match latest {
        None => Err(STATUS_NOT_FOUND),
        Some(d) => {
            let id: i64 = match latest_id { Some(i) => i, None => 0 };
            Ok((id, d))
        },
    }
}

/// One row of the history list, as the history endpoint shows it.
pub struct HistoryItem {
    pub id: i64,
    pub kind: String,
    pub content: Option<String>,
    pub file: Option<String>,
    pub hash: Option<String>,
    pub html: Option<String>,
    pub device: Option<String>,
    pub timestamp: String,
    pub pinned: bool,
}

impl HistoryItem {
    /// The row for a stored record: text entries fill content, HTML and
    /// file; images and files fill hash and file.
    pub fn from_record(rec: &HistoryRecord) -> (r: HistoryItem)
        ensures
            r.id == rec.id,
            r.pinned == rec.pinned,
            r.timestamp == rec.timestamp,
            match rec.data {
                ClipboardData::Text { content, html, file, device } => r.kind@ == "Text"@
                    && r.content == Some(content) && r.html == html && r.file == file
                    && r.hash is None && r.device == device,
                ClipboardData::Image { hash, filename, device } => r.kind@ == "Image"@
                    && r.content is None && r.html is None && r.file == Some(filename)
                    && r.hash == hash && r.device == device,
                ClipboardData::File { hash, filename, device } => r.kind@ == "File"@
                    && r.content is None && r.html is None && r.file == Some(filename)
                    && r.hash == hash && r.device == device,
            },
    {
        let kind = rec.data.kind_name();
        let (content, html, file, hash, device) = match &rec.data {
            ClipboardData::Text { content, html, file, device } => {
                (Some(content.clone()), copy_opt(html), copy_opt(file), None, copy_opt(device))
            },
            ClipboardData::Image { hash, filename, device } => {
                (None, None, Some(filename.clone()), copy_opt(hash), copy_opt(device))
            },
            ClipboardData::File { hash, filename, device } => {
                (None, None, Some(filename.clone()), copy_opt(hash), copy_opt(device))
            },
        };
        HistoryItem {
            id: rec.id,
            kind,
            content,
            file,
            hash,
            html,
            device,
            timestamp: rec.timestamp.clone(),
            pinned: rec.pinned,
        }
    }
}

/// The body of a request that pins or unpins a record.
pub struct PinUpdate {
    pub pinned: bool,
}

/// Limit and offset of a history page, with defaults for what the query
/// leaves out or does not parse.
pub fn history_page(limit: Option<u32>, offset: Option<u32>) -> (r: (u32, u32))
    ensures
        r.0 == (match limit { Some(l) => l, None => DEFAULT_HISTORY_LIMIT }),
        r.1 == (match offset { Some(o) => o, None => 0 }),
{
    let l: u32 = match limit { Some(l) => l, None => DEFAULT_HISTORY_LIMIT };
    let o: u32 = match offset { Some(o) => o, None => 0 };
    (l, o)
}

/// What the discovery endpoint tells a scanning client about this server.
pub struct DiscoveryInfo {
    pub service: String,
    pub version: String,
    pub device_name: String,
    pub device_id: String,
    pub capabilities: Vec<String>,
}

/// The discovery answer for a server of `version` on host `host_name`
/// (`None` when the host name is unknown).
pub fn discovery_info(version: &str, host_name: Option<String>) -> (r: DiscoveryInfo)
    ensures
        r.service@ == "SyncClipboard"@,
        r.version@ == version@,
        r.device_name@ == (match host_name { Some(h) => h@, None => "Unknown Device"@ }),
        r.device_id@ == "auto-generated"@,
        r.capabilities@.map_values(|s: String| s@) == seq!["clipboard"@, "file"@, "history"@],
{
    let name = match host_name {
        Some(h) => h,
        None => "Unknown Device".to_owned(),
    };
    let mut caps: Vec<String> = Vec::new();
    caps.push("clipboard".to_owned());
    caps.push("file".to_owned());
    caps.push("history".to_owned());
    assert(caps@.map_values(|s: String| s@) =~= seq!["clipboard"@, "file"@, "history"@]);
    DiscoveryInfo {
        service: "SyncClipboard".to_owned(),
        version: version.to_owned(),
        device_name: name,
        device_id: "auto-generated".to_owned(),
        capabilities: caps,
    }
}

} // verus!
