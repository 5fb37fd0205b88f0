//! The client's sync cycle as decisions on plain values.
//!
//! The caller reads the OS clipboard, performs the HTTP requests, and applies
//! what these functions decide; `SyncState` holds the baseline that keeps the
//! cycle from echoing content back and forth.

use crate::clipboard::ClipboardData;
use crate::wire::{clipboard_id, parsed_i64};
use crate::crypto::{lemma_open_sealed_field, is_sealed_field_of, open_field, seal_field, field_opens_to, MAX_PLAINTEXT};
use sha2::Digest;
use vstd::prelude::*;
use vstd::utf8::encode_utf8;

verus! {

/// Seconds the server may hold a long poll.
pub const POLL_WAIT_SECS: u64 = 30;

/// Seconds to sleep after a failed download.
pub const ERROR_BACKOFF_SECS: u64 = 5;

/// Milliseconds to idle between two cycles.
pub const IDLE_DELAY_MS: u64 = 100;

/// The SHA-256 digest of a byte string.
pub uninterp spec fn sha256_digest(bytes: Seq<u8>) -> Seq<u8>;

/// Lower-case hexadecimal digits.
pub open spec fn hex_chars() -> Seq<char> {
    seq!['0', '1', '2', '3', '4', '5', '6', '7', '8', '9', 'a', 'b', 'c', 'd', 'e', 'f']
}

/// Two lower-case hexadecimal digits per byte, high nibble first.
pub open spec fn hex_of(bytes: Seq<u8>) -> Seq<char>
    decreases bytes.len(),
{
    if bytes.len() == 0 {
        Seq::empty()
    } else {
        hex_of(bytes.drop_last()) + seq![
            hex_chars()[(bytes.last() / 16) as int],
            hex_chars()[(bytes.last() % 16) as int],
        ]
    }
}

/// The content hash that names an image: hex of its SHA-256 digest.
pub open spec fn content_hash(bytes: Seq<u8>) -> Seq<char> {
    hex_of(sha256_digest(bytes))
}

/// Relies on `sha2::Sha256::digest`: a 32-byte digest of the input.
#[verifier::external_body]
fn sha256(bytes: &[u8]) -> (r: Vec<u8>)
    ensures
        r@ == sha256_digest(bytes@),
        r@.len() == 32,
{
    sha2::Sha256::digest(bytes).to_vec()
}

/// Relies on `hex::encode`: two lower-case hex digits per byte.
#[verifier::external_body]
fn hex_encode(bytes: &[u8]) -> (r: String)
    ensures
        r@ == hex_of(bytes@),
{
    hex::encode(bytes)
}

/// The content hash of an encoded image.
pub fn image_hash(png: &[u8]) -> (r: String)
    ensures
        r@ == content_hash(png@),
{
    let digest = sha256(png);
    hex_encode(digest.as_slice())
}

/// The remote file name of an image: its hash with `.png`.
pub fn image_filename(hash: &str) -> (r: String)
    ensures
        r@ == hash@ + ".png"@,
{
    let mut s = hash.to_owned();
    s.append(".png");
    s
}

/// The remote file name of a file: its hash, with its extension if it has one.
pub fn remote_filename(hash: &str, extension: &str) -> (r: String)
    ensures
        extension@.len() == 0 ==> r@ == hash@,
        extension@.len() > 0 ==> r@ == hash@ + "."@ + extension@,
{
    let mut s = hash.to_owned();
    if extension.unicode_len() > 0 {
        s.append(".");
        s.append(extension);
    }
    s
}

/// The metadata entry that follows the upload of an image's bytes: it names
/// the image by its hash and the file `<hash>.png`.
pub fn image_entry(hash: String, device_name: &String) -> (r: ClipboardData)
    ensures
        r matches ClipboardData::Image { hash: h, filename, device } && h == Some(hash)
            && filename@ == hash@ + ".png"@ && device == Some(*device_name),
{
    let filename = image_filename(hash.as_str());
    ClipboardData::Image { hash: Some(hash), filename, device: Some(device_name.clone()) }
}

/// The metadata entry that follows the upload of a file's bytes under its
/// remote name.
pub fn file_entry(hash: String, extension: &str, device_name: &String) -> (r: ClipboardData)
    ensures
        r matches ClipboardData::File { hash: h, filename, device } && h == Some(hash)
            && (extension@.len() == 0 ==> filename@ == hash@)
            && (extension@.len() > 0 ==> filename@ == hash@ + "."@ + extension@)
            && device == Some(*device_name),
{
    let filename = remote_filename(hash.as_str(), extension);
    ClipboardData::File { hash: Some(hash), filename, device: Some(device_name.clone()) }
}

/// A text change to upload.
pub struct TextUpload {
    pub text: String,
    pub html: Option<String>,
}

/// What one download returned.
pub enum Fetched {
    /// An entry and the server's id for it.
    Data(ClipboardData, i64),
    /// No entry; the id that the caller should keep.
    NoData(i64),
    /// The request failed.
    Failed,
}

/// What the caller does to the OS clipboard after a download.
pub enum RemoteAction {
    /// Put HTML with its plain-text alternative.
    SetHtml { html: String, text: String },
    /// Put plain text.
    SetText(String),
    /// Leave the clipboard as it is.
    Nothing,
    /// Sleep `ERROR_BACKOFF_SECS` before the next cycle.
    Backoff,
}

/// The engine's memory between cycles: the last text and HTML applied or
/// uploaded, the last image hash handled, and the server cursor.
pub struct SyncState {
    pub last_content: String,
    pub last_html: String,
    pub last_image_hash: String,
    pub last_id: i64,
}

/// A local value counts as changed when it is non-empty and differs from the baseline.
pub open spec fn changed(current: Seq<char>, baseline: Seq<char>) -> bool {
    current.len() > 0 && current != baseline
}

/// The local clipboard holds something to upload against the baseline.
pub open spec fn upload_wanted(content: Seq<char>, html: Seq<char>, text: Seq<char>, cur_html: Seq<char>) -> bool {
    changed(text, content) || changed(cur_html, html)
}

/// The HTML of a downloaded text entry, with none read as empty.
pub open spec fn html_or_empty(html: Option<String>) -> Seq<char> {
    match html {
        Some(h) => h@,
        None => Seq::empty(),
    }
}

/// A downloaded text differs from the baseline.
pub open spec fn remote_differs(content: Seq<char>, html: Seq<char>, new_content: Seq<char>, new_html: Option<String>) -> bool {
    new_content != content || html_or_empty(new_html) != html
}

impl SyncState {
    /// The state before any cycle: empty baseline and no cursor.
    pub fn new() -> (r: SyncState)
        ensures
            r.last_content@.len() == 0,
            r.last_html@.len() == 0,
            r.last_image_hash@.len() == 0,
            r.last_id == -1,
    {
        SyncState {
            last_content: String::new(),
            last_html: String::new(),
            last_image_hash: String::new(),
            last_id: -1,
        }
    }

    /// Takes the startup download as the baseline, so that content already on
    /// the server is not uploaded again.
    pub fn initial_sync(&mut self, fetched: Fetched)
        ensures
            match fetched {
                Fetched::Data(ClipboardData::Text { content, html, .. }, id) => final(self).last_id == id
                    && final(self).last_content@ == content@
                    && final(self).last_html@ == html_or_empty(html)
                    && final(self).last_image_hash == old(self).last_image_hash,
                Fetched::Data(ClipboardData::Image { hash, .. }, id) => final(self).last_id == id
                    && final(self).last_content == old(self).last_content
                    && final(self).last_html == old(self).last_html
                    && final(self).last_image_hash == (match hash {
                        Some(h) => h,
                        None => old(self).last_image_hash,
                    }),
                Fetched::Data(ClipboardData::File { .. }, id) => final(self).last_id == id
                    && final(self).last_content == old(self).last_content
                    && final(self).last_html == old(self).last_html
                    && final(self).last_image_hash == old(self).last_image_hash,
                Fetched::NoData(id) => final(self).last_id == id
                    && final(self).last_content == old(self).last_content
                    && final(self).last_html == old(self).last_html
                    && final(self).last_image_hash == old(self).last_image_hash,
                Fetched::Failed => *final(self) == *old(self),
            },
    {
        match fetched {
            Fetched::Data(data, id) => {
                self.last_id = id;
                match data {
                    ClipboardData::Text { content, html, .. } => {
                        self.last_content = content;
                        self.last_html = match html {
                            Some(h) => h,
                            None => String::new(),
                        };
                    },
                    ClipboardData::Image { hash, .. } => {
                        match hash {
                            Some(h) => {
                                self.last_image_hash = h;
                            },
                            None => {},
                        }
                    },
                    ClipboardData::File { .. } => {},
                }
            },
            Fetched::NoData(id) => {
                self.last_id = id;
            },
            Fetched::Failed => {},
        }
    }

    /// The upload that the current local text and HTML call for, if any: the
    /// text, with the HTML only when it is non-empty.
    pub fn local_change(&self, text: &String, html: &String) -> (r: Option<TextUpload>)
        ensures
            r is Some <==> upload_wanted(self.last_content@, self.last_html@, text@, html@),
            r matches Some(u) ==> u.text@ == text@
                && (html@.len() == 0 ==> u.html is None)
                && (html@.len() > 0 ==> (u.html matches Some(h) && h@ == html@)),
    {
        let text_changed = text.unicode_len() > 0 && *text != self.last_content;
        let html_changed = html.unicode_len() > 0 && *html != self.last_html;
        if text_changed || html_changed {
            let h = if html.unicode_len() == 0 { None } else { Some(html.clone()) };
            Some(TextUpload { text: text.clone(), html: h })
        } else {
            None
        }
    }

    /// Makes `text` and `html` the baseline, after a successful upload or
    /// after applying a download to the OS clipboard.
    pub fn record_text(&mut self, text: String, html: String)
        ensures
            final(self).last_content == text,
            final(self).last_html == html,
            final(self).last_image_hash == old(self).last_image_hash,
            final(self).last_id == old(self).last_id,
    {
        self.last_content = text;
        self.last_html = html;
    }

    /// Ends an upload of `text` and `html`: they become the baseline when the
    /// upload succeeded; after a failure the baseline stays, so that the next
    /// cycle tries again.
    pub fn finish_text_upload(&mut self, text: String, html: String, succeeded: bool)
        ensures
            succeeded ==> final(self).last_content == text && final(self).last_html == html,
            !succeeded ==> final(self).last_content == old(self).last_content
                && final(self).last_html == old(self).last_html,
            final(self).last_image_hash == old(self).last_image_hash,
            final(self).last_id == old(self).last_id,
    {
        if succeeded {
            self.record_text(text, html);
        }
    }

    /// Ends an image upload: its hash becomes the last one handled only when
    /// the upload succeeded.
    pub fn finish_image_upload(&mut self, hash: String, succeeded: bool)
        ensures
            succeeded ==> final(self).last_image_hash == hash,
            !succeeded ==> final(self).last_image_hash == old(self).last_image_hash,
            final(self).last_content == old(self).last_content,
            final(self).last_html == old(self).last_html,
            final(self).last_id == old(self).last_id,
    {
        if succeeded {
            self.record_image(hash);
        }
    }

    /// Ends applying a download to the OS clipboard: when it succeeded, what
    /// was put there becomes the baseline (HTML with its text, or text with
    /// no HTML); otherwise the baseline stays.
    pub fn finish_apply(&mut self, action: RemoteAction, succeeded: bool)
        ensures
            final(self).last_image_hash == old(self).last_image_hash,
            final(self).last_id == old(self).last_id,
            match action {
                RemoteAction::SetHtml { html, text } if succeeded => final(self).last_content == text
                    && final(self).last_html == html,
                RemoteAction::SetText(text) if succeeded => final(self).last_content == text
                    && final(self).last_html@.len() == 0,
                _ => final(self).last_content == old(self).last_content
                    && final(self).last_html == old(self).last_html,
            },
    {
        if succeeded {
            match action {
                RemoteAction::SetHtml { html, text } => self.record_text(text, html),
                RemoteAction::SetText(text) => self.record_text(text, String::new()),
                _ => {},
            }
        }
    }

    /// Whether an image with this hash still has to be uploaded.
    pub fn image_needs_upload(&self, hash: &String) -> (r: bool)
        ensures
            r == image_upload_wanted(self.last_image_hash@, hash@),
    {
        *hash != self.last_image_hash
    }

    /// Makes `hash` the last image handled, after a successful upload.
    pub fn record_image(&mut self, hash: String)
        ensures
            final(self).last_image_hash == hash,
            final(self).last_content == old(self).last_content,
            final(self).last_html == old(self).last_html,
            final(self).last_id == old(self).last_id,
    {
        self.last_image_hash = hash;
    }

    /// Applies one long-poll result: advances the cursor, and says what to put
    /// on the OS clipboard. Text equal to the baseline is not applied again;
    /// an image only updates the last hash (its pixels are not fetched); a
    /// failure asks for the back-off.
    pub fn apply_remote(&mut self, fetched: Fetched) -> (r: RemoteAction)
        ensures
            final(self).last_content == old(self).last_content,
            final(self).last_html == old(self).last_html,
            match fetched {
                Fetched::Data(ClipboardData::Text { content, html, .. }, id) => final(self).last_id == id
                    && final(self).last_image_hash == old(self).last_image_hash
                    && if remote_differs(old(self).last_content@, old(self).last_html@, content@, html) {
                        match html {
                            Some(h) => r == RemoteAction::SetHtml { html: h, text: content },
                            None => r == RemoteAction::SetText(content),
                        }
                    } else {
                        r is Nothing
                    },
                Fetched::Data(ClipboardData::Image { hash, .. }, id) => final(self).last_id == id
                    && r is Nothing
                    && final(self).last_image_hash == (match hash {
                        Some(h) => h,
                        None => old(self).last_image_hash,
                    }),
                Fetched::Data(ClipboardData::File { .. }, id) => final(self).last_id == id
                    && r is Nothing
                    && final(self).last_image_hash == old(self).last_image_hash,
                Fetched::NoData(id) => r is Nothing
                    && final(self).last_image_hash == old(self).last_image_hash
                    && final(self).last_id == (if id > old(self).last_id { id } else { old(self).last_id }),
                Fetched::Failed => r is Backoff && *final(self) == *old(self),
            },
    {
        match fetched {
            Fetched::Data(data, new_id) => {
                self.last_id = new_id;
                match data {
                    ClipboardData::Text { content, html, .. } => {
                        let differs = match &html {
                            Some(h) => content != self.last_content || *h != self.last_html,
                            None => content != self.last_content || self.last_html.unicode_len() != 0,
                        };
                        assert(self.last_html@.len() == 0 ==> self.last_html@ =~= Seq::<char>::empty());
                        if differs {
                            match html {
                                Some(h) => RemoteAction::SetHtml { html: h, text: content },
                                None => RemoteAction::SetText(content),
                            }
                        } else {
                            RemoteAction::Nothing
                        }
                    },
                    ClipboardData::Image { hash, .. } => {
                        match hash {
                            Some(h) => {
                                self.last_image_hash = h;
                            },
                            None => {},
                        }
                        RemoteAction::Nothing
                    },
                    ClipboardData::File { .. } => RemoteAction::Nothing,
                }
            },
            Fetched::NoData(id) => {
                if id > self.last_id {
                    self.last_id = id;
                }
                RemoteAction::Nothing
            },
            Fetched::Failed => RemoteAction::Backoff,
        }
    }
}

/// Content that was just applied from the server, or just uploaded, is not
/// uploaded again when the local clipboard still holds it.
pub proof fn lemma_no_echo_upload(text: Seq<char>, html: Seq<char>)
    ensures
        !upload_wanted(text, html, text, html),
{
}

/// Content that was just uploaded is not applied again when the server hands
/// it back: the entry that the upload sends (HTML only when non-empty)
/// matches the baseline that the upload recorded.
pub proof fn lemma_no_echo_download(text: Seq<char>, html: Seq<char>, sent_html: Option<String>)
    requires
        html.len() == 0 ==> sent_html is None,
        html.len() > 0 ==> (sent_html matches Some(h) && h@ == html),
    ensures
        !remote_differs(text, html, text, sent_html),
{
    assert(html.len() == 0 ==> html =~= Seq::<char>::empty());
}

/// An image is uploaded only when its hash differs from the last one handled.
pub open spec fn image_upload_wanted(last_hash: Seq<char>, hash: Seq<char>) -> bool {
    hash != last_hash
}

/// An image is uploaded once: after the hash of its bytes is recorded, the
/// same bytes read again give the same hash and ask for no upload.
pub proof fn lemma_identical_image_uploaded_once(first: Seq<u8>, second: Seq<u8>)
    requires
        first == second,
    ensures
        !image_upload_wanted(content_hash(first), content_hash(second)),
{
}

/// Builds the text entry to upload. With a password, the text and the HTML
/// are sealed; a text that cannot be sealed fails the upload, an HTML that
/// cannot be sealed is left out.
pub fn build_text_upload(upload: TextUpload, password: Option<&str>, device_name: &String) -> (r: Result<ClipboardData, String>)
    ensures
        password is None ==> r == Ok::<ClipboardData, String>(ClipboardData::Text {
            content: upload.text,
            html: upload.html,
            file: None,
            device: Some(*device_name),
        }),
        password matches Some(pw) ==> (r is Ok <==> encode_utf8(upload.text@).len() <= MAX_PLAINTEXT),
        password matches Some(pw) ==> (r matches Ok(ClipboardData::Text { content, html, file, device }) ==> {
            &&& is_sealed_field_of(content@, upload.text@, pw@)
            &&& file is None
            &&& device == Some(*device_name)
            &&& match upload.html {
                None => html is None,
                Some(raw) => if encode_utf8(raw@).len() <= MAX_PLAINTEXT {
                    html matches Some(h) && is_sealed_field_of(h@, raw@, pw@)
                } else {
                    html is None
                },
            }
        }),
        r is Ok ==> r matches Ok(ClipboardData::Text { .. }),
{
    let device = Some(device_name.clone());
    match password {
        None => Ok(ClipboardData::Text { content: upload.text, html: upload.html, file: None, device }),
        Some(pw) => {
            let content = match seal_field(upload.text.as_str(), pw) {
                Ok(c) => c,
                Err(e) => {
                    let mut msg = "Encryption failed: ".to_owned();
                    msg.append(e.as_str());
                    return Err(msg);
                },
            };
            let html = match upload.html {
                Some(raw) => match seal_field(raw.as_str(), pw) {
                    Ok(h) => Some(h),
                    Err(_) => None,
                },
                None => None,
            };
            Ok(ClipboardData::Text { content, html, file: None, device })
        },
    }
}

/// Opens a sealed field with `password` when both are there; a field that
/// does not open is kept as it came.
pub fn open_if_sealed(field: String, password: Option<&str>) -> (r: String)
    ensures
        password is None ==> r == field,
        opened_or_kept(field@, password, r@),
{
    match password {
        None => field,
        Some(pw) => match open_field(field.as_str(), pw) {
            Some(t) => t,
            None => field,
        },
    }
}

/// `field2` is what opening `field` with `password` leaves: the opened text,
/// or the field itself when it does not open.
pub open spec fn opened_or_kept(field: Seq<char>, password: Option<&str>, field2: Seq<char>) -> bool {
    match password {
        None => field2 == field,
        Some(pw) => (field_opens_to(field, pw@, field2)
            && forall|t: Seq<char>| #[trigger] field_opens_to(field, pw@, t) ==> t == field2)
            || (field2 == field && forall|t: Seq<char>| !#[trigger] field_opens_to(field, pw@, t)),
    }
}

/// `r` is `data` with the envelope removed from the text and HTML of a text
/// entry; other entries and other fields are unchanged.
pub open spec fn opened_entry(data: ClipboardData, password: Option<&str>, r: ClipboardData) -> bool {
    match data {
        ClipboardData::Text { content, html, file, device } => match r {
            ClipboardData::Text { content: c2, html: h2, file: f2, device: d2 } => {
                &&& f2 == file && d2 == device
                &&& opened_or_kept(content@, password, c2@)
                &&& match html {
                    None => h2 is None,
                    Some(h) => h2 matches Some(h3) && opened_or_kept(h@, password, h3@),
                }
            },
            _ => false,
        },
        _ => r == data,
    }
}

/// Removes the encryption envelope from the text and HTML of a downloaded
/// text entry; other entries and other fields pass unchanged.
pub fn open_entry(data: ClipboardData, password: Option<&str>) -> (r: ClipboardData)
    ensures
        opened_entry(data, password, r),
{
    match data {
        ClipboardData::Text { content, html, file, device } => {
            let c = open_if_sealed(content, password);
            let h = match html {
                Some(h) => Some(open_if_sealed(h, password)),
                None => None,
            };
            ClipboardData::Text { content: c, html: h, file, device }
        },
        other => other,
    }
}

/// A text sealed for upload comes back as that text when a download opens it
/// with the same password.
pub proof fn lemma_sealed_upload_comes_back(t: Seq<char>, pw: &str, field: Seq<char>, opened: Seq<char>)
    requires
        is_sealed_field_of(field, t, pw@),
        encode_utf8(t).len() <= MAX_PLAINTEXT,
        opened_or_kept(field, Some(pw), opened),
    ensures
        opened == t,
{
    lemma_open_sealed_field(t, pw@, field);
    assert(field_opens_to(field, pw@, t));
    let o = Some(pw);
    assert(o->0 == pw);
    assert(opened_or_kept(field, o, opened));
    if !(field_opens_to(field, pw@, opened)
        && forall|u: Seq<char>| #[trigger] field_opens_to(field, pw@, u) ==> u == opened) {
        assert(forall|u: Seq<char>| !#[trigger] field_opens_to(field, pw@, u));
    }
}

/// The result of one download from the response's status, its
/// `X-Clipboard-Id` header and its body (`None` when the body is not an
/// entry): a success carries the opened entry and the header's id (0 when
/// absent or not a number), an unreadable body is a failure, and any other
/// status keeps the caller's cursor.
pub fn fetched_from_response(
    success: bool,
    id_header: Option<&str>,
    body: Option<ClipboardData>,
    last_id: i64,
    password: Option<&str>,
) -> (r: Fetched)
    ensures
        !success ==> r == Fetched::NoData(last_id),
        success && body is None ==> r is Failed,
        success && body is Some ==> (r matches Fetched::Data(d, id)
            && opened_entry(body->0, password, d)
            && id as int == (match id_header {
                None => 0,
                Some(h) => match parsed_i64(h@) { Some(v) => v, None => 0 },
            })),
{
    if !success {
        return Fetched::NoData(last_id);
    }
    match body {
        None => Fetched::Failed,
        Some(data) => {
            let id = clipboard_id(id_header);
            Fetched::Data(open_entry(data, password), id)
        },
    }
}

} // verus!
