//! The clipboard entry exchanged between devices and the server.

use vstd::prelude::*;

verus! {

/// One clipboard entry. Exactly one variant is active; text fields may hold
/// an encryption envelope (see `crypto`).
pub enum ClipboardData {
    Text {
        content: String,
        html: Option<String>,
        file: Option<String>,
        device: Option<String>,
    },
    Image {
        hash: Option<String>,
        filename: String,
        device: Option<String>,
    },
    File {
        hash: Option<String>,
        filename: String,
        device: Option<String>,
    },
}

/// A copy of an optional string.
pub fn copy_opt(s: &Option<String>) -> (r: Option<String>)
    ensures
        r == *s,
{
    match s {
        Some(v) => Some(v.clone()),
        None => None,
    }
}

impl ClipboardData {
    /// A plain text entry with no HTML, file or device attached.
    pub fn new_text(content: String) -> (r: ClipboardData)
        ensures
            r == (ClipboardData::Text { content, html: None, file: None, device: None }),
    {
        ClipboardData::Text { content, html: None, file: None, device: None }
    }

    /// A copy of this entry.
    pub fn duplicate(&self) -> (r: ClipboardData)
        ensures
            r == *self,
    {
        match self {
            ClipboardData::Text { content, html, file, device } => ClipboardData::Text {
                content: content.clone(),
                html: copy_opt(html),
                file: copy_opt(file),
                device: copy_opt(device),
            },
            ClipboardData::Image { hash, filename, device } => ClipboardData::Image {
                hash: copy_opt(hash),
                filename: filename.clone(),
                device: copy_opt(device),
            },
            ClipboardData::File { hash, filename, device } => ClipboardData::File {
                hash: copy_opt(hash),
                filename: filename.clone(),
                device: copy_opt(device),
            },
        }
    }

    /// The kind of entry as stored and shown: `Text`, `Image` or `File`.
    pub fn kind_name(&self) -> (r: String)
        ensures
            self is Text ==> r@ == "Text"@,
            self is Image ==> r@ == "Image"@,
            self is File ==> r@ == "File"@,
    {
        match self {
            ClipboardData::Text { .. } => "Text".to_owned(),
            ClipboardData::Image { .. } => "Image".to_owned(),
            ClipboardData::File { .. } => "File".to_owned(),
        }
    }
}

} // verus!
