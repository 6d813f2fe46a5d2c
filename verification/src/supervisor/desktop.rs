//! The desktop client download: what the info route reports and how the
//! binary is sent.
use vstd::prelude::*;

use crate::text::{is_blank, trim, trim_str};

verus! {

/// The name of the distributed binary.
pub const EXE_NAME: &'static str = "yuuka-desktop.exe";

/// The media type the binary is sent with.
pub const EXE_CONTENT_TYPE: &'static str = "application/vnd.microsoft.portable-executable";

/// The attachment header of the download.
pub const EXE_DISPOSITION: &'static str = "attachment; filename=\"yuuka-desktop.exe\"";

/// The answer when no binary has been deployed.
pub const NOT_DEPLOYED_MESSAGE: &'static str = "デスクトップ版のバイナリがまだ配置されていません。デプロイ後にお試しください。";

/// The answer when reading the binary failed.
pub const DELIVERY_FAILED_MESSAGE: &'static str = "配信に失敗しました。";

/// What the info route reports of the binary.
#[derive(Debug, Clone, PartialEq, Eq)]
pub struct DesktopMeta {
    pub available: bool,
    pub size: u64,
    pub version: String,
    pub built_at: Option<String>,
}

/// The found binary, as read from the download directory.
#[derive(Debug, Clone, PartialEq, Eq)]
pub struct ExeFacts {
    /// The file's length in bytes.
    pub size: u64,
    /// The text of `version.txt`, when it could be read.
    pub version_text: Option<String>,
    /// The file's modification time (RFC 3339, milliseconds, UTC), when known.
    pub built_at: Option<String>,
}

/// The version shown: `version.txt` trimmed, or `"unknown"` when missing or
/// blank.
pub open spec fn version_spec(text: Option<Seq<char>>) -> Seq<char> {
    match text {
        Some(t) => if trim(t).len() > 0 {
            trim(t)
        } else {
            "unknown"@
        },
        None => "unknown"@,
    }
}

/// The binary's meta data (`read_meta`); `exe` is `None` when no regular file
/// is there.
pub fn desktop_meta(exe: Option<ExeFacts>) -> (m: DesktopMeta)
    ensures
        match exe {
            Some(f) => m.available && m.size == f.size && m.version@ == version_spec(
                crate::json::opt_view(f.version_text),
            ) && m.built_at == f.built_at,
            None => !m.available && m.size == 0 && m.version@ == "unknown"@ && m.built_at is None,
        },
{
    match exe {
        Some(f) => {
            let version = match &f.version_text {
                Some(t) => if is_blank(t.as_str()) {
                    "unknown".to_owned()
                } else {
                    trim_str(t.as_str())
                },
                None => "unknown".to_owned(),
            };
            DesktopMeta { available: true, size: f.size, version, built_at: f.built_at }
        },
        None => DesktopMeta { available: false, size: 0, version: "unknown".to_owned(), built_at: None },
    }
}

/// A download is refused (`404` with this message) while no binary is there.
pub fn download_refusal(meta: &DesktopMeta) -> (r: Option<&'static str>)
    ensures
        r is None <==> meta.available,
        r matches Some(m) ==> m@ == NOT_DEPLOYED_MESSAGE@,
{
    if meta.available {
        None
    } else {
        Some(NOT_DEPLOYED_MESSAGE)
    }
}

} // verus!
