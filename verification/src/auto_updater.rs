//! Update checks: what a check answers for the server's reply (a JSON
//! object with `version` and optional details, or a bare version text), the
//! latest update found, and the download-in-progress flag. Fetching,
//! downloading and progress callbacks are done by the application.

use vstd::prelude::*;
use crate::text::{chars_of, push_str, seq_eq, string_from, trim, trim_spec};

verus! {

/// The state of an update check.
#[derive(Debug)]
pub enum UpdateStatus {
    /// Checking.
    Checking,
    /// A newer version exists.
    UpdateAvailable,
    /// Up to date.
    UpToDate,
    /// Downloading.
    Downloading,
    /// Downloaded.
    Downloaded,
    /// The check failed; why.
    Error(String),
}

/// An available update.
#[derive(Debug)]
pub struct UpdateInfo {
    /// Its version.
    pub version: String,
    /// Release date.
    pub release_date: Option<String>,
    /// Release notes.
    pub release_notes: Option<String>,
    /// Where to download it.
    pub download_url: String,
    /// File size in bytes.
    pub file_size: Option<u64>,
}

/// Why a download was refused.
#[derive(Debug, Clone, Copy, PartialEq, Eq, Structural)]
pub enum UpdaterError {
    /// A download is already running.
    DownloadInProgress,
}

/// The string under `key` of the JSON object that `body` is, where it is
/// one and the value is a string.
pub uninterp spec fn json_str_field_spec(body: Seq<char>, key: Seq<char>) -> Option<Seq<char>>;

/// The unsigned integer under `key` of the JSON object that `body` is,
/// where it is one and the value is such an integer.
pub uninterp spec fn json_u64_field_spec(body: Seq<char>, key: Seq<char>) -> Option<u64>;

/// `serde_json::from_str::<serde_json::Value>` then `get(key)` and
/// `as_str`: the string field, named.
#[verifier::external_body]
fn json_str_field(body: &str, key: &str) -> (r: Option<String>)
    ensures
        match r {
            Some(s) => json_str_field_spec(body@, key@) == Some(s@),
            None => json_str_field_spec(body@, key@) is None,
        },
{
    match serde_json::from_str::<serde_json::Value>(body) {
        Ok(v) => v.get(key).and_then(|x| x.as_str()).map(|s| s.to_string()),
        Err(_) => None,
    }
}

/// `serde_json::from_str::<serde_json::Value>` then `get(key)` and
/// `as_u64`: the number field, named.
#[verifier::external_body]
fn json_u64_field(body: &str, key: &str) -> (r: Option<u64>)
    ensures
        r == json_u64_field_spec(body@, key@),
{
    match serde_json::from_str::<serde_json::Value>(body) {
        Ok(v) => v.get(key).and_then(|x| x.as_u64()),
        Err(_) => None,
    }
}

/// The version a reply announces: its `version` field, else the whole
/// reply trimmed.
pub open spec fn announced_version(body: Seq<char>) -> Seq<char> {
    match json_str_field_spec(body, "version"@) {
        Some(v) => v,
        None => trim_spec(body),
    }
}

/// An update checker for one URL and the running version.
#[derive(Debug)]
pub struct AutoUpdater {
    update_url: String,
    current_version: String,
    downloading: bool,
    latest_update: Option<UpdateInfo>,
}

impl AutoUpdater {
    /// The URL checked.
    pub closed spec fn url(&self) -> Seq<char> {
        self.update_url@
    }

    /// The running version.
    pub closed spec fn version(&self) -> Seq<char> {
        self.current_version@
    }

    /// Whether a download runs.
    pub closed spec fn downloading_spec(&self) -> bool {
        self.downloading
    }

    /// The latest update found.
    pub closed spec fn latest(&self) -> Option<UpdateInfo> {
        self.latest_update
    }

    /// A checker with no update found and no download running.
    pub fn new(update_url: String, current_version: String) -> (r: AutoUpdater)
        ensures
            r.url() == update_url@,
            r.version() == current_version@,
            !r.downloading_spec(),
            r.latest() is None,
    {
        AutoUpdater { update_url, current_version, downloading: false, latest_update: None }
    }

    /// What a check answers for the server's reply (`Err` with the reason
    /// where the request failed): an error for a failed request, an empty
    /// reply or an empty version; up to date where the announced version is
    /// the running one; otherwise an update, whose details are kept.
    pub fn apply_update_response(&mut self, response: Result<String, String>) -> (r: UpdateStatus)
        ensures
            final(self).url() == old(self).url(),
            final(self).version() == old(self).version(),
            final(self).downloading_spec() == old(self).downloading_spec(),
            match response {
                Err(e) => r matches UpdateStatus::Error(m) && m@ == "Check failed: "@ + e@
                    && final(self).latest() == old(self).latest(),
                Ok(body) => if body@.len() == 0 {
                    r matches UpdateStatus::Error(m) && m@ == "Empty response"@ && final(self).latest() == old(self).latest()
                } else if announced_version(body@).len() == 0 {
                    r matches UpdateStatus::Error(m) && m@ == "Unable to parse version number"@
                        && final(self).latest() == old(self).latest()
                } else if announced_version(body@) == old(self).version() {
                    r is UpToDate && final(self).latest() == old(self).latest()
                } else {
                    &&& r is UpdateAvailable
                    &&& final(self).latest() is Some
                    &&& final(self).latest()->0.version@ == announced_version(body@)
                    &&& crate::config_file::opt_string_view(final(self).latest()->0.release_notes)
                        == json_str_field_spec(body@, "notes"@)
                    &&& final(self).latest()->0.download_url@ == match json_str_field_spec(body@, "download_url"@) {
                        Some(u) => u,
                        None => old(self).url(),
                    }
                    &&& final(self).latest()->0.file_size == json_u64_field_spec(body@, "file_size"@)
                    &&& crate::config_file::opt_string_view(final(self).latest()->0.release_date)
                        == json_str_field_spec(body@, "release_date"@)
                },
            },
    {
        let body = match response {
            Err(e) => {
                let mut m = chars_of("Check failed: ");
                push_str(&mut m, e.as_str());
                return UpdateStatus::Error(string_from(m.as_slice()));
            },
            Ok(b) => b,
        };
        if body.as_str().unicode_len() == 0 {
            return UpdateStatus::Error(crate::text::owned("Empty response"));
        }
        let remote_version = match json_str_field(body.as_str(), "version") {
            Some(v) => v,
            None => {
                let bv = chars_of(body.as_str());
                let t = trim(bv.as_slice());
                string_from(t.as_slice())
            },
        };
        let rv = chars_of(remote_version.as_str());
        if rv.len() == 0 {
            return UpdateStatus::Error(crate::text::owned("Unable to parse version number"));
        }
        let cv = chars_of(self.current_version.as_str());
        if seq_eq(rv.as_slice(), cv.as_slice()) {
            return UpdateStatus::UpToDate;
        }
        let release_notes = json_str_field(body.as_str(), "notes");
        let download_url = match json_str_field(body.as_str(), "download_url") {
            Some(u) => u,
            None => self.update_url.clone(),
        };
        let file_size = json_u64_field(body.as_str(), "file_size");
        let release_date = json_str_field(body.as_str(), "release_date");
        self.latest_update = Some(UpdateInfo {
            version: remote_version,
            release_date,
            release_notes,
            download_url,
            file_size,
        });
        UpdateStatus::UpdateAvailable
    }

    /// Marks a download as running; refused while one runs.
    pub fn begin_download(&mut self) -> (r: Result<(), UpdaterError>)
        ensures
            old(self).downloading_spec() ==> r == Err::<(), UpdaterError>(UpdaterError::DownloadInProgress)
                && final(self).downloading_spec(),
            !old(self).downloading_spec() ==> r is Ok && final(self).downloading_spec(),
            final(self).latest() == old(self).latest(),
            final(self).url() == old(self).url(),
            final(self).version() == old(self).version(),
    {
        if self.downloading {
            return Err(UpdaterError::DownloadInProgress);
        }
        self.downloading = true;
        Ok(())
    }

    /// Marks the running download as over.
    pub fn finish_download(&mut self)
        ensures
            !final(self).downloading_spec(),
            final(self).latest() == old(self).latest(),
            final(self).url() == old(self).url(),
            final(self).version() == old(self).version(),
    {
        self.downloading = false;
    }

    /// The latest update found.
    pub fn get_latest_update(&self) -> (r: Option<&UpdateInfo>)
        ensures
            match self.latest() {
                Some(u) => r is Some && *r->0 == u,
                None => r is None,
            },
    {
        match &self.latest_update {
            Some(u) => Some(u),
            None => None,
        }
    }

    /// Whether a download runs.
    pub fn is_downloading(&self) -> (r: bool)
        ensures
            r == self.downloading_spec(),
    {
        self.downloading
    }

    /// The URL checked.
    pub fn update_url(&self) -> (r: &str)
        ensures
            r@ == self.url(),
    {
        self.update_url.as_str()
    }

    /// The running version.
    pub fn current_version(&self) -> (r: &str)
        ensures
            r@ == self.version(),
    {
        self.current_version.as_str()
    }
}

} // verus!
