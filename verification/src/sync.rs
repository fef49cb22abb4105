//! Decisions of the periodic sync loop (scan → heartbeat → sync).
//! The loop's transport — timers, HTTP, the file system — lives
//! outside the library; it hands in what it observed and acts on what
//! these functions decide.

use vstd::prelude::*;
use vstd::string::{StringExecFns, StrSliceExecFns};

use crate::records::{HeartbeatResponse, ScreenshotLog};

verus! {

/// What a heartbeat response demands: the server time to calibrate
/// the clock with (absent means zero, as the calibration input), and
/// whether a fresh policy must be pulled.  Remote commands are only
/// surfaced, never executed here.
pub fn heartbeat_actions(resp: &HeartbeatResponse) -> (r: (i64, bool))
    ensures
        r.0 == (match resp.server_time {
            Some(t) => t as i64,
            None => 0,
        }),
        r.1 == resp.need_update,
{
    let server_time: i64 = match resp.server_time {
        Some(t) => #[verifier::truncate] (t as i64),
        None => 0,
    };
    (server_time, resp.need_update)
}

/// The step the sync loop takes for one unsent screenshot record.
pub enum ScreenshotStep {
    /// The local image file is gone (already cleaned up): mark the
    /// record sent rather than retrying forever.
    MarkSentWithoutUpload,
    /// An upload failed: leave the record unsent; the next tick
    /// retries it.
    RetryNextTick,
    /// File and metadata both uploaded: mark the record sent by its
    /// content hash.
    MarkSentAfterUpload,
}

/// The two-phase screenshot upload decision: first the image file,
/// then the metadata referencing it; a missing file self-heals, any
/// failed upload leaves the record for the next tick.
pub fn screenshot_sync_step(file_exists: bool, file_uploaded: bool, meta_uploaded: bool) -> (r:
    ScreenshotStep)
    ensures
        !file_exists ==> r == ScreenshotStep::MarkSentWithoutUpload,
        file_exists && !file_uploaded ==> r == ScreenshotStep::RetryNextTick,
        file_exists && file_uploaded && !meta_uploaded ==> r == ScreenshotStep::RetryNextTick,
        file_exists && file_uploaded && meta_uploaded ==> r
            == ScreenshotStep::MarkSentAfterUpload,
{
    if !file_exists {
        ScreenshotStep::MarkSentWithoutUpload
    } else if file_uploaded && meta_uploaded {
        ScreenshotStep::MarkSentAfterUpload
    } else {
        ScreenshotStep::RetryNextTick
    }
}

/// The record whose metadata goes to the server: the image path
/// replaced by the remote reference obtained from the file upload.
pub fn screenshot_with_remote_path(log: &ScreenshotLog, remote_url: &str) -> (r: ScreenshotLog)
    ensures
        r.image_path@ == remote_url@,
        r.id == log.id,
        r.capture_time == log.capture_time,
        r.cpe_id == log.cpe_id,
        r.ocr_text == log.ocr_text,
        r.risk_level == log.risk_level,
        r.app_name == log.app_name,
        r.image_hash == log.image_hash,
        r.host_id == log.host_id,
        r.mac == log.mac,
        r.ip == log.ip,
        r.redaction_labels == log.redaction_labels,
{
    let mut copy = crate::records::clone_screenshot_log(log);
    copy.image_path = remote_url.to_owned();
    copy
}

/// After a failed metadata upload, the record's path reverts to the
/// local file so the next tick re-attempts cleanly; after a success
/// the remote path stands.
pub fn screenshot_after_meta(log: ScreenshotLog, local_path: String, meta_uploaded: bool) -> (r:
    ScreenshotLog)
    ensures
        meta_uploaded ==> r == log,
        !meta_uploaded ==> r == (ScreenshotLog { image_path: local_path, ..log }),
{
    if meta_uploaded {
        log
    } else {
        ScreenshotLog { image_path: local_path, ..log }
    }
}

// ---------------------------------------------------------------------
// Screenshot path resolution
// ---------------------------------------------------------------------

/// The characters after the last `/`, empty when the string ends with
/// one or has none and is empty.
pub open spec fn spec_after_last_slash(s: Seq<char>) -> Seq<char>
    decreases s.len(),
{
    if s.len() == 0 {
        Seq::empty()
    } else if s.last() == '/' {
        Seq::empty()
    } else {
        spec_after_last_slash(s.drop_last()).push(s.last())
    }
}

proof fn lemma_after_last_slash_suffix(s: Seq<char>, k: int)
    requires
        0 <= k <= s.len(),
        k > 0 ==> s[k - 1] == '/',
        forall|j: int| k <= j < s.len() ==> s[j] != '/',
        k == 0 ==> forall|j: int| 0 <= j < s.len() ==> s[j] != '/',
    ensures
        spec_after_last_slash(s) == s.skip(k),
    decreases s.len() - k,
{
    if k == s.len() {
        assert(s.skip(k) =~= Seq::<char>::empty());
    } else {
        lemma_after_last_slash_suffix(s.drop_last(), k);
        assert(s.drop_last().skip(k) =~= s.skip(k).drop_last());
        assert(s.skip(k).last() == s.last());
        assert(spec_after_last_slash(s) =~= s.skip(k));
    }
}

/// Resolve where a screenshot file should be looked for: the recorded
/// path itself when it still exists; otherwise the file name joined
/// to the configured screenshot directory; the recorded path again
/// when it has no file name to extract.
#[verifier::loop_isolation(false)]
pub fn resolve_screenshot_path(image_path: &str, path_exists: bool, screenshot_dir: &str) -> (r:
    String)
    ensures
        path_exists ==> r@ == image_path@,
        !path_exists && spec_after_last_slash(image_path@).len() == 0 ==> r@ == image_path@,
        !path_exists && spec_after_last_slash(image_path@).len() > 0 ==> r@ == screenshot_dir@
            + "/"@ + spec_after_last_slash(image_path@),
{
    if path_exists {
        return image_path.to_owned();
    }
    let n = image_path.unicode_len();
    let mut k: usize = n;
    while k > 0 && image_path.get_char(k - 1) != '/'
        invariant
            0 <= k <= n,
            n == image_path@.len(),
            forall|j: int| k <= j < n ==> image_path@[j] != '/',
        decreases k,
    {
        k = k - 1;
    }
    proof {
        lemma_after_last_slash_suffix(image_path@, k as int);
    }
    if k == n {
        // ends with a slash, or is empty: no file name to extract
        return image_path.to_owned();
    }
    let name = image_path.substring_char(k, n);
    proof {
        assert(name@ =~= image_path@.skip(k as int));
    }
    let mut r = screenshot_dir.to_owned();
    r.append("/");
    r.append(name);
    r
}

} // verus!
