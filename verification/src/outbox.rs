//! The durable outbox: four append/query queues, one per record kind.
//! Records are inserted unsent, listed in bounded batches, and marked
//! sent by key; no operation ever deletes a record.  Screenshots are
//! content-addressed: an insert with an already-stored image hash is a
//! no-op, and marking sent goes by hash, not row id.
//!
//! Persistence of these queues is a storage concern outside the
//! library; this type is the authoritative model of their behaviour.

use vstd::prelude::*;

use crate::records::{
    AuditLog, BehaviorLog, ClipboardLog, ScreenshotLog, clone_audit_log, clone_behavior_log,
    clone_clipboard_log, clone_screenshot_log,
};
use crate::text::{
    spec_string_bytes, spec_lex_le, bytes_eq, lex_le_bytes, lemma_lex_refl, lemma_lex_total,
    lemma_lex_trans,
};

verus! {

/// A stored record plus its upload state.
pub struct Stored<T> {
    pub rec: T,
    pub is_uploaded: bool,
}

/// Batch bounds for list-unsent, per record kind: smaller batches for
/// heavier payloads.
pub const TRAFFIC_BATCH: usize = 10;

pub const BEHAVIOR_BATCH: usize = 10;

pub const SCREENSHOT_BATCH: usize = 5;

pub const CLIPBOARD_BATCH: usize = 20;

/// The outbox: one queue per record kind and a row-id counter for the
/// kinds whose ids are assigned on insert.
pub struct Outbox {
    pub audit: Vec<Stored<AuditLog>>,
    pub behavior: Vec<Stored<BehaviorLog>>,
    pub screenshot: Vec<Stored<ScreenshotLog>>,
    pub clipboard: Vec<Stored<ClipboardLog>>,
    pub next_row_id: i64,
}

// ---------------------------------------------------------------------
// Specification
// ---------------------------------------------------------------------

/// The not-yet-uploaded records of a queue, in insertion order.
pub open spec fn spec_unsent<T>(s: Seq<Stored<T>>) -> Seq<T>
    decreases s.len(),
{
    if s.len() == 0 {
        Seq::empty()
    } else {
        let rest = spec_unsent(s.drop_last());
        if !s.last().is_uploaded {
            rest.push(s.last().rec)
        } else {
            rest
        }
    }
}

/// The first `n` elements, or all of them if there are fewer.
pub open spec fn spec_prefix<T>(s: Seq<T>, n: int) -> Seq<T> {
    if s.len() <= n {
        s
    } else {
        s.take(n)
    }
}

/// A queue after marking every record with the given id as uploaded.
pub open spec fn spec_mark_audit(s: Seq<Stored<AuditLog>>, id: Seq<u8>) -> Seq<Stored<AuditLog>> {
    s.map_values(
        |e: Stored<AuditLog>|
            Stored {
                rec: e.rec,
                is_uploaded: e.is_uploaded || spec_string_bytes(e.rec.id@) == id,
            },
    )
}

pub open spec fn spec_mark_behavior(s: Seq<Stored<BehaviorLog>>, id: i64) -> Seq<
    Stored<BehaviorLog>,
> {
    s.map_values(
        |e: Stored<BehaviorLog>|
            Stored { rec: e.rec, is_uploaded: e.is_uploaded || e.rec.id == Some(id) },
    )
}

pub open spec fn spec_mark_screenshot(s: Seq<Stored<ScreenshotLog>>, hash: Seq<u8>) -> Seq<
    Stored<ScreenshotLog>,
> {
    s.map_values(
        |e: Stored<ScreenshotLog>|
            Stored {
                rec: e.rec,
                is_uploaded: e.is_uploaded || spec_string_bytes(e.rec.image_hash@) == hash,
            },
    )
}

pub open spec fn spec_mark_clipboard(s: Seq<Stored<ClipboardLog>>, id: i64) -> Seq<
    Stored<ClipboardLog>,
> {
    s.map_values(
        |e: Stored<ClipboardLog>|
            Stored { rec: e.rec, is_uploaded: e.is_uploaded || e.rec.id == Some(id) },
    )
}

/// Whether some stored screenshot has the given image hash.
pub open spec fn spec_has_hash(s: Seq<Stored<ScreenshotLog>>, hash: Seq<u8>) -> bool {
    exists|i: int|
        0 <= i < s.len() && spec_string_bytes(#[trigger] s[i].rec.image_hash@) == hash
}

/// How many stored screenshots carry the given image hash.
pub open spec fn spec_hash_count(s: Seq<Stored<ScreenshotLog>>, hash: Seq<u8>) -> nat
    decreases s.len(),
{
    if s.len() == 0 {
        0
    } else {
        spec_hash_count(s.drop_last(), hash) + if spec_string_bytes(
            s.last().rec.image_hash@,
        ) == hash {
            1nat
        } else {
            0nat
        }
    }
}

/// A behaviour record with its row id assigned.
pub open spec fn spec_behavior_with_id(l: BehaviorLog, id: i64) -> BehaviorLog {
    BehaviorLog { id: Some(id), ..l }
}

/// A screenshot record with its row id assigned.
pub open spec fn spec_screenshot_with_id(l: ScreenshotLog, id: i64) -> ScreenshotLog {
    ScreenshotLog { id: Some(id), ..l }
}

/// A clipboard record with its row id assigned.
pub open spec fn spec_clipboard_with_id(l: ClipboardLog, id: i64) -> ClipboardLog {
    ClipboardLog { id: Some(id), ..l }
}

// ---------------------------------------------------------------------
// Lemmas
// ---------------------------------------------------------------------

pub proof fn lemma_unsent_push<T>(s: Seq<Stored<T>>, e: Stored<T>)
    ensures
        spec_unsent(s.push(e)) == if !e.is_uploaded {
            spec_unsent(s).push(e.rec)
        } else {
            spec_unsent(s)
        },
{
    assert(s.push(e).drop_last() =~= s);
    assert(s.push(e).last() == e);
}

pub proof fn lemma_unsent_split<T>(s: Seq<Stored<T>>, i: int)
    requires
        0 <= i <= s.len(),
    ensures
        spec_unsent(s) == spec_unsent(s.take(i)) + spec_unsent(s.skip(i)),
    decreases s.len() - i,
{
    if i == s.len() {
        assert(s.take(i) =~= s);
        assert(s.skip(i) =~= Seq::<Stored<T>>::empty());
        assert(spec_unsent(s) =~= spec_unsent(s.take(i)) + spec_unsent(s.skip(i)));
    } else {
        lemma_unsent_split(s.drop_last(), i);
        assert(s.drop_last().take(i) =~= s.take(i));
        assert(s.drop_last().skip(i) =~= s.skip(i).drop_last());
        assert(s.skip(i).len() > 0 && s.skip(i).last() == s.last());
        assert(spec_unsent(s) =~= spec_unsent(s.take(i)) + spec_unsent(s.skip(i)));
    }
}

/// An unsent record at any index appears among the unsent records.
pub proof fn lemma_unsent_contains<T>(s: Seq<Stored<T>>, j: int)
    requires
        0 <= j < s.len(),
        !s[j].is_uploaded,
    ensures
        spec_unsent(s).contains(s[j].rec),
    decreases s.len(),
{
    if j == s.len() - 1 {
        assert(spec_unsent(s)[spec_unsent(s).len() - 1] == s[j].rec);
    } else {
        lemma_unsent_contains(s.drop_last(), j);
        let rest = spec_unsent(s.drop_last());
        let k = choose|k: int| 0 <= k < rest.len() && rest[k] == s[j].rec;
        assert(spec_unsent(s)[k] == s[j].rec);
    }
}

pub proof fn lemma_hash_count_push(s: Seq<Stored<ScreenshotLog>>, e: Stored<ScreenshotLog>, h: Seq<u8>)
    ensures
        spec_hash_count(s.push(e), h) == spec_hash_count(s, h) + if spec_string_bytes(
            e.rec.image_hash@,
        ) == h {
            1nat
        } else {
            0nat
        },
{
    assert(s.push(e).drop_last() =~= s);
    assert(s.push(e).last() == e);
}

pub proof fn lemma_has_hash_count(s: Seq<Stored<ScreenshotLog>>, h: Seq<u8>)
    ensures
        spec_has_hash(s, h) <==> spec_hash_count(s, h) > 0,
    decreases s.len(),
{
    if s.len() > 0 {
        lemma_has_hash_count(s.drop_last(), h);
        if spec_has_hash(s, h) && spec_string_bytes(s.last().rec.image_hash@) != h {
            let i = choose|i: int|
                0 <= i < s.len() && spec_string_bytes(#[trigger] s[i].rec.image_hash@) == h;
            assert(s.drop_last()[i] == s[i]);
        }
        if spec_has_hash(s.drop_last(), h) {
            let i = choose|i: int|
                0 <= i < s.drop_last().len() && spec_string_bytes(
                    #[trigger] s.drop_last()[i].rec.image_hash@,
                ) == h;
            assert(s[i] == s.drop_last()[i]);
        }
    }
}

// ---------------------------------------------------------------------
// Operations
// ---------------------------------------------------------------------

impl Outbox {
    pub fn new() -> (b: Outbox)
        ensures
            b.audit@.len() == 0,
            b.behavior@.len() == 0,
            b.screenshot@.len() == 0,
            b.clipboard@.len() == 0,
            b.next_row_id == 1,
    {
        Outbox {
            audit: Vec::new(),
            behavior: Vec::new(),
            screenshot: Vec::new(),
            clipboard: Vec::new(),
            next_row_id: 1,
        }
    }

    /// Append a traffic record, unsent.
    pub fn save_audit_log(&mut self, log: AuditLog)
        ensures
            final(self).audit@ == old(self).audit@.push(Stored { rec: log, is_uploaded: false }),
            final(self).behavior@ == old(self).behavior@,
            final(self).screenshot@ == old(self).screenshot@,
            final(self).clipboard@ == old(self).clipboard@,
            final(self).next_row_id == old(self).next_row_id,
    {
        self.audit.push(Stored { rec: log, is_uploaded: false });
    }

    /// Append a behaviour record, unsent, assigning it the next row id.
    pub fn save_behavior_log(&mut self, log: BehaviorLog)
        requires
            old(self).next_row_id < i64::MAX,
        ensures
            final(self).behavior@ == old(self).behavior@.push(
                Stored {
                    rec: spec_behavior_with_id(log, old(self).next_row_id),
                    is_uploaded: false,
                },
            ),
            final(self).next_row_id == old(self).next_row_id + 1,
            final(self).audit@ == old(self).audit@,
            final(self).screenshot@ == old(self).screenshot@,
            final(self).clipboard@ == old(self).clipboard@,
    {
        let id = self.next_row_id;
        self.next_row_id = id + 1;
        self.behavior.push(Stored { rec: BehaviorLog { id: Some(id), ..log }, is_uploaded: false });
    }

    /// Append a clipboard record, unsent, assigning it the next row id.
    pub fn save_clipboard_log(&mut self, log: ClipboardLog)
        requires
            old(self).next_row_id < i64::MAX,
        ensures
            final(self).clipboard@ == old(self).clipboard@.push(
                Stored {
                    rec: spec_clipboard_with_id(log, old(self).next_row_id),
                    is_uploaded: false,
                },
            ),
            final(self).next_row_id == old(self).next_row_id + 1,
            final(self).audit@ == old(self).audit@,
            final(self).behavior@ == old(self).behavior@,
            final(self).screenshot@ == old(self).screenshot@,
    {
        let id = self.next_row_id;
        self.next_row_id = id + 1;
        self.clipboard.push(
            Stored { rec: ClipboardLog { id: Some(id), ..log }, is_uploaded: false },
        );
    }

    /// Whether a screenshot with this image hash is already stored.
    #[verifier::loop_isolation(false)]
    pub fn check_screenshot_exists(&self, hash: &str) -> (r: bool)
        ensures
            r == spec_has_hash(self.screenshot@, spec_string_bytes(hash@)),
    {
        let hb: &[u8] = hash.as_bytes();
        let mut i: usize = 0;
        while i < self.screenshot.len()
            invariant
                0 <= i <= self.screenshot@.len(),
                forall|j: int|
                    0 <= j < i ==> spec_string_bytes(
                        #[trigger] self.screenshot@[j].rec.image_hash@,
                    ) != hb@,
            decreases self.screenshot@.len() - i,
        {
            let e = &self.screenshot[i];
            if bytes_eq(e.rec.image_hash.as_str().as_bytes(), hb) {
                proof {
                    assert(spec_string_bytes(self.screenshot@[i as int].rec.image_hash@)
                        == spec_string_bytes(hash@));
                }
                return true;
            }
            i = i + 1;
        }
        false
    }

    /// Append a screenshot record, unsent, unless one with the same
    /// image hash is already stored; in that case do nothing.
    pub fn save_screenshot_log(&mut self, log: ScreenshotLog)
        requires
            old(self).next_row_id < i64::MAX,
        ensures
            spec_has_hash(old(self).screenshot@, spec_string_bytes(log.image_hash@))
                ==> *final(self) == *old(self),
            !spec_has_hash(old(self).screenshot@, spec_string_bytes(log.image_hash@)) ==> {
                &&& final(self).screenshot@ == old(self).screenshot@.push(
                    Stored {
                        rec: spec_screenshot_with_id(log, old(self).next_row_id),
                        is_uploaded: false,
                    },
                )
                &&& final(self).next_row_id == old(self).next_row_id + 1
                &&& final(self).audit@ == old(self).audit@
                &&& final(self).behavior@ == old(self).behavior@
                &&& final(self).clipboard@ == old(self).clipboard@
            },
    {
        let exists_already = self.check_screenshot_exists(log.image_hash.as_str());
        if exists_already {
            return ;
        }
        let id = self.next_row_id;
        self.next_row_id = id + 1;
        self.screenshot.push(
            Stored { rec: ScreenshotLog { id: Some(id), ..log }, is_uploaded: false },
        );
    }

    /// At most `TRAFFIC_BATCH` unsent traffic records, oldest first.
    #[verifier::loop_isolation(false)]
    pub fn get_unsent_audit_logs(&self) -> (r: Vec<AuditLog>)
        ensures
            r@ == spec_prefix(spec_unsent(self.audit@), TRAFFIC_BATCH as int),
            r@.len() <= TRAFFIC_BATCH,
    {
        let mut r: Vec<AuditLog> = Vec::new();
        let n = self.audit.len();
        let mut i: usize = 0;
        while i < n && r.len() < TRAFFIC_BATCH
            invariant
                0 <= i <= n,
                r@ == spec_unsent(self.audit@.take(i as int)),
                r@.len() <= TRAFFIC_BATCH,
            decreases n - i,
        {
            let e = &self.audit[i];
            if !e.is_uploaded {
                r.push(clone_audit_log(&e.rec));
            }
            proof {
                lemma_unsent_push(self.audit@.take(i as int), self.audit@[i as int]);
                assert(self.audit@.take(i + 1) =~= self.audit@.take(i as int).push(
                    self.audit@[i as int],
                ));
            }
            i = i + 1;
        }
        proof {
            if i == n {
                assert(self.audit@.take(n as int) =~= self.audit@);
            } else {
                lemma_unsent_split(self.audit@, i as int);
            }
            assert(spec_prefix(spec_unsent(self.audit@), TRAFFIC_BATCH as int) =~= r@);
        }
        r
    }

    /// At most `BEHAVIOR_BATCH` unsent behaviour records, oldest first.
    #[verifier::loop_isolation(false)]
    pub fn get_unsent_behavior_logs(&self) -> (r: Vec<BehaviorLog>)
        ensures
            r@ == spec_prefix(spec_unsent(self.behavior@), BEHAVIOR_BATCH as int),
            r@.len() <= BEHAVIOR_BATCH,
    {
        let mut r: Vec<BehaviorLog> = Vec::new();
        let n = self.behavior.len();
        let mut i: usize = 0;
        while i < n && r.len() < BEHAVIOR_BATCH
            invariant
                0 <= i <= n,
                r@ == spec_unsent(self.behavior@.take(i as int)),
                r@.len() <= BEHAVIOR_BATCH,
            decreases n - i,
        {
            let e = &self.behavior[i];
            if !e.is_uploaded {
                r.push(clone_behavior_log(&e.rec));
            }
            proof {
                lemma_unsent_push(self.behavior@.take(i as int), self.behavior@[i as int]);
                assert(self.behavior@.take(i + 1) =~= self.behavior@.take(i as int).push(
                    self.behavior@[i as int],
                ));
            }
            i = i + 1;
        }
        proof {
            if i == n {
                assert(self.behavior@.take(n as int) =~= self.behavior@);
            } else {
                lemma_unsent_split(self.behavior@, i as int);
            }
            assert(spec_prefix(spec_unsent(self.behavior@), BEHAVIOR_BATCH as int) =~= r@);
        }
        r
    }

    /// At most `SCREENSHOT_BATCH` unsent screenshot records, oldest
    /// first.
    #[verifier::loop_isolation(false)]
    pub fn get_unsent_screenshot_logs(&self) -> (r: Vec<ScreenshotLog>)
        ensures
            r@ == spec_prefix(spec_unsent(self.screenshot@), SCREENSHOT_BATCH as int),
            r@.len() <= SCREENSHOT_BATCH,
    {
        let mut r: Vec<ScreenshotLog> = Vec::new();
        let n = self.screenshot.len();
        let mut i: usize = 0;
        while i < n && r.len() < SCREENSHOT_BATCH
            invariant
                0 <= i <= n,
                r@ == spec_unsent(self.screenshot@.take(i as int)),
                r@.len() <= SCREENSHOT_BATCH,
            decreases n - i,
        {
            let e = &self.screenshot[i];
            if !e.is_uploaded {
                r.push(clone_screenshot_log(&e.rec));
            }
            proof {
                lemma_unsent_push(self.screenshot@.take(i as int), self.screenshot@[i as int]);
                assert(self.screenshot@.take(i + 1) =~= self.screenshot@.take(i as int).push(
                    self.screenshot@[i as int],
                ));
            }
            i = i + 1;
        }
        proof {
            if i == n {
                assert(self.screenshot@.take(n as int) =~= self.screenshot@);
            } else {
                lemma_unsent_split(self.screenshot@, i as int);
            }
            assert(spec_prefix(spec_unsent(self.screenshot@), SCREENSHOT_BATCH as int) =~= r@);
        }
        r
    }

    /// At most `CLIPBOARD_BATCH` unsent clipboard records, oldest first.
    #[verifier::loop_isolation(false)]
    pub fn get_unsent_clipboard_logs(&self) -> (r: Vec<ClipboardLog>)
        ensures
            r@ == spec_prefix(spec_unsent(self.clipboard@), CLIPBOARD_BATCH as int),
            r@.len() <= CLIPBOARD_BATCH,
    {
        let mut r: Vec<ClipboardLog> = Vec::new();
        let n = self.clipboard.len();
        let mut i: usize = 0;
        while i < n && r.len() < CLIPBOARD_BATCH
            invariant
                0 <= i <= n,
                r@ == spec_unsent(self.clipboard@.take(i as int)),
                r@.len() <= CLIPBOARD_BATCH,
            decreases n - i,
        {
            let e = &self.clipboard[i];
            if !e.is_uploaded {
                r.push(clone_clipboard_log(&e.rec));
            }
            proof {
                lemma_unsent_push(self.clipboard@.take(i as int), self.clipboard@[i as int]);
                assert(self.clipboard@.take(i + 1) =~= self.clipboard@.take(i as int).push(
                    self.clipboard@[i as int],
                ));
            }
            i = i + 1;
        }
        proof {
            if i == n {
                assert(self.clipboard@.take(n as int) =~= self.clipboard@);
            } else {
                lemma_unsent_split(self.clipboard@, i as int);
            }
            assert(spec_prefix(spec_unsent(self.clipboard@), CLIPBOARD_BATCH as int) =~= r@);
        }
        r
    }

    /// Mark the traffic record(s) with this id as uploaded; nothing is
    /// removed and no other field changes.
    #[verifier::loop_isolation(false)]
    pub fn mark_audit_log_sent(&mut self, id: &str)
        ensures
            final(self).audit@ == spec_mark_audit(old(self).audit@, spec_string_bytes(id@)),
            final(self).behavior@ == old(self).behavior@,
            final(self).screenshot@ == old(self).screenshot@,
            final(self).clipboard@ == old(self).clipboard@,
            final(self).next_row_id == old(self).next_row_id,
    {
        let idb: &[u8] = id.as_bytes();
        let mut out: Vec<Stored<AuditLog>> = Vec::new();
        let mut i: usize = 0;
        while i < self.audit.len()
            invariant
                0 <= i <= self.audit@.len(),
                out@ == spec_mark_audit(self.audit@.take(i as int), idb@),
            decreases self.audit@.len() - i,
        {
            let e = &self.audit[i];
            let hit = bytes_eq(e.rec.id.as_str().as_bytes(), idb);
            out.push(Stored { rec: clone_audit_log(&e.rec), is_uploaded: e.is_uploaded || hit });
            proof {
                assert(spec_mark_audit(self.audit@.take(i + 1), idb@) =~= spec_mark_audit(
                    self.audit@.take(i as int),
                    idb@,
                ).push(out@.last()));
            }
            i = i + 1;
        }
        proof {
            assert(self.audit@.take(self.audit@.len() as int) =~= self.audit@);
        }
        self.audit = out;
    }

    /// Mark the behaviour record(s) with this row id as uploaded.
    #[verifier::loop_isolation(false)]
    pub fn mark_behavior_log_sent(&mut self, id: i64)
        ensures
            final(self).behavior@ == spec_mark_behavior(old(self).behavior@, id),
            final(self).audit@ == old(self).audit@,
            final(self).screenshot@ == old(self).screenshot@,
            final(self).clipboard@ == old(self).clipboard@,
            final(self).next_row_id == old(self).next_row_id,
    {
        let mut out: Vec<Stored<BehaviorLog>> = Vec::new();
        let mut i: usize = 0;
        while i < self.behavior.len()
            invariant
                0 <= i <= self.behavior@.len(),
                out@ == spec_mark_behavior(self.behavior@.take(i as int), id),
            decreases self.behavior@.len() - i,
        {
            let e = &self.behavior[i];
            let hit = match e.rec.id {
                Some(x) => x == id,
                None => false,
            };
            out.push(
                Stored { rec: clone_behavior_log(&e.rec), is_uploaded: e.is_uploaded || hit },
            );
            proof {
                assert(spec_mark_behavior(self.behavior@.take(i + 1), id) =~= spec_mark_behavior(
                    self.behavior@.take(i as int),
                    id,
                ).push(out@.last()));
            }
            i = i + 1;
        }
        proof {
            assert(self.behavior@.take(self.behavior@.len() as int) =~= self.behavior@);
        }
        self.behavior = out;
    }

    /// Mark the screenshot record(s) carrying this image hash as
    /// uploaded: completion is tracked by content, not by row id, so a
    /// record recreated after a restart with the same image is
    /// recognised as already handled.
    #[verifier::loop_isolation(false)]
    pub fn mark_screenshot_log_sent(&mut self, hash: &str)
        ensures
            final(self).screenshot@ == spec_mark_screenshot(
                old(self).screenshot@,
                spec_string_bytes(hash@),
            ),
            final(self).audit@ == old(self).audit@,
            final(self).behavior@ == old(self).behavior@,
            final(self).clipboard@ == old(self).clipboard@,
            final(self).next_row_id == old(self).next_row_id,
    {
        let hb: &[u8] = hash.as_bytes();
        let mut out: Vec<Stored<ScreenshotLog>> = Vec::new();
        let mut i: usize = 0;
        while i < self.screenshot.len()
            invariant
                0 <= i <= self.screenshot@.len(),
                out@ == spec_mark_screenshot(self.screenshot@.take(i as int), hb@),
            decreases self.screenshot@.len() - i,
        {
            let e = &self.screenshot[i];
            let hit = bytes_eq(e.rec.image_hash.as_str().as_bytes(), hb);
            out.push(
                Stored { rec: clone_screenshot_log(&e.rec), is_uploaded: e.is_uploaded || hit },
            );
            proof {
                assert(spec_mark_screenshot(self.screenshot@.take(i + 1), hb@)
                    =~= spec_mark_screenshot(self.screenshot@.take(i as int), hb@).push(
                    out@.last(),
                ));
            }
            i = i + 1;
        }
        proof {
            assert(self.screenshot@.take(self.screenshot@.len() as int) =~= self.screenshot@);
        }
        self.screenshot = out;
    }

    /// Mark the clipboard record(s) with this row id as uploaded.
    #[verifier::loop_isolation(false)]
    pub fn mark_clipboard_log_sent(&mut self, id: i64)
        ensures
            final(self).clipboard@ == spec_mark_clipboard(old(self).clipboard@, id),
            final(self).audit@ == old(self).audit@,
            final(self).behavior@ == old(self).behavior@,
            final(self).screenshot@ == old(self).screenshot@,
            final(self).next_row_id == old(self).next_row_id,
    {
        let mut out: Vec<Stored<ClipboardLog>> = Vec::new();
        let mut i: usize = 0;
        while i < self.clipboard.len()
            invariant
                0 <= i <= self.clipboard@.len(),
                out@ == spec_mark_clipboard(self.clipboard@.take(i as int), id),
            decreases self.clipboard@.len() - i,
        {
            let e = &self.clipboard[i];
            let hit = match e.rec.id {
                Some(x) => x == id,
                None => false,
            };
            out.push(
                Stored { rec: clone_clipboard_log(&e.rec), is_uploaded: e.is_uploaded || hit },
            );
            proof {
                assert(spec_mark_clipboard(self.clipboard@.take(i + 1), id)
                    =~= spec_mark_clipboard(self.clipboard@.take(i as int), id).push(out@.last()));
            }
            i = i + 1;
        }
        proof {
            assert(self.clipboard@.take(self.clipboard@.len() as int) =~= self.clipboard@);
        }
        self.clipboard = out;
    }
}

// ---------------------------------------------------------------------
// Clipboard history query
// ---------------------------------------------------------------------

/// How many clipboard records the history query returns at most.
pub const CLIPBOARD_QUERY_LIMIT: usize = 100;

/// The operation-time key a clipboard record is ordered by.
pub open spec fn spec_op_time_key(l: ClipboardLog) -> Seq<u8> {
    spec_string_bytes(l.op_time@)
}

/// Newest first: every later element's key is at most every earlier
/// one's.
pub open spec fn spec_sorted_desc(s: Seq<ClipboardLog>) -> bool {
    forall|i: int, j: int|
        0 <= i < j < s.len() ==> spec_lex_le(
            spec_op_time_key(#[trigger] s[j]),
            spec_op_time_key(#[trigger] s[i]),
        )
}

/// The records a clipboard queue stores, in insertion order.
pub open spec fn spec_clip_records(s: Seq<Stored<ClipboardLog>>) -> Seq<ClipboardLog> {
    s.map_values(|e: Stored<ClipboardLog>| e.rec)
}

proof fn lemma_insert_to_multiset(s: Seq<ClipboardLog>, i: int, x: ClipboardLog)
    requires
        0 <= i <= s.len(),
    ensures
        s.insert(i, x).to_multiset() == s.to_multiset().insert(x),
    decreases s.len() - i,
{
    broadcast use vstd::seq_lib::group_to_multiset_ensures;

    if i == s.len() {
        assert(s.insert(i, x) =~= s.push(x));
    } else {
        lemma_insert_to_multiset(s.drop_last(), i, x);
        assert(s.insert(i, x) =~= s.drop_last().insert(i, x).push(s.last()));
        assert(s =~= s.drop_last().push(s.last()));
        assert(s.drop_last().to_multiset().insert(x).insert(s.last()) =~= s.drop_last()
            .to_multiset().insert(s.last()).insert(x));
    }
}

/// Insert one record into a newest-first list, keeping it sorted.
#[verifier::loop_isolation(false)]
fn insert_sorted(v: &mut Vec<ClipboardLog>, x: ClipboardLog)
    requires
        spec_sorted_desc(old(v)@),
    ensures
        spec_sorted_desc(final(v)@),
        final(v)@.to_multiset() == old(v)@.to_multiset().insert(x),
        final(v)@.len() == old(v)@.len() + 1,
{
    let mut pos: usize = 0;
    while pos < v.len() && lex_le_bytes(
        x.op_time.as_str().as_bytes(),
        v[pos].op_time.as_str().as_bytes(),
    )
        invariant
            0 <= pos <= v@.len(),
            forall|j: int|
                0 <= j < pos ==> spec_lex_le(spec_op_time_key(x), spec_op_time_key(
                    #[trigger] v@[j],
                )),
        decreases v@.len() - pos,
    {
        pos = pos + 1;
    }
    proof {
        if pos < v@.len() {
            lemma_lex_total(spec_op_time_key(x), spec_op_time_key(v@[pos as int]));
        }
        lemma_insert_to_multiset(v@, pos as int, x);
    }
    let ghost before = v@;
    v.insert(pos, x);
    proof {
        let after = v@;
        assert forall|i: int, j: int| 0 <= i < j < after.len() implies spec_lex_le(
            spec_op_time_key(#[trigger] after[j]),
            spec_op_time_key(#[trigger] after[i]),
        ) by {
            if i == pos as int && j > pos as int {
                // everything after the insertion point is at most the
                // element at the point, which is at most x
                if j - 1 > pos as int {
                    lemma_lex_trans(
                        spec_op_time_key(before[j - 1]),
                        spec_op_time_key(before[pos as int]),
                        spec_op_time_key(x),
                    );
                } else {
                    lemma_lex_refl(spec_op_time_key(before[pos as int]));
                }
            }
        }
    }
}

impl Outbox {
    /// The stored clipboard records, newest operation time first, at
    /// most `CLIPBOARD_QUERY_LIMIT` of them: the history view offered
    /// to the local user interface.
    #[verifier::loop_isolation(false)]
    pub fn get_all_clipboard_logs(&self) -> (r: Vec<ClipboardLog>)
        ensures
            exists|full: Seq<ClipboardLog>|
                {
                    &&& (#[trigger] full.to_multiset()) == spec_clip_records(
                        self.clipboard@,
                    ).to_multiset()
                    &&& spec_sorted_desc(full)
                    &&& r@ == spec_prefix(full, CLIPBOARD_QUERY_LIMIT as int)
                },
    {
        broadcast use vstd::seq_lib::group_to_multiset_ensures;

        let mut sorted: Vec<ClipboardLog> = Vec::new();
        let mut i: usize = 0;
        while i < self.clipboard.len()
            invariant
                0 <= i <= self.clipboard@.len(),
                spec_sorted_desc(sorted@),
                sorted@.to_multiset() == spec_clip_records(
                    self.clipboard@.take(i as int),
                ).to_multiset(),
            decreases self.clipboard@.len() - i,
        {
            let e = &self.clipboard[i];
            insert_sorted(&mut sorted, clone_clipboard_log(&e.rec));
            proof {
                assert(self.clipboard@.take(i + 1) =~= self.clipboard@.take(i as int).push(
                    self.clipboard@[i as int],
                ));
                assert(spec_clip_records(self.clipboard@.take(i + 1)) =~= spec_clip_records(
                    self.clipboard@.take(i as int),
                ).push(self.clipboard@[i as int].rec));
            }
            i = i + 1;
        }
        proof {
            assert(self.clipboard@.take(self.clipboard@.len() as int) =~= self.clipboard@);
        }
        let ghost full = sorted@;
        if sorted.len() > CLIPBOARD_QUERY_LIMIT {
            sorted.truncate(CLIPBOARD_QUERY_LIMIT);
            proof {
                assert(sorted@ == spec_prefix(full, CLIPBOARD_QUERY_LIMIT as int));
            }
        }
        sorted
    }
}

// ---------------------------------------------------------------------
// Laws
// ---------------------------------------------------------------------

/// Screenshot-deduplication law: starting from a queue without the
/// hash, inserting a record stores it exactly once, and any further
/// record with the same image hash finds the hash present — so the
/// outbox leaves the queue untouched (a no-op insert).
pub proof fn lemma_screenshot_dedup(
    s: Seq<Stored<ScreenshotLog>>,
    r1: ScreenshotLog,
    r2: ScreenshotLog,
    id1: i64,
)
    requires
        spec_string_bytes(r1.image_hash@) == spec_string_bytes(r2.image_hash@),
        !spec_has_hash(s, spec_string_bytes(r1.image_hash@)),
    ensures
        spec_hash_count(
            s.push(Stored { rec: spec_screenshot_with_id(r1, id1), is_uploaded: false }),
            spec_string_bytes(r1.image_hash@),
        ) == 1,
        spec_has_hash(
            s.push(Stored { rec: spec_screenshot_with_id(r1, id1), is_uploaded: false }),
            spec_string_bytes(r2.image_hash@),
        ),
{
    let h = spec_string_bytes(r1.image_hash@);
    let e = Stored { rec: spec_screenshot_with_id(r1, id1), is_uploaded: false };
    lemma_has_hash_count(s, h);
    lemma_hash_count_push(s, e, h);
    assert(s.push(e)[s.len() as int] == e);
}

/// At-least-once law: marking one id as sent never removes a record,
/// never changes a record's contents, and leaves every unsent record
/// with a different id unsent — so a record whose upload succeeded but
/// whose mark-sent was never issued is still listed on the next drain.
pub proof fn lemma_at_least_once(s: Seq<Stored<AuditLog>>, j: int, marked: Seq<u8>)
    requires
        0 <= j < s.len(),
        !s[j].is_uploaded,
        spec_string_bytes(s[j].rec.id@) != marked,
    ensures
        spec_mark_audit(s, marked).len() == s.len(),
        spec_mark_audit(s, marked)[j].rec == s[j].rec,
        !spec_mark_audit(s, marked)[j].is_uploaded,
        spec_unsent(spec_mark_audit(s, marked)).contains(s[j].rec),
{
    let after = spec_mark_audit(s, marked);
    assert(after[j].rec == s[j].rec);
    assert(!after[j].is_uploaded);
    lemma_unsent_contains(after, j);
}

} // verus!
