//! Anomaly scanning: running processes and installed applications are
//! held against the policy blacklists, case-insensitively, and every
//! hit becomes one high-risk behaviour record.  Enumerating processes
//! and directories is the caller's concern; the matching and the
//! records are decided here.

use vstd::prelude::*;
use vstd::string::StringExecFns;

use crate::records::{BehaviorLog, DeviceInfo};
use crate::text::{
    spec_lower, spec_contains, spec_ends_with, spec_string_bytes, lower_bytes, contains_bytes,
    ends_with_bytes,
};

verus! {

/// Risk level recorded for every scanner finding.
pub const ANOMALY_RISK_LEVEL: i32 = 2;

/// Whether a blacklist entry hits a name: the entry occurs in the
/// name, ignoring ASCII case.
pub open spec fn spec_black_hit(entry: Seq<char>, name: Seq<char>) -> bool {
    spec_contains(
        spec_lower(spec_string_bytes(name)),
        spec_lower(spec_string_bytes(entry)),
    )
}

/// Whether any blacklist entry hits the name.
pub open spec fn spec_any_black_hit(blacklist: Seq<String>, name: Seq<char>) -> bool {
    exists|i: int| 0 <= i < blacklist.len() && spec_black_hit(#[trigger] blacklist[i]@, name)
}

/// The first blacklist entry that occurs in the name, ignoring ASCII
/// case — first match wins, later entries are not consulted.
#[verifier::loop_isolation(false)]
pub fn match_blacklist(name: &str, blacklist: &Vec<String>) -> (r: Option<usize>)
    ensures
        r is None <==> !spec_any_black_hit(blacklist@, name@),
        r matches Some(i) ==> 0 <= i < blacklist@.len() && spec_black_hit(
            blacklist@[i as int]@,
            name@,
        ) && forall|j: int| 0 <= j < i ==> !spec_black_hit(#[trigger] blacklist@[j]@, name@),
{
    let nl = lower_bytes(name.as_bytes());
    let mut i: usize = 0;
    while i < blacklist.len()
        invariant
            0 <= i <= blacklist@.len(),
            forall|j: int| 0 <= j < i ==> !spec_black_hit(#[trigger] blacklist@[j]@, name@),
        decreases blacklist@.len() - i,
    {
        let entry = &blacklist[i];
        let el = lower_bytes(entry.as_str().as_bytes());
        if contains_bytes(nl.as_slice(), el.as_slice()) {
            return Some(i);
        }
        i = i + 1;
    }
    None
}

/// Whether a directory entry counts as a suspicious application for a
/// blacklist entry: it names an application bundle (ends in `.app`)
/// and contains the blacklisted name, both ignoring ASCII case.
pub open spec fn spec_app_entry_hit(entry: Seq<char>, black: Seq<char>) -> bool {
    &&& spec_ends_with(spec_lower(spec_string_bytes(entry)), spec_string_bytes(".app"@))
    &&& spec_contains(spec_lower(spec_string_bytes(entry)), spec_lower(spec_string_bytes(black)))
}

/// The directory entries flagged for one blacklisted application, in
/// directory order.
pub open spec fn spec_flagged_entries(entries: Seq<String>, black: Seq<char>) -> Seq<String>
    decreases entries.len(),
{
    if entries.len() == 0 {
        Seq::empty()
    } else {
        let rest = spec_flagged_entries(entries.drop_last(), black);
        if spec_app_entry_hit(entries.last()@, black) {
            rest.push(entries.last())
        } else {
            rest
        }
    }
}

/// Flag the application-directory entries that match one blacklisted
/// name.
#[verifier::loop_isolation(false)]
pub fn flag_app_entries(entries: &Vec<String>, black: &str) -> (r: Vec<String>)
    ensures
        r@ == spec_flagged_entries(entries@, black@),
{
    let bl = lower_bytes(black.as_bytes());
    let suffix: &[u8] = ".app".as_bytes();
    let mut r: Vec<String> = Vec::new();
    let mut i: usize = 0;
    while i < entries.len()
        invariant
            0 <= i <= entries@.len(),
            r@ == spec_flagged_entries(entries@.take(i as int), black@),
        decreases entries@.len() - i,
    {
        let entry = &entries[i];
        let el = lower_bytes(entry.as_str().as_bytes());
        if ends_with_bytes(el.as_slice(), suffix) && contains_bytes(el.as_slice(), bl.as_slice())
        {
            r.push(entry.clone());
        }
        proof {
            assert(entries@.take(i + 1) =~= entries@.take(i as int).push(entries@[i as int]));
            assert(entries@.take(i + 1).drop_last() =~= entries@.take(i as int));
        }
        i = i + 1;
    }
    proof {
        assert(entries@.take(entries@.len() as int) =~= entries@);
    }
    r
}

/// One behaviour record for a scanner finding: risk is always high,
/// the identity fields come from the device, and the row id is left
/// for the outbox to assign.
pub fn anomaly_record(
    proc_name: &str,
    op_type: &str,
    detail: &str,
    device: &DeviceInfo,
    op_time: &str,
) -> (r: BehaviorLog)
    ensures
        r.id is None,
        r.proc@ == proc_name@,
        r.op_type@ == op_type@,
        r.detail@ == detail@,
        r.op_time@ == op_time@,
        r.risk_level == ANOMALY_RISK_LEVEL,
        r.cpe_id@ == device.cpe_id@,
        r.host_id@ == device.host_id@,
        r.mac@ == device.mac@,
        r.ip@ == device.ip@,
{
    BehaviorLog {
        id: None,
        proc: proc_name.to_owned(),
        op_time: op_time.to_owned(),
        cpe_id: device.cpe_id.clone(),
        op_type: op_type.to_owned(),
        detail: detail.to_owned(),
        risk_level: ANOMALY_RISK_LEVEL,
        host_id: device.host_id.clone(),
        mac: device.mac.clone(),
        ip: device.ip.clone(),
    }
}

/// The processes that the blacklist flags, in enumeration order; each
/// flagged process produces one finding (first matching entry wins).
pub open spec fn spec_hit_processes(processes: Seq<String>, blacklist: Seq<String>) -> Seq<
    String,
>
    decreases processes.len(),
{
    if processes.len() == 0 {
        Seq::empty()
    } else {
        let rest = spec_hit_processes(processes.drop_last(), blacklist);
        if spec_any_black_hit(blacklist, processes.last()@) {
            rest.push(processes.last())
        } else {
            rest
        }
    }
}

/// Scan an enumeration of running process names against the process
/// blacklist: one high-risk behaviour record per flagged process.
#[verifier::loop_isolation(false)]
pub fn scan_processes(
    processes: &Vec<String>,
    blacklist: &Vec<String>,
    device: &DeviceInfo,
    op_time: &str,
) -> (r: Vec<BehaviorLog>)
    ensures
        r@.len() == spec_hit_processes(processes@, blacklist@).len(),
        forall|k: int|
            0 <= k < r@.len() ==> {
                let hit = spec_hit_processes(processes@, blacklist@)[k];
                &&& (#[trigger] r@[k]).proc@ == hit@
                &&& r@[k].op_type@ == "AbnormalProcess"@
                &&& r@[k].detail@ == "Detected running blacklisted process: "@ + hit@
                &&& r@[k].op_time@ == op_time@
                &&& r@[k].risk_level == ANOMALY_RISK_LEVEL
                &&& r@[k].id is None
                &&& r@[k].cpe_id@ == device.cpe_id@
                &&& r@[k].host_id@ == device.host_id@
                &&& r@[k].mac@ == device.mac@
                &&& r@[k].ip@ == device.ip@
            },
{
    let mut r: Vec<BehaviorLog> = Vec::new();
    let mut i: usize = 0;
    while i < processes.len()
        invariant
            0 <= i <= processes@.len(),
            r@.len() == spec_hit_processes(processes@.take(i as int), blacklist@).len(),
            forall|k: int|
                0 <= k < r@.len() ==> {
                    let hit = spec_hit_processes(processes@.take(i as int), blacklist@)[k];
                    &&& (#[trigger] r@[k]).proc@ == hit@
                    &&& r@[k].op_type@ == "AbnormalProcess"@
                    &&& r@[k].detail@ == "Detected running blacklisted process: "@ + hit@
                    &&& r@[k].op_time@ == op_time@
                    &&& r@[k].risk_level == ANOMALY_RISK_LEVEL
                    &&& r@[k].id is None
                    &&& r@[k].cpe_id@ == device.cpe_id@
                    &&& r@[k].host_id@ == device.host_id@
                    &&& r@[k].mac@ == device.mac@
                    &&& r@[k].ip@ == device.ip@
                },
        decreases processes@.len() - i,
    {
        let name = &processes[i];
        if match_blacklist(name.as_str(), blacklist).is_some() {
            let mut detail = String::from_str("Detected running blacklisted process: ");
            detail.append(name.as_str());
            let record = anomaly_record(
                name.as_str(),
                "AbnormalProcess",
                detail.as_str(),
                device,
                op_time,
            );
            r.push(record);
        }
        proof {
            assert(processes@.take(i + 1) =~= processes@.take(i as int).push(
                processes@[i as int],
            ));
            assert(processes@.take(i + 1).drop_last() =~= processes@.take(i as int));
            let now = spec_hit_processes(processes@.take(i + 1), blacklist@);
            let before = spec_hit_processes(processes@.take(i as int), blacklist@);
            assert(forall|k: int| 0 <= k < before.len() ==> now[k] == before[k]);
        }
        i = i + 1;
    }
    proof {
        assert(processes@.take(processes@.len() as int) =~= processes@);
    }
    r
}

} // verus!
