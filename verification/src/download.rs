//! The download manager: a job table keyed by archive id, and the
//! counting-semaphore model that admits at most `limit` jobs into the
//! `Downloading` state at once. Jobs move `Queued -> Downloading ->
//! {Completed | Failed}`; a permit is taken when a job starts and
//! given back on every exit path. The well-formedness invariant ties
//! the permit count to the number of `Downloading` jobs and caps it
//! by the pool size.
use vstd::prelude::*;

use crate::strings::{
    chars_of, ends_with_seq, ends_with_str, i32_of_seq, parse_i32, string_from_chars,
};

verus! {

/// Where a download job stands.
#[derive(Clone, Copy, Debug, PartialEq, Eq, Structural)]
pub enum DownloadState {
    Queued,
    Downloading,
    Completed,
    Failed,
}

/// One download job: identity, display data, state, and progress.
#[derive(Clone, Debug)]
pub struct DownloadStatus {
    pub beatmapset_id: i32,
    pub filename: String,
    pub display_name: String,
    pub status: DownloadState,
    pub progress: u64,
    pub error: Option<String>,
    pub downloaded_bytes: u64,
    pub total_bytes: Option<u64>,
}

/// The job table and the admission pool: at most `limit` permits,
/// `active` of them out.
pub struct DownloadCenter {
    pub jobs: Vec<DownloadStatus>,
    pub limit: u64,
    pub active: u64,
}

/// How many jobs of `s` are `Downloading`.
pub open spec fn dcount(s: Seq<DownloadStatus>) -> nat
    decreases s.len(),
{
    if s.len() == 0 {
        0
    } else {
        dcount(s.drop_last()) + if s.last().status is Downloading {
            1nat
        } else {
            0nat
        }
    }
}

/// No two jobs share an id.
pub open spec fn ids_unique(s: Seq<DownloadStatus>) -> bool {
    forall|i: int, j: int|
        0 <= i < j < s.len() ==> (#[trigger] s[i]).beatmapset_id != (
        #[trigger] s[j]).beatmapset_id
}

/// The first slot holding the job with this id.
pub open spec fn find_job_from(s: Seq<DownloadStatus>, id: i32, from: int) -> Option<int>
    decreases s.len() - from,
        when 0 <= from <= s.len()
{
    if from < 0 || from >= s.len() {
        None
    } else if s[from].beatmapset_id == id {
        Some(from)
    } else {
        find_job_from(s, id, from + 1)
    }
}

/// The slot holding the job with this id, if any.
pub open spec fn find_job(s: Seq<DownloadStatus>, id: i32) -> Option<int> {
    find_job_from(s, id, 0)
}

impl DownloadCenter {
    /// Permit accounting: the permits out are exactly the jobs
    /// mid-transfer, and never more than the pool holds.
    pub open spec fn wf(self) -> bool {
        &&& ids_unique(self.jobs@)
        &&& self.active == dcount(self.jobs@)
        &&& self.active <= self.limit
    }

    /// An empty job table with a pool of `limit` permits.
    pub fn new(limit: u64) -> (c: DownloadCenter)
        ensures
            c.wf(),
            c.jobs@.len() == 0,
            c.limit == limit,
            c.active == 0,
    {
        DownloadCenter { jobs: Vec::new(), limit, active: 0 }
    }
}

proof fn lemma_dcount_push(s: Seq<DownloadStatus>, j: DownloadStatus)
    ensures
        dcount(s.push(j)) == dcount(s) + if j.status is Downloading {
            1nat
        } else {
            0nat
        },
{
    assert(s.push(j).drop_last() =~= s);
    assert(s.push(j).last() == j);
}

proof fn lemma_dcount_update(s: Seq<DownloadStatus>, ix: int, j: DownloadStatus)
    requires
        0 <= ix < s.len(),
    ensures
        dcount(s.update(ix, j)) + (if s[ix].status is Downloading {
            1nat
        } else {
            0nat
        }) == dcount(s) + if j.status is Downloading {
            1nat
        } else {
            0nat
        },
    decreases s.len(),
{
    let t = s.update(ix, j);
    if ix == s.len() - 1 {
        assert(t.drop_last() =~= s.drop_last());
        assert(t.last() == j);
    } else {
        assert(t.drop_last() =~= s.drop_last().update(ix, j));
        assert(t.last() == s.last());
        lemma_dcount_update(s.drop_last(), ix, j);
    }
}

proof fn lemma_find_job_found(s: Seq<DownloadStatus>, id: i32, from: int)
    requires
        0 <= from <= s.len(),
    ensures
        find_job_from(s, id, from) matches Some(ix) ==> from <= ix < s.len() && s[ix].beatmapset_id
            == id,
        find_job_from(s, id, from) is None ==> forall|m: int|
            from <= m < s.len() ==> (#[trigger] s[m]).beatmapset_id != id,
    decreases s.len() - from,
{
    if from < s.len() && s[from].beatmapset_id != id {
        lemma_find_job_found(s, id, from + 1);
    }
}

fn find_slot(jobs: &Vec<DownloadStatus>, id: i32) -> (r: Option<usize>)
    ensures
        match r {
            Some(ix) => find_job(jobs@, id) == Some(ix as int),
            None => find_job(jobs@, id) is None,
        },
{
    let n = jobs.len();
    let mut i: usize = 0;
    while i < n
        invariant_except_break
            n == jobs@.len(),
            0 <= i <= n,
            find_job(jobs@, id) == find_job_from(jobs@, id, i as int),
        ensures
            n == jobs@.len(),
            i <= n,
            i < n ==> find_job(jobs@, id) == Some(i as int),
            i == n ==> find_job(jobs@, id) is None,
        decreases n - i,
    {
        if jobs[i].beatmapset_id == id {
            break;
        }
        i += 1;
    }
    if i < n {
        Some(i)
    } else {
        None
    }
}

/// The job is a freshly queued record for this id, name pair.
pub open spec fn fresh_queued(j: DownloadStatus, id: i32, filename: Seq<char>, display: Seq<
    char,
>) -> bool {
    &&& j.beatmapset_id == id
    &&& j.filename@ == filename
    &&& j.display_name@ == display
    &&& j.status is Queued
    &&& j.progress == 0
    &&& j.error is None
    &&& j.downloaded_bytes == 0
    &&& j.total_bytes is None
}

/// Adds a job to the table in the `Queued` state, replacing any
/// record under the same id (a replaced mid-transfer job gives its
/// permit back to the model).
pub fn queue_download(center: &mut DownloadCenter, beatmapset_id: i32, filename: String,
    display_name: String)
    requires
        old(center).wf(),
    ensures
        final(center).wf(),
        final(center).limit == old(center).limit,
        final(center).active <= old(center).active,
        match find_job(old(center).jobs@, beatmapset_id) {
            None => {
                &&& final(center).jobs@.len() == old(center).jobs@.len() + 1
                &&& fresh_queued(
                    final(center).jobs@.last(),
                    beatmapset_id,
                    filename@,
                    display_name@,
                )
                &&& final(center).jobs@.subrange(0, old(center).jobs@.len() as int) == old(
                    center,
                ).jobs@
                &&& final(center).active == old(center).active
            },
            Some(ix) => {
                &&& final(center).jobs@ == old(center).jobs@.update(ix, final(center).jobs@[ix])
                &&& fresh_queued(final(center).jobs@[ix], beatmapset_id, filename@, display_name@)
            },
        },
        find_job(final(center).jobs@, beatmapset_id) matches Some(fix) && fresh_queued(
            final(center).jobs@[fix],
            beatmapset_id,
            filename@,
            display_name@,
        ),
{
    let fresh = DownloadStatus {
        beatmapset_id,
        filename,
        display_name,
        status: DownloadState::Queued,
        progress: 0,
        error: None,
        downloaded_bytes: 0,
        total_bytes: None,
    };
    proof {
        lemma_find_job_found(center.jobs@, beatmapset_id, 0);
    }
    match find_slot(&center.jobs, beatmapset_id) {
        None => {
            proof {
                lemma_dcount_push(center.jobs@, fresh);
            }
            let ghost pre = center.jobs@;
            center.jobs.push(fresh);
            proof {
                assert(center.jobs@.subrange(0, pre.len() as int) =~= pre);
                assert forall|i: int, j: int|
                    0 <= i < j < center.jobs@.len() implies (
                #[trigger] center.jobs@[i]).beatmapset_id != (
                #[trigger] center.jobs@[j]).beatmapset_id by {
                    if j < pre.len() {
                        assert(pre[i].beatmapset_id != pre[j].beatmapset_id);
                    } else {
                        assert(pre[i].beatmapset_id != beatmapset_id);
                    }
                }
                assert(center.jobs@[pre.len() as int].beatmapset_id == beatmapset_id);
                lemma_find_job_some(center.jobs@, beatmapset_id);
                lemma_find_job_found(center.jobs@, beatmapset_id, 0);
                let fix = find_job(center.jobs@, beatmapset_id)->0;
                if fix < pre.len() {
                    assert(center.jobs@[fix] == pre[fix]);
                    assert(pre[fix].beatmapset_id != beatmapset_id);
                }
                assert(center.jobs@[fix] == center.jobs@.last());
            }
        },
        Some(ix) => {
            let ghost pre = center.jobs@;
            let was_downloading = matches!(center.jobs[ix].status, DownloadState::Downloading);
            proof {
                lemma_dcount_update(pre, ix as int, fresh);
            }
            center.jobs.set(ix, fresh);
            if was_downloading {
                center.active = center.active - 1;
            }
            proof {
                assert forall|i: int, j: int|
                    0 <= i < j < center.jobs@.len() implies (
                #[trigger] center.jobs@[i]).beatmapset_id != (
                #[trigger] center.jobs@[j]).beatmapset_id by {
                    assert(pre[i].beatmapset_id != pre[j].beatmapset_id);
                    assert(pre[ix as int].beatmapset_id == beatmapset_id);
                }
                assert(center.jobs@[ix as int].beatmapset_id == beatmapset_id);
                lemma_find_job_some(center.jobs@, beatmapset_id);
                lemma_find_job_found(center.jobs@, beatmapset_id, 0);
                let fix = find_job(center.jobs@, beatmapset_id)->0;
                if fix != ix as int {
                    assert(center.jobs@[fix] == pre[fix]);
                    assert(pre[ix as int].beatmapset_id == beatmapset_id);
                }
            }
        },
    }
}

fn clone_opt_string(o: &Option<String>) -> (r: Option<String>)
    ensures
        r == *o,
{
    match o {
        None => None,
        Some(s) => Some(s.clone()),
    }
}

fn clone_job(j: &DownloadStatus) -> (r: DownloadStatus)
    ensures
        r == *j,
{
    DownloadStatus {
        beatmapset_id: j.beatmapset_id,
        filename: j.filename.clone(),
        display_name: j.display_name.clone(),
        status: j.status,
        progress: j.progress,
        error: clone_opt_string(&j.error),
        downloaded_bytes: j.downloaded_bytes,
        total_bytes: j.total_bytes,
    }
}

proof fn lemma_dcount_le_len(s: Seq<DownloadStatus>)
    ensures
        dcount(s) <= s.len(),
    decreases s.len(),
{
    if s.len() > 0 {
        lemma_dcount_le_len(s.drop_last());
    }
}

proof fn lemma_dcount_lt_len(s: Seq<DownloadStatus>, ix: int)
    requires
        0 <= ix < s.len(),
        !(s[ix].status is Downloading),
    ensures
        dcount(s) < s.len(),
    decreases s.len(),
{
    lemma_dcount_le_len(s);
    if ix == s.len() - 1 {
        lemma_dcount_le_len(s.drop_last());
    } else {
        lemma_dcount_lt_len(s.drop_last(), ix);
    }
}

proof fn lemma_dcount_pos(s: Seq<DownloadStatus>, ix: int)
    requires
        0 <= ix < s.len(),
        s[ix].status is Downloading,
    ensures
        dcount(s) >= 1,
    decreases s.len(),
{
    if ix < s.len() - 1 {
        lemma_dcount_pos(s.drop_last(), ix);
    }
}

/// Starts a queued job if a permit is free: it turns `Downloading`
/// and takes one permit. Returns whether the job was admitted; an
/// unknown id, a job not `Queued`, or an exhausted pool admit
/// nothing and change nothing.
pub fn try_start(center: &mut DownloadCenter, beatmapset_id: i32) -> (r: bool)
    requires
        old(center).wf(),
    ensures
        final(center).wf(),
        final(center).limit == old(center).limit,
        r == (find_job(old(center).jobs@, beatmapset_id) matches Some(ix) && old(
            center,
        ).jobs@[ix].status is Queued && old(center).active < old(center).limit),
        !r ==> final(center).jobs@ == old(center).jobs@ && final(center).active == old(
            center,
        ).active,
        r ==> ({
            let ix = find_job(old(center).jobs@, beatmapset_id)->0;
            &&& final(center).jobs@ == old(center).jobs@.update(
                ix,
                DownloadStatus { status: DownloadState::Downloading, ..old(center).jobs@[ix] },
            )
            &&& final(center).active == old(center).active + 1
        }),
{
    proof {
        lemma_find_job_found(center.jobs@, beatmapset_id, 0);
    }
    match find_slot(&center.jobs, beatmapset_id) {
        None => false,
        Some(ix) => {
            let is_queued = matches!(center.jobs[ix].status, DownloadState::Queued);
            if is_queued && center.active < center.limit {
                let mut j = clone_job(&center.jobs[ix]);
                j.status = DownloadState::Downloading;
                proof {
                    lemma_dcount_update(center.jobs@, ix as int, j);
                }
                center.jobs.set(ix, j);
                center.active = center.active + 1;
                proof {
                    assert forall|a: int, b: int|
                        0 <= a < b < center.jobs@.len() implies (
                    #[trigger] center.jobs@[a]).beatmapset_id != (
                    #[trigger] center.jobs@[b]).beatmapset_id by {
                        assert(old(center).jobs@[a].beatmapset_id != old(
                            center,
                        ).jobs@[b].beatmapset_id);
                    }
                }
                true
            } else {
                false
            }
        },
    }
}

/// Records the transfer's total size on the job under `id`; any
/// other field, every other job and the permits are untouched.
pub fn set_total(center: &mut DownloadCenter, beatmapset_id: i32, total: u64)
    requires
        old(center).wf(),
    ensures
        final(center).wf(),
        final(center).limit == old(center).limit,
        final(center).active == old(center).active,
        match find_job(old(center).jobs@, beatmapset_id) {
            None => final(center).jobs@ == old(center).jobs@,
            Some(ix) => final(center).jobs@ == old(center).jobs@.update(
                ix,
                DownloadStatus { total_bytes: Some(total), ..old(center).jobs@[ix] },
            ),
        },
{
    proof {
        lemma_find_job_found(center.jobs@, beatmapset_id, 0);
    }
    match find_slot(&center.jobs, beatmapset_id) {
        None => {},
        Some(ix) => {
            let mut j = clone_job(&center.jobs[ix]);
            j.total_bytes = Some(total);
            proof {
                lemma_dcount_update(center.jobs@, ix as int, j);
            }
            center.jobs.set(ix, j);
            proof {
                assert forall|a: int, b: int|
                    0 <= a < b < center.jobs@.len() implies (
                #[trigger] center.jobs@[a]).beatmapset_id != (
                #[trigger] center.jobs@[b]).beatmapset_id by {
                    assert(old(center).jobs@[a].beatmapset_id != old(
                        center,
                    ).jobs@[b].beatmapset_id);
                }
            }
        },
    }
}

/// A byte count as a whole percentage of `total`: 0 of an unknown
/// or zero total, floor otherwise, capped at the type's maximum.
pub open spec fn percent_of(downloaded: u64, total: u64) -> nat {
    if total == 0 {
        0
    } else if downloaded * 100 / (total as int) <= u64::MAX {
        (downloaded * 100 / (total as int)) as nat
    } else {
        u64::MAX as nat
    }
}

/// Computes a download's progress percentage; 0 when the total is
/// unknown (zero).
pub fn calculate_progress(downloaded: u64, total: u64) -> (r: u64)
    ensures
        r == percent_of(downloaded, total),
{
    if total == 0 {
        return 0;
    }
    let wide: u128 = (downloaded as u128) * 100 / (total as u128);
    if wide > u64::MAX as u128 {
        u64::MAX
    } else {
        wide as u64
    }
}

/// Records accumulated bytes on the job under `id` and refreshes its
/// percentage from the recorded total; permits untouched.
pub fn record_progress(center: &mut DownloadCenter, beatmapset_id: i32, downloaded: u64)
    requires
        old(center).wf(),
    ensures
        final(center).wf(),
        final(center).limit == old(center).limit,
        final(center).active == old(center).active,
        match find_job(old(center).jobs@, beatmapset_id) {
            None => final(center).jobs@ == old(center).jobs@,
            Some(ix) => final(center).jobs@ == old(center).jobs@.update(
                ix,
                DownloadStatus {
                    downloaded_bytes: downloaded,
                    progress: percent_of(
                        downloaded,
                        match old(center).jobs@[ix].total_bytes {
                            Some(t) => t,
                            None => 0,
                        },
                    ) as u64,
                    ..old(center).jobs@[ix]
                },
            ),
        },
{
    proof {
        lemma_find_job_found(center.jobs@, beatmapset_id, 0);
    }
    match find_slot(&center.jobs, beatmapset_id) {
        None => {},
        Some(ix) => {
            let mut j = clone_job(&center.jobs[ix]);
            let total: u64 = match j.total_bytes {
                Some(t) => t,
                None => 0,
            };
            j.downloaded_bytes = downloaded;
            j.progress = calculate_progress(downloaded, total);
            proof {
                lemma_dcount_update(center.jobs@, ix as int, j);
            }
            center.jobs.set(ix, j);
            proof {
                assert forall|a: int, b: int|
                    0 <= a < b < center.jobs@.len() implies (
                #[trigger] center.jobs@[a]).beatmapset_id != (
                #[trigger] center.jobs@[b]).beatmapset_id by {
                    assert(old(center).jobs@[a].beatmapset_id != old(
                        center,
                    ).jobs@[b].beatmapset_id);
                }
            }
        },
    }
}

/// Marks the job under `id` `Completed` at 100%; a job that was
/// mid-transfer gives its permit back.
pub fn mark_completed(center: &mut DownloadCenter, beatmapset_id: i32)
    requires
        old(center).wf(),
    ensures
        final(center).wf(),
        final(center).limit == old(center).limit,
        match find_job(old(center).jobs@, beatmapset_id) {
            None => final(center).jobs@ == old(center).jobs@ && final(center).active == old(
                center,
            ).active,
            Some(ix) => final(center).jobs@ == old(center).jobs@.update(
                ix,
                DownloadStatus {
                    status: DownloadState::Completed,
                    progress: 100,
                    ..old(center).jobs@[ix]
                },
            ) && final(center).active == old(center).active - (
            if old(center).jobs@[ix].status is Downloading {
                1int
            } else {
                0int
            }),
        },
{
    proof {
        lemma_find_job_found(center.jobs@, beatmapset_id, 0);
    }
    match find_slot(&center.jobs, beatmapset_id) {
        None => {},
        Some(ix) => {
            let was_downloading = matches!(center.jobs[ix].status, DownloadState::Downloading);
            let mut j = clone_job(&center.jobs[ix]);
            j.status = DownloadState::Completed;
            j.progress = 100;
            proof {
                lemma_dcount_update(center.jobs@, ix as int, j);
                if was_downloading {
                    lemma_dcount_pos(center.jobs@, ix as int);
                }
            }
            center.jobs.set(ix, j);
            if was_downloading {
                center.active = center.active - 1;
            }
            proof {
                assert forall|a: int, b: int|
                    0 <= a < b < center.jobs@.len() implies (
                #[trigger] center.jobs@[a]).beatmapset_id != (
                #[trigger] center.jobs@[b]).beatmapset_id by {
                    assert(old(center).jobs@[a].beatmapset_id != old(
                        center,
                    ).jobs@[b].beatmapset_id);
                }
            }
        },
    }
}

/// Marks the job under `id` `Failed` with the captured message; a
/// job that was mid-transfer gives its permit back.
pub fn mark_failed(center: &mut DownloadCenter, beatmapset_id: i32, error: String)
    requires
        old(center).wf(),
    ensures
        final(center).wf(),
        final(center).limit == old(center).limit,
        match find_job(old(center).jobs@, beatmapset_id) {
            None => final(center).jobs@ == old(center).jobs@ && final(center).active == old(
                center,
            ).active,
            Some(ix) => ({
                &&& final(center).jobs@.len() == old(center).jobs@.len()
                &&& final(center).jobs@[ix].status is Failed
                &&& final(center).jobs@[ix].error matches Some(e) && e@ == error@
                &&& final(center).jobs@[ix].beatmapset_id == old(center).jobs@[ix].beatmapset_id
                &&& final(center).jobs@[ix].filename@ == old(center).jobs@[ix].filename@
                &&& final(center).jobs@[ix].display_name@ == old(center).jobs@[ix].display_name@
                &&& final(center).jobs@[ix].progress == old(center).jobs@[ix].progress
                &&& final(center).jobs@[ix].downloaded_bytes == old(
                    center,
                ).jobs@[ix].downloaded_bytes
                &&& final(center).jobs@[ix].total_bytes == old(center).jobs@[ix].total_bytes
                &&& forall|m: int|
                    0 <= m < old(center).jobs@.len() && m != ix ==> final(center).jobs@[m] == old(
                        center,
                    ).jobs@[m]
                &&& final(center).active == old(center).active - (
                if old(center).jobs@[ix].status is Downloading {
                    1int
                } else {
                    0int
                })
            }),
        },
{
    proof {
        lemma_find_job_found(center.jobs@, beatmapset_id, 0);
    }
    match find_slot(&center.jobs, beatmapset_id) {
        None => {},
        Some(ix) => {
            let was_downloading = matches!(center.jobs[ix].status, DownloadState::Downloading);
            let mut j = clone_job(&center.jobs[ix]);
            j.status = DownloadState::Failed;
            j.error = Some(error);
            proof {
                lemma_dcount_update(center.jobs@, ix as int, j);
                if was_downloading {
                    lemma_dcount_pos(center.jobs@, ix as int);
                }
            }
            center.jobs.set(ix, j);
            if was_downloading {
                center.active = center.active - 1;
            }
            proof {
                assert forall|a: int, b: int|
                    0 <= a < b < center.jobs@.len() implies (
                #[trigger] center.jobs@[a]).beatmapset_id != (
                #[trigger] center.jobs@[b]).beatmapset_id by {
                    assert(old(center).jobs@[a].beatmapset_id != old(
                        center,
                    ).jobs@[b].beatmapset_id);
                }
            }
        },
    }
}

/// A status broadcast is due: either another progress-interval
/// boundary was crossed by this chunk, or the transfer just ended.
pub fn should_emit_update(downloaded: u64, total: u64, chunk_size: u64) -> (r: bool)
    ensures
        r == (downloaded % 102400 < chunk_size || downloaded == total),
{
    downloaded % 102400 < chunk_size || downloaded == total
}

/// The archive id a chart-archive filename denotes: the digits
/// before `.osz`, or 0 for anything else.
pub open spec fn beatmapset_id_of(name: Seq<char>) -> i32 {
    if ends_with_seq(name, ".osz"@) {
        match i32_of_seq(name.subrange(0, name.len() - 4)) {
            Some(v) => v,
            None => 0i32,
        }
    } else {
        0i32
    }
}

/// Reads the archive id out of a filename such as `123456.osz`;
/// anything else maps to 0.
pub fn extract_beatmapset_id(filename: &str) -> (r: i32)
    ensures
        r == beatmapset_id_of(filename@),
{
    proof {
        reveal_strlit(".osz");
    }
    if !ends_with_str(filename, ".osz") {
        return 0;
    }
    let v = chars_of(filename);
    let keep = v.len() - 4;
    let mut head: Vec<char> = Vec::new();
    let mut i: usize = 0;
    while i < keep
        invariant
            keep <= v@.len(),
            i <= keep,
            head@ == v@.subrange(0, i as int),
        decreases keep - i,
    {
        head.push(v[i]);
        i += 1;
        proof {
            assert(head@ =~= v@.subrange(0, i as int));
        }
    }
    let stem = string_from_chars(&head);
    match parse_i32(stem.as_str()) {
        Some(id) => id,
        None => 0,
    }
}

proof fn lemma_find_job_some(s: Seq<DownloadStatus>, id: i32)
    requires
        exists|m: int| 0 <= m < s.len() && (#[trigger] s[m]).beatmapset_id == id,
    ensures
        find_job(s, id) is Some,
{
    lemma_find_job_found(s, id, 0);
    if find_job(s, id) is None {
        let m = choose|m: int| 0 <= m < s.len() && (#[trigger] s[m]).beatmapset_id == id;
        assert(s[m].beatmapset_id != id);
    }
}

/// Submits a chart archive for download: derives the job's id from
/// the filename, its display name as `<name> by <creator>`, and
/// queues it. Returns the id the job is tracked under.
pub fn submit_download(
    center: &mut DownloadCenter,
    filename: String,
    beatmapset_name: &str,
    creator: &str,
) -> (r: i32)
    requires
        old(center).wf(),
    ensures
        final(center).wf(),
        final(center).limit == old(center).limit,
        r == beatmapset_id_of(filename@),
        find_job(final(center).jobs@, r) matches Some(ix) && fresh_queued(
            final(center).jobs@[ix],
            r,
            filename@,
            beatmapset_name@ + " by "@ + creator@,
        ),
{
    let beatmapset_id = extract_beatmapset_id(filename.as_str());
    let mut display = String::new();
    display.append(beatmapset_name);
    display.append(" by ");
    display.append(creator);
    proof {
        assert(display@ =~= beatmapset_name@ + " by "@ + creator@);
    }
    queue_download(center, beatmapset_id, filename, display);
    beatmapset_id
}

/// The fixed debugging job: mid-transfer at 50%, half of 1024000
/// bytes in.
pub open spec fn debug_job(j: DownloadStatus, id: i32) -> bool {
    &&& j.beatmapset_id == id
    &&& j.filename@ == "test_"@ + crate::strings::dec_of_signed(id as int) + ".osz"@
    &&& j.display_name@ == "Test Beatmap by Test Creator"@
    &&& j.status is Downloading
    &&& j.progress == 50
    &&& j.error is None
    &&& j.downloaded_bytes == 512000
    &&& j.total_bytes == Some(1024000u64)
}

/// Plants the fixed debugging job in the table under `id` so the
/// status broadcast path can be exercised without a transfer. The
/// permit model follows the planted mid-transfer job, so the pool
/// bound may be exceeded: only the accounting part of the invariant
/// is kept.
pub fn test_download_event(center: &mut DownloadCenter, beatmapset_id: i32)
    requires
        old(center).wf(),
    ensures
        ids_unique(final(center).jobs@),
        final(center).active == dcount(final(center).jobs@),
        final(center).limit == old(center).limit,
        find_job(final(center).jobs@, beatmapset_id) matches Some(ix) && debug_job(
            final(center).jobs@[ix],
            beatmapset_id,
        ),
{
    let mut filename = String::new();
    filename.append("test_");
    let digits = crate::strings::i64_to_dec(beatmapset_id as i64);
    filename.append(digits.as_str());
    filename.append(".osz");
    proof {
        assert(filename@ =~= "test_"@ + crate::strings::dec_of_signed(beatmapset_id as int)
            + ".osz"@);
    }
    let mut display = String::new();
    display.append("Test Beatmap by Test Creator");
    proof {
        assert(display@ =~= "Test Beatmap by Test Creator"@);
    }
    let fresh = DownloadStatus {
        beatmapset_id,
        filename,
        display_name: display,
        status: DownloadState::Downloading,
        progress: 50,
        error: None,
        downloaded_bytes: 512000,
        total_bytes: Some(1024000),
    };
    proof {
        lemma_find_job_found(center.jobs@, beatmapset_id, 0);
    }
    match find_slot(&center.jobs, beatmapset_id) {
        None => {
            proof {
                lemma_dcount_push(center.jobs@, fresh);
                lemma_dcount_le_len(center.jobs@);
            }
            let ghost pre = center.jobs@;
            center.jobs.push(fresh);
            let n = center.jobs.len();
            proof {
                assert(center.active <= pre.len());
                assert(pre.len() + 1 == n);
                assert(center.active + 1 <= u64::MAX);
            }
            center.active = center.active + 1;
            proof {
                assert(center.jobs@.subrange(0, pre.len() as int) =~= pre);
                assert forall|i: int, j: int|
                    0 <= i < j < center.jobs@.len() implies (
                #[trigger] center.jobs@[i]).beatmapset_id != (
                #[trigger] center.jobs@[j]).beatmapset_id by {
                    if j < pre.len() {
                        assert(pre[i].beatmapset_id != pre[j].beatmapset_id);
                    } else {
                        assert(pre[i].beatmapset_id != beatmapset_id);
                    }
                }
                assert(center.jobs@[pre.len() as int].beatmapset_id == beatmapset_id);
                lemma_find_job_some(center.jobs@, beatmapset_id);
                lemma_find_job_found(center.jobs@, beatmapset_id, 0);
                let fix = find_job(center.jobs@, beatmapset_id)->0;
                if fix < pre.len() {
                    assert(center.jobs@[fix] == pre[fix]);
                    assert(pre[fix].beatmapset_id != beatmapset_id);
                }
                assert(center.jobs@[fix] == center.jobs@.last());
            }
        },
        Some(ix) => {
            let ghost pre = center.jobs@;
            let was_downloading = matches!(center.jobs[ix].status, DownloadState::Downloading);
            proof {
                lemma_dcount_update(pre, ix as int, fresh);
                if was_downloading {
                    lemma_dcount_pos(pre, ix as int);
                }
                lemma_dcount_le_len(pre);
            }
            let n = center.jobs.len();
            proof {
                if !was_downloading {
                    lemma_dcount_lt_len(pre, ix as int);
                    assert(center.active < n);
                }
            }
            center.jobs.set(ix, fresh);
            if !was_downloading {
                center.active = center.active + 1;
            }
            proof {
                assert forall|i: int, j: int|
                    0 <= i < j < center.jobs@.len() implies (
                #[trigger] center.jobs@[i]).beatmapset_id != (
                #[trigger] center.jobs@[j]).beatmapset_id by {
                    assert(pre[i].beatmapset_id != pre[j].beatmapset_id);
                    assert(pre[ix as int].beatmapset_id == beatmapset_id);
                }
                assert(center.jobs@[ix as int].beatmapset_id == beatmapset_id);
                lemma_find_job_some(center.jobs@, beatmapset_id);
                lemma_find_job_found(center.jobs@, beatmapset_id, 0);
                let fix = find_job(center.jobs@, beatmapset_id)->0;
                if fix != ix as int {
                    assert(center.jobs@[fix] == pre[fix]);
                    assert(pre[ix as int].beatmapset_id == beatmapset_id);
                }
            }
        },
    }
}

} // verus!
