//! The download of all segments of a media playlist: which segment goes to
//! which file, how many downloads run at a time, and the rewriting of the
//! playlist once every segment is on disk.
//!
//! No network or file is touched here. A [`Batch`] hands out the jobs, at
//! most [`MAX_CONCURRENT`] of them at a time; the caller runs each job and
//! reports how it ended. Jobs are told apart by the ordinal of their segment,
//! so the order in which they end does not matter.

use crate::decimal::{decimal, format_decimal, lemma_decimal_is_injective};
use crate::manifest::{
    playlist_frame, segment_count, segment_uri, segment_uris, set_segment_uri, write_playlist,
    written_playlist,
};
use m3u8_rs::playlist::MediaPlaylist;
use vstd::prelude::*;
use vstd::string::*;

verus! {

/// How many downloads may run at the same time.
pub const MAX_CONCURRENT: usize = 10;

/// How far the download of one segment has come.
#[derive(Clone, Copy, Debug, PartialEq, Eq, Structural)]
pub enum JobState {
    /// Not handed out yet.
    Waiting,
    /// Handed out and not reported back.
    Running,
    /// The segment is on disk, whole.
    Done,
    /// The download failed for good.
    Failed,
}

/// The download of one segment.
#[derive(Debug, PartialEq, Eq)]
pub struct SegmentJob {
    /// The position of the segment in the playlist, from zero.
    pub ordinal: usize,
    /// Where to fetch the segment from.
    pub url: String,
    /// The file to download it to.
    pub path: String,
}

/// A job as contracts see it.
pub struct SegmentJobView {
    pub ordinal: int,
    pub url: Seq<char>,
    pub path: Seq<char>,
}

/// Where a batch stands.
#[derive(Clone, Copy, Debug, PartialEq, Eq, Structural)]
pub enum BatchStatus {
    /// Some segment is still waiting or running, and none has failed.
    InProgress,
    /// Every segment is on disk.
    Complete,
    /// A segment failed: the batch will hand out no more jobs.
    Aborted,
}

/// What can happen to a batch.
pub enum BatchStep {
    /// The next job is asked for.
    Start,
    /// The job of the segment at this ordinal is reported done.
    Finished(int),
    /// The job of the segment at this ordinal is reported failed.
    Failed(int),
}

/// A batch as contracts see it.
pub struct BatchView {
    /// The directory that takes the files.
    pub dir: Seq<char>,
    /// The URL of each segment, in playlist order.
    pub urls: Seq<Seq<char>>,
    /// The state of each segment's job, in playlist order.
    pub states: Seq<JobState>,
    /// The ordinal of the next job to hand out.
    pub next: int,
}

/// The number of jobs that are running.
pub open spec fn running_count(states: Seq<JobState>) -> nat
    decreases states.len(),
{
    if states.len() == 0 {
        0
    } else {
        running_count(states.drop_last()) + if states.last() is Running {
            1nat
        } else {
            0nat
        }
    }
}

/// The file of the segment at `ordinal` in the directory `dir`: the ordinal
/// in decimal with the extension `.ts`.
pub open spec fn local_path(dir: Seq<char>, ordinal: nat) -> Seq<char> {
    dir + "/"@ + decimal(ordinal) + ".ts"@
}

/// The file of each of `count` segments, in playlist order.
pub open spec fn local_paths(dir: Seq<char>, count: nat) -> Seq<Seq<char>> {
    Seq::new(count, |i: int| local_path(dir, i as nat))
}

impl BatchView {
    /// What holds of every batch: a state for each segment; the jobs handed
    /// out are those before `next`; no more than [`MAX_CONCURRENT`] of them
    /// are running.
    pub open spec fn wf(self) -> bool {
        &&& self.states.len() == self.urls.len()
        &&& 0 <= self.next <= self.states.len()
        &&& forall|i: int| 0 <= i < self.next ==> !(#[trigger] self.states[i] is Waiting)
        &&& forall|i: int|
            self.next <= i < self.states.len() ==> #[trigger] self.states[i] is Waiting
        &&& running_count(self.states) <= MAX_CONCURRENT
    }

    /// Whether a job has failed.
    pub open spec fn aborted(self) -> bool {
        exists|i: int| 0 <= i < self.states.len() && #[trigger] self.states[i] is Failed
    }

    /// Whether every job is done.
    pub open spec fn complete(self) -> bool {
        forall|i: int| 0 <= i < self.states.len() ==> #[trigger] self.states[i] is Done
    }

    /// Where the batch stands.
    pub open spec fn status(self) -> BatchStatus {
        if self.aborted() {
            BatchStatus::Aborted
        } else if self.complete() {
            BatchStatus::Complete
        } else {
            BatchStatus::InProgress
        }
    }

    /// Whether a job may be handed out: one is waiting, fewer than
    /// [`MAX_CONCURRENT`] are running, and none has failed.
    pub open spec fn can_start(self) -> bool {
        &&& self.next < self.states.len()
        &&& running_count(self.states) < MAX_CONCURRENT
        &&& !self.aborted()
    }

    /// Whether the job at `ordinal` is running.
    pub open spec fn is_running(self, ordinal: int) -> bool {
        0 <= ordinal < self.states.len() && self.states[ordinal] is Running
    }

    /// The batch with the job at `ordinal` in the state `state`.
    pub open spec fn with_state(self, ordinal: int, state: JobState) -> BatchView {
        BatchView { states: self.states.update(ordinal, state), ..self }
    }

    /// The batch after the next job was asked for: it is running where one
    /// may be handed out; else nothing has changed.
    pub open spec fn started(self) -> BatchView {
        if self.can_start() {
            BatchView { next: self.next + 1, ..self.with_state(self.next, JobState::Running) }
        } else {
            self
        }
    }

    /// The batch after the job at `ordinal` was reported in the state
    /// `outcome`: nothing has changed unless that job was running.
    pub open spec fn reported(self, ordinal: int, outcome: JobState) -> BatchView {
        if self.is_running(ordinal) {
            self.with_state(ordinal, outcome)
        } else {
            self
        }
    }

    /// The batch after `step`.
    pub open spec fn after(self, step: BatchStep) -> BatchView {
        match step {
            BatchStep::Start => self.started(),
            BatchStep::Finished(ordinal) => self.reported(ordinal, JobState::Done),
            BatchStep::Failed(ordinal) => self.reported(ordinal, JobState::Failed),
        }
    }

    /// The batch after a run of steps.
    pub open spec fn after_all(self, steps: Seq<BatchStep>) -> BatchView
        decreases steps.len(),
    {
        if steps.len() == 0 {
            self
        } else {
            self.after_all(steps.drop_last()).after(steps.last())
        }
    }
}

/// No two segments share a file: the files of different ordinals in one
/// directory have different names.
pub proof fn lemma_local_paths_are_distinct(dir: Seq<char>, i: nat, j: nat)
    requires
        i != j,
    ensures
        local_path(dir, i) != local_path(dir, j),
{
    if local_path(dir, i) == local_path(dir, j) {
        let head = dir + "/"@;
        let a = decimal(i);
        let b = decimal(j);
        let p = head + a + ".ts"@;
        let q = head + b + ".ts"@;
        assert(p.len() == q.len());
        assert(a =~= p.subrange(head.len() as int, (head.len() + a.len()) as int));
        assert(b =~= q.subrange(head.len() as int, (head.len() + b.len()) as int));
        lemma_decimal_is_injective(i, j);
    }
}

/// The batch that is planned for segments at `urls` and files in `dir`:
/// every job is waiting.
pub open spec fn planned(dir: Seq<char>, urls: Seq<Seq<char>>) -> BatchView {
    BatchView { dir, urls, states: Seq::new(urls.len(), |i: int| JobState::Waiting), next: 0 }
}

/// Where the states are all waiting, none is running.
pub proof fn lemma_none_running(states: Seq<JobState>)
    requires
        forall|i: int| 0 <= i < states.len() ==> !(#[trigger] states[i] is Running),
    ensures
        running_count(states) == 0,
    decreases states.len(),
{
    if states.len() > 0 {
        lemma_none_running(states.drop_last());
    }
}

/// Changing the state of one job changes the number of running jobs by
/// that job alone.
pub proof fn lemma_running_count_update(states: Seq<JobState>, ordinal: int, state: JobState)
    requires
        0 <= ordinal < states.len(),
    ensures
        running_count(states.update(ordinal, state)) + (if states[ordinal] is Running {
            1nat
        } else {
            0nat
        }) == running_count(states) + (if state is Running {
            1nat
        } else {
            0nat
        }),
    decreases states.len(),
{
    let changed = states.update(ordinal, state);
    if ordinal == states.len() - 1 {
        assert(changed.drop_last() =~= states.drop_last());
    } else {
        assert(changed.drop_last() =~= states.drop_last().update(ordinal, state));
        lemma_running_count_update(states.drop_last(), ordinal, state);
    }
}

/// A step takes a well-formed batch to a well-formed batch, and leaves the
/// directory and the URLs alone.
pub proof fn lemma_step_keeps_wf(v: BatchView, step: BatchStep)
    requires
        v.wf(),
    ensures
        v.after(step).wf(),
        v.after(step).dir == v.dir,
        v.after(step).urls == v.urls,
{
    match step {
        BatchStep::Start => {
            if v.can_start() {
                lemma_running_count_update(v.states, v.next, JobState::Running);
            }
        },
        BatchStep::Finished(ordinal) => {
            if v.is_running(ordinal) {
                lemma_running_count_update(v.states, ordinal, JobState::Done);
            }
        },
        BatchStep::Failed(ordinal) => {
            if v.is_running(ordinal) {
                lemma_running_count_update(v.states, ordinal, JobState::Failed);
            }
        },
    }
}

/// At no point of a batch do more than [`MAX_CONCURRENT`] downloads run:
/// whatever the number of segments, and whatever jobs are asked for and
/// reported back in whatever order, the number of running jobs stays within
/// the limit.
pub proof fn lemma_concurrency_is_bounded(
    dir: Seq<char>,
    urls: Seq<Seq<char>>,
    steps: Seq<BatchStep>,
)
    ensures
        planned(dir, urls).after_all(steps).wf(),
        running_count(planned(dir, urls).after_all(steps).states) <= MAX_CONCURRENT,
        planned(dir, urls).after_all(steps).dir == dir,
        planned(dir, urls).after_all(steps).urls == urls,
    decreases steps.len(),
{
    let start = planned(dir, urls);
    if steps.len() == 0 {
        lemma_none_running(start.states);
    } else {
        lemma_concurrency_is_bounded(dir, urls, steps.drop_last());
        lemma_step_keeps_wf(start.after_all(steps.drop_last()), steps.last());
    }
}

/// The job of the segment at `ordinal`: the URL is that of the segment at
/// this ordinal, the file is named after the ordinal.
pub open spec fn job_for(v: BatchView, ordinal: int) -> SegmentJobView {
    SegmentJobView { ordinal, url: v.urls[ordinal], path: local_path(v.dir, ordinal as nat) }
}

/// The order in which jobs end does not matter. Whatever jobs were asked
/// for and reported back, in whatever order: the job of the segment at an
/// ordinal fetches the URL that the playlist had at that ordinal when the
/// batch was planned, and the rewritten playlist has at that ordinal the
/// file of that job.
pub proof fn lemma_order_is_kept(
    dir: Seq<char>,
    urls: Seq<Seq<char>>,
    steps: Seq<BatchStep>,
    ordinal: int,
)
    requires
        0 <= ordinal < urls.len(),
    ensures
        job_for(planned(dir, urls).after_all(steps), ordinal).url == urls[ordinal],
        local_paths(planned(dir, urls).after_all(steps).dir, urls.len())[ordinal] == job_for(
            planned(dir, urls).after_all(steps),
            ordinal,
        ).path,
{
    lemma_concurrency_is_bounded(dir, urls, steps);
}

/// The download of the segments of one playlist.
pub struct Batch {
    dir: String,
    urls: Vec<String>,
    states: Vec<JobState>,
    next: usize,
    running: usize,
}

impl View for Batch {
    type V = BatchView;

    closed spec fn view(&self) -> BatchView {
        BatchView {
            dir: self.dir@,
            urls: self.urls.deep_view(),
            states: self.states@,
            next: self.next as int,
        }
    }
}

impl View for SegmentJob {
    type V = SegmentJobView;

    open spec fn view(&self) -> SegmentJobView {
        SegmentJobView { ordinal: self.ordinal as int, url: self.url@, path: self.path@ }
    }
}

/// The file of the segment at `ordinal` in the directory `dir`.
pub fn segment_path(dir: &str, ordinal: usize) -> (path: String)
    ensures
        path@ == local_path(dir@, ordinal as nat),
{
    let mut path = dir.to_owned();
    path.append("/");
    path.append(format_decimal(ordinal as u64).as_str());
    path.append(".ts");
    path
}

/// Plans the download of the segments of `playlist` into the directory
/// `dir`: one job for each segment, all of them waiting.
pub fn download_ts_and_replace(dir: &str, playlist: &MediaPlaylist) -> (batch: Batch)
    ensures
        batch@ == planned(dir@, segment_uris(*playlist)),
        batch@.wf(),
{
    let count = segment_count(playlist);
    let mut urls: Vec<String> = Vec::new();
    let mut states: Vec<JobState> = Vec::new();
    let mut i: usize = 0;
    while i < count
        invariant
            i <= count,
            count == segment_uris(*playlist).len(),
            urls.len() == i,
            states.len() == i,
            forall|k: int| 0 <= k < i ==> (#[trigger] urls@[k])@ == segment_uris(*playlist)[k],
            forall|k: int| 0 <= k < i ==> #[trigger] states@[k] == JobState::Waiting,
        decreases count - i,
    {
        urls.push(segment_uri(playlist, i));
        states.push(JobState::Waiting);
        i = i + 1;
    }
    proof {
        assert(urls.deep_view() =~= segment_uris(*playlist));
        assert(states@ =~= Seq::new(urls.len() as nat, |i: int| JobState::Waiting));
        lemma_none_running(states@);
    }
    Batch { dir: dir.to_owned(), urls, states, next: 0, running: 0 }
}

impl Batch {
    #[verifier::type_invariant]
    spec fn inv(self) -> bool {
        &&& self@.wf()
        &&& self.running == running_count(self.states@)
    }

    /// The number of segments.
    pub fn len(&self) -> (n: usize)
        ensures
            n == self@.states.len(),
            self@.wf(),
    {
        proof {
            use_type_invariant(self);
        }
        self.states.len()
    }

    /// The number of jobs that are running: never above [`MAX_CONCURRENT`].
    pub fn running(&self) -> (n: usize)
        ensures
            n == running_count(self@.states),
            n <= MAX_CONCURRENT,
            self@.wf(),
    {
        proof {
            use_type_invariant(self);
        }
        self.running
    }

    /// Whether a job has failed.
    pub fn is_aborted(&self) -> (r: bool)
        ensures
            r == self@.aborted(),
    {
        let mut i: usize = 0;
        while i < self.states.len()
            invariant
                i <= self.states.len(),
                forall|k: int| 0 <= k < i ==> !(#[trigger] self.states@[k] is Failed),
            decreases self.states.len() - i,
        {
            if let JobState::Failed = self.states[i] {
                return true;
            }
            i = i + 1;
        }
        false
    }

    /// Whether every job is done.
    pub fn is_complete(&self) -> (r: bool)
        ensures
            r == self@.complete(),
    {
        let mut i: usize = 0;
        while i < self.states.len()
            invariant
                i <= self.states.len(),
                forall|k: int| 0 <= k < i ==> #[trigger] self.states@[k] is Done,
            decreases self.states.len() - i,
        {
            match self.states[i] {
                JobState::Done => {},
                _ => {
                    return false;
                },
            }
            i = i + 1;
        }
        true
    }

    /// Where the batch stands.
    pub fn status(&self) -> (r: BatchStatus)
        ensures
            r == self@.status(),
    {
        if self.is_aborted() {
            BatchStatus::Aborted
        } else if self.is_complete() {
            BatchStatus::Complete
        } else {
            BatchStatus::InProgress
        }
    }

    /// Hands out the next job, if one may start: the waiting job with the
    /// lowest ordinal, while fewer than [`MAX_CONCURRENT`] are running and
    /// none has failed.
    pub fn start_next(self) -> (r: (Batch, Option<SegmentJob>))
        ensures
            r.0@ == self@.started(),
            r.0@.wf(),
            match r.1 {
                Some(job) => self@.can_start() && job@ == job_for(self@, self@.next),
                None => !self@.can_start(),
            },
            running_count(r.0@.states) == running_count(self@.states) + (if r.1 is Some {
                1nat
            } else {
                0nat
            }),
    {
        proof {
            use_type_invariant(&self);
        }
        if self.next >= self.states.len() || self.running >= MAX_CONCURRENT || self.is_aborted() {
            return (self, None);
        }
        let ordinal = self.next;
        let job = SegmentJob {
            ordinal,
            url: self.urls[ordinal].clone(),
            path: segment_path(self.dir.as_str(), ordinal),
        };
        let ghost before = self@;
        proof {
            lemma_running_count_update(self.states@, ordinal as int, JobState::Running);
            lemma_step_keeps_wf(before, BatchStep::Start);
        }
        let mut states = self.states;
        states.set(ordinal, JobState::Running);
        let batch = Batch {
            dir: self.dir,
            urls: self.urls,
            states,
            next: ordinal + 1,
            running: self.running + 1,
        };
        (batch, Some(job))
    }

    /// Records how the job at `ordinal` ended, if that job is running.
    fn report(self, ordinal: usize, outcome: JobState) -> (r: (Batch, bool))
        requires
            outcome is Done || outcome is Failed,
        ensures
            r.1 == self@.is_running(ordinal as int),
            r.0@ == self@.reported(ordinal as int, outcome),
            r.0@.wf(),
            running_count(r.0@.states) + (if r.1 {
                1nat
            } else {
                0nat
            }) == running_count(self@.states),
    {
        proof {
            use_type_invariant(&self);
        }
        if ordinal >= self.states.len() {
            return (self, false);
        }
        match self.states[ordinal] {
            JobState::Running => {},
            _ => {
                return (self, false);
            },
        }
        let ghost before = self@;
        proof {
            lemma_running_count_update(self.states@, ordinal as int, outcome);
            if outcome is Done {
                lemma_step_keeps_wf(before, BatchStep::Finished(ordinal as int));
            } else {
                lemma_step_keeps_wf(before, BatchStep::Failed(ordinal as int));
            }
        }
        let mut states = self.states;
        states.set(ordinal, outcome);
        let batch = Batch {
            dir: self.dir,
            urls: self.urls,
            states,
            next: self.next,
            running: self.running - 1,
        };
        (batch, true)
    }

    /// Reports that the segment at `ordinal` is on disk. The answer says
    /// whether that job was running; if not, nothing has changed.
    pub fn job_finished(self, ordinal: usize) -> (r: (Batch, bool))
        ensures
            r.1 == self@.is_running(ordinal as int),
            r.0@ == self@.after(BatchStep::Finished(ordinal as int)),
            r.0@.wf(),
            running_count(r.0@.states) + (if r.1 {
                1nat
            } else {
                0nat
            }) == running_count(self@.states),
    {
        self.report(ordinal, JobState::Done)
    }

    /// Reports that the download of the segment at `ordinal` failed for
    /// good. The answer says whether that job was running; if not, nothing
    /// has changed.
    pub fn job_failed(self, ordinal: usize) -> (r: (Batch, bool))
        ensures
            r.1 == self@.is_running(ordinal as int),
            r.0@ == self@.after(BatchStep::Failed(ordinal as int)),
            r.0@.wf(),
            running_count(r.0@.states) + (if r.1 {
                1nat
            } else {
                0nat
            }) == running_count(self@.states),
    {
        self.report(ordinal, JobState::Failed)
    }

    /// Points every segment of `playlist` at its file, and changes nothing
    /// else in it. This is done only for a batch that is complete, and for
    /// the playlist that it was planned for; otherwise the playlist stays as
    /// it was. The answer says whether it was done.
    pub fn rewrite(&self, playlist: &mut MediaPlaylist) -> (done: bool)
        ensures
            done == (self@.complete() && segment_uris(*old(playlist)) == self@.urls),
            done ==> segment_uris(*final(playlist)) == local_paths(
                self@.dir,
                self@.urls.len(),
            ),
            playlist_frame(*final(playlist)) == playlist_frame(*old(playlist)),
            !done ==> *final(playlist) == *old(playlist),
    {
        proof {
            use_type_invariant(self);
        }
        if !self.is_complete() {
            return false;
        }
        let count = segment_count(playlist);
        if count != self.urls.len() {
            return false;
        }
        let ghost before = segment_uris(*playlist);
        let mut i: usize = 0;
        while i < count
            invariant
                i <= count,
                count == self.urls.len(),
                before == segment_uris(*playlist),
                before.len() == count,
                forall|k: int| 0 <= k < i ==> before[k] == (#[trigger] self.urls@[k])@,
            decreases count - i,
        {
            let current = segment_uri(playlist, i);
            if current != self.urls[i] {
                return false;
            }
            i = i + 1;
        }
        assert(before =~= self.urls.deep_view());
        let ghost paths = local_paths(self.dir@, count as nat);
        let mut j: usize = 0;
        while j < count
            invariant
                j <= count,
                count == self.urls.len(),
                paths == local_paths(self.dir@, count as nat),
                segment_uris(*playlist).len() == count,
                playlist_frame(*playlist) == playlist_frame(*old(playlist)),
                forall|k: int| 0 <= k < j ==> (#[trigger] segment_uris(*playlist)[k]) == paths[k],
            decreases count - j,
        {
            let path = segment_path(self.dir.as_str(), j);
            set_segment_uri(playlist, j, path);
            j = j + 1;
        }
        true
    }

    /// Ends the batch: points every segment of `playlist` at its file, as
    /// [`Batch::rewrite`] does, and hands out the text of the local
    /// manifest. `None`, with the playlist as it was, unless the batch is
    /// complete and the playlist is the one that it was planned for.
    pub fn local_manifest(&self, playlist: &mut MediaPlaylist) -> (text: Option<Vec<u8>>)
        ensures
            self@.complete() && segment_uris(*old(playlist)) == self@.urls ==> {
                &&& segment_uris(*final(playlist)) == local_paths(self@.dir, self@.urls.len())
                &&& playlist_frame(*final(playlist)) == playlist_frame(*old(playlist))
                &&& match text {
                    Some(bytes) => written_playlist(*final(playlist)) == Some(bytes@),
                    None => written_playlist(*final(playlist)) is None,
                }
            },
            !(self@.complete() && segment_uris(*old(playlist)) == self@.urls) ==> text is None
                && *final(playlist) == *old(playlist),
    {
        if self.rewrite(playlist) {
            write_playlist(playlist)
        } else {
            None
        }
    }
}

} // verus!
