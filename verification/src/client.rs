//! The videos of a run: which are downloaded, in what order, and what is
//! recorded of each.

use crate::order::{indices, orders_first, sorted_order, stable_order};
use vstd::prelude::*;

verus! {

/// How far a video has come. The download owns the first three steps and
/// `Failed`; the upload owns the others.
#[derive(Debug, Clone, Copy, PartialEq, Eq)]
pub enum Status {
    NotStarted,
    Downloading,
    Downloaded,
    Uploading,
    Uploaded,
    Failed,
}

impl Status {
    /// The place of the status in the order of the statuses.
    pub open spec fn rank(self) -> nat {
        match self {
            Status::NotStarted => 0,
            Status::Downloading => 1,
            Status::Downloaded => 2,
            Status::Uploading => 3,
            Status::Uploaded => 4,
            Status::Failed => 5,
        }
    }

    /// Whether the video takes up space on the disk without being uploaded
    /// yet: its status lies from `Downloading` to `Uploading`, both included.
    pub open spec fn in_flight(self) -> bool {
        Status::Downloading.rank() <= self.rank() <= Status::Uploading.rank()
    }

    pub fn is_in_flight(self) -> (held: bool)
        ensures
            held == self.in_flight(),
    {
        match self {
            Status::Downloading | Status::Downloaded | Status::Uploading => true,
            _ => false,
        }
    }

    /// The status that the end of a download leaves.
    pub open spec fn after_download(success: bool) -> Status {
        if success {
            Status::Downloaded
        } else {
            Status::Failed
        }
    }
}

/// Whether a download may take a video from the status `from` to `to`.
pub open spec fn is_transition(from: Status, to: Status) -> bool {
    ||| from is NotStarted && to is Downloading
    ||| from is Downloading && to is Downloaded
    ||| from is Downloading && to is Failed
}

/// A video as the store holds it.
#[derive(Debug, Clone, PartialEq, Eq)]
pub struct Video {
    /// The identifier that the store gave.
    pub id: i32,
    /// The identifier under which the server knows the video.
    pub twitch_id: String,
    pub status: Status,
    /// When the entry was made, in seconds since the start of 1970.
    pub created_at: i64,
}

fn copy_of(video: &Video) -> (copy: Video)
    ensures
        copy == *video,
{
    Video {
        id: video.id,
        twitch_id: video.twitch_id.clone(),
        status: video.status,
        created_at: video.created_at,
    }
}

/// How many of the first `n` videos are in flight.
pub open spec fn in_flight_count(videos: Seq<Video>, n: int) -> nat
    decreases n,
{
    if n <= 0 {
        0
    } else if videos[n - 1].status.in_flight() {
        in_flight_count(videos, n - 1) + 1
    } else {
        in_flight_count(videos, n - 1)
    }
}

/// The number of videos that are downloaded, or being downloaded, and not
/// uploaded yet.
pub fn count_in_flight(videos: &Vec<Video>) -> (count: u64)
    ensures
        count == in_flight_count(videos@, videos.len() as int),
{
    let mut count: u64 = 0;
    let mut i: usize = 0;
    while i < videos.len()
        invariant
            i <= videos.len(),
            count <= i,
            count == in_flight_count(videos@, i as int),
        decreases videos.len() - i,
    {
        if videos[i].status.is_in_flight() {
            count += 1;
        }
        i += 1;
    }
    count
}

/// From how many videos in flight on a run downloads nothing.
pub const BACKLOG_LIMIT: u64 = 3;

/// Whether so many videos are in flight that a run downloads nothing.
pub open spec fn backlog_full(in_flight: u64) -> bool {
    in_flight >= BACKLOG_LIMIT
}

pub fn is_backlog_full(in_flight: u64) -> (full: bool)
    ensures
        full == backlog_full(in_flight),
{
    in_flight >= BACKLOG_LIMIT
}

/// Those of the first `n` videos that are not started, in their order.
pub open spec fn not_started(videos: Seq<Video>, n: int) -> Seq<Video>
    decreases n,
{
    if n <= 0 {
        Seq::empty()
    } else if videos[n - 1].status is NotStarted {
        not_started(videos, n - 1).push(videos[n - 1])
    } else {
        not_started(videos, n - 1)
    }
}

pub open spec fn creation_times(videos: Seq<Video>) -> Seq<i64> {
    videos.map_values(|video: Video| video.created_at)
}

/// `videos` from the oldest entry to the newest, entries of one time as they
/// stood.
pub open spec fn by_creation(videos: Seq<Video>) -> Seq<Video> {
    let order = stable_order(creation_times(videos), videos.len() as int);
    Seq::new(videos.len(), |i: int| videos[order[i]])
}

/// The videos that a run downloads: those not started, the oldest entries
/// first, and no more than `max_items`.
pub open spec fn candidates(videos: Seq<Video>, max_items: u64) -> Seq<Video> {
    let waiting = by_creation(not_started(videos, videos.len() as int));
    if max_items < waiting.len() {
        waiting.take(max_items as int)
    } else {
        waiting
    }
}

pub proof fn lemma_not_started(videos: Seq<Video>, n: int)
    requires
        0 <= n <= videos.len(),
    ensures
        not_started(videos, n).len() <= n,
        forall|i: int|
            0 <= i < not_started(videos, n).len() ==> (#[trigger] not_started(
                videos,
                n,
            )[i]).status is NotStarted,
    decreases n,
{
    if n > 0 {
        lemma_not_started(videos, n - 1);
    }
}

/// Every video that a run downloads is not started.
pub proof fn lemma_candidates_not_started(videos: Seq<Video>, max_items: u64)
    ensures
        forall|i: int|
            0 <= i < candidates(videos, max_items).len() ==> (#[trigger] candidates(
                videos,
                max_items,
            )[i]).status is NotStarted,
        candidates(videos, max_items).len() <= max_items,
        candidates(videos, max_items).len() <= videos.len(),
{
    let waiting = not_started(videos, videos.len() as int);
    lemma_not_started(videos, videos.len() as int);
    crate::order::lemma_stable_order(creation_times(waiting), waiting.len() as int);
    let order = stable_order(creation_times(waiting), waiting.len() as int);
    assert forall|i: int| 0 <= i < by_creation(waiting).len() implies (#[trigger] by_creation(
        waiting,
    )[i]).status is NotStarted by {
        assert(0 <= order[i] < waiting.len());
    }
}

pub fn select_videos(videos: &Vec<Video>, max_items: u64) -> (chosen: Vec<Video>)
    ensures
        chosen@ == candidates(videos@, max_items),
{
    let mut waiting: Vec<Video> = Vec::new();
    let mut times: Vec<i64> = Vec::new();
    let mut i: usize = 0;
    while i < videos.len()
        invariant
            i <= videos.len(),
            waiting@ == not_started(videos@, i as int),
            times@ == creation_times(waiting@),
        decreases videos.len() - i,
    {
        match videos[i].status {
            Status::NotStarted => {
                let video = copy_of(&videos[i]);
                assert(creation_times(waiting@.push(video)) =~= creation_times(waiting@).push(
                    video.created_at,
                ));
                times.push(video.created_at);
                waiting.push(video);
            },
            _ => {},
        }
        i += 1;
    }
    let order = sorted_order(&times);
    let mut chosen: Vec<Video> = Vec::new();
    let mut k: usize = 0;
    while k < order.len() && (k as u64) < max_items
        invariant
            k <= order.len(),
            k <= max_items,
            order.len() == waiting.len(),
            times@ == creation_times(waiting@),
            times.len() == waiting.len(),
            indices(order@) == stable_order(times@, times.len() as int),
            orders_first(times@, indices(order@), times.len() as int),
            chosen@ == by_creation(waiting@).take(k as int),
        decreases order.len() - k,
    {
        assert(indices(order@)[k as int] == order@[k as int]);
        let video = copy_of(&waiting[order[k]]);
        assert(by_creation(waiting@).take(k + 1) =~= by_creation(waiting@).take(k as int).push(
            video,
        ));
        chosen.push(video);
        k += 1;
    }
    assert(by_creation(waiting@).take(waiting.len() as int) =~= by_creation(waiting@));
    chosen
}

/// What is being done with the video whose turn it is.
#[derive(Debug, Clone, Copy, PartialEq, Eq)]
pub enum Phase {
    /// The video is being recorded as `Downloading`.
    Marking,
    /// The video is being downloaded.
    Downloading,
    /// The end of the download, a success or not, is being recorded.
    Recording(bool),
}

/// What the caller is to do next.
#[derive(Debug, PartialEq, Eq)]
pub enum BatchAction {
    /// Record the status of the video in the store.
    SetStatus { id: i32, status: Status },
    /// Download the video.
    Download { id: i32, twitch_id: String },
    /// Nothing is left to do in this run.
    Finish,
}

/// A run over the videos to download, one after the other.
#[derive(Debug)]
pub struct Batch {
    pub videos: Vec<Video>,
    /// The index of the video whose turn it is.
    pub next: usize,
    pub phase: Phase,
}

impl Batch {
    /// Whether every video has had its turn.
    pub open spec fn finished(self) -> bool {
        self.next >= self.videos.len()
    }

    /// What the caller is to do in this state.
    pub open spec fn action(self) -> BatchAction {
        if self.finished() {
            BatchAction::Finish
        } else {
            let video = self.videos@[self.next as int];
            match self.phase {
                Phase::Marking => BatchAction::SetStatus {
                    id: video.id,
                    status: Status::Downloading,
                },
                Phase::Downloading => BatchAction::Download {
                    id: video.id,
                    twitch_id: video.twitch_id,
                },
                Phase::Recording(success) => BatchAction::SetStatus {
                    id: video.id,
                    status: Status::after_download(success),
                },
            }
        }
    }

    /// The state after the action of this state has been carried out, with
    /// success or not. A video that cannot be recorded as `Downloading` is left
    /// alone; the end of a download is recorded whatever it was; and once that
    /// has been tried it is the next video's turn, whatever came of it.
    pub open spec fn after(self, success: bool) -> Batch {
        if self.finished() {
            self
        } else {
            match self.phase {
                Phase::Marking => if success {
                    Batch { videos: self.videos, next: self.next, phase: Phase::Downloading }
                } else {
                    Batch {
                        videos: self.videos,
                        next: (self.next + 1) as usize,
                        phase: Phase::Marking,
                    }
                },
                Phase::Downloading => Batch {
                    videos: self.videos,
                    next: self.next,
                    phase: Phase::Recording(success),
                },
                Phase::Recording(_) => Batch {
                    videos: self.videos,
                    next: (self.next + 1) as usize,
                    phase: Phase::Marking,
                },
            }
        }
    }

    /// The state after the actions have been carried out one after the other
    /// with the outcomes `outcomes`.
    pub open spec fn after_all(self, outcomes: Seq<bool>) -> Batch
        decreases outcomes.len(),
    {
        if outcomes.len() == 0 {
            self
        } else {
            self.after_all(outcomes.drop_last()).after(outcomes.last())
        }
    }

    /// Begins a run. With a full backlog the run holds no video; else it holds
    /// the videos that are not started, the oldest entries first, and no more
    /// than `max_items`.
    pub fn start(in_flight: u64, videos: &Vec<Video>, max_items: u64) -> (batch: Batch)
        ensures
            batch.next == 0,
            batch.phase is Marking,
            backlog_full(in_flight) ==> batch.videos@.len() == 0 && batch.finished(),
            !backlog_full(in_flight) ==> batch.videos@ == candidates(videos@, max_items),
    {
        let chosen = if is_backlog_full(in_flight) {
            Vec::new()
        } else {
            select_videos(videos, max_items)
        };
        Batch { videos: chosen, next: 0, phase: Phase::Marking }
    }

    pub fn current(&self) -> (action: BatchAction)
        ensures
            action == self.action(),
    {
        if self.next >= self.videos.len() {
            return BatchAction::Finish;
        }
        let video = &self.videos[self.next];
        match self.phase {
            Phase::Marking => BatchAction::SetStatus { id: video.id, status: Status::Downloading },
            Phase::Downloading => BatchAction::Download {
                id: video.id,
                twitch_id: video.twitch_id.clone(),
            },
            Phase::Recording(success) => BatchAction::SetStatus {
                id: video.id,
                status: if success {
                    Status::Downloaded
                } else {
                    Status::Failed
                },
            },
        }
    }

    /// Takes in whether the current action succeeded.
    pub fn proceed(&mut self, success: bool)
        ensures
            *final(self) == old(self).after(success),
    {
        if self.next >= self.videos.len() {
            return ;
        }
        match self.phase {
            Phase::Marking => {
                if success {
                    self.phase = Phase::Downloading;
                } else {
                    self.next = self.next + 1;
                }
            },
            Phase::Downloading => {
                self.phase = Phase::Recording(success);
            },
            Phase::Recording(_) => {
                self.next = self.next + 1;
                self.phase = Phase::Marking;
            },
        }
    }
}

/// A run that holds no video never asks for a download, whatever happens:
/// every action of it is `Finish`.
pub proof fn lemma_empty_run_downloads_nothing(batch: Batch, outcomes: Seq<bool>)
    requires
        batch.videos@.len() == 0,
    ensures
        batch.after_all(outcomes) == batch,
        batch.after_all(outcomes).action() == BatchAction::Finish,
    decreases outcomes.len(),
{
    if outcomes.len() > 0 {
        lemma_empty_run_downloads_nothing(batch, outcomes.drop_last());
    }
}

/// One video's failure does not end the run: once its download has ended, a
/// success or not, and the end has been recorded or not, it is the next
/// video's turn.
pub proof fn lemma_failure_is_isolated(batch: Batch, downloaded: bool, recorded: bool)
    requires
        !batch.finished(),
        batch.phase is Downloading,
    ensures
        batch.after(downloaded).action() == (BatchAction::SetStatus {
            id: batch.videos@[batch.next as int].id,
            status: Status::after_download(downloaded),
        }),
        batch.after(downloaded).after(recorded).next == batch.next + 1,
        batch.after(downloaded).after(recorded).phase is Marking,
        batch.after(downloaded).after(recorded).videos == batch.videos,
{
}

/// A run asks for a download only of a video that it has just recorded as
/// `Downloading`, and records the end only of a video that was downloading.
pub proof fn lemma_run_follows_transitions(batch: Batch, success: bool)
    requires
        !batch.finished(),
        batch.videos@[batch.next as int].status is NotStarted,
    ensures
        batch.phase is Marking ==> (batch.action() matches BatchAction::SetStatus { status, .. }
            && is_transition(Status::NotStarted, status)),
        batch.phase is Recording ==> (batch.action() matches BatchAction::SetStatus {
            status,
            ..
        } && is_transition(Status::Downloading, status)),
        batch.after(success).action() is Download ==> batch.phase is Marking && success,
{
}

} // verus!
