//! Background work: what is running, what it depends on, and what becomes of
//! its results.

use crate::commands::blocks::{KrigingRequest, OreRequest};
use crate::commands::discard::LayerRevert;
use crate::commands::plot::PlotSheet;
use crate::commands::residency::Continuation;
use crate::commands::survey::SurveyJob;
use crate::files::{InputFile, MeshFormat, Snapshot};
use crate::ids::{BlockModelId, DrillHoleId, ItemRef, LayerId, PointCloudId, RasterTextureId, TriangulationId};
use crate::commands::contours::ContourRequest;
use crate::drawing::move_tool::active_runtime;
use crate::items::{block_model_index, dataset_index, item_state, point_cloud_index, raster_index, triangulation_index};
use crate::loads::LoadKind;
use crate::search::find_first;
use crate::state::App;
use crate::workspace::index_of_runtime;
use vstd::prelude::*;

verus! {

/// Something that a job derives from.
#[derive(Clone, Copy, PartialEq, Eq, Structural, Debug)]
pub enum JobKey {
    HistoryResidency { runtime_id: u32, revision: u64, restoring: bool },
    LayerResidency { layer: LayerId, runtime_id: u32, content_hash: u64, restoring: bool },
    Residency { item: ItemRef, runtime_id: u32, revision: u64, restoring: bool },
    Triangulation(TriangulationId),
    PointCloud(PointCloudId),
    BlockModel(BlockModelId),
    DrillHole(DrillHoleId),
    Raster(RasterTextureId),
    Project { runtime_id: u32, document_revision: u64 },
    /// Nothing: the result is always wanted.
    Anonymous,
}

impl JobKey {
    /// The job moves data between memory and storage.
    pub open spec fn moves_data(self) -> bool {
        self is Residency || self is LayerResidency || self is HistoryResidency
    }

    /// The job brings data back into memory.
    pub open spec fn restores(self) -> bool {
        match self {
            JobKey::Residency { restoring, .. } => restoring,
            JobKey::LayerResidency { restoring, .. } => restoring,
            JobKey::HistoryResidency { restoring, .. } => restoring,
            _ => false,
        }
    }

    pub fn is_residency(self) -> (r: bool)
        ensures
            r == self.moves_data(),
    {
        match self {
            JobKey::Residency { .. } => true,
            JobKey::LayerResidency { .. } => true,
            JobKey::HistoryResidency { .. } => true,
            _ => false,
        }
    }

    pub fn is_restoring(self) -> (r: bool)
        ensures
            r == self.restores(),
    {
        match self {
            JobKey::Residency { restoring, .. } => restoring,
            JobKey::LayerResidency { restoring, .. } => restoring,
            JobKey::HistoryResidency { restoring, .. } => restoring,
            _ => false,
        }
    }
}

/// Which jobs are meant: those that derive from something.
#[derive(Clone, Copy, PartialEq, Eq, Structural, Debug)]
pub enum JobFilter {
    /// Exactly this source.
    Key(JobKey),
    /// The project, whatever its revision.
    Project(u32),
    /// The item's data is being moved.
    Residency(ItemRef),
    /// The layer's data is being moved.
    LayerResidency(LayerId),
    /// The item's data is being brought back.
    ItemRestore(ItemRef),
    /// The layer's data is being brought back.
    LayerRestore(LayerId),
    /// The history's data is being moved.
    HistoryResidency,
}

/// The source is one of those meant.
pub open spec fn meant(filter: JobFilter, key: JobKey) -> bool {
    match filter {
        JobFilter::Key(k) => k == key,
        JobFilter::Project(id) => key matches JobKey::Project { runtime_id, .. } && runtime_id == id,
        JobFilter::Residency(i) => key matches JobKey::Residency { item, .. } && item == i,
        JobFilter::LayerResidency(l) => key matches JobKey::LayerResidency { layer, .. } && layer == l,
        JobFilter::ItemRestore(i) => key matches JobKey::Residency { item, restoring, .. } && item == i && restoring,
        JobFilter::LayerRestore(l) => key matches JobKey::LayerResidency { layer, restoring, .. } && layer == l && restoring,
        JobFilter::HistoryResidency => key is HistoryResidency,
    }
}

impl JobFilter {
    pub fn matches_key(self, key: JobKey) -> (r: bool)
        ensures
            r == meant(self, key),
    {
        match self {
            JobFilter::Key(k) => k == key,
            JobFilter::Project(id) => match key {
                JobKey::Project { runtime_id, .. } => runtime_id == id,
                _ => false,
            },
            JobFilter::Residency(i) => match key {
                JobKey::Residency { item, .. } => item == i,
                _ => false,
            },
            JobFilter::LayerResidency(l) => match key {
                JobKey::LayerResidency { layer, .. } => layer == l,
                _ => false,
            },
            JobFilter::ItemRestore(i) => match key {
                JobKey::Residency { item, restoring, .. } => item == i && restoring,
                _ => false,
            },
            JobFilter::LayerRestore(l) => match key {
                JobKey::LayerResidency { layer, restoring, .. } => layer == l && restoring,
                _ => false,
            },
            JobFilter::HistoryResidency => match key {
                JobKey::HistoryResidency { .. } => true,
                _ => false,
            },
        }
    }
}

/// Work that runs in the background. `work` is what the caller runs under the
/// ticket.
pub struct BackgroundJob {
    pub ticket: u64,
    pub label: String,
    pub keys: Vec<JobKey>,
    pub work: Work,
}

/// What a job computes.
#[allow(inconsistent_fields)]
pub enum Work {
    Contours(ContourRequest),
    /// Reads a project that takes the place of the open one.
    OpenProject { path: String },
    OpenBrowserProject { files: Vec<InputFile> },
    /// Reads a project again, to put its stored state back.
    RevertProject { runtime_id: u32, path: String, expected_hash: u64 },
    /// Reads a project again, to put the stored state of one layer back.
    RevertLayer(LayerRevert),
    /// Reads projects that are merged into the open one.
    ImportOmf { paths: Vec<String> },
    ImportBrowserOmf { files: Vec<InputFile> },
    ImportDxf { runtime_id: u32, paths: Vec<String> },
    ImportBrowserDxf { runtime_id: u32, files: Vec<InputFile> },
    /// Reads an item from a file chosen in the browser.
    LoadInput { kind: LoadKind, file: InputFile, mapping: Option<u64>, limit: u32 },
    ExportOmf { snapshot: Snapshot, path: String },
    DownloadOmf { snapshot: Snapshot, file_name: String },
    ExportBlockModelCsv { id: BlockModelId, path: String },
    DownloadDxf { project_runtime_id: u32, layer: Option<LayerId>, file_name: String },
    DownloadTriangulation { id: TriangulationId, format: MeshFormat, file_name: String, close_after: bool },
    DownloadBlockModelCsv { id: BlockModelId, file_name: String, close_after: bool },
    /// Draws a plot sheet.
    ComposeSheet(PlotSheet),
    /// Brings the data of items back into memory.
    RestoreItems { items: Vec<ItemRef>, after: Continuation },
    /// Moves the data of an item to storage.
    EvictItem(ItemRef),
    /// Brings the objects of layers back into memory.
    RestoreLayers { layers: Vec<LayerId>, after: Continuation },
    /// Moves the objects of layers to storage.
    EvictLayers(Vec<LayerId>),
    /// Moves parts of the history to storage.
    ArchiveHistory { requests: Vec<u64>, layers: Vec<LayerId>, items: Vec<ItemRef> },
    /// Brings a step of the history back into memory.
    RestoreHistory { undo: bool, requests: Vec<u64> },
    /// Decodes the values of a variable.
    DecodeValues { id: BlockModelId, variable: String },
    /// Estimates a block model from drillholes.
    Krige(KrigingRequest),
    /// Builds a surface around the blocks of an ore.
    OreMesh(OreRequest),
    /// Converts what is selected into another coordinate system.
    TransformSurvey(SurveyJob),
}

/// A task that the status bar shows.
pub struct ReportedTask {
    pub ticket: u64,
    pub label: String,
}

/// A task that has ended, and whether it brought topology with it.
#[derive(Clone, Copy, PartialEq, Eq, Structural, Debug)]
pub struct EndedTask {
    pub ticket: u64,
    pub topology: bool,
}

/// The queue of background work.
pub struct Jobs {
    pub pending: Vec<BackgroundJob>,
    pub ready: Vec<BackgroundJob>,
    pub tasks: Vec<ReportedTask>,
    pub ended: Vec<EndedTask>,
    pub cancelled: Vec<u64>,
    pub next_ticket: u64,
    pub residency_settled: bool,
}

/// A job derives from one of the sources meant.
pub open spec fn job_meant(job: BackgroundJob, filter: JobFilter) -> bool {
    exists|k: int| 0 <= k < job.keys@.len() && meant(filter, #[trigger] job.keys@[k])
}

/// A job moves data between memory and storage.
pub open spec fn job_moves_data(job: BackgroundJob) -> bool {
    exists|k: int| 0 <= k < job.keys@.len() && (#[trigger] job.keys@[k]).moves_data()
}

/// The tickets of jobs.
pub open spec fn tickets(jobs: Seq<BackgroundJob>) -> Seq<u64> {
    jobs.map_values(|j: BackgroundJob| j.ticket)
}

/// The tasks other than one.
pub open spec fn tasks_without(tasks: Seq<ReportedTask>, ticket: u64) -> Seq<ReportedTask> {
    tasks.filter(|t: ReportedTask| t.ticket != ticket)
}

/// The tasks other than these.
pub open spec fn tasks_without_all(tasks: Seq<ReportedTask>, gone: Seq<u64>) -> Seq<ReportedTask>
    decreases gone.len(),
{
    if gone.len() == 0 {
        tasks
    } else {
        tasks_without(tasks_without_all(tasks, gone.drop_last()), gone.last())
    }
}

/// Takes one task out of a list.
fn drop_task(tasks: &mut Vec<ReportedTask>, ticket: u64)
    ensures
        final(tasks)@ == tasks_without(old(tasks)@, ticket),
{
    let ghost keep = |t: ReportedTask| t.ticket != ticket;
    let ghost all = tasks@;
    let mut kept: Vec<ReportedTask> = Vec::new();
    let mut done: Ghost<int> = Ghost(0);
    assert(all.skip(0) =~= all);
    proof {
        reveal(Seq::filter);
        assert(all.take(0).filter(keep) =~= Seq::<ReportedTask>::empty());
    }
    while tasks.len() > 0
        invariant
            keep == (|t: ReportedTask| t.ticket != ticket),
            0 <= done@ <= all.len(),
            tasks@ == all.skip(done@),
            kept@ == all.take(done@).filter(keep),
        decreases tasks.len(),
    {
        let task = tasks.remove(0);
        proof {
            reveal(Seq::filter);
            assert(all.take(done@ + 1).drop_last() =~= all.take(done@));
            assert(task == all[done@]);
            assert(tasks@ =~= all.skip(done@ + 1));
            done@ = done@ + 1;
        }
        if task.ticket != ticket {
            kept.push(task);
        }
    }
    assert(all.take(all.len() as int) =~= all);
    *tasks = kept;
}

impl BackgroundJob {
    /// Whether the job derives from one of the sources meant.
    pub fn is_meant(&self, filter: JobFilter) -> (r: bool)
        ensures
            r == job_meant(*self, filter),
    {
        let found = find_first(&self.keys, Ghost(|k: JobKey| meant(filter, k)), |k: &JobKey| -> (b: bool)
            ensures
                b == meant(filter, *k),
            { filter.matches_key(*k) });
        found.is_some()
    }

    /// Whether the job moves data between memory and storage.
    pub fn moves_data(&self) -> (r: bool)
        ensures
            r == job_moves_data(*self),
    {
        let found = find_first(&self.keys, Ghost(|k: JobKey| k.moves_data()), |k: &JobKey| -> (b: bool)
            ensures
                b == k.moves_data(),
            { k.is_residency() });
        found.is_some()
    }
}

/// What became of a job since it was last asked.
#[derive(Clone, Copy, PartialEq, Eq, Structural, Debug)]
pub enum JobEvent {
    /// It is still running.
    Running,
    /// Its result is there.
    Ready,
    /// It ended without a result.
    Lost,
}

/// The event of a job, which is still running where none is told.
pub open spec fn event_of(events: Seq<JobEvent>, i: int) -> JobEvent {
    if 0 <= i < events.len() {
        events[i]
    } else {
        JobEvent::Running
    }
}

/// The jobs with one event, in order.
pub open spec fn with_event(jobs: Seq<BackgroundJob>, events: Seq<JobEvent>, event: JobEvent) -> Seq<BackgroundJob>
    decreases jobs.len(),
{
    if jobs.len() == 0 {
        Seq::empty()
    } else {
        let before = with_event(jobs.drop_last(), events, event);
        if event_of(events, jobs.len() - 1) == event {
            before.push(jobs.last())
        } else {
            before
        }
    }
}

/// The jobs that are over, in order.
pub open spec fn settled(jobs: Seq<BackgroundJob>, events: Seq<JobEvent>) -> Seq<BackgroundJob>
    decreases jobs.len(),
{
    if jobs.len() == 0 {
        Seq::empty()
    } else {
        let before = settled(jobs.drop_last(), events);
        if event_of(events, jobs.len() - 1) == JobEvent::Running {
            before
        } else {
            before.push(jobs.last())
        }
    }
}

/// The ends of jobs that brought no topology.
pub open spec fn plain_ends(jobs: Seq<BackgroundJob>) -> Seq<EndedTask> {
    jobs.map_values(|j: BackgroundJob| EndedTask { ticket: j.ticket, topology: false })
}

/// Asking the queue loses no job and makes none: each is still running, ready
/// or lost, and it is over exactly where it is not running.
pub proof fn law_poll_partitions(jobs: Seq<BackgroundJob>, events: Seq<JobEvent>)
    ensures
        with_event(jobs, events, JobEvent::Running).len() + settled(jobs, events).len() == jobs.len(),
        with_event(jobs, events, JobEvent::Ready).len() + with_event(jobs, events, JobEvent::Lost).len() == settled(jobs, events).len(),
    decreases jobs.len(),
{
    if jobs.len() > 0 {
        law_poll_partitions(jobs.drop_last(), events);
    }
}

impl Jobs {
    /// Begins a task that the status bar shows.
    pub fn begin_reported_task(&mut self, label: String) -> (r: u64)
        requires
            old(self).next_ticket < u64::MAX,
        ensures
            task_begun(*old(self), label@, r, *final(self)),
            final(self).tasks@ == old(self).tasks@.push(ReportedTask { ticket: r, label }),
    {
        let ticket: u64 = self.next_ticket;
        self.next_ticket += 1;
        self.tasks.push(ReportedTask { ticket, label });
        assert(self.tasks@.drop_last() =~= old(self).tasks@);
        ticket
    }

    /// Ends a task.
    pub fn finish_background_task(&mut self, ticket: u64, topology: bool)
        ensures
            *final(self) == (Jobs { tasks: final(self).tasks, ended: final(self).ended, ..*old(self) }),
            final(self).tasks@ == tasks_without(old(self).tasks@, ticket),
            final(self).ended@ == old(self).ended@.push(EndedTask { ticket, topology }),
    {
        drop_task(&mut self.tasks, ticket);
        self.ended.push(EndedTask { ticket, topology });
    }

    /// Withdraws a task.
    fn cancel_background_task(&mut self, ticket: u64)
        ensures
            *final(self) == (Jobs { tasks: final(self).tasks, cancelled: final(self).cancelled, ..*old(self) }),
            final(self).tasks@ == tasks_without(old(self).tasks@, ticket),
            final(self).cancelled@ == old(self).cancelled@.push(ticket),
    {
        drop_task(&mut self.tasks, ticket);
        self.cancelled.push(ticket);
    }

    /// Queues a job and begins its task.
    pub fn spawn(&mut self, label: String, keys: Vec<JobKey>, work: Work) -> (r: u64)
        requires
            old(self).next_ticket < u64::MAX,
        ensures
            job_spawned(*old(self), label@, keys@, work, r, *final(self)),
    {
        let shown = label.clone();
        let ticket: u64 = self.begin_reported_task(shown);
        self.pending.push(BackgroundJob { ticket, label, keys, work });
        assert(self.pending@.drop_last() =~= old(self).pending@);
        assert(self.tasks@.drop_last() =~= old(self).tasks@);
        ticket
    }

    /// Withdraws the jobs that derive from the sources meant.
    pub fn cancel(&mut self, filter: JobFilter)
        ensures
            jobs_cancelled(*old(self), filter, *final(self)),
    {
        let ghost all = self.pending@;
        let ghost keep = |j: BackgroundJob| !job_meant(j, filter);
        let ghost drop = |j: BackgroundJob| job_meant(j, filter);
        let mut kept: Vec<BackgroundJob> = Vec::new();
        let mut done: Ghost<int> = Ghost(0);
        proof {
            reveal(Seq::filter);
            assert(all.skip(0) =~= all);
            assert(all.take(0).filter(keep) =~= Seq::<BackgroundJob>::empty());
            assert(tickets(all.take(0).filter(drop)) =~= Seq::<u64>::empty());
            assert(self.cancelled@ =~= old(self).cancelled@ + tickets(all.take(0).filter(drop)));
        }
        while self.pending.len() > 0
            invariant
                keep == (|j: BackgroundJob| !job_meant(j, filter)),
                drop == (|j: BackgroundJob| job_meant(j, filter)),
                all == old(self).pending@,
                0 <= done@ <= all.len(),
                self.pending@ == all.skip(done@),
                kept@ == all.take(done@).filter(keep),
                *self == (Jobs { pending: self.pending, tasks: self.tasks, cancelled: self.cancelled, ..*old(self) }),
                self.cancelled@ == old(self).cancelled@ + tickets(all.take(done@).filter(drop)),
                self.tasks@ == tasks_without_all(old(self).tasks@, tickets(all.take(done@).filter(drop))),
            decreases self.pending.len(),
        {
            let job = self.pending.remove(0);
            let ghost gone = all.take(done@).filter(drop);
            proof {
                reveal(Seq::filter);
                assert(all.take(done@ + 1).drop_last() =~= all.take(done@));
                assert(job == all[done@]);
                assert(self.pending@ =~= all.skip(done@ + 1));
                assert(tickets(gone.push(job)) =~= tickets(gone).push(job.ticket));
                assert(tickets(gone.push(job)).drop_last() =~= tickets(gone));
                done@ = done@ + 1;
            }
            if job.is_meant(filter) {
                self.cancel_background_task(job.ticket);
                assert(self.cancelled@ =~= old(self).cancelled@ + tickets(all.take(done@).filter(drop)));
            } else {
                kept.push(job);
            }
        }
        assert(all.take(all.len() as int) =~= all);
        self.pending = kept;
    }

    /// Asks every job what became of it. `events` tells of each, in the order
    /// of the queue.
    pub fn poll(&mut self, events: &Vec<JobEvent>) -> (r: bool)
        ensures
            jobs_polled(*old(self), events@, *final(self)),
            r == (settled(old(self).pending@, events@).len() > 0),
    {
        let ghost all = self.pending@;
        let mut running: Vec<BackgroundJob> = Vec::new();
        let n: usize = self.pending.len();
        let mut i: usize = 0;
        let mut any = false;
        proof {
            assert(all.skip(0) =~= all);
            assert(all.take(0) =~= Seq::<BackgroundJob>::empty());
            assert(plain_ends(settled(all.take(0), events@)) =~= Seq::<EndedTask>::empty());
            assert(self.ended@ =~= old(self).ended@ + plain_ends(settled(all.take(0), events@)));
            assert(self.ready@ =~= old(self).ready@ + with_event(all.take(0), events@, JobEvent::Ready));
            assert(tickets(settled(all.take(0), events@)) =~= Seq::<u64>::empty());
        }
        while self.pending.len() > 0
            invariant
                all == old(self).pending@,
                i <= all.len(),
                self.pending@ == all.skip(i as int),
                n == all.len(),
                running@ == with_event(all.take(i as int), events@, JobEvent::Running),
                any == (settled(all.take(i as int), events@).len() > 0),
                *self == (Jobs {
                    pending: self.pending,
                    ready: self.ready,
                    tasks: self.tasks,
                    ended: self.ended,
                    residency_settled: self.residency_settled,
                    ..*old(self)
                }),
                self.ready@ == old(self).ready@ + with_event(all.take(i as int), events@, JobEvent::Ready),
                self.tasks@ == tasks_without_all(old(self).tasks@, tickets(settled(all.take(i as int), events@))),
                self.ended@ == old(self).ended@ + plain_ends(settled(all.take(i as int), events@)),
                self.residency_settled == (old(self).residency_settled || some_move_data(settled(all.take(i as int), events@))),
            decreases self.pending.len(),
        {
            let job = self.pending.remove(0);
            let ghost over = settled(all.take(i as int), events@);
            proof {
                assert(all.take(i + 1).drop_last() =~= all.take(i as int));
                assert(job == all[i as int]);
                assert(self.pending@ =~= all.skip(i + 1));
                assert(tickets(over.push(job)) =~= tickets(over).push(job.ticket));
                assert(tickets(over.push(job)).drop_last() =~= tickets(over));
                assert(plain_ends(over.push(job)) =~= plain_ends(over).push(EndedTask { ticket: job.ticket, topology: false }));
                lemma_some_move_data(over, job);
            }
            let event = if events.len() > i {
                events[i]
            } else {
                JobEvent::Running
            };
            let ghost ready = self.ready@;
            if event == JobEvent::Running {
                running.push(job);
            } else {
                any = true;
                if job.moves_data() {
                    self.residency_settled = true;
                }
                self.finish_background_task(job.ticket, false);
                if event == JobEvent::Ready {
                    self.ready.push(job);
                }
            }
            i += 1;
            proof {
                assert(self.ready@ =~= old(self).ready@ + with_event(all.take(i as int), events@, JobEvent::Ready));
                assert(self.ended@ =~= old(self).ended@ + plain_ends(settled(all.take(i as int), events@)));
            }
        }
        assert(all.take(all.len() as int) =~= all);
        self.pending = running;
        any
    }
}

/// One of the jobs moves data between memory and storage.
pub open spec fn some_move_data(jobs: Seq<BackgroundJob>) -> bool {
    exists|j: int| 0 <= j < jobs.len() && job_moves_data(#[trigger] jobs[j])
}

proof fn lemma_some_move_data(jobs: Seq<BackgroundJob>, job: BackgroundJob)
    ensures
        some_move_data(jobs.push(job)) == (some_move_data(jobs) || job_moves_data(job)),
{
    let more = jobs.push(job);
    if some_move_data(jobs) {
        let j = choose|j: int| 0 <= j < jobs.len() && job_moves_data(#[trigger] jobs[j]);
        assert(more[j] == jobs[j]);
    }
    if job_moves_data(job) {
        assert(more[jobs.len() as int] == job);
    }
    if some_move_data(more) {
        let j = choose|j: int| 0 <= j < more.len() && job_moves_data(#[trigger] more[j]);
        if j < jobs.len() {
            assert(jobs[j] == more[j]);
        }
    }
}

/// What beginning a task does.
pub open spec fn task_begun(pre: Jobs, label: Seq<char>, ticket: u64, post: Jobs) -> bool {
    &&& ticket == pre.next_ticket
    &&& post == (Jobs { tasks: post.tasks, next_ticket: (ticket + 1) as u64, ..pre })
    &&& post.tasks@.len() == pre.tasks@.len() + 1
    &&& post.tasks@.drop_last() == pre.tasks@
    &&& post.tasks@.last().ticket == ticket
    &&& post.tasks@.last().label@ == label
}

/// What queueing a job does.
pub open spec fn job_spawned(pre: Jobs, label: Seq<char>, keys: Seq<JobKey>, work: Work, ticket: u64, post: Jobs) -> bool {
    &&& ticket == pre.next_ticket
    &&& post == (Jobs { pending: post.pending, tasks: post.tasks, next_ticket: (ticket + 1) as u64, ..pre })
    &&& post.pending@.len() == pre.pending@.len() + 1
    &&& post.pending@.drop_last() == pre.pending@
    &&& post.pending@.last().ticket == ticket
    &&& post.pending@.last().label@ == label
    &&& post.pending@.last().keys@ == keys
    &&& post.pending@.last().work == work
    &&& post.tasks@.len() == pre.tasks@.len() + 1
    &&& post.tasks@.drop_last() == pre.tasks@
    &&& post.tasks@.last().ticket == ticket
    &&& post.tasks@.last().label@ == label
}

/// What queueing a job does to the whole state.
pub open spec fn job_queued(pre: App, label: Seq<char>, keys: Seq<JobKey>, work: Work, post: App) -> bool {
    &&& post == (App { jobs: post.jobs, ..pre })
    &&& job_spawned(pre.jobs, label, keys, work, pre.jobs.next_ticket, post.jobs)
}

/// The job that was queued last.
pub open spec fn last_work(app: App) -> Work {
    app.jobs.pending@.last().work
}

/// A list of one source.
pub fn one_key(key: JobKey) -> (r: Vec<JobKey>)
    ensures
        r@ == seq![key],
{
    let mut keys: Vec<JobKey> = Vec::new();
    keys.push(key);
    assert(keys@ =~= seq![key]);
    keys
}

/// What withdrawing jobs does: those meant go, with their tasks, and the rest
/// stays in its order.
pub open spec fn jobs_cancelled(pre: Jobs, filter: JobFilter, post: Jobs) -> bool {
    let gone = tickets(pre.pending@.filter(|j: BackgroundJob| job_meant(j, filter)));
    &&& post == (Jobs { pending: post.pending, tasks: post.tasks, cancelled: post.cancelled, ..pre })
    &&& post.pending@ == pre.pending@.filter(|j: BackgroundJob| !job_meant(j, filter))
    &&& post.cancelled@ == pre.cancelled@ + gone
    &&& post.tasks@ == tasks_without_all(pre.tasks@, gone)
}

/// What asking the queue does: results wait to be taken, in order, what is
/// running stays, and the tasks of what is over end.
pub open spec fn jobs_polled(pre: Jobs, events: Seq<JobEvent>, post: Jobs) -> bool {
    let over = settled(pre.pending@, events);
    &&& post == (Jobs {
        pending: post.pending,
        ready: post.ready,
        tasks: post.tasks,
        ended: post.ended,
        residency_settled: pre.residency_settled || some_move_data(over),
        ..pre
    })
    &&& post.pending@ == with_event(pre.pending@, events, JobEvent::Running)
    &&& post.ready@ == pre.ready@ + with_event(pre.pending@, events, JobEvent::Ready)
    &&& post.tasks@ == tasks_without_all(pre.tasks@, tickets(over))
    &&& post.ended@ == pre.ended@ + plain_ends(over)
}

/// After sources were withdrawn no queued job derives from them.
pub proof fn law_cancel_removes(pre: Jobs, filter: JobFilter, post: Jobs, i: int)
    requires
        jobs_cancelled(pre, filter, post),
        0 <= i < post.pending@.len(),
    ensures
        !job_meant(post.pending@[i], filter),
{
    let keep = |j: BackgroundJob| !job_meant(j, filter);
    crate::ids::lemma_filter_members(pre.pending@, keep);
    assert(post.pending@.contains(post.pending@[i]));
}

/// What the job derives from is as it was when the job began.
pub open spec fn key_current(app: App, key: JobKey) -> bool {
    match key {
        JobKey::Triangulation(id) => triangulation_index(app.items.triangulations@, id) < app.items.triangulations@.len(),
        JobKey::PointCloud(id) => point_cloud_index(app.items.point_clouds@, id) < app.items.point_clouds@.len(),
        JobKey::BlockModel(id) => block_model_index(app.items.block_models@, id) < app.items.block_models@.len(),
        JobKey::DrillHole(id) => dataset_index(app.items.drill_holes@, id) < app.items.drill_holes@.len(),
        JobKey::Raster(id) => raster_index(app.items.raster_textures@, id) < app.items.raster_textures@.len(),
        JobKey::Project { runtime_id, document_revision } => {
            let projects = app.workspace.projects@;
            let i = index_of_runtime(projects, runtime_id);
            i < projects.len() && projects[i].revision == document_revision
        },
        JobKey::HistoryResidency { runtime_id, .. } => active_runtime(app.workspace) == Some(runtime_id),
        JobKey::LayerResidency { layer, runtime_id, content_hash, .. } => match app.workspace.active() {
            Some(p) => p.runtime_id == runtime_id && p.layer_hash(layer) == Some(content_hash),
            None => false,
        },
        JobKey::Residency { item, runtime_id, revision, .. } => {
            &&& active_runtime(app.workspace) == Some(runtime_id)
            &&& item_state(app.items, item) matches Some(s) && s.epoch == revision
        },
        JobKey::Anonymous => true,
    }
}

/// Everything the job derives from is as it was when the job began.
pub open spec fn keys_current(app: App, keys: Seq<JobKey>) -> bool {
    forall|k: int| 0 <= k < keys.len() ==> key_current(app, #[trigger] keys[k])
}

/// The first job that is not stale, with what stands behind it.
pub open spec fn first_current(app: App, ready: Seq<BackgroundJob>) -> Option<(BackgroundJob, Seq<BackgroundJob>)>
    decreases ready.len(),
{
    if ready.len() == 0 {
        None
    } else if keys_current(app, ready[0].keys@) {
        Some((ready[0], ready.drop_first()))
    } else {
        first_current(app, ready.drop_first())
    }
}

impl App {
    /// Whether what the job derives from is as it was when the job began.
    fn job_key_is_current(&self, key: JobKey) -> (r: bool)
        ensures
            r == key_current(*self, key),
    {
        match key {
            JobKey::Triangulation(id) => self.items.find_triangulation(id).is_some(),
            JobKey::PointCloud(id) => self.items.find_point_cloud(id).is_some(),
            JobKey::BlockModel(id) => self.items.find_block_model(id).is_some(),
            JobKey::DrillHole(id) => self.items.find_dataset(id).is_some(),
            JobKey::Raster(id) => self.items.find_raster(id).is_some(),
            JobKey::Project { runtime_id, document_revision } => match self.workspace.project_index_for_runtime_id(runtime_id) {
                Some(i) => self.workspace.projects[i].revision == document_revision,
                None => false,
            },
            JobKey::HistoryResidency { runtime_id, .. } => match self.active_runtime_id() {
                Some(id) => id == runtime_id,
                None => false,
            },
            JobKey::LayerResidency { layer, runtime_id, content_hash, .. } => match self.workspace.active_project() {
                Some(p) => p.runtime_id == runtime_id && (match p.find_layer_hash(layer) {
                    Some(h) => h == content_hash,
                    None => false,
                }),
                None => false,
            },
            JobKey::Residency { item, runtime_id, revision, .. } => {
                let active = match self.active_runtime_id() {
                    Some(id) => id == runtime_id,
                    None => false,
                };
                active && (match self.items.state_of(item) {
                    Some(s) => s.epoch == revision,
                    None => false,
                })
            },
            JobKey::Anonymous => true,
        }
    }

    /// Whether everything the job derives from is as it was when it began.
    pub fn job_dependencies_are_current(&self, keys: &Vec<JobKey>) -> (r: bool)
        ensures
            r == keys_current(*self, keys@),
    {
        let mut k: usize = 0;
        while k < keys.len()
            invariant
                k <= keys.len(),
                forall|j: int| 0 <= j < k ==> key_current(*self, #[trigger] keys@[j]),
            decreases keys.len() - k,
        {
            if !self.job_key_is_current(keys[k]) {
                return false;
            }
            k += 1;
        }
        true
    }

    /// Queues a job.
    pub fn spawn_job(&mut self, label: String, keys: Vec<JobKey>, work: Work) -> (r: u64)
        requires
            old(self).jobs.next_ticket < u64::MAX,
        ensures
            *final(self) == (App { jobs: final(self).jobs, ..*old(self) }),
            job_spawned(old(self).jobs, label@, keys@, work, r, final(self).jobs),
            job_queued(*old(self), label@, keys@, work, *final(self)),
    {
        self.jobs.spawn(label, keys, work)
    }

    /// Withdraws the jobs that derive from the sources meant.
    pub fn cancel_jobs(&mut self, filter: JobFilter)
        ensures
            *final(self) == (App { jobs: final(self).jobs, ..*old(self) }),
            jobs_cancelled(old(self).jobs, filter, final(self).jobs),
    {
        self.jobs.cancel(filter);
    }

    /// Asks every job what became of it.
    pub fn poll_jobs(&mut self, events: &Vec<JobEvent>)
        ensures
            jobs_polled(old(self).jobs, events@, final(self).jobs),
            *final(self) == (App {
                jobs: final(self).jobs,
                frame: if settled(old(self).jobs.pending@, events@).len() > 0 {
                    old(self).frame.redraw()
                } else {
                    old(self).frame
                },
                ..*old(self)
            }),
    {
        if self.jobs.poll(events) {
            self.frame.redraw_requested = true;
        }
    }

    /// Takes the next job whose result is wanted; those before it that derive
    /// from something changed or gone are dropped.
    pub fn next_ready_job(&mut self) -> (r: Option<BackgroundJob>)
        ensures
            *final(self) == (App { jobs: Jobs { ready: final(self).jobs.ready, ..old(self).jobs }, ..*old(self) }),
            match first_current(*old(self), old(self).jobs.ready@) {
                Some((job, rest)) => r == Some(job) && final(self).jobs.ready@ == rest,
                None => r is None && final(self).jobs.ready@.len() == 0,
            },
    {
        let ghost before = self.jobs.ready@;
        while self.jobs.ready.len() > 0
            invariant
                before == old(self).jobs.ready@,
                *self == (App { jobs: Jobs { ready: self.jobs.ready, ..old(self).jobs }, ..*old(self) }),
                first_current(*old(self), before) == first_current(*old(self), self.jobs.ready@),
            decreases self.jobs.ready.len(),
        {
            let ghost ready = self.jobs.ready@;
            let job = self.jobs.ready.remove(0);
            assert(self.jobs.ready@ =~= ready.drop_first());
            let current = self.job_dependencies_are_current(&job.keys);
            proof {
                lemma_keys_current_frame(*self, *old(self), job.keys@);
            }
            if current {
                return Some(job);
            }
        }
        None
    }
}

/// The queue itself has no part in whether a source is current.
proof fn lemma_keys_current_frame(a: App, b: App, keys: Seq<JobKey>)
    requires
        a.items == b.items,
        a.workspace == b.workspace,
    ensures
        keys_current(a, keys) == keys_current(b, keys),
{
    assert forall|k: int| 0 <= k < keys.len() implies key_current(a, #[trigger] keys[k]) == key_current(b, keys[k]) by {
    }
    if keys_current(a, keys) {
        assert forall|k: int| 0 <= k < keys.len() implies key_current(b, #[trigger] keys[k]) by {
            assert(key_current(a, keys[k]));
        }
    }
    if keys_current(b, keys) {
        assert forall|k: int| 0 <= k < keys.len() implies key_current(a, #[trigger] keys[k]) by {
            assert(key_current(b, keys[k]));
        }
    }
}

/// A result whose source has changed or gone is never handed on.
pub proof fn law_stale_results_dropped(app: App, ready: Seq<BackgroundJob>)
    ensures
        match first_current(app, ready) {
            Some((job, _)) => keys_current(app, job.keys@),
            None => forall|i: int| 0 <= i < ready.len() ==> !keys_current(app, (#[trigger] ready[i]).keys@),
        },
    decreases ready.len(),
{
    if ready.len() > 0 && !keys_current(app, ready[0].keys@) {
        let rest = ready.drop_first();
        law_stale_results_dropped(app, rest);
        if first_current(app, ready) is None {
            assert forall|i: int| 0 <= i < ready.len() implies !keys_current(app, (#[trigger] ready[i]).keys@) by {
                if i > 0 {
                    assert(rest[i - 1] == ready[i]);
                }
            }
        }
    }
}

} // verus!
