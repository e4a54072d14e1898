//! Work in the background.

use crate::ids::ItemRef;
use crate::ids::LayerId;
use crate::jobs::{
    event_of, first_current, job_meant, job_spawned, jobs_cancelled, jobs_polled, key_current, keys_current, meant, settled, tasks_without_all,
    tickets, with_event, BackgroundJob, EndedTask, JobEvent, JobFilter, JobKey, Jobs, ReportedTask, Work,
};
use crate::state::App;
use vstd::prelude::*;

verus! {

/// New work waits last, under the next ticket, with its label and keys, and is
/// reported under the same ticket.
pub proof fn law_new_work_waits(pre: Jobs, label: Seq<char>, keys: Seq<JobKey>, work: Work, ticket: u64, post: Jobs)
    requires
        job_spawned(pre, label, keys, work, ticket, post),
        pre.next_ticket < u64::MAX,
    ensures
        post.pending@.len() == pre.pending@.len() + 1,
        post.pending@.last().ticket == pre.next_ticket && post.tasks@.last().ticket == pre.next_ticket,
        post.next_ticket == pre.next_ticket + 1,
        post.pending@.last().label@ == label && post.tasks@.last().label@ == label,
        post.pending@.last().keys@ == keys && post.pending@.last().work == work,
        post.ready == pre.ready && post.cancelled == pre.cancelled && post.ended == pre.ended,
        forall|i: int| 0 <= i < pre.pending@.len() ==> post.pending@[i] == #[trigger] pre.pending@[i],
{
    assert forall|i: int| 0 <= i < pre.pending@.len() implies post.pending@[i] == #[trigger] pre.pending@[i] by {
        assert(post.pending@.drop_last()[i] == post.pending@[i]);
    }
}

proof fn lemma_tasks_left(tasks: Seq<ReportedTask>, gone: Seq<u64>, t: ReportedTask)
    ensures
        tasks_without_all(tasks, gone).contains(t) <==> tasks.contains(t) && !gone.contains(t.ticket),
    decreases gone.len(),
{
    if gone.len() > 0 {
        let short = gone.drop_last();
        lemma_tasks_left(tasks, short, t);
        let ticket = gone.last();
        crate::ids::lemma_filter_members(tasks_without_all(tasks, short), |t: ReportedTask| t.ticket != ticket);
        assert(gone[gone.len() - 1] == ticket);
        if short.contains(t.ticket) {
            let i = choose|i: int| 0 <= i < short.len() && short[i] == t.ticket;
            assert(gone[i] == t.ticket);
        }
        if gone.contains(t.ticket) && t.ticket != ticket {
            let i = choose|i: int| 0 <= i < gone.len() && gone[i] == t.ticket;
            assert(short[i] == t.ticket);
        }
    }
}

/// Cancelling takes out the work that is meant and no other; its tickets are
/// told as cancelled and are no longer reported.
pub proof fn law_cancelling(pre: Jobs, filter: JobFilter, post: Jobs, job: BackgroundJob, task: ReportedTask)
    requires
        jobs_cancelled(pre, filter, post),
    ensures
        post.pending@.contains(job) <==> pre.pending@.contains(job) && !job_meant(job, filter),
        pre.pending@.contains(job) && job_meant(job, filter) ==> post.cancelled@.contains(job.ticket),
        post.tasks@.contains(task) ==> pre.tasks@.contains(task),
        post.tasks@.contains(task) && pre.pending@.contains(job) && job_meant(job, filter) ==> task.ticket != job.ticket,
        pre.tasks@.contains(task) && (forall|j: BackgroundJob| #[trigger] pre.pending@.contains(j) && job_meant(j, filter) ==> j.ticket != task.ticket)
            ==> post.tasks@.contains(task),
        post.ready == pre.ready && post.ended == pre.ended && post.next_ticket == pre.next_ticket,
{
    let f = |j: BackgroundJob| job_meant(j, filter);
    let g = |j: BackgroundJob| !job_meant(j, filter);
    crate::ids::lemma_filter_members(pre.pending@, f);
    crate::ids::lemma_filter_members(pre.pending@, g);
    let out = pre.pending@.filter(f);
    let gone = tickets(out);
    lemma_tasks_left(pre.tasks@, gone, task);
    if pre.pending@.contains(job) && job_meant(job, filter) {
        assert(out.contains(job));
        let i = choose|i: int| 0 <= i < out.len() && out[i] == job;
        assert(gone[i] == job.ticket);
        assert(post.cancelled@[pre.cancelled@.len() + i] == job.ticket);
    }
    if gone.contains(task.ticket) {
        let i = choose|i: int| 0 <= i < gone.len() && gone[i] == task.ticket;
        assert(out.contains(out[i]));
        assert(pre.pending@.contains(out[i]) && job_meant(out[i], filter));
    }
}

/// What is meant is the work with a key of just that item, layer or project.
pub proof fn law_what_is_meant(key: JobKey, k: JobKey, id: u32, item: ItemRef, layer: LayerId)
    ensures
        meant(JobFilter::Key(k), key) <==> k == key,
        meant(JobFilter::Project(id), key) <==> (key is Project && key->Project_runtime_id == id),
        meant(JobFilter::Residency(item), key) <==> (key is Residency && key->Residency_item == item),
        meant(JobFilter::LayerResidency(layer), key) <==> (key is LayerResidency && key->LayerResidency_layer == layer),
        meant(JobFilter::ItemRestore(item), key) <==> (key is Residency && key->Residency_item == item && key->Residency_restoring),
        meant(JobFilter::LayerRestore(layer), key) <==> (key is LayerResidency && key->LayerResidency_layer == layer && key->LayerResidency_restoring),
        meant(JobFilter::HistoryResidency, key) <==> key is HistoryResidency,
{
}

proof fn lemma_with_event(jobs: Seq<BackgroundJob>, events: Seq<JobEvent>, event: JobEvent, k: int)
    requires
        0 <= k < jobs.len(),
    ensures
        event_of(events, k) == event ==> with_event(jobs, events, event).contains(jobs[k]),
    decreases jobs.len(),
{
    let short = jobs.drop_last();
    let (before, all) = (with_event(short, events, event), with_event(jobs, events, event));
    if event_of(events, k) == event {
        if k < jobs.len() - 1 {
            lemma_with_event(short, events, event, k);
            let i = choose|i: int| 0 <= i < before.len() && before[i] == jobs[k];
            assert(all[i] == jobs[k]);
        } else {
            assert(all[all.len() - 1] == jobs[k]);
        }
    }
}

spec fn comes_from(job: BackgroundJob, jobs: Seq<BackgroundJob>, events: Seq<JobEvent>, event: JobEvent) -> bool {
    exists|k: int| 0 <= k < jobs.len() && #[trigger] jobs[k] == job && event_of(events, k) == event
}

proof fn lemma_only_with_event(jobs: Seq<BackgroundJob>, events: Seq<JobEvent>, event: JobEvent)
    ensures
        forall|i: int|
            0 <= i < with_event(jobs, events, event).len() ==> comes_from(#[trigger] with_event(jobs, events, event)[i], jobs, events, event),
    decreases jobs.len(),
{
    if jobs.len() > 0 {
        let short = jobs.drop_last();
        let (before, all) = (with_event(short, events, event), with_event(jobs, events, event));
        lemma_only_with_event(short, events, event);
        assert forall|i: int| 0 <= i < all.len() implies comes_from(#[trigger] all[i], jobs, events, event) by {
            if i < before.len() {
                assert(comes_from(before[i], short, events, event));
                let k = choose|k: int| 0 <= k < short.len() && #[trigger] short[k] == before[i] && event_of(events, k) == event;
                assert(jobs[k] == all[i]);
            } else {
                assert(jobs[jobs.len() - 1] == all[i]);
            }
        }
    }
}

proof fn lemma_settled(jobs: Seq<BackgroundJob>, events: Seq<JobEvent>, k: int)
    requires
        0 <= k < jobs.len(),
    ensures
        event_of(events, k) != JobEvent::Running ==> settled(jobs, events).contains(jobs[k]),
    decreases jobs.len(),
{
    let short = jobs.drop_last();
    let (before, all) = (settled(short, events), settled(jobs, events));
    if event_of(events, k) != JobEvent::Running {
        if k < jobs.len() - 1 {
            lemma_settled(short, events, k);
            let i = choose|i: int| 0 <= i < before.len() && before[i] == jobs[k];
            assert(all[i] == jobs[k]);
        } else {
            assert(all[all.len() - 1] == jobs[k]);
        }
    }
}

/// Work that is still running stays, work that is done becomes ready, and work
/// that was lost is only ended; what does not run any more is not reported.
pub proof fn law_polling(pre: Jobs, events: Seq<JobEvent>, post: Jobs, k: int, i: int, task: ReportedTask)
    requires
        jobs_polled(pre, events, post),
        0 <= k < pre.pending@.len(),
        pre.pending@.len() == events.len(),
        0 <= i < post.pending@.len(),
    ensures
        events[k] == JobEvent::Running ==> post.pending@.contains(pre.pending@[k]),
        events[k] == JobEvent::Ready ==> post.ready@.contains(pre.pending@[k]),
        events[k] != JobEvent::Running ==> post.ended@.contains(EndedTask { ticket: pre.pending@[k].ticket, topology: false }),
        post.tasks@.contains(task) && events[k] != JobEvent::Running ==> task.ticket != pre.pending@[k].ticket,
        exists|j: int| 0 <= j < pre.pending@.len() && #[trigger] pre.pending@[j] == post.pending@[i] && events[j] == JobEvent::Running,
        post.cancelled == pre.cancelled && post.next_ticket == pre.next_ticket,
        pre.residency_settled ==> post.residency_settled,
        events[k] != JobEvent::Running && crate::jobs::job_moves_data(pre.pending@[k]) ==> post.residency_settled,
{
    let jobs = pre.pending@;
    lemma_with_event(jobs, events, JobEvent::Running, k);
    lemma_with_event(jobs, events, JobEvent::Ready, k);
    lemma_settled(jobs, events, k);
    lemma_only_with_event(jobs, events, JobEvent::Running);
    let over = settled(jobs, events);
    lemma_tasks_left(pre.tasks@, tickets(over), task);
    assert(comes_from(post.pending@[i], jobs, events, JobEvent::Running));
    let j = choose|j: int| 0 <= j < jobs.len() && #[trigger] jobs[j] == post.pending@[i] && event_of(events, j) == JobEvent::Running;
    assert(events[j] == JobEvent::Running);
    if events[k] == JobEvent::Ready {
        let done = with_event(jobs, events, JobEvent::Ready);
        let x = choose|x: int| 0 <= x < done.len() && done[x] == jobs[k];
        assert(post.ready@[pre.ready@.len() + x] == jobs[k]);
    }
    if events[k] != JobEvent::Running {
        let x = choose|x: int| 0 <= x < over.len() && over[x] == jobs[k];
        assert(tickets(over)[x] == jobs[k].ticket);
        assert(crate::jobs::job_moves_data(over[x]) == crate::jobs::job_moves_data(jobs[k]));
        assert(crate::jobs::plain_ends(over)[x] == EndedTask { ticket: jobs[k].ticket, topology: false });
        assert(post.ended@[pre.ended@.len() + x] == EndedTask { ticket: jobs[k].ticket, topology: false });
    }
}

/// The result that is taken is the first that still speaks of what is there;
/// those before it are dropped and those behind it wait.
pub proof fn law_first_current_result(app: App, ready: Seq<BackgroundJob>, k: int)
    requires
        0 <= k < ready.len(),
        keys_current(app, ready[k].keys@),
        forall|i: int| 0 <= i < k ==> !keys_current(app, (#[trigger] ready[i]).keys@),
    ensures
        first_current(app, ready) == Some((ready[k], ready.skip(k + 1))),
    decreases ready.len(),
{
    if k > 0 {
        assert(!keys_current(app, ready[0].keys@));
        let rest = ready.drop_first();
        assert forall|i: int| 0 <= i < k - 1 implies !keys_current(app, (#[trigger] rest[i]).keys@) by {
            assert(rest[i] == ready[i + 1]);
        }
        law_first_current_result(app, rest, k - 1);
        assert(rest.skip(k) =~= ready.skip(k + 1));
    } else {
        assert(ready.drop_first() =~= ready.skip(1));
    }
}

/// A result speaks of what is there as long as its item is there, its project
/// has not been changed since, and what it brings back has not been either.
pub proof fn law_current_keys(app: App, key: JobKey)
    ensures
        match key {
            JobKey::Triangulation(id) => key_current(app, key) <==> exists|i: int|
                0 <= i < app.items.triangulations@.len() && (#[trigger] app.items.triangulations@[i]).id == id,
            JobKey::BlockModel(id) => key_current(app, key) <==> exists|i: int|
                0 <= i < app.items.block_models@.len() && (#[trigger] app.items.block_models@[i]).id == id,
            JobKey::DrillHole(id) => key_current(app, key) <==> exists|i: int|
                0 <= i < app.items.drill_holes@.len() && (#[trigger] app.items.drill_holes@[i]).id == id,
            JobKey::PointCloud(id) => key_current(app, key) <==> exists|i: int|
                0 <= i < app.items.point_clouds@.len() && (#[trigger] app.items.point_clouds@[i]).id == id,
            JobKey::Raster(id) => key_current(app, key) <==> exists|i: int|
                0 <= i < app.items.raster_textures@.len() && (#[trigger] app.items.raster_textures@[i]).id == id,
            JobKey::Project { runtime_id, document_revision } => key_current(app, key) ==> exists|i: int|
                0 <= i < app.workspace.projects@.len() && (#[trigger] app.workspace.projects@[i]).runtime_id == runtime_id && app.workspace.projects@[i].revision
                    == document_revision,
            JobKey::HistoryResidency { runtime_id, .. } => key_current(app, key) <==> (app.workspace.active() matches Some(p) && p.runtime_id == runtime_id),
            JobKey::LayerResidency { layer, runtime_id, content_hash, .. } => key_current(app, key) <==> (app.workspace.active() matches Some(p)
                && p.runtime_id == runtime_id && p.layer_hash(layer) == Some(content_hash)),
            JobKey::Residency { item, runtime_id, revision, .. } => key_current(app, key) <==> (app.workspace.active() matches Some(p) && p.runtime_id
                == runtime_id) && (crate::items::item_state(app.items, item) matches Some(s) && s.epoch == revision),
            JobKey::Anonymous => key_current(app, key),
        },
{
    match key {
        JobKey::Triangulation(id) => {
            let f = |t: crate::items::OpenTriangulation| t.id == id;
            crate::search::lemma_first_index(app.items.triangulations@, f);
            assert(forall|i: int| 0 <= i < app.items.triangulations@.len() ==> f(app.items.triangulations@[i]) == ((#[trigger] app.items.triangulations@[i]).id == id));
        },
        JobKey::BlockModel(id) => {
            let f = |x: crate::items::OpenBlockModel| x.id == id;
            crate::search::lemma_first_index(app.items.block_models@, f);
            assert(forall|i: int| 0 <= i < app.items.block_models@.len() ==> f(app.items.block_models@[i]) == ((#[trigger] app.items.block_models@[i]).id == id));
        },
        JobKey::DrillHole(id) => {
            let f = |d: crate::items::OpenDrillHoleDataset| d.id == id;
            crate::search::lemma_first_index(app.items.drill_holes@, f);
            assert(forall|i: int| 0 <= i < app.items.drill_holes@.len() ==> f(app.items.drill_holes@[i]) == ((#[trigger] app.items.drill_holes@[i]).id == id));
        },
        JobKey::PointCloud(id) => {
            let f = |x: crate::items::OpenPointCloud| x.id == id;
            crate::search::lemma_first_index(app.items.point_clouds@, f);
            assert(forall|i: int| 0 <= i < app.items.point_clouds@.len() ==> f(app.items.point_clouds@[i]) == ((#[trigger] app.items.point_clouds@[i]).id == id));
        },
        JobKey::Raster(id) => {
            let f = |x: crate::items::OpenRasterTexture| x.id == id;
            crate::search::lemma_first_index(app.items.raster_textures@, f);
            assert(forall|i: int| 0 <= i < app.items.raster_textures@.len() ==> f(app.items.raster_textures@[i]) == ((#[trigger] app.items.raster_textures@[i]).id == id));
        },
        JobKey::Project { runtime_id, document_revision } => {
            let f = |p: crate::workspace::OpenProject| p.runtime_id == runtime_id;
            crate::search::lemma_first_index(app.workspace.projects@, f);
            let i = crate::workspace::index_of_runtime(app.workspace.projects@, runtime_id);
            if i < app.workspace.projects@.len() {
                assert(f(app.workspace.projects@[i]));
            }
        },
        _ => {},
    }
}

} // verus!
