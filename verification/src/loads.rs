//! Files being read in the background, and what becomes of them.

use crate::arrivals::{
    block_model_added, cloud_color, content_touched, default_cloud_color, drill_holes_added, fresh_state, new_state, point_cloud_added, raster_added,
    renderable, triangulation_added, LoadedBlockModel, LoadedDrillHoles, LoadedPointCloud, LoadedRaster, LoadedTriangulation, TENTH,
};
use crate::error::AppError;
use crate::items::{ItemState, Items};
use crate::jobs::{task_begun, tasks_without, EndedTask, Jobs};
use crate::search::find_first;
use crate::state::{App, Frame};
use crate::text::{extension, extension_of, file_name, file_part, join, known_path, same_text, text_of};
use vstd::prelude::*;
use vstd::string::*;

verus! {

/// What is being read.
#[derive(Clone, Copy, PartialEq, Eq, Structural, Debug)]
pub enum LoadKind {
    Triangulation,
    PointCloud,
    Raster,
    BlockModel,
    DrillHoles,
}

/// A file being read. `path` tells it from others of its kind: of drillholes
/// it is the name of the source, and `mapping` tells it from others too.
/// `mapping` is a key to how the columns of tables are to be understood;
/// `limit` is how large a preview may become, where it is an image.
pub struct PendingLoad {
    pub ticket: u64,
    pub path: String,
    pub mapping: Option<u64>,
    pub limit: u32,
}

/// The files being read.
pub struct Loads {
    pub triangulations: Vec<PendingLoad>,
    pub point_clouds: Vec<PendingLoad>,
    pub rasters: Vec<PendingLoad>,
    pub block_models: Vec<PendingLoad>,
    pub drill_holes: Vec<PendingLoad>,
    /// The largest texture that the hardware takes.
    pub hardware_limit: u32,
}

/// What a file held.
pub enum Loaded {
    Triangulation(LoadedTriangulation),
    PointCloud(LoadedPointCloud),
    Raster(LoadedRaster),
    BlockModel(LoadedBlockModel),
    DrillHoles(LoadedDrillHoles),
}

/// What became of a file since it was last asked.
pub enum LoadOutcome {
    Running,
    Done(Loaded),
    Failed,
    Lost,
}

fn same_mapping(a: Option<u64>, b: Option<u64>) -> (r: bool)
    ensures
        r == (a == b),
{
    match (a, b) {
        (Some(x), Some(y)) => x == y,
        (None, None) => true,
        _ => false,
    }
}

impl Loads {
    /// The files of one kind.
    pub open spec fn of(&self, kind: LoadKind) -> Vec<PendingLoad> {
        match kind {
            LoadKind::Triangulation => self.triangulations,
            LoadKind::PointCloud => self.point_clouds,
            LoadKind::Raster => self.rasters,
            LoadKind::BlockModel => self.block_models,
            LoadKind::DrillHoles => self.drill_holes,
        }
    }

    /// The same, with other files of one kind.
    pub open spec fn with(self, kind: LoadKind, files: Vec<PendingLoad>) -> Loads {
        match kind {
            LoadKind::Triangulation => Loads { triangulations: files, ..self },
            LoadKind::PointCloud => Loads { point_clouds: files, ..self },
            LoadKind::Raster => Loads { rasters: files, ..self },
            LoadKind::BlockModel => Loads { block_models: files, ..self },
            LoadKind::DrillHoles => Loads { drill_holes: files, ..self },
        }
    }

    /// A file of the kind is being read from the path. Sources of drillholes
    /// are the same only where their mappings are.
    pub open spec fn reading(&self, kind: LoadKind, path: Seq<char>, mapping: Option<u64>) -> bool {
        exists|i: int|
            0 <= i < self.of(kind)@.len() && (#[trigger] self.of(kind)@[i]).path@ == path && (kind == LoadKind::DrillHoles ==> self.of(kind)@[i].mapping
                == mapping)
    }

    pub fn is_reading(&self, kind: LoadKind, path: &str, mapping: Option<u64>) -> (r: bool)
        ensures
            r == self.reading(kind, path@, mapping),
    {
        let files = match kind {
            LoadKind::Triangulation => &self.triangulations,
            LoadKind::PointCloud => &self.point_clouds,
            LoadKind::Raster => &self.rasters,
            LoadKind::BlockModel => &self.block_models,
            LoadKind::DrillHoles => &self.drill_holes,
        };
        assert(*files == self.of(kind));
        let whole = kind == LoadKind::DrillHoles;
        let found = find_first(files, Ghost(|l: PendingLoad| l.path@ == path@ && (whole ==> l.mapping == mapping)), |l: &PendingLoad| -> (b: bool)
            ensures
                b == (l.path@ == path@ && (whole ==> l.mapping == mapping)),
            { same_text(l.path.as_str(), path) && (!whole || same_mapping(l.mapping, mapping)) });
        found.is_some()
    }

    fn add_load(&mut self, kind: LoadKind, load: PendingLoad)
        ensures
            final(self).of(kind)@ == old(self).of(kind)@.push(load),
            *final(self) == old(self).with(kind, final(self).of(kind)),
    {
        match kind {
            LoadKind::Triangulation => self.triangulations.push(load),
            LoadKind::PointCloud => self.point_clouds.push(load),
            LoadKind::Raster => self.rasters.push(load),
            LoadKind::BlockModel => self.block_models.push(load),
            LoadKind::DrillHoles => self.drill_holes.push(load),
        }
    }

    fn take(&mut self, kind: LoadKind) -> (r: Option<PendingLoad>)
        ensures
            *final(self) == old(self).with(kind, final(self).of(kind)),
            old(self).of(kind)@.len() == 0 ==> r is None && *final(self) == *old(self),
            old(self).of(kind)@.len() > 0 ==> r == Some(old(self).of(kind)@[0]) && final(self).of(kind)@ == old(self).of(kind)@.drop_first(),
    {
        let files = match kind {
            LoadKind::Triangulation => &mut self.triangulations,
            LoadKind::PointCloud => &mut self.point_clouds,
            LoadKind::Raster => &mut self.rasters,
            LoadKind::BlockModel => &mut self.block_models,
            LoadKind::DrillHoles => &mut self.drill_holes,
        };
        if files.len() == 0 {
            return None;
        }
        let first = files.remove(0);
        assert(files@ =~= old(self).of(kind)@.drop_first());
        Some(first)
    }

    fn put(&mut self, kind: LoadKind, files: Vec<PendingLoad>)
        ensures
            *final(self) == old(self).with(kind, files),
    {
        match kind {
            LoadKind::Triangulation => {
                self.triangulations = files;
            },
            LoadKind::PointCloud => {
                self.point_clouds = files;
            },
            LoadKind::Raster => {
                self.rasters = files;
            },
            LoadKind::BlockModel => {
                self.block_models = files;
            },
            LoadKind::DrillHoles => {
                self.drill_holes = files;
            },
        }
    }
}

/// What the task of a file being read is called. Drillholes go by the whole
/// name of their source.
pub open spec fn loading_label(kind: LoadKind, path: Seq<char>, label: Seq<char>) -> bool {
    if kind == LoadKind::DrillHoles {
        label == "Loading "@ + path
    } else {
        known_path(path) ==> label == "Loading "@ + file_part(path)
    }
}

fn load_label(kind: LoadKind, path: &str) -> (r: String)
    ensures
        loading_label(kind, path@, r@),
{
    if kind == LoadKind::DrillHoles {
        return join("Loading ", path);
    }
    match file_name(path) {
        Some(name) => join("Loading ", name.as_str()),
        None => join("Loading ", path),
    }
}

/// What beginning to read a file does.
pub open spec fn load_begun(pre: App, kind: LoadKind, path: Seq<char>, mapping: Option<u64>, limit: u32, post: App) -> bool {
    if pre.loads.reading(kind, path, mapping) {
        post == pre
    } else {
        let files = post.loads.of(kind)@;
        &&& post == (App { loads: pre.loads.with(kind, post.loads.of(kind)), jobs: post.jobs, ..pre })
        &&& files.len() == pre.loads.of(kind)@.len() + 1
        &&& files.drop_last() == pre.loads.of(kind)@
        &&& files.last().ticket == pre.jobs.next_ticket
        &&& files.last().path@ == path
        &&& files.last().mapping == mapping
        &&& files.last().limit == limit
        &&& exists|label: Seq<char>| loading_label(kind, path, label) && #[trigger] task_begun(pre.jobs, label, pre.jobs.next_ticket, post.jobs)
    }
}

/// The largest side of a preview.
pub const MAX_RASTER_PREVIEW_DIMENSION: u32 = 4096;

/// How large a preview may become.
pub open spec fn preview_limit(downscale: bool, hardware_limit: u32) -> u32 {
    if downscale && MAX_RASTER_PREVIEW_DIMENSION < hardware_limit {
        MAX_RASTER_PREVIEW_DIMENSION
    } else {
        hardware_limit
    }
}

/// How large a preview may become.
pub fn raster_preview_dimension_limit(downscale: bool, hardware_limit: u32) -> (r: u32)
    ensures
        r == preview_limit(downscale, hardware_limit),
        r <= hardware_limit,
        downscale ==> r <= MAX_RASTER_PREVIEW_DIMENSION,
{
    if downscale && MAX_RASTER_PREVIEW_DIMENSION < hardware_limit {
        MAX_RASTER_PREVIEW_DIMENSION
    } else {
        hardware_limit
    }
}

/// A task ended.
pub open spec fn task_ended(pre: Jobs, ticket: u64, topology: bool, post: Jobs) -> bool {
    &&& post == (Jobs { tasks: post.tasks, ended: post.ended, ..pre })
    &&& post.tasks@ == tasks_without(pre.tasks@, ticket)
    &&& post.ended@ == pre.ended@.push(EndedTask { ticket, topology })
}

/// The state of an item that came from the path.
pub open spec fn state_from(path: Seq<char>, state: ItemState) -> bool {
    &&& state == fresh_state(state.source, None, true, false)
    &&& known_path(path) ==> text_of(state.source) == Some(file_part(path))
}

/// The frame once the view was fitted, where nothing was there before.
pub open spec fn fitted_if(frame: Frame, fit: bool) -> Frame {
    if fit {
        frame.fit()
    } else {
        frame
    }
}

/// What the file held has joined the items.
pub open spec fn loaded_added(pre: Items, path: Seq<char>, loaded: Loaded, post: Items) -> bool {
    match loaded {
        Loaded::Triangulation(l) => {
            let state = post.triangulations@.last().state;
            &&& triangulation_added(pre, l, state, pre.next_triangulation_id, post)
            &&& state_from(path, state)
            &&& post.next_triangulation_id == pre.next_triangulation_id + 1
        },
        Loaded::PointCloud(l) => {
            let state = post.point_clouds@.last().state;
            &&& point_cloud_added(pre, l, state, cloud_color(), TENTH, pre.next_point_cloud_id, post)
            &&& state_from(path, state)
            &&& post.next_point_cloud_id == pre.next_point_cloud_id + 1
        },
        Loaded::Raster(l) => {
            let state = post.raster_textures@.last().state;
            &&& raster_added(pre, l, state, pre.next_raster_texture_id, post)
            &&& state_from(path, state)
            &&& post.next_raster_texture_id == pre.next_raster_texture_id + 1
        },
        Loaded::BlockModel(l) => {
            let state = post.block_models@.last().state;
            &&& block_model_added(pre, l, state, pre.next_block_model_id, post)
            &&& state_from(path, state)
            &&& post.next_block_model_id == pre.next_block_model_id + 1
        },
        Loaded::DrillHoles(l) => {
            let state = post.drill_holes@.last().state;
            &&& drill_holes_added(pre, l, state, pre.next_drill_hole_id, post)
            &&& state == fresh_state(state.source, None, true, false)
            &&& text_of(state.source) == Some(path)
            &&& post.next_drill_hole_id == pre.next_drill_hole_id + 1
        },
    }
}

/// There is an id left for what the file held.
pub open spec fn id_left(items: Items, loaded: Loaded, n: int) -> bool {
    match loaded {
        Loaded::Triangulation(_) => items.next_triangulation_id + n <= u64::MAX,
        Loaded::PointCloud(_) => items.next_point_cloud_id + n <= u64::MAX,
        Loaded::Raster(_) => items.next_raster_texture_id + n <= u64::MAX,
        Loaded::BlockModel(_) => items.next_block_model_id + n <= u64::MAX,
        Loaded::DrillHoles(_) => items.next_drill_hole_id + n <= u64::MAX,
    }
}

/// The kinds of items have at least so many ids left each.
pub open spec fn item_ids_left(items: Items, n: int) -> bool {
    &&& items.next_triangulation_id + n <= u64::MAX
    &&& items.next_point_cloud_id + n <= u64::MAX
    &&& items.next_raster_texture_id + n <= u64::MAX
    &&& items.next_block_model_id + n <= u64::MAX
    &&& items.next_drill_hole_id + n <= u64::MAX
}

/// The frame once something joined the items: a raster asks for a redraw
/// only; anything else moves the extents, and surfaces, block models and
/// drillholes also belong to the session. Where there was nothing to look at
/// the view is fitted, except to drillholes.
pub open spec fn arrival_frame(app: App, loaded: Loaded) -> Frame {
    match loaded {
        Loaded::Triangulation(_) => fitted_if(app.frame, !renderable(app)).session().bounds(),
        Loaded::PointCloud(_) => fitted_if(app.frame, !renderable(app)).bounds(),
        Loaded::Raster(_) => app.frame.redraw(),
        Loaded::BlockModel(_) => fitted_if(app.frame, !renderable(app)).session().bounds(),
        Loaded::DrillHoles(_) => app.frame.session().bounds(),
    }
}

/// What the arrival of an item does.
pub open spec fn arrived(pre: App, path: Seq<char>, loaded: Loaded, post: App) -> bool {
    &&& post == (App { items: post.items, workspace: post.workspace, frame: arrival_frame(pre, loaded), ..pre })
    &&& loaded_added(pre.items, path, loaded, post.items)
    &&& content_touched(pre.workspace, post.workspace)
}

/// What becomes of one file: it goes on being read, or its task ends, and what
/// it held joins the project.
pub open spec fn load_settled(pre: App, load: PendingLoad, outcome: LoadOutcome, post: App) -> bool {
    match outcome {
        LoadOutcome::Running => post == pre,
        LoadOutcome::Done(loaded) => {
            &&& task_ended(pre.jobs, load.ticket, !(loaded is Raster), post.jobs)
            &&& arrived(App { jobs: post.jobs, ..pre }, load.path@, loaded, post)
        },
        _ => {
            &&& post == (App { jobs: post.jobs, ..pre })
            &&& task_ended(pre.jobs, load.ticket, false, post.jobs)
        },
    }
}

/// What became of the i-th file: it is being read where nothing is told.
pub open spec fn outcome_of(outcomes: Seq<LoadOutcome>, i: int) -> LoadOutcome {
    if 0 <= i < outcomes.len() {
        outcomes[i]
    } else {
        LoadOutcome::Running
    }
}

/// The first `n` files were settled, one after the other.
pub open spec fn loads_settled(pre: App, files: Seq<PendingLoad>, outcomes: Seq<LoadOutcome>, n: int, post: App) -> bool
    decreases n,
{
    if n <= 0 {
        post == pre
    } else {
        exists|mid: App|
            loads_settled(pre, files, outcomes, n - 1, mid) && #[trigger] load_settled(mid, files[n - 1], outcome_of(outcomes, n - 1), post)
    }
}

/// The files that go on being read, in their order.
pub open spec fn still_reading(files: Seq<PendingLoad>, outcomes: Seq<LoadOutcome>) -> Seq<PendingLoad>
    decreases files.len(),
{
    if files.len() == 0 {
        Seq::empty()
    } else {
        let before = still_reading(files.drop_last(), outcomes);
        if outcome_of(outcomes, files.len() - 1) is Running {
            before.push(files.last())
        } else {
            before
        }
    }
}

/// What asking the files of one kind does.
pub open spec fn loads_polled(pre: App, kind: LoadKind, outcomes: Seq<LoadOutcome>, post: App) -> bool {
    let files = pre.loads.of(kind)@;
    exists|mid: App| #[trigger]
        loads_settled(pre, files, outcomes, files.len() as int, mid) && post == (App {
            loads: pre.loads.with(kind, post.loads.of(kind)),
            ..mid
        }) && post.loads.of(kind)@ == still_reading(files, outcomes)
}

impl Items {
    /// Adds what a file held under the next id of its kind. Drillholes came
    /// from a source with a name of its own.
    pub fn add_loaded(&mut self, path: &str, loaded: Loaded)
        requires
            id_left(*old(self), loaded, 1),
        ensures
            loaded_added(*old(self), path@, loaded, *final(self)),
    {
        let source = match &loaded {
            Loaded::DrillHoles(_) => Some(path.to_string()),
            _ => file_name(path),
        };
        let state = new_state(source, None, true, false);
        match loaded {
            Loaded::Triangulation(l) => {
                let id: u64 = self.next_triangulation_id;
                self.add_triangulation(l, state, id);
                self.next_triangulation_id = id + 1;
            },
            Loaded::PointCloud(l) => {
                let id: u64 = self.next_point_cloud_id;
                self.add_point_cloud(l, state, default_cloud_color(), TENTH, id);
                self.next_point_cloud_id = id + 1;
            },
            Loaded::Raster(l) => {
                let id: u64 = self.next_raster_texture_id;
                self.add_raster(l, state, id);
                self.next_raster_texture_id = id + 1;
            },
            Loaded::BlockModel(l) => {
                let id: u64 = self.next_block_model_id;
                self.add_block_model(l, state, id);
                self.next_block_model_id = id + 1;
            },
            Loaded::DrillHoles(l) => {
                let id: u64 = self.next_drill_hole_id;
                self.add_drill_holes(l, state, id);
                self.next_drill_hole_id = id + 1;
            },
        }
    }
}

impl Frame {
    fn note_arrival(&mut self, loaded: &Loaded, fit: bool)
        ensures
            *final(self) == (match *loaded {
                Loaded::Triangulation(_) => fitted_if(*old(self), fit).session().bounds(),
                Loaded::PointCloud(_) => fitted_if(*old(self), fit).bounds(),
                Loaded::Raster(_) => old(self).redraw(),
                Loaded::BlockModel(_) => fitted_if(*old(self), fit).session().bounds(),
                Loaded::DrillHoles(_) => old(self).session().bounds(),
            }),
    {
        let (fits, session, extents) = match loaded {
            Loaded::Triangulation(_) => (true, true, true),
            Loaded::PointCloud(_) => (true, false, true),
            Loaded::Raster(_) => (false, false, false),
            Loaded::BlockModel(_) => (true, true, true),
            Loaded::DrillHoles(_) => (false, true, true),
        };
        if fits && fit {
            self.fit_view = true;
        }
        if session {
            self.session_stale = true;
        }
        if extents {
            self.bounds_stale = true;
            self.topology_stale = true;
        }
        self.redraw_requested = true;
    }
}

impl App {
    /// Begins to read a file, unless it is being read already.
    fn begin_load(&mut self, kind: LoadKind, path: &str, mapping: Option<u64>, limit: u32)
        requires
            old(self).jobs.next_ticket < u64::MAX,
        ensures
            load_begun(*old(self), kind, path@, mapping, limit, *final(self)),
    {
        if self.loads.is_reading(kind, path, mapping) {
            return ;
        }
        let label = load_label(kind, path);
        let ghost shown = label@;
        let ticket: u64 = self.jobs.begin_reported_task(label);
        assert(task_begun(old(self).jobs, shown, ticket, self.jobs));
        self.loads.add_load(kind, PendingLoad { ticket, path: path.to_string(), mapping, limit });
        assert(self.loads.of(kind)@.drop_last() =~= old(self).loads.of(kind)@);
    }

    /// Begins to read a surface.
    pub fn open_triangulation_path(&mut self, path: &str)
        requires
            old(self).jobs.next_ticket < u64::MAX,
        ensures
            load_begun(*old(self), LoadKind::Triangulation, path@, None, 0, *final(self)),
    {
        self.begin_load(LoadKind::Triangulation, path, None, 0);
    }

    /// Begins to read a point cloud.
    pub fn open_point_cloud_path(&mut self, path: &str)
        requires
            old(self).jobs.next_ticket < u64::MAX,
        ensures
            load_begun(*old(self), LoadKind::PointCloud, path@, None, 0, *final(self)),
    {
        self.begin_load(LoadKind::PointCloud, path, None, 0);
    }

    /// Begins to read a point cloud of a known format from a file that is
    /// there.
    pub fn import_point_cloud_path(&mut self, path: &str, supported: bool, present: bool) -> (r: Result<(), AppError>)
        requires
            old(self).jobs.next_ticket < u64::MAX,
        ensures
            if !supported {
                r == Err::<(), AppError>(AppError::UnsupportedFile) && *final(self) == *old(self)
            } else if !present {
                r == Err::<(), AppError>(AppError::FileMissing) && *final(self) == *old(self)
            } else {
                r is Ok && load_begun(*old(self), LoadKind::PointCloud, path@, None, 0, *final(self))
            },
    {
        if !supported {
            return Err(AppError::UnsupportedFile);
        }
        if !present {
            return Err(AppError::FileMissing);
        }
        self.open_point_cloud_path(path);
        Ok(())
    }

    /// Begins to read a raster.
    pub fn open_raster_path(&mut self, path: &str)
        requires
            old(self).jobs.next_ticket < u64::MAX,
        ensures
            load_begun(
                *old(self),
                LoadKind::Raster,
                path@,
                None,
                preview_limit(old(self).view.applied.frames.downscale_raster_previews, old(self).loads.hardware_limit),
                *final(self),
            ),
    {
        let limit: u32 = raster_preview_dimension_limit(self.view.applied.frames.downscale_raster_previews, self.loads.hardware_limit);
        self.begin_load(LoadKind::Raster, path, None, limit);
    }

    /// Begins to read a raster of a known format from a file that is there.
    pub fn import_raster_path(&mut self, path: &str, supported: bool, present: bool) -> (r: Result<(), AppError>)
        requires
            old(self).jobs.next_ticket < u64::MAX,
        ensures
            if !supported {
                r == Err::<(), AppError>(AppError::UnsupportedFile) && *final(self) == *old(self)
            } else if !present {
                r == Err::<(), AppError>(AppError::FileMissing) && *final(self) == *old(self)
            } else {
                r is Ok && load_begun(
                    *old(self),
                    LoadKind::Raster,
                    path@,
                    None,
                    preview_limit(old(self).view.applied.frames.downscale_raster_previews, old(self).loads.hardware_limit),
                    *final(self),
                )
            },
    {
        if !supported {
            return Err(AppError::UnsupportedFile);
        }
        if !present {
            return Err(AppError::FileMissing);
        }
        self.open_raster_path(path);
        Ok(())
    }

    /// Begins to read a block model.
    pub fn open_block_model_source(&mut self, path: &str, columns: Option<u64>)
        requires
            old(self).jobs.next_ticket < u64::MAX,
        ensures
            load_begun(*old(self), LoadKind::BlockModel, path@, columns, 0, *final(self)),
    {
        self.begin_load(LoadKind::BlockModel, path, columns, 0);
    }

    /// Begins to read a block model from a table that is there and whose
    /// columns are understood.
    pub fn import_block_model_source(&mut self, path: &str, columns: Option<u64>, present: bool) -> (r: Result<(), AppError>)
        requires
            old(self).jobs.next_ticket < u64::MAX,
        ensures
            if columns is None {
                r == Err::<(), AppError>(AppError::UnsupportedFile) && *final(self) == *old(self)
            } else if !present {
                r == Err::<(), AppError>(AppError::FileMissing) && *final(self) == *old(self)
            } else {
                r is Ok && load_begun(*old(self), LoadKind::BlockModel, path@, columns, 0, *final(self))
            },
    {
        if columns.is_none() {
            return Err(AppError::UnsupportedFile);
        }
        if !present {
            return Err(AppError::FileMissing);
        }
        self.open_block_model_source(path, columns);
        Ok(())
    }

    /// Begins to read drillholes. `name` tells the source from others.
    pub fn open_drill_hole_source(&mut self, name: &str, mapping: Option<u64>)
        requires
            old(self).jobs.next_ticket < u64::MAX,
        ensures
            load_begun(*old(self), LoadKind::DrillHoles, name@, mapping, 0, *final(self)),
    {
        self.begin_load(LoadKind::DrillHoles, name, mapping, 0);
    }

    /// Begins to read drillholes from tables that are all there. `legacy`
    /// tells that the source is of a kind that is no longer read; `missing`
    /// that one of its tables is not there.
    pub fn import_drill_hole_source(&mut self, name: &str, mapping: Option<u64>, legacy: bool, missing: bool) -> (r: Result<(), AppError>)
        requires
            old(self).jobs.next_ticket < u64::MAX,
        ensures
            if legacy {
                r == Err::<(), AppError>(AppError::UnsupportedFile) && *final(self) == *old(self)
            } else if missing {
                r == Err::<(), AppError>(AppError::FileMissing) && *final(self) == *old(self)
            } else {
                r is Ok && load_begun(*old(self), LoadKind::DrillHoles, name@, mapping, 0, *final(self))
            },
    {
        if legacy {
            return Err(AppError::UnsupportedFile);
        }
        if missing {
            return Err(AppError::FileMissing);
        }
        self.open_drill_hole_source(name, mapping);
        Ok(())
    }

    /// Lets what a file held join the project.
    pub fn add_loaded(&mut self, path: &str, loaded: Loaded)
        requires
            id_left(old(self).items, loaded, 1),
        ensures
            arrived(*old(self), path@, loaded, *final(self)),
    {
        let fit = !self.scene_has_renderables();
        self.frame.note_arrival(&loaded, fit);
        self.items.add_loaded(path, loaded);
        self.touch_active_project_content();
    }

    fn settle_load(&mut self, load: &PendingLoad, outcome: LoadOutcome)
        requires
            outcome matches LoadOutcome::Done(loaded) ==> id_left(old(self).items, loaded, 1),
        ensures
            load_settled(*old(self), *load, outcome, *final(self)),
    {
        match outcome {
            LoadOutcome::Running => {},
            LoadOutcome::Done(loaded) => {
                let topology = match &loaded {
                    Loaded::Raster(_) => false,
                    _ => true,
                };
                self.jobs.finish_background_task(load.ticket, topology);
                self.add_loaded(load.path.as_str(), loaded);
            },
            _ => {
                self.jobs.finish_background_task(load.ticket, false);
            },
        }
    }

    /// Asks the files of one kind what became of them.
    fn poll_loads(&mut self, kind: LoadKind, mut outcomes: Vec<LoadOutcome>)
        requires
            item_ids_left(old(self).items, outcomes@.len() as int),
        ensures
            loads_polled(*old(self), kind, outcomes@, *final(self)),
    {
        let ghost told = outcomes@;
        let ghost files = self.loads.of(kind)@;
        let mut running: Vec<PendingLoad> = Vec::new();
        let mut i: Ghost<int> = Ghost(0);
        let ghost mut mid: App = *self;
        proof {
            assert(files.take(0) =~= Seq::<PendingLoad>::empty());
            assert(told.skip(0) =~= told);
        }
        loop
            invariant_except_break
                0 <= i@ <= files.len(),
                self.loads.of(kind)@ == files.skip(i@),
            invariant
                files == old(self).loads.of(kind)@,
                0 <= i@ <= files.len(),
                *self == (App { loads: self.loads, ..mid }),
                mid.loads == old(self).loads,
                self.loads == old(self).loads.with(kind, self.loads.of(kind)),
                loads_settled(*old(self), files, told, i@, mid),
                running@ == still_reading(files.take(i@), told),
                outcomes@ == told.skip(if i@ < told.len() { i@ } else { told.len() as int }),
                item_ids_left(self.items, outcomes@.len() as int),
            ensures
                i@ == files.len(),
            decreases files.len() - i@,
        {
            let load = match self.loads.take(kind) {
                Some(load) => load,
                None => {
                    break ;
                },
            };
            let outcome = if outcomes.len() > 0 {
                outcomes.remove(0)
            } else {
                LoadOutcome::Running
            };
            let going = match &outcome {
                LoadOutcome::Running => true,
                _ => false,
            };
            let ghost held = self.loads;
            let ghost before = mid;
            self.settle_load(&load, outcome);
            proof {
                let n = i@ + 1;
                assert(load == files[i@]);
                assert(outcome == outcome_of(told, i@));
                assert(files.take(n).drop_last() =~= files.take(i@));
                assert(files.skip(n) =~= files.skip(i@).drop_first());
                mid = App { loads: before.loads, ..*self };
                assert(load_settled(before, files[n - 1], outcome_of(told, n - 1), mid));
                assert(loads_settled(*old(self), files, told, n, mid));
                assert(outcomes@ =~= told.skip(if n < told.len() { n } else { told.len() as int }));
                i@ = n;
            }
            if going {
                running.push(load);
            }
        }
        assert(files.take(files.len() as int) =~= files);
        self.loads.put(kind, running);
        assert(loads_settled(*old(self), files, told, files.len() as int, mid));
    }

    /// Asks the surfaces being read what became of them.
    pub fn poll_triangulation_loads(&mut self, outcomes: Vec<LoadOutcome>)
        requires
            item_ids_left(old(self).items, outcomes@.len() as int),
        ensures
            loads_polled(*old(self), LoadKind::Triangulation, outcomes@, *final(self)),
    {
        self.poll_loads(LoadKind::Triangulation, outcomes);
    }

    /// Asks the point clouds being read what became of them.
    pub fn poll_point_cloud_loads(&mut self, outcomes: Vec<LoadOutcome>)
        requires
            item_ids_left(old(self).items, outcomes@.len() as int),
        ensures
            loads_polled(*old(self), LoadKind::PointCloud, outcomes@, *final(self)),
    {
        self.poll_loads(LoadKind::PointCloud, outcomes);
    }

    /// Asks the rasters being read what became of them.
    pub fn poll_raster_loads(&mut self, outcomes: Vec<LoadOutcome>)
        requires
            item_ids_left(old(self).items, outcomes@.len() as int),
        ensures
            loads_polled(*old(self), LoadKind::Raster, outcomes@, *final(self)),
    {
        self.poll_loads(LoadKind::Raster, outcomes);
    }

    /// Asks the block models being read what became of them.
    pub fn poll_block_model_loads(&mut self, outcomes: Vec<LoadOutcome>)
        requires
            item_ids_left(old(self).items, outcomes@.len() as int),
        ensures
            loads_polled(*old(self), LoadKind::BlockModel, outcomes@, *final(self)),
    {
        self.poll_loads(LoadKind::BlockModel, outcomes);
    }

    /// Asks the drillholes being read what became of them.
    pub fn poll_drill_hole_loads(&mut self, outcomes: Vec<LoadOutcome>)
        requires
            item_ids_left(old(self).items, outcomes@.len() as int),
        ensures
            loads_polled(*old(self), LoadKind::DrillHoles, outcomes@, *final(self)),
    {
        self.poll_loads(LoadKind::DrillHoles, outcomes);
    }
}

/// How the columns of a table of blocks are known.
#[derive(Clone, Copy, PartialEq, Eq, Structural, Debug)]
pub enum BlockColumns {
    /// They were given.
    Given(u64),
    /// They are told from the table itself.
    FromTable,
}

/// The extension is that of a table, in either case.
pub open spec fn names_table(extension: Option<Seq<char>>) -> bool {
    match extension {
        Some(e) => e.len() == 3 && (e[0] == 'c' || e[0] == 'C') && (e[1] == 's' || e[1] == 'S') && (e[2] == 'v' || e[2] == 'V'),
        None => false,
    }
}

/// How a file of blocks is read: with the columns that were given, or else as
/// the table that its extension says it is. No other file is read.
pub fn block_columns(columns: Option<u64>, extension: &Option<String>) -> (r: Result<BlockColumns, AppError>)
    ensures
        r == (match columns {
            Some(c) => Ok::<BlockColumns, AppError>(BlockColumns::Given(c)),
            None => if names_table(text_of(*extension)) {
                Ok(BlockColumns::FromTable)
            } else {
                Err(AppError::UnsupportedFile)
            },
        }),
{
    match columns {
        Some(c) => Ok(BlockColumns::Given(c)),
        None => match extension {
            Some(e) => {
                let s = e.as_str();
                if s.unicode_len() == 3 && (s.get_char(0) == 'c' || s.get_char(0) == 'C') && (s.get_char(1) == 's' || s.get_char(1) == 'S') && (s.get_char(
                    2,
                ) == 'v' || s.get_char(2) == 'V') {
                    Ok(BlockColumns::FromTable)
                } else {
                    Err(AppError::UnsupportedFile)
                }
            },
            None => Err(AppError::UnsupportedFile),
        },
    }
}

/// How the file of blocks at a path is read.
pub fn block_columns_for(columns: Option<u64>, path: &str) -> (r: Result<BlockColumns, AppError>)
    ensures
        columns matches Some(c) ==> r == Ok::<BlockColumns, AppError>(BlockColumns::Given(c)),
        columns is None && known_path(path@) ==> r == (if names_table(extension_of(file_part(path@))) {
            Ok::<BlockColumns, AppError>(BlockColumns::FromTable)
        } else {
            Err(AppError::UnsupportedFile)
        }),
{
    let extension = extension(path);
    block_columns(columns, &extension)
}

} // verus!
