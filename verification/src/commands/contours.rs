//! Contour lines of a surface, on a layer of the active project.

use crate::document::{object_models, Document, FillStyle, Layer, LayerModel, Object, ObjectModel, PolyVertex, Rgba};
use crate::drawing::move_tool::active_runtime;
use crate::edit::{Edit, Step};
use crate::error::AppError;
use crate::ids::{LayerId, ObjectId, TriangulationId};
use crate::ieee::{f64_finite, f64_less, f64_nan, finite64, less64, magnitude64, Point3, F64_INFINITY};
use crate::items::triangulation_index;
use crate::jobs::{job_spawned, JobKey, Work};
use crate::state::{App, Canvas};
use crate::text::{trim, trimmed};
use crate::workspace::{index_of_runtime, OpenProject, Workspace};
use vstd::prelude::*;
use vstd::string::*;

verus! {

/// The bits of 0.000001, the least interval between contours.
pub const LEAST_INTERVAL: u64 = 0x3eb0_c6f7_a0b5_ed8d;

/// The bits of 1.0 as `f32`.
pub const ONE: u32 = 0x3f80_0000;

/// The layer that contours go to.
pub enum ContourOutput {
    New(String),
    Existing(LayerId),
}

/// Heights between which contours are wanted: the bits of two `f64`.
#[derive(Clone, Copy, PartialEq, Eq, Structural, Debug)]
pub struct ZRange {
    pub lo: u64,
    pub hi: u64,
}

/// Contours to be computed: of which surface, between which heights, at which
/// intervals, in which colours, and where they go.
pub struct ContourRequest {
    pub surface: TriangulationId,
    pub range: ZRange,
    pub major_interval: u64,
    pub minor_interval: u64,
    pub major_color: Rgba,
    pub minor_color: Rgba,
    pub output: ContourOutput,
    pub project_runtime_id: u32,
}

/// A contour line.
pub struct ContourLine {
    pub points: Vec<Point3>,
    pub color: Rgba,
}

/// The value is a positive finite number.
pub open spec fn positive(bits: u64) -> bool {
    f64_finite(bits) && f64_less(0, bits)
}

/// The greater of two values, the first of which may not be a number.
pub open spec fn greater(a: u64, b: u64) -> u64 {
    if f64_nan(a) || f64_less(a, b) {
        b
    } else {
        a
    }
}

/// The lesser of two values, the first of which may not be a number.
pub open spec fn lesser(a: u64, b: u64) -> u64 {
    if f64_nan(a) || f64_less(b, a) {
        b
    } else {
        a
    }
}

/// Whether the intervals can be used.
pub open spec fn intervals_error(major: u64, minor: u64) -> Option<AppError> {
    if !positive(minor) || !positive(major) {
        Some(AppError::IntervalsNotPositive)
    } else if f64_less(minor, LEAST_INTERVAL) {
        Some(AppError::IntervalTooSmall)
    } else if f64_less(major, minor) {
        Some(AppError::MajorBelowMinor)
    } else {
        None
    }
}

/// The heights that are contoured: those of the surface, within the range asked for.
pub open spec fn contour_span(app: App, id: TriangulationId, range: Option<ZRange>) -> Result<ZRange, AppError> {
    let s = app.items.triangulations@;
    let i = triangulation_index(s, id);
    if i >= s.len() {
        Err(AppError::SurfaceNotFound)
    } else {
        let lo = s[i].bounds.min.z;
        let hi = s[i].bounds.max.z;
        match range {
            None => Ok(ZRange { lo, hi }),
            Some(r) => if !f64_finite(r.lo) || !f64_finite(r.hi) || !f64_less(r.lo, r.hi) {
                Err(AppError::ZRangeInvalid)
            } else {
                let lo2 = greater(lo, r.lo);
                let hi2 = lesser(hi, r.hi);
                if f64_less(lo2, hi2) {
                    Ok(ZRange { lo: lo2, hi: hi2 })
                } else {
                    Err(AppError::ZRangeOutside)
                }
            },
        }
    }
}

/// Whether the contours have a layer to go to in the project.
pub open spec fn output_error(project: OpenProject, output: ContourOutput) -> Option<AppError> {
    match output {
        ContourOutput::New(name) => if trimmed(name@).len() == 0 {
            Some(AppError::LayerNameBlank)
        } else if project.document.has_layer_named(name@) {
            Some(AppError::LayerNameTaken)
        } else {
            None
        },
        ContourOutput::Existing(id) => if project.document.layer_model(id) is None {
            Some(AppError::OutputLayerGone)
        } else {
            None
        },
    }
}

/// Why contours are refused, in the order in which it is asked. `flat` tells
/// that the heights have no extent, `too_many` that there would be too many levels.
pub open spec fn contours_error(
    app: App,
    id: TriangulationId,
    major: u64,
    minor: u64,
    range: Option<ZRange>,
    output: ContourOutput,
    flat: bool,
    too_many: bool,
) -> Option<AppError> {
    match intervals_error(major, minor) {
        Some(e) => Some(e),
        None => match contour_span(app, id, range) {
            Err(e) => Some(e),
            Ok(_) => if flat {
                Some(AppError::NoZExtent)
            } else if too_many {
                Some(AppError::TooManyLevels)
            } else {
                match app.workspace.active() {
                    None => Some(AppError::NoActiveProject),
                    Some(p) => output_error(p, output),
                }
            },
        },
    }
}

fn is_positive(bits: u64) -> (r: bool)
    ensures
        r == positive(bits),
{
    finite64(bits) && less64(0, bits)
}

/// Whether the intervals can be used.
fn check_intervals(major: u64, minor: u64) -> (r: Option<AppError>)
    ensures
        r == intervals_error(major, minor),
{
    if !is_positive(minor) || !is_positive(major) {
        Some(AppError::IntervalsNotPositive)
    } else if less64(minor, LEAST_INTERVAL) {
        Some(AppError::IntervalTooSmall)
    } else if less64(major, minor) {
        Some(AppError::MajorBelowMinor)
    } else {
        None
    }
}

impl App {
    /// The heights that are contoured.
    pub fn contour_range(&self, id: TriangulationId, range: Option<ZRange>) -> (r: Result<ZRange, AppError>)
        ensures
            r == contour_span(*self, id, range),
    {
        let i: usize = match self.items.find_triangulation(id) {
            Some(i) => i,
            None => {
                return Err(AppError::SurfaceNotFound);
            },
        };
        let lo: u64 = self.items.triangulations[i].bounds.min.z;
        let hi: u64 = self.items.triangulations[i].bounds.max.z;
        match range {
            None => Ok(ZRange { lo, hi }),
            Some(asked) => {
                if !finite64(asked.lo) || !finite64(asked.hi) || !less64(asked.lo, asked.hi) {
                    return Err(AppError::ZRangeInvalid);
                }
                let lo2: u64 = if magnitude64(lo) > F64_INFINITY || less64(lo, asked.lo) {
                    asked.lo
                } else {
                    lo
                };
                let hi2: u64 = if magnitude64(hi) > F64_INFINITY || less64(asked.hi, hi) {
                    asked.hi
                } else {
                    hi
                };
                if less64(lo2, hi2) {
                    Ok(ZRange { lo: lo2, hi: hi2 })
                } else {
                    Err(AppError::ZRangeOutside)
                }
            },
        }
    }

    /// Asks for the contours of a surface. `flat` and `too_many` tell of the
    /// heights and intervals what takes arithmetic to know.
    pub fn generate_contour_triangulation(
        &mut self,
        id: TriangulationId,
        major_interval: u64,
        minor_interval: u64,
        major_color: Rgba,
        minor_color: Rgba,
        range: Option<ZRange>,
        output: ContourOutput,
        flat: bool,
        too_many: bool,
    ) -> (r: Result<u64, AppError>)
        requires
            old(self).jobs.next_ticket < u64::MAX,
        ensures
            match contours_error(*old(self), id, major_interval, minor_interval, range, output, flat, too_many) {
                Some(e) => r == Err::<u64, AppError>(e) && *final(self) == *old(self),
                None => {
                    &&& r is Ok
                    &&& *final(self) == (App { jobs: final(self).jobs, ..*old(self) })
                    &&& job_spawned(
                        old(self).jobs,
                        "Generating contours…"@,
                        seq![JobKey::Triangulation(id)],
                        Work::Contours(
                            ContourRequest {
                                surface: id,
                                range: contour_span(*old(self), id, range)->Ok_0,
                                major_interval,
                                minor_interval,
                                major_color,
                                minor_color,
                                output,
                                project_runtime_id: old(self).workspace.active()->0.runtime_id,
                            },
                        ),
                        r->Ok_0,
                        final(self).jobs,
                    )
                },
            },
    {
        match check_intervals(major_interval, minor_interval) {
            Some(e) => {
                return Err(e);
            },
            None => {},
        }
        let span = match self.contour_range(id, range) {
            Ok(span) => span,
            Err(e) => {
                return Err(e);
            },
        };
        if flat {
            return Err(AppError::NoZExtent);
        }
        if too_many {
            return Err(AppError::TooManyLevels);
        }
        let project_runtime_id: u32 = match self.workspace.active_project() {
            Some(project) => {
                match check_output(project, &output) {
                    Some(e) => {
                        return Err(e);
                    },
                    None => {},
                }
                project.runtime_id
            },
            None => {
                return Err(AppError::NoActiveProject);
            },
        };
        let mut keys: Vec<JobKey> = Vec::new();
        keys.push(JobKey::Triangulation(id));
        assert(keys@ =~= seq![JobKey::Triangulation(id)]);
        let request = ContourRequest {
            surface: id,
            range: span,
            major_interval,
            minor_interval,
            major_color,
            minor_color,
            output,
            project_runtime_id,
        };
        let ticket: u64 = self.spawn_job("Generating contours…".to_owned(), keys, Work::Contours(request));
        Ok(ticket)
    }
}

/// Whether the contours have a layer to go to in the project.
fn check_output(project: &OpenProject, output: &ContourOutput) -> (r: Option<AppError>)
    ensures
        r == output_error(*project, *output),
{
    match output {
        ContourOutput::New(name) => {
            if trim(name.as_str()).as_str().unicode_len() == 0 {
                Some(AppError::LayerNameBlank)
            } else if project.document.layer_id_by_name(name.as_str()).is_some() {
                Some(AppError::LayerNameTaken)
            } else {
                None
            }
        },
        ContourOutput::Existing(id) => {
            if project.document.layer(*id).is_none() {
                Some(AppError::OutputLayerGone)
            } else {
                None
            }
        },
    }
}

/// The polyline of a contour line.
pub open spec fn contour_object(line: ContourLine, layer: LayerId, id: int) -> ObjectModel {
    ObjectModel::Polyline {
        id: ObjectId(id as u64),
        layer,
        verts: line.points@.map_values(|p: Point3| PolyVertex { pos: p, bulge: 0 }),
        closed: false,
        color: line.color,
        fill: FillStyle::Clear,
        line_weight: ONE,
    }
}

/// The polylines of contour lines, with ids from `next` on.
pub open spec fn contour_objects(lines: Seq<ContourLine>, layer: LayerId, next: int) -> Seq<ObjectModel> {
    lines.map(|k: int, l: ContourLine| contour_object(l, layer, next + k))
}

/// A new layer for contours.
pub open spec fn contour_layer(id: LayerId, name: Seq<char>) -> LayerModel {
    LayerModel {
        id,
        name,
        color_index: None,
        color: Rgba { r: ONE, g: ONE, b: ONE, a: ONE },
        visible: true,
        loaded: true,
        elevation: 0,
    }
}

/// The layer that finished contours go to, if it can be had: a new one while
/// its name is still free, an existing one while it is still there.
pub open spec fn contour_home(document: Document, output: ContourOutput) -> Option<LayerId> {
    match output {
        ContourOutput::New(name) => if document.has_layer_named(name@) {
            None
        } else {
            Some(LayerId(document.next_layer_id))
        },
        ContourOutput::Existing(id) => if document.layer_model(id) is Some {
            Some(id)
        } else {
            None
        },
    }
}

/// The step adds the contours to their layer.
pub open spec fn adds_contours(step: Step, runtime_id: u32, document: Document, output: ContourOutput, lines: Seq<ContourLine>) -> bool {
    let home = contour_home(document, output)->0;
    let objects = contour_objects(lines, home, document.next_object_id as int);
    &&& !step.applied
    &&& step.project == Some(runtime_id)
    &&& match output {
        ContourOutput::New(name) => !step.batch && step.edits@.len() == 1 && step.edits@[0].adds_layer(contour_layer(home, name@), objects),
        ContourOutput::Existing(_) => {
            &&& step.batch
            &&& step.edits@.len() == objects.len()
            &&& forall|k: int| 0 <= k < objects.len() ==> (#[trigger] step.edits@[k]).adds(objects[k])
        },
    }
}

/// The document once the ids of the contours were taken.
pub open spec fn ids_taken(document: Document, output: ContourOutput, lines: int) -> Document {
    Document {
        next_layer_id: if output is New {
            (document.next_layer_id + 1) as u64
        } else {
            document.next_layer_id
        },
        next_object_id: (document.next_object_id + lines) as u64,
        ..document
    }
}

/// A project before and after a layer of it was loaded, and perhaps ids taken.
pub open spec fn project_with(a: OpenProject, document: Document, load: Option<LayerId>, b: OpenProject) -> bool {
    &&& b == (OpenProject { document, loaded_layers: b.loaded_layers, ..a })
    &&& match load {
        Some(layer) => b.loaded_layers@ == a.loaded_layers@.insert(layer),
        None => b.loaded_layers == a.loaded_layers,
    }
}

/// The projects before and after the contours went to the one at `i`.
pub open spec fn projects_with_contours(pre: Workspace, i: int, output: ContourOutput, lines: int, home: LayerId, post: Workspace) -> bool {
    &&& post == (Workspace { projects: post.projects, ..pre })
    &&& post.projects@.len() == pre.projects@.len()
    &&& forall|j: int|
        0 <= j < pre.projects@.len() ==> project_with(
            pre.projects@[j],
            if j == i {
                ids_taken(pre.projects@[j].document, output, lines)
            } else {
                pre.projects@[j].document
            },
            if pre.active_index matches Some(a) && a == j {
                Some(home)
            } else {
                None
            },
            #[trigger] post.projects@[j],
        )
}

/// What finished contours do: where their project or layer is gone they are
/// dropped, else they are added, and their layer becomes the active one if
/// their project still is.
pub open spec fn contours_applied(pre: App, request: ContourRequest, lines: Seq<ContourLine>, post: App) -> bool {
    let projects = pre.workspace.projects@;
    let i = index_of_runtime(projects, request.project_runtime_id);
    if i >= projects.len() || contour_home(projects[i].document, request.output) is None {
        post == pre
    } else {
        let home = contour_home(projects[i].document, request.output)->0;
        &&& post == (App {
            workspace: post.workspace,
            canvas: if active_runtime(pre.workspace) == Some(request.project_runtime_id) {
                Canvas { active_layer: Some(home), ..pre.canvas }
            } else {
                pre.canvas
            },
            frame: pre.frame.geometry(),
            steps: post.steps,
            ..pre
        })
        &&& projects_with_contours(pre.workspace, i, request.output, lines.len() as int, home, post.workspace)
        &&& post.steps@.len() == pre.steps@.len() + 1
        &&& post.steps@.drop_last() == pre.steps@
        &&& adds_contours(post.steps@.last(), request.project_runtime_id, projects[i].document, request.output, lines)
    }
}

/// The document has ids left for so many objects, and for a new layer.
pub open spec fn ids_left_in(document: Document, output: ContourOutput, n: int) -> bool {
    &&& document.next_object_id + n <= u64::MAX
    &&& output is New ==> document.next_layer_id < u64::MAX
}

/// The project that contours are meant for has ids left for them.
pub open spec fn contour_ids_left(w: Workspace, request: ContourRequest, n: int) -> bool {
    forall|j: int|
        0 <= j < w.projects@.len() && (#[trigger] w.projects@[j]).runtime_id == request.project_runtime_id ==> ids_left_in(
            w.projects@[j].document,
            request.output,
            n,
        )
}

/// The vertices of a contour line.
fn straight_verts(points: &Vec<Point3>) -> (r: Vec<PolyVertex>)
    ensures
        r@ == points@.map_values(|p: Point3| PolyVertex { pos: p, bulge: 0 }),
{
    let mut r: Vec<PolyVertex> = Vec::new();
    let mut i: usize = 0;
    while i < points.len()
        invariant
            i <= points.len(),
            r@.len() == i,
            forall|k: int| 0 <= k < i ==> #[trigger] r@[k] == (PolyVertex { pos: points@[k], bulge: 0 }),
        decreases points.len() - i,
    {
        r.push(PolyVertex { pos: points[i], bulge: 0 });
        i += 1;
    }
    assert(r@ =~= points@.map_values(|p: Point3| PolyVertex { pos: p, bulge: 0 }));
    r
}

/// The polylines of contour lines, with ids from `next` on.
fn build_objects(lines: &Vec<ContourLine>, layer: LayerId, next: u64) -> (r: Vec<Object>)
    requires
        next + lines@.len() <= u64::MAX,
    ensures
        object_models(r@) == contour_objects(lines@, layer, next as int),
{
    let mut r: Vec<Object> = Vec::new();
    let mut i: usize = 0;
    while i < lines.len()
        invariant
            i <= lines.len(),
            next + lines@.len() <= u64::MAX,
            r@.len() == i,
            forall|k: int| 0 <= k < i ==> (#[trigger] r@[k])@ == contour_object(lines@[k], layer, next + k),
        decreases lines.len() - i,
    {
        r.push(
            Object::Polyline {
                id: ObjectId(next + i as u64),
                layer,
                verts: straight_verts(&lines[i].points),
                closed: false,
                color: lines[i].color,
                fill: FillStyle::Clear,
                line_weight: ONE,
            },
        );
        i += 1;
    }
    assert(object_models(r@) =~= contour_objects(lines@, layer, next as int));
    r
}

/// An edit for each object that adds it.
fn add_each(objects: Vec<Object>) -> (r: Vec<Edit>)
    ensures
        r@.len() == objects@.len(),
        forall|k: int| 0 <= k < objects@.len() ==> (#[trigger] r@[k]).adds(objects@[k]@),
{
    let ghost all = objects@;
    let mut rest = objects;
    let mut r: Vec<Edit> = Vec::new();
    assert(all.skip(0) =~= all);
    while rest.len() > 0
        invariant
            r@.len() <= all.len(),
            rest@ == all.skip(r@.len() as int),
            forall|k: int| 0 <= k < r@.len() ==> (#[trigger] r@[k]).adds(all[k]@),
        decreases rest.len(),
    {
        let ghost n = r@.len() as int;
        let object = rest.remove(0);
        assert(rest@ =~= all.skip(n + 1));
        assert(object == all[n]);
        r.push(Edit::AddObject(object));
    }
    r
}

impl App {
    /// Puts finished contours on their layer.
    pub fn apply_contours(&mut self, request: &ContourRequest, lines: &Vec<ContourLine>)
        requires
            contour_ids_left(old(self).workspace, *request, lines@.len() as int),
        ensures
            contours_applied(*old(self), *request, lines@, *final(self)),
    {
        let runtime_id: u32 = request.project_runtime_id;
        let project_is_active = match self.active_runtime_id() {
            Some(id) => id == runtime_id,
            None => false,
        };
        let i: usize = match self.workspace.project_index_for_runtime_id(runtime_id) {
            Some(i) => i,
            None => {
                return ;
            },
        };
        let home = match find_home(&self.workspace.projects[i].document, &request.output) {
            Some(home) => home,
            None => {
                return ;
            },
        };
        let next: u64 = self.workspace.projects[i].document.next_object_id;
        let objects = build_objects(lines, home, next);
        let (edits, batch): (Vec<Edit>, bool) = match &request.output {
            ContourOutput::New(name) => {
                let layer = Layer {
                    id: home,
                    name: name.clone(),
                    color_index: None,
                    color: Rgba { r: ONE, g: ONE, b: ONE, a: ONE },
                    visible: true,
                    loaded: true,
                    elevation: 0,
                };
                let mut edits: Vec<Edit> = Vec::new();
                edits.push(Edit::AddLayer { layer, objects });
                (edits, false)
            },
            ContourOutput::Existing(_) => (add_each(objects), true),
        };
        self.workspace.take_contour_ids(i, &request.output, lines.len(), home);
        self.execute_edit_for(runtime_id, edits, batch);
        if project_is_active {
            self.canvas.active_layer = Some(home);
        }
        self.invalidate_geometry();
    }
}

/// The layer that finished contours go to, if it can be had.
fn find_home(document: &Document, output: &ContourOutput) -> (r: Option<LayerId>)
    ensures
        r == contour_home(*document, *output),
{
    match output {
        ContourOutput::New(name) => {
            if document.layer_id_by_name(name.as_str()).is_some() {
                None
            } else {
                Some(LayerId(document.next_layer_id))
            }
        },
        ContourOutput::Existing(id) => {
            if document.layer(*id).is_some() {
                Some(*id)
            } else {
                None
            }
        },
    }
}

impl Workspace {
    /// Takes the ids of contours in the project at `i`, and loads their layer
    /// in the active project.
    fn take_contour_ids(&mut self, i: usize, output: &ContourOutput, lines: usize, home: LayerId)
        requires
            i < old(self).projects@.len(),
            ids_left_in(old(self).projects@[i as int].document, *output, lines as int),
        ensures
            projects_with_contours(*old(self), i as int, *output, lines as int, home, *final(self)),
    {
        match output {
            ContourOutput::New(_) => {
                self.projects[i].document.next_layer_id += 1;
            },
            ContourOutput::Existing(_) => {},
        }
        self.projects[i].document.next_object_id += lines as u64;
        match self.active_index {
            Some(a) => {
                if self.projects.len() > a {
                    self.projects[a].loaded_layers.insert(home);
                }
            },
            None => {},
        }
    }
}

} // verus!
