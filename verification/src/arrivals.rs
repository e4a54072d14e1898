//! Items that join a project: their ids, their names and how they look at
//! first.

use crate::document::Rgba;
use crate::ids::{BlockModelId, DrillHoleId, PointCloudId, RasterTextureId, TriangulationId};
use crate::items::{
    Bounds, DrillColorPreset, DrillColorState, DrillField, DrillHole, Initiation, ItemState, Items, OpenBlockModel, OpenDrillHoleDataset,
    OpenPointCloud, OpenRasterTexture, OpenTriangulation, TieIn,
};
use crate::names::{make_unique, texts, unique_name};
use crate::state::App;
use crate::workspace::{OpenProject, Workspace};
use vstd::prelude::*;

verus! {

/// A surface as its file gave it.
pub struct LoadedTriangulation {
    pub name: String,
    pub mesh: u64,
    pub bounds: Bounds,
}

/// A point cloud as its file gave it.
pub struct LoadedPointCloud {
    pub name: String,
    pub points: u64,
}

/// A raster as its file gave it.
pub struct LoadedRaster {
    pub name: String,
    pub pixels: u64,
    pub world_to_uv: [u64; 6],
    pub projection: String,
}

/// A block model as its file gave it: the variable it is coloured by at first,
/// if any, and the ramp that suits the values of that variable.
pub struct LoadedBlockModel {
    pub name: String,
    pub blocks: u64,
    pub local_bounds: Bounds,
    pub active_color_variable: Option<String>,
    pub ramp: Option<u64>,
}

/// A drillhole dataset as its files gave it.
pub struct LoadedDrillHoles {
    pub name: String,
    pub holes: Vec<DrillHole>,
    pub fields: Vec<DrillField>,
    pub bounds: Option<Bounds>,
    pub tie_ins: Vec<TieIn>,
    pub initiations: Vec<Initiation>,
}

/// The state of an item that is new to the project.
pub open spec fn fresh_state(source: Option<String>, format: Option<String>, loaded: bool, deferred: bool) -> ItemState {
    ItemState { loaded, epoch: 0, saved_epoch: None, source, format, deferred }
}

pub fn new_state(source: Option<String>, format: Option<String>, loaded: bool, deferred: bool) -> (r: ItemState)
    ensures
        r == fresh_state(source, format, loaded, deferred),
{
    ItemState { loaded, epoch: 0, saved_epoch: None, source, format, deferred }
}

/// The grey of a surface.
pub open spec fn surface_color() -> Rgba {
    Rgba { r: 0x3f1a_92a3, g: 0x3f1a_92a3, b: 0x3f1a_92a3, a: 0x3f80_0000 }
}

/// The colour of a surface's edges.
pub open spec fn edge_color() -> Rgba {
    Rgba { r: 0x3d4c_cccd, g: 0x3da3_d70a, b: 0x3dcc_cccd, a: 0x3f80_0000 }
}

/// The colour of a block model without values.
pub open spec fn block_color() -> Rgba {
    Rgba { r: 0x3e4c_cccd, g: 0x3f26_6666, b: 0x3f73_3333, a: 0x3f80_0000 }
}

/// The colour of points that bring none.
pub open spec fn cloud_color() -> Rgba {
    Rgba { r: 0x3f59_999a, g: 0x3f5e_b852, b: 0x3f66_6666, a: 0x3f80_0000 }
}

/// One, and a tenth, as bits.
pub const ONE: u32 = 0x3f80_0000;

pub const TENTH: u32 = 0x3dcc_cccd;

pub fn default_surface_color() -> (r: Rgba)
    ensures
        r == surface_color(),
{
    Rgba { r: 0x3f1a_92a3, g: 0x3f1a_92a3, b: 0x3f1a_92a3, a: 0x3f80_0000 }
}

pub fn default_edge_color() -> (r: Rgba)
    ensures
        r == edge_color(),
{
    Rgba { r: 0x3d4c_cccd, g: 0x3da3_d70a, b: 0x3dcc_cccd, a: 0x3f80_0000 }
}

pub fn default_block_color() -> (r: Rgba)
    ensures
        r == block_color(),
{
    Rgba { r: 0x3e4c_cccd, g: 0x3f26_6666, b: 0x3f73_3333, a: 0x3f80_0000 }
}

pub fn default_cloud_color() -> (r: Rgba)
    ensures
        r == cloud_color(),
{
    Rgba { r: 0x3f59_999a, g: 0x3f5e_b852, b: 0x3f66_6666, a: 0x3f80_0000 }
}

/// The names of the surfaces.
pub open spec fn triangulation_names(s: Seq<OpenTriangulation>) -> Seq<Seq<char>> {
    s.map_values(|t: OpenTriangulation| t.name@)
}

/// The names of the block models.
pub open spec fn block_model_names(s: Seq<OpenBlockModel>) -> Seq<Seq<char>> {
    s.map_values(|t: OpenBlockModel| t.name@)
}

/// The names of the datasets.
pub open spec fn dataset_names(s: Seq<OpenDrillHoleDataset>) -> Seq<Seq<char>> {
    s.map_values(|t: OpenDrillHoleDataset| t.name@)
}

/// The names of the point clouds.
pub open spec fn point_cloud_names(s: Seq<OpenPointCloud>) -> Seq<Seq<char>> {
    s.map_values(|t: OpenPointCloud| t.name@)
}

/// The names of the rasters.
pub open spec fn raster_names(s: Seq<OpenRasterTexture>) -> Seq<Seq<char>> {
    s.map_values(|t: OpenRasterTexture| t.name@)
}

/// Something was added behind a list.
pub open spec fn grown<T>(pre: Seq<T>, post: Seq<T>) -> bool {
    post.len() == pre.len() + 1 && post.drop_last() == pre
}

/// A colour scheme that colours by nothing.
pub open spec fn plain_drill_color(c: DrillColorState) -> bool {
    &&& c.active_field is None
    &&& c.preset == DrillColorPreset::Rainbow
    &&& c.smooth
    &&& c.stops@.len() == 0
    &&& c.categories@.len() == 0
}

pub fn new_drill_color() -> (r: DrillColorState)
    ensures
        plain_drill_color(r),
{
    DrillColorState { active_field: None, preset: DrillColorPreset::Rainbow, smooth: true, stops: Vec::new(), categories: Vec::new() }
}

/// What adding a surface does: it has the id and a name that is free.
pub open spec fn triangulation_added(pre: Items, loaded: LoadedTriangulation, state: ItemState, id: u64, post: Items) -> bool {
    let t = post.triangulations@.last();
    &&& post == (Items { triangulations: post.triangulations, next_triangulation_id: post.next_triangulation_id, ..pre })
    &&& grown(pre.triangulations@, post.triangulations@)
    &&& t == (OpenTriangulation {
        id: TriangulationId(id),
        state,
        name: t.name,
        mesh: loaded.mesh,
        visible: true,
        color: surface_color(),
        line_color: edge_color(),
        line_weight: Some(ONE),
        bounds: loaded.bounds,
        raster_texture: None,
        raster_opacity: ONE,
    })
    &&& t.name@ == unique_name(triangulation_names(pre.triangulations@), loaded.name@)
}

/// What adding a raster does.
pub open spec fn raster_added(pre: Items, loaded: LoadedRaster, state: ItemState, id: u64, post: Items) -> bool {
    let t = post.raster_textures@.last();
    &&& post == (Items { raster_textures: post.raster_textures, next_raster_texture_id: post.next_raster_texture_id, ..pre })
    &&& grown(pre.raster_textures@, post.raster_textures@)
    &&& t == (OpenRasterTexture {
        id: RasterTextureId(id),
        state,
        name: t.name,
        pixels: loaded.pixels,
        world_to_uv: loaded.world_to_uv,
        projection: loaded.projection,
    })
    &&& t.name@ == unique_name(raster_names(pre.raster_textures@), loaded.name@)
}

/// What adding a point cloud does.
pub open spec fn point_cloud_added(pre: Items, loaded: LoadedPointCloud, state: ItemState, color: Rgba, point_size: u32, id: u64, post: Items) -> bool {
    let t = post.point_clouds@.last();
    &&& post == (Items { point_clouds: post.point_clouds, next_point_cloud_id: post.next_point_cloud_id, ..pre })
    &&& grown(pre.point_clouds@, post.point_clouds@)
    &&& t == (OpenPointCloud { id: PointCloudId(id), state, name: t.name, points: loaded.points, color, point_size })
    &&& t.name@ == unique_name(point_cloud_names(pre.point_clouds@), loaded.name@)
}

/// The ramps of a block model that has just been read: one for the variable
/// that it is coloured by, if that variable has a ramp.
pub open spec fn first_transfers(loaded: LoadedBlockModel, transfers: Seq<crate::items::ColorTransfer>) -> bool {
    match (loaded.active_color_variable, loaded.ramp) {
        (Some(v), Some(ramp)) => transfers.len() == 1 && transfers[0].variable@ == v@ && transfers[0].ramp == ramp,
        _ => transfers.len() == 0,
    }
}

/// What adding a block model does.
pub open spec fn block_model_added(pre: Items, loaded: LoadedBlockModel, state: ItemState, id: u64, post: Items) -> bool {
    let t = post.block_models@.last();
    &&& post == (Items { block_models: post.block_models, next_block_model_id: post.next_block_model_id, ..pre })
    &&& grown(pre.block_models@, post.block_models@)
    &&& t == (OpenBlockModel {
        id: BlockModelId(id),
        state,
        name: t.name,
        blocks: loaded.blocks,
        visible: true,
        color: block_color(),
        slice: None,
        local_bounds: loaded.local_bounds,
        active_color_variable: loaded.active_color_variable,
        color_transfers: t.color_transfers,
        hide_empty_color_values: true,
        decoded: t.decoded,
    })
    &&& crate::text::text_of(t.decoded) == crate::text::text_of(loaded.active_color_variable)
    &&& first_transfers(loaded, t.color_transfers@)
    &&& t.name@ == unique_name(block_model_names(pre.block_models@), loaded.name@)
}

/// What adding a drillhole dataset does.
pub open spec fn drill_holes_added(pre: Items, loaded: LoadedDrillHoles, state: ItemState, id: u64, post: Items) -> bool {
    let t = post.drill_holes@.last();
    &&& post == (Items { drill_holes: post.drill_holes, next_drill_hole_id: post.next_drill_hole_id, ..pre })
    &&& grown(pre.drill_holes@, post.drill_holes@)
    &&& t == (OpenDrillHoleDataset {
        id: DrillHoleId(id),
        state,
        name: t.name,
        visible: true,
        holes: loaded.holes,
        fields: loaded.fields,
        bounds: loaded.bounds,
        color: t.color,
        tie_ins: loaded.tie_ins,
        initiations: loaded.initiations,
    })
    &&& plain_drill_color(t.color)
    &&& t.name@ == unique_name(dataset_names(pre.drill_holes@), loaded.name@)
}

/// A copy of an optional text.
pub fn copy_text(t: &Option<String>) -> (r: Option<String>)
    ensures
        crate::text::text_of(r) == crate::text::text_of(*t),
{
    match t {
        Some(s) => Some(s.clone()),
        None => None,
    }
}

impl Items {
    fn free_triangulation_name(&self, name: &str) -> (r: String)
        ensures
            r@ == unique_name(triangulation_names(self.triangulations@), name@),
    {
        let mut taken: Vec<String> = Vec::new();
        let mut i: usize = 0;
        while i < self.triangulations.len()
            invariant
                i <= self.triangulations@.len(),
                taken@.len() == i,
                forall|j: int| 0 <= j < i ==> (#[trigger] taken@[j])@ == self.triangulations@[j].name@,
            decreases self.triangulations.len() - i,
        {
            taken.push(self.triangulations[i].name.clone());
            i += 1;
        }
        assert(texts(taken@) =~= triangulation_names(self.triangulations@));
        make_unique(&taken, name)
    }

    fn free_raster_name(&self, name: &str) -> (r: String)
        ensures
            r@ == unique_name(raster_names(self.raster_textures@), name@),
    {
        let mut taken: Vec<String> = Vec::new();
        let mut i: usize = 0;
        while i < self.raster_textures.len()
            invariant
                i <= self.raster_textures@.len(),
                taken@.len() == i,
                forall|j: int| 0 <= j < i ==> (#[trigger] taken@[j])@ == self.raster_textures@[j].name@,
            decreases self.raster_textures.len() - i,
        {
            taken.push(self.raster_textures[i].name.clone());
            i += 1;
        }
        assert(texts(taken@) =~= raster_names(self.raster_textures@));
        make_unique(&taken, name)
    }

    fn free_point_cloud_name(&self, name: &str) -> (r: String)
        ensures
            r@ == unique_name(point_cloud_names(self.point_clouds@), name@),
    {
        let mut taken: Vec<String> = Vec::new();
        let mut i: usize = 0;
        while i < self.point_clouds.len()
            invariant
                i <= self.point_clouds@.len(),
                taken@.len() == i,
                forall|j: int| 0 <= j < i ==> (#[trigger] taken@[j])@ == self.point_clouds@[j].name@,
            decreases self.point_clouds.len() - i,
        {
            taken.push(self.point_clouds[i].name.clone());
            i += 1;
        }
        assert(texts(taken@) =~= point_cloud_names(self.point_clouds@));
        make_unique(&taken, name)
    }

    fn free_block_model_name(&self, name: &str) -> (r: String)
        ensures
            r@ == unique_name(block_model_names(self.block_models@), name@),
    {
        let mut taken: Vec<String> = Vec::new();
        let mut i: usize = 0;
        while i < self.block_models.len()
            invariant
                i <= self.block_models@.len(),
                taken@.len() == i,
                forall|j: int| 0 <= j < i ==> (#[trigger] taken@[j])@ == self.block_models@[j].name@,
            decreases self.block_models.len() - i,
        {
            taken.push(self.block_models[i].name.clone());
            i += 1;
        }
        assert(texts(taken@) =~= block_model_names(self.block_models@));
        make_unique(&taken, name)
    }

    pub fn free_dataset_name(&self, name: &str) -> (r: String)
        ensures
            r@ == unique_name(dataset_names(self.drill_holes@), name@),
    {
        let mut taken: Vec<String> = Vec::new();
        let mut i: usize = 0;
        while i < self.drill_holes.len()
            invariant
                i <= self.drill_holes@.len(),
                taken@.len() == i,
                forall|j: int| 0 <= j < i ==> (#[trigger] taken@[j])@ == self.drill_holes@[j].name@,
            decreases self.drill_holes.len() - i,
        {
            taken.push(self.drill_holes[i].name.clone());
            i += 1;
        }
        assert(texts(taken@) =~= dataset_names(self.drill_holes@));
        make_unique(&taken, name)
    }

    /// Adds a surface under an id.
    pub fn add_triangulation(&mut self, loaded: LoadedTriangulation, state: ItemState, id: u64)
        ensures
            triangulation_added(*old(self), loaded, state, id, *final(self)),
            final(self).next_triangulation_id == old(self).next_triangulation_id,
    {
        let name = self.free_triangulation_name(loaded.name.as_str());
        self.triangulations.push(
            OpenTriangulation {
                id: TriangulationId(id),
                state,
                name,
                mesh: loaded.mesh,
                visible: true,
                color: default_surface_color(),
                line_color: default_edge_color(),
                line_weight: Some(ONE),
                bounds: loaded.bounds,
                raster_texture: None,
                raster_opacity: ONE,
            },
        );
        assert(self.triangulations@.drop_last() =~= old(self).triangulations@);
    }

    /// Adds a raster under an id.
    pub fn add_raster(&mut self, loaded: LoadedRaster, state: ItemState, id: u64)
        ensures
            raster_added(*old(self), loaded, state, id, *final(self)),
            final(self).next_raster_texture_id == old(self).next_raster_texture_id,
    {
        let name = self.free_raster_name(loaded.name.as_str());
        self.raster_textures.push(
            OpenRasterTexture {
                id: RasterTextureId(id),
                state,
                name,
                pixels: loaded.pixels,
                world_to_uv: loaded.world_to_uv,
                projection: loaded.projection,
            },
        );
        assert(self.raster_textures@.drop_last() =~= old(self).raster_textures@);
    }

    /// Adds a point cloud under an id.
    pub fn add_point_cloud(&mut self, loaded: LoadedPointCloud, state: ItemState, color: Rgba, point_size: u32, id: u64)
        ensures
            point_cloud_added(*old(self), loaded, state, color, point_size, id, *final(self)),
            final(self).next_point_cloud_id == old(self).next_point_cloud_id,
    {
        let name = self.free_point_cloud_name(loaded.name.as_str());
        self.point_clouds.push(OpenPointCloud { id: PointCloudId(id), state, name, points: loaded.points, color, point_size });
        assert(self.point_clouds@.drop_last() =~= old(self).point_clouds@);
    }

    /// Adds a block model under an id, with a ramp for the variable that it is
    /// coloured by.
    pub fn add_block_model(&mut self, loaded: LoadedBlockModel, state: ItemState, id: u64)
        ensures
            block_model_added(*old(self), loaded, state, id, *final(self)),
            final(self).next_block_model_id == old(self).next_block_model_id,
    {
        let name = self.free_block_model_name(loaded.name.as_str());
        let mut color_transfers: Vec<crate::items::ColorTransfer> = Vec::new();
        match (&loaded.active_color_variable, loaded.ramp) {
            (Some(v), Some(ramp)) => {
                color_transfers.push(crate::items::ColorTransfer { variable: v.clone(), ramp });
            },
            _ => {},
        }
        let decoded = copy_text(&loaded.active_color_variable);
        self.block_models.push(
            OpenBlockModel {
                id: BlockModelId(id),
                state,
                name,
                blocks: loaded.blocks,
                visible: true,
                color: default_block_color(),
                slice: None,
                local_bounds: loaded.local_bounds,
                active_color_variable: loaded.active_color_variable,
                color_transfers,
                hide_empty_color_values: true,
                decoded,
            },
        );
        assert(self.block_models@.drop_last() =~= old(self).block_models@);
    }

    /// Adds a drillhole dataset under an id.
    pub fn add_drill_holes(&mut self, loaded: LoadedDrillHoles, state: ItemState, id: u64)
        ensures
            drill_holes_added(*old(self), loaded, state, id, *final(self)),
            final(self).next_drill_hole_id == old(self).next_drill_hole_id,
    {
        let name = self.free_dataset_name(loaded.name.as_str());
        let color = new_drill_color();
        self.drill_holes.push(
            OpenDrillHoleDataset {
                id: DrillHoleId(id),
                state,
                name,
                visible: true,
                holes: loaded.holes,
                fields: loaded.fields,
                bounds: loaded.bounds,
                color,
                tie_ins: loaded.tie_ins,
                initiations: loaded.initiations,
            },
        );
        assert(self.drill_holes@.drop_last() =~= old(self).drill_holes@);
    }
}

/// The active project's items changed once more.
pub open spec fn content_touched(pre: Workspace, post: Workspace) -> bool {
    match pre.active_index {
        Some(i) if i < pre.projects@.len() => {
            let p = pre.projects@[i as int];
            &&& post == (Workspace { projects: post.projects, ..pre })
            &&& post.projects@ == pre.projects@.update(
                i as int,
                OpenProject { asset_revision: crate::collars::epoch_after(p.asset_revision), ..p },
            )
        },
        _ => post == pre,
    }
}

/// Something is there to be looked at.
pub open spec fn renderable(app: App) -> bool {
    app.scene.objects@.len() > 0 || items_drawn(app.items)
}

/// One of the items is drawn in the scene.
pub open spec fn items_drawn(items: Items) -> bool {
    items.triangulations@.len() > 0 || items.block_models@.len() > 0 || items.drill_holes@.len() > 0 || items.point_clouds@.len() > 0
}

impl Items {
    /// Whether one of the items is drawn in the scene.
    pub fn any_drawn(&self) -> (r: bool)
        ensures
            r == items_drawn(*self),
    {
        self.triangulations.len() > 0 || self.block_models.len() > 0 || self.drill_holes.len() > 0 || self.point_clouds.len() > 0
    }
}

impl Workspace {
    /// Counts one more change to the items of the active project.
    pub fn touch_active_project_content(&mut self)
        ensures
            content_touched(*old(self), *final(self)),
    {
        match self.active_index {
            Some(i) => {
                if i < self.projects.len() {
                    let revision: u64 = self.projects[i].asset_revision;
                    self.projects[i].asset_revision = if revision < u64::MAX {
                        revision + 1
                    } else {
                        0
                    };
                    assert(self.projects@ =~= old(self).projects@.update(i as int, self.projects@[i as int]));
                }
            },
            None => {},
        }
    }
}

impl App {
    /// Whether anything is there to be looked at.
    pub fn scene_has_renderables(&self) -> (r: bool)
        ensures
            r == renderable(*self),
    {
        self.scene.objects.len() > 0 || self.items.any_drawn()
    }

    /// Counts one more change to the items of the active project.
    pub fn touch_active_project_content(&mut self)
        ensures
            *final(self) == (App { workspace: final(self).workspace, ..*old(self) }),
            content_touched(old(self).workspace, final(self).workspace),
    {
        self.workspace.touch_active_project_content();
    }
}

} // verus!
