//! What a project owns beside its design: surfaces, block models, drillholes,
//! point clouds and rasters.

use crate::document::Rgba;
use crate::ids::{BlockModelId, DrillHoleId, ItemRef, PointCloudId, RasterTextureId, TriangulationId};
use crate::ieee::Point3;
use crate::search::{find_first, first_index};
use vstd::prelude::*;

verus! {

/// What is known of an item apart from its data: whether it is loaded, a
/// counter that moves with every change to its content, the counter's value
/// in the stored copy, the name and the format of the file that it came from,
/// and whether its data lies in storage instead of memory.
pub struct ItemState {
    pub loaded: bool,
    pub epoch: u64,
    pub saved_epoch: Option<u64>,
    pub source: Option<String>,
    pub format: Option<String>,
    pub deferred: bool,
}

/// The corners of a box: the bits of three `f64` each.
#[derive(Clone, Copy, PartialEq, Eq, Structural, Debug)]
pub struct Bounds {
    pub min: Point3,
    pub max: Point3,
}

/// An open triangulated surface. `mesh` is a key to its triangles; weights and
/// opacities are the bits of an `f32`.
pub struct OpenTriangulation {
    pub id: TriangulationId,
    pub state: ItemState,
    pub name: String,
    pub mesh: u64,
    pub visible: bool,
    pub color: Rgba,
    pub line_color: Rgba,
    pub line_weight: Option<u32>,
    pub bounds: Bounds,
    pub raster_texture: Option<RasterTextureId>,
    pub raster_opacity: u32,
}

/// Where a hole points: the bits of its azimuth and dip in degrees.
#[derive(Clone, Copy, PartialEq, Eq, Structural, Debug)]
pub struct HoleOrientation {
    pub azimuth: u64,
    pub dip: u64,
}

/// Where a hole stands: its collar, a key to the positions along its trace,
/// where it points if it has any length below the collar, and the box around
/// its trace, if it has one.
#[derive(Clone, Copy, PartialEq, Eq, Structural, Debug)]
pub struct HolePlacement {
    pub collar: Point3,
    pub trace: u64,
    pub orientation: Option<HoleOrientation>,
    pub extent: Option<Bounds>,
}

/// What an interval holds of a field.
pub enum DrillValue {
    /// The bits of an `f64`.
    Numeric(u64),
    Text(String),
}

/// A value of one field.
pub struct FieldValue {
    pub field: String,
    pub value: DrillValue,
}

/// A stretch of a hole between two depths, and what was found in it.
pub struct DrillInterval {
    pub from: u64,
    pub to: u64,
    pub values: Vec<FieldValue>,
}

/// One hole of a dataset.
pub struct DrillHole {
    pub name: String,
    pub placement: HolePlacement,
    pub diameter: Option<u64>,
    pub intervals: Vec<DrillInterval>,
}

/// A leg between two holes of a dataset: its delay, the product that it is
/// laid with, and the colour of that product.
pub struct TieIn {
    pub from: usize,
    pub to: usize,
    pub delay_ms: u32,
    pub product: String,
    pub color: u32,
}

/// A hole that the firing starts from, and when.
#[derive(Clone, Copy, PartialEq, Eq, Structural, Debug)]
pub struct Initiation {
    pub hole: usize,
    pub delay_ms: u32,
}

/// What a field of a dataset holds.
#[derive(Debug)]
pub enum DrillFieldKind {
    Numeric { min: u64, max: u64 },
    Categorical { categories: Vec<String> },
}

/// A field that the intervals of a dataset may carry.
#[derive(Debug)]
pub struct DrillField {
    pub key: String,
    pub kind: DrillFieldKind,
}

/// A ramp that a dataset is coloured by: the usual one, or another by number.
#[derive(Clone, Copy, PartialEq, Eq, Structural, Debug)]
pub enum DrillColorPreset {
    Rainbow,
    Other(u8),
}

/// A colour at a place along a ramp: the bits of an `f32` in the unit range.
#[derive(Clone, Copy, PartialEq, Eq, Structural, Debug)]
pub struct DrillColorStop {
    pub t: u32,
    pub color: Rgba,
}

/// The colour of one category.
#[derive(Debug)]
pub struct DrillCategoryColor {
    pub category: String,
    pub color: Rgba,
}

/// How a dataset is coloured.
#[derive(Debug)]
pub struct DrillColorState {
    pub active_field: Option<String>,
    pub preset: DrillColorPreset,
    pub smooth: bool,
    pub stops: Vec<DrillColorStop>,
    pub categories: Vec<DrillCategoryColor>,
}

/// An open drillhole dataset.
pub struct OpenDrillHoleDataset {
    pub id: DrillHoleId,
    pub state: ItemState,
    pub name: String,
    pub visible: bool,
    pub holes: Vec<DrillHole>,
    pub fields: Vec<DrillField>,
    pub bounds: Option<Bounds>,
    pub color: DrillColorState,
    pub tie_ins: Vec<TieIn>,
    pub initiations: Vec<Initiation>,
}

/// A part of a block model cut out by two corners.
#[derive(Clone, Copy, PartialEq, Eq, Structural, Debug)]
pub struct BlockModelSlice {
    pub min: Point3,
    pub max: Point3,
}

/// How the values of one variable become colours: a key to the ramp.
#[derive(Debug)]
pub struct ColorTransfer {
    pub variable: String,
    pub ramp: u64,
}

/// A variable of a block model.
#[derive(Debug)]
pub struct BlockVariable {
    pub name: String,
    pub special: bool,
    pub physical_type: String,
}

/// An open block model. `blocks` is a key to its blocks; `decoded` tells whose
/// values are ready to be drawn.
pub struct OpenBlockModel {
    pub id: BlockModelId,
    pub state: ItemState,
    pub name: String,
    pub blocks: u64,
    pub visible: bool,
    pub color: Rgba,
    pub slice: Option<BlockModelSlice>,
    pub local_bounds: Bounds,
    pub active_color_variable: Option<String>,
    pub color_transfers: Vec<ColorTransfer>,
    pub hide_empty_color_values: bool,
    pub decoded: Option<String>,
}

/// An open point cloud. `points` is a key to its points.
pub struct OpenPointCloud {
    pub id: PointCloudId,
    pub state: ItemState,
    pub name: String,
    pub points: u64,
    pub color: Rgba,
    pub point_size: u32,
}

/// An open raster texture. `pixels` is a key to its pixels; `world_to_uv` are
/// the bits of the map from the world to the texture.
pub struct OpenRasterTexture {
    pub id: RasterTextureId,
    pub state: ItemState,
    pub name: String,
    pub pixels: u64,
    pub world_to_uv: [u64; 6],
    pub projection: String,
}

/// One item of any kind.
pub enum OpenItem {
    Triangulation(OpenTriangulation),
    BlockModel(OpenBlockModel),
    DrillHole(OpenDrillHoleDataset),
    PointCloud(OpenPointCloud),
    Raster(OpenRasterTexture),
}

impl OpenItem {
    /// Which item it is.
    pub open spec fn which(self) -> ItemRef {
        match self {
            OpenItem::Triangulation(t) => ItemRef::Triangulation(t.id),
            OpenItem::BlockModel(t) => ItemRef::BlockModel(t.id),
            OpenItem::DrillHole(t) => ItemRef::DrillHole(t.id),
            OpenItem::PointCloud(t) => ItemRef::PointCloud(t.id),
            OpenItem::Raster(t) => ItemRef::Raster(t.id),
        }
    }

    /// What is known of it apart from its data.
    pub open spec fn status(self) -> ItemState {
        match self {
            OpenItem::Triangulation(t) => t.state,
            OpenItem::BlockModel(t) => t.state,
            OpenItem::DrillHole(t) => t.state,
            OpenItem::PointCloud(t) => t.state,
            OpenItem::Raster(t) => t.state,
        }
    }

    /// Which item it is.
    pub fn item_ref(&self) -> (r: ItemRef)
        ensures
            r == self.which(),
    {
        match self {
            OpenItem::Triangulation(t) => ItemRef::Triangulation(t.id),
            OpenItem::BlockModel(t) => ItemRef::BlockModel(t.id),
            OpenItem::DrillHole(t) => ItemRef::DrillHole(t.id),
            OpenItem::PointCloud(t) => ItemRef::PointCloud(t.id),
            OpenItem::Raster(t) => ItemRef::Raster(t.id),
        }
    }
}

/// Everything open beside the design, and the next free ids.
pub struct Items {
    pub triangulations: Vec<OpenTriangulation>,
    pub block_models: Vec<OpenBlockModel>,
    pub drill_holes: Vec<OpenDrillHoleDataset>,
    pub point_clouds: Vec<OpenPointCloud>,
    pub raster_textures: Vec<OpenRasterTexture>,
    pub next_triangulation_id: u64,
    pub next_block_model_id: u64,
    pub next_drill_hole_id: u64,
    pub next_point_cloud_id: u64,
    pub next_raster_texture_id: u64,
}

/// The index of the first surface with the id.
pub open spec fn triangulation_index(s: Seq<OpenTriangulation>, id: TriangulationId) -> int {
    first_index(s, |t: OpenTriangulation| t.id == id)
}

/// The index of the first dataset with the id.
pub open spec fn dataset_index(s: Seq<OpenDrillHoleDataset>, id: DrillHoleId) -> int {
    first_index(s, |d: OpenDrillHoleDataset| d.id == id)
}

/// The index of the first block model with the id.
pub open spec fn block_model_index(s: Seq<OpenBlockModel>, id: BlockModelId) -> int {
    first_index(s, |x: OpenBlockModel| x.id == id)
}

/// The index of the first point cloud with the id.
pub open spec fn point_cloud_index(s: Seq<OpenPointCloud>, id: PointCloudId) -> int {
    first_index(s, |x: OpenPointCloud| x.id == id)
}

/// The index of the first raster with the id.
pub open spec fn raster_index(s: Seq<OpenRasterTexture>, id: RasterTextureId) -> int {
    first_index(s, |x: OpenRasterTexture| x.id == id)
}

/// The state of an item, if the item is there.
pub open spec fn item_state(items: Items, item: ItemRef) -> Option<ItemState> {
    match item {
        ItemRef::Triangulation(id) => {
            let s = items.triangulations@;
            let i = triangulation_index(s, id);
            if i < s.len() {
                Some(s[i].state)
            } else {
                None
            }
        },
        ItemRef::BlockModel(id) => {
            let s = items.block_models@;
            let i = block_model_index(s, id);
            if i < s.len() {
                Some(s[i].state)
            } else {
                None
            }
        },
        ItemRef::DrillHole(id) => {
            let s = items.drill_holes@;
            let i = dataset_index(s, id);
            if i < s.len() {
                Some(s[i].state)
            } else {
                None
            }
        },
        ItemRef::PointCloud(id) => {
            let s = items.point_clouds@;
            let i = point_cloud_index(s, id);
            if i < s.len() {
                Some(s[i].state)
            } else {
                None
            }
        },
        ItemRef::Raster(id) => {
            let s = items.raster_textures@;
            let i = raster_index(s, id);
            if i < s.len() {
                Some(s[i].state)
            } else {
                None
            }
        },
    }
}

impl Items {
    /// The state of an item, if the item is there.
    pub fn state_of(&self, item: ItemRef) -> (r: Option<&ItemState>)
        ensures
            match r {
                Some(s) => item_state(*self, item) == Some(*s),
                None => item_state(*self, item) is None,
            },
    {
        match item {
            ItemRef::Triangulation(id) => match self.find_triangulation(id) {
                Some(i) => Some(&self.triangulations[i].state),
                None => None,
            },
            ItemRef::BlockModel(id) => match self.find_block_model(id) {
                Some(i) => Some(&self.block_models[i].state),
                None => None,
            },
            ItemRef::DrillHole(id) => match self.find_dataset(id) {
                Some(i) => Some(&self.drill_holes[i].state),
                None => None,
            },
            ItemRef::PointCloud(id) => match self.find_point_cloud(id) {
                Some(i) => Some(&self.point_clouds[i].state),
                None => None,
            },
            ItemRef::Raster(id) => match self.find_raster(id) {
                Some(i) => Some(&self.raster_textures[i].state),
                None => None,
            },
        }
    }

    /// Where the surface with the id stands.
    pub fn find_triangulation(&self, id: TriangulationId) -> (r: Option<usize>)
        ensures
            match r {
                Some(i) => i == triangulation_index(self.triangulations@, id) && i < self.triangulations@.len() && self.triangulations@[i as int].id
                    == id,
                None => triangulation_index(self.triangulations@, id) == self.triangulations@.len(),
            },
    {
        find_first(&self.triangulations, Ghost(|t: OpenTriangulation| t.id == id), |t: &OpenTriangulation| -> (b: bool)
            ensures
                b == (t.id == id),
            { t.id == id })
    }

    /// Where the dataset with the id stands.
    pub fn find_dataset(&self, id: DrillHoleId) -> (r: Option<usize>)
        ensures
            match r {
                Some(i) => i == dataset_index(self.drill_holes@, id) && i < self.drill_holes@.len() && self.drill_holes@[i as int].id == id,
                None => dataset_index(self.drill_holes@, id) == self.drill_holes@.len(),
            },
    {
        find_first(&self.drill_holes, Ghost(|d: OpenDrillHoleDataset| d.id == id), |d: &OpenDrillHoleDataset| -> (b: bool)
            ensures
                b == (d.id == id),
            { d.id == id })
    }

    /// Where the block model with the id stands.
    pub fn find_block_model(&self, id: BlockModelId) -> (r: Option<usize>)
        ensures
            match r {
                Some(i) => i == block_model_index(self.block_models@, id) && i < self.block_models@.len() && self.block_models@[i as int].id == id,
                None => block_model_index(self.block_models@, id) == self.block_models@.len(),
            },
    {
        find_first(&self.block_models, Ghost(|x: OpenBlockModel| x.id == id), |x: &OpenBlockModel| -> (b: bool)
            ensures
                b == (x.id == id),
            { x.id == id })
    }

    /// Where the point cloud with the id stands.
    pub fn find_point_cloud(&self, id: PointCloudId) -> (r: Option<usize>)
        ensures
            match r {
                Some(i) => i == point_cloud_index(self.point_clouds@, id) && i < self.point_clouds@.len() && self.point_clouds@[i as int].id == id,
                None => point_cloud_index(self.point_clouds@, id) == self.point_clouds@.len(),
            },
    {
        find_first(&self.point_clouds, Ghost(|x: OpenPointCloud| x.id == id), |x: &OpenPointCloud| -> (b: bool)
            ensures
                b == (x.id == id),
            { x.id == id })
    }

    /// Where the raster with the id stands.
    pub fn find_raster(&self, id: RasterTextureId) -> (r: Option<usize>)
        ensures
            match r {
                Some(i) => i == raster_index(self.raster_textures@, id) && i < self.raster_textures@.len() && self.raster_textures@[i as int].id == id,
                None => raster_index(self.raster_textures@, id) == self.raster_textures@.len(),
            },
    {
        find_first(&self.raster_textures, Ghost(|x: OpenRasterTexture| x.id == id), |x: &OpenRasterTexture| -> (b: bool)
            ensures
                b == (x.id == id),
            { x.id == id })
    }
}

} // verus!
