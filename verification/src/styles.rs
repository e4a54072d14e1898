//! How items look, and changes to it.

use crate::arrivals::copy_text;
use crate::document::{colors_equal, points_equal, same_color, same_point, Rgba};
use crate::edit::Edit;
use crate::ids::{ItemRef, RasterTextureId};
use crate::ieee::{equal32, f32_equal};
use crate::items::{
    block_model_index, dataset_index, point_cloud_index, raster_index, triangulation_index, BlockModelSlice, ColorTransfer, DrillCategoryColor,
    DrillColorPreset, DrillColorState, DrillColorStop, Items, OpenBlockModel, OpenDrillHoleDataset, OpenTriangulation,
};
use crate::state::App;
use crate::text::{same_optional_text, same_text, text_of};
use vstd::prelude::*;

verus! {

/// How an item looks, and whether it is loaded.
#[allow(inconsistent_fields)]
pub enum ItemStyle {
    Triangulation {
        loaded: bool,
        visible: bool,
        color: Rgba,
        line_color: Rgba,
        line_weight: Option<u32>,
        raster_texture: Option<RasterTextureId>,
        raster_opacity: u32,
    },
    BlockModel {
        loaded: bool,
        visible: bool,
        color: Rgba,
        slice: Option<BlockModelSlice>,
        active_color_variable: Option<String>,
        color_transfers: Vec<ColorTransfer>,
        hide_empty_color_values: bool,
    },
    DrillHole { loaded: bool, color: DrillColorState },
    PointCloud { loaded: bool, color: Rgba, point_size: u32 },
    Raster { loaded: bool },
}

/// What a colour scheme is.
pub ghost struct DrillColorModel {
    pub active_field: Option<Seq<char>>,
    pub preset: DrillColorPreset,
    pub smooth: bool,
    pub stops: Seq<DrillColorStop>,
    pub categories: Seq<(Seq<char>, Rgba)>,
}

/// What the colours of categories are.
pub open spec fn category_models(s: Seq<DrillCategoryColor>) -> Seq<(Seq<char>, Rgba)> {
    s.map_values(|c: DrillCategoryColor| (c.category@, c.color))
}

/// What ramps are.
pub open spec fn transfer_models(s: Seq<ColorTransfer>) -> Seq<(Seq<char>, u64)> {
    s.map_values(|t: ColorTransfer| (t.variable@, t.ramp))
}

impl View for DrillColorState {
    type V = DrillColorModel;

    open spec fn view(&self) -> DrillColorModel {
        DrillColorModel {
            active_field: text_of(self.active_field),
            preset: self.preset,
            smooth: self.smooth,
            stops: self.stops@,
            categories: category_models(self.categories@),
        }
    }
}

/// What a style is.
#[allow(inconsistent_fields)]
pub ghost enum StyleModel {
    Triangulation {
        loaded: bool,
        visible: bool,
        color: Rgba,
        line_color: Rgba,
        line_weight: Option<u32>,
        raster_texture: Option<RasterTextureId>,
        raster_opacity: u32,
    },
    BlockModel {
        loaded: bool,
        visible: bool,
        color: Rgba,
        slice: Option<BlockModelSlice>,
        active_color_variable: Option<Seq<char>>,
        color_transfers: Seq<(Seq<char>, u64)>,
        hide_empty_color_values: bool,
    },
    DrillHole { loaded: bool, color: DrillColorModel },
    PointCloud { loaded: bool, color: Rgba, point_size: u32 },
    Raster { loaded: bool },
}

impl View for ItemStyle {
    type V = StyleModel;

    open spec fn view(&self) -> StyleModel {
        match *self {
            ItemStyle::Triangulation { loaded, visible, color, line_color, line_weight, raster_texture, raster_opacity } => StyleModel::Triangulation {
                loaded,
                visible,
                color,
                line_color,
                line_weight,
                raster_texture,
                raster_opacity,
            },
            ItemStyle::BlockModel { loaded, visible, color, slice, active_color_variable, color_transfers, hide_empty_color_values } => StyleModel::BlockModel {
                loaded,
                visible,
                color,
                slice,
                active_color_variable: text_of(active_color_variable),
                color_transfers: transfer_models(color_transfers@),
                hide_empty_color_values,
            },
            ItemStyle::DrillHole { loaded, color } => StyleModel::DrillHole { loaded, color: color@ },
            ItemStyle::PointCloud { loaded, color, point_size } => StyleModel::PointCloud { loaded, color, point_size },
            ItemStyle::Raster { loaded } => StyleModel::Raster { loaded },
        }
    }
}

/// Widths are compared as numbers.
pub open spec fn weights_equal(a: Option<u32>, b: Option<u32>) -> bool {
    match (a, b) {
        (Some(x), Some(y)) => f32_equal(x, y),
        (None, None) => true,
        _ => false,
    }
}

/// Parts are compared as numbers.
pub open spec fn slices_equal(a: Option<BlockModelSlice>, b: Option<BlockModelSlice>) -> bool {
    match (a, b) {
        (Some(x), Some(y)) => same_point(x.min, y.min) && same_point(x.max, y.max),
        (None, None) => true,
        _ => false,
    }
}

/// Stops are compared as numbers.
pub open spec fn stops_equal(a: Seq<DrillColorStop>, b: Seq<DrillColorStop>) -> bool {
    a.len() == b.len() && forall|i: int| 0 <= i < a.len() ==> f32_equal((#[trigger] a[i]).t, b[i].t) && same_color(a[i].color, b[i].color)
}

/// The colours of categories are compared as numbers.
pub open spec fn categories_equal(a: Seq<(Seq<char>, Rgba)>, b: Seq<(Seq<char>, Rgba)>) -> bool {
    a.len() == b.len() && forall|i: int| 0 <= i < a.len() ==> (#[trigger] a[i]).0 == b[i].0 && same_color(a[i].1, b[i].1)
}

/// Colour schemes are equal where their numbers are.
pub open spec fn schemes_equal(a: DrillColorModel, b: DrillColorModel) -> bool {
    &&& a.active_field == b.active_field && a.preset == b.preset && a.smooth == b.smooth
    &&& stops_equal(a.stops, b.stops)
    &&& categories_equal(a.categories, b.categories)
}

/// Styles are equal where their numbers are: zero equals zero with a sign, and
/// what is not a number equals nothing.
pub open spec fn style_equal(a: StyleModel, b: StyleModel) -> bool {
    match (a, b) {
        (
            StyleModel::Triangulation { loaded, visible, color, line_color, line_weight, raster_texture, raster_opacity },
            StyleModel::Triangulation {
                loaded: loaded2,
                visible: visible2,
                color: color2,
                line_color: line_color2,
                line_weight: line_weight2,
                raster_texture: raster_texture2,
                raster_opacity: raster_opacity2,
            },
        ) => {
            &&& loaded == loaded2 && visible == visible2
            &&& same_color(color, color2) && same_color(line_color, line_color2)
            &&& weights_equal(line_weight, line_weight2)
            &&& raster_texture == raster_texture2
            &&& f32_equal(raster_opacity, raster_opacity2)
        },
        (
            StyleModel::BlockModel { loaded, visible, color, slice, active_color_variable, color_transfers, hide_empty_color_values },
            StyleModel::BlockModel {
                loaded: loaded2,
                visible: visible2,
                color: color2,
                slice: slice2,
                active_color_variable: active2,
                color_transfers: transfers2,
                hide_empty_color_values: hide2,
            },
        ) => {
            &&& loaded == loaded2 && visible == visible2 && hide_empty_color_values == hide2
            &&& same_color(color, color2)
            &&& slices_equal(slice, slice2)
            &&& active_color_variable == active2
            &&& color_transfers == transfers2
        },
        (StyleModel::DrillHole { loaded, color }, StyleModel::DrillHole { loaded: loaded2, color: color2 }) => loaded == loaded2 && schemes_equal(
            color,
            color2,
        ),
        (
            StyleModel::PointCloud { loaded, color, point_size },
            StyleModel::PointCloud { loaded: loaded2, color: color2, point_size: size2 },
        ) => loaded == loaded2 && same_color(color, color2) && f32_equal(point_size, size2),
        (StyleModel::Raster { loaded }, StyleModel::Raster { loaded: loaded2 }) => loaded == loaded2,
        _ => false,
    }
}

/// The style of a surface.
pub open spec fn surface_style(t: OpenTriangulation) -> StyleModel {
    StyleModel::Triangulation {
        loaded: t.state.loaded,
        visible: t.visible,
        color: t.color,
        line_color: t.line_color,
        line_weight: t.line_weight,
        raster_texture: t.raster_texture,
        raster_opacity: t.raster_opacity,
    }
}

/// The style of a block model.
pub open spec fn block_style(t: OpenBlockModel) -> StyleModel {
    StyleModel::BlockModel {
        loaded: t.state.loaded,
        visible: t.visible,
        color: t.color,
        slice: t.slice,
        active_color_variable: text_of(t.active_color_variable),
        color_transfers: transfer_models(t.color_transfers@),
        hide_empty_color_values: t.hide_empty_color_values,
    }
}

/// The style of a dataset.
pub open spec fn dataset_style(t: OpenDrillHoleDataset) -> StyleModel {
    StyleModel::DrillHole { loaded: t.state.loaded, color: t.color@ }
}

/// The style of an item, if the item is there.
pub open spec fn style_of(items: Items, item: ItemRef) -> Option<StyleModel> {
    match item {
        ItemRef::Triangulation(id) => {
            let s = items.triangulations@;
            let i = triangulation_index(s, id);
            if i < s.len() {
                Some(surface_style(s[i]))
            } else {
                None
            }
        },
        ItemRef::BlockModel(id) => {
            let s = items.block_models@;
            let i = block_model_index(s, id);
            if i < s.len() {
                Some(block_style(s[i]))
            } else {
                None
            }
        },
        ItemRef::DrillHole(id) => {
            let s = items.drill_holes@;
            let i = dataset_index(s, id);
            if i < s.len() {
                Some(dataset_style(s[i]))
            } else {
                None
            }
        },
        ItemRef::PointCloud(id) => {
            let s = items.point_clouds@;
            let i = point_cloud_index(s, id);
            if i < s.len() {
                Some(StyleModel::PointCloud { loaded: s[i].state.loaded, color: s[i].color, point_size: s[i].point_size })
            } else {
                None
            }
        },
        ItemRef::Raster(id) => {
            let s = items.raster_textures@;
            let i = raster_index(s, id);
            if i < s.len() {
                Some(StyleModel::Raster { loaded: s[i].state.loaded })
            } else {
                None
            }
        },
    }
}

/// A style with the item loaded or not.
pub open spec fn with_loaded(style: StyleModel, now: bool) -> StyleModel {
    match style {
        StyleModel::Triangulation { visible, color, line_color, line_weight, raster_texture, raster_opacity, .. } => StyleModel::Triangulation {
            loaded: now,
            visible,
            color,
            line_color,
            line_weight,
            raster_texture,
            raster_opacity,
        },
        StyleModel::BlockModel { visible, color, slice, active_color_variable, color_transfers, hide_empty_color_values, .. } => StyleModel::BlockModel {
            loaded: now,
            visible,
            color,
            slice,
            active_color_variable,
            color_transfers,
            hide_empty_color_values,
        },
        StyleModel::DrillHole { color, .. } => StyleModel::DrillHole { loaded: now, color },
        StyleModel::PointCloud { color, point_size, .. } => StyleModel::PointCloud { loaded: now, color, point_size },
        StyleModel::Raster { .. } => StyleModel::Raster { loaded: now },
    }
}

/// A style with the item shown or hidden, where it can be.
pub open spec fn with_visible(style: StyleModel, now: bool) -> StyleModel {
    match style {
        StyleModel::Triangulation { loaded, color, line_color, line_weight, raster_texture, raster_opacity, .. } => StyleModel::Triangulation {
            loaded,
            visible: now,
            color,
            line_color,
            line_weight,
            raster_texture,
            raster_opacity,
        },
        StyleModel::BlockModel { loaded, color, slice, active_color_variable, color_transfers, hide_empty_color_values, .. } => StyleModel::BlockModel {
            loaded,
            visible: now,
            color,
            slice,
            active_color_variable,
            color_transfers,
            hide_empty_color_values,
        },
        other => other,
    }
}

/// The item is shown, where that can be told.
pub open spec fn shown(style: StyleModel) -> bool {
    match style {
        StyleModel::Triangulation { visible, .. } => visible,
        StyleModel::BlockModel { visible, .. } => visible,
        _ => true,
    }
}

/// A style with another colour, where it has one.
pub open spec fn with_color(style: StyleModel, now: Rgba) -> StyleModel {
    match style {
        StyleModel::Triangulation { loaded, visible, line_color, line_weight, raster_texture, raster_opacity, .. } => StyleModel::Triangulation {
            loaded,
            visible,
            color: now,
            line_color,
            line_weight,
            raster_texture,
            raster_opacity,
        },
        StyleModel::BlockModel { loaded, visible, slice, active_color_variable, color_transfers, hide_empty_color_values, .. } => StyleModel::BlockModel {
            loaded,
            visible,
            color: now,
            slice,
            active_color_variable,
            color_transfers,
            hide_empty_color_values,
        },
        StyleModel::PointCloud { loaded, point_size, .. } => StyleModel::PointCloud { loaded, color: now, point_size },
        other => other,
    }
}

/// A style with a raster draped over the item, where that can be.
pub open spec fn with_raster(style: StyleModel, now: Option<RasterTextureId>) -> StyleModel {
    match style {
        StyleModel::Triangulation { loaded, visible, color, line_color, line_weight, raster_opacity, .. } => StyleModel::Triangulation {
            loaded,
            visible,
            color,
            line_color,
            line_weight,
            raster_texture: now,
            raster_opacity,
        },
        other => other,
    }
}

/// A style with a part cut out of the item, where that can be.
pub open spec fn with_slice(style: StyleModel, now: Option<BlockModelSlice>) -> StyleModel {
    match style {
        StyleModel::BlockModel { loaded, visible, color, active_color_variable, color_transfers, hide_empty_color_values, .. } => StyleModel::BlockModel {
            loaded,
            visible,
            color,
            slice: now,
            active_color_variable,
            color_transfers,
            hide_empty_color_values,
        },
        other => other,
    }
}

/// A style that colours by another variable, where that can be.
pub open spec fn with_variable(style: StyleModel, now: Seq<char>) -> StyleModel {
    match style {
        StyleModel::BlockModel { loaded, visible, color, slice, color_transfers, hide_empty_color_values, .. } => StyleModel::BlockModel {
            loaded,
            visible,
            color,
            slice,
            active_color_variable: Some(now),
            color_transfers,
            hide_empty_color_values,
        },
        other => other,
    }
}

/// A style with other ramps, where it has any.
pub open spec fn with_transfers(style: StyleModel, now: Seq<(Seq<char>, u64)>) -> StyleModel {
    match style {
        StyleModel::BlockModel { loaded, visible, color, slice, active_color_variable, hide_empty_color_values, .. } => StyleModel::BlockModel {
            loaded,
            visible,
            color,
            slice,
            active_color_variable,
            color_transfers: now,
            hide_empty_color_values,
        },
        other => other,
    }
}

/// A copy of ramps.
pub fn copy_transfers(s: &Vec<ColorTransfer>) -> (r: Vec<ColorTransfer>)
    ensures
        transfer_models(r@) == transfer_models(s@),
{
    let mut r: Vec<ColorTransfer> = Vec::new();
    let mut i: usize = 0;
    while i < s.len()
        invariant
            i <= s.len(),
            r@.len() == i,
            forall|j: int| 0 <= j < i ==> (#[trigger] r@[j]).variable@ == s@[j].variable@ && r@[j].ramp == s@[j].ramp,
        decreases s.len() - i,
    {
        r.push(ColorTransfer { variable: s[i].variable.clone(), ramp: s[i].ramp });
        i += 1;
    }
    assert(transfer_models(r@) =~= transfer_models(s@));
    r
}

fn copy_stops(s: &Vec<DrillColorStop>) -> (r: Vec<DrillColorStop>)
    ensures
        r@ == s@,
{
    let mut r: Vec<DrillColorStop> = Vec::new();
    let mut i: usize = 0;
    while i < s.len()
        invariant
            i <= s.len(),
            r@ == s@.take(i as int),
        decreases s.len() - i,
    {
        r.push(s[i]);
        i += 1;
    }
    assert(r@ =~= s@);
    r
}

fn copy_categories(s: &Vec<DrillCategoryColor>) -> (r: Vec<DrillCategoryColor>)
    ensures
        category_models(r@) == category_models(s@),
{
    let mut r: Vec<DrillCategoryColor> = Vec::new();
    let mut i: usize = 0;
    while i < s.len()
        invariant
            i <= s.len(),
            r@.len() == i,
            forall|j: int| 0 <= j < i ==> (#[trigger] r@[j]).category@ == s@[j].category@ && r@[j].color == s@[j].color,
        decreases s.len() - i,
    {
        r.push(DrillCategoryColor { category: s[i].category.clone(), color: s[i].color });
        i += 1;
    }
    assert(category_models(r@) =~= category_models(s@));
    r
}

impl DrillColorState {
    /// A second scheme that colours the same way.
    pub fn copy(&self) -> (r: DrillColorState)
        ensures
            r@ == self@,
    {
        DrillColorState {
            active_field: copy_text(&self.active_field),
            preset: self.preset,
            smooth: self.smooth,
            stops: copy_stops(&self.stops),
            categories: copy_categories(&self.categories),
        }
    }
}

fn same_transfers(a: &Vec<ColorTransfer>, b: &Vec<ColorTransfer>) -> (r: bool)
    ensures
        r == (transfer_models(a@) == transfer_models(b@)),
{
    let ghost x = transfer_models(a@);
    let ghost y = transfer_models(b@);
    if a.len() != b.len() {
        assert(x.len() != y.len());
        return false;
    }
    let mut i: usize = 0;
    while i < a.len()
        invariant
            i <= a.len(),
            a.len() == b.len(),
            x == transfer_models(a@),
            y == transfer_models(b@),
            forall|j: int| 0 <= j < i ==> #[trigger] x[j] == y[j],
        decreases a.len() - i,
    {
        if a[i].ramp != b[i].ramp || !same_text(a[i].variable.as_str(), b[i].variable.as_str()) {
            assert(x[i as int] != y[i as int]);
            return false;
        }
        i += 1;
    }
    assert(x =~= y);
    true
}

fn same_stops(a: &Vec<DrillColorStop>, b: &Vec<DrillColorStop>) -> (r: bool)
    ensures
        r == stops_equal(a@, b@),
{
    if a.len() != b.len() {
        return false;
    }
    let mut i: usize = 0;
    while i < a.len()
        invariant
            i <= a.len(),
            a.len() == b.len(),
            forall|j: int| 0 <= j < i ==> f32_equal((#[trigger] a@[j]).t, b@[j].t) && same_color(a@[j].color, b@[j].color),
        decreases a.len() - i,
    {
        if !equal32(a[i].t, b[i].t) || !colors_equal(a[i].color, b[i].color) {
            return false;
        }
        i += 1;
    }
    true
}

fn same_categories(a: &Vec<DrillCategoryColor>, b: &Vec<DrillCategoryColor>) -> (r: bool)
    ensures
        r == categories_equal(category_models(a@), category_models(b@)),
{
    let ghost x = category_models(a@);
    let ghost y = category_models(b@);
    if a.len() != b.len() {
        return false;
    }
    let mut i: usize = 0;
    while i < a.len()
        invariant
            i <= a.len(),
            a.len() == b.len(),
            x == category_models(a@),
            y == category_models(b@),
            forall|j: int| 0 <= j < i ==> (#[trigger] x[j]).0 == y[j].0 && same_color(x[j].1, y[j].1),
        decreases a.len() - i,
    {
        assert(x[i as int] == (a@[i as int].category@, a@[i as int].color));
        assert(y[i as int] == (b@[i as int].category@, b@[i as int].color));
        if !colors_equal(a[i].color, b[i].color) || !same_text(a[i].category.as_str(), b[i].category.as_str()) {
            return false;
        }
        i += 1;
    }
    true
}

fn same_colors(a: &DrillColorState, b: &DrillColorState) -> (r: bool)
    ensures
        r == schemes_equal(a@, b@),
{
    same_optional_text(&a.active_field, &b.active_field) && a.preset == b.preset && a.smooth == b.smooth && same_stops(&a.stops, &b.stops)
        && same_categories(&a.categories, &b.categories)
}

impl ItemStyle {
    /// Whether both styles are the same.
    pub fn same(&self, other: &ItemStyle) -> (r: bool)
        ensures
            r == style_equal(self@, other@),
    {
        match (self, other) {
            (
                ItemStyle::Triangulation { loaded, visible, color, line_color, line_weight, raster_texture, raster_opacity },
                ItemStyle::Triangulation {
                    loaded: loaded2,
                    visible: visible2,
                    color: color2,
                    line_color: line_color2,
                    line_weight: line_weight2,
                    raster_texture: raster_texture2,
                    raster_opacity: raster_opacity2,
                },
            ) => {
                *loaded == *loaded2 && *visible == *visible2 && colors_equal(*color, *color2) && colors_equal(*line_color, *line_color2) && same_weight(
                    *line_weight,
                    *line_weight2,
                ) && same_raster(*raster_texture, *raster_texture2) && equal32(*raster_opacity, *raster_opacity2)
            },
            (
                ItemStyle::BlockModel { loaded, visible, color, slice, active_color_variable, color_transfers, hide_empty_color_values },
                ItemStyle::BlockModel {
                    loaded: loaded2,
                    visible: visible2,
                    color: color2,
                    slice: slice2,
                    active_color_variable: active2,
                    color_transfers: transfers2,
                    hide_empty_color_values: hide2,
                },
            ) => {
                *loaded == *loaded2 && *visible == *visible2 && colors_equal(*color, *color2) && same_slice(*slice, *slice2) && same_optional_text(
                    active_color_variable,
                    active2,
                ) && same_transfers(color_transfers, transfers2) && *hide_empty_color_values == *hide2
            },
            (ItemStyle::DrillHole { loaded, color }, ItemStyle::DrillHole { loaded: loaded2, color: color2 }) => {
                *loaded == *loaded2 && same_colors(color, color2)
            },
            (
                ItemStyle::PointCloud { loaded, color, point_size },
                ItemStyle::PointCloud { loaded: loaded2, color: color2, point_size: size2 },
            ) => {
                *loaded == *loaded2 && colors_equal(*color, *color2) && equal32(*point_size, *size2)
            },
            (ItemStyle::Raster { loaded }, ItemStyle::Raster { loaded: loaded2 }) => *loaded == *loaded2,
            _ => false,
        }
    }
}

fn same_weight(a: Option<u32>, b: Option<u32>) -> (r: bool)
    ensures
        r == weights_equal(a, b),
{
    match (a, b) {
        (Some(x), Some(y)) => equal32(x, y),
        (None, None) => true,
        _ => false,
    }
}

fn same_raster(a: Option<RasterTextureId>, b: Option<RasterTextureId>) -> (r: bool)
    ensures
        r == (a == b),
{
    match (a, b) {
        (Some(x), Some(y)) => x == y,
        (None, None) => true,
        _ => false,
    }
}

/// Whether both cut the same part out.
pub fn same_slice(a: Option<BlockModelSlice>, b: Option<BlockModelSlice>) -> (r: bool)
    ensures
        r == slices_equal(a, b),
{
    match (a, b) {
        (Some(x), Some(y)) => points_equal(x.min, y.min) && points_equal(x.max, y.max),
        (None, None) => true,
        _ => false,
    }
}

impl Items {
    /// The style of an item, if the item is there.
    pub fn item_style(&self, item: ItemRef) -> (r: Option<ItemStyle>)
        ensures
            match r {
                Some(s) => style_of(*self, item) == Some(s@),
                None => style_of(*self, item) is None,
            },
    {
        match item {
            ItemRef::Triangulation(id) => match self.find_triangulation(id) {
                Some(i) => {
                    let t = &self.triangulations[i];
                    Some(
                        ItemStyle::Triangulation {
                            loaded: t.state.loaded,
                            visible: t.visible,
                            color: t.color,
                            line_color: t.line_color,
                            line_weight: t.line_weight,
                            raster_texture: t.raster_texture,
                            raster_opacity: t.raster_opacity,
                        },
                    )
                },
                None => None,
            },
            ItemRef::BlockModel(id) => match self.find_block_model(id) {
                Some(i) => {
                    let t = &self.block_models[i];
                    Some(
                        ItemStyle::BlockModel {
                            loaded: t.state.loaded,
                            visible: t.visible,
                            color: t.color,
                            slice: t.slice,
                            active_color_variable: copy_text(&t.active_color_variable),
                            color_transfers: copy_transfers(&t.color_transfers),
                            hide_empty_color_values: t.hide_empty_color_values,
                        },
                    )
                },
                None => None,
            },
            ItemRef::DrillHole(id) => match self.find_dataset(id) {
                Some(i) => {
                    let t = &self.drill_holes[i];
                    Some(ItemStyle::DrillHole { loaded: t.state.loaded, color: t.color.copy() })
                },
                None => None,
            },
            ItemRef::PointCloud(id) => match self.find_point_cloud(id) {
                Some(i) => {
                    let t = &self.point_clouds[i];
                    Some(ItemStyle::PointCloud { loaded: t.state.loaded, color: t.color, point_size: t.point_size })
                },
                None => None,
            },
            ItemRef::Raster(id) => match self.find_raster(id) {
                Some(i) => Some(ItemStyle::Raster { loaded: self.raster_textures[i].state.loaded }),
                None => None,
            },
        }
    }
}

/// The edit changes how an item looks.
pub open spec fn restyles(edit: Edit, item: ItemRef, from: StyleModel, to: StyleModel) -> bool {
    match edit {
        Edit::SetItemStyle { item: i, before, after } => i == item && before@ == from && after@ == to,
        _ => false,
    }
}

/// What giving an item a style does: nothing where the item is gone or has the
/// style already.
pub open spec fn style_set(pre: App, item: ItemRef, to: StyleModel, post: App) -> bool {
    match style_of(pre.items, item) {
        Some(from) if !style_equal(from, to) => {
            &&& post == (App { steps: post.steps, ..pre })
            &&& post.steps@.len() == pre.steps@.len() + 1
            &&& post.steps@.drop_last() == pre.steps@
            &&& post.steps@.last().single()
            &&& restyles(post.steps@.last().edits@[0], item, from, to)
        },
        _ => post == pre,
    }
}

impl App {
    /// Gives an item a style.
    pub fn set_item_style(&mut self, item: ItemRef, style: ItemStyle)
        ensures
            style_set(*old(self), item, style@, *final(self)),
    {
        match self.items.item_style(item) {
            Some(before) => {
                if !before.same(&style) {
                    self.execute_edit(Edit::SetItemStyle { item, before, after: style });
                }
            },
            None => {},
        }
    }
}

impl ItemStyle {
    /// The style with the item loaded or not.
    pub fn with_loaded(self, now: bool) -> (r: ItemStyle)
        ensures
            r@ == with_loaded(self@, now),
    {
        match self {
            ItemStyle::Triangulation { visible, color, line_color, line_weight, raster_texture, raster_opacity, .. } => ItemStyle::Triangulation {
                loaded: now,
                visible,
                color,
                line_color,
                line_weight,
                raster_texture,
                raster_opacity,
            },
            ItemStyle::BlockModel { visible, color, slice, active_color_variable, color_transfers, hide_empty_color_values, .. } => ItemStyle::BlockModel {
                loaded: now,
                visible,
                color,
                slice,
                active_color_variable,
                color_transfers,
                hide_empty_color_values,
            },
            ItemStyle::DrillHole { color, .. } => ItemStyle::DrillHole { loaded: now, color },
            ItemStyle::PointCloud { color, point_size, .. } => ItemStyle::PointCloud { loaded: now, color, point_size },
            ItemStyle::Raster { .. } => ItemStyle::Raster { loaded: now },
        }
    }

    /// The style with the item shown or hidden, where it can be.
    pub fn with_visible(self, now: bool) -> (r: ItemStyle)
        ensures
            r@ == with_visible(self@, now),
    {
        match self {
            ItemStyle::Triangulation { loaded, color, line_color, line_weight, raster_texture, raster_opacity, .. } => ItemStyle::Triangulation {
                loaded,
                visible: now,
                color,
                line_color,
                line_weight,
                raster_texture,
                raster_opacity,
            },
            ItemStyle::BlockModel { loaded, color, slice, active_color_variable, color_transfers, hide_empty_color_values, .. } => ItemStyle::BlockModel {
                loaded,
                visible: now,
                color,
                slice,
                active_color_variable,
                color_transfers,
                hide_empty_color_values,
            },
            other => other,
        }
    }

    /// Whether the item is shown, where that can be told.
    pub fn visible(&self) -> (r: bool)
        ensures
            r == shown(self@),
    {
        match self {
            ItemStyle::Triangulation { visible, .. } => *visible,
            ItemStyle::BlockModel { visible, .. } => *visible,
            _ => true,
        }
    }

    /// The style with another colour, where it has one.
    pub fn with_color(self, now: Rgba) -> (r: ItemStyle)
        ensures
            r@ == with_color(self@, now),
    {
        match self {
            ItemStyle::Triangulation { loaded, visible, line_color, line_weight, raster_texture, raster_opacity, .. } => ItemStyle::Triangulation {
                loaded,
                visible,
                color: now,
                line_color,
                line_weight,
                raster_texture,
                raster_opacity,
            },
            ItemStyle::BlockModel { loaded, visible, slice, active_color_variable, color_transfers, hide_empty_color_values, .. } => ItemStyle::BlockModel {
                loaded,
                visible,
                color: now,
                slice,
                active_color_variable,
                color_transfers,
                hide_empty_color_values,
            },
            ItemStyle::PointCloud { loaded, point_size, .. } => ItemStyle::PointCloud { loaded, color: now, point_size },
            other => other,
        }
    }

    /// The style with a raster draped over the item, where that can be.
    pub fn with_raster_texture(self, now: Option<RasterTextureId>) -> (r: ItemStyle)
        ensures
            r@ == with_raster(self@, now),
    {
        match self {
            ItemStyle::Triangulation { loaded, visible, color, line_color, line_weight, raster_opacity, .. } => ItemStyle::Triangulation {
                loaded,
                visible,
                color,
                line_color,
                line_weight,
                raster_texture: now,
                raster_opacity,
            },
            other => other,
        }
    }

    /// The style with a part cut out of the item, where that can be.
    pub fn with_slice(self, now: Option<BlockModelSlice>) -> (r: ItemStyle)
        ensures
            r@ == with_slice(self@, now),
    {
        match self {
            ItemStyle::BlockModel { loaded, visible, color, active_color_variable, color_transfers, hide_empty_color_values, .. } => ItemStyle::BlockModel {
                loaded,
                visible,
                color,
                slice: now,
                active_color_variable,
                color_transfers,
                hide_empty_color_values,
            },
            other => other,
        }
    }

    /// The style that colours by another variable, where that can be.
    pub fn with_color_variable(self, now: String) -> (r: ItemStyle)
        ensures
            r@ == with_variable(self@, now@),
    {
        match self {
            ItemStyle::BlockModel { loaded, visible, color, slice, color_transfers, hide_empty_color_values, .. } => ItemStyle::BlockModel {
                loaded,
                visible,
                color,
                slice,
                active_color_variable: Some(now),
                color_transfers,
                hide_empty_color_values,
            },
            other => other,
        }
    }

    /// The style with other ramps, where it has any.
    pub fn with_color_transfers(self, now: Vec<ColorTransfer>) -> (r: ItemStyle)
        ensures
            r@ == with_transfers(self@, transfer_models(now@)),
    {
        match self {
            ItemStyle::BlockModel { loaded, visible, color, slice, active_color_variable, hide_empty_color_values, .. } => ItemStyle::BlockModel {
                loaded,
                visible,
                color,
                slice,
                active_color_variable,
                color_transfers: now,
                hide_empty_color_values,
            },
            other => other,
        }
    }
}

/// Hiding an item and showing it again gives it its style back.
pub proof fn law_visible_twice(style: StyleModel)
    ensures
        with_visible(with_visible(style, !shown(style)), shown(style)) == style,
{
}

} // verus!
