//! How each kind of item is taken in.

use crate::arrivals::{
    block_model_names, dataset_names, first_transfers, fresh_state, grown, items_drawn, new_state, point_cloud_added, raster_added,
    triangulation_names,
};
use crate::collars::epoch_after;
use crate::document::Rgba;
use crate::ids::{BlockModelId, DrillHoleId, RasterTextureId, TriangulationId};
use crate::intake::{
    find_raster_for, raster_for, take_id, taken_id, Arrival, ImportedBlockModel, ImportedDrillHoles, ImportedPointCloud, ImportedRaster,
    ImportedTriangulation, Intake,
};
use crate::items::{
    BlockModelSlice, ColorTransfer, Items, OpenBlockModel, OpenDrillHoleDataset, OpenPointCloud, OpenRasterTexture, OpenTriangulation,
};
use crate::loads::{fitted_if, LoadKind};
use crate::names::unique_name;
use crate::state::Frame;
use crate::text::text_of;
use vstd::prelude::*;

verus! {

/// The ids of the surfaces.
pub open spec fn triangulation_ids(s: Seq<OpenTriangulation>) -> Seq<u64> {
    s.map_values(|x: OpenTriangulation| x.id.0)
}

/// The ids of the rasters.
pub open spec fn raster_ids(s: Seq<OpenRasterTexture>) -> Seq<u64> {
    s.map_values(|x: OpenRasterTexture| x.id.0)
}

/// The ids of the block models.
pub open spec fn block_model_ids(s: Seq<OpenBlockModel>) -> Seq<u64> {
    s.map_values(|x: OpenBlockModel| x.id.0)
}

/// The ids of the datasets.
pub open spec fn dataset_ids(s: Seq<OpenDrillHoleDataset>) -> Seq<u64> {
    s.map_values(|x: OpenDrillHoleDataset| x.id.0)
}

/// The ids of the point clouds.
pub open spec fn point_cloud_ids(s: Seq<OpenPointCloud>) -> Seq<u64> {
    s.map_values(|x: OpenPointCloud| x.id.0)
}

impl Items {
    fn used_triangulation_ids(&self) -> (r: Vec<u64>)
        ensures
            r@ == triangulation_ids(self.triangulations@),
    {
        let mut ids: Vec<u64> = Vec::new();
        let mut i: usize = 0;
        while i < self.triangulations.len()
            invariant
                i <= self.triangulations.len(),
                ids@ == triangulation_ids(self.triangulations@).take(i as int),
            decreases self.triangulations.len() - i,
        {
            ids.push(self.triangulations[i].id.0);
            i += 1;
            assert(ids@ =~= triangulation_ids(self.triangulations@).take(i as int));
        }
        assert(ids@ =~= triangulation_ids(self.triangulations@));
        ids
    }

    fn used_raster_ids(&self) -> (r: Vec<u64>)
        ensures
            r@ == raster_ids(self.raster_textures@),
    {
        let mut ids: Vec<u64> = Vec::new();
        let mut i: usize = 0;
        while i < self.raster_textures.len()
            invariant
                i <= self.raster_textures.len(),
                ids@ == raster_ids(self.raster_textures@).take(i as int),
            decreases self.raster_textures.len() - i,
        {
            ids.push(self.raster_textures[i].id.0);
            i += 1;
            assert(ids@ =~= raster_ids(self.raster_textures@).take(i as int));
        }
        assert(ids@ =~= raster_ids(self.raster_textures@));
        ids
    }

    fn used_block_model_ids(&self) -> (r: Vec<u64>)
        ensures
            r@ == block_model_ids(self.block_models@),
    {
        let mut ids: Vec<u64> = Vec::new();
        let mut i: usize = 0;
        while i < self.block_models.len()
            invariant
                i <= self.block_models.len(),
                ids@ == block_model_ids(self.block_models@).take(i as int),
            decreases self.block_models.len() - i,
        {
            ids.push(self.block_models[i].id.0);
            i += 1;
            assert(ids@ =~= block_model_ids(self.block_models@).take(i as int));
        }
        assert(ids@ =~= block_model_ids(self.block_models@));
        ids
    }

    fn used_dataset_ids(&self) -> (r: Vec<u64>)
        ensures
            r@ == dataset_ids(self.drill_holes@),
    {
        let mut ids: Vec<u64> = Vec::new();
        let mut i: usize = 0;
        while i < self.drill_holes.len()
            invariant
                i <= self.drill_holes.len(),
                ids@ == dataset_ids(self.drill_holes@).take(i as int),
            decreases self.drill_holes.len() - i,
        {
            ids.push(self.drill_holes[i].id.0);
            i += 1;
            assert(ids@ =~= dataset_ids(self.drill_holes@).take(i as int));
        }
        assert(ids@ =~= dataset_ids(self.drill_holes@));
        ids
    }

    fn used_point_cloud_ids(&self) -> (r: Vec<u64>)
        ensures
            r@ == point_cloud_ids(self.point_clouds@),
    {
        let mut ids: Vec<u64> = Vec::new();
        let mut i: usize = 0;
        while i < self.point_clouds.len()
            invariant
                i <= self.point_clouds.len(),
                ids@ == point_cloud_ids(self.point_clouds@).take(i as int),
            decreases self.point_clouds.len() - i,
        {
            ids.push(self.point_clouds[i].id.0);
            i += 1;
            assert(ids@ =~= point_cloud_ids(self.point_clouds@).take(i as int));
        }
        assert(ids@ =~= point_cloud_ids(self.point_clouds@));
        ids
    }

}

/// One more id stands behind the others.
proof fn lemma_one_more(pre: Seq<u64>, post: Seq<u64>, id: u64)
    requires
        post == pre.push(id),
    ensures
        forall|x: u64| #[trigger] post.contains(x) ==> pre.contains(x) || x == id,
{
    assert forall|x: u64| #[trigger] post.contains(x) implies pre.contains(x) || x == id by {
        let i = choose|i: int| 0 <= i < post.len() && post[i] == x;
        if i < pre.len() {
            assert(pre[i] == x);
        }
    }
}

impl Intake {
    /// Counts one more change to the project's items.
    fn count(&mut self)
        ensures
            *final(self) == (Intake { revision: epoch_after(old(self).revision), ..*old(self) }),
    {
        self.revision = if self.revision < u64::MAX {
            self.revision + 1
        } else {
            0
        };
    }
}

impl Frame {
    /// The extents of the scene change with an item.
    fn note_item(&mut self, fit: bool, session: bool)
        ensures
            *final(self) == (if session {
                fitted_if(*old(self), fit).session().bounds()
            } else {
                fitted_if(*old(self), fit).bounds()
            }),
    {
        if fit {
            self.fit_view = true;
        }
        if session {
            self.session_stale = true;
        }
        self.bounds_stale = true;
        self.topology_stale = true;
        self.redraw_requested = true;
    }
}

impl OpenBlockModel {
    /// Gives a block model the look that came with it. Ramps that it has keep
    /// their place in front where it is loaded.
    fn dress(&mut self, color: Rgba, slice: Option<BlockModelSlice>, transfers: Vec<ColorTransfer>, hide_empty: bool, loaded: bool)
        ensures
            *final(self) == (OpenBlockModel {
                color,
                slice,
                hide_empty_color_values: hide_empty,
                color_transfers: final(self).color_transfers,
                ..*old(self)
            }),
            final(self).color_transfers@ == (if loaded {
                old(self).color_transfers@ + transfers@
            } else {
                transfers@
            }),
    {
        self.color = color;
        self.slice = slice;
        self.hide_empty_color_values = hide_empty;
        if loaded {
            let mut more = transfers;
            self.color_transfers.append(&mut more);
        } else {
            self.color_transfers = transfers;
        }
    }
}

impl Arrival for ImportedRaster {
    open spec fn taken_in(self, pre: Items, before: Intake, post: Items, then: Intake) -> bool {
        let (id, next) = taken_id(before.keep_ids, self.preferred_id, pre.next_raster_texture_id, raster_ids(pre.raster_textures@).to_set(), true);
        &&& raster_added(pre, self.loaded, fresh_state(self.source_name, self.source_format, self.is_loaded, self.deferred), id, post)
        &&& post.next_raster_texture_id == next
        &&& then == (Intake { revision: epoch_after(before.revision), frame: before.frame.redraw(), rasters: then.rasters, ..before })
        &&& then.rasters@ == match self.preferred_id {
            Some(w) => before.rasters@.push((w, RasterTextureId(id))),
            None => before.rasters@,
        }
    }

    open spec fn wish(self) -> Option<u64> {
        self.preferred_id
    }

    open spec fn kind() -> LoadKind {
        LoadKind::Raster
    }

    open spec fn counter(items: Items) -> u64 {
        items.next_raster_texture_id
    }

    open spec fn ids(items: Items) -> Seq<u64> {
        raster_ids(items.raster_textures@)
    }

    fn take_in(self, items: &mut Items, intake: &mut Intake) {
        let used = items.used_raster_ids();
        assert(used@ == Self::ids(*items));
        let mut next: u64 = items.next_raster_texture_id;
        let id: u64 = take_id(intake.keep_ids, self.preferred_id, &mut next, &used, true);
        let wish = self.preferred_id;
        let state = new_state(self.source_name, self.source_format, self.is_loaded, self.deferred);
        items.add_raster(self.loaded, state, id);
        items.next_raster_texture_id = next;
        intake.count();
        intake.frame.redraw_requested = true;
        match wish {
            Some(w) => intake.rasters.push((w, RasterTextureId(id))),
            None => {},
        }
        proof {
            let a = raster_ids(old(items).raster_textures@);
            let b = raster_ids(items.raster_textures@);
            assert(items.raster_textures@ =~= items.raster_textures@.drop_last().push(items.raster_textures@.last()));
            assert(b =~= a.push(id));
            lemma_one_more(a, b, id);
        }
    }
}

impl Arrival for ImportedTriangulation {
    open spec fn taken_in(self, pre: Items, before: Intake, post: Items, then: Intake) -> bool {
        let (id, next) = taken_id(before.keep_ids, self.preferred_id, pre.next_triangulation_id, triangulation_ids(pre.triangulations@).to_set(), false);
        let t = post.triangulations@.last();
        &&& post == (Items { triangulations: post.triangulations, next_triangulation_id: next, ..pre })
        &&& grown(pre.triangulations@, post.triangulations@)
        &&& t == (OpenTriangulation {
            id: TriangulationId(id),
            state: fresh_state(self.source_name, self.source_format, self.is_loaded, self.deferred),
            name: t.name,
            mesh: self.loaded.mesh,
            visible: true,
            color: self.color,
            line_color: self.line_color,
            line_weight: self.line_weight,
            bounds: self.loaded.bounds,
            raster_texture: match self.raster_texture_id {
                Some(r) => raster_for(before.rasters@, r),
                None => None,
            },
            raster_opacity: self.raster_opacity,
        })
        &&& t.name@ == unique_name(triangulation_names(pre.triangulations@), self.loaded.name@)
        &&& then == (Intake {
            revision: epoch_after(before.revision),
            active: if before.active is None && (self.is_loaded || !before.keep_ids) {
                Some(TriangulationId(id))
            } else {
                before.active
            },
            ..before
        })
    }

    open spec fn wish(self) -> Option<u64> {
        self.preferred_id
    }

    open spec fn kind() -> LoadKind {
        LoadKind::Triangulation
    }

    open spec fn counter(items: Items) -> u64 {
        items.next_triangulation_id
    }

    open spec fn ids(items: Items) -> Seq<u64> {
        triangulation_ids(items.triangulations@)
    }

    fn take_in(self, items: &mut Items, intake: &mut Intake) {
        let used = items.used_triangulation_ids();
        assert(used@ == Self::ids(*items));
        let mut next: u64 = items.next_triangulation_id;
        let id: u64 = take_id(intake.keep_ids, self.preferred_id, &mut next, &used, false);
        let draped: Option<RasterTextureId> = match self.raster_texture_id {
            Some(r) => find_raster_for(&intake.rasters, r),
            None => None,
        };
        let shown = self.is_loaded;
        let state = new_state(self.source_name, self.source_format, self.is_loaded, self.deferred);
        items.add_triangulation(self.loaded, state, id);
        items.next_triangulation_id = next;
        let ghost added = items.triangulations@;
        let last: usize = items.triangulations.len() - 1;
        items.triangulations[last].color = self.color;
        items.triangulations[last].line_color = self.line_color;
        items.triangulations[last].line_weight = self.line_weight;
        items.triangulations[last].raster_texture = draped;
        items.triangulations[last].raster_opacity = self.raster_opacity;
        intake.count();
        if intake.active.is_none() && (shown || !intake.keep_ids) {
            intake.active = Some(TriangulationId(id));
        }
        proof {
            let a = triangulation_ids(old(items).triangulations@);
            let b = triangulation_ids(items.triangulations@);
            assert(items.triangulations@.drop_last() =~= added.drop_last());
            assert(added =~= added.drop_last().push(added.last()));
            assert(b =~= a.push(id));
            lemma_one_more(a, b, id);
        }
    }
}

impl Arrival for ImportedBlockModel {
    open spec fn taken_in(self, pre: Items, before: Intake, post: Items, then: Intake) -> bool {
        let (id, next) = taken_id(before.keep_ids, self.preferred_id, pre.next_block_model_id, block_model_ids(pre.block_models@).to_set(), true);
        let t = post.block_models@.last();
        &&& post == (Items { block_models: post.block_models, next_block_model_id: next, ..pre })
        &&& grown(pre.block_models@, post.block_models@)
        &&& t == (OpenBlockModel {
            id: BlockModelId(id),
            state: fresh_state(self.source_name, self.source_format, self.is_loaded, self.deferred),
            name: t.name,
            blocks: self.loaded.blocks,
            visible: true,
            color: self.color,
            slice: self.slice,
            local_bounds: self.loaded.local_bounds,
            active_color_variable: self.loaded.active_color_variable,
            color_transfers: t.color_transfers,
            hide_empty_color_values: self.hide_empty_color_values,
            decoded: t.decoded,
        })
        &&& text_of(t.decoded) == text_of(self.loaded.active_color_variable)
        &&& if self.is_loaded {
            exists|first: Seq<ColorTransfer>| #[trigger] first_transfers(self.loaded, first) && t.color_transfers@ == first + self.color_transfers@
        } else {
            t.color_transfers@ == self.color_transfers@
        }
        &&& t.name@ == unique_name(block_model_names(pre.block_models@), self.loaded.name@)
        &&& then == (Intake {
            revision: epoch_after(before.revision),
            frame: fitted_if(before.frame, !(before.scene_drawn || items_drawn(pre))).session().bounds(),
            ..before
        })
    }

    open spec fn wish(self) -> Option<u64> {
        self.preferred_id
    }

    open spec fn kind() -> LoadKind {
        LoadKind::BlockModel
    }

    open spec fn counter(items: Items) -> u64 {
        items.next_block_model_id
    }

    open spec fn ids(items: Items) -> Seq<u64> {
        block_model_ids(items.block_models@)
    }

    fn take_in(self, items: &mut Items, intake: &mut Intake) {
        let used = items.used_block_model_ids();
        assert(used@ == Self::ids(*items));
        let mut next: u64 = items.next_block_model_id;
        let id: u64 = take_id(intake.keep_ids, self.preferred_id, &mut next, &used, true);
        let fit = !(intake.scene_drawn || items.any_drawn());
        let shown = self.is_loaded;
        let state = new_state(self.source_name, self.source_format, self.is_loaded, self.deferred);
        items.add_block_model(self.loaded, state, id);
        items.next_block_model_id = next;
        let ghost added = items.block_models@;
        let last: usize = items.block_models.len() - 1;
        let ghost first = added.last().color_transfers@;
        assert(first_transfers(self.loaded, first));
        items.block_models[last].dress(self.color, self.slice, self.color_transfers, self.hide_empty_color_values, shown);
        intake.count();
        intake.frame.note_item(fit, true);
        proof {
            let a = block_model_ids(old(items).block_models@);
            let b = block_model_ids(items.block_models@);
            assert(items.block_models@.drop_last() =~= added.drop_last());
            assert(added =~= added.drop_last().push(added.last()));
            assert(b =~= a.push(id));
            lemma_one_more(a, b, id);
        }
    }
}

impl Arrival for ImportedDrillHoles {
    open spec fn taken_in(self, pre: Items, before: Intake, post: Items, then: Intake) -> bool {
        let (id, next) = taken_id(before.keep_ids, self.preferred_id, pre.next_drill_hole_id, dataset_ids(pre.drill_holes@).to_set(), true);
        let t = post.drill_holes@.last();
        &&& post == (Items { drill_holes: post.drill_holes, next_drill_hole_id: next, ..pre })
        &&& grown(pre.drill_holes@, post.drill_holes@)
        &&& t == (OpenDrillHoleDataset {
            id: DrillHoleId(id),
            state: fresh_state(self.source_name, self.source_format, self.is_loaded, self.deferred),
            name: t.name,
            visible: true,
            holes: self.loaded.holes,
            fields: self.loaded.fields,
            bounds: self.loaded.bounds,
            color: self.color,
            tie_ins: self.loaded.tie_ins,
            initiations: self.loaded.initiations,
        })
        &&& t.name@ == unique_name(dataset_names(pre.drill_holes@), self.loaded.name@)
        &&& then == (Intake { revision: epoch_after(before.revision), frame: before.frame.session().bounds(), ..before })
    }

    open spec fn wish(self) -> Option<u64> {
        self.preferred_id
    }

    open spec fn kind() -> LoadKind {
        LoadKind::DrillHoles
    }

    open spec fn counter(items: Items) -> u64 {
        items.next_drill_hole_id
    }

    open spec fn ids(items: Items) -> Seq<u64> {
        dataset_ids(items.drill_holes@)
    }

    fn take_in(self, items: &mut Items, intake: &mut Intake) {
        let used = items.used_dataset_ids();
        assert(used@ == Self::ids(*items));
        let mut next: u64 = items.next_drill_hole_id;
        let id: u64 = take_id(intake.keep_ids, self.preferred_id, &mut next, &used, true);
        let state = new_state(self.source_name, self.source_format, self.is_loaded, self.deferred);
        items.add_drill_holes(self.loaded, state, id);
        items.next_drill_hole_id = next;
        let ghost added = items.drill_holes@;
        let last: usize = items.drill_holes.len() - 1;
        items.drill_holes[last].color = self.color;
        intake.count();
        intake.frame.note_item(false, true);
        proof {
            let a = dataset_ids(old(items).drill_holes@);
            let b = dataset_ids(items.drill_holes@);
            assert(items.drill_holes@.drop_last() =~= added.drop_last());
            assert(added =~= added.drop_last().push(added.last()));
            assert(b =~= a.push(id));
            lemma_one_more(a, b, id);
        }
    }
}

impl Arrival for ImportedPointCloud {
    open spec fn taken_in(self, pre: Items, before: Intake, post: Items, then: Intake) -> bool {
        let (id, next) = taken_id(before.keep_ids, self.preferred_id, pre.next_point_cloud_id, point_cloud_ids(pre.point_clouds@).to_set(), true);
        &&& point_cloud_added(
            pre,
            self.loaded,
            fresh_state(self.source_name, self.source_format, self.is_loaded, self.deferred),
            self.color,
            self.point_size,
            id,
            post,
        )
        &&& post.next_point_cloud_id == next
        &&& then == (Intake { revision: epoch_after(before.revision), frame: before.frame.bounds(), ..before })
    }

    open spec fn wish(self) -> Option<u64> {
        self.preferred_id
    }

    open spec fn kind() -> LoadKind {
        LoadKind::PointCloud
    }

    open spec fn counter(items: Items) -> u64 {
        items.next_point_cloud_id
    }

    open spec fn ids(items: Items) -> Seq<u64> {
        point_cloud_ids(items.point_clouds@)
    }

    fn take_in(self, items: &mut Items, intake: &mut Intake) {
        let used = items.used_point_cloud_ids();
        assert(used@ == Self::ids(*items));
        let mut next: u64 = items.next_point_cloud_id;
        let id: u64 = take_id(intake.keep_ids, self.preferred_id, &mut next, &used, true);
        let state = new_state(self.source_name, self.source_format, self.is_loaded, self.deferred);
        items.add_point_cloud(self.loaded, state, self.color, self.point_size, id);
        items.next_point_cloud_id = next;
        intake.count();
        intake.frame.note_item(false, false);
        proof {
            let a = point_cloud_ids(old(items).point_clouds@);
            let b = point_cloud_ids(items.point_clouds@);
            assert(items.point_clouds@ =~= items.point_clouds@.drop_last().push(items.point_clouds@.last()));
            assert(b =~= a.push(id));
            lemma_one_more(a, b, id);
        }
    }
}

} // verus!
