//! Surfaces and their pictures, the sections of the explorer, and preferences.

use crate::arrivals::{triangulation_names, LoadedTriangulation};
use crate::commands::section::{
    design_edits, entities_in, items_in, items_to_switch, layers_to_switch, section_locked, section_switched, ExplorerSection,
};
use crate::commands::surfaces::{
    draped, draped_with, drapes_set, drapes_to_change, lies_over, overlapping, raster_draped, raster_removed, surface_activated, surface_closed,
    surface_colored, surface_inserted, surface_removed, surface_visibility_toggled, ExtentOnRaster,
};
use crate::commands::view::{clamped_number, preferences_applied, CameraDefaults, Preferences};
use crate::document::{Layer, Rgba};
use crate::edit::Edit;
use crate::error::AppError;
use crate::ids::{ItemRef, ObjectId, RasterTextureId, SceneEntityId, TriangulationId};
use crate::ieee::{f32_finite, f32_less, f64_at_most};
use crate::items::{raster_index, triangulation_index, Items, OpenRasterTexture, OpenTriangulation};
use crate::laws::items::name_is_new;
use crate::laws::lookup::keeps_steps;
use crate::laws::models::restyled;
use crate::state::App;
use crate::styles::{style_equal, style_of, with_loaded, with_raster, StyleModel};
use crate::workspace::OpenProject;
use vstd::prelude::*;

verus! {

/// The style is that of a surface, but for what is told of it.
pub open spec fn surface_looks(style: StyleModel, t: OpenTriangulation, visible: bool, color: Rgba, raster: Option<RasterTextureId>) -> bool {
    style == (StyleModel::Triangulation {
        loaded: t.state.loaded,
        visible,
        color,
        line_color: t.line_color,
        line_weight: t.line_weight,
        raster_texture: raster,
        raster_opacity: t.raster_opacity,
    })
}

/// Choosing a surface selects it alone and makes it the active one; choosing
/// the active one again lets it go.
pub proof fn law_choosing_a_surface(pre: App, id: TriangulationId, post: App, h: SceneEntityId)
    requires
        surface_activated(pre, id, post),
        triangulation_index(pre.items.triangulations@, id) < pre.items.triangulations@.len(),
    ensures
        ({
            let own = SceneEntityId::Triangulation(id);
            let again = pre.canvas.active_triangulation == Some(id) && pre.selection.handles@.contains(own);
            &&& again ==> post.canvas.active_triangulation is None && (post.selection.handles@.contains(h) <==> pre.selection.handles@.contains(h) && h != own)
            &&& !again ==> post.canvas.active_triangulation == Some(id) && (post.selection.handles@.contains(h) <==> h == own)
        }),
        post.items == pre.items && post.steps == pre.steps,
{
}

/// Showing a surface turns its visibility over; one that was hidden by hand is
/// shown, whatever its style said.
pub proof fn law_surface_visibility_turns_over(pre: App, id: TriangulationId, post: App, i: int)
    requires
        surface_visibility_toggled(pre, id, post),
        i == triangulation_index(pre.items.triangulations@, id),
        0 <= i < pre.items.triangulations@.len(),
    ensures
        ({
            let t = pre.items.triangulations@[i];
            let own = SceneEntityId::Triangulation(id);
            let hidden = pre.visibility.hidden@.contains(own);
            &&& !hidden ==> (restyled(pre, post, ItemRef::Triangulation(id)) matches Some(s) && surface_looks(s, t, !t.visible, t.color, t.raster_texture))
            &&& hidden ==> !post.visibility.hidden@.contains(own) && (restyled(pre, post, ItemRef::Triangulation(id)) matches Some(s) ==> surface_looks(
                s,
                t,
                true,
                t.color,
                t.raster_texture,
            ))
            &&& !t.visible ==> !post.visibility.hidden@.contains(own)
        }),
        forall|h: SceneEntityId|
            h != SceneEntityId::Triangulation(id) ==> (#[trigger] post.visibility.hidden@.contains(h) <==> pre.visibility.hidden@.contains(h)),
        post.items == pre.items && post.selection == pre.selection,
{
}

/// Colouring a surface gives it that colour and nothing else.
pub proof fn law_surface_gets_its_colour(pre: App, id: TriangulationId, color: Rgba, post: App, i: int)
    requires
        surface_colored(pre, id, color, post),
        i == triangulation_index(pre.items.triangulations@, id),
        0 <= i < pre.items.triangulations@.len(),
    ensures
        post.steps@.len() == pre.steps@.len() || restyled(pre, post, ItemRef::Triangulation(id)) is Some,
        restyled(pre, post, ItemRef::Triangulation(id)) matches Some(s) ==> ({
            let t = pre.items.triangulations@[i];
            surface_looks(s, t, t.visible, color, t.raster_texture)
        }),
        post.items == pre.items && post.selection == pre.selection,
{
}

/// Closing a surface unloads it and no other; removing it is a step that
/// deletes it. Either way it is not selected, active or hidden any more, and no
/// dialog speaks of it.
pub proof fn law_closing_and_removing_surfaces(pre: App, id: TriangulationId, closed: App, removed: App, i: int, k: int, h: SceneEntityId)
    requires
        surface_closed(pre, id, closed),
        surface_removed(pre, id, removed),
        i == triangulation_index(pre.items.triangulations@, id),
        0 <= i < pre.items.triangulations@.len(),
        0 <= k < pre.items.triangulations@.len(),
    ensures
        closed.items.triangulations@.len() == pre.items.triangulations@.len(),
        !closed.items.triangulations@[i].state.loaded,
        closed.items.triangulations@[i].mesh == pre.items.triangulations@[i].mesh && closed.items.triangulations@[i].state.epoch
            == pre.items.triangulations@[i].state.epoch,
        k != i ==> closed.items.triangulations@[k] == pre.items.triangulations@[k],
        closed.steps == pre.steps,
        keeps_steps(pre, removed) && removed.steps@.len() == pre.steps@.len() + 1 && removed.steps@.last().edits@.len() == 1 && removed.steps@.last().edits@[0] == Edit::DeleteItem(
            ItemRef::Triangulation(id),
        ),
        removed.items == pre.items,
        closed.selection.handles@.contains(h) <==> pre.selection.handles@.contains(h) && h != SceneEntityId::Triangulation(id),
        removed.selection.handles@.contains(h) <==> pre.selection.handles@.contains(h) && h != SceneEntityId::Triangulation(id),
        removed.visibility.hidden@.contains(h) <==> pre.visibility.hidden@.contains(h) && h != SceneEntityId::Triangulation(id),
        removed.visibility.frozen@.contains(h) <==> pre.visibility.frozen@.contains(h) && h != SceneEntityId::Triangulation(id),
        removed.visibility.explicitly_frozen@.contains(h) <==> pre.visibility.explicitly_frozen@.contains(h) && h != SceneEntityId::Triangulation(id),
        removed.visibility.translucent@.contains(h) <==> pre.visibility.translucent@.contains(h) && h != SceneEntityId::Triangulation(id),
        removed.canvas.active_triangulation != Some(id),
        pre.canvas.active_triangulation != Some(id) ==> removed.canvas.active_triangulation == pre.canvas.active_triangulation,
        removed.surfaces.clip.surface != Some(id) && removed.surfaces.slice.surface != Some(id) && removed.surfaces.contour.surface != Some(id),
        removed.surfaces.trim.topology != Some(id) && removed.surfaces.trim.other != Some(id),
        removed.surfaces.cut_pit.topology != Some(id) && removed.surfaces.cut_pit.other != Some(id),
        removed.surfaces.with_shell.topology != Some(id) && removed.surfaces.with_shell.other != Some(id),
        pre.surfaces.clip.surface != Some(id) ==> removed.surfaces.clip == pre.surfaces.clip,
        pre.surfaces.trim.topology != Some(id) && pre.surfaces.trim.other != Some(id) ==> removed.surfaces.trim == pre.surfaces.trim,
{
}

/// A surface that was computed is added with its mesh under a free name, loaded
/// and shown, and is the one that is active and selected then.
pub proof fn law_computed_surface_is_added(pre: App, built: LoadedTriangulation, post: App, h: SceneEntityId)
    requires
        surface_inserted(pre, built, post),
    ensures
        ({
            let t = post.items.triangulations@.last();
            &&& post.items.triangulations@.len() == pre.items.triangulations@.len() + 1 && post.items.triangulations@.drop_last() == pre.items.triangulations@
            &&& t.id == TriangulationId(pre.items.next_triangulation_id) && t.mesh == built.mesh && t.bounds == built.bounds && t.visible && t.state.loaded
            &&& name_is_new(triangulation_names(pre.items.triangulations@), built.name@, t.name@)
            &&& post.canvas.active_triangulation == Some(t.id)
            &&& post.selection.handles@.contains(h) <==> h == SceneEntityId::Triangulation(t.id)
        }),
        post.steps == pre.steps,
{
    crate::laws::items::law_names_are_numbered(triangulation_names(pre.items.triangulations@), built.name@);
}

proof fn lemma_drapes(items: Items, list: Seq<TriangulationId>, raster: Option<RasterTextureId>)
    ensures
        forall|k: int|
            0 <= k < drapes_to_change(items, list, raster).len() ==> list.contains(#[trigger] drapes_to_change(items, list, raster)[k]) && (style_of(
                items,
                ItemRef::Triangulation(drapes_to_change(items, list, raster)[k]),
            ) is Some),
        forall|j: int|
            0 <= j < list.len() && (style_of(items, ItemRef::Triangulation(#[trigger] list[j])) matches Some(s) && !style_equal(s, with_raster(s, raster)))
                ==> drapes_to_change(items, list, raster).contains(list[j]),
    decreases list.len(),
{
    if list.len() > 0 {
        let front = list.drop_last();
        lemma_drapes(items, front, raster);
        let (before, all) = (drapes_to_change(items, front, raster), drapes_to_change(items, list, raster));
        assert(list[list.len() - 1] == list.last());
        assert forall|k: int| 0 <= k < all.len() implies list.contains(#[trigger] all[k]) && (style_of(items, ItemRef::Triangulation(all[k])) is Some) by {
            if k < before.len() {
                assert(all[k] == before[k]);
                assert(front.contains(before[k]));
                let j = choose|j: int| 0 <= j < front.len() && front[j] == before[k];
                assert(list[j] == before[k]);
            }
        }
        assert forall|j: int|
            0 <= j < list.len() && (style_of(items, ItemRef::Triangulation(#[trigger] list[j])) matches Some(s) && !style_equal(s, with_raster(s, raster))) implies all.contains(
            list[j],
        ) by {
            if j < front.len() {
                assert(front[j] == list[j]);
                assert(before.contains(list[j]));
                let m = choose|m: int| 0 <= m < before.len() && before[m] == list[j];
                assert(all[m] == list[j]);
            } else {
                assert(all[all.len() - 1] == list[j]);
            }
        }
    }
}

/// Draping surfaces changes the picture of each that has another one, and only
/// the picture, and leaves the others.
pub proof fn law_draping_pictures(pre: App, list: Seq<TriangulationId>, raster: Option<RasterTextureId>, r: int, post: App, j: int, e: int)
    requires
        drapes_set(pre, list, raster, r, post),
        0 <= j < list.len(),
        post.steps@.len() > pre.steps@.len() ==> 0 <= e < post.steps@.last().edits@.len(),
    ensures
        ({
            let i = triangulation_index(pre.items.triangulations@, list[j]);
            i < pre.items.triangulations@.len() && pre.items.triangulations@[i].raster_texture != raster ==> keeps_steps(pre, post) && post.steps@.len() == pre.steps@.len() + 1 && exists|x: int|
                0 <= x < post.steps@.last().edits@.len() && (#[trigger] post.steps@.last().edits@[x] matches Edit::SetItemStyle { item, before, after } && item
                    == ItemRef::Triangulation(list[j]) && surface_looks(
                    after@,
                    pre.items.triangulations@[i],
                    pre.items.triangulations@[i].visible,
                    pre.items.triangulations@[i].color,
                    raster,
                ))
        }),
        post.steps@.len() > pre.steps@.len() ==> (post.steps@.last().edits@[e] matches Edit::SetItemStyle { item, before, after } && (item matches ItemRef::Triangulation(
            id,
        ) && list.contains(id) && after@ is Triangulation && after@->Triangulation_raster_texture == raster && Some(before@) == style_of(pre.items, item))),
        post.steps@.len() > pre.steps@.len() ==> r == post.steps@.last().edits@.len() && post.steps@.last().batch && !post.steps@.last().applied,
        post.steps@.len() == pre.steps@.len() ==> r == 0,
        post.items == pre.items && post.selection == pre.selection,
{
    lemma_drapes(pre.items, list, raster);
    let changed = drapes_to_change(pre.items, list, raster);
    let edits = choose|edits: Seq<Edit>|
        {
            &&& crate::commands::surfaces::drape_edits(pre.items, changed, raster, edits)
            &&& #[trigger] crate::commands::section::batch_handed(pre.steps@, edits, post.steps@)
        };
    let i = triangulation_index(pre.items.triangulations@, list[j]);
    crate::search::lemma_first_index(pre.items.triangulations@, |t: OpenTriangulation| t.id == list[j]);
    if i < pre.items.triangulations@.len() && pre.items.triangulations@[i].raster_texture != raster {
        assert(style_of(pre.items, ItemRef::Triangulation(list[j])) is Some);
        assert(changed.contains(list[j]));
        let x = choose|x: int| 0 <= x < changed.len() && changed[x] == list[j];
        assert(crate::commands::surfaces::drapes(pre.items, edits[x], changed[x], raster));
        assert(post.steps@.last().edits@[x] == edits[x]);
    }
    if post.steps@.len() > pre.steps@.len() {
        assert(edits.len() > 0);
        assert(crate::commands::surfaces::drapes(pre.items, edits[e], changed[e], raster));
    }
}

/// A surface lies over a picture where its extent reaches into it both ways.
pub proof fn law_lying_over_a_picture(e: ExtentOnRaster)
    ensures
        lies_over(e) <==> {
            &&& exists|i: int| 0 <= i < e.across@.len() && f64_at_most(#[trigger] e.across@[i], 0x3ff0_0000_0000_0000)
            &&& exists|i: int| 0 <= i < e.across@.len() && f64_at_most(0, #[trigger] e.across@[i])
            &&& exists|i: int| 0 <= i < e.down@.len() && f64_at_most(#[trigger] e.down@[i], 0x3ff0_0000_0000_0000)
            &&& exists|i: int| 0 <= i < e.down@.len() && f64_at_most(0, #[trigger] e.down@[i])
        },
{
}

/// The surfaces under a picture are those that lie over it, in their order.
pub proof fn law_surfaces_under_a_picture(s: Seq<OpenTriangulation>, told: Seq<ExtentOnRaster>, n: int)
    requires
        0 <= n < s.len(),
        n < told.len(),
    ensures
        overlapping(s, told, 0) == Seq::<TriangulationId>::empty(),
        overlapping(s, told, n + 1) == if lies_over(told[n]) {
            overlapping(s, told, n).push(s[n].id)
        } else {
            overlapping(s, told, n)
        },
{
}

/// The surfaces that carry a picture are found: those with that one, and those
/// with any.
pub proof fn law_surfaces_with_a_picture(s: Seq<OpenTriangulation>, raster: RasterTextureId, k: int)
    requires
        0 <= k < s.len(),
    ensures
        s[k].raster_texture == Some(raster) ==> draped_with(s, raster).contains(s[k].id),
        s[k].raster_texture is Some ==> draped(s).contains(s[k].id),
        (forall|j: int| 0 <= j < s.len() ==> (#[trigger] s[j]).raster_texture != Some(raster)) ==> draped_with(s, raster).len() == 0,
        (forall|j: int| 0 <= j < s.len() ==> (#[trigger] s[j]).raster_texture is None) ==> draped(s).len() == 0,
{
    lemma_draped(s, raster);
    lemma_draped_at(s, raster, k);
}

proof fn lemma_draped_at(s: Seq<OpenTriangulation>, raster: RasterTextureId, k: int)
    requires
        0 <= k < s.len(),
    ensures
        s[k].raster_texture == Some(raster) ==> draped_with(s, raster).contains(s[k].id),
        s[k].raster_texture is Some ==> draped(s).contains(s[k].id),
    decreases s.len(),
{
    let front = s.drop_last();
    let (one, any) = (draped_with(s, raster), draped(s));
    let (one_before, any_before) = (draped_with(front, raster), draped(front));
    if k < front.len() {
        lemma_draped_at(front, raster, k);
        if s[k].raster_texture == Some(raster) {
            let i = choose|i: int| 0 <= i < one_before.len() && one_before[i] == s[k].id;
            assert(one[i] == s[k].id);
        }
        if s[k].raster_texture is Some {
            let i = choose|i: int| 0 <= i < any_before.len() && any_before[i] == s[k].id;
            assert(any[i] == s[k].id);
        }
    } else {
        if s[k].raster_texture == Some(raster) {
            assert(one[one.len() - 1] == s[k].id);
        }
        if s[k].raster_texture is Some {
            assert(any[any.len() - 1] == s[k].id);
        }
    }
}

proof fn lemma_draped(s: Seq<OpenTriangulation>, raster: RasterTextureId)
    ensures
        (forall|j: int| 0 <= j < s.len() ==> (#[trigger] s[j]).raster_texture != Some(raster)) ==> draped_with(s, raster).len() == 0,
        (forall|j: int| 0 <= j < s.len() ==> (#[trigger] s[j]).raster_texture is None) ==> draped(s).len() == 0,
    decreases s.len(),
{
    if s.len() > 0 {
        let front = s.drop_last();
        lemma_draped(front, raster);
        if forall|j: int| 0 <= j < s.len() ==> (#[trigger] s[j]).raster_texture != Some(raster) {
            assert(forall|j: int| 0 <= j < front.len() ==> #[trigger] front[j] == s[j]);
            assert(s[s.len() - 1].raster_texture != Some(raster));
        }
        if forall|j: int| 0 <= j < s.len() ==> (#[trigger] s[j]).raster_texture is None {
            assert(forall|j: int| 0 <= j < front.len() ==> #[trigger] front[j] == s[j]);
            assert(s[s.len() - 1].raster_texture is None);
        }
    }
}

/// A picture is draped where it is there and a surface lies over it.
pub proof fn law_when_a_picture_is_draped(pre: App, id: RasterTextureId, told: Seq<ExtentOnRaster>, r: Result<(), AppError>, post: App)
    requires
        raster_draped(pre, id, told, r, post),
    ensures
        ({
            let s = pre.items.triangulations@;
            let there = raster_index(pre.items.raster_textures@, id) < pre.items.raster_textures@.len();
            &&& r is Ok <==> there && overlapping(s, told, s.len() as int).len() > 0
            &&& !there ==> r == Err::<(), AppError>(AppError::RasterNotFound)
            &&& r is Err ==> post == pre
        }),
{
}

/// Removing a picture is one step: it is taken off the surfaces that carry it
/// and then deleted.
pub proof fn law_removing_a_picture(pre: App, id: RasterTextureId, post: App, k: int)
    requires
        raster_removed(pre, id, post),
        raster_index(pre.items.raster_textures@, id) < pre.items.raster_textures@.len(),
        0 <= k < post.steps@.last().edits@.len() - 1,
    ensures
        keeps_steps(pre, post) && post.steps@.len() == pre.steps@.len() + 1,
        post.steps@.last().edits@.last() == Edit::DeleteItem(ItemRef::Raster(id)),
        post.steps@.last().edits@[k] matches Edit::SetItemStyle { item, before, after } && (item matches ItemRef::Triangulation(t) && draped_with(
            pre.items.triangulations@,
            id,
        ).contains(t) && after@ is Triangulation && after@->Triangulation_raster_texture is None),
{
    let list = draped_with(pre.items.triangulations@, id);
    lemma_drapes(pre.items, list, None);
    let changed = drapes_to_change(pre.items, list, None);
    let edits = post.steps@.last().edits@.drop_last();
    assert(crate::commands::surfaces::drapes(pre.items, edits[k], changed[k], None));
    assert(edits[k] == post.steps@.last().edits@[k]);
}

/// The items of a section are those of its kind; designs and pictures have no
/// handle on the canvas there.
pub proof fn law_items_of_a_section(items: Items, section: ExplorerSection, k: int)
    ensures
        section == ExplorerSection::Triangulations && 0 <= k < items.triangulations@.len() ==> items_in(items, section)[k] == ItemRef::Triangulation(
            items.triangulations@[k].id,
        ) && entities_in(items, section)[k] == SceneEntityId::Triangulation(items.triangulations@[k].id),
        section == ExplorerSection::BlockModels && 0 <= k < items.block_models@.len() ==> items_in(items, section)[k] == ItemRef::BlockModel(
            items.block_models@[k].id,
        ) && entities_in(items, section)[k] == SceneEntityId::BlockModel(items.block_models@[k].id),
        section == ExplorerSection::DrillHoles && 0 <= k < items.drill_holes@.len() ==> items_in(items, section)[k] == ItemRef::DrillHole(
            items.drill_holes@[k].id,
        ) && entities_in(items, section)[k] == SceneEntityId::DrillHole(items.drill_holes@[k].id),
        section == ExplorerSection::PointClouds && 0 <= k < items.point_clouds@.len() ==> items_in(items, section)[k] == ItemRef::PointCloud(
            items.point_clouds@[k].id,
        ) && entities_in(items, section)[k] == SceneEntityId::PointCloud(items.point_clouds@[k].id),
        section == ExplorerSection::Rasters && 0 <= k < items.raster_textures@.len() ==> items_in(items, section)[k] == ItemRef::Raster(
            items.raster_textures@[k].id,
        ),
        section == ExplorerSection::Rasters || section == ExplorerSection::Designs ==> entities_in(items, section).len() == 0,
        section == ExplorerSection::Triangulations ==> items_in(items, section).len() == items.triangulations@.len() && entities_in(items, section).len()
            == items.triangulations@.len(),
        section == ExplorerSection::BlockModels ==> items_in(items, section).len() == items.block_models@.len() && entities_in(items, section).len()
            == items.block_models@.len(),
        section == ExplorerSection::DrillHoles ==> items_in(items, section).len() == items.drill_holes@.len() && entities_in(items, section).len()
            == items.drill_holes@.len(),
        section == ExplorerSection::PointClouds ==> items_in(items, section).len() == items.point_clouds@.len() && entities_in(items, section).len()
            == items.point_clouds@.len(),
        section == ExplorerSection::Rasters ==> items_in(items, section).len() == items.raster_textures@.len(),
{
}

proof fn lemma_items_switched(items: Items, list: Seq<ItemRef>, visible: bool)
    ensures
        forall|k: int|
            0 <= k < items_to_switch(items, list, visible).len() ==> list.contains(#[trigger] items_to_switch(items, list, visible)[k]) && style_of(
                items,
                items_to_switch(items, list, visible)[k],
            ) is Some,
        forall|j: int|
            0 <= j < list.len() && (style_of(items, #[trigger] list[j]) matches Some(s) && !style_equal(s, with_loaded(s, visible))) ==> items_to_switch(
                items,
                list,
                visible,
            ).contains(list[j]),
    decreases list.len(),
{
    if list.len() > 0 {
        let front = list.drop_last();
        lemma_items_switched(items, front, visible);
        let (before, all) = (items_to_switch(items, front, visible), items_to_switch(items, list, visible));
        assert(list[list.len() - 1] == list.last());
        assert forall|k: int| 0 <= k < all.len() implies list.contains(#[trigger] all[k]) && style_of(items, all[k]) is Some by {
            if k < before.len() {
                assert(all[k] == before[k]);
                assert(front.contains(before[k]));
                let j = choose|j: int| 0 <= j < front.len() && front[j] == before[k];
                assert(list[j] == before[k]);
            }
        }
        assert forall|j: int|
            0 <= j < list.len() && (style_of(items, #[trigger] list[j]) matches Some(s) && !style_equal(s, with_loaded(s, visible))) implies all.contains(list[j]) by {
            if j < front.len() {
                assert(front[j] == list[j]);
                assert(before.contains(list[j]));
                let m = choose|m: int| 0 <= m < before.len() && before[m] == list[j];
                assert(all[m] == list[j]);
            } else {
                assert(all[all.len() - 1] == list[j]);
            }
        }
    }
}

/// Switching a section loads or unloads each item of its kind that is not so
/// already, and changes nothing else of it.
pub proof fn law_switching_a_section(pre: App, section: ExplorerSection, visible: bool, hidden: Seq<ObjectId>, post: App, j: int, e: int, h: SceneEntityId)
    requires
        section_switched(pre, section, visible, hidden, post),
        section != ExplorerSection::Designs,
        0 <= j < items_in(pre.items, section).len(),
        post.steps@.len() > pre.steps@.len() ==> 0 <= e < post.steps@.last().edits@.len(),
    ensures
        ({
            let item = items_in(pre.items, section)[j];
            (style_of(pre.items, item) matches Some(s) && !style_equal(s, with_loaded(s, visible))) ==> keeps_steps(pre, post) && post.steps@.len() == pre.steps@.len() + 1 && exists|x: int|
                0 <= x < post.steps@.last().edits@.len() && (#[trigger] post.steps@.last().edits@[x] matches Edit::SetItemStyle { item: i, before, after } && i
                    == item && Some(before@) == style_of(pre.items, item) && after@ == with_loaded(before@, visible))
        }),
        post.steps@.len() > pre.steps@.len() ==> (post.steps@.last().edits@[e] matches Edit::SetItemStyle { item: i, before, after } && items_in(
            pre.items,
            section,
        ).contains(i) && after@ == with_loaded(before@, visible)),
        post.steps@.len() > pre.steps@.len() ==> post.steps@.last().batch && !post.steps@.last().applied,
        post.frame.geometry_stale && post.frame.redraw_requested,
        !visible ==> post.visibility.hidden@ == pre.visibility.hidden@,
        visible ==> (post.visibility.hidden@.contains(h) <==> pre.visibility.hidden@.contains(h) && !entities_in(pre.items, section).contains(h)),
        post.items == pre.items && post.workspace == pre.workspace,
{
    let list = items_in(pre.items, section);
    lemma_items_switched(pre.items, list, visible);
    let changed = items_to_switch(pre.items, list, visible);
    let edits = choose|edits: Seq<Edit>| #[trigger]
        crate::commands::section::batch_handed(pre.steps@, edits, post.steps@) && crate::commands::section::item_edits(pre.items, changed, visible, edits);
    if style_of(pre.items, list[j]) is Some && !style_equal(style_of(pre.items, list[j])->0, with_loaded(style_of(pre.items, list[j])->0, visible)) {
        assert(changed.contains(list[j]));
        let x = choose|x: int| 0 <= x < changed.len() && changed[x] == list[j];
        assert(crate::styles::restyles(edits[x], changed[x], style_of(pre.items, changed[x])->0, with_loaded(style_of(pre.items, changed[x])->0, visible)));
        assert(post.steps@.last().edits@[x] == edits[x]);
    }
    if post.steps@.len() > pre.steps@.len() {
        assert(crate::styles::restyles(edits[e], changed[e], style_of(pre.items, changed[e])->0, with_loaded(style_of(pre.items, changed[e])->0, visible)));
    }
}

proof fn lemma_layers_switched(layers: Seq<Layer>, visible: bool, k: int)
    requires
        0 <= k < layers.len(),
    ensures
        layers[k].loaded != visible ==> layers_to_switch(layers, visible).contains(layers[k].id),
    decreases layers.len(),
{
    let front = layers.drop_last();
    let (before, all) = (layers_to_switch(front, visible), layers_to_switch(layers, visible));
    if layers[k].loaded != visible {
        if k < front.len() {
            lemma_layers_switched(front, visible, k);
            let i = choose|i: int| 0 <= i < before.len() && before[i] == layers[k].id;
            assert(all[i] == layers[k].id);
        } else {
            assert(all[all.len() - 1] == layers[k].id);
        }
    }
}

/// Switching the designs loads or unloads each layer that is not so already;
/// showing them shows what was hidden too.
pub proof fn law_switching_the_designs(pre: App, visible: bool, hidden: Seq<ObjectId>, post: App, p: OpenProject, k: int, m: int)
    requires
        section_switched(pre, ExplorerSection::Designs, visible, hidden, post),
        pre.workspace.active() == Some(p),
        0 <= k < p.document.layers@.len(),
        0 <= m < hidden.len(),
    ensures
        p.document.layers@[k].loaded != visible ==> keeps_steps(pre, post) && post.steps@.len() == pre.steps@.len() + 1 && post.steps@.last().edits@.contains(
            Edit::SetLayerLoaded { id: p.document.layers@[k].id, from: !visible, to: visible },
        ),
        visible ==> keeps_steps(pre, post) && post.steps@.len() == pre.steps@.len() + 1 && post.steps@.last().edits@.contains(
            Edit::SetObjectHidden { object: hidden[m], from: true, to: false },
        ),
        post.workspace == pre.workspace,
{
    let layers = layers_to_switch(p.document.layers@, visible);
    lemma_layers_switched(p.document.layers@, visible, k);
    let edits = design_edits(layers, hidden, visible);
    if p.document.layers@[k].loaded != visible {
        let i = choose|i: int| 0 <= i < layers.len() && layers[i] == p.document.layers@[k].id;
        assert(edits[i] == Edit::SetLayerLoaded { id: p.document.layers@[k].id, from: !visible, to: visible });
    }
    if visible {
        assert(edits[layers.len() + m] == Edit::SetObjectHidden { object: hidden[m], from: true, to: false });
    }
}

/// Locking a section locks all of it and unlocking it unlocks all of it; what
/// is of another kind stays as it is.
pub proof fn law_locking_a_section(pre: App, section: ExplorerSection, locked: bool, post: App, h: SceneEntityId, k: int)
    requires
        section_locked(pre, section, locked, post),
    ensures
        section == ExplorerSection::Rasters && 0 <= k < pre.items.raster_textures@.len() ==> (post.visibility.locked_rasters@.contains(
            pre.items.raster_textures@[k].id,
        ) <==> locked),
        section == ExplorerSection::Designs && pre.workspace.active() is Some && 0 <= k < pre.workspace.active()->0.document.layers@.len() ==> (
        post.visibility.locked_layers@.contains(pre.workspace.active()->0.document.layers@[k].id) <==> locked),
        section != ExplorerSection::Rasters && section != ExplorerSection::Designs ==> (post.visibility.frozen@.contains(h) <==> if entities_in(
            pre.items,
            section,
        ).contains(h) {
            locked
        } else {
            pre.visibility.frozen@.contains(h)
        }),
        section == ExplorerSection::Rasters || section == ExplorerSection::Designs ==> post.visibility.frozen == pre.visibility.frozen,
        section != ExplorerSection::Rasters ==> post.visibility.locked_rasters == pre.visibility.locked_rasters,
        section != ExplorerSection::Designs ==> post.visibility.locked_layers == pre.visibility.locked_layers,
        post.frame.geometry_stale && post.frame.redraw_requested,
        post.steps == pre.steps && post.items == pre.items,
{
    if section == ExplorerSection::Rasters && 0 <= k < pre.items.raster_textures@.len() {
        let ids = pre.items.raster_textures@.map_values(|t: OpenRasterTexture| t.id);
        assert(ids[k] == pre.items.raster_textures@[k].id);
        assert(ids.contains(ids[k]));
    }
    if section == ExplorerSection::Designs && pre.workspace.active() is Some {
        let layers = pre.workspace.active()->0.document.layers@;
        if 0 <= k < layers.len() {
            let ids = layers.map_values(|l: Layer| l.id);
            assert(ids[k] == layers[k].id);
            assert(ids.contains(ids[k]));
        }
    }
}

/// A number is kept within its limits: what lies within stays, what lies
/// outside becomes the nearer limit, and what is no number becomes the default.
pub proof fn law_numbers_are_kept_within(v: u32, least: u32, most: u32, default: u32)
    requires
        f32_finite(least) && f32_finite(most) && !f32_less(most, least),
    ensures
        !f32_finite(v) ==> clamped_number(v, least, most, default) == default,
        f32_finite(v) ==> !f32_less(clamped_number(v, least, most, default), least) && !f32_less(most, clamped_number(v, least, most, default)),
        f32_finite(v) && !f32_less(v, least) && !f32_less(most, v) ==> clamped_number(v, least, most, default) == v,
        f32_less(v, least) && f32_finite(v) ==> clamped_number(v, least, most, default) == least,
        f32_less(most, v) && f32_finite(v) && !f32_less(v, least) ==> clamped_number(v, least, most, default) == most,
{
}

/// Applied preferences are the ones that were given, kept within their limits;
/// where they could not be stored nothing changes.
pub proof fn law_applied_preferences(pre: App, p: Preferences, d: CameraDefaults, stored: bool, vsync_off: Option<bool>, post: App, r: Result<(), AppError>)
    requires
        preferences_applied(pre, p, d, stored, vsync_off, post, r),
    ensures
        r is Ok <==> stored,
        !stored ==> post == pre,
        stored ==> {
            let now = post.view.applied;
            &&& now.language == p.language && now.interface == p.interface && now.debug == p.debug
            &&& 5 <= p.frames.snap_poll_rate <= 1000 ==> now.frames.snap_poll_rate == p.frames.snap_poll_rate
            &&& p.frames.snap_poll_rate < 5 ==> now.frames.snap_poll_rate == 5
            &&& p.frames.snap_poll_rate > 1000 ==> now.frames.snap_poll_rate == 1000
            &&& 20 <= p.frames.frame_rate_cap <= 1000 ==> now.frames.frame_rate_cap == p.frames.frame_rate_cap
            &&& p.frames.frame_rate_cap < 20 ==> now.frames.frame_rate_cap == 20
            &&& p.frames.frame_rate_cap > 1000 ==> now.frames.frame_rate_cap == 1000
            &&& 20 <= p.frames.resize_frame_rate_cap <= 1000 ==> now.frames.resize_frame_rate_cap == p.frames.resize_frame_rate_cap
            &&& p.frames.resize_frame_rate_cap < 20 ==> now.frames.resize_frame_rate_cap == 20
            &&& p.frames.resize_frame_rate_cap > 1000 ==> now.frames.resize_frame_rate_cap == 1000
            &&& 1 <= p.frames.block_model_interaction_resolution_divisor <= 64 ==> now.frames.block_model_interaction_resolution_divisor
                == p.frames.block_model_interaction_resolution_divisor
            &&& p.frames.block_model_interaction_resolution_divisor == 0 ==> now.frames.block_model_interaction_resolution_divisor == 1
            &&& p.frames.block_model_interaction_resolution_divisor > 64 ==> now.frames.block_model_interaction_resolution_divisor == 64
            &&& vsync_off != Some(false) ==> now.vsync_enabled == p.vsync_enabled
            &&& vsync_off == Some(false) ==> now.vsync_enabled
            &&& vsync_off matches Some(can) ==> post.view.vsync_switchable == can
            &&& !p.debug.frame_counter_enabled ==> post.view.measured_fps is None
            &&& p.debug.frame_counter_enabled ==> post.view.measured_fps == pre.view.measured_fps
            &&& p.language != pre.view.applied.language ==> post.view.language_stale
            &&& post.view.draft is Some
        },
        post.items == pre.items && post.workspace == pre.workspace && post.steps == pre.steps,
{
}

} // verus!
