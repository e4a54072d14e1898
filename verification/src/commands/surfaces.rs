//! Surfaces and the rasters draped over them.

use crate::arrivals::{content_touched, fresh_state, triangulation_added, LoadedTriangulation};
use crate::commands::layers::one_edit;
use crate::commands::residency::item_loaded_set;
use crate::commands::section::batch_handed;
use crate::document::Rgba;
use crate::edit::Edit;
use crate::error::AppError;
use crate::ids::{ItemRef, RasterTextureId, SceneEntityId, TriangulationId};
use crate::ieee::{at_most, f64_at_most, F64_ONE};
use crate::items::{raster_index, triangulation_index, ItemState, Items, OpenTriangulation};
use crate::jobs::{jobs_cancelled, JobFilter, JobKey};
use crate::state::{App, Canvas, ClipRing, Selection, SurfaceField, SurfacePair, Surfaces, Visibility};
use crate::styles::{restyles, style_equal, style_of, style_set, surface_style, with_color, with_raster, with_visible};
use vstd::prelude::*;

verus! {

/// One handle is gone from the selection and from every set.
pub open spec fn handle_forgotten(pre: App, handle: SceneEntityId, post: App) -> bool {
    &&& post == (App { selection: post.selection, visibility: post.visibility, ..pre })
    &&& post.selection == (Selection { handles: post.selection.handles, ..pre.selection })
    &&& post.selection.handles@ == pre.selection.handles@.remove(handle)
    &&& post.visibility == (Visibility {
        hidden: post.visibility.hidden,
        frozen: post.visibility.frozen,
        explicitly_frozen: post.visibility.explicitly_frozen,
        translucent: post.visibility.translucent,
        ..pre.visibility
    })
    &&& post.visibility.hidden@ == pre.visibility.hidden@.remove(handle)
    &&& post.visibility.frozen@ == pre.visibility.frozen@.remove(handle)
    &&& post.visibility.explicitly_frozen@ == pre.visibility.explicitly_frozen@.remove(handle)
    &&& post.visibility.translucent@ == pre.visibility.translucent@.remove(handle)
}

impl Visibility {
    pub(crate) fn forget(&mut self, handle: SceneEntityId)
        ensures
            *final(self) == (Visibility {
                hidden: final(self).hidden,
                frozen: final(self).frozen,
                explicitly_frozen: final(self).explicitly_frozen,
                translucent: final(self).translucent,
                ..*old(self)
            }),
            final(self).hidden@ == old(self).hidden@.remove(handle),
            final(self).frozen@ == old(self).frozen@.remove(handle),
            final(self).explicitly_frozen@ == old(self).explicitly_frozen@.remove(handle),
            final(self).translucent@ == old(self).translucent@.remove(handle),
    {
        self.hidden.remove(handle);
        self.frozen.remove(handle);
        self.explicitly_frozen.remove(handle);
        self.translucent.remove(handle);
    }
}

/// A dialog on one surface closes where it is on this one.
pub open spec fn field_without(pre: SurfaceField, id: TriangulationId) -> SurfaceField {
    if pre.surface == Some(id) {
        SurfaceField { open: false, surface: None, ..pre }
    } else {
        pre
    }
}

/// A dialog on two surfaces closes where one of them is this one.
pub open spec fn pair_without(pre: SurfacePair, id: TriangulationId) -> SurfacePair {
    if pre.topology == Some(id) || pre.other == Some(id) {
        SurfacePair { open: false, topology: None, other: None, ..pre }
    } else {
        pre
    }
}

/// No dialog speaks of the surface, and no pick for one is awaited.
pub open spec fn dialogs_without(pre: Surfaces, id: TriangulationId) -> Surfaces {
    Surfaces {
        pick_target: None,
        clip: field_without(pre.clip, id),
        clip_ring: if pre.clip.surface == Some(id) {
            ClipRing { awaiting_pick: false, ..pre.clip_ring }
        } else {
            pre.clip_ring
        },
        slice: field_without(pre.slice, id),
        trim: pair_without(pre.trim, id),
        cut_pit: pair_without(pre.cut_pit, id),
        with_shell: pair_without(pre.with_shell, id),
        contour: field_without(pre.contour, id),
        ..pre
    }
}

/// Nothing hovers over a surface that is picked for a dialog.
pub open spec fn hover_cleared(pre: Canvas, post: Canvas) -> bool {
    &&& post == (Canvas { hover_label: None, hover_handles: post.hover_handles, ..pre })
    &&& post.hover_handles@ == Set::<SceneEntityId>::empty()
}

/// A surface that dialogs, the selection and jobs no longer speak of.
pub open spec fn surface_released(pre: App, id: TriangulationId, post: App) -> bool {
    &&& post == (App {
        selection: post.selection,
        visibility: post.visibility,
        surfaces: dialogs_without(pre.surfaces, id),
        canvas: post.canvas,
        jobs: post.jobs,
        ..pre
    })
    &&& handle_forgotten(pre, SceneEntityId::Triangulation(id), App { selection: post.selection, visibility: post.visibility, ..pre })
    &&& exists|mid: Canvas| #[trigger]
        hover_cleared(pre.canvas, mid) && post.canvas == (Canvas {
            active_triangulation: if pre.canvas.active_triangulation == Some(id) {
                None
            } else {
                pre.canvas.active_triangulation
            },
            ..mid
        })
    &&& jobs_cancelled(pre.jobs, JobFilter::Key(JobKey::Triangulation(id)), post.jobs)
}

/// What choosing a surface does: choosing the chosen one again lets it go.
pub open spec fn surface_activated(pre: App, id: TriangulationId, post: App) -> bool {
    let handle = SceneEntityId::Triangulation(id);
    if triangulation_index(pre.items.triangulations@, id) >= pre.items.triangulations@.len() {
        post == pre
    } else if pre.canvas.active_triangulation == Some(id) && pre.selection.handles@.contains(handle) {
        &&& post == (App {
            canvas: Canvas { active_triangulation: None, ..pre.canvas },
            selection: Selection { handles: post.selection.handles, ..pre.selection },
            frame: pre.frame.topology(),
            ..pre
        })
        &&& post.selection.handles@ == pre.selection.handles@.remove(handle)
    } else {
        &&& post == (App {
            canvas: Canvas { active_triangulation: Some(id), ..pre.canvas },
            selection: Selection { handles: post.selection.handles, ..pre.selection },
            frame: if any_object(pre.selection.handles@) {
                pre.frame.geometry()
            } else {
                pre.frame.topology()
            },
            ..pre
        })
        &&& post.selection.handles@ == Set::<SceneEntityId>::empty().insert(handle)
    }
}

/// An object is among the handles.
pub open spec fn any_object(handles: Set<SceneEntityId>) -> bool {
    exists|h: SceneEntityId| #[trigger] handles.contains(h) && h is Object
}

/// What showing or hiding a surface does: a surface that is hidden either way
/// is shown both ways.
pub open spec fn surface_visibility_toggled(pre: App, id: TriangulationId, post: App) -> bool {
    let s = pre.items.triangulations@;
    let i = triangulation_index(s, id);
    if i >= s.len() {
        post == pre
    } else {
        exists|mid: App| #[trigger]
            no_longer_hidden(pre, id, mid) && style_set(
                mid,
                ItemRef::Triangulation(id),
                with_visible(surface_style(s[i]), to_be_shown(pre, id)),
                post,
            )
    }
}

/// The surface is hidden one way or the other, and so is to be shown.
pub open spec fn to_be_shown(app: App, id: TriangulationId) -> bool {
    let s = app.items.triangulations@;
    !s[triangulation_index(s, id)].visible || app.visibility.hidden@.contains(SceneEntityId::Triangulation(id))
}

/// The handle of the surface is no longer hidden, where it is to be shown.
pub open spec fn no_longer_hidden(pre: App, id: TriangulationId, post: App) -> bool {
    &&& post == (App { visibility: Visibility { hidden: post.visibility.hidden, ..pre.visibility }, ..pre })
    &&& post.visibility.hidden@ == (if to_be_shown(pre, id) {
        pre.visibility.hidden@.remove(SceneEntityId::Triangulation(id))
    } else {
        pre.visibility.hidden@
    })
}

/// What unloading a surface does.
pub open spec fn surface_closed(pre: App, id: TriangulationId, post: App) -> bool {
    let s = pre.items.triangulations@;
    let i = triangulation_index(s, id);
    if i >= s.len() {
        post == pre
    } else {
        exists|mid: App|
            {
                &&& #[trigger] surface_released(pre, id, mid)
                &&& post == (App { items: post.items, frame: pre.frame.bounds().session(), ..mid })
                &&& post.items == (Items { triangulations: post.items.triangulations, ..pre.items })
                &&& post.items.triangulations@ == s.update(i, OpenTriangulation { state: ItemState { loaded: false, ..s[i].state }, ..s[i] })
            }
    }
}

/// What deleting a surface does.
pub open spec fn surface_removed(pre: App, id: TriangulationId, post: App) -> bool {
    if triangulation_index(pre.items.triangulations@, id) >= pre.items.triangulations@.len() {
        post == pre
    } else {
        exists|mid: App| #[trigger] surface_released(pre, id, mid) && item_deleted(mid, ItemRef::Triangulation(id), post)
    }
}

/// What deleting an item does.
pub open spec fn item_deleted(pre: App, item: ItemRef, post: App) -> bool {
    &&& post == (App { steps: post.steps, ..pre })
    &&& one_edit(pre.steps@, post.steps@)
    &&& post.steps@.last().edits@[0] == Edit::DeleteItem(item)
}

/// A surface got another colour, if it is there.
pub open spec fn recolored(pre: App, id: TriangulationId, color: Rgba, post: App) -> bool {
    match style_of(pre.items, ItemRef::Triangulation(id)) {
        Some(style) => style_set(pre, ItemRef::Triangulation(id), with_color(style, color), post),
        None => post == pre,
    }
}

/// What colouring a surface does.
pub open spec fn surface_colored(pre: App, id: TriangulationId, color: Rgba, post: App) -> bool {
    exists|mid: App| #[trigger] recolored(pre, id, color, mid) && post == (App { frame: mid.frame.topology(), ..mid })
}

/// What a surface that was computed does: it is added, chosen and selected.
pub open spec fn surface_inserted(pre: App, built: LoadedTriangulation, post: App) -> bool {
    let id = pre.items.next_triangulation_id;
    &&& post == (App {
        items: post.items,
        workspace: post.workspace,
        canvas: Canvas { active_triangulation: Some(TriangulationId(id)), ..pre.canvas },
        selection: Selection { handles: post.selection.handles, ..pre.selection },
        frame: if any_object(pre.selection.handles@) {
            pre.frame.geometry()
        } else {
            pre.frame.bounds()
        },
        ..pre
    })
    &&& triangulation_added(pre.items, built, fresh_state(None, None, true, false), id, post.items)
    &&& post.items.next_triangulation_id == id + 1
    &&& content_touched(pre.workspace, post.workspace)
    &&& post.selection.handles@ == Set::<SceneEntityId>::empty().insert(SceneEntityId::Triangulation(TriangulationId(id)))
}

/// The surfaces among these that change when a raster is draped over them.
pub open spec fn drapes_to_change(items: Items, list: Seq<TriangulationId>, raster: Option<RasterTextureId>) -> Seq<TriangulationId>
    decreases list.len(),
{
    if list.len() == 0 {
        Seq::empty()
    } else {
        let before = drapes_to_change(items, list.drop_last(), raster);
        match style_of(items, ItemRef::Triangulation(list.last())) {
            Some(s) if !style_equal(s, with_raster(s, raster)) => before.push(list.last()),
            _ => before,
        }
    }
}

/// The edits drape a raster over these surfaces.
pub open spec fn drape_edits(items: Items, list: Seq<TriangulationId>, raster: Option<RasterTextureId>, edits: Seq<Edit>) -> bool {
    &&& edits.len() == list.len()
    &&& forall|i: int| 0 <= i < list.len() ==> drapes(items, #[trigger] edits[i], list[i], raster)
}

/// The edit drapes a raster over a surface.
pub open spec fn drapes(items: Items, edit: Edit, id: TriangulationId, raster: Option<RasterTextureId>) -> bool {
    let item = ItemRef::Triangulation(id);
    restyles(edit, item, style_of(items, item)->0, with_raster(style_of(items, item)->0, raster))
}

/// What draping a raster over surfaces does: one step over those that change.
pub open spec fn drapes_set(pre: App, list: Seq<TriangulationId>, raster: Option<RasterTextureId>, r: int, post: App) -> bool {
    let changed = drapes_to_change(pre.items, list, raster);
    &&& r == changed.len()
    &&& exists|edits: Seq<Edit>|
        {
            &&& drape_edits(pre.items, changed, raster, edits)
            &&& #[trigger] batch_handed(pre.steps@, edits, post.steps@)
        }
    &&& post == (App {
        steps: post.steps,
        frame: if changed.len() > 0 {
            pre.frame.redraw()
        } else {
            pre.frame
        },
        ..pre
    })
}

/// The surfaces that a raster is draped over.
pub open spec fn draped_with(s: Seq<OpenTriangulation>, raster: RasterTextureId) -> Seq<TriangulationId>
    decreases s.len(),
{
    if s.len() == 0 {
        Seq::empty()
    } else {
        let before = draped_with(s.drop_last(), raster);
        if s.last().raster_texture == Some(raster) {
            before.push(s.last().id)
        } else {
            before
        }
    }
}

/// The surfaces that any raster is draped over.
pub open spec fn draped(s: Seq<OpenTriangulation>) -> Seq<TriangulationId>
    decreases s.len(),
{
    if s.len() == 0 {
        Seq::empty()
    } else {
        let before = draped(s.drop_last());
        if s.last().raster_texture is Some {
            before.push(s.last().id)
        } else {
            before
        }
    }
}

/// Where the four corners of a surface's extent come to lie on a raster, across
/// and down: from 0 to 1 is the raster.
#[derive(Clone, Copy, Debug)]
pub struct ExtentOnRaster {
    pub across: [u64; 4],
    pub down: [u64; 4],
}

/// A raster lies over the extent.
pub open spec fn lies_over(e: ExtentOnRaster) -> bool {
    any_at_most(e.across@, F64_ONE) && any_at_least(e.across@, 0) && any_at_most(e.down@, F64_ONE) && any_at_least(e.down@, 0)
}

/// The surfaces that a raster overlaps, by where their extents come to lie.
pub open spec fn overlapping(s: Seq<OpenTriangulation>, told: Seq<ExtentOnRaster>, n: int) -> Seq<TriangulationId>
    decreases n,
{
    if n <= 0 {
        Seq::empty()
    } else {
        let before = overlapping(s, told, n - 1);
        if n - 1 < told.len() && lies_over(told[n - 1]) {
            before.push(s[n - 1].id)
        } else {
            before
        }
    }
}

/// A surface lost its raster, if it had one.
pub open spec fn one_undraped(pre: App, id: TriangulationId, had: bool, post: App) -> bool {
    if had {
        exists|n: int| #[trigger] drapes_set(pre, seq![id], None, n, post)
    } else {
        post == pre
    }
}

/// What taking the raster off the chosen surface does.
pub open spec fn active_undraped(pre: App, r: Result<(), AppError>, post: App) -> bool {
    match pre.canvas.active_triangulation {
        None => r == Err::<(), AppError>(AppError::NoSurfaceChosen) && post == pre,
        Some(id) => {
            let s = pre.items.triangulations@;
            let i = triangulation_index(s, id);
            if i >= s.len() {
                r == Err::<(), AppError>(AppError::SurfaceNotFound) && post == pre
            } else {
                &&& r == Ok::<(), AppError>(())
                &&& exists|mid: App| #[trigger]
                    one_undraped(pre, id, s[i].raster_texture is Some, mid) && post == (App { frame: mid.frame.redraw(), ..mid })
            }
        },
    }
}

/// What draping a raster over everything that it overlaps does.
pub open spec fn raster_draped(pre: App, id: RasterTextureId, told: Seq<ExtentOnRaster>, r: Result<(), AppError>, post: App) -> bool {
    let s = pre.items.triangulations@;
    let list = overlapping(s, told, s.len() as int);
    if raster_index(pre.items.raster_textures@, id) >= pre.items.raster_textures@.len() {
        r == Err::<(), AppError>(AppError::RasterNotFound) && post == pre
    } else if list.len() == 0 {
        r == Err::<(), AppError>(AppError::NothingOverlaps) && post == pre
    } else {
        r == Ok::<(), AppError>(()) && exists|n: int| #[trigger] drapes_set(pre, list, Some(id), n, post)
    }
}

/// What deleting a raster does: the surfaces lose it first, so that undoing
/// puts it back onto them.
pub open spec fn raster_removed(pre: App, id: RasterTextureId, post: App) -> bool {
    if raster_index(pre.items.raster_textures@, id) >= pre.items.raster_textures@.len() {
        post == pre
    } else {
        let changed = drapes_to_change(pre.items, draped_with(pre.items.triangulations@, id), None);
        let step = post.steps@.last();
        &&& post == (App { steps: post.steps, frame: pre.frame.redraw(), ..pre })
        &&& post.steps@.len() == pre.steps@.len() + 1
        &&& post.steps@.drop_last() == pre.steps@
        &&& step.batch && !step.applied && step.project is None
        &&& step.edits@.len() == changed.len() + 1
        &&& drape_edits(pre.items, changed, None, step.edits@.drop_last())
        &&& step.edits@.last() == Edit::DeleteItem(ItemRef::Raster(id))
    }
}

impl SurfaceField {
    fn leave(&mut self, id: TriangulationId) -> (r: bool)
        ensures
            *final(self) == field_without(*old(self), id),
            r == (old(self).surface == Some(id)),
    {
        let mine = match self.surface {
            Some(s) => s == id,
            None => false,
        };
        if mine {
            self.surface = None;
            self.open = false;
        }
        mine
    }
}

impl SurfacePair {
    fn leave(&mut self, id: TriangulationId)
        ensures
            *final(self) == pair_without(*old(self), id),
    {
        let first = match self.topology {
            Some(s) => s == id,
            None => false,
        };
        let second = match self.other {
            Some(s) => s == id,
            None => false,
        };
        if first || second {
            self.topology = None;
            self.other = None;
            self.open = false;
        }
    }
}

impl Surfaces {
    fn leave(&mut self, id: TriangulationId)
        ensures
            *final(self) == dialogs_without(*old(self), id),
    {
        self.pick_target = None;
        if self.clip.leave(id) {
            self.clip_ring.awaiting_pick = false;
        }
        self.slice.leave(id);
        self.trim.leave(id);
        self.cut_pit.leave(id);
        self.with_shell.leave(id);
        self.contour.leave(id);
    }
}

impl Canvas {
    fn clear_hover(&mut self)
        ensures
            hover_cleared(*old(self), *final(self)),
    {
        self.hover_label = None;
        self.hover_handles.clear();
    }

    fn let_surface_go(&mut self, id: TriangulationId)
        ensures
            *final(self) == (Canvas {
                active_triangulation: if old(self).active_triangulation == Some(id) {
                    None
                } else {
                    old(self).active_triangulation
                },
                ..*old(self)
            }),
    {
        let mine = match self.active_triangulation {
            Some(t) => t == id,
            None => false,
        };
        if mine {
            self.active_triangulation = None;
        }
    }
}

impl Selection {
    fn only(&mut self, handle: SceneEntityId)
        ensures
            *final(self) == (Selection { handles: final(self).handles, ..*old(self) }),
            final(self).handles@ == Set::<SceneEntityId>::empty().insert(handle),
    {
        self.handles.clear();
        self.handles.insert(handle);
    }

    fn holds_object(&self) -> (r: bool)
        ensures
            r == any_object(self.handles@),
    {
        let all = self.handles.as_vec();
        let mut i: usize = 0;
        while i < all.len()
            invariant
                i <= all.len(),
                all@ == self.handles.order(),
                self.handles@ == all@.to_set(),
                forall|j: int| 0 <= j < i ==> !((#[trigger] all@[j]) is Object),
            decreases all.len() - i,
        {
            match all[i] {
                SceneEntityId::Object(_) => {
                    assert(all@.to_set().contains(all@[i as int]));
                    return true;
                },
                _ => {},
            }
            i += 1;
        }
        proof {
            if any_object(self.handles@) {
                let h = choose|h: SceneEntityId| #[trigger] self.handles@.contains(h) && h is Object;
                assert(all@.contains(h));
                let j = choose|j: int| 0 <= j < all@.len() && all@[j] == h;
                assert(!(all@[j] is Object));
            }
        }
        false
    }
}

impl Items {
    fn unload_triangulation(&mut self, i: usize)
        requires
            i < old(self).triangulations@.len(),
        ensures
            *final(self) == (Items { triangulations: final(self).triangulations, ..*old(self) }),
            final(self).triangulations@ == old(self).triangulations@.update(
                i as int,
                OpenTriangulation {
                    state: ItemState { loaded: false, ..old(self).triangulations@[i as int].state },
                    ..old(self).triangulations@[i as int]
                },
            ),
    {
        self.triangulations[i].state.loaded = false;
        assert(self.triangulations@ =~= old(self).triangulations@.update(i as int, self.triangulations@[i as int]));
    }

    fn make_drape_edits(&self, list: &Vec<TriangulationId>, raster: Option<RasterTextureId>) -> (r: Vec<Edit>)
        ensures
            drape_edits(*self, drapes_to_change(*self, list@, raster), raster, r@),
    {
        let mut edits: Vec<Edit> = Vec::new();
        let mut i: usize = 0;
        assert(list@.take(0) =~= Seq::<TriangulationId>::empty());
        while i < list.len()
            invariant
                i <= list.len(),
                drape_edits(*self, drapes_to_change(*self, list@.take(i as int), raster), raster, edits@),
            decreases list.len() - i,
        {
            let ghost before = drapes_to_change(*self, list@.take(i as int), raster);
            let ghost had = edits@;
            let item = ItemRef::Triangulation(list[i]);
            assert(list@.take(i + 1).drop_last() =~= list@.take(i as int));
            match (self.item_style(item), self.item_style(item)) {
                (Some(from), Some(again)) => {
                    let to = again.with_raster_texture(raster);
                    if !from.same(&to) {
                        edits.push(Edit::SetItemStyle { item, before: from, after: to });
                        proof {
                            let now = drapes_to_change(*self, list@.take(i + 1), raster);
                            assert(now == before.push(list@[i as int]));
                            assert forall|j: int| 0 <= j < now.len() implies drapes(*self, #[trigger] edits@[j], now[j], raster) by {
                                if j < before.len() {
                                    assert(edits@[j] == had[j]);
                                }
                            }
                        }
                    }
                },
                _ => {},
            }
            i += 1;
        }
        assert(list@.take(list@.len() as int) =~= list@);
        edits
    }

    fn find_draped(&self, raster: Option<RasterTextureId>) -> (r: Vec<TriangulationId>)
        ensures
            r@ == (match raster {
                Some(id) => draped_with(self.triangulations@, id),
                None => draped(self.triangulations@),
            }),
    {
        let s = &self.triangulations;
        let mut list: Vec<TriangulationId> = Vec::new();
        let mut i: usize = 0;
        assert(s@.take(0) =~= Seq::<OpenTriangulation>::empty());
        while i < s.len()
            invariant
                i <= s.len(),
                list@ == (match raster {
                    Some(id) => draped_with(s@.take(i as int), id),
                    None => draped(s@.take(i as int)),
                }),
            decreases s.len() - i,
        {
            assert(s@.take(i + 1).drop_last() =~= s@.take(i as int));
            let meant = match (s[i].raster_texture, raster) {
                (Some(a), Some(b)) => a == b,
                (Some(_), None) => true,
                _ => false,
            };
            if meant {
                list.push(s[i].id);
            }
            i += 1;
        }
        assert(s@.take(s@.len() as int) =~= s@);
        list
    }

    fn find_overlapping(&self, told: &Vec<ExtentOnRaster>) -> (r: Vec<TriangulationId>)
        ensures
            r@ == overlapping(self.triangulations@, told@, self.triangulations@.len() as int),
    {
        let mut list: Vec<TriangulationId> = Vec::new();
        let mut i: usize = 0;
        while i < self.triangulations.len()
            invariant
                i <= self.triangulations.len(),
                list@ == overlapping(self.triangulations@, told@, i as int),
            decreases self.triangulations.len() - i,
        {
            if told.len() > i && raster_overlaps_extent(&told[i].across, &told[i].down) {
                list.push(self.triangulations[i].id);
            }
            i += 1;
        }
        list
    }
}

impl App {
    pub(crate) fn forget_handle(&mut self, handle: SceneEntityId)
        ensures
            handle_forgotten(*old(self), handle, *final(self)),
    {
        self.selection.handles.remove(handle);
        self.visibility.forget(handle);
    }

    /// Deletes an item from the project.
    pub fn delete_project_item(&mut self, item: ItemRef)
        ensures
            item_deleted(*old(self), item, *final(self)),
    {
        self.execute_edit(Edit::DeleteItem(item));
    }

    fn release_surface(&mut self, id: TriangulationId)
        ensures
            surface_released(*old(self), id, *final(self)),
    {
        self.forget_handle(SceneEntityId::Triangulation(id));
        self.clear_dialog_refs_to_triangulation(id);
        let ghost mid = self.canvas;
        assert(hover_cleared(old(self).canvas, mid));
        self.cancel_jobs(JobFilter::Key(JobKey::Triangulation(id)));
        self.canvas.let_surface_go(id);
    }

    /// Closes every dialog that speaks of a surface, and gives up a pick for
    /// one.
    pub fn clear_dialog_refs_to_triangulation(&mut self, id: TriangulationId)
        ensures
            *final(self) == (App { surfaces: dialogs_without(old(self).surfaces, id), canvas: final(self).canvas, ..*old(self) }),
            hover_cleared(old(self).canvas, final(self).canvas),
    {
        self.surfaces.leave(id);
        self.canvas.clear_hover();
    }

    /// Chooses a surface, or lets the chosen one go.
    pub fn activate_triangulation(&mut self, id: TriangulationId)
        ensures
            surface_activated(*old(self), id, *final(self)),
    {
        if self.items.find_triangulation(id).is_none() {
            return ;
        }
        let handle = SceneEntityId::Triangulation(id);
        let chosen = match self.canvas.active_triangulation {
            Some(t) => t == id,
            None => false,
        };
        if chosen && self.selection.handles.contains(handle) {
            self.canvas.active_triangulation = None;
            self.selection.handles.remove(handle);
            self.request_topology_redraw();
            return ;
        }
        let objects = self.selection.holds_object();
        self.canvas.active_triangulation = Some(id);
        self.selection.only(handle);
        if objects {
            self.invalidate_geometry();
        } else {
            self.request_topology_redraw();
        }
    }

    /// Shows or hides a surface.
    pub fn toggle_triangulation_visible(&mut self, id: TriangulationId)
        ensures
            surface_visibility_toggled(*old(self), id, *final(self)),
    {
        let handle = SceneEntityId::Triangulation(id);
        let i: usize = match self.items.find_triangulation(id) {
            Some(i) => i,
            None => {
                return ;
            },
        };
        let now = !(self.items.triangulations[i].visible && !self.visibility.hidden.contains(handle));
        if now {
            self.visibility.hidden.remove(handle);
        }
        let ghost mid = *self;
        assert(no_longer_hidden(*old(self), id, mid));
        match self.items.item_style(ItemRef::Triangulation(id)) {
            Some(style) => self.set_item_style(ItemRef::Triangulation(id), style.with_visible(now)),
            None => {},
        }
    }

    /// Unloads a surface.
    pub fn close_triangulation(&mut self, id: TriangulationId)
        ensures
            surface_closed(*old(self), id, *final(self)),
    {
        let i: usize = match self.items.find_triangulation(id) {
            Some(i) => i,
            None => {
                return ;
            },
        };
        self.release_surface(id);
        let ghost mid = *self;
        assert(surface_released(*old(self), id, mid));
        self.items.unload_triangulation(i);
        self.invalidate_topology_bounds_and_redraw();
        self.persist_session();
    }

    /// Deletes a surface from the project.
    pub fn remove_triangulation(&mut self, id: TriangulationId)
        ensures
            surface_removed(*old(self), id, *final(self)),
    {
        if self.items.find_triangulation(id).is_none() {
            return ;
        }
        self.release_surface(id);
        let ghost mid = *self;
        assert(surface_released(*old(self), id, mid));
        self.delete_project_item(ItemRef::Triangulation(id));
    }

    /// Colours a surface.
    pub fn set_triangulation_color(&mut self, id: TriangulationId, color: Rgba)
        ensures
            surface_colored(*old(self), id, color, *final(self)),
    {
        let item = ItemRef::Triangulation(id);
        match self.items.item_style(item) {
            Some(style) => self.set_item_style(item, style.with_color(color)),
            None => {},
        }
        let ghost mid = *self;
        assert(recolored(*old(self), id, color, mid));
        self.request_topology_redraw();
    }

    /// Adds a surface that was computed, and chooses it.
    pub fn insert_generated_triangulation(&mut self, built: LoadedTriangulation)
        requires
            old(self).items.next_triangulation_id < u64::MAX,
        ensures
            surface_inserted(*old(self), built, *final(self)),
    {
        let id: u64 = self.items.next_triangulation_id;
        let objects = self.selection.holds_object();
        let state = crate::arrivals::new_state(None, None, true, false);
        self.items.add_triangulation(built, state, id);
        self.items.next_triangulation_id = id + 1;
        self.touch_active_project_content();
        self.canvas.active_triangulation = Some(TriangulationId(id));
        self.selection.only(SceneEntityId::Triangulation(TriangulationId(id)));
        if objects {
            self.invalidate_geometry();
        } else {
            self.invalidate_topology_bounds_and_redraw();
        }
    }

    /// Takes over the surface that a job computed, if it did.
    pub fn apply_generated_triangulation_job(&mut self, result: Option<LoadedTriangulation>)
        requires
            old(self).items.next_triangulation_id < u64::MAX,
        ensures
            match result {
                Some(built) => surface_inserted(*old(self), built, *final(self)),
                None => *final(self) == *old(self),
            },
    {
        match result {
            Some(built) => self.insert_generated_triangulation(built),
            None => {},
        }
    }

    /// Drapes a raster over surfaces, or takes theirs off; gives the number of
    /// those that changed.
    pub fn set_triangulation_drapes(&mut self, list: &Vec<TriangulationId>, raster: Option<RasterTextureId>) -> (r: usize)
        ensures
            drapes_set(*old(self), list@, raster, r as int, *final(self)),
    {
        let edits = self.items.make_drape_edits(list, raster);
        let ghost made = edits@;
        let n: usize = edits.len();
        if n > 0 {
            self.execute_batch(edits);
            assert(self.steps@.drop_last() =~= old(self).steps@);
            self.frame.redraw_requested = true;
        }
        assert(batch_handed(old(self).steps@, made, self.steps@));
        n
    }

    /// Takes the raster off the chosen surface.
    pub fn clear_active_triangulation_raster(&mut self) -> (r: Result<(), AppError>)
        ensures
            active_undraped(*old(self), r, *final(self)),
    {
        let id = match self.canvas.active_triangulation {
            Some(id) => id,
            None => {
                return Err(AppError::NoSurfaceChosen);
            },
        };
        let i: usize = match self.items.find_triangulation(id) {
            Some(i) => i,
            None => {
                return Err(AppError::SurfaceNotFound);
            },
        };
        let had = self.items.triangulations[i].raster_texture.is_some();
        if had {
            let mut list: Vec<TriangulationId> = Vec::new();
            list.push(id);
            assert(list@ =~= seq![id]);
            let n: usize = self.set_triangulation_drapes(&list, None);
            assert(drapes_set(*old(self), seq![id], None, n as int, *self));
        }
        let ghost mid = *self;
        assert(one_undraped(*old(self), id, had, mid));
        self.frame.redraw_requested = true;
        Ok(())
    }

    /// Unloads a raster; surfaces keep it.
    pub fn unload_raster(&mut self, id: RasterTextureId)
        ensures
            item_loaded_set(*old(self), ItemRef::Raster(id), false, *final(self)),
    {
        self.set_item_loaded(ItemRef::Raster(id), false);
    }

    /// A raster left memory.
    pub fn release_raster_runtime(&mut self)
        ensures
            *final(self) == (App { frame: old(self).frame.redraw(), ..*old(self) }),
    {
        self.frame.redraw_requested = true;
    }

    /// Deletes a raster, and takes it off the surfaces.
    pub fn remove_raster(&mut self, id: RasterTextureId)
        ensures
            raster_removed(*old(self), id, *final(self)),
    {
        if self.items.find_raster(id).is_none() {
            return ;
        }
        let list = self.items.find_draped(Some(id));
        let mut edits = self.items.make_drape_edits(&list, None);
        let ghost made = edits@;
        edits.push(Edit::DeleteItem(ItemRef::Raster(id)));
        assert(edits@.drop_last() =~= made);
        self.execute_batch(edits);
        assert(self.steps@.drop_last() =~= old(self).steps@);
        self.frame.redraw_requested = true;
    }

    /// Drapes a raster over every surface that it overlaps. `extents` tells of
    /// each surface where its extent comes to lie on the raster.
    pub fn drape_raster_over_surfaces(&mut self, id: RasterTextureId, extents: &Vec<ExtentOnRaster>) -> (r: Result<(), AppError>)
        ensures
            raster_draped(*old(self), id, extents@, r, *final(self)),
    {
        if self.items.find_raster(id).is_none() {
            return Err(AppError::RasterNotFound);
        }
        let list = self.items.find_overlapping(extents);
        if list.len() == 0 {
            return Err(AppError::NothingOverlaps);
        }
        let n: usize = self.set_triangulation_drapes(&list, Some(id));
        assert(drapes_set(*old(self), list@, Some(id), n as int, *self));
        Ok(())
    }

    /// Takes the rasters off all surfaces.
    pub fn undrape_all_rasters(&mut self)
        ensures
            exists|n: int| #[trigger] drapes_set(*old(self), draped(old(self).items.triangulations@), None, n, *final(self)),
    {
        let list = self.items.find_draped(None);
        let n: usize = self.set_triangulation_drapes(&list, None);
        assert(drapes_set(*old(self), draped(old(self).items.triangulations@), None, n as int, *self));
    }

    /// Takes a raster off the surfaces that it is draped over.
    pub fn undrape_raster(&mut self, id: RasterTextureId)
        ensures
            exists|n: int| #[trigger] drapes_set(*old(self), draped_with(old(self).items.triangulations@, id), None, n, *final(self)),
    {
        let list = self.items.find_draped(Some(id));
        let n: usize = self.set_triangulation_drapes(&list, None);
        assert(drapes_set(*old(self), draped_with(old(self).items.triangulations@, id), None, n as int, *self));
    }
}

/// Some of these numbers is no greater than the limit.
pub open spec fn any_at_most(s: Seq<u64>, limit: u64) -> bool {
    exists|i: int| 0 <= i < s.len() && f64_at_most(#[trigger] s[i], limit)
}

/// Some of these numbers is no less than the limit.
pub open spec fn any_at_least(s: Seq<u64>, limit: u64) -> bool {
    exists|i: int| 0 <= i < s.len() && f64_at_most(limit, #[trigger] s[i])
}

/// A raster lies over an extent whose corners come to these places on it,
/// across and down: from 0 to 1 is the raster. A corner that comes to no
/// place counts for nothing.
pub fn raster_overlaps_extent(across: &[u64; 4], down: &[u64; 4]) -> (r: bool)
    ensures
        r == (any_at_most(across@, F64_ONE) && any_at_least(across@, 0) && any_at_most(down@, F64_ONE) && any_at_least(down@, 0)),
{
    has_at_most(across, F64_ONE) && has_at_least(across, 0) && has_at_most(down, F64_ONE) && has_at_least(down, 0)
}

fn has_at_most(s: &[u64; 4], limit: u64) -> (r: bool)
    ensures
        r == any_at_most(s@, limit),
{
    let mut i: usize = 0;
    while i < 4
        invariant
            i <= 4,
            forall|j: int| 0 <= j < i ==> !f64_at_most(#[trigger] s@[j], limit),
        decreases 4 - i,
    {
        if at_most(s[i], limit) {
            assert(f64_at_most(s@[i as int], limit));
            return true;
        }
        i += 1;
    }
    false
}

fn has_at_least(s: &[u64; 4], limit: u64) -> (r: bool)
    ensures
        r == any_at_least(s@, limit),
{
    let mut i: usize = 0;
    while i < 4
        invariant
            i <= 4,
            forall|j: int| 0 <= j < i ==> !f64_at_most(limit, #[trigger] s@[j]),
        decreases 4 - i,
    {
        if at_most(limit, s[i]) {
            assert(f64_at_most(limit, s@[i as int]));
            return true;
        }
        i += 1;
    }
    false
}

} // verus!
