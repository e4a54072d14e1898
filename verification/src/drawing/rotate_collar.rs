//! Turning the selected holes about their own collars.
//!
//! A turn shares its capture with a collar move, so every path that settles or
//! abandons a move settles or abandons a turn as well.

use crate::collars::{
    collars_written, find_placement, group_by_dataset, group_models, grouped, placement_at, targets_of, CollarGroup, CollarGroupModel,
};
use crate::drawing::move_tool::{active_runtime, collar_session_ensured, collars_put_back};
use crate::edit::{Edit, Step};
use crate::ids::HoleRef;
use crate::ieee::{equal64, f64_equal, f64_less, less64, negate, negated, ScreenPoint};
use crate::items::{HoleOrientation, HolePlacement, Items, OpenDrillHoleDataset};
use crate::state::{App, CapturedHole, CollarRotation, Moving, RingDrag, Turning};
use vstd::prelude::*;

verus! {

impl Turning {
    /// No turn stands and no ring is held.
    pub open spec fn reset(self) -> Turning {
        Turning { rotation: None, drag: None, drag_ring: None, hovered_ring: None, preview_active: false, ..self }
    }
}

/// The orientation differs from where the hole points.
pub open spec fn differs(after: Option<HoleOrientation>, now: Option<HoleOrientation>) -> bool {
    match (after, now) {
        (Some(a), Some(b)) => !(f64_equal(a.azimuth, b.azimuth) && f64_equal(a.dip, b.dip)),
        (Some(_), None) => true,
        (None, _) => false,
    }
}

/// How many of the captured holes would point elsewhere.
pub open spec fn turned_count(originals: Seq<CapturedHole>, after: Seq<Option<HoleOrientation>>) -> int
    decreases originals.len(),
{
    if originals.len() == 0 {
        0
    } else {
        let n = originals.len() - 1;
        turned_count(originals.drop_last(), after) + if n < after.len() && differs(after[n], originals[n].placement.orientation) {
            1int
        } else {
            0
        }
    }
}

/// The step turns each group of holes.
pub open spec fn turns_groups(step: Step, groups: Seq<CollarGroupModel>, turn: CollarRotation) -> bool {
    &&& step.edits@.len() == groups.len()
    &&& step.batch == (groups.len() != 1)
    &&& !step.applied && step.project is None
    &&& forall|g: int|
        0 <= g < groups.len() ==> match #[trigger] step.edits@[g] {
            Edit::RotateCollars { dataset, holes, rotation } => dataset == groups[g].dataset && holes@ == groups[g].holes && rotation == turn,
            _ => false,
        }
}

/// What settling a turn does once its session is there.
pub open spec fn rotation_settled(mid: App, turn: CollarRotation, after: Seq<Option<HoleOrientation>>, post: App) -> bool {
    match mid.moving.collars {
        None => post == (App { turning: mid.turning.reset(), ..mid }),
        Some(session) => {
            let settled = App {
                items: post.items,
                moving: Moving { collars: None, ..mid.moving },
                turning: mid.turning.reset(),
                frame: mid.frame.bounds(),
                ..mid
            };
            &&& collars_put_back(mid.items, post.items, Some(session))
            &&& if active_runtime(mid.workspace) != Some(session.project_runtime_id) || turned_count(session.originals@, after) == 0 {
                post == settled
            } else {
                &&& post == (App { frame: settled.frame.geometry().overlay(), steps: post.steps, ..settled })
                &&& post.steps@.len() == mid.steps@.len() + 1
                &&& post.steps@.drop_last() == mid.steps@
                &&& turns_groups(post.steps@.last(), grouped(session.originals@), turn)
            }
        },
    }
}

/// What settling a turn does.
pub open spec fn rotation_applied(pre: App, turn: CollarRotation, after: Seq<Option<HoleOrientation>>, post: App) -> bool {
    exists|mid: App| #[trigger] collar_session_ensured(pre, mid) && rotation_settled(mid, turn, after, post)
}

/// How many of the captured holes would point elsewhere.
fn count_turned(originals: &Vec<CapturedHole>, after: &Vec<Option<HoleOrientation>>) -> (r: usize)
    ensures
        r == turned_count(originals@, after@),
{
    let mut r: usize = 0;
    let mut i: usize = 0;
    assert(originals@.take(0) =~= Seq::<CapturedHole>::empty());
    while i < originals.len()
        invariant
            i <= originals.len(),
            r <= i,
            r == turned_count(originals@.take(i as int), after@),
        decreases originals.len() - i,
    {
        assert(originals@.take(i + 1).drop_last() =~= originals@.take(i as int));
        if after.len() > i {
            let moves = match (after[i], originals[i].placement.orientation) {
                (Some(a), Some(b)) => !(equal64(a.azimuth, b.azimuth) && equal64(a.dip, b.dip)),
                (Some(_), None) => true,
                (None, _) => false,
            };
            if moves {
                r += 1;
            }
        }
        i += 1;
    }
    assert(originals@.take(originals@.len() as int) =~= originals@);
    r
}

impl App {
    /// Forgets a standing turn, and leaves the holes where they are.
    pub fn reset_rotate_editor_state(&mut self)
        ensures
            *final(self) == (App { turning: old(self).turning.reset(), ..*old(self) }),
    {
        self.turning.rotation = None;
        self.turning.drag = None;
        self.turning.drag_ring = None;
        self.turning.hovered_ring = None;
        self.turning.preview_active = false;
    }

    /// Settles a turn as one undo step. `after` tells of each captured hole
    /// where it would point once turned.
    pub fn apply_collar_rotation(&mut self, rotation: CollarRotation, after: &Vec<Option<HoleOrientation>>)
        ensures
            rotation_applied(*old(self), rotation, after@, *final(self)),
    {
        self.ensure_collar_session();
        let ghost mid = *self;
        assert(collar_session_ensured(*old(self), mid));
        let session = match self.moving.collars.take() {
            Some(session) => session,
            None => {
                self.reset_rotate_editor_state();
                assert(rotation_settled(mid, rotation, after@, *self));
                return ;
            },
        };
        let same_project = match self.active_runtime_id() {
            Some(id) => id == session.project_runtime_id,
            None => false,
        };
        self.put_back_collars(&session);
        let turned: usize = count_turned(&session.originals, after);
        if !same_project || turned == 0 {
            self.reset_rotate_editor_state();
            self.invalidate_topology_bounds_and_redraw();
            assert(rotation_settled(mid, rotation, after@, *self));
            return ;
        }
        let groups = group_by_dataset(&session.originals);
        let ghost models = group_models(groups@);
        let mut edits: Vec<Edit> = Vec::new();
        let mut g: usize = 0;
        while g < groups.len()
            invariant
                g <= groups.len(),
                models == group_models(groups@),
                edits@.len() == g,
                forall|k: int|
                    0 <= k < g ==> match #[trigger] edits@[k] {
                        Edit::RotateCollars { dataset, holes, rotation: turn } => dataset == models[k].dataset && holes@ == models[k].holes && turn == rotation,
                        _ => false,
                    },
            decreases groups.len() - g,
        {
            edits.push(Edit::RotateCollars { dataset: groups[g].dataset, holes: copy_group(&groups[g]), rotation });
            g += 1;
        }
        self.hand_over(edits);
        self.reset_rotate_editor_state();
        self.invalidate_topology_bounds_and_redraw();
        self.invalidate_geometry();
        self.invalidate_overlay();
        assert(rotation_settled(mid, rotation, after@, *self));
    }

    /// Hands edits to the history: a single one as it is, several as a batch.
    pub(crate) fn hand_over(&mut self, edits: Vec<Edit>)
        ensures
            *final(self) == (App { steps: final(self).steps, ..*old(self) }),
            final(self).steps@ == old(self).steps@.push(Step { edits, batch: edits@.len() != 1, applied: false, project: None }),
            final(self).steps@.drop_last() == old(self).steps@,
    {
        let batch = edits.len() != 1;
        self.steps.push(Step { edits, batch, applied: false, project: None });
        assert(self.steps@.drop_last() =~= old(self).steps@);
    }

    /// Settles whatever turn is standing; with none, the angles of the panel.
    pub fn apply_pending_collar_rotation(&mut self, after: &Vec<Option<HoleOrientation>>)
        ensures
            rotation_applied(
                *old(self),
                match old(self).turning.rotation {
                    Some(r) => r,
                    None => CollarRotation::Absolute(old(self).turning.panel),
                },
                after@,
                *final(self),
            ),
    {
        let rotation = match self.turning.rotation {
            Some(r) => r,
            None => CollarRotation::Absolute(self.turning.panel),
        };
        self.apply_collar_rotation(rotation, after);
    }
}

/// Where a captured hole stands and points once turned.
#[derive(Clone, Copy, PartialEq, Eq, Structural, Debug)]
pub struct TurnedHole {
    pub placement: HolePlacement,
    pub aim: Option<HoleOrientation>,
}

/// The placements to write: of each captured hole the turned one, or its own
/// where none is given.
pub open spec fn turned_placements(originals: Seq<CapturedHole>, turned: Seq<TurnedHole>) -> Seq<HolePlacement> {
    originals.map(|k: int, c: CapturedHole| if k < turned.len() { turned[k].placement } else { c.placement })
}

/// The panel with an aim shown in it.
pub open spec fn panel_showing(turning: Turning, aim: Option<HoleOrientation>) -> Turning {
    match aim {
        Some(a) => Turning { panel: a, panel_last_preview: a, ..turning },
        None => turning,
    }
}

/// What showing a turn does.
pub open spec fn rotation_previewed(pre: App, rotation: CollarRotation, turned: Seq<TurnedHole>, post: App) -> bool {
    exists|mid: App| #[trigger]
        collar_session_ensured(pre, mid) && match mid.moving.collars {
            None => post == mid,
            Some(s) => {
                &&& post == (App {
                    items: post.items,
                    turning: panel_showing(
                        Turning { rotation: Some(rotation), preview_active: true, ..mid.turning },
                        if s.originals@.len() > 0 && turned.len() > 0 {
                            turned[0].aim
                        } else {
                            None
                        },
                    ),
                    frame: mid.frame.bounds(),
                    ..mid
                })
                &&& post.items == (Items { drill_holes: post.items.drill_holes, ..mid.items })
                &&& collars_written(mid.items.drill_holes@, post.items.drill_holes@, s.originals@, turned_placements(s.originals@, turned))
            },
        }
}

/// Where the targets point, without those that have no length to aim.
pub open spec fn aims_of(datasets: Seq<OpenDrillHoleDataset>, targets: Seq<HoleRef>) -> Seq<HoleOrientation>
    decreases targets.len(),
{
    if targets.len() == 0 {
        Seq::empty()
    } else {
        let before = aims_of(datasets, targets.drop_last());
        match placement_at(datasets, targets.last()) {
            Some(p) => match p.orientation {
                Some(o) => before.push(o),
                None => before,
            },
            None => before,
        }
    }
}

/// Where the selected holes point.
pub open spec fn selected_aims(app: App) -> Seq<HoleOrientation> {
    aims_of(app.items.drill_holes@, targets_of(app.items.drill_holes@, app.selection.holes.order()))
}

/// The aim of the first selected hole, and whether another's is told apart from it.
pub open spec fn selected_aim(app: App, near: Seq<bool>) -> Option<(HoleOrientation, bool)> {
    let aims = selected_aims(app);
    if aims.len() == 0 {
        None
    } else {
        Some((aims[0], exists|k: int| 1 <= k < aims.len() && k < near.len() && !#[trigger] near[k]))
    }
}

impl App {
    /// Shows a turn of the selected holes without settling it. `turned` holds
    /// each captured hole as it would be.
    pub fn preview_collar_rotation(&mut self, rotation: CollarRotation, turned: &Vec<TurnedHole>)
        ensures
            rotation_previewed(*old(self), rotation, turned@, *final(self)),
    {
        self.ensure_collar_session();
        let ghost mid = *self;
        assert(collar_session_ensured(*old(self), mid));
        let session = match self.moving.collars.take() {
            Some(session) => session,
            None => {
                return ;
            },
        };
        let mut written: Vec<HolePlacement> = Vec::new();
        let mut k: usize = 0;
        while k < session.originals.len()
            invariant
                k <= session.originals.len(),
                written@.len() == k,
                forall|j: int| 0 <= j < k ==> #[trigger] written@[j] == turned_placements(session.originals@, turned@)[j],
            decreases session.originals.len() - k,
        {
            if turned.len() > k {
                written.push(turned[k].placement);
            } else {
                written.push(session.originals[k].placement);
            }
            k += 1;
        }
        assert(written@ =~= turned_placements(session.originals@, turned@));
        self.write_collar_placements(&session.originals, &written);
        let aim = if session.originals.len() > 0 && turned.len() > 0 {
            turned[0].aim
        } else {
            None
        };
        self.moving.collars = Some(session);
        self.turning.rotation = Some(rotation);
        self.turning.preview_active = true;
        match aim {
            Some(a) => {
                self.turning.panel = a;
                self.turning.panel_last_preview = a;
            },
            None => {},
        }
        self.invalidate_topology_bounds_and_redraw();
    }

    /// Where the selected holes point, in order, without those that have no
    /// length to aim.
    pub fn selected_orientations(&self) -> (r: Vec<HoleOrientation>)
        ensures
            r@ == selected_aims(*self),
    {
        let targets = self.collar_targets();
        let mut r: Vec<HoleOrientation> = Vec::new();
        let mut i: usize = 0;
        assert(targets@.take(0) =~= Seq::<HoleRef>::empty());
        while i < targets.len()
            invariant
                i <= targets.len(),
                r@ == aims_of(self.items.drill_holes@, targets@.take(i as int)),
            decreases targets.len() - i,
        {
            assert(targets@.take(i + 1).drop_last() =~= targets@.take(i as int));
            match find_placement(&self.items, targets[i]) {
                Some(p) => match p.orientation {
                    Some(o) => r.push(o),
                    None => {},
                },
                None => {},
            }
            i += 1;
        }
        assert(targets@.take(targets@.len() as int) =~= targets@);
        r
    }

    /// The aim of the first selected hole, and whether the selection is mixed.
    /// `near` tells of each aim whether it rounds to the first.
    pub fn selected_collar_orientation(&self, near: &Vec<bool>) -> (r: Option<(HoleOrientation, bool)>)
        ensures
            r == selected_aim(*self, near@),
    {
        let aims = self.selected_orientations();
        if aims.len() == 0 {
            return None;
        }
        let mut mixed = false;
        let mut k: usize = 1;
        while k < aims.len() && k < near.len()
            invariant
                1 <= k,
                k <= aims.len(),
                aims@ == selected_aims(*self),
                mixed == exists|j: int| 1 <= j < k && j < near.len() && !#[trigger] near@[j],
            decreases aims.len() - k,
        {
            if !near[k] {
                assert(!near@[k as int]);
                mixed = true;
            }
            k += 1;
        }
        Some((aims[0], mixed))
    }

    /// Keeps the panel showing where the selected holes point while no turn stands.
    pub fn refresh_rotate_panel_readout(&mut self, near: &Vec<bool>)
        ensures
            *final(self) == (App {
                turning: if old(self).turning.preview_active {
                    old(self).turning
                } else {
                    match selected_aim(*old(self), near@) {
                        Some(s) => Turning { panel: s.0, panel_last_preview: s.0, panel_mixed: s.1, ..old(self).turning },
                        None => Turning { panel_mixed: false, ..old(self).turning },
                    }
                },
                ..*old(self)
            }),
    {
        if self.turning.preview_active {
            return ;
        }
        match self.selected_collar_orientation(near) {
            Some(s) => {
                self.turning.panel = s.0;
                self.turning.panel_last_preview = s.0;
                self.turning.panel_mixed = s.1;
            },
            None => {
                self.turning.panel_mixed = false;
            },
        }
    }

    /// Takes hold of a ring. `center_px` is where the gizmo stands, `angle` the
    /// pointer's angle about it, `dip_room` how far the first hole may be tipped.
    pub fn begin_collar_rotate_drag(&mut self, ready: bool, ring: u8, center_px: Option<ScreenPoint>, angle: u64, dip_room: (u64, u64))
        ensures
            match center_px {
                Some(c) if ready && targets_of(old(self).items.drill_holes@, old(self).selection.holes.order()).len() > 0 => ring_held(
                    *old(self),
                    ring,
                    c,
                    angle,
                    dip_room,
                    *final(self),
                ),
                _ => *final(self) == *old(self),
            },
    {
        if !ready || self.collar_targets().len() == 0 {
            return ;
        }
        match center_px {
            Some(center_px) => {
                self.ensure_collar_session();
                let ghost mid = *self;
                let start = match self.turning.rotation {
                    Some(r) => r,
                    None => CollarRotation::Delta { azimuth: 0, dip: 0 },
                };
                self.turning.drag_ring = Some(ring);
                self.turning.drag = Some(RingDrag { ring, center_px, last_angle: angle, swept: 0, start, dip_room });
                assert(collar_session_ensured(*old(self), mid));
            },
            None => {},
        }
    }

    /// Follows the pointer round the ring: `angle` and `swept` are where it has
    /// come to, `azimuth` and `dip` what that adds up to, `turned` the holes so
    /// turned, and no hole is steeper than `steepest`.
    pub fn collar_rotate_drag_to_cursor(&mut self, angle: u64, swept: u64, azimuth: u64, dip: u64, steepest: u64, turned: &Vec<TurnedHole>)
        ensures
            match old(self).turning.drag {
                Some(drag) if old(self).canvas.cursor_px is Some => rotation_previewed(
                    App {
                        turning: Turning { drag: Some(RingDrag { last_angle: angle, swept, ..drag }), ..old(self).turning },
                        ..*old(self)
                    },
                    advanced(drag.start, drag.ring, azimuth, dip, tilt_room(drag, steepest)),
                    turned@,
                    *final(self),
                ),
                _ => *final(self) == *old(self),
            },
    {
        match self.turning.drag {
            Some(drag) => {
                if self.canvas.cursor_px.is_none() {
                    return ;
                }
                self.turning.drag = Some(RingDrag { last_angle: angle, swept, ..drag });
                let room: (u64, u64) = match drag.start {
                    CollarRotation::Absolute(_) => (negate(steepest), steepest),
                    CollarRotation::Delta { .. } => drag.dip_room,
                };
                let rotation = advance(drag.start, drag.ring, azimuth, dip, room);
                self.preview_collar_rotation(rotation, turned);
            },
            None => {},
        }
    }

    /// Lets go of the ring; the turn stands as a preview.
    pub fn finish_collar_rotate_drag(&mut self)
        ensures
            *final(self) == (if old(self).turning.drag is Some {
                App {
                    turning: Turning { drag: None, drag_ring: None, ..old(self).turning },
                    frame: old(self).frame.geometry().overlay(),
                    ..*old(self)
                }
            } else {
                *old(self)
            }),
    {
        if self.turning.drag.is_none() {
            return ;
        }
        self.turning.drag = None;
        self.turning.drag_ring = None;
        self.invalidate_geometry();
        self.invalidate_overlay();
    }
}

/// What taking hold of a ring does: a turn that stands is carried on.
pub open spec fn ring_held(pre: App, ring: u8, center_px: ScreenPoint, angle: u64, dip_room: (u64, u64), post: App) -> bool {
    exists|mid: App| #[trigger]
        collar_session_ensured(pre, mid) && post == (App {
            turning: Turning {
                drag: Some(
                    RingDrag {
                        ring,
                        center_px,
                        last_angle: angle,
                        swept: 0,
                        start: match pre.turning.rotation {
                            Some(r) => r,
                            None => CollarRotation::Delta { azimuth: 0, dip: 0 },
                        },
                        dip_room,
                    },
                ),
                drag_ring: Some(ring),
                ..mid.turning
            },
            ..mid
        })
}

/// A second list of a group's holes.
pub(crate) fn copy_group(group: &CollarGroup) -> (r: Vec<(usize, HolePlacement)>)
    ensures
        r@ == group.holes@,
{
    let mut r: Vec<(usize, HolePlacement)> = Vec::new();
    let mut i: usize = 0;
    while i < group.holes.len()
        invariant
            i <= group.holes.len(),
            r@ == group.holes@.take(i as int),
        decreases group.holes.len() - i,
    {
        r.push((group.holes[i].0, group.holes[i].1));
        assert(r@ =~= group.holes@.take(i + 1));
        i += 1;
    }
    assert(r@ =~= group.holes@);
    r
}

/// The ring that swings the bearing; any other tilts the hole.
pub const AZIMUTH_RING: u8 = 0;

/// A number within limits.
pub open spec fn kept_within(v: u64, limits: (u64, u64)) -> u64 {
    if f64_less(v, limits.0) {
        limits.0
    } else if f64_less(limits.1, v) {
        limits.1
    } else {
        v
    }
}

fn keep_within(v: u64, limits: (u64, u64)) -> (r: u64)
    ensures
        r == kept_within(v, limits),
{
    if less64(v, limits.0) {
        limits.0
    } else if less64(limits.1, v) {
        limits.1
    } else {
        v
    }
}

/// How far a turn may tilt: one to an aim as far as a hole may be steep, one by
/// so much as far as the captured holes have room.
pub open spec fn tilt_room(drag: RingDrag, steepest: u64) -> (u64, u64) {
    match drag.start {
        CollarRotation::Absolute(_) => (negated(steepest), steepest),
        CollarRotation::Delta { .. } => drag.dip_room,
    }
}

/// What a turn that began so comes to: the azimuth ring moves the bearing to
/// `azimuth`, any other tilts to `dip`, as far as there is room.
pub open spec fn advanced(start: CollarRotation, ring: u8, azimuth: u64, dip: u64, room: (u64, u64)) -> CollarRotation {
    match start {
        CollarRotation::Absolute(o) => CollarRotation::Absolute(
            if ring == AZIMUTH_RING {
                HoleOrientation { azimuth, ..o }
            } else {
                HoleOrientation { dip: kept_within(dip, room), ..o }
            },
        ),
        CollarRotation::Delta { azimuth: a, dip: d } => if ring == AZIMUTH_RING {
            CollarRotation::Delta { azimuth, dip: d }
        } else {
            CollarRotation::Delta { azimuth: a, dip: kept_within(dip, room) }
        },
    }
}

/// What a turn that began so comes to.
pub fn advance(start: CollarRotation, ring: u8, azimuth: u64, dip: u64, room: (u64, u64)) -> (r: CollarRotation)
    ensures
        r == advanced(start, ring, azimuth, dip, room),
{
    match start {
        CollarRotation::Absolute(o) => {
            if ring == AZIMUTH_RING {
                CollarRotation::Absolute(HoleOrientation { azimuth, ..o })
            } else {
                CollarRotation::Absolute(HoleOrientation { dip: keep_within(dip, room), ..o })
            }
        },
        CollarRotation::Delta { azimuth: a, dip: d } => {
            if ring == AZIMUTH_RING {
                CollarRotation::Delta { azimuth, dip: d }
            } else {
                CollarRotation::Delta { azimuth: a, dip: keep_within(dip, room) }
            }
        },
    }
}

/// How steep a turn makes a hole, or how much steeper.
pub open spec fn dip_of(r: CollarRotation) -> u64 {
    match r {
        CollarRotation::Absolute(o) => o.dip,
        CollarRotation::Delta { dip, .. } => dip,
    }
}

/// A turn never tilts beyond its room, and one of the azimuth ring does not
/// tilt at all.
pub proof fn law_turn_keeps_its_room(start: CollarRotation, ring: u8, azimuth: u64, dip: u64, room: (u64, u64))
    requires
        !f64_less(room.1, room.0),
    ensures
        ring == AZIMUTH_RING ==> dip_of(advanced(start, ring, azimuth, dip, room)) == dip_of(start),
        ring != AZIMUTH_RING ==> !f64_less(dip_of(advanced(start, ring, azimuth, dip, room)), room.0) && !f64_less(
            room.1,
            dip_of(advanced(start, ring, azimuth, dip, room)),
        ),
{
}

} // verus!
