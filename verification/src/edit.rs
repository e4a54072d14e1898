//! Edits handed to the undo history.

use crate::document::{Layer, Object, ObjectModel, LayerModel};
use crate::ids::{DrillHoleId, ItemRef, LayerId, ObjectId};
use crate::ieee::{equal64, f64_equal, f64_finite, finite64, Point3};
use crate::items::{HolePlacement, Initiation, OpenItem, TieIn};
use crate::state::CollarRotation;
use crate::styles::ItemStyle;
use vstd::prelude::*;

verus! {

/// One change to a document or to a project item.
#[allow(inconsistent_fields)]
pub enum Edit {
    AddObject(Object),
    DeleteObject(Object),
    Replace { before: Object, after: Object },
    AddLayer { layer: Layer, objects: Vec<Object> },
    DeleteLayer { layer: Layer, layer_index: usize, placed: Vec<(usize, Object)> },
    SetLayerVisible { id: LayerId, from: bool, to: bool },
    SetLayerLoaded { id: LayerId, from: bool, to: bool },
    SetObjectHidden { object: ObjectId, from: bool, to: bool },
    SetLayerElevation { layer: LayerId, before: u32, after: u32 },
    DeleteItem(ItemRef),
    AddItem { index: usize, item: OpenItem },
    ReplaceItem(OpenItem),
    SetItemStyle { item: ItemRef, before: ItemStyle, after: ItemStyle },
    SetTieIns { dataset: DrillHoleId, before: Vec<TieIn>, after: Vec<TieIn> },
    SetInitiation { dataset: DrillHoleId, before: Option<Initiation>, after: Option<Initiation> },
    MoveCollars { dataset: DrillHoleId, holes: Vec<(usize, HolePlacement)>, shift: Shift },
    RotateCollars { dataset: DrillHoleId, holes: Vec<(usize, HolePlacement)>, rotation: CollarRotation },
}

/// How far a move goes: so far, or as far as from one point to another.
#[derive(Clone, Copy, PartialEq, Eq, Structural, Debug)]
pub enum Shift {
    By(Point3),
    Between { from: Point3, to: Point3 },
}

/// The difference of two coordinates is zero.
pub open spec fn no_distance(from: u64, to: u64) -> bool {
    f64_finite(from) && f64_finite(to) && f64_equal(from, to)
}

impl Shift {
    /// The move goes nowhere.
    pub open spec fn still(self) -> bool {
        match self {
            Shift::By(d) => f64_equal(d.x, 0) && f64_equal(d.y, 0) && f64_equal(d.z, 0),
            Shift::Between { from, to } => no_distance(from.x, to.x) && no_distance(from.y, to.y) && no_distance(from.z, to.z),
        }
    }

    /// Whether the move goes nowhere.
    pub fn is_still(self) -> (r: bool)
        ensures
            r == self.still(),
    {
        match self {
            Shift::By(d) => equal64(d.x, 0) && equal64(d.y, 0) && equal64(d.z, 0),
            Shift::Between { from, to } => finite64(from.x) && finite64(to.x) && equal64(from.x, to.x) && finite64(from.y) && finite64(to.y) && equal64(
                from.y,
                to.y,
            ) && finite64(from.z) && finite64(to.z) && equal64(from.z, to.z),
        }
    }
}

impl Edit {
    /// The edit adds this object.
    pub open spec fn adds(self, object: ObjectModel) -> bool {
        match self {
            Edit::AddObject(o) => o@ == object,
            _ => false,
        }
    }

    /// The edit deletes this object.
    pub open spec fn deletes(self, object: ObjectModel) -> bool {
        match self {
            Edit::DeleteObject(o) => o@ == object,
            _ => false,
        }
    }

    /// The edit replaces one object by the other.
    pub open spec fn replaces(self, from: ObjectModel, to: ObjectModel) -> bool {
        match self {
            Edit::Replace { before, after } => before@ == from && after@ == to,
            _ => false,
        }
    }

    /// The edit adds this layer with these objects on it.
    pub open spec fn adds_layer(self, model: LayerModel, on_layer: Seq<ObjectModel>) -> bool {
        match self {
            Edit::AddLayer { layer, objects } => layer@ == model && crate::document::object_models(objects@) == on_layer,
            _ => false,
        }
    }

    /// The edit deletes this layer from this place, with these objects from theirs.
    pub open spec fn deletes_layer(self, model: LayerModel, at: int, on_layer: Seq<(int, ObjectModel)>) -> bool {
        match self {
            Edit::DeleteLayer { layer, layer_index, placed } => layer@ == model && layer_index == at && placed_models(placed@) == on_layer,
            _ => false,
        }
    }
}

/// What objects with their places are.
pub open spec fn placed_models(objects: Seq<(usize, Object)>) -> Seq<(int, ObjectModel)> {
    objects.map_values(|p: (usize, Object)| (p.0 as int, p.1@))
}

/// One step of the undo history: a single edit, or several that are undone
/// together. `applied` tells that the document already shows the change;
/// `project` names the project by its runtime id where it is not the active one.
pub struct Step {
    pub edits: Vec<Edit>,
    pub batch: bool,
    pub applied: bool,
    pub project: Option<u32>,
}

impl Step {
    /// The step is this one edit, still to be carried out.
    pub open spec fn single(self) -> bool {
        self.edits@.len() == 1 && !self.batch && !self.applied && self.project is None
    }
}

} // verus!
