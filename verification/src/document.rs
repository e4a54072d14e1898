//! Design documents: layers, the objects on them, and lookups.

use crate::ids::{LayerId, ObjectId};
use crate::ieee::{equal32, equal64, f32_equal, f64_equal, f64_magnitude, magnitude64, Point3, F64_EPSILON, F64_INFINITY};
use crate::search::{find_first, first_index, lemma_first_index};
use crate::text::same_text;
use vstd::prelude::*;

verus! {

/// A vertex of a polyline. `bulge` holds the bits of the `f64` that bends the
/// edge leaving the vertex; zero keeps that edge straight.
#[derive(Clone, Copy, PartialEq, Eq, Structural, Debug)]
pub struct PolyVertex {
    pub pos: Point3,
    pub bulge: u64,
}

impl PolyVertex {
    /// The vertex with a straight edge leaving it.
    pub open spec fn straightened(self) -> PolyVertex {
        PolyVertex { pos: self.pos, bulge: 0 }
    }
}

/// A colour: the bits of four `f32`.
#[derive(Clone, Copy, PartialEq, Eq, Structural, Debug)]
pub struct Rgba {
    pub r: u32,
    pub g: u32,
    pub b: u32,
    pub a: u32,
}

/// How the inside of a closed polyline is drawn.
#[derive(Clone, Copy, PartialEq, Eq, Structural, Debug)]
pub enum FillStyle {
    Clear,
    Solid,
}

/// A layer of a document.
#[derive(Debug)]
pub struct Layer {
    pub id: LayerId,
    pub name: String,
    pub color_index: Option<u16>,
    pub color: Rgba,
    pub visible: bool,
    pub loaded: bool,
    pub elevation: u32,
}

/// What a layer is.
pub ghost struct LayerModel {
    pub id: LayerId,
    pub name: Seq<char>,
    pub color_index: Option<u16>,
    pub color: Rgba,
    pub visible: bool,
    pub loaded: bool,
    pub elevation: u32,
}

impl View for Layer {
    type V = LayerModel;

    open spec fn view(&self) -> LayerModel {
        LayerModel {
            id: self.id,
            name: self.name@,
            color_index: self.color_index,
            color: self.color,
            visible: self.visible,
            loaded: self.loaded,
            elevation: self.elevation,
        }
    }
}

impl Layer {
    /// A second layer with the same settings.
    pub fn copy(&self) -> (r: Layer)
        ensures
            r@ == self@,
    {
        Layer {
            id: self.id,
            name: self.name.clone(),
            color_index: self.color_index,
            color: self.color,
            visible: self.visible,
            loaded: self.loaded,
            elevation: self.elevation,
        }
    }
}

/// A design object.
#[derive(Debug)]
pub enum Object {
    Point { id: ObjectId, layer: LayerId, pos: Point3, color: Rgba },
    Polyline {
        id: ObjectId,
        layer: LayerId,
        verts: Vec<PolyVertex>,
        closed: bool,
        color: Rgba,
        fill: FillStyle,
        line_weight: u32,
    },
    Text { id: ObjectId, layer: LayerId, pos: Point3, content: String, color: Rgba },
}

/// What a design object is.
pub ghost enum ObjectModel {
    Point { id: ObjectId, layer: LayerId, pos: Point3, color: Rgba },
    Polyline {
        id: ObjectId,
        layer: LayerId,
        verts: Seq<PolyVertex>,
        closed: bool,
        color: Rgba,
        fill: FillStyle,
        line_weight: u32,
    },
    Text { id: ObjectId, layer: LayerId, pos: Point3, content: Seq<char>, color: Rgba },
}

impl View for Object {
    type V = ObjectModel;

    open spec fn view(&self) -> ObjectModel {
        match *self {
            Object::Point { id, layer, pos, color } => ObjectModel::Point { id, layer, pos, color },
            Object::Polyline { id, layer, verts, closed, color, fill, line_weight } => ObjectModel::Polyline {
                id,
                layer,
                verts: verts@,
                closed,
                color,
                fill,
                line_weight,
            },
            Object::Text { id, layer, pos, content, color } => ObjectModel::Text { id, layer, pos, content: content@, color },
        }
    }
}

impl ObjectModel {
    pub open spec fn id(self) -> ObjectId {
        match self {
            ObjectModel::Point { id, .. } => id,
            ObjectModel::Polyline { id, .. } => id,
            ObjectModel::Text { id, .. } => id,
        }
    }

    pub open spec fn layer(self) -> LayerId {
        match self {
            ObjectModel::Point { layer, .. } => layer,
            ObjectModel::Polyline { layer, .. } => layer,
            ObjectModel::Text { layer, .. } => layer,
        }
    }

    /// The same object under another id and on another layer.
    pub open spec fn moved_to(self, new_id: ObjectId, new_layer: LayerId) -> ObjectModel {
        match self {
            ObjectModel::Point { pos, color, .. } => ObjectModel::Point { id: new_id, layer: new_layer, pos, color },
            ObjectModel::Polyline { verts, closed, color, fill, line_weight, .. } => ObjectModel::Polyline {
                id: new_id,
                layer: new_layer,
                verts,
                closed,
                color,
                fill,
                line_weight,
            },
            ObjectModel::Text { pos, content, color, .. } => ObjectModel::Text {
                id: new_id,
                layer: new_layer,
                pos,
                content,
                color,
            },
        }
    }
}

/// What the objects of a list are.
pub open spec fn object_models(objects: Seq<Object>) -> Seq<ObjectModel> {
    objects.map_values(|o: Object| o@)
}

/// What the layers of a list are.
pub open spec fn layer_models(layers: Seq<Layer>) -> Seq<LayerModel> {
    layers.map_values(|l: Layer| l@)
}

/// The index of the first of these objects with the id.
pub open spec fn model_index(models: Seq<ObjectModel>, id: ObjectId) -> int {
    first_index(models, |m: ObjectModel| m.id() == id)
}

/// The objects with the one of the same id replaced, where there is one.
pub open spec fn replaced(models: Seq<ObjectModel>, object: ObjectModel) -> Seq<ObjectModel> {
    let i = model_index(models, object.id());
    if i < models.len() {
        models.update(i, object)
    } else {
        models
    }
}

/// The objects with each of these replaced in turn.
pub open spec fn replaced_all(models: Seq<ObjectModel>, objects: Seq<ObjectModel>) -> Seq<ObjectModel>
    decreases objects.len(),
{
    if objects.len() == 0 {
        models
    } else {
        replaced(replaced_all(models, objects.drop_last()), objects.last())
    }
}

/// An id stands at the same place among objects as among what they are.
pub proof fn lemma_model_index(objects: Seq<Object>, id: ObjectId)
    ensures
        object_index(objects, id) == model_index(object_models(objects), id),
{
    let models = object_models(objects);
    lemma_first_index(objects, |o: Object| o@.id() == id);
    lemma_first_index(models, |m: ObjectModel| m.id() == id);
    let i = object_index(objects, id);
    let k = model_index(models, id);
    assert(models.len() == objects.len());
    if i < k {
        assert(models[i] == objects[i]@);
    }
    if k < i {
        assert(models[k] == objects[k]@);
    }
}

/// Replacing an object by one with the same id keeps the ids in their places.
pub proof fn lemma_replaced_ids(models: Seq<ObjectModel>, objects: Seq<ObjectModel>)
    ensures
        replaced_all(models, objects).len() == models.len(),
        forall|i: int| 0 <= i < models.len() ==> (#[trigger] replaced_all(models, objects)[i]).id() == models[i].id(),
    decreases objects.len(),
{
    if objects.len() > 0 {
        lemma_replaced_ids(models, objects.drop_last());
        let mid = replaced_all(models, objects.drop_last());
        lemma_first_index(mid, |m: ObjectModel| m.id() == objects.last().id());
    }
}

/// A second list of the same vertices.
pub fn copy_verts(verts: &Vec<PolyVertex>) -> (r: Vec<PolyVertex>)
    ensures
        r@ == verts@,
{
    let mut r: Vec<PolyVertex> = Vec::new();
    let mut i: usize = 0;
    while i < verts.len()
        invariant
            i <= verts.len(),
            r@ == verts@.take(i as int),
        decreases verts.len() - i,
    {
        r.push(verts[i]);
        i += 1;
    }
    assert(r@ =~= verts@);
    r
}

impl Object {
    /// The object's id.
    pub fn id(&self) -> (r: ObjectId)
        ensures
            r == self@.id(),
    {
        match self {
            Object::Point { id, .. } => *id,
            Object::Polyline { id, .. } => *id,
            Object::Text { id, .. } => *id,
        }
    }

    /// The layer that the object is on.
    pub fn layer(&self) -> (r: LayerId)
        ensures
            r == self@.layer(),
    {
        match self {
            Object::Point { layer, .. } => *layer,
            Object::Polyline { layer, .. } => *layer,
            Object::Text { layer, .. } => *layer,
        }
    }

    /// A second object with the same contents.
    pub fn copy(&self) -> (r: Object)
        ensures
            r@ == self@,
    {
        self.with_id_and_layer(self.id(), self.layer())
    }

    /// The same object under another id and on another layer.
    pub fn with_id_and_layer(&self, new_id: ObjectId, new_layer: LayerId) -> (r: Object)
        ensures
            r@ == self@.moved_to(new_id, new_layer),
    {
        match self {
            Object::Point { pos, color, .. } => Object::Point { id: new_id, layer: new_layer, pos: *pos, color: *color },
            Object::Polyline { verts, closed, color, fill, line_weight, .. } => Object::Polyline {
                id: new_id,
                layer: new_layer,
                verts: copy_verts(verts),
                closed: *closed,
                color: *color,
                fill: *fill,
                line_weight: *line_weight,
            },
            Object::Text { pos, content, color, .. } => Object::Text {
                id: new_id,
                layer: new_layer,
                pos: *pos,
                content: content.clone(),
                color: *color,
            },
        }
    }
}

/// Whether an object can be a source line of a triangulation: an open line of
/// two vertices or more, or a ring of three or more.
pub open spec fn triangulation_polyline(o: ObjectModel) -> bool {
    match o {
        ObjectModel::Polyline { verts, closed, .. } => verts.len() >= if closed { 3int } else { 2 },
        _ => false,
    }
}

/// Whether a vertex bends its edge by more than rounding.
pub open spec fn bulged(v: PolyVertex) -> bool {
    F64_EPSILON < f64_magnitude(v.bulge) <= F64_INFINITY
}

/// Whether an object can bound a drill pattern: a ring of three vertices or
/// more, or of two with a bent edge between them.
pub open spec fn drill_pattern_boundary(o: ObjectModel) -> bool {
    match o {
        ObjectModel::Polyline { verts, closed, .. } => closed && (verts.len() >= 3 || (verts.len() == 2 && exists|i: int|
            0 <= i < verts.len() && bulged(#[trigger] verts[i]))),
        _ => false,
    }
}

/// Whether an object is a ring of three vertices or more.
pub open spec fn closed_ring(o: ObjectModel) -> bool {
    match o {
        ObjectModel::Polyline { verts, closed, .. } => closed && verts.len() >= 3,
        _ => false,
    }
}

/// Whether an object can be a source line of a triangulation.
pub fn is_triangulation_polyline(obj: &Object) -> (r: bool)
    ensures
        r == triangulation_polyline(obj@),
{
    match obj {
        Object::Polyline { verts, closed, .. } => {
            let least: usize = if *closed {
                3
            } else {
                2
            };
            verts.len() >= least
        },
        _ => false,
    }
}

/// Whether an object can bound a drill pattern.
pub fn is_drill_pattern_boundary(object: &Object) -> (r: bool)
    ensures
        r == drill_pattern_boundary(object@),
{
    match object {
        Object::Polyline { verts, closed, .. } => {
            if !*closed {
                false
            } else if verts.len() >= 3 {
                true
            } else if verts.len() == 2 {
                let a: u64 = magnitude64(verts[0].bulge);
                let b: u64 = magnitude64(verts[1].bulge);
                let r = (a > F64_EPSILON && a <= F64_INFINITY) || (b > F64_EPSILON && b <= F64_INFINITY);
                assert(r == (bulged(verts@[0]) || bulged(verts@[1])));
                r
            } else {
                false
            }
        },
        _ => false,
    }
}

/// Whether an object is a ring of three vertices or more.
pub fn is_closed_ring(object: &Object) -> (r: bool)
    ensures
        r == closed_ring(object@),
{
    match object {
        Object::Polyline { verts, closed, .. } => *closed && verts.len() >= 3,
        _ => false,
    }
}

/// Both points lie at the same place.
pub open spec fn same_point(a: Point3, b: Point3) -> bool {
    f64_equal(a.x, b.x) && f64_equal(a.y, b.y) && f64_equal(a.z, b.z)
}

/// Both colours are the same.
pub open spec fn same_color(a: Rgba, b: Rgba) -> bool {
    f32_equal(a.r, b.r) && f32_equal(a.g, b.g) && f32_equal(a.b, b.b) && f32_equal(a.a, b.a)
}

/// Both vertices are the same.
pub open spec fn same_vertex(a: PolyVertex, b: PolyVertex) -> bool {
    same_point(a.pos, b.pos) && f64_equal(a.bulge, b.bulge)
}

/// Both objects are equal, their numbers compared as numbers.
pub open spec fn same_object(a: ObjectModel, b: ObjectModel) -> bool {
    match (a, b) {
        (ObjectModel::Point { id, layer, pos, color }, ObjectModel::Point { id: id2, layer: layer2, pos: pos2, color: color2 }) => id == id2 && layer
            == layer2 && same_point(pos, pos2) && same_color(color, color2),
        (
            ObjectModel::Polyline { id, layer, verts, closed, color, fill, line_weight },
            ObjectModel::Polyline { id: id2, layer: layer2, verts: verts2, closed: closed2, color: color2, fill: fill2, line_weight: weight2 },
        ) => {
            &&& id == id2
            &&& layer == layer2
            &&& verts.len() == verts2.len()
            &&& forall|i: int| 0 <= i < verts.len() ==> same_vertex(#[trigger] verts[i], verts2[i])
            &&& closed == closed2
            &&& same_color(color, color2)
            &&& fill == fill2
            &&& f32_equal(line_weight, weight2)
        },
        (
            ObjectModel::Text { id, layer, pos, content, color },
            ObjectModel::Text { id: id2, layer: layer2, pos: pos2, content: content2, color: color2 },
        ) => id == id2 && layer == layer2 && same_point(pos, pos2) && content == content2 && same_color(color, color2),
        _ => false,
    }
}

pub fn points_equal(a: Point3, b: Point3) -> (r: bool)
    ensures
        r == same_point(a, b),
{
    equal64(a.x, b.x) && equal64(a.y, b.y) && equal64(a.z, b.z)
}

pub fn colors_equal(a: Rgba, b: Rgba) -> (r: bool)
    ensures
        r == same_color(a, b),
{
    equal32(a.r, b.r) && equal32(a.g, b.g) && equal32(a.b, b.b) && equal32(a.a, b.a)
}

fn verts_equal(a: &Vec<PolyVertex>, b: &Vec<PolyVertex>) -> (r: bool)
    ensures
        r == (a@.len() == b@.len() && forall|i: int| 0 <= i < a@.len() ==> same_vertex(#[trigger] a@[i], b@[i])),
{
    if a.len() != b.len() {
        return false;
    }
    let mut i: usize = 0;
    while i < a.len()
        invariant
            i <= a.len(),
            a.len() == b.len(),
            forall|j: int| 0 <= j < i ==> same_vertex(#[trigger] a@[j], b@[j]),
        decreases a.len() - i,
    {
        if !points_equal(a[i].pos, b[i].pos) || !equal64(a[i].bulge, b[i].bulge) {
            assert(!same_vertex(a@[i as int], b@[i as int]));
            return false;
        }
        i += 1;
    }
    true
}

/// Whether the two objects differ.
pub fn objects_differ(before: &Object, after: &Object) -> (r: bool)
    ensures
        r == !same_object(before@, after@),
{
    match (before, after) {
        (Object::Point { id, layer, pos, color }, Object::Point { id: id2, layer: layer2, pos: pos2, color: color2 }) => {
            !(*id == *id2 && *layer == *layer2 && points_equal(*pos, *pos2) && colors_equal(*color, *color2))
        },
        (
            Object::Polyline { id, layer, verts, closed, color, fill, line_weight },
            Object::Polyline { id: id2, layer: layer2, verts: verts2, closed: closed2, color: color2, fill: fill2, line_weight: weight2 },
        ) => {
            !(*id == *id2 && *layer == *layer2 && verts_equal(verts, verts2) && *closed == *closed2 && colors_equal(*color, *color2) && *fill == *fill2
                && equal32(*line_weight, *weight2))
        },
        (
            Object::Text { id, layer, pos, content, color },
            Object::Text { id: id2, layer: layer2, pos: pos2, content: content2, color: color2 },
        ) => {
            !(*id == *id2 && *layer == *layer2 && points_equal(*pos, *pos2) && same_text(content.as_str(), content2.as_str()) && colors_equal(*color, *color2))
        },
        _ => true,
    }
}

/// A document: its layers and objects in order, and the next free ids.
#[derive(Debug)]
pub struct Document {
    pub layers: Vec<Layer>,
    pub objects: Vec<Object>,
    pub next_layer_id: u64,
    pub next_object_id: u64,
}

/// The index of the first object with the id, or the number of objects.
pub open spec fn object_index(objects: Seq<Object>, id: ObjectId) -> int {
    first_index(objects, |o: Object| o@.id() == id)
}

/// The index of the first layer with the id, or the number of layers.
pub open spec fn layer_index(layers: Seq<Layer>, id: LayerId) -> int {
    first_index(layers, |l: Layer| l.id == id)
}

impl Document {
    /// The object with the id, if the document has one.
    pub open spec fn object(&self, id: ObjectId) -> Option<ObjectModel> {
        let i = object_index(self.objects@, id);
        if i < self.objects@.len() {
            Some(self.objects@[i]@)
        } else {
            None
        }
    }

    /// The layer with the id, if the document has one.
    pub open spec fn layer_model(&self, id: LayerId) -> Option<LayerModel> {
        let i = layer_index(self.layers@, id);
        if i < self.layers@.len() {
            Some(self.layers@[i]@)
        } else {
            None
        }
    }

    /// The ids of the document's objects.
    pub open spec fn object_ids(&self) -> Set<ObjectId> {
        self.objects@.map_values(|o: Object| o@.id()).to_set()
    }

    /// Some layer has the name.
    pub open spec fn has_layer_named(&self, name: Seq<char>) -> bool {
        exists|i: int| 0 <= i < self.layers@.len() && (#[trigger] self.layers@[i]).name@ == name
    }

    /// The first layer with the name.
    pub fn layer_id_by_name(&self, name: &str) -> (r: Option<LayerId>)
        ensures
            r is Some <==> self.has_layer_named(name@),
            r == (if self.has_layer_named(name@) {
                Some(self.layers@[first_index(self.layers@, |l: Layer| l.name@ == name@)].id)
            } else {
                None
            }),
    {
        proof {
            lemma_first_index(self.layers@, |l: Layer| l.name@ == name@);
        }
        match find_first(&self.layers, Ghost(|l: Layer| l.name@ == name@), |l: &Layer| -> (b: bool)
            ensures
                b == (l.name@ == name@),
            { same_text(l.name.as_str(), name) }) {
            Some(i) => Some(self.layers[i].id),
            None => None,
        }
    }

    /// Where the object with the id stands.
    pub fn find_object(&self, id: ObjectId) -> (r: Option<usize>)
        ensures
            match r {
                Some(i) => i == object_index(self.objects@, id) && i < self.objects@.len(),
                None => object_index(self.objects@, id) == self.objects@.len(),
            },
    {
        find_first(&self.objects, Ghost(|o: Object| o@.id() == id), |o: &Object| -> (b: bool)
            ensures
                b == (o@.id() == id),
            { o.id() == id })
    }

    /// Where the layer with the id stands.
    pub fn find_layer(&self, id: LayerId) -> (r: Option<usize>)
        ensures
            match r {
                Some(i) => i == layer_index(self.layers@, id) && i < self.layers@.len(),
                None => layer_index(self.layers@, id) == self.layers@.len(),
            },
    {
        find_first(&self.layers, Ghost(|l: Layer| l.id == id), |l: &Layer| -> (b: bool)
            ensures
                b == (l.id == id),
            { l.id == id })
    }

    /// Takes the next free object id.
    pub fn allocate_object_id(&mut self) -> (r: ObjectId)
        requires
            old(self).next_object_id < u64::MAX,
        ensures
            r == ObjectId(old(self).next_object_id),
            *final(self) == (Document { next_object_id: (old(self).next_object_id + 1) as u64, ..*old(self) }),
    {
        let id = ObjectId(self.next_object_id);
        self.next_object_id += 1;
        id
    }

    /// Takes the next free layer id.
    pub fn allocate_layer_id(&mut self) -> (r: LayerId)
        requires
            old(self).next_layer_id < u64::MAX,
        ensures
            r == LayerId(old(self).next_layer_id),
            *final(self) == (Document { next_layer_id: (old(self).next_layer_id + 1) as u64, ..*old(self) }),
    {
        let id = LayerId(self.next_layer_id);
        self.next_layer_id += 1;
        id
    }

    /// Puts the object in the place of the one with its id, where there is one.
    pub fn replace_object(&mut self, object: Object)
        ensures
            *final(self) == (Document { objects: final(self).objects, ..*old(self) }),
            object_models(final(self).objects@) == replaced(object_models(old(self).objects@), object@),
    {
        proof {
            lemma_model_index(self.objects@, object@.id());
        }
        match self.find_object(object.id()) {
            Some(i) => {
                self.objects.set(i, object);
                assert(object_models(self.objects@) =~= object_models(old(self).objects@).update(i as int, object@));
            },
            None => {},
        }
    }

    /// Puts each object in the place of the one with its id.
    pub fn replace_objects(&mut self, objects: &Vec<Object>)
        ensures
            *final(self) == (Document { objects: final(self).objects, ..*old(self) }),
            object_models(final(self).objects@) == replaced_all(object_models(old(self).objects@), object_models(objects@)),
    {
        let ghost models = object_models(objects@);
        let mut i: usize = 0;
        assert(models.take(0) =~= Seq::<ObjectModel>::empty());
        while i < objects.len()
            invariant
                i <= objects.len(),
                models == object_models(objects@),
                *self == (Document { objects: self.objects, ..*old(self) }),
                object_models(self.objects@) == replaced_all(object_models(old(self).objects@), models.take(i as int)),
            decreases objects.len() - i,
        {
            self.replace_object(objects[i].copy());
            assert(models.take(i + 1).drop_last() =~= models.take(i as int));
            i += 1;
        }
        assert(models.take(objects@.len() as int) =~= models);
    }

    /// The object with the id.
    pub fn get_object(&self, id: ObjectId) -> (r: Option<&Object>)
        ensures
            match r {
                Some(o) => self.object(id) == Some(o@),
                None => self.object(id) is None,
            },
    {
        match self.find_object(id) {
            Some(i) => Some(&self.objects[i]),
            None => None,
        }
    }

    /// The layer with the id.
    pub fn layer(&self, id: LayerId) -> (r: Option<&Layer>)
        ensures
            match r {
                Some(l) => self.layer_model(id) == Some(l@),
                None => self.layer_model(id) is None,
            },
    {
        match self.find_layer(id) {
            Some(i) => Some(&self.layers[i]),
            None => None,
        }
    }
}

} // verus!
