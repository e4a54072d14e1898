//! Layers: making, copying, deleting, loading, showing and locking them.

use crate::arrivals::ONE;
use crate::document::{layer_index, layer_models, object_models, Document, Layer, LayerModel, Object, ObjectModel, Rgba};
use crate::edit::{placed_models, Edit, Step};
use crate::ids::{IdSet, LayerId, ObjectId, SceneEntityId};
use crate::merging::layer_names;
use crate::names::{make_unique, unique_name};
use crate::snapshots::objects_on;
use crate::state::{activated, App, Canvas, Selection, Visibility};
use crate::text::join;
use crate::workspace::{index_of_layer, OpenProject, Workspace};
use vstd::prelude::*;

verus! {

/// White.
pub open spec fn white() -> Rgba {
    Rgba { r: ONE, g: ONE, b: ONE, a: ONE }
}

/// A name that no layer of the document has.
pub fn unique_layer_name(document: &Document, preferred: &str) -> (r: String)
    ensures
        r@ == unique_name(layer_names(layer_models(document.layers@)), preferred@),
{
    let taken = document.names_of_layers();
    make_unique(&taken, preferred)
}

/// The objects on a layer, in their order.
pub fn objects_on_layer(document: &Document, layer: LayerId) -> (r: Vec<Object>)
    ensures
        object_models(r@) == objects_on(object_models(document.objects@), layer),
{
    let ghost models = object_models(document.objects@);
    let ghost keep = |o: ObjectModel| o.layer() == layer;
    let mut kept: Vec<Object> = Vec::new();
    let mut i: usize = 0;
    proof {
        reveal(Seq::filter);
        assert(object_models(kept@) =~= models.take(0).filter(keep));
    }
    while i < document.objects.len()
        invariant
            i <= document.objects.len(),
            models == object_models(document.objects@),
            keep == (|o: ObjectModel| o.layer() == layer),
            object_models(kept@) == models.take(i as int).filter(keep),
        decreases document.objects.len() - i,
    {
        let ghost before = kept@;
        proof {
            reveal(Seq::filter);
            assert(models.take(i + 1).drop_last() =~= models.take(i as int));
            assert(models[i as int] == document.objects@[i as int]@);
        }
        if document.objects[i].layer() == layer {
            kept.push(document.objects[i].copy());
            assert(object_models(kept@) =~= object_models(before).push(models[i as int]));
        }
        i += 1;
    }
    assert(models.take(models.len() as int) =~= models);
    kept
}

/// The objects on a layer among the first `n`, with their places.
pub open spec fn positioned_on(models: Seq<ObjectModel>, layer: LayerId, n: int) -> Seq<(int, ObjectModel)>
    decreases n,
{
    if n <= 0 {
        Seq::empty()
    } else {
        let before = positioned_on(models, layer, n - 1);
        if models[n - 1].layer() == layer {
            before.push((n - 1, models[n - 1]))
        } else {
            before
        }
    }
}

/// The objects on a layer with their places.
pub fn positioned_objects_on_layer(document: &Document, layer: LayerId) -> (r: Vec<(usize, Object)>)
    ensures
        placed_models(r@) == positioned_on(object_models(document.objects@), layer, document.objects@.len() as int),
{
    let ghost models = object_models(document.objects@);
    let mut kept: Vec<(usize, Object)> = Vec::new();
    let mut i: usize = 0;
    assert(placed_models(kept@) =~= positioned_on(models, layer, 0));
    while i < document.objects.len()
        invariant
            i <= document.objects.len(),
            models == object_models(document.objects@),
            placed_models(kept@) == positioned_on(models, layer, i as int),
        decreases document.objects.len() - i,
    {
        let ghost before = kept@;
        assert(models[i as int] == document.objects@[i as int]@);
        if document.objects[i].layer() == layer {
            kept.push((i, document.objects[i].copy()));
            assert(placed_models(kept@) =~= placed_models(before).push((i as int, models[i as int])));
        }
        i += 1;
    }
    kept
}

/// One step was handed to the history: a single edit to be carried out.
pub open spec fn one_edit(pre: Seq<Step>, post: Seq<Step>) -> bool {
    post.len() == pre.len() + 1 && post.drop_last() == pre && post.last().single()
}

/// Nothing is selected on the canvas.
pub open spec fn handles_cleared(pre: Selection, post: Selection) -> bool {
    post == (Selection { handles: post.handles, ..pre }) && post.handles@ == Set::<SceneEntityId>::empty()
}

/// One project changed.
pub open spec fn project_changed(pre: Workspace, i: int, post: Workspace) -> bool {
    &&& post == (Workspace { projects: post.projects, ..pre })
    &&& post.projects@ == pre.projects@.update(i, post.projects@[i])
}

/// A project whose layer was loaded.
pub open spec fn layer_loaded_in(pre: OpenProject, document: Document, layer: LayerId, post: OpenProject) -> bool {
    &&& post == (OpenProject { document, loaded_layers: post.loaded_layers, ..pre })
    &&& post.loaded_layers@ == pre.loaded_layers@.insert(layer)
}

/// What making a layer does.
pub open spec fn layer_created(pre: App, name: Seq<char>, post: App) -> bool {
    match pre.workspace.active_index {
        Some(i) if i < pre.workspace.projects@.len() => {
            let p = pre.workspace.projects@[i as int];
            let id = LayerId(p.document.next_layer_id);
            let document = Document { next_layer_id: (p.document.next_layer_id + 1) as u64, ..p.document };
            &&& post == (App {
                workspace: post.workspace,
                steps: post.steps,
                selection: post.selection,
                canvas: Canvas { active_layer: Some(id), ..pre.canvas },
                frame: pre.frame.geometry(),
                ..pre
            })
            &&& project_changed(pre.workspace, i as int, post.workspace)
            &&& layer_loaded_in(p, document, id, post.workspace.projects@[i as int])
            &&& handles_cleared(pre.selection, post.selection)
            &&& one_edit(pre.steps@, post.steps@)
            &&& post.steps@.last().edits@[0].adds_layer(
                LayerModel { id, name, color_index: None, color: white(), visible: true, loaded: true, elevation: 0 },
                Seq::empty(),
            )
        },
        _ => post == pre,
    }
}

/// What deleting a layer does.
pub open spec fn layer_deleted(pre: App, layer: LayerId, post: App) -> bool {
    match pre.workspace.active_index {
        Some(i) if i < pre.workspace.projects@.len() && pre.workspace.projects@[i as int].document.layer_model(layer) is Some => {
            let p = pre.workspace.projects@[i as int];
            &&& post == (App {
                workspace: post.workspace,
                steps: post.steps,
                selection: post.selection,
                canvas: Canvas {
                    active_layer: if pre.canvas.active_layer == Some(layer) {
                        None
                    } else {
                        pre.canvas.active_layer
                    },
                    pending_delete_layer: None,
                    ..pre.canvas
                },
                frame: pre.frame.geometry(),
                ..pre
            })
            &&& project_changed(pre.workspace, i as int, post.workspace)
            &&& layer_forgotten(p, layer, post.workspace.projects@[i as int])
            &&& handles_cleared(pre.selection, post.selection)
            &&& one_edit(pre.steps@, post.steps@)
            &&& post.steps@.last().edits@[0].deletes_layer(
                p.document.layer_model(layer)->0,
                layer_index(p.document.layers@, layer),
                positioned_on(object_models(p.document.objects@), layer, p.document.objects@.len() as int),
            )
        },
        _ => post == (App { canvas: Canvas { pending_delete_layer: None, ..pre.canvas }, ..pre }),
    }
}

/// Objects under consecutive ids on one layer.
pub open spec fn copied_to(models: Seq<ObjectModel>, first: u64, layer: LayerId) -> Seq<ObjectModel> {
    Seq::new(models.len(), |k: int| models[k].moved_to(ObjectId((first + k) as u64), layer))
}

/// What copying a layer does: the copy has a free name and holds copies of
/// the objects on the layer.
pub open spec fn layer_duplicated(pre: App, layer: LayerId, post: App) -> bool {
    match pre.workspace.active_index {
        Some(i) if i < pre.workspace.projects@.len() && pre.workspace.projects@[i as int].document.layer_model(layer) is Some => {
            let p = pre.workspace.projects@[i as int];
            let source = p.document.layer_model(layer)->0;
            let id = LayerId(p.document.next_layer_id);
            let objects = objects_on(object_models(p.document.objects@), layer);
            let document = Document {
                next_layer_id: (p.document.next_layer_id + 1) as u64,
                next_object_id: (p.document.next_object_id + objects.len()) as u64,
                ..p.document
            };
            &&& post == (App { workspace: post.workspace, steps: post.steps, selection: post.selection, frame: pre.frame.geometry(), ..pre })
            &&& project_changed(pre.workspace, i as int, post.workspace)
            &&& layer_loaded_in(p, document, id, post.workspace.projects@[i as int])
            &&& handles_cleared(pre.selection, post.selection)
            &&& one_edit(pre.steps@, post.steps@)
            &&& post.steps@.last().edits@[0].adds_layer(
                LayerModel { id, name: unique_name(layer_names(layer_models(p.document.layers@)), source.name + " copy"@), ..source },
                copied_to(objects, p.document.next_object_id, id),
            )
        },
        _ => post == pre,
    }
}

/// What loading a layer does.
pub open spec fn layer_loaded(pre: App, layer: LayerId, post: App) -> bool {
    let projects = pre.workspace.projects@;
    let i = index_of_layer(projects, layer);
    if i >= projects.len() {
        post == pre
    } else {
        let empty = pre.scene.objects@.len() == 0 && pre.items.triangulations@.len() == 0;
        &&& post == (App {
            workspace: post.workspace,
            selection: post.selection,
            frame: crate::loads::fitted_if(pre.frame.geometry(), empty),
            ..pre
        })
        &&& project_changed(pre.workspace, i, post.workspace)
        &&& layer_loaded_in(projects[i], projects[i].document, layer, post.workspace.projects@[i])
        &&& handles_cleared(pre.selection, post.selection)
    }
}

/// The handles of the objects on a layer.
pub open spec fn handles_on(objects: Seq<ObjectModel>, layer: LayerId) -> Set<SceneEntityId> {
    Set::new(|h: SceneEntityId| h matches SceneEntityId::Object(id) && exists|i: int|
        0 <= i < objects.len() && (#[trigger] objects[i]).id() == id && objects[i].layer() == layer)
}

/// What selecting everything on a layer does.
pub open spec fn layer_selected(pre: App, layer: LayerId, post: App) -> bool {
    match pre.workspace.active() {
        Some(p) if p.loaded_layers@.contains(layer) => {
            &&& post == (App {
                selection: post.selection,
                canvas: Canvas { active_layer: Some(layer), context_menu_open: false, ..pre.canvas },
                frame: pre.frame.geometry().overlay(),
                ..pre
            })
            &&& post.selection == (Selection {
                handles: post.selection.handles,
                tri_objects: post.selection.tri_objects,
                tri_layers: post.selection.tri_layers,
                ..pre.selection
            })
            &&& post.selection.handles@ == handles_on(object_models(p.document.objects@), layer)
            &&& post.selection.tri_objects@.len() == 0
            &&& post.selection.tri_layers@.len() == 0
        },
        _ => post == pre,
    }
}

/// Handles that are gone from sets.
pub open spec fn handles_dropped(pre: Visibility, gone: Set<SceneEntityId>, post: Visibility) -> bool {
    &&& post == (Visibility {
        hidden: post.hidden,
        frozen: post.frozen,
        explicitly_frozen: post.explicitly_frozen,
        translucent: post.translucent,
        ..pre
    })
    &&& post.hidden@ == pre.hidden@.difference(gone)
    &&& post.frozen@ == pre.frozen@.difference(gone)
    &&& post.explicitly_frozen@ == pre.explicitly_frozen@.difference(gone)
    &&& post.translucent@ == pre.translucent@.difference(gone)
}

/// What unloading a layer does.
pub open spec fn layer_unloaded(pre: App, layer: LayerId, post: App) -> bool {
    let projects = pre.workspace.projects@;
    let i = index_of_layer(projects, layer);
    if i >= projects.len() || !projects[i].loaded_layers@.contains(layer) {
        post == pre
    } else {
        let gone = handles_on(object_models(projects[i].document.objects@), layer);
        &&& post == (App {
            workspace: post.workspace,
            selection: post.selection,
            visibility: post.visibility,
            canvas: Canvas {
                active_layer: if pre.canvas.active_layer == Some(layer) {
                    None
                } else {
                    pre.canvas.active_layer
                },
                ..pre.canvas
            },
            frame: pre.frame.geometry(),
            ..pre
        })
        &&& project_changed(pre.workspace, i, post.workspace)
        &&& layer_forgotten(projects[i], layer, post.workspace.projects@[i])
        &&& post.selection == (Selection { handles: post.selection.handles, ..pre.selection })
        &&& post.selection.handles@ == pre.selection.handles@.difference(gone)
        &&& handles_dropped(pre.visibility, gone, post.visibility)
    }
}

/// The state once the project that holds a layer was made the active one.
pub open spec fn with_project_of(pre: App, layer: LayerId) -> App {
    App {
        workspace: Workspace { active_index: activated(pre.workspace, index_of_layer(pre.workspace.projects@, layer)), ..pre.workspace },
        ..pre
    }
}

/// What showing or hiding a layer does.
pub open spec fn layer_visibility_toggled(pre: App, layer: LayerId, post: App) -> bool {
    let active = with_project_of(pre, layer);
    match active.workspace.active() {
        Some(p) if p.document.layer_model(layer) is Some => {
            let shown = p.document.layer_model(layer)->0.visible;
            &&& post == (App { steps: post.steps, frame: pre.frame.geometry(), ..active })
            &&& one_edit(pre.steps@, post.steps@)
            &&& post.steps@.last().edits@[0] == (Edit::SetLayerVisible { id: layer, from: shown, to: !shown })
        },
        _ => post == active,
    }
}

/// What locking or unlocking a layer does: one that is locked is not drawn on,
/// and nothing on it stays selected.
pub open spec fn layer_lock_toggled(pre: App, layer: LayerId, post: App) -> bool {
    let active = with_project_of(pre, layer);
    match active.workspace.active() {
        Some(p) if p.document.layer_model(layer) is Some => {
            let was = pre.visibility.locked_layers@.contains(layer);
            &&& post == (App {
                visibility: Visibility { locked_layers: post.visibility.locked_layers, ..pre.visibility },
                canvas: Canvas {
                    active_layer: if !was && pre.canvas.active_layer == Some(layer) {
                        None
                    } else {
                        pre.canvas.active_layer
                    },
                    ..pre.canvas
                },
                selection: post.selection,
                frame: pre.frame.geometry(),
                ..active
            })
            &&& post.selection == (Selection { handles: post.selection.handles, ..pre.selection })
            &&& post.selection.handles@ == (if was {
                pre.selection.handles@
            } else {
                pre.selection.handles@.difference(handles_on(object_models(p.document.objects@), layer))
            })
            &&& post.visibility.locked_layers@ == (if was {
                pre.visibility.locked_layers@.remove(layer)
            } else {
                pre.visibility.locked_layers@.insert(layer)
            })
        },
        _ => post == active,
    }
}

/// A layer that is locked is never the one that is drawn on, and once it was
/// locked nothing on it is selected.
pub proof fn law_locking_stops_drawing(pre: App, layer: LayerId, post: App)
    requires
        layer_lock_toggled(pre, layer, post),
        pre.visibility.locked_layers@.contains(layer) ==> pre.canvas.active_layer != Some(layer),
        index_of_layer(pre.workspace.projects@, layer) < pre.workspace.projects@.len(),
    ensures
        post.visibility.locked_layers@.contains(layer) ==> post.canvas.active_layer != Some(layer),
        !pre.visibility.locked_layers@.contains(layer) ==> post.selection.handles@.disjoint(
            handles_on(object_models(pre.workspace.projects@[index_of_layer(pre.workspace.projects@, layer)].document.objects@), layer),
        ),
{
    crate::search::lemma_first_index(pre.workspace.projects@, |p: OpenProject| crate::workspace::holds_layer(p, layer));
    let i = index_of_layer(pre.workspace.projects@, layer);
    assert(pre.workspace.projects.len() == pre.workspace.projects@.len());
    assert(with_project_of(pre, layer).workspace.active() == Some(pre.workspace.projects@[i]));
}

/// Unloading a layer takes nothing out of the design: every project keeps its
/// document, and with it what is not saved yet.
pub proof fn law_unloading_keeps_the_design(pre: App, layer: LayerId, post: App)
    requires
        layer_unloaded(pre, layer, post),
    ensures
        post.workspace.projects@.len() == pre.workspace.projects@.len(),
        forall|i: int| 0 <= i < pre.workspace.projects@.len() ==> (#[trigger] post.workspace.projects@[i]).document == pre.workspace.projects@[i].document,
        forall|i: int| 0 <= i < pre.workspace.projects@.len() ==> (#[trigger] post.workspace.projects@[i]).dirty() == pre.workspace.projects@[i].dirty(),
{
    crate::search::lemma_first_index(pre.workspace.projects@, |p: OpenProject| crate::workspace::holds_layer(p, layer));
}

/// Locking a layer twice changes nothing about what is locked.
pub proof fn law_lock_twice(pre: App, mid: App, post: App, layer: LayerId)
    requires
        layer_lock_toggled(pre, layer, mid),
        layer_lock_toggled(mid, layer, post),
    ensures
        post.visibility.locked_layers@ == pre.visibility.locked_layers@,
{
    let locked = pre.visibility.locked_layers@;
    if post.visibility.locked_layers@ != locked {
        assert(locked.remove(layer).insert(layer) =~= locked || !locked.contains(layer));
        assert(locked.insert(layer).remove(layer) =~= locked || locked.contains(layer));
    }
}

fn layer_handles(document: &Document, layer: LayerId) -> (r: Vec<SceneEntityId>)
    ensures
        r@.to_set() == handles_on(object_models(document.objects@), layer),
{
    let ghost models = object_models(document.objects@);
    let mut handles: Vec<SceneEntityId> = Vec::new();
    let mut i: usize = 0;
    while i < document.objects.len()
        invariant
            i <= document.objects.len(),
            models == object_models(document.objects@),
            forall|h: SceneEntityId| #[trigger]
                handles@.contains(h) <==> (h matches SceneEntityId::Object(id) && exists|j: int|
                    0 <= j < i && (#[trigger] models[j]).id() == id && models[j].layer() == layer),
        decreases document.objects.len() - i,
    {
        let ghost before = handles@;
        assert(models[i as int] == document.objects@[i as int]@);
        if document.objects[i].layer() == layer {
            handles.push(SceneEntityId::Object(document.objects[i].id()));
        }
        i += 1;
        assert forall|h: SceneEntityId| #[trigger]
            handles@.contains(h) <==> (h matches SceneEntityId::Object(id) && exists|j: int|
                0 <= j < i && (#[trigger] models[j]).id() == id && models[j].layer() == layer) by {
            if before.contains(h) {
                let k = choose|k: int| 0 <= k < before.len() && before[k] == h;
                assert(handles@[k] == h);
            }
            if handles@.contains(h) {
                let k = choose|k: int| 0 <= k < handles@.len() && handles@[k] == h;
                if k < before.len() {
                    assert(before[k] == h);
                    assert(before.contains(h));
                } else {
                    assert(models[i - 1].layer() == layer);
                }
            }
            if let SceneEntityId::Object(id) = h {
                if exists|j: int| 0 <= j < i && (#[trigger] models[j]).id() == id && models[j].layer() == layer {
                    let j = choose|j: int| 0 <= j < i && (#[trigger] models[j]).id() == id && models[j].layer() == layer;
                    if j == i - 1 {
                        assert(handles@[handles@.len() - 1] == h);
                    } else {
                        assert(before.contains(h));
                    }
                }
            }
        }
    }
    proof {
        assert forall|h: SceneEntityId| handles@.to_set().contains(h) <==> handles_on(models, layer).contains(h) by {
            assert(handles@.to_set().contains(h) <==> handles@.contains(h));
        }
        assert(handles@.to_set() =~= handles_on(models, layer));
    }
    handles
}

/// Takes handles out of a set.
pub fn drop_handles(set: &mut IdSet<SceneEntityId>, gone: &Vec<SceneEntityId>)
    ensures
        final(set)@ == old(set)@.difference(gone@.to_set()),
{
    let mut i: usize = 0;
    assert(set@ =~= old(set)@.difference(gone@.take(0).to_set()));
    while i < gone.len()
        invariant
            i <= gone.len(),
            set@ == old(set)@.difference(gone@.take(i as int).to_set()),
        decreases gone.len() - i,
    {
        set.remove(gone[i]);
        proof {
            crate::ids::lemma_take_to_set(gone@, i as int);
            assert(set@ =~= old(set)@.difference(gone@.take(i + 1).to_set()));
        }
        i += 1;
    }
    assert(gone@.take(gone@.len() as int) =~= gone@);
}

impl Visibility {
    /// Takes handles out of every set.
    pub fn drop_handles(&mut self, gone: &Vec<SceneEntityId>)
        ensures
            handles_dropped(*old(self), gone@.to_set(), *final(self)),
    {
        drop_handles(&mut self.hidden, gone);
        drop_handles(&mut self.frozen, gone);
        drop_handles(&mut self.explicitly_frozen, gone);
        drop_handles(&mut self.translucent, gone);
    }
}

impl Selection {
    fn clear_handles(&mut self)
        ensures
            handles_cleared(*old(self), *final(self)),
    {
        self.handles.clear();
    }
}

impl Canvas {
    /// The layer is no longer the one that is drawn on.
    fn stop_drawing_on(&mut self, layer: LayerId)
        ensures
            *final(self) == (Canvas {
                active_layer: if old(self).active_layer == Some(layer) {
                    None
                } else {
                    old(self).active_layer
                },
                ..*old(self)
            }),
    {
        let drawn_on = match self.active_layer {
            Some(l) => l == layer,
            None => false,
        };
        if drawn_on {
            self.active_layer = None;
        }
    }
}

/// A project one of whose layers is no longer loaded.
pub open spec fn layer_forgotten(pre: OpenProject, layer: LayerId, post: OpenProject) -> bool {
    post == (OpenProject { loaded_layers: post.loaded_layers, ..pre }) && post.loaded_layers@ == pre.loaded_layers@.remove(layer)
}

impl Workspace {
    fn forget_loaded(&mut self, i: usize, layer: LayerId)
        requires
            i < old(self).projects@.len(),
        ensures
            project_changed(*old(self), i as int, *final(self)),
            layer_forgotten(old(self).projects@[i as int], layer, final(self).projects@[i as int]),
    {
        self.projects[i].loaded_layers.remove(layer);
        assert(self.projects@ =~= old(self).projects@.update(i as int, self.projects@[i as int]));
    }
}

impl Document {
    fn copies_on(&mut self, layer: LayerId, home: LayerId) -> (r: Vec<Object>)
        requires
            old(self).next_object_id + old(self).objects@.len() <= u64::MAX,
        ensures
            object_models(r@) == copied_to(objects_on(object_models(old(self).objects@), layer), old(self).next_object_id, home),
            *final(self) == (Document { next_object_id: (old(self).next_object_id + r@.len()) as u64, ..*old(self) }),
    {
        let sources = objects_on_layer(self, layer);
        let ghost models = object_models(sources@);
        proof {
            lemma_filter_len(object_models(self.objects@), |o: ObjectModel| o.layer() == layer);
        }
        let first: u64 = self.next_object_id;
        let mut copies: Vec<Object> = Vec::new();
        let mut k: usize = 0;
        while k < sources.len()
            invariant
                k <= sources.len(),
                models == object_models(sources@),
                first == old(self).next_object_id,
                first + sources@.len() <= u64::MAX,
                copies@.len() == k,
                forall|j: int| 0 <= j < k ==> (#[trigger] copies@[j])@ == models[j].moved_to(ObjectId((first + j) as u64), home),
                *self == (Document { next_object_id: (first + k) as u64, ..*old(self) }),
            decreases sources.len() - k,
        {
            let id = self.allocate_object_id();
            assert(models[k as int] == sources@[k as int]@);
            copies.push(sources[k].with_id_and_layer(id, home));
            k += 1;
        }
        assert(object_models(copies@) =~= copied_to(models, first, home));
        copies
    }
}

proof fn lemma_filter_len(s: Seq<ObjectModel>, f: spec_fn(ObjectModel) -> bool)
    ensures
        s.filter(f).len() <= s.len(),
{
    s.lemma_filter_len(f);
}

impl App {
    /// Makes a layer in the active project.
    pub fn create_layer(&mut self, name: String)
        requires
            old(self).workspace.active() matches Some(p) ==> p.document.next_layer_id < u64::MAX,
        ensures
            layer_created(*old(self), name@, *final(self)),
    {
        let i: usize = match self.workspace.active_index {
            Some(i) => i,
            None => {
                return ;
            },
        };
        if i >= self.workspace.projects.len() {
            return ;
        }
        let id = self.workspace.projects[i].document.allocate_layer_id();
        self.workspace.projects[i].loaded_layers.insert(id);
        let layer = Layer {
            id,
            name,
            color_index: None,
            color: Rgba { r: ONE, g: ONE, b: ONE, a: ONE },
            visible: true,
            loaded: true,
            elevation: 0,
        };
        let objects: Vec<Object> = Vec::new();
        assert(object_models(objects@) =~= Seq::<ObjectModel>::empty());
        self.execute_edit(Edit::AddLayer { layer, objects });
        self.selection.clear_handles();
        self.canvas.active_layer = Some(id);
        self.invalidate_geometry();
        assert(self.workspace.projects@ =~= old(self).workspace.projects@.update(i as int, self.workspace.projects@[i as int]));
    }

    /// Deletes a layer of the active project with everything on it.
    pub fn delete_layer(&mut self, layer: LayerId)
        ensures
            layer_deleted(*old(self), layer, *final(self)),
    {
        self.canvas.pending_delete_layer = None;
        let i: usize = match self.workspace.active_index {
            Some(i) => i,
            None => {
                return ;
            },
        };
        if i >= self.workspace.projects.len() {
            return ;
        }
        let at: usize = match self.workspace.projects[i].document.find_layer(layer) {
            Some(at) => at,
            None => {
                return ;
            },
        };
        let copy = self.workspace.projects[i].document.layers[at].copy();
        let placed = positioned_objects_on_layer(&self.workspace.projects[i].document, layer);
        self.workspace.forget_loaded(i, layer);
        self.execute_edit(Edit::DeleteLayer { layer: copy, layer_index: at, placed });
        self.canvas.stop_drawing_on(layer);
        self.selection.clear_handles();
        self.invalidate_geometry();
    }

    /// Copies a layer of the active project with everything on it.
    pub fn duplicate_layer(&mut self, layer: LayerId)
        requires
            old(self).workspace.active() matches Some(p) ==> p.document.next_layer_id < u64::MAX && p.document.next_object_id
                + p.document.objects@.len() <= u64::MAX,
        ensures
            layer_duplicated(*old(self), layer, *final(self)),
    {
        let i: usize = match self.workspace.active_index {
            Some(i) => i,
            None => {
                return ;
            },
        };
        if i >= self.workspace.projects.len() {
            return ;
        }
        let at: usize = match self.workspace.projects[i].document.find_layer(layer) {
            Some(at) => at,
            None => {
                return ;
            },
        };
        let mut copy = self.workspace.projects[i].document.layers[at].copy();
        let wanted = join(copy.name.as_str(), " copy");
        copy.name = unique_layer_name(&self.workspace.projects[i].document, wanted.as_str());
        let id = self.workspace.projects[i].document.allocate_layer_id();
        copy.id = id;
        let objects = self.workspace.projects[i].document.copies_on(layer, id);
        self.workspace.projects[i].loaded_layers.insert(id);
        assert(object_models(objects@).len() == objects@.len());
        self.execute_edit(Edit::AddLayer { layer: copy, objects });
        self.selection.clear_handles();
        self.invalidate_geometry();
        assert(self.workspace.projects@ =~= old(self).workspace.projects@.update(i as int, self.workspace.projects@[i as int]));
    }

    /// Loads a layer into the scene.
    pub fn load_layer(&mut self, layer: LayerId)
        ensures
            layer_loaded(*old(self), layer, *final(self)),
    {
        let empty = self.scene.objects.len() == 0 && self.items.triangulations.len() == 0;
        let i: usize = match self.workspace.project_index_for_layer(layer) {
            Some(i) => i,
            None => {
                return ;
            },
        };
        self.workspace.projects[i].loaded_layers.insert(layer);
        self.selection.clear_handles();
        self.invalidate_geometry();
        if empty {
            self.fit_view_to_extents();
        }
        assert(self.workspace.projects@ =~= old(self).workspace.projects@.update(i as int, self.workspace.projects@[i as int]));
    }

    /// Selects everything on a loaded layer.
    pub fn select_all_objects_in_layer(&mut self, layer: LayerId)
        ensures
            layer_selected(*old(self), layer, *final(self)),
    {
        let handles = match self.workspace.active_project() {
            Some(p) => {
                if !p.loaded_layers.contains(layer) {
                    return ;
                }
                layer_handles(&p.document, layer)
            },
            None => {
                return ;
            },
        };
        self.canvas.active_layer = Some(layer);
        self.selection.handles = IdSet::from_vec(&handles);
        self.selection.tri_objects.clear();
        self.selection.tri_layers.clear();
        self.canvas.context_menu_open = false;
        self.invalidate_geometry();
        self.invalidate_overlay();
    }

    /// Takes a layer out of the scene; what it holds stays in the document.
    pub fn unload_layer(&mut self, layer: LayerId)
        ensures
            layer_unloaded(*old(self), layer, *final(self)),
    {
        let i: usize = match self.workspace.project_index_for_layer(layer) {
            Some(i) => i,
            None => {
                return ;
            },
        };
        if !self.workspace.projects[i].loaded_layers.contains(layer) {
            return ;
        }
        let handles = layer_handles(&self.workspace.projects[i].document, layer);
        self.workspace.forget_loaded(i, layer);
        drop_handles(&mut self.selection.handles, &handles);
        self.visibility.drop_handles(&handles);
        self.canvas.stop_drawing_on(layer);
        self.invalidate_geometry();
    }

    /// Shows or hides a layer without unloading it.
    pub fn toggle_layer_visible(&mut self, layer: LayerId)
        ensures
            layer_visibility_toggled(*old(self), layer, *final(self)),
    {
        self.activate_project_for_layer(layer);
        let shown = match self.workspace.active_project() {
            Some(p) => match p.document.layer(layer) {
                Some(l) => l.visible,
                None => {
                    return ;
                },
            },
            None => {
                return ;
            },
        };
        self.execute_edit(Edit::SetLayerVisible { id: layer, from: shown, to: !shown });
        self.invalidate_geometry();
    }

    /// Locks or unlocks everything on a layer.
    pub fn toggle_layer_locked(&mut self, layer: LayerId)
        ensures
            layer_lock_toggled(*old(self), layer, *final(self)),
    {
        self.activate_project_for_layer(layer);
        let on_layer = match self.workspace.active_project() {
            Some(p) => {
                if p.document.layer(layer).is_none() {
                    return ;
                }
                layer_handles(&p.document, layer)
            },
            None => {
                return ;
            },
        };
        let was = self.visibility.locked_layers.remove(layer);
        if !was {
            drop_handles(&mut self.selection.handles, &on_layer);
            self.visibility.locked_layers.insert(layer);
            self.canvas.stop_drawing_on(layer);
            assert(self.visibility.locked_layers@ =~= old(self).visibility.locked_layers@.insert(layer));
        }
        self.invalidate_geometry();
    }
}

} // verus!
