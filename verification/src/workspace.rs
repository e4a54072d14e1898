//! Open projects and which of them is active.

use crate::document::{layer_index, object_index, Document};
use crate::ids::{IdSet, LayerId, ObjectId};
use crate::search::{find_first, first_index};
use vstd::prelude::*;

verus! {

/// The lasting identity of a project.
#[derive(Clone, Copy, PartialEq, Eq, Structural, Debug)]
pub struct ProjectId(pub u128);

/// Where a project is kept between sessions.
#[derive(Clone, Copy, PartialEq, Eq, Structural, Debug)]
pub enum ProjectPersistence {
    /// A file, or nothing yet.
    File,
    /// A record in the browser's storage.
    BrowserRecord(ProjectId),
}

/// The hash of one layer's contents.
#[derive(Clone, Copy, PartialEq, Eq, Structural, Debug)]
pub struct LayerHash {
    pub layer: LayerId,
    pub hash: u64,
}

/// A project held in memory. `content_hash`, `layer_hashes` and `revision` are
/// of the contents as they were last measured: whoever runs the workbench
/// measures them again after every command that changed the document.
/// `saved_hash` is the hash of the stored copy, if there is one.
pub struct OpenProject {
    pub runtime_id: u32,
    pub id: ProjectId,
    pub name: String,
    pub coordinate_reference_system: String,
    pub units: String,
    pub path: Option<String>,
    pub persistence: ProjectPersistence,
    pub document: Document,
    pub loaded_layers: IdSet<LayerId>,
    pub deferred_layers: IdSet<LayerId>,
    pub revision: u64,
    pub content_hash: u64,
    pub saved_hash: Option<u64>,
    pub layer_hashes: Vec<LayerHash>,
    pub saved_layer_hashes: Vec<LayerHash>,
    pub asset_revision: u64,
    pub saved_asset_revision: u64,
    pub lossy_save_warnings: Vec<String>,
    pub lossy_save_confirmed: bool,
}

impl OpenProject {
    /// Whether the project holds anything that its stored copy does not.
    pub open spec fn dirty(&self) -> bool {
        self.saved_hash != Some(self.content_hash) || self.asset_revision != self.saved_asset_revision
    }

    /// Whether the project holds anything that its stored copy does not.
    pub fn is_dirty(&self) -> (r: bool)
        ensures
            r == self.dirty(),
    {
        let stored = match self.saved_hash {
            Some(hash) => hash == self.content_hash,
            None => false,
        };
        !stored || self.asset_revision != self.saved_asset_revision
    }
}

/// The id of a layer within its project: what is left without the part that
/// tells projects apart.
pub open spec fn local_id(layer: LayerId) -> u64 {
    layer.0 % 0x1_0000_0000
}

/// The hash of a layer in a list, if it is there.
pub open spec fn hash_in(hashes: Seq<LayerHash>, layer: LayerId) -> Option<u64> {
    let i = first_index(hashes, |h: LayerHash| h.layer.0 == local_id(layer));
    if i < hashes.len() {
        Some(hashes[i].hash)
    } else {
        None
    }
}

/// The hash of a layer in a list, if it is there.
fn find_hash(hashes: &Vec<LayerHash>, layer: LayerId) -> (r: Option<u64>)
    ensures
        r == hash_in(hashes@, layer),
{
    let local: u64 = layer.0 % 0x1_0000_0000;
    let found = find_first(hashes, Ghost(|h: LayerHash| h.layer.0 == local_id(layer)), |h: &LayerHash| -> (b: bool)
        ensures
            b == (h.layer.0 == local_id(layer)),
        { h.layer.0 == local });
    match found {
        Some(i) => Some(hashes[i].hash),
        None => None,
    }
}

impl OpenProject {
    /// The hash of a layer's contents, if it is known.
    pub open spec fn layer_hash(&self, layer: LayerId) -> Option<u64> {
        hash_in(self.layer_hashes@, layer)
    }

    /// The layer holds anything that its stored copy does not.
    pub open spec fn layer_dirty(&self, layer: LayerId) -> bool {
        hash_in(self.layer_hashes@, layer) != hash_in(self.saved_layer_hashes@, layer)
    }

    /// The hash of a layer's contents, if it is known.
    pub fn find_layer_hash(&self, layer: LayerId) -> (r: Option<u64>)
        ensures
            r == self.layer_hash(layer),
    {
        find_hash(&self.layer_hashes, layer)
    }

    /// Whether the layer holds anything that its stored copy does not.
    pub fn is_layer_dirty(&self, layer: LayerId) -> (r: bool)
        ensures
            r == self.layer_dirty(layer),
    {
        match (find_hash(&self.layer_hashes, layer), find_hash(&self.saved_layer_hashes, layer)) {
            (Some(a), Some(b)) => a != b,
            (None, None) => false,
            _ => true,
        }
    }
}

/// The open projects, one of which may be active.
pub struct Workspace {
    pub projects: Vec<OpenProject>,
    pub active_index: Option<usize>,
    pub next_runtime_id: u32,
}

/// The index of the first project with the runtime id.
pub open spec fn index_of_runtime(projects: Seq<OpenProject>, runtime_id: u32) -> int {
    first_index(projects, |p: OpenProject| p.runtime_id == runtime_id)
}

/// Whether a project's document holds the object.
pub open spec fn holds_object(project: OpenProject, id: ObjectId) -> bool {
    object_index(project.document.objects@, id) < project.document.objects@.len()
}

/// Whether a project's document holds the layer.
pub open spec fn holds_layer(project: OpenProject, id: LayerId) -> bool {
    layer_index(project.document.layers@, id) < project.document.layers@.len()
}

/// The index of the first project that holds the object.
pub open spec fn index_of_object(projects: Seq<OpenProject>, id: ObjectId) -> int {
    first_index(projects, |p: OpenProject| holds_object(p, id))
}

/// The index of the first project that holds the layer.
pub open spec fn index_of_layer(projects: Seq<OpenProject>, id: LayerId) -> int {
    first_index(projects, |p: OpenProject| holds_layer(p, id))
}

/// Every project has at least so many object ids left.
pub open spec fn object_ids_left(w: Workspace, n: int) -> bool {
    forall|j: int| 0 <= j < w.projects@.len() ==> (#[trigger] w.projects@[j]).document.next_object_id + n <= u64::MAX
}

impl Workspace {
    /// The active project, if there is one.
    pub open spec fn active(&self) -> Option<OpenProject> {
        match self.active_index {
            Some(i) if i < self.projects@.len() => Some(self.projects@[i as int]),
            _ => None,
        }
    }

    /// The active project, if there is one.
    pub fn active_project(&self) -> (r: Option<&OpenProject>)
        ensures
            match r {
                Some(p) => self.active() == Some(*p),
                None => self.active() is None,
            },
    {
        match self.active_index {
            Some(i) => {
                if i < self.projects.len() {
                    Some(&self.projects[i])
                } else {
                    None
                }
            },
            None => None,
        }
    }

    /// Whether a project is active.
    pub fn has_active_project(&self) -> (r: bool)
        ensures
            r == (self.active() is Some),
    {
        self.active_project().is_some()
    }

    /// Where the project with the runtime id stands.
    pub fn project_index_for_runtime_id(&self, runtime_id: u32) -> (r: Option<usize>)
        ensures
            match r {
                Some(i) => i == index_of_runtime(self.projects@, runtime_id) && i < self.projects@.len() && self.projects@[i as int].runtime_id
                    == runtime_id,
                None => index_of_runtime(self.projects@, runtime_id) == self.projects@.len(),
            },
    {
        find_first(&self.projects, Ghost(|p: OpenProject| p.runtime_id == runtime_id), |p: &OpenProject| -> (b: bool)
            ensures
                b == (p.runtime_id == runtime_id),
            { p.runtime_id == runtime_id })
    }

    /// Where the project that holds the object stands.
    pub fn project_index_for_object(&self, id: ObjectId) -> (r: Option<usize>)
        ensures
            match r {
                Some(i) => i == index_of_object(self.projects@, id) && i < self.projects@.len() && holds_object(self.projects@[i as int], id),
                None => index_of_object(self.projects@, id) == self.projects@.len(),
            },
    {
        find_first(&self.projects, Ghost(|p: OpenProject| holds_object(p, id)), |p: &OpenProject| -> (b: bool)
            ensures
                b == holds_object(*p, id),
            { p.document.find_object(id).is_some() })
    }

    /// Where the project that holds the layer stands.
    pub fn project_index_for_layer(&self, id: LayerId) -> (r: Option<usize>)
        ensures
            match r {
                Some(i) => i == index_of_layer(self.projects@, id) && i < self.projects@.len() && holds_layer(self.projects@[i as int], id),
                None => index_of_layer(self.projects@, id) == self.projects@.len(),
            },
    {
        find_first(&self.projects, Ghost(|p: OpenProject| holds_layer(p, id)), |p: &OpenProject| -> (b: bool)
            ensures
                b == holds_layer(*p, id),
            { p.document.find_layer(id).is_some() })
    }
}

} // verus!
