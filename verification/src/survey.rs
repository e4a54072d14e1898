//! The coordinate systems of a site, by name. A grid is placed in another
//! system, its parent.

use crate::error::AppError;
use crate::search::{find_first, first_index, lemma_first_index};
use crate::text::{same_optional_text, same_text, text_of, trim, trimmed};
use vstd::prelude::*;
use vstd::string::*;

verus! {

/// What a system is: one of the world by a key, or a grid placed in another
/// system by a key.
pub enum SystemKind {
    Projected { key: u64 },
    Grid { parent: String, placement: u64 },
}

/// A coordinate system, and a key to what it calls its axes, where it says so.
pub struct SystemDefinition {
    pub name: String,
    pub kind: SystemKind,
    pub axis_names: Option<u64>,
}

/// What a coordinate system is.
pub ghost struct SystemModel {
    pub name: Seq<char>,
    pub parent: Option<Seq<char>>,
    pub key: u64,
    pub axis_names: Option<u64>,
}

impl View for SystemDefinition {
    type V = SystemModel;

    open spec fn view(&self) -> SystemModel {
        match self.kind {
            SystemKind::Projected { key } => SystemModel { name: self.name@, parent: None, key, axis_names: self.axis_names },
            SystemKind::Grid { parent, placement } => SystemModel {
                name: self.name@,
                parent: Some(parent@),
                key: placement,
                axis_names: self.axis_names,
            },
        }
    }
}

/// What systems are.
pub open spec fn system_models(s: Seq<SystemDefinition>) -> Seq<SystemModel> {
    s.map_values(|d: SystemDefinition| d@)
}

/// The systems of a site: those defined, which of them is the mine's own,
/// which a conversion leads from and to, which one is being edited, and what
/// the axes are called.
pub struct Survey {
    pub definitions: Vec<SystemDefinition>,
    pub local_system: Option<String>,
    pub source_system: Option<String>,
    pub target_system: Option<String>,
    pub editing_name: Option<String>,
    pub axis_names: Option<u64>,
}

/// The place of the first system with the name.
pub open spec fn system_index(s: Seq<SystemModel>, name: Seq<char>) -> int {
    first_index(s, |d: SystemModel| d.name == name)
}

/// A system has the name.
pub open spec fn defined(s: Seq<SystemModel>, name: Seq<char>) -> bool {
    exists|i: int| 0 <= i < s.len() && (#[trigger] s[i]).name == name
}

/// A grid is placed in the system of this name.
pub open spec fn in_use(s: Seq<SystemModel>, name: Seq<char>) -> bool {
    exists|i: int| 0 <= i < s.len() && (#[trigger] s[i]).parent == Some(name)
}

/// From the system of this name, parents lead to one of the world in at most
/// `steps` steps.
pub open spec fn resolves(s: Seq<SystemModel>, name: Seq<char>, steps: int) -> bool
    decreases steps + 1,
{
    let i = system_index(s, name);
    if steps < 0 || i >= s.len() {
        false
    } else {
        match s[i].parent {
            None => true,
            Some(parent) => resolves(s, parent, steps - 1),
        }
    }
}

/// Having a name.
pub open spec fn has_name(name: Seq<char>) -> spec_fn(SystemDefinition) -> bool {
    |d: SystemDefinition| d.name@ == name
}

/// Coming behind a name.
pub open spec fn behind(name: Seq<char>) -> spec_fn(SystemDefinition) -> bool {
    |x: SystemDefinition| text_before(name, x.name@)
}

proof fn lemma_defined(s: Seq<SystemDefinition>, name: Seq<char>)
    ensures
        first_index(s, has_name(name)) == system_index(system_models(s), name),
        defined(system_models(s), name) <==> system_index(system_models(s), name) < s.len(),
        0 <= system_index(system_models(s), name) <= s.len(),
{
    let m = system_models(s);
    lemma_first_index(s, has_name(name));
    lemma_first_index(m, |d: SystemModel| d.name == name);
    let i = first_index(s, has_name(name));
    let k = system_index(m, name);
    assert(m.len() == s.len());
    if i < k {
        assert(m[i] == s[i]@);
    }
    if k < i {
        assert(m[k] == s[k]@);
    }
    if defined(m, name) {
        let j = choose|j: int| 0 <= j < m.len() && (#[trigger] m[j]).name == name;
        if k == s.len() {
            assert(!(|d: SystemModel| d.name == name)(m[j]));
        }
    }
}

fn find_system(s: &Vec<SystemDefinition>, name: &str) -> (r: Option<usize>)
    ensures
        match r {
            Some(i) => i == system_index(system_models(s@), name@) && i < s@.len() && s@[i as int].name@ == name@ && defined(system_models(s@), name@),
            None => system_index(system_models(s@), name@) == s@.len() && !defined(system_models(s@), name@),
        },
{
    proof {
        lemma_defined(s@, name@);
    }
    find_first(s, Ghost(has_name(name@)), |d: &SystemDefinition| -> (b: bool)
        ensures
            b == (d.name@ == name@),
        { same_text(d.name.as_str(), name) })
}

/// Whether parents lead from the system of this name to one of the world. A
/// missing parent, or one that leads back, does not.
pub fn resolve_system(name: &str, definitions: &Vec<SystemDefinition>) -> (r: Result<(), AppError>)
    ensures
        r == (if resolves(system_models(definitions@), name@, definitions@.len() as int) {
            Ok::<(), AppError>(())
        } else {
            Err(AppError::SystemUnresolved)
        }),
{
    let ghost m = system_models(definitions@);
    let mut at: String = name.to_string();
    let mut left: usize = definitions.len();
    loop
        invariant
            m == system_models(definitions@),
            left <= definitions@.len(),
            resolves(m, name@, definitions@.len() as int) == resolves(m, at@, left as int),
        decreases left,
    {
        match find_system(definitions, at.as_str()) {
            None => {
                return Err(AppError::SystemUnresolved);
            },
            Some(i) => {
                assert(m[i as int] == definitions@[i as int]@);
                match &definitions[i].kind {
                    SystemKind::Projected { .. } => {
                        return Ok(());
                    },
                    SystemKind::Grid { parent, .. } => {
                        if left == 0 {
                            assert(!resolves(m, parent@, -1));
                            return Err(AppError::SystemUnresolved);
                        }
                        at = parent.clone();
                        left = left - 1;
                    },
                }
            },
        }
    }
}

/// The text comes before the other, by the first character that differs.
pub open spec fn text_before(a: Seq<char>, b: Seq<char>) -> bool
    decreases a.len(),
{
    if b.len() == 0 {
        false
    } else if a.len() == 0 {
        true
    } else if a[0] != b[0] {
        (a[0] as u32) < (b[0] as u32)
    } else {
        text_before(a.drop_first(), b.drop_first())
    }
}

fn comes_before(a: &str, b: &str) -> (r: bool)
    ensures
        r == text_before(a@, b@),
{
    let n: usize = a.unicode_len();
    let m: usize = b.unicode_len();
    let mut i: usize = 0;
    assert(a@.skip(0) =~= a@);
    assert(b@.skip(0) =~= b@);
    loop
        invariant
            n == a@.len(),
            m == b@.len(),
            i <= n,
            i <= m,
            text_before(a@, b@) == text_before(a@.skip(i as int), b@.skip(i as int)),
        decreases n - i,
    {
        if i >= m {
            return false;
        }
        if i >= n {
            return true;
        }
        let x: char = a.get_char(i);
        let y: char = b.get_char(i);
        if x != y {
            return (x as u32) < (y as u32);
        }
        assert(a@.skip(i as int).drop_first() =~= a@.skip(i + 1));
        assert(b@.skip(i as int).drop_first() =~= b@.skip(i + 1));
        i += 1;
    }
}

/// The systems with one more, put before the first that comes after it.
pub open spec fn with_system(s: Seq<SystemModel>, d: SystemModel) -> Seq<SystemModel> {
    s.insert(first_index(s, |x: SystemModel| text_before(d.name, x.name)), d)
}

/// The systems in the order of their names.
pub open spec fn sorted_systems(s: Seq<SystemModel>) -> Seq<SystemModel>
    decreases s.len(),
{
    if s.len() == 0 {
        s
    } else {
        with_system(sorted_systems(s.drop_last()), s.last())
    }
}

fn sort_systems(s: Vec<SystemDefinition>) -> (r: Vec<SystemDefinition>)
    ensures
        system_models(r@) == sorted_systems(system_models(s@)),
{
    let ghost all = s@;
    let ghost models = system_models(all);
    let mut left = s;
    let mut sorted: Vec<SystemDefinition> = Vec::new();
    let mut done: Ghost<int> = Ghost(0);
    proof {
        assert(all.skip(0) =~= all);
        assert(models.take(0) =~= Seq::<SystemModel>::empty());
        assert(system_models(sorted@) =~= sorted_systems(models.take(0)));
    }
    while left.len() > 0
        invariant
            0 <= done@ <= all.len(),
            models == system_models(all),
            left@ == all.skip(done@),
            system_models(sorted@) == sorted_systems(models.take(done@)),
        decreases left.len(),
    {
        let d = left.remove(0);
        let ghost before = sorted@;
        let name = d.name.clone();
        let at: usize = match find_first(&sorted, Ghost(behind(name@)), |x: &SystemDefinition| -> (b: bool)
            ensures
                b == text_before(name@, x.name@),
            { comes_before(name.as_str(), x.name.as_str()) }) {
            Some(p) => p,
            None => sorted.len(),
        };
        proof {
            lemma_place(before, name@);
            assert(d == all[done@]);
            assert(left@ =~= all.skip(done@ + 1));
            assert(models.take(done@ + 1).drop_last() =~= models.take(done@));
            done@ = done@ + 1;
        }
        sorted.insert(at, d);
        assert(system_models(sorted@) =~= system_models(before).insert(at as int, d@));
    }
    assert(models.take(models.len() as int) =~= models);
    sorted
}

proof fn lemma_place(s: Seq<SystemDefinition>, name: Seq<char>)
    ensures
        first_index(s, behind(name)) == first_index(system_models(s), |x: SystemModel| text_before(name, x.name)),
{
    let m = system_models(s);
    let f = behind(name);
    let g = |x: SystemModel| text_before(name, x.name);
    lemma_first_index(s, f);
    lemma_first_index(m, g);
    let i = first_index(s, f);
    let k = first_index(m, g);
    if i < k {
        assert(m[i] == s[i]@);
        assert(g(m[i]));
    }
    if k < i {
        assert(m[k] == s[k]@);
        assert(f(s[k]));
    }
}

/// Sorting keeps every system and adds none.
pub proof fn law_sorting_keeps_systems(s: Seq<SystemModel>, d: SystemModel)
    ensures
        sorted_systems(s).len() == s.len(),
        sorted_systems(s).contains(d) <==> s.contains(d),
    decreases s.len(),
{
    if s.len() > 0 {
        let front = s.drop_last();
        law_sorting_keeps_systems(front, d);
        let t = sorted_systems(front);
        let last = s.last();
        let f = |x: SystemModel| text_before(last.name, x.name);
        lemma_first_index(t, f);
        let p = first_index(t, f);
        let r = t.insert(p, last);
        assert(r == sorted_systems(s));
        if r.contains(d) {
            let i = choose|i: int| 0 <= i < r.len() && r[i] == d;
            if i < p {
                assert(t[i] == d);
            } else if i > p {
                assert(t[i - 1] == d);
            }
            if t.contains(d) {
                let q = choose|q: int| 0 <= q < front.len() && front[q] == d;
                assert(s[q] == d);
            } else {
                assert(s[s.len() - 1] == d);
            }
        }
        if s.contains(d) {
            let q = choose|q: int| 0 <= q < s.len() && s[q] == d;
            if q < front.len() {
                assert(front[q] == d);
                assert(t.contains(d));
                let i = choose|i: int| 0 <= i < t.len() && t[i] == d;
                if i < p {
                    assert(r[i] == d);
                } else {
                    assert(r[i + 1] == d);
                }
            } else {
                assert(r[p] == d);
            }
        }
    }
}

/// A grid placed in a system that gets a new name is placed in that name.
pub open spec fn reparented(d: SystemModel, from: Seq<char>, to: Seq<char>) -> SystemModel {
    if d.parent == Some(from) {
        SystemModel { parent: Some(to), ..d }
    } else {
        d
    }
}

/// Systems with one under a new name.
pub open spec fn all_reparented(s: Seq<SystemModel>, from: Seq<char>, to: Seq<char>) -> Seq<SystemModel> {
    s.map_values(|d: SystemModel| reparented(d, from, to))
}

/// The systems without those of a name.
pub open spec fn without_system(s: Seq<SystemModel>, name: Seq<char>) -> Seq<SystemModel> {
    s.filter(|d: SystemModel| d.name != name)
}

/// The systems once one was saved in the place of another, or as a new one,
/// before they are sorted.
pub open spec fn with_saved(s: Seq<SystemModel>, target: Option<Seq<char>>, d: SystemModel) -> Seq<SystemModel> {
    match target {
        Some(old) => {
            let all = without_system(s, old).push(d);
            if old != d.name {
                all_reparented(all, old, d.name)
            } else {
                all
            }
        },
        None => s.push(d),
    }
}

/// The mark of the mine's own system once a system was saved: it follows a
/// rename, and falls to the first system of a site.
pub open spec fn local_after_save(local: Option<Seq<char>>, target: Option<Seq<char>>, name: Seq<char>, count: int) -> Option<Seq<char>> {
    if (target is Some && local == target) || (count == 1 && local is None) {
        Some(name)
    } else {
        local
    }
}

/// Why a system cannot be saved.
pub open spec fn save_refused(s: Seq<SystemModel>, target: Option<Seq<char>>, d: SystemModel) -> Option<AppError> {
    if d.name.len() == 0 {
        Some(AppError::SystemNameBlank)
    } else if defined(s, d.name) && target != Some(d.name) {
        Some(AppError::SystemNameTaken)
    } else if target is Some && !defined(s, target->0) {
        Some(AppError::SystemMissing)
    } else if !resolves(with_saved(s, target, d), d.name, with_saved(s, target, d).len() as int) {
        Some(AppError::SystemUnresolved)
    } else {
        None
    }
}

/// What a system becomes when it is saved: blanks around its name go.
pub open spec fn named_plainly(d: SystemModel) -> SystemModel {
    SystemModel { name: trimmed(d.name), ..d }
}

/// The systems that are to be stored.
pub struct SurveyPlan {
    pub definitions: Vec<SystemDefinition>,
    pub local_system: Option<String>,
}

/// The name of a system, once one was renamed.
pub open spec fn renamed(name: Option<Seq<char>>, target: Option<Seq<char>>, to: Seq<char>) -> Option<Seq<char>> {
    if target is Some && name == target {
        Some(to)
    } else {
        name
    }
}

/// What the axes are called: as the mine's own system says.
pub open spec fn axis_names_of(s: Seq<SystemModel>, local: Option<Seq<char>>) -> Option<u64> {
    match local {
        Some(name) if defined(s, name) => s[system_index(s, name)].axis_names,
        _ => None,
    }
}

/// What saving a system plans.
pub open spec fn planned_save(pre: Survey, target: Option<Seq<char>>, d: SystemModel, plan: SurveyPlan) -> bool {
    let all = with_saved(system_models(pre.definitions@), target, d);
    &&& system_models(plan.definitions@) == sorted_systems(all)
    &&& text_of(plan.local_system) == local_after_save(text_of(pre.local_system), target, d.name, all.len() as int)
}

/// What saving a system does once it was stored.
pub open spec fn system_saved(pre: Survey, target: Option<Seq<char>>, d: SystemModel, post: Survey) -> bool {
    let all = with_saved(system_models(pre.definitions@), target, d);
    &&& system_models(post.definitions@) == sorted_systems(all)
    &&& text_of(post.local_system) == local_after_save(text_of(pre.local_system), target, d.name, all.len() as int)
    &&& text_of(post.source_system) == renamed(text_of(pre.source_system), target, d.name)
    &&& text_of(post.target_system) == renamed(text_of(pre.target_system), target, d.name)
    &&& text_of(post.editing_name) == (if target is None || text_of(pre.editing_name) == target {
        Some(d.name)
    } else {
        text_of(pre.editing_name)
    })
    &&& post.axis_names == axis_names_of(system_models(post.definitions@), text_of(post.local_system))
}

/// What deleting a system plans.
pub open spec fn planned_delete(pre: Survey, name: Seq<char>, plan: SurveyPlan) -> bool {
    &&& system_models(plan.definitions@) == without_system(system_models(pre.definitions@), name)
    &&& text_of(plan.local_system) == dropped(text_of(pre.local_system), name)
}

/// A name that no longer stands for anything goes.
pub open spec fn dropped(name: Option<Seq<char>>, gone: Seq<char>) -> Option<Seq<char>> {
    if name == Some(gone) {
        None
    } else {
        name
    }
}

/// Why a system cannot be deleted.
pub open spec fn delete_refused(s: Seq<SystemModel>, name: Seq<char>) -> Option<AppError> {
    if !defined(s, name) {
        Some(AppError::SystemMissing)
    } else if in_use(s, name) {
        Some(AppError::SystemInUse)
    } else {
        None
    }
}

/// What deleting a system does once that was stored.
pub open spec fn system_deleted(pre: Survey, name: Seq<char>, post: Survey) -> bool {
    &&& system_models(post.definitions@) == without_system(system_models(pre.definitions@), name)
    &&& text_of(post.local_system) == dropped(text_of(pre.local_system), name)
    &&& text_of(post.source_system) == dropped(text_of(pre.source_system), name)
    &&& text_of(post.target_system) == dropped(text_of(pre.target_system), name)
    &&& text_of(post.editing_name) == dropped(text_of(pre.editing_name), name)
    &&& post.axis_names == axis_names_of(system_models(post.definitions@), text_of(post.local_system))
}

/// Every grid is placed in a system that is defined.
pub open spec fn parents_defined(s: Seq<SystemModel>) -> bool {
    forall|i: int| 0 <= i < s.len() ==> ((#[trigger] s[i]).parent matches Some(p) ==> defined(s, p))
}

impl SystemDefinition {
    fn copy(&self) -> (r: SystemDefinition)
        ensures
            r@ == self@,
    {
        let kind = match &self.kind {
            SystemKind::Projected { key } => SystemKind::Projected { key: *key },
            SystemKind::Grid { parent, placement } => SystemKind::Grid { parent: parent.clone(), placement: *placement },
        };
        SystemDefinition { name: self.name.clone(), kind, axis_names: self.axis_names }
    }

    fn is_placed_in(&self, name: &str) -> (r: bool)
        ensures
            r == (self@.parent == Some(name@)),
    {
        match &self.kind {
            SystemKind::Projected { .. } => false,
            SystemKind::Grid { parent, .. } => same_text(parent.as_str(), name),
        }
    }

    fn reparent(self, from: &str, to: &str) -> (r: SystemDefinition)
        ensures
            r@ == reparented(self@, from@, to@),
    {
        match self.kind {
            SystemKind::Projected { key } => SystemDefinition { name: self.name, kind: SystemKind::Projected { key }, axis_names: self.axis_names },
            SystemKind::Grid { parent, placement } => {
                let parent = if same_text(parent.as_str(), from) {
                    to.to_string()
                } else {
                    parent
                };
                SystemDefinition { name: self.name, kind: SystemKind::Grid { parent, placement }, axis_names: self.axis_names }
            },
        }
    }
}

/// A copy of systems.
pub fn copy_systems(s: &Vec<SystemDefinition>) -> (r: Vec<SystemDefinition>)
    ensures
        system_models(r@) == system_models(s@),
{
    keep_systems(s, None)
}

fn keep_systems(s: &Vec<SystemDefinition>, gone: Option<&str>) -> (r: Vec<SystemDefinition>)
    ensures
        system_models(r@) == (match gone {
            Some(name) => without_system(system_models(s@), name@),
            None => system_models(s@),
        }),
{
    let ghost models = system_models(s@);
    let ghost keep = |d: SystemModel| gone is None || d.name != gone->0@;
    let mut kept: Vec<SystemDefinition> = Vec::new();
    let mut i: usize = 0;
    proof {
        reveal(Seq::filter);
        assert(system_models(kept@) =~= models.take(0).filter(keep));
    }
    while i < s.len()
        invariant
            i <= s.len(),
            models == system_models(s@),
            keep == (|d: SystemModel| gone is None || d.name != gone->0@),
            system_models(kept@) == models.take(i as int).filter(keep),
        decreases s.len() - i,
    {
        let ghost before = kept@;
        proof {
            reveal(Seq::filter);
            assert(models.take(i + 1).drop_last() =~= models.take(i as int));
            assert(models[i as int] == s@[i as int]@);
        }
        let goes = match gone {
            Some(name) => same_text(s[i].name.as_str(), name),
            None => false,
        };
        if !goes {
            kept.push(s[i].copy());
            assert(system_models(kept@) =~= system_models(before).push(models[i as int]));
        }
        i += 1;
    }
    proof {
        assert(models.take(models.len() as int) =~= models);
        match gone {
            Some(name) => {
                assert(keep =~= (|d: SystemModel| d.name != name@));
            },
            None => {
                lemma_keep_all(models, keep);
            },
        }
    }
    kept
}

proof fn lemma_keep_all(s: Seq<SystemModel>, keep: spec_fn(SystemModel) -> bool)
    requires
        forall|i: int| 0 <= i < s.len() ==> keep(#[trigger] s[i]),
    ensures
        s.filter(keep) == s,
    decreases s.len(),
{
    reveal(Seq::filter);
    if s.len() > 0 {
        assert forall|i: int| 0 <= i < s.drop_last().len() implies keep(#[trigger] s.drop_last()[i]) by {
            assert(s.drop_last()[i] == s[i]);
        }
        lemma_keep_all(s.drop_last(), keep);
        assert(keep(s[s.len() - 1]));
        assert(s.drop_last().push(s.last()) =~= s);
    }
}

fn reparent_all(s: Vec<SystemDefinition>, from: &str, to: &str) -> (r: Vec<SystemDefinition>)
    ensures
        system_models(r@) == all_reparented(system_models(s@), from@, to@),
{
    let ghost all = s@;
    let mut left = s;
    let mut moved: Vec<SystemDefinition> = Vec::new();
    let mut done: Ghost<int> = Ghost(0);
    assert(all.skip(0) =~= all);
    while left.len() > 0
        invariant
            0 <= done@ <= all.len(),
            left@ == all.skip(done@),
            moved@.len() == done@,
            forall|j: int| 0 <= j < done@ ==> (#[trigger] moved@[j])@ == reparented(all[j]@, from@, to@),
        decreases left.len(),
    {
        let d = left.remove(0);
        proof {
            assert(d == all[done@]);
            assert(left@ =~= all.skip(done@ + 1));
            done@ = done@ + 1;
        }
        moved.push(d.reparent(from, to));
    }
    assert(system_models(moved@) =~= all_reparented(system_models(all), from@, to@));
    moved
}

impl Survey {
    /// Puts what the mine's own system calls its axes into effect.
    pub fn refresh_axis_names(&mut self)
        ensures
            *final(self) == (Survey {
                axis_names: axis_names_of(system_models(old(self).definitions@), text_of(old(self).local_system)),
                ..*old(self)
            }),
    {
        self.axis_names = match &self.local_system {
            Some(name) => match find_system(&self.definitions, name.as_str()) {
                Some(i) => {
                    assert(system_models(self.definitions@)[i as int] == self.definitions@[i as int]@);
                    self.definitions[i].axis_names
                },
                None => None,
            },
            None => None,
        };
    }

    /// The systems as they would be stored once one was saved.
    pub fn plan_definition(&self, target: &Option<String>, definition: &SystemDefinition) -> (r: Result<SurveyPlan, AppError>)
        ensures
            match save_refused(system_models(self.definitions@), text_of(*target), named_plainly(definition@)) {
                Some(e) => r == Err::<SurveyPlan, AppError>(e),
                None => r is Ok && planned_save(*self, text_of(*target), named_plainly(definition@), r->Ok_0),
            },
    {
        let ghost s = system_models(self.definitions@);
        let mut saved = definition.copy();
        let name = trim(saved.name.as_str());
        saved.name = name.clone();
        assert(saved@ == named_plainly(definition@));
        if name.as_str().unicode_len() == 0 {
            return Err(AppError::SystemNameBlank);
        }
        let same = match target {
            Some(old) => same_text(old.as_str(), name.as_str()),
            None => false,
        };
        if !same && find_system(&self.definitions, name.as_str()).is_some() {
            return Err(AppError::SystemNameTaken);
        }
        let gone: Option<&str> = match target {
            Some(old) => {
                if find_system(&self.definitions, old.as_str()).is_none() {
                    return Err(AppError::SystemMissing);
                }
                Some(old.as_str())
            },
            None => None,
        };
        let mut all = keep_systems(&self.definitions, gone);
        let ghost kept = all@;
        all.push(saved);
        assert(system_models(all@) =~= system_models(kept).push(saved@));
        let all = match target {
            Some(old) => {
                if same {
                    all
                } else {
                    reparent_all(all, old.as_str(), name.as_str())
                }
            },
            None => all,
        };
        assert(system_models(all@) == with_saved(s, text_of(*target), saved@));
        match resolve_system(name.as_str(), &all) {
            Ok(_) => {},
            Err(e) => {
                return Err(e);
            },
        }
        let first = all.len() == 1;
        let definitions = sort_systems(all);
        let follows = match (target, &self.local_system) {
            (Some(old), Some(local)) => same_text(old.as_str(), local.as_str()),
            _ => false,
        };
        let local_system: Option<String> = if follows || (first && self.local_system.is_none()) {
            Some(name)
        } else {
            crate::arrivals::copy_text(&self.local_system)
        };
        Ok(SurveyPlan { definitions, local_system })
    }

    /// The systems as they would be stored once one was deleted.
    pub fn plan_deletion(&self, name: &str) -> (r: Result<SurveyPlan, AppError>)
        ensures
            match delete_refused(system_models(self.definitions@), name@) {
                Some(e) => r == Err::<SurveyPlan, AppError>(e),
                None => r is Ok && planned_delete(*self, name@, r->Ok_0),
            },
    {
        let ghost s = system_models(self.definitions@);
        if find_system(&self.definitions, name).is_none() {
            return Err(AppError::SystemMissing);
        }
        let used = find_first(&self.definitions, Ghost(|d: SystemDefinition| d@.parent == Some(name@)), |d: &SystemDefinition| -> (b: bool)
            ensures
                b == (d@.parent == Some(name@)),
            { d.is_placed_in(name) });
        proof {
            let f = |d: SystemDefinition| d@.parent == Some(name@);
            lemma_first_index(self.definitions@, f);
            if used is Some {
                assert(s[used->0 as int].parent == Some(name@));
            } else if in_use(s, name@) {
                let i = choose|i: int| 0 <= i < s.len() && (#[trigger] s[i]).parent == Some(name@);
                assert(f(self.definitions@[i]));
            }
        }
        if used.is_some() {
            return Err(AppError::SystemInUse);
        }
        let definitions = keep_systems(&self.definitions, Some(name));
        let own = match &self.local_system {
            Some(local) => same_text(local.as_str(), name),
            None => false,
        };
        let local_system: Option<String> = if own {
            None
        } else {
            crate::arrivals::copy_text(&self.local_system)
        };
        Ok(SurveyPlan { definitions, local_system })
    }

    /// The systems as they would be stored once one was marked as the mine's
    /// own, or the reference frame.
    pub fn plan_local_system(&self, system: &Option<String>) -> (r: Result<SurveyPlan, AppError>)
        ensures
            if system is Some && !defined(system_models(self.definitions@), system->0@) {
                r == Err::<SurveyPlan, AppError>(AppError::SystemMissing)
            } else {
                r is Ok && system_models(r->Ok_0.definitions@) == system_models(self.definitions@) && text_of(r->Ok_0.local_system) == text_of(*system)
            },
    {
        match system {
            Some(name) => {
                if find_system(&self.definitions, name.as_str()).is_none() {
                    return Err(AppError::SystemMissing);
                }
            },
            None => {},
        }
        Ok(SurveyPlan { definitions: copy_systems(&self.definitions), local_system: crate::arrivals::copy_text(system) })
    }

    fn install(&mut self, plan: SurveyPlan)
        ensures
            *final(self) == (Survey {
                definitions: plan.definitions,
                local_system: plan.local_system,
                axis_names: axis_names_of(system_models(plan.definitions@), text_of(plan.local_system)),
                ..*old(self)
            }),
    {
        self.definitions = plan.definitions;
        self.local_system = plan.local_system;
        self.refresh_axis_names();
    }

    /// Saves a system in the place of another, or as a new one. `stored` tells
    /// whether the plan for it could be written.
    pub fn save_survey_definition(&mut self, target: &Option<String>, definition: &SystemDefinition, stored: bool) -> (r: Result<(), AppError>)
        ensures
            match save_refused(system_models(old(self).definitions@), text_of(*target), named_plainly(definition@)) {
                Some(e) => r == Err::<(), AppError>(e) && *final(self) == *old(self),
                None => if stored {
                    r is Ok && system_saved(*old(self), text_of(*target), named_plainly(definition@), *final(self))
                } else {
                    r == Err::<(), AppError>(AppError::ConfigNotWritten) && *final(self) == *old(self)
                },
            },
    {
        let plan = match self.plan_definition(target, definition) {
            Ok(plan) => plan,
            Err(e) => {
                return Err(e);
            },
        };
        if !stored {
            return Err(AppError::ConfigNotWritten);
        }
        let name = trim(definition.name.as_str());
        self.install(plan);
        if target.is_some() {
            if same_optional_text(&self.source_system, target) {
                self.source_system = Some(name.clone());
            }
            if same_optional_text(&self.target_system, target) {
                self.target_system = Some(name.clone());
            }
        }
        if target.is_none() || same_optional_text(&self.editing_name, target) {
            self.editing_name = Some(name);
        }
        Ok(())
    }

    /// Deletes a system. `stored` tells whether the plan for it could be
    /// written.
    pub fn delete_survey_definition(&mut self, name: &str, stored: bool) -> (r: Result<(), AppError>)
        ensures
            match delete_refused(system_models(old(self).definitions@), name@) {
                Some(e) => r == Err::<(), AppError>(e) && *final(self) == *old(self),
                None => if stored {
                    r is Ok && system_deleted(*old(self), name@, *final(self))
                } else {
                    r == Err::<(), AppError>(AppError::ConfigNotWritten) && *final(self) == *old(self)
                },
            },
    {
        let plan = match self.plan_deletion(name) {
            Ok(plan) => plan,
            Err(e) => {
                return Err(e);
            },
        };
        if !stored {
            return Err(AppError::ConfigNotWritten);
        }
        self.install(plan);
        if is_text(&self.source_system, name) {
            self.source_system = None;
        }
        if is_text(&self.target_system, name) {
            self.target_system = None;
        }
        if is_text(&self.editing_name, name) {
            self.editing_name = None;
        }
        Ok(())
    }

    /// Marks a system as the mine's own, or the reference frame. `stored`
    /// tells whether the choice could be written.
    pub fn set_survey_local_system(&mut self, system: Option<String>, stored: bool) -> (r: Result<(), AppError>)
        ensures
            if system is Some && !defined(system_models(old(self).definitions@), system->0@) {
                r == Err::<(), AppError>(AppError::SystemMissing) && *final(self) == *old(self)
            } else if !stored {
                r == Err::<(), AppError>(AppError::ConfigNotWritten) && *final(self) == *old(self)
            } else {
                &&& r is Ok
                &&& *final(self) == (Survey {
                    local_system: system,
                    axis_names: axis_names_of(system_models(old(self).definitions@), text_of(system)),
                    ..*old(self)
                })
            },
    {
        match &system {
            Some(name) => {
                if find_system(&self.definitions, name.as_str()).is_none() {
                    return Err(AppError::SystemMissing);
                }
            },
            None => {},
        }
        if !stored {
            return Err(AppError::ConfigNotWritten);
        }
        self.local_system = system;
        self.refresh_axis_names();
        Ok(())
    }
}

fn is_text(a: &Option<String>, b: &str) -> (r: bool)
    ensures
        r == (text_of(*a) == Some(b@)),
{
    match a {
        Some(x) => same_text(x.as_str(), b),
        None => false,
    }
}

/// Deleting a system leaves no grid without its parent.
pub proof fn law_deleting_leaves_no_orphans(s: Seq<SystemModel>, name: Seq<char>)
    requires
        parents_defined(s),
        delete_refused(s, name) is None,
    ensures
        parents_defined(without_system(s, name)),
        !defined(without_system(s, name), name),
{
    let keep = |d: SystemModel| d.name != name;
    let r = without_system(s, name);
    crate::ids::lemma_filter_members(s, keep);
    assert forall|i: int| 0 <= i < r.len() implies ((#[trigger] r[i]).parent matches Some(p) ==> defined(r, p)) by {
        assert(r.contains(r[i]));
        assert(s.contains(r[i]));
        let j = choose|j: int| 0 <= j < s.len() && s[j] == r[i];
        if let Some(p) = r[i].parent {
            assert(s[j].parent == Some(p));
            assert(defined(s, p));
            let k = choose|k: int| 0 <= k < s.len() && (#[trigger] s[k]).name == p;
            if p == name {
                assert(in_use(s, name));
            }
            assert(s.contains(s[k]) && keep(s[k]));
            assert(r.contains(s[k]));
            let q = choose|q: int| 0 <= q < r.len() && r[q] == s[k];
            assert(r[q].name == p);
        }
    }
    if defined(r, name) {
        let i = choose|i: int| 0 <= i < r.len() && (#[trigger] r[i]).name == name;
        assert(r.contains(r[i]));
    }
}

/// A rename carries the children of a system along: none is left that is
/// placed in the old name, and no parent goes missing.
pub proof fn law_rename_carries_children(s: Seq<SystemModel>, from: Seq<char>, d: SystemModel)
    requires
        parents_defined(s),
        d.name != from,
        d.parent matches Some(p) ==> defined(s, p) || p == d.name,
    ensures
        !in_use(with_saved(s, Some(from), d), from),
        parents_defined(with_saved(s, Some(from), d)),
{
    let keep = |x: SystemModel| x.name != from;
    let rest = without_system(s, from);
    let all = rest.push(d);
    let r = with_saved(s, Some(from), d);
    crate::ids::lemma_filter_members(s, keep);
    assert(r =~= all_reparented(all, from, d.name));
    assert(r[rest.len() as int].name == d.name);
    assert forall|i: int| 0 <= i < r.len() implies (#[trigger] r[i]).parent != Some(from) && (r[i].parent matches Some(p) ==> defined(r, p)) by {
        assert(r[i] == reparented(all[i], from, d.name));
        if let Some(p) = all[i].parent {
            if p == from {
                assert(r[rest.len() as int].name == d.name);
            } else {
                if i < rest.len() {
                    assert(rest.contains(rest[i]));
                    assert(s.contains(rest[i]));
                    let j = choose|j: int| 0 <= j < s.len() && s[j] == rest[i];
                    assert(s[j].parent == Some(p));
                    assert(defined(s, p));
                }
                if p != d.name {
                    assert(defined(s, p));
                    let k = choose|k: int| 0 <= k < s.len() && (#[trigger] s[k]).name == p;
                    assert(s.contains(s[k]) && keep(s[k]));
                    assert(rest.contains(s[k]));
                    let q = choose|q: int| 0 <= q < rest.len() && rest[q] == s[k];
                    assert(r[q] == reparented(all[q], from, d.name));
                    assert(r[q].name == p);
                } else {
                    assert(r[rest.len() as int].name == p);
                }
            }
        }
    }
}

} // verus!
