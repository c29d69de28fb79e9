//! The module loader collaborator, as this core sees it: a table of loaded,
//! parsed files, an import-resolution relation from (importing file, import
//! path) to an outcome, and a designated universe file holding the ambient
//! declarations.
//!
//! Path resolution, file I/O and parsing happen outside; the driver records
//! their results here before (or while) resolution runs.

use vstd::prelude::*;
use crate::ModuleId;
use crate::ast::AstModule;

verus! {

/// What resolving an import path against the loader yields: a loaded module,
/// a clean miss, or a loader error with its message.
#[derive(Debug)]
pub enum LoadOutcome {
    Found(ModuleId),
    NotFound,
    Error(String),
}

/// One recorded import-resolution result.
#[derive(Debug)]
pub struct ImportEdge {
    pub from_file: String,
    pub path: String,
    pub outcome: LoadOutcome,
}

/// The loader's accumulated knowledge: loaded files, resolution results, and
/// which file carries the ambient (universe) declarations.
#[derive(Debug)]
pub struct Loader {
    pub modules: Vec<AstModule>,
    pub edges: Vec<ImportEdge>,
    pub universe_index: usize,
}

/// Index of the module with identity `mid` among `mods`, scanning from `i`.
pub open spec fn find_module_from(mods: Seq<AstModule>, mid: u64, i: int) -> Option<int>
    decreases mods.len() - i,
{
    if i < 0 || i >= mods.len() {
        None
    } else if mods[i].id == mid {
        Some(i)
    } else {
        find_module_from(mods, mid, i + 1)
    }
}

/// Outcome of the first matching edge, scanning from `i`.
pub open spec fn find_edge_from(
    edges: Seq<ImportEdge>,
    file: Seq<char>,
    path: Seq<char>,
    i: int,
) -> Option<LoadOutcome>
    decreases edges.len() - i,
{
    if i < 0 || i >= edges.len() {
        None
    } else if edges[i].from_file@ == file && edges[i].path@ == path {
        Some(edges[i].outcome)
    } else {
        find_edge_from(edges, file, path, i + 1)
    }
}

impl Loader {
    /// Index of the loaded module with identity `mid`, if any.
    pub open spec fn spec_module_index(&self, mid: u64) -> Option<int> {
        find_module_from(self.modules@, mid, 0)
    }

    /// Outcome recorded for resolving `path` from `file`, if any.
    pub open spec fn spec_resolve(&self, file: Seq<char>, path: Seq<char>) -> Option<LoadOutcome> {
        find_edge_from(self.edges@, file, path, 0)
    }

    /// Well-formedness: module identities are pairwise distinct, the
    /// universe index is in range, and every recorded hit names a loaded
    /// module.
    pub open spec fn wf(&self) -> bool {
        &&& forall|i: int, j: int|
            0 <= i < j < self.modules@.len() ==> self.modules@[i].id != self.modules@[j].id
        &&& self.universe_index < self.modules@.len()
        &&& forall|k: int|
            0 <= k < self.edges@.len() ==> match #[trigger] self.edges@[k].outcome {
                LoadOutcome::Found(mid) => self.spec_module_index(mid.0) is Some,
                _ => true,
            }
    }

    /// A loader holding only the universe file.
    pub fn new(universe: AstModule) -> (r: Loader)
        ensures
            r.wf(),
            r.modules@ == seq![universe],
            r.edges@ == Seq::<ImportEdge>::empty(),
            r.universe_index == 0,
    {
        let mut modules = Vec::new();
        modules.push(universe);
        proof {
            assert(modules@ =~= seq![universe]);
        }
        Loader { modules, edges: Vec::new(), universe_index: 0 }
    }

    /// Records a loaded file. A second file under an already-present
    /// identity is rejected.
    pub fn add_module(&mut self, m: AstModule) -> (r: bool)
        requires
            old(self).wf(),
        ensures
            final(self).wf(),
            r == (old(self).spec_module_index(m.id) is None),
            r ==> final(self).modules@ == old(self).modules@.push(m),
            !r ==> *final(self) == *old(self),
            final(self).edges@ == old(self).edges@,
            final(self).universe_index == old(self).universe_index,
    {
        if self.module_index(m.id).is_some() {
            return false;
        }
        proof {
            lemma_find_module_from_none(self.modules@, m.id, 0);
        }
        let ghost old_mods = self.modules@;
        self.modules.push(m);
        proof {
            assert forall|i: int, j: int|
                0 <= i < j < self.modules@.len() implies self.modules@[i].id != self.modules@[j].id
            by {
                if j < old_mods.len() {
                } else {
                    assert(self.modules@[j] == m);
                }
            }
            assert forall|k: int|
                0 <= k < self.edges@.len() implies match #[trigger] self.edges@[k].outcome {
                    LoadOutcome::Found(mid) => self.spec_module_index(mid.0) is Some,
                    _ => true,
                }
            by {
                match self.edges@[k].outcome {
                    LoadOutcome::Found(mid) => {
                        let i = old(self).spec_module_index(mid.0)->Some_0;
                        lemma_find_module_extend(old_mods, m, mid.0);
                    },
                    _ => {},
                }
            }
        }
        true
    }

    /// Records the outcome of resolving `path` from `from_file`. A hit that
    /// names an unloaded module is rejected.
    pub fn add_import_edge(&mut self, from_file: String, path: String, outcome: LoadOutcome) -> (r:
        bool)
        requires
            old(self).wf(),
        ensures
            final(self).wf(),
            r == match outcome {
                LoadOutcome::Found(mid) => old(self).spec_module_index(mid.0) is Some,
                _ => true,
            },
            r ==> final(self).edges@ == old(self).edges@.push(
                ImportEdge { from_file, path, outcome },
            ),
            !r ==> *final(self) == *old(self),
            final(self).modules@ == old(self).modules@,
            final(self).universe_index == old(self).universe_index,
    {
        let ok = match &outcome {
            LoadOutcome::Found(mid) => self.module_index(mid.0).is_some(),
            _ => true,
        };
        if !ok {
            return false;
        }
        self.edges.push(ImportEdge { from_file, path, outcome });
        true
    }

    /// Index of the loaded module with identity `mid`, if any.
    pub fn module_index(&self, mid: u64) -> (r: Option<usize>)
        ensures
            match r {
                Some(i) => self.spec_module_index(mid) == Some(i as int) && i
                    < self.modules@.len(),
                None => self.spec_module_index(mid) is None,
            },
    {
        let n = self.modules.len();
        for i in 0..n
            invariant
                n == self.modules@.len(),
                forall|j: int| 0 <= j < i ==> self.modules@[j].id != mid,
                find_module_from(self.modules@, mid, 0) == find_module_from(
                    self.modules@,
                    mid,
                    i as int,
                ),
        {
            if self.modules[i].id == mid {
                return Some(i);
            }
        }
        None
    }

    /// The loaded module at `index`.
    pub fn module_at(&self, index: usize) -> (r: &AstModule)
        requires
            index < self.modules@.len(),
        ensures
            *r == self.modules@[index as int],
    {
        &self.modules[index]
    }

    /// The universe file: the ambient/global declaration set.
    pub fn universe(&self) -> (r: &AstModule)
        requires
            self.wf(),
        ensures
            *r == self.modules@[self.universe_index as int],
    {
        &self.modules[self.universe_index]
    }

    /// The recorded outcome of resolving `path` from `file`, if any.
    pub fn resolve_import(&self, file: &String, path: &String) -> (r: Option<&LoadOutcome>)
        ensures
            match r {
                Some(o) => self.spec_resolve(file@, path@) == Some(*o),
                None => self.spec_resolve(file@, path@) is None,
            },
    {
        let n = self.edges.len();
        for i in 0..n
            invariant
                n == self.edges@.len(),
                find_edge_from(self.edges@, file@, path@, 0) == find_edge_from(
                    self.edges@,
                    file@,
                    path@,
                    i as int,
                ),
        {
            let e = &self.edges[i];
            if e.from_file == *file && e.path == *path {
                return Some(&self.edges[i].outcome);
            }
        }
        None
    }
}

/// If no module up to the end has identity `mid`, the scan from any start
/// yields `None`; conversely a `None` scan from 0 rules out every index.
proof fn lemma_find_module_from_none(mods: Seq<AstModule>, mid: u64, i: int)
    requires
        find_module_from(mods, mid, 0) is None,
        0 <= i <= mods.len(),
    ensures
        forall|j: int| 0 <= j < mods.len() ==> mods[j].id != mid,
    decreases mods.len(),
{
    lemma_find_module_scan(mods, mid, 0);
}

/// A `None` scan from `i` means no index at or after `i` matches.
proof fn lemma_find_module_scan(mods: Seq<AstModule>, mid: u64, i: int)
    requires
        0 <= i,
        find_module_from(mods, mid, i) is None,
    ensures
        forall|j: int| i <= j < mods.len() ==> mods[j].id != mid,
    decreases mods.len() - i,
{
    if i < mods.len() {
        lemma_find_module_scan(mods, mid, i + 1);
    }
}

/// Appending a module leaves every earlier identity findable.
proof fn lemma_find_module_extend(mods: Seq<AstModule>, m: AstModule, mid: u64)
    requires
        find_module_from(mods, mid, 0) is Some,
    ensures
        find_module_from(mods.push(m), mid, 0) == find_module_from(mods, mid, 0),
    decreases mods.len(),
{
    lemma_find_module_extend_from(mods, m, mid, 0);
}

/// Appending a module leaves a successful scan from any start unchanged.
proof fn lemma_find_module_extend_from(mods: Seq<AstModule>, m: AstModule, mid: u64, i: int)
    requires
        0 <= i,
        find_module_from(mods, mid, i) is Some,
    ensures
        find_module_from(mods.push(m), mid, i) == find_module_from(mods, mid, i),
    decreases mods.len() - i,
{
    if i < mods.len() {
        assert(mods.push(m)[i] == mods[i]);
        if mods[i].id != mid {
            lemma_find_module_extend_from(mods, m, mid, i + 1);
        }
    }
}

/// The universe file's identity is findable at its recorded index.
pub proof fn lemma_module_index_of_universe(ldr: Loader)
    requires
        ldr.wf(),
    ensures
        ldr.spec_module_index(ldr.modules@[ldr.universe_index as int].id) is Some,
{
    lemma_find_some_of_present(ldr.modules@, ldr.modules@[ldr.universe_index as int].id, 0, ldr.universe_index as int);
}

/// A present identity is found by the scan.
proof fn lemma_find_some_of_present(mods: Seq<AstModule>, mid: u64, i: int, w: int)
    requires
        0 <= i <= w < mods.len(),
        mods[w].id == mid,
    ensures
        find_module_from(mods, mid, i) is Some,
    decreases w - i,
{
    if i < w && mods[i].id != mid {
        lemma_find_some_of_present(mods, mid, i + 1, w);
    }
}

} // verus!
