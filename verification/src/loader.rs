//! Which documents of a directory belong to a workspace.
//!
//! A directory of analysis documents may hold leftovers of other builds, and
//! documents of dependencies that were fetched from a registry or a git
//! repository. The loader starts from the prelude of one crate, the leaf. A
//! document is unrelated unless its crate is the leaf or one of the leaf's
//! dependencies; a related document is vendored when its crate was built in a
//! directory of fetched sources. The other documents are loaded in full.
//!
//! The caller reads the files. For each it shows the loader the part that is
//! read first, and reads the rest only where the loader asks for it.

use vstd::prelude::*;
use crate::db::{
    all_defs_resolve, all_refs_resolve, covered_by, crate_views, is_first_unresolved_def,
    is_first_unresolved_ref, merged_defs, merged_refs, AnalysisDb, MergeError,
};
use crate::defs::{
    Compilation, CompilationView, CrateDisambiguator, CrateSaveAnalysis, CrateSaveAnalysisView,
    Prelude, PreludeView,
};
use crate::table::CrateSet;
use crate::text::{contains_text, has_infix, utf8};

verus! {

/// What a document is to the workspace.
#[derive(Debug, PartialEq, Eq, Copy, Clone, Structural)]
pub enum Relevance {
    /// Its crate is neither the leaf nor one of the leaf's dependencies.
    Unrelated,
    /// Its crate is a dependency whose sources were fetched.
    Vendored,
    /// Its crate belongs to the workspace: the document is loaded in full.
    Local,
}

/// The directory is one of sources fetched from a registry or from git.
pub open spec fn is_vendored(directory: Seq<char>) -> bool {
    ||| has_infix(utf8(directory), utf8(".cargo/registry/src/github.com"@))
    ||| has_infix(utf8(directory), utf8(".cargo/git/"@))
}

/// The crate of the prelude and the crates of its dependency table.
pub open spec fn relevant_to(leaf: PreludeView) -> Set<CrateDisambiguator> {
    Set::new(
        |d: CrateDisambiguator|
            d == leaf.crate_id.disambiguator || exists|i: int|
                0 <= i < leaf.external_crates.len() && (
                #[trigger] leaf.external_crates[i]).id.disambiguator == d,
    )
}

/// What a document with this compilation and prelude is to a workspace with
/// these relevant crates.
pub open spec fn relevance(
    relevant: Set<CrateDisambiguator>,
    compilation: CompilationView,
    prelude: PreludeView,
) -> Relevance {
    if !relevant.contains(prelude.crate_id.disambiguator) {
        Relevance::Unrelated
    } else if is_vendored(compilation.directory) {
        Relevance::Vendored
    } else {
        Relevance::Local
    }
}

/// The crate that a document is about.
pub open spec fn crate_of(c: CrateSaveAnalysisView) -> CrateDisambiguator {
    c.prelude.crate_id.disambiguator
}

/// No two documents of the list are about the same crate.
pub open spec fn distinct_crates(crates: Seq<CrateSaveAnalysisView>) -> bool {
    forall|i: int, j: int|
        0 <= i < j < crates.len() ==> crate_of(#[trigger] crates[i]) != crate_of(
            #[trigger] crates[j],
        )
}

/// Document `i` of the list is the first about crate `d`.
pub open spec fn is_first_about(
    crates: Seq<CrateSaveAnalysisView>,
    d: CrateDisambiguator,
    i: int,
) -> bool {
    &&& 0 <= i < crates.len()
    &&& crate_of(crates[i]) == d
    &&& forall|j: int| 0 <= j < i ==> crate_of(#[trigger] crates[j]) != d
}

/// The list with the document `c` put in: in place of the first document
/// about the same crate, or at the end where there is none.
pub open spec fn put_crate(
    crates: Seq<CrateSaveAnalysisView>,
    c: CrateSaveAnalysisView,
) -> Seq<CrateSaveAnalysisView> {
    if exists|i: int| is_first_about(crates, crate_of(c), i) {
        crates.update(choose|i: int| is_first_about(crates, crate_of(c), i), c)
    } else {
        crates.push(c)
    }
}

/// Whether the directory is one of sources fetched from a registry or from
/// git.
pub fn in_fetched_sources(directory: &str) -> (r: bool)
    ensures
        r == is_vendored(directory@),
{
    contains_text(directory, ".cargo/registry/src/github.com") || contains_text(
        directory,
        ".cargo/git/",
    )
}

/// The documents that were loaded so far, and the crates that count.
pub struct Loader {
    relevant: CrateSet,
    crates: Vec<CrateSaveAnalysis>,
}

/// What a `Loader` holds.
pub struct LoaderView {
    /// The leaf and its dependencies.
    pub relevant: Set<CrateDisambiguator>,
    /// The documents that were loaded in full, one for each crate.
    pub crates: Seq<CrateSaveAnalysisView>,
}

impl View for Loader {
    type V = LoaderView;

    closed spec fn view(&self) -> LoaderView {
        LoaderView { relevant: self.relevant@, crates: crate_views(self.crates@) }
    }
}

impl Loader {
    /// A loader for the workspace of the crate with this prelude.
    pub fn new(leaf: &Prelude) -> (loader: Loader)
        ensures
            loader@.relevant == relevant_to(leaf@),
            loader@.crates == Seq::<CrateSaveAnalysisView>::empty(),
            distinct_crates(loader@.crates),
    {
        let mut relevant = CrateSet::new();
        relevant.insert(leaf.crate_id.disambiguator);
        let ghost rows = leaf@.external_crates;
        let mut i: usize = 0;
        while i < leaf.external_crates.len()
            invariant
                i <= leaf.external_crates.len(),
                rows == leaf@.external_crates,
                forall|d: CrateDisambiguator|
                    relevant@.contains(d) <==> d == leaf@.crate_id.disambiguator || exists|j: int|
                        0 <= j < i && (#[trigger] rows[j]).id.disambiguator == d,
            decreases leaf.external_crates.len() - i,
        {
            let ghost before = relevant@;
            let d = leaf.external_crates[i].id.disambiguator;
            assert(rows[i as int].id.disambiguator == d);
            relevant.insert(d);
            proof {
                assert forall|x: CrateDisambiguator|
                    relevant@.contains(x) <==> x == leaf@.crate_id.disambiguator || exists|j: int|
                        0 <= j < i + 1 && (#[trigger] rows[j]).id.disambiguator == x by {
                    if before.contains(x) && x != leaf@.crate_id.disambiguator {
                        let j = choose|j: int|
                            0 <= j < i && (#[trigger] rows[j]).id.disambiguator == x;
                        assert(0 <= j < i + 1 && rows[j].id.disambiguator == x);
                    }
                    if x != leaf@.crate_id.disambiguator && exists|j: int|
                        0 <= j < i + 1 && (#[trigger] rows[j]).id.disambiguator == x {
                        let j = choose|j: int|
                            0 <= j < i + 1 && (#[trigger] rows[j]).id.disambiguator == x;
                        if j < i {
                            assert(before.contains(x));
                        }
                    }
                }
            }
            i += 1;
        }
        let loader = Loader { relevant, crates: Vec::new() };
        assert(loader@.relevant =~= relevant_to(leaf@));
        assert(loader@.crates =~= Seq::<CrateSaveAnalysisView>::empty());
        loader
    }

    /// What a document with this compilation and prelude is to the workspace.
    /// Only a `Local` document is to be read in full and added.
    pub fn classify(&self, compilation: &Compilation, prelude: &Prelude) -> (r: Relevance)
        ensures
            r == relevance(self@.relevant, compilation@, prelude@),
    {
        if !self.relevant.contains(&prelude.crate_id.disambiguator) {
            Relevance::Unrelated
        } else if in_fetched_sources(compilation.directory.as_str()) {
            Relevance::Vendored
        } else {
            Relevance::Local
        }
    }

    /// Takes in a document that was read in full, if it is `Local`. A document
    /// about a crate that was added before takes the place of the earlier
    /// one, so that the loader holds one document for each crate.
    pub fn add(&mut self, analysis: CrateSaveAnalysis) -> (r: Relevance)
        ensures
            r == relevance(old(self)@.relevant, analysis@.compilation, analysis@.prelude),
            final(self)@.relevant == old(self)@.relevant,
            final(self)@.crates == if r is Local {
                put_crate(old(self)@.crates, analysis@)
            } else {
                old(self)@.crates
            },
            distinct_crates(old(self)@.crates) ==> distinct_crates(final(self)@.crates),
    {
        let r = self.classify(&analysis.compilation, &analysis.prelude);
        if r != Relevance::Local {
            return r;
        }
        let ghost before = self@.crates;
        let ghost c = analysis@;
        let d = analysis.prelude.crate_id.disambiguator;
        let mut i: usize = 0;
        while i < self.crates.len()
            invariant
                i <= self.crates.len(),
                *self == *old(self),
                before == self@.crates,
                c == analysis@,
                r == Relevance::Local,
                r == relevance(old(self)@.relevant, c.compilation, c.prelude),
                d == crate_of(c),
                forall|j: int| 0 <= j < i ==> crate_of(#[trigger] before[j]) != d,
            decreases self.crates.len() - i,
        {
            assert(before[i as int] == self.crates@[i as int]@);
            if self.crates[i].prelude.crate_id.disambiguator == d {
                let ghost held = self.crates@;
                self.crates.set(i, analysis);
                proof {
                    assert(self.crates@ == held.update(i as int, analysis));
                    assert(before == crate_views(held));
                    assert(is_first_about(before, d, i as int));
                    let chosen = choose|k: int| is_first_about(before, d, k);
                    assert(chosen == i) by {
                        if chosen < i {
                            assert(crate_of(before[chosen]) != d);
                        } else if chosen > i {
                            assert(crate_of(before[i as int]) != d);
                        }
                    }
                    let after = self@.crates;
                    assert(after =~= before.update(i as int, c));
                    if distinct_crates(before) {
                        assert forall|x: int, y: int| 0 <= x < y < after.len() implies crate_of(
                            #[trigger] after[x],
                        ) != crate_of(#[trigger] after[y]) by {
                            assert(crate_of(before[x]) != crate_of(before[y]));
                        }
                    }
                }
                return r;
            }
            i += 1;
        }
        let ghost held = self.crates@;
        self.crates.push(analysis);
        proof {
            assert(self.crates@ == held.push(analysis));
            let after = self@.crates;
            assert(after =~= before.push(c));
            if distinct_crates(before) {
                assert forall|x: int, y: int| 0 <= x < y < after.len() implies crate_of(
                    #[trigger] after[x],
                ) != crate_of(#[trigger] after[y]) by {
                    if y < before.len() {
                        assert(crate_of(before[x]) != crate_of(before[y]));
                    } else {
                        assert(crate_of(before[x]) != d);
                    }
                }
            }
        }
        r
    }

    /// The number of documents that were loaded in full.
    pub fn len(&self) -> (n: usize)
        ensures
            n == self@.crates.len(),
    {
        self.crates.len()
    }

    /// Merges the loaded documents into the tables of the workspace.
    pub fn into_db(self, root: Option<String>) -> (r: Result<AnalysisDb, MergeError>)
        ensures
            r is Ok <==> all_defs_resolve(self@.crates) && all_refs_resolve(self@.crates),
            match r {
                Ok(db) => {
                    &&& all_defs_resolve(self@.crates)
                    &&& all_refs_resolve(self@.crates)
                    &&& db@.root == match root {
                        Some(text) => Some(text@),
                        None => None,
                    }
                    &&& db@.covered == covered_by(self@.crates)
                    &&& db@.defs == merged_defs(self@.crates)
                    &&& db@.refs == merged_refs(self@.crates)
                    &&& db@.keyed()
                },
                Err(MergeError::UnresolvedDef { krate, def }) => is_first_unresolved_def(
                    self@.crates,
                    krate as int,
                    def as int,
                ),
                Err(MergeError::UnresolvedRef { krate, reference }) => {
                    &&& all_defs_resolve(self@.crates)
                    &&& is_first_unresolved_ref(self@.crates, krate as int, reference as int)
                },
            },
    {
        AnalysisDb::from_crates(root, &self.crates)
    }
}

} // verus!
