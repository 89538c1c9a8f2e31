//! The merged tables of a workspace, and the search for unused definitions.
//!
//! A definition counts as used when some reference targets it. Of the others,
//! several kinds are known to lack references for reasons that say nothing
//! about their use; a chain of rules passes over them. What is left is
//! reported, sorted by kind, name and identity.

use vstd::prelude::*;
use crate::defs::{
    AbsDef, AbsItemId, AbsRef, CrateDisambiguator, CrateSaveAnalysis, CrateSaveAnalysisView,
    DefView, PreludeView, RefView,
};
use crate::oracle::{may_be_in_macro, maybe_in_macro, scan_views, ScannedFile, ScannedFileView};
use crate::order::{def_same_rank, def_views, insert_sorted, sorted};
use crate::table::{CrateSet, IdTable};
use crate::text::{has_underscore_prefix, starts_with_underscore, str_eq};

verus! {

/// The definitions and references of all loaded crates, under global
/// identities.
pub struct AnalysisDb {
    root: Option<String>,
    covered_crates: CrateSet,
    defs: IdTable<AbsDef>,
    refs: IdTable<AbsRef>,
}

/// What an `AnalysisDb` holds.
pub struct AnalysisDbView {
    /// The root directory of the workspace, under which source files lie.
    pub root: Option<Seq<char>>,
    /// The crates whose full analysis was loaded.
    pub covered: Set<CrateDisambiguator>,
    /// The definitions, by their own identity.
    pub defs: Map<AbsItemId, DefView<CrateDisambiguator>>,
    /// The references, by the identity of their target.
    pub refs: Map<AbsItemId, RefView<CrateDisambiguator>>,
}

/// Why a definition without a known use is not reported. The rules are tried
/// in the order of the variants, and the first that applies decides.
#[derive(Debug, PartialEq, Eq, Copy, Clone, Structural)]
pub enum Suppression {
    /// A reference targets the definition.
    Referenced,
    /// The name begins with an underscore: the author expects no use.
    Underscore,
    /// The `self` of a method, which is bound whether or not it is named.
    SelfBinding,
    /// A constructor with positional fields. References to these are
    /// under-reported, so none is ever reported as unused; this hides real
    /// findings and is accepted.
    TupleVariant,
    /// A member of a trait impl, where the trait's member is used or the trait
    /// belongs to a crate that was not loaded.
    TraitMember,
    /// An associated type declared in a trait; references to these are not
    /// recorded at all.
    AssociatedType,
    /// The definition may lie inside a macro invocation.
    InMacro,
}

impl AnalysisDbView {
    /// Every definition stands under its own identity and every reference
    /// under that of its target.
    pub open spec fn keyed(self) -> bool {
        &&& forall|id: AbsItemId| #[trigger] self.defs.contains_key(id) ==> self.defs[id].id == id
        &&& forall|id: AbsItemId| #[trigger]
            self.refs.contains_key(id) ==> self.refs[id].ref_id == id
    }

    /// Some reference targets `id`.
    pub open spec fn is_used(self, id: AbsItemId) -> bool {
        self.refs.contains_key(id)
    }

    /// `d` implements a member of a trait, and that member is used or belongs
    /// to a crate that was not loaded.
    pub open spec fn is_kept_trait_member(self, d: DefView<CrateDisambiguator>) -> bool {
        d.decl_id matches Some(decl) && (self.is_used(decl) || !self.covered.contains(decl.krate))
    }

    /// `d` is a type whose parent is a known trait.
    pub open spec fn is_associated_type(self, d: DefView<CrateDisambiguator>) -> bool {
        &&& d.kind == "Type"@
        &&& d.parent matches Some(p)
        &&& self.defs.contains_key(p)
        &&& self.defs[p].kind == "Trait"@
    }

    /// The first of the rules that need no source file and applies to `d`.
    pub open spec fn first_rule(self, d: DefView<CrateDisambiguator>) -> Option<Suppression> {
        if self.is_used(d.id) {
            Some(Suppression::Referenced)
        } else if has_underscore_prefix(d.name) {
            Some(Suppression::Underscore)
        } else if d.kind == "Local"@ && d.name == "self"@ {
            Some(Suppression::SelfBinding)
        } else if d.kind == "TupleVariant"@ {
            Some(Suppression::TupleVariant)
        } else if self.is_kept_trait_member(d) {
            Some(Suppression::TraitMember)
        } else if self.is_associated_type(d) {
            Some(Suppression::AssociatedType)
        } else {
            None
        }
    }

    /// The first of all rules that applies to `d`, given the scans of the
    /// source files. The macro rule comes last: a source file matters only for
    /// a definition that no other rule passes over.
    pub open spec fn verdict(
        self,
        d: DefView<CrateDisambiguator>,
        files: Seq<ScannedFileView>,
    ) -> Option<Suppression> {
        match self.first_rule(d) {
            Some(rule) => Some(rule),
            None => if maybe_in_macro(files, d.span) {
                Some(Suppression::InMacro)
            } else {
                None
            },
        }
    }

    /// `d` is one of the definitions of the tables.
    pub open spec fn holds(self, d: DefView<CrateDisambiguator>) -> bool {
        self.defs.contains_key(d.id) && self.defs[d.id] == d
    }

    /// `d` is a definition of the tables that no rule passes over.
    pub open spec fn reports(
        self,
        d: DefView<CrateDisambiguator>,
        files: Seq<ScannedFileView>,
    ) -> bool {
        self.holds(d) && self.verdict(d, files) is None
    }

    /// `d` is a definition of the tables that no rule but, possibly, the macro
    /// rule passes over: its source file is worth a scan.
    pub open spec fn is_candidate(self, d: DefView<CrateDisambiguator>) -> bool {
        self.holds(d) && self.first_rule(d) is None
    }

    /// `d` is wanted in a list: no rule that needs no source file passes over
    /// it, and, where the scans are consulted, it does not lie in a macro
    /// invocation.
    spec fn wants(
        self,
        d: DefView<CrateDisambiguator>,
        files: Seq<ScannedFileView>,
        consult: bool,
    ) -> bool {
        self.first_rule(d) is None && (consult ==> !maybe_in_macro(files, d.span))
    }

    /// `out` is the report of the unused definitions: the reported definitions
    /// and no others, sorted.
    pub open spec fn is_report(
        self,
        files: Seq<ScannedFileView>,
        out: Seq<DefView<CrateDisambiguator>>,
    ) -> bool {
        &&& sorted(out)
        &&& forall|d: DefView<CrateDisambiguator>| #[trigger]
            out.contains(d) <==> self.reports(d, files)
    }

    /// `out` is the sorted list of the candidates for a scan.
    pub open spec fn is_candidate_list(self, out: Seq<DefView<CrateDisambiguator>>) -> bool {
        &&& sorted(out)
        &&& forall|d: DefView<CrateDisambiguator>| #[trigger]
            out.contains(d) <==> self.is_candidate(d)
    }
}

/// The views of a list of documents.
pub open spec fn crate_views(crates: Seq<CrateSaveAnalysis>) -> Seq<CrateSaveAnalysisView> {
    crates.map_values(|c: CrateSaveAnalysis| c@)
}

/// `base` with the definitions of one document put in, each promoted through
/// the document's prelude and put under its own identity, in the order of the
/// document. A later definition replaces an earlier one of the same identity.
pub open spec fn add_defs(
    base: Map<AbsItemId, DefView<CrateDisambiguator>>,
    prelude: PreludeView,
    defs: Seq<DefView<u32>>,
) -> Map<AbsItemId, DefView<CrateDisambiguator>>
    decreases defs.len(),
{
    if defs.len() == 0 {
        base
    } else {
        let d = prelude.promote_def(defs.last());
        add_defs(base, prelude, defs.drop_last()).insert(d.id, d)
    }
}

/// The definition table of a list of documents: the definitions of each, in
/// the order of the list.
pub open spec fn merged_defs(crates: Seq<CrateSaveAnalysisView>) -> Map<
    AbsItemId,
    DefView<CrateDisambiguator>,
>
    decreases crates.len(),
{
    if crates.len() == 0 {
        Map::empty()
    } else {
        add_defs(merged_defs(crates.drop_last()), crates.last().prelude, crates.last().defs)
    }
}

/// `base` with the references of one document put in, each promoted through
/// the document's prelude and put under the identity of its target, in the
/// order of the document. A later reference replaces an earlier one to the
/// same target.
pub open spec fn add_refs(
    base: Map<AbsItemId, RefView<CrateDisambiguator>>,
    prelude: PreludeView,
    refs: Seq<RefView<u32>>,
) -> Map<AbsItemId, RefView<CrateDisambiguator>>
    decreases refs.len(),
{
    if refs.len() == 0 {
        base
    } else {
        let r = prelude.promote_ref(refs.last());
        add_refs(base, prelude, refs.drop_last()).insert(r.ref_id, r)
    }
}

/// The reference table of a list of documents: the references of each, in the
/// order of the list.
pub open spec fn merged_refs(crates: Seq<CrateSaveAnalysisView>) -> Map<
    AbsItemId,
    RefView<CrateDisambiguator>,
>
    decreases crates.len(),
{
    if crates.len() == 0 {
        Map::empty()
    } else {
        add_refs(merged_refs(crates.drop_last()), crates.last().prelude, crates.last().refs)
    }
}

/// The crates of the documents of a list.
pub open spec fn covered_by(crates: Seq<CrateSaveAnalysisView>) -> Set<CrateDisambiguator> {
    Set::new(
        |d: CrateDisambiguator|
            exists|i: int|
                0 <= i < crates.len() && (#[trigger] crates[i]).prelude.crate_id.disambiguator
                    == d,
    )
}

/// Every crate number in definition `j` of document `i` resolves through the
/// prelude of that document.
pub open spec fn def_resolves(crates: Seq<CrateSaveAnalysisView>, i: int, j: int) -> bool {
    crates[i].prelude.resolves_def(crates[i].defs[j])
}

/// The crate number of the target of reference `j` of document `i` resolves
/// through the prelude of that document.
pub open spec fn ref_resolves(crates: Seq<CrateSaveAnalysisView>, i: int, j: int) -> bool {
    crates[i].prelude.resolves_ref(crates[i].refs[j])
}

pub open spec fn all_defs_resolve(crates: Seq<CrateSaveAnalysisView>) -> bool {
    forall|i: int, j: int|
        0 <= i < crates.len() && 0 <= j < crates[i].defs.len() ==> #[trigger] def_resolves(
            crates,
            i,
            j,
        )
}

pub open spec fn all_refs_resolve(crates: Seq<CrateSaveAnalysisView>) -> bool {
    forall|i: int, j: int|
        0 <= i < crates.len() && 0 <= j < crates[i].refs.len() ==> #[trigger] ref_resolves(
            crates,
            i,
            j,
        )
}

/// Place `(a, b)` comes before place `(i, j)` when documents are read in
/// order, and the entries of each in order.
pub open spec fn comes_before(a: int, b: int, i: int, j: int) -> bool {
    a < i || (a == i && b < j)
}

/// Definition `j` of document `i` is the first that does not resolve.
pub open spec fn is_first_unresolved_def(
    crates: Seq<CrateSaveAnalysisView>,
    i: int,
    j: int,
) -> bool {
    &&& 0 <= i < crates.len()
    &&& 0 <= j < crates[i].defs.len()
    &&& !def_resolves(crates, i, j)
    &&& forall|a: int, b: int|
        0 <= a < crates.len() && 0 <= b < crates[a].defs.len() && comes_before(a, b, i, j)
            ==> #[trigger] def_resolves(crates, a, b)
}

/// Reference `j` of document `i` is the first that does not resolve.
pub open spec fn is_first_unresolved_ref(
    crates: Seq<CrateSaveAnalysisView>,
    i: int,
    j: int,
) -> bool {
    &&& 0 <= i < crates.len()
    &&& 0 <= j < crates[i].refs.len()
    &&& !ref_resolves(crates, i, j)
    &&& forall|a: int, b: int|
        0 <= a < crates.len() && 0 <= b < crates[a].refs.len() && comes_before(a, b, i, j)
            ==> #[trigger] ref_resolves(crates, a, b)
}

/// A document names a crate by a number that its prelude does not resolve:
/// the number is beyond its dependency table, or the row found there carries
/// another number. Such a document is malformed, and nothing is merged.
#[derive(Debug, PartialEq, Eq, Copy, Clone, Structural)]
pub enum MergeError {
    /// The first definition that does not resolve, by the place of its
    /// document in the list and its own place in the document.
    UnresolvedDef { krate: usize, def: usize },
    /// All definitions resolve; the first reference that does not, by the
    /// place of its document in the list and its own place in the document.
    UnresolvedRef { krate: usize, reference: usize },
}

/// What a table of definitions holds, by views.
pub open spec fn def_map(t: IdTable<AbsDef>) -> Map<AbsItemId, DefView<CrateDisambiguator>> {
    t@.map_values(|d: AbsDef| d@)
}

/// What a table of references holds, by views.
pub open spec fn ref_map(t: IdTable<AbsRef>) -> Map<AbsItemId, RefView<CrateDisambiguator>> {
    t@.map_values(|r: AbsRef| r@)
}

/// Every definition of the map stands under its own identity.
pub open spec fn defs_keyed(m: Map<AbsItemId, DefView<CrateDisambiguator>>) -> bool {
    forall|id: AbsItemId| #[trigger] m.contains_key(id) ==> m[id].id == id
}

/// Every reference of the map stands under the identity of its target.
pub open spec fn refs_keyed(m: Map<AbsItemId, RefView<CrateDisambiguator>>) -> bool {
    forall|id: AbsItemId| #[trigger] m.contains_key(id) ==> m[id].ref_id == id
}

/// Puts the definitions of one document into the table. Gives the place of
/// the first definition that does not resolve, if there is one; the table then
/// holds the definitions before it.
fn merge_defs_of(table: &mut IdTable<AbsDef>, c: &CrateSaveAnalysis) -> (r: Option<usize>)
    requires
        old(table).wf(),
        defs_keyed(def_map(*old(table))),
    ensures
        final(table).wf(),
        defs_keyed(def_map(*final(table))),
        match r {
            None => {
                &&& forall|j: int|
                    0 <= j < c@.defs.len() ==> c@.prelude.resolves_def(#[trigger] c@.defs[j])
                &&& def_map(*final(table)) == add_defs(
                    def_map(*old(table)),
                    c@.prelude,
                    c@.defs,
                )
            },
            Some(at) => {
                &&& at < c@.defs.len()
                &&& !c@.prelude.resolves_def(c@.defs[at as int])
                &&& forall|j: int| 0 <= j < at ==> c@.prelude.resolves_def(#[trigger] c@.defs[j])
            },
        },
{
    let ghost base = def_map(*table);
    let mut j: usize = 0;
    while j < c.defs.len()
        invariant
            j <= c.defs.len(),
            table.wf(),
            defs_keyed(def_map(*table)),
            forall|k: int| 0 <= k < j ==> c@.prelude.resolves_def(#[trigger] c@.defs[k]),
            def_map(*table) == add_defs(base, c@.prelude, c@.defs.take(j as int)),
        decreases c.defs.len() - j,
    {
        assert(c@.defs[j as int] == c.defs@[j as int]@);
        match c.prelude.promote_def(&c.defs[j]) {
            None => {
                return Some(j);
            },
            Some(g) => {
                let ghost before = def_map(*table);
                let ghost gv = g@;
                table.insert(g.id, g);
                proof {
                    assert(def_map(*table) =~= before.insert(gv.id, gv));
                    let upto = c@.defs.take(j + 1);
                    assert(upto.drop_last() =~= c@.defs.take(j as int));
                    assert(upto.last() == c@.defs[j as int]);
                }
            },
        }
        j += 1;
    }
    assert(c@.defs.take(j as int) =~= c@.defs);
    None
}

/// Puts the references of one document into the table. Gives the place of
/// the first reference that does not resolve, if there is one; the table then
/// holds the references before it.
fn merge_refs_of(table: &mut IdTable<AbsRef>, c: &CrateSaveAnalysis) -> (r: Option<usize>)
    requires
        old(table).wf(),
        refs_keyed(ref_map(*old(table))),
    ensures
        final(table).wf(),
        refs_keyed(ref_map(*final(table))),
        match r {
            None => {
                &&& forall|j: int|
                    0 <= j < c@.refs.len() ==> c@.prelude.resolves_ref(#[trigger] c@.refs[j])
                &&& ref_map(*final(table)) == add_refs(
                    ref_map(*old(table)),
                    c@.prelude,
                    c@.refs,
                )
            },
            Some(at) => {
                &&& at < c@.refs.len()
                &&& !c@.prelude.resolves_ref(c@.refs[at as int])
                &&& forall|j: int| 0 <= j < at ==> c@.prelude.resolves_ref(#[trigger] c@.refs[j])
            },
        },
{
    let ghost base = ref_map(*table);
    let mut j: usize = 0;
    while j < c.refs.len()
        invariant
            j <= c.refs.len(),
            table.wf(),
            refs_keyed(ref_map(*table)),
            forall|k: int| 0 <= k < j ==> c@.prelude.resolves_ref(#[trigger] c@.refs[k]),
            ref_map(*table) == add_refs(base, c@.prelude, c@.refs.take(j as int)),
        decreases c.refs.len() - j,
    {
        assert(c@.refs[j as int] == c.refs@[j as int]@);
        match c.prelude.promote_ref(&c.refs[j]) {
            None => {
                return Some(j);
            },
            Some(g) => {
                let ghost before = ref_map(*table);
                let ghost gv = g@;
                table.insert(g.ref_id, g);
                proof {
                    assert(ref_map(*table) =~= before.insert(gv.ref_id, gv));
                    let upto = c@.refs.take(j + 1);
                    assert(upto.drop_last() =~= c@.refs.take(j as int));
                    assert(upto.last() == c@.refs[j as int]);
                }
            },
        }
        j += 1;
    }
    assert(c@.refs.take(j as int) =~= c@.refs);
    None
}

impl View for AnalysisDb {
    type V = AnalysisDbView;

    closed spec fn view(&self) -> AnalysisDbView {
        AnalysisDbView {
            root: match self.root {
                Some(r) => Some(r@),
                None => None,
            },
            covered: self.covered_crates@,
            defs: self.defs@.map_values(|d: AbsDef| d@),
            refs: self.refs@.map_values(|r: AbsRef| r@),
        }
    }
}

impl AnalysisDb {
    #[verifier::type_invariant]
    closed spec fn inv(self) -> bool {
        &&& self.defs.wf()
        &&& self.refs.wf()
        &&& self@.keyed()
    }

    /// Merges the documents of a workspace into one pair of tables.
    ///
    /// Every definition and reference is promoted through the prelude of its
    /// own document. A document in which some crate number does not resolve
    /// is malformed; the first such place is returned and nothing is merged.
    pub fn from_crates(root: Option<String>, crates: &Vec<CrateSaveAnalysis>) -> (r: Result<
        AnalysisDb,
        MergeError,
    >)
        ensures
            r is Ok <==> all_defs_resolve(crate_views(crates@)) && all_refs_resolve(
                crate_views(crates@),
            ),
            match r {
                Ok(db) => {
                    &&& all_defs_resolve(crate_views(crates@))
                    &&& all_refs_resolve(crate_views(crates@))
                    &&& db@.root == match root {
                        Some(text) => Some(text@),
                        None => None,
                    }
                    &&& db@.covered == covered_by(crate_views(crates@))
                    &&& db@.defs == merged_defs(crate_views(crates@))
                    &&& db@.refs == merged_refs(crate_views(crates@))
                    &&& db@.keyed()
                },
                Err(MergeError::UnresolvedDef { krate, def }) => is_first_unresolved_def(
                    crate_views(crates@),
                    krate as int,
                    def as int,
                ),
                Err(MergeError::UnresolvedRef { krate, reference }) => {
                    &&& all_defs_resolve(crate_views(crates@))
                    &&& is_first_unresolved_ref(crate_views(crates@), krate as int, reference as int)
                },
            },
    {
        let ghost all = crate_views(crates@);
        let mut covered_crates = CrateSet::new();
        let mut defs: IdTable<AbsDef> = IdTable::new();
        let mut i: usize = 0;
        assert(def_map(defs) =~= merged_defs(all.take(0)));
        assert(covered_crates@ =~= covered_by(all.take(0)));
        while i < crates.len()
            invariant
                i <= crates.len(),
                all == crate_views(crates@),
                defs.wf(),
                defs_keyed(def_map(defs)),
                def_map(defs) == merged_defs(all.take(i as int)),
                covered_crates@ == covered_by(all.take(i as int)),
                forall|a: int, b: int|
                    0 <= a < i && 0 <= b < all[a].defs.len() ==> #[trigger] def_resolves(all, a, b),
            decreases crates.len() - i,
        {
            let c = &crates[i];
            assert(all[i as int] == c@);
            let ghost upto = all.take(i + 1);
            assert(upto.drop_last() =~= all.take(i as int));
            assert(upto.last() == c@);
            if let Some(at) = merge_defs_of(&mut defs, c) {
                assert(!def_resolves(all, i as int, at as int));
                return Err(MergeError::UnresolvedDef { krate: i, def: at });
            }
            covered_crates.insert(c.prelude.crate_id.disambiguator);
            proof {
                assert forall|b: int| 0 <= b < all[i as int].defs.len() implies def_resolves(
                    all,
                    i as int,
                    b,
                ) by {
                    assert(c@.prelude.resolves_def(c@.defs[b]));
                }
                assert(covered_crates@ =~= covered_by(upto)) by {
                    assert forall|d: CrateDisambiguator|
                        covered_by(upto).contains(d) implies covered_by(all.take(i as int)).insert(
                        c@.prelude.crate_id.disambiguator,
                    ).contains(d) by {
                        let k = choose|k: int|
                            0 <= k < upto.len() && (#[trigger] upto[k]).prelude.crate_id.disambiguator
                                == d;
                        if k < i {
                            assert(all.take(i as int)[k] == upto[k]);
                        }
                    }
                    assert forall|d: CrateDisambiguator|
                        covered_by(all.take(i as int)).insert(
                            c@.prelude.crate_id.disambiguator,
                        ).contains(d) implies covered_by(upto).contains(d) by {
                        if d == c@.prelude.crate_id.disambiguator {
                            assert(upto[i as int].prelude.crate_id.disambiguator == d);
                        } else {
                            let k = choose|k: int|
                                0 <= k < i && (#[trigger] all.take(
                                    i as int,
                                )[k]).prelude.crate_id.disambiguator == d;
                            assert(upto[k].prelude.crate_id.disambiguator == d);
                        }
                    }
                }
            }
            i += 1;
        }
        assert(all.take(i as int) =~= all);
        let mut refs: IdTable<AbsRef> = IdTable::new();
        let mut i: usize = 0;
        assert(ref_map(refs) =~= merged_refs(all.take(0)));
        while i < crates.len()
            invariant
                i <= crates.len(),
                all == crate_views(crates@),
                all_defs_resolve(all),
                refs.wf(),
                refs_keyed(ref_map(refs)),
                ref_map(refs) == merged_refs(all.take(i as int)),
                forall|a: int, b: int|
                    0 <= a < i && 0 <= b < all[a].refs.len() ==> #[trigger] ref_resolves(all, a, b),
            decreases crates.len() - i,
        {
            let c = &crates[i];
            assert(all[i as int] == c@);
            let ghost upto = all.take(i + 1);
            assert(upto.drop_last() =~= all.take(i as int));
            assert(upto.last() == c@);
            if let Some(at) = merge_refs_of(&mut refs, c) {
                assert(!ref_resolves(all, i as int, at as int));
                return Err(MergeError::UnresolvedRef { krate: i, reference: at });
            }
            proof {
                assert forall|b: int| 0 <= b < all[i as int].refs.len() implies ref_resolves(
                    all,
                    i as int,
                    b,
                ) by {
                    assert(c@.prelude.resolves_ref(c@.refs[b]));
                }
            }
            i += 1;
        }
        assert(all.take(i as int) =~= all);
        Ok(AnalysisDb { root, covered_crates, defs, refs })
    }

    /// Whether some reference targets `id`.
    pub fn is_used(&self, id: &AbsItemId) -> (r: bool)
        ensures
            r == self@.is_used(*id),
    {
        self.refs.contains(id)
    }

    /// The first of the rules that need no source file and applies to `d`.
    pub fn first_rule(&self, d: &AbsDef) -> (r: Option<Suppression>)
        ensures
            r == self@.first_rule(d@),
    {
        if self.refs.contains(&d.id) {
            return Some(Suppression::Referenced);
        }
        if starts_with_underscore(d.name.as_str()) {
            return Some(Suppression::Underscore);
        }
        if str_eq(d.kind.as_str(), "Local") && str_eq(d.name.as_str(), "self") {
            return Some(Suppression::SelfBinding);
        }
        if str_eq(d.kind.as_str(), "TupleVariant") {
            return Some(Suppression::TupleVariant);
        }
        if let Some(decl_id) = d.decl_id {
            let used_in_trait = self.refs.contains(&decl_id);
            let foreign_trait = !self.covered_crates.contains(&decl_id.krate);
            if used_in_trait || foreign_trait {
                return Some(Suppression::TraitMember);
            }
        }
        if let Some(parent_id) = d.parent {
            if let Some(parent) = self.defs.get(&parent_id) {
                if str_eq(parent.kind.as_str(), "Trait") && str_eq(d.kind.as_str(), "Type") {
                    return Some(Suppression::AssociatedType);
                }
            }
        }
        None
    }

    /// The first of all rules that applies to `d`, given the scans of the
    /// source files.
    pub fn verdict(&self, d: &AbsDef, files: &Vec<ScannedFile>) -> (r: Option<Suppression>)
        ensures
            r == self@.verdict(d@, scan_views(files@)),
    {
        match self.first_rule(d) {
            Some(rule) => Some(rule),
            None => if may_be_in_macro(files, d) {
                Some(Suppression::InMacro)
            } else {
                None
            },
        }
    }
    /// The root directory of the workspace, if one is known.
    pub fn root(&self) -> (r: Option<&String>)
        ensures
            match r {
                Some(text) => self@.root == Some(text@),
                None => self@.root is None,
            },
    {
        match &self.root {
            Some(text) => Some(text),
            None => None,
        }
    }

    /// Whether the full analysis of the crate was loaded.
    pub fn is_covered(&self, krate: &CrateDisambiguator) -> (r: bool)
        ensures
            r == self@.covered.contains(*krate),
    {
        self.covered_crates.contains(krate)
    }

    /// The definition with the identity `id`, if the tables hold one.
    pub fn def(&self, id: &AbsItemId) -> (r: Option<&AbsDef>)
        ensures
            r is Some <==> self@.defs.contains_key(*id),
            r matches Some(d) ==> d@ == self@.defs[*id],
    {
        self.defs.get(id)
    }

    /// The reference that stands for the uses of `id`, if there is a use.
    pub fn reference_to(&self, id: &AbsItemId) -> (r: Option<&AbsRef>)
        ensures
            r is Some <==> self@.refs.contains_key(*id),
            r matches Some(found) ==> found@ == self@.refs[*id],
    {
        self.refs.get(id)
    }

    /// The number of definitions.
    pub fn def_count(&self) -> (n: usize)
        ensures
            n == self@.defs.dom().len(),
    {
        proof {
            use_type_invariant(self);
            self.defs.lemma_ids_are_keys();
            let ids = self.defs.ids();
            ids.unique_seq_to_set();
            assert(ids.to_set() =~= self@.defs.dom()) by {
                assert forall|id: AbsItemId| ids.to_set().contains(id) <==> self@.defs.dom().contains(
                    id,
                ) by {
                    assert(ids.contains(id) <==> self.defs@.contains_key(id));
                }
            }
        }
        self.defs.len()
    }

    /// The definitions of the tables that are wanted, sorted.
    fn collect<'a>(&'a self, files: &Vec<ScannedFile>, consult: bool) -> (out: Vec<&'a AbsDef>)
        ensures
            sorted(def_views(out@)),
            forall|d: DefView<CrateDisambiguator>| #[trigger]
                def_views(out@).contains(d) <==> self@.holds(d) && self@.wants(
                    d,
                    scan_views(files@),
                    consult,
                ),
    {
        proof {
            use_type_invariant(self);
            self.defs.lemma_ids_are_keys();
        }
        let ghost fv = scan_views(files@);
        let ghost ids = self.defs.ids();
        let ghost table = self@.defs;
        let mut out: Vec<&'a AbsDef> = Vec::new();
        let n = self.defs.len();
        let mut i: usize = 0;
        proof {
            assert forall|j: int| 0 <= j < n implies table.contains_key(#[trigger] ids[j]) by {
                assert(ids.contains(ids[j]));
                assert(self.defs@.contains_key(ids[j]));
            }
        }
        while i < n
            invariant
                i <= n,
                n == ids.len(),
                forall|j: int| 0 <= j < n ==> table.contains_key(#[trigger] ids[j]),
                ids == self.defs.ids(),
                fv == scan_views(files@),
                table == self@.defs,
                self.defs.wf(),
                self@.keyed(),
                ids.no_duplicates(),
                sorted(def_views(out@)),
                forall|k: int|
                    0 <= k < out@.len() ==> exists|j: int|
                        0 <= j < i && (#[trigger] out@[k])@ == table[#[trigger] ids[j]],
                forall|k: int| 0 <= k < out@.len() ==> self@.wants((#[trigger] out@[k])@, fv, consult),
                forall|j: int|
                    0 <= j < i && self@.wants(table[#[trigger] ids[j]], fv, consult) ==> def_views(
                        out@,
                    ).contains(table[ids[j]]),
            decreases n - i,
        {
            let d = self.defs.value_at(i);
            let ghost dv = d@;
            assert(dv == table[ids[i as int]]);
            assert(dv.id == ids[i as int]);
            let wanted = match self.first_rule(d) {
                Some(_) => false,
                None => !(consult && may_be_in_macro(files, d)),
            };
            if wanted {
                let ghost before = out@;
                proof {
                    assert forall|k: int| 0 <= k < before.len() implies !def_same_rank(
                        before[k]@,
                        dv,
                    ) by {
                        let j = choose|j: int| 0 <= j < i && before[k]@ == table[#[trigger] ids[j]];
                        assert(table.contains_key(ids[j]));
                        assert(before[k]@.id == ids[j]);
                    }
                }
                let at = insert_sorted(&mut out, d);
                proof {
                    assert forall|k: int| 0 <= k < out@.len() implies (exists|j: int|
                        0 <= j < i + 1 && (#[trigger] out@[k])@ == table[#[trigger] ids[j]])
                        && self@.wants(out@[k]@, fv, consult) by {
                        if k < at {
                            assert(out@[k] == before[k]);
                            let j = choose|j: int|
                                0 <= j < i && before[k]@ == table[#[trigger] ids[j]];
                            assert(0 <= j < i + 1 && out@[k]@ == table[ids[j]]);
                        } else if k == at {
                            assert(out@[k]@ == table[ids[i as int]]);
                        } else {
                            assert(out@[k] == before[k - 1]);
                            let j = choose|j: int|
                                0 <= j < i && before[k - 1]@ == table[#[trigger] ids[j]];
                            assert(0 <= j < i + 1 && out@[k]@ == table[ids[j]]);
                        }
                    }
                    assert forall|j: int|
                        0 <= j < i + 1 && self@.wants(
                            table[#[trigger] ids[j]],
                            fv,
                            consult,
                        ) implies def_views(out@).contains(table[ids[j]]) by {
                        if j < i {
                            let k = choose|k: int|
                                0 <= k < def_views(before).len() && def_views(before)[k]
                                    == table[ids[j]];
                            let m = if k < at {
                                k
                            } else {
                                k + 1
                            };
                            assert(out@[m] == before[k]);
                            assert(def_views(out@)[m] == table[ids[j]]);
                        } else {
                            assert(def_views(out@)[at as int] == dv);
                        }
                    }
                }
            }
            i += 1;
        }
        proof {
            let views = def_views(out@);
            assert forall|x: DefView<CrateDisambiguator>| views.contains(x) <==> self@.holds(x)
                && self@.wants(x, fv, consult) by {
                if views.contains(x) {
                    let k = choose|k: int| 0 <= k < views.len() && views[k] == x;
                    assert(out@[k]@ == x);
                    let j = choose|j: int| 0 <= j < i && out@[k]@ == table[#[trigger] ids[j]];
                    assert(ids.contains(ids[j]));
                    assert(table.contains_key(ids[j]));
                }
                if self@.holds(x) && self@.wants(x, fv, consult) {
                    assert(ids.contains(x.id));
                    let j = choose|j: int| 0 <= j < ids.len() && ids[j] == x.id;
                    assert(table[ids[j]] == x);
                }
            }
        }
        out
    }

    /// The definitions that are worth a scan of their source file: those that
    /// no rule passes over but, possibly, the macro rule. Sorted.
    pub fn oracle_candidates<'a>(&'a self) -> (out: Vec<&'a AbsDef>)
        ensures
            self@.is_candidate_list(def_views(out@)),
    {
        let no_files: Vec<ScannedFile> = Vec::new();
        self.collect(&no_files, false)
    }

    /// The unused definitions: those of the tables that no rule passes over,
    /// sorted by kind, name and identity.
    ///
    /// `files` holds the scans of source files. A definition whose file is
    /// not among them, or was scanned without result, is taken to lie in a
    /// macro invocation and is not reported.
    pub fn get_unused_defs<'a>(&'a self, files: &Vec<ScannedFile>) -> (out: Vec<&'a AbsDef>)
        ensures
            self@.is_report(scan_views(files@), def_views(out@)),
    {
        self.collect(files, true)
    }
}

} // verus!
