//! What holds of every workspace: statements that relate the merge of the
//! documents to the report of the unused definitions.

use vstd::prelude::*;
use crate::db::{
    add_defs, add_refs, all_defs_resolve, all_refs_resolve, def_resolves, merged_defs,
    merged_refs, ref_resolves, AnalysisDbView, Suppression,
};
use crate::defs::{
    AbsItemId, CrateDisambiguator, CrateSaveAnalysisView, DefView, PreludeView, RefView,
};
use crate::oracle::ScannedFileView;
use crate::order::lemma_sorted_unique;
use crate::text::has_underscore_prefix;

verus! {

/// The prelude speaks of crate `d`: it is the prelude's own crate, or a row
/// of its dependency table names it.
pub open spec fn speaks_of(prelude: PreludeView, d: CrateDisambiguator) -> bool {
    d == prelude.crate_id.disambiguator || exists|j: int|
        0 <= j < prelude.external_crates.len() && (
        #[trigger] prelude.external_crates[j]).id.disambiguator == d
}

/// Reference `j` of document `i` targets `id`.
pub open spec fn targets(crates: Seq<CrateSaveAnalysisView>, i: int, j: int, id: AbsItemId) -> bool {
    &&& 0 <= i < crates.len()
    &&& 0 <= j < crates[i].refs.len()
    &&& crates[i].prelude.promote_ref(crates[i].refs[j]).ref_id == id
}

/// Definition `j` of document `i` has the identity `id`.
pub open spec fn defines(crates: Seq<CrateSaveAnalysisView>, i: int, j: int, id: AbsItemId) -> bool {
    &&& 0 <= i < crates.len()
    &&& 0 <= j < crates[i].defs.len()
    &&& crates[i].prelude.promote_def(crates[i].defs[j]).id == id
}

/// What resolves is spoken of.
pub proof fn lemma_resolved_is_spoken_of(prelude: PreludeView, id: u32)
    requires
        prelude.resolves(id),
    ensures
        speaks_of(prelude, prelude.resolve(id)),
{
    if id != 0 {
        assert(prelude.external_crates[id - 1].id.disambiguator == prelude.resolve(id));
    }
}

proof fn lemma_add_refs_keys(
    base: Map<AbsItemId, RefView<CrateDisambiguator>>,
    prelude: PreludeView,
    refs: Seq<RefView<u32>>,
    id: AbsItemId,
)
    ensures
        add_refs(base, prelude, refs).contains_key(id) <==> base.contains_key(id) || exists|j: int|
            0 <= j < refs.len() && prelude.promote_ref(#[trigger] refs[j]).ref_id == id,
    decreases refs.len(),
{
    if refs.len() > 0 {
        let rest = refs.drop_last();
        lemma_add_refs_keys(base, prelude, rest, id);
        if exists|j: int| 0 <= j < rest.len() && prelude.promote_ref(#[trigger] rest[j]).ref_id == id {
            let j = choose|j: int|
                0 <= j < rest.len() && prelude.promote_ref(#[trigger] rest[j]).ref_id == id;
            assert(refs[j] == rest[j]);
        }
        if exists|j: int| 0 <= j < refs.len() && prelude.promote_ref(#[trigger] refs[j]).ref_id == id {
            let j = choose|j: int|
                0 <= j < refs.len() && prelude.promote_ref(#[trigger] refs[j]).ref_id == id;
            if j < rest.len() {
                assert(rest[j] == refs[j]);
            } else {
                assert(refs[j] == refs.last());
            }
        }
    }
}

proof fn lemma_add_defs_keys(
    base: Map<AbsItemId, DefView<CrateDisambiguator>>,
    prelude: PreludeView,
    defs: Seq<DefView<u32>>,
    id: AbsItemId,
)
    ensures
        add_defs(base, prelude, defs).contains_key(id) <==> base.contains_key(id) || exists|j: int|
            0 <= j < defs.len() && prelude.promote_def(#[trigger] defs[j]).id == id,
    decreases defs.len(),
{
    if defs.len() > 0 {
        let rest = defs.drop_last();
        lemma_add_defs_keys(base, prelude, rest, id);
        if exists|j: int| 0 <= j < rest.len() && prelude.promote_def(#[trigger] rest[j]).id == id {
            let j = choose|j: int|
                0 <= j < rest.len() && prelude.promote_def(#[trigger] rest[j]).id == id;
            assert(defs[j] == rest[j]);
        }
        if exists|j: int| 0 <= j < defs.len() && prelude.promote_def(#[trigger] defs[j]).id == id {
            let j = choose|j: int|
                0 <= j < defs.len() && prelude.promote_def(#[trigger] defs[j]).id == id;
            if j < rest.len() {
                assert(rest[j] == defs[j]);
            } else {
                assert(defs[j] == defs.last());
            }
        }
    }
}

/// The merged reference table has an entry for an item exactly when some
/// reference of some document targets it.
pub proof fn lemma_merged_refs_keys(crates: Seq<CrateSaveAnalysisView>, id: AbsItemId)
    ensures
        merged_refs(crates).contains_key(id) <==> exists|i: int, j: int|
            #[trigger] targets(crates, i, j, id),
    decreases crates.len(),
{
    if crates.len() > 0 {
        let rest = crates.drop_last();
        let last = crates.last();
        lemma_merged_refs_keys(rest, id);
        lemma_add_refs_keys(merged_refs(rest), last.prelude, last.refs, id);
        if exists|i: int, j: int| #[trigger] targets(rest, i, j, id) {
            let (i, j) = choose|i: int, j: int| #[trigger] targets(rest, i, j, id);
            assert(rest[i] == crates[i]);
            assert(targets(crates, i, j, id));
        }
        if exists|j: int|
            0 <= j < last.refs.len() && last.prelude.promote_ref(#[trigger] last.refs[j]).ref_id
                == id {
            let j = choose|j: int|
                0 <= j < last.refs.len() && last.prelude.promote_ref(
                    #[trigger] last.refs[j],
                ).ref_id == id;
            assert(targets(crates, crates.len() - 1, j, id));
        }
        if exists|i: int, j: int| #[trigger] targets(crates, i, j, id) {
            let (i, j) = choose|i: int, j: int| #[trigger] targets(crates, i, j, id);
            if i < rest.len() {
                assert(rest[i] == crates[i]);
                assert(targets(rest, i, j, id));
            } else {
                assert(crates[i] == last);
            }
        }
    }
}

/// The merged definition table has an entry for an item exactly when some
/// definition of some document has that identity.
pub proof fn lemma_merged_defs_keys(crates: Seq<CrateSaveAnalysisView>, id: AbsItemId)
    ensures
        merged_defs(crates).contains_key(id) <==> exists|i: int, j: int|
            #[trigger] defines(crates, i, j, id),
    decreases crates.len(),
{
    if crates.len() > 0 {
        let rest = crates.drop_last();
        let last = crates.last();
        lemma_merged_defs_keys(rest, id);
        lemma_add_defs_keys(merged_defs(rest), last.prelude, last.defs, id);
        if exists|i: int, j: int| #[trigger] defines(rest, i, j, id) {
            let (i, j) = choose|i: int, j: int| #[trigger] defines(rest, i, j, id);
            assert(rest[i] == crates[i]);
            assert(defines(crates, i, j, id));
        }
        if exists|j: int|
            0 <= j < last.defs.len() && last.prelude.promote_def(#[trigger] last.defs[j]).id == id {
            let j = choose|j: int|
                0 <= j < last.defs.len() && last.prelude.promote_def(#[trigger] last.defs[j]).id
                    == id;
            assert(defines(crates, crates.len() - 1, j, id));
        }
        if exists|i: int, j: int| #[trigger] defines(crates, i, j, id) {
            let (i, j) = choose|i: int, j: int| #[trigger] defines(crates, i, j, id);
            if i < rest.len() {
                assert(rest[i] == crates[i]);
                assert(defines(rest, i, j, id));
            } else {
                assert(crates[i] == last);
            }
        }
    }
}

/// Every reference of the merged table targets a crate that the prelude of
/// some loaded document speaks of: the document's own crate, or a crate of its
/// dependency table.
pub proof fn law_reference_targets_are_spoken_of(
    crates: Seq<CrateSaveAnalysisView>,
    id: AbsItemId,
)
    requires
        all_refs_resolve(crates),
        merged_refs(crates).contains_key(id),
    ensures
        exists|i: int| 0 <= i < crates.len() && speaks_of((#[trigger] crates[i]).prelude, id.krate),
{
    lemma_merged_refs_keys(crates, id);
    let (i, j) = choose|i: int, j: int| #[trigger] targets(crates, i, j, id);
    assert(ref_resolves(crates, i, j));
    lemma_resolved_is_spoken_of(crates[i].prelude, crates[i].refs[j].ref_id.krate);
    assert(speaks_of(crates[i].prelude, id.krate));
}

/// A definition whose name begins with an underscore is never reported,
/// whatever refers to it.
pub proof fn law_underscore_is_never_reported(
    db: AnalysisDbView,
    d: DefView<CrateDisambiguator>,
    files: Seq<ScannedFileView>,
)
    requires
        has_underscore_prefix(d.name),
    ensures
        db.verdict(d, files) is Some,
        !db.reports(d, files),
{
}

/// A definition of kind `TupleVariant` is never reported.
pub proof fn law_tuple_variant_is_never_reported(
    db: AnalysisDbView,
    d: DefView<CrateDisambiguator>,
    files: Seq<ScannedFileView>,
)
    requires
        d.kind == "TupleVariant"@,
    ensures
        db.verdict(d, files) is Some,
        !db.reports(d, files),
{
}

/// A definition that a reference of some loaded document targets is never
/// reported, whichever document defines it.
pub proof fn law_referenced_is_never_reported(
    crates: Seq<CrateSaveAnalysisView>,
    db: AnalysisDbView,
    b: int,
    r: int,
    d: DefView<CrateDisambiguator>,
    files: Seq<ScannedFileView>,
)
    requires
        db.refs == merged_refs(crates),
        0 <= b < crates.len(),
        0 <= r < crates[b].refs.len(),
        d.id == crates[b].prelude.promote_ref(crates[b].refs[r]).ref_id,
    ensures
        db.verdict(d, files) == Some(Suppression::Referenced),
        !db.reports(d, files),
{
    assert(targets(crates, b, r, d.id));
    lemma_merged_refs_keys(crates, d.id);
}

/// A definition that implements a declaration of a crate that was not loaded
/// is never reported, even when nothing refers to it.
pub proof fn law_foreign_declaration_is_never_reported(
    db: AnalysisDbView,
    d: DefView<CrateDisambiguator>,
    files: Seq<ScannedFileView>,
)
    requires
        d.decl_id matches Some(decl) && !db.covered.contains(decl.krate),
    ensures
        db.verdict(d, files) is Some,
        !db.reports(d, files),
{
}

/// A definition that lies in a macro invocation of its scanned source file
/// is never reported, nor is one whose file was not scanned with a result.
pub proof fn law_macro_content_is_never_reported(
    db: AnalysisDbView,
    d: DefView<CrateDisambiguator>,
    files: Seq<ScannedFileView>,
)
    requires
        crate::oracle::maybe_in_macro(files, d.span),
    ensures
        db.verdict(d, files) is Some,
        !db.reports(d, files),
{
}

/// A document without definitions and without references merges without
/// error, and of its tables nothing is reported.
pub proof fn law_empty_document_reports_nothing(
    c: CrateSaveAnalysisView,
    db: AnalysisDbView,
    files: Seq<ScannedFileView>,
    out: Seq<DefView<CrateDisambiguator>>,
)
    requires
        c.defs.len() == 0,
        c.refs.len() == 0,
        db.defs == merged_defs(seq![c]),
        db.is_report(files, out),
    ensures
        all_defs_resolve(seq![c]),
        all_refs_resolve(seq![c]),
        merged_defs(seq![c]) == Map::<AbsItemId, DefView<CrateDisambiguator>>::empty(),
        merged_refs(seq![c]) == Map::<AbsItemId, RefView<CrateDisambiguator>>::empty(),
        out.len() == 0,
{
    let one = seq![c];
    assert(one.drop_last() =~= Seq::<CrateSaveAnalysisView>::empty());
    assert(one.last() == c);
    assert(merged_defs(one.drop_last()) == Map::<AbsItemId, DefView<CrateDisambiguator>>::empty());
    assert(merged_refs(one.drop_last()) == Map::<AbsItemId, RefView<CrateDisambiguator>>::empty());
    assert(merged_defs(one) == add_defs(merged_defs(one.drop_last()), c.prelude, c.defs));
    assert(merged_refs(one) == add_refs(merged_refs(one.drop_last()), c.prelude, c.refs));
    assert forall|i: int, j: int|
        0 <= i < one.len() && 0 <= j < one[i].defs.len() implies #[trigger] def_resolves(
        one,
        i,
        j,
    ) by {}
    assert forall|i: int, j: int|
        0 <= i < one.len() && 0 <= j < one[i].refs.len() implies #[trigger] ref_resolves(
        one,
        i,
        j,
    ) by {}
    if out.len() > 0 {
        assert(out.contains(out[0]));
        assert(db.reports(out[0], files));
    }
}

/// The report is decided by the tables and the scans: two lists that are both
/// the report are the same list.
pub proof fn law_report_is_unique(
    db: AnalysisDbView,
    files: Seq<ScannedFileView>,
    a: Seq<DefView<CrateDisambiguator>>,
    b: Seq<DefView<CrateDisambiguator>>,
)
    requires
        db.is_report(files, a),
        db.is_report(files, b),
    ensures
        a == b,
{
    assert forall|d: DefView<CrateDisambiguator>| a.contains(d) <==> b.contains(d) by {
        assert(a.contains(d) <==> db.reports(d, files));
        assert(b.contains(d) <==> db.reports(d, files));
    }
    lemma_sorted_unique(a, b);
}

/// Every definition of the merged table is the promotion of a definition of
/// some document, and stands under its own identity.
pub proof fn law_merged_definitions_come_from_documents(
    crates: Seq<CrateSaveAnalysisView>,
    id: AbsItemId,
)
    requires
        merged_defs(crates).contains_key(id),
    ensures
        exists|i: int, j: int| #[trigger] defines(crates, i, j, id),
{
    lemma_merged_defs_keys(crates, id);
}

} // verus!
