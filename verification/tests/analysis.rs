use warnalyzer::db::{AnalysisDb, MergeError, Suppression};
use warnalyzer::defs::{
    Compilation, CrateDisambiguator, CrateId, CrateSaveAnalysis, Def, ExternalCrate, ItemId,
    Prelude, Ref, Span,
};
use warnalyzer::oracle::{MacroSpan, ScannedFile, SourceScan};

const APP: CrateDisambiguator = CrateDisambiguator(1, 10);
const LIB: CrateDisambiguator = CrateDisambiguator(2, 20);
const FAR: CrateDisambiguator = CrateDisambiguator(3, 30);

fn span(file: &str, line_start: u32, column_start: u32, line_end: u32, column_end: u32) -> Span {
    Span { file_name: file.to_string(), line_start, line_end, column_start, column_end }
}

fn def(kind: &str, name: &str, krate: u32, index: u32) -> Def<u32> {
    Def {
        kind: kind.to_string(),
        name: name.to_string(),
        id: ItemId { krate, index },
        span: span("src/lib.rs", 3, 4, 3, 10),
        parent: None,
        decl_id: None,
    }
}

fn reference(krate: u32, index: u32) -> Ref<u32> {
    Ref {
        kind: "Function".to_string(),
        ref_id: ItemId { krate, index },
        span: span("src/main.rs", 8, 1, 8, 7),
    }
}

fn prelude(name: &str, own: CrateDisambiguator, deps: Vec<(u32, CrateDisambiguator)>) -> Prelude {
    Prelude {
        crate_id: CrateId { name: name.to_string(), disambiguator: own },
        external_crates: deps
            .into_iter()
            .map(|(num, d)| ExternalCrate {
                num,
                id: CrateId { name: "dep".to_string(), disambiguator: d },
            })
            .collect(),
    }
}

fn document(p: Prelude, defs: Vec<Def<u32>>, refs: Vec<Ref<u32>>) -> CrateSaveAnalysis {
    CrateSaveAnalysis {
        compilation: Compilation { directory: "/home/dev/work".to_string() },
        prelude: p,
        defs,
        refs,
    }
}

fn scanned(file: &str, macros: Vec<MacroSpan>) -> ScannedFile {
    ScannedFile { file_name: file.to_string(), scan: SourceScan::Macros(macros) }
}

fn clean_sources() -> Vec<ScannedFile> {
    vec![scanned("src/lib.rs", vec![]), scanned("src/main.rs", vec![])]
}

fn names(db: &AnalysisDb, files: &Vec<ScannedFile>) -> Vec<String> {
    db.get_unused_defs(files).iter().map(|d| d.name.clone()).collect()
}

fn app_with(defs: Vec<Def<u32>>, refs: Vec<Ref<u32>>) -> AnalysisDb {
    let doc = document(prelude("app", APP, vec![]), defs, refs);
    AnalysisDb::from_crates(None, &vec![doc]).unwrap()
}

#[test]
fn unreferenced_function_is_reported_once() {
    let db = app_with(vec![def("Function", "helper", 0, 7)], vec![]);
    let unused = db.get_unused_defs(&clean_sources());
    assert_eq!(unused.len(), 1);
    assert_eq!(unused[0].name, "helper");
    assert_eq!(unused[0].kind, "Function");
    assert_eq!(unused[0].id, ItemId { krate: APP, index: 7 });
}

#[test]
fn referenced_function_is_not_reported() {
    let db = app_with(vec![def("Function", "helper", 0, 7)], vec![reference(0, 7)]);
    assert!(db.get_unused_defs(&clean_sources()).is_empty());
    assert!(db.is_used(&ItemId { krate: APP, index: 7 }));
    let d = db.def(&ItemId { krate: APP, index: 7 }).unwrap();
    assert_eq!(db.first_rule(d), Some(Suppression::Referenced));
}

#[test]
fn definition_inside_macro_invocation_is_not_reported() {
    let mut inner = def("Function", "inner", 0, 1);
    inner.span = span("src/lib.rs", 1, 30, 1, 35);
    let db = app_with(vec![inner], vec![]);
    let covering = MacroSpan { start_line: 1, start_column: 0, end_line: 1, end_column: 44 };
    let files = vec![scanned("src/lib.rs", vec![covering])];
    assert!(db.get_unused_defs(&files).is_empty());
    let d = db.def(&ItemId { krate: APP, index: 1 }).unwrap();
    assert_eq!(db.verdict(d, &files), Some(Suppression::InMacro));
    let elsewhere = MacroSpan { start_line: 5, start_column: 0, end_line: 5, end_column: 44 };
    let files = vec![scanned("src/lib.rs", vec![elsewhere])];
    assert_eq!(names(&db, &files), vec!["inner".to_string()]);
}

#[test]
fn macro_name_alone_does_not_enclose_its_arguments() {
    let mut inner = def("Function", "inner", 0, 1);
    inner.span = span("src/lib.rs", 1, 30, 1, 35);
    let db = app_with(vec![inner], vec![]);
    let name_only = MacroSpan { start_line: 1, start_column: 0, end_line: 1, end_column: 11 };
    let files = vec![scanned("src/lib.rs", vec![name_only])];
    assert_eq!(names(&db, &files), vec!["inner".to_string()]);
}

#[test]
fn unscanned_or_undetermined_file_suppresses() {
    let db = app_with(vec![def("Function", "helper", 0, 7)], vec![]);
    assert!(db.get_unused_defs(&vec![]).is_empty());
    let failed =
        vec![ScannedFile { file_name: "src/lib.rs".to_string(), scan: SourceScan::Undetermined }];
    assert!(db.get_unused_defs(&failed).is_empty());
    let other = vec![scanned("src/other.rs", vec![])];
    assert!(db.get_unused_defs(&other).is_empty());
}

#[test]
fn first_scan_of_a_file_counts() {
    let db = app_with(vec![def("Function", "helper", 0, 7)], vec![]);
    let covering = MacroSpan { start_line: 1, start_column: 0, end_line: 9, end_column: 0 };
    let files = vec![scanned("src/lib.rs", vec![]), scanned("src/lib.rs", vec![covering])];
    assert_eq!(names(&db, &files), vec!["helper".to_string()]);
    let files = vec![scanned("src/lib.rs", vec![covering]), scanned("src/lib.rs", vec![])];
    assert!(db.get_unused_defs(&files).is_empty());
}

#[test]
fn underscore_name_is_never_reported() {
    let db = app_with(vec![def("Function", "_x", 0, 1), def("Local", "_", 0, 2)], vec![]);
    assert!(db.get_unused_defs(&clean_sources()).is_empty());
    let d = db.def(&ItemId { krate: APP, index: 1 }).unwrap();
    assert_eq!(db.first_rule(d), Some(Suppression::Underscore));
    // a reference changes the rule that applies, not the outcome
    let db = app_with(vec![def("Function", "_x", 0, 1)], vec![reference(0, 1)]);
    assert!(db.get_unused_defs(&clean_sources()).is_empty());
    let d = db.def(&ItemId { krate: APP, index: 1 }).unwrap();
    assert_eq!(db.first_rule(d), Some(Suppression::Referenced));
}

#[test]
fn underscore_inside_a_name_does_not_suppress() {
    let db = app_with(vec![def("Function", "x_", 0, 1), def("Function", "", 0, 2)], vec![]);
    assert_eq!(names(&db, &clean_sources()), vec!["".to_string(), "x_".to_string()]);
}

#[test]
fn self_binding_is_not_reported() {
    let db = app_with(vec![def("Local", "self", 0, 1), def("Function", "self", 0, 2)], vec![]);
    let unused = db.get_unused_defs(&clean_sources());
    assert_eq!(unused.len(), 1);
    assert_eq!(unused[0].kind, "Function");
    let d = db.def(&ItemId { krate: APP, index: 1 }).unwrap();
    assert_eq!(db.first_rule(d), Some(Suppression::SelfBinding));
}

#[test]
fn tuple_variant_is_never_reported() {
    let db = app_with(vec![def("TupleVariant", "Wrapper", 0, 1)], vec![]);
    assert!(db.get_unused_defs(&clean_sources()).is_empty());
    let d = db.def(&ItemId { krate: APP, index: 1 }).unwrap();
    assert_eq!(db.first_rule(d), Some(Suppression::TupleVariant));
}

#[test]
fn member_of_foreign_trait_is_not_reported() {
    let mut fmt = def("Method", "fmt", 0, 1);
    fmt.decl_id = Some(ItemId { krate: 1, index: 99 });
    let doc = document(prelude("app", APP, vec![(1, FAR)]), vec![fmt], vec![]);
    let db = AnalysisDb::from_crates(None, &vec![doc]).unwrap();
    assert!(!db.is_covered(&FAR));
    assert!(db.is_covered(&APP));
    assert!(db.get_unused_defs(&clean_sources()).is_empty());
    let d = db.def(&ItemId { krate: APP, index: 1 }).unwrap();
    assert_eq!(d.decl_id, Some(ItemId { krate: FAR, index: 99 }));
    assert_eq!(db.first_rule(d), Some(Suppression::TraitMember));
}

#[test]
fn member_of_local_trait_follows_the_trait_member() {
    let mut run = def("Method", "run", 0, 2);
    run.decl_id = Some(ItemId { krate: 0, index: 1 });
    let declared = def("Method", "run", 0, 1);
    // nothing uses the trait's member: both are reported
    let db = app_with(vec![def("Method", "run", 0, 1), {
        let mut r = def("Method", "run", 0, 2);
        r.decl_id = Some(ItemId { krate: 0, index: 1 });
        r
    }], vec![]);
    let unused = db.get_unused_defs(&clean_sources());
    assert_eq!(unused.len(), 2);
    assert_eq!(unused[0].id.index, 1);
    assert_eq!(unused[1].id.index, 2);
    // the trait's member is used: neither is reported
    let db = app_with(vec![declared, run], vec![reference(0, 1)]);
    assert!(db.get_unused_defs(&clean_sources()).is_empty());
    let d = db.def(&ItemId { krate: APP, index: 2 }).unwrap();
    assert_eq!(db.first_rule(d), Some(Suppression::TraitMember));
}

#[test]
fn associated_type_of_a_trait_is_not_reported() {
    let shape = def("Trait", "Shape", 0, 1);
    let mut output = def("Type", "Output", 0, 2);
    output.parent = Some(ItemId { krate: 0, index: 1 });
    let mut orphan = def("Type", "Orphan", 0, 3);
    orphan.parent = Some(ItemId { krate: 0, index: 77 });
    let mut method = def("Method", "area", 0, 4);
    method.parent = Some(ItemId { krate: 0, index: 1 });
    let db = app_with(vec![shape, output, orphan, method], vec![reference(0, 1)]);
    assert_eq!(
        names(&db, &clean_sources()),
        vec!["area".to_string(), "Orphan".to_string()]
    );
    let d = db.def(&ItemId { krate: APP, index: 2 }).unwrap();
    assert_eq!(db.first_rule(d), Some(Suppression::AssociatedType));
}

#[test]
fn reference_from_another_crate_marks_used() {
    let library = document(
        prelude("lib", LIB, vec![]),
        vec![def("Function", "shared", 0, 5), def("Function", "lonely", 0, 6)],
        vec![],
    );
    let app = document(prelude("app", APP, vec![(1, LIB)]), vec![], vec![reference(1, 5)]);
    let db = AnalysisDb::from_crates(None, &vec![library, app]).unwrap();
    assert_eq!(names(&db, &clean_sources()), vec!["lonely".to_string()]);
    let found = db.reference_to(&ItemId { krate: LIB, index: 5 }).unwrap();
    assert_eq!(found.ref_id, ItemId { krate: LIB, index: 5 });
    assert!(db.reference_to(&ItemId { krate: LIB, index: 6 }).is_none());
}

#[test]
fn crate_numbers_are_read_through_each_documents_own_prelude() {
    // in `app`, number 1 is `lib`; in `lib`, number 1 is `far`
    let library = document(
        prelude("lib", LIB, vec![(1, FAR)]),
        vec![def("Function", "kept", 0, 5)],
        vec![reference(1, 5)],
    );
    let app = document(prelude("app", APP, vec![(1, LIB)]), vec![], vec![]);
    let db = AnalysisDb::from_crates(None, &vec![library, app]).unwrap();
    assert!(db.is_used(&ItemId { krate: FAR, index: 5 }));
    assert!(!db.is_used(&ItemId { krate: LIB, index: 5 }));
    assert_eq!(names(&db, &clean_sources()), vec!["kept".to_string()]);
}

#[test]
fn empty_document_gives_empty_report() {
    let db = app_with(vec![], vec![]);
    assert!(db.get_unused_defs(&clean_sources()).is_empty());
    assert!(db.get_unused_defs(&vec![]).is_empty());
    assert!(db.oracle_candidates().is_empty());
    assert_eq!(db.def_count(), 0);
    assert!(db.is_covered(&APP));
}

#[test]
fn no_documents_at_all() {
    let db = AnalysisDb::from_crates(Some("/work".to_string()), &vec![]).unwrap();
    assert!(db.get_unused_defs(&vec![]).is_empty());
    assert!(!db.is_covered(&APP));
    assert_eq!(db.root().map(|r| r.as_str()), Some("/work"));
}

#[test]
fn root_is_kept() {
    let db = app_with(vec![], vec![]);
    assert!(db.root().is_none());
}

#[test]
fn report_is_sorted_by_kind_name_and_identity() {
    let db = app_with(
        vec![
            def("Struct", "b", 0, 1),
            def("Function", "z", 0, 2),
            def("Struct", "a", 0, 9),
            def("Function", "a", 0, 4),
            def("Struct", "a", 0, 3),
            def("Function", "Z", 0, 5),
        ],
        vec![],
    );
    let got: Vec<(String, String, u32)> = db
        .get_unused_defs(&clean_sources())
        .iter()
        .map(|d| (d.kind.clone(), d.name.clone(), d.id.index))
        .collect();
    let expect = vec![
        ("Function".to_string(), "Z".to_string(), 5),
        ("Function".to_string(), "a".to_string(), 4),
        ("Function".to_string(), "z".to_string(), 2),
        ("Struct".to_string(), "a".to_string(), 3),
        ("Struct".to_string(), "a".to_string(), 9),
        ("Struct".to_string(), "b".to_string(), 1),
    ];
    assert_eq!(got, expect);
}

#[test]
fn identities_order_by_crate_words_before_index() {
    let one = document(
        prelude("one", CrateDisambiguator(5, 1), vec![]),
        vec![def("Function", "f", 0, 1)],
        vec![],
    );
    let two = document(
        prelude("two", CrateDisambiguator(4, 9), vec![]),
        vec![def("Function", "f", 0, 8)],
        vec![],
    );
    let three = document(
        prelude("three", CrateDisambiguator(4, 2), vec![]),
        vec![def("Function", "f", 0, 9)],
        vec![],
    );
    let db = AnalysisDb::from_crates(None, &vec![one, two, three]).unwrap();
    let got: Vec<CrateDisambiguator> =
        db.get_unused_defs(&clean_sources()).iter().map(|d| d.id.krate).collect();
    assert_eq!(
        got,
        vec![CrateDisambiguator(4, 2), CrateDisambiguator(4, 9), CrateDisambiguator(5, 1)]
    );
}

#[test]
fn later_definition_of_the_same_identity_wins() {
    let db = app_with(
        vec![def("Function", "first", 0, 7), def("Function", "second", 0, 7)],
        vec![],
    );
    assert_eq!(db.def_count(), 1);
    assert_eq!(names(&db, &clean_sources()), vec!["second".to_string()]);
}

#[test]
fn candidates_are_what_only_a_scan_can_clear() {
    let db = app_with(
        vec![
            def("Function", "helper", 0, 1),
            def("Function", "_quiet", 0, 2),
            def("Function", "used", 0, 3),
        ],
        vec![reference(0, 3)],
    );
    let candidates: Vec<String> =
        db.oracle_candidates().iter().map(|d| d.name.clone()).collect();
    assert_eq!(candidates, vec!["helper".to_string()]);
}

#[test]
fn unresolved_crate_number_in_definition_is_an_error() {
    let bad = document(prelude("app", APP, vec![]), vec![def("Function", "f", 1, 1)], vec![]);
    let good = document(prelude("lib", LIB, vec![]), vec![def("Function", "g", 0, 1)], vec![]);
    let r = AnalysisDb::from_crates(None, &vec![good, bad]);
    assert_eq!(r.err(), Some(MergeError::UnresolvedDef { krate: 1, def: 0 }));
}

#[test]
fn unresolved_parent_or_declaration_is_an_error() {
    let mut d = def("Function", "f", 0, 1);
    d.parent = Some(ItemId { krate: 3, index: 0 });
    let doc = document(prelude("app", APP, vec![(1, LIB)]), vec![def("Function", "a", 1, 2), d], vec![]);
    let r = AnalysisDb::from_crates(None, &vec![doc]);
    assert_eq!(r.err(), Some(MergeError::UnresolvedDef { krate: 0, def: 1 }));
}

#[test]
fn dependency_row_with_wrong_number_is_an_error() {
    let doc = document(prelude("app", APP, vec![(2, LIB)]), vec![], vec![reference(1, 5)]);
    let r = AnalysisDb::from_crates(None, &vec![doc]);
    assert_eq!(r.err(), Some(MergeError::UnresolvedRef { krate: 0, reference: 0 }));
}

#[test]
fn definitions_are_checked_before_references() {
    let first = document(prelude("app", APP, vec![]), vec![], vec![reference(4, 1)]);
    let second = document(prelude("lib", LIB, vec![]), vec![def("Function", "f", 9, 1)], vec![]);
    let r = AnalysisDb::from_crates(None, &vec![first, second]);
    assert_eq!(r.err(), Some(MergeError::UnresolvedDef { krate: 1, def: 0 }));
}
