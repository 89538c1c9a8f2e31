use warnalyzer::defs::{
    Compilation, CrateDisambiguator, CrateId, CrateSaveAnalysis, Def, ExternalCrate, ItemId,
    Prelude, Ref, Span,
};
use warnalyzer::loader::{in_fetched_sources, Loader, Relevance};
use warnalyzer::oracle::{ScannedFile, SourceScan};

const APP: CrateDisambiguator = CrateDisambiguator(1, 10);
const LIB: CrateDisambiguator = CrateDisambiguator(2, 20);
const OLD: CrateDisambiguator = CrateDisambiguator(9, 90);

fn prelude(own: CrateDisambiguator, deps: Vec<(u32, CrateDisambiguator)>) -> Prelude {
    Prelude {
        crate_id: CrateId { name: "c".to_string(), disambiguator: own },
        external_crates: deps
            .into_iter()
            .map(|(num, d)| ExternalCrate {
                num,
                id: CrateId { name: "dep".to_string(), disambiguator: d },
            })
            .collect(),
    }
}

fn built_in(directory: &str) -> Compilation {
    Compilation { directory: directory.to_string() }
}

fn def(name: &str, index: u32) -> Def<u32> {
    Def {
        kind: "Function".to_string(),
        name: name.to_string(),
        id: ItemId { krate: 0, index },
        span: Span {
            file_name: "src/lib.rs".to_string(),
            line_start: 1,
            line_end: 1,
            column_start: 0,
            column_end: 4,
        },
        parent: None,
        decl_id: None,
    }
}

fn document(own: CrateDisambiguator, directory: &str, defs: Vec<Def<u32>>) -> CrateSaveAnalysis {
    CrateSaveAnalysis {
        compilation: built_in(directory),
        prelude: prelude(own, vec![]),
        defs,
        refs: Vec::<Ref<u32>>::new(),
    }
}

fn sources() -> Vec<ScannedFile> {
    vec![ScannedFile { file_name: "src/lib.rs".to_string(), scan: SourceScan::Macros(vec![]) }]
}

#[test]
fn fetched_source_directories() {
    assert!(in_fetched_sources("/home/u/.cargo/registry/src/github.com-1ecc6299db9ec823/syn-1.0"));
    assert!(in_fetched_sources("/home/u/.cargo/git/checkouts/x-abc/123"));
    assert!(!in_fetched_sources("/home/u/work/project"));
    assert!(!in_fetched_sources("/home/u/.cargo/registry/src/example.org-0/syn"));
    assert!(!in_fetched_sources("/home/u/.cargo/git"));
    assert!(!in_fetched_sources(""));
}

#[test]
fn leaf_and_its_dependencies_are_related() {
    let loader = Loader::new(&prelude(APP, vec![(1, LIB)]));
    let here = built_in("/work/app");
    assert_eq!(loader.classify(&here, &prelude(APP, vec![])), Relevance::Local);
    assert_eq!(loader.classify(&here, &prelude(LIB, vec![])), Relevance::Local);
    assert_eq!(loader.classify(&here, &prelude(OLD, vec![])), Relevance::Unrelated);
    assert_eq!(loader.len(), 0);
}

#[test]
fn related_document_in_fetched_sources_is_vendored() {
    let loader = Loader::new(&prelude(APP, vec![(1, LIB)]));
    let fetched = built_in("/h/.cargo/registry/src/github.com-1ecc/lib-0.1.0");
    assert_eq!(loader.classify(&fetched, &prelude(LIB, vec![])), Relevance::Vendored);
    // being unrelated is decided first
    assert_eq!(loader.classify(&fetched, &prelude(OLD, vec![])), Relevance::Unrelated);
}

#[test]
fn only_local_documents_are_taken_in() {
    let mut loader = Loader::new(&prelude(APP, vec![(1, LIB)]));
    assert_eq!(loader.add(document(OLD, "/work/old", vec![def("gone", 1)])), Relevance::Unrelated);
    assert_eq!(
        loader.add(document(LIB, "/h/.cargo/git/checkouts/lib", vec![def("theirs", 1)])),
        Relevance::Vendored
    );
    assert_eq!(loader.len(), 0);
    assert_eq!(loader.add(document(APP, "/work/app", vec![def("mine", 1)])), Relevance::Local);
    assert_eq!(loader.len(), 1);
    let db = loader.into_db(None).unwrap();
    assert!(db.is_covered(&APP));
    assert!(!db.is_covered(&LIB));
    assert!(!db.is_covered(&OLD));
    let names: Vec<String> = db.get_unused_defs(&sources()).iter().map(|d| d.name.clone()).collect();
    assert_eq!(names, vec!["mine".to_string()]);
}

#[test]
fn later_document_about_a_crate_replaces_the_earlier() {
    let mut loader = Loader::new(&prelude(APP, vec![(1, LIB)]));
    loader.add(document(APP, "/work/app", vec![def("stale", 1), def("gone", 2)]));
    loader.add(document(LIB, "/work/lib", vec![def("other", 1)]));
    loader.add(document(APP, "/work/app", vec![def("fresh", 1)]));
    assert_eq!(loader.len(), 2);
    let db = loader.into_db(Some("/work".to_string())).unwrap();
    assert_eq!(db.def_count(), 2);
    let names: Vec<String> = db.get_unused_defs(&sources()).iter().map(|d| d.name.clone()).collect();
    assert_eq!(names, vec!["fresh".to_string(), "other".to_string()]);
}

#[test]
fn document_with_nothing_in_it_loads() {
    let mut loader = Loader::new(&prelude(APP, vec![]));
    assert_eq!(loader.add(document(APP, "/work/app", vec![])), Relevance::Local);
    let db = loader.into_db(None).unwrap();
    assert!(db.get_unused_defs(&sources()).is_empty());
}
