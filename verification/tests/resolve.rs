use warnalyzer::defs::{
    CrateDisambiguator, CrateId, Def, ExternalCrate, ItemId, Prelude, Ref, Span,
};

fn prelude() -> Prelude {
    Prelude {
        crate_id: CrateId { name: "app".to_string(), disambiguator: CrateDisambiguator(1, 2) },
        external_crates: vec![
            ExternalCrate {
                num: 1,
                id: CrateId { name: "std".to_string(), disambiguator: CrateDisambiguator(3, 4) },
            },
            ExternalCrate {
                num: 2,
                id: CrateId { name: "core".to_string(), disambiguator: CrateDisambiguator(5, 6) },
            },
            ExternalCrate {
                num: 7,
                id: CrateId { name: "odd".to_string(), disambiguator: CrateDisambiguator(8, 9) },
            },
        ],
    }
}

fn span() -> Span {
    Span {
        file_name: "src/a.rs".to_string(),
        line_start: 1,
        line_end: 2,
        column_start: 3,
        column_end: 4,
    }
}

#[test]
fn number_zero_is_the_crate_itself() {
    let p = prelude();
    assert!(p.resolves(0));
    assert_eq!(p.disambiguator_for_id(0), CrateDisambiguator(1, 2));
    assert_eq!(p.resolve(0), Some(CrateDisambiguator(1, 2)));
    let bare = Prelude {
        crate_id: CrateId { name: "solo".to_string(), disambiguator: CrateDisambiguator(7, 7) },
        external_crates: vec![],
    };
    assert_eq!(bare.disambiguator_for_id(0), CrateDisambiguator(7, 7));
}

#[test]
fn positive_number_is_a_row_of_the_table() {
    let p = prelude();
    assert_eq!(p.disambiguator_for_id(1), CrateDisambiguator(3, 4));
    assert_eq!(p.disambiguator_for_id(2), CrateDisambiguator(5, 6));
    assert_eq!(p.resolve(2), Some(CrateDisambiguator(5, 6)));
}

#[test]
fn row_must_carry_its_own_number() {
    let p = prelude();
    assert!(!p.resolves(3));
    assert_eq!(p.resolve(3), None);
    assert_eq!(p.resolve(7), None);
}

#[test]
fn number_beyond_the_table_does_not_resolve() {
    let p = prelude();
    assert_eq!(p.resolve(4), None);
    assert_eq!(p.resolve(u32::MAX), None);
}

#[test]
fn item_clone_map_keeps_the_index() {
    let id = ItemId { krate: 2u32, index: 40 };
    let mapped = id.clone_map(|k| u64::from(*k) * 10);
    assert_eq!(mapped, ItemId { krate: 20u64, index: 40 });
}

#[test]
fn def_clone_map_maps_every_crate() {
    let d = Def {
        kind: "Method".to_string(),
        name: "run".to_string(),
        id: ItemId { krate: 0u32, index: 1 },
        span: span(),
        parent: Some(ItemId { krate: 1, index: 2 }),
        decl_id: None,
    };
    let m = d.clone_map(|k| *k + 100);
    assert_eq!(m.kind, "Method");
    assert_eq!(m.name, "run");
    assert_eq!(m.id, ItemId { krate: 100, index: 1 });
    assert_eq!(m.parent, Some(ItemId { krate: 101, index: 2 }));
    assert_eq!(m.decl_id, None);
    assert_eq!(m.span.file_name, "src/a.rs");
    assert_eq!((m.span.line_start, m.span.line_end), (1, 2));
    assert_eq!((m.span.column_start, m.span.column_end), (3, 4));
}

#[test]
fn ref_clone_map_maps_the_target() {
    let r = Ref { kind: "Type".to_string(), ref_id: ItemId { krate: 2u32, index: 9 }, span: span() };
    let m = r.clone_map(|k| CrateDisambiguator(u64::from(*k), 0));
    assert_eq!(m.kind, "Type");
    assert_eq!(m.ref_id, ItemId { krate: CrateDisambiguator(2, 0), index: 9 });
    assert_eq!(m.span.file_name, "src/a.rs");
}

#[test]
fn promotion_goes_through_the_prelude() {
    let p = prelude();
    let d = Def {
        kind: "Method".to_string(),
        name: "run".to_string(),
        id: ItemId { krate: 0u32, index: 1 },
        span: span(),
        parent: Some(ItemId { krate: 1, index: 2 }),
        decl_id: Some(ItemId { krate: 2, index: 3 }),
    };
    let g = p.promote_def(&d).unwrap();
    assert_eq!(g.id, ItemId { krate: CrateDisambiguator(1, 2), index: 1 });
    assert_eq!(g.parent, Some(ItemId { krate: CrateDisambiguator(3, 4), index: 2 }));
    assert_eq!(g.decl_id, Some(ItemId { krate: CrateDisambiguator(5, 6), index: 3 }));
    assert_eq!(g.name, "run");
    let r = Ref { kind: "Type".to_string(), ref_id: ItemId { krate: 2u32, index: 9 }, span: span() };
    let g = p.promote_ref(&r).unwrap();
    assert_eq!(g.ref_id, ItemId { krate: CrateDisambiguator(5, 6), index: 9 });
}

#[test]
fn promotion_fails_where_a_number_does_not_resolve() {
    let p = prelude();
    let mut d = Def {
        kind: "Method".to_string(),
        name: "run".to_string(),
        id: ItemId { krate: 0u32, index: 1 },
        span: span(),
        parent: None,
        decl_id: Some(ItemId { krate: 3, index: 3 }),
    };
    assert!(p.promote_def(&d).is_none());
    d.decl_id = None;
    d.parent = Some(ItemId { krate: 9, index: 0 });
    assert!(p.promote_def(&d).is_none());
    d.parent = None;
    d.id = ItemId { krate: 5, index: 0 };
    assert!(p.promote_def(&d).is_none());
    let r = Ref { kind: "Type".to_string(), ref_id: ItemId { krate: 3u32, index: 9 }, span: span() };
    assert!(p.promote_ref(&r).is_none());
}
