//! The data model of the per-crate analysis documents.
//!
//! Every type that owns text has a view in which the text is a `Seq<char>`;
//! contracts throughout the crate are stated over these views.

use vstd::prelude::*;
use crate::text::{decimal, push_decimal};

verus! {

/// Identity of one compiled instance of a crate: an opaque pair of 64-bit words.
/// Two compilations of a crate of the same name that differ in version or
/// configuration have different disambiguators.
#[derive(Debug, Hash, PartialEq, Eq, Copy, Clone, Structural)]
pub struct CrateDisambiguator(pub u64, pub u64);

/// Name and identity of a crate.
#[derive(Debug)]
pub struct CrateId {
    pub name: String,
    pub disambiguator: CrateDisambiguator,
}

pub struct CrateIdView {
    pub name: Seq<char>,
    pub disambiguator: CrateDisambiguator,
}

impl View for CrateId {
    type V = CrateIdView;

    open spec fn view(&self) -> CrateIdView {
        CrateIdView { name: self.name@, disambiguator: self.disambiguator }
    }
}

/// An item, named by the crate that owns it and its index in that crate.
///
/// With `KrateId = u32` the crate is a number that only means something inside
/// the document it was read from; with `KrateId = CrateDisambiguator` the
/// identity is global. The first is promoted to the second through the
/// prelude of the document, never compared with it.
#[derive(Debug, Hash, PartialEq, Eq)]
pub struct ItemId<KrateId> {
    pub krate: KrateId,
    pub index: u32,
}

impl<KrateId: Copy> Clone for ItemId<KrateId> {
    fn clone(&self) -> (res: Self)
        ensures
            res == *self,
    {
        *self
    }
}

impl<KrateId: Copy> Copy for ItemId<KrateId> {

}

/// An item under its global identity.
pub type AbsItemId = ItemId<CrateDisambiguator>;

/// A range of source text.
#[derive(Debug)]
pub struct Span {
    pub file_name: String,
    pub line_start: u32,
    pub line_end: u32,
    pub column_start: u32,
    pub column_end: u32,
}

pub struct SpanView {
    pub file_name: Seq<char>,
    pub line_start: u32,
    pub line_end: u32,
    pub column_start: u32,
    pub column_end: u32,
}

impl View for Span {
    type V = SpanView;

    open spec fn view(&self) -> SpanView {
        SpanView {
            file_name: self.file_name@,
            line_start: self.line_start,
            line_end: self.line_end,
            column_start: self.column_start,
            column_end: self.column_end,
        }
    }
}

impl SpanView {
    /// The span as a reader sees it: file name, first line and last line,
    /// with colons between.
    pub open spec fn display(self) -> Seq<char> {
        self.file_name + seq![':'] + decimal(self.line_start as nat) + seq![':'] + decimal(
            self.line_end as nat,
        )
    }
}

impl Span {
    /// The span in the form `src/lib.rs:10:32`: file name, first line, last
    /// line.
    pub fn display_str(&self) -> (r: String)
        ensures
            r@ == self@.display(),
    {
        proof {
            reveal_strlit(":");
        }
        let mut out = self.file_name.clone();
        out.append(":");
        push_decimal(&mut out, self.line_start);
        out.append(":");
        push_decimal(&mut out, self.line_end);
        assert(out@ =~= self@.display());
        out
    }
}

impl Clone for Span {
    fn clone(&self) -> (res: Span)
        ensures
            res@ == self@,
    {
        Span {
            file_name: self.file_name.clone(),
            line_start: self.line_start,
            line_end: self.line_end,
            column_start: self.column_start,
            column_end: self.column_end,
        }
    }
}

/// One row of a crate's dependency table: the number under which the crate
/// refers to a dependency, and the dependency's identity.
#[derive(Debug)]
pub struct ExternalCrate {
    pub num: u32,
    pub id: CrateId,
}

pub struct ExternalCrateView {
    pub num: u32,
    pub id: CrateIdView,
}

impl View for ExternalCrate {
    type V = ExternalCrateView;

    open spec fn view(&self) -> ExternalCrateView {
        ExternalCrateView { num: self.num, id: self.id@ }
    }
}

/// What a document says of its own crate and of the crates it depends on.
/// Crate number 0 is the crate itself; number `n > 0` is row `n - 1` of
/// `external_crates`.
#[derive(Debug)]
pub struct Prelude {
    pub crate_id: CrateId,
    pub external_crates: Vec<ExternalCrate>,
}

pub struct PreludeView {
    pub crate_id: CrateIdView,
    pub external_crates: Seq<ExternalCrateView>,
}

impl View for Prelude {
    type V = PreludeView;

    open spec fn view(&self) -> PreludeView {
        PreludeView {
            crate_id: self.crate_id@,
            external_crates: self.external_crates@.map_values(|c: ExternalCrate| c@),
        }
    }
}

/// A definition that the compiler saw.
///
/// `parent` is the item that owns the definition (for an associated type, its
/// trait); `decl_id` is, for a member of a trait impl, the member of the trait
/// that it implements. Both are keys to look up, and what they name may be
/// absent.
#[derive(Debug)]
pub struct Def<KrateId> {
    pub kind: String,
    pub name: String,
    pub id: ItemId<KrateId>,
    pub span: Span,
    pub parent: Option<ItemId<KrateId>>,
    pub decl_id: Option<ItemId<KrateId>>,
}

pub struct DefView<KrateId> {
    pub kind: Seq<char>,
    pub name: Seq<char>,
    pub id: ItemId<KrateId>,
    pub span: SpanView,
    pub parent: Option<ItemId<KrateId>>,
    pub decl_id: Option<ItemId<KrateId>>,
}

impl<KrateId> View for Def<KrateId> {
    type V = DefView<KrateId>;

    open spec fn view(&self) -> DefView<KrateId> {
        DefView {
            kind: self.kind@,
            name: self.name@,
            id: self.id,
            span: self.span@,
            parent: self.parent,
            decl_id: self.decl_id,
        }
    }
}

/// A definition under global identities.
pub type AbsDef = Def<CrateDisambiguator>;

/// A use of an item: what is used and where.
#[derive(Debug)]
pub struct Ref<KrateId> {
    pub kind: String,
    pub ref_id: ItemId<KrateId>,
    pub span: Span,
}

pub struct RefView<KrateId> {
    pub kind: Seq<char>,
    pub ref_id: ItemId<KrateId>,
    pub span: SpanView,
}

impl<KrateId> View for Ref<KrateId> {
    type V = RefView<KrateId>;

    open spec fn view(&self) -> RefView<KrateId> {
        RefView { kind: self.kind@, ref_id: self.ref_id, span: self.span@ }
    }
}

/// A reference under global identities.
pub type AbsRef = Ref<CrateDisambiguator>;

/// Where a crate was built.
#[derive(Debug)]
pub struct Compilation {
    pub directory: String,
}

pub struct CompilationView {
    pub directory: Seq<char>,
}

impl View for Compilation {
    type V = CompilationView;

    open spec fn view(&self) -> CompilationView {
        CompilationView { directory: self.directory@ }
    }
}

/// The full analysis document of one crate.
#[derive(Debug)]
pub struct CrateSaveAnalysis {
    pub compilation: Compilation,
    pub prelude: Prelude,
    pub defs: Vec<Def<u32>>,
    pub refs: Vec<Ref<u32>>,
}

pub struct CrateSaveAnalysisView {
    pub compilation: CompilationView,
    pub prelude: PreludeView,
    pub defs: Seq<DefView<u32>>,
    pub refs: Seq<RefView<u32>>,
}

impl View for CrateSaveAnalysis {
    type V = CrateSaveAnalysisView;

    open spec fn view(&self) -> CrateSaveAnalysisView {
        CrateSaveAnalysisView {
            compilation: self.compilation@,
            prelude: self.prelude@,
            defs: self.defs@.map_values(|d: Def<u32>| d@),
            refs: self.refs@.map_values(|r: Ref<u32>| r@),
        }
    }
}

/// The part of an analysis document that is read first, to decide whether the
/// rest is wanted.
#[derive(Debug)]
pub struct CrateSaveAnalysisMetadata {
    pub compilation: Compilation,
    pub prelude: Prelude,
}

pub struct CrateSaveAnalysisMetadataView {
    pub compilation: CompilationView,
    pub prelude: PreludeView,
}

impl View for CrateSaveAnalysisMetadata {
    type V = CrateSaveAnalysisMetadataView;

    open spec fn view(&self) -> CrateSaveAnalysisMetadataView {
        CrateSaveAnalysisMetadataView { compilation: self.compilation@, prelude: self.prelude@ }
    }
}

} // verus!
