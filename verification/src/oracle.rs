//! Whether a definition stands inside a macro invocation.
//!
//! Code that a macro expands to is not tracked reliably, so a definition whose
//! span lies inside a macro invocation is not reported. The source files are
//! read and parsed elsewhere; what arrives here is, for each file, the places
//! of its macro invocations, or the note that they could not be determined.
//!
//! A parser commonly reports as the place of an invocation only the name of
//! the macro, not its arguments. Such a place encloses little, and definitions
//! in the arguments of the invocation are then not recognised. This is
//! accepted; nothing here widens a place.

use vstd::prelude::*;
use crate::defs::{Def, Span, SpanView};
use crate::text::str_eq;

verus! {

/// The place of a macro invocation in a source file: where it starts and
/// where it ends, by line and column as the parser counts them.
#[derive(Debug, PartialEq, Eq, Copy, Clone, Structural)]
pub struct MacroSpan {
    pub start_line: usize,
    pub start_column: usize,
    pub end_line: usize,
    pub end_column: usize,
}

/// Position `(l1, c1)` is at or before position `(l2, c2)`.
pub open spec fn at_or_before(l1: int, c1: int, l2: int, c2: int) -> bool {
    l1 < l2 || (l1 == l2 && c1 <= c2)
}

impl MacroSpan {
    /// The invocation starts at or before the start of `needle` and ends at
    /// or after its end.
    pub open spec fn encloses(self, needle: SpanView) -> bool {
        &&& at_or_before(
            self.start_line as int,
            self.start_column as int,
            needle.line_start as int,
            needle.column_start as int,
        )
        &&& at_or_before(
            needle.line_end as int,
            needle.column_end as int,
            self.end_line as int,
            self.end_column as int,
        )
    }

    /// Whether the invocation encloses `needle`.
    pub fn contains(&self, needle: &Span) -> (r: bool)
        ensures
            r == self.encloses(needle@),
    {
        let line_start: usize = needle.line_start as usize;
        let column_start: usize = needle.column_start as usize;
        let line_end: usize = needle.line_end as usize;
        let column_end: usize = needle.column_end as usize;
        let starts_before = self.start_line < line_start || (self.start_line == line_start
            && self.start_column <= column_start);
        let ends_after = line_end < self.end_line || (line_end == self.end_line && column_end
            <= self.end_column);
        starts_before && ends_after
    }
}

/// One of the invocations encloses `needle`.
pub open spec fn any_encloses(invocations: Seq<MacroSpan>, needle: SpanView) -> bool {
    exists|i: int| 0 <= i < invocations.len() && (#[trigger] invocations[i]).encloses(needle)
}

impl<T> Def<T> {
    /// Whether the definition's span lies inside one of the macro invocations
    /// of its source file.
    pub fn is_in_macro(&self, invocations: &Vec<MacroSpan>) -> (r: bool)
        ensures
            r == any_encloses(invocations@, self@.span),
    {
        let mut i: usize = 0;
        while i < invocations.len()
            invariant
                i <= invocations.len(),
                forall|j: int| 0 <= j < i ==> !(#[trigger] invocations@[j]).encloses(self@.span),
            decreases invocations.len() - i,
        {
            if invocations[i].contains(&self.span) {
                return true;
            }
            i += 1;
        }
        false
    }
}

/// What reading and parsing a source file gave.
#[derive(Debug)]
pub enum SourceScan {
    /// The file could not be read or parsed.
    Undetermined,
    /// The macro invocations found in the file.
    Macros(Vec<MacroSpan>),
}

pub enum SourceScanView {
    Undetermined,
    Macros(Seq<MacroSpan>),
}

impl View for SourceScan {
    type V = SourceScanView;

    open spec fn view(&self) -> SourceScanView {
        match self {
            SourceScan::Undetermined => SourceScanView::Undetermined,
            SourceScan::Macros(m) => SourceScanView::Macros(m@),
        }
    }
}

/// A source file, by the name under which spans refer to it, and what its
/// scan gave.
#[derive(Debug)]
pub struct ScannedFile {
    pub file_name: String,
    pub scan: SourceScan,
}

pub struct ScannedFileView {
    pub file_name: Seq<char>,
    pub scan: SourceScanView,
}

impl View for ScannedFile {
    type V = ScannedFileView;

    open spec fn view(&self) -> ScannedFileView {
        ScannedFileView { file_name: self.file_name@, scan: self.scan@ }
    }
}

/// The views of a list of scanned files.
pub open spec fn scan_views(files: Seq<ScannedFile>) -> Seq<ScannedFileView> {
    files.map_values(|f: ScannedFile| f@)
}

/// The scan of the first file of that name, if the list has one.
pub open spec fn scan_of(files: Seq<ScannedFileView>, file_name: Seq<char>) -> Option<
    SourceScanView,
>
    decreases files.len(),
{
    if files.len() == 0 {
        None
    } else if files[0].file_name == file_name {
        Some(files[0].scan)
    } else {
        scan_of(files.drop_first(), file_name)
    }
}

/// The span may lie in a macro invocation: an invocation of its file encloses
/// it, or the file was not scanned, or its scan determined nothing.
pub open spec fn maybe_in_macro(files: Seq<ScannedFileView>, span: SpanView) -> bool {
    match scan_of(files, span.file_name) {
        Some(SourceScanView::Macros(m)) => any_encloses(m, span),
        _ => true,
    }
}

/// The scan of the first file of that name, if the list has one.
pub fn find_scan<'a>(files: &'a Vec<ScannedFile>, file_name: &str) -> (r: Option<&'a SourceScan>)
    ensures
        r is Some <==> scan_of(scan_views(files@), file_name@) is Some,
        r matches Some(s) ==> Some(s@) == scan_of(scan_views(files@), file_name@),
{
    let ghost all = scan_views(files@);
    let mut i: usize = 0;
    assert(all.skip(0) =~= all);
    while i < files.len()
        invariant
            i <= files.len(),
            all == scan_views(files@),
            scan_of(all, file_name@) == scan_of(all.skip(i as int), file_name@),
        decreases files.len() - i,
    {
        let ghost rest = all.skip(i as int);
        assert(rest[0] == files@[i as int]@);
        if str_eq(files[i].file_name.as_str(), file_name) {
            return Some(&files[i].scan);
        }
        assert(rest.drop_first() =~= all.skip(i + 1));
        i += 1;
    }
    None
}

/// Whether the definition may lie in a macro invocation, going by the scan of
/// its source file.
pub fn may_be_in_macro<T>(files: &Vec<ScannedFile>, def: &Def<T>) -> (r: bool)
    ensures
        r == maybe_in_macro(scan_views(files@), def@.span),
{
    match find_scan(files, def.span.file_name.as_str()) {
        Some(SourceScan::Macros(invocations)) => def.is_in_macro(invocations),
        _ => true,
    }
}

} // verus!
