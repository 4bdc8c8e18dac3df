//! The report model: the nested records the analysis produces, with the
//! spec-level views their contracts are stated over.

use vstd::prelude::*;

verus! {

use crate::sort::{SortKey, ViewKey};
use crate::text::str_le;

/// A 1-based line/column position in a source file.
#[derive(Clone, Copy, PartialEq, Eq, Structural, Debug)]
pub struct Location {
    pub line: usize,
    pub column: usize,
}

/// Turns a 0-based row or column into the 1-based convention of listing
/// tools; the unrepresentable top value saturates instead of wrapping.
pub open spec fn spec_line1(x: usize) -> usize {
    if x == usize::MAX {
        x
    } else {
        (x + 1) as usize
    }
}

pub fn line1(x: usize) -> (r: usize)
    ensures
        r == spec_line1(x),
{
    if x < usize::MAX {
        x + 1
    } else {
        x
    }
}

/// One extracted function or method declaration.
pub struct MethodInfo {
    pub name: String,
    pub unique_id: String,
    pub start_line: usize,
    pub end_line: usize,
    pub content_hash: String,
    pub calls: Vec<String>,
    pub loc: usize,
    pub cyclomatic_complexity: usize,
    pub docstring: Option<String>,
    pub signature_end_location: Location,
}

/// The mathematical shadow of a `MethodInfo`.
#[verifier::ext_equal]
pub struct MethodInfoView {
    pub name: Seq<char>,
    pub unique_id: Seq<char>,
    pub start_line: nat,
    pub end_line: nat,
    pub content_hash: Seq<char>,
    pub calls: Seq<Seq<char>>,
    pub loc: nat,
    pub cyclomatic_complexity: nat,
    pub docstring: Option<Seq<char>>,
    pub signature_end_location: Location,
}

impl View for MethodInfo {
    type V = MethodInfoView;

    open spec fn view(&self) -> MethodInfoView {
        MethodInfoView {
            name: self.name@,
            unique_id: self.unique_id@,
            start_line: self.start_line as nat,
            end_line: self.end_line as nat,
            content_hash: self.content_hash@,
            calls: self.calls.deep_view(),
            loc: self.loc as nat,
            cyclomatic_complexity: self.cyclomatic_complexity as nat,
            docstring: self.docstring.deep_view(),
            signature_end_location: self.signature_end_location,
        }
    }
}

impl DeepView for MethodInfo {
    type V = MethodInfoView;

    open spec fn deep_view(&self) -> MethodInfoView {
        self.view()
    }
}

impl ViewKey for MethodInfoView {
    open spec fn key(self) -> Seq<char> {
        self.name
    }
}

impl SortKey for MethodInfo {
    fn key_le(&self, other: &Self) -> (r: bool) {
        str_le(self.name.as_str(), other.name.as_str())
    }
}

/// One extracted class with its methods.
pub struct ClassInfo {
    pub name: String,
    pub start_line: usize,
    pub end_line: usize,
    pub methods: Vec<MethodInfo>,
    pub structure_hash: String,
}

/// The mathematical shadow of a `ClassInfo`.
#[verifier::ext_equal]
pub struct ClassInfoView {
    pub name: Seq<char>,
    pub start_line: nat,
    pub end_line: nat,
    pub methods: Seq<MethodInfoView>,
    pub structure_hash: Seq<char>,
}

impl View for ClassInfo {
    type V = ClassInfoView;

    open spec fn view(&self) -> ClassInfoView {
        ClassInfoView {
            name: self.name@,
            start_line: self.start_line as nat,
            end_line: self.end_line as nat,
            methods: self.methods.deep_view(),
            structure_hash: self.structure_hash@,
        }
    }
}

impl DeepView for ClassInfo {
    type V = ClassInfoView;

    open spec fn deep_view(&self) -> ClassInfoView {
        self.view()
    }
}

/// The analysis of one source file.
pub struct FileAnalysis {
    pub path: String,
    pub functions: Vec<MethodInfo>,
    pub classes: Vec<ClassInfo>,
    pub imports: Vec<String>,
    pub structure_hash: String,
}

/// The mathematical shadow of a `FileAnalysis`.
#[verifier::ext_equal]
pub struct FileAnalysisView {
    pub path: Seq<char>,
    pub functions: Seq<MethodInfoView>,
    pub classes: Seq<ClassInfoView>,
    pub imports: Seq<Seq<char>>,
    pub structure_hash: Seq<char>,
}

impl View for FileAnalysis {
    type V = FileAnalysisView;

    open spec fn view(&self) -> FileAnalysisView {
        FileAnalysisView {
            path: self.path@,
            functions: self.functions.deep_view(),
            classes: self.classes.deep_view(),
            imports: self.imports.deep_view(),
            structure_hash: self.structure_hash@,
        }
    }
}

impl DeepView for FileAnalysis {
    type V = FileAnalysisView;

    open spec fn deep_view(&self) -> FileAnalysisView {
        self.view()
    }
}

impl ViewKey for FileAnalysisView {
    open spec fn key(self) -> Seq<char> {
        self.path
    }
}

impl SortKey for FileAnalysis {
    fn key_le(&self, other: &Self) -> (r: bool) {
        str_le(self.path.as_str(), other.path.as_str())
    }
}

/// The analysis of a whole repository.
pub struct RepoAnalysis {
    pub files: Vec<FileAnalysis>,
    pub root_merkle_hash: String,
}

/// The mathematical shadow of a `RepoAnalysis`.
#[verifier::ext_equal]
pub struct RepoAnalysisView {
    pub files: Seq<FileAnalysisView>,
    pub root_merkle_hash: Seq<char>,
}

impl View for RepoAnalysis {
    type V = RepoAnalysisView;

    open spec fn view(&self) -> RepoAnalysisView {
        RepoAnalysisView { files: self.files.deep_view(), root_merkle_hash: self.root_merkle_hash@ }
    }
}

/// A name paired with the digest it contributes to a structure hash, for
/// sorting by name without moving whole records.
pub struct HashEntry {
    pub key: String,
    pub digest: String,
}

/// The mathematical shadow of a `HashEntry`.
#[verifier::ext_equal]
pub struct HashEntryView {
    pub key: Seq<char>,
    pub digest: Seq<char>,
}

impl View for HashEntry {
    type V = HashEntryView;

    open spec fn view(&self) -> HashEntryView {
        HashEntryView { key: self.key@, digest: self.digest@ }
    }
}

impl ViewKey for HashEntryView {
    open spec fn key(self) -> Seq<char> {
        self.key
    }
}

impl SortKey for HashEntry {
    fn key_le(&self, other: &Self) -> (r: bool) {
        str_le(self.key.as_str(), other.key.as_str())
    }
}

impl ViewKey for Seq<char> {
    open spec fn key(self) -> Seq<char> {
        self
    }
}

impl SortKey for String {
    fn key_le(&self, other: &Self) -> (r: bool) {
        str_le(self.as_str(), other.as_str())
    }
}

} // verus!
