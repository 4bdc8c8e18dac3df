//! The properties the library warrants, stated once over its specification
//! functions and proved by the verifier.

use vstd::prelude::*;

verus! {

use crate::analyze::{concat_file_hashes, repo_view_of, source_scan_of, FileScanView};
use crate::digest::sha256_hex_of;
use crate::extract::{concat_content_hashes, method_view_of};
use crate::records::{FileAnalysisView, MethodInfoView, RepoAnalysisView};
use crate::sort::{distinct_keys, lemma_sort_order_invariant, sort_by_key};
use crate::tree::PyNode;

/// Determinism: scanning the same source text under the same path twice
/// yields the same analysis, field for field.
pub proof fn lemma_scan_deterministic(
    code: Seq<char>,
    path: Seq<char>,
    r1: Option<FileScanView>,
    r2: Option<FileScanView>,
)
    requires
        r1 == source_scan_of(code, path),
        r2 == source_scan_of(code, path),
    ensures
        r1 == r2,
{
}

/// Determinism of the aggregate: the root hash is a function of the
/// analyzed files alone, so two runs over the same files agree on it.
pub proof fn lemma_repo_deterministic(
    files: Seq<FileAnalysisView>,
    r1: RepoAnalysisView,
    r2: RepoAnalysisView,
)
    requires
        r1 == repo_view_of(files),
        r2 == repo_view_of(files),
    ensures
        r1.root_merkle_hash == r2.root_merkle_hash,
        r1.files == r2.files,
{
}

/// Order-invariance of a class's structure hash: reordering its methods,
/// with no method name repeated, leaves both the sorted method list and the
/// hash input unchanged.
pub proof fn lemma_class_hash_order_invariant(m1: Seq<MethodInfoView>, m2: Seq<MethodInfoView>)
    requires
        distinct_keys(m1),
        m1.to_multiset() == m2.to_multiset(),
    ensures
        sort_by_key(m1) == sort_by_key(m2),
        sha256_hex_of(concat_content_hashes(sort_by_key(m1))) == sha256_hex_of(
            concat_content_hashes(sort_by_key(m2)),
        ),
{
    lemma_sort_order_invariant(m1, m2);
}

/// Order-invariance of the root hash: reordering the analyzed files, with
/// no path repeated, leaves the whole repository record unchanged.
pub proof fn lemma_root_hash_order_invariant(f1: Seq<FileAnalysisView>, f2: Seq<FileAnalysisView>)
    requires
        distinct_keys(f1),
        f1.to_multiset() == f2.to_multiset(),
    ensures
        repo_view_of(f1) == repo_view_of(f2),
        repo_view_of(f1).root_merkle_hash == repo_view_of(f2).root_merkle_hash,
{
    lemma_sort_order_invariant(f1, f2);
    assert(repo_view_of(f1) =~= repo_view_of(f2));
}

/// The complexity floor: every extracted declaration carries a cyclomatic
/// complexity of at least one.
pub proof fn lemma_complexity_floor(node: PyNode, path: Seq<char>, class_name: Option<Seq<char>>)
    ensures
        method_view_of(node, path, class_name) matches Option::Some(m)
            ==> m.cyclomatic_complexity >= 1,
{
}

} // verus!
