//! The file analyzer and repository aggregator: top-level declarations,
//! raw import tokens, and the structure hashes that fold everything into
//! the root hash.

use vstd::prelude::*;

verus! {

use vstd::string::StringExecFns;

use crate::digest::{sha256_hex, sha256_hex_of};
use crate::extract::{
    class_view_of, method_view_of, parse_class_node, parse_function_node,
};
use crate::parse::{parse_of, parse_python_module};
use crate::records::{
    ClassInfo, ClassInfoView, FileAnalysis, FileAnalysisView, HashEntry, HashEntryView, MethodInfo,
    MethodInfoView, RepoAnalysis, RepoAnalysisView,
};
use crate::sort::{lemma_views_of_index, lemma_views_of_len, sort_by_key, sort_records, views_of};
use crate::text::concat_seqs;
use crate::tree::{spec_child_by_field, PyNode};

/// What one child of an import statement contributes to the raw token list:
/// for a dotted name or an aliased import, the text of its name field, or
/// of the child itself when it has no name field.
pub open spec fn import_stmt_child(c: PyNode) -> Seq<Seq<char>> {
    if c.kind@ == "dotted_name"@ || c.kind@ == "aliased_import"@ {
        match spec_child_by_field(c.children@, "name"@) {
            Option::Some(nn) => seq![nn.text@],
            Option::None => seq![c.text@],
        }
    } else {
        Seq::empty()
    }
}

/// The raw module tokens of one import statement, in source order.
pub open spec fn spec_import_tokens(cs: Seq<PyNode>) -> Seq<Seq<char>>
    decreases cs.len(),
{
    if cs.len() == 0 {
        Seq::empty()
    } else {
        spec_import_tokens(cs.subrange(0, cs.len() - 1)) + import_stmt_child(cs[cs.len() - 1])
    }
}

/// Collects the raw module tokens of an import statement.
#[verifier::loop_isolation(false)]
pub fn parse_import_statement(node: &PyNode) -> (r: Vec<String>)
    ensures
        r.deep_view() == spec_import_tokens(node.children@),
{
    let mut modules: Vec<String> = Vec::new();
    let ghost cs = node.children@;
    let mut i: usize = 0;
    proof {
        assert(modules.deep_view() =~= Seq::<Seq<char>>::empty());
        assert(cs.subrange(0, 0) =~= Seq::<PyNode>::empty());
    }
    while i < node.children.len()
        invariant
            i <= cs.len(),
            modules.deep_view() == spec_import_tokens(cs.subrange(0, i as int)),
        decreases cs.len() - i,
    {
        let child = &node.children[i];
        let ghost pre = modules.deep_view();
        if child.kind_is("dotted_name") || child.kind_is("aliased_import") {
            let name_node = match child.child_by_field_name("name") {
                Option::Some(nn) => nn,
                Option::None => child,
            };
            modules.push(name_node.text.clone());
            proof {
                assert(modules.deep_view() =~= pre + import_stmt_child(cs[i as int]));
            }
        }
        proof {
            assert(cs.subrange(0, i as int + 1).subrange(0, i as int) =~= cs.subrange(0, i as int));
            assert(cs.subrange(0, i as int + 1)[i as int] == cs[i as int]);
            assert(modules.deep_view() =~= spec_import_tokens(cs.subrange(0, i as int + 1)));
        }
        i += 1;
    }
    proof {
        assert(cs.subrange(0, cs.len() as int) =~= cs);
    }
    modules
}

/// The raw module token of an import-from statement: the text of its module
/// name field, if it has one.
pub open spec fn spec_import_from_tokens(n: PyNode) -> Seq<Seq<char>> {
    match spec_child_by_field(n.children@, "module_name"@) {
        Option::Some(m) => seq![m.text@],
        Option::None => Seq::empty(),
    }
}

/// Collects the raw module token of an import-from statement.
pub fn parse_import_from_statement(node: &PyNode) -> (r: Vec<String>)
    ensures
        r.deep_view() == spec_import_from_tokens(*node),
{
    let mut modules: Vec<String> = Vec::new();
    proof {
        assert(modules.deep_view() =~= Seq::<Seq<char>>::empty());
    }
    match node.child_by_field_name("module_name") {
        Option::Some(module_node) => {
            let ghost pre = modules.deep_view();
            modules.push(module_node.text.clone());
            proof {
                assert(modules.deep_view() =~= pre + seq![module_node.text@]);
                assert(modules.deep_view() =~= spec_import_from_tokens(*node));
            }
        },
        Option::None => {},
    }
    modules
}

/// What one top-level node contributes to the file's function list.
pub open spec fn top_fn_child(c: PyNode, path: Seq<char>) -> Seq<MethodInfoView> {
    if c.kind@ == "function_definition"@ || c.kind@ == "async_function_definition"@ {
        match method_view_of(c, path, Option::None) {
            Option::Some(v) => seq![v],
            Option::None => Seq::empty(),
        }
    } else if c.kind@ == "decorated_definition"@ {
        match spec_child_by_field(c.children@, "definition"@) {
            Option::Some(d) => {
                if d.kind@ == "function_definition"@ || d.kind@ == "async_function_definition"@ {
                    match method_view_of(c, path, Option::None) {
                        Option::Some(v) => seq![v],
                        Option::None => Seq::empty(),
                    }
                } else {
                    Seq::empty()
                }
            },
            Option::None => Seq::empty(),
        }
    } else {
        Seq::empty()
    }
}

/// The top-level function records of a file, in discovery order.
pub open spec fn top_fn_views(cs: Seq<PyNode>, path: Seq<char>) -> Seq<MethodInfoView>
    decreases cs.len(),
{
    if cs.len() == 0 {
        Seq::empty()
    } else {
        top_fn_views(cs.subrange(0, cs.len() - 1), path) + top_fn_child(cs[cs.len() - 1], path)
    }
}

/// What one top-level node contributes to the file's class list.
pub open spec fn top_class_child(c: PyNode, path: Seq<char>) -> Seq<ClassInfoView> {
    if c.kind@ == "class_definition"@ {
        match class_view_of(c, path) {
            Option::Some(v) => seq![v],
            Option::None => Seq::empty(),
        }
    } else if c.kind@ == "decorated_definition"@ {
        match spec_child_by_field(c.children@, "definition"@) {
            Option::Some(d) => {
                if d.kind@ == "class_definition"@ {
                    match class_view_of(d, path) {
                        Option::Some(v) => seq![v],
                        Option::None => Seq::empty(),
                    }
                } else {
                    Seq::empty()
                }
            },
            Option::None => Seq::empty(),
        }
    } else {
        Seq::empty()
    }
}

/// The class records of a file, in discovery order.
pub open spec fn top_class_views(cs: Seq<PyNode>, path: Seq<char>) -> Seq<ClassInfoView>
    decreases cs.len(),
{
    if cs.len() == 0 {
        Seq::empty()
    } else {
        top_class_views(cs.subrange(0, cs.len() - 1), path) + top_class_child(
            cs[cs.len() - 1],
            path,
        )
    }
}

/// What one top-level node contributes to the raw import token list.
pub open spec fn import_child(c: PyNode) -> Seq<Seq<char>> {
    if c.kind@ == "import_statement"@ {
        spec_import_tokens(c.children@)
    } else if c.kind@ == "import_from_statement"@ {
        spec_import_from_tokens(c)
    } else {
        Seq::empty()
    }
}

/// The raw import tokens of a file, in source order, duplicates retained.
pub open spec fn raw_imports_of(cs: Seq<PyNode>) -> Seq<Seq<char>>
    decreases cs.len(),
{
    if cs.len() == 0 {
        Seq::empty()
    } else {
        raw_imports_of(cs.subrange(0, cs.len() - 1)) + import_child(cs[cs.len() - 1])
    }
}

/// What the top-level walk of one parsed file collects, before import
/// resolution and hashing.
pub struct FileScan {
    pub functions: Vec<MethodInfo>,
    pub classes: Vec<ClassInfo>,
    pub raw_imports: Vec<String>,
}

/// The mathematical shadow of a `FileScan`.
#[verifier::ext_equal]
pub struct FileScanView {
    pub functions: Seq<MethodInfoView>,
    pub classes: Seq<ClassInfoView>,
    pub raw_imports: Seq<Seq<char>>,
}

impl View for FileScan {
    type V = FileScanView;

    open spec fn view(&self) -> FileScanView {
        FileScanView {
            functions: self.functions.deep_view(),
            classes: self.classes.deep_view(),
            raw_imports: self.raw_imports.deep_view(),
        }
    }
}

/// What scanning a parsed file yields: its top-level functions and classes
/// in discovery order and its raw import tokens.
pub open spec fn scan_view_of(root: PyNode, path: Seq<char>) -> FileScanView {
    FileScanView {
        functions: top_fn_views(root.children@, path),
        classes: top_class_views(root.children@, path),
        raw_imports: raw_imports_of(root.children@),
    }
}

/// The grammar kind names the walk dispatches on are pairwise distinct.
proof fn kind_literals_distinct()
    ensures
        "import_statement"@ != "function_definition"@,
        "import_statement"@ != "async_function_definition"@,
        "import_statement"@ != "decorated_definition"@,
        "import_statement"@ != "class_definition"@,
        "import_from_statement"@ != "function_definition"@,
        "import_from_statement"@ != "async_function_definition"@,
        "import_from_statement"@ != "decorated_definition"@,
        "import_from_statement"@ != "class_definition"@,
        "function_definition"@ != "async_function_definition"@,
        "function_definition"@ != "decorated_definition"@,
        "function_definition"@ != "class_definition"@,
        "async_function_definition"@ != "decorated_definition"@,
        "async_function_definition"@ != "class_definition"@,
        "decorated_definition"@ != "class_definition"@,
{
    reveal_strlit("import_statement");
    reveal_strlit("import_from_statement");
    reveal_strlit("function_definition");
    reveal_strlit("async_function_definition");
    reveal_strlit("decorated_definition");
    reveal_strlit("class_definition");
    assert("import_statement"@.len() == 16);
    assert("import_from_statement"@.len() == 21);
    assert("function_definition"@.len() == 19);
    assert("async_function_definition"@.len() == 25);
    assert("decorated_definition"@.len() == 20);
    assert("class_definition"@.len() == 16);
    assert("import_statement"@[0] == 'i');
    assert("class_definition"@[0] == 'c');
}

proof fn lemma_seq_add_empty<A>(s: Seq<A>)
    ensures
        s + Seq::<A>::empty() == s,
{
    assert(s + Seq::<A>::empty() =~= s);
}

proof fn no_fn_here(pre: Seq<MethodInfoView>, cur: Seq<MethodInfoView>, c: PyNode, path: Seq<char>)
    requires
        pre == cur,
        c.kind@ != "function_definition"@,
        c.kind@ != "async_function_definition"@,
        c.kind@ != "decorated_definition"@,
    ensures
        cur == pre + top_fn_child(c, path),
{
    kind_literals_distinct();
    assert(top_fn_child(c, path) =~= Seq::<MethodInfoView>::empty());
    lemma_seq_add_empty::<MethodInfoView>(pre);
}

proof fn no_fn_in_decorated(
    pre: Seq<MethodInfoView>,
    cur: Seq<MethodInfoView>,
    c: PyNode,
    path: Seq<char>,
)
    requires
        pre == cur,
        c.kind@ == "decorated_definition"@,
        spec_child_by_field(c.children@, "definition"@) matches Option::Some(d) ==> d.kind@
            != "function_definition"@ && d.kind@ != "async_function_definition"@,
    ensures
        cur == pre + top_fn_child(c, path),
{
    kind_literals_distinct();
    assert(top_fn_child(c, path) =~= Seq::<MethodInfoView>::empty());
    lemma_seq_add_empty::<MethodInfoView>(pre);
}

proof fn no_class_here(
    pre: Seq<ClassInfoView>,
    cur: Seq<ClassInfoView>,
    c: PyNode,
    path: Seq<char>,
)
    requires
        pre == cur,
        c.kind@ != "class_definition"@,
        c.kind@ != "decorated_definition"@,
    ensures
        cur == pre + top_class_child(c, path),
{
    kind_literals_distinct();
    assert(top_class_child(c, path) =~= Seq::<ClassInfoView>::empty());
    lemma_seq_add_empty::<ClassInfoView>(pre);
}

proof fn no_class_in_decorated(
    pre: Seq<ClassInfoView>,
    cur: Seq<ClassInfoView>,
    c: PyNode,
    path: Seq<char>,
)
    requires
        pre == cur,
        c.kind@ == "decorated_definition"@,
        spec_child_by_field(c.children@, "definition"@) matches Option::Some(d) ==> d.kind@
            != "class_definition"@,
    ensures
        cur == pre + top_class_child(c, path),
{
    kind_literals_distinct();
    assert(top_class_child(c, path) =~= Seq::<ClassInfoView>::empty());
    lemma_seq_add_empty::<ClassInfoView>(pre);
}

proof fn no_import_here(pre: Seq<Seq<char>>, cur: Seq<Seq<char>>, c: PyNode)
    requires
        pre == cur,
        c.kind@ != "import_statement"@,
        c.kind@ != "import_from_statement"@,
    ensures
        cur == pre + import_child(c),
{
    kind_literals_distinct();
    assert(import_child(c) =~= Seq::<Seq<char>>::empty());
    lemma_seq_add_empty::<Seq<char>>(pre);
}

/// One step of the top-level walk: dispatches a single child node and
/// appends what it contributes to each of the three collections.
#[verifier::rlimit(60)]
fn scan_step(
    node: &PyNode,
    file_path: &str,
    functions: &mut Vec<MethodInfo>,
    classes: &mut Vec<ClassInfo>,
    raw_imports: &mut Vec<String>,
)
    ensures
        final(functions).deep_view() == old(functions).deep_view() + top_fn_child(
            *node,
            file_path@,
        ),
        final(classes).deep_view() == old(classes).deep_view() + top_class_child(
            *node,
            file_path@,
        ),
        final(raw_imports).deep_view() == old(raw_imports).deep_view() + import_child(*node),
{
    proof {
        kind_literals_distinct();
    }
    let ghost pre_f = functions.deep_view();
    let ghost pre_c = classes.deep_view();
    let ghost pre_i = raw_imports.deep_view();
    if node.kind_is("import_statement") {
        let mut sub = parse_import_statement(node);
        let ghost sub_v = sub.deep_view();
        raw_imports.append(&mut sub);
        proof {
            assert(raw_imports.deep_view() =~= pre_i + sub_v);
            no_fn_here(pre_f, functions.deep_view(), *node, file_path@);
            no_class_here(pre_c, classes.deep_view(), *node, file_path@);
        }
    } else if node.kind_is("import_from_statement") {
        let mut sub = parse_import_from_statement(node);
        let ghost sub_v = sub.deep_view();
        raw_imports.append(&mut sub);
        proof {
            assert(raw_imports.deep_view() =~= pre_i + sub_v);
            no_fn_here(pre_f, functions.deep_view(), *node, file_path@);
            no_class_here(pre_c, classes.deep_view(), *node, file_path@);
        }
    } else if node.kind_is("function_definition") || node.kind_is("async_function_definition") {
        match parse_function_node(node, file_path, Option::None) {
            Option::Some(func_info) => {
                let ghost fv = func_info@;
                functions.push(func_info);
                proof {
                    assert(functions.deep_view() =~= pre_f + seq![fv]);
                    assert(functions.deep_view() =~= pre_f + top_fn_child(*node, file_path@));
                }
            },
            Option::None => {
                proof {
                    assert(functions.deep_view() =~= pre_f + top_fn_child(*node, file_path@));
                }
            },
        }
        proof {
            no_class_here(pre_c, classes.deep_view(), *node, file_path@);
            no_import_here(pre_i, raw_imports.deep_view(), *node);
        }
    } else if node.kind_is("decorated_definition") {
        match node.child_by_field_name("definition") {
            Option::Some(definition_child) => {
                if definition_child.kind_is("function_definition") || definition_child.kind_is(
                    "async_function_definition",
                ) {
                    match parse_function_node(node, file_path, Option::None) {
                        Option::Some(func_info) => {
                            let ghost fv = func_info@;
                            functions.push(func_info);
                            proof {
                                assert(functions.deep_view() =~= pre_f + seq![fv]);
                                assert(functions.deep_view() =~= pre_f + top_fn_child(
                                    *node,
                                    file_path@,
                                ));
                            }
                        },
                        Option::None => {
                            proof {
                                assert(functions.deep_view() =~= pre_f + top_fn_child(
                                    *node,
                                    file_path@,
                                ));
                            }
                        },
                    }
                    proof {
                        no_class_in_decorated(pre_c, classes.deep_view(), *node, file_path@);
                    }
                } else if definition_child.kind_is("class_definition") {
                    match parse_class_node(definition_child, file_path) {
                        Option::Some(class_info) => {
                            let ghost cv = class_info@;
                            classes.push(class_info);
                            proof {
                                assert(classes.deep_view() =~= pre_c + seq![cv]);
                                assert(classes.deep_view() =~= pre_c + top_class_child(
                                    *node,
                                    file_path@,
                                ));
                            }
                        },
                        Option::None => {
                            proof {
                                assert(classes.deep_view() =~= pre_c + top_class_child(
                                    *node,
                                    file_path@,
                                ));
                            }
                        },
                    }
                    proof {
                        no_fn_in_decorated(pre_f, functions.deep_view(), *node, file_path@);
                    }
                } else {
                    proof {
                        no_fn_in_decorated(pre_f, functions.deep_view(), *node, file_path@);
                        no_class_in_decorated(pre_c, classes.deep_view(), *node, file_path@);
                    }
                }
            },
            Option::None => {
                proof {
                    no_fn_in_decorated(pre_f, functions.deep_view(), *node, file_path@);
                    no_class_in_decorated(pre_c, classes.deep_view(), *node, file_path@);
                }
            },
        }
        proof {
            no_import_here(pre_i, raw_imports.deep_view(), *node);
        }
    } else if node.kind_is("class_definition") {
        match parse_class_node(node, file_path) {
            Option::Some(class_info) => {
                let ghost cv = class_info@;
                classes.push(class_info);
                proof {
                    assert(classes.deep_view() =~= pre_c + seq![cv]);
                    assert(classes.deep_view() =~= pre_c + top_class_child(*node, file_path@));
                }
            },
            Option::None => {
                proof {
                    assert(classes.deep_view() =~= pre_c + top_class_child(*node, file_path@));
                }
            },
        }
        proof {
            no_fn_here(pre_f, functions.deep_view(), *node, file_path@);
            no_import_here(pre_i, raw_imports.deep_view(), *node);
        }
    } else {
        proof {
            no_fn_here(pre_f, functions.deep_view(), *node, file_path@);
            no_class_here(pre_c, classes.deep_view(), *node, file_path@);
            no_import_here(pre_i, raw_imports.deep_view(), *node);
        }
    }
}

/// Walks the top level of a parsed file: dispatches each child to the
/// declaration or class extractor and collects raw import tokens.
#[verifier::loop_isolation(false)]
pub fn scan_file(root: &PyNode, file_path: &str) -> (r: FileScan)
    ensures
        r@ == scan_view_of(*root, file_path@),
{
    let mut functions: Vec<MethodInfo> = Vec::new();
    let mut classes: Vec<ClassInfo> = Vec::new();
    let mut raw_imports: Vec<String> = Vec::new();
    let ghost cs = root.children@;
    let mut i: usize = 0;
    proof {
        assert(functions.deep_view() =~= Seq::<MethodInfoView>::empty());
        assert(classes.deep_view() =~= Seq::<ClassInfoView>::empty());
        assert(raw_imports.deep_view() =~= Seq::<Seq<char>>::empty());
        assert(cs.subrange(0, 0) =~= Seq::<PyNode>::empty());
    }
    while i < root.children.len()
        invariant
            i <= cs.len(),
            functions.deep_view() == top_fn_views(cs.subrange(0, i as int), file_path@),
            classes.deep_view() == top_class_views(cs.subrange(0, i as int), file_path@),
            raw_imports.deep_view() == raw_imports_of(cs.subrange(0, i as int)),
        decreases cs.len() - i,
    {
        scan_step(&root.children[i], file_path, &mut functions, &mut classes, &mut raw_imports);
        proof {
            assert(cs.subrange(0, i as int + 1).subrange(0, i as int) =~= cs.subrange(0, i as int));
            assert(cs.subrange(0, i as int + 1)[i as int] == cs[i as int]);
        }
        i += 1;
    }
    proof {
        assert(cs.subrange(0, cs.len() as int) =~= cs);
    }
    FileScan { functions, classes, raw_imports }
}

/// What scanning a source text yields: the scan of its parse tree, or
/// nothing when no tree is produced.
pub open spec fn source_scan_of(code: Seq<char>, path: Seq<char>) -> Option<FileScanView> {
    match parse_of(code) {
        Option::Some(root) => Option::Some(scan_view_of(root, path)),
        Option::None => Option::None,
    }
}

/// Parses a source text and walks its top level; nothing when the text
/// yields no tree, which silently excludes the file.
pub fn scan_source(code: &str, file_path: &str) -> (r: Option<FileScan>)
    ensures
        match r {
            Option::Some(scan) => source_scan_of(code@, file_path@) == Option::Some(scan@),
            Option::None => source_scan_of(code@, file_path@) is None,
        },
{
    match parse_python_module(code) {
        Option::Some(root) => Option::Some(scan_file(&root, file_path)),
        Option::None => Option::None,
    }
}

/// The imports a file reports: what the resolver answered, or the raw
/// tokens unchanged when it failed.
pub fn apply_resolver_outcome(raw: Vec<String>, resolved: Option<Vec<String>>) -> (r: Vec<String>)
    ensures
        r@ == match resolved {
            Option::Some(v) => v@,
            Option::None => raw@,
        },
{
    match resolved {
        Option::Some(v) => v,
        Option::None => raw,
    }
}

} // verus!

verus! {

/// The name/content-hash pair each function contributes to its file's hash.
pub open spec fn method_hash_pairs(fs: Seq<MethodInfoView>) -> Seq<HashEntryView>
    decreases fs.len(),
{
    if fs.len() == 0 {
        Seq::empty()
    } else {
        method_hash_pairs(fs.subrange(0, fs.len() - 1)) + seq![
            HashEntryView { key: fs[fs.len() - 1].name, digest: fs[fs.len() - 1].content_hash },
        ]
    }
}

/// The name/structure-hash pair each class contributes to its file's hash.
pub open spec fn class_hash_pairs(cs: Seq<ClassInfoView>) -> Seq<HashEntryView>
    decreases cs.len(),
{
    if cs.len() == 0 {
        Seq::empty()
    } else {
        class_hash_pairs(cs.subrange(0, cs.len() - 1)) + seq![
            HashEntryView {
                key: cs[cs.len() - 1].name,
                digest: cs[cs.len() - 1].structure_hash,
            },
        ]
    }
}

/// The digests of a pair sequence, concatenated in order.
pub open spec fn concat_digests(es: Seq<HashEntryView>) -> Seq<char>
    decreases es.len(),
{
    if es.len() == 0 {
        Seq::empty()
    } else {
        concat_digests(es.subrange(0, es.len() - 1)) + es[es.len() - 1].digest
    }
}

/// What a file's structure hash digests: its functions' content hashes
/// sorted by function name, then its classes' structure hashes sorted by
/// class name, then its imports sorted lexicographically.
pub open spec fn file_hash_input(
    fs: Seq<MethodInfoView>,
    cs: Seq<ClassInfoView>,
    is: Seq<Seq<char>>,
) -> Seq<char> {
    concat_digests(sort_by_key(method_hash_pairs(fs))) + concat_digests(
        sort_by_key(class_hash_pairs(cs)),
    ) + concat_seqs(sort_by_key(is))
}

/// The file record: declarations and imports as collected, and the
/// structure hash over their name-sorted digests.
pub open spec fn file_view_of(
    path: Seq<char>,
    fs: Seq<MethodInfoView>,
    cs: Seq<ClassInfoView>,
    is: Seq<Seq<char>>,
) -> FileAnalysisView {
    FileAnalysisView {
        path,
        functions: fs,
        classes: cs,
        imports: is,
        structure_hash: sha256_hex_of(file_hash_input(fs, cs, is)),
    }
}

/// Assembles one file's record: the emitted sequences keep their given
/// order, while the structure hash is computed over name-sorted copies.
#[verifier::loop_isolation(false)]
#[verifier::rlimit(60)]
pub fn finish_file(
    path: String,
    functions: Vec<MethodInfo>,
    classes: Vec<ClassInfo>,
    imports: Vec<String>,
) -> (r: FileAnalysis)
    ensures
        r@ == file_view_of(
            path@,
            functions.deep_view(),
            classes.deep_view(),
            imports.deep_view(),
        ),
{
    broadcast use crate::sort::lemma_views_of_len;
    broadcast use crate::sort::lemma_views_of_index;

    let ghost fv = functions.deep_view();
    let ghost cv = classes.deep_view();
    let ghost iv = imports.deep_view();
    // function name/hash pairs, sorted by name
    let mut f_entries: Vec<HashEntry> = Vec::new();
    let mut i: usize = 0;
    proof {
        assert(views_of(f_entries@) =~= Seq::<HashEntryView>::empty());
        assert(fv.subrange(0, 0) =~= Seq::<MethodInfoView>::empty());
    }
    while i < functions.len()
        invariant
            i <= functions@.len(),
            fv.len() == functions@.len(),
            views_of(f_entries@) == method_hash_pairs(fv.subrange(0, i as int)),
        decreases functions@.len() - i,
    {
        let ghost pre = views_of(f_entries@);
        let e = HashEntry {
            key: functions[i].name.clone(),
            digest: functions[i].content_hash.clone(),
        };
        proof {
            assert(fv[i as int] == functions@[i as int]@);
            assert(e@ == HashEntryView {
                key: fv[i as int].name,
                digest: fv[i as int].content_hash,
            });
        }
        f_entries.push(e);
        proof {
            assert(views_of(f_entries@) =~= pre + seq![e@]);
            assert(fv.subrange(0, i as int + 1).subrange(0, i as int) =~= fv.subrange(0, i as int));
            assert(fv.subrange(0, i as int + 1)[i as int] == fv[i as int]);
            assert(views_of(f_entries@) =~= method_hash_pairs(fv.subrange(0, i as int + 1)));
        }
        i += 1;
    }
    proof {
        assert(fv.subrange(0, fv.len() as int) =~= fv);
    }
    let f_sorted = sort_records(f_entries);
    let ghost fsv = views_of(f_sorted@);
    // class name/hash pairs, sorted by name
    let mut c_entries: Vec<HashEntry> = Vec::new();
    let mut i: usize = 0;
    proof {
        assert(views_of(c_entries@) =~= Seq::<HashEntryView>::empty());
        assert(cv.subrange(0, 0) =~= Seq::<ClassInfoView>::empty());
    }
    while i < classes.len()
        invariant
            i <= classes@.len(),
            cv.len() == classes@.len(),
            views_of(c_entries@) == class_hash_pairs(cv.subrange(0, i as int)),
        decreases classes@.len() - i,
    {
        let ghost pre = views_of(c_entries@);
        let e = HashEntry {
            key: classes[i].name.clone(),
            digest: classes[i].structure_hash.clone(),
        };
        proof {
            assert(cv[i as int] == classes@[i as int]@);
            assert(e@ == HashEntryView {
                key: cv[i as int].name,
                digest: cv[i as int].structure_hash,
            });
        }
        c_entries.push(e);
        proof {
            assert(views_of(c_entries@) =~= pre + seq![e@]);
            assert(cv.subrange(0, i as int + 1).subrange(0, i as int) =~= cv.subrange(0, i as int));
            assert(cv.subrange(0, i as int + 1)[i as int] == cv[i as int]);
            assert(views_of(c_entries@) =~= class_hash_pairs(cv.subrange(0, i as int + 1)));
        }
        i += 1;
    }
    proof {
        assert(cv.subrange(0, cv.len() as int) =~= cv);
    }
    let c_sorted = sort_records(c_entries);
    let ghost csv = views_of(c_sorted@);
    // imports, sorted for hashing only
    let mut import_copies: Vec<String> = Vec::new();
    let mut i: usize = 0;
    proof {
        assert(views_of(import_copies@) =~= Seq::<Seq<char>>::empty());
        assert(iv.subrange(0, 0) =~= Seq::<Seq<char>>::empty());
    }
    while i < imports.len()
        invariant
            i <= imports@.len(),
            iv.len() == imports@.len(),
            views_of(import_copies@) == iv.subrange(0, i as int),
        decreases imports@.len() - i,
    {
        let ghost pre = views_of(import_copies@);
        let e = imports[i].clone();
        proof {
            assert(iv[i as int] == imports@[i as int]@);
        }
        import_copies.push(e);
        proof {
            assert(views_of(import_copies@) =~= pre + seq![e@]);
            assert(views_of(import_copies@) =~= iv.subrange(0, i as int + 1));
        }
        i += 1;
    }
    proof {
        assert(iv.subrange(0, iv.len() as int) =~= iv);
    }
    let i_sorted = sort_records(import_copies);
    let ghost isv = views_of(i_sorted@);
    // fold the three parts into the hash input
    let mut combined = String::new();
    let mut i: usize = 0;
    proof {
        assert(combined@ =~= Seq::<char>::empty());
        assert(fsv.subrange(0, 0) =~= Seq::<HashEntryView>::empty());
        assert(combined@ =~= concat_digests(fsv.subrange(0, 0)));
    }
    while i < f_sorted.len()
        invariant
            i <= f_sorted@.len(),
            fsv.len() == f_sorted@.len(),
            combined@ == concat_digests(fsv.subrange(0, i as int)),
        decreases f_sorted@.len() - i,
    {
        combined.append(f_sorted[i].digest.as_str());
        proof {
            assert(fsv.subrange(0, i as int + 1).subrange(0, i as int) =~= fsv.subrange(
                0,
                i as int,
            ));
            assert(fsv.subrange(0, i as int + 1)[i as int] == fsv[i as int]);
            assert(fsv[i as int] == f_sorted@[i as int]@);
            assert(combined@ =~= concat_digests(fsv.subrange(0, i as int + 1)));
        }
        i += 1;
    }
    let ghost part_f = combined@;
    proof {
        assert(fsv.subrange(0, fsv.len() as int) =~= fsv);
        assert(part_f == concat_digests(fsv));
    }
    let mut i: usize = 0;
    proof {
        assert(csv.subrange(0, 0) =~= Seq::<HashEntryView>::empty());
        assert(part_f + concat_digests(csv.subrange(0, 0)) =~= part_f);
    }
    while i < c_sorted.len()
        invariant
            i <= c_sorted@.len(),
            csv.len() == c_sorted@.len(),
            combined@ == part_f + concat_digests(csv.subrange(0, i as int)),
        decreases c_sorted@.len() - i,
    {
        combined.append(c_sorted[i].digest.as_str());
        proof {
            assert(csv.subrange(0, i as int + 1).subrange(0, i as int) =~= csv.subrange(
                0,
                i as int,
            ));
            assert(csv.subrange(0, i as int + 1)[i as int] == csv[i as int]);
            assert(csv[i as int] == c_sorted@[i as int]@);
            assert(combined@ =~= part_f + concat_digests(csv.subrange(0, i as int + 1)));
        }
        i += 1;
    }
    let ghost part_fc = combined@;
    proof {
        assert(csv.subrange(0, csv.len() as int) =~= csv);
        assert(part_fc == part_f + concat_digests(csv));
    }
    let mut i: usize = 0;
    proof {
        assert(isv.subrange(0, 0) =~= Seq::<Seq<char>>::empty());
        assert(part_fc + concat_seqs(isv.subrange(0, 0)) =~= part_fc);
    }
    while i < i_sorted.len()
        invariant
            i <= i_sorted@.len(),
            isv.len() == i_sorted@.len(),
            combined@ == part_fc + concat_seqs(isv.subrange(0, i as int)),
        decreases i_sorted@.len() - i,
    {
        combined.append(i_sorted[i].as_str());
        proof {
            assert(isv.subrange(0, i as int + 1).subrange(0, i as int) =~= isv.subrange(
                0,
                i as int,
            ));
            assert(isv.subrange(0, i as int + 1)[i as int] == isv[i as int]);
            assert(isv[i as int] == i_sorted@[i as int]@);
            assert(combined@ =~= part_fc + concat_seqs(isv.subrange(0, i as int + 1)));
        }
        i += 1;
    }
    proof {
        assert(isv.subrange(0, isv.len() as int) =~= isv);
        assert(combined@ =~= file_hash_input(fv, cv, iv));
    }
    let structure_hash = sha256_hex(combined.as_str());
    let r = FileAnalysis { path, functions, classes, imports, structure_hash };
    proof {
        assert(r@ =~= file_view_of(path@, fv, cv, iv));
    }
    r
}

/// The structure hashes of a file sequence, concatenated in order.
pub open spec fn concat_file_hashes(fs: Seq<FileAnalysisView>) -> Seq<char>
    decreases fs.len(),
{
    if fs.len() == 0 {
        Seq::empty()
    } else {
        concat_file_hashes(fs.subrange(0, fs.len() - 1)) + fs[fs.len() - 1].structure_hash
    }
}

/// The repository record: its files sorted by path, and the root hash over
/// their structure hashes in that order.
pub open spec fn repo_view_of(fs: Seq<FileAnalysisView>) -> RepoAnalysisView {
    let sorted = sort_by_key(fs);
    RepoAnalysisView {
        files: sorted,
        root_merkle_hash: sha256_hex_of(concat_file_hashes(sorted)),
    }
}

/// Aggregates the analyzed files: sorts them by path and folds their
/// structure hashes into the repository's root hash.
#[verifier::loop_isolation(false)]
pub fn analyze_repo(files: Vec<FileAnalysis>) -> (r: RepoAnalysis)
    ensures
        r@ == repo_view_of(files.deep_view()),
{
    broadcast use crate::sort::lemma_views_of_len;
    broadcast use crate::sort::lemma_views_of_index;

    proof {
        assert(views_of(files@) =~= files.deep_view());
    }
    let sorted = sort_records(files);
    let ghost sv = views_of(sorted@);
    let mut combined = String::new();
    let mut i: usize = 0;
    proof {
        assert(combined@ =~= Seq::<char>::empty());
        assert(sv.subrange(0, 0) =~= Seq::<FileAnalysisView>::empty());
    }
    while i < sorted.len()
        invariant
            i <= sorted@.len(),
            sv.len() == sorted@.len(),
            combined@ == concat_file_hashes(sv.subrange(0, i as int)),
        decreases sorted@.len() - i,
    {
        combined.append(sorted[i].structure_hash.as_str());
        proof {
            assert(sv.subrange(0, i as int + 1).subrange(0, i as int) =~= sv.subrange(0, i as int));
            assert(sv.subrange(0, i as int + 1)[i as int] == sv[i as int]);
            assert(sv[i as int] == sorted@[i as int]@);
            assert(combined@ =~= concat_file_hashes(sv.subrange(0, i as int + 1)));
        }
        i += 1;
    }
    proof {
        assert(sv.subrange(0, sv.len() as int) =~= sv);
    }
    let root_merkle_hash = sha256_hex(combined.as_str());
    let r = RepoAnalysis { files: sorted, root_merkle_hash };
    proof {
        assert(r@.files =~= sv);
        assert(r@ =~= repo_view_of(files.deep_view()));
    }
    r
}

} // verus!
