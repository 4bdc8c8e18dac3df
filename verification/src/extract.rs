//! The declaration and class extractors: from a syntax node to the record
//! the report carries.

use vstd::prelude::*;

verus! {

use vstd::string::StrSliceExecFns;
use vstd::string::StringExecFns;

use crate::digest::{sha256_hex, sha256_hex_of};
use crate::metrics::{
    calculate_cyclomatic_complexity, calls_of, decision_count, extract_docstring,
    find_calls_recursive, sat_cap, spec_extract_docstring,
};
use crate::records::{
    line1, spec_line1, ClassInfo, ClassInfoView, Location, MethodInfo, MethodInfoView,
};
use crate::sort::{sort_by_key, sort_records, views_of, lemma_views_of_index, lemma_views_of_len};
use crate::text::{calculate_loc, spec_loc};
use crate::tree::{
    spec_child_by_field, spec_first_child_of_kind, spec_first_def_suffix_child,
    spec_first_fn_def_child, PyNode,
};

/// The view of an optional borrowed string.
pub open spec fn opt_text_view(o: Option<&str>) -> Option<Seq<char>> {
    match o {
        Option::Some(s) => Option::Some(s@),
        Option::None => Option::None,
    }
}

/// The declaration node a candidate stands for: a decorator-list node is
/// unwrapped to its function definition, then to any child whose kind ends
/// in the definition suffix, and kept whole if neither is found.
pub open spec fn spec_actual_fn_node(node: PyNode) -> PyNode {
    if node.kind@ == "decorated_definition"@ {
        match spec_first_fn_def_child(node.children@) {
            Option::Some(d) => d,
            Option::None => match spec_first_def_suffix_child(node.children@) {
                Option::Some(d) => d,
                Option::None => node,
            },
        }
    } else {
        node
    }
}

/// The globally scoped identifier of a declaration within one analysis run.
pub open spec fn spec_unique_id(
    path: Seq<char>,
    class_name: Option<Seq<char>>,
    name: Seq<char>,
) -> Seq<char> {
    match class_name {
        Option::Some(cn) => path + seq![':'] + cn + seq![':', ':'] + name,
        Option::None => path + seq![':'] + name,
    }
}

/// Where a declaration's signature ends: at the first statement-terminator
/// token, or at the declaration's own end when none is found.
pub open spec fn spec_signature_end(actual: PyNode) -> Location {
    match spec_first_child_of_kind(actual.children@, ":"@) {
        Option::Some(colon) => Location {
            line: spec_line1(colon.end_row),
            column: spec_line1(colon.end_col),
        },
        Option::None => Location {
            line: spec_line1(actual.end_row),
            column: spec_line1(actual.end_col),
        },
    }
}

/// The record a candidate declaration node yields: present exactly when the
/// unwrapped declaration carries a name; a declaration without a body keeps
/// an empty call list, the floor complexity, and no docstring.
pub open spec fn method_view_of(
    node: PyNode,
    path: Seq<char>,
    class_name: Option<Seq<char>>,
) -> Option<MethodInfoView> {
    let actual = spec_actual_fn_node(node);
    match spec_child_by_field(actual.children@, "name"@) {
        Option::None => Option::None,
        Option::Some(name_node) => {
            let name = name_node.text@;
            Option::Some(
                match spec_child_by_field(actual.children@, "body"@) {
                    Option::Some(body) => MethodInfoView {
                        name,
                        unique_id: spec_unique_id(path, class_name, name),
                        start_line: spec_line1(node.start_row) as nat,
                        end_line: spec_line1(node.end_row) as nat,
                        content_hash: sha256_hex_of(node.text@),
                        calls: calls_of(body),
                        loc: spec_loc(actual.text@),
                        cyclomatic_complexity: sat_cap(1 + decision_count(body)),
                        docstring: spec_extract_docstring(body),
                        signature_end_location: spec_signature_end(actual),
                    },
                    Option::None => MethodInfoView {
                        name,
                        unique_id: spec_unique_id(path, class_name, name),
                        start_line: spec_line1(node.start_row) as nat,
                        end_line: spec_line1(node.end_row) as nat,
                        content_hash: sha256_hex_of(node.text@),
                        calls: Seq::empty(),
                        loc: spec_loc(node.text@),
                        cyclomatic_complexity: 1,
                        docstring: Option::None,
                        signature_end_location: Location {
                            line: spec_line1(node.end_row),
                            column: spec_line1(node.end_col),
                        },
                    },
                },
            )
        },
    }
}

/// Extracts a declaration record from a candidate node: a plain function
/// definition, a decorated one, or a bodiless stub. Yields nothing when the
/// declaration carries no name.
pub fn parse_function_node(
    node: &PyNode,
    file_path: &str,
    containing_class_name: Option<&str>,
) -> (r: Option<MethodInfo>)
    ensures
        match r {
            Option::Some(m) => method_view_of(
                *node,
                file_path@,
                opt_text_view(containing_class_name),
            ) == Option::Some(m@),
            Option::None => method_view_of(
                *node,
                file_path@,
                opt_text_view(containing_class_name),
            ) is None,
        },
{
    let actual: &PyNode = if node.kind_is("decorated_definition") {
        match node.find_fn_def_child() {
            Option::Some(c) => c,
            Option::None => match node.find_def_suffix_child() {
                Option::Some(c) => c,
                Option::None => node,
            },
        }
    } else {
        node
    };
    proof {
        assert(*actual == spec_actual_fn_node(*node));
    }
    let name_node = match actual.child_by_field_name("name") {
        Option::Some(n) => n,
        Option::None => {
            return Option::None;
        },
    };
    let name = name_node.text.clone();
    let mut unique_id = String::from_str(file_path);
    unique_id.append(":");
    match containing_class_name {
        Option::Some(cn) => {
            unique_id.append(cn);
            unique_id.append("::");
        },
        Option::None => {},
    }
    unique_id.append(name.as_str());
    proof {
        reveal_strlit(":");
        reveal_strlit("::");
        assert(":"@ =~= seq![':']);
        assert("::"@ =~= seq![':', ':']);
        assert(unique_id@ =~= spec_unique_id(
            file_path@,
            opt_text_view(containing_class_name),
            name@,
        ));
    }
    let content_hash = sha256_hex(node.text.as_str());
    let start_line = line1(node.start_row);
    let end_line = line1(node.end_row);
    match actual.child_by_field_name("body") {
        Option::Some(body_node) => {
            let mut calls: Vec<String> = Vec::new();
            proof {
                assert(calls.deep_view() =~= Seq::<Seq<char>>::empty());
            }
            find_calls_recursive(body_node, &mut calls);
            proof {
                assert(calls.deep_view() =~= calls_of(*body_node));
            }
            let loc = calculate_loc(actual.text.as_str());
            let cyclomatic_complexity = calculate_cyclomatic_complexity(body_node);
            let docstring = extract_docstring(body_node);
            let signature_end_location = match actual.first_child_of_kind(":") {
                Option::Some(colon) => Location {
                    line: line1(colon.end_row),
                    column: line1(colon.end_col),
                },
                Option::None => Location {
                    line: line1(actual.end_row),
                    column: line1(actual.end_col),
                },
            };
            let m = MethodInfo {
                name,
                unique_id,
                start_line,
                end_line,
                content_hash,
                calls,
                loc,
                cyclomatic_complexity,
                docstring,
                signature_end_location,
            };
            proof {
                assert(method_view_of(*node, file_path@, opt_text_view(containing_class_name))
                    matches Option::Some(v) && m@ =~= v);
            }
            Option::Some(m)
        },
        Option::None => {
            let loc = calculate_loc(node.text.as_str());
            let m = MethodInfo {
                name,
                unique_id,
                start_line,
                end_line,
                content_hash,
                calls: Vec::new(),
                loc,
                cyclomatic_complexity: 1,
                docstring: Option::None,
                signature_end_location: Location {
                    line: line1(node.end_row),
                    column: line1(node.end_col),
                },
            };
            proof {
                assert(m@.calls =~= Seq::<Seq<char>>::empty());
                assert(method_view_of(*node, file_path@, opt_text_view(containing_class_name))
                    matches Option::Some(v) && m@ =~= v);
            }
            Option::Some(m)
        },
    }
}

/// The record a decorator-list node yields when its definition field holds
/// a plain function definition.
pub open spec fn spec_extract_from_decorated(
    node: PyNode,
    path: Seq<char>,
    class_name: Option<Seq<char>>,
) -> Option<MethodInfoView> {
    match spec_child_by_field(node.children@, "definition"@) {
        Option::Some(d) => {
            if d.kind@ == "function_definition"@ {
                method_view_of(d, path, class_name)
            } else {
                Option::None
            }
        },
        Option::None => Option::None,
    }
}

/// Extracts the function a decorator-list node wraps, through its
/// definition field; the record it yields spans the definition alone,
/// without the decorators.
pub fn extract_function_from_decorated(
    node: &PyNode,
    file_path: &str,
    class_name: Option<&str>,
) -> (r: Option<MethodInfo>)
    ensures
        match r {
            Option::Some(m) => spec_extract_from_decorated(
                *node,
                file_path@,
                opt_text_view(class_name),
            ) == Option::Some(m@),
            Option::None => spec_extract_from_decorated(
                *node,
                file_path@,
                opt_text_view(class_name),
            ) is None,
        },
{
    match node.child_by_field_name("definition") {
        Option::Some(definition_node) => {
            if definition_node.kind_is("function_definition") {
                parse_function_node(definition_node, file_path, class_name)
            } else {
                Option::None
            }
        },
        Option::None => Option::None,
    }
}

/// The method records of a class body's direct children, in source order:
/// one for each plain or async method definition and each decorated method
/// that carries a name.
pub open spec fn class_method_views(
    cs: Seq<PyNode>,
    path: Seq<char>,
    cls: Seq<char>,
) -> Seq<MethodInfoView>
    decreases cs.len(),
{
    if cs.len() == 0 {
        Seq::empty()
    } else {
        class_method_views(cs.subrange(0, cs.len() - 1), path, cls) + class_child_views(
            cs[cs.len() - 1],
            path,
            cls,
        )
    }
}

/// What one class-body child contributes to the method list.
pub open spec fn class_child_views(c: PyNode, path: Seq<char>, cls: Seq<char>) -> Seq<
    MethodInfoView,
> {
    if c.kind@ == "function_definition"@ || c.kind@ == "async_function_definition"@ {
        match method_view_of(c, path, Option::Some(cls)) {
            Option::Some(v) => seq![v],
            Option::None => Seq::empty(),
        }
    } else if c.kind@ == "decorated_definition"@ {
        match spec_child_by_field(c.children@, "definition"@) {
            Option::Some(d) => {
                if d.kind@ == "function_definition"@ {
                    match method_view_of(c, path, Option::Some(cls)) {
                        Option::Some(v) => seq![v],
                        Option::None => Seq::empty(),
                    }
                } else {
                    Seq::empty()
                }
            },
            Option::None => Seq::empty(),
        }
    } else {
        Seq::empty()
    }
}

/// The concatenation of the content hashes of a method sequence, in order.
pub open spec fn concat_content_hashes(ms: Seq<MethodInfoView>) -> Seq<char>
    decreases ms.len(),
{
    if ms.len() == 0 {
        Seq::empty()
    } else {
        concat_content_hashes(ms.subrange(0, ms.len() - 1)) + ms[ms.len() - 1].content_hash
    }
}

/// The class record a class-definition node yields: present exactly when
/// the node carries a name. Its methods are sorted by name, and its
/// structure hash digests their content hashes in that order.
pub open spec fn class_view_of(node: PyNode, path: Seq<char>) -> Option<ClassInfoView> {
    match spec_child_by_field(node.children@, "name"@) {
        Option::None => Option::None,
        Option::Some(name_node) => {
            let name = name_node.text@;
            let raw = match spec_child_by_field(node.children@, "body"@) {
                Option::Some(body) => class_method_views(body.children@, path, name),
                Option::None => Seq::empty(),
            };
            let sorted = sort_by_key(raw);
            Option::Some(
                ClassInfoView {
                    name,
                    start_line: spec_line1(node.start_row) as nat,
                    end_line: spec_line1(node.end_row) as nat,
                    methods: sorted,
                    structure_hash: sha256_hex_of(concat_content_hashes(sorted)),
                },
            )
        },
    }
}

/// Extracts a class record from a class-definition node: its direct method
/// children, sorted by name, and the class structure hash over their
/// content hashes. Yields nothing when the class carries no name.
#[verifier::loop_isolation(false)]
pub fn parse_class_node(node: &PyNode, file_path: &str) -> (r: Option<ClassInfo>)
    ensures
        match r {
            Option::Some(c) => class_view_of(*node, file_path@) == Option::Some(c@),
            Option::None => class_view_of(*node, file_path@) is None,
        },
{
    broadcast use lemma_views_of_len;
    broadcast use lemma_views_of_index;

    let name_node = match node.child_by_field_name("name") {
        Option::Some(n) => n,
        Option::None => {
            return Option::None;
        },
    };
    let name = name_node.text.clone();
    let mut methods_in_class: Vec<MethodInfo> = Vec::new();
    let ghost cls = name@;
    match node.child_by_field_name("body") {
        Option::Some(body_node) => {
            let ghost cs = body_node.children@;
            let mut i: usize = 0;
            proof {
                assert(views_of(methods_in_class@) =~= Seq::<MethodInfoView>::empty());
                assert(cs.subrange(0, 0) =~= Seq::<PyNode>::empty());
            }
            while i < body_node.children.len()
                invariant
                    i <= cs.len(),
                    views_of(methods_in_class@) == class_method_views(
                        cs.subrange(0, i as int),
                        file_path@,
                        cls,
                    ),
                decreases cs.len() - i,
            {
                let child_node = &body_node.children[i];
                let ghost pre = methods_in_class@;
                if child_node.kind_is("function_definition") || child_node.kind_is(
                    "async_function_definition",
                ) {
                    match parse_function_node(child_node, file_path, Option::Some(name.as_str())) {
                        Option::Some(method_info) => {
                            methods_in_class.push(method_info);
                        },
                        Option::None => {},
                    }
                } else if child_node.kind_is("decorated_definition") {
                    match child_node.child_by_field_name("definition") {
                        Option::Some(definition_node) => {
                            if definition_node.kind_is("function_definition") {
                                match parse_function_node(
                                    child_node,
                                    file_path,
                                    Option::Some(name.as_str()),
                                ) {
                                    Option::Some(method_info) => {
                                        methods_in_class.push(method_info);
                                    },
                                    Option::None => {},
                                }
                            }
                        },
                        Option::None => {},
                    }
                }
                proof {
                    assert(cs.subrange(0, i as int + 1).subrange(0, i as int) =~= cs.subrange(
                        0,
                        i as int,
                    ));
                    assert(cs.subrange(0, i as int + 1)[i as int] == cs[i as int]);
                    assert(views_of(methods_in_class@) =~= views_of(pre) + class_child_views(
                        cs[i as int],
                        file_path@,
                        cls,
                    ));
                    assert(views_of(methods_in_class@) == class_method_views(
                        cs.subrange(0, i as int + 1),
                        file_path@,
                        cls,
                    ));
                }
                i += 1;
            }
            proof {
                assert(cs.subrange(0, cs.len() as int) =~= cs);
            }
        },
        Option::None => {
            proof {
                assert(views_of(methods_in_class@) =~= Seq::<MethodInfoView>::empty());
            }
        },
    }
    let sorted = sort_records(methods_in_class);
    let ghost sorted_views = views_of(sorted@);
    let mut combined_method_hashes = String::new();
    let mut i: usize = 0;
    proof {
        assert(combined_method_hashes@ =~= Seq::<char>::empty());
        assert(sorted_views.subrange(0, 0) =~= Seq::<MethodInfoView>::empty());
    }
    while i < sorted.len()
        invariant
            i <= sorted@.len(),
            sorted_views == views_of(sorted@),
            combined_method_hashes@ == concat_content_hashes(sorted_views.subrange(0, i as int)),
        decreases sorted@.len() - i,
    {
        combined_method_hashes.append(sorted[i].content_hash.as_str());
        proof {
            assert(sorted_views.subrange(0, i as int + 1).subrange(0, i as int)
                =~= sorted_views.subrange(0, i as int));
            assert(sorted_views.subrange(0, i as int + 1)[i as int] == sorted_views[i as int]);
            assert(sorted_views[i as int] == sorted@[i as int]@);
            assert(combined_method_hashes@ == concat_content_hashes(
                sorted_views.subrange(0, i as int + 1),
            ));
        }
        i += 1;
    }
    proof {
        assert(sorted_views.subrange(0, sorted_views.len() as int) =~= sorted_views);
    }
    let structure_hash = sha256_hex(combined_method_hashes.as_str());
    let c = ClassInfo {
        name,
        start_line: line1(node.start_row),
        end_line: line1(node.end_row),
        methods: sorted,
        structure_hash,
    };
    proof {
        assert(c@.methods =~= views_of(sorted@));
        assert(class_view_of(*node, file_path@) matches Option::Some(v) && c@ =~= v);
    }
    Option::Some(c)
}

} // verus!
