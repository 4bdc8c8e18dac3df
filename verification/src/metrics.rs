//! Per-declaration metrics: the cyclomatic-complexity estimate, the call
//! reference collector, and the docstring extractor.

use vstd::prelude::*;

verus! {

use crate::text::{
    last_dot_segment, last_segment_after_dot, spec_trim, spec_unindent, strip_prefix_all,
    strip_suffix_all, trim_str, unindent_docstring,
};
use crate::tree::{spec_child_by_field, spec_first_named_child, PyNode};

/// The node kinds that stand for a decision point: each occurrence adds one
/// to the cyclomatic-complexity estimate.
pub open spec fn is_decision_kind(k: Seq<char>) -> bool {
    k == "if_statement"@ || k == "while_statement"@ || k == "for_statement"@ || k
        == "elif_clause"@ || k == "except_clause"@ || k == "assert_statement"@ || k
        == "raise_statement"@ || k == "boolean_operator"@ || k == "comparison_operator"@ || k
        == "conditional_expression"@ || k == "list_comprehension"@ || k == "generator_expression"@
        || k == "dictionary_comprehension"@
}

pub fn kind_is_decision(k: &str) -> (r: bool)
    ensures
        r == is_decision_kind(k@),
{
    crate::text::str_eq(k, "if_statement") || crate::text::str_eq(k, "while_statement")
        || crate::text::str_eq(k, "for_statement") || crate::text::str_eq(k, "elif_clause")
        || crate::text::str_eq(k, "except_clause") || crate::text::str_eq(k, "assert_statement")
        || crate::text::str_eq(k, "raise_statement") || crate::text::str_eq(k, "boolean_operator")
        || crate::text::str_eq(k, "comparison_operator") || crate::text::str_eq(
        k,
        "conditional_expression",
    ) || crate::text::str_eq(k, "list_comprehension") || crate::text::str_eq(
        k,
        "generator_expression",
    ) || crate::text::str_eq(k, "dictionary_comprehension")
}

/// The number of decision-point nodes in the subtree rooted at `n`,
/// every visit counted regardless of nesting.
pub open spec fn decision_count(n: PyNode) -> nat
    decreases n,
{
    (if is_decision_kind(n.kind@) {
        1nat
    } else {
        0nat
    }) + decision_count_seq(n.children@)
}

pub open spec fn decision_count_seq(cs: Seq<PyNode>) -> nat
    decreases cs,
{
    if cs.len() == 0 {
        0
    } else {
        decision_count_seq(cs.subrange(0, cs.len() - 1)) + decision_count(cs[cs.len() - 1])
    }
}

/// A sum capped at the largest machine word, where the running complexity
/// count saturates instead of wrapping.
pub open spec fn sat_cap(x: nat) -> nat {
    if x > usize::MAX as nat {
        usize::MAX as nat
    } else {
        x
    }
}

/// Adds the subtree's decision count to the accumulator, saturating at the
/// machine limit.
pub fn calculate_cyclomatic_complexity_recursive(node: &PyNode, complexity: &mut usize)
    ensures
        *final(complexity) as nat == sat_cap(*old(complexity) as nat + decision_count(*node)),
    decreases *node,
{
    if kind_is_decision(node.kind.as_str()) {
        if *complexity < usize::MAX {
            *complexity = *complexity + 1;
        }
    }
    let ghost base = *complexity as nat;
    let mut i: usize = 0;
    proof {
        assert(node.children@.subrange(0, 0) =~= Seq::<PyNode>::empty());
    }
    while i < node.children.len()
        invariant
            i <= node.children@.len(),
            *complexity as nat == sat_cap(base + decision_count_seq(node.children@.subrange(0, i as int))),
        decreases node.children@.len() - i,
    {
        proof {
            assert(decreases_to!(*node => node.children@[i as int]));
        }
        calculate_cyclomatic_complexity_recursive(&node.children[i], complexity);
        proof {
            assert(node.children@.subrange(0, i as int + 1).subrange(0, i as int) =~= node.children@.subrange(0, i as int));
            assert(node.children@.subrange(0, i as int + 1)[i as int] == node.children@[i as int]);
        }
        i += 1;
    }
    proof {
        assert(node.children@.subrange(0, node.children@.len() as int) =~= node.children@);
    }
}

/// The complexity estimate of a declaration body: one baseline path plus
/// one for every decision-point node of the subtree. The count saturates at
/// the machine limit instead of overflowing.
pub fn calculate_cyclomatic_complexity(function_body_node: &PyNode) -> (r: usize)
    ensures
        r as nat == sat_cap(1 + decision_count(*function_body_node)),
        r >= 1,
{
    let mut complexity: usize = 1;
    calculate_cyclomatic_complexity_recursive(function_body_node, &mut complexity);
    complexity
}

/// The call targets referenced in the subtree at `n`, in preorder: for each
/// call expression, the final dot-separated segment of its callee text,
/// skipped when that segment is empty.
pub open spec fn calls_of(n: PyNode) -> Seq<Seq<char>>
    decreases n,
{
    (if n.kind@ == "call"@ {
        match spec_child_by_field(n.children@, "function"@) {
            Option::Some(f) => {
                let seg = last_dot_segment(f.text@);
                if seg.len() > 0 {
                    seq![seg]
                } else {
                    Seq::empty()
                }
            },
            Option::None => Seq::empty(),
        }
    } else {
        Seq::empty()
    }) + calls_of_seq(n.children@)
}

pub open spec fn calls_of_seq(cs: Seq<PyNode>) -> Seq<Seq<char>>
    decreases cs,
{
    if cs.len() == 0 {
        Seq::empty()
    } else {
        calls_of_seq(cs.subrange(0, cs.len() - 1)) + calls_of(cs[cs.len() - 1])
    }
}

/// Appends the call targets of the subtree at `node` to `calls`, in
/// traversal order, duplicates retained.
pub fn find_calls_recursive(node: &PyNode, calls: &mut Vec<String>)
    ensures
        final(calls).deep_view() == old(calls).deep_view() + calls_of(*node),
    decreases *node,
{
    let ghost start = calls.deep_view();
    if node.kind_is("call") {
        match node.child_by_field_name("function") {
            Option::Some(func_node) => {
                let seg = last_segment_after_dot(func_node.text.as_str());
                if seg.unicode_len() > 0 {
                    let owned = seg.to_owned();
                    let ghost before = calls.deep_view();
                    calls.push(owned);
                    proof {
                        assert(calls.deep_view() =~= before + seq![seg@]);
                    }
                }
            },
            Option::None => {},
        }
    }
    let ghost head = calls.deep_view();
    let mut i: usize = 0;
    proof {
        assert(node.children@.subrange(0, 0) =~= Seq::<PyNode>::empty());
    }
    while i < node.children.len()
        invariant
            i <= node.children@.len(),
            calls.deep_view() == head + calls_of_seq(node.children@.subrange(0, i as int)),
        decreases node.children@.len() - i,
    {
        proof {
            assert(decreases_to!(*node => node.children@[i as int]));
        }
        find_calls_recursive(&node.children[i], calls);
        proof {
            assert(node.children@.subrange(0, i as int + 1).subrange(0, i as int)
                =~= node.children@.subrange(0, i as int));
            assert(node.children@.subrange(0, i as int + 1)[i as int] == node.children@[
                i as int
            ]);
            assert(calls.deep_view() =~= head + calls_of_seq(
                node.children@.subrange(0, i as int + 1),
            ));
        }
        i += 1;
    }
    proof {
        assert(node.children@.subrange(0, node.children@.len() as int) =~= node.children@);
        assert(calls.deep_view() =~= old(calls).deep_view() + calls_of(*node));
    }
}

/// Three single quotes, one triple-quote delimiter.
pub open spec fn triple_single() -> Seq<char> {
    seq!['\'', '\'', '\'']
}

/// Three double quotes, the other triple-quote delimiter.
pub open spec fn triple_double() -> Seq<char> {
    seq!['"', '"', '"']
}

/// The docstring text a raw string literal yields: both kinds of
/// triple-quote delimiter stripped from both ends, the remainder trimmed
/// and dedented.
pub open spec fn docstring_of_literal(raw: Seq<char>) -> Seq<char> {
    spec_unindent(
        spec_trim(
            strip_suffix_all(
                strip_suffix_all(
                    strip_prefix_all(strip_prefix_all(raw, triple_single()), triple_double()),
                    triple_single(),
                ),
                triple_double(),
            ),
        ),
    )
}

/// The docstring of a declaration body: present exactly when the body's
/// first named child is an expression statement whose first named child is
/// a string literal.
pub open spec fn spec_extract_docstring(body: PyNode) -> Option<Seq<char>> {
    match spec_first_named_child(body.children@) {
        Option::None => Option::None,
        Option::Some(first) => {
            if first.kind@ == "expression_statement"@ {
                match spec_first_named_child(first.children@) {
                    Option::None => Option::None,
                    Option::Some(string_node) => {
                        if string_node.kind@ == "string"@ {
                            Option::Some(docstring_of_literal(string_node.text@))
                        } else {
                            Option::None
                        }
                    },
                }
            } else {
                Option::None
            }
        },
    }
}

/// Extracts the docstring of a declaration body, if its first statement is
/// a bare string literal.
pub fn extract_docstring(body_node: &PyNode) -> (r: Option<String>)
    ensures
        r.deep_view() == spec_extract_docstring(*body_node),
{
    let first_child = match body_node.first_named_child() {
        Option::Some(c) => c,
        Option::None => {
            return Option::None;
        },
    };
    if !first_child.kind_is("expression_statement") {
        return Option::None;
    }
    let string_node = match first_child.first_named_child() {
        Option::Some(c) => c,
        Option::None => {
            return Option::None;
        },
    };
    if !string_node.kind_is("string") {
        return Option::None;
    }
    let s = string_node.text.as_str();
    let len = s.unicode_len();
    proof {
        assert(s@.subrange(0, s@.len() as int) =~= s@);
    }
    let lo1 = crate::text::strip_prefix_quotes(s, 0, len, '\'');
    let lo2 = crate::text::strip_prefix_quotes(s, lo1, len, '"');
    let hi1 = crate::text::strip_suffix_quotes(s, lo2, len, '\'');
    let hi2 = crate::text::strip_suffix_quotes(s, lo2, hi1, '"');
    let content = s.substring_char(lo2, hi2);
    proof {
        assert(triple_single() =~= seq!['\'', '\'', '\'']);
        assert(triple_double() =~= seq!['"', '"', '"']);
        assert(content@ == strip_suffix_all(
            strip_suffix_all(
                strip_prefix_all(strip_prefix_all(s@, triple_single()), triple_double()),
                triple_single(),
            ),
            triple_double(),
        ));
    }
    let trimmed = trim_str(content);
    let out = unindent_docstring(trimmed);
    Option::Some(out)
}

} // verus!
