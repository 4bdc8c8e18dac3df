//! The library's own model of a parsed syntax tree.
//!
//! A `PyNode` carries, as plain values, everything the extraction logic
//! reads of a grammar node: its kind name, the field name that attaches it
//! to its parent, its source text, its position, and its children in source
//! order.

use vstd::prelude::*;

verus! {

use crate::text::str_eq;

/// One node of a parsed source file's syntax tree.
pub struct PyNode {
    /// The grammar's name for this node; for an anonymous token, its text.
    pub kind: String,
    /// The field name under which the parent holds this child, if any.
    pub field: Option<String>,
    /// Whether the grammar names this node (rather than a bare token).
    pub is_named: bool,
    /// The source text this node spans.
    pub text: String,
    /// 0-based row of the node's first character.
    pub start_row: usize,
    /// 0-based column of the node's first character.
    pub start_col: usize,
    /// 0-based row just past the node's last character.
    pub end_row: usize,
    /// 0-based column just past the node's last character.
    pub end_col: usize,
    /// The node's children, in source order.
    pub children: Vec<PyNode>,
}

/// The first child held under the given field name, if any.
pub open spec fn spec_child_by_field(cs: Seq<PyNode>, name: Seq<char>) -> Option<PyNode>
    decreases cs.len(),
{
    if cs.len() == 0 {
        Option::None
    } else if cs[0].field matches Option::Some(f) && f@ == name {
        Option::Some(cs[0])
    } else {
        spec_child_by_field(cs.subrange(1, cs.len() as int), name)
    }
}

/// The first child the grammar names, if any.
pub open spec fn spec_first_named_child(cs: Seq<PyNode>) -> Option<PyNode>
    decreases cs.len(),
{
    if cs.len() == 0 {
        Option::None
    } else if cs[0].is_named {
        Option::Some(cs[0])
    } else {
        spec_first_named_child(cs.subrange(1, cs.len() as int))
    }
}

/// The first child of the given kind, if any.
pub open spec fn spec_first_child_of_kind(cs: Seq<PyNode>, kind: Seq<char>) -> Option<PyNode>
    decreases cs.len(),
{
    if cs.len() == 0 {
        Option::None
    } else if cs[0].kind@ == kind {
        Option::Some(cs[0])
    } else {
        spec_first_child_of_kind(cs.subrange(1, cs.len() as int), kind)
    }
}

impl PyNode {
    /// Finds the first child attached under the given field name.
    pub fn child_by_field_name<'a>(&'a self, name: &str) -> (r: Option<&'a PyNode>)
        ensures
            match r {
                Option::Some(c) => spec_child_by_field(self.children@, name@) == Option::Some(*c),
                Option::None => spec_child_by_field(self.children@, name@) is None,
            },
    {
        let mut i: usize = 0;
        proof {
            assert(self.children@.subrange(0, self.children@.len() as int) =~= self.children@);
        }
        loop
            invariant
                i <= self.children@.len(),
                spec_child_by_field(self.children@, name@) == spec_child_by_field(
                    self.children@.subrange(i as int, self.children@.len() as int),
                    name@,
                ),
            decreases self.children@.len() - i,
        {
            let ghost w = self.children@.subrange(i as int, self.children@.len() as int);
            if i >= self.children.len() {
                return Option::None;
            }
            proof {
                assert(w[0] == self.children@[i as int]);
            }
            let matches_field = match &self.children[i].field {
                Option::Some(f) => str_eq(f.as_str(), name),
                Option::None => false,
            };
            if matches_field {
                return Option::Some(&self.children[i]);
            }
            proof {
                assert(w.subrange(1, w.len() as int) =~= self.children@.subrange(
                    i as int + 1,
                    self.children@.len() as int,
                ));
            }
            i += 1;
        }
    }

    /// Finds the first child the grammar names.
    pub fn first_named_child<'a>(&'a self) -> (r: Option<&'a PyNode>)
        ensures
            match r {
                Option::Some(c) => spec_first_named_child(self.children@) == Option::Some(*c),
                Option::None => spec_first_named_child(self.children@) is None,
            },
    {
        let mut i: usize = 0;
        proof {
            assert(self.children@.subrange(0, self.children@.len() as int) =~= self.children@);
        }
        loop
            invariant
                i <= self.children@.len(),
                spec_first_named_child(self.children@) == spec_first_named_child(
                    self.children@.subrange(i as int, self.children@.len() as int),
                ),
            decreases self.children@.len() - i,
        {
            let ghost w = self.children@.subrange(i as int, self.children@.len() as int);
            if i >= self.children.len() {
                return Option::None;
            }
            proof {
                assert(w[0] == self.children@[i as int]);
            }
            if self.children[i].is_named {
                return Option::Some(&self.children[i]);
            }
            proof {
                assert(w.subrange(1, w.len() as int) =~= self.children@.subrange(
                    i as int + 1,
                    self.children@.len() as int,
                ));
            }
            i += 1;
        }
    }

    /// Finds the first child of the given kind.
    pub fn first_child_of_kind<'a>(&'a self, kind: &str) -> (r: Option<&'a PyNode>)
        ensures
            match r {
                Option::Some(c) => spec_first_child_of_kind(self.children@, kind@) == Option::Some(
                    *c,
                ),
                Option::None => spec_first_child_of_kind(self.children@, kind@) is None,
            },
    {
        let mut i: usize = 0;
        proof {
            assert(self.children@.subrange(0, self.children@.len() as int) =~= self.children@);
        }
        loop
            invariant
                i <= self.children@.len(),
                spec_first_child_of_kind(self.children@, kind@) == spec_first_child_of_kind(
                    self.children@.subrange(i as int, self.children@.len() as int),
                    kind@,
                ),
            decreases self.children@.len() - i,
        {
            let ghost w = self.children@.subrange(i as int, self.children@.len() as int);
            if i >= self.children.len() {
                return Option::None;
            }
            proof {
                assert(w[0] == self.children@[i as int]);
            }
            if str_eq(self.children[i].kind.as_str(), kind) {
                return Option::Some(&self.children[i]);
            }
            proof {
                assert(w.subrange(1, w.len() as int) =~= self.children@.subrange(
                    i as int + 1,
                    self.children@.len() as int,
                ));
            }
            i += 1;
        }
    }

    /// Whether this node's kind equals the given name.
    pub fn kind_is(&self, kind: &str) -> (r: bool)
        ensures
            r == (self.kind@ == kind@),
    {
        str_eq(self.kind.as_str(), kind)
    }
}

} // verus!

verus! {

use crate::text::{ends_with, str_ends_with};

/// The first child that is a plain or async function definition, if any.
pub open spec fn spec_first_fn_def_child(cs: Seq<PyNode>) -> Option<PyNode>
    decreases cs.len(),
{
    if cs.len() == 0 {
        Option::None
    } else if cs[0].kind@ == "function_definition"@ || cs[0].kind@
        == "async_function_definition"@ {
        Option::Some(cs[0])
    } else {
        spec_first_fn_def_child(cs.subrange(1, cs.len() as int))
    }
}

/// The first child whose kind name ends in the definition suffix, if any.
pub open spec fn spec_first_def_suffix_child(cs: Seq<PyNode>) -> Option<PyNode>
    decreases cs.len(),
{
    if cs.len() == 0 {
        Option::None
    } else if ends_with(cs[0].kind@, "definition"@) {
        Option::Some(cs[0])
    } else {
        spec_first_def_suffix_child(cs.subrange(1, cs.len() as int))
    }
}

impl PyNode {
    /// Finds the first child that is a plain or async function definition.
    pub fn find_fn_def_child<'a>(&'a self) -> (r: Option<&'a PyNode>)
        ensures
            match r {
                Option::Some(c) => spec_first_fn_def_child(self.children@) == Option::Some(*c),
                Option::None => spec_first_fn_def_child(self.children@) is None,
            },
    {
        let mut i: usize = 0;
        proof {
            assert(self.children@.subrange(0, self.children@.len() as int) =~= self.children@);
        }
        loop
            invariant
                i <= self.children@.len(),
                spec_first_fn_def_child(self.children@) == spec_first_fn_def_child(
                    self.children@.subrange(i as int, self.children@.len() as int),
                ),
            decreases self.children@.len() - i,
        {
            let ghost w = self.children@.subrange(i as int, self.children@.len() as int);
            if i >= self.children.len() {
                return Option::None;
            }
            proof {
                assert(w[0] == self.children@[i as int]);
            }
            if self.children[i].kind_is("function_definition") || self.children[i].kind_is(
                "async_function_definition",
            ) {
                return Option::Some(&self.children[i]);
            }
            proof {
                assert(w.subrange(1, w.len() as int) =~= self.children@.subrange(
                    i as int + 1,
                    self.children@.len() as int,
                ));
            }
            i += 1;
        }
    }

    /// Finds the first child whose kind name ends in the definition suffix.
    pub fn find_def_suffix_child<'a>(&'a self) -> (r: Option<&'a PyNode>)
        ensures
            match r {
                Option::Some(c) => spec_first_def_suffix_child(self.children@) == Option::Some(*c),
                Option::None => spec_first_def_suffix_child(self.children@) is None,
            },
    {
        let mut i: usize = 0;
        proof {
            assert(self.children@.subrange(0, self.children@.len() as int) =~= self.children@);
        }
        loop
            invariant
                i <= self.children@.len(),
                spec_first_def_suffix_child(self.children@) == spec_first_def_suffix_child(
                    self.children@.subrange(i as int, self.children@.len() as int),
                ),
            decreases self.children@.len() - i,
        {
            let ghost w = self.children@.subrange(i as int, self.children@.len() as int);
            if i >= self.children.len() {
                return Option::None;
            }
            proof {
                assert(w[0] == self.children@[i as int]);
            }
            if str_ends_with(self.children[i].kind.as_str(), "definition") {
                return Option::Some(&self.children[i]);
            }
            proof {
                assert(w.subrange(1, w.len() as int) =~= self.children@.subrange(
                    i as int + 1,
                    self.children@.len() as int,
                ));
            }
            i += 1;
        }
    }
}

} // verus!
