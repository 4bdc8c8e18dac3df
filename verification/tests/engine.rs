use helix_engine::analyze::{analyze_repo, apply_resolver_outcome, finish_file, scan_source};
use helix_engine::records::FileAnalysis;
use helix_engine::text::{calculate_loc, str_le, unindent_docstring};

use sha2::{Digest, Sha256};

fn sha_hex(s: &str) -> String {
    let mut h = Sha256::new();
    h.update(s.as_bytes());
    format!("{:x}", h.finalize())
}

fn analyze_one(code: &str, path: &str) -> FileAnalysis {
    let scan = scan_source(code, path).expect("source should parse");
    let raw = scan.raw_imports;
    let imports = apply_resolver_outcome(raw, None);
    finish_file(path.to_string(), scan.functions, scan.classes, imports)
}

#[test]
fn extracts_a_top_level_function() {
    let code = "def foo(x):\n    return x + 1\n";
    let scan = scan_source(code, "a.py").unwrap();
    assert_eq!(scan.functions.len(), 1);
    let f = &scan.functions[0];
    assert_eq!(f.name, "foo");
    assert_eq!(f.unique_id, "a.py:foo");
    assert_eq!(f.start_line, 1);
    assert_eq!(f.end_line, 2);
}

#[test]
fn content_hash_is_the_digest_of_the_declaration_text() {
    let code = "def foo(x):\n    return x + 1\n";
    let scan = scan_source(code, "a.py").unwrap();
    let f = &scan.functions[0];
    // the declaration spans its text without the trailing newline
    assert_eq!(f.content_hash, sha_hex("def foo(x):\n    return x + 1"));
}

#[test]
fn determinism_same_source_same_analysis() {
    let code = "import os\n\ndef foo():\n    pass\n\nclass C:\n    def m(self):\n        pass\n";
    let a = analyze_one(code, "a.py");
    let b = analyze_one(code, "a.py");
    assert_eq!(a.structure_hash, b.structure_hash);
    let r1 = analyze_repo(vec![a]);
    let r2 = analyze_repo(vec![b]);
    assert_eq!(r1.root_merkle_hash, r2.root_merkle_hash);
}

#[test]
fn sensitivity_one_character_changes_every_enclosing_hash() {
    let code_a = "class C:\n    def m(self):\n        return 1\n";
    let code_b = "class C:\n    def m(self):\n        return 2\n";
    let other = "def unrelated():\n    pass\n";
    let a = analyze_one(code_a, "c.py");
    let b = analyze_one(code_b, "c.py");
    let o1 = analyze_one(other, "o.py");
    let o2 = analyze_one(other, "o.py");
    assert_ne!(
        a.classes[0].methods[0].content_hash,
        b.classes[0].methods[0].content_hash
    );
    assert_ne!(a.classes[0].structure_hash, b.classes[0].structure_hash);
    assert_ne!(a.structure_hash, b.structure_hash);
    assert_eq!(o1.structure_hash, o2.structure_hash);
    let ra = analyze_repo(vec![a, o1]);
    let rb = analyze_repo(vec![b, o2]);
    assert_ne!(ra.root_merkle_hash, rb.root_merkle_hash);
    assert_eq!(
        ra.files.iter().find(|f| f.path == "o.py").unwrap().structure_hash,
        rb.files.iter().find(|f| f.path == "o.py").unwrap().structure_hash
    );
}

#[test]
fn method_order_does_not_change_the_class_hash() {
    let one = "class C:\n    def a(self):\n        return 1\n\n    def b(self):\n        return 2\n";
    let two = "class C:\n    def b(self):\n        return 2\n\n    def a(self):\n        return 1\n";
    let s1 = analyze_one(one, "c.py");
    let s2 = analyze_one(two, "c.py");
    assert_eq!(s1.classes[0].structure_hash, s2.classes[0].structure_hash);
    // methods are reported sorted by name
    assert_eq!(s1.classes[0].methods[0].name, "a");
    assert_eq!(s2.classes[0].methods[0].name, "a");
}

#[test]
fn file_order_does_not_change_the_root_hash() {
    let a = analyze_one("def f():\n    pass\n", "a.py");
    let b = analyze_one("def g():\n    pass\n", "b.py");
    let a2 = analyze_one("def f():\n    pass\n", "a.py");
    let b2 = analyze_one("def g():\n    pass\n", "b.py");
    let r1 = analyze_repo(vec![a, b]);
    let r2 = analyze_repo(vec![b2, a2]);
    assert_eq!(r1.root_merkle_hash, r2.root_merkle_hash);
    assert_eq!(r1.files[0].path, "a.py");
    assert_eq!(r2.files[0].path, "a.py");
}

#[test]
fn complexity_is_at_least_one_and_counts_decisions() {
    let plain = "def f():\n    pass\n";
    let s = scan_source(plain, "a.py").unwrap();
    assert_eq!(s.functions[0].cyclomatic_complexity, 1);
    // one if statement and one comparison inside it
    let branchy = "def g(x):\n    if x > 1:\n        return x\n    return 0\n";
    let s = scan_source(branchy, "a.py").unwrap();
    assert_eq!(s.functions[0].cyclomatic_complexity, 3);
    assert!(s.functions[0].cyclomatic_complexity >= 1);
}

#[test]
fn docstring_is_dedented_to_the_minimum_indent() {
    let got = unindent_docstring("  line1\n    line2");
    assert_eq!(got, "line1\n  line2");
}

#[test]
fn docstring_of_a_function_body() {
    let code = "def f():\n    \"\"\"Top.\n\n    Detail line.\n    \"\"\"\n    return 1\n";
    let s = scan_source(code, "a.py").unwrap();
    let d = s.functions[0].docstring.clone().unwrap();
    // the first line has no indentation, so nothing is stripped
    assert_eq!(d, "Top.\n\n    Detail line.");
}

#[test]
fn no_docstring_when_first_statement_is_not_a_string() {
    let code = "def f():\n    x = 1\n    return x\n";
    let s = scan_source(code, "a.py").unwrap();
    assert!(s.functions[0].docstring.is_none());
}

#[test]
fn calls_keep_order_and_drop_receivers() {
    let code = "def f(self, x):\n    self.helper(x)\n    bar()\n";
    let s = scan_source(code, "a.py").unwrap();
    assert_eq!(s.functions[0].calls, vec!["helper".to_string(), "bar".to_string()]);
}

#[test]
fn decorated_class_matches_the_undecorated_one() {
    let plain = "class C:\n    def m(self):\n        return 1\n";
    let decorated = "@wrap\nclass C:\n    def m(self):\n        return 1\n";
    let s1 = scan_source(plain, "c.py").unwrap();
    let s2 = scan_source(decorated, "c.py").unwrap();
    assert_eq!(s1.classes.len(), 1);
    assert_eq!(s2.classes.len(), 1);
    assert_eq!(s1.classes[0].name, s2.classes[0].name);
    assert_eq!(s1.classes[0].structure_hash, s2.classes[0].structure_hash);
    assert_eq!(
        s1.classes[0].methods[0].content_hash,
        s2.classes[0].methods[0].content_hash
    );
}

#[test]
fn decorated_function_hash_spans_the_decorators() {
    let code = "@deco\ndef f():\n    return 1\n";
    let s = scan_source(code, "a.py").unwrap();
    assert_eq!(s.functions.len(), 1);
    assert_eq!(s.functions[0].name, "f");
    assert_eq!(s.functions[0].start_line, 1);
    assert_eq!(
        s.functions[0].content_hash,
        sha_hex("@deco\ndef f():\n    return 1")
    );
}

#[test]
fn resolver_failure_falls_back_to_raw_tokens() {
    let raw = vec!["os".to_string(), "sys".to_string()];
    let got = apply_resolver_outcome(raw.clone(), None);
    assert_eq!(got, raw);
    let resolved = vec!["pkg.os".to_string()];
    let got = apply_resolver_outcome(raw, Some(resolved.clone()));
    assert_eq!(got, resolved);
}

#[test]
fn imports_are_collected_raw_without_dedup() {
    let code = "import os, sys\nimport os\nfrom pkg.sub import thing\nimport numpy as np\n";
    let s = scan_source(code, "a.py").unwrap();
    assert_eq!(
        s.raw_imports,
        vec![
            "os".to_string(),
            "sys".to_string(),
            "os".to_string(),
            "pkg.sub".to_string(),
            "numpy".to_string()
        ]
    );
}

#[test]
fn loc_skips_blank_and_comment_lines() {
    assert_eq!(calculate_loc("def f():\n\n    # comment\n    return 1"), 2);
    assert_eq!(calculate_loc(""), 0);
    assert_eq!(calculate_loc("   \n\t\n"), 0);
}

#[test]
fn signature_end_is_at_the_colon() {
    let code = "def f(x, y):\n    return x\n";
    let s = scan_source(code, "a.py").unwrap();
    let loc = &s.functions[0].signature_end_location;
    assert_eq!(loc.line, 1);
    assert_eq!(loc.column, 13);
}

#[test]
fn unique_id_carries_the_class_context() {
    let code = "class C:\n    def m(self):\n        pass\n";
    let s = scan_source(code, "p/mod.py").unwrap();
    assert_eq!(s.classes[0].methods[0].unique_id, "p/mod.py:C::m");
}

#[test]
fn file_hash_folds_functions_classes_and_sorted_imports() {
    let code = "import zlib\nimport abc\n\ndef f():\n    pass\n";
    let a = analyze_one(code, "a.py");
    // imports are emitted in source order but hashed in sorted order
    assert_eq!(a.imports, vec!["zlib".to_string(), "abc".to_string()]);
    let expected = sha_hex(&format!("{}{}{}", a.functions[0].content_hash, "abc", "zlib"));
    assert_eq!(a.structure_hash, expected);
}

#[test]
fn root_hash_folds_path_sorted_file_hashes() {
    let a = analyze_one("def f():\n    pass\n", "b.py");
    let b = analyze_one("import os\n", "a.py");
    let ha = a.structure_hash.clone();
    let hb = b.structure_hash.clone();
    let r = analyze_repo(vec![a, b]);
    assert_eq!(r.root_merkle_hash, sha_hex(&format!("{}{}", hb, ha)));
}

#[test]
fn two_runs_agree_and_removing_a_file_changes_the_root() {
    let code_a = "def alpha():\n    return 1\n";
    let code_b = "import os\n";
    let run = |with_b: bool| {
        let mut files = vec![analyze_one(code_a, "a.py")];
        if with_b {
            files.push(analyze_one(code_b, "b.py"));
        }
        analyze_repo(files)
    };
    let r1 = run(true);
    let r2 = run(true);
    assert_eq!(r1.root_merkle_hash, r2.root_merkle_hash);
    assert_eq!(r1.files.len(), r2.files.len());
    let r3 = run(false);
    assert_ne!(r3.root_merkle_hash, r1.root_merkle_hash);
    assert_eq!(
        r1.files.iter().find(|f| f.path == "a.py").unwrap().structure_hash,
        r3.files[0].structure_hash
    );
}

#[test]
fn empty_source_yields_an_empty_scan() {
    let empty = scan_source("", "e.py").unwrap();
    assert!(empty.functions.is_empty());
    assert!(empty.classes.is_empty());
    assert!(empty.raw_imports.is_empty());
}

#[test]
fn string_order_matches_lexicographic_comparison() {
    assert!(str_le("abc", "abd"));
    assert!(str_le("ab", "abc"));
    assert!(!str_le("b", "aaa"));
    assert!(str_le("", ""));
}

#[test]
fn functions_are_emitted_in_discovery_order_but_hashed_sorted() {
    let code = "def b():\n    pass\n\ndef a():\n    pass\n";
    let f = analyze_one(code, "x.py");
    assert_eq!(f.functions[0].name, "b");
    assert_eq!(f.functions[1].name, "a");
    let expected = sha_hex(&format!(
        "{}{}",
        f.functions[1].content_hash, f.functions[0].content_hash
    ));
    assert_eq!(f.structure_hash, expected);
}

#[test]
fn non_ascii_text_hashes_like_its_bytes() {
    let code = "def f():\n    return \"caf\u{e9}\"\n";
    let s = scan_source(code, "a.py").unwrap();
    assert_eq!(
        s.functions[0].content_hash,
        sha_hex("def f():\n    return \"caf\u{e9}\"")
    );
    assert_eq!(s.functions[0].loc, 2);
}

#[test]
fn single_quoted_docstring_loses_its_delimiters() {
    let code = "def f():\n    '''doc line'''\n    return 1\n";
    let s = scan_source(code, "a.py").unwrap();
    assert_eq!(s.functions[0].docstring.clone().unwrap(), "doc line");
}

#[test]
fn dotted_receiver_chains_keep_only_the_final_segment() {
    let code = "def f(a):\n    a.b.c(1)\n    pkg.mod.fun()\n";
    let s = scan_source(code, "a.py").unwrap();
    assert_eq!(s.functions[0].calls, vec!["c".to_string(), "fun".to_string()]);
}
