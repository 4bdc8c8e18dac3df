//! Character and line level utilities over source text.
//!
//! Every executable function here is specified against a spec function over
//! `Seq<char>`; the spec functions are the reference model that the
//! extraction and hashing layers build on.

use vstd::prelude::*;

verus! {

use vstd::string::StrSliceExecFns;
use vstd::string::StringExecFns;

/// The Unicode `White_Space` set, the characters that Rust's
/// `char::is_whitespace` recognizes.
pub open spec fn is_space_char(c: char) -> bool {
    c == ' ' || c == '\t' || c == '\n' || c == '\u{b}' || c == '\u{c}' || c == '\r'
        || c == '\u{85}' || c == '\u{a0}' || c == '\u{1680}'
        || (0x2000 <= c as u32 && c as u32 <= 0x200a)
        || c == '\u{2028}' || c == '\u{2029}' || c == '\u{202f}' || c == '\u{205f}'
        || c == '\u{3000}'
}

pub fn is_space(c: char) -> (r: bool)
    ensures
        r == is_space_char(c),
{
    c == ' ' || c == '\t' || c == '\n' || c == '\u{b}' || c == '\u{c}' || c == '\r'
        || c == '\u{85}' || c == '\u{a0}' || c == '\u{1680}'
        || (0x2000 <= c as u32 && c as u32 <= 0x200a)
        || c == '\u{2028}' || c == '\u{2029}' || c == '\u{202f}' || c == '\u{205f}'
        || c == '\u{3000}'
}

/// Lexicographic order on character sequences by Unicode scalar value; this
/// is the order in which `str` sorts.
pub open spec fn lex_le(a: Seq<char>, b: Seq<char>) -> bool
    decreases a.len(),
{
    if a.len() == 0 {
        true
    } else if b.len() == 0 {
        false
    } else if (a[0] as u32) < (b[0] as u32) {
        true
    } else if (b[0] as u32) < (a[0] as u32) {
        false
    } else {
        lex_le(a.drop_first(), b.drop_first())
    }
}

pub proof fn lemma_lex_le_total(a: Seq<char>, b: Seq<char>)
    ensures
        lex_le(a, b) || lex_le(b, a),
    decreases a.len(),
{
    if a.len() == 0 || b.len() == 0 {
    } else if (a[0] as u32) < (b[0] as u32) || (b[0] as u32) < (a[0] as u32) {
    } else {
        lemma_lex_le_total(a.drop_first(), b.drop_first());
    }
}

pub proof fn lemma_lex_le_antisymmetric(a: Seq<char>, b: Seq<char>)
    requires
        lex_le(a, b),
        lex_le(b, a),
    ensures
        a == b,
    decreases a.len(),
{
    if a.len() == 0 {
        assert(b.len() == 0);
        assert(a =~= b);
    } else {
        assert(b.len() > 0);
        assert(a[0] as u32 == b[0] as u32);
        vstd::utf8::char_u32_cast(a[0], a[0] as u32);
        vstd::utf8::char_u32_cast(b[0], b[0] as u32);
        assert(a[0] == b[0]);
        lemma_lex_le_antisymmetric(a.drop_first(), b.drop_first());
        assert forall|i: int| 0 <= i < a.len() implies a[i] == b[i] by {
            if i > 0 {
                assert(a[i] == a.drop_first()[i - 1]);
                assert(b[i] == b.drop_first()[i - 1]);
            }
        }
        assert(a =~= b);
    }
}

pub proof fn lemma_lex_le_transitive(a: Seq<char>, b: Seq<char>, c: Seq<char>)
    requires
        lex_le(a, b),
        lex_le(b, c),
    ensures
        lex_le(a, c),
    decreases a.len(),
{
    if a.len() == 0 || b.len() == 0 || c.len() == 0 {
    } else if (a[0] as u32) < (b[0] as u32) {
        if (b[0] as u32) < (c[0] as u32) {
        } else {
            assert(b[0] as u32 == c[0] as u32);
        }
    } else {
        assert(a[0] as u32 == b[0] as u32);
        if (b[0] as u32) < (c[0] as u32) {
        } else {
            assert(b[0] as u32 == c[0] as u32);
            lemma_lex_le_transitive(a.drop_first(), b.drop_first(), c.drop_first());
        }
    }
}

/// Compares two strings in lexicographic order of their characters.
pub fn str_le(a: &str, b: &str) -> (r: bool)
    ensures
        r == lex_le(a@, b@),
{
    let alen = a.unicode_len();
    let blen = b.unicode_len();
    let mut i: usize = 0;
    proof {
        assert(a@.skip(0) =~= a@);
        assert(b@.skip(0) =~= b@);
    }
    loop
        invariant
            i <= alen,
            i <= blen,
            alen == a@.len(),
            blen == b@.len(),
            lex_le(a@, b@) == lex_le(a@.skip(i as int), b@.skip(i as int)),
        decreases alen - i,
    {
        if i >= alen {
            assert(a@.skip(i as int).len() == 0);
            return true;
        }
        if i >= blen {
            assert(b@.skip(i as int).len() == 0);
            assert(a@.skip(i as int).len() > 0);
            return false;
        }
        let ca = a.get_char(i);
        let cb = b.get_char(i);
        assert(a@.skip(i as int)[0] == a@[i as int]);
        assert(b@.skip(i as int)[0] == b@[i as int]);
        if (ca as u32) < (cb as u32) {
            return true;
        }
        if (cb as u32) < (ca as u32) {
            return false;
        }
        proof {
            assert(a@.skip(i as int).drop_first() =~= a@.skip(i as int + 1));
            assert(b@.skip(i as int).drop_first() =~= b@.skip(i as int + 1));
        }
        i += 1;
    }
}

/// The number of leading whitespace characters of a line.
pub open spec fn leading_space_count(l: Seq<char>) -> nat
    decreases l.len(),
{
    if l.len() == 0 {
        0
    } else if !is_space_char(l[0]) {
        0
    } else {
        1 + leading_space_count(l.drop_first())
    }
}

pub proof fn lemma_leading_space_count_at(l: Seq<char>, i: int)
    requires
        0 <= i <= l.len(),
        forall|j: int| 0 <= j < i ==> is_space_char(l[j]),
        i == l.len() || !is_space_char(l[i]),
    ensures
        leading_space_count(l) == i,
    decreases l.len(),
{
    if l.len() == 0 {
    } else if i == 0 {
    } else {
        assert(is_space_char(l[0]));
        assert(forall|j: int| 0 <= j < i - 1 ==> is_space_char(#[trigger] l.drop_first()[j]));
        lemma_leading_space_count_at(l.drop_first(), i - 1);
    }
}

pub proof fn lemma_leading_space_count_le(l: Seq<char>)
    ensures
        leading_space_count(l) <= l.len(),
        forall|j: int| 0 <= j < leading_space_count(l) ==> is_space_char(l[j]),
    decreases l.len(),
{
    if l.len() == 0 {
    } else if !is_space_char(l[0]) {
    } else {
        lemma_leading_space_count_le(l.drop_first());
        assert forall|j: int| 0 <= j < leading_space_count(l) implies is_space_char(l[j]) by {
            if j > 0 {
                assert(is_space_char(l.drop_first()[j - 1]));
            }
        }
    }
}

/// Counts the leading whitespace characters of a string.
pub fn count_leading_spaces(l: &str) -> (n: usize)
    ensures
        n == leading_space_count(l@),
        n <= l@.len(),
{
    let len = l.unicode_len();
    let mut i: usize = 0;
    loop
        invariant
            i <= len,
            len == l@.len(),
            forall|j: int| 0 <= j < i ==> is_space_char(l@[j]),
        decreases len - i,
    {
        if i >= len {
            proof {
                lemma_leading_space_count_at(l@, i as int);
            }
            return i;
        }
        if !is_space(l.get_char(i)) {
            proof {
                lemma_leading_space_count_at(l@, i as int);
            }
            return i;
        }
        i += 1;
    }
}

/// A line is blank when every character is whitespace; `str::trim` leaves
/// nothing of it.
pub open spec fn is_blank(l: Seq<char>) -> bool {
    forall|j: int| 0 <= j < l.len() ==> is_space_char(l[j])
}

/// Whether a line counts toward the line-of-code metric: it has a
/// non-whitespace character and the first such character is not the comment
/// marker.
pub open spec fn counted_line(l: Seq<char>) -> bool {
    exists|i: int|
        0 <= i < l.len() && !is_space_char(l[i]) && (forall|j: int|
            0 <= j < i ==> is_space_char(l[j])) && l[i] != '#'
}

pub fn line_is_counted(l: &str) -> (r: bool)
    ensures
        r == counted_line(l@),
{
    let len = l.unicode_len();
    let mut i: usize = 0;
    loop
        invariant
            i <= len,
            len == l@.len(),
            forall|j: int| 0 <= j < i ==> is_space_char(l@[j]),
        decreases len - i,
    {
        if i >= len {
            assert(!counted_line(l@));
            return false;
        }
        let c = l.get_char(i);
        if !is_space(c) {
            if c != '#' {
                assert(counted_line(l@));
                return true;
            } else {
                assert forall|k: int|
                    0 <= k < l@.len() && !is_space_char(l@[k]) && (forall|j: int|
                        0 <= j < k ==> is_space_char(l@[j])) implies l@[k] == '#' by {
                    if k < i {
                        assert(is_space_char(l@[k]));
                    } else if k > i {
                        assert(is_space_char(l@[i as int]));
                    }
                }
                assert(!counted_line(l@));
                return false;
            }
        }
        i += 1;
    }
}

/// Drops one trailing carriage return, as Rust's `str::lines` does on a
/// segment that a line feed ended.
pub open spec fn strip_cr(l: Seq<char>) -> Seq<char> {
    if l.len() > 0 && l.last() == '\r' {
        l.drop_last()
    } else {
        l
    }
}

/// The lines of a text, split at `'\n'`, each segment stripped of one `'\r'`
/// before the line feed; a final segment without a line feed is kept whole.
/// This matches Rust's `str::lines`.
pub open spec fn lines_acc(s: Seq<char>, cur: Seq<char>) -> Seq<Seq<char>>
    decreases s.len(),
{
    if s.len() == 0 {
        if cur.len() == 0 {
            Seq::empty()
        } else {
            seq![cur]
        }
    } else if s[0] == '\n' {
        seq![strip_cr(cur)] + lines_acc(s.drop_first(), Seq::empty())
    } else {
        lines_acc(s.drop_first(), cur.push(s[0]))
    }
}

pub open spec fn spec_lines(s: Seq<char>) -> Seq<Seq<char>> {
    lines_acc(s, Seq::empty())
}

/// Splits a text into its lines.
pub fn split_lines(s: &str) -> (r: Vec<String>)
    ensures
        r.deep_view() == spec_lines(s@),
{
    let len = s.unicode_len();
    let mut r: Vec<String> = Vec::new();
    let mut start: usize = 0;
    let mut i: usize = 0;
    proof {
        assert(s@.skip(0) =~= s@);
        assert(s@.subrange(0, 0) =~= Seq::<char>::empty());
        assert(r.deep_view() =~= Seq::<Seq<char>>::empty());
    }
    loop
        invariant
            start <= i <= len,
            len == s@.len(),
            spec_lines(s@) == r.deep_view() + lines_acc(
                s@.skip(i as int),
                s@.subrange(start as int, i as int),
            ),
        decreases len - i,
    {
        if i >= len {
            if start < i {
                let piece = String::from_str(s.substring_char(start, len));
                proof {
                    assert(s@.skip(i as int).len() == 0);
                    assert(lines_acc(s@.skip(i as int), s@.subrange(start as int, i as int))
                        =~= seq![s@.subrange(start as int, i as int)]);
                }
                let ghost old_r = r.deep_view();
                r.push(piece);
                proof {
                    assert(r.deep_view() =~= old_r + seq![piece@]);
                    assert(r.deep_view() =~= spec_lines(s@));
                }
            } else {
                proof {
                    assert(lines_acc(s@.skip(i as int), s@.subrange(start as int, i as int))
                        =~= Seq::<Seq<char>>::empty());
                    assert(r.deep_view() =~= spec_lines(s@));
                }
            }
            return r;
        }
        let c = s.get_char(i);
        proof {
            assert(s@.skip(i as int)[0] == s@[i as int]);
        }
        if c == '\n' {
            let end = if i > start && s.get_char(i - 1) == '\r' {
                i - 1
            } else {
                i
            };
            let piece = String::from_str(s.substring_char(start, end));
            proof {
                assert(piece@ =~= strip_cr(s@.subrange(start as int, i as int)));
                assert(s@.skip(i as int).drop_first() =~= s@.skip(i as int + 1));
                assert(lines_acc(s@.skip(i as int), s@.subrange(start as int, i as int))
                    == seq![strip_cr(s@.subrange(start as int, i as int))] + lines_acc(
                    s@.skip(i as int + 1),
                    Seq::empty(),
                ));
            }
            let ghost old_r = r.deep_view();
            r.push(piece);
            proof {
                assert(r.deep_view() =~= old_r + seq![piece@]);
                assert(s@.subrange(i as int + 1, i as int + 1) =~= Seq::<char>::empty());
                assert(spec_lines(s@) == r.deep_view() + lines_acc(
                    s@.skip(i as int + 1),
                    s@.subrange(i as int + 1, i as int + 1),
                ));
            }
            start = i + 1;
        } else {
            proof {
                assert(s@.skip(i as int).drop_first() =~= s@.skip(i as int + 1));
                assert(s@.subrange(start as int, i as int).push(s@[i as int]) =~= s@.subrange(
                    start as int,
                    i as int + 1,
                ));
            }
        }
        i += 1;
    }
}

/// The number of lines that count toward the line-of-code metric.
pub open spec fn counted_lines(ls: Seq<Seq<char>>) -> nat
    decreases ls.len(),
{
    if ls.len() == 0 {
        0
    } else {
        counted_lines(ls.drop_last()) + if counted_line(ls.last()) {
            1nat
        } else {
            0nat
        }
    }
}

pub open spec fn spec_loc(text: Seq<char>) -> nat {
    counted_lines(spec_lines(text))
}

/// Counts the lines of a declaration's text that are neither blank nor
/// comment-only: its line-of-code metric.
pub fn calculate_loc(node_text: &str) -> (count: usize)
    ensures
        count == spec_loc(node_text@),
{
    let lines = split_lines(node_text);
    let mut count: usize = 0;
    let mut i: usize = 0;
    proof {
        assert(lines.deep_view().take(0) =~= Seq::<Seq<char>>::empty());
    }
    loop
        invariant
            i <= lines.len(),
            count <= i,
            lines.deep_view() == spec_lines(node_text@),
            lines.deep_view().len() == lines@.len(),
            count == counted_lines(lines.deep_view().take(i as int)),
        decreases lines.len() - i,
    {
        if i >= lines.len() {
            proof {
                assert(lines.deep_view().take(i as int) =~= lines.deep_view());
            }
            return count;
        }
        proof {
            assert(lines.deep_view().take(i as int + 1).drop_last() =~= lines.deep_view().take(
                i as int,
            ));
            assert(lines.deep_view().take(i as int + 1).last() == lines.deep_view()[i as int]);
            assert(lines.deep_view()[i as int] == lines@[i as int]@);
        }
        if line_is_counted(lines[i].as_str()) {
            count += 1;
        }
        i += 1;
    }
}

} // verus!

verus! {

/// Tests two strings for equality of their character sequences.
pub fn str_eq(a: &str, b: &str) -> (r: bool)
    ensures
        r == (a@ == b@),
{
    let alen = a.unicode_len();
    let blen = b.unicode_len();
    if alen != blen {
        return false;
    }
    let mut i: usize = 0;
    loop
        invariant
            i <= alen,
            alen == a@.len(),
            alen == b@.len(),
            forall|j: int| 0 <= j < i ==> a@[j] == b@[j],
        decreases alen - i,
    {
        if i >= alen {
            proof {
                assert(a@ =~= b@);
            }
            return true;
        }
        if a.get_char(i) != b.get_char(i) {
            return false;
        }
        i += 1;
    }
}

/// Whether every character of the line is whitespace.
pub fn line_is_blank(l: &str) -> (r: bool)
    ensures
        r == is_blank(l@),
{
    let n = count_leading_spaces(l);
    let len = l.unicode_len();
    proof {
        lemma_leading_space_count_le(l@);
        if is_blank(l@) {
            lemma_leading_space_count_at(l@, l@.len() as int);
        }
    }
    n == len
}

/// The smallest leading-whitespace count among the non-blank lines, if any
/// line is non-blank.
pub open spec fn min_indent(ls: Seq<Seq<char>>) -> Option<nat>
    decreases ls.len(),
{
    if ls.len() == 0 {
        Option::None
    } else {
        let rest = min_indent(ls.drop_last());
        if is_blank(ls.last()) {
            rest
        } else {
            let x = leading_space_count(ls.last());
            match rest {
                Option::None => Option::Some(x),
                Option::Some(y) => Option::Some(if x <= y { x } else { y }),
            }
        }
    }
}

/// The common indentation that dedenting removes: the least indentation of a
/// non-blank line, or zero when every line is blank.
pub open spec fn min_indent_or_zero(ls: Seq<Seq<char>>) -> nat {
    match min_indent(ls) {
        Option::None => 0,
        Option::Some(x) => x,
    }
}

/// One dedented line: the common indentation is cut off; a line too short
/// for that loses exactly its leading whitespace.
pub open spec fn unindent_line(l: Seq<char>, m: nat) -> Seq<char> {
    if l.len() > m {
        l.skip(m as int)
    } else {
        l.skip(leading_space_count(l) as int)
    }
}

/// Lines joined with a line feed between each pair.
pub open spec fn join_nl(ls: Seq<Seq<char>>) -> Seq<char>
    decreases ls.len(),
{
    if ls.len() == 0 {
        Seq::empty()
    } else if ls.len() == 1 {
        ls[0]
    } else {
        join_nl(ls.drop_last()) + seq!['\n'] + ls.last()
    }
}

/// The dedented form of a docstring body: every line loses the least
/// indentation that a non-blank line has.
pub open spec fn spec_unindent(s: Seq<char>) -> Seq<char> {
    let ls = spec_lines(s);
    if ls.len() == 0 {
        Seq::empty()
    } else {
        join_nl(ls.map_values(|l: Seq<char>| unindent_line(l, min_indent_or_zero(ls))))
    }
}

/// Removes the smallest common indentation of the non-blank lines from every
/// line of the text; lines shorter than that indentation lose exactly their
/// leading whitespace. Indentation is measured in characters.
pub fn unindent_docstring(doc: &str) -> (r: String)
    ensures
        r@ == spec_unindent(doc@),
{
    let lines = split_lines(doc);
    if lines.len() == 0 {
        return String::new();
    }
    let ghost ls = spec_lines(doc@);
    let mut m_found = false;
    let mut m: usize = 0;
    let mut i: usize = 0;
    proof {
        assert(ls.take(0) =~= Seq::<Seq<char>>::empty());
    }
    while i < lines.len()
        invariant
            i <= lines.len(),
            lines.deep_view() == ls,
            lines.deep_view().len() == lines@.len(),
            !m_found ==> min_indent(ls.take(i as int)) is None,
            m_found ==> min_indent(ls.take(i as int)) == Option::Some(m as nat),
        decreases lines.len() - i,
    {
        proof {
            assert(ls.take(i as int + 1).drop_last() =~= ls.take(i as int));
            assert(ls.take(i as int + 1).last() == ls[i as int]);
            assert(ls[i as int] == lines@[i as int]@);
        }
        if !line_is_blank(lines[i].as_str()) {
            let c = count_leading_spaces(lines[i].as_str());
            if !m_found {
                m_found = true;
                m = c;
            } else if c < m {
                m = c;
            }
        }
        i += 1;
    }
    proof {
        assert(ls.take(lines@.len() as int) =~= ls);
        assert(m_found ==> m as nat == min_indent_or_zero(ls));
        assert(!m_found ==> 0nat == min_indent_or_zero(ls));
    }
    if !m_found {
        m = 0;
    }
    let ghost mv = ls.map_values(|l: Seq<char>| unindent_line(l, min_indent_or_zero(ls)));
    let mut r = String::new();
    let mut i: usize = 0;
    proof {
        assert(mv.len() == ls.len());
    }
    while i < lines.len()
        invariant
            1 <= lines.len(),
            i <= lines.len(),
            lines.deep_view() == ls,
            lines.deep_view().len() == lines@.len(),
            mv == ls.map_values(|l: Seq<char>| unindent_line(l, min_indent_or_zero(ls))),
            mv.len() == ls.len(),
            m as nat == min_indent_or_zero(ls),
            i == 0 ==> r@ == Seq::<char>::empty(),
            i >= 1 ==> r@ == join_nl(mv.take(i as int)),
        decreases lines.len() - i,
    {
        let l = lines[i].as_str();
        let llen = l.unicode_len();
        proof {
            assert(ls[i as int] == lines@[i as int]@);
            lemma_leading_space_count_le(l@);
        }
        let piece = if llen > m {
            l.substring_char(m, llen)
        } else {
            let k = count_leading_spaces(l);
            l.substring_char(k, llen)
        };
        proof {
            assert(piece@ =~= unindent_line(ls[i as int], m as nat));
            assert(mv[i as int] == unindent_line(ls[i as int], min_indent_or_zero(ls)));
        }
        if i > 0 {
            r.append("\n");
            proof {
                reveal_strlit("\n");
                assert("\n"@ =~= seq!['\n']);
            }
        }
        r.append(piece);
        proof {
            if i == 0 {
                assert(mv.take(1) =~= seq![mv[0]]);
                assert(r@ =~= join_nl(mv.take(1)));
            } else {
                assert(mv.take(i as int + 1).drop_last() =~= mv.take(i as int));
                assert(mv.take(i as int + 1).last() == mv[i as int]);
                assert(mv.take(i as int + 1).len() >= 2);
                assert(r@ =~= join_nl(mv.take(i as int)) + seq!['\n'] + mv[i as int]);
            }
        }
        i += 1;
    }
    proof {
        assert(mv.take(lines@.len() as int) =~= mv);
    }
    r
}

/// The number of trailing whitespace characters of a line.
pub open spec fn trailing_space_count(l: Seq<char>) -> nat
    decreases l.len(),
{
    if l.len() == 0 {
        0
    } else if !is_space_char(l.last()) {
        0
    } else {
        1 + trailing_space_count(l.drop_last())
    }
}

pub proof fn lemma_trailing_space_count_at(l: Seq<char>, k: int)
    requires
        0 <= k <= l.len(),
        forall|j: int| k <= j < l.len() ==> is_space_char(l[j]),
        k == 0 || !is_space_char(l[k - 1]),
    ensures
        trailing_space_count(l) == l.len() - k,
    decreases l.len(),
{
    if l.len() == 0 {
    } else if k == l.len() {
    } else {
        assert(is_space_char(l.last()));
        assert(forall|j: int| k <= j < l.drop_last().len() ==> is_space_char(
            #[trigger] l.drop_last()[j],
        ));
        lemma_trailing_space_count_at(l.drop_last(), k);
    }
}

/// The text without its leading and trailing whitespace, as `str::trim`
/// leaves it.
pub open spec fn spec_trim(s: Seq<char>) -> Seq<char> {
    let t = s.skip(leading_space_count(s) as int);
    t.take(t.len() - trailing_space_count(t))
}

/// Cuts leading and trailing whitespace off a string.
pub fn trim_str<'a>(s: &'a str) -> (r: &'a str)
    ensures
        r@ == spec_trim(s@),
{
    let lo = count_leading_spaces(s);
    let len = s.unicode_len();
    let mut hi = len;
    while hi > lo && is_space(s.get_char(hi - 1))
        invariant
            lo <= hi <= len,
            len == s@.len(),
            lo == leading_space_count(s@),
            forall|j: int| hi <= j < len ==> is_space_char(s@[j]),
        decreases hi,
    {
        hi = hi - 1;
    }
    let r = s.substring_char(lo, hi);
    proof {
        let t = s@.skip(lo as int);
        lemma_leading_space_count_le(s@);
        if hi == lo {
            assert(forall|j: int| 0 <= j < t.len() ==> is_space_char(#[trigger] t[j]));
            lemma_trailing_space_count_at(t, 0);
        } else {
            assert(!is_space_char(s@[hi - 1]));
            assert(forall|j: int| hi - lo <= j < t.len() ==> is_space_char(#[trigger] t[j]));
            assert(t[hi - lo - 1] == s@[hi - 1]);
            lemma_trailing_space_count_at(t, hi - lo);
        }
        assert(r@ =~= t.take(t.len() - trailing_space_count(t)));
    }
    r
}

/// The text with every copy of the three-character prefix `qqq` removed from
/// its front, as `str::trim_start_matches` strips a pattern.
pub open spec fn strip_prefix_all(s: Seq<char>, p: Seq<char>) -> Seq<char>
    decreases s.len(),
{
    if p.len() > 0 && s.len() >= p.len() && s.take(p.len() as int) == p {
        strip_prefix_all(s.skip(p.len() as int), p)
    } else {
        s
    }
}

/// The text with every copy of the suffix removed from its end, as
/// `str::trim_end_matches` strips a pattern.
pub open spec fn strip_suffix_all(s: Seq<char>, p: Seq<char>) -> Seq<char>
    decreases s.len(),
{
    if p.len() > 0 && s.len() >= p.len() && s.skip(s.len() - p.len()) == p {
        strip_suffix_all(s.take(s.len() - p.len()), p)
    } else {
        s
    }
}

/// Moves the window start past every leading run of three `q` characters.
pub fn strip_prefix_quotes(s: &str, lo: usize, hi: usize, q: char) -> (r: usize)
    requires
        lo <= hi <= s@.len(),
    ensures
        lo <= r <= hi,
        s@.subrange(r as int, hi as int) == strip_prefix_all(
            s@.subrange(lo as int, hi as int),
            seq![q, q, q],
        ),
{
    let mut cur = lo;
    loop
        invariant
            lo <= cur <= hi <= s@.len(),
            strip_prefix_all(s@.subrange(lo as int, hi as int), seq![q, q, q])
                == strip_prefix_all(s@.subrange(cur as int, hi as int), seq![q, q, q]),
        decreases hi - cur,
    {
        let ghost w = s@.subrange(cur as int, hi as int);
        if hi - cur >= 3 && s.get_char(cur) == q && s.get_char(cur + 1) == q && s.get_char(
            cur + 2,
        ) == q {
            proof {
                assert(w.take(3) =~= seq![q, q, q]);
                assert(w.skip(3) =~= s@.subrange(cur as int + 3, hi as int));
            }
            cur = cur + 3;
        } else {
            proof {
                if w.len() >= 3 {
                    assert(w[0] == s@[cur as int]);
                    assert(w[1] == s@[cur as int + 1]);
                    assert(w[2] == s@[cur as int + 2]);
                    assert(w.take(3) != seq![q, q, q]) by {
                        if w.take(3) == seq![q, q, q] {
                            assert(w.take(3)[0] == q);
                            assert(w.take(3)[1] == q);
                            assert(w.take(3)[2] == q);
                        }
                    }
                }
                assert(strip_prefix_all(w, seq![q, q, q]) == w);
            }
            return cur;
        }
    }
}

/// Moves the window end back past every trailing run of three `q` characters.
pub fn strip_suffix_quotes(s: &str, lo: usize, hi: usize, q: char) -> (r: usize)
    requires
        lo <= hi <= s@.len(),
    ensures
        lo <= r <= hi,
        s@.subrange(lo as int, r as int) == strip_suffix_all(
            s@.subrange(lo as int, hi as int),
            seq![q, q, q],
        ),
{
    let mut cur = hi;
    loop
        invariant
            lo <= cur <= hi <= s@.len(),
            strip_suffix_all(s@.subrange(lo as int, hi as int), seq![q, q, q])
                == strip_suffix_all(s@.subrange(lo as int, cur as int), seq![q, q, q]),
        decreases cur,
    {
        let ghost w = s@.subrange(lo as int, cur as int);
        if cur - lo >= 3 && s.get_char(cur - 1) == q && s.get_char(cur - 2) == q && s.get_char(
            cur - 3,
        ) == q {
            proof {
                assert(w.skip(w.len() - 3) =~= seq![q, q, q]);
                assert(w.take(w.len() - 3) =~= s@.subrange(lo as int, cur as int - 3));
            }
            cur = cur - 3;
        } else {
            proof {
                if w.len() >= 3 {
                    assert(w[w.len() - 1] == s@[cur as int - 1]);
                    assert(w[w.len() - 2] == s@[cur as int - 2]);
                    assert(w[w.len() - 3] == s@[cur as int - 3]);
                    assert(w.skip(w.len() - 3) != seq![q, q, q]) by {
                        if w.skip(w.len() - 3) == seq![q, q, q] {
                            assert(w.skip(w.len() - 3)[0] == q);
                            assert(w.skip(w.len() - 3)[1] == q);
                            assert(w.skip(w.len() - 3)[2] == q);
                        }
                    }
                }
                assert(strip_suffix_all(w, seq![q, q, q]) == w);
            }
            return cur;
        }
    }
}

/// The position of the last occurrence of a character, or a negative value
/// when it does not occur.
pub open spec fn rfind_char(s: Seq<char>, c: char) -> int
    decreases s.len(),
{
    if s.len() == 0 {
        -1
    } else if s.last() == c {
        s.len() - 1
    } else {
        rfind_char(s.drop_last(), c)
    }
}

pub proof fn lemma_rfind_char_at(s: Seq<char>, c: char, k: int)
    requires
        0 <= k < s.len(),
        s[k] == c,
        forall|j: int| k < j < s.len() ==> s[j] != c,
    ensures
        rfind_char(s, c) == k,
    decreases s.len(),
{
    if k == s.len() - 1 {
    } else {
        assert(s.last() != c);
        assert(s.drop_last()[k] == c);
        lemma_rfind_char_at(s.drop_last(), c, k);
    }
}

pub proof fn lemma_rfind_char_none(s: Seq<char>, c: char)
    requires
        forall|j: int| 0 <= j < s.len() ==> s[j] != c,
    ensures
        rfind_char(s, c) == -1,
    decreases s.len(),
{
    if s.len() > 0 {
        lemma_rfind_char_none(s.drop_last(), c);
    }
}

/// What follows the last member-access dot: the final segment of a dotted
/// callee expression, the whole text when no dot occurs.
pub open spec fn last_dot_segment(s: Seq<char>) -> Seq<char> {
    if rfind_char(s, '.') < 0 {
        s
    } else {
        s.skip(rfind_char(s, '.') + 1)
    }
}

/// Returns the final dot-separated segment of a callee expression.
pub fn last_segment_after_dot<'a>(s: &'a str) -> (r: &'a str)
    ensures
        r@ == last_dot_segment(s@),
{
    let len = s.unicode_len();
    let mut j = len;
    loop
        invariant
            0 <= j <= len,
            len == s@.len(),
            forall|k: int| j <= k < len ==> s@[k] != '.',
        decreases j,
    {
        if j > 0 && s.get_char(j - 1) == '.' {
            let r = s.substring_char(j, len);
            proof {
                lemma_rfind_char_at(s@, '.', j - 1);
                assert(r@ =~= s@.skip(j as int));
            }
            return r;
        }
        if j == 0 {
            let r = s.substring_char(0, len);
            proof {
                lemma_rfind_char_none(s@, '.');
                assert(r@ =~= s@);
            }
            return r;
        }
        j -= 1;
    }
}

/// The concatenation of a sequence of character sequences, in order.
pub open spec fn concat_seqs(ss: Seq<Seq<char>>) -> Seq<char>
    decreases ss.len(),
{
    if ss.len() == 0 {
        Seq::empty()
    } else {
        concat_seqs(ss.drop_last()) + ss.last()
    }
}

} // verus!

verus! {

use vstd::string::StrSliceExecFns as StrCharFns;

/// Whether the sequence ends with the given suffix.
pub open spec fn ends_with(s: Seq<char>, suffix: Seq<char>) -> bool {
    s.len() >= suffix.len() && s.skip(s.len() - suffix.len()) == suffix
}

/// Tests whether a string ends with the given suffix.
pub fn str_ends_with(s: &str, suffix: &str) -> (r: bool)
    ensures
        r == ends_with(s@, suffix@),
{
    let slen = s.unicode_len();
    let xlen = suffix.unicode_len();
    if slen < xlen {
        return false;
    }
    let tail = s.substring_char(slen - xlen, slen);
    let r = str_eq(tail, suffix);
    proof {
        assert(tail@ =~= s@.skip(s@.len() - suffix@.len()));
    }
    r
}

} // verus!
