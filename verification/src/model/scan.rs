//! Character-level scanning for the expression language: white space, nesting
//! depth, operators outside parentheses, keywords, numbers and identifiers.

use vstd::prelude::*;
use vstd::string::*;
use crate::text::is_white_space;

verus! {

/// Whether the character is white space.
pub open spec fn is_space(c: char) -> bool {
    is_white_space(c)
}

pub open spec fn is_digit(c: char) -> bool {
    '0' <= c <= '9'
}

pub open spec fn is_letter(c: char) -> bool {
    ('a' <= c <= 'z') || ('A' <= c <= 'Z')
}

/// A character that may stand in a name: a letter, a digit or an underscore.
pub open spec fn is_word_char(c: char) -> bool {
    is_letter(c) || is_digit(c) || c == '_'
}

pub open spec fn is_opener(c: char) -> bool {
    c == '(' || c == '['
}

pub open spec fn is_closer(c: char) -> bool {
    c == ')' || c == ']'
}

/// The first position from `i` on that holds no white space.
pub open spec fn skip_spaces(s: Seq<char>, i: int) -> int
    decreases s.len() - i,
{
    if 0 <= i < s.len() && is_space(s[i]) {
        skip_spaces(s, i + 1)
    } else {
        i
    }
}

/// The end of the text before `j` once the white space that ends it is dropped.
pub open spec fn back_spaces(s: Seq<char>, j: int) -> int
    decreases j,
{
    if 0 < j <= s.len() && is_space(s[j - 1]) {
        back_spaces(s, j - 1)
    } else {
        j
    }
}

/// Where the text without surrounding white space starts.
pub open spec fn trim_lo(s: Seq<char>) -> int {
    skip_spaces(s, 0)
}

/// Where the text without surrounding white space ends.
pub open spec fn trim_hi(s: Seq<char>) -> int {
    if back_spaces(s, s.len() as int) < trim_lo(s) {
        trim_lo(s)
    } else {
        back_spaces(s, s.len() as int)
    }
}

/// The text without the white space at its two ends.
pub open spec fn trimmed_text(s: Seq<char>) -> Seq<char> {
    s.subrange(trim_lo(s), trim_hi(s))
}

pub proof fn lemma_skip_spaces(s: Seq<char>, i: int)
    requires
        0 <= i <= s.len(),
    ensures
        i <= skip_spaces(s, i) <= s.len(),
        forall|k: int| i <= k < skip_spaces(s, i) ==> is_space(s[k]),
        skip_spaces(s, i) < s.len() ==> !is_space(s[skip_spaces(s, i)]),
    decreases s.len() - i,
{
    if i < s.len() && is_space(s[i]) {
        lemma_skip_spaces(s, i + 1);
    }
}

pub proof fn lemma_back_spaces(s: Seq<char>, j: int)
    requires
        0 <= j <= s.len(),
    ensures
        0 <= back_spaces(s, j) <= j,
        forall|k: int| back_spaces(s, j) <= k < j ==> is_space(s[k]),
        back_spaces(s, j) > 0 ==> !is_space(s[back_spaces(s, j) - 1]),
    decreases j,
{
    if 0 < j && is_space(s[j - 1]) {
        lemma_back_spaces(s, j - 1);
    }
}

/// The trimmed text lies inside the text, and neither starts nor ends with white space.
pub proof fn lemma_trim_bounds(s: Seq<char>)
    ensures
        0 <= trim_lo(s) <= trim_hi(s) <= s.len(),
        trimmed_text(s).len() == trim_hi(s) - trim_lo(s),
        trimmed_text(s).len() > 0 ==> !is_space(trimmed_text(s)[0]) && !is_space(
            trimmed_text(s).last(),
        ),
{
    lemma_skip_spaces(s, 0);
    lemma_back_spaces(s, s.len() as int);
}

fn space(c: char) -> (r: bool)
    ensures
        r == is_space(c),
{
    ('\u{9}' <= c && c <= '\u{d}') || c == ' ' || c == '\u{85}' || c == '\u{a0}' || c == '\u{1680}'
        || ('\u{2000}' <= c && c <= '\u{200a}') || c == '\u{2028}' || c == '\u{2029}' || c
        == '\u{202f}' || c == '\u{205f}' || c == '\u{3000}'
}

fn digit(c: char) -> (r: bool)
    ensures
        r == is_digit(c),
{
    c >= '0' && c <= '9'
}

fn word_char(c: char) -> (r: bool)
    ensures
        r == is_word_char(c),
{
    (c >= 'a' && c <= 'z') || (c >= 'A' && c <= 'Z') || (c >= '0' && c <= '9') || c == '_'
}

/// The characters of `s`, in order.
pub fn to_chars(s: &str) -> (r: Vec<char>)
    ensures
        r@ == s@,
{
    let n = s.unicode_len();
    let mut r: Vec<char> = Vec::new();
    let mut i: usize = 0;
    while i < n
        invariant
            n == s@.len(),
            i <= n,
            r@ == s@.subrange(0, i as int),
        decreases n - i,
    {
        r.push(s.get_char(i));
        assert(r@ =~= s@.subrange(0, i + 1));
        i += 1;
    }
    assert(s@.subrange(0, n as int) =~= s@);
    r
}

/// The bounds of `s` without the white space at its two ends.
pub fn trim_bounds(s: &[char]) -> (r: (usize, usize))
    ensures
        r.0 == trim_lo(s@),
        r.1 == trim_hi(s@),
        r.0 <= r.1 <= s@.len(),
{
    let n = s.len();
    let mut lo: usize = 0;
    while lo < n && space(s[lo])
        invariant
            n == s@.len(),
            lo <= n,
            skip_spaces(s@, 0) == skip_spaces(s@, lo as int),
        decreases n - lo,
    {
        lo += 1;
    }
    let mut hi: usize = n;
    while hi > 0 && space(s[hi - 1])
        invariant
            n == s@.len(),
            hi <= n,
            back_spaces(s@, n as int) == back_spaces(s@, hi as int),
        decreases hi,
    {
        hi -= 1;
    }
    if hi < lo {
        (lo, lo)
    } else {
        (lo, hi)
    }
}

/// How a character changes the nesting depth.
pub open spec fn depth_step(c: char) -> int {
    if is_opener(c) {
        1
    } else if is_closer(c) {
        -1
    } else {
        0
    }
}

/// The nesting depth before position `i`: openers minus closers among the first `i` characters.
pub open spec fn depth_at(s: Seq<char>, i: int) -> int
    decreases i,
{
    if i <= 0 || i > s.len() {
        0
    } else {
        depth_at(s, i - 1) + depth_step(s[i - 1])
    }
}

/// Whether every closer has an opener before it and every opener is closed.
pub open spec fn balanced(s: Seq<char>) -> bool {
    &&& depth_at(s, s.len() as int) == 0
    &&& forall|i: int| 0 <= i <= s.len() ==> depth_at(s, i) >= 0
}

/// Whether the text is balanced.
pub fn is_balanced(s: &[char]) -> (r: bool)
    ensures
        r == balanced(s@),
{
    let n = s.len();
    let mut depth: usize = 0;
    let mut i: usize = 0;
    while i < n
        invariant
            n == s@.len(),
            i <= n,
            depth == depth_at(s@, i as int),
            depth <= i,
            forall|k: int| 0 <= k <= i ==> depth_at(s@, k) >= 0,
        decreases n - i,
    {
        let c = s[i];
        if c == '(' || c == '[' {
            depth += 1;
        } else if c == ')' || c == ']' {
            if depth == 0 {
                assert(depth_at(s@, i + 1) < 0);
                return false;
            }
            depth -= 1;
        }
        i += 1;
    }
    depth == 0
}

/// The places at which an expression can be split, from the loosest binding to the
/// tightest, and the comma that separates arguments.
#[derive(Debug, Clone, Copy, PartialEq, Eq, Structural)]
pub enum Level {
    Comparison,
    Additive,
    Multiplicative,
    Power,
    Comma,
}

/// Whether an operator of the given level starts at position `i`.
pub open spec fn op_at(s: Seq<char>, level: Level, i: int) -> bool {
    0 <= i < s.len() && match level {
        Level::Comparison => s[i] == '<' || s[i] == '>' || ((s[i] == '=' || s[i] == '!') && i + 1
            < s.len() && s[i + 1] == '='),
        Level::Additive => s[i] == '+' || s[i] == '-',
        Level::Multiplicative => s[i] == '*' || s[i] == '/',
        Level::Power => s[i] == '^',
        Level::Comma => s[i] == ',',
    }
}

/// The last position before `i` at which an operator of the given level starts
/// outside all parentheses and brackets.
pub open spec fn last_op(s: Seq<char>, level: Level, i: int) -> Option<int>
    decreases i,
{
    if i <= 0 {
        None
    } else if op_at(s, level, i - 1) && depth_at(s, i - 1) == 0 {
        Some(i - 1)
    } else {
        last_op(s, level, i - 1)
    }
}

/// What `last_op` finds is an operator of that level at depth zero, and the last one.
pub proof fn lemma_last_op(s: Seq<char>, level: Level, i: int)
    requires
        0 <= i <= s.len(),
    ensures
        match last_op(s, level, i) {
            Some(p) => 0 <= p < i && op_at(s, level, p) && depth_at(s, p) == 0 && forall|k: int|
                p < k < i ==> !(op_at(s, level, k) && depth_at(s, k) == 0),
            None => forall|k: int| 0 <= k < i ==> !(op_at(s, level, k) && depth_at(s, k) == 0),
        },
    decreases i,
{
    if i > 0 && !(op_at(s, level, i - 1) && depth_at(s, i - 1) == 0) {
        lemma_last_op(s, level, i - 1);
    }
}

fn is_op(s: &[char], level: Level, i: usize) -> (r: bool)
    requires
        i < s@.len(),
    ensures
        r == op_at(s@, level, i as int),
{
    let c = s[i];
    match level {
        Level::Comparison => c == '<' || c == '>' || ((c == '=' || c == '!') && i + 1 < s.len()
            && s[i + 1] == '='),
        Level::Additive => c == '+' || c == '-',
        Level::Multiplicative => c == '*' || c == '/',
        Level::Power => c == '^',
        Level::Comma => c == ',',
    }
}

/// The depth after the character `c`, given the depth before it.
pub fn step_depth(depth: i128, c: char) -> (r: i128)
    requires
        -0x1_0000_0000_0000_0000 < depth < 0x1_0000_0000_0000_0000,
    ensures
        r == depth + depth_step(c),
{
    if c == '(' || c == '[' {
        depth + 1
    } else if c == ')' || c == ']' {
        depth - 1
    } else {
        depth
    }
}

/// The depth is never more than the number of characters read, nor less than its opposite.
pub proof fn lemma_depth_range(s: Seq<char>, i: int)
    requires
        0 <= i <= s.len(),
    ensures
        -i <= depth_at(s, i) <= i,
    decreases i,
{
    if i > 0 {
        lemma_depth_range(s, i - 1);
    }
}

/// Finds the last operator of the given level outside all parentheses and brackets.
pub fn find_last_op(s: &[char], level: Level) -> (r: Option<usize>)
    ensures
        match r {
            Some(p) => last_op(s@, level, s@.len() as int) == Some(p as int) && p < s@.len(),
            None => last_op(s@, level, s@.len() as int) is None,
        },
{
    let n = s.len();
    let mut depth: i128 = 0;
    let mut found: Option<usize> = None;
    let mut i: usize = 0;
    while i < n
        invariant
            n == s@.len(),
            i <= n,
            depth == depth_at(s@, i as int),
            match found {
                Some(p) => last_op(s@, level, i as int) == Some(p as int) && p < i,
                None => last_op(s@, level, i as int) is None,
            },
        decreases n - i,
    {
        proof {
            lemma_depth_range(s@, i as int);
        }
        if depth == 0 && is_op(s, level, i) {
            found = Some(i);
        }
        depth = step_depth(depth, s[i]);
        i += 1;
    }
    found
}

/// Whether the text from position `i` on reads `upper`, where each letter may
/// also be the one at the same place in `lower`.
pub open spec fn matches_word(s: Seq<char>, i: int, upper: Seq<char>, lower: Seq<char>) -> bool {
    &&& 0 <= i
    &&& i + upper.len() <= s.len()
    &&& forall|k: int| 0 <= k < upper.len() ==> s[i + k] == upper[k] || s[i + k] == lower[k]
}

/// Whether the word given by `upper` and `lower` stands at position `i` with no
/// name character next to it on either side.
pub open spec fn keyword_at(s: Seq<char>, i: int, upper: Seq<char>, lower: Seq<char>) -> bool {
    &&& matches_word(s, i, upper, lower)
    &&& (i == 0 || !is_word_char(s[i - 1]))
    &&& (i + upper.len() == s.len() || !is_word_char(s[i + upper.len()]))
}

/// Whether the keyword stands at position `i`.
pub fn at_keyword(s: &[char], i: usize, upper: &str, lower: &str) -> (r: bool)
    requires
        upper@.len() == lower@.len(),
        i <= s@.len(),
    ensures
        r == keyword_at(s@, i as int, upper@, lower@),
{
    let n = s.len();
    let m = upper.unicode_len();
    if m > n - i {
        return false;
    }
    if i > 0 && word_char(s[i - 1]) {
        return false;
    }
    if i + m < n && word_char(s[i + m]) {
        return false;
    }
    let mut k: usize = 0;
    while k < m
        invariant
            n == s@.len(),
            m == upper@.len(),
            m == lower@.len(),
            i + m <= n,
            k <= m,
            forall|j: int| 0 <= j < k ==> s@[i + j] == upper@[j] || s@[i + j] == lower@[j],
        decreases m - k,
    {
        let c = s[i + k];
        if c != upper.get_char(k) && c != lower.get_char(k) {
            return false;
        }
        k += 1;
    }
    true
}

/// The first position from `i` on that holds no digit.
pub open spec fn skip_digits(s: Seq<char>, i: int) -> int
    decreases s.len() - i,
{
    if 0 <= i < s.len() && is_digit(s[i]) {
        skip_digits(s, i + 1)
    } else {
        i
    }
}

/// A decimal numeral: digits with at most one decimal point among them, and at
/// least one digit.
pub open spec fn is_number(s: Seq<char>) -> bool {
    let p = skip_digits(s, 0);
    if p >= s.len() {
        s.len() > 0
    } else {
        s[p] == '.' && skip_digits(s, p + 1) >= s.len() && s.len() >= 2
    }
}

/// A non-empty run of letters, digits and underscores.
pub open spec fn is_word(s: Seq<char>) -> bool {
    s.len() > 0 && forall|i: int| 0 <= i < s.len() ==> is_word_char(s[i])
}

/// One of the words `IF`, `THEN`, `ELSE`, in any mix of upper and lower case.
pub open spec fn is_keyword(s: Seq<char>) -> bool {
    ||| (s.len() == 2 && matches_word(s, 0, "IF"@, "if"@))
    ||| (s.len() == 4 && matches_word(s, 0, "THEN"@, "then"@))
    ||| (s.len() == 4 && matches_word(s, 0, "ELSE"@, "else"@))
}

/// A name: a word that does not start with a digit and is no keyword.
pub open spec fn is_identifier(s: Seq<char>) -> bool {
    is_word(s) && !is_digit(s[0]) && !is_keyword(s)
}

fn digits_end(s: &[char], from: usize) -> (r: usize)
    requires
        from <= s@.len(),
    ensures
        r == skip_digits(s@, from as int),
        from <= r <= s@.len(),
{
    let n = s.len();
    let mut i: usize = from;
    while i < n && digit(s[i])
        invariant
            n == s@.len(),
            from <= i <= n,
            skip_digits(s@, from as int) == skip_digits(s@, i as int),
        decreases n - i,
    {
        i += 1;
    }
    i
}

/// Whether the text is a decimal numeral.
pub fn number(s: &[char]) -> (r: bool)
    ensures
        r == is_number(s@),
{
    let n = s.len();
    let p = digits_end(s, 0);
    if p >= n {
        n > 0
    } else {
        s[p] == '.' && digits_end(s, p + 1) >= n && n >= 2
    }
}

/// Whether the text is a non-empty run of name characters.
pub fn word(s: &[char]) -> (r: bool)
    ensures
        r == is_word(s@),
{
    let n = s.len();
    if n == 0 {
        return false;
    }
    let mut i: usize = 0;
    while i < n
        invariant
            n == s@.len(),
            i <= n,
            forall|k: int| 0 <= k < i ==> is_word_char(s@[k]),
        decreases n - i,
    {
        if !word_char(s[i]) {
            return false;
        }
        i += 1;
    }
    true
}

/// Whether the text is a name.
pub fn identifier(s: &[char]) -> (r: bool)
    ensures
        r == is_identifier(s@),
{
    if !word(s) {
        return false;
    }
    if digit(s[0]) {
        return false;
    }
    let n = s.len();
    proof {
        reveal_strlit("IF");
        reveal_strlit("if");
        reveal_strlit("THEN");
        reveal_strlit("then");
        reveal_strlit("ELSE");
        reveal_strlit("else");
    }
    if n == 2 && at_keyword(s, 0, "IF", "if") {
        return false;
    }
    if n == 4 && (at_keyword(s, 0, "THEN", "then") || at_keyword(s, 0, "ELSE", "else")) {
        return false;
    }
    true
}

} // verus!
