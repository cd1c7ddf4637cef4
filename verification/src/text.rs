//! Characters, blank space, comments, identifiers and number literals.
//!
//! A source text is handled as the sequence of its characters; a position is an
//! index into that sequence. Every lexical rule is first stated as a spec
//! function over `(text, position)` and then implemented by an executable
//! function proved equal to it.
use vstd::prelude::*;

verus! {

/// `String::push` appends one character to the end of the string.
pub assume_specification[ String::push ](string: &mut String, ch: char)
    ensures
        final(string)@ == old(string)@.push(ch),
;

// ---------------------------------------------------------------------------
// Character classes
// ---------------------------------------------------------------------------

/// Blank space: space, tab, newline or carriage return.
pub open spec fn is_space(c: char) -> bool {
    c == ' ' || c == '\t' || c == '\n' || c == '\r'
}

/// A character that may start an identifier: an ASCII letter or `_`.
pub open spec fn is_word_start(c: char) -> bool {
    ('a' <= c && c <= 'z') || ('A' <= c && c <= 'Z') || c == '_'
}

/// An ASCII decimal digit.
pub open spec fn is_digit(c: char) -> bool {
    '0' <= c && c <= '9'
}

/// A character that may continue an identifier.
pub open spec fn is_word_char(c: char) -> bool {
    is_word_start(c) || is_digit(c)
}

/// The text holds character `c` at position `p`.
pub open spec fn char_at(s: Seq<char>, p: int, c: char) -> bool {
    0 <= p < s.len() && s[p] == c
}

/// The text holds the characters `t` starting at position `p`.
pub open spec fn lit_at(s: Seq<char>, p: int, t: Seq<char>) -> bool {
    0 <= p && p + t.len() <= s.len() && s.subrange(p, p + t.len()) == t
}

// ---------------------------------------------------------------------------
// Blank space and comments
// ---------------------------------------------------------------------------

/// The first position at or after `p` that holds a newline, or the end of the text.
pub open spec fn line_end(s: Seq<char>, p: int) -> int
    decreases s.len() - p,
{
    if 0 <= p < s.len() && s[p] != '\n' {
        line_end(s, p + 1)
    } else {
        p
    }
}

pub broadcast proof fn lemma_line_end(s: Seq<char>, p: int)
    ensures
        p <= #[trigger] line_end(s, p),
        p <= s.len() ==> line_end(s, p) <= s.len(),
    decreases s.len() - p,
{
    if 0 <= p < s.len() && s[p] != '\n' {
        lemma_line_end(s, p + 1);
    }
}

/// The rule `_`: any run of blank characters and line comments (`//` or `///`
/// up to the end of the line). Gives the position where the run ends.
pub open spec fn skip_ws(s: Seq<char>, p: int) -> int
    decreases s.len() - p,
{
    if 0 <= p < s.len() && is_space(s[p]) {
        skip_ws(s, p + 1)
    } else if 0 <= p && lit_at(s, p, seq!['/', '/']) {
        proof {
            lemma_line_end(s, p + 2);
        }
        skip_ws(s, line_end(s, p + 2))
    } else {
        p
    }
}

pub broadcast proof fn lemma_skip_ws(s: Seq<char>, p: int)
    ensures
        p <= #[trigger] skip_ws(s, p),
        p <= s.len() ==> skip_ws(s, p) <= s.len(),
    decreases s.len() - p,
{
    if 0 <= p < s.len() && is_space(s[p]) {
        lemma_skip_ws(s, p + 1);
    } else if 0 <= p && lit_at(s, p, seq!['/', '/']) {
        lemma_line_end(s, p + 2);
        lemma_skip_ws(s, line_end(s, p + 2));
    }
}

/// The end of the run of blank characters (no comments) that starts at `p`.
pub open spec fn space_run(s: Seq<char>, p: int) -> int
    decreases s.len() - p,
{
    if 0 <= p < s.len() && is_space(s[p]) {
        space_run(s, p + 1)
    } else {
        p
    }
}

pub broadcast proof fn lemma_space_run(s: Seq<char>, p: int)
    ensures
        p <= #[trigger] space_run(s, p),
        p <= s.len() ==> space_run(s, p) <= s.len(),
    decreases s.len() - p,
{
    if 0 <= p < s.len() && is_space(s[p]) {
        lemma_space_run(s, p + 1);
    }
}

/// The rule `__`: one or more blank characters (comments are not allowed here).
pub open spec fn skip_ws1(s: Seq<char>, p: int) -> Option<int> {
    if 0 <= p < s.len() && is_space(s[p]) {
        Some(space_run(s, p + 1))
    } else {
        None
    }
}

pub broadcast proof fn lemma_skip_ws1(s: Seq<char>, p: int)
    ensures
        #[trigger] skip_ws1(s, p) matches Some(q) ==> p < q <= s.len(),
{
    if 0 <= p < s.len() && is_space(s[p]) {
        lemma_space_run(s, p + 1);
    }
}

// ---------------------------------------------------------------------------
// Identifiers and numbers
// ---------------------------------------------------------------------------

/// The end of the run of identifier characters that starts at `p`.
pub open spec fn word_run(s: Seq<char>, p: int) -> int
    decreases s.len() - p,
{
    if 0 <= p < s.len() && is_word_char(s[p]) {
        word_run(s, p + 1)
    } else {
        p
    }
}

pub broadcast proof fn lemma_word_run(s: Seq<char>, p: int)
    ensures
        p <= #[trigger] word_run(s, p),
        p <= s.len() ==> word_run(s, p) <= s.len(),
    decreases s.len() - p,
{
    if 0 <= p < s.len() && is_word_char(s[p]) {
        lemma_word_run(s, p + 1);
    }
}

/// The end of the run of digits that starts at `p`.
pub open spec fn digit_run(s: Seq<char>, p: int) -> int
    decreases s.len() - p,
{
    if 0 <= p < s.len() && is_digit(s[p]) {
        digit_run(s, p + 1)
    } else {
        p
    }
}

pub broadcast proof fn lemma_digit_run(s: Seq<char>, p: int)
    ensures
        p <= #[trigger] digit_run(s, p),
        p <= s.len() ==> digit_run(s, p) <= s.len(),
    decreases s.len() - p,
{
    if 0 <= p < s.len() && is_digit(s[p]) {
        lemma_digit_run(s, p + 1);
    }
}

/// The length of the reserved word that the text holds at `p`, tried in the order
/// `let`, `fn`, `enum`, `struct`, `switch`, `for`, `interface`, `return`, `extern`,
/// `pub`; zero when none of them is there.
pub open spec fn keyword_len(s: Seq<char>, p: int) -> int {
    if lit_at(s, p, seq!['l', 'e', 't']) {
        3
    } else if lit_at(s, p, seq!['f', 'n']) {
        2
    } else if lit_at(s, p, seq!['e', 'n', 'u', 'm']) {
        4
    } else if lit_at(s, p, seq!['s', 't', 'r', 'u', 'c', 't']) {
        6
    } else if lit_at(s, p, seq!['s', 'w', 'i', 't', 'c', 'h']) {
        6
    } else if lit_at(s, p, seq!['f', 'o', 'r']) {
        3
    } else if lit_at(s, p, seq!['i', 'n', 't', 'e', 'r', 'f', 'a', 'c', 'e']) {
        9
    } else if lit_at(s, p, seq!['r', 'e', 't', 'u', 'r', 'n']) {
        6
    } else if lit_at(s, p, seq!['e', 'x', 't', 'e', 'r', 'n']) {
        6
    } else if lit_at(s, p, seq!['p', 'u', 'b']) {
        3
    } else {
        0
    }
}

/// A reserved word stands at `p`: one of the words of `keyword_len`, not followed
/// by an identifier character.
pub open spec fn keyword_at(s: Seq<char>, p: int) -> bool {
    let n = keyword_len(s, p);
    n > 0 && !(0 <= p + n < s.len() && is_word_char(s[p + n]))
}

/// An identifier at `p`: a letter or `_` followed by letters, digits and `_`.
/// When `reserved` holds, a reserved word (`keyword_at`) is not an identifier.
/// Gives the identifier's characters and the position after it.
pub open spec fn ident(s: Seq<char>, p: int, reserved: bool) -> Option<(Seq<char>, int)> {
    if reserved && keyword_at(s, p) {
        None
    } else if 0 <= p < s.len() && is_word_start(s[p]) {
        let e = word_run(s, p + 1);
        Some((s.subrange(p, e), e))
    } else {
        None
    }
}

pub broadcast proof fn lemma_ident(s: Seq<char>, p: int, reserved: bool)
    ensures
        #[trigger] ident(s, p, reserved) matches Some((_, q)) ==> p < q <= s.len(),
{
    if 0 <= p < s.len() {
        lemma_word_run(s, p + 1);
    }
}

/// A number literal at `p`: digits, then optionally a `.` and more digits.
/// Gives the literal's characters and the position after it.
pub open spec fn number(s: Seq<char>, p: int) -> Option<(Seq<char>, int)> {
    if 0 <= p < s.len() && is_digit(s[p]) {
        let a = digit_run(s, p + 1);
        let e = if char_at(s, a, '.') && a + 1 < s.len() && is_digit(s[a + 1]) {
            digit_run(s, a + 2)
        } else {
            a
        };
        Some((s.subrange(p, e), e))
    } else {
        None
    }
}

pub broadcast proof fn lemma_number(s: Seq<char>, p: int)
    ensures
        #[trigger] number(s, p) matches Some((_, q)) ==> p < q <= s.len(),
{
    if 0 <= p < s.len() && is_digit(s[p]) {
        lemma_digit_run(s, p + 1);
        let a = digit_run(s, p + 1);
        if char_at(s, a, '.') && a + 1 < s.len() && is_digit(s[a + 1]) {
            lemma_digit_run(s, a + 2);
        }
    }
}


/// The first position at or after `p` that holds `c`, or the end of the text.
pub open spec fn until_char(s: Seq<char>, p: int, c: char) -> int
    decreases s.len() - p,
{
    if 0 <= p < s.len() && s[p] != c {
        until_char(s, p + 1, c)
    } else {
        p
    }
}

pub broadcast proof fn lemma_until_char(s: Seq<char>, p: int, c: char)
    ensures
        p <= #[trigger] until_char(s, p, c),
        p <= s.len() ==> until_char(s, p, c) <= s.len(),
    decreases s.len() - p,
{
    if 0 <= p < s.len() && s[p] != c {
        lemma_until_char(s, p + 1, c);
    }
}

/// The end of a run of string text starting at `p`: it stops before the
/// character `stop` and before an interpolation opener `\(`.
pub open spec fn text_run(s: Seq<char>, p: int, stop: char) -> int
    decreases s.len() - p,
{
    if 0 <= p < s.len() && s[p] != stop && !lit_at(s, p, seq!['\\', '(']) {
        text_run(s, p + 1, stop)
    } else {
        p
    }
}

pub broadcast proof fn lemma_text_run(s: Seq<char>, p: int, stop: char)
    ensures
        p <= #[trigger] text_run(s, p, stop),
        p <= s.len() ==> text_run(s, p, stop) <= s.len(),
    decreases s.len() - p,
{
    if 0 <= p < s.len() && s[p] != stop && !lit_at(s, p, seq!['\\', '(']) {
        lemma_text_run(s, p + 1, stop);
    }
}

pub broadcast group group_text_bounds {
    lemma_until_char,
    lemma_text_run,
    lemma_line_end,
    lemma_skip_ws,
    lemma_space_run,
    lemma_skip_ws1,
    lemma_word_run,
    lemma_digit_run,
    lemma_ident,
    lemma_number,
}

// ---------------------------------------------------------------------------
// Executable counterparts
// ---------------------------------------------------------------------------

/// The characters of `text`, in order.
pub fn chars_of(text: &str) -> (v: Vec<char>)
    ensures
        v@ == text@,
{
    let mut v: Vec<char> = Vec::new();
    for c in it: text.chars()
        invariant
            v@ == it.seq().take(it.index() as int),
            it.seq() == text@,
    {
        v.push(c);
    }
    v
}

/// The characters of `s` from `from` up to (not including) `to`, as a string.
pub fn text_of(s: &Vec<char>, from: usize, to: usize) -> (r: String)
    requires
        from <= to <= s.len(),
    ensures
        r@ == s@.subrange(from as int, to as int),
{
    let mut r = String::new();
    let mut i = from;
    while i < to
        invariant
            from <= i <= to <= s.len(),
            r@ == s@.subrange(from as int, i as int),
        decreases to - i,
    {
        r.push(s[i]);
        assert(s@.subrange(from as int, i + 1) =~= s@.subrange(from as int, i as int).push(
            s@[i as int],
        ));
        i = i + 1;
    }
    r
}

/// Whether the text holds character `c` at `p`.
pub fn at_char(s: &Vec<char>, p: usize, c: char) -> (r: bool)
    ensures
        r == char_at(s@, p as int, c),
{
    p < s.len() && s[p] == c
}

/// Whether the text holds the characters `t` at `p`.
pub fn at_lit(s: &Vec<char>, p: usize, t: &[char]) -> (r: bool)
    ensures
        r == lit_at(s@, p as int, t@),
        r ==> p + t@.len() <= s@.len(),
{
    if p > s.len() || t.len() > s.len() - p {
        return false;
    }
    let mut i: usize = 0;
    while i < t.len()
        invariant
            i <= t.len(),
            p + t.len() <= s.len(),
            forall|j: int| 0 <= j < i ==> s@[p + j] == t@[j],
        decreases t.len() - i,
    {
        if s[p + i] != t[i] {
            assert(s@.subrange(p as int, p + t.len())[i as int] != t@[i as int]);
            return false;
        }
        i = i + 1;
    }
    assert(s@.subrange(p as int, p + t.len()) =~= t@);
    true
}

fn space_char(c: char) -> (r: bool)
    ensures
        r == is_space(c),
{
    c == ' ' || c == '\t' || c == '\n' || c == '\r'
}

fn word_start_char(c: char) -> (r: bool)
    ensures
        r == is_word_start(c),
{
    ('a' <= c && c <= 'z') || ('A' <= c && c <= 'Z') || c == '_'
}

fn digit_char(c: char) -> (r: bool)
    ensures
        r == is_digit(c),
{
    '0' <= c && c <= '9'
}

fn word_char(c: char) -> (r: bool)
    ensures
        r == is_word_char(c),
{
    word_start_char(c) || digit_char(c)
}

/// Implements `line_end`.
pub fn find_line_end(s: &Vec<char>, p: usize) -> (r: usize)
    requires
        p <= s.len(),
    ensures
        r == line_end(s@, p as int),
        p <= r <= s.len(),
{
    let mut q = p;
    while q < s.len() && s[q] != '\n'
        invariant
            p <= q <= s.len(),
            line_end(s@, p as int) == line_end(s@, q as int),
        decreases s.len() - q,
    {
        q = q + 1;
    }
    q
}

/// Implements the rule `_` (`skip_ws`).
pub fn ws(s: &Vec<char>, p: usize) -> (r: usize)
    requires
        p <= s.len(),
    ensures
        r == skip_ws(s@, p as int),
        p <= r <= s.len(),
{
    let mut q = p;
    loop
        invariant
            p <= q <= s.len(),
            skip_ws(s@, p as int) == skip_ws(s@, q as int),
        decreases s.len() - q,
    {
        if q < s.len() && space_char(s[q]) {
            q = q + 1;
        } else if at_lit(s, q, &['/', '/']) {
            q = find_line_end(s, q + 2);
        } else {
            return q;
        }
    }
}

/// Implements the rule `__` (`skip_ws1`).
pub fn ws1(s: &Vec<char>, p: usize) -> (r: Option<usize>)
    requires
        p <= s.len(),
    ensures
        match r {
            Some(q) => skip_ws1(s@, p as int) == Some(q as int),
            None => skip_ws1(s@, p as int) is None,
        },
        r matches Some(q) ==> p < q <= s.len(),
{
    if p < s.len() && space_char(s[p]) {
        let mut q = p + 1;
        while q < s.len() && space_char(s[q])
            invariant
                p < q <= s.len(),
                space_run(s@, p + 1) == space_run(s@, q as int),
            decreases s.len() - q,
        {
            q = q + 1;
        }
        Some(q)
    } else {
        None
    }
}

fn scan_word(s: &Vec<char>, p: usize) -> (r: usize)
    requires
        p <= s.len(),
    ensures
        r == word_run(s@, p as int),
        p <= r <= s.len(),
{
    let mut q = p;
    while q < s.len() && word_char(s[q])
        invariant
            p <= q <= s.len(),
            word_run(s@, p as int) == word_run(s@, q as int),
        decreases s.len() - q,
    {
        q = q + 1;
    }
    q
}

fn scan_digits(s: &Vec<char>, p: usize) -> (r: usize)
    requires
        p <= s.len(),
    ensures
        r == digit_run(s@, p as int),
        p <= r <= s.len(),
{
    let mut q = p;
    while q < s.len() && digit_char(s[q])
        invariant
            p <= q <= s.len(),
            digit_run(s@, p as int) == digit_run(s@, q as int),
        decreases s.len() - q,
    {
        q = q + 1;
    }
    q
}

/// Implements `keyword_at`.
pub fn reserved_at(s: &Vec<char>, p: usize) -> (r: bool)
    ensures
        r == keyword_at(s@, p as int),
{
    let n: usize = if at_lit(s, p, &['l', 'e', 't']) {
        3
    } else if at_lit(s, p, &['f', 'n']) {
        2
    } else if at_lit(s, p, &['e', 'n', 'u', 'm']) {
        4
    } else if at_lit(s, p, &['s', 't', 'r', 'u', 'c', 't']) {
        6
    } else if at_lit(s, p, &['s', 'w', 'i', 't', 'c', 'h']) {
        6
    } else if at_lit(s, p, &['f', 'o', 'r']) {
        3
    } else if at_lit(s, p, &['i', 'n', 't', 'e', 'r', 'f', 'a', 'c', 'e']) {
        9
    } else if at_lit(s, p, &['r', 'e', 't', 'u', 'r', 'n']) {
        6
    } else if at_lit(s, p, &['e', 'x', 't', 'e', 'r', 'n']) {
        6
    } else if at_lit(s, p, &['p', 'u', 'b']) {
        3
    } else {
        0
    };
    assert(n == keyword_len(s@, p as int));
    if n == 0 {
        return false;
    }
    !(p < s.len() && n < s.len() - p && word_char(s[p + n]))
}

/// Implements `ident`.
pub fn scan_ident(s: &Vec<char>, p: usize, reserved: bool) -> (r: Option<(String, usize)>)
    requires
        p <= s.len(),
    ensures
        match r {
            Some((name, q)) => ident(s@, p as int, reserved) == Some((name@, q as int)),
            None => ident(s@, p as int, reserved) is None,
        },
        r matches Some((_, q)) ==> p < q <= s.len(),
{
    if reserved && reserved_at(s, p) {
        return None;
    }
    if p < s.len() && word_start_char(s[p]) {
        let e = scan_word(s, p + 1);
        Some((text_of(s, p, e), e))
    } else {
        None
    }
}

/// Implements `number`.
pub fn scan_number(s: &Vec<char>, p: usize) -> (r: Option<(String, usize)>)
    requires
        p <= s.len(),
    ensures
        match r {
            Some((lexeme, q)) => number(s@, p as int) == Some((lexeme@, q as int)),
            None => number(s@, p as int) is None,
        },
        r matches Some((_, q)) ==> p < q <= s.len(),
{
    if p < s.len() && digit_char(s[p]) {
        let a = scan_digits(s, p + 1);
        let e = if at_char(s, a, '.') && a + 1 < s.len() && digit_char(s[a + 1]) {
            scan_digits(s, a + 2)
        } else {
            a
        };
        Some((text_of(s, p, e), e))
    } else {
        None
    }
}


/// Implements `until_char`.
pub fn scan_until(s: &Vec<char>, p: usize, c: char) -> (r: usize)
    requires
        p <= s.len(),
    ensures
        r == until_char(s@, p as int, c),
        p <= r <= s.len(),
{
    let mut q = p;
    while q < s.len() && s[q] != c
        invariant
            p <= q <= s.len(),
            until_char(s@, p as int, c) == until_char(s@, q as int, c),
        decreases s.len() - q,
    {
        q = q + 1;
    }
    q
}

/// Implements `text_run`.
pub fn scan_text(s: &Vec<char>, p: usize, stop: char) -> (r: usize)
    requires
        p <= s.len(),
    ensures
        r == text_run(s@, p as int, stop),
        p <= r <= s.len(),
{
    let mut q = p;
    while q < s.len() && s[q] != stop && !at_lit(s, q, &['\\', '('])
        invariant
            p <= q <= s.len(),
            text_run(s@, p as int, stop) == text_run(s@, q as int, stop),
        decreases s.len() - q,
    {
        q = q + 1;
    }
    q
}

} // verus!
