// jargon.rs — internal vocabulary exported to readers who do not share it.
// Under the Practice register a registry term passes when the document
// defines it: a Japanese gloss in brackets next to its first use, 「とは」
// right after it, or a glossary (the first column of a markdown or HTML table,
// or an HTML <dt>). Under the Consume register any use in the prose outside
// monospace identifier contexts is reported, defined or not.
use vstd::prelude::*;

use crate::text::strings_view;

use crate::counter::{is_ascii_letter, lemma_runs as lemma_word_runs, run_word};
use crate::prose::{ci_eq, ci_eq_exec, is_ascii_alnum};
use crate::text::{
    chars_of, contains, contains_word, find, find_from, join_with, lemma_find_from, lemma_seqs_of_push, lines_of,
    occurs_at, push_all, replace_all, replace_exec, seqs_of, slice_of, split_lines, string_of, trim, trimmed, vec_eq,
};
use crate::unicode::{is_white_space, is_word_char, white_space, word_char};

verus! {

/// A registry term used without what the register asks for.
pub struct Finding {
    pub line: usize,
    pub rule: &'static str,
    pub msg: String,
}

/// A finding's model: line, rule, message.
pub type FindV = (int, Seq<char>, Seq<char>);

pub open spec fn find_view(f: Finding) -> FindV {
    (f.line as int, f.rule@, f.msg@)
}

pub open spec fn finds_view(v: Seq<Finding>) -> Seq<FindV> {
    Seq::new(v.len(), |i: int| find_view(v[i]))
}

// ---------------------------------------------------------------------------
// Latin tokens (`[a-zA-Z][a-zA-Z_-]*`) of two characters or more.

/// The latin tokens of `s[i..]`, leftmost first.
pub open spec fn tokens_from(s: Seq<char>, i: int) -> Seq<Seq<char>>
    decreases s.len() - i,
{
    if i < 0 || i >= s.len() {
        Seq::empty()
    } else if is_ascii_letter(s[i]) {
        proof {
            lemma_word_runs(s, i + 1);
        }
        let e = run_word(s, i + 1);
        (if e - i >= 2 {
            seq![s.subrange(i, e)]
        } else {
            Seq::empty()
        }) + tokens_from(s, e)
    } else {
        tokens_from(s, i + 1)
    }
}

/// The latin tokens of two characters or more of `s`.
pub open spec fn long_tokens(s: Seq<char>) -> Seq<Seq<char>> {
    tokens_from(s, 0)
}

fn long_tokens_exec(s: &Vec<char>, out: &mut Vec<Vec<char>>)
    ensures
        seqs_of(final(out)@) == seqs_of(old(out)@) + long_tokens(s@),
{
    let ghost o0 = seqs_of(out@);
    let mut i: usize = 0;
    while i < s.len()
        invariant
            i <= s.len(),
            o0 + long_tokens(s@) == seqs_of(out@) + tokens_from(s@, i as int),
        decreases s.len() - i,
    {
        if ('a' <= s[i] && s[i] <= 'z') || ('A' <= s[i] && s[i] <= 'Z') {
            proof {
                lemma_word_runs(s@, i + 1);
            }
            let mut e = i + 1;
            while e < s.len() && (('a' <= s[e] && s[e] <= 'z') || ('A' <= s[e] && s[e] <= 'Z') || s[e] == '_' || s[e]
                == '-')
                invariant
                    i + 1 <= e <= s.len(),
                    run_word(s@, i + 1) == run_word(s@, e as int),
                decreases s.len() - e,
            {
                e = e + 1;
            }
            let ghost b = seqs_of(out@);
            if e - i >= 2 {
                let t = slice_of(s, i, e);
                proof {
                    lemma_seqs_of_push(out@, t);
                }
                out.push(t);
                assert(seqs_of(out@) + tokens_from(s@, e as int) =~= b + tokens_from(s@, i as int));
            } else {
                assert(seqs_of(out@) + tokens_from(s@, e as int) =~= b + tokens_from(s@, i as int));
            }
            i = e;
        } else {
            i = i + 1;
        }
    }
    assert(seqs_of(out@) + tokens_from(s@, i as int) =~= seqs_of(out@));
}

// ---------------------------------------------------------------------------
// Table cells.

/// The index of the first `c` at or after `j`, or the length.
pub open spec fn next_char(s: Seq<char>, j: int, c: char) -> int
    decreases s.len() - j,
{
    if j < 0 || j >= s.len() || s[j] == c {
        j
    } else {
        next_char(s, j + 1, c)
    }
}

pub proof fn lemma_next_char(s: Seq<char>, j: int, c: char)
    requires
        0 <= j <= s.len(),
    ensures
        j <= next_char(s, j, c) <= s.len(),
        next_char(s, j, c) < s.len() ==> s[next_char(s, j, c)] == c,
        forall|k: int| j <= k < next_char(s, j, c) ==> s[k] != c,
    decreases s.len() - j,
{
    if j < s.len() && s[j] != c {
        lemma_next_char(s, j + 1, c);
    }
}

fn next_char_exec(s: &Vec<char>, j: usize, c: char) -> (r: usize)
    requires
        j <= s.len(),
    ensures
        r == next_char(s@, j as int, c),
{
    let mut k = j;
    while k < s.len() && s[k] != c
        invariant
            j <= k <= s.len(),
            next_char(s@, j as int, c) == next_char(s@, k as int, c),
        decreases s.len() - k,
    {
        k = k + 1;
    }
    k
}

/// The text between the first and the second `|` of a line (`split('|').nth(1)`).
pub open spec fn pipe_cell(l: Seq<char>) -> Option<Seq<char>> {
    let p = next_char(l, 0, '|');
    if p < l.len() {
        Some(l.subrange(p + 1, next_char(l, p + 1, '|')))
    } else {
        None
    }
}

fn pipe_cell_exec(l: &Vec<char>) -> (r: Option<Vec<char>>)
    ensures
        match r {
            Some(c) => pipe_cell(l@) == Some(c@),
            None => pipe_cell(l@) is None,
        },
{
    proof {
        lemma_next_char(l@, 0, '|');
    }
    let p = next_char_exec(l, 0, '|');
    if p < l.len() {
        proof {
            lemma_next_char(l@, p + 1, '|');
        }
        let q = next_char_exec(l, p + 1, '|');
        Some(slice_of(l, p + 1, q))
    } else {
        None
    }
}

/// End of the run of White_Space starting at `j`.
pub open spec fn run_white(s: Seq<char>, j: int) -> int
    decreases s.len() - j,
{
    if 0 <= j < s.len() && is_white_space(s[j]) {
        run_white(s, j + 1)
    } else {
        j
    }
}

pub proof fn lemma_run_white(s: Seq<char>, j: int)
    requires
        0 <= j <= s.len(),
    ensures
        j <= run_white(s, j) <= s.len(),
    decreases s.len() - j,
{
    if j < s.len() {
        lemma_run_white(s, j + 1);
    }
}

fn run_white_exec(s: &Vec<char>, j: usize) -> (r: usize)
    requires
        j <= s.len(),
    ensures
        r == run_white(s@, j as int),
        j <= r <= s.len(),
{
    let mut k = j;
    while k < s.len() && white_space(s[k])
        invariant
            j <= k <= s.len(),
            run_white(s@, j as int) == run_white(s@, k as int),
        decreases s.len() - k,
    {
        k = k + 1;
    }
    k
}

/// A registry row: `|`, blanks, then a backquote.
pub open spec fn is_term_row(l: Seq<char>) -> bool {
    l.len() > 0 && l[0] == '|' && run_white(l, 1) < l.len() && l[run_white(l, 1)] == '`'
}

/// `s` without leading and trailing backquotes.
pub open spec fn trim_ticks(s: Seq<char>) -> Seq<char> {
    let a = drop_front_ticks(s);
    drop_back_ticks(a)
}

pub open spec fn drop_front_ticks(s: Seq<char>) -> Seq<char>
    decreases s.len(),
{
    if s.len() > 0 && s[0] == '`' {
        drop_front_ticks(s.drop_first())
    } else {
        s
    }
}

pub open spec fn drop_back_ticks(s: Seq<char>) -> Seq<char>
    decreases s.len(),
{
    if s.len() > 0 && s.last() == '`' {
        drop_back_ticks(s.drop_last())
    } else {
        s
    }
}

pub open spec fn is_head_end(c: char) -> bool {
    is_white_space(c) || c == '(' || c == '（'
}

/// The prefix of `s` before its first blank or opening bracket.
pub open spec fn head_of(s: Seq<char>) -> Seq<char>
    decreases s.len(),
{
    if s.len() == 0 || is_head_end(s[0]) {
        Seq::empty()
    } else {
        seq![s[0]] + head_of(s.drop_first())
    }
}

/// The terms a registry line contributes: the latin tokens of the head word of its first cell.
pub open spec fn row_terms(l: Seq<char>) -> Seq<Seq<char>> {
    if is_term_row(l) {
        match pipe_cell(l) {
            Some(c) => long_tokens(head_of(trim_ticks(trim(c)))),
            None => Seq::empty(),
        }
    } else {
        Seq::empty()
    }
}

/// Adds the words of `ws` not already in `seen`, in order.
pub open spec fn add_new(seen: Seq<Seq<char>>, ws: Seq<Seq<char>>) -> Seq<Seq<char>>
    decreases ws.len(),
{
    if ws.len() == 0 {
        seen
    } else {
        let s1 = add_new(seen, ws.drop_last());
        if s1.contains(ws.last()) {
            s1
        } else {
            s1.push(ws.last())
        }
    }
}

pub open spec fn terms_lines(ls: Seq<Seq<char>>, k: int) -> Seq<Seq<char>>
    decreases k,
{
    if k <= 0 || k > ls.len() {
        Seq::empty()
    } else {
        add_new(terms_lines(ls, k - 1), row_terms(ls[k - 1]))
    }
}

/// The terms of a vocabulary registry (a markdown table whose first column
/// holds the term in backquotes), each once, in order.
pub open spec fn spec_terms(text: Seq<char>) -> Seq<Seq<char>> {
    let ls = lines_of(text);
    terms_lines(ls, ls.len() as int)
}

fn trim_ticks_exec(s: &Vec<char>) -> (r: Vec<char>)
    ensures
        r@ == trim_ticks(s@),
{
    let mut a: usize = 0;
    assert(s@.subrange(0, s.len() as int) =~= s@);
    while a < s.len() && s[a] == '`'
        invariant
            a <= s.len(),
            drop_front_ticks(s@) == drop_front_ticks(s@.subrange(a as int, s.len() as int)),
        decreases s.len() - a,
    {
        assert(s@.subrange(a as int, s.len() as int).drop_first() =~= s@.subrange(a + 1, s.len() as int));
        a = a + 1;
    }
    let t = slice_of(s, a, s.len());
    let mut b = t.len();
    assert(t@.subrange(0, t.len() as int) =~= t@);
    while b > 0 && t[b - 1] == '`'
        invariant
            b <= t.len(),
            drop_back_ticks(t@) == drop_back_ticks(t@.subrange(0, b as int)),
        decreases b,
    {
        assert(t@.subrange(0, b as int).drop_last() =~= t@.subrange(0, b - 1));
        b = b - 1;
    }
    slice_of(&t, 0, b)
}

fn head_exec(s: &Vec<char>) -> (r: Vec<char>)
    ensures
        r@ == head_of(s@),
{
    let mut e: usize = 0;
    assert(s@.subrange(0, s.len() as int) =~= s@);
    while e < s.len() && !(white_space(s[e]) || s[e] == '(' || s[e] == '（')
        invariant
            e <= s.len(),
            head_of(s@) == s@.subrange(0, e as int) + head_of(s@.subrange(e as int, s.len() as int)),
        decreases s.len() - e,
    {
        assert(s@.subrange(e as int, s.len() as int).drop_first() =~= s@.subrange(e + 1, s.len() as int));
        assert(s@.subrange(0, e + 1) =~= s@.subrange(0, e as int) + seq![s@[e as int]]);
        e = e + 1;
    }
    assert(head_of(s@.subrange(e as int, s.len() as int)) =~= Seq::<char>::empty());
    slice_of(s, 0, e)
}

fn row_terms_exec(l: &Vec<char>) -> (r: Vec<Vec<char>>)
    ensures
        seqs_of(r@) == row_terms(l@),
{
    let mut out: Vec<Vec<char>> = Vec::new();
    assert(seqs_of(out@) =~= Seq::<Seq<char>>::empty());
    if l.len() == 0 || l[0] != '|' {
        return out;
    }
    let j = run_white_exec(l, 1);
    if !(j < l.len() && l[j] == '`') {
        return out;
    }
    match pipe_cell_exec(l) {
        Some(c) => {
            let t = trimmed(&c);
            let u = trim_ticks_exec(&t);
            let h = head_exec(&u);
            long_tokens_exec(&h, &mut out);
            assert(seqs_of(out@) =~= row_terms(l@));
        },
        None => {},
    }
    out
}

fn add_new_exec(seen: &mut Vec<Vec<char>>, ws: &Vec<Vec<char>>)
    ensures
        seqs_of(final(seen)@) == add_new(seqs_of(old(seen)@), seqs_of(ws@)),
{
    let ghost s0 = seqs_of(seen@);
    let ghost g = seqs_of(ws@);
    let mut k: usize = 0;
    assert(g.take(0) =~= Seq::<Seq<char>>::empty());
    while k < ws.len()
        invariant
            k <= ws.len(),
            g == seqs_of(ws@),
            seqs_of(seen@) == add_new(s0, g.take(k as int)),
        decreases ws.len() - k,
    {
        proof {
            assert(g.take(k + 1).drop_last() =~= g.take(k as int));
            assert(g.take(k + 1).last() == ws@[k as int]@);
        }
        if !contains_word(seen, &ws[k]) {
            let w = slice_of(&ws[k], 0, ws[k].len());
            assert(w@ =~= ws@[k as int]@);
            proof {
                lemma_seqs_of_push(seen@, w);
            }
            seen.push(w);
        }
        k = k + 1;
    }
    assert(g.take(ws.len() as int) =~= g);
}

/// The terms of a vocabulary registry text (`load_terms` without the file
/// read): from each row `| `term …` | … |`, the latin tokens (two characters
/// or more) of the head word of the first cell, each term once.
pub fn parse_terms(text: &str) -> (r: Vec<String>)
    ensures
        strings_view(r@) == spec_terms(text@),
{
    let s = chars_of(text);
    let ls = split_lines(&s);
    let ghost g = seqs_of(ls@);
    let mut seen: Vec<Vec<char>> = Vec::new();
    let mut i: usize = 0;
    assert(seqs_of(seen@) =~= Seq::<Seq<char>>::empty());
    while i < ls.len()
        invariant
            i <= ls.len(),
            g == seqs_of(ls@),
            g == lines_of(text@),
            seqs_of(seen@) == terms_lines(g, i as int),
        decreases ls.len() - i,
    {
        let rt = row_terms_exec(&ls[i]);
        add_new_exec(&mut seen, &rt);
        i = i + 1;
    }
    let mut out: Vec<String> = Vec::new();
    let mut k: usize = 0;
    while k < seen.len()
        invariant
            k <= seen.len(),
            strings_view(out@) == seqs_of(seen@).take(k as int),
        decreases seen.len() - k,
    {
        let ghost prev = out@;
        out.push(string_of(&seen[k]));
        assert(strings_view(out@) =~= strings_view(prev).push(seen@[k as int]@));
        k = k + 1;
        assert(strings_view(out@) =~= seqs_of(seen@).take(k as int));
    }
    assert(seqs_of(seen@).take(seen.len() as int) =~= seqs_of(seen@));
    out
}

// ---------------------------------------------------------------------------
// Definitions next to a term.

/// The text in brackets at the start of `s` (after spaces), up to the closing bracket or the end.
pub open spec fn leading_paren(s: Seq<char>) -> Option<Seq<char>> {
    let a = next_not_space(s, 0);
    if a < s.len() && s[a] == '（' {
        Some(s.subrange(a + 1, next_char(s, a + 1, '）')))
    } else if a < s.len() && s[a] == '(' {
        Some(s.subrange(a + 1, next_char(s, a + 1, ')')))
    } else {
        None
    }
}

/// The first index at or after `j` that is not an ASCII space.
pub open spec fn next_not_space(s: Seq<char>, j: int) -> int
    decreases s.len() - j,
{
    if 0 <= j < s.len() && s[j] == ' ' {
        next_not_space(s, j + 1)
    } else {
        j
    }
}

/// The length of `s` without its trailing ASCII spaces.
pub open spec fn end_not_space(s: Seq<char>, e: int) -> int
    decreases e,
{
    if 0 < e <= s.len() && s[e - 1] == ' ' {
        end_not_space(s, e - 1)
    } else {
        e
    }
}

/// The last index before `e` holding `c`, or -1.
pub open spec fn last_char(s: Seq<char>, e: int, c: char) -> int
    decreases e,
{
    if e <= 0 || e > s.len() {
        -1
    } else if s[e - 1] == c {
        e - 1
    } else {
        last_char(s, e - 1, c)
    }
}

/// The text of a bracket closing the end of `s` (before trailing spaces).
pub open spec fn trailing_paren(s: Seq<char>) -> Option<Seq<char>> {
    let e = end_not_space(s, s.len() as int);
    if e > 0 && s[e - 1] == '）' {
        let b = last_char(s, e, '（');
        if b >= 0 {
            Some(s.subrange(b + 1, e - 1))
        } else {
            None
        }
    } else if e > 0 && s[e - 1] == ')' {
        let b = last_char(s, e, '(');
        if b >= 0 {
            Some(s.subrange(b + 1, e - 1))
        } else {
            None
        }
    } else {
        None
    }
}

pub open spec fn is_japanese(c: char) -> bool {
    ('\u{3040}' <= c && c <= '\u{30FF}') || ('\u{4E00}' <= c && c <= '\u{9FFF}')
}

/// Some character of `s` is kana or a CJK ideograph.
pub open spec fn has_japanese(s: Seq<char>) -> bool {
    exists|i: int| 0 <= i < s.len() && is_japanese(#[trigger] s[i])
}

/// A definition next to the first occurrence of `term` in `line`: Japanese in
/// brackets right after or right before it, or 「とは」 within the next six characters.
pub open spec fn defined_near(line: Seq<char>, term: Seq<char>) -> bool {
    match find_from(line, term, 0) {
        None => false,
        Some(pos) => {
            let after = line.subrange(pos + term.len(), line.len() as int);
            let before = line.subrange(0, pos);
            (leading_paren(after) matches Some(p) && has_japanese(p)) || (trailing_paren(before) matches Some(p)
                && has_japanese(p)) || contains(after.take(if after.len() < 6 { after.len() as int } else { 6 }), seq!['と', 'は'])
        },
    }
}

pub proof fn lemma_space_runs(s: Seq<char>, j: int, e: int)
    requires
        0 <= j <= s.len(),
        0 <= e <= s.len(),
    ensures
        j <= next_not_space(s, j) <= s.len(),
        0 <= end_not_space(s, e) <= e,
        -1 <= last_char(s, e, '（') < e,
        -1 <= last_char(s, e, '(') < e,
    decreases s.len() - j + e,
{
    if j < s.len() && s[j] == ' ' {
        lemma_space_runs(s, j + 1, e);
    } else if e > 0 {
        lemma_space_runs(s, j, e - 1);
    }
}

fn leading_paren_chars(s: &Vec<char>) -> (r: Option<Vec<char>>)
    ensures
        match r {
            Some(p) => leading_paren(s@) == Some(p@),
            None => leading_paren(s@) is None,
        },
{
    let mut a: usize = 0;
    while a < s.len() && s[a] == ' '
        invariant
            a <= s.len(),
            next_not_space(s@, 0) == next_not_space(s@, a as int),
        decreases s.len() - a,
    {
        a = a + 1;
    }
    if a < s.len() && s[a] == '（' {
        proof {
            lemma_next_char(s@, a + 1, '）');
        }
        let q = next_char_exec(s, a + 1, '）');
        Some(slice_of(s, a + 1, q))
    } else if a < s.len() && s[a] == '(' {
        proof {
            lemma_next_char(s@, a + 1, ')');
        }
        let q = next_char_exec(s, a + 1, ')');
        Some(slice_of(s, a + 1, q))
    } else {
        None
    }
}

fn last_char_exec(s: &Vec<char>, e: usize, c: char) -> (r: Option<usize>)
    requires
        e <= s.len(),
    ensures
        match r {
            Some(b) => last_char(s@, e as int, c) == b as int && b < e && s@[b as int] == c,
            None => last_char(s@, e as int, c) == -1,
        },
{
    let mut k = e;
    while k > 0 && s[k - 1] != c
        invariant
            k <= e <= s.len(),
            last_char(s@, e as int, c) == last_char(s@, k as int, c),
        decreases k,
    {
        k = k - 1;
    }
    if k > 0 {
        Some(k - 1)
    } else {
        None
    }
}

fn trailing_paren_chars(s: &Vec<char>) -> (r: Option<Vec<char>>)
    ensures
        match r {
            Some(p) => trailing_paren(s@) == Some(p@),
            None => trailing_paren(s@) is None,
        },
{
    let mut e = s.len();
    while e > 0 && s[e - 1] == ' '
        invariant
            e <= s.len(),
            end_not_space(s@, s.len() as int) == end_not_space(s@, e as int),
        decreases e,
    {
        e = e - 1;
    }
    if e > 0 && s[e - 1] == '）' {
        match last_char_exec(s, e, '（') {
            Some(b) => Some(slice_of(s, b + 1, e - 1)),
            None => None,
        }
    } else if e > 0 && s[e - 1] == ')' {
        match last_char_exec(s, e, '(') {
            Some(b) => Some(slice_of(s, b + 1, e - 1)),
            None => None,
        }
    } else {
        None
    }
}

fn has_japanese_chars(s: &Vec<char>) -> (r: bool)
    ensures
        r == has_japanese(s@),
{
    let mut i: usize = 0;
    while i < s.len()
        invariant
            i <= s.len(),
            forall|j: int| 0 <= j < i ==> !is_japanese(#[trigger] s@[j]),
        decreases s.len() - i,
    {
        let c = s[i];
        if ('\u{3040}' <= c && c <= '\u{30FF}') || ('\u{4E00}' <= c && c <= '\u{9FFF}') {
            assert(is_japanese(s@[i as int]));
            return true;
        }
        i = i + 1;
    }
    false
}

/// Some character is kana or a CJK ideograph (`contains_japanese`).
pub fn contains_japanese(s: &str) -> (r: bool)
    ensures
        r == has_japanese(s@),
{
    let v = chars_of(s);
    has_japanese_chars(&v)
}

/// The text in brackets at the start of `s`, after spaces (`leading_paren_content`).
pub fn leading_paren_content(s: &str) -> (r: Option<String>)
    ensures
        match r {
            Some(p) => leading_paren(s@) == Some(p@),
            None => leading_paren(s@) is None,
        },
{
    let v = chars_of(s);
    match leading_paren_chars(&v) {
        Some(p) => Some(string_of(&p)),
        None => None,
    }
}

/// The text of the bracket that closes `s`, before trailing spaces (`trailing_paren_content`).
pub fn trailing_paren_content(s: &str) -> (r: Option<String>)
    ensures
        match r {
            Some(p) => trailing_paren(s@) == Some(p@),
            None => trailing_paren(s@) is None,
        },
{
    let v = chars_of(s);
    match trailing_paren_chars(&v) {
        Some(p) => Some(string_of(&p)),
        None => None,
    }
}

fn defined_near_chars(line: &Vec<char>, term: &Vec<char>) -> (r: bool)
    ensures
        r == defined_near(line@, term@),
{
    proof {
        lemma_find_from(line@, term@, 0);
    }
    match find(line, term, 0) {
        None => false,
        Some(pos) => {
            assert(occurs_at(line@, term@, pos as int));
            let ll = line.len();
            assert(pos + term.len() <= ll);
            let after = slice_of(line, pos + term.len(), line.len());
            let before = slice_of(line, 0, pos);
            match leading_paren_chars(&after) {
                Some(p) => {
                    if has_japanese_chars(&p) {
                        return true;
                    }
                },
                None => {},
            }
            match trailing_paren_chars(&before) {
                Some(p) => {
                    if has_japanese_chars(&p) {
                        return true;
                    }
                },
                None => {},
            }
            let n = if after.len() < 6 {
                after.len()
            } else {
                6
            };
            let head = slice_of(&after, 0, n);
            let towa = vec!['と', 'は'];
            assert(towa@ =~= seq!['と', 'は']);
            assert(head@ =~= after@.take(n as int));
            crate::text::has(&head, &towa)
        },
    }
}

/// A definition next to the first occurrence of `term` in `line`
/// (`has_definition_nearby`).
pub fn has_definition_nearby(line: &str, term: &str) -> (r: bool)
    ensures
        r == defined_near(line@, term@),
{
    let l = chars_of(line);
    let t = chars_of(term);
    defined_near_chars(&l, &t)
}

// ---------------------------------------------------------------------------
// Whole-word occurrences.

pub open spec fn is_id_char(c: char) -> bool {
    is_ascii_alnum(c) || c == '_'
}

/// `term` occurs at `q` as a whole word (no letter, digit or underscore on either side).
pub open spec fn word_at(s: Seq<char>, term: Seq<char>, q: int) -> bool {
    occurs_at(s, term, q) && (q == 0 || !is_id_char(s[q - 1])) && (q + term.len() == s.len() || !is_id_char(
        s[q + term.len()],
    ))
}

/// Some position at or after `q` holds `term` as a whole word.
pub open spec fn word_from(s: Seq<char>, term: Seq<char>, q: int) -> bool
    decreases s.len() + 1 - q,
{
    if q < 0 || q > s.len() {
        false
    } else {
        word_at(s, term, q) || word_from(s, term, q + 1)
    }
}

/// The first line at or after `k` holding `term` as a whole word.
pub open spec fn first_line(ls: Seq<Seq<char>>, term: Seq<char>, k: int) -> Option<int>
    decreases ls.len() - k,
{
    if k < 0 || k >= ls.len() {
        None
    } else if word_from(ls[k], term, 0) {
        Some(k)
    } else {
        first_line(ls, term, k + 1)
    }
}

fn is_id_char_exec(c: char) -> (r: bool)
    ensures
        r == is_id_char(c),
{
    ('A' <= c && c <= 'Z') || ('a' <= c && c <= 'z') || ('0' <= c && c <= '9') || c == '_'
}

fn word_in(s: &Vec<char>, term: &Vec<char>) -> (r: bool)
    ensures
        r == word_from(s@, term@, 0),
{
    let mut q: usize = 0;
    while q <= s.len()
        invariant
            word_from(s@, term@, 0) == word_from(s@, term@, q as int),
        decreases s.len() + 1 - q,
    {
        if crate::text::at(s, term, q) {
            let left = q == 0 || !is_id_char_exec(s[q - 1]);
            let right = q + term.len() == s.len() || !is_id_char_exec(s[q + term.len()]);
            if left && right {
                return true;
            }
        }
        if q == s.len() {
            assert(!word_from(s@, term@, q + 1));
            return false;
        }
        q = q + 1;
    }
    false
}

fn first_line_exec(ls: &Vec<Vec<char>>, term: &Vec<char>) -> (r: Option<usize>)
    ensures
        match r {
            Some(i) => first_line(seqs_of(ls@), term@, 0) == Some(i as int) && i < ls.len(),
            None => first_line(seqs_of(ls@), term@, 0) is None,
        },
{
    let ghost g = seqs_of(ls@);
    let mut i: usize = 0;
    while i < ls.len()
        invariant
            i <= ls.len(),
            g == seqs_of(ls@),
            first_line(g, term@, 0) == first_line(g, term@, i as int),
        decreases ls.len() - i,
    {
        if word_in(&ls[i], term) {
            return Some(i);
        }
        i = i + 1;
    }
    None
}

// ---------------------------------------------------------------------------
// Glossaries: markdown table rows, HTML <tr> first cells, HTML <dt>.

/// A markdown table row: blanks, then `|`.
pub open spec fn is_md_row(l: Seq<char>) -> bool {
    run_white(l, 0) < l.len() && l[run_white(l, 0)] == '|'
}

pub open spec fn md_lines(ls: Seq<Seq<char>>, k: int) -> Seq<Seq<char>>
    decreases k,
{
    if k <= 0 || k > ls.len() {
        Seq::empty()
    } else {
        md_lines(ls, k - 1) + if is_md_row(ls[k - 1]) {
            match pipe_cell(ls[k - 1]) {
                Some(c) => long_tokens(c),
                None => Seq::empty(),
            }
        } else {
            Seq::empty()
        }
    }
}

/// The two-letter tag name `c1` followed by `a` or `b`, case-insensitively, at `i`.
pub open spec fn name_at(s: Seq<char>, i: int, c1: char, a: char, b: char) -> bool {
    0 <= i && i + 2 <= s.len() && ci_eq(s[i], c1) && (ci_eq(s[i + 1], a) || ci_eq(s[i + 1], b))
}

/// `<name` ending at a word boundary, at `p`: the position of the next `>`.
pub open spec fn open_at(s: Seq<char>, p: int, c1: char, a: char, b: char) -> Option<int> {
    if 0 <= p && p + 3 <= s.len() && s[p] == '<' && name_at(s, p + 1, c1, a, b) && (p + 3 == s.len() || !is_word_char(
        s[p + 3],
    )) {
        let g = next_char(s, p + 3, '>');
        if g < s.len() {
            Some(g)
        } else {
            None
        }
    } else {
        None
    }
}

/// `</name>` at `q`.
pub open spec fn close_at(s: Seq<char>, q: int, c1: char, a: char, b: char) -> bool {
    0 <= q && q + 5 <= s.len() && s[q] == '<' && s[q + 1] == '/' && name_at(s, q + 2, c1, a, b) && s[q + 4] == '>'
}

/// The first closing tag at or after `j`, or the length.
pub open spec fn first_close(s: Seq<char>, j: int, c1: char, a: char, b: char) -> int
    decreases s.len() - j,
{
    if j < 0 || j >= s.len() {
        s.len() as int
    } else if close_at(s, j, c1, a, b) {
        j
    } else {
        first_close(s, j + 1, c1, a, b)
    }
}

pub proof fn lemma_first_close(s: Seq<char>, j: int, c1: char, a: char, b: char)
    requires
        0 <= j <= s.len(),
    ensures
        j <= first_close(s, j, c1, a, b) <= s.len(),
        first_close(s, j, c1, a, b) < s.len() ==> close_at(s, first_close(s, j, c1, a, b), c1, a, b),
    decreases s.len() - j,
{
    if j < s.len() && !close_at(s, j, c1, a, b) {
        lemma_first_close(s, j + 1, c1, a, b);
    }
}

/// An element at `p` (`<name...>` up to the first `</name>`): its content span.
pub open spec fn elem_at(s: Seq<char>, p: int, c1: char, a: char, b: char) -> Option<(int, int)> {
    match open_at(s, p, c1, a, b) {
        Some(g) => {
            let q = first_close(s, g + 1, c1, a, b);
            if q < s.len() {
                Some((g + 1, q))
            } else {
                None
            }
        },
        None => None,
    }
}

pub proof fn lemma_elem_at(s: Seq<char>, p: int, c1: char, a: char, b: char)
    requires
        elem_at(s, p, c1, a, b) is Some,
    ensures
        elem_at(s, p, c1, a, b) matches Some((x, y)) && 0 <= p < x <= y && y + 5 <= s.len(),
{
    lemma_next_char(s, p + 3, '>');
    let g = next_char(s, p + 3, '>');
    lemma_first_close(s, g + 1, c1, a, b);
}

/// The contents of the elements of `s[i..]`, leftmost first, without overlap.
pub open spec fn elems_from(s: Seq<char>, i: int, c1: char, a: char, b: char) -> Seq<(int, int)>
    decreases s.len() - i,
{
    if i < 0 || i >= s.len() {
        Seq::empty()
    } else {
        match elem_at(s, i, c1, a, b) {
            Some((x, y)) => {
                proof {
                    lemma_elem_at(s, i, c1, a, b);
                }
                seq![(x, y)] + elems_from(s, y + 5, c1, a, b)
            },
            None => elems_from(s, i + 1, c1, a, b),
        }
    }
}

/// The tokens of the first `<td>`/`<th>` of each `<tr>` among `trs`.
pub open spec fn tr_terms(s: Seq<char>, trs: Seq<(int, int)>) -> Seq<Seq<char>>
    decreases trs.len(),
{
    if trs.len() == 0 {
        Seq::empty()
    } else {
        let body = s.subrange(trs.last().0, trs.last().1);
        let cells = elems_from(body, 0, 't', 'd', 'h');
        tr_terms(s, trs.drop_last()) + if cells.len() > 0 {
            long_tokens(body.subrange(cells[0].0, cells[0].1))
        } else {
            Seq::empty()
        }
    }
}

/// The tokens of each `<dt>` among `dts`.
pub open spec fn dt_terms(s: Seq<char>, dts: Seq<(int, int)>) -> Seq<Seq<char>>
    decreases dts.len(),
{
    if dts.len() == 0 {
        Seq::empty()
    } else {
        dt_terms(s, dts.drop_last()) + long_tokens(s.subrange(dts.last().0, dts.last().1))
    }
}

/// The glossary of a document: first-column tokens of markdown and HTML tables, and <dt> terms.
pub open spec fn glossary(raw: Seq<char>) -> Seq<Seq<char>> {
    let ls = lines_of(raw);
    md_lines(ls, ls.len() as int) + tr_terms(raw, elems_from(raw, 0, 't', 'r', 'r')) + dt_terms(
        raw,
        elems_from(raw, 0, 'd', 't', 't'),
    )
}

fn name_at_exec(s: &Vec<char>, i: usize, c1: char, a: char, b: char) -> (r: bool)
    ensures
        r == name_at(s@, i as int, c1, a, b),
{
    i <= s.len() && s.len() - i >= 2 && ci_eq_exec(s[i], c1) && (ci_eq_exec(s[i + 1], a) || ci_eq_exec(s[i + 1], b))
}

fn close_at_exec(s: &Vec<char>, q: usize, c1: char, a: char, b: char) -> (r: bool)
    ensures
        r == close_at(s@, q as int, c1, a, b),
{
    q <= s.len() && s.len() - q >= 5 && s[q] == '<' && s[q + 1] == '/' && name_at_exec(s, q + 2, c1, a, b) && s[q
        + 4] == '>'
}

fn elem_at_exec(s: &Vec<char>, p: usize, c1: char, a: char, b: char) -> (r: Option<(usize, usize)>)
    ensures
        match r {
            Some((x, y)) => elem_at(s@, p as int, c1, a, b) == Some((x as int, y as int)),
            None => elem_at(s@, p as int, c1, a, b) is None,
        },
{
    if !(p <= s.len() && s.len() - p >= 3 && s[p] == '<' && name_at_exec(s, p + 1, c1, a, b) && (s.len() - p == 3
        || !word_char(s[p + 3]))) {
        return None;
    }
    proof {
        lemma_next_char(s@, p + 3, '>');
    }
    let g = next_char_exec(s, p + 3, '>');
    if g >= s.len() {
        return None;
    }
    let mut q = g + 1;
    while q < s.len() && !close_at_exec(s, q, c1, a, b)
        invariant
            g + 1 <= q <= s.len(),
            first_close(s@, g + 1, c1, a, b) == first_close(s@, q as int, c1, a, b),
        decreases s.len() - q,
    {
        q = q + 1;
    }
    if q < s.len() {
        Some((g + 1, q))
    } else {
        None
    }
}

fn elems_exec(s: &Vec<char>, c1: char, a: char, b: char) -> (r: Vec<(usize, usize)>)
    ensures
        r@.len() == elems_from(s@, 0, c1, a, b).len(),
        forall|k: int|
            0 <= k < r@.len() ==> (#[trigger] r@[k]).0 as int == elems_from(s@, 0, c1, a, b)[k].0 && r@[k].1 as int
                == elems_from(s@, 0, c1, a, b)[k].1 && r@[k].0 <= r@[k].1 <= s.len(),
{
    let ghost all = elems_from(s@, 0, c1, a, b);
    let ghost mut done: Seq<(int, int)> = Seq::empty();
    let mut out: Vec<(usize, usize)> = Vec::new();
    let mut i: usize = 0;
    while i < s.len()
        invariant
            i <= s.len(),
            all == elems_from(s@, 0, c1, a, b),
            all == done + elems_from(s@, i as int, c1, a, b),
            out@.len() == done.len(),
            forall|k: int|
                0 <= k < out@.len() ==> (#[trigger] out@[k]).0 as int == done[k].0 && out@[k].1 as int == done[k].1
                    && out@[k].0 <= out@[k].1 <= s.len(),
        decreases s.len() - i,
    {
        match elem_at_exec(s, i, c1, a, b) {
            Some((x, y)) => {
                proof {
                    lemma_elem_at(s@, i as int, c1, a, b);
                    assert(done + elems_from(s@, i as int, c1, a, b) =~= done.push((x as int, y as int)) + elems_from(
                        s@,
                        y + 5,
                        c1,
                        a,
                        b,
                    ));
                    done = done.push((x as int, y as int));
                }
                out.push((x, y));
                i = y + 5;
            },
            None => {
                i = i + 1;
            },
        }
    }
    assert(done + elems_from(s@, i as int, c1, a, b) =~= done);
    out
}

fn md_terms_exec(ls: &Vec<Vec<char>>, out: &mut Vec<Vec<char>>)
    ensures
        seqs_of(final(out)@) == seqs_of(old(out)@) + md_lines(seqs_of(ls@), ls.len() as int),
{
    let ghost g = seqs_of(ls@);
    let ghost o0 = seqs_of(out@);
    let mut i: usize = 0;
    assert(seqs_of(out@) =~= o0 + md_lines(g, 0));
    while i < ls.len()
        invariant
            i <= ls.len(),
            g == seqs_of(ls@),
            seqs_of(out@) == o0 + md_lines(g, i as int),
        decreases ls.len() - i,
    {
        let l = &ls[i];
        let j = run_white_exec(l, 0);
        let ghost b = seqs_of(out@);
        if j < l.len() && l[j] == '|' {
            match pipe_cell_exec(l) {
                Some(c) => {
                    long_tokens_exec(&c, out);
                },
                None => {
                    assert(seqs_of(out@) =~= b + Seq::<Seq<char>>::empty());
                },
            }
        } else {
            assert(seqs_of(out@) =~= b + Seq::<Seq<char>>::empty());
        }
        i = i + 1;
    }
}

fn glossary_exec(raw: &Vec<char>) -> (r: Vec<Vec<char>>)
    ensures
        seqs_of(r@) == glossary(raw@),
{
    let ls = split_lines(raw);
    let mut out: Vec<Vec<char>> = Vec::new();
    assert(seqs_of(out@) =~= Seq::<Seq<char>>::empty());
    md_terms_exec(&ls, &mut out);
    let ghost m = seqs_of(out@);
    let trs = elems_exec(raw, 't', 'r', 'r');
    let ghost tv = elems_from(raw@, 0, 't', 'r', 'r');
    let mut k: usize = 0;
    assert(tv.take(0) =~= Seq::<(int, int)>::empty());
    assert(seqs_of(out@) =~= m + tr_terms(raw@, tv.take(0)));
    while k < trs.len()
        invariant
            k <= trs.len(),
            tv == elems_from(raw@, 0, 't', 'r', 'r'),
            trs@.len() == tv.len(),
            forall|t: int|
                0 <= t < trs@.len() ==> (#[trigger] trs@[t]).0 as int == tv[t].0 && trs@[t].1 as int == tv[t].1
                    && trs@[t].0 <= trs@[t].1 <= raw.len(),
            seqs_of(out@) == m + tr_terms(raw@, tv.take(k as int)),
        decreases trs.len() - k,
    {
        proof {
            assert(tv.take(k + 1).drop_last() =~= tv.take(k as int));
            assert(tv.take(k + 1).last() == tv[k as int]);
        }
        let (x, y) = trs[k];
        let body = slice_of(raw, x, y);
        let ghost b0 = seqs_of(out@);
        let cells = elems_exec(&body, 't', 'd', 'h');
        if cells.len() > 0 {
            let (c, d) = cells[0];
            let cell = slice_of(&body, c, d);
            long_tokens_exec(&cell, &mut out);
        } else {
            assert(seqs_of(out@) =~= b0 + Seq::<Seq<char>>::empty());
        }
        k = k + 1;
    }
    assert(tv.take(trs.len() as int) =~= tv);
    let ghost m2 = seqs_of(out@);
    let dts = elems_exec(raw, 'd', 't', 't');
    let ghost dv = elems_from(raw@, 0, 'd', 't', 't');
    let mut k: usize = 0;
    assert(dv.take(0) =~= Seq::<(int, int)>::empty());
    assert(seqs_of(out@) =~= m2 + dt_terms(raw@, dv.take(0)));
    while k < dts.len()
        invariant
            k <= dts.len(),
            dv == elems_from(raw@, 0, 'd', 't', 't'),
            dts@.len() == dv.len(),
            forall|t: int|
                0 <= t < dts@.len() ==> (#[trigger] dts@[t]).0 as int == dv[t].0 && dts@[t].1 as int == dv[t].1
                    && dts@[t].0 <= dts@[t].1 <= raw.len(),
            seqs_of(out@) == m2 + dt_terms(raw@, dv.take(k as int)),
        decreases dts.len() - k,
    {
        proof {
            assert(dv.take(k + 1).drop_last() =~= dv.take(k as int));
            assert(dv.take(k + 1).last() == dv[k as int]);
        }
        let (x, y) = dts[k];
        let body = slice_of(raw, x, y);
        long_tokens_exec(&body, &mut out);
        k = k + 1;
    }
    assert(dv.take(dts.len() as int) =~= dv);
    out
}

// ---------------------------------------------------------------------------
// The Practice register.

pub open spec fn practice_msg(term: Seq<char>) -> Seq<char> {
    "term 「"@ + term
        + "」 from the internal vocabulary registry is used without a reader-facing definition — add a Japanese gloss in parentheses at first use, or add it to a glossary table this document defines"@
}

/// The finding for one term: none if the glossary has it, if it never occurs,
/// or if its first occurrence is defined; otherwise at the line of that occurrence.
pub open spec fn practice_find(gl: Seq<Seq<char>>, ls: Seq<Seq<char>>, term: Seq<char>) -> Seq<FindV> {
    if gl.contains(term) {
        Seq::empty()
    } else {
        match first_line(ls, term, 0) {
            None => Seq::empty(),
            Some(i) => if defined_near(ls[i], term) {
                Seq::empty()
            } else {
                seq![(i + 1, "jargon-export"@, practice_msg(term))]
            },
        }
    }
}

pub open spec fn practice_fold(gl: Seq<Seq<char>>, ls: Seq<Seq<char>>, terms: Seq<Seq<char>>, k: int) -> Seq<FindV>
    decreases k,
{
    if k <= 0 || k > terms.len() {
        Seq::empty()
    } else {
        practice_fold(gl, ls, terms, k - 1) + practice_find(gl, ls, terms[k - 1])
    }
}

/// The Practice findings of a document (`raw` for its glossaries, `clean`
/// for its prose lines), term by term.
pub open spec fn spec_scan(raw: Seq<char>, clean: Seq<char>, terms: Seq<Seq<char>>) -> Seq<FindV> {
    if terms.len() == 0 {
        Seq::empty()
    } else {
        practice_fold(glossary(raw), lines_of(clean), terms, terms.len() as int)
    }
}

fn push_msg_find(out: &mut Vec<Finding>, line: usize, msg: String)
    ensures
        finds_view(final(out)@) == finds_view(old(out)@) + seq![(line as int, "jargon-export"@, msg@)],
{
    let ghost v0 = finds_view(out@);
    out.push(Finding { line, rule: "jargon-export", msg });
    assert(finds_view(out@) =~= v0 + seq![(line as int, "jargon-export"@, msg@)]);
}

/// Registry terms used without a definition (register Practice): a term
/// passes when a glossary of `raw` lists it, when the prose `clean` never
/// uses it as a whole word, or when its first use is defined in place.
pub fn scan(raw: &str, clean: &str, terms: &Vec<String>) -> (r: Vec<Finding>)
    ensures
        finds_view(r@) == spec_scan(raw@, clean@, strings_view(terms@)),
{
    let mut out: Vec<Finding> = Vec::new();
    assert(finds_view(out@) =~= Seq::<FindV>::empty());
    if terms.len() == 0 {
        return out;
    }
    let rv = chars_of(raw);
    let gl = glossary_exec(&rv);
    let cv = chars_of(clean);
    let ls = split_lines(&cv);
    let ghost g = seqs_of(ls@);
    let ghost tv = strings_view(terms@);
    let mut k: usize = 0;
    while k < terms.len()
        invariant
            k <= terms.len(),
            g == seqs_of(ls@),
            g == lines_of(clean@),
            tv == strings_view(terms@),
            seqs_of(gl@) == glossary(raw@),
            finds_view(out@) == practice_fold(seqs_of(gl@), g, tv, k as int),
        decreases terms.len() - k,
    {
        let t = chars_of(terms[k].as_str());
        let ghost o0 = finds_view(out@);
        if contains_word(&gl, &t) {
            assert(finds_view(out@) =~= o0 + Seq::<FindV>::empty());
        } else {
            match first_line_exec(&ls, &t) {
                None => {
                    assert(finds_view(out@) =~= o0 + Seq::<FindV>::empty());
                },
                Some(i) => {
                    if defined_near_chars(&ls[i], &t) {
                        assert(finds_view(out@) =~= o0 + Seq::<FindV>::empty());
                    } else {
                        let mut m = String::new();
                        m.append("term 「");
                        m.append(terms[k].as_str());
                        m.append(
                            "」 from the internal vocabulary registry is used without a reader-facing definition — add a Japanese gloss in parentheses at first use, or add it to a glossary table this document defines",
                        );
                        push_msg_find(&mut out, i + 1, m);
                    }
                },
            }
        }
        k = k + 1;
    }
    out
}

// ---------------------------------------------------------------------------
// Monospace identifier contexts (`class="... mono ..."`) and the Consume register.

pub open spec fn is_quote(c: char) -> bool {
    c == '"' || c == '\''
}

/// The first quote at or after `j`, or the length.
pub open spec fn next_quote(s: Seq<char>, j: int) -> int
    decreases s.len() - j,
{
    if j < 0 || j >= s.len() || is_quote(s[j]) {
        j
    } else {
        next_quote(s, j + 1)
    }
}

pub proof fn lemma_next_quote(s: Seq<char>, j: int)
    requires
        0 <= j <= s.len(),
    ensures
        j <= next_quote(s, j) <= s.len(),
    decreases s.len() - j,
{
    if j < s.len() && !is_quote(s[j]) {
        lemma_next_quote(s, j + 1);
    }
}

pub open spec fn class_word() -> Seq<char> {
    seq!['c', 'l', 'a', 's', 's']
}

pub open spec fn mono_word() -> Seq<char> {
    seq!['m', 'o', 'n', 'o']
}

/// `mono` as a whole word (case-insensitively) at `m`, within `a..b`.
pub open spec fn mono_at(s: Seq<char>, a: int, b: int, m: int) -> bool {
    a <= m && m + 4 <= b && b <= s.len() && m >= 1 && crate::prose::ci_word_at(s, m, mono_word()) && !is_word_char(
        s[m - 1],
    ) && (m + 4 == s.len() || !is_word_char(s[m + 4]))
}

/// `mono` as a whole word somewhere in `a..b`, searching from `m`.
pub open spec fn mono_from(s: Seq<char>, a: int, b: int, m: int) -> bool
    decreases b - m,
{
    if m < a || m + 4 > b {
        false
    } else {
        mono_at(s, a, b, m) || mono_from(s, a, b, m + 1)
    }
}

/// A `class = "…mono…"` attribute at `c` (`class` at a word boundary): the
/// position of the `>` ending the tag after it.
pub open spec fn class_at(s: Seq<char>, c: int) -> Option<int> {
    if 1 <= c && !is_word_char(s[c - 1]) && crate::prose::ci_word_at(s, c, class_word()) {
        let k = run_white(s, c + 5);
        if k < s.len() && s[k] == '=' {
            let k2 = run_white(s, k + 1);
            if k2 < s.len() && is_quote(s[k2]) {
                let ve = next_quote(s, k2 + 1);
                if ve < s.len() && mono_from(s, k2 + 1, ve, k2 + 1) {
                    let te = next_char(s, ve + 1, '>');
                    if te < s.len() {
                        Some(te)
                    } else {
                        None
                    }
                } else {
                    None
                }
            } else {
                None
            }
        } else {
            None
        }
    } else {
        None
    }
}

pub proof fn lemma_class_at(s: Seq<char>, c: int)
    requires
        0 <= c,
    ensures
        class_at(s, c) matches Some(te) ==> c + 5 <= te < s.len(),
{
    if class_at(s, c) is Some {
        lemma_run_white(s, c + 5);
        let k = run_white(s, c + 5);
        lemma_run_white(s, k + 1);
        let k2 = run_white(s, k + 1);
        lemma_next_quote(s, k2 + 1);
        let ve = next_quote(s, k2 + 1);
        lemma_next_char(s, ve + 1, '>');
    }
}

/// A closing tag `</name>` (blanks allowed before `>`) at `q`: its end.
pub open spec fn close_any_at(s: Seq<char>, q: int) -> Option<int> {
    if 0 <= q && q + 2 < s.len() && s[q] == '<' && s[q + 1] == '/' && crate::prose::is_ascii_alpha(s[q + 2]) {
        let e = crate::prose::run_alnum(s, q + 3);
        let w = run_white(s, e);
        if w < s.len() && s[w] == '>' {
            Some(w + 1)
        } else {
            None
        }
    } else {
        None
    }
}

/// The first closing tag at or after `j`: its start and end.
pub open spec fn first_close_any(s: Seq<char>, j: int) -> Option<(int, int)>
    decreases s.len() - j,
{
    if j < 0 || j >= s.len() {
        None
    } else {
        match close_any_at(s, j) {
            Some(e) => Some((j, e)),
            None => first_close_any(s, j + 1),
        }
    }
}

/// Trying class positions from `c` down to `e`: the first that completes a
/// match (content start, content end, match end).
pub open spec fn mono_search(s: Seq<char>, e: int, c: int) -> Option<(int, int, int)>
    decreases c - e + 1,
{
    if c < e {
        None
    } else {
        match class_at(s, c) {
            Some(te) => match first_close_any(s, te + 1) {
                Some((q, end)) => Some((te + 1, q, end)),
                None => mono_search(s, e, c - 1),
            },
            None => mono_search(s, e, c - 1),
        }
    }
}

/// A monospace element at `p`: `<name …class="…mono…"…>content</any>`.
pub open spec fn mono_elem_at(s: Seq<char>, p: int) -> Option<(int, int, int)> {
    if 0 <= p && p + 1 < s.len() && s[p] == '<' && crate::prose::is_ascii_alpha(s[p + 1]) {
        let e = crate::prose::run_alnum(s, p + 2);
        if e == s.len() || !is_word_char(s[e]) {
            let gt1 = next_char(s, e, '>');
            mono_search(s, e, gt1 - 1)
        } else {
            None
        }
    } else {
        None
    }
}

pub proof fn lemma_close_any(s: Seq<char>, j: int)
    requires
        0 <= j <= s.len(),
    ensures
        first_close_any(s, j) matches Some((q, end)) ==> j <= q < end <= s.len(),
    decreases s.len() - j,
{
    if j < s.len() {
        match close_any_at(s, j) {
            Some(e) => {
                crate::prose::lemma_runs2(s, j + 3);
                lemma_run_white(s, crate::prose::run_alnum(s, j + 3));
            },
            None => {
                lemma_close_any(s, j + 1);
            },
        }
    }
}

pub proof fn lemma_mono_search(s: Seq<char>, e: int, c: int)
    requires
        0 <= e,
    ensures
        mono_search(s, e, c) matches Some((x, y, end)) ==> e < x <= y < end <= s.len(),
    decreases c - e + 1,
{
    if c >= e {
        lemma_class_at(s, c);
        match class_at(s, c) {
            Some(te) => {
                lemma_close_any(s, te + 1);
                if first_close_any(s, te + 1) is None {
                    lemma_mono_search(s, e, c - 1);
                }
            },
            None => {
                lemma_mono_search(s, e, c - 1);
            },
        }
    }
}

/// The monospace contents of `s[i..]`, leftmost first, without overlap.
pub open spec fn monos_from(s: Seq<char>, i: int) -> Seq<(int, int)>
    decreases s.len() - i,
{
    if i < 0 || i >= s.len() {
        Seq::empty()
    } else {
        match mono_elem_at(s, i) {
            Some((x, y, end)) => {
                proof {
                    crate::prose::lemma_runs2(s, i + 2);
                    lemma_mono_search(s, crate::prose::run_alnum(s, i + 2), next_char(s, crate::prose::run_alnum(s, i + 2), '>') - 1);
                }
                seq![(x, y)] + monos_from(s, end)
            },
            None => monos_from(s, i + 1),
        }
    }
}

/// `s[i..]` with every tag `<…>` removed.
pub open spec fn strip_tags_from(s: Seq<char>, i: int) -> Seq<char>
    decreases s.len() - i,
{
    if i < 0 || i >= s.len() {
        Seq::empty()
    } else if s[i] == '<' && next_char(s, i + 1, '>') < s.len() {
        proof {
            lemma_next_char(s, i + 1, '>');
        }
        strip_tags_from(s, next_char(s, i + 1, '>') + 1)
    } else {
        seq![s[i]] + strip_tags_from(s, i + 1)
    }
}

/// The trimmed, tag-free, non-empty texts of the monospace elements of `s` among `ms`.
pub open spec fn mono_texts_of(s: Seq<char>, ms: Seq<(int, int)>) -> Seq<Seq<char>>
    decreases ms.len(),
{
    if ms.len() == 0 {
        Seq::empty()
    } else {
        let t = trim(strip_tags_from(s.subrange(ms.last().0, ms.last().1), 0));
        mono_texts_of(s, ms.drop_last()) + if t.len() > 0 {
            seq![t]
        } else {
            Seq::empty()
        }
    }
}

/// The texts of a document's monospace identifier contexts.
pub open spec fn mono_texts(raw: Seq<char>) -> Seq<Seq<char>> {
    mono_texts_of(raw, monos_from(raw, 0))
}

pub open spec fn spaces(n: nat) -> Seq<char> {
    Seq::new(n, |i: int| ' ')
}

/// `clean` with every occurrence of each text blanked out, in turn.
pub open spec fn mask_texts(clean: Seq<char>, ts: Seq<Seq<char>>) -> Seq<char>
    decreases ts.len(),
{
    if ts.len() == 0 {
        clean
    } else {
        let m = mask_texts(clean, ts.drop_last());
        if ts.last().len() == 0 {
            m
        } else {
            replace_all(m, ts.last(), spaces(ts.last().len()))
        }
    }
}

pub open spec fn consume_msg(term: Seq<char>) -> Seq<char> {
    "term 「"@ + term
        + "」 is not in the reader's vocabulary — don't define it, say it in the reader's words instead (e.g. campaign → 測定の実施計画)"@
}

pub open spec fn consume_find(ls: Seq<Seq<char>>, term: Seq<char>) -> Seq<FindV> {
    match first_line(ls, term, 0) {
        None => Seq::empty(),
        Some(i) => seq![(i + 1, "jargon-export"@, consume_msg(term))],
    }
}

pub open spec fn consume_fold(ls: Seq<Seq<char>>, terms: Seq<Seq<char>>, k: int) -> Seq<FindV>
    decreases k,
{
    if k <= 0 || k > terms.len() {
        Seq::empty()
    } else {
        consume_fold(ls, terms, k - 1) + consume_find(ls, terms[k - 1])
    }
}

/// The Consume findings: each term used as a whole word in the prose outside
/// monospace contexts, at its first line.
pub open spec fn spec_scan_consume(raw: Seq<char>, clean: Seq<char>, terms: Seq<Seq<char>>) -> Seq<FindV> {
    if terms.len() == 0 {
        Seq::empty()
    } else {
        consume_fold(lines_of(mask_texts(clean, mono_texts(raw))), terms, terms.len() as int)
    }
}

#[verifier::loop_isolation(false)]
fn class_at_exec(s: &Vec<char>, c: usize, cw: &Vec<char>, mw: &Vec<char>) -> (r: Option<usize>)
    requires
        cw@ == class_word(),
        mw@ == mono_word(),
        c <= s.len(),
    ensures
        match r {
            Some(te) => class_at(s@, c as int) == Some(te as int),
            None => class_at(s@, c as int) is None,
        },
{
    if !(1 <= c && !word_char(s[c - 1]) && crate::prose::ci_word_at_exec(s, c, cw)) {
        return None;
    }
    let k = run_white_exec(s, c + 5);
    if !(k < s.len() && s[k] == '=') {
        return None;
    }
    let k2 = run_white_exec(s, k + 1);
    if !(k2 < s.len() && (s[k2] == '"' || s[k2] == '\'')) {
        return None;
    }
    let mut ve = k2 + 1;
    while ve < s.len() && !(s[ve] == '"' || s[ve] == '\'')
        invariant
            k2 + 1 <= ve <= s.len(),
            next_quote(s@, k2 + 1) == next_quote(s@, ve as int),
        decreases s.len() - ve,
    {
        ve = ve + 1;
    }
    if ve >= s.len() {
        return None;
    }
    let mut m = k2 + 1;
    while m <= ve && ve - m >= 4
        invariant
            k2 + 1 <= m,
            ve < s.len(),
            next_quote(s@, k2 + 1) == ve,
            mw@ == mono_word(),
            mono_from(s@, k2 + 1, ve as int, k2 + 1) == mono_from(s@, k2 + 1, ve as int, m as int),
        decreases ve - m,
    {
        if crate::prose::ci_word_at_exec(s, m, mw) && !word_char(s[m - 1]) && (m + 4 == s.len() || !word_char(
            s[m + 4],
        )) {
            assert(mono_at(s@, k2 + 1, ve as int, m as int));
            assert(mono_from(s@, k2 + 1, ve as int, m as int));
            proof {
                lemma_next_char(s@, ve + 1, '>');
            }
            let te = next_char_exec(s, ve + 1, '>');
            if te < s.len() {
                return Some(te);
            } else {
                return None;
            }
        }
        m = m + 1;
    }
    None
}

fn close_any_exec(s: &Vec<char>, j: usize) -> (r: Option<(usize, usize)>)
    requires
        j <= s.len(),
    ensures
        match r {
            Some((q, end)) => first_close_any(s@, j as int) == Some((q as int, end as int)),
            None => first_close_any(s@, j as int) is None,
        },
{
    let mut q = j;
    while q < s.len()
        invariant
            j <= q <= s.len(),
            first_close_any(s@, j as int) == first_close_any(s@, q as int),
        decreases s.len() - q,
    {
        if s.len() - q > 2 && s[q] == '<' && s[q + 1] == '/' && (('a' <= s[q + 2] && s[q + 2] <= 'z') || ('A' <= s[q
            + 2] && s[q + 2] <= 'Z')) {
            let mut e = q + 3;
            while e < s.len() && (('a' <= s[e] && s[e] <= 'z') || ('A' <= s[e] && s[e] <= 'Z') || ('0' <= s[e] && s[e]
                <= '9'))
                invariant
                    q + 3 <= e <= s.len(),
                    crate::prose::run_alnum(s@, q + 3) == crate::prose::run_alnum(s@, e as int),
                decreases s.len() - e,
            {
                e = e + 1;
            }
            let w = run_white_exec(s, e);
            if w < s.len() && s[w] == '>' {
                return Some((q, w + 1));
            }
        }
        q = q + 1;
    }
    None
}

#[verifier::loop_isolation(false)]
fn mono_elem_exec(s: &Vec<char>, p: usize, cw: &Vec<char>, mw: &Vec<char>) -> (r: Option<(usize, usize, usize)>)
    requires
        cw@ == class_word(),
        mw@ == mono_word(),
        p <= s.len(),
    ensures
        match r {
            Some((x, y, end)) => mono_elem_at(s@, p as int) == Some((x as int, y as int, end as int)),
            None => mono_elem_at(s@, p as int) is None,
        },
{
    if !(p < s.len() && s.len() - p > 1 && s[p] == '<' && (('a' <= s[p + 1] && s[p + 1] <= 'z') || ('A' <= s[p + 1]
        && s[p + 1] <= 'Z'))) {
        return None;
    }
    let mut e = p + 2;
    while e < s.len() && (('a' <= s[e] && s[e] <= 'z') || ('A' <= s[e] && s[e] <= 'Z') || ('0' <= s[e] && s[e] <= '9'))
        invariant
            p + 2 <= e <= s.len(),
            crate::prose::run_alnum(s@, p + 2) == crate::prose::run_alnum(s@, e as int),
        decreases s.len() - e,
    {
        e = e + 1;
    }
    if !(e == s.len() || !word_char(s[e])) {
        return None;
    }
    proof {
        lemma_next_char(s@, e as int, '>');
    }
    let gt1 = next_char_exec(s, e, '>');
    let mut c = gt1;
    while c > e
        invariant
            e <= c <= gt1 <= s.len(),
            cw@ == class_word(),
            mw@ == mono_word(),
            mono_search(s@, e as int, gt1 - 1) == mono_search(s@, e as int, c - 1),
        decreases c,
    {
        match class_at_exec(s, c - 1, cw, mw) {
            Some(te) => {
                proof {
                    lemma_next_char(s@, te as int, '>');
                }
                match close_any_exec(s, te + 1) {
                    Some((q, end)) => {
                        return Some((te + 1, q, end));
                    },
                    None => {},
                }
            },
            None => {},
        }
        c = c - 1;
    }
    None
}

fn strip_tags_exec(s: &Vec<char>) -> (r: Vec<char>)
    ensures
        r@ == strip_tags_from(s@, 0),
{
    let mut out: Vec<char> = Vec::new();
    let mut i: usize = 0;
    while i < s.len()
        invariant
            i <= s.len(),
            strip_tags_from(s@, 0) == out@ + strip_tags_from(s@, i as int),
        decreases s.len() - i,
    {
        if s[i] == '<' {
            proof {
                lemma_next_char(s@, i + 1, '>');
            }
            let g = next_char_exec(s, i + 1, '>');
            if g < s.len() {
                i = g + 1;
                continue;
            }
        }
        let ghost before = out@;
        out.push(s[i]);
        assert(out@ + strip_tags_from(s@, i + 1) =~= before + strip_tags_from(s@, i as int));
        i = i + 1;
    }
    assert(out@ + strip_tags_from(s@, i as int) =~= out@);
    out
}

fn mono_texts_exec(raw: &Vec<char>) -> (r: Vec<Vec<char>>)
    ensures
        seqs_of(r@) == mono_texts(raw@),
{
    let cw = vec!['c', 'l', 'a', 's', 's'];
    assert(cw@ =~= class_word());
    let mw = vec!['m', 'o', 'n', 'o'];
    assert(mw@ =~= mono_word());
    let ghost mut done: Seq<(int, int)> = Seq::empty();
    let mut out: Vec<Vec<char>> = Vec::new();
    let mut i: usize = 0;
    assert(seqs_of(out@) =~= mono_texts_of(raw@, done));
    while i < raw.len()
        invariant
            i <= raw.len(),
            cw@ == class_word(),
            mw@ == mono_word(),
            monos_from(raw@, 0) == done + monos_from(raw@, i as int),
            forall|k: int| 0 <= k < done.len() ==> 0 <= (#[trigger] done[k]).0 <= done[k].1 <= raw.len(),
            seqs_of(out@) == mono_texts_of(raw@, done),
        decreases raw.len() - i,
    {
        match mono_elem_exec(raw, i, &cw, &mw) {
            Some((x, y, end)) => {
                proof {
                    crate::prose::lemma_runs2(raw@, i + 2);
                    lemma_mono_search(
                        raw@,
                        crate::prose::run_alnum(raw@, i + 2),
                        next_char(raw@, crate::prose::run_alnum(raw@, i + 2), '>') - 1,
                    );
                }
                let body = slice_of(raw, x, y);
                let st = strip_tags_exec(&body);
                let t = trimmed(&st);
                let ghost b = seqs_of(out@);
                if t.len() > 0 {
                    proof {
                        lemma_seqs_of_push(out@, t);
                    }
                    out.push(t);
                }
                proof {
                    let d2 = done.push((x as int, y as int));
                    assert(d2.drop_last() =~= done);
                    assert(done + monos_from(raw@, i as int) =~= d2 + monos_from(raw@, end as int));
                    done = d2;
                }
                assert(seqs_of(out@) =~= mono_texts_of(raw@, done));
                i = end;
            },
            None => {
                i = i + 1;
            },
        }
    }
    assert(done + monos_from(raw@, i as int) =~= done);
    out
}

/// The contents of the monospace identifier contexts of a raw document
/// (`class="… mono …"` elements), tags removed, trimmed, non-empty.
pub fn monospace_context_texts(raw: &str) -> (r: Vec<String>)
    ensures
        strings_view(r@) == mono_texts(raw@),
{
    let s = chars_of(raw);
    let ts = mono_texts_exec(&s);
    let mut out: Vec<String> = Vec::new();
    let mut k: usize = 0;
    while k < ts.len()
        invariant
            k <= ts.len(),
            strings_view(out@) == seqs_of(ts@).take(k as int),
        decreases ts.len() - k,
    {
        let ghost o0 = out@;
        let w = string_of(&ts[k]);
        out.push(w);
        assert(strings_view(out@) =~= strings_view(o0).push(ts@[k as int]@));
        assert(strings_view(out@) =~= seqs_of(ts@).take(k + 1));
        k = k + 1;
    }
    assert(seqs_of(ts@).take(ts.len() as int) =~= seqs_of(ts@));
    out
}

fn mask_monospace_occurrences(clean: &Vec<char>, ts: &Vec<Vec<char>>) -> (r: Vec<char>)
    ensures
        r@ == mask_texts(clean@, seqs_of(ts@)),
{
    let ghost g = seqs_of(ts@);
    let mut out = slice_of(clean, 0, clean.len());
    assert(out@ =~= clean@);
    let mut k: usize = 0;
    assert(g.take(0) =~= Seq::<Seq<char>>::empty());
    while k < ts.len()
        invariant
            k <= ts.len(),
            g == seqs_of(ts@),
            out@ == mask_texts(clean@, g.take(k as int)),
        decreases ts.len() - k,
    {
        proof {
            assert(g.take(k + 1).drop_last() =~= g.take(k as int));
            assert(g.take(k + 1).last() == ts@[k as int]@);
        }
        let t = &ts[k];
        if t.len() > 0 {
            let mut sp: Vec<char> = Vec::new();
            let mut n: usize = 0;
            while n < t.len()
                invariant
                    n <= t.len(),
                    sp@ == spaces(n as nat),
                decreases t.len() - n,
            {
                sp.push(' ');
                n = n + 1;
                assert(sp@ =~= spaces(n as nat));
            }
            out = replace_exec(&out, t, &sp);
        }
        k = k + 1;
    }
    assert(g.take(ts.len() as int) =~= g);
    out
}

/// Registry terms used at all in the prose (register Consume): a term passes
/// only if `clean`, with the texts of `raw`'s monospace identifier contexts
/// blanked out, never uses it as a whole word.
pub fn scan_consume(raw: &str, clean: &str, terms: &Vec<String>) -> (r: Vec<Finding>)
    ensures
        finds_view(r@) == spec_scan_consume(raw@, clean@, strings_view(terms@)),
{
    let mut out: Vec<Finding> = Vec::new();
    assert(finds_view(out@) =~= Seq::<FindV>::empty());
    if terms.len() == 0 {
        return out;
    }
    let rv = chars_of(raw);
    let mt = mono_texts_exec(&rv);
    let cv = chars_of(clean);
    let masked = mask_monospace_occurrences(&cv, &mt);
    let ls = split_lines(&masked);
    let ghost g = seqs_of(ls@);
    let ghost tv = strings_view(terms@);
    let mut k: usize = 0;
    while k < terms.len()
        invariant
            k <= terms.len(),
            g == seqs_of(ls@),
            g == lines_of(mask_texts(clean@, mono_texts(raw@))),
            tv == strings_view(terms@),
            finds_view(out@) == consume_fold(g, tv, k as int),
        decreases terms.len() - k,
    {
        let t = chars_of(terms[k].as_str());
        let ghost o0 = finds_view(out@);
        match first_line_exec(&ls, &t) {
            None => {
                assert(finds_view(out@) =~= o0 + Seq::<FindV>::empty());
            },
            Some(i) => {
                let mut m = String::new();
                m.append("term 「");
                m.append(terms[k].as_str());
                m.append(
                    "」 is not in the reader's vocabulary — don't define it, say it in the reader's words instead (e.g. campaign → 測定の実施計画)",
                );
                push_msg_find(&mut out, i + 1, m);
            },
        }
        k = k + 1;
    }
    out
}

/// The Consume register is stricter than Practice: in a document without
/// monospace contexts, a term that Practice reports is reported by Consume at
/// the same line.
pub proof fn lemma_consume_covers_practice(raw: Seq<char>, clean: Seq<char>, term: Seq<char>)
    requires
        mono_texts(raw).len() == 0,
        practice_find(glossary(raw), lines_of(clean), term).len() > 0,
    ensures
        consume_find(lines_of(mask_texts(clean, mono_texts(raw))), term) == seq![
            (practice_find(glossary(raw), lines_of(clean), term)[0].0, "jargon-export"@, consume_msg(term)),
        ],
{
    assert(mask_texts(clean, mono_texts(raw)) == clean);
}

} // verus!
