// prose.rs — extraction of prose from a markdown or HTML document: code fences
// and structural lines become blank lines (so every line number stays valid),
// inline code, URLs and ledger references are stripped, and the remainder is
// split into prose units (paragraphs or bullet groups) and sentences.
use vstd::prelude::*;

use crate::text::{
    at, chars_of, lemma_count_char_none, lemma_replace_newlines, replace_all, replace_exec, vec_eq, lemma_count_char_le, lemma_count_char_single, count_char, join_nl, lemma_join_nl_mono, lemma_lines_of_len, lemma_seqs_of_push, lines_of,
    occurs_at, seqs_of, split_lines, string_of, trim, trim_end, trim_start, trimmed, trimmed_end, trimmed_start, count_of, find, find_from, lemma_count_char_concat, lemma_count_newlines, lemma_find_from,
    newlines, push_all, push_newlines, slice_of,
};
use crate::unicode::{
    decimal_digit, han, hiragana, is_decimal_digit, is_han, is_hiragana, is_katakana, is_white_space,
    is_word_char, katakana, white_space, word_char,
};

verus! {

/// The three-backtick code-fence marker.
pub open spec fn fence() -> Seq<char> {
    seq!['`', '`', '`']
}

pub fn fence_vec() -> (v: Vec<char>)
    ensures
        v@ == fence(),
{
    let mut v: Vec<char> = Vec::new();
    v.push('`');
    v.push('`');
    v.push('`');
    assert(v@ =~= fence());
    v
}

/// `s[i..]` with every code fence (a ``` marker up to the next ``` marker)
/// replaced by as many newlines as it spans.
pub open spec fn strip_fences_from(s: Seq<char>, i: int) -> Seq<char>
    decreases s.len() - i,
{
    if i < 0 || i > s.len() {
        Seq::empty()
    } else {
        match find_from(s, fence(), i) {
            None => s.subrange(i, s.len() as int),
            Some(p) => match find_from(s, fence(), p + 3) {
                None => s.subrange(i, s.len() as int),
                Some(q) => {
                    proof {
                        lemma_find_from(s, fence(), i);
                        lemma_find_from(s, fence(), p + 3);
                    }
                    s.subrange(i, p) + newlines(count_char(s.subrange(p, q + 3), '\n'))
                        + strip_fences_from(s, q + 3)
                },
            },
        }
    }
}

/// The document with its code fences blanked out.
pub open spec fn spec_strip_fences(s: Seq<char>) -> Seq<char> {
    strip_fences_from(s, 0)
}

/// Blanking the fences keeps every newline and never lengthens the text.
pub proof fn lemma_strip_fences_from(s: Seq<char>, i: int)
    requires
        0 <= i <= s.len(),
    ensures
        count_char(strip_fences_from(s, i), '\n') == count_char(s.subrange(i, s.len() as int), '\n'),
        strip_fences_from(s, i).len() <= s.len() - i,
    decreases s.len() - i,
{
    lemma_find_from(s, fence(), i);
    match find_from(s, fence(), i) {
        None => {},
        Some(p) => {
            lemma_find_from(s, fence(), p + 3);
            match find_from(s, fence(), p + 3) {
                None => {},
                Some(q) => {
                    lemma_strip_fences_from(s, q + 3);
                    let a = s.subrange(i, p);
                    let b = s.subrange(p, q + 3);
                    let c = s.subrange(q + 3, s.len() as int);
                    let nb = newlines(count_char(b, '\n'));
                    lemma_count_newlines(count_char(b, '\n'));
                    lemma_count_char_le(b, '\n');
                    lemma_count_char_concat(a, nb, '\n');
                    lemma_count_char_concat(a + nb, strip_fences_from(s, q + 3), '\n');
                    lemma_count_char_concat(a, b, '\n');
                    lemma_count_char_concat(a + b, c, '\n');
                    assert(s.subrange(i, s.len() as int) =~= a + b + c);
                },
            }
        },
    }
}

/// Blanks out the code fences of `s` (newline count unchanged).
pub fn strip_fences_chars(s: &Vec<char>) -> (r: Vec<char>)
    ensures
        r@ == spec_strip_fences(s@),
{
    let f = fence_vec();
    let mut out: Vec<char> = Vec::new();
    let mut i: usize = 0;
    assert(s@.subrange(0, 0) =~= Seq::<char>::empty());
    loop
        invariant
            i <= s.len(),
            f@ == fence(),
            spec_strip_fences(s@) == out@ + strip_fences_from(s@, i as int),
        decreases s.len() - i,
    {
        proof {
            lemma_find_from(s@, fence(), i as int);
        }
        match find(s, &f, i) {
            None => {
                let rest = slice_of(s, i, s.len());
                push_all(&mut out, &rest);
                return out;
            },
            Some(p) => {
                proof {
                    lemma_find_from(s@, fence(), p + 3);
                }
                match find(s, &f, p + 3) {
                    None => {
                        let rest = slice_of(s, i, s.len());
                        push_all(&mut out, &rest);
                        return out;
                    },
                    Some(q) => {
                        let head = slice_of(s, i, p);
                        push_all(&mut out, &head);
                        let span = slice_of(s, p, q + 3);
                        let n = count_of(&span, '\n');
                        push_newlines(&mut out, n);
                        i = q + 3;
                    },
                }
            },
        }
    }
}

} // verus!

verus! {

// ---------------------------------------------------------------------------
// Inline stripping: `` `...` ``, `https?://\S+`, `§[Han Katakana Hiragana 0-9A-Za-z.-]+`,
// `R\d{4}_\d+`, `IF-\d` are removed from a line, leftmost first.

/// A character that may follow `§` in a section reference.
pub open spec fn is_section_char(c: char) -> bool {
    is_han(c) || is_katakana(c) || is_hiragana(c) || ('0' <= c && c <= '9') || ('A' <= c && c <= 'Z')
        || ('a' <= c && c <= 'z') || c == '.' || c == '-'
}

fn section_char(c: char) -> (r: bool)
    ensures
        r == is_section_char(c),
{
    han(c) || katakana(c) || hiragana(c) || ('0' <= c && c <= '9') || ('A' <= c && c <= 'Z') || ('a' <= c
        && c <= 'z') || c == '.' || c == '-'
}

/// End of the run of non-White_Space characters starting at `j`.
pub open spec fn run_nonws(s: Seq<char>, j: int) -> int
    decreases s.len() - j,
{
    if 0 <= j < s.len() && !is_white_space(s[j]) {
        run_nonws(s, j + 1)
    } else {
        j
    }
}

/// End of the run of section-reference characters starting at `j`.
pub open spec fn run_section(s: Seq<char>, j: int) -> int
    decreases s.len() - j,
{
    if 0 <= j < s.len() && is_section_char(s[j]) {
        run_section(s, j + 1)
    } else {
        j
    }
}

/// End of the run of decimal digits starting at `j`.
pub open spec fn run_digits(s: Seq<char>, j: int) -> int
    decreases s.len() - j,
{
    if 0 <= j < s.len() && is_decimal_digit(s[j]) {
        run_digits(s, j + 1)
    } else {
        j
    }
}

pub proof fn lemma_runs(s: Seq<char>, j: int)
    requires
        0 <= j <= s.len(),
    ensures
        j <= run_nonws(s, j) <= s.len(),
        j <= run_section(s, j) <= s.len(),
        j <= run_digits(s, j) <= s.len(),
    decreases s.len() - j,
{
    if j < s.len() {
        lemma_runs(s, j + 1);
    }
}

pub fn end_nonws(s: &Vec<char>, j: usize) -> (e: usize)
    requires
        j <= s.len(),
    ensures
        e == run_nonws(s@, j as int),
{
    let mut e = j;
    while e < s.len() && !white_space(s[e])
        invariant
            j <= e <= s.len(),
            run_nonws(s@, j as int) == run_nonws(s@, e as int),
        decreases s.len() - e,
    {
        e = e + 1;
    }
    e
}

fn end_section(s: &Vec<char>, j: usize) -> (e: usize)
    requires
        j <= s.len(),
    ensures
        e == run_section(s@, j as int),
{
    let mut e = j;
    while e < s.len() && section_char(s[e])
        invariant
            j <= e <= s.len(),
            run_section(s@, j as int) == run_section(s@, e as int),
        decreases s.len() - e,
    {
        e = e + 1;
    }
    e
}

fn end_digits(s: &Vec<char>, j: usize) -> (e: usize)
    requires
        j <= s.len(),
    ensures
        e == run_digits(s@, j as int),
{
    let mut e = j;
    while e < s.len() && decimal_digit(s[e])
        invariant
            j <= e <= s.len(),
            run_digits(s@, j as int) == run_digits(s@, e as int),
        decreases s.len() - e,
    {
        e = e + 1;
    }
    e
}

pub open spec fn https_lit() -> Seq<char> {
    seq!['h', 't', 't', 'p', 's', ':', '/', '/']
}

pub open spec fn http_lit() -> Seq<char> {
    seq!['h', 't', 't', 'p', ':', '/', '/']
}

/// The end of the inline span (code, URL, section reference, ledger id)
/// matched at position `i` of the line `s`, if one starts there.
pub open spec fn inline_match(s: Seq<char>, i: int) -> Option<int> {
    if !(0 <= i < s.len()) {
        None
    } else if s[i] == '`' {
        match find_from(s, seq!['`'], i + 1) {
            Some(j) => Some(j + 1),
            None => None,
        }
    } else if s[i] == 'h' {
        let l: int = if occurs_at(s, https_lit(), i) {
            8
        } else if occurs_at(s, http_lit(), i) {
            7
        } else {
            0
        };
        if l == 0 {
            None
        } else {
            let e = run_nonws(s, i + l);
            if e > i + l {
                Some(e)
            } else {
                None
            }
        }
    } else if s[i] == '§' {
        let e = run_section(s, i + 1);
        if e > i + 1 {
            Some(e)
        } else {
            None
        }
    } else if s[i] == 'R' {
        if i + 6 <= s.len() && is_decimal_digit(s[i + 1]) && is_decimal_digit(s[i + 2])
            && is_decimal_digit(s[i + 3]) && is_decimal_digit(s[i + 4]) && s[i + 5] == '_' {
            let e = run_digits(s, i + 6);
            if e > i + 6 {
                Some(e)
            } else {
                None
            }
        } else {
            None
        }
    } else if s[i] == 'I' {
        if i + 4 <= s.len() && s[i + 1] == 'F' && s[i + 2] == '-' && is_decimal_digit(s[i + 3]) {
            Some(i + 4)
        } else {
            None
        }
    } else {
        None
    }
}

pub proof fn lemma_inline_match(s: Seq<char>, i: int)
    ensures
        inline_match(s, i) matches Some(e) ==> i < e <= s.len(),
{
    if 0 <= i < s.len() {
        if s[i] == '`' {
            lemma_find_from(s, seq!['`'], i + 1);
        } else if s[i] == 'h' {
            if i + 8 <= s.len() {
                lemma_runs(s, i + 8);
            }
            if i + 7 <= s.len() {
                lemma_runs(s, i + 7);
            }
        } else if s[i] == '§' {
            lemma_runs(s, i + 1);
        } else if s[i] == 'R' && i + 6 <= s.len() {
            lemma_runs(s, i + 6);
        }
    }
}

fn inline_match_exec(s: &Vec<char>, i: usize) -> (r: Option<usize>)
    requires
        i < s.len(),
    ensures
        match r {
            Some(e) => inline_match(s@, i as int) == Some(e as int),
            None => inline_match(s@, i as int) is None,
        },
{
    let c = s[i];
    if c == '`' {
        let mut bt: Vec<char> = Vec::new();
        bt.push('`');
        assert(bt@ =~= seq!['`']);
        proof {
            lemma_find_from(s@, seq!['`'], i + 1);
        }
        match find(s, &bt, i + 1) {
            Some(j) => Some(j + 1),
            None => None,
        }
    } else if c == 'h' {
        let mut hs: Vec<char> = Vec::new();
        hs.push('h');
        hs.push('t');
        hs.push('t');
        hs.push('p');
        hs.push('s');
        hs.push(':');
        hs.push('/');
        hs.push('/');
        assert(hs@ =~= https_lit());
        let mut h: Vec<char> = Vec::new();
        h.push('h');
        h.push('t');
        h.push('t');
        h.push('p');
        h.push(':');
        h.push('/');
        h.push('/');
        assert(h@ =~= http_lit());
        let l: usize = if at(s, &hs, i) {
            8
        } else if at(s, &h, i) {
            7
        } else {
            0
        };
        if l == 0 {
            None
        } else {
            let e = end_nonws(s, i + l);
            if e > i + l {
                Some(e)
            } else {
                None
            }
        }
    } else if c == '§' {
        let e = end_section(s, i + 1);
        if e > i + 1 {
            Some(e)
        } else {
            None
        }
    } else if c == 'R' {
        if s.len() >= 6 && i <= s.len() - 6 && decimal_digit(s[i + 1]) && decimal_digit(s[i + 2])
            && decimal_digit(s[i + 3]) && decimal_digit(s[i + 4]) && s[i + 5] == '_' {
            let e = end_digits(s, i + 6);
            if e > i + 6 {
                Some(e)
            } else {
                None
            }
        } else {
            None
        }
    } else if c == 'I' {
        if s.len() >= 4 && i <= s.len() - 4 && s[i + 1] == 'F' && s[i + 2] == '-' && decimal_digit(s[i + 3]) {
            Some(i + 4)
        } else {
            None
        }
    } else {
        None
    }
}

/// `s[i..]` with every inline span removed.
pub open spec fn strip_inline_from(s: Seq<char>, i: int) -> Seq<char>
    decreases s.len() - i,
{
    if i < 0 || i >= s.len() {
        Seq::empty()
    } else {
        proof {
            lemma_inline_match(s, i);
        }
        match inline_match(s, i) {
            Some(e) => strip_inline_from(s, e),
            None => seq![s[i]] + strip_inline_from(s, i + 1),
        }
    }
}

pub proof fn lemma_strip_inline_len(s: Seq<char>, i: int)
    requires
        0 <= i <= s.len(),
    ensures
        strip_inline_from(s, i).len() <= s.len() - i,
    decreases s.len() - i,
{
    if i < s.len() {
        lemma_inline_match(s, i);
        match inline_match(s, i) {
            Some(e) => lemma_strip_inline_len(s, e),
            None => lemma_strip_inline_len(s, i + 1),
        }
    }
}

/// Removes the inline spans of a line.
pub fn strip_inline(s: &Vec<char>) -> (r: Vec<char>)
    ensures
        r@ == strip_inline_from(s@, 0),
{
    let mut out: Vec<char> = Vec::new();
    let mut i: usize = 0;
    while i < s.len()
        invariant
            i <= s.len(),
            strip_inline_from(s@, 0) == out@ + strip_inline_from(s@, i as int),
        decreases s.len() - i,
    {
        proof {
            lemma_inline_match(s@, i as int);
        }
        match inline_match_exec(s, i) {
            Some(e) => {
                i = e;
            },
            None => {
                let ghost before = out@;
                out.push(s[i]);
                assert(out@ + strip_inline_from(s@, i + 1) =~= before + (seq![s@[i as int]] + strip_inline_from(s@, i + 1)));
                i = i + 1;
            },
        }
    }
    assert(out@ + strip_inline_from(s@, i as int) =~= out@);
    out
}

} // verus!

verus! {

// ---------------------------------------------------------------------------
// clean_lines: the document as prose only, one output line per input line.

/// One line of prose: table (`|`) and heading (`#`) lines and lines left
/// blank after stripping become empty; otherwise the stripped line without
/// trailing White_Space.
pub open spec fn clean_line(raw: Seq<char>) -> Seq<char> {
    let t = trim_start(raw);
    if t.len() > 0 && (t[0] == '|' || t[0] == '#') {
        Seq::empty()
    } else {
        let st = strip_inline_from(raw, 0);
        if trim(st).len() == 0 {
            Seq::empty()
        } else {
            trim_end(st)
        }
    }
}

/// `clean_line` applied to every line.
pub open spec fn clean_all(ls: Seq<Seq<char>>) -> Seq<Seq<char>> {
    Seq::new(ls.len(), |i: int| clean_line(ls[i]))
}

/// The document reduced to prose, line for line (`clean_lines`).
pub open spec fn spec_clean_lines(s: Seq<char>) -> Seq<char> {
    join_nl(clean_all(lines_of(spec_strip_fences(s))))
}

pub proof fn lemma_trim_len(s: Seq<char>)
    ensures
        trim_start(s).len() <= s.len(),
        trim_end(s).len() <= s.len(),
    decreases s.len(),
{
    if s.len() > 0 {
        lemma_trim_len(s.drop_first());
        lemma_trim_len(s.drop_last());
    }
}

/// Cleaning never lengthens the text.
pub proof fn lemma_clean_lines_len(s: Seq<char>)
    ensures
        spec_clean_lines(s).len() <= s.len(),
{
    let d = spec_strip_fences(s);
    lemma_strip_fences_from(s, 0);
    assert(s.subrange(0, s.len() as int) =~= s);
    let ls = lines_of(d);
    lemma_lines_of_len(d);
    assert forall|k: int| 0 <= k < ls.len() implies #[trigger] clean_all(ls)[k].len() <= ls[k].len() by {
        lemma_strip_inline_len(ls[k], 0);
        lemma_trim_len(strip_inline_from(ls[k], 0));
    }
    lemma_join_nl_mono(clean_all(ls), ls);
}

/// Cleans one line.
pub fn clean_line_exec(raw: &Vec<char>) -> (r: Vec<char>)
    ensures
        r@ == clean_line(raw@),
{
    let t = trimmed_start(raw);
    if t.len() > 0 && (t[0] == '|' || t[0] == '#') {
        return Vec::new();
    }
    let st = strip_inline(raw);
    let tt = trimmed(&st);
    if tt.len() == 0 {
        Vec::new()
    } else {
        trimmed_end(&st)
    }
}

/// Joins lines with `'\n'`.
pub fn join_lines(ls: &Vec<Vec<char>>) -> (r: Vec<char>)
    ensures
        r@ == join_nl(seqs_of(ls@)),
{
    let mut out: Vec<char> = Vec::new();
    let mut k: usize = 0;
    while k < ls.len()
        invariant
            k <= ls.len(),
            out@ == join_nl(seqs_of(ls@).take(k as int)),
        decreases ls.len() - k,
    {
        let ghost before = out@;
        if k > 0 {
            out.push('\n');
        }
        push_all(&mut out, &ls[k]);
        proof {
            let t = seqs_of(ls@).take(k + 1);
            assert(t.drop_last() =~= seqs_of(ls@).take(k as int));
            if k == 0 {
                assert(out@ =~= join_nl(t));
            } else {
                assert(out@ =~= join_nl(t));
            }
        }
        k = k + 1;
    }
    assert(seqs_of(ls@).take(ls.len() as int) =~= seqs_of(ls@));
    out
}

/// The document reduced to prose, line for line.
pub fn clean_lines_chars(s: &Vec<char>) -> (r: Vec<char>)
    ensures
        r@ == spec_clean_lines(s@),
{
    let d = strip_fences_chars(s);
    let ls = split_lines(&d);
    let mut cl: Vec<Vec<char>> = Vec::new();
    let mut k: usize = 0;
    while k < ls.len()
        invariant
            k <= ls.len(),
            seqs_of(ls@) == lines_of(spec_strip_fences(s@)),
            seqs_of(cl@) == clean_all(seqs_of(ls@)).take(k as int),
        decreases ls.len() - k,
    {
        let c = clean_line_exec(&ls[k]);
        proof {
            lemma_seqs_of_push(cl@, c);
        }
        cl.push(c);
        k = k + 1;
        assert(seqs_of(cl@) =~= clean_all(seqs_of(ls@)).take(k as int));
    }
    assert(clean_all(seqs_of(ls@)).take(ls.len() as int) =~= clean_all(seqs_of(ls@)));
    join_lines(&cl)
}

/// The document as prose only (`prose::clean_lines`): code fences, table and
/// heading lines become blank lines, inline code, URLs, section references
/// and ledger ids are stripped, trailing White_Space dropped.
pub fn clean_lines(text: &str) -> (r: String)
    ensures
        r@ == spec_clean_lines(text@),
{
    let s = chars_of(text);
    let c = clean_lines_chars(&s);
    string_of(&c)
}

/// Blanks out the code fences of a document (`prose::strip_fences`).
pub fn strip_fences(text: &str) -> (r: String)
    ensures
        r@ == spec_strip_fences(text@),
        count_char(r@, '\n') == count_char(text@, '\n'),
{
    let s = chars_of(text);
    proof {
        lemma_strip_fences_from(s@, 0);
        assert(s@.subrange(0, s@.len() as int) =~= s@);
    }
    let c = strip_fences_chars(&s);
    string_of(&c)
}

} // verus!

verus! {

// ---------------------------------------------------------------------------
// Prose units: paragraphs, with runs of bullet paragraphs merged.

/// A digit of a numbered-list marker (ASCII or full-width).
pub open spec fn is_list_digit(c: char) -> bool {
    ('0' <= c && c <= '9') || ('０' <= c && c <= '９')
}

/// End of the run of list-marker digits starting at `j`.
pub open spec fn run_list_digits(s: Seq<char>, j: int) -> int
    decreases s.len() - j,
{
    if 0 <= j < s.len() && is_list_digit(s[j]) {
        run_list_digits(s, j + 1)
    } else {
        j
    }
}

/// `t` begins with a list marker: `-`, `*` or `+` and a space or tab, `・`,
/// or digits followed by `.`, `．` or `)`.
pub open spec fn bullet_start(t: Seq<char>) -> bool {
    (t.len() >= 2 && (t[0] == '-' || t[0] == '*' || t[0] == '+') && (t[1] == ' ' || t[1] == '\t'))
        || (t.len() >= 1 && t[0] == '・')
        || ({
        let e = run_list_digits(t, 0);
        0 < e < t.len() && (t[e] == '.' || t[e] == '．' || t[e] == ')')
    })
}

fn list_digits_end(s: &Vec<char>, j: usize) -> (e: usize)
    requires
        j <= s.len(),
    ensures
        j <= e <= s.len(),
        e == run_list_digits(s@, j as int),
{
    let mut e = j;
    while e < s.len() && (('0' <= s[e] && s[e] <= '9') || ('０' <= s[e] && s[e] <= '９'))
        invariant
            j <= e <= s.len(),
            run_list_digits(s@, j as int) == run_list_digits(s@, e as int),
        decreases s.len() - e,
    {
        e = e + 1;
    }
    e
}

/// Decides `bullet_start`.
pub fn is_bullet_start(t: &Vec<char>) -> (r: bool)
    ensures
        r == bullet_start(t@),
{
    if t.len() >= 2 && (t[0] == '-' || t[0] == '*' || t[0] == '+') && (t[1] == ' ' || t[1] == '\t') {
        return true;
    }
    if t.len() >= 1 && t[0] == '・' {
        return true;
    }
    let e = list_digits_end(t, 0);
    0 < e && e < t.len() && (t[e] == '.' || t[e] == '．' || t[e] == ')')
}

/// A line of a bullet block: blank, or starting with a list marker.
pub open spec fn bullet_line_ok(l: Seq<char>) -> bool {
    trim_start(l).len() == 0 || bullet_start(trim_start(l))
}

/// Every non-blank line of `seg` starts with a list marker, and there is one.
pub open spec fn is_bullet_block(seg: Seq<char>) -> bool {
    let ls = lines_of(seg);
    &&& forall|k: int| 0 <= k < ls.len() ==> #[trigger] bullet_line_ok(ls[k])
    &&& exists|k: int| 0 <= k < ls.len() && #[trigger] trim_start(ls[k]).len() > 0
}

/// Decides `is_bullet_block`.
pub fn bullet_block(seg: &Vec<char>) -> (r: bool)
    ensures
        r == is_bullet_block(seg@),
{
    let ls = split_lines(seg);
    let ghost g = seqs_of(ls@);
    let mut any = false;
    let mut k: usize = 0;
    while k < ls.len()
        invariant
            k <= ls.len(),
            g == seqs_of(ls@),
            g == lines_of(seg@),
            forall|j: int| 0 <= j < k ==> #[trigger] bullet_line_ok(g[j]),
            any == exists|j: int| 0 <= j < k && #[trigger] trim_start(g[j]).len() > 0,
        decreases ls.len() - k,
    {
        let t = trimmed_start(&ls[k]);
        assert(t@ == trim_start(g[k as int]));
        if t.len() > 0 {
            if !is_bullet_start(&t) {
                assert(!bullet_line_ok(g[k as int]));
                return false;
            }
            any = true;
        }
        k = k + 1;
    }
    any
}

/// Number of leading newlines of `s`.
pub open spec fn lead_nl(s: Seq<char>) -> nat
    decreases s.len(),
{
    if s.len() > 0 && s[0] == '\n' {
        1 + lead_nl(s.drop_first())
    } else {
        0
    }
}

/// A prose unit's model: its first line, its text, and whether it is a bullet group.
pub type UnitV = (int, Seq<char>, bool);

/// One paragraph folded into the units: blank paragraphs end a bullet group,
/// a bullet paragraph joins a preceding bullet group, anything else starts a
/// unit at its first non-empty line.
pub open spec fn unit_step(units: Seq<UnitV>, line: int, para: Seq<char>) -> Seq<UnitV> {
    if trim(para).len() == 0 {
        if units.len() > 0 {
            units.update(units.len() - 1, (units.last().0, units.last().1, false))
        } else {
            units
        }
    } else {
        let b = is_bullet_block(para);
        if units.len() > 0 && units.last().2 && b {
            units.update(units.len() - 1, (units.last().0, units.last().1.push('\n') + para, true))
        } else {
            units.push((line + lead_nl(para), para, b))
        }
    }
}

/// The two-newline paragraph separator.
pub open spec fn para_sep() -> Seq<char> {
    seq!['\n', '\n']
}

/// The units of `c[i..]`, given the units so far and the line `c[i..]` starts on.
pub open spec fn units_from(c: Seq<char>, i: int, units: Seq<UnitV>, line: int) -> Seq<UnitV>
    decreases c.len() - i,
{
    if i < 0 || i > c.len() {
        units
    } else {
        match find_from(c, para_sep(), i) {
            None => unit_step(units, line, c.subrange(i, c.len() as int)),
            Some(p) => {
                proof {
                    lemma_find_from(c, para_sep(), i);
                }
                units_from(
                    c,
                    p + 2,
                    unit_step(units, line, c.subrange(i, p)),
                    line + count_char(c.subrange(i, p), '\n') + 2,
                )
            },
        }
    }
}

/// The prose units of a document (`prose::prose_units`).
pub open spec fn spec_prose_units(text: Seq<char>) -> Seq<UnitV> {
    units_from(spec_clean_lines(text), 0, Seq::empty(), 1)
}

/// A prose unit: a paragraph, or consecutive bullet paragraphs merged.
pub struct Unit {
    pub line: usize,
    pub text: Vec<char>,
    pub is_bullet: bool,
}

/// The models of a list of units.
pub open spec fn units_view(v: Seq<Unit>) -> Seq<UnitV> {
    Seq::new(v.len(), |i: int| (v[i].line as int, v[i].text@, v[i].is_bullet))
}

pub proof fn lemma_lead_nl(s: Seq<char>)
    ensures
        lead_nl(s) <= s.len(),
        forall|k: int| 0 <= k < lead_nl(s) ==> s[k] == '\n',
        lead_nl(s) < s.len() ==> s[lead_nl(s) as int] != '\n',
        count_char(s.take(lead_nl(s) as int), '\n') == lead_nl(s),
    decreases s.len(),
{
    if s.len() > 0 && s[0] == '\n' {
        lemma_lead_nl(s.drop_first());
        let n = lead_nl(s.drop_first());
        assert forall|k: int| 0 <= k < lead_nl(s) implies s[k] == '\n' by {
            if k > 0 {
                assert(s[k] == s.drop_first()[k - 1]);
            }
        }
        assert(s.take(n + 1 as int) =~= seq!['\n'] + s.drop_first().take(n as int));
        lemma_count_char_concat(seq!['\n'], s.drop_first().take(n as int), '\n');
        assert(seq!['\n'].drop_last() =~= Seq::<char>::empty());
        lemma_count_char_single('\n', '\n');
        assert(lead_nl(s) == n + 1);
    } else {
        assert(s.take(0) =~= Seq::<char>::empty());
    }
}

pub proof fn lemma_trim_blank_all_ws(s: Seq<char>)
    requires
        trim(s).len() > 0,
    ensures
        exists|k: int| 0 <= k < s.len() && !is_white_space(#[trigger] s[k]),
    decreases s.len(),
{
    if s.len() > 0 && is_white_space(s[0]) {
        assert(trim(s) == trim(s.drop_first()));
        lemma_trim_blank_all_ws(s.drop_first());
        let k = choose|k: int| 0 <= k < s.drop_first().len() && !is_white_space(#[trigger] s.drop_first()[k]);
        assert(s[k + 1] == s.drop_first()[k]);
    } else if s.len() > 0 {
        assert(!is_white_space(s[0]));
    } else {
        assert(trim(s) =~= Seq::<char>::empty());
    }
}

/// A non-blank paragraph has a character past its leading newlines.
pub proof fn lemma_lead_nl_nonblank(s: Seq<char>)
    requires
        trim(s).len() > 0,
    ensures
        lead_nl(s) < s.len(),
{
    lemma_lead_nl(s);
    lemma_trim_blank_all_ws(s);
    if lead_nl(s) == s.len() {
        let k = choose|k: int| 0 <= k < s.len() && !is_white_space(#[trigger] s[k]);
        assert(s[k] == '\n');
        assert(is_white_space('\n'));
    }
}

fn lead_nl_exec(s: &Vec<char>) -> (n: usize)
    ensures
        n == lead_nl(s@),
{
    let mut n: usize = 0;
    assert(s@.subrange(0, s.len() as int) =~= s@);
    while n < s.len() && s[n] == '\n'
        invariant
            n <= s.len(),
            lead_nl(s@) == n + lead_nl(s@.subrange(n as int, s.len() as int)),
        decreases s.len() - n,
    {
        assert(s@.subrange(n as int, s.len() as int).drop_first() =~= s@.subrange(n + 1, s.len() as int));
        n = n + 1;
    }
    assert(s@.subrange(0, s.len() as int) =~= s@);
    n
}

/// Folds one paragraph into the units (`unit_step`).
fn push_para(units: &mut Vec<Unit>, line: usize, para: Vec<char>)
    requires
        trim(para@).len() > 0 ==> line + para@.len() <= usize::MAX,
    ensures
        units_view(final(units)@) == unit_step(units_view(old(units)@), line as int, para@),
{
    let t = trimmed(&para);
    if t.len() == 0 {
        if units.len() > 0 {
            let mut u = units.pop().unwrap();
            u.is_bullet = false;
            units.push(u);
            assert(units_view(units@) =~= unit_step(units_view(old(units)@), line as int, para@));
        }
        return;
    }
    let b = bullet_block(&para);
    if units.len() > 0 && units[units.len() - 1].is_bullet && b {
        let mut u = units.pop().unwrap();
        u.text.push('\n');
        push_all(&mut u.text, &para);
        units.push(u);
        assert(units_view(units@) =~= unit_step(units_view(old(units)@), line as int, para@));
    } else {
        proof {
            lemma_lead_nl_nonblank(para@);
        }
        let lead = lead_nl_exec(&para);
        units.push(Unit { line: line + lead, text: para, is_bullet: b });
        assert(units_view(units@) =~= unit_step(units_view(old(units)@), line as int, para@));
    }
}

proof fn lemma_unit_step_bound(units: Seq<UnitV>, line: int, para: Seq<char>, i: int, e: int)
    requires
        e == i + para.len(),
        1 <= line <= 1 + i,
        forall|k: int| 0 <= k < units.len() ==> 1 <= (#[trigger] units[k]).0 <= i - 1 && units[k].1.len() + 2 <= i,
    ensures
        forall|k: int|
            0 <= k < unit_step(units, line, para).len() ==> 1 <= (#[trigger] unit_step(units, line, para)[k]).0 <= e + 1
                && unit_step(units, line, para)[k].1.len() <= e,
{
    lemma_lead_nl(para);
    let r = unit_step(units, line, para);
    assert forall|k: int| 0 <= k < r.len() implies 1 <= (#[trigger] r[k]).0 <= e + 1 && r[k].1.len() <= e by {
        if k < units.len() {
            assert(units[k].1.len() + 2 <= i);
        }
    }
}

/// Every prose unit starts within the document and is no longer than it.
pub proof fn lemma_units_from_bound(c: Seq<char>, i: int, units: Seq<UnitV>, line: int)
    requires
        0 <= i <= c.len(),
        line == 1 + count_char(c.take(i), '\n'),
        forall|k: int| 0 <= k < units.len() ==> 1 <= (#[trigger] units[k]).0 <= i - 1 && units[k].1.len() + 2 <= i,
    ensures
        forall|k: int|
            0 <= k < units_from(c, i, units, line).len() ==> 1 <= (#[trigger] units_from(c, i, units, line)[k]).0 <= c.len()
                + 1 && units_from(c, i, units, line)[k].1.len() <= c.len(),
    decreases c.len() - i,
{
    lemma_find_from(c, para_sep(), i);
    lemma_count_char_le(c.take(i), '\n');
    match find_from(c, para_sep(), i) {
        None => {
            lemma_unit_step_bound(units, line, c.subrange(i, c.len() as int), i, c.len() as int);
            assert(units_from(c, i, units, line) == unit_step(units, line, c.subrange(i, c.len() as int)));
        },
        Some(p) => {
            let para = c.subrange(i, p);
            lemma_unit_step_bound(units, line, para, i, p);
            let u2 = unit_step(units, line, para);
            lemma_count_char_concat(c.take(i), para, '\n');
            assert(c.take(i) + para =~= c.take(p));
            lemma_count_char_concat(c.take(p), para_sep(), '\n');
            assert(c.take(p) + para_sep() =~= c.take(p + 2));
            assert(para_sep().drop_last().drop_last() =~= Seq::<char>::empty());
            assert(para_sep().drop_last() =~= seq!['\n']);
            lemma_count_char_single('\n', '\n');
            assert(count_char(para_sep(), '\n') == 2);
            assert forall|k: int| 0 <= k < u2.len() implies 1 <= (#[trigger] u2[k]).0 <= p + 2 - 1 && u2[k].1.len() + 2
                <= p + 2 by {}
            assert(line + count_char(para, '\n') + 2 == 1 + count_char(c.take(p + 2), '\n'));
            lemma_units_from_bound(c, p + 2, u2, line + count_char(para, '\n') + 2);
            assert(units_from(c, i, units, line) == units_from(c, p + 2, u2, line + count_char(para, '\n') + 2));
        },
    }
}

/// The prose units of a document start within it and are no longer than it.
pub proof fn lemma_prose_units_bound(text: Seq<char>)
    ensures
        forall|k: int|
            0 <= k < spec_prose_units(text).len() ==> 1 <= (#[trigger] spec_prose_units(text)[k]).0 <= text.len() + 1
                && spec_prose_units(text)[k].1.len() <= text.len(),
{
    let c = spec_clean_lines(text);
    lemma_clean_lines_len(text);
    assert(c.take(0) =~= Seq::<char>::empty());
    lemma_units_from_bound(c, 0, Seq::empty(), 1);
}

/// The total length of the texts of some units.
pub open spec fn units_total(us: Seq<UnitV>) -> nat
    decreases us.len(),
{
    if us.len() == 0 {
        0
    } else {
        units_total(us.drop_last()) + us.last().1.len()
    }
}

proof fn lemma_units_total_update(us: Seq<UnitV>, i: int, x: UnitV)
    requires
        0 <= i < us.len(),
    ensures
        units_total(us.update(i, x)) + us[i].1.len() == units_total(us) + x.1.len(),
    decreases us.len(),
{
    if i < us.len() - 1 {
        lemma_units_total_update(us.drop_last(), i, x);
        assert(us.update(i, x).drop_last() =~= us.drop_last().update(i, x));
    } else {
        assert(us.update(i, x).drop_last() =~= us.drop_last());
    }
}

proof fn lemma_unit_step_total(units: Seq<UnitV>, line: int, para: Seq<char>)
    ensures
        units_total(unit_step(units, line, para)) <= units_total(units) + para.len() + 1,
{
    if trim(para).len() == 0 {
        if units.len() > 0 {
            lemma_units_total_update(units, units.len() - 1, (units.last().0, units.last().1, false));
        }
    } else {
        let b = is_bullet_block(para);
        if units.len() > 0 && units.last().2 && b {
            lemma_units_total_update(
                units,
                units.len() - 1,
                (units.last().0, units.last().1.push('\n') + para, true),
            );
        } else {
            let x = (line + lead_nl(para), para, b);
            assert(units.push(x).drop_last() =~= units);
        }
    }
}

/// The units of `c[i..]` add at most one character more than `c[i..]` holds.
pub proof fn lemma_units_from_total(c: Seq<char>, i: int, units: Seq<UnitV>, line: int)
    requires
        0 <= i <= c.len(),
    ensures
        units_total(units_from(c, i, units, line)) <= units_total(units) + (c.len() - i) + 1,
    decreases c.len() - i,
{
    lemma_find_from(c, para_sep(), i);
    match find_from(c, para_sep(), i) {
        None => {
            lemma_unit_step_total(units, line, c.subrange(i, c.len() as int));
        },
        Some(p) => {
            let para = c.subrange(i, p);
            lemma_unit_step_total(units, line, para);
            let u2 = unit_step(units, line, para);
            lemma_units_from_total(c, p + 2, u2, line + count_char(para, '\n') + 2);
        },
    }
}

/// The texts of the prose units of a document hold at most one character more than it.
pub proof fn lemma_prose_units_total(text: Seq<char>)
    ensures
        units_total(spec_prose_units(text)) <= text.len() + 1,
{
    lemma_clean_lines_len(text);
    lemma_units_from_total(spec_clean_lines(text), 0, Seq::empty(), 1);
}

/// The prose units of the cleaned text `c`.
pub fn units_of_clean(c: &Vec<char>) -> (r: Vec<Unit>)
    requires
        c.len() < usize::MAX,
    ensures
        units_view(r@) == units_from(c@, 0, Seq::empty(), 1),
{
    let sep = vec!['\n', '\n'];
    assert(sep@ =~= para_sep());
    let mut units: Vec<Unit> = Vec::new();
    let mut i: usize = 0;
    let mut line: usize = 1;
    assert(c@.take(0) =~= Seq::<char>::empty());
    assert(units_view(units@) =~= Seq::<UnitV>::empty());
    loop
        invariant
            i <= c.len() < usize::MAX,
            sep@ == para_sep(),
            line == 1 + count_char(c@.take(i as int), '\n'),
            units_from(c@, 0, Seq::empty(), 1) == units_from(c@, i as int, units_view(units@), line as int),
        decreases c.len() - i,
    {
        proof {
            lemma_find_from(c@, para_sep(), i as int);
            lemma_count_char_le(c@.take(i as int), '\n');
        }
        match find(c, &sep, i) {
            None => {
                let para = slice_of(c, i, c.len());
                proof {
                    lemma_count_char_le(para@, '\n');
                }
                push_para(&mut units, line, para);
                return units;
            },
            Some(p) => {
                let para = slice_of(c, i, p);
                let nl = count_of(&para, '\n');
                proof {
                    lemma_count_char_concat(c@.take(i as int), para@, '\n');
                    assert(c@.take(i as int) + para@ =~= c@.take(p as int));
                    lemma_count_char_concat(c@.take(p as int), para_sep(), '\n');
                    assert(c@.take(p as int) + para_sep() =~= c@.take(p + 2));
                    assert(para_sep().drop_last().drop_last() =~= Seq::<char>::empty());
                    assert(para_sep().drop_last() =~= seq!['\n']);
                    assert(seq!['\n'].drop_last() =~= Seq::<char>::empty());
                    lemma_count_char_single('\n', '\n');
                    assert(count_char(para_sep(), '\n') == 2);
                    lemma_count_char_le(c@.take(p + 2), '\n');
                }
                push_para(&mut units, line, para);
                line = line + nl + 2;
                i = p + 2;
            },
        }
    }
}

/// The prose units of a document.
pub fn units_of(s: &Vec<char>) -> (r: Vec<Unit>)
    requires
        s.len() < usize::MAX,
    ensures
        units_view(r@) == spec_prose_units(s@),
{
    let c = clean_lines_chars(s);
    proof {
        lemma_clean_lines_len(s@);
    }
    units_of_clean(&c)
}

} // verus!

verus! {

/// A prose unit of a document: a paragraph, or consecutive bullet paragraphs
/// merged; `line` is its first non-empty line (1-based).
pub struct ProseUnit {
    pub line: usize,
    pub text: String,
    /// Whether each line of `text` is an independent bullet item.
    pub is_bullet: bool,
}

/// The models of a list of prose units.
pub open spec fn prose_units_view(v: Seq<ProseUnit>) -> Seq<UnitV> {
    Seq::new(v.len(), |i: int| (v[i].line as int, v[i].text@, v[i].is_bullet))
}

/// The prose units of a document (paragraphs and merged bullet groups).
pub fn prose_units(text: &str) -> (r: Vec<ProseUnit>)
    requires
        text@.len() < usize::MAX,
    ensures
        prose_units_view(r@) == spec_prose_units(text@),
{
    let s = chars_of(text);
    let us = units_of(&s);
    let mut out: Vec<ProseUnit> = Vec::new();
    let mut k: usize = 0;
    while k < us.len()
        invariant
            k <= us.len(),
            prose_units_view(out@) == units_view(us@).take(k as int),
        decreases us.len() - k,
    {
        let t = string_of(&us[k].text);
        let ghost prev = out@;
        let u = ProseUnit { line: us[k].line, text: t, is_bullet: us[k].is_bullet };
        assert((u.line as int, u.text@, u.is_bullet) == units_view(us@)[k as int]);
        out.push(u);
        assert(prose_units_view(out@) =~= prose_units_view(prev).push(units_view(us@)[k as int]));
        assert(units_view(us@).take(k + 1) =~= units_view(us@).take(k as int).push(units_view(us@)[k as int]));
        k = k + 1;
    }
    assert(units_view(us@).take(us.len() as int) =~= units_view(us@));
    out
}

// ---------------------------------------------------------------------------
// Sentences: split at 。！？, joined across wrapped lines, cut at blank lines.

/// A sentence terminator.
pub open spec fn is_terminator(c: char) -> bool {
    c == '。' || c == '！' || c == '？'
}

/// A sentence's model: the line it starts on and its text.
pub type SentV = (int, Seq<char>);

/// Sentence-splitting state: sentences so far, the pending buffer, and the
/// line the buffer started on.
pub type SentState = (Seq<SentV>, Seq<char>, int);

/// The pending buffer becomes a sentence if it is not blank.
pub open spec fn sent_flush(st: SentState) -> SentState {
    if trim(st.1).len() > 0 {
        (st.0.push((st.2, trim(st.1))), Seq::empty(), st.2)
    } else {
        (st.0, Seq::empty(), st.2)
    }
}

/// One character: a terminator closes the sentence, which the next one starts
/// on the current line.
pub open spec fn sent_char(st: SentState, c: char, lineno: int) -> SentState {
    let buf = st.1.push(c);
    if is_terminator(c) {
        (st.0.push((st.2, trim(buf))), Seq::empty(), lineno)
    } else {
        (st.0, buf, st.2)
    }
}

/// The characters `cs` folded in, left to right.
pub open spec fn sent_chars(st: SentState, cs: Seq<char>, lineno: int) -> SentState
    decreases cs.len(),
{
    if cs.len() == 0 {
        st
    } else {
        sent_char(sent_chars(st, cs.drop_last(), lineno), cs.last(), lineno)
    }
}

/// One line: a blank line ends the pending sentence; otherwise its trimmed
/// characters are appended (the buffer starts on this line if it was empty).
pub open spec fn sent_line(st: SentState, raw: Seq<char>, lineno: int) -> SentState {
    let t = trim(raw);
    if t.len() == 0 {
        sent_flush(st)
    } else {
        let st1 = if st.1.len() == 0 {
            (st.0, st.1, lineno)
        } else {
            st
        };
        sent_chars(st1, t, lineno)
    }
}

/// The first `k` lines folded in.
pub open spec fn sent_lines(ls: Seq<Seq<char>>, k: int) -> SentState
    decreases k,
{
    if k <= 0 {
        (Seq::empty(), Seq::empty(), 0)
    } else {
        sent_line(sent_lines(ls, k - 1), ls[k - 1], k)
    }
}

/// The sentences of a document (`prose::sentences`).
pub open spec fn spec_sentences(text: Seq<char>) -> Seq<SentV> {
    let ls = lines_of(spec_clean_lines(text));
    sent_flush(sent_lines(ls, ls.len() as int)).0
}

/// The total length of the sentences.
pub open spec fn sent_total(ss: Seq<SentV>) -> nat
    decreases ss.len(),
{
    if ss.len() == 0 {
        0
    } else {
        sent_total(ss.drop_last()) + ss.last().1.len()
    }
}

/// The total length of some lines.
pub open spec fn lines_total(ls: Seq<Seq<char>>, k: int) -> nat
    decreases k,
{
    if k <= 0 || k > ls.len() {
        0
    } else {
        lines_total(ls, k - 1) + ls[k - 1].len()
    }
}

pub proof fn lemma_trim_total(s: Seq<char>)
    ensures
        trim(s).len() <= s.len(),
{
    lemma_trim_len(s);
    lemma_trim_len(trim_start(s));
}

/// What the sentence state holds: its sentences (each non-empty) and its buffer.
pub open spec fn state_ok(st: SentState, budget: int) -> bool {
    &&& sent_total(st.0) + st.1.len() <= budget
    &&& forall|k: int| 0 <= k < st.0.len() ==> (#[trigger] st.0[k]).1.len() >= 1
}

proof fn lemma_total_push(ss: Seq<SentV>, x: SentV)
    ensures
        sent_total(ss.push(x)) == sent_total(ss) + x.1.len(),
{
    assert(ss.push(x).drop_last() =~= ss);
}

proof fn lemma_flush_ok(st: SentState, budget: int)
    requires
        state_ok(st, budget),
    ensures
        state_ok(sent_flush(st), budget),
{
    lemma_trim_total(st.1);
    if trim(st.1).len() > 0 {
        lemma_total_push(st.0, (st.2, trim(st.1)));
        let n = sent_flush(st).0;
        assert forall|k: int| 0 <= k < n.len() implies (#[trigger] n[k]).1.len() >= 1 by {
            if k < st.0.len() {
                assert(n[k] == st.0[k]);
            }
        }
    }
}

proof fn lemma_chars_ok(st: SentState, cs: Seq<char>, lineno: int, budget: int)
    requires
        state_ok(st, budget),
    ensures
        state_ok(sent_chars(st, cs, lineno), budget + cs.len()),
    decreases cs.len(),
{
    if cs.len() > 0 {
        lemma_chars_ok(st, cs.drop_last(), lineno, budget);
        let s1 = sent_chars(st, cs.drop_last(), lineno);
        let c = cs.last();
        let buf = s1.1.push(c);
        if is_terminator(c) {
            lemma_trim_total(buf);
            lemma_total_push(s1.0, (s1.2, trim(buf)));
            assert(trim(buf).len() >= 1) by {
                lemma_trim_keeps_last(buf);
            }
            let n = sent_char(s1, c, lineno).0;
            assert forall|k: int| 0 <= k < n.len() implies (#[trigger] n[k]).1.len() >= 1 by {
                if k < s1.0.len() {
                    assert(n[k] == s1.0[k]);
                }
            }
        }
    }
}

/// A sequence ending in a non-blank character trims to a non-empty one.
pub proof fn lemma_trim_keeps_last(s: Seq<char>)
    requires
        s.len() > 0,
        !is_white_space(s.last()),
    ensures
        trim(s).len() >= 1,
    decreases s.len(),
{
    if s.len() > 0 && is_white_space(s[0]) {
        assert(s.drop_first().last() == s.last());
        lemma_trim_keeps_last(s.drop_first());
    } else {
        assert(trim_start(s) == s);
        assert(trim_end(s) == s);
    }
}

proof fn lemma_lines_ok(ls: Seq<Seq<char>>, k: int)
    requires
        0 <= k <= ls.len(),
    ensures
        state_ok(sent_lines(ls, k), lines_total(ls, k) as int),
    decreases k,
{
    if k > 0 {
        lemma_lines_ok(ls, k - 1);
        let st = sent_lines(ls, k - 1);
        let b = lines_total(ls, k - 1) as int;
        let t = trim(ls[k - 1]);
        lemma_trim_total(ls[k - 1]);
        if t.len() == 0 {
            lemma_flush_ok(st, b);
        } else {
            let st1 = if st.1.len() == 0 {
                (st.0, st.1, k)
            } else {
                st
            };
            lemma_chars_ok(st1, t, k, b);
        }
    }
}

proof fn lemma_lines_total_join(ls: Seq<Seq<char>>)
    ensures
        lines_total(ls, ls.len() as int) <= crate::text::join_nl(ls).len(),
    decreases ls.len(),
{
    if ls.len() > 1 {
        lemma_lines_total_join(ls.drop_last());
        lemma_lines_total_prefix(ls, ls.len() - 1);
        assert(crate::text::join_nl(ls) == crate::text::join_nl(ls.drop_last()).push('\n') + ls.last());
    } else if ls.len() == 1 {
        assert(lines_total(ls, 0) == 0);
    }
}

proof fn lemma_lines_total_prefix(ls: Seq<Seq<char>>, k: int)
    requires
        0 <= k <= ls.len() - 1,
    ensures
        lines_total(ls.drop_last(), k) == lines_total(ls, k),
    decreases k,
{
    if k > 0 {
        lemma_lines_total_prefix(ls, k - 1);
    }
}

/// The sentences of a document are non-empty and, together, no longer than it.
pub proof fn lemma_sentences_bound(text: Seq<char>)
    ensures
        sent_total(spec_sentences(text)) <= text.len(),
        spec_sentences(text).len() <= sent_total(spec_sentences(text)),
        forall|k: int| 0 <= k < spec_sentences(text).len() ==> (#[trigger] spec_sentences(text)[k]).1.len() >= 1,
{
    let c = spec_clean_lines(text);
    let ls = lines_of(c);
    lemma_lines_ok(ls, ls.len() as int);
    lemma_flush_ok(sent_lines(ls, ls.len() as int), lines_total(ls, ls.len() as int) as int);
    lemma_lines_total_join(ls);
    crate::text::lemma_lines_of_len(c);
    lemma_clean_lines_len(text);
    lemma_count_le_total(spec_sentences(text));
}

proof fn lemma_count_le_total(ss: Seq<SentV>)
    requires
        forall|k: int| 0 <= k < ss.len() ==> (#[trigger] ss[k]).1.len() >= 1,
    ensures
        ss.len() <= sent_total(ss),
    decreases ss.len(),
{
    if ss.len() > 0 {
        assert forall|k: int| 0 <= k < ss.drop_last().len() implies (#[trigger] ss.drop_last()[k]).1.len() >= 1 by {
            assert(ss.drop_last()[k] == ss[k]);
        }
        lemma_count_le_total(ss.drop_last());
    }
}

/// The models of a list of sentences.
pub open spec fn sents_view(v: Seq<(usize, Vec<char>)>) -> Seq<SentV> {
    Seq::new(v.len(), |i: int| (v[i].0 as int, v[i].1@))
}

fn flush_sentence(out: &mut Vec<(usize, Vec<char>)>, buf: &mut Vec<char>, start: usize)
    ensures
        (sents_view(final(out)@), final(buf)@, start as int) == sent_flush(
            (sents_view(old(out)@), old(buf)@, start as int),
        ),
{
    let t = trimmed(buf);
    if t.len() > 0 {
        out.push((start, t));
        assert(sents_view(out@) =~= sents_view(old(out)@).push((start as int, trim(old(buf)@))));
    }
    *buf = Vec::new();
}

/// The sentences of the document `s`, each with its starting line.
pub fn sentences_of(s: &Vec<char>) -> (r: Vec<(usize, Vec<char>)>)
    ensures
        sents_view(r@) == spec_sentences(s@),
{
    let c = clean_lines_chars(s);
    let ls = split_lines(&c);
    let ghost g = seqs_of(ls@);
    let mut out: Vec<(usize, Vec<char>)> = Vec::new();
    let mut buf: Vec<char> = Vec::new();
    let mut start: usize = 0;
    let mut i: usize = 0;
    assert(sents_view(out@) =~= Seq::<SentV>::empty());
    while i < ls.len()
        invariant
            i <= ls.len(),
            g == seqs_of(ls@),
            g == lines_of(spec_clean_lines(s@)),
            (sents_view(out@), buf@, start as int) == sent_lines(g, i as int),
        decreases ls.len() - i,
    {
        let lineno = i + 1;
        let t = trimmed(&ls[i]);
        if t.len() == 0 {
            flush_sentence(&mut out, &mut buf, start);
        } else {
            if buf.len() == 0 {
                start = lineno;
            }
            let ghost st1 = (sents_view(out@), buf@, start as int);
            let mut j: usize = 0;
            assert(t@.take(0) =~= Seq::<char>::empty());
            while j < t.len()
                invariant
                    j <= t.len(),
                    lineno == i + 1,
                    (sents_view(out@), buf@, start as int) == sent_chars(st1, t@.take(j as int), lineno as int),
                decreases t.len() - j,
            {
                let ch = t[j];
                proof {
                    assert(t@.take(j + 1).drop_last() =~= t@.take(j as int));
                }
                buf.push(ch);
                if ch == '。' || ch == '！' || ch == '？' {
                    let tb = trimmed(&buf);
                    out.push((start, tb));
                    buf = Vec::new();
                    start = lineno;
                }
                j = j + 1;
                assert(sents_view(out@) =~= sent_chars(st1, t@.take(j as int), lineno as int).0);
            }
            assert(t@.take(t.len() as int) =~= t@);
        }
        i = i + 1;
    }
    flush_sentence(&mut out, &mut buf, start);
    out
}

/// The sentences of a document (`prose::sentences`): split after 。！？,
/// joined across wrapped lines, cut at blank and structural lines; each with
/// the line it starts on.
pub fn sentences(text: &str) -> (r: Vec<(usize, String)>)
    ensures
        r@.len() == spec_sentences(text@).len(),
        forall|k: int| 0 <= k < r@.len() ==> (#[trigger] r@[k].0 as int, r@[k].1@) == spec_sentences(text@)[k],
{
    let s = chars_of(text);
    let v = sentences_of(&s);
    let mut out: Vec<(usize, String)> = Vec::new();
    let mut k: usize = 0;
    while k < v.len()
        invariant
            k <= v.len(),
            sents_view(v@) == spec_sentences(s@),
            out@.len() == k,
            forall|j: int| 0 <= j < k ==> (#[trigger] out@[j].0 as int, out@[j].1@) == sents_view(v@)[j],
        decreases v.len() - k,
    {
        let t = string_of(&v[k].1);
        out.push((v[k].0, t));
        k = k + 1;
    }
    out
}

} // verus!

verus! {

// ---------------------------------------------------------------------------
// HTML to prose, keeping every line: script/style, code/pre and comments are
// blanked to their newlines, tags become a space (block tags " 。 "), and a
// few entities are decoded.

/// `c` matches the lowercase ASCII letter `l` case-insensitively (Unicode
/// simple case folding: `ſ` folds to `s`).
pub open spec fn ci_eq(c: char, l: char) -> bool {
    c == l || (c as u32) + 32 == (l as u32) || (l == 's' && c == 'ſ')
}

pub fn ci_eq_exec(c: char, l: char) -> (r: bool)
    ensures
        r == ci_eq(c, l),
{
    c == l || (c as u32) + 32 == (l as u32) || (l == 's' && c == 'ſ')
}

/// The lowercase word `w` occurs case-insensitively at `i`.
pub open spec fn ci_word_at(s: Seq<char>, i: int, w: Seq<char>) -> bool {
    0 <= i && i + w.len() <= s.len() && forall|k: int| 0 <= k < w.len() ==> #[trigger] ci_eq(s[i + k], w[k])
}

pub fn ci_word_at_exec(s: &Vec<char>, i: usize, w: &Vec<char>) -> (r: bool)
    ensures
        r == ci_word_at(s@, i as int, w@),
{
    if i > s.len() || w.len() > s.len() - i {
        return false;
    }
    let mut k: usize = 0;
    while k < w.len()
        invariant
            k <= w.len(),
            i + w.len() <= s.len(),
            forall|j: int| 0 <= j < k ==> #[trigger] ci_eq(s@[i + j], w@[j]),
        decreases w.len() - k,
    {
        if !ci_eq_exec(s[i + k], w[k]) {
            return false;
        }
        k = k + 1;
    }
    true
}

/// Which of the two element names of a blanked pair occurs at `i`, by length.
pub open spec fn pair_name_at(s: Seq<char>, i: int, a: Seq<char>, b: Seq<char>) -> int {
    if ci_word_at(s, i, a) {
        a.len() as int
    } else if ci_word_at(s, i, b) {
        b.len() as int
    } else {
        0
    }
}

/// A word boundary follows position `j - 1` (a word character): `j` is the
/// end, or `s[j]` is not a word character.
pub open spec fn boundary_at(s: Seq<char>, j: int) -> bool {
    j >= s.len() || !is_word_char(s[j])
}

/// `</name>` for one of the names `a`, `b` at `q`: its length.
pub open spec fn closing_at(s: Seq<char>, q: int, a: Seq<char>, b: Seq<char>) -> int {
    if 0 <= q && q + 2 <= s.len() && s[q] == '<' && s[q + 1] == '/' {
        let l = pair_name_at(s, q + 2, a, b);
        if l > 0 && q + 2 + l < s.len() && s[q + 2 + l] == '>' {
            l + 3
        } else {
            0
        }
    } else {
        0
    }
}

/// The end of the first closing tag for `a` or `b` at or after `q`.
pub open spec fn find_closing(s: Seq<char>, q: int, a: Seq<char>, b: Seq<char>) -> Option<int>
    decreases s.len() - q,
{
    if q < 0 || q >= s.len() {
        None
    } else if closing_at(s, q, a, b) > 0 {
        Some(q + closing_at(s, q, a, b))
    } else {
        find_closing(s, q + 1, a, b)
    }
}

/// An element `<a ...>…</a-or-b>` (names case-insensitive; the opening name
/// must end at a word boundary) starting at `i`: its end.
pub open spec fn element_match(s: Seq<char>, i: int, a: Seq<char>, b: Seq<char>) -> Option<int> {
    if 0 <= i < s.len() && s[i] == '<' {
        let l = pair_name_at(s, i + 1, a, b);
        if l > 0 && boundary_at(s, i + 1 + l) {
            match find_from(s, seq!['>'], i + 1 + l) {
                Some(g) => find_closing(s, g + 1, a, b),
                None => None,
            }
        } else {
            None
        }
    } else {
        None
    }
}

pub open spec fn script_lit() -> Seq<char> {
    seq!['s', 'c', 'r', 'i', 'p', 't']
}

pub open spec fn style_lit() -> Seq<char> {
    seq!['s', 't', 'y', 'l', 'e']
}

pub open spec fn code_lit() -> Seq<char> {
    seq!['c', 'o', 'd', 'e']
}

pub open spec fn pre_lit() -> Seq<char> {
    seq!['p', 'r', 'e']
}

pub open spec fn comment_open() -> Seq<char> {
    seq!['<', '!', '-', '-']
}

pub open spec fn comment_close() -> Seq<char> {
    seq!['-', '-', '>']
}

/// The end of the span of kind `which` starting at `i`: 0 = script/style
/// element, 1 = code or pre element, 2 = comment.
pub open spec fn blank_match(s: Seq<char>, i: int, which: int) -> Option<int> {
    if which == 0 {
        element_match(s, i, script_lit(), style_lit())
    } else if which == 1 {
        match element_match(s, i, code_lit(), code_lit()) {
            Some(e) => Some(e),
            None => element_match(s, i, pre_lit(), pre_lit()),
        }
    } else {
        if occurs_at(s, comment_open(), i) {
            match find_from(s, comment_close(), i + 4) {
                Some(q) => Some(q + 3),
                None => None,
            }
        } else {
            None
        }
    }
}

pub proof fn lemma_find_closing(s: Seq<char>, q: int, a: Seq<char>, b: Seq<char>)
    requires
        0 <= q,
    ensures
        find_closing(s, q, a, b) matches Some(e) ==> q < e <= s.len(),
    decreases s.len() - q,
{
    if q < s.len() && closing_at(s, q, a, b) == 0 {
        lemma_find_closing(s, q + 1, a, b);
    }
}

pub proof fn lemma_blank_match(s: Seq<char>, i: int, which: int)
    requires
        0 <= i,
    ensures
        blank_match(s, i, which) matches Some(e) ==> i < e <= s.len(),
{
    lemma_find_from(s, seq!['>'], 0);
    if 0 <= i < s.len() {
        let l1 = pair_name_at(s, i + 1, script_lit(), style_lit());
        lemma_find_from(s, seq!['>'], i + 1 + l1);
        match find_from(s, seq!['>'], i + 1 + l1) {
            Some(g) => lemma_find_closing(s, g + 1, script_lit(), style_lit()),
            None => {},
        }
        let l2 = pair_name_at(s, i + 1, code_lit(), code_lit());
        lemma_find_from(s, seq!['>'], i + 1 + l2);
        match find_from(s, seq!['>'], i + 1 + l2) {
            Some(g) => lemma_find_closing(s, g + 1, code_lit(), code_lit()),
            None => {},
        }
        let l3 = pair_name_at(s, i + 1, pre_lit(), pre_lit());
        lemma_find_from(s, seq!['>'], i + 1 + l3);
        match find_from(s, seq!['>'], i + 1 + l3) {
            Some(g) => lemma_find_closing(s, g + 1, pre_lit(), pre_lit()),
            None => {},
        }
        lemma_find_from(s, comment_close(), i + 4);
    }
}

/// `s[i..]` with every span of kind `which` replaced by its newlines.
pub open spec fn blank_from(s: Seq<char>, i: int, which: int) -> Seq<char>
    decreases s.len() - i,
{
    if i < 0 || i >= s.len() {
        Seq::empty()
    } else {
        proof {
            lemma_blank_match(s, i, which);
        }
        match blank_match(s, i, which) {
            Some(e) => newlines(count_char(s.subrange(i, e), '\n')) + blank_from(s, e, which),
            None => seq![s[i]] + blank_from(s, i + 1, which),
        }
    }
}

fn pair_name_at_exec(s: &Vec<char>, i: usize, a: &Vec<char>, b: &Vec<char>) -> (l: usize)
    ensures
        l == pair_name_at(s@, i as int, a@, b@),
{
    if ci_word_at_exec(s, i, a) {
        a.len()
    } else if ci_word_at_exec(s, i, b) {
        b.len()
    } else {
        0
    }
}

fn closing_at_exec(s: &Vec<char>, q: usize, a: &Vec<char>, b: &Vec<char>) -> (l: usize)
    requires
        q < s.len(),
        a.len() < 16,
        b.len() < 16,
    ensures
        l == closing_at(s@, q as int, a@, b@),
{
    if q + 1 < s.len() && s[q] == '<' && s[q + 1] == '/' {
        let l = pair_name_at_exec(s, q + 2, a, b);
        if l > 0 && q + 2 + l < s.len() && s[q + 2 + l] == '>' {
            l + 3
        } else {
            0
        }
    } else {
        0
    }
}

fn find_closing_exec(s: &Vec<char>, q0: usize, a: &Vec<char>, b: &Vec<char>) -> (r: Option<usize>)
    requires
        a.len() < 16,
        b.len() < 16,
    ensures
        match r {
            Some(e) => find_closing(s@, q0 as int, a@, b@) == Some(e as int),
            None => find_closing(s@, q0 as int, a@, b@) is None,
        },
{
    let mut q = q0;
    while q < s.len()
        invariant
            q0 <= q,
            a.len() < 16,
            b.len() < 16,
            find_closing(s@, q0 as int, a@, b@) == find_closing(s@, q as int, a@, b@),
        decreases s.len() - q,
    {
        let l = closing_at_exec(s, q, a, b);
        if l > 0 {
            proof {
                if 0 <= q && q + 2 <= s.len() {
                    let ln = pair_name_at(s@, q + 2, a@, b@);
                    assert(ln <= 15);
                }
            }
            return Some(q + l);
        }
        q = q + 1;
    }
    None
}

fn element_match_exec(s: &Vec<char>, i: usize, a: &Vec<char>, b: &Vec<char>) -> (r: Option<usize>)
    requires
        i < s.len(),
        a.len() < 16,
        b.len() < 16,
    ensures
        match r {
            Some(e) => element_match(s@, i as int, a@, b@) == Some(e as int),
            None => element_match(s@, i as int, a@, b@) is None,
        },
{
    if s[i] != '<' {
        return None;
    }
    let l = pair_name_at_exec(s, i + 1, a, b);
    if l == 0 {
        return None;
    }
    let j = i + 1 + l;
    if j < s.len() && word_char(s[j]) {
        return None;
    }
    let gt = vec!['>'];
    assert(gt@ =~= seq!['>']);
    proof {
        lemma_find_from(s@, seq!['>'], j as int);
    }
    match find(s, &gt, j) {
        Some(g) => find_closing_exec(s, g + 1, a, b),
        None => None,
    }
}

fn lit_script() -> (v: Vec<char>)
    ensures
        v@ == script_lit(),
{
    let v = vec!['s', 'c', 'r', 'i', 'p', 't'];
    assert(v@ =~= script_lit());
    v
}

fn lit_style() -> (v: Vec<char>)
    ensures
        v@ == style_lit(),
{
    let v = vec!['s', 't', 'y', 'l', 'e'];
    assert(v@ =~= style_lit());
    v
}

fn lit_code() -> (v: Vec<char>)
    ensures
        v@ == code_lit(),
{
    let v = vec!['c', 'o', 'd', 'e'];
    assert(v@ =~= code_lit());
    v
}

fn lit_pre() -> (v: Vec<char>)
    ensures
        v@ == pre_lit(),
{
    let v = vec!['p', 'r', 'e'];
    assert(v@ =~= pre_lit());
    v
}

fn blank_match_exec(s: &Vec<char>, i: usize, which: u8) -> (r: Option<usize>)
    requires
        i < s.len(),
    ensures
        match r {
            Some(e) => blank_match(s@, i as int, which as int) == Some(e as int),
            None => blank_match(s@, i as int, which as int) is None,
        },
{
    if which == 0 {
        element_match_exec(s, i, &lit_script(), &lit_style())
    } else if which == 1 {
        let c = lit_code();
        match element_match_exec(s, i, &c, &c) {
            Some(e) => Some(e),
            None => {
                let p = lit_pre();
                element_match_exec(s, i, &p, &p)
            },
        }
    } else {
        let open = vec!['<', '!', '-', '-'];
        assert(open@ =~= comment_open());
        let close = vec!['-', '-', '>'];
        assert(close@ =~= comment_close());
        if at(s, &open, i) {
            proof {
                lemma_find_from(s@, comment_close(), i + 4);
            }
            match find(s, &close, i + 4) {
                Some(q) => Some(q + 3),
                None => None,
            }
        } else {
            None
        }
    }
}

/// Blanks every span of kind `which` (0 script/style, 1 code/pre, 2 comment).
fn blank_spans(s: &Vec<char>, which: u8) -> (r: Vec<char>)
    ensures
        r@ == blank_from(s@, 0, which as int),
{
    let mut out: Vec<char> = Vec::new();
    let mut i: usize = 0;
    while i < s.len()
        invariant
            i <= s.len(),
            blank_from(s@, 0, which as int) == out@ + blank_from(s@, i as int, which as int),
        decreases s.len() - i,
    {
        proof {
            lemma_blank_match(s@, i as int, which as int);
        }
        let ghost before = out@;
        match blank_match_exec(s, i, which) {
            Some(e) => {
                let span = slice_of(s, i, e);
                let n = count_of(&span, '\n');
                push_newlines(&mut out, n);
                assert(out@ + blank_from(s@, e as int, which as int) =~= before + blank_from(s@, i as int, which as int));
                i = e;
            },
            None => {
                out.push(s[i]);
                assert(out@ + blank_from(s@, i + 1, which as int) =~= before + blank_from(s@, i as int, which as int));
                i = i + 1;
            },
        }
    }
    assert(out@ + blank_from(s@, i as int, which as int) =~= out@);
    out
}

#[verifier::rlimit(50)]
#[verifier::spinoff_prover]
pub proof fn lemma_blank_from_newlines(s: Seq<char>, i: int, which: int)
    requires
        0 <= i <= s.len(),
    ensures
        count_char(blank_from(s, i, which), '\n') == count_char(s.subrange(i, s.len() as int), '\n'),
    decreases s.len() - i,
{
    if i < s.len() {
        lemma_blank_match(s, i, which);
        let rest = s.subrange(i, s.len() as int);
        match blank_match(s, i, which) {
            Some(e) => {
                lemma_blank_from_newlines(s, e, which);
                let m = s.subrange(i, e);
                lemma_count_newlines(count_char(m, '\n'));
                lemma_count_char_concat(newlines(count_char(m, '\n')), blank_from(s, e, which), '\n');
                lemma_count_char_concat(m, s.subrange(e, s.len() as int), '\n');
                assert(rest =~= m + s.subrange(e, s.len() as int));
            },
            None => {
                lemma_blank_from_newlines(s, i + 1, which);
                lemma_count_char_concat(seq![s[i]], blank_from(s, i + 1, which), '\n');
                lemma_count_char_concat(seq![s[i]], s.subrange(i + 1, s.len() as int), '\n');
                assert(rest =~= seq![s[i]] + s.subrange(i + 1, s.len() as int));
            },
        }
    } else {
        assert(s.subrange(i, s.len() as int) =~= Seq::<char>::empty());
    }
}

} // verus!

verus! {

/// The lowercased name is one of the block elements whose boundary is also
/// a prose-unit boundary.
pub open spec fn is_block_tag(n: Seq<char>) -> bool {
    n == seq!['p'] ||
        n == seq!['l', 'i'] ||
        n == seq!['h', '1'] ||
        n == seq!['h', '2'] ||
        n == seq!['h', '3'] ||
        n == seq!['h', '4'] ||
        n == seq!['h', '5'] ||
        n == seq!['h', '6'] ||
        n == seq!['t', 'd'] ||
        n == seq!['t', 'h'] ||
        n == seq!['t', 'r'] ||
        n == seq!['d', 'i', 'v'] ||
        n == seq!['s', 'e', 'c', 't', 'i', 'o', 'n'] ||
        n == seq!['t', 'a', 'b', 'l', 'e'] ||
        n == seq!['t', 'h', 'e', 'a', 'd'] ||
        n == seq!['t', 'b', 'o', 'd', 'y'] ||
        n == seq!['u', 'l'] ||
        n == seq!['o', 'l'] ||
        n == seq!['f', 'o', 'o', 't', 'e', 'r'] ||
        n == seq!['h', 'e', 'a', 'd', 'e', 'r'] ||
        n == seq!['a', 'r', 't', 'i', 'c', 'l', 'e'] ||
        n == seq!['b', 'l', 'o', 'c', 'k', 'q', 'u', 'o', 't', 'e'] ||
        n == seq!['b', 'r'] ||
        n == seq!['h', 'r']
}

fn block_tag(n: &Vec<char>) -> (r: bool)
    ensures
        r == is_block_tag(n@),
{
    let t0 = vec!['p'];
    assert(t0@ =~= seq!['p']);
    if vec_eq(n, &t0) {
        return true;
    }
    let t1 = vec!['l', 'i'];
    assert(t1@ =~= seq!['l', 'i']);
    if vec_eq(n, &t1) {
        return true;
    }
    let t2 = vec!['h', '1'];
    assert(t2@ =~= seq!['h', '1']);
    if vec_eq(n, &t2) {
        return true;
    }
    let t3 = vec!['h', '2'];
    assert(t3@ =~= seq!['h', '2']);
    if vec_eq(n, &t3) {
        return true;
    }
    let t4 = vec!['h', '3'];
    assert(t4@ =~= seq!['h', '3']);
    if vec_eq(n, &t4) {
        return true;
    }
    let t5 = vec!['h', '4'];
    assert(t5@ =~= seq!['h', '4']);
    if vec_eq(n, &t5) {
        return true;
    }
    let t6 = vec!['h', '5'];
    assert(t6@ =~= seq!['h', '5']);
    if vec_eq(n, &t6) {
        return true;
    }
    let t7 = vec!['h', '6'];
    assert(t7@ =~= seq!['h', '6']);
    if vec_eq(n, &t7) {
        return true;
    }
    let t8 = vec!['t', 'd'];
    assert(t8@ =~= seq!['t', 'd']);
    if vec_eq(n, &t8) {
        return true;
    }
    let t9 = vec!['t', 'h'];
    assert(t9@ =~= seq!['t', 'h']);
    if vec_eq(n, &t9) {
        return true;
    }
    let t10 = vec!['t', 'r'];
    assert(t10@ =~= seq!['t', 'r']);
    if vec_eq(n, &t10) {
        return true;
    }
    let t11 = vec!['d', 'i', 'v'];
    assert(t11@ =~= seq!['d', 'i', 'v']);
    if vec_eq(n, &t11) {
        return true;
    }
    let t12 = vec!['s', 'e', 'c', 't', 'i', 'o', 'n'];
    assert(t12@ =~= seq!['s', 'e', 'c', 't', 'i', 'o', 'n']);
    if vec_eq(n, &t12) {
        return true;
    }
    let t13 = vec!['t', 'a', 'b', 'l', 'e'];
    assert(t13@ =~= seq!['t', 'a', 'b', 'l', 'e']);
    if vec_eq(n, &t13) {
        return true;
    }
    let t14 = vec!['t', 'h', 'e', 'a', 'd'];
    assert(t14@ =~= seq!['t', 'h', 'e', 'a', 'd']);
    if vec_eq(n, &t14) {
        return true;
    }
    let t15 = vec!['t', 'b', 'o', 'd', 'y'];
    assert(t15@ =~= seq!['t', 'b', 'o', 'd', 'y']);
    if vec_eq(n, &t15) {
        return true;
    }
    let t16 = vec!['u', 'l'];
    assert(t16@ =~= seq!['u', 'l']);
    if vec_eq(n, &t16) {
        return true;
    }
    let t17 = vec!['o', 'l'];
    assert(t17@ =~= seq!['o', 'l']);
    if vec_eq(n, &t17) {
        return true;
    }
    let t18 = vec!['f', 'o', 'o', 't', 'e', 'r'];
    assert(t18@ =~= seq!['f', 'o', 'o', 't', 'e', 'r']);
    if vec_eq(n, &t18) {
        return true;
    }
    let t19 = vec!['h', 'e', 'a', 'd', 'e', 'r'];
    assert(t19@ =~= seq!['h', 'e', 'a', 'd', 'e', 'r']);
    if vec_eq(n, &t19) {
        return true;
    }
    let t20 = vec!['a', 'r', 't', 'i', 'c', 'l', 'e'];
    assert(t20@ =~= seq!['a', 'r', 't', 'i', 'c', 'l', 'e']);
    if vec_eq(n, &t20) {
        return true;
    }
    let t21 = vec!['b', 'l', 'o', 'c', 'k', 'q', 'u', 'o', 't', 'e'];
    assert(t21@ =~= seq!['b', 'l', 'o', 'c', 'k', 'q', 'u', 'o', 't', 'e']);
    if vec_eq(n, &t21) {
        return true;
    }
    let t22 = vec!['b', 'r'];
    assert(t22@ =~= seq!['b', 'r']);
    if vec_eq(n, &t22) {
        return true;
    }
    let t23 = vec!['h', 'r'];
    assert(t23@ =~= seq!['h', 'r']);
    if vec_eq(n, &t23) {
        return true;
    }
    false
}

/// The entity decoding applied after tag stripping (`&amp;` last, so that
/// `&amp;lt;` becomes `&lt;`).
pub open spec fn decode_entities(s: Seq<char>) -> Seq<char> {
    replace_all(replace_all(replace_all(replace_all(replace_all(replace_all(replace_all(s, seq!['&', 'l', 't', ';'], seq!['<']), seq!['&', 'g', 't', ';'], seq!['>']), seq!['&', 'q', 'u', 'o', 't', ';'], seq!['"']), seq!['&', 'a', 'p', 'o', 's', ';'], seq!['\'']), seq!['&', '#', '3', '9', ';'], seq!['\'']), seq!['&', 'n', 'b', 's', 'p', ';'], seq![' ']), seq!['&', 'a', 'm', 'p', ';'], seq!['&'])
}

fn decode_entities_exec(s0: Vec<char>) -> (r: Vec<char>)
    ensures
        r@ == decode_entities(s0@),
        count_char(r@, '\n') == count_char(s0@, '\n'),
{
    let p0 = vec!['&', 'l', 't', ';'];
    let r0 = vec!['<'];
    assert(p0@ =~= seq!['&', 'l', 't', ';']);
    assert(r0@ =~= seq!['<']);
    let s1 = replace_exec(&s0, &p0, &r0);
    let p1 = vec!['&', 'g', 't', ';'];
    let r1 = vec!['>'];
    assert(p1@ =~= seq!['&', 'g', 't', ';']);
    assert(r1@ =~= seq!['>']);
    let s2 = replace_exec(&s1, &p1, &r1);
    let p2 = vec!['&', 'q', 'u', 'o', 't', ';'];
    let r2 = vec!['"'];
    assert(p2@ =~= seq!['&', 'q', 'u', 'o', 't', ';']);
    assert(r2@ =~= seq!['"']);
    let s3 = replace_exec(&s2, &p2, &r2);
    let p3 = vec!['&', 'a', 'p', 'o', 's', ';'];
    let r3 = vec!['\''];
    assert(p3@ =~= seq!['&', 'a', 'p', 'o', 's', ';']);
    assert(r3@ =~= seq!['\'']);
    let s4 = replace_exec(&s3, &p3, &r3);
    let p4 = vec!['&', '#', '3', '9', ';'];
    let r4 = vec!['\''];
    assert(p4@ =~= seq!['&', '#', '3', '9', ';']);
    assert(r4@ =~= seq!['\'']);
    let s5 = replace_exec(&s4, &p4, &r4);
    let p5 = vec!['&', 'n', 'b', 's', 'p', ';'];
    let r5 = vec![' '];
    assert(p5@ =~= seq!['&', 'n', 'b', 's', 'p', ';']);
    assert(r5@ =~= seq![' ']);
    let s6 = replace_exec(&s5, &p5, &r5);
    let p6 = vec!['&', 'a', 'm', 'p', ';'];
    let r6 = vec!['&'];
    assert(p6@ =~= seq!['&', 'a', 'm', 'p', ';']);
    assert(r6@ =~= seq!['&']);
    let s7 = replace_exec(&s6, &p6, &r6);
    proof {
        let t0 = s0@;
        lemma_count_char_none(seq!['&', 'l', 't', ';'], '\n');
        lemma_count_char_none(seq!['<'], '\n');
        lemma_replace_newlines(t0, seq!['&', 'l', 't', ';'], seq!['<'], 0);
        assert(t0.subrange(0, t0.len() as int) =~= t0);
        let t1 = s1@;
        lemma_count_char_none(seq!['&', 'g', 't', ';'], '\n');
        lemma_count_char_none(seq!['>'], '\n');
        lemma_replace_newlines(t1, seq!['&', 'g', 't', ';'], seq!['>'], 0);
        assert(t1.subrange(0, t1.len() as int) =~= t1);
        let t2 = s2@;
        lemma_count_char_none(seq!['&', 'q', 'u', 'o', 't', ';'], '\n');
        lemma_count_char_none(seq!['"'], '\n');
        lemma_replace_newlines(t2, seq!['&', 'q', 'u', 'o', 't', ';'], seq!['"'], 0);
        assert(t2.subrange(0, t2.len() as int) =~= t2);
        let t3 = s3@;
        lemma_count_char_none(seq!['&', 'a', 'p', 'o', 's', ';'], '\n');
        lemma_count_char_none(seq!['\''], '\n');
        lemma_replace_newlines(t3, seq!['&', 'a', 'p', 'o', 's', ';'], seq!['\''], 0);
        assert(t3.subrange(0, t3.len() as int) =~= t3);
        let t4 = s4@;
        lemma_count_char_none(seq!['&', '#', '3', '9', ';'], '\n');
        lemma_count_char_none(seq!['\''], '\n');
        lemma_replace_newlines(t4, seq!['&', '#', '3', '9', ';'], seq!['\''], 0);
        assert(t4.subrange(0, t4.len() as int) =~= t4);
        let t5 = s5@;
        lemma_count_char_none(seq!['&', 'n', 'b', 's', 'p', ';'], '\n');
        lemma_count_char_none(seq![' '], '\n');
        lemma_replace_newlines(t5, seq!['&', 'n', 'b', 's', 'p', ';'], seq![' '], 0);
        assert(t5.subrange(0, t5.len() as int) =~= t5);
        let t6 = s6@;
        lemma_count_char_none(seq!['&', 'a', 'm', 'p', ';'], '\n');
        lemma_count_char_none(seq!['&'], '\n');
        lemma_replace_newlines(t6, seq!['&', 'a', 'm', 'p', ';'], seq!['&'], 0);
        assert(t6.subrange(0, t6.len() as int) =~= t6);
    }
    s7
}

} // verus!

verus! {

pub open spec fn is_ascii_alpha(c: char) -> bool {
    ('A' <= c && c <= 'Z') || ('a' <= c && c <= 'z')
}

pub open spec fn is_ascii_alnum(c: char) -> bool {
    is_ascii_alpha(c) || ('0' <= c && c <= '9')
}

/// End of the run of ASCII letters and digits starting at `j`.
pub open spec fn run_alnum(s: Seq<char>, j: int) -> int
    decreases s.len() - j,
{
    if 0 <= j < s.len() && is_ascii_alnum(s[j]) {
        run_alnum(s, j + 1)
    } else {
        j
    }
}

/// End of the run of White_Space starting at `j`.
pub open spec fn run_ws(s: Seq<char>, j: int) -> int
    decreases s.len() - j,
{
    if 0 <= j < s.len() && is_white_space(s[j]) {
        run_ws(s, j + 1)
    } else {
        j
    }
}

pub proof fn lemma_runs2(s: Seq<char>, j: int)
    requires
        0 <= j <= s.len(),
    ensures
        j <= run_alnum(s, j) <= s.len(),
        j <= run_ws(s, j) <= s.len(),
    decreases s.len() - j,
{
    if j < s.len() {
        lemma_runs2(s, j + 1);
    }
}

/// A tag starting at `i` — `<name ...>` (name ending at a word boundary) or
/// `</name>` with optional White_Space before `>`: its end and the span of its name.
pub open spec fn tag_match(s: Seq<char>, i: int) -> Option<(int, int, int)> {
    if 0 <= i && i + 1 < s.len() && s[i] == '<' {
        if is_ascii_alpha(s[i + 1]) {
            let ne = run_alnum(s, i + 2);
            if boundary_at(s, ne) {
                match find_from(s, seq!['>'], ne) {
                    Some(g) => Some((g + 1, i + 1, ne)),
                    None => None,
                }
            } else {
                None
            }
        } else if s[i + 1] == '/' && i + 2 < s.len() && is_ascii_alpha(s[i + 2]) {
            let ne = run_alnum(s, i + 3);
            let w = run_ws(s, ne);
            if w < s.len() && s[w] == '>' {
                Some((w + 1, i + 2, ne))
            } else {
                None
            }
        } else {
            None
        }
    } else {
        None
    }
}

pub proof fn lemma_tag_match(s: Seq<char>, i: int)
    ensures
        tag_match(s, i) matches Some((e, a, b)) ==> i < e <= s.len() && i < a <= b <= e,
{
    if 0 <= i && i + 1 < s.len() && s[i] == '<' {
        lemma_runs2(s, i + 2);
        let ne = run_alnum(s, i + 2);
        lemma_find_from(s, seq!['>'], ne);
        if i + 2 < s.len() {
            lemma_runs2(s, i + 3);
            lemma_runs2(s, run_alnum(s, i + 3));
        }
    }
}

/// ASCII lowercase.
pub open spec fn ascii_lower(c: char) -> char {
    if 'A' <= c && c <= 'Z' {
        ((c as u32) + 32) as char
    } else {
        c
    }
}

/// What a tag is replaced by: a multi-line tag keeps its newlines with every
/// other character a space; a block tag becomes " 。 "; any other tag " ".
pub open spec fn tag_replacement(m: Seq<char>, name: Seq<char>) -> Seq<char> {
    if count_char(m, '\n') > 0 {
        Seq::new(m.len(), |k: int| if m[k] == '\n' { '\n' } else { ' ' })
    } else if is_block_tag(Seq::new(name.len(), |k: int| ascii_lower(name[k]))) {
        seq![' ', '。', ' ']
    } else {
        seq![' ']
    }
}

/// `s[i..]` with every tag replaced.
pub open spec fn tags_from(s: Seq<char>, i: int) -> Seq<char>
    decreases s.len() - i,
{
    if i < 0 || i >= s.len() {
        Seq::empty()
    } else {
        proof {
            lemma_tag_match(s, i);
        }
        match tag_match(s, i) {
            Some((e, a, b)) => tag_replacement(s.subrange(i, e), s.subrange(a, b)) + tags_from(s, e),
            None => seq![s[i]] + tags_from(s, i + 1),
        }
    }
}

fn run_alnum_exec(s: &Vec<char>, j: usize) -> (e: usize)
    requires
        j <= s.len(),
    ensures
        e == run_alnum(s@, j as int),
{
    let mut e = j;
    while e < s.len() && (('A' <= s[e] && s[e] <= 'Z') || ('a' <= s[e] && s[e] <= 'z') || ('0' <= s[e] && s[e]
        <= '9'))
        invariant
            j <= e <= s.len(),
            run_alnum(s@, j as int) == run_alnum(s@, e as int),
        decreases s.len() - e,
    {
        e = e + 1;
    }
    e
}

fn run_ws_exec(s: &Vec<char>, j: usize) -> (e: usize)
    requires
        j <= s.len(),
    ensures
        e == run_ws(s@, j as int),
{
    let mut e = j;
    while e < s.len() && white_space(s[e])
        invariant
            j <= e <= s.len(),
            run_ws(s@, j as int) == run_ws(s@, e as int),
        decreases s.len() - e,
    {
        e = e + 1;
    }
    e
}

fn tag_match_exec(s: &Vec<char>, i: usize) -> (r: Option<(usize, usize, usize)>)
    requires
        i < s.len(),
    ensures
        match r {
            Some((e, a, b)) => tag_match(s@, i as int) == Some((e as int, a as int, b as int)),
            None => tag_match(s@, i as int) is None,
        },
{
    if i + 1 >= s.len() || s[i] != '<' {
        return None;
    }
    let c = s[i + 1];
    if ('A' <= c && c <= 'Z') || ('a' <= c && c <= 'z') {
        proof {
            lemma_runs2(s@, i + 2);
        }
        let ne = run_alnum_exec(s, i + 2);
        if ne < s.len() && word_char(s[ne]) {
            return None;
        }
        let gt = vec!['>'];
        assert(gt@ =~= seq!['>']);
        proof {
            lemma_find_from(s@, seq!['>'], ne as int);
        }
        match find(s, &gt, ne) {
            Some(g) => Some((g + 1, i + 1, ne)),
            None => None,
        }
    } else if c == '/' && i + 2 < s.len() && (('A' <= s[i + 2] && s[i + 2] <= 'Z') || ('a' <= s[i + 2] && s[i
        + 2] <= 'z')) {
        proof {
            lemma_runs2(s@, i + 3);
        }
        let ne = run_alnum_exec(s, i + 3);
        proof {
            lemma_runs2(s@, ne as int);
        }
        let w = run_ws_exec(s, ne);
        if w < s.len() && s[w] == '>' {
            Some((w + 1, i + 2, ne))
        } else {
            None
        }
    } else {
        None
    }
}

pub fn lower_ascii(c: char) -> (r: char)
    ensures
        r == ascii_lower(c),
{
    if 'A' <= c && c <= 'Z' {
        ((c as u8) + 32) as char
    } else {
        c
    }
}

fn tag_replacement_exec(s: &Vec<char>, i: usize, e: usize, a: usize, b: usize) -> (r: Vec<char>)
    requires
        i <= a <= b <= e <= s.len(),
    ensures
        r@ == tag_replacement(s@.subrange(i as int, e as int), s@.subrange(a as int, b as int)),
{
    let m = slice_of(s, i, e);
    let nl = count_of(&m, '\n');
    if nl > 0 {
        let mut r: Vec<char> = Vec::new();
        let mut k: usize = 0;
        while k < m.len()
            invariant
                k <= m.len(),
                r@ == Seq::new(m@.len(), |j: int| if m@[j] == '\n' { '\n' } else { ' ' }).take(k as int),
            decreases m.len() - k,
        {
            if m[k] == '\n' {
                r.push('\n');
            } else {
                r.push(' ');
            }
            k = k + 1;
            assert(r@ =~= Seq::new(m@.len(), |j: int| if m@[j] == '\n' { '\n' } else { ' ' }).take(k as int));
        }
        assert(Seq::new(m@.len(), |j: int| if m@[j] == '\n' { '\n' } else { ' ' }).take(m.len() as int) =~= Seq::new(m@.len(), |j: int| if m@[j] == '\n' { '\n' } else { ' ' }));
        return r;
    }
    let mut name: Vec<char> = Vec::new();
    let mut k: usize = a;
    while k < b
        invariant
            a <= k <= b <= s.len(),
            name@ == Seq::new((k - a) as nat, |j: int| ascii_lower(s@[a + j])),
        decreases b - k,
    {
        name.push(lower_ascii(s[k]));
        k = k + 1;
        assert(name@ =~= Seq::new((k - a) as nat, |j: int| ascii_lower(s@[a + j])));
    }
    assert(name@ =~= Seq::new(s@.subrange(a as int, b as int).len(), |j: int| ascii_lower(s@.subrange(a as int, b as int)[j])));
    if block_tag(&name) {
        let r = vec![' ', '。', ' '];
        assert(r@ =~= seq![' ', '。', ' ']);
        r
    } else {
        let r = vec![' '];
        assert(r@ =~= seq![' ']);
        r
    }
}

fn replace_tags(s: &Vec<char>) -> (r: Vec<char>)
    ensures
        r@ == tags_from(s@, 0),
{
    let mut out: Vec<char> = Vec::new();
    let mut i: usize = 0;
    while i < s.len()
        invariant
            i <= s.len(),
            tags_from(s@, 0) == out@ + tags_from(s@, i as int),
        decreases s.len() - i,
    {
        proof {
            lemma_tag_match(s@, i as int);
        }
        let ghost before = out@;
        match tag_match_exec(s, i) {
            Some((e, a, b)) => {
                let rep = tag_replacement_exec(s, i, e, a, b);
                push_all(&mut out, &rep);
                assert(out@ + tags_from(s@, e as int) =~= before + tags_from(s@, i as int));
                i = e;
            },
            None => {
                out.push(s[i]);
                assert(out@ + tags_from(s@, i + 1) =~= before + tags_from(s@, i as int));
                i = i + 1;
            },
        }
    }
    assert(out@ + tags_from(s@, i as int) =~= out@);
    out
}

pub proof fn lemma_tags_newlines(s: Seq<char>, i: int)
    requires
        0 <= i <= s.len(),
    ensures
        count_char(tags_from(s, i), '\n') == count_char(s.subrange(i, s.len() as int), '\n'),
    decreases s.len() - i,
{
    if i < s.len() {
        lemma_tag_match(s, i);
        let rest = s.subrange(i, s.len() as int);
        match tag_match(s, i) {
            Some((e, a, b)) => {
                lemma_tags_newlines(s, e);
                let m = s.subrange(i, e);
                let rep = tag_replacement(m, s.subrange(a, b));
                if count_char(m, '\n') > 0 {
                    lemma_count_map_nl(m);
                } else {
                    lemma_count_char_none(seq![' ', '。', ' '], '\n');
                    lemma_count_char_none(seq![' '], '\n');
                }
                lemma_count_char_concat(rep, tags_from(s, e), '\n');
                lemma_count_char_concat(m, s.subrange(e, s.len() as int), '\n');
                assert(rest =~= m + s.subrange(e, s.len() as int));
            },
            None => {
                lemma_tags_newlines(s, i + 1);
                lemma_count_char_concat(seq![s[i]], tags_from(s, i + 1), '\n');
                lemma_count_char_concat(seq![s[i]], s.subrange(i + 1, s.len() as int), '\n');
                assert(rest =~= seq![s[i]] + s.subrange(i + 1, s.len() as int));
            },
        }
    } else {
        assert(s.subrange(i, s.len() as int) =~= Seq::<char>::empty());
    }
}

pub proof fn lemma_count_map_nl(m: Seq<char>)
    ensures
        count_char(Seq::new(m.len(), |k: int| if m[k] == '\n' { '\n' } else { ' ' }), '\n') == count_char(m, '\n'),
    decreases m.len(),
{
    if m.len() > 0 {
        lemma_count_map_nl(m.drop_last());
        assert(Seq::new(m.len(), |k: int| if m[k] == '\n' { '\n' } else { ' ' }).drop_last() =~= Seq::new(
            m.drop_last().len(),
            |k: int| if m.drop_last()[k] == '\n' { '\n' } else { ' ' },
        ));
    }
}

/// A document's HTML reduced to prose, line for line (`prose::strip_html`).
pub open spec fn spec_strip_html(s: Seq<char>) -> Seq<char> {
    decode_entities(tags_from(blank_from(blank_from(blank_from(s, 0, 0), 0, 1), 0, 2), 0))
}

/// Reduces HTML to prose, keeping every newline.
pub fn strip_html_chars(s: &Vec<char>) -> (r: Vec<char>)
    ensures
        r@ == spec_strip_html(s@),
        count_char(r@, '\n') == count_char(s@, '\n'),
{
    let a = blank_spans(s, 0);
    let b = blank_spans(&a, 1);
    let c = blank_spans(&b, 2);
    let d = replace_tags(&c);
    proof {
        lemma_blank_from_newlines(s@, 0, 0);
        lemma_blank_from_newlines(a@, 0, 1);
        lemma_blank_from_newlines(b@, 0, 2);
        lemma_tags_newlines(c@, 0);
        assert(s@.subrange(0, s@.len() as int) =~= s@);
        assert(a@.subrange(0, a@.len() as int) =~= a@);
        assert(b@.subrange(0, b@.len() as int) =~= b@);
        assert(c@.subrange(0, c@.len() as int) =~= c@);
    }
    decode_entities_exec(d)
}

/// HTML reduced to prose that every detector can read, keeping every line
/// (`prose::strip_html`): script, style, code, pre and comments become their
/// newlines, a tag becomes a space (a block tag " 。 ", so table cells on one
/// line stay separate sentences), and `&lt; &gt; &quot; &apos; &#39; &nbsp;
/// &amp;` are decoded.
pub fn strip_html(text: &str) -> (r: String)
    ensures
        r@ == spec_strip_html(text@),
        count_char(r@, '\n') == count_char(text@, '\n'),
{
    let s = chars_of(text);
    let r = strip_html_chars(&s);
    string_of(&r)
}


// ---------------------------------------------------------------------------
// The law of sentence splitting: no prose character is lost, duplicated or
// reordered.

/// The characters of `s` that are not White_Space, in order.
pub open spec fn solid(s: Seq<char>) -> Seq<char>
    decreases s.len(),
{
    if s.len() == 0 {
        Seq::empty()
    } else {
        solid(s.drop_last()) + if is_white_space(s.last()) {
            Seq::<char>::empty()
        } else {
            seq![s.last()]
        }
    }
}

/// The solid characters of the sentence texts, one sentence after another.
pub open spec fn sents_solid(ss: Seq<SentV>) -> Seq<char>
    decreases ss.len(),
{
    if ss.len() == 0 {
        Seq::empty()
    } else {
        sents_solid(ss.drop_last()) + solid(ss.last().1)
    }
}

/// The solid characters of the lines `ls[..k]`, one line after another.
pub open spec fn lines_solid(ls: Seq<Seq<char>>, k: int) -> Seq<char>
    decreases k,
{
    if k <= 0 || k > ls.len() {
        Seq::empty()
    } else {
        lines_solid(ls, k - 1) + solid(ls[k - 1])
    }
}

proof fn lemma_solid_concat(a: Seq<char>, b: Seq<char>)
    ensures
        solid(a + b) == solid(a) + solid(b),
    decreases b.len(),
{
    if b.len() == 0 {
        assert(a + b =~= a);
        assert(solid(a) + solid(b) =~= solid(a));
    } else {
        lemma_solid_concat(a, b.drop_last());
        assert((a + b).drop_last() =~= a + b.drop_last());
        assert((a + b).last() == b.last());
        assert(solid(a + b) =~= solid(a) + solid(b));
    }
}

proof fn lemma_solid_one(c: char)
    ensures
        solid(seq![c]) == if is_white_space(c) {
            Seq::<char>::empty()
        } else {
            seq![c]
        },
{
    assert(seq![c].drop_last() =~= Seq::<char>::empty());
    assert(solid(seq![c].drop_last()) == Seq::<char>::empty());
    assert(solid(seq![c]) =~= if is_white_space(c) {
        Seq::<char>::empty()
    } else {
        seq![c]
    });
}

proof fn lemma_solid_trim(s: Seq<char>)
    ensures
        solid(trim_start(s)) == solid(s),
        solid(trim_end(s)) == solid(s),
        solid(trim(s)) == solid(s),
    decreases s.len(),
{
    if s.len() > 0 {
        lemma_solid_trim(s.drop_first());
        lemma_solid_trim(s.drop_last());
        assert(s =~= seq![s[0]] + s.drop_first());
        lemma_solid_concat(seq![s[0]], s.drop_first());
        lemma_solid_one(s[0]);
        if is_white_space(s[0]) {
            assert(solid(s) =~= solid(s.drop_first()));
        }
        if is_white_space(s.last()) {
            assert(solid(s) =~= solid(s.drop_last()));
        }
    }
    lemma_solid_trim_end_of(trim_start(s));
}

proof fn lemma_solid_trim_end_of(s: Seq<char>)
    ensures
        solid(trim_end(s)) == solid(s),
    decreases s.len(),
{
    if s.len() > 0 && is_white_space(s.last()) {
        lemma_solid_trim_end_of(s.drop_last());
        assert(solid(s) =~= solid(s.drop_last()));
    }
}

/// What the splitting state holds, in solid characters.
pub open spec fn state_solid(st: SentState) -> Seq<char> {
    sents_solid(st.0) + solid(st.1)
}

proof fn lemma_sent_char_solid(st: SentState, c: char, lineno: int)
    ensures
        state_solid(sent_char(st, c, lineno)) == state_solid(st) + solid(seq![c]),
{
    let buf = st.1.push(c);
    assert(buf =~= st.1 + seq![c]);
    lemma_solid_concat(st.1, seq![c]);
    if is_terminator(c) {
        lemma_solid_trim(buf);
        let ns = st.0.push((st.2, trim(buf)));
        assert(ns.drop_last() =~= st.0);
        assert(solid(Seq::<char>::empty()) == Seq::<char>::empty());
        assert(state_solid(sent_char(st, c, lineno)) =~= state_solid(st) + solid(seq![c]));
    } else {
        assert(state_solid(sent_char(st, c, lineno)) =~= state_solid(st) + solid(seq![c]));
    }
}

proof fn lemma_sent_chars_solid(st: SentState, cs: Seq<char>, lineno: int)
    ensures
        state_solid(sent_chars(st, cs, lineno)) == state_solid(st) + solid(cs),
    decreases cs.len(),
{
    if cs.len() == 0 {
        assert(state_solid(st) + solid(cs) =~= state_solid(st));
    } else {
        lemma_sent_chars_solid(st, cs.drop_last(), lineno);
        lemma_sent_char_solid(sent_chars(st, cs.drop_last(), lineno), cs.last(), lineno);
        assert(cs =~= cs.drop_last() + seq![cs.last()]);
        lemma_solid_concat(cs.drop_last(), seq![cs.last()]);
        assert(state_solid(sent_chars(st, cs, lineno)) =~= state_solid(st) + solid(cs));
    }
}

proof fn lemma_sent_flush_solid(st: SentState)
    ensures
        state_solid(sent_flush(st)) == state_solid(st),
        sent_flush(st).1.len() == 0,
{
    lemma_solid_trim(st.1);
    assert(solid(Seq::<char>::empty()) == Seq::<char>::empty());
    if trim(st.1).len() > 0 {
        let ns = st.0.push((st.2, trim(st.1)));
        assert(ns.drop_last() =~= st.0);
        assert(state_solid(sent_flush(st)) =~= state_solid(st));
    } else {
        assert(trim(st.1) =~= Seq::<char>::empty());
        assert(state_solid(sent_flush(st)) =~= state_solid(st));
    }
}

proof fn lemma_sent_lines_solid(ls: Seq<Seq<char>>, k: int)
    requires
        0 <= k <= ls.len(),
    ensures
        state_solid(sent_lines(ls, k)) == lines_solid(ls, k),
    decreases k,
{
    if k == 0 {
        assert(state_solid(sent_lines(ls, k)) =~= Seq::<char>::empty());
    } else {
        lemma_sent_lines_solid(ls, k - 1);
        let st = sent_lines(ls, k - 1);
        let raw = ls[k - 1];
        let t = trim(raw);
        lemma_solid_trim(raw);
        if t.len() == 0 {
            lemma_sent_flush_solid(st);
            assert(t =~= Seq::<char>::empty());
            assert(lines_solid(ls, k) =~= lines_solid(ls, k - 1));
        } else {
            let st1 = if st.1.len() == 0 {
                (st.0, st.1, k)
            } else {
                st
            };
            assert(state_solid(st1) == state_solid(st));
            lemma_sent_chars_solid(st1, t, k);
        }
    }
}

proof fn lemma_white_newline_cr()
    ensures
        is_white_space('\n'),
        is_white_space('\r'),
{
}

proof fn lemma_lines_solid_pointwise(a: Seq<Seq<char>>, b: Seq<Seq<char>>, k: int)
    requires
        0 <= k <= a.len(),
        k <= b.len(),
        forall|i: int| 0 <= i < k ==> solid(#[trigger] a[i]) == solid(b[i]),
    ensures
        lines_solid(a, k) == lines_solid(b, k),
    decreases k,
{
    if k > 0 {
        lemma_lines_solid_pointwise(a, b, k - 1);
    }
}

proof fn lemma_join_nl_solid(ls: Seq<Seq<char>>)
    ensures
        solid(join_nl(ls)) == lines_solid(ls, ls.len() as int),
    decreases ls.len(),
{
    lemma_white_newline_cr();
    if ls.len() == 0 {
        assert(solid(join_nl(ls)) =~= Seq::<char>::empty());
    } else if ls.len() == 1 {
        assert(lines_solid(ls, 0) == Seq::<char>::empty());
        assert(lines_solid(ls, 1) =~= solid(ls[0]));
    } else {
        let p = ls.drop_last();
        lemma_join_nl_solid(p);
        lemma_lines_solid_pointwise(p, ls, p.len() as int);
        let j = join_nl(p);
        assert(join_nl(ls) == j.push('\n') + ls.last());
        assert(j.push('\n') =~= j + seq!['\n']);
        lemma_solid_concat(j.push('\n'), ls.last());
        lemma_solid_concat(j, seq!['\n']);
        lemma_solid_one('\n');
        assert(solid(join_nl(ls)) =~= lines_solid(ls, ls.len() as int));
    }
}

proof fn lemma_solid_strip_cr(x: Seq<char>)
    ensures
        solid(crate::text::strip_cr(x)) == solid(x),
{
    lemma_white_newline_cr();
    if x.len() > 0 && x.last() == '\r' {
        assert(solid(x) =~= solid(x.drop_last()));
    }
}

proof fn lemma_lines_of_solid(c: Seq<char>)
    ensures
        lines_solid(lines_of(c), lines_of(c).len() as int) == solid(c),
{
    let p = crate::text::split_nl(c);
    crate::text::lemma_split_nl_last(c);
    crate::text::lemma_join_split_nl(c);
    lemma_join_nl_solid(p);
    let l = lines_of(c);
    assert forall|i: int| 0 <= i < p.len() - 1 implies solid(#[trigger] l[i]) == solid(p[i]) by {
        lemma_solid_strip_cr(p[i]);
    }
    if p.last().len() == 0 {
        lemma_lines_solid_pointwise(l, p, p.len() - 1);
        assert(solid(p.last()) == Seq::<char>::empty());
        assert(lines_solid(p, p.len() as int) =~= lines_solid(p, p.len() - 1));
    } else {
        assert forall|i: int| 0 <= i < p.len() implies solid(#[trigger] l[i]) == solid(p[i]) by {
            if i < p.len() - 1 {
                lemma_solid_strip_cr(p[i]);
            }
        }
        lemma_lines_solid_pointwise(l, p, p.len() as int);
    }
}

/// Sentence splitting keeps the prose: the characters of the sentences that
/// are not White_Space, one sentence after another, are exactly those of the
/// cleaned text, in order — nothing lost, duplicated or reordered.
pub proof fn lemma_sentences_keep_prose(text: Seq<char>)
    ensures
        sents_solid(spec_sentences(text)) == solid(spec_clean_lines(text)),
{
    let c = spec_clean_lines(text);
    let ls = lines_of(c);
    let st = sent_lines(ls, ls.len() as int);
    lemma_sent_lines_solid(ls, ls.len() as int);
    lemma_sent_flush_solid(st);
    let f = sent_flush(st);
    assert(f.1 =~= Seq::<char>::empty());
    assert(solid(f.1) == Seq::<char>::empty());
    assert(state_solid(f) =~= sents_solid(f.0));
    lemma_lines_of_solid(c);
}

} // verus!
