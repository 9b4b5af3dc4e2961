// counter.rs — a number and a latin noun joined straight to a Japanese
// particle or punctuation (「43 cell を」): the ledger shorthand leaking into
// prose without a counter word. Units, dates and identifiers are not flagged.
use vstd::prelude::*;

use crate::prose::{clean_lines_chars, spec_clean_lines};
use crate::text::{
    chars_of, contains_word, strings_view, lemma_seqs_of_push, lines_of, seqs_of, slice_of, split_lines, string_of,
};

verus! {

/// A number and a latin noun with no counter.
pub struct Finding {
    pub line: usize,
    pub rule: &'static str,
    pub msg: String,
}

/// A finding's model: line, rule, message.
pub type FindV = (int, Seq<char>, Seq<char>);

pub open spec fn find_view(f: Finding) -> FindV {
    (f.line as int, f.rule@, f.msg@)
}

pub open spec fn finds_view(v: Seq<Finding>) -> Seq<FindV> {
    Seq::new(v.len(), |i: int| find_view(v[i]))
}

/// The particles and punctuation checked for: をがはでにとへの。、！？
pub open spec fn is_particle(c: char) -> bool {
    c == 'を' || c == 'が' || c == 'は' || c == 'で' || c == 'に' || c == 'と' || c == 'へ' || c == 'の' || c == '。'
        || c == '、' || c == '！' || c == '？'
}

/// The character class of those particles, as it is written in a pattern.
pub fn particle_or_punct_class() -> (r: String)
    ensures
        r@ == "([をがはでにとへの。、！？])"@,
{
    let mut s = String::new();
    s.append("([をがはでにとへの。、！？])");
    s
}

/// Quantity and unit words, which need no counter (字 is itself a counter, so it is not here).
pub open spec fn unit_words() -> Seq<Seq<char>> {
    seq![seq!['m', 's'], seq!['s'], seq!['s', 'e', 'c'], seq!['m', 'i', 'n'], seq!['h'], seq!['k', 'g'], seq!['g'], seq!['m', 'g'], seq!['k', 'm'], seq!['c', 'm'], seq!['m', 'm'], seq!['n', 'm'], seq!['p', 't'], seq!['p', 'x'], seq!['d', 'B'], seq!['H', 'z'], seq!['k', 'H', 'z'], seq!['M', 'H', 'z'], seq!['G', 'H', 'z'], seq!['b', 'i', 't'], seq!['b', 'i', 't', 's'], seq!['b', 'y', 't', 'e'], seq!['b', 'y', 't', 'e', 's'], seq!['J', 'A'], seq!['Q', 'o', 'I']]
}

pub fn unit_words_vec() -> (v: Vec<Vec<char>>)
    ensures
        seqs_of(v@) == unit_words(),
{
    let mut v: Vec<Vec<char>> = Vec::new();
    let w0 = vec!['m', 's'];
    assert(w0@ =~= seq!['m', 's']);
    proof {
        lemma_seqs_of_push(v@, w0);
    }
    v.push(w0);
    let w1 = vec!['s'];
    assert(w1@ =~= seq!['s']);
    proof {
        lemma_seqs_of_push(v@, w1);
    }
    v.push(w1);
    let w2 = vec!['s', 'e', 'c'];
    assert(w2@ =~= seq!['s', 'e', 'c']);
    proof {
        lemma_seqs_of_push(v@, w2);
    }
    v.push(w2);
    let w3 = vec!['m', 'i', 'n'];
    assert(w3@ =~= seq!['m', 'i', 'n']);
    proof {
        lemma_seqs_of_push(v@, w3);
    }
    v.push(w3);
    let w4 = vec!['h'];
    assert(w4@ =~= seq!['h']);
    proof {
        lemma_seqs_of_push(v@, w4);
    }
    v.push(w4);
    let w5 = vec!['k', 'g'];
    assert(w5@ =~= seq!['k', 'g']);
    proof {
        lemma_seqs_of_push(v@, w5);
    }
    v.push(w5);
    let w6 = vec!['g'];
    assert(w6@ =~= seq!['g']);
    proof {
        lemma_seqs_of_push(v@, w6);
    }
    v.push(w6);
    let w7 = vec!['m', 'g'];
    assert(w7@ =~= seq!['m', 'g']);
    proof {
        lemma_seqs_of_push(v@, w7);
    }
    v.push(w7);
    let w8 = vec!['k', 'm'];
    assert(w8@ =~= seq!['k', 'm']);
    proof {
        lemma_seqs_of_push(v@, w8);
    }
    v.push(w8);
    let w9 = vec!['c', 'm'];
    assert(w9@ =~= seq!['c', 'm']);
    proof {
        lemma_seqs_of_push(v@, w9);
    }
    v.push(w9);
    let w10 = vec!['m', 'm'];
    assert(w10@ =~= seq!['m', 'm']);
    proof {
        lemma_seqs_of_push(v@, w10);
    }
    v.push(w10);
    let w11 = vec!['n', 'm'];
    assert(w11@ =~= seq!['n', 'm']);
    proof {
        lemma_seqs_of_push(v@, w11);
    }
    v.push(w11);
    let w12 = vec!['p', 't'];
    assert(w12@ =~= seq!['p', 't']);
    proof {
        lemma_seqs_of_push(v@, w12);
    }
    v.push(w12);
    let w13 = vec!['p', 'x'];
    assert(w13@ =~= seq!['p', 'x']);
    proof {
        lemma_seqs_of_push(v@, w13);
    }
    v.push(w13);
    let w14 = vec!['d', 'B'];
    assert(w14@ =~= seq!['d', 'B']);
    proof {
        lemma_seqs_of_push(v@, w14);
    }
    v.push(w14);
    let w15 = vec!['H', 'z'];
    assert(w15@ =~= seq!['H', 'z']);
    proof {
        lemma_seqs_of_push(v@, w15);
    }
    v.push(w15);
    let w16 = vec!['k', 'H', 'z'];
    assert(w16@ =~= seq!['k', 'H', 'z']);
    proof {
        lemma_seqs_of_push(v@, w16);
    }
    v.push(w16);
    let w17 = vec!['M', 'H', 'z'];
    assert(w17@ =~= seq!['M', 'H', 'z']);
    proof {
        lemma_seqs_of_push(v@, w17);
    }
    v.push(w17);
    let w18 = vec!['G', 'H', 'z'];
    assert(w18@ =~= seq!['G', 'H', 'z']);
    proof {
        lemma_seqs_of_push(v@, w18);
    }
    v.push(w18);
    let w19 = vec!['b', 'i', 't'];
    assert(w19@ =~= seq!['b', 'i', 't']);
    proof {
        lemma_seqs_of_push(v@, w19);
    }
    v.push(w19);
    let w20 = vec!['b', 'i', 't', 's'];
    assert(w20@ =~= seq!['b', 'i', 't', 's']);
    proof {
        lemma_seqs_of_push(v@, w20);
    }
    v.push(w20);
    let w21 = vec!['b', 'y', 't', 'e'];
    assert(w21@ =~= seq!['b', 'y', 't', 'e']);
    proof {
        lemma_seqs_of_push(v@, w21);
    }
    v.push(w21);
    let w22 = vec!['b', 'y', 't', 'e', 's'];
    assert(w22@ =~= seq!['b', 'y', 't', 'e', 's']);
    proof {
        lemma_seqs_of_push(v@, w22);
    }
    v.push(w22);
    let w23 = vec!['J', 'A'];
    assert(w23@ =~= seq!['J', 'A']);
    proof {
        lemma_seqs_of_push(v@, w23);
    }
    v.push(w23);
    let w24 = vec!['Q', 'o', 'I'];
    assert(w24@ =~= seq!['Q', 'o', 'I']);
    proof {
        lemma_seqs_of_push(v@, w24);
    }
    v.push(w24);
    assert(seqs_of(v@) =~= unit_words());
    v
}

pub open spec fn is_ascii_digit(c: char) -> bool {
    '0' <= c <= '9'
}

pub open spec fn is_ascii_letter(c: char) -> bool {
    ('a' <= c <= 'z') || ('A' <= c <= 'Z')
}

pub open spec fn is_word_char(c: char) -> bool {
    is_ascii_letter(c) || c == '_' || c == '-'
}

pub open spec fn run_ascii_digits(s: Seq<char>, j: int) -> int
    decreases s.len() - j,
{
    if 0 <= j < s.len() && is_ascii_digit(s[j]) {
        run_ascii_digits(s, j + 1)
    } else {
        j
    }
}

pub open spec fn run_word(s: Seq<char>, j: int) -> int
    decreases s.len() - j,
{
    if 0 <= j < s.len() && is_word_char(s[j]) {
        run_word(s, j + 1)
    } else {
        j
    }
}

pub proof fn lemma_runs(s: Seq<char>, j: int)
    requires
        0 <= j <= s.len(),
    ensures
        j <= run_ascii_digits(s, j) <= s.len(),
        j <= run_word(s, j) <= s.len(),
    decreases s.len() - j,
{
    if j < s.len() {
        lemma_runs(s, j + 1);
    }
}

/// Digits, one space, a latin word, at most one space, a particle, at `p`:
/// the end of the digits, the end of the word, and the particle's position.
pub open spec fn counter_at(s: Seq<char>, p: int) -> Option<(int, int, int)> {
    let d = run_ascii_digits(s, p);
    if 0 <= p && d > p && d + 1 < s.len() && s[d] == ' ' && is_ascii_letter(s[d + 1]) {
        let w = run_word(s, d + 2);
        let q = if w < s.len() && s[w] == ' ' {
            w + 1
        } else {
            w
        };
        if q < s.len() && is_particle(s[q]) {
            Some((d, w, q))
        } else {
            None
        }
    } else {
        None
    }
}

/// The matches in `s[i..]`, leftmost first, without overlap: start, digits end,
/// word end, particle position.
pub open spec fn matches_from(s: Seq<char>, i: int) -> Seq<(int, int, int, int)>
    decreases s.len() - i,
{
    if i < 0 || i >= s.len() {
        Seq::empty()
    } else {
        match counter_at(s, i) {
            Some((d, w, q)) => {
                proof {
                    lemma_runs(s, i);
                    lemma_runs(s, d + 2);
                }
                seq![(i, d, w, q)] + matches_from(s, q + 1)
            },
            None => matches_from(s, i + 1),
        }
    }
}

/// A match that is a number of some unit, the tail of a date, or part of an identifier.
pub open spec fn excluded(s: Seq<char>, m: (int, int, int, int), units: Seq<Seq<char>>) -> bool {
    let (p, d, w, q) = m;
    units.contains(s.subrange(d + 1, w)) || (p >= 2 && s[p - 1] == '-' && is_ascii_digit(s[p - 2])) || (w
        < s.len() && s[w] == '_')
}

pub open spec fn counter_msg(num: Seq<char>, word: Seq<char>, particle: char) -> Seq<char> {
    "「"@ + num + " "@ + word + "」 directly followed by the particle/punctuation 「"@ + seq![particle]
        + "」 — add a Japanese counter word (個・件・本 etc.) or a unit, e.g. 「"@ + num + word + "個」／「"@ + num + " 個の "@
        + word + "」"@
}

/// The findings of the matches `ms` of line `line` (text `s`).
pub open spec fn line_finds(s: Seq<char>, line: int, ms: Seq<(int, int, int, int)>, units: Seq<Seq<char>>) -> Seq<FindV>
    decreases ms.len(),
{
    if ms.len() == 0 {
        Seq::empty()
    } else {
        let m = ms.last();
        line_finds(s, line, ms.drop_last(), units) + if excluded(s, m, units) {
            Seq::empty()
        } else {
            seq![
                (line, "missing-counter"@, counter_msg(s.subrange(m.0, m.1), s.subrange(m.1 + 1, m.2), s[m.3])),
            ]
        }
    }
}

pub open spec fn lines_finds(ls: Seq<Seq<char>>, k: int, units: Seq<Seq<char>>) -> Seq<FindV>
    decreases k,
{
    if k <= 0 || k > ls.len() {
        Seq::empty()
    } else {
        lines_finds(ls, k - 1, units) + line_finds(ls[k - 1], k, matches_from(ls[k - 1], 0), units)
    }
}

/// Every number + latin noun joined to a particle in the prose of a
/// document, the builtin unit words and `extra` exempt.
pub open spec fn spec_scan_with(text: Seq<char>, extra: Seq<Seq<char>>) -> Seq<FindV> {
    let ls = lines_of(spec_clean_lines(text));
    lines_finds(ls, ls.len() as int, unit_words() + extra)
}

/// Every number + latin noun joined to a particle in the prose of a document.
pub open spec fn spec_scan(text: Seq<char>) -> Seq<FindV> {
    spec_scan_with(text, Seq::empty())
}

fn run_digits_exec(s: &Vec<char>, j: usize) -> (e: usize)
    requires
        j <= s.len(),
    ensures
        e == run_ascii_digits(s@, j as int),
{
    let mut e = j;
    while e < s.len() && '0' <= s[e] && s[e] <= '9'
        invariant
            j <= e <= s.len(),
            run_ascii_digits(s@, j as int) == run_ascii_digits(s@, e as int),
        decreases s.len() - e,
    {
        e = e + 1;
    }
    e
}

fn run_word_exec(s: &Vec<char>, j: usize) -> (e: usize)
    requires
        j <= s.len(),
    ensures
        e == run_word(s@, j as int),
{
    let mut e = j;
    while e < s.len() && (('a' <= s[e] && s[e] <= 'z') || ('A' <= s[e] && s[e] <= 'Z') || s[e] == '_' || s[e] == '-')
        invariant
            j <= e <= s.len(),
            run_word(s@, j as int) == run_word(s@, e as int),
        decreases s.len() - e,
    {
        e = e + 1;
    }
    e
}

fn counter_at_exec(s: &Vec<char>, p: usize) -> (r: Option<(usize, usize, usize)>)
    requires
        p <= s.len(),
    ensures
        match r {
            Some((d, w, q)) => counter_at(s@, p as int) == Some((d as int, w as int, q as int)),
            None => counter_at(s@, p as int) is None,
        },
{
    proof {
        lemma_runs(s@, p as int);
    }
    let d = run_digits_exec(s, p);
    if d > p && d < s.len() && s.len() - d >= 2 && s[d] == ' ' && (('a' <= s[d + 1] && s[d + 1] <= 'z') || ('A' <= s[d + 1] && s[d
        + 1] <= 'Z')) {
        proof {
            lemma_runs(s@, d + 2);
        }
        let w = run_word_exec(s, d + 2);
        let q = if w < s.len() && s[w] == ' ' {
            w + 1
        } else {
            w
        };
        if q < s.len() {
            let c = s[q];
            if c == 'を' || c == 'が' || c == 'は' || c == 'で' || c == 'に' || c == 'と' || c == 'へ' || c == 'の' || c
                == '。' || c == '、' || c == '！' || c == '？' {
                return Some((d, w, q));
            }
        }
        None
    } else {
        None
    }
}

fn push_find(out: &mut Vec<Finding>, line: usize, msg: String)
    ensures
        finds_view(final(out)@) == finds_view(old(out)@) + seq![(line as int, "missing-counter"@, msg@)],
{
    let ghost v0 = finds_view(out@);
    out.push(Finding { line, rule: "missing-counter", msg });
    assert(finds_view(out@) =~= v0 + seq![(line as int, "missing-counter"@, msg@)]);
}

fn scan_line(s: &Vec<char>, line: usize, uw: &Vec<Vec<char>>, out: &mut Vec<Finding>)
    ensures
        finds_view(final(out)@) == finds_view(old(out)@) + line_finds(s@, line as int, matches_from(s@, 0), seqs_of(uw@)),
{
    let ghost v0 = finds_view(out@);
    let ghost mut done: Seq<(int, int, int, int)> = Seq::empty();
    let mut i: usize = 0;
    while i < s.len()
        invariant
            i <= s.len(),
            matches_from(s@, 0) == done + matches_from(s@, i as int),
            forall|k: int| 0 <= k < done.len() ==> 0 <= (#[trigger] done[k]).0 < done[k].1 < done[k].2 <= done[k].3 < s.len(),
            finds_view(out@) == v0 + line_finds(s@, line as int, done, seqs_of(uw@)),
        decreases s.len() - i,
    {
        match counter_at_exec(s, i) {
            Some((d, w, q)) => {
                proof {
                    lemma_runs(s@, i as int);
                    lemma_runs(s@, d + 2);
                }
                let ghost m = (i as int, d as int, w as int, q as int);
                let word = slice_of(s, d + 1, w);
                let unit = contains_word(uw, &word);
                let date = i >= 2 && s[i - 1] == '-' && '0' <= s[i - 2] && s[i - 2] <= '9';
                let ident = w < s.len() && s[w] == '_';
                if !(unit || date || ident) {
                    let num = slice_of(s, i, d);
                    let mut msg = String::new();
                    msg.append("「");
                    let ns = string_of(&num);
                    msg.append(ns.as_str());
                    msg.append(" ");
                    let wsr = string_of(&word);
                    msg.append(wsr.as_str());
                    msg.append("」 directly followed by the particle/punctuation 「");
                    let pv = slice_of(s, q, q + 1);
                    assert(pv@ =~= seq![s@[q as int]]);
                    let ps = string_of(&pv);
                    msg.append(ps.as_str());
                    msg.append("」 — add a Japanese counter word (個・件・本 etc.) or a unit, e.g. 「");
                    msg.append(ns.as_str());
                    msg.append(wsr.as_str());
                    msg.append("個」／「");
                    msg.append(ns.as_str());
                    msg.append(" 個の ");
                    msg.append(wsr.as_str());
                    msg.append("」");
                    push_find(out, line, msg);
                }
                proof {
                    assert((done.push(m)).drop_last() =~= done);
                    assert(done + matches_from(s@, i as int) =~= done.push(m) + matches_from(s@, q + 1));
                    done = done.push(m);
                }
                assert(finds_view(out@) =~= v0 + line_finds(s@, line as int, done, seqs_of(uw@)));
                i = q + 1;
            },
            None => {
                i = i + 1;
            },
        }
    }
    assert(done + matches_from(s@, i as int) =~= done);
}

/// Every number + latin noun joined straight to a particle or punctuation in
/// the prose (outside code, tables, headings and URLs) of a document, the
/// builtin unit words and the configured `extra` ones exempt.
pub fn scan_with_units(text: &str, extra: &Vec<String>) -> (r: Vec<Finding>)
    ensures
        finds_view(r@) == spec_scan_with(text@, strings_view(extra@)),
{
    let s = chars_of(text);
    let c = clean_lines_chars(&s);
    let ls = split_lines(&c);
    let ghost g = seqs_of(ls@);
    let mut uw = unit_words_vec();
    let ghost u0 = seqs_of(uw@);
    let mut e: usize = 0;
    while e < extra.len()
        invariant
            e <= extra.len(),
            u0 == unit_words(),
            seqs_of(uw@) == u0 + strings_view(extra@).take(e as int),
        decreases extra.len() - e,
    {
        let ghost before = uw@;
        uw.push(chars_of(extra[e].as_str()));
        proof {
            lemma_seqs_of_push(before, uw@.last());
            assert(uw@ == before.push(uw@.last()));
            assert(strings_view(extra@).take(e + 1) =~= strings_view(extra@).take(e as int).push(extra@[e as int]@));
            assert(seqs_of(uw@) =~= u0 + strings_view(extra@).take(e + 1));
        }
        e = e + 1;
    }
    assert(strings_view(extra@).take(e as int) =~= strings_view(extra@));
    let mut out: Vec<Finding> = Vec::new();
    let mut i: usize = 0;
    assert(finds_view(out@) =~= Seq::<FindV>::empty());
    while i < ls.len()
        invariant
            i <= ls.len(),
            g == seqs_of(ls@),
            g == lines_of(spec_clean_lines(text@)),
            seqs_of(uw@) == unit_words() + strings_view(extra@),
            finds_view(out@) == lines_finds(g, i as int, seqs_of(uw@)),
        decreases ls.len() - i,
    {
        scan_line(&ls[i], i + 1, &uw, &mut out);
        i = i + 1;
    }
    out
}

/// Every number + latin noun joined straight to a particle or punctuation in
/// the prose (outside code, tables, headings and URLs) of a document, the
/// builtin unit words exempt.
pub fn scan(text: &str) -> (r: Vec<Finding>)
    ensures
        finds_view(r@) == spec_scan(text@),
{
    let none: Vec<String> = Vec::new();
    assert(strings_view(none@) =~= Seq::<Seq<char>>::empty());
    scan_with_units(text, &none)
}

// ---------------------------------------------------------------------------
// The law of the particle class.

/// The particles and punctuation marks that make a bare count: を が は で に
/// と へ の 。 、 ！ ？.
pub open spec fn particle_marks() -> Seq<char> {
    seq!['を', 'が', 'は', 'で', 'に', 'と', 'へ', 'の', '。', '、', '！', '？']
}

proof fn lemma_particle_marks(c: char)
    ensures
        particle_marks().contains(c) <==> (c == 'を' || c == 'が' || c == 'は' || c == 'で' || c == 'に' || c == 'と'
            || c == 'へ' || c == 'の' || c == '。' || c == '、' || c == '！' || c == '？'),
{
    let m = particle_marks();
    if m.contains(c) {
        let i = choose|i: int| 0 <= i < m.len() && m[i] == c;
        assert(0 <= i < 12);
    }
    if c == 'を' { assert(m[0] == c); }
    if c == 'が' { assert(m[1] == c); }
    if c == 'は' { assert(m[2] == c); }
    if c == 'で' { assert(m[3] == c); }
    if c == 'に' { assert(m[4] == c); }
    if c == 'と' { assert(m[5] == c); }
    if c == 'へ' { assert(m[6] == c); }
    if c == 'の' { assert(m[7] == c); }
    if c == '。' { assert(m[8] == c); }
    if c == '、' { assert(m[9] == c); }
    if c == '！' { assert(m[10] == c); }
    if c == '？' { assert(m[11] == c); }
}

/// The class written in the pattern holds exactly the particle marks.
pub proof fn lemma_particle_class_marks()
    ensures
        "([をがはでにとへの。、！？])"@.subrange(2, 14) == particle_marks(),
{
    reveal_strlit("([をがはでにとへの。、！？])");
    assert("([をがはでにとへの。、！？])"@.subrange(2, 14) =~= particle_marks());
}

/// The particle law: a number, one space and a latin word (then at most one
/// space) make a bare count at `p` exactly when the next character is one of
/// the particle marks — every one of を が は で に と へ の 。 、 ！ ？ and
/// nothing else.
pub proof fn lemma_counter_particle_law(s: Seq<char>, p: int)
    requires
        0 <= p,
        run_ascii_digits(s, p) > p,
        run_ascii_digits(s, p) + 1 < s.len(),
        s[run_ascii_digits(s, p)] == ' ',
        is_ascii_letter(s[run_ascii_digits(s, p) + 1]),
    ensures
        ({
            let w = run_word(s, run_ascii_digits(s, p) + 2);
            let q = if w < s.len() && s[w] == ' ' {
                w + 1
            } else {
                w
            };
            counter_at(s, p) is Some <==> (q < s.len() && particle_marks().contains(s[q]))
        }),
{
    let w = run_word(s, run_ascii_digits(s, p) + 2);
    let q = if w < s.len() && s[w] == ' ' {
        w + 1
    } else {
        w
    };
    if q < s.len() {
        lemma_particle_marks(s[q]);
    }
}

/// The bare count that opens `s`, when there is one: start, digits end,
/// word end, particle position.
pub open spec fn leading_match(s: Seq<char>) -> (int, int, int, int) {
    match counter_at(s, 0) {
        Some((d, w, q)) => (0, d, w, q),
        None => (0, 0, 0, 0),
    }
}

/// The finding of a match `m` on line `line` of text `s`.
pub open spec fn match_finding(s: Seq<char>, line: int, m: (int, int, int, int)) -> FindV {
    (line, "missing-counter"@, counter_msg(s.subrange(m.0, m.1), s.subrange(m.1 + 1, m.2), s[m.3]))
}

proof fn lemma_line_finds_has(s: Seq<char>, line: int, ms: Seq<(int, int, int, int)>, units: Seq<Seq<char>>, j: int)
    requires
        0 <= j < ms.len(),
        !excluded(s, ms[j], units),
    ensures
        line_finds(s, line, ms, units).contains(match_finding(s, line, ms[j])),
    decreases ms.len(),
{
    let prev = line_finds(s, line, ms.drop_last(), units);
    if j < ms.len() - 1 {
        lemma_line_finds_has(s, line, ms.drop_last(), units, j);
        let i = choose|i: int| 0 <= i < prev.len() && prev[i] == match_finding(s, line, ms[j]);
        assert(line_finds(s, line, ms, units)[i] == prev[i]);
    } else {
        assert(line_finds(s, line, ms, units)[prev.len() as int] == match_finding(s, line, ms[j]));
    }
}

proof fn lemma_lines_finds_has(ls: Seq<Seq<char>>, n: int, units: Seq<Seq<char>>, k: int, x: FindV)
    requires
        0 <= k < n <= ls.len(),
        line_finds(ls[k], k + 1, matches_from(ls[k], 0), units).contains(x),
    ensures
        lines_finds(ls, n, units).contains(x),
    decreases n,
{
    let prev = lines_finds(ls, n - 1, units);
    let cur = line_finds(ls[n - 1], n, matches_from(ls[n - 1], 0), units);
    if k < n - 1 {
        lemma_lines_finds_has(ls, n - 1, units, k, x);
        let i = choose|i: int| 0 <= i < prev.len() && prev[i] == x;
        assert((prev + cur)[i] == x);
    } else {
        let i = choose|i: int| 0 <= i < cur.len() && cur[i] == x;
        assert((prev + cur)[prev.len() + i] == x);
    }
}

/// Every bare count is reported: a count that opens a line of the prose,
/// followed by a particle mark and not exempt (a unit word, a date tail or
/// part of an identifier), gives a missing-counter finding on that line.
pub proof fn lemma_bare_count_reported(text: Seq<char>, extra: Seq<Seq<char>>, k: int)
    requires
        0 <= k < lines_of(spec_clean_lines(text)).len(),
        counter_at(lines_of(spec_clean_lines(text))[k], 0) is Some,
        !excluded(
            lines_of(spec_clean_lines(text))[k],
            leading_match(lines_of(spec_clean_lines(text))[k]),
            unit_words() + extra,
        ),
    ensures
        spec_scan_with(text, extra).contains(
            match_finding(
                lines_of(spec_clean_lines(text))[k],
                k + 1,
                leading_match(lines_of(spec_clean_lines(text))[k]),
            ),
        ),
{
    let ls = lines_of(spec_clean_lines(text));
    let s = ls[k];
    let ms = matches_from(s, 0);
    assert(s.len() > 0);
    assert(ms[0] == leading_match(s));
    let units = unit_words() + extra;
    lemma_line_finds_has(s, k + 1, ms, units, 0);
    lemma_lines_finds_has(ls, ls.len() as int, units, k, match_finding(s, k + 1, ms[0]));
}

} // verus!
