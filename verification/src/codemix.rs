// codemix.rs — code-mixing density: latin words per 100 Japanese characters
// in each prose unit of forty Japanese characters or more. Identifiers,
// capitals-only abbreviations, math fragments and allowed (domain) words do
// not count; the vocabulary is listed for the judge.
use vstd::prelude::*;

use crate::double::{f_den, f_lt, f_lt_exec, f_num, fmt_fixed, fv, lemma_f_den_pos, push_fmt_fixed, rate100, rate100_exec, F64V};
use crate::jargon::{is_term_row, lemma_run_white, run_white};
use crate::latin_token::lower_seq;
use crate::text::strings_view;
use crate::notation::is_ja;
use crate::prose::{lower_ascii, prose_units, prose_units_view, spec_prose_units, UnitV};
use crate::text::{
    chars_of, contains_word, lemma_seqs_of_push, lines_of, seq_lt, seq_less, seqs_of, slice_of, split_lines, string_of,
    vec_eq,
};
use crate::unicode::{han, hiragana, katakana};

verus! {

pub open spec fn is_letter(c: char) -> bool {
    ('a' <= c <= 'z') || ('A' <= c <= 'Z')
}

pub open spec fn is_digit(c: char) -> bool {
    '0' <= c <= '9'
}

pub open spec fn is_tok_char(c: char) -> bool {
    is_letter(c) || is_digit(c) || c == '_' || c == '-'
}

pub open spec fn is_vocab_char(c: char) -> bool {
    is_letter(c) || c == '-'
}

pub open spec fn run_tok(s: Seq<char>, j: int) -> int
    decreases s.len() - j,
{
    if 0 <= j < s.len() && is_tok_char(s[j]) {
        run_tok(s, j + 1)
    } else {
        j
    }
}

pub open spec fn run_vocab(s: Seq<char>, j: int) -> int
    decreases s.len() - j,
{
    if 0 <= j < s.len() && is_vocab_char(s[j]) {
        run_vocab(s, j + 1)
    } else {
        j
    }
}

pub proof fn lemma_runs(s: Seq<char>, j: int)
    requires
        0 <= j <= s.len(),
    ensures
        j <= run_tok(s, j) <= s.len(),
        j <= run_vocab(s, j) <= s.len(),
    decreases s.len() - j,
{
    if j < s.len() {
        lemma_runs(s, j + 1);
    }
}

/// The latin tokens `[a-zA-Z][a-zA-Z0-9_-]*` of `s[i..]`.
pub open spec fn toks_from(s: Seq<char>, i: int) -> Seq<Seq<char>>
    decreases s.len() - i,
{
    if i < 0 || i >= s.len() {
        Seq::empty()
    } else if is_letter(s[i]) {
        proof {
            lemma_runs(s, i + 1);
        }
        seq![s.subrange(i, run_tok(s, i + 1))] + toks_from(s, run_tok(s, i + 1))
    } else {
        toks_from(s, i + 1)
    }
}

/// The latin words `[a-zA-Z][a-zA-Z-]*` of `s[i..]`.
pub open spec fn words_from(s: Seq<char>, i: int) -> Seq<Seq<char>>
    decreases s.len() - i,
{
    if i < 0 || i >= s.len() {
        Seq::empty()
    } else if is_letter(s[i]) {
        proof {
            lemma_runs(s, i + 1);
        }
        seq![s.subrange(i, run_vocab(s, i + 1))] + words_from(s, run_vocab(s, i + 1))
    } else {
        words_from(s, i + 1)
    }
}

/// An identifier: an underscore or an ASCII digit.
pub open spec fn is_identifier(t: Seq<char>) -> bool {
    exists|i: int| 0 <= i < t.len() && (t[i] == '_' || is_digit(#[trigger] t[i]))
}

/// Two or more ASCII capitals and nothing else.
pub open spec fn is_acronym(t: Seq<char>) -> bool {
    t.len() >= 2 && forall|i: int| 0 <= i < t.len() ==> ('A' <= #[trigger] t[i] <= 'Z')
}

/// Fewer than two characters, or only i, v and x (roman numerals, variables).
pub open spec fn is_math_fragment(t: Seq<char>) -> bool {
    t.len() < 2 || forall|i: int| 0 <= i < t.len() ==> is_ivx(#[trigger] t[i])
}

pub open spec fn is_ivx(c: char) -> bool {
    c == 'i' || c == 'v' || c == 'x'
}

/// The counted words of a unit's tokens: identifiers and acronyms dropped,
/// lowercased, math fragments and exempt words dropped.
pub open spec fn kept(ts: Seq<Seq<char>>, exempt: Seq<Seq<char>>) -> Seq<Seq<char>>
    decreases ts.len(),
{
    if ts.len() == 0 {
        Seq::empty()
    } else {
        let t = ts.last();
        let l = lower_seq(t);
        kept(ts.drop_last(), exempt) + if !is_identifier(t) && !is_acronym(t) && !is_math_fragment(l)
            && !exempt.contains(l) {
            seq![l]
        } else {
            Seq::empty()
        }
    }
}

/// The number of Japanese (kana or Han) characters.
pub open spec fn ja_count(s: Seq<char>) -> nat
    decreases s.len(),
{
    if s.len() == 0 {
        0
    } else {
        ja_count(s.drop_last()) + if is_ja(s.last()) {
            1nat
        } else {
            0nat
        }
    }
}

/// The first index of `v` holding a word not before `w`, or the length.
pub open spec fn first_not_before(v: Seq<Seq<char>>, w: Seq<char>, k: int) -> int
    decreases v.len() - k,
{
    if k < 0 || k >= v.len() {
        v.len() as int
    } else if !seq_lt(v[k], w) {
        k
    } else {
        first_not_before(v, w, k + 1)
    }
}

/// The sorted vocabulary with `w` added once.
pub open spec fn insert_unique(v: Seq<Seq<char>>, w: Seq<char>) -> Seq<Seq<char>> {
    if v.contains(w) {
        v
    } else {
        v.insert(first_not_before(v, w, 0), w)
    }
}

/// The words sorted and without duplicates.
pub open spec fn sort_dedup(ws: Seq<Seq<char>>) -> Seq<Seq<char>>
    decreases ws.len(),
{
    if ws.len() == 0 {
        Seq::empty()
    } else {
        insert_unique(sort_dedup(ws.drop_last()), ws.last())
    }
}

/// A measured paragraph's model: line, counted words, Japanese characters, vocabulary.
pub type ParaV = (int, nat, nat, Seq<Seq<char>>);

/// Measured prose units (40 Japanese characters or more) among `us[..k]`.
pub open spec fn paras_fold(us: Seq<UnitV>, exempt: Seq<Seq<char>>, k: int) -> Seq<ParaV>
    decreases k,
{
    if k <= 0 || k > us.len() {
        Seq::empty()
    } else {
        let u = us[k - 1];
        let n = ja_count(u.1);
        paras_fold(us, exempt, k - 1) + if n >= 40 {
            let ws = kept(toks_from(u.1, 0), exempt);
            seq![(u.0, ws.len(), n, sort_dedup(ws))]
        } else {
            Seq::empty()
        }
    }
}

/// A measured paragraph has forty Japanese characters or more.
pub proof fn lemma_paras_fold_ja(us: Seq<UnitV>, exempt: Seq<Seq<char>>, k: int)
    ensures
        forall|i: int| 0 <= i < paras_fold(us, exempt, k).len() ==> (#[trigger] paras_fold(us, exempt, k)[i]).2 >= 40,
    decreases k,
{
    if 0 < k <= us.len() {
        lemma_paras_fold_ja(us, exempt, k - 1);
        let prev = paras_fold(us, exempt, k - 1);
        let r = paras_fold(us, exempt, k);
        assert forall|i: int| 0 <= i < r.len() implies (#[trigger] r[i]).2 >= 40 by {
            if i < prev.len() {
                assert(r[i] == prev[i]);
            }
        }
    }
}

/// The measured paragraphs of a document.
pub open spec fn spec_paragraphs(text: Seq<char>, exempt: Seq<Seq<char>>) -> Seq<ParaV> {
    let us = spec_prose_units(text);
    paras_fold(us, exempt, us.len() as int)
}

/// A measured prose unit: its first line, how many latin words count, how
/// many Japanese characters it has (the density is `tokens * 100 / ja_chars`),
/// and its sorted vocabulary.
pub struct Para {
    pub line: usize,
    pub tokens: usize,
    pub ja_chars: usize,
    pub vocab: Vec<String>,
}

pub open spec fn para_view(p: Para) -> ParaV {
    (p.line as int, p.tokens as nat, p.ja_chars as nat, strings_view(p.vocab@))
}

pub open spec fn paras_view(v: Seq<Para>) -> Seq<ParaV> {
    Seq::new(v.len(), |i: int| para_view(v[i]))
}

fn ja_count_exec(s: &Vec<char>) -> (n: usize)
    ensures
        n == ja_count(s@),
{
    let mut n: usize = 0;
    let mut i: usize = 0;
    while i < s.len()
        invariant
            i <= s.len(),
            n <= i,
            n == ja_count(s@.take(i as int)),
        decreases s.len() - i,
    {
        proof {
            assert(s@.take(i + 1).drop_last() =~= s@.take(i as int));
        }
        if hiragana(s[i]) || katakana(s[i]) || han(s[i]) {
            n = n + 1;
        }
        i = i + 1;
    }
    assert(s@.take(s.len() as int) =~= s@);
    n
}

fn is_identifier_exec(t: &Vec<char>) -> (r: bool)
    ensures
        r == is_identifier(t@),
{
    let mut i: usize = 0;
    while i < t.len()
        invariant
            i <= t.len(),
            forall|j: int| 0 <= j < i ==> !(t@[j] == '_' || is_digit(#[trigger] t@[j])),
        decreases t.len() - i,
    {
        if t[i] == '_' || ('0' <= t[i] && t[i] <= '9') {
            assert(t@[i as int] == '_' || is_digit(t@[i as int]));
            return true;
        }
        i = i + 1;
    }
    false
}

fn is_acronym_exec(t: &Vec<char>) -> (r: bool)
    ensures
        r == is_acronym(t@),
{
    if t.len() < 2 {
        return false;
    }
    let mut i: usize = 0;
    while i < t.len()
        invariant
            i <= t.len(),
            forall|j: int| 0 <= j < i ==> ('A' <= #[trigger] t@[j] <= 'Z'),
        decreases t.len() - i,
    {
        if !('A' <= t[i] && t[i] <= 'Z') {
            return false;
        }
        i = i + 1;
    }
    true
}

fn is_math_exec(t: &Vec<char>) -> (r: bool)
    ensures
        r == is_math_fragment(t@),
{
    if t.len() < 2 {
        return true;
    }
    let mut i: usize = 0;
    while i < t.len()
        invariant
            i <= t.len(),
            t.len() >= 2,
            forall|j: int| 0 <= j < i ==> is_ivx(#[trigger] t@[j]),
        decreases t.len() - i,
    {
        if !(t[i] == 'i' || t[i] == 'v' || t[i] == 'x') {
            assert(!is_ivx(t@[i as int]));
            return false;
        }
        i = i + 1;
    }
    true
}

fn lower_chars(s: &Vec<char>) -> (r: Vec<char>)
    ensures
        r@ == lower_seq(s@),
{
    let mut r: Vec<char> = Vec::new();
    let mut i: usize = 0;
    while i < s.len()
        invariant
            i <= s.len(),
            r@ == lower_seq(s@).take(i as int),
        decreases s.len() - i,
    {
        r.push(lower_ascii(s[i]));
        i = i + 1;
        assert(r@ =~= lower_seq(s@).take(i as int));
    }
    assert(lower_seq(s@).take(s.len() as int) =~= lower_seq(s@));
    r
}

fn toks_exec(s: &Vec<char>) -> (r: Vec<Vec<char>>)
    ensures
        seqs_of(r@) == toks_from(s@, 0),
{
    let mut out: Vec<Vec<char>> = Vec::new();
    let mut i: usize = 0;
    assert(seqs_of(out@) =~= Seq::<Seq<char>>::empty());
    while i < s.len()
        invariant
            i <= s.len(),
            toks_from(s@, 0) == seqs_of(out@) + toks_from(s@, i as int),
        decreases s.len() - i,
    {
        if ('a' <= s[i] && s[i] <= 'z') || ('A' <= s[i] && s[i] <= 'Z') {
            proof {
                lemma_runs(s@, i + 1);
            }
            let mut e = i + 1;
            while e < s.len() && (('a' <= s[e] && s[e] <= 'z') || ('A' <= s[e] && s[e] <= 'Z') || ('0' <= s[e] && s[e]
                <= '9') || s[e] == '_' || s[e] == '-')
                invariant
                    i + 1 <= e <= s.len(),
                    run_tok(s@, i + 1) == run_tok(s@, e as int),
                decreases s.len() - e,
            {
                e = e + 1;
            }
            let t = slice_of(s, i, e);
            let ghost b = seqs_of(out@);
            proof {
                lemma_seqs_of_push(out@, t);
            }
            out.push(t);
            assert(seqs_of(out@) + toks_from(s@, e as int) =~= b + toks_from(s@, i as int));
            i = e;
        } else {
            i = i + 1;
        }
    }
    assert(seqs_of(out@) + toks_from(s@, i as int) =~= seqs_of(out@));
    out
}

fn kept_exec(ts: &Vec<Vec<char>>, exempt: &Vec<Vec<char>>) -> (r: Vec<Vec<char>>)
    ensures
        seqs_of(r@) == kept(seqs_of(ts@), seqs_of(exempt@)),
{
    let ghost g = seqs_of(ts@);
    let mut out: Vec<Vec<char>> = Vec::new();
    let mut k: usize = 0;
    assert(g.take(0) =~= Seq::<Seq<char>>::empty());
    assert(seqs_of(out@) =~= Seq::<Seq<char>>::empty());
    while k < ts.len()
        invariant
            k <= ts.len(),
            g == seqs_of(ts@),
            seqs_of(out@) == kept(g.take(k as int), seqs_of(exempt@)),
        decreases ts.len() - k,
    {
        proof {
            assert(g.take(k + 1).drop_last() =~= g.take(k as int));
            assert(g.take(k + 1).last() == ts@[k as int]@);
        }
        let t = &ts[k];
        let ghost b = seqs_of(out@);
        if !is_identifier_exec(t) && !is_acronym_exec(t) {
            let l = lower_chars(t);
            if !is_math_exec(&l) && !contains_word(exempt, &l) {
                proof {
                    lemma_seqs_of_push(out@, l);
                }
                out.push(l);
            } else {
                assert(seqs_of(out@) =~= b + Seq::<Seq<char>>::empty());
            }
        } else {
            assert(seqs_of(out@) =~= b + Seq::<Seq<char>>::empty());
        }
        k = k + 1;
    }
    assert(g.take(ts.len() as int) =~= g);
    out
}

fn insert_unique_exec(v: &mut Vec<Vec<char>>, w: &Vec<char>)
    ensures
        seqs_of(final(v)@) == insert_unique(seqs_of(old(v)@), w@),
{
    let ghost g = seqs_of(v@);
    if contains_word(v, w) {
        return;
    }
    let mut k: usize = 0;
    while k < v.len() && seq_less(&v[k], w)
        invariant
            k <= v.len(),
            g == seqs_of(v@),
            first_not_before(g, w@, 0) == first_not_before(g, w@, k as int),
        decreases v.len() - k,
    {
        k = k + 1;
    }
    let c = slice_of(w, 0, w.len());
    assert(c@ =~= w@);
    v.insert(k, c);
    assert(seqs_of(v@) =~= g.insert(k as int, w@));
}

/// Sorts and deduplicates words.
pub fn sort_dedup_exec(ws: &Vec<Vec<char>>) -> (r: Vec<Vec<char>>)
    ensures
        seqs_of(r@) == sort_dedup(seqs_of(ws@)),
{
    let ghost g = seqs_of(ws@);
    let mut out: Vec<Vec<char>> = Vec::new();
    let mut k: usize = 0;
    assert(g.take(0) =~= Seq::<Seq<char>>::empty());
    assert(seqs_of(out@) =~= Seq::<Seq<char>>::empty());
    while k < ws.len()
        invariant
            k <= ws.len(),
            g == seqs_of(ws@),
            seqs_of(out@) == sort_dedup(g.take(k as int)),
        decreases ws.len() - k,
    {
        proof {
            assert(g.take(k + 1).drop_last() =~= g.take(k as int));
            assert(g.take(k + 1).last() == ws@[k as int]@);
        }
        insert_unique_exec(&mut out, &ws[k]);
        k = k + 1;
    }
    assert(g.take(ws.len() as int) =~= g);
    out
}

fn strings_of(v: &Vec<Vec<char>>) -> (r: Vec<String>)
    ensures
        strings_view(r@) == seqs_of(v@),
{
    let mut out: Vec<String> = Vec::new();
    let mut k: usize = 0;
    while k < v.len()
        invariant
            k <= v.len(),
            strings_view(out@) == seqs_of(v@).take(k as int),
        decreases v.len() - k,
    {
        let ghost prev = out@;
        out.push(string_of(&v[k]));
        assert(strings_view(out@) =~= strings_view(prev).push(v@[k as int]@));
        k = k + 1;
        assert(strings_view(out@) =~= seqs_of(v@).take(k as int));
    }
    assert(seqs_of(v@).take(v.len() as int) =~= seqs_of(v@));
    out
}

pub fn vecs_of(v: &Vec<String>) -> (r: Vec<Vec<char>>)
    ensures
        seqs_of(r@) == strings_view(v@),
{
    let mut out: Vec<Vec<char>> = Vec::new();
    let mut k: usize = 0;
    while k < v.len()
        invariant
            k <= v.len(),
            seqs_of(out@) == strings_view(v@).take(k as int),
        decreases v.len() - k,
    {
        let w = chars_of(v[k].as_str());
        proof {
            lemma_seqs_of_push(out@, w);
        }
        out.push(w);
        k = k + 1;
        assert(seqs_of(out@) =~= strings_view(v@).take(k as int));
    }
    assert(strings_view(v@).take(v.len() as int) =~= strings_view(v@));
    out
}

/// The measured prose units of a document (forty Japanese characters or
/// more): counted latin words, Japanese characters, sorted vocabulary.
/// `exempt` holds lowercase allowed words.
pub fn scan_paragraphs(text: &str, exempt: &Vec<String>) -> (r: Vec<Para>)
    requires
        text@.len() < usize::MAX,
    ensures
        paras_view(r@) == spec_paragraphs(text@, strings_view(exempt@)),
{
    let ex = vecs_of(exempt);
    let us = prose_units(text);
    let ghost g = spec_prose_units(text@);
    let mut out: Vec<Para> = Vec::new();
    let mut k: usize = 0;
    assert(paras_view(out@) =~= Seq::<ParaV>::empty());
    while k < us.len()
        invariant
            k <= us.len(),
            g == prose_units_view(us@),
            seqs_of(ex@) == strings_view(exempt@),
            paras_view(out@) == paras_fold(g, seqs_of(ex@), k as int),
        decreases us.len() - k,
    {
        let u = &us[k];
        assert(g[k as int] == (u.line as int, u.text@, u.is_bullet));
        let t = chars_of(u.text.as_str());
        let n = ja_count_exec(&t);
        let ghost o0 = paras_view(out@);
        if n >= 40 {
            let ts = toks_exec(&t);
            let ws = kept_exec(&ts, &ex);
            let sd = sort_dedup_exec(&ws);
            let vocab = strings_of(&sd);
            out.push(Para { line: u.line, tokens: ws.len(), ja_chars: n, vocab });
            assert(paras_view(out@) =~= o0 + seq![
                (u.line as int, ws.len() as nat, n as nat, sort_dedup(seqs_of(ws@))),
            ]);
        } else {
            assert(paras_view(out@) =~= o0 + Seq::<ParaV>::empty());
        }
        k = k + 1;
    }
    out
}

/// The words (two letters or more, lowercased) of a domain registry's rows
/// (`| `term` | … |`), each once.
pub open spec fn vocab_words(ws: Seq<Seq<char>>) -> Seq<Seq<char>>
    decreases ws.len(),
{
    if ws.len() == 0 {
        Seq::empty()
    } else {
        let l = lower_seq(ws.last());
        vocab_words(ws.drop_last()) + if l.len() >= 2 {
            seq![l]
        } else {
            Seq::empty()
        }
    }
}

pub open spec fn add_unique(seen: Seq<Seq<char>>, ws: Seq<Seq<char>>) -> Seq<Seq<char>>
    decreases ws.len(),
{
    if ws.len() == 0 {
        seen
    } else {
        let s1 = add_unique(seen, ws.drop_last());
        if s1.contains(ws.last()) {
            s1
        } else {
            s1.push(ws.last())
        }
    }
}

pub open spec fn domain_lines(ls: Seq<Seq<char>>, k: int) -> Seq<Seq<char>>
    decreases k,
{
    if k <= 0 || k > ls.len() {
        Seq::empty()
    } else {
        add_unique(domain_lines(ls, k - 1), if is_term_row(ls[k - 1]) {
            vocab_words(words_from(ls[k - 1], 0))
        } else {
            Seq::empty()
        })
    }
}

/// The domain vocabulary of an allow registry text.
pub open spec fn spec_domain_vocab(text: Seq<char>) -> Seq<Seq<char>> {
    let ls = lines_of(text);
    domain_lines(ls, ls.len() as int)
}

fn words_exec(s: &Vec<char>) -> (r: Vec<Vec<char>>)
    ensures
        seqs_of(r@) == vocab_words(words_from(s@, 0)),
{
    let ghost all = words_from(s@, 0);
    let ghost mut done: Seq<Seq<char>> = Seq::empty();
    let mut out: Vec<Vec<char>> = Vec::new();
    let mut i: usize = 0;
    assert(seqs_of(out@) =~= Seq::<Seq<char>>::empty());
    while i < s.len()
        invariant
            i <= s.len(),
            all == words_from(s@, 0),
            all == done + words_from(s@, i as int),
            seqs_of(out@) == vocab_words(done),
        decreases s.len() - i,
    {
        if ('a' <= s[i] && s[i] <= 'z') || ('A' <= s[i] && s[i] <= 'Z') {
            proof {
                lemma_runs(s@, i + 1);
            }
            let mut e = i + 1;
            while e < s.len() && (('a' <= s[e] && s[e] <= 'z') || ('A' <= s[e] && s[e] <= 'Z') || s[e] == '-')
                invariant
                    i + 1 <= e <= s.len(),
                    run_vocab(s@, i + 1) == run_vocab(s@, e as int),
                decreases s.len() - e,
            {
                e = e + 1;
            }
            let w = slice_of(s, i, e);
            let l = lower_chars(&w);
            let ghost b = seqs_of(out@);
            if l.len() >= 2 {
                proof {
                    lemma_seqs_of_push(out@, l);
                }
                out.push(l);
            }
            proof {
                let d2 = done.push(w@);
                assert(d2.drop_last() =~= done);
                assert(done + words_from(s@, i as int) =~= d2 + words_from(s@, e as int));
                done = d2;
            }
            assert(seqs_of(out@) =~= vocab_words(done));
            i = e;
        } else {
            i = i + 1;
        }
    }
    assert(done + words_from(s@, i as int) =~= done);
    out
}

/// The domain vocabulary of an allow registry (`domain_vocab` without the
/// file read): the latin words of its `| `term` |` rows, lowercased, two
/// letters or more, each once.
pub fn parse_domain_vocab(text: &str) -> (r: Vec<String>)
    ensures
        strings_view(r@) == spec_domain_vocab(text@),
{
    let s = chars_of(text);
    let ls = split_lines(&s);
    let ghost g = seqs_of(ls@);
    let mut seen: Vec<Vec<char>> = Vec::new();
    let mut i: usize = 0;
    assert(seqs_of(seen@) =~= Seq::<Seq<char>>::empty());
    while i < ls.len()
        invariant
            i <= ls.len(),
            g == seqs_of(ls@),
            g == lines_of(text@),
            seqs_of(seen@) == domain_lines(g, i as int),
        decreases ls.len() - i,
    {
        let l = &ls[i];
        let mut ws: Vec<Vec<char>> = Vec::new();
        assert(seqs_of(ws@) =~= Seq::<Seq<char>>::empty());
        if l.len() > 0 && l[0] == '|' {
            proof {
                lemma_run_white(l@, 1);
            }
            let mut j: usize = 1;
            while j < l.len() && crate::unicode::white_space(l[j])
                invariant
                    1 <= j <= l.len(),
                    run_white(l@, 1) == run_white(l@, j as int),
                decreases l.len() - j,
            {
                j = j + 1;
            }
            if j < l.len() && l[j] == '`' {
                ws = words_exec(l);
            }
        }
        let ghost s0 = seqs_of(seen@);
        let ghost wv = seqs_of(ws@);
        let mut k: usize = 0;
        assert(wv.take(0) =~= Seq::<Seq<char>>::empty());
        while k < ws.len()
            invariant
                k <= ws.len(),
                wv == seqs_of(ws@),
                seqs_of(seen@) == add_unique(s0, wv.take(k as int)),
            decreases ws.len() - k,
        {
            proof {
                assert(wv.take(k + 1).drop_last() =~= wv.take(k as int));
                assert(wv.take(k + 1).last() == ws@[k as int]@);
            }
            if !contains_word(&seen, &ws[k]) {
                let w = slice_of(&ws[k], 0, ws[k].len());
                assert(w@ =~= ws@[k as int]@);
                proof {
                    lemma_seqs_of_push(seen@, w);
                }
                seen.push(w);
            }
            k = k + 1;
        }
        assert(wv.take(ws.len() as int) =~= wv);
        i = i + 1;
    }
    strings_of(&seen)
}


/// A paragraph is hot at the threshold `th` when its density, `tokens as
/// f64 * 100.0 / ja_chars as f64` latin words per 100 Japanese characters
/// (in binary64), is not below it.
pub open spec fn is_hot(p: ParaV, th: F64V) -> bool {
    !f_lt(rate100(p.1, p.2), th)
}

/// Lowering the threshold never cools a paragraph: one that is hot at `th1`
/// is hot at every threshold `th2` that is no higher.
pub proof fn lemma_lower_threshold_keeps_hot(p: ParaV, th1: F64V, th2: F64V)
    requires
        is_hot(p, th1),
        !f_lt(th1, th2),
    ensures
        is_hot(p, th2),
{
    let d = rate100(p.1, p.2);
    let a = f_num(d);
    let b = f_den(d);
    let aa = f_num(th1);
    let bb = f_den(th1);
    let c = f_num(th2);
    let cc = f_den(th2);
    lemma_f_den_pos(d);
    lemma_f_den_pos(th1);
    lemma_f_den_pos(th2);
    assert(a * cc >= c * b) by (nonlinear_arith)
        requires
            a * bb >= aa * b,
            aa * cc >= c * bb,
            b >= 1,
            bb >= 1,
            cc >= 1,
            a >= 0,
            aa >= 0,
            c >= 0,
    {
        assert(a * bb * cc >= aa * b * cc);
        assert(aa * cc * b >= c * bb * b);
        assert(a * cc * bb >= c * b * bb);
    }
}

/// The two report lines of a hot paragraph: where it is and its density,
/// then its vocabulary for the judge.
pub open spec fn spec_hot_lines(label: Seq<char>, p: ParaV) -> (Seq<char>, Seq<char>) {
    (
        "⚑ "@ + label + "L"@ + crate::text::dec(p.0 as nat) + ": "@ + fmt_fixed(rate100(p.1, p.2), 0)
            + " latin per 100 JA chars (JA "@ + crate::text::dec(p.2) + " chars)"@,
        "   classify 3-way (domain/pinned/gratuitous): "@ + crate::text::join_with(p.3, " "@),
    )
}

/// The report of one paragraph at the threshold `th`: its two lines when it
/// is hot, nothing otherwise.
pub fn hot_lines(label: &str, p: &Para, th: (u64, i64)) -> (r: Option<(String, String)>)
    requires
        p.ja_chars > 0,
    ensures
        r is Some <==> is_hot(para_view(*p), fv(th)),
        r matches Some(ls) ==> (ls.0@, ls.1@) == spec_hot_lines(label@, para_view(*p)),
{
    let tw = crate::wide::from_u128(p.tokens as u128);
    let d = rate100_exec(&tw, p.ja_chars);
    if f_lt_exec(d, th) {
        return None;
    }
    let mut a = String::new();
    a.append("⚑ ");
    a.append(label);
    a.append("L");
    crate::numfmt::push_dec_u128_str(&mut a, p.line as u128);
    a.append(": ");
    push_fmt_fixed(&mut a, d, 0);
    a.append(" latin per 100 JA chars (JA ");
    crate::numfmt::push_dec_u128_str(&mut a, p.ja_chars as u128);
    a.append(" chars)");
    let mut b = String::new();
    b.append("   classify 3-way (domain/pinned/gratuitous): ");
    let vs = vecs_of(&p.vocab);
    crate::text::push_joined(&mut b, &vs, " ");
    Some((a, b))
}

/// The closing line of the codemix command for `hot` hot paragraphs at the
/// threshold `th` (shown rounded to a whole number).
pub open spec fn spec_closing(hot: nat, th: F64V) -> Seq<char> {
    if hot == 0 {
        "CODEMIX PASS: no paragraph above "@ + fmt_fixed(th, 0) + " latin per 100 JA chars (advisory)"@
    } else {
        "CODEMIX: "@ + crate::text::dec(hot)
            + " hot paragraphs (advisory — judge triages each token: domain / mention / gratuitous→rewrite)"@
    }
}

/// The closing line of the codemix command (which always exits 0: advisory).
pub fn closing_line(hot: usize, th: (u64, i64)) -> (r: String)
    requires
        th.0 <= 0x20_0000_0000_0000,
    ensures
        r@ == spec_closing(hot as nat, fv(th)),
{
    let mut s = String::new();
    if hot == 0 {
        s.append("CODEMIX PASS: no paragraph above ");
        push_fmt_fixed(&mut s, th, 0);
        s.append(" latin per 100 JA chars (advisory)");
    } else {
        s.append("CODEMIX: ");
        crate::numfmt::push_dec_u128_str(&mut s, hot as u128);
        s.append(" hot paragraphs (advisory — judge triages each token: domain / mention / gratuitous→rewrite)");
    }
    s
}


/// The report lines of the hot paragraphs among `ps` (two lines each) at the
/// threshold `th`.
pub open spec fn hot_report(label: Seq<char>, ps: Seq<ParaV>, th: F64V) -> Seq<Seq<char>>
    decreases ps.len(),
{
    if ps.len() == 0 {
        Seq::empty()
    } else {
        let p = ps.last();
        hot_report(label, ps.drop_last(), th) + if p.2 > 0 && is_hot(p, th) {
            let ls = spec_hot_lines(label, p);
            seq![ls.0, ls.1]
        } else {
            Seq::empty()
        }
    }
}

/// How many paragraphs among `ps` are hot at the threshold `th`.
pub open spec fn hot_count(ps: Seq<ParaV>, th: F64V) -> nat
    decreases ps.len(),
{
    if ps.len() == 0 {
        0
    } else {
        hot_count(ps.drop_last(), th) + if ps.last().2 > 0 && is_hot(ps.last(), th) {
            1nat
        } else {
            0nat
        }
    }
}

/// The codemix report of one document: the two lines of every hot
/// paragraph, in order, and how many paragraphs are hot.
pub fn codemix_report(label: &str, text: &str, exempt: &Vec<String>, th: (u64, i64)) -> (r: (Vec<String>, usize))
    requires
        text@.len() < usize::MAX,
    ensures
        strings_view(r.0@) == hot_report(label@, spec_paragraphs(text@, strings_view(exempt@)), fv(th)),
        r.1 == hot_count(spec_paragraphs(text@, strings_view(exempt@)), fv(th)),
{
    let ps = scan_paragraphs(text, exempt);
    let ghost g = paras_view(ps@);
    let mut lines: Vec<String> = Vec::new();
    let mut hot: usize = 0;
    let mut k: usize = 0;
    assert(g.take(0) =~= Seq::<ParaV>::empty());
    assert(strings_view(lines@) =~= Seq::<Seq<char>>::empty());
    while k < ps.len()
        invariant
            k <= ps.len(),
            g == paras_view(ps@),
            strings_view(lines@) == hot_report(label@, g.take(k as int), fv(th)),
            hot == hot_count(g.take(k as int), fv(th)),
            hot <= k,
        decreases ps.len() - k,
    {
        proof {
            assert(g.take(k + 1).drop_last() =~= g.take(k as int));
            assert(g.take(k + 1).last() == g[k as int]);
        }
        let p = &ps[k];
        assert(g[k as int] == para_view(*p));
        let ghost l0 = strings_view(lines@);
        if p.ja_chars > 0 {
            match hot_lines(label, p, th) {
                Some((a, b)) => {
                    lines.push(a);
                    lines.push(b);
                    hot = hot + 1;
                    assert(strings_view(lines@) =~= l0 + seq![spec_hot_lines(label@, g[k as int]).0, spec_hot_lines(label@, g[k as int]).1]);
                },
                None => {
                    assert(strings_view(lines@) =~= l0 + Seq::<Seq<char>>::empty());
                },
            }
        } else {
            assert(strings_view(lines@) =~= l0 + Seq::<Seq<char>>::empty());
        }
        k = k + 1;
    }
    assert(g.take(ps.len() as int) =~= g);
    (lines, hot)
}

/// The shape of the codemix report: two lines per hot paragraph, the first
/// of each pair the flagged line `⚑ …`.
pub proof fn lemma_hot_report_shape(label: Seq<char>, ps: Seq<ParaV>, th: F64V)
    ensures
        hot_report(label, ps, th).len() == 2 * hot_count(ps, th),
        forall|i: int|
            0 <= i < hot_count(ps, th) ==> (#[trigger] hot_report(label, ps, th)[2 * i]).take(2)
                == "⚑ "@,
    decreases ps.len(),
{
    if ps.len() > 0 {
        let q = ps.drop_last();
        lemma_hot_report_shape(label, q, th);
        let p = ps.last();
        let prev = hot_report(label, q, th);
        let r = hot_report(label, ps, th);
        reveal_strlit("⚑ ");
        if p.2 > 0 && is_hot(p, th) {
            let ls = spec_hot_lines(label, p);
            assert(ls.0.take(2) =~= "⚑ "@);
            assert forall|i: int| 0 <= i < hot_count(ps, th) implies (#[trigger] r[2 * i]).take(2) == "⚑ "@ by {
                if i < hot_count(q, th) {
                    assert(r[2 * i] == prev[2 * i]);
                } else {
                    assert(r[2 * i] == ls.0);
                }
            }
        } else {
            assert(r =~= prev);
        }
    }
}

/// The counted words of two runs of tokens are those of each run, in order.
pub proof fn lemma_kept_concat(a: Seq<Seq<char>>, b: Seq<Seq<char>>, exempt: Seq<Seq<char>>)
    ensures
        kept(a + b, exempt) == kept(a, exempt) + kept(b, exempt),
    decreases b.len(),
{
    if b.len() == 0 {
        assert(a + b =~= a);
        assert(kept(a, exempt) + kept(b, exempt) =~= kept(a, exempt));
    } else {
        lemma_kept_concat(a, b.drop_last(), exempt);
        assert((a + b).drop_last() =~= a + b.drop_last());
        assert((a + b).last() == b.last());
    }
}

/// Capitals-only abbreviations never count: a token of two or more ASCII
/// capitals and nothing else, wherever it stands among the tokens, neither
/// adds to the counted words nor to the vocabulary built from them.
pub proof fn lemma_capitals_never_count(
    before: Seq<Seq<char>>,
    t: Seq<char>,
    after: Seq<Seq<char>>,
    exempt: Seq<Seq<char>>,
)
    requires
        t.len() >= 2,
        forall|i: int| 0 <= i < t.len() ==> 'A' <= #[trigger] t[i] && t[i] <= 'Z',
    ensures
        kept(before + seq![t] + after, exempt) == kept(before + after, exempt),
{
    lemma_kept_concat(before, seq![t], exempt);
    lemma_kept_concat(before + seq![t], after, exempt);
    lemma_kept_concat(before, after, exempt);
    assert(seq![t].drop_last() =~= Seq::<Seq<char>>::empty());
    assert(seq![t].last() == t);
    assert(is_acronym(t));
    assert(kept(Seq::<Seq<char>>::empty(), exempt) =~= Seq::<Seq<char>>::empty());
    assert(kept(seq![t], exempt) =~= Seq::<Seq<char>>::empty());
    assert(kept(before, exempt) + kept(seq![t], exempt) =~= kept(before, exempt));
}

} // verus!
