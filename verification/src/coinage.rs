// coinage.rs — out-of-dictionary compounds (coinages and hybrid words).
//
// The morphological analysis (Sudachi, mode C) hands over a line as a list of
// morphemes with their part of speech; everything decided from there is here:
// which runs of content morphemes form a compound (latin words join, across a
// single space after a latin word), which compounds are candidates (two parts
// or more, one of them kanji or katakana, not allowed), and which candidates
// fail the strict test (a single-kanji independent common noun, outside
// numeral compounds, unless a non-initial part has a suffix reading in the
// lexicon). Also here: the allow-list and corpus formats, the added lines of a
// unified diff, the prose lines of a file, and what `check` makes of a hit.
use vstd::prelude::*;

use crate::prose::{spec_strip_fences, strip_fences_chars};
use crate::report::{data_view, finding_view, str_eq, DataV, Finding, FindingData, FindingV};
use crate::suppress::{spec_hit, Suppressions};
use crate::text::{
    chars_of, contains_word, drop_code, drop_code_exec, lines_of, seqs_of, split_lines, string_of, strings_view, trim,
    trim_start, trimmed, trimmed_start,
};

verus! {

/// The arguments of the coinage command: dictionary directory, allow-list
/// files and words, and the input mode and verdict switches.
pub struct CoinageArgs {
    pub dict_dir: Option<String>,
    /// Allow-list registry files (a markdown table, or one word per line).
    pub allow: Vec<String>,
    /// Words allowed directly (the `allow` of the configuration).
    pub allow_words: Vec<String>,
    pub diff: bool,
    pub strict: bool,
    pub advisory: bool,
    pub files: Vec<String>,
}

/// One candidate compound: where it is, and its parts.
pub struct CoinageHit {
    pub file: String,
    pub line: usize,
    pub compound: String,
    pub components: Vec<String>,
}

/// A morpheme of the analysis: its surface and its first three part-of-speech fields.
pub struct Morpheme {
    pub surface: String,
    pub pos1: String,
    pub pos2: String,
    pub pos3: String,
}

/// A morpheme's model: surface and the three part-of-speech fields.
pub type MorphV = (Seq<char>, Seq<char>, Seq<char>, Seq<char>);

pub open spec fn morph_view(m: Morpheme) -> MorphV {
    (m.surface@, m.pos1@, m.pos2@, m.pos3@)
}

pub open spec fn morphs_view(v: Seq<Morpheme>) -> Seq<MorphV> {
    Seq::new(v.len(), |i: int| morph_view(v[i]))
}

// ---------------------------------------------------------------------------
// Characters and words.

pub open spec fn is_ascii_alpha(c: char) -> bool {
    ('a' <= c && c <= 'z') || ('A' <= c && c <= 'Z')
}

pub open spec fn is_latin_char(c: char) -> bool {
    is_ascii_alpha(c) || ('0' <= c && c <= '9') || c == '-' || c == '_'
}

/// A latin word: ASCII letters, digits, `-` and `_` only, with a letter.
pub open spec fn latin_word(s: Seq<char>) -> bool {
    &&& s.len() > 0
    &&& forall|i: int| 0 <= i < s.len() ==> is_latin_char(#[trigger] s[i])
    &&& exists|i: int| 0 <= i < s.len() && is_ascii_alpha(#[trigger] s[i])
}

/// A CJK unified ideograph, a katakana, or 々.
pub open spec fn kanji_kata(c: char) -> bool {
    ('\u{4E00}' <= c && c <= '\u{9FFF}') || ('\u{30A0}' <= c && c <= '\u{30FF}') || c == '\u{3005}'
}

pub open spec fn has_kanji_kata(s: Seq<char>) -> bool {
    exists|i: int| 0 <= i < s.len() && kanji_kata(#[trigger] s[i])
}

/// Decides `latin_word`.
pub fn is_latin_word(s: &str) -> (r: bool)
    ensures
        r == latin_word(s@),
{
    let v = chars_of(s);
    latin_word_chars(&v)
}

fn latin_word_chars(v: &Vec<char>) -> (r: bool)
    ensures
        r == latin_word(v@),
{
    if v.len() == 0 {
        return false;
    }
    let mut alpha = false;
    let mut k: usize = 0;
    while k < v.len()
        invariant
            k <= v.len(),
            forall|i: int| 0 <= i < k ==> is_latin_char(#[trigger] v@[i]),
            alpha == exists|i: int| 0 <= i < k && is_ascii_alpha(#[trigger] v@[i]),
        decreases v.len() - k,
    {
        let c = v[k];
        let a = ('a' <= c && c <= 'z') || ('A' <= c && c <= 'Z');
        if !(a || ('0' <= c && c <= '9') || c == '-' || c == '_') {
            assert(!is_latin_char(v@[k as int]));
            return false;
        }
        if a {
            alpha = true;
        }
        k = k + 1;
    }
    alpha
}

/// Decides `kanji_kata`.
pub fn is_kanji_kata(c: char) -> (r: bool)
    ensures
        r == kanji_kata(c),
{
    ('\u{4E00}' <= c && c <= '\u{9FFF}') || ('\u{30A0}' <= c && c <= '\u{30FF}') || c == '\u{3005}'
}

fn has_kanji_kata_chars(v: &Vec<char>) -> (r: bool)
    ensures
        r == has_kanji_kata(v@),
{
    let mut k: usize = 0;
    while k < v.len()
        invariant
            k <= v.len(),
            forall|i: int| 0 <= i < k ==> !kanji_kata(#[trigger] v@[i]),
        decreases v.len() - k,
    {
        if is_kanji_kata(v[k]) {
            return true;
        }
        k = k + 1;
    }
    false
}

// ---------------------------------------------------------------------------
// Compounds of a line.

/// A content morpheme: a noun, prefix or suffix written with kanji or
/// katakana, or a latin word.
pub open spec fn is_content(m: MorphV) -> bool {
    ((m.1 == "名詞"@ || m.1 == "接頭辞"@ || m.1 == "接尾辞"@) && has_kanji_kata(m.0)) || latin_word(m.0)
}

/// The concatenated surfaces of some morphemes.
pub open spec fn surfaces(run: Seq<MorphV>) -> Seq<char>
    decreases run.len(),
{
    if run.len() == 0 {
        Seq::empty()
    } else {
        surfaces(run.drop_last()) + run.last().0
    }
}

/// A candidate compound: its text and its parts.
pub type CompoundV = (Seq<char>, Seq<MorphV>);

/// A run becomes a candidate when it has two parts or more, one of them
/// written with kanji or katakana, and it is not allowed.
pub open spec fn flush(out: Seq<CompoundV>, run: Seq<MorphV>, allow: Seq<Seq<char>>) -> Seq<CompoundV> {
    if run.len() >= 2 && (exists|i: int| 0 <= i < run.len() && has_kanji_kata(#[trigger] run[i].0)) && !allow.contains(
        surfaces(run),
    ) {
        out.push((surfaces(run), run))
    } else {
        out
    }
}

/// The scanning state: the candidates so far, the open run, and whether the
/// last morpheme was a single space held after a latin word.
pub type ScanState = (Seq<CompoundV>, Seq<MorphV>, bool);

pub open spec fn scan_step(st: ScanState, m: MorphV, allow: Seq<Seq<char>>) -> ScanState {
    if is_content(m) {
        (st.0, st.1.push(m), false)
    } else if !st.2 && trim(m.0).len() == 0 && st.1.len() > 0 && latin_word(st.1.last().0) {
        (st.0, st.1, true)
    } else {
        (flush(st.0, st.1, allow), Seq::empty(), false)
    }
}

pub open spec fn scan_fold(ms: Seq<MorphV>, allow: Seq<Seq<char>>) -> ScanState
    decreases ms.len(),
{
    if ms.len() == 0 {
        (Seq::empty(), Seq::empty(), false)
    } else {
        scan_step(scan_fold(ms.drop_last(), allow), ms.last(), allow)
    }
}

/// The candidate compounds of an analysed line.
pub open spec fn spec_compounds(ms: Seq<MorphV>, allow: Seq<Seq<char>>) -> Seq<CompoundV> {
    let st = scan_fold(ms, allow);
    flush(st.0, st.1, allow)
}

pub open spec fn compounds_view(v: Seq<(String, Vec<Morpheme>)>) -> Seq<CompoundV> {
    Seq::new(v.len(), |i: int| (v[i].0@, morphs_view(v[i].1@)))
}

fn eq_lit(s: &String, lit: &str) -> (r: bool)
    ensures
        r == (s@ == lit@),
{
    str_eq(s.as_str(), lit)
}

fn is_content_exec(m: &Morpheme) -> (r: bool)
    ensures
        r == is_content(morph_view(*m)),
{
    let s = chars_of(m.surface.as_str());
    ((eq_lit(&m.pos1, "名詞") || eq_lit(&m.pos1, "接頭辞") || eq_lit(&m.pos1, "接尾辞")) && has_kanji_kata_chars(&s))
        || latin_word_chars(&s)
}

fn copy_morpheme(m: &Morpheme) -> (r: Morpheme)
    ensures
        morph_view(r) == morph_view(*m),
{
    Morpheme { surface: m.surface.clone(), pos1: m.pos1.clone(), pos2: m.pos2.clone(), pos3: m.pos3.clone() }
}

fn flush_exec(out: &mut Vec<(String, Vec<Morpheme>)>, run: &Vec<Morpheme>, allow: &Vec<Vec<char>>)
    ensures
        compounds_view(final(out)@) == flush(compounds_view(old(out)@), morphs_view(run@), seqs_of(allow@)),
{
    let ghost rv = morphs_view(run@);
    let mut text: Vec<char> = Vec::new();
    let mut native = false;
    let mut k: usize = 0;
    assert(rv.take(0) =~= Seq::<MorphV>::empty());
    while k < run.len()
        invariant
            k <= run.len(),
            rv == morphs_view(run@),
            text@ == surfaces(rv.take(k as int)),
            native == exists|i: int| 0 <= i < k && has_kanji_kata(#[trigger] rv[i].0),
        decreases run.len() - k,
    {
        let s = chars_of(run[k].surface.as_str());
        assert(rv[k as int].0 == s@);
        assert(rv.take(k + 1).drop_last() =~= rv.take(k as int));
        crate::text::push_all(&mut text, &s);
        if has_kanji_kata_chars(&s) {
            native = true;
        } else {
            assert forall|i: int| 0 <= i < k + 1 && has_kanji_kata(#[trigger] rv[i].0) implies i < k by {}
        }
        k = k + 1;
    }
    assert(rv.take(run.len() as int) =~= rv);
    if run.len() >= 2 && native && !contains_word(allow, &text) {
        let mut parts: Vec<Morpheme> = Vec::new();
        let mut j: usize = 0;
        while j < run.len()
            invariant
                j <= run.len(),
                rv == morphs_view(run@),
                morphs_view(parts@) == rv.take(j as int),
            decreases run.len() - j,
        {
            let ghost p0 = parts@;
            parts.push(copy_morpheme(&run[j]));
            assert(morphs_view(parts@) =~= morphs_view(p0).push(rv[j as int]));
            assert(rv.take(j + 1) =~= rv.take(j as int).push(rv[j as int]));
            j = j + 1;
        }
        assert(rv.take(run.len() as int) =~= rv);
        let ghost o0 = out@;
        out.push((string_of(&text), parts));
        assert(compounds_view(out@) =~= compounds_view(o0).push((surfaces(rv), rv)));
    }
}

/// The candidate compounds of a line analysed into `morphs`: runs of content
/// morphemes (a single space after a latin word joins), of two parts or more
/// with one in kanji or katakana, that `allow` does not hold.
pub fn compounds(morphs: &Vec<Morpheme>, allow: &Vec<String>) -> (r: Vec<(String, Vec<Morpheme>)>)
    ensures
        compounds_view(r@) == spec_compounds(morphs_view(morphs@), strings_view(allow@)),
{
    let al = crate::codemix::vecs_of(allow);
    let ghost av = strings_view(allow@);
    let ghost mv = morphs_view(morphs@);
    let mut out: Vec<(String, Vec<Morpheme>)> = Vec::new();
    let mut run: Vec<Morpheme> = Vec::new();
    let mut bridged = false;
    let mut k: usize = 0;
    assert(mv.take(0) =~= Seq::<MorphV>::empty());
    assert(compounds_view(out@) =~= Seq::<CompoundV>::empty());
    assert(morphs_view(run@) =~= Seq::<MorphV>::empty());
    while k < morphs.len()
        invariant
            k <= morphs.len(),
            mv == morphs_view(morphs@),
            seqs_of(al@) == av,
            (compounds_view(out@), morphs_view(run@), bridged) == scan_fold(mv.take(k as int), av),
        decreases morphs.len() - k,
    {
        assert(mv.take(k + 1).drop_last() =~= mv.take(k as int));
        let m = &morphs[k];
        assert(morph_view(*m) == mv[k as int]);
        if is_content_exec(m) {
            let ghost r0 = run@;
            run.push(copy_morpheme(m));
            assert(morphs_view(run@) =~= morphs_view(r0).push(mv[k as int]));
            bridged = false;
        } else {
            let s = chars_of(m.surface.as_str());
            let t = trimmed(&s);
            let last_latin = if run.len() > 0 {
                let ls = chars_of(run[run.len() - 1].surface.as_str());
                latin_word_chars(&ls)
            } else {
                false
            };
            assert(run.len() > 0 ==> morphs_view(run@).last() == morph_view(run@[run.len() - 1]));
            if !bridged && t.len() == 0 && last_latin {
                bridged = true;
            } else {
                flush_exec(&mut out, &run, &al);
                run = Vec::new();
                assert(morphs_view(run@) =~= Seq::<MorphV>::empty());
                bridged = false;
            }
        }
        k = k + 1;
    }
    assert(mv.take(morphs.len() as int) =~= mv);
    flush_exec(&mut out, &run, &al);
    out
}

// ---------------------------------------------------------------------------
// The strict test.

/// A single kanji (or 々).
pub open spec fn single_kanji(s: Seq<char>) -> bool {
    s.len() == 1 && (('\u{4E00}' <= s[0] && s[0] <= '\u{9FFF}') || s[0] == '\u{3005}')
}

/// Part `i` is a single-kanji independent common noun, not rescued by a
/// suffix reading in a non-initial position.
pub open spec fn independent_noun_at(parts: Seq<MorphV>, suffix: Seq<bool>, i: int) -> bool {
    &&& single_kanji(parts[i].0)
    &&& parts[i].1 == "名詞"@
    &&& parts[i].2 == "普通名詞"@
    &&& parts[i].3 == "一般"@
    &&& !(i > 0 && suffix[i])
}

/// The strict verdict on a compound's parts, where `suffix[i]` says whether
/// the lexicon gives part `i` a word-forming suffix reading (a suffix that is
/// not a counter): a compound with a numeral passes; otherwise it fails when
/// some part is an independent single-kanji noun.
pub open spec fn spec_strict_hit(parts: Seq<MorphV>, suffix: Seq<bool>) -> bool {
    &&& !(exists|i: int| 0 <= i < parts.len() && (#[trigger] parts[i]).2 == "数詞"@)
    &&& exists|i: int| 0 <= i < parts.len() && #[trigger] independent_noun_at(parts, suffix, i)
}

fn single_kanji_exec(s: &String) -> (r: bool)
    ensures
        r == single_kanji(s@),
{
    let v = chars_of(s.as_str());
    v.len() == 1 && (('\u{4E00}' <= v[0] && v[0] <= '\u{9FFF}') || v[0] == '\u{3005}')
}

/// Decides the strict verdict (`suffix` holds one reading per part).
pub fn is_strict_hit(parts: &Vec<Morpheme>, suffix: &Vec<bool>) -> (r: bool)
    requires
        suffix.len() == parts.len(),
    ensures
        r == spec_strict_hit(morphs_view(parts@), suffix@),
{
    let ghost pv = morphs_view(parts@);
    let mut k: usize = 0;
    while k < parts.len()
        invariant
            k <= parts.len(),
            pv == morphs_view(parts@),
            forall|i: int| 0 <= i < k ==> (#[trigger] pv[i]).2 != "数詞"@,
        decreases parts.len() - k,
    {
        assert(pv[k as int] == morph_view(parts@[k as int]));
        if eq_lit(&parts[k].pos2, "数詞") {
            return false;
        }
        k = k + 1;
    }
    let mut j: usize = 0;
    while j < parts.len()
        invariant
            j <= parts.len(),
            suffix.len() == parts.len(),
            pv == morphs_view(parts@),
            forall|i: int| 0 <= i < parts.len() ==> (#[trigger] pv[i]).2 != "数詞"@,
            forall|i: int| 0 <= i < j ==> !#[trigger] independent_noun_at(pv, suffix@, i),
        decreases parts.len() - j,
    {
        let p = &parts[j];
        assert(pv[j as int] == morph_view(*p));
        if single_kanji_exec(&p.surface) && eq_lit(&p.pos1, "名詞") && eq_lit(&p.pos2, "普通名詞") && eq_lit(
            &p.pos3,
            "一般",
        ) && !(j > 0 && suffix[j]) {
            assert(independent_noun_at(pv, suffix@, j as int));
            return true;
        }
        j = j + 1;
    }
    false
}


// ---------------------------------------------------------------------------
// Allow-lists and the corpus.

pub open spec fn md_suffix() -> Seq<char> {
    seq!['.', 'm', 'd']
}

/// The end of the run of White_Space from `j`.
pub open spec fn run_ws(s: Seq<char>, j: int) -> int
    decreases s.len() - j,
{
    if 0 <= j < s.len() && crate::unicode::is_white_space(s[j]) {
        run_ws(s, j + 1)
    } else {
        j
    }
}

proof fn lemma_run_ws(s: Seq<char>, j: int)
    requires
        0 <= j <= s.len(),
    ensures
        j <= run_ws(s, j) <= s.len(),
    decreases s.len() - j,
{
    if j < s.len() {
        lemma_run_ws(s, j + 1);
    }
}

/// The first cell of a registry table row `| `term …` |`: the text between
/// the first pair of backticks, when they open the row (after `|` and
/// White_Space) and enclose at least one character.
pub open spec fn md_cell(l: Seq<char>) -> Option<Seq<char>> {
    if l.len() > 0 && l[0] == '|' {
        let j = run_ws(l, 1);
        if j < l.len() && l[j] == '`' {
            match crate::text::find_from(l, seq!['`'], j + 1) {
                Some(q) => if q > j + 1 {
                    Some(l.subrange(j + 1, q))
                } else {
                    None
                },
                None => None,
            }
        } else {
            None
        }
    } else {
        None
    }
}

/// The words a registry row allows: the first word of the trimmed cell (if
/// any), then the trimmed cell.
pub open spec fn cell_words(c: Seq<char>) -> Seq<Seq<char>> {
    let t = trim(c);
    if t.len() > 0 {
        seq![t.subrange(0, crate::prose::run_nonws(t, 0)), t]
    } else {
        seq![t]
    }
}

/// The words a line of a plain list allows: the trimmed line, unless blank or a `#` comment.
pub open spec fn plain_words(l: Seq<char>) -> Seq<Seq<char>> {
    let t = trim(l);
    if t.len() > 0 && t[0] != '#' {
        seq![t]
    } else {
        Seq::empty()
    }
}

pub open spec fn allow_lines(ls: Seq<Seq<char>>, md: bool, k: int) -> Seq<Seq<char>>
    decreases k,
{
    if k <= 0 || k > ls.len() {
        Seq::empty()
    } else {
        allow_lines(ls, md, k - 1) + if md {
            match md_cell(ls[k - 1]) {
                Some(c) => cell_words(c),
                None => Seq::empty(),
            }
        } else {
            plain_words(ls[k - 1])
        }
    }
}

/// The words an allow-list file named `name` allows: registry rows of a
/// `.md` file, or the lines of any other file.
pub open spec fn spec_allow_file(name: Seq<char>, text: Seq<char>) -> Seq<Seq<char>> {
    let ls = lines_of(text);
    allow_lines(ls, crate::text::ends_with(name, md_suffix()), ls.len() as int)
}

fn push_word(out: &mut Vec<String>, w: &Vec<char>)
    ensures
        strings_view(final(out)@) == strings_view(old(out)@).push(w@),
{
    let ghost o0 = out@;
    out.push(string_of(w));
    assert(strings_view(out@) =~= strings_view(o0).push(w@));
}

/// The words an allow-list file allows (`name` decides the format).
pub fn parse_allow_file(name: &str, text: &str) -> (r: Vec<String>)
    ensures
        strings_view(r@) == spec_allow_file(name@, text@),
{
    let nm = chars_of(name);
    let suf = vec!['.', 'm', 'd'];
    assert(suf@ =~= md_suffix());
    let md = crate::text::ends_with_exec(&nm, &suf);
    let s = chars_of(text);
    let ls = split_lines(&s);
    let ghost g = seqs_of(ls@);
    let tick = vec!['`'];
    assert(tick@ =~= seq!['`']);
    let mut out: Vec<String> = Vec::new();
    let mut k: usize = 0;
    assert(strings_view(out@) =~= Seq::<Seq<char>>::empty());
    while k < ls.len()
        invariant
            k <= ls.len(),
            g == seqs_of(ls@),
            g == lines_of(text@),
            md == crate::text::ends_with(name@, md_suffix()),
            tick@ == seq!['`'],
            strings_view(out@) == allow_lines(g, md, k as int),
        decreases ls.len() - k,
    {
        let l = &ls[k];
        let ghost o0 = strings_view(out@);
        if md {
            let mut cell: Option<Vec<char>> = None;
            if l.len() > 0 && l[0] == '|' {
                let j = ws_end(l, 1);
                if j < l.len() && l[j] == '`' {
                    proof {
                        crate::text::lemma_find_from(l@, seq!['`'], j + 1);
                    }
                    match crate::text::find(l, &tick, j + 1) {
                        Some(q) => {
                            if q > j + 1 {
                                cell = Some(crate::text::slice_of(l, j + 1, q));
                            }
                        },
                        None => {},
                    }
                }
            }
            assert(match cell {
                Some(c) => md_cell(g[k as int]) == Some(c@),
                None => md_cell(g[k as int]) is None,
            });
            match cell {
                Some(c) => {
                    let t = trimmed(&c);
                    if t.len() > 0 {
                        let e = crate::prose::end_nonws(&t, 0);
                        proof {
                            crate::prose::lemma_runs(t@, 0);
                        }
                        let first = crate::text::slice_of(&t, 0, e);
                        push_word(&mut out, &first);
                    }
                    push_word(&mut out, &t);
                    assert(strings_view(out@) =~= o0 + cell_words(c@));
                },
                None => {
                    assert(strings_view(out@) =~= o0 + Seq::<Seq<char>>::empty());
                },
            }
        } else {
            let t = trimmed(l);
            if t.len() > 0 && t[0] != '#' {
                push_word(&mut out, &t);
                assert(strings_view(out@) =~= o0 + plain_words(g[k as int]));
            } else {
                assert(strings_view(out@) =~= o0 + plain_words(g[k as int]));
            }
        }
        k = k + 1;
    }
    out
}

fn ws_end(s: &Vec<char>, j: usize) -> (e: usize)
    requires
        j <= s.len(),
    ensures
        e == run_ws(s@, j as int),
        j <= e <= s.len(),
{
    proof {
        lemma_run_ws(s@, j as int);
    }
    let mut e = j;
    while e < s.len() && crate::unicode::white_space(s[e])
        invariant
            j <= e <= s.len(),
            run_ws(s@, j as int) == run_ws(s@, e as int),
        decreases s.len() - e,
    {
        e = e + 1;
    }
    e
}

/// A corpus line's word: its first tab-separated field, trimmed; none if
/// blank or a `#` comment.
pub open spec fn corpus_word(l: Seq<char>) -> Seq<Seq<char>> {
    let f = match crate::text::find_from(l, seq!['\t'], 0) {
        Some(p) => l.subrange(0, p),
        None => l,
    };
    let t = trim(f);
    if t.len() > 0 && t[0] != '#' {
        seq![t]
    } else {
        Seq::empty()
    }
}

pub open spec fn corpus_lines(ls: Seq<Seq<char>>, k: int) -> Seq<Seq<char>>
    decreases k,
{
    if k <= 0 || k > ls.len() {
        Seq::empty()
    } else {
        corpus_lines(ls, k - 1) + corpus_word(ls[k - 1])
    }
}

/// The words of a corpus (one per line, TSV first column).
pub open spec fn spec_corpus(text: Seq<char>) -> Seq<Seq<char>> {
    let ls = lines_of(text);
    corpus_lines(ls, ls.len() as int)
}

/// The words of a corpus text: what `load_corpus` reads, without the file read.
pub fn parse_corpus(text: &str) -> (r: Vec<String>)
    ensures
        strings_view(r@) == spec_corpus(text@),
{
    let s = chars_of(text);
    let ls = split_lines(&s);
    let ghost g = seqs_of(ls@);
    let tab = vec!['\t'];
    assert(tab@ =~= seq!['\t']);
    let mut out: Vec<String> = Vec::new();
    let mut k: usize = 0;
    assert(strings_view(out@) =~= Seq::<Seq<char>>::empty());
    while k < ls.len()
        invariant
            k <= ls.len(),
            g == seqs_of(ls@),
            g == lines_of(text@),
            tab@ == seq!['\t'],
            strings_view(out@) == corpus_lines(g, k as int),
        decreases ls.len() - k,
    {
        let l = &ls[k];
        proof {
            crate::text::lemma_find_from(l@, seq!['\t'], 0);
        }
        let f = match crate::text::find(l, &tab, 0) {
            Some(p) => crate::text::slice_of(l, 0, p),
            None => crate::text::slice_of(l, 0, l.len()),
        };
        assert(l@.subrange(0, l.len() as int) =~= l@);
        let t = trimmed(&f);
        let ghost o0 = strings_view(out@);
        if t.len() > 0 && t[0] != '#' {
            push_word(&mut out, &t);
        }
        assert(strings_view(out@) =~= o0 + corpus_word(g[k as int]));
        k = k + 1;
    }
    out
}


// ---------------------------------------------------------------------------
// The lines to analyse.

pub open spec fn is_ascii_digit(c: char) -> bool {
    '0' <= c && c <= '9'
}

/// The end of the run of (Unicode) decimal digits from `j`.
pub open spec fn run_udigits(s: Seq<char>, j: int) -> int
    decreases s.len() - j,
{
    if 0 <= j < s.len() && crate::unicode::is_decimal_digit(s[j]) {
        run_udigits(s, j + 1)
    } else {
        j
    }
}

proof fn lemma_run_udigits(s: Seq<char>, j: int)
    requires
        0 <= j <= s.len(),
    ensures
        j <= run_udigits(s, j) <= s.len(),
    decreases s.len() - j,
{
    if j < s.len() {
        lemma_run_udigits(s, j + 1);
    }
}

/// The value of a string of ASCII digits.
pub open spec fn digits_value(s: Seq<char>) -> nat
    decreases s.len(),
{
    if s.len() == 0 {
        0
    } else {
        digits_value(s.drop_last()) * 10 + ((s.last() as int - '0' as int) as nat)
    }
}

/// The line number a hunk header gives (`usize` parsing: ASCII digits that
/// fit, otherwise 1).
pub open spec fn parse_line_number(s: Seq<char>) -> nat {
    if (forall|i: int| 0 <= i < s.len() ==> is_ascii_digit(#[trigger] s[i])) && s.len() > 0 && digits_value(s)
        <= usize::MAX {
        digits_value(s)
    } else {
        1
    }
}

pub open spec fn hunk_prefix() -> Seq<char> {
    seq!['@', '@', ' ', '-']
}

/// A hunk header `@@ -<old> +<new>…`: the digits of the new start line.
pub open spec fn hunk_digits(l: Seq<char>) -> Option<Seq<char>> {
    if crate::text::starts_with(l, hunk_prefix()) {
        let e = crate::prose::run_nonws(l, 4);
        if e > 4 && e + 1 < l.len() && l[e] == ' ' && l[e + 1] == '+' {
            let d = run_udigits(l, e + 2);
            if d > e + 2 {
                Some(l.subrange(e + 2, d))
            } else {
                None
            }
        } else {
            None
        }
    } else {
        None
    }
}

pub open spec fn new_file_prefix() -> Seq<char> {
    seq!['+', '+', '+', ' ', 'b', '/']
}

pub open spec fn plus3() -> Seq<char> {
    seq!['+', '+', '+']
}

/// An added line of the diff: the file, its line in the new file, its text.
pub type AddedV = (Seq<char>, nat, Seq<char>);

/// The state over the diff: added lines so far, current file, next line number.
pub type DiffState = (Seq<AddedV>, Seq<char>, nat);

pub open spec fn diff_step(st: DiffState, l: Seq<char>) -> DiffState {
    if crate::text::starts_with(l, new_file_prefix()) {
        (st.0, l.subrange(6, l.len() as int), st.2)
    } else if hunk_digits(l) is Some {
        (st.0, st.1, parse_line_number(hunk_digits(l)->0))
    } else if l.len() > 0 && l[0] == '+' && !crate::text::starts_with(l, plus3()) {
        (
            st.0.push((st.1, st.2, l.subrange(1, l.len() as int))),
            st.1,
            if st.2 == usize::MAX {
                0
            } else {
                st.2 + 1
            },
        )
    } else {
        st
    }
}

pub open spec fn diff_fold(ls: Seq<Seq<char>>, k: int) -> DiffState
    decreases k,
{
    if k <= 0 || k > ls.len() {
        (Seq::empty(), seq!['?'], 0)
    } else {
        diff_step(diff_fold(ls, k - 1), ls[k - 1])
    }
}

/// The added lines of a unified diff (`git diff -U0`): `+++ b/<file>` names
/// the file, a hunk header sets the line number, each `+` line (not `+++`)
/// is an added line and advances it (wrapping at the top of `usize`).
pub open spec fn spec_added_lines(diff: Seq<char>) -> Seq<AddedV> {
    let ls = lines_of(diff);
    diff_fold(ls, ls.len() as int).0
}

pub open spec fn added_view(v: Seq<(String, usize, String)>) -> Seq<AddedV> {
    Seq::new(v.len(), |i: int| (v[i].0@, v[i].1 as nat, v[i].2@))
}

fn parse_line_number_exec(s: &Vec<char>) -> (r: usize)
    ensures
        r == parse_line_number(s@),
{
    let mut v: usize = 0;
    let mut over = false;
    let mut k: usize = 0;
    assert(s@.take(0) =~= Seq::<char>::empty());
    while k < s.len()
        invariant
            k <= s.len(),
            forall|i: int| 0 <= i < k ==> is_ascii_digit(#[trigger] s@[i]),
            !over ==> v == digits_value(s@.take(k as int)),
            over ==> digits_value(s@.take(k as int)) > usize::MAX,
        decreases s.len() - k,
    {
        let c = s[k];
        if !('0' <= c && c <= '9') {
            assert(!is_ascii_digit(s@[k as int]));
            return 1;
        }
        assert(s@.take(k + 1).drop_last() =~= s@.take(k as int));
        let d = (c as u32 - '0' as u32) as usize;
        assert(d == (s@.take(k + 1).last() as int - '0' as int));
        if !over {
            match v.checked_mul(10) {
                Some(t) => match t.checked_add(d) {
                    Some(u) => {
                        v = u;
                    },
                    None => {
                        over = true;
                    },
                },
                None => {
                    over = true;
                    assert(digits_value(s@.take(k + 1)) >= v * 10);
                },
            }
        } else {
            assert(digits_value(s@.take(k + 1)) >= digits_value(s@.take(k as int)) * 10);
        }
        k = k + 1;
    }
    assert(s@.take(s.len() as int) =~= s@);
    if over || s.len() == 0 {
        1
    } else {
        v
    }
}

/// The added lines of a unified diff.
pub fn added_lines(diff: &str) -> (r: Vec<(String, usize, String)>)
    ensures
        added_view(r@) == spec_added_lines(diff@),
{
    let s = chars_of(diff);
    let ls = split_lines(&s);
    let ghost g = seqs_of(ls@);
    let nfp = vec!['+', '+', '+', ' ', 'b', '/'];
    assert(nfp@ =~= new_file_prefix());
    let p3 = vec!['+', '+', '+'];
    assert(p3@ =~= plus3());
    let hp = vec!['@', '@', ' ', '-'];
    assert(hp@ =~= hunk_prefix());
    let mut out: Vec<(String, usize, String)> = Vec::new();
    let mut file: Vec<char> = vec!['?'];
    let mut line: usize = 0;
    let mut k: usize = 0;
    assert(added_view(out@) =~= Seq::<AddedV>::empty());
    assert(file@ =~= seq!['?']);
    while k < ls.len()
        invariant
            k <= ls.len(),
            g == seqs_of(ls@),
            g == lines_of(diff@),
            nfp@ == new_file_prefix(),
            p3@ == plus3(),
            hp@ == hunk_prefix(),
            (added_view(out@), file@, line as nat) == diff_fold(g, k as int),
        decreases ls.len() - k,
    {
        let l = &ls[k];
        assert(l@ == g[k as int]);
        if crate::text::at(l, &nfp, 0) {
            file = crate::text::slice_of(l, 6, l.len());
        } else {
            let mut hunk: Option<Vec<char>> = None;
            if crate::text::at(l, &hp, 0) {
                proof {
                    crate::prose::lemma_runs(l@, 4);
                }
                let e = crate::prose::end_nonws(l, 4);
                if e > 4 && e < l.len() && l[e] == ' ' && e + 1 < l.len() && l[e + 1] == '+' {
                    let d = udigits_end(l, e + 2);
                    if d > e + 2 {
                        hunk = Some(crate::text::slice_of(l, e + 2, d));
                    }
                }
            }
            assert(match hunk {
                Some(h) => hunk_digits(l@) == Some(h@),
                None => hunk_digits(l@) is None,
            });
            match hunk {
                Some(h) => {
                    line = parse_line_number_exec(&h);
                },
                None => {
                    if l.len() > 0 && l[0] == '+' && !crate::text::at(l, &p3, 0) {
                        let ghost o0 = added_view(out@);
                        let t = crate::text::slice_of(l, 1, l.len());
                        out.push((string_of(&file), line, string_of(&t)));
                        assert(added_view(out@) =~= o0.push((file@, line as nat, t@)));
                        line = line.wrapping_add(1);
                    }
                },
            }
        }
        k = k + 1;
    }
    out
}

fn udigits_end(s: &Vec<char>, j: usize) -> (e: usize)
    requires
        j <= s.len(),
    ensures
        e == run_udigits(s@, j as int),
        j <= e <= s.len(),
{
    proof {
        lemma_run_udigits(s@, j as int);
    }
    let mut e = j;
    while e < s.len() && crate::unicode::decimal_digit(s[e])
        invariant
            j <= e <= s.len(),
            run_udigits(s@, j as int) == run_udigits(s@, e as int),
        decreases s.len() - e,
    {
        e = e + 1;
    }
    e
}

/// The prose lines of a document, by line number: code fences blanked,
/// table rows skipped, inline code removed.
pub open spec fn prose_lines_from(ls: Seq<Seq<char>>, k: int) -> Seq<(nat, Seq<char>)>
    decreases k,
{
    if k <= 0 || k > ls.len() {
        Seq::empty()
    } else {
        let l = ls[k - 1];
        let t = trim_start(l);
        prose_lines_from(ls, k - 1) + if t.len() > 0 && t[0] == '|' {
            Seq::empty()
        } else {
            seq![(k as nat, drop_code(l))]
        }
    }
}

pub open spec fn spec_prose_lines(text: Seq<char>) -> Seq<(nat, Seq<char>)> {
    let ls = lines_of(spec_strip_fences(text));
    prose_lines_from(ls, ls.len() as int)
}

pub open spec fn numbered_view(v: Seq<(usize, String)>) -> Seq<(nat, Seq<char>)> {
    Seq::new(v.len(), |i: int| (v[i].0 as nat, v[i].1@))
}

/// The lines of a document to analyse, with their line numbers.
pub fn prose_lines(text: &str) -> (r: Vec<(usize, String)>)
    ensures
        numbered_view(r@) == spec_prose_lines(text@),
{
    let s = chars_of(text);
    let d = strip_fences_chars(&s);
    let ls = split_lines(&d);
    let ghost g = seqs_of(ls@);
    let mut out: Vec<(usize, String)> = Vec::new();
    let mut k: usize = 0;
    assert(numbered_view(out@) =~= Seq::<(nat, Seq<char>)>::empty());
    while k < ls.len()
        invariant
            k <= ls.len(),
            g == seqs_of(ls@),
            g == lines_of(spec_strip_fences(text@)),
            numbered_view(out@) == prose_lines_from(g, k as int),
        decreases ls.len() - k,
    {
        let l = &ls[k];
        let t = trimmed_start(l);
        let ghost o0 = numbered_view(out@);
        if !(t.len() > 0 && t[0] == '|') {
            let c = drop_code_exec(l);
            out.push((k + 1, string_of(&c)));
            assert(numbered_view(out@) =~= o0.push(((k + 1) as nat, drop_code(g[k as int]))));
        } else {
            assert(numbered_view(out@) =~= o0 + Seq::<(nat, Seq<char>)>::empty());
        }
        k = k + 1;
    }
    out
}

// ---------------------------------------------------------------------------
// Hits and what `check` reports.

/// A hit's model: file, line, compound, components.
pub type HitV = (Seq<char>, nat, Seq<char>, Seq<Seq<char>>);

pub open spec fn hit_view(h: CoinageHit) -> HitV {
    (h.file@, h.line as nat, h.compound@, strings_view(h.components@))
}

pub open spec fn hits_view(v: Seq<CoinageHit>) -> Seq<HitV> {
    Seq::new(v.len(), |i: int| hit_view(v[i]))
}

pub open spec fn surface_list(parts: Seq<MorphV>) -> Seq<Seq<char>> {
    Seq::new(parts.len(), |i: int| parts[i].0)
}

pub open spec fn line_hits_from(
    file: Seq<char>,
    line: nat,
    cs: Seq<CompoundV>,
    readings: Seq<Seq<bool>>,
    strict: bool,
    k: int,
) -> Seq<HitV>
    decreases k,
{
    if k <= 0 || k > cs.len() {
        Seq::empty()
    } else {
        line_hits_from(file, line, cs, readings, strict, k - 1) + if strict && !spec_strict_hit(
            cs[k - 1].1,
            readings[k - 1],
        ) {
            Seq::empty()
        } else {
            seq![(file, line, cs[k - 1].0, surface_list(cs[k - 1].1))]
        }
    }
}

/// The hits of one line: its candidate compounds, those that pass the strict
/// test left out when `strict`.
pub open spec fn spec_line_hits(
    file: Seq<char>,
    line: nat,
    cs: Seq<CompoundV>,
    readings: Seq<Seq<bool>>,
    strict: bool,
) -> Seq<HitV> {
    line_hits_from(file, line, cs, readings, strict, cs.len() as int)
}

/// The hits of a line of `file` from its candidate compounds, where
/// `readings[i][j]` says whether part `j` of compound `i` has a suffix reading.
pub fn line_hits(
    file: &str,
    line: usize,
    cs: &Vec<(String, Vec<Morpheme>)>,
    readings: &Vec<Vec<bool>>,
    strict: bool,
) -> (r: Vec<CoinageHit>)
    requires
        readings.len() == cs.len(),
        forall|i: int| 0 <= i < cs.len() ==> (#[trigger] readings@[i]).len() == cs@[i].1.len(),
    ensures
        hits_view(r@) == spec_line_hits(file@, line as nat, compounds_view(cs@), Seq::new(
            readings.len() as nat,
            |i: int| readings@[i]@,
        ), strict),
{
    let ghost cv = compounds_view(cs@);
    let ghost rv = Seq::new(readings.len() as nat, |i: int| readings@[i]@);
    let mut out: Vec<CoinageHit> = Vec::new();
    let mut k: usize = 0;
    assert(hits_view(out@) =~= Seq::<HitV>::empty());
    while k < cs.len()
        invariant
            k <= cs.len(),
            readings.len() == cs.len(),
            forall|i: int| 0 <= i < cs.len() ==> (#[trigger] readings@[i]).len() == cs@[i].1.len(),
            cv == compounds_view(cs@),
            rv == Seq::new(readings.len() as nat, |i: int| readings@[i]@),
            hits_view(out@) == line_hits_from(file@, line as nat, cv, rv, strict, k as int),
        decreases cs.len() - k,
    {
        let parts = &cs[k].1;
        assert(cv[k as int].1 == morphs_view(parts@));
        assert(rv[k as int] == readings@[k as int]@);
        let ghost o0 = hits_view(out@);
        if strict && !is_strict_hit(parts, &readings[k]) {
            assert(hits_view(out@) =~= o0 + Seq::<HitV>::empty());
        } else {
            let mut comps: Vec<String> = Vec::new();
            let mut j: usize = 0;
            while j < parts.len()
                invariant
                    j <= parts.len(),
                    strings_view(comps@) == surface_list(morphs_view(parts@)).take(j as int),
                decreases parts.len() - j,
            {
                let ghost c0 = comps@;
                comps.push(parts[j].surface.clone());
                assert(surface_list(morphs_view(parts@))[j as int] == parts@[j as int].surface@);
                assert(strings_view(comps@) =~= strings_view(c0).push(parts@[j as int].surface@));
                assert(strings_view(comps@) =~= surface_list(morphs_view(parts@)).take(j + 1));
                j = j + 1;
            }
            assert(surface_list(morphs_view(parts@)).take(parts.len() as int) =~= surface_list(morphs_view(parts@)));
            let h = CoinageHit {
                file: file.to_owned(),
                line,
                compound: cs[k].0.clone(),
                components: comps,
            };
            out.push(h);
            assert(hits_view(out@) =~= o0.push((file@, line as nat, cv[k as int].0, surface_list(cv[k as int].1))));
        }
        k = k + 1;
    }
    out
}

pub open spec fn coinage_msg(compound: Seq<char>) -> Seq<char> {
    "「"@ + compound
        + "」 is not a dictionary headword — judge: natural→ignore / keep→allow / confirmed coinage→deny or rewrite"@
}

/// What `check` reports of a hit: nothing when suppressed on its line, when
/// the corpus attests the compound, or when a deny entry already reports it;
/// otherwise an advisory dictionary-coinage finding.
pub open spec fn spec_coinage_finding(
    h: HitV,
    sup: Option<Map<int, Option<Set<Seq<char>>>>>,
    corpus: Seq<Seq<char>>,
    deny_words: Seq<Seq<char>>,
) -> Option<FindingV> {
    if sup matches Some(m) && spec_hit(m, h.1 as int, "coinage"@, "dictionary-coinage"@) {
        None
    } else if corpus.contains(h.2) {
        None
    } else if deny_words.contains(h.2) {
        None
    } else {
        Some(
            (
                "coinage"@,
                "dictionary-coinage"@,
                h.0,
                h.1 as int,
                "advisory"@,
                coinage_msg(h.2),
                Some(DataV::Coinage(h.2, h.3)),
            ),
        )
    }
}

pub open spec fn keys_of(v: Seq<(String, String)>) -> Seq<Seq<char>> {
    Seq::new(v.len(), |i: int| v[i].0@)
}

/// What `check` reports of a coinage hit (`sup`: the suppressions of its file).
pub fn coinage_finding(
    h: CoinageHit,
    sup: Option<&Suppressions>,
    corpus: &Vec<String>,
    deny: &Vec<(String, String)>,
) -> (r: Option<Finding>)
    requires
        sup matches Some(s) ==> s.wf(),
    ensures
        (match r {
            Some(f) => Some(finding_view(f)),
            None => None,
        }) == spec_coinage_finding(
            hit_view(h),
            match sup {
                Some(s) => Some(s@),
                None => None,
            },
            strings_view(corpus@),
            keys_of(deny@),
        ),
{
    match sup {
        Some(s) => {
            if s.hit(h.line, "coinage", "dictionary-coinage") {
                return None;
            }
        },
        None => {},
    }
    let c = chars_of(h.compound.as_str());
    let cw = crate::codemix::vecs_of(corpus);
    if contains_word(&cw, &c) {
        return None;
    }
    let mut keys: Vec<Vec<char>> = Vec::new();
    let mut k: usize = 0;
    while k < deny.len()
        invariant
            k <= deny.len(),
            seqs_of(keys@) == keys_of(deny@).take(k as int),
        decreases deny.len() - k,
    {
        let w = chars_of(deny[k].0.as_str());
        let ghost k0 = keys@;
        keys.push(w);
        assert(seqs_of(keys@) =~= seqs_of(k0).push(deny@[k as int].0@));
        assert(seqs_of(keys@) =~= keys_of(deny@).take(k + 1));
        k = k + 1;
    }
    assert(keys_of(deny@).take(deny.len() as int) =~= keys_of(deny@));
    if contains_word(&keys, &c) {
        return None;
    }
    let mut m = String::new();
    m.append("「");
    m.append(h.compound.as_str());
    m.append("」 is not a dictionary headword — judge: natural→ignore / keep→allow / confirmed coinage→deny or rewrite");
    let f = Finding {
        detector: "coinage",
        rule: "dictionary-coinage".to_owned(),
        file: h.file,
        line: h.line,
        severity: "advisory",
        message: m,
        data: Some(FindingData::Coinage { compound: h.compound, components: h.components }),
    };
    Some(f)
}

/// The verdict of the coinage command: its headline and exit status. No
/// hits pass; hits are candidates (status 0) under `advisory`, failures
/// (status 1) otherwise.
pub open spec fn spec_verdict(hits: nat, allow_len: nat, advisory: bool) -> (Seq<char>, int) {
    if hits == 0 {
        (
            "COINAGE PASS: no out-of-dictionary compounds (allowlist "@ + crate::text::dec(allow_len) + " entries)"@,
            0,
        )
    } else if advisory {
        (
            "COINAGE CANDIDATES: "@ + crate::text::dec(hits)
                + " (advisory — judge triages: natural / register in allow / confirmed coinage → deny)"@,
            0,
        )
    } else {
        ("COINAGE FAIL: "@ + crate::text::dec(hits) + " (criterion = Sudachi mode-C headword membership)"@, 1)
    }
}

/// The headline and exit status of the coinage command.
pub fn verdict(hits: usize, allow_len: usize, advisory: bool) -> (r: (String, i32))
    ensures
        (r.0@, r.1 as int) == spec_verdict(hits as nat, allow_len as nat, advisory),
{
    let mut m = String::new();
    if hits == 0 {
        m.append("COINAGE PASS: no out-of-dictionary compounds (allowlist ");
        crate::numfmt::push_dec_u128_str(&mut m, allow_len as u128);
        m.append(" entries)");
        (m, 0)
    } else if advisory {
        m.append("COINAGE CANDIDATES: ");
        crate::numfmt::push_dec_u128_str(&mut m, hits as u128);
        m.append(" (advisory — judge triages: natural / register in allow / confirmed coinage → deny)");
        (m, 0)
    } else {
        m.append("COINAGE FAIL: ");
        crate::numfmt::push_dec_u128_str(&mut m, hits as u128);
        m.append(" (criterion = Sudachi mode-C headword membership)");
        (m, 1)
    }
}


/// Every candidate has two parts or more, is their concatenation, and is not allowed.
pub open spec fn candidates_ok(out: Seq<CompoundV>, allow: Seq<Seq<char>>) -> bool {
    forall|i: int|
        0 <= i < out.len() ==> (#[trigger] out[i]).1.len() >= 2 && out[i].0 == surfaces(out[i].1) && !allow.contains(
            out[i].0,
        )
}

proof fn lemma_flush_ok(out: Seq<CompoundV>, run: Seq<MorphV>, allow: Seq<Seq<char>>)
    requires
        candidates_ok(out, allow),
    ensures
        candidates_ok(flush(out, run, allow), allow),
{
    let r = flush(out, run, allow);
    assert forall|i: int| 0 <= i < r.len() implies (#[trigger] r[i]).1.len() >= 2 && r[i].0 == surfaces(r[i].1)
        && !allow.contains(r[i].0) by {
        if i < out.len() {
            assert(r[i] == out[i]);
        }
    }
}

proof fn lemma_fold_ok(ms: Seq<MorphV>, allow: Seq<Seq<char>>)
    ensures
        candidates_ok(scan_fold(ms, allow).0, allow),
    decreases ms.len(),
{
    if ms.len() > 0 {
        lemma_fold_ok(ms.drop_last(), allow);
        let st = scan_fold(ms.drop_last(), allow);
        lemma_flush_ok(st.0, st.1, allow);
    }
}

/// A candidate compound of a line is never an allowed word, and always joins
/// two parts or more.
pub proof fn lemma_candidates_never_allowed(ms: Seq<MorphV>, allow: Seq<Seq<char>>)
    ensures
        candidates_ok(spec_compounds(ms, allow), allow),
{
    lemma_fold_ok(ms, allow);
    let st = scan_fold(ms, allow);
    lemma_flush_ok(st.0, st.1, allow);
}

/// A compound with a numeral part never fails the strict test.
pub proof fn lemma_numeral_compounds_pass(parts: Seq<MorphV>, suffix: Seq<bool>, k: int)
    requires
        0 <= k < parts.len(),
        parts[k].2 == "数詞"@,
    ensures
        !spec_strict_hit(parts, suffix),
{
}

} // verus!
