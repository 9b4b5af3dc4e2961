// calque.rs — an English verb spliced onto a Japanese verb ending
// (「deployする」「inspireされた」): a calque candidate for the judge.
use vstd::prelude::*;

use crate::prose::{spec_strip_fences, strip_fences_chars};
use crate::text::{
    alt_len, alt_len_exec, alt_len_from, chars_of, drop_code, drop_code_exec, lemma_alt_len, lemma_alt_len_from_iff, lemma_seqs_of_push, lines_of, occurs_at, seqs_of,
    slice_of, split_lines, string_of,
};

verus! {

/// A verb calque.
pub struct Finding {
    pub line: usize,
    /// The spliced verb and its ending.
    pub word: String,
    pub msg: String,
}

/// A finding's model: line, word, message.
pub type FindV = (int, Seq<char>, Seq<char>);

pub open spec fn find_view(f: Finding) -> FindV {
    (f.line as int, f.word@, f.msg@)
}

pub open spec fn finds_view(v: Seq<Finding>) -> Seq<FindV> {
    Seq::new(v.len(), |i: int| find_view(v[i]))
}

/// The verb endings a latin verb is spliced onto, in the order they are tried.
pub open spec fn joint_alts() -> Seq<Seq<char>> {
    seq![seq!['す', 'る'], seq!['し', 'ま', 'す'], seq!['し', 'た'], seq!['し', 'て'], seq!['し', 'て', 'い', 'る'], seq!['し', 'て', 'い', 'た'], seq!['し', 'て', 'い', 'ま', 'す'], seq!['し', 'て', 'お', 'り'], seq!['さ', 'れ', 'る'], seq!['さ', 'れ', 'た'], seq!['さ', 'れ', 'て'], seq!['さ', 'れ', 'な', 'い'], seq!['さ', 'れ', 'ま', 'し', 'た'], seq!['で', 'き', 'る'], seq!['で', 'き', 'た'], seq!['で', 'き', 'な', 'い'], seq!['し', 'な', 'い'], seq!['し', 'な', 'か', 'っ', 'た'], seq!['せ', 'ず'], seq!['し', 'よ', 'う'], seq!['す', 'れ', 'ば'], seq!['す', 'べ', 'き'], seq!['し', 'ろ'], seq!['せ', 'よ'], seq!['さ', 'せ', 'る'], seq!['さ', 'せ', 'ま', 'す'], seq!['さ', 'せ', 'た'], seq!['さ', 'せ', 'て'], seq!['さ', 'せ', 'て', 'い', 'る'], seq!['さ', 'せ', 'た', 'い'], seq!['さ', 'せ', 'な', 'い'], seq!['さ', 'せ', 'ず'], seq!['さ', 'せ', 'よ', 'う'], seq!['し', 'た', 'い'], seq!['し', 'た', 'く'], seq!['し', 'た', 'け', 'れ', 'ば']]
}

fn joint_alts_vec() -> (v: Vec<Vec<char>>)
    ensures
        seqs_of(v@) == joint_alts(),
{
    let mut v: Vec<Vec<char>> = Vec::new();
    let w0 = vec!['す', 'る'];
    assert(w0@ =~= seq!['す', 'る']);
    proof {
        lemma_seqs_of_push(v@, w0);
    }
    v.push(w0);
    let w1 = vec!['し', 'ま', 'す'];
    assert(w1@ =~= seq!['し', 'ま', 'す']);
    proof {
        lemma_seqs_of_push(v@, w1);
    }
    v.push(w1);
    let w2 = vec!['し', 'た'];
    assert(w2@ =~= seq!['し', 'た']);
    proof {
        lemma_seqs_of_push(v@, w2);
    }
    v.push(w2);
    let w3 = vec!['し', 'て'];
    assert(w3@ =~= seq!['し', 'て']);
    proof {
        lemma_seqs_of_push(v@, w3);
    }
    v.push(w3);
    let w4 = vec!['し', 'て', 'い', 'る'];
    assert(w4@ =~= seq!['し', 'て', 'い', 'る']);
    proof {
        lemma_seqs_of_push(v@, w4);
    }
    v.push(w4);
    let w5 = vec!['し', 'て', 'い', 'た'];
    assert(w5@ =~= seq!['し', 'て', 'い', 'た']);
    proof {
        lemma_seqs_of_push(v@, w5);
    }
    v.push(w5);
    let w6 = vec!['し', 'て', 'い', 'ま', 'す'];
    assert(w6@ =~= seq!['し', 'て', 'い', 'ま', 'す']);
    proof {
        lemma_seqs_of_push(v@, w6);
    }
    v.push(w6);
    let w7 = vec!['し', 'て', 'お', 'り'];
    assert(w7@ =~= seq!['し', 'て', 'お', 'り']);
    proof {
        lemma_seqs_of_push(v@, w7);
    }
    v.push(w7);
    let w8 = vec!['さ', 'れ', 'る'];
    assert(w8@ =~= seq!['さ', 'れ', 'る']);
    proof {
        lemma_seqs_of_push(v@, w8);
    }
    v.push(w8);
    let w9 = vec!['さ', 'れ', 'た'];
    assert(w9@ =~= seq!['さ', 'れ', 'た']);
    proof {
        lemma_seqs_of_push(v@, w9);
    }
    v.push(w9);
    let w10 = vec!['さ', 'れ', 'て'];
    assert(w10@ =~= seq!['さ', 'れ', 'て']);
    proof {
        lemma_seqs_of_push(v@, w10);
    }
    v.push(w10);
    let w11 = vec!['さ', 'れ', 'な', 'い'];
    assert(w11@ =~= seq!['さ', 'れ', 'な', 'い']);
    proof {
        lemma_seqs_of_push(v@, w11);
    }
    v.push(w11);
    let w12 = vec!['さ', 'れ', 'ま', 'し', 'た'];
    assert(w12@ =~= seq!['さ', 'れ', 'ま', 'し', 'た']);
    proof {
        lemma_seqs_of_push(v@, w12);
    }
    v.push(w12);
    let w13 = vec!['で', 'き', 'る'];
    assert(w13@ =~= seq!['で', 'き', 'る']);
    proof {
        lemma_seqs_of_push(v@, w13);
    }
    v.push(w13);
    let w14 = vec!['で', 'き', 'た'];
    assert(w14@ =~= seq!['で', 'き', 'た']);
    proof {
        lemma_seqs_of_push(v@, w14);
    }
    v.push(w14);
    let w15 = vec!['で', 'き', 'な', 'い'];
    assert(w15@ =~= seq!['で', 'き', 'な', 'い']);
    proof {
        lemma_seqs_of_push(v@, w15);
    }
    v.push(w15);
    let w16 = vec!['し', 'な', 'い'];
    assert(w16@ =~= seq!['し', 'な', 'い']);
    proof {
        lemma_seqs_of_push(v@, w16);
    }
    v.push(w16);
    let w17 = vec!['し', 'な', 'か', 'っ', 'た'];
    assert(w17@ =~= seq!['し', 'な', 'か', 'っ', 'た']);
    proof {
        lemma_seqs_of_push(v@, w17);
    }
    v.push(w17);
    let w18 = vec!['せ', 'ず'];
    assert(w18@ =~= seq!['せ', 'ず']);
    proof {
        lemma_seqs_of_push(v@, w18);
    }
    v.push(w18);
    let w19 = vec!['し', 'よ', 'う'];
    assert(w19@ =~= seq!['し', 'よ', 'う']);
    proof {
        lemma_seqs_of_push(v@, w19);
    }
    v.push(w19);
    let w20 = vec!['す', 'れ', 'ば'];
    assert(w20@ =~= seq!['す', 'れ', 'ば']);
    proof {
        lemma_seqs_of_push(v@, w20);
    }
    v.push(w20);
    let w21 = vec!['す', 'べ', 'き'];
    assert(w21@ =~= seq!['す', 'べ', 'き']);
    proof {
        lemma_seqs_of_push(v@, w21);
    }
    v.push(w21);
    let w22 = vec!['し', 'ろ'];
    assert(w22@ =~= seq!['し', 'ろ']);
    proof {
        lemma_seqs_of_push(v@, w22);
    }
    v.push(w22);
    let w23 = vec!['せ', 'よ'];
    assert(w23@ =~= seq!['せ', 'よ']);
    proof {
        lemma_seqs_of_push(v@, w23);
    }
    v.push(w23);
    let w24 = vec!['さ', 'せ', 'る'];
    assert(w24@ =~= seq!['さ', 'せ', 'る']);
    proof {
        lemma_seqs_of_push(v@, w24);
    }
    v.push(w24);
    let w25 = vec!['さ', 'せ', 'ま', 'す'];
    assert(w25@ =~= seq!['さ', 'せ', 'ま', 'す']);
    proof {
        lemma_seqs_of_push(v@, w25);
    }
    v.push(w25);
    let w26 = vec!['さ', 'せ', 'た'];
    assert(w26@ =~= seq!['さ', 'せ', 'た']);
    proof {
        lemma_seqs_of_push(v@, w26);
    }
    v.push(w26);
    let w27 = vec!['さ', 'せ', 'て'];
    assert(w27@ =~= seq!['さ', 'せ', 'て']);
    proof {
        lemma_seqs_of_push(v@, w27);
    }
    v.push(w27);
    let w28 = vec!['さ', 'せ', 'て', 'い', 'る'];
    assert(w28@ =~= seq!['さ', 'せ', 'て', 'い', 'る']);
    proof {
        lemma_seqs_of_push(v@, w28);
    }
    v.push(w28);
    let w29 = vec!['さ', 'せ', 'た', 'い'];
    assert(w29@ =~= seq!['さ', 'せ', 'た', 'い']);
    proof {
        lemma_seqs_of_push(v@, w29);
    }
    v.push(w29);
    let w30 = vec!['さ', 'せ', 'な', 'い'];
    assert(w30@ =~= seq!['さ', 'せ', 'な', 'い']);
    proof {
        lemma_seqs_of_push(v@, w30);
    }
    v.push(w30);
    let w31 = vec!['さ', 'せ', 'ず'];
    assert(w31@ =~= seq!['さ', 'せ', 'ず']);
    proof {
        lemma_seqs_of_push(v@, w31);
    }
    v.push(w31);
    let w32 = vec!['さ', 'せ', 'よ', 'う'];
    assert(w32@ =~= seq!['さ', 'せ', 'よ', 'う']);
    proof {
        lemma_seqs_of_push(v@, w32);
    }
    v.push(w32);
    let w33 = vec!['し', 'た', 'い'];
    assert(w33@ =~= seq!['し', 'た', 'い']);
    proof {
        lemma_seqs_of_push(v@, w33);
    }
    v.push(w33);
    let w34 = vec!['し', 'た', 'く'];
    assert(w34@ =~= seq!['し', 'た', 'く']);
    proof {
        lemma_seqs_of_push(v@, w34);
    }
    v.push(w34);
    let w35 = vec!['し', 'た', 'け', 'れ', 'ば'];
    assert(w35@ =~= seq!['し', 'た', 'け', 'れ', 'ば']);
    proof {
        lemma_seqs_of_push(v@, w35);
    }
    v.push(w35);
    assert(seqs_of(v@) =~= joint_alts());
    v
}

pub open spec fn is_lower(c: char) -> bool {
    'a' <= c <= 'z'
}

pub open spec fn is_letter(c: char) -> bool {
    ('a' <= c <= 'z') || ('A' <= c <= 'Z')
}

pub open spec fn is_verb_char(c: char) -> bool {
    is_letter(c) || c == '-'
}

pub open spec fn run_verb(s: Seq<char>, j: int) -> int
    decreases s.len() - j,
{
    if 0 <= j < s.len() && is_verb_char(s[j]) {
        run_verb(s, j + 1)
    } else {
        j
    }
}

pub open spec fn run_spaces(s: Seq<char>, j: int) -> int
    decreases s.len() - j,
{
    if 0 <= j < s.len() && s[j] == ' ' {
        run_spaces(s, j + 1)
    } else {
        j
    }
}

pub proof fn lemma_runs(s: Seq<char>, j: int)
    requires
        0 <= j <= s.len(),
    ensures
        j <= run_verb(s, j) <= s.len(),
        j <= run_spaces(s, j) <= s.len(),
    decreases s.len() - j,
{
    if j < s.len() {
        lemma_runs(s, j + 1);
    }
}

/// A latin verb (a lowercase letter, then one or more letters or hyphens),
/// spaces, and a verb ending, starting at `q`: the verb's end, the ending's
/// start and its end.
pub open spec fn verb_at(s: Seq<char>, q: int) -> Option<(int, int, int)> {
    if 0 <= q && q + 1 < s.len() && is_lower(s[q]) && is_verb_char(s[q + 1]) {
        let w = run_verb(s, q + 1);
        let e = run_spaces(s, w);
        let l = alt_len(s, e, joint_alts());
        if l > 0 {
            Some((w, e, e + l))
        } else {
            None
        }
    } else {
        None
    }
}

/// A match at `p`: at the very start, or after a non-letter; the verb's start,
/// then `verb_at`.
pub open spec fn calque_at(s: Seq<char>, p: int) -> Option<(int, int, int, int)> {
    if p == 0 && verb_at(s, 0) is Some {
        let v = verb_at(s, 0)->0;
        Some((0, v.0, v.1, v.2))
    } else if 0 <= p < s.len() && !is_letter(s[p]) && verb_at(s, p + 1) is Some {
        let v = verb_at(s, p + 1)->0;
        Some((p + 1, v.0, v.1, v.2))
    } else {
        None
    }
}

pub open spec fn calque_msg(verb: Seq<char>, joint: Seq<char>) -> Seq<char> {
    "「"@ + verb + joint + "」 — english verb spliced onto 「"@ + (if joint.len() >= 2 && joint[0] == 'さ' && joint[1]
        == 'れ' {
        "される"@
    } else {
        "する"@
    }) + "」 (calque candidate) — write the Japanese verb, or add to allow if judge rules it established"@
}

/// The calques of `s[i..]`, leftmost first, without overlap.
pub open spec fn calques_from(s: Seq<char>, i: int, line: int) -> Seq<FindV>
    decreases s.len() - i,
{
    if i < 0 || i >= s.len() {
        Seq::empty()
    } else {
        match calque_at(s, i) {
            Some((q, w, e, f)) => {
                proof {
                    lemma_calque_at(s, i);
                }
                seq![(line, s.subrange(q, w) + s.subrange(e, f), calque_msg(s.subrange(q, w), s.subrange(e, f)))]
                    + calques_from(s, f, line)
            },
            None => calques_from(s, i + 1, line),
        }
    }
}

pub proof fn lemma_calque_at(s: Seq<char>, p: int)
    requires
        calque_at(s, p) is Some,
    ensures
        calque_at(s, p) matches Some((q, w, e, f)) && 0 <= p < f <= s.len() && 0 <= q < w <= e < f,
{
    let q = match calque_at(s, p) {
        Some((q, _, _, _)) => q,
        None => 0,
    };
    lemma_runs(s, q + 1);
    let w = run_verb(s, q + 1);
    lemma_runs(s, w);
    let e = run_spaces(s, w);
    lemma_alt_len(s, e, joint_alts(), 0);
}

pub open spec fn lines_calques(ls: Seq<Seq<char>>, k: int) -> Seq<FindV>
    decreases k,
{
    if k <= 0 || k > ls.len() {
        Seq::empty()
    } else {
        lines_calques(ls, k - 1) + calques_from(drop_code(ls[k - 1]), 0, k)
    }
}

/// Every verb calque in the prose (outside fences and inline code) of a document.
pub open spec fn spec_scan(text: Seq<char>) -> Seq<FindV> {
    let ls = lines_of(spec_strip_fences(text));
    lines_calques(ls, ls.len() as int)
}

fn run_verb_exec(s: &Vec<char>, j: usize) -> (e: usize)
    requires
        j <= s.len(),
    ensures
        e == run_verb(s@, j as int),
{
    let mut e = j;
    while e < s.len() && (('a' <= s[e] && s[e] <= 'z') || ('A' <= s[e] && s[e] <= 'Z') || s[e] == '-')
        invariant
            j <= e <= s.len(),
            run_verb(s@, j as int) == run_verb(s@, e as int),
        decreases s.len() - e,
    {
        e = e + 1;
    }
    e
}

fn run_spaces_exec(s: &Vec<char>, j: usize) -> (e: usize)
    requires
        j <= s.len(),
    ensures
        e == run_spaces(s@, j as int),
{
    let mut e = j;
    while e < s.len() && s[e] == ' '
        invariant
            j <= e <= s.len(),
            run_spaces(s@, j as int) == run_spaces(s@, e as int),
        decreases s.len() - e,
    {
        e = e + 1;
    }
    e
}

fn verb_at_exec(s: &Vec<char>, q: usize, ja: &Vec<Vec<char>>) -> (r: Option<(usize, usize, usize)>)
    requires
        seqs_of(ja@) == joint_alts(),
    ensures
        match r {
            Some((w, e, f)) => verb_at(s@, q as int) == Some((w as int, e as int, f as int)),
            None => verb_at(s@, q as int) is None,
        },
{
    if q < s.len() && s.len() - q >= 2 && 'a' <= s[q] && s[q] <= 'z' && (('a' <= s[q + 1] && s[q + 1] <= 'z') || (
    'A' <= s[q + 1] && s[q + 1] <= 'Z') || s[q + 1] == '-') {
        proof {
            lemma_runs(s@, q + 1);
        }
        let w = run_verb_exec(s, q + 1);
        proof {
            lemma_runs(s@, w as int);
        }
        let e = run_spaces_exec(s, w);
        let l = alt_len_exec(s, e, ja);
        if l > 0 {
            Some((w, e, e + l))
        } else {
            None
        }
    } else {
        None
    }
}

fn scan_line(s: &Vec<char>, line: usize, ja: &Vec<Vec<char>>, out: &mut Vec<Finding>)
    requires
        seqs_of(ja@) == joint_alts(),
    ensures
        finds_view(final(out)@) == finds_view(old(out)@) + calques_from(s@, 0, line as int),
{
    let ghost v0 = finds_view(out@);
    let mut i: usize = 0;
    while i < s.len()
        invariant
            i <= s.len(),
            seqs_of(ja@) == joint_alts(),
            v0 + calques_from(s@, 0, line as int) == finds_view(out@) + calques_from(s@, i as int, line as int),
        decreases s.len() - i,
    {
        let mut hit: Option<(usize, usize, usize, usize)> = None;
        if i == 0 {
            match verb_at_exec(s, 0, ja) {
                Some((w, e, f)) => {
                    hit = Some((0, w, e, f));
                },
                None => {},
            }
        }
        if hit.is_none() && !(('a' <= s[i] && s[i] <= 'z') || ('A' <= s[i] && s[i] <= 'Z')) && i + 1 <= s.len() {
            match verb_at_exec(s, i + 1, ja) {
                Some((w, e, f)) => {
                    hit = Some((i + 1, w, e, f));
                },
                None => {},
            }
        }
        match hit {
            Some((q, w, e, f)) => {
                proof {
                    lemma_calque_at(s@, i as int);
                }
                assert(calque_at(s@, i as int) == Some((q as int, w as int, e as int, f as int)));
                let verb = slice_of(s, q, w);
                let joint = slice_of(s, e, f);
                let vs = string_of(&verb);
                let js = string_of(&joint);
                let mut word = String::new();
                word.append(vs.as_str());
                word.append(js.as_str());
                let mut m = String::new();
                m.append("「");
                m.append(vs.as_str());
                m.append(js.as_str());
                m.append("」 — english verb spliced onto 「");
                if joint.len() >= 2 && joint[0] == 'さ' && joint[1] == 'れ' {
                    m.append("される");
                } else {
                    m.append("する");
                }
                m.append("」 (calque candidate) — write the Japanese verb, or add to allow if judge rules it established");
                let ghost o0 = finds_view(out@);
                out.push(Finding { line, word, msg: m });
                assert(finds_view(out@) =~= o0.push((line as int, verb@ + joint@, calque_msg(verb@, joint@))));
                assert(o0 + calques_from(s@, i as int, line as int) =~= finds_view(out@) + calques_from(
                    s@,
                    f as int,
                    line as int,
                ));
                i = f;
            },
            None => {
                assert(calque_at(s@, i as int) is None);
                i = i + 1;
            },
        }
    }
    assert(finds_view(out@) + calques_from(s@, i as int, line as int) =~= finds_view(out@));
}

/// Every English verb spliced onto a Japanese verb ending in the prose
/// (outside fences and inline code) of a document.
pub fn scan(text: &str) -> (r: Vec<Finding>)
    ensures
        finds_view(r@) == spec_scan(text@),
{
    let s = chars_of(text);
    let d = strip_fences_chars(&s);
    let ls = split_lines(&d);
    let ghost g = seqs_of(ls@);
    let ja = joint_alts_vec();
    let mut out: Vec<Finding> = Vec::new();
    let mut i: usize = 0;
    assert(finds_view(out@) =~= Seq::<FindV>::empty());
    while i < ls.len()
        invariant
            i <= ls.len(),
            g == seqs_of(ls@),
            g == lines_of(spec_strip_fences(text@)),
            seqs_of(ja@) == joint_alts(),
            finds_view(out@) == lines_calques(g, i as int),
        decreases ls.len() - i,
    {
        let clean = drop_code_exec(&ls[i]);
        scan_line(&clean, i + 1, &ja, &mut out);
        i = i + 1;
    }
    out
}


/// One line of the calque report: `<label>L<line>: [calque/verb-calque] <message>`.
pub open spec fn spec_report_line(label: Seq<char>, f: FindV) -> Seq<char> {
    label + "L"@ + crate::text::dec(f.0 as nat) + ": [calque/verb-calque] "@ + f.2
}

/// One line of the calque report.
pub fn report_line(label: &str, f: &Finding) -> (r: String)
    ensures
        r@ == spec_report_line(label@, find_view(*f)),
{
    let mut s = String::new();
    s.append(label);
    s.append("L");
    crate::numfmt::push_dec_u128_str(&mut s, f.line as u128);
    s.append(": [calque/verb-calque] ");
    s.append(f.msg.as_str());
    s
}

/// The verdict of the calque command: passes with no splice; with splices,
/// candidates (status 0) under `advisory`, a failure (status 1) otherwise.
pub open spec fn spec_verdict(n: nat, advisory: bool) -> (Seq<char>, int) {
    if n == 0 {
        ("CALQUE PASS: no english-verb + する/される splices"@, 0)
    } else if advisory {
        ("CALQUE CANDIDATES: "@ + crate::text::dec(n) + " (advisory)"@, 0)
    } else {
        ("CALQUE FAIL: "@ + crate::text::dec(n), 1)
    }
}

/// The headline and exit status of the calque command.
pub fn verdict(n: usize, advisory: bool) -> (r: (String, i32))
    ensures
        (r.0@, r.1 as int) == spec_verdict(n as nat, advisory),
{
    let mut m = String::new();
    if n == 0 {
        m.append("CALQUE PASS: no english-verb + する/される splices");
        (m, 0)
    } else if advisory {
        m.append("CALQUE CANDIDATES: ");
        crate::numfmt::push_dec_u128_str(&mut m, n as u128);
        m.append(" (advisory)");
        (m, 0)
    } else {
        m.append("CALQUE FAIL: ");
        crate::numfmt::push_dec_u128_str(&mut m, n as u128);
        (m, 1)
    }
}

// ---------------------------------------------------------------------------
// The law of the verb endings.

/// The verb endings that make a calque: する します した して している していた
/// しています しており される された されて されない されました できる できた
/// できない しない しなかった せず しよう すれば すべき しろ せよ させる させます
/// させた させて させている させたい させない させず させよう したい したく したければ.
pub open spec fn calque_endings() -> Seq<Seq<char>> {
    seq![
        seq!['す', 'る'], seq!['し', 'ま', 'す'], seq!['し', 'た'], seq!['し', 'て'], seq!['し', 'て', 'い', 'る'],
        seq!['し', 'て', 'い', 'た'], seq!['し', 'て', 'い', 'ま', 'す'], seq!['し', 'て', 'お', 'り'],
        seq!['さ', 'れ', 'る'], seq!['さ', 'れ', 'た'], seq!['さ', 'れ', 'て'], seq!['さ', 'れ', 'な', 'い'],
        seq!['さ', 'れ', 'ま', 'し', 'た'], seq!['で', 'き', 'る'], seq!['で', 'き', 'た'], seq!['で', 'き', 'な', 'い'],
        seq!['し', 'な', 'い'], seq!['し', 'な', 'か', 'っ', 'た'], seq!['せ', 'ず'], seq!['し', 'よ', 'う'],
        seq!['す', 'れ', 'ば'], seq!['す', 'べ', 'き'], seq!['し', 'ろ'], seq!['せ', 'よ'], seq!['さ', 'せ', 'る'],
        seq!['さ', 'せ', 'ま', 'す'], seq!['さ', 'せ', 'た'], seq!['さ', 'せ', 'て'], seq!['さ', 'せ', 'て', 'い', 'る'],
        seq!['さ', 'せ', 'た', 'い'], seq!['さ', 'せ', 'な', 'い'], seq!['さ', 'せ', 'ず'], seq!['さ', 'せ', 'よ', 'う'],
        seq!['し', 'た', 'い'], seq!['し', 'た', 'く'], seq!['し', 'た', 'け', 'れ', 'ば'],
    ]
}

/// The verb-ending law: after a latin verb (a lowercase letter, then letters
/// or hyphens) and any spaces, a calque is found exactly when one of the
/// endings する, します, …, したければ follows, and the ending taken is one of
/// them, standing there.
pub proof fn lemma_calque_endings_law(s: Seq<char>, q: int)
    requires
        0 <= q,
        q + 1 < s.len(),
        is_lower(s[q]),
        is_verb_char(s[q + 1]),
    ensures
        ({
            let e = run_spaces(s, run_verb(s, q + 1));
            &&& verb_at(s, q) is Some <==> exists|i: int|
                0 <= i < calque_endings().len() && #[trigger] occurs_at(s, calque_endings()[i], e)
            &&& verb_at(s, q) matches Some((w, e2, f)) ==> e2 == e && exists|i: int|
                0 <= i < calque_endings().len() && s.subrange(e, f) == #[trigger] calque_endings()[i]
        }),
{
    let e = run_spaces(s, run_verb(s, q + 1));
    let ja = joint_alts();
    let ce = calque_endings();
    assert(ce =~= ja);
    assert forall|i: int| 0 <= i < ce.len() implies #[trigger] ce[i].len() > 0 by {
        assert(ce[i].len() >= 2);
    }
    lemma_alt_len_from_iff(s, e, ja, 0);
    lemma_alt_len_first(s, e, ja, 0);
    if verb_at(s, q) is Some {
        let j = choose|j: int| 0 <= j < ja.len() && ja[j].len() > 0 && #[trigger] occurs_at(s, ja[j], e);
        assert(occurs_at(s, ce[j], e));
    }
    if exists|i: int| 0 <= i < ce.len() && #[trigger] occurs_at(s, ce[i], e) {
        let i = choose|i: int| 0 <= i < ce.len() && #[trigger] occurs_at(s, ce[i], e);
        assert(ja[i].len() > 0 && occurs_at(s, ja[i], e));
    }
}

/// The first alternative of `alts[k..]` occurring at `p` is one of them, standing there.
proof fn lemma_alt_len_first(s: Seq<char>, p: int, alts: Seq<Seq<char>>, k: int)
    requires
        0 <= k,
    ensures
        alt_len_from(s, p, alts, k) > 0 ==> exists|j: int|
            k <= j < alts.len() && alts[j].len() == alt_len_from(s, p, alts, k) && #[trigger] occurs_at(s, alts[j], p),
    decreases alts.len() - k,
{
    if k < alts.len() && !(alts[k].len() > 0 && occurs_at(s, alts[k], p)) {
        lemma_alt_len_first(s, p, alts, k + 1);
        if alt_len_from(s, p, alts, k + 1) > 0 {
            let j = choose|j: int|
                k + 1 <= j < alts.len() && alts[j].len() == alt_len_from(s, p, alts, k + 1) && #[trigger] occurs_at(
                    s,
                    alts[j],
                    p,
                );
            assert(k <= j);
        }
    } else if k < alts.len() {
        assert(occurs_at(s, alts[k], p));
    }
}

proof fn lemma_lines_calques_has(ls: Seq<Seq<char>>, n: int, k: int, x: FindV)
    requires
        0 <= k < n <= ls.len(),
        calques_from(drop_code(ls[k]), 0, k + 1).contains(x),
    ensures
        lines_calques(ls, n).contains(x),
    decreases n,
{
    let prev = lines_calques(ls, n - 1);
    let cur = calques_from(drop_code(ls[n - 1]), 0, n);
    if k < n - 1 {
        lemma_lines_calques_has(ls, n - 1, k, x);
        let i = choose|i: int| 0 <= i < prev.len() && prev[i] == x;
        assert((prev + cur)[i] == x);
    } else {
        let i = choose|i: int| 0 <= i < cur.len() && cur[i] == x;
        assert((prev + cur)[prev.len() + i] == x);
    }
}

/// A calque that opens a line of the prose (inline code dropped) is
/// reported on that line, its word the verb and the ending it takes.
pub proof fn lemma_leading_calque_reported(text: Seq<char>, k: int)
    requires
        0 <= k < lines_of(spec_strip_fences(text)).len(),
        verb_at(drop_code(lines_of(spec_strip_fences(text))[k]), 0) is Some,
    ensures
        ({
            let s = drop_code(lines_of(spec_strip_fences(text))[k]);
            let v = verb_at(s, 0)->0;
            spec_scan(text).contains(
                (k + 1, s.subrange(0, v.0) + s.subrange(v.1, v.2), calque_msg(s.subrange(0, v.0), s.subrange(v.1, v.2))),
            )
        }),
{
    let ls = lines_of(spec_strip_fences(text));
    let s = drop_code(ls[k]);
    let v = verb_at(s, 0)->0;
    let x = (k + 1, s.subrange(0, v.0) + s.subrange(v.1, v.2), calque_msg(s.subrange(0, v.0), s.subrange(v.1, v.2)));
    assert(s.len() > 0);
    assert(calque_at(s, 0) == Some((0int, v.0, v.1, v.2)));
    assert(calques_from(s, 0, k + 1)[0] == x);
    lemma_lines_calques_has(ls, ls.len() as int, k, x);
}

} // verus!
