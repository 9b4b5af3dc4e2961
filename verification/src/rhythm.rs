// rhythm.rs — monotony of rhythm: sentence lengths (burstiness) and paragraph
// structure (sentences per paragraph). Only running prose is measured:
// sentences closed by 。！？ and not starting on a bullet or quotation line,
// paragraphs that are neither bullet groups nor quotations. Both findings are
// advisory; documents under thirty sentences (six paragraphs) are not measured.
//
// The statistics are kept as exact integer sums, and every threshold is
// decided on them exactly:
//   burstiness (sd - mean) / (sd + mean) < -0.40  <=>  49·(n·Q) < 58·S²
//   2 <= P / m <= 6 and cv < 0.26                 <=>  2m <= P <= 6m and 10000·(m·P2 - P²) < 676·P²
// with n sentences of total length S and squared total Q, and m paragraphs
// of P sentences in all, P2 summed squared.
use vstd::prelude::*;
use crate::wide::wv;

use crate::numfmt::{fixed, push_ratio, ratio_fixed, root_round};
use crate::prose::{
    bullet_start, is_bullet_start, is_terminator, lemma_prose_units_total, lemma_sentences_bound, sent_total,
    sentences_of, sents_view, spec_prose_units, spec_sentences, units_of, units_total, units_view, SentV, UnitV,
};
use crate::report::{all_advisory, lemma_all_advisory_concat, lemma_all_advisory_sorted, push_vio, sort_violations, vios_view, Severity, VioV, Violation};
use crate::text::{chars_of, dec, lines_of, lines_sorted, seqs_of, sort_by_line, lemma_sort_by_line_len, lemma_sort_by_line_multiset, split_lines, trim_start, trimmed_start};

verus! {

// ---------------------------------------------------------------------------
// Sums.

pub open spec fn sum_of(xs: Seq<nat>) -> nat
    decreases xs.len(),
{
    if xs.len() == 0 {
        0
    } else {
        sum_of(xs.drop_last()) + xs.last()
    }
}

pub open spec fn sumsq_of(xs: Seq<nat>) -> nat
    decreases xs.len(),
{
    if xs.len() == 0 {
        0
    } else {
        sumsq_of(xs.drop_last()) + xs.last() * xs.last()
    }
}

/// The squared distances of `xs` from `x`.
pub open spec fn dev_of(xs: Seq<nat>, x: int) -> int
    decreases xs.len(),
{
    if xs.len() == 0 {
        0
    } else {
        dev_of(xs.drop_last(), x) + (xs.last() - x) * (xs.last() - x)
    }
}

proof fn lemma_dev(xs: Seq<nat>, x: int)
    ensures
        dev_of(xs, x) == sumsq_of(xs) - 2 * x * sum_of(xs) + xs.len() * x * x,
        dev_of(xs, x) >= 0,
    decreases xs.len(),
{
    if xs.len() > 0 {
        let ys = xs.drop_last();
        let y = xs.last() as int;
        lemma_dev(ys, x);
        let d0 = dev_of(ys, x);
        let q0 = sumsq_of(ys) as int;
        let s0 = sum_of(ys) as int;
        let n0 = ys.len() as int;
        assert(dev_of(xs, x) == d0 + (y - x) * (y - x));
        assert(sumsq_of(xs) == q0 + y * y);
        assert(sum_of(xs) == s0 + y);
        assert(xs.len() == n0 + 1);
        let d1 = dev_of(xs, x);
        let q1 = sumsq_of(xs) as int;
        let s1 = sum_of(xs) as int;
        let n1 = xs.len() as int;
        assert(d1 == q1 - 2 * x * s1 + n1 * x * x) by (nonlinear_arith)
            requires
                d0 == q0 - 2 * x * s0 + n0 * x * x,
                d1 == d0 + (y - x) * (y - x),
                q1 == q0 + y * y,
                s1 == s0 + y,
                n1 == n0 + 1,
        ;
        assert((y - x) * (y - x) >= 0) by (nonlinear_arith);
    } else {
        let n1 = xs.len() as int;
        let s1 = sum_of(xs) as int;
        assert(n1 * x * x == 0 && 2 * x * s1 == 0) by (nonlinear_arith)
            requires
                n1 == 0,
                s1 == 0,
        ;
    }
}

/// `n · Σx² >= (Σx)²`: a population variance is never negative.
pub proof fn lemma_cauchy(xs: Seq<nat>)
    ensures
        xs.len() * sumsq_of(xs) >= sum_of(xs) * sum_of(xs),
    decreases xs.len(),
{
    if xs.len() > 0 {
        let ys = xs.drop_last();
        let y = xs.last() as int;
        let n = ys.len() as int;
        let s = sum_of(ys) as int;
        let q = sumsq_of(ys) as int;
        lemma_cauchy(ys);
        lemma_dev(ys, y);
        assert((n + 1) * (q + y * y) - (s + y) * (s + y) == (n * q - s * s) + (q - 2 * y * s + n * y * y))
            by (nonlinear_arith);
    }
}

/// `Σx² <= (Σx)²`.
pub proof fn lemma_sumsq_le(xs: Seq<nat>)
    ensures
        sumsq_of(xs) <= sum_of(xs) * sum_of(xs),
    decreases xs.len(),
{
    if xs.len() > 0 {
        let ys = xs.drop_last();
        lemma_sumsq_le(ys);
        let s = sum_of(ys);
        let y = xs.last();
        assert((s + y) * (s + y) == s * s + 2 * s * y + y * y) by (nonlinear_arith);
        assert(2 * s * y >= 0) by (nonlinear_arith);
    }
}

// ---------------------------------------------------------------------------
// The sample of sentences.

/// A line that opens a bullet item or a quotation.
pub open spec fn is_marker_line(l: Seq<char>) -> bool {
    let t = trim_start(l);
    (t.len() > 0 && t[0] == '>') || bullet_start(t)
}

/// The sentence starts on a marker line of `ls` (lines counted from 1).
pub open spec fn on_marker_line(ls: Seq<Seq<char>>, line: int) -> bool {
    1 <= line <= ls.len() && is_marker_line(ls[line - 1])
}

/// The sentence is closed by 。！？.
pub open spec fn is_closed(s: Seq<char>) -> bool {
    s.len() > 0 && is_terminator(s.last())
}

/// The sentences measured: closed, and not starting on a marker line.
pub open spec fn sample_of(ss: Seq<SentV>, ls: Seq<Seq<char>>) -> Seq<SentV>
    decreases ss.len(),
{
    if ss.len() == 0 {
        Seq::empty()
    } else {
        let x = ss.last();
        sample_of(ss.drop_last(), ls) + if !on_marker_line(ls, x.0) && is_closed(x.1) {
            seq![x]
        } else {
            Seq::empty()
        }
    }
}

pub open spec fn spec_sample(text: Seq<char>) -> Seq<SentV> {
    sample_of(spec_sentences(text), lines_of(text))
}

/// The lengths of some sentences.
pub open spec fn lens_of(ss: Seq<SentV>) -> Seq<nat> {
    Seq::new(ss.len(), |i: int| ss[i].1.len())
}

// ---------------------------------------------------------------------------
// The paragraphs.

/// The number of sentence terminators in `s`.
pub open spec fn term_count(s: Seq<char>) -> nat
    decreases s.len(),
{
    if s.len() == 0 {
        0
    } else {
        term_count(s.drop_last()) + if is_terminator(s.last()) {
            1nat
        } else {
            0nat
        }
    }
}

proof fn lemma_term_count_le(s: Seq<char>)
    ensures
        term_count(s) <= s.len(),
    decreases s.len(),
{
    if s.len() > 0 {
        lemma_term_count_le(s.drop_last());
    }
}

/// A paragraph measured: its first line and its number of sentences.
pub type ParaV = (int, nat);

/// The prose paragraphs with at least one sentence (bullet groups and quotations left out).
pub open spec fn paras_of(us: Seq<UnitV>) -> Seq<ParaV>
    decreases us.len(),
{
    if us.len() == 0 {
        Seq::empty()
    } else {
        let u = us.last();
        let t = trim_start(u.1);
        let c = term_count(u.1);
        paras_of(us.drop_last()) + if !u.2 && !(t.len() > 0 && t[0] == '>') && c >= 1 {
            seq![(u.0, c)]
        } else {
            Seq::empty()
        }
    }
}

pub open spec fn spec_paras(text: Seq<char>) -> Seq<ParaV> {
    paras_of(spec_prose_units(text))
}

pub open spec fn counts_of(ps: Seq<ParaV>) -> Seq<nat> {
    Seq::new(ps.len(), |i: int| ps[i].1)
}

// ---------------------------------------------------------------------------
// Statistics.

/// The rhythm statistics of a document, as exact integer sums.
pub struct RhythmStats {
    /// Sentences measured.
    pub sentences: usize,
    /// Their total length in characters.
    pub sum_chars: u128,
    /// The sum of their squared lengths.
    pub sum_sq_chars: u128,
    /// Prose paragraphs measured.
    pub paragraphs: usize,
    /// Their total number of sentences.
    pub para_sentences: u128,
    /// The sum of their squared sentence numbers.
    pub para_sentences_sq: u128,
    /// The line of the first sentence measured (1 if none).
    pub first_sentence_line: usize,
    /// The line of the first paragraph measured (1 if none).
    pub first_paragraph_line: usize,
}

/// The statistics `st` holds are those of the document `text`.
pub open spec fn stats_of(st: RhythmStats, text: Seq<char>) -> bool {
    let ss = spec_sample(text);
    let ps = spec_paras(text);
    &&& st.sentences == ss.len()
    &&& st.sum_chars == sum_of(lens_of(ss))
    &&& st.sum_sq_chars == sumsq_of(lens_of(ss))
    &&& st.first_sentence_line == if ss.len() > 0 {
        ss[0].0
    } else {
        1
    }
    &&& st.paragraphs == ps.len()
    &&& st.para_sentences == sum_of(counts_of(ps))
    &&& st.para_sentences_sq == sumsq_of(counts_of(ps))
    &&& st.first_paragraph_line == if ps.len() > 0 {
        ps[0].0
    } else {
        1
    }
}

proof fn lemma_sample_total(ss: Seq<SentV>, ls: Seq<Seq<char>>)
    ensures
        sum_of(lens_of(sample_of(ss, ls))) <= sent_total(ss),
        sample_of(ss, ls).len() <= sum_of(lens_of(sample_of(ss, ls))),
    decreases ss.len(),
{
    if ss.len() > 0 {
        lemma_sample_total(ss.drop_last(), ls);
        let p = sample_of(ss.drop_last(), ls);
        let x = ss.last();
        if !on_marker_line(ls, x.0) && is_closed(x.1) {
            assert(sample_of(ss, ls) =~= p.push(x));
            assert(lens_of(p.push(x)).drop_last() =~= lens_of(p));
        } else {
            assert(sample_of(ss, ls) =~= p);
        }
    }
}

proof fn lemma_paras_total(us: Seq<UnitV>)
    ensures
        sum_of(counts_of(paras_of(us))) <= units_total(us),
        paras_of(us).len() <= sum_of(counts_of(paras_of(us))),
    decreases us.len(),
{
    if us.len() > 0 {
        lemma_paras_total(us.drop_last());
        lemma_term_count_le(us.last().1);
        let p = paras_of(us.drop_last());
        let u = us.last();
        let t = trim_start(u.1);
        let c = term_count(u.1);
        if !u.2 && !(t.len() > 0 && t[0] == '>') && c >= 1 {
            assert(paras_of(us) =~= p.push((u.0, c)));
            assert(counts_of(p.push((u.0, c))).drop_last() =~= counts_of(p));
        } else {
            assert(paras_of(us) =~= p);
        }
    }
}

fn marker_flags(s: &Vec<char>) -> (r: Vec<bool>)
    ensures
        r.len() == lines_of(s@).len(),
        forall|k: int| 0 <= k < r.len() ==> r@[k] == #[trigger] is_marker_line(lines_of(s@)[k]),
{
    let ls = split_lines(s);
    let ghost g = seqs_of(ls@);
    let mut r: Vec<bool> = Vec::new();
    let mut k: usize = 0;
    while k < ls.len()
        invariant
            k <= ls.len(),
            g == seqs_of(ls@),
            g == lines_of(s@),
            r.len() == k,
            forall|j: int| 0 <= j < k ==> r@[j] == #[trigger] is_marker_line(g[j]),
        decreases ls.len() - k,
    {
        let t = trimmed_start(&ls[k]);
        assert(t@ == trim_start(g[k as int]));
        let m = (t.len() > 0 && t[0] == '>') || is_bullet_start(&t);
        r.push(m);
        k = k + 1;
    }
    r
}

fn count_terms(s: &Vec<char>) -> (r: u128)
    ensures
        r == term_count(s@),
        r <= s.len(),
{
    let mut c: u128 = 0;
    let mut k: usize = 0;
    assert(s@.take(0) =~= Seq::<char>::empty());
    while k < s.len()
        invariant
            k <= s.len(),
            c == term_count(s@.take(k as int)),
            c <= k,
        decreases s.len() - k,
    {
        assert(s@.take(k + 1).drop_last() =~= s@.take(k as int));
        if s[k] == '。' || s[k] == '！' || s[k] == '？' {
            c = c + 1;
        }
        k = k + 1;
    }
    assert(s@.take(s.len() as int) =~= s@);
    c
}

/// The rhythm statistics of a document: the sentence-length sums over the
/// closed sentences not starting on a bullet or quotation line, and the
/// sentence-count sums over the prose paragraphs.
pub fn doc_stats(text: &str) -> (r: RhythmStats)
    requires
        text@.len() < usize::MAX,
    ensures
        stats_of(r, text@),
        r.sum_chars <= text@.len(),
        r.sentences <= r.sum_chars,
        r.para_sentences <= text@.len() + 1,
        r.paragraphs <= r.para_sentences,
{
    let s = chars_of(text);
    let flags = marker_flags(&s);
    let ghost ls = lines_of(text@);
    let all = sentences_of(&s);
    let ghost ga = sents_view(all@);
    proof {
        lemma_sentences_bound(text@);
        lemma_sample_total(ga, ls);
    }
    // The sentence sample.
    let mut n: usize = 0;
    let mut sum: u128 = 0;
    let mut sq: u128 = 0;
    let mut first_s: usize = 1;
    let mut k: usize = 0;
    let ghost mut smp: Seq<SentV> = Seq::empty();
    assert(ga.take(0) =~= Seq::<SentV>::empty());
    while k < all.len()
        invariant
            k <= all.len(),
            ga == sents_view(all@),
            ga == spec_sentences(text@),
            flags.len() == ls.len(),
            forall|j: int| 0 <= j < flags.len() ==> flags@[j] == #[trigger] is_marker_line(ls[j]),
            smp == sample_of(ga.take(k as int), ls),
            n == smp.len(),
            sum == sum_of(lens_of(smp)),
            sq == sumsq_of(lens_of(smp)),
            first_s == if smp.len() > 0 {
                smp[0].0
            } else {
                1
            },
            text@.len() < usize::MAX,
            sent_total(ga) <= text@.len(),
            sent_total(ga.take(k as int)) <= sent_total(ga),
            n <= sum,
            sum <= sent_total(ga.take(k as int)),
            sq <= sum * sum,
        decreases all.len() - k,
    {
        proof {
            assert(ga.take(k + 1).drop_last() =~= ga.take(k as int));
            assert(ga.take(k + 1).last() == ga[k as int]);
            crate::rhetoric::lemma_total_take(ga, k + 1);
        }
        let line = all[k].0;
        let t = &all[k].1;
        let on_marker = line >= 1 && line <= flags.len() && flags[line - 1];
        let closed = t.len() > 0 && (t[t.len() - 1] == '。' || t[t.len() - 1] == '！' || t[t.len() - 1] == '？');
        let ghost x = ga[k as int];
        assert(x == (line as int, t@));
        assert(on_marker == on_marker_line(ls, x.0));
        assert(closed == is_closed(x.1));
        if !on_marker && closed {
            let ghost p = smp;
            let len = t.len() as u128;
            proof {
                smp = smp.push(x);
                assert(lens_of(smp).drop_last() =~= lens_of(p));
                assert(lens_of(smp).last() == len);
                assert(sample_of(ga.take(k + 1), ls) =~= smp);
                lemma_sumsq_le(lens_of(smp));
            }
            assert(sum + len <= text@.len());
            assert(sq + len * len <= 0xffff_ffff_ffff_ffff * 0xffff_ffff_ffff_ffff) by (nonlinear_arith)
                requires
                    sq <= sum * sum,
                    sum + len <= usize::MAX,
                    usize::MAX <= 0xffff_ffff_ffff_ffff,
            ;
            if n == 0 {
                first_s = line;
            }
            n = n + 1;
            sum = sum + len;
            sq = sq + len * len;
            assert(smp[0].0 == first_s);
        } else {
            assert(sample_of(ga.take(k + 1), ls) =~= smp);
        }
        proof {
            assert(sent_total(ga.take(k + 1)) == sent_total(ga.take(k as int)) + x.1.len());
        }
        k = k + 1;
    }
    assert(ga.take(all.len() as int) =~= ga);
    // The paragraphs.
    let us = units_of(&s);
    let ghost gu = units_view(us@);
    proof {
        lemma_prose_units_total(text@);
        lemma_paras_total(gu);
    }
    let mut m: usize = 0;
    let mut p: u128 = 0;
    let mut p2: u128 = 0;
    let mut first_p: usize = 1;
    let ghost mut pp: Seq<ParaV> = Seq::empty();
    let mut j: usize = 0;
    assert(gu.take(0) =~= Seq::<UnitV>::empty());
    while j < us.len()
        invariant
            j <= us.len(),
            gu == units_view(us@),
            gu == spec_prose_units(text@),
            text@.len() < usize::MAX,
            units_total(gu) <= text@.len() + 1,
            pp == paras_of(gu.take(j as int)),
            m == pp.len(),
            p == sum_of(counts_of(pp)),
            p2 == sumsq_of(counts_of(pp)),
            first_p == if pp.len() > 0 {
                pp[0].0
            } else {
                1
            },
            p <= units_total(gu.take(j as int)),
            units_total(gu.take(j as int)) <= units_total(gu),
            p2 <= p * p,
            m <= p,
        decreases us.len() - j,
    {
        proof {
            assert(gu.take(j + 1).drop_last() =~= gu.take(j as int));
            assert(gu.take(j + 1).last() == gu[j as int]);
            lemma_units_total_take(gu, j + 1);
        }
        let u = &us[j];
        let t = trimmed_start(&u.text);
        let c = count_terms(&u.text);
        let ghost x = gu[j as int];
        if !u.is_bullet && !(t.len() > 0 && t[0] == '>') && c >= 1 {
            let ghost q = pp;
            proof {
                pp = pp.push((x.0, c as nat));
                assert(counts_of(pp).drop_last() =~= counts_of(q));
                assert(paras_of(gu.take(j + 1)) =~= pp);
                lemma_sumsq_le(counts_of(pp));
            }
            proof {
                lemma_term_count_le(x.1);
            }
            assert(p + c <= units_total(gu.take(j + 1)));
            assert(p2 + c * c <= 0xffff_ffff_ffff_ffff * 0xffff_ffff_ffff_ffff) by (nonlinear_arith)
                requires
                    p2 <= p * p,
                    p + c <= usize::MAX,
                    usize::MAX <= 0xffff_ffff_ffff_ffff,
            ;
            if m == 0 {
                first_p = u.line;
            }
            m = m + 1;
            p = p + c;
            p2 = p2 + c * c;
        } else {
            assert(paras_of(gu.take(j + 1)) =~= pp);
        }
        j = j + 1;
    }
    assert(gu.take(us.len() as int) =~= gu);
    RhythmStats {
        sentences: n,
        sum_chars: sum,
        sum_sq_chars: sq,
        paragraphs: m,
        para_sentences: p,
        para_sentences_sq: p2,
        first_sentence_line: first_s,
        first_paragraph_line: first_p,
    }
}

proof fn lemma_units_total_take(us: Seq<UnitV>, k: int)
    requires
        0 <= k <= us.len(),
    ensures
        units_total(us.take(k)) <= units_total(us),
    decreases us.len() - k,
{
    if k < us.len() {
        lemma_units_total_take(us, k + 1);
        assert(us.take(k + 1).drop_last() =~= us.take(k));
    } else {
        assert(us.take(k) =~= us);
    }
}


// ---------------------------------------------------------------------------
// The findings.

/// `100·r > j − 1/2` for `r = (S − √D) / (S + √D)`, squared out (`0 <= j <= 100`).
pub open spec fn burst_ok(s2: nat, d: nat, j: int) -> bool {
    s2 * ((201 - 2 * j) * (201 - 2 * j)) > d * ((199 + 2 * j) * (199 + 2 * j))
}

/// The largest `j' <= j` with `burst_ok`, or 0.
pub open spec fn burst_search(s2: nat, d: nat, j: nat) -> nat
    decreases j,
{
    if j == 0 {
        0
    } else if burst_ok(s2, d, j as int) {
        j
    } else {
        burst_search(s2, d, (j - 1) as nat)
    }
}

/// `100·(S − √D) / (S + √D)` rounded to the nearest integer, ties to even:
/// the magnitude, in hundredths, of the burstiness `(sd − mean) / (sd + mean)`
/// when it is not positive (`mean = S/n`, `sd = √D / n`).
pub open spec fn burst_round(s: nat, d: nat) -> nat {
    let j = burst_search(s * s, d, 100);
    if j < 100 && s * s * ((199 - 2 * j) * (199 - 2 * j)) == d * ((201 + 2 * j) * (201 + 2 * j)) && j % 2 == 1 {
        j + 1
    } else {
        j
    }
}

pub open spec fn flat_msg(n: nat, s: nat, d: nat) -> Seq<char> {
    "flat sentence-length rhythm: burstiness=-"@ + fixed(burst_round(s, d), 2) + " (n="@ + dec(n) + ", mean "@
        + ratio_fixed(s, n, 0) + " chars, sd "@ + fixed(root_round(d, n * n, 0), 0)
        + "; calibrated floor -0.4) — machine-even sentence lengths; mix short and long sentences. Route to judge"@
}

pub open spec fn uniform_msg(m: nat, p: nat, dp: nat) -> Seq<char> {
    "uniform paragraph structure: "@ + dec(m) + " paragraphs of ~"@ + ratio_fixed(p, m, 1) + " sentences each (cv="@
        + fixed(root_round(dp, p * p, 2), 2)
        + " < 0.26) — templated paragraphing (e.g. mass-produced 3-sentence paragraphs); merge or split by content. Route to judge"@
}

/// The flat-rhythm finding: thirty sentences or more, burstiness under −0.40.
pub open spec fn flat_finding(text: Seq<char>) -> Seq<VioV> {
    let ss = spec_sample(text);
    let n = ss.len();
    let s = sum_of(lens_of(ss));
    let q = sumsq_of(lens_of(ss));
    if n >= 30 && 49 * (n * q) < 58 * (s * s) {
        seq![(ss[0].0, ("flat-rhythm"@, Severity::Advisory, flat_msg(n, s, (n * q - s * s) as nat)))]
    } else {
        Seq::empty()
    }
}

/// The uniform-paragraphs finding: six paragraphs or more, two to six
/// sentences each on average, coefficient of variation under 0.26.
pub open spec fn uniform_finding(text: Seq<char>) -> Seq<VioV> {
    let ps = spec_paras(text);
    let m = ps.len();
    let p = sum_of(counts_of(ps));
    let p2 = sumsq_of(counts_of(ps));
    if m >= 6 && 2 * m <= p && p <= 6 * m && 10000 * (m * p2 - p * p) < 676 * (p * p) {
        seq![(ps[0].0, ("uniform-paragraphs"@, Severity::Advisory, uniform_msg(m, p, (m * p2 - p * p) as nat)))]
    } else {
        Seq::empty()
    }
}

/// The rhythm findings of a document, stably ordered by line.
pub open spec fn spec_scan(text: Seq<char>) -> Seq<VioV> {
    sort_by_line(flat_finding(text) + uniform_finding(text))
}

fn burst_round_exec(s: u128, d: &Vec<u64>) -> (r: u128)
    requires
        s <= 0xffff_ffff_ffff_ffff,
    ensures
        r == burst_round(s as nat, wv(d@)),
        r <= 100,
{
    assert(s * s <= 0xffff_ffff_ffff_ffff * 0xffff_ffff_ffff_ffff) by (nonlinear_arith)
        requires
            s <= 0xffff_ffff_ffff_ffff,
    ;
    let s2 = s * s;
    let ghost dv = wv(d@);
    let mut j: u128 = 100;
    loop
        invariant
            j <= 100,
            s2 == s * s,
            dv == wv(d@),
            burst_search(s2 as nat, dv, 100) == burst_search(s2 as nat, dv, j as nat),
        ensures
            j <= 100,
            s2 == s * s,
            burst_search(s2 as nat, dv, 100) == j,
        decreases j,
    {
        if j == 0 {
            break;
        }
        let a = 201 - 2 * j;
        let b = 199 + 2 * j;
        assert(a * a <= 201 * 201 && b * b <= 399 * 399) by (nonlinear_arith)
            requires
                a <= 201,
                b <= 399,
        ;
        let lhs = crate::wide::product(s2, a * a);
        let rhs = crate::wide::mul_small(d, (b * b) as u64);
        if crate::wide::lt(&rhs, &lhs) {
            break;
        }
        j = j - 1;
    }
    let k = j;
    if k < 100 {
        let a = 199 - 2 * k;
        let b = 201 + 2 * k;
        assert(a * a <= 199 * 199 && b * b <= 401 * 401) by (nonlinear_arith)
            requires
                a <= 199,
                b <= 401,
        ;
        let lhs = crate::wide::product(s2, a * a);
        let rhs = crate::wide::mul_small(d, (b * b) as u64);
        if crate::wide::eq(&lhs, &rhs) && k % 2 == 1 {
            return k + 1;
        }
    }
    k
}

/// `4·d <= (2s + 1)²·n²` for the sentence statistics (`d = n·q − s²`).
proof fn lemma_sd_bound(n: nat, s: nat, q: nat, d: nat)
    requires
        n >= 1,
        q <= s * s,
        d + s * s == n * q,
    ensures
        4 * (1 * 1) * d <= (2 * s + 1) * (2 * s + 1) * (n * n),
{
    assert(d <= n * (s * s)) by (nonlinear_arith)
        requires
            q <= s * s,
            d + s * s == n * q,
    ;
    assert(4 * (n * (s * s)) <= (2 * s + 1) * (2 * s + 1) * (n * n)) by (nonlinear_arith)
        requires
            n >= 1,
    ;
    assert(4 * d <= 4 * (n * (s * s)));
    assert(4 * (1 * 1) * d == 4 * d);
}

/// `4·10^4·dp <= (200m + 1)²·p²` for the paragraph statistics (`dp = m·p2 − p²`).
proof fn lemma_cv_bound(m: nat, p: nat, p2: nat, dp: nat)
    requires
        p2 <= p * p,
        dp + p * p == m * p2,
    ensures
        4 * (100 * 100) * dp <= (2 * (100 * m) + 1) * (2 * (100 * m) + 1) * (p * p),
{
    assert(dp <= m * (p * p)) by (nonlinear_arith)
        requires
            p2 <= p * p,
            dp + p * p == m * p2,
    ;
    assert(40000 * (m * (p * p)) <= (2 * (100 * m) + 1) * (2 * (100 * m) + 1) * (p * p)) by (nonlinear_arith);
    assert(40000 * dp <= 40000 * (m * (p * p)));
    assert(4 * (100 * 100) * dp == 40000 * dp);
}

/// The rhythm findings of a document: flat-rhythm when thirty or more
/// sentences are measured and their burstiness is under −0.40;
/// uniform-paragraphs when six or more paragraphs of two to six sentences on
/// average vary by a coefficient under 0.26. Stably ordered by line.
pub fn scan(text: &str) -> (r: Vec<Violation>)
    requires
        text@.len() < usize::MAX,
    ensures
        vios_view(r@) == spec_scan(text@),
        lines_sorted(vios_view(r@)),
{
    let st = doc_stats(text);
    let ghost ls = lens_of(spec_sample(text@));
    let ghost lp = counts_of(spec_paras(text@));
    proof {
        lemma_sumsq_le(ls);
        lemma_cauchy(ls);
        lemma_sumsq_le(lp);
        lemma_cauchy(lp);
    }
    let n = st.sentences as u128;
    let s = st.sum_chars;
    let q = st.sum_sq_chars;
    let mut v: Vec<Violation> = Vec::new();
    let nq = crate::wide::product(n, q);
    let sq = crate::wide::product(s, s);
    let l49 = crate::wide::mul_small(&nq, 49);
    let r58 = crate::wide::mul_small(&sq, 58);
    assert(wv(l49@) == 49 * (n * q)) by (nonlinear_arith)
        requires
            wv(l49@) == wv(nq@) * 49,
            wv(nq@) == n * q,
    ;
    assert(wv(r58@) == 58 * (s * s)) by (nonlinear_arith)
        requires
            wv(r58@) == wv(sq@) * 58,
            wv(sq@) == s * s,
    ;
    if n >= 30 && crate::wide::lt(&l49, &r58) {
        assert(s * s <= n * q) by (nonlinear_arith)
            requires
                (s as int) * (s as int) <= (n as int) * (q as int),
        ;
        let d = crate::wide::difference(&nq, &sq);
        let nn = crate::wide::product(n, n);
        assert(n * n > 0) by (nonlinear_arith)
            requires
                n >= 30,
        ;
        proof {
            lemma_sd_bound(n as nat, s as nat, q as nat, wv(d@));
        }
        let mut m = String::new();
        m.append("flat sentence-length rhythm: burstiness=-");
        let j = burst_round_exec(s, &d);
        push_ratio(&mut m, j, 100, 2);
        proof {
            crate::numfmt::lemma_pow10(2);
            reveal_with_fuel(crate::numfmt::pow10, 3);
            let jj = j as nat;
            assert((jj * 100) / 100 == jj && (jj * 100) % 100 == 0) by (nonlinear_arith);
            assert(ratio_fixed(j as nat, 100, 2) == fixed(j as nat, 2));
        }
        m.append(" (n=");
        crate::numfmt::push_dec_u128_str(&mut m, n);
        m.append(", mean ");
        push_ratio(&mut m, s, n, 0);
        m.append(" chars, sd ");
        proof {
            reveal_with_fuel(crate::numfmt::pow10, 1);
        }
        crate::numfmt::push_root_wide(&mut m, &d, &nn, 0, s);
        m.append("; calibrated floor -0.4) — machine-even sentence lengths; mix short and long sentences. Route to judge");
        assert(m@ =~= flat_msg(n as nat, s as nat, (n * q - s * s) as nat));
        push_vio(&mut v, st.first_sentence_line, "flat-rhythm", Severity::Advisory, m);
    }
    assert(vios_view(v@) =~= flat_finding(text@));
    let mp = st.paragraphs as u128;
    let p = st.para_sentences;
    let p2 = st.para_sentences_sq;
    let ghost v1 = vios_view(v@);
    let a = crate::wide::product(mp, p2);
    let pp = crate::wide::product(p, p);
    assert(p * p <= mp * p2) by (nonlinear_arith)
        requires
            (p as int) * (p as int) <= (mp as int) * (p2 as int),
    ;
    let dp = crate::wide::difference(&a, &pp);
    let l = crate::wide::mul_small(&dp, 10000);
    let r = crate::wide::mul_small(&pp, 676);
    assert(wv(l@) == 10000 * (mp * p2 - p * p)) by (nonlinear_arith)
        requires
            wv(l@) == wv(dp@) * 10000,
            wv(dp@) == mp * p2 - p * p,
    ;
    assert(wv(r@) == 676 * (p * p)) by (nonlinear_arith)
        requires
            wv(r@) == wv(pp@) * 676,
            wv(pp@) == p * p,
    ;
    if mp >= 6 && 2 * mp <= p && p <= 6 * mp && crate::wide::lt(&l, &r) {
        assert(p * p > 0) by (nonlinear_arith)
            requires
                p >= 12,
        ;
        proof {
            lemma_cv_bound(mp as nat, p as nat, p2 as nat, wv(dp@));
            crate::numfmt::lemma_pow10(2);
            reveal_with_fuel(crate::numfmt::pow10, 3);
        }
        let mut m = String::new();
        m.append("uniform paragraph structure: ");
        crate::numfmt::push_dec_u128_str(&mut m, mp);
        m.append(" paragraphs of ~");
        push_ratio(&mut m, p, mp, 1);
        m.append(" sentences each (cv=");
        crate::numfmt::push_root_wide(&mut m, &dp, &pp, 2, 100 * mp);
        m.append(" < 0.26) — templated paragraphing (e.g. mass-produced 3-sentence paragraphs); merge or split by content. Route to judge");
        assert(m@ =~= uniform_msg(mp as nat, p as nat, (mp * p2 - p * p) as nat));
        push_vio(&mut v, st.first_paragraph_line, "uniform-paragraphs", Severity::Advisory, m);
    }
    assert(vios_view(v@) =~= v1 + uniform_finding(text@));
    sort_violations(v)
}


/// Every rhythm finding is advisory: rhythm is a style fingerprint.
pub proof fn lemma_all_advisory(text: Seq<char>)
    ensures
        all_advisory(spec_scan(text)),
{
    lemma_all_advisory_concat(flat_finding(text), uniform_finding(text));
    lemma_all_advisory_sorted(flat_finding(text) + uniform_finding(text));
}

/// Under thirty measured sentences there is no flat-rhythm finding, and under
/// six measured paragraphs no uniform-paragraphs finding: a document too short
/// for either is silent.
pub proof fn lemma_short_documents_silent(text: Seq<char>)
    requires
        spec_sample(text).len() < 30,
        spec_paras(text).len() < 6,
    ensures
        spec_scan(text) == Seq::<VioV>::empty(),
{
    assert(flat_finding(text) + uniform_finding(text) =~= Seq::<VioV>::empty());
}


/// Whether some finding of `r` has the rule `rule`.
pub open spec fn has_rule(r: Seq<VioV>, rule: Seq<char>) -> bool {
    exists|i: int| 0 <= i < r.len() && (#[trigger] r[i]).1.0 == rule
}

proof fn lemma_has_rule_perm(a: Seq<VioV>, b: Seq<VioV>, rule: Seq<char>)
    requires
        a.to_multiset() == b.to_multiset(),
    ensures
        has_rule(a, rule) <==> has_rule(b, rule),
{
    if has_rule(a, rule) {
        let i = choose|i: int| 0 <= i < a.len() && (#[trigger] a[i]).1.0 == rule;
        assert(a.contains(a[i]));
        vstd::seq_lib::to_multiset_contains(a, a[i]);
        vstd::seq_lib::to_multiset_contains(b, a[i]);
        let j = choose|j: int| 0 <= j < b.len() && b[j] == a[i];
        assert(b[j].1.0 == rule);
    }
    if has_rule(b, rule) {
        let i = choose|i: int| 0 <= i < b.len() && (#[trigger] b[i]).1.0 == rule;
        assert(b.contains(b[i]));
        vstd::seq_lib::to_multiset_contains(b, b[i]);
        vstd::seq_lib::to_multiset_contains(a, b[i]);
        let j = choose|j: int| 0 <= j < a.len() && a[j] == b[i];
        assert(a[j].1.0 == rule);
    }
}

/// The rhythm law. A document gets at most two rhythm findings, all
/// advisory: a flat-rhythm finding exactly when thirty sentences or more are
/// measured and their burstiness `(sd − mean) / (sd + mean)` is under −0.40
/// (`49·n·Σx² < 58·(Σx)²` over the sentence lengths `x`), and a
/// uniform-paragraphs finding exactly when six paragraphs or more average two
/// to six sentences and the coefficient of variation of their sentence
/// numbers `c` is under 0.26 (`10000·(m·Σc² − (Σc)²) < 676·(Σc)²`).
pub proof fn lemma_rhythm_findings(text: Seq<char>, st: RhythmStats)
    requires
        stats_of(st, text),
    ensures
        spec_scan(text).len() <= 2,
        all_advisory(spec_scan(text)),
        has_rule(spec_scan(text), "flat-rhythm"@) <==> (st.sentences >= 30 && 49 * (st.sentences * st.sum_sq_chars) < 58
            * (st.sum_chars * st.sum_chars)),
        has_rule(spec_scan(text), "uniform-paragraphs"@) <==> (st.paragraphs >= 6 && 2 * st.paragraphs
            <= st.para_sentences && st.para_sentences <= 6 * st.paragraphs && 10000 * (st.paragraphs
            * st.para_sentences_sq - st.para_sentences * st.para_sentences) < 676 * (st.para_sentences
            * st.para_sentences)),
{
    let f = flat_finding(text);
    let u = uniform_finding(text);
    let v = f + u;
    lemma_sort_by_line_len(v);
    lemma_sort_by_line_multiset(v);
    lemma_all_advisory(text);
    lemma_has_rule_perm(spec_scan(text), v, "flat-rhythm"@);
    lemma_has_rule_perm(spec_scan(text), v, "uniform-paragraphs"@);
    reveal_strlit("flat-rhythm");
    reveal_strlit("uniform-paragraphs");
    assert("flat-rhythm"@[0] != "uniform-paragraphs"@[0]);
    assert("flat-rhythm"@ != "uniform-paragraphs"@);
    if has_rule(v, "flat-rhythm"@) {
        let i = choose|i: int| 0 <= i < v.len() && (#[trigger] v[i]).1.0 == "flat-rhythm"@;
        if i >= f.len() {
            assert(v[i] == u[i - f.len()]);
        }
    }
    if f.len() > 0 {
        assert(v[0] == f[0]);
        assert(has_rule(v, "flat-rhythm"@));
    }
    if has_rule(v, "uniform-paragraphs"@) {
        let i = choose|i: int| 0 <= i < v.len() && (#[trigger] v[i]).1.0 == "uniform-paragraphs"@;
        if i < f.len() {
            assert(v[i] == f[i]);
        }
    }
    if u.len() > 0 {
        assert(v[f.len() as int] == u[0]);
        assert(has_rule(v, "uniform-paragraphs"@));
    }
}

} // verus!
