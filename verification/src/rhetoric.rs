// rhetoric.rs — rhetorical density in documents of thirty sentences or more:
// the composite of 「ではなく」 contrasts, —— dashes and glossed headings (two
// of the three over their calibrated rates), and the density of decorative
// metaphors from a lexicon. A style fingerprint, not a defect: advisory.
use vstd::prelude::*;
use crate::wide::wv;

use crate::text::strings_view;

use crate::deny::{parse_vocabulary, pairs_view};
use crate::kinoshita::{count_exec, count_from};
use crate::double::{f_lt, f_lt_exec, fdiv, fdiv_exec, fmt_fixed, nearest_exec, of_int, push_fmt_fixed, rate100, rate100_exec, F64V};
use crate::prose::{sentences_of, sents_view, spec_sentences, spec_strip_fences, strip_fences_chars, SentV};
use crate::report::{all_advisory, lemma_all_advisory_concat, lemma_all_advisory_sorted, push_vio, sort_violations, vios_view, Severity, VioV, Violation};
use crate::text::{
    chars_of, contains, contains_word, dec, find, find_from, has, join_with, lemma_find_from, lines_of, lines_sorted, occurs_at,
    push_dec_str, push_joined, push_vec_str, seqs_of, slice_of, sort_by_line, split_lines, string_of, trim_start,
    trimmed_start,
};

verus! {

/// The sentences that are not quotations (`>`).
pub open spec fn unquoted(ss: Seq<SentV>) -> Seq<SentV>
    decreases ss.len(),
{
    if ss.len() == 0 {
        Seq::empty()
    } else {
        let t = trim_start(ss.last().1);
        unquoted(ss.drop_last()) + if t.len() > 0 && t[0] == '>' {
            Seq::empty()
        } else {
            seq![ss.last()]
        }
    }
}

pub open spec fn contrast_word() -> Seq<char> {
    seq!['で', 'は', 'な', 'く']
}

pub open spec fn dash_word() -> Seq<char> {
    seq!['—', '—']
}

/// The lines of the sentences with 「ではなく」.
pub open spec fn contrast_lines(ss: Seq<SentV>) -> Seq<int>
    decreases ss.len(),
{
    if ss.len() == 0 {
        Seq::empty()
    } else {
        contrast_lines(ss.drop_last()) + if contains(ss.last().1, contrast_word()) {
            seq![ss.last().0]
        } else {
            Seq::empty()
        }
    }
}

/// The number of —— over the sentences.
pub open spec fn dash_count(ss: Seq<SentV>) -> nat
    decreases ss.len(),
{
    if ss.len() == 0 {
        0
    } else {
        dash_count(ss.drop_last()) + count_from(ss.last().1, dash_word(), 0)
    }
}

/// The end of the run of `#` from `j`.
pub open spec fn run_hash(s: Seq<char>, j: int) -> int
    decreases s.len() - j,
{
    if 0 <= j < s.len() && s[j] == '#' {
        run_hash(s, j + 1)
    } else {
        j
    }
}

pub proof fn lemma_run_hash(s: Seq<char>, j: int)
    requires
        0 <= j <= s.len(),
    ensures
        j <= run_hash(s, j) <= s.len(),
    decreases s.len() - j,
{
    if j < s.len() {
        lemma_run_hash(s, j + 1);
    }
}

/// A level-2-or-deeper heading: two or more `#` and a space.
pub open spec fn is_heading(l: Seq<char>) -> bool {
    let h = run_hash(l, 0);
    h >= 2 && h < l.len() && l[h] == ' '
}

pub open spec fn gloss_sep() -> Seq<char> {
    seq![' ', '—', ' ']
}

/// A heading with a gloss: ` — ` somewhere after its first word character.
pub open spec fn is_glossed(l: Seq<char>) -> bool {
    is_heading(l) && find_from(l, gloss_sep(), run_hash(l, 0) + 2) is Some
}

/// The numbers of headings and of glossed headings among the first `k` lines.
pub open spec fn heading_counts(ls: Seq<Seq<char>>, k: int) -> (nat, nat)
    decreases k,
{
    if k <= 0 || k > ls.len() {
        (0, 0)
    } else {
        let c = heading_counts(ls, k - 1);
        if is_heading(ls[k - 1]) {
            (c.0 + 1, c.1 + if is_glossed(ls[k - 1]) {
                1nat
            } else {
                0nat
            })
        } else {
            c
        }
    }
}

pub open spec fn composite_msg(hits: nat, n: nat, dashes: nat, hg: nat, ht: nat) -> Seq<char> {
    "stylometric uniformity: 「ではなく」 in "@ + dec(hits) + " sentences ("@ + fmt_fixed(rate100(hits, n), 1)
        + "/100, calibrated cap 4), —— ×"@ + dec(dashes) + " ("@ + fmt_fixed(rate100(dashes, n), 1)
        + "/100), glossed headings "@ + dec(hg) + "/"@ + dec(ht)
        + " — each device is legitimate alone; the uniform overuse is the signature. Route to judge"@
}

/// The double nearest 0.8: `7205759403792794 · 2^-53`.
pub open spec fn gloss_cap() -> F64V {
    (7205759403792794, -53)
}

/// The stylometric-uniformity finding, when two of the three indicators fire:
/// six contrasts or more at 4 per 100 sentences or more, five dashes or more at
/// 4 per 100 or more, six headings or more of which a share of 0.8 or more is
/// glossed (rates and shares computed in binary64, as `f64` computes them).
pub open spec fn composite(text: Seq<char>, ss: Seq<SentV>) -> Seq<VioV> {
    let n = ss.len();
    let cl = contrast_lines(ss);
    let hits = cl.len();
    let contrast_fire = hits >= 6 && !f_lt(rate100(hits, n), (4, 0));
    let dashes = dash_count(ss);
    let dash_fire = dashes >= 5 && !f_lt(rate100(dashes, n), (4, 0));
    let ls = lines_of(spec_strip_fences(text));
    let hc = heading_counts(ls, ls.len() as int);
    let gloss_fire = hc.0 >= 6 && !f_lt(fdiv(of_int(hc.1), of_int(hc.0)), gloss_cap());
    let fired = (if contrast_fire { 1int } else { 0int }) + (if dash_fire { 1int } else { 0int }) + (if gloss_fire {
        1int
    } else {
        0int
    });
    if fired >= 2 {
        seq![
            (if hits > 0 { cl[0] } else { 1 }, ("stylometric-uniformity"@, Severity::Advisory, composite_msg(
                hits,
                n,
                dashes,
                hc.1,
                hc.0,
            ))),
        ]
    } else {
        Seq::empty()
    }
}

/// `s[i..]` without its 「…」 quotations (mentions are not uses).
pub open spec fn drop_mentions(s: Seq<char>, i: int) -> Seq<char>
    decreases s.len() - i,
{
    if i < 0 || i >= s.len() {
        Seq::empty()
    } else if s[i] == '「' && find_from(s, seq!['」'], i + 1) is Some {
        let q = find_from(s, seq!['」'], i + 1)->0;
        proof {
            lemma_find_from(s, seq!['」'], i + 1);
        }
        drop_mentions(s, q + 1)
    } else {
        seq![s[i]] + drop_mentions(s, i + 1)
    }
}

/// The number of matches of `stem` (`str::matches`; an empty stem matches at every boundary).
pub open spec fn stem_count(s: Seq<char>, stem: Seq<char>) -> nat {
    if stem.len() == 0 {
        s.len() + 1
    } else {
        count_from(s, stem, 0)
    }
}

/// The uses of `stem` over the sentences and the first line using it (0 if none).
pub open spec fn stem_uses(ss: Seq<SentV>, stem: Seq<char>) -> (nat, int)
    decreases ss.len(),
{
    if ss.len() == 0 {
        (0, 0)
    } else {
        let prev = stem_uses(ss.drop_last(), stem);
        let k = stem_count(ss.last().1, stem);
        (prev.0 + k, if k > 0 && prev.1 == 0 {
            ss.last().0
        } else {
            prev.1
        })
    }
}

/// A lexicon entry in use: stem, count, first line, hint.
pub type UseV = (Seq<char>, nat, int, Seq<char>);

/// The entries of `lex[..k]` that occur and are not exempt.
pub open spec fn uses_of(ss: Seq<SentV>, exempt: Seq<Seq<char>>, lex: Seq<(Seq<char>, Seq<char>)>, k: int) -> Seq<UseV>
    decreases k,
{
    if k <= 0 || k > lex.len() {
        Seq::empty()
    } else {
        let e = lex[k - 1];
        let u = stem_uses(ss, e.0);
        uses_of(ss, exempt, lex, k - 1) + if !exempt.contains(e.0) && u.0 > 0 {
            seq![(e.0, u.0, u.1, e.1)]
        } else {
            Seq::empty()
        }
    }
}

pub open spec fn total_uses(us: Seq<UseV>) -> nat
    decreases us.len(),
{
    if us.len() == 0 {
        0
    } else {
        total_uses(us.drop_last()) + us.last().1
    }
}

/// The first index holding a smaller count than `c`, or the length.
pub open spec fn first_smaller(v: Seq<UseV>, c: nat, k: int) -> int
    decreases v.len() - k,
{
    if k < 0 || k >= v.len() {
        v.len() as int
    } else if v[k].1 < c {
        k
    } else {
        first_smaller(v, c, k + 1)
    }
}

/// Stably sorted by decreasing count.
pub open spec fn sort_desc(v: Seq<UseV>) -> Seq<UseV>
    decreases v.len(),
{
    if v.len() == 0 {
        Seq::empty()
    } else {
        let s = sort_desc(v.drop_last());
        s.insert(first_smaller(s, v.last().1, 0), v.last())
    }
}

pub open spec fn min_line(us: Seq<UseV>) -> int
    decreases us.len(),
{
    if us.len() == 0 {
        1
    } else if us.len() == 1 {
        us[0].2
    } else {
        let m = min_line(us.drop_last());
        if us.last().2 < m {
            us.last().2
        } else {
            m
        }
    }
}

pub open spec fn vocab_items(us: Seq<UseV>) -> Seq<Seq<char>>
    decreases us.len(),
{
    if us.len() == 0 {
        Seq::empty()
    } else {
        vocab_items(us.drop_last()).push(us.last().0 + "×"@ + dec(us.last().1))
    }
}

pub open spec fn top_hint(us: Seq<UseV>) -> Seq<char> {
    if us.len() > 0 && us[0].3.len() > 0 {
        "; top fix: "@ + us[0].0 + " → "@ + us[0].3
    } else {
        Seq::empty()
    }
}

pub open spec fn metaphor_msg(total: nat, n: nat, sorted: Seq<UseV>) -> Seq<char> {
    "decorative metaphors ×"@ + dec(total) + " ("@ + fmt_fixed(rate100(total, n), 1) + "/100 sentences): "@
        + join_with(vocab_items(sorted), "・"@)
        + " — replace with plain terms, or add to allow if a deliberate central metaphor (judge decides)"@ + top_hint(
        sorted,
    )
}

/// The sentences with their 「…」 mentions removed.
pub open spec fn without_mentions(ss: Seq<SentV>) -> Seq<SentV> {
    Seq::new(ss.len(), |i: int| (ss[i].0, drop_mentions(ss[i].1, 0)))
}

/// The metaphor-density finding: three uses or more, at least 2 per 100
/// sentences (the rate computed in binary64).
pub open spec fn metaphor(ss: Seq<SentV>, exempt: Seq<Seq<char>>, lex: Seq<(Seq<char>, Seq<char>)>) -> Seq<VioV> {
    let us = uses_of(without_mentions(ss), exempt, lex, lex.len() as int);
    let total = total_uses(us);
    if total >= 3 && !f_lt(rate100(total, ss.len()), (2, 0)) {
        let sorted = sort_desc(us);
        seq![(min_line(sorted), ("metaphor-density"@, Severity::Advisory, metaphor_msg(total, ss.len(), sorted)))]
    } else {
        Seq::empty()
    }
}

/// The rhetorical findings of a document, stably ordered by line; none under thirty sentences.
pub open spec fn spec_scan(text: Seq<char>, exempt: Seq<Seq<char>>, lex: Seq<(Seq<char>, Seq<char>)>) -> Seq<VioV> {
    let ss = unquoted(spec_sentences(text));
    if ss.len() < 30 {
        Seq::empty()
    } else {
        sort_by_line(composite(text, ss) + metaphor(ss, exempt, lex))
    }
}

/// The lexicon written in a TSV text (`load_lexicon` without the file read):
/// `stem<TAB>hint` per line, or a bare stem; blank and `#` lines skipped; order kept.
pub open spec fn lex_lines(ls: Seq<Seq<char>>, k: int) -> Seq<(Seq<char>, Seq<char>)>
    decreases k,
{
    if k <= 0 || k > ls.len() {
        Seq::empty()
    } else {
        lex_lines(ls, k - 1) + match crate::deny::vocab_line(ls[k - 1]) {
            Some(e) => seq![e],
            None => Seq::empty(),
        }
    }
}

pub open spec fn spec_lexicon(text: Seq<char>) -> Seq<(Seq<char>, Seq<char>)> {
    let ls = lines_of(text);
    lex_lines(ls, ls.len() as int)
}

/// The metaphor lexicon of a TSV text.
pub fn parse_lexicon(text: &str) -> (r: Vec<(String, String)>)
    ensures
        pairs_view(r@) == spec_lexicon(text@),
{
    let s = chars_of(text);
    let ls = split_lines(&s);
    let ghost g = seqs_of(ls@);
    let tab = vec!['\t'];
    assert(tab@ =~= seq!['\t']);
    let mut out: Vec<(String, String)> = Vec::new();
    let mut i: usize = 0;
    assert(pairs_view(out@) =~= Seq::<(Seq<char>, Seq<char>)>::empty());
    while i < ls.len()
        invariant
            i <= ls.len(),
            g == seqs_of(ls@),
            g == lines_of(text@),
            tab@ == seq!['\t'],
            pairs_view(out@) == lex_lines(g, i as int),
        decreases ls.len() - i,
    {
        let t = crate::text::trimmed(&ls[i]);
        let ghost o0 = pairs_view(out@);
        if t.len() > 0 && t[0] != '#' {
            proof {
                lemma_find_from(t@, seq!['\t'], 0);
            }
            let (w, h) = match find(&t, &tab, 0) {
                Some(p) => {
                    let a = slice_of(&t, 0, p);
                    let b = slice_of(&t, p + 1, t.len());
                    (crate::text::trimmed(&a), crate::text::trimmed(&b))
                },
                None => {
                    let e: Vec<char> = Vec::new();
                    assert(e@ =~= Seq::<char>::empty());
                    (slice_of(&t, 0, t.len()), e)
                },
            };
            assert(t@.subrange(0, t.len() as int) =~= t@);
            out.push((string_of(&w), string_of(&h)));
            assert(pairs_view(out@) =~= o0 + seq![(w@, h@)]);
        } else {
            assert(pairs_view(out@) =~= o0 + Seq::<(Seq<char>, Seq<char>)>::empty());
        }
        i = i + 1;
    }
    out
}

pub open spec fn sv(v: Seq<(usize, Vec<char>)>) -> Seq<SentV> {
    sents_view(v)
}

pub proof fn lemma_total_take(ss: Seq<SentV>, k: int)
    requires
        0 <= k <= ss.len(),
    ensures
        crate::prose::sent_total(ss.take(k)) <= crate::prose::sent_total(ss),
    decreases ss.len() - k,
{
    if k < ss.len() {
        lemma_total_take(ss, k + 1);
        assert(ss.take(k + 1).drop_last() =~= ss.take(k));
    } else {
        assert(ss.take(k) =~= ss);
    }
}

proof fn lemma_unquoted_total(ss: Seq<SentV>)
    ensures
        crate::prose::sent_total(unquoted(ss)) <= crate::prose::sent_total(ss),
        unquoted(ss).len() <= ss.len(),
        forall|k: int| 0 <= k < unquoted(ss).len() ==> exists|j: int| 0 <= j < ss.len() && #[trigger] unquoted(ss)[k] == ss[j],
    decreases ss.len(),
{
    if ss.len() > 0 {
        lemma_unquoted_total(ss.drop_last());
        let u = unquoted(ss.drop_last());
        let t = trim_start(ss.last().1);
        if !(t.len() > 0 && t[0] == '>') {
            assert(u.push(ss.last()).drop_last() =~= u);
            assert(unquoted(ss) =~= u.push(ss.last()));
            assert forall|k: int| 0 <= k < unquoted(ss).len() implies exists|j: int| 0 <= j < ss.len() && #[trigger] unquoted(ss)[k] == ss[j] by {
                if k < u.len() {
                    let j = choose|j: int| 0 <= j < ss.drop_last().len() && u[k] == ss.drop_last()[j];
                    assert(ss[j] == ss.drop_last()[j]);
                } else {
                    assert(unquoted(ss)[k] == ss[ss.len() - 1]);
                }
            }
        } else {
            assert(unquoted(ss) =~= u + Seq::<SentV>::empty());
            assert forall|k: int| 0 <= k < unquoted(ss).len() implies exists|j: int| 0 <= j < ss.len() && #[trigger] unquoted(ss)[k] == ss[j] by {
                let j = choose|j: int| 0 <= j < ss.drop_last().len() && u[k] == ss.drop_last()[j];
                assert(ss[j] == ss.drop_last()[j]);
            }
        }
    }
}

fn unquoted_exec(v: Vec<(usize, Vec<char>)>) -> (r: Vec<(usize, Vec<char>)>)
    ensures
        sv(r@) == unquoted(sv(v@)),
{
    let ghost g = sv(v@);
    let mut out: Vec<(usize, Vec<char>)> = Vec::new();
    let mut src = v;
    let ghost mut k: int = 0;
    assert(g.take(0) =~= Seq::<SentV>::empty());
    assert(sv(out@) =~= unquoted(g.take(0)));
    assert(sv(src@) =~= g.subrange(0, g.len() as int));
    while src.len() > 0
        invariant
            0 <= k <= g.len(),
            src.len() == g.len() - k,
            sv(src@) == g.subrange(k, g.len() as int),
            sv(out@) == unquoted(g.take(k)),
        decreases src.len(),
    {
        let ghost s0 = src@;
        let x = src.remove(0);
        assert((x.0 as int, x.1@) == g[k]) by {
            assert(sv(s0)[0] == (s0[0].0 as int, s0[0].1@));
        }
        assert(sv(src@) =~= g.subrange(k + 1, g.len() as int)) by {
            assert(src@ =~= s0.remove(0));
            assert forall|i: int| 0 <= i < src@.len() implies #[trigger] sv(src@)[i] == g[k + 1 + i] by {
                assert(src@[i] == s0[i + 1]);
                assert(sv(s0)[i + 1] == g.subrange(k, g.len() as int)[i + 1]);
            }
        }
        proof {
            assert(g.take(k + 1).drop_last() =~= g.take(k));
            assert(g.take(k + 1).last() == g[k]);
        }
        let t = trimmed_start(&x.1);
        let ghost o0 = sv(out@);
        if !(t.len() > 0 && t[0] == '>') {
            out.push(x);
            assert(sv(out@) =~= o0.push(g[k]));
        } else {
            assert(sv(out@) =~= o0 + Seq::<SentV>::empty());
        }
        proof {
            k = k + 1;
        }
    }
    assert(g.take(k) =~= g);
    out
}

fn heading_counts_exec(text: &Vec<char>) -> (r: (u64, u64))
    ensures
        ({
            let ls = lines_of(spec_strip_fences(text@));
            (r.0 as nat, r.1 as nat) == heading_counts(ls, ls.len() as int)
        }),
{
    let d = strip_fences_chars(text);
    let ls = split_lines(&d);
    let ghost g = seqs_of(ls@);
    let sep = vec![' ', '—', ' '];
    assert(sep@ =~= gloss_sep());
    let mut ht: u64 = 0;
    let mut hg: u64 = 0;
    let mut i: usize = 0;
    while i < ls.len()
        invariant
            i <= ls.len(),
            g == seqs_of(ls@),
            g == lines_of(spec_strip_fences(text@)),
            sep@ == gloss_sep(),
            ht <= i,
            hg <= i,
            (ht as nat, hg as nat) == heading_counts(g, i as int),
        decreases ls.len() - i,
    {
        let l = &ls[i];
        let mut h: usize = 0;
        while h < l.len() && l[h] == '#'
            invariant
                h <= l.len(),
                run_hash(l@, 0) == run_hash(l@, h as int),
            decreases l.len() - h,
        {
            h = h + 1;
        }
        if h >= 2 && h < l.len() && l[h] == ' ' {
            ht = ht + 1;
            proof {
                lemma_find_from(l@, gloss_sep(), h + 2);
            }
            if l.len() - h >= 2 && find(l, &sep, h + 2).is_some() {
                hg = hg + 1;
            }
        }
        i = i + 1;
    }
    (ht, hg)
}

fn drop_mentions_exec(s: &Vec<char>) -> (r: Vec<char>)
    ensures
        r@ == drop_mentions(s@, 0),
        r.len() <= s.len(),
{
    let close = vec!['」'];
    assert(close@ =~= seq!['」']);
    let mut out: Vec<char> = Vec::new();
    let mut i: usize = 0;
    while i < s.len()
        invariant
            i <= s.len(),
            out.len() <= i,
            close@ == seq!['」'],
            drop_mentions(s@, 0) == out@ + drop_mentions(s@, i as int),
        decreases s.len() - i,
    {
        proof {
            lemma_find_from(s@, seq!['」'], i + 1);
        }
        if s[i] == '「' {
            match find(s, &close, i + 1) {
                Some(q) => {
                    i = q + 1;
                    continue;
                },
                None => {},
            }
        }
        let ghost before = out@;
        out.push(s[i]);
        assert(out@ + drop_mentions(s@, i + 1) =~= before + drop_mentions(s@, i as int));
        i = i + 1;
    }
    assert(out@ + drop_mentions(s@, i as int) =~= out@);
    out
}

pub open spec fn uses_view(v: Seq<(Vec<char>, u128, usize, Vec<char>)>) -> Seq<UseV> {
    Seq::new(v.len(), |i: int| (v[i].0@, v[i].1 as nat, v[i].2 as int, v[i].3@))
}

fn stem_uses_exec(cleaned: &Vec<(usize, Vec<char>)>, stem: &Vec<char>) -> (r: (u128, usize))
    ensures
        (r.0 as nat, r.1 as int) == stem_uses(sv(cleaned@), stem@),
        r.0 <= cleaned.len() * 0x1_0000_0000_0000_0000,
        r.0 <= crate::prose::sent_total(sv(cleaned@)) + cleaned.len(),
{
    let ghost g = sv(cleaned@);
    let mut c: u128 = 0;
    let mut first: usize = 0;
    let mut k: usize = 0;
    assert(g.take(0) =~= Seq::<SentV>::empty());
    while k < cleaned.len()
        invariant
            k <= cleaned.len(),
            g == sv(cleaned@),
            c <= k * 0x1_0000_0000_0000_0000,
            c <= crate::prose::sent_total(g.take(k as int)) + k,
            (c as nat, first as int) == stem_uses(g.take(k as int), stem@),
        decreases cleaned.len() - k,
    {
        proof {
            assert(g.take(k + 1).drop_last() =~= g.take(k as int));
            assert(g.take(k + 1).last() == g[k as int]);
        }
        let t = &cleaned[k].1;
        let n: u128 = if stem.len() == 0 {
            t.len() as u128 + 1
        } else {
            count_exec(t, stem) as u128
        };
        assert(n == stem_count(t@, stem@));
        assert(n <= t.len() + 1);
        assert(crate::prose::sent_total(g.take(k + 1)) == crate::prose::sent_total(g.take(k as int)) + t.len());
        assert(n <= 0x1_0000_0000_0000_0000);
        assert(c + n <= (k + 1) * 0x1_0000_0000_0000_0000) by (nonlinear_arith)
            requires
                c <= k * 0x1_0000_0000_0000_0000,
                n <= 0x1_0000_0000_0000_0000,
        ;
        assert((k + 1) * 0x1_0000_0000_0000_0000 <= 0x1_0000_0000_0000_0000 * 0x1_0000_0000_0000_0000) by (nonlinear_arith)
            requires
                k < cleaned.len(),
                cleaned.len() <= usize::MAX,
                usize::MAX <= 0xffff_ffff_ffff_ffff,
        ;
        if n > 0 && first == 0 {
            first = cleaned[k].0;
        }
        c = c + n;
        k = k + 1;
    }
    assert(g.take(cleaned.len() as int) =~= g);
    (c, first)
}

fn sort_desc_exec(v: Vec<(Vec<char>, u128, usize, Vec<char>)>) -> (r: Vec<(Vec<char>, u128, usize, Vec<char>)>)
    ensures
        uses_view(r@) == sort_desc(uses_view(v@)),
        r.len() == v.len(),
{
    let ghost orig = uses_view(v@);
    let mut src = v;
    let mut out: Vec<(Vec<char>, u128, usize, Vec<char>)> = Vec::new();
    let ghost mut k: int = 0;
    assert(orig.take(0) =~= Seq::<UseV>::empty());
    assert(uses_view(out@) =~= Seq::<UseV>::empty());
    assert(uses_view(src@) =~= orig.subrange(0, orig.len() as int));
    while src.len() > 0
        invariant
            0 <= k <= orig.len(),
            src.len() == orig.len() - k,
            out.len() == k,
            uses_view(src@) == orig.subrange(k, orig.len() as int),
            uses_view(out@) == sort_desc(orig.take(k)),
        decreases src.len(),
    {
        let ghost s0 = src@;
        let ghost o0 = out@;
        let x = src.remove(0);
        assert(uses_view(s0)[0] == (x.0@, x.1 as nat, x.2 as int, x.3@));
        assert(uses_view(src@) =~= orig.subrange(k + 1, orig.len() as int)) by {
            assert(src@ =~= s0.remove(0));
            assert forall|i: int| 0 <= i < src@.len() implies #[trigger] uses_view(src@)[i] == orig[k + 1 + i] by {
                assert(src@[i] == s0[i + 1]);
                assert(uses_view(s0)[i + 1] == orig.subrange(k, orig.len() as int)[i + 1]);
            }
        }
        let mut pos: usize = 0;
        while pos < out.len() && out[pos].1 >= x.1
            invariant
                pos <= out.len(),
                first_smaller(uses_view(out@), x.1 as nat, 0) == first_smaller(uses_view(out@), x.1 as nat, pos as int),
            decreases out.len() - pos,
        {
            pos = pos + 1;
        }
        let ghost xv = (x.0@, x.1 as nat, x.2 as int, x.3@);
        out.insert(pos, x);
        proof {
            assert(uses_view(out@) =~= uses_view(o0).insert(pos as int, xv));
            assert(orig.take(k + 1).drop_last() =~= orig.take(k));
            assert(orig.take(k + 1).last() == xv);
            k = k + 1;
        }
    }
    assert(orig.take(k) =~= orig);
    out
}

fn min_line_exec(v: &Vec<(Vec<char>, u128, usize, Vec<char>)>) -> (r: usize)
    requires
        v.len() > 0,
    ensures
        r as int == min_line(uses_view(v@)),
{
    let ghost g = uses_view(v@);
    let mut m = v[0].2;
    let mut k: usize = 1;
    assert(g.take(1).len() == 1);
    assert(min_line(g.take(1)) == g[0].2);
    while k < v.len()
        invariant
            1 <= k <= v.len(),
            g == uses_view(v@),
            m as int == min_line(g.take(k as int)),
        decreases v.len() - k,
    {
        proof {
            assert(g.take(k + 1).drop_last() =~= g.take(k as int));
        }
        if v[k].2 < m {
            m = v[k].2;
        }
        k = k + 1;
    }
    assert(g.take(v.len() as int) =~= g);
    m
}

fn push_vocab(m: &mut String, v: &Vec<(Vec<char>, u128, usize, Vec<char>)>)
    ensures
        final(m)@ == old(m)@ + join_with(vocab_items(uses_view(v@)), "・"@),
{
    let ghost g = uses_view(v@);
    let mut items: Vec<Vec<char>> = Vec::new();
    let mut k: usize = 0;
    assert(g.take(0) =~= Seq::<UseV>::empty());
    assert(seqs_of(items@) =~= vocab_items(g.take(0)));
    while k < v.len()
        invariant
            k <= v.len(),
            g == uses_view(v@),
            seqs_of(items@) == vocab_items(g.take(k as int)),
        decreases v.len() - k,
    {
        proof {
            assert(g.take(k + 1).drop_last() =~= g.take(k as int));
        }
        let mut w = slice_of(&v[k].0, 0, v[k].0.len());
        assert(w@ =~= v@[k as int].0@);
        w.push('×');
        crate::numfmt::push_dec_u128(&mut w, v[k].1 as u128);
        assert(w@ =~= v@[k as int].0@ + "×"@ + dec(v@[k as int].1 as nat)) by {
            reveal_strlit("×");
        }
        proof {
            crate::text::lemma_seqs_of_push(items@, w);
        }
        items.push(w);
        k = k + 1;
    }
    assert(g.take(v.len() as int) =~= g);
    push_joined(m, &items, "・");
}

/// Whether the glossed share `hg as f64 / ht as f64` is at least 0.8.
fn gloss_ok(hg: u64, ht: u64) -> (r: bool)
    requires
        ht >= 1,
    ensures
        r == !f_lt(fdiv(of_int(hg as nat), of_int(ht as nat)), gloss_cap()),
{
    let td = nearest_exec(ht as u128, 1);
    let gd = nearest_exec(hg as u128, 1);
    proof {
        crate::density::lemma_int_double_bounds(ht as nat, td);
        crate::density::lemma_int_double_bounds(hg as nat, gd);
        crate::density::lemma_products_fit(gd, td);
    }
    let q = fdiv_exec(gd, td);
    !f_lt_exec(q, (7205759403792794, -53))
}

fn composite_exec(s: &Vec<char>, ss: &Vec<(usize, Vec<char>)>, v: &mut Vec<Violation>)
    requires
        ss.len() > 0,
        crate::prose::sent_total(sv(ss@)) <= usize::MAX,
    ensures
        vios_view(final(v)@) == vios_view(old(v)@) + composite(s@, sv(ss@)),
{
    let ghost g = sv(ss@);
    let n = ss.len();
    let cw = vec!['で', 'は', 'な', 'く'];
    assert(cw@ =~= contrast_word());
    let dw = vec!['—', '—'];
    assert(dw@ =~= dash_word());
    let mut hits: u64 = 0;
    let mut first_hit: usize = 1;
    let mut dashes: u64 = 0;
    let mut k: usize = 0;
    assert(g.take(0) =~= Seq::<SentV>::empty());
    while k < n
        invariant
            k <= n == ss.len(),
            g == sv(ss@),
            cw@ == contrast_word(),
            dw@ == dash_word(),
            hits as nat == contrast_lines(g.take(k as int)).len(),
            hits > 0 ==> first_hit as int == contrast_lines(g.take(k as int))[0],
            hits <= k,
            dashes as nat == dash_count(g.take(k as int)),
            dashes <= crate::prose::sent_total(g.take(k as int)),
            crate::prose::sent_total(g) <= usize::MAX,
        decreases n - k,
    {
        proof {
            assert(g.take(k + 1).drop_last() =~= g.take(k as int));
            assert(g.take(k + 1).last() == g[k as int]);
            lemma_total_take(g, k + 1);
        }
        let t = &ss[k].1;
        let ghost cl0 = contrast_lines(g.take(k as int));
        if has(t, &cw) {
            if hits == 0 {
                first_hit = ss[k].0;
            }
            hits = hits + 1;
            assert(contrast_lines(g.take(k + 1)) =~= cl0.push(g[k as int].0));
        } else {
            assert(contrast_lines(g.take(k + 1)) =~= cl0);
        }
        let dc = count_exec(t, &dw);
        dashes = dashes + dc as u64;
        k = k + 1;
    }
    assert(g.take(n as int) =~= g);
    let (ht, hg) = heading_counts_exec(s);
    let hw = crate::wide::from_u128(hits as u128);
    let rc = rate100_exec(&hw, n);
    let dw2 = crate::wide::from_u128(dashes as u128);
    let rd = rate100_exec(&dw2, n);
    let contrast_fire = hits >= 6 && !f_lt_exec(rc, (4, 0));
    let dash_fire = dashes >= 5 && !f_lt_exec(rd, (4, 0));
    let gloss_fire = ht >= 6 && gloss_ok(hg, ht);
    let fired = (if contrast_fire { 1u32 } else { 0u32 }) + (if dash_fire { 1u32 } else { 0u32 }) + (if gloss_fire {
        1u32
    } else {
        0u32
    });
    if fired >= 2 {
        let mut m = String::new();
        m.append("stylometric uniformity: 「ではなく」 in ");
        crate::numfmt::push_dec_u128_str(&mut m, hits as u128);
        m.append(" sentences (");
        push_fmt_fixed(&mut m, rc, 1);
        m.append("/100, calibrated cap 4), —— ×");
        crate::numfmt::push_dec_u128_str(&mut m, dashes as u128);
        m.append(" (");
        push_fmt_fixed(&mut m, rd, 1);
        m.append("/100), glossed headings ");
        crate::numfmt::push_dec_u128_str(&mut m, hg as u128);
        m.append("/");
        crate::numfmt::push_dec_u128_str(&mut m, ht as u128);
        m.append(" — each device is legitimate alone; the uniform overuse is the signature. Route to judge");
        let line = if hits > 0 {
            first_hit
        } else {
            1
        };
        push_vio(v, line, "stylometric-uniformity", Severity::Advisory, m);
    } else {
        assert(vios_view(v@) =~= vios_view(v@) + Seq::<VioV>::empty());
    }
}

fn metaphor_exec(
    ss: &Vec<(usize, Vec<char>)>,
    exempt: &Vec<String>,
    lex: &Vec<(String, String)>,
    v: &mut Vec<Violation>,
)
    requires
        ss.len() > 0,
        crate::prose::sent_total(sv(ss@)) <= usize::MAX,
    ensures
        vios_view(final(v)@) == vios_view(old(v)@) + metaphor(sv(ss@), strings_view(exempt@), pairs_view(lex@)),
{
    let n = ss.len();
    let ghost g = sv(ss@);
    let mut cleaned: Vec<(usize, Vec<char>)> = Vec::new();
    let mut k: usize = 0;
    while k < n
        invariant
            k <= n == ss.len(),
            cleaned.len() == k,
            g == sv(ss@),
            crate::prose::sent_total(sv(cleaned@)) <= crate::prose::sent_total(g.take(k as int)),
            forall|q: int| 0 <= q < k ==> (#[trigger] cleaned@[q]).0 == ss@[q].0 && cleaned@[q].1@ == drop_mentions(
                ss@[q].1@,
                0,
            ),
        decreases n - k,
    {
        let d = drop_mentions_exec(&ss[k].1);
        let ghost c0 = sv(cleaned@);
        cleaned.push((ss[k].0, d));
        proof {
            assert(sv(cleaned@).drop_last() =~= c0);
            assert(g.take(k + 1).drop_last() =~= g.take(k as int));
        }
        k = k + 1;
    }
    proof {
        lemma_total_take(g, n as int);
        assert(g.take(n as int) =~= g);
    }
    assert(sv(cleaned@) =~= without_mentions(g));
    let ex = crate::codemix::vecs_of(exempt);
    let ghost wm = without_mentions(g);
    let mut uses: Vec<(Vec<char>, u128, usize, Vec<char>)> = Vec::new();
    let mut total: Vec<u64> = Vec::new();
    let ghost lv = pairs_view(lex@);
    let mut e: usize = 0;
    assert(uses_view(uses@) =~= Seq::<UseV>::empty());
    assert(wv(total@) == 0);
    while e < lex.len()
        invariant
            e <= lex.len(),
            lv == pairs_view(lex@),
            wm == sv(cleaned@),
            seqs_of(ex@) == strings_view(exempt@),
            uses_view(uses@) == uses_of(wm, seqs_of(ex@), lv, e as int),
            wv(total@) == total_uses(uses_view(uses@)),
            wv(total@) <= e * 0x2_0000_0000_0000_0000,
            crate::prose::sent_total(wm) <= usize::MAX,
            cleaned.len() == n,
        decreases lex.len() - e,
    {
        let stem = chars_of(lex[e].0.as_str());
        let hint = chars_of(lex[e].1.as_str());
        let (c, first) = stem_uses_exec(&cleaned, &stem);
        let ghost u0 = uses_view(uses@);
        if !contains_word(&ex, &stem) && c > 0 {
            uses.push((stem, c, first, hint));
            assert(uses_view(uses@) =~= u0.push((lv[e as int].0, c as nat, first as int, lv[e as int].1)));
            assert(uses_view(uses@).drop_last() =~= u0);
            let cw = crate::wide::from_u128(c);
            total = crate::wide::sum(&total, &cw);
        } else {
            assert(uses_view(uses@) =~= u0 + Seq::<UseV>::empty());
        }
        e = e + 1;
    }
    let ghost us = uses_view(uses@);
    assert(e == lex.len());
    assert(us == uses_of(without_mentions(g), strings_view(exempt@), pairs_view(lex@), lex@.len() as int));
    let three = crate::wide::from_u128(3);
    assert(wv(total@) < 0x4_0000_0000_0000_0000_0000_0000_0000_0000);
    let rm = rate100_exec(&total, n);
    if !crate::wide::lt(&total, &three) && !f_lt_exec(rm, (2, 0)) {
        assert(us.len() > 0);
        let sorted = sort_desc_exec(uses);
        let ghost st = uses_view(sorted@);
        let line = min_line_exec(&sorted);
        let mut m = String::new();
        m.append("decorative metaphors ×");
        let mut tv: Vec<char> = Vec::new();
        crate::numfmt::push_dec_wide(&mut tv, &total);
        push_vec_str(&mut m, &tv);
        m.append(" (");
        push_fmt_fixed(&mut m, rm, 1);
        m.append("/100 sentences): ");
        push_vocab(&mut m, &sorted);
        m.append(" — replace with plain terms, or add to allow if a deliberate central metaphor (judge decides)");
        let ghost m0 = m@;
        if sorted[0].3.len() > 0 {
            m.append("; top fix: ");
            push_vec_str(&mut m, &sorted[0].0);
            m.append(" → ");
            push_vec_str(&mut m, &sorted[0].3);
            assert(st[0].0 == sorted@[0].0@ && st[0].3 == sorted@[0].3@);
            assert(m@ =~= m0 + top_hint(st));
        } else {
            assert(m@ =~= m0 + top_hint(st));
        }
        assert(m@ =~= metaphor_msg(wv(total@), n as nat, st));
        push_vio(v, line, "metaphor-density", Severity::Advisory, m);
    } else {
        assert(vios_view(v@) =~= vios_view(v@) + Seq::<VioV>::empty());
    }
}

/// The rhetorical fingerprints of a document of thirty sentences or more
/// (quotations excluded): the contrast/dash/glossed-heading composite and the
/// density of decorative metaphors from `metaphor_lex` (stems in `exempt`
/// skipped), stably ordered by line.
pub fn scan(text: &str, exempt: &Vec<String>, metaphor_lex: &Vec<(String, String)>) -> (r: Vec<Violation>)
    ensures
        vios_view(r@) == spec_scan(text@, strings_view(exempt@), pairs_view(metaphor_lex@)),
        lines_sorted(vios_view(r@)),
{
    let s = chars_of(text);
    let all = sentences_of(&s);
    let ss = unquoted_exec(all);
    let ghost g = sv(ss@);
    proof {
        crate::prose::lemma_sentences_bound(text@);
        lemma_unquoted_total(spec_sentences(text@));
    }
    let n = ss.len();
    let mut v: Vec<Violation> = Vec::new();
    assert(vios_view(v@) =~= Seq::<VioV>::empty());
    if n < 30 {
        return v;
    }
    assert(s.len() == text@.len());
    composite_exec(&s, &ss, &mut v);
    metaphor_exec(&ss, exempt, metaphor_lex, &mut v);
    let r = sort_violations(v);
    r
}


/// Every rhetorical finding is advisory: a style fingerprint, never a verdict.
pub proof fn lemma_all_advisory(text: Seq<char>, exempt: Seq<Seq<char>>, lex: Seq<(Seq<char>, Seq<char>)>)
    ensures
        all_advisory(spec_scan(text, exempt, lex)),
{
    let ss = unquoted(spec_sentences(text));
    if ss.len() >= 30 {
        let c = composite(text, ss);
        let m = metaphor(ss, exempt, lex);
        lemma_all_advisory_concat(c, m);
        lemma_all_advisory_sorted(c + m);
    }
}

/// A document of fewer than thirty sentences outside quotations is not measured.
pub proof fn lemma_short_documents_silent(text: Seq<char>, exempt: Seq<Seq<char>>, lex: Seq<(Seq<char>, Seq<char>)>)
    requires
        unquoted(spec_sentences(text)).len() < 30,
    ensures
        spec_scan(text, exempt, lex) == Seq::<VioV>::empty(),
{
}

} // verus!
