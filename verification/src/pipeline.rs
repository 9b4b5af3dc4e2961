// pipeline.rs — the check engine: every per-document detector in registry
// order, suppressions applied, the file stamped on each finding. The order of
// the registry is the order of the output.
use vstd::prelude::*;

use crate::codemix::{paras_view, scan_paragraphs, spec_paragraphs, vecs_of, ParaV};
use crate::deny::{hits_view, pairs_view, HitV};
use crate::double::{f_lt, f_lt_exec, fmt_fixed, fv, push_fmt_fixed, rate100, rate100_exec, F64V};
use crate::prose::spec_clean_lines;
use crate::report::{vios_view, DataV, Finding, FindingData, FindingV, Severity, VioV, Violation, data_view, findings_view, finding_view};
use crate::suppress::{spec_hit, Suppressions};
use crate::text::{dec, join_with, push_joined, seqs_of, strings_view};

verus! {

/// The reader a document is written for. Under `Internal` (the default) the
/// vocabulary registry exempts its terms; under `Practice` a registry term
/// needs a definition at first use; under `Consume` any use in the prose is
/// reported.
#[derive(Clone, Copy, PartialEq, Eq, Debug, Default, Structural)]
pub enum Register {
    #[default]
    Internal,
    Practice,
    Consume,
}

/// What the detectors need besides the document (from the configuration).
/// The code-mixing threshold, latin words per 100 Japanese characters, is
/// the double `threshold.0 · 2^threshold.1`.
pub struct Ctx {
    pub max_sentence: usize,
    pub max_ten: usize,
    pub threshold: (u64, i64),
    pub exempt: Vec<String>,
    pub allow_set: Vec<String>,
    pub metaphor_lex: Vec<(String, String)>,
    pub user_deny: Vec<(String, String)>,
    pub builtin_deny: Vec<(String, String)>,
    pub register: Register,
    /// The registry terms checked by jargon-export (under `Practice` and `Consume` only).
    pub jargon_terms: Vec<String>,
    /// Unit words exempt from missing-counter besides the builtin ones.
    pub counter_units: Vec<String>,
}

// ---------------------------------------------------------------------------
// The groups of findings, one per detector, in registry order.

pub open spec fn sev_name(s: Severity) -> Seq<char> {
    match s {
        Severity::Hard => "error"@,
        Severity::Advisory => "advisory"@,
    }
}

/// The findings of a detector that grades its own severity.
pub open spec fn from_vios(vs: Seq<VioV>, detector: Seq<char>) -> Seq<FindingV> {
    Seq::new(vs.len(), |i: int| (detector, vs[i].1.0, Seq::empty(), vs[i].0, sev_name(vs[i].1.1), vs[i].1.2, None))
}

/// The findings of an advisory detector, from (line, rule, message).
pub open spec fn from_plain(fs: Seq<(int, Seq<char>, Seq<char>)>, detector: Seq<char>) -> Seq<FindingV> {
    Seq::new(fs.len(), |i: int| (detector, fs[i].1, Seq::empty(), fs[i].0, "advisory"@, fs[i].2, None))
}

pub open spec fn deny_rule(stock: bool) -> Seq<char> {
    if stock {
        "slop-phrase"@
    } else {
        "denied-term"@
    }
}

pub open spec fn deny_msg(w: Seq<char>, sugg: Seq<char>, stock: bool) -> Seq<char> {
    if stock {
        "「"@ + w + "…」 is an LLM stock phrase (builtin deny) — "@ + sugg + " (unblock: add to allow with a reason)"@
    } else {
        "「"@ + w + "」 is a denied term (judge's recorded verdict) — "@ + sugg
    }
}

/// The findings of the deny hits: a recorded verdict, or a builtin stock phrase.
pub open spec fn from_hits(hs: Seq<HitV>, stock: bool) -> Seq<FindingV> {
    Seq::new(
        hs.len(),
        |i: int|
            (
                "deny"@,
                deny_rule(stock),
                Seq::empty(),
                hs[i].0,
                "error"@,
                deny_msg(hs[i].1, hs[i].2, stock),
                Some(DataV::Deny(hs[i].1, hs[i].2)),
            ),
    )
}

pub open spec fn codemix_msg(tokens: nat, ja: nat, vocab: Seq<Seq<char>>) -> Seq<char> {
    fmt_fixed(rate100(tokens, ja), 0) + " latin per 100 JA chars (JA "@ + dec(ja)
        + ") — judge each token: domain→allow / mention→backticks / gratuitous→rewrite: "@ + join_with(vocab, " "@)
}

/// The code-mixed paragraphs whose density (in binary64) is at or over the
/// threshold `th` latin words per 100 Japanese characters.
pub open spec fn from_paras(ps: Seq<ParaV>, th: F64V) -> Seq<FindingV>
    decreases ps.len(),
{
    if ps.len() == 0 {
        Seq::empty()
    } else {
        let p = ps.last();
        from_paras(ps.drop_last(), th) + if !f_lt(rate100(p.1, p.2), th) {
            seq![
                (
                    "codemix"@,
                    "latin-density"@,
                    Seq::<char>::empty(),
                    p.0,
                    "advisory"@,
                    codemix_msg(p.1, p.2, p.3),
                    Some(DataV::Codemix(p.1, p.2, p.3)),
                ),
            ]
        } else {
            Seq::empty()
        }
    }
}

pub open spec fn from_calques(cs: Seq<crate::calque::FindV>) -> Seq<FindingV> {
    Seq::new(
        cs.len(),
        |i: int|
            (
                "calque"@,
                "verb-calque"@,
                Seq::empty(),
                cs[i].0,
                "advisory"@,
                cs[i].2,
                Some(DataV::Calque(cs[i].1)),
            ),
    )
}

pub open spec fn from_density(ds: Seq<crate::density::FindV>) -> Seq<FindingV> {
    Seq::new(ds.len(), |i: int| ("density"@, ds[i].1.0, Seq::empty(), ds[i].0, "advisory"@, ds[i].1.1, None))
}

/// jargon-export: silent under `Internal`; otherwise the practice or consume
/// criterion on the cleaned prose, with the raw text for glossary tables.
pub open spec fn jargon_group(raw: Seq<char>, text: Seq<char>, register: Register, terms: Seq<Seq<char>>) -> Seq<FindingV> {
    let clean = spec_clean_lines(text);
    match register {
        Register::Internal => Seq::empty(),
        Register::Practice => from_plain(crate::jargon::spec_scan(raw, clean, terms), "jargon"@),
        Register::Consume => from_plain(crate::jargon::spec_scan_consume(raw, clean, terms), "jargon"@),
    }
}

/// The findings of every detector but jargon-export, in registry order, unstamped.
pub open spec fn base_findings(text: Seq<char>, ctx: Ctx) -> Seq<FindingV> {
    from_hits(crate::deny::spec_scan(text, pairs_view(ctx.user_deny@)), false)
        + from_hits(crate::deny::spec_scan(text, pairs_view(ctx.builtin_deny@)), true)
        + from_paras(
        spec_paragraphs(text, strings_view(ctx.exempt@)),
        fv(ctx.threshold),
    ) + from_vios(
        crate::kinoshita::spec_scan(text, ctx.max_sentence as int, ctx.max_ten as int),
        "readability"@,
    ) + from_vios(
        crate::rhetoric::spec_scan(text, strings_view(ctx.allow_set@), pairs_view(ctx.metaphor_lex@)),
        "rhetoric"@,
    ) + from_vios(crate::rhythm::spec_scan(text), "rhythm"@) + from_vios(crate::structure::spec_scan(text), "structure"@) + from_calques(crate::calque::spec_scan(text))
        + from_density(crate::density::spec_scan(text)) + from_plain(crate::notation::spec_scan(text), "notation"@)
        + from_plain(crate::completeness::spec_scan(text), "completeness"@) + from_plain(
        crate::counter::spec_scan_with(text, strings_view(ctx.counter_units@)),
        "counter"@,
    )
}

/// Every detector's findings on a document, in registry order, unstamped.
pub open spec fn raw_findings(text: Seq<char>, raw: Seq<char>, ctx: Ctx) -> Seq<FindingV> {
    base_findings(text, ctx) + jargon_group(raw, text, ctx.register, strings_view(ctx.jargon_terms@))
}

/// The findings that the suppressions `m` do not silence, stamped with `file`.
pub open spec fn kept(fs: Seq<FindingV>, m: Map<int, Option<Set<Seq<char>>>>, file: Seq<char>) -> Seq<FindingV>
    decreases fs.len(),
{
    if fs.len() == 0 {
        Seq::empty()
    } else {
        let f = fs.last();
        kept(fs.drop_last(), m, file) + if spec_hit(m, f.3, f.0, f.1) {
            Seq::empty()
        } else {
            seq![(f.0, f.1, file, f.3, f.4, f.5, f.6)]
        }
    }
}

/// The findings of a document.
pub open spec fn spec_scan_document(
    file: Seq<char>,
    text: Seq<char>,
    raw: Seq<char>,
    m: Map<int, Option<Set<Seq<char>>>>,
    ctx: Ctx,
) -> Seq<FindingV> {
    kept(raw_findings(text, raw, ctx), m, file)
}

/// Filtering distributes over concatenation.
pub proof fn lemma_kept_concat(a: Seq<FindingV>, b: Seq<FindingV>, m: Map<int, Option<Set<Seq<char>>>>, file: Seq<char>)
    ensures
        kept(a + b, m, file) == kept(a, m, file) + kept(b, m, file),
    decreases b.len(),
{
    if b.len() == 0 {
        assert(a + b =~= a);
        assert(kept(a, m, file) + kept(b, m, file) =~= kept(a, m, file));
    } else {
        lemma_kept_concat(a, b.drop_last(), m, file);
        assert((a + b).drop_last() =~= a + b.drop_last());
        assert((a + b).last() == b.last());
    }
}

// ---------------------------------------------------------------------------
// The executable groups.

fn empty_findings() -> (r: Vec<Finding>)
    ensures
        findings_view(r@) == Seq::<FindingV>::empty(),
{
    let r: Vec<Finding> = Vec::new();
    assert(findings_view(r@) =~= Seq::<FindingV>::empty());
    r
}

fn push_finding(out: &mut Vec<Finding>, f: Finding)
    ensures
        findings_view(final(out)@) == findings_view(old(out)@).push(finding_view(f)),
{
    let ghost before = out@;
    out.push(f);
    assert(findings_view(out@) =~= findings_view(before).push(finding_view(f)));
}

/// The report's name of a severity.
fn sev(s: Severity) -> (r: &'static str)
    ensures
        r@ == sev_name(s),
{
    match s {
        Severity::Hard => "error",
        Severity::Advisory => "advisory",
    }
}

/// Adapts the findings of a detector that grades its own severity.
fn from_violations(vios: Vec<Violation>, detector: &'static str) -> (r: Vec<Finding>)
    ensures
        findings_view(r@) == from_vios(vios_view(vios@), detector@),
{
    let ghost g = from_vios(vios_view(vios@), detector@);
    let mut out = empty_findings();
    let mut src = vios;
    let ghost orig = src@;
    let ghost mut k: int = 0;
    while src.len() > 0
        invariant
            0 <= k <= orig.len(),
            src@ == orig.subrange(k, orig.len() as int),
            g == from_vios(vios_view(orig), detector@),
            findings_view(out@) == g.take(k),
        decreases src.len(),
    {
        let ghost s0 = src@;
        let v = src.remove(0);
        assert(v == orig[k]);
        assert(src@ =~= orig.subrange(k + 1, orig.len() as int));
        let sev = sev(v.severity);
        let f = Finding {
            detector,
            rule: v.rule.to_owned(),
            file: String::new(),
            line: v.line,
            severity: sev,
            message: v.msg,
            data: None,
        };
        assert(finding_view(f) == g[k]);
        push_finding(&mut out, f);
        proof {
            assert(g.take(k + 1) =~= g.take(k).push(g[k]));
            k = k + 1;
        }
    }
    assert(g.take(k) =~= g);
    out
}

fn deny_findings(text: &str, map: &Vec<(String, String)>, stock: bool) -> (r: Vec<Finding>)
    ensures
        findings_view(r@) == from_hits(crate::deny::spec_scan(text@, pairs_view(map@)), stock),
{
    let hits = crate::deny::scan(text, map);
    let ghost hv = hits_view(hits@);
    let ghost g = from_hits(hv, stock);
    let mut out = empty_findings();
    let mut src = hits;
    let ghost orig = src@;
    let ghost mut k: int = 0;
    while src.len() > 0
        invariant
            0 <= k <= orig.len(),
            src@ == orig.subrange(k, orig.len() as int),
            hv == hits_view(orig),
            g == from_hits(hv, stock),
            findings_view(out@) == g.take(k),
        decreases src.len(),
    {
        let (line, w, sugg) = src.remove(0);
        assert(src@ =~= orig.subrange(k + 1, orig.len() as int));
        assert((line as int, w@, sugg@) == hv[k]);
        let mut m = String::new();
        m.append("「");
        m.append(w.as_str());
        if stock {
            m.append("…」 is an LLM stock phrase (builtin deny) — ");
            m.append(sugg.as_str());
            m.append(" (unblock: add to allow with a reason)");
        } else {
            m.append("」 is a denied term (judge's recorded verdict) — ");
            m.append(sugg.as_str());
        }
        assert(m@ =~= deny_msg(w@, sugg@, stock));
        let rule: &'static str = if stock {
            "slop-phrase"
        } else {
            "denied-term"
        };
        let f = Finding {
            detector: "deny",
            rule: rule.to_owned(),
            file: String::new(),
            line,
            severity: "error",
            message: m,
            data: Some(FindingData::Deny { word: w, suggestion: sugg }),
        };
        assert(finding_view(f) == g[k]);
        push_finding(&mut out, f);
        proof {
            assert(g.take(k + 1) =~= g.take(k).push(g[k]));
            k = k + 1;
        }
    }
    assert(g.take(k) =~= g);
    out
}

fn codemix_findings(text: &str, exempt: &Vec<String>, th: (u64, i64)) -> (r: Vec<Finding>)
    requires
        text@.len() < usize::MAX,
    ensures
        findings_view(r@) == from_paras(spec_paragraphs(text@, strings_view(exempt@)), fv(th)),
{
    let ps = scan_paragraphs(text, exempt);
    let ghost pv = paras_view(ps@);
    proof {
        let us = crate::prose::spec_prose_units(text@);
        crate::codemix::lemma_paras_fold_ja(us, strings_view(exempt@), us.len() as int);
    }
    let mut out = empty_findings();
    let mut src = ps;
    let ghost orig = src@;
    let ghost mut k: int = 0;
    assert(pv.take(0) =~= Seq::<ParaV>::empty());
    while src.len() > 0
        invariant
            0 <= k <= orig.len(),
            src@ == orig.subrange(k, orig.len() as int),
            pv == paras_view(orig),
            forall|i: int| 0 <= i < pv.len() ==> (#[trigger] pv[i]).2 >= 40,
            findings_view(out@) == from_paras(pv.take(k), fv(th)),
        decreases src.len(),
    {
        let p = src.remove(0);
        assert(src@ =~= orig.subrange(k + 1, orig.len() as int));
        assert(pv.take(k + 1).drop_last() =~= pv.take(k));
        assert(pv.take(k + 1).last() == crate::codemix::para_view(p));
        assert(pv[k].2 >= 40);
        let tw = crate::wide::from_u128(p.tokens as u128);
        let d = rate100_exec(&tw, p.ja_chars);
        if !f_lt_exec(d, th) {
            let mut m = String::new();
            push_fmt_fixed(&mut m, d, 0);
            m.append(" latin per 100 JA chars (JA ");
            crate::numfmt::push_dec_u128_str(&mut m, p.ja_chars as u128);
            m.append(") — judge each token: domain→allow / mention→backticks / gratuitous→rewrite: ");
            let vs = vecs_of(&p.vocab);
            push_joined(&mut m, &vs, " ");
            assert(m@ =~= codemix_msg(p.tokens as nat, p.ja_chars as nat, strings_view(p.vocab@)));
            let f = Finding {
                detector: "codemix",
                rule: "latin-density".to_owned(),
                file: String::new(),
                line: p.line,
                severity: "advisory",
                message: m,
                data: Some(FindingData::Codemix { tokens: p.tokens, ja_chars: p.ja_chars, vocab: p.vocab }),
            };
            push_finding(&mut out, f);
        }
        proof {
            k = k + 1;
        }
    }
    assert(pv.take(k) =~= pv);
    out
}


fn notation_findings(text: &str) -> (r: Vec<Finding>)
    ensures
        findings_view(r@) == from_plain(crate::notation::spec_scan(text@), "notation"@),
{
    let fs = crate::notation::scan(text);
    let ghost fv = crate::notation::finds_view(fs@);
    let ghost g = from_plain(fv, "notation"@);
    let mut out = empty_findings();
    let mut src = fs;
    let ghost orig = src@;
    let ghost mut k: int = 0;
    while src.len() > 0
        invariant
            0 <= k <= orig.len(),
            src@ == orig.subrange(k, orig.len() as int),
            fv == crate::notation::finds_view(orig),
            g == from_plain(fv, "notation"@),
            findings_view(out@) == g.take(k),
        decreases src.len(),
    {
        let x = src.remove(0);
        assert(src@ =~= orig.subrange(k + 1, orig.len() as int));
        assert(crate::notation::find_view(x) == fv[k]);
        let f = Finding {
            detector: "notation",
            rule: x.rule.to_owned(),
            file: String::new(),
            line: x.line,
            severity: "advisory",
            message: x.msg,
            data: None,
        };
        assert(finding_view(f) == g[k]);
        push_finding(&mut out, f);
        proof {
            assert(g.take(k + 1) =~= g.take(k).push(g[k]));
            k = k + 1;
        }
    }
    assert(g.take(k) =~= g);
    out
}

fn completeness_findings(text: &str) -> (r: Vec<Finding>)
    requires
        2 * text@.len() + 2 <= usize::MAX,
    ensures
        findings_view(r@) == from_plain(crate::completeness::spec_scan(text@), "completeness"@),
{
    let fs = crate::completeness::scan(text);
    let ghost fv = crate::completeness::finds_view(fs@);
    let ghost g = from_plain(fv, "completeness"@);
    let mut out = empty_findings();
    let mut src = fs;
    let ghost orig = src@;
    let ghost mut k: int = 0;
    while src.len() > 0
        invariant
            0 <= k <= orig.len(),
            src@ == orig.subrange(k, orig.len() as int),
            fv == crate::completeness::finds_view(orig),
            g == from_plain(fv, "completeness"@),
            findings_view(out@) == g.take(k),
        decreases src.len(),
    {
        let x = src.remove(0);
        assert(src@ =~= orig.subrange(k + 1, orig.len() as int));
        assert(crate::completeness::find_view(x) == fv[k]);
        let f = Finding {
            detector: "completeness",
            rule: x.rule.to_owned(),
            file: String::new(),
            line: x.line,
            severity: "advisory",
            message: x.msg,
            data: None,
        };
        assert(finding_view(f) == g[k]);
        push_finding(&mut out, f);
        proof {
            assert(g.take(k + 1) =~= g.take(k).push(g[k]));
            k = k + 1;
        }
    }
    assert(g.take(k) =~= g);
    out
}

fn counter_findings(text: &str, units: &Vec<String>) -> (r: Vec<Finding>)
    ensures
        findings_view(r@) == from_plain(crate::counter::spec_scan_with(text@, strings_view(units@)), "counter"@),
{
    let fs = crate::counter::scan_with_units(text, units);
    let ghost fv = crate::counter::finds_view(fs@);
    let ghost g = from_plain(fv, "counter"@);
    let mut out = empty_findings();
    let mut src = fs;
    let ghost orig = src@;
    let ghost mut k: int = 0;
    while src.len() > 0
        invariant
            0 <= k <= orig.len(),
            src@ == orig.subrange(k, orig.len() as int),
            fv == crate::counter::finds_view(orig),
            g == from_plain(fv, "counter"@),
            findings_view(out@) == g.take(k),
        decreases src.len(),
    {
        let x = src.remove(0);
        assert(src@ =~= orig.subrange(k + 1, orig.len() as int));
        assert(crate::counter::find_view(x) == fv[k]);
        let f = Finding {
            detector: "counter",
            rule: x.rule.to_owned(),
            file: String::new(),
            line: x.line,
            severity: "advisory",
            message: x.msg,
            data: None,
        };
        assert(finding_view(f) == g[k]);
        push_finding(&mut out, f);
        proof {
            assert(g.take(k + 1) =~= g.take(k).push(g[k]));
            k = k + 1;
        }
    }
    assert(g.take(k) =~= g);
    out
}

fn jargon_practice_findings(raw: &str, clean: &str, terms: &Vec<String>) -> (r: Vec<Finding>)
    ensures
        findings_view(r@) == from_plain(crate::jargon::spec_scan(raw@, clean@, strings_view(terms@)), "jargon"@),
{
    let fs = crate::jargon::scan(raw, clean, terms);
    let ghost fv = crate::jargon::finds_view(fs@);
    let ghost g = from_plain(fv, "jargon"@);
    let mut out = empty_findings();
    let mut src = fs;
    let ghost orig = src@;
    let ghost mut k: int = 0;
    while src.len() > 0
        invariant
            0 <= k <= orig.len(),
            src@ == orig.subrange(k, orig.len() as int),
            fv == crate::jargon::finds_view(orig),
            g == from_plain(fv, "jargon"@),
            findings_view(out@) == g.take(k),
        decreases src.len(),
    {
        let x = src.remove(0);
        assert(src@ =~= orig.subrange(k + 1, orig.len() as int));
        assert(crate::jargon::find_view(x) == fv[k]);
        let f = Finding {
            detector: "jargon",
            rule: x.rule.to_owned(),
            file: String::new(),
            line: x.line,
            severity: "advisory",
            message: x.msg,
            data: None,
        };
        assert(finding_view(f) == g[k]);
        push_finding(&mut out, f);
        proof {
            assert(g.take(k + 1) =~= g.take(k).push(g[k]));
            k = k + 1;
        }
    }
    assert(g.take(k) =~= g);
    out
}

fn jargon_consume_findings(raw: &str, clean: &str, terms: &Vec<String>) -> (r: Vec<Finding>)
    ensures
        findings_view(r@) == from_plain(crate::jargon::spec_scan_consume(raw@, clean@, strings_view(terms@)), "jargon"@),
{
    let fs = crate::jargon::scan_consume(raw, clean, terms);
    let ghost fv = crate::jargon::finds_view(fs@);
    let ghost g = from_plain(fv, "jargon"@);
    let mut out = empty_findings();
    let mut src = fs;
    let ghost orig = src@;
    let ghost mut k: int = 0;
    while src.len() > 0
        invariant
            0 <= k <= orig.len(),
            src@ == orig.subrange(k, orig.len() as int),
            fv == crate::jargon::finds_view(orig),
            g == from_plain(fv, "jargon"@),
            findings_view(out@) == g.take(k),
        decreases src.len(),
    {
        let x = src.remove(0);
        assert(src@ =~= orig.subrange(k + 1, orig.len() as int));
        assert(crate::jargon::find_view(x) == fv[k]);
        let f = Finding {
            detector: "jargon",
            rule: x.rule.to_owned(),
            file: String::new(),
            line: x.line,
            severity: "advisory",
            message: x.msg,
            data: None,
        };
        assert(finding_view(f) == g[k]);
        push_finding(&mut out, f);
        proof {
            assert(g.take(k + 1) =~= g.take(k).push(g[k]));
            k = k + 1;
        }
    }
    assert(g.take(k) =~= g);
    out
}

fn calque_findings(text: &str) -> (r: Vec<Finding>)
    ensures
        findings_view(r@) == from_calques(crate::calque::spec_scan(text@)),
{
    let fs = crate::calque::scan(text);
    let ghost fv = crate::calque::finds_view(fs@);
    let ghost g = from_calques(fv);
    let mut out = empty_findings();
    let mut src = fs;
    let ghost orig = src@;
    let ghost mut k: int = 0;
    while src.len() > 0
        invariant
            0 <= k <= orig.len(),
            src@ == orig.subrange(k, orig.len() as int),
            fv == crate::calque::finds_view(orig),
            g == from_calques(fv),
            findings_view(out@) == g.take(k),
        decreases src.len(),
    {
        let x = src.remove(0);
        assert(src@ =~= orig.subrange(k + 1, orig.len() as int));
        assert(crate::calque::find_view(x) == fv[k]);
        let f = Finding {
            detector: "calque",
            rule: "verb-calque".to_owned(),
            file: String::new(),
            line: x.line,
            severity: "advisory",
            message: x.msg,
            data: Some(FindingData::Calque { word: x.word }),
        };
        assert(finding_view(f) == g[k]);
        push_finding(&mut out, f);
        proof {
            assert(g.take(k + 1) =~= g.take(k).push(g[k]));
            k = k + 1;
        }
    }
    assert(g.take(k) =~= g);
    out
}

fn density_findings(text: &str) -> (r: Vec<Finding>)
    requires
        text@.len() < usize::MAX,
    ensures
        findings_view(r@) == from_density(crate::density::spec_scan(text@)),
{
    let fs = crate::density::scan(text);
    let ghost fv = crate::density::finds_view(fs@);
    let ghost g = from_density(fv);
    let mut out = empty_findings();
    let mut src = fs;
    let ghost orig = src@;
    let ghost mut k: int = 0;
    while src.len() > 0
        invariant
            0 <= k <= orig.len(),
            src@ == orig.subrange(k, orig.len() as int),
            fv == crate::density::finds_view(orig),
            g == from_density(fv),
            findings_view(out@) == g.take(k),
        decreases src.len(),
    {
        let x = src.remove(0);
        assert(src@ =~= orig.subrange(k + 1, orig.len() as int));
        assert(crate::density::find_view(x) == fv[k]);
        let f = Finding {
            detector: "density",
            rule: x.rule.to_owned(),
            file: String::new(),
            line: x.line,
            severity: "advisory",
            message: x.msg,
            data: None,
        };
        assert(finding_view(f) == g[k]);
        push_finding(&mut out, f);
        proof {
            assert(g.take(k + 1) =~= g.take(k).push(g[k]));
            k = k + 1;
        }
    }
    assert(g.take(k) =~= g);
    out
}

/// jargon-export under the register of `ctx` (silent under `Internal`).
fn jargon_findings(raw: &str, text: &str, ctx: &Ctx) -> (r: Vec<Finding>)
    ensures
        findings_view(r@) == jargon_group(raw@, text@, ctx.register, strings_view(ctx.jargon_terms@)),
{
    let clean = crate::prose::clean_lines(text);
    match ctx.register {
        Register::Internal => empty_findings(),
        Register::Practice => jargon_practice_findings(raw, clean.as_str(), &ctx.jargon_terms),
        Register::Consume => jargon_consume_findings(raw, clean.as_str(), &ctx.jargon_terms),
    }
}

/// Appends the findings of `group` that `s` does not silence, stamped with `file`.
fn absorb(out: &mut Vec<Finding>, group: Vec<Finding>, file: &str, s: &Suppressions)
    requires
        s.wf(),
    ensures
        findings_view(final(out)@) == findings_view(old(out)@) + kept(findings_view(group@), s@, file@),
{
    let ghost gv = findings_view(group@);
    let ghost start = findings_view(out@);
    let mut src = group;
    let ghost orig = src@;
    let ghost mut k: int = 0;
    assert(gv.take(0) =~= Seq::<FindingV>::empty());
    assert(start + kept(gv.take(0), s@, file@) =~= start);
    while src.len() > 0
        invariant
            0 <= k <= orig.len(),
            src@ == orig.subrange(k, orig.len() as int),
            gv == findings_view(orig),
            s.wf(),
            findings_view(out@) == start + kept(gv.take(k), s@, file@),
        decreases src.len(),
    {
        let mut fi = src.remove(0);
        assert(src@ =~= orig.subrange(k + 1, orig.len() as int));
        assert(finding_view(fi) == gv[k]);
        assert(gv.take(k + 1).drop_last() =~= gv.take(k));
        assert(gv.take(k + 1).last() == gv[k]);
        let ghost before = findings_view(out@);
        if !s.hit(fi.line, fi.detector, fi.rule.as_str()) {
            fi.file = file.to_owned();
            push_finding(out, fi);
            assert(findings_view(out@) =~= start + kept(gv.take(k + 1), s@, file@));
        } else {
            assert(findings_view(out@) =~= start + kept(gv.take(k + 1), s@, file@));
        }
        proof {
            k = k + 1;
        }
    }
    assert(gv.take(k) =~= gv);
}


/// Runs every per-document detector on `text` in registry order (deny user,
/// deny builtin, codemix, readability, rhetoric, rhythm, structure, calque, density,
/// notation, completeness, counter, jargon), drops what `s` suppresses and
/// stamps `file` on the rest. `raw` is the source before HTML stripping, for
/// the glossary tables of jargon-export.
pub fn scan_document(file: &str, text: &str, raw: &str, s: &Suppressions, ctx: &Ctx) -> (r: Vec<Finding>)
    requires
        s.wf(),
        2 * text@.len() + 2 <= usize::MAX,
    ensures
        findings_view(r@) == spec_scan_document(file@, text@, raw@, s@, *ctx),
{
    let ghost m = s@;
    let ghost f = file@;
    let mut out = empty_findings();
    let g = deny_findings(text, &ctx.user_deny, false);
    let ghost mut acc = findings_view(g@);
    absorb(&mut out, g, file, s);
    assert(findings_view(out@) =~= kept(acc, m, f));
    let g = deny_findings(text, &ctx.builtin_deny, true);
    proof {
        lemma_kept_concat(acc, findings_view(g@), m, f);
        acc = acc + findings_view(g@);
    }
    absorb(&mut out, g, file, s);
    let g = codemix_findings(text, &ctx.exempt, ctx.threshold);
    proof {
        lemma_kept_concat(acc, findings_view(g@), m, f);
        acc = acc + findings_view(g@);
    }
    absorb(&mut out, g, file, s);
    let g = from_violations(crate::kinoshita::scan(text, ctx.max_sentence, ctx.max_ten), "readability");
    proof {
        lemma_kept_concat(acc, findings_view(g@), m, f);
        acc = acc + findings_view(g@);
    }
    absorb(&mut out, g, file, s);
    let g = from_violations(crate::rhetoric::scan(text, &ctx.allow_set, &ctx.metaphor_lex), "rhetoric");
    proof {
        lemma_kept_concat(acc, findings_view(g@), m, f);
        acc = acc + findings_view(g@);
    }
    absorb(&mut out, g, file, s);
    let g = from_violations(crate::rhythm::scan(text), "rhythm");
    proof {
        lemma_kept_concat(acc, findings_view(g@), m, f);
        acc = acc + findings_view(g@);
    }
    absorb(&mut out, g, file, s);
    let g = from_violations(crate::structure::scan(text), "structure");
    proof {
        lemma_kept_concat(acc, findings_view(g@), m, f);
        acc = acc + findings_view(g@);
    }
    absorb(&mut out, g, file, s);
    let g = calque_findings(text);
    proof {
        lemma_kept_concat(acc, findings_view(g@), m, f);
        acc = acc + findings_view(g@);
    }
    absorb(&mut out, g, file, s);
    let g = density_findings(text);
    proof {
        lemma_kept_concat(acc, findings_view(g@), m, f);
        acc = acc + findings_view(g@);
    }
    absorb(&mut out, g, file, s);
    let g = notation_findings(text);
    proof {
        lemma_kept_concat(acc, findings_view(g@), m, f);
        acc = acc + findings_view(g@);
    }
    absorb(&mut out, g, file, s);
    let g = completeness_findings(text);
    proof {
        lemma_kept_concat(acc, findings_view(g@), m, f);
        acc = acc + findings_view(g@);
    }
    absorb(&mut out, g, file, s);
    let g = counter_findings(text, &ctx.counter_units);
    proof {
        lemma_kept_concat(acc, findings_view(g@), m, f);
        acc = acc + findings_view(g@);
    }
    absorb(&mut out, g, file, s);
    let g = jargon_findings(raw, text, ctx);
    proof {
        lemma_kept_concat(acc, findings_view(g@), m, f);
        acc = acc + findings_view(g@);
    }
    absorb(&mut out, g, file, s);
    assert(acc == raw_findings(text@, raw@, *ctx));
    out
}


// ---------------------------------------------------------------------------
// Laws of the engine.

/// `f` stamped with `file`.
pub open spec fn stamp(f: FindingV, file: Seq<char>) -> FindingV {
    (f.0, f.1, file, f.3, f.4, f.5, f.6)
}

/// Only `deny` and `readability` findings block (severity "error"); every
/// severity is "error" or "advisory".
pub open spec fn blocking_ok(f: FindingV) -> bool {
    &&& (f.4 == "error"@ || f.4 == "advisory"@)
    &&& (f.4 == "error"@ ==> (f.0 == "deny"@ || f.0 == "readability"@))
}

/// The findings of `v` whose detector is not `d`.
pub open spec fn without_detector(v: Seq<FindingV>, d: Seq<char>) -> Seq<FindingV>
    decreases v.len(),
{
    if v.len() == 0 {
        Seq::empty()
    } else {
        without_detector(v.drop_last(), d) + if v.last().0 == d {
            Seq::empty()
        } else {
            seq![v.last()]
        }
    }
}

proof fn lemma_names()
    ensures
        "deny"@ != "jargon"@,
        "readability"@ != "jargon"@,
        "rhetoric"@ != "jargon"@ && "rhetoric"@ != "deny"@ && "rhetoric"@ != "readability"@,
        "structure"@ != "jargon"@ && "structure"@ != "deny"@ && "structure"@ != "readability"@,
        "rhythm"@ != "jargon"@ && "rhythm"@ != "deny"@ && "rhythm"@ != "readability"@,
        "calque"@ != "jargon"@,
        "density"@ != "jargon"@,
        "notation"@ != "jargon"@,
        "completeness"@ != "jargon"@,
        "counter"@ != "jargon"@,
        "codemix"@ != "jargon"@,
        "error"@ != "advisory"@,
{
    reveal_strlit("deny");
    reveal_strlit("readability");
    reveal_strlit("jargon");
    reveal_strlit("rhetoric");
    reveal_strlit("structure");
    reveal_strlit("rhythm");
    reveal_strlit("calque");
    reveal_strlit("density");
    reveal_strlit("notation");
    reveal_strlit("completeness");
    reveal_strlit("counter");
    reveal_strlit("codemix");
    reveal_strlit("error");
    reveal_strlit("advisory");
    assert("deny"@[0] != "jargon"@[0]);
    assert("readability"@[0] != "jargon"@[0]);
    assert("rhetoric"@[0] != "jargon"@[0] && "rhetoric"@[0] != "deny"@[0] && "rhetoric"@[1] != "readability"@[1]);
    assert("structure"@[0] != "jargon"@[0] && "structure"@[0] != "deny"@[0] && "structure"@[0] != "readability"@[0]);
    assert("rhythm"@[0] != "jargon"@[0] && "rhythm"@[0] != "deny"@[0] && "rhythm"@[1] != "readability"@[1]);
    assert("calque"@[0] != "jargon"@[0]);
    assert("density"@[0] != "jargon"@[0]);
    assert("notation"@[0] != "jargon"@[0]);
    assert("completeness"@[0] != "jargon"@[0]);
    assert("counter"@[0] != "jargon"@[0]);
    assert("codemix"@[0] != "jargon"@[0]);
    assert("error"@[0] != "advisory"@[0]);
}

/// Every element of `kept(fs, m, file)` is an element of `fs` that `m` does
/// not silence, stamped with `file`.
pub proof fn lemma_kept_elems(fs: Seq<FindingV>, m: Map<int, Option<Set<Seq<char>>>>, file: Seq<char>)
    ensures
        forall|i: int|
            0 <= i < kept(fs, m, file).len() ==> exists|j: int|
                0 <= j < fs.len() && #[trigger] kept(fs, m, file)[i] == stamp(fs[j], file) && !spec_hit(
                    m,
                    fs[j].3,
                    fs[j].0,
                    fs[j].1,
                ),
    decreases fs.len(),
{
    if fs.len() > 0 {
        let p = fs.drop_last();
        lemma_kept_elems(p, m, file);
        let kp = kept(p, m, file);
        let r = kept(fs, m, file);
        assert forall|i: int| 0 <= i < r.len() implies exists|j: int|
            0 <= j < fs.len() && #[trigger] r[i] == stamp(fs[j], file) && !spec_hit(m, fs[j].3, fs[j].0, fs[j].1) by {
            if i < kp.len() {
                assert(r[i] == kp[i]);
                let j = choose|j: int|
                    0 <= j < p.len() && #[trigger] kp[i] == stamp(p[j], file) && !spec_hit(m, p[j].3, p[j].0, p[j].1);
                assert(fs[j] == p[j]);
            } else {
                assert(r[i] == stamp(fs[fs.len() - 1], file));
            }
        }
    }
}

proof fn lemma_without_concat(a: Seq<FindingV>, b: Seq<FindingV>, d: Seq<char>)
    ensures
        without_detector(a + b, d) == without_detector(a, d) + without_detector(b, d),
    decreases b.len(),
{
    if b.len() == 0 {
        assert(a + b =~= a);
        assert(without_detector(a, d) + without_detector(b, d) =~= without_detector(a, d));
    } else {
        lemma_without_concat(a, b.drop_last(), d);
        assert((a + b).drop_last() =~= a + b.drop_last());
        assert((a + b).last() == b.last());
    }
}

proof fn lemma_without_all(v: Seq<FindingV>, d: Seq<char>)
    requires
        forall|i: int| 0 <= i < v.len() ==> (#[trigger] v[i]).0 == d,
    ensures
        without_detector(v, d) == Seq::<FindingV>::empty(),
    decreases v.len(),
{
    if v.len() > 0 {
        lemma_without_all(v.drop_last(), d);
    }
}

/// The properties every unstamped finding of a document has.
pub open spec fn raw_ok(fs: Seq<FindingV>, jargon_free: bool) -> bool {
    forall|i: int|
        0 <= i < fs.len() ==> blocking_ok(#[trigger] fs[i]) && (jargon_free ==> fs[i].0 != "jargon"@)
}

proof fn lemma_raw_ok_concat(a: Seq<FindingV>, b: Seq<FindingV>, jf: bool)
    requires
        raw_ok(a, jf),
        raw_ok(b, jf),
    ensures
        raw_ok(a + b, jf),
{
    assert forall|i: int| 0 <= i < (a + b).len() implies blocking_ok(#[trigger] (a + b)[i]) && (jf ==> (a
        + b)[i].0 != "jargon"@) by {
        if i < a.len() {
            assert((a + b)[i] == a[i]);
        } else {
            assert((a + b)[i] == b[i - a.len()]);
        }
    }
}

proof fn lemma_from_paras_ok(ps: Seq<ParaV>, th: F64V)
    ensures
        forall|i: int|
            0 <= i < from_paras(ps, th).len() ==> (#[trigger] from_paras(ps, th)[i]).0 == "codemix"@
                && from_paras(ps, th)[i].4 == "advisory"@,
    decreases ps.len(),
{
    if ps.len() > 0 {
        lemma_from_paras_ok(ps.drop_last(), th);
        let p = from_paras(ps.drop_last(), th);
        let r = from_paras(ps, th);
        assert forall|i: int| 0 <= i < r.len() implies (#[trigger] r[i]).0 == "codemix"@ && r[i].4 == "advisory"@ by {
            if i < p.len() {
                assert(r[i] == p[i]);
            }
        }
    }
}

#[verifier::spinoff_prover]
#[verifier::rlimit(50)]
proof fn lemma_groups_ok(text: Seq<char>, raw: Seq<char>, ctx: Ctx)
    ensures
        raw_ok(base_findings(text, ctx), true),
        raw_ok(jargon_group(raw, text, ctx.register, strings_view(ctx.jargon_terms@)), false),
        forall|i: int|
            0 <= i < jargon_group(raw, text, ctx.register, strings_view(ctx.jargon_terms@)).len() ==> (#[trigger] jargon_group(
                raw,
                text,
                ctx.register,
                strings_view(ctx.jargon_terms@),
            )[i]).0 == "jargon"@,
{
    lemma_names();
    let g1 = from_hits(crate::deny::spec_scan(text, pairs_view(ctx.user_deny@)), false);
    let g2 = from_hits(crate::deny::spec_scan(text, pairs_view(ctx.builtin_deny@)), true);
    let g3 = from_paras(spec_paragraphs(text, strings_view(ctx.exempt@)), fv(ctx.threshold));
    let g4 = from_vios(crate::kinoshita::spec_scan(text, ctx.max_sentence as int, ctx.max_ten as int), "readability"@);
    let rv = crate::rhetoric::spec_scan(text, strings_view(ctx.allow_set@), pairs_view(ctx.metaphor_lex@));
    let g5 = from_vios(rv, "rhetoric"@);
    let yv = crate::rhythm::spec_scan(text);
    let gy = from_vios(yv, "rhythm"@);
    let sv = crate::structure::spec_scan(text);
    let g6 = from_vios(sv, "structure"@);
    let g7 = from_calques(crate::calque::spec_scan(text));
    let g8 = from_density(crate::density::spec_scan(text));
    let g9 = from_plain(crate::notation::spec_scan(text), "notation"@);
    let g10 = from_plain(crate::completeness::spec_scan(text), "completeness"@);
    let g11 = from_plain(crate::counter::spec_scan_with(text, strings_view(ctx.counter_units@)), "counter"@);
    assert(base_findings(text, ctx) == g1 + g2 + g3 + g4 + g5 + gy + g6 + g7 + g8 + g9 + g10 + g11);
    crate::rhetoric::lemma_all_advisory(text, strings_view(ctx.allow_set@), pairs_view(ctx.metaphor_lex@));
    crate::structure::lemma_all_advisory(text);
    crate::rhythm::lemma_all_advisory(text);
    lemma_from_paras_ok(spec_paragraphs(text, strings_view(ctx.exempt@)), fv(ctx.threshold));
    assert(raw_ok(g1, true));
    assert(raw_ok(g2, true));
    assert(raw_ok(g3, true));
    assert(raw_ok(g4, true));
    assert forall|i: int| 0 <= i < g5.len() implies blocking_ok(#[trigger] g5[i]) && g5[i].0 != "jargon"@ by {
        assert(rv[i].1.1 == Severity::Advisory);
    }
    assert forall|i: int| 0 <= i < gy.len() implies blocking_ok(#[trigger] gy[i]) && gy[i].0 != "jargon"@ by {
        assert(yv[i].1.1 == Severity::Advisory);
    }
    assert forall|i: int| 0 <= i < g6.len() implies blocking_ok(#[trigger] g6[i]) && g6[i].0 != "jargon"@ by {
        assert(sv[i].1.1 == Severity::Advisory);
    }
    assert(raw_ok(g7, true));
    assert(raw_ok(g8, true));
    assert(raw_ok(g9, true));
    assert(raw_ok(g10, true));
    assert(raw_ok(g11, true));
    let h2 = g1 + g2;
    lemma_raw_ok_concat(g1, g2, true);
    let h3 = h2 + g3;
    lemma_raw_ok_concat(h2, g3, true);
    let h4 = h3 + g4;
    lemma_raw_ok_concat(h3, g4, true);
    let h5 = h4 + g5;
    lemma_raw_ok_concat(h4, g5, true);
    let hy = h5 + gy;
    lemma_raw_ok_concat(h5, gy, true);
    let h6 = hy + g6;
    lemma_raw_ok_concat(hy, g6, true);
    let h7 = h6 + g7;
    lemma_raw_ok_concat(h6, g7, true);
    let h8 = h7 + g8;
    lemma_raw_ok_concat(h7, g8, true);
    let h9 = h8 + g9;
    lemma_raw_ok_concat(h8, g9, true);
    let h10 = h9 + g10;
    lemma_raw_ok_concat(h9, g10, true);
    lemma_raw_ok_concat(h10, g11, true);
}

/// Only deny and readability findings block: a finding's severity is
/// "error" or "advisory", and "error" only for those two detectors.
pub proof fn lemma_only_deny_and_readability_block(
    file: Seq<char>,
    text: Seq<char>,
    raw: Seq<char>,
    m: Map<int, Option<Set<Seq<char>>>>,
    ctx: Ctx,
)
    ensures
        forall|i: int|
            0 <= i < spec_scan_document(file, text, raw, m, ctx).len() ==> blocking_ok(
                #[trigger] spec_scan_document(file, text, raw, m, ctx)[i],
            ),
{
    lemma_groups_ok(text, raw, ctx);
    let a = raw_findings(text, raw, ctx);
    let jg = jargon_group(raw, text, ctx.register, strings_view(ctx.jargon_terms@));
    assert(raw_ok(a, false)) by {
        assert forall|i: int| 0 <= i < a.len() implies blocking_ok(#[trigger] a[i]) by {}
    }
    lemma_kept_elems(a, m, file);
    let r = spec_scan_document(file, text, raw, m, ctx);
    assert forall|i: int| 0 <= i < r.len() implies blocking_ok(#[trigger] r[i]) by {
        let j = choose|j: int| 0 <= j < a.len() && #[trigger] r[i] == stamp(a[j], file) && !spec_hit(m, a[j].3, a[j].0, a[j].1);
        assert(blocking_ok(a[j]));
    }
}

/// Under the internal register no jargon-export finding is ever reported.
pub proof fn lemma_internal_register_has_no_jargon(
    file: Seq<char>,
    text: Seq<char>,
    raw: Seq<char>,
    m: Map<int, Option<Set<Seq<char>>>>,
    ctx: Ctx,
)
    requires
        ctx.register == Register::Internal,
    ensures
        forall|i: int|
            0 <= i < spec_scan_document(file, text, raw, m, ctx).len() ==> (#[trigger] spec_scan_document(
                file,
                text,
                raw,
                m,
                ctx,
            )[i]).0 != "jargon"@,
{
    lemma_groups_ok(text, raw, ctx);
    let a = raw_findings(text, raw, ctx);
    let jg = jargon_group(raw, text, ctx.register, strings_view(ctx.jargon_terms@));
    assert(jg =~= Seq::<FindingV>::empty());
    lemma_kept_elems(a, m, file);
    let r = spec_scan_document(file, text, raw, m, ctx);
    assert forall|i: int| 0 <= i < r.len() implies (#[trigger] r[i]).0 != "jargon"@ by {
        let j = choose|j: int| 0 <= j < a.len() && #[trigger] r[i] == stamp(a[j], file) && !spec_hit(m, a[j].3, a[j].0, a[j].1);
    }
}

/// The register changes nothing but jargon-export: two contexts that differ
/// only in their register give the same findings of every other detector.
pub proof fn lemma_register_changes_only_jargon(
    file: Seq<char>,
    text: Seq<char>,
    raw: Seq<char>,
    m: Map<int, Option<Set<Seq<char>>>>,
    c1: Ctx,
    c2: Ctx,
)
    requires
        c1.max_sentence == c2.max_sentence,
        c1.max_ten == c2.max_ten,
        c1.threshold == c2.threshold,
        c1.exempt@ == c2.exempt@,
        c1.allow_set@ == c2.allow_set@,
        c1.metaphor_lex@ == c2.metaphor_lex@,
        c1.user_deny@ == c2.user_deny@,
        c1.builtin_deny@ == c2.builtin_deny@,
        c1.jargon_terms@ == c2.jargon_terms@,
        c1.counter_units@ == c2.counter_units@,
    ensures
        without_detector(spec_scan_document(file, text, raw, m, c1), "jargon"@) == without_detector(
            spec_scan_document(file, text, raw, m, c2),
            "jargon"@,
        ),
{
    lemma_groups_ok(text, raw, c1);
    lemma_groups_ok(text, raw, c2);
    let j1 = jargon_group(raw, text, c1.register, strings_view(c1.jargon_terms@));
    let j2 = jargon_group(raw, text, c2.register, strings_view(c2.jargon_terms@));
    let p = base_findings(text, c1);
    assert(base_findings(text, c2) == p);
    lemma_kept_concat(p, j1, m, file);
    lemma_kept_concat(p, j2, m, file);
    lemma_without_concat(kept(p, m, file), kept(j1, m, file), "jargon"@);
    lemma_without_concat(kept(p, m, file), kept(j2, m, file), "jargon"@);
    lemma_kept_elems(j1, m, file);
    lemma_kept_elems(j2, m, file);
    assert forall|i: int| 0 <= i < kept(j1, m, file).len() implies (#[trigger] kept(j1, m, file)[i]).0 == "jargon"@ by {
        let j = choose|j: int|
            0 <= j < j1.len() && #[trigger] kept(j1, m, file)[i] == stamp(j1[j], file) && !spec_hit(m, j1[j].3, j1[j].0, j1[j].1);
    }
    assert forall|i: int| 0 <= i < kept(j2, m, file).len() implies (#[trigger] kept(j2, m, file)[i]).0 == "jargon"@ by {
        let j = choose|j: int|
            0 <= j < j2.len() && #[trigger] kept(j2, m, file)[i] == stamp(j2[j], file) && !spec_hit(m, j2[j].3, j2[j].0, j2[j].1);
    }
    lemma_without_all(kept(j1, m, file), "jargon"@);
    lemma_without_all(kept(j2, m, file), "jargon"@);
    assert(without_detector(kept(p, m, file), "jargon"@) + Seq::<FindingV>::empty() =~= without_detector(kept(p, m, file), "jargon"@));
}

/// No reported finding is one that the suppressions silence, and every one
/// carries the document's file.
pub proof fn lemma_reported_unsuppressed_and_stamped(
    file: Seq<char>,
    text: Seq<char>,
    raw: Seq<char>,
    m: Map<int, Option<Set<Seq<char>>>>,
    ctx: Ctx,
)
    ensures
        forall|i: int|
            0 <= i < spec_scan_document(file, text, raw, m, ctx).len() ==> !spec_hit(
                m,
                (#[trigger] spec_scan_document(file, text, raw, m, ctx)[i]).3,
                spec_scan_document(file, text, raw, m, ctx)[i].0,
                spec_scan_document(file, text, raw, m, ctx)[i].1,
            ) && spec_scan_document(file, text, raw, m, ctx)[i].2 == file,
{
    let a = raw_findings(text, raw, ctx);
    lemma_kept_elems(a, m, file);
    let r = spec_scan_document(file, text, raw, m, ctx);
    assert forall|i: int| 0 <= i < r.len() implies !spec_hit(m, (#[trigger] r[i]).3, r[i].0, r[i].1) && r[i].2 == file by {
        let j = choose|j: int| 0 <= j < a.len() && #[trigger] r[i] == stamp(a[j], file) && !spec_hit(m, a[j].3, a[j].0, a[j].1);
    }
}


proof fn lemma_names_deny()
    ensures
        "readability"@ != "deny"@,
        "calque"@ != "deny"@,
        "density"@ != "deny"@,
        "notation"@ != "deny"@,
        "completeness"@ != "deny"@,
        "counter"@ != "deny"@,
        "codemix"@ != "deny"@,
{
    reveal_strlit("deny");
    reveal_strlit("readability");
    reveal_strlit("calque");
    reveal_strlit("density");
    reveal_strlit("notation");
    reveal_strlit("completeness");
    reveal_strlit("counter");
    reveal_strlit("codemix");
    assert("readability"@[0] != "deny"@[0]);
    assert("calque"@[0] != "deny"@[0]);
    assert("density"@[3] != "deny"@[3]);
    assert("notation"@[0] != "deny"@[0]);
    assert("completeness"@[0] != "deny"@[0]);
    assert("counter"@[0] != "deny"@[0]);
    assert("codemix"@[0] != "deny"@[0]);
}

/// A deny finding is an error; a jargon finding is advisory.
pub open spec fn detector_graded(f: FindingV) -> bool {
    &&& (f.0 == "deny"@ ==> f.4 == "error"@)
    &&& (f.0 == "jargon"@ ==> f.4 == "advisory"@)
}

pub open spec fn all_graded(fs: Seq<FindingV>) -> bool {
    forall|i: int| 0 <= i < fs.len() ==> detector_graded(#[trigger] fs[i])
}

proof fn lemma_all_graded_concat(a: Seq<FindingV>, b: Seq<FindingV>)
    requires
        all_graded(a),
        all_graded(b),
    ensures
        all_graded(a + b),
{
    assert forall|i: int| 0 <= i < (a + b).len() implies detector_graded(#[trigger] (a + b)[i]) by {
        if i < a.len() {
            assert((a + b)[i] == a[i]);
        } else {
            assert((a + b)[i] == b[i - a.len()]);
        }
    }
}

proof fn lemma_only_detector(fs: Seq<FindingV>, d: Seq<char>)
    requires
        d != "deny"@,
        d != "jargon"@,
        forall|i: int| 0 <= i < fs.len() ==> (#[trigger] fs[i]).0 == d,
    ensures
        all_graded(fs),
{
    assert forall|i: int| 0 <= i < fs.len() implies detector_graded(#[trigger] fs[i]) by {
        assert(fs[i].0 == d);
    }
}

#[verifier::spinoff_prover]
#[verifier::rlimit(50)]
proof fn lemma_groups_graded(text: Seq<char>, raw: Seq<char>, ctx: Ctx)
    ensures
        all_graded(raw_findings(text, raw, ctx)),
{
    lemma_names();
    lemma_names_deny();
    let g1 = from_hits(crate::deny::spec_scan(text, pairs_view(ctx.user_deny@)), false);
    let g2 = from_hits(crate::deny::spec_scan(text, pairs_view(ctx.builtin_deny@)), true);
    let g3 = from_paras(spec_paragraphs(text, strings_view(ctx.exempt@)), fv(ctx.threshold));
    let g4 = from_vios(crate::kinoshita::spec_scan(text, ctx.max_sentence as int, ctx.max_ten as int), "readability"@);
    let g5 = from_vios(crate::rhetoric::spec_scan(text, strings_view(ctx.allow_set@), pairs_view(ctx.metaphor_lex@)), "rhetoric"@);
    let gy = from_vios(crate::rhythm::spec_scan(text), "rhythm"@);
    let g6 = from_vios(crate::structure::spec_scan(text), "structure"@);
    let g7 = from_calques(crate::calque::spec_scan(text));
    let g8 = from_density(crate::density::spec_scan(text));
    let g9 = from_plain(crate::notation::spec_scan(text), "notation"@);
    let g10 = from_plain(crate::completeness::spec_scan(text), "completeness"@);
    let g11 = from_plain(crate::counter::spec_scan_with(text, strings_view(ctx.counter_units@)), "counter"@);
    let jg = jargon_group(raw, text, ctx.register, strings_view(ctx.jargon_terms@));
    assert(raw_findings(text, raw, ctx) == g1 + g2 + g3 + g4 + g5 + gy + g6 + g7 + g8 + g9 + g10 + g11 + jg);
    lemma_from_paras_ok(spec_paragraphs(text, strings_view(ctx.exempt@)), fv(ctx.threshold));
    assert(all_graded(g1));
    assert(all_graded(g2));
    lemma_only_detector(g3, "codemix"@);
    lemma_only_detector(g4, "readability"@);
    lemma_only_detector(g5, "rhetoric"@);
    lemma_only_detector(gy, "rhythm"@);
    lemma_only_detector(g6, "structure"@);
    lemma_only_detector(g7, "calque"@);
    lemma_only_detector(g8, "density"@);
    lemma_only_detector(g9, "notation"@);
    lemma_only_detector(g10, "completeness"@);
    lemma_only_detector(g11, "counter"@);
    assert(all_graded(jg));
    lemma_all_graded_concat(g1, g2);
    lemma_all_graded_concat(g1 + g2, g3);
    lemma_all_graded_concat(g1 + g2 + g3, g4);
    lemma_all_graded_concat(g1 + g2 + g3 + g4, g5);
    lemma_all_graded_concat(g1 + g2 + g3 + g4 + g5, gy);
    lemma_all_graded_concat(g1 + g2 + g3 + g4 + g5 + gy, g6);
    lemma_all_graded_concat(g1 + g2 + g3 + g4 + g5 + gy + g6, g7);
    lemma_all_graded_concat(g1 + g2 + g3 + g4 + g5 + gy + g6 + g7, g8);
    lemma_all_graded_concat(g1 + g2 + g3 + g4 + g5 + gy + g6 + g7 + g8, g9);
    lemma_all_graded_concat(g1 + g2 + g3 + g4 + g5 + gy + g6 + g7 + g8 + g9, g10);
    lemma_all_graded_concat(g1 + g2 + g3 + g4 + g5 + gy + g6 + g7 + g8 + g9 + g10, g11);
    lemma_all_graded_concat(g1 + g2 + g3 + g4 + g5 + gy + g6 + g7 + g8 + g9 + g10 + g11, jg);
}

/// Severity by detector: every deny finding of a document is an error, and
/// every jargon-export finding is advisory and comes only under the practice
/// or consume register.
pub proof fn lemma_severity_by_detector(
    file: Seq<char>,
    text: Seq<char>,
    raw: Seq<char>,
    m: Map<int, Option<Set<Seq<char>>>>,
    ctx: Ctx,
)
    ensures
        forall|i: int|
            0 <= i < spec_scan_document(file, text, raw, m, ctx).len() ==> ({
                let f = #[trigger] spec_scan_document(file, text, raw, m, ctx)[i];
                &&& (f.0 == "deny"@ ==> f.4 == "error"@)
                &&& (f.0 == "jargon"@ ==> f.4 == "advisory"@ && ctx.register != Register::Internal)
            }),
{
    lemma_groups_graded(text, raw, ctx);
    let a = raw_findings(text, raw, ctx);
    lemma_kept_elems(a, m, file);
    let r = spec_scan_document(file, text, raw, m, ctx);
    if ctx.register == Register::Internal {
        lemma_internal_register_has_no_jargon(file, text, raw, m, ctx);
    }
    assert forall|i: int| 0 <= i < r.len() implies ({
        let f = #[trigger] r[i];
        &&& (f.0 == "deny"@ ==> f.4 == "error"@)
        &&& (f.0 == "jargon"@ ==> f.4 == "advisory"@ && ctx.register != Register::Internal)
    }) by {
        let j = choose|j: int| 0 <= j < a.len() && #[trigger] r[i] == stamp(a[j], file) && !spec_hit(m, a[j].3, a[j].0, a[j].1);
        assert(detector_graded(a[j]));
    }
}

} // verus!
