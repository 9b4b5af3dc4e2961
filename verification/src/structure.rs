// structure.rs — fingerprints of templated layout: runs of bold-label bullets
// ("- **label**: ..."), a predicate with a colon leading into a list, runs of
// sentence-initial connectives, and the same opening repeated sentence after
// sentence. All advisory.
use vstd::prelude::*;

use crate::kinoshita::{
    conn_flush, connector_alts, connector_alts_vec, flush_conn, has_rule_at, is_connector, lemma_has_rule_concat, lemma_has_rule_sorted,
    lemma_no_rule, run_view,
};
use crate::prose::{sentences_of, sents_view, spec_sentences, spec_strip_fences, strip_fences_chars, SentV};
use crate::report::{all_advisory, lemma_all_advisory_concat, lemma_all_advisory_sorted, lemma_vios_push, one, push_vio, sort_violations, vio_view, vios_view, Severity, VioV, Violation};
use crate::text::{
    alt_len, alt_len_exec, chars_of, dec, lines_of, lines_sorted, push_dec_str, push_vec_str, seqs_of, slice_of,
    sort_by_line, split_lines, trim, trim_end, trimmed, trimmed_end, vec_eq,
};

verus! {

pub open spec fn is_blank_char(c: char) -> bool {
    c == ' ' || c == '\t'
}

/// End of the run of spaces and tabs from `j`.
pub open spec fn run_blank(s: Seq<char>, j: int) -> int
    decreases s.len() - j,
{
    if 0 <= j < s.len() && is_blank_char(s[j]) {
        run_blank(s, j + 1)
    } else {
        j
    }
}

/// End of the run of characters other than `*` from `j`.
pub open spec fn run_nonstar(s: Seq<char>, j: int) -> int
    decreases s.len() - j,
{
    if 0 <= j < s.len() && s[j] != '*' {
        run_nonstar(s, j + 1)
    } else {
        j
    }
}

pub open spec fn is_any_digit(c: char) -> bool {
    ('0' <= c <= '9') || ('０' <= c <= '９')
}

pub open spec fn run_any_digits(s: Seq<char>, j: int) -> int
    decreases s.len() - j,
{
    if 0 <= j < s.len() && is_any_digit(s[j]) {
        run_any_digits(s, j + 1)
    } else {
        j
    }
}

pub proof fn lemma_runs(s: Seq<char>, j: int)
    requires
        0 <= j <= s.len(),
    ensures
        j <= run_blank(s, j) <= s.len(),
        j <= run_nonstar(s, j) <= s.len(),
        j <= run_any_digits(s, j) <= s.len(),
    decreases s.len() - j,
{
    if j < s.len() {
        lemma_runs(s, j + 1);
    }
}

pub open spec fn is_bullet_mark(c: char) -> bool {
    c == '-' || c == '*' || c == '+'
}

/// A bold-label bullet: `- **label**:` (after optional indentation).
pub open spec fn is_template_bullet(l: Seq<char>) -> bool {
    let i = run_blank(l, 0);
    i + 4 < l.len() && is_bullet_mark(l[i]) && is_blank_char(l[i + 1]) && l[i + 2] == '*' && l[i + 3] == '*' && {
        let j = run_nonstar(l, i + 4);
        j > i + 4 && j + 2 < l.len() && l[j] == '*' && l[j + 1] == '*' && (l[j + 2] == ':' || l[j + 2] == '：')
    }
}

/// A predicate ending in a colon: a hiragana then `:` or `：` at the (trimmed) end.
pub open spec fn is_pred_colon(l: Seq<char>) -> bool {
    let t = trim_end(l);
    t.len() >= 2 && 'ぁ' <= t[t.len() - 2] && t[t.len() - 2] <= 'ん' && (t[t.len() - 1] == ':' || t[t.len() - 1]
        == '：')
}

/// A line opening a block: a bullet, ・, a numbered item, a fence, a quote or a table row.
pub open spec fn is_block_start(l: Seq<char>) -> bool {
    let j = run_blank(l, 0);
    j < l.len() && ((is_bullet_mark(l[j]) && j + 1 < l.len() && is_blank_char(l[j + 1])) || l[j] == '・' || {
        let d = run_any_digits(l, j);
        d > j && d < l.len() && (l[d] == '.' || l[d] == '．' || l[d] == ')')
    } || (j + 2 < l.len() && l[j] == '`' && l[j + 1] == '`' && l[j + 2] == '`') || l[j] == '>' || l[j] == '|')
}

pub open spec fn tpl_msg(n: nat) -> Seq<char> {
    "太字見出し＋コロンの箇条書きが "@ + dec(n) + " 連続 — LLM の定型 layout。散文か表を検討"@
}

pub open spec fn tpl_flush(run: Option<(int, int)>) -> Seq<VioV> {
    match run {
        Some((l, n)) => if n >= 3 {
            one(l, "bullet-template"@, Severity::Advisory, tpl_msg(n as nat))
        } else {
            Seq::empty()
        },
        None => Seq::empty(),
    }
}

/// Runs of bold-label bullets over the first `k` lines: the findings and the open run.
pub open spec fn tpl_fold(ls: Seq<Seq<char>>, k: int) -> (Seq<VioV>, Option<(int, int)>)
    decreases k,
{
    if k <= 0 || k > ls.len() {
        (Seq::empty(), None)
    } else {
        let st = tpl_fold(ls, k - 1);
        if is_template_bullet(ls[k - 1]) {
            (
                st.0,
                match st.1 {
                    Some((l, n)) => Some((l, n + 1)),
                    None => Some((k, 1int)),
                },
            )
        } else {
            (st.0 + tpl_flush(st.1), None)
        }
    }
}

/// The first non-blank line at or after `j`.
pub open spec fn next_nonblank(ls: Seq<Seq<char>>, j: int) -> Option<int>
    decreases ls.len() - j,
{
    if j < 0 || j >= ls.len() {
        None
    } else if trim(ls[j]).len() > 0 {
        Some(j)
    } else {
        next_nonblank(ls, j + 1)
    }
}

pub open spec fn colon_msg() -> Seq<char> {
    "述語＋コロンで箇条書きへ接続 — 英語の直訳調。「次の通り。」で切るか名詞で受ける"@
}

/// Lines among the first `k` that end a predicate with a colon and lead into a block.
pub open spec fn colon_fold(ls: Seq<Seq<char>>, k: int) -> Seq<VioV>
    decreases k,
{
    if k <= 0 || k > ls.len() {
        Seq::empty()
    } else {
        colon_fold(ls, k - 1) + if is_pred_colon(ls[k - 1]) && (next_nonblank(ls, k) matches Some(j)
            && is_block_start(ls[j])) {
            one(k, "colon-continuation"@, Severity::Advisory, colon_msg())
        } else {
            Seq::empty()
        }
    }
}

/// The first up to six characters before 、。！？.
pub open spec fn opener_from(s: Seq<char>, i: int) -> Seq<char>
    decreases s.len() - i,
{
    if i < 0 || i >= s.len() || i >= 6 || s[i] == '、' || s[i] == '。' || s[i] == '！' || s[i] == '？' {
        Seq::empty()
    } else {
        seq![s[i]] + opener_from(s, i + 1)
    }
}

pub open spec fn opener(s: Seq<char>) -> Seq<char> {
    opener_from(s, 0)
}

pub open spec fn starts_bullet(s: Seq<char>) -> bool {
    s.len() > 0 && (s[0] == '-' || s[0] == '*' || s[0] == '+' || s[0] == '・' || s[0] == '#')
}

/// A sentence whose opening can count toward a repetition.
pub open spec fn eligible(s: Seq<char>) -> bool {
    opener(s).len() >= 2 && !is_connector(s) && !starts_bullet(s)
}

pub open spec fn op_msg(prev: Seq<char>, n: nat) -> Seq<char> {
    "同じ書き出し「"@ + prev + "…」が "@ + dec(n) + " 文連続 — 構文を変える"@
}

pub open spec fn op_flush(run: Option<(Seq<char>, int, int)>) -> Seq<VioV> {
    match run {
        Some((prev, l, n)) => if n >= 3 {
            one(l, "opener-repetition"@, Severity::Advisory, op_msg(prev, n as nat))
        } else {
            Seq::empty()
        },
        None => Seq::empty(),
    }
}

/// The state over sentences: findings, the connective run, the opening run.
pub type SState = (Seq<VioV>, Option<(int, int)>, Option<(Seq<char>, int, int)>);

pub open spec fn s_step(st: SState, sv: SentV) -> SState {
    let line = sv.0;
    let s = sv.1;
    let vs1 = if is_connector(s) {
        st.0
    } else {
        st.0 + conn_flush(st.1)
    };
    let run1 = if is_connector(s) {
        match st.1 {
            Some((l, n)) => Some((l, n + 1)),
            None => Some((line, 1int)),
        }
    } else {
        None
    };
    let o = opener(s);
    let cont = eligible(s) && (st.2 matches Some((prev, _, _)) && prev == o);
    let vs2 = if cont {
        vs1
    } else {
        vs1 + op_flush(st.2)
    };
    let op2 = if cont {
        match st.2 {
            Some((prev, l, n)) => Some((prev, l, n + 1)),
            None => None,
        }
    } else if eligible(s) {
        Some((o, line, 1int))
    } else {
        None
    };
    (vs2, run1, op2)
}

pub open spec fn s_fold(ss: Seq<SentV>) -> SState
    decreases ss.len(),
{
    if ss.len() == 0 {
        (Seq::empty(), None, None)
    } else {
        s_step(s_fold(ss.drop_last()), ss.last())
    }
}

/// Every structural fingerprint of a document, stably ordered by line.
pub open spec fn spec_scan(text: Seq<char>) -> Seq<VioV> {
    let ls = lines_of(spec_strip_fences(text));
    let t = tpl_fold(ls, ls.len() as int);
    let st = s_fold(spec_sentences(text));
    sort_by_line(t.0 + tpl_flush(t.1) + colon_fold(ls, ls.len() as int) + st.0 + conn_flush(st.1) + op_flush(st.2))
}

fn run_blank_exec(s: &Vec<char>, j: usize) -> (e: usize)
    requires
        j <= s.len(),
    ensures
        e == run_blank(s@, j as int),
        j <= e <= s.len(),
{
    let mut e = j;
    while e < s.len() && (s[e] == ' ' || s[e] == '\t')
        invariant
            j <= e <= s.len(),
            run_blank(s@, j as int) == run_blank(s@, e as int),
        decreases s.len() - e,
    {
        e = e + 1;
    }
    e
}

fn template_bullet(l: &Vec<char>) -> (r: bool)
    ensures
        r == is_template_bullet(l@),
{
    let i = run_blank_exec(l, 0);
    if !(i < l.len() && l.len() - i > 4) {
        return false;
    }
    if !((l[i] == '-' || l[i] == '*' || l[i] == '+') && (l[i + 1] == ' ' || l[i + 1] == '\t') && l[i + 2] == '*'
        && l[i + 3] == '*') {
        return false;
    }
    let mut j = i + 4;
    while j < l.len() && l[j] != '*'
        invariant
            i + 4 <= j <= l.len(),
            run_nonstar(l@, i + 4) == run_nonstar(l@, j as int),
        decreases l.len() - j,
    {
        j = j + 1;
    }
    j > i + 4 && j < l.len() && l.len() - j > 2 && l[j] == '*' && l[j + 1] == '*' && (l[j + 2] == ':' || l[j + 2]
        == '：')
}

fn pred_colon(l: &Vec<char>) -> (r: bool)
    ensures
        r == is_pred_colon(l@),
{
    let t = trimmed_end(l);
    if t.len() < 2 {
        return false;
    }
    let c = t[t.len() - 2];
    let d = t[t.len() - 1];
    'ぁ' <= c && c <= 'ん' && (d == ':' || d == '：')
}

fn block_start(l: &Vec<char>) -> (r: bool)
    ensures
        r == is_block_start(l@),
{
    let j = run_blank_exec(l, 0);
    if j >= l.len() {
        return false;
    }
    let c = l[j];
    if (c == '-' || c == '*' || c == '+') && j + 1 < l.len() && (l[j + 1] == ' ' || l[j + 1] == '\t') {
        return true;
    }
    if c == '・' || c == '>' || c == '|' {
        return true;
    }
    let mut d = j;
    while d < l.len() && (('0' <= l[d] && l[d] <= '9') || ('０' <= l[d] && l[d] <= '９'))
        invariant
            j <= d <= l.len(),
            run_any_digits(l@, j as int) == run_any_digits(l@, d as int),
        decreases l.len() - d,
    {
        d = d + 1;
    }
    if d > j && d < l.len() && (l[d] == '.' || l[d] == '．' || l[d] == ')') {
        return true;
    }
    l.len() - j > 2 && l[j] == '`' && l[j + 1] == '`' && l[j + 2] == '`'
}

fn flush_tpl(out: &mut Vec<Violation>, run: Option<(usize, usize)>)
    ensures
        vios_view(final(out)@) == vios_view(old(out)@) + tpl_flush(run_view(run)),
{
    match run {
        Some((l, n)) => {
            if n >= 3 {
                let mut m = String::new();
                m.append("太字見出し＋コロンの箇条書きが ");
                push_dec_str(&mut m, n);
                m.append(" 連続 — LLM の定型 layout。散文か表を検討");
                push_vio(out, l, "bullet-template", Severity::Advisory, m);
            } else {
                assert(vios_view(out@) =~= vios_view(out@) + Seq::<VioV>::empty());
            }
        },
        None => {
            assert(vios_view(out@) =~= vios_view(out@) + Seq::<VioV>::empty());
        },
    }
}

fn opener_exec(s: &Vec<char>) -> (r: Vec<char>)
    ensures
        r@ == opener(s@),
{
    let mut e: usize = 0;
    while e < s.len() && e < 6 && s[e] != '、' && s[e] != '。' && s[e] != '！' && s[e] != '？'
        invariant
            e <= s.len(),
            e <= 6,
            opener(s@) == s@.subrange(0, e as int) + opener_from(s@, e as int),
        decreases s.len() - e,
    {
        assert(s@.subrange(0, e + 1) =~= s@.subrange(0, e as int) + seq![s@[e as int]]);
        e = e + 1;
    }
    assert(opener(s@) =~= s@.subrange(0, e as int));
    slice_of(s, 0, e)
}

pub open spec fn op_view(r: Option<(Vec<char>, usize, usize)>) -> Option<(Seq<char>, int, int)> {
    match r {
        Some((p, l, n)) => Some((p@, l as int, n as int)),
        None => None,
    }
}

fn flush_op(out: &mut Vec<Violation>, run: &Option<(Vec<char>, usize, usize)>)
    ensures
        vios_view(final(out)@) == vios_view(old(out)@) + op_flush(op_view(*run)),
{
    match run {
        Some((prev, l, n)) => {
            if *n >= 3 {
                let mut m = String::new();
                m.append("同じ書き出し「");
                push_vec_str(&mut m, prev);
                m.append("…」が ");
                push_dec_str(&mut m, *n);
                m.append(" 文連続 — 構文を変える");
                push_vio(out, *l, "opener-repetition", Severity::Advisory, m);
            } else {
                assert(vios_view(out@) =~= vios_view(out@) + Seq::<VioV>::empty());
            }
        },
        None => {
            assert(vios_view(out@) =~= vios_view(out@) + Seq::<VioV>::empty());
        },
    }
}

fn line_findings(s: &Vec<char>, out: &mut Vec<Violation>)
    ensures
        ({
            let ls = lines_of(spec_strip_fences(s@));
            let t = tpl_fold(ls, ls.len() as int);
            vios_view(final(out)@) == vios_view(old(out)@) + t.0 + tpl_flush(t.1) + colon_fold(ls, ls.len() as int)
        }),
{
    let d = strip_fences_chars(s);
    let ls = split_lines(&d);
    let ghost g = seqs_of(ls@);
    let ghost v0 = vios_view(out@);
    let mut run: Option<(usize, usize)> = None;
    let mut i: usize = 0;
    assert(vios_view(out@) =~= v0 + Seq::<VioV>::empty());
    while i < ls.len()
        invariant
            i <= ls.len(),
            g == seqs_of(ls@),
            g == lines_of(spec_strip_fences(s@)),
            match run {
                Some((l, n)) => n <= i,
                None => true,
            },
            vios_view(out@) == v0 + tpl_fold(g, i as int).0,
            run_view(run) == tpl_fold(g, i as int).1,
        decreases ls.len() - i,
    {
        if template_bullet(&ls[i]) {
            run = match run {
                Some((l, n)) => Some((l, n + 1)),
                None => Some((i + 1, 1)),
            };
        } else {
            flush_tpl(out, run);
            run = None;
        }
        i = i + 1;
    }
    flush_tpl(out, run);
    let ghost v1 = vios_view(out@);
    let mut i: usize = 0;
    assert(vios_view(out@) =~= v1 + colon_fold(g, 0));
    while i < ls.len()
        invariant
            i <= ls.len(),
            g == seqs_of(ls@),
            vios_view(out@) == v1 + colon_fold(g, i as int),
        decreases ls.len() - i,
    {
        let ghost o0 = vios_view(out@);
        if pred_colon(&ls[i]) {
            let mut j = i + 1;
            while j < ls.len() && trimmed(&ls[j]).len() == 0
                invariant
                    i + 1 <= j <= ls.len(),
                    g == seqs_of(ls@),
                    next_nonblank(g, i + 1) == next_nonblank(g, j as int),
                decreases ls.len() - j,
            {
                j = j + 1;
            }
            if j < ls.len() && block_start(&ls[j]) {
                let mut m = String::new();
                m.append("述語＋コロンで箇条書きへ接続 — 英語の直訳調。「次の通り。」で切るか名詞で受ける");
                push_vio(out, i + 1, "colon-continuation", Severity::Advisory, m);
            } else {
                assert(vios_view(out@) =~= o0 + Seq::<VioV>::empty());
            }
        } else {
            assert(vios_view(out@) =~= o0 + Seq::<VioV>::empty());
        }
        i = i + 1;
    }
}

fn sentence_findings(s: &Vec<char>, out: &mut Vec<Violation>)
    ensures
        ({
            let st = s_fold(spec_sentences(s@));
            vios_view(final(out)@) == vios_view(old(out)@) + st.0 + conn_flush(st.1) + op_flush(st.2)
        }),
{
    let sents = sentences_of(s);
    let ghost ss = sents_view(sents@);
    let ghost v0 = vios_view(out@);
    let cv = connector_alts_vec();
    let mut run: Option<(usize, usize)> = None;
    let mut op: Option<(Vec<char>, usize, usize)> = None;
    let mut k: usize = 0;
    assert(ss.take(0) =~= Seq::<SentV>::empty());
    assert(vios_view(out@) =~= v0 + Seq::<VioV>::empty());
    while k < sents.len()
        invariant
            k <= sents.len(),
            ss == sents_view(sents@),
            ss == spec_sentences(s@),
            seqs_of(cv@) == connector_alts(),
            match run {
                Some((l, n)) => n <= k,
                None => true,
            },
            match op {
                Some((p, l, n)) => n <= k,
                None => true,
            },
            vios_view(out@) == v0 + s_fold(ss.take(k as int)).0,
            run_view(run) == s_fold(ss.take(k as int)).1,
            op_view(op) == s_fold(ss.take(k as int)).2,
        decreases sents.len() - k,
    {
        let line = sents[k].0;
        let t = &sents[k].1;
        proof {
            assert(ss.take(k + 1).drop_last() =~= ss.take(k as int));
            assert(ss.take(k + 1).last() == (line as int, t@));
        }
        let conn = alt_len_exec(t, 0, &cv) > 0;
        if conn {
            run = match run {
                Some((l, n)) => Some((l, n + 1)),
                None => Some((line, 1)),
            };
        } else {
            flush_conn(out, run);
            run = None;
        }
        let o = opener_exec(t);
        let b = t.len() > 0 && (t[0] == '-' || t[0] == '*' || t[0] == '+' || t[0] == '・' || t[0] == '#');
        let elig = o.len() >= 2 && !conn && !b;
        let cont = elig && match &op {
            Some((prev, _, _)) => vec_eq(prev, &o),
            None => false,
        };
        if cont {
            op = match op {
                Some((p, l, n)) => Some((p, l, n + 1)),
                None => None,
            };
        } else {
            flush_op(out, &op);
            if elig {
                op = Some((o, line, 1));
            } else {
                op = None;
            }
        }
        k = k + 1;
    }
    assert(ss.take(k as int) =~= ss);
    flush_conn(out, run);
    flush_op(out, &op);
}

/// Every structural fingerprint of a document (bold-label bullet runs,
/// predicate-colon lead-ins, connective runs, repeated openings), stably
/// ordered by line.
pub fn scan(text: &str) -> (r: Vec<Violation>)
    ensures
        vios_view(r@) == spec_scan(text@),
        lines_sorted(vios_view(r@)),
{
    let s = chars_of(text);
    let mut v: Vec<Violation> = Vec::new();
    assert(vios_view(v@) =~= Seq::<VioV>::empty());
    line_findings(&s, &mut v);
    sentence_findings(&s, &mut v);
    let ghost pre = vios_view(v@);
    proof {
        let ls = lines_of(spec_strip_fences(s@));
        let t = tpl_fold(ls, ls.len() as int);
        let st = s_fold(spec_sentences(s@));
        assert(pre =~= t.0 + tpl_flush(t.1) + colon_fold(ls, ls.len() as int) + st.0 + conn_flush(st.1) + op_flush(
            st.2,
        ));
    }
    sort_violations(v)
}


proof fn lemma_tpl_fold_advisory(ls: Seq<Seq<char>>, k: int)
    ensures
        all_advisory(tpl_fold(ls, k).0),
    decreases k,
{
    if 0 < k <= ls.len() {
        lemma_tpl_fold_advisory(ls, k - 1);
        let st = tpl_fold(ls, k - 1);
        lemma_all_advisory_concat(st.0, tpl_flush(st.1));
    }
}

proof fn lemma_colon_fold_advisory(ls: Seq<Seq<char>>, k: int)
    ensures
        all_advisory(colon_fold(ls, k)),
    decreases k,
{
    if 0 < k <= ls.len() {
        lemma_colon_fold_advisory(ls, k - 1);
        lemma_all_advisory_concat(colon_fold(ls, k - 1), one(k, "colon-continuation"@, Severity::Advisory, colon_msg()));
        lemma_all_advisory_concat(colon_fold(ls, k - 1), Seq::empty());
    }
}

proof fn lemma_s_fold_advisory(ss: Seq<SentV>)
    ensures
        all_advisory(s_fold(ss).0),
    decreases ss.len(),
{
    if ss.len() > 0 {
        lemma_s_fold_advisory(ss.drop_last());
        let st = s_fold(ss.drop_last());
        lemma_all_advisory_concat(st.0, conn_flush(st.1));
        let vs1 = if is_connector(ss.last().1) {
            st.0
        } else {
            st.0 + conn_flush(st.1)
        };
        lemma_all_advisory_concat(vs1, op_flush(st.2));
    }
}

/// Every structural finding is advisory: these are layout fingerprints for
/// the judge, never a blocking verdict.
pub proof fn lemma_all_advisory(text: Seq<char>)
    ensures
        all_advisory(spec_scan(text)),
{
    let ls = lines_of(spec_strip_fences(text));
    let t = tpl_fold(ls, ls.len() as int);
    let st = s_fold(spec_sentences(text));
    lemma_tpl_fold_advisory(ls, ls.len() as int);
    lemma_colon_fold_advisory(ls, ls.len() as int);
    lemma_s_fold_advisory(spec_sentences(text));
    let a = t.0 + tpl_flush(t.1);
    lemma_all_advisory_concat(t.0, tpl_flush(t.1));
    lemma_all_advisory_concat(a, colon_fold(ls, ls.len() as int));
    let b = a + colon_fold(ls, ls.len() as int);
    lemma_all_advisory_concat(b, st.0);
    lemma_all_advisory_concat(b + st.0, conn_flush(st.1));
    lemma_all_advisory_concat(b + st.0 + conn_flush(st.1), op_flush(st.2));
    lemma_all_advisory_sorted(b + st.0 + conn_flush(st.1) + op_flush(st.2));
}

// ---------------------------------------------------------------------------
// The law of the colon lead-in.

/// Line `m` (0-based) of `ls` ends, trailing white space aside, in a hiragana
/// and a colon, half-width `:` or full-width `：` alike, and the next
/// non-blank line opens a block.
pub open spec fn colon_lead_in(ls: Seq<Seq<char>>, m: int) -> bool {
    let t = trim_end(ls[m]);
    &&& t.len() >= 2
    &&& 'ぁ' <= t[t.len() - 2] && t[t.len() - 2] <= 'ん'
    &&& (t[t.len() - 1] == ':' || t[t.len() - 1] == '：')
    &&& next_nonblank(ls, m + 1) matches Some(j) && is_block_start(ls[j])
}

proof fn lemma_colon_names()
    ensures
        "colon-continuation"@ != "bullet-template"@,
        "colon-continuation"@ != "connector-pileup"@,
        "colon-continuation"@ != "opener-repetition"@,
{
    reveal_strlit("colon-continuation");
    reveal_strlit("bullet-template");
    reveal_strlit("connector-pileup");
    reveal_strlit("opener-repetition");
    assert("colon-continuation"@[0] != "bullet-template"@[0]);
    assert("colon-continuation"@[2] != "connector-pileup"@[2]);
    assert("colon-continuation"@[0] != "opener-repetition"@[0]);
}

proof fn lemma_tpl_fold_names(ls: Seq<Seq<char>>, k: int)
    ensures
        forall|i: int| 0 <= i < tpl_fold(ls, k).0.len() ==> (#[trigger] tpl_fold(ls, k).0[i]).1.0 == "bullet-template"@,
    decreases k,
{
    if 0 < k <= ls.len() {
        lemma_tpl_fold_names(ls, k - 1);
        let st = tpl_fold(ls, k - 1);
        let f = tpl_flush(st.1);
        let v = st.0 + f;
        assert forall|i: int| 0 <= i < v.len() implies (#[trigger] v[i]).1.0 == "bullet-template"@ by {
            if i < st.0.len() {
                assert(v[i] == st.0[i]);
            } else {
                assert(v[i] == f[i - st.0.len()]);
            }
        }
    }
}

proof fn lemma_s_fold_names(ss: Seq<SentV>)
    ensures
        forall|i: int|
            0 <= i < s_fold(ss).0.len() ==> (#[trigger] s_fold(ss).0[i]).1.0 == "connector-pileup"@ || s_fold(ss).0[i].1.0
                == "opener-repetition"@,
    decreases ss.len(),
{
    if ss.len() > 0 {
        lemma_s_fold_names(ss.drop_last());
        let st = s_fold(ss.drop_last());
        let x = ss.last();
        let c = conn_flush(st.1);
        let o = op_flush(st.2);
        let v1 = st.0 + c;
        let v2 = st.0 + o;
        let v3 = st.0 + c + o;
        assert forall|i: int| 0 <= i < v3.len() implies (#[trigger] v3[i]).1.0 == "connector-pileup"@ || v3[i].1.0
            == "opener-repetition"@ by {
            if i < st.0.len() {
                assert(v3[i] == st.0[i]);
            } else if i < st.0.len() + c.len() {
                assert(v3[i] == c[i - st.0.len()]);
            } else {
                assert(v3[i] == o[i - st.0.len() - c.len()]);
            }
        }
        assert forall|i: int| 0 <= i < v1.len() implies (#[trigger] v1[i]).1.0 == "connector-pileup"@ || v1[i].1.0
            == "opener-repetition"@ by {
            if i < st.0.len() {
                assert(v1[i] == st.0[i]);
            } else {
                assert(v1[i] == c[i - st.0.len()]);
            }
        }
        assert forall|i: int| 0 <= i < v2.len() implies (#[trigger] v2[i]).1.0 == "connector-pileup"@ || v2[i].1.0
            == "opener-repetition"@ by {
            if i < st.0.len() {
                assert(v2[i] == st.0[i]);
            } else {
                assert(v2[i] == o[i - st.0.len()]);
            }
        }
    }
}

proof fn lemma_colon_fold_law(ls: Seq<Seq<char>>, k: int, l: int)
    requires
        0 <= k <= ls.len(),
    ensures
        has_rule_at(colon_fold(ls, k), l, "colon-continuation"@) <==> exists|m: int|
            0 <= m < k && l == m + 1 && #[trigger] colon_lead_in(ls, m),
    decreases k,
{
    if k > 0 {
        lemma_colon_fold_law(ls, k - 1, l);
        let prev = colon_fold(ls, k - 1);
        let f = if is_pred_colon(ls[k - 1]) && (next_nonblank(ls, k) matches Some(j) && is_block_start(ls[j])) {
            one(k, "colon-continuation"@, Severity::Advisory, colon_msg())
        } else {
            Seq::<VioV>::empty()
        };
        assert(colon_fold(ls, k) == prev + f);
        lemma_has_rule_concat(prev, f, l, "colon-continuation"@);
        assert(is_pred_colon(ls[k - 1]) && (next_nonblank(ls, k) matches Some(j) && is_block_start(ls[j]))
            <==> colon_lead_in(ls, k - 1));
        if has_rule_at(f, l, "colon-continuation"@) {
            assert(f[0].0 == k);
            assert(colon_lead_in(ls, k - 1));
        }
        if colon_lead_in(ls, k - 1) && l == k {
            assert(f[0].0 == l && f[0].1.0 == "colon-continuation"@);
        }
        if exists|m: int| 0 <= m < k && l == m + 1 && #[trigger] colon_lead_in(ls, m) {
            let m = choose|m: int| 0 <= m < k && l == m + 1 && #[trigger] colon_lead_in(ls, m);
            if m < k - 1 {
                assert(exists|m2: int| 0 <= m2 < k - 1 && l == m2 + 1 && #[trigger] colon_lead_in(ls, m2));
            }
        }
    }
}

/// The colon lead-in law: the structure report has a colon-continuation
/// finding on line `l` exactly when line `l` of the (fence-stripped) text
/// ends in a hiragana and a colon, `:` and `：` alike, and the next non-blank
/// line opens a block.
pub proof fn lemma_colon_continuation_law(text: Seq<char>)
    ensures
        forall|l: int|
            #[trigger] has_rule_at(spec_scan(text), l, "colon-continuation"@) <==> exists|m: int|
                0 <= m < lines_of(spec_strip_fences(text)).len() && l == m + 1 && #[trigger] colon_lead_in(
                    lines_of(spec_strip_fences(text)),
                    m,
                ),
{
    let cc = "colon-continuation"@;
    let ls = lines_of(spec_strip_fences(text));
    let t = tpl_fold(ls, ls.len() as int);
    let st = s_fold(spec_sentences(text));
    let a = t.0;
    let b = tpl_flush(t.1);
    let c = colon_fold(ls, ls.len() as int);
    let d = st.0;
    let e = conn_flush(st.1);
    let g = op_flush(st.2);
    lemma_colon_names();
    lemma_tpl_fold_names(ls, ls.len() as int);
    lemma_s_fold_names(spec_sentences(text));
    assert forall|l: int| #[trigger] has_rule_at(spec_scan(text), l, cc) <==> exists|m: int|
        0 <= m < ls.len() && l == m + 1 && #[trigger] colon_lead_in(ls, m) by {
        lemma_no_rule(a, l, cc);
        lemma_no_rule(b, l, cc);
        lemma_no_rule(d, l, cc);
        lemma_no_rule(e, l, cc);
        lemma_no_rule(g, l, cc);
        lemma_colon_fold_law(ls, ls.len() as int, l);
        lemma_has_rule_concat(a, b, l, cc);
        lemma_has_rule_concat(a + b, c, l, cc);
        lemma_has_rule_concat(a + b + c, d, l, cc);
        lemma_has_rule_concat(a + b + c + d, e, l, cc);
        lemma_has_rule_concat(a + b + c + d + e, g, l, cc);
        lemma_has_rule_sorted(a + b + c + d + e + g, l, cc);
    }
}

} // verus!
