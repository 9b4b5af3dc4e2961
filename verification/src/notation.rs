// notation.rs — ledger notation leaking into reader-facing prose: arrows
// (→ ⇒ ⟹), a full-width ＝ joined to Japanese, and parentheticals packing
// three or more ・-joined items. All advisory.
use vstd::prelude::*;

use crate::prose::{clean_lines_chars, spec_clean_lines};
use crate::text::{
    chars_of, dec, lines_of, push_dec_str, seqs_of, slice_of, split_by, split_by_exec, split_lines, string_of, trim,
    trimmed,
};
use crate::unicode::{han, hiragana, is_han, is_hiragana, is_katakana, katakana};

verus! {

/// A piece of ledger notation.
pub struct Finding {
    pub line: usize,
    pub rule: &'static str,
    pub msg: String,
}

/// A finding's model: line, rule, message.
pub type FindV = (int, Seq<char>, Seq<char>);

pub open spec fn find_view(f: Finding) -> FindV {
    (f.line as int, f.rule@, f.msg@)
}

pub open spec fn finds_view(v: Seq<Finding>) -> Seq<FindV> {
    Seq::new(v.len(), |i: int| find_view(v[i]))
}

pub open spec fn is_arrow(c: char) -> bool {
    c == '→' || c == '⇒' || c == '⟹'
}

/// A hiragana, katakana or Han character.
pub open spec fn is_ja(c: char) -> bool {
    is_hiragana(c) || is_katakana(c) || is_han(c)
}

fn ja(c: char) -> (r: bool)
    ensures
        r == is_ja(c),
{
    hiragana(c) || katakana(c) || han(c)
}

pub open spec fn arrow_msg(a: char) -> Seq<char> {
    "ledger arrow 「"@ + seq![a]
        + "」 in reader-facing prose — write the transition in words (…から…へ／…の結果) or keep the notation only inside a table/code"@
}

/// The arrow findings of `s[i..]`.
pub open spec fn arrows_from(s: Seq<char>, i: int, line: int) -> Seq<FindV>
    decreases s.len() - i,
{
    if i < 0 || i >= s.len() {
        Seq::empty()
    } else if is_arrow(s[i]) {
        seq![(line, "arrow"@, arrow_msg(s[i]))] + arrows_from(s, i + 1, line)
    } else {
        arrows_from(s, i + 1, line)
    }
}

/// ＝ with a Japanese character on at least one side, at `p` (two characters).
pub open spec fn eq_at(s: Seq<char>, p: int) -> bool {
    0 <= p && p + 1 < s.len() && ((is_ja(s[p]) && s[p + 1] == '＝') || (s[p] == '＝' && is_ja(s[p + 1])))
}

/// Up to eight characters on each side of `s[start..end]`, with it.
pub open spec fn context_of(s: Seq<char>, start: int, end: int) -> Seq<char> {
    let b = if start >= 8 {
        start - 8
    } else {
        0
    };
    let e = if s.len() - end >= 8 {
        end + 8
    } else {
        s.len() as int
    };
    s.subrange(b, e)
}

pub open spec fn eq_msg(ctx: Seq<char>) -> Seq<char> {
    "ledger 「＝」 connector 「"@ + ctx + "」 — write 「とは」／「は…である」 instead of the ledger equals-sign shorthand"@
}

/// The full-width-equals findings of `s[i..]`, leftmost first, without overlap.
pub open spec fn eqs_from(s: Seq<char>, i: int, line: int) -> Seq<FindV>
    decreases s.len() - i,
{
    if i < 0 || i >= s.len() {
        Seq::empty()
    } else if eq_at(s, i) {
        seq![(line, "fullwidth-eq"@, eq_msg(context_of(s, i, i + 2)))] + eqs_from(s, i + 2, line)
    } else {
        eqs_from(s, i + 1, line)
    }
}

/// The first of `open`/`close` at or after `j`, or the end.
pub open spec fn next_bracket(s: Seq<char>, j: int, open: char, close: char) -> int
    decreases s.len() - j,
{
    if j < 0 || j >= s.len() || s[j] == open || s[j] == close {
        j
    } else {
        next_bracket(s, j + 1, open, close)
    }
}

/// A bracketed span with no bracket inside, opening at `p`: the position of its close.
pub open spec fn paren_at(s: Seq<char>, p: int, open: char, close: char) -> Option<int> {
    if 0 <= p < s.len() && s[p] == open {
        let q = next_bracket(s, p + 1, open, close);
        if q < s.len() && s[q] == close {
            Some(q)
        } else {
            None
        }
    } else {
        None
    }
}

/// The number of ・-separated items that are not blank.
pub open spec fn item_count(ps: Seq<Seq<char>>) -> nat
    decreases ps.len(),
{
    if ps.len() == 0 {
        0
    } else {
        item_count(ps.drop_last()) + if trim(ps.last()).len() > 0 {
            1nat
        } else {
            0nat
        }
    }
}

pub open spec fn paren_msg(n: nat, inner: Seq<char>) -> Seq<char> {
    "parenthetical 「・」-joined list of "@ + dec(n) + "+ items 「"@ + inner
        + "」 — write it as prose (A、B、C の3点) or an actual bullet list, not a packed aside"@
}

pub open spec fn paren_find(line: int, inner: Seq<char>) -> Seq<FindV> {
    let n = item_count(split_by(inner, '・'));
    if n >= 3 {
        seq![(line, "paren-nakaten"@, paren_msg(n, inner))]
    } else {
        Seq::empty()
    }
}

/// The packed-parenthetical findings of `s[i..]` for one bracket style.
pub open spec fn parens_from(s: Seq<char>, i: int, line: int, open: char, close: char) -> Seq<FindV>
    decreases s.len() - i,
{
    if i < 0 || i >= s.len() {
        Seq::empty()
    } else {
        match paren_at(s, i, open, close) {
            Some(q) => {
                proof {
                    lemma_next_bracket(s, i + 1, open, close);
                }
                paren_find(line, s.subrange(i + 1, q)) + parens_from(s, q + 1, line, open, close)
            },
            None => parens_from(s, i + 1, line, open, close),
        }
    }
}

pub proof fn lemma_next_bracket(s: Seq<char>, j: int, open: char, close: char)
    requires
        0 <= j <= s.len(),
    ensures
        j <= next_bracket(s, j, open, close) <= s.len(),
    decreases s.len() - j,
{
    if j < s.len() && s[j] != open && s[j] != close {
        lemma_next_bracket(s, j + 1, open, close);
    }
}

/// The findings of one line: arrows, then ＝, then （…） and (…) lists.
pub open spec fn line_finds(s: Seq<char>, line: int) -> Seq<FindV> {
    arrows_from(s, 0, line) + eqs_from(s, 0, line) + parens_from(s, 0, line, '（', '）') + parens_from(
        s,
        0,
        line,
        '(',
        ')',
    )
}

pub open spec fn lines_finds(ls: Seq<Seq<char>>, k: int) -> Seq<FindV>
    decreases k,
{
    if k <= 0 || k > ls.len() {
        Seq::empty()
    } else {
        lines_finds(ls, k - 1) + line_finds(ls[k - 1], k)
    }
}

/// Every piece of ledger notation in the prose of a document.
pub open spec fn spec_scan(text: Seq<char>) -> Seq<FindV> {
    let ls = lines_of(spec_clean_lines(text));
    lines_finds(ls, ls.len() as int)
}

fn push_find(out: &mut Vec<Finding>, line: usize, rule: &'static str, msg: String)
    ensures
        finds_view(final(out)@) == finds_view(old(out)@) + seq![(line as int, rule@, msg@)],
{
    let ghost v0 = finds_view(out@);
    out.push(Finding { line, rule, msg });
    assert(finds_view(out@) =~= v0 + seq![(line as int, rule@, msg@)]);
}

fn scan_arrows(s: &Vec<char>, line: usize, out: &mut Vec<Finding>)
    ensures
        finds_view(final(out)@) == finds_view(old(out)@) + arrows_from(s@, 0, line as int),
{
    let ghost v0 = finds_view(out@);
    let mut i: usize = 0;
    while i < s.len()
        invariant
            i <= s.len(),
            v0 + arrows_from(s@, 0, line as int) == finds_view(out@) + arrows_from(s@, i as int, line as int),
        decreases s.len() - i,
    {
        let c = s[i];
        if c == '→' || c == '⇒' || c == '⟹' {
            let mut m = String::new();
            m.append("ledger arrow 「");
            let cv = slice_of(s, i, i + 1);
            assert(cv@ =~= seq![c]);
            let cs = string_of(&cv);
            m.append(cs.as_str());
            m.append(
                "」 in reader-facing prose — write the transition in words (…から…へ／…の結果) or keep the notation only inside a table/code",
            );
            let ghost o0 = finds_view(out@);
            push_find(out, line, "arrow", m);
            assert(o0 + arrows_from(s@, i as int, line as int) =~= finds_view(out@) + arrows_from(
                s@,
                i + 1,
                line as int,
            ));
        }
        i = i + 1;
    }
    assert(finds_view(out@) + arrows_from(s@, i as int, line as int) =~= finds_view(out@));
}

fn context_chars(s: &Vec<char>, start: usize, end: usize) -> (r: Vec<char>)
    requires
        start <= end <= s.len(),
    ensures
        r@ == context_of(s@, start as int, end as int),
{
    let b = if start >= 8 {
        start - 8
    } else {
        0
    };
    let e = if s.len() - end >= 8 {
        end + 8
    } else {
        s.len()
    };
    slice_of(s, b, e)
}

/// The span `start..end` of `s` (character positions) with up to eight
/// characters on each side.
pub fn context(s: &str, start: usize, end: usize) -> (r: String)
    requires
        start <= end <= s@.len(),
    ensures
        r@ == context_of(s@, start as int, end as int),
{
    let v = chars_of(s);
    let c = context_chars(&v, start, end);
    string_of(&c)
}

fn scan_eqs(s: &Vec<char>, line: usize, out: &mut Vec<Finding>)
    ensures
        finds_view(final(out)@) == finds_view(old(out)@) + eqs_from(s@, 0, line as int),
{
    let ghost v0 = finds_view(out@);
    let mut i: usize = 0;
    while i < s.len()
        invariant
            i <= s.len(),
            v0 + eqs_from(s@, 0, line as int) == finds_view(out@) + eqs_from(s@, i as int, line as int),
        decreases s.len() - i,
    {
        if i + 1 < s.len() && ((ja(s[i]) && s[i + 1] == '＝') || (s[i] == '＝' && ja(s[i + 1]))) {
            let ctx = context_chars(s, i, i + 2);
            let mut m = String::new();
            m.append("ledger 「＝」 connector 「");
            let cs = string_of(&ctx);
            m.append(cs.as_str());
            m.append("」 — write 「とは」／「は…である」 instead of the ledger equals-sign shorthand");
            let ghost o0 = finds_view(out@);
            push_find(out, line, "fullwidth-eq", m);
            assert(o0 + eqs_from(s@, i as int, line as int) =~= finds_view(out@) + eqs_from(
                s@,
                i + 2,
                line as int,
            ));
            i = i + 2;
        } else {
            i = i + 1;
        }
    }
    assert(finds_view(out@) + eqs_from(s@, i as int, line as int) =~= finds_view(out@));
}

fn item_count_exec(ps: &Vec<Vec<char>>) -> (n: usize)
    ensures
        n == item_count(seqs_of(ps@)),
{
    let mut n: usize = 0;
    let mut k: usize = 0;
    while k < ps.len()
        invariant
            k <= ps.len(),
            n <= k,
            n == item_count(seqs_of(ps@).take(k as int)),
        decreases ps.len() - k,
    {
        proof {
            assert(seqs_of(ps@).take(k + 1).drop_last() =~= seqs_of(ps@).take(k as int));
        }
        let t = trimmed(&ps[k]);
        if t.len() > 0 {
            n = n + 1;
        }
        k = k + 1;
    }
    assert(seqs_of(ps@).take(ps.len() as int) =~= seqs_of(ps@));
    n
}

fn scan_parens(s: &Vec<char>, line: usize, open: char, close: char, out: &mut Vec<Finding>)
    ensures
        finds_view(final(out)@) == finds_view(old(out)@) + parens_from(s@, 0, line as int, open, close),
{
    let ghost v0 = finds_view(out@);
    let mut i: usize = 0;
    while i < s.len()
        invariant
            i <= s.len(),
            v0 + parens_from(s@, 0, line as int, open, close) == finds_view(out@) + parens_from(
                s@,
                i as int,
                line as int,
                open,
                close,
            ),
        decreases s.len() - i,
    {
        if s[i] == open {
            let mut q = i + 1;
            while q < s.len() && s[q] != open && s[q] != close
                invariant
                    i < q <= s.len(),
                    next_bracket(s@, i + 1, open, close) == next_bracket(s@, q as int, open, close),
                decreases s.len() - q,
            {
                q = q + 1;
            }
            if q < s.len() && s[q] == close {
                let inner = slice_of(s, i + 1, q);
                let ps = split_by_exec(&inner, '・');
                let n = item_count_exec(&ps);
                let ghost o0 = finds_view(out@);
                if n >= 3 {
                    let mut m = String::new();
                    m.append("parenthetical 「・」-joined list of ");
                    push_dec_str(&mut m, n);
                    m.append("+ items 「");
                    let is = string_of(&inner);
                    m.append(is.as_str());
                    m.append("」 — write it as prose (A、B、C の3点) or an actual bullet list, not a packed aside");
                    push_find(out, line, "paren-nakaten", m);
                }
                assert(o0 + parens_from(s@, i as int, line as int, open, close) =~= finds_view(out@) + parens_from(
                    s@,
                    q + 1,
                    line as int,
                    open,
                    close,
                ));
                i = q + 1;
                continue;
            }
        }
        i = i + 1;
    }
    assert(finds_view(out@) + parens_from(s@, i as int, line as int, open, close) =~= finds_view(out@));
}

/// Every piece of ledger notation in the prose (outside code, tables, headings
/// and URLs) of a document, line by line.
pub fn scan(text: &str) -> (r: Vec<Finding>)
    ensures
        finds_view(r@) == spec_scan(text@),
{
    let s = chars_of(text);
    let c = clean_lines_chars(&s);
    let ls = split_lines(&c);
    let ghost g = seqs_of(ls@);
    let mut out: Vec<Finding> = Vec::new();
    let mut i: usize = 0;
    assert(finds_view(out@) =~= Seq::<FindV>::empty());
    while i < ls.len()
        invariant
            i <= ls.len(),
            g == seqs_of(ls@),
            g == lines_of(spec_clean_lines(text@)),
            finds_view(out@) == lines_finds(g, i as int),
        decreases ls.len() - i,
    {
        let l = &ls[i];
        let ghost o0 = finds_view(out@);
        scan_arrows(l, i + 1, &mut out);
        scan_eqs(l, i + 1, &mut out);
        scan_parens(l, i + 1, '（', '）', &mut out);
        scan_parens(l, i + 1, '(', ')', &mut out);
        assert(finds_view(out@) =~= o0 + line_finds(g[i as int], i + 1));
        i = i + 1;
    }
    out
}

} // verus!
