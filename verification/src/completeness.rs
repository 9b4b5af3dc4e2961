// completeness.rs — does each prose unit end like a sentence? A paragraph
// (or each item of a bullet group) of eight characters or more that does not
// close with a terminator or a closing bracket or quote is reported (advisory).
use vstd::prelude::*;

use crate::prose::{lemma_prose_units_bound, prose_units, prose_units_view, spec_prose_units, UnitV};
use crate::text::{
    chars_of, lines_of, lemma_split_nl_len, lemma_count_char_le, seqs_of, slice_of, split_lines, split_nl, string_of,
    trim, trim_end, trimmed, trimmed_end,
};

verus! {

/// An unterminated prose unit.
pub struct Finding {
    pub line: usize,
    pub rule: &'static str,
    pub msg: String,
}

/// A finding's model: line, rule, message.
pub type FindV = (int, Seq<char>, Seq<char>);

pub open spec fn find_view(f: Finding) -> FindV {
    (f.line as int, f.rule@, f.msg@)
}

pub open spec fn finds_view(v: Seq<Finding>) -> Seq<FindV> {
    Seq::new(v.len(), |i: int| find_view(v[i]))
}

/// Trailing emphasis and spacing that does not count as the end of a sentence.
pub open spec fn is_end_mark(c: char) -> bool {
    c == '*' || c == '_' || c == '`' || c == ' ' || c == '\t'
}

pub open spec fn strip_end_marks(s: Seq<char>) -> Seq<char>
    decreases s.len(),
{
    if s.len() > 0 && is_end_mark(s.last()) {
        strip_end_marks(s.drop_last())
    } else {
        s
    }
}

/// Characters that close a sentence: 。？！ and closing brackets and quotes.
pub open spec fn is_closing(c: char) -> bool {
    c == '。' || c == '？' || c == '！' || c == '」' || c == '』' || c == '）' || c == ')' || c == '"' || c == '\''
}

/// `s` ends like a sentence (an empty string counts as ended).
pub open spec fn terminated(s: Seq<char>) -> bool {
    let t = strip_end_marks(trim_end(s));
    t.len() == 0 || is_closing(t.last())
}

/// The last `n` characters of `s`.
pub open spec fn tail_of(s: Seq<char>, n: int) -> Seq<char> {
    if s.len() <= n {
        s
    } else {
        s.subrange(s.len() - n, s.len() as int)
    }
}

/// Shortest unit that is checked.
pub open spec fn min_chars() -> int {
    8
}

pub open spec fn unterminated_msg(content: Seq<char>) -> Seq<char> {
    "prose unit does not end in a sentence terminator (。？！」等) 「…"@ + tail_of(content, 20)
        + "」 — close the sentence, or if this is a ledger-style noun-phrase label, judge confirms it's legitimate"@
}

/// The finding for one unit or item, if it is long enough and unterminated.
pub open spec fn check_spec(content: Seq<char>, line: int) -> Seq<FindV> {
    if content.len() >= min_chars() && !terminated(content) {
        seq![(line, "unterminated-prose"@, unterminated_msg(content))]
    } else {
        Seq::empty()
    }
}

/// The findings of the first `k` items of a bullet group starting on `line0`.
pub open spec fn bullet_checks(ls: Seq<Seq<char>>, line0: int, k: int) -> Seq<FindV>
    decreases k,
{
    if k <= 0 || k > ls.len() {
        Seq::empty()
    } else {
        let c = trim(ls[k - 1]);
        bullet_checks(ls, line0, k - 1) + if c.len() > 0 {
            check_spec(c, line0 + k - 1)
        } else {
            Seq::empty()
        }
    }
}

/// A bullet group is checked item by item; a paragraph as a whole.
pub open spec fn unit_checks(u: UnitV) -> Seq<FindV> {
    if u.2 {
        let ls = lines_of(u.1);
        bullet_checks(ls, u.0, ls.len() as int)
    } else {
        let c = trim(u.1);
        if c.len() > 0 {
            check_spec(c, u.0)
        } else {
            Seq::empty()
        }
    }
}

pub open spec fn units_checks(us: Seq<UnitV>, k: int) -> Seq<FindV>
    decreases k,
{
    if k <= 0 || k > us.len() {
        Seq::empty()
    } else {
        units_checks(us, k - 1) + unit_checks(us[k - 1])
    }
}

/// Every unterminated prose unit of a document.
pub open spec fn spec_scan(text: Seq<char>) -> Seq<FindV> {
    let us = spec_prose_units(text);
    units_checks(us, us.len() as int)
}

fn terminated_chars(s: &Vec<char>) -> (r: bool)
    ensures
        r == terminated(s@),
{
    let t = trimmed_end(s);
    let mut e = t.len();
    assert(t@.subrange(0, t.len() as int) =~= t@);
    while e > 0 && (t[e - 1] == '*' || t[e - 1] == '_' || t[e - 1] == '`' || t[e - 1] == ' ' || t[e - 1] == '\t')
        invariant
            e <= t.len(),
            strip_end_marks(t@) == strip_end_marks(t@.subrange(0, e as int)),
        decreases e,
    {
        assert(t@.subrange(0, e as int).drop_last() =~= t@.subrange(0, e - 1));
        e = e - 1;
    }
    if e == 0 {
        return true;
    }
    let c = t[e - 1];
    c == '。' || c == '？' || c == '！' || c == '」' || c == '』' || c == '）' || c == ')' || c == '"' || c == '\''
}

/// Whether `s` ends like a sentence: after trailing spaces and `*`, `_`, `` ` ``,
/// its last character is 。？！」』）) or a quote (an empty string counts as ended).
pub fn is_terminated(s: &str) -> (r: bool)
    ensures
        r == terminated(s@),
{
    let v = chars_of(s);
    terminated_chars(&v)
}

/// The last `n` characters of `s`.
pub fn tail(s: &str, n: usize) -> (r: String)
    ensures
        r@ == tail_of(s@, n as int),
{
    let v = chars_of(s);
    let start = if v.len() > n {
        v.len() - n
    } else {
        0
    };
    let w = slice_of(&v, start, v.len());
    assert(v.len() <= n ==> w@ =~= v@);
    string_of(&w)
}

fn check(content: &Vec<char>, line: usize, out: &mut Vec<Finding>)
    ensures
        finds_view(final(out)@) == finds_view(old(out)@) + check_spec(content@, line as int),
{
    let ghost v0 = finds_view(out@);
    if content.len() >= 8 && !terminated_chars(content) {
        let mut m = String::new();
        m.append("prose unit does not end in a sentence terminator (。？！」等) 「…");
        let start = if content.len() > 20 {
            content.len() - 20
        } else {
            0
        };
        let w = slice_of(content, start, content.len());
        assert(content.len() <= 20 ==> w@ =~= content@);
        let ws = string_of(&w);
        m.append(ws.as_str());
        m.append(
            "」 — close the sentence, or if this is a ledger-style noun-phrase label, judge confirms it's legitimate",
        );
        out.push(Finding { line, rule: "unterminated-prose", msg: m });
        assert(finds_view(out@) =~= v0 + check_spec(content@, line as int));
    } else {
        assert(finds_view(out@) =~= v0 + check_spec(content@, line as int));
    }
}

/// Every prose unit of eight characters or more that does not end like a
/// sentence: paragraphs as a whole (reported at their first line), bullet
/// groups item by item.
pub fn scan(text: &str) -> (r: Vec<Finding>)
    requires
        2 * text@.len() + 2 <= usize::MAX,
    ensures
        finds_view(r@) == spec_scan(text@),
{
    let us = prose_units(text);
    let ghost g = spec_prose_units(text@);
    proof {
        lemma_prose_units_bound(text@);
    }
    let mut out: Vec<Finding> = Vec::new();
    let mut k: usize = 0;
    assert(finds_view(out@) =~= Seq::<FindV>::empty());
    while k < us.len()
        invariant
            k <= us.len(),
            g == prose_units_view(us@),
            2 * text@.len() + 2 <= usize::MAX,
            forall|j: int| 0 <= j < g.len() ==> 1 <= (#[trigger] g[j]).0 <= text@.len() + 1 && g[j].1.len() <= text@.len(),
            finds_view(out@) == units_checks(g, k as int),
        decreases us.len() - k,
    {
        let u = &us[k];
        assert(g[k as int] == (u.line as int, u.text@, u.is_bullet));
        let t = chars_of(u.text.as_str());
        let ghost before = finds_view(out@);
        if u.is_bullet {
            let ls = split_lines(&t);
            let ghost gl = seqs_of(ls@);
            proof {
                lemma_split_nl_len(t@);
                lemma_count_char_le(t@, '\n');
                assert(lines_of(t@).len() <= split_nl(t@).len());
            }
            let mut j: usize = 0;
            while j < ls.len()
                invariant
                    j <= ls.len(),
                    gl == seqs_of(ls@),
                    gl == lines_of(t@),
                    ls.len() <= t@.len() + 1,
                    t@.len() <= text@.len(),
                    u.line <= text@.len() + 1,
                    2 * text@.len() + 2 <= usize::MAX,
                    finds_view(out@) == before + bullet_checks(gl, u.line as int, j as int),
                decreases ls.len() - j,
            {
                let c = trimmed(&ls[j]);
                if c.len() > 0 {
                    check(&c, u.line + j, &mut out);
                }
                j = j + 1;
            }
        } else {
            let c = trimmed(&t);
            if c.len() > 0 {
                check(&c, u.line, &mut out);
            } else {
                assert(finds_view(out@) =~= before + Seq::<FindV>::empty());
            }
        }
        k = k + 1;
    }
    out
}

} // verus!
