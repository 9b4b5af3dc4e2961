// deny.rs — the denied vocabulary: a builtin list of LLM stock phrases
// (matched by stem) and the judge's recorded verdicts. Every line of the
// prose (outside fences and inline code) containing a denied word is a hit;
// hits are reported in (line, word, suggestion) order.
use vstd::prelude::*;

use crate::text::strings_view;

use crate::prose::{spec_strip_fences, strip_fences_chars};
use crate::text::{
    chars_of, contains, drop_code, drop_code_exec, find, find_from, has, lemma_find_from, lines_of, seq_lt, seq_less,
    seqs_of, slice_of, split_lines, string_of, trim, trimmed, vec_eq,
};

verus! {

/// A vocabulary: words (unique) with their suggested rewrites.
pub open spec fn pairs_view(v: Seq<(String, String)>) -> Seq<(Seq<char>, Seq<char>)> {
    Seq::new(v.len(), |i: int| (v[i].0@, v[i].1@))
}

/// The builtin LLM stock phrases (stems) and how to rewrite them.
pub open spec fn builtin_spec() -> Seq<(Seq<char>, Seq<char>)> {
    seq![
        ("可能性を解き放"@, "state concretely what becomes possible"@),
        ("架け橋とな"@, "name the concrete function or role"@),
        ("世界へようこそ"@, "stock opener — start with the content"@),
        ("いかがでした"@, "blog-closer boilerplate — end by restating the key points"@),
        ("ゲームチェンジャー"@, "state what changes and how"@),
        ("魔法のよう"@, "explain the mechanism"@),
        ("潜在能力を引き出"@, "state the improvement in numbers"@),
        ("スーパーチャージ"@, "marketing calque — state the concrete gain"@),
        ("業界を再定義"@, "state what actually changes"@),
        ("フロンティアを開拓"@, "stock metaphor — name the actual domain"@),
        ("根本的に変革"@, "state what changes and how"@),
        ("驚嘆させ"@, "show facts and numbers, not awe"@),
        ("未来を変える"@, "state which task changes and how"@),
        ("新たな基準を設定"@, "calque of 'sets a new standard' — state the standard itself"@),
    ]
}

/// The builtin stock phrases.
pub fn builtin() -> (r: Vec<(String, String)>)
    ensures
        pairs_view(r@) == builtin_spec(),
{
    let mut v: Vec<(String, String)> = Vec::new();
    v.push(("可能性を解き放".to_owned(), "state concretely what becomes possible".to_owned()));
    v.push(("架け橋とな".to_owned(), "name the concrete function or role".to_owned()));
    v.push(("世界へようこそ".to_owned(), "stock opener — start with the content".to_owned()));
    v.push(("いかがでした".to_owned(), "blog-closer boilerplate — end by restating the key points".to_owned()));
    v.push(("ゲームチェンジャー".to_owned(), "state what changes and how".to_owned()));
    v.push(("魔法のよう".to_owned(), "explain the mechanism".to_owned()));
    v.push(("潜在能力を引き出".to_owned(), "state the improvement in numbers".to_owned()));
    v.push(("スーパーチャージ".to_owned(), "marketing calque — state the concrete gain".to_owned()));
    v.push(("業界を再定義".to_owned(), "state what actually changes".to_owned()));
    v.push(("フロンティアを開拓".to_owned(), "stock metaphor — name the actual domain".to_owned()));
    v.push(("根本的に変革".to_owned(), "state what changes and how".to_owned()));
    v.push(("驚嘆させ".to_owned(), "show facts and numbers, not awe".to_owned()));
    v.push(("未来を変える".to_owned(), "state which task changes and how".to_owned()));
    v.push(("新たな基準を設定".to_owned(), "calque of 'sets a new standard' — state the standard itself".to_owned()));
    assert(pairs_view(v@) =~= builtin_spec());
    v
}

/// The index of the entry with word `k`, or -1.
pub open spec fn key_index(es: Seq<(Seq<char>, Seq<char>)>, k: Seq<char>) -> int
    decreases es.len(),
{
    if es.len() == 0 {
        -1
    } else if key_index(es.drop_last(), k) >= 0 {
        key_index(es.drop_last(), k)
    } else if es.last().0 == k {
        es.len() - 1
    } else {
        -1
    }
}

/// The vocabulary with `w` mapped to `s` (`HashMap::insert`; a new word goes last).
pub open spec fn upsert(es: Seq<(Seq<char>, Seq<char>)>, w: Seq<char>, s: Seq<char>) -> Seq<(Seq<char>, Seq<char>)> {
    let k = key_index(es, w);
    if k >= 0 {
        es.update(k, (w, s))
    } else {
        es.push((w, s))
    }
}

pub proof fn lemma_key_index(es: Seq<(Seq<char>, Seq<char>)>, k: Seq<char>)
    ensures
        -1 <= key_index(es, k) < es.len(),
        key_index(es, k) >= 0 ==> es[key_index(es, k)].0 == k,
        key_index(es, k) < 0 ==> forall|i: int| 0 <= i < es.len() ==> es[i].0 != k,
    decreases es.len(),
{
    if es.len() > 0 {
        lemma_key_index(es.drop_last(), k);
        if key_index(es, k) < 0 {
            assert forall|i: int| 0 <= i < es.len() implies es[i].0 != k by {
                if i < es.len() - 1 {
                    assert(es.drop_last()[i] == es[i]);
                }
            }
        }
    }
}

/// A vocabulary line: blank and `#` lines are skipped; `word<TAB>rewrite`,
/// or a bare word with an empty rewrite.
pub open spec fn vocab_line(l: Seq<char>) -> Option<(Seq<char>, Seq<char>)> {
    let t = trim(l);
    if t.len() == 0 || t[0] == '#' {
        None
    } else {
        match find_from(t, seq!['\t'], 0) {
            Some(p) => Some((trim(t.subrange(0, p)), trim(t.subrange(p + 1, t.len() as int)))),
            None => Some((t, Seq::empty())),
        }
    }
}

pub open spec fn vocab_lines(ls: Seq<Seq<char>>, k: int) -> Seq<(Seq<char>, Seq<char>)>
    decreases k,
{
    if k <= 0 || k > ls.len() {
        Seq::empty()
    } else {
        let es = vocab_lines(ls, k - 1);
        match vocab_line(ls[k - 1]) {
            Some((w, s)) => upsert(es, w, s),
            None => es,
        }
    }
}

/// The vocabulary written in a TSV text.
pub open spec fn spec_vocabulary(text: Seq<char>) -> Seq<(Seq<char>, Seq<char>)> {
    let ls = lines_of(text);
    vocab_lines(ls, ls.len() as int)
}

fn key_index_exec(es: &Vec<(String, String)>, w: &Vec<char>) -> (r: Option<usize>)
    ensures
        match r {
            Some(i) => key_index(pairs_view(es@), w@) == i as int && i < es.len(),
            None => key_index(pairs_view(es@), w@) < 0,
        },
{
    let ghost g = pairs_view(es@);
    proof {
        lemma_key_index(g, w@);
    }
    let mut i: usize = 0;
    while i < es.len()
        invariant
            i <= es.len(),
            g == pairs_view(es@),
            forall|j: int| 0 <= j < i ==> g[j].0 != w@,
            -1 <= key_index(g, w@) < g.len(),
            key_index(g, w@) >= 0 ==> g[key_index(g, w@)].0 == w@,
            key_index(g, w@) < 0 ==> forall|j: int| 0 <= j < g.len() ==> g[j].0 != w@,
        decreases es.len() - i,
    {
        let k = chars_of(es[i].0.as_str());
        if vec_eq(&k, w) {
            proof {
                lemma_key_index_first(g, w@, i as int);
            }
            return Some(i);
        }
        i = i + 1;
    }
    None
}

proof fn lemma_key_index_first(es: Seq<(Seq<char>, Seq<char>)>, k: Seq<char>, i: int)
    requires
        0 <= i < es.len(),
        es[i].0 == k,
        forall|j: int| 0 <= j < i ==> es[j].0 != k,
    ensures
        key_index(es, k) == i,
    decreases es.len(),
{
    if i < es.len() - 1 {
        lemma_key_index_first(es.drop_last(), k, i);
    } else {
        lemma_key_index(es.drop_last(), k);
    }
}

/// Maps `w` to `s` in the vocabulary.
pub fn upsert_exec(es: &mut Vec<(String, String)>, w: String, s: String)
    ensures
        pairs_view(final(es)@) == upsert(pairs_view(old(es)@), w@, s@),
{
    let wv = chars_of(w.as_str());
    let ghost g = pairs_view(es@);
    match key_index_exec(es, &wv) {
        Some(i) => {
            es.set(i, (w, s));
            assert(pairs_view(es@) =~= g.update(i as int, (wv@, s@)));
        },
        None => {
            es.push((w, s));
            assert(pairs_view(es@) =~= g.push((wv@, s@)));
        },
    }
}

/// The vocabulary of a TSV text (`load_vocabulary` without the file read):
/// `word<TAB>rewrite` per line, blank and `#` lines skipped, a later line
/// overriding an earlier one for the same word.
pub fn parse_vocabulary(text: &str) -> (r: Vec<(String, String)>)
    ensures
        pairs_view(r@) == spec_vocabulary(text@),
{
    let s = chars_of(text);
    let ls = split_lines(&s);
    let ghost g = seqs_of(ls@);
    let tab = vec!['\t'];
    assert(tab@ =~= seq!['\t']);
    let mut es: Vec<(String, String)> = Vec::new();
    let mut i: usize = 0;
    assert(pairs_view(es@) =~= Seq::<(Seq<char>, Seq<char>)>::empty());
    while i < ls.len()
        invariant
            i <= ls.len(),
            g == seqs_of(ls@),
            g == lines_of(text@),
            tab@ == seq!['\t'],
            pairs_view(es@) == vocab_lines(g, i as int),
        decreases ls.len() - i,
    {
        let t = trimmed(&ls[i]);
        if t.len() > 0 && t[0] != '#' {
            proof {
                lemma_find_from(t@, seq!['\t'], 0);
            }
            match find(&t, &tab, 0) {
                Some(p) => {
                    let a = slice_of(&t, 0, p);
                    let b = slice_of(&t, p + 1, t.len());
                    let w = trimmed(&a);
                    let sg = trimmed(&b);
                    upsert_exec(&mut es, string_of(&w), string_of(&sg));
                },
                None => {
                    let e: Vec<char> = Vec::new();
                    assert(e@ =~= Seq::<char>::empty());
                    upsert_exec(&mut es, string_of(&t), string_of(&e));
                },
            }
        }
        i = i + 1;
    }
    es
}

/// `str::to_lowercase`: the lowercase mapping of the Unicode Lowercase property.
pub uninterp spec fn lowercase(s: Seq<char>) -> Seq<char>;

/// Lowercases a string (`str::to_lowercase`); the result is `lowercase` of the argument.
#[verifier::external_body]
pub(crate) fn to_lowercase(s: &str) -> (r: String)
    ensures
        r@ == lowercase(s@),
{
    s.to_lowercase()
}

/// An allow-vocabulary line: its first column (before a tab), trimmed, or nothing.
pub open spec fn allow_word(l: Seq<char>) -> Option<Seq<char>> {
    let t = trim(l);
    if t.len() == 0 || t[0] == '#' {
        None
    } else {
        let w = match find_from(t, seq!['\t'], 0) {
            Some(p) => trim(t.subrange(0, p)),
            None => trim(t),
        };
        Some(w)
    }
}

/// Adds `w` unless it is there already.
pub open spec fn add_word(ws: Seq<Seq<char>>, w: Seq<char>) -> Seq<Seq<char>> {
    if ws.contains(w) {
        ws
    } else {
        ws.push(w)
    }
}

pub open spec fn allow_lines(ls: Seq<Seq<char>>, k: int) -> Seq<Seq<char>>
    decreases k,
{
    if k <= 0 || k > ls.len() {
        Seq::empty()
    } else {
        let ws = allow_lines(ls, k - 1);
        match allow_word(ls[k - 1]) {
            Some(w) => {
                let lw = lowercase(w);
                if lw.len() > 0 {
                    add_word(ws, lw)
                } else {
                    ws
                }
            },
            None => ws,
        }
    }
}

/// The lowercased first-column words of an allow-vocabulary text, each once.
pub open spec fn spec_allow_vocabulary(text: Seq<char>) -> Seq<Seq<char>> {
    let ls = lines_of(text);
    allow_lines(ls, ls.len() as int)
}

/// Whether `w` is one of `ws`.
pub fn contains_string(ws: &Vec<String>, w: &String) -> (r: bool)
    ensures
        r == strings_view(ws@).contains(w@),
{
    let mut k: usize = 0;
    while k < ws.len()
        invariant
            k <= ws.len(),
            forall|j: int| 0 <= j < k ==> ws@[j]@ != w@,
        decreases ws.len() - k,
    {
        if ws[k] == *w {
            assert(strings_view(ws@)[k as int] == w@);
            return true;
        }
        k = k + 1;
    }
    assert(!strings_view(ws@).contains(w@)) by {
        if strings_view(ws@).contains(w@) {
            let j = choose|j: int| 0 <= j < strings_view(ws@).len() && strings_view(ws@)[j] == w@;
            assert(ws@[j]@ == w@);
        }
    }
    false
}

/// The allow vocabulary of a TSV text (`load_allow_vocabulary` without the
/// file read): first columns, trimmed and lowercased, blank and `#` lines skipped.
pub fn parse_allow_vocabulary(text: &str) -> (r: Vec<String>)
    ensures
        strings_view(r@) == spec_allow_vocabulary(text@),
{
    let s = chars_of(text);
    let ls = split_lines(&s);
    let ghost g = seqs_of(ls@);
    let tab = vec!['\t'];
    assert(tab@ =~= seq!['\t']);
    let mut ws: Vec<String> = Vec::new();
    let mut i: usize = 0;
    assert(strings_view(ws@) =~= Seq::<Seq<char>>::empty());
    while i < ls.len()
        invariant
            i <= ls.len(),
            g == seqs_of(ls@),
            g == lines_of(text@),
            tab@ == seq!['\t'],
            strings_view(ws@) == allow_lines(g, i as int),
        decreases ls.len() - i,
    {
        let t = trimmed(&ls[i]);
        if t.len() > 0 && t[0] != '#' {
            proof {
                lemma_find_from(t@, seq!['\t'], 0);
            }
            let w = match find(&t, &tab, 0) {
                Some(p) => {
                    let a = slice_of(&t, 0, p);
                    trimmed(&a)
                },
                None => trimmed(&t),
            };
            let ws0 = string_of(&w);
            let lw = to_lowercase(ws0.as_str());
            let lwc = chars_of(lw.as_str());
            if lwc.len() > 0 {
                let ghost before = strings_view(ws@);
                if !contains_string(&ws, &lw) {
                    ws.push(lw);
                    assert(strings_view(ws@) =~= before.push(lw@));
                }
            }
        }
        i = i + 1;
    }
    ws
}

// ---------------------------------------------------------------------------
// The scan.

/// A hit's model: line, word, suggestion.
pub type HitV = (int, Seq<char>, Seq<char>);

pub open spec fn hits_view(v: Seq<(usize, String, String)>) -> Seq<HitV> {
    Seq::new(v.len(), |i: int| (v[i].0 as int, v[i].1@, v[i].2@))
}

/// `a` sorts after `b` (by line, then word, then suggestion).
pub open spec fn hit_gt(a: HitV, b: HitV) -> bool {
    a.0 > b.0 || (a.0 == b.0 && (seq_lt(b.1, a.1) || (b.1 == a.1 && seq_lt(b.2, a.2))))
}

/// The first index `>= k` holding a hit after `x`, or the length.
pub open spec fn first_greater(v: Seq<HitV>, x: HitV, k: int) -> int
    decreases v.len() - k,
{
    if k < 0 || k >= v.len() {
        v.len() as int
    } else if hit_gt(v[k], x) {
        k
    } else {
        first_greater(v, x, k + 1)
    }
}

/// `v` sorted (`slice::sort`): each hit inserted after those not after it.
pub open spec fn sort_hits(v: Seq<HitV>) -> Seq<HitV>
    decreases v.len(),
{
    if v.len() == 0 {
        Seq::empty()
    } else {
        let s = sort_hits(v.drop_last());
        s.insert(first_greater(s, v.last(), 0), v.last())
    }
}

/// The hits of one line, in vocabulary order.
pub open spec fn line_hits(line: int, clean: Seq<char>, deny: Seq<(Seq<char>, Seq<char>)>, k: int) -> Seq<HitV>
    decreases k,
{
    if k <= 0 || k > deny.len() {
        Seq::empty()
    } else {
        line_hits(line, clean, deny, k - 1) + if contains(clean, deny[k - 1].0) {
            seq![(line, deny[k - 1].0, deny[k - 1].1)]
        } else {
            Seq::empty()
        }
    }
}

pub open spec fn lines_hits(ls: Seq<Seq<char>>, deny: Seq<(Seq<char>, Seq<char>)>, k: int) -> Seq<HitV>
    decreases k,
{
    if k <= 0 || k > ls.len() {
        Seq::empty()
    } else {
        lines_hits(ls, deny, k - 1) + line_hits(k, drop_code(ls[k - 1]), deny, deny.len() as int)
    }
}

/// Every (line, word, suggestion) with the word in the line's prose, sorted.
pub open spec fn spec_scan(text: Seq<char>, deny: Seq<(Seq<char>, Seq<char>)>) -> Seq<HitV> {
    if deny.len() == 0 {
        Seq::empty()
    } else {
        let ls = lines_of(spec_strip_fences(text));
        sort_hits(lines_hits(ls, deny, ls.len() as int))
    }
}

fn hit_after(a: &(usize, Vec<char>, Vec<char>), b: &(usize, Vec<char>, Vec<char>)) -> (r: bool)
    ensures
        r == hit_gt((a.0 as int, a.1@, a.2@), (b.0 as int, b.1@, b.2@)),
{
    if a.0 != b.0 {
        return a.0 > b.0;
    }
    if seq_less(&b.1, &a.1) {
        return true;
    }
    vec_eq(&b.1, &a.1) && seq_less(&b.2, &a.2)
}

pub open spec fn hv(v: Seq<(usize, Vec<char>, Vec<char>)>) -> Seq<HitV> {
    Seq::new(v.len(), |i: int| (v[i].0 as int, v[i].1@, v[i].2@))
}

fn sort_hits_exec(v: Vec<(usize, Vec<char>, Vec<char>)>) -> (r: Vec<(usize, Vec<char>, Vec<char>)>)
    ensures
        hv(r@) == sort_hits(hv(v@)),
{
    let ghost orig = hv(v@);
    let mut src = v;
    let mut out: Vec<(usize, Vec<char>, Vec<char>)> = Vec::new();
    let ghost mut k: int = 0;
    assert(orig.take(0) =~= Seq::<HitV>::empty());
    assert(hv(out@) =~= Seq::<HitV>::empty());
    assert(hv(src@) =~= orig.subrange(0, orig.len() as int));
    while src.len() > 0
        invariant
            0 <= k <= orig.len(),
            src.len() == orig.len() - k,
            hv(src@) == orig.subrange(k, orig.len() as int),
            hv(out@) == sort_hits(orig.take(k)),
        decreases src.len(),
    {
        let ghost s0 = src@;
        let ghost o0 = out@;
        let x = src.remove(0);
        assert(hv(s0)[0] == (x.0 as int, x.1@, x.2@));
        assert((x.0 as int, x.1@, x.2@) == orig[k]);
        assert(hv(src@) =~= orig.subrange(k + 1, orig.len() as int)) by {
            assert(src@ =~= s0.remove(0));
            assert forall|i: int| 0 <= i < src@.len() implies #[trigger] hv(src@)[i] == orig[k + 1 + i] by {
                assert(src@[i] == s0[i + 1]);
                assert(hv(s0)[i + 1] == orig.subrange(k, orig.len() as int)[i + 1]);
            }
        }
        let mut pos: usize = 0;
        while pos < out.len() && !hit_after(&out[pos], &x)
            invariant
                pos <= out.len(),
                first_greater(hv(out@), (x.0 as int, x.1@, x.2@), 0) == first_greater(
                    hv(out@),
                    (x.0 as int, x.1@, x.2@),
                    pos as int,
                ),
            decreases out.len() - pos,
        {
            pos = pos + 1;
        }
        let ghost xv = (x.0 as int, x.1@, x.2@);
        out.insert(pos, x);
        proof {
            assert(hv(out@) =~= hv(o0).insert(pos as int, xv));
            assert(orig.take(k + 1).drop_last() =~= orig.take(k));
            k = k + 1;
        }
    }
    assert(orig.take(k) =~= orig);
    out
}

/// Every line of the prose (outside fences and inline code) that contains a
/// denied word: (line, word, suggestion), sorted.
fn scan_hits(text: &str, deny: &Vec<(String, String)>) -> (r: Vec<(usize, String, String)>)
    ensures
        hits_view(r@) == spec_scan(text@, pairs_view(deny@)),
{
    let ghost dv = pairs_view(deny@);
    if deny.len() == 0 {
        let r: Vec<(usize, String, String)> = Vec::new();
        assert(hits_view(r@) =~= Seq::<HitV>::empty());
        return r;
    }
    let s = chars_of(text);
    let d = strip_fences_chars(&s);
    let ls = split_lines(&d);
    let ghost g = seqs_of(ls@);
    let mut keys: Vec<Vec<char>> = Vec::new();
    let mut sugs: Vec<Vec<char>> = Vec::new();
    let mut j: usize = 0;
    while j < deny.len()
        invariant
            j <= deny.len(),
            keys.len() == j,
            sugs.len() == j,
            dv == pairs_view(deny@),
            forall|t: int| 0 <= t < j ==> keys@[t]@ == dv[t].0 && sugs@[t]@ == dv[t].1,
        decreases deny.len() - j,
    {
        keys.push(chars_of(deny[j].0.as_str()));
        sugs.push(chars_of(deny[j].1.as_str()));
        j = j + 1;
    }
    let mut hits: Vec<(usize, Vec<char>, Vec<char>)> = Vec::new();
    let mut i: usize = 0;
    assert(hv(hits@) =~= Seq::<HitV>::empty());
    while i < ls.len()
        invariant
            i <= ls.len(),
            g == seqs_of(ls@),
            g == lines_of(spec_strip_fences(text@)),
            dv == pairs_view(deny@),
            keys.len() == deny.len(),
            sugs.len() == deny.len(),
            forall|t: int| 0 <= t < deny.len() ==> keys@[t]@ == dv[t].0 && sugs@[t]@ == dv[t].1,
            hv(hits@) == lines_hits(g, dv, i as int),
        decreases ls.len() - i,
    {
        let clean = drop_code_exec(&ls[i]);
        let ghost h0 = hv(hits@);
        let mut k: usize = 0;
        while k < keys.len()
            invariant
                k <= keys.len(),
                i < ls.len(),
                keys.len() == deny.len(),
                sugs.len() == deny.len(),
                dv == pairs_view(deny@),
                forall|t: int| 0 <= t < deny.len() ==> keys@[t]@ == dv[t].0 && sugs@[t]@ == dv[t].1,
                clean@ == drop_code(g[i as int]),
                hv(hits@) == h0 + line_hits(i + 1, clean@, dv, k as int),
            decreases keys.len() - k,
        {
            if has(&clean, &keys[k]) {
                let w = slice_of(&keys[k], 0, keys[k].len());
                let sg = slice_of(&sugs[k], 0, sugs[k].len());
                assert(w@ =~= keys@[k as int]@);
                assert(sg@ =~= sugs@[k as int]@);
                let ghost hb = hv(hits@);
                hits.push((i + 1, w, sg));
                assert(hv(hits@) =~= hb.push((i + 1, dv[k as int].0, dv[k as int].1)));
            }
            k = k + 1;
            assert(hv(hits@) =~= h0 + line_hits(i + 1, clean@, dv, k as int));
        }
        i = i + 1;
    }
    let sorted = sort_hits_exec(hits);
    let mut out: Vec<(usize, String, String)> = Vec::new();
    let mut t: usize = 0;
    while t < sorted.len()
        invariant
            t <= sorted.len(),
            out.len() == t,
            forall|q: int| 0 <= q < t ==> (#[trigger] hits_view(out@)[q]) == hv(sorted@)[q],
        decreases sorted.len() - t,
    {
        let ghost prev = out@;
        out.push((sorted[t].0, string_of(&sorted[t].1), string_of(&sorted[t].2)));
        assert forall|q: int| 0 <= q < t + 1 implies (#[trigger] hits_view(out@)[q]) == hv(sorted@)[q] by {
            if q < t {
                assert(out@[q] == prev[q]);
                assert(hits_view(prev)[q] == hv(sorted@)[q]);
            }
        }
        t = t + 1;
    }
    assert(hits_view(out@) =~= hv(sorted@));
    out
}


/// `more` merged into `es`, entry by entry (a later entry overrides).
pub open spec fn merge_all(es: Seq<(Seq<char>, Seq<char>)>, more: Seq<(Seq<char>, Seq<char>)>) -> Seq<(Seq<char>, Seq<char>)>
    decreases more.len(),
{
    if more.len() == 0 {
        es
    } else {
        upsert(merge_all(es, more.drop_last()), more.last().0, more.last().1)
    }
}

/// Merges the vocabulary `more` into `es`.
pub fn merge_vocabulary(es: &mut Vec<(String, String)>, more: Vec<(String, String)>)
    ensures
        pairs_view(final(es)@) == merge_all(pairs_view(old(es)@), pairs_view(more@)),
{
    let ghost start = pairs_view(es@);
    let ghost mv = pairs_view(more@);
    let mut src = more;
    let ghost orig = src@;
    let ghost mut k: int = 0;
    assert(mv.take(0) =~= Seq::<(Seq<char>, Seq<char>)>::empty());
    while src.len() > 0
        invariant
            0 <= k <= orig.len(),
            src@ == orig.subrange(k, orig.len() as int),
            mv == pairs_view(orig),
            pairs_view(es@) == merge_all(start, mv.take(k)),
        decreases src.len(),
    {
        let (w, t) = src.remove(0);
        assert(src@ =~= orig.subrange(k + 1, orig.len() as int));
        assert((w@, t@) == mv[k]);
        assert(mv.take(k + 1).drop_last() =~= mv.take(k));
        upsert_exec(es, w, t);
        proof {
            k = k + 1;
        }
    }
    assert(mv.take(k) =~= mv);
}

/// The entries of `es` whose word `allow` does not hold.
pub open spec fn drop_allowed(es: Seq<(Seq<char>, Seq<char>)>, allow: Seq<Seq<char>>) -> Seq<(Seq<char>, Seq<char>)>
    decreases es.len(),
{
    if es.len() == 0 {
        Seq::empty()
    } else {
        drop_allowed(es.drop_last(), allow) + if allow.contains(es.last().0) {
            Seq::empty()
        } else {
            seq![es.last()]
        }
    }
}

/// The vocabulary without the words `allow` holds (an allowed word is never denied).
pub fn without_allowed(es: Vec<(String, String)>, allow: &Vec<String>) -> (r: Vec<(String, String)>)
    ensures
        pairs_view(r@) == drop_allowed(pairs_view(es@), strings_view(allow@)),
{
    let ghost ev = pairs_view(es@);
    let mut out: Vec<(String, String)> = Vec::new();
    let mut src = es;
    let ghost orig = src@;
    let ghost mut k: int = 0;
    assert(ev.take(0) =~= Seq::<(Seq<char>, Seq<char>)>::empty());
    assert(pairs_view(out@) =~= Seq::<(Seq<char>, Seq<char>)>::empty());
    while src.len() > 0
        invariant
            0 <= k <= orig.len(),
            src@ == orig.subrange(k, orig.len() as int),
            ev == pairs_view(orig),
            pairs_view(out@) == drop_allowed(ev.take(k), strings_view(allow@)),
        decreases src.len(),
    {
        let x = src.remove(0);
        assert(src@ =~= orig.subrange(k + 1, orig.len() as int));
        assert((x.0@, x.1@) == ev[k]);
        assert(ev.take(k + 1).drop_last() =~= ev.take(k));
        let ghost o0 = pairs_view(out@);
        if !contains_string(allow, &x.0) {
            out.push(x);
            assert(pairs_view(out@) =~= o0.push(ev[k]));
        } else {
            assert(pairs_view(out@) =~= o0 + Seq::<(Seq<char>, Seq<char>)>::empty());
        }
        proof {
            k = k + 1;
        }
    }
    assert(ev.take(k) =~= ev);
    out
}

/// An allowed word is never denied: no entry of `drop_allowed(es, allow)` has a word `allow` holds.
pub proof fn lemma_allowed_never_denied(es: Seq<(Seq<char>, Seq<char>)>, allow: Seq<Seq<char>>)
    ensures
        forall|i: int| 0 <= i < drop_allowed(es, allow).len() ==> !allow.contains(#[trigger] drop_allowed(es, allow)[i].0),
    decreases es.len(),
{
    if es.len() > 0 {
        lemma_allowed_never_denied(es.drop_last(), allow);
        let p = drop_allowed(es.drop_last(), allow);
        let r = drop_allowed(es, allow);
        assert forall|i: int| 0 <= i < r.len() implies !allow.contains(#[trigger] r[i].0) by {
            if i < p.len() {
                assert(r[i] == p[i]);
            }
        }
    }
}


/// The denied words of a document: every (line, word, suggestion) with a
/// vocabulary word in the prose of that line, sorted; with a vocabulary of
/// distinct words (a map), no hit repeats.
pub fn scan(text: &str, deny: &Vec<(String, String)>) -> (r: Vec<(usize, String, String)>)
    ensures
        hits_view(r@) == spec_scan(text@, pairs_view(deny@)),
        unique_keys(pairs_view(deny@)) ==> hits_view(r@).no_duplicates(),
{
    let r = scan_hits(text, deny);
    proof {
        if unique_keys(pairs_view(deny@)) {
            lemma_deny_scan_unique(text@, pairs_view(deny@));
        }
    }
    r
}

// ---------------------------------------------------------------------------
// The law of the deny scan.

proof fn lemma_hit_gt_trans(a: HitV, b: HitV, c: HitV)
    requires
        hit_gt(a, b),
        hit_gt(b, c),
    ensures
        hit_gt(a, c),
{
    if a.0 == b.0 && b.0 == c.0 {
        if seq_lt(b.1, a.1) && seq_lt(c.1, b.1) {
            crate::text::lemma_seq_lt_trans(c.1, b.1, a.1);
        } else if seq_lt(b.1, a.1) {
        } else if seq_lt(c.1, b.1) {
        } else {
            crate::text::lemma_seq_lt_trans(c.2, b.2, a.2);
        }
    }
}

proof fn lemma_hit_gt_total(a: HitV, b: HitV)
    ensures
        hit_gt(a, b) || hit_gt(b, a) || a == b,
{
    crate::text::lemma_seq_lt_total(a.1, b.1);
    crate::text::lemma_seq_lt_total(a.2, b.2);
}

proof fn lemma_hit_gt_asym(a: HitV, b: HitV)
    requires
        hit_gt(a, b),
    ensures
        !hit_gt(b, a),
{
    if a.0 == b.0 {
        if seq_lt(b.1, a.1) {
            crate::text::lemma_seq_lt_asym(b.1, a.1);
            crate::text::lemma_seq_lt_irreflexive(a.1);
        } else {
            crate::text::lemma_seq_lt_asym(b.2, a.2);
        }
    }
}

/// No hit of `v` sorts after a later one.
pub open spec fn hits_sorted(v: Seq<HitV>) -> bool {
    forall|i: int, j: int| 0 <= i < j < v.len() ==> !hit_gt(#[trigger] v[i], #[trigger] v[j])
}

proof fn lemma_first_greater(v: Seq<HitV>, x: HitV, k: int)
    requires
        0 <= k <= v.len(),
    ensures
        k <= first_greater(v, x, k) <= v.len(),
        forall|i: int| k <= i < first_greater(v, x, k) ==> !hit_gt(#[trigger] v[i], x),
        first_greater(v, x, k) < v.len() ==> hit_gt(v[first_greater(v, x, k)], x),
    decreases v.len() - k,
{
    if k < v.len() && !hit_gt(v[k], x) {
        lemma_first_greater(v, x, k + 1);
    }
}

proof fn lemma_sort_hits(v: Seq<HitV>)
    ensures
        hits_sorted(sort_hits(v)),
        sort_hits(v).to_multiset() == v.to_multiset(),
        sort_hits(v).len() == v.len(),
    decreases v.len(),
{
    if v.len() == 0 {
        assert(v =~= Seq::<HitV>::empty());
        assert(sort_hits(v) =~= Seq::<HitV>::empty());
    } else {
        let p = v.drop_last();
        lemma_sort_hits(p);
        let s = sort_hits(p);
        let x = v.last();
        let k = first_greater(s, x, 0);
        lemma_first_greater(s, x, 0);
        let r = s.insert(k, x);
        assert(sort_hits(v) == r);
        assert forall|i: int, j: int| 0 <= i < j < r.len() implies !hit_gt(#[trigger] r[i], #[trigger] r[j]) by {
            if j < k {
                assert(r[i] == s[i] && r[j] == s[j]);
            } else if j == k {
                assert(r[i] == s[i] && r[j] == x);
            } else if i == k {
                assert(r[i] == x && r[j] == s[j - 1]);
                if j - 1 > k {
                    lemma_hit_gt_total(s[k], s[j - 1]);
                    assert(!hit_gt(s[k], s[j - 1]));
                    if s[k] != s[j - 1] {
                        lemma_hit_gt_trans(s[j - 1], s[k], x);
                    }
                }
                lemma_hit_gt_asym(s[j - 1], x);
            } else if i < k {
                assert(r[i] == s[i] && r[j] == s[j - 1]);
            } else {
                assert(r[i] == s[i - 1] && r[j] == s[j - 1]);
            }
        }
        vstd::seq_lib::to_multiset_insert(s, k, x);
        vstd::seq_lib::to_multiset_build(p, x);
        assert(p.push(x) =~= v);
    }
}

/// The hit `x` is a vocabulary entry found in the prose of line `x.0`
/// (1-based) of the lines `ls`.
pub open spec fn denied_at(ls: Seq<Seq<char>>, deny: Seq<(Seq<char>, Seq<char>)>, x: HitV) -> bool {
    &&& 1 <= x.0 <= ls.len()
    &&& exists|j: int|
        0 <= j < deny.len() && (#[trigger] deny[j]).0 == x.1 && deny[j].1 == x.2 && contains(
            drop_code(ls[x.0 - 1]),
            x.1,
        )
}

proof fn lemma_line_hits_mem(line: int, clean: Seq<char>, deny: Seq<(Seq<char>, Seq<char>)>, k: int, x: HitV)
    requires
        0 <= k <= deny.len(),
    ensures
        line_hits(line, clean, deny, k).contains(x) <==> (x.0 == line && exists|j: int|
            0 <= j < k && (#[trigger] deny[j]).0 == x.1 && deny[j].1 == x.2 && contains(clean, x.1)),
    decreases k,
{
    if k > 0 {
        lemma_line_hits_mem(line, clean, deny, k - 1, x);
        let p = line_hits(line, clean, deny, k - 1);
        let e = deny[k - 1];
        let add = if contains(clean, e.0) {
            seq![(line, e.0, e.1)]
        } else {
            Seq::empty()
        };
        let r = p + add;
        if r.contains(x) {
            let i = choose|i: int| 0 <= i < r.len() && r[i] == x;
            if i < p.len() {
                assert(r[i] == p[i]);
                assert(p.contains(x));
            } else {
                assert(r[i] == add[i - p.len()]);
                assert(deny[k - 1].0 == x.1);
            }
        }
        if x.0 == line && exists|j: int|
            0 <= j < k && (#[trigger] deny[j]).0 == x.1 && deny[j].1 == x.2 && contains(clean, x.1) {
            let j = choose|j: int| 0 <= j < k && (#[trigger] deny[j]).0 == x.1 && deny[j].1 == x.2 && contains(clean, x.1);
            if j < k - 1 {
                assert(p.contains(x));
                let i = choose|i: int| 0 <= i < p.len() && p[i] == x;
                assert(r[i] == p[i]);
            } else {
                assert(r[p.len() as int] == x);
            }
        }
    }
}

proof fn lemma_lines_hits_mem(ls: Seq<Seq<char>>, deny: Seq<(Seq<char>, Seq<char>)>, k: int, x: HitV)
    requires
        0 <= k <= ls.len(),
    ensures
        lines_hits(ls, deny, k).contains(x) <==> (x.0 <= k && denied_at(ls, deny, x)),
    decreases k,
{
    if k > 0 {
        lemma_lines_hits_mem(ls, deny, k - 1, x);
        let p = lines_hits(ls, deny, k - 1);
        let lh = line_hits(k, drop_code(ls[k - 1]), deny, deny.len() as int);
        lemma_line_hits_mem(k, drop_code(ls[k - 1]), deny, deny.len() as int, x);
        let r = p + lh;
        if r.contains(x) {
            let i = choose|i: int| 0 <= i < r.len() && r[i] == x;
            if i < p.len() {
                assert(r[i] == p[i]);
                assert(p.contains(x));
            } else {
                assert(r[i] == lh[i - p.len()]);
                assert(lh.contains(x));
            }
        }
        if x.0 <= k && denied_at(ls, deny, x) {
            if x.0 < k {
                assert(p.contains(x));
                let i = choose|i: int| 0 <= i < p.len() && p[i] == x;
                assert(r[i] == p[i]);
            } else {
                assert(lh.contains(x));
                let i = choose|i: int| 0 <= i < lh.len() && lh[i] == x;
                assert(r[p.len() + i] == lh[i]);
            }
        }
    }
}

/// The law of the deny scan: the hits come sorted by line, then word, then
/// suggestion; and a hit `(l, w, s)` is reported exactly when `(w, s)` is a
/// vocabulary entry and `w` occurs in the prose of line `l` (1-based) of the
/// text with its fences blanked and its inline code removed.
pub proof fn lemma_deny_scan(text: Seq<char>, deny: Seq<(Seq<char>, Seq<char>)>, x: HitV)
    ensures
        hits_sorted(spec_scan(text, deny)),
        spec_scan(text, deny).contains(x) <==> (deny.len() > 0 && denied_at(
            lines_of(spec_strip_fences(text)),
            deny,
            x,
        )),
{
    if deny.len() > 0 {
        let ls = lines_of(spec_strip_fences(text));
        let v = lines_hits(ls, deny, ls.len() as int);
        lemma_sort_hits(v);
        lemma_lines_hits_mem(ls, deny, ls.len() as int, x);
        vstd::seq_lib::to_multiset_contains(v, x);
        vstd::seq_lib::to_multiset_contains(sort_hits(v), x);
    } else {
        assert(!Seq::<HitV>::empty().contains(x));
    }
}


/// No two vocabulary entries share a word (as in a map).
pub open spec fn unique_keys(deny: Seq<(Seq<char>, Seq<char>)>) -> bool {
    forall|i: int, j: int| 0 <= i < j < deny.len() ==> (#[trigger] deny[i]).0 != (#[trigger] deny[j]).0
}

proof fn lemma_line_hits_unique(line: int, clean: Seq<char>, deny: Seq<(Seq<char>, Seq<char>)>, k: int)
    requires
        0 <= k <= deny.len(),
        unique_keys(deny),
    ensures
        line_hits(line, clean, deny, k).no_duplicates(),
        forall|i: int|
            0 <= i < line_hits(line, clean, deny, k).len() ==> (#[trigger] line_hits(line, clean, deny, k)[i]).0 == line,
    decreases k,
{
    if k > 0 {
        lemma_line_hits_unique(line, clean, deny, k - 1);
        let p = line_hits(line, clean, deny, k - 1);
        let e = deny[k - 1];
        if contains(clean, e.0) {
            let x = (line, e.0, e.1);
            lemma_line_hits_mem(line, clean, deny, k - 1, x);
            if p.contains(x) {
                let j = choose|j: int|
                    0 <= j < k - 1 && (#[trigger] deny[j]).0 == x.1 && deny[j].1 == x.2 && contains(clean, x.1);
                assert(deny[j].0 != deny[k - 1].0);
            }
            let r = p + seq![x];
            assert forall|a: int, b: int| 0 <= a < r.len() && 0 <= b < r.len() && a != b implies r[a] != r[b] by {
                if a < p.len() && b < p.len() {
                    assert(r[a] == p[a] && r[b] == p[b]);
                } else if a < p.len() {
                    assert(r[a] == p[a] && r[b] == x);
                    assert(p.contains(p[a]));
                } else if b < p.len() {
                    assert(r[b] == p[b] && r[a] == x);
                    assert(p.contains(p[b]));
                }
            }
            assert forall|i: int| 0 <= i < r.len() implies (#[trigger] r[i]).0 == line by {
                if i < p.len() {
                    assert(r[i] == p[i]);
                }
            }
        } else {
            assert(p + Seq::<HitV>::empty() =~= p);
        }
    }
}

proof fn lemma_lines_hits_unique(ls: Seq<Seq<char>>, deny: Seq<(Seq<char>, Seq<char>)>, k: int)
    requires
        0 <= k <= ls.len(),
        unique_keys(deny),
    ensures
        lines_hits(ls, deny, k).no_duplicates(),
    decreases k,
{
    if k > 0 {
        lemma_lines_hits_unique(ls, deny, k - 1);
        let p = lines_hits(ls, deny, k - 1);
        let lh = line_hits(k, drop_code(ls[k - 1]), deny, deny.len() as int);
        lemma_line_hits_unique(k, drop_code(ls[k - 1]), deny, deny.len() as int);
        let r = p + lh;
        assert forall|a: int, b: int| 0 <= a < r.len() && 0 <= b < r.len() && a != b implies r[a] != r[b] by {
            if a < p.len() && b < p.len() {
                assert(r[a] == p[a] && r[b] == p[b]);
            } else if a >= p.len() && b >= p.len() {
                assert(r[a] == lh[a - p.len()] && r[b] == lh[b - p.len()]);
            } else if a < p.len() {
                assert(r[a] == p[a] && r[b] == lh[b - p.len()]);
                lemma_lines_hits_mem(ls, deny, k - 1, p[a]);
                assert(p.contains(p[a]));
            } else {
                assert(r[b] == p[b] && r[a] == lh[a - p.len()]);
                lemma_lines_hits_mem(ls, deny, k - 1, p[b]);
                assert(p.contains(p[b]));
            }
        }
    }
}

/// With a vocabulary of distinct words (a map, as a configuration gives it),
/// no hit is reported twice.
pub proof fn lemma_deny_scan_unique(text: Seq<char>, deny: Seq<(Seq<char>, Seq<char>)>)
    requires
        unique_keys(deny),
    ensures
        spec_scan(text, deny).no_duplicates(),
{
    if deny.len() > 0 {
        let ls = lines_of(spec_strip_fences(text));
        let v = lines_hits(ls, deny, ls.len() as int);
        lemma_lines_hits_unique(ls, deny, ls.len() as int);
        lemma_sort_hits(v);
        v.lemma_multiset_has_no_duplicates();
        sort_hits(v).lemma_multiset_has_no_duplicates_conv();
    }
}

} // verus!
