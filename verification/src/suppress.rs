// suppress.rs — inline suppression. A line holding `correo-ignore` silences
// the findings on that line and the next: all of them for a bare directive,
// or only the named rules and detectors (`<!-- correo-ignore no-chain coinage -->`).
use vstd::prelude::*;

use crate::text::{
    chars_of, contains, count_char, ends_with, find, find_from, lemma_count_char_le, lemma_find_from, lemma_line_within, lemma_seqs_of_push, occurs_at, lemma_split_nl_len,
    lines_of, seqs_of, slice_of, split_lines, split_nl, trim, trimmed, vec_eq,
};

verus! {

/// The directive word.
pub open spec fn ignore_word() -> Seq<char> {
    seq!['c', 'o', 'r', 'r', 'e', 'o', '-', 'i', 'g', 'n', 'o', 'r', 'e']
}

/// The text after the first directive word of a line, up to the next one.
pub open spec fn directive_rest(line: Seq<char>) -> Option<Seq<char>> {
    match find_from(line, ignore_word(), 0) {
        None => None,
        Some(p) => {
            let q = p + ignore_word().len();
            Some(
                match find_from(line, ignore_word(), q) {
                    Some(r) => line.subrange(q, r),
                    None => line.subrange(q, line.len() as int),
                },
            )
        },
    }
}

pub open spec fn comment_close() -> Seq<char> {
    seq!['-', '-', '>']
}

/// `s` without any number of trailing `-->`.
pub open spec fn strip_closers(s: Seq<char>) -> Seq<char>
    decreases s.len(),
{
    if s.len() >= 3 && ends_with(s, comment_close()) {
        strip_closers(s.subrange(0, s.len() - 3))
    } else {
        s
    }
}

pub open spec fn is_name_sep(c: char) -> bool {
    c == ' ' || c == ',' || c == ':'
}

/// The non-empty pieces of `s` between spaces, commas and colons.
pub open spec fn names_of(s: Seq<char>) -> Seq<Seq<char>>
    decreases s.len(),
{
    names_from(s, 0, Seq::empty())
}

/// Names of `s[i..]`, the current piece being `cur`.
pub open spec fn names_from(s: Seq<char>, i: int, cur: Seq<char>) -> Seq<Seq<char>>
    decreases s.len() - i,
{
    if i < 0 || i >= s.len() {
        if cur.len() > 0 {
            seq![cur]
        } else {
            Seq::empty()
        }
    } else if is_name_sep(s[i]) {
        if cur.len() > 0 {
            seq![cur] + names_from(s, i + 1, Seq::empty())
        } else {
            names_from(s, i + 1, Seq::empty())
        }
    } else {
        names_from(s, i + 1, cur.push(s[i]))
    }
}

pub open spec fn set_of(v: Seq<Seq<char>>) -> Set<Seq<char>> {
    Set::new(|w: Seq<char>| exists|k: int| 0 <= k < v.len() && v[k] == w)
}

/// The directive of a line, if it holds one: `None` inside for every rule,
/// or the set of named rules and detectors.
pub open spec fn directive(line: Seq<char>) -> Option<Option<Set<Seq<char>>>> {
    match directive_rest(line) {
        None => None,
        Some(rest) => {
            let names = names_of(trim(strip_closers(trim(rest))));
            Some(
                if names.len() == 0 {
                    None
                } else {
                    Some(set_of(names))
                },
            )
        },
    }
}

/// Adds a directive to a line: "every rule" absorbs, named rules accumulate.
pub open spec fn merge_spec(
    m: Map<int, Option<Set<Seq<char>>>>,
    line: int,
    e: Option<Set<Seq<char>>>,
) -> Map<int, Option<Set<Seq<char>>>> {
    if !m.dom().contains(line) {
        m.insert(line, e)
    } else {
        match e {
            None => m.insert(line, None),
            Some(n) => match m[line] {
                Some(s) => m.insert(line, Some(s.union(n))),
                None => m,
            },
        }
    }
}

/// The suppressions of the first `k` lines.
pub open spec fn sup_lines(ls: Seq<Seq<char>>, k: int) -> Map<int, Option<Set<Seq<char>>>>
    decreases k,
{
    if k <= 0 || k > ls.len() {
        Map::empty()
    } else {
        let m = sup_lines(ls, k - 1);
        match directive(ls[k - 1]) {
            None => m,
            Some(e) => merge_spec(merge_spec(m, k, e), k + 1, e),
        }
    }
}

/// The suppressions of a document, by 1-based line.
pub open spec fn spec_scan(text: Seq<char>) -> Map<int, Option<Set<Seq<char>>>> {
    let ls = lines_of(text);
    sup_lines(ls, ls.len() as int)
}

/// Whether the suppressions `m` silence `detector`/`rule` on `line`.
pub open spec fn spec_hit(m: Map<int, Option<Set<Seq<char>>>>, line: int, detector: Seq<char>, rule: Seq<char>) -> bool {
    m.dom().contains(line) && match m[line] {
        None => true,
        Some(s) => s.contains(detector) || s.contains(rule),
    }
}

/// Line → what is suppressed there (`None`: every rule).
pub struct Suppressions {
    by_line: Vec<(usize, Option<Vec<Vec<char>>>)>,
}

pub open spec fn entry_view(e: Option<Vec<Vec<char>>>) -> Option<Set<Seq<char>>> {
    match e {
        None => None,
        Some(v) => Some(set_of(seqs_of(v@))),
    }
}

pub open spec fn map_of(v: Seq<(usize, Option<Vec<Vec<char>>>)>) -> Map<int, Option<Set<Seq<char>>>>
    decreases v.len(),
{
    if v.len() == 0 {
        Map::empty()
    } else {
        map_of(v.drop_last()).insert(v.last().0 as int, entry_view(v.last().1))
    }
}

pub open spec fn keys_unique(v: Seq<(usize, Option<Vec<Vec<char>>>)>) -> bool {
    forall|i: int, j: int| 0 <= i < j < v.len() ==> v[i].0 != v[j].0
}

impl Suppressions {
    /// The map from line to suppressed names.
    pub closed spec fn view(&self) -> Map<int, Option<Set<Seq<char>>>> {
        map_of(self.by_line@)
    }

    pub closed spec fn wf(&self) -> bool {
        keys_unique(self.by_line@)
    }
}

proof fn lemma_map_of_dom(v: Seq<(usize, Option<Vec<Vec<char>>>)>, l: int)
    ensures
        map_of(v).dom().contains(l) <==> exists|i: int| 0 <= i < v.len() && v[i].0 == l,
    decreases v.len(),
{
    if v.len() > 0 {
        lemma_map_of_dom(v.drop_last(), l);
        if map_of(v.drop_last()).dom().contains(l) {
            let i = choose|i: int| 0 <= i < v.drop_last().len() && v.drop_last()[i].0 == l;
            assert(v[i].0 == l);
        }
        if exists|i: int| 0 <= i < v.len() && v[i].0 == l {
            let i = choose|i: int| 0 <= i < v.len() && v[i].0 == l;
            if i < v.len() - 1 {
                assert(v.drop_last()[i].0 == l);
            }
        }
    }
}

proof fn lemma_map_of_at(v: Seq<(usize, Option<Vec<Vec<char>>>)>, j: int)
    requires
        keys_unique(v),
        0 <= j < v.len(),
    ensures
        map_of(v).dom().contains(v[j].0 as int),
        map_of(v)[v[j].0 as int] == entry_view(v[j].1),
    decreases v.len(),
{
    if j < v.len() - 1 {
        lemma_map_of_at(v.drop_last(), j);
        assert(v.drop_last()[j] == v[j]);
    }
}

proof fn lemma_map_of_update(v: Seq<(usize, Option<Vec<Vec<char>>>)>, j: int, x: Option<Vec<Vec<char>>>)
    requires
        keys_unique(v),
        0 <= j < v.len(),
    ensures
        map_of(v.update(j, (v[j].0, x))) == map_of(v).insert(v[j].0 as int, entry_view(x)),
        keys_unique(v.update(j, (v[j].0, x))),
    decreases v.len(),
{
    let w = v.update(j, (v[j].0, x));
    if j == v.len() - 1 {
        assert(w.drop_last() =~= v.drop_last());
        assert(map_of(w) =~= map_of(v).insert(v[j].0 as int, entry_view(x)));
    } else {
        lemma_map_of_update(v.drop_last(), j, x);
        assert(w.drop_last() =~= v.drop_last().update(j, (v[j].0, x)));
        assert(v.last().0 != v[j].0);
        assert(map_of(w) =~= map_of(v).insert(v[j].0 as int, entry_view(x)));
    }
}

fn find_line(v: &Vec<(usize, Option<Vec<Vec<char>>>)>, line: usize) -> (r: Option<usize>)
    ensures
        match r {
            Some(j) => j < v.len() && v@[j as int].0 == line,
            None => forall|i: int| 0 <= i < v.len() ==> v@[i].0 != line,
        },
{
    let mut j: usize = 0;
    while j < v.len()
        invariant
            j <= v.len(),
            forall|i: int| 0 <= i < j ==> v@[i].0 != line,
        decreases v.len() - j,
    {
        if v[j].0 == line {
            return Some(j);
        }
        j = j + 1;
    }
    None
}

fn clone_names(v: &Vec<Vec<char>>) -> (r: Vec<Vec<char>>)
    ensures
        seqs_of(r@) == seqs_of(v@),
{
    let mut r: Vec<Vec<char>> = Vec::new();
    let mut k: usize = 0;
    while k < v.len()
        invariant
            k <= v.len(),
            seqs_of(r@) == seqs_of(v@).take(k as int),
        decreases v.len() - k,
    {
        let w = slice_of(&v[k], 0, v[k].len());
        assert(v@[k as int]@.subrange(0, v@[k as int]@.len() as int) =~= v@[k as int]@);
        proof {
            lemma_seqs_of_push(r@, w);
        }
        r.push(w);
        k = k + 1;
        assert(seqs_of(r@) =~= seqs_of(v@).take(k as int));
    }
    assert(seqs_of(v@).take(v.len() as int) =~= seqs_of(v@));
    r
}

fn clone_entry(e: &Option<Vec<Vec<char>>>) -> (r: Option<Vec<Vec<char>>>)
    ensures
        entry_view(r) == entry_view(*e),
{
    match e {
        None => None,
        Some(v) => Some(clone_names(v)),
    }
}

proof fn lemma_set_of_concat(a: Seq<Seq<char>>, b: Seq<Seq<char>>)
    ensures
        set_of(a + b) == set_of(a).union(set_of(b)),
{
    assert forall|w: Seq<char>| set_of(a + b).contains(w) == set_of(a).union(set_of(b)).contains(w) by {
        if set_of(a + b).contains(w) {
            let k = choose|k: int| 0 <= k < (a + b).len() && (a + b)[k] == w;
            if k >= a.len() {
                assert(b[k - a.len()] == w);
            }
        }
        if set_of(b).contains(w) {
            let k = choose|k: int| 0 <= k < b.len() && b[k] == w;
            assert((a + b)[k + a.len()] == w);
        }
        if set_of(a).contains(w) {
            let k = choose|k: int| 0 <= k < a.len() && a[k] == w;
            assert((a + b)[k] == w);
        }
    }
    assert(set_of(a + b) =~= set_of(a).union(set_of(b)));
}

/// Adds a directive to the suppressions of `line` (`merge`).
fn merge(m: &mut Vec<(usize, Option<Vec<Vec<char>>>)>, line: usize, e: Option<Vec<Vec<char>>>)
    requires
        keys_unique(old(m)@),
    ensures
        keys_unique(final(m)@),
        map_of(final(m)@) == merge_spec(map_of(old(m)@), line as int, entry_view(e)),
{
    proof {
        lemma_map_of_dom(m@, line as int);
    }
    match find_line(m, line) {
        None => {
            let ghost v0 = m@;
            m.push((line, e));
            assert(m@.drop_last() =~= v0);
            assert(keys_unique(m@));
        },
        Some(j) => {
            proof {
                lemma_map_of_at(m@, j as int);
            }
            let ghost v0 = m@;
            match e {
                None => {
                    m.set(j, (line, None));
                    proof {
                        lemma_map_of_update(v0, j as int, None);
                    }
                },
                Some(new) => {
                    let cur = clone_entry(&m[j].1);
                    match cur {
                        Some(mut set) => {
                            let ghost s0 = seqs_of(set@);
                            let mut k: usize = 0;
                            while k < new.len()
                                invariant
                                    k <= new.len(),
                                    seqs_of(set@) == s0 + seqs_of(new@).take(k as int),
                                decreases new.len() - k,
                            {
                                let w = slice_of(&new[k], 0, new[k].len());
                                assert(new@[k as int]@.subrange(0, new@[k as int]@.len() as int) =~= new@[k as int]@);
                                proof {
                                    lemma_seqs_of_push(set@, w);
                                }
                                set.push(w);
                                k = k + 1;
                                assert(seqs_of(set@) =~= s0 + seqs_of(new@).take(k as int));
                            }
                            assert(seqs_of(new@).take(new.len() as int) =~= seqs_of(new@));
                            proof {
                                lemma_set_of_concat(s0, seqs_of(new@));
                            }
                            m.set(j, (line, Some(set)));
                            proof {
                                lemma_map_of_update(v0, j as int, Some(set));
                            }
                        },
                        None => {},
                    }
                },
            }
        },
    }
}

fn strip_closers_exec(s: &Vec<char>) -> (r: Vec<char>)
    ensures
        r@ == strip_closers(s@),
{
    let mut e = s.len();
    assert(s@.subrange(0, s.len() as int) =~= s@);
    while e >= 3 && s[e - 3] == '-' && s[e - 2] == '-' && s[e - 1] == '>'
        invariant
            e <= s.len(),
            strip_closers(s@) == strip_closers(s@.subrange(0, e as int)),
        decreases e,
    {
        let ghost t = s@.subrange(0, e as int);
        assert(ends_with(t, comment_close())) by {
            assert(t.subrange(t.len() - 3, t.len() as int) =~= comment_close());
        }
        assert(t.subrange(0, t.len() - 3) =~= s@.subrange(0, e - 3));
        e = e - 3;
    }
    proof {
        let t = s@.subrange(0, e as int);
        if t.len() >= 3 && ends_with(t, comment_close()) {
            assert(t.subrange(t.len() - 3, t.len() as int)[0] == '-');
            assert(t.subrange(t.len() - 3, t.len() as int)[1] == '-');
            assert(t.subrange(t.len() - 3, t.len() as int)[2] == '>');
        }
    }
    slice_of(s, 0, e)
}

fn names_exec(s: &Vec<char>) -> (r: Vec<Vec<char>>)
    ensures
        seqs_of(r@) == names_of(s@),
{
    let mut out: Vec<Vec<char>> = Vec::new();
    let mut cur: Vec<char> = Vec::new();
    let mut i: usize = 0;
    while i < s.len()
        invariant
            i <= s.len(),
            names_of(s@) == seqs_of(out@) + names_from(s@, i as int, cur@),
        decreases s.len() - i,
    {
        let c = s[i];
        let ghost o0 = seqs_of(out@);
        if c == ' ' || c == ',' || c == ':' {
            if cur.len() > 0 {
                out.push(cur);
                assert(seqs_of(out@) =~= o0 + seq![cur@]);
            }
            cur = Vec::new();
        } else {
            cur.push(c);
        }
        i = i + 1;
    }
    let ghost o1 = seqs_of(out@);
    if cur.len() > 0 {
        out.push(cur);
        assert(seqs_of(out@) =~= o1 + seq![cur@]);
    } else {
        assert(seqs_of(out@) =~= o1 + Seq::<Seq<char>>::empty());
    }
    out
}

fn directive_exec(line: &Vec<char>, ig: &Vec<char>) -> (r: Option<Option<Vec<Vec<char>>>>)
    requires
        ig@ == ignore_word(),
    ensures
        match r {
            None => directive(line@) is None,
            Some(e) => directive(line@) == Some(entry_view(e)),
        },
{
    proof {
        lemma_find_from(line@, ig@, 0);
    }
    match find(line, ig, 0) {
        None => None,
        Some(p) => {
            assert(occurs_at(line@, ig@, p as int));
            let ll = line.len();
            assert(p + ig.len() <= ll);
            let q = p + ig.len();
            proof {
                lemma_find_from(line@, ig@, q as int);
            }
            let rest = match find(line, ig, q) {
                Some(r) => slice_of(line, q, r),
                None => slice_of(line, q, line.len()),
            };
            let t1 = trimmed(&rest);
            let t2 = strip_closers_exec(&t1);
            let t3 = trimmed(&t2);
            let names = names_exec(&t3);
            if names.len() == 0 {
                Some(None)
            } else {
                Some(Some(names))
            }
        },
    }
}

/// Every `correo-ignore` directive of a document, by the lines it covers.
pub fn scan(text: &str) -> (r: Suppressions)
    requires
        text@.len() + 3 <= usize::MAX,
    ensures
        r.wf(),
        r@ == spec_scan(text@),
{
    let s = chars_of(text);
    let ls = split_lines(&s);
    let ghost g = seqs_of(ls@);
    proof {
        lemma_split_nl_len(s@);
        lemma_count_char_le(s@, '\n');
        assert(lines_of(s@).len() <= split_nl(s@).len());
    }
    let ig = chars_of("correo-ignore");
    assert(ig@ == ignore_word()) by {
        reveal_strlit("correo-ignore");
    }
    let mut m: Vec<(usize, Option<Vec<Vec<char>>>)> = Vec::new();
    let mut i: usize = 0;
    assert(map_of(m@) =~= Map::<int, Option<Set<Seq<char>>>>::empty());
    while i < ls.len()
        invariant
            i <= ls.len(),
            ls.len() <= s.len() + 1,
            s.len() + 3 <= usize::MAX,
            g == seqs_of(ls@),
            g == lines_of(text@),
            ig@ == ignore_word(),
            keys_unique(m@),
            map_of(m@) == sup_lines(g, i as int),
        decreases ls.len() - i,
    {
        match directive_exec(&ls[i], &ig) {
            None => {},
            Some(e) => {
                let e2 = clone_entry(&e);
                merge(&mut m, i + 1, e);
                merge(&mut m, i + 2, e2);
            },
        }
        i = i + 1;
    }
    Suppressions { by_line: m }
}

fn names_contain(v: &Vec<Vec<char>>, w: &Vec<char>) -> (r: bool)
    ensures
        r == set_of(seqs_of(v@)).contains(w@),
{
    let mut k: usize = 0;
    while k < v.len()
        invariant
            k <= v.len(),
            forall|j: int| 0 <= j < k ==> v@[j]@ != w@,
        decreases v.len() - k,
    {
        if vec_eq(&v[k], w) {
            assert(seqs_of(v@)[k as int] == w@);
            return true;
        }
        k = k + 1;
    }
    assert(!set_of(seqs_of(v@)).contains(w@)) by {
        if set_of(seqs_of(v@)).contains(w@) {
            let j = choose|j: int| 0 <= j < seqs_of(v@).len() && seqs_of(v@)[j] == w@;
            assert(v@[j]@ == w@);
        }
    }
    false
}

impl Suppressions {
    /// Whether a finding of `detector`/`rule` on `line` is suppressed.
    pub fn hit(&self, line: usize, detector: &str, rule: &str) -> (r: bool)
        requires
            self.wf(),
        ensures
            r == spec_hit(self@, line as int, detector@, rule@),
    {
        proof {
            lemma_map_of_dom(self.by_line@, line as int);
        }
        match find_line(&self.by_line, line) {
            None => false,
            Some(j) => {
                proof {
                    lemma_map_of_at(self.by_line@, j as int);
                }
                match &self.by_line[j].1 {
                    None => true,
                    Some(set) => {
                        let d = chars_of(detector);
                        let r = chars_of(rule);
                        names_contain(set, &d) || names_contain(set, &r)
                    },
                }
            },
        }
    }
}

// ---------------------------------------------------------------------------
// What a directive guarantees.

proof fn lemma_merge_keeps_hit(
    m: Map<int, Option<Set<Seq<char>>>>,
    l: int,
    e: Option<Set<Seq<char>>>,
    line: int,
    d: Seq<char>,
    r: Seq<char>,
)
    requires
        spec_hit(m, line, d, r),
    ensures
        spec_hit(merge_spec(m, l, e), line, d, r),
{
}

proof fn lemma_merge_hits(m: Map<int, Option<Set<Seq<char>>>>, l: int, e: Option<Set<Seq<char>>>, d: Seq<char>, r: Seq<char>)
    requires
        match e {
            None => true,
            Some(s) => s.contains(d) || s.contains(r),
        },
    ensures
        spec_hit(merge_spec(m, l, e), l, d, r),
{
}

proof fn lemma_hit_persists(ls: Seq<Seq<char>>, k: int, line: int, d: Seq<char>, r: Seq<char>)
    requires
        0 <= k <= ls.len(),
        spec_hit(sup_lines(ls, k), line, d, r),
    ensures
        spec_hit(sup_lines(ls, ls.len() as int), line, d, r),
    decreases ls.len() - k,
{
    if k < ls.len() {
        let m = sup_lines(ls, k);
        match directive(ls[k]) {
            None => {},
            Some(e) => {
                lemma_merge_keeps_hit(m, k + 1, e, line, d, r);
                lemma_merge_keeps_hit(merge_spec(m, k + 1, e), k + 2, e, line, d, r);
            },
        }
        lemma_hit_persists(ls, k + 1, line, d, r);
    }
}

/// A directive on line `i + 1` that names nothing, or that names `detector`
/// or `rule`, suppresses that finding on its own line and on the next.
pub proof fn lemma_directive_suppresses(text: Seq<char>, i: int, detector: Seq<char>, rule: Seq<char>)
    requires
        0 <= i < lines_of(text).len(),
        directive(lines_of(text)[i]) matches Some(e) && match e {
            None => true,
            Some(s) => s.contains(detector) || s.contains(rule),
        },
    ensures
        spec_hit(spec_scan(text), i + 1, detector, rule),
        spec_hit(spec_scan(text), i + 2, detector, rule),
{
    let ls = lines_of(text);
    let e = directive(ls[i])->0;
    let m = sup_lines(ls, i);
    lemma_merge_hits(m, i + 1, e, detector, rule);
    lemma_merge_keeps_hit(merge_spec(m, i + 1, e), i + 2, e, i + 1, detector, rule);
    lemma_merge_hits(merge_spec(m, i + 1, e), i + 2, e, detector, rule);
    lemma_hit_persists(ls, i + 1, i + 1, detector, rule);
    lemma_hit_persists(ls, i + 1, i + 2, detector, rule);
}

proof fn lemma_untouched(ls: Seq<Seq<char>>, k: int, line: int)
    requires
        0 <= k <= ls.len(),
        forall|i: int| 0 <= i < k && #[trigger] directive(ls[i]) is Some ==> i + 1 != line && i + 2 != line,
    ensures
        !sup_lines(ls, k).dom().contains(line),
    decreases k,
{
    if k > 0 {
        lemma_untouched(ls, k - 1, line);
    }
}

/// A line with no directive on it or on the line before is never suppressed.
pub proof fn lemma_only_covered_lines(text: Seq<char>, line: int, detector: Seq<char>, rule: Seq<char>)
    requires
        forall|i: int|
            0 <= i < lines_of(text).len() && #[trigger] directive(lines_of(text)[i]) is Some ==> i + 1 != line && i + 2
                != line,
    ensures
        !spec_hit(spec_scan(text), line, detector, rule),
{
    lemma_untouched(lines_of(text), lines_of(text).len() as int, line);
}


/// The order of two directives on one line does not matter, and a bare
/// directive absorbs a named one: merging `e1` then `e2` into line `l` gives
/// what merging `e2` then `e1` gives, and if either is bare the line
/// silences everything.
pub proof fn lemma_merge_order_free(
    m: Map<int, Option<Set<Seq<char>>>>,
    l: int,
    e1: Option<Set<Seq<char>>>,
    e2: Option<Set<Seq<char>>>,
)
    ensures
        merge_spec(merge_spec(m, l, e1), l, e2) == merge_spec(merge_spec(m, l, e2), l, e1),
        (e1 is None || e2 is None) ==> merge_spec(merge_spec(m, l, e1), l, e2)[l] is None,
{
    let a = merge_spec(merge_spec(m, l, e1), l, e2);
    let b = merge_spec(merge_spec(m, l, e2), l, e1);
    match (e1, e2) {
        (Some(n1), Some(n2)) => {
            if m.dom().contains(l) {
                match m[l] {
                    Some(s) => {
                        assert(s.union(n1).union(n2) =~= s.union(n2).union(n1));
                    },
                    None => {},
                }
            } else {
                assert(n1.union(n2) =~= n2.union(n1));
            }
        },
        _ => {},
    }
    assert(a =~= b);
}


/// Whether the directive `e` covers `detector`/`rule`: a bare one covers
/// everything, a named one what it names.
pub open spec fn covers(e: Option<Set<Seq<char>>>, detector: Seq<char>, rule: Seq<char>) -> bool {
    match e {
        None => true,
        Some(s) => s.contains(detector) || s.contains(rule),
    }
}

/// Whether the line `l` holds a directive covering `detector`/`rule`.
pub open spec fn dir_covers(l: Seq<char>, detector: Seq<char>, rule: Seq<char>) -> bool {
    match directive(l) {
        None => false,
        Some(e) => covers(e, detector, rule),
    }
}

/// Some directive among the first `k` lines of `ls` stands on line `line`
/// or on the line before it (1-based) and covers `detector`/`rule`.
pub open spec fn covered_by(ls: Seq<Seq<char>>, k: int, line: int, detector: Seq<char>, rule: Seq<char>) -> bool {
    exists|i: int|
        0 <= i < k && (i + 1 == line || i + 2 == line) && #[trigger] dir_covers(ls[i], detector, rule)
}

proof fn lemma_merge_hit_iff(
    m: Map<int, Option<Set<Seq<char>>>>,
    l: int,
    e: Option<Set<Seq<char>>>,
    line: int,
    d: Seq<char>,
    r: Seq<char>,
)
    ensures
        spec_hit(merge_spec(m, l, e), line, d, r) <==> (spec_hit(m, line, d, r) || (line == l && covers(e, d, r))),
{
}

proof fn lemma_sup_lines_iff(ls: Seq<Seq<char>>, k: int, line: int, d: Seq<char>, r: Seq<char>)
    requires
        0 <= k <= ls.len(),
    ensures
        spec_hit(sup_lines(ls, k), line, d, r) <==> covered_by(ls, k, line, d, r),
    decreases k,
{
    if k > 0 {
        lemma_sup_lines_iff(ls, k - 1, line, d, r);
        let m = sup_lines(ls, k - 1);
        match directive(ls[k - 1]) {
            None => {
                if covered_by(ls, k, line, d, r) {
                    let i = choose|i: int|
                        0 <= i < k && (i + 1 == line || i + 2 == line) && #[trigger] dir_covers(ls[i], d, r);
                    assert(i != k - 1);
                    assert(covered_by(ls, k - 1, line, d, r));
                }
                if covered_by(ls, k - 1, line, d, r) {
                    let i = choose|i: int|
                        0 <= i < k - 1 && (i + 1 == line || i + 2 == line) && #[trigger] dir_covers(ls[i], d, r);
                    assert(covered_by(ls, k, line, d, r));
                }
            },
            Some(e) => {
                lemma_merge_hit_iff(m, k, e, line, d, r);
                lemma_merge_hit_iff(merge_spec(m, k, e), k + 1, e, line, d, r);
                if covered_by(ls, k, line, d, r) {
                    let i = choose|i: int|
                        0 <= i < k && (i + 1 == line || i + 2 == line) && #[trigger] dir_covers(ls[i], d, r);
                    if i < k - 1 {
                        assert(covered_by(ls, k - 1, line, d, r));
                    }
                }
                if covered_by(ls, k - 1, line, d, r) {
                    let i = choose|i: int|
                        0 <= i < k - 1 && (i + 1 == line || i + 2 == line) && #[trigger] dir_covers(ls[i], d, r);
                    assert(covered_by(ls, k, line, d, r));
                }
                if (line == k || line == k + 1) && covers(e, d, r) {
                    assert(dir_covers(ls[k - 1], d, r));
                    assert(covered_by(ls, k, line, d, r));
                }
            },
        }
    }
}

/// The suppression law: a finding of `detector`/`rule` on line `line` is
/// silenced exactly when a directive stands on that line or on the line
/// before it (lines counted from 1, as `str::lines` reads them) and is bare
/// or names the detector or the rule.
pub proof fn lemma_suppression_law(text: Seq<char>, line: int, detector: Seq<char>, rule: Seq<char>)
    ensures
        spec_hit(spec_scan(text), line, detector, rule) <==> covered_by(
            lines_of(text),
            lines_of(text).len() as int,
            line,
            detector,
            rule,
        ),
{
    lemma_sup_lines_iff(lines_of(text), lines_of(text).len() as int, line, detector, rule);
}

/// A text without the directive word suppresses nothing.
pub proof fn lemma_no_directive_no_hit(text: Seq<char>, line: int, detector: Seq<char>, rule: Seq<char>)
    requires
        !contains(text, ignore_word()),
    ensures
        !spec_hit(spec_scan(text), line, detector, rule),
{
    let ls = lines_of(text);
    lemma_suppression_law(text, line, detector, rule);
    if covered_by(ls, ls.len() as int, line, detector, rule) {
        let i = choose|i: int|
            0 <= i < ls.len() && (i + 1 == line || i + 2 == line) && #[trigger] dir_covers(ls[i], detector, rule);
        let l = ls[i];
        let w = ignore_word();
        lemma_find_from(l, w, 0);
        let j = find_from(l, w, 0)->0;
        lemma_line_within(text, i);
        let a = choose|a: int| 0 <= a && a + l.len() <= text.len() && #[trigger] text.subrange(a, a + l.len()) == l;
        assert(text.subrange(a + j, a + j + w.len()) =~= l.subrange(j, j + w.len()));
        assert(occurs_at(text, w, a + j));
        lemma_find_from(text, w, 0);
    }
}

} // verus!
