// kinoshita.rs — the mechanical floor of 木下是雄『理科系の作文技術』: sentence
// length, comma count, mixed politeness, idiomatic double negatives, hedge
// pile-ups, demonstrative chains, chained の, the verbose potential, and
// (advisory) runs of sentence-initial connectives. Checked per sentence of
// the prose; thresholds are operating floors.
use vstd::prelude::*;

use crate::report::{lemma_vios_push, one, push_vio, sort_violations, vio_view, vios_view, VioV};
pub use crate::report::{Severity, Violation};
use crate::prose::{fence, is_terminator, sentences_of, sents_view, spec_sentences, SentV};
use crate::text::{
    alt_find_exec, alt_find_from, alt_len, alt_len_exec, alt_matches, alt_matches_exec, chars_of, count_char,
    count_of, dec, ends_with, ends_with_exec, find, find_from, first_after, has, contains, insert_by_line,
    join_with, lemma_find_from, push_all, replace_all, replace_exec, replace_from, split_lines, lines_of, starts_with, string_of, trim_start, trimmed_start, at, lemma_first_after, lemma_seqs_of_push, push_dec_str, push_joined, push_vec_str,
    seqs_of, slice_of, sort_by_line, lines_sorted, lemma_sort_by_line_sorted, split_by, split_by_exec,
    join_nl, lemma_join_split_by, lemma_lines_of_join, no_crlf,
};
use crate::unicode::{han, is_han, is_white_space, white_space};

verus! {

/// Arguments of the readability command.
pub struct KinoshitaArgs {
    /// Maximum characters per sentence (default 100).
    pub max_sentence: usize,
    /// Maximum 、 per sentence (default 4).
    pub max_ten: usize,
    pub advisory: bool,
    pub files: Vec<String>,
}

/// Idiomatic double negatives (なくはな|なくもな|ないことはな|ないとは(言|い)えな|ないわけではな).
pub open spec fn dneg_alts() -> Seq<Seq<char>> {
    seq![seq!['な', 'く', 'は', 'な'], seq!['な', 'く', 'も', 'な'], seq!['な', 'い', 'こ', 'と', 'は', 'な'], seq!['な', 'い', 'と', 'は', '言', 'え', 'な'], seq!['な', 'い', 'と', 'は', 'い', 'え', 'な'], seq!['な', 'い', 'わ', 'け', 'で', 'は', 'な']]
}

fn dneg_alts_vec() -> (v: Vec<Vec<char>>)
    ensures
        seqs_of(v@) == dneg_alts(),
{
    let mut v: Vec<Vec<char>> = Vec::new();
    let w0 = vec!['な', 'く', 'は', 'な'];
    assert(w0@ =~= seq!['な', 'く', 'は', 'な']);
    proof {
        lemma_seqs_of_push(v@, w0);
    }
    v.push(w0);
    let w1 = vec!['な', 'く', 'も', 'な'];
    assert(w1@ =~= seq!['な', 'く', 'も', 'な']);
    proof {
        lemma_seqs_of_push(v@, w1);
    }
    v.push(w1);
    let w2 = vec!['な', 'い', 'こ', 'と', 'は', 'な'];
    assert(w2@ =~= seq!['な', 'い', 'こ', 'と', 'は', 'な']);
    proof {
        lemma_seqs_of_push(v@, w2);
    }
    v.push(w2);
    let w3 = vec!['な', 'い', 'と', 'は', '言', 'え', 'な'];
    assert(w3@ =~= seq!['な', 'い', 'と', 'は', '言', 'え', 'な']);
    proof {
        lemma_seqs_of_push(v@, w3);
    }
    v.push(w3);
    let w4 = vec!['な', 'い', 'と', 'は', 'い', 'え', 'な'];
    assert(w4@ =~= seq!['な', 'い', 'と', 'は', 'い', 'え', 'な']);
    proof {
        lemma_seqs_of_push(v@, w4);
    }
    v.push(w4);
    let w5 = vec!['な', 'い', 'わ', 'け', 'で', 'は', 'な'];
    assert(w5@ =~= seq!['な', 'い', 'わ', 'け', 'で', 'は', 'な']);
    proof {
        lemma_seqs_of_push(v@, w5);
    }
    v.push(w5);
    assert(seqs_of(v@) =~= dneg_alts());
    v
}

/// Hedges.
pub open spec fn hedge_alts() -> Seq<Seq<char>> {
    seq![seq!['と', '思', 'わ', 'れ'], seq!['と', '考', 'え', 'ら', 'れ'], seq!['か', 'も', 'し', 'れ'], seq!['の', 'で', 'は', 'な', 'い', 'か'], seq!['で', 'は', 'な', 'い', 'だ', 'ろ', 'う', 'か'], seq!['気', 'が', 'す', 'る'], seq!['感', 'じ', 'が', 'す', 'る'], seq!['よ', 'う', 'に', '思'], seq!['よ', 'う', 'に', '見', 'え'], seq!['と', 'み', 'ら', 'れ']]
}

fn hedge_alts_vec() -> (v: Vec<Vec<char>>)
    ensures
        seqs_of(v@) == hedge_alts(),
{
    let mut v: Vec<Vec<char>> = Vec::new();
    let w0 = vec!['と', '思', 'わ', 'れ'];
    assert(w0@ =~= seq!['と', '思', 'わ', 'れ']);
    proof {
        lemma_seqs_of_push(v@, w0);
    }
    v.push(w0);
    let w1 = vec!['と', '考', 'え', 'ら', 'れ'];
    assert(w1@ =~= seq!['と', '考', 'え', 'ら', 'れ']);
    proof {
        lemma_seqs_of_push(v@, w1);
    }
    v.push(w1);
    let w2 = vec!['か', 'も', 'し', 'れ'];
    assert(w2@ =~= seq!['か', 'も', 'し', 'れ']);
    proof {
        lemma_seqs_of_push(v@, w2);
    }
    v.push(w2);
    let w3 = vec!['の', 'で', 'は', 'な', 'い', 'か'];
    assert(w3@ =~= seq!['の', 'で', 'は', 'な', 'い', 'か']);
    proof {
        lemma_seqs_of_push(v@, w3);
    }
    v.push(w3);
    let w4 = vec!['で', 'は', 'な', 'い', 'だ', 'ろ', 'う', 'か'];
    assert(w4@ =~= seq!['で', 'は', 'な', 'い', 'だ', 'ろ', 'う', 'か']);
    proof {
        lemma_seqs_of_push(v@, w4);
    }
    v.push(w4);
    let w5 = vec!['気', 'が', 'す', 'る'];
    assert(w5@ =~= seq!['気', 'が', 'す', 'る']);
    proof {
        lemma_seqs_of_push(v@, w5);
    }
    v.push(w5);
    let w6 = vec!['感', 'じ', 'が', 'す', 'る'];
    assert(w6@ =~= seq!['感', 'じ', 'が', 'す', 'る']);
    proof {
        lemma_seqs_of_push(v@, w6);
    }
    v.push(w6);
    let w7 = vec!['よ', 'う', 'に', '思'];
    assert(w7@ =~= seq!['よ', 'う', 'に', '思']);
    proof {
        lemma_seqs_of_push(v@, w7);
    }
    v.push(w7);
    let w8 = vec!['よ', 'う', 'に', '見', 'え'];
    assert(w8@ =~= seq!['よ', 'う', 'に', '見', 'え']);
    proof {
        lemma_seqs_of_push(v@, w8);
    }
    v.push(w8);
    let w9 = vec!['と', 'み', 'ら', 'れ'];
    assert(w9@ =~= seq!['と', 'み', 'ら', 'れ']);
    proof {
        lemma_seqs_of_push(v@, w9);
    }
    v.push(w9);
    assert(seqs_of(v@) =~= hedge_alts());
    v
}

/// Demonstratives.
pub open spec fn demon_alts() -> Seq<Seq<char>> {
    seq![seq!['こ', 'れ'], seq!['そ', 'れ'], seq!['あ', 'れ'], seq!['こ', 'の'], seq!['そ', 'の'], seq!['あ', 'の'], seq!['こ', 'こ'], seq!['そ', 'こ']]
}

fn demon_alts_vec() -> (v: Vec<Vec<char>>)
    ensures
        seqs_of(v@) == demon_alts(),
{
    let mut v: Vec<Vec<char>> = Vec::new();
    let w0 = vec!['こ', 'れ'];
    assert(w0@ =~= seq!['こ', 'れ']);
    proof {
        lemma_seqs_of_push(v@, w0);
    }
    v.push(w0);
    let w1 = vec!['そ', 'れ'];
    assert(w1@ =~= seq!['そ', 'れ']);
    proof {
        lemma_seqs_of_push(v@, w1);
    }
    v.push(w1);
    let w2 = vec!['あ', 'れ'];
    assert(w2@ =~= seq!['あ', 'れ']);
    proof {
        lemma_seqs_of_push(v@, w2);
    }
    v.push(w2);
    let w3 = vec!['こ', 'の'];
    assert(w3@ =~= seq!['こ', 'の']);
    proof {
        lemma_seqs_of_push(v@, w3);
    }
    v.push(w3);
    let w4 = vec!['そ', 'の'];
    assert(w4@ =~= seq!['そ', 'の']);
    proof {
        lemma_seqs_of_push(v@, w4);
    }
    v.push(w4);
    let w5 = vec!['あ', 'の'];
    assert(w5@ =~= seq!['あ', 'の']);
    proof {
        lemma_seqs_of_push(v@, w5);
    }
    v.push(w5);
    let w6 = vec!['こ', 'こ'];
    assert(w6@ =~= seq!['こ', 'こ']);
    proof {
        lemma_seqs_of_push(v@, w6);
    }
    v.push(w6);
    let w7 = vec!['そ', 'こ'];
    assert(w7@ =~= seq!['そ', 'こ']);
    proof {
        lemma_seqs_of_push(v@, w7);
    }
    v.push(w7);
    assert(seqs_of(v@) =~= demon_alts());
    v
}

/// Sentence-initial connectives with their comma.
pub open spec fn connector_alts() -> Seq<Seq<char>> {
    seq![seq!['ま', 'た', '、'], seq!['さ', 'ら', 'に', '、'], seq!['そ', 'し', 'て', '、'], seq!['加', 'え', 'て', '、'], seq!['一', '方', '、'], seq!['な', 'お', '、'], seq!['た', 'だ', 'し', '、'], seq!['つ', 'ま', 'り', '、'], seq!['次', 'に', '、'], seq!['ま', 'ず', '、']]
}

pub fn connector_alts_vec() -> (v: Vec<Vec<char>>)
    ensures
        seqs_of(v@) == connector_alts(),
{
    let mut v: Vec<Vec<char>> = Vec::new();
    let w0 = vec!['ま', 'た', '、'];
    assert(w0@ =~= seq!['ま', 'た', '、']);
    proof {
        lemma_seqs_of_push(v@, w0);
    }
    v.push(w0);
    let w1 = vec!['さ', 'ら', 'に', '、'];
    assert(w1@ =~= seq!['さ', 'ら', 'に', '、']);
    proof {
        lemma_seqs_of_push(v@, w1);
    }
    v.push(w1);
    let w2 = vec!['そ', 'し', 'て', '、'];
    assert(w2@ =~= seq!['そ', 'し', 'て', '、']);
    proof {
        lemma_seqs_of_push(v@, w2);
    }
    v.push(w2);
    let w3 = vec!['加', 'え', 'て', '、'];
    assert(w3@ =~= seq!['加', 'え', 'て', '、']);
    proof {
        lemma_seqs_of_push(v@, w3);
    }
    v.push(w3);
    let w4 = vec!['一', '方', '、'];
    assert(w4@ =~= seq!['一', '方', '、']);
    proof {
        lemma_seqs_of_push(v@, w4);
    }
    v.push(w4);
    let w5 = vec!['な', 'お', '、'];
    assert(w5@ =~= seq!['な', 'お', '、']);
    proof {
        lemma_seqs_of_push(v@, w5);
    }
    v.push(w5);
    let w6 = vec!['た', 'だ', 'し', '、'];
    assert(w6@ =~= seq!['た', 'だ', 'し', '、']);
    proof {
        lemma_seqs_of_push(v@, w6);
    }
    v.push(w6);
    let w7 = vec!['つ', 'ま', 'り', '、'];
    assert(w7@ =~= seq!['つ', 'ま', 'り', '、']);
    proof {
        lemma_seqs_of_push(v@, w7);
    }
    v.push(w7);
    let w8 = vec!['次', 'に', '、'];
    assert(w8@ =~= seq!['次', 'に', '、']);
    proof {
        lemma_seqs_of_push(v@, w8);
    }
    v.push(w8);
    let w9 = vec!['ま', 'ず', '、'];
    assert(w9@ =~= seq!['ま', 'ず', '、']);
    proof {
        lemma_seqs_of_push(v@, w9);
    }
    v.push(w9);
    assert(seqs_of(v@) =~= connector_alts());
    v
}

/// Polite (desu/masu) sentence endings.
pub open spec fn polite_alts() -> Seq<Seq<char>> {
    seq![seq!['で', 'す'], seq!['ま', 'す'], seq!['ま', 'せ', 'ん'], seq!['で', 'し', 'た'], seq!['ま', 'し', 'た'], seq!['ま', 'し', 'ょ', 'う'], seq!['で', 'し', 'ょ', 'う'], seq!['く', 'だ', 'さ', 'い']]
}

fn polite_alts_vec() -> (v: Vec<Vec<char>>)
    ensures
        seqs_of(v@) == polite_alts(),
{
    let mut v: Vec<Vec<char>> = Vec::new();
    let w0 = vec!['で', 'す'];
    assert(w0@ =~= seq!['で', 'す']);
    proof {
        lemma_seqs_of_push(v@, w0);
    }
    v.push(w0);
    let w1 = vec!['ま', 'す'];
    assert(w1@ =~= seq!['ま', 'す']);
    proof {
        lemma_seqs_of_push(v@, w1);
    }
    v.push(w1);
    let w2 = vec!['ま', 'せ', 'ん'];
    assert(w2@ =~= seq!['ま', 'せ', 'ん']);
    proof {
        lemma_seqs_of_push(v@, w2);
    }
    v.push(w2);
    let w3 = vec!['で', 'し', 'た'];
    assert(w3@ =~= seq!['で', 'し', 'た']);
    proof {
        lemma_seqs_of_push(v@, w3);
    }
    v.push(w3);
    let w4 = vec!['ま', 'し', 'た'];
    assert(w4@ =~= seq!['ま', 'し', 'た']);
    proof {
        lemma_seqs_of_push(v@, w4);
    }
    v.push(w4);
    let w5 = vec!['ま', 'し', 'ょ', 'う'];
    assert(w5@ =~= seq!['ま', 'し', 'ょ', 'う']);
    proof {
        lemma_seqs_of_push(v@, w5);
    }
    v.push(w5);
    let w6 = vec!['で', 'し', 'ょ', 'う'];
    assert(w6@ =~= seq!['で', 'し', 'ょ', 'う']);
    proof {
        lemma_seqs_of_push(v@, w6);
    }
    v.push(w6);
    let w7 = vec!['く', 'だ', 'さ', 'い'];
    assert(w7@ =~= seq!['く', 'だ', 'さ', 'い']);
    proof {
        lemma_seqs_of_push(v@, w7);
    }
    v.push(w7);
    assert(seqs_of(v@) =~= polite_alts());
    v
}

/// The verbose potential (することが(でき|可能)).
pub open spec fn verbose_alts() -> Seq<Seq<char>> {
    seq![seq!['す', 'る', 'こ', 'と', 'が', 'で', 'き'], seq!['す', 'る', 'こ', 'と', 'が', '可', '能']]
}

fn verbose_alts_vec() -> (v: Vec<Vec<char>>)
    ensures
        seqs_of(v@) == verbose_alts(),
{
    let mut v: Vec<Vec<char>> = Vec::new();
    let w0 = vec!['す', 'る', 'こ', 'と', 'が', 'で', 'き'];
    assert(w0@ =~= seq!['す', 'る', 'こ', 'と', 'が', 'で', 'き']);
    proof {
        lemma_seqs_of_push(v@, w0);
    }
    v.push(w0);
    let w1 = vec!['す', 'る', 'こ', 'と', 'が', '可', '能'];
    assert(w1@ =~= seq!['す', 'る', 'こ', 'と', 'が', '可', '能']);
    proof {
        lemma_seqs_of_push(v@, w1);
    }
    v.push(w1);
    assert(seqs_of(v@) =~= verbose_alts());
    v
}

// ---------------------------------------------------------------------------
// 「の」chains: `(?:[^\s。、！？の]{1,12}の){3,}` on the sentence with 『titles』
// masked to ◯.

/// A character that may stand in a segment before の.
pub open spec fn is_chain_char(c: char) -> bool {
    !is_white_space(c) && c != '。' && c != '、' && c != '！' && c != '？' && c != 'の'
}

pub open spec fn run_chain(s: Seq<char>, j: int) -> int
    decreases s.len() - j,
{
    if 0 <= j < s.len() && is_chain_char(s[j]) {
        run_chain(s, j + 1)
    } else {
        j
    }
}

/// One segment (1 to 12 chain characters and の) at `q`: its end, or -1.
pub open spec fn seg_end(s: Seq<char>, q: int) -> int {
    let r = run_chain(s, q);
    if 0 <= q && q + 1 <= r && r <= q + 12 && r < s.len() && s[r] == 'の' {
        r + 1
    } else {
        -1
    }
}

/// As many segments as follow one another from `q`: the end and their number.
pub open spec fn chain_from(s: Seq<char>, q: int) -> (int, int)
    decreases s.len() - q,
{
    if q < 0 || q >= s.len() {
        (q, 0)
    } else {
        let e = seg_end(s, q);
        if e <= q || e > s.len() {
            (q, 0)
        } else {
            let t = chain_from(s, e);
            (t.0, t.1 + 1)
        }
    }
}

/// The leftmost chain of three or more segments at or after `p`: its span.
pub open spec fn first_chain(s: Seq<char>, p: int) -> Option<(int, int)>
    decreases s.len() - p,
{
    if p < 0 || p >= s.len() {
        None
    } else if chain_from(s, p).1 >= 3 {
        Some((p, chain_from(s, p).0))
    } else {
        first_chain(s, p + 1)
    }
}

fn run_chain_exec(s: &Vec<char>, j: usize) -> (e: usize)
    requires
        j <= s.len(),
    ensures
        e == run_chain(s@, j as int),
        j <= e <= s.len(),
{
    let mut e = j;
    while e < s.len() && !white_space(s[e]) && s[e] != '。' && s[e] != '、' && s[e] != '！' && s[e] != '？'
        && s[e] != 'の'
        invariant
            j <= e <= s.len(),
            run_chain(s@, j as int) == run_chain(s@, e as int),
        decreases s.len() - e,
    {
        e = e + 1;
    }
    e
}

fn chain_from_exec(s: &Vec<char>, q0: usize) -> (r: (usize, usize))
    requires
        q0 < s.len(),
    ensures
        (r.0 as int, r.1 as int) == chain_from(s@, q0 as int),
{
    let mut q = q0;
    let mut n: usize = 0;
    while q < s.len()
        invariant
            q0 <= q <= s.len(),
            n <= q - q0,
            chain_from(s@, q0 as int) == (chain_from(s@, q as int).0, chain_from(s@, q as int).1 + n),
        decreases s.len() - q,
    {
        let r = run_chain_exec(s, q);
        if q + 1 <= r && r - q <= 12 && r < s.len() && s[r] == 'の' {
            q = r + 1;
            n = n + 1;
        } else {
            return (q, n);
        }
    }
    (q, n)
}

fn first_chain_exec(s: &Vec<char>) -> (r: Option<(usize, usize)>)
    ensures
        match r {
            Some((p, e)) => first_chain(s@, 0) == Some((p as int, e as int)) && p <= e <= s.len(),
            None => first_chain(s@, 0) is None,
        },
{
    let mut p: usize = 0;
    while p < s.len()
        invariant
            first_chain(s@, 0) == first_chain(s@, p as int),
        decreases s.len() - p,
    {
        let (e, n) = chain_from_exec(s, p);
        if n >= 3 {
            proof {
                lemma_chain_from_bounds(s@, p as int);
            }
            return Some((p, e));
        }
        p = p + 1;
    }
    None
}

pub proof fn lemma_chain_from_bounds(s: Seq<char>, q: int)
    requires
        0 <= q <= s.len(),
    ensures
        q <= chain_from(s, q).0 <= s.len(),
    decreases s.len() - q,
{
    if q < s.len() {
        let e = seg_end(s, q);
        if e > q && e <= s.len() {
            lemma_chain_from_bounds(s, e);
        }
    }
}

/// `s[i..]` with every 『…』 title replaced by ◯.
pub open spec fn mask_titles_from(s: Seq<char>, i: int) -> Seq<char>
    decreases s.len() - i,
{
    if i < 0 || i >= s.len() {
        Seq::empty()
    } else if s[i] == '『' && find_from(s, seq!['』'], i + 1) is Some {
        let j = find_from(s, seq!['』'], i + 1)->0;
        proof {
            lemma_find_from(s, seq!['』'], i + 1);
        }
        seq!['◯'] + mask_titles_from(s, j + 1)
    } else {
        seq![s[i]] + mask_titles_from(s, i + 1)
    }
}

fn mask_titles(s: &Vec<char>) -> (r: Vec<char>)
    ensures
        r@ == mask_titles_from(s@, 0),
{
    let close = vec!['』'];
    assert(close@ =~= seq!['』']);
    let mut out: Vec<char> = Vec::new();
    let mut i: usize = 0;
    while i < s.len()
        invariant
            i <= s.len(),
            close@ == seq!['』'],
            mask_titles_from(s@, 0) == out@ + mask_titles_from(s@, i as int),
        decreases s.len() - i,
    {
        let ghost before = out@;
        proof {
            lemma_find_from(s@, seq!['』'], i + 1);
        }
        if s[i] == '『' {
            match find(s, &close, i + 1) {
                Some(j) => {
                    out.push('◯');
                    assert(out@ + mask_titles_from(s@, j + 1) =~= before + mask_titles_from(s@, i as int));
                    i = j + 1;
                    continue;
                },
                None => {},
            }
        }
        out.push(s[i]);
        assert(out@ + mask_titles_from(s@, i + 1) =~= before + mask_titles_from(s@, i as int));
        i = i + 1;
    }
    assert(out@ + mask_titles_from(s@, i as int) =~= out@);
    out
}

/// A piece of a の-chain that counts as content (not the こ/そ/あ/ど of a demonstrative).
pub open spec fn is_content_piece(p: Seq<char>) -> bool {
    p.len() > 0 && p != seq!['こ'] && p != seq!['そ'] && p != seq!['あ'] && p != seq!['ど']
}

/// The number of content pieces.
pub open spec fn content_count(ps: Seq<Seq<char>>) -> nat
    decreases ps.len(),
{
    if ps.len() == 0 {
        0
    } else {
        content_count(ps.drop_last()) + if is_content_piece(ps.last()) {
            1nat
        } else {
            0nat
        }
    }
}

fn content_count_exec(ps: &Vec<Vec<char>>) -> (n: usize)
    ensures
        n == content_count(seqs_of(ps@)),
{
    let mut n: usize = 0;
    let mut k: usize = 0;
    while k < ps.len()
        invariant
            k <= ps.len(),
            n <= k,
            n == content_count(seqs_of(ps@).take(k as int)),
        decreases ps.len() - k,
    {
        let p = &ps[k];
        let c = p.len() > 0 && !(p.len() == 1 && (p[0] == 'こ' || p[0] == 'そ' || p[0] == 'あ' || p[0] == 'ど'));
        proof {
            assert(seqs_of(ps@).take(k + 1).drop_last() =~= seqs_of(ps@).take(k as int));
            let q = seqs_of(ps@)[k as int];
            if q.len() == 1 {
                assert(q == seq![q[0]]);
            }
        }
        if c {
            n = n + 1;
        }
        k = k + 1;
    }
    assert(seqs_of(ps@).take(ps.len() as int) =~= seqs_of(ps@));
    n
}

// ---------------------------------------------------------------------------
// The per-sentence rules.

pub open spec fn rule_length(line: int, s: Seq<char>, max_sentence: int) -> Seq<VioV> {
    if s.len() > max_sentence {
        one(
            line,
            "sentence-length"@,
            Severity::Hard,
            "一文 "@ + dec(s.len()) + " 字 (> "@ + dec(max_sentence as nat) + ") — 文を切る（一文一義）"@,
        )
    } else {
        Seq::empty()
    }
}

pub open spec fn rule_ten(line: int, s: Seq<char>, max_ten: int) -> Seq<VioV> {
    let ten = count_char(s, '、');
    if ten > max_ten {
        one(
            line,
            "max-ten"@,
            Severity::Hard,
            "読点 "@ + dec(ten) + " 個 (> "@ + dec(max_ten as nat) + ") — 文を分割するか構造を変える"@,
        )
    } else {
        Seq::empty()
    }
}

pub open spec fn rule_dneg(line: int, s: Seq<char>) -> Seq<VioV> {
    match alt_find_from(s, 0, dneg_alts()) {
        Some((p, l)) => one(
            line,
            "double-negative"@,
            Severity::Hard,
            "慣用二重否定「"@ + s.subrange(p, p + l) + "…」— 肯定形で言い切る"@,
        ),
        None => Seq::empty(),
    }
}

pub open spec fn rule_hedge(line: int, s: Seq<char>) -> Seq<VioV> {
    let hs = alt_matches(s, hedge_alts());
    if hs.len() >= 2 {
        one(
            line,
            "hedge-pileup"@,
            Severity::Hard,
            "ぼかし連発 ("@ + join_with(hs, "・"@) + ") — 言い切るか、根拠を添えて 1 つに絞る"@,
        )
    } else {
        Seq::empty()
    }
}

pub open spec fn rule_demons(line: int, s: Seq<char>) -> Seq<VioV> {
    if alt_matches(s, demon_alts()).len() >= 3 {
        one(line, "demonstrative-chain"@, Severity::Hard, "指示語 3 つ以上 — 指す対象を名詞で書き直す"@)
    } else {
        Seq::empty()
    }
}

pub open spec fn rule_no_chain(line: int, s: Seq<char>) -> Seq<VioV> {
    let masked = mask_titles_from(s, 0);
    match first_chain(masked, 0) {
        Some((p, e)) => {
            let m = masked.subrange(p, e);
            if content_count(split_by(m, 'の')) >= 3 {
                one(
                    line,
                    "no-chain"@,
                    Severity::Hard,
                    "「の」3 連鎖（"@ + m + "…）— 語順を変えるか複合語/句へ畳む"@,
                )
            } else {
                Seq::empty()
            }
        },
        None => Seq::empty(),
    }
}

pub open spec fn rule_verbose(line: int, s: Seq<char>) -> Seq<VioV> {
    if alt_find_from(s, 0, verbose_alts()) is Some {
        one(line, "verbose-potential"@, Severity::Hard, "「することができ…」— 「できる」で言い切る（簡潔）"@)
    } else {
        Seq::empty()
    }
}

/// The number of Han characters that end `s[..k]` in a row.
pub open spec fn han_run(s: Seq<char>, k: int) -> nat
    decreases k,
{
    if k <= 0 || k > s.len() {
        0
    } else if is_han(s[k - 1]) {
        han_run(s, k - 1) + 1
    } else {
        0
    }
}

/// Some run of seven Han characters or more ends within `s[..k]`.
pub open spec fn kanji_run_upto(s: Seq<char>, k: int) -> bool
    decreases k,
{
    if k <= 0 || k > s.len() {
        false
    } else {
        han_run(s, k) >= 7 || kanji_run_upto(s, k - 1)
    }
}

/// Seven kanji or more in a row (advisory).
pub open spec fn rule_kanji_run(line: int, s: Seq<char>) -> Seq<VioV> {
    if kanji_run_upto(s, s.len() as int) {
        one(line, "kanji-run"@, Severity::Advisory, "漢字 7 字以上の連続 — 仮名を挟むか言い換える"@)
    } else {
        Seq::empty()
    }
}

/// An exclamation mark, full or half width (advisory).
pub open spec fn rule_exclamation(line: int, s: Seq<char>) -> Seq<VioV> {
    if count_char(s, '！') + count_char(s, '!') > 0 {
        one(line, "exclamation"@, Severity::Advisory, "感嘆符 — 技術文では平叙で言い切る"@)
    } else {
        Seq::empty()
    }
}

/// Every per-sentence rule, in the order they are reported.
pub open spec fn sentence_rules(line: int, s: Seq<char>, max_sentence: int, max_ten: int) -> Seq<VioV> {
    rule_length(line, s, max_sentence) + rule_ten(line, s, max_ten) + rule_dneg(line, s) + rule_hedge(line, s)
        + rule_demons(line, s) + rule_no_chain(line, s) + rule_verbose(line, s) + rule_kanji_run(line, s)
        + rule_exclamation(line, s)
}

fn add_length(out: &mut Vec<Violation>, line: usize, s: &Vec<char>, max_sentence: usize)
    ensures
        vios_view(final(out)@) == vios_view(old(out)@) + rule_length(line as int, s@, max_sentence as int),
{
    let n = s.len();
    if n > max_sentence {
        let mut m = String::new();
        m.append("一文 ");
        push_dec_str(&mut m, n);
        m.append(" 字 (> ");
        push_dec_str(&mut m, max_sentence);
        m.append(") — 文を切る（一文一義）");
        push_vio(out, line, "sentence-length", Severity::Hard, m);
    } else {
        assert(vios_view(out@) =~= vios_view(out@) + Seq::<VioV>::empty());
    }
}

fn add_ten(out: &mut Vec<Violation>, line: usize, s: &Vec<char>, max_ten: usize)
    ensures
        vios_view(final(out)@) == vios_view(old(out)@) + rule_ten(line as int, s@, max_ten as int),
{
    let ten = count_of(s, '、');
    if ten > max_ten {
        let mut m = String::new();
        m.append("読点 ");
        push_dec_str(&mut m, ten);
        m.append(" 個 (> ");
        push_dec_str(&mut m, max_ten);
        m.append(") — 文を分割するか構造を変える");
        push_vio(out, line, "max-ten", Severity::Hard, m);
    } else {
        assert(vios_view(out@) =~= vios_view(out@) + Seq::<VioV>::empty());
    }
}

fn add_dneg(out: &mut Vec<Violation>, line: usize, s: &Vec<char>)
    ensures
        vios_view(final(out)@) == vios_view(old(out)@) + rule_dneg(line as int, s@),
{
    let dn = dneg_alts_vec();
    match alt_find_exec(s, 0, &dn) {
        Some((p, l)) => {
            let mut m = String::new();
            m.append("慣用二重否定「");
            let w = slice_of(s, p, p + l);
            push_vec_str(&mut m, &w);
            m.append("…」— 肯定形で言い切る");
            push_vio(out, line, "double-negative", Severity::Hard, m);
        },
        None => {
            assert(vios_view(out@) =~= vios_view(out@) + Seq::<VioV>::empty());
        },
    }
}

fn add_hedge(out: &mut Vec<Violation>, line: usize, s: &Vec<char>)
    ensures
        vios_view(final(out)@) == vios_view(old(out)@) + rule_hedge(line as int, s@),
{
    let hv = hedge_alts_vec();
    let hs = alt_matches_exec(s, &hv);
    if hs.len() >= 2 {
        let mut m = String::new();
        m.append("ぼかし連発 (");
        push_joined(&mut m, &hs, "・");
        m.append(") — 言い切るか、根拠を添えて 1 つに絞る");
        push_vio(out, line, "hedge-pileup", Severity::Hard, m);
    } else {
        assert(vios_view(out@) =~= vios_view(out@) + Seq::<VioV>::empty());
    }
}

fn add_demons(out: &mut Vec<Violation>, line: usize, s: &Vec<char>)
    ensures
        vios_view(final(out)@) == vios_view(old(out)@) + rule_demons(line as int, s@),
{
    let dv = demon_alts_vec();
    let ds = alt_matches_exec(s, &dv);
    if ds.len() >= 3 {
        let mut m = String::new();
        m.append("指示語 3 つ以上 — 指す対象を名詞で書き直す");
        push_vio(out, line, "demonstrative-chain", Severity::Hard, m);
    } else {
        assert(vios_view(out@) =~= vios_view(out@) + Seq::<VioV>::empty());
    }
}

fn add_no_chain(out: &mut Vec<Violation>, line: usize, s: &Vec<char>)
    ensures
        vios_view(final(out)@) == vios_view(old(out)@) + rule_no_chain(line as int, s@),
{
    let masked = mask_titles(s);
    match first_chain_exec(&masked) {
        Some((p, e)) => {
            let m0 = slice_of(&masked, p, e);
            let ps = split_by_exec(&m0, 'の');
            if content_count_exec(&ps) >= 3 {
                let mut m = String::new();
                m.append("「の」3 連鎖（");
                push_vec_str(&mut m, &m0);
                m.append("…）— 語順を変えるか複合語/句へ畳む");
                push_vio(out, line, "no-chain", Severity::Hard, m);
            } else {
                assert(vios_view(out@) =~= vios_view(out@) + Seq::<VioV>::empty());
            }
        },
        None => {
            assert(vios_view(out@) =~= vios_view(out@) + Seq::<VioV>::empty());
        },
    }
}

fn add_verbose(out: &mut Vec<Violation>, line: usize, s: &Vec<char>)
    ensures
        vios_view(final(out)@) == vios_view(old(out)@) + rule_verbose(line as int, s@),
{
    let vv = verbose_alts_vec();
    if alt_find_exec(s, 0, &vv).is_some() {
        let mut m = String::new();
        m.append("「することができ…」— 「できる」で言い切る（簡潔）");
        push_vio(out, line, "verbose-potential", Severity::Hard, m);
    } else {
        assert(vios_view(out@) =~= vios_view(out@) + Seq::<VioV>::empty());
    }
}

fn add_kanji_run(out: &mut Vec<Violation>, line: usize, s: &Vec<char>)
    ensures
        vios_view(final(out)@) == vios_view(old(out)@) + rule_kanji_run(line as int, s@),
{
    let mut run: usize = 0;
    let mut found = false;
    let mut k: usize = 0;
    while k < s.len()
        invariant
            k <= s.len(),
            run <= k,
            run == han_run(s@, k as int),
            found == kanji_run_upto(s@, k as int),
        decreases s.len() - k,
    {
        if han(s[k]) {
            run = run + 1;
        } else {
            run = 0;
        }
        k = k + 1;
        found = found || run >= 7;
    }
    if found {
        let mut m = String::new();
        m.append("漢字 7 字以上の連続 — 仮名を挟むか言い換える");
        push_vio(out, line, "kanji-run", Severity::Advisory, m);
    } else {
        assert(vios_view(out@) =~= vios_view(out@) + Seq::<VioV>::empty());
    }
}

fn add_exclamation(out: &mut Vec<Violation>, line: usize, s: &Vec<char>)
    ensures
        vios_view(final(out)@) == vios_view(old(out)@) + rule_exclamation(line as int, s@),
{
    let a = count_of(s, '！');
    let b = count_of(s, '!');
    if a > 0 || b > 0 {
        let mut m = String::new();
        m.append("感嘆符 — 技術文では平叙で言い切る");
        push_vio(out, line, "exclamation", Severity::Advisory, m);
    } else {
        assert(vios_view(out@) =~= vios_view(out@) + Seq::<VioV>::empty());
    }
}

fn check_sentence(out: &mut Vec<Violation>, line: usize, s: &Vec<char>, max_sentence: usize, max_ten: usize)
    ensures
        vios_view(final(out)@) == vios_view(old(out)@) + sentence_rules(
            line as int,
            s@,
            max_sentence as int,
            max_ten as int,
        ),
{
    let ghost v0 = vios_view(out@);
    add_length(out, line, s, max_sentence);
    add_ten(out, line, s, max_ten);
    add_dneg(out, line, s);
    add_hedge(out, line, s);
    add_demons(out, line, s);
    add_no_chain(out, line, s);
    add_verbose(out, line, s);
    add_kanji_run(out, line, s);
    add_exclamation(out, line, s);
    assert(vios_view(out@) =~= v0 + sentence_rules(line as int, s@, max_sentence as int, max_ten as int));
}

// ---------------------------------------------------------------------------
// The document: connective runs, mixed politeness, and the order of the report.

/// A sentence that opens with a connective followed by 、.
pub open spec fn is_connector(s: Seq<char>) -> bool {
    alt_len(s, 0, connector_alts()) > 0
}

/// Some word of `alts[k..]` ends `t`.
pub open spec fn any_suffix(t: Seq<char>, alts: Seq<Seq<char>>, k: int) -> bool
    decreases alts.len() - k,
{
    if k < 0 || k >= alts.len() {
        false
    } else {
        ends_with(t, alts[k]) || any_suffix(t, alts, k + 1)
    }
}

/// A sentence in the polite style: a polite ending, then 。！？ at the very end.
pub open spec fn is_polite(s: Seq<char>) -> bool {
    s.len() >= 1 && is_terminator(s.last()) && any_suffix(s.drop_last(), polite_alts(), 0)
}

/// A sentence in the plain style: a hiragana, then 。！？ at the very end.
pub open spec fn is_plain(s: Seq<char>) -> bool {
    s.len() >= 2 && 'ぁ' <= s[s.len() - 2] && s[s.len() - 2] <= 'ん' && is_terminator(s.last())
}

/// The advisory for a run of `n` connective-initial sentences starting at `l`, if `n >= 3`.
pub open spec fn conn_flush(run: Option<(int, int)>) -> Seq<VioV> {
    match run {
        Some((l, n)) => if n >= 3 {
            one(
                l,
                "connector-pileup"@,
                Severity::Advisory,
                "文頭接続詞が "@ + dec(n as nat) + " 文連続（また/さらに/そして…）— 論理の接続を本文で書く"@,
            )
        } else {
            Seq::empty()
        },
        None => Seq::empty(),
    }
}

/// The state of the scan: violations so far, the open connective run, and
/// the lines of the polite and of the plain sentences.
pub type KState = (Seq<VioV>, Option<(int, int)>, Seq<int>, Seq<int>);

pub open spec fn kin_step(st: KState, sv: SentV, max_sentence: int, max_ten: int) -> KState {
    let line = sv.0;
    let s = sv.1;
    let vs = st.0 + sentence_rules(line, s, max_sentence, max_ten);
    let vs2 = if is_connector(s) {
        vs
    } else {
        vs + conn_flush(st.1)
    };
    let run2 = if is_connector(s) {
        match st.1 {
            Some((l, n)) => Some((l, n + 1)),
            None => Some((line, 1int)),
        }
    } else {
        None
    };
    let pol = if is_polite(s) {
        st.2.push(line)
    } else {
        st.2
    };
    let pla = if !is_polite(s) && is_plain(s) {
        st.3.push(line)
    } else {
        st.3
    };
    (vs2, run2, pol, pla)
}

pub open spec fn kin_fold(ss: Seq<SentV>, max_sentence: int, max_ten: int) -> KState
    decreases ss.len(),
{
    if ss.len() == 0 {
        (Seq::empty(), None, Seq::empty(), Seq::empty())
    } else {
        kin_step(kin_fold(ss.drop_last(), max_sentence, max_ten), ss.last(), max_sentence, max_ten)
    }
}

pub open spec fn style_msg(name: Seq<char>, p: nat, q: nat) -> Seq<char> {
    "文体混在: この文だけ"@ + name + "体 (敬体 "@ + dec(p) + " 文 / 常体 "@ + dec(q) + " 文) — どちらかへ統一"@
}

/// Mixed politeness: the first five sentences of the minority style (the
/// polite one on a tie), when both styles occur.
pub open spec fn style_vios(pol: Seq<int>, pla: Seq<int>) -> Seq<VioV> {
    if pol.len() > 0 && pla.len() > 0 {
        let m = if pol.len() <= pla.len() {
            pol
        } else {
            pla
        };
        let name = if pol.len() <= pla.len() {
            "ですます"@
        } else {
            "である"@
        };
        let k = if m.len() < 5 {
            m.len()
        } else {
            5
        };
        Seq::new(k, |i: int| (m[i], ("style-mixing"@, Severity::Hard, style_msg(name, pol.len(), pla.len()))))
    } else {
        Seq::empty()
    }
}

/// Every violation of the document, stably ordered by line.
pub open spec fn spec_scan(text: Seq<char>, max_sentence: int, max_ten: int) -> Seq<VioV> {
    let st = kin_fold(spec_sentences(text), max_sentence, max_ten);
    sort_by_line(st.0 + conn_flush(st.1) + style_vios(st.2, st.3))
}

pub open spec fn ints(v: Seq<usize>) -> Seq<int> {
    Seq::new(v.len(), |i: int| v[i] as int)
}

pub open spec fn run_view(r: Option<(usize, usize)>) -> Option<(int, int)> {
    match r {
        Some((l, n)) => Some((l as int, n as int)),
        None => None,
    }
}

pub fn flush_conn(out: &mut Vec<Violation>, run: Option<(usize, usize)>)
    ensures
        vios_view(final(out)@) == vios_view(old(out)@) + conn_flush(run_view(run)),
{
    match run {
        Some((l, n)) => {
            if n >= 3 {
                let mut m = String::new();
                m.append("文頭接続詞が ");
                push_dec_str(&mut m, n);
                m.append(" 文連続（また/さらに/そして…）— 論理の接続を本文で書く");
                push_vio(out, l, "connector-pileup", Severity::Advisory, m);
            } else {
                assert(vios_view(out@) =~= vios_view(out@) + Seq::<VioV>::empty());
            }
        },
        None => {
            assert(vios_view(out@) =~= vios_view(out@) + Seq::<VioV>::empty());
        },
    }
}

fn polite_exec(s: &Vec<char>, pv: &Vec<Vec<char>>) -> (r: bool)
    requires
        seqs_of(pv@) == polite_alts(),
    ensures
        r == is_polite(s@),
{
    if s.len() == 0 {
        return false;
    }
    let last = s[s.len() - 1];
    if !(last == '。' || last == '！' || last == '？') {
        return false;
    }
    let t = slice_of(s, 0, s.len() - 1);
    assert(t@ =~= s@.drop_last());
    let mut k: usize = 0;
    while k < pv.len()
        invariant
            k <= pv.len(),
            seqs_of(pv@) == polite_alts(),
            t@ == s@.drop_last(),
            s.len() >= 1,
            is_terminator(s@.last()),
            any_suffix(t@, polite_alts(), 0) == any_suffix(t@, polite_alts(), k as int),
        decreases pv.len() - k,
    {
        if ends_with_exec(&t, &pv[k]) {
            return true;
        }
        k = k + 1;
    }
    false
}

fn plain_exec(s: &Vec<char>) -> (r: bool)
    ensures
        r == is_plain(s@),
{
    if s.len() < 2 {
        return false;
    }
    let c = s[s.len() - 2];
    let last = s[s.len() - 1];
    'ぁ' <= c && c <= 'ん' && (last == '。' || last == '！' || last == '？')
}

fn add_style(out: &mut Vec<Violation>, pol: &Vec<usize>, pla: &Vec<usize>)
    ensures
        vios_view(final(out)@) == vios_view(old(out)@) + style_vios(ints(pol@), ints(pla@)),
{
    let ghost v0 = vios_view(out@);
    if pol.len() > 0 && pla.len() > 0 {
        let use_pol = pol.len() <= pla.len();
        let m: &Vec<usize> = if use_pol {
            pol
        } else {
            pla
        };
        let ghost name = if use_pol {
            "ですます"@
        } else {
            "である"@
        };
        let ghost msg = style_msg(name, pol.len() as nat, pla.len() as nat);
        let ghost want = style_vios(ints(pol@), ints(pla@));
        let mut i: usize = 0;
        while i < m.len() && i < 5
            invariant
                i <= m.len(),
                i <= 5,
                want == style_vios(ints(pol@), ints(pla@)),
                pol.len() > 0 && pla.len() > 0,
                m@ == (if use_pol { pol@ } else { pla@ }),
                use_pol == (pol.len() <= pla.len()),
                name == (if use_pol { "ですます"@ } else { "である"@ }),
                msg == style_msg(name, pol.len() as nat, pla.len() as nat),
                want.len() == (if m.len() < 5 { m.len() } else { 5 }),
                forall|j: int| 0 <= j < want.len() ==> #[trigger] want[j] == (m@[j] as int, ("style-mixing"@, Severity::Hard, msg)),
                vios_view(out@) == v0 + want.take(i as int),
            decreases m.len() - i,
        {
            let mut t = String::new();
            t.append("文体混在: この文だけ");
            if use_pol {
                t.append("ですます");
            } else {
                t.append("である");
            }
            t.append("体 (敬体 ");
            push_dec_str(&mut t, pol.len());
            t.append(" 文 / 常体 ");
            push_dec_str(&mut t, pla.len());
            t.append(" 文) — どちらかへ統一");
            assert(t@ == msg);
            push_vio(out, m[i], "style-mixing", Severity::Hard, t);
            assert(want.take(i + 1) =~= want.take(i as int) + seq![want[i as int]]);
            i = i + 1;
        }
        assert(want.take(i as int) =~= want);
    } else {
        assert(vios_view(out@) =~= v0 + style_vios(ints(pol@), ints(pla@)));
    }
}

/// The violations of a document: every per-sentence rule, connective runs and
/// mixed politeness, stably ordered by line.
pub fn scan(text: &str, max_sentence: usize, max_ten: usize) -> (r: Vec<Violation>)
    ensures
        vios_view(r@) == spec_scan(text@, max_sentence as int, max_ten as int),
        lines_sorted(vios_view(r@)),
{
    let s = chars_of(text);
    let sents = sentences_of(&s);
    let ghost ss = sents_view(sents@);
    let cv = connector_alts_vec();
    let pv = polite_alts_vec();
    let mut v: Vec<Violation> = Vec::new();
    let mut pol: Vec<usize> = Vec::new();
    let mut pla: Vec<usize> = Vec::new();
    let mut run: Option<(usize, usize)> = None;
    let mut k: usize = 0;
    assert(ss.take(0) =~= Seq::<SentV>::empty());
    assert(vios_view(v@) =~= Seq::<VioV>::empty());
    assert(ints(pol@) =~= Seq::<int>::empty());
    assert(ints(pla@) =~= Seq::<int>::empty());
    while k < sents.len()
        invariant
            k <= sents.len(),
            ss == sents_view(sents@),
            ss == spec_sentences(text@),
            seqs_of(cv@) == connector_alts(),
            seqs_of(pv@) == polite_alts(),
            match run {
                Some((l, n)) => n <= k,
                None => true,
            },
            (vios_view(v@), run_view(run), ints(pol@), ints(pla@)) == kin_fold(
                ss.take(k as int),
                max_sentence as int,
                max_ten as int,
            ),
        decreases sents.len() - k,
    {
        let line = sents[k].0;
        let t = &sents[k].1;
        proof {
            assert(ss.take(k + 1).drop_last() =~= ss.take(k as int));
            assert(ss.take(k + 1).last() == (line as int, t@));
        }
        check_sentence(&mut v, line, t, max_sentence, max_ten);
        if alt_len_exec(t, 0, &cv) > 0 {
            run = match run {
                Some((l, n)) => Some((l, n + 1)),
                None => Some((line, 1)),
            };
        } else {
            flush_conn(&mut v, run);
            run = None;
        }
        if polite_exec(t, &pv) {
            let ghost p0 = pol@;
            pol.push(line);
            assert(ints(pol@) =~= ints(p0).push(line as int));
        } else if plain_exec(t) {
            let ghost p0 = pla@;
            pla.push(line);
            assert(ints(pla@) =~= ints(p0).push(line as int));
        }
        k = k + 1;
    }
    assert(ss.take(k as int) =~= ss);
    flush_conn(&mut v, run);
    add_style(&mut v, &pol, &pla);
    let r = sort_violations(v);
    proof {
        let st = kin_fold(ss, max_sentence as int, max_ten as int);
        lemma_sort_by_line_sorted(st.0 + conn_flush(st.1) + style_vios(st.2, st.3));
    }
    r
}

// ---------------------------------------------------------------------------
// The one safe rewrite: することができ → でき, outside code.

pub open spec fn verbose_word() -> Seq<char> {
    seq!['す', 'る', 'こ', 'と', 'が', 'で', 'き']
}

pub open spec fn deki() -> Seq<char> {
    seq!['で', 'き']
}

/// The number of non-overlapping occurrences of `p` in `s[i..]`, leftmost first.
pub open spec fn count_from(s: Seq<char>, p: Seq<char>, i: int) -> nat
    decreases s.len() - i,
{
    if i < 0 || i > s.len() || p.len() == 0 {
        0
    } else {
        match find_from(s, p, i) {
            None => 0,
            Some(j) => {
                proof {
                    lemma_find_from(s, p, i);
                }
                1 + count_from(s, p, j + p.len())
            },
        }
    }
}

/// Each replacement writes `r` once.
pub proof fn lemma_replace_len(s: Seq<char>, p: Seq<char>, r: Seq<char>, i: int)
    requires
        0 <= i <= s.len(),
        p.len() > 0,
    ensures
        replace_from(s, p, r, i).len() >= r.len() * count_from(s, p, i),
    decreases s.len() - i,
{
    lemma_find_from(s, p, i);
    match find_from(s, p, i) {
        None => {
            assert(r.len() * 0 == 0) by (nonlinear_arith);
        },
        Some(j) => {
            lemma_replace_len(s, p, r, j + p.len());
            assert(replace_from(s, p, r, i) == s.subrange(i, j) + r + replace_from(s, p, r, j + p.len()));
            assert(r.len() * count_from(s, p, i) == r.len() + r.len() * count_from(s, p, j + p.len())) by (nonlinear_arith)
                requires
                    count_from(s, p, i) == 1 + count_from(s, p, j + p.len()),
            ;
        },
    }
}

/// The segments between backticks, the even ones (outside inline code) rewritten:
/// the text and the number of rewrites.
pub open spec fn fix_segs(segs: Seq<Seq<char>>) -> (Seq<char>, nat)
    decreases segs.len(),
{
    if segs.len() == 0 {
        (Seq::empty(), 0)
    } else {
        let prev = fix_segs(segs.drop_last());
        let j = segs.len() - 1;
        let seg = segs.last();
        let sep = if j > 0 {
            seq!['`']
        } else {
            Seq::empty()
        };
        if j % 2 == 0 {
            (prev.0 + sep + replace_all(seg, verbose_word(), deki()), prev.1 + count_from(seg, verbose_word(), 0))
        } else {
            (prev.0 + sep + seg, prev.1)
        }
    }
}

/// The lines rewritten, fences left alone: text, rewrites, inside a fence.
pub open spec fn fix_lines(ls: Seq<Seq<char>>) -> (Seq<char>, nat, bool)
    decreases ls.len(),
{
    if ls.len() == 0 {
        (Seq::empty(), 0, false)
    } else {
        let prev = fix_lines(ls.drop_last());
        let line = ls.last();
        let out0 = if ls.len() > 1 {
            prev.0.push('\n')
        } else {
            prev.0
        };
        if starts_with(trim_start(line), fence()) {
            (out0 + line, prev.1, !prev.2)
        } else if prev.2 {
            (out0 + line, prev.1, prev.2)
        } else {
            let f = fix_segs(split_by(line, '`'));
            (out0 + f.0, prev.1 + f.1, prev.2)
        }
    }
}

/// The rewritten document and the number of rewrites.
pub open spec fn spec_fix(text: Seq<char>) -> (Seq<char>, nat) {
    let r = fix_lines(lines_of(text));
    (if text.len() > 0 && text.last() == '\n' {
        r.0.push('\n')
    } else {
        r.0
    }, r.1)
}

/// Where the pattern does not occur, replacing leaves the text as it is.
proof fn lemma_replace_none(s: Seq<char>, p: Seq<char>, r: Seq<char>, i: int)
    requires
        0 <= i <= s.len(),
        p.len() > 0,
        count_from(s, p, i) == 0,
    ensures
        replace_from(s, p, r, i) == s.subrange(i, s.len() as int),
{
}

/// Segments with nothing to rewrite come back joined as they were.
proof fn lemma_fix_segs_plain(segs: Seq<Seq<char>>)
    requires
        fix_segs(segs).1 == 0,
    ensures
        fix_segs(segs).0 == join_with(segs, seq!['`']),
    decreases segs.len(),
{
    if segs.len() > 0 {
        let j = segs.len() - 1;
        lemma_fix_segs_plain(segs.drop_last());
        if j % 2 == 0 {
            lemma_replace_none(segs.last(), verbose_word(), deki(), 0);
            assert(segs.last().subrange(0, segs.last().len() as int) =~= segs.last());
        }
        if j == 0 {
            assert(fix_segs(segs).0 =~= segs[0]);
        }
    }
}

/// Lines with nothing to rewrite come back joined by newlines as they were.
proof fn lemma_fix_lines_plain(ls: Seq<Seq<char>>)
    requires
        fix_lines(ls).1 == 0,
    ensures
        fix_lines(ls).0 == join_nl(ls),
    decreases ls.len(),
{
    if ls.len() > 0 {
        lemma_fix_lines_plain(ls.drop_last());
        let line = ls.last();
        let prev = fix_lines(ls.drop_last());
        if !starts_with(trim_start(line), fence()) && !prev.2 {
            lemma_fix_segs_plain(split_by(line, '`'));
            lemma_join_split_by(line, '`');
        }
        if ls.len() == 1 {
            assert(ls.drop_last().len() == 0);
            assert(fix_lines(ls).0 =~= ls[0]);
        }
    }
}

/// A text in which the fix finds nothing to rewrite is written back exactly
/// as it was, provided no line ends in a carriage return (lines are read as
/// `str::lines` reads them, which drops that `'\r'`).
pub proof fn lemma_fix_without_rewrites_is_identity(text: Seq<char>)
    requires
        spec_fix(text).1 == 0,
        no_crlf(text),
    ensures
        spec_fix(text).0 == text,
{
    lemma_fix_lines_plain(lines_of(text));
    lemma_lines_of_join(text);
}

pub fn count_exec(s: &Vec<char>, p: &Vec<char>) -> (n: usize)
    requires
        p.len() > 0,
    ensures
        n == count_from(s@, p@, 0),
        n <= s.len(),
{
    let mut n: usize = 0;
    let mut i: usize = 0;
    loop
        invariant
            i <= s.len(),
            p.len() > 0,
            n <= i,
            count_from(s@, p@, 0) == n + count_from(s@, p@, i as int),
        decreases s.len() - i,
    {
        proof {
            lemma_find_from(s@, p@, i as int);
        }
        match find(s, p, i) {
            None => {
                return n;
            },
            Some(j) => {
                n = n + 1;
                i = j + p.len();
            },
        }
    }
}

fn fix_line_segs(line: &Vec<char>, out: &mut Vec<char>, n: &mut usize, vw: &Vec<char>, dk: &Vec<char>)
    requires
        vw@ == verbose_word(),
        dk@ == deki(),
        2 * *old(n) <= old(out)@.len(),
    ensures
        final(out)@ == old(out)@ + fix_segs(split_by(line@, '`')).0,
        *final(n) == *old(n) + fix_segs(split_by(line@, '`')).1,
        2 * *final(n) <= final(out)@.len(),
{
    let segs = split_by_exec(line, '`');
    let ghost g = seqs_of(segs@);
    let ghost o0 = out@;
    let ghost n0 = *n;
    let mut j: usize = 0;
    assert(g.take(0) =~= Seq::<Seq<char>>::empty());
    assert(out@ =~= o0 + fix_segs(g.take(0)).0);
    while j < segs.len()
        invariant
            j <= segs.len(),
            g == seqs_of(segs@),
            vw@ == verbose_word(),
            dk@ == deki(),
            out@ == o0 + fix_segs(g.take(j as int)).0,
            *n == n0 + fix_segs(g.take(j as int)).1,
            2 * *n <= out@.len(),
        decreases segs.len() - j,
    {
        proof {
            assert(g.take(j + 1).drop_last() =~= g.take(j as int));
            assert(g.take(j + 1).last() == segs@[j as int]@);
        }
        let ghost before = out@;
        if j > 0 {
            out.push('`');
        }
        let ghost mid = out@;
        if j % 2 == 0 {
            let c = count_exec(&segs[j], vw);
            let r = replace_exec(&segs[j], vw, dk);
            proof {
                lemma_replace_len(segs@[j as int]@, vw@, dk@, 0);
            }
            assert(r@.len() >= 2 * c);
            push_all(out, &r);
            let ol = out.len();
            assert(out@ == mid + r@);
            assert(mid.len() >= before.len());
            assert(2 * *n <= before.len());
            assert(2 * (*n + c) <= ol);
            *n = *n + c;
        } else {
            push_all(out, &segs[j]);
        }
        assert(out@ =~= o0 + fix_segs(g.take(j + 1)).0);
        j = j + 1;
    }
    assert(g.take(j as int) =~= g);
}

/// The safe automatic fix: every することができ outside code fences and
/// inline code becomes でき. Returns the new text and the number of rewrites.
pub fn fix(text: &str) -> (r: (String, usize))
    ensures
        (r.0@, r.1 as nat) == spec_fix(text@),
{
    let s = chars_of(text);
    let ls = split_lines(&s);
    let ghost g = seqs_of(ls@);
    let vw = vec!['す', 'る', 'こ', 'と', 'が', 'で', 'き'];
    assert(vw@ =~= verbose_word());
    let dk = vec!['で', 'き'];
    assert(dk@ =~= deki());
    let fv = crate::prose::fence_vec();
    let mut out: Vec<char> = Vec::new();
    let mut n: usize = 0;
    let mut in_fence = false;
    let mut i: usize = 0;
    assert(g.take(0) =~= Seq::<Seq<char>>::empty());
    while i < ls.len()
        invariant
            i <= ls.len(),
            g == seqs_of(ls@),
            g == lines_of(s@),
            s@ == text@,
            vw@ == verbose_word(),
            dk@ == deki(),
            fv@ == fence(),
            (out@, n as nat, in_fence) == fix_lines(g.take(i as int)),
            2 * n <= out@.len(),
        decreases ls.len() - i,
    {
        proof {
            assert(g.take(i + 1).drop_last() =~= g.take(i as int));
            assert(g.take(i + 1).last() == ls@[i as int]@);
        }
        if i > 0 {
            out.push('\n');
        }
        let line = &ls[i];
        let ts = trimmed_start(line);
        if at(&ts, &fv, 0) {
            in_fence = !in_fence;
            push_all(&mut out, line);
        } else if in_fence {
            push_all(&mut out, line);
        } else {
            fix_line_segs(line, &mut out, &mut n, &vw, &dk);
        }
        i = i + 1;
    }
    assert(g.take(i as int) =~= g);
    if s.len() > 0 && s[s.len() - 1] == '\n' {
        out.push('\n');
    }
    (string_of(&out), n)
}


/// One line of the readability report: `<label>L<line>: [<rule>(·advisory)] <message>`.
pub open spec fn spec_report_line(label: Seq<char>, v: VioV) -> Seq<char> {
    label + "L"@ + crate::text::dec(v.0 as nat) + ": ["@ + v.1.0 + (match v.1.1 {
        Severity::Hard => Seq::empty(),
        Severity::Advisory => "·advisory"@,
    }) + "] "@ + v.1.2
}

/// One line of the readability report.
pub fn report_line(label: &str, v: &Violation) -> (r: String)
    ensures
        r@ == spec_report_line(label@, vio_view(*v)),
{
    let mut s = String::new();
    s.append(label);
    s.append("L");
    crate::numfmt::push_dec_u128_str(&mut s, v.line as u128);
    s.append(": [");
    s.append(v.rule);
    match v.severity {
        Severity::Hard => {},
        Severity::Advisory => {
            s.append("·advisory");
        },
    }
    s.append("] ");
    s.append(v.msg.as_str());
    s
}

/// The verdict of the readability command from its hard and advisory
/// counts: only hard violations fail (status 1), and not under `advisory`.
pub open spec fn spec_verdict(hard: nat, adv: nat, advisory: bool) -> (Seq<char>, int) {
    if hard == 0 && adv == 0 {
        ("KINOSHITA PASS: Tier1 違反なし（文長・読点・文体混在・二重否定・ぼかし・指示語・の連鎖・冗長）"@, 0)
    } else if hard == 0 {
        ("KINOSHITA PASS: HARD 違反なし（advisory "@ + crate::text::dec(adv) + " 件 — judge/人が確認）"@, 0)
    } else if advisory {
        (
            "KINOSHITA CANDIDATES: HARD "@ + crate::text::dec(hard) + " 件 + advisory "@ + crate::text::dec(adv)
                + " 件（advisory mode）"@,
            0,
        )
    } else {
        ("KINOSHITA FAIL: "@ + crate::text::dec(hard) + " 件（+ advisory "@ + crate::text::dec(adv) + " 件）"@, 1)
    }
}

/// The headline and exit status of the readability command.
pub fn verdict(hard: usize, adv: usize, advisory: bool) -> (r: (String, i32))
    ensures
        (r.0@, r.1 as int) == spec_verdict(hard as nat, adv as nat, advisory),
{
    let mut m = String::new();
    if hard == 0 && adv == 0 {
        m.append("KINOSHITA PASS: Tier1 違反なし（文長・読点・文体混在・二重否定・ぼかし・指示語・の連鎖・冗長）");
        (m, 0)
    } else if hard == 0 {
        m.append("KINOSHITA PASS: HARD 違反なし（advisory ");
        crate::numfmt::push_dec_u128_str(&mut m, adv as u128);
        m.append(" 件 — judge/人が確認）");
        (m, 0)
    } else if advisory {
        m.append("KINOSHITA CANDIDATES: HARD ");
        crate::numfmt::push_dec_u128_str(&mut m, hard as u128);
        m.append(" 件 + advisory ");
        crate::numfmt::push_dec_u128_str(&mut m, adv as u128);
        m.append(" 件（advisory mode）");
        (m, 0)
    } else {
        m.append("KINOSHITA FAIL: ");
        crate::numfmt::push_dec_u128_str(&mut m, hard as u128);
        m.append(" 件（+ advisory ");
        crate::numfmt::push_dec_u128_str(&mut m, adv as u128);
        m.append(" 件）");
        (m, 1)
    }
}

/// The readability command fails (exit 1) exactly when a hard violation was
/// found outside advisory mode: advisory-only findings never fail it, and
/// every other outcome exits 0.
pub proof fn lemma_verdict_fails_only_on_hard(hard: nat, adv: nat, advisory: bool)
    ensures
        spec_verdict(hard, adv, advisory).1 == 1 <==> hard > 0 && !advisory,
        spec_verdict(hard, adv, advisory).1 != 1 ==> spec_verdict(hard, adv, advisory).1 == 0,
{
}


// ---------------------------------------------------------------------------
// The law of the readability report.

/// Advisory exactly for the three advisory rules: connector-pileup, kanji-run
/// and exclamation; every other rule is a hard error.
pub open spec fn graded(v: VioV) -> bool {
    (v.1.1 == Severity::Advisory) <==> (v.1.0 == "connector-pileup"@ || v.1.0 == "kanji-run"@ || v.1.0
        == "exclamation"@)
}

/// `l` is the line of one of the sentences `ss`.
pub open spec fn at_sentence(ss: Seq<SentV>, l: int) -> bool {
    exists|k: int| 0 <= k < ss.len() && (#[trigger] ss[k]).0 == l
}

/// How many findings of `v` have the rule `r`.
pub open spec fn rule_count(v: Seq<VioV>, r: Seq<char>) -> nat
    decreases v.len(),
{
    if v.len() == 0 {
        0
    } else {
        rule_count(v.drop_last(), r) + if v.last().1.0 == r {
            1nat
        } else {
            0nat
        }
    }
}

proof fn lemma_rule_names()
    ensures
        "sentence-length"@ != "connector-pileup"@ && "sentence-length"@ != "kanji-run"@ && "sentence-length"@
            != "exclamation"@ && "sentence-length"@ != "style-mixing"@,
        "max-ten"@ != "connector-pileup"@ && "max-ten"@ != "kanji-run"@ && "max-ten"@ != "exclamation"@ && "max-ten"@
            != "style-mixing"@,
        "double-negative"@ != "connector-pileup"@ && "double-negative"@ != "kanji-run"@ && "double-negative"@
            != "exclamation"@ && "double-negative"@ != "style-mixing"@,
        "hedge-pileup"@ != "connector-pileup"@ && "hedge-pileup"@ != "kanji-run"@ && "hedge-pileup"@ != "exclamation"@
            && "hedge-pileup"@ != "style-mixing"@,
        "demonstrative-chain"@ != "connector-pileup"@ && "demonstrative-chain"@ != "kanji-run"@
            && "demonstrative-chain"@ != "exclamation"@ && "demonstrative-chain"@ != "style-mixing"@,
        "no-chain"@ != "connector-pileup"@ && "no-chain"@ != "kanji-run"@ && "no-chain"@ != "exclamation"@
            && "no-chain"@ != "style-mixing"@,
        "verbose-potential"@ != "connector-pileup"@ && "verbose-potential"@ != "kanji-run"@ && "verbose-potential"@
            != "exclamation"@ && "verbose-potential"@ != "style-mixing"@,
        "kanji-run"@ != "style-mixing"@ && "exclamation"@ != "style-mixing"@ && "connector-pileup"@ != "style-mixing"@,
        "style-mixing"@ != "connector-pileup"@ && "style-mixing"@ != "kanji-run"@ && "style-mixing"@ != "exclamation"@,
{
    reveal_strlit("sentence-length");
    reveal_strlit("max-ten");
    reveal_strlit("double-negative");
    reveal_strlit("hedge-pileup");
    reveal_strlit("demonstrative-chain");
    reveal_strlit("no-chain");
    reveal_strlit("verbose-potential");
    reveal_strlit("kanji-run");
    reveal_strlit("exclamation");
    reveal_strlit("connector-pileup");
    reveal_strlit("style-mixing");
    assert("sentence-length"@[1] != "style-mixing"@[1]);
    assert("sentence-length"@[0] != "connector-pileup"@[0]);
    assert("sentence-length"@[0] != "kanji-run"@[0]);
    assert("sentence-length"@[0] != "exclamation"@[0]);
    assert("max-ten"@[0] != "connector-pileup"@[0] && "max-ten"@[0] != "kanji-run"@[0]);
    assert("max-ten"@[0] != "exclamation"@[0] && "max-ten"@[0] != "style-mixing"@[0]);
    assert("double-negative"@[0] != "connector-pileup"@[0] && "double-negative"@[0] != "kanji-run"@[0]);
    assert("double-negative"@[0] != "exclamation"@[0] && "double-negative"@[0] != "style-mixing"@[0]);
    assert("hedge-pileup"@[0] != "connector-pileup"@[0] && "hedge-pileup"@[0] != "kanji-run"@[0]);
    assert("hedge-pileup"@[0] != "exclamation"@[0] && "hedge-pileup"@[0] != "style-mixing"@[0]);
    assert("demonstrative-chain"@[0] != "connector-pileup"@[0] && "demonstrative-chain"@[0] != "kanji-run"@[0]);
    assert("demonstrative-chain"@[0] != "exclamation"@[0] && "demonstrative-chain"@[0] != "style-mixing"@[0]);
    assert("no-chain"@[0] != "connector-pileup"@[0] && "no-chain"@[0] != "kanji-run"@[0]);
    assert("no-chain"@[0] != "exclamation"@[0] && "no-chain"@[0] != "style-mixing"@[0]);
    assert("verbose-potential"@[0] != "connector-pileup"@[0] && "verbose-potential"@[0] != "kanji-run"@[0]);
    assert("verbose-potential"@[0] != "exclamation"@[0] && "verbose-potential"@[0] != "style-mixing"@[0]);
    assert("kanji-run"@[0] != "style-mixing"@[0] && "exclamation"@[0] != "style-mixing"@[0]);
    assert("connector-pileup"@[0] != "style-mixing"@[0]);
}

/// Every finding of `v` is graded, on line `line`, and not style-mixing.
pub open spec fn sentence_ok(v: Seq<VioV>, line: int) -> bool {
    forall|i: int| 0 <= i < v.len() ==> graded(#[trigger] v[i]) && v[i].0 == line && v[i].1.0 != "style-mixing"@
}

proof fn lemma_sentence_ok_concat(a: Seq<VioV>, b: Seq<VioV>, line: int)
    requires
        sentence_ok(a, line),
        sentence_ok(b, line),
    ensures
        sentence_ok(a + b, line),
{
    assert forall|i: int| 0 <= i < (a + b).len() implies graded(#[trigger] (a + b)[i]) && (a + b)[i].0 == line && (a
        + b)[i].1.0 != "style-mixing"@ by {
        if i < a.len() {
            assert((a + b)[i] == a[i]);
        } else {
            assert((a + b)[i] == b[i - a.len()]);
        }
    }
}

proof fn lemma_sentence_rules_ok(line: int, s: Seq<char>, max_sentence: int, max_ten: int)
    ensures
        sentence_ok(sentence_rules(line, s, max_sentence, max_ten), line),
{
    lemma_rule_names();
    let r1 = rule_length(line, s, max_sentence);
    let r2 = rule_ten(line, s, max_ten);
    let r3 = rule_dneg(line, s);
    let r4 = rule_hedge(line, s);
    let r5 = rule_demons(line, s);
    let r6 = rule_no_chain(line, s);
    let r7 = rule_verbose(line, s);
    let r8 = rule_kanji_run(line, s);
    let r9 = rule_exclamation(line, s);
    assert(sentence_ok(r1, line));
    assert(sentence_ok(r2, line));
    assert(sentence_ok(r3, line));
    assert(sentence_ok(r4, line));
    assert(sentence_ok(r5, line));
    assert(sentence_ok(r6, line));
    assert(sentence_ok(r7, line));
    assert(sentence_ok(r8, line));
    assert(sentence_ok(r9, line));
    lemma_sentence_ok_concat(r1, r2, line);
    lemma_sentence_ok_concat(r1 + r2, r3, line);
    lemma_sentence_ok_concat(r1 + r2 + r3, r4, line);
    lemma_sentence_ok_concat(r1 + r2 + r3 + r4, r5, line);
    lemma_sentence_ok_concat(r1 + r2 + r3 + r4 + r5, r6, line);
    lemma_sentence_ok_concat(r1 + r2 + r3 + r4 + r5 + r6, r7, line);
    lemma_sentence_ok_concat(r1 + r2 + r3 + r4 + r5 + r6 + r7, r8, line);
    lemma_sentence_ok_concat(r1 + r2 + r3 + r4 + r5 + r6 + r7 + r8, r9, line);
}

/// What the scan state holds after the sentences `ss`.
pub open spec fn fold_ok(st: KState, ss: Seq<SentV>) -> bool {
    &&& forall|i: int|
        0 <= i < st.0.len() ==> graded(#[trigger] st.0[i]) && at_sentence(ss, st.0[i].0) && st.0[i].1.0
            != "style-mixing"@
    &&& (st.1 matches Some((l, n)) ==> at_sentence(ss, l))
    &&& forall|i: int| 0 <= i < st.2.len() ==> at_sentence(ss, #[trigger] st.2[i])
    &&& forall|i: int| 0 <= i < st.3.len() ==> at_sentence(ss, #[trigger] st.3[i])
}

proof fn lemma_at_sentence_grow(ss: Seq<SentV>, l: int)
    requires
        ss.len() > 0,
        at_sentence(ss.drop_last(), l),
    ensures
        at_sentence(ss, l),
{
    let k = choose|k: int| 0 <= k < ss.drop_last().len() && (#[trigger] ss.drop_last()[k]).0 == l;
    assert(ss[k] == ss.drop_last()[k]);
}

proof fn lemma_fold_ok(ss: Seq<SentV>, max_sentence: int, max_ten: int)
    ensures
        fold_ok(kin_fold(ss, max_sentence, max_ten), ss),
    decreases ss.len(),
{
    if ss.len() > 0 {
        let p = ss.drop_last();
        lemma_fold_ok(p, max_sentence, max_ten);
        lemma_rule_names();
        let st = kin_fold(p, max_sentence, max_ten);
        let x = ss.last();
        let n = kin_step(st, x, max_sentence, max_ten);
        assert(at_sentence(ss, x.0)) by {
            assert(ss[ss.len() - 1] == x);
        }
        lemma_sentence_rules_ok(x.0, x.1, max_sentence, max_ten);
        let sr = sentence_rules(x.0, x.1, max_sentence, max_ten);
        let vs = st.0 + sr;
        assert forall|i: int| 0 <= i < vs.len() implies graded(#[trigger] vs[i]) && at_sentence(ss, vs[i].0)
            && vs[i].1.0 != "style-mixing"@ by {
            if i < st.0.len() {
                assert(vs[i] == st.0[i]);
                lemma_at_sentence_grow(ss, st.0[i].0);
            } else {
                assert(vs[i] == sr[i - st.0.len()]);
            }
        }
        let cf = conn_flush(st.1);
        if !is_connector(x.1) {
            let vs2 = vs + cf;
            assert forall|i: int| 0 <= i < vs2.len() implies graded(#[trigger] vs2[i]) && at_sentence(ss, vs2[i].0)
                && vs2[i].1.0 != "style-mixing"@ by {
                if i < vs.len() {
                    assert(vs2[i] == vs[i]);
                } else {
                    assert(vs2[i] == cf[i - vs.len()]);
                    match st.1 {
                        Some((l, k)) => {
                            lemma_at_sentence_grow(ss, l);
                        },
                        None => {},
                    }
                }
            }
        }
        match st.1 {
            Some((l, k)) => {
                lemma_at_sentence_grow(ss, l);
            },
            None => {},
        }
        assert forall|i: int| 0 <= i < n.2.len() implies at_sentence(ss, #[trigger] n.2[i]) by {
            if i < st.2.len() {
                assert(n.2[i] == st.2[i]);
                lemma_at_sentence_grow(ss, st.2[i]);
            }
        }
        assert forall|i: int| 0 <= i < n.3.len() implies at_sentence(ss, #[trigger] n.3[i]) by {
            if i < st.3.len() {
                assert(n.3[i] == st.3[i]);
                lemma_at_sentence_grow(ss, st.3[i]);
            }
        }
    }
}

proof fn lemma_rule_count_concat(a: Seq<VioV>, b: Seq<VioV>, r: Seq<char>)
    ensures
        rule_count(a + b, r) == rule_count(a, r) + rule_count(b, r),
    decreases b.len(),
{
    if b.len() == 0 {
        assert(a + b =~= a);
    } else {
        lemma_rule_count_concat(a, b.drop_last(), r);
        assert((a + b).drop_last() =~= a + b.drop_last());
    }
}

proof fn lemma_rule_count_le(v: Seq<VioV>, r: Seq<char>)
    ensures
        rule_count(v, r) <= v.len(),
    decreases v.len(),
{
    if v.len() > 0 {
        lemma_rule_count_le(v.drop_last(), r);
    }
}

proof fn lemma_rule_count_none(v: Seq<VioV>, r: Seq<char>)
    requires
        forall|i: int| 0 <= i < v.len() ==> (#[trigger] v[i]).1.0 != r,
    ensures
        rule_count(v, r) == 0,
    decreases v.len(),
{
    if v.len() > 0 {
        lemma_rule_count_none(v.drop_last(), r);
    }
}

proof fn lemma_rule_count_insert(s: Seq<VioV>, k: int, x: VioV, r: Seq<char>)
    requires
        0 <= k <= s.len(),
    ensures
        rule_count(s.insert(k, x), r) == rule_count(s, r) + if x.1.0 == r {
            1nat
        } else {
            0nat
        },
{
    let a = s.subrange(0, k);
    let b = s.subrange(k, s.len() as int);
    let one_x = seq![x];
    assert(s.insert(k, x) =~= a + one_x + b);
    assert(s =~= a + b);
    lemma_rule_count_concat(a + one_x, b, r);
    lemma_rule_count_concat(a, one_x, r);
    lemma_rule_count_concat(a, b, r);
    assert(one_x.drop_last() =~= Seq::<VioV>::empty());
    assert(rule_count(one_x.drop_last(), r) == 0);
    assert(one_x.last() == x);
    assert(rule_count(one_x, r) == if x.1.0 == r {
        1nat
    } else {
        0nat
    });
}

proof fn lemma_rule_count_sort(v: Seq<VioV>, r: Seq<char>)
    ensures
        rule_count(sort_by_line(v), r) == rule_count(v, r),
    decreases v.len(),
{
    if v.len() > 0 {
        let p = v.drop_last();
        lemma_rule_count_sort(p, r);
        crate::text::lemma_sort_by_line_len(p);
        let s = sort_by_line(p);
        lemma_first_after(s, v.last().0, 0);
        lemma_rule_count_insert(s, first_after(s, v.last().0, 0), v.last(), r);
    }
}

/// The law of the readability report: every finding stands on the line of a
/// sentence of the document; it is advisory exactly when its rule is
/// connector-pileup, kanji-run or exclamation (every other rule is a hard
/// error); and at most five findings are style-mixing.
pub proof fn lemma_readability_findings(text: Seq<char>, max_sentence: int, max_ten: int)
    ensures
        forall|i: int|
            0 <= i < spec_scan(text, max_sentence, max_ten).len() ==> graded(
                #[trigger] spec_scan(text, max_sentence, max_ten)[i],
            ) && at_sentence(spec_sentences(text), spec_scan(text, max_sentence, max_ten)[i].0),
        rule_count(spec_scan(text, max_sentence, max_ten), "style-mixing"@) <= 5,
{
    let ss = spec_sentences(text);
    let st = kin_fold(ss, max_sentence, max_ten);
    lemma_fold_ok(ss, max_sentence, max_ten);
    lemma_rule_names();
    let cf = conn_flush(st.1);
    let sv = style_vios(st.2, st.3);
    let v = st.0 + cf + sv;
    assert forall|i: int| 0 <= i < v.len() implies graded(#[trigger] v[i]) && at_sentence(ss, v[i].0) && (i
        < st.0.len() + cf.len() ==> v[i].1.0 != "style-mixing"@) by {
        if i < st.0.len() {
            assert(v[i] == st.0[i]);
        } else if i < st.0.len() + cf.len() {
            assert(v[i] == cf[i - st.0.len()]);
        } else {
            let j = i - st.0.len() - cf.len();
            assert(v[i] == sv[j]);
        }
    }
    let r = spec_scan(text, max_sentence, max_ten);
    crate::text::lemma_sort_by_line_from(v);
    assert forall|i: int| 0 <= i < r.len() implies graded(#[trigger] r[i]) && at_sentence(ss, r[i].0) by {
        assert(v.contains(r[i]));
        let j = choose|j: int| 0 <= j < v.len() && v[j] == r[i];
        assert(graded(v[j]));
    }
    lemma_rule_count_sort(v, "style-mixing"@);
    lemma_rule_count_concat(st.0 + cf, sv, "style-mixing"@);
    assert forall|i: int| 0 <= i < (st.0 + cf).len() implies (#[trigger] (st.0 + cf)[i]).1.0 != "style-mixing"@ by {
        assert((st.0 + cf)[i] == v[i]);
    }
    lemma_rule_count_none(st.0 + cf, "style-mixing"@);
    lemma_rule_count_le(sv, "style-mixing"@);
}

// ---------------------------------------------------------------------------
// The law of the verbose potential.

/// A finding of rule `r` stands on line `l` among `v`.
pub open spec fn has_rule_at(v: Seq<VioV>, l: int, r: Seq<char>) -> bool {
    exists|i: int| 0 <= i < v.len() && (#[trigger] v[i]).0 == l && v[i].1.0 == r
}

/// A sentence on line `l` uses 「することができ」 or 「することが可能」.
pub open spec fn verbose_sentence_at(ss: Seq<SentV>, l: int) -> bool {
    exists|k: int|
        0 <= k < ss.len() && (#[trigger] ss[k]).0 == l && (contains(ss[k].1, seq!['す', 'る', 'こ', 'と', 'が', 'で', 'き'])
            || contains(ss[k].1, seq!['す', 'る', 'こ', 'と', 'が', '可', '能']))
}

/// Findings of two lists are those of each.
pub proof fn lemma_has_rule_concat(a: Seq<VioV>, b: Seq<VioV>, l: int, r: Seq<char>)
    ensures
        has_rule_at(a + b, l, r) <==> has_rule_at(a, l, r) || has_rule_at(b, l, r),
{
    if has_rule_at(a + b, l, r) {
        let i = choose|i: int| 0 <= i < (a + b).len() && (#[trigger] (a + b)[i]).0 == l && (a + b)[i].1.0 == r;
        if i < a.len() {
            assert((a + b)[i] == a[i]);
        } else {
            assert((a + b)[i] == b[i - a.len()]);
        }
    }
    if has_rule_at(a, l, r) {
        let i = choose|i: int| 0 <= i < a.len() && (#[trigger] a[i]).0 == l && a[i].1.0 == r;
        assert((a + b)[i] == a[i]);
    }
    if has_rule_at(b, l, r) {
        let i = choose|i: int| 0 <= i < b.len() && (#[trigger] b[i]).0 == l && b[i].1.0 == r;
        assert((a + b)[i + a.len()] == b[i]);
    }
}

proof fn lemma_verbose_names()
    ensures
        "verbose-potential"@ != "sentence-length"@,
        "verbose-potential"@ != "max-ten"@,
        "verbose-potential"@ != "double-negative"@,
        "verbose-potential"@ != "hedge-pileup"@,
        "verbose-potential"@ != "demonstrative-chain"@,
        "verbose-potential"@ != "no-chain"@,
        "verbose-potential"@ != "kanji-run"@,
        "verbose-potential"@ != "exclamation"@,
        "verbose-potential"@ != "connector-pileup"@,
        "verbose-potential"@ != "style-mixing"@,
{
    reveal_strlit("verbose-potential");
    reveal_strlit("sentence-length");
    reveal_strlit("max-ten");
    reveal_strlit("double-negative");
    reveal_strlit("hedge-pileup");
    reveal_strlit("demonstrative-chain");
    reveal_strlit("no-chain");
    reveal_strlit("kanji-run");
    reveal_strlit("exclamation");
    reveal_strlit("connector-pileup");
    reveal_strlit("style-mixing");
    assert("verbose-potential"@[0] != "sentence-length"@[0]);
    assert("verbose-potential"@[0] != "max-ten"@[0]);
    assert("verbose-potential"@[0] != "double-negative"@[0]);
    assert("verbose-potential"@[0] != "hedge-pileup"@[0]);
    assert("verbose-potential"@[0] != "demonstrative-chain"@[0]);
    assert("verbose-potential"@[0] != "no-chain"@[0]);
    assert("verbose-potential"@[0] != "kanji-run"@[0]);
    assert("verbose-potential"@[0] != "exclamation"@[0]);
    assert("verbose-potential"@[0] != "connector-pileup"@[0]);
    assert("verbose-potential"@[0] != "style-mixing"@[0]);
}

proof fn lemma_verbose_phrase(s: Seq<char>)
    ensures
        alt_find_from(s, 0, verbose_alts()) is Some <==> (contains(s, seq!['す', 'る', 'こ', 'と', 'が', 'で', 'き'])
            || contains(s, seq!['す', 'る', 'こ', 'と', 'が', '可', '能'])),
{
    let a = verbose_alts();
    crate::text::lemma_alt_find_contains(s, a);
    let w1 = seq!['す', 'る', 'こ', 'と', 'が', 'で', 'き'];
    let w2 = seq!['す', 'る', 'こ', 'と', 'が', '可', '能'];
    if contains(s, w1) {
        assert(a[0] == w1);
        assert(contains(s, a[0]));
    }
    if contains(s, w2) {
        assert(a[1] == w2);
        assert(contains(s, a[1]));
    }
    if alt_find_from(s, 0, a) is Some {
        let j = choose|j: int| 0 <= j < a.len() && a[j].len() > 0 && #[trigger] contains(s, a[j]);
        assert(j == 0 || j == 1);
        assert(a[0] == w1);
        assert(a[1] == w2);
    }
}

proof fn lemma_sentence_rules_verbose(line: int, s: Seq<char>, max_sentence: int, max_ten: int, l: int)
    ensures
        has_rule_at(sentence_rules(line, s, max_sentence, max_ten), l, "verbose-potential"@) <==> l == line && (contains(
            s,
            seq!['す', 'る', 'こ', 'と', 'が', 'で', 'き'],
        ) || contains(s, seq!['す', 'る', 'こ', 'と', 'が', '可', '能'])),
{
    lemma_verbose_names();
    lemma_verbose_phrase(s);
    let vp = "verbose-potential"@;
    let r1 = rule_length(line, s, max_sentence);
    let r2 = rule_ten(line, s, max_ten);
    let r3 = rule_dneg(line, s);
    let r4 = rule_hedge(line, s);
    let r5 = rule_demons(line, s);
    let r6 = rule_no_chain(line, s);
    let r7 = rule_verbose(line, s);
    let r8 = rule_kanji_run(line, s);
    let r9 = rule_exclamation(line, s);
    assert(!has_rule_at(r1, l, vp));
    assert(!has_rule_at(r2, l, vp));
    assert(!has_rule_at(r3, l, vp));
    assert(!has_rule_at(r4, l, vp));
    assert(!has_rule_at(r5, l, vp));
    assert(!has_rule_at(r6, l, vp));
    assert(!has_rule_at(r8, l, vp));
    assert(!has_rule_at(r9, l, vp));
    if alt_find_from(s, 0, verbose_alts()) is Some && l == line {
        assert(r7[0].0 == l && r7[0].1.0 == vp);
    }
    lemma_has_rule_concat(r1, r2, l, vp);
    lemma_has_rule_concat(r1 + r2, r3, l, vp);
    lemma_has_rule_concat(r1 + r2 + r3, r4, l, vp);
    lemma_has_rule_concat(r1 + r2 + r3 + r4, r5, l, vp);
    lemma_has_rule_concat(r1 + r2 + r3 + r4 + r5, r6, l, vp);
    lemma_has_rule_concat(r1 + r2 + r3 + r4 + r5 + r6, r7, l, vp);
    lemma_has_rule_concat(r1 + r2 + r3 + r4 + r5 + r6 + r7, r8, l, vp);
    lemma_has_rule_concat(r1 + r2 + r3 + r4 + r5 + r6 + r7 + r8, r9, l, vp);
}

proof fn lemma_fold_verbose(ss: Seq<SentV>, max_sentence: int, max_ten: int, l: int)
    ensures
        has_rule_at(kin_fold(ss, max_sentence, max_ten).0, l, "verbose-potential"@) <==> verbose_sentence_at(ss, l),
    decreases ss.len(),
{
    let vp = "verbose-potential"@;
    let w1 = seq!['す', 'る', 'こ', 'と', 'が', 'で', 'き'];
    let w2 = seq!['す', 'る', 'こ', 'と', 'が', '可', '能'];
    if ss.len() > 0 {
        let p = ss.drop_last();
        lemma_fold_verbose(p, max_sentence, max_ten, l);
        lemma_verbose_names();
        let st = kin_fold(p, max_sentence, max_ten);
        let x = ss.last();
        let sr = sentence_rules(x.0, x.1, max_sentence, max_ten);
        lemma_sentence_rules_verbose(x.0, x.1, max_sentence, max_ten, l);
        lemma_has_rule_concat(st.0, sr, l, vp);
        let cf = conn_flush(st.1);
        assert(!has_rule_at(cf, l, vp));
        lemma_has_rule_concat(st.0 + sr, cf, l, vp);
        if verbose_sentence_at(ss, l) {
            let k = choose|k: int|
                0 <= k < ss.len() && (#[trigger] ss[k]).0 == l && (contains(ss[k].1, w1) || contains(ss[k].1, w2));
            if k < p.len() {
                assert(p[k] == ss[k]);
                assert(verbose_sentence_at(p, l));
            } else {
                assert(ss[k] == x);
            }
        }
        if verbose_sentence_at(p, l) {
            let k = choose|k: int|
                0 <= k < p.len() && (#[trigger] p[k]).0 == l && (contains(p[k].1, w1) || contains(p[k].1, w2));
            assert(ss[k] == p[k]);
        }
        if x.0 == l && (contains(x.1, w1) || contains(x.1, w2)) {
            assert(ss[ss.len() - 1] == x);
        }
    }
}

/// The verbose-potential law: the readability report has a verbose-potential
/// finding on line `l` exactly when a sentence on line `l` contains
/// 「することができ」 or 「することが可能」.
pub proof fn lemma_verbose_potential_law(text: Seq<char>, max_sentence: int, max_ten: int)
    ensures
        forall|l: int|
            #[trigger] has_rule_at(spec_scan(text, max_sentence, max_ten), l, "verbose-potential"@)
                <==> verbose_sentence_at(spec_sentences(text), l),
{
    let vp = "verbose-potential"@;
    let ss = spec_sentences(text);
    let st = kin_fold(ss, max_sentence, max_ten);
    let cf = conn_flush(st.1);
    let sv = style_vios(st.2, st.3);
    let v = st.0 + cf + sv;
    let r = spec_scan(text, max_sentence, max_ten);
    assert(r == sort_by_line(v));
    lemma_verbose_names();
    assert forall|l: int| #[trigger] has_rule_at(r, l, vp) <==> verbose_sentence_at(ss, l) by {
        lemma_fold_verbose(ss, max_sentence, max_ten, l);
        assert(!has_rule_at(cf, l, vp));
        if has_rule_at(sv, l, vp) {
            let i = choose|i: int| 0 <= i < sv.len() && (#[trigger] sv[i]).0 == l && sv[i].1.0 == vp;
            assert(sv[i].1.0 == "style-mixing"@);
        }
        lemma_has_rule_concat(st.0, cf, l, vp);
        lemma_has_rule_concat(st.0 + cf, sv, l, vp);
        if has_rule_at(r, l, vp) {
            let i = choose|i: int| 0 <= i < r.len() && (#[trigger] r[i]).0 == l && r[i].1.0 == vp;
            crate::text::lemma_sort_by_line_contains(v, r[i]);
            assert(r.contains(r[i]));
            let j = choose|j: int| 0 <= j < v.len() && v[j] == r[i];
            assert(has_rule_at(v, l, vp));
        }
        if has_rule_at(v, l, vp) {
            let j = choose|j: int| 0 <= j < v.len() && (#[trigger] v[j]).0 == l && v[j].1.0 == vp;
            crate::text::lemma_sort_by_line_contains(v, v[j]);
            assert(v.contains(v[j]));
            let i = choose|i: int| 0 <= i < r.len() && r[i] == v[j];
            assert(has_rule_at(r, l, vp));
        }
    }
}

/// Sorting by line keeps the findings.
pub proof fn lemma_has_rule_sorted(v: Seq<VioV>, l: int, r: Seq<char>)
    ensures
        has_rule_at(sort_by_line(v), l, r) <==> has_rule_at(v, l, r),
{
    let s = sort_by_line(v);
    if has_rule_at(s, l, r) {
        let i = choose|i: int| 0 <= i < s.len() && (#[trigger] s[i]).0 == l && s[i].1.0 == r;
        crate::text::lemma_sort_by_line_contains(v, s[i]);
        assert(s.contains(s[i]));
        let j = choose|j: int| 0 <= j < v.len() && v[j] == s[i];
        assert(v[j].0 == l);
    }
    if has_rule_at(v, l, r) {
        let j = choose|j: int| 0 <= j < v.len() && (#[trigger] v[j]).0 == l && v[j].1.0 == r;
        crate::text::lemma_sort_by_line_contains(v, v[j]);
        assert(v.contains(v[j]));
        let i = choose|i: int| 0 <= i < s.len() && s[i] == v[j];
        assert(s[i].0 == l);
    }
}

/// A list none of whose findings has rule `r` has none on any line.
pub proof fn lemma_no_rule(v: Seq<VioV>, l: int, r: Seq<char>)
    requires
        forall|i: int| 0 <= i < v.len() ==> (#[trigger] v[i]).1.0 != r,
    ensures
        !has_rule_at(v, l, r),
{
}

} // verus!
