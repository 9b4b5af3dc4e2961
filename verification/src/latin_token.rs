// latin_token.rs — bare English words in Japanese prose, for readers who
// do not share the writer's vocabulary (registers Practice and Consume).
// Consecutive words separated only by spaces are one finding; identifiers,
// acronyms, URLs, paths, DOIs and allowed words are not flagged. The katakana
// table only enriches the suggestion; it never decides what is flagged.
use vstd::prelude::*;

use crate::text::strings_view;

use crate::deny::{lowercase, to_lowercase};
use crate::pipeline::Register;
use crate::prose::{ascii_lower, clean_lines_chars, lower_ascii, run_nonws, spec_clean_lines};
use crate::text::{
    chars_of, contains, count_char, count_of, has, lines_of, push_vec_str, seqs_of, slice_of, split_lines, starts_with,
    string_of, vec_eq,
};
use crate::unicode::{is_white_space, white_space};

verus! {

/// A bare English word or phrase.
pub struct Finding {
    pub line: usize,
    pub rule: &'static str,
    pub msg: String,
}

/// A finding's model: line, rule, message.
pub type FindV = (int, Seq<char>, Seq<char>);

pub open spec fn find_view(f: Finding) -> FindV {
    (f.line as int, f.rule@, f.msg@)
}

pub open spec fn finds_view(v: Seq<Finding>) -> Seq<FindV> {
    Seq::new(v.len(), |i: int| find_view(v[i]))
}

pub open spec fn pairs_of(v: Seq<(Vec<char>, Vec<char>)>) -> Seq<(Seq<char>, Seq<char>)> {
    Seq::new(v.len(), |i: int| (v[i].0@, v[i].1@))
}

pub proof fn lemma_pairs_of_push(v: Seq<(Vec<char>, Vec<char>)>, x: (Vec<char>, Vec<char>))
    ensures
        pairs_of(v.push(x)) == pairs_of(v).push((x.0@, x.1@)),
{
    assert(pairs_of(v.push(x)) =~= pairs_of(v).push((x.0@, x.1@)));
}

#[verifier::opaque]
pub open spec fn katakana_part0() -> Seq<(Seq<char>, Seq<char>)> {
    seq![
        (seq!['a', 'c', 'c', 'e', 's', 's'], seq!['ア', 'ク', 'セ', 'ス']),
        (seq!['a', 'g', 'e', 'n', 'd', 'a'], seq!['ア', 'ジ', 'ェ', 'ン', 'ダ']),
        (seq!['a', 'l', 'l', 'o', 'c', 'a', 't', 'i', 'o', 'n'], seq!['ア', 'ロ', 'ケ', 'ー', 'シ', 'ョ', 'ン']),
        (seq!['a', 'p', 'p', 'r', 'o', 'a', 'c', 'h'], seq!['ア', 'プ', 'ロ', 'ー', 'チ']),
        (seq!['a', 'r', 'c', 'h', 'i', 'v', 'e'], seq!['ア', 'ー', 'カ', 'イ', 'ブ']),
        (seq!['b', 'a', 's', 'e', 'l', 'i', 'n', 'e'], seq!['ベ', 'ー', 'ス', 'ラ', 'イ', 'ン']),
        (seq!['b', 'a', 't', 'c', 'h'], seq!['バ', 'ッ', 'チ']),
        (seq!['b', 'e', 'n', 'c', 'h', 'm', 'a', 'r', 'k'], seq!['ベ', 'ン', 'チ', 'マ', 'ー', 'ク']),
        (seq!['b', 'i', 'a', 's'], seq!['バ', 'イ', 'ア', 'ス']),
        (seq!['b', 'o', 'u', 'n', 'd', 'a', 'r', 'y'], seq!['バ', 'ウ', 'ン', 'ダ', 'リ']),
        (seq!['b', 'u', 'd', 'g', 'e', 't'], seq!['バ', 'ジ', 'ェ', 'ッ', 'ト']),
        (seq!['c', 'a', 'c', 'h', 'e'], seq!['キ', 'ャ', 'ッ', 'シ', 'ュ']),
        (seq!['c', 'a', 'm', 'p', 'a', 'i', 'g', 'n'], seq!['キ', 'ャ', 'ン', 'ペ', 'ー', 'ン']),
        (seq!['c', 'a', 'p', 'a', 'c', 'i', 't', 'y'], seq!['キ', 'ャ', 'パ', 'シ', 'テ', 'ィ']),
        (seq!['c', 'h', 'e', 'c', 'k', 'l', 'i', 's', 't'], seq!['チ', 'ェ', 'ッ', 'ク', 'リ', 'ス', 'ト']),
        (seq!['c', 'l', 'u', 's', 't', 'e', 'r'], seq!['ク', 'ラ', 'ス', 'タ']),
        (seq!['c', 'o', 'l', 'l', 'e', 'c', 't', 'i', 'v', 'e'], seq!['集', '団']),
        (seq!['c', 'o', 'm', 'p', 'l', 'i', 'a', 'n', 'c', 'e'], seq!['コ', 'ン', 'プ', 'ラ', 'イ', 'ア', 'ン', 'ス']),
        (seq!['c', 'o', 'm', 'p', 'o', 'n', 'e', 'n', 't'], seq!['コ', 'ン', 'ポ', 'ー', 'ネ', 'ン', 'ト']),
        (seq!['c', 'o', 'n', 't', 'e', 'x', 't'], seq!['コ', 'ン', 'テ', 'キ', 'ス', 'ト']),
        (seq!['c', 'o', 'v', 'e', 'r', 'a', 'g', 'e'], seq!['カ', 'バ', 'レ', 'ッ', 'ジ']),
        (seq!['d', 'a', 's', 'h', 'b', 'o', 'a', 'r', 'd'], seq!['ダ', 'ッ', 'シ', 'ュ', 'ボ', 'ー', 'ド']),
        (seq!['d', 'a', 't', 'a', 's', 'e', 't'], seq!['デ', 'ー', 'タ', 'セ', 'ッ', 'ト']),
        (seq!['d', 'e', 'f', 'a', 'u', 'l', 't'], seq!['デ', 'フ', 'ォ', 'ル', 'ト']),
        (seq!['d', 'e', 'p', 'l', 'o', 'y'], seq!['デ', 'プ', 'ロ', 'イ']),
    ]
}

#[verifier::opaque]
pub open spec fn katakana_part1() -> Seq<(Seq<char>, Seq<char>)> {
    seq![
        (seq!['d', 'i', 'r', 'e', 'c', 't', 'i', 'v', 'e'], seq!['デ', 'ィ', 'レ', 'ク', 'テ', 'ィ', 'ブ']),
        (seq!['e', 'f', 'f', 'i', 'c', 'i', 'e', 'n', 'c', 'y'], seq!['効', '率']),
        (seq!['e', 'n', 'd', 'p', 'o', 'i', 'n', 't'], seq!['エ', 'ン', 'ド', 'ポ', 'イ', 'ン', 'ト']),
        (seq!['e', 'n', 'g', 'i', 'n', 'e'], seq!['エ', 'ン', 'ジ', 'ン']),
        (seq!['f', 'e', 'e', 'd', 'b', 'a', 'c', 'k'], seq!['フ', 'ィ', 'ー', 'ド', 'バ', 'ッ', 'ク']),
        (seq!['f', 'r', 'a', 'm', 'e', 'w', 'o', 'r', 'k'], seq!['フ', 'レ', 'ー', 'ム', 'ワ', 'ー', 'ク']),
        (seq!['g', 'a', 't', 'e', 'w', 'a', 'y'], seq!['ゲ', 'ー', 'ト', 'ウ', 'ェ', 'イ']),
        (seq!['g', 'u', 'i', 'd', 'e', 'l', 'i', 'n', 'e'], seq!['ガ', 'イ', 'ド', 'ラ', 'イ', 'ン']),
        (seq!['h', 'a', 'n', 'd', 'o', 'f', 'f'], seq!['ハ', 'ン', 'ド', 'オ', 'フ']),
        (seq!['i', 'm', 'p', 'a', 'c', 't'], seq!['イ', 'ン', 'パ', 'ク', 'ト']),
        (seq!['i', 'n', 'c', 'i', 'd', 'e', 'n', 't'], seq!['イ', 'ン', 'シ', 'デ', 'ン', 'ト']),
        (seq!['i', 'n', 'd', 'e', 'x'], seq!['イ', 'ン', 'デ', 'ッ', 'ク', 'ス']),
        (seq!['i', 'n', 'f', 'r', 'a', 's', 't', 'r', 'u', 'c', 't', 'u', 'r', 'e'], seq!['イ', 'ン', 'フ', 'ラ']),
        (seq!['i', 'n', 's', 'i', 'g', 'h', 't'], seq!['イ', 'ン', 'サ', 'イ', 'ト']),
        (seq!['i', 'n', 's', 't', 'a', 'n', 'c', 'e'], seq!['イ', 'ン', 'ス', 'タ', 'ン', 'ス']),
        (seq!['i', 'n', 't', 'e', 'r', 'f', 'a', 'c', 'e'], seq!['イ', 'ン', 'タ', 'ー', 'フ', 'ェ', 'ー', 'ス']),
        (seq!['i', 'n', 'v', 'e', 'n', 't', 'o', 'r', 'y'], seq!['イ', 'ン', 'ベ', 'ン', 'ト', 'リ']),
        (seq!['i', 's', 's', 'u', 'e'], seq!['イ', 'シ', 'ュ', 'ー']),
        (seq!['i', 't', 'e', 'r', 'a', 't', 'i', 'o', 'n'], seq!['イ', 'テ', 'レ', 'ー', 'シ', 'ョ', 'ン']),
        (seq!['l', 'a', 't', 'e', 'n', 'c', 'y'], seq!['レ', 'イ', 'テ', 'ン', 'シ']),
        (seq!['l', 'a', 'y', 'e', 'r'], seq!['レ', 'イ', 'ヤ', 'ー']),
        (seq!['l', 'e', 'd', 'g', 'e', 'r'], seq!['台', '帳']),
        (seq!['l', 'i', 'f', 'e', 'c', 'y', 'c', 'l', 'e'], seq!['ラ', 'イ', 'フ', 'サ', 'イ', 'ク', 'ル']),
        (seq!['m', 'a', 'r', 'g', 'i', 'n'], seq!['マ', 'ー', 'ジ', 'ン']),
        (seq!['m', 'e', 'a', 's', 'u', 'r', 'e', 'm', 'e', 'n', 't'], seq!['測', '定']),
    ]
}

#[verifier::opaque]
pub open spec fn katakana_part2() -> Seq<(Seq<char>, Seq<char>)> {
    seq![
        (seq!['m', 'e', 'n', 'u'], seq!['メ', 'ニ', 'ュ', 'ー']),
        (seq!['m', 'e', 't', 'r', 'i', 'c'], seq!['メ', 'ト', 'リ', 'ク', 'ス']),
        (seq!['m', 'i', 'l', 'e', 's', 't', 'o', 'n', 'e'], seq!['マ', 'イ', 'ル', 'ス', 'ト', 'ー', 'ン']),
        (seq!['m', 'o', 'd', 'u', 'l', 'e'], seq!['モ', 'ジ', 'ュ', 'ー', 'ル']),
        (seq!['m', 'o', 'n', 'i', 't', 'o', 'r'], seq!['モ', 'ニ', 'タ', 'ー']),
        (seq!['o', 'f', 'f', 's', 'e', 't'], seq!['オ', 'フ', 'セ', 'ッ', 'ト']),
        (seq!['o', 'u', 't', 'c', 'o', 'm', 'e'], seq!['ア', 'ウ', 'ト', 'カ', 'ム']),
        (seq!['o', 'v', 'e', 'r', 'h', 'e', 'a', 'd'], seq!['オ', 'ー', 'バ', 'ー', 'ヘ', 'ッ', 'ド']),
        (seq!['o', 'w', 'n', 'e', 'r'], seq!['オ', 'ー', 'ナ', 'ー']),
        (seq!['p', 'i', 'p', 'e', 'l', 'i', 'n', 'e'], seq!['パ', 'イ', 'プ', 'ラ', 'イ', 'ン']),
        (seq!['p', 'l', 'a', 't', 'f', 'o', 'r', 'm'], seq!['プ', 'ラ', 'ッ', 'ト', 'フ', 'ォ', 'ー', 'ム']),
        (seq!['p', 'o', 'l', 'i', 'c', 'y'], seq!['ポ', 'リ', 'シ', 'ー']),
        (seq!['p', 'o', 'r', 't', 'f', 'o', 'l', 'i', 'o'], seq!['ポ', 'ー', 'ト', 'フ', 'ォ', 'リ', 'オ']),
        (seq!['p', 'r', 'i', 'o', 'r', 'i', 't', 'y'], seq!['優', '先', '度']),
        (seq!['p', 'r', 'o', 't', 'o', 'c', 'o', 'l'], seq!['プ', 'ロ', 'ト', 'コ', 'ル']),
        (seq!['p', 'r', 'o', 'v', 'i', 'd', 'e', 'r'], seq!['プ', 'ロ', 'バ', 'イ', 'ダ']),
        (seq!['p', 'r', 'o', 'x', 'y'], seq!['プ', 'ロ', 'キ', 'シ']),
        (seq!['q', 'u', 'e', 'r', 'y'], seq!['ク', 'エ', 'リ']),
        (seq!['q', 'u', 'o', 't', 'a'], seq!['ク', 'ォ', 'ー', 'タ']),
        (seq!['r', 'e', 'g', 'i', 's', 't', 'r', 'y'], seq!['レ', 'ジ', 'ス', 'ト', 'リ']),
        (seq!['r', 'e', 's', 'i', 'l', 'i', 'e', 'n', 'c', 'e'], seq!['レ', 'ジ', 'リ', 'エ', 'ン', 'ス']),
        (seq!['r', 'e', 's', 'o', 'u', 'r', 'c', 'e'], seq!['リ', 'ソ', 'ー', 'ス']),
        (seq!['r', 'o', 'a', 'd', 'm', 'a', 'p'], seq!['ロ', 'ー', 'ド', 'マ', 'ッ', 'プ']),
        (seq!['r', 'o', 'l', 'l', 'b', 'a', 'c', 'k'], seq!['ロ', 'ー', 'ル', 'バ', 'ッ', 'ク']),
        (seq!['r', 'o', 'l', 'l', 'o', 'u', 't'], seq!['ロ', 'ー', 'ル', 'ア', 'ウ', 'ト']),
    ]
}

#[verifier::opaque]
pub open spec fn katakana_part3() -> Seq<(Seq<char>, Seq<char>)> {
    seq![
        (seq!['s', 'a', 'm', 'p', 'l', 'i', 'n', 'g'], seq!['サ', 'ン', 'プ', 'リ', 'ン', 'グ']),
        (seq!['s', 'c', 'a', 'f', 'f', 'o', 'l', 'd'], seq!['足', '場']),
        (seq!['s', 'c', 'h', 'e', 'd', 'u', 'l', 'e'], seq!['ス', 'ケ', 'ジ', 'ュ', 'ー', 'ル']),
        (seq!['s', 'c', 'o', 'p', 'e'], seq!['ス', 'コ', 'ー', 'プ']),
        (seq!['s', 'e', 's', 's', 'i', 'o', 'n'], seq!['セ', 'ッ', 'シ', 'ョ', 'ン']),
        (seq!['s', 'h', 'o', 't'], seq!['シ', 'ョ', 'ッ', 'ト']),
        (seq!['s', 'n', 'a', 'p', 's', 'h', 'o', 't'], seq!['ス', 'ナ', 'ッ', 'プ', 'シ', 'ョ', 'ッ', 'ト']),
        (seq!['s', 't', 'a', 'k', 'e', 'h', 'o', 'l', 'd', 'e', 'r'], seq!['ス', 'テ', 'ー', 'ク', 'ホ', 'ル', 'ダ', 'ー']),
        (seq!['s', 't', 'a', 'n', 'd', 'a', 'r', 'd'], seq!['標', '準']),
        (seq!['s', 't', 'a', 't', 'u', 's'], seq!['ス', 'テ', 'ー', 'タ', 'ス']),
        (seq!['s', 't', 'r', 'a', 't', 'e', 'g', 'y'], seq!['戦', '略']),
        (seq!['s', 'u', 'm', 'm', 'a', 'r', 'y'], seq!['サ', 'マ', 'リ', 'ー']),
        (seq!['s', 'u', 'r', 'v', 'e', 'y'], seq!['サ', 'ー', 'ベ', 'イ']),
        (seq!['t', 'e', 'm', 'p', 'l', 'a', 't', 'e'], seq!['テ', 'ン', 'プ', 'レ', 'ー', 'ト']),
        (seq!['t', 'h', 'r', 'e', 's', 'h', 'o', 'l', 'd'], seq!['閾', '値']),
        (seq!['t', 'h', 'r', 'o', 'u', 'g', 'h', 'p', 'u', 't'], seq!['ス', 'ル', 'ー', 'プ', 'ッ', 'ト']),
        (seq!['t', 'i', 'm', 'e', 'l', 'i', 'n', 'e'], seq!['タ', 'イ', 'ム', 'ラ', 'イ', 'ン']),
        (seq!['t', 'o', 'o', 'l', 'c', 'h', 'a', 'i', 'n'], seq!['ツ', 'ー', 'ル', 'チ', 'ェ', 'ー', 'ン']),
        (seq!['t', 'r', 'a', 'd', 'e', 'o', 'f', 'f'], seq!['ト', 'レ', 'ー', 'ド', 'オ', 'フ']),
        (seq!['u', 'p', 'd', 'a', 't', 'e'], seq!['ア', 'ッ', 'プ', 'デ', 'ー', 'ト']),
        (seq!['u', 'p', 's', 't', 'r', 'e', 'a', 'm'], seq!['ア', 'ッ', 'プ', 'ス', 'ト', 'リ', 'ー', 'ム']),
        (seq!['v', 'e', 'n', 'd', 'o', 'r'], seq!['ベ', 'ン', 'ダ', 'ー']),
        (seq!['v', 'e', 'r', 's', 'i', 'o', 'n'], seq!['バ', 'ー', 'ジ', 'ョ', 'ン']),
        (seq!['w', 'o', 'r', 'k', 'f', 'l', 'o', 'w'], seq!['ワ', 'ー', 'ク', 'フ', 'ロ', 'ー']),
        (seq!['w', 'o', 'r', 'k', 'l', 'o', 'a', 'd'], seq!['ワ', 'ー', 'ク', 'ロ', 'ー', 'ド']),
    ]
}

/// The katakana (or Japanese) rendering of common English words, for suggestions only.
#[verifier::opaque]
pub open spec fn katakana_table() -> Seq<(Seq<char>, Seq<char>)> {
    katakana_part0() + katakana_part1() + katakana_part2() + katakana_part3()
}

fn push_katakana_part0(v: &mut Vec<(Vec<char>, Vec<char>)>)
    ensures
        pairs_of(final(v)@) == pairs_of(old(v)@) + katakana_part0(),
{
    let ghost v0 = pairs_of(v@);
    let w0 = vec!['a', 'c', 'c', 'e', 's', 's'];
    let k0 = vec!['ア', 'ク', 'セ', 'ス'];
    assert(w0@ =~= seq!['a', 'c', 'c', 'e', 's', 's']);
    assert(k0@ =~= seq!['ア', 'ク', 'セ', 'ス']);
    proof {
        lemma_pairs_of_push(v@, (w0, k0));
    }
    v.push((w0, k0));
    let w1 = vec!['a', 'g', 'e', 'n', 'd', 'a'];
    let k1 = vec!['ア', 'ジ', 'ェ', 'ン', 'ダ'];
    assert(w1@ =~= seq!['a', 'g', 'e', 'n', 'd', 'a']);
    assert(k1@ =~= seq!['ア', 'ジ', 'ェ', 'ン', 'ダ']);
    proof {
        lemma_pairs_of_push(v@, (w1, k1));
    }
    v.push((w1, k1));
    let w2 = vec!['a', 'l', 'l', 'o', 'c', 'a', 't', 'i', 'o', 'n'];
    let k2 = vec!['ア', 'ロ', 'ケ', 'ー', 'シ', 'ョ', 'ン'];
    assert(w2@ =~= seq!['a', 'l', 'l', 'o', 'c', 'a', 't', 'i', 'o', 'n']);
    assert(k2@ =~= seq!['ア', 'ロ', 'ケ', 'ー', 'シ', 'ョ', 'ン']);
    proof {
        lemma_pairs_of_push(v@, (w2, k2));
    }
    v.push((w2, k2));
    let w3 = vec!['a', 'p', 'p', 'r', 'o', 'a', 'c', 'h'];
    let k3 = vec!['ア', 'プ', 'ロ', 'ー', 'チ'];
    assert(w3@ =~= seq!['a', 'p', 'p', 'r', 'o', 'a', 'c', 'h']);
    assert(k3@ =~= seq!['ア', 'プ', 'ロ', 'ー', 'チ']);
    proof {
        lemma_pairs_of_push(v@, (w3, k3));
    }
    v.push((w3, k3));
    let w4 = vec!['a', 'r', 'c', 'h', 'i', 'v', 'e'];
    let k4 = vec!['ア', 'ー', 'カ', 'イ', 'ブ'];
    assert(w4@ =~= seq!['a', 'r', 'c', 'h', 'i', 'v', 'e']);
    assert(k4@ =~= seq!['ア', 'ー', 'カ', 'イ', 'ブ']);
    proof {
        lemma_pairs_of_push(v@, (w4, k4));
    }
    v.push((w4, k4));
    let w5 = vec!['b', 'a', 's', 'e', 'l', 'i', 'n', 'e'];
    let k5 = vec!['ベ', 'ー', 'ス', 'ラ', 'イ', 'ン'];
    assert(w5@ =~= seq!['b', 'a', 's', 'e', 'l', 'i', 'n', 'e']);
    assert(k5@ =~= seq!['ベ', 'ー', 'ス', 'ラ', 'イ', 'ン']);
    proof {
        lemma_pairs_of_push(v@, (w5, k5));
    }
    v.push((w5, k5));
    let w6 = vec!['b', 'a', 't', 'c', 'h'];
    let k6 = vec!['バ', 'ッ', 'チ'];
    assert(w6@ =~= seq!['b', 'a', 't', 'c', 'h']);
    assert(k6@ =~= seq!['バ', 'ッ', 'チ']);
    proof {
        lemma_pairs_of_push(v@, (w6, k6));
    }
    v.push((w6, k6));
    let w7 = vec!['b', 'e', 'n', 'c', 'h', 'm', 'a', 'r', 'k'];
    let k7 = vec!['ベ', 'ン', 'チ', 'マ', 'ー', 'ク'];
    assert(w7@ =~= seq!['b', 'e', 'n', 'c', 'h', 'm', 'a', 'r', 'k']);
    assert(k7@ =~= seq!['ベ', 'ン', 'チ', 'マ', 'ー', 'ク']);
    proof {
        lemma_pairs_of_push(v@, (w7, k7));
    }
    v.push((w7, k7));
    let w8 = vec!['b', 'i', 'a', 's'];
    let k8 = vec!['バ', 'イ', 'ア', 'ス'];
    assert(w8@ =~= seq!['b', 'i', 'a', 's']);
    assert(k8@ =~= seq!['バ', 'イ', 'ア', 'ス']);
    proof {
        lemma_pairs_of_push(v@, (w8, k8));
    }
    v.push((w8, k8));
    let w9 = vec!['b', 'o', 'u', 'n', 'd', 'a', 'r', 'y'];
    let k9 = vec!['バ', 'ウ', 'ン', 'ダ', 'リ'];
    assert(w9@ =~= seq!['b', 'o', 'u', 'n', 'd', 'a', 'r', 'y']);
    assert(k9@ =~= seq!['バ', 'ウ', 'ン', 'ダ', 'リ']);
    proof {
        lemma_pairs_of_push(v@, (w9, k9));
    }
    v.push((w9, k9));
    let w10 = vec!['b', 'u', 'd', 'g', 'e', 't'];
    let k10 = vec!['バ', 'ジ', 'ェ', 'ッ', 'ト'];
    assert(w10@ =~= seq!['b', 'u', 'd', 'g', 'e', 't']);
    assert(k10@ =~= seq!['バ', 'ジ', 'ェ', 'ッ', 'ト']);
    proof {
        lemma_pairs_of_push(v@, (w10, k10));
    }
    v.push((w10, k10));
    let w11 = vec!['c', 'a', 'c', 'h', 'e'];
    let k11 = vec!['キ', 'ャ', 'ッ', 'シ', 'ュ'];
    assert(w11@ =~= seq!['c', 'a', 'c', 'h', 'e']);
    assert(k11@ =~= seq!['キ', 'ャ', 'ッ', 'シ', 'ュ']);
    proof {
        lemma_pairs_of_push(v@, (w11, k11));
    }
    v.push((w11, k11));
    let w12 = vec!['c', 'a', 'm', 'p', 'a', 'i', 'g', 'n'];
    let k12 = vec!['キ', 'ャ', 'ン', 'ペ', 'ー', 'ン'];
    assert(w12@ =~= seq!['c', 'a', 'm', 'p', 'a', 'i', 'g', 'n']);
    assert(k12@ =~= seq!['キ', 'ャ', 'ン', 'ペ', 'ー', 'ン']);
    proof {
        lemma_pairs_of_push(v@, (w12, k12));
    }
    v.push((w12, k12));
    let w13 = vec!['c', 'a', 'p', 'a', 'c', 'i', 't', 'y'];
    let k13 = vec!['キ', 'ャ', 'パ', 'シ', 'テ', 'ィ'];
    assert(w13@ =~= seq!['c', 'a', 'p', 'a', 'c', 'i', 't', 'y']);
    assert(k13@ =~= seq!['キ', 'ャ', 'パ', 'シ', 'テ', 'ィ']);
    proof {
        lemma_pairs_of_push(v@, (w13, k13));
    }
    v.push((w13, k13));
    let w14 = vec!['c', 'h', 'e', 'c', 'k', 'l', 'i', 's', 't'];
    let k14 = vec!['チ', 'ェ', 'ッ', 'ク', 'リ', 'ス', 'ト'];
    assert(w14@ =~= seq!['c', 'h', 'e', 'c', 'k', 'l', 'i', 's', 't']);
    assert(k14@ =~= seq!['チ', 'ェ', 'ッ', 'ク', 'リ', 'ス', 'ト']);
    proof {
        lemma_pairs_of_push(v@, (w14, k14));
    }
    v.push((w14, k14));
    let w15 = vec!['c', 'l', 'u', 's', 't', 'e', 'r'];
    let k15 = vec!['ク', 'ラ', 'ス', 'タ'];
    assert(w15@ =~= seq!['c', 'l', 'u', 's', 't', 'e', 'r']);
    assert(k15@ =~= seq!['ク', 'ラ', 'ス', 'タ']);
    proof {
        lemma_pairs_of_push(v@, (w15, k15));
    }
    v.push((w15, k15));
    let w16 = vec!['c', 'o', 'l', 'l', 'e', 'c', 't', 'i', 'v', 'e'];
    let k16 = vec!['集', '団'];
    assert(w16@ =~= seq!['c', 'o', 'l', 'l', 'e', 'c', 't', 'i', 'v', 'e']);
    assert(k16@ =~= seq!['集', '団']);
    proof {
        lemma_pairs_of_push(v@, (w16, k16));
    }
    v.push((w16, k16));
    let w17 = vec!['c', 'o', 'm', 'p', 'l', 'i', 'a', 'n', 'c', 'e'];
    let k17 = vec!['コ', 'ン', 'プ', 'ラ', 'イ', 'ア', 'ン', 'ス'];
    assert(w17@ =~= seq!['c', 'o', 'm', 'p', 'l', 'i', 'a', 'n', 'c', 'e']);
    assert(k17@ =~= seq!['コ', 'ン', 'プ', 'ラ', 'イ', 'ア', 'ン', 'ス']);
    proof {
        lemma_pairs_of_push(v@, (w17, k17));
    }
    v.push((w17, k17));
    let w18 = vec!['c', 'o', 'm', 'p', 'o', 'n', 'e', 'n', 't'];
    let k18 = vec!['コ', 'ン', 'ポ', 'ー', 'ネ', 'ン', 'ト'];
    assert(w18@ =~= seq!['c', 'o', 'm', 'p', 'o', 'n', 'e', 'n', 't']);
    assert(k18@ =~= seq!['コ', 'ン', 'ポ', 'ー', 'ネ', 'ン', 'ト']);
    proof {
        lemma_pairs_of_push(v@, (w18, k18));
    }
    v.push((w18, k18));
    let w19 = vec!['c', 'o', 'n', 't', 'e', 'x', 't'];
    let k19 = vec!['コ', 'ン', 'テ', 'キ', 'ス', 'ト'];
    assert(w19@ =~= seq!['c', 'o', 'n', 't', 'e', 'x', 't']);
    assert(k19@ =~= seq!['コ', 'ン', 'テ', 'キ', 'ス', 'ト']);
    proof {
        lemma_pairs_of_push(v@, (w19, k19));
    }
    v.push((w19, k19));
    let w20 = vec!['c', 'o', 'v', 'e', 'r', 'a', 'g', 'e'];
    let k20 = vec!['カ', 'バ', 'レ', 'ッ', 'ジ'];
    assert(w20@ =~= seq!['c', 'o', 'v', 'e', 'r', 'a', 'g', 'e']);
    assert(k20@ =~= seq!['カ', 'バ', 'レ', 'ッ', 'ジ']);
    proof {
        lemma_pairs_of_push(v@, (w20, k20));
    }
    v.push((w20, k20));
    let w21 = vec!['d', 'a', 's', 'h', 'b', 'o', 'a', 'r', 'd'];
    let k21 = vec!['ダ', 'ッ', 'シ', 'ュ', 'ボ', 'ー', 'ド'];
    assert(w21@ =~= seq!['d', 'a', 's', 'h', 'b', 'o', 'a', 'r', 'd']);
    assert(k21@ =~= seq!['ダ', 'ッ', 'シ', 'ュ', 'ボ', 'ー', 'ド']);
    proof {
        lemma_pairs_of_push(v@, (w21, k21));
    }
    v.push((w21, k21));
    let w22 = vec!['d', 'a', 't', 'a', 's', 'e', 't'];
    let k22 = vec!['デ', 'ー', 'タ', 'セ', 'ッ', 'ト'];
    assert(w22@ =~= seq!['d', 'a', 't', 'a', 's', 'e', 't']);
    assert(k22@ =~= seq!['デ', 'ー', 'タ', 'セ', 'ッ', 'ト']);
    proof {
        lemma_pairs_of_push(v@, (w22, k22));
    }
    v.push((w22, k22));
    let w23 = vec!['d', 'e', 'f', 'a', 'u', 'l', 't'];
    let k23 = vec!['デ', 'フ', 'ォ', 'ル', 'ト'];
    assert(w23@ =~= seq!['d', 'e', 'f', 'a', 'u', 'l', 't']);
    assert(k23@ =~= seq!['デ', 'フ', 'ォ', 'ル', 'ト']);
    proof {
        lemma_pairs_of_push(v@, (w23, k23));
    }
    v.push((w23, k23));
    let w24 = vec!['d', 'e', 'p', 'l', 'o', 'y'];
    let k24 = vec!['デ', 'プ', 'ロ', 'イ'];
    assert(w24@ =~= seq!['d', 'e', 'p', 'l', 'o', 'y']);
    assert(k24@ =~= seq!['デ', 'プ', 'ロ', 'イ']);
    proof {
        lemma_pairs_of_push(v@, (w24, k24));
    }
    v.push((w24, k24));
    assert(pairs_of(v@) =~= v0 + katakana_part0()) by {
        reveal(katakana_part0);
    }
}

fn push_katakana_part1(v: &mut Vec<(Vec<char>, Vec<char>)>)
    ensures
        pairs_of(final(v)@) == pairs_of(old(v)@) + katakana_part1(),
{
    let ghost v0 = pairs_of(v@);
    let w0 = vec!['d', 'i', 'r', 'e', 'c', 't', 'i', 'v', 'e'];
    let k0 = vec!['デ', 'ィ', 'レ', 'ク', 'テ', 'ィ', 'ブ'];
    assert(w0@ =~= seq!['d', 'i', 'r', 'e', 'c', 't', 'i', 'v', 'e']);
    assert(k0@ =~= seq!['デ', 'ィ', 'レ', 'ク', 'テ', 'ィ', 'ブ']);
    proof {
        lemma_pairs_of_push(v@, (w0, k0));
    }
    v.push((w0, k0));
    let w1 = vec!['e', 'f', 'f', 'i', 'c', 'i', 'e', 'n', 'c', 'y'];
    let k1 = vec!['効', '率'];
    assert(w1@ =~= seq!['e', 'f', 'f', 'i', 'c', 'i', 'e', 'n', 'c', 'y']);
    assert(k1@ =~= seq!['効', '率']);
    proof {
        lemma_pairs_of_push(v@, (w1, k1));
    }
    v.push((w1, k1));
    let w2 = vec!['e', 'n', 'd', 'p', 'o', 'i', 'n', 't'];
    let k2 = vec!['エ', 'ン', 'ド', 'ポ', 'イ', 'ン', 'ト'];
    assert(w2@ =~= seq!['e', 'n', 'd', 'p', 'o', 'i', 'n', 't']);
    assert(k2@ =~= seq!['エ', 'ン', 'ド', 'ポ', 'イ', 'ン', 'ト']);
    proof {
        lemma_pairs_of_push(v@, (w2, k2));
    }
    v.push((w2, k2));
    let w3 = vec!['e', 'n', 'g', 'i', 'n', 'e'];
    let k3 = vec!['エ', 'ン', 'ジ', 'ン'];
    assert(w3@ =~= seq!['e', 'n', 'g', 'i', 'n', 'e']);
    assert(k3@ =~= seq!['エ', 'ン', 'ジ', 'ン']);
    proof {
        lemma_pairs_of_push(v@, (w3, k3));
    }
    v.push((w3, k3));
    let w4 = vec!['f', 'e', 'e', 'd', 'b', 'a', 'c', 'k'];
    let k4 = vec!['フ', 'ィ', 'ー', 'ド', 'バ', 'ッ', 'ク'];
    assert(w4@ =~= seq!['f', 'e', 'e', 'd', 'b', 'a', 'c', 'k']);
    assert(k4@ =~= seq!['フ', 'ィ', 'ー', 'ド', 'バ', 'ッ', 'ク']);
    proof {
        lemma_pairs_of_push(v@, (w4, k4));
    }
    v.push((w4, k4));
    let w5 = vec!['f', 'r', 'a', 'm', 'e', 'w', 'o', 'r', 'k'];
    let k5 = vec!['フ', 'レ', 'ー', 'ム', 'ワ', 'ー', 'ク'];
    assert(w5@ =~= seq!['f', 'r', 'a', 'm', 'e', 'w', 'o', 'r', 'k']);
    assert(k5@ =~= seq!['フ', 'レ', 'ー', 'ム', 'ワ', 'ー', 'ク']);
    proof {
        lemma_pairs_of_push(v@, (w5, k5));
    }
    v.push((w5, k5));
    let w6 = vec!['g', 'a', 't', 'e', 'w', 'a', 'y'];
    let k6 = vec!['ゲ', 'ー', 'ト', 'ウ', 'ェ', 'イ'];
    assert(w6@ =~= seq!['g', 'a', 't', 'e', 'w', 'a', 'y']);
    assert(k6@ =~= seq!['ゲ', 'ー', 'ト', 'ウ', 'ェ', 'イ']);
    proof {
        lemma_pairs_of_push(v@, (w6, k6));
    }
    v.push((w6, k6));
    let w7 = vec!['g', 'u', 'i', 'd', 'e', 'l', 'i', 'n', 'e'];
    let k7 = vec!['ガ', 'イ', 'ド', 'ラ', 'イ', 'ン'];
    assert(w7@ =~= seq!['g', 'u', 'i', 'd', 'e', 'l', 'i', 'n', 'e']);
    assert(k7@ =~= seq!['ガ', 'イ', 'ド', 'ラ', 'イ', 'ン']);
    proof {
        lemma_pairs_of_push(v@, (w7, k7));
    }
    v.push((w7, k7));
    let w8 = vec!['h', 'a', 'n', 'd', 'o', 'f', 'f'];
    let k8 = vec!['ハ', 'ン', 'ド', 'オ', 'フ'];
    assert(w8@ =~= seq!['h', 'a', 'n', 'd', 'o', 'f', 'f']);
    assert(k8@ =~= seq!['ハ', 'ン', 'ド', 'オ', 'フ']);
    proof {
        lemma_pairs_of_push(v@, (w8, k8));
    }
    v.push((w8, k8));
    let w9 = vec!['i', 'm', 'p', 'a', 'c', 't'];
    let k9 = vec!['イ', 'ン', 'パ', 'ク', 'ト'];
    assert(w9@ =~= seq!['i', 'm', 'p', 'a', 'c', 't']);
    assert(k9@ =~= seq!['イ', 'ン', 'パ', 'ク', 'ト']);
    proof {
        lemma_pairs_of_push(v@, (w9, k9));
    }
    v.push((w9, k9));
    let w10 = vec!['i', 'n', 'c', 'i', 'd', 'e', 'n', 't'];
    let k10 = vec!['イ', 'ン', 'シ', 'デ', 'ン', 'ト'];
    assert(w10@ =~= seq!['i', 'n', 'c', 'i', 'd', 'e', 'n', 't']);
    assert(k10@ =~= seq!['イ', 'ン', 'シ', 'デ', 'ン', 'ト']);
    proof {
        lemma_pairs_of_push(v@, (w10, k10));
    }
    v.push((w10, k10));
    let w11 = vec!['i', 'n', 'd', 'e', 'x'];
    let k11 = vec!['イ', 'ン', 'デ', 'ッ', 'ク', 'ス'];
    assert(w11@ =~= seq!['i', 'n', 'd', 'e', 'x']);
    assert(k11@ =~= seq!['イ', 'ン', 'デ', 'ッ', 'ク', 'ス']);
    proof {
        lemma_pairs_of_push(v@, (w11, k11));
    }
    v.push((w11, k11));
    let w12 = vec!['i', 'n', 'f', 'r', 'a', 's', 't', 'r', 'u', 'c', 't', 'u', 'r', 'e'];
    let k12 = vec!['イ', 'ン', 'フ', 'ラ'];
    assert(w12@ =~= seq!['i', 'n', 'f', 'r', 'a', 's', 't', 'r', 'u', 'c', 't', 'u', 'r', 'e']);
    assert(k12@ =~= seq!['イ', 'ン', 'フ', 'ラ']);
    proof {
        lemma_pairs_of_push(v@, (w12, k12));
    }
    v.push((w12, k12));
    let w13 = vec!['i', 'n', 's', 'i', 'g', 'h', 't'];
    let k13 = vec!['イ', 'ン', 'サ', 'イ', 'ト'];
    assert(w13@ =~= seq!['i', 'n', 's', 'i', 'g', 'h', 't']);
    assert(k13@ =~= seq!['イ', 'ン', 'サ', 'イ', 'ト']);
    proof {
        lemma_pairs_of_push(v@, (w13, k13));
    }
    v.push((w13, k13));
    let w14 = vec!['i', 'n', 's', 't', 'a', 'n', 'c', 'e'];
    let k14 = vec!['イ', 'ン', 'ス', 'タ', 'ン', 'ス'];
    assert(w14@ =~= seq!['i', 'n', 's', 't', 'a', 'n', 'c', 'e']);
    assert(k14@ =~= seq!['イ', 'ン', 'ス', 'タ', 'ン', 'ス']);
    proof {
        lemma_pairs_of_push(v@, (w14, k14));
    }
    v.push((w14, k14));
    let w15 = vec!['i', 'n', 't', 'e', 'r', 'f', 'a', 'c', 'e'];
    let k15 = vec!['イ', 'ン', 'タ', 'ー', 'フ', 'ェ', 'ー', 'ス'];
    assert(w15@ =~= seq!['i', 'n', 't', 'e', 'r', 'f', 'a', 'c', 'e']);
    assert(k15@ =~= seq!['イ', 'ン', 'タ', 'ー', 'フ', 'ェ', 'ー', 'ス']);
    proof {
        lemma_pairs_of_push(v@, (w15, k15));
    }
    v.push((w15, k15));
    let w16 = vec!['i', 'n', 'v', 'e', 'n', 't', 'o', 'r', 'y'];
    let k16 = vec!['イ', 'ン', 'ベ', 'ン', 'ト', 'リ'];
    assert(w16@ =~= seq!['i', 'n', 'v', 'e', 'n', 't', 'o', 'r', 'y']);
    assert(k16@ =~= seq!['イ', 'ン', 'ベ', 'ン', 'ト', 'リ']);
    proof {
        lemma_pairs_of_push(v@, (w16, k16));
    }
    v.push((w16, k16));
    let w17 = vec!['i', 's', 's', 'u', 'e'];
    let k17 = vec!['イ', 'シ', 'ュ', 'ー'];
    assert(w17@ =~= seq!['i', 's', 's', 'u', 'e']);
    assert(k17@ =~= seq!['イ', 'シ', 'ュ', 'ー']);
    proof {
        lemma_pairs_of_push(v@, (w17, k17));
    }
    v.push((w17, k17));
    let w18 = vec!['i', 't', 'e', 'r', 'a', 't', 'i', 'o', 'n'];
    let k18 = vec!['イ', 'テ', 'レ', 'ー', 'シ', 'ョ', 'ン'];
    assert(w18@ =~= seq!['i', 't', 'e', 'r', 'a', 't', 'i', 'o', 'n']);
    assert(k18@ =~= seq!['イ', 'テ', 'レ', 'ー', 'シ', 'ョ', 'ン']);
    proof {
        lemma_pairs_of_push(v@, (w18, k18));
    }
    v.push((w18, k18));
    let w19 = vec!['l', 'a', 't', 'e', 'n', 'c', 'y'];
    let k19 = vec!['レ', 'イ', 'テ', 'ン', 'シ'];
    assert(w19@ =~= seq!['l', 'a', 't', 'e', 'n', 'c', 'y']);
    assert(k19@ =~= seq!['レ', 'イ', 'テ', 'ン', 'シ']);
    proof {
        lemma_pairs_of_push(v@, (w19, k19));
    }
    v.push((w19, k19));
    let w20 = vec!['l', 'a', 'y', 'e', 'r'];
    let k20 = vec!['レ', 'イ', 'ヤ', 'ー'];
    assert(w20@ =~= seq!['l', 'a', 'y', 'e', 'r']);
    assert(k20@ =~= seq!['レ', 'イ', 'ヤ', 'ー']);
    proof {
        lemma_pairs_of_push(v@, (w20, k20));
    }
    v.push((w20, k20));
    let w21 = vec!['l', 'e', 'd', 'g', 'e', 'r'];
    let k21 = vec!['台', '帳'];
    assert(w21@ =~= seq!['l', 'e', 'd', 'g', 'e', 'r']);
    assert(k21@ =~= seq!['台', '帳']);
    proof {
        lemma_pairs_of_push(v@, (w21, k21));
    }
    v.push((w21, k21));
    let w22 = vec!['l', 'i', 'f', 'e', 'c', 'y', 'c', 'l', 'e'];
    let k22 = vec!['ラ', 'イ', 'フ', 'サ', 'イ', 'ク', 'ル'];
    assert(w22@ =~= seq!['l', 'i', 'f', 'e', 'c', 'y', 'c', 'l', 'e']);
    assert(k22@ =~= seq!['ラ', 'イ', 'フ', 'サ', 'イ', 'ク', 'ル']);
    proof {
        lemma_pairs_of_push(v@, (w22, k22));
    }
    v.push((w22, k22));
    let w23 = vec!['m', 'a', 'r', 'g', 'i', 'n'];
    let k23 = vec!['マ', 'ー', 'ジ', 'ン'];
    assert(w23@ =~= seq!['m', 'a', 'r', 'g', 'i', 'n']);
    assert(k23@ =~= seq!['マ', 'ー', 'ジ', 'ン']);
    proof {
        lemma_pairs_of_push(v@, (w23, k23));
    }
    v.push((w23, k23));
    let w24 = vec!['m', 'e', 'a', 's', 'u', 'r', 'e', 'm', 'e', 'n', 't'];
    let k24 = vec!['測', '定'];
    assert(w24@ =~= seq!['m', 'e', 'a', 's', 'u', 'r', 'e', 'm', 'e', 'n', 't']);
    assert(k24@ =~= seq!['測', '定']);
    proof {
        lemma_pairs_of_push(v@, (w24, k24));
    }
    v.push((w24, k24));
    assert(pairs_of(v@) =~= v0 + katakana_part1()) by {
        reveal(katakana_part1);
    }
}

fn push_katakana_part2(v: &mut Vec<(Vec<char>, Vec<char>)>)
    ensures
        pairs_of(final(v)@) == pairs_of(old(v)@) + katakana_part2(),
{
    let ghost v0 = pairs_of(v@);
    let w0 = vec!['m', 'e', 'n', 'u'];
    let k0 = vec!['メ', 'ニ', 'ュ', 'ー'];
    assert(w0@ =~= seq!['m', 'e', 'n', 'u']);
    assert(k0@ =~= seq!['メ', 'ニ', 'ュ', 'ー']);
    proof {
        lemma_pairs_of_push(v@, (w0, k0));
    }
    v.push((w0, k0));
    let w1 = vec!['m', 'e', 't', 'r', 'i', 'c'];
    let k1 = vec!['メ', 'ト', 'リ', 'ク', 'ス'];
    assert(w1@ =~= seq!['m', 'e', 't', 'r', 'i', 'c']);
    assert(k1@ =~= seq!['メ', 'ト', 'リ', 'ク', 'ス']);
    proof {
        lemma_pairs_of_push(v@, (w1, k1));
    }
    v.push((w1, k1));
    let w2 = vec!['m', 'i', 'l', 'e', 's', 't', 'o', 'n', 'e'];
    let k2 = vec!['マ', 'イ', 'ル', 'ス', 'ト', 'ー', 'ン'];
    assert(w2@ =~= seq!['m', 'i', 'l', 'e', 's', 't', 'o', 'n', 'e']);
    assert(k2@ =~= seq!['マ', 'イ', 'ル', 'ス', 'ト', 'ー', 'ン']);
    proof {
        lemma_pairs_of_push(v@, (w2, k2));
    }
    v.push((w2, k2));
    let w3 = vec!['m', 'o', 'd', 'u', 'l', 'e'];
    let k3 = vec!['モ', 'ジ', 'ュ', 'ー', 'ル'];
    assert(w3@ =~= seq!['m', 'o', 'd', 'u', 'l', 'e']);
    assert(k3@ =~= seq!['モ', 'ジ', 'ュ', 'ー', 'ル']);
    proof {
        lemma_pairs_of_push(v@, (w3, k3));
    }
    v.push((w3, k3));
    let w4 = vec!['m', 'o', 'n', 'i', 't', 'o', 'r'];
    let k4 = vec!['モ', 'ニ', 'タ', 'ー'];
    assert(w4@ =~= seq!['m', 'o', 'n', 'i', 't', 'o', 'r']);
    assert(k4@ =~= seq!['モ', 'ニ', 'タ', 'ー']);
    proof {
        lemma_pairs_of_push(v@, (w4, k4));
    }
    v.push((w4, k4));
    let w5 = vec!['o', 'f', 'f', 's', 'e', 't'];
    let k5 = vec!['オ', 'フ', 'セ', 'ッ', 'ト'];
    assert(w5@ =~= seq!['o', 'f', 'f', 's', 'e', 't']);
    assert(k5@ =~= seq!['オ', 'フ', 'セ', 'ッ', 'ト']);
    proof {
        lemma_pairs_of_push(v@, (w5, k5));
    }
    v.push((w5, k5));
    let w6 = vec!['o', 'u', 't', 'c', 'o', 'm', 'e'];
    let k6 = vec!['ア', 'ウ', 'ト', 'カ', 'ム'];
    assert(w6@ =~= seq!['o', 'u', 't', 'c', 'o', 'm', 'e']);
    assert(k6@ =~= seq!['ア', 'ウ', 'ト', 'カ', 'ム']);
    proof {
        lemma_pairs_of_push(v@, (w6, k6));
    }
    v.push((w6, k6));
    let w7 = vec!['o', 'v', 'e', 'r', 'h', 'e', 'a', 'd'];
    let k7 = vec!['オ', 'ー', 'バ', 'ー', 'ヘ', 'ッ', 'ド'];
    assert(w7@ =~= seq!['o', 'v', 'e', 'r', 'h', 'e', 'a', 'd']);
    assert(k7@ =~= seq!['オ', 'ー', 'バ', 'ー', 'ヘ', 'ッ', 'ド']);
    proof {
        lemma_pairs_of_push(v@, (w7, k7));
    }
    v.push((w7, k7));
    let w8 = vec!['o', 'w', 'n', 'e', 'r'];
    let k8 = vec!['オ', 'ー', 'ナ', 'ー'];
    assert(w8@ =~= seq!['o', 'w', 'n', 'e', 'r']);
    assert(k8@ =~= seq!['オ', 'ー', 'ナ', 'ー']);
    proof {
        lemma_pairs_of_push(v@, (w8, k8));
    }
    v.push((w8, k8));
    let w9 = vec!['p', 'i', 'p', 'e', 'l', 'i', 'n', 'e'];
    let k9 = vec!['パ', 'イ', 'プ', 'ラ', 'イ', 'ン'];
    assert(w9@ =~= seq!['p', 'i', 'p', 'e', 'l', 'i', 'n', 'e']);
    assert(k9@ =~= seq!['パ', 'イ', 'プ', 'ラ', 'イ', 'ン']);
    proof {
        lemma_pairs_of_push(v@, (w9, k9));
    }
    v.push((w9, k9));
    let w10 = vec!['p', 'l', 'a', 't', 'f', 'o', 'r', 'm'];
    let k10 = vec!['プ', 'ラ', 'ッ', 'ト', 'フ', 'ォ', 'ー', 'ム'];
    assert(w10@ =~= seq!['p', 'l', 'a', 't', 'f', 'o', 'r', 'm']);
    assert(k10@ =~= seq!['プ', 'ラ', 'ッ', 'ト', 'フ', 'ォ', 'ー', 'ム']);
    proof {
        lemma_pairs_of_push(v@, (w10, k10));
    }
    v.push((w10, k10));
    let w11 = vec!['p', 'o', 'l', 'i', 'c', 'y'];
    let k11 = vec!['ポ', 'リ', 'シ', 'ー'];
    assert(w11@ =~= seq!['p', 'o', 'l', 'i', 'c', 'y']);
    assert(k11@ =~= seq!['ポ', 'リ', 'シ', 'ー']);
    proof {
        lemma_pairs_of_push(v@, (w11, k11));
    }
    v.push((w11, k11));
    let w12 = vec!['p', 'o', 'r', 't', 'f', 'o', 'l', 'i', 'o'];
    let k12 = vec!['ポ', 'ー', 'ト', 'フ', 'ォ', 'リ', 'オ'];
    assert(w12@ =~= seq!['p', 'o', 'r', 't', 'f', 'o', 'l', 'i', 'o']);
    assert(k12@ =~= seq!['ポ', 'ー', 'ト', 'フ', 'ォ', 'リ', 'オ']);
    proof {
        lemma_pairs_of_push(v@, (w12, k12));
    }
    v.push((w12, k12));
    let w13 = vec!['p', 'r', 'i', 'o', 'r', 'i', 't', 'y'];
    let k13 = vec!['優', '先', '度'];
    assert(w13@ =~= seq!['p', 'r', 'i', 'o', 'r', 'i', 't', 'y']);
    assert(k13@ =~= seq!['優', '先', '度']);
    proof {
        lemma_pairs_of_push(v@, (w13, k13));
    }
    v.push((w13, k13));
    let w14 = vec!['p', 'r', 'o', 't', 'o', 'c', 'o', 'l'];
    let k14 = vec!['プ', 'ロ', 'ト', 'コ', 'ル'];
    assert(w14@ =~= seq!['p', 'r', 'o', 't', 'o', 'c', 'o', 'l']);
    assert(k14@ =~= seq!['プ', 'ロ', 'ト', 'コ', 'ル']);
    proof {
        lemma_pairs_of_push(v@, (w14, k14));
    }
    v.push((w14, k14));
    let w15 = vec!['p', 'r', 'o', 'v', 'i', 'd', 'e', 'r'];
    let k15 = vec!['プ', 'ロ', 'バ', 'イ', 'ダ'];
    assert(w15@ =~= seq!['p', 'r', 'o', 'v', 'i', 'd', 'e', 'r']);
    assert(k15@ =~= seq!['プ', 'ロ', 'バ', 'イ', 'ダ']);
    proof {
        lemma_pairs_of_push(v@, (w15, k15));
    }
    v.push((w15, k15));
    let w16 = vec!['p', 'r', 'o', 'x', 'y'];
    let k16 = vec!['プ', 'ロ', 'キ', 'シ'];
    assert(w16@ =~= seq!['p', 'r', 'o', 'x', 'y']);
    assert(k16@ =~= seq!['プ', 'ロ', 'キ', 'シ']);
    proof {
        lemma_pairs_of_push(v@, (w16, k16));
    }
    v.push((w16, k16));
    let w17 = vec!['q', 'u', 'e', 'r', 'y'];
    let k17 = vec!['ク', 'エ', 'リ'];
    assert(w17@ =~= seq!['q', 'u', 'e', 'r', 'y']);
    assert(k17@ =~= seq!['ク', 'エ', 'リ']);
    proof {
        lemma_pairs_of_push(v@, (w17, k17));
    }
    v.push((w17, k17));
    let w18 = vec!['q', 'u', 'o', 't', 'a'];
    let k18 = vec!['ク', 'ォ', 'ー', 'タ'];
    assert(w18@ =~= seq!['q', 'u', 'o', 't', 'a']);
    assert(k18@ =~= seq!['ク', 'ォ', 'ー', 'タ']);
    proof {
        lemma_pairs_of_push(v@, (w18, k18));
    }
    v.push((w18, k18));
    let w19 = vec!['r', 'e', 'g', 'i', 's', 't', 'r', 'y'];
    let k19 = vec!['レ', 'ジ', 'ス', 'ト', 'リ'];
    assert(w19@ =~= seq!['r', 'e', 'g', 'i', 's', 't', 'r', 'y']);
    assert(k19@ =~= seq!['レ', 'ジ', 'ス', 'ト', 'リ']);
    proof {
        lemma_pairs_of_push(v@, (w19, k19));
    }
    v.push((w19, k19));
    let w20 = vec!['r', 'e', 's', 'i', 'l', 'i', 'e', 'n', 'c', 'e'];
    let k20 = vec!['レ', 'ジ', 'リ', 'エ', 'ン', 'ス'];
    assert(w20@ =~= seq!['r', 'e', 's', 'i', 'l', 'i', 'e', 'n', 'c', 'e']);
    assert(k20@ =~= seq!['レ', 'ジ', 'リ', 'エ', 'ン', 'ス']);
    proof {
        lemma_pairs_of_push(v@, (w20, k20));
    }
    v.push((w20, k20));
    let w21 = vec!['r', 'e', 's', 'o', 'u', 'r', 'c', 'e'];
    let k21 = vec!['リ', 'ソ', 'ー', 'ス'];
    assert(w21@ =~= seq!['r', 'e', 's', 'o', 'u', 'r', 'c', 'e']);
    assert(k21@ =~= seq!['リ', 'ソ', 'ー', 'ス']);
    proof {
        lemma_pairs_of_push(v@, (w21, k21));
    }
    v.push((w21, k21));
    let w22 = vec!['r', 'o', 'a', 'd', 'm', 'a', 'p'];
    let k22 = vec!['ロ', 'ー', 'ド', 'マ', 'ッ', 'プ'];
    assert(w22@ =~= seq!['r', 'o', 'a', 'd', 'm', 'a', 'p']);
    assert(k22@ =~= seq!['ロ', 'ー', 'ド', 'マ', 'ッ', 'プ']);
    proof {
        lemma_pairs_of_push(v@, (w22, k22));
    }
    v.push((w22, k22));
    let w23 = vec!['r', 'o', 'l', 'l', 'b', 'a', 'c', 'k'];
    let k23 = vec!['ロ', 'ー', 'ル', 'バ', 'ッ', 'ク'];
    assert(w23@ =~= seq!['r', 'o', 'l', 'l', 'b', 'a', 'c', 'k']);
    assert(k23@ =~= seq!['ロ', 'ー', 'ル', 'バ', 'ッ', 'ク']);
    proof {
        lemma_pairs_of_push(v@, (w23, k23));
    }
    v.push((w23, k23));
    let w24 = vec!['r', 'o', 'l', 'l', 'o', 'u', 't'];
    let k24 = vec!['ロ', 'ー', 'ル', 'ア', 'ウ', 'ト'];
    assert(w24@ =~= seq!['r', 'o', 'l', 'l', 'o', 'u', 't']);
    assert(k24@ =~= seq!['ロ', 'ー', 'ル', 'ア', 'ウ', 'ト']);
    proof {
        lemma_pairs_of_push(v@, (w24, k24));
    }
    v.push((w24, k24));
    assert(pairs_of(v@) =~= v0 + katakana_part2()) by {
        reveal(katakana_part2);
    }
}

fn push_katakana_part3(v: &mut Vec<(Vec<char>, Vec<char>)>)
    ensures
        pairs_of(final(v)@) == pairs_of(old(v)@) + katakana_part3(),
{
    let ghost v0 = pairs_of(v@);
    let w0 = vec!['s', 'a', 'm', 'p', 'l', 'i', 'n', 'g'];
    let k0 = vec!['サ', 'ン', 'プ', 'リ', 'ン', 'グ'];
    assert(w0@ =~= seq!['s', 'a', 'm', 'p', 'l', 'i', 'n', 'g']);
    assert(k0@ =~= seq!['サ', 'ン', 'プ', 'リ', 'ン', 'グ']);
    proof {
        lemma_pairs_of_push(v@, (w0, k0));
    }
    v.push((w0, k0));
    let w1 = vec!['s', 'c', 'a', 'f', 'f', 'o', 'l', 'd'];
    let k1 = vec!['足', '場'];
    assert(w1@ =~= seq!['s', 'c', 'a', 'f', 'f', 'o', 'l', 'd']);
    assert(k1@ =~= seq!['足', '場']);
    proof {
        lemma_pairs_of_push(v@, (w1, k1));
    }
    v.push((w1, k1));
    let w2 = vec!['s', 'c', 'h', 'e', 'd', 'u', 'l', 'e'];
    let k2 = vec!['ス', 'ケ', 'ジ', 'ュ', 'ー', 'ル'];
    assert(w2@ =~= seq!['s', 'c', 'h', 'e', 'd', 'u', 'l', 'e']);
    assert(k2@ =~= seq!['ス', 'ケ', 'ジ', 'ュ', 'ー', 'ル']);
    proof {
        lemma_pairs_of_push(v@, (w2, k2));
    }
    v.push((w2, k2));
    let w3 = vec!['s', 'c', 'o', 'p', 'e'];
    let k3 = vec!['ス', 'コ', 'ー', 'プ'];
    assert(w3@ =~= seq!['s', 'c', 'o', 'p', 'e']);
    assert(k3@ =~= seq!['ス', 'コ', 'ー', 'プ']);
    proof {
        lemma_pairs_of_push(v@, (w3, k3));
    }
    v.push((w3, k3));
    let w4 = vec!['s', 'e', 's', 's', 'i', 'o', 'n'];
    let k4 = vec!['セ', 'ッ', 'シ', 'ョ', 'ン'];
    assert(w4@ =~= seq!['s', 'e', 's', 's', 'i', 'o', 'n']);
    assert(k4@ =~= seq!['セ', 'ッ', 'シ', 'ョ', 'ン']);
    proof {
        lemma_pairs_of_push(v@, (w4, k4));
    }
    v.push((w4, k4));
    let w5 = vec!['s', 'h', 'o', 't'];
    let k5 = vec!['シ', 'ョ', 'ッ', 'ト'];
    assert(w5@ =~= seq!['s', 'h', 'o', 't']);
    assert(k5@ =~= seq!['シ', 'ョ', 'ッ', 'ト']);
    proof {
        lemma_pairs_of_push(v@, (w5, k5));
    }
    v.push((w5, k5));
    let w6 = vec!['s', 'n', 'a', 'p', 's', 'h', 'o', 't'];
    let k6 = vec!['ス', 'ナ', 'ッ', 'プ', 'シ', 'ョ', 'ッ', 'ト'];
    assert(w6@ =~= seq!['s', 'n', 'a', 'p', 's', 'h', 'o', 't']);
    assert(k6@ =~= seq!['ス', 'ナ', 'ッ', 'プ', 'シ', 'ョ', 'ッ', 'ト']);
    proof {
        lemma_pairs_of_push(v@, (w6, k6));
    }
    v.push((w6, k6));
    let w7 = vec!['s', 't', 'a', 'k', 'e', 'h', 'o', 'l', 'd', 'e', 'r'];
    let k7 = vec!['ス', 'テ', 'ー', 'ク', 'ホ', 'ル', 'ダ', 'ー'];
    assert(w7@ =~= seq!['s', 't', 'a', 'k', 'e', 'h', 'o', 'l', 'd', 'e', 'r']);
    assert(k7@ =~= seq!['ス', 'テ', 'ー', 'ク', 'ホ', 'ル', 'ダ', 'ー']);
    proof {
        lemma_pairs_of_push(v@, (w7, k7));
    }
    v.push((w7, k7));
    let w8 = vec!['s', 't', 'a', 'n', 'd', 'a', 'r', 'd'];
    let k8 = vec!['標', '準'];
    assert(w8@ =~= seq!['s', 't', 'a', 'n', 'd', 'a', 'r', 'd']);
    assert(k8@ =~= seq!['標', '準']);
    proof {
        lemma_pairs_of_push(v@, (w8, k8));
    }
    v.push((w8, k8));
    let w9 = vec!['s', 't', 'a', 't', 'u', 's'];
    let k9 = vec!['ス', 'テ', 'ー', 'タ', 'ス'];
    assert(w9@ =~= seq!['s', 't', 'a', 't', 'u', 's']);
    assert(k9@ =~= seq!['ス', 'テ', 'ー', 'タ', 'ス']);
    proof {
        lemma_pairs_of_push(v@, (w9, k9));
    }
    v.push((w9, k9));
    let w10 = vec!['s', 't', 'r', 'a', 't', 'e', 'g', 'y'];
    let k10 = vec!['戦', '略'];
    assert(w10@ =~= seq!['s', 't', 'r', 'a', 't', 'e', 'g', 'y']);
    assert(k10@ =~= seq!['戦', '略']);
    proof {
        lemma_pairs_of_push(v@, (w10, k10));
    }
    v.push((w10, k10));
    let w11 = vec!['s', 'u', 'm', 'm', 'a', 'r', 'y'];
    let k11 = vec!['サ', 'マ', 'リ', 'ー'];
    assert(w11@ =~= seq!['s', 'u', 'm', 'm', 'a', 'r', 'y']);
    assert(k11@ =~= seq!['サ', 'マ', 'リ', 'ー']);
    proof {
        lemma_pairs_of_push(v@, (w11, k11));
    }
    v.push((w11, k11));
    let w12 = vec!['s', 'u', 'r', 'v', 'e', 'y'];
    let k12 = vec!['サ', 'ー', 'ベ', 'イ'];
    assert(w12@ =~= seq!['s', 'u', 'r', 'v', 'e', 'y']);
    assert(k12@ =~= seq!['サ', 'ー', 'ベ', 'イ']);
    proof {
        lemma_pairs_of_push(v@, (w12, k12));
    }
    v.push((w12, k12));
    let w13 = vec!['t', 'e', 'm', 'p', 'l', 'a', 't', 'e'];
    let k13 = vec!['テ', 'ン', 'プ', 'レ', 'ー', 'ト'];
    assert(w13@ =~= seq!['t', 'e', 'm', 'p', 'l', 'a', 't', 'e']);
    assert(k13@ =~= seq!['テ', 'ン', 'プ', 'レ', 'ー', 'ト']);
    proof {
        lemma_pairs_of_push(v@, (w13, k13));
    }
    v.push((w13, k13));
    let w14 = vec!['t', 'h', 'r', 'e', 's', 'h', 'o', 'l', 'd'];
    let k14 = vec!['閾', '値'];
    assert(w14@ =~= seq!['t', 'h', 'r', 'e', 's', 'h', 'o', 'l', 'd']);
    assert(k14@ =~= seq!['閾', '値']);
    proof {
        lemma_pairs_of_push(v@, (w14, k14));
    }
    v.push((w14, k14));
    let w15 = vec!['t', 'h', 'r', 'o', 'u', 'g', 'h', 'p', 'u', 't'];
    let k15 = vec!['ス', 'ル', 'ー', 'プ', 'ッ', 'ト'];
    assert(w15@ =~= seq!['t', 'h', 'r', 'o', 'u', 'g', 'h', 'p', 'u', 't']);
    assert(k15@ =~= seq!['ス', 'ル', 'ー', 'プ', 'ッ', 'ト']);
    proof {
        lemma_pairs_of_push(v@, (w15, k15));
    }
    v.push((w15, k15));
    let w16 = vec!['t', 'i', 'm', 'e', 'l', 'i', 'n', 'e'];
    let k16 = vec!['タ', 'イ', 'ム', 'ラ', 'イ', 'ン'];
    assert(w16@ =~= seq!['t', 'i', 'm', 'e', 'l', 'i', 'n', 'e']);
    assert(k16@ =~= seq!['タ', 'イ', 'ム', 'ラ', 'イ', 'ン']);
    proof {
        lemma_pairs_of_push(v@, (w16, k16));
    }
    v.push((w16, k16));
    let w17 = vec!['t', 'o', 'o', 'l', 'c', 'h', 'a', 'i', 'n'];
    let k17 = vec!['ツ', 'ー', 'ル', 'チ', 'ェ', 'ー', 'ン'];
    assert(w17@ =~= seq!['t', 'o', 'o', 'l', 'c', 'h', 'a', 'i', 'n']);
    assert(k17@ =~= seq!['ツ', 'ー', 'ル', 'チ', 'ェ', 'ー', 'ン']);
    proof {
        lemma_pairs_of_push(v@, (w17, k17));
    }
    v.push((w17, k17));
    let w18 = vec!['t', 'r', 'a', 'd', 'e', 'o', 'f', 'f'];
    let k18 = vec!['ト', 'レ', 'ー', 'ド', 'オ', 'フ'];
    assert(w18@ =~= seq!['t', 'r', 'a', 'd', 'e', 'o', 'f', 'f']);
    assert(k18@ =~= seq!['ト', 'レ', 'ー', 'ド', 'オ', 'フ']);
    proof {
        lemma_pairs_of_push(v@, (w18, k18));
    }
    v.push((w18, k18));
    let w19 = vec!['u', 'p', 'd', 'a', 't', 'e'];
    let k19 = vec!['ア', 'ッ', 'プ', 'デ', 'ー', 'ト'];
    assert(w19@ =~= seq!['u', 'p', 'd', 'a', 't', 'e']);
    assert(k19@ =~= seq!['ア', 'ッ', 'プ', 'デ', 'ー', 'ト']);
    proof {
        lemma_pairs_of_push(v@, (w19, k19));
    }
    v.push((w19, k19));
    let w20 = vec!['u', 'p', 's', 't', 'r', 'e', 'a', 'm'];
    let k20 = vec!['ア', 'ッ', 'プ', 'ス', 'ト', 'リ', 'ー', 'ム'];
    assert(w20@ =~= seq!['u', 'p', 's', 't', 'r', 'e', 'a', 'm']);
    assert(k20@ =~= seq!['ア', 'ッ', 'プ', 'ス', 'ト', 'リ', 'ー', 'ム']);
    proof {
        lemma_pairs_of_push(v@, (w20, k20));
    }
    v.push((w20, k20));
    let w21 = vec!['v', 'e', 'n', 'd', 'o', 'r'];
    let k21 = vec!['ベ', 'ン', 'ダ', 'ー'];
    assert(w21@ =~= seq!['v', 'e', 'n', 'd', 'o', 'r']);
    assert(k21@ =~= seq!['ベ', 'ン', 'ダ', 'ー']);
    proof {
        lemma_pairs_of_push(v@, (w21, k21));
    }
    v.push((w21, k21));
    let w22 = vec!['v', 'e', 'r', 's', 'i', 'o', 'n'];
    let k22 = vec!['バ', 'ー', 'ジ', 'ョ', 'ン'];
    assert(w22@ =~= seq!['v', 'e', 'r', 's', 'i', 'o', 'n']);
    assert(k22@ =~= seq!['バ', 'ー', 'ジ', 'ョ', 'ン']);
    proof {
        lemma_pairs_of_push(v@, (w22, k22));
    }
    v.push((w22, k22));
    let w23 = vec!['w', 'o', 'r', 'k', 'f', 'l', 'o', 'w'];
    let k23 = vec!['ワ', 'ー', 'ク', 'フ', 'ロ', 'ー'];
    assert(w23@ =~= seq!['w', 'o', 'r', 'k', 'f', 'l', 'o', 'w']);
    assert(k23@ =~= seq!['ワ', 'ー', 'ク', 'フ', 'ロ', 'ー']);
    proof {
        lemma_pairs_of_push(v@, (w23, k23));
    }
    v.push((w23, k23));
    let w24 = vec!['w', 'o', 'r', 'k', 'l', 'o', 'a', 'd'];
    let k24 = vec!['ワ', 'ー', 'ク', 'ロ', 'ー', 'ド'];
    assert(w24@ =~= seq!['w', 'o', 'r', 'k', 'l', 'o', 'a', 'd']);
    assert(k24@ =~= seq!['ワ', 'ー', 'ク', 'ロ', 'ー', 'ド']);
    proof {
        lemma_pairs_of_push(v@, (w24, k24));
    }
    v.push((w24, k24));
    assert(pairs_of(v@) =~= v0 + katakana_part3()) by {
        reveal(katakana_part3);
    }
}

/// The katakana table.
pub fn katakana_table_vec() -> (v: Vec<(Vec<char>, Vec<char>)>)
    ensures
        pairs_of(v@) == katakana_table(),
{
    let mut v: Vec<(Vec<char>, Vec<char>)> = Vec::new();
    assert(pairs_of(v@) =~= Seq::<(Seq<char>, Seq<char>)>::empty());
    push_katakana_part0(&mut v);
    push_katakana_part1(&mut v);
    push_katakana_part2(&mut v);
    push_katakana_part3(&mut v);
    assert(pairs_of(v@) =~= katakana_table()) by {
        reveal(katakana_table);
    }
    v
}

/// `s` with ASCII capitals lowered.
pub open spec fn lower_seq(s: Seq<char>) -> Seq<char> {
    Seq::new(s.len(), |i: int| ascii_lower(s[i]))
}

/// The rendering of the first entry of `tbl[k..]` for `w`.
pub open spec fn lookup(tbl: Seq<(Seq<char>, Seq<char>)>, w: Seq<char>, k: int) -> Option<Seq<char>>
    decreases tbl.len() - k,
{
    if k < 0 || k >= tbl.len() {
        None
    } else if tbl[k].0 == w {
        Some(tbl[k].1)
    } else {
        lookup(tbl, w, k + 1)
    }
}

/// The katakana rendering of an English word, if the table has it.
pub open spec fn katakana_of(word: Seq<char>) -> Option<Seq<char>> {
    lookup(katakana_table(), lower_seq(word), 0)
}

fn lower_vec(s: &Vec<char>) -> (r: Vec<char>)
    ensures
        r@ == lower_seq(s@),
{
    let mut r: Vec<char> = Vec::new();
    let mut i: usize = 0;
    while i < s.len()
        invariant
            i <= s.len(),
            r@ == lower_seq(s@).take(i as int),
        decreases s.len() - i,
    {
        r.push(lower_ascii(s[i]));
        i = i + 1;
        assert(r@ =~= lower_seq(s@).take(i as int));
    }
    assert(lower_seq(s@).take(s.len() as int) =~= lower_seq(s@));
    r
}

fn katakana_lookup(tbl: &Vec<(Vec<char>, Vec<char>)>, word: &Vec<char>) -> (r: Option<Vec<char>>)
    requires
        pairs_of(tbl@) == katakana_table(),
    ensures
        match r {
            Some(k) => katakana_of(word@) == Some(k@),
            None => katakana_of(word@) is None,
        },
{
    let w = lower_vec(word);
    let mut k: usize = 0;
    while k < tbl.len()
        invariant
            k <= tbl.len(),
            pairs_of(tbl@) == katakana_table(),
            w@ == lower_seq(word@),
            katakana_of(word@) == lookup(katakana_table(), w@, k as int),
        decreases tbl.len() - k,
    {
        if vec_eq(&tbl[k].0, &w) {
            let r = slice_of(&tbl[k].1, 0, tbl[k].1.len());
            assert(r@ =~= tbl@[k as int].1@);
            return Some(r);
        }
        k = k + 1;
    }
    None
}

/// The katakana rendering of an English word (`katakana_for`).
pub fn katakana_for(word: &str) -> (r: Option<String>)
    ensures
        match r {
            Some(k) => katakana_of(word@) == Some(k@),
            None => katakana_of(word@) is None,
        },
{
    let tbl = katakana_table_vec();
    let w = chars_of(word);
    match katakana_lookup(&tbl, &w) {
        Some(k) => Some(string_of(&k)),
        None => None,
    }
}

pub open spec fn is_upper(c: char) -> bool {
    'A' <= c <= 'Z'
}

pub open spec fn is_lower(c: char) -> bool {
    'a' <= c <= 'z'
}

pub open spec fn is_digit(c: char) -> bool {
    '0' <= c <= '9'
}

pub open spec fn all_upper(t: Seq<char>) -> bool {
    forall|i: int| 0 <= i < t.len() ==> is_upper(#[trigger] t[i])
}

pub open spec fn all_lower(t: Seq<char>) -> bool {
    forall|i: int| 0 <= i < t.len() ==> is_lower(#[trigger] t[i])
}

pub open spec fn any_digit(t: Seq<char>) -> bool {
    exists|i: int| 0 <= i < t.len() && is_digit(#[trigger] t[i])
}

pub open spec fn any_upper(t: Seq<char>) -> bool {
    exists|i: int| 0 <= i < t.len() && is_upper(#[trigger] t[i])
}

pub open spec fn any_lower(t: Seq<char>) -> bool {
    exists|i: int| 0 <= i < t.len() && is_lower(#[trigger] t[i])
}

/// Two to six ASCII capitals.
pub open spec fn acronym(t: Seq<char>) -> bool {
    2 <= t.len() <= 6 && all_upper(t)
}

/// A digit, an underscore, or mixed case.
pub open spec fn identifier_like(t: Seq<char>) -> bool {
    any_digit(t) || count_char(t, '_') > 0 || (any_upper(t) && any_lower(t))
}

/// Two or more ASCII lowercase letters.
pub open spec fn lowercase_word(t: Seq<char>) -> bool {
    t.len() >= 2 && all_lower(t)
}

/// A slash, `://`, a `doi:` prefix, or two dots with a digit.
pub open spec fn url_path_or_doi(t: Seq<char>) -> bool {
    count_char(t, '/') > 0 || contains(t, seq![':', '/', '/']) || starts_with(lowercase(t), seq!['d', 'o', 'i', ':'])
        || (count_char(t, '.') >= 2 && any_digit(t))
}

fn all_upper_exec(t: &Vec<char>) -> (r: bool)
    ensures
        r == all_upper(t@),
{
    let mut i: usize = 0;
    while i < t.len()
        invariant
            i <= t.len(),
            forall|j: int| 0 <= j < i ==> is_upper(#[trigger] t@[j]),
        decreases t.len() - i,
    {
        if !('A' <= t[i] && t[i] <= 'Z') {
            return false;
        }
        i = i + 1;
    }
    true
}

fn all_lower_exec(t: &Vec<char>) -> (r: bool)
    ensures
        r == all_lower(t@),
{
    let mut i: usize = 0;
    while i < t.len()
        invariant
            i <= t.len(),
            forall|j: int| 0 <= j < i ==> is_lower(#[trigger] t@[j]),
        decreases t.len() - i,
    {
        if !('a' <= t[i] && t[i] <= 'z') {
            return false;
        }
        i = i + 1;
    }
    true
}

fn any_digit_exec(t: &Vec<char>) -> (r: bool)
    ensures
        r == any_digit(t@),
{
    let mut i: usize = 0;
    while i < t.len()
        invariant
            i <= t.len(),
            forall|j: int| 0 <= j < i ==> !is_digit(#[trigger] t@[j]),
        decreases t.len() - i,
    {
        if '0' <= t[i] && t[i] <= '9' {
            assert(is_digit(t@[i as int]));
            return true;
        }
        i = i + 1;
    }
    false
}

fn any_upper_exec(t: &Vec<char>) -> (r: bool)
    ensures
        r == any_upper(t@),
{
    let mut i: usize = 0;
    while i < t.len()
        invariant
            i <= t.len(),
            forall|j: int| 0 <= j < i ==> !is_upper(#[trigger] t@[j]),
        decreases t.len() - i,
    {
        if 'A' <= t[i] && t[i] <= 'Z' {
            assert(is_upper(t@[i as int]));
            return true;
        }
        i = i + 1;
    }
    false
}

fn any_lower_exec(t: &Vec<char>) -> (r: bool)
    ensures
        r == any_lower(t@),
{
    let mut i: usize = 0;
    while i < t.len()
        invariant
            i <= t.len(),
            forall|j: int| 0 <= j < i ==> !is_lower(#[trigger] t@[j]),
        decreases t.len() - i,
    {
        if 'a' <= t[i] && t[i] <= 'z' {
            assert(is_lower(t@[i as int]));
            return true;
        }
        i = i + 1;
    }
    false
}

/// Two to six ASCII capitals (`is_acronym`).
pub fn is_acronym(t: &str) -> (r: bool)
    ensures
        r == acronym(t@),
{
    let v = chars_of(t);
    2 <= v.len() && v.len() <= 6 && all_upper_exec(&v)
}

fn identifier_like_chars(v: &Vec<char>) -> (r: bool)
    ensures
        r == identifier_like(v@),
{
    any_digit_exec(v) || count_of(v, '_') > 0 || (any_upper_exec(v) && any_lower_exec(v))
}

/// A digit, an underscore, or mixed case (`is_identifier_like`).
pub fn is_identifier_like(t: &str) -> (r: bool)
    ensures
        r == identifier_like(t@),
{
    let v = chars_of(t);
    identifier_like_chars(&v)
}

/// Two or more ASCII lowercase letters (`is_lowercase_word`).
pub fn is_lowercase_word(t: &str) -> (r: bool)
    ensures
        r == lowercase_word(t@),
{
    let v = chars_of(t);
    v.len() >= 2 && all_lower_exec(&v)
}

fn url_chars(v: &Vec<char>) -> (r: bool)
    ensures
        r == url_path_or_doi(v@),
{
    let sep = vec![':', '/', '/'];
    assert(sep@ =~= seq![':', '/', '/']);
    let doi = vec!['d', 'o', 'i', ':'];
    assert(doi@ =~= seq!['d', 'o', 'i', ':']);
    if count_of(v, '/') > 0 || has(v, &sep) {
        return true;
    }
    let s = string_of(v);
    let low = to_lowercase(s.as_str());
    let lv = chars_of(low.as_str());
    if crate::text::at(&lv, &doi, 0) {
        return true;
    }
    count_of(v, '.') >= 2 && any_digit_exec(v)
}

/// A URL, a path or a DOI around a word (`looks_like_url_or_path_or_doi`).
pub fn looks_like_url_or_path_or_doi(surrounding: &str) -> (r: bool)
    ensures
        r == url_path_or_doi(surrounding@),
{
    let v = chars_of(surrounding);
    url_chars(&v)
}

/// The start of the run of non-White_Space characters ending at `j`.
pub open spec fn back_nonws(s: Seq<char>, j: int) -> int
    decreases j,
{
    if 0 < j <= s.len() && !is_white_space(s[j - 1]) {
        back_nonws(s, j - 1)
    } else {
        j
    }
}

/// The whitespace-delimited token around `s[start..end]`.
pub open spec fn surrounding_of(s: Seq<char>, start: int, end: int) -> Seq<char> {
    s.subrange(back_nonws(s, start), run_nonws(s, end))
}

pub proof fn lemma_nonws(s: Seq<char>, start: int, end: int)
    requires
        0 <= start <= end <= s.len(),
    ensures
        0 <= back_nonws(s, start) <= start,
        end <= run_nonws(s, end) <= s.len(),
    decreases s.len() - end + start,
{
    if 0 < start && !is_white_space(s[start - 1]) {
        lemma_nonws(s, start - 1, end);
    } else if end < s.len() && !is_white_space(s[end]) {
        lemma_nonws(s, start, end + 1);
    }
}

fn surrounding_chars(s: &Vec<char>, start: usize, end: usize) -> (r: Vec<char>)
    requires
        start <= end <= s.len(),
    ensures
        r@ == surrounding_of(s@, start as int, end as int),
{
    let mut b = start;
    while b > 0 && !white_space(s[b - 1])
        invariant
            b <= start,
            start <= s.len(),
            back_nonws(s@, start as int) == back_nonws(s@, b as int),
        decreases b,
    {
        b = b - 1;
    }
    let mut e = end;
    while e < s.len() && !white_space(s[e])
        invariant
            end <= e <= s.len(),
            run_nonws(s@, end as int) == run_nonws(s@, e as int),
        decreases s.len() - e,
    {
        e = e + 1;
    }
    slice_of(s, b, e)
}

/// The whitespace-delimited token around the characters `start..end` of `line`.
pub fn surrounding_token(line: &str, start: usize, end: usize) -> (r: String)
    requires
        start <= end <= line@.len(),
    ensures
        r@ == surrounding_of(line@, start as int, end as int),
{
    let v = chars_of(line);
    let t = surrounding_chars(&v, start, end);
    string_of(&t)
}

pub open spec fn is_letter(c: char) -> bool {
    is_upper(c) || is_lower(c)
}

pub open spec fn is_span_char(c: char) -> bool {
    is_letter(c) || c == '-'
}

pub open spec fn run_span(s: Seq<char>, j: int) -> int
    decreases s.len() - j,
{
    if 0 <= j < s.len() && is_span_char(s[j]) {
        run_span(s, j + 1)
    } else {
        j
    }
}

pub proof fn lemma_run_span(s: Seq<char>, j: int)
    requires
        0 <= j <= s.len(),
    ensures
        j <= run_span(s, j) <= s.len(),
    decreases s.len() - j,
{
    if j < s.len() {
        lemma_run_span(s, j + 1);
    }
}

/// The latin spans (`[A-Za-z][A-Za-z-]*`) of `s[i..]`.
pub open spec fn spans_from(s: Seq<char>, i: int) -> Seq<(int, int)>
    decreases s.len() - i,
{
    if i < 0 || i >= s.len() {
        Seq::empty()
    } else if is_letter(s[i]) {
        proof {
            lemma_run_span(s, i + 1);
        }
        seq![(i, run_span(s, i + 1))] + spans_from(s, run_span(s, i + 1))
    } else {
        spans_from(s, i + 1)
    }
}

/// Only spaces and ideographic spaces between `q` and `p`.
pub open spec fn gap_blank(s: Seq<char>, q: int, p: int) -> bool {
    forall|k: int| q <= k < p ==> (#[trigger] s[k] == ' ' || s[k] == '\u{3000}')
}

/// A span that is not prose: part of a URL, path or identifier, an acronym,
/// not a lowercase word, or allowed.
pub open spec fn span_excluded(s: Seq<char>, p: int, e: int, allow: Seq<Seq<char>>) -> bool {
    let core = s.subrange(p, e);
    let surr = surrounding_of(s, p, e);
    url_path_or_doi(surr) || acronym(core) || identifier_like(surr) || !lowercase_word(core) || allow.contains(
        lower_seq(core),
    )
}

/// The runs so far, the current run, and the end of the previous span.
pub type RunState = (Seq<Seq<Seq<char>>>, Seq<Seq<char>>, Option<int>);

pub open spec fn run_step(st: RunState, s: Seq<char>, p: int, e: int, allow: Seq<Seq<char>>) -> RunState {
    let contiguous = st.2 matches Some(q) && gap_blank(s, q, p);
    let (runs1, cur1) = if !contiguous && st.1.len() > 0 {
        (st.0.push(st.1), Seq::empty())
    } else {
        (st.0, st.1)
    };
    if span_excluded(s, p, e, allow) {
        (
            if cur1.len() > 0 {
                runs1.push(cur1)
            } else {
                runs1
            },
            Seq::empty(),
            Some(e),
        )
    } else {
        (runs1, cur1.push(s.subrange(p, e)), Some(e))
    }
}

pub open spec fn runs_fold(s: Seq<char>, sp: Seq<(int, int)>, allow: Seq<Seq<char>>) -> RunState
    decreases sp.len(),
{
    if sp.len() == 0 {
        (Seq::empty(), Seq::empty(), None)
    } else {
        run_step(runs_fold(s, sp.drop_last(), allow), s, sp.last().0, sp.last().1, allow)
    }
}

/// The runs of consecutive bare English words of a line.
pub open spec fn latin_runs_of(s: Seq<char>, allow: Seq<Seq<char>>) -> Seq<Seq<Seq<char>>> {
    let st = runs_fold(s, spans_from(s, 0), allow);
    if st.1.len() > 0 {
        st.0.push(st.1)
    } else {
        st.0
    }
}

pub open spec fn join_space(ws: Seq<Seq<char>>) -> Seq<char> {
    crate::text::join_with(ws, seq![' '])
}

pub open spec fn generic_hint() -> Seq<char> {
    "カタカナ語化・和訳・等幅化のいずれかへ"@
}

/// `word→カタカナ` for the words of a run the table knows.
pub open spec fn hints_of(run: Seq<Seq<char>>) -> Seq<Seq<char>>
    decreases run.len(),
{
    if run.len() == 0 {
        Seq::empty()
    } else {
        hints_of(run.drop_last()) + match katakana_of(run.last()) {
            Some(k) => seq![run.last() + "→"@ + k],
            None => Seq::empty(),
        }
    }
}

pub open spec fn suggestion(run: Seq<Seq<char>>) -> Seq<char> {
    if run.len() == 1 {
        match katakana_of(run[0]) {
            Some(k) => k + " へ"@,
            None => generic_hint(),
        }
    } else {
        let hs = hints_of(run);
        if hs.len() == 0 {
            generic_hint()
        } else {
            crate::text::join_with(hs, "・"@) + " 等へ（カタカナ語化・和訳・等幅化のいずれか）"@
        }
    }
}

pub open spec fn run_msg(run: Seq<Seq<char>>) -> Seq<char> {
    "「"@ + join_space(run) + "」 is a bare english "@ + (if run.len() == 1 {
        "word"@
    } else {
        "phrase"@
    }) + " embedded in japanese prose — "@ + suggestion(run)
}

pub open spec fn runs_finds(line: int, runs: Seq<Seq<Seq<char>>>) -> Seq<FindV>
    decreases runs.len(),
{
    if runs.len() == 0 {
        Seq::empty()
    } else {
        runs_finds(line, runs.drop_last()) + seq![(line, "latin-token"@, run_msg(runs.last()))]
    }
}

pub open spec fn lines_finds(ls: Seq<Seq<char>>, allow: Seq<Seq<char>>, k: int) -> Seq<FindV>
    decreases k,
{
    if k <= 0 || k > ls.len() {
        Seq::empty()
    } else {
        lines_finds(ls, allow, k - 1) + runs_finds(k, latin_runs_of(ls[k - 1], allow))
    }
}

/// Every run of bare English words in the prose of a document; nothing under
/// the Internal register.
pub open spec fn spec_scan(text: Seq<char>, register: Register, allow: Seq<Seq<char>>) -> Seq<FindV> {
    if register == Register::Internal {
        Seq::empty()
    } else {
        let ls = lines_of(spec_clean_lines(text));
        lines_finds(ls, allow, ls.len() as int)
    }
}

pub open spec fn runs_view(v: Seq<Vec<Vec<char>>>) -> Seq<Seq<Seq<char>>> {
    Seq::new(v.len(), |i: int| seqs_of(v[i]@))
}

fn in_allow(allow: &Vec<Vec<char>>, w: &Vec<char>) -> (r: bool)
    ensures
        r == seqs_of(allow@).contains(w@),
{
    crate::text::contains_word(allow, w)
}

fn gap_blank_exec(s: &Vec<char>, q: usize, p: usize) -> (r: bool)
    requires
        q <= p <= s.len(),
    ensures
        r == gap_blank(s@, q as int, p as int),
{
    let mut k = q;
    while k < p
        invariant
            q <= k <= p,
            p <= s.len(),
            forall|j: int| q <= j < k ==> (#[trigger] s@[j] == ' ' || s@[j] == '\u{3000}'),
        decreases p - k,
    {
        if !(s[k] == ' ' || s[k] == '\u{3000}') {
            return false;
        }
        k = k + 1;
    }
    true
}

fn excluded_exec(s: &Vec<char>, p: usize, e: usize, allow: &Vec<Vec<char>>) -> (r: bool)
    requires
        p <= e <= s.len(),
    ensures
        r == span_excluded(s@, p as int, e as int, seqs_of(allow@)),
{
    let core = slice_of(s, p, e);
    let surr = surrounding_chars(s, p, e);
    if url_chars(&surr) {
        return true;
    }
    if 2 <= core.len() && core.len() <= 6 && all_upper_exec(&core) {
        return true;
    }
    if identifier_like_chars(&surr) {
        return true;
    }
    if !(core.len() >= 2 && all_lower_exec(&core)) {
        return true;
    }
    let low = lower_vec(&core);
    in_allow(allow, &low)
}

fn latin_runs_exec(s: &Vec<char>, allow: &Vec<Vec<char>>) -> (r: Vec<Vec<Vec<char>>>)
    ensures
        runs_view(r@) == latin_runs_of(s@, seqs_of(allow@)),
{
    let ghost al = seqs_of(allow@);
    let ghost sp_all = spans_from(s@, 0);
    let ghost mut done: Seq<(int, int)> = Seq::empty();
    let mut runs: Vec<Vec<Vec<char>>> = Vec::new();
    let mut cur: Vec<Vec<char>> = Vec::new();
    let mut prev: Option<usize> = None;
    let mut i: usize = 0;
    assert(runs_view(runs@) =~= Seq::<Seq<Seq<char>>>::empty());
    assert(seqs_of(cur@) =~= Seq::<Seq<char>>::empty());
    while i < s.len()
        invariant
            i <= s.len(),
            al == seqs_of(allow@),
            sp_all == spans_from(s@, 0),
            sp_all == done + spans_from(s@, i as int),
            forall|k: int| 0 <= k < done.len() ==> 0 <= (#[trigger] done[k]).0 < done[k].1 <= i,
            match prev {
                Some(q) => q <= i,
                None => true,
            },
            (runs_view(runs@), seqs_of(cur@), match prev {
                Some(q) => Some(q as int),
                None => None,
            }) == runs_fold(s@, done, al),
        decreases s.len() - i,
    {
        if ('a' <= s[i] && s[i] <= 'z') || ('A' <= s[i] && s[i] <= 'Z') {
            let mut e = i + 1;
            while e < s.len() && (('a' <= s[e] && s[e] <= 'z') || ('A' <= s[e] && s[e] <= 'Z') || s[e] == '-')
                invariant
                    i + 1 <= e <= s.len(),
                    run_span(s@, i + 1) == run_span(s@, e as int),
                decreases s.len() - e,
            {
                e = e + 1;
            }
            proof {
                lemma_run_span(s@, i + 1);
            }
            let contiguous = match prev {
                Some(q) => gap_blank_exec(s, q, i),
                None => false,
            };
            if !contiguous && cur.len() > 0 {
                let ghost r0 = runs_view(runs@);
                let c = cur;
                runs.push(c);
                cur = Vec::new();
                assert(runs_view(runs@) =~= r0.push(seqs_of(c@)));
                assert(seqs_of(cur@) =~= Seq::<Seq<char>>::empty());
            }
            let ex = excluded_exec(s, i, e, allow);
            if ex {
                if cur.len() > 0 {
                    let ghost r0 = runs_view(runs@);
                    let c = cur;
                    runs.push(c);
                    cur = Vec::new();
                    assert(runs_view(runs@) =~= r0.push(seqs_of(c@)));
                }
                assert(seqs_of(cur@) =~= Seq::<Seq<char>>::empty());
            } else {
                let core = slice_of(s, i, e);
                proof {
                    crate::text::lemma_seqs_of_push(cur@, core);
                }
                cur.push(core);
            }
            prev = Some(e);
            proof {
                assert(done.push((i as int, e as int)).drop_last() =~= done);
                assert(done + spans_from(s@, i as int) =~= done.push((i as int, e as int)) + spans_from(s@, e as int));
                done = done.push((i as int, e as int));
            }
            i = e;
        } else {
            i = i + 1;
        }
    }
    assert(done + spans_from(s@, i as int) =~= done);
    if cur.len() > 0 {
        let ghost r0 = runs_view(runs@);
        let c = cur;
        runs.push(c);
        assert(runs_view(runs@) =~= r0.push(seqs_of(c@)));
    }
    runs
}

fn push_join_space(m: &mut String, run: &Vec<Vec<char>>)
    ensures
        final(m)@ == old(m)@ + join_space(seqs_of(run@)),
{
    crate::text::push_joined(m, run, " ");
    assert(" "@ =~= seq![' ']) by {
        reveal_strlit(" ");
    }
}

fn hints_exec(run: &Vec<Vec<char>>, tbl: &Vec<(Vec<char>, Vec<char>)>) -> (r: Vec<Vec<char>>)
    requires
        pairs_of(tbl@) == katakana_table(),
    ensures
        seqs_of(r@) == hints_of(seqs_of(run@)),
{
    let ghost g = seqs_of(run@);
    let mut out: Vec<Vec<char>> = Vec::new();
    let mut k: usize = 0;
    assert(g.take(0) =~= Seq::<Seq<char>>::empty());
    while k < run.len()
        invariant
            k <= run.len(),
            g == seqs_of(run@),
            pairs_of(tbl@) == katakana_table(),
            seqs_of(out@) == hints_of(g.take(k as int)),
        decreases run.len() - k,
    {
        proof {
            assert(g.take(k + 1).drop_last() =~= g.take(k as int));
            assert(g.take(k + 1).last() == run@[k as int]@);
        }
        match katakana_lookup(tbl, &run[k]) {
            Some(kana) => {
                let mut h = slice_of(&run[k], 0, run[k].len());
                assert(h@ =~= run@[k as int]@);
                h.push('→');
                crate::text::push_all(&mut h, &kana);
                assert(h@ =~= run@[k as int]@ + "→"@ + kana@) by {
                    reveal_strlit("→");
                }
                let ghost o0 = seqs_of(out@);
                proof {
                    crate::text::lemma_seqs_of_push(out@, h);
                }
                out.push(h);
                assert(seqs_of(out@) =~= o0 + seq![run@[k as int]@ + "→"@ + kana@]);
            },
            None => {
                assert(seqs_of(out@) =~= seqs_of(out@) + Seq::<Seq<char>>::empty());
            },
        }
        k = k + 1;
    }
    assert(g.take(run.len() as int) =~= g);
    out
}

fn push_suggestion(m: &mut String, run: &Vec<Vec<char>>, tbl: &Vec<(Vec<char>, Vec<char>)>)
    requires
        pairs_of(tbl@) == katakana_table(),
    ensures
        final(m)@ == old(m)@ + suggestion(seqs_of(run@)),
{
    if run.len() == 1 {
        match katakana_lookup(tbl, &run[0]) {
            Some(k) => {
                push_vec_str(m, &k);
                m.append(" へ");
            },
            None => {
                m.append("カタカナ語化・和訳・等幅化のいずれかへ");
            },
        }
    } else {
        let hs = hints_exec(run, tbl);
        if hs.len() == 0 {
            m.append("カタカナ語化・和訳・等幅化のいずれかへ");
        } else {
            crate::text::push_joined(m, &hs, "・");
            m.append(" 等へ（カタカナ語化・和訳・等幅化のいずれか）");
        }
    }
}

/// Every run of bare English words in the prose (outside code, tables,
/// headings and URLs) of a document; nothing under the Internal register.
/// `allow` holds lowercased words that are never flagged.
pub fn scan(text: &str, register: Register, allow: &Vec<String>) -> (r: Vec<Finding>)
    ensures
        finds_view(r@) == spec_scan(text@, register, strings_view(allow@)),
{
    if register == Register::Internal {
        let r: Vec<Finding> = Vec::new();
        assert(finds_view(r@) =~= Seq::<FindV>::empty());
        return r;
    }
    let mut al: Vec<Vec<char>> = Vec::new();
    let mut j: usize = 0;
    while j < allow.len()
        invariant
            j <= allow.len(),
            seqs_of(al@) == strings_view(allow@).take(j as int),
        decreases allow.len() - j,
    {
        let w = chars_of(allow[j].as_str());
        proof {
            crate::text::lemma_seqs_of_push(al@, w);
        }
        al.push(w);
        j = j + 1;
        assert(seqs_of(al@) =~= strings_view(allow@).take(j as int));
    }
    assert(strings_view(allow@).take(allow.len() as int) =~= strings_view(allow@));
    let tbl = katakana_table_vec();
    let s = chars_of(text);
    let c = clean_lines_chars(&s);
    let ls = split_lines(&c);
    let ghost g = seqs_of(ls@);
    let mut out: Vec<Finding> = Vec::new();
    let mut i: usize = 0;
    assert(finds_view(out@) =~= Seq::<FindV>::empty());
    while i < ls.len()
        invariant
            i <= ls.len(),
            g == seqs_of(ls@),
            g == lines_of(spec_clean_lines(text@)),
            seqs_of(al@) == strings_view(allow@),
            pairs_of(tbl@) == katakana_table(),
            register != Register::Internal,
            finds_view(out@) == lines_finds(g, seqs_of(al@), i as int),
        decreases ls.len() - i,
    {
        let runs = latin_runs_exec(&ls[i], &al);
        let ghost rv = runs_view(runs@);
        let ghost o0 = finds_view(out@);
        let mut k: usize = 0;
        assert(rv.take(0) =~= Seq::<Seq<Seq<char>>>::empty());
        while k < runs.len()
            invariant
                k <= runs.len(),
                i < ls.len(),
                rv == runs_view(runs@),
                pairs_of(tbl@) == katakana_table(),
                finds_view(out@) == o0 + runs_finds(i + 1, rv.take(k as int)),
            decreases runs.len() - k,
        {
            proof {
                assert(rv.take(k + 1).drop_last() =~= rv.take(k as int));
                assert(rv.take(k + 1).last() == seqs_of(runs@[k as int]@));
            }
            let run = &runs[k];
            let mut m = String::new();
            m.append("「");
            push_join_space(&mut m, run);
            m.append("」 is a bare english ");
            if run.len() == 1 {
                m.append("word");
            } else {
                m.append("phrase");
            }
            m.append(" embedded in japanese prose — ");
            push_suggestion(&mut m, run, &tbl);
            let ghost p0 = finds_view(out@);
            out.push(Finding { line: i + 1, rule: "latin-token", msg: m });
            assert(finds_view(out@) =~= p0 + seq![(i + 1, "latin-token"@, run_msg(seqs_of(run@)))]);
            k = k + 1;
        }
        assert(rv.take(runs.len() as int) =~= rv);
        i = i + 1;
    }
    out
}

/// The severity of a bare English word: an error for a consuming reader, advisory otherwise.
pub fn severity_for(register: Register) -> (r: &'static str)
    ensures
        r@ == (if register == Register::Consume {
            "error"@
        } else {
            "advisory"@
        }),
{
    match register {
        Register::Consume => "error",
        Register::Practice => "advisory",
        Register::Internal => "advisory",
    }
}


/// Under the internal register no latin-token finding is ever reported.
pub proof fn lemma_internal_register_never_fires(text: Seq<char>, allow: Seq<Seq<char>>)
    ensures
        spec_scan(text, Register::Internal, allow) == Seq::<FindV>::empty(),
{
}

} // verus!
