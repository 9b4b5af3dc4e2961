use correo::kinoshita::{fix, scan, Severity};

fn ja(n: usize) -> String {
    "あ".repeat(n)
}

#[test]
fn flags_long_sentence_with_line_number() {
    let text = format!("短い文である。\n{}。", ja(120));
    let v = scan(&text, 100, 4);
    assert_eq!(v.len(), 1);
    assert_eq!(v[0].rule, "sentence-length");
    assert_eq!(v[0].line, 2);
}

#[test]
fn flags_too_many_ten() {
    let text = "また、まず、次に、さらに、加えて、最後に述べる。";
    let v = scan(text, 100, 4);
    assert_eq!(v.len(), 1);
    assert_eq!(v[0].rule, "max-ten");
}

#[test]
fn flags_idiomatic_double_negative_not_obligation() {
    let bad = "その効果がないことはない。";
    assert_eq!(scan(bad, 100, 4)[0].rule, "double-negative");
    let ok = "測定は毎回較正しなければならない。";
    assert!(scan(ok, 100, 4).is_empty());
}

#[test]
fn flags_hedge_pileup_but_allows_single_hedge() {
    let bad = "この方式は有効かもしれないと思われる。";
    let v = scan(bad, 100, 4);
    assert!(v.iter().any(|x| x.rule == "hedge-pileup"));
    let ok = "この方式は有効かもしれない。";
    assert!(scan(ok, 100, 4).iter().all(|x| x.rule != "hedge-pileup"));
}

#[test]
fn flags_demonstrative_chain_of_three() {
    let bad = "これがそれを含み、その結果を決める。";
    assert!(scan(bad, 100, 4).iter().any(|x| x.rule == "demonstrative-chain"));
    let ok = "この方式は測定結果を決める。";
    assert!(scan(ok, 100, 4).iter().all(|x| x.rule != "demonstrative-chain"));
}

#[test]
fn flags_style_mixing_pointing_at_minority() {
    let text = "本手法は誤差を半減する。\n測定は三回行った。\n結果は表に示します。";
    let v = scan(text, 100, 4);
    let mix: Vec<_> = v.iter().filter(|x| x.rule == "style-mixing").collect();
    assert_eq!(mix.len(), 1, "少数派 1 文だけを指すべき: {:?}", mix.len());
    assert_eq!(mix[0].line, 3);
    let uni = "本手法は誤差を半減する。\n測定は三回行った。";
    assert!(scan(uni, 100, 4).is_empty());
}

#[test]
fn flags_no_chain_but_not_demonstratives() {
    let bad = "本手法の評価の結果の妥当性を検証する。";
    assert!(scan(bad, 100, 4).iter().any(|x| x.rule == "no-chain"));
    let ok = "この本の著者の意見を述べる。";
    assert!(scan(ok, 100, 4).iter().all(|x| x.rule != "no-chain"));
    let title = "木下是雄『理科系の作文技術』の原則の一部を検査する。";
    assert!(scan(title, 100, 4).iter().all(|x| x.rule != "no-chain"));
}

#[test]
fn flags_verbose_potential() {
    let bad = "同じ結果を再現することができます。";
    assert!(scan(bad, 100, 4).iter().any(|x| x.rule == "verbose-potential"));
    let ok = "同じ結果を再現できます。";
    assert!(scan(ok, 100, 4).iter().all(|x| x.rule != "verbose-potential"));
}

#[test]
fn kinoshita_connector_pileup_is_advisory_and_needs_three() {
    let bad = "また、測定を行った。さらに、解析を行った。そして、結論を得た。";
    let v = scan(bad, 100, 4);
    let c: Vec<_> = v.iter().filter(|x| x.rule == "connector-pileup").collect();
    assert_eq!(c.len(), 1);
    assert!(matches!(c[0].severity, Severity::Advisory));
    let ok = "また、測定を行った。さらに、解析を行った。";
    assert!(scan(ok, 100, 4).iter().all(|x| x.rule != "connector-pileup"));
}

#[test]
fn fix_rewrites_verbose_potential_but_not_mentions() {
    let (out, n) = fix("同じ結果を再現することができます。");
    assert_eq!(out, "同じ結果を再現できます。");
    assert_eq!(n, 1);
    let (out, n) = fix("規則の説明（`することができ`→`でき`）は言及。");
    assert_eq!(n, 0, "inline code 内を書き換えた");
    assert!(out.contains("`することができ`"));
    let (out, n) = fix("```\nすることができます\n```\n本文ですることができます。\n");
    assert_eq!(n, 1, "fence 内を数えた/本文を見逃した");
    assert!(out.contains("```\nすることができます\n```"));
    assert!(out.contains("本文でできます。"));
}

#[test]
fn skips_fence_table_heading_and_keeps_lines() {
    let text = format!("# {}。\n\n```\n{}。\n```\n\n| {}。 |\n\n{}。", ja(120), ja(120), ja(120), ja(120));
    let v = scan(&text, 100, 4);
    assert_eq!(v.len(), 1, "構造行/fence が検査対象になった");
    assert_eq!(v[0].line, 9, "fence 除去で行番号がずれた");
}

#[test]
fn joins_sentence_across_hard_wrapped_lines() {
    let text = format!("{}\n{}。", ja(60), ja(60));
    let v = scan(&text, 100, 4);
    assert_eq!(v.len(), 1);
    assert_eq!(v[0].rule, "sentence-length");
    assert_eq!(v[0].line, 1);
}

#[test]
fn sentence_length_limit_is_inclusive() {
    let at = format!("{}。", ja(99));
    assert!(scan(&at, 100, 4).is_empty());
    let over = format!("{}。", ja(100));
    let v = scan(&over, 100, 4);
    assert_eq!(v.len(), 1);
    assert_eq!(v[0].msg, "一文 101 字 (> 100) — 文を切る（一文一義）");
}

#[test]
fn fix_is_idempotent() {
    let (once, _) = fix("同じ結果を再現することができます。");
    let (twice, n) = fix(&once);
    assert_eq!(once, twice);
    assert_eq!(n, 0);
}

#[test]
fn fix_with_nothing_to_rewrite_returns_text_unchanged() {
    let doc = "# 見出し\n\n本文は短い。`コード` もある。\n\n```\nすることができ\n```\n末尾。\n";
    let (out, n) = fix(doc);
    assert_eq!(n, 0);
    assert_eq!(out, doc);
    let (out, n) = fix("改行で終わらない文");
    assert_eq!(n, 0);
    assert_eq!(out, "改行で終わらない文");
}

#[test]
fn kanji_run_of_seven_or_more_is_advisory() {
    let v = scan("本手法は測定系較正誤差分離法を使う。", 100, 4);
    assert_eq!(v.len(), 1);
    assert_eq!(v[0].rule, "kanji-run");
    assert!(v[0].severity == Severity::Advisory);
    assert_eq!(v[0].msg, "漢字 7 字以上の連続 — 仮名を挟むか言い換える");
    assert!(scan("測定系の較正誤差を分離する。", 100, 4).iter().all(|x| x.rule != "kanji-run"));
    // six in a row is still fine
    assert!(scan("これは較正誤差分離だ。", 100, 4).iter().all(|x| x.rule != "kanji-run"));
}

#[test]
fn exclamation_mark_is_advisory() {
    let v = scan("驚くべき結果だ！", 100, 4);
    assert_eq!(v.len(), 1);
    assert_eq!(v[0].rule, "exclamation");
    assert!(v[0].severity == Severity::Advisory);
    let w = scan("Great result!と書いた。", 100, 4);
    assert!(w.iter().any(|x| x.rule == "exclamation"));
    assert!(scan("結果は良好だった。", 100, 4).is_empty());
}
