use correo::report::Severity;
use correo::rhetoric::{parse_lexicon, scan};

fn plain(n: usize) -> String {
    (0..n).map(|i| format!("測定装置の較正を第{i}回目として実施した。")).collect::<Vec<_>>().join("\n")
}

fn lex() -> Vec<(String, String)> {
    [("発射台", "write 足がかり"), ("避難所", "write 退避先"), ("旅路", "write 過程")]
        .map(|(s, h)| (s.to_string(), h.to_string()))
        .to_vec()
}

#[test]
fn composite_fires_only_when_two_indicators_exceed() {
    let ex: Vec<String> = Vec::new();
    let mut doc = plain(32);
    for i in 0..8 {
        doc.push_str(&format!("\nこれは手段ではなく——目的そのものが第{i}の争点である。"));
    }
    let hits = scan(&doc, &ex, &vec![]);
    assert_eq!(hits.iter().filter(|x| x.rule == "stylometric-uniformity").count(), 1);
    let mut faq = plain(32);
    for i in 0..8 {
        faq.push_str(&format!("\n第{i}項は同期ではなく非同期で動作する。"));
    }
    assert!(scan(&faq, &ex, &vec![]).is_empty(), "単独指標で composite が発火した");
}

#[test]
fn metaphor_density_lists_vocab_and_respects_allow() {
    let ex: Vec<String> = Vec::new();
    let mut doc = plain(30);
    doc.push_str("\n本基盤は開発の発射台である。発射台は知識の避難所である。");
    let hits = scan(&doc, &ex, &lex());
    let m: Vec<_> = hits.iter().filter(|x| x.rule == "metaphor-density").collect();
    assert_eq!(m.len(), 1);
    assert!(m[0].msg.contains("発射台×2"), "{}", m[0].msg);
    assert!(m[0].msg.contains("top fix: 発射台 → write 足がかり"), "{}", m[0].msg);
    let allowed: Vec<String> = vec!["発射台".to_string()];
    assert!(scan(&doc, &allowed, &lex()).iter().all(|x| x.rule != "metaphor-density"));
    assert!(scan(&doc, &ex, &vec![]).is_empty(), "空語彙表で発火した");
}

#[test]
fn short_documents_and_quotes_do_not_fire() {
    let ex: Vec<String> = Vec::new();
    let short = "手段ではなく——目的の発射台であり避難所への旅路を紡ぐ。".repeat(10);
    assert!(scan(&short, &ex, &lex()).is_empty());
    let mut doc = plain(30);
    doc.push_str("\n「発射台」「避難所」「旅路」という常套句を本稿は分析する。");
    assert!(scan(&doc, &ex, &lex()).iter().all(|x| x.rule != "metaphor-density"));
}

#[test]
fn metaphor_message_reports_exact_counts_and_rate() {
    let ex: Vec<String> = Vec::new();
    let mut doc = plain(30);
    doc.push_str("\n本基盤は開発の発射台である。発射台は知識の避難所である。");
    let hits = scan(&doc, &ex, &lex());
    assert_eq!(hits.len(), 1);
    assert_eq!(hits[0].line, 31);
    assert!(matches!(hits[0].severity, Severity::Advisory));
    assert_eq!(
        hits[0].msg,
        "decorative metaphors ×3 (9.4/100 sentences): 発射台×2・避難所×1 — replace with plain terms, or add to allow if a deliberate central metaphor (judge decides); top fix: 発射台 → write 足がかり"
    );
}

#[test]
fn lexicon_lines_are_stem_and_hint() {
    let l = parse_lexicon("# 裁定の記録\n発射台\twrite 足がかり\n\n旅路\n");
    assert_eq!(l, vec![("発射台".to_string(), "write 足がかり".to_string()), ("旅路".to_string(), String::new())]);
}

#[test]
fn composite_rates_are_shown_as_f64_formats_them() {
    // 201 contrasts in 2000 sentences: 20100.0 / 2000.0 is the double just above 10.05.
    let ex: Vec<String> = Vec::new();
    let mut doc = plain(1699);
    for i in 0..201 {
        doc.push_str(&format!("\n第{i}項は同期ではなく非同期で動作する。"));
    }
    for i in 0..100 {
        doc.push_str(&format!("\n測定——第{i}回目の記録である。"));
    }
    let hits = scan(&doc, &ex, &vec![]);
    let c: Vec<_> = hits.iter().filter(|x| x.rule == "stylometric-uniformity").collect();
    assert_eq!(c.len(), 1);
    assert!(
        c[0].msg.contains("「ではなく」 in 201 sentences (10.1/100, calibrated cap 4), —— ×100 (5.0/100)"),
        "{}",
        c[0].msg
    );
}
