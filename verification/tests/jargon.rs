use correo::jargon::{monospace_context_texts, parse_terms, scan, scan_consume};
use correo::prose::{clean_lines, strip_html};

fn terms() -> Vec<String> {
    vec!["campaign".into(), "menu".into(), "criterion".into()]
}

#[test]
fn flags_undefined_jargon_export() {
    let text = "campaign を設計する。menu を選ぶ。criterion で評価する。";
    let hits = scan(text, text, &terms());
    let rules: Vec<&str> = hits.iter().map(|f| f.rule).collect();
    assert_eq!(rules, vec!["jargon-export"; 3]);
}

#[test]
fn passes_when_parenthetical_gloss_follows_at_first_use() {
    let text = "campaign（測定の実施計画）を設計する。";
    assert!(scan(text, text, &terms()).is_empty());
}

#[test]
fn passes_when_parenthetical_gloss_precedes_in_reverse_order() {
    let text = "（測定の実施計画）campaign を設計する。";
    assert!(scan(text, text, &terms()).is_empty());
}

#[test]
fn passes_when_half_width_parens_used() {
    let text = "campaign(測定の実施計画)を設計する。";
    assert!(scan(text, text, &terms()).is_empty());
}

#[test]
fn passes_when_towa_definition_sentence_present() {
    let text = "campaign とは測定の実施計画である。";
    assert!(scan(text, text, &terms()).is_empty());
}

#[test]
fn does_not_pass_on_non_japanese_parenthetical() {
    let text = "campaign(E) を設計する。";
    let hits = scan(text, text, &terms());
    assert!(hits.iter().any(|f| f.msg.contains("campaign")));
}

#[test]
fn passes_via_markdown_glossary_table_first_column() {
    let text = "| 語 | 定義 |\n|---|---|\n| campaign | 測定の実施計画 |\n\n本文で campaign を使う。";
    assert!(scan(text, text, &terms()).is_empty());
}

#[test]
fn passes_via_html_table_first_column() {
    let html = "<table><thead><tr><th>語</th><th>定義</th></tr></thead><tbody><tr><td class=\"mono\">campaign(測定計画)</td><td>実施計画である。</td></tr></tbody></table><p>本文で campaign を使う。</p>";
    assert!(scan(html, html, &terms()).is_empty());
}

#[test]
fn passes_via_html_dl_glossary() {
    let html = "<dl><dt>menu</dt><dd>測定設定の一覧</dd></dl><p>本文で menu を使う。</p>";
    assert!(scan(html, html, &terms()).is_empty());
}

#[test]
fn only_first_occurrence_is_checked_per_term() {
    let text = "campaign（測定の実施計画）を設計する。次に campaign を評価する。";
    assert!(scan(text, text, &terms()).is_empty());
}

#[test]
fn word_boundary_does_not_false_positive_on_substring() {
    let text = "この設計は menu-unrestricted である。";
    let hits = scan(text, text, &vec!["menu".to_string()]);
    assert!(hits.iter().any(|f| f.msg.contains("menu")));
}

#[test]
fn empty_terms_list_never_fires() {
    assert!(scan("campaign menu criterion", "campaign menu criterion", &vec![]).is_empty());
}

#[test]
fn load_terms_extracts_only_the_first_column_head_word() {
    let terms = parse_terms(
        "| term | home | gloss |\n|---|---|---|\n| `criterion alphabet A/c/L` | `src/bounds.jl` | some english gloss text |\n",
    );
    assert!(terms.contains(&"criterion".to_string()));
    assert!(!terms.iter().any(|t| t == "alphabet"));
    assert!(!terms.iter().any(|t| t == "bounds" || t == "src"));
    assert!(!terms.iter().any(|t| t == "some" || t == "english"));
}

#[test]
fn load_terms_does_not_leak_embedded_standard_terms_from_explanatory_head() {
    let terms = parse_terms(
        "| term | home | gloss |\n|---|---|---|\n\
         | `thm:main (yield equivalence)` | `x` | g |\n\
         | `任意 POVM (arbitrary POVM, menu-unrestricted)` | `x` | g |\n",
    );
    assert!(!terms.iter().any(|t| t == "yield" || t == "equivalence"));
    assert!(!terms.iter().any(|t| t == "POVM" || t == "menu"));
}

#[test]
fn consume_flags_bare_occurrence_with_no_definition() {
    let text = "campaign を設計する。";
    let hits = scan_consume(text, text, &terms());
    assert!(hits.iter().any(|f| f.msg.contains("campaign")), "定義の無い出現は consume でも違反のはず");
}

#[test]
fn consume_still_flags_occurrence_even_with_parenthetical_gloss() {
    let text = "campaign（測定の実施計画）を設計する。";
    let hits = scan_consume(text, text, &terms());
    assert!(hits.iter().any(|f| f.msg.contains("campaign")), "consume では近傍定義があっても違反のはず");
}

#[test]
fn consume_still_flags_occurrence_even_with_glossary_table() {
    let text = "| 語 | 定義 |\n|---|---|\n| campaign | 測定の実施計画 |\n\n本文で campaign を使う。";
    let clean = clean_lines(text);
    let hits = scan_consume(text, &clean, &terms());
    assert!(
        hits.iter().any(|f| f.msg.contains("campaign")),
        "consume では用語表があっても地の文出現は違反のはず"
    );
}

#[test]
fn consume_passes_when_term_never_appears() {
    let text = "この文書には対象語が一つも無い。";
    assert!(scan_consume(text, text, &terms()).is_empty());
}

#[test]
fn consume_message_prescribes_rewording_not_defining() {
    let text = "campaign を設計する。";
    let hits = scan_consume(text, text, &terms());
    let h = hits.first().expect("finding が無い");
    assert!(
        h.msg.contains("reader's words") || h.msg.contains("reader's vocabulary"),
        "処方が読者の言葉での言い換えを指示していない: {}",
        h.msg
    );
}

#[test]
fn consume_ignores_occurrence_inside_monospace_identifier_context() {
    let html = r#"<table><tr><td class="mono">campaign_id</td><td>説明</td></tr></table>"#;
    let clean = strip_html(html);
    let hits = scan_consume(html, &clean, &vec!["campaign_id".to_string()]);
    assert!(
        hits.is_empty(),
        "等幅識別子文脈のみの出現が violation になった: {:?}",
        hits.iter().map(|f| &f.msg).collect::<Vec<_>>()
    );
}

#[test]
fn consume_still_flags_same_term_when_it_also_appears_in_prose_outside_mono_cell() {
    let html = r#"<tr><td class="mono">campaign_h2_4arm</td><td>campaign を並置した</td></tr>"#;
    let clean = strip_html(html);
    let hits = scan_consume(html, &clean, &vec!["campaign".to_string()]);
    assert!(hits.iter().any(|f| f.msg.contains("campaign")), "mono セル外の地の文出現が見逃された");
}

#[test]
fn consume_ignores_occurrence_inside_code_and_pre_like_other_detectors() {
    let html = "<p>campaign を設計する。</p>\n<pre>campaign campaign campaign</pre>\n<p>ここには無い。</p>";
    let clean = strip_html(html);
    let hits = scan_consume(html, &clean, &vec!["campaign".to_string()]);
    assert_eq!(hits.iter().find(|f| f.msg.contains("campaign")).map(|f| f.line), Some(1));
}

#[test]
fn consume_ignores_occurrence_inside_markdown_inline_code() {
    let text = "`campaign` は識別子の言及。\n地の文では campaign を設計する。";
    let clean = clean_lines(text);
    let hits = scan_consume(text, &clean, &vec!["campaign".to_string()]);
    assert_eq!(
        hits.iter().find(|f| f.msg.contains("campaign")).map(|f| f.line),
        Some(2),
        "inline code 外（2 行目）の地の文出現から拾うはず: {:?}",
        hits.iter().map(|f| (f.line, &f.msg)).collect::<Vec<_>>()
    );
}

#[test]
fn consume_markdown_without_html_never_matches_monospace_regex() {
    assert!(monospace_context_texts("# 見出し\n\ncampaign を設計する。").is_empty());
}

#[test]
fn monospace_contexts_are_read_from_class_attributes() {
    let html = r#"<td class="mono">campaign_id</td><td>説明</td>"#;
    assert_eq!(monospace_context_texts(html), vec!["campaign_id".to_string()]);
}

#[test]
fn consume_reports_every_term_that_occurs_where_practice_reports_only_undefined_ones() {
    let text = "campaign（測定の実施計画）を設計する。menu を選ぶ。";
    let practice = scan(text, text, &terms());
    let consume = scan_consume(text, text, &terms());
    assert_eq!(practice.len(), 1);
    assert_eq!(consume.len(), 2);
}
