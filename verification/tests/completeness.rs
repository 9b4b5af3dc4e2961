use correo::completeness::scan;

#[test]
fn flags_unterminated_paragraph() {
    let bad = "これは十分に長い名詞句の断片であり句点がない";
    let hits = scan(bad);
    assert_eq!(hits.len(), 1);
    assert_eq!(hits[0].rule, "unterminated-prose");
    let ok = "これは十分に長い名詞句の断片であり句点がある。";
    assert!(scan(ok).is_empty());
}

#[test]
fn allows_question_and_exclamation_and_closing_quotes() {
    assert!(scan("これは疑問文として終端しているだろうか？").is_empty());
    assert!(scan("これは感嘆文として終端している例だ！").is_empty());
    assert!(scan("これは引用として終端している例だ」").is_empty());
    assert!(scan("これは括弧を閉じて終端している例だ）").is_empty());
}

#[test]
fn allows_ledger_style_noun_phrase_bullets_as_advisory_only_no_hard_gate() {
    let bullets = "- Tier 1（HARD）— 実装済み\n- Tier 2（MIX・proxy）— 順次\n- Tier 3（VIBE・座標のみ）— 未着手";
    let hits = scan(bullets);
    assert!(hits.iter().all(|f| f.rule == "unterminated-prose"));
}

#[test]
fn skips_headings_tables_and_short_fragments() {
    let text = "# 見出しは長い文字列だが検査対象外\n\n| セル | セル |\n\n短い";
    let hits = scan(text);
    assert!(hits.iter().all(|f| f.rule != "unterminated-prose" || f.line > 2));
    assert!(scan("短い断片").is_empty());
}

#[test]
fn html_derived_fragment_regression() {
    let frag = "全 gate 通過・結合 151 assertion";
    let hits = scan(frag);
    assert_eq!(hits.len(), 1, "終端記号のない断片を拾うべき");
}

#[test]
fn hard_wrapped_paragraph_is_checked_as_one_unit_not_per_line() {
    let wrapped = "`check` の指摘は一行形式。exit 1 に数えるのは error\n（readability の HARD 違反と deny）。codemix・coinage・calque\nは advisory として数える。";
    let hits = scan(wrapped);
    assert!(
        hits.is_empty(),
        "折返し段落の途中行を未終端と誤検出した: {:?}",
        hits.iter().map(|f| f.line).collect::<Vec<_>>()
    );
    let truly_unterminated = "これは本当に長い名詞句の断片であり\n複数行に渡っても句点がない";
    assert_eq!(scan(truly_unterminated).len(), 1);
}

#[test]
fn bullet_block_items_are_still_checked_per_line() {
    let bullets = "- 十分に長い断片で句点がある項目である。\n- 十分に長い断片で句点がない項目である";
    let hits = scan(bullets);
    assert_eq!(hits.len(), 1, "未終端の bullet 項目だけを拾うべき");
}

#[test]
fn unterminated_finding_points_at_the_unit_line() {
    let text = "はじめの段落は句点で閉じている。\n\n二つめの段落は十分に長いが句点がない";
    let hits = scan(text);
    assert_eq!(hits.len(), 1);
    assert_eq!(hits[0].line, 3);
}
