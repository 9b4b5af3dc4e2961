use correo::report::Severity;
use correo::structure::scan;

#[test]
fn flags_bullet_template_run_of_three() {
    let bad = "- **革新性**: 高い。\n- **効率性**: 速い。\n- **拡張性**: 広い。";
    let hits: Vec<_> = scan(bad).into_iter().filter(|x| x.rule == "bullet-template").collect();
    assert_eq!(hits.len(), 1);
    assert!(matches!(hits[0].severity, Severity::Advisory));
    let ok = "- **革新性**: 高い。\n- **効率性**: 速い。";
    assert!(scan(ok).iter().all(|x| x.rule != "bullet-template"));
}

#[test]
fn flags_predicate_colon_before_block_but_allows_noun_colon() {
    let bad = "次の手順で設定を変更します:\n\n- 項目を開く。";
    assert!(scan(bad).iter().any(|x| x.rule == "colon-continuation"));
    let ok = "使用方法:\n\n- 項目を開く。";
    assert!(scan(ok).iter().all(|x| x.rule != "colon-continuation"));
}

#[test]
fn structure_connector_pileup_is_advisory_and_needs_three() {
    let bad = "また、測定を行った。さらに、解析を行った。そして、結論を得た。";
    let c: Vec<_> = scan(bad).into_iter().filter(|x| x.rule == "connector-pileup").collect();
    assert_eq!(c.len(), 1);
    assert!(matches!(c[0].severity, Severity::Advisory));
    let ok = "また、測定を行った。さらに、解析を行った。";
    assert!(scan(ok).iter().all(|x| x.rule != "connector-pileup"));
}

#[test]
fn flags_same_opener_three_sentences() {
    let bad = "本製品は、速い。本製品は、安い。本製品は、強い。";
    assert!(scan(bad).iter().any(|x| x.rule == "opener-repetition"));
    let ok = "本製品は、速い。本製品は、安い。";
    assert!(scan(ok).iter().all(|x| x.rule != "opener-repetition"));
}

#[test]
fn bullet_template_message_counts_the_run() {
    let bad = "- **革新性**: 高い。\n- **効率性**: 速い。\n- **拡張性**: 広い。\n- **保守性**: 易しい。";
    let hits: Vec<_> = scan(bad).into_iter().filter(|x| x.rule == "bullet-template").collect();
    assert_eq!(hits.len(), 1);
    assert_eq!(hits[0].line, 1);
    assert_eq!(hits[0].msg, "太字見出し＋コロンの箇条書きが 4 連続 — LLM の定型 layout。散文か表を検討");
}

#[test]
fn every_structure_finding_is_advisory() {
    let doc = "- **革新性**: 高い。\n- **効率性**: 速い。\n- **拡張性**: 広い。\n\n本製品は、速い。本製品は、安い。本製品は、強い。\n\n次の手順で設定を変更します:\n\n- 項目を開く。";
    let hits = scan(doc);
    assert!(hits.len() >= 3);
    assert!(hits.iter().all(|x| matches!(x.severity, Severity::Advisory)));
    for w in hits.windows(2) {
        assert!(w[0].line <= w[1].line);
    }
}
