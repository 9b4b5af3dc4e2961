use correo::counter::scan;

#[test]
fn flags_number_latin_directly_followed_by_particle_wo() {
    let text = "43 cell を「稼ぐ」と数える。";
    let hits: Vec<_> = scan(text).into_iter().filter(|f| f.rule == "missing-counter").collect();
    assert_eq!(hits.len(), 1);
    assert!(hits[0].msg.contains("43"));
    assert!(hits[0].msg.contains("cell"));
}

#[test]
fn flags_number_latin_directly_followed_by_particle_ni() {
    let text = "10 track に注目する。";
    assert!(scan(text).iter().any(|f| f.rule == "missing-counter"));
}

#[test]
fn flags_number_latin_directly_followed_by_particle_no() {
    let text = "同等 8 cell の代表を示す。";
    assert!(scan(text).iter().any(|f| f.rule == "missing-counter"));
}

#[test]
fn does_not_flag_when_followed_by_dash_or_paren() {
    let text = "13 cell ── PASS 12 / ADAPTIVE_RECOVERS 1\n43 cell（7 家族群別）を数える。";
    let hits = scan(text);
    assert!(
        hits.iter().all(|f| !f.msg.contains("13 cell")),
        "ダッシュ続きを誤検出した: {:?}",
        hits.iter().map(|f| &f.msg).collect::<Vec<_>>()
    );
}

#[test]
fn does_not_flag_unit_words() {
    let text = "処理は 10 ms が上限で、密度は 8 bits を下回る。50 s に収束する。";
    assert!(
        scan(text).is_empty(),
        "単位語を助数詞欠落として誤検出した: {:?}",
        scan(text).iter().map(|f| &f.msg).collect::<Vec<_>>()
    );
}

#[test]
fn does_not_flag_date_like_hyphenated_numbers() {
    let text = "2026-07-09 dogfood で実測した。";
    assert!(
        scan(text).is_empty(),
        "日付の構成要素を誤検出した: {:?}",
        scan(text).iter().map(|f| &f.msg).collect::<Vec<_>>()
    );
}

#[test]
fn does_not_flag_code_or_id_fragments() {
    let text = "詳細は `E2607_082` を参照。8 test_helper が失敗した。";
    let hits = scan(text);
    assert!(hits.iter().all(|f| !f.msg.contains("E2607_082")), "inline code の言及を誤検出した");
}

#[test]
fn does_not_flag_math_context_with_equals_sign() {
    let text = "d=4 のとき tapered が成立する。N=8 の場合も同様である。";
    assert!(
        scan(text).is_empty(),
        "数式文脈を誤検出した: {:?}",
        scan(text).iter().map(|f| &f.msg).collect::<Vec<_>>()
    );
}

#[test]
fn table_rows_and_inline_code_are_excluded_like_other_detectors() {
    let table_row = "| 43 cell を評価 | 説明 | 吸収 | access |";
    assert!(
        scan(table_row).iter().all(|f| f.rule != "missing-counter"),
        "表の行は地の文として検査してはいけない"
    );
}

#[test]
fn fence_and_inline_code_mentions_are_not_flagged() {
    let text = "`43 cell を` は記法の例。\n\n```\n10 track を評価\n```";
    assert!(
        scan(text).iter().all(|f| f.rule != "missing-counter"),
        "fence/inline code 内は言及であり対象外のはず"
    );
}

#[test]
fn calibration_corpus_representative_sample_matches_incident_counts() {
    let sample = "cell ポートフォリオ ── closed 43 cell（7 家族群別）\n13 cell ── PASS 12 / ADAPTIVE_RECOVERS 1\n43 cell を「稼ぐ」と数えても、稼ぎの実額は全域に均等ではない。\n配分単独最適化（同等 8 cell の代表）\n10 track を priority 順に。";
    let hits = scan(sample);
    assert_eq!(
        hits.len(),
        3,
        "較正 corpus 代表サンプルの陽性数が一致しない: {:?}",
        hits.iter().map(|f| &f.msg).collect::<Vec<_>>()
    );
}

#[test]
fn missing_counter_finding_reports_its_line() {
    let hits = scan("前置きの文。\n同等 8 cell の代表を示す。");
    assert_eq!(hits.len(), 1);
    assert_eq!(hits[0].line, 2);
}

#[test]
fn extra_unit_words_are_exempt_alongside_the_builtin_ones() {
    let text = "検出した 12 shot を比較し、8 cell を追加した。";
    let base = correo::counter::scan(text);
    assert_eq!(base.len(), 2);
    let v = correo::counter::scan_with_units(text, &vec!["shot".to_string()]);
    assert_eq!(v.len(), 1);
    assert!(v[0].msg.starts_with("「8 cell」"));
}
