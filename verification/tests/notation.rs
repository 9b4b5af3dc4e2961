use correo::notation::{context, scan};

#[test]
fn flags_arrows_with_line_numbers() {
    let text = "第一段階から第二段階へ。\n手順A → 手順B → 手順C の順で進む。";
    let hits: Vec<_> = scan(text).into_iter().filter(|f| f.rule == "arrow").collect();
    assert_eq!(hits.len(), 2, "→ が2箇所ある行から2件出るべき");
    assert!(hits.iter().all(|f| f.line == 2));
    assert!(scan("矢印なしの文。").iter().all(|f| f.rule != "arrow"));
}

#[test]
fn flags_double_and_triple_arrow_variants() {
    assert!(scan("状態Aから状態Bへ⇒最終状態Cに至る。").iter().any(|f| f.rule == "arrow"));
    assert!(scan("検査順序⟹凍結予測の決着。").iter().any(|f| f.rule == "arrow"));
}

#[test]
fn arrows_in_fence_or_inline_code_are_mentions_not_flagged() {
    assert!(
        scan("`a → b` は記法の例。\n\n```\nA → B\n```").iter().all(|f| f.rule != "arrow"),
        "fence/inline code 内は言及であり対象外のはず"
    );
}

#[test]
fn flags_fullwidth_equals_between_japanese_chars_but_not_math_usage() {
    let bad = "設計対象＝下流に渡る誘導実験である。";
    assert!(scan(bad).iter().any(|f| f.rule == "fullwidth-eq"));
    let math = "x＝1 のとき成立する。";
    assert!(scan(math).iter().all(|f| f.rule != "fullwidth-eq"), "数式的な x＝1 を連結用法として誤検出した");
}

#[test]
fn flags_fullwidth_equals_when_only_one_side_is_japanese() {
    assert!(
        scan("採択条件＝workflow 組込みを要する。").iter().any(|f| f.rule == "fullwidth-eq"),
        "日本語→識別子の片側連結を見逃した"
    );
    assert!(
        scan("残＝purity gated の状態を指す。").iter().any(|f| f.rule == "fullwidth-eq"),
        "識別子→日本語の片側連結を見逃した"
    );
}

#[test]
fn flags_three_or_more_nakaten_joined_items_in_parens_both_bracket_styles() {
    let zenkaku = "介入 campaign（配分・積基底・interface）の並置を検査する。";
    assert!(scan(zenkaku).iter().any(|f| f.rule == "paren-nakaten"));
    let hankaku = "評価軸(精度・速度・再現性)を並べる。";
    assert!(scan(hankaku).iter().any(|f| f.rule == "paren-nakaten"));
    let two = "評価軸(精度・速度)を並べる。";
    assert!(scan(two).iter().all(|f| f.rule != "paren-nakaten"));
}

#[test]
fn table_rows_and_inline_code_spans_are_excluded_like_other_detectors() {
    let table_row = "| E1 | 説明 | 吸収 | access(`adaptive_local_access`=X・`adaptive_pair_access`・Y) |";
    assert!(scan(table_row).iter().all(|f| f.rule != "paren-nakaten"), "表の行は地の文として検査してはいけない");
    let bullet_with_code = "- 事前登録: 対象は較正再生 cell(`E2607_078`・`E2607_080`・`E2607_081`)とする。";
    assert!(
        scan(bullet_with_code).iter().all(|f| f.rule != "paren-nakaten"),
        "inline code 言及の列挙を「・・」の空断片として誤検出した"
    );
}

#[test]
fn calibration_corpus_counts_match_the_incident_report() {
    let sample = "段階A（暫定 menu）\nmenu jump\n手順X → 手順Y は certified\n2.0〜4.7×（規模4 tapered）。\n実装込みでも 1.6〜2.2× 生存。\n稼ぐ場所の中心。";
    let hits = scan(sample);
    assert!(hits.iter().any(|f| f.rule == "arrow"));
}

#[test]
fn context_window_is_cut_around_the_match() {
    assert_eq!(context("あいうえお→かきくけこ", 5, 6), "あいうえお→かきくけこ");
    assert_eq!(context("〇一二三四五六七八九＝十壱弐参四伍六七八九", 10, 11), "二三四五六七八九＝十壱弐参四伍六七");
}
