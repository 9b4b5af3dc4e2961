use correo::density::{low_density_finding, scan};

#[test]
fn repetitive_paragraph_is_low_density_and_normal_prose_is_not() {
    let slop = "本製品は素晴らしい体験を提供します。素晴らしい体験は素晴らしい価値を生みます。素晴らしい価値は素晴らしい未来を作ります。素晴らしい未来は素晴らしい体験から始まります。素晴らしい体験は素晴らしい価値を生みます。素晴らしい価値は素晴らしい未来を作ります。素晴らしい未来は素晴らしい体験から始まります。";
    let v = scan(slop);
    assert!(v.iter().any(|f| f.rule == "low-information-density"), "反復 slop が低密度と判定されず");
    let normal = "本手法は測定系の較正誤差を三段階で分離する。第一段階では基準信号との相互相関から時間遅れを推定し、第二段階で振幅の非線形性を多項式回帰で補正する。";
    assert!(
        scan(normal).iter().all(|f| f.rule != "low-information-density"),
        "正常な技術文が低密度と誤判定"
    );
    assert!(scan("測定は三回行った。結果を表1に示す。").is_empty());
    let mixed = "correo の check は codemix と coinage と readability を advisory と error の二値で報告し、correo の check は judge へ構造化した finding を渡す。correo の check は exit code で CI を止める。";
    assert!(
        scan(mixed).iter().all(|f| f.rule != "low-information-density"),
        "latin 混在段落を誤爆"
    );
}

#[test]
fn paraphrased_duplicate_paragraphs_are_flagged_but_unrelated_are_not() {
    let dup = "本稿では測定系の較正誤差を分離する手法を提案する。三段階の分離により残差を白色雑音水準まで低減できることを示す。\n\n本稿では測定系の較正誤差を分離する手法を提案した。三段階の分離により残差が白色雑音水準まで低減されることを示した。";
    let v = scan(dup);
    let hit = v.iter().find(|f| f.rule == "near-duplicate");
    assert!(hit.is_some(), "言い換え水増しが検出されず");
    assert_eq!(hit.unwrap().line, 3, "重複の後段の行を指すべき");
    let ok = "本稿では測定系の較正誤差を分離する手法を提案する。三段階の分離により残差を白色雑音水準まで低減できることを示す。\n\n実験装置は恒温槽内に設置し、温度変動を一定に保った。試料は毎回新品を用いて摩耗の影響を除いた。";
    assert!(scan(ok).iter().all(|f| f.rule != "near-duplicate"), "無関係な段落を重複と誤判定");
}

#[test]
fn density_findings_are_ordered_by_line() {
    let slop = "本製品は素晴らしい体験を提供します。素晴らしい体験は素晴らしい価値を生みます。素晴らしい価値は素晴らしい未来を作ります。素晴らしい未来は素晴らしい体験から始まります。素晴らしい体験は素晴らしい価値を生みます。素晴らしい価値は素晴らしい未来を作ります。素晴らしい未来は素晴らしい体験から始まります。";
    let doc = format!("{slop}\n\n{slop}");
    let v = scan(&doc);
    assert!(v.len() >= 2);
    for w in v.windows(2) {
        assert!(w[0].line <= w[1].line);
    }
}

#[test]
fn low_density_finding_thresholds_and_message() {
    let f = low_density_finding(4, 60, 0, 50).expect("400 bits over 60 chars is under 11");
    assert_eq!(f.line, 4);
    assert_eq!(f.rule, "low-information-density");
    assert_eq!(f.msg, "情報密度が低い（6.7 bits/字 < 11）— 反復・定型の疑い。中身を足すか削る");
    let g = low_density_finding(1, 60, 9, 82).expect("656 bits is under 660");
    assert_eq!(g.msg, "情報密度が低い（10.9 bits/字 < 11）— 反復・定型の疑い。中身を足すか削る");
    assert!(low_density_finding(1, 60, 0, 83).is_none(), "664 bits is not under 660");
    assert!(low_density_finding(1, 59, 0, 10).is_none(), "too short");
    assert!(low_density_finding(1, 60, 10, 10).is_none(), "more than 15% ASCII");
}

#[test]
fn repetitive_unit_compresses_below_its_length() {
    let slop = "本製品は素晴らしい体験を提供します。素晴らしい体験は素晴らしい価値を生みます。素晴らしい価値は素晴らしい未来を作ります。素晴らしい未来は素晴らしい体験から始まります。素晴らしい体験は素晴らしい価値を生みます。素晴らしい価値は素晴らしい未来を作ります。素晴らしい未来は素晴らしい体験から始まります。";
    let v = scan(slop);
    let f = v.iter().find(|f| f.rule == "low-information-density").expect("low density");
    assert_eq!(f.line, 1);
    assert!(f.msg.starts_with("情報密度が低い（"));
}

#[test]
fn bits_per_char_is_shown_as_f64_formats_it() {
    // 1608 / 160 = 10.05, whose nearest double lies just above 10.05
    let f = low_density_finding(1, 160, 0, 201).expect("10.05 bits/char is under 11");
    assert_eq!(f.msg, format!("情報密度が低い（{:.1} bits/字 < 11）— 反復・定型の疑い。中身を足すか削る", 1608f64 / 160f64));
    assert_eq!(f.msg, "情報密度が低い（10.1 bits/字 < 11）— 反復・定型の疑い。中身を足すか削る");
}

#[test]
fn ascii_share_cap_is_the_double_nearest_to_fifteen_hundredths() {
    assert_eq!(5404319552844595f64 / 2f64.powi(55), 0.15f64);
    // exactly 15% ASCII is within the cap, as `9.0 / 60.0 > 0.15` is false
    assert!(low_density_finding(1, 60, 9, 10).is_some());
    assert!(low_density_finding(1, 1000, 151, 10).is_none());
}
