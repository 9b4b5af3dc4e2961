use correo::report::Severity;
use correo::rhythm::{doc_stats, scan};

fn monotone(n: usize) -> String {
    (0..n)
        .map(|i| format!("第{:02}回の測定では基準信号との相互相関から時間遅れを推定して補正した。", i))
        .collect::<Vec<_>>()
        .join("")
}

fn varied(n: usize) -> String {
    (0..n)
        .map(|i| {
            format!(
                "違う。第{i}回の測定では基準信号との相互相関から時間遅れをまず推定し、続いて振幅の非線形性を多項式回帰で補正し、最後に残差が白色雑音の水準へ収まることを確認するところまでを一続きの手順として実施した。"
            )
        })
        .collect::<Vec<_>>()
        .join("")
}

#[test]
fn flat_rhythm_fires_on_monotone_prose_but_not_on_varied() {
    let hits = scan(&monotone(35));
    assert!(hits.iter().any(|x| x.rule == "flat-rhythm"), "等長 35 文で flat-rhythm が発火しない");
    assert!(hits.iter().all(|x| matches!(x.severity, Severity::Advisory)));
    assert!(scan(&varied(20)).iter().all(|x| x.rule != "flat-rhythm"), "短長混在の文書で誤爆");
}

#[test]
fn short_documents_are_not_measured() {
    assert!(scan(&monotone(29)).is_empty());
}

#[test]
fn bullets_and_quotes_are_excluded_from_the_sample() {
    let bullets: String = (0..29).map(|i| format!("- 項目{:02}は前回と同じ手順で確認を実施した。\n", i)).collect();
    let doc = format!("{bullets}\n{}", monotone(10));
    assert!(scan(&doc).iter().all(|x| x.rule != "flat-rhythm"), "bullet 行が文長標本に混入した");
    let quoted: String = (0..35)
        .map(|i| format!("> 第{:02}回の測定では基準信号との相互相関から時間遅れを推定して補正した。\n", i))
        .collect();
    assert!(scan(&quoted).iter().all(|x| x.rule != "flat-rhythm"), "blockquote が文長標本に混入した");
    let multi_sentence_bullets: String =
        (0..40).map(|i| format!("- 項目{:02}は最初の文。ここに続く二文目も等長で並ぶ。\n", i)).collect();
    assert_eq!(doc_stats(&multi_sentence_bullets).sentences, 0, "複数文 bullet の 2 文目以降が地の文標本に漏れた");
    assert!(scan(&multi_sentence_bullets).is_empty());
}

#[test]
fn uniform_paragraphs_fires_on_templated_three_sentence_paragraphs() {
    let doc: String = (0..8)
        .map(|i| {
            format!(
                "測定を行った。第{i}回は装置の較正から着手し、基準信号との相互相関で時間遅れを推定する工程を先に済ませた。結果は表に整理した。\n\n"
            )
        })
        .collect();
    let hits = scan(&doc);
    assert!(
        hits.iter().any(|x| x.rule == "uniform-paragraphs"),
        "3 文段落の量産で uniform-paragraphs が発火しない: {:?}",
        hits.iter().map(|x| x.rule).collect::<Vec<_>>()
    );
}

#[test]
fn varied_paragraphs_and_one_sentence_style_do_not_fire() {
    let mut doc = String::new();
    for n in [1usize, 4, 2, 5, 1, 3, 2, 5] {
        for i in 0..n {
            doc.push_str(&format!("段落内の第{i}文として測定と補正の手順を記した。"));
        }
        doc.push_str("\n\n");
    }
    assert!(scan(&doc).iter().all(|x| x.rule != "uniform-paragraphs"), "ばらついた段落構成で誤爆");
    let one_liner: String = (0..10).map(|i| format!("第{i}段落はこの一文だけで改行する文体で書いた。\n\n")).collect();
    assert!(
        scan(&one_liner).iter().all(|x| x.rule != "uniform-paragraphs"),
        "1 文 1 段落文体で誤爆（PARA_MEAN_MIN ガードが効いていない）"
    );
    let classic: String = (0..7)
        .map(|_| {
            let para: String = (0..13).map(|i| format!("其の第{i}の事情に就いては別に記す所があつた。")).collect();
            format!("{para}\n\n")
        })
        .collect();
    assert!(
        scan(&classic).iter().all(|x| x.rule != "uniform-paragraphs"),
        "長い均質段落の古典文体で誤爆（PARA_MEAN_MAX ガードが効いていない）"
    );
}

#[test]
fn flat_rhythm_message_for_equal_lengths() {
    let hits = scan(&monotone(35));
    let f: Vec<_> = hits.iter().filter(|x| x.rule == "flat-rhythm").collect();
    assert_eq!(f.len(), 1);
    assert_eq!(f[0].line, 1);
    assert_eq!(
        f[0].msg,
        "flat sentence-length rhythm: burstiness=-1.00 (n=35, mean 35 chars, sd 0; calibrated floor -0.4) — machine-even sentence lengths; mix short and long sentences. Route to judge"
    );
}

#[test]
fn uniform_paragraph_message_for_three_sentence_paragraphs() {
    let doc: String = (0..8)
        .map(|i| {
            format!(
                "測定を行った。第{i}回は装置の較正から着手し、基準信号との相互相関で時間遅れを推定する工程を先に済ませた。結果は表に整理した。\n\n"
            )
        })
        .collect();
    let hits = scan(&doc);
    let u: Vec<_> = hits.iter().filter(|x| x.rule == "uniform-paragraphs").collect();
    assert_eq!(u.len(), 1);
    assert_eq!(
        u[0].msg,
        "uniform paragraph structure: 8 paragraphs of ~3.0 sentences each (cv=0.00 < 0.26) — templated paragraphing (e.g. mass-produced 3-sentence paragraphs); merge or split by content. Route to judge"
    );
}

#[test]
fn stats_are_exact_sums() {
    let st = doc_stats("短い文。\nやや長めの文である。");
    assert_eq!(st.sentences, 2);
    assert_eq!(st.sum_chars, 4 + 10);
    assert_eq!(st.sum_sq_chars, 16 + 100);
    assert_eq!(st.paragraphs, 1);
    assert_eq!(st.para_sentences, 2);
    assert_eq!(st.first_sentence_line, 1);
}

#[test]
fn rhythm_reports_at_most_one_finding_of_each_kind() {
    let text: String = (0..40)
        .map(|i| format!("第{:02}回の測定では基準信号との相互相関から時間遅れを推定して補正した。", i))
        .collect();
    let v = scan(&text);
    assert_eq!(v.len(), 1);
    assert_eq!(v[0].rule, "flat-rhythm");
    assert!(v[0].severity == Severity::Advisory);
    let st = doc_stats(&text);
    assert_eq!(st.sentences, 40);
    assert!(49 * st.sentences as u128 * st.sum_sq_chars < 58 * st.sum_chars * st.sum_chars);
}
