use correo::codemix::{closing_line, hot_lines, parse_domain_vocab, scan_paragraphs, Para};

fn ja(n: usize) -> String {
    "あ".repeat(n)
}

#[test]
fn excludes_identifiers_acronyms_exempt_keeps_gratuitous() {
    let exempt = vec!["postgres".to_string()];
    let text = format!("{} framework collective_only_residual HTTP postgres gratuitous", ja(45));
    let paras = scan_paragraphs(&text, &exempt);
    assert_eq!(paras.len(), 1);
    let v = &paras[0].vocab;
    assert!(v.contains(&"framework".to_string()));
    assert!(v.contains(&"gratuitous".to_string()));
    assert!(!v.iter().any(|t| t.contains('_')), "snake_case 識別子が漏れた: {v:?}");
    assert!(!v.contains(&"http".to_string()), "ALLCAPS が漏れた");
    assert!(!v.contains(&"postgres".to_string()), "exempt が漏れた");
    let density = paras[0].tokens as f64 * 100.0 / paras[0].ja_chars as f64;
    assert!((density - 2.0 * 100.0 / 45.0).abs() < 1e-9);
    assert_eq!(paras[0].ja_chars, 45);
}

#[test]
fn skips_paragraphs_under_40_ja_chars() {
    let exempt: Vec<String> = Vec::new();
    let text = "短い framework gratuitous slop";
    assert!(scan_paragraphs(text, &exempt).is_empty());
}

#[test]
fn reports_paragraph_start_line_not_ordinal() {
    let exempt: Vec<String> = Vec::new();
    let text = format!("{} framework\n\n{} gratuitous", ja(45), ja(45));
    let paras = scan_paragraphs(&text, &exempt);
    assert_eq!(paras.len(), 2);
    assert_eq!(paras[0].line, 1);
    assert_eq!(paras[1].line, 3);
}

#[test]
fn strips_table_and_heading_lines() {
    let exempt: Vec<String> = Vec::new();
    let text = format!("# headingword\n| tableword framework |\n{} realprose", ja(45));
    let paras = scan_paragraphs(&text, &exempt);
    assert_eq!(paras.len(), 1);
    let v = &paras[0].vocab;
    assert!(v.contains(&"realprose".to_string()));
    assert!(!v.contains(&"headingword".to_string()), "見出しが strip されず");
    assert!(!v.contains(&"framework".to_string()), "表行が strip されず");
}

#[test]
fn strips_fence_containing_blank_lines_and_keeps_line_numbers() {
    let exempt: Vec<String> = Vec::new();
    let text = format!(
        "{} realword\n\n```\n{} fenceword framework\n\ncodeword\n```\n\n{} tailword",
        ja(45),
        ja(45),
        ja(45)
    );
    let paras = scan_paragraphs(&text, &exempt);
    assert_eq!(paras.len(), 2, "fence が段落として計上された");
    for p in &paras {
        assert!(
            !p.vocab.contains(&"codeword".to_string())
                && !p.vocab.contains(&"fenceword".to_string())
                && !p.vocab.contains(&"framework".to_string()),
            "fence 中身が地の文に漏れた: {:?}",
            p.vocab
        );
    }
    assert_eq!(paras[0].line, 1);
    assert_eq!(paras[1].line, 9, "fence 除去で行番号がずれた");
}

#[test]
fn paragraph_line_skips_leading_blank_lines() {
    let exempt: Vec<String> = Vec::new();
    let text = format!("{} framework\n\n\n{} gratuitous", ja(45), ja(45));
    let paras = scan_paragraphs(&text, &exempt);
    assert_eq!(paras.len(), 2);
    assert_eq!(paras[1].line, 4, "空行でなく本文行を指すべき");
}

#[test]
fn whitespace_only_lines_are_paragraph_boundaries() {
    let exempt: Vec<String> = Vec::new();
    let text = format!("{} framework\n\t \n{} gratuitous", ja(45), ja(45));
    let paras = scan_paragraphs(&text, &exempt);
    assert_eq!(paras.len(), 2, "空白のみ行が段落境界にならず");
    assert_eq!(paras[1].line, 3);
}

#[test]
fn groups_consecutive_bullet_paragraphs_over_the_40_char_floor() {
    let exempt: Vec<String> = Vec::new();
    let text = format!("- {} framework\n\n- {} gratuitous\n\n- {} slopword", ja(20), ja(15), ja(18));
    let paras = scan_paragraphs(&text, &exempt);
    assert_eq!(paras.len(), 1, "bullet 行群が 1 単位に集計されていない");
    assert_eq!(paras[0].line, 1);
    assert_eq!(paras[0].ja_chars, 53);
    for w in ["framework", "gratuitous", "slopword"] {
        assert!(paras[0].vocab.contains(&w.to_string()), "{w} が欠落");
    }
}

#[test]
fn bullet_group_does_not_merge_with_prose_paragraph() {
    let exempt: Vec<String> = Vec::new();
    let text = format!("{} proseword\n\n- {} bulletword\n\n- {} another", ja(45), ja(25), ja(25));
    let paras = scan_paragraphs(&text, &exempt);
    assert_eq!(paras.len(), 2, "prose と bullet が併合された/分離しすぎた");
    assert!(paras[0].vocab.contains(&"proseword".to_string()));
    assert!(paras[1].vocab.contains(&"bulletword".to_string()));
    assert_eq!(paras[1].line, 3);
}

#[test]
fn math_fragments_are_not_prose_tokens() {
    let exempt: Vec<String> = Vec::new();
    let text = format!("{} O(n) の x と (i) (ii) (iii) を word で論じる。", ja(45));
    let paras = scan_paragraphs(&text, &exempt);
    assert_eq!(paras[0].vocab, vec!["word".to_string()], "破片が語彙に混入: {:?}", paras[0].vocab);
}

#[test]
fn strips_inline_code_and_refs() {
    let exempt: Vec<String> = Vec::new();
    let text = format!("{} `codeword framework` §5 DOC_1234 realword", ja(45));
    let paras = scan_paragraphs(&text, &exempt);
    let v = &paras[0].vocab;
    assert!(v.contains(&"realword".to_string()));
    assert!(!v.contains(&"codeword".to_string()), "inline code が strip されず");
    assert!(!v.contains(&"framework".to_string()), "inline code 内が残った");
}

#[test]
fn vocabulary_is_sorted_and_deduplicated_but_tokens_count_repeats() {
    let exempt: Vec<String> = Vec::new();
    let text = format!("{} zeta alpha zeta", ja(45));
    let paras = scan_paragraphs(&text, &exempt);
    assert_eq!(paras[0].vocab, vec!["alpha".to_string(), "zeta".to_string()]);
    assert_eq!(paras[0].tokens, 3);
}

#[test]
fn domain_vocabulary_reads_registry_rows() {
    let v = parse_domain_vocab("| `Postgres (db)` | home | g |\n普通の行\n");
    assert!(v.contains(&"postgres".to_string()), "{v:?}");
}

#[test]
fn a_paragraph_hot_at_a_threshold_stays_hot_at_a_lower_one() {
    let p = Para { line: 3, tokens: 5, ja_chars: 50, vocab: vec!["api".to_string(), "pipeline".to_string()] };
    // density 10 per 100 JA chars
    let at8 = hot_lines("", &p, (8, 0)).expect("10 >= 8");
    assert_eq!(at8.0, "⚑ L3: 10 latin per 100 JA chars (JA 50 chars)");
    assert_eq!(at8.1, "   classify 3-way (domain/pinned/gratuitous): api pipeline");
    assert!(hot_lines("", &p, (4, 0)).is_some());
    assert!(hot_lines("", &p, (10, 0)).is_some(), "the threshold itself is hot");
    assert!(hot_lines("", &p, (21, -1)).is_none(), "10.5 is above 10");
}

#[test]
fn codemix_report_gives_two_lines_per_hot_paragraph() {
    let text = "本稿では framework と pipeline と dashboard と deploy と monitoring と logging を使う設計を検討し、その運用上の課題を整理した。さらに実際の現場での適用例を三つ挙げて詳しく説明する。";
    let (lines, hot) = correo::codemix::codemix_report("a.md ", text, &Vec::new(), (8, 0));
    assert_eq!(hot, 1);
    assert_eq!(lines.len(), 2);
    assert!(lines[0].starts_with("⚑ a.md L1: "));
    assert!(lines[1].starts_with("   classify 3-way (domain/pinned/gratuitous): "));
    let (none, zero) = correo::codemix::codemix_report("", "測定は三回行った。", &Vec::new(), (8, 0));
    assert!(none.is_empty());
    assert_eq!(zero, 0);
}

/// A finite non-negative `f64` as its mantissa and binary exponent.
fn parts(x: f64) -> (u64, i64) {
    let bits = x.to_bits();
    let e = ((bits >> 52) & 0x7ff) as i64;
    let f = bits & ((1u64 << 52) - 1);
    if e == 0 {
        (f, -1074)
    } else {
        (f | (1u64 << 52), e - 1075)
    }
}

#[test]
fn a_density_equal_to_a_decimal_threshold_is_hot() {
    // 81 · 100 / 1000 is the double nearest 8.1, the same double as the threshold 8.1.
    let p = Para { line: 1, tokens: 81, ja_chars: 1000, vocab: vec!["api".to_string()] };
    let at = hot_lines("", &p, parts(8.1)).expect("8.1 >= 8.1");
    assert_eq!(at.0, "⚑ L1: 8 latin per 100 JA chars (JA 1000 chars)");
    let q = Para { line: 1, tokens: 80, ja_chars: 1000, vocab: vec!["api".to_string()] };
    assert!(hot_lines("", &q, parts(8.1)).is_none());
}

#[test]
fn closing_line_shows_the_threshold_rounded() {
    assert_eq!(closing_line(0, parts(8.0)), "CODEMIX PASS: no paragraph above 8 latin per 100 JA chars (advisory)");
    assert_eq!(closing_line(0, parts(12.25)), "CODEMIX PASS: no paragraph above 12 latin per 100 JA chars (advisory)");
    assert_eq!(
        closing_line(2, parts(8.0)),
        "CODEMIX: 2 hot paragraphs (advisory — judge triages each token: domain / mention / gratuitous→rewrite)"
    );
}
