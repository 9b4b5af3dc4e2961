use correo::deny::{builtin, merge_vocabulary, parse_allow_vocabulary, parse_vocabulary, scan, without_allowed};

fn deny() -> Vec<(String, String)> {
    vec![("機械床".to_string(), "書き直す".to_string())]
}

fn get<'a>(v: &'a [(String, String)], k: &str) -> Option<&'a str> {
    v.iter().find(|(w, _)| w == k).map(|(_, s)| s.as_str())
}

#[test]
fn flags_denied_term_with_line_and_suggestion() {
    let hits = scan("一行目は普通。\n機械床を使う。", &deny());
    assert_eq!(hits.len(), 1);
    assert_eq!(hits[0].0, 2);
    assert_eq!(hits[0].1, "機械床");
}

#[test]
fn mentions_in_fence_and_inline_code_are_not_hits() {
    let text = "`機械床` は言及。\n\n```\n機械床のコード例\n```";
    assert!(scan(text, &deny()).is_empty(), "言及が deny に落ちた");
}

#[test]
fn builtin_slop_phrases_hit_with_stem_matching() {
    let b = builtin();
    let hits = scan("本機能は両者の架け橋となります。", &b);
    assert_eq!(hits.len(), 1);
    assert_eq!(hits[0].1, "架け橋とな");
    assert!(scan("本機能は二つの系を接続する。", &b).is_empty());
}

#[test]
fn load_vocabulary_parses_tab_separated_word_and_rewrite() {
    let v = parse_vocabulary("closed表\t決着済みの表 へ書き直す\nopen表\t未決の表 へ書き直す\n");
    assert_eq!(v.len(), 2);
    assert_eq!(get(&v, "closed表"), Some("決着済みの表 へ書き直す"));
    assert_eq!(get(&v, "open表"), Some("未決の表 へ書き直す"));
}

#[test]
fn load_vocabulary_skips_comment_and_blank_lines() {
    let v = parse_vocabulary("# comment line\n\ncopies数\t部数 へ書き直す\n  \n");
    assert_eq!(v.len(), 1);
    assert!(v.iter().any(|(w, _)| w == "copies数"));
}

#[test]
fn load_vocabulary_accepts_tabless_line_with_empty_rewrite() {
    let v = parse_vocabulary("software層\n");
    assert_eq!(get(&v, "software層"), Some(""));
}

#[test]
fn loaded_vocabulary_terms_hit_through_scan_like_builtin_terms() {
    let v = parse_vocabulary("判定家族\t改名済みの旧称 — 現行名へ書き直す\n");
    let hits = scan("この判定家族を確認する。", &v);
    assert_eq!(hits.len(), 1);
    assert_eq!(hits[0].1, "判定家族");
}

#[test]
fn loaded_vocabulary_mentions_in_code_are_not_hits() {
    let v = parse_vocabulary("closed表\t書き直す\n");
    let text = "`closed表` は言及。\n\n```\nclosed表のコード例\n```";
    assert!(scan(text, &v).is_empty(), "語彙表由来の言及が deny に落ちた");
}

#[test]
fn load_allow_vocabulary_parses_bare_words_lowercased() {
    let v = parse_allow_vocabulary("Baseline\nMenu\n");
    assert_eq!(v.len(), 2);
    assert!(v.iter().any(|w| w == "baseline"));
    assert!(v.iter().any(|w| w == "menu"));
}

#[test]
fn load_allow_vocabulary_ignores_value_after_tab() {
    let v = parse_allow_vocabulary("baseline\thouse-specific term\n");
    assert_eq!(v.len(), 1);
    assert!(v.iter().any(|w| w == "baseline"));
}

#[test]
fn load_allow_vocabulary_skips_comment_and_blank_lines() {
    let v = parse_allow_vocabulary("# comment\n\nmenu\n  \n");
    assert_eq!(v.len(), 1);
    assert!(v.iter().any(|w| w == "menu"));
}

#[test]
fn later_vocabulary_line_overrides_earlier_one() {
    let v = parse_vocabulary("機械床\t一つめ\n機械床\t二つめ\n");
    assert_eq!(v.len(), 1);
    assert_eq!(get(&v, "機械床"), Some("二つめ"));
}

#[test]
fn merged_vocabulary_lets_the_later_source_win() {
    let mut base = vec![("機械床".to_string(), "旧案".to_string())];
    merge_vocabulary(&mut base, vec![("機械床".to_string(), "新案".to_string()), ("判定家族".to_string(), "x".to_string())]);
    assert_eq!(base.len(), 2);
    assert_eq!(get(&base, "機械床"), Some("新案"));
    assert_eq!(get(&base, "判定家族"), Some("x"));
}

#[test]
fn allowed_words_are_never_denied() {
    let allow = vec!["機械床".to_string()];
    let kept = without_allowed(deny(), &allow);
    assert!(kept.is_empty());
    assert!(scan("機械床を使う。", &kept).is_empty());
}

#[test]
fn deny_hits_are_ordered_by_line() {
    let v = parse_vocabulary("機械床\ta\n判定家族\tb\n");
    let hits = scan("判定家族を見る。\n機械床を見る。\n判定家族を再び見る。", &v);
    assert_eq!(hits.iter().map(|h| h.0).collect::<Vec<_>>(), vec![1, 2, 3]);
}

#[test]
fn deny_hits_are_sorted_and_located_by_line() {
    let map = vec![("機械床".to_string(), "書き直す".to_string())];
    assert_eq!(
        scan("一行目は普通。\n機械床を使う。", &map),
        vec![(2, "機械床".to_string(), "書き直す".to_string())]
    );
    let two = vec![
        ("床".to_string(), "b".to_string()),
        ("機械".to_string(), "a".to_string()),
    ];
    let r = scan("機械床。\n`機械床` は言及。\n床だけ。", &two);
    assert_eq!(
        r,
        vec![
            (1, "床".to_string(), "b".to_string()),
            (1, "機械".to_string(), "a".to_string()),
            (3, "床".to_string(), "b".to_string()),
        ]
    );
}

#[test]
fn distinct_words_give_no_repeated_hit() {
    let map = vec![("機械床".to_string(), "a".to_string()), ("床".to_string(), "b".to_string())];
    let r = scan("機械床と床。\n機械床。", &map);
    for i in 0..r.len() {
        for j in (i + 1)..r.len() {
            assert_ne!(r[i], r[j]);
        }
    }
    assert_eq!(r.len(), 4);
}
