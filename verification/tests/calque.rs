use correo::calque::scan;

#[test]
fn flags_latin_verb_suru_and_sareru_joints() {
    let v = scan("この変更を deployして、結果を mergeする。設計は inspireされた。");
    let words: Vec<&str> = v.iter().map(|f| f.word.as_str()).collect();
    assert!(words.contains(&"deployして"), "{words:?}");
    assert!(words.contains(&"mergeする"), "{words:?}");
    assert!(words.contains(&"inspireされた"), "{words:?}");
}

#[test]
fn does_not_flag_normal_japanese_or_particle_separated_forms() {
    assert!(scan("コマンドを実行する。デプロイする手順を示す。").is_empty());
    assert!(scan("ls を実行して結果を確認する。").is_empty());
}

#[test]
fn matches_dotfiles_hook_regression_cases() {
    for bad in [
        "これを citeする。",
        "flag された値を見る。",
        "improveさせたい。",
        "de-risk する方針。",
        "refactorさせる。",
    ] {
        assert!(!scan(bad).is_empty(), "block されなかった: {bad}");
    }
    for ok in [
        "GitHubした。",
        "commit を実行する。",
        "解消されている。",
        "設計した。",
    ] {
        assert!(scan(ok).is_empty(), "誤検出した: {ok}");
    }
}

#[test]
fn mentions_in_code_are_not_flagged() {
    assert!(scan("`deployする` は検出例。\n\n```\ndeployする\n```").is_empty());
}

#[test]
fn calque_message_names_the_spliced_verb() {
    let v = scan("この変更を deployして、結果を確認する。");
    assert_eq!(v.len(), 1);
    assert_eq!(v[0].line, 1);
    assert_eq!(v[0].word, "deployして");
    assert!(v[0].msg.contains("deployして"), "{}", v[0].msg);
}
