use correo::coinage::{
    added_lines, coinage_finding, compounds, is_kanji_kata, is_latin_word, is_strict_hit, line_hits, parse_allow_file,
    parse_corpus, prose_lines, verdict, CoinageHit, Morpheme,
};
use correo::report::FindingData;

fn m(surface: &str, pos: [&str; 3]) -> Morpheme {
    Morpheme {
        surface: surface.to_string(),
        pos1: pos[0].to_string(),
        pos2: pos[1].to_string(),
        pos3: pos[2].to_string(),
    }
}

fn noun(surface: &str) -> Morpheme {
    m(surface, ["名詞", "普通名詞", "一般"])
}

fn particle(surface: &str) -> Morpheme {
    m(surface, ["助詞", "格助詞", "*"])
}

fn space() -> Morpheme {
    m(" ", ["空白", "*", "*"])
}

#[test]
fn latin_words_and_kanji_kata_characters() {
    assert!(is_latin_word("slop"));
    assert!(is_latin_word("de-risk"));
    assert!(is_latin_word("c_2"));
    assert!(!is_latin_word("123"));
    assert!(!is_latin_word(""));
    assert!(!is_latin_word("軸"));
    assert!(is_kanji_kata('軸'));
    assert!(is_kanji_kata('カ'));
    assert!(is_kanji_kata('々'));
    assert!(!is_kanji_kata('あ'));
    assert!(!is_kanji_kata('a'));
}

#[test]
fn hybrid_compound_is_found_with_and_without_space() {
    let tight = vec![m("この", ["連体詞", "*", "*"]), noun("slop"), noun("軸"), particle("を")];
    let cs = compounds(&tight, &vec![]);
    assert_eq!(cs.len(), 1);
    assert_eq!(cs[0].0, "slop軸");
    let spaced = vec![m("この", ["連体詞", "*", "*"]), space(), noun("slop"), space(), noun("軸"), particle("を")];
    let cs = compounds(&spaced, &vec![]);
    assert_eq!(cs.len(), 1);
    assert_eq!(cs[0].0, "slop軸");
    assert!(is_strict_hit(&cs[0].1, &vec![false, false]), "slop軸 が strict を通った");
}

#[test]
fn space_after_kanji_does_not_join_and_latin_runs_are_not_compounds() {
    let ms = vec![noun("評価"), space(), noun("結果"), particle("を")];
    assert!(compounds(&ms, &vec![]).is_empty());
    let latin = vec![noun("JSON"), space(), noun("API"), particle("を")];
    assert!(compounds(&latin, &vec![]).is_empty());
}

#[test]
fn allowed_compounds_are_not_candidates() {
    let ms = vec![noun("構造"), noun("腕"), particle("を")];
    assert_eq!(compounds(&ms, &vec![]).len(), 1);
    assert!(compounds(&ms, &vec!["構造腕".to_string()]).is_empty());
}

#[test]
fn strict_test_follows_the_dictionary_signals() {
    let metaphor = vec![noun("構造"), noun("腕")];
    assert!(is_strict_hit(&metaphor, &vec![false, false]));
    let numeral = vec![m("二", ["名詞", "数詞", "*"]), noun("腕")];
    assert!(!is_strict_hit(&numeral, &vec![false, false]));
    let rescued = vec![m("測定", ["名詞", "普通名詞", "サ変可能"]), noun("法")];
    assert!(!is_strict_hit(&rescued, &vec![false, true]));
    let initial = vec![noun("家"), m("造語", ["名詞", "普通名詞", "一般"])];
    assert!(is_strict_hit(&initial, &vec![true, false]), "語頭の接尾辞語義が免除した");
    let suffix = vec![noun("配線"), m("済", ["接尾辞", "名詞的", "一般"])];
    assert!(!is_strict_hit(&suffix, &vec![false, false]));
}

#[test]
fn line_hits_keep_strict_failures_only_when_strict() {
    let ms = vec![noun("構造"), noun("腕"), particle("と"), m("測定", ["名詞", "普通名詞", "サ変可能"]), noun("法")];
    let cs = compounds(&ms, &vec![]);
    assert_eq!(cs.len(), 2);
    let readings = vec![vec![false, false], vec![false, true]];
    let strict = line_hits("a.md", 3, &cs, &readings, true);
    assert_eq!(strict.len(), 1);
    assert_eq!(strict[0].compound, "構造腕");
    assert_eq!(strict[0].components, vec!["構造".to_string(), "腕".to_string()]);
    assert_eq!(strict[0].line, 3);
    assert_eq!(line_hits("a.md", 3, &cs, &readings, false).len(), 2);
}

#[test]
fn allow_accepts_md_registry() {
    let v = parse_allow_file("vocab.md", "| `接触集合 Z (contact set)` | home | g |\n");
    assert!(v.contains(&"接触集合".to_string()));
    assert!(v.contains(&"接触集合 Z (contact set)".to_string()));
}

#[test]
fn plain_allow_lists_take_trimmed_lines() {
    let v = parse_allow_file("words.txt", "# 裁定済み\n  構造腕  \n\n機械床\n");
    assert_eq!(v, vec!["構造腕".to_string(), "機械床".to_string()]);
}

#[test]
fn corpus_takes_the_first_column() {
    let v = parse_corpus("物理層\t123\n# comment\n\n使用例\n");
    assert_eq!(v, vec!["物理層".to_string(), "使用例".to_string()]);
}

#[test]
fn added_lines_follow_the_hunk_headers() {
    let diff = "diff --git a/x.md b/x.md\n--- a/x.md\n+++ b/x.md\n@@ -3,0 +4,2 @@\n+構造腕を書く。\n+次の行。\n@@ -10 +12 @@\n-消えた行\n+置換後。\n";
    let a = added_lines(diff);
    let got: Vec<(&str, usize, &str)> = a.iter().map(|(f, l, t)| (f.as_str(), *l, t.as_str())).collect();
    assert_eq!(got, vec![("x.md", 4, "構造腕を書く。"), ("x.md", 5, "次の行。"), ("x.md", 12, "置換後。")]);
}

#[test]
fn collect_skips_code_fences_in_file_mode() {
    let lines = prose_lines("構造腕を書く。\n\n```\n構造腕の例\n```\n| 表の構造腕 |\n`構造腕` の言及と本文。\n");
    let got: Vec<(usize, &str)> = lines.iter().map(|(l, t)| (*l, t.as_str())).collect();
    assert_eq!(got, vec![(1, "構造腕を書く。"), (2, ""), (3, ""), (4, ""), (5, ""), (7, " の言及と本文。")]);
}

fn hit(compound: &str) -> CoinageHit {
    CoinageHit {
        file: "a.md".to_string(),
        line: 2,
        compound: compound.to_string(),
        components: vec!["構造".to_string(), "腕".to_string()],
    }
}

#[test]
fn check_reports_a_coinage_hit_as_advisory_unless_attested_denied_or_suppressed() {
    let f = coinage_finding(hit("構造腕"), None, &vec![], &vec![]).expect("finding");
    assert_eq!(f.detector, "coinage");
    assert_eq!(f.rule, "dictionary-coinage");
    assert_eq!(f.severity, "advisory");
    assert_eq!(f.line, 2);
    assert_eq!(
        f.message,
        "「構造腕」 is not a dictionary headword — judge: natural→ignore / keep→allow / confirmed coinage→deny or rewrite"
    );
    match f.data {
        Some(FindingData::Coinage { compound, components }) => {
            assert_eq!(compound, "構造腕");
            assert_eq!(components.len(), 2);
        },
        _ => panic!("coinage data が無い"),
    }
    assert!(coinage_finding(hit("構造腕"), None, &vec!["構造腕".to_string()], &vec![]).is_none());
    assert!(coinage_finding(hit("構造腕"), None, &vec![], &vec![("構造腕".to_string(), "x".to_string())]).is_none());
    let s = correo::suppress::scan("<!-- correo-ignore coinage -->\n構造腕を書く。");
    assert!(coinage_finding(hit("構造腕"), Some(&s), &vec![], &vec![]).is_none());
}

#[test]
fn verdict_of_the_coinage_command() {
    let (m, c) = verdict(0, 12, false);
    assert_eq!(m, "COINAGE PASS: no out-of-dictionary compounds (allowlist 12 entries)");
    assert_eq!(c, 0);
    let (m, c) = verdict(3, 12, true);
    assert_eq!(m, "COINAGE CANDIDATES: 3 (advisory — judge triages: natural / register in allow / confirmed coinage → deny)");
    assert_eq!(c, 0);
    let (m, c) = verdict(3, 12, false);
    assert_eq!(m, "COINAGE FAIL: 3 (criterion = Sudachi mode-C headword membership)");
    assert_eq!(c, 1);
}
