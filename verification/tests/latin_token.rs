use correo::latin_token::{
    is_acronym, is_identifier_like, is_lowercase_word, katakana_for, katakana_table_vec, looks_like_url_or_path_or_doi,
    scan, severity_for, surrounding_token,
};
use correo::pipeline::Register;

const REPRO: &str = "設計後の統計リスクは baseline との比で表す。shot allocation を最適化すると、collective measurement の理論限界に近づく。";

fn allow() -> Vec<String> {
    Vec::new()
}

fn msgs(hits: &[correo::latin_token::Finding]) -> Vec<&String> {
    hits.iter().map(|f| &f.msg).collect()
}

#[test]
fn internal_register_never_fires() {
    assert!(scan(REPRO, Register::Internal, &allow()).is_empty());
}

#[test]
fn consume_register_finds_three_findings_for_repro_sentence() {
    let hits = scan(REPRO, Register::Consume, &allow());
    assert_eq!(hits.len(), 3, "3 finding のはず: {:?}", msgs(&hits));
    assert!(hits.iter().any(|f| f.msg.contains("baseline")));
    assert!(hits.iter().any(|f| f.msg.contains("shot allocation")));
    assert!(hits.iter().any(|f| f.msg.contains("collective measurement")));
}

#[test]
fn practice_register_finds_same_three_findings() {
    let hits = scan(REPRO, Register::Practice, &allow());
    assert_eq!(hits.len(), 3);
}

#[test]
fn consecutive_latin_words_merge_into_one_finding_not_two() {
    let hits = scan("shot allocation を最適化する。", Register::Consume, &allow());
    assert_eq!(hits.len(), 1, "1 finding のはず: {:?}", msgs(&hits));
    assert!(hits[0].msg.contains("shot allocation"));
}

#[test]
fn severity_maps_consume_to_error_and_practice_to_advisory() {
    assert_eq!(severity_for(Register::Consume), "error");
    assert_eq!(severity_for(Register::Practice), "advisory");
}

#[test]
fn allcaps_acronym_does_not_fire() {
    let hits = scan("この設計は POVM を使う。", Register::Consume, &allow());
    assert!(hits.is_empty(), "POVM が発火した: {:?}", msgs(&hits));
}

#[test]
fn short_and_long_allcaps_boundary() {
    let hits = scan("この SIC と SDP を比較する。", Register::Consume, &allow());
    assert!(hits.is_empty());
}

#[test]
fn identifier_with_digit_does_not_fire() {
    let hits = scan("この T1 の緩和時間を測る。", Register::Consume, &allow());
    assert!(hits.is_empty(), "T1 が発火した: {:?}", msgs(&hits));
}

#[test]
fn identifier_with_underscore_does_not_fire() {
    let hits = scan("この c_iid を評価する。", Register::Consume, &allow());
    assert!(hits.is_empty(), "c_iid が発火した: {:?}", msgs(&hits));
}

#[test]
fn mixed_case_identifier_does_not_fire() {
    let hits = scan("この ReplayReport を確認する。", Register::Consume, &allow());
    assert!(hits.is_empty(), "ReplayReport が発火した: {:?}", msgs(&hits));
}

#[test]
fn backtick_code_span_does_not_fire() {
    let text = "`baseline` は識別子の言及。地の文には無い。";
    let hits = scan(text, Register::Consume, &allow());
    assert!(hits.is_empty(), "backtick 内が発火した: {:?}", msgs(&hits));
}

#[test]
fn fence_code_block_does_not_fire() {
    let text = "説明文。\n\n```\nbaseline = compute_baseline()\n```\n";
    let hits = scan(text, Register::Consume, &allow());
    assert!(hits.is_empty(), "fence 内が発火した: {:?}", msgs(&hits));
}

#[test]
fn allow_vocabulary_word_does_not_fire() {
    let mut a = allow();
    a.push("baseline".to_string());
    let hits = scan(REPRO, Register::Consume, &a);
    assert!(!hits.iter().any(|f| f.msg.contains("「baseline」")), "allow 登録語が発火した: {:?}", msgs(&hits));
    assert_eq!(hits.len(), 2);
}

#[test]
fn url_is_excluded() {
    let text = "詳細は https://example.com/path/to/page を参照。";
    let hits = scan(text, Register::Consume, &allow());
    assert!(hits.is_empty(), "URL が発火した: {:?}", msgs(&hits));
}

#[test]
fn schemeless_path_is_excluded() {
    let text = "設定は docs/handbook/taxonomy.md にある。";
    let hits = scan(text, Register::Consume, &allow());
    assert!(hits.is_empty(), "path が発火した: {:?}", msgs(&hits));
}

#[test]
fn doi_is_excluded() {
    let text = "出典は doi:10.1234/example.5678 である。";
    let hits = scan(text, Register::Consume, &allow());
    assert!(hits.is_empty(), "DOI が発火した: {:?}", msgs(&hits));
}

#[test]
fn suggestion_uses_katakana_table_entry_when_present() {
    let hits = scan("これは baseline である。", Register::Consume, &allow());
    assert!(
        hits.iter().any(|f| f.msg.contains("ベースライン")),
        "katakana table の候補語が suggestion に出ない: {:?}",
        msgs(&hits)
    );
}

#[test]
fn suggestion_falls_back_to_generic_hint_when_word_not_in_table() {
    let hits = scan("これは zorptastic である。", Register::Consume, &allow());
    assert!(
        hits.iter().any(|f| f.msg.contains("カタカナ語化・和訳・等幅化のいずれかへ")),
        "表に無い語で汎用 suggestion が出ない: {:?}",
        msgs(&hits)
    );
}

#[test]
fn table_membership_does_not_gate_detection_only_enriches_message() {
    let hits = scan("これは zorptastic である。", Register::Consume, &allow());
    assert_eq!(hits.len(), 1);
}

#[test]
fn single_char_math_fragment_does_not_fire() {
    let hits = scan("O(n) の x を評価する。", Register::Consume, &allow());
    assert!(hits.is_empty(), "数式破片が発火した: {:?}", msgs(&hits));
}

#[test]
fn three_word_run_is_still_a_single_finding() {
    let hits = scan("quantum error correction を導入する。", Register::Consume, &allow());
    assert_eq!(hits.len(), 1, "{:?}", msgs(&hits));
    assert!(hits[0].msg.contains("quantum error correction"));
}

#[test]
fn katakana_table_has_no_domain_jargon_only_general_words() {
    let n = katakana_table_vec().len();
    assert!(n >= 50 && n <= 100, "table サイズが範囲外: {}", n);
}

#[test]
fn token_classifiers_on_concrete_words() {
    assert!(is_acronym("POVM"));
    assert!(!is_acronym("P"));
    assert!(is_identifier_like("c_iid"));
    assert!(is_identifier_like("T1"));
    assert!(!is_identifier_like("baseline"));
    assert!(is_lowercase_word("baseline"));
    assert!(!is_lowercase_word("Baseline"));
    assert!(looks_like_url_or_path_or_doi("https://example.com/x"));
    assert!(looks_like_url_or_path_or_doi("docs/handbook/taxonomy.md"));
    assert!(!looks_like_url_or_path_or_doi("baseline"));
    assert_eq!(katakana_for("Baseline").as_deref(), Some("ベースライン"));
    assert_eq!(katakana_for("zorptastic"), None);
    assert_eq!(surrounding_token("see docs/a.md here", 4, 8), "docs/a.md");
}
