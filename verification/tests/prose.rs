use correo::prose::{clean_lines, prose_units, sentences, strip_fences, strip_html};

const HTML_FIXTURE: &str = "<!DOCTYPE html>\n<html>\n<head>\n<style>\n  body { color: red; }\n  .warn { color: orange; }\n</style>\n<script>\n  function greet(name) {\n    console.log(name);\n  }\n</script>\n</head>\n<body>\n<!-- これは\n   複数行コメント -->\n<p>本文はここにある。</p>\n</body>\n</html>";

#[test]
fn clean_lines_section_ref_strip_does_not_swallow_trailing_punctuation() {
    let text = "提案設計の最適性を機械検査できること(評論 §2)。";
    let cleaned = clean_lines(text);
    assert!(cleaned.ends_with('。'), "§ref 除去が文末の句点を飲み込んだ: {cleaned:?}");
    assert!(!cleaned.contains("§2"), "§ref 本体が残った: {cleaned:?}");
}

#[test]
fn strip_html_preserves_line_count_with_multiline_script_style_comment() {
    let out = strip_html(HTML_FIXTURE);
    assert_eq!(out.lines().count(), HTML_FIXTURE.lines().count(), "strip_html は入力と行数が一致しなければならない");
}

#[test]
fn strip_html_does_not_concatenate_adjacent_cells() {
    let html = "<table><tr><td>cell</td><td>固有</td></tr></table>";
    let out = strip_html(html);
    assert!(!out.contains("cell固有"), "tag 境界で別セルの語が連結してはいけない: {out:?}");
    let collapsed = out.split_whitespace().collect::<Vec<_>>().join(" ");
    assert!(
        collapsed.contains("cell") && collapsed.contains("固有") && !collapsed.contains("cell固有"),
        "cell と 固有 の間に空白（と block 境界）が入るべき: {out:?}"
    );
    let sents = sentences(&out);
    let joined_any_sentence = sents.iter().any(|(_, s)| s.contains("cell") && s.contains("固有"));
    assert!(!joined_any_sentence, "cell と 固有 が同一文として結合された: {sents:?}");
}

#[test]
fn strip_html_decodes_minimal_entities() {
    assert_eq!(strip_html("A &amp; B&nbsp;C"), "A & B C");
    assert_eq!(strip_html("&lt;tag&gt; &quot;q&quot; &apos;a&apos;&#39;"), "<tag> \"q\" 'a''");
}

#[test]
fn strip_html_blanks_script_and_style_content() {
    let out = strip_html(HTML_FIXTURE);
    assert!(!out.contains("color: red"), "style の中身が残っている: {out:?}");
    assert!(!out.contains("console.log"), "script の中身が残っている: {out:?}");
    assert!(!out.contains("複数行コメント"), "comment の中身が残っている: {out:?}");
    assert!(out.contains("本文はここにある"), "地の文まで消してはいけない: {out:?}");
}

#[test]
fn strip_html_preserves_lines_across_wrapped_attribute_tag() {
    let html = "<p class=\"a\"\n   data-x=\"b\"\n   id=\"c\">value</p>\nnext line";
    let out = strip_html(html);
    assert_eq!(out.lines().count(), html.lines().count());
    assert!(out.contains("value"));
    assert!(out.contains("next line"));
}

#[test]
fn strip_html_concatenates_inline_elements_without_extra_boundary() {
    let html = "<p>設計対象<strong>は</strong>下流に渡る<code>x</code>実験である。</p>";
    let out = strip_html(html);
    assert!(out.contains("設計対象 は 下流に渡る"), "inline 要素境界で語が壊れた: {out:?}");
    let sents = sentences(&out);
    assert!(
        sents.iter().any(|(_, s)| s.contains("設計対象") && s.contains("下流に渡る") && s.contains("実験である")),
        "inline 要素が文を分断した: {sents:?}"
    );
}

#[test]
fn strip_html_excludes_code_and_pre_content_as_mention() {
    let html = "<p>設定は <code>correo.toml</code> に書く。</p><pre>fn main() { 造語だらけ・関数群 }</pre>";
    let out = strip_html(html);
    assert!(!out.contains("correo.toml"), "code 内の言及が残った（検査対象になってしまう）: {out:?}");
    assert!(!out.contains("造語だらけ"), "pre 内の言及が残った: {out:?}");
    assert!(out.contains("設定は"), "地の文まで消してはいけない: {out:?}");
}

#[test]
fn strip_html_separates_same_line_table_cells_into_distinct_sentences() {
    let html = "<tr><td>menu_jump_d4</td><td>Pauli menu から任意 POVM への跳躍</td><td>2.0〜4.7×</td></tr>";
    let out = strip_html(html);
    let sents = sentences(&out);
    assert!(
        sents.iter().all(|(_, s)| !(s.contains("menu_jump_d4") && s.contains("Pauli menu"))),
        "同一物理行の隣接セルが 1 文に結合された: {sents:?}"
    );
}

#[test]
fn strip_html_block_boundary_line_count_still_preserved() {
    let html = "<table><tr><td>A</td><td>B</td></tr><tr><td>C</td><td>D</td></tr></table>";
    let out = strip_html(html);
    assert_eq!(out.lines().count(), html.lines().count());
}

#[test]
fn strip_fences_keeps_the_line_count() {
    let text = "前の行\n```\nコード\n```\n後の行";
    let out = strip_fences(text);
    assert_eq!(out.lines().count(), text.lines().count());
    assert!(!out.contains("コード"));
    assert!(out.contains("後の行"));
}

#[test]
fn sentences_split_at_terminators_and_remember_their_line() {
    let s = sentences("一つめ。二つめ！\n三つめ？");
    let got: Vec<(usize, &str)> = s.iter().map(|(l, t)| (*l, t.as_str())).collect();
    assert_eq!(got, vec![(1, "一つめ。"), (1, "二つめ！"), (2, "三つめ？")]);
}

#[test]
fn prose_units_merge_bullet_paragraphs() {
    let us = prose_units("段落の文。\n\n- 項目一\n\n- 項目二\n\n次の段落。");
    assert_eq!(us.len(), 3);
    assert!(us[1].is_bullet);
    assert_eq!(us[1].line, 3);
    assert_eq!(us[2].line, 7);
}

#[test]
fn sentences_keep_every_prose_character_in_order() {
    let text = "# 見出し\n\n一文目。二文目は\n折り返して続く。\n\n- 項目\n```\ncode。\n```\n最後の文";
    let from_sentences: String = correo::prose::sentences(text)
        .iter()
        .flat_map(|(_, s)| s.chars())
        .filter(|c| !c.is_whitespace())
        .collect();
    let from_clean: String = correo::prose::clean_lines(text).chars().filter(|c| !c.is_whitespace()).collect();
    assert_eq!(from_sentences, from_clean);
}
