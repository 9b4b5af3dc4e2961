use correo::pipeline::{scan_document, Ctx, Register};
use correo::report::{FindingData, Report};
use correo::suppress;

fn base_ctx(register: Register, jargon_terms: Vec<String>) -> Ctx {
    Ctx {
        max_sentence: 100,
        max_ten: 4,
        threshold: (8, 0),
        exempt: Vec::new(),
        allow_set: Vec::new(),
        metaphor_lex: Vec::new(),
        user_deny: Vec::new(),
        builtin_deny: Vec::new(),
        register,
        jargon_terms,
        counter_units: Vec::new(),
    }
}

#[test]
fn jargon_export_is_silent_under_internal_register_even_with_terms_configured() {
    let ctx = base_ctx(Register::Internal, vec!["campaign".to_string()]);
    let text = "campaign を設計する。";
    let s = suppress::scan(text);
    let findings = scan_document("doc.md", text, text, &s, &ctx);
    assert!(
        findings.iter().all(|f| f.detector != "jargon"),
        "internal で jargon-export が発火した: {:?}",
        findings.iter().map(|f| &f.rule).collect::<Vec<_>>()
    );
}

#[test]
fn jargon_export_fires_under_practice_register_and_is_suppressible() {
    let ctx = base_ctx(Register::Practice, vec!["campaign".to_string()]);
    let text = "campaign を設計する。";
    let s = suppress::scan(text);
    let findings = scan_document("doc.md", text, text, &s, &ctx);
    assert!(
        findings.iter().any(|f| f.detector == "jargon" && f.rule == "jargon-export"),
        "practice で jargon-export が発火しなかった"
    );
    let suppressed_text = "campaign を設計する。 <!-- correo-ignore jargon -->";
    let s2 = suppress::scan(suppressed_text);
    let findings2 = scan_document("doc.md", suppressed_text, suppressed_text, &s2, &ctx);
    assert!(findings2.iter().all(|f| f.detector != "jargon"), "jargon の inline 抑制が効かなかった");
}

#[test]
fn jargon_export_fires_under_consume_register_even_with_glossary_definition() {
    let ctx = base_ctx(Register::Consume, vec!["campaign".to_string()]);
    let text = "campaign（測定の実施計画）を設計する。";
    let s = suppress::scan(text);
    let findings = scan_document("doc.md", text, text, &s, &ctx);
    assert!(
        findings.iter().any(|f| f.detector == "jargon" && f.rule == "jargon-export"),
        "consume では近傍定義があっても発火するはず"
    );
}

#[test]
fn jargon_export_finding_is_advisory_severity() {
    let ctx = base_ctx(Register::Practice, vec!["campaign".to_string()]);
    let text = "campaign を設計する。";
    let s = suppress::scan(text);
    let findings = scan_document("doc.md", text, text, &s, &ctx);
    let j = findings.iter().find(|f| f.detector == "jargon").expect("jargon finding が無い");
    assert_eq!(j.severity, "advisory");
}

#[test]
fn deny_findings_block_and_carry_the_word_and_file() {
    let mut ctx = base_ctx(Register::Internal, vec![]);
    ctx.user_deny = vec![("機械床".to_string(), "書き直す".to_string())];
    ctx.builtin_deny = correo::deny::builtin();
    let text = "本機能は両者の架け橋となります。\n機械床を使う。";
    let s = suppress::scan(text);
    let findings = scan_document("a.md", text, text, &s, &ctx);
    let deny: Vec<_> = findings.iter().filter(|f| f.detector == "deny").collect();
    assert_eq!(deny.len(), 2);
    assert_eq!(deny[0].rule, "denied-term");
    assert_eq!(deny[0].line, 2);
    assert_eq!(deny[0].message, "「機械床」 is a denied term (judge's recorded verdict) — 書き直す");
    assert_eq!(deny[1].rule, "slop-phrase");
    assert_eq!(deny[1].line, 1);
    assert!(deny.iter().all(|f| f.severity == "error" && f.file == "a.md"));
    match &deny[0].data {
        Some(FindingData::Deny { word, suggestion }) => {
            assert_eq!(word, "機械床");
            assert_eq!(suggestion, "書き直す");
        },
        _ => panic!("deny data が無い"),
    }
    let style: Vec<_> = findings.iter().filter(|f| f.detector == "readability").collect();
    assert_eq!(style.len(), 1);
    assert_eq!(style[0].rule, "style-mixing");
    assert_eq!(style[0].severity, "error");
    let report = Report::new(findings);
    assert_eq!(report.summary.error, 3);
    assert_eq!(report.summary.advisory, 0);
    assert_eq!(report.version, 1);
}

#[test]
fn codemix_finding_uses_the_threshold_ratio() {
    let ja = "あ".repeat(45);
    let text = format!("{ja} framework gratuitous slopword realword");
    let s = suppress::scan(&text);
    let ctx = base_ctx(Register::Internal, vec![]);
    let findings = scan_document("b.md", &text, &text, &s, &ctx);
    let c: Vec<_> = findings.iter().filter(|f| f.detector == "codemix").collect();
    assert_eq!(c.len(), 1);
    assert_eq!(
        c[0].message,
        "9 latin per 100 JA chars (JA 45) — judge each token: domain→allow / mention→backticks / gratuitous→rewrite: framework gratuitous realword slopword"
    );
    let mut strict = base_ctx(Register::Internal, vec![]);
    strict.threshold = (10, 0);
    let none = scan_document("b.md", &text, &text, &s, &strict);
    assert!(none.iter().all(|f| f.detector != "codemix"));
}

#[test]
fn suppressed_line_drops_every_detector() {
    let mut ctx = base_ctx(Register::Internal, vec![]);
    ctx.user_deny = vec![("機械床".to_string(), "書き直す".to_string())];
    let text = "<!-- correo-ignore -->\n機械床を使う。";
    let s = suppress::scan(text);
    assert!(scan_document("c.md", text, text, &s, &ctx).is_empty());
}

#[test]
fn check_reports_flat_rhythm_as_advisory() {
    let text: String = (0..35)
        .map(|i| format!("第{:02}回の測定では基準信号との相互相関から時間遅れを推定して補正した。", i))
        .collect();
    let s = suppress::scan(&text);
    let ctx = base_ctx(Register::Internal, Vec::new());
    let r = scan_document("doc.md", &text, &text, &s, &ctx);
    assert!(r
        .iter()
        .any(|f| f.detector == "rhythm" && f.rule == "flat-rhythm" && f.severity == "advisory" && f.file == "doc.md"));
}

#[test]
fn configured_unit_words_silence_missing_counter() {
    let text = "検出した 12 shot を比較する。";
    let s = suppress::scan(text);
    let mut ctx = base_ctx(Register::Internal, Vec::new());
    let r = scan_document("a.md", text, text, &s, &ctx);
    assert!(r.iter().any(|f| f.detector == "counter" && f.rule == "missing-counter"));
    ctx.counter_units = vec!["shot".to_string()];
    let r = scan_document("a.md", text, text, &s, &ctx);
    assert!(r.iter().all(|f| f.detector != "counter"));
}
