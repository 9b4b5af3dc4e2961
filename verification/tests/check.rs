use correo::check::{exempt_words, exit_status, register_named, render_github, render_text, sort_findings, summary_line};
use correo::config::{choose_setting, KinoshitaCfg};
use correo::pipeline::Register;
use correo::report::{Finding, Report, Summary};

fn finding(file: &str, line: usize, severity: &'static str, message: &str) -> Finding {
    Finding {
        detector: "readability",
        rule: "no-chain".to_string(),
        file: file.to_string(),
        line,
        severity,
        message: message.to_string(),
        data: None,
    }
}

#[test]
fn register_names_ignore_ascii_case_and_accept_the_former_name() {
    assert_eq!(register_named("Practice"), Register::Practice);
    assert_eq!(register_named("EXTERNAL"), Register::Practice);
    assert_eq!(register_named("consume"), Register::Consume);
    assert_eq!(register_named("internal"), Register::Internal);
    assert_eq!(register_named("anything"), Register::Internal);
}

#[test]
fn exempt_words_lowercase_the_allow_list() {
    let e = exempt_words(&vec!["Postgres".to_string(), "ルー語".to_string()], vec!["framework".to_string()]);
    assert_eq!(e, vec!["postgres".to_string(), "ルー語".to_string(), "framework".to_string()]);
}

#[test]
fn report_is_sorted_by_file_then_line_stably() {
    let v = vec![
        finding("b.md", 2, "error", "x"),
        finding("a.md", 9, "advisory", "y"),
        finding("a.md", 3, "error", "z"),
        finding("a.md", 3, "advisory", "w"),
    ];
    let r = sort_findings(v);
    let got: Vec<(&str, usize, &str)> = r.iter().map(|f| (f.file.as_str(), f.line, f.message.as_str())).collect();
    assert_eq!(got, vec![("a.md", 3, "z"), ("a.md", 3, "w"), ("a.md", 9, "y"), ("b.md", 2, "x")]);
}

#[test]
fn text_and_github_renderings() {
    let a = finding("a.md", 3, "advisory", "50% の「の」連鎖");
    assert_eq!(render_text(&a), "a.md:3: [readability/no-chain·advisory] 50% の「の」連鎖");
    assert_eq!(render_github(&a), "::notice file=a.md,line=3,title=correo readability/no-chain::50%25 の「の」連鎖");
    let e = finding("a.md", 4, "error", "m");
    assert_eq!(render_text(&e), "a.md:4: [readability/no-chain] m");
    assert_eq!(render_github(&e), "::error file=a.md,line=4,title=correo readability/no-chain::m");
}

#[test]
fn summary_lines_and_exit_status() {
    assert_eq!(summary_line(0, 0, 0, 2, 0, None), "correo check: OK (2 files)");
    assert_eq!(
        summary_line(3, 1, 2, 5, 1, Some("/x/correo.toml")),
        "correo check: error 1 / advisory 2 (5 files・fixed 1, config /x/correo.toml)"
    );
    assert_eq!(exit_status(0), 0);
    assert_eq!(exit_status(2), 1);
}

#[test]
fn report_counts_errors_and_advisories() {
    let r = Report::new(vec![finding("a.md", 1, "error", "x"), finding("a.md", 2, "advisory", "y")]);
    let Summary { error, advisory } = r.summary;
    assert_eq!((error, advisory), (1, 1));
    assert_eq!(r.version, 1);
}

#[test]
fn settings_come_from_the_command_line_then_the_file_then_the_default() {
    assert_eq!(choose_setting(Some(90), Some(80), 100), 90);
    assert_eq!(choose_setting(None, Some(80), 100), 80);
    assert_eq!(choose_setting(None, None, 100), 100);
    let cfg = KinoshitaCfg { max_sentence: Some(90), max_ten: None };
    assert_eq!(cfg.limits(None, None), (90, 4));
    assert_eq!(cfg.limits(Some(120), Some(2)), (120, 2));
}
