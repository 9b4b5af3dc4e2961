use correo::suppress::scan;

#[test]
fn bare_ignore_suppresses_next_line_for_all_rules() {
    let s = scan("<!-- correo-ignore -->\nこの行の指摘は全部消える。\n三行目は消えない。");
    assert!(s.hit(2, "readability", "no-chain"));
    assert!(s.hit(2, "coinage", "dictionary-coinage"));
    assert!(!s.hit(3, "readability", "no-chain"));
}

#[test]
fn named_ignore_suppresses_only_named_rule_or_detector() {
    let s = scan("本文 <!-- correo-ignore no-chain coinage -->");
    assert!(s.hit(1, "readability", "no-chain"), "規則名で抑制");
    assert!(s.hit(1, "coinage", "dictionary-coinage"), "検出器名で抑制");
    assert!(!s.hit(1, "readability", "sentence-length"), "無関係の規則は生きる");
}

#[test]
fn a_directive_covers_its_own_line_and_the_next_only() {
    let s = scan("一行目\n二行目 <!-- correo-ignore -->\n三行目\n四行目");
    assert!(!s.hit(1, "deny", "denied-term"));
    assert!(s.hit(2, "deny", "denied-term"));
    assert!(s.hit(3, "deny", "denied-term"));
    assert!(!s.hit(4, "deny", "denied-term"));
}

#[test]
fn text_without_directives_suppresses_nothing() {
    let s = scan("普通の文。\n次の文。");
    assert!(!s.hit(1, "readability", "no-chain"));
    assert!(!s.hit(2, "readability", "no-chain"));
}

#[test]
fn directives_on_consecutive_lines_combine_in_either_order() {
    let a = scan("<!-- correo-ignore no-chain -->\n<!-- correo-ignore -->\n本文。\n");
    let b = scan("<!-- correo-ignore -->\n<!-- correo-ignore no-chain -->\n本文。\n");
    // line 2 is covered by both directives: the bare one silences everything
    assert!(a.hit(2, "density", "near-duplicate"));
    assert!(b.hit(2, "density", "near-duplicate"));
    assert!(a.hit(2, "readability", "no-chain") && b.hit(2, "readability", "no-chain"));
    // line 3 is covered only by the directive on line 2
    assert!(a.hit(3, "density", "near-duplicate"));
    assert!(!b.hit(3, "density", "near-duplicate"));
    assert!(b.hit(3, "readability", "no-chain"));
}
