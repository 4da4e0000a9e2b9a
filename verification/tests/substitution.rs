use yarn_spool::expand_substitutions;

fn subs(values: &[&str]) -> Vec<String> {
    values.iter().map(|value| value.to_string()).collect()
}

#[test]
fn text_without_substitutions_is_unchanged() {
    assert_eq!(expand_substitutions("Hello, {0}!", &[]), "Hello, {0}!");
    assert_eq!(expand_substitutions("", &[]), "");
    assert_eq!(expand_substitutions("{", &[]), "{");
    assert_eq!(expand_substitutions("plain", &subs(&["x"])), "plain");
    assert_eq!(expand_substitutions("", &subs(&["x"])), "");
}

#[test]
fn first_placeholder_is_replaced() {
    assert_eq!(expand_substitutions("{0}", &subs(&["Ann"])), "Ann");
    assert_eq!(expand_substitutions("Hello, {0}!", &subs(&["Ann"])), "Hello, Ann!");
    assert_eq!(expand_substitutions("{0} and {0}", &subs(&["Ann"])), "Ann and Ann");
    assert_eq!(expand_substitutions("{0}{0}", &subs(&["ab"])), "abab");
    assert_eq!(expand_substitutions("x{0}", &subs(&[""])), "x");
}

#[test]
fn every_placeholder_is_replaced_by_its_own_substitution() {
    let values = subs(&["Ann", "3", "apples"]);
    assert_eq!(expand_substitutions("{0} has {1} {2}.", &values), "Ann has 3 apples.");
    assert_eq!(expand_substitutions("{2}{1}{0}", &values), "apples3Ann");
    assert_eq!(expand_substitutions("{1}{1}", &values), "33");
}

#[test]
fn placeholders_with_several_digits() {
    let values: Vec<String> = (0..120).map(|i| format!("<{}>", i)).collect();
    assert_eq!(expand_substitutions("{9}{10}{11}", &values), "<9><10><11>");
    assert_eq!(expand_substitutions("{100}", &values), "<100>");
    assert_eq!(expand_substitutions("{119}", &values), "<119>");
    assert_eq!(expand_substitutions("{120}", &values), "{120}");
    assert_eq!(expand_substitutions("{1190}", &values), "{1190}");
}

#[test]
fn placeholder_without_a_substitution_stays() {
    assert_eq!(expand_substitutions("{1}", &subs(&["a"])), "{1}");
    assert_eq!(expand_substitutions("{0} {1} {2}", &subs(&["a", "b"])), "a b {2}");
    assert_eq!(
        expand_substitutions("{99999999999999999999999999999999999999999}", &subs(&["a"])),
        "{99999999999999999999999999999999999999999}"
    );
    assert_eq!(
        expand_substitutions("{18446744073709551616}", &subs(&["a"])),
        "{18446744073709551616}"
    );
    assert_eq!(
        expand_substitutions("{340282366920938463463374607431768211456}", &subs(&["a"])),
        "{340282366920938463463374607431768211456}"
    );
}

#[test]
fn only_a_plain_numeral_in_braces_is_a_placeholder() {
    let values = subs(&["a", "b"]);
    assert_eq!(expand_substitutions("{00}", &values), "{00}");
    assert_eq!(expand_substitutions("{01}", &values), "{01}");
    assert_eq!(expand_substitutions("{ 0}", &values), "{ 0}");
    assert_eq!(expand_substitutions("{0 }", &values), "{0 }");
    assert_eq!(expand_substitutions("{+0}", &values), "{+0}");
    assert_eq!(expand_substitutions("{-0}", &values), "{-0}");
    assert_eq!(expand_substitutions("{}", &values), "{}");
    assert_eq!(expand_substitutions("{0", &values), "{0");
    assert_eq!(expand_substitutions("{1", &values), "{1");
    assert_eq!(expand_substitutions("0}", &values), "0}");
    assert_eq!(expand_substitutions("{a}", &values), "{a}");
    assert_eq!(expand_substitutions("{0x}", &values), "{0x}");
    assert_eq!(expand_substitutions("{١}", &values), "{١}");
}

#[test]
fn braces_around_a_placeholder_stay() {
    let values = subs(&["a"]);
    assert_eq!(expand_substitutions("{{0}}", &values), "{a}");
    assert_eq!(expand_substitutions("{0{0}", &values), "{0a");
    assert_eq!(expand_substitutions("{{0}", &values), "{a");
    assert_eq!(expand_substitutions("{0}}", &values), "a}");
}

#[test]
fn substitutions_are_not_expanded_again() {
    assert_eq!(expand_substitutions("{0}", &subs(&["{0}"])), "{0}");
    assert_eq!(expand_substitutions("{0}{1}", &subs(&["{1}", "x"])), "{1}x");
    assert_eq!(expand_substitutions("{0}0}", &subs(&["{"])), "{0}");
}

#[test]
fn text_beyond_ascii_is_kept() {
    let values = subs(&["Zoë", "✓"]);
    assert_eq!(expand_substitutions("héllo {0} — {1}!", &values), "héllo Zoë — ✓!");
    assert_eq!(expand_substitutions("日本{1}語", &values), "日本✓語");
    assert_eq!(expand_substitutions("日本語", &values), "日本語");
}
