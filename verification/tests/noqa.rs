use structloglint::noqa::{parse_line, parse_noqa_comments, NoqaDirective};

#[test]
fn empty_source() {
    let map = parse_noqa_comments("");
    assert!(map.is_empty());
}

#[test]
fn no_comments() {
    let source = "log.info('hello')\nlog.info('world')\n";
    let map = parse_noqa_comments(source);
    assert!(map.is_empty());
}

#[test]
fn noqa_suppress_all() {
    let source = "log.info('hello')  # noqa\n";
    let map = parse_noqa_comments(source);
    assert_eq!(map.len(), 1);
    assert!(matches!(map.get(&1).unwrap(), NoqaDirective::All));
}

#[test]
fn noqa_specific_rule() {
    let source = "log.info('hello')  # noqa: SL001\n";
    let map = parse_noqa_comments(source);
    assert_eq!(map.len(), 1);
    let directive = map.get(&1).unwrap();
    assert!(matches!(directive, NoqaDirective::Specific(_)));
    assert!(directive.suppresses("SL001"));
    assert!(!directive.suppresses("SL002"));
}

#[test]
fn noqa_multiple_rules() {
    let source = "log.info('hello')  # noqa: SL001, SL002\n";
    let map = parse_noqa_comments(source);
    assert_eq!(map.len(), 1);
    let directive = map.get(&1).unwrap();
    assert!(directive.suppresses("SL001"));
    assert!(directive.suppresses("SL002"));
    assert!(!directive.suppresses("SL003"));
}

#[test]
fn noqa_no_space_after_hash() {
    let source = "log.info('hello')  #noqa: SL001\n";
    let map = parse_noqa_comments(source);
    assert_eq!(map.len(), 1);
    let directive = map.get(&1).unwrap();
    assert!(directive.suppresses("SL001"));
}

#[test]
fn noqa_extra_space_after_hash() {
    let source = "log.info('hello')  #  noqa: SL001\n";
    let map = parse_noqa_comments(source);
    assert_eq!(map.len(), 1);
    let directive = map.get(&1).unwrap();
    assert!(directive.suppresses("SL001"));
}

#[test]
fn noqa_no_space_after_colon() {
    let source = "log.info('hello')  # noqa:SL001\n";
    let map = parse_noqa_comments(source);
    assert_eq!(map.len(), 1);
    let directive = map.get(&1).unwrap();
    assert!(directive.suppresses("SL001"));
}

#[test]
fn noqa_uppercase_rules() {
    let source = "log.info('hello')  # noqa: sl001, sl002\n";
    let map = parse_noqa_comments(source);
    let directive = map.get(&1).unwrap();
    assert!(directive.suppresses("SL001"));
    assert!(directive.suppresses("SL002"));
}

#[test]
fn noqa_empty_colon_is_all() {
    let source = "log.info('hello')  # noqa:\n";
    let map = parse_noqa_comments(source);
    let directive = map.get(&1).unwrap();
    assert!(matches!(directive, NoqaDirective::All));
}

#[test]
fn noqa_just_colon_and_space_is_all() {
    let source = "log.info('hello')  # noqa: \n";
    let map = parse_noqa_comments(source);
    let directive = map.get(&1).unwrap();
    assert!(matches!(directive, NoqaDirective::All));
}

#[test]
fn noqa_not_matched_in_middle_of_comment() {
    let source = "log.info('hello')  # this is not noqa\n";
    let map = parse_noqa_comments(source);
    assert!(map.is_empty());
}

#[test]
fn noqa_not_matched_if_noqa_is_not_start() {
    let source = "log.info('hello')  # some noqa here\n";
    let map = parse_noqa_comments(source);
    assert!(map.is_empty());
}

#[test]
fn noqa_multiple_lines() {
    let source = "log.info('a')  # noqa: SL001\nlog.info('b')  # noqa: SL002\n";
    let map = parse_noqa_comments(source);
    assert_eq!(map.len(), 2);
    assert!(map.get(&1).unwrap().suppresses("SL001"));
    assert!(map.get(&2).unwrap().suppresses("SL002"));
}

#[test]
fn noqa_single_rule_multiple_commas() {
    let source = "log.info('hello')  # noqa: SL001,,\n";
    let map = parse_noqa_comments(source);
    let directive = map.get(&1).unwrap();
    assert!(directive.suppresses("SL001"));
}

#[test]
fn noqa_with_extra_whitespace() {
    let source = "log.info('hello')  # noqa : SL001\n";
    let map = parse_noqa_comments(source);
    let directive = map.get(&1).unwrap();
    assert!(directive.suppresses("SL001"));
}

#[test]
fn noqa_lines_are_numbered_from_one_and_crlf_is_a_line_end() {
    let source = "a = 1\r\nlog.info('x')  # noqa: SL009\r\n\r\nlog.info('y')  # noqa\n";
    let map = parse_noqa_comments(source);
    assert_eq!(map.len(), 2);
    assert!(map.get(&2).unwrap().suppresses("SL009"));
    assert!(!map.get(&2).unwrap().suppresses("SL001"));
    assert!(matches!(map.get(&4).unwrap(), NoqaDirective::All));
}

#[test]
fn noqa_rule_list_is_trimmed_and_upper_cased_in_order() {
    match parse_line("x  # noqa: sl003 , Sl001,,") {
        Some(NoqaDirective::Specific(rules)) => {
            assert_eq!(rules, vec!["SL003".to_string(), "SL001".to_string()]);
        },
        other => panic!("unexpected directive: {other:?}"),
    }
}

#[test]
fn noqa_needs_a_colon_after_a_word_that_starts_with_noqa() {
    assert!(parse_line("x  # noqa-ish").is_none());
    assert!(parse_line("x  # noqaSL001").is_none());
    assert!(parse_line("x  # noqa , SL001").is_none());
    assert!(parse_line("no comment here").is_none());
}

#[test]
fn noqa_only_commas_is_all() {
    assert!(matches!(parse_line("x  # noqa: ,,"), Some(NoqaDirective::All)));
}

#[test]
fn all_directive_suppresses_any_rule() {
    assert!(NoqaDirective::All.suppresses("SL001"));
    assert!(NoqaDirective::All.suppresses("anything"));
    let specific = NoqaDirective::Specific(vec!["SL004".to_string()]);
    assert!(specific.suppresses("SL004"));
    assert!(!specific.suppresses("sl004"));
}
