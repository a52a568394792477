use structloglint::ast::{CallExpr, Expression, Statement};
use structloglint::expr_helpers::is_constant;
use structloglint::ast_walker::collect_log_calls;
use structloglint::config::Config;
use structloglint::models::{LogCall, LogLevel, ParentContext, RuleResult, RuleSeverity, Status};
use structloglint::python::parse_suite;
use structloglint::rules::case_style::CaseStyle;
use structloglint::rules::check_all;
use structloglint::rules::sl001::check_sl001;
use structloglint::rules::sl002::check_sl002;
use structloglint::rules::sl003::check_sl003;
use structloglint::rules::sl004::check_sl004;
use structloglint::rules::sl005::check_sl005;
use structloglint::rules::sl006::check_sl006;
use structloglint::rules::sl007::check_sl007;
use structloglint::rules::sl008::check_sl008;
use structloglint::rules::sl009::check_sl009;

fn parse(source: &str) -> Vec<Statement> {
    parse_suite(source, "<test>").expect("parse failed")
}

fn calls_of(stmts: &[Statement]) -> Vec<LogCall<'_>> {
    stmts
        .iter()
        .flat_map(|s| collect_log_calls(s, ParentContext::Module))
        .collect()
}

fn check_first_call<F>(source: &str, check_fn: F) -> RuleResult
where
    F: Fn(&LogCall) -> RuleResult,
{
    let stmts = parse(source);
    let calls = calls_of(&stmts);
    let call = calls.first().expect("no log call found");
    check_fn(call)
}

fn check_first_call_expr(source: &str, check_fn: fn(&CallExpr) -> RuleResult) -> RuleResult {
    let stmts = parse(source);
    let calls = calls_of(&stmts);
    let call = calls.first().expect("no log call found");
    check_fn(call.call)
}

fn check_all_first(source: &str, config: &Config) -> Vec<RuleResult> {
    let stmts = parse(source);
    let calls = calls_of(&stmts);
    let call = calls.first().expect("no log call found");
    check_all(call, config)
}

// SL001

#[test]
fn sl001_passes_with_keyword_args_only() {
    let result = check_first_call_expr("log.info('user_logged_in', user_id='u_123')", check_sl001);
    assert_eq!(result.status, Status::Pass, "{}", result.feedback);
}

#[test]
fn passes_with_no_args() {
    let result = check_first_call_expr("log.info('payment_complete')", check_sl001);
    assert_eq!(result.status, Status::Pass, "{}", result.feedback);
}

#[test]
fn passes_with_multiple_keyword_args() {
    let result = check_first_call_expr(
        "log.info('payment_complete', payment_id='pay_1', duration_ms=42)",
        check_sl001,
    );
    assert_eq!(result.status, Status::Pass, "{}", result.feedback);
}

#[test]
fn fails_with_one_positional_arg() {
    let result = check_first_call_expr("log.info('user_logged_in', user_id)", check_sl001);
    assert_eq!(result.status, Status::Fail, "expected SL001 to fire");
}

#[test]
fn fails_with_multiple_positional_args() {
    let result = check_first_call_expr(
        "log.info('payment_processed', user_id, order_id, 4999)",
        check_sl001,
    );
    assert_eq!(result.status, Status::Fail, "expected SL001 to fire");
}

#[test]
fn fails_with_mixed_positional_and_keyword() {
    let result = check_first_call_expr(
        "log.warning('rate_limit_exceeded', user_id, limit=100)",
        check_sl001,
    );
    assert_eq!(result.status, Status::Fail, "expected SL001 to fire");
}

#[test]
fn sl001_result_carries_its_id_and_feedback() {
    let result = check_first_call_expr("log.info('a', b)", check_sl001);
    assert_eq!(result.rule_id, "SL001");
    assert_eq!(
        result.feedback,
        "too many positional arguments; expected at most one (the event string)"
    );
    assert!(result.fix.is_none());
}

// SL002

#[test]
fn passes_with_plain_string_event() {
    let result = check_first_call_expr("log.info('user_logged_in')", check_sl002);
    assert_eq!(result.status, Status::Pass, "{}", result.feedback);
}

#[test]
fn sl002_passes_with_keyword_args_only() {
    let result = check_first_call_expr(
        "log.info('user_logged_in', user_id='u_123', ip='1.2.3.4')",
        check_sl002,
    );
    assert_eq!(result.status, Status::Pass, "{}", result.feedback);
}

#[test]
fn fails_with_f_string_but_no_interpolation() {
    let result = check_first_call_expr("log.info(f'user logged in')", check_sl002);
    assert_eq!(result.status, Status::Fail, "{}", result.feedback);
}

#[test]
fn fails_with_f_string_with_interpolation() {
    let result = check_first_call_expr(
        r#"log.warning(f"rate limit exceeded for {'u_123'}")"#,
        check_sl002,
    );
    assert_eq!(result.status, Status::Fail, "{}", result.feedback)
}

#[test]
fn fails_with_f_string_with_interpolation_log_error() {
    let result = check_first_call_expr(
        r#"log.error(f"login failed for u_123 from 1.2.3.4", exc_info=True)"#,
        check_sl002,
    );
    assert_eq!(result.status, Status::Fail, "{}", result.feedback)
}

#[test]
fn passes_when_passing_variable_as_event_arg() {
    let result = check_first_call_expr("log.info(var)", check_sl002);
    assert_eq!(result.status, Status::Pass, "{}", result.feedback)
}

#[test]
fn passes_when_constant_string_event_and_variable_kwarg() {
    let result = check_first_call_expr("log.info('user_logged_in', user_id=var)", check_sl002);
    assert_eq!(result.status, Status::Pass, "{}", result.feedback)
}

#[test]
fn passes_when_constant_string_event_and_f_string_kwarg() {
    let result = check_first_call_expr(
        "log.info('user_logged_in', user_id=f'user_{var}')",
        check_sl002,
    );
    assert_eq!(result.status, Status::Pass, "{}", result.feedback)
}

// SL003

#[test]
fn passes_with_constant_string_event() {
    let result = check_first_call_expr("log.info('user_signed_up')", check_sl003);
    assert_eq!(result.status, Status::Pass, "{}", result.feedback);
}

#[test]
fn passes_with_variable_event() {
    let result = check_first_call_expr("log.info(event)", check_sl003);
    assert_eq!(result.status, Status::Pass, "{}", result.feedback);
}

#[test]
fn fails_with_single_substitution() {
    let result = check_first_call_expr("log.info('user %s signed up' % username)", check_sl003);
    assert_eq!(result.status, Status::Fail, "{}", result.feedback);
}

#[test]
fn fails_with_multiple_substitutions() {
    let result = check_first_call_expr(
        "log.info('user %s on plan %s' % (username, plan))",
        check_sl003,
    );
    assert_eq!(result.status, Status::Fail, "{}", result.feedback);
}

#[test]
fn fails_with_tuple_substitution() {
    let result = check_first_call_expr(
        "log.info('user %s on plan %s' % (username, plan))",
        check_sl003,
    );
    assert_eq!(result.status, Status::Fail, "{}", result.feedback);
}

#[test]
fn passes_with_substitution_not_in_event() {
    let result = check_first_call_expr(
        "log.info('user_signed_up', detail='%s/%s' % ('alice', 'pro'))",
        check_sl003,
    );
    assert_eq!(result.status, Status::Pass, "{}", result.feedback);
}

#[test]
fn sl003_ignores_other_operators_and_non_literal_left_sides() {
    let result = check_first_call_expr("log.info('a' + suffix)", check_sl003);
    assert_eq!(result.status, Status::Pass, "{}", result.feedback);
    let result = check_first_call_expr("log.info(template % value)", check_sl003);
    assert_eq!(result.status, Status::Pass, "{}", result.feedback);
}

// SL004

#[test]
fn passes_with_keyword_arguments() {
    let result = check_first_call(
        "log.info('subscription_cancelled', user_id='u_123', reason='too_expensive')",
        check_sl004,
    );
    assert_eq!(result.status, Status::Pass, "{}", result.feedback);
}

#[test]
fn fails_with_positional_placeholders() {
    let result = check_first_call(
        "log.info('subscription cancelled for {}'.format('u_123'))",
        check_sl004,
    );
    assert_eq!(result.status, Status::Fail, "{}", result.feedback);
}

#[test]
fn fails_with_named_placeholders() {
    let result = check_first_call(
        "log.warning('user {user_id} cancelled: {reason}'.format(user_id='u_123', reason='too_expensive'))",
        check_sl004,
    );
    assert_eq!(result.status, Status::Fail, "{}", result.feedback);
}

#[test]
fn passes_with_positional_placeholders_in_value() {
    let result = check_first_call(
        "log.info('subscription_cancelled', summary='u={} r={}'.format('u_123', 'expensive'))",
        check_sl004,
    );
    assert_eq!(result.status, Status::Pass, "{}", result.feedback);
}

#[test]
fn fails_with_format_on_variable() {
    let result = check_first_call("log.info(var.format(user_id))", check_sl004);
    assert_eq!(result.status, Status::Fail, "{}", result.feedback);
}

// SL005

#[test]
fn passes_inside_except_block() {
    let source = r#"import structlog
log = structlog.get_logger()
try:
    pass
except Exception:
    log.exception("boom", user_id="u_123")
"#;
    let result = check_first_call(source, check_sl005);
    assert_eq!(result.status, Status::Pass, "{}", result.feedback);
}

#[test]
fn fails_outside_except_block() {
    let source = r#"import structlog
log = structlog.get_logger()
log.exception("boom", user_id="u_123")
"#;
    let result = check_first_call(source, check_sl005);
    assert_eq!(result.status, Status::Fail, "{}", result.feedback);
}

#[test]
fn passes_non_exception_call_outside_except() {
    let source = "log.error('fail', user_id='u_123')";
    let result = check_first_call(source, check_sl005);
    assert_eq!(result.status, Status::Pass, "{}", result.feedback);
}

#[test]
fn passes_exception_call_inside_except() {
    let source = r#"def send_email(user_id: str):
    try:
        pass
    except Exception:
        log.exception("email_send_failed", user_id=user_id)
        raise"#;
    let result = check_first_call(source, check_sl005);
    assert_eq!(result.status, Status::Pass, "{}", result.feedback);
}

#[test]
fn passes_exception_call_inside_nested_except() {
    let source = r#"def nested(user_id: str):
    try:
        try:
            pass
        except ValueError:
            log.exception("inner_failed", user_id=user_id)
    except Exception:
        log.exception("outer_failed", user_id=user_id)"#;
    let result = check_first_call(source, check_sl005);
    assert_eq!(result.status, Status::Pass, "{}", result.feedback);
}

// SL006

#[test]
fn passes_with_explicit_exc_info() {
    let log_call = check_first_call(
        r#"def refund_order(order_id: str):
    try:
        pass
    except ValueError:
        log.error("refund_validation_failed", order_id=order_id, exc_info=True)
        raise"#,
        check_sl006,
    );
    assert_eq!(log_call.status, Status::Pass);
}

#[test]
fn fails_with_no_explicit_exc_info() {
    let log_call = check_first_call(
        r#"def charge_card(order_id: str):
    try:
        pass
    except TimeoutError as e:
        log.error("card_charge_timed_out", order_id=order_id, error=str(e))
        raise"#,
        check_sl006,
    );
    assert_eq!(log_call.status, Status::Fail);
}

#[test]
fn passes_with_log_exception_and_no_exc_info() {
    let log_call = check_first_call(
        r#"def cancel_order(order_id: str):
    try:
        pass
    except Exception:
        log.exception("cancel_failed", order_id=order_id)
        raise"#,
        check_sl006,
    );
    assert_eq!(log_call.status, Status::Pass);
}

// SL007

fn check_sl007_with_min_level(log_level: LogLevel) -> impl Fn(&LogCall) -> RuleResult {
    move |log_call| check_sl007(log_call, log_level)
}

#[test]
fn passes_outside_loop() {
    let check = check_sl007_with_min_level(LogLevel::Info);
    let rule_result = check_first_call(
        r#"log.info("product_import_started", count=len(products))"#,
        check,
    );
    assert_eq!(rule_result.status, Status::Pass, "{}", rule_result.feedback);
}

#[test]
fn passes_inside_for_loop_with_debug_level() {
    let check = check_sl007_with_min_level(LogLevel::Info);
    let rule_result = check_first_call(
        r#"for product in products:
    log.debug("product_imported", product_id=product["id"])"#,
        check,
    );
    assert_eq!(rule_result.status, Status::Pass, "{}", rule_result.feedback);
}

#[test]
fn fails_inside_for_loop_with_info_level() {
    let check = check_sl007_with_min_level(LogLevel::Info);
    let rule_result = check_first_call(
        r#"for product in products:
    log.info("product_imported", product_id=product["id"])"#,
        check,
    );
    assert_eq!(rule_result.status, Status::Fail, "{}", rule_result.feedback);
}

#[test]
fn passes_inside_while_loop_with_debug_level() {
    let check = check_sl007_with_min_level(LogLevel::Info);
    let rule_result = check_first_call(
        r#"i = 0
while i < len(products):
    log.debug("processing_product", index=i)
    i += 1"#,
        check,
    );
    assert_eq!(rule_result.status, Status::Pass, "{}", rule_result.feedback);
}

#[test]
fn fails_inside_while_loop_with_info_level() {
    let check = check_sl007_with_min_level(LogLevel::Info);
    let rule_result = check_first_call(
        r#"i = 0
while i < len(products):
    log.info("processing_product", index=i)
    i += 1"#,
        check,
    );
    assert_eq!(rule_result.status, Status::Fail, "{}", rule_result.feedback);
}

#[test]
fn passes_inside_for_loop_else_statement() {
    let check = check_sl007_with_min_level(LogLevel::Info);
    let rule_result = check_first_call(
        r#"for x in []:
    pass
else:
    log.info("empty_loop_complete")"#,
        check,
    );
    assert_eq!(rule_result.status, Status::Pass, "{}", rule_result.feedback);
}

#[test]
fn sl007_feedback_names_the_minimum_level() {
    let check = check_sl007_with_min_level(LogLevel::Warning);
    let rule_result = check_first_call("for x in xs:\n    log.error('a')\n", check);
    assert_eq!(rule_result.status, Status::Fail);
    assert_eq!(rule_result.feedback, "logging at level `warning` or above inside a loop body");
}

// SL008

fn check_with_style(case_style: CaseStyle) -> impl Fn(&LogCall) -> RuleResult {
    move |log_call| check_sl008(log_call, case_style)
}

#[test]
fn sl008_passes_snake_case() {
    let result = check_first_call(
        r#"log.info("profile_updated", user_id="u_123")"#,
        check_with_style(CaseStyle::SnakeCase),
    );
    assert_eq!(result.status, Status::Pass, "{}", result.feedback);
}

#[test]
fn fails_pascal_case_when_snake_required() {
    let result = check_first_call(
        r#"log.info("ProfileUpdated", user_id="u_123")"#,
        check_with_style(CaseStyle::SnakeCase),
    );
    assert_eq!(result.status, Status::Fail, "{}", result.feedback);
}

#[test]
fn fails_camel_case_when_snake_required() {
    let result = check_first_call(
        r#"log.info("profileUpdated", user_id="u_123")"#,
        check_with_style(CaseStyle::SnakeCase),
    );
    assert_eq!(result.status, Status::Fail, "{}", result.feedback);
}

#[test]
fn fails_spaces_when_snake_required() {
    let result = check_first_call(
        r#"log.info("profile updated successfully", user_id="u_123")"#,
        check_with_style(CaseStyle::SnakeCase),
    );
    assert_eq!(result.status, Status::Fail, "{}", result.feedback);
}

#[test]
fn fails_kebab_case_when_snake_required() {
    let result = check_first_call(
        r#"log.info("profile-updated", user_id="u_123")"#,
        check_with_style(CaseStyle::SnakeCase),
    );
    assert_eq!(result.status, Status::Fail, "{}", result.feedback);
}

#[test]
fn fails_screaming_snake_when_snake_required() {
    let result = check_first_call(
        r#"log.info("PROFILE_UPDATED", user_id="u_123")"#,
        check_with_style(CaseStyle::SnakeCase),
    );
    assert_eq!(result.status, Status::Fail, "{}", result.feedback);
}

#[test]
fn passes_no_event_arg() {
    let result = check_first_call(
        r#"log.info(user_id="u_123")"#,
        check_with_style(CaseStyle::SnakeCase),
    );
    assert_eq!(result.status, Status::Pass, "{}", result.feedback);
}

#[test]
fn sl008_failure_carries_feedback_and_fix() {
    let result = check_first_call(
        r#"log.info("ProfileUpdated")"#,
        check_with_style(CaseStyle::SnakeCase),
    );
    assert_eq!(result.status, Status::Fail);
    assert_eq!(
        result.feedback,
        "Event string \"ProfileUpdated\" does not match snake_case style, expected \"profile_updated\""
    );
    let fix = result.fix.expect("a fix");
    assert_eq!(fix.replacement, "\"profile_updated\"");
    assert_eq!(fix.start, 9);
    assert_eq!(fix.end, 25);
}

// SL009

fn check_with_max(event_length: usize) -> impl Fn(&LogCall) -> RuleResult {
    move |log_call| check_sl009(log_call, event_length)
}

#[test]
fn sl009_passes_snake_case() {
    let result = check_first_call(
        r#"log.info("profile_updated", user_id="u_123")"#,
        check_with_max(20),
    );
    assert_eq!(result.status, Status::Pass, "{}", result.feedback);
}

#[test]
fn fails_event_string_too_long() {
    let result = check_first_call(
        r#"log.info("profile_updated_with_long_event_string", user_id="u_123")"#,
        check_with_max(20),
    );
    assert_eq!(result.status, Status::Fail, "{}", result.feedback);
}

#[test]
fn sl009_counts_characters_and_allows_the_maximum() {
    let result = check_first_call("log.info('ééééé')", check_with_max(5));
    assert_eq!(result.status, Status::Pass, "{}", result.feedback);
    let result = check_first_call("log.info('abcdef')", check_with_max(5));
    assert_eq!(result.status, Status::Fail);
    assert_eq!(result.feedback, "event string \"abcdef\" exceeds maximum length of 5");
}

// Running the selected rules

#[test]
fn sl009_default_rejects_event_over_30_chars() {
    let results = check_all_first(
        r#"log.info("this_event_string_is_thirty_five_chars")"#,
        &Config::default(),
    );
    let sl009 = results.iter().find(|r| r.rule_id == "SL009").unwrap();
    assert_eq!(
        sl009.status,
        Status::Warning,
        "a 35-char event should warn with default max of 30",
    );
}

#[test]
fn sl009_default_allows_event_under_30_chars() {
    let results = check_all_first(r#"log.info("short_event_string")"#, &Config::default());
    let sl009 = results.iter().find(|r| r.rule_id == "SL009").unwrap();
    assert_eq!(
        sl009.status,
        Status::Pass,
        "an 18-char event should pass with default max of 30",
    );
}

#[test]
fn select_runs_only_specified_rules() {
    let mut config = Config::default();
    config.select = Some(vec!["SL001".to_string()]);
    let results = check_all_first("log.info('user_logged_in', 'extra')\n", &config);
    let rule_ids: Vec<&str> = results.iter().map(|r| r.rule_id).collect();
    assert_eq!(rule_ids, vec!["SL001"]);
}

#[test]
fn ignore_skips_specified_rules() {
    let mut config = Config::default();
    config.ignore = Some(vec!["SL001".to_string()]);
    let results = check_all_first("log.info('user_logged_in', 'extra')\n", &config);
    let sl001 = results.iter().find(|r| r.rule_id == "SL001");
    assert!(sl001.is_none(), "SL001 should be skipped entirely");
}

#[test]
fn severity_off_disables_rule() {
    let mut config = Config::default();
    config.rules.insert("SL001".to_string(), RuleSeverity::Off);
    let results = check_all_first("log.info('user_logged_in', 'extra')\n", &config);
    let sl001 = results.iter().find(|r| r.rule_id == "SL001");
    assert!(sl001.is_none(), "SL001 should be disabled");
}

#[test]
fn severity_error_promotes_warning_to_fail() {
    let mut config = Config::default();
    config.rules.insert("SL009".to_string(), RuleSeverity::Error);
    let results = check_all_first("log.info(\"this_event_string_is_thirty_five_chars\")\n", &config);
    let sl009 = results.iter().find(|r| r.rule_id == "SL009").unwrap();
    assert_eq!(sl009.status, Status::Fail, "SL009 should be promoted to error");
}

#[test]
fn select_takes_precedence_over_ignore() {
    let mut config = Config::default();
    config.select = Some(vec!["SL001".to_string(), "SL002".to_string()]);
    config.ignore = Some(vec!["SL001".to_string()]);
    let results = check_all_first("log.info('user_logged_in', 'extra')\n", &config);
    let rule_ids: Vec<&str> = results.iter().map(|r| r.rule_id).collect();
    assert_eq!(rule_ids, vec!["SL002"]);
}

#[test]
fn select_multiple_rules() {
    let mut config = Config::default();
    config.select = Some(vec!["SL001".to_string(), "SL002".to_string()]);
    let results = check_all_first("log.info('user_logged_in', 'extra')\n", &config);
    let rule_ids: Vec<&str> = results.iter().map(|r| r.rule_id).collect();
    assert_eq!(rule_ids, vec!["SL001", "SL002"]);
}

#[test]
fn check_all_runs_every_rule_in_order_by_default() {
    let results = check_all_first("log.info('user_logged_in')\n", &Config::default());
    let rule_ids: Vec<&str> = results.iter().map(|r| r.rule_id).collect();
    assert_eq!(
        rule_ids,
        vec!["SL001", "SL002", "SL003", "SL004", "SL005", "SL006", "SL007", "SL008", "SL009"]
    );
    assert!(results.iter().all(|r| r.status == Status::Pass));
}

#[test]
fn warning_severity_demotes_a_failure() {
    let mut config = Config::default();
    config.rules.insert("SL001".to_string(), RuleSeverity::Warning);
    let results = check_all_first("log.info('user_logged_in', 'extra')\n", &config);
    let sl001 = results.iter().find(|r| r.rule_id == "SL001").unwrap();
    assert_eq!(sl001.status, Status::Warning);
    let sl007 = results.iter().find(|r| r.rule_id == "SL007").unwrap();
    assert_eq!(sl007.status, Status::Pass);
}

#[test]
fn sl007_fails_as_a_warning_by_default() {
    let results = check_all_first("for x in xs:\n    log.info('item_seen')\n", &Config::default());
    let sl007 = results.iter().find(|r| r.rule_id == "SL007").unwrap();
    assert_eq!(sl007.status, Status::Warning);
}

#[test]
fn sl005_passes_exception_nested_in_an_if_inside_except() {
    let source = r#"try:
    pass
except Exception:
    if retry:
        log.exception("boom")
"#;
    let result = check_first_call(source, check_sl005);
    assert_eq!(result.status, Status::Pass, "{}", result.feedback);
}

#[test]
fn sl005_decides_by_the_method_called() {
    let stmts = parse("log.exception('boom')\n");
    let calls = calls_of(&stmts);
    let as_info = LogCall::new(calls[0].call, ParentContext::Module, LogLevel::Info);
    let result = check_sl005(&as_info);
    assert_eq!(result.status, Status::Fail);
    assert_eq!(
        result.feedback,
        "log.exception() used outside of an except block. Use log.exception() only inside except handlers."
    );
    let stmts = parse("log.error('boom')\n");
    let calls = calls_of(&stmts);
    let as_exception = LogCall::new(calls[0].call, ParentContext::Module, LogLevel::Exception);
    assert_eq!(check_sl005(&as_exception).status, Status::Pass);
}

#[test]
fn sl006_fails_error_nested_in_an_if_inside_except() {
    let source = r#"try:
    pass
except Exception:
    if retry:
        log.error("boom")
"#;
    let result = check_first_call(source, check_sl006);
    assert_eq!(result.status, Status::Fail);
}

#[test]
fn is_constant_holds_for_string_literals_only() {
    let stmts = parse("log.info('a', 42, None, name, f'x')\n");
    let calls = calls_of(&stmts);
    let args: &Vec<Expression> = &calls[0].call.args;
    let got: Vec<bool> = args.iter().map(is_constant).collect();
    assert_eq!(got, vec![true, false, false, false, false]);
}
