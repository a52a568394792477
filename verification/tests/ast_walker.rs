use structloglint::ast::Statement;
use structloglint::ast_walker::collect_log_calls;
use structloglint::models::{LogCall, LogLevel, ParentContext};
use structloglint::python::parse_suite;

fn parse(source: &str) -> Vec<Statement> {
    parse_suite(source, "<test>").expect("parse failed")
}

fn calls_of(stmts: &[Statement]) -> Vec<LogCall<'_>> {
    stmts
        .iter()
        .flat_map(|s| collect_log_calls(s, ParentContext::Module))
        .collect()
}

fn find_log_calls(source: &str) -> usize {
    let stmts = parse(source);
    calls_of(&stmts).len()
}

#[test]
fn direct_log_call() {
    let source = "import structlog\nlog = structlog.get_logger()\nlog.info('payment_complete')\n";
    assert_eq!(find_log_calls(source), 1);
}

#[test]
fn direct_log_call_multiple_levels() {
    let source = r#"import structlog
log = structlog.get_logger()
log.info("a")
log.debug("b")
log.warning("c")
log.error("d")
log.exception("e")
log.critical("f")
"#;
    assert_eq!(find_log_calls(source), 6);
}

#[test]
fn ignore_non_structlog_print() {
    let source = "print('hello')\n";
    assert_eq!(find_log_calls(source), 0);
}

#[test]
fn ignore_non_log_attribute() {
    let source = "obj = object()\nobj.attr()\n";
    assert_eq!(find_log_calls(source), 0);
}

#[test]
fn inside_if_statement() {
    let source = r#"import structlog
log = structlog.get_logger()
if True:
    log.info("a")
"#;
    assert_eq!(find_log_calls(source), 1);
}

#[test]
fn inside_nested_if() {
    let source = r#"import structlog
log = structlog.get_logger()
if True:
    if True:
        log.info("nested")
"#;
    assert_eq!(find_log_calls(source), 1);
}

#[test]
fn inside_function_def() {
    let source = r#"import structlog
log = structlog.get_logger()
def foo():
    log.info("bar")
"#;
    assert_eq!(find_log_calls(source), 1);
}

#[test]
fn inside_for_loop() {
    let source = r#"import structlog
log = structlog.get_logger()
for i in []:
    log.debug("iter")
"#;
    assert_eq!(find_log_calls(source), 1);
}

#[test]
fn inside_for_orelse() {
    let source = r#"import structlog
log = structlog.get_logger()
for i in []:
    var = 1+1
else:
    log.info("else")
"#;
    assert_eq!(find_log_calls(source), 1);
}

#[test]
fn inside_while_loop() {
    let source = r#"import structlog
log = structlog.get_logger()
while False:
    log.warning("never")
"#;
    assert_eq!(find_log_calls(source), 1);
}

#[test]
fn inside_try_and_except_and_finally() {
    let source = r#"import structlog
log = structlog.get_logger()
try:
    log.info("a")
except:
    log.error("b")
finally:
    log.debug("c")
"#;
    assert_eq!(find_log_calls(source), 3);
}

#[test]
fn inside_with_statement() {
    let source = r#"import structlog
log = structlog.get_logger()
with open(""):
    log.info("inside")
"#;
    assert_eq!(find_log_calls(source), 1);
}

#[test]
fn inside_class_method() {
    let source = r#"import structlog
log = structlog.get_logger()
class Foo:
    def method(self):
        log.info("inside")
"#;
    assert_eq!(find_log_calls(source), 1);
}

#[test]
fn deep_nesting() {
    let source = r#"import structlog
log = structlog.get_logger()
def f():
    for i in []:
        if True:
            try:
                log.info("a")
            except:
                log.error("b")
            finally:
                log.debug("c")
"#;
    assert_eq!(find_log_calls(source), 3);
}

#[test]
fn context_except_block() {
    let source = r#"import structlog
log = structlog.get_logger()
try:
    pass
except:
    log.exception("boom")
"#;
    let stmts = parse(source);
    let calls = calls_of(&stmts);
    assert_eq!(calls.len(), 1);
    assert_eq!(calls[0].context, ParentContext::Except);
}

#[test]
fn context_for_loop() {
    let source = r#"import structlog
log = structlog.get_logger()
for i in []:
    log.info("x")
"#;
    let stmts = parse(source);
    let calls = calls_of(&stmts);
    assert_eq!(calls.len(), 1);
    assert_eq!(calls[0].context, ParentContext::For);
}

#[test]
fn context_while_loop() {
    let source = r#"import structlog
log = structlog.get_logger()
while True:
    log.info("x")
"#;
    let stmts = parse(source);
    let calls = calls_of(&stmts);
    assert_eq!(calls.len(), 1);
    assert_eq!(calls[0].context, ParentContext::While);
}

#[test]
fn context_module_level() {
    let source = "import structlog\nlog = structlog.get_logger()\nlog.info('hi')\n";
    let stmts = parse(source);
    let calls = calls_of(&stmts);
    assert_eq!(calls.len(), 1);
    assert_eq!(calls[0].context, ParentContext::Module);
}

#[test]
fn context_nested_retains_deepest() {
    let source = r#"import structlog
log = structlog.get_logger()
for i in []:
    if True:
        try:
            pass
        except:
            log.exception("inside except")
"#;
    let stmts = parse(source);
    let calls = calls_of(&stmts);
    assert_eq!(calls.len(), 1);
    assert_eq!(calls[0].context, ParentContext::Except);
}

#[test]
fn collected_calls_carry_the_level_of_their_method() {
    let source = r#"log.info("a")
logger.debug("b")
self.logger.warning("c")
LOG.error("d")
app_logger.critical("e")
log.exception("f")
log.trace("g")
"#;
    let stmts = parse(source);
    let calls = calls_of(&stmts);
    let levels: Vec<LogLevel> = calls.iter().map(|c| c.level).collect();
    assert_eq!(
        levels,
        vec![
            LogLevel::Info,
            LogLevel::Debug,
            LogLevel::Warning,
            LogLevel::Error,
            LogLevel::Critical,
            LogLevel::Exception,
            LogLevel::Trace,
        ]
    );
}

#[test]
fn receivers_outside_the_naming_convention_are_skipped() {
    let source = "client.info('a')\nlog.fetch('b')\nthing.info('c')\nself.audit.info('d')\nlog.info('e')\n";
    let stmts = parse(source);
    let calls = calls_of(&stmts);
    assert_eq!(calls.len(), 1);
    assert_eq!(calls[0].level, LogLevel::Info);
}

#[test]
fn async_blocks_are_walked_and_try_else_is_not() {
    let source = r#"async def f():
    async for x in xs:
        log.info("in_async_for")
    async with lock:
        log.info("in_async_with")
try:
    pass
except:
    pass
else:
    log.info("in_try_else")
"#;
    let stmts = parse(source);
    let calls = calls_of(&stmts);
    assert_eq!(calls.len(), 2);
    assert_eq!(calls[0].context, ParentContext::For);
    assert_eq!(calls[1].context, ParentContext::With);
}

#[test]
fn calls_come_in_source_order_with_try_handlers_last() {
    let source = r#"try:
    log.info("body")
except ValueError:
    log.error("handler")
finally:
    log.debug("final")
"#;
    let stmts = parse(source);
    let calls = calls_of(&stmts);
    let levels: Vec<LogLevel> = calls.iter().map(|c| c.level).collect();
    assert_eq!(levels, vec![LogLevel::Info, LogLevel::Debug, LogLevel::Error]);
    assert_eq!(calls[2].context, ParentContext::Except);
    assert_eq!(calls[0].context, ParentContext::Module);
}

#[test]
fn calls_anywhere_inside_an_except_clause_are_marked() {
    let source = r#"try:
    log.info("body")
except ValueError:
    log.error("direct")
    for x in xs:
        if x:
            log.exception("nested")
finally:
    log.debug("final")
log.info("after")
"#;
    let stmts = parse(source);
    let calls = calls_of(&stmts);
    let marks: Vec<(ParentContext, bool)> = calls.iter().map(|c| (c.context, c.inside_except)).collect();
    assert_eq!(
        marks,
        vec![
            (ParentContext::Module, false),
            (ParentContext::Module, false),
            (ParentContext::Except, true),
            (ParentContext::If, true),
            (ParentContext::Module, false),
        ]
    );
}

#[test]
fn collecting_from_an_except_block_marks_its_calls() {
    let stmts = parse("log.error('a')\n");
    let calls = collect_log_calls(&stmts[0], ParentContext::Except);
    assert!(calls[0].inside_except);
    let calls = collect_log_calls(&stmts[0], ParentContext::If);
    assert!(!calls[0].inside_except);
}
