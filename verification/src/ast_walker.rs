//! Finding the structlog log calls in a module, each with the kind of
//! block around it.
//!
//! A call `X.method(...)` is a log call when `method` is a log level name
//! and `X` follows the logger naming convention: a name, or the last
//! attribute of a chain, that starts with `log` or `LOG` or ends with
//! `logger` or `LOGGER`.

use vstd::prelude::*;

use crate::ast::{ExceptClause, Expression, CallExpr, Statement};
use crate::models::{log_call_views, LogCall, LogCallView, LogLevel, ParentContext};
use crate::text::{seq_ends_with, seq_starts_with, str_ends_with, str_starts_with};

verus! {

/// A name follows the logger naming convention.
pub open spec fn is_logger_name(n: Seq<char>) -> bool {
    ||| seq_starts_with(n, "log"@)
    ||| seq_starts_with(n, "LOG"@)
    ||| seq_ends_with(n, "logger"@)
    ||| seq_ends_with(n, "LOGGER"@)
}

/// The receiver of a method call is a logger: a name, or an attribute
/// chain whose last attribute, follows the naming convention.
pub open spec fn is_logger_expr(e: Expression) -> bool {
    match e {
        Expression::Name { id } => is_logger_name(id@),
        Expression::Attribute { attr, .. } => is_logger_name(attr@),
        _ => false,
    }
}

/// The level a call logs at, when it is a log call.
pub open spec fn spec_call_level(call: CallExpr) -> Option<LogLevel> {
    match *call.func {
        Expression::Attribute { value, attr } => if is_logger_expr(*value) {
            LogLevel::spec_parse(attr@)
        } else {
            None
        },
        _ => None,
    }
}

/// The log calls of a statement, in source order, each with the
/// innermost enclosing block kind and whether some enclosing block is an
/// `except` clause; `parent` is the kind of the block the statement
/// stands in, and `in_except` whether that block is inside an `except`
/// clause (or is one).
pub open spec fn spec_collect_stmt(stmt: Statement, parent: ParentContext, in_except: bool) -> Seq<LogCallView>
    decreases stmt,
{
    match stmt {
        Statement::Expression(e) => match e {
            Expression::Call(call) => match spec_call_level(call) {
                Some(level) => seq![LogCallView { call, context: parent, level, inside_except: in_except }],
                None => seq![],
            },
            _ => seq![],
        },
        Statement::If { body, orelse } => spec_collect_suite(body@, ParentContext::If, in_except)
            + spec_collect_suite(orelse@, parent, in_except),
        Statement::FunctionDef { body } => spec_collect_suite(body@, ParentContext::Function, in_except),
        Statement::AsyncFunctionDef { body } => spec_collect_suite(body@, ParentContext::Function, in_except),
        Statement::ClassDef { body } => spec_collect_suite(body@, ParentContext::Class, in_except),
        Statement::For { body, orelse } => spec_collect_suite(body@, ParentContext::For, in_except)
            + spec_collect_suite(orelse@, parent, in_except),
        Statement::AsyncFor { body, orelse } => spec_collect_suite(body@, ParentContext::For, in_except)
            + spec_collect_suite(orelse@, parent, in_except),
        Statement::While { body, orelse } => spec_collect_suite(body@, ParentContext::While, in_except)
            + spec_collect_suite(orelse@, parent, in_except),
        Statement::Try { body, handlers, orelse, finalbody } => spec_collect_suite(body@, parent, in_except)
            + spec_collect_suite(finalbody@, parent, in_except) + spec_collect_handlers(handlers@),
        Statement::With { body } => spec_collect_suite(body@, ParentContext::With, in_except),
        Statement::AsyncWith { body } => spec_collect_suite(body@, ParentContext::With, in_except),
        _ => seq![],
    }
}

/// The log calls of a sequence of statements, in order.
pub open spec fn spec_collect_suite(stmts: Seq<Statement>, parent: ParentContext, in_except: bool) -> Seq<LogCallView>
    decreases stmts,
{
    if stmts.len() == 0 {
        seq![]
    } else {
        spec_collect_suite(stmts.drop_last(), parent, in_except) + spec_collect_stmt(stmts.last(), parent, in_except)
    }
}

/// The log calls of the `except` clauses of a `try`, in order.
pub open spec fn spec_collect_handlers(handlers: Seq<ExceptClause>) -> Seq<LogCallView>
    decreases handlers,
{
    if handlers.len() == 0 {
        seq![]
    } else {
        spec_collect_handlers(handlers.drop_last())
            + spec_collect_suite(handlers.last().body@, ParentContext::Except, true)
    }
}

} // verus!

verus! {

/// Whether a name follows the logger naming convention.
pub fn logger_name_matches(n: &str) -> (r: bool)
    ensures
        r == is_logger_name(n@),
{
    str_starts_with(n, "log") || str_starts_with(n, "LOG") || str_ends_with(n, "logger")
        || str_ends_with(n, "LOGGER")
}

/// The level a call logs at, or `None` when it is not a log call.
pub fn call_log_level(call: &CallExpr) -> (r: Option<LogLevel>)
    ensures
        r == spec_call_level(*call),
{
    match &*call.func {
        Expression::Attribute { value, attr } => {
            let receiver_is_logger = match &**value {
                Expression::Name { id } => logger_name_matches(id.as_str()),
                Expression::Attribute { attr: last, .. } => logger_name_matches(last.as_str()),
                _ => false,
            };
            if receiver_is_logger {
                LogLevel::parse(attr.as_str())
            } else {
                None
            }
        },
        _ => None,
    }
}

proof fn lemma_views_push<'a>(calls: Seq<LogCall<'a>>, c: LogCall<'a>)
    ensures
        log_call_views(calls.push(c)) == log_call_views(calls).push(c@),
{
    assert(log_call_views(calls.push(c)) =~= log_call_views(calls).push(c@));
}

fn collect_stmt_into<'a>(stmt: &'a Statement, parent: ParentContext, in_except: bool, out: &mut Vec<LogCall<'a>>)
    ensures
        log_call_views(final(out)@) == log_call_views(old(out)@) + spec_collect_stmt(*stmt, parent, in_except),
    decreases stmt,
{
    let ghost start = out@;
    match stmt {
        Statement::Expression(e) => {
            match e {
                Expression::Call(call) => {
                    match call_log_level(call) {
                        Some(level) => {
                            let lc = LogCall { call, context: parent, level, inside_except: in_except };
                            out.push(lc);
                            proof {
                                lemma_views_push(start, lc);
                            }
                        },
                        None => {
                            assert(log_call_views(start) + seq![] =~= log_call_views(start));
                        },
                    }
                },
                _ => {
                    assert(log_call_views(start) + seq![] =~= log_call_views(start));
                },
            }
        },
        Statement::If { body, orelse } => {
            collect_suite_into(body, ParentContext::If, in_except, out);
            collect_suite_into(orelse, parent, in_except, out);
        },
        Statement::FunctionDef { body } => {
            collect_suite_into(body, ParentContext::Function, in_except, out);
        },
        Statement::AsyncFunctionDef { body } => {
            collect_suite_into(body, ParentContext::Function, in_except, out);
        },
        Statement::ClassDef { body } => {
            collect_suite_into(body, ParentContext::Class, in_except, out);
        },
        Statement::For { body, orelse } => {
            collect_suite_into(body, ParentContext::For, in_except, out);
            collect_suite_into(orelse, parent, in_except, out);
        },
        Statement::AsyncFor { body, orelse } => {
            collect_suite_into(body, ParentContext::For, in_except, out);
            collect_suite_into(orelse, parent, in_except, out);
        },
        Statement::While { body, orelse } => {
            collect_suite_into(body, ParentContext::While, in_except, out);
            collect_suite_into(orelse, parent, in_except, out);
        },
        Statement::Try { body, handlers, finalbody, .. } => {
            collect_suite_into(body, parent, in_except, out);
            collect_suite_into(finalbody, parent, in_except, out);
            collect_handlers_into(handlers, out);
        },
        Statement::With { body } => {
            collect_suite_into(body, ParentContext::With, in_except, out);
        },
        Statement::AsyncWith { body } => {
            collect_suite_into(body, ParentContext::With, in_except, out);
        },
        _ => {
            assert(log_call_views(start) + seq![] =~= log_call_views(start));
        },
    }
}

pub(crate) fn collect_suite_into<'a>(
    stmts: &'a Vec<Statement>,
    parent: ParentContext,
    in_except: bool,
    out: &mut Vec<LogCall<'a>>,
)
    ensures
        log_call_views(final(out)@) == log_call_views(old(out)@) + spec_collect_suite(stmts@, parent, in_except),
    decreases stmts,
{
    let ghost start = out@;
    let n = stmts.len();
    let mut i: usize = 0;
    assert(stmts@.take(0) =~= Seq::<Statement>::empty());
    assert(log_call_views(start) + seq![] =~= log_call_views(start));
    while i < n
        invariant
            n == stmts@.len(),
            i <= n,
            log_call_views(out@) == log_call_views(start) + spec_collect_suite(
                stmts@.take(i as int),
                parent,
                in_except,
            ),
        decreases n - i,
    {
        assert(decreases_to!(stmts => stmts@[i as int]));
        collect_stmt_into(&stmts[i], parent, in_except, out);
        assert(stmts@.take(i + 1).drop_last() =~= stmts@.take(i as int));
        i = i + 1;
    }
    assert(stmts@.take(n as int) =~= stmts@);
}

fn collect_handlers_into<'a>(handlers: &'a Vec<ExceptClause>, out: &mut Vec<LogCall<'a>>)
    ensures
        log_call_views(final(out)@) == log_call_views(old(out)@) + spec_collect_handlers(handlers@),
    decreases handlers,
{
    let ghost start = out@;
    let n = handlers.len();
    let mut i: usize = 0;
    assert(handlers@.take(0) =~= Seq::<ExceptClause>::empty());
    assert(log_call_views(start) + seq![] =~= log_call_views(start));
    while i < n
        invariant
            n == handlers@.len(),
            i <= n,
            log_call_views(out@) == log_call_views(start) + spec_collect_handlers(
                handlers@.take(i as int),
            ),
        decreases n - i,
    {
        collect_suite_into(&handlers[i].body, ParentContext::Except, true, out);
        assert(handlers@.take(i + 1).drop_last() =~= handlers@.take(i as int));
        i = i + 1;
    }
    assert(handlers@.take(n as int) =~= handlers@);
}

/// Collects the log calls of a statement, in source order, each paired
/// with the innermost enclosing block kind, whether it stands inside an
/// `except` clause, and its level; `parent` is the kind of the block the
/// statement stands in, which counts as inside an `except` clause when it
/// is one.
pub fn collect_log_calls<'a>(stmt: &'a Statement, parent: ParentContext) -> (r: Vec<LogCall<'a>>)
    ensures
        log_call_views(r@) == spec_collect_stmt(*stmt, parent, parent == ParentContext::Except),
{
    let mut out: Vec<LogCall<'a>> = Vec::new();
    let in_except = parent == ParentContext::Except;
    collect_stmt_into(stmt, parent, in_except, &mut out);
    assert(log_call_views(Seq::<LogCall<'a>>::empty()) =~= Seq::<LogCallView>::empty());
    assert(Seq::<LogCallView>::empty() + spec_collect_stmt(*stmt, parent, in_except) =~= spec_collect_stmt(
        *stmt,
        parent,
        in_except,
    ));
    out
}


/// Every entry of `calls` is a log call at the level its method names;
/// one whose innermost block is an `except` clause, or that stands in
/// code inside one (`in_except`), is marked as inside an `except` clause.
pub open spec fn calls_well_formed(calls: Seq<LogCallView>, in_except: bool) -> bool {
    forall|i: int| 0 <= i < calls.len() ==> {
        &&& spec_call_level(#[trigger] calls[i].call) == Some(calls[i].level)
        &&& calls[i].context == ParentContext::Except ==> calls[i].inside_except
        &&& in_except ==> calls[i].inside_except
    }
}

proof fn lemma_well_formed_concat(a: Seq<LogCallView>, b: Seq<LogCallView>, in_except: bool)
    requires
        calls_well_formed(a, in_except),
        calls_well_formed(b, in_except),
    ensures
        calls_well_formed(a + b, in_except),
{
    assert forall|i: int| 0 <= i < (a + b).len() implies {
        &&& spec_call_level(#[trigger] (a + b)[i].call) == Some((a + b)[i].level)
        &&& (a + b)[i].context == ParentContext::Except ==> (a + b)[i].inside_except
        &&& in_except ==> (a + b)[i].inside_except
    } by {
        if i < a.len() {
            assert((a + b)[i] == a[i]);
        } else {
            assert((a + b)[i] == b[i - a.len()]);
        }
    }
}

proof fn lemma_well_formed_weaken(a: Seq<LogCallView>)
    requires
        calls_well_formed(a, true),
    ensures
        calls_well_formed(a, false),
{
}

proof fn lemma_stmt_calls(stmt: Statement, parent: ParentContext, in_except: bool)
    requires
        parent == ParentContext::Except ==> in_except,
    ensures
        calls_well_formed(spec_collect_stmt(stmt, parent, in_except), in_except),
    decreases stmt,
{
    match stmt {
        Statement::If { body, orelse } => {
            lemma_suite_calls(body@, ParentContext::If, in_except);
            lemma_suite_calls(orelse@, parent, in_except);
            lemma_well_formed_concat(
                spec_collect_suite(body@, ParentContext::If, in_except),
                spec_collect_suite(orelse@, parent, in_except),
                in_except,
            );
        },
        Statement::FunctionDef { body } => lemma_suite_calls(body@, ParentContext::Function, in_except),
        Statement::AsyncFunctionDef { body } => lemma_suite_calls(body@, ParentContext::Function, in_except),
        Statement::ClassDef { body } => lemma_suite_calls(body@, ParentContext::Class, in_except),
        Statement::For { body, orelse } => {
            lemma_suite_calls(body@, ParentContext::For, in_except);
            lemma_suite_calls(orelse@, parent, in_except);
            lemma_well_formed_concat(
                spec_collect_suite(body@, ParentContext::For, in_except),
                spec_collect_suite(orelse@, parent, in_except),
                in_except,
            );
        },
        Statement::AsyncFor { body, orelse } => {
            lemma_suite_calls(body@, ParentContext::For, in_except);
            lemma_suite_calls(orelse@, parent, in_except);
            lemma_well_formed_concat(
                spec_collect_suite(body@, ParentContext::For, in_except),
                spec_collect_suite(orelse@, parent, in_except),
                in_except,
            );
        },
        Statement::While { body, orelse } => {
            lemma_suite_calls(body@, ParentContext::While, in_except);
            lemma_suite_calls(orelse@, parent, in_except);
            lemma_well_formed_concat(
                spec_collect_suite(body@, ParentContext::While, in_except),
                spec_collect_suite(orelse@, parent, in_except),
                in_except,
            );
        },
        Statement::Try { body, handlers, orelse, finalbody } => {
            lemma_suite_calls(body@, parent, in_except);
            lemma_suite_calls(finalbody@, parent, in_except);
            lemma_handlers_calls(handlers@);
            if !in_except {
                lemma_well_formed_weaken(spec_collect_handlers(handlers@));
            }
            lemma_well_formed_concat(
                spec_collect_suite(body@, parent, in_except),
                spec_collect_suite(finalbody@, parent, in_except),
                in_except,
            );
            lemma_well_formed_concat(
                spec_collect_suite(body@, parent, in_except) + spec_collect_suite(finalbody@, parent, in_except),
                spec_collect_handlers(handlers@),
                in_except,
            );
        },
        Statement::With { body } => lemma_suite_calls(body@, ParentContext::With, in_except),
        Statement::AsyncWith { body } => lemma_suite_calls(body@, ParentContext::With, in_except),
        _ => {},
    }
}

proof fn lemma_suite_calls(stmts: Seq<Statement>, parent: ParentContext, in_except: bool)
    requires
        parent == ParentContext::Except ==> in_except,
    ensures
        calls_well_formed(spec_collect_suite(stmts, parent, in_except), in_except),
    decreases stmts,
{
    if stmts.len() > 0 {
        lemma_suite_calls(stmts.drop_last(), parent, in_except);
        lemma_stmt_calls(stmts.last(), parent, in_except);
        lemma_well_formed_concat(
            spec_collect_suite(stmts.drop_last(), parent, in_except),
            spec_collect_stmt(stmts.last(), parent, in_except),
            in_except,
        );
    }
}

proof fn lemma_handlers_calls(handlers: Seq<ExceptClause>)
    ensures
        calls_well_formed(spec_collect_handlers(handlers), true),
    decreases handlers,
{
    if handlers.len() > 0 {
        lemma_handlers_calls(handlers.drop_last());
        lemma_suite_calls(handlers.last().body@, ParentContext::Except, true);
        lemma_well_formed_concat(
            spec_collect_handlers(handlers.drop_last()),
            spec_collect_suite(handlers.last().body@, ParentContext::Except, true),
            true,
        );
    }
}

/// Every call that the walker collects from a statement is a method call
/// on a receiver that follows the logger naming convention, and the level
/// it carries is the one its method names. A call whose innermost block
/// is an `except` clause, or that stands anywhere inside one (here: the
/// statement itself stands inside one when `in_except` holds), is marked
/// as inside an `except` clause.
pub proof fn law_collected_calls_are_log_calls(stmt: Statement, parent: ParentContext, in_except: bool)
    requires
        parent == ParentContext::Except ==> in_except,
    ensures
        forall|i: int| 0 <= i < spec_collect_stmt(stmt, parent, in_except).len() ==> {
            let c = #[trigger] spec_collect_stmt(stmt, parent, in_except)[i];
            &&& spec_call_level(c.call) == Some(c.level)
            &&& c.context == ParentContext::Except ==> c.inside_except
            &&& in_except ==> c.inside_except
        },
{
    lemma_stmt_calls(stmt, parent, in_except);
}

/// The kind of block a compound statement opens, and the statements of
/// that block: the body of an `if`, of a `for` or `async for` loop, of a
/// `while` loop, of a `with` or `async with`, of a function or of a class.
pub open spec fn block_of(stmt: Statement) -> Option<(ParentContext, Seq<Statement>)> {
    match stmt {
        Statement::If { body, .. } => Some((ParentContext::If, body@)),
        Statement::For { body, .. } => Some((ParentContext::For, body@)),
        Statement::AsyncFor { body, .. } => Some((ParentContext::For, body@)),
        Statement::While { body, .. } => Some((ParentContext::While, body@)),
        Statement::With { body } => Some((ParentContext::With, body@)),
        Statement::AsyncWith { body } => Some((ParentContext::With, body@)),
        Statement::FunctionDef { body } => Some((ParentContext::Function, body@)),
        Statement::AsyncFunctionDef { body } => Some((ParentContext::Function, body@)),
        Statement::ClassDef { body } => Some((ParentContext::Class, body@)),
        _ => None,
    }
}

proof fn lemma_contains_left(a: Seq<LogCallView>, b: Seq<LogCallView>, v: LogCallView)
    requires
        a.contains(v),
    ensures
        (a + b).contains(v),
{
    let k = choose|k: int| 0 <= k < a.len() && a[k] == v;
    assert((a + b)[k] == v);
}

proof fn lemma_contains_right(a: Seq<LogCallView>, b: Seq<LogCallView>, v: LogCallView)
    requires
        b.contains(v),
    ensures
        (a + b).contains(v),
{
    let k = choose|k: int| 0 <= k < b.len() && b[k] == v;
    assert((a + b)[a.len() + k] == v);
}

/// A log call statement `stmts[j]` of a block is collected with the
/// block's kind.
proof fn lemma_suite_direct_call(
    stmts: Seq<Statement>,
    parent: ParentContext,
    in_except: bool,
    j: int,
    call: CallExpr,
)
    requires
        0 <= j < stmts.len(),
        stmts[j] == Statement::Expression(Expression::Call(call)),
        spec_call_level(call) is Some,
    ensures
        spec_collect_suite(stmts, parent, in_except).contains(
            LogCallView { call, context: parent, level: spec_call_level(call).unwrap(), inside_except: in_except },
        ),
    decreases stmts.len(),
{
    let v = LogCallView {
        call,
        context: parent,
        level: spec_call_level(call).unwrap(),
        inside_except: in_except,
    };
    let prev = spec_collect_suite(stmts.drop_last(), parent, in_except);
    let last = spec_collect_stmt(stmts.last(), parent, in_except);
    if j == stmts.len() - 1 {
        assert(last == seq![v]);
        assert(last[0] == v);
        lemma_contains_right(prev, last, v);
    } else {
        assert(stmts.drop_last()[j] == stmts[j]);
        lemma_suite_direct_call(stmts.drop_last(), parent, in_except, j, call);
        lemma_contains_left(prev, last, v);
    }
}

/// A log call that stands directly in the block of an `if`, a loop, a
/// `with`, a function or a class is collected with that block's kind as
/// its context (`For` for both kinds of `for` loop, `With` for both kinds
/// of `with`), at the level its method names, and inside an `except`
/// clause exactly when the statement is.
pub proof fn law_direct_call_gets_block_context(
    stmt: Statement,
    parent: ParentContext,
    in_except: bool,
    j: int,
    call: CallExpr,
)
    requires
        block_of(stmt) is Some,
        0 <= j < block_of(stmt).unwrap().1.len(),
        block_of(stmt).unwrap().1[j] == Statement::Expression(Expression::Call(call)),
        spec_call_level(call) is Some,
    ensures
        spec_collect_stmt(stmt, parent, in_except).contains(
            LogCallView {
                call,
                context: block_of(stmt).unwrap().0,
                level: spec_call_level(call).unwrap(),
                inside_except: in_except,
            },
        ),
{
    let (ctx, body) = block_of(stmt).unwrap();
    let v = LogCallView { call, context: ctx, level: spec_call_level(call).unwrap(), inside_except: in_except };
    lemma_suite_direct_call(body, ctx, in_except, j, call);
    match stmt {
        Statement::If { body, orelse } => {
            lemma_contains_left(spec_collect_suite(body@, ctx, in_except), spec_collect_suite(orelse@, parent, in_except), v);
        },
        Statement::For { body, orelse } => {
            lemma_contains_left(spec_collect_suite(body@, ctx, in_except), spec_collect_suite(orelse@, parent, in_except), v);
        },
        Statement::AsyncFor { body, orelse } => {
            lemma_contains_left(spec_collect_suite(body@, ctx, in_except), spec_collect_suite(orelse@, parent, in_except), v);
        },
        Statement::While { body, orelse } => {
            lemma_contains_left(spec_collect_suite(body@, ctx, in_except), spec_collect_suite(orelse@, parent, in_except), v);
        },
        _ => {},
    }
}

proof fn lemma_handlers_direct_call(handlers: Seq<ExceptClause>, h: int, j: int, call: CallExpr)
    requires
        0 <= h < handlers.len(),
        0 <= j < handlers[h].body@.len(),
        handlers[h].body@[j] == Statement::Expression(Expression::Call(call)),
        spec_call_level(call) is Some,
    ensures
        spec_collect_handlers(handlers).contains(
            LogCallView {
                call,
                context: ParentContext::Except,
                level: spec_call_level(call).unwrap(),
                inside_except: true,
            },
        ),
    decreases handlers.len(),
{
    let v = LogCallView {
        call,
        context: ParentContext::Except,
        level: spec_call_level(call).unwrap(),
        inside_except: true,
    };
    let prev = spec_collect_handlers(handlers.drop_last());
    let last = spec_collect_suite(handlers.last().body@, ParentContext::Except, true);
    if h == handlers.len() - 1 {
        lemma_suite_direct_call(handlers.last().body@, ParentContext::Except, true, j, call);
        lemma_contains_right(prev, last, v);
    } else {
        assert(handlers.drop_last()[h] == handlers[h]);
        lemma_handlers_direct_call(handlers.drop_last(), h, j, call);
        lemma_contains_left(prev, last, v);
    }
}

/// A log call that stands directly in an `except` clause of a `try` is
/// collected with context `Except` and marked as inside an `except`
/// clause, whatever block the `try` stands in.
pub proof fn law_direct_call_in_handler(
    body: Vec<Statement>,
    handlers: Vec<ExceptClause>,
    orelse: Vec<Statement>,
    finalbody: Vec<Statement>,
    parent: ParentContext,
    in_except: bool,
    h: int,
    j: int,
    call: CallExpr,
)
    requires
        0 <= h < handlers@.len(),
        0 <= j < handlers@[h].body@.len(),
        handlers@[h].body@[j] == Statement::Expression(Expression::Call(call)),
        spec_call_level(call) is Some,
    ensures
        spec_collect_stmt(Statement::Try { body, handlers, orelse, finalbody }, parent, in_except).contains(
            LogCallView {
                call,
                context: ParentContext::Except,
                level: spec_call_level(call).unwrap(),
                inside_except: true,
            },
        ),
{
    let v = LogCallView {
        call,
        context: ParentContext::Except,
        level: spec_call_level(call).unwrap(),
        inside_except: true,
    };
    lemma_handlers_direct_call(handlers@, h, j, call);
    lemma_contains_right(
        spec_collect_suite(body@, parent, in_except) + spec_collect_suite(finalbody@, parent, in_except),
        spec_collect_handlers(handlers@),
        v,
    );
}

/// The method name of a call `X.m(...)`.
pub open spec fn method_name(call: CallExpr) -> Option<Seq<char>> {
    match *call.func {
        Expression::Attribute { attr, .. } => Some(attr@),
        _ => None,
    }
}

/// The name of the receiver of a call `X.m(...)`: `X` when it is a bare
/// name, its last attribute when it is an attribute chain `a.b.X`.
pub open spec fn receiver_name(call: CallExpr) -> Option<Seq<char>> {
    match *call.func {
        Expression::Attribute { value, .. } => match *value {
            Expression::Name { id } => Some(id@),
            Expression::Attribute { attr, .. } => Some(attr@),
            _ => None,
        },
        _ => None,
    }
}

/// The logger naming convention decides which calls are log calls: a
/// call `X.m(...)` whose method `m` names a level is a log call at that
/// level exactly when the name of `X` starts with `log` or `LOG` or ends
/// with `logger` or `LOGGER` (e.g. `log`, `LOGGER`, `app_logger`,
/// `_LOGGER`, `self.logger`); no other call is one.
pub proof fn law_logger_naming_convention(call: CallExpr)
    ensures
        spec_call_level(call) is Some ==> receiver_name(call) is Some && method_name(call) is Some,
        match (receiver_name(call), method_name(call)) {
            (Some(n), Some(m)) => spec_call_level(call) == if seq_starts_with(n, "log"@) || seq_starts_with(
                n,
                "LOG"@,
            ) || seq_ends_with(n, "logger"@) || seq_ends_with(n, "LOGGER"@) {
                LogLevel::spec_parse(m)
            } else {
                None
            },
            _ => spec_call_level(call) is None,
        },
{
}

} // verus!
