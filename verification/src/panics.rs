//! Panic/unsafe-pattern detector.
//!
//! Finds three syntactic shapes inside every function body — free functions
//! and `impl`-block functions alike: a macro invocation named `panic`, a
//! method call named `unwrap`, and a method call named `expect`.  The walk
//! descends into blocks, `if`/`else` branches, `match` arms, call arguments,
//! and method-call receivers and arguments, so nested and chained occurrences
//! are all found.  Every occurrence yields its
//! own issue; there is no deduplication.  Output follows traversal order:
//! declaration order, then depth first.

use vstd::prelude::*;

use crate::ast::{Expr, FnDef, Item, SourceFile, Stmt};
use crate::findings::{PanicIssue, PanicIssueV};
use crate::strutil::{is_ident, spec_is_ident, str_eq};

verus! {

/// The issue recorded for one occurrence: tagged with the enclosing
/// function's name, which also serves as the location.
pub open spec fn panic_issue_v(fn_name: Seq<char>, kind: Seq<char>) -> PanicIssueV {
    PanicIssueV { function_name: fn_name, issue_type: kind, location: fn_name }
}

/// Issues arising from one expression, in traversal order.
pub open spec fn expr_panic_issues(e: Expr, fn_name: Seq<char>) -> Seq<PanicIssueV>
    decreases e,
{
    match e {
        Expr::MacroCall { path, .. } => {
            if spec_is_ident(path.deep_view(), "panic"@) {
                seq![panic_issue_v(fn_name, "panic!"@)]
            } else {
                Seq::empty()
            }
        },
        Expr::MethodCall { name, receiver, args } => {
            let own = if name@ == "unwrap"@ || name@ == "expect"@ {
                seq![panic_issue_v(fn_name, name@)]
            } else {
                Seq::<PanicIssueV>::empty()
            };
            own + expr_panic_issues(*receiver, fn_name) + exprs_panic_issues(args@, fn_name)
        },
        Expr::Call { args, .. } => exprs_panic_issues(args@, fn_name),
        Expr::Block { stmts } => stmts_panic_issues(stmts@, fn_name),
        Expr::If { cond, then_branch, else_branch } => {
            let from_else = match else_branch {
                Some(e2) => expr_panic_issues(*e2, fn_name),
                None => Seq::<PanicIssueV>::empty(),
            };
            expr_panic_issues(*cond, fn_name) + stmts_panic_issues(then_branch@, fn_name)
                + from_else
        },
        Expr::Match { scrutinee, arms } => expr_panic_issues(*scrutinee, fn_name)
            + exprs_panic_issues(arms@, fn_name),
        _ => Seq::empty(),
    }
}

/// Issues arising from a sequence of expressions, in order.
pub open spec fn exprs_panic_issues(es: Seq<Expr>, fn_name: Seq<char>) -> Seq<PanicIssueV>
    decreases es,
{
    if es.len() == 0 {
        Seq::empty()
    } else {
        exprs_panic_issues(es.drop_last(), fn_name) + expr_panic_issues(es.last(), fn_name)
    }
}

/// Issues arising from one statement.
pub open spec fn stmt_panic_issues(s: Stmt, fn_name: Seq<char>) -> Seq<PanicIssueV>
    decreases s,
{
    match s {
        Stmt::ExprStmt { expr } => expr_panic_issues(expr, fn_name),
        Stmt::Local { init, .. } => match init {
            Some(e) => expr_panic_issues(e, fn_name),
            None => Seq::empty(),
        },
        Stmt::MacroStmt { path } => {
            if spec_is_ident(path.deep_view(), "panic"@) {
                seq![panic_issue_v(fn_name, "panic!"@)]
            } else {
                Seq::empty()
            }
        },
        Stmt::Other => Seq::empty(),
    }
}

/// Issues arising from a sequence of statements, in order.
pub open spec fn stmts_panic_issues(ss: Seq<Stmt>, fn_name: Seq<char>) -> Seq<PanicIssueV>
    decreases ss,
{
    if ss.len() == 0 {
        Seq::empty()
    } else {
        stmts_panic_issues(ss.drop_last(), fn_name) + stmt_panic_issues(ss.last(), fn_name)
    }
}

/// Issues arising from the functions of one `impl` block, in order.
pub open spec fn fns_panic_issues(fns: Seq<FnDef>) -> Seq<PanicIssueV>
    decreases fns,
{
    if fns.len() == 0 {
        Seq::empty()
    } else {
        fns_panic_issues(fns.drop_last()) + stmts_panic_issues(
            fns.last().body@,
            fns.last().name@,
        )
    }
}

/// Issues arising from one item: free functions and the functions of `impl`
/// blocks are scanned.
pub open spec fn item_panic_issues(item: Item) -> Seq<PanicIssueV> {
    match item {
        Item::Impl { fns } => fns_panic_issues(fns@),
        Item::FreeFn { func } => stmts_panic_issues(func.body@, func.name@),
        _ => Seq::empty(),
    }
}

/// All panic issues of one source file, in traversal order.
pub open spec fn file_panic_issues(file: SourceFile) -> Seq<PanicIssueV>
    decreases file.items@.len(),
{
    items_panic_issues(file.items@)
}

/// Issues arising from a sequence of items, in order.
pub open spec fn items_panic_issues(items: Seq<Item>) -> Seq<PanicIssueV>
    decreases items,
{
    if items.len() == 0 {
        Seq::empty()
    } else {
        items_panic_issues(items.drop_last()) + item_panic_issues(items.last())
    }
}

/// Appends the issues of one expression to `issues`.
fn check_expr_panics(e: &Expr, fn_name: &String, issues: &mut Vec<PanicIssue>)
    ensures
        final(issues).deep_view() == old(issues).deep_view() + expr_panic_issues(*e, fn_name@),
    decreases *e,
{
    match e {
        Expr::MacroCall { path, .. } => {
            if is_ident(path, "panic") {
                issues.push(
                    PanicIssue {
                        function_name: fn_name.clone(),
                        issue_type: String::from_str("panic!"),
                        location: fn_name.clone(),
                    },
                );
            }
            assert(final(issues).deep_view() =~= old(issues).deep_view() + expr_panic_issues(
                *e,
                fn_name@,
            ));
        },
        Expr::MethodCall { name, receiver, args } => {
            if str_eq(name.as_str(), "unwrap") || str_eq(name.as_str(), "expect") {
                issues.push(
                    PanicIssue {
                        function_name: fn_name.clone(),
                        issue_type: name.clone(),
                        location: fn_name.clone(),
                    },
                );
            }
            check_expr_panics(receiver, fn_name, issues);
            check_exprs_panics(args, fn_name, issues);
            assert(final(issues).deep_view() =~= old(issues).deep_view() + expr_panic_issues(
                *e,
                fn_name@,
            ));
        },
        Expr::Call { args, .. } => {
            check_exprs_panics(args, fn_name, issues);
        },
        Expr::Block { stmts } => {
            check_stmts_panics(stmts, fn_name, issues);
        },
        Expr::If { cond, then_branch, else_branch } => {
            check_expr_panics(cond, fn_name, issues);
            check_stmts_panics(then_branch, fn_name, issues);
            match else_branch {
                Some(e2) => {
                    check_expr_panics(e2, fn_name, issues);
                },
                None => {},
            }
            assert(final(issues).deep_view() =~= old(issues).deep_view() + expr_panic_issues(
                *e,
                fn_name@,
            ));
        },
        Expr::Match { scrutinee, arms } => {
            check_expr_panics(scrutinee, fn_name, issues);
            check_exprs_panics(arms, fn_name, issues);
            assert(final(issues).deep_view() =~= old(issues).deep_view() + expr_panic_issues(
                *e,
                fn_name@,
            ));
        },
        _ => {
            assert(final(issues).deep_view() =~= old(issues).deep_view() + expr_panic_issues(
                *e,
                fn_name@,
            ));
        },
    }
}

/// Appends the issues of a list of expressions to `issues`.
fn check_exprs_panics(es: &Vec<Expr>, fn_name: &String, issues: &mut Vec<PanicIssue>)
    ensures
        final(issues).deep_view() == old(issues).deep_view() + exprs_panic_issues(es@, fn_name@),
    decreases es@,
{
    let ghost base = issues.deep_view();
    let n = es.len();
    for i in 0..n
        invariant
            n == es@.len(),
            issues.deep_view() == base + exprs_panic_issues(es@.take(i as int), fn_name@),
        decreases n - i,
    {
        check_expr_panics(&es[i], fn_name, issues);
        proof {
            assert(es@.take(i + 1).drop_last() =~= es@.take(i as int));
            assert(es@.take(i + 1).last() == es@[i as int]);
        }
    }
    proof {
        assert(es@.take(n as int) =~= es@);
    }
}

/// Appends the issues of a list of statements to `issues`.
fn check_stmts_panics(ss: &Vec<Stmt>, fn_name: &String, issues: &mut Vec<PanicIssue>)
    ensures
        final(issues).deep_view() == old(issues).deep_view() + stmts_panic_issues(ss@, fn_name@),
    decreases ss@,
{
    let ghost base = issues.deep_view();
    let n = ss.len();
    for i in 0..n
        invariant
            n == ss@.len(),
            issues.deep_view() == base + stmts_panic_issues(ss@.take(i as int), fn_name@),
        decreases n - i,
    {
        check_stmt_panics(&ss[i], fn_name, issues);
        proof {
            assert(ss@.take(i + 1).drop_last() =~= ss@.take(i as int));
            assert(ss@.take(i + 1).last() == ss@[i as int]);
        }
    }
    proof {
        assert(ss@.take(n as int) =~= ss@);
    }
}

/// Appends the issues of one statement to `issues`.
fn check_stmt_panics(s: &Stmt, fn_name: &String, issues: &mut Vec<PanicIssue>)
    ensures
        final(issues).deep_view() == old(issues).deep_view() + stmt_panic_issues(*s, fn_name@),
    decreases *s,
{
    match s {
        Stmt::ExprStmt { expr } => {
            check_expr_panics(expr, fn_name, issues);
        },
        Stmt::Local { init, .. } => {
            match init {
                Some(e) => {
                    check_expr_panics(e, fn_name, issues);
                },
                None => {},
            }
            assert(final(issues).deep_view() =~= old(issues).deep_view() + stmt_panic_issues(
                *s,
                fn_name@,
            ));
        },
        Stmt::MacroStmt { path } => {
            if is_ident(path, "panic") {
                issues.push(
                    PanicIssue {
                        function_name: fn_name.clone(),
                        issue_type: String::from_str("panic!"),
                        location: fn_name.clone(),
                    },
                );
            }
            assert(final(issues).deep_view() =~= old(issues).deep_view() + stmt_panic_issues(
                *s,
                fn_name@,
            ));
        },
        Stmt::Other => {
            assert(final(issues).deep_view() =~= old(issues).deep_view() + stmt_panic_issues(
                *s,
                fn_name@,
            ));
        },
    }
}

/// Scans every function body of `file` — free functions and `impl` functions
/// alike — and returns all panic-pattern issues found, in traversal order.
pub fn scan_panics_in_file(file: &SourceFile) -> (r: Vec<PanicIssue>)
    ensures
        r.deep_view() == file_panic_issues(*file),
{
    let mut issues: Vec<PanicIssue> = Vec::new();
    let n = file.items.len();
    for i in 0..n
        invariant
            n == file.items@.len(),
            issues.deep_view() == items_panic_issues(file.items@.take(i as int)),
        decreases n - i,
    {
        match &file.items[i] {
            Item::Impl { fns } => {
                let m = fns.len();
                let ghost base = issues.deep_view();
                for j in 0..m
                    invariant
                        m == fns@.len(),
                        issues.deep_view() == base + fns_panic_issues(fns@.take(j as int)),
                    decreases m - j,
                {
                    check_stmts_panics(&fns[j].body, &fns[j].name, &mut issues);
                    proof {
                        assert(fns@.take(j + 1).drop_last() =~= fns@.take(j as int));
                        assert(fns@.take(j + 1).last() == fns@[j as int]);
                    }
                }
                proof {
                    assert(fns@.take(m as int) =~= fns@);
                }
            },
            Item::FreeFn { func } => {
                check_stmts_panics(&func.body, &func.name, &mut issues);
            },
            _ => {},
        }
        proof {
            assert(file.items@.take(i + 1).drop_last() =~= file.items@.take(i as int));
            assert(file.items@.take(i + 1).last() == file.items@[i as int]);
        }
    }
    proof {
        assert(file.items@.take(n as int) =~= file.items@);
    }
    issues
}

} // verus!
