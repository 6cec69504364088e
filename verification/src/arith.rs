//! Arithmetic-overflow detector.
//!
//! Walks every free function and every `impl` function, carrying the name of
//! the enclosing function (closures are attributed to their enclosing
//! function).  For each binary or compound-assignment expression whose
//! operator is one of `+ - * += -= *=`, exactly one issue is emitted per
//! distinct (function, operator) pair — later occurrences of the same
//! operator in the same function are suppressed.  Operations where either
//! operand is a string literal are skipped (concatenation is no overflow
//! risk).  The walk continues into nested operands, so chained arithmetic is
//! found but still reported once per pair.  Each issue carries a fixed
//! suggestion naming the checked/saturating alternative and a
//! `"function:line"` location, the line taken from the left operand.

use vstd::prelude::*;

use crate::ast::{BinOp, Expr, FnDef, Item, Lit, SourceFile, Stmt};
use crate::findings::{ArithmeticIssue, ArithmeticIssueV};
use crate::strutil::{dec_digits, str_eq, usize_to_string};

verus! {

/// The operators that can overflow or underflow.
pub open spec fn is_overflow_op(op: BinOp) -> bool {
    match op {
        BinOp::Add | BinOp::Sub | BinOp::Mul | BinOp::AddAssign | BinOp::SubAssign
            | BinOp::MulAssign => true,
        _ => false,
    }
}

/// The rendering of an overflow-prone operator.
pub open spec fn op_text(op: BinOp) -> Seq<char> {
    match op {
        BinOp::Add => "+"@,
        BinOp::Sub => "-"@,
        BinOp::Mul => "*"@,
        BinOp::AddAssign => "+="@,
        BinOp::SubAssign => "-="@,
        BinOp::MulAssign => "*="@,
        _ => Seq::empty(),
    }
}

/// The fixed suggestion attached to each overflow-prone operator.
pub open spec fn suggestion_text(op: BinOp) -> Seq<char> {
    match op {
        BinOp::Add => "Use `.checked_add(rhs)` or `.saturating_add(rhs)` to handle overflow"@,
        BinOp::Sub => "Use `.checked_sub(rhs)` or `.saturating_sub(rhs)` to handle underflow"@,
        BinOp::Mul => "Use `.checked_mul(rhs)` or `.saturating_mul(rhs)` to handle overflow"@,
        BinOp::AddAssign => "Replace `a += b` with `a = a.checked_add(b).expect(\"overflow\")`"@,
        BinOp::SubAssign => "Replace `a -= b` with `a = a.checked_sub(b).expect(\"underflow\")`"@,
        BinOp::MulAssign => "Replace `a *= b` with `a = a.checked_mul(b).expect(\"overflow\")`"@,
        _ => Seq::empty(),
    }
}

/// The expression is a string literal.
pub open spec fn is_string_literal(e: Expr) -> bool {
    match e {
        Expr::Literal { lit: Lit::Str(_) } => true,
        _ => false,
    }
}

/// The (function, operator) pair is already recorded.
pub open spec fn seen_has(seen: Seq<(Seq<char>, Seq<char>)>, f: Seq<char>, op: Seq<char>) -> bool
    decreases seen,
{
    if seen.len() == 0 {
        false
    } else {
        seen_has(seen.drop_last(), f, op) || (seen.last().0 == f && seen.last().1 == op)
    }
}

/// The detector's running state: the (function, operator) pairs already
/// reported, and the issues emitted so far, in order.
pub struct ArithState {
    pub seen: Seq<(Seq<char>, Seq<char>)>,
    pub issues: Seq<ArithmeticIssueV>,
}

/// The issue recorded for the first occurrence of `op` in function `f`.
pub open spec fn arith_issue_v(f: Seq<char>, op: BinOp, line: usize) -> ArithmeticIssueV {
    ArithmeticIssueV {
        function_name: f,
        operation: op_text(op),
        suggestion: suggestion_text(op),
        location: f + ":"@ + dec_digits(line as nat),
    }
}

/// State after processing one binary node itself (not its operands).
pub open spec fn arith_record(
    st: ArithState,
    f: Seq<char>,
    op: BinOp,
    left: Expr,
    right: Expr,
    line: usize,
) -> ArithState {
    if is_overflow_op(op) && !is_string_literal(left) && !is_string_literal(right) && !seen_has(
        st.seen,
        f,
        op_text(op),
    ) {
        ArithState {
            seen: st.seen.push((f, op_text(op))),
            issues: st.issues.push(arith_issue_v(f, op, line)),
        }
    } else {
        st
    }
}

/// State after walking one expression.
pub open spec fn arith_expr(e: Expr, f: Seq<char>, st: ArithState) -> ArithState
    decreases e,
{
    match e {
        Expr::Binary { op, left, right, line } => {
            let st1 = arith_record(st, f, op, *left, *right, line);
            arith_expr(*right, f, arith_expr(*left, f, st1))
        },
        Expr::MethodCall { receiver, args, .. } => arith_exprs(
            args@,
            f,
            arith_expr(*receiver, f, st),
        ),
        Expr::Call { func, args, .. } => arith_exprs(args@, f, arith_expr(*func, f, st)),
        Expr::MacroCall { .. } => st,
        Expr::Block { stmts } => arith_stmts(stmts@, f, st),
        Expr::If { cond, then_branch, else_branch } => {
            let st2 = arith_stmts(then_branch@, f, arith_expr(*cond, f, st));
            match else_branch {
                Some(e2) => arith_expr(*e2, f, st2),
                None => st2,
            }
        },
        Expr::Match { scrutinee, arms } => arith_exprs(arms@, f, arith_expr(*scrutinee, f, st)),
        Expr::ForLoop { iter, body } => arith_stmts(body@, f, arith_expr(*iter, f, st)),
        Expr::While { cond, body } => arith_stmts(body@, f, arith_expr(*cond, f, st)),
        Expr::Loop { body } => arith_stmts(body@, f, st),
        Expr::Closure { body_expr } => arith_expr(*body_expr, f, st),
        Expr::Field { base, .. } => arith_expr(*base, f, st),
        Expr::Path { .. } => st,
        Expr::Literal { .. } => st,
        Expr::Unknown { children } => arith_exprs(children@, f, st),
    }
}

/// State after walking a list of expressions, in order.
pub open spec fn arith_exprs(es: Seq<Expr>, f: Seq<char>, st: ArithState) -> ArithState
    decreases es,
{
    if es.len() == 0 {
        st
    } else {
        arith_expr(es.last(), f, arith_exprs(es.drop_last(), f, st))
    }
}

/// State after walking one statement.
pub open spec fn arith_stmt(s: Stmt, f: Seq<char>, st: ArithState) -> ArithState
    decreases s,
{
    match s {
        Stmt::ExprStmt { expr } => arith_expr(expr, f, st),
        Stmt::Local { init, .. } => match init {
            Some(e) => arith_expr(e, f, st),
            None => st,
        },
        _ => st,
    }
}

/// State after walking a list of statements, in order.
pub open spec fn arith_stmts(ss: Seq<Stmt>, f: Seq<char>, st: ArithState) -> ArithState
    decreases ss,
{
    if ss.len() == 0 {
        st
    } else {
        arith_stmt(ss.last(), f, arith_stmts(ss.drop_last(), f, st))
    }
}

/// State after walking the functions of one `impl` block, in order.
pub open spec fn arith_fns(fns: Seq<FnDef>, st: ArithState) -> ArithState
    decreases fns,
{
    if fns.len() == 0 {
        st
    } else {
        let prev = arith_fns(fns.drop_last(), st);
        arith_stmts(fns.last().body@, fns.last().name@, prev)
    }
}

/// State after walking one item: free functions and `impl` functions are
/// scanned, everything else is skipped.
pub open spec fn arith_item(item: Item, st: ArithState) -> ArithState {
    match item {
        Item::Impl { fns } => arith_fns(fns@, st),
        Item::FreeFn { func } => arith_stmts(func.body@, func.name@, st),
        _ => st,
    }
}

/// State after walking a list of items, in order.
pub open spec fn arith_items(items: Seq<Item>, st: ArithState) -> ArithState
    decreases items,
{
    if items.len() == 0 {
        st
    } else {
        arith_item(items.last(), arith_items(items.drop_last(), st))
    }
}

/// The empty starting state.
pub open spec fn arith_empty_state() -> ArithState {
    ArithState { seen: Seq::empty(), issues: Seq::empty() }
}

/// All arithmetic issues of one source file, in traversal order, one per
/// (function, operator) pair.
pub open spec fn file_arith_issues(file: SourceFile) -> Seq<ArithmeticIssueV> {
    arith_items(file.items@, arith_empty_state()).issues
}

/// How many issues carry the pair (`f`, `op`).
pub open spec fn count_issues_op(issues: Seq<ArithmeticIssueV>, f: Seq<char>, op: Seq<char>) -> nat
    decreases issues,
{
    if issues.len() == 0 {
        0
    } else {
        count_issues_op(issues.drop_last(), f, op) + (if issues.last().function_name == f
            && issues.last().operation == op {
            1nat
        } else {
            0nat
        })
    }
}

/// The detector state is well formed: every emitted issue's pair is
/// remembered in `seen`, no two issues share a pair, and every remembered
/// pair has its issue.
pub open spec fn arith_wf(st: ArithState) -> bool {
    &&& forall|k: int|
        0 <= k < st.issues.len() ==> seen_has(
            st.seen,
            (#[trigger] st.issues[k]).function_name,
            st.issues[k].operation,
        )
    &&& forall|k: int, l: int|
        0 <= k < l < st.issues.len() ==> !((#[trigger] st.issues[k]).function_name == (
        #[trigger] st.issues[l]).function_name && st.issues[k].operation == st.issues[l].operation)
    &&& forall|g: Seq<char>, o: Seq<char>|
        #[trigger] seen_has(st.seen, g, o) ==> count_issues_op(st.issues, g, o) >= 1
}

/// Issue counts after a push.
proof fn lemma_count_push(
    issues: Seq<ArithmeticIssueV>,
    x: ArithmeticIssueV,
    f: Seq<char>,
    op: Seq<char>,
)
    ensures
        count_issues_op(issues.push(x), f, op) == count_issues_op(issues, f, op) + (
        if x.function_name == f && x.operation == op {
            1nat
        } else {
            0nat
        }),
{
    assert(issues.push(x).drop_last() =~= issues);
    assert(issues.push(x).last() == x);
}

/// Membership in `seen` after a push.
proof fn lemma_seen_has_push(
    s: Seq<(Seq<char>, Seq<char>)>,
    x: (Seq<char>, Seq<char>),
    f: Seq<char>,
    op: Seq<char>,
)
    ensures
        seen_has(s.push(x), f, op) == (seen_has(s, f, op) || (x.0 == f && x.1 == op)),
{
    assert(s.push(x).drop_last() =~= s);
    assert(s.push(x).last() == x);
}

/// Recording one binary node preserves well-formedness.
proof fn lemma_record_wf(
    st: ArithState,
    f: Seq<char>,
    op: BinOp,
    left: Expr,
    right: Expr,
    line: usize,
)
    requires
        arith_wf(st),
    ensures
        arith_wf(arith_record(st, f, op, left, right, line)),
{
    let res = arith_record(st, f, op, left, right, line);
    if is_overflow_op(op) && !is_string_literal(left) && !is_string_literal(right) && !seen_has(
        st.seen,
        f,
        op_text(op),
    ) {
        assert(res.issues.drop_last() =~= st.issues);
        assert(res.issues.last() == arith_issue_v(f, op, line));
        assert forall|k: int|
            0 <= k < res.issues.len() implies seen_has(
            res.seen,
            (#[trigger] res.issues[k]).function_name,
            res.issues[k].operation,
        ) by {
            if k < st.issues.len() {
                assert(res.issues[k] == st.issues[k]);
                lemma_seen_has_push(
                    st.seen,
                    (f, op_text(op)),
                    st.issues[k].function_name,
                    st.issues[k].operation,
                );
            } else {
                lemma_seen_has_push(st.seen, (f, op_text(op)), f, op_text(op));
            }
        }
        assert forall|k: int, l: int|
            0 <= k < l < res.issues.len() implies !((#[trigger] res.issues[k]).function_name == (
        #[trigger] res.issues[l]).function_name && res.issues[k].operation
            == res.issues[l].operation) by {
            if l == res.issues.len() - 1 {
                assert(res.issues[k] == st.issues[k]);
                assert(res.issues[l] == arith_issue_v(f, op, line));
                if st.issues[k].function_name == f && st.issues[k].operation == op_text(op) {
                    assert(seen_has(st.seen, f, op_text(op)));
                    assert(false);
                }
            } else {
                assert(res.issues[k] == st.issues[k]);
                assert(res.issues[l] == st.issues[l]);
            }
        }
        assert forall|g: Seq<char>, o: Seq<char>| #[trigger]
            seen_has(res.seen, g, o) implies count_issues_op(res.issues, g, o) >= 1 by {
            lemma_seen_has_push(st.seen, (f, op_text(op)), g, o);
            lemma_count_push(st.issues, arith_issue_v(f, op, line), g, o);
        }
    }
}

/// Walking an expression preserves well-formedness.
proof fn lemma_arith_expr_wf(e: Expr, f: Seq<char>, st: ArithState)
    requires
        arith_wf(st),
    ensures
        arith_wf(arith_expr(e, f, st)),
    decreases e, 0int,
{
    match e {
        Expr::Binary { op, left, right, line } => {
            lemma_record_wf(st, f, op, *left, *right, line);
            let st1 = arith_record(st, f, op, *left, *right, line);
            lemma_arith_expr_wf(*left, f, st1);
            lemma_arith_expr_wf(*right, f, arith_expr(*left, f, st1));
        },
        Expr::MethodCall { receiver, args, .. } => {
            lemma_arith_expr_wf(*receiver, f, st);
            lemma_arith_exprs_wf(args@, f, arith_expr(*receiver, f, st));
        },
        Expr::Call { func, args, .. } => {
            lemma_arith_expr_wf(*func, f, st);
            lemma_arith_exprs_wf(args@, f, arith_expr(*func, f, st));
        },
        Expr::MacroCall { .. } => {},
        Expr::Block { stmts } => {
            lemma_arith_stmts_wf(stmts@, f, st);
        },
        Expr::If { cond, then_branch, else_branch } => {
            lemma_arith_expr_wf(*cond, f, st);
            lemma_arith_stmts_wf(then_branch@, f, arith_expr(*cond, f, st));
            let st2 = arith_stmts(then_branch@, f, arith_expr(*cond, f, st));
            match else_branch {
                Some(e2) => {
                    lemma_arith_expr_wf(*e2, f, st2);
                },
                None => {},
            }
        },
        Expr::Match { scrutinee, arms } => {
            lemma_arith_expr_wf(*scrutinee, f, st);
            lemma_arith_exprs_wf(arms@, f, arith_expr(*scrutinee, f, st));
        },
        Expr::ForLoop { iter, body } => {
            lemma_arith_expr_wf(*iter, f, st);
            lemma_arith_stmts_wf(body@, f, arith_expr(*iter, f, st));
        },
        Expr::While { cond, body } => {
            lemma_arith_expr_wf(*cond, f, st);
            lemma_arith_stmts_wf(body@, f, arith_expr(*cond, f, st));
        },
        Expr::Loop { body } => {
            lemma_arith_stmts_wf(body@, f, st);
        },
        Expr::Closure { body_expr } => {
            lemma_arith_expr_wf(*body_expr, f, st);
        },
        Expr::Field { base, .. } => {
            lemma_arith_expr_wf(*base, f, st);
        },
        Expr::Path { .. } => {},
        Expr::Literal { .. } => {},
        Expr::Unknown { children } => {
            lemma_arith_exprs_wf(children@, f, st);
        },
    }
}

/// List form of [`lemma_arith_expr_wf`].
proof fn lemma_arith_exprs_wf(es: Seq<Expr>, f: Seq<char>, st: ArithState)
    requires
        arith_wf(st),
    ensures
        arith_wf(arith_exprs(es, f, st)),
    decreases es, 0int,
{
    if es.len() > 0 {
        lemma_arith_exprs_wf(es.drop_last(), f, st);
        lemma_arith_expr_wf(es.last(), f, arith_exprs(es.drop_last(), f, st));
    }
}

/// Statement form of [`lemma_arith_expr_wf`].
proof fn lemma_arith_stmt_wf(s: Stmt, f: Seq<char>, st: ArithState)
    requires
        arith_wf(st),
    ensures
        arith_wf(arith_stmt(s, f, st)),
    decreases s, 0int,
{
    match s {
        Stmt::ExprStmt { expr } => {
            lemma_arith_expr_wf(expr, f, st);
        },
        Stmt::Local { init, .. } => {
            match init {
                Some(e) => {
                    lemma_arith_expr_wf(e, f, st);
                },
                None => {},
            }
        },
        _ => {},
    }
}

/// Statement-list form of [`lemma_arith_expr_wf`].
proof fn lemma_arith_stmts_wf(ss: Seq<Stmt>, f: Seq<char>, st: ArithState)
    requires
        arith_wf(st),
    ensures
        arith_wf(arith_stmts(ss, f, st)),
    decreases ss, 0int,
{
    if ss.len() > 0 {
        lemma_arith_stmts_wf(ss.drop_last(), f, st);
        lemma_arith_stmt_wf(ss.last(), f, arith_stmts(ss.drop_last(), f, st));
    }
}

/// `impl`-block form of [`lemma_arith_expr_wf`].
proof fn lemma_arith_fns_wf(fns: Seq<FnDef>, st: ArithState)
    requires
        arith_wf(st),
    ensures
        arith_wf(arith_fns(fns, st)),
    decreases fns,
{
    if fns.len() > 0 {
        lemma_arith_fns_wf(fns.drop_last(), st);
        lemma_arith_stmts_wf(fns.last().body@, fns.last().name@, arith_fns(fns.drop_last(), st));
    }
}

/// Item form of [`lemma_arith_expr_wf`].
proof fn lemma_arith_items_wf(items: Seq<Item>, st: ArithState)
    requires
        arith_wf(st),
    ensures
        arith_wf(arith_items(items, st)),
    decreases items,
{
    if items.len() > 0 {
        lemma_arith_items_wf(items.drop_last(), st);
        let prev = arith_items(items.drop_last(), st);
        match items.last() {
            Item::Impl { fns } => {
                lemma_arith_fns_wf(fns@, prev);
            },
            Item::FreeFn { func } => {
                lemma_arith_stmts_wf(func.body@, func.name@, prev);
            },
            _ => {},
        }
    }
}

/// Pairwise-distinct pairs bound the count by one.
proof fn lemma_distinct_count_le_one(issues: Seq<ArithmeticIssueV>, f: Seq<char>, op: Seq<char>)
    requires
        forall|k: int, l: int|
            0 <= k < l < issues.len() ==> !((#[trigger] issues[k]).function_name == (
            #[trigger] issues[l]).function_name && issues[k].operation == issues[l].operation),
    ensures
        count_issues_op(issues, f, op) <= 1,
        count_issues_op(issues, f, op) == 1 ==> exists|k: int|
            0 <= k < issues.len() && (#[trigger] issues[k]).function_name == f
                && issues[k].operation == op,
    decreases issues,
{
    if issues.len() > 0 {
        assert forall|k: int, l: int|
            0 <= k < l < issues.drop_last().len() implies !((#[trigger] issues.drop_last()[k]).function_name
            == (#[trigger] issues.drop_last()[l]).function_name && issues.drop_last()[k].operation
            == issues.drop_last()[l].operation) by {
            assert(issues.drop_last()[k] == issues[k]);
            assert(issues.drop_last()[l] == issues[l]);
        }
        lemma_distinct_count_le_one(issues.drop_last(), f, op);
        let last = issues.last();
        assert(last == issues[issues.len() - 1]);
        if last.function_name == f && last.operation == op {
            if count_issues_op(issues.drop_last(), f, op) == 1 {
                let k = choose|k: int|
                    0 <= k < issues.drop_last().len() && (#[trigger] issues.drop_last()[k]).function_name
                        == f && issues.drop_last()[k].operation == op;
                assert(issues[k] == issues.drop_last()[k]);
                assert(false);
            }
        } else {
            if count_issues_op(issues, f, op) == 1 {
                let k = choose|k: int|
                    0 <= k < issues.drop_last().len() && (#[trigger] issues.drop_last()[k]).function_name
                        == f && issues.drop_last()[k].operation == op;
                assert(issues[k] == issues.drop_last()[k]);
            }
        }
    }
}

/// Deduplication law: over a whole file, the detector emits at most one
/// arithmetic issue per (function name, operator) pair, however often the
/// operator occurs in that function.
pub proof fn lemma_arith_one_issue_per_pair(file: SourceFile, f: Seq<char>, op: Seq<char>)
    ensures
        count_issues_op(file_arith_issues(file), f, op) <= 1,
{
    assert(arith_wf(arith_empty_state()));
    lemma_arith_items_wf(file.items@, arith_empty_state());
    lemma_distinct_count_le_one(arith_items(file.items@, arith_empty_state()).issues, f, op);
}

/// The expression contains a counted occurrence of `op`: a binary node with
/// that operator whose operands are not string literals, anywhere the
/// detector walks.
pub open spec fn expr_contains_op(e: Expr, op: BinOp) -> bool
    decreases e,
{
    match e {
        Expr::Binary { op: op2, left, right, .. } => (op2 == op && !is_string_literal(*left)
            && !is_string_literal(*right)) || expr_contains_op(*left, op) || expr_contains_op(
            *right,
            op,
        ),
        Expr::MethodCall { receiver, args, .. } => expr_contains_op(*receiver, op)
            || exprs_contain_op(args@, op),
        Expr::Call { func, args, .. } => expr_contains_op(*func, op) || exprs_contain_op(
            args@,
            op,
        ),
        Expr::MacroCall { .. } => false,
        Expr::Block { stmts } => stmts_contain_op(stmts@, op),
        Expr::If { cond, then_branch, else_branch } => expr_contains_op(*cond, op)
            || stmts_contain_op(then_branch@, op) || match else_branch {
            Some(e2) => expr_contains_op(*e2, op),
            None => false,
        },
        Expr::Match { scrutinee, arms } => expr_contains_op(*scrutinee, op) || exprs_contain_op(
            arms@,
            op,
        ),
        Expr::ForLoop { iter, body } => expr_contains_op(*iter, op) || stmts_contain_op(
            body@,
            op,
        ),
        Expr::While { cond, body } => expr_contains_op(*cond, op) || stmts_contain_op(body@, op),
        Expr::Loop { body } => stmts_contain_op(body@, op),
        Expr::Closure { body_expr } => expr_contains_op(*body_expr, op),
        Expr::Field { base, .. } => expr_contains_op(*base, op),
        Expr::Path { .. } => false,
        Expr::Literal { .. } => false,
        Expr::Unknown { children } => exprs_contain_op(children@, op),
    }
}

/// Some expression in the list contains a counted occurrence of `op`.
pub open spec fn exprs_contain_op(es: Seq<Expr>, op: BinOp) -> bool
    decreases es,
{
    if es.len() == 0 {
        false
    } else {
        exprs_contain_op(es.drop_last(), op) || expr_contains_op(es.last(), op)
    }
}

/// The statement contains a counted occurrence of `op`.
pub open spec fn stmt_contains_op(s: Stmt, op: BinOp) -> bool
    decreases s,
{
    match s {
        Stmt::ExprStmt { expr } => expr_contains_op(expr, op),
        Stmt::Local { init, .. } => match init {
            Some(e) => expr_contains_op(e, op),
            None => false,
        },
        _ => false,
    }
}

/// Some statement in the list contains a counted occurrence of `op`.
pub open spec fn stmts_contain_op(ss: Seq<Stmt>, op: BinOp) -> bool
    decreases ss,
{
    if ss.len() == 0 {
        false
    } else {
        stmts_contain_op(ss.drop_last(), op) || stmt_contains_op(ss.last(), op)
    }
}

/// Some function in the `impl` block is named `n` and contains `op`.
pub open spec fn fns_contain_op(fns: Seq<FnDef>, n: Seq<char>, op: BinOp) -> bool
    decreases fns,
{
    if fns.len() == 0 {
        false
    } else {
        fns_contain_op(fns.drop_last(), n, op) || (fns.last().name@ == n && stmts_contain_op(
            fns.last().body@,
            op,
        ))
    }
}

/// Some scanned function in the item is named `n` and contains `op`.
pub open spec fn item_contains_op(item: Item, n: Seq<char>, op: BinOp) -> bool {
    match item {
        Item::Impl { fns } => fns_contain_op(fns@, n, op),
        Item::FreeFn { func } => func.name@ == n && stmts_contain_op(func.body@, op),
        _ => false,
    }
}

/// Some scanned function among the items is named `n` and contains `op`.
pub open spec fn items_contain_op(items: Seq<Item>, n: Seq<char>, op: BinOp) -> bool
    decreases items,
{
    if items.len() == 0 {
        false
    } else {
        items_contain_op(items.drop_last(), n, op) || item_contains_op(items.last(), n, op)
    }
}

/// Distinct overflow-prone operators render distinctly.
proof fn lemma_op_text_injective(a: BinOp, b: BinOp)
    requires
        is_overflow_op(a),
        is_overflow_op(b),
        op_text(a) == op_text(b),
    ensures
        a == b,
{
    reveal_strlit("+");
    reveal_strlit("-");
    reveal_strlit("*");
    reveal_strlit("+=");
    reveal_strlit("-=");
    reveal_strlit("*=");
    match a {
        BinOp::Add => {
            assert(op_text(a).len() == 1 && op_text(a)[0] == '+');
        },
        BinOp::Sub => {
            assert(op_text(a).len() == 1 && op_text(a)[0] == '-');
        },
        BinOp::Mul => {
            assert(op_text(a).len() == 1 && op_text(a)[0] == '*');
        },
        BinOp::AddAssign => {
            assert(op_text(a).len() == 2 && op_text(a)[0] == '+');
        },
        BinOp::SubAssign => {
            assert(op_text(a).len() == 2 && op_text(a)[0] == '-');
        },
        BinOp::MulAssign => {
            assert(op_text(a).len() == 2 && op_text(a)[0] == '*');
        },
        _ => {},
    }
    match b {
        BinOp::Add => {
            assert(op_text(b).len() == 1 && op_text(b)[0] == '+');
        },
        BinOp::Sub => {
            assert(op_text(b).len() == 1 && op_text(b)[0] == '-');
        },
        BinOp::Mul => {
            assert(op_text(b).len() == 1 && op_text(b)[0] == '*');
        },
        BinOp::AddAssign => {
            assert(op_text(b).len() == 2 && op_text(b)[0] == '+');
        },
        BinOp::SubAssign => {
            assert(op_text(b).len() == 2 && op_text(b)[0] == '-');
        },
        BinOp::MulAssign => {
            assert(op_text(b).len() == 2 && op_text(b)[0] == '*');
        },
        _ => {},
    }
}

/// After walking an expression, a pair is remembered exactly when it was
/// already remembered or the expression contains an occurrence of the
/// operator attributed to the current function.
proof fn lemma_arith_expr_seen(e: Expr, f: Seq<char>, st: ArithState, g: Seq<char>, o: BinOp)
    requires
        is_overflow_op(o),
    ensures
        seen_has(arith_expr(e, f, st).seen, g, op_text(o)) == (seen_has(st.seen, g, op_text(o))
            || (g == f && expr_contains_op(e, o))),
    decreases e, 0int,
{
    match e {
        Expr::Binary { op, left, right, line } => {
            let st1 = arith_record(st, f, op, *left, *right, line);
            if is_overflow_op(op) && !is_string_literal(*left) && !is_string_literal(*right)
                && !seen_has(st.seen, f, op_text(op)) {
                lemma_seen_has_push(st.seen, (f, op_text(op)), g, op_text(o));
                if op_text(op) == op_text(o) {
                    lemma_op_text_injective(op, o);
                }
            }
            lemma_arith_expr_seen(*left, f, st1, g, o);
            lemma_arith_expr_seen(*right, f, arith_expr(*left, f, st1), g, o);
        },
        Expr::MethodCall { receiver, args, .. } => {
            lemma_arith_expr_seen(*receiver, f, st, g, o);
            lemma_arith_exprs_seen(args@, f, arith_expr(*receiver, f, st), g, o);
        },
        Expr::Call { func, args, .. } => {
            lemma_arith_expr_seen(*func, f, st, g, o);
            lemma_arith_exprs_seen(args@, f, arith_expr(*func, f, st), g, o);
        },
        Expr::MacroCall { .. } => {},
        Expr::Block { stmts } => {
            lemma_arith_stmts_seen(stmts@, f, st, g, o);
        },
        Expr::If { cond, then_branch, else_branch } => {
            lemma_arith_expr_seen(*cond, f, st, g, o);
            lemma_arith_stmts_seen(then_branch@, f, arith_expr(*cond, f, st), g, o);
            let st2 = arith_stmts(then_branch@, f, arith_expr(*cond, f, st));
            match else_branch {
                Some(e2) => {
                    lemma_arith_expr_seen(*e2, f, st2, g, o);
                },
                None => {},
            }
        },
        Expr::Match { scrutinee, arms } => {
            lemma_arith_expr_seen(*scrutinee, f, st, g, o);
            lemma_arith_exprs_seen(arms@, f, arith_expr(*scrutinee, f, st), g, o);
        },
        Expr::ForLoop { iter, body } => {
            lemma_arith_expr_seen(*iter, f, st, g, o);
            lemma_arith_stmts_seen(body@, f, arith_expr(*iter, f, st), g, o);
        },
        Expr::While { cond, body } => {
            lemma_arith_expr_seen(*cond, f, st, g, o);
            lemma_arith_stmts_seen(body@, f, arith_expr(*cond, f, st), g, o);
        },
        Expr::Loop { body } => {
            lemma_arith_stmts_seen(body@, f, st, g, o);
        },
        Expr::Closure { body_expr } => {
            lemma_arith_expr_seen(*body_expr, f, st, g, o);
        },
        Expr::Field { base, .. } => {
            lemma_arith_expr_seen(*base, f, st, g, o);
        },
        Expr::Path { .. } => {},
        Expr::Literal { .. } => {},
        Expr::Unknown { children } => {
            lemma_arith_exprs_seen(children@, f, st, g, o);
        },
    }
}

/// List form of [`lemma_arith_expr_seen`].
proof fn lemma_arith_exprs_seen(es: Seq<Expr>, f: Seq<char>, st: ArithState, g: Seq<char>, o: BinOp)
    requires
        is_overflow_op(o),
    ensures
        seen_has(arith_exprs(es, f, st).seen, g, op_text(o)) == (seen_has(st.seen, g, op_text(o))
            || (g == f && exprs_contain_op(es, o))),
    decreases es, 0int,
{
    if es.len() > 0 {
        lemma_arith_exprs_seen(es.drop_last(), f, st, g, o);
        lemma_arith_expr_seen(es.last(), f, arith_exprs(es.drop_last(), f, st), g, o);
    }
}

/// Statement form of [`lemma_arith_expr_seen`].
proof fn lemma_arith_stmt_seen(s: Stmt, f: Seq<char>, st: ArithState, g: Seq<char>, o: BinOp)
    requires
        is_overflow_op(o),
    ensures
        seen_has(arith_stmt(s, f, st).seen, g, op_text(o)) == (seen_has(st.seen, g, op_text(o))
            || (g == f && stmt_contains_op(s, o))),
    decreases s, 0int,
{
    match s {
        Stmt::ExprStmt { expr } => {
            lemma_arith_expr_seen(expr, f, st, g, o);
        },
        Stmt::Local { init, .. } => {
            match init {
                Some(e) => {
                    lemma_arith_expr_seen(e, f, st, g, o);
                },
                None => {},
            }
        },
        _ => {},
    }
}

/// Statement-list form of [`lemma_arith_expr_seen`].
proof fn lemma_arith_stmts_seen(ss: Seq<Stmt>, f: Seq<char>, st: ArithState, g: Seq<char>, o: BinOp)
    requires
        is_overflow_op(o),
    ensures
        seen_has(arith_stmts(ss, f, st).seen, g, op_text(o)) == (seen_has(st.seen, g, op_text(o))
            || (g == f && stmts_contain_op(ss, o))),
    decreases ss, 0int,
{
    if ss.len() > 0 {
        lemma_arith_stmts_seen(ss.drop_last(), f, st, g, o);
        lemma_arith_stmt_seen(ss.last(), f, arith_stmts(ss.drop_last(), f, st), g, o);
    }
}

/// `impl`-block form of [`lemma_arith_expr_seen`].
proof fn lemma_arith_fns_seen(fns: Seq<FnDef>, st: ArithState, g: Seq<char>, o: BinOp)
    requires
        is_overflow_op(o),
    ensures
        seen_has(arith_fns(fns, st).seen, g, op_text(o)) == (seen_has(st.seen, g, op_text(o)) || (
        fns_contain_op(fns, g, o))),
    decreases fns,
{
    if fns.len() > 0 {
        lemma_arith_fns_seen(fns.drop_last(), st, g, o);
        lemma_arith_stmts_seen(
            fns.last().body@,
            fns.last().name@,
            arith_fns(fns.drop_last(), st),
            g,
            o,
        );
    }
}

/// Item form of [`lemma_arith_expr_seen`].
proof fn lemma_arith_items_seen(items: Seq<Item>, st: ArithState, g: Seq<char>, o: BinOp)
    requires
        is_overflow_op(o),
    ensures
        seen_has(arith_items(items, st).seen, g, op_text(o)) == (seen_has(st.seen, g, op_text(o))
            || items_contain_op(items, g, o)),
    decreases items,
{
    if items.len() > 0 {
        lemma_arith_items_seen(items.drop_last(), st, g, o);
        let prev = arith_items(items.drop_last(), st);
        match items.last() {
            Item::Impl { fns } => {
                lemma_arith_fns_seen(fns@, prev, g, o);
            },
            Item::FreeFn { func } => {
                lemma_arith_stmts_seen(func.body@, func.name@, prev, g, o);
            },
            _ => {},
        }
    }
}

/// A count of at least one exhibits a matching issue.
proof fn lemma_count_pos_exists(issues: Seq<ArithmeticIssueV>, f: Seq<char>, op: Seq<char>)
    requires
        count_issues_op(issues, f, op) >= 1,
    ensures
        exists|k: int|
            0 <= k < issues.len() && (#[trigger] issues[k]).function_name == f
                && issues[k].operation == op,
    decreases issues,
{
    if issues.len() > 0 {
        if issues.last().function_name == f && issues.last().operation == op {
            assert(issues[issues.len() - 1].function_name == f);
        } else {
            lemma_count_pos_exists(issues.drop_last(), f, op);
            let k = choose|k: int|
                0 <= k < issues.drop_last().len() && (#[trigger] issues.drop_last()[k]).function_name
                    == f && issues.drop_last()[k].operation == op;
            assert(issues[k] == issues.drop_last()[k]);
        }
    }
}

/// The first occurrence of each operator in each function is reported,
/// exactly once: the report holds one issue for the pair (`n`, `op`) when
/// some scanned function named `n` contains an unchecked occurrence of `op`,
/// and none otherwise.
pub proof fn lemma_arith_issue_iff_occurrence(file: SourceFile, n: Seq<char>, op: BinOp)
    requires
        is_overflow_op(op),
    ensures
        count_issues_op(file_arith_issues(file), n, op_text(op)) == if items_contain_op(
            file.items@,
            n,
            op,
        ) {
            1nat
        } else {
            0nat
        },
{
    let final_st = arith_items(file.items@, arith_empty_state());
    assert(arith_wf(arith_empty_state()));
    lemma_arith_items_wf(file.items@, arith_empty_state());
    lemma_distinct_count_le_one(final_st.issues, n, op_text(op));
    lemma_arith_items_seen(file.items@, arith_empty_state(), n, op);
    if items_contain_op(file.items@, n, op) {
        assert(seen_has(final_st.seen, n, op_text(op)));
        assert(count_issues_op(final_st.issues, n, op_text(op)) >= 1);
    } else {
        assert(!seen_has(final_st.seen, n, op_text(op)));
        if count_issues_op(final_st.issues, n, op_text(op)) >= 1 {
            lemma_count_pos_exists(final_st.issues, n, op_text(op));
            let k = choose|k: int|
                0 <= k < final_st.issues.len() && (#[trigger] final_st.issues[k]).function_name
                    == n && final_st.issues[k].operation == op_text(op);
            assert(seen_has(final_st.seen, n, op_text(op)));
            assert(false);
        }
    }
}

/// The operator and suggestion strings for an overflow-prone operator.
fn op_strings(op: BinOp) -> (r: Option<(&'static str, &'static str)>)
    ensures
        r is Some <==> is_overflow_op(op),
        r matches Some(p) ==> p.0@ == op_text(op) && p.1@ == suggestion_text(op),
{
    match op {
        BinOp::Add => Some(
            ("+", "Use `.checked_add(rhs)` or `.saturating_add(rhs)` to handle overflow"),
        ),
        BinOp::Sub => Some(
            ("-", "Use `.checked_sub(rhs)` or `.saturating_sub(rhs)` to handle underflow"),
        ),
        BinOp::Mul => Some(
            ("*", "Use `.checked_mul(rhs)` or `.saturating_mul(rhs)` to handle overflow"),
        ),
        BinOp::AddAssign => Some(
            ("+=", "Replace `a += b` with `a = a.checked_add(b).expect(\"overflow\")`"),
        ),
        BinOp::SubAssign => Some(
            ("-=", "Replace `a -= b` with `a = a.checked_sub(b).expect(\"underflow\")`"),
        ),
        BinOp::MulAssign => Some(
            ("*=", "Replace `a *= b` with `a = a.checked_mul(b).expect(\"overflow\")`"),
        ),
        _ => None,
    }
}

/// Decides [`is_string_literal`].
fn expr_is_string_literal(e: &Expr) -> (r: bool)
    ensures
        r == is_string_literal(*e),
{
    match e {
        Expr::Literal { lit: Lit::Str(_) } => true,
        _ => false,
    }
}

/// Decides [`seen_has`].
fn seen_contains(seen: &Vec<(String, String)>, f: &String, op: &str) -> (r: bool)
    ensures
        r == seen_has(seen.deep_view(), f@, op@),
{
    let mut found = false;
    let n = seen.len();
    for i in 0..n
        invariant
            n == seen@.len(),
            found == seen_has(seen.deep_view().take(i as int), f@, op@),
        decreases n - i,
    {
        let hit_f = str_eq(seen[i].0.as_str(), f.as_str());
        let hit_op = str_eq(seen[i].1.as_str(), op);
        if hit_f && hit_op {
            found = true;
        }
        proof {
            assert(seen.deep_view().take(i + 1).drop_last() =~= seen.deep_view().take(i as int));
            assert(seen.deep_view().take(i + 1).last() == seen.deep_view()[i as int]);
        }
    }
    proof {
        assert(seen.deep_view().take(n as int) =~= seen.deep_view());
    }
    found
}

/// Walks one expression, recording first occurrences.
fn walk_expr(
    e: &Expr,
    f: &String,
    seen: &mut Vec<(String, String)>,
    issues: &mut Vec<ArithmeticIssue>,
)
    ensures
        ({
            let st = arith_expr(
                *e,
                f@,
                ArithState { seen: old(seen).deep_view(), issues: old(issues).deep_view() },
            );
            final(seen).deep_view() == st.seen && final(issues).deep_view() == st.issues
        }),
    decreases *e,
{
    match e {
        Expr::Binary { op, left, right, line } => {
            let opc = *op;
            match op_strings(opc) {
                Some((op_s, sugg)) => {
                    let lit_l = expr_is_string_literal(left);
                    let lit_r = expr_is_string_literal(right);
                    if !lit_l && !lit_r && !seen_contains(seen, f, op_s) {
                        seen.push((f.clone(), String::from_str(op_s)));
                        let mut loc = f.clone();
                        loc.append(":");
                        let num = usize_to_string(*line);
                        loc.append(num.as_str());
                        issues.push(
                            ArithmeticIssue {
                                function_name: f.clone(),
                                operation: String::from_str(op_s),
                                suggestion: String::from_str(sugg),
                                location: loc,
                            },
                        );
                        proof {
                            let st1 = arith_record(
                                ArithState {
                                    seen: old(seen).deep_view(),
                                    issues: old(issues).deep_view(),
                                },
                                f@,
                                opc,
                                **left,
                                **right,
                                *line,
                            );
                            assert(seen.deep_view() =~~= st1.seen);
                            assert(issues.deep_view() =~~= st1.issues);
                        }
                    }
                },
                None => {},
            }
            walk_expr(left, f, seen, issues);
            walk_expr(right, f, seen, issues);
        },
        Expr::MethodCall { receiver, args, .. } => {
            walk_expr(receiver, f, seen, issues);
            walk_exprs(args, f, seen, issues);
        },
        Expr::Call { func, args, .. } => {
            walk_expr(func, f, seen, issues);
            walk_exprs(args, f, seen, issues);
        },
        Expr::Block { stmts } => {
            walk_stmts(stmts, f, seen, issues);
        },
        Expr::If { cond, then_branch, else_branch } => {
            walk_expr(cond, f, seen, issues);
            walk_stmts(then_branch, f, seen, issues);
            match else_branch {
                Some(e2) => {
                    walk_expr(e2, f, seen, issues);
                },
                None => {},
            }
        },
        Expr::Match { scrutinee, arms } => {
            walk_expr(scrutinee, f, seen, issues);
            walk_exprs(arms, f, seen, issues);
        },
        Expr::ForLoop { iter, body } => {
            walk_expr(iter, f, seen, issues);
            walk_stmts(body, f, seen, issues);
        },
        Expr::While { cond, body } => {
            walk_expr(cond, f, seen, issues);
            walk_stmts(body, f, seen, issues);
        },
        Expr::Loop { body } => {
            walk_stmts(body, f, seen, issues);
        },
        Expr::Closure { body_expr } => {
            walk_expr(body_expr, f, seen, issues);
        },
        Expr::Field { base, .. } => {
            walk_expr(base, f, seen, issues);
        },
        Expr::MacroCall { .. } => {},
        Expr::Path { .. } => {},
        Expr::Literal { .. } => {},
        Expr::Unknown { children } => {
            walk_exprs(children, f, seen, issues);
        },
    }
}

/// Walks a list of expressions, in order.
fn walk_exprs(
    es: &Vec<Expr>,
    f: &String,
    seen: &mut Vec<(String, String)>,
    issues: &mut Vec<ArithmeticIssue>,
)
    ensures
        ({
            let st = arith_exprs(
                es@,
                f@,
                ArithState { seen: old(seen).deep_view(), issues: old(issues).deep_view() },
            );
            final(seen).deep_view() == st.seen && final(issues).deep_view() == st.issues
        }),
    decreases es@,
{
    let ghost st0 = ArithState { seen: seen.deep_view(), issues: issues.deep_view() };
    let n = es.len();
    for i in 0..n
        invariant
            n == es@.len(),
            ({
                let st = arith_exprs(es@.take(i as int), f@, st0);
                seen.deep_view() == st.seen && issues.deep_view() == st.issues
            }),
        decreases n - i,
    {
        walk_expr(&es[i], f, seen, issues);
        proof {
            assert(es@.take(i + 1).drop_last() =~= es@.take(i as int));
            assert(es@.take(i + 1).last() == es@[i as int]);
        }
    }
    proof {
        assert(es@.take(n as int) =~= es@);
    }
}

/// Walks one statement.
fn walk_stmt(
    s: &Stmt,
    f: &String,
    seen: &mut Vec<(String, String)>,
    issues: &mut Vec<ArithmeticIssue>,
)
    ensures
        ({
            let st = arith_stmt(
                *s,
                f@,
                ArithState { seen: old(seen).deep_view(), issues: old(issues).deep_view() },
            );
            final(seen).deep_view() == st.seen && final(issues).deep_view() == st.issues
        }),
    decreases *s,
{
    match s {
        Stmt::ExprStmt { expr } => {
            walk_expr(expr, f, seen, issues);
        },
        Stmt::Local { init, .. } => {
            match init {
                Some(e) => {
                    walk_expr(e, f, seen, issues);
                },
                None => {},
            }
        },
        _ => {},
    }
}

/// Walks a list of statements, in order.
fn walk_stmts(
    ss: &Vec<Stmt>,
    f: &String,
    seen: &mut Vec<(String, String)>,
    issues: &mut Vec<ArithmeticIssue>,
)
    ensures
        ({
            let st = arith_stmts(
                ss@,
                f@,
                ArithState { seen: old(seen).deep_view(), issues: old(issues).deep_view() },
            );
            final(seen).deep_view() == st.seen && final(issues).deep_view() == st.issues
        }),
    decreases ss@,
{
    let ghost st0 = ArithState { seen: seen.deep_view(), issues: issues.deep_view() };
    let n = ss.len();
    for i in 0..n
        invariant
            n == ss@.len(),
            ({
                let st = arith_stmts(ss@.take(i as int), f@, st0);
                seen.deep_view() == st.seen && issues.deep_view() == st.issues
            }),
        decreases n - i,
    {
        walk_stmt(&ss[i], f, seen, issues);
        proof {
            assert(ss@.take(i + 1).drop_last() =~= ss@.take(i as int));
            assert(ss@.take(i + 1).last() == ss@[i as int]);
        }
    }
    proof {
        assert(ss@.take(n as int) =~= ss@);
    }
}

/// Scans `file` for unchecked arithmetic and returns one issue per distinct
/// (function, operator) pair, in traversal order.
pub fn scan_arithmetic_in_file(file: &SourceFile) -> (r: Vec<ArithmeticIssue>)
    ensures
        r.deep_view() == file_arith_issues(*file),
{
    let mut seen: Vec<(String, String)> = Vec::new();
    let mut issues: Vec<ArithmeticIssue> = Vec::new();
    let n = file.items.len();
    proof {
        assert(seen.deep_view() =~= arith_empty_state().seen);
        assert(issues.deep_view() =~= arith_empty_state().issues);
    }
    for i in 0..n
        invariant
            n == file.items@.len(),
            ({
                let st = arith_items(file.items@.take(i as int), arith_empty_state());
                seen.deep_view() == st.seen && issues.deep_view() == st.issues
            }),
        decreases n - i,
    {
        match &file.items[i] {
            Item::Impl { fns } => {
                let ghost stb = ArithState { seen: seen.deep_view(), issues: issues.deep_view() };
                let m = fns.len();
                for j in 0..m
                    invariant
                        m == fns@.len(),
                        ({
                            let st = arith_fns(fns@.take(j as int), stb);
                            seen.deep_view() == st.seen && issues.deep_view() == st.issues
                        }),
                    decreases m - j,
                {
                    walk_stmts(&fns[j].body, &fns[j].name, &mut seen, &mut issues);
                    proof {
                        assert(fns@.take(j + 1).drop_last() =~= fns@.take(j as int));
                        assert(fns@.take(j + 1).last() == fns@[j as int]);
                    }
                }
                proof {
                    assert(fns@.take(m as int) =~= fns@);
                }
            },
            Item::FreeFn { func } => {
                walk_stmts(&func.body, &func.name, &mut seen, &mut issues);
            },
            _ => {},
        }
        proof {
            assert(file.items@.take(i + 1).drop_last() =~= file.items@.take(i as int));
            assert(file.items@.take(i + 1).last() == file.items@[i as int]);
        }
    }
    proof {
        assert(file.items@.take(n as int) =~= file.items@);
    }
    issues
}

} // verus!
