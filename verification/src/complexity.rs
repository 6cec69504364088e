//! Complexity analyzer.
//!
//! Produces per-function metrics for every public free function and every
//! function defined inside an `impl` block: cyclomatic complexity (1 plus one
//! per `if`, loop or closure, the arm count minus one per `match`, and one
//! per `&&`/`||` anywhere in the body), the maximum nesting depth reached
//! (only `if`, `match`, loops and closures deepen nesting), the parameter
//! count, and the lines the function's rendered text spans.  Exceeding a
//! fixed threshold appends one human-readable warning per metric.  The file's
//! dependency count is the number of `use`/`extern crate` items.

use vstd::prelude::*;

use crate::ast::{Expr, FnDef, Item, SourceFile, Stmt};
use crate::findings::{ContractMetrics, ContractMetricsV, FunctionMetrics, FunctionMetricsV};
use crate::ledger::{sat, sat_add};
use crate::strutil::{dec_digits, usize_to_string};

verus! {

/// Warn when cyclomatic complexity exceeds this.
pub const THRESHOLD_CYCLOMATIC: u32 = 10;

/// Warn when the parameter count exceeds this.
pub const THRESHOLD_PARAMS: usize = 5;

/// Warn when the nesting depth exceeds this.
pub const THRESHOLD_NESTING: u32 = 4;

/// Warn when the line count exceeds this.
pub const THRESHOLD_LOC: usize = 50;

/// Clamps a mathematical count to `u32`.
pub open spec fn sat32(n: nat) -> u32 {
    if n > u32::MAX {
        u32::MAX
    } else {
        n as u32
    }
}

/// The larger of two counts.
pub open spec fn nat_max(a: nat, b: nat) -> nat {
    if a > b {
        a
    } else {
        b
    }
}

/// Cyclomatic-complexity increments contributed by one expression.
pub open spec fn expr_cc(e: Expr) -> nat
    decreases e,
{
    match e {
        Expr::Binary { op, left, right, .. } => {
            let own: nat = match op {
                crate::ast::BinOp::And | crate::ast::BinOp::Or => 1,
                _ => 0,
            };
            own + expr_cc(*left) + expr_cc(*right)
        },
        Expr::MethodCall { receiver, args, .. } => expr_cc(*receiver) + exprs_cc(args@),
        Expr::Call { func, args, .. } => expr_cc(*func) + exprs_cc(args@),
        Expr::MacroCall { .. } => 0,
        Expr::Block { stmts } => stmts_cc(stmts@),
        Expr::If { cond, then_branch, else_branch } => 1 + expr_cc(*cond) + stmts_cc(then_branch@)
            + (match else_branch {
            Some(e2) => expr_cc(*e2),
            None => 0,
        }),
        Expr::Match { scrutinee, arms } => {
            let own: nat = if arms@.len() >= 1 {
                (arms@.len() - 1) as nat
            } else {
                0
            };
            own + expr_cc(*scrutinee) + exprs_cc(arms@)
        },
        Expr::ForLoop { iter, body } => 1 + expr_cc(*iter) + stmts_cc(body@),
        Expr::While { cond, body } => 1 + expr_cc(*cond) + stmts_cc(body@),
        Expr::Loop { body } => 1 + stmts_cc(body@),
        Expr::Closure { body_expr } => 1 + expr_cc(*body_expr),
        Expr::Field { base, .. } => expr_cc(*base),
        Expr::Path { .. } => 0,
        Expr::Literal { .. } => 0,
        Expr::Unknown { children } => exprs_cc(children@),
    }
}

/// Cyclomatic increments of a list of expressions.
pub open spec fn exprs_cc(es: Seq<Expr>) -> nat
    decreases es,
{
    if es.len() == 0 {
        0
    } else {
        exprs_cc(es.drop_last()) + expr_cc(es.last())
    }
}

/// Cyclomatic increments of one statement.
pub open spec fn stmt_cc(s: Stmt) -> nat
    decreases s,
{
    match s {
        Stmt::ExprStmt { expr } => expr_cc(expr),
        Stmt::Local { init, .. } => match init {
            Some(e) => expr_cc(e),
            None => 0,
        },
        _ => 0,
    }
}

/// Cyclomatic increments of a list of statements.
pub open spec fn stmts_cc(ss: Seq<Stmt>) -> nat
    decreases ss,
{
    if ss.len() == 0 {
        0
    } else {
        stmts_cc(ss.drop_last()) + stmt_cc(ss.last())
    }
}

/// The maximum nesting depth reached inside one expression; `if`, `match`,
/// the three loops and closures deepen nesting, plain blocks do not.
pub open spec fn expr_depth(e: Expr) -> nat
    decreases e,
{
    match e {
        Expr::Binary { left, right, .. } => nat_max(expr_depth(*left), expr_depth(*right)),
        Expr::MethodCall { receiver, args, .. } => nat_max(
            expr_depth(*receiver),
            exprs_depth(args@),
        ),
        Expr::Call { func, args, .. } => nat_max(expr_depth(*func), exprs_depth(args@)),
        Expr::MacroCall { .. } => 0,
        Expr::Block { stmts } => stmts_depth(stmts@),
        Expr::If { cond, then_branch, else_branch } => 1 + nat_max(
            expr_depth(*cond),
            nat_max(
                stmts_depth(then_branch@),
                match else_branch {
                    Some(e2) => expr_depth(*e2),
                    None => 0,
                },
            ),
        ),
        Expr::Match { scrutinee, arms } => 1 + nat_max(expr_depth(*scrutinee), exprs_depth(arms@)),
        Expr::ForLoop { iter, body } => 1 + nat_max(expr_depth(*iter), stmts_depth(body@)),
        Expr::While { cond, body } => 1 + nat_max(expr_depth(*cond), stmts_depth(body@)),
        Expr::Loop { body } => 1 + stmts_depth(body@),
        Expr::Closure { body_expr } => 1 + expr_depth(*body_expr),
        Expr::Field { base, .. } => expr_depth(*base),
        Expr::Path { .. } => 0,
        Expr::Literal { .. } => 0,
        Expr::Unknown { children } => exprs_depth(children@),
    }
}

/// The maximum nesting depth over a list of expressions.
pub open spec fn exprs_depth(es: Seq<Expr>) -> nat
    decreases es,
{
    if es.len() == 0 {
        0
    } else {
        nat_max(exprs_depth(es.drop_last()), expr_depth(es.last()))
    }
}

/// The maximum nesting depth inside one statement.
pub open spec fn stmt_depth(s: Stmt) -> nat
    decreases s,
{
    match s {
        Stmt::ExprStmt { expr } => expr_depth(expr),
        Stmt::Local { init, .. } => match init {
            Some(e) => expr_depth(e),
            None => 0,
        },
        _ => 0,
    }
}

/// The maximum nesting depth over a list of statements.
pub open spec fn stmts_depth(ss: Seq<Stmt>) -> nat
    decreases ss,
{
    if ss.len() == 0 {
        0
    } else {
        nat_max(stmts_depth(ss.drop_last()), stmt_depth(ss.last()))
    }
}

/// The warnings attached to one function's metrics, in fixed order:
/// complexity, parameters, nesting, lines.
pub open spec fn warnings_for(cc: u32, params: usize, depth: u32, loc: usize) -> Seq<Seq<char>> {
    (if cc > THRESHOLD_CYCLOMATIC {
        seq!["Cyclomatic complexity "@ + dec_digits(cc as nat) + " exceeds threshold 10"@]
    } else {
        Seq::<Seq<char>>::empty()
    }) + (if params > THRESHOLD_PARAMS {
        seq![dec_digits(params as nat) + " parameters exceeds threshold 5"@]
    } else {
        Seq::<Seq<char>>::empty()
    }) + (if depth > THRESHOLD_NESTING {
        seq!["Nesting depth "@ + dec_digits(depth as nat) + " exceeds threshold 4"@]
    } else {
        Seq::<Seq<char>>::empty()
    }) + (if loc > THRESHOLD_LOC {
        seq![dec_digits(loc as nat) + " LOC exceeds threshold 50"@]
    } else {
        Seq::<Seq<char>>::empty()
    })
}

/// The metrics of one function: complexity and depth are computed from the
/// body (saturated at `u32::MAX`), parameter count and line count are the
/// front end's.
pub open spec fn fn_metrics(f: FnDef) -> FunctionMetricsV {
    let cc = sat32(1 + stmts_cc(f.body@));
    let depth = sat32(stmts_depth(f.body@));
    FunctionMetricsV {
        name: f.name@,
        cyclomatic_complexity: cc,
        param_count: f.param_count,
        max_nesting_depth: depth,
        loc: f.loc,
        warnings: warnings_for(cc, f.param_count, depth, f.loc),
    }
}

/// Metrics contributed by the functions of one `impl` block, in order.
pub open spec fn fns_metrics(fns: Seq<FnDef>) -> Seq<FunctionMetricsV>
    decreases fns,
{
    if fns.len() == 0 {
        Seq::empty()
    } else {
        fns_metrics(fns.drop_last()) + seq![fn_metrics(fns.last())]
    }
}

/// Metrics contributed by one item: public free functions and all `impl`
/// functions.
pub open spec fn item_metrics(item: Item) -> Seq<FunctionMetricsV> {
    match item {
        Item::FreeFn { func } => {
            if func.is_public {
                seq![fn_metrics(func)]
            } else {
                Seq::empty()
            }
        },
        Item::Impl { fns } => fns_metrics(fns@),
        _ => Seq::empty(),
    }
}

/// Metrics contributed by a sequence of items, in order.
pub open spec fn items_metrics(items: Seq<Item>) -> Seq<FunctionMetricsV>
    decreases items,
{
    if items.len() == 0 {
        Seq::empty()
    } else {
        items_metrics(items.drop_last()) + item_metrics(items.last())
    }
}

/// The number of `use`/`extern crate` items.
pub open spec fn count_uses(items: Seq<Item>) -> nat
    decreases items,
{
    if items.len() == 0 {
        0
    } else {
        count_uses(items.drop_last()) + (if items.last() is Use {
            1nat
        } else {
            0nat
        })
    }
}

/// The dependency count never exceeds the item count.
proof fn lemma_count_uses_le(items: Seq<Item>)
    ensures
        count_uses(items) <= items.len(),
    decreases items,
{
    if items.len() > 0 {
        lemma_count_uses_le(items.drop_last());
    }
}

/// The full metrics of one source file.
pub open spec fn contract_metrics(file: SourceFile, path: Seq<char>) -> ContractMetricsV {
    ContractMetricsV {
        contract_path: path,
        dependency_count: sat(count_uses(file.items@)),
        functions: items_metrics(file.items@),
    }
}

/// Computes the saturated cyclomatic increments of one expression.
fn expr_cc_count(e: &Expr) -> (r: usize)
    ensures
        r == sat(expr_cc(*e)),
    decreases *e,
{
    match e {
        Expr::Binary { op, left, right, .. } => {
            let own: usize = match op {
                crate::ast::BinOp::And | crate::ast::BinOp::Or => 1,
                _ => 0,
            };
            let l = expr_cc_count(left);
            let rr = expr_cc_count(right);
            proof {
                crate::ledger::lemma_sat_add(expr_cc(**left), expr_cc(**right));
                let ghost ownv: nat = match *op {
                    crate::ast::BinOp::And | crate::ast::BinOp::Or => 1,
                    _ => 0,
                };
                crate::ledger::lemma_sat_add(ownv, expr_cc(**left) + expr_cc(**right));
            }
            sat_add(own, sat_add(l, rr))
        },
        Expr::MethodCall { receiver, args, .. } => {
            let a = expr_cc_count(receiver);
            let b = exprs_cc_count(args);
            proof {
                crate::ledger::lemma_sat_add(expr_cc(**receiver), exprs_cc(args@));
            }
            sat_add(a, b)
        },
        Expr::Call { func, args, .. } => {
            let a = expr_cc_count(func);
            let b = exprs_cc_count(args);
            proof {
                crate::ledger::lemma_sat_add(expr_cc(**func), exprs_cc(args@));
            }
            sat_add(a, b)
        },
        Expr::MacroCall { .. } => 0,
        Expr::Block { stmts } => stmts_cc_count(stmts),
        Expr::If { cond, then_branch, else_branch } => {
            let c = expr_cc_count(cond);
            let t = stmts_cc_count(then_branch);
            let el = match else_branch {
                Some(e2) => expr_cc_count(e2),
                None => 0,
            };
            proof {
                let ghost ev: nat = match else_branch {
                    Some(e2) => expr_cc(**e2),
                    None => 0,
                };
                crate::ledger::lemma_sat_add(stmts_cc(then_branch@), ev);
                crate::ledger::lemma_sat_add(expr_cc(**cond), stmts_cc(then_branch@) + ev);
                crate::ledger::lemma_sat_add(1, expr_cc(**cond) + stmts_cc(then_branch@) + ev);
            }
            sat_add(1, sat_add(c, sat_add(t, el)))
        },
        Expr::Match { scrutinee, arms } => {
            let own: usize = if arms.len() >= 1 {
                arms.len() - 1
            } else {
                0
            };
            let s = expr_cc_count(scrutinee);
            let a = exprs_cc_count(arms);
            proof {
                let ghost ownv: nat = if arms@.len() >= 1 {
                    (arms@.len() - 1) as nat
                } else {
                    0
                };
                crate::ledger::lemma_sat_add(expr_cc(**scrutinee), exprs_cc(arms@));
                crate::ledger::lemma_sat_add(ownv, expr_cc(**scrutinee) + exprs_cc(arms@));
            }
            sat_add(own, sat_add(s, a))
        },
        Expr::ForLoop { iter, body } => {
            let a = expr_cc_count(iter);
            let b = stmts_cc_count(body);
            proof {
                crate::ledger::lemma_sat_add(expr_cc(**iter), stmts_cc(body@));
                crate::ledger::lemma_sat_add(1, expr_cc(**iter) + stmts_cc(body@));
            }
            sat_add(1, sat_add(a, b))
        },
        Expr::While { cond, body } => {
            let a = expr_cc_count(cond);
            let b = stmts_cc_count(body);
            proof {
                crate::ledger::lemma_sat_add(expr_cc(**cond), stmts_cc(body@));
                crate::ledger::lemma_sat_add(1, expr_cc(**cond) + stmts_cc(body@));
            }
            sat_add(1, sat_add(a, b))
        },
        Expr::Loop { body } => {
            let b = stmts_cc_count(body);
            proof {
                crate::ledger::lemma_sat_add(1, stmts_cc(body@));
            }
            sat_add(1, b)
        },
        Expr::Closure { body_expr } => {
            let b = expr_cc_count(body_expr);
            proof {
                crate::ledger::lemma_sat_add(1, expr_cc(**body_expr));
            }
            sat_add(1, b)
        },
        Expr::Field { base, .. } => expr_cc_count(base),
        Expr::Path { .. } => 0,
        Expr::Literal { .. } => 0,
        Expr::Unknown { children } => exprs_cc_count(children),
    }
}

/// Computes the saturated cyclomatic increments of a list of expressions.
fn exprs_cc_count(es: &Vec<Expr>) -> (r: usize)
    ensures
        r == sat(exprs_cc(es@)),
    decreases es@,
{
    let mut total: usize = 0;
    let n = es.len();
    for i in 0..n
        invariant
            n == es@.len(),
            total == sat(exprs_cc(es@.take(i as int))),
        decreases n - i,
    {
        let c = expr_cc_count(&es[i]);
        total = sat_add(total, c);
        proof {
            assert(es@.take(i + 1).drop_last() =~= es@.take(i as int));
            assert(es@.take(i + 1).last() == es@[i as int]);
            crate::ledger::lemma_sat_add(exprs_cc(es@.take(i as int)), expr_cc(es@[i as int]));
        }
    }
    proof {
        assert(es@.take(n as int) =~= es@);
    }
    total
}

/// Computes the saturated cyclomatic increments of one statement.
fn stmt_cc_count(s: &Stmt) -> (r: usize)
    ensures
        r == sat(stmt_cc(*s)),
    decreases *s,
{
    match s {
        Stmt::ExprStmt { expr } => expr_cc_count(expr),
        Stmt::Local { init, .. } => match init {
            Some(e) => expr_cc_count(e),
            None => 0,
        },
        _ => 0,
    }
}

/// Computes the saturated cyclomatic increments of a list of statements.
fn stmts_cc_count(ss: &Vec<Stmt>) -> (r: usize)
    ensures
        r == sat(stmts_cc(ss@)),
    decreases ss@,
{
    let mut total: usize = 0;
    let n = ss.len();
    for i in 0..n
        invariant
            n == ss@.len(),
            total == sat(stmts_cc(ss@.take(i as int))),
        decreases n - i,
    {
        let c = stmt_cc_count(&ss[i]);
        total = sat_add(total, c);
        proof {
            assert(ss@.take(i + 1).drop_last() =~= ss@.take(i as int));
            assert(ss@.take(i + 1).last() == ss@[i as int]);
            crate::ledger::lemma_sat_add(stmts_cc(ss@.take(i as int)), stmt_cc(ss@[i as int]));
        }
    }
    proof {
        assert(ss@.take(n as int) =~= ss@);
    }
    total
}

/// The saturated maximum of two saturated counts.
fn max_count(a: usize, b: usize) -> (r: usize)
    ensures
        r == a || r == b,
        r >= a && r >= b,
{
    if a > b {
        a
    } else {
        b
    }
}

/// Computes the saturated nesting depth of one expression.
fn expr_depth_count(e: &Expr) -> (r: usize)
    ensures
        r == sat(expr_depth(*e)),
    decreases *e,
{
    match e {
        Expr::Binary { left, right, .. } => {
            let a = expr_depth_count(left);
            let b = expr_depth_count(right);
            max_count(a, b)
        },
        Expr::MethodCall { receiver, args, .. } => {
            let a = expr_depth_count(receiver);
            let b = exprs_depth_count(args);
            max_count(a, b)
        },
        Expr::Call { func, args, .. } => {
            let a = expr_depth_count(func);
            let b = exprs_depth_count(args);
            max_count(a, b)
        },
        Expr::MacroCall { .. } => 0,
        Expr::Block { stmts } => stmts_depth_count(stmts),
        Expr::If { cond, then_branch, else_branch } => {
            let c = expr_depth_count(cond);
            let t = stmts_depth_count(then_branch);
            let el = match else_branch {
                Some(e2) => expr_depth_count(e2),
                None => 0,
            };
            let m = max_count(c, max_count(t, el));
            proof {
                let ghost ev: nat = match else_branch {
                    Some(e2) => expr_depth(**e2),
                    None => 0,
                };
                crate::ledger::lemma_sat_add(
                    1,
                    nat_max(expr_depth(**cond), nat_max(stmts_depth(then_branch@), ev)),
                );
            }
            sat_add(1, m)
        },
        Expr::Match { scrutinee, arms } => {
            let s = expr_depth_count(scrutinee);
            let a = exprs_depth_count(arms);
            let m = max_count(s, a);
            proof {
                crate::ledger::lemma_sat_add(
                    1,
                    nat_max(expr_depth(**scrutinee), exprs_depth(arms@)),
                );
            }
            sat_add(1, m)
        },
        Expr::ForLoop { iter, body } => {
            let a = expr_depth_count(iter);
            let b = stmts_depth_count(body);
            let m = max_count(a, b);
            proof {
                crate::ledger::lemma_sat_add(1, nat_max(expr_depth(**iter), stmts_depth(body@)));
            }
            sat_add(1, m)
        },
        Expr::While { cond, body } => {
            let a = expr_depth_count(cond);
            let b = stmts_depth_count(body);
            let m = max_count(a, b);
            proof {
                crate::ledger::lemma_sat_add(1, nat_max(expr_depth(**cond), stmts_depth(body@)));
            }
            sat_add(1, m)
        },
        Expr::Loop { body } => {
            let b = stmts_depth_count(body);
            proof {
                crate::ledger::lemma_sat_add(1, stmts_depth(body@));
            }
            sat_add(1, b)
        },
        Expr::Closure { body_expr } => {
            let b = expr_depth_count(body_expr);
            proof {
                crate::ledger::lemma_sat_add(1, expr_depth(**body_expr));
            }
            sat_add(1, b)
        },
        Expr::Field { base, .. } => expr_depth_count(base),
        Expr::Path { .. } => 0,
        Expr::Literal { .. } => 0,
        Expr::Unknown { children } => exprs_depth_count(children),
    }
}

/// Computes the saturated nesting depth over a list of expressions.
fn exprs_depth_count(es: &Vec<Expr>) -> (r: usize)
    ensures
        r == sat(exprs_depth(es@)),
    decreases es@,
{
    let mut deepest: usize = 0;
    let n = es.len();
    for i in 0..n
        invariant
            n == es@.len(),
            deepest == sat(exprs_depth(es@.take(i as int))),
        decreases n - i,
    {
        let d = expr_depth_count(&es[i]);
        deepest = max_count(deepest, d);
        proof {
            assert(es@.take(i + 1).drop_last() =~= es@.take(i as int));
            assert(es@.take(i + 1).last() == es@[i as int]);
        }
    }
    proof {
        assert(es@.take(n as int) =~= es@);
    }
    deepest
}

/// Computes the saturated nesting depth of one statement.
fn stmt_depth_count(s: &Stmt) -> (r: usize)
    ensures
        r == sat(stmt_depth(*s)),
    decreases *s,
{
    match s {
        Stmt::ExprStmt { expr } => expr_depth_count(expr),
        Stmt::Local { init, .. } => match init {
            Some(e) => expr_depth_count(e),
            None => 0,
        },
        _ => 0,
    }
}

/// Computes the saturated nesting depth over a list of statements.
fn stmts_depth_count(ss: &Vec<Stmt>) -> (r: usize)
    ensures
        r == sat(stmts_depth(ss@)),
    decreases ss@,
{
    let mut deepest: usize = 0;
    let n = ss.len();
    for i in 0..n
        invariant
            n == ss@.len(),
            deepest == sat(stmts_depth(ss@.take(i as int))),
        decreases n - i,
    {
        let d = stmt_depth_count(&ss[i]);
        deepest = max_count(deepest, d);
        proof {
            assert(ss@.take(i + 1).drop_last() =~= ss@.take(i as int));
            assert(ss@.take(i + 1).last() == ss@[i as int]);
        }
    }
    proof {
        assert(ss@.take(n as int) =~= ss@);
    }
    deepest
}

/// Clamps a saturated `usize` count to `u32`.
fn to_u32_count(n: usize, Ghost(exact): Ghost<nat>) -> (r: u32)
    requires
        n == sat(exact),
    ensures
        r == sat32(exact),
{
    if n > 0xffff_ffff as usize {
        0xffff_ffffu32
    } else {
        n as u32
    }
}

/// Builds the warning list for one function's metric values.
fn build_warnings(cc: u32, params: usize, depth: u32, loc: usize) -> (r: Vec<String>)
    ensures
        r.deep_view() == warnings_for(cc, params, depth, loc),
{
    let mut w: Vec<String> = Vec::new();
    if cc > THRESHOLD_CYCLOMATIC {
        let mut s = String::from_str("Cyclomatic complexity ");
        let num = usize_to_string(cc as usize);
        s.append(num.as_str());
        s.append(" exceeds threshold 10");
        w.push(s);
    }
    if params > THRESHOLD_PARAMS {
        let mut s = usize_to_string(params);
        s.append(" parameters exceeds threshold 5");
        w.push(s);
    }
    if depth > THRESHOLD_NESTING {
        let mut s = String::from_str("Nesting depth ");
        let num = usize_to_string(depth as usize);
        s.append(num.as_str());
        s.append(" exceeds threshold 4");
        w.push(s);
    }
    if loc > THRESHOLD_LOC {
        let mut s = usize_to_string(loc);
        s.append(" LOC exceeds threshold 50");
        w.push(s);
    }
    proof {
        assert(w.deep_view() =~~= warnings_for(cc, params, depth, loc));
    }
    w
}

/// Computes the metrics of one function definition.
fn analyze_fn(f: &FnDef) -> (r: FunctionMetrics)
    ensures
        r.deep_view() == fn_metrics(*f),
{
    let cc_body = stmts_cc_count(&f.body);
    let cc_total = sat_add(1, cc_body);
    proof {
        crate::ledger::lemma_sat_add(1, stmts_cc(f.body@));
    }
    let cc = to_u32_count(cc_total, Ghost(1 + stmts_cc(f.body@)));
    let depth_body = stmts_depth_count(&f.body);
    let depth = to_u32_count(depth_body, Ghost(stmts_depth(f.body@)));
    let warnings = build_warnings(cc, f.param_count, depth, f.loc);
    FunctionMetrics {
        name: f.name.clone(),
        cyclomatic_complexity: cc,
        param_count: f.param_count,
        max_nesting_depth: depth,
        loc: f.loc,
        warnings,
    }
}

/// Analyzes every public free function and every `impl` function of `file`,
/// and counts its `use`/`extern crate` items as dependencies.
pub fn analyze_complexity(file: &SourceFile, contract_path: &str) -> (r: ContractMetrics)
    ensures
        r.deep_view() == contract_metrics(*file, contract_path@),
{
    let mut functions: Vec<FunctionMetrics> = Vec::new();
    let mut dependency_count: usize = 0;
    let n = file.items.len();
    for i in 0..n
        invariant
            n == file.items@.len(),
            functions.deep_view() == items_metrics(file.items@.take(i as int)),
            dependency_count == sat(count_uses(file.items@.take(i as int))),
        decreases n - i,
    {
        let ghost pre = functions.deep_view();
        match &file.items[i] {
            Item::FreeFn { func } => {
                if func.is_public {
                    let m = analyze_fn(func);
                    functions.push(m);
                }
            },
            Item::Impl { fns } => {
                let ghost base = functions.deep_view();
                let m = fns.len();
                for j in 0..m
                    invariant
                        m == fns@.len(),
                        functions.deep_view() == base + fns_metrics(fns@.take(j as int)),
                    decreases m - j,
                {
                    let fm = analyze_fn(&fns[j]);
                    functions.push(fm);
                    proof {
                        assert(functions.deep_view() =~~= base + fns_metrics(fns@.take(j as int))
                            + seq![fn_metrics(fns@[j as int])]);
                        assert(fns@.take(j + 1).drop_last() =~= fns@.take(j as int));
                        assert(fns@.take(j + 1).last() == fns@[j as int]);
                        assert(fns_metrics(fns@.take(j + 1)) == fns_metrics(fns@.take(j as int))
                            + seq![fn_metrics(fns@[j as int])]);
                        assert(functions.deep_view() =~~= base + fns_metrics(fns@.take(j + 1)));
                    }
                }
                proof {
                    assert(fns@.take(m as int) =~= fns@);
                }
            },
            Item::Use => {
                dependency_count = sat_add(dependency_count, 1);
                proof {
                    crate::ledger::lemma_sat_add(count_uses(file.items@.take(i as int)), 1);
                }
            },
            _ => {},
        }
        proof {
            assert(functions.deep_view() =~~= pre + item_metrics(file.items@[i as int]));
            assert(file.items@.take(i + 1).drop_last() =~= file.items@.take(i as int));
            assert(file.items@.take(i + 1).last() == file.items@[i as int]);
            assert(functions.deep_view() =~~= items_metrics(file.items@.take(i + 1)));
        }
    }
    proof {
        assert(file.items@.take(n as int) =~= file.items@);
    }
    ContractMetrics {
        contract_path: contract_path.to_owned(),
        dependency_count,
        functions,
    }
}

} // verus!
