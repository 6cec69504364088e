//! Gas/instruction estimator.
//!
//! For every public function in an `impl` block, produces a heuristic cost
//! estimate in synthetic instructions and stack bytes.  Each function starts
//! at a base cost of 50 instructions and 32 bytes; the walk then adds 5 per
//! binary operation, 20 per free-function call, 1000 per storage-primitive
//! method call (`get`/`set`/`has`/`update`/`remove`), 500 per authorization
//! check, 25 per other method call, and 2 instructions plus the declared
//! type's estimated size in bytes (or a flat 8 bytes without an explicit
//! type) per local binding.  Collection-literal macros add 128 bytes and 50
//! instructions, symbol/string-construction macros 32 bytes and 10
//! instructions, any other macro 10 instructions.  A loop's body is estimated
//! in isolation as if it were its own function; the loop then costs a fixed
//! 50-instruction overhead plus ten times the body's estimate — an explicit
//! heuristic standing in for roughly ten iterations, not a real bound.

use vstd::prelude::*;

use crate::ast::{Expr, FnDef, Item, SourceFile, Stmt};
use crate::findings::{GasEstimationReport, GasEstimationReportV};
use crate::ledger::{estimate_type_size, lemma_sat_add, lemma_sat_mul, sat, sat_add, sat_mul, type_size};
use crate::strutil::{spec_is_ident, is_ident, str_eq};

verus! {

/// A cost in synthetic instructions and stack bytes.
pub struct GasCost {
    pub instructions: nat,
    pub memory: nat,
}

/// The zero cost.
pub open spec fn gc_zero() -> GasCost {
    GasCost { instructions: 0, memory: 0 }
}

/// Componentwise sum.
pub open spec fn gc_add(a: GasCost, b: GasCost) -> GasCost {
    GasCost { instructions: a.instructions + b.instructions, memory: a.memory + b.memory }
}

/// The base cost of entering a function: 50 instructions, 32 stack bytes.
pub open spec fn gc_base() -> GasCost {
    GasCost { instructions: 50, memory: 32 }
}

/// The cost a method call adds, by the method's name.
pub open spec fn method_call_cost(name: Seq<char>) -> nat {
    if name == "get"@ || name == "set"@ || name == "has"@ || name == "update"@ || name
        == "remove"@ {
        1000
    } else if name == "require_auth"@ {
        500
    } else {
        25
    }
}

/// The cost one expression adds to its enclosing function.
pub open spec fn expr_gas(e: Expr) -> GasCost
    decreases e, 0int,
{
    match e {
        Expr::Binary { left, right, .. } => gc_add(
            GasCost { instructions: 5, memory: 0 },
            gc_add(expr_gas(*left), expr_gas(*right)),
        ),
        Expr::MethodCall { name, receiver, args } => gc_add(
            GasCost { instructions: method_call_cost(name@), memory: 0 },
            gc_add(expr_gas(*receiver), exprs_gas(args@)),
        ),
        Expr::Call { func, args, .. } => gc_add(
            GasCost { instructions: 20, memory: 0 },
            gc_add(expr_gas(*func), exprs_gas(args@)),
        ),
        Expr::MacroCall { path, .. } => {
            if spec_is_ident(path.deep_view(), "vec"@) || spec_is_ident(path.deep_view(), "map"@) {
                GasCost { instructions: 50, memory: 128 }
            } else if spec_is_ident(path.deep_view(), "symbol_short"@) || spec_is_ident(
                path.deep_view(),
                "String"@,
            ) {
                GasCost { instructions: 10, memory: 32 }
            } else {
                GasCost { instructions: 10, memory: 0 }
            }
        },
        Expr::Block { stmts } => stmts_gas(stmts@),
        Expr::If { cond, then_branch, else_branch } => gc_add(
            expr_gas(*cond),
            gc_add(
                stmts_gas(then_branch@),
                match else_branch {
                    Some(e2) => expr_gas(*e2),
                    None => gc_zero(),
                },
            ),
        ),
        Expr::Match { scrutinee, arms } => gc_add(expr_gas(*scrutinee), exprs_gas(arms@)),
        Expr::ForLoop { iter, body } => gc_add(loop_gas(body@), expr_gas(*iter)),
        Expr::While { cond, body } => gc_add(loop_gas(body@), expr_gas(*cond)),
        Expr::Loop { body } => loop_gas(body@),
        Expr::Closure { body_expr } => expr_gas(*body_expr),
        Expr::Field { base, .. } => expr_gas(*base),
        Expr::Path { .. } => gc_zero(),
        Expr::Literal { .. } => gc_zero(),
        Expr::Unknown { children } => exprs_gas(children@),
    }
}

/// The cost a loop adds: a 50-instruction overhead plus ten times its body,
/// the body estimated in isolation with the function base cost included.
pub open spec fn loop_gas(body: Seq<Stmt>) -> GasCost
    decreases body, 1int,
{
    let inner = gc_add(gc_base(), stmts_gas(body));
    GasCost { instructions: 50 + inner.instructions * 10, memory: inner.memory * 10 }
}

/// The cost a list of expressions adds.
pub open spec fn exprs_gas(es: Seq<Expr>) -> GasCost
    decreases es, 0int,
{
    if es.len() == 0 {
        gc_zero()
    } else {
        gc_add(exprs_gas(es.drop_last()), expr_gas(es.last()))
    }
}

/// The cost one statement adds: a local binding costs 2 instructions plus its
/// declared type's estimated size in bytes (a flat 8 bytes without one).
pub open spec fn stmt_gas(s: Stmt) -> GasCost
    decreases s, 0int,
{
    match s {
        Stmt::ExprStmt { expr } => expr_gas(expr),
        Stmt::Local { ty, init } => {
            let decl = GasCost {
                instructions: 2,
                memory: match ty {
                    Some(t) => type_size(t),
                    None => 8,
                },
            };
            gc_add(
                decl,
                match init {
                    Some(e) => expr_gas(e),
                    None => gc_zero(),
                },
            )
        },
        _ => gc_zero(),
    }
}

/// The cost a list of statements adds.
pub open spec fn stmts_gas(ss: Seq<Stmt>) -> GasCost
    decreases ss, 0int,
{
    if ss.len() == 0 {
        gc_zero()
    } else {
        gc_add(stmts_gas(ss.drop_last()), stmt_gas(ss.last()))
    }
}

/// The report for one public `impl` function: base cost plus its body's cost,
/// saturated at `usize::MAX`.
pub open spec fn fn_gas_report(f: FnDef) -> GasEstimationReportV {
    let total = gc_add(gc_base(), stmts_gas(f.body@));
    GasEstimationReportV {
        function_name: f.name@,
        estimated_instructions: sat(total.instructions),
        estimated_memory_bytes: sat(total.memory),
    }
}

/// Reports contributed by the functions of one `impl` block: public functions
/// only, in declaration order.
pub open spec fn fns_gas_reports(fns: Seq<FnDef>) -> Seq<GasEstimationReportV>
    decreases fns,
{
    if fns.len() == 0 {
        Seq::empty()
    } else {
        fns_gas_reports(fns.drop_last()) + (if fns.last().is_public {
            seq![fn_gas_report(fns.last())]
        } else {
            Seq::<GasEstimationReportV>::empty()
        })
    }
}

/// Reports contributed by one item: only `impl` blocks are scanned.
pub open spec fn item_gas_reports(item: Item) -> Seq<GasEstimationReportV> {
    match item {
        Item::Impl { fns } => fns_gas_reports(fns@),
        _ => Seq::empty(),
    }
}

/// Reports contributed by a sequence of items, in order.
pub open spec fn items_gas_reports(items: Seq<Item>) -> Seq<GasEstimationReportV>
    decreases items,
{
    if items.len() == 0 {
        Seq::empty()
    } else {
        items_gas_reports(items.drop_last()) + item_gas_reports(items.last())
    }
}

/// All gas reports of one source file, in declaration order.
pub open spec fn file_gas_reports(file: SourceFile) -> Seq<GasEstimationReportV> {
    items_gas_reports(file.items@)
}

/// Computes the saturated cost of one expression.
fn expr_cost(e: &Expr) -> (r: (usize, usize))
    ensures
        r.0 == sat(expr_gas(*e).instructions),
        r.1 == sat(expr_gas(*e).memory),
    decreases *e, 0int,
{
    match e {
        Expr::Binary { left, right, .. } => {
            let l = expr_cost(left);
            let rr = expr_cost(right);
            proof {
                lemma_sat_add(expr_gas(**left).instructions, expr_gas(**right).instructions);
                lemma_sat_add(expr_gas(**left).memory, expr_gas(**right).memory);
                lemma_sat_add(
                    5,
                    expr_gas(**left).instructions + expr_gas(**right).instructions,
                );
            }
            (sat_add(5, sat_add(l.0, rr.0)), sat_add(l.1, rr.1))
        },
        Expr::MethodCall { name, receiver, args } => {
            let own: usize = if str_eq(name.as_str(), "get") || str_eq(name.as_str(), "set")
                || str_eq(name.as_str(), "has") || str_eq(name.as_str(), "update") || str_eq(
                name.as_str(),
                "remove",
            ) {
                1000
            } else if str_eq(name.as_str(), "require_auth") {
                500
            } else {
                25
            };
            let rec = expr_cost(receiver);
            let ar = exprs_cost(args);
            proof {
                lemma_sat_add(expr_gas(**receiver).instructions, exprs_gas(args@).instructions);
                lemma_sat_add(expr_gas(**receiver).memory, exprs_gas(args@).memory);
                lemma_sat_add(
                    method_call_cost(name@),
                    expr_gas(**receiver).instructions + exprs_gas(args@).instructions,
                );
            }
            (sat_add(own, sat_add(rec.0, ar.0)), sat_add(rec.1, ar.1))
        },
        Expr::Call { func, args, .. } => {
            let fc = expr_cost(func);
            let ar = exprs_cost(args);
            proof {
                lemma_sat_add(expr_gas(**func).instructions, exprs_gas(args@).instructions);
                lemma_sat_add(expr_gas(**func).memory, exprs_gas(args@).memory);
                lemma_sat_add(20, expr_gas(**func).instructions + exprs_gas(args@).instructions);
            }
            (sat_add(20, sat_add(fc.0, ar.0)), sat_add(fc.1, ar.1))
        },
        Expr::MacroCall { path, .. } => {
            if is_ident(path, "vec") || is_ident(path, "map") {
                (50, 128)
            } else if is_ident(path, "symbol_short") || is_ident(path, "String") {
                (10, 32)
            } else {
                (10, 0)
            }
        },
        Expr::Block { stmts } => stmts_cost(stmts),
        Expr::If { cond, then_branch, else_branch } => {
            let c = expr_cost(cond);
            let t = stmts_cost(then_branch);
            let el = match else_branch {
                Some(e2) => expr_cost(e2),
                None => (0, 0),
            };
            proof {
                let ghost ec = match else_branch {
                    Some(e2) => expr_gas(**e2),
                    None => gc_zero(),
                };
                lemma_sat_add(stmts_gas(then_branch@).instructions, ec.instructions);
                lemma_sat_add(stmts_gas(then_branch@).memory, ec.memory);
                lemma_sat_add(
                    expr_gas(**cond).instructions,
                    stmts_gas(then_branch@).instructions + ec.instructions,
                );
                lemma_sat_add(
                    expr_gas(**cond).memory,
                    stmts_gas(then_branch@).memory + ec.memory,
                );
            }
            (sat_add(c.0, sat_add(t.0, el.0)), sat_add(c.1, sat_add(t.1, el.1)))
        },
        Expr::Match { scrutinee, arms } => {
            let s = expr_cost(scrutinee);
            let a = exprs_cost(arms);
            proof {
                lemma_sat_add(expr_gas(**scrutinee).instructions, exprs_gas(arms@).instructions);
                lemma_sat_add(expr_gas(**scrutinee).memory, exprs_gas(arms@).memory);
            }
            (sat_add(s.0, a.0), sat_add(s.1, a.1))
        },
        Expr::ForLoop { iter, body } => {
            let lc = loop_cost(body);
            let ic = expr_cost(iter);
            proof {
                lemma_sat_add(loop_gas(body@).instructions, expr_gas(**iter).instructions);
                lemma_sat_add(loop_gas(body@).memory, expr_gas(**iter).memory);
            }
            (sat_add(lc.0, ic.0), sat_add(lc.1, ic.1))
        },
        Expr::While { cond, body } => {
            let lc = loop_cost(body);
            let cc = expr_cost(cond);
            proof {
                lemma_sat_add(loop_gas(body@).instructions, expr_gas(**cond).instructions);
                lemma_sat_add(loop_gas(body@).memory, expr_gas(**cond).memory);
            }
            (sat_add(lc.0, cc.0), sat_add(lc.1, cc.1))
        },
        Expr::Loop { body } => loop_cost(body),
        Expr::Closure { body_expr } => expr_cost(body_expr),
        Expr::Field { base, .. } => expr_cost(base),
        Expr::Path { .. } => (0, 0),
        Expr::Literal { .. } => (0, 0),
        Expr::Unknown { children } => exprs_cost(children),
    }
}

/// Computes the saturated cost of a loop with the given body.
fn loop_cost(body: &Vec<Stmt>) -> (r: (usize, usize))
    ensures
        r.0 == sat(loop_gas(body@).instructions),
        r.1 == sat(loop_gas(body@).memory),
    decreases body@, 1int,
{
    let b = stmts_cost(body);
    let inner_i = sat_add(50, b.0);
    let inner_m = sat_add(32, b.1);
    proof {
        lemma_sat_add(50, stmts_gas(body@).instructions);
        lemma_sat_add(32, stmts_gas(body@).memory);
        lemma_sat_mul(50 + stmts_gas(body@).instructions, 10);
        lemma_sat_mul(32 + stmts_gas(body@).memory, 10);
        lemma_sat_add(50, (50 + stmts_gas(body@).instructions) * 10);
    }
    (sat_add(50, sat_mul(inner_i, 10)), sat_mul(inner_m, 10))
}

/// Computes the saturated cost of a list of expressions.
fn exprs_cost(es: &Vec<Expr>) -> (r: (usize, usize))
    ensures
        r.0 == sat(exprs_gas(es@).instructions),
        r.1 == sat(exprs_gas(es@).memory),
    decreases es@, 0int,
{
    let mut instructions: usize = 0;
    let mut memory: usize = 0;
    let n = es.len();
    for i in 0..n
        invariant
            n == es@.len(),
            instructions == sat(exprs_gas(es@.take(i as int)).instructions),
            memory == sat(exprs_gas(es@.take(i as int)).memory),
        decreases n - i,
    {
        let c = expr_cost(&es[i]);
        instructions = sat_add(instructions, c.0);
        memory = sat_add(memory, c.1);
        proof {
            assert(es@.take(i + 1).drop_last() =~= es@.take(i as int));
            assert(es@.take(i + 1).last() == es@[i as int]);
            lemma_sat_add(
                exprs_gas(es@.take(i as int)).instructions,
                expr_gas(es@[i as int]).instructions,
            );
            lemma_sat_add(exprs_gas(es@.take(i as int)).memory, expr_gas(es@[i as int]).memory);
        }
    }
    proof {
        assert(es@.take(n as int) =~= es@);
    }
    (instructions, memory)
}

/// Computes the saturated cost of one statement.
fn stmt_cost(s: &Stmt) -> (r: (usize, usize))
    ensures
        r.0 == sat(stmt_gas(*s).instructions),
        r.1 == sat(stmt_gas(*s).memory),
    decreases *s, 0int,
{
    match s {
        Stmt::ExprStmt { expr } => expr_cost(expr),
        Stmt::Local { ty, init } => {
            let decl_mem: usize = match ty {
                Some(t) => estimate_type_size(t),
                None => 8,
            };
            let ic = match init {
                Some(e) => expr_cost(e),
                None => (0, 0),
            };
            proof {
                let ghost icost = match init {
                    Some(e) => expr_gas(*e),
                    None => gc_zero(),
                };
                let ghost dmem: nat = match ty {
                    Some(t) => type_size(*t),
                    None => 8,
                };
                lemma_sat_add(2, icost.instructions);
                lemma_sat_add(dmem, icost.memory);
            }
            (sat_add(2, ic.0), sat_add(decl_mem, ic.1))
        },
        _ => (0, 0),
    }
}

/// Computes the saturated cost of a list of statements.
fn stmts_cost(ss: &Vec<Stmt>) -> (r: (usize, usize))
    ensures
        r.0 == sat(stmts_gas(ss@).instructions),
        r.1 == sat(stmts_gas(ss@).memory),
    decreases ss@, 0int,
{
    let mut instructions: usize = 0;
    let mut memory: usize = 0;
    let n = ss.len();
    for i in 0..n
        invariant
            n == ss@.len(),
            instructions == sat(stmts_gas(ss@.take(i as int)).instructions),
            memory == sat(stmts_gas(ss@.take(i as int)).memory),
        decreases n - i,
    {
        let c = stmt_cost(&ss[i]);
        instructions = sat_add(instructions, c.0);
        memory = sat_add(memory, c.1);
        proof {
            assert(ss@.take(i + 1).drop_last() =~= ss@.take(i as int));
            assert(ss@.take(i + 1).last() == ss@[i as int]);
            lemma_sat_add(
                stmts_gas(ss@.take(i as int)).instructions,
                stmt_gas(ss@[i as int]).instructions,
            );
            lemma_sat_add(stmts_gas(ss@.take(i as int)).memory, stmt_gas(ss@[i as int]).memory);
        }
    }
    proof {
        assert(ss@.take(n as int) =~= ss@);
    }
    (instructions, memory)
}

/// The gas estimator: stateless, offered as a type so a driver can hold one.
pub struct GasEstimator {}

impl GasEstimator {
    /// A fresh estimator.
    pub fn new() -> (r: GasEstimator) {
        GasEstimator {  }
    }

    /// Estimates every public function of every `impl` block of `file`.
    pub fn estimate_contract(&self, file: &SourceFile) -> (r: Vec<GasEstimationReport>)
        ensures
            r.deep_view() == file_gas_reports(*file),
    {
        estimate_gas_in_file(file)
    }
}

/// Estimates every public function of every `impl` block of `file`, in
/// declaration order.
pub fn estimate_gas_in_file(file: &SourceFile) -> (r: Vec<GasEstimationReport>)
    ensures
        r.deep_view() == file_gas_reports(*file),
{
    let mut reports: Vec<GasEstimationReport> = Vec::new();
    let n = file.items.len();
    for i in 0..n
        invariant
            n == file.items@.len(),
            reports.deep_view() == items_gas_reports(file.items@.take(i as int)),
        decreases n - i,
    {
        match &file.items[i] {
            Item::Impl { fns } => {
                let m = fns.len();
                let ghost base = reports.deep_view();
                for j in 0..m
                    invariant
                        m == fns@.len(),
                        reports.deep_view() == base + fns_gas_reports(fns@.take(j as int)),
                    decreases m - j,
                {
                    let f = &fns[j];
                    let ghost pre = reports.deep_view();
                    if f.is_public {
                        let b = stmts_cost(&f.body);
                        let total_i = sat_add(50, b.0);
                        let total_m = sat_add(32, b.1);
                        proof {
                            lemma_sat_add(50, stmts_gas(f.body@).instructions);
                            lemma_sat_add(32, stmts_gas(f.body@).memory);
                        }
                        reports.push(
                            GasEstimationReport {
                                function_name: f.name.clone(),
                                estimated_instructions: total_i,
                                estimated_memory_bytes: total_m,
                            },
                        );
                    }
                    proof {
                        let ghost contributed = if fns@[j as int].is_public {
                            seq![fn_gas_report(fns@[j as int])]
                        } else {
                            Seq::<GasEstimationReportV>::empty()
                        };
                        assert(reports.deep_view() =~~= pre + contributed);
                        assert(fns@.take(j + 1).drop_last() =~= fns@.take(j as int));
                        assert(fns@.take(j + 1).last() == fns@[j as int]);
                        assert(fns_gas_reports(fns@.take(j + 1)) == fns_gas_reports(
                            fns@.take(j as int),
                        ) + contributed);
                        assert(reports.deep_view() =~~= base + fns_gas_reports(fns@.take(j + 1)));
                    }
                }
                proof {
                    assert(fns@.take(m as int) =~= fns@);
                }
            },
            _ => {},
        }
        proof {
            assert(file.items@.take(i + 1).drop_last() =~= file.items@.take(i as int));
            assert(file.items@.take(i + 1).last() == file.items@[i as int]);
        }
    }
    proof {
        assert(file.items@.take(n as int) =~= file.items@);
    }
    reports
}

} // verus!
