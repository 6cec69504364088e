//! Authorization-gap detector.
//!
//! For every public function defined inside an `impl` block, the walk tracks
//! two facts: whether the body anywhere invokes an authorization primitive
//! (`require_auth` or `require_auth_for_args`, as a free call, a method call,
//! or a statement macro), and whether it anywhere calls a mutating method
//! (`set`, `update` or `remove`) on a storage-like receiver.  A function is a
//! gap exactly when it mutates and never authorizes.  The check is purely
//! syntactic and not control-flow sensitive: an authorization call anywhere in
//! the body — even in an unrelated branch — suppresses the finding.
//!
//! A receiver is *storage-like* when its text contains one of the storage
//! keywords `storage`, `persistent`, `temporary`, `instance`; here "text"
//! means the names, path segments, field members and string literals the
//! receiver expression is built from.

use vstd::prelude::*;

use crate::ast::{Expr, FnDef, Item, Lit, SourceFile, Stmt};
use crate::strutil::{contains_substr, spec_contains, str_eq};

verus! {

/// One of the names that counts as an authorization primitive.
pub open spec fn is_auth_name(name: Seq<char>) -> bool {
    name == "require_auth"@ || name == "require_auth_for_args"@
}

/// One of the method names that counts as a storage mutation.
pub open spec fn is_mutation_name(name: Seq<char>) -> bool {
    name == "set"@ || name == "update"@ || name == "remove"@
}

/// Some text in the list contains `kw`.
pub open spec fn any_text_has(texts: Seq<Seq<char>>, kw: Seq<char>) -> bool
    decreases texts,
{
    if texts.len() == 0 {
        false
    } else {
        any_text_has(texts.drop_last(), kw) || spec_contains(texts.last(), kw)
    }
}

/// The expression's text — its names, path segments, field members and string
/// literals — contains `kw` somewhere.
pub open spec fn expr_text_has(e: Expr, kw: Seq<char>) -> bool
    decreases e,
{
    match e {
        Expr::Binary { left, right, .. } => expr_text_has(*left, kw) || expr_text_has(*right, kw),
        Expr::MethodCall { name, receiver, args } => spec_contains(name@, kw) || expr_text_has(
            *receiver,
            kw,
        ) || exprs_text_has(args@, kw),
        Expr::Call { func, args, .. } => expr_text_has(*func, kw) || exprs_text_has(args@, kw),
        Expr::MacroCall { path, str_arg, .. } => any_text_has(path.deep_view(), kw) || match str_arg {
            Some(s) => spec_contains(s@, kw),
            None => false,
        },
        Expr::Block { stmts } => stmts_text_has(stmts@, kw),
        Expr::If { cond, then_branch, else_branch } => expr_text_has(*cond, kw) || stmts_text_has(
            then_branch@,
            kw,
        ) || match else_branch {
            Some(e2) => expr_text_has(*e2, kw),
            None => false,
        },
        Expr::Match { scrutinee, arms } => expr_text_has(*scrutinee, kw) || exprs_text_has(
            arms@,
            kw,
        ),
        Expr::ForLoop { iter, body } => expr_text_has(*iter, kw) || stmts_text_has(body@, kw),
        Expr::While { cond, body } => expr_text_has(*cond, kw) || stmts_text_has(body@, kw),
        Expr::Loop { body } => stmts_text_has(body@, kw),
        Expr::Closure { body_expr } => expr_text_has(*body_expr, kw),
        Expr::Field { base, member } => spec_contains(member@, kw) || expr_text_has(*base, kw),
        Expr::Path { segments } => any_text_has(segments.deep_view(), kw),
        Expr::Literal { lit } => match lit {
            Lit::Str(s) => spec_contains(s@, kw),
            _ => false,
        },
        Expr::Unknown { children } => exprs_text_has(children@, kw),
    }
}

/// Some expression in the list has text containing `kw`.
pub open spec fn exprs_text_has(es: Seq<Expr>, kw: Seq<char>) -> bool
    decreases es,
{
    if es.len() == 0 {
        false
    } else {
        exprs_text_has(es.drop_last(), kw) || expr_text_has(es.last(), kw)
    }
}

/// The statement's text contains `kw` somewhere.
pub open spec fn stmt_text_has(s: Stmt, kw: Seq<char>) -> bool
    decreases s,
{
    match s {
        Stmt::ExprStmt { expr } => expr_text_has(expr, kw),
        Stmt::Local { init, .. } => match init {
            Some(e) => expr_text_has(e, kw),
            None => false,
        },
        Stmt::MacroStmt { path } => any_text_has(path.deep_view(), kw),
        Stmt::Other => false,
    }
}

/// Some statement in the list has text containing `kw`.
pub open spec fn stmts_text_has(ss: Seq<Stmt>, kw: Seq<char>) -> bool
    decreases ss,
{
    if ss.len() == 0 {
        false
    } else {
        stmts_text_has(ss.drop_last(), kw) || stmt_text_has(ss.last(), kw)
    }
}

/// The expression renders as storage-like text: it contains one of the four
/// storage keywords.
pub open spec fn storage_like(e: Expr) -> bool {
    expr_text_has(e, "storage"@) || expr_text_has(e, "persistent"@) || expr_text_has(
        e,
        "temporary"@,
    ) || expr_text_has(e, "instance"@)
}

/// An authorization primitive is invoked somewhere in the expression.
pub open spec fn expr_has_auth(e: Expr) -> bool
    decreases e,
{
    match e {
        Expr::Call { func, args, .. } => {
            let func_is_auth = match *func {
                Expr::Path { segments } => segments@.len() > 0 && is_auth_name(
                    segments@.last()@,
                ),
                _ => false,
            };
            func_is_auth || exprs_has_auth(args@)
        },
        Expr::MethodCall { name, receiver, args } => is_auth_name(name@) || expr_has_auth(
            *receiver,
        ) || exprs_has_auth(args@),
        Expr::Block { stmts } => stmts_has_auth(stmts@),
        Expr::If { cond, then_branch, else_branch } => expr_has_auth(*cond) || stmts_has_auth(
            then_branch@,
        ) || match else_branch {
            Some(e2) => expr_has_auth(*e2),
            None => false,
        },
        Expr::Match { scrutinee, arms } => expr_has_auth(*scrutinee) || exprs_has_auth(arms@),
        _ => false,
    }
}

/// Some expression in the list invokes an authorization primitive.
pub open spec fn exprs_has_auth(es: Seq<Expr>) -> bool
    decreases es,
{
    if es.len() == 0 {
        false
    } else {
        exprs_has_auth(es.drop_last()) || expr_has_auth(es.last())
    }
}

/// An authorization primitive is invoked somewhere in the statement.
pub open spec fn stmt_has_auth(s: Stmt) -> bool
    decreases s,
{
    match s {
        Stmt::ExprStmt { expr } => expr_has_auth(expr),
        Stmt::Local { init, .. } => match init {
            Some(e) => expr_has_auth(e),
            None => false,
        },
        Stmt::MacroStmt { path } => path@.len() == 1 && is_auth_name(path@[0]@),
        Stmt::Other => false,
    }
}

/// Some statement in the list invokes an authorization primitive.
pub open spec fn stmts_has_auth(ss: Seq<Stmt>) -> bool
    decreases ss,
{
    if ss.len() == 0 {
        false
    } else {
        stmts_has_auth(ss.drop_last()) || stmt_has_auth(ss.last())
    }
}

/// A mutating method is called on a storage-like receiver somewhere in the
/// expression.
pub open spec fn expr_has_mutation(e: Expr) -> bool
    decreases e,
{
    match e {
        Expr::Call { args, .. } => exprs_has_mutation(args@),
        Expr::MethodCall { name, receiver, args } => (is_mutation_name(name@) && storage_like(
            *receiver,
        )) || expr_has_mutation(*receiver) || exprs_has_mutation(args@),
        Expr::Block { stmts } => stmts_has_mutation(stmts@),
        Expr::If { cond, then_branch, else_branch } => expr_has_mutation(*cond)
            || stmts_has_mutation(then_branch@) || match else_branch {
            Some(e2) => expr_has_mutation(*e2),
            None => false,
        },
        Expr::Match { scrutinee, arms } => expr_has_mutation(*scrutinee) || exprs_has_mutation(
            arms@,
        ),
        _ => false,
    }
}

/// Some expression in the list mutates storage.
pub open spec fn exprs_has_mutation(es: Seq<Expr>) -> bool
    decreases es,
{
    if es.len() == 0 {
        false
    } else {
        exprs_has_mutation(es.drop_last()) || expr_has_mutation(es.last())
    }
}

/// Storage is mutated somewhere in the statement.
pub open spec fn stmt_has_mutation(s: Stmt) -> bool
    decreases s,
{
    match s {
        Stmt::ExprStmt { expr } => expr_has_mutation(expr),
        Stmt::Local { init, .. } => match init {
            Some(e) => expr_has_mutation(e),
            None => false,
        },
        _ => false,
    }
}

/// Some statement in the list mutates storage.
pub open spec fn stmts_has_mutation(ss: Seq<Stmt>) -> bool
    decreases ss,
{
    if ss.len() == 0 {
        false
    } else {
        stmts_has_mutation(ss.drop_last()) || stmt_has_mutation(ss.last())
    }
}

/// A public `impl` function that mutates storage and never authorizes.
pub open spec fn fn_is_auth_gap(f: FnDef) -> bool {
    f.is_public && stmts_has_mutation(f.body@) && !stmts_has_auth(f.body@)
}

/// The gap names contributed by the functions of one `impl` block, in order.
pub open spec fn fns_auth_gaps(fns: Seq<FnDef>) -> Seq<Seq<char>>
    decreases fns,
{
    if fns.len() == 0 {
        Seq::empty()
    } else {
        fns_auth_gaps(fns.drop_last()) + (if fn_is_auth_gap(fns.last()) {
            seq![fns.last().name@]
        } else {
            Seq::<Seq<char>>::empty()
        })
    }
}

/// The gap names contributed by one item: only `impl` blocks are scanned.
pub open spec fn item_auth_gaps(item: Item) -> Seq<Seq<char>> {
    match item {
        Item::Impl { fns } => fns_auth_gaps(fns@),
        _ => Seq::empty(),
    }
}

/// The gap names contributed by a sequence of items, in order.
pub open spec fn items_auth_gaps(items: Seq<Item>) -> Seq<Seq<char>>
    decreases items,
{
    if items.len() == 0 {
        Seq::empty()
    } else {
        items_auth_gaps(items.drop_last()) + item_auth_gaps(items.last())
    }
}

/// The names of all public `impl` functions of `file` that mutate storage
/// without an authorization call, in declaration order.
pub open spec fn file_auth_gaps(file: SourceFile) -> Seq<Seq<char>> {
    items_auth_gaps(file.items@)
}

/// The functions an item defines inside an `impl` block.
pub open spec fn item_fns(item: Item) -> Seq<FnDef> {
    match item {
        Item::Impl { fns } => fns@,
        _ => Seq::empty(),
    }
}

/// How often `n` occurs in a list of names.
pub open spec fn count_name(names: Seq<Seq<char>>, n: Seq<char>) -> nat
    decreases names,
{
    if names.len() == 0 {
        0
    } else {
        count_name(names.drop_last(), n) + (if names.last() == n {
            1nat
        } else {
            0nat
        })
    }
}

/// How many functions in an `impl` block are gaps named `n`.
pub open spec fn count_gap_fns(fns: Seq<FnDef>, n: Seq<char>) -> nat
    decreases fns,
{
    if fns.len() == 0 {
        0
    } else {
        count_gap_fns(fns.drop_last(), n) + (if fn_is_auth_gap(fns.last()) && fns.last().name@
            == n {
            1nat
        } else {
            0nat
        })
    }
}

/// How many `impl` functions across the items are gaps named `n`.
pub open spec fn count_gap_fns_items(items: Seq<Item>, n: Seq<char>) -> nat
    decreases items,
{
    if items.len() == 0 {
        0
    } else {
        count_gap_fns_items(items.drop_last(), n) + count_gap_fns(item_fns(items.last()), n)
    }
}

/// Name counts distribute over concatenation.
proof fn lemma_count_name_concat(a: Seq<Seq<char>>, b: Seq<Seq<char>>, n: Seq<char>)
    ensures
        count_name(a + b, n) == count_name(a, n) + count_name(b, n),
    decreases b,
{
    if b.len() == 0 {
        assert(a + b =~= a);
    } else {
        lemma_count_name_concat(a, b.drop_last(), n);
        assert((a + b).drop_last() =~= a + b.drop_last());
        assert((a + b).last() == b.last());
    }
}

/// One `impl` block contributes one gap entry per gap function named `n`.
proof fn lemma_fns_auth_gaps_count(fns: Seq<FnDef>, n: Seq<char>)
    ensures
        count_name(fns_auth_gaps(fns), n) == count_gap_fns(fns, n),
    decreases fns,
{
    if fns.len() > 0 {
        lemma_fns_auth_gaps_count(fns.drop_last(), n);
        let own = if fn_is_auth_gap(fns.last()) {
            seq![fns.last().name@]
        } else {
            Seq::<Seq<char>>::empty()
        };
        lemma_count_name_concat(fns_auth_gaps(fns.drop_last()), own, n);
        if fn_is_auth_gap(fns.last()) {
            assert(own.drop_last() =~= Seq::<Seq<char>>::empty());
            assert(count_name(own.drop_last(), n) == 0);
            assert(own.last() == fns.last().name@);
            assert(count_name(own, n) == if fns.last().name@ == n {
                1nat
            } else {
                0nat
            });
        }
    }
}

/// Counting form over an item list, by induction over the items.
proof fn lemma_items_auth_gaps_count(items: Seq<Item>, n: Seq<char>)
    ensures
        count_name(items_auth_gaps(items), n) == count_gap_fns_items(items, n),
    decreases items,
{
    if items.len() > 0 {
        lemma_items_auth_gaps_count(items.drop_last(), n);
        lemma_count_name_concat(
            items_auth_gaps(items.drop_last()),
            item_auth_gaps(items.last()),
            n,
        );
        lemma_fns_auth_gaps_count(item_fns(items.last()), n);
    }
}

/// The detector reports each gap function exactly once: over the whole file,
/// the number of report entries equal to `n` is exactly the number of public
/// `impl` functions named `n` that mutate storage on a storage-like receiver
/// without an authorization call anywhere in their body.
pub proof fn lemma_auth_gap_reported_exactly_once(file: SourceFile, n: Seq<char>)
    ensures
        count_name(file_auth_gaps(file), n) == count_gap_fns_items(file.items@, n),
{
    lemma_items_auth_gaps_count(file.items@, n);
}

/// A name that never counts is never contained.
proof fn lemma_count_zero_not_contains(names: Seq<Seq<char>>, n: Seq<char>)
    requires
        count_name(names, n) == 0,
    ensures
        !names.contains(n),
    decreases names,
{
    if names.len() > 0 {
        lemma_count_zero_not_contains(names.drop_last(), n);
        assert forall|k: int| 0 <= k < names.len() implies names[k] != n by {
            if k < names.len() - 1 {
                assert(names.drop_last()[k] == names[k]);
            }
        }
    }
}

/// No gap function is named `n` when every `impl` function named `n`
/// authorizes.
proof fn lemma_count_gap_fns_zero(fns: Seq<FnDef>, n: Seq<char>)
    requires
        forall|j: int|
            0 <= j < fns.len() && (#[trigger] fns[j]).name@ == n ==> stmts_has_auth(fns[j].body@),
    ensures
        count_gap_fns(fns, n) == 0,
    decreases fns,
{
    if fns.len() > 0 {
        assert forall|j: int|
            0 <= j < fns.drop_last().len() && (#[trigger] fns.drop_last()[j]).name@
                == n implies stmts_has_auth(fns.drop_last()[j].body@) by {
            assert(fns.drop_last()[j] == fns[j]);
        }
        lemma_count_gap_fns_zero(fns.drop_last(), n);
        assert(fns.last() == fns[fns.len() - 1]);
    }
}

/// Item-list form of [`lemma_count_gap_fns_zero`].
proof fn lemma_count_gap_items_zero(items: Seq<Item>, n: Seq<char>)
    requires
        forall|i: int, j: int|
            0 <= i < items.len() && 0 <= j < item_fns(items[i]).len() && (#[trigger] item_fns(
                items[i],
            )[j]).name@ == n ==> stmts_has_auth(item_fns(items[i])[j].body@),
    ensures
        count_gap_fns_items(items, n) == 0,
    decreases items,
{
    if items.len() > 0 {
        assert forall|i: int, j: int|
            0 <= i < items.drop_last().len() && 0 <= j < item_fns(items.drop_last()[i]).len() && (
            #[trigger] item_fns(items.drop_last()[i])[j]).name@ == n implies stmts_has_auth(
            item_fns(items.drop_last()[i])[j].body@,
        ) by {
            assert(items.drop_last()[i] == items[i]);
        }
        lemma_count_gap_items_zero(items.drop_last(), n);
        let last = items[items.len() - 1];
        assert(items.last() == last);
        assert forall|j: int|
            0 <= j < item_fns(last).len() && (#[trigger] item_fns(last)[j]).name@
                == n implies stmts_has_auth(item_fns(last)[j].body@) by {
            assert(item_fns(items[items.len() - 1])[j] == item_fns(last)[j]);
        }
        lemma_count_gap_fns_zero(item_fns(last), n);
    }
}

/// A function with an authorization call anywhere in its body is absent from
/// the gap report: when every `impl` function named `n` authorizes, `n` is
/// not reported, whether or not those functions also mutate storage.
pub proof fn lemma_authorized_fn_not_reported(file: SourceFile, n: Seq<char>)
    requires
        forall|i: int, j: int|
            0 <= i < file.items@.len() && 0 <= j < item_fns(file.items@[i]).len() && (
            #[trigger] item_fns(file.items@[i])[j]).name@ == n ==> stmts_has_auth(
                item_fns(file.items@[i])[j].body@,
            ),
    ensures
        !file_auth_gaps(file).contains(n),
{
    lemma_count_gap_items_zero(file.items@, n);
    lemma_items_auth_gaps_count(file.items@, n);
    lemma_count_zero_not_contains(items_auth_gaps(file.items@), n);
}

/// Decides whether any string in `v` contains `kw`.
fn strings_contain(v: &Vec<String>, kw: &str) -> (r: bool)
    ensures
        r == any_text_has(v.deep_view(), kw@),
{
    let mut found = false;
    let n = v.len();
    for i in 0..n
        invariant
            n == v@.len(),
            found == any_text_has(v.deep_view().take(i as int), kw@),
        decreases n - i,
    {
        if contains_substr(v[i].as_str(), kw) {
            found = true;
        }
        proof {
            assert(v.deep_view().take(i + 1).drop_last() =~= v.deep_view().take(i as int));
            assert(v.deep_view().take(i + 1).last() == v.deep_view()[i as int]);
        }
    }
    proof {
        assert(v.deep_view().take(n as int) =~= v.deep_view());
    }
    found
}

/// Decides [`expr_text_has`].
fn expr_text_contains(e: &Expr, kw: &str) -> (r: bool)
    ensures
        r == expr_text_has(*e, kw@),
    decreases *e,
{
    match e {
        Expr::Binary { left, right, .. } => {
            let a = expr_text_contains(left, kw);
            let b = expr_text_contains(right, kw);
            a || b
        },
        Expr::MethodCall { name, receiver, args } => {
            let a = contains_substr(name.as_str(), kw);
            let b = expr_text_contains(receiver, kw);
            let c = exprs_text_contain(args, kw);
            a || b || c
        },
        Expr::Call { func, args, .. } => {
            let a = expr_text_contains(func, kw);
            let b = exprs_text_contain(args, kw);
            a || b
        },
        Expr::MacroCall { path, str_arg, .. } => {
            let a = strings_contain(path, kw);
            let b = match str_arg {
                Some(s) => contains_substr(s.as_str(), kw),
                None => false,
            };
            a || b
        },
        Expr::Block { stmts } => stmts_text_contain(stmts, kw),
        Expr::If { cond, then_branch, else_branch } => {
            let a = expr_text_contains(cond, kw);
            let b = stmts_text_contain(then_branch, kw);
            let c = match else_branch {
                Some(e2) => expr_text_contains(e2, kw),
                None => false,
            };
            a || b || c
        },
        Expr::Match { scrutinee, arms } => {
            let a = expr_text_contains(scrutinee, kw);
            let b = exprs_text_contain(arms, kw);
            a || b
        },
        Expr::ForLoop { iter, body } => {
            let a = expr_text_contains(iter, kw);
            let b = stmts_text_contain(body, kw);
            a || b
        },
        Expr::While { cond, body } => {
            let a = expr_text_contains(cond, kw);
            let b = stmts_text_contain(body, kw);
            a || b
        },
        Expr::Loop { body } => stmts_text_contain(body, kw),
        Expr::Closure { body_expr } => expr_text_contains(body_expr, kw),
        Expr::Field { base, member } => {
            let a = contains_substr(member.as_str(), kw);
            let b = expr_text_contains(base, kw);
            a || b
        },
        Expr::Path { segments } => strings_contain(segments, kw),
        Expr::Literal { lit } => match lit {
            Lit::Str(s) => contains_substr(s.as_str(), kw),
            _ => false,
        },
        Expr::Unknown { children } => exprs_text_contain(children, kw),
    }
}

/// Decides [`exprs_text_has`].
fn exprs_text_contain(es: &Vec<Expr>, kw: &str) -> (r: bool)
    ensures
        r == exprs_text_has(es@, kw@),
    decreases es@,
{
    let mut found = false;
    let n = es.len();
    for i in 0..n
        invariant
            n == es@.len(),
            found == exprs_text_has(es@.take(i as int), kw@),
        decreases n - i,
    {
        if expr_text_contains(&es[i], kw) {
            found = true;
        }
        proof {
            assert(es@.take(i + 1).drop_last() =~= es@.take(i as int));
            assert(es@.take(i + 1).last() == es@[i as int]);
        }
    }
    proof {
        assert(es@.take(n as int) =~= es@);
    }
    found
}

/// Decides [`stmt_text_has`].
fn stmt_text_contains(s: &Stmt, kw: &str) -> (r: bool)
    ensures
        r == stmt_text_has(*s, kw@),
    decreases *s,
{
    match s {
        Stmt::ExprStmt { expr } => expr_text_contains(expr, kw),
        Stmt::Local { init, .. } => match init {
            Some(e) => expr_text_contains(e, kw),
            None => false,
        },
        Stmt::MacroStmt { path } => strings_contain(path, kw),
        Stmt::Other => false,
    }
}

/// Decides [`stmts_text_has`].
fn stmts_text_contain(ss: &Vec<Stmt>, kw: &str) -> (r: bool)
    ensures
        r == stmts_text_has(ss@, kw@),
    decreases ss@,
{
    let mut found = false;
    let n = ss.len();
    for i in 0..n
        invariant
            n == ss@.len(),
            found == stmts_text_has(ss@.take(i as int), kw@),
        decreases n - i,
    {
        if stmt_text_contains(&ss[i], kw) {
            found = true;
        }
        proof {
            assert(ss@.take(i + 1).drop_last() =~= ss@.take(i as int));
            assert(ss@.take(i + 1).last() == ss@[i as int]);
        }
    }
    proof {
        assert(ss@.take(n as int) =~= ss@);
    }
    found
}

/// Decides [`storage_like`].
fn receiver_is_storage_like(e: &Expr) -> (r: bool)
    ensures
        r == storage_like(*e),
{
    let a = expr_text_contains(e, "storage");
    let b = expr_text_contains(e, "persistent");
    let c = expr_text_contains(e, "temporary");
    let d = expr_text_contains(e, "instance");
    a || b || c || d
}

/// Decides whether `name` is an authorization primitive's name.
fn name_is_auth(name: &str) -> (r: bool)
    ensures
        r == is_auth_name(name@),
{
    str_eq(name, "require_auth") || str_eq(name, "require_auth_for_args")
}

/// Decides [`expr_has_auth`].
fn check_expr_auth(e: &Expr) -> (r: bool)
    ensures
        r == expr_has_auth(*e),
    decreases *e,
{
    match e {
        Expr::Call { func, args, .. } => {
            let func_is_auth = match &**func {
                Expr::Path { segments } => {
                    if segments.len() > 0 {
                        name_is_auth(segments[segments.len() - 1].as_str())
                    } else {
                        false
                    }
                },
                _ => false,
            };
            let b = check_exprs_auth(args);
            func_is_auth || b
        },
        Expr::MethodCall { name, receiver, args } => {
            let a = name_is_auth(name.as_str());
            let b = check_expr_auth(receiver);
            let c = check_exprs_auth(args);
            a || b || c
        },
        Expr::Block { stmts } => check_stmts_auth(stmts),
        Expr::If { cond, then_branch, else_branch } => {
            let a = check_expr_auth(cond);
            let b = check_stmts_auth(then_branch);
            let c = match else_branch {
                Some(e2) => check_expr_auth(e2),
                None => false,
            };
            a || b || c
        },
        Expr::Match { scrutinee, arms } => {
            let a = check_expr_auth(scrutinee);
            let b = check_exprs_auth(arms);
            a || b
        },
        _ => false,
    }
}

/// Decides [`exprs_has_auth`].
fn check_exprs_auth(es: &Vec<Expr>) -> (r: bool)
    ensures
        r == exprs_has_auth(es@),
    decreases es@,
{
    let mut found = false;
    let n = es.len();
    for i in 0..n
        invariant
            n == es@.len(),
            found == exprs_has_auth(es@.take(i as int)),
        decreases n - i,
    {
        if check_expr_auth(&es[i]) {
            found = true;
        }
        proof {
            assert(es@.take(i + 1).drop_last() =~= es@.take(i as int));
            assert(es@.take(i + 1).last() == es@[i as int]);
        }
    }
    proof {
        assert(es@.take(n as int) =~= es@);
    }
    found
}

/// Decides [`stmt_has_auth`].
fn check_stmt_auth(s: &Stmt) -> (r: bool)
    ensures
        r == stmt_has_auth(*s),
    decreases *s,
{
    match s {
        Stmt::ExprStmt { expr } => check_expr_auth(expr),
        Stmt::Local { init, .. } => match init {
            Some(e) => check_expr_auth(e),
            None => false,
        },
        Stmt::MacroStmt { path } => {
            if path.len() == 1 {
                name_is_auth(path[0].as_str())
            } else {
                false
            }
        },
        Stmt::Other => false,
    }
}

/// Decides [`stmts_has_auth`].
fn check_stmts_auth(ss: &Vec<Stmt>) -> (r: bool)
    ensures
        r == stmts_has_auth(ss@),
    decreases ss@,
{
    let mut found = false;
    let n = ss.len();
    for i in 0..n
        invariant
            n == ss@.len(),
            found == stmts_has_auth(ss@.take(i as int)),
        decreases n - i,
    {
        if check_stmt_auth(&ss[i]) {
            found = true;
        }
        proof {
            assert(ss@.take(i + 1).drop_last() =~= ss@.take(i as int));
            assert(ss@.take(i + 1).last() == ss@[i as int]);
        }
    }
    proof {
        assert(ss@.take(n as int) =~= ss@);
    }
    found
}

/// Decides [`expr_has_mutation`].
fn check_expr_mutation(e: &Expr) -> (r: bool)
    ensures
        r == expr_has_mutation(*e),
    decreases *e,
{
    match e {
        Expr::Call { args, .. } => check_exprs_mutation(args),
        Expr::MethodCall { name, receiver, args } => {
            let is_mut_name = str_eq(name.as_str(), "set") || str_eq(name.as_str(), "update")
                || str_eq(name.as_str(), "remove");
            let own = if is_mut_name {
                receiver_is_storage_like(receiver)
            } else {
                false
            };
            let b = check_expr_mutation(receiver);
            let c = check_exprs_mutation(args);
            own || b || c
        },
        Expr::Block { stmts } => check_stmts_mutation(stmts),
        Expr::If { cond, then_branch, else_branch } => {
            let a = check_expr_mutation(cond);
            let b = check_stmts_mutation(then_branch);
            let c = match else_branch {
                Some(e2) => check_expr_mutation(e2),
                None => false,
            };
            a || b || c
        },
        Expr::Match { scrutinee, arms } => {
            let a = check_expr_mutation(scrutinee);
            let b = check_exprs_mutation(arms);
            a || b
        },
        _ => false,
    }
}

/// Decides [`exprs_has_mutation`].
fn check_exprs_mutation(es: &Vec<Expr>) -> (r: bool)
    ensures
        r == exprs_has_mutation(es@),
    decreases es@,
{
    let mut found = false;
    let n = es.len();
    for i in 0..n
        invariant
            n == es@.len(),
            found == exprs_has_mutation(es@.take(i as int)),
        decreases n - i,
    {
        if check_expr_mutation(&es[i]) {
            found = true;
        }
        proof {
            assert(es@.take(i + 1).drop_last() =~= es@.take(i as int));
            assert(es@.take(i + 1).last() == es@[i as int]);
        }
    }
    proof {
        assert(es@.take(n as int) =~= es@);
    }
    found
}

/// Decides [`stmt_has_mutation`].
fn check_stmt_mutation(s: &Stmt) -> (r: bool)
    ensures
        r == stmt_has_mutation(*s),
    decreases *s,
{
    match s {
        Stmt::ExprStmt { expr } => check_expr_mutation(expr),
        Stmt::Local { init, .. } => match init {
            Some(e) => check_expr_mutation(e),
            None => false,
        },
        _ => false,
    }
}

/// Decides [`stmts_has_mutation`].
fn check_stmts_mutation(ss: &Vec<Stmt>) -> (r: bool)
    ensures
        r == stmts_has_mutation(ss@),
    decreases ss@,
{
    let mut found = false;
    let n = ss.len();
    for i in 0..n
        invariant
            n == ss@.len(),
            found == stmts_has_mutation(ss@.take(i as int)),
        decreases n - i,
    {
        if check_stmt_mutation(&ss[i]) {
            found = true;
        }
        proof {
            assert(ss@.take(i + 1).drop_last() =~= ss@.take(i as int));
            assert(ss@.take(i + 1).last() == ss@[i as int]);
        }
    }
    proof {
        assert(ss@.take(n as int) =~= ss@);
    }
    found
}

/// Scans every public function of every `impl` block of `file` and returns
/// the names of those that mutate storage without any authorization call, in
/// declaration order.
pub fn scan_auth_gaps_in_file(file: &SourceFile) -> (r: Vec<String>)
    ensures
        r.deep_view() == file_auth_gaps(*file),
{
    let mut gaps: Vec<String> = Vec::new();
    let n = file.items.len();
    for i in 0..n
        invariant
            n == file.items@.len(),
            gaps.deep_view() == items_auth_gaps(file.items@.take(i as int)),
        decreases n - i,
    {
        match &file.items[i] {
            Item::Impl { fns } => {
                let m = fns.len();
                let ghost base = gaps.deep_view();
                for j in 0..m
                    invariant
                        m == fns@.len(),
                        gaps.deep_view() == base + fns_auth_gaps(fns@.take(j as int)),
                    decreases m - j,
                {
                    let f = &fns[j];
                    let ghost pre = gaps.deep_view();
                    if f.is_public {
                        let has_mutation = check_stmts_mutation(&f.body);
                        let has_auth = check_stmts_auth(&f.body);
                        if has_mutation && !has_auth {
                            gaps.push(f.name.clone());
                        }
                    }
                    proof {
                        let ghost contributed = if fn_is_auth_gap(fns@[j as int]) {
                            seq![fns@[j as int].name@]
                        } else {
                            Seq::<Seq<char>>::empty()
                        };
                        assert(gaps.deep_view() =~~= pre + contributed);
                        assert(fns@.take(j + 1).drop_last() =~= fns@.take(j as int));
                        assert(fns@.take(j + 1).last() == fns@[j as int]);
                        assert(fns_auth_gaps(fns@.take(j + 1)) == fns_auth_gaps(
                            fns@.take(j as int),
                        ) + contributed);
                        assert(gaps.deep_view() =~~= base + fns_auth_gaps(fns@.take(j + 1)));
                    }
                }
                proof {
                    assert(fns@.take(m as int) =~= fns@);
                }
            },
            _ => {},
        }
        proof {
            assert(file.items@.take(i + 1).drop_last() =~= file.items@.take(i as int));
            assert(file.items@.take(i + 1).last() == file.items@[i as int]);
        }
    }
    proof {
        assert(file.items@.take(n as int) =~= file.items@);
    }
    gaps
}

} // verus!
