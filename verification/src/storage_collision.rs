//! Storage-key-collision detector.
//!
//! A single forward pass collects literal key values from three syntactic
//! sources: a top-level constant initialized to a string literal, a call
//! matching the two-segment path `Symbol::new(<env>, "<literal>")`, and a
//! `symbol_short!` macro whose single token argument is a string literal.
//! Occurrences are grouped by literal value, groups ordered by first
//! occurrence.  The final check then emits, for every value with more than
//! one occurrence, one issue *per occurrence*, each carrying its own location
//! and kind and listing all the other occurrences in its message.

use vstd::prelude::*;

use crate::ast::{Expr, FnDef, Item, Lit, SourceFile, Stmt};
use crate::findings::{StorageCollisionIssue, StorageCollisionIssueV};
use crate::strutil::{dec_digits, str_eq, usize_to_string};

verus! {

/// One collected key occurrence.
pub struct KeyInfo {
    pub value: String,
    /// `"const"`, `"Symbol::new"` or `"symbol_short!"`.
    pub key_type: String,
    /// The constant's name, or `"inline"`.
    pub location: String,
    pub line: usize,
}

/// Mathematical view of a [`KeyInfo`].
pub struct KeyInfoV {
    pub value: Seq<char>,
    pub key_type: Seq<char>,
    pub location: Seq<char>,
    pub line: usize,
}

impl DeepView for KeyInfo {
    type V = KeyInfoV;

    open spec fn deep_view(&self) -> KeyInfoV {
        KeyInfoV {
            value: self.value@,
            key_type: self.key_type@,
            location: self.location@,
            line: self.line,
        }
    }
}

/// All occurrences sharing one literal value, in collection order.
pub struct KeyGroup {
    pub value: String,
    pub infos: Vec<KeyInfo>,
}

/// Mathematical view of a [`KeyGroup`].
pub struct KeyGroupV {
    pub value: Seq<char>,
    pub infos: Seq<KeyInfoV>,
}

impl DeepView for KeyGroup {
    type V = KeyGroupV;

    open spec fn deep_view(&self) -> KeyGroupV {
        KeyGroupV { value: self.value@, infos: self.infos.deep_view() }
    }
}

/// Appends one occurrence to the group holding its value, or opens a new
/// group at the end; group order is by first occurrence.
pub open spec fn add_key_spec(groups: Seq<KeyGroupV>, info: KeyInfoV) -> Seq<KeyGroupV>
    decreases groups,
{
    if groups.len() == 0 {
        seq![KeyGroupV { value: info.value, infos: seq![info] }]
    } else if groups.first().value == info.value {
        seq![KeyGroupV { value: groups.first().value, infos: groups.first().infos.push(info) }]
            + groups.drop_first()
    } else {
        seq![groups.first()] + add_key_spec(groups.drop_first(), info)
    }
}

/// When a group at index `j` holds the value (and no earlier one does),
/// adding appends to that group in place.
proof fn lemma_add_key_found(groups: Seq<KeyGroupV>, info: KeyInfoV, j: int)
    requires
        0 <= j < groups.len(),
        groups[j].value == info.value,
        forall|k: int| 0 <= k < j ==> groups[k].value != info.value,
    ensures
        add_key_spec(groups, info) == groups.update(
            j,
            KeyGroupV { value: groups[j].value, infos: groups[j].infos.push(info) },
        ),
    decreases j,
{
    if j == 0 {
        assert(add_key_spec(groups, info) =~= groups.update(
            0,
            KeyGroupV { value: groups[0].value, infos: groups[0].infos.push(info) },
        ));
    } else {
        assert(groups.first().value != info.value);
        lemma_add_key_found(groups.drop_first(), info, j - 1);
        assert(add_key_spec(groups, info) =~= groups.update(
            j,
            KeyGroupV { value: groups[j].value, infos: groups[j].infos.push(info) },
        ));
    }
}

/// When no group holds the value, adding opens a new group at the end.
proof fn lemma_add_key_missing(groups: Seq<KeyGroupV>, info: KeyInfoV)
    requires
        forall|k: int| 0 <= k < groups.len() ==> groups[k].value != info.value,
    ensures
        add_key_spec(groups, info) == groups.push(
            KeyGroupV { value: info.value, infos: seq![info] },
        ),
    decreases groups,
{
    if groups.len() == 0 {
        assert(add_key_spec(groups, info) =~= groups.push(
            KeyGroupV { value: info.value, infos: seq![info] },
        ));
    } else {
        lemma_add_key_missing(groups.drop_first(), info);
        assert(add_key_spec(groups, info) =~= groups.push(
            KeyGroupV { value: info.value, infos: seq![info] },
        ));
    }
}

/// The occurrence a `Symbol::new(<env>, "<literal>")` call contributes.
pub open spec fn call_key(func: Expr, args: Seq<Expr>, line: usize) -> Option<KeyInfoV> {
    match func {
        Expr::Path { segments } => {
            if segments@.len() >= 2 && segments@[0]@ == "Symbol"@ && segments@[1]@ == "new"@
                && args.len() >= 2 {
                match args[1] {
                    Expr::Literal { lit: Lit::Str(s) } => Some(
                        KeyInfoV {
                            value: s@,
                            key_type: "Symbol::new"@,
                            location: "inline"@,
                            line,
                        },
                    ),
                    _ => None,
                }
            } else {
                None
            }
        },
        _ => None,
    }
}

/// The occurrence a `symbol_short!("<literal>")` macro contributes.
pub open spec fn macro_key(
    path: Seq<Seq<char>>,
    str_arg: Option<String>,
    line: usize,
) -> Option<KeyInfoV> {
    if path.len() > 0 && path.last() == "symbol_short"@ {
        match str_arg {
            Some(v) => Some(
                KeyInfoV { value: v@, key_type: "symbol_short!"@, location: "inline"@, line },
            ),
            None => None,
        }
    } else {
        None
    }
}

/// Adds an optional occurrence to the groups.
pub open spec fn add_opt(groups: Seq<KeyGroupV>, info: Option<KeyInfoV>) -> Seq<KeyGroupV> {
    match info {
        Some(i) => add_key_spec(groups, i),
        None => groups,
    }
}

/// Groups after walking one expression.
pub open spec fn keys_expr(e: Expr, g: Seq<KeyGroupV>) -> Seq<KeyGroupV>
    decreases e,
{
    match e {
        Expr::Binary { left, right, .. } => keys_expr(*right, keys_expr(*left, g)),
        Expr::MethodCall { receiver, args, .. } => keys_exprs(args@, keys_expr(*receiver, g)),
        Expr::Call { func, args, line } => {
            let g1 = add_opt(g, call_key(*func, args@, line));
            keys_exprs(args@, keys_expr(*func, g1))
        },
        Expr::MacroCall { path, str_arg, line } => add_opt(
            g,
            macro_key(path.deep_view(), str_arg, line),
        ),
        Expr::Block { stmts } => keys_stmts(stmts@, g),
        Expr::If { cond, then_branch, else_branch } => {
            let g2 = keys_stmts(then_branch@, keys_expr(*cond, g));
            match else_branch {
                Some(e2) => keys_expr(*e2, g2),
                None => g2,
            }
        },
        Expr::Match { scrutinee, arms } => keys_exprs(arms@, keys_expr(*scrutinee, g)),
        Expr::ForLoop { iter, body } => keys_stmts(body@, keys_expr(*iter, g)),
        Expr::While { cond, body } => keys_stmts(body@, keys_expr(*cond, g)),
        Expr::Loop { body } => keys_stmts(body@, g),
        Expr::Closure { body_expr } => keys_expr(*body_expr, g),
        Expr::Field { base, .. } => keys_expr(*base, g),
        Expr::Path { .. } => g,
        Expr::Literal { .. } => g,
        Expr::Unknown { children } => keys_exprs(children@, g),
    }
}

/// Groups after walking a list of expressions, in order.
pub open spec fn keys_exprs(es: Seq<Expr>, g: Seq<KeyGroupV>) -> Seq<KeyGroupV>
    decreases es,
{
    if es.len() == 0 {
        g
    } else {
        keys_expr(es.last(), keys_exprs(es.drop_last(), g))
    }
}

/// Groups after walking one statement.
pub open spec fn keys_stmt(s: Stmt, g: Seq<KeyGroupV>) -> Seq<KeyGroupV>
    decreases s,
{
    match s {
        Stmt::ExprStmt { expr } => keys_expr(expr, g),
        Stmt::Local { init, .. } => match init {
            Some(e) => keys_expr(e, g),
            None => g,
        },
        _ => g,
    }
}

/// Groups after walking a list of statements, in order.
pub open spec fn keys_stmts(ss: Seq<Stmt>, g: Seq<KeyGroupV>) -> Seq<KeyGroupV>
    decreases ss,
{
    if ss.len() == 0 {
        g
    } else {
        keys_stmt(ss.last(), keys_stmts(ss.drop_last(), g))
    }
}

/// Groups after walking the functions of one `impl` block.
pub open spec fn keys_fns(fns: Seq<FnDef>, g: Seq<KeyGroupV>) -> Seq<KeyGroupV>
    decreases fns,
{
    if fns.len() == 0 {
        g
    } else {
        keys_stmts(fns.last().body@, keys_fns(fns.drop_last(), g))
    }
}

/// Groups after walking one item; a constant initialized to a string literal
/// contributes its value under its own name.
pub open spec fn keys_item(item: Item, g: Seq<KeyGroupV>) -> Seq<KeyGroupV> {
    match item {
        Item::Const { name, str_value, line } => match str_value {
            Some(v) => add_key_spec(
                g,
                KeyInfoV { value: v@, key_type: "const"@, location: name@, line },
            ),
            None => g,
        },
        Item::FreeFn { func } => keys_stmts(func.body@, g),
        Item::Impl { fns } => keys_fns(fns@, g),
        _ => g,
    }
}

/// Groups after walking a list of items, in order.
pub open spec fn keys_items(items: Seq<Item>, g: Seq<KeyGroupV>) -> Seq<KeyGroupV>
    decreases items,
{
    if items.len() == 0 {
        g
    } else {
        keys_item(items.last(), keys_items(items.drop_last(), g))
    }
}

/// The key groups of one source file, ordered by first occurrence.
pub open spec fn file_key_groups(file: SourceFile) -> Seq<KeyGroupV> {
    keys_items(file.items@, Seq::empty())
}

/// The rendering of one occurrence inside another's message:
/// `"<location> (line <n>)"`.
pub open spec fn info_ref(o: KeyInfoV) -> Seq<char> {
    o.location + " (line "@ + dec_digits(o.line as nat) + ")"@
}

/// The renderings of a list of occurrences, in order.
pub open spec fn refs_of(infos: Seq<KeyInfoV>) -> Seq<Seq<char>>
    decreases infos,
{
    if infos.len() == 0 {
        Seq::empty()
    } else {
        refs_of(infos.drop_last()).push(info_ref(infos.last()))
    }
}

/// Comma-separated join.
pub open spec fn join_comma(items: Seq<Seq<char>>) -> Seq<char>
    decreases items,
{
    if items.len() == 0 {
        Seq::empty()
    } else if items.len() == 1 {
        items[0]
    } else {
        join_comma(items.drop_last()) + ", "@ + items.last()
    }
}

/// The renderings of all occurrences but the one at `i`.
pub open spec fn others_refs(infos: Seq<KeyInfoV>, i: int) -> Seq<Seq<char>> {
    refs_of(infos.subrange(0, i) + infos.subrange(i + 1, infos.len() as int))
}

/// The message attached to the occurrence at `i`, cross-referencing all the
/// others.
pub open spec fn collision_message(value: Seq<char>, infos: Seq<KeyInfoV>, i: int) -> Seq<char> {
    "Potential storage key collision: value '"@ + value + "' is also used in: "@ + join_comma(
        others_refs(infos, i),
    )
}

/// The issue emitted for the occurrence at `i` of a colliding value.
pub open spec fn collision_issue(
    value: Seq<char>,
    infos: Seq<KeyInfoV>,
    i: int,
) -> StorageCollisionIssueV {
    StorageCollisionIssueV {
        key_value: value,
        key_type: infos[i].key_type,
        location: infos[i].location + ":"@ + dec_digits(infos[i].line as nat),
        message: collision_message(value, infos, i),
    }
}

/// The issues of one colliding group: one per occurrence, in order.
pub open spec fn group_issues(value: Seq<char>, infos: Seq<KeyInfoV>) -> Seq<
    StorageCollisionIssueV,
> {
    Seq::new(infos.len(), |i: int| collision_issue(value, infos, i))
}

/// The issues of one group: none unless the value occurs more than once.
pub open spec fn group_issues_if(g: KeyGroupV) -> Seq<StorageCollisionIssueV> {
    if g.infos.len() > 1 {
        group_issues(g.value, g.infos)
    } else {
        Seq::empty()
    }
}

/// The issues of a list of groups, in group order.
pub open spec fn issues_of_groups(groups: Seq<KeyGroupV>) -> Seq<StorageCollisionIssueV>
    decreases groups,
{
    if groups.len() == 0 {
        Seq::empty()
    } else {
        issues_of_groups(groups.drop_last()) + group_issues_if(groups.last())
    }
}

/// All storage-collision issues of one source file.
pub open spec fn file_storage_collisions(file: SourceFile) -> Seq<StorageCollisionIssueV> {
    issues_of_groups(file_key_groups(file))
}

/// Group values are pairwise distinct.
pub open spec fn distinct_values(groups: Seq<KeyGroupV>) -> bool {
    forall|i: int, j: int|
        0 <= i < j < groups.len() ==> (#[trigger] groups[i]).value != (#[trigger] groups[j]).value
}

/// Some group holds `v`.
pub open spec fn has_value(groups: Seq<KeyGroupV>, v: Seq<char>) -> bool {
    exists|k: int| 0 <= k < groups.len() && (#[trigger] groups[k]).value == v
}

/// Adding one occurrence keeps group values distinct and adds at most the
/// occurrence's own value.
proof fn lemma_add_key_distinct(groups: Seq<KeyGroupV>, info: KeyInfoV)
    requires
        distinct_values(groups),
    ensures
        distinct_values(add_key_spec(groups, info)),
        forall|v: Seq<char>|
            #[trigger] has_value(add_key_spec(groups, info), v) <==> has_value(groups, v) || v
                == info.value,
    decreases groups,
{
    let res = add_key_spec(groups, info);
    if groups.len() == 0 {
        assert forall|v: Seq<char>| #[trigger]
            has_value(res, v) <==> has_value(groups, v) || v == info.value by {
            if v == info.value {
                assert(res[0].value == v);
            }
            if has_value(res, v) {
                let k = choose|k: int| 0 <= k < res.len() && (#[trigger] res[k]).value == v;
                assert(k == 0);
            }
        }
    } else if groups.first().value == info.value {
        assert forall|i: int, j: int|
            0 <= i < j < res.len() implies (#[trigger] res[i]).value != (
        #[trigger] res[j]).value by {
            assert(res[i].value == groups[i].value);
            assert(res[j].value == groups[j].value);
        }
        assert forall|v: Seq<char>| #[trigger]
            has_value(res, v) <==> has_value(groups, v) || v == info.value by {
            if has_value(res, v) {
                let k = choose|k: int| 0 <= k < res.len() && (#[trigger] res[k]).value == v;
                assert(groups[k].value == v);
            }
            if has_value(groups, v) {
                let k = choose|k: int| 0 <= k < groups.len() && (#[trigger] groups[k]).value == v;
                assert(res[k].value == v);
            }
            if v == info.value {
                assert(res[0].value == v);
            }
        }
    } else {
        assert forall|i: int, j: int|
            0 <= i < j < groups.drop_first().len() implies (#[trigger] groups.drop_first()[i]).value
                != (#[trigger] groups.drop_first()[j]).value by {
            assert(groups.drop_first()[i] == groups[i + 1]);
            assert(groups.drop_first()[j] == groups[j + 1]);
        }
        lemma_add_key_distinct(groups.drop_first(), info);
        let tail = add_key_spec(groups.drop_first(), info);
        assert(res =~= seq![groups.first()] + tail);
        assert forall|i: int, j: int|
            0 <= i < j < res.len() implies (#[trigger] res[i]).value != (
        #[trigger] res[j]).value by {
            if i == 0 {
                assert(res[0] == groups.first());
                assert(res[j] == tail[j - 1]);
                assert(has_value(tail, tail[j - 1].value));
                if tail[j - 1].value == groups.first().value {
                    if has_value(groups.drop_first(), tail[j - 1].value) {
                        let k = choose|k: int|
                            0 <= k < groups.drop_first().len() && (#[trigger] groups.drop_first()[k]).value
                                == tail[j - 1].value;
                        assert(groups[k + 1].value == groups[0].value);
                        assert(false);
                    } else {
                        assert(tail[j - 1].value == info.value);
                        assert(false);
                    }
                }
            } else {
                assert(res[i] == tail[i - 1]);
                assert(res[j] == tail[j - 1]);
            }
        }
        assert forall|v: Seq<char>| #[trigger]
            has_value(res, v) <==> has_value(groups, v) || v == info.value by {
            if has_value(res, v) {
                let k = choose|k: int| 0 <= k < res.len() && (#[trigger] res[k]).value == v;
                if k == 0 {
                    assert(groups[0].value == v);
                } else {
                    assert(tail[k - 1].value == v);
                    assert(has_value(tail, v));
                    if has_value(groups.drop_first(), v) {
                        let l = choose|l: int|
                            0 <= l < groups.drop_first().len() && (#[trigger] groups.drop_first()[l]).value
                                == v;
                        assert(groups[l + 1].value == v);
                    }
                }
            }
            if has_value(groups, v) {
                let k = choose|k: int| 0 <= k < groups.len() && (#[trigger] groups[k]).value == v;
                if k == 0 {
                    assert(res[0].value == v);
                } else {
                    assert(groups.drop_first()[k - 1] == groups[k]);
                    assert(has_value(groups.drop_first(), v));
                    assert(has_value(tail, v));
                    let l = choose|l: int| 0 <= l < tail.len() && (#[trigger] tail[l]).value == v;
                    assert(res[l + 1].value == v);
                }
            }
            if v == info.value {
                assert(has_value(tail, v));
                let l = choose|l: int| 0 <= l < tail.len() && (#[trigger] tail[l]).value == v;
                assert(res[l + 1].value == v);
            }
        }
    }
}

/// [`add_opt`] form of [`lemma_add_key_distinct`].
proof fn lemma_add_opt_distinct(groups: Seq<KeyGroupV>, info: Option<KeyInfoV>)
    requires
        distinct_values(groups),
    ensures
        distinct_values(add_opt(groups, info)),
    decreases groups.len(),
{
    match info {
        Some(i) => lemma_add_key_distinct(groups, i),
        None => {},
    }
}

/// The expression walk keeps group values distinct.
proof fn lemma_keys_expr_distinct(e: Expr, g: Seq<KeyGroupV>)
    requires
        distinct_values(g),
    ensures
        distinct_values(keys_expr(e, g)),
    decreases e, 0int,
{
    match e {
        Expr::Binary { left, right, .. } => {
            lemma_keys_expr_distinct(*left, g);
            lemma_keys_expr_distinct(*right, keys_expr(*left, g));
        },
        Expr::MethodCall { receiver, args, .. } => {
            lemma_keys_expr_distinct(*receiver, g);
            lemma_keys_exprs_distinct(args@, keys_expr(*receiver, g));
        },
        Expr::Call { func, args, line } => {
            lemma_add_opt_distinct(g, call_key(*func, args@, line));
            let g1 = add_opt(g, call_key(*func, args@, line));
            lemma_keys_expr_distinct(*func, g1);
            lemma_keys_exprs_distinct(args@, keys_expr(*func, g1));
        },
        Expr::MacroCall { path, str_arg, line } => {
            lemma_add_opt_distinct(g, macro_key(path.deep_view(), str_arg, line));
        },
        Expr::Block { stmts } => {
            lemma_keys_stmts_distinct(stmts@, g);
        },
        Expr::If { cond, then_branch, else_branch } => {
            lemma_keys_expr_distinct(*cond, g);
            lemma_keys_stmts_distinct(then_branch@, keys_expr(*cond, g));
            let g2 = keys_stmts(then_branch@, keys_expr(*cond, g));
            match else_branch {
                Some(e2) => {
                    lemma_keys_expr_distinct(*e2, g2);
                },
                None => {},
            }
        },
        Expr::Match { scrutinee, arms } => {
            lemma_keys_expr_distinct(*scrutinee, g);
            lemma_keys_exprs_distinct(arms@, keys_expr(*scrutinee, g));
        },
        Expr::ForLoop { iter, body } => {
            lemma_keys_expr_distinct(*iter, g);
            lemma_keys_stmts_distinct(body@, keys_expr(*iter, g));
        },
        Expr::While { cond, body } => {
            lemma_keys_expr_distinct(*cond, g);
            lemma_keys_stmts_distinct(body@, keys_expr(*cond, g));
        },
        Expr::Loop { body } => {
            lemma_keys_stmts_distinct(body@, g);
        },
        Expr::Closure { body_expr } => {
            lemma_keys_expr_distinct(*body_expr, g);
        },
        Expr::Field { base, .. } => {
            lemma_keys_expr_distinct(*base, g);
        },
        Expr::Path { .. } => {},
        Expr::Literal { .. } => {},
        Expr::Unknown { children } => {
            lemma_keys_exprs_distinct(children@, g);
        },
    }
}

/// List form of [`lemma_keys_expr_distinct`].
proof fn lemma_keys_exprs_distinct(es: Seq<Expr>, g: Seq<KeyGroupV>)
    requires
        distinct_values(g),
    ensures
        distinct_values(keys_exprs(es, g)),
    decreases es, 0int,
{
    if es.len() > 0 {
        lemma_keys_exprs_distinct(es.drop_last(), g);
        lemma_keys_expr_distinct(es.last(), keys_exprs(es.drop_last(), g));
    }
}

/// Statement form of [`lemma_keys_expr_distinct`].
proof fn lemma_keys_stmt_distinct(s: Stmt, g: Seq<KeyGroupV>)
    requires
        distinct_values(g),
    ensures
        distinct_values(keys_stmt(s, g)),
    decreases s, 0int,
{
    match s {
        Stmt::ExprStmt { expr } => {
            lemma_keys_expr_distinct(expr, g);
        },
        Stmt::Local { init, .. } => {
            match init {
                Some(e) => {
                    lemma_keys_expr_distinct(e, g);
                },
                None => {},
            }
        },
        _ => {},
    }
}

/// Statement-list form of [`lemma_keys_expr_distinct`].
proof fn lemma_keys_stmts_distinct(ss: Seq<Stmt>, g: Seq<KeyGroupV>)
    requires
        distinct_values(g),
    ensures
        distinct_values(keys_stmts(ss, g)),
    decreases ss, 0int,
{
    if ss.len() > 0 {
        lemma_keys_stmts_distinct(ss.drop_last(), g);
        lemma_keys_stmt_distinct(ss.last(), keys_stmts(ss.drop_last(), g));
    }
}

/// `impl`-block form of [`lemma_keys_expr_distinct`].
proof fn lemma_keys_fns_distinct(fns: Seq<FnDef>, g: Seq<KeyGroupV>)
    requires
        distinct_values(g),
    ensures
        distinct_values(keys_fns(fns, g)),
    decreases fns,
{
    if fns.len() > 0 {
        lemma_keys_fns_distinct(fns.drop_last(), g);
        lemma_keys_stmts_distinct(fns.last().body@, keys_fns(fns.drop_last(), g));
    }
}

/// Item form of [`lemma_keys_expr_distinct`].
proof fn lemma_keys_items_distinct(items: Seq<Item>, g: Seq<KeyGroupV>)
    requires
        distinct_values(g),
    ensures
        distinct_values(keys_items(items, g)),
    decreases items,
{
    if items.len() > 0 {
        lemma_keys_items_distinct(items.drop_last(), g);
        let gp = keys_items(items.drop_last(), g);
        match items.last() {
            Item::Const { name, str_value, line } => {
                match str_value {
                    Some(v) => {
                        lemma_add_key_distinct(
                            gp,
                            KeyInfoV { value: v@, key_type: "const"@, location: name@, line },
                        );
                    },
                    None => {},
                }
            },
            Item::FreeFn { func } => {
                lemma_keys_stmts_distinct(func.body@, gp);
            },
            Item::Impl { fns } => {
                lemma_keys_fns_distinct(fns@, gp);
            },
            _ => {},
        }
    }
}

/// The groups a file collects have pairwise distinct values.
pub proof fn lemma_file_groups_distinct(file: SourceFile)
    ensures
        distinct_values(file_key_groups(file)),
{
    lemma_keys_items_distinct(file.items@, Seq::empty());
}

/// How many issues carry the key value `v`.
pub open spec fn count_issues_value(issues: Seq<StorageCollisionIssueV>, v: Seq<char>) -> nat
    decreases issues,
{
    if issues.len() == 0 {
        0
    } else {
        count_issues_value(issues.drop_last(), v) + (if issues.last().key_value == v {
            1nat
        } else {
            0nat
        })
    }
}

/// Issue counts distribute over concatenation.
proof fn lemma_count_issues_concat(
    a: Seq<StorageCollisionIssueV>,
    b: Seq<StorageCollisionIssueV>,
    v: Seq<char>,
)
    ensures
        count_issues_value(a + b, v) == count_issues_value(a, v) + count_issues_value(b, v),
    decreases b,
{
    if b.len() == 0 {
        assert(a + b =~= a);
    } else {
        lemma_count_issues_concat(a, b.drop_last(), v);
        assert((a + b).drop_last() =~= a + b.drop_last());
        assert((a + b).last() == b.last());
    }
}

/// One colliding group's issues all carry its value, and nothing else.
proof fn lemma_count_group_issues(value: Seq<char>, infos: Seq<KeyInfoV>, v: Seq<char>, m: int)
    requires
        0 <= m <= infos.len(),
    ensures
        count_issues_value(group_issues(value, infos).take(m), v) == if v == value {
            m as nat
        } else {
            0nat
        },
    decreases m,
{
    if m > 0 {
        lemma_count_group_issues(value, infos, v, m - 1);
        let gs = group_issues(value, infos);
        assert(gs.take(m).drop_last() =~= gs.take(m - 1));
        assert(gs.take(m).last() == gs[m - 1]);
    }
}

/// When no group holds `v`, no issue carries it.
proof fn lemma_no_value_no_issues(groups: Seq<KeyGroupV>, v: Seq<char>)
    requires
        forall|k: int| 0 <= k < groups.len() ==> (#[trigger] groups[k]).value != v,
    ensures
        count_issues_value(issues_of_groups(groups), v) == 0,
    decreases groups,
{
    if groups.len() > 0 {
        assert forall|k: int|
            0 <= k < groups.drop_last().len() implies (#[trigger] groups.drop_last()[k]).value
                != v by {
            assert(groups.drop_last()[k] == groups[k]);
        }
        lemma_no_value_no_issues(groups.drop_last(), v);
        let g = groups.last();
        assert(g == groups[groups.len() - 1]);
        if g.infos.len() > 1 {
            lemma_count_group_issues(g.value, g.infos, v, g.infos.len() as int);
            assert(group_issues(g.value, g.infos).take(g.infos.len() as int) =~= group_issues(
                g.value,
                g.infos,
            ));
        }
        lemma_count_issues_concat(issues_of_groups(groups.drop_last()), group_issues_if(g), v);
    }
}

/// With distinct group values, a colliding group of `N` occurrences puts
/// exactly `N` issues carrying its value into the report.
proof fn lemma_colliding_value_counted(groups: Seq<KeyGroupV>, k: int)
    requires
        distinct_values(groups),
        0 <= k < groups.len(),
        groups[k].infos.len() > 1,
    ensures
        count_issues_value(issues_of_groups(groups), groups[k].value) == groups[k].infos.len(),
    decreases groups,
{
    let v = groups[k].value;
    let g = groups.last();
    assert(g == groups[groups.len() - 1]);
    lemma_count_issues_concat(issues_of_groups(groups.drop_last()), group_issues_if(g), v);
    if k == groups.len() - 1 {
        assert forall|l: int|
            0 <= l < groups.drop_last().len() implies (#[trigger] groups.drop_last()[l]).value
                != v by {
            assert(groups.drop_last()[l] == groups[l]);
        }
        lemma_no_value_no_issues(groups.drop_last(), v);
        lemma_count_group_issues(g.value, g.infos, v, g.infos.len() as int);
        assert(group_issues(g.value, g.infos).take(g.infos.len() as int) =~= group_issues(
            g.value,
            g.infos,
        ));
    } else {
        assert forall|i: int, j: int|
            0 <= i < j < groups.drop_last().len() implies (#[trigger] groups.drop_last()[i]).value
                != (#[trigger] groups.drop_last()[j]).value by {
            assert(groups.drop_last()[i] == groups[i]);
            assert(groups.drop_last()[j] == groups[j]);
        }
        assert(groups.drop_last()[k] == groups[k]);
        lemma_colliding_value_counted(groups.drop_last(), k);
        assert(g.value != v);
        if g.infos.len() > 1 {
            lemma_count_group_issues(g.value, g.infos, v, g.infos.len() as int);
            assert(group_issues(g.value, g.infos).take(g.infos.len() as int) =~= group_issues(
                g.value,
                g.infos,
            ));
        }
    }
}

/// A value whose group holds a single occurrence is not reported at all.
proof fn lemma_single_value_not_counted(groups: Seq<KeyGroupV>, k: int)
    requires
        distinct_values(groups),
        0 <= k < groups.len(),
        groups[k].infos.len() <= 1,
    ensures
        count_issues_value(issues_of_groups(groups), groups[k].value) == 0,
    decreases groups,
{
    let v = groups[k].value;
    let g = groups.last();
    assert(g == groups[groups.len() - 1]);
    lemma_count_issues_concat(issues_of_groups(groups.drop_last()), group_issues_if(g), v);
    if k == groups.len() - 1 {
        assert forall|l: int|
            0 <= l < groups.drop_last().len() implies (#[trigger] groups.drop_last()[l]).value
                != v by {
            assert(groups.drop_last()[l] == groups[l]);
        }
        lemma_no_value_no_issues(groups.drop_last(), v);
    } else {
        assert forall|i: int, j: int|
            0 <= i < j < groups.drop_last().len() implies (#[trigger] groups.drop_last()[i]).value
                != (#[trigger] groups.drop_last()[j]).value by {
            assert(groups.drop_last()[i] == groups[i]);
            assert(groups.drop_last()[j] == groups[j]);
        }
        assert(groups.drop_last()[k] == groups[k]);
        lemma_single_value_not_counted(groups.drop_last(), k);
        assert(g.value != v);
        if g.infos.len() > 1 {
            lemma_count_group_issues(g.value, g.infos, v, g.infos.len() as int);
            assert(group_issues(g.value, g.infos).take(g.infos.len() as int) =~= group_issues(
                g.value,
                g.infos,
            ));
        }
    }
}

/// A literal value with `N > 1` occurrences yields exactly `N` issues in the
/// file's collision report — one per occurrence — while a value with a single
/// occurrence yields none.
pub proof fn lemma_collisions_reported_per_occurrence(file: SourceFile, k: int)
    requires
        0 <= k < file_key_groups(file).len(),
    ensures
        file_key_groups(file)[k].infos.len() > 1 ==> count_issues_value(
            file_storage_collisions(file),
            file_key_groups(file)[k].value,
        ) == file_key_groups(file)[k].infos.len(),
        file_key_groups(file)[k].infos.len() <= 1 ==> count_issues_value(
            file_storage_collisions(file),
            file_key_groups(file)[k].value,
        ) == 0,
{
    lemma_file_groups_distinct(file);
    if file_key_groups(file)[k].infos.len() > 1 {
        lemma_colliding_value_counted(file_key_groups(file), k);
    } else {
        lemma_single_value_not_counted(file_key_groups(file), k);
    }
}

/// The renderings of a list of occurrences are one per occurrence.
proof fn lemma_refs_of_len(infos: Seq<KeyInfoV>)
    ensures
        refs_of(infos).len() == infos.len(),
    decreases infos,
{
    if infos.len() > 0 {
        lemma_refs_of_len(infos.drop_last());
    }
}

/// Each issue of a colliding group cross-references all the other
/// occurrences: its message lists exactly `N − 1` of them.
pub proof fn lemma_issue_references_all_others(value: Seq<char>, infos: Seq<KeyInfoV>, i: int)
    requires
        0 <= i < infos.len(),
    ensures
        others_refs(infos, i).len() == infos.len() - 1,
{
    lemma_refs_of_len(infos.subrange(0, i) + infos.subrange(i + 1, infos.len() as int));
}

/// Joins rendered occurrence references with `", "`.
fn join_comma_strs(items: &Vec<String>) -> (r: String)
    ensures
        r@ == join_comma(items.deep_view()),
{
    if items.len() == 0 {
        return String::new();
    }
    let mut s = items[0].clone();
    proof {
        assert(items.deep_view().take(1) =~= seq![items.deep_view()[0]]);
    }
    let n = items.len();
    for k in 1..n
        invariant
            1 <= k <= n,
            n == items@.len(),
            s@ == join_comma(items.deep_view().take(k as int)),
        decreases n - k,
    {
        s.append(", ");
        s.append(items[k].as_str());
        proof {
            assert(items.deep_view().take(k + 1).drop_last() =~= items.deep_view().take(k as int));
            assert(items.deep_view().take(k + 1).last() == items.deep_view()[k as int]);
        }
    }
    proof {
        assert(items.deep_view().take(n as int) =~= items.deep_view());
    }
    s
}

/// Renders one occurrence for another's message.
fn render_ref(info: &KeyInfo) -> (r: String)
    ensures
        r@ == info_ref(info.deep_view()),
{
    let mut s = info.location.clone();
    s.append(" (line ");
    let num = usize_to_string(info.line);
    s.append(num.as_str());
    s.append(")");
    s
}

/// Tracks the collected key groups during the file pass and holds the issues
/// the final check emits.
pub struct StorageVisitor {
    pub collisions: Vec<StorageCollisionIssue>,
    pub keys: Vec<KeyGroup>,
}

impl StorageVisitor {
    /// An empty visitor: no groups, no issues.
    pub fn new() -> (r: StorageVisitor)
        ensures
            r.keys.deep_view() == Seq::<KeyGroupV>::empty(),
            r.collisions.deep_view() == Seq::<StorageCollisionIssueV>::empty(),
    {
        let r = StorageVisitor { collisions: Vec::new(), keys: Vec::new() };
        proof {
            assert(r.keys.deep_view() =~= Seq::<KeyGroupV>::empty());
            assert(r.collisions.deep_view() =~= Seq::<StorageCollisionIssueV>::empty());
        }
        r
    }

    /// Records one occurrence under its literal value.
    pub fn add_key(&mut self, value: String, key_type: String, location: String, line: usize)
        ensures
            final(self).keys.deep_view() == add_key_spec(
                old(self).keys.deep_view(),
                KeyInfoV { value: value@, key_type: key_type@, location: location@, line },
            ),
            final(self).collisions == old(self).collisions,
    {
        let info = KeyInfo { value: value.clone(), key_type, location, line };
        let n = self.keys.len();
        let mut j: usize = 0;
        let mut found = false;
        while j < n && !found
            invariant
                n == self.keys@.len(),
                j <= n,
                *self == *old(self),
                found ==> j < n && self.keys.deep_view()[j as int].value == value@,
                forall|k: int|
                    0 <= k < j ==> self.keys.deep_view()[k].value != value@,
            decreases n - j + (if found {
                0int
            } else {
                1int
            }),
        {
            if str_eq(self.keys[j].value.as_str(), value.as_str()) {
                found = true;
            } else {
                j = j + 1;
            }
        }
        let ghost infov = KeyInfoV {
            value: info.value@,
            key_type: info.key_type@,
            location: info.location@,
            line,
        };
        if found {
            let ghost groups0 = self.keys.deep_view();
            let g = &mut self.keys[j];
            g.infos.push(info);
            proof {
                lemma_add_key_found(groups0, infov, j as int);
                let ghost updated = KeyGroupV {
                    value: groups0[j as int].value,
                    infos: groups0[j as int].infos.push(infov),
                };
                assert(self.keys.deep_view()[j as int].infos =~= updated.infos);
                assert(self.keys.deep_view()[j as int] == updated);
                assert(self.keys.deep_view() =~= groups0.update(j as int, updated));
            }
        } else {
            let ghost groups0 = self.keys.deep_view();
            let mut infos: Vec<KeyInfo> = Vec::new();
            infos.push(info);
            self.keys.push(KeyGroup { value, infos });
            proof {
                lemma_add_key_missing(groups0, infov);
                let ghost fresh = KeyGroupV { value: infov.value, infos: seq![infov] };
                assert(self.keys.deep_view().last().infos =~= fresh.infos);
                assert(self.keys.deep_view().last() == fresh);
                assert(self.keys.deep_view() =~= groups0.push(fresh));
            }
        }
    }

    /// Emits, for every value with more than one occurrence, one issue per
    /// occurrence, each cross-referencing all the others.
    pub fn final_check(&mut self)
        ensures
            final(self).collisions.deep_view() == old(self).collisions.deep_view()
                + issues_of_groups(old(self).keys.deep_view()),
            final(self).keys == old(self).keys,
    {
        let ghost base = self.collisions.deep_view();
        let n = self.keys.len();
        for gi in 0..n
            invariant
                n == self.keys@.len(),
                self.keys == old(self).keys,
                self.collisions.deep_view() == base + issues_of_groups(
                    self.keys.deep_view().take(gi as int),
                ),
            decreases n - gi,
        {
            let ghost pre = self.collisions.deep_view();
            let group_len = self.keys[gi].infos.len();
            if group_len > 1 {
                let ghost gv = self.keys.deep_view()[gi as int];
                for i in 0..group_len
                    invariant
                        n == self.keys@.len(),
                        gi < n,
                        self.keys == old(self).keys,
                        group_len == self.keys@[gi as int].infos@.len(),
                        gv == self.keys.deep_view()[gi as int],
                        group_len > 1,
                        self.collisions.deep_view() == pre + Seq::new(
                            i as nat,
                            |k: int| collision_issue(gv.value, gv.infos, k),
                        ),
                    decreases group_len - i,
                {
                    let issue = self.build_issue(gi, i);
                    let ghost cpre = self.collisions.deep_view();
                    let ghost issue_v = issue.deep_view();
                    self.collisions.push(issue);
                    proof {
                        assert(issue_v == collision_issue(gv.value, gv.infos, i as int));
                        assert(self.collisions.deep_view() =~~= cpre.push(issue_v));
                        assert(cpre.push(issue_v) =~~= pre + Seq::new(
                            (i + 1) as nat,
                            |k: int| collision_issue(gv.value, gv.infos, k),
                        ));
                    }
                }
                proof {
                    assert(Seq::new(
                        group_len as nat,
                        |k: int| collision_issue(gv.value, gv.infos, k),
                    ) =~~= group_issues(gv.value, gv.infos));
                }
            }
            proof {
                assert(self.collisions.deep_view() =~~= pre + group_issues_if(
                    self.keys.deep_view()[gi as int],
                ));
                assert(self.keys.deep_view().take(gi + 1).drop_last() =~= self.keys.deep_view().take(
                    gi as int,
                ));
                assert(self.keys.deep_view().take(gi + 1).last() == self.keys.deep_view()[gi as int]);
                assert(self.collisions.deep_view() =~~= base + issues_of_groups(
                    self.keys.deep_view().take(gi + 1),
                ));
            }
        }
        proof {
            assert(self.keys.deep_view().take(n as int) =~= self.keys.deep_view());
        }
    }

    /// Builds the issue for occurrence `i` of the colliding group at `gi`.
    fn build_issue(&self, gi: usize, i: usize) -> (r: StorageCollisionIssue)
        requires
            gi < self.keys@.len(),
            i < self.keys@[gi as int].infos@.len(),
            self.keys@[gi as int].infos@.len() > 1,
        ensures
            r.deep_view() == collision_issue(
                self.keys.deep_view()[gi as int].value,
                self.keys.deep_view()[gi as int].infos,
                i as int,
            ),
    {
        let group = &self.keys[gi];
        let ghost infos = group.infos.deep_view();
        let info_count = group.infos.len();
        let mut others: Vec<String> = Vec::new();
        for k in 0..i
            invariant
                i < info_count,
                info_count == group.infos@.len(),
                infos == group.infos.deep_view(),
                others.deep_view() == refs_of(infos.subrange(0, k as int)),
            decreases i - k,
        {
            let rendered = render_ref(&group.infos[k]);
            others.push(rendered);
            proof {
                assert(infos.subrange(0, k + 1).drop_last() =~= infos.subrange(0, k as int));
                assert(infos.subrange(0, k + 1).last() == infos[k as int]);
                assert(others.deep_view() =~~= refs_of(infos.subrange(0, k + 1)));
            }
        }
        proof {
            assert(infos.subrange(0, i as int) + infos.subrange(i + 1, i + 1) =~= infos.subrange(
                0,
                i as int,
            ));
        }
        let mut k2 = i + 1;
        while k2 < info_count
            invariant
                i < info_count,
                i + 1 <= k2 <= info_count,
                info_count == group.infos@.len(),
                infos == group.infos.deep_view(),
                others.deep_view() == refs_of(
                    infos.subrange(0, i as int) + infos.subrange(i + 1, k2 as int),
                ),
            decreases info_count - k2,
        {
            let rendered = render_ref(&group.infos[k2]);
            others.push(rendered);
            proof {
                let ghost combined = infos.subrange(0, i as int) + infos.subrange(i + 1, k2 + 1);
                assert(combined.drop_last() =~= infos.subrange(0, i as int) + infos.subrange(
                    i + 1,
                    k2 as int,
                ));
                assert(combined.last() == infos[k2 as int]);
                assert(others.deep_view() =~~= refs_of(combined));
            }
            k2 = k2 + 1;
        }
        let joined = join_comma_strs(&others);
        let mut message = String::from_str("Potential storage key collision: value '");
        message.append(group.value.as_str());
        message.append("' is also used in: ");
        message.append(joined.as_str());
        let mut location = group.infos[i].location.clone();
        location.append(":");
        let num = usize_to_string(group.infos[i].line);
        location.append(num.as_str());
        let r = StorageCollisionIssue {
            key_value: group.value.clone(),
            key_type: group.infos[i].key_type.clone(),
            location,
            message,
        };
        proof {
            assert(infos.subrange(i + 1, info_count as int) =~= infos.subrange(
                i + 1,
                infos.len() as int,
            ));
        }
        r
    }
}

/// Walks one expression, collecting key occurrences into the visitor.
fn collect_expr(e: &Expr, v: &mut StorageVisitor)
    ensures
        final(v).keys.deep_view() == keys_expr(*e, old(v).keys.deep_view()),
        final(v).collisions == old(v).collisions,
    decreases *e,
{
    match e {
        Expr::Binary { left, right, .. } => {
            collect_expr(left, v);
            collect_expr(right, v);
        },
        Expr::MethodCall { receiver, args, .. } => {
            collect_expr(receiver, v);
            collect_exprs(args, v);
        },
        Expr::Call { func, args, line } => {
            let mut is_symbol_new = false;
            match &**func {
                Expr::Path { segments } => {
                    if segments.len() >= 2 && args.len() >= 2 {
                        if str_eq(segments[0].as_str(), "Symbol") && str_eq(
                            segments[1].as_str(),
                            "new",
                        ) {
                            is_symbol_new = true;
                        }
                    }
                },
                _ => {},
            }
            if is_symbol_new {
                match &args[1] {
                    Expr::Literal { lit: Lit::Str(s) } => {
                        v.add_key(
                            s.clone(),
                            String::from_str("Symbol::new"),
                            String::from_str("inline"),
                            *line,
                        );
                    },
                    _ => {},
                }
            }
            proof {
                assert(v.keys.deep_view() =~~= add_opt(
                    old(v).keys.deep_view(),
                    call_key(**func, args@, *line),
                ));
            }
            collect_expr(func, v);
            collect_exprs(args, v);
        },
        Expr::MacroCall { path, str_arg, line } => {
            if path.len() > 0 && str_eq(path[path.len() - 1].as_str(), "symbol_short") {
                match str_arg {
                    Some(val) => {
                        v.add_key(
                            val.clone(),
                            String::from_str("symbol_short!"),
                            String::from_str("inline"),
                            *line,
                        );
                    },
                    None => {},
                }
            }
            proof {
                assert(v.keys.deep_view() =~~= add_opt(
                    old(v).keys.deep_view(),
                    macro_key(path.deep_view(), *str_arg, *line),
                ));
            }
        },
        Expr::Block { stmts } => {
            collect_stmts(stmts, v);
        },
        Expr::If { cond, then_branch, else_branch } => {
            collect_expr(cond, v);
            collect_stmts(then_branch, v);
            match else_branch {
                Some(e2) => {
                    collect_expr(e2, v);
                },
                None => {},
            }
        },
        Expr::Match { scrutinee, arms } => {
            collect_expr(scrutinee, v);
            collect_exprs(arms, v);
        },
        Expr::ForLoop { iter, body } => {
            collect_expr(iter, v);
            collect_stmts(body, v);
        },
        Expr::While { cond, body } => {
            collect_expr(cond, v);
            collect_stmts(body, v);
        },
        Expr::Loop { body } => {
            collect_stmts(body, v);
        },
        Expr::Closure { body_expr } => {
            collect_expr(body_expr, v);
        },
        Expr::Field { base, .. } => {
            collect_expr(base, v);
        },
        Expr::Path { .. } => {},
        Expr::Literal { .. } => {},
        Expr::Unknown { children } => {
            collect_exprs(children, v);
        },
    }
}

/// Walks a list of expressions, in order.
fn collect_exprs(es: &Vec<Expr>, v: &mut StorageVisitor)
    ensures
        final(v).keys.deep_view() == keys_exprs(es@, old(v).keys.deep_view()),
        final(v).collisions == old(v).collisions,
    decreases es@,
{
    let ghost g0 = v.keys.deep_view();
    let n = es.len();
    for i in 0..n
        invariant
            n == es@.len(),
            v.keys.deep_view() == keys_exprs(es@.take(i as int), g0),
            v.collisions == old(v).collisions,
        decreases n - i,
    {
        collect_expr(&es[i], v);
        proof {
            assert(es@.take(i + 1).drop_last() =~= es@.take(i as int));
            assert(es@.take(i + 1).last() == es@[i as int]);
        }
    }
    proof {
        assert(es@.take(n as int) =~= es@);
    }
}

/// Walks one statement.
fn collect_stmt(s: &Stmt, v: &mut StorageVisitor)
    ensures
        final(v).keys.deep_view() == keys_stmt(*s, old(v).keys.deep_view()),
        final(v).collisions == old(v).collisions,
    decreases *s,
{
    match s {
        Stmt::ExprStmt { expr } => {
            collect_expr(expr, v);
        },
        Stmt::Local { init, .. } => {
            match init {
                Some(e) => {
                    collect_expr(e, v);
                },
                None => {},
            }
        },
        _ => {},
    }
}

/// Walks a list of statements, in order.
fn collect_stmts(ss: &Vec<Stmt>, v: &mut StorageVisitor)
    ensures
        final(v).keys.deep_view() == keys_stmts(ss@, old(v).keys.deep_view()),
        final(v).collisions == old(v).collisions,
    decreases ss@,
{
    let ghost g0 = v.keys.deep_view();
    let n = ss.len();
    for i in 0..n
        invariant
            n == ss@.len(),
            v.keys.deep_view() == keys_stmts(ss@.take(i as int), g0),
            v.collisions == old(v).collisions,
        decreases n - i,
    {
        collect_stmt(&ss[i], v);
        proof {
            assert(ss@.take(i + 1).drop_last() =~= ss@.take(i as int));
            assert(ss@.take(i + 1).last() == ss@[i as int]);
        }
    }
    proof {
        assert(ss@.take(n as int) =~= ss@);
    }
}

/// Collects literal key values from constants, `Symbol::new` calls and
/// `symbol_short!` macros of `file`, then returns one issue per occurrence of
/// every value that occurs more than once.
pub fn scan_storage_collisions_in_file(file: &SourceFile) -> (r: Vec<StorageCollisionIssue>)
    ensures
        r.deep_view() == file_storage_collisions(*file),
{
    let mut visitor = StorageVisitor::new();
    let n = file.items.len();
    for i in 0..n
        invariant
            n == file.items@.len(),
            visitor.keys.deep_view() == keys_items(
                file.items@.take(i as int),
                Seq::<KeyGroupV>::empty(),
            ),
            visitor.collisions.deep_view() == Seq::<StorageCollisionIssueV>::empty(),
        decreases n - i,
    {
        match &file.items[i] {
            Item::Const { name, str_value, line } => {
                match str_value {
                    Some(val) => {
                        visitor.add_key(
                            val.clone(),
                            String::from_str("const"),
                            name.clone(),
                            *line,
                        );
                    },
                    None => {},
                }
            },
            Item::FreeFn { func } => {
                collect_stmts(&func.body, &mut visitor);
            },
            Item::Impl { fns } => {
                let ghost gb = visitor.keys.deep_view();
                let m = fns.len();
                for j in 0..m
                    invariant
                        m == fns@.len(),
                        visitor.keys.deep_view() == keys_fns(fns@.take(j as int), gb),
                        visitor.collisions.deep_view() == Seq::<StorageCollisionIssueV>::empty(),
                    decreases m - j,
                {
                    collect_stmts(&fns[j].body, &mut visitor);
                    proof {
                        assert(fns@.take(j + 1).drop_last() =~= fns@.take(j as int));
                        assert(fns@.take(j + 1).last() == fns@[j as int]);
                    }
                }
                proof {
                    assert(fns@.take(m as int) =~= fns@);
                }
            },
            _ => {},
        }
        proof {
            assert(file.items@.take(i + 1).drop_last() =~= file.items@.take(i as int));
            assert(file.items@.take(i + 1).last() == file.items@[i as int]);
        }
    }
    proof {
        assert(file.items@.take(n as int) =~= file.items@);
    }
    visitor.final_check();
    proof {
        assert(visitor.collisions.deep_view() =~~= file_storage_collisions(*file));
    }
    visitor.collisions
}

} // verus!
